//! The colours of the shell: those of the harness.

use vstd::prelude::*;
use vstd::string::*;

use crate::repo;
use crate::settings;
use crate::text;
use crate::unicode;

verus! {

/// The section of the settings with the theme.
pub const THEME_ENTRY: &'static str = "ui-theme";

/// The theme that a setting names: that of the system where it names none that is known.
pub open spec fn theme_named(preference: Option<Seq<char>>) -> Seq<char> {
    match preference {
        Some(p) => if p == "light"@ || p == "dark"@ || p == "system"@ {
            p
        } else {
            "system"@
        },
        None => "system"@,
    }
}

/// The theme that a setting names.
pub fn theme_of(preference: Option<&str>) -> (out: String)
    ensures
        out@ == theme_named(repo::text_of(preference)),
{
    match preference {
        Some(p) => if text::same(p, "light") || text::same(p, "dark") || text::same(p, "system") {
            p.to_string()
        } else {
            "system".to_string()
        },
        None => "system".to_string(),
    }
}

/// The theme that the settings name. Each file is given by its text, or by nothing where it
/// cannot be read.
pub fn read_theme_preference(files: &Vec<Option<String>>) -> (out: String)
    ensures
        out@ == theme_named(
            settings::first_held(settings::documents_in(files@), THEME_ENTRY@, "preference"@),
        ),
{
    match settings::entry_string(files, THEME_ENTRY, "preference") {
        Some(p) => theme_of(Some(p.as_str())),
        None => theme_of(None),
    }
}

/// Whether a theme is dark; nothing where the system decides.
pub open spec fn darkness(theme: Seq<char>) -> Option<bool> {
    if theme == "dark"@ {
        Some(true)
    } else if theme == "light"@ {
        Some(false)
    } else {
        None
    }
}

/// Whether a theme is dark; nothing where the system decides.
pub fn prefers_dark(theme: &str) -> (out: Option<bool>)
    ensures
        out == darkness(theme@),
{
    if text::same(theme, "dark") {
        Some(true)
    } else if text::same(theme, "light") {
        Some(false)
    } else {
        None
    }
}

/// A colour: red, green, blue, and how much it covers.
#[derive(Clone, Copy, Debug, PartialEq, Eq, Structural)]
pub struct Rgba {
    pub red: u8,
    pub green: u8,
    pub blue: u8,
    pub alpha: u8,
}

/// The colour behind the page.
pub open spec fn background_of(dark: bool) -> Rgba {
    if dark {
        Rgba { red: 0x14, green: 0x16, blue: 0x1c, alpha: 0xff }
    } else {
        Rgba { red: 0xf5, green: 0xf6, blue: 0xfa, alpha: 0xff }
    }
}

/// The colour behind the page.
pub fn background(dark: bool) -> (out: Rgba)
    ensures
        out == background_of(dark),
{
    if dark {
        Rgba { red: 0x14, green: 0x16, blue: 0x1c, alpha: 0xff }
    } else {
        Rgba { red: 0xf5, green: 0xf6, blue: 0xfa, alpha: 0xff }
    }
}

/// What a theme makes of the window: whether its theme is set to dark or light, or left to the
/// system, and the colour behind the page. `window_dark` is what the window shows where the
/// system decides; it counts as light where that is not known.
pub fn apply_preference(theme: &str, window_dark: Option<bool>) -> (out: (Option<bool>, Rgba))
    ensures
        out.0 == darkness(theme@),
        out.1 == background_of(
            match darkness(theme@) {
                Some(dark) => dark,
                None => window_dark == Some(true),
            },
        ),
{
    let dark: Option<bool> = prefers_dark(theme);
    let shown: bool = match dark {
        Some(d) => d,
        None => match window_dark {
            Some(d) => d,
            None => false,
        },
    };
    (dark, background(shown))
}

/// What the registry of Windows says of the theme of programs: 0 is dark.
pub open spec fn registry_says_dark(output: Seq<char>) -> bool {
    text::has_text(output, "0x0"@)
}

/// Whether what the registry printed says dark.
pub fn reads_dark(output: &str) -> (out: bool)
    ensures
        out == registry_says_dark(output@),
{
    text::contains(output, "0x0")
}

/// What Windows is asked for the theme of programs with.
pub fn registry_args() -> (out: Vec<String>)
    ensures
        text::texts(out@) == seq![
            "query"@,
            "HKCU\\Software\\Microsoft\\Windows\\CurrentVersion\\Themes\\Personalize"@,
            "/v"@,
            "AppsUseLightTheme"@,
        ],
{
    text::four(
        "query",
        "HKCU\\Software\\Microsoft\\Windows\\CurrentVersion\\Themes\\Personalize",
        "/v",
        "AppsUseLightTheme",
    )
}

/// Whether the window opens dark: as the theme says, and otherwise as the system does.
/// `registry` is what the registry of Windows printed; it counts as light where there is none.
pub fn native_theme_prefers_dark(theme: &str, registry: Option<&Vec<u8>>) -> (out: bool)
    ensures
        out == (match darkness(theme@) {
            Some(dark) => dark,
            None => match registry {
                Some(bytes) => registry_says_dark(unicode::lossy_text(bytes@)),
                None => false,
            },
        }),
{
    match prefers_dark(theme) {
        Some(dark) => dark,
        None => match registry {
            Some(bytes) => {
                let output: String = unicode::decode(bytes);
                reads_dark(output.as_str())
            },
            None => false,
        },
    }
}

/// The theme is one of three, whatever the settings hold; where it is not named the system
/// decides.
pub proof fn three_themes(preference: Option<Seq<char>>)
    ensures
        theme_named(preference) == "light"@ || theme_named(preference) == "dark"@ || theme_named(
            preference,
        ) == "system"@,
        preference is None ==> darkness(theme_named(preference)) is None,
{
    reveal_strlit("light");
    reveal_strlit("dark");
    reveal_strlit("system");
    assert("light"@.len() == 5 && "dark"@.len() == 4 && "system"@.len() == 6);
}

/// A theme that the harness knows is the theme of the shell, and anything else, or nothing,
/// leaves it to the system.
pub proof fn named_theme_is_taken(preference: Option<&str>, out: String)
    requires
        call_ensures(theme_of, (preference,), out),
    ensures
        preference is Some && preference->0@ == "light"@ ==> out@ == "light"@,
        preference is Some && preference->0@ == "dark"@ ==> out@ == "dark"@,
        preference is Some && preference->0@ == "system"@ ==> out@ == "system"@,
        preference is None ==> out@ == "system"@,
        out@ == "system"@ || preference is Some && preference->0@ == out@ && (out@ == "light"@
            || out@ == "dark"@),
{
}

/// The theme that is read is the one under `preference` in the section `ui-theme` of the first
/// document that has one there.
pub proof fn theme_is_read_from_its_section(files: &Vec<Option<String>>, out: String)
    requires
        call_ensures(read_theme_preference, (files,), out),
    ensures
        ({
            let found = settings::first_held(
                settings::documents_in(files@),
                "ui-theme"@,
                "preference"@,
            );
            &&& found == Some("light"@) ==> out@ == "light"@
            &&& found == Some("dark"@) ==> out@ == "dark"@
            &&& found == Some("system"@) || found is None ==> out@ == "system"@
            &&& out@ == "system"@ || found == Some(out@) && (out@ == "light"@ || out@ == "dark"@)
        }),
{
}

/// Dark is dark, light is light, and otherwise the system decides.
pub proof fn darkness_is_what_the_theme_says(theme: &str, out: Option<bool>)
    requires
        call_ensures(prefers_dark, (theme,), out),
    ensures
        theme@ == "dark"@ ==> out == Some(true),
        theme@ == "light"@ ==> out == Some(false),
        theme@ != "dark"@ && theme@ != "light"@ ==> out is None,
{
    reveal_strlit("light");
    reveal_strlit("dark");
    assert("light"@.len() == 5 && "dark"@.len() == 4);
}

/// What the window is made to show follows the theme, and where the system decides it follows
/// the window; the page lies on dark or on light accordingly.
pub proof fn window_follows_the_theme(
    theme: &str,
    window_dark: Option<bool>,
    out: (Option<bool>, Rgba),
)
    requires
        call_ensures(apply_preference, (theme, window_dark), out),
    ensures
        ({
            let dark = Rgba { red: 20, green: 22, blue: 28, alpha: 255 };
            let light = Rgba { red: 245, green: 246, blue: 250, alpha: 255 };
            &&& theme@ == "dark"@ ==> out == (Some(true), dark)
            &&& theme@ == "light"@ ==> out == (Some(false), light)
            &&& theme@ != "dark"@ && theme@ != "light"@ ==> out.0 is None
            &&& theme@ != "dark"@ && theme@ != "light"@ && window_dark == Some(true) ==> out.1
                == dark
            &&& theme@ != "dark"@ && theme@ != "light"@ && window_dark != Some(true) ==> out.1
                == light
        }),
{
    reveal_strlit("light");
    reveal_strlit("dark");
    assert("light"@.len() == 5 && "dark"@.len() == 4);
}

/// The colour behind the page before anything is shown is that of the theme.
pub proof fn page_lies_on_its_colour(dark: bool, out: Rgba)
    requires
        call_ensures(background, (dark,), out),
    ensures
        dark ==> out == (Rgba { red: 20, green: 22, blue: 28, alpha: 255 }),
        !dark ==> out == (Rgba { red: 245, green: 246, blue: 250, alpha: 255 }),
{
}

/// The window opens as the theme says; where the system decides, dark exactly where the
/// registry says 0.
pub proof fn window_opens_as_the_theme_says(theme: &str, registry: Option<&Vec<u8>>, out: bool)
    requires
        call_ensures(native_theme_prefers_dark, (theme, registry), out),
    ensures
        theme@ == "dark"@ ==> out,
        theme@ == "light"@ ==> !out,
        theme@ != "dark"@ && theme@ != "light"@ && registry is None ==> !out,
        theme@ != "dark"@ && theme@ != "light"@ && registry is Some ==> out == text::has_text(
            unicode::lossy_text(registry->0@),
            "0x0"@,
        ),
{
    reveal_strlit("light");
    reveal_strlit("dark");
    assert("light"@.len() == 5 && "dark"@.len() == 4);
}

/// Windows is asked for the theme of programs under this name, and dark is told by the number 0,
/// wherever it stands in the answer.
pub proof fn registry_tells_the_theme(
    args: Vec<String>,
    output: &str,
    dark: bool,
    before: Seq<char>,
    after: Seq<char>,
)
    requires
        call_ensures(registry_args, (), args),
        call_ensures(reads_dark, (output,), dark),
    ensures
        text::texts(args@) == seq![
            "query"@,
            "HKCU\\Software\\Microsoft\\Windows\\CurrentVersion\\Themes\\Personalize"@,
            "/v"@,
            "AppsUseLightTheme"@,
        ],
        output@ == before + "0x0"@ + after ==> dark,
        dark ==> text::has_text(output@, "0x0"@),
{
    text::part_stands_between(before, "0x0"@, after);
}

} // verus!
