//! The language of the shell: that of the harness.

use vstd::prelude::*;
use vstd::string::*;

use crate::repo;
use crate::settings;
use crate::text;

verus! {

/// The section of the settings with the language.
pub const LOCALE_ENTRY: &'static str = "locale";

/// The language that a setting names, whatever its region: Chinese where it names neither of
/// the two.
pub open spec fn locale_named(preference: Option<Seq<char>>) -> Seq<char> {
    match preference {
        Some(p) => if text::begins_with(text::lowered(p), "zh"@) {
            "zh"@
        } else if text::begins_with(text::lowered(p), "en"@) {
            "en"@
        } else {
            "zh"@
        },
        None => "zh"@,
    }
}

/// The language that a setting names.
pub fn locale_of(preference: Option<&str>) -> (out: String)
    ensures
        out@ == locale_named(repo::text_of(preference)),
{
    match preference {
        Some(p) => if text::lower_starts_with(p, "zh") {
            "zh".to_string()
        } else if text::lower_starts_with(p, "en") {
            "en".to_string()
        } else {
            "zh".to_string()
        },
        None => "zh".to_string(),
    }
}

/// The language that the settings name. Each file is given by its text, or by nothing where it
/// cannot be read.
pub fn read_locale_preference(files: &Vec<Option<String>>) -> (out: String)
    ensures
        out@ == locale_named(
            settings::first_held(settings::documents_in(files@), LOCALE_ENTRY@, "preference"@),
        ),
{
    match settings::entry_string(files, LOCALE_ENTRY, "preference") {
        Some(p) => locale_of(Some(p.as_str())),
        None => locale_of(None),
    }
}

/// The language of the shell now.
pub fn current_locale(files: &Vec<Option<String>>) -> (out: String)
    ensures
        out@ == locale_named(
            settings::first_held(settings::documents_in(files@), LOCALE_ENTRY@, "preference"@),
        ),
{
    read_locale_preference(files)
}

/// The language is Chinese.
pub open spec fn is_chinese(locale: Seq<char>) -> bool {
    text::begins_with(locale, "zh"@)
}

/// The entries of the tray's menu: to show the window, and to quit.
pub fn tray_labels(locale: &str) -> (out: (&'static str, &'static str))
    ensures
        out.0@ == (if is_chinese(locale@) {
            "显示主窗口"@
        } else {
            "Show Window"@
        }),
        out.1@ == (if is_chinese(locale@) {
            "退出"@
        } else {
            "Quit"@
        }),
{
    if text::starts_with(locale, "zh") {
        ("显示主窗口", "退出")
    } else {
        ("Show Window", "Quit")
    }
}

/// The title of the dialog in which a directory is chosen.
pub fn picker_title(locale: &str) -> (out: &'static str)
    ensures
        out@ == (if is_chinese(locale@) {
            "选择 dsh 安装目录"@
        } else {
            "Choose dsh install folder"@
        }),
{
    if text::starts_with(locale, "zh") {
        "选择 dsh 安装目录"
    } else {
        "Choose dsh install folder"
    }
}

/// The shell speaks one of two languages, whatever the settings hold.
pub proof fn two_languages(preference: Option<Seq<char>>)
    ensures
        locale_named(preference) == "zh"@ || locale_named(preference) == "en"@,
        preference is None ==> locale_named(preference) == "zh"@,
{
}

/// A language is known by its first two letters, in whatever case and whatever region follows;
/// where it is neither of the two, or not set, the shell speaks Chinese.
pub proof fn language_is_known_by_its_letters(preference: Option<&str>, out: String)
    requires
        call_ensures(locale_of, (preference,), out),
    ensures
        ({
            let p = preference->0@;
            let en = preference is Some && p.len() >= 2 && (p[0] == 'e' || p[0] == 'E') && (p[1]
                == 'n' || p[1] == 'N');
            &&& en ==> out@ == "en"@
            &&& !en ==> out@ == "zh"@
        }),
{
    reveal_strlit("zh");
    reveal_strlit("en");
    let p = preference->0@;
    let low = text::lowered(p);
    if preference is Some {
        if p.len() >= 2 {
            let two = low.subrange(0, 2);
            assert(two[0] == text::lower(p[0]) && two[1] == text::lower(p[1]));
            if two[0] == 'e' && two[1] == 'n' {
                assert(two =~= "en"@);
            }
            if text::begins_with(low, "en"@) {
                assert(two =~= "en"@);
            }
            if text::begins_with(low, "zh"@) {
                assert(two =~= "zh"@);
                assert("zh"@[0] == 'z');
            }
        }
    }
}

/// The language that is read is the one under `preference` in the section `locale` of the first
/// document that has one there.
pub proof fn language_is_read_from_its_section(
    files: &Vec<Option<String>>,
    read: String,
    current: String,
)
    requires
        call_ensures(read_locale_preference, (files,), read),
        call_ensures(current_locale, (files,), current),
    ensures
        read@ == current@,
        read@ == locale_named(
            settings::first_held(settings::documents_in(files@), "locale"@, "preference"@),
        ),
{
}

/// Menu and dialogs speak Chinese exactly where the language is Chinese.
pub proof fn labels_follow_the_language(
    locale: &str,
    labels: (&'static str, &'static str),
    title: &'static str,
)
    requires
        call_ensures(tray_labels, (locale,), labels),
        call_ensures(picker_title, (locale,), title),
    ensures
        locale@ == "zh"@ ==> labels.0@ == "显示主窗口"@ && labels.1@ == "退出"@ && title@
            == "选择 dsh 安装目录"@,
        locale@ == "en"@ ==> labels.0@ == "Show Window"@ && labels.1@ == "Quit"@ && title@
            == "Choose dsh install folder"@,
{
    reveal_strlit("zh");
    reveal_strlit("en");
    let none: Seq<char> = seq![];
    text::part_stands_between(none, "zh"@, none);
    assert("zh"@ + none =~= "zh"@);
    if text::begins_with("en"@, "zh"@) {
        assert("en"@.subrange(0, 2)[0] == "zh"@[0]);
    }
}

} // verus!
