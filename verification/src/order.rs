//! Alphabetical order of texts, and lists put in order.

use vstd::prelude::*;

use crate::digits;
use crate::text;

verus! {

/// `a` comes before `b` in the order of the characters' code points. UTF-8 keeps this order,
/// so it is also the order of the bytes.
pub open spec fn text_before(a: Seq<char>, b: Seq<char>) -> bool
    decreases a.len(),
{
    if b.len() == 0 {
        false
    } else if a.len() == 0 {
        true
    } else if a[0] != b[0] {
        a[0] < b[0]
    } else {
        text_before(a.skip(1), b.skip(1))
    }
}

/// What a list is ordered by: the members whose `late` is false come first; within each of
/// the two groups the names go up, or down.
pub struct SortKey {
    pub late: bool,
    pub name: String,
}

/// `SortKey` as plain values.
pub struct KeyView {
    pub late: bool,
    pub name: Seq<char>,
}

impl View for SortKey {
    type V = KeyView;

    open spec fn view(&self) -> KeyView {
        KeyView { late: self.late, name: self.name@ }
    }
}

/// `a` has to stand before `b`.
pub open spec fn key_before(a: KeyView, b: KeyView, down: bool) -> bool {
    if a.late != b.late {
        b.late
    } else if down {
        text_before(b.name, a.name)
    } else {
        text_before(a.name, b.name)
    }
}

/// `places` names each position below `count` once.
pub open spec fn is_rearrangement(places: Seq<usize>, count: nat) -> bool {
    &&& places.len() == count
    &&& places.no_duplicates()
    &&& forall|i: int| 0 <= i < places.len() ==> #[trigger] places[i] < count
}

/// Taken in the order of `places`, the members stand in order, and two that the order does
/// not tell apart stand as they stood before.
pub open spec fn in_order(keys: Seq<KeyView>, places: Seq<usize>, down: bool) -> bool {
    forall|i: int, j: int|
        0 <= i < j < places.len() ==> #[trigger] settled(
            keys,
            places[i] as int,
            places[j] as int,
            down,
        )
}

/// The member at `a` rightly stands before the member at `b`.
pub open spec fn settled(keys: Seq<KeyView>, a: int, b: int, down: bool) -> bool {
    ||| key_before(keys[a], keys[b], down)
    ||| !key_before(keys[b], keys[a], down) && a < b
}

/// The keys of a list, as plain values.
pub open spec fn key_views(keys: Seq<SortKey>) -> Seq<KeyView> {
    keys.map_values(|k: SortKey| k@)
}

/// The members of `list` in the order of `places`.
pub open spec fn rearranged<T>(list: Seq<T>, places: Seq<usize>) -> Seq<T> {
    places.map_values(|p: usize| list[p as int])
}

proof fn lemma_text_irreflexive(a: Seq<char>)
    ensures
        !text_before(a, a),
    decreases a.len(),
{
    if a.len() > 0 {
        lemma_text_irreflexive(a.skip(1));
    }
}

proof fn lemma_text_asymmetric(a: Seq<char>, b: Seq<char>)
    requires
        text_before(a, b),
    ensures
        !text_before(b, a),
    decreases a.len(),
{
    if a.len() > 0 && a[0] == b[0] {
        lemma_text_asymmetric(a.skip(1), b.skip(1));
    }
}

proof fn lemma_text_transitive(a: Seq<char>, b: Seq<char>, c: Seq<char>)
    requires
        text_before(a, b),
        text_before(b, c),
    ensures
        text_before(a, c),
    decreases a.len(),
{
    if a.len() > 0 && a[0] == b[0] && b[0] == c[0] {
        lemma_text_transitive(a.skip(1), b.skip(1), c.skip(1));
    }
}

/// Of two different texts one comes before the other.
pub proof fn text_order_is_total(a: Seq<char>, b: Seq<char>)
    ensures
        text_before(a, b) || text_before(b, a) || a == b,
        !(text_before(a, b) && text_before(b, a)),
        a == b ==> !text_before(a, b),
    decreases a.len(),
{
    if text_before(a, b) {
        lemma_text_asymmetric(a, b);
    }
    lemma_text_irreflexive(a);
    if a.len() > 0 && b.len() > 0 && a[0] == b[0] {
        text_order_is_total(a.skip(1), b.skip(1));
        if a.skip(1) == b.skip(1) {
            assert(a =~= seq![a[0]] + a.skip(1));
            assert(b =~= seq![b[0]] + b.skip(1));
        }
    } else if a.len() == 0 && b.len() == 0 {
        assert(a =~= b);
    }
}

/// Where two texts of one length begin alike, the first piece that differs decides.
pub proof fn lemma_piece_decides(a: Seq<char>, b: Seq<char>, from: int, to: int)
    requires
        a.len() == b.len(),
        0 <= from <= to <= a.len(),
        a.take(from) == b.take(from),
        text_before(a.subrange(from, to), b.subrange(from, to)),
    ensures
        text_before(a, b),
    decreases to,
{
    if from > 0 {
        assert(a[0] == a.take(from)[0]);
        assert(b[0] == b.take(from)[0]);
        assert(a.skip(1).take(from - 1) =~= a.take(from).skip(1));
        assert(b.skip(1).take(from - 1) =~= b.take(from).skip(1));
        assert(a.skip(1).subrange(from - 1, to - 1) =~= a.subrange(from, to));
        assert(b.skip(1).subrange(from - 1, to - 1) =~= b.subrange(from, to));
        lemma_piece_decides(a.skip(1), b.skip(1), from - 1, to - 1);
    } else if to > 0 && a[0] != b[0] {
        assert(a.subrange(0, to)[0] == a[0]);
        assert(b.subrange(0, to)[0] == b[0]);
    } else if to > 0 {
        assert(a.skip(1).take(0) =~= b.skip(1).take(0));
        assert(a.skip(1).subrange(0, to - 1) =~= a.subrange(0, to).skip(1));
        assert(b.skip(1).subrange(0, to - 1) =~= b.subrange(0, to).skip(1));
        lemma_piece_decides(a.skip(1), b.skip(1), 0, to - 1);
    }
}

/// Written with equally many digits, the smaller number comes first, and equal numbers are
/// written alike.
pub proof fn digits_are_ordered(a: Seq<char>, b: Seq<char>)
    requires
        a.len() == b.len(),
        forall|i: int| 0 <= i < a.len() ==> digits::is_digit(#[trigger] a[i]),
        forall|i: int| 0 <= i < b.len() ==> digits::is_digit(#[trigger] b[i]),
    ensures
        digits::value_of(a) < digits::value_of(b) ==> text_before(a, b),
        digits::value_of(a) == digits::value_of(b) ==> a == b,
    decreases a.len(),
{
    if a.len() == 0 {
        assert(a =~= b);
    } else {
        let end = a.len() - 1;
        let (x, y) = (a.drop_last(), b.drop_last());
        digits_are_ordered(x, y);
        assert(digits::is_digit(a[end]) && digits::is_digit(b[end]));
        if digits::value_of(x) < digits::value_of(y) {
            assert(a.take(0) =~= b.take(0));
            assert(a.subrange(0, end) =~= x);
            assert(b.subrange(0, end) =~= y);
            lemma_piece_decides(a, b, 0, end);
        } else if digits::value_of(x) == digits::value_of(y) {
            if a[end] < b[end] {
                assert(a.take(end) =~= x);
                assert(b.take(end) =~= y);
                assert(a.subrange(end, end + 1)[0] < b.subrange(end, end + 1)[0]);
                lemma_piece_decides(a, b, end, end + 1);
            } else if a[end] == b[end] {
                assert(a =~= x.push(a[end]));
                assert(b =~= y.push(b[end]));
            }
        }
    }
}

proof fn lemma_key_order(a: KeyView, b: KeyView, c: KeyView, down: bool)
    ensures
        key_before(a, b, down) ==> !key_before(b, a, down),
        key_before(a, b, down) && key_before(b, c, down) ==> key_before(a, c, down),
        !key_before(a, b, down) && !key_before(b, a, down) ==> a == b,
{
    text_order_is_total(a.name, b.name);
    if key_before(a, b, down) && key_before(b, c, down) && a.late == b.late && b.late == c.late {
        if down {
            lemma_text_transitive(c.name, b.name, a.name);
        } else {
            lemma_text_transitive(a.name, b.name, c.name);
        }
    }
}

proof fn lemma_settled_transitive(keys: Seq<KeyView>, a: int, b: int, c: int, down: bool)
    requires
        settled(keys, a, b, down),
        settled(keys, b, c, down),
    ensures
        settled(keys, a, c, down),
{
    lemma_key_order(keys[a], keys[b], keys[c], down);
    lemma_key_order(keys[b], keys[c], keys[a], down);
    lemma_key_order(keys[c], keys[a], keys[b], down);
}

/// Whether `a` comes before `b`.
pub fn comes_before(a: &str, b: &str) -> (first: bool)
    ensures
        first == text_before(a@, b@),
{
    let left: Vec<char> = text::chars_of(a);
    let right: Vec<char> = text::chars_of(b);
    let mut i: usize = 0;
    assert(left@.skip(0) =~= a@);
    assert(right@.skip(0) =~= b@);
    while i < left.len() && i < right.len()
        invariant
            left@ == a@,
            right@ == b@,
            i <= left@.len(),
            i <= right@.len(),
            text_before(a@, b@) == text_before(left@.skip(i as int), right@.skip(i as int)),
        decreases left@.len() - i,
    {
        assert(left@.skip(i as int)[0] == left@[i as int]);
        assert(right@.skip(i as int)[0] == right@[i as int]);
        if left[i] != right[i] {
            return left[i] < right[i];
        }
        assert(left@.skip(i as int).skip(1) =~= left@.skip(i + 1));
        assert(right@.skip(i as int).skip(1) =~= right@.skip(i + 1));
        i = i + 1;
    }
    i < right.len()
}

fn must_precede(a: &SortKey, b: &SortKey, down: bool) -> (first: bool)
    ensures
        first == key_before(a@, b@, down),
{
    if a.late != b.late {
        b.late
    } else if down {
        comes_before(b.name.as_str(), a.name.as_str())
    } else {
        comes_before(a.name.as_str(), b.name.as_str())
    }
}

/// The positions of the members in the order in which they have to stand; members that the
/// order does not tell apart keep their places.
pub fn sorted_places(keys: &Vec<SortKey>, down: bool) -> (places: Vec<usize>)
    ensures
        is_rearrangement(places@, keys@.len()),
        in_order(key_views(keys@), places@, down),
{
    let ghost views = key_views(keys@);
    let mut places: Vec<usize> = Vec::new();
    let mut next: usize = 0;
    while next < keys.len()
        invariant
            views == key_views(keys@),
            next <= keys@.len(),
            is_rearrangement(places@, next as nat),
            in_order(views, places@, down),
        decreases keys@.len() - next,
    {
        let mut at: usize = places.len();
        while at > 0 && must_precede(&keys[next], &keys[places[at - 1]], down)
            invariant
                views == key_views(keys@),
                next < keys@.len(),
                is_rearrangement(places@, next as nat),
                at <= places@.len(),
                forall|j: int|
                    at <= j < places@.len() ==> key_before(
                        views[next as int],
                        views[#[trigger] places@[j] as int],
                        down,
                    ),
            decreases at,
        {
            assert(places@[at - 1] < next);
            at = at - 1;
        }
        let ghost old_places = places@;
        proof {
            assert forall|i: int| 0 <= i < at implies settled(
                views,
                #[trigger] old_places[i] as int,
                next as int,
                down,
            ) by {
                let last = old_places[at - 1] as int;
                assert(last < next);
                assert(settled(views, last, next as int, down));
                if i < at - 1 {
                    assert(settled(views, old_places[i] as int, last, down));
                    lemma_settled_transitive(
                        views,
                        old_places[i] as int,
                        last,
                        next as int,
                        down,
                    );
                }
            }
        }
        places.insert(at, next);
        proof {
            assert(places@ == old_places.insert(at as int, next));
            assert forall|i: int| 0 <= i < places@.len() implies places@[i] == (if i < at {
                old_places[i]
            } else if i == at {
                next
            } else {
                old_places[i - 1]
            }) by {}
            assert forall|i: int, j: int| 0 <= i < j < places@.len() implies #[trigger] settled(
                views,
                places@[i] as int,
                places@[j] as int,
                down,
            ) by {
                if j == at {
                    assert(settled(views, old_places[i] as int, next as int, down));
                } else if i == at {
                    assert(key_before(views[next as int], views[old_places[j - 1] as int], down));
                } else {
                    let a = if i < at {
                        i
                    } else {
                        i - 1
                    };
                    let b = if j < at {
                        j
                    } else {
                        j - 1
                    };
                    assert(settled(views, old_places[a] as int, old_places[b] as int, down));
                }
            }
        }
        next = next + 1;
    }
    places
}

/// An arrangement of `count` members names every place.
pub proof fn lemma_every_place_is_named(places: Seq<usize>, count: nat, at: int)
    requires
        is_rearrangement(places, count),
        0 <= at < count,
    ensures
        exists|j: int| 0 <= j < places.len() && places[j] == at,
{
    let named = places.map_values(|p: usize| p as int);
    let all = vstd::set_lib::set_int_range(0, count as int);
    vstd::set_lib::lemma_int_range(0, count as int);
    assert(named.no_duplicates());
    named.unique_seq_to_set();
    assert(named.to_set().subset_of(all)) by {
        assert forall|x: int| named.to_set().contains(x) implies all.contains(x) by {
            let i = choose|i: int| 0 <= i < named.len() && named[i] == x;
            assert(places[i] < count);
        }
    }
    vstd::set_lib::lemma_subset_equality(named.to_set(), all);
    assert(named.to_set().contains(at));
    let j = choose|j: int| 0 <= j < named.len() && named[j] == at;
    assert(places[j] == at);
}

proof fn lemma_settled_one_way(keys: Seq<KeyView>, a: int, b: int, down: bool)
    requires
        settled(keys, a, b, down),
        settled(keys, b, a, down),
    ensures
        a == b,
{
    lemma_text_asymmetric(keys[a].name, keys[b].name);
    lemma_text_asymmetric(keys[b].name, keys[a].name);
}

/// The keys decide the arrangement: no two are in order.
pub proof fn arrangement_is_unique(
    keys: Seq<KeyView>,
    p: Seq<usize>,
    q: Seq<usize>,
    down: bool,
)
    requires
        is_rearrangement(p, keys.len()),
        is_rearrangement(q, keys.len()),
        in_order(keys, p, down),
        in_order(keys, q, down),
    ensures
        p == q,
{
    lemma_same_start(keys, p, q, down, keys.len());
    assert(p =~= q);
}

proof fn lemma_same_start(
    keys: Seq<KeyView>,
    p: Seq<usize>,
    q: Seq<usize>,
    down: bool,
    count: nat,
)
    requires
        is_rearrangement(p, keys.len()),
        is_rearrangement(q, keys.len()),
        in_order(keys, p, down),
        in_order(keys, q, down),
        count <= keys.len(),
    ensures
        forall|i: int| 0 <= i < count ==> p[i] == #[trigger] q[i],
    decreases count,
{
    if count > 0 {
        let last = count - 1;
        lemma_same_start(keys, p, q, down, last as nat);
        if p[last] != q[last] {
            lemma_every_place_is_named(q, keys.len(), p[last] as int);
            lemma_every_place_is_named(p, keys.len(), q[last] as int);
            let j = choose|j: int| 0 <= j < q.len() && q[j] == p[last] as int;
            let k = choose|k: int| 0 <= k < p.len() && p[k] == q[last] as int;
            assert(j > last) by {
                if j < last {
                    assert(p[j] == q[j]);
                }
            }
            assert(k > last) by {
                if k < last {
                    assert(p[k] == q[k]);
                }
            }
            assert(settled(keys, p[last] as int, p[k] as int, down));
            assert(settled(keys, q[last] as int, q[j] as int, down));
            lemma_settled_one_way(keys, p[last] as int, q[last] as int, down);
        }
    }
}

/// The first character that differs decides which of two texts comes first; where there is none,
/// the shorter text does.
pub proof fn first_difference_decides(
    common: Seq<char>,
    x: char,
    more_x: Seq<char>,
    y: char,
    more_y: Seq<char>,
)
    ensures
        x != y ==> text_before(common + seq![x] + more_x, common + seq![y] + more_y) == (x < y),
        text_before(common, common + seq![y] + more_y),
        !text_before(common + seq![x] + more_x, common),
        !text_before(common, common),
    decreases common.len(),
{
    let (a, b) = (common + seq![x] + more_x, common + seq![y] + more_y);
    if common.len() > 0 {
        let rest = common.skip(1);
        first_difference_decides(rest, x, more_x, y, more_y);
        assert(a.skip(1) =~= rest + seq![x] + more_x);
        assert(b.skip(1) =~= rest + seq![y] + more_y);
        assert(a[0] == common[0] && b[0] == common[0]);
    } else {
        assert(a[0] == x && b[0] == y);
    }
}

/// A list in order holds each member once; those that come late stand behind the others, and
/// within each group the names go up, or down where that is asked for.
pub proof fn order_is_as_asked(keys: &Vec<SortKey>, down: bool, out: Vec<usize>, i: int, j: int)
    requires
        call_ensures(sorted_places, (keys, down), out),
        0 <= i < j < out@.len(),
    ensures
        out@.len() == keys@.len(),
        out@[i] < keys@.len() && out@[j] < keys@.len() && out@[i] != out@[j],
        ({
            let (a, b) = (keys@[out@[i] as int], keys@[out@[j] as int]);
            &&& a.late ==> b.late
            &&& a.late == b.late && !down ==> !text_before(b.name@, a.name@)
            &&& a.late == b.late && down ==> !text_before(a.name@, b.name@)
            &&& a.late == b.late && a.name@ == b.name@ ==> out@[i] < out@[j]
        }),
{
    let views = key_views(keys@);
    let (p, q) = (out@[i] as int, out@[j] as int);
    assert(settled(views, p, q, down));
    assert(out@[i] < keys@.len() && out@[j] < keys@.len());
    assert(views[p] == keys@[p]@ && views[q] == keys@[q]@);
    text_order_is_total(views[p].name, views[q].name);
    if text_before(views[p].name, views[q].name) {
        lemma_text_asymmetric(views[p].name, views[q].name);
    }
    if text_before(views[q].name, views[p].name) {
        lemma_text_asymmetric(views[q].name, views[p].name);
    }
    lemma_text_irreflexive(views[p].name);
}

} // verus!
