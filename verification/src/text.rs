//! Text helpers shared by the diff engine and the renderer.

use vstd::prelude::*;
use vstd::relations::{sorted_by, total_ordering};
use vstd::seq_lib::lemma_sorted_unique;

verus! {

/// The mathematical model of a string: its sequence of characters.
pub type Text = Seq<char>;

/// Whether two string slices hold the same characters.
pub fn str_eq(a: &str, b: &str) -> (same: bool)
    ensures
        same == (a@ == b@),
{
    let left = a.to_owned();
    let right = b.to_owned();
    left == right
}

/// Whether `name` is one of `names`.
pub fn contains_name(names: &Vec<String>, name: &str) -> (found: bool)
    ensures
        found == names.deep_view().contains(name@),
{
    let mut i: usize = 0;
    while i < names.len()
        invariant
            i <= names.len(),
            forall|j: int| 0 <= j < i ==> names.deep_view()[j] != name@,
        decreases names.len() - i,
    {
        if str_eq(names[i].as_str(), name) {
            assert(names.deep_view()[i as int] == name@);
            return true;
        }
        i += 1;
    }
    false
}

/// Whether two lists hold the same strings in the same order.
pub fn same_texts(a: &Vec<String>, b: &Vec<String>) -> (same: bool)
    ensures
        same == (a.deep_view() == b.deep_view()),
{
    if a.len() != b.len() {
        assert(a.deep_view().len() != b.deep_view().len());
        return false;
    }
    let mut i: usize = 0;
    while i < a.len()
        invariant
            i <= a.len(),
            a.len() == b.len(),
            forall|j: int| 0 <= j < i ==> a.deep_view()[j] == b.deep_view()[j],
        decreases a.len() - i,
    {
        if a[i] != b[i] {
            assert(a.deep_view()[i as int] != b.deep_view()[i as int]);
            return false;
        }
        i += 1;
    }
    assert(a.deep_view() =~= b.deep_view());
    true
}

/// Dictionary order of texts by the code points of their characters: a text
/// comes before every text that it is a beginning of, and otherwise the
/// first character that differs decides.
pub open spec fn text_le(a: Text, b: Text) -> bool
    decreases a.len(),
{
    if a.len() == 0 {
        true
    } else if b.len() == 0 {
        false
    } else if a[0] != b[0] {
        (a[0] as int) < (b[0] as int)
    } else {
        text_le(a.drop_first(), b.drop_first())
    }
}

/// The order of texts as a relation.
pub open spec fn by_text() -> spec_fn(Text, Text) -> bool {
    |a: Text, b: Text| text_le(a, b)
}

/// The texts of `s` in ascending order.
pub open spec fn ascending(s: Seq<Text>) -> Seq<Text> {
    s.sort_by(by_text())
}

proof fn lemma_text_le_reflexive(a: Text)
    ensures
        text_le(a, a),
    decreases a.len(),
{
    if a.len() > 0 {
        lemma_text_le_reflexive(a.drop_first());
    }
}

proof fn lemma_text_le_antisymmetric(a: Text, b: Text)
    requires
        text_le(a, b),
        text_le(b, a),
    ensures
        a == b,
    decreases a.len(),
{
    if a.len() == 0 || b.len() == 0 {
        assert(a =~= b);
    } else {
        lemma_text_le_antisymmetric(a.drop_first(), b.drop_first());
        assert(a =~= seq![a[0]] + a.drop_first());
        assert(b =~= seq![b[0]] + b.drop_first());
    }
}

proof fn lemma_text_le_transitive(a: Text, b: Text, c: Text)
    requires
        text_le(a, b),
        text_le(b, c),
    ensures
        text_le(a, c),
    decreases a.len(),
{
    if a.len() > 0 && b.len() > 0 && c.len() > 0 {
        if a[0] == b[0] && b[0] == c[0] {
            lemma_text_le_transitive(a.drop_first(), b.drop_first(), c.drop_first());
        }
    }
}

proof fn lemma_text_le_connected(a: Text, b: Text)
    ensures
        text_le(a, b) || text_le(b, a),
    decreases a.len(),
{
    if a.len() > 0 && b.len() > 0 {
        if a[0] == b[0] {
            lemma_text_le_connected(a.drop_first(), b.drop_first());
        } else {
            assert(a[0] as int != b[0] as int);
        }
    }
}

/// The order of texts is total: any two texts compare, and only equal texts
/// compare both ways.
pub proof fn lemma_text_order_total()
    ensures
        total_ordering(by_text()),
{
    let r = by_text();
    assert forall|x: Text| #[trigger] r(x, x) by {
        lemma_text_le_reflexive(x);
    }
    assert forall|x: Text, y: Text| #[trigger] r(x, y) && #[trigger] r(y, x) implies x == y by {
        lemma_text_le_antisymmetric(x, y);
    }
    assert forall|x: Text, y: Text, z: Text| #[trigger] r(x, y) && #[trigger] r(y, z) implies r(
        x,
        z,
    ) by {
        lemma_text_le_transitive(x, y, z);
    }
    assert forall|x: Text, y: Text| #[trigger] r(x, y) || #[trigger] r(y, x) by {
        lemma_text_le_connected(x, y);
    }
}

/// A list in ascending order with the texts of `s` is `ascending(s)`.
pub proof fn lemma_ascending_unique(s: Seq<Text>, sorted: Seq<Text>)
    requires
        sorted_by(sorted, by_text()),
        sorted.to_multiset() == s.to_multiset(),
    ensures
        sorted == ascending(s),
{
    lemma_text_order_total();
    s.lemma_sort_by_ensures(by_text());
    lemma_sorted_unique(sorted, ascending(s), by_text());
}

/// Sorts strings with `sort` of the standard library, which orders strings
/// by their bytes and so, as its documentation says, by the code points of
/// their characters. The contract claims that the strings come out in the
/// order `text_le`, and that they are the strings that went in.
#[verifier::external_body]
fn sort_strings(strings: &mut Vec<String>)
    ensures
        sorted_by(final(strings).deep_view(), by_text()),
        final(strings).deep_view().to_multiset() == old(strings).deep_view().to_multiset(),
{
    strings.sort();
}

/// Puts strings into ascending order.
pub fn sort_texts(strings: &mut Vec<String>)
    ensures
        final(strings).deep_view() == ascending(old(strings).deep_view()),
{
    let ghost before = strings.deep_view();
    sort_strings(strings);
    proof {
        lemma_ascending_unique(before, strings.deep_view());
    }
}

/// Appends `piece` to `out`.
pub fn put(out: &mut String, piece: &str)
    ensures
        final(out)@ == old(out)@ + piece@,
{
    out.append(piece);
}

/// The texts of `parts` one after another.
pub open spec fn concat(parts: Seq<Text>) -> Text
    decreases parts.len(),
{
    if parts.len() == 0 {
        Seq::empty()
    } else {
        concat(parts.drop_last()) + parts.last()
    }
}

/// The texts of `parts` with `", "` between them.
pub open spec fn comma_separated(parts: Seq<Text>) -> Text
    decreases parts.len(),
{
    if parts.len() == 0 {
        Seq::empty()
    } else if parts.len() == 1 {
        parts[0]
    } else {
        comma_separated(parts.drop_last()) + ", "@ + parts.last()
    }
}

/// A list as the debug format writes it: in brackets, with `", "` between the items.
pub open spec fn bracketed(items: Seq<Text>) -> Text {
    "["@ + comma_separated(items) + "]"@
}

/// The decimal digit `d`.
pub open spec fn digit_text(d: int) -> Text {
    if d == 0 {
        "0"@
    } else if d == 1 {
        "1"@
    } else if d == 2 {
        "2"@
    } else if d == 3 {
        "3"@
    } else if d == 4 {
        "4"@
    } else if d == 5 {
        "5"@
    } else if d == 6 {
        "6"@
    } else if d == 7 {
        "7"@
    } else if d == 8 {
        "8"@
    } else {
        "9"@
    }
}

/// The number `n` in decimal digits, without leading zeros.
pub open spec fn decimal_text(n: int) -> Text
    decreases n,
{
    if n < 10 {
        digit_text(n)
    } else {
        decimal_text(n / 10) + digit_text(n % 10)
    }
}

/// `"true"` or `"false"`.
pub open spec fn bool_text(b: bool) -> Text {
    if b {
        "true"@
    } else {
        "false"@
    }
}

fn digit_str(d: u8) -> (digit: &'static str)
    requires
        d < 10,
    ensures
        digit@ == digit_text(d as int),
{
    if d == 0 {
        "0"
    } else if d == 1 {
        "1"
    } else if d == 2 {
        "2"
    } else if d == 3 {
        "3"
    } else if d == 4 {
        "4"
    } else if d == 5 {
        "5"
    } else if d == 6 {
        "6"
    } else if d == 7 {
        "7"
    } else if d == 8 {
        "8"
    } else {
        "9"
    }
}

/// Writes a number in decimal digits.
pub fn decimal_string(n: u8) -> (digits: String)
    ensures
        digits@ == decimal_text(n as int),
{
    let mut digits = String::new();
    if n >= 100 {
        put(&mut digits, digit_str(n / 100));
        assert(decimal_text((n / 100) as int) == digit_text((n / 100) as int));
    }
    if n >= 10 {
        put(&mut digits, digit_str((n / 10) % 10));
        assert((n as int / 10) / 10 == n as int / 100);
        assert(digits@ =~= decimal_text(n as int / 10));
    }
    put(&mut digits, digit_str(n % 10));
    digits
}

/// Writes `true` or `false`.
pub fn bool_str(b: bool) -> (word: &'static str)
    ensures
        word@ == bool_text(b),
{
    if b {
        "true"
    } else {
        "false"
    }
}

/// A string as the debug format of the standard library writes it: between
/// double quotes, with the characters escaped that cannot stand for themselves.
pub uninterp spec fn debug_text(s: Text) -> Text;

/// Formats a string with `{:?}`. The contract gives the result its name,
/// `debug_text` of the characters that went in, and claims no more of it.
#[verifier::external_body]
pub(crate) fn debug_string(s: &str) -> (quoted: String)
    ensures
        quoted@ == debug_text(s@),
{
    format!("{:?}", s)
}

} // verus!
