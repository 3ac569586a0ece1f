//! Character-level plumbing shared by the parsing modules.

use vstd::prelude::*;

verus! {

/// The characters of `s`, one by one.
#[verifier::loop_isolation(false)]
pub fn chars_of(s: &str) -> (r: Vec<char>)
    ensures
        r@ == s@,
{
    let n = s.unicode_len();
    let mut r: Vec<char> = Vec::new();
    let mut i: usize = 0;
    while i < n
        invariant
            i <= n,
            r@ =~= s@.take(i as int),
        decreases n - i,
    {
        r.push(s.get_char(i));
        i += 1;
    }
    proof {
        assert(s@.take(n as int) =~= s@);
    }
    r
}

/// Relies on String's FromIterator over chars: collecting characters
/// yields the string of exactly those characters, in order.
#[verifier::external_body]
pub(crate) fn string_from_chars(v: &Vec<char>) -> (r: String)
    ensures
        r@ == v@,
{
    v.iter().collect()
}

/// What the standard library's upper-casing makes of a string: a
/// function of the characters alone.
pub uninterp spec fn upper_of(s: Seq<char>) -> Seq<char>;

/// Relies on str::to_uppercase: the result depends on the characters
/// alone.
#[verifier::external_body]
fn to_uppercase(s: &str) -> (r: String)
    ensures
        r@ == upper_of(s@),
{
    s.to_uppercase()
}

/// Upper-cases every item, keeping the order — the work a relay of
/// producers and consumers does item by item.
#[verifier::loop_isolation(false)]
pub fn uppercase_all(items: &Vec<String>) -> (r: Vec<String>)
    ensures
        r@.len() == items@.len(),
        forall|i: int| 0 <= i < items@.len() ==> (#[trigger] r@[i])@ == upper_of(items@[i]@),
{
    let mut r: Vec<String> = Vec::new();
    let mut i: usize = 0;
    while i < items.len()
        invariant
            i <= items@.len(),
            r@.len() == i,
            forall|j: int| 0 <= j < i ==> (#[trigger] r@[j])@ == upper_of(items@[j]@),
        decreases items@.len() - i,
    {
        r.push(to_uppercase(items[i].as_str()));
        i += 1;
    }
    r
}

} // verus!
