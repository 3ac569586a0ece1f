//! Picking the connection details out of the network tool's output.
//!
//! The output is lines separated by newlines; the active connection is
//! the first line carrying the "yes:" mark, whose remainder names the
//! network, and the signal strength is the second blank-separated
//! field of the first line marked with an asterisk.  Running the tool
//! stays with the caller; every decision about its output is verified
//! here.

use vstd::prelude::*;

use crate::procstat::head_field;
use crate::procstat::skip_blanks;
use crate::procstat::after_field;
use crate::procstat::next_field;
use crate::text::chars_of;
use crate::text::string_from_chars;

verus! {

/// The leading line of `s`: its characters up to the first newline.
pub open spec fn head_line(s: Seq<char>) -> Seq<char>
    decreases s.len(),
{
    if s.len() == 0 || s.first() == '\n' {
        Seq::empty()
    } else {
        seq![s.first()] + head_line(s.drop_first())
    }
}

/// `s` with its leading line and that line's newline dropped.
pub open spec fn after_line(s: Seq<char>) -> Seq<char>
    decreases s.len(),
{
    if s.len() == 0 {
        s
    } else if s.first() == '\n' {
        s.drop_first()
    } else {
        after_line(s.drop_first())
    }
}

/// Dropping a line off a non-empty text shortens it.
proof fn lemma_after_line_shorter(s: Seq<char>)
    requires
        s.len() > 0,
    ensures
        after_line(s).len() < s.len(),
    decreases s.len(),
{
    if s.first() != '\n' {
        if s.len() > 1 {
            lemma_after_line_shorter(s.drop_first());
        } else {
            assert(s.drop_first().len() == 0);
            assert(after_line(s.drop_first()) == s.drop_first());
        }
    }
}

/// The first line of `s` that starts with `p`, if any.
pub open spec fn line_starting(s: Seq<char>, p: Seq<char>) -> Option<Seq<char>>
    decreases s.len(),
    via line_starting_dec
{
    if s.len() == 0 {
        None
    } else if p.is_prefix_of(head_line(s)) {
        Some(head_line(s))
    } else {
        line_starting(after_line(s), p)
    }
}

#[via_fn]
proof fn line_starting_dec(s: Seq<char>, p: Seq<char>) {
    if s.len() > 0 {
        lemma_after_line_shorter(s);
    }
}

/// `l` with every leading repetition of the non-empty mark `p`
/// dropped.
pub open spec fn trim_mark(l: Seq<char>, p: Seq<char>) -> Seq<char>
    decreases l.len(),
{
    if p.len() > 0 && p.is_prefix_of(l) {
        trim_mark(l.skip(p.len() as int), p)
    } else {
        l
    }
}

/// Reads the line of `v` starting at `*i`, leaving `*i` past its
/// newline.
#[verifier::loop_isolation(false)]
fn next_line(v: &Vec<char>, i: &mut usize) -> (line: Vec<char>)
    requires
        *old(i) <= v@.len(),
    ensures
        *final(i) <= v@.len(),
        *old(i) < v@.len() ==> *old(i) < *final(i),
        line@ == head_line(v@.skip(*old(i) as int)),
        v@.skip(*final(i) as int) == after_line(v@.skip(*old(i) as int)),
{
    let n = v.len();
    let ghost start = *i as int;
    let mut line: Vec<char> = Vec::new();
    while *i < n && v[*i] != '\n'
        invariant
            start <= *i as int <= n,
            line@ + head_line(v@.skip(*i as int)) == head_line(v@.skip(start)),
            after_line(v@.skip(*i as int)) == after_line(v@.skip(start)),
        decreases n - *i,
    {
        proof {
            assert(v@.skip(*i as int).first() == v@[*i as int]);
            assert(v@.skip(*i as int).drop_first() =~= v@.skip(*i as int + 1));
            assert((line@.push(v@[*i as int])) + head_line(v@.skip(*i as int + 1)) =~= line@
                + head_line(v@.skip(*i as int)));
        }
        line.push(v[*i]);
        *i = *i + 1;
    }
    proof {
        if (*i as int) < n {
            assert(v@.skip(*i as int).first() == v@[*i as int]);
        }
        assert(head_line(v@.skip(*i as int)) =~= Seq::<char>::empty());
        assert(line@ =~= line@ + Seq::<char>::empty());
    }
    if *i < n {
        proof {
            assert(v@.skip(*i as int).first() == v@[*i as int]);
            assert(v@.skip(*i as int).drop_first() =~= v@.skip(*i as int + 1));
        }
        *i = *i + 1;
    }
    line
}

/// Whether `p` is a prefix of `l`.
#[verifier::loop_isolation(false)]
fn starts_with(l: &Vec<char>, p: &Vec<char>) -> (r: bool)
    ensures
        r == p@.is_prefix_of(l@),
{
    if p.len() > l.len() {
        return false;
    }
    let mut j: usize = 0;
    while j < p.len()
        invariant
            j <= p@.len() <= l@.len(),
            forall|j2: int| 0 <= j2 < j ==> l@[j2] == p@[j2],
        decreases p@.len() - j,
    {
        if l[j] != p[j] {
            proof {
                assert(l@.subrange(0, p@.len() as int)[j as int] == l@[j as int]);
            }
            return false;
        }
        j += 1;
    }
    proof {
        assert(l@.subrange(0, p@.len() as int) =~= p@);
    }
    true
}

/// Finds the first line of `text` that starts with `p`.
#[verifier::loop_isolation(false)]
fn find_line_with_prefix(text: &Vec<char>, p: &Vec<char>) -> (r: Option<Vec<char>>)
    ensures
        match r {
            Some(l) => line_starting(text@, p@) == Some(l@),
            None => line_starting(text@, p@) is None,
        },
{
    let mut i: usize = 0;
    proof {
        assert(text@.skip(0) =~= text@);
    }
    while i < text.len()
        invariant
            i <= text@.len(),
            line_starting(text@, p@) == line_starting(text@.skip(i as int), p@),
        decreases text@.len() - i,
    {
        let line = next_line(text, &mut i);
        if starts_with(&line, p) {
            return Some(line);
        }
    }
    None
}

/// Strips every leading repetition of the non-empty mark `p` off `l`.
#[verifier::loop_isolation(false)]
fn strip_mark(l: Vec<char>, p: &Vec<char>) -> (r: Vec<char>)
    requires
        p@.len() > 0,
    ensures
        r@ == trim_mark(l@, p@),
{
    let ghost orig = l@;
    let mut l = l;
    loop
        invariant
            p@.len() > 0,
            trim_mark(l@, p@) == trim_mark(orig, p@),
        decreases l@.len(),
    {
        if !starts_with(&l, p) {
            return l;
        }
        let mut rest: Vec<char> = Vec::new();
        let mut j: usize = p.len();
        while j < l.len()
            invariant
                p@.len() <= j <= l@.len(),
                rest@ =~= l@.subrange(p@.len() as int, j as int),
            decreases l@.len() - j,
        {
            rest.push(l[j]);
            j += 1;
        }
        proof {
            assert(rest@ =~= l@.skip(p@.len() as int));
        }
        l = rest;
    }
}

/// The network the tool reports as active: the remainder of the first
/// line marked "yes:", or "(not connected)" when no line carries the
/// mark.
pub fn active_ssid(output: &str) -> (r: String)
    ensures
        match line_starting(output@, "yes:"@) {
            Some(l) => r@ == trim_mark(l, "yes:"@),
            None => r@ == "(not connected)"@,
        },
{
    proof {
        reveal_strlit("yes:");
    }
    let text = chars_of(output);
    let mark = chars_of("yes:");
    match find_line_with_prefix(&text, &mark) {
        Some(line) => {
            let trimmed = strip_mark(line, &mark);
            string_from_chars(&trimmed)
        },
        None => String::from_str("(not connected)"),
    }
}

/// The signal strength the tool reports for the line in use: the
/// second blank-separated field of the first line marked "*", or
/// "unknown" when there is no such line or no such field.
pub fn signal_strength(output: &str) -> (r: String)
    ensures
        match line_starting(output@, "*"@) {
            Some(l) => {
                let second = head_field(skip_blanks(after_field(skip_blanks(l))));
                if second.len() == 0 {
                    r@ == "unknown"@
                } else {
                    r@ == second
                }
            },
            None => r@ == "unknown"@,
        },
{
    proof {
        reveal_strlit("*");
    }
    let text = chars_of(output);
    let mark = chars_of("*");
    match find_line_with_prefix(&text, &mark) {
        Some(line) => {
            let mut pos: usize = 0;
            proof {
                assert(line@.skip(0) =~= line@);
            }
            let first = next_field(&line, &mut pos);
            let second = next_field(&line, &mut pos);
            if second.len() == 0 {
                String::from_str("unknown")
            } else {
                string_from_chars(&second)
            }
        },
        None => String::from_str("unknown"),
    }
}

} // verus!
