//! Reading one process's identity out of its kernel stat record.
//!
//! A stat record is one line of fields separated by runs of blanks;
//! the first three are the process id, the command name wrapped in
//! parentheses, and the state letter.  Parsing succeeds exactly when
//! three fields are present; the parentheses around the name are
//! stripped from both ends.

use vstd::prelude::*;

use crate::text::chars_of;
use crate::text::string_from_chars;

verus! {

/// A blank: a character with the Unicode White_Space property, the
/// separator between stat fields.
pub open spec fn is_blank(c: char) -> bool {
    c == ' ' || c == '\u{9}' || c == '\u{A}' || c == '\u{B}' || c == '\u{C}' || c == '\u{D}'
        || c == '\u{85}' || c == '\u{A0}' || c == '\u{1680}' || ('\u{2000}' <= c
        && c <= '\u{200A}') || c == '\u{2028}' || c == '\u{2029}' || c == '\u{202F}' || c
        == '\u{205F}' || c == '\u{3000}'
}

/// Whether `c` is a blank.
pub fn is_blank_char(c: char) -> (r: bool)
    ensures
        r == is_blank(c),
{
    c == ' ' || c == '\u{9}' || c == '\u{A}' || c == '\u{B}' || c == '\u{C}' || c == '\u{D}'
        || c == '\u{85}' || c == '\u{A0}' || c == '\u{1680}' || (c >= '\u{2000}' && c
        <= '\u{200A}') || c == '\u{2028}' || c == '\u{2029}' || c == '\u{202F}' || c
        == '\u{205F}' || c == '\u{3000}'
}

/// `s` with its leading blanks dropped.
pub open spec fn skip_blanks(s: Seq<char>) -> Seq<char>
    decreases s.len(),
{
    if s.len() == 0 {
        s
    } else if is_blank(s.first()) {
        skip_blanks(s.drop_first())
    } else {
        s
    }
}

/// The leading run of non-blanks of `s`.
pub open spec fn head_field(s: Seq<char>) -> Seq<char>
    decreases s.len(),
{
    if s.len() == 0 || is_blank(s.first()) {
        Seq::empty()
    } else {
        seq![s.first()] + head_field(s.drop_first())
    }
}

/// `s` with its leading run of non-blanks dropped.
pub open spec fn after_field(s: Seq<char>) -> Seq<char>
    decreases s.len(),
{
    if s.len() == 0 || is_blank(s.first()) {
        s
    } else {
        after_field(s.drop_first())
    }
}

/// Whether `c` is one of the parentheses wrapping a command name.
pub open spec fn is_paren(c: char) -> bool {
    c == '(' || c == ')'
}

/// `s` with its leading parentheses dropped.
pub open spec fn trim_parens_front(s: Seq<char>) -> Seq<char>
    decreases s.len(),
{
    if s.len() > 0 && is_paren(s.first()) {
        trim_parens_front(s.drop_first())
    } else {
        s
    }
}

/// `s` with its trailing parentheses dropped.
pub open spec fn trim_parens_back(s: Seq<char>) -> Seq<char>
    decreases s.len(),
{
    if s.len() > 0 && is_paren(s.last()) {
        trim_parens_back(s.drop_last())
    } else {
        s
    }
}

/// `s` with parentheses dropped from both ends.
pub open spec fn trim_parens(s: Seq<char>) -> Seq<char> {
    trim_parens_back(trim_parens_front(s))
}

/// What one stat record says, when it says enough: the first field,
/// the second with its parentheses stripped, and the third; nothing
/// when fewer than three fields are present.
pub open spec fn spec_proc_stat(s: Seq<char>) -> Option<(Seq<char>, Seq<char>, Seq<char>)> {
    let r0 = skip_blanks(s);
    let t0 = head_field(r0);
    let r1 = skip_blanks(after_field(r0));
    let t1 = head_field(r1);
    let r2 = skip_blanks(after_field(r1));
    let t2 = head_field(r2);
    if t2.len() == 0 {
        None
    } else {
        Some((t0, trim_parens(t1), t2))
    }
}

/// One process's identity as its stat record gives it.
#[derive(Debug)]
pub struct ProcStat {
    pub pid: String,
    pub name: String,
    pub state: String,
}

/// Reads the next field of `v` starting at `*i`: skips blanks, then
/// collects the field, leaving `*i` just past it.
#[verifier::loop_isolation(false)]
pub(crate) fn next_field(v: &Vec<char>, i: &mut usize) -> (tok: Vec<char>)
    requires
        *old(i) <= v@.len(),
    ensures
        *final(i) <= v@.len(),
        tok@ == head_field(skip_blanks(v@.skip(*old(i) as int))),
        v@.skip(*final(i) as int) == after_field(skip_blanks(v@.skip(*old(i) as int))),
{
    let n = v.len();
    let ghost start = *i as int;
    while *i < n && is_blank_char(v[*i])
        invariant
            start <= *i as int <= n,
            skip_blanks(v@.skip(start)) == skip_blanks(v@.skip(*i as int)),
        decreases n - *i,
    {
        proof {
            assert(v@.skip(*i as int).first() == v@[*i as int]);
            assert(v@.skip(*i as int).drop_first() =~= v@.skip(*i as int + 1));
        }
        *i = *i + 1;
    }
    proof {
        if (*i as int) < n {
            assert(v@.skip(*i as int).first() == v@[*i as int]);
        }
        assert(skip_blanks(v@.skip(*i as int)) == v@.skip(*i as int));
    }
    let ghost fstart = *i as int;
    let mut tok: Vec<char> = Vec::new();
    while *i < n && !is_blank_char(v[*i])
        invariant
            fstart <= *i as int <= n,
            tok@ + head_field(v@.skip(*i as int)) == head_field(v@.skip(fstart)),
            after_field(v@.skip(*i as int)) == after_field(v@.skip(fstart)),
        decreases n - *i,
    {
        proof {
            assert(v@.skip(*i as int).first() == v@[*i as int]);
            assert(v@.skip(*i as int).drop_first() =~= v@.skip(*i as int + 1));
            assert((tok@.push(v@[*i as int])) + head_field(v@.skip(*i as int + 1)) =~= tok@
                + head_field(v@.skip(*i as int)));
        }
        tok.push(v[*i]);
        *i = *i + 1;
    }
    proof {
        if (*i as int) < n {
            assert(v@.skip(*i as int).first() == v@[*i as int]);
        }
        assert(head_field(v@.skip(*i as int)) =~= Seq::<char>::empty());
        assert(after_field(v@.skip(*i as int)) == v@.skip(*i as int));
        assert(tok@ =~= tok@ + Seq::<char>::empty());
    }
    tok
}

/// Strips parentheses from both ends of `v`.
#[verifier::loop_isolation(false)]
fn strip_parens(v: &Vec<char>) -> (r: Vec<char>)
    ensures
        r@ == trim_parens(v@),
{
    let mut a: usize = 0;
    let mut b: usize = v.len();
    proof {
        assert(v@.subrange(0, v@.len() as int) =~= v@);
    }
    while a < b && (v[a] == '(' || v[a] == ')')
        invariant
            0 <= a <= b <= v@.len(),
            b == v@.len(),
            trim_parens_front(v@) == trim_parens_front(v@.subrange(a as int, b as int)),
        decreases b - a,
    {
        proof {
            let s = v@.subrange(a as int, b as int);
            assert(s.first() == v@[a as int]);
            assert(s.drop_first() =~= v@.subrange(a as int + 1, b as int));
        }
        a += 1;
    }
    proof {
        let s = v@.subrange(a as int, v@.len() as int);
        if a < v@.len() {
            assert(s.first() == v@[a as int]);
        }
        assert(trim_parens_front(v@) == s);
    }
    let ghost a0 = a as int;
    while b > a && (v[b - 1] == '(' || v[b - 1] == ')')
        invariant
            a0 <= b as int <= v@.len(),
            a as int == a0,
            trim_parens_back(v@.subrange(a0, v@.len() as int)) == trim_parens_back(
                v@.subrange(a0, b as int),
            ),
        decreases b,
    {
        proof {
            let s = v@.subrange(a0, b as int);
            assert(s.last() == v@[b as int - 1]);
            assert(s.drop_last() =~= v@.subrange(a0, b as int - 1));
        }
        b -= 1;
    }
    proof {
        let s = v@.subrange(a0, b as int);
        if (b as int) > a0 {
            assert(s.last() == v@[b as int - 1]);
        }
        assert(trim_parens_back(s) == s);
    }
    let mut r: Vec<char> = Vec::new();
    let mut i: usize = a;
    while i < b
        invariant
            a <= i <= b <= v@.len(),
            r@ =~= v@.subrange(a as int, i as int),
        decreases b - i,
    {
        r.push(v[i]);
        i += 1;
    }
    proof {
        assert(r@ =~= v@.subrange(a as int, b as int));
    }
    r
}

/// Parses one stat record: succeeds on exactly the records with at
/// least three fields, handing back the process id, the command name
/// with its parentheses stripped, and the state.
pub fn parse_proc_stat(content: &str) -> (r: Option<ProcStat>)
    ensures
        match r {
            Some(p) => spec_proc_stat(content@) matches Some(f) && p.pid@ == f.0 && p.name@ == f.1
                && p.state@ == f.2,
            None => spec_proc_stat(content@) is None,
        },
{
    let v = chars_of(content);
    let mut i: usize = 0;
    proof {
        assert(v@.skip(0) =~= v@);
    }
    let t0 = next_field(&v, &mut i);
    let t1 = next_field(&v, &mut i);
    let t2 = next_field(&v, &mut i);
    if t2.len() == 0 {
        None
    } else {
        let name = strip_parens(&t1);
        Some(
            ProcStat {
                pid: string_from_chars(&t0),
                name: string_from_chars(&name),
                state: string_from_chars(&t2),
            },
        )
    }
}

/// Whether every character of `s` is an ASCII digit — how a process
/// directory is told apart from the other kernel entries.
#[verifier::loop_isolation(false)]
pub fn digits_only(s: &str) -> (r: bool)
    ensures
        r == forall|j: int| 0 <= j < s@.len() ==> '0' <= #[trigger] s@[j] <= '9',
{
    let v = chars_of(s);
    let mut i: usize = 0;
    while i < v.len()
        invariant
            i <= v@.len(),
            forall|j: int| 0 <= j < i ==> '0' <= #[trigger] v@[j] <= '9',
        decreases v@.len() - i,
    {
        if !(v[i] >= '0' && v[i] <= '9') {
            return false;
        }
        i += 1;
    }
    true
}

} // verus!
