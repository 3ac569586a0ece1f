//! The directory-listing table: one row per entry, ordered by size.
//!
//! Collecting the rows touches the filesystem and stays with the
//! caller; the ordering of the table — descending by file size, rows
//! of equal size keeping their arrival order, no row gained or lost —
//! is verified here.

use vstd::prelude::*;

use vstd::seq_lib::group_to_multiset_ensures;
use vstd::seq_lib::to_multiset_build;

verus! {

/// One row of the listing: a file's name, kind label, size in bytes,
/// modification stamp and permission string, all already rendered.
#[derive(Debug)]
pub struct FileInfo {
    pub name: String,
    pub file_type: String,
    pub size: u64,
    pub modified: String,
    pub permissions: String,
}

/// Rows in non-increasing order of size.
pub open spec fn sorted_by_size_desc(s: Seq<FileInfo>) -> bool {
    forall|a: int, b: int| 0 <= a < b < s.len() ==> s[a].size >= s[b].size
}

/// Where row `e` lands among rows already ordered largest first:
/// after every row at least its size, before the first strictly
/// smaller one — so rows of equal size keep their arrival order.
pub open spec fn insert_desc(s: Seq<FileInfo>, e: FileInfo) -> Seq<FileInfo>
    decreases s.len(),
{
    if s.len() == 0 {
        seq![e]
    } else if s.last().size < e.size {
        insert_desc(s.drop_last(), e).push(s.last())
    } else {
        s.push(e)
    }
}

/// The stable, descending-by-size ordering of `s`: each row inserted
/// in turn behind its equals.
pub open spec fn sort_desc(s: Seq<FileInfo>) -> Seq<FileInfo>
    decreases s.len(),
{
    if s.len() == 0 {
        s
    } else {
        insert_desc(sort_desc(s.drop_last()), s.last())
    }
}

/// Where every row from position `j` on is strictly smaller than `e`
/// and the row before `j`, if any, is at least its size, the
/// insertion lands exactly at `j`.
proof fn lemma_insert_desc_at(s: Seq<FileInfo>, e: FileInfo, j: int)
    requires
        0 <= j <= s.len(),
        forall|idx: int| j <= idx < s.len() ==> (#[trigger] s[idx]).size < e.size,
        j > 0 ==> s[j - 1].size >= e.size,
    ensures
        insert_desc(s, e) == s.take(j) + seq![e] + s.skip(j),
    decreases s.len(),
{
    if j == s.len() {
        assert(insert_desc(s, e) =~= s.take(j) + seq![e] + s.skip(j));
    } else {
        assert(s[s.len() - 1].size < e.size);
        assert(forall|idx: int|
            j <= idx < s.drop_last().len() ==> (#[trigger] s.drop_last()[idx]).size < e.size);
        lemma_insert_desc_at(s.drop_last(), e, j);
        assert(insert_desc(s, e) =~= s.take(j) + seq![e] + s.skip(j));
    }
}

/// Inserts row `e` into the ordered rows `out`, behind every row at
/// least its size.
#[verifier::loop_isolation(false)]
fn insert_row(out: &mut Vec<FileInfo>, e: FileInfo)
    requires
        sorted_by_size_desc(old(out)@),
    ensures
        final(out)@ == insert_desc(old(out)@, e),
        sorted_by_size_desc(final(out)@),
        final(out)@.to_multiset() == old(out)@.to_multiset().insert(e),
        final(out)@.len() == old(out)@.len() + 1,
{
    broadcast use vstd::seq_lib::to_multiset_insert;

    let mut j: usize = out.len();
    while j > 0 && out[j - 1].size < e.size
        invariant
            j <= out@.len(),
            out@ == old(out)@,
            forall|idx: int| j as int <= idx < out@.len() ==> (#[trigger] out@[idx]).size
                < e.size,
        decreases j,
    {
        j -= 1;
    }
    proof {
        lemma_insert_desc_at(out@, e, j as int);
    }
    out.insert(j, e);
    proof {
        let shape = old(out)@.take(j as int) + seq![e] + old(out)@.skip(j as int);
        assert(out@ =~= shape);
        assert forall|a: int, b: int| 0 <= a < b < out@.len() implies out@[a].size
            >= out@[b].size by {
            if a < j && b < j {
                assert(out@[a] == old(out)@[a] && out@[b] == old(out)@[b]);
            } else if a < j && b == j {
                assert(out@[a] == old(out)@[a]);
                if (j as int) < old(out)@.len() {
                    assert(old(out)@[a].size >= e.size || a == j - 1);
                }
            } else if a == j {
                assert(out@[b] == old(out)@[b - 1]);
            } else if a > j {
                assert(out@[a] == old(out)@[a - 1] && out@[b] == old(out)@[b - 1]);
            } else {
                assert(out@[a] == old(out)@[a] && out@[b] == old(out)@[b - 1]);
            }
        }
    }
}

/// Sorts the rows by size, largest first and stably: the result is
/// exactly [`sort_desc`] of the input, so rows of equal size keep
/// their relative order and no row is gained or lost.
#[verifier::loop_isolation(false)]
pub fn sort_by_size_desc(files: &mut Vec<FileInfo>)
    ensures
        final(files)@ == sort_desc(old(files)@),
        sorted_by_size_desc(final(files)@),
        final(files)@.to_multiset() == old(files)@.to_multiset(),
        final(files)@.len() == old(files)@.len(),
{
    broadcast use group_to_multiset_ensures;
    broadcast use to_multiset_build;

    let ghost orig = files@;
    let mut out: Vec<FileInfo> = Vec::new();
    let ghost mut k: int = 0;
    proof {
        assert(orig.take(0) =~= Seq::<FileInfo>::empty());
        assert(out@.to_multiset() =~= orig.take(0).to_multiset());
    }
    while files.len() > 0
        invariant
            0 <= k <= orig.len(),
            files@ =~= orig.skip(k),
            out@ == sort_desc(orig.take(k)),
            sorted_by_size_desc(out@),
            out@.to_multiset() == orig.take(k).to_multiset(),
            out@.len() == k,
        decreases files@.len(),
    {
        let e = files.remove(0);
        proof {
            assert(e == orig[k]);
            let tk = orig.take(k + 1);
            assert(tk.drop_last() =~= orig.take(k));
            assert(tk.last() == orig[k]);
            assert(tk =~= orig.take(k).push(orig[k]));
        }
        insert_row(&mut out, e);
        proof {
            k = k + 1;
            assert(files@ =~= orig.skip(k));
        }
    }
    proof {
        assert(orig.take(orig.len() as int) =~= orig);
    }
    let sorted = out;
    *files = sorted;
}

} // verus!
