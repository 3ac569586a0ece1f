//! A model of the remote object store: a flat namespace of string keys,
//! each holding one opaque byte payload.
//!
//! A put creates or overwrites the payload at its key — the documented
//! behaviour on which the walker's flat, base-name-only key scheme
//! silently relies when two files share a base name.  Tests drive runs
//! against this model in place of a live backend.

use vstd::prelude::*;

verus! {

/// The mapping that a row of stored objects denotes: later writes to a
/// key shadow earlier ones.
pub open spec fn objects_map(s: Seq<(String, Vec<u8>)>) -> Map<Seq<char>, Seq<u8>>
    decreases s.len(),
{
    if s.len() == 0 {
        Map::empty()
    } else {
        objects_map(s.drop_last()).insert(s.last().0@, s.last().1@)
    }
}

/// An object store holding one payload per key.
#[derive(Debug)]
pub struct Bucket {
    pub objects: Vec<(String, Vec<u8>)>,
}

impl View for Bucket {
    type V = Map<Seq<char>, Seq<u8>>;

    open spec fn view(&self) -> Map<Seq<char>, Seq<u8>> {
        objects_map(self.objects@)
    }
}

/// Writes at or beyond position `i` are the only ones that can affect
/// a key no such write names.
proof fn lemma_objects_map_unnamed(s: Seq<(String, Vec<u8>)>, k: Seq<char>, i: int)
    requires
        0 <= i <= s.len(),
        forall|j: int| i <= j < s.len() ==> (#[trigger] s[j]).0@ != k,
    ensures
        objects_map(s).contains_key(k) == objects_map(s.take(i)).contains_key(k),
        objects_map(s).contains_key(k) ==> objects_map(s)[k] == objects_map(s.take(i))[k],
    decreases s.len() - i,
{
    if i == s.len() {
        assert(s.take(i) =~= s);
    } else {
        assert(s[s.len() - 1].0@ != k);
        lemma_objects_map_unnamed(s.drop_last(), k, i);
        assert(s.drop_last().take(i) =~= s.take(i));
    }
}

impl Bucket {
    /// An empty store.
    pub fn new() -> (b: Bucket)
        ensures
            b@ == Map::<Seq<char>, Seq<u8>>::empty(),
    {
        let b = Bucket { objects: Vec::new() };
        b
    }

    /// Stores `content` at `key`, creating the object or overwriting
    /// whatever payload the key held before.
    pub fn put(&mut self, key: String, content: Vec<u8>)
        ensures
            final(self)@ == old(self)@.insert(key@, content@),
    {
        let ghost k = key@;
        let ghost c = content@;
        self.objects.push((key, content));
        proof {
            assert(self.objects@.drop_last() =~= old(self).objects@);
            assert(self.objects@.last().0@ == k && self.objects@.last().1@ == c);
        }
    }

    /// Looks up the payload at `key`: the most recent write to it, or
    /// nothing if no write ever named it.
    #[verifier::loop_isolation(false)]
    pub fn get(&self, key: &String) -> (r: Option<&Vec<u8>>)
        ensures
            match r {
                Some(v) => self@.contains_key(key@) && v@ == self@[key@],
                None => !self@.contains_key(key@),
            },
    {
        let s = &self.objects;
        let mut i: usize = s.len();
        while i > 0
            invariant
                i <= s@.len(),
                forall|j: int| i <= j < s@.len() ==> (#[trigger] s@[j]).0@ != key@,
            decreases i,
        {
            if s[i - 1].0.eq(key) {
                proof {
                    lemma_objects_map_unnamed(s@, key@, i as int);
                    let tk = s@.take(i as int);
                    assert(tk.drop_last() =~= s@.take(i as int - 1));
                    assert(tk.last() == s@[i as int - 1]);
                    assert(objects_map(tk).contains_key(key@));
                    assert(objects_map(tk)[key@] == s@[i as int - 1].1@);
                }
                return Some(&s[i - 1].1);
            }
            i -= 1;
        }
        proof {
            lemma_objects_map_unnamed(s@, key@, 0);
            assert(s@.take(0) =~= Seq::<(String, Vec<u8>)>::empty());
        }
        None
    }
}

/// Key collision resolves by overwrite: two puts to one key, in either
/// store state, leave exactly the second payload at that key — the
/// documented fate of two planned uploads whose files share a base name.
pub proof fn lemma_same_key_overwrites(
    m: Map<Seq<char>, Seq<u8>>,
    k: Seq<char>,
    v1: Seq<u8>,
    v2: Seq<u8>,
)
    ensures
        m.insert(k, v1).insert(k, v2) == m.insert(k, v2),
        m.insert(k, v1).insert(k, v2)[k] == v2,
{
    assert(m.insert(k, v1).insert(k, v2) =~= m.insert(k, v2));
}

} // verus!
