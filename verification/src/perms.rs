//! Unix-style rendering of file permission bits.
//!
//! A mode word carries one read/write/execute triple per class (user,
//! group, other); each triple is rendered as three characters, `rwx`
//! with `-` for a cleared bit.

use vstd::prelude::*;

verus! {

/// The three characters that render one permission triple of `mode`,
/// read at bit offset `shift`.
pub open spec fn spec_triplet(mode: u32, shift: u32) -> Seq<char> {
    seq![
        if (mode >> shift) & 0x4 != 0 { 'r' } else { '-' },
        if (mode >> shift) & 0x2 != 0 { 'w' } else { '-' },
        if (mode >> shift) & 0x1 != 0 { 'x' } else { '-' },
    ]
}

/// The nine-character permission string for `mode`: user, group and
/// other triples, high bits first.
pub open spec fn spec_permissions(mode: u32) -> Seq<char> {
    spec_triplet(mode, 6) + spec_triplet(mode, 3) + spec_triplet(mode, 0)
}

/// Renders one permission triple of `mode` at bit offset `shift`.
pub fn triplet(mode: u32, shift: u32) -> (r: String)
    requires
        shift < 32,
    ensures
        r@ == spec_triplet(mode, shift),
{
    proof {
        reveal_strlit("r");
        reveal_strlit("w");
        reveal_strlit("x");
        reveal_strlit("-");
    }
    let r: &str = if (mode >> shift) & 0x4 != 0 { "r" } else { "-" };
    let w: &str = if (mode >> shift) & 0x2 != 0 { "w" } else { "-" };
    let x: &str = if (mode >> shift) & 0x1 != 0 { "x" } else { "-" };
    let mut s = String::new();
    s.append(r);
    s.append(w);
    s.append(x);
    proof {
        assert(s@ =~= spec_triplet(mode, shift));
    }
    s
}

/// Renders the full nine-character permission string for `mode`.
pub fn format_permissions(mode: u32) -> (r: String)
    ensures
        r@ == spec_permissions(mode),
{
    let user = triplet(mode, 6);
    let group = triplet(mode, 3);
    let other = triplet(mode, 0);
    let s = user.concat(group.as_str()).concat(other.as_str());
    s
}

/// The ten-character listing string for `mode`: the regular-file flag
/// read off the mode word, then the nine permission characters.
pub open spec fn spec_mode_string(mode: u32) -> Seq<char> {
    seq![if mode & 0o100000 != 0 { '-' } else { 'd' }] + spec_permissions(mode)
}

/// Renders the listing string for `mode`, leading file flag included.
pub fn mode_string(mode: u32) -> (r: String)
    ensures
        r@ == spec_mode_string(mode),
{
    proof {
        reveal_strlit("-");
        reveal_strlit("d");
    }
    let prefix: &str = if mode & 0o100000 != 0 { "-" } else { "d" };
    let mut s = String::new();
    s.append(prefix);
    let rest = format_permissions(mode);
    s.append(rest.as_str());
    proof {
        assert(s@ =~= spec_mode_string(mode));
    }
    s
}

} // verus!
