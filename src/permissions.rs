//! Unix permission strings such as `rwxr-x--x`, as a long listing shows them.

use vstd::prelude::*;
use vstd::string::*;

verus! {

/// The three classes of a file's permission bits.
#[derive(Debug, Clone, Copy, PartialEq, Eq, Structural)]
pub enum Owner {
    User,
    Group,
    Other,
}

impl Owner {
    pub open spec fn spec_masks(self) -> [u32; 3] {
        match self {
            Owner::User => [0o400u32, 0o200u32, 0o100u32],
            Owner::Group => [0o40u32, 0o20u32, 0o10u32],
            Owner::Other => [0o4u32, 0o2u32, 0o1u32],
        }
    }

    /// The read, write and execute bits of this class.
    #[verifier::when_used_as_spec(spec_masks)]
    pub fn masks(self) -> (r: [u32; 3])
        ensures
            r == self.spec_masks(),
    {
        match self {
            Owner::User => [0o400u32, 0o200u32, 0o100u32],
            Owner::Group => [0o40u32, 0o20u32, 0o10u32],
            Owner::Other => [0o4u32, 0o2u32, 0o1u32],
        }
    }
}

/// `flag` when `mode` has the bit `mask` set, `-` otherwise.
pub open spec fn perm_char(mode: u32, mask: u32, flag: char) -> char {
    if mode & mask == 0 {
        '-'
    } else {
        flag
    }
}

/// The three letters of one class, as in `r-x`.
pub open spec fn triple(mode: u32, owner: Owner) -> Seq<char> {
    let m = owner.spec_masks();
    seq![perm_char(mode, m[0], 'r'), perm_char(mode, m[1], 'w'), perm_char(mode, m[2], 'x')]
}

/// The nine letters of a mode, user class first.
pub open spec fn mode_string(mode: u32) -> Seq<char> {
    triple(mode, Owner::User) + triple(mode, Owner::Group) + triple(mode, Owner::Other)
}

/// Appends `flag` or `-` to `s`, after whether `mode` has the bit `mask`.
fn push_flag(s: &mut String, mode: u32, mask: u32, letter: &str)
    requires
        letter@.len() == 1,
    ensures
        final(s)@ == old(s)@.push(if mode & mask == 0 { '-' } else { letter@[0] }),
{
    if mode & mask == 0 {
        s.append("-");
        proof {
            reveal_strlit("-");
        }
    } else {
        s.append(letter);
    }
    assert(s@ =~= old(s)@.push(if mode & mask == 0 { '-' } else { letter@[0] }));
}

/// The permission letters of one class of `mode`, such as `rwx` or `r-x`.
pub fn mk_triple(mode: u32, owner: Owner) -> (r: String)
    ensures
        r@ == triple(mode, owner),
{
    let masks = owner.masks();
    let mut s = String::new();
    proof {
        reveal_strlit("r");
        reveal_strlit("w");
        reveal_strlit("x");
    }
    push_flag(&mut s, mode, masks[0], "r");
    push_flag(&mut s, mode, masks[1], "w");
    push_flag(&mut s, mode, masks[2], "x");
    assert(s@ =~= triple(mode, owner));
    s
}

/// Given a file mode such as `0o751`, the string `rwxr-x--x`.
pub fn format_mode(mode: u32) -> (r: String)
    ensures
        r@ == mode_string(mode),
{
    let mut s = mk_triple(mode, Owner::User);
    let group = mk_triple(mode, Owner::Group);
    let other = mk_triple(mode, Owner::Other);
    s.append(group.as_str());
    s.append(other.as_str());
    s
}

} // verus!
