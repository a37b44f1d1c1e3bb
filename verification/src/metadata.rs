//! Display of the permission bits of a file.

use vstd::prelude::*;
use vstd::string::*;

verus! {

/// The letter that shows one permission bit: `letter` when the bit is set,
/// a dash when it is clear.
pub open spec fn bit_letter(mode: u32, bit: u32, letter: char) -> char {
    if mode & bit != 0 {
        letter
    } else {
        '-'
    }
}

/// The three letters that show the read, write and execute bits found
/// `shift` bits up in `mode`.
pub open spec fn triplet_text(mode: u32, shift: u32) -> Seq<char> {
    seq![
        bit_letter(mode, 4u32 << shift, 'r'),
        bit_letter(mode, 2u32 << shift, 'w'),
        bit_letter(mode, 1u32 << shift, 'x'),
    ]
}

/// The nine letters that show the permissions of owner, group and others.
pub open spec fn permissions_text(mode: u32) -> Seq<char> {
    triplet_text(mode, 6) + triplet_text(mode, 3) + triplet_text(mode, 0)
}

/// Appends the letter that shows one permission bit.
fn push_bit(out: String, mode: u32, bit: u32, letter: &str, shown: char) -> (r: String)
    requires
        letter@ == seq![shown],
    ensures
        r@ == out@.push(bit_letter(mode, bit, shown)),
{
    proof {
        reveal_strlit("-");
        assert("-"@ =~= seq!['-']);
    }
    let piece = if mode & bit != 0 {
        letter
    } else {
        "-"
    };
    let r = out.concat(piece);
    assert(r@ =~= out@.push(bit_letter(mode, bit, shown)));
    r
}

/// The three letters for the permission bits found `shift` bits up.
pub fn triplet(mode: u32, shift: u32) -> (r: String)
    requires
        shift < 32,
    ensures
        r@ == triplet_text(mode, shift),
{
    proof {
        reveal_strlit("r");
        reveal_strlit("w");
        reveal_strlit("x");
        assert("r"@ =~= seq!['r']);
        assert("w"@ =~= seq!['w']);
        assert("x"@ =~= seq!['x']);
    }
    let out = String::new();
    let out = push_bit(out, mode, 4u32 << shift, "r", 'r');
    let out = push_bit(out, mode, 2u32 << shift, "w", 'w');
    let out = push_bit(out, mode, 1u32 << shift, "x", 'x');
    assert(out@ =~= triplet_text(mode, shift));
    out
}

/// The permissions of a file in the usual nine letters, such as `rwxr-xr-x`.
pub fn format_permissions(mode: u32) -> (r: String)
    ensures
        r@ == permissions_text(mode),
{
    let user = triplet(mode, 6);
    let group = triplet(mode, 3);
    let other = triplet(mode, 0);
    user.concat(group.as_str()).concat(other.as_str())
}

} // verus!
