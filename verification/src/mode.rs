//! Permission bits as the nine characters of a long listing.

use vstd::prelude::*;
use crate::owner::Owner;

verus! {

/// The character that stands for one permission: `letter` where `mode` has
/// the bit of `mask`, a dash where it has not.
pub open spec fn flag(mode: u32, mask: u32, letter: char) -> char {
    if mode & mask == 0 {
        '-'
    } else {
        letter
    }
}

/// The three characters of one class: read, write, execute.
pub open spec fn triple(mode: u32, owner: Owner) -> Seq<char> {
    seq![
        flag(mode, owner.read_mask(), 'r'),
        flag(mode, owner.write_mask(), 'w'),
        flag(mode, owner.execute_mask(), 'x'),
    ]
}

/// The nine characters of a mode: user, group, other.
pub open spec fn mode_chars(mode: u32) -> Seq<char> {
    triple(mode, Owner::User) + triple(mode, Owner::Group) + triple(mode, Owner::Other)
}

/// Whether `c` is one of the four characters a rendered mode is made of.
pub open spec fn is_mode_char(c: char) -> bool {
    c == 'r' || c == 'w' || c == 'x' || c == '-'
}

/// The bit that a rendered character stands for: `mask` unless the
/// character at `index` is a dash.
pub open spec fn char_bit(chars: Seq<char>, index: int, mask: u32) -> u32 {
    if chars[index] == '-' {
        0
    } else {
        mask
    }
}

/// The permission bits that nine rendered characters stand for.
pub open spec fn mode_bits(chars: Seq<char>) -> u32 {
    char_bit(chars, 0, 0o400) | char_bit(chars, 1, 0o200) | char_bit(chars, 2, 0o100)
        | char_bit(chars, 3, 0o040) | char_bit(chars, 4, 0o020) | char_bit(chars, 5, 0o010)
        | char_bit(chars, 6, 0o004) | char_bit(chars, 7, 0o002) | char_bit(chars, 8, 0o001)
}

/// A mode renders as three characters per class, each `r`, `w`, `x` in its
/// place or a dash.
pub proof fn lemma_triple_shape(mode: u32, owner: Owner)
    ensures
        triple(mode, owner).len() == 3,
        triple(mode, owner)[0] == 'r' || triple(mode, owner)[0] == '-',
        triple(mode, owner)[1] == 'w' || triple(mode, owner)[1] == '-',
        triple(mode, owner)[2] == 'x' || triple(mode, owner)[2] == '-',
{
}

/// Rendering is defined for every mode and gives nine characters out of
/// `r`, `w`, `x` and `-`; reading the bits back from them gives the low nine
/// bits of the mode; and no other bit of the mode plays a part.
pub proof fn lemma_mode_round_trip(mode: u32)
    ensures
        mode_chars(mode).len() == 9,
        forall|i: int| 0 <= i < 9 ==> is_mode_char(#[trigger] mode_chars(mode)[i]),
        mode_bits(mode_chars(mode)) == mode & 0o777,
        mode_chars(mode & 0o777) == mode_chars(mode),
{
    let chars = mode_chars(mode);
    assert(chars =~= seq![
        flag(mode, 0o400, 'r'),
        flag(mode, 0o200, 'w'),
        flag(mode, 0o100, 'x'),
        flag(mode, 0o040, 'r'),
        flag(mode, 0o020, 'w'),
        flag(mode, 0o010, 'x'),
        flag(mode, 0o004, 'r'),
        flag(mode, 0o002, 'w'),
        flag(mode, 0o001, 'x'),
    ]);
    assert(char_bit(chars, 0, 0o400) == mode & 0o400 && char_bit(chars, 1, 0o200) == mode & 0o200
        && char_bit(chars, 2, 0o100) == mode & 0o100) by {
        lemma_single_bit(mode);
    }
    assert(char_bit(chars, 3, 0o040) == mode & 0o040 && char_bit(chars, 4, 0o020) == mode & 0o020
        && char_bit(chars, 5, 0o010) == mode & 0o010) by {
        lemma_single_bit(mode);
    }
    assert(char_bit(chars, 6, 0o004) == mode & 0o004 && char_bit(chars, 7, 0o002) == mode & 0o002
        && char_bit(chars, 8, 0o001) == mode & 0o001) by {
        lemma_single_bit(mode);
    }
    assert((mode & 0o400) | (mode & 0o200) | (mode & 0o100) | (mode & 0o040) | (mode & 0o020) | (
    mode & 0o010) | (mode & 0o004) | (mode & 0o002) | (mode & 0o001) == mode & 0o777)
        by (bit_vector);
    let low = mode & 0o777;
    assert((low & 0o400 == 0) == (mode & 0o400 == 0) && (low & 0o200 == 0) == (mode & 0o200 == 0)
        && (low & 0o100 == 0) == (mode & 0o100 == 0) && (low & 0o040 == 0) == (mode & 0o040 == 0)
        && (low & 0o020 == 0) == (mode & 0o020 == 0) && (low & 0o010 == 0) == (mode & 0o010 == 0)
        && (low & 0o004 == 0) == (mode & 0o004 == 0) && (low & 0o002 == 0) == (mode & 0o002 == 0)
        && (low & 0o001 == 0) == (mode & 0o001 == 0)) by (bit_vector)
        requires
            low == mode & 0o777,
    ;
    assert(mode_chars(low) =~= chars);
}

/// Masking with a single bit gives that bit or nothing.
proof fn lemma_single_bit(mode: u32)
    ensures
        mode & 0o400 == 0 || mode & 0o400 == 0o400,
        mode & 0o200 == 0 || mode & 0o200 == 0o200,
        mode & 0o100 == 0 || mode & 0o100 == 0o100,
        mode & 0o040 == 0 || mode & 0o040 == 0o040,
        mode & 0o020 == 0 || mode & 0o020 == 0o020,
        mode & 0o010 == 0 || mode & 0o010 == 0o010,
        mode & 0o004 == 0 || mode & 0o004 == 0o004,
        mode & 0o002 == 0 || mode & 0o002 == 0o002,
        mode & 0o001 == 0 || mode & 0o001 == 0o001,
{
    assert(mode & 0o400 == 0 || mode & 0o400 == 0o400) by (bit_vector);
    assert(mode & 0o200 == 0 || mode & 0o200 == 0o200) by (bit_vector);
    assert(mode & 0o100 == 0 || mode & 0o100 == 0o100) by (bit_vector);
    assert(mode & 0o040 == 0 || mode & 0o040 == 0o040) by (bit_vector);
    assert(mode & 0o020 == 0 || mode & 0o020 == 0o020) by (bit_vector);
    assert(mode & 0o010 == 0 || mode & 0o010 == 0o010) by (bit_vector);
    assert(mode & 0o004 == 0 || mode & 0o004 == 0o004) by (bit_vector);
    assert(mode & 0o002 == 0 || mode & 0o002 == 0o002) by (bit_vector);
    assert(mode & 0o001 == 0 || mode & 0o001 == 0o001) by (bit_vector);
}

/// Renders the permissions that `mode` grants to `owner`, such as `r-x`.
pub fn mk_triple(mode: u32, owner: Owner) -> (s: String)
    ensures
        s@ == triple(mode, owner),
{
    let masks = owner.masks();
    let mut s = String::new();
    s.push(if mode & masks[0] == 0 { '-' } else { 'r' });
    s.push(if mode & masks[1] == 0 { '-' } else { 'w' });
    s.push(if mode & masks[2] == 0 { '-' } else { 'x' });
    s
}

/// Renders the low nine bits of `mode`, such as `rwxr-x--x` for `0o751`.
/// Higher bits, which hold the file's type, play no part.
pub fn format_mode(mode: u32) -> (s: String)
    ensures
        s@ == mode_chars(mode),
        s@.len() == 9,
        forall|i: int| 0 <= i < 9 ==> is_mode_char(#[trigger] s@[i]),
        mode_bits(s@) == mode & 0o777,
{
    proof {
        lemma_mode_round_trip(mode);
    }
    let mut s = mk_triple(mode, Owner::User);
    s.append(mk_triple(mode, Owner::Group).as_str());
    s.append(mk_triple(mode, Owner::Other).as_str());
    s
}

} // verus!
