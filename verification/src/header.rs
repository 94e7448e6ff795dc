//! The fixed-header pieces: signature and version recognition, and the
//! color-table sizer shared by the global and the local color table.

use vstd::prelude::*;

use crate::model::{DecodeError, Version};

verus! {

/// Two to the power `n`.
pub open spec fn two_pow(n: nat) -> nat
    decreases n,
{
    if n == 0 {
        1
    } else {
        2 * two_pow((n - 1) as nat)
    }
}

/// What a packed flags byte says about its color table: `None` when bit 7 is
/// clear (no table), otherwise the table's byte length, three bytes per entry
/// with the low three bits encoding the entry count as a power of two.
pub open spec fn spec_size_of(flags: u8) -> Option<nat> {
    if flags & 0x80 == 0 {
        None
    } else {
        Some(3 * two_pow(((flags & 0x07) + 1) as nat))
    }
}

/// Color-table sizer: table present iff bit 7 of `flags` is set; when present,
/// the byte length is `3 * 2^((flags & 7) + 1)`. Total: every byte value gets
/// a definite answer.
pub fn size_of(flags: u8) -> (r: Option<usize>)
    ensures
        match r {
            None => spec_size_of(flags) is None,
            Some(n) => spec_size_of(flags) == Some(n as nat) && 6 <= n <= 768,
        },
{
    proof {
        assert(flags & 0x07 < 8) by (bit_vector);
        reveal_with_fuel(two_pow, 9);
    }
    if flags & 0x80 == 0 {
        None
    } else {
        let n = match flags & 0x07 {
            0 => 6,
            1 => 12,
            2 => 24,
            3 => 48,
            4 => 96,
            5 => 192,
            6 => 384,
            _ => 768,
        };
        Some(n)
    }
}

/// The sizer is a pure function of the flags byte: two results obtained from
/// the same byte are identical, whatever else happened between the calls.
pub proof fn lemma_size_of_idempotent(flags: u8, r1: Option<nat>, r2: Option<nat>)
    requires
        r1 == spec_size_of(flags),
        r2 == spec_size_of(flags),
    ensures
        r1 == r2,
{
}

/// For every flags byte, the sizer answers `None` exactly when bit 7 is
/// clear, and otherwise one of the eight lengths that the three size bits can
/// encode.
pub proof fn lemma_size_of_values(flags: u8)
    ensures
        spec_size_of(flags) is None <==> flags & 0x80 == 0,
        spec_size_of(flags) matches Some(n) ==> (n == 6 || n == 12 || n == 24 || n == 48 || n == 96
            || n == 192 || n == 384 || n == 768),
{
    assert(flags & 0x07 < 8) by (bit_vector);
    reveal_with_fuel(two_pow, 9);
}

/// Recognizes the two version strings: `Ok` exactly on the bytes `"87a"` and
/// `"89a"`, `UnknownVersion` on every other slice.
pub fn get_version(bytes: &[u8]) -> (r: Result<Version, DecodeError>)
    ensures
        bytes@ == seq![0x38u8, 0x37u8, 0x61u8] ==> r == Ok::<Version, DecodeError>(
            Version::GIF87a,
        ),
        bytes@ == seq![0x38u8, 0x39u8, 0x61u8] ==> r == Ok::<Version, DecodeError>(
            Version::GIF89a,
        ),
        bytes@ != seq![0x38u8, 0x37u8, 0x61u8] && bytes@ != seq![0x38u8, 0x39u8, 0x61u8] ==> r
            == Err::<Version, DecodeError>(DecodeError::UnknownVersion),
{
    if bytes.len() == 3 && bytes[0] == 0x38 && bytes[2] == 0x61 {
        if bytes[1] == 0x37 {
            proof {
                assert(bytes@ =~= seq![0x38u8, 0x37u8, 0x61u8]);
            }
            return Ok(Version::GIF87a);
        }
        if bytes[1] == 0x39 {
            proof {
                assert(bytes@ =~= seq![0x38u8, 0x39u8, 0x61u8]);
            }
            return Ok(Version::GIF89a);
        }
    }
    Err(DecodeError::UnknownVersion)
}

/// Whether the bytes `"GIF"` stand at `i` in `s`.
pub open spec fn spec_has_signature(s: Seq<u8>, i: int) -> bool {
    i + 3 <= s.len() && s[i] == 0x47 && s[i + 1] == 0x49 && s[i + 2] == 0x46
}

/// Result of recognizing the three signature bytes at `i`: the position just
/// past them, `Truncated` when fewer than three bytes remain, `TagMismatch`
/// when they are not `"GIF"`.
pub open spec fn spec_parse_signature(s: Seq<u8>, i: int) -> Result<int, DecodeError> {
    if i + 3 > s.len() {
        Err(DecodeError::Truncated)
    } else if !spec_has_signature(s, i) {
        Err(DecodeError::TagMismatch)
    } else {
        Ok(i + 3)
    }
}

/// Consumes the ASCII signature `"GIF"` at `pos`, returning the position just
/// past it.
pub fn signature(input: &[u8], pos: usize) -> (r: Result<usize, DecodeError>)
    ensures
        match r {
            Ok(j) => spec_parse_signature(input@, pos as int) == Ok::<int, DecodeError>(j as int),
            Err(e) => spec_parse_signature(input@, pos as int) == Err::<int, DecodeError>(e),
        },
{
    if pos >= input.len() || input.len() - pos < 3 {
        return Err(DecodeError::Truncated);
    }
    if input[pos] == 0x47 && input[pos + 1] == 0x49 && input[pos + 2] == 0x46 {
        Ok(pos + 3)
    } else {
        Err(DecodeError::TagMismatch)
    }
}

/// The 16-bit value encoded little-endian by the byte pair `(lo, hi)`.
pub open spec fn spec_le16(lo: u8, hi: u8) -> u16 {
    (lo + hi * 256) as u16
}

/// Result of recognizing a version string at `i`: the version and the
/// position just past its three bytes, `Truncated` when fewer than three
/// bytes remain, `UnknownVersion` when they are neither `"87a"` nor `"89a"`.
pub open spec fn spec_parse_version(s: Seq<u8>, i: int) -> Result<(Version, int), DecodeError> {
    if i + 3 > s.len() {
        Err(DecodeError::Truncated)
    } else if s[i] == 0x38 && s[i + 1] == 0x37 && s[i + 2] == 0x61 {
        Ok((Version::GIF87a, i + 3))
    } else if s[i] == 0x38 && s[i + 1] == 0x39 && s[i + 2] == 0x61 {
        Ok((Version::GIF89a, i + 3))
    } else {
        Err(DecodeError::UnknownVersion)
    }
}

/// Decodes the three version bytes at `pos`.
pub fn version(input: &[u8], pos: usize) -> (r: Result<(Version, usize), DecodeError>)
    ensures
        match r {
            Ok((v, j)) => spec_parse_version(input@, pos as int) == Ok::<
                (Version, int),
                DecodeError,
            >((v, j as int)),
            Err(e) => spec_parse_version(input@, pos as int) == Err::<(Version, int), DecodeError>(
                e,
            ),
        },
{
    if pos >= input.len() || input.len() - pos < 3 {
        return Err(DecodeError::Truncated);
    }
    if input[pos] == 0x38 && input[pos + 2] == 0x61 {
        if input[pos + 1] == 0x37 {
            return Ok((Version::GIF87a, pos + 3));
        }
        if input[pos + 1] == 0x39 {
            return Ok((Version::GIF89a, pos + 3));
        }
    }
    Err(DecodeError::UnknownVersion)
}

} // verus!
