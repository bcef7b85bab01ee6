//! Variable-length integers (RFC 9000, section 16).
//!
//! The two high bits of the first byte give the length of the encoding: one, two, four or eight
//! bytes. The remaining bits hold the value, most significant byte first.

use vstd::prelude::*;

verus! {

/// The largest value a variable-length integer can hold.
pub const VARINT_MAX: u64 = 0x3fff_ffff_ffff_ffff;

/// Number of bytes in the shortest encoding of `v`.
pub open spec fn var_size(v: int) -> int {
    if v < 0x40 {
        1
    } else if v < 0x4000 {
        2
    } else if v < 0x4000_0000 {
        4
    } else {
        8
    }
}

/// The shortest encoding of `v`: its big-endian form with the length tag in the two high bits.
pub open spec fn encode_var(v: int) -> Seq<u8>
    recommends
        0 <= v <= VARINT_MAX,
{
    if v < 0x40 {
        seq![v as u8]
    } else if v < 0x4000 {
        seq![(0x40 + v / 0x100) as u8, (v % 0x100) as u8]
    } else if v < 0x4000_0000 {
        seq![
            (0x80 + v / 0x100_0000) as u8,
            (v / 0x1_0000 % 0x100) as u8,
            (v / 0x100 % 0x100) as u8,
            (v % 0x100) as u8,
        ]
    } else {
        seq![
            (0xc0 + v / 0x100_0000_0000_0000) as u8,
            (v / 0x1_0000_0000_0000 % 0x100) as u8,
            (v / 0x100_0000_0000 % 0x100) as u8,
            (v / 0x1_0000_0000 % 0x100) as u8,
            (v / 0x100_0000 % 0x100) as u8,
            (v / 0x1_0000 % 0x100) as u8,
            (v / 0x100 % 0x100) as u8,
            (v % 0x100) as u8,
        ]
    }
}

/// The integer at the front of `s` and the number of bytes it takes, if `s` holds one whole.
pub open spec fn decode_var(s: Seq<u8>) -> Option<(u64, int)> {
    if s.len() == 0 {
        None
    } else if s[0] < 0x40 {
        Some((s[0] as u64, 1))
    } else if s[0] < 0x80 {
        if s.len() < 2 {
            None
        } else {
            Some((((s[0] - 0x40) * 0x100 + s[1]) as u64, 2))
        }
    } else if s[0] < 0xc0 {
        if s.len() < 4 {
            None
        } else {
            Some(
                (
                    ((s[0] - 0x80) * 0x100_0000 + s[1] * 0x1_0000 + s[2] * 0x100 + s[3]) as u64,
                    4,
                ),
            )
        }
    } else {
        if s.len() < 8 {
            None
        } else {
            Some(
                (
                    ((s[0] - 0xc0) * 0x100_0000_0000_0000 + s[1] * 0x1_0000_0000_0000 + s[2]
                        * 0x100_0000_0000 + s[3] * 0x1_0000_0000 + s[4] * 0x100_0000 + s[5]
                        * 0x1_0000 + s[6] * 0x100 + s[7]) as u64,
                    8,
                ),
            )
        }
    }
}

/// Length of the encoding of `v`.
pub fn var_len(v: u64) -> (len: usize)
    ensures
        len == var_size(v as int),
        v < 0x40 ==> len == 1,
        0x40 <= v < 0x4000 ==> len == 2,
        0x4000 <= v < 0x4000_0000 ==> len == 4,
        0x4000_0000 <= v ==> len == 8,
{
    if v < 0x40 {
        1
    } else if v < 0x4000 {
        2
    } else if v < 0x4000_0000 {
        4
    } else {
        8
    }
}

/// Appends the shortest encoding of `v` to `buf`.
pub fn write_var(v: u64, buf: &mut Vec<u8>)
    requires
        v <= VARINT_MAX,
    ensures
        final(buf)@ == old(buf)@ + encode_var(v as int),
{
    let ghost before = buf@;
    if v < 0x40 {
        buf.push(v as u8);
    } else if v < 0x4000 {
        buf.push((0x40 + v / 0x100) as u8);
        buf.push((v % 0x100) as u8);
    } else if v < 0x4000_0000 {
        buf.push((0x80 + v / 0x100_0000) as u8);
        buf.push((v / 0x1_0000 % 0x100) as u8);
        buf.push((v / 0x100 % 0x100) as u8);
        buf.push((v % 0x100) as u8);
    } else {
        buf.push((0xc0 + v / 0x100_0000_0000_0000) as u8);
        buf.push((v / 0x1_0000_0000_0000 % 0x100) as u8);
        buf.push((v / 0x100_0000_0000 % 0x100) as u8);
        buf.push((v / 0x1_0000_0000 % 0x100) as u8);
        buf.push((v / 0x100_0000 % 0x100) as u8);
        buf.push((v / 0x1_0000 % 0x100) as u8);
        buf.push((v / 0x100 % 0x100) as u8);
        buf.push((v % 0x100) as u8);
    }
    assert(buf@ =~= before + encode_var(v as int));
}

/// Reads the integer at the front of `buf`: its value and the number of bytes it takes.
///
/// `None` if `buf` ends before the integer does.
pub fn get_var(buf: &[u8]) -> (read: Option<(u64, usize)>)
    ensures
        match (read, decode_var(buf@)) {
            (Some((v, n)), Some((value, len))) => v == value && n == len,
            (None, None) => true,
            _ => false,
        },
{
    if buf.len() == 0 {
        return None;
    }
    let first: u64 = buf[0] as u64;
    if first < 0x40 {
        Some((first, 1))
    } else if first < 0x80 {
        if buf.len() < 2 {
            return None;
        }
        Some(((first - 0x40) * 0x100 + buf[1] as u64, 2))
    } else if first < 0xc0 {
        if buf.len() < 4 {
            return None;
        }
        Some(
            (
                (first - 0x80) * 0x100_0000 + buf[1] as u64 * 0x1_0000 + buf[2] as u64 * 0x100
                    + buf[3] as u64,
                4,
            ),
        )
    } else {
        if buf.len() < 8 {
            return None;
        }
        Some(
            (
                (first - 0xc0) * 0x100_0000_0000_0000 + buf[1] as u64 * 0x1_0000_0000_0000
                    + buf[2] as u64 * 0x100_0000_0000 + buf[3] as u64 * 0x1_0000_0000 + buf[4] as u64
                    * 0x100_0000 + buf[5] as u64 * 0x1_0000 + buf[6] as u64 * 0x100 + buf[7] as u64,
                8,
            ),
        )
    }
}

/// An encoding is as long as `var_size` says.
pub proof fn law_var_size(v: int)
    requires
        0 <= v <= VARINT_MAX,
    ensures
        encode_var(v).len() == var_size(v),
        1 <= var_size(v) <= 8,
{
}

/// A value below 2^30 is the sum of its four bytes.
proof fn lemma_four_bytes(v: u64)
    requires
        v < 0x4000_0000,
    ensures
        v == v / 0x100_0000 * 0x100_0000 + v / 0x1_0000 % 0x100 * 0x1_0000 + v / 0x100 % 0x100
            * 0x100 + v % 0x100,
{
    assert(v == v / 0x100_0000 * 0x100_0000 + v / 0x1_0000 % 0x100 * 0x1_0000 + v / 0x100 % 0x100
        * 0x100 + v % 0x100) by (bit_vector)
        requires
            v < 0x4000_0000,
    ;
}

/// A value below 2^62 is the sum of its eight bytes.
proof fn lemma_eight_bytes(v: u64)
    requires
        v <= VARINT_MAX,
    ensures
        v == v / 0x100_0000_0000_0000 * 0x100_0000_0000_0000 + v / 0x1_0000_0000_0000 % 0x100
            * 0x1_0000_0000_0000 + v / 0x100_0000_0000 % 0x100 * 0x100_0000_0000 + v / 0x1_0000_0000
            % 0x100 * 0x1_0000_0000 + v / 0x100_0000 % 0x100 * 0x100_0000 + v / 0x1_0000 % 0x100
            * 0x1_0000 + v / 0x100 % 0x100 * 0x100 + v % 0x100,
{
    assert(v == v / 0x100_0000_0000_0000 * 0x100_0000_0000_0000 + v / 0x1_0000_0000_0000 % 0x100
        * 0x1_0000_0000_0000 + v / 0x100_0000_0000 % 0x100 * 0x100_0000_0000 + v / 0x1_0000_0000
        % 0x100 * 0x1_0000_0000 + v / 0x100_0000 % 0x100 * 0x100_0000 + v / 0x1_0000 % 0x100
        * 0x1_0000 + v / 0x100 % 0x100 * 0x100 + v % 0x100) by (bit_vector)
        requires
            v <= 0x3fff_ffff_ffff_ffff,
    ;
}

/// Reading gives back what was written, whatever follows it.
pub proof fn law_var_round_trip(v: u64, rest: Seq<u8>)
    requires
        v <= VARINT_MAX,
    ensures
        decode_var(encode_var(v as int) + rest) == Some((v, var_size(v as int))),
        (encode_var(v as int) + rest).skip(var_size(v as int)) == rest,
{
    let s = encode_var(v as int) + rest;
    assert(s.skip(var_size(v as int)) =~= rest);
    if v < 0x40 {
    } else if v < 0x4000 {
    } else if v < 0x4000_0000 {
        lemma_four_bytes(v);
    } else {
        lemma_eight_bytes(v);
        assert(s[0] == 0xc0 + v / 0x100_0000_0000_0000);
    }
}

/// The encoding of a value is the shortest that holds it: the high bits of its first byte tell its
/// length, and the bytes without them are the digits of the value to base 256, highest first.
pub proof fn law_var_digits(v: u64)
    requires
        v <= VARINT_MAX,
    ensures
        ({
            let s = encode_var(v as int);
            &&& v < 0x40 ==> s.len() == 1 && s[0] == v
            &&& 0x40 <= v < 0x4000 ==> s.len() == 2 && 0x40 <= s[0] < 0x80 && v == (s[0] - 0x40)
                * 0x100 + s[1]
            &&& 0x4000 <= v < 0x4000_0000 ==> s.len() == 4 && 0x80 <= s[0] < 0xc0 && v == (s[0]
                - 0x80) * 0x100_0000 + s[1] * 0x1_0000 + s[2] * 0x100 + s[3]
            &&& 0x4000_0000 <= v ==> s.len() == 8 && 0xc0 <= s[0] && v == (s[0] - 0xc0)
                * 0x100_0000_0000_0000 + s[1] * 0x1_0000_0000_0000 + s[2] * 0x100_0000_0000 + s[3]
                * 0x1_0000_0000 + s[4] * 0x100_0000 + s[5] * 0x1_0000 + s[6] * 0x100 + s[7]
        }),
{
    if v < 0x4000 {
    } else if v < 0x4000_0000 {
        lemma_four_bytes(v);
    } else {
        lemma_eight_bytes(v);
        assert(encode_var(v as int)[0] == 0xc0 + v / 0x100_0000_0000_0000);
    }
}

/// An integer is read exactly if as many bytes are there as the high bits of the first one tell,
/// and its value is what the bytes without them are to base 256, whether or not a shorter encoding
/// would have done.
pub proof fn law_var_reading(s: Seq<u8>)
    ensures
        s.len() == 0 ==> decode_var(s) is None,
        s.len() > 0 ==> {
            let n: int = if s[0] < 0x40 {
                1
            } else if s[0] < 0x80 {
                2
            } else if s[0] < 0xc0 {
                4
            } else {
                8
            };
            &&& decode_var(s) is Some <==> n <= s.len()
            &&& decode_var(s) matches Some((v, len)) ==> {
                &&& len == n
                &&& n == 1 ==> v == s[0]
                &&& n == 2 ==> v == s[0] % 0x40 * 0x100 + s[1]
                &&& n == 4 ==> v == s[0] % 0x40 * 0x100_0000 + s[1] * 0x1_0000 + s[2] * 0x100 + s[3]
                &&& n == 8 ==> v == s[0] % 0x40 * 0x100_0000_0000_0000 + s[1] * 0x1_0000_0000_0000
                    + s[2] * 0x100_0000_0000 + s[3] * 0x1_0000_0000 + s[4] * 0x100_0000 + s[5]
                    * 0x1_0000 + s[6] * 0x100 + s[7]
            }
        },
{
}

/// What is read is never larger than a variable-length integer can be, and takes one, two, four
/// or eight of the bytes that are there.
pub proof fn law_var_decode_bounds(s: Seq<u8>)
    ensures
        decode_var(s) matches Some((v, n)) ==> {
            &&& v <= VARINT_MAX
            &&& n == 1 || n == 2 || n == 4 || n == 8
            &&& n <= s.len()
        },
{
}

} // verus!
