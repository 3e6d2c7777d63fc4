//! The two encodings that the bot takes from outside crates: Base64 with the
//! standard alphabet and padding (`base64`), and SHA-1 (`sha1`).

use base64::prelude::BASE64_STANDARD;
use base64::Engine;
use sha1::{Digest, Sha1};
use vstd::prelude::*;

verus! {

/// The character of the 6-bit value `v` in the standard Base64 alphabet
/// (RFC 4648, table 1): `A`-`Z`, `a`-`z`, `0`-`9`, `+`, `/`.
pub open spec fn base64_symbol(v: u8) -> char {
    if v < 26 {
        (v + 65) as char
    } else if v < 52 {
        (v + 71) as char
    } else if v < 62 {
        (v - 4) as char
    } else if v == 62 {
        '+'
    } else {
        '/'
    }
}

/// `c` is a character of the standard Base64 alphabet.
pub open spec fn is_base64_symbol(c: char) -> bool {
    ||| 65 <= (c as u32) <= 90
    ||| 97 <= (c as u32) <= 122
    ||| 48 <= (c as u32) <= 57
    ||| c == '+'
    ||| c == '/'
}

/// The four characters of the three bytes `b0 b1 b2`: each 6 bits of the
/// 24, most significant first.
pub open spec fn base64_group(b0: u8, b1: u8, b2: u8) -> Seq<char> {
    seq![
        base64_symbol(b0 >> 2u8),
        base64_symbol(((b0 & 3u8) << 4u8) | (b1 >> 4u8)),
        base64_symbol(((b1 & 15u8) << 2u8) | (b2 >> 6u8)),
        base64_symbol(b2 & 63u8),
    ]
}

/// The standard, padded Base64 text of `data` (RFC 4648, section 4), as
/// `base64`'s `STANDARD` engine writes it: four characters for each group
/// of three bytes; a last group of one or two bytes is filled with zero
/// bits and padded with `==` or `=`.
pub open spec fn base64_standard(data: Seq<u8>) -> Seq<char>
    decreases data.len(),
{
    if data.len() == 0 {
        Seq::empty()
    } else if data.len() == 1 {
        base64_group(data[0], 0, 0).take(2) + seq!['=', '=']
    } else if data.len() == 2 {
        base64_group(data[0], data[1], 0).take(3) + seq!['=']
    } else {
        base64_group(data[0], data[1], data[2]) + base64_standard(data.skip(3))
    }
}

/// How many `=` end the Base64 text of `n` bytes.
pub open spec fn base64_padding(n: nat) -> nat {
    if n % 3 == 0 {
        0
    } else {
        (3 - n % 3) as nat
    }
}

/// Every 6-bit value has a character in the alphabet, and none is `=`.
proof fn lemma_symbol(v: u8)
    requires
        v < 64,
    ensures
        is_base64_symbol(base64_symbol(v)),
        base64_symbol(v) != '=',
        (base64_symbol(v) as u32) == if v < 26 {
            v + 65
        } else if v < 52 {
            v + 71
        } else if v < 62 {
            v - 4
        } else if v == 62 {
            43
        } else {
            47
        },
{
}

/// Different 6-bit values have different characters.
proof fn lemma_symbol_injective(x: u8, y: u8)
    requires
        x < 64,
        y < 64,
        base64_symbol(x) == base64_symbol(y),
    ensures
        x == y,
{
    lemma_symbol(x);
    lemma_symbol(y);
}

/// The four 6-bit values of a group are below 64.
proof fn lemma_group_values(b0: u8, b1: u8, b2: u8)
    ensures
        b0 >> 2u8 < 64,
        ((b0 & 3u8) << 4u8) | (b1 >> 4u8) < 64,
        ((b1 & 15u8) << 2u8) | (b2 >> 6u8) < 64,
        b2 & 63u8 < 64,
{
    assert(b0 >> 2u8 < 64) by (bit_vector);
    assert(((b0 & 3u8) << 4u8) | (b1 >> 4u8) < 64) by (bit_vector);
    assert(((b1 & 15u8) << 2u8) | (b2 >> 6u8) < 64) by (bit_vector);
    assert(b2 & 63u8 < 64) by (bit_vector);
}

/// The Base64 text of `data` has `base64_len` characters: alphabet
/// characters followed by `base64_padding` characters `=`.
pub proof fn lemma_base64_shape(data: Seq<u8>)
    ensures
        base64_standard(data).len() == base64_len(data.len()),
        forall|i: int|
            0 <= i < base64_standard(data).len() ==> if i < base64_standard(data).len()
                - base64_padding(data.len()) {
                is_base64_symbol(#[trigger] base64_standard(data)[i])
            } else {
                base64_standard(data)[i] == '='
            },
    decreases data.len(),
{
    let out = base64_standard(data);
    if data.len() == 0 {
    } else {
        let b0 = data[0];
        let b1 = if data.len() > 1 {
            data[1]
        } else {
            0u8
        };
        let b2 = if data.len() > 2 {
            data[2]
        } else {
            0u8
        };
        lemma_group_values(b0, b1, b2);
        lemma_symbol(b0 >> 2u8);
        lemma_symbol(((b0 & 3u8) << 4u8) | (b1 >> 4u8));
        lemma_symbol(((b1 & 15u8) << 2u8) | (b2 >> 6u8));
        lemma_symbol(b2 & 63u8);
        let g = base64_group(b0, b1, b2);
        if data.len() >= 3 {
            let rest = data.skip(3);
            lemma_base64_shape(rest);
            assert(base64_padding(rest.len()) == base64_padding(data.len()));
            assert forall|i: int| 0 <= i < out.len() implies if i < out.len() - base64_padding(
                data.len(),
            ) {
                is_base64_symbol(#[trigger] out[i])
            } else {
                out[i] == '='
            } by {
                if i >= 4 {
                    assert(out[i] == base64_standard(rest)[i - 4]);
                }
            }
        }
    }
}

/// The position of an alphabet character in the standard Base64 alphabet.
pub open spec fn base64_digit(c: char) -> int {
    let u = c as u32;
    if 65 <= u <= 90 {
        u - 65
    } else if 97 <= u <= 122 {
        u - 71
    } else if 48 <= u <= 57 {
        u + 4
    } else if c == '+' {
        62
    } else {
        63
    }
}

/// The alphabet is `A`-`Z`, `a`-`z`, `0`-`9`, `+`, `/` in this order: the
/// character of each 6-bit value sits at that value's position.
pub proof fn lemma_base64_alphabet(v: u8)
    requires
        v < 64,
    ensures
        is_base64_symbol(base64_symbol(v)),
        base64_digit(base64_symbol(v)) == v,
        v < 26 ==> base64_symbol(v) as u32 == 'A' as u32 + v,
        26 <= v < 52 ==> base64_symbol(v) as u32 == 'a' as u32 + (v - 26),
        52 <= v < 62 ==> base64_symbol(v) as u32 == '0' as u32 + (v - 52),
        v == 62 ==> base64_symbol(v) == '+',
        v == 63 ==> base64_symbol(v) == '/',
{
    lemma_symbol(v);
}

/// Four characters carry three bytes as one 24-bit number written in base
/// 64, most significant digit first; one or two bytes at the end are
/// written the same way with zero bits filling the last digit.
pub proof fn lemma_base64_group_value(data: Seq<u8>)
    requires
        data.len() > 0,
    ensures
        ({
            let out = base64_standard(data);
            let d0 = base64_digit(out[0]);
            let d1 = base64_digit(out[1]);
            let d2 = base64_digit(out[2]);
            let d3 = base64_digit(out[3]);
            &&& data.len() >= 3 ==> d0 * 262144 + d1 * 4096 + d2 * 64 + d3 == data[0] * 65536
                + data[1] * 256 + data[2]
            &&& data.len() == 2 ==> d0 * 4096 + d1 * 64 + d2 == (data[0] * 256 + data[1]) * 4
            &&& data.len() == 1 ==> d0 * 64 + d1 == data[0] * 16
        }),
{
    let b0 = data[0];
    let b1 = if data.len() > 1 {
        data[1]
    } else {
        0u8
    };
    let b2 = if data.len() > 2 {
        data[2]
    } else {
        0u8
    };
    lemma_group_values(b0, b1, b2);
    let x0 = b0 >> 2u8;
    let x1 = ((b0 & 3u8) << 4u8) | (b1 >> 4u8);
    let x2 = ((b1 & 15u8) << 2u8) | (b2 >> 6u8);
    let x3 = b2 & 63u8;
    lemma_base64_alphabet(x0);
    lemma_base64_alphabet(x1);
    lemma_base64_alphabet(x2);
    lemma_base64_alphabet(x3);
    assert((x0 as u32) * 262144 + (x1 as u32) * 4096 + (x2 as u32) * 64 + (x3 as u32) == (b0 as u32)
        * 65536 + (b1 as u32) * 256 + (b2 as u32)) by (bit_vector)
        requires
            x0 == b0 >> 2u8,
            x1 == ((b0 & 3u8) << 4u8) | (b1 >> 4u8),
            x2 == ((b1 & 15u8) << 2u8) | (b2 >> 6u8),
            x3 == b2 & 63u8,
    ;
    if data.len() == 2 {
        assert(b2 == 0);
        assert(x3 == 0) by (bit_vector)
            requires
                b2 == 0u8,
                x3 == b2 & 63u8,
        ;
    }
    if data.len() == 1 {
        assert(b1 == 0 && b2 == 0);
        assert(x2 == 0 && x3 == 0) by (bit_vector)
            requires
                b1 == 0u8,
                b2 == 0u8,
                x2 == ((b1 & 15u8) << 2u8) | (b2 >> 6u8),
                x3 == b2 & 63u8,
        ;
    }
}

/// Different byte strings have different Base64 texts: the text decodes
/// back to exactly one byte string.
pub proof fn lemma_base64_injective(a: Seq<u8>, b: Seq<u8>)
    requires
        base64_standard(a) == base64_standard(b),
    ensures
        a == b,
    decreases a.len(),
{
    let out = base64_standard(a);
    lemma_base64_shape(a);
    lemma_base64_shape(b);
    if a.len() == 0 || b.len() == 0 {
        assert(a.len() == 0 && b.len() == 0);
        assert(a =~= b);
        return ;
    }
    let a0 = a[0];
    let a1 = if a.len() > 1 {
        a[1]
    } else {
        0u8
    };
    let a2 = if a.len() > 2 {
        a[2]
    } else {
        0u8
    };
    let b0 = b[0];
    let b1 = if b.len() > 1 {
        b[1]
    } else {
        0u8
    };
    let b2 = if b.len() > 2 {
        b[2]
    } else {
        0u8
    };
    lemma_group_values(a0, a1, a2);
    lemma_group_values(b0, b1, b2);
    lemma_symbol(((a1 & 15u8) << 2u8) | (a2 >> 6u8));
    lemma_symbol(a2 & 63u8);
    lemma_symbol(((b1 & 15u8) << 2u8) | (b2 >> 6u8));
    lemma_symbol(b2 & 63u8);
    // The `=` at index 2 and 3 tell how many bytes the first group holds.
    assert(out[2] == '=' <==> a.len() == 1);
    assert(out[2] == '=' <==> b.len() == 1);
    assert(out[3] == '=' <==> a.len() <= 2);
    assert(out[3] == '=' <==> b.len() <= 2);
    assert(out[0] == base64_symbol(a0 >> 2u8) && out[0] == base64_symbol(b0 >> 2u8));
    lemma_symbol_injective(a0 >> 2u8, b0 >> 2u8);
    assert(out[1] == base64_symbol(((a0 & 3u8) << 4u8) | (a1 >> 4u8)));
    assert(out[1] == base64_symbol(((b0 & 3u8) << 4u8) | (b1 >> 4u8)));
    lemma_symbol_injective(((a0 & 3u8) << 4u8) | (a1 >> 4u8), ((b0 & 3u8) << 4u8) | (b1 >> 4u8));
    if a.len() == 1 {
        assert(a1 == 0 && b1 == 0);
        assert(a0 == b0) by (bit_vector)
            requires
                a0 >> 2u8 == b0 >> 2u8,
                ((a0 & 3u8) << 4u8) | (0u8 >> 4u8) == ((b0 & 3u8) << 4u8) | (0u8 >> 4u8),
        ;
        assert(a =~= b);
        return ;
    }
    assert(out[2] == base64_symbol(((a1 & 15u8) << 2u8) | (a2 >> 6u8)));
    assert(out[2] == base64_symbol(((b1 & 15u8) << 2u8) | (b2 >> 6u8)));
    lemma_symbol_injective(((a1 & 15u8) << 2u8) | (a2 >> 6u8), ((b1 & 15u8) << 2u8) | (b2 >> 6u8));
    if a.len() == 2 {
        assert(a2 == 0 && b2 == 0);
        assert(a0 == b0 && a1 == b1) by (bit_vector)
            requires
                a0 >> 2u8 == b0 >> 2u8,
                ((a0 & 3u8) << 4u8) | (a1 >> 4u8) == ((b0 & 3u8) << 4u8) | (b1 >> 4u8),
                ((a1 & 15u8) << 2u8) | (0u8 >> 6u8) == ((b1 & 15u8) << 2u8) | (0u8 >> 6u8),
        ;
        assert(a =~= b);
        return ;
    }
    assert(out[3] == base64_symbol(a2 & 63u8) && out[3] == base64_symbol(b2 & 63u8));
    lemma_symbol_injective(a2 & 63u8, b2 & 63u8);
    assert(a0 == b0 && a1 == b1 && a2 == b2) by (bit_vector)
        requires
            a0 >> 2u8 == b0 >> 2u8,
            ((a0 & 3u8) << 4u8) | (a1 >> 4u8) == ((b0 & 3u8) << 4u8) | (b1 >> 4u8),
            ((a1 & 15u8) << 2u8) | (a2 >> 6u8) == ((b1 & 15u8) << 2u8) | (b2 >> 6u8),
            a2 & 63u8 == b2 & 63u8,
    ;
    assert(base64_standard(a.skip(3)) =~= out.skip(4));
    assert(base64_standard(b.skip(3)) =~= out.skip(4));
    lemma_base64_injective(a.skip(3), b.skip(3));
    assert(a =~= a.take(3) + a.skip(3));
    assert(b =~= b.take(3) + b.skip(3));
    assert(a.take(3) =~= b.take(3));
}

/// The SHA-1 digest of `data`.
pub uninterp spec fn sha1_digest(data: Seq<u8>) -> Seq<u8>;

/// The length of the padded Base64 text of `n` bytes: four characters for
/// every started group of three bytes.
pub open spec fn base64_len(n: nat) -> nat {
    ((n + 2) / 3 * 4) as nat
}

/// Whether the Base64 text of `n` bytes has a length that fits in `usize`,
/// so that `base64_encode` may be called on `n` bytes.
pub fn base64_len_fits(n: usize) -> (fits: bool)
    ensures
        fits == (base64_len(n as nat) <= usize::MAX),
{
    let groups = n / 3 + if n % 3 > 0 {
        1usize
    } else {
        0usize
    };
    assert(groups == (n + 2) / 3);
    groups <= usize::MAX / 4
}

/// `BASE64_STANDARD.encode(data)` (`base64::Engine::encode` on the standard
/// engine: standard alphabet, padding on). Claims: the result is the
/// standard, padded Base64 text of the input as `base64_standard` writes it
/// out. The
/// crate computes the output length with checked arithmetic and panics when
/// it does not fit in `usize`; `requires` leaves those inputs out.
#[verifier::external_body]
pub(crate) fn base64_encode(data: &[u8]) -> (encoded: String)
    requires
        base64_len(data@.len()) <= usize::MAX,
    ensures
        encoded@ == base64_standard(data@),
{
    BASE64_STANDARD.encode(data)
}

/// `Sha1::digest(data)` (`digest::Digest::digest`: a fresh hasher, one
/// update with `data`, finalize), copied into a `Vec`. Claims: the result is
/// the named SHA-1 digest of the input, and it is 20 bytes long, the
/// hasher's `OutputSize` (`U20`).
#[verifier::external_body]
pub(crate) fn sha1(data: &[u8]) -> (digest: Vec<u8>)
    ensures
        digest@ == sha1_digest(data@),
        digest@.len() == 20,
{
    Sha1::digest(data).to_vec()
}

} // verus!
