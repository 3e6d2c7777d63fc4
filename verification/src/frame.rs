//! Client-side WebSocket data frames (RFC 6455, section 5.2): a single
//! frame with FIN set, a text or binary opcode, the payload length in its
//! 7-bit, 16-bit or 64-bit form, a 4-byte masking key and the masked payload.

use rand::Rng;
use vstd::prelude::*;
use vstd::string::StringSliceAdditionalSpecFns;
use vstd::utf8::{
    decode_utf8, encode_utf8, encode_utf8_decode_utf8, encode_utf8_valid_utf8, valid_utf8,
};

verus! {

/// Opcode of a data frame: text (1) or binary (2).
pub open spec fn frame_opcode(is_text: bool) -> u8 {
    if is_text {
        1u8
    } else {
        2u8
    }
}

/// The eight bytes of `v`, most significant first.
pub open spec fn u64_be_bytes(v: u64) -> Seq<u8> {
    seq![
        (v >> 56u64) as u8,
        (v >> 48u64) as u8,
        (v >> 40u64) as u8,
        (v >> 32u64) as u8,
        (v >> 24u64) as u8,
        (v >> 16u64) as u8,
        (v >> 8u64) as u8,
        v as u8,
    ]
}

/// The value of two bytes read most significant first.
pub open spec fn be16(hi: u8, lo: u8) -> u16 {
    ((hi as u16) << 8u16) | (lo as u16)
}

/// The value of the first eight bytes of `b` read most significant first.
pub open spec fn be64(b: Seq<u8>) -> u64 {
    ((b[0] as u64) << 56u64) | ((b[1] as u64) << 48u64) | ((b[2] as u64) << 40u64) | ((
    b[3] as u64) << 32u64) | ((b[4] as u64) << 24u64) | ((b[5] as u64) << 16u64) | ((
    b[6] as u64) << 8u64) | (b[7] as u64)
}

/// The second byte of a masked frame (mask bit and length code) followed by
/// the extended payload length, for a payload of `len` bytes.
pub open spec fn length_header(len: u64) -> Seq<u8> {
    if len < 126 {
        seq![0x80u8 | (len as u8)]
    } else if len < 65536 {
        seq![0x80u8 | 126u8, (len >> 8u64) as u8, len as u8]
    } else {
        seq![0x80u8 | 127u8] + u64_be_bytes(len)
    }
}

/// `data` with byte `i` XOR-ed with `key[i % 4]`.
pub open spec fn xor_mask(data: Seq<u8>, key: Seq<u8>) -> Seq<u8> {
    Seq::new(data.len(), |i: int| data[i] ^ key[i % 4])
}

/// The frame that carries `payload` as one final, masked text or binary frame.
pub open spec fn websocket_frame(payload: Seq<u8>, is_text: bool, key: Seq<u8>) -> Seq<u8> {
    seq![0x80u8 | frame_opcode(is_text)] + length_header(payload.len() as u64) + key + xor_mask(
        payload,
        key,
    )
}

/// Whether the FIN bit of the frame in `buffer` is set.
pub open spec fn frame_is_final(buffer: Seq<u8>) -> bool {
    buffer[0] & 0x80u8 != 0
}

/// Whether the MASK bit of the frame in `buffer` is set.
pub open spec fn frame_is_masked(buffer: Seq<u8>) -> bool {
    buffer[1] & 0x80u8 != 0
}

/// The 7-bit payload length code of the frame in `buffer`.
pub open spec fn length_code(buffer: Seq<u8>) -> u8 {
    buffer[1] & 0x7Fu8
}

/// Where the masking key (or, unmasked, the payload) of the frame starts.
pub open spec fn mask_offset(buffer: Seq<u8>) -> int {
    let code = length_code(buffer);
    if code < 126 {
        2
    } else if code == 126 {
        4
    } else {
        10
    }
}

/// The payload length that the header of the frame in `buffer` declares.
pub open spec fn declared_payload_len(buffer: Seq<u8>) -> int {
    let code = length_code(buffer);
    if code < 126 {
        code as int
    } else if code == 126 {
        be16(buffer[2], buffer[3]) as int
    } else {
        be64(buffer.subrange(2, 10)) as int
    }
}

/// Where the payload of the frame in `buffer` starts.
pub open spec fn payload_offset(buffer: Seq<u8>) -> int {
    mask_offset(buffer) + if frame_is_masked(buffer) {
        4int
    } else {
        0int
    }
}

/// The masking key of the frame in `buffer`; all zero for an unmasked frame.
pub open spec fn frame_mask(buffer: Seq<u8>) -> Seq<u8> {
    if frame_is_masked(buffer) {
        buffer.subrange(mask_offset(buffer), mask_offset(buffer) + 4)
    } else {
        seq![0u8, 0u8, 0u8, 0u8]
    }
}

/// `buffer` starts with a whole frame: its header, its masking key and as
/// many payload bytes as the header declares.
pub open spec fn frame_fits(buffer: Seq<u8>) -> bool {
    &&& buffer.len() >= 2
    &&& mask_offset(buffer) <= buffer.len()
    &&& payload_offset(buffer) + declared_payload_len(buffer) <= buffer.len()
}

/// The unmasked payload of the frame at the start of `buffer`.
pub open spec fn frame_payload(buffer: Seq<u8>) -> Seq<u8> {
    let start = payload_offset(buffer);
    xor_mask(buffer.subrange(start, start + declared_payload_len(buffer)), frame_mask(buffer))
}

/// Masking a byte twice with the same key byte gives the byte back.
proof fn lemma_xor_mask_twice(data: Seq<u8>, key: Seq<u8>)
    ensures
        xor_mask(xor_mask(data, key), key) == data,
{
    assert forall|i: int| 0 <= i < data.len() implies #[trigger] xor_mask(
        xor_mask(data, key),
        key,
    )[i] == data[i] by {
        let a = data[i];
        let b = key[i % 4];
        assert((a ^ b) ^ b == a) by (bit_vector);
    }
    assert(xor_mask(xor_mask(data, key), key) =~= data);
}

/// The extended length fields read back the length that `length_header`
/// wrote, and the mask bit is set.
proof fn lemma_length_header_roundtrip(f: Seq<u8>, n: u64)
    requires
        f.len() >= 1 + length_header(n).len(),
        f.subrange(1, 1 + length_header(n).len() as int) == length_header(n),
    ensures
        frame_is_masked(f),
        mask_offset(f) == 1 + length_header(n).len(),
        declared_payload_len(f) == n as int,
{
    let h = length_header(n);
    assert(f[1] == h[0]) by {
        assert(f.subrange(1, 1 + h.len() as int)[0] == f[1]);
    }
    if n < 126 {
        assert((0x80u8 | (n as u8)) & 0x7Fu8 == n as u8 && (0x80u8 | (n as u8)) & 0x80u8 != 0
            && (n as u8) as u64 == n) by (bit_vector)
            requires
                n < 126,
        ;
    } else if n < 65536 {
        assert((0x80u8 | 126u8) & 0x7Fu8 == 126u8 && (0x80u8 | 126u8) & 0x80u8 != 0)
            by (bit_vector);
        assert(f[2] == h[1] && f[3] == h[2]) by {
            assert(f.subrange(1, 1 + h.len() as int)[1] == f[2]);
            assert(f.subrange(1, 1 + h.len() as int)[2] == f[3]);
        }
        assert(((((n >> 8u64) as u8) as u16) << 8u16) | ((n as u8) as u16) == n) by (bit_vector)
            requires
                n < 65536,
        ;
    } else {
        assert((0x80u8 | 127u8) & 0x7Fu8 == 127u8 && (0x80u8 | 127u8) & 0x80u8 != 0)
            by (bit_vector);
        let b = f.subrange(2, 10);
        assert(b =~= u64_be_bytes(n)) by {
            assert forall|k: int| 0 <= k < 8 implies #[trigger] b[k] == u64_be_bytes(n)[k] by {
                assert(f.subrange(1, 1 + h.len() as int)[k + 1] == f[k + 2]);
            }
        }
        assert(((((n >> 56u64) as u8) as u64) << 56u64) | ((((n >> 48u64) as u8) as u64)
            << 48u64) | ((((n >> 40u64) as u8) as u64) << 40u64) | ((((n >> 32u64) as u8) as u64)
            << 32u64) | ((((n >> 24u64) as u8) as u64) << 24u64) | ((((n >> 16u64) as u8) as u64)
            << 16u64) | ((((n >> 8u64) as u8) as u64) << 8u64) | ((n as u8) as u64) == n)
            by (bit_vector);
    }
}

/// The value of `bytes` read as one big-endian number.
pub open spec fn big_endian_value(bytes: Seq<u8>) -> nat
    decreases bytes.len(),
{
    if bytes.len() == 0 {
        0
    } else {
        big_endian_value(bytes.drop_last()) * 256 + bytes.last() as nat
    }
}

/// One more byte at the end shifts the value up by a byte.
proof fn lemma_big_endian_take(b: Seq<u8>, k: int)
    requires
        0 <= k < b.len(),
    ensures
        big_endian_value(b.take(k + 1)) == big_endian_value(b.take(k)) * 256 + b[k] as nat,
{
    assert(b.take(k + 1).drop_last() =~= b.take(k));
}

/// Two bytes, read big-endian.
proof fn lemma_big_endian_16(b: Seq<u8>)
    requires
        b.len() == 2,
    ensures
        big_endian_value(b) == be16(b[0], b[1]),
{
    lemma_big_endian_take(b, 0);
    lemma_big_endian_take(b, 1);
    assert(b.take(0) =~= Seq::<u8>::empty());
    assert(b.take(2) =~= b);
    let (x, y) = (b[0], b[1]);
    assert(((x as u16) << 8u16) | (y as u16) == (x as u16) * 256 + (y as u16)) by (bit_vector);
}

/// Eight bytes, read big-endian.
proof fn lemma_big_endian_64(b: Seq<u8>)
    requires
        b.len() == 8,
    ensures
        big_endian_value(b) == be64(b),
{
    assert(b.take(0) =~= Seq::<u8>::empty());
    assert(b.take(8) =~= b);
    lemma_big_endian_take(b, 0);
    lemma_big_endian_take(b, 1);
    lemma_big_endian_take(b, 2);
    lemma_big_endian_take(b, 3);
    lemma_big_endian_take(b, 4);
    lemma_big_endian_take(b, 5);
    lemma_big_endian_take(b, 6);
    lemma_big_endian_take(b, 7);
    let (b0, b1, b2, b3, b4, b5, b6, b7) = (b[0], b[1], b[2], b[3], b[4], b[5], b[6], b[7]);
    assert(((b0 as u64) << 56u64) | ((b1 as u64) << 48u64) | ((b2 as u64) << 40u64) | ((
    b3 as u64) << 32u64) | ((b4 as u64) << 24u64) | ((b5 as u64) << 16u64) | ((b6 as u64)
        << 8u64) | (b7 as u64) == (((((((b0 as u64) * 256 + (b1 as u64)) * 256 + (b2 as u64))
        * 256 + (b3 as u64)) * 256 + (b4 as u64)) * 256 + (b5 as u64)) * 256 + (b6 as u64))
        * 256 + (b7 as u64)) by (bit_vector);
}

/// How a frame is laid out, in plain arithmetic: FIN is the top bit of
/// byte 0; byte 1 holds the mask bit and a 7-bit length code; codes 126 and
/// 127 take the length from the next 2 or 8 bytes, read big-endian (masked
/// or not); then come the masking key, if the mask bit is set, and the
/// payload, each byte XOR-ed with key byte `i % 4` when masked and left as
/// it is otherwise.
pub proof fn lemma_frame_layout(buffer: Seq<u8>)
    requires
        buffer.len() >= 2,
    ensures
        ({
            let code = buffer[1] % 128;
            let masked = buffer[1] >= 128;
            let key_at: int = if code < 126 {
                2
            } else if code == 126 {
                4
            } else {
                10
            };
            let start: int = key_at + if masked {
                4int
            } else {
                0int
            };
            let len: int = if code < 126 {
                code as int
            } else {
                big_endian_value(buffer.subrange(2, key_at)) as int
            };
            &&& frame_is_final(buffer) == (buffer[0] >= 128)
            &&& frame_fits(buffer) == (key_at <= buffer.len() && start + len <= buffer.len())
            &&& frame_fits(buffer) ==> frame_payload(buffer).len() == len
            &&& frame_fits(buffer) ==> forall|i: int|
                0 <= i < len ==> #[trigger] frame_payload(buffer)[i] == if masked {
                    buffer[start + i] ^ buffer[key_at + i % 4]
                } else {
                    buffer[start + i]
                }
        }),
{
    let b0 = buffer[0];
    let b1 = buffer[1];
    assert((b0 & 0x80u8 != 0) == (b0 >= 128)) by (bit_vector);
    assert((b1 & 0x80u8 != 0) == (b1 >= 128) && b1 & 0x7Fu8 == b1 % 128) by (bit_vector);
    let code = b1 % 128;
    let key_at = mask_offset(buffer);
    if code == 126 && 4 <= buffer.len() {
        lemma_big_endian_16(buffer.subrange(2, 4));
    } else if code == 127 && 10 <= buffer.len() {
        lemma_big_endian_64(buffer.subrange(2, 10));
    }
    if frame_fits(buffer) {
        let start = payload_offset(buffer);
        let len = declared_payload_len(buffer);
        assert forall|i: int| 0 <= i < len implies #[trigger] frame_payload(buffer)[i] == if b1
            >= 128 {
            buffer[start + i] ^ buffer[key_at + i % 4]
        } else {
            buffer[start + i]
        } by {
            let x = buffer[start + i];
            assert(x ^ 0u8 == x) by (bit_vector);
        }
    }
}

/// A built frame starts with FIN and the opcode of `is_text` alone (0x81
/// for text, 0x82 for binary, whatever the payload); its second byte has
/// the mask bit set and the length code of the payload's length; the
/// masking key follows at byte 2, 4 or 10.
pub proof fn lemma_frame_header(payload: Seq<u8>, is_text: bool, key: Seq<u8>)
    requires
        key.len() == 4,
        payload.len() <= u64::MAX,
    ensures
        ({
            let f = websocket_frame(payload, is_text, key);
            let key_at: int = if payload.len() < 126 {
                2
            } else if payload.len() < 65536 {
                4
            } else {
                10
            };
            &&& f[0] == if is_text {
                0x81u8
            } else {
                0x82u8
            }
            &&& f[1] >= 128
            &&& f[1] % 128 == if payload.len() < 126 {
                payload.len() as int
            } else if payload.len() < 65536 {
                126int
            } else {
                127int
            }
            &&& f.subrange(key_at, key_at + 4) == key
        }),
{
    let f = websocket_frame(payload, is_text, key);
    let n = payload.len() as u64;
    assert(0x80u8 | 1u8 == 0x81u8 && 0x80u8 | 2u8 == 0x82u8) by (bit_vector);
    if n < 126 {
        assert((0x80u8 | (n as u8)) >= 128 && (0x80u8 | (n as u8)) % 128 == n) by (bit_vector)
            requires
                n < 126,
        ;
    } else {
        assert((0x80u8 | 126u8) == 254u8 && (0x80u8 | 127u8) == 255u8) by (bit_vector);
    }
    let key_at: int = 1 + length_header(n).len() as int;
    assert(f.subrange(key_at, key_at + 4) =~= key);
}

/// Reading back a frame that `websocket_frame` built gives the payload that
/// went in, with the FIN bit set, whatever the opcode and the masking key.
pub proof fn lemma_frame_roundtrip(payload: Seq<u8>, is_text: bool, key: Seq<u8>)
    requires
        key.len() == 4,
        payload.len() <= u64::MAX,
    ensures
        frame_fits(websocket_frame(payload, is_text, key)),
        frame_is_final(websocket_frame(payload, is_text, key)),
        frame_payload(websocket_frame(payload, is_text, key)) == payload,
{
    let f = websocket_frame(payload, is_text, key);
    let n = payload.len() as u64;
    let h = length_header(n);
    let op = frame_opcode(is_text);
    assert((0x80u8 | op) & 0x80u8 != 0) by (bit_vector);
    assert(f.subrange(1, 1 + h.len() as int) =~= h);
    lemma_length_header_roundtrip(f, n);
    let off = 1 + h.len() as int;
    assert(frame_mask(f) =~= key);
    assert(f.subrange(off + 4, off + 4 + payload.len()) =~= xor_mask(payload, key));
    lemma_xor_mask_twice(payload, key);
}

/// A frame of `payload` takes the payload, the masking key and 2, 4 or 10
/// header bytes as the payload length needs.
pub proof fn lemma_frame_len(payload: Seq<u8>, is_text: bool, key: Seq<u8>)
    requires
        key.len() == 4,
        payload.len() <= u64::MAX,
    ensures
        websocket_frame(payload, is_text, key).len() == payload.len() + 4 + if payload.len()
            < 126 {
            2int
        } else if payload.len() < 65536 {
            4int
        } else {
            10int
        },
{
}

/// Builds the final, masked frame that carries `payload` with the given
/// masking key.
pub fn encode_websocket_frame(payload: &[u8], is_text: bool, masking_key: [u8; 4]) -> (frame: Vec<
    u8,
>)
    requires
        payload@.len() + 14 <= usize::MAX,
    ensures
        frame@ == websocket_frame(payload@, is_text, masking_key@),
{
    let mut frame: Vec<u8> = Vec::new();

    // FIN, RSV1, RSV2, RSV3, opcode
    let opcode: u8 = if is_text {
        0x1
    } else {
        0x2
    };
    frame.push(0x80 | opcode);

    // Mask bit and payload length
    let payload_len = payload.len();
    let len = payload_len as u64;
    if payload_len < 126 {
        frame.push(0x80 | len as u8);
    } else if payload_len < 65536 {
        frame.push(0x80 | 126);
        frame.push((len >> 8) as u8);
        frame.push(len as u8);
    } else {
        frame.push(0x80 | 127);
        frame.push((len >> 56) as u8);
        frame.push((len >> 48) as u8);
        frame.push((len >> 40) as u8);
        frame.push((len >> 32) as u8);
        frame.push((len >> 24) as u8);
        frame.push((len >> 16) as u8);
        frame.push((len >> 8) as u8);
        frame.push(len as u8);
    }
    assert(frame@ =~= seq![0x80u8 | frame_opcode(is_text)] + length_header(len));

    // Masking key
    frame.push(masking_key[0]);
    frame.push(masking_key[1]);
    frame.push(masking_key[2]);
    frame.push(masking_key[3]);
    let ghost header = frame@;
    assert(header =~= seq![0x80u8 | frame_opcode(is_text)] + length_header(len) + masking_key@);

    // Payload
    let mut i: usize = 0;
    while i < payload_len
        invariant
            payload_len == payload@.len(),
            i <= payload_len,
            header.len() <= 14,
            frame@.len() == header.len() + i,
            frame@.subrange(0, header.len() as int) == header,
            forall|j: int|
                0 <= j < i ==> #[trigger] frame@[header.len() + j] == payload@[j]
                    ^ masking_key@[j % 4],
        decreases payload_len - i,
    {
        frame.push(payload[i] ^ masking_key[i % 4]);
        i += 1;
    }
    assert(frame@ =~= header + xor_mask(payload@, masking_key@)) by {
        assert forall|j: int| 0 <= j < frame@.len() implies #[trigger] frame@[j] == (header
            + xor_mask(payload@, masking_key@))[j] by {
            if j < header.len() {
                assert(frame@[j] == frame@.subrange(0, header.len() as int)[j]);
            } else {
                assert(frame@[header.len() + (j - header.len())] == payload@[j - header.len()]
                    ^ masking_key@[(j - header.len()) % 4]);
            }
        }
    }
    frame
}

/// A fresh masking key from the thread-local random generator.
///
/// Calls `rand::rng()` and `Rng::fill` on a 4-byte array. Nothing is
/// promised of the bytes: they are random.
#[verifier::external_body]
fn random_masking_key() -> (key: [u8; 4]) {
    let mut key = [0u8; 4];
    rand::rng().fill(&mut key);
    key
}

/// Builds the final, masked frame that carries the UTF-8 bytes of `message`,
/// under a masking key drawn at random.
pub fn build_websocket_frame(message: &str, is_text: bool) -> (frame: Vec<u8>)
    requires
        message.spec_bytes().len() + 14 <= usize::MAX,
    ensures
        exists|key: Seq<u8>|
            key.len() == 4 && frame@ == websocket_frame(message.spec_bytes(), is_text, key),
{
    let masking_key = random_masking_key();
    let frame = encode_websocket_frame(message.as_bytes(), is_text, masking_key);
    assert(masking_key@.len() == 4);
    frame
}

/// Whether `buffer` starts with a whole frame, so that
/// `parse_websocket_frame` may read it.
pub fn frame_is_complete(buffer: &[u8]) -> (complete: bool)
    ensures
        complete == frame_fits(buffer@),
{
    let n = buffer.len();
    if n < 2 {
        return false;
    }
    let masked = buffer[1] & 0x80 != 0;
    let code = buffer[1] & 0x7F;
    let start: usize = if code < 126 {
        2
    } else if code == 126 {
        4
    } else {
        10
    };
    if n < start {
        return false;
    }
    let len: u64 = if code < 126 {
        code as u64
    } else if code == 126 {
        (((buffer[2] as u16) << 8) | (buffer[3] as u16)) as u64
    } else {
        let len: u64 = ((buffer[2] as u64) << 56) | ((buffer[3] as u64) << 48) | ((
        buffer[4] as u64) << 40) | ((buffer[5] as u64) << 32) | ((buffer[6] as u64) << 24) | ((
        buffer[7] as u64) << 16) | ((buffer[8] as u64) << 8) | (buffer[9] as u64);
        assert(buffer@.subrange(2, 10)[0] == buffer@[2]);
        len
    };
    assert(len == declared_payload_len(buffer@));
    let payload_start: usize = if masked {
        start + 4
    } else {
        start
    };
    if payload_start > n {
        return false;
    }
    len <= (n - payload_start) as u64
}

/// Reads the frame at the start of `buffer`: its unmasked payload and
/// whether its FIN bit is set. The opcode is not looked at.
pub fn parse_websocket_frame(buffer: &[u8]) -> (res: (Vec<u8>, bool))
    requires
        frame_fits(buffer@),
    ensures
        res.0@ == frame_payload(buffer@),
        res.1 == frame_is_final(buffer@),
{
    // FIN, RSV1, RSV2, RSV3, opcode
    let fin = buffer[0] & 0x80 != 0;

    // Mask bit and payload length
    let masked = buffer[1] & 0x80 != 0;
    let code = buffer[1] & 0x7F;
    let mut offset: usize = 2;
    let payload_len: usize = if code < 126 {
        code as usize
    } else if code == 126 {
        let len: u16 = ((buffer[2] as u16) << 8) | (buffer[3] as u16);
        offset = 4;
        len as usize
    } else {
        let len: u64 = ((buffer[2] as u64) << 56) | ((buffer[3] as u64) << 48) | ((
        buffer[4] as u64) << 40) | ((buffer[5] as u64) << 32) | ((buffer[6] as u64) << 24) | ((
        buffer[7] as u64) << 16) | ((buffer[8] as u64) << 8) | (buffer[9] as u64);
        assert(buffer@.subrange(2, 10)[0] == buffer@[2]);
        assert(len == be64(buffer@.subrange(2, 10)));
        offset = 10;
        len as usize
    };
    assert(offset == mask_offset(buffer@));
    assert(payload_len == declared_payload_len(buffer@));

    // Masking key
    let masking_key: [u8; 4] = if masked {
        let key = [buffer[offset], buffer[offset + 1], buffer[offset + 2], buffer[offset + 3]];
        offset += 4;
        key
    } else {
        [0u8; 4]
    };
    assert(masking_key@ =~= frame_mask(buffer@));
    assert(offset == payload_offset(buffer@));

    // Payload
    let mut payload: Vec<u8> = Vec::with_capacity(payload_len);
    let buffer_len = buffer.len();
    let mut i: usize = 0;
    while i < payload_len
        invariant
            buffer_len == buffer@.len(),
            offset + payload_len <= buffer_len,
            i <= payload_len,
            payload@.len() == i,
            forall|j: int|
                0 <= j < i ==> #[trigger] payload@[j] == buffer@[offset + j] ^ masking_key@[j
                    % 4],
        decreases payload_len - i,
    {
        payload.push(buffer[offset + i] ^ masking_key[i % 4]);
        i += 1;
    }
    assert(payload@ =~= frame_payload(buffer@));
    (payload, fin)
}

/// What `String::from_utf8_lossy` makes of `bytes`.
pub uninterp spec fn utf8_lossy(bytes: Seq<u8>) -> Seq<char>;

/// `String::from_utf8_lossy(bytes)`, made an owned `String`. Claims: the
/// result is the named lossy decoding of the input, and for valid UTF-8 it
/// is the decoded text itself (std: only invalid sequences are replaced by
/// U+FFFD; valid input comes back borrowed, unchanged). What replaces an
/// invalid sequence is left to the name.
#[verifier::external_body]
fn string_from_utf8_lossy(bytes: &[u8]) -> (text: String)
    ensures
        text@ == utf8_lossy(bytes@),
        valid_utf8(bytes@) ==> text@ == decode_utf8(bytes@),
{
    String::from_utf8_lossy(bytes).into_owned()
}

/// Reads the frame at the start of `buffer` as text: its payload decoded as
/// UTF-8, invalid sequences replaced, and whether its FIN bit is set.
pub fn read_text_frame(buffer: &[u8]) -> (res: (String, bool))
    requires
        frame_fits(buffer@),
    ensures
        res.0@ == utf8_lossy(frame_payload(buffer@)),
        valid_utf8(frame_payload(buffer@)) ==> res.0@ == decode_utf8(frame_payload(buffer@)),
        res.1 == frame_is_final(buffer@),
{
    let (payload, fin) = parse_websocket_frame(buffer);
    (string_from_utf8_lossy(payload.as_slice()), fin)
}

/// A frame built from the UTF-8 bytes of a text reads back as that text.
pub proof fn lemma_text_frame_roundtrip(text: Seq<char>, is_text: bool, key: Seq<u8>)
    requires
        key.len() == 4,
        encode_utf8(text).len() <= u64::MAX,
    ensures
        frame_fits(websocket_frame(encode_utf8(text), is_text, key)),
        valid_utf8(frame_payload(websocket_frame(encode_utf8(text), is_text, key))),
        decode_utf8(frame_payload(websocket_frame(encode_utf8(text), is_text, key))) == text,
{
    lemma_frame_roundtrip(encode_utf8(text), is_text, key);
    encode_utf8_valid_utf8(text);
    encode_utf8_decode_utf8(text);
}

} // verus!
