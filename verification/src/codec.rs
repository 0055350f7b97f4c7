//! Text encodings of keys and group elements: MessagePack framing, then Base64.

use vstd::prelude::*;

verus! {

/// The standard Base64 digit for a six-bit value.
pub open spec fn spec_base64_digit(v: int) -> char {
    if v < 26 {
        (65 + v) as char
    } else if v < 52 {
        (97 + (v - 26)) as char
    } else if v < 62 {
        (48 + (v - 52)) as char
    } else if v == 62 {
        '+'
    } else {
        '/'
    }
}

/// Standard Base64 with padding: each group of three bytes becomes four
/// digits, and a last group of one or two bytes is padded with `=`.
pub open spec fn spec_base64_encode(bytes: Seq<u8>) -> Seq<char>
    decreases bytes.len(),
{
    if bytes.len() == 0 {
        Seq::empty()
    } else {
        let b0 = bytes[0] as int;
        if bytes.len() == 1 {
            seq![spec_base64_digit(b0 / 4), spec_base64_digit((b0 % 4) * 16), '=', '=']
        } else {
            let b1 = bytes[1] as int;
            if bytes.len() == 2 {
                seq![
                    spec_base64_digit(b0 / 4),
                    spec_base64_digit((b0 % 4) * 16 + b1 / 16),
                    spec_base64_digit((b1 % 16) * 4),
                    '=',
                ]
            } else {
                let b2 = bytes[2] as int;
                seq![
                    spec_base64_digit(b0 / 4),
                    spec_base64_digit((b0 % 4) * 16 + b1 / 16),
                    spec_base64_digit((b1 % 16) * 4 + b2 / 64),
                    spec_base64_digit(b2 % 64),
                ] + spec_base64_encode(bytes.skip(3))
            }
        }
    }
}

/// What the Base64 decoder of the `base64` crate (standard alphabet) makes of
/// `text`: the decoded bytes, or `None` where it reports an error.
pub uninterp spec fn spec_base64_decode(text: Seq<char>) -> Option<Seq<u8>>;

/// What Base64 decoding gives: on the standard Base64 of some bytes, those
/// bytes; on any other text, what the decoder makes of it. The decode wrapper
/// claims that the decoder's result is this.
pub open spec fn spec_base64_read(text: Seq<char>) -> Option<Seq<u8>> {
    if exists|b: Seq<u8>| #[trigger] spec_base64_encode(b) == text {
        Some(choose|b: Seq<u8>| #[trigger] spec_base64_encode(b) == text)
    } else {
        spec_base64_decode(text)
    }
}

/// MessagePack's header of an array of `len` items: a fixarray marker below
/// 16, else the array16 or array32 marker and the length, big-endian.
pub open spec fn spec_rmp_array_header(len: nat) -> Seq<u8> {
    if len < 16 {
        seq![(0x90 + len) as u8]
    } else if len < 0x10000 {
        seq![0xdcu8, (len / 0x100) as u8, (len % 0x100) as u8]
    } else {
        seq![
            0xddu8,
            (len / 0x1000000) as u8,
            ((len / 0x10000) % 0x100) as u8,
            ((len / 0x100) % 0x100) as u8,
            (len % 0x100) as u8,
        ]
    }
}

/// MessagePack of an unsigned byte: itself below 128, else the uint8 marker
/// and the byte.
pub open spec fn spec_rmp_byte(b: u8) -> Seq<u8> {
    if b < 128 {
        seq![b]
    } else {
        seq![0xccu8, b]
    }
}

/// The MessagePack of each byte, one after the other.
pub open spec fn spec_rmp_items(bytes: Seq<u8>) -> Seq<u8>
    decreases bytes.len(),
{
    if bytes.len() == 0 {
        Seq::empty()
    } else {
        spec_rmp_byte(bytes[0]) + spec_rmp_items(bytes.drop_first())
    }
}

/// The MessagePack bytes that `rmp_serde` writes for a sequence of bytes: an
/// array header, then each byte as an unsigned integer.
pub open spec fn spec_rmp_pack(bytes: Seq<u8>) -> Seq<u8> {
    spec_rmp_array_header(bytes.len()) + spec_rmp_items(bytes)
}

/// The sequence of bytes that `rmp_serde` reads back from `packed`, or `None`
/// where it reports an error.
pub uninterp spec fn spec_rmp_unpack(packed: Seq<u8>) -> Option<Seq<u8>>;

/// Whether `packed` is the MessagePack that `rmp_serde` writes for `bytes`, of
/// a length whose array header it writes exactly.
pub open spec fn spec_rmp_packs(bytes: Seq<u8>, packed: Seq<u8>) -> bool {
    bytes.len() <= u32::MAX && spec_rmp_pack(bytes) == packed
}

/// What MessagePack reading gives: on the MessagePack array that `rmp_serde`
/// writes for some bytes, those bytes; on anything else, what `rmp_serde` reads
/// from it. The reading wrapper claims that the crate's result is this.
pub open spec fn spec_rmp_read(packed: Seq<u8>) -> Option<Seq<u8>> {
    if exists|b: Seq<u8>| #[trigger] spec_rmp_packs(b, packed) {
        Some(choose|b: Seq<u8>| #[trigger] spec_rmp_packs(b, packed))
    } else {
        spec_rmp_unpack(packed)
    }
}

/// Whether `bytes` is the compressed encoding of a point of the group G1 of
/// BLS12-381, as `bls12_381::G1Affine::from_compressed` decides.
pub uninterp spec fn spec_g1_compressed_valid(bytes: Seq<u8>) -> bool;

/// The number that `bytes` stand for, least significant byte first.
pub open spec fn spec_le_value(bytes: Seq<u8>) -> nat
    decreases bytes.len(),
{
    if bytes.len() == 0 {
        0
    } else {
        (bytes[0] as nat) + 256 * spec_le_value(bytes.drop_first())
    }
}

/// The order of the scalar field of BLS12-381.
pub open spec fn spec_scalar_modulus() -> nat {
    0x73eda753299d7d483339d80809a1d80553bda402fffe5bfeffffffff00000001nat
}

/// Whether `bytes` is the canonical little-endian encoding of a scalar of
/// BLS12-381: the number it stands for is below the field's order.
pub open spec fn spec_scalar_canonical(bytes: Seq<u8>) -> bool {
    spec_le_value(bytes) < spec_scalar_modulus()
}

/// Whether a character is in the standard Base64 alphabet or is its padding.
pub open spec fn spec_base64_char(c: char) -> bool {
    ('A' <= c <= 'Z') || ('a' <= c <= 'z') || ('0' <= c <= '9') || c == '+' || c == '/' || c
        == '='
}

/// Whether every character of a text is in the standard Base64 alphabet or is
/// its padding.
pub open spec fn spec_base64_text(text: Seq<char>) -> bool {
    forall|i: int| 0 <= i < text.len() ==> spec_base64_char(#[trigger] text[i])
}

/// The length of a compressed G1 point.
pub const G1_COMPRESSED_LEN: usize = 48;

/// The length of an encoded scalar.
pub const SCALAR_LEN: usize = 32;

/// The view of an optional byte vector.
pub open spec fn opt_bytes(o: Option<Vec<u8>>) -> Option<Seq<u8>> {
    match o {
        Some(v) => Some(v@),
        None => None,
    }
}

/// Base64 text has four digits for every three bytes begun.
pub proof fn lemma_base64_len(bytes: Seq<u8>)
    ensures
        spec_base64_encode(bytes).len() == 4 * ((bytes.len() + 2) / 3),
    decreases bytes.len(),
{
    if bytes.len() >= 3 {
        lemma_base64_len(bytes.skip(3));
    }
}

/// Every Base64 digit is in the standard alphabet.
proof fn lemma_base64_digit(v: int)
    requires
        0 <= v < 64,
    ensures
        spec_base64_char(spec_base64_digit(v)),
{
}

/// Base64 text uses only the standard alphabet and the padding `=`.
pub proof fn lemma_base64_alphabet(bytes: Seq<u8>)
    ensures
        spec_base64_text(spec_base64_encode(bytes)),
    decreases bytes.len(),
{
    if bytes.len() > 0 {
        let b0 = bytes[0] as int;
        lemma_base64_digit(b0 / 4);
        if bytes.len() == 1 {
            lemma_base64_digit((b0 % 4) * 16);
        } else {
            let b1 = bytes[1] as int;
            lemma_base64_digit((b0 % 4) * 16 + b1 / 16);
            if bytes.len() == 2 {
                lemma_base64_digit((b1 % 16) * 4);
            } else {
                let b2 = bytes[2] as int;
                lemma_base64_digit((b1 % 16) * 4 + b2 / 64);
                lemma_base64_digit(b2 % 64);
                lemma_base64_alphabet(bytes.skip(3));
                let head = seq![
                    spec_base64_digit(b0 / 4),
                    spec_base64_digit((b0 % 4) * 16 + b1 / 16),
                    spec_base64_digit((b1 % 16) * 4 + b2 / 64),
                    spec_base64_digit(b2 % 64),
                ];
                let tail = spec_base64_encode(bytes.skip(3));
                assert(spec_base64_encode(bytes) == head + tail);
                assert forall|i: int| 0 <= i < (head + tail).len() implies spec_base64_char(
                    #[trigger] (head + tail)[i],
                ) by {
                    if i >= 4 {
                        assert((head + tail)[i] == tail[i - 4]);
                    }
                }
            }
        }
    }
}

/// The standard Base64 digits are distinct, and none is the padding `=`.
proof fn lemma_base64_digit_distinct(v: int, w: int)
    requires
        0 <= v < 64,
        0 <= w < 64,
    ensures
        spec_base64_digit(v) == spec_base64_digit(w) ==> v == w,
        spec_base64_digit(v) != '=',
{
}

/// The digits of one group determine its three bytes.
proof fn lemma_base64_group3(x0: u8, x1: u8, x2: u8, y0: u8, y1: u8, y2: u8)
    requires
        x0 / 4 == y0 / 4,
        (x0 % 4) * 16 + x1 / 16 == (y0 % 4) * 16 + y1 / 16,
        (x1 % 16) * 4 + x2 / 64 == (y1 % 16) * 4 + y2 / 64,
        x2 % 64 == y2 % 64,
    ensures
        x0 == y0 && x1 == y1 && x2 == y2,
{
    assert(x0 == y0 && x1 == y1 && x2 == y2) by (bit_vector)
        requires
            x0 / 4 == y0 / 4,
            (x0 % 4) * 16 + x1 / 16 == (y0 % 4) * 16 + y1 / 16,
            (x1 % 16) * 4 + x2 / 64 == (y1 % 16) * 4 + y2 / 64,
            x2 % 64 == y2 % 64,
    ;
}

/// The digits of a last group of two bytes determine them.
proof fn lemma_base64_group2(x0: u8, x1: u8, y0: u8, y1: u8)
    requires
        x0 / 4 == y0 / 4,
        (x0 % 4) * 16 + x1 / 16 == (y0 % 4) * 16 + y1 / 16,
        (x1 % 16) * 4 == (y1 % 16) * 4,
    ensures
        x0 == y0 && x1 == y1,
{
    assert(x0 == y0 && x1 == y1) by (bit_vector)
        requires
            x0 / 4 == y0 / 4,
            (x0 % 4) * 16 + x1 / 16 == (y0 % 4) * 16 + y1 / 16,
            (x1 % 16) * 4 == (y1 % 16) * 4,
    ;
}

/// The digits of a last group of one byte determine it.
proof fn lemma_base64_group1(x0: u8, y0: u8)
    requires
        x0 / 4 == y0 / 4,
        (x0 % 4) * 16 == (y0 % 4) * 16,
    ensures
        x0 == y0,
{
    assert(x0 == y0) by (bit_vector)
        requires
            x0 / 4 == y0 / 4,
            (x0 % 4) * 16 == (y0 % 4) * 16,
    ;
}

/// Distinct byte strings have distinct standard Base64 texts.
pub proof fn lemma_base64_injective(a: Seq<u8>, b: Seq<u8>)
    requires
        spec_base64_encode(a) == spec_base64_encode(b),
    ensures
        a == b,
    decreases a.len(),
{
    lemma_base64_len(a);
    lemma_base64_len(b);
    let e = spec_base64_encode(a);
    if a.len() == 0 || b.len() == 0 {
        assert(a.len() == 0 && b.len() == 0);
        assert(a =~= b);
    } else {
        let a0 = a[0];
        let b0 = b[0];
        lemma_base64_digit_distinct(a0 as int / 4, b0 as int / 4);
        if a.len() == 1 {
            assert(e[2] == '=');
            if b.len() >= 2 {
                lemma_base64_digit_distinct((b[1] as int % 16) * 4, 0);
                lemma_base64_digit_distinct((b0 as int % 4) * 16 + b[1] as int / 16, 0);
                assert(false);
            }
            lemma_base64_digit_distinct((a0 as int % 4) * 16, (b0 as int % 4) * 16);
            lemma_base64_group1(a0, b0);
            assert(a =~= b);
        } else if a.len() == 2 {
            let a1 = a[1];
            lemma_base64_digit_distinct((a1 as int % 16) * 4, 0);
            assert(e[3] == '=');
            if b.len() == 1 {
                assert(e[2] == '=');
                assert(false);
            }
            if b.len() >= 3 {
                lemma_base64_digit_distinct(b[2] as int % 64, 0);
                assert(false);
            }
            let b1 = b[1];
            lemma_base64_digit_distinct(
                (a0 as int % 4) * 16 + a1 as int / 16,
                (b0 as int % 4) * 16 + b1 as int / 16,
            );
            lemma_base64_digit_distinct((a1 as int % 16) * 4, (b1 as int % 16) * 4);
            lemma_base64_group2(a0, a1, b0, b1);
            assert(a =~= b);
        } else {
            let a1 = a[1];
            let a2 = a[2];
            lemma_base64_digit_distinct(a2 as int % 64, 0);
            lemma_base64_digit_distinct((a1 as int % 16) * 4 + a2 as int / 64, 0);
            if b.len() == 1 {
                assert(e[2] == '=');
                assert(false);
            }
            if b.len() == 2 {
                assert(e[3] == '=');
                assert(false);
            }
            let b1 = b[1];
            let b2 = b[2];
            let ha = seq![
                spec_base64_digit(a0 as int / 4),
                spec_base64_digit((a0 as int % 4) * 16 + a1 as int / 16),
                spec_base64_digit((a1 as int % 16) * 4 + a2 as int / 64),
                spec_base64_digit(a2 as int % 64),
            ];
            let hb = seq![
                spec_base64_digit(b0 as int / 4),
                spec_base64_digit((b0 as int % 4) * 16 + b1 as int / 16),
                spec_base64_digit((b1 as int % 16) * 4 + b2 as int / 64),
                spec_base64_digit(b2 as int % 64),
            ];
            assert(e == ha + spec_base64_encode(a.skip(3)));
            assert(e == hb + spec_base64_encode(b.skip(3)));
            assert(e[0] == ha[0] && e[0] == hb[0]);
            assert(e[1] == ha[1] && e[1] == hb[1]);
            assert(e[2] == ha[2] && e[2] == hb[2]);
            assert(e[3] == ha[3] && e[3] == hb[3]);
            lemma_base64_digit_distinct(
                (a0 as int % 4) * 16 + a1 as int / 16,
                (b0 as int % 4) * 16 + b1 as int / 16,
            );
            lemma_base64_digit_distinct(
                (a1 as int % 16) * 4 + a2 as int / 64,
                (b1 as int % 16) * 4 + b2 as int / 64,
            );
            lemma_base64_digit_distinct(a2 as int % 64, b2 as int % 64);
            lemma_base64_group3(a0, a1, a2, b0, b1, b2);
            let ta = spec_base64_encode(a.skip(3));
            let tb = spec_base64_encode(b.skip(3));
            assert(ta =~= e.subrange(4, e.len() as int));
            assert(tb =~= e.subrange(4, e.len() as int));
            lemma_base64_injective(a.skip(3), b.skip(3));
            assert(a =~= a.subrange(0, 3) + a.skip(3));
            assert(b =~= b.subrange(0, 3) + b.skip(3));
            assert(a.subrange(0, 3) =~= b.subrange(0, 3));
        }
    }
}

/// Decoding the standard Base64 of any bytes gives those bytes back.
pub proof fn lemma_base64_round_trip(bytes: Seq<u8>)
    ensures
        spec_base64_read(spec_base64_encode(bytes)) == Some(bytes),
{
    let text = spec_base64_encode(bytes);
    assert(exists|b: Seq<u8>| #[trigger] spec_base64_encode(b) == text);
    let c = choose|b: Seq<u8>| #[trigger] spec_base64_encode(b) == text;
    lemma_base64_injective(c, bytes);
}

/// Each byte takes one or two bytes of MessagePack.
pub proof fn lemma_rmp_items_len(bytes: Seq<u8>)
    ensures
        bytes.len() <= spec_rmp_items(bytes).len() <= 2 * bytes.len(),
    decreases bytes.len(),
{
    if bytes.len() > 0 {
        lemma_rmp_items_len(bytes.drop_first());
    }
}

/// The MessagePack of bytes, item by item, determines them.
proof fn lemma_rmp_items_injective(a: Seq<u8>, b: Seq<u8>)
    requires
        spec_rmp_items(a) == spec_rmp_items(b),
    ensures
        a == b,
    decreases a.len(),
{
    lemma_rmp_items_len(a);
    lemma_rmp_items_len(b);
    if a.len() == 0 || b.len() == 0 {
        assert(a.len() == 0 && b.len() == 0);
        assert(a =~= b);
    } else {
        let ia = spec_rmp_items(a);
        let ta = spec_rmp_items(a.drop_first());
        let tb = spec_rmp_items(b.drop_first());
        assert(ia == spec_rmp_byte(a[0]) + ta);
        assert(ia == spec_rmp_byte(b[0]) + tb);
        if a[0] < 128 {
            assert(ia[0] == a[0]);
            if b[0] >= 128 {
                assert(ia[0] == 0xcc);
                assert(false);
            }
            assert(ia[0] == b[0]);
            assert(ta =~= ia.subrange(1, ia.len() as int));
            assert(tb =~= ia.subrange(1, ia.len() as int));
        } else {
            assert(ia[0] == 0xcc);
            if b[0] < 128 {
                assert(ia[0] == b[0]);
                assert(false);
            }
            assert(ia[1] == a[0]);
            assert(ia[1] == b[0]);
            assert(ta =~= ia.subrange(2, ia.len() as int));
            assert(tb =~= ia.subrange(2, ia.len() as int));
        }
        lemma_rmp_items_injective(a.drop_first(), b.drop_first());
        assert(a =~= seq![a[0]] + a.drop_first());
        assert(b =~= seq![b[0]] + b.drop_first());
    }
}

/// The bytes of a 32-bit length, big-endian, determine it.
proof fn lemma_be32_injective(x: u32, y: u32)
    requires
        x / 0x1000000 == y / 0x1000000,
        (x / 0x10000) % 0x100 == (y / 0x10000) % 0x100,
        (x / 0x100) % 0x100 == (y / 0x100) % 0x100,
        x % 0x100 == y % 0x100,
    ensures
        x == y,
{
    assert(x == y) by (bit_vector)
        requires
            x / 0x1000000 == y / 0x1000000,
            (x / 0x10000) % 0x100 == (y / 0x10000) % 0x100,
            (x / 0x100) % 0x100 == (y / 0x100) % 0x100,
            x % 0x100 == y % 0x100,
    ;
}

/// An array header determines the length it was written for.
proof fn lemma_rmp_header_injective(la: nat, lb: nat, ra: Seq<u8>, rb: Seq<u8>)
    requires
        la <= u32::MAX,
        lb <= u32::MAX,
        spec_rmp_array_header(la) + ra == spec_rmp_array_header(lb) + rb,
    ensures
        la == lb,
{
    let ha = spec_rmp_array_header(la);
    let hb = spec_rmp_array_header(lb);
    let p = ha + ra;
    assert(p[0] == ha[0]);
    assert(p[0] == hb[0]);
    if la < 16 {
        assert(ha[0] == 0x90 + la);
        if lb >= 16 {
            assert(hb[0] == 0xdc || hb[0] == 0xdd);
            assert(false);
        }
        assert(hb[0] == 0x90 + lb);
    } else if la < 0x10000 {
        assert(ha[0] == 0xdc);
        if lb < 16 {
            assert(hb[0] == 0x90 + lb);
            assert(false);
        } else if lb >= 0x10000 {
            assert(hb[0] == 0xdd);
            assert(false);
        }
        assert(p[1] == ha[1] && p[1] == hb[1]);
        assert(p[2] == ha[2] && p[2] == hb[2]);
        assert(la / 0x100 == lb / 0x100);
        assert(la % 0x100 == lb % 0x100);
    } else {
        assert(ha[0] == 0xdd);
        if lb < 16 {
            assert(hb[0] == 0x90 + lb);
            assert(false);
        } else if lb < 0x10000 {
            assert(hb[0] == 0xdc);
            assert(false);
        }
        assert(p[1] == ha[1] && p[1] == hb[1]);
        assert(p[2] == ha[2] && p[2] == hb[2]);
        assert(p[3] == ha[3] && p[3] == hb[3]);
        assert(p[4] == ha[4] && p[4] == hb[4]);
        let x = la as u32;
        let y = lb as u32;
        assert(x / 0x1000000 == y / 0x1000000);
        assert((x / 0x10000) % 0x100 == (y / 0x10000) % 0x100);
        assert((x / 0x100) % 0x100 == (y / 0x100) % 0x100);
        assert(x % 0x100 == y % 0x100);
        lemma_be32_injective(x, y);
    }
}

/// Distinct byte sequences (of lengths the header writes exactly) have
/// distinct MessagePack.
pub proof fn lemma_rmp_pack_injective(a: Seq<u8>, b: Seq<u8>)
    requires
        a.len() <= u32::MAX,
        b.len() <= u32::MAX,
        spec_rmp_pack(a) == spec_rmp_pack(b),
    ensures
        a == b,
{
    lemma_rmp_header_injective(a.len(), b.len(), spec_rmp_items(a), spec_rmp_items(b));
    let h = spec_rmp_array_header(a.len());
    let p = spec_rmp_pack(a);
    assert(spec_rmp_items(a) =~= p.subrange(h.len() as int, p.len() as int));
    assert(spec_rmp_items(b) =~= p.subrange(h.len() as int, p.len() as int));
    lemma_rmp_items_injective(a, b);
}

/// Reading the MessagePack of any byte sequence (of a length the header writes
/// exactly) gives the sequence back.
pub proof fn lemma_rmp_round_trip(bytes: Seq<u8>)
    requires
        bytes.len() <= u32::MAX,
    ensures
        spec_rmp_read(spec_rmp_pack(bytes)) == Some(bytes),
{
    let packed = spec_rmp_pack(bytes);
    assert(spec_rmp_packs(bytes, packed));
    let c = choose|b: Seq<u8>| #[trigger] spec_rmp_packs(b, packed);
    lemma_rmp_pack_injective(c, bytes);
}

/// The MessagePack of a byte sequence takes at least one byte, and at most
/// five for the header and two for each byte.
pub proof fn lemma_rmp_pack_len(bytes: Seq<u8>)
    ensures
        1 <= spec_rmp_pack(bytes).len() <= 2 * bytes.len() + 5,
{
    lemma_rmp_items_len(bytes);
}

/// `base64::encode`: the standard Base64 text of `bytes`. Claimed: the text is
/// `spec_base64_encode` of the bytes (`STANDARD`: the standard alphabet, with
/// padding), and `base64::decode` gives the bytes back. The crate panics
/// where the text's length does not fit in `usize`, which `requires` leaves out.
#[verifier::external_body]
fn base64_encode(bytes: &[u8]) -> (text: String)
    requires
        bytes@.len() <= usize::MAX / 4 * 3,
    ensures
        text@ == spec_base64_encode(bytes@),
        spec_base64_decode(text@) == Some(bytes@),
{
    base64::encode(bytes)
}

/// `base64::decode`: the bytes that a standard Base64 text stands for. Claimed:
/// the result is `spec_base64_decode` of the text, and that is
/// `spec_base64_read` of it: on the standard Base64 of some bytes, those bytes
/// (the crate's round-trip tests; the encoding is injective, see
/// `lemma_base64_injective`).
#[verifier::external_body]
pub(crate) fn base64_decode(text: &str) -> (bytes: Option<Vec<u8>>)
    ensures
        opt_bytes(bytes) == spec_base64_decode(text@),
        opt_bytes(bytes) == spec_base64_read(text@),
{
    base64::decode(text).ok()
}

/// `rmp_serde::to_vec` on a byte sequence. It fails only where the memory for
/// the output cannot be reserved, so nothing is claimed of when it succeeds.
/// Claimed of a success: the bytes are `spec_rmp_pack` of the input (`[u8]`
/// serialises as a sequence: an array header, then each byte through
/// `write_uint`), and `rmp_serde::from_slice` reads the input back from them.
/// The array length that it writes is a `u32`, which `requires` keeps exact.
#[verifier::external_body]
fn rmp_pack(bytes: &[u8]) -> (packed: Option<Vec<u8>>)
    requires
        bytes@.len() <= u32::MAX,
    ensures
        packed matches Some(p) ==> {
            &&& p@ == spec_rmp_pack(bytes@)
            &&& spec_rmp_unpack(p@) == Some(bytes@)
        },
{
    rmp_serde::to_vec(bytes).ok()
}

/// `rmp_serde::from_slice` into a byte vector. Claimed: the result is
/// `spec_rmp_unpack` of the input, and that is `spec_rmp_read` of it: on the
/// MessagePack array that `to_vec` writes for some bytes, those bytes (the
/// packing is injective, see `lemma_rmp_pack_injective`).
#[verifier::external_body]
fn rmp_unpack(packed: &[u8]) -> (bytes: Option<Vec<u8>>)
    ensures
        opt_bytes(bytes) == spec_rmp_unpack(packed@),
        opt_bytes(bytes) == spec_rmp_read(packed@),
{
    rmp_serde::from_slice::<Vec<u8>>(packed).ok()
}

/// `bls12_381::G1Affine::from_compressed`, reduced to whether it accepts the
/// bytes. Claimed: the answer is `spec_g1_compressed_valid` of the bytes.
#[verifier::external_body]
fn g1_compressed_valid(bytes: &[u8]) -> (valid: bool)
    requires
        bytes@.len() == G1_COMPRESSED_LEN,
    ensures
        valid == spec_g1_compressed_valid(bytes@),
{
    let array: &[u8; 48] = bytes.try_into().expect("the length is 48");
    bool::from(bls12_381::G1Affine::from_compressed(array).is_some())
}

/// `bls12_381::Scalar::from_bytes`, reduced to whether it accepts the bytes.
/// Claimed: the answer is `spec_scalar_canonical` of the bytes, as the source
/// decides it (subtracting the modulus from the little-endian limbs borrows).
#[verifier::external_body]
fn scalar_canonical(bytes: &[u8]) -> (valid: bool)
    requires
        bytes@.len() == SCALAR_LEN,
    ensures
        valid == spec_scalar_canonical(bytes@),
{
    let array: &[u8; 32] = bytes.try_into().expect("the length is 32");
    bool::from(bls12_381::Scalar::from_bytes(array).is_some())
}

/// The text form of a value that is already written as MessagePack: its Base64.
pub fn encode(packed: &[u8]) -> (text: String)
    requires
        packed@.len() <= usize::MAX / 4 * 3,
    ensures
        text@ == spec_base64_encode(packed@),
        text@.len() == 4 * ((packed@.len() + 2) / 3),
        spec_base64_text(text@),
        spec_base64_decode(text@) == Some(packed@),
        spec_base64_read(text@) == Some(packed@),
{
    proof {
        lemma_base64_len(packed@);
        lemma_base64_alphabet(packed@);
        lemma_base64_round_trip(packed@);
    }
    base64_encode(packed)
}

/// The text form of a key given by its bytes: Base64 of its MessagePack framing.
pub open spec fn spec_key_text(key: Seq<u8>) -> Seq<char> {
    spec_base64_encode(spec_rmp_pack(key))
}

/// The key of `len` bytes that a text stands for, if it stands for one:
/// Base64 decoding, then MessagePack reading, then a length check.
pub open spec fn spec_key_from_text(text: Seq<char>, len: nat) -> Option<Seq<u8>> {
    match spec_base64_read(text) {
        Some(packed) => match spec_rmp_read(packed) {
            Some(key) => if key.len() == len {
                Some(key)
            } else {
                None
            },
            None => None,
        },
        None => None,
    }
}

/// The compressed G1 point that a text stands for, if it stands for a valid one.
pub open spec fn spec_str_to_g1(text: Seq<char>) -> Option<Seq<u8>> {
    match spec_key_from_text(text, G1_COMPRESSED_LEN as nat) {
        Some(p) => if spec_g1_compressed_valid(p) {
            Some(p)
        } else {
            None
        },
        None => None,
    }
}

/// The canonical scalar that a text stands for, if it stands for one.
pub open spec fn spec_str_to_scalar(text: Seq<char>) -> Option<Seq<u8>> {
    match spec_key_from_text(text, SCALAR_LEN as nat) {
        Some(s) => if spec_scalar_canonical(s) {
            Some(s)
        } else {
            None
        },
        None => None,
    }
}

/// Appending a byte appends its MessagePack.
proof fn lemma_rmp_items_push(bytes: Seq<u8>, b: u8)
    ensures
        spec_rmp_items(bytes.push(b)) == spec_rmp_items(bytes) + spec_rmp_byte(b),
    decreases bytes.len(),
{
    if bytes.len() == 0 {
        assert(bytes.push(b).drop_first() =~= Seq::<u8>::empty());
        assert(spec_rmp_items(Seq::<u8>::empty()) =~= Seq::<u8>::empty());
        assert(bytes.push(b)[0] == b);
        assert(spec_rmp_items(bytes.push(b)) == spec_rmp_byte(b) + spec_rmp_items(
            Seq::<u8>::empty(),
        ));
        assert(spec_rmp_items(bytes) =~= Seq::<u8>::empty());
        assert(spec_rmp_items(bytes.push(b)) =~= spec_rmp_items(bytes) + spec_rmp_byte(b));
    } else {
        lemma_rmp_items_push(bytes.drop_first(), b);
        assert(bytes.push(b).drop_first() =~= bytes.drop_first().push(b));
        assert(spec_rmp_items(bytes.push(b)) =~= spec_rmp_items(bytes) + spec_rmp_byte(b));
    }
}

/// The MessagePack array of `bytes`, written here byte by byte, as
/// `rmp_serde` writes it.
fn pack_bytes(bytes: &[u8]) -> (packed: Vec<u8>)
    requires
        bytes@.len() <= u32::MAX,
    ensures
        packed@ == spec_rmp_pack(bytes@),
{
    let n = bytes.len();
    let mut packed: Vec<u8> = Vec::new();
    if n < 16 {
        packed.push((0x90 + n) as u8);
    } else if n < 0x10000 {
        packed.push(0xdc);
        packed.push((n / 0x100) as u8);
        packed.push((n % 0x100) as u8);
    } else {
        packed.push(0xdd);
        packed.push((n / 0x1000000) as u8);
        packed.push(((n / 0x10000) % 0x100) as u8);
        packed.push(((n / 0x100) % 0x100) as u8);
        packed.push((n % 0x100) as u8);
    }
    let ghost header = packed@;
    assert(header =~= spec_rmp_array_header(n as nat));
    assert(bytes@.subrange(0, 0) =~= Seq::<u8>::empty());
    assert(header =~= header + spec_rmp_items(bytes@.subrange(0, 0)));
    let mut i: usize = 0;
    while i < n
        invariant
            n == bytes@.len(),
            i <= n,
            header == spec_rmp_array_header(n as nat),
            packed@ == header + spec_rmp_items(bytes@.subrange(0, i as int)),
        decreases n - i,
    {
        let b = bytes[i];
        proof {
            assert(bytes@.subrange(0, i + 1) =~= bytes@.subrange(0, i as int).push(b));
            lemma_rmp_items_push(bytes@.subrange(0, i as int), b);
        }
        if b < 128 {
            packed.push(b);
        } else {
            packed.push(0xcc);
            packed.push(b);
        }
        proof {
            assert(packed@ =~= header + spec_rmp_items(bytes@.subrange(0, i + 1)));
        }
        i = i + 1;
    }
    proof {
        assert(bytes@.subrange(0, n as int) =~= bytes@);
    }
    packed
}

/// The text form of a key is read back as the key.
pub proof fn lemma_key_text_round_trip(key: Seq<u8>)
    requires
        key.len() <= u32::MAX,
    ensures
        spec_key_from_text(spec_key_text(key), key.len()) == Some(key),
{
    lemma_rmp_round_trip(key);
    lemma_base64_round_trip(spec_rmp_pack(key));
}

/// Every valid compressed G1 point's text form, Base64 of its MessagePack, is
/// read back by `str_to_g1` as that point.
pub proof fn lemma_g1_text_round_trip(point: Seq<u8>)
    requires
        point.len() == G1_COMPRESSED_LEN,
        spec_g1_compressed_valid(point),
    ensures
        spec_str_to_g1(spec_base64_encode(spec_rmp_pack(point))) == Some(point),
{
    lemma_key_text_round_trip(point);
}

/// Every canonical scalar's text form, Base64 of its MessagePack, is read back
/// by `str_to_scalar` as that scalar.
pub proof fn lemma_scalar_text_round_trip(scalar: Seq<u8>)
    requires
        scalar.len() == SCALAR_LEN,
        spec_scalar_canonical(scalar),
    ensures
        spec_str_to_scalar(spec_base64_encode(spec_rmp_pack(scalar))) == Some(scalar),
{
    lemma_key_text_round_trip(scalar);
}

/// `encode` of the MessagePack framing of a short key. The framing comes from
/// `rmp_serde`, or, where it cannot reserve the memory, is written here.
fn key_to_text(key: &[u8]) -> (text: Option<String>)
    requires
        key@.len() <= 64,
    ensures
        text is Some,
        text matches Some(t) ==> {
            &&& t@ == spec_key_text(key@)
            &&& spec_key_from_text(t@, key@.len()) == Some(key@)
            &&& t@.len() > 0
            &&& spec_base64_text(t@)
        },
{
    let packed = match rmp_pack(key) {
        Some(packed) => packed,
        None => pack_bytes(key),
    };
    proof {
        lemma_rmp_pack_len(key@);
        lemma_rmp_round_trip(key@);
    }
    let text = encode(packed.as_slice());
    Some(text)
}

/// The key of `len` bytes that a text stands for, if any.
fn key_from_text(text: &str, len: usize) -> (key: Option<Vec<u8>>)
    ensures
        opt_bytes(key) == spec_key_from_text(text@, len as nat),
{
    match base64_decode(text) {
        Some(packed) => match rmp_unpack(packed.as_slice()) {
            Some(key) => if key.len() == len {
                Some(key)
            } else {
                None
            },
            None => None,
        },
        None => None,
    }
}

/// The text form of a G1 point given by its compressed encoding: always made.
/// Reading the text back with `str_to_g1` gives the point again.
pub fn g1_to_str(point: &[u8]) -> (text: Option<String>)
    requires
        point@.len() == G1_COMPRESSED_LEN,
    ensures
        text is Some,
        text matches Some(t) ==> {
            &&& t@ == spec_base64_encode(spec_rmp_pack(point@))
            &&& t@.len() > 0
            &&& spec_base64_text(t@)
            &&& spec_g1_compressed_valid(point@) ==> spec_str_to_g1(t@) == Some(point@)
        },
{
    key_to_text(point)
}

/// The compressed G1 point that `point` stands for, on texts that stand for a
/// valid point.
pub fn str_to_g1(point: &String) -> (decoded: Vec<u8>)
    requires
        spec_str_to_g1(point@) is Some,
    ensures
        Some(decoded@) == spec_str_to_g1(point@),
{
    match key_from_text(point.as_str(), G1_COMPRESSED_LEN) {
        Some(p) => {
            let valid = g1_compressed_valid(p.as_slice());
            proof {
                assert(valid);
            }
            p
        },
        None => Vec::new(),
    }
}

/// The compressed G1 point that `point` stands for, or `None` where it stands
/// for none.
pub fn try_str_to_g1(point: &String) -> (decoded: Option<Vec<u8>>)
    ensures
        opt_bytes(decoded) == spec_str_to_g1(point@),
{
    match key_from_text(point.as_str(), G1_COMPRESSED_LEN) {
        Some(p) => {
            if g1_compressed_valid(p.as_slice()) {
                Some(str_to_g1(point))
            } else {
                None
            }
        },
        None => None,
    }
}

/// The text form of a scalar given by its 32-byte encoding: always made.
/// Reading the text back with `str_to_scalar` gives the scalar again.
pub fn scalar_to_str(scalar: &[u8]) -> (text: Option<String>)
    requires
        scalar@.len() == SCALAR_LEN,
    ensures
        text is Some,
        text matches Some(t) ==> {
            &&& t@ == spec_base64_encode(spec_rmp_pack(scalar@))
            &&& t@.len() > 0
            &&& spec_base64_text(t@)
            &&& spec_scalar_canonical(scalar@) ==> spec_str_to_scalar(t@) == Some(scalar@)
        },
{
    key_to_text(scalar)
}

/// The scalar that `text` stands for, on texts that stand for a canonical one.
pub fn str_to_scalar(text: &String) -> (decoded: Vec<u8>)
    requires
        spec_str_to_scalar(text@) is Some,
    ensures
        Some(decoded@) == spec_str_to_scalar(text@),
{
    match key_from_text(text.as_str(), SCALAR_LEN) {
        Some(s) => {
            let valid = scalar_canonical(s.as_slice());
            proof {
                assert(valid);
            }
            s
        },
        None => Vec::new(),
    }
}

/// The scalar that `text` stands for, or `None` where it stands for none.
pub fn try_str_to_scalar(text: &String) -> (decoded: Option<Vec<u8>>)
    ensures
        opt_bytes(decoded) == spec_str_to_scalar(text@),
{
    match key_from_text(text.as_str(), SCALAR_LEN) {
        Some(s) => {
            if scalar_canonical(s.as_slice()) {
                Some(str_to_scalar(text))
            } else {
                None
            }
        },
        None => None,
    }
}

} // verus!
