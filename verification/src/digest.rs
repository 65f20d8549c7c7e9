//! Digests: the stable id of a delivery and the fingerprint of a request.

use vstd::prelude::*;
use vstd::slice::*;
use vstd::string::*;
use vstd::utf8::*;

use crate::decimal::{digit_str, hex_char};
use crate::text::{control_char, holds_control, id_accepted, Text};

verus! {

/// The SHA-256 digest of a byte sequence.
pub uninterp spec fn sha256_digest(data: Seq<u8>) -> Seq<u8>;

/// SHA-256, by `sha2::Sha256::digest`. The digest is a function of the bytes alone and is
/// thirty-two bytes long.
#[verifier::external_body]
fn sha256(data: &[u8]) -> (r: Vec<u8>)
    ensures
        r@ == sha256_digest(data@),
        r@.len() == 32,
{
    <sha2::Sha256 as sha2::Digest>::digest(data).to_vec()
}

/// The bytes in lower-case hexadecimal, two digits each, the high half first.
pub open spec fn hex_text(bytes: Seq<u8>) -> Text {
    Seq::new(
        2 * bytes.len(),
        |i: int|
            hex_char(
                if i % 2 == 0 {
                    bytes[i / 2] as int / 16
                } else {
                    bytes[i / 2] as int % 16
                },
            ),
    )
}

/// What is digested for the delivery of a mapping in a period: the two ids and a zero byte between.
pub open spec fn delivery_preimage(period_id: Text, mapping_id: Text) -> Seq<u8> {
    encode_utf8(period_id).push(0) + encode_utf8(mapping_id)
}

/// The delivery id that goes with a digest: a fixed prefix and half of the digest in hexadecimal.
pub open spec fn delivery_id_for(digest: Seq<u8>) -> Text {
    "billing_delivery_"@ + hex_text(digest.take(16))
}

/// The delivery id of a mapping in a period.
pub open spec fn delivery_id_text(period_id: Text, mapping_id: Text) -> Text {
    delivery_id_for(sha256_digest(delivery_preimage(period_id, mapping_id)))
}

pub fn encode_hex(bytes: &[u8]) -> (r: String)
    ensures
        r@ == hex_text(bytes@),
{
    let mut output = String::new();
    let mut i: usize = 0;
    while i < bytes.len()
        invariant
            i <= bytes@.len(),
            output@ == hex_text(bytes@.take(i as int)),
        decreases bytes@.len() - i,
    {
        let byte: u8 = bytes[i];
        output.append(digit_str(byte / 16));
        output.append(digit_str(byte % 16));
        i = i + 1;
        assert(output@ =~= hex_text(bytes@.take(i as int)));
    }
    assert(bytes@.take(i as int) =~= bytes@);
    output
}

/// The delivery id that goes with the digest of a period id and a mapping id.
pub fn delivery_id_from_digest(digest: &[u8]) -> (r: String)
    requires
        digest@.len() >= 16,
    ensures
        r@ == delivery_id_for(digest@),
{
    let half = slice_subrange(digest, 0, 16);
    assert(half@ =~= digest@.take(16));
    "billing_delivery_".to_owned().concat(encode_hex(half).as_str())
}

/// The delivery id of a mapping in a period: the same ids always give the same delivery id.
pub fn stable_delivery_id(period_id: &str, mapping_id: &str) -> (r: String)
    ensures
        r@ == delivery_id_text(period_id@, mapping_id@),
{
    let mut input: Vec<u8> = slice_to_vec(period_id.as_bytes());
    input.push(0);
    let mut tail: Vec<u8> = slice_to_vec(mapping_id.as_bytes());
    input.append(&mut tail);
    assert(input@ =~= delivery_preimage(period_id@, mapping_id@));
    let digest = sha256(input.as_slice());
    delivery_id_from_digest(digest.as_slice())
}

/// The fingerprint of a request, from its wire bytes.
pub fn request_hash(wire: &[u8]) -> (r: Vec<u8>)
    ensures
        r@ == sha256_digest(wire@),
        r@.len() == 32,
{
    sha256(wire)
}

proof fn lemma_scalar_bytes_nonzero(scalar: u32)
    requires
        scalar != 0,
        is_scalar(scalar),
    ensures
        forall|i: int|
            0 <= i < encode_scalar(scalar).len() ==> #[trigger] encode_scalar(scalar)[i] != 0,
{
    if has_width_1_encoding(scalar) {
        assert(((scalar & 0x7f) as u8) != 0) by (bit_vector)
            requires
                0 < scalar <= 0x7f,
        ;
    } else {
        assert((0xc0u8 | ((scalar >> 6) & 0x1f) as u8) != 0) by (bit_vector);
        assert((0xe0u8 | ((scalar >> 12) & 0x0f) as u8) != 0) by (bit_vector);
        assert((0xf0u8 | ((scalar >> 18) & 0x7) as u8) != 0) by (bit_vector);
        assert((0x80u8 | (scalar & 0x3f) as u8) != 0) by (bit_vector);
        assert((0x80u8 | ((scalar >> 6) & 0x3f) as u8) != 0) by (bit_vector);
        assert((0x80u8 | ((scalar >> 12) & 0x3f) as u8) != 0) by (bit_vector);
    }
}

proof fn lemma_text_bytes_nonzero(s: Text)
    requires
        !holds_control(s),
    ensures
        forall|i: int| 0 <= i < encode_utf8(s).len() ==> #[trigger] encode_utf8(s)[i] != 0,
    decreases s.len(),
{
    if s.len() > 0 {
        let rest = s.drop_first();
        assert(!control_char(s[0]));
        char_is_scalar(s[0]);
        lemma_scalar_bytes_nonzero(s[0] as u32);
        assert forall|i: int| 0 <= i < rest.len() implies !control_char(#[trigger] rest[i]) by {
            assert(!control_char(s[i + 1]));
        }
        lemma_text_bytes_nonzero(rest);
        let head = encode_scalar(s[0] as u32);
        assert forall|i: int| 0 <= i < encode_utf8(s).len() implies #[trigger] encode_utf8(s)[i]
            != 0 by {
            if i < head.len() {
                assert(encode_utf8(s)[i] == head[i]);
            } else {
                assert(encode_utf8(s)[i] == encode_utf8(rest)[i - head.len()]);
            }
        }
    }
}

/// Two accepted pairs of period and mapping are digested alike only when they are the same pair, so
/// that the delivery ids of different lines can meet only where SHA-256 itself does.
pub proof fn law_delivery_preimages_are_distinct(
    period_a: Text,
    mapping_a: Text,
    period_b: Text,
    mapping_b: Text,
)
    requires
        id_accepted(period_a),
        id_accepted(period_b),
        delivery_preimage(period_a, mapping_a) == delivery_preimage(period_b, mapping_b),
    ensures
        period_a == period_b,
        mapping_a == mapping_b,
{
    let (pa, pb) = (encode_utf8(period_a), encode_utf8(period_b));
    let (ma, mb) = (encode_utf8(mapping_a), encode_utf8(mapping_b));
    let whole_a = pa.push(0) + ma;
    let whole_b = pb.push(0) + mb;
    lemma_text_bytes_nonzero(period_a);
    lemma_text_bytes_nonzero(period_b);
    assert(whole_a[pa.len() as int] == 0);
    assert(whole_b[pb.len() as int] == 0);
    if pa.len() < pb.len() {
        assert(whole_b[pa.len() as int] == pb[pa.len() as int]);
    }
    if pb.len() < pa.len() {
        assert(whole_a[pb.len() as int] == pa[pb.len() as int]);
    }
    assert(pa =~= whole_a.take(pa.len() as int));
    assert(pb =~= whole_b.take(pb.len() as int));
    assert(ma =~= whole_a.skip(pa.len() as int + 1));
    assert(mb =~= whole_b.skip(pb.len() as int + 1));
    encode_utf8_decode_utf8(period_a);
    encode_utf8_decode_utf8(period_b);
    encode_utf8_decode_utf8(mapping_a);
    encode_utf8_decode_utf8(mapping_b);
}

/// The number that a hexadecimal digit stands for.
pub open spec fn hex_value(c: char) -> int {
    if '0' <= c <= '9' {
        c as int - '0' as int
    } else {
        c as int - 'a' as int + 10
    }
}

/// Bytes are written with two digits each, the high half first, in lower case.
pub proof fn law_hex_reads_back(bytes: Seq<u8>)
    ensures
        hex_text(bytes).len() == 2 * bytes.len(),
        forall|i: int|
            0 <= i < hex_text(bytes).len() ==> {
                let c = #[trigger] hex_text(bytes)[i];
                '0' <= c <= '9' || 'a' <= c <= 'f'
            },
        forall|i: int|
            0 <= i < bytes.len() ==> (#[trigger] bytes[i]) as int == 16 * hex_value(
                hex_text(bytes)[2 * i],
            ) + hex_value(hex_text(bytes)[2 * i + 1]),
{
    assert forall|i: int| 0 <= i < bytes.len() implies (#[trigger] bytes[i]) as int == 16
        * hex_value(hex_text(bytes)[2 * i]) + hex_value(hex_text(bytes)[2 * i + 1]) by {
        assert((2 * i) / 2 == i && (2 * i) % 2 == 0);
        assert((2 * i + 1) / 2 == i && (2 * i + 1) % 2 == 1);
    }
}

/// A delivery id is a fixed prefix and thirty-two digits, and two digests give the same one exactly
/// when their first sixteen bytes are the same.
pub proof fn law_delivery_id_is_half_the_digest(a: Seq<u8>, b: Seq<u8>)
    requires
        a.len() >= 16,
        b.len() >= 16,
    ensures
        "billing_delivery_"@.is_prefix_of(delivery_id_for(a)),
        delivery_id_for(a).len() == "billing_delivery_"@.len() + 32,
        delivery_id_for(a) == delivery_id_for(b) <==> forall|i: int|
            0 <= i < 16 ==> #[trigger] a[i] == b[i],
        forall|i: int|
            0 <= i < 16 ==> (#[trigger] a[i]) as int == 16 * hex_value(
                delivery_id_for(a)["billing_delivery_"@.len() + 2 * i],
            ) + hex_value(delivery_id_for(a)["billing_delivery_"@.len() + 2 * i + 1]),
{
    let prefix = "billing_delivery_"@;
    let (x, y) = (a.take(16), b.take(16));
    law_hex_reads_back(x);
    law_hex_reads_back(y);
    assert(prefix =~= delivery_id_for(a).take(prefix.len() as int));
    if delivery_id_for(a) == delivery_id_for(b) {
        assert(hex_text(x) =~= delivery_id_for(a).skip(prefix.len() as int));
        assert(hex_text(y) =~= delivery_id_for(b).skip(prefix.len() as int));
        assert forall|i: int| 0 <= i < 16 implies #[trigger] a[i] == b[i] by {
            assert(x[i] == a[i] && y[i] == b[i]);
        }
    }
    if forall|i: int| 0 <= i < 16 ==> #[trigger] a[i] == b[i] {
        assert(x =~= y);
    }
    assert forall|i: int| 0 <= i < 16 implies (#[trigger] a[i]) as int == 16 * hex_value(
        delivery_id_for(a)[prefix.len() + 2 * i],
    ) + hex_value(delivery_id_for(a)[prefix.len() + 2 * i + 1]) by {
        assert(x[i] == a[i]);
    }
}

/// What is digested for a delivery: the bytes of the period id, a zero byte, and the bytes of the
/// mapping id; and the delivery id is that of its digest.
pub proof fn law_delivery_id_is_of_period_and_mapping(period_id: Text, mapping_id: Text)
    ensures
        ({
            let digested = delivery_preimage(period_id, mapping_id);
            let at = encode_utf8(period_id).len() as int;
            &&& digested.take(at) == encode_utf8(period_id)
            &&& digested[at] == 0
            &&& digested.skip(at + 1) == encode_utf8(mapping_id)
            &&& delivery_id_text(period_id, mapping_id) == delivery_id_for(sha256_digest(digested))
        }),
{
    let digested = delivery_preimage(period_id, mapping_id);
    let at = encode_utf8(period_id).len() as int;
    assert(digested.take(at) =~= encode_utf8(period_id));
    assert(digested.skip(at + 1) =~= encode_utf8(mapping_id));
}

} // verus!
