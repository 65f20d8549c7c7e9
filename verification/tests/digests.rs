use usage_billing::digest::{encode_hex, request_hash, stable_delivery_id};

#[test]
fn hexadecimal_is_lower_case_and_two_digits_each() {
    assert_eq!(encode_hex(&[]), "");
    assert_eq!(encode_hex(&[0x00, 0x0f, 0xa5, 0xff]), "000fa5ff");
}

#[test]
fn request_hash_is_sha256() {
    assert_eq!(
        encode_hex(&request_hash(b"abc")),
        "ba7816bf8f01cfea414140de5dae2223b00361a396177a9cb410ff61f20015ad"
    );
    assert_eq!(
        encode_hex(&request_hash(b"")),
        "e3b0c44298fc1c149afbf4c8996fb92427ae41e4649b934ca495991b7852b855"
    );
}

#[test]
fn delivery_ids_are_stable_and_separate_period_from_mapping() {
    let digest = request_hash(b"period_1\0tokens");
    let wanted = format!("billing_delivery_{}", encode_hex(&digest[..16]));
    assert_eq!(stable_delivery_id("period_1", "tokens"), wanted);
    assert_eq!(
        stable_delivery_id("period_1", "tokens"),
        stable_delivery_id("period_1", "tokens")
    );
    assert_ne!(stable_delivery_id("ab", "c"), stable_delivery_id("a", "bc"));
    assert_eq!(stable_delivery_id("p", "m").len(), "billing_delivery_".len() + 32);
}
