use msg_listener::aes::{encrypt, Iv, Key};
use msg_listener::codec::decode_batch;

const CODEC_KEY_HEX: &str = "101112131415161718191a1b1c1d1e1f202122232425262728292a2b2c2d2e2f";

fn codec_key() -> Key {
    Key::load_from_hex_string(CODEC_KEY_HEX).unwrap()
}

fn byte_array_json(bytes: &[u8]) -> String {
    let mut s = String::from("[");
    for (i, b) in bytes.iter().enumerate() {
        if i > 0 {
            s.push(',');
        }
        s.push_str(&b.to_string());
    }
    s.push(']');
    s
}

fn entry_json(iv: &[u8], ct: &[u8]) -> String {
    format!("{{\"iv\":{},\"encrypted_msg\":{}}}", byte_array_json(iv), byte_array_json(ct))
}

fn batch_json(entries: &[String]) -> Vec<u8> {
    format!("[{}]", entries.join(",")).into_bytes()
}

#[test]
fn decode_empty_batch() {
    let batch = decode_batch(&b"[]".to_vec()).unwrap();
    assert_eq!(batch.len(), 0);
}

#[test]
fn decode_recovers_encrypted_entries() {
    let key = codec_key();
    let iv0 = Iv::from_bytes((0u8..16).collect()).unwrap();
    let iv1 = Iv::from_bytes((16u8..32).collect()).unwrap();
    let ct0 = encrypt(b"first message", &key, &iv0);
    let ct1 = encrypt(b"second message", &key, &iv1);
    let payload = batch_json(&[
        entry_json(iv0.bytes(), &ct0.0),
        entry_json(iv1.bytes(), &ct1.0),
    ]);
    let batch = decode_batch(&payload).unwrap();
    assert_eq!(batch.len(), 2);
    assert_eq!(batch[0].decrypt_str(&key).unwrap(), "first message");
    assert_eq!(batch[1].decrypt_str(&key).unwrap(), "second message");
}

#[test]
fn decode_handles_boundary_byte_values() {
    let iv: Vec<u8> = vec![0, 255, 1, 254, 2, 253, 3, 252, 4, 251, 5, 250, 6, 249, 7, 248];
    let ct: Vec<u8> = vec![255u8; 16];
    let payload = batch_json(&[entry_json(&iv, &ct)]);
    let batch = decode_batch(&payload).unwrap();
    assert_eq!(batch.len(), 1);
}

#[test]
fn decode_rejects_whitespace() {
    assert!(decode_batch(&b"[ ]".to_vec()).is_err());
    assert!(decode_batch(&b"[{\"iv\": [0,0,0,0,0,0,0,0,0,0,0,0,0,0,0,0],\"encrypted_msg\":[]}]".to_vec()).is_err());
}

#[test]
fn decode_rejects_non_array() {
    assert!(decode_batch(&b"".to_vec()).is_err());
    assert!(decode_batch(&b"{}".to_vec()).is_err());
    assert!(decode_batch(&b"null".to_vec()).is_err());
    assert!(decode_batch(&b"[".to_vec()).is_err());
}

#[test]
fn decode_rejects_short_iv() {
    let iv = vec![0u8; 15];
    let ct = vec![1u8; 16];
    let payload = batch_json(&[entry_json(&iv, &ct)]);
    assert!(decode_batch(&payload).is_err());
}

#[test]
fn decode_rejects_wrong_field_order() {
    let iv = byte_array_json(&[0u8; 16]);
    let ct = byte_array_json(&[1u8; 16]);
    let payload = format!("[{{\"encrypted_msg\":{},\"iv\":{}}}]", ct, iv).into_bytes();
    assert!(decode_batch(&payload).is_err());
}

#[test]
fn decode_rejects_missing_field() {
    let iv = byte_array_json(&[0u8; 16]);
    let payload = format!("[{{\"iv\":{}}}]", iv).into_bytes();
    assert!(decode_batch(&payload).is_err());
}

#[test]
fn decode_rejects_bad_numbers() {
    // A leading zero is not canonical.
    let payload = b"[{\"iv\":[01,0,0,0,0,0,0,0,0,0,0,0,0,0,0,0],\"encrypted_msg\":[]}]".to_vec();
    assert!(decode_batch(&payload).is_err());
    // 256 is not a byte.
    let payload = b"[{\"iv\":[256,0,0,0,0,0,0,0,0,0,0,0,0,0,0,0],\"encrypted_msg\":[]}]".to_vec();
    assert!(decode_batch(&payload).is_err());
}

#[test]
fn decode_rejects_trailing_bytes() {
    let mut payload = batch_json(&[entry_json(&[0u8; 16], &[1u8; 16])]);
    payload.push(b' ');
    assert!(decode_batch(&payload).is_err());
    assert!(decode_batch(&b"[]x".to_vec()).is_err());
}

#[test]
fn decode_is_all_or_nothing() {
    // One malformed element refuses the whole batch, even with a valid
    // element in front of it.
    let good = entry_json(&[0u8; 16], &[1u8; 16]);
    let bad = entry_json(&[0u8; 15], &[1u8; 16]);
    let payload = batch_json(&[good, bad]);
    assert!(decode_batch(&payload).is_err());
}
