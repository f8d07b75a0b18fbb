use msg_listener::aes::{encrypt, Iv, Key};
use msg_listener::errors::EntryError;
use msg_listener::listener::{
    next_request, run_cycle, CursorStore, CycleOutcome, FetchOutcome, READ_MSGS_AT_ONCE_NUM,
};

const LOOP_KEY_HEX: &str = "202122232425262728292a2b2c2d2e2f303132333435363738393a3b3c3d3e3f";

fn loop_key() -> Key {
    Key::load_from_hex_string(LOOP_KEY_HEX).unwrap()
}

fn loop_iv(last: u8) -> Iv {
    let mut bytes: Vec<u8> = (0u8..16).collect();
    bytes[15] = last;
    Iv::from_bytes(bytes).unwrap()
}

fn wire_byte_array(bytes: &[u8]) -> String {
    let mut s = String::from("[");
    for (i, b) in bytes.iter().enumerate() {
        if i > 0 {
            s.push(',');
        }
        s.push_str(&b.to_string());
    }
    s.push(']');
    s
}

fn wire_entry(iv: &[u8], ct: &[u8]) -> String {
    format!("{{\"iv\":{},\"encrypted_msg\":{}}}", wire_byte_array(iv), wire_byte_array(ct))
}

fn wire_batch(entries: &[String]) -> Vec<u8> {
    format!("[{}]", entries.join(",")).into_bytes()
}

/// A payload of `msgs` entries, each encrypted under its own IV.
fn encrypted_batch(key: &Key, msgs: &[&str]) -> Vec<u8> {
    let entries: Vec<String> = msgs
        .iter()
        .enumerate()
        .map(|(i, m)| {
            let iv = loop_iv(i as u8);
            let ct = encrypt(m.as_bytes(), key, &iv);
            wire_entry(iv.bytes(), &ct.0)
        })
        .collect();
    wire_batch(&entries)
}

#[test]
fn fetch_requests_at_most_ten() {
    assert_eq!(READ_MSGS_AT_ONCE_NUM, 10);
    let r = next_request(0);
    assert_eq!((r.start_index, r.num_msgs), (0, 10));
    let r = next_request(1_000_000);
    assert_eq!((r.start_index, r.num_msgs), (1_000_000, 10));
}

#[test]
fn cursor_store_reads_back_writes() {
    let mut store = CursorStore::new(5);
    assert_eq!(store.read(), 5);
    store.write(9);
    assert_eq!(store.read(), 9);
}

#[test]
fn one_cycle_drains_three_entries() {
    let key = loop_key();
    let payload = encrypted_batch(&key, &["msg zero", "msg one", "msg two"]);
    let mut store = CursorStore::new(0);
    match run_cycle(&mut store, &key, FetchOutcome::Response(payload)) {
        CycleOutcome::Sleeping(results) => {
            assert_eq!(results.len(), 3);
            assert_eq!(results[0].as_deref(), Ok("msg zero"));
            assert_eq!(results[1].as_deref(), Ok("msg one"));
            assert_eq!(results[2].as_deref(), Ok("msg two"));
        }
        CycleOutcome::BackoffSleeping => panic!("cycle should process the batch"),
    }
    assert_eq!(store.read(), 3);
}

#[test]
fn empty_batch_advances_nothing() {
    let key = loop_key();
    let mut store = CursorStore::new(42);
    match run_cycle(&mut store, &key, FetchOutcome::Response(b"[]".to_vec())) {
        CycleOutcome::Sleeping(results) => assert!(results.is_empty()),
        CycleOutcome::BackoffSleeping => panic!("an empty batch is not a failure"),
    }
    assert_eq!(store.read(), 42);
}

#[test]
fn one_corrupt_entry_does_not_stall_the_rest() {
    let key = loop_key();
    // Three entries; the middle one carries the wrong IV on the wire: its
    // ciphertext was made under a different IV, so its padding cannot check
    // out, while the other two decrypt fine.
    let iv0 = loop_iv(0);
    let iv1_real = loop_iv(0x55);
    let iv1_wire = loop_iv(0xAA);
    let iv2 = loop_iv(2);
    let ct0 = encrypt(b"still here", &key, &iv0);
    let ct1 = encrypt(b"lost forever", &key, &iv1_real);
    let ct2 = encrypt(b"also here", &key, &iv2);
    let payload = wire_batch(&[
        wire_entry(iv0.bytes(), &ct0.0),
        wire_entry(iv1_wire.bytes(), &ct1.0),
        wire_entry(iv2.bytes(), &ct2.0),
    ]);
    let mut store = CursorStore::new(7);
    match run_cycle(&mut store, &key, FetchOutcome::Response(payload)) {
        CycleOutcome::Sleeping(results) => {
            assert_eq!(results.len(), 3);
            assert_eq!(results[0].as_deref(), Ok("still here"));
            match &results[1] {
                Err(EntryError::Cipher(_)) => {}
                other => panic!("corrupt entry should fail the cipher, got {:?}", other),
            }
            assert_eq!(results[2].as_deref(), Ok("also here"));
        }
        CycleOutcome::BackoffSleeping => panic!("per-entry failure must not fail the batch"),
    }
    // The cursor still advances past the whole batch.
    assert_eq!(store.read(), 10);
}

#[test]
fn fetch_error_keeps_cursor_and_request() {
    let key = loop_key();
    let mut store = CursorStore::new(13);
    let before = next_request(store.read());
    match run_cycle(&mut store, &key, FetchOutcome::FetchError) {
        CycleOutcome::BackoffSleeping => {}
        CycleOutcome::Sleeping(_) => panic!("a fetch error must back off"),
    }
    assert_eq!(store.read(), 13);
    let after = next_request(store.read());
    assert_eq!((before.start_index, before.num_msgs), (after.start_index, after.num_msgs));
}

#[test]
fn decode_error_keeps_cursor_and_request() {
    let key = loop_key();
    let mut store = CursorStore::new(21);
    // Whitespace is not part of the wire format, so this payload is refused
    // whole.
    let payload = b"[ ]".to_vec();
    match run_cycle(&mut store, &key, FetchOutcome::Response(payload)) {
        CycleOutcome::BackoffSleeping => {}
        CycleOutcome::Sleeping(_) => panic!("a malformed payload must back off"),
    }
    assert_eq!(store.read(), 21);
    assert_eq!(next_request(store.read()).start_index, 21);
}

#[test]
fn transient_errors_then_success() {
    let key = loop_key();
    let mut store = CursorStore::new(0);
    for _ in 0..2 {
        match run_cycle(&mut store, &key, FetchOutcome::FetchError) {
            CycleOutcome::BackoffSleeping => {}
            CycleOutcome::Sleeping(_) => panic!("failed fetches must back off"),
        }
        assert_eq!(store.read(), 0);
        assert_eq!(next_request(store.read()).start_index, 0);
    }
    let payload = encrypted_batch(&key, &["after the storm", "calm seas", "landfall"]);
    match run_cycle(&mut store, &key, FetchOutcome::Response(payload)) {
        CycleOutcome::Sleeping(results) => {
            assert_eq!(results.len(), 3);
            assert_eq!(results[0].as_deref(), Ok("after the storm"));
        }
        CycleOutcome::BackoffSleeping => panic!("third attempt should succeed"),
    }
    assert_eq!(store.read(), 3);
}

#[test]
fn cycles_accumulate_cursor_over_many_batches() {
    let key = loop_key();
    let mut store = CursorStore::new(0);
    let mut last = store.read();
    for round in 0..4 {
        let payload = encrypted_batch(&key, &[&format!("round {}", round)]);
        match run_cycle(&mut store, &key, FetchOutcome::Response(payload)) {
            CycleOutcome::Sleeping(results) => assert_eq!(results.len(), 1),
            CycleOutcome::BackoffSleeping => panic!("batch should process"),
        }
        // Monotone, and advanced by exactly the batch length.
        assert_eq!(store.read(), last + 1);
        last = store.read();
    }
    assert_eq!(store.read(), 4);
}
