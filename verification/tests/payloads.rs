//! Bytes of payload files, of puts and of channel elements.
use lc_bench::channel::{decode_header, element_path, encode_header, send_payload_path, HEADER_LEN};
use lc_bench::metadata_sweep::{element_pointer, make_payload};
use lc_bench::native::NativeValue;
use lc_bench::payload::{
    check_payload_size, hash_run_id, header_bytes, make_small_unique_payload, object_path,
    object_size_usize, size_prefix_len, splitmix64, stable_run_hash, timestamp_bytes,
    unique_header_without_timestamp, PayloadFileSpec, PAYLOAD_TIMESTAMP_LEN,
};

/// The bytes of a payload file: zeroes, then the header over them, then the timestamp over that.
fn file_bytes(spec: &PayloadFileSpec, timestamp: u64) -> Vec<u8> {
    check_payload_size(spec.size_bytes).unwrap();
    let mut bytes = vec![0u8; spec.size_bytes as usize];
    let header = header_bytes(spec);
    bytes[..header.len()].copy_from_slice(&header);
    let stamp = timestamp_bytes(timestamp, spec.size_bytes);
    bytes[..stamp.len()].copy_from_slice(&stamp);
    bytes
}

#[test]
fn creates_sized_unique_payload_with_timestamp() {
    let first = PayloadFileSpec { run_id: "run-a", seed: 7, index: 1, size_bytes: 32 };
    let second = PayloadFileSpec { run_id: "run-a", seed: 7, index: 2, size_bytes: 32 };

    let first_bytes = file_bytes(&first, 1_700_000_000_000_000_000);
    let second_bytes = file_bytes(&second, 1_700_000_000_000_000_001);
    assert_eq!(first_bytes.len(), 32);
    assert_eq!(second_bytes.len(), 32);
    assert_ne!(
        u64::from_le_bytes(first_bytes[..PAYLOAD_TIMESTAMP_LEN].try_into().unwrap()),
        0
    );
    assert_ne!(
        &first_bytes[PAYLOAD_TIMESTAMP_LEN..],
        &second_bytes[PAYLOAD_TIMESTAMP_LEN..]
    );
}

#[test]
fn short_payload_files_take_what_fits() {
    let spec = PayloadFileSpec { run_id: "run-a", seed: 7, index: 1, size_bytes: 5 };
    let bytes = file_bytes(&spec, 0x0807_0605_0403_0201);
    assert_eq!(bytes, vec![1, 2, 3, 4, 5]);
    assert_eq!(size_prefix_len(5, 8), 5);
    assert_eq!(size_prefix_len(500, 8), 8);
    assert_eq!(
        check_payload_size(0).unwrap_err(),
        "payload file size must be greater than zero"
    );
}

#[test]
fn hashes_are_the_known_ones() {
    assert_eq!(hash_run_id(""), 0xcbf29ce484222325);
    assert_eq!(hash_run_id("a"), 0xaf63dc4c8601ec8c);
    assert_eq!(stable_run_hash(""), 2166136261);
    assert_eq!(stable_run_hash("a"), 0xe40c292c);
    assert_eq!(splitmix64(0), 0xe220a8397b1dcdaf);
    assert_eq!(splitmix64(0x9e3779b97f4a7c15), 0x6e789e6aa1b965f4);
}

#[test]
fn headers_follow_the_generator() {
    let spec = PayloadFileSpec { run_id: "a", seed: 3, index: 5, size_bytes: 64 };
    let header = unique_header_without_timestamp(&spec);
    let mut state = hash_run_id("a") ^ 3 ^ 5u64.rotate_left(17) ^ 64u64.rotate_left(7);
    assert_eq!(&header[..8], &[0u8; 8]);
    for chunk in header[8..].chunks(8) {
        state = splitmix64(state);
        assert_eq!(chunk, &state.to_le_bytes()[..chunk.len()]);
    }
}

#[test]
fn headers_differ_in_every_group() {
    let header = |seed, index, size_bytes| {
        unique_header_without_timestamp(&PayloadFileSpec { run_id: "a", seed, index, size_bytes })
    };
    let base = header(3, 5, 64);
    for other in [header(4, 5, 64), header(3, 6, 64), header(3, 5, 65)] {
        for group in 1..4 {
            assert_ne!(base[8 * group..8 * group + 8], other[8 * group..8 * group + 8]);
        }
    }
}

#[test]
fn put_payloads_start_with_their_index() {
    let payload = make_small_unique_payload("run-a", 9, 77, 21);
    assert_eq!(payload.len(), 21);
    assert_eq!(u64::from_le_bytes(payload[..8].try_into().unwrap()), 77);
    let mut state = hash_run_id("run-a") ^ 9 ^ 77u64.rotate_left(17);
    for chunk in payload[8..].chunks(8) {
        state = splitmix64(state);
        assert_eq!(chunk, &state.to_le_bytes()[..chunk.len()]);
    }
    assert_ne!(payload, make_small_unique_payload("run-a", 9, 78, 21));
}

#[test]
fn put_sizes_are_checked() {
    assert_eq!(object_size_usize(8).unwrap(), 8);
    assert!(object_size_usize(7).unwrap_err().contains("at least 8"));
    assert_eq!(object_path("dir", 12), "dir/object_00000012.bin");
}

#[test]
fn channel_headers_read_back() {
    let header = encode_header(-3, 1234, 4096, 99);
    assert_eq!(header.len(), HEADER_LEN);
    let back = decode_header(&header, "p").unwrap();
    assert_eq!(back.seq, -3);
    assert_eq!(back.send_unix_ns, 1234);
    assert_eq!(back.object_size_bytes, 4096);
    let mut wrong = header.clone();
    wrong[0] ^= 1;
    assert!(decode_header(&wrong, "p").unwrap_err().contains("p"));
}

#[test]
fn channel_files_are_numbered() {
    assert_ne!(send_payload_path("d", 1), send_payload_path("d", 2));
    assert!(send_payload_path("d", 1).starts_with("d/"));
    assert!(element_path("d", 7).starts_with("d/"));
}

#[test]
fn metadata_payloads_repeat_a_template() {
    assert_eq!(make_payload(4, 9, 0), "");
    assert_eq!(make_payload(4, 9, 6), "4:9:la");
    let template = "4:-9:lambda-channel-metadata-benchmark:";
    let long = make_payload(4, -9, 100);
    assert_eq!(long.len(), 100);
    assert!(long.starts_with(template));
    assert!(long[template.len()..].starts_with(template));
}

#[test]
fn metadata_pointers_hold_a_payload_only_if_it_has_a_size() {
    let bare = element_pointer(5, 6, 0);
    let keys: Vec<&str> = bare.iter().map(|f| f.key.as_str()).collect();
    assert_eq!(keys, vec!["kind", "seq", "seed"]);
    assert!(matches!(bare[1].value, NativeValue::Int(5)));
    assert!(matches!(element_pointer(5, u64::MAX, 0)[2].value, NativeValue::Int(-1)));
    let full = element_pointer(5, 6, 4);
    assert_eq!(full.len(), 4);
    assert!(matches!(&full[3].value, NativeValue::Text(t) if t == "6:5:"));
}
