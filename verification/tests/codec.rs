use kompact::paths::ActorPath;
use kompact::ser_helpers::{deserialise_msg, embed_in_msg, serialise_msg, serialise_to_msg,
    serialise_to_serialised, serialiser_to_serialised};
use kompact::serialisation::{RawBytes, SerError, U64Serialiser};

fn unique_path() -> ActorPath {
    ActorPath::Unique(vec![0, 1, 2, 3, 4, 5, 6, 7, 8, 9, 10, 11, 12, 13, 14, 15])
}

fn named_path() -> ActorPath {
    ActorPath::Named(b"system/component".to_vec())
}

#[test]
fn envelope_round_trip_unique() {
    let msg = RawBytes { ser_id: 7, data: vec![1, 2, 3] };
    let bytes = serialise_msg(&unique_path(), &named_path(), Box::new(msg)).unwrap();
    let envelope = deserialise_msg(bytes).unwrap();
    assert_eq!(envelope.ser_id, 7);
    match envelope.sender {
        ActorPath::Unique(id) => assert_eq!(id, vec![0, 1, 2, 3, 4, 5, 6, 7, 8, 9, 10, 11, 12, 13, 14, 15]),
        ActorPath::Named(_) => panic!("expected a unique sender"),
    }
    match envelope.receiver {
        ActorPath::Named(name) => assert_eq!(name, b"system/component".to_vec()),
        ActorPath::Unique(_) => panic!("expected a named receiver"),
    }
    assert_eq!(&envelope.data[..], &[1, 2, 3]);
}

#[test]
fn envelope_exact_bytes() {
    let src = ActorPath::Unique(vec![0u8; 16]);
    let dst = ActorPath::Named(b"ab".to_vec());
    let msg = RawBytes { ser_id: 1, data: vec![0xAB] };
    let bytes = serialise_msg(&src, &dst, Box::new(msg)).unwrap();
    let mut expected: Vec<u8> = Vec::new();
    expected.push(0); // unique tag
    expected.extend_from_slice(&[0u8; 16]);
    expected.push(1); // named tag
    expected.extend_from_slice(&[0, 2]); // name length, big-endian
    expected.extend_from_slice(b"ab");
    expected.extend_from_slice(&[0, 0, 0, 0, 0, 0, 0, 1]); // ser_id, big-endian
    expected.push(0xAB);
    assert_eq!(&bytes[..], &expected[..]);
}

#[test]
fn embed_matches_serialise() {
    let src = unique_path();
    let dst = named_path();
    let eager = serialise_to_serialised(&RawBytes { ser_id: 42, data: vec![9, 9, 9] }).unwrap();
    let embedded = embed_in_msg(&src, &dst, eager).unwrap();
    let direct =
        serialise_msg(&src, &dst, Box::new(RawBytes { ser_id: 42, data: vec![9, 9, 9] })).unwrap();
    assert_eq!(&embedded[..], &direct[..]);
}

#[test]
fn deserialise_rejects_garbage() {
    let r = deserialise_msg(bytes::Bytes::from(vec![9u8, 9, 9]));
    assert!(matches!(r, Err(SerError::InvalidData)));
}

#[test]
fn deserialise_rejects_truncated_envelope() {
    let msg = RawBytes { ser_id: 7, data: vec![] };
    let full = serialise_msg(&unique_path(), &unique_path(), Box::new(msg)).unwrap();
    // cut the buffer inside the type identifier
    let cut = full.slice(0..full.len() - 6);
    let r = deserialise_msg(cut);
    assert!(r.is_err());
}

#[test]
fn serialise_to_msg_builds_envelope() {
    let m = serialise_to_msg(unique_path(), named_path(), Box::new(RawBytes {
        ser_id: 11,
        data: vec![4, 5],
    }))
    .unwrap();
    assert_eq!(m.ser_id, 11);
    assert_eq!(&m.data[..], &[4, 5]);
}

#[test]
fn serialised_from_serialiser_is_big_endian() {
    let s = serialiser_to_serialised(&0x0102030405060708u64, &U64Serialiser { ser_id: 9 }).unwrap();
    assert_eq!(s.ser_id, 9);
    assert_eq!(&s.data[..], &[1, 2, 3, 4, 5, 6, 7, 8]);
}

#[test]
fn path_size_hints_are_exact() {
    assert_eq!(unique_path().size_hint(), 17);
    assert_eq!(named_path().size_hint(), 3 + b"system/component".len());
}
