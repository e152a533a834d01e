use spine::errors::BusError;
use spine::payload::Message;
use spine::payload::MessagePayload;

#[test]
fn ten_byte_record_uses_twelve_byte_class() {
    let record: (u16, u64) = (7, 99);
    let encoded = bincode::serialize(&record).unwrap();
    assert_eq!(encoded.len(), 10);

    let msg = Message::new("tick", &record).unwrap();
    assert_eq!(msg.id, "tick");
    assert_eq!(msg.len, 10);
    assert!(matches!(msg.payload, MessagePayload::Bytes12(_)));
    assert_eq!(msg.serialized_data(), &encoded[..]);

    let back: (u16, u64) = msg.parse().unwrap();
    assert_eq!(back, record);
}

#[test]
fn inline_padding_is_zero() {
    let record: (u16, u64) = (0xABCD, 1);
    let msg = Message::new("tick", &record).unwrap();
    match msg.payload {
        MessagePayload::Bytes12(arr) => {
            assert_eq!(arr[10], 0);
            assert_eq!(arr[11], 0);
        },
        _ => panic!("expected the 12-byte class"),
    }
}

#[test]
fn two_hundred_byte_record_is_heap_backed() {
    let record: Vec<u8> = (0..192u16).map(|v| v as u8).collect();
    let encoded = bincode::serialize(&record).unwrap();
    assert_eq!(encoded.len(), 200);

    let msg = Message::new("bulk", &record).unwrap();
    assert_eq!(msg.len, 200);
    assert!(matches!(msg.payload, MessagePayload::Large(_)));
    assert_eq!(msg.serialized_data(), &encoded[..]);

    let back: Vec<u8> = msg.parse().unwrap();
    assert_eq!(back, record);
}

#[test]
fn smallest_class_is_chosen_at_every_boundary() {
    let cases: Vec<(usize, fn(&MessagePayload) -> bool)> = vec![
        (0, |p| matches!(p, MessagePayload::Bytes12(_))),
        (12, |p| matches!(p, MessagePayload::Bytes12(_))),
        (13, |p| matches!(p, MessagePayload::Bytes24(_))),
        (24, |p| matches!(p, MessagePayload::Bytes24(_))),
        (25, |p| matches!(p, MessagePayload::Bytes48(_))),
        (48, |p| matches!(p, MessagePayload::Bytes48(_))),
        (49, |p| matches!(p, MessagePayload::Bytes64(_))),
        (64, |p| matches!(p, MessagePayload::Bytes64(_))),
        (65, |p| matches!(p, MessagePayload::Bytes128(_))),
        (128, |p| matches!(p, MessagePayload::Bytes128(_))),
        (129, |p| matches!(p, MessagePayload::Large(_))),
        (500, |p| matches!(p, MessagePayload::Large(_))),
    ];
    for (n, is_expected_class) in cases {
        let bytes: Vec<u8> = (0..n).map(|v| (v % 251) as u8 + 1).collect();
        let msg = Message::from_bytes("raw", &bytes);
        assert!(is_expected_class(&msg.payload), "length {} chose the wrong class", n);
        assert_eq!(msg.len, n);
        assert_eq!(msg.serialized_data(), &bytes[..]);
    }
}

#[test]
fn string_round_trip() {
    let value = String::from("hello spine");
    let msg = Message::new("chat", &value).unwrap();
    let back: String = msg.parse().unwrap();
    assert_eq!(back, value);
}

#[test]
fn parse_of_mismatched_bytes_is_a_decoding_error() {
    let bytes = vec![1u8, 2, 3];
    let msg = Message::from_bytes("raw", &bytes);
    let outcome: Result<String, BusError> = msg.parse();
    assert!(matches!(outcome, Err(BusError::Decoding(_))));
}

struct Unencodable;

impl serde::Serialize for Unencodable {
    fn serialize<S: serde::Serializer>(&self, _serializer: S) -> Result<S::Ok, S::Error> {
        Err(<S::Error as serde::ser::Error>::custom("refused on purpose"))
    }
}

#[test]
fn rejected_value_is_an_encoding_error() {
    let outcome = Message::new("bad", &Unencodable);
    assert!(matches!(outcome, Err(BusError::Encoding(_))));
}

#[test]
fn clone_preserves_the_envelope() {
    let record: (u16, u64) = (3, 4);
    let msg = Message::new("tick", &record).unwrap();
    let copy = msg.clone();
    assert_eq!(copy.id, msg.id);
    assert_eq!(copy.len, msg.len);
    assert_eq!(copy.serialized_data(), msg.serialized_data());
}
