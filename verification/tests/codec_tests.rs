use colabie::codec::{
    deserialize_char, deserialize_string, deserialize_u16, deserialize_u32, deserialize_u8,
    deserialize_with_length_prefix, serialize_char, serialize_str, serialize_u16, serialize_u32,
    serialize_u8, serialize_with_length_prefix,
};
use colabie::error::SerdeError;
use colabie::identity::ShortIdStr;

#[test]
fn char_serde() {
    let original = '\u{1F4AF}';
    let mut serialized = Vec::new();
    serialize_char(original, &mut serialized);
    let (deserialized, bytes_read) = deserialize_char(&serialized).unwrap();

    assert_eq!(deserialized, original);
    assert_eq!(bytes_read, serialized.len());
}

#[test]
fn char_serde_check() {
    let data = 0x110000_u32.to_be_bytes();
    assert!(matches!(
        deserialize_char(&data),
        Err(SerdeError::ParsingError { ty_name: "char", .. })
    ));
}

#[test]
fn vec_serde() {
    let original = b"The quick brown fox jumps over the lazy dog.".to_vec();
    let mut serialized = Vec::new();
    serialize_with_length_prefix(&original, &mut serialized);

    let (deserialized, bytes_read) = deserialize_with_length_prefix(&serialized).unwrap();

    assert_eq!(deserialized, original);
    assert_eq!(bytes_read, serialized.len());
}

#[test]
fn box_serde() {
    let original = Box::new(42u32);
    let mut serialized = Vec::new();
    serialize_u32(*original, &mut serialized);

    let (raw, bytes_read) = deserialize_u32(&serialized).unwrap();
    let deserialized = Box::new(raw);

    assert_eq!(*deserialized, *original);
    assert_eq!(bytes_read, serialized.len());
}

#[test]
fn new_check() {
    assert!(matches!(ShortIdStr::new("_some123_valid_username..."), Ok(..)));

    assert!(matches!(
        ShortIdStr::new("_some-invalid*username"),
        Err(SerdeError::ParsingError { .. })
    ));
}

#[derive(Debug)]
struct Info {
    a: ShortIdStr,
    b: String,
    c: Vec<u8>,
}

impl PartialEq for Info {
    fn eq(&self, other: &Self) -> bool {
        self.a == other.a && self.b == other.b && self.c == other.c
    }
}

fn serialize_info(info: &Info) -> Vec<u8> {
    let mut out = Vec::new();
    info.a.serialize(&mut out);
    serialize_str(&info.b, &mut out);
    serialize_with_length_prefix(&info.c, &mut out);
    out
}

fn deserialize_info(data: &[u8]) -> (Info, usize) {
    let (a, n1) = ShortIdStr::deserialize(data).unwrap();
    let (b, n2) = deserialize_string(&data[n1..]).unwrap();
    let (c, n3) = deserialize_with_length_prefix(&data[n1 + n2..]).unwrap();
    (Info { a, b, c }, n1 + n2 + n3)
}

#[test]
fn derive_macro() {
    let original = Info {
        a: ShortIdStr::new("some_valid_username").unwrap(),
        b: "The quick brown fox jumps over the lazy dog.".to_string(),
        c: vec![1, 2, 3, 4, 5, 6, 7, 8, 9, 10],
    };

    let serialized = serialize_info(&original);
    let (deserialized, bytes_read) = deserialize_info(&serialized);

    assert_eq!(deserialized, original);
    assert_eq!(bytes_read, serialized.len());
}

#[test]
fn integers_on_the_wire_are_big_endian() {
    let mut out = Vec::new();
    serialize_u8(0xAB, &mut out);
    assert_eq!(out, vec![0xAB]);
    assert_eq!(deserialize_u8(&out).unwrap(), (0xAB, 1));

    let mut out = Vec::new();
    serialize_u16(0x1234, &mut out);
    assert_eq!(out, vec![0x12, 0x34]);
    assert_eq!(deserialize_u16(&out).unwrap(), (0x1234, 2));

    let mut out = Vec::new();
    serialize_u32(0xDEADBEEF, &mut out);
    assert_eq!(out, vec![0xDE, 0xAD, 0xBE, 0xEF]);
    assert_eq!(deserialize_u32(&out).unwrap(), (0xDEADBEEF, 4));
}

#[test]
fn truncated_input_reads_as_not_enough_data() {
    assert!(matches!(deserialize_u32(&[1, 2, 3]), Err(SerdeError::NotEnoughData)));
    assert!(matches!(deserialize_u16(&[9]), Err(SerdeError::NotEnoughData)));
    // A length prefix promising more bytes than follow.
    let data = [0u8, 0, 0, 10, 1, 2];
    assert!(matches!(
        deserialize_with_length_prefix(&data),
        Err(SerdeError::NotEnoughData)
    ));
}

#[test]
fn string_round_trips_through_utf8() {
    let original = "na\u{EF}ve \u{1F980} text";
    let mut serialized = Vec::new();
    serialize_str(original, &mut serialized);
    let (deserialized, bytes_read) = deserialize_string(&serialized).unwrap();
    assert_eq!(deserialized, original);
    assert_eq!(bytes_read, serialized.len());
}

#[test]
fn invalid_utf8_is_rejected() {
    // Length prefix of 2, then an invalid UTF-8 byte pair.
    let data = [0u8, 0, 0, 2, 0xC3, 0x28];
    assert!(matches!(deserialize_string(&data), Err(SerdeError::InvalidUTF8)));
}

#[test]
fn username_wire_is_length_then_ascii_bytes() {
    let u = ShortIdStr::new("abc").unwrap();
    let mut out = Vec::new();
    u.serialize(&mut out);
    assert_eq!(out, vec![3, 97, 98, 99]);

    let (back, n) = ShortIdStr::deserialize(&out).unwrap();
    assert_eq!(back, u);
    assert_eq!(n, out.len());
}

#[test]
fn username_wire_rejects_invalid_bytes() {
    // Length 3, but a byte outside the allowed set.
    let data = [3u8, 97, 45, 99];
    assert!(matches!(
        ShortIdStr::deserialize(&data),
        Err(SerdeError::ParsingError { .. })
    ));
}

use colabie::messages::{
    C2RRegister, C2SAck, C2SAuthRes, C2SConnectToUserResult, ConnectToUser, R2CRegister,
    S2CAuthReq, S2CAuthResult, S2CConnectToUserResult, AUTH_SIZE,
};

#[test]
fn enum_wire_tags_are_fixed() {
    assert_eq!(S2CAuthResult::Success.serialize_buffered(), vec![0, 0, 0, 0]);
    assert_eq!(S2CAuthResult::Failure.serialize_buffered(), vec![0, 0, 0, 1]);

    assert_eq!(S2CConnectToUserResult::UserBusy.serialize_buffered(), vec![0, 0, 0, 0]);
    assert_eq!(S2CConnectToUserResult::Reject.serialize_buffered(), vec![0, 0, 0, 1]);
    assert_eq!(S2CConnectToUserResult::Accept.serialize_buffered(), vec![0, 0, 0, 2]);
    assert_eq!(S2CConnectToUserResult::UserOffline.serialize_buffered(), vec![0, 0, 0, 3]);

    assert_eq!(C2SConnectToUserResult::Reject.serialize_buffered(), vec![0, 0, 0, 0]);
    assert_eq!(C2SConnectToUserResult::Accept.serialize_buffered(), vec![0, 0, 0, 1]);
}

#[test]
fn enum_unknown_tag_is_rejected() {
    let data = [0u8, 0, 0, 4];
    assert!(matches!(
        S2CConnectToUserResult::deserialize(&data),
        Err(SerdeError::ParsingError { .. })
    ));
    let data = [0u8, 0, 0, 2];
    assert!(matches!(
        C2SConnectToUserResult::deserialize(&data),
        Err(SerdeError::ParsingError { .. })
    ));
    let data = [0u8, 0, 0, 9];
    assert!(matches!(
        S2CAuthResult::deserialize(&data),
        Err(SerdeError::ParsingError { .. })
    ));
}

#[test]
fn enum_round_trips() {
    let (m, n) =
        S2CConnectToUserResult::deserialize(&S2CConnectToUserResult::Accept.serialize_buffered())
            .unwrap();
    assert_eq!(m, S2CConnectToUserResult::Accept);
    assert_eq!(n, 4);
    let (m, n) =
        C2SConnectToUserResult::deserialize(&C2SConnectToUserResult::Reject.serialize_buffered())
            .unwrap();
    assert_eq!(m, C2SConnectToUserResult::Reject);
    assert_eq!(n, 4);
}

#[test]
fn register_messages_round_trip() {
    let original = C2RRegister {
        username: ShortIdStr::new("some_valid_username").unwrap(),
        pubkey: vec![1, 2, 3, 13, 42],
    };
    let wire = original.serialize_buffered();
    let (back, n) = C2RRegister::deserialize(&wire).unwrap();
    assert_eq!(back.username, original.username);
    assert_eq!(back.pubkey, original.pubkey);
    assert_eq!(n, wire.len());

    let original = R2CRegister { commit_id: vec![9u8; 20] };
    let wire = original.serialize_buffered();
    let (back, n) = R2CRegister::deserialize(&wire).unwrap();
    assert_eq!(back.commit_id, original.commit_id);
    assert_eq!(n, wire.len());
}

#[test]
fn session_messages_round_trip() {
    let original = C2SAck { username: ShortIdStr::new("duskyelf").unwrap() };
    let wire = original.serialize_buffered();
    let (back, n) = C2SAck::deserialize(&wire).unwrap();
    assert_eq!(back.username, original.username);
    assert_eq!(n, wire.len());

    let original = ConnectToUser { username: ShortIdStr::new("peer.name_1").unwrap() };
    let wire = original.serialize_buffered();
    let (back, n) = ConnectToUser::deserialize(&wire).unwrap();
    assert_eq!(back.username, original.username);
    assert_eq!(n, wire.len());
}

#[test]
fn auth_messages_round_trip_and_check_their_size() {
    let original = S2CAuthReq { random: (0..AUTH_SIZE).map(|i| (i % 251) as u8).collect() };
    let wire = original.serialize_buffered();
    let (back, n) = S2CAuthReq::deserialize(&wire).unwrap();
    assert_eq!(back.random, original.random);
    assert_eq!(n, wire.len());

    let original = C2SAuthRes { signed_random: vec![5u8; AUTH_SIZE] };
    let wire = original.serialize_buffered();
    let (back, n) = C2SAuthRes::deserialize(&wire).unwrap();
    assert_eq!(back.signed_random, original.signed_random);
    assert_eq!(n, wire.len());

    // A size prefix naming anything but the fixed size is malformed.
    let mut bad = vec![0u8, 16];
    bad.extend(std::iter::repeat(0u8).take(16));
    assert!(matches!(S2CAuthReq::deserialize(&bad), Err(SerdeError::ParsingError { .. })));
}

#[test]
fn username_length_bounds_are_enforced() {
    assert!(ShortIdStr::new("ab").is_err());
    assert!(ShortIdStr::new("abc").is_ok());
    let longest: String = std::iter::repeat('a').take(255).collect();
    assert!(ShortIdStr::new(&longest).is_ok());
    let too_long: String = std::iter::repeat('a').take(256).collect();
    assert!(ShortIdStr::new(&too_long).is_err());
    assert!(ShortIdStr::new("Upper_case").is_err());
    assert!(ShortIdStr::new("with-dash").is_err());
    assert!(ShortIdStr::new("with*star").is_err());
}
