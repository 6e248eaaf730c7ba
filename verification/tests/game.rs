use std::io::Write;

use aprs::config::General;
use aprs::error::Error;
use aprs::game::{
    archipelago_member, ends_in_archipelago, read_multi_data, CollectMode, ItemClassification, NetworkVersion, PickledVersion, ReleaseMode,
    RemainingMode, SeedName, PROGRESSION, TRAP, USEFUL,
};
use aprs::value::Value;
use aprs::web::{get, resolve_user_id, user_id_from_parsed, HostTemplate, RoomId, UserId, UUID};

fn zlib(data: &[u8]) -> Vec<u8> {
    let mut encoder = flate2::write::ZlibEncoder::new(Vec::new(), flate2::Compression::default());
    encoder.write_all(data).unwrap();
    encoder.finish().unwrap()
}

#[test]
fn classification_flags() {
    let filler = ItemClassification(0);
    assert!(filler.is_filler());
    assert!(!filler.is_useful());
    let useful = ItemClassification(USEFUL);
    assert!(useful.is_useful());
    assert!(!useful.is_filler());
    let trap = ItemClassification(TRAP | PROGRESSION);
    assert!(trap.is_trap());
    assert!(!trap.is_useful());
    assert!(trap.contains(ItemClassification(PROGRESSION)));
    assert_eq!(trap.bits(), 0b101);
}

#[test]
fn is_progression_looks_at_the_useful_flag() {
    assert!(!ItemClassification(PROGRESSION).is_progression());
    assert!(ItemClassification(USEFUL).is_progression());
    assert!(ItemClassification::from_bits_retain(USEFUL | PROGRESSION).is_progression());
}

#[test]
fn pickled_version_becomes_network_version() {
    let v = NetworkVersion::from(PickledVersion { major: 0, minor: 5, patch: 1 });
    assert_eq!(v, NetworkVersion { major: 0, minor: 5, build: 1 });
}

#[test]
fn mode_defaults() {
    assert_eq!(ReleaseMode::default(), ReleaseMode::Auto);
    assert_eq!(CollectMode::default(), CollectMode::Auto);
    assert_eq!(RemainingMode::default(), RemainingMode::Goal);
    assert_eq!(SeedName("a".to_owned()), SeedName("a".to_owned()));
}

#[test]
fn random_ids_are_version_4() {
    let a = RoomId::new_random();
    let b = UUID::new_random();
    for u in [a.as_u128(), b.as_u128()] {
        assert_eq!((u >> 76) & 0xf, 4);
        assert_eq!((u >> 62) & 0x3, 2);
    }
    assert_ne!(RoomId::new_random(), RoomId::new_random());
}

#[test]
fn host_page_and_config() {
    assert_eq!(get(), HostTemplate {});
    let general = General::new("x.aprs.state".to_owned());
    assert_eq!(general.state_path, "x.aprs.state");
}

#[test]
fn reads_a_multiworld_file() {
    let mut data = vec![3u8];
    data.extend_from_slice(&zlib(&[0x80, 0x04, 0x4b, 0x2a, 0x2e]));
    let (v, _heap) = read_multi_data(&data).unwrap();
    assert!(matches!(v, Value::Number(n) if n.as_i64() == Some(42)));
}

#[test]
fn multiworld_file_errors() {
    assert!(matches!(read_multi_data(&[]), Err(Error::StreamExhausted)));
    let mut data = vec![4u8];
    data.extend_from_slice(&zlib(&[0x4e, 0x2e]));
    assert!(matches!(read_multi_data(&data), Err(Error::UnsupportedFormat(4))));
    assert!(matches!(read_multi_data(&[3, 1, 2, 3]), Err(Error::Decompression)));
    let mut data = vec![3u8];
    data.extend_from_slice(&zlib(&[0x2e]));
    assert!(matches!(read_multi_data(&data), Err(Error::EmptyStack)));
}

#[test]
fn uuid_text_round_trip() {
    let text = "67e55044-10b1-426f-9247-bb680e5fe0c8";
    let uuid = UUID::from_str(text).unwrap();
    assert_eq!(uuid.as_u128(), 0x67e55044_10b1_426f_9247_bb680e5fe0c8);
    assert_eq!(uuid.to_text(), text);
    assert_eq!(UUID::from_str("67E55044-10B1-426F-9247-BB680E5FE0C8").unwrap(), uuid);
    assert!(matches!(UUID::from_str("not a uuid"), Err(Error::InvalidUuid)));
    assert_eq!(UUID(1).to_text(), "00000000-0000-0000-0000-000000000001");
}

#[test]
fn user_id_from_cookie() {
    let text = "67e55044-10b1-426f-9247-bb680e5fe0c8";
    let (id, set) = resolve_user_id(Some(text));
    assert!(!set);
    assert_eq!(id, UserId::from_str(text).unwrap());
    assert_eq!(id.to_text(), text);
    let (id, set) = resolve_user_id(Some("garbage"));
    assert!(set);
    assert_eq!((id.0.as_u128() >> 76) & 0xf, 4);
    let (_, set) = resolve_user_id(None);
    assert!(set);
}

#[test]
fn user_id_from_a_parse() {
    let (id, set) = user_id_from_parsed(Some(42));
    assert_eq!(id.0.as_u128(), 42);
    assert!(!set);
    let (id, set) = user_id_from_parsed(None);
    assert!(set);
    assert_eq!((id.0.as_u128() >> 62) & 0x3, 2);
    assert_eq!(UUID::from_parsed(Some(7)).unwrap().as_u128(), 7);
    assert!(matches!(UUID::from_parsed(None), Err(Error::InvalidUuid)));
}

fn zip_of(members: &[(&str, &[u8])]) -> Vec<u8> {
    let mut writer = zip::ZipWriter::new(std::io::Cursor::new(Vec::new()));
    for (name, data) in members {
        writer.start_file(*name, zip::write::SimpleFileOptions::default()).unwrap();
        writer.write_all(data).unwrap();
    }
    writer.finish().unwrap().into_inner()
}

#[test]
fn multiworld_names() {
    assert!(ends_in_archipelago("AP_123.archipelago"));
    assert!(ends_in_archipelago(".archipelago"));
    assert!(!ends_in_archipelago("archipelago"));
    assert!(!ends_in_archipelago("AP_123.archipelago.bak"));
    assert!(!ends_in_archipelago("AP_123.ARCHIPELAGO"));
    assert!(!ends_in_archipelago(""));
}

#[test]
fn zip_member_is_the_first_multiworld() {
    let archive = zip_of(&[
        ("readme.txt", b"hello"),
        ("AP_1.archipelago", b"first"),
        ("AP_2.archipelago", b"second"),
    ]);
    assert_eq!(archipelago_member(&archive).unwrap(), b"first".to_vec());
    let none = zip_of(&[("readme.txt", b"hello"), ("spoiler.archipelago.txt", b"x")]);
    assert!(matches!(archipelago_member(&none), Err(Error::NoMultiworldMember)));
    assert!(matches!(archipelago_member(b"not a zip"), Err(Error::InvalidArchive)));
    assert!(matches!(archipelago_member(&[]), Err(Error::InvalidArchive)));
}

#[test]
fn zipped_multiworld_reads() {
    let mut data = vec![3u8];
    data.extend(zlib(&[0x80, 0x04, 0x4b, 0x2a, 0x2e]));
    let archive = zip_of(&[("AP_7.archipelago", &data)]);
    let member = archipelago_member(&archive).unwrap();
    let (v, _heap) = read_multi_data(&member).unwrap();
    match v {
        Value::Number(n) => assert_eq!(n.as_i64(), Some(42)),
        other => panic!("not a number: {other:?}"),
    }
}
