use std::collections::BTreeMap;

use sha1::Digest;

use aprs::game::{
    CollectMode, MinimumVersions, NetworkVersion, ReleaseMode, RemainingMode, SeedName,
    ServerOptions,
};
use aprs::heap::Heap;
use aprs::value::Value;
use aprs::multidata::{
    GameData, HashedGameData, LocationInfo, MultiData, NetworkSlot, TeamAndSlot,
};

fn slot(name: &str, game: &str) -> NetworkSlot {
    NetworkSlot {
        name: name.to_string(),
        game: game.to_string(),
        slot_type: 1,
        group_members: Vec::new(),
    }
}

fn game_data(item: &str, id: i64) -> GameData {
    GameData {
        item_name_groups: Vec::new(),
        item_name_to_id: vec![(item.to_string(), id)],
        location_name_groups: Vec::new(),
        location_name_to_id: Vec::new(),
    }
}

fn sample() -> MultiData {
    let mut slot_info = BTreeMap::new();
    slot_info.insert(3, slot("Carol", "Clique"));
    slot_info.insert(1, slot("Alice", "A Link to the Past"));
    slot_info.insert(2, slot("Bob", "Clique"));

    let mut first = BTreeMap::new();
    first.insert(20, LocationInfo { item: 7, slot: 2, flags: 1 });
    first.insert(-5, LocationInfo { item: 8, slot: 1, flags: 0 });
    first.insert(10, LocationInfo { item: 9, slot: 3, flags: 4 });
    let mut locations = BTreeMap::new();
    locations.insert(1, first);
    locations.insert(2, BTreeMap::new());

    let mut heap = Heap::new();
    let mut slot_data = BTreeMap::new();
    slot_data.insert(1, Value::empty_dict(&mut heap));
    let mut sphere = BTreeMap::new();
    sphere.insert(1, vec![-5, 10]);

    MultiData {
        slot_info,
        slot_data,
        connect_names: vec![
            ("Alice".to_string(), TeamAndSlot { team: 0, slot: 1 }),
            ("Bob".to_string(), TeamAndSlot { team: 0, slot: 2 }),
            ("Carol".to_string(), TeamAndSlot { team: 1, slot: 3 }),
        ],
        seed_name: SeedName("12345".to_string()),
        minimum_versions: MinimumVersions { server: NetworkVersion { major: 0, minor: 4, build: 0 }, clients: BTreeMap::new() },
        server_options: ServerOptions::default(),
        version: NetworkVersion { major: 0, minor: 5, build: 1 },
        data_package: vec![
            (
                "Clique".to_string(),
                HashedGameData { checksum: "abc".to_string(), game_data: game_data("Feeling of Satisfaction", 69696969) },
            ),
            (
                "A Link to the Past".to_string(),
                HashedGameData { checksum: "def".to_string(), game_data: game_data("Bow", 11) },
            ),
        ],
        locations,
        spheres: vec![sphere],
        rest: vec![("er_hint_data".to_string(), Value::none())],
        heap,
    }
}

#[test]
fn server_options_default() {
    let options = ServerOptions::default();
    assert!(options.client_password.is_none());
    assert!(options.admin_password.is_none());
    assert_eq!(options.release_mode, ReleaseMode::Auto);
    assert_eq!(options.remaining_mode, RemainingMode::Goal);
    assert_eq!(options.collect_mode, CollectMode::Auto);
}

#[test]
fn empty_containers_as_values() {
    let mut heap = Heap::new();
    let dict = Value::empty_dict(&mut heap);
    let list = Value::empty_list(&mut heap);
    assert_eq!(dict.as_dict().unwrap().len(&heap), 0);
    assert_eq!(list.as_list().unwrap().len(&heap), 0);
    assert_eq!(dict.type_label(), "Dict");
    assert_eq!(list.type_label(), "List");
}

#[test]
fn slot_id_by_connect_name() {
    let data = sample();
    assert_eq!(data.get_slot_id("Alice"), Some(1));
    assert_eq!(data.get_slot_id("Carol"), Some(3));
    assert_eq!(data.get_slot_id("alice"), None);
    assert_eq!(data.get_slot_id(""), None);
}

#[test]
fn slot_info_by_id() {
    let data = sample();
    assert_eq!(data.get_slot_info(2).map(|s| s.name.as_str()), Some("Bob"));
    assert_eq!(data.get_slot_info(3).map(|s| s.game.as_str()), Some("Clique"));
    assert!(data.get_slot_info(0).is_none());
}

#[test]
fn slot_ids_in_increasing_order() {
    let data = sample();
    assert_eq!(data.slot_ids(), vec![1, 2, 3]);
}

#[test]
fn location_ids_in_increasing_order() {
    let data = sample();
    assert_eq!(data.location_ids(1), vec![-5, 10, 20]);
    assert_eq!(data.location_ids(2), Vec::<i64>::new());
    assert_eq!(data.location_ids(9), Vec::<i64>::new());
}

#[test]
fn locations_by_slot() {
    let data = sample();
    assert_eq!(data.get_locations(1).map(|l| l.len()), Some(3));
    assert_eq!(data.get_locations(2).map(|l| l.len()), Some(0));
    assert!(data.get_locations(3).is_none());
}

#[test]
fn location_info_lookup() {
    let data = sample();
    assert_eq!(data.location_info(1, 10), Some(&LocationInfo { item: 9, slot: 3, flags: 4 }));
    assert_eq!(data.location_info(1, -5), Some(&LocationInfo { item: 8, slot: 1, flags: 0 }));
    assert_eq!(data.location_info(1, 11), None);
    assert_eq!(data.location_info(2, 10), None);
    assert_eq!(data.location_info(7, 10), None);
}

#[test]
fn game_data_by_name() {
    let data = sample();
    let clique = data.get_game_data("Clique").unwrap();
    assert_eq!(clique.item_name_to_id[0].1, 69696969);
    let lttp = data.get_game_data("A Link to the Past").unwrap();
    assert_eq!(lttp.item_name_to_id[0].0, "Bow");
    assert!(data.get_game_data("Factorio").is_none());
}

#[test]
fn hashed_game_data_checksum() {
    let data = sample();
    assert_eq!(data.data_package[1].1.checksum(), "def");
}

#[test]
fn hashed_game_data_checksum_validity() {
    let json = br#"{"item_name_groups":{},"item_name_to_id":{},"location_name_groups":{},"location_name_to_id":{}}"#;
    let digest = hex::encode(sha1::Sha1::digest(json));
    let valid = HashedGameData { checksum: digest.to_uppercase(), game_data: game_data("x", 1) };
    assert!(valid.checksum_is_valid(json));
    let invalid = HashedGameData { checksum: "00".to_string(), game_data: game_data("x", 1) };
    assert!(!invalid.checksum_is_valid(json));
}
