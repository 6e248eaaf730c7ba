//! The multiworld data a server serves: its slots, the names players connect with,
//! every slot's locations and the data package of each game.

use vstd::prelude::*;

use std::collections::BTreeMap;

use vstd::std_specs::iter::IteratorSpec;

use crate::checksum;
use crate::game::{MinimumVersions, NetworkVersion, SeedName, ServerOptions};
use crate::heap::Heap;
use crate::value::Value;

verus! {

broadcast use vstd::std_specs::btree::group_btree_axioms;

/// A slot as the network protocol describes it.
pub struct NetworkSlot {
    pub name: String,
    pub game: String,
    pub slot_type: i64,
    pub group_members: Vec<u32>,
}

/// What is at a location: the item, the slot it belongs to, and its flags.
#[derive(PartialEq, Eq, Structural, Clone, Copy, Debug)]
pub struct LocationInfo {
    pub item: i64,
    pub slot: u32,
    pub flags: u64,
}

/// The team and slot of a player.
#[derive(PartialEq, Eq, Structural, Clone, Copy, Debug)]
pub struct TeamAndSlot {
    pub team: u32,
    pub slot: u32,
}

/// The names and ids of a game's items and locations, and their groups.
pub struct GameData {
    pub item_name_groups: Vec<(String, Vec<String>)>,
    pub item_name_to_id: Vec<(String, i64)>,
    pub location_name_groups: Vec<(String, Vec<String>)>,
    pub location_name_to_id: Vec<(String, i64)>,
}

/// A game's data package with the checksum it was sent with.
pub struct HashedGameData {
    pub checksum: String,
    pub game_data: GameData,
}

impl HashedGameData {
    /// The checksum the package was sent with.
    pub fn checksum(&self) -> (r: &str)
        ensures
            r@ == self.checksum@,
    {
        self.checksum.as_str()
    }

    /// Whether the checksum is that of the package, whose JSON encoding (fields in
    /// alphabetical order) is `game_data_json`, regardless of the case of its digits.
    pub fn checksum_is_valid(&self, game_data_json: &[u8]) -> (r: bool)
        ensures
            r == checksum::ascii_case_eq(
                vstd::utf8::encode_utf8(self.checksum@),
                vstd::utf8::encode_utf8(checksum::hex_spec(checksum::sha1_of(game_data_json@))),
            ),
    {
        checksum::checksum_is_valid(self.checksum.as_str(), game_data_json)
    }
}

/// The multiworld data. Its pickled parts (each slot's data, and the entries that
/// no field names) are values whose containers live in `heap`.
pub struct MultiData {
    pub slot_info: BTreeMap<u32, NetworkSlot>,
    pub slot_data: BTreeMap<u32, Value>,
    pub connect_names: Vec<(String, TeamAndSlot)>,
    pub seed_name: SeedName,
    pub minimum_versions: MinimumVersions,
    pub server_options: ServerOptions,
    pub version: NetworkVersion,
    pub data_package: Vec<(String, HashedGameData)>,
    pub locations: BTreeMap<u32, BTreeMap<i64, LocationInfo>>,
    pub spheres: Vec<BTreeMap<u32, Vec<i64>>>,
    pub rest: Vec<(String, Value)>,
    pub heap: Heap,
}

/// The position of the first entry named `name`, or -1.
pub open spec fn name_index<T>(entries: Seq<(String, T)>, name: Seq<char>) -> int
    decreases entries.len(),
{
    if entries.len() == 0 {
        -1
    } else {
        let i = name_index(entries.drop_last(), name);
        if i >= 0 {
            i
        } else if entries.last().0@ == name {
            entries.len() - 1
        } else {
            -1
        }
    }
}

proof fn lemma_name_index_prefix<T>(entries: Seq<(String, T)>, name: Seq<char>, m: int)
    requires
        0 <= m <= entries.len(),
        name_index(entries.take(m), name) == -1,
        m < entries.len() ==> entries[m].0@ == name,
    ensures
        name_index(entries, name) == if m < entries.len() { m } else { -1 },
    decreases entries.len(),
{
    if m == entries.len() {
        assert(entries.take(m) =~= entries);
    } else if m + 1 == entries.len() {
        assert(entries.drop_last() =~= entries.take(m));
    } else {
        assert(entries.drop_last().take(m) =~= entries.take(m));
        lemma_name_index_prefix(entries.drop_last(), name, m);
    }
}

proof fn lemma_name_index_absent<T>(entries: Seq<(String, T)>, name: Seq<char>, m: int)
    requires
        0 <= m < entries.len(),
        name_index(entries.take(m), name) == -1,
        entries[m].0@ != name,
    ensures
        name_index(entries.take(m + 1), name) == -1,
{
    assert(entries.take(m + 1).drop_last() =~= entries.take(m));
}

/// The position of the first entry named `name`.
fn find_name<T>(entries: &Vec<(String, T)>, name: &str) -> (r: Option<usize>)
    ensures
        match r {
            Some(i) => i == name_index(entries@, name@) && i < entries@.len(),
            None => name_index(entries@, name@) == -1,
        },
{
    let wanted = crate::value::Str::from_text(name);
    let mut i: usize = 0;
    proof {
        assert(entries@.take(0) =~= Seq::<(String, T)>::empty());
    }
    while i < entries.len()
        invariant
            0 <= i <= entries@.len(),
            wanted@ == name@,
            name_index(entries@.take(i as int), name@) == -1,
        decreases entries.len() - i,
    {
        let here = crate::value::Str::from_text(entries[i].0.as_str());
        if here.equals(&wanted) {
            proof {
                lemma_name_index_prefix(entries@, name@, i as int);
            }
            return Some(i);
        }
        proof {
            lemma_name_index_absent(entries@, name@, i as int);
        }
        i += 1;
    }
    proof {
        lemma_name_index_prefix(entries@, name@, entries@.len() as int);
    }
    None
}

impl MultiData {
    /// The slot of the player who connects as `name`.
    pub fn get_slot_id(&self, name: &str) -> (r: Option<u32>)
        ensures
            match r {
                Some(slot) => name_index(self.connect_names@, name@) >= 0 && slot == self.connect_names@[name_index(self.connect_names@, name@)].1.slot,
                None => name_index(self.connect_names@, name@) == -1,
            },
    {
        match find_name(&self.connect_names, name) {
            Some(i) => Some(self.connect_names[i].1.slot),
            None => None,
        }
    }

    /// The description of slot `slot`.
    pub fn get_slot_info(&self, slot: u32) -> (r: Option<&NetworkSlot>)
        ensures
            match r {
                Some(s) => self.slot_info@.contains_key(slot) && *s == self.slot_info@[slot],
                None => !self.slot_info@.contains_key(slot),
            },
    {
        self.slot_info.get(&slot)
    }

    /// The locations of slot `slot`.
    pub fn get_locations(&self, slot: u32) -> (r: Option<&BTreeMap<i64, LocationInfo>>)
        ensures
            match r {
                Some(l) => self.locations@.contains_key(slot) && *l == self.locations@[slot],
                None => !self.locations@.contains_key(slot),
            },
    {
        self.locations.get(&slot)
    }

    /// The data package of game `game`.
    pub fn get_game_data(&self, game: &str) -> (r: Option<&GameData>)
        ensures
            match r {
                Some(g) => name_index(self.data_package@, game@) >= 0 && *g == self.data_package@[name_index(self.data_package@, game@)].1.game_data,
                None => name_index(self.data_package@, game@) == -1,
            },
    {
        match find_name(&self.data_package, game) {
            Some(i) => Some(&self.data_package[i].1.game_data),
            None => None,
        }
    }

    /// What is at location `location_id` of slot `slot`.
    pub fn location_info(&self, slot: u32, location_id: i64) -> (r: Option<&LocationInfo>)
        ensures
            match r {
                Some(info) => self.locations@.contains_key(slot) && self.locations@[slot]@.contains_key(location_id) && *info == self.locations@[slot]@[location_id],
                None => !(self.locations@.contains_key(slot) && self.locations@[slot]@.contains_key(location_id)),
            },
    {
        match self.locations.get(&slot) {
            Some(locations) => locations.get(&location_id),
            None => None,
        }
    }
}

/// Keys in increasing order are each smaller than the next ones.
proof fn lemma_increasing_keys(keys: Seq<&u32>)
    requires
        vstd::std_specs::btree::increasing_seq(keys),
    ensures
        forall|i: int, j: int| 0 <= i < j < keys.len() ==> *keys[i] < *keys[j],
{
    assert forall|i: int, j: int| 0 <= i < j < keys.len() implies *keys[i] < *keys[j] by {
        assert(vstd::std_specs::cmp::OrdSpec::cmp_spec(&keys[i], &keys[j]) is Less);
    }
}

/// The keys of a map with integer keys, in increasing order.
fn sorted_keys<V>(m: &BTreeMap<u32, V>) -> (r: Vec<u32>)
    ensures
        r@.to_set() == m@.dom(),
        r@.no_duplicates(),
        forall|i: int, j: int| 0 <= i < j < r@.len() ==> r@[i] < r@[j],
{
    let mut r: Vec<u32> = Vec::new();
    let keys = m.keys();
    let ghost rem = keys.remaining();
    proof {
        assert(keys == vstd::std_specs::btree::spec_keys_iter(m));
    }
    for k in it: keys
        invariant
            rem == vstd::std_specs::btree::spec_keys_iter(m).remaining(),
            it.seq() == rem,
            r@ == it.seq().take(it.index()).unref(),
            it.index() == it.seq().len() ==> r@ == rem.unref(),
    {
        proof {
            assert(it.seq().take(it.index() + 1) =~= it.seq().take(it.index()).push(it.seq()[it.index()]));
        }
        r.push(*k);
        proof {
            assert(r@ =~= it.seq().take(it.index() + 1).unref());
            assert(it.seq().take(it.seq().len() as int) =~= it.seq());
        }
    }
    proof {
        lemma_increasing_keys(rem);
    }
    r
}

/// Location ids in increasing order are each smaller than the next ones.
proof fn lemma_increasing_location_keys(keys: Seq<&i64>)
    requires
        vstd::std_specs::btree::increasing_seq(keys),
    ensures
        forall|i: int, j: int| 0 <= i < j < keys.len() ==> *keys[i] < *keys[j],
{
    assert forall|i: int, j: int| 0 <= i < j < keys.len() implies *keys[i] < *keys[j] by {
        assert(vstd::std_specs::cmp::OrdSpec::cmp_spec(&keys[i], &keys[j]) is Less);
    }
}

/// The location ids of a map, in increasing order.
fn sorted_location_keys<V>(m: &BTreeMap<i64, V>) -> (r: Vec<i64>)
    ensures
        r@.to_set() == m@.dom(),
        r@.no_duplicates(),
        forall|i: int, j: int| 0 <= i < j < r@.len() ==> r@[i] < r@[j],
{
    let mut r: Vec<i64> = Vec::new();
    let keys = m.keys();
    let ghost rem = keys.remaining();
    proof {
        assert(keys == vstd::std_specs::btree::spec_keys_iter(m));
    }
    for k in it: keys
        invariant
            rem == vstd::std_specs::btree::spec_keys_iter(m).remaining(),
            it.seq() == rem,
            r@ == it.seq().take(it.index()).unref(),
            it.index() == it.seq().len() ==> r@ == rem.unref(),
    {
        proof {
            assert(it.seq().take(it.index() + 1) =~= it.seq().take(it.index()).push(it.seq()[it.index()]));
        }
        r.push(*k);
        proof {
            assert(r@ =~= it.seq().take(it.index() + 1).unref());
            assert(it.seq().take(it.seq().len() as int) =~= it.seq());
        }
    }
    proof {
        lemma_increasing_location_keys(rem);
    }
    r
}

impl MultiData {
    /// The ids of the slots, in increasing order.
    pub fn slot_ids(&self) -> (r: Vec<u32>)
        ensures
            r@.to_set() == self.slot_info@.dom(),
            r@.no_duplicates(),
            forall|i: int, j: int| 0 <= i < j < r@.len() ==> r@[i] < r@[j],
    {
        sorted_keys(&self.slot_info)
    }

    /// The ids of the locations of slot `slot`, in increasing order; none for a slot
    /// that has no locations.
    pub fn location_ids(&self, slot: u32) -> (r: Vec<i64>)
        ensures
            self.locations@.contains_key(slot) ==> r@.to_set() == self.locations@[slot]@.dom(),
            !self.locations@.contains_key(slot) ==> r@.len() == 0,
            r@.no_duplicates(),
            forall|i: int, j: int| 0 <= i < j < r@.len() ==> r@[i] < r@[j],
    {
        match self.get_locations(slot) {
            Some(locations) => sorted_location_keys(locations),
            None => Vec::new(),
        }
    }
}

} // verus!
