//! The game data of a multiworld: item classifications, versions and the server's
//! modes, and decoding a multiworld file into its pickled data.

use vstd::prelude::*;

use std::collections::BTreeMap;

use crate::error::Error;
use crate::multidata::MultiData;
use crate::heap::{Heap, HeapModel};
use crate::machine::unpickle_spec;
use crate::unpickler::unpickle;
use crate::value::{Value, ValueModel};

verus! {

/// The name of a seed.
#[derive(Debug, Clone, PartialEq, Eq, PartialOrd, Ord, Hash)]
pub struct SeedName(pub String);

/// The flags that classify an item: progression, useful, trap; none is filler.
#[derive(PartialEq, Eq, Structural, Clone, Copy, Debug)]
pub struct ItemClassification(pub u32);

/// The flag of progression items.
pub const PROGRESSION: u32 = 0b001;

/// The flag of useful items.
pub const USEFUL: u32 = 0b010;

/// The flag of traps.
pub const TRAP: u32 = 0b100;

impl ItemClassification {
    /// The classification with the flags `bits`.
    pub fn from_bits_retain(bits: u32) -> (r: ItemClassification)
        ensures
            r.0 == bits,
    {
        ItemClassification(bits)
    }

    /// The flags as bits.
    pub fn bits(&self) -> (r: u32)
        ensures
            r == self.0,
    {
        self.0
    }

    /// Whether no flag is set.
    pub fn is_empty(&self) -> (r: bool)
        ensures
            r == (self.0 == 0),
    {
        self.0 == 0
    }

    /// Whether every flag of `other` is set.
    pub fn contains(&self, other: ItemClassification) -> (r: bool)
        ensures
            r == (self.0 & other.0 == other.0),
    {
        self.0 & other.0 == other.0
    }

    /// A filler item has no flag.
    pub fn is_filler(&self) -> (r: bool)
        ensures
            r == (self.0 == 0),
    {
        self.is_empty()
    }

    /// Whether the item counts as progression. This tests the useful flag: an item
    /// flagged progression alone does not count.
    pub fn is_progression(&self) -> (r: bool)
        ensures
            r == (self.0 & USEFUL == USEFUL),
    {
        self.contains(ItemClassification(USEFUL))
    }

    /// Whether the useful flag is set.
    pub fn is_useful(&self) -> (r: bool)
        ensures
            r == (self.0 & USEFUL == USEFUL),
    {
        self.contains(ItemClassification(USEFUL))
    }

    /// Whether the trap flag is set.
    pub fn is_trap(&self) -> (r: bool)
        ensures
            r == (self.0 & TRAP == TRAP),
    {
        self.contains(ItemClassification(TRAP))
    }
}

/// A version as the pickled data holds it.
#[derive(PartialEq, Eq, Structural, Clone, Copy, Debug)]
pub struct PickledVersion {
    pub major: u32,
    pub minor: u32,
    /// This field only exists in the pickled data.
    pub patch: u32,
}

/// A version as the network protocol sends it.
#[derive(PartialEq, Eq, Structural, Clone, Copy, Debug)]
pub struct NetworkVersion {
    pub major: u32,
    pub minor: u32,
    pub build: u32,
}

impl From<PickledVersion> for NetworkVersion {
    fn from(val: PickledVersion) -> (r: NetworkVersion) {
        NetworkVersion { major: val.major, minor: val.minor, build: val.patch }
    }
}

impl vstd::std_specs::convert::FromSpecImpl<PickledVersion> for NetworkVersion {
    open spec fn obeys_from_spec() -> bool {
        true
    }

    open spec fn from_spec(val: PickledVersion) -> NetworkVersion {
        NetworkVersion { major: val.major, minor: val.minor, build: val.patch }
    }
}

/// When a player may release their remaining items.
#[derive(PartialEq, Eq, Structural, Clone, Copy, Debug)]
pub enum ReleaseMode {
    Disabled,
    Enabled,
    Auto,
    AutoEnabled,
    Goal,
}

impl Default for ReleaseMode {
    fn default() -> (r: ReleaseMode)
        ensures
            r == ReleaseMode::Auto,
    {
        ReleaseMode::Auto
    }
}

/// When a player may collect their remaining items.
#[derive(PartialEq, Eq, Structural, Clone, Copy, Debug)]
pub enum CollectMode {
    Disabled,
    Enabled,
    Auto,
    AutoEnabled,
    Goal,
}

impl Default for CollectMode {
    fn default() -> (r: CollectMode)
        ensures
            r == CollectMode::Auto,
    {
        CollectMode::Auto
    }
}

/// When a player may ask for their remaining items.
#[derive(PartialEq, Eq, Structural, Clone, Copy, Debug)]
pub enum RemainingMode {
    Disabled,
    Enabled,
    Goal,
}

impl Default for RemainingMode {
    fn default() -> (r: RemainingMode)
        ensures
            r == RemainingMode::Goal,
    {
        RemainingMode::Goal
    }
}

/// The options a multiworld's server runs with.
pub struct ServerOptions {
    /// The password players connect with, if any.
    pub client_password: Option<String>,
    /// The password of the server's administrator, if any.
    pub admin_password: Option<String>,
    pub release_mode: ReleaseMode,
    pub remaining_mode: RemainingMode,
    pub collect_mode: CollectMode,
}

impl Default for ServerOptions {
    fn default() -> (r: ServerOptions)
        ensures
            r.client_password is None,
            r.admin_password is None,
            r.release_mode == ReleaseMode::Auto,
            r.remaining_mode == RemainingMode::Goal,
            r.collect_mode == CollectMode::Auto,
    {
        ServerOptions {
            client_password: None,
            admin_password: None,
            release_mode: ReleaseMode::default(),
            remaining_mode: RemainingMode::default(),
            collect_mode: CollectMode::default(),
        }
    }
}

/// The oldest versions the server, and the client of each slot, may have.
pub struct MinimumVersions {
    pub server: NetworkVersion,
    pub clients: BTreeMap<u32, NetworkVersion>,
}

/// A loaded multiworld.
pub struct Game {
    pub multi_data: MultiData,
}

/// The format version of multiworld files that this reader understands.
pub const FORMAT_VERSION: u8 = 3;

/// What inflating the zlib stream `data` gives: its bytes, or `None` where the
/// stream is not a valid one.
pub uninterp spec fn zlib_inflated(data: Seq<u8>) -> Option<Seq<u8>>;

/// `flate2::read::ZlibDecoder`, read to the end: the bytes that the zlib stream
/// `data` holds, or `None` where decoding fails. What a stream decodes to is left
/// to the name `zlib_inflated`.
#[verifier::external_body]
fn zlib_inflate(data: &[u8]) -> (r: Option<Vec<u8>>)
    ensures
        match r {
            Some(v) => zlib_inflated(data@) == Some(v@),
            None => zlib_inflated(data@) is None,
        },
{
    let mut out: Vec<u8> = Vec::new();
    match std::io::Read::read_to_end(&mut flate2::read::ZlibDecoder::new(data), &mut out) {
        Ok(_) => Some(out),
        Err(_) => None,
    }
}

/// What reading a multiworld file gives, from the inflated payload on: its
/// unpickled data.
pub open spec fn multi_data_spec(
    format_version: u8,
    payload: Option<Seq<u8>>,
) -> Result<(ValueModel, HeapModel), crate::error::ErrorModel> {
    if format_version != FORMAT_VERSION {
        Err(crate::error::ErrorModel::UnsupportedFormat(format_version))
    } else {
        match payload {
            None => Err(crate::error::ErrorModel::Decompression),
            Some(bytes) => match unpickle_spec(bytes) {
                Ok(m) => Ok((m.result.unwrap(), m.heap)),
                Err(e) => Err(e),
            },
        }
    }
}

/// Reads the pickled data of a multiworld file, once its payload is inflated: the
/// format version must be the one this reader knows.
pub fn decode_payload(format_version: u8, payload: Option<Vec<u8>>) -> (r: Result<(Value, Heap), Error>)
    ensures
        match multi_data_spec(
            format_version,
            match payload {
                Some(p) => Some(p@),
                None => None,
            },
        ) {
            Ok((v, h)) => r matches Ok((x, hx)) && x@ == v && hx@ == h,
            Err(e) => r matches Err(x) && x@ == e,
        },
        r matches Ok((v, h)) ==> h@.wf() && crate::heap::valid(h@, v@),
{
    if format_version != FORMAT_VERSION {
        return Err(Error::UnsupportedFormat(format_version));
    }
    match payload {
        None => Err(Error::Decompression),
        Some(bytes) => unpickle(bytes.as_slice()),
    }
}

/// Reads a multiworld file: a format version byte, then a zlib stream that holds
/// the pickled data.
pub fn read_multi_data(data: &[u8]) -> (r: Result<(Value, Heap), Error>)
    ensures
        data@.len() == 0 ==> (r matches Err(x) && x@ == crate::error::ErrorModel::StreamExhausted),
        data@.len() > 0 ==> match multi_data_spec(data@[0], zlib_inflated(data@.skip(1))) {
            Ok((v, h)) => r matches Ok((x, hx)) && x@ == v && hx@ == h,
            Err(e) => r matches Err(x) && x@ == e,
        },
        r matches Ok((v, h)) ==> h@.wf() && crate::heap::valid(h@, v@),
{
    if data.len() == 0 {
        return Err(Error::StreamExhausted);
    }
    let format_version = data[0];
    if format_version != FORMAT_VERSION {
        return Err(Error::UnsupportedFormat(format_version));
    }
    let (_, rest) = data.split_at(1);
    proof {
        assert(rest@ =~= data@.skip(1));
    }
    let payload = zlib_inflate(rest);
    decode_payload(format_version, payload)
}

/// The names of the members of the zip archive `archive`, in the order of its
/// central directory, or `None` where the bytes are not a zip archive.
pub uninterp spec fn zip_names(archive: Seq<u8>) -> Option<Seq<Seq<char>>>;

/// The bytes of member `name` of the zip archive `archive`, decompressed, or `None`
/// where the archive has no such member or it cannot be read.
pub uninterp spec fn zip_member(archive: Seq<u8>, name: Seq<char>) -> Option<Seq<u8>>;

/// `zip::ZipArchive::new` over the bytes, then `file_names`: the names of the
/// archive's members in the order of its central directory, or `None` where the
/// archive cannot be read. What they are is left to the name `zip_names`.
#[verifier::external_body]
fn zip_file_names(archive: &[u8]) -> (r: Option<Vec<String>>)
    ensures
        match zip_names(archive@) {
            Some(names) => r matches Some(v) && v@.len() == names.len() && forall|i: int|
                0 <= i < names.len() ==> #[trigger] v@[i]@ == names[i],
            None => r is None,
        },
{
    let zip = zip::ZipArchive::new(std::io::Cursor::new(archive)).ok()?;
    Some(zip.file_names().map(|name| name.to_owned()).collect())
}

/// `zip::ZipArchive::new` over the bytes, then `by_name` and `read_to_end`: the
/// decompressed bytes of member `name`, or `None` where the archive or the member
/// cannot be read. What they are is left to the name `zip_member`.
#[verifier::external_body]
fn zip_read_member(archive: &[u8], name: &str) -> (r: Option<Vec<u8>>)
    ensures
        match zip_member(archive@, name@) {
            Some(bytes) => r matches Some(v) && v@ == bytes,
            None => r is None,
        },
{
    let mut zip = zip::ZipArchive::new(std::io::Cursor::new(archive)).ok()?;
    let mut member = zip.by_name(name).ok()?;
    let mut bytes = Vec::new();
    std::io::Read::read_to_end(&mut member, &mut bytes).ok()?;
    Some(bytes)
}

/// The suffix of the name of a multiworld file.
pub open spec fn multiworld_suffix() -> Seq<char> {
    seq!['.', 'a', 'r', 'c', 'h', 'i', 'p', 'e', 'l', 'a', 'g', 'o']
}

/// Whether `name` ends in `.archipelago`.
pub open spec fn is_multiworld_name(name: Seq<char>) -> bool {
    name.len() >= multiworld_suffix().len() && name.subrange(
        name.len() - multiworld_suffix().len(),
        name.len() as int,
    ) == multiworld_suffix()
}

/// The position of the first name that ends in `.archipelago`, or the number of names.
pub open spec fn first_multiworld_name(names: Seq<Seq<char>>) -> int
    decreases names.len(),
{
    if names.len() == 0 {
        0
    } else if is_multiworld_name(names[0]) {
        0
    } else {
        1 + first_multiworld_name(names.drop_first())
    }
}

/// Whether `name` ends in `.archipelago`.
pub fn ends_in_archipelago(name: &str) -> (r: bool)
    ensures
        r == is_multiworld_name(name@),
{
    let suffix: [char; 12] = ['.', 'a', 'r', 'c', 'h', 'i', 'p', 'e', 'l', 'a', 'g', 'o'];
    proof {
        assert(suffix@ =~= multiworld_suffix());
    }
    let len = name.unicode_len();
    if len < 12 {
        return false;
    }
    let start = len - 12;
    let mut i: usize = 0;
    while i < 12
        invariant
            len == name@.len(),
            start == len - 12,
            i <= 12,
            suffix@ == multiworld_suffix(),
            forall|k: int| 0 <= k < i ==> name@[start + k] == suffix@[k],
        decreases 12 - i,
    {
        if name.get_char(start + i) != suffix[i] {
            proof {
                assert(name@.subrange(start as int, len as int)[i as int] != multiworld_suffix()[i as int]);
            }
            return false;
        }
        i += 1;
    }
    proof {
        assert(name@.subrange(start as int, len as int) =~= multiworld_suffix());
    }
    true
}

/// The multiworld file inside the zip archive `archive`: the bytes of the first
/// member, in the order of the central directory, whose name ends in `.archipelago`.
pub fn archipelago_member(archive: &[u8]) -> (r: Result<Vec<u8>, Error>)
    ensures
        match zip_names(archive@) {
            None => r matches Err(e) && e@ == crate::error::ErrorModel::InvalidArchive,
            Some(names) => if first_multiworld_name(names) == names.len() {
                r matches Err(e) && e@ == crate::error::ErrorModel::NoMultiworldMember
            } else {
                match zip_member(archive@, names[first_multiworld_name(names)]) {
                    Some(bytes) => r matches Ok(v) && v@ == bytes,
                    None => r matches Err(e) && e@ == crate::error::ErrorModel::UnreadableMember(
                        names[first_multiworld_name(names)],
                    ),
                }
            },
        },
{
    let names = match zip_file_names(archive) {
        Some(names) => names,
        None => return Err(Error::InvalidArchive),
    };
    let ghost ns = zip_names(archive@)->Some_0;
    proof {
        assert(ns.skip(0) =~= ns);
    }
    let mut i: usize = 0;
    while i < names.len()
        invariant
            zip_names(archive@) == Some(ns),
            names@.len() == ns.len(),
            forall|k: int| 0 <= k < ns.len() ==> #[trigger] names@[k]@ == ns[k],
            i <= names.len(),
            first_multiworld_name(ns) == i + first_multiworld_name(ns.skip(i as int)),
        decreases names.len() - i,
    {
        proof {
            assert(ns.skip(i as int)[0] == ns[i as int]);
            assert(ns.skip(i as int).drop_first() =~= ns.skip(i + 1));
        }
        if ends_in_archipelago(names[i].as_str()) {
            let name = names[i].as_str();
            return match zip_read_member(archive, name) {
                Some(bytes) => Ok(bytes),
                None => Err(Error::UnreadableMember(names[i].clone())),
            };
        }
        i += 1;
    }
    proof {
        assert(ns.skip(i as int).len() == 0);
    }
    Err(Error::NoMultiworldMember)
}

} // verus!
