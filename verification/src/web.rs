//! The identifiers and pages of the multiworld web host.

use vstd::prelude::*;

use crate::checksum::hex_spec;
use crate::error::Error;

verus! {

/// A random UUID, held as its big-endian `u128`: its version nibble is 4 and its
/// variant bits are those of RFC 4122.
pub open spec fn is_random_uuid(u: u128) -> bool {
    (u >> 76u128) & 0xfu128 == 4 && (u >> 62u128) & 0x3u128 == 2
}

/// `uuid::Uuid::new_v4`, as its `u128`: random bits, with the version nibble set to
/// 4 and the variant bits to `10`. Which random bits come is not stated.
#[verifier::external_body]
fn new_uuid_v4() -> (r: u128)
    ensures
        is_random_uuid(r),
{
    uuid::Uuid::new_v4().as_u128()
}

/// The identifier of a room.
#[derive(PartialEq, Eq, Structural, Clone, Copy, Debug)]
pub struct RoomId(pub u128);

impl RoomId {
    /// A new random room identifier.
    pub fn new_random() -> (r: RoomId)
        ensures
            is_random_uuid(r.0),
    {
        RoomId(new_uuid_v4())
    }

    /// The UUID, as a big-endian `u128`.
    pub fn as_u128(&self) -> (r: u128)
        ensures
            r == self.0,
    {
        self.0
    }
}

/// A UUID as the database stores it.
#[derive(PartialEq, Eq, Structural, Clone, Copy, Debug)]
pub struct UUID(pub u128);

impl UUID {
    /// A new random UUID.
    pub fn new_random() -> (r: UUID)
        ensures
            is_random_uuid(r.0),
    {
        UUID(new_uuid_v4())
    }

    /// The UUID, as a big-endian `u128`.
    pub fn as_u128(&self) -> (r: u128)
        ensures
            r == self.0,
    {
        self.0
    }
}

/// The page that uploads a multiworld to host.
#[derive(PartialEq, Eq, Structural, Clone, Copy, Debug)]
pub struct HostTemplate {}

/// The host page.
pub fn get() -> (r: HostTemplate)
    ensures
        r == (HostTemplate {}),
{
    HostTemplate {}
}

/// The UUID that `text` spells, by `uuid`'s parser, if it spells one.
pub uninterp spec fn parsed_uuid(text: Seq<char>) -> Option<u128>;

/// `uuid::Uuid::parse_str`, as a `u128`: the UUID that `text` spells, or `None` where
/// it spells none. Which texts are accepted is left to the name `parsed_uuid`.
#[verifier::external_body]
fn uuid_parse(text: &str) -> (r: Option<u128>)
    ensures
        r == parsed_uuid(text@),
{
    match uuid::Uuid::parse_str(text) {
        Ok(u) => Some(u.as_u128()),
        Err(_) => None,
    }
}

/// The sixteen bytes of a UUID, most significant first.
pub open spec fn uuid_bytes(u: u128) -> Seq<u8> {
    Seq::new(16, |i: int| ((u >> ((8 * (15 - i)) as u128)) & 0xffu128) as u8)
}

/// A UUID in its hyphenated form: 32 lower-case hex digits in groups of 8, 4, 4, 4
/// and 12, joined by hyphens.
pub open spec fn hyphenated(u: u128) -> Seq<char> {
    let h = hex_spec(uuid_bytes(u));
    h.subrange(0, 8) + seq!['-'] + h.subrange(8, 12) + seq!['-'] + h.subrange(12, 16) + seq!['-']
        + h.subrange(16, 20) + seq!['-'] + h.subrange(20, 32)
}

/// `uuid::Uuid::as_hyphenated`, written out: the UUID's hyphenated form.
#[verifier::external_body]
fn uuid_hyphenated(u: u128) -> (r: String)
    ensures
        r@ == hyphenated(u),
{
    uuid::Uuid::from_u128(u).as_hyphenated().to_string()
}

impl UUID {
    /// The UUID a parse gave, or the error of a text that spells none.
    pub fn from_parsed(parsed: Option<u128>) -> (r: Result<UUID, Error>)
        ensures
            match parsed {
                Some(u) => r matches Ok(x) && x.0 == u,
                None => r matches Err(Error::InvalidUuid),
            },
    {
        match parsed {
            Some(u) => Ok(UUID(u)),
            None => Err(Error::InvalidUuid),
        }
    }

    /// The UUID that `s` spells.
    pub fn from_str(s: &str) -> (r: Result<UUID, Error>)
        ensures
            match parsed_uuid(s@) {
                Some(u) => r matches Ok(x) && x.0 == u,
                None => r matches Err(Error::InvalidUuid),
            },
    {
        UUID::from_parsed(uuid_parse(s))
    }

    /// The hyphenated form, as the database stores it.
    pub fn to_text(&self) -> (r: String)
        ensures
            r@ == hyphenated(self.0),
    {
        uuid_hyphenated(self.0)
    }
}

/// The identifier of a user of the web host.
#[derive(PartialEq, Eq, Structural, Clone, Copy, Debug)]
pub struct UserId(pub UUID);

impl UserId {
    /// A new random user identifier.
    pub fn new_random() -> (r: UserId)
        ensures
            is_random_uuid(r.0.0),
    {
        UserId(UUID::new_random())
    }

    /// The user identifier that `s` spells.
    pub fn from_str(s: &str) -> (r: Result<UserId, Error>)
        ensures
            match parsed_uuid(s@) {
                Some(u) => r matches Ok(x) && x.0.0 == u,
                None => r matches Err(Error::InvalidUuid),
            },
    {
        let uuid = UUID::from_str(s)?;
        Ok(UserId(uuid))
    }

    /// The hyphenated form, as the cookie holds it.
    pub fn to_text(&self) -> (r: String)
        ensures
            r@ == hyphenated(self.0.0),
    {
        self.0.to_text()
    }
}

/// Which user a request comes from, given the `user_id` cookie it carries, if any:
/// the identifier the cookie spells; or, where there is no cookie or it spells none,
/// a new random identifier, and `true` to say that the cookie must be set to it.
pub fn resolve_user_id(cookie: Option<&str>) -> (r: (UserId, bool))
    ensures
        match cookie {
            Some(text) => match parsed_uuid(text@) {
                Some(u) => r.0.0.0 == u && !r.1,
                None => is_random_uuid(r.0.0.0) && r.1,
            },
            None => is_random_uuid(r.0.0.0) && r.1,
        },
{
    match cookie {
        Some(text) => user_id_from_parsed(uuid_parse(text)),
        None => user_id_from_parsed(None),
    }
}

/// Which user a request comes from, given what parsing its cookie gave: the
/// identifier parsed, or a new random one and `true` to say the cookie must be set.
pub fn user_id_from_parsed(parsed: Option<u128>) -> (r: (UserId, bool))
    ensures
        match parsed {
            Some(u) => r.0.0.0 == u && !r.1,
            None => is_random_uuid(r.0.0.0) && r.1,
        },
{
    match parsed {
        Some(u) => (UserId(UUID(u)), false),
        None => (UserId::new_random(), true),
    }
}

} // verus!
