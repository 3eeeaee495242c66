use vstd::prelude::*;
use uuid::Uuid;

verus! {

/// The version field (bits 76..80) of a UUID taken as a big-endian 128-bit value.
pub open spec fn uuid_version(value: u128) -> u128 {
    (value >> 76u128) & 0xfu128
}

/// The lower-case hexadecimal digit for a value below 16.
pub open spec fn hex_char(n: u128) -> char {
    if n < 10 {
        (48 + n) as char
    } else {
        (87 + n) as char
    }
}

/// The hexadecimal digits `from..to` (counted from the most significant one) of a 128-bit value.
pub open spec fn hex_digits(value: u128, from: int, to: int) -> Seq<char> {
    Seq::new(
        (to - from) as nat,
        |i: int| hex_char((value >> ((31 - (from + i)) * 4) as u128) & 0xfu128),
    )
}

/// The hyphenated form of a UUID: 32 lower-case hex digits in groups of 8-4-4-4-12.
pub open spec fn uuid_text(value: u128) -> Seq<char> {
    hex_digits(value, 0, 8) + "-"@ + hex_digits(value, 8, 12) + "-"@ + hex_digits(value, 12, 16)
        + "-"@ + hex_digits(value, 16, 20) + "-"@ + hex_digits(value, 20, 32)
}

/// Calls `uuid::Uuid::now_v7`, which creates a version-7 UUID from the current time and
/// random bits; the result is handed back as its big-endian 128-bit value.
/// Claimed: the version field of the result is 7. Nothing more is claimed: the value
/// depends on the clock and on randomness.
#[verifier::external_body]
fn uuid_now_v7() -> (value: u128)
    ensures
        uuid_version(value) == 7,
{
    Uuid::now_v7().as_u128()
}

/// Calls `ToString::to_string` on `uuid::Uuid::from_u128(value)`; uuid's `Display` writes
/// the hyphenated lower-case form. Claimed: the text is `uuid_text(value)`.
#[verifier::external_body]
fn uuid_to_string(value: u128) -> (text: String)
    ensures
        text@ == uuid_text(value),
{
    Uuid::from_u128(value).to_string()
}

/// Identifies an entity; holds the entity's UUID as its big-endian 128-bit value.
#[derive(Clone, Copy, PartialEq, Eq, Structural, Hash, Debug)]
pub struct EntityId {
    pub uuid: u128,
}

impl EntityId {
    pub fn from_uuid(uuid: u128) -> (id: EntityId)
        ensures
            id.uuid == uuid,
    {
        EntityId { uuid }
    }

    pub fn as_uuid(&self) -> (uuid: u128)
        ensures
            uuid == self.uuid,
    {
        self.uuid
    }

    /// Generates a new identifier from a version-7 UUID.
    pub fn generate() -> (id: EntityId)
        ensures
            uuid_version(id.uuid) == 7,
    {
        EntityId { uuid: uuid_now_v7() }
    }

    /// The hyphenated UUID text of this identifier.
    pub fn to_string(&self) -> (text: String)
        ensures
            text@ == uuid_text(self.uuid),
    {
        uuid_to_string(self.uuid)
    }
}

/// Identifies a room; a room is an entity.
#[derive(Clone, Copy, PartialEq, Eq, Structural, Hash, Debug)]
pub struct RoomId {
    pub entity: EntityId,
}

impl RoomId {
    pub fn from_entity(id: EntityId) -> (room: RoomId)
        ensures
            room.entity == id,
    {
        RoomId { entity: id }
    }

    pub fn from_uuid(uuid: u128) -> (room: RoomId)
        ensures
            room.entity.uuid == uuid,
    {
        RoomId { entity: EntityId { uuid } }
    }

    /// Generates a new room identifier from a version-7 UUID.
    pub fn generate() -> (room: RoomId)
        ensures
            uuid_version(room.entity.uuid) == 7,
    {
        RoomId { entity: EntityId::generate() }
    }

    pub fn as_entity(&self) -> (id: EntityId)
        ensures
            id == self.entity,
    {
        self.entity
    }

    pub fn as_uuid(&self) -> (uuid: u128)
        ensures
            uuid == self.entity.uuid,
    {
        self.entity.uuid
    }

    /// The hyphenated UUID text of this identifier.
    pub fn to_string(&self) -> (text: String)
        ensures
            text@ == uuid_text(self.entity.uuid),
    {
        self.entity.to_string()
    }
}

/// A unique, human-readable name by which administrators refer to an entity.
#[derive(Debug)]
pub struct Alias {
    pub text: String,
}

impl View for Alias {
    type V = Seq<char>;

    open spec fn view(&self) -> Seq<char> {
        self.text@
    }
}

impl Clone for Alias {
    fn clone(&self) -> (copy: Alias)
        ensures
            copy@ == self@,
    {
        Alias { text: self.text.clone() }
    }
}

impl From<String> for Alias {
    fn from(value: String) -> (alias: Alias) {
        Alias { text: value }
    }
}

impl vstd::std_specs::convert::FromSpecImpl<String> for Alias {
    open spec fn obeys_from_spec() -> bool {
        true
    }

    open spec fn from_spec(v: String) -> Alias {
        Alias { text: v }
    }
}

impl Alias {
    /// Makes an alias from borrowed text.
    pub fn new(value: &str) -> (alias: Alias)
        ensures
            alias@ == value@,
    {
        Alias { text: value.to_string() }
    }

    pub fn as_str(&self) -> (text: &str)
        ensures
            text@ == self@,
    {
        self.text.as_str()
    }

    pub fn to_string(&self) -> (text: String)
        ensures
            text@ == self@,
    {
        self.text.clone()
    }
}

} // verus!
