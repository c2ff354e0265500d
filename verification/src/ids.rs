//! Stable UUID-backed identities for domain records.

use vstd::prelude::*;

use crate::text::{string_of, trim, trimmed_chars};

verus! {

#[verifier::external_type_specification]
#[verifier::external_body]
pub struct ExUuidError(uuid::Error);

/// What `uuid::Uuid::parse_str` accepts, and the 128-bit value it yields.
pub uninterp spec fn uuid_parse(text: Seq<char>) -> Option<u128>;

/// Whether a 128-bit value carries the RFC 4122 version-4 and variant bits.
pub open spec fn is_v4(value: u128) -> bool {
    &&& (value >> 76u128) & 0xfu128 == 4u128
    &&& (value >> 62u128) & 0x3u128 == 2u128
}

/// Lower-case hexadecimal digit for a nibble.
pub open spec fn hex_digit(n: u128) -> char {
    if n < 10 {
        (('0' as u32) + n) as char
    } else {
        (('a' as u32) + n - 10) as char
    }
}

/// Position among the 32 hex digits of the `i`-th character of the hyphenated text.
pub open spec fn digit_index(i: int) -> int {
    if i < 8 {
        i
    } else if i < 13 {
        i - 1
    } else if i < 18 {
        i - 2
    } else if i < 23 {
        i - 3
    } else {
        i - 4
    }
}

/// The `p`-th nibble of a value, most significant first.
pub open spec fn nibble(value: u128, p: int) -> u128 {
    (value >> ((124 - 4 * p) as u128)) & 0xfu128
}

/// Canonical hyphenated lower-case UUID text (8-4-4-4-12 hex digits).
pub open spec fn hyphenated(value: u128) -> Seq<char> {
    Seq::new(
        36,
        |i: int|
            if i == 8 || i == 13 || i == 18 || i == 23 {
                '-'
            } else {
                hex_digit(nibble(value, digit_index(i)))
            },
    )
}

/// `uuid::Uuid::new_v4`: a random version-4 UUID, returned as its 128-bit value.
#[verifier::external_body]
fn random_uuid() -> (r: u128)
    ensures
        is_v4(r),
{
    uuid::Uuid::new_v4().as_u128()
}

/// `uuid::Uuid::parse_str`: parses simple, hyphenated, braced, or URN UUID text.
#[verifier::external_body]
fn parse_uuid(text: &str) -> (r: Result<u128, uuid::Error>)
    ensures
        match r {
            Ok(v) => uuid_parse(text@) == Some(v),
            Err(_) => uuid_parse(text@) is None,
        },
{
    uuid::Uuid::parse_str(text).map(|u| u.as_u128())
}

/// `uuid::Uuid::hyphenated` rendered with `to_string`: lower-case 8-4-4-4-12 text,
/// which `parse_str` reads back as the same value.
#[verifier::external_body]
fn hyphenate_uuid(value: u128) -> (r: String)
    ensures
        r@ == hyphenated(value),
        uuid_parse(r@) == Some(value),
{
    uuid::Uuid::from_u128(value).hyphenated().to_string()
}

/// Parses trimmed UUID text into its 128-bit value.
fn parse_trimmed_uuid(value: &str) -> (r: Result<u128, uuid::Error>)
    ensures
        match r {
            Ok(v) => uuid_parse(trim(value@)) == Some(v),
            Err(_) => uuid_parse(trim(value@)) is None,
        },
{
    let chars = trimmed_chars(value);
    let text = string_of(chars.as_slice());
    parse_uuid(text.as_str())
}

/// Reading back the canonical text of an identity yields the same identity.
pub proof fn lemma_hyphenated_roundtrip(value: u128)
    ensures
        trim(hyphenated(value)) == hyphenated(value),
{
    let s = hyphenated(value);
    assert(nibble(value, 0) < 16) by (bit_vector);
    assert(nibble(value, 31) < 16) by (bit_vector);
    assert(!crate::text::is_white(s[0]));
    assert(crate::text::trim_start(s) == s);
    assert(!crate::text::is_white(s[35]));
    assert(crate::text::trim_end(s) == s);
}

/// Stable identity within the local Easel library.
#[derive(Clone, Copy, Debug, PartialEq, Eq, Hash, Structural)]
pub struct AssetId(pub u128);

impl AssetId {
    /// Creates a new random asset identity.
    pub fn new() -> (r: Self)
        ensures
            is_v4(r.0),
    {
        AssetId(random_uuid())
    }

    /// Creates a stable asset identity from a UUID's 128-bit value.
    pub fn from_u128(value: u128) -> (r: Self)
        ensures
            r.0 == value,
    {
        AssetId(value)
    }

    /// Returns the UUID's 128-bit value.
    pub fn as_u128(self) -> (r: u128)
        ensures
            r == self.0,
    {
        self.0
    }

    /// Parses UUID text (surrounding whitespace ignored) into a asset identity.
    pub fn parse(value: &str) -> (r: Result<Self, uuid::Error>)
        ensures
            match r {
                Ok(id) => uuid_parse(trim(value@)) == Some(id.0),
                Err(_) => uuid_parse(trim(value@)) is None,
            },
    {
        match parse_trimmed_uuid(value) {
            Ok(v) => Ok(AssetId(v)),
            Err(e) => Err(e),
        }
    }

    /// Returns the canonical hyphenated UUID string.
    pub fn to_hyphenated_string(self) -> (r: String)
        ensures
            r@ == hyphenated(self.0),
            uuid_parse(r@) == Some(self.0),
    {
        hyphenate_uuid(self.0)
    }
}

impl Default for AssetId {
    fn default() -> (r: Self)
        ensures
            is_v4(r.0),
    {
        AssetId::new()
    }
}

/// Stable identity for a named collection.
#[derive(Clone, Copy, Debug, PartialEq, Eq, Hash, Structural)]
pub struct CollectionId(pub u128);

impl CollectionId {
    /// Creates a new random collection identity.
    pub fn new() -> (r: Self)
        ensures
            is_v4(r.0),
    {
        CollectionId(random_uuid())
    }

    /// Creates a stable collection identity from a UUID's 128-bit value.
    pub fn from_u128(value: u128) -> (r: Self)
        ensures
            r.0 == value,
    {
        CollectionId(value)
    }

    /// Returns the UUID's 128-bit value.
    pub fn as_u128(self) -> (r: u128)
        ensures
            r == self.0,
    {
        self.0
    }

    /// Parses UUID text (surrounding whitespace ignored) into a collection identity.
    pub fn parse(value: &str) -> (r: Result<Self, uuid::Error>)
        ensures
            match r {
                Ok(id) => uuid_parse(trim(value@)) == Some(id.0),
                Err(_) => uuid_parse(trim(value@)) is None,
            },
    {
        match parse_trimmed_uuid(value) {
            Ok(v) => Ok(CollectionId(v)),
            Err(e) => Err(e),
        }
    }

    /// Returns the canonical hyphenated UUID string.
    pub fn to_hyphenated_string(self) -> (r: String)
        ensures
            r@ == hyphenated(self.0),
            uuid_parse(r@) == Some(self.0),
    {
        hyphenate_uuid(self.0)
    }
}

impl Default for CollectionId {
    fn default() -> (r: Self)
        ensures
            is_v4(r.0),
    {
        CollectionId::new()
    }
}

/// Stable Easel identity for a physical display.
#[derive(Clone, Copy, Debug, PartialEq, Eq, Hash, Structural)]
pub struct DisplayId(pub u128);

impl DisplayId {
    /// Creates a new random display identity.
    pub fn new() -> (r: Self)
        ensures
            is_v4(r.0),
    {
        DisplayId(random_uuid())
    }

    /// Creates a stable display identity from a UUID's 128-bit value.
    pub fn from_u128(value: u128) -> (r: Self)
        ensures
            r.0 == value,
    {
        DisplayId(value)
    }

    /// Returns the UUID's 128-bit value.
    pub fn as_u128(self) -> (r: u128)
        ensures
            r == self.0,
    {
        self.0
    }

    /// Parses UUID text (surrounding whitespace ignored) into a display identity.
    pub fn parse(value: &str) -> (r: Result<Self, uuid::Error>)
        ensures
            match r {
                Ok(id) => uuid_parse(trim(value@)) == Some(id.0),
                Err(_) => uuid_parse(trim(value@)) is None,
            },
    {
        match parse_trimmed_uuid(value) {
            Ok(v) => Ok(DisplayId(v)),
            Err(e) => Err(e),
        }
    }

    /// Returns the canonical hyphenated UUID string.
    pub fn to_hyphenated_string(self) -> (r: String)
        ensures
            r@ == hyphenated(self.0),
            uuid_parse(r@) == Some(self.0),
    {
        hyphenate_uuid(self.0)
    }
}

impl Default for DisplayId {
    fn default() -> (r: Self)
        ensures
            is_v4(r.0),
    {
        DisplayId::new()
    }
}

/// Stable identity for a display group.
#[derive(Clone, Copy, Debug, PartialEq, Eq, Hash, Structural)]
pub struct DisplayGroupId(pub u128);

impl DisplayGroupId {
    /// Creates a new random display group identity.
    pub fn new() -> (r: Self)
        ensures
            is_v4(r.0),
    {
        DisplayGroupId(random_uuid())
    }

    /// Creates a stable display group identity from a UUID's 128-bit value.
    pub fn from_u128(value: u128) -> (r: Self)
        ensures
            r.0 == value,
    {
        DisplayGroupId(value)
    }

    /// Returns the UUID's 128-bit value.
    pub fn as_u128(self) -> (r: u128)
        ensures
            r == self.0,
    {
        self.0
    }

    /// Parses UUID text (surrounding whitespace ignored) into a display group identity.
    pub fn parse(value: &str) -> (r: Result<Self, uuid::Error>)
        ensures
            match r {
                Ok(id) => uuid_parse(trim(value@)) == Some(id.0),
                Err(_) => uuid_parse(trim(value@)) is None,
            },
    {
        match parse_trimmed_uuid(value) {
            Ok(v) => Ok(DisplayGroupId(v)),
            Err(e) => Err(e),
        }
    }

    /// Returns the canonical hyphenated UUID string.
    pub fn to_hyphenated_string(self) -> (r: String)
        ensures
            r@ == hyphenated(self.0),
            uuid_parse(r@) == Some(self.0),
    {
        hyphenate_uuid(self.0)
    }
}

impl Default for DisplayGroupId {
    fn default() -> (r: Self)
        ensures
            is_v4(r.0),
    {
        DisplayGroupId::new()
    }
}

/// Stable identity for a dynamic still set.
#[derive(Clone, Copy, Debug, PartialEq, Eq, Hash, Structural)]
pub struct DynamicStillSetId(pub u128);

impl DynamicStillSetId {
    /// Creates a new random still-set identity.
    pub fn new() -> (r: Self)
        ensures
            is_v4(r.0),
    {
        DynamicStillSetId(random_uuid())
    }

    /// Creates a stable still-set identity from a UUID's 128-bit value.
    pub fn from_u128(value: u128) -> (r: Self)
        ensures
            r.0 == value,
    {
        DynamicStillSetId(value)
    }

    /// Returns the UUID's 128-bit value.
    pub fn as_u128(self) -> (r: u128)
        ensures
            r == self.0,
    {
        self.0
    }

    /// Parses UUID text (surrounding whitespace ignored) into a still-set identity.
    pub fn parse(value: &str) -> (r: Result<Self, uuid::Error>)
        ensures
            match r {
                Ok(id) => uuid_parse(trim(value@)) == Some(id.0),
                Err(_) => uuid_parse(trim(value@)) is None,
            },
    {
        match parse_trimmed_uuid(value) {
            Ok(v) => Ok(DynamicStillSetId(v)),
            Err(e) => Err(e),
        }
    }

    /// Returns the canonical hyphenated UUID string.
    pub fn to_hyphenated_string(self) -> (r: String)
        ensures
            r@ == hyphenated(self.0),
            uuid_parse(r@) == Some(self.0),
    {
        hyphenate_uuid(self.0)
    }
}

impl Default for DynamicStillSetId {
    fn default() -> (r: Self)
        ensures
            is_v4(r.0),
    {
        DynamicStillSetId::new()
    }
}

/// Stable identity for a history event.
#[derive(Clone, Copy, Debug, PartialEq, Eq, Hash, Structural)]
pub struct HistoryEventId(pub u128);

impl HistoryEventId {
    /// Creates a new random history event identity.
    pub fn new() -> (r: Self)
        ensures
            is_v4(r.0),
    {
        HistoryEventId(random_uuid())
    }

    /// Creates a stable history event identity from a UUID's 128-bit value.
    pub fn from_u128(value: u128) -> (r: Self)
        ensures
            r.0 == value,
    {
        HistoryEventId(value)
    }

    /// Returns the UUID's 128-bit value.
    pub fn as_u128(self) -> (r: u128)
        ensures
            r == self.0,
    {
        self.0
    }

    /// Parses UUID text (surrounding whitespace ignored) into a history event identity.
    pub fn parse(value: &str) -> (r: Result<Self, uuid::Error>)
        ensures
            match r {
                Ok(id) => uuid_parse(trim(value@)) == Some(id.0),
                Err(_) => uuid_parse(trim(value@)) is None,
            },
    {
        match parse_trimmed_uuid(value) {
            Ok(v) => Ok(HistoryEventId(v)),
            Err(e) => Err(e),
        }
    }

    /// Returns the canonical hyphenated UUID string.
    pub fn to_hyphenated_string(self) -> (r: String)
        ensures
            r@ == hyphenated(self.0),
            uuid_parse(r@) == Some(self.0),
    {
        hyphenate_uuid(self.0)
    }
}

impl Default for HistoryEventId {
    fn default() -> (r: Self)
        ensures
            is_v4(r.0),
    {
        HistoryEventId::new()
    }
}

/// Stable profile identity independent of its display name.
#[derive(Clone, Copy, Debug, PartialEq, Eq, Hash, Structural)]
pub struct ProfileId(pub u128);

impl ProfileId {
    /// Creates a new random profile identity.
    pub fn new() -> (r: Self)
        ensures
            is_v4(r.0),
    {
        ProfileId(random_uuid())
    }

    /// Creates a stable profile identity from a UUID's 128-bit value.
    pub fn from_u128(value: u128) -> (r: Self)
        ensures
            r.0 == value,
    {
        ProfileId(value)
    }

    /// Returns the UUID's 128-bit value.
    pub fn as_u128(self) -> (r: u128)
        ensures
            r == self.0,
    {
        self.0
    }

    /// Parses UUID text (surrounding whitespace ignored) into a profile identity.
    pub fn parse(value: &str) -> (r: Result<Self, uuid::Error>)
        ensures
            match r {
                Ok(id) => uuid_parse(trim(value@)) == Some(id.0),
                Err(_) => uuid_parse(trim(value@)) is None,
            },
    {
        match parse_trimmed_uuid(value) {
            Ok(v) => Ok(ProfileId(v)),
            Err(e) => Err(e),
        }
    }

    /// Returns the canonical hyphenated UUID string.
    pub fn to_hyphenated_string(self) -> (r: String)
        ensures
            r@ == hyphenated(self.0),
            uuid_parse(r@) == Some(self.0),
    {
        hyphenate_uuid(self.0)
    }
}

impl Default for ProfileId {
    fn default() -> (r: Self)
        ensures
            is_v4(r.0),
    {
        ProfileId::new()
    }
}

/// Stable identity for a rotation queue.
#[derive(Clone, Copy, Debug, PartialEq, Eq, Hash, Structural)]
pub struct RotationQueueId(pub u128);

impl RotationQueueId {
    /// Creates a new random rotation queue identity.
    pub fn new() -> (r: Self)
        ensures
            is_v4(r.0),
    {
        RotationQueueId(random_uuid())
    }

    /// Creates a stable rotation queue identity from a UUID's 128-bit value.
    pub fn from_u128(value: u128) -> (r: Self)
        ensures
            r.0 == value,
    {
        RotationQueueId(value)
    }

    /// Returns the UUID's 128-bit value.
    pub fn as_u128(self) -> (r: u128)
        ensures
            r == self.0,
    {
        self.0
    }

    /// Parses UUID text (surrounding whitespace ignored) into a rotation queue identity.
    pub fn parse(value: &str) -> (r: Result<Self, uuid::Error>)
        ensures
            match r {
                Ok(id) => uuid_parse(trim(value@)) == Some(id.0),
                Err(_) => uuid_parse(trim(value@)) is None,
            },
    {
        match parse_trimmed_uuid(value) {
            Ok(v) => Ok(RotationQueueId(v)),
            Err(e) => Err(e),
        }
    }

    /// Returns the canonical hyphenated UUID string.
    pub fn to_hyphenated_string(self) -> (r: String)
        ensures
            r@ == hyphenated(self.0),
            uuid_parse(r@) == Some(self.0),
    {
        hyphenate_uuid(self.0)
    }
}

impl Default for RotationQueueId {
    fn default() -> (r: Self)
        ensures
            is_v4(r.0),
    {
        RotationQueueId::new()
    }
}

/// Stable schedule identity.
#[derive(Clone, Copy, Debug, PartialEq, Eq, Hash, Structural)]
pub struct ScheduleId(pub u128);

impl ScheduleId {
    /// Creates a new random schedule identity.
    pub fn new() -> (r: Self)
        ensures
            is_v4(r.0),
    {
        ScheduleId(random_uuid())
    }

    /// Creates a stable schedule identity from a UUID's 128-bit value.
    pub fn from_u128(value: u128) -> (r: Self)
        ensures
            r.0 == value,
    {
        ScheduleId(value)
    }

    /// Returns the UUID's 128-bit value.
    pub fn as_u128(self) -> (r: u128)
        ensures
            r == self.0,
    {
        self.0
    }

    /// Parses UUID text (surrounding whitespace ignored) into a schedule identity.
    pub fn parse(value: &str) -> (r: Result<Self, uuid::Error>)
        ensures
            match r {
                Ok(id) => uuid_parse(trim(value@)) == Some(id.0),
                Err(_) => uuid_parse(trim(value@)) is None,
            },
    {
        match parse_trimmed_uuid(value) {
            Ok(v) => Ok(ScheduleId(v)),
            Err(e) => Err(e),
        }
    }

    /// Returns the canonical hyphenated UUID string.
    pub fn to_hyphenated_string(self) -> (r: String)
        ensures
            r@ == hyphenated(self.0),
            uuid_parse(r@) == Some(self.0),
    {
        hyphenate_uuid(self.0)
    }
}

impl Default for ScheduleId {
    fn default() -> (r: Self)
        ensures
            is_v4(r.0),
    {
        ScheduleId::new()
    }
}

} // verus!
