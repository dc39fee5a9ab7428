//! Identifiers of carts, items and products.
//!
//! Every identifier is a 128-bit value laid out as a UUID. Identifiers that
//! come from outside must carry version 7 (time-ordered); equality is
//! bitwise.

use vstd::prelude::*;

verus! {

/// The version field of a 128-bit UUID value: the high four bits of its
/// seventh byte, counting the bytes from the most significant one.
pub open spec fn uuid_version_number(bits: u128) -> int {
    ((bits >> 76u128) & 0xfu128) as int
}

/// The hyphenated lower-case text that `uuid` prints for a 128-bit value.
pub uninterp spec fn uuid_text(bits: u128) -> Seq<char>;

/// What `uuid::Uuid::parse_str` makes of a text: the 128-bit value of the
/// UUID that the text spells, or `None` where it spells none.
pub uninterp spec fn uuid_parsed(text: Seq<char>) -> Option<u128>;

/// Parses a text with `uuid::Uuid::parse_str`; what comes of it is a
/// function of the text alone and is named by [`uuid_parsed`].
#[verifier::external_body]
pub(crate) fn parse_uuid(text: &str) -> (r: Option<u128>)
    ensures
        r == uuid_parsed(text@),
{
    match uuid::Uuid::parse_str(text) {
        Ok(parsed) => Some(parsed.as_u128()),
        Err(_) => None,
    }
}

/// The refusal of a text that spells no UUID.
#[derive(Clone, Copy, Debug, PartialEq, Eq, Structural)]
pub struct InvalidUuidText;

/// Reads the version field with `uuid::Uuid::get_version_num`, which returns
/// the high nibble of byte 6 of the big-endian value.
#[verifier::external_body]
pub(crate) fn read_version_number(bits: u128) -> (n: usize)
    ensures
        n == uuid_version_number(bits),
{
    uuid::Uuid::from_u128(bits).get_version_num()
}

/// Draws a new identifier with `uuid::Uuid::now_v7`. The value depends on the
/// clock and on random bytes; all that is claimed is that its version field
/// is 7, which `now_v7` always writes.
#[verifier::external_body]
pub(crate) fn fresh_v7_bits() -> (bits: u128)
    ensures
        uuid_version_number(bits) == 7,
{
    uuid::Uuid::now_v7().as_u128()
}

/// Prints a 128-bit value with the `Display` impl of `uuid::Uuid`; the text
/// is a function of the value alone and is named by [`uuid_text`].
#[verifier::external_body]
pub(crate) fn print_uuid(bits: u128) -> (text: String)
    ensures
        text@ == uuid_text(bits),
{
    uuid::Uuid::from_u128(bits).to_string()
}

/// The refusal of an identifier that is not a version 7 UUID. It carries the
/// refused value.
#[derive(Clone, Copy, Debug, PartialEq, Eq, Structural)]
pub struct UuidNotCompatible(pub u128);

impl UuidNotCompatible {
    /// The message shown to a client.
    pub fn to_string(&self) -> (text: String)
        ensures
            text@ == "Uuid "@ + uuid_text(self.0)
                + " is not compatible. Version 7 Uuid is required."@,
    {
        let mut text = "Uuid ".to_owned();
        let id = print_uuid(self.0);
        text.push_str(id.as_str());
        text.push_str(" is not compatible. Version 7 Uuid is required.");
        text
    }
}

/// Identifier of a cart.
#[derive(Clone, Copy, Debug, PartialEq, Eq, Structural, PartialOrd, Ord, Hash)]
pub struct CartId(pub u128);

impl CartId {
    /// Whether the identifier is a version 7 UUID.
    pub open spec fn is_v7(self) -> bool {
        uuid_version_number(self.0) == 7
    }

    /// A new time-ordered identifier.
    pub fn new() -> (id: Self)
        ensures
            id.is_v7(),
    {
        CartId(fresh_v7_bits())
    }

    /// Accepts a 128-bit UUID value exactly when its version is 7.
    pub fn try_from(bits: u128) -> (r: Result<Self, UuidNotCompatible>)
        ensures
            uuid_version_number(bits) == 7 ==> r == Ok::<Self, UuidNotCompatible>(CartId(bits)),
            uuid_version_number(bits) != 7 ==> r == Err::<Self, UuidNotCompatible>(
                UuidNotCompatible(bits),
            ),
    {
        if read_version_number(bits) == 7 {
            Ok(CartId(bits))
        } else {
            Err(UuidNotCompatible(bits))
        }
    }

    /// The identifier that a text spells. Any UUID is taken, of whatever
    /// version.
    pub fn from_str(text: &str) -> (r: Result<Self, InvalidUuidText>)
        ensures
            r == match uuid_parsed(text@) {
                Some(bits) => Ok::<Self, InvalidUuidText>(CartId(bits)),
                None => Err::<Self, InvalidUuidText>(InvalidUuidText),
            },
    {
        match parse_uuid(text) {
            Some(bits) => Ok(CartId(bits)),
            None => Err(InvalidUuidText),
        }
    }

    /// The 128-bit UUID value.
    pub fn as_u128(&self) -> (bits: u128)
        ensures
            bits == self.0,
    {
        self.0
    }

    /// The identifier as hyphenated text.
    pub fn to_string(&self) -> (text: String)
        ensures
            text@ == uuid_text(self.0),
    {
        print_uuid(self.0)
    }
}

impl Default for CartId {
    fn default() -> (id: Self)
        ensures
            id.0 == 0,
    {
        CartId(0)
    }
}

/// Identifier of an item in a cart.
#[derive(Clone, Copy, Debug, PartialEq, Eq, Structural, PartialOrd, Ord, Hash)]
pub struct ItemId(pub u128);

impl ItemId {
    /// Whether the identifier is a version 7 UUID.
    pub open spec fn is_v7(self) -> bool {
        uuid_version_number(self.0) == 7
    }

    /// A new time-ordered identifier.
    pub fn new() -> (id: Self)
        ensures
            id.is_v7(),
    {
        ItemId(fresh_v7_bits())
    }

    /// Accepts a 128-bit UUID value exactly when its version is 7.
    pub fn try_from(bits: u128) -> (r: Result<Self, UuidNotCompatible>)
        ensures
            uuid_version_number(bits) == 7 ==> r == Ok::<Self, UuidNotCompatible>(ItemId(bits)),
            uuid_version_number(bits) != 7 ==> r == Err::<Self, UuidNotCompatible>(
                UuidNotCompatible(bits),
            ),
    {
        if read_version_number(bits) == 7 {
            Ok(ItemId(bits))
        } else {
            Err(UuidNotCompatible(bits))
        }
    }

    /// The identifier that a text spells. Any UUID is taken, of whatever
    /// version.
    pub fn from_str(text: &str) -> (r: Result<Self, InvalidUuidText>)
        ensures
            r == match uuid_parsed(text@) {
                Some(bits) => Ok::<Self, InvalidUuidText>(ItemId(bits)),
                None => Err::<Self, InvalidUuidText>(InvalidUuidText),
            },
    {
        match parse_uuid(text) {
            Some(bits) => Ok(ItemId(bits)),
            None => Err(InvalidUuidText),
        }
    }

    /// The 128-bit UUID value.
    pub fn as_u128(&self) -> (bits: u128)
        ensures
            bits == self.0,
    {
        self.0
    }

    /// The identifier as hyphenated text.
    pub fn to_string(&self) -> (text: String)
        ensures
            text@ == uuid_text(self.0),
    {
        print_uuid(self.0)
    }
}

impl Default for ItemId {
    fn default() -> (id: Self)
        ensures
            id.0 == 0,
    {
        ItemId(0)
    }
}

/// Identifier of a product.
#[derive(Clone, Copy, Debug, PartialEq, Eq, Structural, PartialOrd, Ord, Hash)]
pub struct ProductId(pub u128);

impl ProductId {
    /// Whether the identifier is a version 7 UUID.
    pub open spec fn is_v7(self) -> bool {
        uuid_version_number(self.0) == 7
    }

    /// A new time-ordered identifier.
    pub fn new() -> (id: Self)
        ensures
            id.is_v7(),
    {
        ProductId(fresh_v7_bits())
    }

    /// Accepts a 128-bit UUID value exactly when its version is 7.
    pub fn try_from(bits: u128) -> (r: Result<Self, UuidNotCompatible>)
        ensures
            uuid_version_number(bits) == 7 ==> r == Ok::<Self, UuidNotCompatible>(
                ProductId(bits),
            ),
            uuid_version_number(bits) != 7 ==> r == Err::<Self, UuidNotCompatible>(
                UuidNotCompatible(bits),
            ),
    {
        if read_version_number(bits) == 7 {
            Ok(ProductId(bits))
        } else {
            Err(UuidNotCompatible(bits))
        }
    }

    /// The identifier that a text spells. Any UUID is taken, of whatever
    /// version.
    pub fn from_str(text: &str) -> (r: Result<Self, InvalidUuidText>)
        ensures
            r == match uuid_parsed(text@) {
                Some(bits) => Ok::<Self, InvalidUuidText>(ProductId(bits)),
                None => Err::<Self, InvalidUuidText>(InvalidUuidText),
            },
    {
        match parse_uuid(text) {
            Some(bits) => Ok(ProductId(bits)),
            None => Err(InvalidUuidText),
        }
    }

    /// The 128-bit UUID value.
    pub fn as_u128(&self) -> (bits: u128)
        ensures
            bits == self.0,
    {
        self.0
    }

    /// The identifier as hyphenated text.
    pub fn to_string(&self) -> (text: String)
        ensures
            text@ == uuid_text(self.0),
    {
        print_uuid(self.0)
    }
}

impl Default for ProductId {
    fn default() -> (id: Self)
        ensures
            id.0 == 0,
    {
        ProductId(0)
    }
}

} // verus!
