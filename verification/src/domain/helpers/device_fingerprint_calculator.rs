//! Fingerprints of the devices that send commands.

use vstd::prelude::*;

verus! {

/// The fingerprint of events that were recorded before fingerprints were.
pub open spec fn default_fingerprint_text() -> Seq<char> {
    "default-fingerprint"@
}

/// A fingerprint for a command that just came in: the text of a random
/// version 4 UUID, drawn with `uuid::Uuid::new_v4`. The text is opaque to
/// the library, and nothing is claimed of it.
#[verifier::external_body]
pub fn calculate_device_fingerprint() -> String {
    uuid::Uuid::new_v4().to_string()
}

/// The fingerprint of events that were recorded before fingerprints were.
pub fn default_fingerprint() -> (fingerprint: String)
    ensures
        fingerprint@ == default_fingerprint_text(),
{
    "default-fingerprint".to_owned()
}

} // verus!
