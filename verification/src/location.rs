//! The structured record that the owned-records container variant stores:
//! one geolocation entry with its identifiers, coordinates and marker.

use vstd::prelude::*;

verus! {

/// An owned geolocation record.
///
/// The coordinate and accuracy fields carry IEEE-754 double-precision bit
/// patterns as opaque 64-bit words: the container only stores and returns
/// them, it never computes with them. A bit pattern of `0` is the encoding
/// of the neutral coordinate `0.0`.
pub struct Location {
    pub location_id: u32,
    pub latitude_bits: u64,
    pub longitude_bits: u64,
    pub accuracy_bits: u64,
    pub timestamp: i64,
    pub chat_id: u32,
    pub contact_id: u32,
    pub msg_id: u32,
    pub independent: bool,
    pub marker: Option<String>,
}

} // verus!
