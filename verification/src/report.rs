//! The record kept for one submission, and the error a submission can meet.

use candid::Principal;
use vstd::prelude::*;

verus! {

/// `candid::Principal`, the identity of a caller. The store never looks
/// inside one: it only keeps the value it was handed.
#[verifier::external_type_specification]
#[verifier::external_body]
pub struct ExPrincipal(Principal);

/// One stored report.
///
/// Coordinates are kept as the bit patterns of the submitted 64-bit floats,
/// so that what comes back is what went in, whatever the value was.
#[derive(Clone, Copy, Debug, PartialEq, Eq)]
pub struct GarbageReport {
    /// Identifier given by the store; no two reports share one.
    pub id: u64,
    /// SHA-256 digest of the submitted picture.
    pub image_hash: [u8; 32],
    /// Bit pattern of the latitude.
    pub latitude: u64,
    /// Bit pattern of the longitude.
    pub longitude: u64,
    /// Who submitted the report.
    pub reporter: Principal,
    /// When the report was submitted, as the host's clock gave it.
    pub timestamp: u64,
}

/// What a report says, with the digest as a sequence of bytes.
pub struct ReportData {
    pub id: u64,
    pub image_hash: Seq<u8>,
    pub latitude: u64,
    pub longitude: u64,
    pub reporter: Principal,
    pub timestamp: u64,
}

impl View for GarbageReport {
    type V = ReportData;

    open spec fn view(&self) -> ReportData {
        ReportData {
            id: self.id,
            image_hash: self.image_hash@,
            latitude: self.latitude,
            longitude: self.longitude,
            reporter: self.reporter,
            timestamp: self.timestamp,
        }
    }
}

/// Why a submission was turned down.
#[derive(Clone, Copy, Debug, PartialEq, Eq, Structural)]
pub enum StoreError {
    /// The submission carried no picture.
    InvalidInput,
}

impl StoreError {
    /// The text shown to the caller.
    pub open spec fn spec_message(self) -> Seq<char> {
        "image data cannot be empty"@
    }

    /// The text shown to the caller.
    pub fn message(&self) -> (text: String)
        ensures
            text@ == self.spec_message(),
    {
        "image data cannot be empty".to_owned()
    }
}

} // verus!
