//! The error taxonomy of the discovery pipeline.
//!
//! Configuration and send failures abort a session; parse and decode
//! failures only discard the offending datagram.

use vstd::prelude::*;

verus! {

/// The fields a device advertisement must carry, by name.
///
/// The decoder looks each of these up in the header mapping of a response;
/// the datagram's source address supplies the location out of band.
#[derive(Clone, Copy, PartialEq, Eq, Structural, Debug)]
pub enum FieldName {
    Id,
    Model,
    FwVer,
    Power,
    Support,
    Bright,
    ColorMode,
    Ct,
    Rgb,
    Hue,
    Sat,
    Name,
}

impl FieldName {
    /// The header name the field is looked up under.
    pub open spec fn key(self) -> Seq<char> {
        match self {
            FieldName::Id => "id"@,
            FieldName::Model => "model"@,
            FieldName::FwVer => "fw_ver"@,
            FieldName::Power => "power"@,
            FieldName::Support => "support"@,
            FieldName::Bright => "bright"@,
            FieldName::ColorMode => "color_mode"@,
            FieldName::Ct => "ct"@,
            FieldName::Rgb => "rgb"@,
            FieldName::Hue => "hue"@,
            FieldName::Sat => "sat"@,
            FieldName::Name => "name"@,
        }
    }
}

/// What went wrong while setting up a session or handling one datagram.
#[derive(Debug)]
pub enum YeeError {
    /// The local bind failed, the multicast join failed, or the group
    /// address given at construction is not a multicast address.
    Configuration,
    /// The single outbound search query could not be sent.
    TransportSend,
    /// The datagram's framing was malformed: no HTTP-style status line, or
    /// more headers than the parser's fixed bound.
    Parse,
    /// A required field was absent from the header mapping.
    FieldMissing { field: FieldName },
    /// A required field was present but its raw value did not parse into the
    /// field's type.
    FieldInvalid { field: FieldName, raw: String },
}

} // verus!
