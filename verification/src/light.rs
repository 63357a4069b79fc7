//! The decoded device record and the header-mapping decoder.
//!
//! A [`Light`] is built from a datagram's header mapping and the datagram's
//! source address, all twelve required fields present and well formed, or it
//! is not built at all: the first missing or malformed field aborts the
//! decode with an error naming that field.

use vstd::prelude::*;

use crate::addr::Endpoint;
use crate::err::FieldName;
use crate::err::YeeError;
use crate::fields::ColorMode;
use crate::fields::PowerStatus;
use crate::fields::Rgb;
use crate::fields::color_mode_of;
use crate::fields::distinct_views;
use crate::fields::parse_color_mode;
use crate::fields::parse_decimal;
use crate::fields::parse_power;
use crate::fields::parse_rgb;
use crate::fields::parse_support;
use crate::fields::parse_u16_field;
use crate::fields::parse_u8_field;
use crate::fields::power_of;
use crate::fields::rgb_of;
use crate::fields::seq_views;
use crate::fields::support_set;
use crate::parser::Headers;
use vstd::std_specs::cmp::PartialEqSpec;

verus! {

/// The mathematical shape of a decoded device record.
#[verifier::ext_equal]
pub ghost struct LightModel {
    pub location: Endpoint,
    pub id: Seq<char>,
    pub model: Seq<char>,
    pub fw_ver: u8,
    pub support: Set<Seq<char>>,
    pub power: PowerStatus,
    pub bright: u8,
    pub color_mode: ColorMode,
    pub ct: u16,
    pub rgb: Rgb,
    pub hue: u16,
    pub sat: u8,
    pub name: Seq<char>,
}

/// One discovered light, decoded from a single advertisement.
///
/// A value is immutable once built; its identity for equality and
/// deduplication is the `id` field alone, since a device keeps its
/// firmware-assigned `id` while its address may change.
pub struct Light {
    pub location: Endpoint,
    pub id: String,
    pub model: String,
    pub fw_ver: u8,
    pub support: Vec<String>,
    pub power: PowerStatus,
    pub bright: u8,
    pub color_mode: ColorMode,
    pub ct: u16,
    pub rgb: Rgb,
    pub hue: u16,
    pub sat: u8,
    pub name: String,
}

impl View for Light {
    type V = LightModel;

    open spec fn view(&self) -> LightModel {
        LightModel {
            location: self.location,
            id: self.id@,
            model: self.model@,
            fw_ver: self.fw_ver,
            support: seq_views(self.support@).to_set(),
            power: self.power,
            bright: self.bright,
            color_mode: self.color_mode,
            ct: self.ct,
            rgb: self.rgb,
            hue: self.hue,
            sat: self.sat,
            name: self.name@,
        }
    }
}

/// Whether the raw value of a field parses into the field's type.  The
/// string-valued fields accept anything; `support` accepts anything, an
/// empty value denoting an empty capability set.
pub open spec fn value_ok(f: FieldName, v: Seq<char>) -> bool {
    match f {
        FieldName::Id => true,
        FieldName::Model => true,
        FieldName::FwVer => parse_decimal(v, 255) is Some,
        FieldName::Power => power_of(v) is Some,
        FieldName::Support => true,
        FieldName::Bright => parse_decimal(v, 255) is Some,
        FieldName::ColorMode => color_mode_of(v) is Some,
        FieldName::Ct => parse_decimal(v, 65535) is Some,
        FieldName::Rgb => rgb_of(v) is Some,
        FieldName::Hue => parse_decimal(v, 65535) is Some,
        FieldName::Sat => parse_decimal(v, 255) is Some,
        FieldName::Name => true,
    }
}

/// How one field fails: absent from the mapping, or present with a value
/// that does not parse.
pub ghost enum DecodeError {
    Missing { field: FieldName },
    Invalid { field: FieldName, raw: Seq<char> },
}

/// The failure of one field against the mapping, if any.
pub open spec fn check_field(m: Map<Seq<char>, Seq<char>>, f: FieldName) -> Option<DecodeError> {
    if !m.contains_key(f.key()) {
        Some(DecodeError::Missing { field: f })
    } else if !value_ok(f, m[f.key()]) {
        Some(DecodeError::Invalid { field: f, raw: m[f.key()] })
    } else {
        None
    }
}

/// The first field failure in decode order — `id`, `model`, `fw_ver`,
/// `power`, `support`, `bright`, `color_mode`, `ct`, `rgb`, `hue`, `sat`,
/// `name` — or `None` when the whole mapping decodes.
pub open spec fn decode_error(m: Map<Seq<char>, Seq<char>>) -> Option<DecodeError> {
    if check_field(m, FieldName::Id) is Some {
        check_field(m, FieldName::Id)
    } else if check_field(m, FieldName::Model) is Some {
        check_field(m, FieldName::Model)
    } else if check_field(m, FieldName::FwVer) is Some {
        check_field(m, FieldName::FwVer)
    } else if check_field(m, FieldName::Power) is Some {
        check_field(m, FieldName::Power)
    } else if check_field(m, FieldName::Support) is Some {
        check_field(m, FieldName::Support)
    } else if check_field(m, FieldName::Bright) is Some {
        check_field(m, FieldName::Bright)
    } else if check_field(m, FieldName::ColorMode) is Some {
        check_field(m, FieldName::ColorMode)
    } else if check_field(m, FieldName::Ct) is Some {
        check_field(m, FieldName::Ct)
    } else if check_field(m, FieldName::Rgb) is Some {
        check_field(m, FieldName::Rgb)
    } else if check_field(m, FieldName::Hue) is Some {
        check_field(m, FieldName::Hue)
    } else if check_field(m, FieldName::Sat) is Some {
        check_field(m, FieldName::Sat)
    } else if check_field(m, FieldName::Name) is Some {
        check_field(m, FieldName::Name)
    } else {
        None
    }
}

/// The record a fully well-formed mapping decodes to, given the datagram's
/// source address.  Meaningful when [`decode_error`] is `None`.
pub open spec fn decode_model(m: Map<Seq<char>, Seq<char>>, location: Endpoint) -> LightModel {
    LightModel {
        location,
        id: m[FieldName::Id.key()],
        model: m[FieldName::Model.key()],
        fw_ver: parse_decimal(m[FieldName::FwVer.key()], 255)->Some_0 as u8,
        support: support_set(m[FieldName::Support.key()]),
        power: power_of(m[FieldName::Power.key()])->Some_0,
        bright: parse_decimal(m[FieldName::Bright.key()], 255)->Some_0 as u8,
        color_mode: color_mode_of(m[FieldName::ColorMode.key()])->Some_0,
        ct: parse_decimal(m[FieldName::Ct.key()], 65535)->Some_0 as u16,
        rgb: rgb_of(m[FieldName::Rgb.key()])->Some_0,
        hue: parse_decimal(m[FieldName::Hue.key()], 65535)->Some_0 as u16,
        sat: parse_decimal(m[FieldName::Sat.key()], 255)->Some_0 as u8,
        name: m[FieldName::Name.key()],
    }
}

/// Whether an error value reports the given field failure.
pub open spec fn reports(e: YeeError, d: DecodeError) -> bool {
    match d {
        DecodeError::Missing { field } => e == (YeeError::FieldMissing { field }),
        DecodeError::Invalid { field, raw } => e matches YeeError::FieldInvalid {
            field: f,
            raw: r,
        } && f == field && r@ == raw,
    }
}

impl Light {
    /// A record lists each supported capability once.
    pub open spec fn wf(self) -> bool {
        distinct_views(seq_views(self.support@))
    }

    /// Decodes a header mapping and a source address into a record.
    ///
    /// Succeeds exactly when every required field is present and parses; the
    /// record then holds each field's parsed value and the given location.
    /// Otherwise the first failing field in decode order is reported, and no
    /// record is built.
    pub fn from_fields(fields: &Headers, location: Endpoint) -> (r: Result<Light, YeeError>)
        ensures
            match r {
                Ok(l) => decode_error(fields@) is None && l@ == decode_model(fields@, location)
                    && l.wf(),
                Err(e) => decode_error(fields@) matches Some(d) && reports(e, d),
            },
    {
        let id = match fields.get("id") {
            Some(v) => v.clone(),
            None => {
                return Err(YeeError::FieldMissing { field: FieldName::Id });
            },
        };
        let model = match fields.get("model") {
            Some(v) => v.clone(),
            None => {
                return Err(YeeError::FieldMissing { field: FieldName::Model });
            },
        };
        let fw_ver = match fields.get("fw_ver") {
            Some(v) => match parse_u8_field(v.as_str()) {
                Some(n) => n,
                None => {
                    return Err(YeeError::FieldInvalid { field: FieldName::FwVer, raw: v.clone() });
                },
            },
            None => {
                return Err(YeeError::FieldMissing { field: FieldName::FwVer });
            },
        };
        let power = match fields.get("power") {
            Some(v) => match parse_power(v.as_str()) {
                Some(p) => p,
                None => {
                    return Err(YeeError::FieldInvalid { field: FieldName::Power, raw: v.clone() });
                },
            },
            None => {
                return Err(YeeError::FieldMissing { field: FieldName::Power });
            },
        };
        let support = match fields.get("support") {
            Some(v) => parse_support(v.as_str()),
            None => {
                return Err(YeeError::FieldMissing { field: FieldName::Support });
            },
        };
        let bright = match fields.get("bright") {
            Some(v) => match parse_u8_field(v.as_str()) {
                Some(n) => n,
                None => {
                    return Err(YeeError::FieldInvalid { field: FieldName::Bright, raw: v.clone() });
                },
            },
            None => {
                return Err(YeeError::FieldMissing { field: FieldName::Bright });
            },
        };
        let color_mode = match fields.get("color_mode") {
            Some(v) => match parse_color_mode(v.as_str()) {
                Some(c) => c,
                None => {
                    return Err(YeeError::FieldInvalid {
                        field: FieldName::ColorMode,
                        raw: v.clone(),
                    });
                },
            },
            None => {
                return Err(YeeError::FieldMissing { field: FieldName::ColorMode });
            },
        };
        let ct = match fields.get("ct") {
            Some(v) => match parse_u16_field(v.as_str()) {
                Some(n) => n,
                None => {
                    return Err(YeeError::FieldInvalid { field: FieldName::Ct, raw: v.clone() });
                },
            },
            None => {
                return Err(YeeError::FieldMissing { field: FieldName::Ct });
            },
        };
        let rgb = match fields.get("rgb") {
            Some(v) => match parse_rgb(v.as_str()) {
                Some(c) => c,
                None => {
                    return Err(YeeError::FieldInvalid { field: FieldName::Rgb, raw: v.clone() });
                },
            },
            None => {
                return Err(YeeError::FieldMissing { field: FieldName::Rgb });
            },
        };
        let hue = match fields.get("hue") {
            Some(v) => match parse_u16_field(v.as_str()) {
                Some(n) => n,
                None => {
                    return Err(YeeError::FieldInvalid { field: FieldName::Hue, raw: v.clone() });
                },
            },
            None => {
                return Err(YeeError::FieldMissing { field: FieldName::Hue });
            },
        };
        let sat = match fields.get("sat") {
            Some(v) => match parse_u8_field(v.as_str()) {
                Some(n) => n,
                None => {
                    return Err(YeeError::FieldInvalid { field: FieldName::Sat, raw: v.clone() });
                },
            },
            None => {
                return Err(YeeError::FieldMissing { field: FieldName::Sat });
            },
        };
        let name = match fields.get("name") {
            Some(v) => v.clone(),
            None => {
                return Err(YeeError::FieldMissing { field: FieldName::Name });
            },
        };
        let light = Light {
            location,
            id,
            model,
            fw_ver,
            support,
            power,
            bright,
            color_mode,
            ct,
            rgb,
            hue,
            sat,
            name,
        };
        proof {
            assert(light@ =~= decode_model(fields@, location));
        }
        Ok(light)
    }

    /// The endpoint the device can be contacted at.
    pub fn location(&self) -> (r: &Endpoint)
        ensures
            r == self.location,
    {
        &self.location
    }

    /// The device's firmware-assigned stable identity.
    pub fn id(&self) -> (r: &str)
        ensures
            r@ == self.id@,
    {
        self.id.as_str()
    }

    /// The device's model name.
    pub fn model(&self) -> (r: &str)
        ensures
            r@ == self.model@,
    {
        self.model.as_str()
    }

    /// The firmware version.
    pub fn fw_ver(&self) -> (r: u8)
        ensures
            r == self.fw_ver,
    {
        self.fw_ver
    }

    /// The supported capabilities, each once, in first-seen order.
    pub fn support(&self) -> (r: &Vec<String>)
        ensures
            r == self.support,
    {
        &self.support
    }

    /// Whether the light is switched on.
    pub fn power(&self) -> (r: &PowerStatus)
        ensures
            r == self.power,
    {
        &self.power
    }

    /// The brightness, nominally a percentage.
    pub fn bright(&self) -> (r: u8)
        ensures
            r == self.bright,
    {
        self.bright
    }

    /// The colour system the light is currently driven by.
    pub fn color_mode(&self) -> (r: &ColorMode)
        ensures
            r == self.color_mode,
    {
        &self.color_mode
    }

    /// The colour temperature; meaningful in `ColorTemperature` mode.
    pub fn ct(&self) -> (r: u16)
        ensures
            r == self.ct,
    {
        self.ct
    }

    /// The colour triple; meaningful in `Color` mode.
    pub fn rgb(&self) -> (r: &Rgb)
        ensures
            r == self.rgb,
    {
        &self.rgb
    }

    /// The hue; meaningful in `Hsv` mode.
    pub fn hue(&self) -> (r: u16)
        ensures
            r == self.hue,
    {
        self.hue
    }

    /// The saturation; meaningful in `Hsv` mode.
    pub fn sat(&self) -> (r: u8)
        ensures
            r == self.sat,
    {
        self.sat
    }

    /// The user-assigned display name; may be empty.
    pub fn name(&self) -> (r: &str)
        ensures
            r@ == self.name@,
    {
        self.name.as_str()
    }
}

/// A mapping in which every required field is present and parses decodes as
/// a whole: no error is reported for it.
pub proof fn lemma_complete_mapping_decodes(m: Map<Seq<char>, Seq<char>>)
    requires
        forall|g: FieldName| #[trigger] check_field(m, g) is None,
    ensures
        decode_error(m) is None,
{
}

/// Removing any single required field from an otherwise-complete mapping
/// makes the decode fail by reporting exactly that field as missing.
pub proof fn lemma_missing_field_reported(m: Map<Seq<char>, Seq<char>>, f: FieldName)
    requires
        !m.contains_key(f.key()),
        forall|g: FieldName| g != f ==> #[trigger] check_field(m, g) is None,
    ensures
        decode_error(m) == Some(DecodeError::Missing { field: f }),
{
}

/// Decoding the same mapping twice yields records that compare equal, even
/// when built independently: equality goes by the advertised identity.
pub proof fn lemma_decode_idempotent(
    l1: Light,
    l2: Light,
    m: Map<Seq<char>, Seq<char>>,
    location: Endpoint,
)
    requires
        l1@ == decode_model(m, location),
        l2@ == decode_model(m, location),
    ensures
        l1.eq_spec(&l2),
{
}

impl PartialEq for Light {
    /// Two records are the same device exactly when their `id`s agree,
    /// whatever their other fields hold.
    fn eq(&self, other: &Light) -> bool {
        self.id.eq(&other.id)
    }
}

impl vstd::std_specs::cmp::PartialEqSpecImpl for Light {
    open spec fn obeys_eq_spec() -> bool {
        true
    }

    open spec fn eq_spec(&self, other: &Light) -> bool {
        self.id@ == other.id@
    }
}

impl Eq for Light {

}

} // verus!
