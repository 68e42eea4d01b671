//! A bidirectional codec between a Bluetooth SDP attribute record for the
//! HID profile and a strongly typed, validated in-memory configuration.
//!
//! The wire side of the codec is a tagged-value tree ([`tag::Tag`]): a generic
//! parser/serializer outside this crate turns raw bytes into such a tree and
//! back. This crate decodes a record tree into a draft
//! ([`PartialConfiguration`]), validates the draft into a [`Configuration`],
//! and encodes a [`Configuration`] back into a record tree in the fixed,
//! protocol-mandated attribute order.

pub mod encoding;
pub mod from_sdp;
pub mod hid;
pub mod ids;
pub mod language;
pub mod laws;
pub mod tag;
pub mod text;
pub mod to_sdp;

use vstd::prelude::*;

verus! {

/// A pair of numeric identifiers for one human language, drawn from two
/// independent numbering spaces.
#[derive(Clone, Copy, Debug, PartialEq, Eq, Structural)]
pub struct LanguageCode {
    /// Language identifier from ISO 639:1988 (E/F).
    pub iso_code: u16,
    /// Language identifier from the HID-defined numbering space.
    pub hid_code: u16,
}

/// Mathematical model of a [`Configuration`].
#[verifier::ext_equal]
pub struct ConfigurationV {
    /// Primary language of the device.
    pub primary_language: LanguageCode,
    /// MIBenum character-encoding id from IANA's database.
    pub encoding: u16,
    /// Service name, if given.
    pub service_name: Option<Seq<char>>,
    /// Service description, if given.
    pub service_description: Option<Seq<char>>,
    /// Provider name, if given.
    pub provider_name: Option<Seq<char>>,
    /// Profile version.
    pub version: u16,
    /// The HID-specific configuration.
    pub hid: hid::ConfigurationV,
}

/// Configuration for a HID Bluetooth profile service record.
///
/// All required fields are guaranteed present by construction: a decoded
/// record becomes a `Configuration` only through validation of the draft.
#[derive(Debug)]
pub struct Configuration {
    /// Primary language of the device.
    ///
    /// The primary language of a Bluetooth HID device is assigned the offset
    /// 0x0100 and is advertised in the general HID profile.
    pub primary_language: LanguageCode,
    /// MIBenum character-encoding id from IANA's database.
    pub encoding: u16,
    /// Service name, if given.
    pub service_name: Option<String>,
    /// Service description, if given.
    pub service_description: Option<String>,
    /// Provider name, if given.
    pub provider_name: Option<String>,
    /// Profile version.
    pub version: u16,
    /// The HID-specific configuration.
    pub hid: hid::Configuration,
}

impl View for Configuration {
    type V = ConfigurationV;

    open spec fn view(&self) -> ConfigurationV {
        ConfigurationV {
            primary_language: self.primary_language,
            encoding: self.encoding,
            service_name: self.service_name.deep_view(),
            service_description: self.service_description.deep_view(),
            provider_name: self.provider_name.deep_view(),
            version: self.version,
            hid: self.hid@,
        }
    }
}

} // verus!
