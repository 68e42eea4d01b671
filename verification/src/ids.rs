//! The fixed numeric registries of the Bluetooth SDP/HID schema: attribute
//! ids, protocol ids, PSM channel ids, and service-class UUIDs.
//!
//! These values are assigned by the Bluetooth SDP and HID specifications and
//! never change at runtime; the dispatch tables of the codec must reproduce
//! them exactly for wire interoperability.

use vstd::prelude::*;

verus! {

/// Attribute id of the service-class id list.
pub const SERVICE_CLASS_ID_LIST: u16 = 0x0001;

/// Attribute id of the protocol descriptor list.
pub const PROTOCOL_DESCRIPTOR_LIST: u16 = 0x0004;

/// Attribute id of the browse group list.
pub const BROWSE_GROUP_LIST: u16 = 0x0005;

/// Attribute id of the language base attribute id list.
pub const LANGUAGE_BASE_ATTRIBUTE_ID_LIST: u16 = 0x0006;

/// Attribute id of the Bluetooth profile descriptor list.
pub const BLUETOOTH_PROFILE_DESCRIPTOR_LIST: u16 = 0x0009;

/// Attribute id of the additional protocol descriptor lists.
pub const ADDITIONAL_PROTOCOL_DESCRIPTOR_LISTS: u16 = 0x000d;

/// Attribute id of the service name, at the primary language base offset.
pub const SERVICE_NAME: u16 = 0x0100;

/// Attribute id of the service description, at the primary language base offset.
pub const SERVICE_DESCRIPTION: u16 = 0x0101;

/// Attribute id of the provider name, at the primary language base offset.
pub const PROVIDER_NAME: u16 = 0x0102;

/// Attribute id of the HID parser version.
pub const HID_PARSER_VERSION: u16 = 0x0201;

/// Attribute id of the HID device subclass.
pub const HID_DEVICE_SUBCLASS: u16 = 0x0202;

/// Attribute id of the HID country code.
pub const HID_COUNTRY_CODE: u16 = 0x0203;

/// Attribute id of the HID virtual cable flag.
pub const HID_VIRTUAL_CABLE: u16 = 0x0204;

/// Attribute id of the HID reconnect initiate flag.
pub const HID_RECONNECT_INITIATE: u16 = 0x0205;

/// Attribute id of the HID class descriptor list.
pub const HID_DESCRIPTOR_LIST: u16 = 0x0206;

/// Attribute id of the HID language base id list.
pub const HID_LANG_BASE_ATTRIBUTE: u16 = 0x0207;

/// Attribute id of the HID battery power flag.
pub const HID_BATTERY_POWER: u16 = 0x0209;

/// Attribute id of the HID remote wake flag.
pub const HID_REMOTE_WAKE: u16 = 0x020a;

/// Attribute id of the HID supervision timeout.
pub const HID_SUPERVISION_TIMEOUT: u16 = 0x020c;

/// Attribute id of the HID normally connectable flag.
pub const HID_NORMALLY_CONNECTABLE: u16 = 0x020d;

/// Attribute id of the HID boot device flag.
pub const HID_BOOT_DEVICE: u16 = 0x020e;

/// Attribute id of the HID SSR host maximum latency.
pub const HID_SSR_HOST_MAX_LATENCY: u16 = 0x020f;

/// Attribute id of the HID SSR host minimum timeout.
pub const HID_SSR_HOST_MIN_TIMEOUT: u16 = 0x0210;

/// 16-bit service-class UUID of the HID service.
pub const HID_SERVICE_CLASS: u16 = 0x1124;

/// 16-bit service-class UUID of the public browse group.
pub const PUBLIC_BROWSE_GROUP: u16 = 0x1002;

/// 16-bit protocol UUID of L2CAP.
pub const L2CAP_PROTOCOL: u16 = 0x0100;

/// 16-bit protocol UUID of the HID protocol.
pub const HID_PROTOCOL: u16 = 0x0011;

/// PSM channel id of the HID control channel.
pub const HID_CONTROL_PSM: u16 = 0x0011;

/// PSM channel id of the HID interrupt channel.
pub const HID_INTERRUPT_PSM: u16 = 0x0013;

/// The reserved attribute-id base offset of the primary language.
pub const PRIMARY_LANGUAGE_BASE: u16 = 0x0100;

/// The fixed HID parser version that every record advertises.
pub const HID_PARSER_VERSION_VALUE: u16 = 0x0111;

/// The Bluetooth base UUID, `00000000-0000-1000-8000-00805f9b34fb`.
pub const BASE_UUID: u128 = 0x00000000_0000_1000_8000_00805f9b34fb;

/// The full 128-bit UUID that a 16-bit Bluetooth-assigned UUID stands for:
/// the short value takes the top of the first group of the base UUID.
pub open spec fn spec_uuid_from_u16(short: u16) -> u128 {
    BASE_UUID | ((short as u128) << 96)
}

/// The full 128-bit UUID that a 16-bit Bluetooth-assigned UUID stands for.
pub fn uuid_from_u16(short: u16) -> (r: u128)
    ensures
        r == spec_uuid_from_u16(short),
{
    BASE_UUID | ((short as u128) << 96)
}

} // verus!
