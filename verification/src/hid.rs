//! The HID-specific part of the configuration: class descriptors, language
//! bases, and the HID attribute values.

use vstd::prelude::*;

pub mod descriptor_type;

verus! {

/// A HID language code paired with the attribute-id offset where that
/// language's localized strings begin.
#[derive(Clone, Copy, Debug, PartialEq, Eq, Structural)]
pub struct LanguageBase {
    /// Language identifier from the HID-defined numbering space.
    pub language: u16,
    /// Attribute-id offset of the language's localized strings.
    pub base: u16,
}

/// Mathematical model of a [`ClassDescriptor`]: its kind and payload bytes.
#[verifier::ext_equal]
pub struct ClassDescriptorV {
    /// The descriptor kind byte.
    pub kind: u8,
    /// The raw descriptor payload.
    pub data: Seq<u8>,
}

/// Kind and payload of a HID class descriptor. The payload is the raw
/// descriptor bytes, opaque to this crate.
#[derive(Clone, Debug, PartialEq)]
pub struct ClassDescriptor(pub u8, pub Vec<u8>);

impl DeepView for ClassDescriptor {
    type V = ClassDescriptorV;

    open spec fn deep_view(&self) -> ClassDescriptorV {
        ClassDescriptorV { kind: self.0, data: self.1@ }
    }
}

impl ClassDescriptor {
    /// Create a new report descriptor.
    pub fn report(data: Vec<u8>) -> (r: Self)
        ensures
            r.deep_view() == (ClassDescriptorV { kind: descriptor_type::REPORT, data: data@ }),
    {
        ClassDescriptor(descriptor_type::REPORT, data)
    }

    /// Create a new physical descriptor.
    pub fn physical(data: Vec<u8>) -> (r: Self)
        ensures
            r.deep_view() == (ClassDescriptorV { kind: descriptor_type::PHYSICAL, data: data@ }),
    {
        ClassDescriptor(descriptor_type::PHYSICAL, data)
    }
}

/// Mathematical model of the HID [`Configuration`].
#[verifier::ext_equal]
pub struct ConfigurationV {
    /// Device subclass, such as mouse or keyboard.
    pub device_subclass: u8,
    /// 8-bit country code from the USB HID specification.
    pub country_code: u8,
    /// Whether the device supports a virtual cable.
    pub virtual_cable: bool,
    /// Whether the device initiates reconnection.
    pub reconnect_initiate: bool,
    /// Report and physical descriptors, in stored order.
    pub class_descriptors: Seq<ClassDescriptorV>,
    /// Base ids for additional languages, in stored order.
    pub additional_languages: Seq<LanguageBase>,
    /// Whether the device is battery-powered, if known.
    pub battery_power: Option<bool>,
    /// Whether the device can wake the host, if known.
    pub remote_wake: Option<bool>,
    /// Supervision timeout in baseband slots, if given.
    pub supervision_timeout: Option<u16>,
    /// Whether the device is normally connectable, if known.
    pub normally_connectable: Option<bool>,
    /// Whether the device is a boot device.
    pub boot_device: bool,
    /// SSR host maximum latency, if given.
    pub ssr_host_max_latency: Option<u16>,
    /// SSR host minimum timeout, if given.
    pub ssr_host_min_timeout: Option<u16>,
}

/// Configuration of the HID-specific attributes of the service record.
#[derive(Debug)]
pub struct Configuration {
    /// Device subclass, such as mouse, keyboard, etc.
    /// Required.
    pub device_subclass: u8,
    /// 8-bit country code, as defined in the USB HID specification.
    /// May be zero if the device is not localized.
    pub country_code: u8,
    /// Whether the device supports a virtual cable.
    /// Required.
    pub virtual_cable: bool,
    /// Whether the device initiates reconnection.
    /// Required.
    pub reconnect_initiate: bool,
    /// Descriptors for reports.
    pub class_descriptors: Vec<ClassDescriptor>,
    /// Base ids for additional languages supported.
    pub additional_languages: Vec<LanguageBase>,
    /// Optional boolean indicating whether this device is battery-powered.
    pub battery_power: Option<bool>,
    /// Optional boolean indicating whether this device can wake the host.
    pub remote_wake: Option<bool>,
    /// Optional supervision timeout, in units of 625 microseconds.
    pub supervision_timeout: Option<u16>,
    /// Optional boolean indicating whether this device is normally connectable.
    pub normally_connectable: Option<bool>,
    /// Boolean indicating whether this device is a boot device.
    ///
    /// Keyboards and pointing devices must be boot devices.
    /// Required.
    pub boot_device: bool,
    /// Optional SSR host maximum latency, in units of 625 microseconds.
    pub ssr_host_max_latency: Option<u16>,
    /// Optional SSR host minimum timeout, in units of 625 microseconds.
    pub ssr_host_min_timeout: Option<u16>,
}

impl View for Configuration {
    type V = ConfigurationV;

    open spec fn view(&self) -> ConfigurationV {
        ConfigurationV {
            device_subclass: self.device_subclass,
            country_code: self.country_code,
            virtual_cable: self.virtual_cable,
            reconnect_initiate: self.reconnect_initiate,
            class_descriptors: self.class_descriptors.deep_view(),
            additional_languages: self.additional_languages@,
            battery_power: self.battery_power,
            remote_wake: self.remote_wake,
            supervision_timeout: self.supervision_timeout,
            normally_connectable: self.normally_connectable,
            boot_device: self.boot_device,
            ssr_host_max_latency: self.ssr_host_max_latency,
            ssr_host_min_timeout: self.ssr_host_min_timeout,
        }
    }
}

impl Default for Configuration {
    /// An unlocalized, non-boot configuration with no descriptors, no
    /// additional languages and no optional values.
    fn default() -> (r: Self)
        ensures
            r@ == (ConfigurationV {
                device_subclass: 0,
                country_code: 0,
                virtual_cable: false,
                reconnect_initiate: false,
                class_descriptors: Seq::empty(),
                additional_languages: Seq::empty(),
                battery_power: None,
                remote_wake: None,
                supervision_timeout: None,
                normally_connectable: None,
                boot_device: false,
                ssr_host_max_latency: None,
                ssr_host_min_timeout: None,
            }),
    {
        let r = Configuration {
            device_subclass: 0,
            country_code: 0,
            virtual_cable: false,
            reconnect_initiate: false,
            class_descriptors: Vec::new(),
            additional_languages: Vec::new(),
            battery_power: None,
            remote_wake: None,
            supervision_timeout: None,
            normally_connectable: None,
            boot_device: false,
            ssr_host_max_latency: None,
            ssr_host_min_timeout: None,
        };
        proof {
            assert(r@ =~= (ConfigurationV {
                device_subclass: 0,
                country_code: 0,
                virtual_cable: false,
                reconnect_initiate: false,
                class_descriptors: Seq::empty(),
                additional_languages: Seq::empty(),
                battery_power: None,
                remote_wake: None,
                supervision_timeout: None,
                normally_connectable: None,
                boot_device: false,
                ssr_host_max_latency: None,
                ssr_host_min_timeout: None,
            }));
        }
        r
    }
}

} // verus!
