//! Choosing the adapter on the bus and planning what is read from it: the
//! identity of an adapter, the interface that carries the display bulk
//! endpoint, and the EDID blocks to read.
use vstd::prelude::*;

use crate::{EDID_BLOCK_SIZE, EDID_MAX_BLOCKS, PRODUCT_ID_JUA365, VENDOR_ID};

verus! {

/// What is listed of one USB device of the adapter's vendor.
#[derive(Clone, Debug, Eq, PartialEq)]
pub struct T6DeviceInfo {
    pub bus_number: u8,
    pub address: u8,
    pub vendor_id: u16,
    pub product_id: u16,
    pub class_code: u8,
    pub sub_class_code: u8,
    pub protocol_code: u8,
}

/// Whether a device is listed: any device of the adapter's vendor.
pub fn is_listed_device(vendor_id: u16) -> (b: bool)
    ensures
        b == (vendor_id == VENDOR_ID),
{
    vendor_id == VENDOR_ID
}

/// Whether a device is the adapter that is opened.
pub fn is_supported_adapter(vendor_id: u16, product_id: u16) -> (b: bool)
    ensures
        b == (vendor_id == VENDOR_ID && product_id == PRODUCT_ID_JUA365),
{
    vendor_id == VENDOR_ID && product_id == PRODUCT_ID_JUA365
}

/// One alternate setting of an interface: its number, and whether it has
/// the display bulk OUT endpoint.
#[derive(Clone, Copy, Debug, PartialEq, Eq)]
pub struct InterfaceSetting {
    pub interface_number: u8,
    pub has_bulk_out: bool,
}

/// The first setting, over the interfaces in order, that has the bulk OUT
/// endpoint, among the interfaces from `i` and, within interface `i`, the
/// settings from `j`.
pub open spec fn first_bulk_setting(interfaces: Seq<Seq<InterfaceSetting>>, i: int, j: int) -> Option<u8>
    decreases interfaces.len() - i, interfaces[i].len() - j,
{
    if i < 0 || i >= interfaces.len() || j < 0 {
        None
    } else if j >= interfaces[i].len() {
        first_bulk_setting(interfaces, i + 1, 0)
    } else if interfaces[i][j].has_bulk_out {
        Some(interfaces[i][j].interface_number)
    } else {
        first_bulk_setting(interfaces, i, j + 1)
    }
}

/// The interface to claim: the first with the bulk OUT endpoint, else the
/// first setting of the first interface, if it has one.
pub open spec fn spec_preferred_interface(interfaces: Seq<Seq<InterfaceSetting>>) -> Option<u8> {
    match first_bulk_setting(interfaces, 0, 0) {
        Some(n) => Some(n),
        None => if interfaces.len() > 0 && interfaces[0].len() > 0 {
            Some(interfaces[0][0].interface_number)
        } else {
            None
        },
    }
}

/// The views of the settings of each interface.
pub open spec fn settings_view(interfaces: Seq<Vec<InterfaceSetting>>) -> Seq<Seq<InterfaceSetting>> {
    interfaces.map_values(|v: Vec<InterfaceSetting>| v@)
}

/// Chooses the interface to claim from the active configuration.
pub fn preferred_interface(interfaces: &[Vec<InterfaceSetting>]) -> (n: Option<u8>)
    ensures
        n == spec_preferred_interface(settings_view(interfaces@)),
{
    let ghost all = settings_view(interfaces@);
    let mut i: usize = 0;
    while i < interfaces.len()
        invariant
            all == settings_view(interfaces@),
            0 <= i <= interfaces@.len(),
            first_bulk_setting(all, 0, 0) == first_bulk_setting(all, i as int, 0),
        decreases interfaces@.len() - i,
    {
        let settings = &interfaces[i];
        assert(settings@ == all[i as int]);
        let mut j: usize = 0;
        while j < settings.len()
            invariant
                all == settings_view(interfaces@),
                0 <= i < interfaces@.len(),
                settings@ == all[i as int],
                0 <= j <= settings@.len(),
                first_bulk_setting(all, 0, 0) == first_bulk_setting(all, i as int, j as int),
            decreases settings@.len() - j,
        {
            if settings[j].has_bulk_out {
                return Some(settings[j].interface_number);
            }
            j = j + 1;
        }
        i = i + 1;
    }
    if interfaces.len() > 0 && interfaces[0].len() > 0 {
        assert(interfaces[0]@ == all[0]);
        Some(interfaces[0][0].interface_number)
    } else {
        None
    }
}

/// How many EDID blocks are read: the base block and its declared
/// extensions, at most `EDID_MAX_BLOCKS`.
pub open spec fn spec_edid_block_count(extension_count: u8) -> int {
    if extension_count + 1 < EDID_MAX_BLOCKS {
        extension_count + 1
    } else {
        EDID_MAX_BLOCKS as int
    }
}

/// The offsets of the EDID blocks read after the base block (byte 126 of
/// which gives the extension count): 128 bytes apart from 128.
pub fn edid_extension_offsets(extension_count: u8) -> (offsets: Vec<u16>)
    ensures
        offsets@.len() == spec_edid_block_count(extension_count) - 1,
        forall|k: int| 0 <= k < offsets@.len() ==> #[trigger] offsets@[k] == 128 * (k + 1),
{
    let count: usize = if (extension_count as usize) + 1 < EDID_MAX_BLOCKS {
        extension_count as usize + 1
    } else {
        EDID_MAX_BLOCKS
    };
    let mut offsets: Vec<u16> = Vec::new();
    let mut block_index: usize = 1;
    while block_index < count
        invariant
            count == spec_edid_block_count(extension_count),
            1 <= block_index <= count,
            count <= 4,
            offsets@.len() == block_index - 1,
            forall|k: int| 0 <= k < offsets@.len() ==> #[trigger] offsets@[k] == 128 * (k + 1),
        decreases count - block_index,
    {
        offsets.push((block_index * EDID_BLOCK_SIZE) as u16);
        block_index = block_index + 1;
    }
    offsets
}

} // verus!
