use vstd::prelude::*;

verus! {

/// USB vendor identifier of the pedal.
pub const PEDAL_VENDOR_ID: u16 = 0x05f3;

/// USB product identifier of the pedal.
pub const PEDAL_PRODUCT_ID: u16 = 0x00ff;

/// Whether a device with these identifiers is the pedal: both must match
/// exactly.
pub open spec fn is_pedal_id(vendor_id: u16, product_id: u16) -> bool {
    vendor_id == PEDAL_VENDOR_ID && product_id == PEDAL_PRODUCT_ID
}

pub fn is_pedal(vendor_id: u16, product_id: u16) -> (r: bool)
    ensures
        r == is_pedal_id(vendor_id, product_id),
{
    vendor_id == PEDAL_VENDOR_ID && product_id == PEDAL_PRODUCT_ID
}

/// Picks the pedal out of a list of attached devices, given as
/// `(vendor_id, product_id)` pairs: the index of the first one that matches.
pub fn find_pedal(devices: &Vec<(u16, u16)>) -> (r: Option<usize>)
    ensures
        r matches Some(i) ==> i < devices@.len() && is_pedal_id(devices@[i as int].0, devices@[i as int].1)
            && forall|j: int| 0 <= j < i ==> !is_pedal_id(#[trigger] devices@[j].0, devices@[j].1),
        r is None ==> forall|j: int|
            0 <= j < devices@.len() ==> !is_pedal_id(#[trigger] devices@[j].0, devices@[j].1),
{
    let mut i: usize = 0;
    while i < devices.len()
        invariant
            i <= devices@.len(),
            forall|j: int| 0 <= j < i ==> !is_pedal_id(#[trigger] devices@[j].0, devices@[j].1),
        decreases devices@.len() - i,
    {
        let (vendor_id, product_id) = devices[i];
        if is_pedal(vendor_id, product_id) {
            return Some(i);
        }
        i = i + 1;
    }
    None
}

} // verus!
