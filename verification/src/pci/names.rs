//! The names of vendors, devices and classes.

use vstd::prelude::*;

use pci_ids::FromId;

verus! {

/// What the database of PCI identifiers calls a class.
pub uninterp spec fn class_name_of(class: u8) -> Option<Seq<char>>;

/// What the database of PCI identifiers calls a subclass of a class.
pub uninterp spec fn subclass_name_of(class: u8, subclass: u8) -> Option<Seq<char>>;

/// What the database of PCI identifiers calls the vendor of a device, and the device.
pub uninterp spec fn device_names_of(vendor: u16, device: u16) -> Option<(Seq<char>, Seq<char>)>;

/// A name that may be missing, as text.
pub open spec fn text_of(name: Option<&'static str>) -> Option<Seq<char>> {
    match name {
        Some(s) => Some(s@),
        None => None,
    }
}

/// Two names that may be missing, as text.
pub open spec fn texts_of(names: Option<(&'static str, &'static str)>) -> Option<
    (Seq<char>, Seq<char>),
> {
    match names {
        Some(n) => Some((n.0@, n.1@)),
        None => None,
    }
}

/// The name of a class: `pci_ids::Class::from_id` and the class's `name`. What the database
/// holds is fixed when the crate is built; which names it holds is not stated.
#[verifier::external_body]
pub(crate) fn class_name(class: u8) -> (r: Option<&'static str>)
    ensures
        text_of(r) == class_name_of(class),
{
    pci_ids::Class::from_id(class).map(|c| c.name())
}

/// The name of a subclass: `pci_ids::Subclass::from_cid_sid` and the subclass's `name`.
/// There is none for a class that is not in the database.
#[verifier::external_body]
pub(crate) fn subclass_name(class: u8, subclass: u8) -> (r: Option<&'static str>)
    ensures
        text_of(r) == subclass_name_of(class, subclass),
{
    pci_ids::Subclass::from_cid_sid(class, subclass).map(|s| s.name())
}

/// The names of a device's vendor and of the device: `pci_ids::Device::from_vid_pid`, the
/// device's `vendor` with its `name`, and the device's `name`.
#[verifier::external_body]
pub(crate) fn device_names(vendor: u16, device: u16) -> (r: Option<(&'static str, &'static str)>)
    ensures
        texts_of(r) == device_names_of(vendor, device),
{
    pci_ids::Device::from_vid_pid(vendor, device).map(|d| (d.vendor().name(), d.name()))
}

} // verus!
