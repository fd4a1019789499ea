//! Errors of PCI drivers.

use vstd::prelude::*;
use vstd::string::*;

use crate::pci::text;

verus! {

/// An enum of PciErrors
/// typically carrying the device's id as an u16.
#[derive(Clone, Copy, Debug, PartialEq, Eq, Structural)]
pub enum PciError {
    General(u16),
    NoBar(u16),
    NoCapPtr(u16),
    NoVirtioCaps(u16),
}

/// A number in hexadecimal, with small letters.
pub open spec fn small_hex(n: int) -> Seq<char>
    decreases n,
{
    if n < 16 {
        small_digit(n)
    } else {
        small_hex(n / 16) + small_digit(n % 16)
    }
}

/// A digit, with small letters.
pub open spec fn small_digit(d: int) -> Seq<char> {
    if d < 10 {
        text::digit(d)
    } else if d == 10 {
        "a"@
    } else if d == 11 {
        "b"@
    } else if d == 12 {
        "c"@
    } else if d == 13 {
        "d"@
    } else if d == 14 {
        "e"@
    } else {
        "f"@
    }
}

fn push_small_hex(out: &mut String, n: u64)
    ensures
        final(out)@ == old(out)@ + small_hex(n as int),
    decreases n,
{
    if n >= 16 {
        push_small_hex(out, n / 16);
    }
    let d: u64 = n % 16;
    if d < 10 {
        text::push_in_base(out, d, 16);
    } else if d == 10 {
        out.append("a");
    } else if d == 11 {
        out.append("b");
    } else if d == 12 {
        out.append("c");
    } else if d == 13 {
        out.append("d");
    } else if d == 14 {
        out.append("e");
    } else {
        out.append("f");
    }
    assert(out@ =~= old(out)@ + small_hex(n as int));
}

impl PciError {
    /// The identifier of the device, and the reason.
    pub open spec fn parts(self) -> (u16, Seq<char>) {
        match self {
            PciError::General(id) => (id, ". Due to unknown reasosn!"@),
            PciError::NoBar(id) => (id, ". Reason: No BAR's found."@),
            PciError::NoCapPtr(id) => (id, ". Reason: No Capabilities pointer found."@),
            PciError::NoVirtioCaps(id) => (id, ". Reason: No Virtio capabilities were found."@),
        }
    }

    /// The error in words.
    pub fn message(&self) -> (r: String)
        ensures
            r@ == "Driver failed to initialize device with id: 0x"@ + small_hex(
                self.parts().0 as int,
            ) + self.parts().1,
    {
        let (id, reason) = match *self {
            PciError::General(id) => (id, ". Due to unknown reasosn!"),
            PciError::NoBar(id) => (id, ". Reason: No BAR's found."),
            PciError::NoCapPtr(id) => (id, ". Reason: No Capabilities pointer found."),
            PciError::NoVirtioCaps(id) => (id, ". Reason: No Virtio capabilities were found."),
        };
        let mut out = String::new();
        out.append("Driver failed to initialize device with id: 0x");
        push_small_hex(&mut out, id as u64);
        out.append(reason);
        assert(out@ =~= "Driver failed to initialize device with id: 0x"@ + small_hex(
            self.parts().0 as int,
        ) + self.parts().1);
        out
    }
}

} // verus!
