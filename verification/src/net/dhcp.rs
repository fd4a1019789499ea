//! What becomes of the interface when its address is configured, or lost.

use vstd::prelude::*;

verus! {

/// An address with the length of its network's prefix.
#[derive(Clone, Copy, Debug, PartialEq, Eq, Structural)]
pub struct Cidr {
    pub address: u32,
    pub prefix: u8,
}

/// What the configuration protocol tells.
pub enum DhcpEvent {
    Configured { address: Cidr, router: Option<u32>, dns_servers: Vec<u32> },
    Deconfigured,
}

/// What the configuration protocol tells, over sequences.
pub enum Event {
    Configured { address: Cidr, router: Option<u32>, dns_servers: Seq<u32> },
    Deconfigured,
}

impl View for DhcpEvent {
    type V = Event;

    open spec fn view(&self) -> Event {
        match self {
            DhcpEvent::Configured { address, router, dns_servers } => Event::Configured {
                address: *address,
                router: *router,
                dns_servers: dns_servers@,
            },
            DhcpEvent::Deconfigured => Event::Deconfigured,
        }
    }
}

/// What is to be done with the interface.
pub enum NetAction {
    /// The interface has this address, in place of its first.
    SetAddress(Cidr),
    AddDefaultRoute(u32),
    RemoveDefaultRoute,
    /// Give up the socket for names.
    RemoveDns,
    /// Make a socket for names that asks these servers.
    AddDns(Vec<u32>),
}

/// What is to be done with the interface, over sequences.
pub enum Act {
    SetAddress(Cidr),
    AddDefaultRoute(u32),
    RemoveDefaultRoute,
    RemoveDns,
    AddDns(Seq<u32>),
}

impl View for NetAction {
    type V = Act;

    open spec fn view(&self) -> Act {
        match self {
            NetAction::SetAddress(c) => Act::SetAddress(*c),
            NetAction::AddDefaultRoute(r) => Act::AddDefaultRoute(*r),
            NetAction::RemoveDefaultRoute => Act::RemoveDefaultRoute,
            NetAction::RemoveDns => Act::RemoveDns,
            NetAction::AddDns(s) => Act::AddDns(s@),
        }
    }
}

/// A list of actions, over sequences.
pub open spec fn acts(list: Seq<NetAction>) -> Seq<Act> {
    list.map_values(|a: NetAction| a@)
}

/// Giving up the socket for names, if there is one.
pub open spec fn dns_removed(has_dns: bool) -> Seq<Act> {
    if has_dns {
        seq![Act::RemoveDns]
    } else {
        Seq::empty()
    }
}

/// Whether the interface has an address.
pub open spec fn is_configured(current: Option<u32>) -> bool {
    current matches Some(a) && a != 0
}

/// No address.
pub open spec fn unspecified() -> Cidr {
    Cidr { address: 0, prefix: 0 }
}

/// What an event asks for, given the interface's address and whether there is a socket for
/// names. A configuration without servers leaves that socket as it is; a loss counts only
/// where there was something to lose.
pub open spec fn actions_for(event: Event, current: Option<u32>, has_dns: bool) -> Seq<Act> {
    match event {
        Event::Configured { address, router, dns_servers } => seq![
            Act::SetAddress(address),
            match router {
                Some(r) => Act::AddDefaultRoute(r),
                None => Act::RemoveDefaultRoute,
            },
        ] + (if dns_servers.len() > 0 {
            dns_removed(has_dns) + seq![Act::AddDns(dns_servers)]
        } else {
            Seq::empty()
        }),
        Event::Deconfigured => if is_configured(current) {
            seq![Act::SetAddress(unspecified()), Act::RemoveDefaultRoute] + dns_removed(has_dns)
        } else {
            Seq::empty()
        },
    }
}

/// Decides what an event asks for.
pub fn handle_event(event: DhcpEvent, current: Option<u32>, has_dns: bool) -> (r: Vec<NetAction>)
    ensures
        acts(r@) == actions_for(event@, current, has_dns),
{
    let mut out: Vec<NetAction> = Vec::new();
    let ghost goal = actions_for(event@, current, has_dns);
    match event {
        DhcpEvent::Configured { address, router, dns_servers } => {
            out.push(NetAction::SetAddress(address));
            match router {
                Some(r) => out.push(NetAction::AddDefaultRoute(r)),
                None => out.push(NetAction::RemoveDefaultRoute),
            }
            if dns_servers.len() > 0 {
                if has_dns {
                    out.push(NetAction::RemoveDns);
                }
                out.push(NetAction::AddDns(dns_servers));
            }
        },
        DhcpEvent::Deconfigured => {
            let configured: bool = match current {
                Some(a) => a != 0,
                None => false,
            };
            if configured {
                out.push(NetAction::SetAddress(Cidr { address: 0, prefix: 0 }));
                out.push(NetAction::RemoveDefaultRoute);
                if has_dns {
                    out.push(NetAction::RemoveDns);
                }
            }
        },
    }
    assert(acts(out@) =~= goal);
    out
}

/// What becomes of the interface's addresses: the first is replaced, or one is added where
/// there is none and there is room.
pub open spec fn addresses_after(addrs: Seq<Cidr>, cidr: Cidr, configured: bool, room: int) -> Seq<
    Cidr,
> {
    if addrs.len() > 0 {
        addrs.update(0, cidr)
    } else if configured && addrs.len() < room {
        addrs.push(cidr)
    } else {
        addrs
    }
}

/// Changes the interface's addresses, and says whether that could be done. Only a
/// configuration adds an address; the loss of one replaces it.
pub fn update_ip_addrs(addrs: &mut Vec<Cidr>, cidr: Cidr, configured: bool, room: usize) -> (r: bool)
    ensures
        final(addrs)@ == addresses_after(old(addrs)@, cidr, configured, room as int),
        r == (old(addrs)@.len() > 0 || !configured || room > 0),
{
    if addrs.len() > 0 {
        addrs.set(0, cidr);
        true
    } else if configured {
        if room > 0 {
            addrs.push(cidr);
            true
        } else {
            false
        }
    } else {
        true
    }
}

/// Losing the configuration twice is losing it once: afterwards there is nothing to lose.
pub proof fn law_loss_is_handled_once(has_dns: bool)
    ensures
        actions_for(Event::Deconfigured, Some(unspecified().address), has_dns).len() == 0,
        actions_for(Event::Deconfigured, None, has_dns).len() == 0,
{
}

} // verus!
