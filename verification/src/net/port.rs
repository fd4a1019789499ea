//! Ephemeral ports, and when the network is looked at next.

use vstd::prelude::*;

verus! {

pub const FIRST_PORT: u16 = 49152;

pub const LAST_PORT: u16 = 65535;

/// How many ephemeral ports there are.
pub const PORT_COUNT: u64 = 16384;

/// The first port to hand out, given the time.
pub fn start_endpoint(now_micros: u64) -> (r: u16)
    ensures
        r == now_micros % PORT_COUNT + FIRST_PORT,
        FIRST_PORT <= r <= LAST_PORT,
{
    (now_micros % PORT_COUNT + FIRST_PORT as u64) as u16
}

/// The port after a port.
pub open spec fn port_after(port: u16) -> u16 {
    if port < LAST_PORT {
        (port + 1) as u16
    } else {
        FIRST_PORT
    }
}

/// Hands out a port, and moves on to the next.
pub fn get_ephemeral_port(next: &mut u16) -> (r: u16)
    ensures
        r == *old(next),
        *final(next) == port_after(*old(next)),
{
    let port: u16 = *next;
    *next = if port < LAST_PORT {
        port + 1
    } else {
        FIRST_PORT
    };
    port
}

/// The port after as many ports.
pub open spec fn port_after_many(port: u16, n: nat) -> u16
    decreases n,
{
    if n == 0 {
        port
    } else {
        port_after(port_after_many(port, (n - 1) as nat))
    }
}

/// Ports that are handed out are ephemeral ports, and go round: a port comes again only
/// after all others came.
pub proof fn law_ports_go_round(port: u16, n: nat)
    requires
        FIRST_PORT <= port,
    ensures
        port_after_many(port, n) == FIRST_PORT + (port - FIRST_PORT + n) % PORT_COUNT as int,
    decreases n,
{
    if n > 0 {
        law_ports_go_round(port, (n - 1) as nat);
    }
}

/// Two ports that are handed out fewer than a round apart differ.
pub proof fn law_ports_differ(port: u16, i: nat, j: nat)
    requires
        FIRST_PORT <= port,
        i < j,
        j - i < PORT_COUNT,
    ensures
        port_after_many(port, i) != port_after_many(port, j),
{
    law_ports_go_round(port, i);
    law_ports_go_round(port, j);
}

/// When the network is to be looked at again, given how long that can wait.
pub fn wakeup_time(ticks: u64, delay_micros: Option<u64>) -> (r: Option<u64>)
    requires
        delay_micros matches Some(d) ==> ticks + d <= u64::MAX,
    ensures
        r == (match delay_micros {
            Some(d) => Some((ticks + d) as u64),
            None => None::<u64>,
        }),
{
    match delay_micros {
        Some(d) => Some(ticks + d),
        None => None,
    }
}

} // verus!
