//! Sockets for control messages.

use vstd::prelude::*;

use crate::net::socket;
use crate::net::socket::IpAddress;
use crate::net::socket::IpEndpoint;
use crate::net::socket::PollOutcome;
use crate::net::socket::Settings;
use crate::net::socket::SocketError;

verus! {

/// A family of addresses.
#[derive(Clone, Copy, Debug, PartialEq, Eq, Structural)]
pub enum Af {
    Inet,
    Inet6,
}

/// What messages a socket gets.
#[derive(Clone, Copy, Debug, PartialEq, Eq, Structural)]
pub enum IcmpEndpoint {
    Unspecified,
    /// Those with an identifier.
    Ident(u16),
}

/// Where to listen.
#[derive(Clone, Copy, Debug, PartialEq, Eq, Structural)]
pub struct ListenEndpoint {
    pub addr: Option<IpAddress>,
    pub port: u16,
}

/// A socket for control messages.
#[derive(Clone, Copy, Debug, PartialEq, Eq, Structural)]
pub struct Socket {
    pub handle: u64,
    pub settings: Settings,
    pub local_endpoint: IpEndpoint,
    pub remote_endpoint: Option<IpEndpoint>,
}

/// Any address of a family.
pub open spec fn any_address(domain: Af) -> IpAddress {
    match domain {
        Af::Inet => IpAddress::V4(0),
        Af::Inet6 => IpAddress::V6(0),
    }
}

impl Socket {
    /// A socket that is bound to nothing, and gets no message yet.
    pub fn new(handle: u64, domain: Af) -> (r: Socket)
        ensures
            r.handle == handle,
            r.settings == Settings::initial(),
            r.local_endpoint == (IpEndpoint { addr: any_address(domain), port: 0 }),
            r.remote_endpoint is None,
    {
        let addr = match domain {
            Af::Inet => IpAddress::V4(0),
            Af::Inet6 => IpAddress::V6(0),
        };
        Socket {
            handle,
            settings: Settings::new(),
            local_endpoint: IpEndpoint { addr, port: 0 },
            remote_endpoint: None,
        }
    }

    /// Polls the socket.
    pub fn poll(&self, is_open: bool, can_send: bool, can_recv: bool, event: u16) -> (r:
        PollOutcome)
        ensures
            r == socket::outcome_of(
                event,
                if is_open {
                    event & socket::ready_for(can_send, can_recv)
                } else {
                    socket::POLL_INVALID
                },
            ),
    {
        socket::poll_events(is_open, can_send, can_recv, event)
    }

    /// Binds the socket, and says what messages it is to get.
    pub fn bind(&mut self, endpoint: ListenEndpoint) -> (r: IcmpEndpoint)
        ensures
            r == (if endpoint.port != 0 {
                IcmpEndpoint::Ident(endpoint.port)
            } else {
                IcmpEndpoint::Unspecified
            }),
            *final(self) == (Socket {
                local_endpoint: IpEndpoint {
                    port: endpoint.port,
                    addr: match endpoint.addr {
                        Some(a) => a,
                        None => old(self).local_endpoint.addr,
                    },
                },
                ..*old(self)
            }),
    {
        self.local_endpoint.port = endpoint.port;
        if let Some(addr) = endpoint.addr {
            self.local_endpoint.addr = addr;
        }
        if endpoint.port != 0 {
            IcmpEndpoint::Ident(endpoint.port)
        } else {
            IcmpEndpoint::Unspecified
        }
    }

    /// Sets whom the socket writes to.
    pub fn connect(&mut self, endpoint: IpEndpoint)
        ensures
            *final(self) == (Socket { remote_endpoint: Some(endpoint), ..*old(self) }),
    {
        self.remote_endpoint = Some(endpoint);
    }

    /// Whom a write goes to; an error where the socket is not connected.
    pub fn write_target(&self) -> (r: Result<IpEndpoint, SocketError>)
        ensures
            r == (match self.remote_endpoint {
                Some(e) => Ok(e),
                None => Err::<IpEndpoint, SocketError>(SocketError::Inval),
            }),
    {
        match self.remote_endpoint {
            Some(e) => Ok(e),
            None => Err(SocketError::Inval),
        }
    }
}

} // verus!
