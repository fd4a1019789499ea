//! Fetching a configuration descriptor from a device that may stall or answer short.

use vstd::prelude::*;

use crate::bytes;
use crate::usb::err::UsbError;
use crate::usb::setup::SetupPacket;
use crate::usb::setup::DESC_CONFIGURATION;
use crate::usb::setup::FEATURE_ENDPOINT_HALT;

verus! {

/// How often the whole fetch is tried, and each transfer of it.
pub const CONFIG_DESCRIPTOR_RETRIES: u32 = 3;

/// How many bytes a configuration descriptor itself has.
pub const CONFIG_DESC_SIZE: u16 = 9;

/// How far a fetch has come.
#[derive(Clone, Copy, Debug, PartialEq, Eq, Structural)]
pub enum ConfigPhase {
    /// Fetch the descriptor alone, or all of it.
    Short,
    Full,
    /// After a stall: clear the halt of the control endpoint, both ways, and wait.
    ClearOut,
    ClearIn,
    SettleStall,
    /// After an answer that is no good: wait and begin again.
    SettleCycle,
    Done,
    Failed,
}

/// What a fetch asks for.
#[derive(Clone, Copy, Debug, PartialEq, Eq, Structural)]
pub enum ConfigRequest {
    /// A control transfer with a zeroed buffer of as many bytes; none without data.
    Transfer { setup: SetupPacket, len: u64 },
    /// Wait a little.
    Settle,
    Done,
}

/// A fetch of a configuration descriptor.
pub struct ConfigFetch {
    pub index: u8,
    pub phase: ConfigPhase,
    pub full: bool,
    pub cycle: u32,
    pub attempt: u32,
    pub total_len: u16,
    pub data: Vec<u8>,
    pub error: Option<UsbError>,
}

/// A fetch of a configuration descriptor, over sequences.
pub struct Fetch {
    pub index: u8,
    pub phase: ConfigPhase,
    pub full: bool,
    pub cycle: int,
    pub attempt: int,
    pub total_len: u16,
    pub data: Seq<u8>,
    pub error: Option<UsbError>,
}

impl View for ConfigFetch {
    type V = Fetch;

    open spec fn view(&self) -> Fetch {
        Fetch {
            index: self.index,
            phase: self.phase,
            full: self.full,
            cycle: self.cycle as int,
            attempt: self.attempt as int,
            total_len: self.total_len,
            data: self.data@,
            error: self.error,
        }
    }
}

/// Whether nine bytes are a configuration descriptor.
pub open spec fn is_config_head(s: Seq<u8>) -> bool {
    s[0] == CONFIG_DESC_SIZE && s[1] == DESC_CONFIGURATION && bytes::le16(s, 2)
        >= CONFIG_DESC_SIZE
}

impl Fetch {
    pub open spec fn begin(index: u8) -> Fetch {
        Fetch {
            index,
            phase: ConfigPhase::Short,
            full: false,
            cycle: 1,
            attempt: 1,
            total_len: 0,
            data: Seq::empty(),
            error: None,
        }
    }

    pub open spec fn enters(self, phase: ConfigPhase) -> Fetch {
        Fetch { phase, ..self }
    }

    pub open spec fn fails(self, error: UsbError) -> Fetch {
        Fetch { phase: ConfigPhase::Failed, error: Some(error), ..self }
    }

    pub open spec fn request(self) -> ConfigRequest {
        match self.phase {
            ConfigPhase::Short => ConfigRequest::Transfer {
                setup: SetupPacket::descriptor(DESC_CONFIGURATION, self.index, CONFIG_DESC_SIZE),
                len: CONFIG_DESC_SIZE as u64,
            },
            ConfigPhase::Full => ConfigRequest::Transfer {
                setup: SetupPacket::descriptor(DESC_CONFIGURATION, self.index, self.total_len),
                len: self.total_len as u64,
            },
            ConfigPhase::ClearOut => ConfigRequest::Transfer {
                setup: SetupPacket::cleared_feature(FEATURE_ENDPOINT_HALT, 0x00),
                len: 0,
            },
            ConfigPhase::ClearIn => ConfigRequest::Transfer {
                setup: SetupPacket::cleared_feature(FEATURE_ENDPOINT_HALT, 0x80),
                len: 0,
            },
            ConfigPhase::SettleStall => ConfigRequest::Settle,
            ConfigPhase::SettleCycle => ConfigRequest::Settle,
            _ => ConfigRequest::Done,
        }
    }

    /// After a transfer that failed.
    pub open spec fn on_error(self, full: bool, error: UsbError) -> Fetch {
        if error is Stall {
            Fetch { full, ..self }.enters(ConfigPhase::ClearOut)
        } else {
            self.fails(error)
        }
    }

    /// What a reply makes of it: how many bytes were transferred and what the buffer holds,
    /// or why the transfer failed.
    pub open spec fn after(self, reply: Result<u64, UsbError>, data: Seq<u8>) -> Fetch {
        match self.phase {
            ConfigPhase::Short => match reply {
                Ok(n) => if n < CONFIG_DESC_SIZE || !is_config_head(data) {
                    self.enters(ConfigPhase::SettleCycle)
                } else {
                    Fetch {
                        total_len: bytes::le16(data, 2) as u16,
                        attempt: 1,
                        phase: ConfigPhase::Full,
                        ..self
                    }
                },
                Err(e) => self.on_error(false, e),
            },
            ConfigPhase::Full => match reply {
                Ok(n) => if n < self.total_len {
                    self.enters(ConfigPhase::SettleCycle)
                } else {
                    Fetch { data, ..self }.enters(ConfigPhase::Done)
                },
                Err(e) => self.on_error(true, e),
            },
            ConfigPhase::ClearOut => self.enters(ConfigPhase::ClearIn),
            ConfigPhase::ClearIn => self.enters(ConfigPhase::SettleStall),
            ConfigPhase::SettleStall => if self.attempt < CONFIG_DESCRIPTOR_RETRIES {
                Fetch { attempt: self.attempt + 1, ..self }.enters(
                    if self.full {
                        ConfigPhase::Full
                    } else {
                        ConfigPhase::Short
                    },
                )
            } else {
                self.fails(UsbError::Stall)
            },
            ConfigPhase::SettleCycle => if self.cycle < CONFIG_DESCRIPTOR_RETRIES {
                Fetch {
                    cycle: self.cycle + 1,
                    attempt: 1,
                    phase: ConfigPhase::Short,
                    ..self
                }
            } else {
                self.fails(UsbError::InvalidDescriptor)
            },
            _ => self,
        }
    }

    /// What holds in each phase.
    pub open spec fn wf(self) -> bool {
        &&& 1 <= self.cycle <= CONFIG_DESCRIPTOR_RETRIES
        &&& 1 <= self.attempt <= CONFIG_DESCRIPTOR_RETRIES
        &&& self.phase == ConfigPhase::Full ==> self.total_len >= CONFIG_DESC_SIZE
        &&& self.full && (self.phase == ConfigPhase::ClearOut || self.phase == ConfigPhase::ClearIn
            || self.phase == ConfigPhase::SettleStall) ==> self.total_len >= CONFIG_DESC_SIZE
        &&& self.phase == ConfigPhase::Done ==> self.data.len() == self.total_len
            && self.total_len >= CONFIG_DESC_SIZE
        &&& self.phase == ConfigPhase::Failed ==> self.error is Some
    }
}

/// A reply that fits: a transfer that worked leaves the whole buffer.
pub open spec fn config_fits(m: Fetch, reply: Result<u64, UsbError>, data: Seq<u8>) -> bool {
    reply is Ok ==> {
        m.request() matches ConfigRequest::Transfer { setup, len } ==> data.len() == len
    }
}

impl ConfigFetch {
    /// Begins to fetch a configuration descriptor.
    pub fn get_config_descriptor(index: u8) -> (r: ConfigFetch)
        ensures
            r@ == Fetch::begin(index),
            r@.wf(),
    {
        let r = ConfigFetch {
            index,
            phase: ConfigPhase::Short,
            full: false,
            cycle: 1,
            attempt: 1,
            total_len: 0,
            data: Vec::new(),
            error: None,
        };
        assert(r.data@ =~= Seq::<u8>::empty());
        r
    }

    /// What is needed next.
    pub fn next_request(&self) -> (r: ConfigRequest)
        ensures
            r == self@.request(),
    {
        match self.phase {
            ConfigPhase::Short => ConfigRequest::Transfer {
                setup: SetupPacket::get_descriptor(
                    DESC_CONFIGURATION,
                    self.index,
                    CONFIG_DESC_SIZE,
                ),
                len: CONFIG_DESC_SIZE as u64,
            },
            ConfigPhase::Full => ConfigRequest::Transfer {
                setup: SetupPacket::get_descriptor(DESC_CONFIGURATION, self.index, self.total_len),
                len: self.total_len as u64,
            },
            ConfigPhase::ClearOut => ConfigRequest::Transfer {
                setup: SetupPacket::clear_endpoint_feature(FEATURE_ENDPOINT_HALT, 0x00),
                len: 0,
            },
            ConfigPhase::ClearIn => ConfigRequest::Transfer {
                setup: SetupPacket::clear_endpoint_feature(FEATURE_ENDPOINT_HALT, 0x80),
                len: 0,
            },
            ConfigPhase::SettleStall => ConfigRequest::Settle,
            ConfigPhase::SettleCycle => ConfigRequest::Settle,
            _ => ConfigRequest::Done,
        }
    }

    fn fail(&mut self, error: UsbError)
        requires
            old(self)@.wf(),
        ensures
            final(self)@ == old(self)@.fails(error),
            final(self)@.wf(),
    {
        self.error = Some(error);
        self.phase = ConfigPhase::Failed;
    }

    fn take_error(&mut self, full: bool, error: UsbError)
        requires
            old(self)@.wf(),
            full ==> old(self)@.total_len >= CONFIG_DESC_SIZE,
        ensures
            final(self)@ == old(self)@.on_error(full, error),
            final(self)@.wf(),
    {
        match error {
            UsbError::Stall => {
                self.full = full;
                self.phase = ConfigPhase::ClearOut;
            },
            _ => self.fail(error),
        }
    }

    /// Takes a reply.
    pub fn feed(&mut self, reply: Result<u64, UsbError>, data: &[u8])
        requires
            old(self)@.wf(),
            config_fits(old(self)@, reply, data@),
        ensures
            final(self)@ == old(self)@.after(reply, data@),
            final(self)@.wf(),
    {
        match self.phase {
            ConfigPhase::Short => match reply {
                Ok(n) => {
                    if n < CONFIG_DESC_SIZE as u64 {
                        self.phase = ConfigPhase::SettleCycle;
                        return;
                    }
                    let total: u16 = bytes::le_u16(data, 2);
                    if data[0] as u16 != CONFIG_DESC_SIZE || data[1] != DESC_CONFIGURATION || total
                        < CONFIG_DESC_SIZE {
                        self.phase = ConfigPhase::SettleCycle;
                    } else {
                        self.total_len = total;
                        self.attempt = 1;
                        self.phase = ConfigPhase::Full;
                    }
                },
                Err(e) => self.take_error(false, e),
            },
            ConfigPhase::Full => match reply {
                Ok(n) => {
                    if n < self.total_len as u64 {
                        self.phase = ConfigPhase::SettleCycle;
                    } else {
                        self.data = bytes::to_vec(data);
                        self.phase = ConfigPhase::Done;
                    }
                },
                Err(e) => self.take_error(true, e),
            },
            ConfigPhase::ClearOut => {
                self.phase = ConfigPhase::ClearIn;
            },
            ConfigPhase::ClearIn => {
                self.phase = ConfigPhase::SettleStall;
            },
            ConfigPhase::SettleStall => {
                if self.attempt < CONFIG_DESCRIPTOR_RETRIES {
                    self.attempt = self.attempt + 1;
                    self.phase = if self.full {
                        ConfigPhase::Full
                    } else {
                        ConfigPhase::Short
                    };
                } else {
                    self.fail(UsbError::Stall);
                }
            },
            ConfigPhase::SettleCycle => {
                if self.cycle < CONFIG_DESCRIPTOR_RETRIES {
                    self.cycle = self.cycle + 1;
                    self.attempt = 1;
                    self.phase = ConfigPhase::Short;
                } else {
                    self.fail(UsbError::InvalidDescriptor);
                }
            },
            _ => {},
        }
    }

    /// The descriptor, or why there is none, once it is over.
    pub fn finish(self) -> (r: Option<Result<Vec<u8>, UsbError>>)
        requires
            self@.wf(),
        ensures
            match self@.phase {
                ConfigPhase::Done => r matches Some(Ok(data)) && data@ == self@.data,
                ConfigPhase::Failed => r == Some(Err::<Vec<u8>, UsbError>(self@.error->0)),
                _ => r is None,
            },
    {
        match self.phase {
            ConfigPhase::Done => Some(Ok(self.data)),
            ConfigPhase::Failed => match self.error {
                Some(e) => Some(Err(e)),
                None => None,
            },
            _ => None,
        }
    }
}

/// How many replies a fetch can still take, at most.
pub open spec fn fetch_left(m: Fetch) -> int {
    let cycles = (CONFIG_DESCRIPTOR_RETRIES - m.cycle) * 40;
    let stall = (CONFIG_DESCRIPTOR_RETRIES - m.attempt) * 4;
    let stage = if m.phase == ConfigPhase::Short || (!m.full && m.phase != ConfigPhase::Full) {
        16int
    } else {
        0
    };
    match m.phase {
        ConfigPhase::Short => cycles + stage + stall + 6,
        ConfigPhase::Full => cycles + stall + 6,
        ConfigPhase::ClearOut => cycles + stage + stall + 5,
        ConfigPhase::ClearIn => cycles + stage + stall + 4,
        ConfigPhase::SettleStall => cycles + stage + stall + 3,
        ConfigPhase::SettleCycle => cycles + 1,
        _ => 0,
    }
}

/// A fetch ends whatever the device answers.
pub proof fn law_fetch_ends(m: Fetch, reply: Result<u64, UsbError>, data: Seq<u8>)
    requires
        m.wf(),
        m.phase != ConfigPhase::Done && m.phase != ConfigPhase::Failed,
    ensures
        0 <= fetch_left(m.after(reply, data)) < fetch_left(m),
{
}

/// A fetch that worked gives all the bytes that the descriptor's head announced, and no
/// fewer than the head.
pub proof fn law_fetched_descriptor_is_whole(m: Fetch, n: u64, data: Seq<u8>)
    requires
        m.wf(),
        m.phase == ConfigPhase::Full,
        config_fits(m, Ok(n), data),
        m.after(Ok(n), data).phase == ConfigPhase::Done,
    ensures
        n >= m.total_len,
        m.after(Ok(n), data).data == data,
        data.len() == m.total_len,
        data.len() >= CONFIG_DESC_SIZE,
{
}

} // verus!
