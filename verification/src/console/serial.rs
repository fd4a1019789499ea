//! The serial console: which device is behind it, and what was received.

use vstd::prelude::*;

use std::collections::VecDeque;

use crate::console::memory;

verus! {

/// The interrupt line of the serial port.
pub const SERIAL_IRQ: u8 = 4;

/// What is behind the serial console.
#[derive(Clone, Copy, Debug, PartialEq, Eq, Structural)]
pub enum Backend {
    /// The shared page at an address.
    Memory(u64),
    Uart,
    Null,
}

/// The words by which a shared page is known, and where it is.
#[derive(Clone, Copy, Debug, PartialEq, Eq, Structural)]
pub struct ConsolePage {
    pub address: u64,
    pub magic: u32,
    pub version: u32,
}

/// What is behind the serial console, given the shared page and whether there is a port.
pub open spec fn backend_of(page: Option<ConsolePage>, has_port: bool) -> Backend {
    match page {
        Some(p) if p.magic == memory::VIRTUAL_CONSOLE_MAGIC && p.version
            == memory::VIRTUAL_CONSOLE_VERSION => Backend::Memory(p.address),
        _ => if has_port {
            Backend::Uart
        } else {
            Backend::Null
        },
    }
}

/// Decides what is behind the serial console.
pub fn backend(page: Option<ConsolePage>, has_port: bool) -> (r: Backend)
    ensures
        r == backend_of(page, has_port),
{
    if let Some(p) = page {
        if memory::is_console_page(p.magic, p.version) {
            return Backend::Memory(p.address);
        }
    }
    if has_port {
        Backend::Uart
    } else {
        Backend::Null
    }
}

/// The interrupt line of the serial console, if it interrupts.
pub fn get_serial_handler(backend: &Backend) -> (r: Option<u8>)
    ensures
        r == (if *backend == Backend::Uart {
            Some(SERIAL_IRQ)
        } else {
            None
        }),
        r matches Some(irq) ==> irq == 4,
{
    match *backend {
        Backend::Uart => Some(SERIAL_IRQ),
        _ => None,
    }
}

/// The serial console; it finds what is behind it each time it is used.
pub struct SerialDevice;

impl SerialDevice {
    /// The serial console.
    pub fn new() -> (r: SerialDevice)
        ensures
            r == SerialDevice,
    {
        SerialDevice
    }

    /// Whether something can be read, given what waits in the shared page and at the port.
    pub fn read_ready(&self, backend: &Backend, page_len: u32, queue: &UartQueue) -> (r: bool)
        ensures
            r == (match *backend {
                Backend::Memory(_) => page_len > 0,
                Backend::Uart => queue@.len() > 0,
                Backend::Null => false,
            }),
    {
        match *backend {
            Backend::Memory(_) => page_len > 0,
            Backend::Uart => !queue.is_empty(),
            Backend::Null => false,
        }
    }
}

/// Takes bytes from the front of a queue: `embedded_io`'s `Read::read` of a `VecDeque`. It
/// takes some where some are there and there is room for them; how many depends on how the
/// queue lies in memory, and is not stated.
#[verifier::external_body]
fn read_front(queue: &mut VecDeque<u8>, room: usize) -> (r: Vec<u8>)
    ensures
        r@.len() <= old(queue)@.len(),
        r@.len() <= room,
        old(queue)@.len() > 0 && room > 0 ==> r@.len() > 0,
        r@ == old(queue)@.take(r@.len() as int),
        final(queue)@ == old(queue)@.skip(r@.len() as int),
{
    let mut buf = vec![0u8; room];
    match embedded_io::Read::read(queue, &mut buf) {
        Ok(n) => buf.truncate(n),
        Err(e) => match e {},
    }
    buf
}

/// What came in at the serial port and was not read yet, oldest first.
pub struct UartQueue {
    pub buffer: VecDeque<u8>,
}

impl View for UartQueue {
    type V = Seq<u8>;

    open spec fn view(&self) -> Seq<u8> {
        self.buffer@
    }
}

impl UartQueue {
    /// Nothing came in.
    pub fn new() -> (r: UartQueue)
        ensures
            r@ == Seq::<u8>::empty(),
    {
        UartQueue { buffer: VecDeque::new() }
    }

    /// A byte came in.
    pub fn receive(&mut self, byte: u8)
        ensures
            final(self)@ == old(self)@.push(byte),
    {
        self.buffer.push_back(byte);
    }

    /// Whether nothing waits.
    pub fn is_empty(&self) -> (r: bool)
        ensures
            r == (self@.len() == 0),
    {
        self.buffer.len() == 0
    }

    /// Reads what waits, oldest first: something, if something waits and there is room for
    /// it, and never more than there is room for.
    pub fn read(&mut self, room: usize) -> (r: Vec<u8>)
        ensures
            r@ + final(self)@ == old(self)@,
            r@.len() <= room,
            old(self)@.len() > 0 && room > 0 ==> r@.len() > 0,
    {
        let r = read_front(&mut self.buffer, room);
        assert(r@ + self@ =~= old(self)@);
        r
    }
}

/// The shared page is used exactly where it says that it is one, by its magic number and
/// version; then the port, if there is one.
pub proof fn law_page_comes_before_port(page: Option<ConsolePage>, has_port: bool)
    ensures
        ({
            let shared = page is Some && page->0.magic == 0x5643_4f4e && page->0.version == 1;
            &&& shared ==> backend_of(page, has_port) == Backend::Memory(page->0.address)
            &&& !shared && has_port ==> backend_of(page, has_port) == Backend::Uart
            &&& !shared && !has_port ==> backend_of(page, has_port) == Backend::Null
        }),
{
}

} // verus!
