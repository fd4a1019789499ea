//! The contexts through which a device is described to the host controller.

use vstd::prelude::*;

verus! {

/// Slot context: what the controller knows of a device.
#[derive(Clone, Copy, Debug, PartialEq, Eq, Structural)]
pub struct SlotContext {
    /// Route String, Speed, Multi-TT, Hub, Context Entries
    pub dw0: u32,
    /// Max Exit Latency, Root Hub Port Number, Number of Ports
    pub dw1: u32,
    /// Interrupter Target, TTT, TT Port Number, TT Hub Slot ID
    pub dw2: u32,
    /// Device Address, Slot State
    pub dw3: u32,
}

impl SlotContext {
    pub open spec fn of(route: u32, speed: u8, context_entries: u8, root_port: u8) -> SlotContext {
        SlotContext {
            dw0: (route & 0xfffff) | ((speed as u32) << 20u32) | ((context_entries as u32)
                << 27u32),
            dw1: (root_port as u32) << 16u32,
            dw2: 0,
            dw3: 0,
        }
    }

    /// Creates a new slot context.
    pub fn new(route: u32, speed: u8, context_entries: u8, root_port: u8) -> (r: SlotContext)
        ensures
            r == SlotContext::of(route, speed, context_entries, root_port),
    {
        SlotContext {
            dw0: (route & 0xfffff) | ((speed as u32) << 20u32) | ((context_entries as u32)
                << 27u32),
            dw1: (root_port as u32) << 16u32,
            dw2: 0,
            dw3: 0,
        }
    }

    /// How many contexts of the device are valid.
    pub open spec fn context_entries(self) -> u32 {
        self.dw0 >> 27u32
    }

    pub open spec fn words_of(self) -> Seq<u32> {
        seq![self.dw0, self.dw1, self.dw2, self.dw3, 0u32, 0u32, 0u32, 0u32]
    }

    /// The context as it stands in memory.
    pub fn words(&self) -> (r: Vec<u32>)
        ensures
            r@ == self.words_of(),
    {
        let r = vec![self.dw0, self.dw1, self.dw2, self.dw3, 0u32, 0u32, 0u32, 0u32];
        assert(r@ =~= self.words_of());
        r
    }
}

/// Endpoint context: what the controller knows of an endpoint.
#[derive(Clone, Copy, Debug, PartialEq, Eq, Structural)]
pub struct EndpointContext {
    /// EP State, Mult, MaxPStreams, LSA, Interval, Max ESIT Payload Hi
    pub dw0: u32,
    /// CErr, EP Type, HID, Max Burst Size, Max Packet Size
    pub dw1: u32,
    /// Transfer Ring Dequeue Pointer Low
    pub tr_dequeue_lo: u32,
    /// Transfer Ring Dequeue Pointer High
    pub tr_dequeue_hi: u32,
    /// Average TRB Length, Max ESIT Payload Lo
    pub dw4: u32,
}

impl EndpointContext {
    pub open spec fn of(
        ep_type: u8,
        max_packet_size: u16,
        max_burst: u8,
        interval: u8,
        tr_ptr: u64,
    ) -> EndpointContext {
        EndpointContext {
            dw0: (interval as u32) << 16u32,
            dw1: (3u32 << 1u32) | ((ep_type as u32) << 3u32) | ((max_burst as u32) << 8u32) | ((
            max_packet_size as u32) << 16u32),
            tr_dequeue_lo: ((tr_ptr % 0x1_0000_0000) as u32) | 1,
            tr_dequeue_hi: (tr_ptr / 0x1_0000_0000) as u32,
            dw4: 8,
        }
    }

    /// Creates a new endpoint context.
    pub fn new(
        ep_type: u8,
        max_packet_size: u16,
        max_burst: u8,
        interval: u8,
        tr_ptr: u64,
    ) -> (r: EndpointContext)
        ensures
            r == EndpointContext::of(ep_type, max_packet_size, max_burst, interval, tr_ptr),
    {
        EndpointContext {
            dw0: (interval as u32) << 16u32,
            dw1: (3u32 << 1u32) | ((ep_type as u32) << 3u32) | ((max_burst as u32) << 8u32) | ((
            max_packet_size as u32) << 16u32),
            tr_dequeue_lo: ((tr_ptr % 0x1_0000_0000) as u32) | 1,
            tr_dequeue_hi: (tr_ptr / 0x1_0000_0000) as u32,
            dw4: 8,
        }
    }

    pub open spec fn empty() -> EndpointContext {
        EndpointContext { dw0: 0, dw1: 0, tr_dequeue_lo: 0, tr_dequeue_hi: 0, dw4: 0 }
    }

    pub open spec fn words_of(self) -> Seq<u32> {
        seq![
            self.dw0,
            self.dw1,
            self.tr_dequeue_lo,
            self.tr_dequeue_hi,
            self.dw4,
            0u32,
            0u32,
            0u32,
        ]
    }

    /// The context as it stands in memory.
    pub fn words(&self) -> (r: Vec<u32>)
        ensures
            r@ == self.words_of(),
    {
        let r = vec![
            self.dw0,
            self.dw1,
            self.tr_dequeue_lo,
            self.tr_dequeue_hi,
            self.dw4,
            0u32,
            0u32,
            0u32,
        ];
        assert(r@ =~= self.words_of());
        r
    }
}

/// A slot context tells what it was made of: the route, the speed, the number of contexts
/// and the port each have their own bits.
pub proof fn law_slot_context_fields(route: u32, speed: u8, context_entries: u8, root_port: u8)
    requires
        speed < 16,
        context_entries < 32,
    ensures
        ({
            let c = SlotContext::of(route, speed, context_entries, root_port);
            &&& c.dw0 % 0x10_0000 == route % 0x10_0000
            &&& c.dw0 / 0x10_0000 % 16 == speed
            &&& c.context_entries() == context_entries
            &&& c.dw1 / 0x1_0000 % 256 == root_port
        }),
{
    let c = SlotContext::of(route, speed, context_entries, root_port);
    let w0 = c.dw0;
    let w1 = c.dw1;
    assert(w0 % 0x10_0000 == route % 0x10_0000 && w0 / 0x10_0000 % 16 == speed as u32 && w0
        >> 27u32 == context_entries as u32) by (bit_vector)
        requires
            w0 == (route & 0xfffff) | ((speed as u32) << 20u32) | ((context_entries as u32)
                << 27u32),
            speed < 16,
            context_entries < 32,
    ;
    assert(w1 / 0x1_0000 % 256 == root_port as u32) by (bit_vector)
        requires
            w1 == (root_port as u32) << 16u32,
    ;
}

/// An endpoint context tells what it was made of; its ring begins with the cycle bit set.
pub proof fn law_endpoint_context_fields(
    ep_type: u8,
    max_packet_size: u16,
    max_burst: u8,
    interval: u8,
    tr_ptr: u64,
)
    requires
        ep_type < 8,
    ensures
        ({
            let c = EndpointContext::of(ep_type, max_packet_size, max_burst, interval, tr_ptr);
            &&& c.dw0 / 0x1_0000 == interval
            &&& c.dw1 / 2 % 4 == 3
            &&& c.dw1 / 8 % 8 == ep_type
            &&& c.dw1 / 256 % 256 == max_burst
            &&& c.dw1 / 0x1_0000 == max_packet_size
            &&& c.tr_dequeue_lo % 2 == 1
            &&& tr_ptr % 2 == 0 ==> c.tr_dequeue_hi * 0x1_0000_0000 + c.tr_dequeue_lo == tr_ptr + 1
        }),
{
    let c = EndpointContext::of(ep_type, max_packet_size, max_burst, interval, tr_ptr);
    let w0 = c.dw0;
    let w1 = c.dw1;
    let low = (tr_ptr % 0x1_0000_0000) as u32;
    let lo = c.tr_dequeue_lo;
    assert(w0 / 0x1_0000 == interval as u32) by (bit_vector)
        requires
            w0 == (interval as u32) << 16u32,
    ;
    assert(w1 / 2 % 4 == 3 && w1 / 8 % 8 == ep_type as u32 && w1 / 256 % 256 == max_burst as u32
        && w1 / 0x1_0000 == max_packet_size as u32) by (bit_vector)
        requires
            w1 == (3u32 << 1u32) | ((ep_type as u32) << 3u32) | ((max_burst as u32) << 8u32) | ((
            max_packet_size as u32) << 16u32),
            ep_type < 8,
    ;
    assert(lo % 2 == 1 && (low % 2 == 0 ==> lo == low + 1)) by (bit_vector)
        requires
            lo == low | 1,
    ;
}

/// Input context: what a command tells the controller of a device.
#[derive(Clone, Copy)]
pub struct InputContext {
    /// Input Control Context (drop/add flags)
    pub input_control: [u32; 8],
    /// Slot Context
    pub slot: SlotContext,
    /// Endpoint Contexts (EP0 at index 0, EP1 OUT at 1, EP1 IN at 2, etc.)
    pub endpoints: [EndpointContext; 31],
}

/// Device context: what the controller tells of a device.
#[derive(Clone, Copy)]
pub struct DeviceContext {
    /// Slot Context
    pub slot: SlotContext,
    /// Endpoint Contexts
    pub endpoints: [EndpointContext; 31],
}

/// The words of endpoint contexts, one after the other.
pub open spec fn endpoint_words(endpoints: Seq<EndpointContext>) -> Seq<u32>
    decreases endpoints.len(),
{
    if endpoints.len() == 0 {
        Seq::empty()
    } else {
        endpoint_words(endpoints.drop_last()) + endpoints.last().words_of()
    }
}

/// How many bytes an input context takes up, and a device context.
pub const INPUT_CONTEXT_SIZE: u64 = 1088;

pub const DEVICE_CONTEXT_SIZE: u64 = 1024;

pub const CONTEXT_ALIGN: u64 = 64;

impl InputContext {
    /// An input context of nothing but zeros.
    pub fn zeroed() -> (r: InputContext)
        ensures
            forall|i: int| 0 <= i < 8 ==> #[trigger] r.input_control[i] == 0,
            r.slot == (SlotContext { dw0: 0, dw1: 0, dw2: 0, dw3: 0 }),
            forall|i: int| 0 <= i < 31 ==> #[trigger] r.endpoints[i] == EndpointContext::empty(),
    {
        InputContext {
            input_control: [0;8],
            slot: SlotContext { dw0: 0, dw1: 0, dw2: 0, dw3: 0 },
            endpoints: [
                EndpointContext { dw0: 0, dw1: 0, tr_dequeue_lo: 0, tr_dequeue_hi: 0, dw4: 0 };31],
        }
    }

    pub open spec fn words_of(self) -> Seq<u32> {
        self.input_control@ + self.slot.words_of() + endpoint_words(self.endpoints@)
    }

    /// The context as it stands in memory.
    pub fn words(&self) -> (r: Vec<u32>)
        ensures
            r@ == self.words_of(),
    {
        let mut r: Vec<u32> = Vec::new();
        let mut i: usize = 0;
        while i < 8
            invariant
                i <= 8,
                r@ == self.input_control@.take(i as int),
            decreases 8 - i,
        {
            r.push(self.input_control[i]);
            i = i + 1;
            assert(r@ =~= self.input_control@.take(i as int));
        }
        let mut slot = self.slot.words();
        r.append(&mut slot);
        let ghost head = self.input_control@ + self.slot.words_of();
        assert(r@ =~= head + endpoint_words(self.endpoints@.take(0)));
        let mut k: usize = 0;
        while k < 31
            invariant
                k <= 31,
                r@ == head + endpoint_words(self.endpoints@.take(k as int)),
            decreases 31 - k,
        {
            let mut words = self.endpoints[k].words();
            r.append(&mut words);
            k = k + 1;
            proof {
                let done = self.endpoints@.take(k as int);
                assert(done.drop_last() =~= self.endpoints@.take(k - 1));
                assert(r@ =~= head + endpoint_words(done));
            }
        }
        assert(self.endpoints@.take(31) =~= self.endpoints@);
        r
    }
}

} // verus!
