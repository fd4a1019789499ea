//! Which handlers run on which interrupt line.

use vstd::prelude::*;

verus! {

/// Handlers by interrupt line; a handler is known by its number.
#[verifier::external_body]
pub struct InterruptHandlers {
    map: hashbrown::HashMap<u8, std::collections::VecDeque<u32>, ahash::RandomState>,
}

/// What a table of handlers holds: the handlers of each line that has any, in order.
pub uninterp spec fn handlers_in(h: InterruptHandlers) -> Map<u8, Seq<u32>>;

/// A table without handlers.
pub open spec fn no_lines() -> Map<u8, Seq<u32>> {
    Map::empty()
}

/// An empty table: `hashbrown::HashMap::with_hasher`, with the hasher that
/// `ahash::RandomState::with_seeds` makes of fixed seeds.
#[verifier::external_body]
fn no_handlers() -> (r: InterruptHandlers)
    ensures
        handlers_in(r) == no_lines(),
{
    InterruptHandlers {
        map: hashbrown::HashMap::with_hasher(ahash::RandomState::with_seeds(0, 0, 0, 0)),
    }
}

/// The handlers of a line, none if there are none.
pub open spec fn on_line(m: Map<u8, Seq<u32>>, line: u8) -> Seq<u32> {
    if m.dom().contains(line) {
        m[line]
    } else {
        Seq::empty()
    }
}

/// The table with one handler more on a line, after those that are there.
pub open spec fn with_handler(m: Map<u8, Seq<u32>>, line: u8, handler: u32) -> Map<u8, Seq<u32>> {
    m.insert(line, on_line(m, line).push(handler))
}

/// Adds a handler to a line: `hashbrown::HashMap::entry`, the entry's `or_default`, which
/// puts an empty queue where there was none, and the queue's `push_back`.
#[verifier::external_body]
fn add_handler(h: &mut InterruptHandlers, line: u8, handler: u32)
    ensures
        handlers_in(*final(h)) == with_handler(handlers_in(*old(h)), line, handler),
{
    h.map.entry(line).or_default().push_back(handler);
}

/// The handlers of a line: `hashbrown::HashMap::get`, and the queue copied in its order.
#[verifier::external_body]
fn line_handlers(h: &InterruptHandlers, line: u8) -> (r: Option<Vec<u32>>)
    ensures
        r is Some == handlers_in(*h).dom().contains(line),
        r matches Some(v) ==> v@ == handlers_in(*h)[line],
{
    h.map.get(&line).map(|q| q.iter().copied().collect())
}

/// The table that a list of lines and handlers makes.
pub open spec fn grouped(list: Seq<(u8, u32)>) -> Map<u8, Seq<u32>>
    decreases list.len(),
{
    if list.len() == 0 {
        Map::empty()
    } else {
        with_handler(grouped(list.drop_last()), list.last().0, list.last().1)
    }
}

/// A handler that may be missing, as a list.
pub open spec fn listed(h: Option<(u8, u32)>) -> Seq<(u8, u32)> {
    match h {
        Some(p) => seq![p],
        None => Seq::empty(),
    }
}

proof fn lemma_grouped_and(list: Seq<(u8, u32)>, h: Option<(u8, u32)>)
    ensures
        grouped(list + listed(h)) == (match h {
            Some(p) => with_handler(grouped(list), p.0, p.1),
            None => grouped(list),
        }),
{
    match h {
        Some(p) => {
            assert((list + listed(h)).drop_last() =~= list);
        },
        None => {
            assert(list + listed(h) =~= list);
        },
    }
}

impl InterruptHandlers {
    /// The handlers of the drivers, of the serial port and of the network device, by line.
    pub fn get_interrupt_handlers(
        drivers: &[(u8, u32)],
        serial: Option<(u8, u32)>,
        network: Option<(u8, u32)>,
    ) -> (r: InterruptHandlers)
        ensures
            handlers_in(r) == grouped(drivers@ + listed(serial) + listed(network)),
    {
        let mut h = no_handlers();
        let mut i: usize = 0;
        while i < drivers.len()
            invariant
                i <= drivers.len(),
                handlers_in(h) == grouped(drivers@.take(i as int)),
            decreases drivers.len() - i,
        {
            let (line, handler) = drivers[i];
            add_handler(&mut h, line, handler);
            i = i + 1;
            assert(drivers@.take(i as int).drop_last() =~= drivers@.take(i - 1));
        }
        assert(drivers@.take(i as int) =~= drivers@);
        if let Some((line, handler)) = serial {
            add_handler(&mut h, line, handler);
        }
        proof {
            lemma_grouped_and(drivers@, serial);
        }
        if let Some((line, handler)) = network {
            add_handler(&mut h, line, handler);
        }
        proof {
            lemma_grouped_and(drivers@ + listed(serial), network);
        }
        h
    }

    /// The handlers of a line, in the order in which they run.
    pub fn handlers(&self, line: u8) -> (r: Vec<u32>)
        ensures
            r@ == on_line(handlers_in(*self), line),
    {
        match line_handlers(self, line) {
            Some(v) => v,
            None => Vec::new(),
        }
    }
}

/// The handlers of a line, in the order of a list.
pub open spec fn of_line(list: Seq<(u8, u32)>, line: u8) -> Seq<u32>
    decreases list.len(),
{
    if list.len() == 0 {
        Seq::empty()
    } else {
        let rest = of_line(list.drop_last(), line);
        if list.last().0 == line {
            rest.push(list.last().1)
        } else {
            rest
        }
    }
}

/// No handler is lost and none changes its line: a line's handlers are those that the list
/// names for it, in the order of the list.
pub proof fn law_lines_keep_their_handlers(list: Seq<(u8, u32)>, line: u8)
    ensures
        on_line(grouped(list), line) == of_line(list, line),
    decreases list.len(),
{
    if list.len() > 0 {
        law_lines_keep_their_handlers(list.drop_last(), line);
    }
}

} // verus!
