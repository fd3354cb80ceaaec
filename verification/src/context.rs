//! The tracking context and the records it keeps.

use vstd::prelude::*;
use crate::dirty::mark_dirty;
use crate::graph::{keep_live_agrees, Consumer, Graph, Link};
use crate::track::track;

verus! {

/// A back-edge as it is stored.
#[derive(Clone, Copy, Debug)]
pub(crate) struct Edge {
    pub(crate) generation: u64,
    pub(crate) consumer: usize,
}

impl View for Edge {
    type V = Link;

    open(crate) spec fn view(&self) -> Link {
        Link { generation: self.generation as nat, consumer: self.consumer as nat }
    }
}

/// The links that a stored list stands for.
pub open(crate) spec fn links(edges: Seq<Edge>) -> Seq<Link> {
    edges.map_values(|e: Edge| e@)
}

/// The record of a consumer: a memoized function or an effect owns one, and so does the
/// application, for what it reads at top level.
#[derive(Debug)]
pub struct Dependent {
    pub(crate) generation: u64,
    pub(crate) dirty: bool,
    pub(crate) expired: bool,
    pub(crate) dependents: Vec<Edge>,
}

impl View for Dependent {
    type V = Consumer;

    open(crate) spec fn view(&self) -> Consumer {
        Consumer {
            generation: self.generation as nat,
            dirty: self.dirty,
            expired: self.expired,
            downstream: links(self.dependents@),
        }
    }
}

/// The consumers that stored records stand for.
pub open(crate) spec fn consumers_of(records: Seq<Dependent>) -> Seq<Consumer> {
    records.map_values(|d: Dependent| d@)
}

impl Dependent {
    /// A record for the application itself: dirty, at generation 0, read by nobody.
    pub fn toplevel() -> (root: Dependent)
        ensures
            root@ == Consumer::fresh(),
    {
        let root = Dependent { generation: 0, dirty: true, expired: false, dependents: Vec::new() };
        assert(root@.downstream =~= Seq::empty());
        root
    }

    /// Whether something this consumer depends on has changed.
    pub fn dirty(&self) -> (dirty: bool)
        ensures
            dirty == self@.dirty,
    {
        self.dirty
    }

    /// Declares the consumer up to date.
    pub fn set_clean(&mut self)
        ensures
            final(self)@ == (Consumer { dirty: false, ..old(self)@ }),
    {
        self.dirty = false;
    }
}

/// A reference to the record of a consumer, to copy and to keep. It lets a caller that
/// cannot get at a node, because the node is in the middle of a run, still depend on it.
#[derive(Clone, Copy, Debug)]
pub struct DependentRef {
    pub(crate) index: usize,
}

impl View for DependentRef {
    type V = nat;

    open(crate) spec fn view(&self) -> nat {
        self.index as nat
    }
}

/// The consumer that a stored handle stands for.
pub(crate) open spec fn handle_of(handle: Option<usize>) -> Option<nat> {
    match handle {
        Some(d) => Some(d as nat),
        None => None,
    }
}

/// The lists of links that stored lists stand for.
pub open(crate) spec fn lists_of(lists: Seq<Vec<Edge>>) -> Seq<Seq<Link>> {
    lists.map_values(|list: Vec<Edge>| links(list@))
}

/// The tracking context: it knows the consumer on whose behalf reads are recorded, and it
/// keeps the record of every consumer and the downstream list of every source that was made
/// in it.
pub struct RxCtx {
    pub(crate) consumers: Vec<Dependent>,
    pub(crate) sources: Vec<Vec<Edge>>,
    pub(crate) current: usize,
    pub(crate) next_id: u64,
}

impl View for RxCtx {
    type V = Graph;

    open(crate) spec fn view(&self) -> Graph {
        Graph {
            consumers: consumers_of(self.consumers@),
            sources: lists_of(self.sources@),
            current: self.current as nat,
            next_id: self.next_id as nat,
        }
    }
}

impl Dependent {
    /// Opens a tracking context in which this record is the first consumer and the active
    /// one.
    pub fn ctx(self) -> (ctx: RxCtx)
        ensures
            ctx@ == Graph::rooted_at(self@),
    {
        let mut consumers: Vec<Dependent> = Vec::new();
        consumers.push(self);
        let ctx = RxCtx { consumers, sources: Vec::new(), current: 0, next_id: 0 };
        assert(ctx@.consumers =~= seq![self@]);
        assert(ctx@.sources =~= Seq::empty());
        ctx
    }
}

impl RxCtx {
    /// The record of the active consumer, if there is one.
    pub fn dependent(&self) -> (active: Option<&Dependent>)
        ensures
            match active {
                Some(record) => self@.has_active() && record@ == self@.consumers[self@.current as int],
                None => !self@.has_active(),
            },
    {
        if self.current < self.consumers.len() {
            Some(&self.consumers[self.current])
        } else {
            None
        }
    }

    /// Enters the active consumer in the downstream list of the consumer `node`, as a call
    /// of the node does before it decides whether to run. This is all that is left to do for
    /// a caller that finds the node in the middle of a run: it gets no value, but it will
    /// hear of what changes the node.
    pub fn track(&mut self, node: DependentRef)
        ensures
            final(self)@ == old(self)@.track_consumer(node@),
    {
        self.track_consumer(node.index);
    }

    /// Declares the active consumer up to date.
    pub fn set_clean(&mut self)
        ensures
            final(self)@ == old(self)@.clean_current(),
    {
        if self.current < self.consumers.len() {
            let current = self.current;
            self.consumers[current].set_clean();
            assert(self@.consumers =~= old(self)@.clean_current().consumers);
        }
    }

    /// Makes room for the downstream list of a new source and returns its number.
    pub(crate) fn add_source(&mut self) -> (s: usize)
        ensures
            s == old(self)@.sources.len(),
            final(self)@ == old(self)@.add_source(),
    {
        let s = self.sources.len();
        let list: Vec<Edge> = Vec::new();
        assert(links(list@) =~= Seq::empty());
        self.sources.push(list);
        assert(self@.sources =~= old(self)@.add_source().sources);
        s
    }

    /// Makes the record of a new consumer and returns its number.
    pub(crate) fn add_consumer(&mut self) -> (d: usize)
        ensures
            d == old(self)@.consumers.len(),
            final(self)@ == old(self)@.add_consumer(),
    {
        let d = self.consumers.len();
        self.consumers.push(Dependent::toplevel());
        assert(self@.consumers =~= old(self)@.add_consumer().consumers);
        d
    }

    /// Hands out the next identifier.
    pub(crate) fn issue_id(&mut self) -> (id: u64)
        requires
            old(self)@.next_id < u64::MAX,
        ensures
            id == old(self)@.next_id,
            final(self)@ == old(self)@.issue_id(),
    {
        let id = self.next_id;
        self.next_id = id + 1;
        id
    }

    /// Records that the active consumer has read the source `s`.
    pub(crate) fn track_source(&mut self, s: usize)
        ensures
            final(self)@ == old(self)@.track_source(s as nat),
    {
        if s < self.sources.len() {
            track(&mut self.sources[s], &self.consumers, self.current);
            assert(self@.sources =~= old(self)@.track_source(s as nat).sources);
        }
    }

    /// Records that the active consumer has read the output of the consumer `d`.
    pub(crate) fn track_consumer(&mut self, d: usize)
        ensures
            final(self)@ == old(self)@.track_consumer(d as nat),
    {
        if d < self.consumers.len() {
            let ghost before = self.consumers@;
            let mut list: Vec<Edge> = Vec::new();
            std::mem::swap(&mut list, &mut self.consumers[d].dependents);
            let ghost emptied = self.consumers@;
            proof {
                keep_live_agrees(consumers_of(emptied), consumers_of(before), links(list@));
            }
            track(&mut list, &self.consumers, self.current);
            self.consumers[d].dependents = list;
            assert(self@.consumers =~= old(self)@.track_consumer(d as nat).consumers);
        }
    }

    /// Finds the record of a node that remembers `handle`, or makes one.
    pub(crate) fn attach(&mut self, handle: Option<usize>) -> (d: usize)
        ensures
            d == old(self)@.slot(handle_of(handle)),
            final(self)@ == old(self)@.attach(handle_of(handle)),
            final(self)@.live(d as nat),
    {
        match handle {
            Some(d) => {
                if d < self.consumers.len() && !self.consumers[d].expired {
                    return d;
                }
            },
            None => {},
        }
        self.add_consumer()
    }

    /// Whether a node that remembers `handle` has a live record here.
    pub(crate) fn holds(&self, handle: Option<usize>) -> (held: bool)
        ensures
            held == self@.holds(handle_of(handle)),
    {
        match handle {
            Some(d) => d < self.consumers.len() && !self.consumers[d].expired,
            None => false,
        }
    }

    /// Whether the consumer `d` is dirty.
    pub(crate) fn is_dirty(&self, d: usize) -> (dirty: bool)
        requires
            d < self@.consumers.len(),
        ensures
            dirty == self@.consumers[d as int].dirty,
    {
        self.consumers[d].dirty
    }

    /// How often the consumer `d` has run.
    pub(crate) fn generation(&self, d: usize) -> (generation: u64)
        requires
            d < self@.consumers.len(),
        ensures
            generation == self@.consumers[d as int].generation,
    {
        self.consumers[d].generation
    }

    /// Starts a run of the consumer `d`: clears its dirty flag, moves it one generation on
    /// and makes it the active consumer. Returns the consumer that was active.
    pub(crate) fn begin_run(&mut self, d: usize) -> (previous: usize)
        requires
            d < old(self)@.consumers.len(),
            old(self)@.consumers[d as int].generation < u64::MAX,
        ensures
            previous == old(self)@.current,
            final(self)@ == old(self)@.begin_run(d as nat),
    {
        let previous = self.current;
        let record = &mut self.consumers[d];
        record.dirty = false;
        record.generation = record.generation + 1;
        self.current = d;
        assert(self@.consumers =~= old(self)@.begin_run(d as nat).consumers);
        previous
    }

    /// Makes `previous` the active consumer again.
    pub(crate) fn resume(&mut self, previous: usize)
        ensures
            final(self)@ == old(self)@.with_current(previous as nat),
    {
        self.current = previous;
    }

    /// Gives up the record of a node that remembers `handle`, if it has one.
    pub(crate) fn expire(&mut self, handle: Option<usize>)
        ensures
            final(self)@ == match handle {
                Some(d) => old(self)@.expire(d as nat),
                None => old(self)@,
            },
    {
        match handle {
            Some(d) => {
                if d < self.consumers.len() {
                    self.consumers[d].expired = true;
                    assert(self@.consumers =~= old(self)@.expire(d as nat).consumers);
                }
            },
            None => {},
        }
    }

    /// How many links the downstream list of the source `s` holds.
    pub(crate) fn count_links(&self, s: usize) -> (count: usize)
        ensures
            count == if s < self@.sources.len() {
                self@.sources[s as int].len()
            } else {
                0
            },
    {
        if s < self.sources.len() {
            self.sources[s].len()
        } else {
            0
        }
    }

    /// Spreads the news that the value of the source `s` has changed.
    pub(crate) fn invalidate(&mut self, s: usize)
        ensures
            final(self)@ == old(self)@.invalidate(s as nat),
    {
        if s < self.sources.len() {
            mark_dirty(&mut self.sources[s], &mut self.consumers);
            assert(self@.sources =~= old(self)@.invalidate(s as nat).sources);
        }
    }
}

} // verus!
