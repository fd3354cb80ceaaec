//! The dependency graph as a mathematical value.
//!
//! Consumers and sources are numbered in the order in which they were made. A source owns a
//! list of back-edges to the consumers that read it; a consumer owns such a list too, for the
//! consumers that read its output. Nothing here is executable: these are the terms in which
//! the contracts of the library are written.

use vstd::prelude::*;

verus! {

/// A back-edge: the consumer it leads to and the generation that consumer had when the
/// edge was made or last refreshed.
pub struct Link {
    pub generation: nat,
    pub consumer: nat,
}

/// The record of one consumer.
pub struct Consumer {
    /// How often the consumer has run.
    pub generation: nat,
    /// Whether something it depends on has changed since it last ran.
    pub dirty: bool,
    /// Whether its owner has given it up. An expired consumer never comes back.
    pub expired: bool,
    /// The consumers that read this consumer's output.
    pub downstream: Seq<Link>,
}

/// Everything a tracking context knows.
pub struct Graph {
    pub consumers: Seq<Consumer>,
    /// For each source, the consumers that read it.
    pub sources: Seq<Seq<Link>>,
    /// The consumer on whose behalf reads are recorded.
    pub current: nat,
    /// The next identifier to hand out.
    pub next_id: nat,
}

impl Consumer {
    /// A consumer that has never run: dirty, at generation 0, read by nobody.
    pub open spec fn fresh() -> Consumer {
        Consumer { generation: 0, dirty: true, expired: false, downstream: Seq::empty() }
    }
}

/// The consumer `d` exists and has not expired.
pub open spec fn is_live(consumers: Seq<Consumer>, d: nat) -> bool {
    d < consumers.len() && !consumers[d as int].expired
}

/// The link leads to a live consumer that has not run since the link was made.
pub open spec fn is_current(consumers: Seq<Consumer>, link: Link) -> bool {
    is_live(consumers, link.consumer) && consumers[link.consumer as int].generation
        <= link.generation
}

/// The links of `list` whose consumer is live, in their order.
pub open spec fn keep_live(consumers: Seq<Consumer>, list: Seq<Link>) -> Seq<Link> {
    list.filter(|link: Link| is_live(consumers, link.consumer))
}

/// The links of `list` that are current, in their order.
pub open spec fn keep_current(consumers: Seq<Consumer>, list: Seq<Link>) -> Seq<Link> {
    list.filter(|link: Link| is_current(consumers, link))
}

/// Some link of `list` leads to `d`.
pub open spec fn names(list: Seq<Link>, d: nat) -> bool {
    exists|i: int| 0 <= i < list.len() && (#[trigger] list[i]).consumer == d
}

/// `list` with `mine` in the place of every link to the same consumer.
pub open spec fn refreshed(list: Seq<Link>, mine: Link) -> Seq<Link> {
    list.map_values(|link: Link| if link.consumer == mine.consumer { mine } else { link })
}

/// What tracking makes of a downstream list when `active` is the consumer that reads:
/// links to consumers that are gone are dropped, every link to `active` is brought to its
/// present generation, and a link to it is added at the end if there was none. Without such
/// a consumer only the dropping takes place.
pub open spec fn relinked(consumers: Seq<Consumer>, active: nat, list: Seq<Link>) -> Seq<Link> {
    let kept = keep_live(consumers, list);
    if active < consumers.len() {
        let mine = Link { generation: consumers[active as int].generation, consumer: active };
        if names(kept, active) {
            refreshed(kept, mine)
        } else {
            refreshed(kept, mine).push(mine)
        }
    } else {
        kept
    }
}

/// Some current link of `list` leads to `d`.
pub open spec fn feeds(consumers: Seq<Consumer>, list: Seq<Link>, d: nat) -> bool {
    exists|i: int|
        0 <= i < list.len() && is_current(consumers, #[trigger] list[i]) && list[i].consumer == d
}

/// `path` starts at a consumer that `roots` feeds, and each of its consumers feeds the next.
pub open spec fn is_chain(consumers: Seq<Consumer>, roots: Seq<Link>, path: Seq<nat>) -> bool {
    &&& path.len() > 0
    &&& feeds(consumers, roots, path[0])
    &&& forall|i: int|
        1 <= i < path.len() ==> feeds(
            consumers,
            consumers[path[i - 1] as int].downstream,
            #[trigger] path[i],
        )
}

/// A chain of current links leads from `roots` to `d`.
pub open spec fn reached(consumers: Seq<Consumer>, roots: Seq<Link>, d: nat) -> bool {
    exists|path: Seq<nat>| #[trigger] is_chain(consumers, roots, path) && path.last() == d
}

/// The consumers after a change behind `roots`: whoever is reached is dirty and has lost
/// the links of its own that were no longer current; nobody else is touched.
pub open spec fn swept(consumers: Seq<Consumer>, roots: Seq<Link>) -> Seq<Consumer> {
    Seq::new(
        consumers.len(),
        |d: int|
            if reached(consumers, roots, d as nat) {
                Consumer {
                    dirty: true,
                    downstream: keep_current(consumers, consumers[d].downstream),
                    ..consumers[d]
                }
            } else {
                consumers[d]
            },
    )
}

/// Which links are kept as live depends on nothing but which consumers are live.
pub proof fn keep_live_agrees(first: Seq<Consumer>, second: Seq<Consumer>, list: Seq<Link>)
    requires
        forall|d: nat| is_live(first, d) == is_live(second, d),
    ensures
        keep_live(first, list) == keep_live(second, list),
    decreases list.len(),
{
    reveal(Seq::filter);
    if list.len() > 0 {
        keep_live_agrees(first, second, list.drop_last());
    }
}

/// Whoever `roots` feeds is reached.
pub proof fn reached_at_once(consumers: Seq<Consumer>, roots: Seq<Link>, d: nat)
    requires
        feeds(consumers, roots, d),
    ensures
        reached(consumers, roots, d),
{
    let path = seq![d];
    assert(is_chain(consumers, roots, path));
}

/// Whoever a reached consumer feeds is reached.
pub proof fn reached_onward(consumers: Seq<Consumer>, roots: Seq<Link>, d: nat, next: nat)
    requires
        reached(consumers, roots, d),
        d < consumers.len(),
        feeds(consumers, consumers[d as int].downstream, next),
    ensures
        reached(consumers, roots, next),
{
    let path = choose|path: Seq<nat>| #[trigger] is_chain(consumers, roots, path) && path.last() == d;
    let longer = path.push(next);
    assert(is_chain(consumers, roots, longer));
}

/// A set of consumers that holds whoever `roots` feeds, and with each of its members
/// whoever that member feeds, holds every consumer at the end of a chain.
pub proof fn chain_stays_inside(
    consumers: Seq<Consumer>,
    roots: Seq<Link>,
    inside: Set<nat>,
    path: Seq<nat>,
)
    requires
        is_chain(consumers, roots, path),
        forall|d: nat| feeds(consumers, roots, d) ==> inside.contains(d),
        forall|d: nat, next: nat|
            inside.contains(d) && d < consumers.len() && #[trigger] feeds(
                consumers,
                consumers[d as int].downstream,
                next,
            ) ==> inside.contains(next),
    ensures
        inside.contains(path.last()),
    decreases path.len(),
{
    if path.len() > 1 {
        let shorter = path.drop_last();
        chain_stays_inside(consumers, roots, inside, shorter);
        chain_members_exist(consumers, roots, shorter, shorter.len() - 1);
    }
}

/// Every consumer on a chain exists and is live.
pub proof fn chain_members_exist(consumers: Seq<Consumer>, roots: Seq<Link>, path: Seq<nat>, i: int)
    requires
        is_chain(consumers, roots, path),
        0 <= i < path.len(),
    ensures
        is_live(consumers, path[i]),
{
}

impl Graph {
    /// The graph that holds `root` as its only consumer, which is also the active one.
    pub open spec fn rooted_at(root: Consumer) -> Graph {
        Graph { consumers: seq![root], sources: Seq::empty(), current: 0, next_id: 0 }
    }

    pub open spec fn live(self, d: nat) -> bool {
        is_live(self.consumers, d)
    }

    /// There is a consumer to record reads for.
    pub open spec fn has_active(self) -> bool {
        self.current < self.consumers.len()
    }

    /// The source `s` is read by the consumer `d` in its present generation.
    pub open spec fn reads(self, d: nat, s: nat) -> bool {
        s < self.sources.len() && feeds(self.consumers, self.sources[s as int], d)
    }

    /// A change of the source `s` concerns the consumer `d`: it reads `s`, or it reads the
    /// output of a consumer that the change concerns.
    pub open spec fn reaches(self, s: nat, d: nat) -> bool {
        s < self.sources.len() && reached(self.consumers, self.sources[s as int], d)
    }

    /// With one more source, read by nobody.
    pub open spec fn add_source(self) -> Graph {
        Graph { sources: self.sources.push(Seq::empty()), ..self }
    }

    /// With one more consumer that has never run.
    pub open spec fn add_consumer(self) -> Graph {
        Graph { consumers: self.consumers.push(Consumer::fresh()), ..self }
    }

    /// With `count` identifiers handed out.
    pub open spec fn issue_ids(self, count: nat) -> Graph {
        Graph { next_id: self.next_id + count, ..self }
    }

    /// With one identifier handed out.
    pub open spec fn issue_id(self) -> Graph {
        self.issue_ids(1)
    }

    /// With `d` as the active consumer.
    pub open spec fn with_current(self, d: nat) -> Graph {
        Graph { current: d, ..self }
    }

    /// After the active consumer has read the source `s`.
    pub open spec fn track_source(self, s: nat) -> Graph {
        if s < self.sources.len() {
            Graph {
                sources: self.sources.update(
                    s as int,
                    relinked(self.consumers, self.current, self.sources[s as int]),
                ),
                ..self
            }
        } else {
            self
        }
    }

    /// After the active consumer has read the output of the consumer `d`.
    pub open spec fn track_consumer(self, d: nat) -> Graph {
        if d < self.consumers.len() {
            Graph {
                consumers: self.consumers.update(
                    d as int,
                    Consumer {
                        downstream: relinked(
                            self.consumers,
                            self.current,
                            self.consumers[d as int].downstream,
                        ),
                        ..self.consumers[d as int]
                    },
                ),
                ..self
            }
        } else {
            self
        }
    }

    /// After the value of the source `s` has changed.
    pub open spec fn invalidate(self, s: nat) -> Graph {
        if s < self.sources.len() {
            Graph {
                consumers: swept(self.consumers, self.sources[s as int]),
                sources: self.sources.update(
                    s as int,
                    keep_current(self.consumers, self.sources[s as int]),
                ),
                ..self
            }
        } else {
            self
        }
    }

    /// At the moment the consumer `d` starts to run: it is clean, one generation further and
    /// the active consumer.
    pub open spec fn begin_run(self, d: nat) -> Graph {
        if d < self.consumers.len() {
            Graph {
                consumers: self.consumers.update(
                    d as int,
                    Consumer {
                        dirty: false,
                        generation: self.consumers[d as int].generation + 1,
                        ..self.consumers[d as int]
                    },
                ),
                current: d,
                ..self
            }
        } else {
            self
        }
    }

    /// Whether a node that remembers `handle` as its consumer has a live record.
    pub open spec fn holds(self, handle: Option<nat>) -> bool {
        handle matches Some(d) && self.live(d)
    }

    /// The consumer that stands for a node that remembers `handle`: the one it remembers, if
    /// that is live, else the one that would be made next.
    pub open spec fn slot(self, handle: Option<nat>) -> nat {
        if self.holds(handle) {
            handle->0
        } else {
            self.consumers.len()
        }
    }

    /// With a record for a node that remembers `handle`: a new one is made unless the node has
    /// a live one.
    pub open spec fn attach(self, handle: Option<nat>) -> Graph {
        if self.holds(handle) {
            self
        } else {
            self.add_consumer()
        }
    }

    /// After the active consumer has asked a node that remembers `handle` for its output:
    /// the node has a record, and the active consumer is entered in its downstream list.
    pub open spec fn enter(self, handle: Option<nat>) -> Graph {
        self.attach(handle).track_consumer(self.slot(handle))
    }

    /// How often a node that remembers `handle` has run.
    pub open spec fn generation_of(self, handle: Option<nat>) -> nat {
        if self.holds(handle) {
            self.consumers[handle->0 as int].generation
        } else {
            0
        }
    }

    /// Whether a node that remembers `handle` has to run before its record is of any use:
    /// it is dirty, or it has no record yet.
    pub open spec fn dirty_of(self, handle: Option<nat>) -> bool {
        self.holds(handle) ==> self.consumers[handle->0 as int].dirty
    }

    /// After the owner of the consumer `d` has given it up.
    pub open spec fn expire(self, d: nat) -> Graph {
        if d < self.consumers.len() {
            Graph {
                consumers: self.consumers.update(
                    d as int,
                    Consumer { expired: true, ..self.consumers[d as int] },
                ),
                ..self
            }
        } else {
            self
        }
    }

    /// After the active consumer has been declared clean.
    pub open spec fn clean_current(self) -> Graph {
        if self.has_active() {
            Graph {
                consumers: self.consumers.update(
                    self.current as int,
                    Consumer { dirty: false, ..self.consumers[self.current as int] },
                ),
                ..self
            }
        } else {
            self
        }
    }
}

} // verus!
