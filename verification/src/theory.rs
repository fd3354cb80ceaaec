//! What holds of the graphs that the library makes.
//!
//! The first part is about the links: in every graph that the operations of the library
//! make of a graph with links in order, the links are in order. The second part is about
//! dirtying, the third about tracking and the generations, the last about memoized calls.

use vstd::prelude::*;
use crate::graph::{
    chain_members_exist, feeds, is_chain, is_current, is_live, keep_live, keep_live_agrees, names,
    reached_at_once, reached_onward, refreshed, relinked, Consumer, Graph, Link,
};
use crate::rx_fn::Memo;

verus! {

/// The link leads to a consumer that exists and whose generation the link's does not exceed.
pub open spec fn link_in_order(consumers: Seq<Consumer>, link: Link) -> bool {
    link.consumer < consumers.len() && link.generation <= consumers[link.consumer as int].generation
}

/// Every link of the list is in order, and no two of them lead to the same consumer.
pub open spec fn list_in_order(consumers: Seq<Consumer>, list: Seq<Link>) -> bool {
    &&& forall|i: int| 0 <= i < list.len() ==> link_in_order(consumers, #[trigger] list[i])
    &&& forall|i: int, j: int|
        0 <= i < j < list.len() ==> (#[trigger] list[i]).consumer != (#[trigger] list[j]).consumer
}

impl Graph {
    /// Every downstream list, of a source or of a consumer, is in order: a link never leads
    /// to a consumer that does not exist, never carries a generation that its consumer has
    /// yet to reach, and is the only link of its list to its consumer.
    pub open spec fn links_in_order(self) -> bool {
        &&& forall|s: int|
            0 <= s < self.sources.len() ==> list_in_order(self.consumers, #[trigger] self.sources[s])
        &&& forall|d: int|
            0 <= d < self.consumers.len() ==> list_in_order(
                self.consumers,
                (#[trigger] self.consumers[d]).downstream,
            )
    }

    /// Every consumer of `self` is a consumer of `later`, not younger and not revived; no
    /// source and no identifier was taken back.
    pub open spec fn leads_to(self, later: Graph) -> bool {
        &&& self.consumers.len() <= later.consumers.len()
        &&& self.sources.len() <= later.sources.len()
        &&& self.next_id <= later.next_id
        &&& forall|d: int|
            0 <= d < self.consumers.len() ==> {
                &&& (#[trigger] self.consumers[d]).generation <= later.consumers[d].generation
                &&& self.consumers[d].expired ==> later.consumers[d].expired
            }
    }
}

/// What a filter keeps of a list in order is in order, was in the list, and passes the
/// filter.
pub proof fn filter_keeps_order(consumers: Seq<Consumer>, list: Seq<Link>, pred: spec_fn(Link) -> bool)
    requires
        list_in_order(consumers, list),
    ensures
        list_in_order(consumers, list.filter(pred)),
        forall|k: int| 0 <= k < list.filter(pred).len() ==> pred(#[trigger] list.filter(pred)[k]),
        forall|d: nat| names(list.filter(pred), d) ==> names(list, d),
    decreases list.len(),
{
    reveal(Seq::filter);
    let out = list.filter(pred);
    if list.len() > 0 {
        let rest = list.drop_last();
        let last = list.last();
        let kept = rest.filter(pred);
        filter_keeps_order(consumers, rest, pred);
        assert forall|d: nat| names(kept, d) implies names(list, d) by {
            assert(names(rest, d));
        }
        if pred(last) {
            // The last link is kept: no link kept before it leads to the same consumer,
            // because no link before it did.
            assert forall|i: int, j: int| 0 <= i < j < out.len() implies (#[trigger] out[i]).consumer
                != (#[trigger] out[j]).consumer by {
                if j == kept.len() && kept[i].consumer == last.consumer {
                    assert(names(rest, last.consumer));
                }
            }
        }
    }
}

/// A filter keeps a list whole whose links all pass it.
pub proof fn filter_keeps_all(list: Seq<Link>, pred: spec_fn(Link) -> bool)
    requires
        forall|i: int| 0 <= i < list.len() ==> pred(#[trigger] list[i]),
    ensures
        list.filter(pred) == list,
    decreases list.len(),
{
    reveal(Seq::filter);
    if list.len() > 0 {
        filter_keeps_all(list.drop_last(), pred);
    }
}

/// A list in order stays in order when consumers are added and generations rise.
pub proof fn order_outlasts_growth(consumers: Seq<Consumer>, later: Seq<Consumer>, list: Seq<Link>)
    requires
        list_in_order(consumers, list),
        consumers.len() <= later.len(),
        forall|d: int|
            0 <= d < consumers.len() ==> (#[trigger] consumers[d]).generation <= later[d].generation,
    ensures
        list_in_order(later, list),
{
}

/// Tracking leaves a list in order. Afterwards every link but that of the reader leads to
/// a live consumer, and where there is a reader, the list holds a link to it in its present
/// generation.
pub proof fn tracking_keeps_order(consumers: Seq<Consumer>, active: nat, list: Seq<Link>)
    requires
        list_in_order(consumers, list),
    ensures
        list_in_order(consumers, relinked(consumers, active, list)),
        forall|k: int|
            0 <= k < relinked(consumers, active, list).len() ==> {
                ||| is_live(consumers, (#[trigger] relinked(consumers, active, list)[k]).consumer)
                ||| relinked(consumers, active, list)[k].consumer == active
            },
        active < consumers.len() ==> exists|k: int|
            0 <= k < relinked(consumers, active, list).len() && #[trigger] relinked(
                consumers,
                active,
                list,
            )[k] == (Link { generation: consumers[active as int].generation, consumer: active }),
{
    let live = |link: Link| is_live(consumers, link.consumer);
    let kept = keep_live(consumers, list);
    filter_keeps_order(consumers, list, live);
    let out = relinked(consumers, active, list);
    if active < consumers.len() {
        let mine = Link { generation: consumers[active as int].generation, consumer: active };
        let fresh = refreshed(kept, mine);
        if names(kept, active) {
            let k = choose|k: int| 0 <= k < kept.len() && (#[trigger] kept[k]).consumer == active;
            assert(out[k] == mine);
        } else {
            assert(out[fresh.len() as int] == mine);
        }
    }
}

/// A list in order is no longer than there are consumers: what depends on a source at any
/// one time bounds the source's downstream list, however often the dependencies change.
pub proof fn a_list_in_order_is_short(consumers: Seq<Consumer>, list: Seq<Link>)
    requires
        list_in_order(consumers, list),
    ensures
        list.len() <= consumers.len(),
{
    let targets = list.map_values(|link: Link| link.consumer as int);
    targets.unique_seq_to_set();
    let all = vstd::set_lib::set_int_range(0, consumers.len() as int);
    vstd::set_lib::lemma_int_range(0, consumers.len() as int);
    vstd::set_lib::lemma_len_subset(targets.to_set(), all);
}

/// A context starts with its links in order: its first consumer is read by nobody.
pub proof fn order_at_the_start(root: Consumer)
    requires
        root.downstream.len() == 0,
    ensures
        Graph::rooted_at(root).links_in_order(),
{
}

/// New sources, new consumers, new identifiers, another active consumer and a cleared
/// dirty flag leave the links in order.
pub proof fn bookkeeping_keeps_order(graph: Graph, count: nat, active: nat)
    requires
        graph.links_in_order(),
    ensures
        graph.add_source().links_in_order(),
        graph.add_consumer().links_in_order(),
        graph.issue_ids(count).links_in_order(),
        graph.with_current(active).links_in_order(),
        graph.clean_current().links_in_order(),
{
}

/// A read of a source leaves the links in order.
pub proof fn reading_a_source_keeps_order(graph: Graph, s: nat)
    requires
        graph.links_in_order(),
    ensures
        graph.track_source(s).links_in_order(),
{
    if s < graph.sources.len() {
        tracking_keeps_order(graph.consumers, graph.current, graph.sources[s as int]);
    }
}

/// A read of a consumer's output leaves the links in order.
pub proof fn reading_a_consumer_keeps_order(graph: Graph, d: nat)
    requires
        graph.links_in_order(),
    ensures
        graph.track_consumer(d).links_in_order(),
{
    if d < graph.consumers.len() {
        tracking_keeps_order(graph.consumers, graph.current, graph.consumers[d as int].downstream);
    }
}

/// A call of a node, up to the moment at which it decides whether to run, leaves the
/// links in order.
pub proof fn entering_keeps_order(graph: Graph, handle: Option<nat>)
    requires
        graph.links_in_order(),
    ensures
        graph.attach(handle).links_in_order(),
        graph.enter(handle).links_in_order(),
{
    bookkeeping_keeps_order(graph, 0, 0);
    reading_a_consumer_keeps_order(graph.attach(handle), graph.slot(handle));
}

/// Dirtying leaves the links in order.
pub proof fn dirtying_keeps_order(graph: Graph, s: nat)
    requires
        graph.links_in_order(),
    ensures
        graph.invalidate(s).links_in_order(),
{
    if s < graph.sources.len() {
        let after = graph.invalidate(s);
        let current = |link: Link| is_current(graph.consumers, link);
        assert forall|t: int| 0 <= t < after.sources.len() implies list_in_order(
            after.consumers,
            #[trigger] after.sources[t],
        ) by {
            if t == s {
                filter_keeps_order(graph.consumers, graph.sources[t], current);
            }
        }
        assert forall|x: int| 0 <= x < after.consumers.len() implies list_in_order(
            after.consumers,
            (#[trigger] after.consumers[x]).downstream,
        ) by {
            filter_keeps_order(graph.consumers, graph.consumers[x].downstream, current);
        }
    }
}

/// The start of a run and the end of a consumer leave the links in order.
pub proof fn running_and_expiry_keep_order(graph: Graph, d: nat)
    requires
        graph.links_in_order(),
    ensures
        graph.begin_run(d).links_in_order(),
        graph.expire(d).links_in_order(),
{
}

/// After dirtying, the downstream list of the source that changed holds current links
/// only: none to a consumer that is gone, none to a consumer that has run since the link was
/// made.
pub proof fn dirtying_reaps_the_list(graph: Graph, s: nat, k: int)
    requires
        s < graph.sources.len(),
        0 <= k < graph.invalidate(s).sources[s as int].len(),
    ensures
        is_current(graph.consumers, graph.invalidate(s).sources[s as int][k]),
        is_current(graph.invalidate(s).consumers, graph.invalidate(s).sources[s as int][k]),
{
    graph.sources[s as int].lemma_filter_pred(|link: Link| is_current(graph.consumers, link), k);
}

/// After a read of a source, its downstream list holds no link to a consumer that is gone,
/// unless it is the reader's own.
pub proof fn tracking_reaps_the_list(graph: Graph, s: nat, k: int)
    requires
        s < graph.sources.len(),
        0 <= k < graph.track_source(s).sources[s as int].len(),
    ensures
        graph.live(graph.track_source(s).sources[s as int][k].consumer) || graph.track_source(
            s,
        ).sources[s as int][k].consumer == graph.current,
{
    let list = graph.sources[s as int];
    if k < keep_live(graph.consumers, list).len() {
        list.lemma_filter_pred(|link: Link| is_live(graph.consumers, link.consumer), k);
    }
}

/// Dirtying is complete: a consumer that the change of a source concerns, because it
/// reads the source or because it reads the output of a consumer that the change concerns, is
/// dirty afterwards.
pub proof fn dirtying_is_complete(graph: Graph, s: nat, d: nat)
    requires
        graph.reaches(s, d),
    ensures
        graph.invalidate(s).live(d),
        graph.invalidate(s).consumers[d as int].dirty,
{
    let roots = graph.sources[s as int];
    let path = choose|path: Seq<nat>| #[trigger] is_chain(graph.consumers, roots, path) && path.last() == d;
    chain_members_exist(graph.consumers, roots, path, path.len() - 1);
}

/// Dirtying is exact: a consumer that the change does not concern is left as it was.
pub proof fn dirtying_is_exact(graph: Graph, s: nat, d: nat)
    requires
        d < graph.consumers.len(),
        !graph.reaches(s, d),
    ensures
        graph.invalidate(s).consumers[d as int] == graph.consumers[d as int],
{
}

/// Dirtying runs nothing and ends nothing: every consumer keeps its generation and stays
/// live or expired as it was, and a dirty one stays dirty.
pub proof fn dirtying_only_marks(graph: Graph, s: nat, d: nat)
    requires
        d < graph.consumers.len(),
    ensures
        graph.invalidate(s).consumers.len() == graph.consumers.len(),
        graph.invalidate(s).consumers[d as int].generation == graph.consumers[d as int].generation,
        graph.invalidate(s).consumers[d as int].expired == graph.consumers[d as int].expired,
        graph.consumers[d as int].dirty ==> graph.invalidate(s).consumers[d as int].dirty,
{
}

/// A change of a source concerns whoever reads the source.
pub proof fn a_change_concerns_the_readers(graph: Graph, s: nat, d: nat)
    requires
        graph.reads(d, s),
    ensures
        graph.reaches(s, d),
{
    reached_at_once(graph.consumers, graph.sources[s as int], d);
}

/// A change that concerns a consumer concerns whoever reads that consumer's output.
pub proof fn a_change_concerns_the_readers_of_readers(graph: Graph, s: nat, d: nat, next: nat)
    requires
        graph.reaches(s, d),
        d < graph.consumers.len(),
        feeds(graph.consumers, graph.consumers[d as int].downstream, next),
    ensures
        graph.reaches(s, next),
{
    reached_onward(graph.consumers, graph.sources[s as int], d, next);
}

/// A read makes a reader: after a live consumer has read a source, it is among the source's
/// readers, so that a change of the source concerns it.
pub proof fn a_read_makes_a_reader(graph: Graph, s: nat)
    requires
        s < graph.sources.len(),
        graph.live(graph.current),
    ensures
        graph.track_source(s).reads(graph.current, s),
{
    let list = graph.sources[s as int];
    let after = relinked(graph.consumers, graph.current, list);
    let kept = keep_live(graph.consumers, list);
    let mine = Link {
        generation: graph.consumers[graph.current as int].generation,
        consumer: graph.current,
    };
    if names(kept, graph.current) {
        let k = choose|k: int| 0 <= k < kept.len() && (#[trigger] kept[k]).consumer == graph.current;
        assert(after[k] == mine);
    } else {
        assert(after[kept.len() as int] == mine);
    }
}

/// A call makes a reader: after a live consumer has asked the consumer `d` for its output,
/// `d` feeds it, so that a change that concerns `d` concerns it too.
pub proof fn a_call_makes_a_reader(graph: Graph, d: nat)
    requires
        d < graph.consumers.len(),
        graph.live(graph.current),
    ensures
        feeds(
            graph.track_consumer(d).consumers,
            graph.track_consumer(d).consumers[d as int].downstream,
            graph.current,
        ),
{
    let list = graph.consumers[d as int].downstream;
    let after = relinked(graph.consumers, graph.current, list);
    let kept = keep_live(graph.consumers, list);
    let mine = Link {
        generation: graph.consumers[graph.current as int].generation,
        consumer: graph.current,
    };
    if names(kept, graph.current) {
        let k = choose|k: int| 0 <= k < kept.len() && (#[trigger] kept[k]).consumer == graph.current;
        assert(after[k] == mine);
    } else {
        assert(after[kept.len() as int] == mine);
    }
}

/// Tracking marks nothing: a read changes no consumer's generation and no flag.
pub proof fn tracking_marks_nothing(graph: Graph, s: nat, d: nat, x: nat)
    requires
        x < graph.consumers.len(),
    ensures
        graph.track_source(s).consumers == graph.consumers,
        graph.track_consumer(d).consumers.len() == graph.consumers.len(),
        graph.track_consumer(d).consumers[x as int].generation == graph.consumers[x as int].generation,
        graph.track_consumer(d).consumers[x as int].dirty == graph.consumers[x as int].dirty,
        graph.track_consumer(d).consumers[x as int].expired == graph.consumers[x as int].expired,
{
}

/// Tracking a list that has just been tracked changes nothing.
pub proof fn relinking_twice_is_relinking_once(consumers: Seq<Consumer>, active: nat, list: Seq<Link>)
    ensures
        relinked(consumers, active, relinked(consumers, active, list)) == relinked(
            consumers,
            active,
            list,
        ),
{
    let live = |link: Link| is_live(consumers, link.consumer);
    let kept = keep_live(consumers, list);
    let once = relinked(consumers, active, list);
    if active < consumers.len() {
        let mine = Link { generation: consumers[active as int].generation, consumer: active };
        let fresh = refreshed(kept, mine);
        if names(kept, active) {
            filter_keeps_all(once, live);
            let k = choose|k: int| 0 <= k < kept.len() && (#[trigger] kept[k]).consumer == active;
            assert(once[k].consumer == active);
        } else {
            assert(fresh =~= kept);
            if is_live(consumers, active) {
                filter_keeps_all(once, live);
                assert(once[kept.len() as int].consumer == active);
            } else {
                kept.lemma_filter_push(mine, live);
                filter_keeps_all(kept, live);
            }
        }
    } else {
        filter_keeps_all(kept, live);
    }
}

/// Tracking twice is tracking once: a second read by the same consumer, with nothing in
/// between, leaves the graph as the first read left it.
pub proof fn tracking_twice_is_tracking_once(graph: Graph, s: nat, d: nat)
    ensures
        graph.track_source(s).track_source(s) == graph.track_source(s),
        graph.track_consumer(d).track_consumer(d) == graph.track_consumer(d),
{
    if s < graph.sources.len() {
        relinking_twice_is_relinking_once(graph.consumers, graph.current, graph.sources[s as int]);
        assert(graph.track_source(s).track_source(s).sources =~= graph.track_source(s).sources);
    }
    if d < graph.consumers.len() {
        let once = graph.track_consumer(d);
        let list = graph.consumers[d as int].downstream;
        relinking_twice_is_relinking_once(graph.consumers, graph.current, list);
        keep_live_agrees(
            once.consumers,
            graph.consumers,
            relinked(graph.consumers, graph.current, list),
        );
        assert(once.track_consumer(d).consumers =~= once.consumers);
    }
}

/// Every step leads on: no operation removes a consumer, a source or an identifier, lowers
/// a generation or revives a consumer.
pub proof fn every_step_leads_on(graph: Graph, s: nat, d: nat, count: nat, handle: Option<nat>)
    ensures
        graph.leads_to(graph),
        graph.leads_to(graph.add_source()),
        graph.leads_to(graph.add_consumer()),
        graph.leads_to(graph.issue_ids(count)),
        graph.leads_to(graph.with_current(d)),
        graph.leads_to(graph.clean_current()),
        graph.leads_to(graph.track_source(s)),
        graph.leads_to(graph.track_consumer(d)),
        graph.leads_to(graph.attach(handle)),
        graph.leads_to(graph.enter(handle)),
        graph.leads_to(graph.invalidate(s)),
        graph.leads_to(graph.begin_run(d)),
        graph.leads_to(graph.expire(d)),
{
}

/// What leads on, step by step, leads on.
pub proof fn leading_on_adds_up(first: Graph, second: Graph, third: Graph)
    requires
        first.leads_to(second),
        second.leads_to(third),
    ensures
        first.leads_to(third),
{
}

/// A run counts once: at the start of a run the consumer that runs is clean and exactly one
/// generation further, and every other consumer is as it was.
pub proof fn a_run_counts_once(graph: Graph, d: nat, x: nat)
    requires
        d < graph.consumers.len(),
        x < graph.consumers.len(),
    ensures
        graph.begin_run(d).consumers[d as int].generation == graph.consumers[d as int].generation + 1,
        !graph.begin_run(d).consumers[d as int].dirty,
        x != d ==> graph.begin_run(d).consumers[x as int] == graph.consumers[x as int],
{
}

/// Only a run counts: whatever else happens, every consumer keeps its generation.
pub proof fn only_a_run_counts(graph: Graph, s: nat, d: nat, count: nat, handle: Option<nat>, x: nat)
    requires
        x < graph.consumers.len(),
    ensures
        graph.add_source().consumers[x as int].generation == graph.consumers[x as int].generation,
        graph.add_consumer().consumers[x as int].generation == graph.consumers[x as int].generation,
        graph.issue_ids(count).consumers[x as int].generation == graph.consumers[x as int].generation,
        graph.with_current(d).consumers[x as int].generation == graph.consumers[x as int].generation,
        graph.clean_current().consumers[x as int].generation == graph.consumers[x as int].generation,
        graph.track_source(s).consumers[x as int].generation == graph.consumers[x as int].generation,
        graph.track_consumer(d).consumers[x as int].generation
            == graph.consumers[x as int].generation,
        graph.enter(handle).consumers[x as int].generation == graph.consumers[x as int].generation,
        graph.invalidate(s).consumers[x as int].generation == graph.consumers[x as int].generation,
        graph.expire(d).consumers[x as int].generation == graph.consumers[x as int].generation,
{
}

/// A change forces a run: once a source has changed, every memoized function that the
/// change concerns runs its closure at its next call, whatever the input.
pub proof fn a_change_forces_a_run<I, O>(memo: Memo<I, O>, graph: Graph, s: nat)
    requires
        memo.consumer is Some,
        graph.reaches(s, memo.consumer->0),
    ensures
        memo.must_run(graph.invalidate(s)),
{
    dirtying_is_complete(graph, s, memo.consumer->0);
}

/// A change forces an effect: once a source has changed, every effect that the change
/// concerns runs its closure at its next call.
pub proof fn a_change_forces_an_effect(graph: Graph, s: nat, d: nat)
    requires
        graph.reaches(s, d),
    ensures
        graph.invalidate(s).holds(Some(d)),
        graph.invalidate(s).dirty_of(Some(d)),
{
    dirtying_is_complete(graph, s, d);
}

/// A quiet node stays quiet: a call that found nothing to do leaves the node as ready to
/// hand out its cached output as it was, and a second such call leaves the graph as the first
/// left it.
pub proof fn a_quiet_node_stays_quiet<I, O>(memo: Memo<I, O>, graph: Graph)
    requires
        !memo.must_run(graph),
    ensures
        graph.slot(memo.consumer) == memo.consumer->0,
        !memo.must_run(graph.enter(memo.consumer)),
        graph.enter(memo.consumer).enter(memo.consumer) == graph.enter(memo.consumer),
{
    let d = memo.consumer->0;
    tracking_twice_is_tracking_once(graph, 0, d);
}

/// A run is remembered: at the start of a run the node is clean, so that a call with an
/// equal input that follows a run during which nothing it depends on has changed hands out
/// the cached output.
pub proof fn a_run_is_remembered<I, O>(memo: Memo<I, O>, graph: Graph, input: I, output: O)
    ensures
        !(Memo {
            last_input: Some(input),
            cached: Some(output),
            consumer: Some(graph.slot(memo.consumer)),
        }).must_run(memo.running(graph)),
        memo.running(graph).consumers[graph.slot(memo.consumer) as int].generation
            == graph.generation_of(memo.consumer) + 1,
        memo.running(graph).current == graph.slot(memo.consumer),
{
}

} // verus!
