//! Tracking: how a read enters the reader into a downstream list.

use vstd::prelude::*;
use crate::context::{consumers_of, links, Dependent, Edge};
use crate::graph::{is_live, keep_live, names, refreshed, relinked, Consumer, Link};

verus! {

/// Dropping dead links from a list that grew by one link.
pub(crate) proof fn keep_live_push(consumers: Seq<Consumer>, list: Seq<Link>, link: Link)
    ensures
        keep_live(consumers, list.push(link)) == if is_live(consumers, link.consumer) {
            keep_live(consumers, list).push(link)
        } else {
            keep_live(consumers, list)
        },
{
    list.lemma_filter_push(link, |link: Link| is_live(consumers, link.consumer));
}

/// Refreshing a list that grew by one link.
pub(crate) proof fn refreshed_push(list: Seq<Link>, link: Link, mine: Link)
    ensures
        refreshed(list.push(link), mine) == refreshed(list, mine).push(
            if link.consumer == mine.consumer {
                mine
            } else {
                link
            },
        ),
{
}

/// The links of a stored list that grew by one edge.
pub(crate) proof fn links_push(edges: Seq<Edge>, edge: Edge)
    ensures
        links(edges.push(edge)) == links(edges).push(edge@),
{
}

/// A list that grew by one link names `d` if the shorter list did or the new link does.
pub(crate) proof fn names_push(list: Seq<Link>, link: Link, d: nat)
    ensures
        names(list.push(link), d) <==> names(list, d) || link.consumer == d,
{
    let longer = list.push(link);
    if names(list, d) {
        let i = choose|i: int| 0 <= i < list.len() && (#[trigger] list[i]).consumer == d;
        assert(longer[i].consumer == d);
    }
    if link.consumer == d {
        assert(longer[list.len() as int].consumer == d);
    }
}

/// Enters the consumer `active` into `list`, as a read on its behalf does: links to
/// consumers that are gone leave the list, a link to `active` is brought to its present
/// generation, and one is added at the end if there was none.
pub(crate) fn track(list: &mut Vec<Edge>, records: &Vec<Dependent>, active: usize)
    ensures
        links(final(list)@) == relinked(consumers_of(records@), active as nat, links(old(list)@)),
{
    let ghost consumers = consumers_of(records@);
    let ghost before = links(list@);
    let has_active = active < records.len();
    let ghost mine = if has_active {
        Link { generation: consumers[active as int].generation, consumer: active as nat }
    } else {
        Link { generation: 0, consumer: active as nat }
    };
    let mut kept: Vec<Edge> = Vec::new();
    let mut found = false;
    let n = list.len();
    let mut i: usize = 0;
    while i < n
        invariant
            i <= n,
            n == list.len(),
            before == links(list@),
            consumers == consumers_of(records@),
            has_active == (active < records.len()),
            mine.consumer == active,
            has_active ==> mine.generation == consumers[active as int].generation,
            links(kept@) == if has_active {
                refreshed(keep_live(consumers, before.take(i as int)), mine)
            } else {
                keep_live(consumers, before.take(i as int))
            },
            found == (has_active && names(keep_live(consumers, before.take(i as int)), active as nat)),
        decreases n - i,
    {
        let e = list[i];
        let ghost prefix = keep_live(consumers, before.take(i as int));
        let ghost shorter = kept@;
        proof {
            assert(before.take(i + 1) =~= before.take(i as int).push(e@));
            keep_live_push(consumers, before.take(i as int), e@);
            names_push(prefix, e@, active as nat);
            refreshed_push(prefix, e@, mine);
        }
        if e.consumer < records.len() && !records[e.consumer].expired {
            if e.consumer == active {
                let fresh = Edge { generation: records[active].generation, consumer: active };
                kept.push(fresh);
                found = true;
                proof {
                    links_push(shorter, fresh);
                }
            } else {
                kept.push(e);
                proof {
                    links_push(shorter, e);
                }
            }
        }
        i += 1;
    }
    assert(before.take(n as int) =~= before);
    if has_active && !found {
        let fresh = Edge { generation: records[active].generation, consumer: active };
        proof {
            links_push(kept@, fresh);
        }
        kept.push(fresh);
    }
    *list = kept;
}

} // verus!
