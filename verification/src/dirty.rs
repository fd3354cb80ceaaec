//! Dirtying: how a change spreads to the consumers it concerns.
//!
//! The pass walks the downstream list of the source that changed, then the list of every
//! consumer it marks, each list once. A consumer waits on a stack between the moment it is
//! first marked and the moment its own list is walked, so a cycle among consumers ends the
//! walk instead of prolonging it.

use vstd::prelude::*;
use crate::context::{consumers_of, links, Dependent, Edge};
use crate::graph::{
    chain_stays_inside, feeds, is_chain, is_current, keep_current, reached, reached_at_once,
    reached_onward, swept, Consumer, Link,
};
use crate::track::links_push;

verus! {

/// The consumer `d` is on the stack.
pub(crate) open spec fn waiting(stack: Seq<usize>, d: int) -> bool {
    exists|i: int| 0 <= i < stack.len() && #[trigger] stack[i] == d
}

/// How many consumers have not been marked in this pass.
pub(crate) open spec fn unvisited(visited: Seq<bool>) -> nat
    decreases visited.len(),
{
    if visited.len() == 0 {
        0
    } else {
        unvisited(visited.drop_last()) + if visited.last() {
            0nat
        } else {
            1nat
        }
    }
}

/// The consumer `d` has been marked and its own list has been walked.
pub(crate) open spec fn settled(visited: Seq<bool>, stack: Seq<usize>, busy: Option<int>, d: int) -> bool {
    visited[d] && !waiting(stack, d) && busy != Some(d)
}

/// What holds in the middle of a pass that started from the consumers `origin` and the list
/// `roots`. `busy` is the consumer whose list is being walked and is therefore out of its
/// record for the moment.
pub(crate) open spec fn touring(
    origin: Seq<Consumer>,
    roots: Seq<Link>,
    now: Seq<Consumer>,
    visited: Seq<bool>,
    stack: Seq<usize>,
    busy: Option<int>,
) -> bool {
    &&& now.len() == origin.len()
    &&& visited.len() == origin.len()
    &&& forall|d: int|
        0 <= d < origin.len() ==> {
            &&& (#[trigger] now[d]).generation == origin[d].generation
            &&& now[d].expired == origin[d].expired
            &&& now[d].dirty == (origin[d].dirty || visited[d])
        }
    &&& forall|d: int| 0 <= d < origin.len() && #[trigger] visited[d] ==> reached(origin, roots, d as nat)
    &&& forall|d: int|
        0 <= d < origin.len() && settled(visited, stack, busy, d) ==> (#[trigger] now[d]).downstream
            == keep_current(origin, origin[d].downstream)
    &&& forall|d: int, next: nat|
        0 <= d < origin.len() && settled(visited, stack, busy, d) && #[trigger] feeds(
            origin,
            origin[d].downstream,
            next,
        ) ==> visited[next as int]
    &&& forall|d: int|
        0 <= d < origin.len() && !settled(visited, stack, busy, d) && busy != Some(d) ==> (
        #[trigger] now[d]).downstream == origin[d].downstream
    &&& forall|i: int| 0 <= i < stack.len() ==> (#[trigger] stack[i]) < origin.len() && visited[stack[i] as int]
    &&& forall|i: int, j: int| 0 <= i < j < stack.len() ==> #[trigger] stack[i] != #[trigger] stack[j]
    &&& busy matches Some(b) ==> 0 <= b < origin.len() && visited[b] && !waiting(stack, b)
}

/// Marking one more consumer leaves one fewer unmarked.
proof fn unvisited_after_mark(visited: Seq<bool>, c: int)
    requires
        0 <= c < visited.len(),
        !visited[c],
    ensures
        unvisited(visited.update(c, true)) + 1 == unvisited(visited),
    decreases visited.len(),
{
    let marked = visited.update(c, true);
    if c == visited.len() - 1 {
        assert(marked.drop_last() =~= visited.drop_last());
    } else {
        assert(marked.drop_last() =~= visited.drop_last().update(c, true));
        unvisited_after_mark(visited.drop_last(), c);
    }
}

/// The records after one of them was replaced.
proof fn consumers_of_update(records: Seq<Dependent>, d: int, record: Dependent)
    requires
        0 <= d < records.len(),
    ensures
        consumers_of(records.update(d, record)) == consumers_of(records).update(d, record@),
{
}

/// Dropping stale links from a list that grew by one link.
proof fn keep_current_push(consumers: Seq<Consumer>, list: Seq<Link>, link: Link)
    ensures
        keep_current(consumers, list.push(link)) == if is_current(consumers, link) {
            keep_current(consumers, list).push(link)
        } else {
            keep_current(consumers, list)
        },
{
    list.lemma_filter_push(link, |link: Link| is_current(consumers, link));
}

/// A pass stays in order when it marks a reached consumer `c` dirty and, if that had not
/// happened before, puts it on the stack.
proof fn touring_after_mark(
    origin: Seq<Consumer>,
    roots: Seq<Link>,
    now: Seq<Consumer>,
    visited: Seq<bool>,
    stack: Seq<usize>,
    busy: Option<int>,
    c: usize,
)
    requires
        touring(origin, roots, now, visited, stack, busy),
        c < origin.len(),
        reached(origin, roots, c as nat),
    ensures
        touring(
            origin,
            roots,
            now.update(c as int, Consumer { dirty: true, ..now[c as int] }),
            visited.update(c as int, true),
            if visited[c as int] {
                stack
            } else {
                stack.push(c)
            },
            busy,
        ),
{
    let longer = if visited[c as int] {
        stack
    } else {
        stack.push(c)
    };
    // Who waits afterwards waited before, or is `c` and has just been marked.
    assert forall|d: int| 0 <= d < origin.len() implies (waiting(longer, d) <==> waiting(stack, d)
        || (d == c && !visited[c as int])) by {
        if waiting(stack, d) {
            let i = choose|i: int| 0 <= i < stack.len() && #[trigger] stack[i] == d;
            assert(longer[i] == d);
        }
        if !visited[c as int] && d == c {
            assert(longer[stack.len() as int] == d);
        }
    }
}

/// Walks one downstream list: keeps the links that are current, marks the consumers they
/// lead to dirty, and puts those that were not marked before on the stack.
fn sweep(
    list: &Vec<Edge>,
    records: &mut Vec<Dependent>,
    visited: &mut Vec<bool>,
    stack: &mut Vec<usize>,
    Ghost(origin): Ghost<Seq<Consumer>>,
    Ghost(roots): Ghost<Seq<Link>>,
    Ghost(busy): Ghost<Option<int>>,
) -> (kept: Vec<Edge>)
    requires
        touring(origin, roots, consumers_of(old(records)@), old(visited)@, old(stack)@, busy),
        forall|c: nat| #[trigger] feeds(origin, links(list@), c) ==> reached(origin, roots, c),
    ensures
        touring(origin, roots, consumers_of(final(records)@), final(visited)@, final(stack)@, busy),
        links(kept@) == keep_current(origin, links(list@)),
        forall|c: nat| #[trigger] feeds(origin, links(list@), c) ==> final(visited)@[c as int],
        forall|d: int|
            0 <= d < old(visited)@.len() && old(visited)@[d] ==> #[trigger] final(visited)@[d],
        unvisited(final(visited)@) + final(stack)@.len() == unvisited(old(visited)@) + old(
            stack,
        )@.len(),
{
    let ghost all = links(list@);
    let ghost visited0 = visited@;
    let ghost stack0 = stack@;
    let mut kept: Vec<Edge> = Vec::new();
    let n = list.len();
    let mut i: usize = 0;
    while i < n
        invariant
            i <= n,
            n == list.len(),
            all == links(list@),
            touring(origin, roots, consumers_of(records@), visited@, stack@, busy),
            forall|c: nat| #[trigger] feeds(origin, all, c) ==> reached(origin, roots, c),
            links(kept@) == keep_current(origin, all.take(i as int)),
            forall|j: int|
                0 <= j < i && is_current(origin, #[trigger] all[j]) ==> visited@[all[j].consumer as int],
            visited@.len() == visited0.len(),
            forall|d: int| 0 <= d < visited0.len() && visited0[d] ==> #[trigger] visited@[d],
            unvisited(visited@) + stack@.len() == unvisited(visited0) + stack0.len(),
        decreases n - i,
    {
        let e = list[i];
        let c = e.consumer;
        let ghost now = consumers_of(records@);
        let ghost shorter = kept@;
        proof {
            assert(all[i as int] == e@);
            assert(all.take(i + 1) =~= all.take(i as int).push(e@));
            keep_current_push(origin, all.take(i as int), e@);
            if c < records.len() {
                assert(now[c as int] == records[c as int]@);
            }
        }
        if c < records.len() && !records[c].expired && records[c].generation <= e.generation {
            proof {
                assert(feeds(origin, all, c as nat));
                touring_after_mark(origin, roots, now, visited@, stack@, busy, c);
                links_push(shorter, e);
            }
            kept.push(e);
            let ghost before = records@;
            records[c].dirty = true;
            proof {
                consumers_of_update(before, c as int, records@[c as int]);
            }
            if !visited[c] {
                proof {
                    unvisited_after_mark(visited@, c as int);
                }
                visited.set(c, true);
                stack.push(c);
            }
        }
        i += 1;
    }
    proof {
        assert(all.take(n as int) =~= all);
    }
    kept
}

/// Marks dirty every consumer that a change behind the list `roots` concerns: the
/// consumers that its current links lead to, and in turn the consumers that theirs lead to.
/// Every list that is walked loses the links that are no longer current, `roots` first.
pub(crate) fn mark_dirty(roots: &mut Vec<Edge>, records: &mut Vec<Dependent>)
    ensures
        links(final(roots)@) == keep_current(consumers_of(old(records)@), links(old(roots)@)),
        consumers_of(final(records)@) == swept(consumers_of(old(records)@), links(old(roots)@)),
{
    let ghost origin = consumers_of(records@);
    let ghost start = links(roots@);
    let n = records.len();
    let mut visited: Vec<bool> = Vec::new();
    let mut k: usize = 0;
    while k < n
        invariant
            k <= n,
            visited@.len() == k,
            forall|d: int| 0 <= d < k ==> !(#[trigger] visited@[d]),
            unvisited(visited@) == k,
        decreases n - k,
    {
        proof {
            assert(visited@.push(false).drop_last() =~= visited@);
        }
        visited.push(false);
        k += 1;
    }
    let mut stack: Vec<usize> = Vec::new();
    proof {
        assert forall|c: nat| #[trigger] feeds(origin, start, c) implies reached(origin, start, c) by {
            reached_at_once(origin, start, c);
        }
    }
    let kept = sweep(roots, records, &mut visited, &mut stack, Ghost(origin), Ghost(start), Ghost(None));
    *roots = kept;
    while stack.len() > 0
        invariant
            touring(origin, start, consumers_of(records@), visited@, stack@, None),
            forall|c: nat| #[trigger] feeds(origin, start, c) ==> visited@[c as int],
        decreases unvisited(visited@) + stack@.len(),
    {
        let ghost stack_before = stack@;
        let ghost now = consumers_of(records@);
        let d = stack.pop().unwrap();
        let ghost busy = Some(d as int);
        let mut list: Vec<Edge> = Vec::new();
        proof {
            assert(now[d as int].downstream == origin[d as int].downstream);
        }
        let ghost before = records@;
        std::mem::swap(&mut list, &mut records[d].dependents);
        proof {
            consumers_of_update(before, d as int, records@[d as int]);
            // Taking `d` off the stack settles nobody: `d` is busy now.
            assert forall|x: int| 0 <= x < origin.len() implies (settled(visited@, stack@, busy, x)
                <==> settled(visited@, stack_before, None, x)) by {
                if x != d && waiting(stack_before, x) {
                    let i = choose|i: int| 0 <= i < stack_before.len() && #[trigger] stack_before[i] == x;
                    assert(stack@[i] == x);
                }
            }
            assert forall|c: nat| #[trigger] feeds(origin, links(list@), c) implies reached(
                origin,
                start,
                c,
            ) by {
                reached_onward(origin, start, d as nat, c);
            }
        }
        let kept = sweep(&list, records, &mut visited, &mut stack, Ghost(origin), Ghost(start), Ghost(busy));
        let ghost walked = records@;
        records[d].dependents = kept;
        proof {
            consumers_of_update(walked, d as int, records@[d as int]);
            // Putting the list back changes no generation and no flag.
            assert forall|x: int| 0 <= x < origin.len() implies {
                &&& (#[trigger] consumers_of(records@)[x]).generation == origin[x].generation
                &&& consumers_of(records@)[x].expired == origin[x].expired
                &&& consumers_of(records@)[x].dirty == (origin[x].dirty || visited@[x])
            } by {
                assert(consumers_of(walked)[x].generation == origin[x].generation);
            }
        }
    }
    proof {
        // The stack is empty: whoever is marked has had its list walked, so the marked
        // consumers hold every consumer at the end of a chain.
        let inside = Set::new(|d: nat| d < origin.len() && visited@[d as int]);
        assert forall|d: nat| 0 <= d < origin.len() && reached(origin, start, d) implies visited@[d as int] by {
            let path = choose|path: Seq<nat>| #[trigger] is_chain(origin, start, path) && path.last() == d;
            chain_stays_inside(origin, start, inside, path);
        }
    }
}

} // verus!
