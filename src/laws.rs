use vstd::prelude::*;
use crate::pool::QueryPool;
use crate::profiler::{
    PendingFrame, evicted_pools, kept_frame_count, resolve_commands, resolved_pools,
};
use crate::results::{children_of, forest, forest_of};
use crate::scope::{GpuTimerScope, ProfilerCommand};

verus! {

/// Resolving twice in a row: the second pass finds nothing to resolve, hands
/// out no command and leaves the pools as the first pass left them.
pub proof fn lemma_resolve_idempotent(pools: Seq<QueryPool>)
    ensures
        resolve_commands(resolved_pools(pools)) == Seq::<ProfilerCommand>::empty(),
        resolved_pools(resolved_pools(pools)) == resolved_pools(pools),
    decreases pools.len(),
{
    assert(resolved_pools(resolved_pools(pools)) =~= resolved_pools(pools));
    if pools.len() > 0 {
        lemma_resolve_idempotent(pools.drop_last());
        assert(resolved_pools(pools).drop_last() =~= resolved_pools(pools.drop_last()));
    }
}

/// With `max` pending frames queued under a bound of `max`, ending a frame
/// drops exactly one of them, the newest: the others stay, in order, and
/// only the newest frame's pools are given back.
pub proof fn lemma_eviction_drops_newest(pending: Seq<PendingFrame>, max: int)
    requires
        max >= 1,
        pending.len() == max,
    ensures
        kept_frame_count(pending.len() as int, max) == max - 1,
        pending.take(kept_frame_count(pending.len() as int, max)) == pending.drop_last(),
        evicted_pools(pending.subrange(kept_frame_count(pending.len() as int, max), pending.len() as int))
            == pending.last().query_pools@,
{
    let keep = max - 1;
    assert(pending.take(keep) =~= pending.drop_last());
    let sub = pending.subrange(keep, pending.len() as int);
    assert(sub.drop_first().len() == 0);
    assert(evicted_pools(sub.drop_first()) == Seq::<QueryPool>::empty());
    assert(Seq::<QueryPool>::empty() + pending.last().query_pools@ =~= pending.last().query_pools@);
}

/// Below a pending-frame bound, ending a frame evicts nothing.
pub proof fn lemma_no_eviction_below_bound(pending: Seq<PendingFrame>, max: int)
    requires
        pending.len() < max,
    ensures
        kept_frame_count(pending.len() as int, max) == pending.len(),
        pending.take(kept_frame_count(pending.len() as int, max)) == pending,
        evicted_pools(pending.subrange(kept_frame_count(pending.len() as int, max), pending.len() as int))
            == Seq::<QueryPool>::empty(),
{
    assert(pending.take(pending.len() as int) =~= pending);
    assert(pending.subrange(pending.len() as int, pending.len() as int).len() == 0);
}

/// A scope without a query pair adds no node: in its place stand the
/// results of its own children, one level higher.
pub proof fn lemma_untimed_scope_transparent(
    scopes: Seq<GpuTimerScope>,
    list: Seq<GpuTimerScope>,
    s: GpuTimerScope,
    data: Seq<Seq<u8>>,
    depth: nat,
)
    requires
        depth > 0,
        s.query.is_none(),
    ensures
        forest_of(scopes, list.push(s), data, depth) == forest_of(scopes, list, data, depth) + forest(
            scopes,
            data,
            s.handle,
            (depth - 1) as nat,
        ),
{
    assert(list.push(s).drop_last() == list);
}

/// Where every scope carries timing, each level of the result tree lists
/// the scopes of that level in the order they were closed, under their own
/// labels, each with the results of the scopes filed under its handle.
pub proof fn lemma_forest_mirrors_close_order(
    scopes: Seq<GpuTimerScope>,
    list: Seq<GpuTimerScope>,
    data: Seq<Seq<u8>>,
    depth: nat,
)
    requires
        depth > 0,
        forall|i: int| 0 <= i < list.len() ==> (#[trigger] list[i]).query.is_some(),
    ensures
        forest_of(scopes, list, data, depth).len() == list.len(),
        forall|i: int|
            0 <= i < list.len() ==> {
                let node = #[trigger] forest_of(scopes, list, data, depth)[i];
                &&& node.label == list[i].label@
                &&& node.pid == list[i].pid
                &&& node.tid == list[i].tid
                &&& node.children == forest(scopes, data, list[i].handle, (depth - 1) as nat)
            },
    decreases list.len(),
{
    if list.len() > 0 {
        let rest = list.drop_last();
        assert forall|i: int| 0 <= i < rest.len() implies (#[trigger] rest[i]).query.is_some() by {
            assert(rest[i] == list[i]);
        }
        lemma_forest_mirrors_close_order(scopes, rest, data, depth);
        let f = forest_of(scopes, list, data, depth);
        let g = forest_of(scopes, rest, data, depth);
        assert(list.last().query.is_some());
        assert forall|i: int| 0 <= i < list.len() implies {
            let node = #[trigger] f[i];
            &&& node.label == list[i].label@
            &&& node.pid == list[i].pid
            &&& node.tid == list[i].tid
            &&& node.children == forest(scopes, data, list[i].handle, (depth - 1) as nat)
        } by {
            if i < rest.len() {
                assert(f[i] == g[i]);
                assert(rest[i] == list[i]);
            }
        }
    }
}

/// The scopes filed under a parent keep the order in which they were
/// closed: closing one more scope appends it to its parent's list and
/// changes no other list.
pub proof fn lemma_children_in_close_order(scopes: Seq<GpuTimerScope>, s: GpuTimerScope, parent: u32)
    ensures
        children_of(scopes.push(s), parent) == (if s.parent_handle == parent {
            children_of(scopes, parent).push(s)
        } else {
            children_of(scopes, parent)
        }),
{
    assert(scopes.push(s).drop_last() == scopes);
}

} // verus!
