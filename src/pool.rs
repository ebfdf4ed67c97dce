use vstd::prelude::*;

verus! {

/// Size in bytes of one resolved timestamp query.
pub const QUERY_SIZE: u32 = 8;

/// Largest number of queries a single query set may hold.
pub const QUERY_SET_MAX_QUERIES: u32 = 8192;

/// Smallest capacity of a freshly created query pool.
pub const MIN_QUERY_POOL_CAPACITY: u32 = 32;

/// How far the two timestamps of a reserved pair have been written.
#[derive(Clone, Copy, Debug, PartialEq, Eq, Structural)]
pub enum QueryPairUsageState {
    /// Reserved, nothing written yet.
    Reserved,
    /// Handed to a render or compute pass, which writes both timestamps itself.
    ReservedForPassTimestampWrites,
    /// The start timestamp has been written.
    OnlyStartWritten,
    /// Both timestamps have been written.
    BothStartAndEndWritten,
}

/// Two consecutive query slots of one pool: `start_query_idx` receives the
/// start timestamp, `start_query_idx + 1` the end timestamp.
#[derive(Clone, Copy, Debug, PartialEq, Eq, Structural)]
pub struct ReservedQueryPair {
    /// Position of the pool within the frame's list of used pools.
    pub pool_index: usize,
    /// Identity of the pool, shared with whoever owns its GPU resources.
    pub pool_id: u64,
    pub start_query_idx: u32,
    pub usage_state: QueryPairUsageState,
}

/// A bank of timestamp query slots and the bookkeeping of how many of them
/// have been handed out and copied to the readable buffer.
#[derive(Clone, Copy, Debug, PartialEq, Eq, Structural)]
pub struct QueryPool {
    pub id: u64,
    pub capacity: u32,
    pub num_used_queries: u32,
    pub num_resolved_queries: u32,
}

impl QueryPool {
    pub open spec fn wf(self) -> bool {
        &&& MIN_QUERY_POOL_CAPACITY <= self.capacity <= QUERY_SET_MAX_QUERIES
        &&& self.capacity % 2 == 0
        &&& self.num_used_queries % 2 == 0
        &&& self.num_resolved_queries <= self.num_used_queries <= self.capacity
    }

    /// The pool as it is after `reset`.
    pub open spec fn reset_spec(self) -> QueryPool {
        QueryPool { num_used_queries: 0, num_resolved_queries: 0, ..self }
    }

    /// The pool once every used slot has been resolved.
    pub open spec fn resolved_spec(self) -> QueryPool {
        QueryPool { num_resolved_queries: self.num_used_queries, ..self }
    }

    pub open spec fn is_pair_of(self, pair: ReservedQueryPair) -> bool {
        &&& pair.pool_id == self.id
        &&& pair.start_query_idx % 2 == 0
        &&& pair.start_query_idx + 2 <= self.num_used_queries
    }

    pub fn new(id: u64, capacity: u32) -> (r: QueryPool)
        ensures
            r == (QueryPool { id, capacity, num_used_queries: 0, num_resolved_queries: 0 }),
    {
        QueryPool { id, capacity, num_used_queries: 0, num_resolved_queries: 0 }
    }

    pub fn reset(&mut self)
        ensures
            *final(self) == old(self).reset_spec(),
    {
        self.num_used_queries = 0;
        self.num_resolved_queries = 0;
    }

    /// Takes the next two slots of this pool, if it has two left.
    pub fn try_reserve_query_pair(&mut self, pool_index: usize) -> (r: Option<ReservedQueryPair>)
        requires
            old(self).wf(),
        ensures
            r.is_some() <==> old(self).num_used_queries + 2 <= old(self).capacity,
            r.is_some() ==> r == Some(ReservedQueryPair {
                pool_index,
                pool_id: old(self).id,
                start_query_idx: old(self).num_used_queries,
                usage_state: QueryPairUsageState::Reserved,
            }),
            r.is_some() ==> *final(self) == (QueryPool {
                num_used_queries: (old(self).num_used_queries + 2) as u32,
                ..*old(self)
            }),
            r.is_none() ==> *final(self) == *old(self),
            final(self).wf(),
    {
        if self.capacity - self.num_used_queries < 2 {
            return None;
        }
        let start = self.num_used_queries;
        self.num_used_queries = start + 2;
        Some(ReservedQueryPair {
            pool_index,
            pool_id: self.id,
            start_query_idx: start,
            usage_state: QueryPairUsageState::Reserved,
        })
    }
}

/// Sum of the capacities of `pools`.
pub open spec fn total_capacity(pools: Seq<QueryPool>) -> int
    decreases pools.len(),
{
    if pools.len() == 0 {
        0
    } else {
        total_capacity(pools.drop_last()) + pools.last().capacity
    }
}

/// Sum of the used slots of `pools`.
pub open spec fn total_used(pools: Seq<QueryPool>) -> int
    decreases pools.len(),
{
    if pools.len() == 0 {
        0
    } else {
        total_used(pools.drop_last()) + pools.last().num_used_queries
    }
}

/// Sum of the used but not yet resolved slots of `pools`.
pub open spec fn total_unresolved(pools: Seq<QueryPool>) -> int
    decreases pools.len(),
{
    if pools.len() == 0 {
        0
    } else {
        total_unresolved(pools.drop_last()) + pools.last().num_used_queries
            - pools.last().num_resolved_queries
    }
}

pub open spec fn min_int(a: int, b: int) -> int {
    if a <= b { a } else { b }
}

pub open spec fn max_int(a: int, b: int) -> int {
    if a >= b { a } else { b }
}

pub open spec fn all_wf(pools: Seq<QueryPool>) -> bool {
    forall|i: int| 0 <= i < pools.len() ==> #[trigger] pools[i].wf()
}

pub open spec fn all_resolved(pools: Seq<QueryPool>) -> bool {
    forall|i: int|
        0 <= i < pools.len() ==> #[trigger] pools[i].num_resolved_queries
            == pools[i].num_used_queries
}

pub proof fn lemma_total_used_even(pools: Seq<QueryPool>)
    requires
        all_wf(pools),
    ensures
        total_used(pools) % 2 == 0,
        total_used(pools) >= 0,
    decreases pools.len(),
{
    if pools.len() > 0 {
        assert(pools.last().wf());
        lemma_total_used_even(pools.drop_last());
    }
}

pub proof fn lemma_total_capacity_even(pools: Seq<QueryPool>)
    requires
        all_wf(pools),
    ensures
        total_capacity(pools) % 2 == 0,
        total_capacity(pools) >= 0,
    decreases pools.len(),
{
    if pools.len() > 0 {
        assert(pools.last().wf());
        lemma_total_capacity_even(pools.drop_last());
    }
}

pub proof fn lemma_unresolved_zero(pools: Seq<QueryPool>)
    requires
        all_wf(pools),
    ensures
        total_unresolved(pools) >= 0,
        total_unresolved(pools) == 0 <==> all_resolved(pools),
    decreases pools.len(),
{
    if pools.len() > 0 {
        let rest = pools.drop_last();
        assert(pools.last().wf());
        lemma_unresolved_zero(rest);
        if all_resolved(pools) {
            assert forall|i: int| 0 <= i < rest.len() implies #[trigger] rest[i].num_resolved_queries
                == rest[i].num_used_queries by {
                assert(rest[i] == pools[i]);
            }
        }
        if total_unresolved(pools) == 0 {
            assert forall|i: int| 0 <= i < pools.len() implies #[trigger] pools[i].num_resolved_queries
                == pools[i].num_used_queries by {
                if i < rest.len() {
                    assert(rest[i] == pools[i]);
                }
            }
        }
    }
}

/// Sum of the capacities of `pools`, capped at the largest query set size.
pub fn capped_total_capacity(pools: &Vec<QueryPool>) -> (r: u32)
    requires
        all_wf(pools@),
    ensures
        r == min_int(total_capacity(pools@), QUERY_SET_MAX_QUERIES as int),
{
    let mut acc: u32 = 0;
    let mut i: usize = 0;
    while i < pools.len()
        invariant
            i <= pools@.len(),
            all_wf(pools@),
            acc == min_int(total_capacity(pools@.take(i as int)), QUERY_SET_MAX_QUERIES as int),
        decreases pools@.len() - i,
    {
        assert(pools@.take(i as int + 1).drop_last() == pools@.take(i as int));
        assert(pools@[i as int].wf());
        proof {
            lemma_total_capacity_even(pools@.take(i as int));
        }
        let c = pools[i].capacity;
        if acc + c >= QUERY_SET_MAX_QUERIES {
            acc = QUERY_SET_MAX_QUERIES;
        } else {
            acc = acc + c;
        }
        i = i + 1;
    }
    assert(pools@.take(pools@.len() as int) == pools@);
    acc
}

/// Sum of the unresolved slots of `pools`, saturating at `u32::MAX`.
pub fn saturating_total_unresolved(pools: &Vec<QueryPool>) -> (r: u32)
    requires
        all_wf(pools@),
    ensures
        r == min_int(total_unresolved(pools@), u32::MAX as int),
{
    let mut acc: u32 = 0;
    let mut i: usize = 0;
    while i < pools.len()
        invariant
            i <= pools@.len(),
            all_wf(pools@),
            acc == min_int(total_unresolved(pools@.take(i as int)), u32::MAX as int),
        decreases pools@.len() - i,
    {
        assert(pools@.take(i as int + 1).drop_last() == pools@.take(i as int));
        assert(pools@[i as int].wf());
        proof {
            lemma_unresolved_zero(pools@.take(i as int));
        }
        let d = pools[i].num_used_queries - pools[i].num_resolved_queries;
        if acc >= u32::MAX - d {
            acc = u32::MAX;
        } else {
            acc = acc + d;
        }
        i = i + 1;
    }
    assert(pools@.take(pools@.len() as int) == pools@);
    acc
}

/// Sum of the used slots of `pools`, capped at the largest query set size.
pub fn capped_total_used(pools: &Vec<QueryPool>) -> (r: u32)
    requires
        all_wf(pools@),
    ensures
        r == min_int(total_used(pools@), QUERY_SET_MAX_QUERIES as int),
{
    let mut acc: u32 = 0;
    let mut i: usize = 0;
    while i < pools.len()
        invariant
            i <= pools@.len(),
            all_wf(pools@),
            acc == min_int(total_used(pools@.take(i as int)), QUERY_SET_MAX_QUERIES as int),
        decreases pools@.len() - i,
    {
        assert(pools@.take(i as int + 1).drop_last() == pools@.take(i as int));
        assert(pools@[i as int].wf());
        proof {
            lemma_total_used_even(pools@.take(i as int));
        }
        let c = pools[i].num_used_queries;
        if acc + c >= QUERY_SET_MAX_QUERIES {
            acc = QUERY_SET_MAX_QUERIES;
        } else {
            acc = acc + c;
        }
        i = i + 1;
    }
    assert(pools@.take(pools@.len() as int) == pools@);
    acc
}

} // verus!
