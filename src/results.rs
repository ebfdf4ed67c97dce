use vstd::prelude::*;
use crate::pool::QUERY_SIZE;
use crate::scope::GpuTimerScope;

verus! {

/// One node of a result tree, as a mathematical value.
pub ghost struct ScopeNode {
    pub label: Seq<char>,
    pub pid: u32,
    pub tid: u64,
    pub start_ticks: u64,
    pub end_ticks: u64,
    pub children: Seq<ScopeNode>,
}

/// The measured time of a closed scope, in raw timestamp ticks.
#[derive(Debug)]
pub struct GpuTimerScopeResult {
    /// Label that was given when the scope was opened.
    pub label: String,
    pub pid: u32,
    pub tid: u64,
    /// Raw timestamp written when the scope began.
    pub start_ticks: u64,
    /// Raw timestamp written when the scope ended.
    pub end_ticks: u64,
    /// Results of the scopes nested in this one, in the order they were closed.
    pub nested_scopes: Vec<GpuTimerScopeResult>,
}

pub open spec fn result_node(r: GpuTimerScopeResult) -> ScopeNode
    decreases r,
{
    ScopeNode {
        label: r.label@,
        pid: r.pid,
        tid: r.tid,
        start_ticks: r.start_ticks,
        end_ticks: r.end_ticks,
        children: result_nodes(r.nested_scopes@),
    }
}

pub open spec fn result_nodes(rs: Seq<GpuTimerScopeResult>) -> Seq<ScopeNode>
    decreases rs,
{
    if rs.len() == 0 {
        Seq::empty()
    } else {
        result_nodes(rs.drop_last()).push(result_node(rs.last()))
    }
}

/// The little-endian value of the eight bytes of `b` from `off` on.
pub open spec fn le_u64(b: Seq<u8>, off: int) -> int {
    b[off] + b[off + 1] * 0x100 + b[off + 2] * 0x1_0000 + b[off + 3] * 0x100_0000
        + b[off + 4] * 0x1_0000_0000 + b[off + 5] * 0x100_0000_0000
        + b[off + 6] * 0x1_0000_0000_0000 + b[off + 7] * 0x100_0000_0000_0000
}

/// Reads the little-endian `u64` at byte offset `off`.
pub fn read_u64_le(b: &Vec<u8>, off: usize) -> (r: u64)
    requires
        off + 8 <= b@.len(),
    ensures
        r == le_u64(b@, off as int),
{
    assert(b.len() == b@.len());
    let b0 = b[off] as u64;
    let b1 = b[off + 1] as u64;
    let b2 = b[off + 2] as u64;
    let b3 = b[off + 3] as u64;
    let b4 = b[off + 4] as u64;
    let b5 = b[off + 5] as u64;
    let b6 = b[off + 6] as u64;
    let b7 = b[off + 7] as u64;
    b0 + b1 * 0x100 + b2 * 0x1_0000 + b3 * 0x100_0000 + b4 * 0x1_0000_0000 + b5 * 0x100_0000_0000
        + b6 * 0x1_0000_0000_0000 + b7 * 0x100_0000_0000_0000
}

/// The closed scopes whose parent is `parent`, in the order they were closed.
pub open spec fn children_of(scopes: Seq<GpuTimerScope>, parent: u32) -> Seq<GpuTimerScope>
    decreases scopes.len(),
{
    if scopes.len() == 0 {
        Seq::empty()
    } else if scopes.last().parent_handle == parent {
        children_of(scopes.drop_last(), parent).push(scopes.last())
    } else {
        children_of(scopes.drop_last(), parent)
    }
}

/// Start tick of a scope that holds a query pair, read from the mapped buffers.
pub open spec fn start_ticks_of(s: GpuTimerScope, data: Seq<Seq<u8>>) -> int {
    le_u64(data[s.query->0.pool_index as int], s.query->0.start_query_idx * QUERY_SIZE)
}

/// End tick of a scope that holds a query pair, read from the mapped buffers.
pub open spec fn end_ticks_of(s: GpuTimerScope, data: Seq<Seq<u8>>) -> int {
    le_u64(data[s.query->0.pool_index as int], (s.query->0.start_query_idx + 1) * QUERY_SIZE)
}

/// The result forest of the scopes in `list`, each looked up among `scopes`
/// for its own children, up to `depth` levels deep. A scope without a query
/// pair adds no node: its children's results stand in its place.
pub open spec fn forest_of(
    scopes: Seq<GpuTimerScope>,
    list: Seq<GpuTimerScope>,
    data: Seq<Seq<u8>>,
    depth: nat,
) -> Seq<ScopeNode>
    decreases depth, list.len(),
{
    if list.len() == 0 || depth == 0 {
        Seq::empty()
    } else {
        let s = list.last();
        let kids = forest_of(scopes, children_of(scopes, s.handle), data, (depth - 1) as nat);
        let before = forest_of(scopes, list.drop_last(), data, depth);
        if s.query.is_some() {
            before.push(
                ScopeNode {
                    label: s.label@,
                    pid: s.pid,
                    tid: s.tid,
                    start_ticks: start_ticks_of(s, data) as u64,
                    end_ticks: end_ticks_of(s, data) as u64,
                    children: kids,
                },
            )
        } else {
            before + kids
        }
    }
}

/// The result forest below `parent`.
pub open spec fn forest(scopes: Seq<GpuTimerScope>, data: Seq<Seq<u8>>, parent: u32, depth: nat) -> Seq<
    ScopeNode,
> {
    forest_of(scopes, children_of(scopes, parent), data, depth)
}

/// The bytes of each mapped buffer.
pub open spec fn buffer_bytes(data: Seq<Vec<u8>>) -> Seq<Seq<u8>> {
    data.map_values(|v: Vec<u8>| v@)
}

/// Every query pair among `scopes` can be read from `data`.
pub open spec fn scopes_readable(scopes: Seq<GpuTimerScope>, data: Seq<Seq<u8>>) -> bool {
    forall|i: int|
        0 <= i < scopes.len() && (#[trigger] scopes[i]).query.is_some() ==> {
            let q = scopes[i].query->0;
            &&& q.pool_index < data.len()
            &&& (q.start_query_idx + 2) * QUERY_SIZE <= data[q.pool_index as int].len()
        }
}

pub proof fn lemma_result_nodes_append(a: Seq<GpuTimerScopeResult>, b: Seq<GpuTimerScopeResult>)
    ensures
        result_nodes(a + b) == result_nodes(a) + result_nodes(b),
    decreases b.len(),
{
    if b.len() == 0 {
        assert(a + b == a);
    } else {
        lemma_result_nodes_append(a, b.drop_last());
        assert((a + b).drop_last() == a + b.drop_last());
        assert((a + b).last() == b.last());
    }
}

/// Builds the results of the closed scopes whose parent is `parent`.
pub fn build_forest(
    scopes: &Vec<GpuTimerScope>,
    data: &Vec<Vec<u8>>,
    parent: u32,
    depth: usize,
) -> (r: Vec<GpuTimerScopeResult>)
    requires
        scopes_readable(scopes@, buffer_bytes(data@)),
    ensures
        result_nodes(r@) == forest(scopes@, buffer_bytes(data@), parent, depth as nat),
    decreases depth,
{
    let ghost bytes = buffer_bytes(data@);
    let mut out: Vec<GpuTimerScopeResult> = Vec::new();
    if depth == 0 {
        return out;
    }
    let mut i: usize = 0;
    while i < scopes.len()
        invariant
            0 < depth,
            i <= scopes@.len(),
            bytes == buffer_bytes(data@),
            scopes_readable(scopes@, bytes),
            result_nodes(out@) == forest_of(
                scopes@,
                children_of(scopes@.take(i as int), parent),
                bytes,
                depth as nat,
            ),
        decreases scopes@.len() - i,
    {
        let ghost prefix = scopes@.take(i as int);
        assert(scopes@.take(i as int + 1).drop_last() == prefix);
        let s = &scopes[i];
        if s.parent_handle == parent {
            let ghost list = children_of(scopes@.take(i as int + 1), parent);
            assert(list == children_of(prefix, parent).push(*s));
            assert(list.drop_last() == children_of(prefix, parent));
            let mut kids = build_forest(scopes, data, s.handle, depth - 1);
            match &s.query {
                Some(q) => {
                    assert(scopes@[i as int].query.is_some());
                    let buf = &data[q.pool_index];
                    assert(buf@ == bytes[q.pool_index as int]);
                    assert(buf.len() == buf@.len());
                    assert((q.start_query_idx + 2) * QUERY_SIZE <= buf@.len());
                    let off = q.start_query_idx as usize * QUERY_SIZE as usize;
                    let start_ticks = read_u64_le(buf, off);
                    let end_ticks = read_u64_le(buf, off + QUERY_SIZE as usize);
                    let node = GpuTimerScopeResult {
                        label: s.label.clone(),
                        pid: s.pid,
                        tid: s.tid,
                        start_ticks,
                        end_ticks,
                        nested_scopes: kids,
                    };
                    let ghost before = out@;
                    assert(result_node(node).children == forest(scopes@, bytes, s.handle, (depth - 1) as nat));
                    assert(result_node(node) == ScopeNode {
                        label: s.label@,
                        pid: s.pid,
                        tid: s.tid,
                        start_ticks: start_ticks_of(*s, bytes) as u64,
                        end_ticks: end_ticks_of(*s, bytes) as u64,
                        children: forest(scopes@, bytes, s.handle, (depth - 1) as nat),
                    });
                    out.push(node);
                    assert(out@.drop_last() == before);
                    assert(result_nodes(out@) == result_nodes(before).push(result_node(node)));
                },
                None => {
                    let ghost before = out@;
                    let ghost kid_seq = kids@;
                    out.append(&mut kids);
                    proof {
                        lemma_result_nodes_append(before, kid_seq);
                    }
                    assert(result_nodes(out@) == result_nodes(before) + forest(scopes@, bytes, s.handle, (depth - 1) as nat));
                },
            }
        } else {
            assert(children_of(scopes@.take(i as int + 1), parent) == children_of(prefix, parent));
        }
        i = i + 1;
    }
    assert(scopes@.take(scopes@.len() as int) == scopes@);
    out
}

} // verus!
