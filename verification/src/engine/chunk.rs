use vstd::prelude::*;

verus! {

/// Number of consecutive node IDs stored together in one chunk on disk.
pub const CHUNK_SIZE: u32 = 100;

/// The chunk that holds a node: its ID divided by the chunk size.
pub open spec fn chunk_of(node_id: u32) -> int {
    node_id as int / CHUNK_SIZE as int
}

/// Largest node ID whose chunk still fits in `u32` when listed.
pub open spec fn max_chunked_node_id() -> int {
    (u32::MAX as int / CHUNK_SIZE as int) * CHUNK_SIZE as int - 1
}

/// Returns the chunk of `node_id` and all node IDs of that chunk, in
/// ascending order.
pub fn get_chunk_id_and_node_ids(node_id: &u32) -> (res: (u32, Vec<u32>))
    requires
        *node_id <= max_chunked_node_id(),
    ensures
        res.0 == chunk_of(*node_id),
        res.1@.len() == CHUNK_SIZE,
        forall|i: int| 0 <= i < CHUNK_SIZE ==> #[trigger] res.1@[i] == res.0 * CHUNK_SIZE + i,
{
    let chunk_id: u32 = *node_id / CHUNK_SIZE;
    assert(chunk_id * CHUNK_SIZE + CHUNK_SIZE <= u32::MAX) by (nonlinear_arith)
        requires
            chunk_id == *node_id / 100,
            *node_id <= (u32::MAX as int / 100) * 100 - 1,
    ;
    let start: u32 = chunk_id * CHUNK_SIZE;
    let mut ids: Vec<u32> = Vec::new();
    let mut k: u32 = 0;
    while k < CHUNK_SIZE
        invariant
            k <= CHUNK_SIZE,
            start as int == chunk_id * CHUNK_SIZE,
            start + CHUNK_SIZE <= u32::MAX,
            ids@.len() == k,
            forall|i: int| 0 <= i < k ==> #[trigger] ids@[i] == start + i,
        decreases CHUNK_SIZE - k,
    {
        ids.push(start + k);
        k = k + 1;
    }
    (chunk_id, ids)
}

/// Every node ID that can be chunked lies within the ID range of its own chunk.
pub proof fn law_node_in_own_chunk(node_id: u32)
    ensures
        chunk_of(node_id) * CHUNK_SIZE <= node_id < chunk_of(node_id) * CHUNK_SIZE + CHUNK_SIZE,
{
}

/// Two node IDs share a chunk exactly when they fall into the same block of
/// `CHUNK_SIZE` consecutive IDs.
pub proof fn law_same_chunk(a: u32, b: u32)
    ensures
        chunk_of(a) == chunk_of(b) <==> (a as int - a as int % 100 == b as int - b as int % 100),
{
}

} // verus!
