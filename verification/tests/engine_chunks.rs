use pixlie_ai::engine::chunk::get_chunk_id_and_node_ids;

#[test]
fn test_get_chunk_id_and_node_ids() {
    let node_id = 0;
    let (chunk_id, node_ids) = get_chunk_id_and_node_ids(&node_id);
    assert_eq!(chunk_id, 0);
    assert_eq!(node_ids.len(), 100);
    assert_eq!(node_ids[0], 0);
    assert_eq!(node_ids[99], 99);

    let node_id = 100;
    let (chunk_id, node_ids) = get_chunk_id_and_node_ids(&node_id);
    assert_eq!(chunk_id, 1);
    assert_eq!(node_ids.len(), 100);
    assert_eq!(node_ids[0], 100);
    assert_eq!(node_ids[99], 199);

    let node_id = 10011;
    let (chunk_id, node_ids) = get_chunk_id_and_node_ids(&node_id);
    assert_eq!(chunk_id, 100);
    assert_eq!(node_ids.len(), 100);
    assert_eq!(node_ids[0], 10000);
    assert_eq!(node_ids[99], 10099);
}
