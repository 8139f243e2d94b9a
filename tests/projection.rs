use dipr::bin_ring;

#[test]
fn ring_has_six_vertices_unless_inner_edge_collapses() {
    let six = bin_ring(1, 2, 3, 4, 5, 6, false);
    assert_eq!(six, vec![1, 2, 3, 4, 5, 6]);
    let three = bin_ring(1, 2, 3, 4, 5, 6, true);
    assert_eq!(three, vec![1, 3, 5]);
}
