use alkeme::app::types::{GraphSize, ShardsShow};

#[test]
fn graph_size_cycles_through_three_heights() {
    let g = GraphSize::Off;
    assert_eq!(g.height(), 0);
    assert!(!g.is_visible());
    let g = g.next();
    assert_eq!(g, GraphSize::Small);
    assert_eq!(g.height(), 10);
    let g = g.next();
    assert_eq!(g.height(), 20);
    assert_eq!(g.next(), GraphSize::Off);
}

#[test]
fn shards_show_prev_undoes_next() {
    for s in ShardsShow::all() {
        assert_eq!(s.next().prev(), s);
    }
    assert_eq!(ShardsShow::Unassigned.api_value(), "UNASSIGNED");
}
