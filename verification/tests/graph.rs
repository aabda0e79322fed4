use imageflow_core::frame::{FrameEstimate, FrameInfo, PixelFormat};
use imageflow_core::graph::{Edge, EdgeKind, Graph};
use imageflow_core::ops::{Node, NodeKind, NodeParams};

fn edges(g: &Graph) -> Vec<Edge> {
    let mut all = Vec::new();
    let mut i = 0;
    while i < g.edge_count() {
        all.push(g.edge(i));
        i += 1;
    }
    all
}

fn edge(from: usize, to: usize, kind: EdgeKind) -> Edge {
    Edge { from, to, kind }
}

fn known(w: i32, h: i32) -> FrameEstimate {
    FrameEstimate::Known(FrameInfo { w, h, fmt: PixelFormat::Bgra32 })
}

#[test]
fn a_new_graph_is_empty() {
    let g = Graph::new();
    assert_eq!(g.node_bound(), 0);
    assert_eq!(g.edge_count(), 0);
    assert!(!g.has_node(0));
    assert!(g.node_weight(0).is_none());
}

#[test]
fn nodes_get_consecutive_handles() {
    let mut g = Graph::new();
    assert_eq!(g.add_node(Node::from(NodeParams::Decode { io_id: 0 })), 0);
    assert_eq!(g.add_node(Node::from(NodeParams::FlipV)), 1);
    assert_eq!(g.add_node(Node::from(NodeParams::Encode { io_id: 1 })), 2);
    assert_eq!(g.node_bound(), 3);
    assert!(g.has_node(2));
    assert!(!g.has_node(3));
    assert_eq!(g.weight(1).params, NodeParams::FlipV);
    assert_eq!(g.weight(1).def, NodeKind::FlipV);
    assert_eq!(g.weight(1).frame_est, FrameEstimate::InvalidateGraph);
    assert_eq!(g.node_weight(0), Some(&Node::from(NodeParams::Decode { io_id: 0 })));
}

#[test]
fn edges_need_both_ends_alive() {
    let mut g = Graph::new();
    let a = g.add_node(Node::from(NodeParams::Decode { io_id: 0 }));
    let b = g.add_node(Node::from(NodeParams::FlipV));
    assert_eq!(g.add_edge(a, b, EdgeKind::Input), Some(0));
    assert_eq!(g.add_edge(a, 7, EdgeKind::Input), None);
    assert_eq!(g.add_edge(7, b, EdgeKind::Input), None);
    assert_eq!(g.add_edge(b, a, EdgeKind::Canvas), Some(1));
    assert_eq!(edges(&g), vec![edge(a, b, EdgeKind::Input), edge(b, a, EdgeKind::Canvas)]);
}

#[test]
fn first_parent_goes_by_kind_and_order() {
    let mut g = Graph::new();
    let a = g.add_node(Node::from(NodeParams::Decode { io_id: 0 }));
    let b = g.add_node(Node::from(NodeParams::Decode { io_id: 1 }));
    let c = g.add_node(Node::from(NodeParams::FlipV));
    assert_eq!(g.first_parent_of_kind(c, EdgeKind::Input), None);
    g.add_edge(a, c, EdgeKind::Canvas);
    assert_eq!(g.first_parent_of_kind(c, EdgeKind::Input), None);
    assert_eq!(g.first_parent_of_kind(c, EdgeKind::Canvas), Some(a));
    g.add_edge(b, c, EdgeKind::Input);
    g.add_edge(a, c, EdgeKind::Input);
    assert_eq!(g.first_parent_of_kind(c, EdgeKind::Input), Some(b));
    assert_eq!(g.first_parent_of_kind(a, EdgeKind::Input), None);
}

#[test]
fn parent_frame_is_read_only_when_known() {
    let mut g = Graph::new();
    let a = g.add_node(Node::from(NodeParams::Decode { io_id: 0 }));
    let b = g.add_node(Node::from(NodeParams::FlipV));
    assert_eq!(g.first_parent_frame_info_some(b), None);
    g.add_edge(a, b, EdgeKind::Input);
    assert_eq!(g.first_parent_frame_info_some(b), None);
    g.set_estimate(a, FrameEstimate::Impossible);
    assert_eq!(g.first_parent_frame_info_some(b), None);
    g.set_estimate(a, known(640, 480));
    assert_eq!(
        g.first_parent_frame_info_some(b),
        Some(FrameInfo { w: 640, h: 480, fmt: PixelFormat::Bgra32 })
    );
    assert_eq!(g.weight(a).params, NodeParams::Decode { io_id: 0 });
    assert_eq!(g.weight(a).def, NodeKind::Decoder);
    assert_eq!(g.weight(b).frame_est, FrameEstimate::InvalidateGraph);
}

#[test]
fn replacing_by_a_chain_rewires_in_place() {
    let mut g = Graph::new();
    let a = g.add_node(Node::from(NodeParams::Decode { io_id: 0 }));
    let b = g.add_node(Node::from(NodeParams::FlipV));
    let c = g.add_node(Node::from(NodeParams::Encode { io_id: 1 }));
    let d = g.add_node(Node::from(NodeParams::Encode { io_id: 2 }));
    g.add_edge(a, b, EdgeKind::Input);
    g.add_edge(b, c, EdgeKind::Input);
    g.add_edge(b, d, EdgeKind::Canvas);
    g.replace_node(
        b,
        vec![
            Node::from(NodeParams::Rotate90),
            Node::from(NodeParams::FlipH),
            Node::from(NodeParams::Transpose),
        ],
    );
    assert!(!g.has_node(b));
    assert_eq!(g.node_bound(), 7);
    assert_eq!(g.weight(4).params, NodeParams::Rotate90);
    assert_eq!(g.weight(5).params, NodeParams::FlipH);
    assert_eq!(g.weight(6).params, NodeParams::Transpose);
    assert_eq!(g.weight(a).params, NodeParams::Decode { io_id: 0 });
    assert_eq!(
        edges(&g),
        vec![
            edge(a, 4, EdgeKind::Input),
            edge(6, c, EdgeKind::Input),
            edge(6, d, EdgeKind::Canvas),
            edge(4, 5, EdgeKind::Input),
            edge(5, 6, EdgeKind::Input),
        ]
    );
}

#[test]
fn replacing_by_one_node_adds_no_edge() {
    let mut g = Graph::new();
    let a = g.add_node(Node::from(NodeParams::Decode { io_id: 0 }));
    let b = g.add_node(Node::from(NodeParams::FlipV));
    g.add_edge(a, b, EdgeKind::Input);
    g.replace_node(b, vec![Node::from(NodeParams::FlipH)]);
    assert!(!g.has_node(b));
    assert_eq!(g.weight(2).params, NodeParams::FlipH);
    assert_eq!(edges(&g), vec![edge(a, 2, EdgeKind::Input)]);
}

#[test]
fn replacing_by_nothing_snaps_parent_to_children() {
    let mut g = Graph::new();
    let a = g.add_node(Node::from(NodeParams::Decode { io_id: 0 }));
    let x = g.add_node(Node::from(NodeParams::Decode { io_id: 5 }));
    let b = g.add_node(Node::from(NodeParams::FlipV));
    let c = g.add_node(Node::from(NodeParams::Encode { io_id: 1 }));
    let d = g.add_node(Node::from(NodeParams::Encode { io_id: 2 }));
    g.add_edge(x, b, EdgeKind::Canvas);
    g.add_edge(a, b, EdgeKind::Input);
    g.add_edge(a, d, EdgeKind::Canvas);
    g.add_edge(b, c, EdgeKind::Input);
    g.add_edge(b, d, EdgeKind::Input);
    g.replace_node(b, vec![]);
    assert!(!g.has_node(b));
    assert_eq!(g.node_bound(), 5);
    assert_eq!(
        edges(&g),
        vec![edge(a, d, EdgeKind::Canvas), edge(a, c, EdgeKind::Input), edge(a, d, EdgeKind::Input)]
    );
}

#[test]
fn replacing_an_orphan_by_nothing_drops_its_edges() {
    let mut g = Graph::new();
    let a = g.add_node(Node::from(NodeParams::Decode { io_id: 0 }));
    let b = g.add_node(Node::from(NodeParams::FlipV));
    let c = g.add_node(Node::from(NodeParams::Encode { io_id: 1 }));
    g.add_edge(a, b, EdgeKind::Canvas);
    g.add_edge(b, c, EdgeKind::Input);
    g.add_edge(a, c, EdgeKind::Canvas);
    g.replace_node(b, vec![]);
    assert!(!g.has_node(b));
    assert_eq!(edges(&g), vec![edge(a, c, EdgeKind::Canvas)]);
}

#[test]
fn replacing_with_an_existing_node_moves_every_edge() {
    let mut g = Graph::new();
    let a = g.add_node(Node::from(NodeParams::Decode { io_id: 0 }));
    let b = g.add_node(Node::from(NodeParams::FlipV));
    let c = g.add_node(Node::from(NodeParams::Encode { io_id: 1 }));
    let n = g.add_node(Node::from(NodeParams::FlipH));
    g.add_edge(a, b, EdgeKind::Input);
    g.add_edge(b, c, EdgeKind::Input);
    g.replace_node_with_existing(b, n);
    assert!(!g.has_node(b));
    assert!(g.has_node(n));
    assert_eq!(g.node_bound(), 4);
    assert_eq!(edges(&g), vec![edge(a, n, EdgeKind::Input), edge(n, c, EdgeKind::Input)]);
}

#[test]
fn a_dead_handle_is_never_given_out_again() {
    let mut g = Graph::new();
    let a = g.add_node(Node::from(NodeParams::FlipV));
    g.replace_node(a, vec![]);
    assert!(!g.has_node(a));
    let b = g.add_node(Node::from(NodeParams::FlipH));
    assert_eq!(b, 1);
    assert!(!g.has_node(a));
    assert_eq!(g.add_edge(a, b, EdgeKind::Input), None);
}

#[test]
fn decoders_upstream_are_found_once_by_ascending_handle() {
    let mut g = Graph::new();
    let d0 = g.add_node(Node::from(NodeParams::Decode { io_id: 10 }));
    let f = g.add_node(Node::from(NodeParams::FlipV));
    let d1 = g.add_node(Node::from(NodeParams::Decode { io_id: 11 }));
    let r = g.add_node(Node::from(NodeParams::Rotate90));
    let t = g.add_node(Node::from(NodeParams::Transpose));
    let d2 = g.add_node(Node::from(NodeParams::Decode { io_id: 12 }));
    let e = g.add_node(Node::from(NodeParams::Encode { io_id: 1 }));
    // a diamond from d0 to t, d1 on the canvas side, d2 downstream of nothing that reaches t
    g.add_edge(d0, f, EdgeKind::Input);
    g.add_edge(d0, r, EdgeKind::Input);
    g.add_edge(f, t, EdgeKind::Input);
    g.add_edge(r, t, EdgeKind::Canvas);
    g.add_edge(d1, r, EdgeKind::Canvas);
    g.add_edge(t, e, EdgeKind::Input);
    g.add_edge(d2, e, EdgeKind::Canvas);
    assert_eq!(g.get_decoder_io_ids_and_indexes(t), vec![(10, d0), (11, d1)]);
    assert_eq!(g.get_decoder_io_ids_and_indexes(e), vec![(10, d0), (11, d1), (12, d2)]);
    assert_eq!(g.get_decoder_io_ids_and_indexes(f), vec![(10, d0)]);
    assert_eq!(g.get_decoder_io_ids_and_indexes(d0), vec![]);
    assert_eq!(g.get_decoder_io_ids_and_indexes(99), vec![]);
}

#[test]
fn upstream_search_ends_on_a_cycle() {
    let mut g = Graph::new();
    let d = g.add_node(Node::from(NodeParams::Decode { io_id: 3 }));
    let a = g.add_node(Node::from(NodeParams::FlipV));
    let b = g.add_node(Node::from(NodeParams::FlipH));
    g.add_edge(d, a, EdgeKind::Input);
    g.add_edge(a, b, EdgeKind::Input);
    g.add_edge(b, a, EdgeKind::Canvas);
    g.add_edge(b, d, EdgeKind::Canvas);
    assert_eq!(g.get_decoder_io_ids_and_indexes(b), vec![(3, d)]);
    assert_eq!(g.get_decoder_io_ids_and_indexes(d), vec![(3, d)]);
}

#[test]
fn edges_are_counted_by_end_and_kind() {
    let mut g = Graph::new();
    let a = g.add_node(Node::from(NodeParams::Decode { io_id: 0 }));
    let b = g.add_node(Node::from(NodeParams::Decode { io_id: 1 }));
    let c = g.add_node(Node::from(NodeParams::FlipV));
    let d = g.add_node(Node::from(NodeParams::Encode { io_id: 2 }));
    g.add_edge(a, c, EdgeKind::Input);
    g.add_edge(b, c, EdgeKind::Canvas);
    g.add_edge(a, c, EdgeKind::Input);
    g.add_edge(c, d, EdgeKind::Input);
    g.add_edge(a, d, EdgeKind::Canvas);
    assert_eq!(g.count_inputs(c, EdgeKind::Input), 2);
    assert_eq!(g.count_inputs(c, EdgeKind::Canvas), 1);
    assert_eq!(g.count_inputs(a, EdgeKind::Input), 0);
    assert_eq!(g.count_inputs(d, EdgeKind::Canvas), 1);
    assert_eq!(g.count_outputs(a), 3);
    assert_eq!(g.count_outputs(c), 1);
    assert_eq!(g.count_outputs(d), 0);
    assert_eq!(g.count_outputs(42), 0);
}

#[test]
fn invalidation_reaches_everything_downstream_and_nothing_else() {
    let mut g = Graph::new();
    let a = g.add_node(Node::from(NodeParams::Decode { io_id: 0 }));
    let b = g.add_node(Node::from(NodeParams::FlipV));
    let c = g.add_node(Node::from(NodeParams::FlipH));
    let d = g.add_node(Node::from(NodeParams::Encode { io_id: 1 }));
    let s = g.add_node(Node::from(NodeParams::Decode { io_id: 2 }));
    let i = g.add_node(Node::from(NodeParams::Transpose));
    g.add_edge(a, b, EdgeKind::Input);
    g.add_edge(b, c, EdgeKind::Input);
    g.add_edge(c, d, EdgeKind::Input);
    g.add_edge(s, d, EdgeKind::Canvas);
    g.add_edge(b, i, EdgeKind::Input);
    for v in [a, b, c, d, s] {
        g.set_estimate(v, known(8, 8));
    }
    g.set_estimate(i, FrameEstimate::Impossible);
    g.invalidate_downstream(b);
    assert_eq!(g.weight(a).frame_est, known(8, 8));
    assert_eq!(g.weight(b).frame_est, known(8, 8));
    assert_eq!(g.weight(c).frame_est, FrameEstimate::InvalidateGraph);
    assert_eq!(g.weight(d).frame_est, FrameEstimate::InvalidateGraph);
    assert_eq!(g.weight(s).frame_est, known(8, 8));
    assert_eq!(g.weight(i).frame_est, FrameEstimate::Impossible);
    assert_eq!(g.weight(c).params, NodeParams::FlipH);
    assert_eq!(g.edge_count(), 5);
    g.invalidate_downstream(d);
    assert_eq!(g.weight(a).frame_est, known(8, 8));
    g.invalidate_downstream(77);
    assert_eq!(g.weight(a).frame_est, known(8, 8));
}

#[test]
fn invalidation_after_a_replacement_marks_the_dependents() {
    let mut g = Graph::new();
    let a = g.add_node(Node::from(NodeParams::Decode { io_id: 0 }));
    let b = g.add_node(Node::from(NodeParams::FlipV));
    let c = g.add_node(Node::from(NodeParams::Encode { io_id: 1 }));
    g.add_edge(a, b, EdgeKind::Input);
    g.add_edge(b, c, EdgeKind::Input);
    for v in [a, b, c] {
        g.set_estimate(v, known(8, 8));
    }
    g.replace_node(b, vec![Node::from(NodeParams::Rotate90)]);
    g.invalidate_downstream(a);
    assert_eq!(g.weight(a).frame_est, known(8, 8));
    assert_eq!(g.weight(3).frame_est, FrameEstimate::InvalidateGraph);
    assert_eq!(g.weight(c).frame_est, FrameEstimate::InvalidateGraph);
}
