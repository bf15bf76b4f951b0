use kama_core::graph::{compute_processing_order, AudioGraph, Connection, GraphError, NodeId, PortId};
use kama_core::control::{ControlConfig, ControlProtocol};
use kama_core::graph::utils::{BuilderError, GraphBuilder};
use kama_core::time::TickInfo;

fn out_port(node: NodeId, index: u8) -> PortId {
    PortId { node, index, is_input: false }
}

fn in_port(node: NodeId, index: u8) -> PortId {
    PortId { node, index, is_input: true }
}

fn position(order: &[NodeId], id: NodeId) -> usize {
    order.iter().position(|&n| n == id).unwrap()
}

#[test]
fn chain_is_ordered_from_source_to_sink() {
    let mut graph = AudioGraph::new();
    let osc = graph.add_node();
    let filter = graph.add_node();
    let gain = graph.add_node();
    graph.connect(out_port(filter, 0), in_port(gain, 0), 1.0f32.to_bits()).unwrap();
    graph.connect(out_port(osc, 0), in_port(filter, 0), 1.0f32.to_bits()).unwrap();
    assert_eq!(graph.get_processing_order(), &[osc, filter, gain]);
    assert_eq!(graph.get_connections().len(), 2);
}

#[test]
fn invalid_connections_are_refused() {
    let mut graph = AudioGraph::new();
    let a = graph.add_node();
    let b = graph.add_node();
    assert_eq!(graph.connect(out_port(a, 0), in_port(NodeId(7), 0), 0), Err(GraphError::InvalidNodeId));
    assert_eq!(graph.connect(in_port(a, 0), in_port(b, 0), 0), Err(GraphError::InvalidDirection));
    assert_eq!(graph.connect(out_port(a, 0), out_port(b, 0), 0), Err(GraphError::InvalidDirection));
    assert!(graph.get_connections().is_empty());
    assert!(graph.contains_node(b));
    assert!(!graph.contains_node(NodeId(2)));
}

#[test]
fn cycle_members_follow_the_scheduled_nodes() {
    let conns = vec![
        Connection { from: out_port(NodeId(1), 0), to: in_port(NodeId(2), 0), gain_bits: 0 },
        Connection { from: out_port(NodeId(2), 0), to: in_port(NodeId(1), 0), gain_bits: 0 },
        Connection { from: out_port(NodeId(0), 0), to: in_port(NodeId(3), 0), gain_bits: 0 },
    ];
    let order = compute_processing_order(4, &conns);
    assert_eq!(order, vec![NodeId(0), NodeId(3), NodeId(1), NodeId(2)]);
}

#[test]
fn diamond_respects_every_connection() {
    let mut graph = AudioGraph::new();
    let ids: Vec<NodeId> = (0..5).map(|_| graph.add_node()).collect();
    let edges = [(4, 2), (2, 0), (4, 1), (1, 0), (3, 4)];
    for (f, t) in edges {
        graph.connect(out_port(ids[f], 0), in_port(ids[t], 0), 0).unwrap();
    }
    let order = graph.get_processing_order().to_vec();
    assert_eq!(order.len(), 5);
    for (f, t) in edges {
        assert!(position(&order, ids[f]) < position(&order, ids[t]));
    }
}

#[test]
fn test_tick_info() {
    // 120 BPM at 44100 Hz: 22050 samples per beat.
    let info = TickInfo::from_position(22050, 22050);
    assert_eq!(info.beat, 1);
    assert_eq!(info.bar, 0);
    assert_eq!(info.sixteenth, 0);

    let info = TickInfo::from_position(22050 * 3, 22050);
    assert_eq!(info.beat, 3);
    assert_eq!(info.bar, 0);

    let info = TickInfo::from_position(22050 * 4, 22050);
    assert_eq!(info.beat, 0);
    assert_eq!(info.bar, 1);
}

#[test]
fn tick_info_flags() {
    let t = TickInfo::new(2, 0, 0, 100);
    assert!(t.is_new_bar() && t.is_new_beat());
    let t = TickInfo::from_position(22050 + 11025, 22050);
    assert_eq!(t.sixteenth, 2);
    assert!(!t.is_new_beat() && !t.is_new_bar());
    let t = TickInfo::from_position(5, 0);
    assert_eq!((t.bar, t.beat, t.sixteenth, t.sample_pos), (0, 0, 0, 5));
}

#[test]
fn connections_into_lists_the_feeds_of_one_port_in_order() {
    let mut graph = AudioGraph::new();
    let a = graph.add_node();
    let b = graph.add_node();
    let mix = graph.add_node();
    graph.connect(out_port(a, 0), in_port(mix, 0), 1).unwrap();
    graph.connect(out_port(b, 0), in_port(mix, 1), 2).unwrap();
    graph.connect(out_port(b, 1), in_port(mix, 0), 3).unwrap();
    let feeds = graph.connections_into(in_port(mix, 0));
    assert_eq!(
        feeds,
        vec![
            Connection { from: out_port(a, 0), to: in_port(mix, 0), gain_bits: 1 },
            Connection { from: out_port(b, 1), to: in_port(mix, 0), gain_bits: 3 },
        ]
    );
    assert!(graph.connections_into(in_port(a, 0)).is_empty());
}

#[test]
fn output_node_is_the_first_unconnected_node_in_order() {
    let mut graph = AudioGraph::new();
    let osc = graph.add_node();
    let filter = graph.add_node();
    let gain = graph.add_node();
    graph.connect(out_port(osc, 0), in_port(filter, 0), 0).unwrap();
    graph.connect(out_port(filter, 0), in_port(gain, 0), 0).unwrap();
    assert!(!graph.is_sink(osc, 1));
    assert!(graph.is_sink(gain, 1));
    // Port 1 of the filter is free, but port 0 is connected.
    assert!(!graph.is_sink(filter, 2));
    assert_eq!(graph.output_node(&vec![1, 1, 1]), Some(gain));
    // A node with no outputs counts as unconnected.
    assert_eq!(graph.output_node(&vec![0, 1, 1]), Some(osc));
}

#[test]
fn output_node_falls_back_to_the_last_node() {
    let mut graph = AudioGraph::new();
    assert_eq!(graph.output_node(&vec![]), None);
    let a = graph.add_node();
    let b = graph.add_node();
    graph.connect(out_port(a, 0), in_port(b, 0), 0).unwrap();
    graph.connect(out_port(b, 0), in_port(a, 0), 0).unwrap();
    // Every node feeds another: the last one in order is taken.
    let last = *graph.get_processing_order().last().unwrap();
    assert_eq!(graph.output_node(&vec![1, 1]), Some(last));
}

#[test]
fn builder_connects_nodes_by_name() {
    let mut graph = AudioGraph::new();
    {
        let mut builder = GraphBuilder::new(&mut graph);
        let osc = builder.add_named_node("oscillator");
        let filter = builder.add_named_node("filter");
        let gain = builder.add_named_node("gain");
        assert_eq!(builder.find_node("filter"), Some(filter));
        assert_eq!(builder.find_node("reverb"), None);
        builder.connect_by_name("oscillator", 0, "filter", 0, 1.0f32.to_bits()).unwrap();
        builder.connect_by_name("filter", 0, "gain", 0, 1.0f32.to_bits()).unwrap();
        assert_eq!(
            builder.connect_by_name("filter", 0, "reverb", 0, 0),
            Err(BuilderError::NodeNotFound("reverb".to_string()))
        );
        assert_eq!(
            builder.connect_by_name("delay", 0, "reverb", 0, 0),
            Err(BuilderError::NodeNotFound("delay".to_string()))
        );
        assert_eq!((osc, filter, gain), (NodeId(0), NodeId(1), NodeId(2)));
    }
    assert_eq!(graph.get_processing_order(), &[NodeId(0), NodeId(1), NodeId(2)]);
    assert_eq!(graph.get_connections().len(), 2);
}

#[test]
fn first_name_wins() {
    let mut graph = AudioGraph::new();
    let mut builder = GraphBuilder::new(&mut graph);
    let first = builder.add_named_node("node");
    let _second = builder.add_named_node("node");
    assert_eq!(builder.find_node("node"), Some(first));
}

#[test]
fn control_config_collects_protocols() {
    let config = ControlConfig::new(7u8)
        .with_protocol(ControlProtocol::Midi)
        .with_protocol(ControlProtocol::Osc);
    assert_eq!(config.enabled_protocols, vec![ControlProtocol::Midi, ControlProtocol::Osc]);
    assert_eq!(config.parameter_host, 7);
}

#[test]
fn ticks_never_run_backwards() {
    let spb = 22050u64;
    let mut previous = TickInfo::from_position(0, spb);
    for pos in (0..400_000u64).step_by(977) {
        let tick = TickInfo::from_position(pos, spb);
        let earlier = (previous.bar, previous.beat, previous.sixteenth);
        assert!(earlier <= (tick.bar, tick.beat, tick.sixteenth));
        previous = tick;
    }
    let t = TickInfo::from_position(4 * spb + spb / 2, spb);
    assert_eq!((t.bar, t.beat, t.sixteenth), (1, 0, 2));
}

#[test]
fn nodes_behind_a_cycle_follow_the_ordered_part() {
    let conns = vec![
        Connection { from: out_port(NodeId(0), 0), to: in_port(NodeId(1), 0), gain_bits: 0 },
        Connection { from: out_port(NodeId(2), 0), to: in_port(NodeId(3), 0), gain_bits: 0 },
        Connection { from: out_port(NodeId(3), 0), to: in_port(NodeId(2), 0), gain_bits: 0 },
        Connection { from: out_port(NodeId(3), 0), to: in_port(NodeId(1), 1), gain_bits: 0 },
        Connection { from: out_port(NodeId(0), 0), to: in_port(NodeId(4), 0), gain_bits: 0 },
    ];
    let order = compute_processing_order(5, &conns);
    assert_eq!(order, vec![NodeId(0), NodeId(4), NodeId(1), NodeId(2), NodeId(3)]);
}
