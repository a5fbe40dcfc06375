use cirmcut_sim::diagram::{Diagram, DiagramEditor};
use cirmcut_sim::map::{
    PrimitiveDiagramMapping, PrimitiveDiagramParameterMapping, PrimitiveDiagramStateVectorMapping,
};
use cirmcut_sim::solver::{LinearSolver, SolverMode};
use cirmcut_sim::stamp::{stamp, Coefficient, Entry, Source};
use cirmcut_sim::topology::{PrimitiveDiagram, ThreeTerminalComponent, TwoTerminalComponent};

type Two = TwoTerminalComponent<f64>;

fn divider() -> PrimitiveDiagram<f64> {
    // Battery from ground (node 2) to node 0, R1 from node 0 to node 1, R2 from node 1 to ground.
    PrimitiveDiagram {
        num_nodes: 3,
        two_terminal: vec![
            ([2, 0], Two::Battery(5.0)),
            ([0, 1], Two::Resistor(1000.0)),
            ([1, 2], Two::Resistor(2000.0)),
        ],
        three_terminal: vec![],
    }
}

fn row_entries(entries: &[Entry], row: usize) -> Vec<(usize, Coefficient)> {
    entries.iter().filter(|e| e.row == row).map(|e| (e.col, e.coef)).collect()
}

#[test]
fn mapping_ranges_of_divider() {
    let d = divider();
    let map = PrimitiveDiagramMapping::new(&d);
    assert_eq!(map.vector_size(), 8);
    assert_eq!(map.state_map.currents(), 0..3);
    assert_eq!(map.state_map.voltage_drops(), 3..6);
    assert_eq!(map.state_map.voltages(), 6..8);
    assert_eq!(map.state_map.total_len(), 8);
    assert_eq!(map.param_map.components(), 0..3);
    assert_eq!(map.param_map.current_laws(), 3..5);
    assert_eq!(map.param_map.voltage_laws(), 5..8);
    assert_eq!(map.param_map.total_len(), 8);
}

#[test]
fn checked_mapping_of_divider() {
    let d = divider();
    let checked = PrimitiveDiagramMapping::checked_new(&d).expect("small diagram fits");
    assert_eq!(checked, PrimitiveDiagramMapping::new(&d));
    assert_eq!(checked.vector_size(), 8);
}

#[test]
fn mapping_counts_transistor_legs() {
    let d = PrimitiveDiagram {
        num_nodes: 4,
        two_terminal: vec![([0, 3], Two::Resistor(1.0))],
        three_terminal: vec![([0, 1, 2], ThreeTerminalComponent::NTransistor(100.0))],
    };
    let state = PrimitiveDiagramStateVectorMapping::new(&d);
    let params = PrimitiveDiagramParameterMapping::new(&d);
    assert_eq!(state.currents(), 0..3);
    assert_eq!(state.voltage_drops(), 3..6);
    assert_eq!(state.voltages(), 6..9);
    assert_eq!(params.components(), 0..3);
    assert_eq!(params.current_laws(), 3..6);
    assert_eq!(params.voltage_laws(), 6..9);
}

#[test]
fn mapping_state_and_parameters_agree_for_all_sizes() {
    for n2 in 0..6usize {
        for n3 in 0..4usize {
            for num_nodes in 0..5usize {
                let d = PrimitiveDiagram {
                    num_nodes,
                    two_terminal: vec![([0, 0], Two::Wire); n2],
                    three_terminal: vec![([0, 0, 0], ThreeTerminalComponent::PTransistor(1.0)); n3],
                };
                let map = PrimitiveDiagramMapping::new(&d);
                assert_eq!(map.state_map.total_len(), map.param_map.total_len());
                assert_eq!(map.vector_size(), 2 * (n2 + 2 * n3) + num_nodes.saturating_sub(1));
            }
        }
    }
}

#[test]
fn mapping_of_empty_diagram() {
    let d: PrimitiveDiagram<f64> = PrimitiveDiagram { num_nodes: 0, two_terminal: vec![], three_terminal: vec![] };
    assert_eq!(PrimitiveDiagramMapping::new(&d).vector_size(), 0);
    let st = stamp(&PrimitiveDiagramMapping::new(&d), &d, 3);
    assert!(st.entries.is_empty());
    assert!(st.sources.is_empty());
}

#[test]
fn stamp_of_divider() {
    let d = divider();
    let map = PrimitiveDiagramMapping::new(&d);
    let st = stamp(&map, &d, 1);
    assert_eq!(st.sources.len(), 8);
    assert_eq!(st.sources[0], Source::Value(0));
    for k in 1..8 {
        assert_eq!(st.sources[k], Source::Zero);
    }
    // Battery law: -Vd = V
    assert_eq!(row_entries(&st.entries, 0), vec![(3, Coefficient::MinusOne)]);
    // Resistor law: -R I + Vd = 0
    assert_eq!(row_entries(&st.entries, 1), vec![(1, Coefficient::NegValue(1)), (4, Coefficient::One)]);
    // Current law of node 0: battery ends there, R1 begins there.
    assert_eq!(row_entries(&st.entries, 3), vec![(0, Coefficient::One), (1, Coefficient::MinusOne)]);
    // Current law of node 1.
    assert_eq!(row_entries(&st.entries, 4), vec![(1, Coefficient::One), (2, Coefficient::MinusOne)]);
    // Voltage law of R1: Vd + V1 - V0 = 0
    assert_eq!(
        row_entries(&st.entries, 6),
        vec![(4, Coefficient::One), (7, Coefficient::One), (6, Coefficient::MinusOne)]
    );
    // Voltage law of the battery: the ground end gets no column.
    assert_eq!(row_entries(&st.entries, 5), vec![(3, Coefficient::One), (6, Coefficient::One)]);
    assert_eq!(st.entries.len(), 16);
    for e in &st.entries {
        assert!(e.row < 8 && e.col < 8);
    }
}

#[test]
fn stamp_current_law_rows_sum_currents() {
    let d = PrimitiveDiagram {
        num_nodes: 4,
        two_terminal: vec![
            ([3, 0], Two::Battery(1.0)),
            ([0, 1], Two::Diode),
            ([1, 3], Two::Capacitor(1e-6)),
            ([0, 2], Two::Inductor(1e-3, None)),
        ],
        three_terminal: vec![([0, 1, 2], ThreeTerminalComponent::NTransistor(100.0))],
    };
    let map = PrimitiveDiagramMapping::new(&d);
    let n = map.vector_size();
    let st = stamp(&map, &d, 2);
    let x: Vec<i64> = (0..2 * n as i64).map(|k| k * k + 3).collect();
    for blk in 0..2 {
        for k in 0..3 {
            let row = blk * n + map.param_map.current_laws().start + k;
            let mut dot = 0i64;
            for e in st.entries.iter().filter(|e| e.row == row) {
                let c = match e.coef {
                    Coefficient::One => 1,
                    Coefficient::MinusOne => -1,
                    other => panic!("unexpected coefficient {other:?}"),
                };
                dot += c * x[e.col];
            }
            let mut expected = 0i64;
            for (i, (nodes, _)) in d.two_terminal.iter().enumerate() {
                let c = x[blk * n + i];
                if nodes[1] == k {
                    expected += c;
                }
                if nodes[0] == k {
                    expected -= c;
                }
            }
            let (nodes, _) = d.three_terminal[0];
            let ab = x[blk * n + 4];
            let bc = x[blk * n + 5];
            if nodes[0] == k {
                expected += ab;
            }
            if nodes[1] == k {
                expected += bc - ab;
            }
            if nodes[2] == k {
                expected -= bc;
            }
            assert_eq!(dot, expected);
            assert_eq!(st.sources[row], Source::Zero);
        }
    }
}

#[test]
fn stamp_window_couples_energy_storage_to_previous_block() {
    let d = PrimitiveDiagram {
        num_nodes: 2,
        two_terminal: vec![([1, 0], Two::Capacitor(1e-5)), ([0, 1], Two::Inductor(1e-3, None))],
        three_terminal: vec![],
    };
    let map = PrimitiveDiagramMapping::new(&d);
    let n = map.vector_size();
    assert_eq!(n, 5);
    let st = stamp(&map, &d, 2);
    assert_eq!(st.sources.len(), 10);
    assert_eq!(st.sources[0], Source::ValueTimesPrevious { component: 0, state: 2 });
    assert_eq!(st.sources[1], Source::NegValueTimesPrevious { component: 1, state: 1 });
    assert_eq!(st.sources[n], Source::Zero);
    assert_eq!(st.sources[n + 1], Source::Zero);
    assert_eq!(
        row_entries(&st.entries, 0),
        vec![(0, Coefficient::NegDt), (2, Coefficient::Value(0))]
    );
    assert_eq!(
        row_entries(&st.entries, n),
        vec![(n, Coefficient::NegDt), (n + 2, Coefficient::Value(0)), (2, Coefficient::NegValue(0))]
    );
    assert_eq!(
        row_entries(&st.entries, n + 1),
        vec![(n + 1, Coefficient::NegValue(1)), (1, Coefficient::Value(1)), (n + 3, Coefficient::Dt)]
    );
}

#[test]
fn stamp_couples_inductors_on_one_core() {
    let d = PrimitiveDiagram {
        num_nodes: 3,
        two_terminal: vec![
            ([0, 2], Two::Inductor(4.0, Some(7))),
            ([1, 2], Two::Inductor(9.0, Some(7))),
            ([0, 1], Two::Inductor(1.0, Some(3))),
        ],
        three_terminal: vec![],
    };
    let map = PrimitiveDiagramMapping::new(&d);
    let st = stamp(&map, &d, 1);
    assert_eq!(
        row_entries(&st.entries, 0),
        vec![
            (0, Coefficient::NegValue(0)),
            (3, Coefficient::Dt),
            (4, Coefficient::SqrtValue(0)),
            (3, Coefficient::NegSqrtValue(1)),
        ]
    );
    assert_eq!(
        row_entries(&st.entries, 2),
        vec![(2, Coefficient::NegValue(2)), (5, Coefficient::Dt)]
    );
}

#[test]
fn stamp_of_switch_and_sources() {
    let d = PrimitiveDiagram {
        num_nodes: 2,
        two_terminal: vec![
            ([0, 1], Two::Switch(true)),
            ([0, 1], Two::Switch(false)),
            ([1, 0], Two::CurrentSource(0.5)),
            ([0, 1], Two::Wire),
            ([0, 1], Two::Diode),
        ],
        three_terminal: vec![],
    };
    let map = PrimitiveDiagramMapping::new(&d);
    let st = stamp(&map, &d, 1);
    assert_eq!(row_entries(&st.entries, 0), vec![(0, Coefficient::One)]);
    assert_eq!(row_entries(&st.entries, 1), vec![(6, Coefficient::One)]);
    assert_eq!(row_entries(&st.entries, 2), vec![(2, Coefficient::One)]);
    assert_eq!(st.sources[2], Source::Value(2));
    // Wire: V_end - V_begin = 0, the end being ground.
    assert_eq!(row_entries(&st.entries, 3), vec![(10, Coefficient::MinusOne)]);
    assert_eq!(
        row_entries(&st.entries, 4),
        vec![(9, Coefficient::DiodeSlope { state: 9, reverse: false }), (4, Coefficient::One)]
    );
    assert_eq!(st.sources[4], Source::DiodeOffset { state: 9, reverse: false });
}

#[test]
fn stamp_of_transistors() {
    let d = PrimitiveDiagram {
        num_nodes: 4,
        two_terminal: vec![],
        three_terminal: vec![
            ([0, 1, 2], ThreeTerminalComponent::NTransistor(100.0)),
            ([2, 1, 0], ThreeTerminalComponent::PTransistor(100.0)),
        ],
    };
    let map = PrimitiveDiagramMapping::new(&d);
    assert_eq!(map.vector_size(), 11);
    let st = stamp(&map, &d, 1);
    assert_eq!(
        st.sources[0],
        Source::TransistorLeg { state: 4, reverse: false, other_current: 1, forward: false }
    );
    assert_eq!(
        st.sources[1],
        Source::TransistorLeg { state: 5, reverse: true, other_current: 0, forward: true }
    );
    assert_eq!(
        st.sources[2],
        Source::TransistorLeg { state: 6, reverse: true, other_current: 3, forward: false }
    );
    assert_eq!(
        row_entries(&st.entries, 1),
        vec![(5, Coefficient::DiodeSlope { state: 5, reverse: true }), (1, Coefficient::One)]
    );
    // Current law of the base node 1: -i_ab + i_bc for each transistor.
    assert_eq!(
        row_entries(&st.entries, 5),
        vec![
            (0, Coefficient::MinusOne),
            (1, Coefficient::One),
            (2, Coefficient::MinusOne),
            (3, Coefficient::One)
        ]
    );
}

#[test]
fn well_formed_rejects_out_of_range_nodes() {
    assert!(divider().is_well_formed());
    let mut d = divider();
    d.two_terminal[1].0[1] = 3;
    assert!(!d.is_well_formed());
    let mut d = divider();
    d.three_terminal.push(([0, 1, 5], ThreeTerminalComponent::NTransistor(1.0)));
    assert!(!d.is_well_formed());
}

#[test]
fn voltage_sources_lists_batteries() {
    let d = PrimitiveDiagram {
        num_nodes: 2,
        two_terminal: vec![
            ([0, 1], Two::Battery(5.0)),
            ([0, 1], Two::Resistor(2.0)),
            ([1, 0], Two::Battery(-3.0)),
        ],
        three_terminal: vec![],
    };
    assert_eq!(d.voltage_sources(), vec![(0, 5.0), (2, -3.0)]);
}

#[test]
fn component_names() {
    assert_eq!(Two::Wire.name(), "Wire");
    assert_eq!(Two::Resistor(1.0).name(), "Resistor");
    assert_eq!(Two::Inductor(1.0, None).name(), "Inductor");
    assert_eq!(Two::Capacitor(1.0).name(), "Capacitor");
    assert_eq!(Two::Diode.name(), "Diode");
    assert_eq!(Two::Battery(1.0).name(), "Battery");
    assert_eq!(Two::Switch(true).name(), "Switch");
    assert_eq!(Two::CurrentSource(1.0).name(), "Current Source");
    assert_eq!(ThreeTerminalComponent::NTransistor(1.0).name(), "N-type Transistor (NPN)");
    assert_eq!(ThreeTerminalComponent::PTransistor(1.0).name(), "P-type Transistor (PNP)");
}

#[test]
fn solver_defaults() {
    assert_eq!(SolverMode::default(), SolverMode::NewtonRaphson);
    assert_eq!(LinearSolver::default(), LinearSolver::Lu);
}

fn loop_schematic() -> Diagram<f64> {
    Diagram {
        two_terminal: vec![
            ([(0, 0), (1, 0)], Two::Battery(5.0)),
            ([(1, 0), (1, 1)], Two::Resistor(10.0)),
            ([(1, 1), (0, 0)], Two::Wire),
        ],
        three_terminal: vec![],
    }
}

#[test]
fn schematic_nodes_in_order_of_first_occurrence() {
    let p = loop_schematic().to_primitive_diagram();
    assert_eq!(p.num_nodes, 3);
    assert_eq!(p.two_terminal[0].0, [0, 1]);
    assert_eq!(p.two_terminal[1].0, [1, 2]);
    assert_eq!(p.two_terminal[2].0, [2, 0]);
    assert!(matches!(p.two_terminal[1].1, Two::Resistor(r) if r == 10.0));
    assert!(p.is_well_formed());
}

#[test]
fn schematic_three_terminal_nodes() {
    let mut dg = loop_schematic();
    dg.three_terminal.push(([(1, 1), (5, 5), (0, 0)], ThreeTerminalComponent::PTransistor(50.0)));
    let p = dg.to_primitive_diagram();
    assert_eq!(p.num_nodes, 4);
    assert_eq!(p.three_terminal[0].0, [2, 3, 0]);
}

#[test]
fn schematic_junctions() {
    let mut dg = loop_schematic();
    dg.two_terminal.push(([(1, 0), (7, 7)], Two::Diode));
    let mut j = dg.junctions();
    j.sort();
    assert_eq!(j, vec![(0, 0), (1, 0), (1, 1)]);
    let lone = Diagram {
        two_terminal: vec![([(0, 0), (1, 0)], Two::Resistor(1.0))],
        three_terminal: vec![],
    };
    assert!(lone.junctions().is_empty());
    let empty: Diagram<f64> = Diagram { two_terminal: vec![], three_terminal: vec![] };
    assert_eq!(empty.to_primitive_diagram().num_nodes, 0);
}

#[test]
fn editor_places_selects_and_deletes() {
    let mut dg: Diagram<f64> = Diagram { two_terminal: vec![], three_terminal: vec![] };
    let mut ed = DiagramEditor::new();
    assert_eq!(ed.selection(), None);
    ed.new_twoterminal(&mut dg, (2, 3), Two::Resistor(1.0));
    assert_eq!(dg.two_terminal[0].0, [(2, 3), (3, 3)]);
    assert_eq!(ed.selection(), Some((0, false)));
    ed.new_threeterminal(&mut dg, (0, 0), ThreeTerminalComponent::NTransistor(1.0));
    assert_eq!(dg.three_terminal[0].0, [(0, 0), (1, 1), (1, 0)]);
    assert_eq!(ed.selection(), Some((0, true)));
    ed.delete(&mut dg);
    assert!(dg.three_terminal.is_empty());
    assert_eq!(dg.two_terminal.len(), 1);
    assert_eq!(ed.selection(), None);
    ed.delete(&mut dg);
    assert_eq!(dg.two_terminal.len(), 1);
    ed.new_twoterminal(&mut dg, (5, 5), Two::Diode);
    ed.reset_selection();
    assert_eq!(ed.selection(), None);
    ed.delete(&mut dg);
    assert_eq!(dg.two_terminal.len(), 2);
}
