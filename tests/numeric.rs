//! The symbolic stamp, given numbers and solved with rsparse, reproduces the
//! behaviour of the circuits it describes.

use std::collections::BTreeMap;

use cirmcut_sim::diagram::Diagram;
use cirmcut_sim::map::PrimitiveDiagramMapping;
use cirmcut_sim::stamp::{stamp, Coefficient, Source};
use cirmcut_sim::topology::{PrimitiveDiagram, TwoTerminalComponent};

type Two = TwoTerminalComponent<f64>;

fn diode_eq(v0: f64) -> (f64, f64) {
    let nvt = 2.0 * 8.617e-5 * (273.15 + 22.0);
    let is = 171.4352819281e-9;
    let ex = (v0 / nvt).exp();
    (-(is / nvt) * ex, is * (1.0 - ex + v0 * ex / nvt))
}

fn value(d: &PrimitiveDiagram<f64>, k: usize) -> f64 {
    match d.two_terminal[k].1 {
        Two::Resistor(v) | Two::Inductor(v, _) | Two::Capacitor(v) | Two::Battery(v) | Two::CurrentSource(v) => v,
        _ => 0.0,
    }
}

fn sign(x: f64, reverse: bool) -> f64 {
    if reverse { -x } else { x }
}

/// One solve of the stamped system about `iterate`, with `previous` the last time step.
fn solve_about(d: &PrimitiveDiagram<f64>, dt: f64, iterate: &[f64], previous: &[f64]) -> Vec<f64> {
    solve_window(d, dt, 1, iterate, previous)
}

/// One solve of the system of `nt` consecutive time steps.
fn solve_window(d: &PrimitiveDiagram<f64>, dt: f64, nt: usize, iterate: &[f64], previous: &[f64]) -> Vec<f64> {
    let map = PrimitiveDiagramMapping::new(d);
    let n = map.vector_size() * nt;
    let st = stamp(&map, d, nt);
    let mut summed: BTreeMap<(usize, usize), f64> = BTreeMap::new();
    for e in &st.entries {
        let v = match e.coef {
            Coefficient::One => 1.0,
            Coefficient::MinusOne => -1.0,
            Coefficient::Value(k) => value(d, k),
            Coefficient::NegValue(k) => -value(d, k),
            Coefficient::SqrtValue(k) => value(d, k).sqrt(),
            Coefficient::NegSqrtValue(k) => -value(d, k).sqrt(),
            Coefficient::Dt => dt,
            Coefficient::NegDt => -dt,
            Coefficient::DiodeSlope { state, reverse } => diode_eq(sign(iterate[state], reverse)).0,
        };
        *summed.entry((e.col, e.row)).or_insert(0.0) += v;
    }
    let mut b: Vec<f64> = st
        .sources
        .iter()
        .map(|s| match *s {
            Source::Zero => 0.0,
            Source::Value(k) => value(d, k),
            Source::ValueTimesPrevious { component, state } => value(d, component) * previous[state],
            Source::NegValueTimesPrevious { component, state } => -value(d, component) * previous[state],
            Source::DiodeOffset { state, reverse } => diode_eq(sign(iterate[state], reverse)).1,
            Source::TransistorLeg { state, reverse, other_current, forward } => {
                diode_eq(sign(iterate[state], reverse)).1 + if forward { 0.98 } else { 0.1 } * iterate[other_current]
            }
        })
        .collect();
    let mut t = rsparse::data::Trpl::new();
    for ((col, row), v) in summed {
        t.append(row, col, v);
    }
    t.m = n;
    t.n = n;
    rsparse::lusol(&t.to_sprs(), &mut b, -1, 1e-12).expect("solvable");
    b
}

/// A time step solved by damped iteration of the linearized laws, each
/// iterate moving a tenth of the way to the solution about the last one.
fn step(d: &PrimitiveDiagram<f64>, dt: f64, previous: &[f64]) -> Vec<f64> {
    let mut x = previous.to_vec();
    for _ in 0..3000 {
        let next = solve_about(d, dt, &x, previous);
        x = next.iter().zip(&x).map(|(a, b)| b + 0.1 * (a - b)).collect();
    }
    x
}

fn node_voltage(d: &PrimitiveDiagram<f64>, x: &[f64], node: usize) -> f64 {
    let map = PrimitiveDiagramMapping::new(d);
    if node + 1 == d.num_nodes { 0.0 } else { x[map.state_map.voltages().start + node] }
}

fn divider(v: f64, r1: f64, r2: f64) -> PrimitiveDiagram<f64> {
    PrimitiveDiagram {
        num_nodes: 3,
        two_terminal: vec![([2, 0], Two::Battery(v)), ([0, 1], Two::Resistor(r1)), ([1, 2], Two::Resistor(r2))],
        three_terminal: vec![],
    }
}

#[test]
fn voltage_divider_mid_node() {
    for &(r1, r2) in &[(1000.0, 2000.0), (1.0, 1.0), (47.0, 1e6), (3.3e3, 10.0)] {
        let d = divider(5.0, r1, r2);
        let n = PrimitiveDiagramMapping::new(&d).vector_size();
        let x = solve_about(&d, 1e-3, &vec![0.0; n], &vec![0.0; n]);
        let expected = 5.0 * r2 / (r1 + r2);
        let got = node_voltage(&d, &x, 1);
        assert!(((got - expected) / expected).abs() < 1e-6, "{got} vs {expected}");
    }
}

#[test]
fn current_law_holds_in_solution() {
    let d = PrimitiveDiagram {
        num_nodes: 4,
        two_terminal: vec![
            ([3, 0], Two::Battery(9.0)),
            ([0, 1], Two::Resistor(100.0)),
            ([1, 3], Two::Resistor(220.0)),
            ([1, 2], Two::Resistor(330.0)),
            ([2, 3], Two::Resistor(470.0)),
            ([0, 2], Two::CurrentSource(0.01)),
        ],
        three_terminal: vec![],
    };
    let n = PrimitiveDiagramMapping::new(&d).vector_size();
    let x = solve_about(&d, 1e-3, &vec![0.0; n], &vec![0.0; n]);
    for k in 0..3 {
        let mut sum = 0.0;
        for (i, (nodes, _)) in d.two_terminal.iter().enumerate() {
            if nodes[1] == k {
                sum += x[i];
            }
            if nodes[0] == k {
                sum -= x[i];
            }
        }
        assert!(sum.abs() < 1e-9, "node {k}: {sum}");
    }
}

#[test]
fn capacitor_charges_along_rc_curve() {
    let (r, c, dt) = (1000.0, 10e-6, 1e-4);
    let d = PrimitiveDiagram {
        num_nodes: 3,
        two_terminal: vec![([2, 0], Two::Battery(5.0)), ([0, 1], Two::Resistor(r)), ([1, 2], Two::Capacitor(c))],
        three_terminal: vec![],
    };
    let n = PrimitiveDiagramMapping::new(&d).vector_size();
    let mut x = vec![0.0; n];
    for k in 1..=300 {
        x = solve_about(&d, dt, &x, &x);
        let t = k as f64 * dt;
        let expected = 5.0 * (1.0 - (-t / (r * c)).exp());
        let got = node_voltage(&d, &x, 1);
        assert!((got - expected).abs() < 0.05 * 5.0, "t={t}: {got} vs {expected}");
    }
}

#[test]
fn switch_toggle_restores_voltages() {
    let mk = |open: bool| PrimitiveDiagram {
        num_nodes: 3,
        two_terminal: vec![
            ([2, 0], Two::Battery(5.0)),
            ([0, 1], Two::Switch(open)),
            ([1, 2], Two::Resistor(100.0)),
            ([1, 2], Two::Capacitor(1e-6)),
        ],
        three_terminal: vec![],
    };
    let dt = 1e-5;
    let n = PrimitiveDiagramMapping::new(&mk(false)).vector_size();
    let mut x = vec![0.0; n];
    for _ in 0..200 {
        x = solve_about(&mk(false), dt, &x, &x);
    }
    let before = node_voltage(&mk(false), &x, 1);
    for _ in 0..50 {
        x = solve_about(&mk(true), dt, &x, &x);
    }
    assert!(node_voltage(&mk(true), &x, 1) < before);
    for _ in 0..200 {
        x = solve_about(&mk(false), dt, &x, &x);
    }
    let after = node_voltage(&mk(false), &x, 1);
    assert!((after - before).abs() < 1e-6, "{after} vs {before}");
}

#[test]
fn diode_rectifies() {
    let mk = |v: f64| {
        Diagram {
            two_terminal: vec![
                ([(0, 0), (1, 0)], Two::Battery(v)),
                ([(1, 0), (2, 0)], Two::Diode),
                ([(2, 0), (0, 0)], Two::Resistor(1000.0)),
            ],
            three_terminal: vec![],
        }
        .to_primitive_diagram()
    };
    for v in [5.0, -5.0] {
        let d = mk(v);
        let n = PrimitiveDiagramMapping::new(&d).vector_size();
        let x = step(&d, 1e-3, &vec![0.0; n]);
        let current = x[1];
        if v > 0.0 {
            let expected = (5.0 - 0.7) / 1000.0;
            assert!(((current - expected) / expected).abs() < 0.1, "{current} vs {expected}");
        } else {
            assert!(current.abs() < 1e-6, "{current}");
        }
    }
}

#[test]
fn window_of_steps_matches_single_steps() {
    let d = PrimitiveDiagram {
        num_nodes: 4,
        two_terminal: vec![
            ([3, 0], Two::Battery(5.0)),
            ([0, 1], Two::Resistor(100.0)),
            ([1, 2], Two::Inductor(1e-2, None)),
            ([2, 3], Two::Capacitor(1e-4)),
        ],
        three_terminal: vec![],
    };
    let n = PrimitiveDiagramMapping::new(&d).vector_size();
    let dt = 1e-4;
    let zero = vec![0.0; n];
    let first = solve_about(&d, dt, &zero, &zero);
    let second = solve_about(&d, dt, &first, &first);
    let third = solve_about(&d, dt, &second, &second);
    let window = solve_window(&d, dt, 3, &vec![0.0; 3 * n], &zero);
    let expected: Vec<f64> = first.iter().chain(&second).chain(&third).copied().collect();
    for (a, b) in window.iter().zip(&expected) {
        assert!((a - b).abs() < 1e-9 * (1.0 + b.abs()), "{a} vs {b}");
    }
}
