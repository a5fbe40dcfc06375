use vstd::prelude::*;

use crate::map::{num_branches, num_free_nodes, fits_mapping, PrimitiveDiagramMapping};
use crate::stamp_bounds::{lemma_stamp_refs, lemma_stamp_sources_len, lemma_stamp_within};
use crate::topology::{PrimitiveDiagram, ThreeTerminalComponent, TwoTerminalComponent};

verus! {

/// A coefficient of the stamped matrix, named by the quantity it stands for.
/// The numeric value is supplied when the stamp is evaluated.
#[derive(Clone, Copy, Debug, PartialEq, Eq, Structural)]
pub enum Coefficient {
    One,
    MinusOne,
    /// The value of the two-terminal component with this index
    Value(usize),
    /// Minus the value of the two-terminal component with this index
    NegValue(usize),
    /// The square root of the value of the two-terminal component with this index
    SqrtValue(usize),
    /// Minus the square root of the value of the two-terminal component with this index
    NegSqrtValue(usize),
    /// The time step
    Dt,
    /// Minus the time step
    NegDt,
    /// Slope of the diode law linearized about the last iterate of state `state`,
    /// with that voltage negated first when `reverse` holds
    DiodeSlope { state: usize, reverse: bool },
}

/// A right-hand-side value of the stamped system, named by the quantity it stands for.
#[derive(Clone, Copy, Debug, PartialEq, Eq, Structural)]
pub enum Source {
    Zero,
    /// The value of the two-terminal component with this index
    Value(usize),
    /// Component value times entry `state` of the previous time step's solution
    ValueTimesPrevious { component: usize, state: usize },
    /// Minus component value times entry `state` of the previous time step's solution
    NegValueTimesPrevious { component: usize, state: usize },
    /// Offset of the diode law linearized about the last iterate of state `state`
    DiodeOffset { state: usize, reverse: bool },
    /// Offset of a transistor leg, plus the injection gain (forward or reverse)
    /// times the last iterate of the other leg's current `other_current`
    TransistorLeg { state: usize, reverse: bool, other_current: usize, forward: bool },
}

/// One triplet of the sparse matrix; triplets at the same place add up.
#[derive(Clone, Copy, Debug, PartialEq, Eq, Structural)]
pub struct Entry {
    pub row: usize,
    pub col: usize,
    pub coef: Coefficient,
}

/// The symbolic linear system of a window of time steps.
pub struct Stamp {
    /// Matrix triplets
    pub entries: Vec<Entry>,
    /// One right-hand-side value per equation
    pub sources: Vec<Source>,
}

/// The parts of one time step block, in stamping order.
#[derive(Clone, Copy)]
pub enum Section {
    TwoTerminalCurrentLaws,
    ThreeTerminalCurrentLaws,
    TwoTerminalVoltageLaws,
    ThreeTerminalVoltageLaws,
    TwoTerminalComponents,
    ThreeTerminalComponents,
}

pub open spec fn entry(row: int, col: int, coef: Coefficient) -> Entry {
    Entry { row: row as usize, col: col as usize, coef }
}

/// An entry in the row of `node`'s law, unless `node` is ground.
pub open spec fn at_node_row(row_base: int, node: int, nf: int, col: int, coef: Coefficient) -> Seq<Entry> {
    if node < nf { seq![entry(row_base + node, col, coef)] } else { seq![] }
}

/// An entry in the column of `node`'s voltage, unless `node` is ground.
pub open spec fn at_node_col(row: int, col_base: int, node: int, nf: int, coef: Coefficient) -> Seq<Entry> {
    if node < nf { seq![entry(row, col_base + node, coef)] } else { seq![] }
}

pub open spec fn block_len<V>(d: &PrimitiveDiagram<V>) -> int {
    (2 * num_branches(d) + num_free_nodes(d)) as int
}

/// Offset of block `blk` in the window's state and equation vectors.
pub open spec fn block_offset<V>(d: &PrimitiveDiagram<V>, blk: int) -> int {
    blk * block_len(d)
}

/// The magnetic core of a two-terminal component, if it is an inductor on one.
pub open spec fn core_of<V>(c: TwoTerminalComponent<V>) -> Option<u16> {
    match c {
        TwoTerminalComponent::Inductor(_, core) => core,
        _ => None,
    }
}

/// Branch index of the `ab` leg of three-terminal component `t`.
pub open spec fn ab_branch<V>(d: &PrimitiveDiagram<V>, t: int) -> int {
    d.two_terminal@.len() + 2 * t
}

pub open spec fn is_p_type<V>(c: ThreeTerminalComponent<V>) -> bool {
    c is PTransistor
}

/// Coupling of inductor `i` with inductor `j` of the same core.
pub open spec fn coupling_pair<V>(d: &PrimitiveDiagram<V>, blk: int, i: int, j: int) -> Seq<Entry> {
    let o = block_offset(d, blk);
    let nb = num_branches(d) as int;
    let ci = core_of(d.two_terminal@[i].1);
    if j != i && ci is Some && core_of(d.two_terminal@[j].1) == ci {
        seq![entry(o + i, o + nb + j, Coefficient::SqrtValue(i as usize)),
             entry(o + i, o + nb + i, Coefficient::NegSqrtValue(j as usize))]
    } else {
        seq![]
    }
}

/// Couplings of inductor `i` with the first `m` two-terminal components.
pub open spec fn coupling_upto<V>(d: &PrimitiveDiagram<V>, blk: int, i: int, m: int) -> Seq<Entry>
    decreases m,
{
    if m <= 0 { seq![] } else { coupling_upto(d, blk, i, m - 1) + coupling_pair(d, blk, i, m - 1) }
}

/// Entries of the law of two-terminal component `i` in block `blk`.
pub open spec fn two_terminal_law<V>(d: &PrimitiveDiagram<V>, blk: int, i: int) -> Seq<Entry> {
    let o = block_offset(d, blk);
    let n = block_len(d);
    let nb = num_branches(d) as int;
    let nf = num_free_nodes(d) as int;
    let law = o + i;
    let cur = o + i;
    let vd = o + nb + i;
    let nodes = d.two_terminal@[i].0;
    let iu = i as usize;
    match d.two_terminal@[i].1 {
        TwoTerminalComponent::Resistor(_) =>
            seq![entry(law, cur, Coefficient::NegValue(iu)), entry(law, vd, Coefficient::One)],
        TwoTerminalComponent::Wire =>
            at_node_col(law, o + 2 * nb, nodes[1] as int, nf, Coefficient::One)
                + at_node_col(law, o + 2 * nb, nodes[0] as int, nf, Coefficient::MinusOne),
        TwoTerminalComponent::Switch(open) =>
            if open { seq![entry(law, cur, Coefficient::One)] } else { seq![entry(law, vd, Coefficient::One)] },
        TwoTerminalComponent::Battery(_) => seq![entry(law, vd, Coefficient::MinusOne)],
        TwoTerminalComponent::Capacitor(_) =>
            seq![entry(law, cur, Coefficient::NegDt), entry(law, vd, Coefficient::Value(iu))]
                + if blk > 0 { seq![entry(law, vd - n, Coefficient::NegValue(iu))] } else { seq![] },
        TwoTerminalComponent::Inductor(_, _) =>
            seq![entry(law, cur, Coefficient::NegValue(iu))]
                + (if blk > 0 { seq![entry(law, cur - n, Coefficient::Value(iu))] } else { seq![] })
                + seq![entry(law, vd, Coefficient::Dt)]
                + coupling_upto(d, blk, i, d.two_terminal@.len() as int),
        TwoTerminalComponent::Diode =>
            seq![entry(law, vd, Coefficient::DiodeSlope { state: vd as usize, reverse: false }),
                 entry(law, cur, Coefficient::One)],
        TwoTerminalComponent::CurrentSource(_) => seq![entry(law, cur, Coefficient::One)],
    }
}

/// Entries of the two leg laws of three-terminal component `t` in block `blk`.
pub open spec fn three_terminal_law<V>(d: &PrimitiveDiagram<V>, blk: int, t: int) -> Seq<Entry> {
    let o = block_offset(d, blk);
    let nb = num_branches(d) as int;
    let ab = ab_branch(d, t);
    let bc = ab + 1;
    let p = is_p_type(d.three_terminal@[t].1);
    seq![entry(o + ab, o + nb + ab, Coefficient::DiodeSlope { state: (o + nb + ab) as usize, reverse: p }),
         entry(o + ab, o + ab, Coefficient::One),
         entry(o + bc, o + nb + bc, Coefficient::DiodeSlope { state: (o + nb + bc) as usize, reverse: !p }),
         entry(o + bc, o + bc, Coefficient::One)]
}

/// Entries of one part of block `blk` for component `i` of that part.
pub open spec fn section_item<V>(d: &PrimitiveDiagram<V>, blk: int, sec: Section, i: int) -> Seq<Entry> {
    let o = block_offset(d, blk);
    let nb = num_branches(d) as int;
    let nf = num_free_nodes(d) as int;
    let kcl = o + nb;
    let kvl = o + nb + nf;
    let volts = o + 2 * nb;
    match sec {
        Section::TwoTerminalCurrentLaws => {
            let nodes = d.two_terminal@[i].0;
            at_node_row(kcl, nodes[1] as int, nf, o + i, Coefficient::One)
                + at_node_row(kcl, nodes[0] as int, nf, o + i, Coefficient::MinusOne)
        },
        Section::ThreeTerminalCurrentLaws => {
            let nodes = d.three_terminal@[i].0;
            let ab = ab_branch(d, i);
            at_node_row(kcl, nodes[0] as int, nf, o + ab, Coefficient::One)
                + at_node_row(kcl, nodes[1] as int, nf, o + ab, Coefficient::MinusOne)
                + at_node_row(kcl, nodes[1] as int, nf, o + ab + 1, Coefficient::One)
                + at_node_row(kcl, nodes[2] as int, nf, o + ab + 1, Coefficient::MinusOne)
        },
        Section::TwoTerminalVoltageLaws => {
            let nodes = d.two_terminal@[i].0;
            seq![entry(kvl + i, o + nb + i, Coefficient::One)]
                + at_node_col(kvl + i, volts, nodes[1] as int, nf, Coefficient::One)
                + at_node_col(kvl + i, volts, nodes[0] as int, nf, Coefficient::MinusOne)
        },
        Section::ThreeTerminalVoltageLaws => {
            let nodes = d.three_terminal@[i].0;
            let ab = ab_branch(d, i);
            seq![entry(kvl + ab, o + nb + ab, Coefficient::One),
                 entry(kvl + ab + 1, o + nb + ab + 1, Coefficient::One)]
                + at_node_col(kvl + ab, volts, nodes[0] as int, nf, Coefficient::One)
                + at_node_col(kvl + ab, volts, nodes[1] as int, nf, Coefficient::MinusOne)
                + at_node_col(kvl + ab + 1, volts, nodes[1] as int, nf, Coefficient::One)
                + at_node_col(kvl + ab + 1, volts, nodes[2] as int, nf, Coefficient::MinusOne)
        },
        Section::TwoTerminalComponents => two_terminal_law(d, blk, i),
        Section::ThreeTerminalComponents => three_terminal_law(d, blk, i),
    }
}

/// Entries of one part of block `blk` for its first `m` components.
pub open spec fn section_upto<V>(d: &PrimitiveDiagram<V>, blk: int, sec: Section, m: int) -> Seq<Entry>
    decreases m,
{
    if m <= 0 { seq![] } else { section_upto(d, blk, sec, m - 1) + section_item(d, blk, sec, m - 1) }
}

/// Number of components that a part of a block walks over.
pub open spec fn section_len<V>(d: &PrimitiveDiagram<V>, sec: Section) -> int {
    match sec {
        Section::TwoTerminalCurrentLaws | Section::TwoTerminalVoltageLaws
        | Section::TwoTerminalComponents => d.two_terminal@.len() as int,
        _ => d.three_terminal@.len() as int,
    }
}

/// All entries of block `blk`.
pub open spec fn block_entries<V>(d: &PrimitiveDiagram<V>, blk: int) -> Seq<Entry> {
    let n2 = d.two_terminal@.len() as int;
    let n3 = d.three_terminal@.len() as int;
    section_upto(d, blk, Section::TwoTerminalCurrentLaws, n2)
        + section_upto(d, blk, Section::ThreeTerminalCurrentLaws, n3)
        + section_upto(d, blk, Section::TwoTerminalVoltageLaws, n2)
        + section_upto(d, blk, Section::ThreeTerminalVoltageLaws, n3)
        + section_upto(d, blk, Section::TwoTerminalComponents, n2)
        + section_upto(d, blk, Section::ThreeTerminalComponents, n3)
}

/// All entries of the first `nt` blocks.
pub open spec fn stamp_entries<V>(d: &PrimitiveDiagram<V>, nt: int) -> Seq<Entry>
    decreases nt,
{
    if nt <= 0 { seq![] } else { stamp_entries(d, nt - 1) + block_entries(d, nt - 1) }
}

/// Right-hand side of the law of two-terminal component `i` in block `blk`.
pub open spec fn two_terminal_source<V>(d: &PrimitiveDiagram<V>, blk: int, i: int) -> Source {
    let o = block_offset(d, blk);
    let nb = num_branches(d) as int;
    let iu = i as usize;
    match d.two_terminal@[i].1 {
        TwoTerminalComponent::Battery(_) => Source::Value(iu),
        TwoTerminalComponent::CurrentSource(_) => Source::Value(iu),
        TwoTerminalComponent::Diode => Source::DiodeOffset { state: (o + nb + i) as usize, reverse: false },
        TwoTerminalComponent::Capacitor(_) =>
            if blk == 0 { Source::ValueTimesPrevious { component: iu, state: (nb + i) as usize } } else { Source::Zero },
        TwoTerminalComponent::Inductor(_, _) =>
            if blk == 0 { Source::NegValueTimesPrevious { component: iu, state: iu } } else { Source::Zero },
        _ => Source::Zero,
    }
}

/// Right-hand sides of the two leg laws of three-terminal component `t` in block `blk`.
pub open spec fn three_terminal_sources<V>(d: &PrimitiveDiagram<V>, blk: int, t: int) -> Seq<Source> {
    let o = block_offset(d, blk);
    let nb = num_branches(d) as int;
    let ab = ab_branch(d, t);
    let p = is_p_type(d.three_terminal@[t].1);
    seq![Source::TransistorLeg { state: (o + nb + ab) as usize, reverse: p, other_current: (o + ab + 1) as usize, forward: false },
         Source::TransistorLeg { state: (o + nb + ab + 1) as usize, reverse: !p, other_current: (o + ab) as usize, forward: true }]
}

pub open spec fn two_terminal_sources_upto<V>(d: &PrimitiveDiagram<V>, blk: int, m: int) -> Seq<Source>
    decreases m,
{
    if m <= 0 { seq![] } else { two_terminal_sources_upto(d, blk, m - 1).push(two_terminal_source(d, blk, m - 1)) }
}

pub open spec fn three_terminal_sources_upto<V>(d: &PrimitiveDiagram<V>, blk: int, m: int) -> Seq<Source>
    decreases m,
{
    if m <= 0 { seq![] } else { three_terminal_sources_upto(d, blk, m - 1) + three_terminal_sources(d, blk, m - 1) }
}

pub open spec fn zeros(len: int) -> Seq<Source> {
    Seq::new(len as nat, |k: int| Source::Zero)
}

/// Right-hand side of block `blk`: the component laws, then zero for every
/// current law and voltage law.
pub open spec fn block_sources<V>(d: &PrimitiveDiagram<V>, blk: int) -> Seq<Source> {
    two_terminal_sources_upto(d, blk, d.two_terminal@.len() as int)
        + three_terminal_sources_upto(d, blk, d.three_terminal@.len() as int)
        + zeros((num_free_nodes(d) + num_branches(d)) as int)
}

pub open spec fn stamp_sources<V>(d: &PrimitiveDiagram<V>, nt: int) -> Seq<Source>
    decreases nt,
{
    if nt <= 0 { seq![] } else { stamp_sources(d, nt - 1) + block_sources(d, nt - 1) }
}

/// What a stamping step may assume: `d` is well formed, `nb` and `nf` are its
/// branch and non-ground node counts, block `blk` starts at `o`, and the whole
/// block is indexable.
pub open spec fn block_frame<V>(
    d: &PrimitiveDiagram<V>,
    nb: usize,
    nf: usize,
    blk: usize,
    o: usize,
) -> bool {
    &&& d.wf()
    &&& fits_mapping(d)
    &&& nb == num_branches(d)
    &&& nf == num_free_nodes(d)
    &&& o == block_offset(d, blk as int)
    &&& o + block_len(d) <= usize::MAX
}

/// Every entry lies in rows `lo..hi` and in a column below `cols`.
pub open spec fn entries_within(s: Seq<Entry>, lo: int, hi: int, cols: int) -> bool {
    forall|k: int| 0 <= k < s.len() ==> lo <= (#[trigger] s[k]).row < hi && s[k].col < cols
}

/// The rows of block `blk` that a part of the block stamps.
pub open spec fn section_rows<V>(d: &PrimitiveDiagram<V>, blk: int, sec: Section) -> (int, int) {
    let o = block_offset(d, blk);
    let nb = num_branches(d) as int;
    let nf = num_free_nodes(d) as int;
    match sec {
        Section::TwoTerminalCurrentLaws | Section::ThreeTerminalCurrentLaws => (o + nb, o + nb + nf),
        Section::TwoTerminalVoltageLaws | Section::ThreeTerminalVoltageLaws => (o + nb + nf, o + block_len(d)),
        _ => (o, o + nb),
    }
}

/// The component and state indices that a coefficient names exist: components
/// below `n2`, states of the window below `total`.
pub open spec fn coefficient_refs_within(c: Coefficient, n2: int, total: int) -> bool {
    match c {
        Coefficient::Value(k) | Coefficient::NegValue(k) | Coefficient::SqrtValue(k)
        | Coefficient::NegSqrtValue(k) => k < n2,
        Coefficient::DiodeSlope { state, reverse: _ } => state < total,
        _ => true,
    }
}

/// The indices that a right-hand side names exist: components below `n2`,
/// states of the previous time step below `n`, states of the window below `total`.
pub open spec fn source_refs_within(s: Source, n2: int, n: int, total: int) -> bool {
    match s {
        Source::Zero => true,
        Source::Value(k) => k < n2,
        Source::ValueTimesPrevious { component, state } | Source::NegValueTimesPrevious { component, state } =>
            component < n2 && state < n,
        Source::DiodeOffset { state, reverse: _ } => state < total,
        Source::TransistorLeg { state, reverse: _, other_current, forward: _ } =>
            state < total && other_current < total,
    }
}

pub open spec fn coefficients_within(s: Seq<Entry>, n2: int, total: int) -> bool {
    forall|k: int| 0 <= k < s.len() ==> coefficient_refs_within((#[trigger] s[k]).coef, n2, total)
}

pub open spec fn sources_within(s: Seq<Source>, n2: int, n: int, total: int) -> bool {
    forall|k: int| 0 <= k < s.len() ==> source_refs_within(#[trigger] s[k], n2, n, total)
}

fn push_at_node_row(es: &mut Vec<Entry>, row_base: usize, node: usize, nf: usize, col: usize, coef: Coefficient)
    requires
        row_base + nf <= usize::MAX,
    ensures
        final(es)@ == old(es)@ + at_node_row(row_base as int, node as int, nf as int, col as int, coef),
{
    if node < nf {
        es.push(Entry { row: row_base + node, col, coef });
    }
}

fn push_at_node_col(es: &mut Vec<Entry>, row: usize, col_base: usize, node: usize, nf: usize, coef: Coefficient)
    requires
        col_base + nf <= usize::MAX,
    ensures
        final(es)@ == old(es)@ + at_node_col(row as int, col_base as int, node as int, nf as int, coef),
{
    if node < nf {
        es.push(Entry { row, col: col_base + node, coef });
    }
}

fn core_id<V>(c: &TwoTerminalComponent<V>) -> (r: Option<u16>)
    ensures
        r == core_of(*c),
{
    match c {
        TwoTerminalComponent::Inductor(_, core) => *core,
        _ => None,
    }
}

fn push_couplings<V>(es: &mut Vec<Entry>, d: &PrimitiveDiagram<V>, nb: usize, nf: usize, blk: usize, o: usize, i: usize)
    requires
        block_frame(d, nb, nf, blk, o),
        i < d.two_terminal@.len(),
    ensures
        final(es)@ == old(es)@ + coupling_upto(d, blk as int, i as int, d.two_terminal@.len() as int),
{
    let ci = core_id(&d.two_terminal[i].1);
    let n2 = d.two_terminal.len();
    let mut j: usize = 0;
    while j < n2
        invariant
            block_frame(d, nb, nf, blk, o),
            i < n2 == d.two_terminal@.len(),
            j <= n2,
            ci == core_of(d.two_terminal@[i as int].1),
            es@ == old(es)@ + coupling_upto(d, blk as int, i as int, j as int),
        decreases n2 - j,
    {
        if j != i {
            if let Some(c) = ci {
                let cj = core_id(&d.two_terminal[j].1);
                if let Some(c2) = cj {
                    if c2 == c {
                        es.push(Entry { row: o + i, col: o + nb + j, coef: Coefficient::SqrtValue(i) });
                        es.push(Entry { row: o + i, col: o + nb + i, coef: Coefficient::NegSqrtValue(j) });
                    }
                }
            }
        }
        proof {
            assert(coupling_upto(d, blk as int, i as int, j + 1) =~= coupling_upto(d, blk as int, i as int, j as int)
                + coupling_pair(d, blk as int, i as int, j as int));
        }
        j = j + 1;
    }
}

fn push_two_terminal_law<V>(es: &mut Vec<Entry>, d: &PrimitiveDiagram<V>, nb: usize, nf: usize, blk: usize, o: usize, i: usize)
    requires
        block_frame(d, nb, nf, blk, o),
        i < d.two_terminal@.len(),
    ensures
        final(es)@ == old(es)@ + two_terminal_law(d, blk as int, i as int),
{
    let ghost start = es@;
    let n = 2 * nb + nf;
    let law = o + i;
    let cur = o + i;
    let vd = o + nb + i;
    let nodes = d.two_terminal[i].0;
    match &d.two_terminal[i].1 {
        TwoTerminalComponent::Resistor(_) => {
            es.push(Entry { row: law, col: cur, coef: Coefficient::NegValue(i) });
            es.push(Entry { row: law, col: vd, coef: Coefficient::One });
        },
        TwoTerminalComponent::Wire => {
            push_at_node_col(es, law, o + 2 * nb, nodes[1], nf, Coefficient::One);
            push_at_node_col(es, law, o + 2 * nb, nodes[0], nf, Coefficient::MinusOne);
        },
        TwoTerminalComponent::Switch(open) => {
            if *open {
                es.push(Entry { row: law, col: cur, coef: Coefficient::One });
            } else {
                es.push(Entry { row: law, col: vd, coef: Coefficient::One });
            }
        },
        TwoTerminalComponent::Battery(_) => {
            es.push(Entry { row: law, col: vd, coef: Coefficient::MinusOne });
        },
        TwoTerminalComponent::Capacitor(_) => {
            es.push(Entry { row: law, col: cur, coef: Coefficient::NegDt });
            es.push(Entry { row: law, col: vd, coef: Coefficient::Value(i) });
            if blk > 0 {
                assert(o >= n) by (nonlinear_arith)
                    requires o == blk * n, blk > 0;
                es.push(Entry { row: law, col: vd - n, coef: Coefficient::NegValue(i) });
            }
        },
        TwoTerminalComponent::Inductor(_, _) => {
            es.push(Entry { row: law, col: cur, coef: Coefficient::NegValue(i) });
            if blk > 0 {
                assert(o >= n) by (nonlinear_arith)
                    requires o == blk * n, blk > 0;
                es.push(Entry { row: law, col: cur - n, coef: Coefficient::Value(i) });
            }
            es.push(Entry { row: law, col: vd, coef: Coefficient::Dt });
            push_couplings(es, d, nb, nf, blk, o, i);
        },
        TwoTerminalComponent::Diode => {
            es.push(Entry { row: law, col: vd, coef: Coefficient::DiodeSlope { state: vd, reverse: false } });
            es.push(Entry { row: law, col: cur, coef: Coefficient::One });
        },
        TwoTerminalComponent::CurrentSource(_) => {
            es.push(Entry { row: law, col: cur, coef: Coefficient::One });
        },
    }
    assert(es@ =~= start + two_terminal_law(d, blk as int, i as int));
}

#[verifier::rlimit(50)]
fn push_section_item<V>(
    es: &mut Vec<Entry>,
    d: &PrimitiveDiagram<V>,
    nb: usize,
    nf: usize,
    blk: usize,
    o: usize,
    sec: &Section,
    i: usize,
)
    requires
        block_frame(d, nb, nf, blk, o),
        match *sec {
            Section::TwoTerminalCurrentLaws | Section::TwoTerminalVoltageLaws
            | Section::TwoTerminalComponents => i < d.two_terminal@.len(),
            _ => i < d.three_terminal@.len(),
        },
    ensures
        final(es)@ == old(es)@ + section_item(d, blk as int, *sec, i as int),
{
    let ghost start = es@;
    let kcl = o + nb;
    let kvl = o + nb + nf;
    let volts = o + 2 * nb;
    match sec {
        Section::TwoTerminalCurrentLaws => {
            let nodes = d.two_terminal[i].0;
            push_at_node_row(es, kcl, nodes[1], nf, o + i, Coefficient::One);
            push_at_node_row(es, kcl, nodes[0], nf, o + i, Coefficient::MinusOne);
        },
        Section::ThreeTerminalCurrentLaws => {
            let nodes = d.three_terminal[i].0;
            let ab = d.two_terminal.len() + 2 * i;
            push_at_node_row(es, kcl, nodes[0], nf, o + ab, Coefficient::One);
            push_at_node_row(es, kcl, nodes[1], nf, o + ab, Coefficient::MinusOne);
            push_at_node_row(es, kcl, nodes[1], nf, o + ab + 1, Coefficient::One);
            push_at_node_row(es, kcl, nodes[2], nf, o + ab + 1, Coefficient::MinusOne);
        },
        Section::TwoTerminalVoltageLaws => {
            let nodes = d.two_terminal[i].0;
            es.push(Entry { row: kvl + i, col: o + nb + i, coef: Coefficient::One });
            push_at_node_col(es, kvl + i, volts, nodes[1], nf, Coefficient::One);
            push_at_node_col(es, kvl + i, volts, nodes[0], nf, Coefficient::MinusOne);
        },
        Section::ThreeTerminalVoltageLaws => {
            let nodes = d.three_terminal[i].0;
            let ab = d.two_terminal.len() + 2 * i;
            es.push(Entry { row: kvl + ab, col: o + nb + ab, coef: Coefficient::One });
            es.push(Entry { row: kvl + ab + 1, col: o + nb + ab + 1, coef: Coefficient::One });
            push_at_node_col(es, kvl + ab, volts, nodes[0], nf, Coefficient::One);
            push_at_node_col(es, kvl + ab, volts, nodes[1], nf, Coefficient::MinusOne);
            push_at_node_col(es, kvl + ab + 1, volts, nodes[1], nf, Coefficient::One);
            push_at_node_col(es, kvl + ab + 1, volts, nodes[2], nf, Coefficient::MinusOne);
        },
        Section::TwoTerminalComponents => {
            push_two_terminal_law(es, d, nb, nf, blk, o, i);
        },
        Section::ThreeTerminalComponents => {
            let ab = d.two_terminal.len() + 2 * i;
            let p = match &d.three_terminal[i].1 {
                ThreeTerminalComponent::PTransistor(_) => true,
                ThreeTerminalComponent::NTransistor(_) => false,
            };
            es.push(Entry { row: o + ab, col: o + nb + ab, coef: Coefficient::DiodeSlope { state: o + nb + ab, reverse: p } });
            es.push(Entry { row: o + ab, col: o + ab, coef: Coefficient::One });
            es.push(Entry { row: o + ab + 1, col: o + nb + ab + 1, coef: Coefficient::DiodeSlope { state: o + nb + ab + 1, reverse: !p } });
            es.push(Entry { row: o + ab + 1, col: o + ab + 1, coef: Coefficient::One });
        },
    }
    assert(es@ =~= start + section_item(d, blk as int, *sec, i as int));
}

fn push_section<V>(es: &mut Vec<Entry>, d: &PrimitiveDiagram<V>, nb: usize, nf: usize, blk: usize, o: usize, sec: Section)
    requires
        block_frame(d, nb, nf, blk, o),
    ensures
        final(es)@ == old(es)@ + section_upto(d, blk as int, sec, section_len(d, sec)),
{
    let m = match sec {
        Section::TwoTerminalCurrentLaws | Section::TwoTerminalVoltageLaws
        | Section::TwoTerminalComponents => d.two_terminal.len(),
        _ => d.three_terminal.len(),
    };
    let mut i: usize = 0;
    while i < m
        invariant
            block_frame(d, nb, nf, blk, o),
            m == section_len(d, sec),
            i <= m,
            es@ == old(es)@ + section_upto(d, blk as int, sec, i as int),
        decreases m - i,
    {
        push_section_item(es, d, nb, nf, blk, o, &sec, i);
        proof {
            assert(section_upto(d, blk as int, sec, i + 1) =~= section_upto(d, blk as int, sec, i as int)
                + section_item(d, blk as int, sec, i as int));
        }
        i = i + 1;
    }
}

fn push_block<V>(es: &mut Vec<Entry>, d: &PrimitiveDiagram<V>, nb: usize, nf: usize, blk: usize, o: usize)
    requires
        block_frame(d, nb, nf, blk, o),
    ensures
        final(es)@ == old(es)@ + block_entries(d, blk as int),
{
    let ghost start = es@;
    push_section(es, d, nb, nf, blk, o, Section::TwoTerminalCurrentLaws);
    push_section(es, d, nb, nf, blk, o, Section::ThreeTerminalCurrentLaws);
    push_section(es, d, nb, nf, blk, o, Section::TwoTerminalVoltageLaws);
    push_section(es, d, nb, nf, blk, o, Section::ThreeTerminalVoltageLaws);
    push_section(es, d, nb, nf, blk, o, Section::TwoTerminalComponents);
    push_section(es, d, nb, nf, blk, o, Section::ThreeTerminalComponents);
    assert(es@ =~= start + block_entries(d, blk as int));
}

fn push_block_sources<V>(ss: &mut Vec<Source>, d: &PrimitiveDiagram<V>, nb: usize, nf: usize, blk: usize, o: usize)
    requires
        block_frame(d, nb, nf, blk, o),
    ensures
        final(ss)@ == old(ss)@ + block_sources(d, blk as int),
{
    let ghost start = ss@;
    let n2 = d.two_terminal.len();
    let mut i: usize = 0;
    while i < n2
        invariant
            block_frame(d, nb, nf, blk, o),
            n2 == d.two_terminal@.len(),
            i <= n2,
            ss@ == start + two_terminal_sources_upto(d, blk as int, i as int),
        decreases n2 - i,
    {
        let src = match &d.two_terminal[i].1 {
            TwoTerminalComponent::Battery(_) => Source::Value(i),
            TwoTerminalComponent::CurrentSource(_) => Source::Value(i),
            TwoTerminalComponent::Diode => Source::DiodeOffset { state: o + nb + i, reverse: false },
            TwoTerminalComponent::Capacitor(_) => if blk == 0 {
                Source::ValueTimesPrevious { component: i, state: nb + i }
            } else {
                Source::Zero
            },
            TwoTerminalComponent::Inductor(_, _) => if blk == 0 {
                Source::NegValueTimesPrevious { component: i, state: i }
            } else {
                Source::Zero
            },
            _ => Source::Zero,
        };
        ss.push(src);
        i = i + 1;
    }
    let ghost mid = ss@;
    let n3 = d.three_terminal.len();
    let mut t: usize = 0;
    while t < n3
        invariant
            block_frame(d, nb, nf, blk, o),
            n2 == d.two_terminal@.len(),
            n3 == d.three_terminal@.len(),
            t <= n3,
            ss@ == mid + three_terminal_sources_upto(d, blk as int, t as int),
        decreases n3 - t,
    {
        let ab = n2 + 2 * t;
        let p = match &d.three_terminal[t].1 {
            ThreeTerminalComponent::PTransistor(_) => true,
            ThreeTerminalComponent::NTransistor(_) => false,
        };
        ss.push(Source::TransistorLeg { state: o + nb + ab, reverse: p, other_current: o + ab + 1, forward: false });
        ss.push(Source::TransistorLeg { state: o + nb + ab + 1, reverse: !p, other_current: o + ab, forward: true });
        proof {
            assert(three_terminal_sources_upto(d, blk as int, t + 1) =~= three_terminal_sources_upto(d, blk as int, t as int)
                + three_terminal_sources(d, blk as int, t as int));
        }
        t = t + 1;
    }
    let ghost mid2 = ss@;
    let z = nf + nb;
    let mut k: usize = 0;
    while k < z
        invariant
            k <= z,
            ss@ == mid2 + zeros(k as int),
        decreases z - k,
    {
        ss.push(Source::Zero);
        proof {
            assert(zeros(k + 1) =~= zeros(k as int).push(Source::Zero));
        }
        k = k + 1;
    }
    assert(ss@ =~= start + block_sources(d, blk as int));
}

/// The symbolic linear system of `n_timesteps` consecutive time steps.
///
/// Block `b` occupies the state indices and equation rows
/// `b * vector_size .. (b + 1) * vector_size`. Within a block the equations are,
/// in order: one law per component (two per three-terminal component), one
/// current law per non-ground node, and one voltage-drop definition per
/// component. Capacitor and inductor laws refer to the previous time step:
/// to the solution `Source`s name for the first block, and to the preceding
/// block's state through matrix entries for the others.
pub fn stamp<V>(map: &PrimitiveDiagramMapping, diagram: &PrimitiveDiagram<V>, n_timesteps: usize) -> (r: Stamp)
    requires
        diagram.wf(),
        fits_mapping(diagram),
        *map == PrimitiveDiagramMapping::of(diagram),
        n_timesteps * block_len(diagram) <= usize::MAX,
    ensures
        r.entries@ == stamp_entries(diagram, n_timesteps as int),
        r.sources@ == stamp_sources(diagram, n_timesteps as int),
        r.sources@.len() == n_timesteps * block_len(diagram),
        entries_within(r.entries@, 0, n_timesteps * block_len(diagram), n_timesteps * block_len(diagram)),
        coefficients_within(r.entries@, diagram.two_terminal@.len() as int, n_timesteps * block_len(diagram)),
        sources_within(r.sources@, diagram.two_terminal@.len() as int, block_len(diagram),
            n_timesteps * block_len(diagram)),
{
    let n = map.vector_size();
    let nb = map.state_map.n_currents;
    let nf = map.state_map.n_voltages;
    let mut entries: Vec<Entry> = Vec::new();
    let mut sources: Vec<Source> = Vec::new();
    let mut blk: usize = 0;
    let mut o: usize = 0;
    while blk < n_timesteps
        invariant
            diagram.wf(),
            fits_mapping(diagram),
            nb == num_branches(diagram),
            nf == num_free_nodes(diagram),
            n == block_len(diagram),
            n_timesteps * n <= usize::MAX,
            blk <= n_timesteps,
            o == blk * n,
            entries@ == stamp_entries(diagram, blk as int),
            sources@ == stamp_sources(diagram, blk as int),
        decreases n_timesteps - blk,
    {
        assert(o + n <= n_timesteps * n) by (nonlinear_arith)
            requires o == blk * n, blk < n_timesteps;
        push_block(&mut entries, diagram, nb, nf, blk, o);
        push_block_sources(&mut sources, diagram, nb, nf, blk, o);
        assert((blk + 1) * n == blk * n + n) by (nonlinear_arith);
        blk = blk + 1;
        o = o + n;
    }
    proof {
        lemma_stamp_within(diagram, n_timesteps as int);
        lemma_stamp_sources_len(diagram, n_timesteps as int);
        lemma_stamp_refs(diagram, n_timesteps as int, n_timesteps * block_len(diagram));
    }
    Stamp { entries, sources }
}

} // verus!
