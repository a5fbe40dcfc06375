use vstd::prelude::*;

use crate::map::{fits_mapping, num_branches, num_free_nodes};
use crate::stamp::{
    ab_branch, at_node_row, block_entries, block_len, block_offset, block_sources, entries_within,
    section_rows, section_upto, stamp_entries, stamp_sources, Coefficient, Entry, Section, Source,
};
use crate::stamp_bounds::{
    lemma_block_frame, lemma_block_sources_len, lemma_block_within, lemma_section_within,
    lemma_stamp_sources_len, lemma_stamp_within, lemma_three_terminal_sources_len,
    lemma_two_terminal_sources_len,
};
use crate::topology::PrimitiveDiagram;

verus! {

/// Row `r` of a stamped matrix applied to the state `x`, where `val` gives
/// each symbolic coefficient its value.
pub open spec fn row_dot(s: Seq<Entry>, r: int, x: Seq<int>, val: spec_fn(Coefficient) -> int) -> int
    decreases s.len(),
{
    if s.len() == 0 {
        0
    } else {
        row_dot(s.drop_last(), r, x, val) + if s.last().row == r {
            val(s.last().coef) * x[s.last().col as int]
        } else {
            0
        }
    }
}

/// A valuation of coefficients that gives `One` and `MinusOne` their meaning.
pub open spec fn unit_valuation(val: spec_fn(Coefficient) -> int) -> bool {
    val(Coefficient::One) == 1 && val(Coefficient::MinusOne) == -1
}

/// Current `c` counted at `node` if it is `k`.
pub open spec fn at_node(node: int, k: int, c: int) -> int {
    if node == k { c } else { 0 }
}

/// Net current that two-terminal component `i` of block `blk` carries into node `k`:
/// it flows in at its end terminal and out at its begin terminal.
pub open spec fn two_terminal_inflow<V>(d: &PrimitiveDiagram<V>, blk: int, k: int, x: Seq<int>, i: int) -> int {
    let nodes = d.two_terminal@[i].0;
    let c = x[block_offset(d, blk) + i];
    at_node(nodes[1] as int, k, c) - at_node(nodes[0] as int, k, c)
}

/// Net current that three-terminal component `t` of block `blk` carries into node `k`:
/// `i_ab` flows in at `a` and out at `b`, `i_bc` in at `b` and out at `c`.
pub open spec fn three_terminal_inflow<V>(d: &PrimitiveDiagram<V>, blk: int, k: int, x: Seq<int>, t: int) -> int {
    let nodes = d.three_terminal@[t].0;
    let o = block_offset(d, blk);
    let iab = x[o + ab_branch(d, t)];
    let ibc = x[o + ab_branch(d, t) + 1];
    at_node(nodes[0] as int, k, iab) - at_node(nodes[1] as int, k, iab) + at_node(nodes[1] as int, k, ibc)
        - at_node(nodes[2] as int, k, ibc)
}

pub open spec fn two_terminal_inflow_upto<V>(d: &PrimitiveDiagram<V>, blk: int, k: int, x: Seq<int>, m: int) -> int
    decreases m,
{
    if m <= 0 { 0 } else { two_terminal_inflow_upto(d, blk, k, x, m - 1) + two_terminal_inflow(d, blk, k, x, m - 1) }
}

pub open spec fn three_terminal_inflow_upto<V>(d: &PrimitiveDiagram<V>, blk: int, k: int, x: Seq<int>, m: int) -> int
    decreases m,
{
    if m <= 0 { 0 } else { three_terminal_inflow_upto(d, blk, k, x, m - 1) + three_terminal_inflow(d, blk, k, x, m - 1) }
}

/// The signed sum of the currents of all components terminating at node `k`
/// in time step block `blk` of the state `x`.
pub open spec fn node_inflow<V>(d: &PrimitiveDiagram<V>, blk: int, k: int, x: Seq<int>) -> int {
    two_terminal_inflow_upto(d, blk, k, x, d.two_terminal@.len() as int)
        + three_terminal_inflow_upto(d, blk, k, x, d.three_terminal@.len() as int)
}

proof fn lemma_row_dot_concat(a: Seq<Entry>, b: Seq<Entry>, r: int, x: Seq<int>, val: spec_fn(Coefficient) -> int)
    ensures
        row_dot(a + b, r, x, val) == row_dot(a, r, x, val) + row_dot(b, r, x, val),
    decreases b.len(),
{
    if b.len() == 0 {
        assert(a + b =~= a);
    } else {
        assert((a + b).drop_last() =~= a + b.drop_last());
        assert((a + b).last() == b.last());
        lemma_row_dot_concat(a, b.drop_last(), r, x, val);
    }
}

proof fn lemma_row_dot_outside(s: Seq<Entry>, lo: int, hi: int, cols: int, r: int, x: Seq<int>, val: spec_fn(Coefficient) -> int)
    requires
        entries_within(s, lo, hi, cols),
        r < lo || hi <= r,
    ensures
        row_dot(s, r, x, val) == 0,
    decreases s.len(),
{
    if s.len() > 0 {
        assert(entries_within(s.drop_last(), lo, hi, cols)) by {
            assert forall|k: int| 0 <= k < s.drop_last().len() implies lo <= (#[trigger] s.drop_last()[k]).row < hi
                && s.drop_last()[k].col < cols by {
                assert(s.drop_last()[k] == s[k]);
            }
        }
        assert(s.last() == s[s.len() - 1]);
        lemma_row_dot_outside(s.drop_last(), lo, hi, cols, r, x, val);
    }
}

proof fn lemma_row_dot_node_row(
    row_base: int,
    node: int,
    nf: int,
    col: int,
    coef: Coefficient,
    k: int,
    x: Seq<int>,
    val: spec_fn(Coefficient) -> int,
)
    requires
        0 <= row_base,
        0 <= node,
        0 <= k < nf,
        row_base + nf <= usize::MAX,
        0 <= col <= usize::MAX,
    ensures
        row_dot(at_node_row(row_base, node, nf, col, coef), row_base + k, x, val) == at_node(node, k, val(coef) * x[col]),
{
    let s = at_node_row(row_base, node, nf, col, coef);
    if node < nf {
        assert(s.drop_last() =~= Seq::<Entry>::empty());
        assert(row_dot(s.drop_last(), row_base + k, x, val) == 0);
    } else {
        assert(row_dot(s, row_base + k, x, val) == 0);
    }
}

proof fn lemma_two_terminal_current_laws<V>(d: &PrimitiveDiagram<V>, blk: int, k: int, x: Seq<int>, val: spec_fn(Coefficient) -> int, m: int)
    requires
        d.wf(),
        fits_mapping(d),
        0 <= blk,
        (blk + 1) * block_len(d) <= usize::MAX,
        0 <= k < num_free_nodes(d),
        unit_valuation(val),
        m <= d.two_terminal@.len(),
    ensures
        row_dot(section_upto(d, blk, Section::TwoTerminalCurrentLaws, m), block_offset(d, blk) + num_branches(d) + k, x, val)
            == two_terminal_inflow_upto(d, blk, k, x, m),
    decreases m,
{
    if m > 0 {
        lemma_block_frame(d, blk);
        let o = block_offset(d, blk);
        let nb = num_branches(d) as int;
        let nf = num_free_nodes(d) as int;
        let r = o + nb + k;
        let i = m - 1;
        let nodes = d.two_terminal@[i].0;
        let s1 = at_node_row(o + nb, nodes[1] as int, nf, o + i, Coefficient::One);
        let s2 = at_node_row(o + nb, nodes[0] as int, nf, o + i, Coefficient::MinusOne);
        lemma_two_terminal_current_laws(d, blk, k, x, val, m - 1);
        lemma_row_dot_concat(section_upto(d, blk, Section::TwoTerminalCurrentLaws, m - 1), s1 + s2, r, x, val);
        lemma_row_dot_concat(s1, s2, r, x, val);
        lemma_row_dot_node_row(o + nb, nodes[1] as int, nf, o + i, Coefficient::One, k, x, val);
        lemma_row_dot_node_row(o + nb, nodes[0] as int, nf, o + i, Coefficient::MinusOne, k, x, val);
    }
}

proof fn lemma_three_terminal_current_laws<V>(d: &PrimitiveDiagram<V>, blk: int, k: int, x: Seq<int>, val: spec_fn(Coefficient) -> int, m: int)
    requires
        d.wf(),
        fits_mapping(d),
        0 <= blk,
        (blk + 1) * block_len(d) <= usize::MAX,
        0 <= k < num_free_nodes(d),
        unit_valuation(val),
        m <= d.three_terminal@.len(),
    ensures
        row_dot(section_upto(d, blk, Section::ThreeTerminalCurrentLaws, m), block_offset(d, blk) + num_branches(d) + k, x, val)
            == three_terminal_inflow_upto(d, blk, k, x, m),
    decreases m,
{
    if m > 0 {
        lemma_block_frame(d, blk);
        let o = block_offset(d, blk);
        let nb = num_branches(d) as int;
        let nf = num_free_nodes(d) as int;
        let r = o + nb + k;
        let t = m - 1;
        let nodes = d.three_terminal@[t].0;
        let ab = ab_branch(d, t);
        let s1 = at_node_row(o + nb, nodes[0] as int, nf, o + ab, Coefficient::One);
        let s2 = at_node_row(o + nb, nodes[1] as int, nf, o + ab, Coefficient::MinusOne);
        let s3 = at_node_row(o + nb, nodes[1] as int, nf, o + ab + 1, Coefficient::One);
        let s4 = at_node_row(o + nb, nodes[2] as int, nf, o + ab + 1, Coefficient::MinusOne);
        lemma_three_terminal_current_laws(d, blk, k, x, val, m - 1);
        lemma_row_dot_concat(section_upto(d, blk, Section::ThreeTerminalCurrentLaws, m - 1), s1 + s2 + s3 + s4, r, x, val);
        lemma_row_dot_concat(s1 + s2 + s3, s4, r, x, val);
        lemma_row_dot_concat(s1 + s2, s3, r, x, val);
        lemma_row_dot_concat(s1, s2, r, x, val);
        lemma_row_dot_node_row(o + nb, nodes[0] as int, nf, o + ab, Coefficient::One, k, x, val);
        lemma_row_dot_node_row(o + nb, nodes[1] as int, nf, o + ab, Coefficient::MinusOne, k, x, val);
        lemma_row_dot_node_row(o + nb, nodes[1] as int, nf, o + ab + 1, Coefficient::One, k, x, val);
        lemma_row_dot_node_row(o + nb, nodes[2] as int, nf, o + ab + 1, Coefficient::MinusOne, k, x, val);
    }
}

proof fn lemma_block_current_law<V>(d: &PrimitiveDiagram<V>, blk: int, k: int, x: Seq<int>, val: spec_fn(Coefficient) -> int)
    requires
        d.wf(),
        fits_mapping(d),
        0 <= blk,
        (blk + 1) * block_len(d) <= usize::MAX,
        0 <= k < num_free_nodes(d),
        unit_valuation(val),
    ensures
        row_dot(block_entries(d, blk), block_offset(d, blk) + num_branches(d) + k, x, val) == node_inflow(d, blk, k, x),
{
    lemma_block_frame(d, blk);
    let o = block_offset(d, blk);
    let r = o + num_branches(d) + k;
    let e = o + block_len(d);
    let n2 = d.two_terminal@.len() as int;
    let n3 = d.three_terminal@.len() as int;
    let s1 = section_upto(d, blk, Section::TwoTerminalCurrentLaws, n2);
    let s2 = section_upto(d, blk, Section::ThreeTerminalCurrentLaws, n3);
    let s3 = section_upto(d, blk, Section::TwoTerminalVoltageLaws, n2);
    let s4 = section_upto(d, blk, Section::ThreeTerminalVoltageLaws, n3);
    let s5 = section_upto(d, blk, Section::TwoTerminalComponents, n2);
    let s6 = section_upto(d, blk, Section::ThreeTerminalComponents, n3);
    lemma_two_terminal_current_laws(d, blk, k, x, val, n2);
    lemma_three_terminal_current_laws(d, blk, k, x, val, n3);
    lemma_section_within(d, blk, Section::TwoTerminalVoltageLaws, n2);
    lemma_section_within(d, blk, Section::ThreeTerminalVoltageLaws, n3);
    lemma_section_within(d, blk, Section::TwoTerminalComponents, n2);
    lemma_section_within(d, blk, Section::ThreeTerminalComponents, n3);
    lemma_row_dot_outside(s3, section_rows(d, blk, Section::TwoTerminalVoltageLaws).0,
        section_rows(d, blk, Section::TwoTerminalVoltageLaws).1, e, r, x, val);
    lemma_row_dot_outside(s4, section_rows(d, blk, Section::ThreeTerminalVoltageLaws).0,
        section_rows(d, blk, Section::ThreeTerminalVoltageLaws).1, e, r, x, val);
    lemma_row_dot_outside(s5, section_rows(d, blk, Section::TwoTerminalComponents).0,
        section_rows(d, blk, Section::TwoTerminalComponents).1, e, r, x, val);
    lemma_row_dot_outside(s6, section_rows(d, blk, Section::ThreeTerminalComponents).0,
        section_rows(d, blk, Section::ThreeTerminalComponents).1, e, r, x, val);
    lemma_row_dot_concat(s1 + s2 + s3 + s4 + s5, s6, r, x, val);
    lemma_row_dot_concat(s1 + s2 + s3 + s4, s5, r, x, val);
    lemma_row_dot_concat(s1 + s2 + s3, s4, r, x, val);
    lemma_row_dot_concat(s1 + s2, s3, r, x, val);
    lemma_row_dot_concat(s1, s2, r, x, val);
}

/// Only block `blk` stamps the rows of block `blk`.
proof fn lemma_stamp_row<V>(d: &PrimitiveDiagram<V>, nt: int, blk: int, r: int, x: Seq<int>, val: spec_fn(Coefficient) -> int)
    requires
        d.wf(),
        fits_mapping(d),
        0 <= blk < nt,
        nt * block_len(d) <= usize::MAX,
        block_offset(d, blk) <= r < block_offset(d, blk) + block_len(d),
    ensures
        row_dot(stamp_entries(d, nt), r, x, val) == row_dot(block_entries(d, blk), r, x, val),
    decreases nt,
{
    let n = block_len(d);
    assert((nt - 1) * n <= nt * n) by (nonlinear_arith)
        requires 0 <= n;
    assert((blk + 1) * n <= nt * n) by (nonlinear_arith)
        requires 0 <= n, blk < nt;
    lemma_block_frame(d, blk);
    lemma_row_dot_concat(stamp_entries(d, nt - 1), block_entries(d, nt - 1), r, x, val);
    if nt - 1 == blk {
        lemma_stamp_within(d, nt - 1);
        lemma_row_dot_outside(stamp_entries(d, nt - 1), 0, (nt - 1) * n, (nt - 1) * n, r, x, val);
    } else {
        lemma_stamp_row(d, nt - 1, blk, r, x, val);
        lemma_block_frame(d, nt - 1);
        assert((blk + 1) * n <= (nt - 1) * n) by (nonlinear_arith)
            requires 0 <= n, blk < nt - 1;
        lemma_block_within(d, nt - 1);
        lemma_row_dot_outside(block_entries(d, nt - 1), block_offset(d, nt - 1), block_offset(d, nt - 1) + n,
            block_offset(d, nt - 1) + n, r, x, val);
    }
}

/// The right-hand side of `nt` blocks holds block `blk`'s right-hand side at its offset.
proof fn lemma_stamp_source<V>(d: &PrimitiveDiagram<V>, nt: int, blk: int, j: int)
    requires
        0 <= blk < nt,
        0 <= j < block_len(d),
    ensures
        stamp_sources(d, nt)[block_offset(d, blk) + j] == block_sources(d, blk)[j],
    decreases nt,
{
    let n = block_len(d);
    lemma_stamp_sources_len(d, nt - 1);
    lemma_block_sources_len(d, nt - 1);
    assert(stamp_sources(d, nt) == stamp_sources(d, nt - 1) + block_sources(d, nt - 1));
    if nt - 1 == blk {
        assert(block_offset(d, blk) == (nt - 1) * n);
    } else {
        assert(blk * n + j < (nt - 1) * n) by (nonlinear_arith)
            requires blk < nt - 1, 0 <= j < n;
        lemma_stamp_source(d, nt - 1, blk, j);
    }
}

/// Kirchhoff's current law holds in every solution of the stamped system:
/// the equation of each non-ground node `k` in each time step block `blk` reads
/// "the signed sum of the currents of the components terminating at `k` is zero".
/// Its row, applied to any state `x`, gives that sum, whatever values the
/// symbolic coefficients other than `One` and `MinusOne` take, and its
/// right-hand side is zero.
pub proof fn lemma_current_conservation<V>(
    d: &PrimitiveDiagram<V>,
    nt: int,
    blk: int,
    k: int,
    x: Seq<int>,
    val: spec_fn(Coefficient) -> int,
)
    requires
        d.wf(),
        fits_mapping(d),
        nt * block_len(d) <= usize::MAX,
        0 <= blk < nt,
        0 <= k < num_free_nodes(d),
        unit_valuation(val),
    ensures
        row_dot(stamp_entries(d, nt), block_offset(d, blk) + num_branches(d) + k, x, val) == node_inflow(d, blk, k, x),
        stamp_sources(d, nt)[block_offset(d, blk) + num_branches(d) + k] == Source::Zero,
{
    let n = block_len(d);
    assert((blk + 1) * n <= nt * n) by (nonlinear_arith)
        requires 0 <= n, blk < nt;
    lemma_block_frame(d, blk);
    lemma_stamp_row(d, nt, blk, block_offset(d, blk) + num_branches(d) + k, x, val);
    lemma_block_current_law(d, blk, k, x, val);
    lemma_stamp_source(d, nt, blk, num_branches(d) + k);
    lemma_two_terminal_sources_len(d, blk, d.two_terminal@.len() as int);
    lemma_three_terminal_sources_len(d, blk, d.three_terminal@.len() as int);
}

} // verus!
