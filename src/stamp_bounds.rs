//! Index facts about the stamp: every entry lies in its block's rows and
//! columns, and every index that a coefficient or right-hand side names exists.

use vstd::prelude::*;

use crate::map::{fits_mapping, num_branches, num_free_nodes};
use crate::stamp::{
    ab_branch, at_node_col, at_node_row, block_entries, block_len, block_offset, block_sources,
    coefficient_refs_within, coefficients_within, coupling_pair, coupling_upto, entries_within, entry,
    section_item, section_len, section_rows, section_upto, source_refs_within, sources_within,
    stamp_entries, stamp_sources, three_terminal_sources, three_terminal_sources_upto,
    two_terminal_source, two_terminal_sources_upto, zeros, Coefficient, Entry, Section, Source,
};
use crate::topology::{PrimitiveDiagram, TwoTerminalComponent};

verus! {

pub(crate) proof fn lemma_within_concat(a: Seq<Entry>, b: Seq<Entry>, lo: int, hi: int, cols: int)
    requires
        entries_within(a, lo, hi, cols),
        entries_within(b, lo, hi, cols),
    ensures
        entries_within(a + b, lo, hi, cols),
{
    assert forall|k: int| 0 <= k < (a + b).len() implies lo <= (#[trigger] (a + b)[k]).row < hi && (a + b)[k].col < cols by {
        if k < a.len() {
            assert((a + b)[k] == a[k]);
        } else {
            assert((a + b)[k] == b[k - a.len()]);
        }
    }
}

pub(crate) proof fn lemma_block_frame<V>(d: &PrimitiveDiagram<V>, blk: int)
    requires
        0 <= blk,
        (blk + 1) * block_len(d) <= usize::MAX,
    ensures
        0 <= block_offset(d, blk),
        block_offset(d, blk) + block_len(d) == (blk + 1) * block_len(d),
        blk > 0 ==> block_offset(d, blk) >= block_len(d),
{
    let n = block_len(d);
    assert(0 <= blk * n) by (nonlinear_arith)
        requires 0 <= blk, 0 <= n;
    assert(blk * n + n == (blk + 1) * n) by (nonlinear_arith);
    if blk > 0 {
        assert(blk * n >= n) by (nonlinear_arith)
            requires blk > 0, 0 <= n;
    }
}

pub(crate) proof fn lemma_coupling_within<V>(d: &PrimitiveDiagram<V>, blk: int, i: int, m: int)
    requires
        fits_mapping(d),
        0 <= blk,
        (blk + 1) * block_len(d) <= usize::MAX,
        0 <= i < d.two_terminal@.len(),
        m <= d.two_terminal@.len(),
    ensures
        entries_within(coupling_upto(d, blk, i, m), block_offset(d, blk), block_offset(d, blk) + num_branches(d),
            block_offset(d, blk) + block_len(d)),
    decreases m,
{
    lemma_block_frame(d, blk);
    let o = block_offset(d, blk);
    let nb = num_branches(d) as int;
    if m > 0 {
        lemma_coupling_within(d, blk, i, m - 1);
        lemma_within_concat(coupling_upto(d, blk, i, m - 1), coupling_pair(d, blk, i, m - 1), o, o + nb, o + block_len(d));
    }
}

pub(crate) proof fn lemma_entry_within(row: int, col: int, coef: Coefficient, lo: int, hi: int, cols: int)
    requires
        0 <= lo <= row < hi,
        0 <= col < cols,
        hi <= usize::MAX + 1,
        cols <= usize::MAX + 1,
    ensures
        entries_within(seq![entry(row, col, coef)], lo, hi, cols),
{
    let s = seq![entry(row, col, coef)];
    assert(s[0] == entry(row, col, coef));
}

pub(crate) proof fn lemma_node_row_within(row_base: int, node: int, nf: int, col: int, coef: Coefficient, lo: int, hi: int, cols: int)
    requires
        0 <= lo <= row_base,
        0 <= node,
        row_base + nf <= hi <= usize::MAX + 1,
        0 <= col < cols <= usize::MAX + 1,
    ensures
        entries_within(at_node_row(row_base, node, nf, col, coef), lo, hi, cols),
{
    if node < nf {
        lemma_entry_within(row_base + node, col, coef, lo, hi, cols);
    }
}

pub(crate) proof fn lemma_node_col_within(row: int, col_base: int, node: int, nf: int, coef: Coefficient, lo: int, hi: int, cols: int)
    requires
        0 <= lo <= row < hi <= usize::MAX + 1,
        0 <= node,
        0 <= col_base,
        col_base + nf <= cols <= usize::MAX + 1,
    ensures
        entries_within(at_node_col(row, col_base, node, nf, coef), lo, hi, cols),
{
    if node < nf {
        lemma_entry_within(row, col_base + node, coef, lo, hi, cols);
    }
}

pub(crate) proof fn lemma_current_law_within<V>(d: &PrimitiveDiagram<V>, blk: int, sec: Section, i: int)
    requires
        d.wf(),
        fits_mapping(d),
        0 <= blk,
        (blk + 1) * block_len(d) <= usize::MAX,
        sec is TwoTerminalCurrentLaws || sec is ThreeTerminalCurrentLaws,
        0 <= i < section_len(d, sec),
    ensures
        entries_within(section_item(d, blk, sec, i), section_rows(d, blk, sec).0, section_rows(d, blk, sec).1,
            block_offset(d, blk) + block_len(d)),
{
    lemma_block_frame(d, blk);
    let o = block_offset(d, blk);
    let nb = num_branches(d) as int;
    let nf = num_free_nodes(d) as int;
    let n = block_len(d);
    let (lo, hi) = section_rows(d, blk, sec);
    if sec is TwoTerminalCurrentLaws {
        let nodes = d.two_terminal@[i].0;
        lemma_node_row_within(o + nb, nodes[1] as int, nf, o + i, Coefficient::One, lo, hi, o + n);
        lemma_node_row_within(o + nb, nodes[0] as int, nf, o + i, Coefficient::MinusOne, lo, hi, o + n);
        lemma_within_concat(at_node_row(o + nb, nodes[1] as int, nf, o + i, Coefficient::One),
            at_node_row(o + nb, nodes[0] as int, nf, o + i, Coefficient::MinusOne), lo, hi, o + n);
    } else {
        let nodes = d.three_terminal@[i].0;
        let ab = ab_branch(d, i);
        let s1 = at_node_row(o + nb, nodes[0] as int, nf, o + ab, Coefficient::One);
        let s2 = at_node_row(o + nb, nodes[1] as int, nf, o + ab, Coefficient::MinusOne);
        let s3 = at_node_row(o + nb, nodes[1] as int, nf, o + ab + 1, Coefficient::One);
        let s4 = at_node_row(o + nb, nodes[2] as int, nf, o + ab + 1, Coefficient::MinusOne);
        lemma_node_row_within(o + nb, nodes[0] as int, nf, o + ab, Coefficient::One, lo, hi, o + n);
        lemma_node_row_within(o + nb, nodes[1] as int, nf, o + ab, Coefficient::MinusOne, lo, hi, o + n);
        lemma_node_row_within(o + nb, nodes[1] as int, nf, o + ab + 1, Coefficient::One, lo, hi, o + n);
        lemma_node_row_within(o + nb, nodes[2] as int, nf, o + ab + 1, Coefficient::MinusOne, lo, hi, o + n);
        lemma_within_concat(s1, s2, lo, hi, o + n);
        lemma_within_concat(s1 + s2, s3, lo, hi, o + n);
        lemma_within_concat(s1 + s2 + s3, s4, lo, hi, o + n);
    }
}

pub(crate) proof fn lemma_voltage_law_within<V>(d: &PrimitiveDiagram<V>, blk: int, sec: Section, i: int)
    requires
        d.wf(),
        fits_mapping(d),
        0 <= blk,
        (blk + 1) * block_len(d) <= usize::MAX,
        sec is TwoTerminalVoltageLaws || sec is ThreeTerminalVoltageLaws,
        0 <= i < section_len(d, sec),
    ensures
        entries_within(section_item(d, blk, sec, i), section_rows(d, blk, sec).0, section_rows(d, blk, sec).1,
            block_offset(d, blk) + block_len(d)),
{
    lemma_block_frame(d, blk);
    let o = block_offset(d, blk);
    let nb = num_branches(d) as int;
    let nf = num_free_nodes(d) as int;
    let n = block_len(d);
    let kvl = o + nb + nf;
    let volts = o + 2 * nb;
    let (lo, hi) = section_rows(d, blk, sec);
    if sec is TwoTerminalVoltageLaws {
        let nodes = d.two_terminal@[i].0;
        let s1 = seq![entry(kvl + i, o + nb + i, Coefficient::One)];
        let s2 = at_node_col(kvl + i, volts, nodes[1] as int, nf, Coefficient::One);
        let s3 = at_node_col(kvl + i, volts, nodes[0] as int, nf, Coefficient::MinusOne);
        lemma_entry_within(kvl + i, o + nb + i, Coefficient::One, lo, hi, o + n);
        lemma_node_col_within(kvl + i, volts, nodes[1] as int, nf, Coefficient::One, lo, hi, o + n);
        lemma_node_col_within(kvl + i, volts, nodes[0] as int, nf, Coefficient::MinusOne, lo, hi, o + n);
        lemma_within_concat(s1, s2, lo, hi, o + n);
        lemma_within_concat(s1 + s2, s3, lo, hi, o + n);
    } else {
        let nodes = d.three_terminal@[i].0;
        let ab = ab_branch(d, i);
        let s0 = seq![entry(kvl + ab, o + nb + ab, Coefficient::One),
                      entry(kvl + ab + 1, o + nb + ab + 1, Coefficient::One)];
        let s1 = at_node_col(kvl + ab, volts, nodes[0] as int, nf, Coefficient::One);
        let s2 = at_node_col(kvl + ab, volts, nodes[1] as int, nf, Coefficient::MinusOne);
        let s3 = at_node_col(kvl + ab + 1, volts, nodes[1] as int, nf, Coefficient::One);
        let s4 = at_node_col(kvl + ab + 1, volts, nodes[2] as int, nf, Coefficient::MinusOne);
        assert(entries_within(s0, lo, hi, o + n)) by {
            assert(s0[0] == entry(kvl + ab, o + nb + ab, Coefficient::One));
            assert(s0[1] == entry(kvl + ab + 1, o + nb + ab + 1, Coefficient::One));
        }
        lemma_node_col_within(kvl + ab, volts, nodes[0] as int, nf, Coefficient::One, lo, hi, o + n);
        lemma_node_col_within(kvl + ab, volts, nodes[1] as int, nf, Coefficient::MinusOne, lo, hi, o + n);
        lemma_node_col_within(kvl + ab + 1, volts, nodes[1] as int, nf, Coefficient::One, lo, hi, o + n);
        lemma_node_col_within(kvl + ab + 1, volts, nodes[2] as int, nf, Coefficient::MinusOne, lo, hi, o + n);
        lemma_within_concat(s0, s1, lo, hi, o + n);
        lemma_within_concat(s0 + s1, s2, lo, hi, o + n);
        lemma_within_concat(s0 + s1 + s2, s3, lo, hi, o + n);
        lemma_within_concat(s0 + s1 + s2 + s3, s4, lo, hi, o + n);
    }
}

pub(crate) proof fn lemma_component_law_within<V>(d: &PrimitiveDiagram<V>, blk: int, sec: Section, i: int)
    requires
        d.wf(),
        fits_mapping(d),
        0 <= blk,
        (blk + 1) * block_len(d) <= usize::MAX,
        sec is TwoTerminalComponents || sec is ThreeTerminalComponents,
        0 <= i < section_len(d, sec),
    ensures
        entries_within(section_item(d, blk, sec, i), section_rows(d, blk, sec).0, section_rows(d, blk, sec).1,
            block_offset(d, blk) + block_len(d)),
{
    lemma_block_frame(d, blk);
    let o = block_offset(d, blk);
    let nb = num_branches(d) as int;
    let nf = num_free_nodes(d) as int;
    let n = block_len(d);
    let (lo, hi) = section_rows(d, blk, sec);
    let s = section_item(d, blk, sec, i);
    if sec is TwoTerminalComponents {
        match d.two_terminal@[i].1 {
            TwoTerminalComponent::Inductor(_, _) => {
                lemma_coupling_within(d, blk, i, d.two_terminal@.len() as int);
                let law = o + i;
                let h1 = seq![entry(law, o + i, Coefficient::NegValue(i as usize))];
                let h2 = if blk > 0 { seq![entry(law, o + i - n, Coefficient::Value(i as usize))] } else { seq![] };
                let h3 = seq![entry(law, o + nb + i, Coefficient::Dt)];
                lemma_entry_within(law, o + i, Coefficient::NegValue(i as usize), lo, hi, o + n);
                if blk > 0 {
                    lemma_entry_within(law, o + i - n, Coefficient::Value(i as usize), lo, hi, o + n);
                }
                lemma_entry_within(law, o + nb + i, Coefficient::Dt, lo, hi, o + n);
                lemma_within_concat(h1, h2, lo, hi, o + n);
                lemma_within_concat(h1 + h2, h3, lo, hi, o + n);
                lemma_within_concat(h1 + h2 + h3, coupling_upto(d, blk, i, d.two_terminal@.len() as int), lo, hi, o + n);
            },
            TwoTerminalComponent::Wire => {
                let nodes = d.two_terminal@[i].0;
                let volts = o + 2 * nb;
                lemma_node_col_within(o + i, volts, nodes[1] as int, nf, Coefficient::One, lo, hi, o + n);
                lemma_node_col_within(o + i, volts, nodes[0] as int, nf, Coefficient::MinusOne, lo, hi, o + n);
                lemma_within_concat(at_node_col(o + i, volts, nodes[1] as int, nf, Coefficient::One),
                    at_node_col(o + i, volts, nodes[0] as int, nf, Coefficient::MinusOne), lo, hi, o + n);
            },
            _ => {
                assert(entries_within(s, lo, hi, o + n));
            },
        }
    } else {
        assert(entries_within(s, lo, hi, o + n));
    }
}

pub(crate) proof fn lemma_section_within<V>(d: &PrimitiveDiagram<V>, blk: int, sec: Section, m: int)
    requires
        d.wf(),
        fits_mapping(d),
        0 <= blk,
        (blk + 1) * block_len(d) <= usize::MAX,
        m <= section_len(d, sec),
    ensures
        entries_within(section_upto(d, blk, sec, m), section_rows(d, blk, sec).0, section_rows(d, blk, sec).1,
            block_offset(d, blk) + block_len(d)),
    decreases m,
{
    if m > 0 {
        lemma_section_within(d, blk, sec, m - 1);
        if sec is TwoTerminalCurrentLaws || sec is ThreeTerminalCurrentLaws {
            lemma_current_law_within(d, blk, sec, m - 1);
        } else if sec is TwoTerminalVoltageLaws || sec is ThreeTerminalVoltageLaws {
            lemma_voltage_law_within(d, blk, sec, m - 1);
        } else {
            lemma_component_law_within(d, blk, sec, m - 1);
        }
        lemma_within_concat(section_upto(d, blk, sec, m - 1), section_item(d, blk, sec, m - 1),
            section_rows(d, blk, sec).0, section_rows(d, blk, sec).1, block_offset(d, blk) + block_len(d));
    }
}

pub(crate) proof fn lemma_block_within<V>(d: &PrimitiveDiagram<V>, blk: int)
    requires
        d.wf(),
        fits_mapping(d),
        0 <= blk,
        (blk + 1) * block_len(d) <= usize::MAX,
    ensures
        entries_within(block_entries(d, blk), block_offset(d, blk), block_offset(d, blk) + block_len(d),
            block_offset(d, blk) + block_len(d)),
{
    lemma_block_frame(d, blk);
    let o = block_offset(d, blk);
    let e = o + block_len(d);
    let n2 = d.two_terminal@.len() as int;
    let n3 = d.three_terminal@.len() as int;
    let s1 = section_upto(d, blk, Section::TwoTerminalCurrentLaws, n2);
    let s2 = section_upto(d, blk, Section::ThreeTerminalCurrentLaws, n3);
    let s3 = section_upto(d, blk, Section::TwoTerminalVoltageLaws, n2);
    let s4 = section_upto(d, blk, Section::ThreeTerminalVoltageLaws, n3);
    let s5 = section_upto(d, blk, Section::TwoTerminalComponents, n2);
    let s6 = section_upto(d, blk, Section::ThreeTerminalComponents, n3);
    lemma_section_within(d, blk, Section::TwoTerminalCurrentLaws, n2);
    lemma_section_within(d, blk, Section::ThreeTerminalCurrentLaws, n3);
    lemma_section_within(d, blk, Section::TwoTerminalVoltageLaws, n2);
    lemma_section_within(d, blk, Section::ThreeTerminalVoltageLaws, n3);
    lemma_section_within(d, blk, Section::TwoTerminalComponents, n2);
    lemma_section_within(d, blk, Section::ThreeTerminalComponents, n3);
    lemma_within_concat(s1, s2, o, e, e);
    lemma_within_concat(s1 + s2, s3, o, e, e);
    lemma_within_concat(s1 + s2 + s3, s4, o, e, e);
    lemma_within_concat(s1 + s2 + s3 + s4, s5, o, e, e);
    lemma_within_concat(s1 + s2 + s3 + s4 + s5, s6, o, e, e);
}

/// Every entry of the stamp of `nt` blocks lies inside the `nt * vector_size` square.
pub(crate) proof fn lemma_stamp_within<V>(d: &PrimitiveDiagram<V>, nt: int)
    requires
        d.wf(),
        fits_mapping(d),
        0 <= nt,
        nt * block_len(d) <= usize::MAX,
    ensures
        entries_within(stamp_entries(d, nt), 0, nt * block_len(d), nt * block_len(d)),
    decreases nt,
{
    if nt > 0 {
        let n = block_len(d);
        assert((nt - 1) * n <= nt * n) by (nonlinear_arith)
            requires 0 <= n;
        lemma_stamp_within(d, nt - 1);
        lemma_block_within(d, nt - 1);
        lemma_block_frame(d, nt - 1);
        lemma_within_concat(stamp_entries(d, nt - 1), block_entries(d, nt - 1), 0, nt * n, nt * n);
    }
}

pub(crate) proof fn lemma_block_sources_len<V>(d: &PrimitiveDiagram<V>, blk: int)
    ensures
        block_sources(d, blk).len() == block_len(d),
{
    lemma_two_terminal_sources_len(d, blk, d.two_terminal@.len() as int);
    lemma_three_terminal_sources_len(d, blk, d.three_terminal@.len() as int);
}

pub(crate) proof fn lemma_two_terminal_sources_len<V>(d: &PrimitiveDiagram<V>, blk: int, m: int)
    requires
        0 <= m,
    ensures
        two_terminal_sources_upto(d, blk, m).len() == m,
    decreases m,
{
    if m > 0 {
        lemma_two_terminal_sources_len(d, blk, m - 1);
    }
}

pub(crate) proof fn lemma_three_terminal_sources_len<V>(d: &PrimitiveDiagram<V>, blk: int, m: int)
    requires
        0 <= m,
    ensures
        three_terminal_sources_upto(d, blk, m).len() == 2 * m,
    decreases m,
{
    if m > 0 {
        lemma_three_terminal_sources_len(d, blk, m - 1);
    }
}

/// The right-hand side of `nt` blocks has one value per equation.
pub(crate) proof fn lemma_stamp_sources_len<V>(d: &PrimitiveDiagram<V>, nt: int)
    requires
        0 <= nt,
    ensures
        stamp_sources(d, nt).len() == nt * block_len(d),
    decreases nt,
{
    if nt > 0 {
        lemma_stamp_sources_len(d, nt - 1);
        lemma_block_sources_len(d, nt - 1);
        assert((nt - 1) * block_len(d) + block_len(d) == nt * block_len(d)) by (nonlinear_arith);
    } else {
        assert(nt * block_len(d) == 0) by (nonlinear_arith)
            requires nt == 0;
    }
}

pub(crate) proof fn lemma_coefficients_concat(a: Seq<Entry>, b: Seq<Entry>, n2: int, total: int)
    requires
        coefficients_within(a, n2, total),
        coefficients_within(b, n2, total),
    ensures
        coefficients_within(a + b, n2, total),
{
    assert forall|k: int| 0 <= k < (a + b).len() implies coefficient_refs_within((#[trigger] (a + b)[k]).coef, n2, total) by {
        if k < a.len() {
            assert((a + b)[k] == a[k]);
        } else {
            assert((a + b)[k] == b[k - a.len()]);
        }
    }
}

pub(crate) proof fn lemma_sources_concat(a: Seq<Source>, b: Seq<Source>, n2: int, n: int, total: int)
    requires
        sources_within(a, n2, n, total),
        sources_within(b, n2, n, total),
    ensures
        sources_within(a + b, n2, n, total),
{
    assert forall|k: int| 0 <= k < (a + b).len() implies source_refs_within(#[trigger] (a + b)[k], n2, n, total) by {
        if k < a.len() {
            assert((a + b)[k] == a[k]);
        } else {
            assert((a + b)[k] == b[k - a.len()]);
        }
    }
}

pub(crate) proof fn lemma_coupling_refs<V>(d: &PrimitiveDiagram<V>, blk: int, i: int, m: int, total: int)
    requires
        m <= d.two_terminal@.len(),
        0 <= i < d.two_terminal@.len(),
    ensures
        coefficients_within(coupling_upto(d, blk, i, m), d.two_terminal@.len() as int, total),
    decreases m,
{
    if m > 0 {
        lemma_coupling_refs(d, blk, i, m - 1, total);
        lemma_coefficients_concat(coupling_upto(d, blk, i, m - 1), coupling_pair(d, blk, i, m - 1),
            d.two_terminal@.len() as int, total);
    }
}

pub(crate) proof fn lemma_section_item_refs<V>(d: &PrimitiveDiagram<V>, blk: int, sec: Section, i: int, total: int)
    requires
        fits_mapping(d),
        0 <= blk,
        (blk + 1) * block_len(d) <= total,
        total <= usize::MAX,
        0 <= i < section_len(d, sec),
    ensures
        coefficients_within(section_item(d, blk, sec, i), d.two_terminal@.len() as int, total),
{
    lemma_block_frame(d, blk);
    let n2 = d.two_terminal@.len() as int;
    let s = section_item(d, blk, sec, i);
    match sec {
        Section::TwoTerminalComponents => {
            match d.two_terminal@[i].1 {
                TwoTerminalComponent::Inductor(_, _) => {
                    let o = block_offset(d, blk);
                    let n = block_len(d);
                    let nb = num_branches(d) as int;
                    let law = o + i;
                    let head = seq![entry(law, o + i, Coefficient::NegValue(i as usize))]
                        + (if blk > 0 { seq![entry(law, o + i - n, Coefficient::Value(i as usize))] } else { seq![] })
                        + seq![entry(law, o + nb + i, Coefficient::Dt)];
                    assert(coefficients_within(head, n2, total));
                    lemma_coupling_refs(d, blk, i, n2, total);
                    lemma_coefficients_concat(head, coupling_upto(d, blk, i, n2), n2, total);
                },
                _ => {
                    assert(coefficients_within(s, n2, total));
                },
            }
        },
        Section::ThreeTerminalComponents => {
            assert(coefficients_within(s, n2, total));
        },
        _ => {
            assert(coefficients_within(s, n2, total));
        },
    }
}

pub(crate) proof fn lemma_section_refs<V>(d: &PrimitiveDiagram<V>, blk: int, sec: Section, m: int, total: int)
    requires
        fits_mapping(d),
        0 <= blk,
        (blk + 1) * block_len(d) <= total,
        total <= usize::MAX,
        m <= section_len(d, sec),
    ensures
        coefficients_within(section_upto(d, blk, sec, m), d.two_terminal@.len() as int, total),
    decreases m,
{
    if m > 0 {
        lemma_section_refs(d, blk, sec, m - 1, total);
        lemma_section_item_refs(d, blk, sec, m - 1, total);
        lemma_coefficients_concat(section_upto(d, blk, sec, m - 1), section_item(d, blk, sec, m - 1),
            d.two_terminal@.len() as int, total);
    }
}

pub(crate) proof fn lemma_block_refs<V>(d: &PrimitiveDiagram<V>, blk: int, total: int)
    requires
        fits_mapping(d),
        0 <= blk,
        (blk + 1) * block_len(d) <= total,
        total <= usize::MAX,
    ensures
        coefficients_within(block_entries(d, blk), d.two_terminal@.len() as int, total),
        sources_within(block_sources(d, blk), d.two_terminal@.len() as int, block_len(d), total),
{
    let n2 = d.two_terminal@.len() as int;
    let n3 = d.three_terminal@.len() as int;
    let s1 = section_upto(d, blk, Section::TwoTerminalCurrentLaws, n2);
    let s2 = section_upto(d, blk, Section::ThreeTerminalCurrentLaws, n3);
    let s3 = section_upto(d, blk, Section::TwoTerminalVoltageLaws, n2);
    let s4 = section_upto(d, blk, Section::ThreeTerminalVoltageLaws, n3);
    let s5 = section_upto(d, blk, Section::TwoTerminalComponents, n2);
    let s6 = section_upto(d, blk, Section::ThreeTerminalComponents, n3);
    lemma_section_refs(d, blk, Section::TwoTerminalCurrentLaws, n2, total);
    lemma_section_refs(d, blk, Section::ThreeTerminalCurrentLaws, n3, total);
    lemma_section_refs(d, blk, Section::TwoTerminalVoltageLaws, n2, total);
    lemma_section_refs(d, blk, Section::ThreeTerminalVoltageLaws, n3, total);
    lemma_section_refs(d, blk, Section::TwoTerminalComponents, n2, total);
    lemma_section_refs(d, blk, Section::ThreeTerminalComponents, n3, total);
    lemma_coefficients_concat(s1, s2, n2, total);
    lemma_coefficients_concat(s1 + s2, s3, n2, total);
    lemma_coefficients_concat(s1 + s2 + s3, s4, n2, total);
    lemma_coefficients_concat(s1 + s2 + s3 + s4, s5, n2, total);
    lemma_coefficients_concat(s1 + s2 + s3 + s4 + s5, s6, n2, total);
    let n = block_len(d);
    lemma_two_terminal_source_refs(d, blk, n2, total);
    lemma_three_terminal_source_refs(d, blk, n3, total);
    let z = zeros((num_free_nodes(d) + num_branches(d)) as int);
    assert(sources_within(z, n2, n, total));
    lemma_sources_concat(two_terminal_sources_upto(d, blk, n2), three_terminal_sources_upto(d, blk, n3), n2, n, total);
    lemma_sources_concat(two_terminal_sources_upto(d, blk, n2) + three_terminal_sources_upto(d, blk, n3), z, n2, n, total);
}

pub(crate) proof fn lemma_two_terminal_source_refs<V>(d: &PrimitiveDiagram<V>, blk: int, m: int, total: int)
    requires
        fits_mapping(d),
        0 <= blk,
        (blk + 1) * block_len(d) <= total,
        total <= usize::MAX,
        m <= d.two_terminal@.len(),
    ensures
        sources_within(two_terminal_sources_upto(d, blk, m), d.two_terminal@.len() as int, block_len(d), total),
    decreases m,
{
    lemma_block_frame(d, blk);
    if m > 0 {
        lemma_two_terminal_source_refs(d, blk, m - 1, total);
        let prev = two_terminal_sources_upto(d, blk, m - 1);
        let src = two_terminal_source(d, blk, m - 1);
        assert(source_refs_within(src, d.two_terminal@.len() as int, block_len(d), total));
        assert forall|k: int| 0 <= k < prev.push(src).len() implies source_refs_within(#[trigger] prev.push(src)[k],
            d.two_terminal@.len() as int, block_len(d), total) by {
            if k < prev.len() {
                assert(prev.push(src)[k] == prev[k]);
            }
        }
    }
}

pub(crate) proof fn lemma_three_terminal_source_refs<V>(d: &PrimitiveDiagram<V>, blk: int, m: int, total: int)
    requires
        fits_mapping(d),
        0 <= blk,
        (blk + 1) * block_len(d) <= total,
        total <= usize::MAX,
        m <= d.three_terminal@.len(),
    ensures
        sources_within(three_terminal_sources_upto(d, blk, m), d.two_terminal@.len() as int, block_len(d), total),
    decreases m,
{
    lemma_block_frame(d, blk);
    if m > 0 {
        lemma_three_terminal_source_refs(d, blk, m - 1, total);
        let pair = three_terminal_sources(d, blk, m - 1);
        assert(sources_within(pair, d.two_terminal@.len() as int, block_len(d), total));
        lemma_sources_concat(three_terminal_sources_upto(d, blk, m - 1), pair, d.two_terminal@.len() as int,
            block_len(d), total);
    }
}

/// Every index that the stamp of `nt` blocks names exists.
pub(crate) proof fn lemma_stamp_refs<V>(d: &PrimitiveDiagram<V>, nt: int, total: int)
    requires
        fits_mapping(d),
        0 <= nt,
        nt * block_len(d) <= total,
        total <= usize::MAX,
    ensures
        coefficients_within(stamp_entries(d, nt), d.two_terminal@.len() as int, total),
        sources_within(stamp_sources(d, nt), d.two_terminal@.len() as int, block_len(d), total),
    decreases nt,
{
    if nt > 0 {
        let n = block_len(d);
        assert((nt - 1) * n <= nt * n) by (nonlinear_arith)
            requires 0 <= n;
        lemma_stamp_refs(d, nt - 1, total);
        lemma_block_refs(d, nt - 1, total);
        lemma_coefficients_concat(stamp_entries(d, nt - 1), block_entries(d, nt - 1), d.two_terminal@.len() as int, total);
        lemma_sources_concat(stamp_sources(d, nt - 1), block_sources(d, nt - 1), d.two_terminal@.len() as int, n, total);
    }
}

} // verus!
