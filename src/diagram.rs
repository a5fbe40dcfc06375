use vstd::prelude::*;

use crate::topology::{CellPos, PrimitiveDiagram, ThreeTerminalComponent, TwoTerminalComponent};

verus! {

/// A schematic: components placed with their terminals on grid cells.
/// Terminals on the same cell are electrically connected.
#[derive(Clone, Debug)]
pub struct Diagram<V> {
    pub two_terminal: Vec<([CellPos; 2], TwoTerminalComponent<V>)>,
    pub three_terminal: Vec<([CellPos; 3], ThreeTerminalComponent<V>)>,
}

/// Terminal positions of the first `m` two-terminal components, in order.
pub open spec fn two_terminal_cells<V>(dg: &Diagram<V>, m: int) -> Seq<CellPos>
    decreases m,
{
    if m <= 0 {
        seq![]
    } else {
        let p = dg.two_terminal@[m - 1].0;
        two_terminal_cells(dg, m - 1) + seq![p[0], p[1]]
    }
}

/// Terminal positions of the first `m` three-terminal components, in order.
pub open spec fn three_terminal_cells<V>(dg: &Diagram<V>, m: int) -> Seq<CellPos>
    decreases m,
{
    if m <= 0 {
        seq![]
    } else {
        let p = dg.three_terminal@[m - 1].0;
        three_terminal_cells(dg, m - 1) + seq![p[0], p[1], p[2]]
    }
}

/// Every terminal position of a schematic: the two-terminal components' first,
/// then the three-terminal components'.
pub open spec fn terminal_cells<V>(dg: &Diagram<V>) -> Seq<CellPos> {
    two_terminal_cells(dg, dg.two_terminal@.len() as int) + three_terminal_cells(dg, dg.three_terminal@.len() as int)
}

/// The distinct elements of `s`, in order of first occurrence.
pub open spec fn distinct_in_order(s: Seq<CellPos>) -> Seq<CellPos>
    decreases s.len(),
{
    if s.len() == 0 {
        seq![]
    } else {
        let p = distinct_in_order(s.drop_last());
        if p.contains(s.last()) { p } else { p.push(s.last()) }
    }
}

/// How often `c` occurs in `s`.
pub open spec fn occurrences(s: Seq<CellPos>, c: CellPos) -> nat
    decreases s.len(),
{
    if s.len() == 0 {
        0
    } else {
        occurrences(s.drop_last(), c) + if s.last() == c { 1nat } else { 0nat }
    }
}

proof fn lemma_push_contains(s: Seq<CellPos>, x: CellPos)
    ensures
        forall|q: CellPos| #[trigger] s.push(x).contains(q) <==> (s.contains(q) || q == x),
{
    assert forall|q: CellPos| #[trigger] s.push(x).contains(q) <==> (s.contains(q) || q == x) by {
        if s.push(x).contains(q) {
            let j = choose|j: int| 0 <= j < s.push(x).len() && s.push(x)[j] == q;
            if j < s.len() {
                assert(s[j] == q);
            }
        }
        if s.contains(q) {
            let j = choose|j: int| 0 <= j < s.len() && s[j] == q;
            assert(s.push(x)[j] == q);
        }
        assert(s.push(x)[s.len() as int] == x);
    }
}

proof fn lemma_push_no_duplicates(s: Seq<CellPos>, x: CellPos)
    requires
        s.no_duplicates(),
        !s.contains(x),
    ensures
        s.push(x).no_duplicates(),
{
    assert forall|i: int, j: int| 0 <= i < s.push(x).len() && 0 <= j < s.push(x).len() && i != j
        implies s.push(x)[i] != s.push(x)[j] by {
        if i == s.len() {
            assert(s[j] == s.push(x)[j]);
        } else if j == s.len() {
            assert(s[i] == s.push(x)[i]);
        }
    }
}

/// `distinct_in_order` keeps each element of `s` exactly once.
pub proof fn lemma_distinct_in_order(s: Seq<CellPos>)
    ensures
        distinct_in_order(s).no_duplicates(),
        forall|c: CellPos| distinct_in_order(s).contains(c) <==> s.contains(c),
    decreases s.len(),
{
    if s.len() > 0 {
        let p = distinct_in_order(s.drop_last());
        let x = s.last();
        lemma_distinct_in_order(s.drop_last());
        lemma_push_contains(s.drop_last(), x);
        assert(s.drop_last().push(x) =~= s);
        if !p.contains(x) {
            lemma_push_contains(p, x);
            lemma_push_no_duplicates(p, x);
        }
    }
}

fn same_cell(a: CellPos, b: CellPos) -> (r: bool)
    ensures
        r == (a == b),
{
    a.0 == b.0 && a.1 == b.1
}

/// Index of `c` in `cells`, if it is there.
fn find_cell(cells: &Vec<CellPos>, c: CellPos) -> (r: Option<usize>)
    ensures
        match r {
            Some(k) => k < cells@.len() && cells@[k as int] == c,
            None => !cells@.contains(c),
        },
{
    let mut k: usize = 0;
    while k < cells.len()
        invariant
            k <= cells@.len(),
            forall|j: int| 0 <= j < k ==> cells@[j] != c,
        decreases cells@.len() - k,
    {
        if same_cell(cells[k], c) {
            return Some(k);
        }
        k = k + 1;
    }
    None
}

impl<V> Diagram<V> {
    /// All terminal positions, as `terminal_cells` orders them.
    fn cells(&self) -> (r: Vec<CellPos>)
        ensures
            r@ == terminal_cells(self),
    {
        let mut r: Vec<CellPos> = Vec::new();
        let mut i: usize = 0;
        while i < self.two_terminal.len()
            invariant
                i <= self.two_terminal@.len(),
                r@ == two_terminal_cells(self, i as int),
            decreases self.two_terminal@.len() - i,
        {
            let p = self.two_terminal[i].0;
            r.push(p[0]);
            r.push(p[1]);
            proof {
                assert(two_terminal_cells(self, i + 1) =~= two_terminal_cells(self, i as int) + seq![p[0], p[1]]);
            }
            i = i + 1;
        }
        let ghost head = r@;
        let mut t: usize = 0;
        while t < self.three_terminal.len()
            invariant
                t <= self.three_terminal@.len(),
                head == two_terminal_cells(self, self.two_terminal@.len() as int),
                r@ == head + three_terminal_cells(self, t as int),
            decreases self.three_terminal@.len() - t,
        {
            let p = self.three_terminal[t].0;
            r.push(p[0]);
            r.push(p[1]);
            r.push(p[2]);
            proof {
                assert(three_terminal_cells(self, t + 1) =~= three_terminal_cells(self, t as int) + seq![p[0], p[1], p[2]]);
                assert(r@ =~= head + three_terminal_cells(self, t + 1));
            }
            t = t + 1;
        }
        r
    }

    /// The distinct terminal positions, in order of first occurrence.
    fn distinct_cells(&self) -> (r: Vec<CellPos>)
        ensures
            r@ == distinct_in_order(terminal_cells(self)),
    {
        let all = self.cells();
        let mut r: Vec<CellPos> = Vec::new();
        let mut k: usize = 0;
        while k < all.len()
            invariant
                k <= all@.len(),
                all@ == terminal_cells(self),
                r@ == distinct_in_order(all@.take(k as int)),
            decreases all@.len() - k,
        {
            proof {
                assert(all@.take(k + 1).drop_last() =~= all@.take(k as int));
                assert(all@.take(k + 1).last() == all@[k as int]);
            }
            if find_cell(&r, all[k]).is_none() {
                r.push(all[k]);
            }
            k = k + 1;
        }
        proof {
            assert(all@.take(all@.len() as int) =~= all@);
        }
        r
    }

    /// The positions where more than one terminal meets, each once, in order
    /// of first occurrence.
    pub fn junctions(&self) -> (r: Vec<CellPos>)
        ensures
            r@.no_duplicates(),
            forall|c: CellPos| r@.contains(c) <==> occurrences(terminal_cells(self), c) > 1,
    {
        let all = self.cells();
        let distinct = self.distinct_cells();
        proof {
            lemma_distinct_in_order(terminal_cells(self));
        }
        let mut r: Vec<CellPos> = Vec::new();
        let mut k: usize = 0;
        while k < distinct.len()
            invariant
                k <= distinct@.len(),
                all@ == terminal_cells(self),
                distinct@ == distinct_in_order(all@),
                distinct@.no_duplicates(),
                forall|c: CellPos| distinct@.contains(c) <==> all@.contains(c),
                r@.no_duplicates(),
                forall|c: CellPos| r@.contains(c) <==> (distinct@.take(k as int).contains(c) && occurrences(all@, c) > 1),
            decreases distinct@.len() - k,
        {
            let c = distinct[k];
            let n = count_cell(&all, c);
            proof {
                let tk = distinct@.take(k as int);
                let tk1 = distinct@.take(k + 1);
                assert(!tk.contains(c)) by {
                    if tk.contains(c) {
                        let j = choose|j: int| 0 <= j < tk.len() && tk[j] == c;
                        assert(distinct@[j] == distinct@[k as int]);
                    }
                }
                assert forall|q: CellPos| tk1.contains(q) <==> (tk.contains(q) || q == c) by {
                    if tk1.contains(q) {
                        let j = choose|j: int| 0 <= j < tk1.len() && tk1[j] == q;
                        if j < k {
                            assert(tk[j] == q);
                        }
                    }
                    if tk.contains(q) {
                        let j = choose|j: int| 0 <= j < tk.len() && tk[j] == q;
                        assert(tk1[j] == q);
                    }
                    if q == c {
                        assert(tk1[k as int] == q);
                    }
                }
            }
            if n > 1 {
                proof {
                    lemma_push_contains(r@, c);
                    lemma_push_no_duplicates(r@, c);
                }
                r.push(c);
            }
            k = k + 1;
        }
        proof {
            assert(distinct@.take(distinct@.len() as int) =~= distinct@);
            assert forall|c: CellPos| r@.contains(c) <==> occurrences(terminal_cells(self), c) > 1 by {
                if occurrences(all@, c) > 1 {
                    lemma_occurs_contains(all@, c);
                }
            }
        }
        r
    }
}

proof fn lemma_two_terminal_cells_contain<V>(dg: &Diagram<V>, m: int, i: int, j: int)
    requires
        0 <= i < m <= dg.two_terminal@.len(),
        0 <= j < 2,
    ensures
        two_terminal_cells(dg, m).contains(dg.two_terminal@[i].0[j]),
    decreases m,
{
    let c = dg.two_terminal@[i].0[j];
    let p = dg.two_terminal@[m - 1].0;
    let head = two_terminal_cells(dg, m - 1);
    let s = head + seq![p[0], p[1]];
    if i == m - 1 {
        assert(s[head.len() + j] == c);
    } else {
        lemma_two_terminal_cells_contain(dg, m - 1, i, j);
        let k = choose|k: int| 0 <= k < head.len() && head[k] == c;
        assert(s[k] == c);
    }
}

proof fn lemma_three_terminal_cells_contain<V>(dg: &Diagram<V>, m: int, i: int, j: int)
    requires
        0 <= i < m <= dg.three_terminal@.len(),
        0 <= j < 3,
    ensures
        three_terminal_cells(dg, m).contains(dg.three_terminal@[i].0[j]),
    decreases m,
{
    let c = dg.three_terminal@[i].0[j];
    let p = dg.three_terminal@[m - 1].0;
    let head = three_terminal_cells(dg, m - 1);
    let s = head + seq![p[0], p[1], p[2]];
    if i == m - 1 {
        assert(s[head.len() + j] == c);
    } else {
        lemma_three_terminal_cells_contain(dg, m - 1, i, j);
        let k = choose|k: int| 0 <= k < head.len() && head[k] == c;
        assert(s[k] == c);
    }
}

/// Every terminal of a schematic is among its terminal positions.
proof fn lemma_terminal_cells_contain<V>(dg: &Diagram<V>)
    ensures
        forall|i: int, j: int| 0 <= i < dg.two_terminal@.len() && 0 <= j < 2
            ==> terminal_cells(dg).contains(#[trigger] dg.two_terminal@[i].0[j]),
        forall|i: int, j: int| 0 <= i < dg.three_terminal@.len() && 0 <= j < 3
            ==> terminal_cells(dg).contains(#[trigger] dg.three_terminal@[i].0[j]),
{
    let a = two_terminal_cells(dg, dg.two_terminal@.len() as int);
    let b = three_terminal_cells(dg, dg.three_terminal@.len() as int);
    assert forall|i: int, j: int| 0 <= i < dg.two_terminal@.len() && 0 <= j < 2
        implies terminal_cells(dg).contains(#[trigger] dg.two_terminal@[i].0[j]) by {
        lemma_two_terminal_cells_contain(dg, dg.two_terminal@.len() as int, i, j);
        let k = choose|k: int| 0 <= k < a.len() && a[k] == dg.two_terminal@[i].0[j];
        assert((a + b)[k] == a[k]);
    }
    assert forall|i: int, j: int| 0 <= i < dg.three_terminal@.len() && 0 <= j < 3
        implies terminal_cells(dg).contains(#[trigger] dg.three_terminal@[i].0[j]) by {
        lemma_three_terminal_cells_contain(dg, dg.three_terminal@.len() as int, i, j);
        let k = choose|k: int| 0 <= k < b.len() && b[k] == dg.three_terminal@[i].0[j];
        assert((a + b)[a.len() + k] == b[k]);
    }
}

/// Node index of a position that is among `cells`.
fn node_of(cells: &Vec<CellPos>, c: CellPos) -> (r: usize)
    requires
        cells@.contains(c),
    ensures
        r < cells@.len(),
        cells@[r as int] == c,
{
    match find_cell(cells, c) {
        Some(k) => k,
        None => 0,
    }
}

impl<V: Copy> Diagram<V> {
    /// The topology of the schematic: each distinct terminal position becomes a
    /// node, numbered in order of first occurrence (two-terminal components
    /// first), so the last distinct position is the ground node.
    pub fn to_primitive_diagram(&self) -> (r: PrimitiveDiagram<V>)
        ensures
            r.num_nodes == distinct_in_order(terminal_cells(self)).len(),
            r.wf(),
            r.two_terminal@.len() == self.two_terminal@.len(),
            r.three_terminal@.len() == self.three_terminal@.len(),
            forall|i: int| 0 <= i < r.two_terminal@.len() ==> {
                &&& (#[trigger] r.two_terminal@[i]).1 == self.two_terminal@[i].1
                &&& distinct_in_order(terminal_cells(self))[r.two_terminal@[i].0[0] as int] == self.two_terminal@[i].0[0]
                &&& distinct_in_order(terminal_cells(self))[r.two_terminal@[i].0[1] as int] == self.two_terminal@[i].0[1]
            },
            forall|i: int| 0 <= i < r.three_terminal@.len() ==> {
                &&& (#[trigger] r.three_terminal@[i]).1 == self.three_terminal@[i].1
                &&& distinct_in_order(terminal_cells(self))[r.three_terminal@[i].0[0] as int] == self.three_terminal@[i].0[0]
                &&& distinct_in_order(terminal_cells(self))[r.three_terminal@[i].0[1] as int] == self.three_terminal@[i].0[1]
                &&& distinct_in_order(terminal_cells(self))[r.three_terminal@[i].0[2] as int] == self.three_terminal@[i].0[2]
            },
    {
        let cells = self.distinct_cells();
        proof {
            lemma_distinct_in_order(terminal_cells(self));
            lemma_terminal_cells_contain(self);
        }
        let ghost dc = cells@;
        let mut two_terminal: Vec<([usize; 2], TwoTerminalComponent<V>)> = Vec::new();
        let mut i: usize = 0;
        while i < self.two_terminal.len()
            invariant
                i <= self.two_terminal@.len(),
                dc == cells@,
                dc == distinct_in_order(terminal_cells(self)),
                forall|c: CellPos| dc.contains(c) <==> terminal_cells(self).contains(c),
                forall|i: int, j: int| 0 <= i < self.two_terminal@.len() && 0 <= j < 2
                    ==> terminal_cells(self).contains(#[trigger] self.two_terminal@[i].0[j]),
                two_terminal@.len() == i,
                forall|k: int| 0 <= k < i ==> {
                    &&& (#[trigger] two_terminal@[k]).1 == self.two_terminal@[k].1
                    &&& two_terminal@[k].0[0] < dc.len()
                    &&& two_terminal@[k].0[1] < dc.len()
                    &&& dc[two_terminal@[k].0[0] as int] == self.two_terminal@[k].0[0]
                    &&& dc[two_terminal@[k].0[1] as int] == self.two_terminal@[k].0[1]
                },
            decreases self.two_terminal@.len() - i,
        {
            let p = self.two_terminal[i].0;
            proof {
                assert(terminal_cells(self).contains(self.two_terminal@[i as int].0[0]));
                assert(terminal_cells(self).contains(self.two_terminal@[i as int].0[1]));
            }
            let a = node_of(&cells, p[0]);
            let b = node_of(&cells, p[1]);
            two_terminal.push(([a, b], self.two_terminal[i].1));
            i = i + 1;
        }
        let mut three_terminal: Vec<([usize; 3], ThreeTerminalComponent<V>)> = Vec::new();
        let mut t: usize = 0;
        while t < self.three_terminal.len()
            invariant
                t <= self.three_terminal@.len(),
                dc == cells@,
                dc == distinct_in_order(terminal_cells(self)),
                forall|c: CellPos| dc.contains(c) <==> terminal_cells(self).contains(c),
                forall|i: int, j: int| 0 <= i < self.three_terminal@.len() && 0 <= j < 3
                    ==> terminal_cells(self).contains(#[trigger] self.three_terminal@[i].0[j]),
                three_terminal@.len() == t,
                forall|k: int| 0 <= k < t ==> {
                    &&& (#[trigger] three_terminal@[k]).1 == self.three_terminal@[k].1
                    &&& three_terminal@[k].0[0] < dc.len()
                    &&& three_terminal@[k].0[1] < dc.len()
                    &&& three_terminal@[k].0[2] < dc.len()
                    &&& dc[three_terminal@[k].0[0] as int] == self.three_terminal@[k].0[0]
                    &&& dc[three_terminal@[k].0[1] as int] == self.three_terminal@[k].0[1]
                    &&& dc[three_terminal@[k].0[2] as int] == self.three_terminal@[k].0[2]
                },
            decreases self.three_terminal@.len() - t,
        {
            let p = self.three_terminal[t].0;
            proof {
                assert(terminal_cells(self).contains(self.three_terminal@[t as int].0[0]));
                assert(terminal_cells(self).contains(self.three_terminal@[t as int].0[1]));
                assert(terminal_cells(self).contains(self.three_terminal@[t as int].0[2]));
            }
            let a = node_of(&cells, p[0]);
            let b = node_of(&cells, p[1]);
            let c = node_of(&cells, p[2]);
            three_terminal.push(([a, b, c], self.three_terminal[t].1));
            t = t + 1;
        }
        PrimitiveDiagram { num_nodes: cells.len(), two_terminal, three_terminal }
    }
}

proof fn lemma_occurs_contains(s: Seq<CellPos>, c: CellPos)
    requires
        occurrences(s, c) > 0,
    ensures
        s.contains(c),
    decreases s.len(),
{
    if s.last() == c {
        assert(s[s.len() - 1] == c);
    } else {
        lemma_occurs_contains(s.drop_last(), c);
        let k = choose|k: int| 0 <= k < s.drop_last().len() && s.drop_last()[k] == c;
        assert(s[k] == c);
    }
}

/// How often `c` occurs in `cells`.
fn count_cell(cells: &Vec<CellPos>, c: CellPos) -> (r: usize)
    ensures
        r == occurrences(cells@, c),
{
    let mut n: usize = 0;
    let mut k: usize = 0;
    while k < cells.len()
        invariant
            k <= cells@.len(),
            n == occurrences(cells@.take(k as int), c),
            n <= k,
        decreases cells@.len() - k,
    {
        proof {
            assert(cells@.take(k + 1).drop_last() =~= cells@.take(k as int));
            assert(cells@.take(k + 1).last() == cells@[k as int]);
        }
        if same_cell(cells[k], c) {
            n = n + 1;
        }
        k = k + 1;
    }
    proof {
        assert(cells@.take(cells@.len() as int) =~= cells@);
    }
    n
}

/// A selected component: its index, and whether it is a three-terminal one.
pub type Selection = (usize, bool);

/// Editing state of a schematic: the component selected, if any.
pub struct DiagramEditor {
    pub selected: Option<Selection>,
}

impl DiagramEditor {
    pub fn new() -> (r: Self)
        ensures
            r.selected is None,
    {
        DiagramEditor { selected: None }
    }

    /// Removes the selected component from the schematic and clears the
    /// selection. A selection that no longer names a component removes nothing.
    pub fn delete<V>(&mut self, diagram: &mut Diagram<V>)
        ensures
            final(self).selected is None,
            match old(self).selected {
                Some((idx, true)) => {
                    &&& final(diagram).two_terminal@ == old(diagram).two_terminal@
                    &&& final(diagram).three_terminal@ == if idx < old(diagram).three_terminal@.len() {
                        old(diagram).three_terminal@.remove(idx as int)
                    } else {
                        old(diagram).three_terminal@
                    }
                },
                Some((idx, false)) => {
                    &&& final(diagram).three_terminal@ == old(diagram).three_terminal@
                    &&& final(diagram).two_terminal@ == if idx < old(diagram).two_terminal@.len() {
                        old(diagram).two_terminal@.remove(idx as int)
                    } else {
                        old(diagram).two_terminal@
                    }
                },
                None => *final(diagram) == *old(diagram),
            },
    {
        if let Some((idx, three)) = self.selected.take() {
            if three {
                if idx < diagram.three_terminal.len() {
                    diagram.three_terminal.remove(idx);
                }
            } else {
                if idx < diagram.two_terminal.len() {
                    diagram.two_terminal.remove(idx);
                }
            }
        }
    }

    /// Places a three-terminal component with its first terminal at `pos`, and
    /// selects it.
    pub fn new_threeterminal<V>(&mut self, diagram: &mut Diagram<V>, pos: CellPos, component: ThreeTerminalComponent<V>)
        requires
            pos.0 < i32::MAX,
            pos.1 < i32::MAX,
        ensures
            final(diagram).two_terminal@ == old(diagram).two_terminal@,
            final(diagram).three_terminal@ == old(diagram).three_terminal@.push(
                ([pos, ((pos.0 + 1) as i32, (pos.1 + 1) as i32), ((pos.0 + 1) as i32, pos.1)], component),
            ),
            final(self).selected == Some((old(diagram).three_terminal@.len() as usize, true)),
    {
        let (x, y) = pos;
        self.selected = Some((diagram.three_terminal.len(), true));
        diagram.three_terminal.push(([pos, (x + 1, y + 1), (x + 1, y)], component));
    }

    /// Places a two-terminal component with its first terminal at `pos`, and
    /// selects it.
    pub fn new_twoterminal<V>(&mut self, diagram: &mut Diagram<V>, pos: CellPos, component: TwoTerminalComponent<V>)
        requires
            pos.0 < i32::MAX,
        ensures
            final(diagram).three_terminal@ == old(diagram).three_terminal@,
            final(diagram).two_terminal@ == old(diagram).two_terminal@.push(
                ([pos, ((pos.0 + 1) as i32, pos.1)], component),
            ),
            final(self).selected == Some((old(diagram).two_terminal@.len() as usize, false)),
    {
        let (x, y) = pos;
        self.selected = Some((diagram.two_terminal.len(), false));
        diagram.two_terminal.push(([pos, (x + 1, y)], component));
    }

    pub fn reset_selection(&mut self)
        ensures
            final(self).selected is None,
    {
        self.selected = None;
    }

    pub fn selection(&self) -> (r: Option<Selection>)
        ensures
            r == self.selected,
    {
        self.selected
    }
}

} // verus!
