use std::ops::Range;
use vstd::prelude::*;

use crate::topology::PrimitiveDiagram;

verus! {

/// Number of two-terminal laws a diagram contributes: one per two-terminal
/// component and two per three-terminal component.
pub open spec fn num_branches<V>(diagram: &PrimitiveDiagram<V>) -> nat {
    diagram.two_terminal@.len() + 2 * diagram.three_terminal@.len()
}

/// Number of non-ground nodes of a diagram.
pub open spec fn num_free_nodes<V>(diagram: &PrimitiveDiagram<V>) -> nat {
    if diagram.num_nodes == 0 { 0 } else { (diagram.num_nodes - 1) as nat }
}

/// The diagram's unknowns and equations can be indexed by `usize`.
pub open spec fn fits_mapping<V>(diagram: &PrimitiveDiagram<V>) -> bool {
    2 * num_branches(diagram) + num_free_nodes(diagram) <= usize::MAX
}

/// Maps indices of the state vector (x from Ax = b) to the corresponding component voltages,
/// currents, etc.
#[derive(Clone, Copy, Debug, PartialEq, Eq, Structural)]
pub struct PrimitiveDiagramStateVectorMapping {
    pub n_currents: usize,
    pub n_voltage_drops: usize,
    pub n_voltages: usize,
}

/// Maps indices of the parameters (known values such as input voltage or current or signal).
/// These are the known variables, or b from Ax = b.
#[derive(Clone, Copy, Debug, PartialEq, Eq, Structural)]
pub struct PrimitiveDiagramParameterMapping {
    pub n_components: usize,
    pub n_current_laws: usize,
    pub n_voltage_laws: usize,
}

/// Represents the mappings needed to work with either the state vector or the parameter map
#[derive(Clone, Copy, Debug, PartialEq, Eq, Structural)]
pub struct PrimitiveDiagramMapping {
    pub state_map: PrimitiveDiagramStateVectorMapping,
    pub param_map: PrimitiveDiagramParameterMapping,
}

impl PrimitiveDiagramStateVectorMapping {
    pub open spec fn spec_total_len(&self) -> int {
        self.n_currents + self.n_voltage_drops + self.n_voltages
    }

    pub open spec fn fits(&self) -> bool {
        self.spec_total_len() <= usize::MAX
    }

    /// The state layout of a diagram.
    pub open spec fn of<V>(diagram: &PrimitiveDiagram<V>) -> Self {
        PrimitiveDiagramStateVectorMapping {
            n_currents: num_branches(diagram) as usize,
            n_voltage_drops: num_branches(diagram) as usize,
            n_voltages: num_free_nodes(diagram) as usize,
        }
    }

    pub fn new<V>(diagram: &PrimitiveDiagram<V>) -> (r: Self)
        requires
            fits_mapping(diagram),
        ensures
            r == Self::of(diagram),
            r.fits(),
    {
        let n = diagram.two_terminal.len() + 2 * diagram.three_terminal.len();
        Self { n_currents: n, n_voltage_drops: n, n_voltages: diagram.num_nodes.saturating_sub(1) }
    }

    pub fn currents(&self) -> (r: Range<usize>)
        ensures
            r.start == 0,
            r.end == self.n_currents,
    {
        0..self.n_currents
    }

    pub fn voltage_drops(&self) -> (r: Range<usize>)
        requires
            self.fits(),
        ensures
            r.start == self.n_currents,
            r.end == self.n_currents + self.n_voltage_drops,
    {
        let base = self.currents().end;
        base..base + self.n_voltage_drops
    }

    pub fn voltages(&self) -> (r: Range<usize>)
        requires
            self.fits(),
        ensures
            r.start == self.n_currents + self.n_voltage_drops,
            r.end == self.spec_total_len(),
    {
        let base = self.voltage_drops().end;
        base..base + self.n_voltages
    }

    pub fn total_len(&self) -> (r: usize)
        requires
            self.fits(),
        ensures
            r == self.spec_total_len(),
    {
        self.n_currents + self.n_voltages + self.n_voltage_drops
    }
}

impl PrimitiveDiagramParameterMapping {
    pub open spec fn spec_total_len(&self) -> int {
        self.n_components + self.n_current_laws + self.n_voltage_laws
    }

    pub open spec fn fits(&self) -> bool {
        self.spec_total_len() <= usize::MAX
    }

    /// The equation layout of a diagram.
    pub open spec fn of<V>(diagram: &PrimitiveDiagram<V>) -> Self {
        PrimitiveDiagramParameterMapping {
            n_components: num_branches(diagram) as usize,
            n_current_laws: num_free_nodes(diagram) as usize,
            n_voltage_laws: num_branches(diagram) as usize,
        }
    }

    pub fn new<V>(diagram: &PrimitiveDiagram<V>) -> (r: Self)
        requires
            fits_mapping(diagram),
        ensures
            r == Self::of(diagram),
            r.fits(),
    {
        let n = diagram.two_terminal.len() + 2 * diagram.three_terminal.len();
        Self { n_components: n, n_voltage_laws: n, n_current_laws: diagram.num_nodes.saturating_sub(1) }
    }

    pub fn components(&self) -> (r: Range<usize>)
        ensures
            r.start == 0,
            r.end == self.n_components,
    {
        0..self.n_components
    }

    pub fn current_laws(&self) -> (r: Range<usize>)
        requires
            self.fits(),
        ensures
            r.start == self.n_components,
            r.end == self.n_components + self.n_current_laws,
    {
        let base = self.components().end;
        base..base + self.n_current_laws
    }

    pub fn voltage_laws(&self) -> (r: Range<usize>)
        requires
            self.fits(),
        ensures
            r.start == self.n_components + self.n_current_laws,
            r.end == self.spec_total_len(),
    {
        let base = self.current_laws().end;
        base..base + self.n_voltage_laws
    }

    pub fn total_len(&self) -> (r: usize)
        requires
            self.fits(),
        ensures
            r == self.spec_total_len(),
    {
        self.n_current_laws + self.n_voltage_laws + self.n_components
    }
}

impl PrimitiveDiagramMapping {
    /// The layout of a diagram's unknowns and equations.
    pub open spec fn of<V>(diagram: &PrimitiveDiagram<V>) -> Self {
        PrimitiveDiagramMapping {
            state_map: PrimitiveDiagramStateVectorMapping::of(diagram),
            param_map: PrimitiveDiagramParameterMapping::of(diagram),
        }
    }

    /// Both layouts fit in `usize` and have the same length.
    pub open spec fn wf(&self) -> bool {
        &&& self.state_map.fits()
        &&& self.param_map.fits()
        &&& self.state_map.spec_total_len() == self.param_map.spec_total_len()
    }

    pub open spec fn size(&self) -> int {
        self.state_map.spec_total_len()
    }

    pub fn new<V>(diagram: &PrimitiveDiagram<V>) -> (r: Self)
        requires
            fits_mapping(diagram),
        ensures
            r == Self::of(diagram),
            r.wf(),
    {
        Self {
            state_map: PrimitiveDiagramStateVectorMapping::new(diagram),
            param_map: PrimitiveDiagramParameterMapping::new(diagram),
        }
    }

    /// The layout of a diagram, or `None` where its unknowns cannot all be
    /// indexed by `usize`.
    pub fn checked_new<V>(diagram: &PrimitiveDiagram<V>) -> (r: Option<Self>)
        ensures
            r is Some <==> fits_mapping(diagram),
            r matches Some(m) ==> m == Self::of(diagram) && m.wf(),
    {
        let branches = match diagram.three_terminal.len().checked_mul(2) {
            Some(b) => b.checked_add(diagram.two_terminal.len()),
            None => None,
        };
        let size = match branches {
            Some(b) => match b.checked_mul(2) {
                Some(s) => s.checked_add(diagram.num_nodes.saturating_sub(1)),
                None => None,
            },
            None => None,
        };
        if size.is_some() {
            Some(Self::new(diagram))
        } else {
            None
        }
    }

    pub fn vector_size(&self) -> (r: usize)
        requires
            self.wf(),
        ensures
            r == self.state_map.spec_total_len(),
            r == self.param_map.spec_total_len(),
    {
        self.state_map.total_len()
    }
}

/// The state vector and the equation vector of every diagram have the same
/// length: the linear system is square.
pub proof fn lemma_mapping_square<V>(diagram: &PrimitiveDiagram<V>)
    requires
        fits_mapping(diagram),
    ensures
        PrimitiveDiagramMapping::of(diagram).wf(),
        PrimitiveDiagramMapping::of(diagram).state_map.spec_total_len()
            == PrimitiveDiagramMapping::of(diagram).param_map.spec_total_len(),
        PrimitiveDiagramMapping::of(diagram).state_map.spec_total_len()
            == 2 * num_branches(diagram) + num_free_nodes(diagram),
{
}

} // verus!
