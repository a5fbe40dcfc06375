use vstd::prelude::*;

verus! {

/// A grid position of a component terminal in a schematic.
pub type CellPos = (i32, i32);

/// A single two-terminal circuit element. `V` is the numeric type of its value.
#[derive(Clone, Copy, Debug)]
pub enum TwoTerminalComponent<V> {
    Wire,
    /// Resistance
    Resistor(V),
    /// Inductance, and the magnetic core that couples it to other inductors
    Inductor(V, Option<u16>),
    /// Capacitance
    Capacitor(V),
    Diode,
    /// Voltage
    Battery(V),
    /// Whether the switch is open
    Switch(bool),
    /// Current
    CurrentSource(V),
}

/// A three-terminal circuit element; terminals are ordered `(a, b, c)` with `b` the base.
#[derive(Clone, Copy, Debug)]
pub enum ThreeTerminalComponent<V> {
    /// Beta
    PTransistor(V),
    /// Beta
    NTransistor(V),
}

/// The simplified topology of the network: the input of the simulator.
/// The last node (`num_nodes - 1`) is the ground reference.
#[derive(Clone, Debug)]
pub struct PrimitiveDiagram<V> {
    pub num_nodes: usize,
    pub two_terminal: Vec<([usize; 2], TwoTerminalComponent<V>)>,
    pub three_terminal: Vec<([usize; 3], ThreeTerminalComponent<V>)>,
}

impl<V> PrimitiveDiagram<V> {
    /// Every node index that a component refers to is a node of the diagram.
    pub open spec fn wf(&self) -> bool {
        &&& forall|i: int| 0 <= i < self.two_terminal@.len() ==> {
            &&& (#[trigger] self.two_terminal@[i]).0[0] < self.num_nodes
            &&& self.two_terminal@[i].0[1] < self.num_nodes
        }
        &&& forall|i: int| 0 <= i < self.three_terminal@.len() ==> {
            &&& (#[trigger] self.three_terminal@[i]).0[0] < self.num_nodes
            &&& self.three_terminal@[i].0[1] < self.num_nodes
            &&& self.three_terminal@[i].0[2] < self.num_nodes
        }
    }
}

impl<V> TwoTerminalComponent<V> {
    pub open spec fn spec_name(&self) -> Seq<char> {
        match self {
            TwoTerminalComponent::Wire => "Wire"@,
            TwoTerminalComponent::Resistor(_) => "Resistor"@,
            TwoTerminalComponent::Capacitor(_) => "Capacitor"@,
            TwoTerminalComponent::Inductor(_, _) => "Inductor"@,
            TwoTerminalComponent::Battery(_) => "Battery"@,
            TwoTerminalComponent::Diode => "Diode"@,
            TwoTerminalComponent::Switch(_) => "Switch"@,
            TwoTerminalComponent::CurrentSource(_) => "Current Source"@,
        }
    }

    /// Human-readable name of the kind of component.
    pub fn name(&self) -> (r: &'static str)
        ensures
            r@ == self.spec_name(),
    {
        match self {
            TwoTerminalComponent::Wire => "Wire",
            TwoTerminalComponent::Resistor(_) => "Resistor",
            TwoTerminalComponent::Capacitor(_) => "Capacitor",
            TwoTerminalComponent::Inductor(_, _) => "Inductor",
            TwoTerminalComponent::Battery(_) => "Battery",
            TwoTerminalComponent::Diode => "Diode",
            TwoTerminalComponent::Switch(_) => "Switch",
            TwoTerminalComponent::CurrentSource(_) => "Current Source",
        }
    }
}

impl<V> ThreeTerminalComponent<V> {
    pub open spec fn spec_name(&self) -> Seq<char> {
        match self {
            ThreeTerminalComponent::NTransistor(_) => "N-type Transistor (NPN)"@,
            ThreeTerminalComponent::PTransistor(_) => "P-type Transistor (PNP)"@,
        }
    }

    /// Human-readable name of the kind of component.
    pub fn name(&self) -> (r: &'static str)
        ensures
            r@ == self.spec_name(),
    {
        match self {
            ThreeTerminalComponent::NTransistor(_) => "N-type Transistor (NPN)",
            ThreeTerminalComponent::PTransistor(_) => "P-type Transistor (PNP)",
        }
    }
}

/// The batteries among the first `m` two-terminal components, as
/// (component index, voltage).
pub open spec fn voltage_sources_upto<V>(d: &PrimitiveDiagram<V>, m: int) -> Seq<(usize, V)>
    decreases m,
{
    if m <= 0 {
        seq![]
    } else {
        let rest = voltage_sources_upto(d, m - 1);
        match d.two_terminal@[m - 1].1 {
            TwoTerminalComponent::Battery(v) => rest.push(((m - 1) as usize, v)),
            _ => rest,
        }
    }
}

impl<V: Copy> PrimitiveDiagram<V> {
    /// Returns (component index, voltage) of every battery, in component order.
    pub fn voltage_sources(&self) -> (r: Vec<(usize, V)>)
        ensures
            r@ == voltage_sources_upto(self, self.two_terminal@.len() as int),
    {
        let mut r: Vec<(usize, V)> = Vec::new();
        let mut i: usize = 0;
        while i < self.two_terminal.len()
            invariant
                i <= self.two_terminal@.len(),
                r@ == voltage_sources_upto(self, i as int),
            decreases self.two_terminal@.len() - i,
        {
            match &self.two_terminal[i].1 {
                TwoTerminalComponent::Battery(v) => r.push((i, *v)),
                _ => {},
            }
            i = i + 1;
        }
        r
    }
}

impl<V> PrimitiveDiagram<V> {
    /// Whether every node index that a component refers to is below `num_nodes`.
    pub fn is_well_formed(&self) -> (r: bool)
        ensures
            r == self.wf(),
    {
        let mut i: usize = 0;
        while i < self.two_terminal.len()
            invariant
                i <= self.two_terminal@.len(),
                forall|j: int| 0 <= j < i ==> {
                    &&& (#[trigger] self.two_terminal@[j]).0[0] < self.num_nodes
                    &&& self.two_terminal@[j].0[1] < self.num_nodes
                },
            decreases self.two_terminal@.len() - i,
        {
            let nodes = self.two_terminal[i].0;
            if nodes[0] >= self.num_nodes || nodes[1] >= self.num_nodes {
                return false;
            }
            i = i + 1;
        }
        let mut t: usize = 0;
        while t < self.three_terminal.len()
            invariant
                t <= self.three_terminal@.len(),
                forall|j: int| 0 <= j < self.two_terminal@.len() ==> {
                    &&& (#[trigger] self.two_terminal@[j]).0[0] < self.num_nodes
                    &&& self.two_terminal@[j].0[1] < self.num_nodes
                },
                forall|j: int| 0 <= j < t ==> {
                    &&& (#[trigger] self.three_terminal@[j]).0[0] < self.num_nodes
                    &&& self.three_terminal@[j].0[1] < self.num_nodes
                    &&& self.three_terminal@[j].0[2] < self.num_nodes
                },
            decreases self.three_terminal@.len() - t,
        {
            let nodes = self.three_terminal[t].0;
            if nodes[0] >= self.num_nodes || nodes[1] >= self.num_nodes || nodes[2] >= self.num_nodes {
                return false;
            }
            t = t + 1;
        }
        true
    }
}

} // verus!
