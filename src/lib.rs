//! Structural core of a time-domain circuit simulator: the topology of a
//! circuit, the layout of its modified-nodal-analysis unknowns and equations,
//! and the symbolic stamp of the linear system solved at each step.

pub mod diagram;
pub mod kcl;
pub mod map;
pub mod solver;
pub mod stamp;
mod stamp_bounds;
pub mod topology;
