use vstd::prelude::*;

verus! {

/// How a time step is solved.
#[derive(Clone, Copy, Debug, PartialEq, Eq, Structural)]
pub enum SolverMode {
    /// One stamp and one solve about the previous solution.
    Linear,
    /// Damped Newton-Raphson iteration on the linearized device laws.
    NewtonRaphson,
}

impl Default for SolverMode {
    fn default() -> (r: Self)
        ensures
            r == SolverMode::NewtonRaphson,
    {
        SolverMode::NewtonRaphson
    }
}

/// Which sparse linear solver solves `A x = b`.
#[derive(Clone, Copy, Debug, PartialEq, Eq, Structural)]
pub enum LinearSolver {
    /// Direct sparse LU factorization.
    Lu,
    /// Biconjugate gradient iteration.
    BiConjugateGradient,
    /// Restarted GMRES iteration.
    Gmres,
}

impl Default for LinearSolver {
    fn default() -> (r: Self)
        ensures
            r == LinearSolver::Lu,
    {
        LinearSolver::Lu
    }
}

} // verus!
