//! Integer parts of the optimisation worker: the layout of the debris
//! evaluation grid, particles and the particle-swarm configuration, and the
//! shape check of a task payload.

use vstd::prelude::*;
use crate::proto::TaskRunMetrics;

verus! {

/// Number of debris-size buckets in a grid row.
pub const D_VALS_LEN: usize = 10;

/// Number of altitude buckets of the grid.
pub const H_VALS_LEN: usize = 10;

/// Flat index of grid cell (size bucket `di`, altitude bucket `hi`): rows of
/// `D_VALS_LEN` size buckets, one row per altitude bucket.
pub fn dihitoi(di: usize, hi: usize) -> (r: usize)
    requires
        hi * D_VALS_LEN + di <= usize::MAX,
    ensures
        r == hi * D_VALS_LEN + di,
{
    hi * D_VALS_LEN + di
}

/// Distinct cells of the grid have distinct flat indices, and the cells of
/// the grid fill exactly the indices below `D_VALS_LEN * H_VALS_LEN`.
pub proof fn lemma_dihitoi_layout(di1: int, hi1: int, di2: int, hi2: int)
    requires
        0 <= di1 < D_VALS_LEN,
        0 <= di2 < D_VALS_LEN,
        0 <= hi1,
        0 <= hi2,
    ensures
        hi1 * D_VALS_LEN + di1 == hi2 * D_VALS_LEN + di2 ==> di1 == di2 && hi1 == hi2,
        hi1 * D_VALS_LEN + di1 < D_VALS_LEN * H_VALS_LEN <==> hi1 < H_VALS_LEN,
{
    assert(hi1 * D_VALS_LEN + di1 == hi2 * D_VALS_LEN + di2 ==> di1 == di2 && hi1 == hi2)
        by (nonlinear_arith)
        requires
            0 <= di1 < 10,
            0 <= di2 < 10,
            0 <= hi1,
            0 <= hi2,
            D_VALS_LEN == 10,
    ;
    assert(hi1 * D_VALS_LEN + di1 < D_VALS_LEN * H_VALS_LEN <==> hi1 < H_VALS_LEN)
        by (nonlinear_arith)
        requires
            0 <= di1 < 10,
            0 <= hi1,
            D_VALS_LEN == 10,
            H_VALS_LEN == 10,
    ;
}

/// A problem solved in stages, which knows its current stage.
pub trait SteppedProblem {
    fn get_step(&self) -> usize;

    fn set_step(&mut self, step: usize);
}

/// A particle of the swarm: where it is, how it moves, what it costs, and
/// the best place and cost it has seen.
pub struct Particle<T, F> {
    pub position: T,
    velocity: T,
    pub cost: F,
    best_position: T,
    best_cost: F,
}

impl<T, F> Particle<T, F> {
    /// Where the particle is.
    pub closed spec fn position_of(&self) -> T {
        self.position
    }

    /// What the particle's position costs.
    pub closed spec fn cost_of(&self) -> F {
        self.cost
    }

    /// How the particle moves.
    pub closed spec fn velocity_of(&self) -> T {
        self.velocity
    }

    /// The best position that the particle has seen.
    pub closed spec fn best_position_of(&self) -> T {
        self.best_position
    }

    /// The best cost that the particle has seen.
    pub closed spec fn best_cost_of(&self) -> F {
        self.best_cost
    }
}

impl<T: Clone, F: Copy> Particle<T, F> {
    /// A particle at `position` with cost `cost` and velocity `velocity`,
    /// whose best place so far is where it stands.
    pub fn new(position: T, cost: F, velocity: T) -> (p: Particle<T, F>)
        ensures
            cloned(position, p.position_of()),
            p.velocity_of() == velocity,
            p.cost_of() == cost,
            p.best_position_of() == position,
            p.best_cost_of() == cost,
    {
        Particle { position: position.clone(), velocity, cost, best_position: position, best_cost: cost }
    }

    /// The particle's parts: position, velocity, cost, best position, best cost.
    pub fn into_parts(self) -> (r: (T, T, F, T, F))
        ensures
            r == (self.position_of(), self.velocity_of(), self.cost_of(), self.best_position_of(), self.best_cost_of()),
    {
        (self.position, self.velocity, self.cost, self.best_position, self.best_cost)
    }

    /// How the particle moves.
    pub fn velocity(&self) -> (r: &T)
        ensures
            *r == self.velocity_of(),
    {
        &self.velocity
    }

    /// The best position that the particle has seen.
    pub fn best_position(&self) -> (r: &T)
        ensures
            *r == self.best_position_of(),
    {
        &self.best_position
    }

    /// The best cost that the particle has seen.
    pub fn best_cost(&self) -> (r: F)
        ensures
            r == self.best_cost_of(),
    {
        self.best_cost
    }
}

/// Why a swarm setting was refused.
#[derive(Debug, Clone, Copy, PartialEq, Eq, Structural)]
pub enum SwarmError {
    /// The inertia weight was negative.
    NegativeInertia,
    /// The weight of the pull to a particle's own best was negative.
    NegativeCognitive,
    /// The weight of the pull to the swarm's best was negative.
    NegativeSocial,
}

impl SwarmError {
    /// The message that reports the refused setting.
    pub fn message(&self) -> (m: &'static str)
        ensures
            m@ == (match *self {
                SwarmError::NegativeInertia => "`ParticleSwarm`: inertia factor must be >=0."@,
                SwarmError::NegativeCognitive => "`ParticleSwarm`: cognitive factor must be >=0."@,
                SwarmError::NegativeSocial => "`ParticleSwarm`: social factor must be >=0."@,
            }),
    {
        match self {
            SwarmError::NegativeInertia => "`ParticleSwarm`: inertia factor must be >=0.",
            SwarmError::NegativeCognitive => "`ParticleSwarm`: cognitive factor must be >=0.",
            SwarmError::NegativeSocial => "`ParticleSwarm`: social factor must be >=0.",
        }
    }
}

/// Particle-swarm settings: the three weights of a particle's motion (inertia,
/// pull to its own best, pull to the swarm's best), the search box, the
/// number of particles, and the random number generator.
pub struct SteppedParticleSwarm<P, F, R> {
    weight_inertia: F,
    weight_cognitive: F,
    weight_social: F,
    bounds: (P, P),
    num_particles: usize,
    rng_generator: R,
}

impl<P, F, R> SteppedParticleSwarm<P, F, R> {
    pub closed spec fn inertia_of(&self) -> F {
        self.weight_inertia
    }

    pub closed spec fn cognitive_of(&self) -> F {
        self.weight_cognitive
    }

    pub closed spec fn social_of(&self) -> F {
        self.weight_social
    }

    pub closed spec fn bounds_of(&self) -> (P, P) {
        self.bounds
    }

    pub closed spec fn num_particles_of(&self) -> usize {
        self.num_particles
    }

    pub closed spec fn rng_of(&self) -> R {
        self.rng_generator
    }

    /// Settings from their parts.
    pub fn from_parts(
        weight_inertia: F,
        weight_cognitive: F,
        weight_social: F,
        bounds: (P, P),
        num_particles: usize,
        rng_generator: R,
    ) -> (s: Self)
        ensures
            s.inertia_of() == weight_inertia,
            s.cognitive_of() == weight_cognitive,
            s.social_of() == weight_social,
            s.bounds_of() == bounds,
            s.num_particles_of() == num_particles,
            s.rng_of() == rng_generator,
    {
        SteppedParticleSwarm {
            weight_inertia,
            weight_cognitive,
            weight_social,
            bounds,
            num_particles,
            rng_generator,
        }
    }

    /// The settings' parts: the three weights (inertia, cognitive, social),
    /// the bounds, the number of particles, and the generator.
    pub fn into_parts(self) -> (r: (F, F, F, (P, P), usize, R))
        ensures
            r == (self.inertia_of(), self.cognitive_of(), self.social_of(), self.bounds_of(), self.num_particles_of(), self.rng_of()),
    {
        (self.weight_inertia, self.weight_cognitive, self.weight_social, self.bounds, self.num_particles, self.rng_generator)
    }

    /// The same settings with another random number generator.
    pub fn with_rng_generator<R1>(self, generator: R1) -> (s: SteppedParticleSwarm<P, F, R1>)
        ensures
            s.inertia_of() == self.inertia_of(),
            s.cognitive_of() == self.cognitive_of(),
            s.social_of() == self.social_of(),
            s.bounds_of() == self.bounds_of(),
            s.num_particles_of() == self.num_particles_of(),
            s.rng_of() == generator,
    {
        SteppedParticleSwarm {
            weight_inertia: self.weight_inertia,
            weight_cognitive: self.weight_cognitive,
            weight_social: self.weight_social,
            bounds: self.bounds,
            num_particles: self.num_particles,
            rng_generator: generator,
        }
    }

    /// Sets the inertia weight; refused when `factor_is_negative` (the
    /// factor compares below zero).
    pub fn with_inertia_factor(self, factor: F, factor_is_negative: bool) -> (r: Result<
        Self,
        SwarmError,
    >)
        ensures
            factor_is_negative ==> r == Err::<Self, SwarmError>(
                SwarmError::NegativeInertia,
            ),
            !factor_is_negative ==> (r matches Ok(s) && s.inertia_of() == factor
                && s.cognitive_of() == self.cognitive_of() && s.social_of() == self.social_of()
                && s.bounds_of() == self.bounds_of() && s.num_particles_of()
                == self.num_particles_of() && s.rng_of() == self.rng_of()),
    {
        if factor_is_negative {
            return Err(SwarmError::NegativeInertia);
        }
        let mut s = self;
        s.weight_inertia = factor;
        Ok(s)
    }

    /// Sets the weight of the pull to a particle's own best; refused when
    /// `factor_is_negative`.
    pub fn with_cognitive_factor(self, factor: F, factor_is_negative: bool) -> (r: Result<
        Self,
        SwarmError,
    >)
        ensures
            factor_is_negative ==> r == Err::<Self, SwarmError>(
                SwarmError::NegativeCognitive,
            ),
            !factor_is_negative ==> (r matches Ok(s) && s.cognitive_of() == factor
                && s.inertia_of() == self.inertia_of() && s.social_of() == self.social_of()
                && s.bounds_of() == self.bounds_of() && s.num_particles_of()
                == self.num_particles_of() && s.rng_of() == self.rng_of()),
    {
        if factor_is_negative {
            return Err(SwarmError::NegativeCognitive);
        }
        let mut s = self;
        s.weight_cognitive = factor;
        Ok(s)
    }

    /// Sets the weight of the pull to the swarm's best; refused when
    /// `factor_is_negative`.
    pub fn with_social_factor(self, factor: F, factor_is_negative: bool) -> (r: Result<
        Self,
        SwarmError,
    >)
        ensures
            factor_is_negative ==> r == Err::<Self, SwarmError>(
                SwarmError::NegativeSocial,
            ),
            !factor_is_negative ==> (r matches Ok(s) && s.social_of() == factor
                && s.inertia_of() == self.inertia_of() && s.cognitive_of() == self.cognitive_of()
                && s.bounds_of() == self.bounds_of() && s.num_particles_of()
                == self.num_particles_of() && s.rng_of() == self.rng_of()),
    {
        if factor_is_negative {
            return Err(SwarmError::NegativeSocial);
        }
        let mut s = self;
        s.weight_social = factor;
        Ok(s)
    }

    /// The number of particles.
    pub fn num_particles(&self) -> (r: usize)
        ensures
            r == self.num_particles_of(),
    {
        self.num_particles
    }

    /// The search box (lower and upper corner).
    pub fn bounds(&self) -> (r: &(P, P))
        ensures
            *r == self.bounds_of(),
    {
        &self.bounds
    }
}

/// A payload can be optimised: the swarm is not empty and the lower and upper
/// bounds have one entry per parameter each.
pub fn payload_shape_is_valid(swarm_scale: usize, bounds_min_len: usize, bounds_max_len: usize) -> (r:
    bool)
    ensures
        r == (swarm_scale != 0 && bounds_min_len == bounds_max_len),
{
    !(swarm_scale == 0 || bounds_min_len != bounds_max_len)
}

/// The counters reported when the solver did not run.
pub fn solver_failed_metrics() -> (m: TaskRunMetrics)
    ensures
        m.iters == 0,
        m.best_iters == 0,
        m.termination@ == "solver_failed"@,
{
    TaskRunMetrics { iters: 0, best_iters: 0, termination: "solver_failed".to_owned() }
}

} // verus!
