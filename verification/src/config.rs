//! Nested configuration records for world, creature, mutation and
//! simulation, with the default parameter set.

use crate::fixed::Fx;
use vstd::prelude::*;

verus! {

#[derive(Clone, Copy, PartialEq, Eq, Structural, Debug)]
pub struct WorldConfig {
    pub ground_y: Fx,
    pub ground_friction: Fx,
    pub gravity: Fx,
}

#[derive(Clone, Copy, PartialEq, Eq, Structural, Debug)]
pub struct CreatureConfig {
    /// Grid edge length in cells.
    pub size: usize,
    /// Rest length of a cell's edge springs.
    pub cell_size: Fx,
    /// DNA charge rates above this select the pulse model.
    pub pulse_threshold: Fx,
    pub charge_threshold: Fx,
    pub discharge_threshold: Fx,
    pub charge_accel: Fx,
    pub active_threshold: Fx,
    pub node_damping: Fx,
    pub node_mass: Fx,
}

#[derive(Clone, Copy, PartialEq, Eq, Structural, Debug)]
pub struct MutationRange {
    pub min: Fx,
    pub max: Fx,
}

#[derive(Clone, Copy, PartialEq, Eq, Structural, Debug)]
pub struct MutationConfig {
    /// Probability that a mutation is skipped.
    pub chance: Fx,
    /// Magnitude bound of the signed mutation multiplier.
    pub strength: Fx,
    pub conductivity: MutationRange,
    pub reactivity: MutationRange,
    pub toughness: MutationRange,
    pub active: MutationRange,
    pub charge_rate: MutationRange,
}

#[derive(Clone, Copy, PartialEq, Eq, Structural, Debug)]
pub struct SimulationConfig {
    pub world_config: WorldConfig,
    pub creature_config: CreatureConfig,
    pub mutation_config: MutationConfig,
    pub creature_count: usize,
    pub timestep: Fx,
    pub sub_steps: usize,
    pub sim_time: Fx,
    pub threads: usize,
}

/// An ordered range: generation and clamping need `min <= max`.
pub open spec fn range_wf(r: MutationRange) -> bool {
    r.min.v() <= r.max.v()
}

/// Every field range of the mutation configuration is ordered.
pub open spec fn mutation_config_wf(c: MutationConfig) -> bool {
    range_wf(c.conductivity) && range_wf(c.reactivity) && range_wf(c.toughness) && range_wf(
        c.active,
    ) && range_wf(c.charge_rate)
}

fn mutation_range(min: Fx, max: Fx) -> (r: MutationRange)
    ensures
        r == (MutationRange { min, max }),
{
    MutationRange { min, max }
}

/// The default configuration record.
pub open spec fn default_config() -> SimulationConfig {
    SimulationConfig {
        world_config: WorldConfig {
            ground_y: Fx { raw: 250_000_000 },
            ground_friction: Fx { raw: 200_000_000 },
            gravity: Fx { raw: 800_000_000 },
        },
        creature_config: CreatureConfig {
            size: 6,
            cell_size: Fx { raw: 40_000_000 },
            pulse_threshold: Fx { raw: 1_900_000 },
            charge_threshold: Fx { raw: 1_000_000 },
            discharge_threshold: Fx { raw: 1_100_000 },
            charge_accel: Fx { raw: 300_000_000 },
            active_threshold: Fx { raw: 200_000 },
            node_damping: Fx { raw: 40_000 },
            node_mass: Fx { raw: 2_000_000 },
        },
        mutation_config: MutationConfig {
            chance: Fx { raw: 200_000 },
            strength: Fx { raw: 500_000 },
            conductivity: MutationRange { min: Fx { raw: 0 }, max: Fx { raw: 2_500_000 } },
            reactivity: MutationRange { min: Fx { raw: 0 }, max: Fx { raw: 400_000 } },
            toughness: MutationRange {
                min: Fx { raw: 1_000_000_000 },
                max: Fx { raw: 2_000_000_000 },
            },
            active: MutationRange { min: Fx { raw: 0 }, max: Fx { raw: 1_000_000 } },
            charge_rate: MutationRange { min: Fx { raw: 0 }, max: Fx { raw: 2_000_000 } },
        },
        creature_count: 1000,
        timestep: Fx { raw: 10_000 },
        sub_steps: 4,
        sim_time: Fx { raw: 10_000_000 },
        threads: 6,
    }
}

impl SimulationConfig {
    /// The default parameter set: a 6x6 creature grid of 40-unit cells,
    /// gravity 800 with the ground at `cell_size * size + 10`, and the
    /// stock mutation ranges.
    pub fn default() -> (r: SimulationConfig)
        ensures
            r == default_config(),
            mutation_config_wf(r.mutation_config),
    {
        let creature_config = CreatureConfig {
            size: 6,
            node_damping: Fx { raw: 40_000 },
            cell_size: Fx { raw: 40_000_000 },
            pulse_threshold: Fx { raw: 1_900_000 },
            charge_threshold: Fx { raw: 1_000_000 },
            discharge_threshold: Fx { raw: 1_100_000 },
            charge_accel: Fx { raw: 300_000_000 },
            active_threshold: Fx { raw: 200_000 },
            node_mass: Fx { raw: 2_000_000 },
        };
        // cell_size * size + 10
        let ground_y = Fx { raw: 250_000_000 };
        let world_config = WorldConfig {
            ground_y,
            ground_friction: Fx { raw: 200_000_000 },
            gravity: Fx { raw: 800_000_000 },
        };
        let mutation_config = MutationConfig {
            chance: Fx { raw: 200_000 },
            strength: Fx { raw: 500_000 },
            conductivity: mutation_range(Fx { raw: 0 }, Fx { raw: 2_500_000 }),
            reactivity: mutation_range(Fx { raw: 0 }, Fx { raw: 400_000 }),
            toughness: mutation_range(Fx { raw: 1_000_000_000 }, Fx { raw: 2_000_000_000 }),
            active: mutation_range(Fx { raw: 0 }, Fx { raw: 1_000_000 }),
            charge_rate: mutation_range(Fx { raw: 0 }, Fx { raw: 2_000_000 }),
        };

        SimulationConfig {
            world_config,
            creature_config,
            mutation_config,
            creature_count: 1000,
            timestep: Fx { raw: 10_000 },
            sub_steps: 4,
            sim_time: Fx { raw: 10_000_000 },
            threads: 6,
        }
    }
}

} // verus!
