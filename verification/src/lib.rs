//! The core of a particle system: a pool of particle slots that are spawned
//! at a steady rate, age, die and are used again, and the records that a
//! frame hands to an instanced draw.
//!
//! Quantities are fixed-point numbers that count millionths (see `UNIT`):
//! a length, a speed, a colour channel, a mass, and a time in seconds alike.

pub mod camera;
pub mod config;
pub mod delta;
pub mod error;
pub mod living;
pub mod obj;
pub mod parse;
pub mod particle;
pub mod particle_system;
pub mod particle_system_renderer;
pub mod random;
pub mod texture;

use vstd::prelude::*;

verus! {

/// One, in the fixed-point numbers of this library.
pub const UNIT: i64 = 1_000_000;

/// What a particle system is made from.
pub struct ParticleSystemDescriptor<'a> {
    /// The number of slots in the pool.
    pub max: usize,
    /// The number of particles spawned with each update.
    pub rate: usize,
    /// Where the system stands; particles spawn around it.
    pub pos: [i64; 3],
    pub name: &'a str,
    /// For how long the system goes on spawning.
    pub life: i64,
    pub bounds: ParticleSystemBounds,
}

impl<'a> ParticleSystemDescriptor<'a> {
    /// The descriptor that `default` gives.
    pub open spec fn spec_default() -> Self {
        ParticleSystemDescriptor {
            max: 500,
            rate: 1,
            pos: [0, 0, 0],
            name: "Particle System",
            life: 1_000_000_000,
            bounds: ParticleSystemBounds::spec_default(),
        }
    }
}

impl<'a> Default for ParticleSystemDescriptor<'a> {
    fn default() -> (desc: Self)
        ensures
            desc == Self::spec_default(),
    {
        Self {
            max: 500,
            rate: 1,
            pos: [0, 0, 0],
            name: "Particle System",
            life: 1_000_000_000,
            bounds: ParticleSystemBounds::default(),
        }
    }
}

/// For each trait of a particle, the mean and the variance of the values that
/// a new particle may get: a value lies within the variance of the mean.
#[derive(Copy, Clone)]
pub struct ParticleSystemBounds {
    /// The offset from the system's position, by axis.
    pub area: [(i64, i64); 3],
    pub velocity: [(i64, i64); 3],
    /// The rotation's four parts, the scalar part first.
    pub rotation: [(i64, i64); 4],
    pub color: [(i64, i64); 4],
    pub life: (i64, i64),
    pub mass: (i64, i64),
    pub scale: (i64, i64),
}

impl ParticleSystemBounds {
    /// The bounds that `default` gives.
    pub open spec fn spec_default() -> Self {
        ParticleSystemBounds {
            area: [(0, 0), (0, 0), (0, 0)],
            velocity: [(0, 200_000), (700_000, 200_000), (0, 200_000)],
            rotation: [(0, 0), (0, 0), (0, 0), (0, 0)],
            color: [(500_000, 500_000), (500_000, 500_000), (500_000, 500_000), (500_000, 500_000)],
            life: (5_000_000, 2_000_000),
            mass: (1_000_000, 100_000),
            scale: (7_000, 2_000),
        }
    }
}

impl Default for ParticleSystemBounds {
    fn default() -> (bounds: Self)
        ensures
            bounds == Self::spec_default(),
    {
        Self {
            area: [(0, 0), (0, 0), (0, 0)],
            velocity: [(0, 200_000), (700_000, 200_000), (0, 200_000)],
            rotation: [(0, 0), (0, 0), (0, 0), (0, 0)],
            color: [(500_000, 500_000), (500_000, 500_000), (500_000, 500_000), (500_000, 500_000)],
            life: (5_000_000, 2_000_000),
            mass: (1_000_000, 100_000),
            scale: (7_000, 2_000),
        }
    }
}

/// What a renderer of particle systems is made from.
pub struct ParticleSystemRendererDescriptor<'a> {
    /// The path of the texture's file, if the particles have a texture.
    pub texture: Option<&'a str>,
    pub mesh_type: ParticleMeshType<'a>,
}

impl<'a> Default for ParticleSystemRendererDescriptor<'a> {
    /// Cubes without a texture.
    fn default() -> (desc: Self)
        ensures
            desc == (ParticleSystemRendererDescriptor { texture: None, mesh_type: ParticleMeshType::Cube }),
    {
        Self { texture: None, mesh_type: ParticleMeshType::Cube }
    }
}

/// The model of each particle.
#[derive(Clone, Copy, Debug, PartialEq, Eq)]
pub enum ParticleMeshType<'a> {
    Cube,
    Point,
    /// A model read from the file at this path.
    Custom(&'a str),
}

impl<'a> Default for ParticleMeshType<'a> {
    /// The cube.
    fn default() -> (mesh_type: Self)
        ensures
            mesh_type == ParticleMeshType::<'a>::Cube,
    {
        ParticleMeshType::Cube
    }
}

} // verus!
