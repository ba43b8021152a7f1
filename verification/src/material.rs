//! Named physical material presets.
//!
//! A material bundles density, restitution and the two friction
//! coefficients. Densities are in fixed-point g/cm^3; restitution lies in
//! `[0, 1]`; both frictions are nonnegative.

use vstd::prelude::*;
use crate::fixed::FX_ONE;

verus! {

/// The name of a preset material.
#[derive(Clone, Copy, Debug, PartialEq, Eq, Hash, Structural)]
pub enum MaterialName {
    Rubber,
    Plastic,
    Concrete,
    Steel,
    Ice,
    Glass,
    Wood,
    Copper,
    Aluminium,
    Dirt,
    HumanBody,
}

/// A bundle of physical properties attached to a rigid body.
#[derive(Clone, Copy, Debug, PartialEq, Eq, Structural)]
pub struct Material {
    pub name: MaterialName,
    /// Fixed-point g/cm^3; scales mass and moment of inertia.
    pub density: i64,
    /// Bounciness in `[0, FX_ONE]`.
    pub restitution: i64,
    pub static_friction: i64,
    pub dynamic_friction: i64,
}

impl Material {
    /// A material is well formed when its density is positive, its
    /// restitution lies in `[0, 1]` and its frictions are nonnegative.
    pub open spec fn wf(self) -> bool {
        0 < self.density <= 100 * FX_ONE
        && 0 <= self.restitution <= FX_ONE
        && 0 <= self.static_friction <= 10 * FX_ONE
        && 0 <= self.dynamic_friction <= 10 * FX_ONE
    }

    /// The preset table, as a spec-level function of the name.
    pub open spec fn preset_s(name: MaterialName) -> Material {
        match name {
            MaterialName::Rubber => Material {
                name, density: 1_100_000, restitution: 850_000,
                static_friction: 500_000, dynamic_friction: 400_000,
            },
            MaterialName::Plastic => Material {
                name, density: 1_175_000, restitution: 700_000,
                static_friction: 350_000, dynamic_friction: 250_000,
            },
            MaterialName::Concrete => Material {
                name, density: 2_400_000, restitution: 400_000,
                static_friction: 950_000, dynamic_friction: 850_000,
            },
            MaterialName::Steel => Material {
                name, density: 7_850_000, restitution: 300_000,
                static_friction: 600_000, dynamic_friction: 450_000,
            },
            MaterialName::Ice => Material {
                name, density: 917_000, restitution: 700_000,
                static_friction: 150_000, dynamic_friction: 50_000,
            },
            MaterialName::Glass => Material {
                name, density: 2_500_000, restitution: 600_000,
                static_friction: 900_000, dynamic_friction: 400_000,
            },
            MaterialName::Wood => Material {
                name, density: 700_000, restitution: 500_000,
                static_friction: 500_000, dynamic_friction: 400_000,
            },
            MaterialName::Copper => Material {
                name, density: 8_940_000, restitution: 300_000,
                static_friction: 530_000, dynamic_friction: 400_000,
            },
            MaterialName::Aluminium => Material {
                name, density: 2_700_000, restitution: 400_000,
                static_friction: 600_000, dynamic_friction: 470_000,
            },
            MaterialName::Dirt => Material {
                name, density: 1_600_000, restitution: 100_000,
                static_friction: 550_000, dynamic_friction: 450_000,
            },
            MaterialName::HumanBody => Material {
                name, density: 985_000, restitution: 300_000,
                static_friction: 600_000, dynamic_friction: 420_000,
            },
        }
    }

    /// Look a preset up by name.
    pub fn preset(name: MaterialName) -> (r: Material)
        ensures
            r == Material::preset_s(name),
            r.wf(),
    {
        match name {
            MaterialName::Rubber => Material {
                name, density: 1_100_000, restitution: 850_000,
                static_friction: 500_000, dynamic_friction: 400_000,
            },
            MaterialName::Plastic => Material {
                name, density: 1_175_000, restitution: 700_000,
                static_friction: 350_000, dynamic_friction: 250_000,
            },
            MaterialName::Concrete => Material {
                name, density: 2_400_000, restitution: 400_000,
                static_friction: 950_000, dynamic_friction: 850_000,
            },
            MaterialName::Steel => Material {
                name, density: 7_850_000, restitution: 300_000,
                static_friction: 600_000, dynamic_friction: 450_000,
            },
            MaterialName::Ice => Material {
                name, density: 917_000, restitution: 700_000,
                static_friction: 150_000, dynamic_friction: 50_000,
            },
            MaterialName::Glass => Material {
                name, density: 2_500_000, restitution: 600_000,
                static_friction: 900_000, dynamic_friction: 400_000,
            },
            MaterialName::Wood => Material {
                name, density: 700_000, restitution: 500_000,
                static_friction: 500_000, dynamic_friction: 400_000,
            },
            MaterialName::Copper => Material {
                name, density: 8_940_000, restitution: 300_000,
                static_friction: 530_000, dynamic_friction: 400_000,
            },
            MaterialName::Aluminium => Material {
                name, density: 2_700_000, restitution: 400_000,
                static_friction: 600_000, dynamic_friction: 470_000,
            },
            MaterialName::Dirt => Material {
                name, density: 1_600_000, restitution: 100_000,
                static_friction: 550_000, dynamic_friction: 450_000,
            },
            MaterialName::HumanBody => Material {
                name, density: 985_000, restitution: 300_000,
                static_friction: 600_000, dynamic_friction: 420_000,
            },
        }
    }
}

} // verus!
