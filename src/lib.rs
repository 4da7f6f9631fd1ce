pub mod accumulation;
pub mod color;
pub mod hit;
pub mod integrator;
pub mod material;
pub mod obj;
