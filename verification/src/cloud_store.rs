//! Values of the registry's cloud store section.

pub mod night_light;
pub mod prologue;
