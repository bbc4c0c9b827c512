//! Integer-exact parts of a small 2-D gravitational simulation: a generic
//! fourth-order Runge-Kutta stepper, the population policy applied after each
//! step, the luminance buffer's decay-and-splat passes, and 3-D vector helpers.
pub mod integrator;
pub mod number;
pub mod population;
pub mod render;
