//! Simulation core of a grid-based snake arcade game: a fixed-timestep tick
//! scheduler, a rectangular grid of cells, food placement that avoids the
//! snake's body, and the snake's segment-based motion model with
//! direction buffering, growth and self-collision detection.

pub mod game;
