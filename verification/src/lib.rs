//! Core of a grid snake game, verified.
//!
//! The library holds the authoritative simulation state of the game — the
//! snake's body and direction, the cookie, the grid dimensions, and the
//! start/run status — and the pure transformations on it: direction
//! arbitration, advancing the snake by one step with wall and self collision
//! detection, cookie growth and respawn, and rendering the grid as a pixel
//! buffer. Window creation, key polling and presenting the buffer live
//! outside the library.

pub mod model;
pub mod rng;
pub mod snake_body;
pub mod grid;
pub mod render;
