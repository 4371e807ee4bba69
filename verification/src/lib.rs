//! A small survival-simulation engine: circular entities (a player, autonomous
//! creatures, static food) move on a bounded plane, absorb smaller overlapping
//! entities, grow, and change speed as a consequence. The simulation ends when
//! the player is absorbed (loss) or every creature is eliminated (win).
//!
//! All lengths are integers in milliunits (one thousandth of a world unit);
//! speeds are milliunits per second and frame times are milliseconds.

pub mod num;
pub mod geom;
pub mod cell;
pub mod rng;
pub mod food;
pub mod player;
pub mod creature;
pub mod world;
pub mod game;
