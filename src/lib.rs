//! The simulation core of a side-scrolling underwater arcade game: a scrolling
//! procedural terrain and its height index, a generic id-keyed actor manager,
//! and the particle, fish, mine, ship and bullet behaviours, all in fixed-point
//! integers (milli-pixels, microseconds, milliradians).
pub mod geom;
pub mod trig;
pub mod mesh;
pub mod random;
pub mod water;
pub mod entity;
pub mod bullet;
pub mod bubbles;
pub mod ship;
pub mod mine;
pub mod fish;
pub mod fish_swarm;
pub mod shapes;
pub mod game;
