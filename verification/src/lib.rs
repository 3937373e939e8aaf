//! A small verified 2D rigid-body simulation core: handle-addressed stores for
//! bodies, colliders and joints, fixed-step velocity/position integration,
//! contact resolution with restitution, and revolute joints with motors and
//! angular limits. All quantities are saturating fixed-point numbers so that
//! every arithmetic step is total and verified.

pub mod arena;
pub mod contact;
pub mod fx;
pub mod model;
pub mod solver;
pub mod step;
pub mod world;
