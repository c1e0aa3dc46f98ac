//! Inverse kinematics for a serial chain of rotary joints.
//!
//! The chain composes one homogeneous transform per joint into forward and
//! backward partial products; two iterative solvers (gradient descent and a
//! genetic algorithm) drive the end effector toward a target pose while a
//! two-phase collision engine rejects poses in which links touch each other or
//! a static obstacle.
//!
//! All numeric work goes through the [`backend::Backend`] trait, so the
//! algorithms here are independent of the linear-algebra and geometry library
//! that carries them out.
pub mod backend;
pub mod chain;
pub mod collision_handler;
pub mod error;
pub mod genetics;
pub mod matrices;
pub mod random;
pub mod solver;
pub mod solver_ga;
pub mod solver_gd;
