//! A small rigid-body simulation on the integer lattice.
//!
//! Bodies have a mass and a velocity, shapes are spheres, and a tick applies
//! gravity, stops the bodies of touching shapes and moves every free body.
//! The caller chooses the units: all quantities are integers. A division by a
//! mass rounds down, and a body keeps what the division leaves, so that
//! impulses add up and steps of time add up without loss. What each step
//! computes is stated over mathematical integers, and each step can be taken
//! whenever its results fit the machine integers that store them.

pub mod body;
pub mod collision;
pub mod debug_material;
pub mod entity;
pub mod laws;
pub mod motion;
pub mod pairs;
pub mod response;
pub mod shape;
pub mod sim;
pub mod vector;
