//! The data of a Plonk circuit: what the prover and the verifier need to know of it, how it is checked
//! before anything in it is trusted, and how it is written to bytes and read back.
//!
//! - [`circuit_data`] holds the proving key, the verification key and both together.
//! - [`common`], [`prover_only`] and [`verifier_only`] are their parts.
//! - [`validation`] is the check of the common part, and what follows from it.
//! - [`sizes`] and [`fri_instance`] derive degrees, polynomial ranges and opening points.
//! - [`field`], [`goldilocks`] and [`modular`] are the fields that circuits work over.
//! - [`wire`], [`serializer`] and [`common_wire`] are the binary format.

pub mod circuit_data;
pub mod common;
pub mod common_wire;
pub mod config;
pub mod field;
pub mod fri_instance;
pub mod fri_params;
pub mod gates;
pub mod generator;
pub mod goldilocks;
pub mod hash;
pub mod modular;
pub mod proof_system;
pub mod prover_only;
pub mod serializer;
pub mod sizes;
pub mod target;
pub mod validation;
pub mod verifier_only;
pub mod watches;
pub mod wire;
