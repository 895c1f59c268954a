//! Detects when a running workload's container image tag points at a new
//! digest on its source registry and decides when to trigger a rolling
//! restart.
//!
//! The crate holds the verified logic of the controller: the image-reference
//! parser, the credential resolver, the registry digest-resolution protocol
//! (modelled as a state machine over plain response data), and the
//! per-workload reconciliation decisions.

pub mod config;
pub mod controller;
pub mod expand;
pub mod glob;
pub mod image_reference;
pub mod oci_registry;
pub mod rollout;
pub mod secret_string;
pub mod state;
pub mod text;
