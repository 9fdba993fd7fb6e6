//! Provisioning of layer-shell surfaces backed by process-shared memory.
//!
//! The library holds the decisions of the surface handshake and of the
//! shared-memory lifecycle as verified state machines. A driver performs the
//! protocol requests and operating-system steps that they ask for, and hands
//! each outcome back.
pub mod gl;
pub mod layout;
pub mod registry;
pub mod session;
pub mod shm;
pub mod surface;
