//! A managed handle layer that lets a host runtime drive a stateful
//! image-processing engine through short-lived, opaque integer handles.
//!
//! The core of the crate is the job registry and its lifecycle protocol:
//! jobs are created, looked up, mutated (inputs and outputs attached,
//! messages exchanged), and destroyed, and a destroyed handle never
//! resolves to a slot again.  The boundary adapter that translates
//! host-runtime calls into registry operations lives outside this crate.

pub mod errors;
pub mod lifecycle;
pub mod protocol;
pub mod registry;
pub mod slot;
