//! Binary codec for Ignite complex objects: header, field payload and schema
//! footer, with the Java-compatible hashes that the protocol uses for identity.

pub mod hash;
pub mod wire;
pub mod value;
pub mod object;
pub mod laws;
