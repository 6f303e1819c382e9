//! Generator core for bridging a managed virtual machine's object model and
//! native Rust across the JNI boundary.
//!
//! The crate parses JVM method type descriptors, classifies methods that can
//! or cannot be bound, maps managed types to native type expressions, mangles
//! symbol names (both human-readable and linkage names), and emits the text of
//! outbound call wrappers and inbound native-method shims.

pub mod config;
pub mod descriptor;
pub mod inbound;
pub mod mangling;
pub mod method;
pub mod outbound;
pub mod text;
