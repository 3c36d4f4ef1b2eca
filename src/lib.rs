//! A host for native plugin modules: the version gate that guards every
//! module, the registrar and registry of the plugins they contribute, and the
//! registry of named events and their handlers.
pub mod abi;
pub mod events;
pub mod plugins;
