//! Verified core of a toolchain that builds a Fabric Minecraft mod from Rust:
//! JNI symbol naming, the `#[inject]` metadata record format, JVM bytecode
//! generation with a stack-depth discipline, Mixin descriptors and the mod's
//! JSON descriptors.

pub mod text;
pub mod jni;
pub mod descriptor;
pub mod bytecode;
pub mod jvm;
pub mod names;
pub mod javacode;
pub mod loader_run;
pub mod ensure_run;
pub mod record;
pub mod objfile;
pub mod inject;
pub mod classes;
pub mod mixins;
pub mod native_libs;
pub mod modjson;
pub mod payloads;
