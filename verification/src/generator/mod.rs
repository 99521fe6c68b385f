pub mod cpp_generator;
pub mod cpp_marshaler;
pub mod generator;
pub mod ident_style;
pub mod java_generator;
pub mod jni_generator;
pub mod objc_generator;
pub mod resolver;
pub mod resolver_laws;
pub mod spec;
pub mod typer;
