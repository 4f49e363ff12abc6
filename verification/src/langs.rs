//! The rules that read definitions out of the syntax trees of each language.
pub mod c_family;
pub mod csharp;
pub mod go;
pub mod java;
pub mod kotlin;
pub mod python;
pub mod ruby;
pub mod rust;
pub mod swift;
pub mod typescript;
