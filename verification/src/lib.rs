//! Binary container format for compiled program modules.
//!
//! A file is a string table followed by a payload. Every string that the
//! payload mentions stands once in the table and is referred to by its
//! position. Each type of the module data model says, over its view, which
//! bytes a value is written as and which value a reader finds in bytes
//! ([`WriteToFile`], [`ReadFromFile`]); [`Codec`] proves that a reader finds
//! what a writer wrote, and that it reports a short read where the bytes end
//! too early.

pub mod assembly;
pub mod attrs;
pub mod bytes;
pub mod codegen;
pub mod composite;
pub mod error;
pub mod file;
pub mod implement;
pub mod instruction;
pub mod interner;
pub mod map;
pub mod names;
pub mod primitives;
pub mod traits;
pub mod ty;

pub use assembly::Assembly;
pub use error::Error;
pub use file::{Cursor, File};
pub use implement::Implementation;
pub use interner::StringInterner;
pub use map::NameMap;
pub use names::{StringMethodReference, StringName, StringTypeReference};
pub use traits::{Codec, ReadFromFile, WriteToFile};
pub use ty::class::ClassDef;
pub use ty::field::Field;
pub use ty::method::Method;
pub use ty::structure::StructDef;
pub use ty::{GenericBinding, TypeDef};
