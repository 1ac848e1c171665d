//! Reflection and binding generation for engine headers.
//!
//! The library decides, per header and per session, which derived artifacts
//! to generate, keep or retire; extracts the intermediate representation of
//! a header's exposed entities from a front-end's entity tree; names the
//! artifacts; and turns the representation into binding source text.

pub mod bindings;
pub mod checker;
pub mod extract;
pub mod fingerprint;
pub mod ir;
pub mod naming;
pub mod pybindify;
pub mod remover;
pub mod session;
pub mod text;

pub use bindings::{generate_header, generate_module_decls, BindingsBuilder, ModuleInits};
pub use checker::{CheckerResult, HeaderCacheOp, HeaderChecker};
pub use extract::{HeaderParser, SourceEntity};
pub use ir::{
    AccessModifier, Argument, Class, Enum, Enumerator, Function, Member, Method, Namespace, Struct,
    Variable,
};
pub use naming::Generator;
pub use pybindify::Pybindify;
pub use session::{parse_arguments, ArgsError, Module};
