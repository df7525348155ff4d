//! A schema compiler for command-line applications.
//!
//! A type definition (a record or a tagged union) together with its `clap`
//! annotations becomes a [`SchemaNode`]; schema nodes are registered in a
//! [`Registry`], which builds the parser-node tree handed to `clap` and
//! rebuilds the selected value from the subcommands that `clap` matched.
//! Building and rebuilding read the same resolved names, so the two stay
//! synchronized.
pub mod attr;
pub mod cli;
pub mod command;
pub mod registry;
pub mod schema;

pub use attr::{clap_items, Annotation, AnnotationBlock, AttrError, AttrValue, Attributes, Package, VariantAttributes};
pub use cli::{selected_names, to_clap, CliError};
pub use command::{CommandNode, DispatchError, Value};
pub use registry::Registry;
pub use schema::{
    App, Body, Fields, SchemaError, SchemaNode, Subcommand, SubcommandVariant, TypeDef, VariantDef,
};
