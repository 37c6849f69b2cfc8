pub mod value;
pub mod context;
pub mod template;
pub mod resolve;
pub mod render;
pub mod helpers;
pub mod laws;
pub mod grammar;

pub use context::{BlockParamHolder, BlockParams, RenderContext, RenderError};
pub use grammar::{compile, TemplateError};
pub use helpers::{EachHelper, IfHelper, LookupHelper, WithHelper};
pub use render::Registry;
pub use template::{Block, Node, Param, PathExpr, PathKind};
pub use value::Json;
