use vstd::prelude::*;
use crate::value::Json;

verus! {

/// How a path expression is anchored.
#[derive(PartialEq, Eq, Structural, Clone, Copy)]
pub enum PathKind {
    /// Resolved from the current path, or a bound name, after climbing `up` levels.
    Relative,
    /// Resolved from the top of the data.
    Absolute,
    /// A local variable (`@name`), `up` frames out.
    Local,
}

/// A path expression as the parser left it.
pub struct PathExpr {
    pub kind: PathKind,
    /// The number of leading parent markers.
    pub up: usize,
    pub segs: Vec<String>,
}

pub struct PathV {
    pub kind: PathKind,
    pub up: nat,
    pub segs: Seq<Seq<char>>,
}

impl View for PathExpr {
    type V = PathV;

    open spec fn view(&self) -> PathV {
        PathV { kind: self.kind, up: self.up as nat, segs: self.segs@.map_values(|s: String| s@) }
    }
}

/// A positional parameter of a directive.
pub enum Param {
    /// A literal path: resolving it keeps the path it reached.
    Path(PathExpr),
    /// A computed value: it carries no path.
    Literal(Json),
}

/// A directive invocation with its sub-templates.
pub struct Block {
    pub name: String,
    pub params: Vec<Param>,
    /// The declared bound names, in declaration order.
    pub block_params: Vec<String>,
    pub template: Option<Vec<Node>>,
    pub inverse: Option<Vec<Node>>,
}

/// One element of a template.
pub enum Node {
    Raw(String),
    Expr(PathExpr),
    Block(Block),
}

} // verus!
