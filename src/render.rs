use vstd::prelude::*;
use crate::context::{RenderContext, RenderContextV, RenderError};
use crate::helpers::{EachHelper, IfHelper, LookupHelper, WithHelper};
use crate::resolve::resolve_path;
use crate::grammar::{compile, has_open, TemplateError};
use crate::helpers::{chosen, with_scope};
use crate::context::{assigned, fresh_ctx, promoted, pushed_root, HolderV};
use crate::resolve::{param_missing, param_path, param_value, resolve};
use crate::value::{child, nat_text, truthy, JsonV};
use crate::template::{Block, Node};
use crate::value::{push_str, render_text, Json};

verus! {

broadcast use vstd::std_specs::vec::group_vec_axioms, vstd::seq::group_seq_axioms;

/// The default bound on nested sub-templates.
pub const DEFAULT_MAX_DEPTH: usize = 100;

/// The compiled templates, by name, and the settings shared by every render pass.
pub struct Registry {
    strict: bool,
    max_depth: usize,
    templates: Vec<(String, Vec<Node>)>,
}

impl Registry {
    pub closed spec fn strict_spec(&self) -> bool {
        self.strict
    }

    pub closed spec fn max_depth_spec(&self) -> nat {
        self.max_depth as nat
    }

    /// The names of the registered templates, in registration order.
    pub closed spec fn names(&self) -> Seq<Seq<char>> {
        self.templates@.map_values(|e: (String, Vec<Node>)| e.0@)
    }

    /// The template last registered under `name`.
    pub closed spec fn template_of(&self, name: Seq<char>) -> Option<Vec<Node>> {
        last_named(self.templates@, name)
    }

    /// A registry in lenient mode with the default depth bound.
    pub fn new() -> (r: Registry)
        ensures
            !r.strict_spec(),
            r.max_depth_spec() == DEFAULT_MAX_DEPTH,
            r.names().len() == 0,
    {
        Registry { strict: false, max_depth: DEFAULT_MAX_DEPTH, templates: Vec::new() }
    }

    /// A registry with the given mode and depth bound.
    pub fn with_settings(strict: bool, max_depth: usize) -> (r: Registry)
        ensures
            r.strict_spec() == strict,
            r.max_depth_spec() == max_depth,
            r.names().len() == 0,
    {
        Registry { strict, max_depth, templates: Vec::new() }
    }

    /// Whether a path that finds nothing is an error.
    pub fn strict_mode(&self) -> (r: bool)
        ensures
            r == self.strict_spec(),
    {
        self.strict
    }

    /// Compiles `src` and registers it under `name`; a later registration
    /// under the same name takes precedence.
    pub fn register_template_string(&mut self, name: &str, src: &str) -> (r: Result<(), TemplateError>)
        ensures
            final(self).strict_spec() == old(self).strict_spec(),
            final(self).max_depth_spec() == old(self).max_depth_spec(),
            r is Ok ==> final(self).names() == old(self).names().push(name@)
                && final(self).template_of(name@) is Some,
            r is Ok ==> forall|m: Seq<char>| m != name@ ==> #[trigger] final(self).template_of(m) == old(self).template_of(m),
            r is Err ==> final(self).names() == old(self).names() && forall|m: Seq<char>| #[trigger] final(self).template_of(m) == old(self).template_of(m),
            !has_open(src@) ==> r is Ok,
    {
        match compile(src) {
            Ok(t) => {
                let mut n = String::new();
                push_str(&mut n, name);
                self.templates.push((n, t));
                assert(self.names() =~= old(self).names().push(name@));
                assert(self.templates@.drop_last() == old(self).templates@);
                Ok(())
            },
            Err(e) => Err(e),
        }
    }

    fn find_template(&self, name: &str) -> (r: Option<&Vec<Node>>)
        ensures
            r is None <==> !self.names().contains(name@),
            match r {
                Some(t) => self.template_of(name@) == Some(*t),
                None => self.template_of(name@) is None,
            },
    {
        let ghost ts = self.templates@;
        let mut i: usize = self.templates.len();
        assert(ts.subrange(0, ts.len() as int) == ts);
        while i > 0
            invariant
                ts == self.templates@,
                i <= ts.len(),
                forall|j: int| i <= j < ts.len() ==> self.names()[j] != name@,
                last_named(ts, name@) == last_named(ts.subrange(0, i as int), name@),
            decreases i,
        {
            let ghost pre = ts.subrange(0, i as int);
            assert(pre.last() == ts[i - 1]);
            if name_is(&self.templates[i - 1].0, name) {
                assert(self.names()[i - 1] == name@);
                return Some(&self.templates[i - 1].1);
            }
            assert(pre.drop_last() == ts.subrange(0, i - 1));
            i = i - 1;
        }
        assert(ts.subrange(0, 0) =~= Seq::<(String, Vec<Node>)>::empty());
        None
    }

    /// Renders the template registered under `name` against `data`, in the
    /// given scope. The scope is the same afterwards as before, whether the
    /// render succeeded or failed.
    pub fn render_with_context(&self, name: &str, data: &Json, rc: &mut RenderContext) -> (r: Result<
        String,
        RenderError,
    >)
        requires
            ctx_ready(self, old(rc)@),
        ensures
            final(rc)@ == old(rc)@,
            !self.names().contains(name@) <==> r is Err && r->Err_0 is TemplateNotFound,
            match self.template_of(name@) {
                Some(t) => match tmpl_out(*self, data@, old(rc)@, t@) {
                    Outcome::Text(s) => r is Ok && r->Ok_0@ == s,
                    Outcome::Fails(e, _) => r == Err::<String, RenderError>(e),
                },
                None => r is Err,
            },
    {
        let t = match self.find_template(name) {
            Some(t) => t,
            None => {
                let mut n = String::new();
                push_str(&mut n, name);
                return Err(RenderError::TemplateNotFound(n));
            },
        };
        let mut out = String::new();
        assert(Seq::<char>::empty() + out@ == out@);
        match render_template(self, data, t, rc, &mut out) {
            Ok(()) => Ok(out),
            Err(e) => Err(e),
        }
    }

    /// Renders the template registered under `name` against `data`, in a
    /// fresh scope at the top of the data.
    pub fn render(&self, name: &str, data: &Json) -> (r: Result<String, RenderError>)
        ensures
            !self.names().contains(name@) <==> r is Err && r->Err_0 is TemplateNotFound,
            match self.template_of(name@) {
                Some(t) => match tmpl_out(*self, data@, fresh_ctx(), t@) {
                    Outcome::Text(s) => r is Ok && r->Ok_0@ == s,
                    Outcome::Fails(e, _) => r == Err::<String, RenderError>(e),
                },
                None => r is Err,
            },
    {
        let mut rc = RenderContext::new();
        self.render_with_context(name, data, &mut rc)
    }

    /// The bound on nested sub-templates.
    pub fn max_depth(&self) -> (r: usize)
        ensures
            r == self.max_depth_spec(),
    {
        self.max_depth
    }
}

/// The last entry named `name`.
pub open spec fn last_named(ts: Seq<(String, Vec<Node>)>, name: Seq<char>) -> Option<Vec<Node>>
    decreases ts.len(),
{
    if ts.len() == 0 {
        None
    } else if ts.last().0@ == name {
        Some(ts.last().1)
    } else {
        last_named(ts.drop_last(), name)
    }
}

/// What a render pass needs of its context: a current frame of local
/// variables, and a depth within the registry's bound.
pub open spec fn ctx_ready(reg: &Registry, ctx: RenderContextV) -> bool {
    ctx.locals.len() > 0 && ctx.depth <= reg.max_depth_spec()
}

/// What rendering yields: the text written, or the error and the text
/// written before it (nothing written is taken back).
pub enum Outcome {
    /// The render succeeds and writes exactly this text.
    Text(Seq<char>),
    /// The render fails with this error, after writing this text.
    Fails(RenderError, Seq<char>),
}

/// Text written before two outcomes joins the first of them.
pub proof fn lemma_then_text(acc: Seq<char>, a: Outcome, b: Outcome)
    ensures
        then_out(Outcome::Text(acc), then_out(a, b)) == match a {
            Outcome::Text(y) => then_out(Outcome::Text(acc + y), b),
            Outcome::Fails(e, y) => Outcome::Fails(e, acc + y),
        },
{
    if let Outcome::Text(y) = a {
        match b {
            Outcome::Text(z) => {
                assert(acc + (y + z) == (acc + y) + z);
            },
            Outcome::Fails(e, z) => {
                assert(acc + (y + z) == (acc + y) + z);
            },
        }
    }
}

/// Failure before anything is written.
pub open spec fn fail(e: RenderError) -> Outcome {
    Outcome::Fails(e, Seq::empty())
}

/// One outcome followed by another.
pub open spec fn then_out(a: Outcome, b: Outcome) -> Outcome {
    match a {
        Outcome::Text(x) => match b {
            Outcome::Text(y) => Outcome::Text(x + y),
            Outcome::Fails(e, y) => Outcome::Fails(e, x + y),
        },
        o => o,
    }
}

/// Whether a result and the text written meet an outcome.
pub open spec fn meets(o: Outcome, r: Result<(), RenderError>, before: Seq<char>, after: Seq<char>) -> bool {
    match o {
        Outcome::Text(s) => r is Ok && after == before + s,
        Outcome::Fails(e, p) => r == Err::<(), RenderError>(e) && after == before + p,
    }
}

/// Rendering a sub-template one level deeper: it fails at the depth bound.
pub open spec fn tmpl_out(reg: Registry, data: JsonV, ctx: RenderContextV, t: Seq<Node>) -> Outcome
    decreases reg.max_depth_spec() - ctx.depth, 0int, 0nat,
{
    if ctx.depth >= reg.max_depth_spec() {
        fail(RenderError::RecursionLimitExceeded)
    } else {
        nodes_out(reg, data, RenderContextV { depth: ctx.depth + 1, ..ctx }, t)
    }
}

/// Rendering elements one after another in one scope.
pub open spec fn nodes_out(reg: Registry, data: JsonV, ctx: RenderContextV, t: Seq<Node>) -> Outcome
    decreases reg.max_depth_spec() - ctx.depth, 6int, t.len(),
{
    if ctx.depth > reg.max_depth_spec() {
        fail(RenderError::RecursionLimitExceeded)
    } else if t.len() == 0 {
        Outcome::Text(Seq::empty())
    } else {
        then_out(nodes_out(reg, data, ctx, t.drop_last()), node_out(reg, data, ctx, t.last()))
    }
}

/// Rendering one element: raw text as it is; an expression as the text of
/// what it resolves to, nothing when it finds nothing, a failure in strict
/// mode; a block by its directive.
pub open spec fn node_out(reg: Registry, data: JsonV, ctx: RenderContextV, n: Node) -> Outcome
    decreases reg.max_depth_spec() - ctx.depth, 5int, 0nat,
{
    if ctx.depth > reg.max_depth_spec() {
        fail(RenderError::RecursionLimitExceeded)
    } else {
        match n {
            Node::Raw(s) => Outcome::Text(s@),
            Node::Expr(e) => match resolve(data, ctx, e@) {
                Some(v) => Outcome::Text(render_text(v)),
                None => if reg.strict_spec() {
                    fail(RenderError::PathNotFound)
                } else {
                    Outcome::Text(Seq::empty())
                },
            },
            Node::Block(b) => block_out(reg, data, ctx, b),
        }
    }
}

/// Rendering a block by the directive its name selects; an unknown name fails.
pub open spec fn block_out(reg: Registry, data: JsonV, ctx: RenderContextV, b: Block) -> Outcome
    decreases reg.max_depth_spec() - ctx.depth, 4int, 0nat,
{
    if ctx.depth > reg.max_depth_spec() {
        fail(RenderError::RecursionLimitExceeded)
    } else if b.name@ == "with"@ {
        with_out(reg, data, ctx, b)
    } else if b.name@ == "each"@ {
        each_out(reg, data, ctx, b)
    } else if b.name@ == "if"@ {
        if_out(reg, data, ctx, b, false)
    } else if b.name@ == "unless"@ {
        if_out(reg, data, ctx, b, true)
    } else if b.name@ == "lookup"@ {
        lookup_out(reg, data, ctx, b)
    } else if b.name@ == "log"@ {
        Outcome::Text(Seq::empty())
    } else {
        fail(RenderError::UnknownHelper(b.name))
    }
}

/// The path segment a lookup key stands for: a string as it is, a
/// non-negative whole number in decimal.
pub open spec fn key_seg(k: JsonV) -> Option<Seq<char>> {
    match k {
        JsonV::Str(s) => Some(s),
        JsonV::Number(n) => if n >= 0 {
            Some(nat_text(n as nat))
        } else {
            None
        },
        _ => None,
    }
}

/// The `lookup` directive: the second parameter, as a key or a position,
/// applied to the value of the first; it writes the text of what it finds,
/// nothing when it finds nothing, and fails on that in strict mode.
pub open spec fn lookup_out(reg: Registry, data: JsonV, ctx: RenderContextV, b: Block) -> Outcome {
    if b.params@.len() < 2 {
        fail(RenderError::MissingParameter(b.name))
    } else if reg.strict_spec() && (param_missing(data, ctx, b.params@[0]) || param_missing(
        data,
        ctx,
        b.params@[1],
    )) {
        fail(RenderError::PathNotFound)
    } else {
        let found = match key_seg(param_value(data, ctx, b.params@[1])) {
            Some(k) => child(param_value(data, ctx, b.params@[0]), k),
            None => None,
        };
        match found {
            Some(c) => Outcome::Text(render_text(c)),
            None => if reg.strict_spec() {
                fail(RenderError::PathNotFound)
            } else {
                Outcome::Text(Seq::empty())
            },
        }
    }
}

/// How many items `each` walks over: array elements or object entries.
pub open spec fn iter_len(v: JsonV) -> nat {
    match v {
        JsonV::Array(a) => a.len(),
        JsonV::Object(e) => e.len(),
        _ => 0,
    }
}

/// The path segment of item `i`: its position in decimal, or its key.
pub open spec fn iter_seg(v: JsonV, i: nat) -> Seq<char> {
    match v {
        JsonV::Array(_) => nat_text(i),
        JsonV::Object(e) => e[i as int].0,
        _ => Seq::empty(),
    }
}

/// Item `i` itself.
pub open spec fn iter_elem(v: JsonV, i: nat) -> JsonV {
    match v {
        JsonV::Array(a) => a[i as int],
        JsonV::Object(e) => e[i as int].1,
        _ => JsonV::Null,
    }
}

/// The scope of item `i` of `n`: the current path at the item where the
/// parameter has a path, and `@index`, `@first`, `@last` (and `@key` for an
/// object) assigned in the current frame of local variables.
pub open spec fn iter_ctx(ctx: RenderContextV, v: JsonV, path: Option<Seq<Seq<char>>>, i: nat, n: nat) -> RenderContextV {
    let c0 = match path {
        Some(p) => RenderContextV { path: p.push(iter_seg(v, i)), ..ctx },
        None => ctx,
    };
    let c1 = assigned(c0, "index"@, JsonV::Number((i as i64) as int));
    let c2 = assigned(c1, "first"@, JsonV::Bool(i == 0));
    let c3 = assigned(c2, "last"@, JsonV::Bool(i + 1 == n));
    match v {
        JsonV::Object(e) => assigned(c3, "key"@, JsonV::Str(e[i as int].0)),
        _ => c3,
    }
}

/// Rendering the main template for item `i` in its scope, with a frame that
/// binds the first declared name to the item (by path where there is one)
/// and the second to its position; the same name declared twice fails.
pub open spec fn each_body(
    reg: Registry,
    data: JsonV,
    ctx: RenderContextV,
    b: Block,
    v: JsonV,
    path: Option<Seq<Seq<char>>>,
    i: nat,
) -> Outcome
    decreases reg.max_depth_spec() - ctx.depth, 1int, 0nat,
{
    if ctx.depth > reg.max_depth_spec() {
        fail(RenderError::RecursionLimitExceeded)
    } else if b.block_params@.len() > 1 && b.block_params@[1]@ == b.block_params@[0]@ {
        fail(RenderError::ParameterRedefinition(b.block_params@[1]))
    } else {
        let inner = if b.block_params@.len() > 0 {
            let h0 = match path {
                Some(p) => HolderV::Path(p.push(iter_seg(v, i))),
                None => HolderV::Value(iter_elem(v, i)),
            };
            let f0 = seq![(b.block_params@[0]@, h0)];
            let f = if b.block_params@.len() > 1 {
                f0.push((b.block_params@[1]@, HolderV::Value(JsonV::Number((i as i64) as int))))
            } else {
                f0
            };
            RenderContextV { blocks: ctx.blocks.push(f), ..ctx }
        } else {
            ctx
        };
        match b.template {
            Some(t) => tmpl_out(reg, data, inner, t@),
            None => Outcome::Text(Seq::empty()),
        }
    }
}

/// Rendering items `i` to `n - 1` in order, each in the scope the previous
/// one left.
pub open spec fn each_iter(
    reg: Registry,
    data: JsonV,
    ctx: RenderContextV,
    b: Block,
    v: JsonV,
    path: Option<Seq<Seq<char>>>,
    i: nat,
    n: nat,
) -> Outcome
    decreases reg.max_depth_spec() - ctx.depth, 2int, n - i,
{
    if ctx.depth > reg.max_depth_spec() || i >= n {
        Outcome::Text(Seq::empty())
    } else {
        let c = iter_ctx(ctx, v, path, i, n);
        then_out(each_body(reg, data, c, b, v, path, i), each_iter(reg, data, c, b, v, path, i + 1, n))
    }
}

/// The `each` directive: without a parameter, or with a missing one in
/// strict mode, it fails; otherwise, after a save point and a path root where
/// the parameter has a path, it renders the main template per array element
/// or object entry, or the inverse when there is none.
pub open spec fn each_out(reg: Registry, data: JsonV, ctx: RenderContextV, b: Block) -> Outcome
    decreases reg.max_depth_spec() - ctx.depth, 3int, 0nat,
{
    if ctx.depth > reg.max_depth_spec() {
        fail(RenderError::RecursionLimitExceeded)
    } else if b.params@.len() == 0 {
        fail(RenderError::MissingParameter(b.name))
    } else if reg.strict_spec() && param_missing(data, ctx, b.params@[0]) {
        fail(RenderError::PathNotFound)
    } else {
        let v = param_value(data, ctx, b.params@[0]);
        let path = param_path(ctx, b.params@[0]);
        let c1 = match path {
            Some(_) => pushed_root(promoted(ctx), ctx.path),
            None => promoted(ctx),
        };
        if iter_len(v) == 0 {
            match b.inverse {
                Some(t) => tmpl_out(reg, data, c1, t@),
                None => Outcome::Text(Seq::empty()),
            }
        } else {
            each_iter(reg, data, c1, b, v, path, 0, iter_len(v))
        }
    }
}

/// The first bound name a block declares.
pub open spec fn first_bound(b: Block) -> Option<Seq<char>> {
    if b.block_params@.len() > 0 {
        Some(b.block_params@[0]@)
    } else {
        None
    }
}

/// The `with` directive: without a parameter, or with a missing one in strict
/// mode, it fails; otherwise it renders the main template in the scope
/// narrowed to the parameter when that is truthy (zero counts as truthy), the
/// inverse in the scope with only the save point and path root added
/// otherwise, and nothing when that template is absent.
pub open spec fn with_out(reg: Registry, data: JsonV, ctx: RenderContextV, b: Block) -> Outcome
    decreases reg.max_depth_spec() - ctx.depth, 1int, 0nat,
{
    if ctx.depth > reg.max_depth_spec() {
        fail(RenderError::RecursionLimitExceeded)
    } else if b.params@.len() == 0 {
        fail(RenderError::MissingParameter(b.name))
    } else if reg.strict_spec() && param_missing(data, ctx, b.params@[0]) {
        fail(RenderError::PathNotFound)
    } else {
        let v = param_value(data, ctx, b.params@[0]);
        let t = truthy(v, false);
        let inner = with_scope(promoted(ctx), param_path(ctx, b.params@[0]), v, t, first_bound(b));
        match chosen(b, t) {
            Some(tt) => tmpl_out(reg, data, inner, tt@),
            None => Outcome::Text(Seq::empty()),
        }
    }
}

/// The `if` directive, or `unless` when `negate` is set: it renders the main
/// template when the parameter is truthy (zero counts as falsy), the inverse
/// otherwise, in the same scope.
pub open spec fn if_out(reg: Registry, data: JsonV, ctx: RenderContextV, b: Block, negate: bool) -> Outcome
    decreases reg.max_depth_spec() - ctx.depth, 1int, 0nat,
{
    if ctx.depth > reg.max_depth_spec() {
        fail(RenderError::RecursionLimitExceeded)
    } else if b.params@.len() == 0 {
        fail(RenderError::MissingParameter(b.name))
    } else if reg.strict_spec() && param_missing(data, ctx, b.params@[0]) {
        fail(RenderError::PathNotFound)
    } else {
        let main = truthy(param_value(data, ctx, b.params@[0]), true) != negate;
        match chosen(b, main) {
            Some(tt) => tmpl_out(reg, data, ctx, tt@),
            None => Outcome::Text(Seq::empty()),
        }
    }
}

/// What the text written so far owes to the elements rendered so far.
pub open spec fn prefix_holds(o: Outcome, before: Seq<char>, after: Seq<char>) -> bool {
    match o {
        Outcome::Text(x) => after == before + x,
        Outcome::Fails(_, _) => false,
    }
}

proof fn lemma_fails_stays(reg: Registry, data: JsonV, ctx: RenderContextV, t: Seq<Node>, k: int)
    requires
        0 <= k <= t.len(),
        nodes_out(reg, data, ctx, t.subrange(0, k)) is Fails,
    ensures
        nodes_out(reg, data, ctx, t) == nodes_out(reg, data, ctx, t.subrange(0, k)),
    decreases t.len() - k,
{
    if k < t.len() {
        let s1 = t.subrange(0, k + 1);
        assert(s1.drop_last() == t.subrange(0, k));
        lemma_fails_stays(reg, data, ctx, t, k + 1);
    } else {
        assert(t.subrange(0, k) == t);
    }
}

/// Whether `a` is `b` followed by more text.
pub open spec fn extends(a: Seq<char>, b: Seq<char>) -> bool {
    b.len() <= a.len() && a.subrange(0, b.len() as int) == b
}

/// Text that extends an extension of `c` extends `c`.
pub proof fn lemma_extends_trans(a: Seq<char>, b: Seq<char>, c: Seq<char>)
    requires
        extends(a, b),
        extends(b, c),
    ensures
        extends(a, c),
{
    assert(a.subrange(0, c.len() as int) =~= b.subrange(0, c.len() as int));
}

/// Whether a string holds exactly the characters of a literal.
pub fn name_is(s: &String, lit: &str) -> (r: bool)
    ensures
        r == (s@ == lit@),
{
    let a = s.as_str();
    let n = a.unicode_len();
    if n != lit.unicode_len() {
        return false;
    }
    let mut i: usize = 0;
    while i < n
        invariant
            n == s@.len(),
            n == lit@.len(),
            a@ == s@,
            i <= n,
            forall|j: int| 0 <= j < i ==> s@[j] == lit@[j],
        decreases n - i,
    {
        if a.get_char(i) != lit.get_char(i) {
            return false;
        }
        i = i + 1;
    }
    assert(s@ =~= lit@);
    true
}

/// Renders a sub-template one level deeper. The scope stack is the same
/// afterwards as before, whether the render succeeded or failed, and the
/// output only grows.
pub fn render_template(
    reg: &Registry,
    data: &Json,
    t: &Vec<Node>,
    rc: &mut RenderContext,
    out: &mut String,
) -> (r: Result<(), RenderError>)
    requires
        ctx_ready(reg, old(rc)@),
    ensures
        final(rc)@ == old(rc)@,
        extends(final(out)@, old(out)@),
        !(r matches Err(RenderError::TemplateNotFound(_))),
        old(rc)@.depth == reg.max_depth_spec() ==> r is Err && r->Err_0 is RecursionLimitExceeded
            && final(out)@ == old(out)@,
        t@.len() == 0 && old(rc)@.depth < reg.max_depth_spec() ==> r is Ok && final(out)@ == old(out)@,
        meets(tmpl_out(*reg, data@, old(rc)@, t@), r, old(out)@, final(out)@),
    decreases reg.max_depth_spec() - old(rc)@.depth, 0int,
{
    let depth = rc.get_recursion_depth();
    if depth >= reg.max_depth() {
        assert(out@.subrange(0, out@.len() as int) == out@);
        assert(out@ + Seq::<char>::empty() == out@);
        return Err(RenderError::RecursionLimitExceeded);
    }
    rc.set_recursion_depth(depth + 1);
    let ghost inner = rc@;
    let mut i: usize = 0;
    assert(out@.subrange(0, out@.len() as int) == out@);
    while i < t.len()
        invariant
            i <= t@.len(),
            rc@ == inner,
            depth == old(rc)@.depth,
            inner == (RenderContextV { depth: old(rc)@.depth + 1, ..old(rc)@ }),
            ctx_ready(reg, inner),
            extends(out@, old(out)@),
            t@.len() == 0 ==> out@ == old(out)@,
            prefix_holds(nodes_out(*reg, data@, inner, t@.subrange(0, i as int)), old(out)@, out@),
        decreases t@.len() - i,
    {
        let ghost before = out@;
        let ghost pre = nodes_out(*reg, data@, inner, t@.subrange(0, i as int));
        let res = render_node(reg, data, &t[i], rc, out);
        proof {
            lemma_extends_trans(out@, before, old(out)@);
            let s1 = t@.subrange(0, i + 1);
            assert(s1.drop_last() == t@.subrange(0, i as int));
            assert(s1.last() == t@[i as int]);
            let nd = node_out(*reg, data@, inner, t@[i as int]);
            assert(nodes_out(*reg, data@, inner, s1) == then_out(pre, nd));
            if let Outcome::Text(x) = pre {
                match nd {
                    Outcome::Text(y) => {
                        assert(out@ == old(out)@ + (x + y));
                    },
                    Outcome::Fails(e, y) => {
                        assert(out@ == old(out)@ + (x + y));
                    },
                }
            }
            if res.is_err() {
                lemma_fails_stays(*reg, data@, inner, t@, i + 1);
                assert(t@.subrange(0, t@.len() as int) == t@);
            }
        }
        if res.is_err() {
            rc.set_recursion_depth(depth);
            assert(rc@ == old(rc)@);
            return res;
        }
        i = i + 1;
    }
    rc.set_recursion_depth(depth);
    assert(rc@ == old(rc)@);
    assert(t@.subrange(0, t@.len() as int) == t@);
    Ok(())
}

/// Renders one template element: raw text as it is, an expression as the
/// text of what it resolves to, a directive through its implementation.
pub fn render_node(
    reg: &Registry,
    data: &Json,
    n: &Node,
    rc: &mut RenderContext,
    out: &mut String,
) -> (r: Result<(), RenderError>)
    requires
        ctx_ready(reg, old(rc)@),
    ensures
        final(rc)@ == old(rc)@,
        extends(final(out)@, old(out)@),
        !(r matches Err(RenderError::TemplateNotFound(_))),
        match *n {
            Node::Raw(s) => r is Ok && final(out)@ == old(out)@ + s@,
            Node::Expr(e) => match crate::resolve::resolve(data@, old(rc)@, e@) {
                Some(v) => r is Ok && final(out)@ == old(out)@ + render_text(v),
                None => if reg.strict_spec() {
                    r is Err && r->Err_0 is PathNotFound && final(out)@ == old(out)@
                } else {
                    r is Ok && final(out)@ == old(out)@
                },
            },
            Node::Block(_) => true,
        },
        meets(node_out(*reg, data@, old(rc)@, *n), r, old(out)@, final(out)@),
    decreases reg.max_depth_spec() - old(rc)@.depth, 3int,
{
    let ghost o = out@;
    let res = match n {
        Node::Raw(s) => {
            push_str(out, s.as_str());
            Ok(())
        },
        Node::Expr(e) => {
            match resolve_path(data, rc, e) {
                Some(v) => {
                    v.render_into(out);
                    Ok(())
                },
                None => if reg.strict_mode() {
                    Err(RenderError::PathNotFound)
                } else {
                    Ok(())
                },
            }
        },
        Node::Block(b) => call_helper(reg, data, b, rc, out),
    };
    assert(out@.subrange(0, o.len() as int) =~= o);
    res
}

/// Hands a directive to the implementation registered under its name.
pub fn call_helper(
    reg: &Registry,
    data: &Json,
    b: &Block,
    rc: &mut RenderContext,
    out: &mut String,
) -> (r: Result<(), RenderError>)
    requires
        ctx_ready(reg, old(rc)@),
    ensures
        final(rc)@ == old(rc)@,
        extends(final(out)@, old(out)@),
        !(r matches Err(RenderError::TemplateNotFound(_))),
        meets(block_out(*reg, data@, old(rc)@, *b), r, old(out)@, final(out)@),
    decreases reg.max_depth_spec() - old(rc)@.depth, 2int,
{
    if name_is(&b.name, "with") {
        WithHelper.call(b, reg, data, rc, out)
    } else if name_is(&b.name, "each") {
        EachHelper.call(b, reg, data, rc, out)
    } else if name_is(&b.name, "if") {
        IfHelper { negate: false }.call(b, reg, data, rc, out)
    } else if name_is(&b.name, "unless") {
        IfHelper { negate: true }.call(b, reg, data, rc, out)
    } else if name_is(&b.name, "lookup") {
        LookupHelper.call(b, reg, data, rc, out)
    } else if name_is(&b.name, "log") {
        assert(out@.subrange(0, out@.len() as int) == out@);
        assert(out@ + Seq::<char>::empty() == out@);
        Ok(())
    } else {
        assert(out@.subrange(0, out@.len() as int) == out@);
        assert(out@ + Seq::<char>::empty() == out@);
        Err(RenderError::UnknownHelper(b.name.clone()))
    }
}

} // verus!
