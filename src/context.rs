use vstd::prelude::*;
use crate::value::{Json, JsonV};

verus! {

broadcast use vstd::std_specs::vec::group_vec_axioms, vstd::seq::group_seq_axioms;

/// The ways a render can fail.
#[derive(Debug)]
pub enum RenderError {
    /// A directive was called without a positional parameter it needs.
    MissingParameter(String),
    /// A path found nothing while strict mode was on.
    PathNotFound,
    /// One bound name was declared twice in one frame.
    ParameterRedefinition(String),
    /// Nested sub-templates went deeper than the configured bound.
    RecursionLimitExceeded,
    /// A directive name that no implementation is registered for.
    UnknownHelper(String),
    /// No template is registered under the name.
    TemplateNotFound(String),
}

/// The model of a path: one character sequence per segment.
pub open spec fn path_view(p: Seq<String>) -> Seq<Seq<char>> {
    p.map_values(|s: String| s@)
}

/// A copy of a path.
pub fn copy_path(p: &Vec<String>) -> (r: Vec<String>)
    ensures
        path_view(r@) == path_view(p@),
{
    let mut r: Vec<String> = Vec::new();
    let mut i: usize = 0;
    while i < p.len()
        invariant
            i <= p@.len(),
            r@.len() == i,
            forall|j: int| 0 <= j < i ==> (#[trigger] r@[j])@ == p@[j]@,
        decreases p@.len() - i,
    {
        r.push(p[i].clone());
        i = i + 1;
    }
    assert(path_view(r@) =~= path_view(p@));
    r
}

/// What a bound name refers to.
pub enum BlockParamHolder {
    /// A live binding into the data, by absolute path.
    Path(Vec<String>),
    /// A captured value.
    Value(Json),
}

pub enum HolderV {
    Path(Seq<Seq<char>>),
    Value(JsonV),
}

impl View for BlockParamHolder {
    type V = HolderV;

    open spec fn view(&self) -> HolderV {
        match self {
            BlockParamHolder::Path(p) => HolderV::Path(path_view(p@)),
            BlockParamHolder::Value(v) => HolderV::Value(v@),
        }
    }
}

impl BlockParamHolder {
    /// A copy that owns all of its parts.
    pub fn copy(&self) -> (r: BlockParamHolder)
        ensures
            r@ == self@,
    {
        match self {
            BlockParamHolder::Path(p) => BlockParamHolder::Path(copy_path(p)),
            BlockParamHolder::Value(v) => BlockParamHolder::Value(v.deep_copy()),
        }
    }
}

/// One frame of bound names, in the order they were added.
pub struct BlockParams {
    data: Vec<(String, BlockParamHolder)>,
}

pub open spec fn frame_view(d: Seq<(String, BlockParamHolder)>) -> Seq<(Seq<char>, HolderV)> {
    d.map_values(|e: (String, BlockParamHolder)| (e.0@, e.1@))
}

/// Whether the frame binds `k`.
pub open spec fn frame_has(f: Seq<(Seq<char>, HolderV)>, k: Seq<char>) -> bool {
    exists|i: int| 0 <= i < f.len() && (#[trigger] f[i]).0 == k
}

/// What the frame binds `k` to: the first entry with that name.
pub open spec fn frame_get(f: Seq<(Seq<char>, HolderV)>, k: Seq<char>) -> Option<HolderV>
    decreases f.len(),
{
    if f.len() == 0 {
        None
    } else if f[0].0 == k {
        Some(f[0].1)
    } else {
        frame_get(f.drop_first(), k)
    }
}

/// What a stack of frames binds `k` to, searched from the innermost frame out.
pub open spec fn block_get(frames: Seq<Seq<(Seq<char>, HolderV)>>, k: Seq<char>) -> Option<HolderV>
    decreases frames.len(),
{
    if frames.len() == 0 {
        None
    } else {
        match frame_get(frames.last(), k) {
            Some(h) => Some(h),
            None => block_get(frames.drop_last(), k),
        }
    }
}

impl View for BlockParams {
    type V = Seq<(Seq<char>, HolderV)>;

    closed spec fn view(&self) -> Seq<(Seq<char>, HolderV)> {
        frame_view(self.data@)
    }
}

impl BlockParams {
    /// An empty frame.
    pub fn new() -> (r: BlockParams)
        ensures
            r@ == Seq::<(Seq<char>, HolderV)>::empty(),
    {
        let r = BlockParams { data: Vec::new() };
        assert(r@ =~= Seq::<(Seq<char>, HolderV)>::empty());
        r
    }

    /// Whether the frame binds `name`.
    pub fn contains(&self, name: &String) -> (r: bool)
        ensures
            r == frame_has(self@, name@),
    {
        let mut i: usize = 0;
        while i < self.data.len()
            invariant
                i <= self.data@.len(),
                forall|j: int| 0 <= j < i ==> (#[trigger] self@[j]).0 != name@,
            decreases self.data@.len() - i,
        {
            if self.data[i].0 == *name {
                assert(self@[i as int].0 == name@);
                return true;
            }
            i = i + 1;
        }
        false
    }

    fn add(&mut self, name: &String, h: BlockParamHolder) -> (r: Result<(), RenderError>)
        ensures
            frame_has(old(self)@, name@) ==> r == Err::<(), RenderError>(RenderError::ParameterRedefinition(*name))
                && final(self)@ == old(self)@,
            !frame_has(old(self)@, name@) ==> r is Ok && final(self)@ == old(self)@.push((name@, h@)),
    {
        if self.contains(name) {
            return Err(RenderError::ParameterRedefinition(name.clone()));
        }
        self.data.push((name.clone(), h));
        assert(self@ =~= old(self)@.push((name@, h@)));
        Ok(())
    }

    /// Binds `name` to a path into the data; fails where the frame binds it already.
    pub fn add_path(&mut self, name: &String, path: Vec<String>) -> (r: Result<(), RenderError>)
        ensures
            frame_has(old(self)@, name@) ==> r == Err::<(), RenderError>(RenderError::ParameterRedefinition(*name))
                && final(self)@ == old(self)@,
            !frame_has(old(self)@, name@) ==> r is Ok && final(self)@ == old(self)@.push(
                (name@, HolderV::Path(path_view(path@))),
            ),
    {
        self.add(name, BlockParamHolder::Path(path))
    }

    /// Binds `name` to a value; fails where the frame binds it already.
    pub fn add_value(&mut self, name: &String, value: Json) -> (r: Result<(), RenderError>)
        ensures
            frame_has(old(self)@, name@) ==> r == Err::<(), RenderError>(RenderError::ParameterRedefinition(*name))
                && final(self)@ == old(self)@,
            !frame_has(old(self)@, name@) ==> r is Ok && final(self)@ == old(self)@.push(
                (name@, HolderV::Value(value@)),
            ),
    {
        self.add(name, BlockParamHolder::Value(value))
    }

    /// A copy of the frame.
    pub fn copy(&self) -> (r: BlockParams)
        ensures
            r@ == self@,
    {
        let mut data: Vec<(String, BlockParamHolder)> = Vec::new();
        let mut i: usize = 0;
        while i < self.data.len()
            invariant
                i <= self.data@.len(),
                data@.len() == i,
                forall|j: int| 0 <= j < i ==> (#[trigger] data@[j]).0@ == self.data@[j].0@ && data@[j].1@ == self.data@[j].1@,
            decreases self.data@.len() - i,
        {
            data.push((self.data[i].0.clone(), self.data[i].1.copy()));
            i = i + 1;
        }
        let r = BlockParams { data };
        assert(r@ =~= self@);
        r
    }

    /// What the frame binds `name` to.
    pub fn get(&self, name: &String) -> (r: Option<&BlockParamHolder>)
        ensures
            match r {
                Some(h) => frame_get(self@, name@) == Some(h@),
                None => frame_get(self@, name@) is None,
            },
    {
        let ghost f = self@;
        let mut i: usize = 0;
        assert(f.subrange(0, f.len() as int) == f);
        while i < self.data.len()
            invariant
                f == self@,
                i <= f.len(),
                frame_get(f, name@) == frame_get(f.subrange(i as int, f.len() as int), name@),
            decreases f.len() - i,
        {
            let ghost rest = f.subrange(i as int, f.len() as int);
            assert(rest[0] == f[i as int]);
            if self.data[i].0 == *name {
                return Some(&self.data[i].1);
            }
            assert(rest.drop_first() == f.subrange(i + 1, f.len() as int));
            i = i + 1;
        }
        None
    }
}

/// The value of the last entry named `k` in a frame of local variables.
pub open spec fn local_get(f: Seq<(Seq<char>, JsonV)>, k: Seq<char>) -> Option<JsonV>
    decreases f.len(),
{
    if f.len() == 0 {
        None
    } else if f.last().0 == k {
        Some(f.last().1)
    } else {
        local_get(f.drop_last(), k)
    }
}

pub open spec fn locals_view(d: Seq<(String, Json)>) -> Seq<(Seq<char>, JsonV)> {
    d.map_values(|e: (String, Json)| (e.0@, e.1@))
}

/// The model of a render context.
pub struct RenderContextV {
    /// The absolute path of the value that relative paths start from.
    pub path: Seq<Seq<char>>,
    /// The path roots pushed by enclosing narrowing directives, innermost last.
    pub roots: Seq<Seq<Seq<char>>>,
    /// The frames of bound names, innermost last.
    pub blocks: Seq<Seq<(Seq<char>, HolderV)>>,
    /// The frames of local variables, the current one last.
    pub locals: Seq<Seq<(Seq<char>, JsonV)>>,
    /// How many sub-templates enclose the current one.
    pub depth: nat,
}

/// The scope after pushing a path root, as `push_local_path_root` leaves it.
pub open spec fn pushed_root(ctx: RenderContextV, p: Seq<Seq<char>>) -> RenderContextV {
    RenderContextV { roots: ctx.roots.push(p), ..ctx }
}

/// The scope after popping a path root, as `pop_local_path_root` leaves it.
pub open spec fn popped_root(ctx: RenderContextV) -> RenderContextV {
    RenderContextV { roots: ctx.roots.drop_last(), ..ctx }
}

/// The scope after `promote_local_vars`.
pub open spec fn promoted(ctx: RenderContextV) -> RenderContextV {
    RenderContextV { locals: ctx.locals.push(Seq::empty()), ..ctx }
}

/// The scope after `demote_local_vars`.
pub open spec fn demoted(ctx: RenderContextV) -> RenderContextV {
    RenderContextV { locals: ctx.locals.drop_last(), ..ctx }
}

/// The scope after `set_local_var`.
pub open spec fn assigned(ctx: RenderContextV, k: Seq<char>, v: JsonV) -> RenderContextV {
    RenderContextV {
        locals: ctx.locals.update(ctx.locals.len() - 1, ctx.locals.last().push((k, v))),
        ..ctx
    }
}

/// The scope at the start of a render pass: at the top of the data, with no
/// roots and no bound names, one empty frame of local variables, depth zero.
pub open spec fn fresh_ctx() -> RenderContextV {
    RenderContextV {
        path: Seq::empty(),
        roots: Seq::empty(),
        blocks: Seq::empty(),
        locals: seq![Seq::empty()],
        depth: 0,
    }
}

/// The scope stack of one render pass.
pub struct RenderContext {
    path: Vec<String>,
    roots: Vec<Vec<String>>,
    blocks: Vec<BlockParams>,
    locals: Vec<Vec<(String, Json)>>,
    depth: usize,
}

impl View for RenderContext {
    type V = RenderContextV;

    closed spec fn view(&self) -> RenderContextV {
        RenderContextV {
            path: path_view(self.path@),
            roots: self.roots@.map_values(|p: Vec<String>| path_view(p@)),
            blocks: self.blocks@.map_values(|b: BlockParams| b@),
            locals: self.locals@.map_values(|f: Vec<(String, Json)>| locals_view(f@)),
            depth: self.depth as nat,
        }
    }
}

impl RenderContext {
    /// A context at the top of the data, with one empty frame of local variables.
    pub fn new() -> (r: RenderContext)
        ensures
            r@ == fresh_ctx(),
    {
        let mut locals: Vec<Vec<(String, Json)>> = Vec::new();
        locals.push(Vec::new());
        let r = RenderContext { path: Vec::new(), roots: Vec::new(), blocks: Vec::new(), locals, depth: 0 };
        assert(r@.locals[0] =~= Seq::<(Seq<char>, JsonV)>::empty());
        assert(r@.locals =~= seq![Seq::<(Seq<char>, JsonV)>::empty()]);
        assert(r@.path =~= Seq::<Seq<char>>::empty());
        assert(r@.roots =~= Seq::<Seq<Seq<char>>>::empty());
        assert(r@.blocks =~= Seq::<Seq<(Seq<char>, HolderV)>>::empty());
        r
    }

    /// An independent scope with the same stacks: what is pushed onto one
    /// is not seen by the other.
    pub fn derive(&self) -> (r: RenderContext)
        ensures
            r@ == self@,
    {
        let mut roots: Vec<Vec<String>> = Vec::new();
        let mut i: usize = 0;
        while i < self.roots.len()
            invariant
                i <= self.roots@.len(),
                roots@.len() == i,
                forall|j: int| 0 <= j < i ==> path_view((#[trigger] roots@[j])@) == path_view(self.roots@[j]@),
            decreases self.roots@.len() - i,
        {
            roots.push(copy_path(&self.roots[i]));
            i = i + 1;
        }
        let mut blocks: Vec<BlockParams> = Vec::new();
        let mut i: usize = 0;
        while i < self.blocks.len()
            invariant
                i <= self.blocks@.len(),
                blocks@.len() == i,
                forall|j: int| 0 <= j < i ==> (#[trigger] blocks@[j])@ == self.blocks@[j]@,
            decreases self.blocks@.len() - i,
        {
            blocks.push(self.blocks[i].copy());
            i = i + 1;
        }
        let mut locals: Vec<Vec<(String, Json)>> = Vec::new();
        let mut i: usize = 0;
        while i < self.locals.len()
            invariant
                i <= self.locals@.len(),
                locals@.len() == i,
                forall|j: int| 0 <= j < i ==> locals_view((#[trigger] locals@[j])@) == locals_view(self.locals@[j]@),
            decreases self.locals@.len() - i,
        {
            let f = &self.locals[i];
            let mut g: Vec<(String, Json)> = Vec::new();
            let mut k: usize = 0;
            while k < f.len()
                invariant
                    k <= f@.len(),
                    g@.len() == k,
                    forall|j: int| 0 <= j < k ==> (#[trigger] g@[j]).0@ == f@[j].0@ && g@[j].1@ == f@[j].1@,
                decreases f@.len() - k,
            {
                g.push((f[k].0.clone(), f[k].1.deep_copy()));
                k = k + 1;
            }
            assert(locals_view(g@) =~= locals_view(f@));
            locals.push(g);
            i = i + 1;
        }
        let r = RenderContext { path: copy_path(&self.path), roots, blocks, locals, depth: self.depth };
        assert(r@.roots =~= self@.roots);
        assert(r@.blocks =~= self@.blocks);
        assert(r@.locals =~= self@.locals);
        r
    }

    /// The current path.
    pub fn get_path(&self) -> (r: &Vec<String>)
        ensures
            path_view(r@) == self@.path,
    {
        &self.path
    }

    /// Replaces the current path; nothing else changes.
    pub fn set_path(&mut self, p: Vec<String>)
        ensures
            final(self)@ == (RenderContextV { path: path_view(p@), ..old(self)@ }),
    {
        self.path = p;
    }

    /// The path roots, innermost last.
    pub fn get_local_path_roots(&self) -> (r: &Vec<Vec<String>>)
        ensures
            r@.map_values(|p: Vec<String>| path_view(p@)) == self@.roots,
    {
        &self.roots
    }

    /// Pushes a path root for one more enclosing level.
    pub fn push_local_path_root(&mut self, p: Vec<String>)
        ensures
            final(self)@ == pushed_root(old(self)@, path_view(p@)),
    {
        self.roots.push(p);
        assert(self@.roots =~= old(self)@.roots.push(path_view(p@)));
    }

    /// Pops the innermost path root.
    pub fn pop_local_path_root(&mut self)
        requires
            old(self)@.roots.len() > 0,
        ensures
            final(self)@ == popped_root(old(self)@),
    {
        self.roots.pop();
        assert(self@.roots =~= old(self)@.roots.drop_last());
    }

    /// The frames of bound names, innermost last.
    pub fn get_block_contexts(&self) -> (r: &Vec<BlockParams>)
        ensures
            r@.map_values(|b: BlockParams| b@) == self@.blocks,
    {
        &self.blocks
    }

    /// Pushes a frame of bound names.
    pub fn push_block_context(&mut self, b: BlockParams)
        ensures
            final(self)@ == (RenderContextV { blocks: old(self)@.blocks.push(b@), ..old(self)@ }),
    {
        self.blocks.push(b);
        assert(self@.blocks =~= old(self)@.blocks.push(b@));
    }

    /// Pops the innermost frame of bound names.
    pub fn pop_block_context(&mut self)
        requires
            old(self)@.blocks.len() > 0,
        ensures
            final(self)@ == (RenderContextV { blocks: old(self)@.blocks.drop_last(), ..old(self)@ }),
    {
        self.blocks.pop();
        assert(self@.blocks =~= old(self)@.blocks.drop_last());
    }

    /// Opens a new frame of local variables: a save point.
    pub fn promote_local_vars(&mut self)
        ensures
            final(self)@ == promoted(old(self)@),
    {
        self.locals.push(Vec::new());
        assert(self@.locals.last() =~= Seq::<(Seq<char>, JsonV)>::empty());
        assert(self@.locals =~= old(self)@.locals.push(Seq::empty()));
    }

    /// Drops the current frame of local variables, and with it every
    /// assignment made since the matching save point.
    pub fn demote_local_vars(&mut self)
        requires
            old(self)@.locals.len() > 0,
        ensures
            final(self)@ == demoted(old(self)@),
    {
        self.locals.pop();
        assert(self@.locals =~= old(self)@.locals.drop_last());
    }

    /// Assigns a local variable in the current frame.
    pub fn set_local_var(&mut self, name: String, value: Json)
        requires
            old(self)@.locals.len() > 0,
        ensures
            final(self)@ == assigned(old(self)@, name@, value@),
    {
        let mut top = self.locals.pop().unwrap();
        let ghost t = top@;
        top.push((name, value));
        assert(locals_view(top@) =~= locals_view(t).push((name@, value@)));
        self.locals.push(top);
        assert(self@.locals =~= old(self)@.locals.update(
            old(self)@.locals.len() - 1,
            old(self)@.locals.last().push((name@, value@)),
        ));
    }

    /// The local variable `name`, `up` frames out from the current one.
    pub fn get_local_var(&self, up: usize, name: &String) -> (r: Option<&Json>)
        ensures
            up < self@.locals.len() ==> match r {
                Some(v) => local_get(self@.locals[self@.locals.len() - 1 - up], name@) == Some(v@),
                None => local_get(self@.locals[self@.locals.len() - 1 - up], name@) is None,
            },
            up >= self@.locals.len() ==> r is None,
    {
        if up >= self.locals.len() {
            return None;
        }
        let f = &self.locals[self.locals.len() - 1 - up];
        let ghost fv = locals_view(f@);
        assert(fv == self@.locals[self@.locals.len() - 1 - up]);
        let mut i: usize = f.len();
        assert(fv.subrange(0, fv.len() as int) == fv);
        while i > 0
            invariant
                fv == locals_view(f@),
                up < self@.locals.len(),
                fv == self@.locals[self@.locals.len() - 1 - up],
                i <= fv.len(),
                local_get(fv, name@) == local_get(fv.subrange(0, i as int), name@),
            decreases i,
        {
            let ghost pre = fv.subrange(0, i as int);
            assert(pre.last() == fv[i - 1]);
            if f[i - 1].0 == *name {
                assert(local_get(pre, name@) == Some(pre.last().1));
                return Some(&f[i - 1].1);
            }
            assert(pre.drop_last() == fv.subrange(0, i - 1));
            i = i - 1;
        }
        None
    }

    /// How many sub-templates enclose the current one.
    pub fn get_recursion_depth(&self) -> (r: usize)
        ensures
            r == self@.depth,
    {
        self.depth
    }

    /// Sets the count of enclosing sub-templates.
    pub fn set_recursion_depth(&mut self, d: usize)
        ensures
            final(self)@ == (RenderContextV { depth: d as nat, ..old(self)@ }),
    {
        self.depth = d;
    }
}

} // verus!
