use vstd::prelude::*;
use crate::context::{
    block_get, copy_path, local_get, path_view, BlockParamHolder, BlockParams, HolderV,
    RenderContext, RenderContextV, RenderError,
};
use crate::template::{Param, PathExpr, PathKind, PathV};
use crate::value::{value_at, Json, JsonV};

verus! {

broadcast use vstd::std_specs::vec::group_vec_axioms, vstd::seq::group_seq_axioms;

/// The path that `up` parent markers climb to: the current path for none, the
/// `up`-th innermost path root otherwise, and the top of the data past the
/// outermost root.
pub open spec fn base_path(ctx: RenderContextV, up: nat) -> Seq<Seq<char>> {
    if up == 0 {
        ctx.path
    } else if up <= ctx.roots.len() {
        ctx.roots[ctx.roots.len() - up]
    } else {
        Seq::empty()
    }
}

/// The bound name that a relative path starts with, if any frame binds it.
pub open spec fn bound_head(ctx: RenderContextV, p: PathV) -> Option<HolderV> {
    if p.kind == PathKind::Relative && p.up == 0 && p.segs.len() > 0 {
        block_get(ctx.blocks, p.segs[0])
    } else {
        None
    }
}

/// The absolute path a path expression addresses, where it addresses the data
/// by path at all (not a local variable, nor a bound name holding a value).
pub open spec fn abs_path(ctx: RenderContextV, p: PathV) -> Option<Seq<Seq<char>>> {
    match p.kind {
        PathKind::Absolute => Some(p.segs),
        PathKind::Local => None,
        PathKind::Relative => match bound_head(ctx, p) {
            Some(HolderV::Path(bp)) => Some(bp + p.segs.drop_first()),
            Some(HolderV::Value(_)) => None,
            None => Some(base_path(ctx, p.up) + p.segs),
        },
    }
}

/// What a path expression resolves to, or `None` when it finds nothing.
pub open spec fn resolve(data: JsonV, ctx: RenderContextV, p: PathV) -> Option<JsonV> {
    match p.kind {
        PathKind::Local => if p.up < ctx.locals.len() && p.segs.len() == 1 {
            local_get(ctx.locals[ctx.locals.len() - 1 - p.up], p.segs[0])
        } else {
            None
        },
        _ => match bound_head(ctx, p) {
            Some(HolderV::Value(v)) => value_at(v, p.segs.drop_first()),
            _ => value_at(data, abs_path(ctx, p).unwrap()),
        },
    }
}

/// What a frame stack binds `name` to, innermost first.
pub fn lookup_block_param<'a>(rc: &'a RenderContext, name: &String) -> (r: Option<&'a BlockParamHolder>)
    ensures
        match r {
            Some(h) => block_get(rc@.blocks, name@) == Some(h@),
            None => block_get(rc@.blocks, name@) is None,
        },
{
    let frames = rc.get_block_contexts();
    let ghost fv = rc@.blocks;
    let mut i: usize = frames.len();
    assert(fv.subrange(0, fv.len() as int) == fv);
    while i > 0
        invariant
            fv == rc@.blocks,
            fv == frames@.map_values(|b: BlockParams| b@),
            i <= fv.len(),
            block_get(fv, name@) == block_get(fv.subrange(0, i as int), name@),
        decreases i,
    {
        let ghost pre = fv.subrange(0, i as int);
        assert(pre.last() == frames@[i - 1]@);
        match frames[i - 1].get(name) {
            Some(h) => {
                return Some(h);
            },
            None => {},
        }
        assert(pre.drop_last() == fv.subrange(0, i - 1));
        i = i - 1;
    }
    None
}

fn concat_path(a: Vec<String>, b: &Vec<String>, from: usize) -> (r: Vec<String>)
    requires
        from <= b@.len(),
    ensures
        path_view(r@) == path_view(a@) + path_view(b@).subrange(from as int, b@.len() as int),
{
    let mut r = a;
    let mut i: usize = from;
    while i < b.len()
        invariant
            from <= i <= b@.len(),
            path_view(r@) == path_view(a@) + path_view(b@).subrange(from as int, i as int),
        decreases b@.len() - i,
    {
        let ghost before = r@;
        r.push(b[i].clone());
        assert(path_view(r@) =~= path_view(before) + seq![b@[i as int]@]);
        assert(path_view(b@).subrange(from as int, i + 1) =~= path_view(b@).subrange(from as int, i as int)
            + seq![b@[i as int]@]);
        i = i + 1;
    }
    r
}

/// The base path that `up` parent markers climb to; see `base_path`.
pub fn base_path_exec(rc: &RenderContext, up: usize) -> (r: Vec<String>)
    ensures
        path_view(r@) == base_path(rc@, up as nat),
{
    if up == 0 {
        copy_path(rc.get_path())
    } else {
        let roots = rc.get_local_path_roots();
        if up <= roots.len() {
            copy_path(&roots[roots.len() - up])
        } else {
            let r: Vec<String> = Vec::new();
            assert(path_view(r@) =~= Seq::<Seq<char>>::empty());
            r
        }
    }
}

/// The absolute path of a path expression; see `abs_path`.
pub fn abs_path_exec(rc: &RenderContext, p: &PathExpr) -> (r: Option<Vec<String>>)
    ensures
        match r {
            Some(a) => abs_path(rc@, p@) == Some(path_view(a@)),
            None => abs_path(rc@, p@) is None,
        },
{
    match p.kind {
        PathKind::Absolute => Some(copy_path(&p.segs)),
        PathKind::Local => None,
        PathKind::Relative => {
            if p.up == 0 && p.segs.len() > 0 {
                match lookup_block_param(rc, &p.segs[0]) {
                    Some(BlockParamHolder::Path(bp)) => {
                        let r = concat_path(copy_path(bp), &p.segs, 1);
                        assert(path_view(p.segs@).subrange(1, p.segs@.len() as int) =~= p@.segs.drop_first());
                        return Some(r);
                    },
                    Some(BlockParamHolder::Value(_)) => {
                        return None;
                    },
                    None => {},
                }
            }
            let base = base_path_exec(rc, p.up);
            let r = concat_path(base, &p.segs, 0);
            assert(path_view(p.segs@).subrange(0, p.segs@.len() as int) =~= p@.segs);
            Some(r)
        },
    }
}

/// Resolves a path expression against the data and the scope stack; see `resolve`.
pub fn resolve_path<'a>(data: &'a Json, rc: &'a RenderContext, p: &PathExpr) -> (r: Option<&'a Json>)
    ensures
        match r {
            Some(v) => resolve(data@, rc@, p@) == Some(v@),
            None => resolve(data@, rc@, p@) is None,
        },
{
    match p.kind {
        PathKind::Local => {
            if p.segs.len() == 1 {
                rc.get_local_var(p.up, &p.segs[0])
            } else {
                None
            }
        },
        _ => {
            if p.kind == PathKind::Relative && p.up == 0 && p.segs.len() > 0 {
                match lookup_block_param(rc, &p.segs[0]) {
                    Some(BlockParamHolder::Value(v)) => {
                        let empty: Vec<String> = Vec::new();
                        assert(path_view(empty@) =~= Seq::<Seq<char>>::empty());
                        let rest = concat_path(empty, &p.segs, 1);
                        assert(path_view(p.segs@).subrange(1, p.segs@.len() as int) =~= p@.segs.drop_first());
                        assert(path_view(rest@) =~= p@.segs.drop_first());
                        return v.value_at_path(&rest);
                    },
                    _ => {},
                }
            }
            match abs_path_exec(rc, p) {
                Some(a) => data.value_at_path(&a),
                None => None,
            }
        },
    }
}

/// A resolved parameter: its value, and the absolute path it was found at
/// when it was a literal path that addresses the data.
pub struct PathAndValue {
    pub value: Json,
    pub path: Option<Vec<String>>,
}

/// The value a parameter stands for: a missing path counts as null.
pub open spec fn param_value(data: JsonV, ctx: RenderContextV, p: Param) -> JsonV {
    match p {
        Param::Literal(v) => v@,
        Param::Path(e) => match resolve(data, ctx, e@) {
            Some(v) => v,
            None => JsonV::Null,
        },
    }
}

/// The path a parameter carries: only a literal path has one.
pub open spec fn param_path(ctx: RenderContextV, p: Param) -> Option<Seq<Seq<char>>> {
    match p {
        Param::Literal(_) => None,
        Param::Path(e) => abs_path(ctx, e@),
    }
}

/// Whether a parameter is a path that finds nothing.
pub open spec fn param_missing(data: JsonV, ctx: RenderContextV, p: Param) -> bool {
    match p {
        Param::Literal(_) => false,
        Param::Path(e) => resolve(data, ctx, e@) is None,
    }
}

pub open spec fn opt_path_view(p: Option<Vec<String>>) -> Option<Seq<Seq<char>>> {
    match p {
        Some(v) => Some(path_view(v@)),
        None => None,
    }
}

/// Resolves a parameter. A path that finds nothing fails in strict mode and
/// is null otherwise.
pub fn resolve_param(data: &Json, rc: &RenderContext, p: &Param, strict: bool) -> (r: Result<PathAndValue, RenderError>)
    ensures
        r is Err <==> strict && param_missing(data@, rc@, *p),
        r is Err ==> r->Err_0 is PathNotFound,
        r is Ok ==> r->Ok_0.value@ == param_value(data@, rc@, *p)
            && opt_path_view(r->Ok_0.path) == param_path(rc@, *p),
{
    match p {
        Param::Literal(v) => Ok(PathAndValue { value: v.deep_copy(), path: None }),
        Param::Path(e) => {
            let value = match resolve_path(data, rc, e) {
                Some(v) => v.deep_copy(),
                None => {
                    if strict {
                        return Err(RenderError::PathNotFound);
                    }
                    Json::Null
                },
            };
            Ok(PathAndValue { value, path: abs_path_exec(rc, e) })
        },
    }
}

} // verus!
