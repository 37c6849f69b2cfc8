use vstd::prelude::*;
use crate::context::{
    assigned, block_get, demoted, frame_get, frame_has, popped_root, promoted, pushed_root, HolderV,
    RenderContextV,
};
use crate::helpers::with_scope;
use crate::resolve::{abs_path, base_path, bound_head, resolve};
use crate::template::{PathKind, PathV};
use crate::value::{value_at, JsonV};

verus! {

broadcast use vstd::seq::group_seq_axioms;

/// Pushing a path root and popping it gives back the scope as it was, and in
/// particular the same current path.
pub proof fn lemma_root_push_pop(ctx: RenderContextV, p: Seq<Seq<char>>)
    ensures
        popped_root(pushed_root(ctx, p)) == ctx,
        popped_root(pushed_root(ctx, p)).path == ctx.path,
{
    assert(ctx.roots.push(p).drop_last() =~= ctx.roots);
}

/// The scope after a run of `set_local_var` calls.
pub open spec fn assigned_all(ctx: RenderContextV, xs: Seq<(Seq<char>, JsonV)>) -> RenderContextV
    decreases xs.len(),
{
    if xs.len() == 0 {
        ctx
    } else {
        assigned(assigned_all(ctx, xs.drop_last()), xs.last().0, xs.last().1)
    }
}

proof fn lemma_assigned_all_keeps_outer(ctx: RenderContextV, xs: Seq<(Seq<char>, JsonV)>)
    requires
        ctx.locals.len() > 0,
    ensures
        assigned_all(ctx, xs).locals.len() == ctx.locals.len(),
        assigned_all(ctx, xs).locals.drop_last() == ctx.locals.drop_last(),
    decreases xs.len(),
{
    if xs.len() > 0 {
        lemma_assigned_all_keeps_outer(ctx, xs.drop_last());
        let c = assigned_all(ctx, xs.drop_last());
        assert(assigned(c, xs.last().0, xs.last().1).locals.drop_last() =~= c.locals.drop_last());
    }
}

/// Local variables assigned between a save point and its release are gone
/// once it is released: the frames are those from before the save point.
pub proof fn lemma_local_vars_sandboxed(ctx: RenderContextV, xs: Seq<(Seq<char>, JsonV)>)
    ensures
        demoted(assigned_all(promoted(ctx), xs)).locals == ctx.locals,
{
    lemma_assigned_all_keeps_outer(promoted(ctx), xs);
    assert(promoted(ctx).locals.drop_last() =~= ctx.locals);
}

/// A name bound by `with ... as |x|` resolves, with any further segments,
/// exactly as the narrowed path itself does when addressed directly.
pub proof fn lemma_bound_name_is_narrowed_path(
    data: JsonV,
    ctx: RenderContextV,
    p: Seq<Seq<char>>,
    v: JsonV,
    x: Seq<char>,
    rest: Seq<Seq<char>>,
)
    ensures
        ({
            let inner = with_scope(ctx, Some(p), v, true, Some(x));
            resolve(data, inner, PathV { kind: PathKind::Relative, up: 0, segs: seq![x] + rest })
                == resolve(data, inner, PathV { kind: PathKind::Absolute, up: 0, segs: p + rest })
        }),
{
    let inner = with_scope(ctx, Some(p), v, true, Some(x));
    let q = PathV { kind: PathKind::Relative, up: 0, segs: seq![x] + rest };
    let f = seq![(x, HolderV::Path(p))];
    assert(inner.blocks.last() == f);
    assert(frame_get(f, x) == Some(HolderV::Path(p)));
    assert(q.segs[0] == x);
    assert(block_get(inner.blocks, x) == Some(HolderV::Path(p)));
    assert(bound_head(inner, q) == Some(HolderV::Path(p)));
    assert(q.segs.drop_first() =~= rest);
}

/// Inside a narrowing directive over a path, one parent marker climbs back
/// to the caller's scope: `../s` resolves as `s` did outside, wherever `s`
/// does not start with a bound name there. Each further marker climbs exactly
/// as one marker fewer did outside.
pub proof fn lemma_parent_marker_climbs_one_level(
    data: JsonV,
    ctx: RenderContextV,
    p: Seq<Seq<char>>,
    v: JsonV,
    t: bool,
    x: Option<Seq<char>>,
    segs: Seq<Seq<char>>,
    up: nat,
)
    requires
        up >= 1,
        bound_head(ctx, PathV { kind: PathKind::Relative, up: 0, segs }) is None,
    ensures
        ({
            let inner = with_scope(ctx, Some(p), v, t, x);
            &&& resolve(data, inner, PathV { kind: PathKind::Relative, up: 1, segs })
                == resolve(data, ctx, PathV { kind: PathKind::Relative, up: 0, segs })
            &&& resolve(data, inner, PathV { kind: PathKind::Relative, up: up + 1, segs })
                == resolve(data, ctx, PathV { kind: PathKind::Relative, up, segs })
        }),
{
    let inner = with_scope(ctx, Some(p), v, t, x);
    assert(base_path(inner, 1) == ctx.path);
    assert(base_path(inner, up + 1) == base_path(ctx, up));
}

/// Two nested `with` blocks over `a` and then `b`, entered at the top of the
/// data, and a path with two parent markers: it resolves from the top.
pub proof fn lemma_two_markers_reach_top(
    data: JsonV,
    ctx: RenderContextV,
    a: Seq<char>,
    b: Seq<char>,
    va: JsonV,
    vb: JsonV,
    segs: Seq<Seq<char>>,
)
    requires
        ctx.path.len() == 0,
        ctx.roots.len() == 0,
    ensures
        ({
            let outer = with_scope(ctx, Some(seq![a]), va, true, None);
            let inner = with_scope(outer, Some(seq![a, b]), vb, true, None);
            resolve(data, inner, PathV { kind: PathKind::Relative, up: 2, segs })
                == value_at(data, segs)
        }),
{
    let outer = with_scope(ctx, Some(seq![a]), va, true, None);
    let inner = with_scope(outer, Some(seq![a, b]), vb, true, None);
    assert(inner.roots[0] == Seq::<Seq<char>>::empty());
    assert(base_path(inner, 2) == Seq::<Seq<char>>::empty());
    let q = PathV { kind: PathKind::Relative, up: 2, segs };
    assert(bound_head(inner, q) is None);
    assert(abs_path(inner, q) == Some(Seq::<Seq<char>>::empty() + segs));
    assert(Seq::<Seq<char>>::empty() + segs =~= segs);
}

/// Once a frame binds a name, binding it again in that frame fails.
pub proof fn lemma_rebinding_fails(f: Seq<(Seq<char>, HolderV)>, x: Seq<char>, h: HolderV)
    ensures
        frame_has(f.push((x, h)), x),
{
    assert(f.push((x, h))[f.len() as int].0 == x);
}

} // verus!
