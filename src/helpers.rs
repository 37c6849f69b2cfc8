use vstd::prelude::*;
use crate::context::{copy_path, path_view, BlockParams, HolderV, RenderContext, RenderContextV, RenderError};
use crate::render::{
    ctx_ready, lookup_out, each_body, each_iter, each_out, extends, if_out, iter_ctx, iter_elem, iter_len, iter_seg, meets,
    render_template, then_out, with_out, Outcome, Registry,
};
use crate::resolve::{opt_path_view, param_missing, resolve_param, PathAndValue};
use crate::template::{Block, Node};
use crate::value::{nat_text, push_nat, push_str, Json, JsonV};

verus! {

broadcast use vstd::std_specs::vec::group_vec_axioms, vstd::seq::group_seq_axioms;

/// The scope a `with` body is rendered in: where the parameter carries a
/// path, the caller's current path pushed as one more path root, so that a
/// parent marker climbs back to the caller's scope; when the parameter is
/// truthy, the current path narrowed to it and, where a name is declared, a frame binding that name to
/// the path, or to the value where there is no path.
pub open spec fn with_scope(
    ctx: RenderContextV,
    path: Option<Seq<Seq<char>>>,
    value: JsonV,
    is_truthy: bool,
    bound: Option<Seq<char>>,
) -> RenderContextV {
    let c1 = match path {
        Some(_) => RenderContextV { roots: ctx.roots.push(ctx.path), ..ctx },
        None => ctx,
    };
    let c2 = match path {
        Some(p) => if is_truthy {
            RenderContextV { path: p, ..c1 }
        } else {
            c1
        },
        None => c1,
    };
    match bound {
        Some(b) => if is_truthy {
            RenderContextV {
                blocks: c2.blocks.push(
                    seq![
                        (b, match path {
                            Some(p) => HolderV::Path(p),
                            None => HolderV::Value(value),
                        }),
                    ],
                ),
                ..c2
            }
        } else {
            c2
        },
        None => c2,
    }
}

/// Narrows the scope for a `with` body; see `with_scope`. Returns whether a
/// path root and whether a frame of bound names were pushed.
pub fn enter_with(rc: &mut RenderContext, pv: &PathAndValue, is_truthy: bool, bound: Option<&String>) -> (r: (
    bool,
    bool,
))
    ensures
        r.0 == pv.path is Some,
        r.1 == (is_truthy && bound is Some),
        final(rc)@ == with_scope(
            old(rc)@,
            opt_path_view(pv.path),
            pv.value@,
            is_truthy,
            match bound {
                Some(b) => Some(b@),
                None => None,
            },
        ),
{
    let mut pushed_root = false;
    match &pv.path {
        Some(_) => {
            let root = copy_path(rc.get_path());
            rc.push_local_path_root(root);
            pushed_root = true;
        },
        None => {},
    }
    if is_truthy {
        match &pv.path {
            Some(p) => rc.set_path(copy_path(p)),
            None => {},
        }
        match bound {
            Some(b) => {
                let mut params = BlockParams::new();
                let added = match &pv.path {
                    Some(p) => params.add_path(b, copy_path(p)),
                    None => params.add_value(b, pv.value.deep_copy()),
                };
                rc.push_block_context(params);
                return (pushed_root, true);
            },
            None => {},
        }
    }
    (pushed_root, false)
}

/// Undoes `enter_with`, innermost first.
pub fn leave_with(rc: &mut RenderContext, saved_path: Vec<String>, pushed_root: bool, pushed_block: bool)
    requires
        pushed_block ==> old(rc)@.blocks.len() > 0,
        pushed_root ==> old(rc)@.roots.len() > 0,
    ensures
        final(rc)@ == (RenderContextV {
            path: path_view(saved_path@),
            roots: if pushed_root {
                old(rc)@.roots.drop_last()
            } else {
                old(rc)@.roots
            },
            blocks: if pushed_block {
                old(rc)@.blocks.drop_last()
            } else {
                old(rc)@.blocks
            },
            ..old(rc)@
        }),
{
    if pushed_block {
        rc.pop_block_context();
    }
    if pushed_root {
        rc.pop_local_path_root();
    }
    rc.set_path(saved_path);
}

/// The sub-template a block renders: the main one when selected, else the inverse.
pub open spec fn chosen(h: Block, main: bool) -> Option<Vec<Node>> {
    if main {
        h.template
    } else {
        h.inverse
    }
}

/// The `with` directive: renders its main template against the scope
/// narrowed to its parameter when the parameter is truthy (zero counts as
/// truthy), its inverse in the unnarrowed scope otherwise.
#[derive(Clone, Copy)]
pub struct WithHelper;

impl WithHelper {
    pub fn call(
        &self,
        h: &Block,
        reg: &Registry,
        data: &Json,
        rc: &mut RenderContext,
        out: &mut String,
    ) -> (r: Result<(), RenderError>)
        requires
            ctx_ready(reg, old(rc)@),
        ensures
            final(rc)@ == old(rc)@,
            extends(final(out)@, old(out)@),
            !(r matches Err(RenderError::TemplateNotFound(_))),
            h.params@.len() == 0 ==> r is Err && r->Err_0 is MissingParameter && final(out)@ == old(out)@,
            h.params@.len() > 0 && reg.strict_spec() && param_missing(data@, old(rc)@, h.params@[0])
                ==> r is Err && r->Err_0 is PathNotFound && final(out)@ == old(out)@,
            meets(with_out(*reg, data@, old(rc)@, *h), r, old(out)@, final(out)@),
        decreases reg.max_depth_spec() - old(rc)@.depth, 1int,
    {
        assert(out@.subrange(0, out@.len() as int) == out@);
        if h.params.len() == 0 {
            return Err(RenderError::MissingParameter(h.name.clone()));
        }
        let pv = match resolve_param(data, rc, &h.params[0], reg.strict_mode()) {
            Ok(pv) => pv,
            Err(e) => {
                return Err(e);
            },
        };
        let not_empty = pv.value.is_truthy(false);
        rc.promote_local_vars();
        let ghost c0 = rc@;
        let saved = copy_path(rc.get_path());
        let bound = if h.block_params.len() > 0 {
            Some(&h.block_params[0])
        } else {
            None
        };
        let (pushed_root, pushed_block) = enter_with(rc, &pv, not_empty, bound);
        let template = if not_empty {
            &h.template
        } else {
            &h.inverse
        };
        let result = match template {
            Some(t) => render_template(reg, data, t, rc, out),
            None => Ok(()),
        };
        leave_with(rc, saved, pushed_root, pushed_block);
        assert(rc@.roots =~= c0.roots);
        assert(rc@.blocks =~= c0.blocks);
        assert(rc@ == c0);
        rc.demote_local_vars();
        assert(rc@.locals =~= old(rc)@.locals);
        result
    }
}

fn text(s: &str) -> (r: String)
    ensures
        r@ == s@,
{
    let mut r = String::new();
    push_str(&mut r, s);
    r
}

/// The `each` directive: renders its main template once per element of an
/// array, in order, or per entry of an object, in insertion order, with the
/// current path at that element and `@index`, `@key`, `@first` and `@last`
/// set; an empty or non-iterable parameter renders the inverse.
#[derive(Clone, Copy)]
pub struct EachHelper;

impl EachHelper {
    #[verifier::rlimit(60)]
    pub fn call(
        &self,
        h: &Block,
        reg: &Registry,
        data: &Json,
        rc: &mut RenderContext,
        out: &mut String,
    ) -> (r: Result<(), RenderError>)
        requires
            ctx_ready(reg, old(rc)@),
        ensures
            final(rc)@ == old(rc)@,
            extends(final(out)@, old(out)@),
            !(r matches Err(RenderError::TemplateNotFound(_))),
            h.params@.len() == 0 ==> r is Err && r->Err_0 is MissingParameter && final(out)@ == old(out)@,
            h.params@.len() > 0 && reg.strict_spec() && param_missing(data@, old(rc)@, h.params@[0])
                ==> r is Err && r->Err_0 is PathNotFound && final(out)@ == old(out)@,
            meets(each_out(*reg, data@, old(rc)@, *h), r, old(out)@, final(out)@),
        decreases reg.max_depth_spec() - old(rc)@.depth, 1int,
    {
        assert(out@.subrange(0, out@.len() as int) == out@);
        if h.params.len() == 0 {
            return Err(RenderError::MissingParameter(h.name.clone()));
        }
        let pv = match resolve_param(data, rc, &h.params[0], reg.strict_mode()) {
            Ok(pv) => pv,
            Err(e) => {
                return Err(e);
            },
        };
        let ghost total = each_out(*reg, data@, old(rc)@, *h);
        let ghost v = pv.value@;
        let ghost path = opt_path_view(pv.path);
        rc.promote_local_vars();
        let ghost c0 = rc@;
        let saved = copy_path(rc.get_path());
        let mut pushed_root = false;
        match &pv.path {
            Some(_) => {
                let root = copy_path(rc.get_path());
                rc.push_local_path_root(root);
                pushed_root = true;
            },
            None => {},
        }
        let ghost c1 = rc@;
        let n: usize = match &pv.value {
            Json::Array(a) => a.len(),
            Json::Object(e) => e.len(),
            _ => 0,
        };
        assert(n == iter_len(v));
        let mut result: Result<(), RenderError> = Ok(());
        if n == 0 {
            result = match &h.inverse {
                Some(t) => render_template(reg, data, t, rc, out),
                None => Ok(()),
            };
        }
        let ghost mut ci = rc@;
        let ghost mut acc: Seq<char> = Seq::empty();
        assert(n > 0 ==> total == each_iter(*reg, data@, c1, *h, v, path, 0, n as nat));
        proof {
            if n > 0 {
                let x = each_iter(*reg, data@, c1, *h, v, path, 0, n as nat);
                if let Outcome::Text(z) = x {
                    assert(Seq::<char>::empty() + z == z);
                }
                assert(old(out)@ + Seq::<char>::empty() == old(out)@);
            }
        }
        let mut i: usize = 0;
        while i < n
            invariant
                n == iter_len(v),
                v == pv.value@,
                path == opt_path_view(pv.path),
                n > 0 ==> match pv.value {
                    Json::Array(a) => n == a@.len(),
                    Json::Object(e) => n == e@.len(),
                    _ => false,
                },
                i <= n,
                rc@ == ci,
                ci.roots == c1.roots,
                ci.blocks == c1.blocks,
                ci.depth == c1.depth,
                ci.locals.len() == c1.locals.len(),
                ci.locals.drop_last() == c1.locals.drop_last(),
                c1.locals.len() > 0,
                c1.depth == old(rc)@.depth,
                ctx_ready(reg, c1),
                extends(out@, old(out)@),
                !(result matches Err(RenderError::TemplateNotFound(_))),
                n == 0 ==> meets(total, result, old(out)@, out@),
                n > 0 && result is Ok ==> out@ == old(out)@ + acc
                    && total == then_out(Outcome::Text(acc), each_iter(*reg, data@, ci, *h, v, path, i as nat, n as nat)),
                n > 0 && result is Err ==> meets(total, result, old(out)@, out@),
                i < n ==> result is Ok,
            decreases n - i,
        {
            let (seg, elem, key): (String, &Json, Option<String>) = match &pv.value {
                Json::Array(a) => {
                    let mut s = String::new();
                    push_nat(&mut s, i as u64);
                    assert(s@ =~= nat_text(i as nat));
                    (s, &a[i], None)
                },
                Json::Object(e) => (e[i].0.clone(), &e[i].1, Some(e[i].0.clone())),
                _ => vstd::pervasive::unreached(),
            };
            assert(seg@ == iter_seg(v, i as nat));
            assert(elem@ == iter_elem(v, i as nat));
            let ghost ca = iter_ctx(ci, v, path, i as nat, n as nat);
            let ghost l0 = rc@.locals;
            let elem_path: Option<Vec<String>> = match &pv.path {
                Some(p) => {
                    let mut np = copy_path(p);
                    np.push(seg);
                    assert(path_view(np@) =~= path_view(p@).push(iter_seg(v, i as nat)));
                    Some(np)
                },
                None => None,
            };
            match &elem_path {
                Some(np) => rc.set_path(copy_path(np)),
                None => {},
            }
            rc.set_local_var(text("index"), Json::Number(#[verifier::truncate] (i as i64)));
            rc.set_local_var(text("first"), Json::Bool(i == 0));
            rc.set_local_var(text("last"), Json::Bool(i + 1 == n));
            match key {
                Some(k) => rc.set_local_var(text("key"), Json::Str(k)),
                None => {},
            }
            assert(rc@ == ca);
            assert(rc@.locals.drop_last() =~= l0.drop_last());
            let mut frame_ok: Result<(), RenderError> = Ok(());
            let mut pushed_block = false;
            if h.block_params.len() > 0 {
                let mut bp = BlockParams::new();
                frame_ok = match elem_path {
                    Some(np) => bp.add_path(&h.block_params[0], np),
                    None => bp.add_value(&h.block_params[0], elem.deep_copy()),
                };
                if h.block_params.len() > 1 {
                    frame_ok = bp.add_value(&h.block_params[1], Json::Number(#[verifier::truncate] (i as i64)));
                }
                rc.push_block_context(bp);
                pushed_block = true;
            }
            let ghost before = out@;
            let ghost body = each_body(*reg, data@, ca, *h, v, path, i as nat);
            assert(out@.subrange(0, out@.len() as int) == out@);
            assert(out@ + Seq::<char>::empty() == out@);
            let r = if frame_ok.is_err() {
                frame_ok
            } else {
                match &h.template {
                    Some(t) => render_template(reg, data, t, rc, out),
                    None => Ok(()),
                }
            };
            assert(meets(body, r, before, out@));
            proof {
                crate::render::lemma_extends_trans(out@, before, old(out)@);
                let rest = each_iter(*reg, data@, ca, *h, v, path, (i + 1) as nat, n as nat);
                assert(each_iter(*reg, data@, ci, *h, v, path, i as nat, n as nat) == then_out(body, rest));
                crate::render::lemma_then_text(acc, body, rest);
                match body {
                    Outcome::Text(y) => {
                        assert(old(out)@ + acc + y == old(out)@ + (acc + y));
                    },
                    Outcome::Fails(e, y) => {
                        assert(old(out)@ + acc + y == old(out)@ + (acc + y));
                        assert(total == Outcome::Fails(e, acc + y));
                    },
                }
            }
            if pushed_block {
                rc.pop_block_context();
                assert(rc@.blocks =~= c1.blocks);
            }
            proof {
                if let Outcome::Text(y) = body {
                    acc = acc + y;
                }
                ci = ca;
            }
            assert(rc@ == ci);
            if r.is_err() {
                result = r;
                i = n;
            } else {
                i = i + 1;
            }
        }
        proof {
            if n > 0 && result is Ok {
                assert(each_iter(*reg, data@, ci, *h, v, path, n as nat, n as nat) == Outcome::Text(Seq::<char>::empty()));
                assert(acc + Seq::<char>::empty() == acc);
            }
        }
        rc.set_path(saved);
        if pushed_root {
            rc.pop_local_path_root();
        }
        assert(rc@.roots =~= c0.roots);
        rc.demote_local_vars();
        assert(rc@.locals =~= old(rc)@.locals);
        result
    }
}

/// The `lookup` directive: writes what its second parameter, as a key or a
/// position, finds in the value of its first.
#[derive(Clone, Copy)]
pub struct LookupHelper;

impl LookupHelper {
    pub fn call(
        &self,
        h: &Block,
        reg: &Registry,
        data: &Json,
        rc: &mut RenderContext,
        out: &mut String,
    ) -> (r: Result<(), RenderError>)
        requires
            ctx_ready(reg, old(rc)@),
        ensures
            final(rc)@ == old(rc)@,
            extends(final(out)@, old(out)@),
            !(r matches Err(RenderError::TemplateNotFound(_))),
            h.params@.len() < 2 ==> r is Err && r->Err_0 is MissingParameter,
            meets(lookup_out(*reg, data@, old(rc)@, *h), r, old(out)@, final(out)@),
    {
        assert(out@.subrange(0, out@.len() as int) == out@);
        if h.params.len() < 2 {
            return Err(RenderError::MissingParameter(h.name.clone()));
        }
        let strict = reg.strict_mode();
        let target = match resolve_param(data, rc, &h.params[0], strict) {
            Ok(p) => p,
            Err(e) => {
                return Err(e);
            },
        };
        let key = match resolve_param(data, rc, &h.params[1], strict) {
            Ok(p) => p,
            Err(e) => {
                return Err(e);
            },
        };
        let seg: Option<String> = match &key.value {
            Json::Str(k) => Some(k.clone()),
            Json::Number(n) => if *n >= 0 {
                let mut t = String::new();
                push_nat(&mut t, *n as u64);
                assert(t@ =~= nat_text(*n as nat));
                Some(t)
            } else {
                None
            },
            _ => None,
        };
        let found = match &seg {
            Some(k) => target.value.get_child(k),
            None => None,
        };
        match found {
            Some(c) => {
                c.render_into(out);
                assert(out@.subrange(0, old(out)@.len() as int) =~= old(out)@);
                Ok(())
            },
            None => if strict {
                Err(RenderError::PathNotFound)
            } else {
                Ok(())
            },
        }
    }
}

/// The `if` directive, or `unless` when `negate` is set: renders the main
/// template when the parameter is truthy (zero counts as falsy), the inverse
/// otherwise, in the same scope.
pub struct IfHelper {
    pub negate: bool,
}

impl IfHelper {
    pub fn call(
        &self,
        h: &Block,
        reg: &Registry,
        data: &Json,
        rc: &mut RenderContext,
        out: &mut String,
    ) -> (r: Result<(), RenderError>)
        requires
            ctx_ready(reg, old(rc)@),
        ensures
            final(rc)@ == old(rc)@,
            extends(final(out)@, old(out)@),
            !(r matches Err(RenderError::TemplateNotFound(_))),
            h.params@.len() == 0 ==> r is Err && r->Err_0 is MissingParameter && final(out)@ == old(out)@,
            h.params@.len() > 0 && reg.strict_spec() && param_missing(data@, old(rc)@, h.params@[0])
                ==> r is Err && r->Err_0 is PathNotFound && final(out)@ == old(out)@,
            meets(if_out(*reg, data@, old(rc)@, *h, self.negate), r, old(out)@, final(out)@),
        decreases reg.max_depth_spec() - old(rc)@.depth, 1int,
    {
        assert(out@.subrange(0, out@.len() as int) == out@);
        if h.params.len() == 0 {
            return Err(RenderError::MissingParameter(h.name.clone()));
        }
        let pv = match resolve_param(data, rc, &h.params[0], reg.strict_mode()) {
            Ok(pv) => pv,
            Err(e) => {
                return Err(e);
            },
        };
        let main = pv.value.is_truthy(true) != self.negate;
        let template = if main {
            &h.template
        } else {
            &h.inverse
        };
        match template {
            Some(t) => render_template(reg, data, t, rc, out),
            None => Ok(()),
        }
    }
}

} // verus!
