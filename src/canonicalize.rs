use vstd::prelude::*;

use crate::model::{
    canon,
    canon_bound,
    canon_bounds,
    canon_generic_arg,
    canon_generic_args,
    canon_output,
    canon_path,
    canon_segment,
    canon_tys,
};
use crate::tree::{
    bound_of,
    bounds_of,
    generic_arg_of,
    generic_args_of,
    output_of,
    path_of,
    segment_of,
    tys_of,
    ty_of,
    PathSegment,
    SegmentArgs,
    TypeArg,
    TypeBound,
    TypeExpr,
    TypePath,
};

verus! {

broadcast use vstd::std_specs::vec::axiom_vec_index_decreases;

/// Rewrites a type tree in place into its canonical form: every path is cut to
/// its last segment, every reference loses its lifetime, at every depth.
pub fn truncate_type(ty: &mut TypeExpr)
    ensures
        final(ty)@ == canon(old(ty)@),
{
    let mut t = TypeExpr::Leaf(String::new());
    std::mem::swap(ty, &mut t);
    *ty = canonical_type(t);
}

/// Rewrites a path in place: only its last segment stays, with canonical
/// arguments, and the leading `::` goes.
pub fn truncate_path(path: &mut TypePath)
    ensures
        final(path)@ == canon_path(old(path)@),
{
    let mut p = TypePath { leading_colon: false, segments: Vec::new() };
    std::mem::swap(path, &mut p);
    *path = canonical_path(p);
}

fn canonical_type(t: TypeExpr) -> (r: TypeExpr)
    ensures
        ty_of(r) == canon(ty_of(t)),
    decreases t,
{
    match t {
        TypeExpr::Leaf(x) => TypeExpr::Leaf(x),
        TypeExpr::Path(p) => TypeExpr::Path(canonical_path(p)),
        TypeExpr::Ref { lifetime, mutable, elem } => TypeExpr::Ref {
            lifetime: None,
            mutable,
            elem: Box::new(canonical_type(*elem)),
        },
        TypeExpr::Ptr { mutable, elem } => TypeExpr::Ptr {
            mutable,
            elem: Box::new(canonical_type(*elem)),
        },
        TypeExpr::Array { elem, len } => TypeExpr::Array {
            elem: Box::new(canonical_type(*elem)),
            len,
        },
        TypeExpr::Slice(elem) => TypeExpr::Slice(Box::new(canonical_type(*elem))),
        TypeExpr::Tuple(elems) => TypeExpr::Tuple(canonical_types(elems)),
        TypeExpr::Fn { qualifiers, params, output } => TypeExpr::Fn {
            qualifiers,
            params: canonical_types(params),
            output: canonical_output(output),
        },
        TypeExpr::Bounds { dyn_kw, bounds } => TypeExpr::Bounds {
            dyn_kw,
            bounds: canonical_bounds(bounds),
        },
        TypeExpr::Paren(elem) => TypeExpr::Paren(Box::new(canonical_type(*elem))),
    }
}

fn canonical_types(v: Vec<TypeExpr>) -> (r: Vec<TypeExpr>)
    ensures
        tys_of(r) == canon_tys(tys_of(v)),
    decreases v,
{
    let ghost orig = v;
    let mut rest = v;
    let mut out: Vec<TypeExpr> = Vec::new();
    while rest.len() > 0
        invariant
            orig == v,
            out@.len() + rest@.len() == orig@.len(),
            rest@ == orig@.subrange(out@.len() as int, orig@.len() as int),
            forall|k: int| 0 <= k < out@.len() ==> ty_of(#[trigger] out@[k]) == canon(ty_of(orig@[k])),
        decreases rest@.len(),
    {
        let ghost k = out@.len() as int;
        let x = rest.remove(0);
        proof {
            assert(x == orig@[k]);
            assert(decreases_to!(orig => orig[k]));
        }
        out.push(canonical_type(x));
    }
    proof {
        assert(tys_of(out) =~= canon_tys(tys_of(orig)));
    }
    out
}

fn canonical_output(o: Option<Box<TypeExpr>>) -> (r: Option<Box<TypeExpr>>)
    ensures
        output_of(r) == canon_output(output_of(o)),
    decreases o,
{
    match o {
        Some(t) => Some(Box::new(canonical_type(*t))),
        None => None,
    }
}

fn canonical_bounds(v: Vec<TypeBound>) -> (r: Vec<TypeBound>)
    ensures
        bounds_of(r) == canon_bounds(bounds_of(v)),
    decreases v,
{
    let ghost orig = v;
    let mut rest = v;
    let mut out: Vec<TypeBound> = Vec::new();
    while rest.len() > 0
        invariant
            orig == v,
            out@.len() + rest@.len() == orig@.len(),
            rest@ == orig@.subrange(out@.len() as int, orig@.len() as int),
            forall|k: int|
                0 <= k < out@.len() ==> bound_of(#[trigger] out@[k]) == canon_bound(
                    bound_of(orig@[k]),
                ),
        decreases rest@.len(),
    {
        let ghost k = out@.len() as int;
        let x = rest.remove(0);
        proof {
            assert(x == orig@[k]);
            assert(decreases_to!(orig => orig[k]));
        }
        out.push(canonical_bound(x));
    }
    proof {
        assert(bounds_of(out) =~= canon_bounds(bounds_of(orig)));
    }
    out
}

fn canonical_bound(b: TypeBound) -> (r: TypeBound)
    ensures
        bound_of(r) == canon_bound(bound_of(b)),
    decreases b,
{
    match b {
        TypeBound::Trait(p) => TypeBound::Trait(canonical_path(p)),
        TypeBound::Verbatim(s) => TypeBound::Verbatim(s),
    }
}

fn canonical_path(p: TypePath) -> (r: TypePath)
    ensures
        path_of(r) == canon_path(path_of(p)),
    decreases p,
{
    let ghost orig = p;
    let mut segments = p.segments;
    match segments.pop() {
        None => {
            let r = TypePath { leading_colon: false, segments: Vec::new() };
            proof {
                assert(path_of(r).segments =~= canon_path(path_of(orig)).segments);
            }
            r
        },
        Some(last) => {
            proof {
                let n = orig.segments@.len() - 1;
                assert(last == orig.segments[n]);
                assert(decreases_to!(orig => orig.segments));
                assert(decreases_to!(orig.segments => orig.segments[n]));
            }
            let seg = canonical_segment(last);
            let mut kept: Vec<PathSegment> = Vec::new();
            kept.push(seg);
            let r = TypePath { leading_colon: false, segments: kept };
            proof {
                assert(path_of(r).segments =~= canon_path(path_of(orig)).segments);
            }
            r
        },
    }
}

fn canonical_segment(s: PathSegment) -> (r: PathSegment)
    ensures
        segment_of(r) == canon_segment(segment_of(s)),
    decreases s,
{
    let args = match s.args {
        SegmentArgs::Plain => SegmentArgs::Plain,
        SegmentArgs::Angle(args) => SegmentArgs::Angle(canonical_generic_args(args)),
        SegmentArgs::Paren { inputs, output } => SegmentArgs::Paren {
            inputs: canonical_types(inputs),
            output: canonical_output(output),
        },
    };
    PathSegment { ident: s.ident, args }
}

fn canonical_generic_args(v: Vec<TypeArg>) -> (r: Vec<TypeArg>)
    ensures
        generic_args_of(r) == canon_generic_args(generic_args_of(v)),
    decreases v,
{
    let ghost orig = v;
    let mut rest = v;
    let mut out: Vec<TypeArg> = Vec::new();
    while rest.len() > 0
        invariant
            orig == v,
            out@.len() + rest@.len() == orig@.len(),
            rest@ == orig@.subrange(out@.len() as int, orig@.len() as int),
            forall|k: int|
                0 <= k < out@.len() ==> generic_arg_of(#[trigger] out@[k]) == canon_generic_arg(
                    generic_arg_of(orig@[k]),
                ),
        decreases rest@.len(),
    {
        let ghost k = out@.len() as int;
        let x = rest.remove(0);
        proof {
            assert(x == orig@[k]);
            assert(decreases_to!(orig => orig[k]));
        }
        out.push(canonical_generic_arg(x));
    }
    proof {
        assert(generic_args_of(out) =~= canon_generic_args(generic_args_of(orig)));
    }
    out
}

fn canonical_generic_arg(g: TypeArg) -> (r: TypeArg)
    ensures
        generic_arg_of(r) == canon_generic_arg(generic_arg_of(g)),
    decreases g,
{
    match g {
        TypeArg::Type(t) => TypeArg::Type(canonical_type(t)),
        TypeArg::Binding { name, ty } => TypeArg::Binding { name, ty: canonical_type(ty) },
        TypeArg::Verbatim(s) => TypeArg::Verbatim(s),
    }
}

} // verus!
