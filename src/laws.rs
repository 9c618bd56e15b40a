use vstd::prelude::*;

use std::any::TypeId;

use crate::model::{
    canon,
    canon_args,
    canon_bound,
    canon_bounds,
    canon_generic_arg,
    canon_generic_args,
    canon_output,
    canon_path,
    canon_segment,
    canon_tys,
    Bound,
    GenericArg,
    Path,
    PathArgs,
    Segment,
    Ty,
};
use crate::grammar::descriptor_tree;
use crate::names::{canonical_text, lookup_outcome};
use crate::round_trip::lemma_descriptor_round_trip;
use crate::text::text;

verus! {

broadcast use vstd::seq::group_seq_axioms;

/// A property asked of every node of a tree.
pub enum NodeCheck {
    /// Every path has at most one segment and no leading `::`.
    ShortPaths,
    /// No reference carries a lifetime.
    NoRefLifetimes,
}

pub open spec fn ty_node_ok(t: Ty, c: NodeCheck) -> bool {
    match c {
        NodeCheck::ShortPaths => true,
        NodeCheck::NoRefLifetimes => !(t matches Ty::Ref { lifetime: Some(_), .. }),
    }
}

pub open spec fn path_node_ok(p: Path, c: NodeCheck) -> bool {
    match c {
        NodeCheck::ShortPaths => !p.leading_colon && p.segments.len() <= 1,
        NodeCheck::NoRefLifetimes => true,
    }
}

/// `c` holds of every type and every path in `t`, at every depth.
pub open spec fn every_node(t: Ty, c: NodeCheck) -> bool
    decreases t,
{
    ty_node_ok(t, c) && match t {
        Ty::Leaf(_) => true,
        Ty::Path(p) => every_path_node(p, c),
        Ty::Ref { elem, .. } => every_node(*elem, c),
        Ty::Ptr { elem, .. } => every_node(*elem, c),
        Ty::Array { elem, .. } => every_node(*elem, c),
        Ty::Slice(elem) => every_node(*elem, c),
        Ty::Tuple(s) => forall|i: int| 0 <= i < s.len() ==> every_node(#[trigger] s[i], c),
        Ty::Fn { params, output, .. } => (forall|i: int|
            0 <= i < params.len() ==> every_node(#[trigger] params[i], c)) && every_output_node(
            output,
            c,
        ),
        Ty::Bounds { bounds, .. } => forall|i: int|
            0 <= i < bounds.len() ==> every_bound_node(#[trigger] bounds[i], c),
        Ty::Paren(elem) => every_node(*elem, c),
    }
}

pub open spec fn every_output_node(o: Option<Box<Ty>>, c: NodeCheck) -> bool
    decreases o,
{
    match o {
        Some(t) => every_node(*t, c),
        None => true,
    }
}

pub open spec fn every_bound_node(b: Bound, c: NodeCheck) -> bool
    decreases b,
{
    match b {
        Bound::Trait(p) => every_path_node(p, c),
        Bound::Verbatim(_) => true,
    }
}

pub open spec fn every_path_node(p: Path, c: NodeCheck) -> bool
    decreases p,
{
    path_node_ok(p, c) && forall|i: int|
        0 <= i < p.segments.len() ==> every_args_node(#[trigger] p.segments[i].args, c)
}

pub open spec fn every_args_node(a: PathArgs, c: NodeCheck) -> bool
    decreases a,
{
    match a {
        PathArgs::Plain => true,
        PathArgs::Angle(args) => forall|i: int|
            0 <= i < args.len() ==> every_arg_node(#[trigger] args[i], c),
        PathArgs::Paren { inputs, output } => (forall|i: int|
            0 <= i < inputs.len() ==> every_node(#[trigger] inputs[i], c)) && every_output_node(
            output,
            c,
        ),
    }
}

pub open spec fn every_arg_node(g: GenericArg, c: NodeCheck) -> bool
    decreases g,
{
    match g {
        GenericArg::Type(t) => every_node(t, c),
        GenericArg::Binding { ty, .. } => every_node(ty, c),
        GenericArg::Verbatim(_) => true,
    }
}

/// Every path in `t`, at every depth, is a single segment with no leading `::`.
pub open spec fn paths_truncated(t: Ty) -> bool {
    every_node(t, NodeCheck::ShortPaths)
}

/// No reference in `t`, at any depth, carries a lifetime.
pub open spec fn no_ref_lifetimes(t: Ty) -> bool {
    every_node(t, NodeCheck::NoRefLifetimes)
}

proof fn lemma_canon_every_node(t: Ty, c: NodeCheck)
    ensures
        every_node(canon(t), c),
    decreases t,
{
    match t {
        Ty::Leaf(x) => {
            assert(canon(t) == Ty::Leaf(x));
        },
        Ty::Path(p) => lemma_canon_path_every_node(p, c),
        Ty::Ref { elem, .. } => lemma_canon_every_node(*elem, c),
        Ty::Ptr { elem, .. } => lemma_canon_every_node(*elem, c),
        Ty::Array { elem, .. } => lemma_canon_every_node(*elem, c),
        Ty::Slice(elem) => lemma_canon_every_node(*elem, c),
        Ty::Tuple(s) => {
            assert forall|i: int| 0 <= i < s.len() implies every_node(
                #[trigger] canon_tys(s)[i],
                c,
            ) by {
                lemma_canon_every_node(s[i], c);
            }
            assert(canon(t) == Ty::Tuple(canon_tys(s)));
        },
        Ty::Fn { qualifiers, params, output } => {
            assert forall|i: int| 0 <= i < params.len() implies every_node(
                #[trigger] canon_tys(params)[i],
                c,
            ) by {
                lemma_canon_every_node(params[i], c);
            }
            lemma_canon_output_every_node(output, c);
            assert(canon(t) == Ty::Fn {
                qualifiers,
                params: canon_tys(params),
                output: canon_output(output),
            });
        },
        Ty::Bounds { dyn_kw, bounds } => {
            assert forall|i: int| 0 <= i < bounds.len() implies every_bound_node(
                #[trigger] canon_bounds(bounds)[i],
                c,
            ) by {
                lemma_canon_bound_every_node(bounds[i], c);
            }
            assert(canon(t) == Ty::Bounds { dyn_kw, bounds: canon_bounds(bounds) });
        },
        Ty::Paren(elem) => lemma_canon_every_node(*elem, c),
    }
}

proof fn lemma_canon_output_every_node(o: Option<Box<Ty>>, c: NodeCheck)
    ensures
        every_output_node(canon_output(o), c),
    decreases o,
{
    if let Some(t) = o {
        lemma_canon_every_node(*t, c);
    }
}

proof fn lemma_canon_bound_every_node(b: Bound, c: NodeCheck)
    ensures
        every_bound_node(canon_bound(b), c),
    decreases b,
{
    if let Bound::Trait(p) = b {
        lemma_canon_path_every_node(p, c);
    }
}

proof fn lemma_canon_path_every_node(p: Path, c: NodeCheck)
    ensures
        every_path_node(canon_path(p), c),
    decreases p,
{
    if p.segments.len() > 0 {
        let last = p.segments[p.segments.len() - 1];
        assert(decreases_to!(p => p.segments));
        lemma_canon_args_every_node(last.args, c);
        assert(canon_path(p).segments[0] == canon_segment(last));
    }
}

proof fn lemma_canon_args_every_node(a: PathArgs, c: NodeCheck)
    ensures
        every_args_node(canon_args(a), c),
    decreases a,
{
    match a {
        PathArgs::Plain => {
            assert(canon_args(a) == PathArgs::Plain);
            assert(every_args_node(PathArgs::Plain, c));
        },
        PathArgs::Angle(args) => {
            assert forall|i: int| 0 <= i < args.len() implies every_arg_node(
                #[trigger] canon_generic_args(args)[i],
                c,
            ) by {
                lemma_canon_arg_every_node(args[i], c);
            }
            assert(canon_args(a) == PathArgs::Angle(canon_generic_args(args)));
        },
        PathArgs::Paren { inputs, output } => {
            assert forall|i: int| 0 <= i < inputs.len() implies every_node(
                #[trigger] canon_tys(inputs)[i],
                c,
            ) by {
                lemma_canon_every_node(inputs[i], c);
            }
            lemma_canon_output_every_node(output, c);
            assert(canon_args(a) == PathArgs::Paren {
                inputs: canon_tys(inputs),
                output: canon_output(output),
            });
        },
    }
}

proof fn lemma_canon_arg_every_node(g: GenericArg, c: NodeCheck)
    ensures
        every_arg_node(canon_generic_arg(g), c),
    decreases g,
{
    match g {
        GenericArg::Type(t) => lemma_canon_every_node(t, c),
        GenericArg::Binding { ty, .. } => lemma_canon_every_node(ty, c),
        GenericArg::Verbatim(_) => {},
    }
}

/// Path truncation: in the canonical form of any type, every path, however
/// deep, is reduced to its final segment and has no leading `::`.
pub proof fn lemma_paths_truncated(t: Ty)
    ensures
        paths_truncated(canon(t)),
{
    lemma_canon_every_node(t, NodeCheck::ShortPaths);
}

/// Lifetime elision: the canonical form of any type holds no reference that
/// carries a lifetime.
pub proof fn lemma_ref_lifetimes_elided(t: Ty)
    ensures
        no_ref_lifetimes(canon(t)),
{
    lemma_canon_every_node(t, NodeCheck::NoRefLifetimes);
}

/// `b` has the shape of `a`: the same kind of node everywhere, and the same
/// number of tuple elements, function parameters, bounds and generic
/// arguments (of a path's final segment) at every depth.
pub open spec fn same_arity(a: Ty, b: Ty) -> bool
    decreases a,
{
    match (a, b) {
        (Ty::Leaf(_), Ty::Leaf(_)) => true,
        (Ty::Path(p), Ty::Path(q)) => path_arity(p, q),
        (Ty::Ref { elem: x, .. }, Ty::Ref { elem: y, .. }) => same_arity(*x, *y),
        (Ty::Ptr { elem: x, .. }, Ty::Ptr { elem: y, .. }) => same_arity(*x, *y),
        (Ty::Array { elem: x, .. }, Ty::Array { elem: y, .. }) => same_arity(*x, *y),
        (Ty::Slice(x), Ty::Slice(y)) => same_arity(*x, *y),
        (Ty::Tuple(s), Ty::Tuple(u)) => tys_arity(s, u),
        (Ty::Fn { params: s, output: o, .. }, Ty::Fn { params: u, output: w, .. }) => tys_arity(
            s,
            u,
        ) && output_arity(o, w),
        (Ty::Bounds { bounds: s, .. }, Ty::Bounds { bounds: u, .. }) => s.len() == u.len() && (
        forall|i: int| 0 <= i < s.len() ==> bound_arity(#[trigger] s[i], u[i])),
        (Ty::Paren(x), Ty::Paren(y)) => same_arity(*x, *y),
        _ => false,
    }
}

pub open spec fn tys_arity(s: Seq<Ty>, u: Seq<Ty>) -> bool
    decreases s,
{
    s.len() == u.len() && forall|i: int| 0 <= i < s.len() ==> same_arity(#[trigger] s[i], u[i])
}

pub open spec fn output_arity(o: Option<Box<Ty>>, w: Option<Box<Ty>>) -> bool
    decreases o,
{
    match (o, w) {
        (Some(x), Some(y)) => same_arity(*x, *y),
        (None, None) => true,
        _ => false,
    }
}

pub open spec fn bound_arity(a: Bound, b: Bound) -> bool
    decreases a,
{
    match (a, b) {
        (Bound::Trait(p), Bound::Trait(q)) => path_arity(p, q),
        (Bound::Verbatim(_), Bound::Verbatim(_)) => true,
        _ => false,
    }
}

/// Paths agree on whether they have segments, and the final segments agree
/// in arguments.
pub open spec fn path_arity(p: Path, q: Path) -> bool
    decreases p,
{
    (p.segments.len() == 0 <==> q.segments.len() == 0) && (p.segments.len() > 0 ==> args_arity(
        p.segments[p.segments.len() - 1].args,
        q.segments[q.segments.len() - 1].args,
    ))
}

pub open spec fn args_arity(a: PathArgs, b: PathArgs) -> bool
    decreases a,
{
    match (a, b) {
        (PathArgs::Plain, PathArgs::Plain) => true,
        (PathArgs::Angle(s), PathArgs::Angle(u)) => s.len() == u.len() && (forall|i: int|
            0 <= i < s.len() ==> arg_arity(#[trigger] s[i], u[i])),
        (
            PathArgs::Paren { inputs: s, output: o },
            PathArgs::Paren { inputs: u, output: w },
        ) => tys_arity(s, u) && output_arity(o, w),
        _ => false,
    }
}

pub open spec fn arg_arity(a: GenericArg, b: GenericArg) -> bool
    decreases a,
{
    match (a, b) {
        (GenericArg::Type(x), GenericArg::Type(y)) => same_arity(x, y),
        (GenericArg::Binding { ty: x, .. }, GenericArg::Binding { ty: y, .. }) => same_arity(x, y),
        (GenericArg::Verbatim(_), GenericArg::Verbatim(_)) => true,
        _ => false,
    }
}

/// Arity preservation: canonicalization keeps the number of tuple elements,
/// function parameters, bounds and generic arguments at every depth.
pub proof fn lemma_arity_preserved(t: Ty)
    ensures
        same_arity(t, canon(t)),
    decreases t,
{
    match t {
        Ty::Leaf(x) => {
            assert(canon(t) == Ty::Leaf(x));
        },
        Ty::Path(p) => lemma_path_arity_preserved(p),
        Ty::Ref { elem, .. } => lemma_arity_preserved(*elem),
        Ty::Ptr { elem, .. } => lemma_arity_preserved(*elem),
        Ty::Array { elem, .. } => lemma_arity_preserved(*elem),
        Ty::Slice(elem) => lemma_arity_preserved(*elem),
        Ty::Tuple(s) => {
            lemma_tys_arity_preserved(s);
            assert(canon(t) == Ty::Tuple(canon_tys(s)));
        },
        Ty::Fn { qualifiers, params, output } => {
            lemma_tys_arity_preserved(params);
            lemma_output_arity_preserved(output);
            assert(canon(t) == Ty::Fn {
                qualifiers,
                params: canon_tys(params),
                output: canon_output(output),
            });
        },
        Ty::Bounds { dyn_kw, bounds } => {
            assert forall|i: int| 0 <= i < bounds.len() implies bound_arity(
                #[trigger] bounds[i],
                canon_bounds(bounds)[i],
            ) by {
                if let Bound::Trait(p) = bounds[i] {
                    lemma_path_arity_preserved(p);
                }
            }
            assert(canon(t) == Ty::Bounds { dyn_kw, bounds: canon_bounds(bounds) });
        },
        Ty::Paren(elem) => lemma_arity_preserved(*elem),
    }
}

proof fn lemma_tys_arity_preserved(s: Seq<Ty>)
    ensures
        tys_arity(s, canon_tys(s)),
    decreases s,
{
    assert forall|i: int| 0 <= i < s.len() implies same_arity(#[trigger] s[i], canon_tys(s)[i]) by {
        lemma_arity_preserved(s[i]);
    }
}

proof fn lemma_output_arity_preserved(o: Option<Box<Ty>>)
    ensures
        output_arity(o, canon_output(o)),
    decreases o,
{
    if let Some(t) = o {
        lemma_arity_preserved(*t);
    }
}

proof fn lemma_path_arity_preserved(p: Path)
    ensures
        path_arity(p, canon_path(p)),
    decreases p,
{
    if p.segments.len() > 0 {
        let last = p.segments[p.segments.len() - 1];
        assert(decreases_to!(p => p.segments));
        assert(canon_path(p).segments[0] == canon_segment(last));
        match last.args {
            PathArgs::Plain => {},
            PathArgs::Angle(args) => {
                assert forall|i: int| 0 <= i < args.len() implies arg_arity(
                    #[trigger] args[i],
                    canon_generic_args(args)[i],
                ) by {
                    match args[i] {
                        GenericArg::Type(x) => lemma_arity_preserved(x),
                        GenericArg::Binding { ty, .. } => lemma_arity_preserved(ty),
                        GenericArg::Verbatim(_) => {},
                    }
                }
            },
            PathArgs::Paren { inputs, output } => {
                lemma_tys_arity_preserved(inputs);
                lemma_output_arity_preserved(output);
            },
        }
    }
}

/// One level of nesting around a type.
pub enum Layer {
    Array(Seq<char>),
    Slice,
    Ref { lifetime: Option<Seq<char>>, mutable: bool },
    Ptr(bool),
    /// Elements before and after the nested type.
    Tuple(Seq<Ty>, Seq<Ty>),
    /// The only generic argument of a path with these segment names.
    Arg(Seq<Seq<char>>),
}

pub open spec fn wrap(t: Ty, l: Layer) -> Ty {
    match l {
        Layer::Array(len) => Ty::Array { elem: Box::new(t), len },
        Layer::Slice => Ty::Slice(Box::new(t)),
        Layer::Ref { lifetime, mutable } => Ty::Ref { lifetime, mutable, elem: Box::new(t) },
        Layer::Ptr(mutable) => Ty::Ptr { mutable, elem: Box::new(t) },
        Layer::Tuple(before, after) => Ty::Tuple(before + seq![t] + after),
        Layer::Arg(names) => Ty::Path(
            Path {
                leading_colon: false,
                segments: Seq::new(
                    names.len(),
                    |i: int|
                        Segment {
                            ident: names[i],
                            args: if i == names.len() - 1 {
                                PathArgs::Angle(seq![GenericArg::Type(t)])
                            } else {
                                PathArgs::Plain
                            },
                        },
                ),
            },
        ),
    }
}

/// `t` inside the layers, the first layer innermost.
pub open spec fn nest(t: Ty, layers: Seq<Layer>) -> Ty
    decreases layers.len(),
{
    if layers.len() == 0 {
        t
    } else {
        wrap(nest(t, layers.subrange(0, layers.len() - 1)), layers[layers.len() - 1])
    }
}

/// A layer as canonicalization leaves it.
pub open spec fn canon_layer(l: Layer) -> Layer {
    match l {
        Layer::Ref { mutable, .. } => Layer::Ref { lifetime: None, mutable },
        Layer::Tuple(before, after) => Layer::Tuple(canon_tys(before), canon_tys(after)),
        Layer::Arg(names) => Layer::Arg(seq![names[names.len() - 1]]),
        _ => l,
    }
}

pub open spec fn layer_ok(l: Layer) -> bool {
    l matches Layer::Arg(names) ==> names.len() > 0
}

proof fn lemma_canon_wrap(t: Ty, l: Layer)
    requires
        layer_ok(l),
    ensures
        canon(wrap(t, l)) == wrap(canon(t), canon_layer(l)),
{
    match l {
        Layer::Tuple(before, after) => {
            assert(canon_tys(before + seq![t] + after) =~= canon_tys(before) + seq![canon(t)]
                + canon_tys(after));
        },
        Layer::Arg(names) => {
            let p = Path {
                leading_colon: false,
                segments: Seq::new(
                    names.len(),
                    |i: int|
                        Segment {
                            ident: names[i],
                            args: if i == names.len() - 1 {
                                PathArgs::Angle(seq![GenericArg::Type(t)])
                            } else {
                                PathArgs::Plain
                            },
                        },
                ),
            };
            assert(wrap(t, l) == Ty::Path(p));
            let last = p.segments[names.len() - 1];
            assert(last.args == PathArgs::Angle(seq![GenericArg::Type(t)]));
            assert(canon_generic_args(seq![GenericArg::Type(t)]) =~= seq![
                GenericArg::Type(canon(t)),
            ]);
            let q = Path {
                leading_colon: false,
                segments: Seq::new(
                    1,
                    |i: int|
                        Segment {
                            ident: seq![names[names.len() - 1]][i],
                            args: if i == 0 {
                                PathArgs::Angle(seq![GenericArg::Type(canon(t))])
                            } else {
                                PathArgs::Plain
                            },
                        },
                ),
            };
            assert(wrap(canon(t), canon_layer(l)) == Ty::Path(q));
            assert(canon_path(p).segments =~= q.segments);
        },
        _ => {},
    }
}

/// Structural recursion: however deep a type sits inside arrays, slices,
/// tuples, references, pointers and generic arguments, canonicalizing the
/// whole canonicalizes the inner type in place, and every path at every level
/// ends up truncated.
pub proof fn lemma_nested_canonical(t: Ty, layers: Seq<Layer>)
    requires
        forall|i: int| 0 <= i < layers.len() ==> layer_ok(#[trigger] layers[i]),
    ensures
        canon(nest(t, layers)) == nest(canon(t), layers.map_values(|l: Layer| canon_layer(l))),
        paths_truncated(canon(nest(t, layers))),
    decreases layers.len(),
{
    let cl = layers.map_values(|l: Layer| canon_layer(l));
    if layers.len() > 0 {
        let n = layers.len() - 1;
        let inner = layers.subrange(0, n);
        lemma_nested_canonical(t, inner);
        assert(inner.map_values(|l: Layer| canon_layer(l)) =~= cl.subrange(0, n));
        lemma_canon_wrap(nest(t, inner), layers[n]);
    }
    lemma_paths_truncated(nest(t, layers));
}

/// What a name says of its descriptor: where the descriptor parses to `t`, `t`
/// reads back as the descriptor, and the name is the text of the canonical
/// form of `t`, which has the shape of `t`, truncated paths and no reference
/// lifetimes; where it does not parse, the name is `<error>`.
pub proof fn lemma_canonical_name_laws(d: Seq<char>)
    ensures
        descriptor_tree(d) matches Some(t) ==> {
            &&& text(t) == d
            &&& canonical_text(d) == text(canon(t))
            &&& paths_truncated(canon(t))
            &&& no_ref_lifetimes(canon(t))
            &&& same_arity(t, canon(t))
        },
        descriptor_tree(d) is None ==> canonical_text(d) == "<error>"@,
{
    lemma_descriptor_round_trip(d);
    if let Some(t) = descriptor_tree(d) {
        lemma_paths_truncated(t);
        lemma_ref_lifetimes_elided(t);
        lemma_arity_preserved(t);
    }
}

/// Canonicalizing twice gives what canonicalizing once gives.
pub proof fn lemma_canonical_fixed_point(t: Ty)
    ensures
        canon(canon(t)) == canon(t),
    decreases t,
{
    match t {
        Ty::Leaf(x) => {
            assert(canon(t) == Ty::Leaf(x));
        },
        Ty::Path(p) => lemma_canon_path_fixed_point(p),
        Ty::Ref { elem, .. } => lemma_canonical_fixed_point(*elem),
        Ty::Ptr { elem, .. } => lemma_canonical_fixed_point(*elem),
        Ty::Array { elem, .. } => lemma_canonical_fixed_point(*elem),
        Ty::Slice(elem) => lemma_canonical_fixed_point(*elem),
        Ty::Tuple(s) => {
            lemma_canon_tys_fixed_point(s);
            assert(canon(t) == Ty::Tuple(canon_tys(s)));
        },
        Ty::Fn { qualifiers, params, output } => {
            lemma_canon_tys_fixed_point(params);
            lemma_canon_output_fixed_point(output);
            assert(canon(t) == Ty::Fn {
                qualifiers,
                params: canon_tys(params),
                output: canon_output(output),
            });
        },
        Ty::Bounds { dyn_kw, bounds } => {
            let c = canon_bounds(bounds);
            assert forall|i: int| 0 <= i < bounds.len() implies #[trigger] canon_bounds(c)[i]
                == c[i] by {
                if let Bound::Trait(p) = bounds[i] {
                    lemma_canon_path_fixed_point(p);
                }
                assert(c[i] == canon_bound(bounds[i]));
                assert(canon_bounds(c)[i] == canon_bound(c[i]));
            }
            assert(canon_bounds(c) =~= c);
            assert(canon(t) == Ty::Bounds { dyn_kw, bounds: canon_bounds(bounds) });
        },
        Ty::Paren(elem) => lemma_canonical_fixed_point(*elem),
    }
}

proof fn lemma_canon_tys_fixed_point(s: Seq<Ty>)
    ensures
        canon_tys(canon_tys(s)) == canon_tys(s),
    decreases s,
{
    let c = canon_tys(s);
    assert forall|i: int| 0 <= i < s.len() implies #[trigger] canon_tys(c)[i] == c[i] by {
        lemma_canonical_fixed_point(s[i]);
        assert(c[i] == canon(s[i]));
        assert(canon_tys(c)[i] == canon(c[i]));
    }
    assert(canon_tys(c) =~= c);
}

proof fn lemma_canon_output_fixed_point(o: Option<Box<Ty>>)
    ensures
        canon_output(canon_output(o)) == canon_output(o),
    decreases o,
{
    if let Some(t) = o {
        lemma_canonical_fixed_point(*t);
    }
}

proof fn lemma_canon_path_fixed_point(p: Path)
    ensures
        canon_path(canon_path(p)) == canon_path(p),
    decreases p,
{
    if p.segments.len() > 0 {
        let last = p.segments[p.segments.len() - 1];
        assert(decreases_to!(p => p.segments));
        let c = canon_segment(last);
        assert(canon_path(p).segments == seq![c]);
        lemma_canon_args_fixed_point(last.args);
        assert(canon_segment(c) == c);
        assert(canon_path(canon_path(p)).segments =~= canon_path(p).segments);
    } else {
        assert(canon_path(canon_path(p)).segments =~= canon_path(p).segments);
    }
}

proof fn lemma_canon_args_fixed_point(a: PathArgs)
    ensures
        canon_args(canon_args(a)) == canon_args(a),
    decreases a,
{
    match a {
        PathArgs::Plain => {
            assert(canon_args(a) == PathArgs::Plain);
        },
        PathArgs::Angle(args) => {
            let c = canon_generic_args(args);
            assert forall|i: int| 0 <= i < args.len() implies #[trigger] canon_generic_args(c)[i]
                == c[i] by {
                match args[i] {
                    GenericArg::Type(x) => lemma_canonical_fixed_point(x),
                    GenericArg::Binding { ty, .. } => lemma_canonical_fixed_point(ty),
                    GenericArg::Verbatim(_) => {},
                }
                assert(c[i] == canon_generic_arg(args[i]));
                assert(canon_generic_args(c)[i] == canon_generic_arg(c[i]));
            }
            assert(canon_generic_args(c) =~= c);
            assert(canon_args(a) == PathArgs::Angle(c));
        },
        PathArgs::Paren { inputs, output } => {
            lemma_canon_tys_fixed_point(inputs);
            lemma_canon_output_fixed_point(output);
            assert(canon_args(a) == PathArgs::Paren {
                inputs: canon_tys(inputs),
                output: canon_output(output),
            });
        },
    }
}

/// Repeated lookup: once a key has been looked up, a second lookup of the same
/// key returns the same name, whatever descriptor comes with it, and leaves
/// the cache as it was.
pub proof fn lemma_lookup_idempotent(
    before: Map<TypeId, Seq<char>>,
    mid: Map<TypeId, Seq<char>>,
    after: Map<TypeId, Seq<char>>,
    key: TypeId,
    d1: Seq<char>,
    d2: Seq<char>,
    r1: Seq<char>,
    r2: Seq<char>,
)
    requires
        lookup_outcome(before, mid, key, d1, r1),
        lookup_outcome(mid, after, key, d2, r2),
    ensures
        r2 == r1,
        after == mid,
{
}

} // verus!
