use vstd::prelude::*;

use crate::model::{Bound, GenericArg, Path, PathArgs, Segment, Ty};

verus! {

broadcast use vstd::std_specs::vec::axiom_vec_index_decreases;

/// A parsed type descriptor: one node per type position.
pub enum TypeExpr {
    /// A token with nothing to simplify, such as the never type `!`.
    Leaf(String),
    Path(TypePath),
    Ref { lifetime: Option<String>, mutable: bool, elem: Box<TypeExpr> },
    Ptr { mutable: bool, elem: Box<TypeExpr> },
    Array { elem: Box<TypeExpr>, len: String },
    Slice(Box<TypeExpr>),
    Tuple(Vec<TypeExpr>),
    /// `qualifiers` is the text before `fn`, with its trailing space (`unsafe `).
    Fn { qualifiers: String, params: Vec<TypeExpr>, output: Option<Box<TypeExpr>> },
    /// `dyn A + B` when `dyn_kw` holds, `impl A + B` otherwise.
    Bounds { dyn_kw: bool, bounds: Vec<TypeBound> },
    Paren(Box<TypeExpr>),
}

pub struct TypePath {
    pub leading_colon: bool,
    pub segments: Vec<PathSegment>,
}

pub struct PathSegment {
    pub ident: String,
    pub args: SegmentArgs,
}

pub enum SegmentArgs {
    Plain,
    Angle(Vec<TypeArg>),
    Paren { inputs: Vec<TypeExpr>, output: Option<Box<TypeExpr>> },
}

pub enum TypeArg {
    Type(TypeExpr),
    Binding { name: String, ty: TypeExpr },
    /// A lifetime or a constant, kept as written.
    Verbatim(String),
}

pub enum TypeBound {
    Trait(TypePath),
    /// A lifetime bound, kept as written.
    Verbatim(String),
}

pub open spec fn ty_of(t: TypeExpr) -> Ty
    decreases t,
{
    match t {
        TypeExpr::Leaf(x) => Ty::Leaf(x@),
        TypeExpr::Path(p) => Ty::Path(path_of(p)),
        TypeExpr::Ref { lifetime, mutable, elem } => Ty::Ref {
            lifetime: match lifetime {
                Some(l) => Some(l@),
                None => None,
            },
            mutable,
            elem: Box::new(ty_of(*elem)),
        },
        TypeExpr::Ptr { mutable, elem } => Ty::Ptr { mutable, elem: Box::new(ty_of(*elem)) },
        TypeExpr::Array { elem, len } => Ty::Array { elem: Box::new(ty_of(*elem)), len: len@ },
        TypeExpr::Slice(elem) => Ty::Slice(Box::new(ty_of(*elem))),
        TypeExpr::Tuple(elems) => Ty::Tuple(tys_of(elems)),
        TypeExpr::Fn { qualifiers, params, output } => Ty::Fn {
            qualifiers: qualifiers@,
            params: tys_of(params),
            output: output_of(output),
        },
        TypeExpr::Bounds { dyn_kw, bounds } => Ty::Bounds { dyn_kw, bounds: bounds_of(bounds) },
        TypeExpr::Paren(elem) => Ty::Paren(Box::new(ty_of(*elem))),
    }
}

pub open spec fn tys_of(v: Vec<TypeExpr>) -> Seq<Ty>
    decreases v,
{
    Seq::new(
        v@.len(),
        |i: int|
            if 0 <= i < v@.len() {
                ty_of(v[i])
            } else {
                Ty::Leaf(Seq::empty())
            },
    )
}

pub open spec fn output_of(o: Option<Box<TypeExpr>>) -> Option<Box<Ty>>
    decreases o,
{
    match o {
        Some(t) => Some(Box::new(ty_of(*t))),
        None => None,
    }
}

pub open spec fn bounds_of(v: Vec<TypeBound>) -> Seq<Bound>
    decreases v,
{
    Seq::new(
        v@.len(),
        |i: int|
            if 0 <= i < v@.len() {
                bound_of(v[i])
            } else {
                Bound::Verbatim(Seq::empty())
            },
    )
}

pub open spec fn bound_of(b: TypeBound) -> Bound
    decreases b,
{
    match b {
        TypeBound::Trait(p) => Bound::Trait(path_of(p)),
        TypeBound::Verbatim(x) => Bound::Verbatim(x@),
    }
}

pub open spec fn path_of(p: TypePath) -> Path
    decreases p,
{
    Path { leading_colon: p.leading_colon, segments: segments_of(p.segments) }
}

pub open spec fn segments_of(v: Vec<PathSegment>) -> Seq<Segment>
    decreases v,
{
    Seq::new(
        v@.len(),
        |i: int|
            if 0 <= i < v@.len() {
                segment_of(v[i])
            } else {
                Segment { ident: Seq::empty(), args: PathArgs::Plain }
            },
    )
}

pub open spec fn segment_of(s: PathSegment) -> Segment
    decreases s,
{
    Segment { ident: s.ident@, args: args_of(s.args) }
}

pub open spec fn args_of(a: SegmentArgs) -> PathArgs
    decreases a,
{
    match a {
        SegmentArgs::Plain => PathArgs::Plain,
        SegmentArgs::Angle(args) => PathArgs::Angle(generic_args_of(args)),
        SegmentArgs::Paren { inputs, output } => PathArgs::Paren {
            inputs: tys_of(inputs),
            output: output_of(output),
        },
    }
}

pub open spec fn generic_args_of(v: Vec<TypeArg>) -> Seq<GenericArg>
    decreases v,
{
    Seq::new(
        v@.len(),
        |i: int|
            if 0 <= i < v@.len() {
                generic_arg_of(v[i])
            } else {
                GenericArg::Verbatim(Seq::empty())
            },
    )
}

pub open spec fn generic_arg_of(g: TypeArg) -> GenericArg
    decreases g,
{
    match g {
        TypeArg::Type(t) => GenericArg::Type(ty_of(t)),
        TypeArg::Binding { name, ty } => GenericArg::Binding { name: name@, ty: ty_of(ty) },
        TypeArg::Verbatim(x) => GenericArg::Verbatim(x@),
    }
}

impl View for TypeExpr {
    type V = Ty;

    open spec fn view(&self) -> Ty {
        ty_of(*self)
    }
}

impl View for TypePath {
    type V = Path;

    open spec fn view(&self) -> Path {
        path_of(*self)
    }
}

} // verus!
