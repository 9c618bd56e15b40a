use vstd::prelude::*;

verus! {

broadcast use vstd::seq::group_seq_axioms;

/// Mathematical model of one type position of a descriptor.
pub enum Ty {
    /// A token with nothing to simplify, such as the never type `!`.
    Leaf(Seq<char>),
    Path(Path),
    Ref { lifetime: Option<Seq<char>>, mutable: bool, elem: Box<Ty> },
    Ptr { mutable: bool, elem: Box<Ty> },
    Array { elem: Box<Ty>, len: Seq<char> },
    Slice(Box<Ty>),
    Tuple(Seq<Ty>),
    /// `qualifiers` is the text before `fn`, with its trailing space (`unsafe `).
    Fn { qualifiers: Seq<char>, params: Seq<Ty>, output: Option<Box<Ty>> },
    /// `dyn A + B` when `dyn_kw` holds, `impl A + B` otherwise.
    Bounds { dyn_kw: bool, bounds: Seq<Bound> },
    Paren(Box<Ty>),
}

pub struct Path {
    pub leading_colon: bool,
    pub segments: Seq<Segment>,
}

pub struct Segment {
    pub ident: Seq<char>,
    pub args: PathArgs,
}

pub enum PathArgs {
    Plain,
    Angle(Seq<GenericArg>),
    Paren { inputs: Seq<Ty>, output: Option<Box<Ty>> },
}

pub enum GenericArg {
    Type(Ty),
    Binding { name: Seq<char>, ty: Ty },
    /// A lifetime or a constant, kept as written.
    Verbatim(Seq<char>),
}

pub enum Bound {
    Trait(Path),
    /// A lifetime bound, kept as written.
    Verbatim(Seq<char>),
}

// ---------------------------------------------------------------------------
// Canonical form: paths cut to their last segment, reference lifetimes gone.
// ---------------------------------------------------------------------------

pub open spec fn canon(t: Ty) -> Ty
    decreases t,
{
    match t {
        Ty::Leaf(x) => Ty::Leaf(x),
        Ty::Path(p) => Ty::Path(canon_path(p)),
        Ty::Ref { lifetime, mutable, elem } => Ty::Ref {
            lifetime: None,
            mutable,
            elem: Box::new(canon(*elem)),
        },
        Ty::Ptr { mutable, elem } => Ty::Ptr { mutable, elem: Box::new(canon(*elem)) },
        Ty::Array { elem, len } => Ty::Array { elem: Box::new(canon(*elem)), len },
        Ty::Slice(elem) => Ty::Slice(Box::new(canon(*elem))),
        Ty::Tuple(elems) => Ty::Tuple(canon_tys(elems)),
        Ty::Fn { qualifiers, params, output } => Ty::Fn {
            qualifiers,
            params: canon_tys(params),
            output: canon_output(output),
        },
        Ty::Bounds { dyn_kw, bounds } => Ty::Bounds { dyn_kw, bounds: canon_bounds(bounds) },
        Ty::Paren(elem) => Ty::Paren(Box::new(canon(*elem))),
    }
}

pub open spec fn canon_tys(s: Seq<Ty>) -> Seq<Ty>
    decreases s,
{
    Seq::new(
        s.len(),
        |i: int|
            if 0 <= i < s.len() {
                canon(s[i])
            } else {
                Ty::Leaf(Seq::empty())
            },
    )
}

pub open spec fn canon_output(o: Option<Box<Ty>>) -> Option<Box<Ty>>
    decreases o,
{
    match o {
        Some(t) => Some(Box::new(canon(*t))),
        None => None,
    }
}

pub open spec fn canon_bounds(s: Seq<Bound>) -> Seq<Bound>
    decreases s,
{
    Seq::new(
        s.len(),
        |i: int|
            if 0 <= i < s.len() {
                canon_bound(s[i])
            } else {
                Bound::Verbatim(Seq::empty())
            },
    )
}

pub open spec fn canon_bound(b: Bound) -> Bound
    decreases b,
{
    match b {
        Bound::Trait(p) => Bound::Trait(canon_path(p)),
        Bound::Verbatim(x) => Bound::Verbatim(x),
    }
}

/// Only the last segment is kept, its arguments canonical; the leading `::` goes.
pub open spec fn canon_path(p: Path) -> Path
    decreases p,
{
    if p.segments.len() == 0 {
        Path { leading_colon: false, segments: Seq::empty() }
    } else {
        Path {
            leading_colon: false,
            segments: seq![canon_segment(p.segments[p.segments.len() - 1])],
        }
    }
}

pub open spec fn canon_segment(s: Segment) -> Segment
    decreases s,
{
    Segment { ident: s.ident, args: canon_args(s.args) }
}

pub open spec fn canon_args(a: PathArgs) -> PathArgs
    decreases a,
{
    match a {
        PathArgs::Plain => PathArgs::Plain,
        PathArgs::Angle(args) => PathArgs::Angle(canon_generic_args(args)),
        PathArgs::Paren { inputs, output } => PathArgs::Paren {
            inputs: canon_tys(inputs),
            output: canon_output(output),
        },
    }
}

pub open spec fn canon_generic_args(s: Seq<GenericArg>) -> Seq<GenericArg>
    decreases s,
{
    Seq::new(
        s.len(),
        |i: int|
            if 0 <= i < s.len() {
                canon_generic_arg(s[i])
            } else {
                GenericArg::Verbatim(Seq::empty())
            },
    )
}

pub open spec fn canon_generic_arg(g: GenericArg) -> GenericArg
    decreases g,
{
    match g {
        GenericArg::Type(t) => GenericArg::Type(canon(t)),
        GenericArg::Binding { name, ty } => GenericArg::Binding { name, ty: canon(ty) },
        GenericArg::Verbatim(x) => GenericArg::Verbatim(x),
    }
}

} // verus!
