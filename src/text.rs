use vstd::prelude::*;

use crate::model::{Bound, GenericArg, Path, PathArgs, Segment, Ty};

verus! {

broadcast use vstd::seq::group_seq_axioms;

/// The source text of a type, spaced the way descriptors and rustfmt space it:
/// `&mut T`, `[T; N]`, `(A, B)`, `(A,)`, `fn(A) -> B`, `dyn A + B`.
pub open spec fn text(t: Ty) -> Seq<char>
    decreases t,
{
    match t {
        Ty::Leaf(x) => x,
        Ty::Path(p) => path_text(p),
        Ty::Ref { lifetime, mutable, elem } => "&"@ + lifetime_text(lifetime) + (if mutable {
            "mut "@
        } else {
            Seq::empty()
        }) + text(*elem),
        Ty::Ptr { mutable, elem } => (if mutable {
            "*mut "@
        } else {
            "*const "@
        }) + text(*elem),
        Ty::Array { elem, len } => "["@ + text(*elem) + "; "@ + len + "]"@,
        Ty::Slice(elem) => "["@ + text(*elem) + "]"@,
        Ty::Tuple(elems) => "("@ + tys_text(elems) + (if elems.len() == 1 {
            ","@
        } else {
            Seq::empty()
        }) + ")"@,
        Ty::Fn { qualifiers, params, output } => qualifiers + "fn("@ + tys_text(params) + ")"@
            + output_text(output),
        Ty::Bounds { dyn_kw, bounds } => (if dyn_kw {
            "dyn "@
        } else {
            "impl "@
        }) + bounds_text(bounds),
        Ty::Paren(elem) => "("@ + text(*elem) + ")"@,
    }
}

pub open spec fn lifetime_text(l: Option<Seq<char>>) -> Seq<char> {
    match l {
        Some(x) => x + " "@,
        None => Seq::empty(),
    }
}

/// The types of a list, separated by `, `.
pub open spec fn tys_text(s: Seq<Ty>) -> Seq<char>
    decreases s,
{
    if s.len() == 0 {
        Seq::empty()
    } else if s.len() == 1 {
        text(s[0])
    } else {
        tys_text(s.subrange(0, s.len() - 1)) + ", "@ + text(s[s.len() - 1])
    }
}

pub open spec fn output_text(o: Option<Box<Ty>>) -> Seq<char>
    decreases o,
{
    match o {
        Some(t) => " -> "@ + text(*t),
        None => Seq::empty(),
    }
}

/// The bounds of a trait object, separated by ` + `.
pub open spec fn bounds_text(s: Seq<Bound>) -> Seq<char>
    decreases s,
{
    if s.len() == 0 {
        Seq::empty()
    } else if s.len() == 1 {
        bound_text(s[0])
    } else {
        bounds_text(s.subrange(0, s.len() - 1)) + " + "@ + bound_text(s[s.len() - 1])
    }
}

pub open spec fn bound_text(b: Bound) -> Seq<char>
    decreases b,
{
    match b {
        Bound::Trait(p) => path_text(p),
        Bound::Verbatim(x) => x,
    }
}

pub open spec fn path_text(p: Path) -> Seq<char>
    decreases p,
{
    (if p.leading_colon {
        "::"@
    } else {
        Seq::empty()
    }) + segments_text(p.segments)
}

/// The segments of a path, separated by `::`.
pub open spec fn segments_text(s: Seq<Segment>) -> Seq<char>
    decreases s,
{
    if s.len() == 0 {
        Seq::empty()
    } else if s.len() == 1 {
        segment_text(s[0])
    } else {
        segments_text(s.subrange(0, s.len() - 1)) + "::"@ + segment_text(s[s.len() - 1])
    }
}

pub open spec fn segment_text(s: Segment) -> Seq<char>
    decreases s,
{
    s.ident + args_text(s.args)
}

pub open spec fn args_text(a: PathArgs) -> Seq<char>
    decreases a,
{
    match a {
        PathArgs::Plain => Seq::empty(),
        PathArgs::Angle(args) => "<"@ + generic_args_text(args) + ">"@,
        PathArgs::Paren { inputs, output } => "("@ + tys_text(inputs) + ")"@ + output_text(
            output,
        ),
    }
}

/// The arguments between angle brackets, separated by `, `.
pub open spec fn generic_args_text(s: Seq<GenericArg>) -> Seq<char>
    decreases s,
{
    if s.len() == 0 {
        Seq::empty()
    } else if s.len() == 1 {
        generic_arg_text(s[0])
    } else {
        generic_args_text(s.subrange(0, s.len() - 1)) + ", "@ + generic_arg_text(s[s.len() - 1])
    }
}

pub open spec fn generic_arg_text(g: GenericArg) -> Seq<char>
    decreases g,
{
    match g {
        GenericArg::Type(t) => text(t),
        GenericArg::Binding { name, ty } => name + " = "@ + text(ty),
        GenericArg::Verbatim(x) => x,
    }
}

} // verus!
