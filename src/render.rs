use vstd::prelude::*;

use crate::text::{
    bound_text,
    bounds_text,
    generic_arg_text,
    generic_args_text,
    output_text,
    path_text,
    segment_text,
    segments_text,
    text,
    tys_text,
};
use crate::tree::{
    bound_of,
    bounds_of,
    generic_arg_of,
    generic_args_of,
    output_of,
    path_of,
    segment_of,
    segments_of,
    tys_of,
    ty_of,
    PathSegment,
    SegmentArgs,
    TypeArg,
    TypeBound,
    TypeExpr,
    TypePath,
};

verus! {

broadcast use vstd::std_specs::vec::axiom_vec_index_decreases;

/// The source text of a type tree.
pub fn render(t: &TypeExpr) -> (r: String)
    ensures
        r@ == text(t@),
{
    let mut out = String::new();
    write_type(t, &mut out);
    proof {
        assert(out@ =~= text(t@));
    }
    out
}

fn write_type(t: &TypeExpr, out: &mut String)
    ensures
        final(out)@ == old(out)@ + text(ty_of(*t)),
    decreases t,
{
    let ghost start = out@;
    match t {
        TypeExpr::Leaf(x) => {
            out.append(x.as_str());
        },
        TypeExpr::Path(p) => {
            write_path(p, out);
        },
        TypeExpr::Ref { lifetime, mutable, elem } => {
            out.append("&");
            match lifetime {
                Some(l) => {
                    out.append(l.as_str());
                    out.append(" ");
                },
                None => {},
            }
            if *mutable {
                out.append("mut ");
            }
            write_type(elem, out);
        },
        TypeExpr::Ptr { mutable, elem } => {
            if *mutable {
                out.append("*mut ");
            } else {
                out.append("*const ");
            }
            write_type(elem, out);
        },
        TypeExpr::Array { elem, len } => {
            out.append("[");
            write_type(elem, out);
            out.append("; ");
            out.append(len.as_str());
            out.append("]");
        },
        TypeExpr::Slice(elem) => {
            out.append("[");
            write_type(elem, out);
            out.append("]");
        },
        TypeExpr::Tuple(elems) => {
            out.append("(");
            write_types(elems, out);
            if elems.len() == 1 {
                out.append(",");
            }
            out.append(")");
        },
        TypeExpr::Fn { qualifiers, params, output } => {
            out.append(qualifiers.as_str());
            out.append("fn(");
            write_types(params, out);
            out.append(")");
            write_output(output, out);
        },
        TypeExpr::Bounds { dyn_kw, bounds } => {
            if *dyn_kw {
                out.append("dyn ");
            } else {
                out.append("impl ");
            }
            write_bounds(bounds, out);
        },
        TypeExpr::Paren(elem) => {
            out.append("(");
            write_type(elem, out);
            out.append(")");
        },
    }
    proof {
        assert(out@ =~= start + text(ty_of(*t)));
    }
}

fn write_types(v: &Vec<TypeExpr>, out: &mut String)
    ensures
        final(out)@ == old(out)@ + tys_text(tys_of(*v)),
    decreases v,
{
    let ghost start = out@;
    let ghost s = tys_of(*v);
    let mut i: usize = 0;
    while i < v.len()
        invariant
            i <= v@.len(),
            s == tys_of(*v),
            out@ == start + tys_text(s.subrange(0, i as int)),
        decreases v@.len() - i,
    {
        proof {
            assert(decreases_to!(v => v[i as int]));
            assert(s.subrange(0, i as int + 1).subrange(0, i as int) =~= s.subrange(0, i as int));
        }
        if i > 0 {
            out.append(", ");
        }
        write_type(&v[i], out);
        proof {
            assert(out@ =~= start + tys_text(s.subrange(0, i as int + 1)));
        }
        i = i + 1;
    }
    proof {
        assert(s.subrange(0, s.len() as int) =~= s);
    }
}

fn write_output(o: &Option<Box<TypeExpr>>, out: &mut String)
    ensures
        final(out)@ == old(out)@ + output_text(output_of(*o)),
    decreases o,
{
    let ghost start = out@;
    match o {
        Some(t) => {
            out.append(" -> ");
            write_type(t, out);
        },
        None => {},
    }
    proof {
        assert(out@ =~= start + output_text(output_of(*o)));
    }
}

fn write_bounds(v: &Vec<TypeBound>, out: &mut String)
    ensures
        final(out)@ == old(out)@ + bounds_text(bounds_of(*v)),
    decreases v,
{
    let ghost start = out@;
    let ghost s = bounds_of(*v);
    let mut i: usize = 0;
    while i < v.len()
        invariant
            i <= v@.len(),
            s == bounds_of(*v),
            out@ == start + bounds_text(s.subrange(0, i as int)),
        decreases v@.len() - i,
    {
        proof {
            assert(decreases_to!(v => v[i as int]));
            assert(s.subrange(0, i as int + 1).subrange(0, i as int) =~= s.subrange(0, i as int));
        }
        if i > 0 {
            out.append(" + ");
        }
        write_bound(&v[i], out);
        proof {
            assert(out@ =~= start + bounds_text(s.subrange(0, i as int + 1)));
        }
        i = i + 1;
    }
    proof {
        assert(s.subrange(0, s.len() as int) =~= s);
    }
}

fn write_bound(b: &TypeBound, out: &mut String)
    ensures
        final(out)@ == old(out)@ + bound_text(bound_of(*b)),
    decreases b,
{
    match b {
        TypeBound::Trait(p) => write_path(p, out),
        TypeBound::Verbatim(x) => out.append(x.as_str()),
    }
}

fn write_path(p: &TypePath, out: &mut String)
    ensures
        final(out)@ == old(out)@ + path_text(path_of(*p)),
    decreases p,
{
    let ghost start = out@;
    let ghost s = segments_of(p.segments);
    if p.leading_colon {
        out.append("::");
    }
    let ghost mid = out@;
    let mut i: usize = 0;
    while i < p.segments.len()
        invariant
            i <= p.segments@.len(),
            s == segments_of(p.segments),
            out@ == mid + segments_text(s.subrange(0, i as int)),
        decreases p.segments@.len() - i,
    {
        proof {
            assert(decreases_to!(p => p.segments));
            assert(decreases_to!(p.segments => p.segments[i as int]));
            assert(s.subrange(0, i as int + 1).subrange(0, i as int) =~= s.subrange(0, i as int));
        }
        if i > 0 {
            out.append("::");
        }
        write_segment(&p.segments[i], out);
        proof {
            assert(out@ =~= mid + segments_text(s.subrange(0, i as int + 1)));
        }
        i = i + 1;
    }
    proof {
        assert(s.subrange(0, s.len() as int) =~= s);
        assert(out@ =~= start + path_text(path_of(*p)));
    }
}

fn write_segment(s: &PathSegment, out: &mut String)
    ensures
        final(out)@ == old(out)@ + segment_text(segment_of(*s)),
    decreases s,
{
    let ghost start = out@;
    out.append(s.ident.as_str());
    match &s.args {
        SegmentArgs::Plain => {},
        SegmentArgs::Angle(args) => {
            out.append("<");
            write_generic_args(args, out);
            out.append(">");
        },
        SegmentArgs::Paren { inputs, output } => {
            out.append("(");
            write_types(inputs, out);
            out.append(")");
            write_output(output, out);
        },
    }
    proof {
        assert(out@ =~= start + segment_text(segment_of(*s)));
    }
}

fn write_generic_args(v: &Vec<TypeArg>, out: &mut String)
    ensures
        final(out)@ == old(out)@ + generic_args_text(generic_args_of(*v)),
    decreases v,
{
    let ghost start = out@;
    let ghost s = generic_args_of(*v);
    let mut i: usize = 0;
    while i < v.len()
        invariant
            i <= v@.len(),
            s == generic_args_of(*v),
            out@ == start + generic_args_text(s.subrange(0, i as int)),
        decreases v@.len() - i,
    {
        proof {
            assert(decreases_to!(v => v[i as int]));
            assert(s.subrange(0, i as int + 1).subrange(0, i as int) =~= s.subrange(0, i as int));
        }
        if i > 0 {
            out.append(", ");
        }
        write_generic_arg(&v[i], out);
        proof {
            assert(out@ =~= start + generic_args_text(s.subrange(0, i as int + 1)));
        }
        i = i + 1;
    }
    proof {
        assert(s.subrange(0, s.len() as int) =~= s);
    }
}

fn write_generic_arg(g: &TypeArg, out: &mut String)
    ensures
        final(out)@ == old(out)@ + generic_arg_text(generic_arg_of(*g)),
    decreases g,
{
    let ghost start = out@;
    match g {
        TypeArg::Type(t) => write_type(t, out),
        TypeArg::Binding { name, ty } => {
            out.append(name.as_str());
            out.append(" = ");
            write_type(ty, out);
        },
        TypeArg::Verbatim(x) => out.append(x.as_str()),
    }
    proof {
        assert(out@ =~= start + generic_arg_text(generic_arg_of(*g)));
    }
}

} // verus!
