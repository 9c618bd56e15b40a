use vstd::prelude::*;

use crate::grammar::{
    bound_at,
    bounds_at,
    descriptor_tree,
    generic_arg_at,
    generic_args_at,
    in_class,
    lifetime_len,
    lit_at,
    paren_at,
    path_at,
    qualifiers_len,
    run_len,
    segment_at,
    segments_at,
    tys_at,
    ty_at,
    word_len,
    DIGITS,
    IDENT_CHARS,
    NOT_QUOTE,
};
use crate::round_trip::lemma_descriptor_round_trip;
use crate::text::text;
use crate::model::{Bound, GenericArg, Path, Segment, Ty};
use crate::tree::{
    bound_of,
    bounds_of,
    generic_arg_of,
    generic_args_of,
    output_of,
    path_of,
    segment_of,
    segments_of,
    tys_of,
    ty_of,
    PathSegment,
    SegmentArgs,
    TypeArg,
    TypeBound,
    TypeExpr,
    TypePath,
};

verus! {

broadcast use vstd::seq::group_seq_axioms;

/// `r` is what the grammar gives: the same tree and the same length, or nothing.
pub open spec fn ty_result(r: Option<(TypeExpr, usize)>, m: Option<(Ty, nat)>) -> bool {
    match (r, m) {
        (Some((e, n)), Some((t, k))) => ty_of(e) == t && n == k,
        (None, None) => true,
        _ => false,
    }
}

pub open spec fn tys_result(r: Option<(Vec<TypeExpr>, usize)>, m: Option<(Seq<Ty>, nat)>) -> bool {
    match (r, m) {
        (Some((e, n)), Some((t, k))) => tys_of(e) == t && n == k,
        (None, None) => true,
        _ => false,
    }
}

pub open spec fn paren_result(
    r: Option<(Vec<TypeExpr>, Option<Box<TypeExpr>>, usize)>,
    m: Option<(Seq<Ty>, Option<Box<Ty>>, nat)>,
) -> bool {
    match (r, m) {
        (Some((e, o, n)), Some((t, p, k))) => tys_of(e) == t && output_of(o) == p && n == k,
        (None, None) => true,
        _ => false,
    }
}

pub open spec fn path_result(r: Option<(TypePath, usize)>, m: Option<(Path, nat)>) -> bool {
    match (r, m) {
        (Some((e, n)), Some((t, k))) => path_of(e) == t && n == k,
        (None, None) => true,
        _ => false,
    }
}

pub open spec fn segments_result(
    r: Option<(Vec<PathSegment>, usize)>,
    m: Option<(Seq<Segment>, nat)>,
) -> bool {
    match (r, m) {
        (Some((e, n)), Some((t, k))) => segments_of(e) == t && n == k,
        (None, None) => true,
        _ => false,
    }
}

pub open spec fn segment_result(r: Option<(PathSegment, usize)>, m: Option<(Segment, nat)>) -> bool {
    match (r, m) {
        (Some((e, n)), Some((t, k))) => segment_of(e) == t && n == k,
        (None, None) => true,
        _ => false,
    }
}

pub open spec fn generic_args_result(
    r: Option<(Vec<TypeArg>, usize)>,
    m: Option<(Seq<GenericArg>, nat)>,
) -> bool {
    match (r, m) {
        (Some((e, n)), Some((t, k))) => generic_args_of(e) == t && n == k,
        (None, None) => true,
        _ => false,
    }
}

pub open spec fn generic_arg_result(r: Option<(TypeArg, usize)>, m: Option<(GenericArg, nat)>) -> bool {
    match (r, m) {
        (Some((e, n)), Some((t, k))) => generic_arg_of(e) == t && n == k,
        (None, None) => true,
        _ => false,
    }
}

pub open spec fn bounds_result(r: Option<(Vec<TypeBound>, usize)>, m: Option<(Seq<Bound>, nat)>) -> bool {
    match (r, m) {
        (Some((e, n)), Some((t, k))) => bounds_of(e) == t && n == k,
        (None, None) => true,
        _ => false,
    }
}

pub open spec fn bound_result(r: Option<(TypeBound, usize)>, m: Option<(Bound, nat)>) -> bool {
    match (r, m) {
        (Some((e, n)), Some((t, k))) => bound_of(e) == t && n == k,
        (None, None) => true,
        _ => false,
    }
}

/// The tree of a type descriptor, when the descriptor is one type and nothing
/// more. The tree's text is the descriptor itself.
pub fn parse_descriptor(s: &str) -> (r: Option<TypeExpr>)
    ensures
        match (r, descriptor_tree(s@)) {
            (Some(e), Some(t)) => e@ == t,
            (None, None) => true,
            _ => false,
        },
        r matches Some(e) ==> text(e@) == s@,
{
    proof {
        lemma_descriptor_round_trip(s@);
    }
    let len = s.unicode_len();
    match parse_ty(s, len, 0) {
        Some((t, n)) => {
            if n == len {
                Some(t)
            } else {
                None
            }
        },
        None => None,
    }
}

fn char_in_class(c: char, class: u8) -> (r: bool)
    ensures
        r == in_class(c, class),
{
    if class == IDENT_CHARS {
        ('a' <= c && c <= 'z') || ('A' <= c && c <= 'Z') || c == '_' || ('0' <= c && c <= '9')
    } else if class == DIGITS {
        '0' <= c && c <= '9'
    } else {
        c != '"'
    }
}

fn lit_is_at(s: &str, len: usize, i: usize, lit: &str) -> (r: bool)
    requires
        len == s@.len(),
    ensures
        r == lit_at(s@, i as int, lit@),
{
    let n = lit.unicode_len();
    if n > len || i > len - n {
        return false;
    }
    let mut k: usize = 0;
    while k < n
        invariant
            k <= n,
            i + n <= len,
            len == s@.len(),
            n == lit@.len(),
            forall|m: int| 0 <= m < k ==> s@[i + m] == lit@[m],
        decreases n - k,
    {
        if s.get_char(i + k) != lit.get_char(k) {
            proof {
                assert(s@.subrange(i as int, i + n)[k as int] != lit@[k as int]);
            }
            return false;
        }
        k = k + 1;
    }
    proof {
        assert(s@.subrange(i as int, i + n) =~= lit@);
    }
    true
}

/// End of the run of characters of `class` that starts at `i`.
fn run_end(s: &str, len: usize, i: usize, class: u8) -> (j: usize)
    requires
        len == s@.len(),
        i <= len,
    ensures
        j == i + run_len(s@, i as int, class),
        j <= len,
{
    let mut j = i;
    while j < len && char_in_class(s.get_char(j), class)
        invariant
            i <= j <= len,
            len == s@.len(),
            run_len(s@, i as int, class) == (j - i) + run_len(s@, j as int, class),
        decreases len - j,
    {
        j = j + 1;
    }
    j
}

fn word_end(s: &str, len: usize, i: usize) -> (j: usize)
    requires
        len == s@.len(),
        i <= len,
    ensures
        j == i + word_len(s@, i as int),
        j <= len,
{
    if i < len {
        let c = s.get_char(i);
        if ('a' <= c && c <= 'z') || ('A' <= c && c <= 'Z') || c == '_' {
            return run_end(s, len, i, IDENT_CHARS);
        }
    }
    i
}

fn lifetime_end(s: &str, len: usize, i: usize) -> (j: usize)
    requires
        len == s@.len(),
        i <= len,
    ensures
        j == i + lifetime_len(s@, i as int),
        j <= len,
{
    if lit_is_at(s, len, i, "'") {
        proof {
            reveal_strlit("'");
        }
        let w = word_end(s, len, i + 1);
        if w > i + 1 {
            return w;
        }
    }
    i
}

fn qualifiers_end(s: &str, len: usize, i: usize) -> (j: usize)
    requires
        len == s@.len(),
        i <= len,
    ensures
        j == i + qualifiers_len(s@, i as int),
{
    proof {
        reveal_strlit("unsafe ");
        reveal_strlit("extern \"");
        reveal_strlit("\" ");
    }
    let u: usize = if lit_is_at(s, len, i, "unsafe ") {
        7
    } else {
        0
    };
    if lit_is_at(s, len, i + u, "extern \"") {
        let a = run_end(s, len, i + u + 8, NOT_QUOTE);
        if lit_is_at(s, len, a, "\" ") {
            return a + 2;
        }
    }
    i + u
}

fn text_between(s: &str, len: usize, i: usize, j: usize) -> (r: String)
    requires
        len == s@.len(),
        i <= j <= len,
    ensures
        r@ == s@.subrange(i as int, j as int),
{
    String::from_str(s.substring_char(i, j))
}

fn parse_ty(s: &str, len: usize, i: usize) -> (r: Option<(TypeExpr, usize)>)
    requires
        len == s@.len(),
        i <= len,
    ensures
        ty_result(r, ty_at(s@, i as int)),
        r is Some ==> i + (r->0).1 <= len,
    decreases len - i, 3int,
{
    if i >= len {
        None
    } else if lit_is_at(s, len, i, "&") {
        parse_ref(s, len, i)
    } else if lit_is_at(s, len, i, "*const ") || lit_is_at(s, len, i, "*mut ") {
        parse_ptr(s, len, i)
    } else if lit_is_at(s, len, i, "[") {
        parse_bracketed(s, len, i)
    } else if lit_is_at(s, len, i, "(") {
        parse_parenthesized(s, len, i)
    } else if lit_is_at(s, len, i, "!") {
        Some((TypeExpr::Leaf(String::from_str("!")), 1))
    } else if lit_is_at(s, len, i, "dyn ") || lit_is_at(s, len, i, "impl ") {
        parse_trait_object(s, len, i)
    } else {
        let q = qualifiers_end(s, len, i);
        if lit_is_at(s, len, q, "fn(") {
            proof {
                reveal_strlit("fn(");
            }
            match parse_paren(s, len, q + 3) {
                Some((params, output, n)) => {
                    let qualifiers = text_between(s, len, i, q);
                    Some((TypeExpr::Fn { qualifiers, params, output }, q + 3 + n - i))
                },
                None => None,
            }
        } else {
            match parse_path(s, len, i) {
                Some((p, n)) => Some((TypeExpr::Path(p), n)),
                None => None,
            }
        }
    }
}

fn parse_ref(s: &str, len: usize, i: usize) -> (r: Option<(TypeExpr, usize)>)
    requires
        len == s@.len(),
        i < len,
        lit_at(s@, i as int, "&"@),
    ensures
        ty_result(r, ty_at(s@, i as int)),
        r is Some ==> i + (r->0).1 <= len,
    decreases len - i, 2int,
{
    proof {
        reveal_strlit(" ");
        reveal_strlit("&");
        reveal_strlit("mut ");
    }
    let l = lifetime_end(s, len, i + 1);
    let has_lifetime = l > i + 1 && lit_is_at(s, len, l, " ");
    let lifetime = if has_lifetime {
        Some(text_between(s, len, i + 1, l))
    } else {
        None
    };
    let j = if has_lifetime {
        l + 1
    } else {
        i + 1
    };
    let mutable = lit_is_at(s, len, j, "mut ");
    let k = if mutable {
        j + 4
    } else {
        j
    };
    match parse_ty(s, len, k) {
        Some((e, n)) => Some((TypeExpr::Ref { lifetime, mutable, elem: Box::new(e) }, k + n - i)),
        None => None,
    }
}

fn parse_ptr(s: &str, len: usize, i: usize) -> (r: Option<(TypeExpr, usize)>)
    requires
        len == s@.len(),
        i < len,
        !lit_at(s@, i as int, "&"@),
        lit_at(s@, i as int, "*const "@) || lit_at(s@, i as int, "*mut "@),
    ensures
        ty_result(r, ty_at(s@, i as int)),
        r is Some ==> i + (r->0).1 <= len,
    decreases len - i, 2int,
{
    proof {
        reveal_strlit("*const ");
        reveal_strlit("*mut ");
    }
    let mutable = lit_is_at(s, len, i, "*mut ");
    let k = if mutable {
        i + 5
    } else {
        i + 7
    };
    match parse_ty(s, len, k) {
        Some((e, n)) => Some((TypeExpr::Ptr { mutable, elem: Box::new(e) }, k + n - i)),
        None => None,
    }
}

fn parse_bracketed(s: &str, len: usize, i: usize) -> (r: Option<(TypeExpr, usize)>)
    requires
        len == s@.len(),
        i < len,
        !lit_at(s@, i as int, "&"@),
        !lit_at(s@, i as int, "*const "@),
        !lit_at(s@, i as int, "*mut "@),
        lit_at(s@, i as int, "["@),
    ensures
        ty_result(r, ty_at(s@, i as int)),
        r is Some ==> i + (r->0).1 <= len,
    decreases len - i, 2int,
{
    proof {
        reveal_strlit("; ");
        reveal_strlit("[");
        reveal_strlit("]");
    }
    match parse_ty(s, len, i + 1) {
        Some((e, n)) => {
            let j = i + 1 + n;
            if lit_is_at(s, len, j, "]") {
                Some((TypeExpr::Slice(Box::new(e)), n + 2))
            } else if lit_is_at(s, len, j, "; ") {
                let d = run_end(s, len, j + 2, DIGITS);
                if d > j + 2 && lit_is_at(s, len, d, "]") {
                    let count = text_between(s, len, j + 2, d);
                    Some((TypeExpr::Array { elem: Box::new(e), len: count }, d + 1 - i))
                } else {
                    None
                }
            } else {
                None
            }
        },
        None => None,
    }
}

fn parse_parenthesized(s: &str, len: usize, i: usize) -> (r: Option<(TypeExpr, usize)>)
    requires
        len == s@.len(),
        i < len,
        !lit_at(s@, i as int, "&"@),
        !lit_at(s@, i as int, "*const "@),
        !lit_at(s@, i as int, "*mut "@),
        !lit_at(s@, i as int, "["@),
        lit_at(s@, i as int, "("@),
    ensures
        ty_result(r, ty_at(s@, i as int)),
        r is Some ==> i + (r->0).1 <= len,
    decreases len - i, 2int,
{
    proof {
        reveal_strlit("(");
        reveal_strlit(")");
        reveal_strlit(",)");
    }
    if lit_is_at(s, len, i + 1, ")") {
        let empty: Vec<TypeExpr> = Vec::new();
        proof {
            assert(tys_of(empty) =~= Seq::<Ty>::empty());
        }
        Some((TypeExpr::Tuple(empty), 2))
    } else {
        match parse_tys(s, len, i + 1) {
            Some((mut ts, n)) => {
                let j = i + 1 + n;
                if ts.len() == 1 && lit_is_at(s, len, j, ")") {
                    let ghost before = ts;
                    let e = ts.pop().unwrap();
                    proof {
                        assert(e == before@[0]);
                        assert(ty_of(e) == tys_of(before)[0]);
                    }
                    Some((TypeExpr::Paren(Box::new(e)), n + 2))
                } else if ts.len() == 1 && lit_is_at(s, len, j, ",)") {
                    Some((TypeExpr::Tuple(ts), n + 3))
                } else if ts.len() > 1 && lit_is_at(s, len, j, ")") {
                    Some((TypeExpr::Tuple(ts), n + 2))
                } else {
                    None
                }
            },
            None => None,
        }
    }
}

fn parse_trait_object(s: &str, len: usize, i: usize) -> (r: Option<(TypeExpr, usize)>)
    requires
        len == s@.len(),
        i < len,
        !lit_at(s@, i as int, "&"@),
        !lit_at(s@, i as int, "*const "@),
        !lit_at(s@, i as int, "*mut "@),
        !lit_at(s@, i as int, "["@),
        !lit_at(s@, i as int, "("@),
        !lit_at(s@, i as int, "!"@),
        lit_at(s@, i as int, "dyn "@) || lit_at(s@, i as int, "impl "@),
    ensures
        ty_result(r, ty_at(s@, i as int)),
        r is Some ==> i + (r->0).1 <= len,
    decreases len - i, 2int,
{
    proof {
        reveal_strlit("dyn ");
        reveal_strlit("impl ");
    }
    let dyn_kw = lit_is_at(s, len, i, "dyn ");
    let k = if dyn_kw {
        i + 4
    } else {
        i + 5
    };
    match parse_bounds(s, len, k) {
        Some((bs, n)) => Some((TypeExpr::Bounds { dyn_kw, bounds: bs }, k + n - i)),
        None => None,
    }
}

fn parse_tys(s: &str, len: usize, i: usize) -> (r: Option<(Vec<TypeExpr>, usize)>)
    requires
        len == s@.len(),
        i <= len,
    ensures
        tys_result(r, tys_at(s@, i as int)),
        r is Some ==> i + (r->0).1 <= len,
    decreases len - i, 4int,
{
    proof {
        reveal_strlit(", ");
    }
    match parse_ty(s, len, i) {
        Some((t, n)) => {
            let j = i + n;
            if lit_is_at(s, len, j, ", ") {
                match parse_tys(s, len, j + 2) {
                    Some((mut ts, m)) => {
                        let ghost rest = ts;
                        ts.insert(0, t);
                        proof {
                            assert(tys_of(ts) =~= seq![ty_of(t)] + tys_of(rest));
                        }
                        Some((ts, n + 2 + m))
                    },
                    None => None,
                }
            } else {
                let mut ts: Vec<TypeExpr> = Vec::new();
                ts.push(t);
                proof {
                    assert(tys_of(ts) =~= seq![ty_of(t)]);
                }
                Some((ts, n))
            }
        },
        None => None,
    }
}

fn parse_paren(s: &str, len: usize, i: usize) -> (r: Option<
    (Vec<TypeExpr>, Option<Box<TypeExpr>>, usize),
>)
    requires
        len == s@.len(),
        i <= len,
    ensures
        paren_result(r, paren_at(s@, i as int)),
        r is Some ==> i + (r->0).2 <= len,
    decreases len - i, 5int,
{
    proof {
        reveal_strlit(" -> ");
        reveal_strlit(")");
    }
    let inputs = if lit_is_at(s, len, i, ")") {
        let empty: Vec<TypeExpr> = Vec::new();
        proof {
            assert(tys_of(empty) =~= Seq::<Ty>::empty());
        }
        Some((empty, 0))
    } else {
        parse_tys(s, len, i)
    };
    match inputs {
        Some((ts, n)) => {
            let j = i + n;
            if !lit_is_at(s, len, j, ")") {
                None
            } else if lit_is_at(s, len, j + 1, " -> ") {
                match parse_ty(s, len, j + 5) {
                    Some((o, m)) => Some((ts, Some(Box::new(o)), n + 5 + m)),
                    None => None,
                }
            } else {
                Some((ts, None, n + 1))
            }
        },
        None => None,
    }
}

fn parse_path(s: &str, len: usize, i: usize) -> (r: Option<(TypePath, usize)>)
    requires
        len == s@.len(),
        i <= len,
    ensures
        path_result(r, path_at(s@, i as int)),
        r is Some ==> i + (r->0).1 <= len,
    decreases len - i, 2int,
{
    proof {
        reveal_strlit("::");
    }
    let leading_colon = lit_is_at(s, len, i, "::");
    let j = if leading_colon {
        i + 2
    } else {
        i
    };
    match parse_segments(s, len, j) {
        Some((segments, n)) => Some((TypePath { leading_colon, segments }, j + n - i)),
        None => None,
    }
}

fn parse_segments(s: &str, len: usize, i: usize) -> (r: Option<(Vec<PathSegment>, usize)>)
    requires
        len == s@.len(),
        i <= len,
    ensures
        segments_result(r, segments_at(s@, i as int)),
        r is Some ==> i + (r->0).1 <= len,
    decreases len - i, 1int,
{
    proof {
        reveal_strlit("::");
    }
    match parse_segment(s, len, i) {
        Some((g, n)) => {
            let j = i + n;
            if lit_is_at(s, len, j, "::") {
                match parse_segments(s, len, j + 2) {
                    Some((mut gs, m)) => {
                        let ghost rest = gs;
                        gs.insert(0, g);
                        proof {
                            assert(segments_of(gs) =~= seq![segment_of(g)] + segments_of(rest));
                        }
                        Some((gs, n + 2 + m))
                    },
                    None => None,
                }
            } else {
                let mut gs: Vec<PathSegment> = Vec::new();
                gs.push(g);
                proof {
                    assert(segments_of(gs) =~= seq![segment_of(g)]);
                }
                Some((gs, n))
            }
        },
        None => None,
    }
}

fn parse_segment(s: &str, len: usize, i: usize) -> (r: Option<(PathSegment, usize)>)
    requires
        len == s@.len(),
        i <= len,
    ensures
        segment_result(r, segment_at(s@, i as int)),
        r is Some ==> i + (r->0).1 <= len,
    decreases len - i, 0int,
{
    proof {
        reveal_strlit("<");
        reveal_strlit(">");
        reveal_strlit("(");
    }
    let j = word_end(s, len, i);
    if j == i {
        None
    } else if lit_is_at(s, len, j, "<") {
        match parse_generic_args(s, len, j + 1) {
            Some((args, n)) => {
                if lit_is_at(s, len, j + 1 + n, ">") {
                    let ident = text_between(s, len, i, j);
                    Some((PathSegment { ident, args: SegmentArgs::Angle(args) }, j + n + 2 - i))
                } else {
                    None
                }
            },
            None => None,
        }
    } else if lit_is_at(s, len, j, "(") {
        match parse_paren(s, len, j + 1) {
            Some((inputs, output, n)) => {
                let ident = text_between(s, len, i, j);
                Some((PathSegment { ident, args: SegmentArgs::Paren { inputs, output } }, j + 1 + n - i))
            },
            None => None,
        }
    } else {
        let ident = text_between(s, len, i, j);
        Some((PathSegment { ident, args: SegmentArgs::Plain }, j - i))
    }
}

fn parse_generic_args(s: &str, len: usize, i: usize) -> (r: Option<(Vec<TypeArg>, usize)>)
    requires
        len == s@.len(),
        i <= len,
    ensures
        generic_args_result(r, generic_args_at(s@, i as int)),
        r is Some ==> i + (r->0).1 <= len,
    decreases len - i, 5int,
{
    proof {
        reveal_strlit(", ");
    }
    match parse_generic_arg(s, len, i) {
        Some((g, n)) => {
            let j = i + n;
            if lit_is_at(s, len, j, ", ") {
                match parse_generic_args(s, len, j + 2) {
                    Some((mut gs, m)) => {
                        let ghost rest = gs;
                        gs.insert(0, g);
                        proof {
                            assert(generic_args_of(gs) =~= seq![generic_arg_of(g)] + generic_args_of(
                                rest,
                            ));
                        }
                        Some((gs, n + 2 + m))
                    },
                    None => None,
                }
            } else {
                let mut gs: Vec<TypeArg> = Vec::new();
                gs.push(g);
                proof {
                    assert(generic_args_of(gs) =~= seq![generic_arg_of(g)]);
                }
                Some((gs, n))
            }
        },
        None => None,
    }
}

fn parse_generic_arg(s: &str, len: usize, i: usize) -> (r: Option<(TypeArg, usize)>)
    requires
        len == s@.len(),
        i <= len,
    ensures
        generic_arg_result(r, generic_arg_at(s@, i as int)),
        r is Some ==> i + (r->0).1 <= len,
    decreases len - i, 4int,
{
    proof {
        reveal_strlit(" = ");
    }
    let l = lifetime_end(s, len, i);
    let d = run_end(s, len, i, DIGITS);
    let w = word_end(s, len, i);
    if l > i {
        Some((TypeArg::Verbatim(text_between(s, len, i, l)), l - i))
    } else if d > i {
        Some((TypeArg::Verbatim(text_between(s, len, i, d)), d - i))
    } else if w > i && lit_is_at(s, len, w, " = ") {
        match parse_ty(s, len, w + 3) {
            Some((t, n)) => {
                let name = text_between(s, len, i, w);
                Some((TypeArg::Binding { name, ty: t }, w + 3 + n - i))
            },
            None => None,
        }
    } else {
        match parse_ty(s, len, i) {
            Some((t, n)) => Some((TypeArg::Type(t), n)),
            None => None,
        }
    }
}

fn parse_bounds(s: &str, len: usize, i: usize) -> (r: Option<(Vec<TypeBound>, usize)>)
    requires
        len == s@.len(),
        i <= len,
    ensures
        bounds_result(r, bounds_at(s@, i as int)),
        r is Some ==> i + (r->0).1 <= len,
    decreases len - i, 4int,
{
    proof {
        reveal_strlit(" + ");
    }
    match parse_bound(s, len, i) {
        Some((b, n)) => {
            let j = i + n;
            if lit_is_at(s, len, j, " + ") {
                match parse_bounds(s, len, j + 3) {
                    Some((mut bs, m)) => {
                        let ghost rest = bs;
                        bs.insert(0, b);
                        proof {
                            assert(bounds_of(bs) =~= seq![bound_of(b)] + bounds_of(rest));
                        }
                        Some((bs, n + 3 + m))
                    },
                    None => None,
                }
            } else {
                let mut bs: Vec<TypeBound> = Vec::new();
                bs.push(b);
                proof {
                    assert(bounds_of(bs) =~= seq![bound_of(b)]);
                }
                Some((bs, n))
            }
        },
        None => None,
    }
}

fn parse_bound(s: &str, len: usize, i: usize) -> (r: Option<(TypeBound, usize)>)
    requires
        len == s@.len(),
        i <= len,
    ensures
        bound_result(r, bound_at(s@, i as int)),
        r is Some ==> i + (r->0).1 <= len,
    decreases len - i, 3int,
{
    let l = lifetime_end(s, len, i);
    if l > i {
        Some((TypeBound::Verbatim(text_between(s, len, i, l)), l - i))
    } else {
        match parse_path(s, len, i) {
            Some((p, n)) => Some((TypeBound::Trait(p), n)),
            None => None,
        }
    }
}

} // verus!
