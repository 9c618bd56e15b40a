use vstd::prelude::*;

use crate::grammar::{
    bound_at,
    bounds_at,
    descriptor_tree,
    generic_arg_at,
    generic_args_at,
    lifetime_len,
    lit_at,
    paren_at,
    path_at,
    qualifiers_len,
    run_len,
    segment_at,
    segments_at,
    tys_at,
    ty_at,
    word_len,
    DIGITS,
    IDENT_CHARS,
};
use crate::model::{Bound, GenericArg, Segment, Ty};
use crate::text::{
    bound_text,
    bounds_text,
    generic_arg_text,
    generic_args_text,
    lifetime_text,
    output_text,
    path_text,
    segment_text,
    segments_text,
    text,
    tys_text,
};

verus! {

broadcast use vstd::seq::group_seq_axioms;

proof fn lemma_run_len_bound(s: Seq<char>, i: int, class: u8)
    requires
        0 <= i <= s.len(),
    ensures
        i + run_len(s, i, class) <= s.len(),
    decreases s.len() - i,
{
    if i < s.len() {
        lemma_run_len_bound(s, i + 1, class);
    }
}

proof fn lemma_word_len_bound(s: Seq<char>, i: int)
    requires
        0 <= i <= s.len(),
    ensures
        i + word_len(s, i) <= s.len(),
{
    lemma_run_len_bound(s, i, IDENT_CHARS);
}

proof fn lemma_lifetime_len_bound(s: Seq<char>, i: int)
    requires
        0 <= i <= s.len(),
    ensures
        i + lifetime_len(s, i) <= s.len(),
{
    reveal_strlit("'");
    if lit_at(s, i, "'"@) {
        lemma_word_len_bound(s, i + 1);
    }
}

proof fn lemma_split2(s: Seq<char>, a: int, b: int, c: int)
    requires
        0 <= a <= b <= c <= s.len(),
    ensures
        s.subrange(a, c) == s.subrange(a, b) + s.subrange(b, c),
{
    assert(s.subrange(a, c) =~= s.subrange(a, b) + s.subrange(b, c));
}

proof fn lemma_split3(s: Seq<char>, a: int, b: int, c: int, d: int)
    requires
        0 <= a <= b <= c <= d <= s.len(),
    ensures
        s.subrange(a, d) == s.subrange(a, b) + s.subrange(b, c) + s.subrange(c, d),
{
    lemma_split2(s, a, b, d);
    lemma_split2(s, b, c, d);
    assert(s.subrange(a, b) + (s.subrange(b, c) + s.subrange(c, d)) =~= s.subrange(a, b)
        + s.subrange(b, c) + s.subrange(c, d));
}

proof fn lemma_split4(s: Seq<char>, a: int, b: int, c: int, d: int, e: int)
    requires
        0 <= a <= b <= c <= d <= e <= s.len(),
    ensures
        s.subrange(a, e) == s.subrange(a, b) + s.subrange(b, c) + s.subrange(c, d) + s.subrange(
            d,
            e,
        ),
{
    lemma_split3(s, a, b, c, d);
    lemma_split2(s, a, d, e);
}

proof fn lemma_tys_text_cons(t: Ty, ts: Seq<Ty>)
    requires
        ts.len() >= 1,
    ensures
        tys_text(seq![t] + ts) == text(t) + ", "@ + tys_text(ts),
    decreases ts.len(),
{
    let u = seq![t] + ts;
    let init = u.subrange(0, u.len() - 1);
    let rest = ts.subrange(0, ts.len() - 1);
    assert(u[u.len() - 1] == ts[ts.len() - 1]);
    assert(tys_text(u) == tys_text(init) + ", "@ + text(u[u.len() - 1]));
    if ts.len() == 1 {
        assert(init =~= seq![t]);
        assert(tys_text(init) == text(t));
    } else {
        assert(init =~= seq![t] + rest);
        lemma_tys_text_cons(t, rest);
        assert(tys_text(ts) == tys_text(rest) + ", "@ + text(ts[ts.len() - 1]));
    }
    assert(tys_text(u) =~= text(t) + ", "@ + tys_text(ts));
}

proof fn lemma_segments_text_cons(g: Segment, gs: Seq<Segment>)
    requires
        gs.len() >= 1,
    ensures
        segments_text(seq![g] + gs) == segment_text(g) + "::"@ + segments_text(gs),
    decreases gs.len(),
{
    let u = seq![g] + gs;
    let init = u.subrange(0, u.len() - 1);
    let rest = gs.subrange(0, gs.len() - 1);
    assert(u[u.len() - 1] == gs[gs.len() - 1]);
    assert(segments_text(u) == segments_text(init) + "::"@ + segment_text(u[u.len() - 1]));
    if gs.len() == 1 {
        assert(init =~= seq![g]);
        assert(segments_text(init) == segment_text(g));
    } else {
        assert(init =~= seq![g] + rest);
        lemma_segments_text_cons(g, rest);
        assert(segments_text(gs) == segments_text(rest) + "::"@ + segment_text(gs[gs.len() - 1]));
    }
    assert(segments_text(u) =~= segment_text(g) + "::"@ + segments_text(gs));
}

proof fn lemma_generic_args_text_cons(g: GenericArg, gs: Seq<GenericArg>)
    requires
        gs.len() >= 1,
    ensures
        generic_args_text(seq![g] + gs) == generic_arg_text(g) + ", "@ + generic_args_text(gs),
    decreases gs.len(),
{
    let u = seq![g] + gs;
    let init = u.subrange(0, u.len() - 1);
    let rest = gs.subrange(0, gs.len() - 1);
    assert(u[u.len() - 1] == gs[gs.len() - 1]);
    assert(generic_args_text(u) == generic_args_text(init) + ", "@ + generic_arg_text(u[u.len() - 1]));
    if gs.len() == 1 {
        assert(init =~= seq![g]);
        assert(generic_args_text(init) == generic_arg_text(g));
    } else {
        assert(init =~= seq![g] + rest);
        lemma_generic_args_text_cons(g, rest);
        assert(generic_args_text(gs) == generic_args_text(rest) + ", "@ + generic_arg_text(gs[gs.len() - 1]));
    }
    assert(generic_args_text(u) =~= generic_arg_text(g) + ", "@ + generic_args_text(gs));
}

proof fn lemma_bounds_text_cons(b: Bound, bs: Seq<Bound>)
    requires
        bs.len() >= 1,
    ensures
        bounds_text(seq![b] + bs) == bound_text(b) + " + "@ + bounds_text(bs),
    decreases bs.len(),
{
    let u = seq![b] + bs;
    let init = u.subrange(0, u.len() - 1);
    let rest = bs.subrange(0, bs.len() - 1);
    assert(u[u.len() - 1] == bs[bs.len() - 1]);
    assert(bounds_text(u) == bounds_text(init) + " + "@ + bound_text(u[u.len() - 1]));
    if bs.len() == 1 {
        assert(init =~= seq![b]);
        assert(bounds_text(init) == bound_text(b));
    } else {
        assert(init =~= seq![b] + rest);
        lemma_bounds_text_cons(b, rest);
        assert(bounds_text(bs) == bounds_text(rest) + " + "@ + bound_text(bs[bs.len() - 1]));
    }
    assert(bounds_text(u) =~= bound_text(b) + " + "@ + bounds_text(bs));
}

proof fn lemma_ty_sound(s: Seq<char>, i: int)
    ensures
        ty_at(s, i) matches Some((r, n)) ==> 0 <= i && i + n <= s.len() && text(r) == s.subrange(
            i,
            i + n,
        ),
    decreases s.len() - i, 3int,
{
    reveal_strlit("!");
    reveal_strlit("&");
    reveal_strlit("(");
    reveal_strlit("*const ");
    reveal_strlit("*mut ");
    reveal_strlit("[");
    reveal_strlit("dyn ");
    reveal_strlit("fn(");
    reveal_strlit("impl ");
    if !(0 <= i < s.len()) {
    } else if lit_at(s, i, "&"@) {
        lemma_ref_sound(s, i);
    } else if lit_at(s, i, "*const "@) || lit_at(s, i, "*mut "@) {
        lemma_ptr_sound(s, i);
    } else if lit_at(s, i, "["@) {
        lemma_bracketed_sound(s, i);
    } else if lit_at(s, i, "("@) {
        lemma_parenthesized_sound(s, i);
    } else if lit_at(s, i, "!"@) {
        assert(s.subrange(i, i + 1) == "!"@);
    } else if lit_at(s, i, "dyn "@) || lit_at(s, i, "impl "@) {
        lemma_trait_object_sound(s, i);
    } else if lit_at(s, i + qualifiers_len(s, i), "fn("@) {
        let q = qualifiers_len(s, i);
        lemma_paren_sound(s, i + q + 3);
        if let Some((params, output, n)) = paren_at(s, i + q + 3) {
            lemma_split3(s, i, i + q, i + q + 3, i + q + 3 + n);
        }
    } else {
        lemma_path_sound(s, i);
    }
}

proof fn lemma_ref_sound(s: Seq<char>, i: int)
    requires
        0 <= i < s.len(),
        lit_at(s, i, "&"@),
    ensures
        ty_at(s, i) matches Some((r, n)) ==> 0 <= i && i + n <= s.len() && text(r) == s.subrange(
            i,
            i + n,
        ),
    decreases s.len() - i, 2int,
{
    reveal_strlit(" ");
    reveal_strlit("&");
    reveal_strlit("mut ");
    let l = lifetime_len(s, i + 1);
    let has = l > 0 && lit_at(s, i + 1 + l, " "@);
    let lifetime = if has {
        Some(s.subrange(i + 1, i + 1 + l))
    } else {
        None
    };
    let j = if has {
        i + 2 + l
    } else {
        i + 1
    };
    let mutable = lit_at(s, j, "mut "@);
    let k = if mutable {
        j + 4
    } else {
        j
    };
    lemma_ty_sound(s, k);
    if let Some((e, n)) = ty_at(s, k) {
        if has {
            assert(s.subrange(i + 1, j) =~= s.subrange(i + 1, i + 1 + l) + " "@);
        } else {
            assert(s.subrange(i + 1, j) =~= Seq::<char>::empty());
        }
        assert(s.subrange(i + 1, j) == lifetime_text(lifetime));
        if !mutable {
            assert(s.subrange(j, k) =~= Seq::<char>::empty());
        }
        lemma_split4(s, i, i + 1, j, k, k + n);
    }
}

proof fn lemma_ptr_sound(s: Seq<char>, i: int)
    requires
        0 <= i < s.len(),
        !lit_at(s, i, "&"@),
        lit_at(s, i, "*const "@) || lit_at(s, i, "*mut "@),
    ensures
        ty_at(s, i) matches Some((r, n)) ==> 0 <= i && i + n <= s.len() && text(r) == s.subrange(
            i,
            i + n,
        ),
    decreases s.len() - i, 2int,
{
    reveal_strlit("*const ");
    reveal_strlit("*mut ");
    let mutable = lit_at(s, i, "*mut "@);
    let k = if mutable {
        i + 5
    } else {
        i + 7
    };
    lemma_ty_sound(s, k);
    if let Some((e, n)) = ty_at(s, k) {
        lemma_split2(s, i, k, k + n);
    }
}

proof fn lemma_bracketed_sound(s: Seq<char>, i: int)
    requires
        0 <= i < s.len(),
        !lit_at(s, i, "&"@),
        !lit_at(s, i, "*const "@),
        !lit_at(s, i, "*mut "@),
        lit_at(s, i, "["@),
    ensures
        ty_at(s, i) matches Some((r, n)) ==> 0 <= i && i + n <= s.len() && text(r) == s.subrange(
            i,
            i + n,
        ),
    decreases s.len() - i, 2int,
{
    reveal_strlit("; ");
    reveal_strlit("[");
    reveal_strlit("]");
    lemma_ty_sound(s, i + 1);
    if let Some((e, n)) = ty_at(s, i + 1) {
        let j = i + 1 + n;
        let d = run_len(s, j + 2, DIGITS);
        if lit_at(s, j, "]"@) {
            lemma_split3(s, i, i + 1, j, j + 1);
        } else if lit_at(s, j, "; "@) && d > 0 && lit_at(s, j + 2 + d, "]"@) {
            lemma_split4(s, i, i + 1, j, j + 2, j + 2 + d);
            lemma_split2(s, i, j + 2 + d, j + 3 + d);
        }
    }
}

proof fn lemma_parenthesized_sound(s: Seq<char>, i: int)
    requires
        0 <= i < s.len(),
        !lit_at(s, i, "&"@),
        !lit_at(s, i, "*const "@),
        !lit_at(s, i, "*mut "@),
        !lit_at(s, i, "["@),
        lit_at(s, i, "("@),
    ensures
        ty_at(s, i) matches Some((r, n)) ==> 0 <= i && i + n <= s.len() && text(r) == s.subrange(
            i,
            i + n,
        ),
    decreases s.len() - i, 2int,
{
    reveal_strlit("(");
    reveal_strlit(")");
    reveal_strlit(",)");
    reveal_strlit(",");
    if lit_at(s, i + 1, ")"@) {
        assert(tys_text(Seq::<Ty>::empty()) == Seq::<char>::empty());
        assert(s.subrange(i, i + 2) =~= "("@ + ")"@);
        assert(text(Ty::Tuple(Seq::empty())) =~= "("@ + ")"@);
    } else {
        lemma_tys_sound(s, i + 1);
        if let Some((ts, n)) = tys_at(s, i + 1) {
            let j = i + 1 + n;
            if ts.len() == 1 && lit_at(s, j, ")"@) {
                lemma_split3(s, i, i + 1, j, j + 1);
            } else if ts.len() == 1 && lit_at(s, j, ",)"@) {
                assert(",)"@ =~= ","@ + ")"@);
                assert(s.subrange(j, j + 2) == ",)"@);
                lemma_split3(s, i, i + 1, j, j + 2);
            } else if ts.len() > 1 && lit_at(s, j, ")"@) {
                lemma_split3(s, i, i + 1, j, j + 1);
            }
        }
    }
}

proof fn lemma_trait_object_sound(s: Seq<char>, i: int)
    requires
        0 <= i < s.len(),
        !lit_at(s, i, "&"@),
        !lit_at(s, i, "*const "@),
        !lit_at(s, i, "*mut "@),
        !lit_at(s, i, "["@),
        !lit_at(s, i, "("@),
        !lit_at(s, i, "!"@),
        lit_at(s, i, "dyn "@) || lit_at(s, i, "impl "@),
    ensures
        ty_at(s, i) matches Some((r, n)) ==> 0 <= i && i + n <= s.len() && text(r) == s.subrange(
            i,
            i + n,
        ),
    decreases s.len() - i, 2int,
{
    reveal_strlit("dyn ");
    reveal_strlit("impl ");
    let dyn_kw = lit_at(s, i, "dyn "@);
    let k = if dyn_kw {
        i + 4
    } else {
        i + 5
    };
    lemma_bounds_sound(s, k);
    if let Some((bs, n)) = bounds_at(s, k) {
        lemma_split2(s, i, k, k + n);
    }
}

proof fn lemma_tys_sound(s: Seq<char>, i: int)
    ensures
        tys_at(s, i) matches Some((r, n)) ==> 0 <= i && i + n <= s.len() && tys_text(r) == s.subrange(
            i,
            i + n,
        ),
        tys_at(s, i) matches Some((ts, n)) ==> ts.len() >= 1,
    decreases s.len() - i, 4int,
{
    reveal_strlit(", ");
    lemma_ty_sound(s, i);
    if let Some((t, n)) = ty_at(s, i) {
        let j = i + n;
        if lit_at(s, j, ", "@) {
            lemma_tys_sound(s, j + 2);
            if let Some((ts, m)) = tys_at(s, j + 2) {
                lemma_tys_text_cons(t, ts);
                lemma_split3(s, i, j, j + 2, j + 2 + m);
            }
        } else {
            assert(tys_text(seq![t]) == text(t));
        }
    }
}

proof fn lemma_paren_sound(s: Seq<char>, i: int)
    ensures
        paren_at(s, i) matches Some((ts, o, n)) ==> 0 <= i && i + n <= s.len() && tys_text(ts)
            + ")"@ + output_text(o) == s.subrange(i, i + n),
    decreases s.len() - i, 5int,
{
    reveal_strlit(" -> ");
    reveal_strlit(")");
    if !lit_at(s, i, ")"@) {
        lemma_tys_sound(s, i);
    }
    let inputs: Option<(Seq<Ty>, nat)> = if lit_at(s, i, ")"@) {
        Some((Seq::empty(), 0))
    } else {
        tys_at(s, i)
    };
    if let Some((ts, n)) = inputs {
        let j = i + n;
        if lit_at(s, j, ")"@) {
            assert(tys_text(ts) == s.subrange(i, j));
            if lit_at(s, j + 1, " -> "@) {
                lemma_ty_sound(s, j + 5);
                if let Some((o, m)) = ty_at(s, j + 5) {
                    lemma_split4(s, i, j, j + 1, j + 5, j + 5 + m);
                }
            } else {
                lemma_split2(s, i, j, j + 1);
            }
        }
    }
}

proof fn lemma_path_sound(s: Seq<char>, i: int)
    ensures
        path_at(s, i) matches Some((r, n)) ==> 0 <= i && i + n <= s.len() && path_text(r) == s.subrange(
            i,
            i + n,
        ),
    decreases s.len() - i, 2int,
{
    reveal_strlit("::");
    let leading_colon = lit_at(s, i, "::"@);
    let j = if leading_colon {
        i + 2
    } else {
        i
    };
    lemma_segments_sound(s, j);
    if let Some((segs, n)) = segments_at(s, j) {
        lemma_split2(s, i, j, j + n);
        if !leading_colon {
            assert(s.subrange(i, j) =~= Seq::<char>::empty());
        }
    }
}

proof fn lemma_segments_sound(s: Seq<char>, i: int)
    ensures
        segments_at(s, i) matches Some((r, n)) ==> 0 <= i && i + n <= s.len() && segments_text(r) == s.subrange(
            i,
            i + n,
        ),
        segments_at(s, i) matches Some((gs, n)) ==> gs.len() >= 1,
    decreases s.len() - i, 1int,
{
    reveal_strlit("::");
    lemma_segment_sound(s, i);
    if let Some((g, n)) = segment_at(s, i) {
        let j = i + n;
        if lit_at(s, j, "::"@) {
            lemma_segments_sound(s, j + 2);
            if let Some((gs, m)) = segments_at(s, j + 2) {
                lemma_segments_text_cons(g, gs);
                lemma_split3(s, i, j, j + 2, j + 2 + m);
            }
        } else {
            assert(segments_text(seq![g]) == segment_text(g));
        }
    }
}

#[verifier::rlimit(50)]
proof fn lemma_segment_sound(s: Seq<char>, i: int)
    ensures
        segment_at(s, i) matches Some((r, n)) ==> 0 <= i && i + n <= s.len() && segment_text(r) == s.subrange(
            i,
            i + n,
        ),
    decreases s.len() - i, 0int,
{
    reveal_strlit("<");
    reveal_strlit(">");
    reveal_strlit("(");
    let w = word_len(s, i);
    let j = i + w;
    if w > 0 {
        lemma_word_len_bound(s, i);
        if lit_at(s, j, "<"@) {
            lemma_generic_args_sound(s, j + 1);
            if let Some((args, n)) = generic_args_at(s, j + 1) {
                if lit_at(s, j + 1 + n, ">"@) {
                    lemma_split4(s, i, j, j + 1, j + 1 + n, j + n + 2);
                }
            }
        } else if lit_at(s, j, "("@) {
            lemma_paren_sound(s, j + 1);
            if let Some((inputs, output, n)) = paren_at(s, j + 1) {
                lemma_split3(s, i, j, j + 1, j + 1 + n);
            }
        } else {
            assert(s.subrange(i, j) + Seq::<char>::empty() =~= s.subrange(i, j));
        }
    }
}

proof fn lemma_generic_args_sound(s: Seq<char>, i: int)
    ensures
        generic_args_at(s, i) matches Some((r, n)) ==> 0 <= i && i + n <= s.len() && generic_args_text(r) == s.subrange(
            i,
            i + n,
        ),
        generic_args_at(s, i) matches Some((gs, n)) ==> gs.len() >= 1,
    decreases s.len() - i, 5int,
{
    reveal_strlit(", ");
    lemma_generic_arg_sound(s, i);
    if let Some((g, n)) = generic_arg_at(s, i) {
        let j = i + n;
        if lit_at(s, j, ", "@) {
            lemma_generic_args_sound(s, j + 2);
            if let Some((gs, m)) = generic_args_at(s, j + 2) {
                lemma_generic_args_text_cons(g, gs);
                lemma_split3(s, i, j, j + 2, j + 2 + m);
            }
        } else {
            assert(generic_args_text(seq![g]) == generic_arg_text(g));
        }
    }
}

proof fn lemma_generic_arg_sound(s: Seq<char>, i: int)
    ensures
        generic_arg_at(s, i) matches Some((r, n)) ==> 0 <= i && i + n <= s.len() && generic_arg_text(r) == s.subrange(
            i,
            i + n,
        ),
    decreases s.len() - i, 4int,
{
    reveal_strlit(" = ");
    let l = lifetime_len(s, i);
    let d = run_len(s, i, DIGITS);
    let w = word_len(s, i);
    if 0 <= i <= s.len() {
        lemma_lifetime_len_bound(s, i);
        lemma_run_len_bound(s, i, DIGITS);
    }
    if l > 0 {
    } else if d > 0 {
    } else if w > 0 && lit_at(s, i + w, " = "@) {
        lemma_ty_sound(s, i + w + 3);
        if let Some((t, n)) = ty_at(s, i + w + 3) {
            lemma_split3(s, i, i + w, i + w + 3, i + w + 3 + n);
        }
    } else {
        lemma_ty_sound(s, i);
    }
}

proof fn lemma_bounds_sound(s: Seq<char>, i: int)
    ensures
        bounds_at(s, i) matches Some((r, n)) ==> 0 <= i && i + n <= s.len() && bounds_text(r) == s.subrange(
            i,
            i + n,
        ),
        bounds_at(s, i) matches Some((bs, n)) ==> bs.len() >= 1,
    decreases s.len() - i, 4int,
{
    reveal_strlit(" + ");
    lemma_bound_sound(s, i);
    if let Some((b, n)) = bound_at(s, i) {
        let j = i + n;
        if lit_at(s, j, " + "@) {
            lemma_bounds_sound(s, j + 3);
            if let Some((bs, m)) = bounds_at(s, j + 3) {
                lemma_bounds_text_cons(b, bs);
                lemma_split3(s, i, j, j + 3, j + 3 + m);
            }
        } else {
            assert(bounds_text(seq![b]) == bound_text(b));
        }
    }
}

proof fn lemma_bound_sound(s: Seq<char>, i: int)
    ensures
        bound_at(s, i) matches Some((r, n)) ==> 0 <= i && i + n <= s.len() && bound_text(r) == s.subrange(
            i,
            i + n,
        ),
    decreases s.len() - i, 3int,
{
    if 0 <= i <= s.len() {
        lemma_lifetime_len_bound(s, i);
    }
    if lifetime_len(s, i) == 0 {
        lemma_path_sound(s, i);
    }
}

/// A descriptor reads back from its tree: whenever a descriptor parses, the
/// text of the tree is the descriptor itself, character for character.
pub proof fn lemma_descriptor_round_trip(s: Seq<char>)
    ensures
        descriptor_tree(s) matches Some(t) ==> text(t) == s,
{
    lemma_ty_sound(s, 0);
    if let Some((t, n)) = ty_at(s, 0) {
        if n == s.len() {
            assert(s.subrange(0, s.len() as int) =~= s);
        }
    }
}

} // verus!
