use vstd::prelude::*;

use crate::model::{Bound, GenericArg, Path, PathArgs, Segment, Ty};

verus! {

broadcast use vstd::seq::group_seq_axioms;

/// Character classes that the scanner reads runs of.
pub open spec fn in_class(c: char, class: u8) -> bool {
    if class == IDENT_CHARS {
        ('a' <= c && c <= 'z') || ('A' <= c && c <= 'Z') || c == '_' || ('0' <= c && c <= '9')
    } else if class == DIGITS {
        '0' <= c && c <= '9'
    } else {
        c != '"'
    }
}

pub const IDENT_CHARS: u8 = 0;

pub const DIGITS: u8 = 1;

pub const NOT_QUOTE: u8 = 2;

pub open spec fn is_ident_start(c: char) -> bool {
    ('a' <= c && c <= 'z') || ('A' <= c && c <= 'Z') || c == '_'
}

/// `lit` stands in `s` at position `i`.
pub open spec fn lit_at(s: Seq<char>, i: int, lit: Seq<char>) -> bool {
    0 <= i && i + lit.len() <= s.len() && s.subrange(i, i + lit.len()) == lit
}

/// Length of the longest run of characters of `class` that starts at `i`.
pub open spec fn run_len(s: Seq<char>, i: int, class: u8) -> nat
    decreases s.len() - i,
{
    if 0 <= i < s.len() && in_class(s[i], class) {
        1 + run_len(s, i + 1, class)
    } else {
        0
    }
}

/// Length of the identifier that starts at `i`, or 0.
pub open spec fn word_len(s: Seq<char>, i: int) -> nat {
    if 0 <= i < s.len() && is_ident_start(s[i]) {
        run_len(s, i, IDENT_CHARS)
    } else {
        0
    }
}

/// Length of the lifetime (`'a`) that starts at `i`, or 0.
pub open spec fn lifetime_len(s: Seq<char>, i: int) -> nat {
    if lit_at(s, i, "'"@) && word_len(s, i + 1) > 0 {
        1 + word_len(s, i + 1)
    } else {
        0
    }
}

/// Length of the `unsafe ` and `extern "abi" ` qualifiers that start at `i`.
pub open spec fn qualifiers_len(s: Seq<char>, i: int) -> nat {
    let u: nat = if lit_at(s, i, "unsafe "@) {
        7
    } else {
        0
    };
    let a = run_len(s, i + u + 8, NOT_QUOTE);
    let e: nat = if lit_at(s, i + u, "extern \""@) && lit_at(s, i + u + 8 + a, "\" "@) {
        a + 10
    } else {
        0
    };
    u + e
}

/// The type that starts at `i`, and how many characters it takes.
pub open spec fn ty_at(s: Seq<char>, i: int) -> Option<(Ty, nat)>
    decreases s.len() - i, 3int,
{
    proof {
        reveal_strlit(" ");
        reveal_strlit("!");
        reveal_strlit("&");
        reveal_strlit("(");
        reveal_strlit(")");
        reveal_strlit("*const ");
        reveal_strlit("*mut ");
        reveal_strlit(",)");
        reveal_strlit("; ");
        reveal_strlit("[");
        reveal_strlit("]");
        reveal_strlit("dyn ");
        reveal_strlit("fn(");
        reveal_strlit("impl ");
        reveal_strlit("mut ");
    }
    if !(0 <= i < s.len()) {
        None
    } else if lit_at(s, i, "&"@) {
        let l = lifetime_len(s, i + 1);
        let lifetime = if l > 0 && lit_at(s, i + 1 + l, " "@) {
            Some(s.subrange(i + 1, i + 1 + l))
        } else {
            None
        };
        let j = if lifetime is Some {
            i + 2 + l
        } else {
            i + 1
        };
        let mutable = lit_at(s, j, "mut "@);
        let k = if mutable {
            j + 4
        } else {
            j
        };
        match ty_at(s, k) {
            Some((e, n)) => Some(
                (Ty::Ref { lifetime, mutable, elem: Box::new(e) }, (k + n - i) as nat),
            ),
            None => None,
        }
    } else if lit_at(s, i, "*const "@) || lit_at(s, i, "*mut "@) {
        let mutable = lit_at(s, i, "*mut "@);
        let k = if mutable {
            i + 5
        } else {
            i + 7
        };
        match ty_at(s, k) {
            Some((e, n)) => Some((Ty::Ptr { mutable, elem: Box::new(e) }, (k + n - i) as nat)),
            None => None,
        }
    } else if lit_at(s, i, "["@) {
        match ty_at(s, i + 1) {
            Some((e, n)) => {
                let j = i + 1 + n;
                let d = run_len(s, j + 2, DIGITS);
                if lit_at(s, j, "]"@) {
                    Some((Ty::Slice(Box::new(e)), (n + 2) as nat))
                } else if lit_at(s, j, "; "@) && d > 0 && lit_at(s, j + 2 + d, "]"@) {
                    Some(
                        (
                            Ty::Array { elem: Box::new(e), len: s.subrange(j + 2, j + 2 + d) },
                            (n + d + 4) as nat,
                        ),
                    )
                } else {
                    None
                }
            },
            None => None,
        }
    } else if lit_at(s, i, "("@) {
        if lit_at(s, i + 1, ")"@) {
            Some((Ty::Tuple(Seq::empty()), 2))
        } else {
            match tys_at(s, i + 1) {
                Some((ts, n)) => {
                    let j = i + 1 + n;
                    if ts.len() == 1 && lit_at(s, j, ")"@) {
                        Some((Ty::Paren(Box::new(ts[0])), (n + 2) as nat))
                    } else if ts.len() == 1 && lit_at(s, j, ",)"@) {
                        Some((Ty::Tuple(ts), (n + 3) as nat))
                    } else if ts.len() > 1 && lit_at(s, j, ")"@) {
                        Some((Ty::Tuple(ts), (n + 2) as nat))
                    } else {
                        None
                    }
                },
                None => None,
            }
        }
    } else if lit_at(s, i, "!"@) {
        Some((Ty::Leaf("!"@), 1))
    } else if lit_at(s, i, "dyn "@) || lit_at(s, i, "impl "@) {
        let dyn_kw = lit_at(s, i, "dyn "@);
        let k = if dyn_kw {
            i + 4
        } else {
            i + 5
        };
        match bounds_at(s, k) {
            Some((bs, n)) => Some((Ty::Bounds { dyn_kw, bounds: bs }, (k + n - i) as nat)),
            None => None,
        }
    } else if lit_at(s, i + qualifiers_len(s, i), "fn("@) {
        let q = qualifiers_len(s, i);
        match paren_at(s, i + q + 3) {
            Some((params, output, n)) => Some(
                (
                    Ty::Fn { qualifiers: s.subrange(i, i + q), params, output },
                    (q + 3 + n) as nat,
                ),
            ),
            None => None,
        }
    } else {
        match path_at(s, i) {
            Some((p, n)) => Some((Ty::Path(p), n)),
            None => None,
        }
    }
}

/// A non-empty list of types separated by `, `.
pub open spec fn tys_at(s: Seq<char>, i: int) -> Option<(Seq<Ty>, nat)>
    decreases s.len() - i, 4int,
{
    proof {
        reveal_strlit(", ");
    }
    match ty_at(s, i) {
        Some((t, n)) => {
            let j = i + n;
            if lit_at(s, j, ", "@) {
                match tys_at(s, j + 2) {
                    Some((ts, m)) => Some((seq![t] + ts, (n + 2 + m) as nat)),
                    None => None,
                }
            } else {
                Some((seq![t], n))
            }
        },
        None => None,
    }
}

/// What follows an opening parenthesis of a parameter list: the types, `)`,
/// and an optional ` -> ` return type.
pub open spec fn paren_at(s: Seq<char>, i: int) -> Option<(Seq<Ty>, Option<Box<Ty>>, nat)>
    decreases s.len() - i, 5int,
{
    proof {
        reveal_strlit(" -> ");
        reveal_strlit(")");
    }
    let inputs: Option<(Seq<Ty>, nat)> = if lit_at(s, i, ")"@) {
        Some((Seq::empty(), 0))
    } else {
        tys_at(s, i)
    };
    match inputs {
        Some((ts, n)) => {
            let j = i + n;
            if !lit_at(s, j, ")"@) {
                None
            } else if lit_at(s, j + 1, " -> "@) {
                match ty_at(s, j + 5) {
                    Some((o, m)) => Some((ts, Some(Box::new(o)), (n + 5 + m) as nat)),
                    None => None,
                }
            } else {
                Some((ts, None, (n + 1) as nat))
            }
        },
        None => None,
    }
}

pub open spec fn path_at(s: Seq<char>, i: int) -> Option<(Path, nat)>
    decreases s.len() - i, 2int,
{
    proof {
        reveal_strlit("::");
    }
    let leading_colon = lit_at(s, i, "::"@);
    let j = if leading_colon {
        i + 2
    } else {
        i
    };
    match segments_at(s, j) {
        Some((segs, n)) => Some((Path { leading_colon, segments: segs }, (j + n - i) as nat)),
        None => None,
    }
}

/// A non-empty list of path segments separated by `::`.
pub open spec fn segments_at(s: Seq<char>, i: int) -> Option<(Seq<Segment>, nat)>
    decreases s.len() - i, 1int,
{
    proof {
        reveal_strlit("::");
    }
    match segment_at(s, i) {
        Some((g, n)) => {
            let j = i + n;
            if lit_at(s, j, "::"@) {
                match segments_at(s, j + 2) {
                    Some((gs, m)) => Some((seq![g] + gs, (n + 2 + m) as nat)),
                    None => None,
                }
            } else {
                Some((seq![g], n))
            }
        },
        None => None,
    }
}

pub open spec fn segment_at(s: Seq<char>, i: int) -> Option<(Segment, nat)>
    decreases s.len() - i, 0int,
{
    proof {
        reveal_strlit("(");
        reveal_strlit("<");
        reveal_strlit(">");
    }
    let w = word_len(s, i);
    let j = i + w;
    let ident = s.subrange(i, j);
    if w == 0 {
        None
    } else if lit_at(s, j, "<"@) {
        match generic_args_at(s, j + 1) {
            Some((args, n)) => if lit_at(s, j + 1 + n, ">"@) {
                Some((Segment { ident, args: PathArgs::Angle(args) }, (w + n + 2) as nat))
            } else {
                None
            },
            None => None,
        }
    } else if lit_at(s, j, "("@) {
        match paren_at(s, j + 1) {
            Some((inputs, output, n)) => Some(
                (Segment { ident, args: PathArgs::Paren { inputs, output } }, (w + 1 + n) as nat),
            ),
            None => None,
        }
    } else {
        Some((Segment { ident, args: PathArgs::Plain }, w))
    }
}

/// A non-empty list of generic arguments separated by `, `.
pub open spec fn generic_args_at(s: Seq<char>, i: int) -> Option<(Seq<GenericArg>, nat)>
    decreases s.len() - i, 5int,
{
    proof {
        reveal_strlit(", ");
    }
    match generic_arg_at(s, i) {
        Some((g, n)) => {
            let j = i + n;
            if lit_at(s, j, ", "@) {
                match generic_args_at(s, j + 2) {
                    Some((gs, m)) => Some((seq![g] + gs, (n + 2 + m) as nat)),
                    None => None,
                }
            } else {
                Some((seq![g], n))
            }
        },
        None => None,
    }
}

pub open spec fn generic_arg_at(s: Seq<char>, i: int) -> Option<(GenericArg, nat)>
    decreases s.len() - i, 4int,
{
    proof {
        reveal_strlit(" = ");
    }
    let l = lifetime_len(s, i);
    let d = run_len(s, i, DIGITS);
    let w = word_len(s, i);
    if l > 0 {
        Some((GenericArg::Verbatim(s.subrange(i, i + l)), l))
    } else if d > 0 {
        Some((GenericArg::Verbatim(s.subrange(i, i + d)), d))
    } else if w > 0 && lit_at(s, i + w, " = "@) {
        match ty_at(s, i + w + 3) {
            Some((t, n)) => Some(
                (GenericArg::Binding { name: s.subrange(i, i + w), ty: t }, (w + 3 + n) as nat),
            ),
            None => None,
        }
    } else {
        match ty_at(s, i) {
            Some((t, n)) => Some((GenericArg::Type(t), n)),
            None => None,
        }
    }
}

/// A non-empty list of bounds separated by ` + `.
pub open spec fn bounds_at(s: Seq<char>, i: int) -> Option<(Seq<Bound>, nat)>
    decreases s.len() - i, 4int,
{
    proof {
        reveal_strlit(" + ");
    }
    match bound_at(s, i) {
        Some((b, n)) => {
            let j = i + n;
            if lit_at(s, j, " + "@) {
                match bounds_at(s, j + 3) {
                    Some((bs, m)) => Some((seq![b] + bs, (n + 3 + m) as nat)),
                    None => None,
                }
            } else {
                Some((seq![b], n))
            }
        },
        None => None,
    }
}

pub open spec fn bound_at(s: Seq<char>, i: int) -> Option<(Bound, nat)>
    decreases s.len() - i, 3int,
{
    proof {
    }
    let l = lifetime_len(s, i);
    if l > 0 {
        Some((Bound::Verbatim(s.subrange(i, i + l)), l))
    } else {
        match path_at(s, i) {
            Some((p, n)) => Some((Bound::Trait(p), n)),
            None => None,
        }
    }
}

/// The tree of a whole descriptor: one type that takes every character.
pub open spec fn descriptor_tree(s: Seq<char>) -> Option<Ty> {
    match ty_at(s, 0) {
        Some((t, n)) => if n == s.len() {
            Some(t)
        } else {
            None
        },
        None => None,
    }
}

} // verus!
