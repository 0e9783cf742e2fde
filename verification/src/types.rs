//! The type grammar: a possibly-generic type reference.  A type is an
//! identifier optionally followed by `<`, a comma-separated list of types
//! with an optional trailing comma, and `>`.  Generic arguments are
//! themselves types, so the grammar is recursive with no depth limit beyond
//! the input's size.  Once the opening `<` is consumed the rule is committed:
//! any malformed interior is a fatal failure, never a silent fallback to a
//! bare name.

use vstd::prelude::*;

use crate::common::ErrV;
use crate::common::ErrorKind;
use crate::common::ParseError;
use crate::common::byte_at;
use crate::common::commit;
use crate::common::copy_bytes;
use crate::common::err_at;
use crate::common::ident_len;
use crate::common::input_left;
use crate::common::is_ident_start;
use crate::common::make_err;
use crate::common::scan_ident;
use crate::common::skip_ws;
use crate::common::ws_len;

verus! {

/// A type reference: a name and its ordered generic arguments (empty for a
/// non-generic type).  Two types are equal iff names match and argument
/// sequences are pairwise equal, order-sensitive.
#[derive(Debug, PartialEq, Eq)]
pub enum Type {
    Named(Vec<u8>, Vec<Type>),
}

/// Mathematical model of a `Type`.
pub enum TypeV {
    Named(Seq<u8>, Seq<TypeV>),
}

/// The model of a `Type` value.
pub open spec fn type_v(t: Type) -> TypeV
    decreases t,
{
    match t {
        Type::Named(name, args) => TypeV::Named(name@, types_v(args@)),
    }
}

/// The models of a sequence of `Type` values, pairwise.
pub open spec fn types_v(ts: Seq<Type>) -> Seq<TypeV>
    decreases ts,
{
    if ts.len() == 0 {
        Seq::empty()
    } else {
        types_v(ts.drop_last()).push(type_v(ts.last()))
    }
}

impl DeepView for Type {
    type V = TypeV;

    open spec fn deep_view(&self) -> TypeV {
        type_v(*self)
    }
}

/// Taking the model of a sequence commutes with appending one element.
pub proof fn lemma_types_v_push(ts: Seq<Type>, t: Type)
    ensures
        types_v(ts.push(t)) == types_v(ts).push(type_v(t)),
{
    assert(ts.push(t).drop_last() =~= ts);
}

/// What parsing a type reference at `i` yields: an identifier, then —
/// committed by `<` after optional whitespace — a generic-argument list.
/// Without `<`, the type ends right after its identifier and nothing more is
/// consumed.  A position that does not start with an identifier fails
/// recoverably with `InvalidIdentifier`.
pub open spec fn spec_type(s: Seq<u8>, i: int) -> Result<(nat, TypeV), ErrV>
    decreases input_left(s, i), 0int,
{
    if 0 <= i && i < s.len() && is_ident_start(s[i]) {
        let j = i + 1 + ident_len(s, i + 1);
        let k = j + ws_len(s, j);
        if k < s.len() && s[k] == 60 {
            match spec_type_args(s, k + 1) {
                Ok((e, args)) => Ok(((e - i) as nat, TypeV::Named(s.subrange(i, j), args))),
                Err(er) => Err(commit(er)),
            }
        } else {
            Ok(((j - i) as nat, TypeV::Named(s.subrange(i, j), Seq::empty())))
        }
    } else {
        Err(err_at(s, i, ErrorKind::InvalidIdentifier, false, None))
    }
}

/// What parsing a generic-argument list yields, starting right after the
/// opening `<`: at least one type, then `spec_type_args_rest` for the
/// remaining list.  Returns the absolute position right after the closing
/// `>` together with the argument models.
pub open spec fn spec_type_args(s: Seq<u8>, i: int) -> Result<(int, Seq<TypeV>), ErrV>
    decreases input_left(s, i), 1int,
{
    let k = i + ws_len(s, i);
    match spec_type(s, k) {
        Err(e) => Err(e),
        Ok((c, t)) => spec_type_args_rest(s, k + c, seq![t]),
    }
}

/// The tail of a generic-argument list, starting right after the last parsed
/// argument with `acc` holding the models so far: either a separator comma
/// followed by a further argument (or by `>`, tolerating a trailing comma),
/// or the closing `>`.  Anything else is a fatal failure at the offending
/// position.
pub open spec fn spec_type_args_rest(s: Seq<u8>, i: int, acc: Seq<TypeV>) -> Result<
    (int, Seq<TypeV>),
    ErrV,
>
    decreases input_left(s, i), 0int,
{
    let p = i + ws_len(s, i);
    if p < s.len() && s[p] == 44 {
        let q = p + 1 + ws_len(s, p + 1);
        if q < s.len() && s[q] == 62 {
            Ok((q + 1, acc))
        } else {
            match spec_type(s, q) {
                Err(e) => Err(e),
                Ok((c, t)) => spec_type_args_rest(s, q + c, acc.push(t)),
            }
        }
    } else if p < s.len() && s[p] == 62 {
        Ok((p + 1, acc))
    } else {
        Err(err_at(s, p, ErrorKind::ExpectedChar(62), true, None))
    }
}

/// Trailing-comma tolerance: at the end of a generic-argument list, a comma
/// followed (up to whitespace) by the closing angle bracket yields exactly
/// the arguments gathered so far — the same abstract syntax as the closing
/// bracket alone.
pub proof fn lemma_type_args_trailing_comma(s: Seq<u8>, i: int, acc: Seq<TypeV>)
    requires
        0 <= i,
        ({
            let p = i + ws_len(s, i);
            p < s.len() && (s[p] == 62 || (s[p] == 44 && ({
                let q = p + 1 + ws_len(s, p + 1);
                q < s.len() && s[q] == 62
            })))
        }),
    ensures
        spec_type_args_rest(s, i, acc) is Ok,
        spec_type_args_rest(s, i, acc)->Ok_0.1 == acc,
{
}

/// Parses a type reference at `pos`, exactly as `spec_type` lays down.  On
/// success the returned position lies strictly beyond `pos` and inside the
/// buffer.
pub fn parse_type(input: &[u8], pos: usize) -> (r: Result<(usize, Type), ParseError>)
    requires
        pos <= input@.len(),
        input@.len() < usize::MAX,
    ensures
        match (r, spec_type(input@, pos as int)) {
            (Ok((end, v)), Ok((c, sv))) => end == pos + c && v.deep_view() == sv && pos < end
                <= input@.len(),
            (Err(e), Err(se)) => e@ == se,
            _ => false,
        },
    decreases input@.len() - pos,
{
    if pos >= input.len() {
        return Err(make_err(input, pos, ErrorKind::InvalidIdentifier, false, None));
    }
    let c0 = byte_at(input, pos);
    if !((65 <= c0 && c0 <= 90) || (97 <= c0 && c0 <= 122) || c0 == 95) {
        return Err(make_err(input, pos, ErrorKind::InvalidIdentifier, false, None));
    }
    let j = scan_ident(input, pos + 1);
    let name = copy_bytes(input, pos, j);
    if j < input.len() {
        let k = skip_ws(input, j);
        if k < input.len() && byte_at(input, k) == 60 {
            let m = skip_ws(input, k + 1);
            match parse_type(input, m) {
                Err(e) => {
                    return Err(ParseError { fatal: true, ..e });
                },
                Ok((e1, t1)) => {
                    let ghost t1v = t1.deep_view();
                    let mut args: Vec<Type> = Vec::new();
                    args.push(t1);
                    proof {
                        assert(types_v(args@.drop_last()) =~= Seq::<TypeV>::empty());
                        assert(types_v(args@) =~= seq![t1v]);
                    }
                    let ghost rest0 = spec_type_args_rest(input@, e1 as int, seq![t1v]);
                    let mut cur: usize = e1;
                    loop
                        invariant
                            pos < cur <= input@.len(),
                            input@.len() < usize::MAX,
                            spec_type_args_rest(input@, cur as int, types_v(args@)) == rest0,
                            spec_type(input@, pos as int) == (match rest0 {
                                Ok((e, a)) => Ok::<(nat, TypeV), ErrV>(
                                    ((e - pos) as nat,
                                    TypeV::Named(input@.subrange(pos as int, j as int), a)),
                                ),
                                Err(er) => Err::<(nat, TypeV), ErrV>(commit(er)),
                            }),
                            pos < j <= input@.len(),
                            name@ == input@.subrange(pos as int, j as int),
                        decreases input@.len() - cur,
                    {
                        let p = skip_ws(input, cur);
                        if p < input.len() && byte_at(input, p) == 44 {
                            let q = skip_ws(input, p + 1);
                            if q < input.len() && byte_at(input, q) == 62 {
                                return Ok((q + 1, Type::Named(name, args)));
                            } else {
                                match parse_type(input, q) {
                                    Err(e) => {
                                        return Err(ParseError { fatal: true, ..e });
                                    },
                                    Ok((e2, t2)) => {
                                        proof {
                                            lemma_types_v_push(args@, t2);
                                        }
                                        args.push(t2);
                                        cur = e2;
                                    },
                                }
                            }
                        } else if p < input.len() && byte_at(input, p) == 62 {
                            return Ok((p + 1, Type::Named(name, args)));
                        } else {
                            return Err(make_err(input, p, ErrorKind::ExpectedChar(62), true, None));
                        }
                    }
                },
            }
        } else {
            Ok((j, Type::Named(name, Vec::new())))
        }
    } else {
        Ok((j, Type::Named(name, Vec::new())))
    }
}

} // verus!
