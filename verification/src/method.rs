//! The method grammar: `name ( input? ) ( -> output )?`.  The input type is
//! optional (no type between the parentheses means a zero-argument call),
//! and so is the output (no `->` means no declared result).  Whitespace is
//! permitted around every delimiter.  A missing `(` after the name is a
//! recoverable failure reported at the name's position; once the `(` is
//! consumed, a missing `)` is fatal at the name's position, and a malformed
//! type — inside the parentheses or after `->` — is fatal at the type's own
//! position.

use vstd::prelude::*;

use crate::common::ErrV;
use crate::common::ErrorKind;
use crate::common::ParseError;
use crate::common::byte_at;
use crate::common::commit;
use crate::common::copy_bytes;
use crate::common::err_at;
use crate::common::ident_len;
use crate::common::is_ident_start;
use crate::common::make_err;
use crate::common::scan_ident;
use crate::common::skip_ws;
use crate::common::ws_len;
use crate::types::Type;
use crate::types::TypeV;
use crate::types::parse_type;
use crate::types::spec_type;
use crate::types::type_v;

verus! {

/// A method signature: its name, the optional input type and the optional
/// output type.  Absence of input means a zero-argument call; absence of
/// output means no declared return type.
#[derive(Debug, PartialEq, Eq)]
pub struct Method {
    pub name: Vec<u8>,
    pub input: Option<Type>,
    pub output: Option<Type>,
}

/// Mathematical model of a `Method`.
pub struct MethodV {
    pub name: Seq<u8>,
    pub input: Option<TypeV>,
    pub output: Option<TypeV>,
}

impl DeepView for Method {
    type V = MethodV;

    open spec fn deep_view(&self) -> MethodV {
        MethodV {
            name: self.name@,
            input: match self.input {
                Some(t) => Some(type_v(t)),
                None => None,
            },
            output: match self.output {
                Some(t) => Some(type_v(t)),
                None => None,
            },
        }
    }
}

/// What follows the closing `)` of a method signature, with `r` the position
/// right after it, `[i, j)` the name's span and `input_t` the model of the
/// parsed input type: an optional `->` followed by the output type.  With no
/// arrow the signature ends right after the `)` and nothing more is
/// consumed; once the arrow is consumed, a malformed output type is a fatal
/// failure.
pub open spec fn spec_method_tail(
    s: Seq<u8>,
    i: int,
    j: int,
    r: int,
    input_t: Option<TypeV>,
) -> Result<(nat, MethodV), ErrV> {
    let a = r + ws_len(s, r);
    if a + 1 < s.len() && s[a] == 45 && s[a + 1] == 62 {
        let b = a + 2 + ws_len(s, a + 2);
        match spec_type(s, b) {
            Ok((c, t)) => Ok(
                ((b + c - i) as nat, MethodV {
                    name: s.subrange(i, j),
                    input: input_t,
                    output: Some(t),
                }),
            ),
            Err(e) => Err(commit(e)),
        }
    } else {
        Ok(
            ((r - i) as nat, MethodV { name: s.subrange(i, j), input: input_t, output: None }),
        )
    }
}

/// What parsing a method signature at `i` yields: an identifier, `(`, an
/// optional input type, `)`, then `spec_method_tail` for the optional
/// output.  A position that does not start with an identifier fails
/// recoverably with `InvalidIdentifier`; a missing `(` fails recoverably at
/// the name's position; past the `(`, a missing `)` is fatal at the name's
/// position and a malformed input type is fatal where the type fails.
pub open spec fn spec_method(s: Seq<u8>, i: int) -> Result<(nat, MethodV), ErrV> {
    if 0 <= i && i < s.len() && is_ident_start(s[i]) {
        let j = i + 1 + ident_len(s, i + 1);
        let k = j + ws_len(s, j);
        if k < s.len() && s[k] == 40 {
            let m = k + 1 + ws_len(s, k + 1);
            if m < s.len() && s[m] == 41 {
                spec_method_tail(s, i, j, m + 1, None)
            } else {
                match spec_type(s, m) {
                    Err(e) => Err(commit(e)),
                    Ok((c, t)) => {
                        let r2 = m + c + ws_len(s, m + c);
                        if r2 < s.len() && s[r2] == 41 {
                            spec_method_tail(s, i, j, r2 + 1, Some(t))
                        } else {
                            Err(err_at(s, i, ErrorKind::ExpectedChar(41), true, None))
                        }
                    },
                }
            }
        } else {
            Err(err_at(s, i, ErrorKind::ExpectedChar(40), false, None))
        }
    } else {
        Err(err_at(s, i, ErrorKind::InvalidIdentifier, false, None))
    }
}

/// Parses a method signature at the start of `input`, exactly as
/// `spec_method` lays down.  On success the returned position is where the
/// unconsumed remainder of the input begins.
pub fn parse_method(input: &[u8]) -> (r: Result<(usize, Method), ParseError>)
    requires
        input@.len() < usize::MAX,
    ensures
        match (r, spec_method(input@, 0)) {
            (Ok((end, v)), Ok((c, sv))) => end == c && v.deep_view() == sv && end <= input@.len(),
            (Err(e), Err(se)) => e@ == se,
            _ => false,
        },
{
    if input.len() == 0 {
        return Err(make_err(input, 0, ErrorKind::InvalidIdentifier, false, None));
    }
    let c0 = byte_at(input, 0);
    if !((65 <= c0 && c0 <= 90) || (97 <= c0 && c0 <= 122) || c0 == 95) {
        return Err(make_err(input, 0, ErrorKind::InvalidIdentifier, false, None));
    }
    let j = scan_ident(input, 1);
    let name = copy_bytes(input, 0, j);
    let k = skip_ws(input, j);
    if k < input.len() && byte_at(input, k) == 40 {
        let m = skip_ws(input, k + 1);
        if m < input.len() && byte_at(input, m) == 41 {
            method_tail(input, name, m + 1, None, Ghost(j as int))
        } else {
            match parse_type(input, m) {
                Err(e) => Err(ParseError { fatal: true, ..e }),
                Ok((e1, t1)) => {
                    let r2 = skip_ws(input, e1);
                    if r2 < input.len() && byte_at(input, r2) == 41 {
                        method_tail(input, name, r2 + 1, Some(t1), Ghost(j as int))
                    } else {
                        Err(make_err(input, 0, ErrorKind::ExpectedChar(41), true, None))
                    }
                },
            }
        }
    } else {
        Err(make_err(input, 0, ErrorKind::ExpectedChar(40), false, None))
    }
}

/// Parses the optional `-> output` tail of a method signature from `rr`,
/// the position right after the closing `)`, exactly as `spec_method_tail`
/// lays down.
fn method_tail(
    input: &[u8],
    name: Vec<u8>,
    rr: usize,
    inp: Option<Type>,
    Ghost(j): Ghost<int>,
) -> (r: Result<(usize, Method), ParseError>)
    requires
        rr <= input@.len(),
        input@.len() < usize::MAX,
        0 < j <= input@.len(),
        name@ == input@.subrange(0, j),
    ensures
        match (r, spec_method_tail(
            input@,
            0,
            j,
            rr as int,
            match inp {
                Some(t) => Some(type_v(t)),
                None => None,
            },
        )) {
            (Ok((end, v)), Ok((c, sv))) => end == c && v.deep_view() == sv && end <= input@.len(),
            (Err(e), Err(se)) => e@ == se,
            _ => false,
        },
{
    let a = skip_ws(input, rr);
    if a + 1 < input.len() && byte_at(input, a) == 45 && byte_at(input, a + 1) == 62 {
        let b = skip_ws(input, a + 2);
        match parse_type(input, b) {
            Ok((e2, t)) => Ok((e2, Method { name, input: inp, output: Some(t) })),
            Err(e) => Err(ParseError { fatal: true, ..e }),
        }
    } else {
        Ok((rr, Method { name, input: inp, output: None }))
    }
}

} // verus!
