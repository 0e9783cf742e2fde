//! The field-option grammar: a parenthesized, comma-separated list of
//! `name = value` pairs with an optional trailing comma.  Empty lists —
//! `()`, `( )`, `(,)` and the like — are valid and yield an empty sequence.
//! Once the opening `(` is consumed the rule is committed: any failure to
//! complete the list through the matching `)` is a fatal failure carrying
//! the contextual label `Ctx::Options`.

use vstd::prelude::*;

use crate::common::Ctx;
use crate::common::ErrV;
use crate::common::ErrorKind;
use crate::common::ParseError;
use crate::common::byte_at;
use crate::common::copy_bytes;
use crate::common::err_at;
use crate::common::ident_len;
use crate::common::is_ws;
use crate::common::lemma_ws_len_join;
use crate::common::lemma_ws_len_le;
use crate::common::lemma_ident_len_le;
use crate::common::input_left;
use crate::common::is_ident_start;
use crate::common::make_err;
use crate::common::opts_commit;
use crate::common::scan_ident;
use crate::common::skip_ws;
use crate::common::ws_len;
use crate::value::Value;
use crate::value::ValueV;
use crate::value::parse_value;
use crate::value::spec_value;

verus! {

/// One `name = value` entry of an option list.  Entries keep their source
/// order; duplicate names are permitted at the grammar level.
#[derive(Debug, PartialEq, Eq)]
pub struct FieldOption {
    pub name: Vec<u8>,
    pub value: Value,
}

/// Mathematical model of a `FieldOption`.
pub struct FieldOptionV {
    pub name: Seq<u8>,
    pub value: ValueV,
}

impl DeepView for FieldOption {
    type V = FieldOptionV;

    open spec fn deep_view(&self) -> FieldOptionV {
        FieldOptionV { name: self.name@, value: self.value.deep_view() }
    }
}

/// What parsing one `name = value` pair at `i` yields: optional whitespace,
/// an identifier, optional whitespace, `=`, optional whitespace, a literal
/// value.  Fails recoverably when the identifier or the `=` is missing; the
/// value grammar decides its own failures.
pub open spec fn spec_field_option(s: Seq<u8>, i: int) -> Result<(nat, FieldOptionV), ErrV> {
    let j = i + ws_len(s, i);
    if j < s.len() && is_ident_start(s[j]) {
        let j2 = j + 1 + ident_len(s, j + 1);
        let k = j2 + ws_len(s, j2);
        if k < s.len() && s[k] == 61 {
            let m = k + 1 + ws_len(s, k + 1);
            match spec_value(s, m) {
                Ok((c, v)) => Ok(
                    ((m + c - i) as nat, FieldOptionV { name: s.subrange(j, j2), value: v }),
                ),
                Err(e) => Err(e),
            }
        } else {
            Err(err_at(s, k, ErrorKind::ExpectedChar(61), false, None))
        }
    } else {
        Err(err_at(s, j, ErrorKind::InvalidIdentifier, false, None))
    }
}

/// The close of an option list, starting right after the last parsed entry
/// (or right after the `(` of an empty list): optional whitespace, an
/// optional trailing comma with optional whitespace, then the closing `)`.
/// Returns the absolute position right after the `)`; a missing `)` is a
/// fatal failure in the option-list context.
pub open spec fn spec_options_close(s: Seq<u8>, i: int) -> Result<int, ErrV> {
    let p = i + ws_len(s, i);
    let p2 = if p < s.len() && s[p] == 44 {
        p + 1 + ws_len(s, p + 1)
    } else {
        p
    };
    if p2 < s.len() && s[p2] == 41 {
        Ok(p2 + 1)
    } else {
        Err(err_at(s, p2, ErrorKind::ExpectedChar(41), true, Some(Ctx::Options)))
    }
}

/// The tail of an option list, starting right after the last parsed entry
/// with `acc` holding the models so far: a separator comma followed by a
/// further entry, repeated; when no further entry follows, the list is
/// closed by `spec_options_close` from the position before the separator,
/// which is how a trailing comma is tolerated.
pub open spec fn spec_options_rest(s: Seq<u8>, i: int, acc: Seq<FieldOptionV>) -> Result<
    (int, Seq<FieldOptionV>),
    ErrV,
>
    decreases input_left(s, i),
{
    let p = i + ws_len(s, i);
    if p < s.len() && s[p] == 44 {
        match spec_field_option(s, p + 1) {
            Ok((c, fo)) => spec_options_rest(s, p + 1 + c, acc.push(fo)),
            Err(e) => if e.fatal {
                Err(e)
            } else {
                match spec_options_close(s, i) {
                    Ok(e2) => Ok((e2, acc)),
                    Err(er) => Err(er),
                }
            },
        }
    } else {
        match spec_options_close(s, i) {
            Ok(e2) => Ok((e2, acc)),
            Err(er) => Err(er),
        }
    }
}

/// The interior of an option list, starting right after the opening `(`:
/// either a first entry followed by the list's tail, or — when no entry
/// matches — the immediate close of an empty list.
pub open spec fn spec_options_after(s: Seq<u8>, i: int) -> Result<
    (int, Seq<FieldOptionV>),
    ErrV,
> {
    match spec_field_option(s, i) {
        Ok((c, fo)) => spec_options_rest(s, i + c, seq![fo]),
        Err(e) => if e.fatal {
            Err(e)
        } else {
            match spec_options_close(s, i) {
                Ok(e2) => Ok((e2, Seq::empty())),
                Err(er) => Err(er),
            }
        },
    }
}

/// What parsing an option list at `i` yields: optional whitespace, `(`,
/// the interior, `)`.  A missing `(` is a recoverable failure; every
/// failure past the `(` is fatal and carries the `Ctx::Options` label.
pub open spec fn spec_field_options(s: Seq<u8>, i: int) -> Result<(nat, Seq<FieldOptionV>), ErrV> {
    let j = i + ws_len(s, i);
    if j < s.len() && s[j] == 40 {
        match spec_options_after(s, j + 1) {
            Ok((e, fos)) => Ok(((e - i) as nat, fos)),
            Err(er) => Err(opts_commit(er)),
        }
    } else {
        Err(err_at(s, j, ErrorKind::ExpectedChar(40), false, Some(Ctx::Options)))
    }
}

/// A successful entry parse consumes at least one byte and stays inside the
/// buffer.
pub proof fn lemma_field_option_consumed(s: Seq<u8>, i: int)
    requires
        0 <= i <= s.len(),
    ensures
        match spec_field_option(s, i) {
            Ok((c, _)) => 1 <= c && i + c <= s.len(),
            Err(_) => true,
        },
{
    let j = i + ws_len(s, i);
    lemma_ws_len_le(s, i);
    if j < s.len() && is_ident_start(s[j]) {
        let j2 = j + 1 + ident_len(s, j + 1);
        lemma_ident_len_le(s, j + 1);
        let k = j2 + ws_len(s, j2);
        lemma_ws_len_le(s, j2);
        if k < s.len() && s[k] == 61 {
            lemma_ws_len_le(s, k + 1);
            crate::value::lemma_value_consumed(s, k + 1 + ws_len(s, k + 1));
        }
    }
}

/// A successful close of an option list lands strictly beyond its start and
/// inside the buffer.
pub proof fn lemma_options_close_bounds(s: Seq<u8>, i: int)
    requires
        0 <= i <= s.len(),
    ensures
        match spec_options_close(s, i) {
            Ok(e2) => i < e2 <= s.len(),
            Err(_) => true,
        },
{
    lemma_ws_len_le(s, i);
    let p = i + ws_len(s, i);
    if p < s.len() && s[p] == 44 {
        lemma_ws_len_le(s, p + 1);
    }
}

/// A successfully parsed list tail lands strictly beyond its start and
/// inside the buffer.
pub proof fn lemma_options_rest_bounds(s: Seq<u8>, i: int, acc: Seq<FieldOptionV>)
    requires
        0 <= i <= s.len(),
    ensures
        match spec_options_rest(s, i, acc) {
            Ok((e2, _)) => i < e2 <= s.len(),
            Err(_) => true,
        },
    decreases input_left(s, i),
{
    lemma_ws_len_le(s, i);
    lemma_options_close_bounds(s, i);
    let p = i + ws_len(s, i);
    if p < s.len() && s[p] == 44 {
        lemma_field_option_consumed(s, p + 1);
        match spec_field_option(s, p + 1) {
            Ok((c, fo)) => {
                lemma_options_rest_bounds(s, p + 1 + c, acc.push(fo));
            },
            Err(_) => {},
        }
    }
}

/// A successfully parsed list interior lands strictly beyond its start and
/// inside the buffer.
pub proof fn lemma_options_after_bounds(s: Seq<u8>, i: int)
    requires
        0 <= i <= s.len(),
    ensures
        match spec_options_after(s, i) {
            Ok((e2, _)) => i < e2 <= s.len(),
            Err(_) => true,
        },
{
    lemma_field_option_consumed(s, i);
    lemma_options_close_bounds(s, i);
    match spec_field_option(s, i) {
        Ok((c, fo)) => {
            lemma_options_rest_bounds(s, i + c, seq![fo]);
        },
        Err(_) => {},
    }
}

/// Commit-point errors: whenever the opening parenthesis of an option list
/// is present, a failing parse is a fatal failure carrying the option-list
/// context — it is never reinterpreted as "the list did not match".
pub proof fn lemma_options_error_committed(s: Seq<u8>, i: int)
    requires
        0 <= i,
        i + ws_len(s, i) < s.len(),
        s[i + ws_len(s, i)] == 40,
        spec_field_options(s, i) is Err,
    ensures
        spec_field_options(s, i)->Err_0.fatal,
        spec_field_options(s, i)->Err_0.context == Some(Ctx::Options),
{
}

/// Empty-list acceptance: when the opening parenthesis is followed — up to
/// whitespace and at most one comma — by the closing parenthesis, the list
/// parses to the empty sequence of options.
pub proof fn lemma_options_empty(s: Seq<u8>, i: int)
    requires
        0 <= i,
        i + ws_len(s, i) < s.len(),
        s[i + ws_len(s, i)] == 40,
        ({
            let p = i + ws_len(s, i) + 1 + ws_len(s, i + ws_len(s, i) + 1);
            p < s.len() && (s[p] == 41 || (s[p] == 44 && ({
                let q = p + 1 + ws_len(s, p + 1);
                q < s.len() && s[q] == 41
            })))
        }),
    ensures
        spec_field_options(s, i) is Ok,
        spec_field_options(s, i)->Ok_0.1 == Seq::<FieldOptionV>::empty(),
{
}

/// Trailing-comma tolerance: at the end of an option list, a comma followed
/// (up to whitespace) by the closing parenthesis yields exactly the entries
/// gathered so far — the same abstract syntax as the closing parenthesis
/// alone.
pub proof fn lemma_options_trailing_comma(s: Seq<u8>, i: int, acc: Seq<FieldOptionV>)
    requires
        0 <= i,
        ({
            let p = i + ws_len(s, i);
            p < s.len() && (s[p] == 41 || (s[p] == 44 && ({
                let q = p + 1 + ws_len(s, p + 1);
                q < s.len() && s[q] == 41
            })))
        }),
    ensures
        spec_options_rest(s, i, acc) is Ok,
        spec_options_rest(s, i, acc)->Ok_0.1 == acc,
{
}

/// Whitespace invariance at the head of an option list: starting the parse
/// anywhere inside the leading whitespace run changes only how many bytes
/// are consumed, never the parsed entries nor a failure's position or kind.
pub proof fn lemma_options_leading_ws(s: Seq<u8>, i: int, i2: int)
    requires
        0 <= i <= i2 <= s.len(),
        forall|k: int| i <= k < i2 ==> is_ws(s[k]),
    ensures
        match (spec_field_options(s, i), spec_field_options(s, i2)) {
            (Ok((c1, v1)), Ok((c2, v2))) => i + c1 == i2 + c2 && v1 == v2,
            (Err(e1), Err(e2)) => e1 == e2,
            _ => false,
        },
{
    lemma_ws_len_join(s, i, i2);
    let j = i + ws_len(s, i);
    if j < s.len() && s[j] == 40 {
        lemma_options_after_bounds(s, j + 1);
    }
}

/// Parses one `name = value` pair at `pos`, exactly as `spec_field_option`
/// lays down.
fn parse_field_option(input: &[u8], pos: usize) -> (r: Result<(usize, FieldOption), ParseError>)
    requires
        pos <= input@.len(),
        input@.len() < usize::MAX,
    ensures
        match (r, spec_field_option(input@, pos as int)) {
            (Ok((end, v)), Ok((c, sv))) => end == pos + c && v.deep_view() == sv,
            (Err(e), Err(se)) => e@ == se,
            _ => false,
        },
        match r {
            Ok((end, _)) => end <= input@.len(),
            Err(_) => true,
        },
{
    let j = skip_ws(input, pos);
    if j < input.len() {
        let c0 = byte_at(input, j);
        if (65 <= c0 && c0 <= 90) || (97 <= c0 && c0 <= 122) || c0 == 95 {
            let j2 = scan_ident(input, j + 1);
            let name = copy_bytes(input, j, j2);
            let k = skip_ws(input, j2);
            if k < input.len() && byte_at(input, k) == 61 {
                let m = skip_ws(input, k + 1);
                match parse_value(input, m) {
                    Ok((end, v)) => {
                        return Ok((end, FieldOption { name, value: v }));
                    },
                    Err(e) => {
                        return Err(e);
                    },
                }
            } else {
                return Err(make_err(input, k, ErrorKind::ExpectedChar(61), false, None));
            }
        }
    }
    Err(make_err(input, j, ErrorKind::InvalidIdentifier, false, None))
}

/// Closes an option list from `pos`, exactly as `spec_options_close` lays
/// down, returning the position right after the `)`.
fn options_close(input: &[u8], pos: usize) -> (r: Result<usize, ParseError>)
    requires
        pos <= input@.len(),
        input@.len() < usize::MAX,
    ensures
        match (r, spec_options_close(input@, pos as int)) {
            (Ok(end), Ok(e2)) => end == e2 && end <= input@.len(),
            (Err(e), Err(se)) => e@ == se,
            _ => false,
        },
{
    let p = skip_ws(input, pos);
    let p2 = if p < input.len() && byte_at(input, p) == 44 {
        skip_ws(input, p + 1)
    } else {
        p
    };
    if p2 < input.len() && byte_at(input, p2) == 41 {
        Ok(p2 + 1)
    } else {
        Err(make_err(input, p2, ErrorKind::ExpectedChar(41), true, Some(Ctx::Options)))
    }
}

/// Parses the interior of an option list from `pos` (right after the `(`),
/// exactly as `spec_options_after` lays down.
fn options_after(input: &[u8], pos: usize) -> (r: Result<(usize, Vec<FieldOption>), ParseError>)
    requires
        pos <= input@.len(),
        input@.len() < usize::MAX,
    ensures
        match (r, spec_options_after(input@, pos as int)) {
            (Ok((end, v)), Ok((e2, sv))) => end == e2 && v.deep_view() == sv && end
                <= input@.len(),
            (Err(e), Err(se)) => e@ == se,
            _ => false,
        },
{
    match parse_field_option(input, pos) {
        Err(e) => {
            if e.fatal {
                Err(e)
            } else {
                match options_close(input, pos) {
                    Ok(end) => {
                        let items: Vec<FieldOption> = Vec::new();
                        proof {
                            assert(items.deep_view() =~= Seq::<FieldOptionV>::empty());
                        }
                        Ok((end, items))
                    },
                    Err(e2) => Err(e2),
                }
            }
        },
        Ok((end0, fo0)) => {
            let ghost fo0v = fo0.deep_view();
            let mut items: Vec<FieldOption> = Vec::new();
            items.push(fo0);
            proof {
                assert(items.deep_view() =~= seq![fo0v]);
            }
            let ghost rest0 = spec_options_rest(input@, end0 as int, seq![fo0v]);
            let mut cur: usize = end0;
            loop
                invariant
                    pos <= cur <= input@.len(),
                    input@.len() < usize::MAX,
                    spec_options_rest(input@, cur as int, items.deep_view()) == rest0,
                    spec_options_after(input@, pos as int) == rest0,
                decreases input@.len() - cur,
            {
                let p = skip_ws(input, cur);
                if p < input.len() && byte_at(input, p) == 44 {
                    match parse_field_option(input, p + 1) {
                        Ok((e2, fo2)) => {
                            let ghost before = items.deep_view();
                            let ghost fo2v = fo2.deep_view();
                            items.push(fo2);
                            proof {
                                assert(items.deep_view() =~= before.push(fo2v));
                            }
                            cur = e2;
                        },
                        Err(e) => {
                            if e.fatal {
                                return Err(e);
                            } else {
                                match options_close(input, cur) {
                                    Ok(end) => {
                                        return Ok((end, items));
                                    },
                                    Err(e2) => {
                                        return Err(e2);
                                    },
                                }
                            }
                        },
                    }
                } else {
                    match options_close(input, cur) {
                        Ok(end) => {
                            return Ok((end, items));
                        },
                        Err(e2) => {
                            return Err(e2);
                        },
                    }
                }
            }
        },
    }
}

/// Parses a parenthesized field-option list at the start of `input`,
/// exactly as `spec_field_options` lays down.  On success the returned
/// position is where the unconsumed remainder of the input begins.
pub fn parse_field_options(input: &[u8]) -> (r: Result<(usize, Vec<FieldOption>), ParseError>)
    requires
        input@.len() < usize::MAX,
    ensures
        match (r, spec_field_options(input@, 0)) {
            (Ok((end, v)), Ok((c, sv))) => end == c && v.deep_view() == sv && end <= input@.len(),
            (Err(e), Err(se)) => e@ == se,
            _ => false,
        },
{
    let j = skip_ws(input, 0);
    if j < input.len() && byte_at(input, j) == 40 {
        match options_after(input, j + 1) {
            Ok((end, items)) => Ok((end, items)),
            Err(e) => Err(ParseError { fatal: true, context: Some(Ctx::Options), ..e }),
        }
    } else {
        Err(make_err(input, j, ErrorKind::ExpectedChar(40), false, Some(Ctx::Options)))
    }
}

} // verus!
