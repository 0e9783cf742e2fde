//! Lexical primitives shared by every grammar rule: whitespace skipping,
//! identifier syntax, source-position bookkeeping and the error type.
//!
//! All specification functions work over a byte sequence `s` and an absolute
//! cursor position `i`; an executable counterpart is proved to compute exactly
//! the specified value.

use vstd::prelude::*;
use vstd::slice::slice_index_get;
use vstd::slice::slice_subrange;
use vstd::slice::slice_to_vec;

verus! {

/// Contextual label attached to an error, identifying the grammar rule that
/// was active when parsing failed.
#[derive(Debug, Clone, Copy, PartialEq, Eq)]
pub enum Ctx {
    /// A parenthesized field-option list.
    Options,
}

/// What was expected at the position where parsing failed.
#[derive(Debug, Clone, Copy, PartialEq, Eq)]
pub enum ErrorKind {
    /// The cursor does not start with an identifier token.
    InvalidIdentifier,
    /// No literal value form matches at the cursor.
    InvalidValue,
    /// A specific delimiter byte was expected.
    ExpectedChar(u8),
}

/// A located parse failure: absolute byte offset plus the 1-based line and
/// column derived from it, what was expected, whether the failure is fatal
/// (the rule had consumed a committing token) or recoverable (the rule did
/// not match at all), and an optional contextual label.
#[derive(Debug, Clone, Copy, PartialEq, Eq)]
pub struct ParseError {
    pub offset: usize,
    pub line: usize,
    pub column: usize,
    pub kind: ErrorKind,
    pub fatal: bool,
    pub context: Option<Ctx>,
}

/// Mathematical model of a `ParseError`.
pub struct ErrV {
    pub offset: int,
    pub line: int,
    pub column: int,
    pub kind: ErrorKind,
    pub fatal: bool,
    pub context: Option<Ctx>,
}

impl View for ParseError {
    type V = ErrV;

    open spec fn view(&self) -> ErrV {
        ErrV {
            offset: self.offset as int,
            line: self.line as int,
            column: self.column as int,
            kind: self.kind,
            fatal: self.fatal,
            context: self.context,
        }
    }
}

/// Whitespace: space, tab, line feed, carriage return.
pub open spec fn is_ws(c: u8) -> bool {
    c == 32 || c == 9 || c == 10 || c == 13
}

/// First byte of an identifier: a letter or an underscore.
pub open spec fn is_ident_start(c: u8) -> bool {
    (65 <= c && c <= 90) || (97 <= c && c <= 122) || c == 95
}

/// A decimal digit.
pub open spec fn is_digit(c: u8) -> bool {
    48 <= c && c <= 57
}

/// Continuation byte of an identifier: a letter, a digit or an underscore.
pub open spec fn is_ident_cont(c: u8) -> bool {
    is_ident_start(c) || is_digit(c)
}

/// Bytes left in `s` from position `i` on; the termination measure of every
/// recursive grammar function.
pub open spec fn input_left(s: Seq<u8>, i: int) -> int {
    if i <= s.len() {
        s.len() - i
    } else {
        0
    }
}

/// Length of the whitespace run starting at `i`.
pub open spec fn ws_len(s: Seq<u8>, i: int) -> nat
    decreases input_left(s, i),
{
    if 0 <= i && i < s.len() && is_ws(s[i]) {
        ws_len(s, i + 1) + 1
    } else {
        0
    }
}

/// Length of the identifier-continuation run starting at `i`.
pub open spec fn ident_len(s: Seq<u8>, i: int) -> nat
    decreases input_left(s, i),
{
    if 0 <= i && i < s.len() && is_ident_cont(s[i]) {
        ident_len(s, i + 1) + 1
    } else {
        0
    }
}

/// Number of line feeds in `s` before position `i`.
pub open spec fn nl_count(s: Seq<u8>, i: int) -> nat
    decreases i,
{
    if 0 < i && i <= s.len() {
        nl_count(s, i - 1) + if s[i - 1] == 10 {
            1nat
        } else {
            0nat
        }
    } else {
        0
    }
}

/// Position right after the last line feed before `i` (0 when there is none):
/// the start of the line that position `i` lies on.
pub open spec fn line_start(s: Seq<u8>, i: int) -> int
    decreases i,
{
    if 0 < i && i <= s.len() {
        if s[i - 1] == 10 {
            i
        } else {
            line_start(s, i - 1)
        }
    } else {
        0
    }
}

/// The error value reported for a failure at absolute offset `off` in `s`,
/// with its line and column derived from the offset.
pub open spec fn err_at(s: Seq<u8>, off: int, kind: ErrorKind, fatal: bool, context: Option<Ctx>) -> ErrV {
    ErrV {
        offset: off,
        line: nl_count(s, off) + 1int,
        column: off - line_start(s, off) + 1,
        kind: kind,
        fatal: fatal,
        context: context,
    }
}

/// The same failure, made fatal: how an error is re-labelled once the
/// enclosing rule has consumed a committing token.
pub open spec fn commit(e: ErrV) -> ErrV {
    ErrV { fatal: true, ..e }
}

/// The same failure, made fatal and labelled with the field-option-list
/// context.
pub open spec fn opts_commit(e: ErrV) -> ErrV {
    ErrV { fatal: true, context: Some(Ctx::Options), ..e }
}

/// What a successful identifier parse at `i` yields: the consumed length and
/// the identifier's bytes; or the recoverable failure when `i` does not start
/// with an identifier.
pub open spec fn spec_identifier(s: Seq<u8>, i: int) -> Result<(nat, Seq<u8>), ErrV> {
    if 0 <= i && i < s.len() && is_ident_start(s[i]) {
        let j = i + 1 + ident_len(s, i + 1);
        Ok(((j - i) as nat, s.subrange(i, j)))
    } else {
        Err(err_at(s, i, ErrorKind::InvalidIdentifier, false, None))
    }
}

/// The whitespace run starting at a valid position stays inside the buffer.
pub proof fn lemma_ws_len_le(s: Seq<u8>, i: int)
    requires
        0 <= i <= s.len(),
    ensures
        i + ws_len(s, i) <= s.len(),
    decreases s.len() - i,
{
    if i < s.len() && is_ws(s[i]) {
        lemma_ws_len_le(s, i + 1);
    }
}

/// The identifier run starting at a valid position stays inside the buffer.
pub proof fn lemma_ident_len_le(s: Seq<u8>, i: int)
    requires
        0 <= i <= s.len(),
    ensures
        i + ident_len(s, i) <= s.len(),
    decreases s.len() - i,
{
    if i < s.len() && is_ident_cont(s[i]) {
        lemma_ident_len_le(s, i + 1);
    }
}

/// A run of whitespace can be skipped from either end: landing positions
/// agree.
pub proof fn lemma_ws_len_join(s: Seq<u8>, i: int, j: int)
    requires
        0 <= i <= j <= s.len(),
        forall|k: int| i <= k < j ==> is_ws(s[k]),
    ensures
        i + ws_len(s, i) == j + ws_len(s, j),
    decreases j - i,
{
    if i < j {
        assert(is_ws(s[i]));
        lemma_ws_len_join(s, i + 1, j);
    }
}

/// Reads one byte.
pub(crate) fn byte_at(input: &[u8], i: usize) -> (c: u8)
    requires
        i < input@.len(),
    ensures
        c == input@[i as int],
{
    *slice_index_get(input, i)
}

/// True when position `i` is inside the buffer and holds whitespace.
fn at_ws(input: &[u8], i: usize) -> (r: bool)
    requires
        i <= input@.len(),
    ensures
        r == (i < input@.len() && is_ws(input@[i as int])),
{
    if i < input.len() {
        let c = byte_at(input, i);
        c == 32 || c == 9 || c == 10 || c == 13
    } else {
        false
    }
}

/// True when position `i` is inside the buffer and holds an
/// identifier-continuation byte.
fn at_ident_cont(input: &[u8], i: usize) -> (r: bool)
    requires
        i <= input@.len(),
    ensures
        r == (i < input@.len() && is_ident_cont(input@[i as int])),
{
    if i < input.len() {
        let c = byte_at(input, i);
        (65 <= c && c <= 90) || (97 <= c && c <= 122) || c == 95 || (48 <= c && c <= 57)
    } else {
        false
    }
}

/// Skips the whitespace run starting at `pos` and returns the landing
/// position.
pub(crate) fn skip_ws(input: &[u8], pos: usize) -> (r: usize)
    requires
        pos <= input@.len(),
    ensures
        r == pos + ws_len(input@, pos as int),
        pos <= r <= input@.len(),
{
    let n = input.len();
    let mut cur: usize = pos;
    while at_ws(input, cur)
        invariant
            n == input@.len(),
            pos <= cur <= input@.len(),
            pos + ws_len(input@, pos as int) == cur + ws_len(input@, cur as int),
        decreases input@.len() - cur,
    {
        cur = cur + 1;
    }
    cur
}

/// Scans the identifier-continuation run starting at `pos` and returns the
/// landing position.
pub(crate) fn scan_ident(input: &[u8], pos: usize) -> (r: usize)
    requires
        pos <= input@.len(),
    ensures
        r == pos + ident_len(input@, pos as int),
        pos <= r <= input@.len(),
{
    let n = input.len();
    let mut cur: usize = pos;
    while at_ident_cont(input, cur)
        invariant
            n == input@.len(),
            pos <= cur <= input@.len(),
            pos + ident_len(input@, pos as int) == cur + ident_len(input@, cur as int),
        decreases input@.len() - cur,
    {
        cur = cur + 1;
    }
    cur
}

/// Copies the bytes of `input` in `[a, b)` into an owned vector.
pub(crate) fn copy_bytes(input: &[u8], a: usize, b: usize) -> (v: Vec<u8>)
    requires
        a <= b <= input@.len(),
    ensures
        v@ == input@.subrange(a as int, b as int),
{
    slice_to_vec(slice_subrange(input, a, b))
}

/// Builds the error value for a failure at `offset`, deriving the 1-based
/// line and column by counting line feeds in the prefix.
pub(crate) fn make_err(input: &[u8], offset: usize, kind: ErrorKind, fatal: bool, context: Option<Ctx>) -> (e: ParseError)
    requires
        offset <= input@.len(),
        input@.len() < usize::MAX,
    ensures
        e@ == err_at(input@, offset as int, kind, fatal, context),
{
    let mut i: usize = 0;
    let mut nl: usize = 0;
    let mut start: usize = 0;
    while i < offset
        invariant
            i <= offset <= input@.len(),
            input@.len() < usize::MAX,
            nl == nl_count(input@, i as int),
            start == line_start(input@, i as int),
            nl <= i,
            start <= i,
        decreases offset - i,
    {
        if byte_at(input, i) == 10 {
            nl = nl + 1;
            start = i + 1;
        }
        i = i + 1;
    }
    ParseError {
        offset: offset,
        line: nl + 1,
        column: offset - start + 1,
        kind: kind,
        fatal: fatal,
        context: context,
    }
}

/// Parses an identifier at `pos`: a letter or underscore followed by letters,
/// digits and underscores.  Fails recoverably with `InvalidIdentifier` when
/// `pos` does not start with such a token.
pub fn parse_identifier(input: &[u8], pos: usize) -> (r: Result<(usize, Vec<u8>), ParseError>)
    requires
        pos <= input@.len(),
        input@.len() < usize::MAX,
    ensures
        match (r, spec_identifier(input@, pos as int)) {
            (Ok((end, v)), Ok((c, sv))) => end == pos + c && v@ == sv,
            (Err(e), Err(se)) => e@ == se,
            _ => false,
        },
{
    if pos < input.len() {
        let c = byte_at(input, pos);
        if (65 <= c && c <= 90) || (97 <= c && c <= 122) || c == 95 {
            let j = scan_ident(input, pos + 1);
            let name = copy_bytes(input, pos, j);
            return Ok((j, name));
        }
    }
    Err(make_err(input, pos, ErrorKind::InvalidIdentifier, false, None))
}

} // verus!
