//! The format-string compiler: scans a literal template left to right into
//! text and placeholder segments, parses each placeholder interior under
//! the hint grammar, and rejects duplicate or conflicting hints before any
//! character is ever written.
//!
//! Grammar: `%` escapes the following character as a literal (including
//! `{`, `}` and `%` itself). An unescaped `{` opens a placeholder and an
//! unescaped `}` closes it; the interior is split on `:` into tokens, each
//! of which may occur at most once per hint kind: `#` (pretty), `?` (debug
//! method), `x`/`X` (radix 16 plus lower/upper case), `o`/`O` (radix 8),
//! `b`/`B` (radix 2), `r<N>`/`R<N>` (radix N, 2..=36), `w<N>`/`W<N>`
//! (width), `p<N>`/`P<N>` (precision), `u`/`U` (uppercase), `l`/`L`
//! (lowercase).

use vstd::prelude::*;

use crate::codec::radix_hint_ok;
use crate::directive::default_directive;
use crate::directive::new_directive;
use crate::directive::segments_view;
use crate::directive::CompileError;
use crate::directive::Directive;
use crate::directive::FormatTemplate;
use crate::directive::Method;
use crate::directive::lemma_wf_push_placeholder;
use crate::directive::lemma_wf_push_text;
use crate::directive::template_wf;
use crate::directive::Segment;
use crate::directive::SpecSegment;

verus! {

/// Whether a character is a decimal digit.
pub open spec fn is_digit(c: char) -> bool {
    48 <= c as u32 <= 57
}

/// Whether every character of a sequence is a decimal digit.
pub open spec fn all_digits(s: Seq<char>) -> bool {
    forall|i: int| 0 <= i < s.len() ==> is_digit(#[trigger] s[i])
}

/// The decimal value of a digit sequence.
pub open spec fn digits_val(s: Seq<char>) -> nat
    decreases s.len(),
{
    if s.len() == 0 {
        0
    } else {
        digits_val(s.drop_last()) * 10 + (s.last() as u32 - 48) as nat
    }
}

/// The number a hint token's value part denotes: defined exactly for a
/// nonempty all-digit sequence whose value fits the machine word.
pub open spec fn spec_parse_usize(s: Seq<char>) -> Option<usize> {
    if s.len() > 0 && all_digits(s) && digits_val(s) <= usize::MAX {
        Some(digits_val(s) as usize)
    } else {
        None
    }
}

/// Splitting a character sequence on `:`, keeping empty parts, as the
/// placeholder interior is split into hint tokens.
pub open spec fn spec_split_colon(s: Seq<char>) -> Seq<Seq<char>>
    decreases s.len(),
{
    if s.len() == 0 {
        seq![Seq::<char>::empty()]
    } else {
        let rest = spec_split_colon(s.drop_last());
        let c = s.last();
        if c == ':' {
            rest.push(Seq::<char>::empty())
        } else {
            rest.update(rest.len() - 1, rest.last().push(c))
        }
    }
}

/// The effect of one hint token on a directive under construction: the
/// updated directive, or the compile error the token provokes.
pub open spec fn spec_apply_token(tok: Seq<char>, d: Directive) -> Result<
    Directive,
    CompileError,
> {
    if tok.len() == 1 && tok[0] == '#' {
        if d.pretty {
            Err(CompileError::DuplicatePretty)
        } else {
            Ok(Directive { pretty: true, ..d })
        }
    } else if tok.len() == 1 && tok[0] == '?' {
        Ok(Directive { method: Method::Debug, ..d })
    } else if tok.len() == 1 && tok[0] == 'x' {
        if d.radix is Some {
            Err(CompileError::RadixConflict)
        } else if d.case == Some(true) {
            Err(CompileError::CaseConflict)
        } else {
            Ok(Directive { radix: Some(16), case: Some(false), ..d })
        }
    } else if tok.len() == 1 && tok[0] == 'X' {
        if d.radix is Some {
            Err(CompileError::RadixConflict)
        } else if d.case == Some(false) {
            Err(CompileError::CaseConflict)
        } else {
            Ok(Directive { radix: Some(16), case: Some(true), ..d })
        }
    } else if tok.len() == 1 && (tok[0] == 'o' || tok[0] == 'O') {
        if d.radix is Some {
            Err(CompileError::RadixConflict)
        } else {
            Ok(Directive { radix: Some(8), ..d })
        }
    } else if tok.len() == 1 && (tok[0] == 'b' || tok[0] == 'B') {
        if d.radix is Some {
            Err(CompileError::RadixConflict)
        } else {
            Ok(Directive { radix: Some(2), ..d })
        }
    } else if tok.len() == 1 && (tok[0] == 'u' || tok[0] == 'U') {
        if d.case is Some {
            Err(CompileError::CaseConflict)
        } else {
            Ok(Directive { case: Some(true), ..d })
        }
    } else if tok.len() == 1 && (tok[0] == 'l' || tok[0] == 'L') {
        if d.case is Some {
            Err(CompileError::CaseConflict)
        } else {
            Ok(Directive { case: Some(false), ..d })
        }
    } else if tok.len() >= 1 && (tok[0] == 'r' || tok[0] == 'R') {
        if d.radix is Some {
            Err(CompileError::RadixConflict)
        } else {
            match spec_parse_usize(tok.skip(1)) {
                Some(n) => if 2 <= n <= 36 {
                    Ok(Directive { radix: Some(n), ..d })
                } else {
                    Err(CompileError::RadixOutOfRange)
                },
                None => Err(CompileError::UnknownHint),
            }
        }
    } else if tok.len() >= 1 && (tok[0] == 'w' || tok[0] == 'W') {
        if d.width is Some {
            Err(CompileError::DuplicateWidth)
        } else {
            match spec_parse_usize(tok.skip(1)) {
                Some(n) => Ok(Directive { width: Some(n), ..d }),
                None => Err(CompileError::UnknownHint),
            }
        }
    } else if tok.len() >= 1 && (tok[0] == 'p' || tok[0] == 'P') {
        if d.precision is Some {
            Err(CompileError::DuplicatePrecision)
        } else {
            match spec_parse_usize(tok.skip(1)) {
                Some(n) => Ok(Directive { precision: Some(n), ..d }),
                None => Err(CompileError::UnknownHint),
            }
        }
    } else {
        Err(CompileError::UnknownHint)
    }
}

/// Folding a token list over a directive, stopping at the first error.
pub open spec fn spec_apply_tokens(toks: Seq<Seq<char>>, d: Directive) -> Result<
    Directive,
    CompileError,
>
    decreases toks.len(),
{
    if toks.len() == 0 {
        Ok(d)
    } else {
        match spec_apply_token(toks[0], d) {
            Ok(d2) => spec_apply_tokens(toks.drop_first(), d2),
            Err(e) => Err(e),
        }
    }
}

/// The directive a placeholder interior denotes: an empty interior means
/// display with no hints; otherwise the interior is split on `:` and each
/// token applied in order.
pub open spec fn spec_parse_placeholder(interior: Seq<char>) -> Result<Directive, CompileError> {
    if interior.len() == 0 {
        Ok(default_directive())
    } else {
        spec_apply_tokens(spec_split_colon(interior), default_directive())
    }
}

/// A longer prefix of a digit sequence never denotes a smaller value.
proof fn lemma_digits_val_monotone(s: Seq<char>, k: int)
    requires
        0 <= k <= s.len(),
    ensures
        digits_val(s) >= digits_val(s.take(k)),
    decreases s.len() - k,
{
    if k < s.len() {
        assert(s.take(k + 1).drop_last() =~= s.take(k));
        assert(digits_val(s.take(k + 1)) >= digits_val(s.take(k)));
        lemma_digits_val_monotone(s, k + 1);
    } else {
        assert(s.take(k) =~= s);
    }
}

/// Parses the value part of a hint token: the characters of `tok` from
/// `start` on, as a decimal number.
fn parse_number(tok: &Vec<char>, start: usize) -> (r: Option<usize>)
    requires
        start <= tok@.len(),
    ensures
        r == spec_parse_usize(tok@.skip(start as int)),
{
    let ghost s = tok@.skip(start as int);
    let n = tok.len();
    if start == n {
        return None;
    }
    let mut cur: usize = 0;
    let mut j: usize = 0;
    proof {
        assert(s.take(0) =~= Seq::<char>::empty());
    }
    while j < n - start
        invariant
            start + j <= n,
            n == tok@.len(),
            start < n,
            s == tok@.skip(start as int),
            s.len() == n - start,
            all_digits(s.take(j as int)),
            cur == digits_val(s.take(j as int)),
        decreases n - start - j,
    {
        let c = tok[start + j];
        assert(c == s[j as int]);
        let v = c as u32;
        proof {
            assert(s.take(j + 1).drop_last() =~= s.take(j as int));
            assert(s.take(j + 1).last() == s[j as int]);
        }
        if v < 48 || v > 57 {
            proof {
                assert(!is_digit(s[j as int]));
                assert(!all_digits(s));
            }
            return None;
        }
        let d = (v - 48) as usize;
        let next = match cur.checked_mul(10) {
            Some(m) => m.checked_add(d),
            None => None,
        };
        match next {
            Some(val) => {
                proof {
                    assert(all_digits(s.take(j + 1))) by {
                        let t = s.take(j + 1);
                        assert forall|k: int| 0 <= k < t.len() implies is_digit(#[trigger] t[k]) by {
                            assert(t[k] == s[k]);
                            if k < j {
                                assert(is_digit(s.take(j as int)[k]));
                            }
                        }
                    }
                    assert(digits_val(s.take(j + 1)) == cur * 10 + d);
                }
                cur = val;
            },
            None => {
                proof {
                    assert(digits_val(s.take(j + 1)) == cur * 10 + (s[j as int] as u32 - 48) as nat);
                    assert(digits_val(s.take(j + 1)) > usize::MAX);
                    if all_digits(s) {
                        lemma_digits_val_monotone(s, j + 1);
                        assert(digits_val(s) > usize::MAX);
                    }
                }
                return None;
            },
        }
        j = j + 1;
    }
    proof {
        assert(s.take(j as int) =~= s);
    }
    Some(cur)
}

/// Applies one hint token to the directive under construction.
fn apply_token(tok: &Vec<char>, d: Directive) -> (r: Result<Directive, CompileError>)
    ensures
        r == spec_apply_token(tok@, d),
{
    let n = tok.len();
    if n == 1 && tok[0] == '#' {
        if d.pretty {
            Err(CompileError::DuplicatePretty)
        } else {
            Ok(Directive { pretty: true, ..d })
        }
    } else if n == 1 && tok[0] == '?' {
        Ok(Directive { method: Method::Debug, ..d })
    } else if n == 1 && tok[0] == 'x' {
        if d.radix.is_some() {
            Err(CompileError::RadixConflict)
        } else if d.case == Some(true) {
            Err(CompileError::CaseConflict)
        } else {
            Ok(Directive { radix: Some(16), case: Some(false), ..d })
        }
    } else if n == 1 && tok[0] == 'X' {
        if d.radix.is_some() {
            Err(CompileError::RadixConflict)
        } else if d.case == Some(false) {
            Err(CompileError::CaseConflict)
        } else {
            Ok(Directive { radix: Some(16), case: Some(true), ..d })
        }
    } else if n == 1 && (tok[0] == 'o' || tok[0] == 'O') {
        if d.radix.is_some() {
            Err(CompileError::RadixConflict)
        } else {
            Ok(Directive { radix: Some(8), ..d })
        }
    } else if n == 1 && (tok[0] == 'b' || tok[0] == 'B') {
        if d.radix.is_some() {
            Err(CompileError::RadixConflict)
        } else {
            Ok(Directive { radix: Some(2), ..d })
        }
    } else if n == 1 && (tok[0] == 'u' || tok[0] == 'U') {
        if d.case.is_some() {
            Err(CompileError::CaseConflict)
        } else {
            Ok(Directive { case: Some(true), ..d })
        }
    } else if n == 1 && (tok[0] == 'l' || tok[0] == 'L') {
        if d.case.is_some() {
            Err(CompileError::CaseConflict)
        } else {
            Ok(Directive { case: Some(false), ..d })
        }
    } else if n >= 1 && (tok[0] == 'r' || tok[0] == 'R') {
        if d.radix.is_some() {
            Err(CompileError::RadixConflict)
        } else {
            match parse_number(tok, 1) {
                Some(v) => if 2 <= v && v <= 36 {
                    Ok(Directive { radix: Some(v), ..d })
                } else {
                    Err(CompileError::RadixOutOfRange)
                },
                None => Err(CompileError::UnknownHint),
            }
        }
    } else if n >= 1 && (tok[0] == 'w' || tok[0] == 'W') {
        if d.width.is_some() {
            Err(CompileError::DuplicateWidth)
        } else {
            match parse_number(tok, 1) {
                Some(v) => Ok(Directive { width: Some(v), ..d }),
                None => Err(CompileError::UnknownHint),
            }
        }
    } else if n >= 1 && (tok[0] == 'p' || tok[0] == 'P') {
        if d.precision.is_some() {
            Err(CompileError::DuplicatePrecision)
        } else {
            match parse_number(tok, 1) {
                Some(v) => Ok(Directive { precision: Some(v), ..d }),
                None => Err(CompileError::UnknownHint),
            }
        }
    } else {
        Err(CompileError::UnknownHint)
    }
}

/// The token views of a token list.
pub open spec fn tokens_view(tokens: Seq<Vec<char>>) -> Seq<Seq<char>> {
    tokens.map_values(|t: Vec<char>| t@)
}

/// Parses one placeholder interior into a directive: split on `:`, then
/// each token applied in order, each hint kind at most once.
pub fn parse_fmt_placeholder(interior: &Vec<char>) -> (r: Result<Directive, CompileError>)
    ensures
        r == spec_parse_placeholder(interior@),
{
    if interior.len() == 0 {
        return Ok(new_directive());
    }
    let mut tokens: Vec<Vec<char>> = Vec::new();
    let mut cur: Vec<char> = Vec::new();
    let mut i: usize = 0;
    proof {
        assert(interior@.take(0) =~= Seq::<char>::empty());
        assert(spec_split_colon(interior@.take(0)) =~= tokens_view(tokens@).push(cur@));
    }
    while i < interior.len()
        invariant
            i <= interior@.len(),
            spec_split_colon(interior@.take(i as int)) == tokens_view(tokens@).push(cur@),
        decreases interior@.len() - i,
    {
        let c = interior[i];
        proof {
            assert(interior@.take(i + 1).drop_last() =~= interior@.take(i as int));
            assert(interior@.take(i + 1).last() == interior@[i as int]);
        }
        if c == ':' {
            let ghost old_tokens = tokens@;
            let ghost old_cur = cur@;
            tokens.push(cur);
            cur = Vec::new();
            proof {
                assert(tokens_view(tokens@) =~= tokens_view(old_tokens).push(old_cur));
                assert(spec_split_colon(interior@.take(i + 1)) =~= tokens_view(tokens@).push(
                    cur@,
                ));
            }
        } else {
            let ghost old_cur = cur@;
            cur.push(c);
            proof {
                let rest = tokens_view(tokens@).push(old_cur);
                assert(rest.last() == old_cur);
                assert(rest.update(rest.len() - 1, old_cur.push(c)) =~= tokens_view(
                    tokens@,
                ).push(cur@));
            }
        }
        i = i + 1;
    }
    proof {
        assert(interior@.take(interior@.len() as int) =~= interior@);
    }
    let ghost old_tokens = tokens@;
    let ghost last_cur = cur@;
    tokens.push(cur);
    proof {
        assert(tokens_view(tokens@) =~= tokens_view(old_tokens).push(last_cur));
    }
    let ghost all = spec_split_colon(interior@);
    assert(all == tokens_view(tokens@));

    let mut d = new_directive();
    let mut j: usize = 0;
    proof {
        assert(all.skip(0) =~= all);
    }
    while j < tokens.len()
        invariant
            j <= tokens@.len(),
            interior@.len() > 0,
            all == spec_split_colon(interior@),
            all == tokens_view(tokens@),
            spec_apply_tokens(all, default_directive()) == spec_apply_tokens(
                all.skip(j as int),
                d,
            ),
        decreases tokens@.len() - j,
    {
        proof {
            assert(all.skip(j as int).drop_first() =~= all.skip(j + 1));
            assert(all.skip(j as int)[0] == all[j as int]);
            assert(all[j as int] == tokens@[j as int]@);
        }
        match apply_token(&tokens[j], d) {
            Ok(d2) => {
                d = d2;
            },
            Err(e) => {
                proof {
                    assert(all.skip(j as int).len() > 0);
                    assert(spec_apply_token(all.skip(j as int)[0], d) == Err::<
                        Directive,
                        CompileError,
                    >(e));
                    assert(spec_apply_tokens(all.skip(j as int), d) == Err::<
                        Directive,
                        CompileError,
                    >(e));
                }
                return Err(e);
            },
        }
        j = j + 1;
    }
    proof {
        assert(all.skip(tokens@.len() as int) =~= Seq::<Seq<char>>::empty());
    }
    Ok(d)
}

/// The scanner state after some prefix of the template: the segments
/// already closed, the pending literal or placeholder-interior text, and
/// whether the scanner stands inside a placeholder or right after an
/// escape character.
pub struct ScanState {
    pub segments: Seq<SpecSegment>,
    pub pending: Seq<char>,
    pub in_placeholder: bool,
    pub escape: bool,
}

/// The scanner state before any character.
pub open spec fn initial_scan_state() -> ScanState {
    ScanState {
        segments: Seq::empty(),
        pending: Seq::empty(),
        in_placeholder: false,
        escape: false,
    }
}

/// One scanner step: how one template character transforms the state.
pub open spec fn spec_step(st: ScanState, c: char) -> Result<ScanState, CompileError> {
    if st.escape {
        Ok(ScanState { pending: st.pending.push(c), escape: false, ..st })
    } else if c == '{' && !st.in_placeholder {
        Ok(
            ScanState {
                segments: if st.pending.len() > 0 {
                    st.segments.push(SpecSegment::Text(st.pending))
                } else {
                    st.segments
                },
                pending: Seq::empty(),
                in_placeholder: true,
                escape: false,
            },
        )
    } else if c == '}' && st.in_placeholder {
        match spec_parse_placeholder(st.pending) {
            Ok(d) => Ok(
                ScanState {
                    segments: st.segments.push(SpecSegment::Placeholder(d)),
                    pending: Seq::empty(),
                    in_placeholder: false,
                    escape: false,
                },
            ),
            Err(e) => Err(e),
        }
    } else if c == '%' {
        Ok(ScanState { escape: true, ..st })
    } else {
        Ok(ScanState { pending: st.pending.push(c), ..st })
    }
}

/// The scanner state after a whole character sequence, or the first error
/// it provokes.
pub open spec fn spec_scan(s: Seq<char>) -> Result<ScanState, CompileError>
    decreases s.len(),
{
    if s.len() == 0 {
        Ok(initial_scan_state())
    } else {
        match spec_scan(s.drop_last()) {
            Ok(st) => spec_step(st, s.last()),
            Err(e) => Err(e),
        }
    }
}

/// A successful token application keeps the radix hint within 2..=36.
proof fn lemma_apply_token_radix_ok(tok: Seq<char>, d: Directive, d2: Directive)
    requires
        radix_hint_ok(d.radix),
        spec_apply_token(tok, d) == Ok::<Directive, CompileError>(d2),
    ensures
        radix_hint_ok(d2.radix),
{
}

/// A successful token fold keeps the radix hint within 2..=36.
proof fn lemma_apply_tokens_radix_ok(toks: Seq<Seq<char>>, d: Directive, d2: Directive)
    requires
        radix_hint_ok(d.radix),
        spec_apply_tokens(toks, d) == Ok::<Directive, CompileError>(d2),
    ensures
        radix_hint_ok(d2.radix),
    decreases toks.len(),
{
    if toks.len() > 0 {
        let step = spec_apply_token(toks[0], d);
        if step is Ok {
            lemma_apply_token_radix_ok(toks[0], d, step->Ok_0);
            lemma_apply_tokens_radix_ok(toks.drop_first(), step->Ok_0, d2);
        }
    }
}

/// A compiled directive always carries a radix hint within 2..=36.
pub proof fn lemma_parse_placeholder_radix_ok(interior: Seq<char>, d: Directive)
    requires
        spec_parse_placeholder(interior) == Ok::<Directive, CompileError>(d),
    ensures
        radix_hint_ok(d.radix),
{
    if interior.len() > 0 {
        lemma_apply_tokens_radix_ok(spec_split_colon(interior), default_directive(), d);
    }
}

/// The compilation of a template: the scan of all its characters, with any
/// pending literal text flushed as a final text segment. A template ending
/// inside a placeholder or right after an escape character is rejected.
pub open spec fn spec_compile(s: Seq<char>) -> Result<Seq<SpecSegment>, CompileError> {
    match spec_scan(s) {
        Ok(st) => if st.escape {
            Err(CompileError::TrailingEscape)
        } else if st.in_placeholder {
            Err(CompileError::UnterminatedPlaceholder)
        } else if st.pending.len() > 0 {
            Ok(st.segments.push(SpecSegment::Text(st.pending)))
        } else {
            Ok(st.segments)
        },
        Err(e) => Err(e),
    }
}

/// The kind of hint a token asks for. `?` chooses the method and is no
/// hint; an unrecognized token has no kind.
pub enum HintKind {
    Pretty,
    Radix,
    Width,
    Precision,
    Case,
}

/// Which hint kind a token belongs to. The hexadecimal tokens `x`/`X`
/// count as radix hints, though they choose a case as well.
pub open spec fn token_hint_kind(tok: Seq<char>) -> Option<HintKind> {
    if tok.len() == 1 && tok[0] == '#' {
        Some(HintKind::Pretty)
    } else if tok.len() == 1 && tok[0] == '?' {
        None
    } else if tok.len() == 1 && (tok[0] == 'x' || tok[0] == 'X' || tok[0] == 'o' || tok[0] == 'O'
        || tok[0] == 'b' || tok[0] == 'B') {
        Some(HintKind::Radix)
    } else if tok.len() == 1 && (tok[0] == 'u' || tok[0] == 'U' || tok[0] == 'l' || tok[0]
        == 'L') {
        Some(HintKind::Case)
    } else if tok.len() >= 1 && (tok[0] == 'r' || tok[0] == 'R') {
        Some(HintKind::Radix)
    } else if tok.len() >= 1 && (tok[0] == 'w' || tok[0] == 'W') {
        Some(HintKind::Width)
    } else if tok.len() >= 1 && (tok[0] == 'p' || tok[0] == 'P') {
        Some(HintKind::Precision)
    } else {
        None
    }
}

/// Whether a directive already holds a hint of the given kind.
pub open spec fn has_kind(d: Directive, k: HintKind) -> bool {
    match k {
        HintKind::Pretty => d.pretty,
        HintKind::Radix => d.radix is Some,
        HintKind::Width => d.width is Some,
        HintKind::Precision => d.precision is Some,
        HintKind::Case => d.case is Some,
    }
}

/// A token that applies successfully leaves its own hint kind set.
proof fn lemma_apply_token_sets_kind(tok: Seq<char>, d: Directive, k: HintKind)
    requires
        token_hint_kind(tok) == Some(k),
        spec_apply_token(tok, d) is Ok,
    ensures
        has_kind(spec_apply_token(tok, d)->Ok_0, k),
{
}

/// A token that applies successfully never clears a hint kind.
proof fn lemma_apply_token_keeps_kind(tok: Seq<char>, d: Directive, k: HintKind)
    requires
        spec_apply_token(tok, d) is Ok,
        has_kind(d, k),
    ensures
        has_kind(spec_apply_token(tok, d)->Ok_0, k),
{
}

/// A token of a kind the directive already holds is always rejected.
proof fn lemma_apply_token_conflict(tok: Seq<char>, d: Directive, k: HintKind)
    requires
        token_hint_kind(tok) == Some(k),
        has_kind(d, k),
    ensures
        spec_apply_token(tok, d) is Err,
{
}

/// Folding tokens over a directive that already holds kind `k` fails as
/// soon as another token of kind `k` stands in the list.
proof fn lemma_apply_tokens_kind_err(toks: Seq<Seq<char>>, d: Directive, j: int, k: HintKind)
    requires
        has_kind(d, k),
        0 <= j < toks.len(),
        token_hint_kind(toks[j]) == Some(k),
    ensures
        spec_apply_tokens(toks, d) is Err,
    decreases toks.len(),
{
    let step = spec_apply_token(toks[0], d);
    if j == 0 {
        lemma_apply_token_conflict(toks[0], d, k);
    } else if step is Ok {
        lemma_apply_token_keeps_kind(toks[0], d, k);
        assert(toks.drop_first()[j - 1] == toks[j]);
        lemma_apply_tokens_kind_err(toks.drop_first(), step->Ok_0, j - 1, k);
    }
}

/// Folding tokens fails whenever two of them, at positions `i < j`, ask
/// for the same hint kind.
proof fn lemma_apply_tokens_duplicate_err(
    toks: Seq<Seq<char>>,
    d: Directive,
    i: int,
    j: int,
    k: HintKind,
)
    requires
        0 <= i < j < toks.len(),
        token_hint_kind(toks[i]) == Some(k),
        token_hint_kind(toks[j]) == Some(k),
    ensures
        spec_apply_tokens(toks, d) is Err,
    decreases toks.len(),
{
    let step = spec_apply_token(toks[0], d);
    if i == 0 {
        if step is Ok {
            lemma_apply_token_sets_kind(toks[0], d, k);
            assert(toks.drop_first()[j - 1] == toks[j]);
            lemma_apply_tokens_kind_err(toks.drop_first(), step->Ok_0, j - 1, k);
        }
    } else if step is Ok {
        assert(toks.drop_first()[i - 1] == toks[i]);
        assert(toks.drop_first()[j - 1] == toks[j]);
        lemma_apply_tokens_duplicate_err(toks.drop_first(), step->Ok_0, i - 1, j - 1, k);
    }
}

/// Two hints of the same kind inside one placeholder always fail
/// compilation, whatever their values: if two tokens of the interior's
/// `:`-split belong to the same hint kind, the placeholder is rejected.
pub proof fn lemma_duplicate_hints_rejected(interior: Seq<char>, i: int, j: int, k: HintKind)
    requires
        interior.len() > 0,
        0 <= i < j < spec_split_colon(interior).len(),
        token_hint_kind(spec_split_colon(interior)[i]) == Some(k),
        token_hint_kind(spec_split_colon(interior)[j]) == Some(k),
    ensures
        spec_parse_placeholder(interior) is Err,
{
    lemma_apply_tokens_duplicate_err(spec_split_colon(interior), default_directive(), i, j, k);
}

/// Once the scan of a prefix has failed, the scan of the whole fails with
/// the same error.
proof fn lemma_scan_err_persists(s: Seq<char>, i: int)
    requires
        0 <= i <= s.len(),
        spec_scan(s.take(i)) is Err,
    ensures
        spec_scan(s) == spec_scan(s.take(i)),
    decreases s.len() - i,
{
    if i < s.len() {
        assert(s.take(i + 1).drop_last() =~= s.take(i));
        lemma_scan_err_persists(s, i + 1);
    } else {
        assert(s.take(i) =~= s);
    }
}

/// Compiles a literal template into its segments. All structural
/// validation happens here, before any character is ever written: a
/// template that compiles renders without further template-shape errors,
/// and every radix hint of the result lies within 2..=36.
pub fn parse_fmt_string(fmt: &str) -> (r: Result<FormatTemplate, CompileError>)
    ensures
        r is Ok ==> spec_compile(fmt@) == Ok::<Seq<SpecSegment>, CompileError>(r->Ok_0@),
        r is Err ==> spec_compile(fmt@) == Err::<Seq<SpecSegment>, CompileError>(r->Err_0),
        r is Ok ==> template_wf(r->Ok_0@),
{
    let n = fmt.unicode_len();
    let mut segments: Vec<Segment> = Vec::new();
    let mut pending: Vec<char> = Vec::new();
    let mut in_placeholder: bool = false;
    let mut escape: bool = false;
    let mut i: usize = 0;
    proof {
        assert(fmt@.take(0) =~= Seq::<char>::empty());
        assert(segments_view(segments@) =~= Seq::<SpecSegment>::empty());
    }
    while i < n
        invariant
            i <= n,
            n == fmt@.len(),
            spec_scan(fmt@.take(i as int)) == Ok::<ScanState, CompileError>(
                ScanState {
                    segments: segments_view(segments@),
                    pending: pending@,
                    in_placeholder,
                    escape,
                },
            ),
            template_wf(segments_view(segments@)),
        decreases n - i,
    {
        let ghost st = ScanState {
            segments: segments_view(segments@),
            pending: pending@,
            in_placeholder,
            escape,
        };
        let c = fmt.get_char(i);
        proof {
            assert(fmt@.take(i + 1).drop_last() =~= fmt@.take(i as int));
            assert(fmt@.take(i + 1).last() == fmt@[i as int]);
            assert(spec_scan(fmt@.take(i + 1)) == spec_step(st, c));
        }
        if escape {
            pending.push(c);
            escape = false;
        } else if c == '{' && !in_placeholder {
            if pending.len() > 0 {
                let ghost old_segments = segments@;
                segments.push(Segment::Text(pending));
                pending = Vec::new();
                proof {
                    assert(segments_view(segments@) =~= segments_view(old_segments).push(
                        SpecSegment::Text(st.pending),
                    ));
                    lemma_wf_push_text(st.segments, st.pending);
                }
            }
            in_placeholder = true;
        } else if c == '}' && in_placeholder {
            match parse_fmt_placeholder(&pending) {
                Ok(dir) => {
                    let ghost old_segments = segments@;
                    segments.push(Segment::Placeholder(dir));
                    pending = Vec::new();
                    in_placeholder = false;
                    proof {
                        assert(segments_view(segments@) =~= segments_view(old_segments).push(
                            SpecSegment::Placeholder(dir),
                        ));
                        lemma_parse_placeholder_radix_ok(st.pending, dir);
                        lemma_wf_push_placeholder(st.segments, dir);
                    }
                },
                Err(e) => {
                    proof {
                        assert(spec_scan(fmt@.take(i + 1)) == Err::<ScanState, CompileError>(e));
                        lemma_scan_err_persists(fmt@, i + 1);
                    }
                    return Err(e);
                },
            }
        } else if c == '%' {
            escape = true;
        } else {
            pending.push(c);
        }
        proof {
            let new_st = ScanState {
                segments: segments_view(segments@),
                pending: pending@,
                in_placeholder,
                escape,
            };
            assert(spec_step(st, c) == Ok::<ScanState, CompileError>(new_st));
        }
        i = i + 1;
    }
    proof {
        assert(fmt@.take(n as int) =~= fmt@);
    }
    if escape {
        return Err(CompileError::TrailingEscape);
    }
    if in_placeholder {
        return Err(CompileError::UnterminatedPlaceholder);
    }
    if pending.len() > 0 {
        let ghost old_segments = segments@;
        let ghost final_text = pending@;
        segments.push(Segment::Text(pending));
        proof {
            assert(segments_view(segments@) =~= segments_view(old_segments).push(
                SpecSegment::Text(final_text),
            ));
            lemma_wf_push_text(segments_view(old_segments), final_text);
        }
        let result = FormatTemplate { segments };
        assert(result@ == segments_view(segments@));
        Ok(result)
    } else {
        let result = FormatTemplate { segments };
        assert(result@ == segments_view(segments@));
        Ok(result)
    }
}

} // verus!
