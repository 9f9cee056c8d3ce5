//! TMATS ASCII parsing in two phases: tokenization of the byte stream into
//! `code-name:value;` pairs, then structuring of those pairs into the typed
//! document model.
use vstd::prelude::*;
use vstd::utf8::*;
use crate::error::{ParseError, ParseErrorV, ParseErrorKind, TmatsError, TmatsErrors, Diagnostic, DiagnosticV, Severity, opt_text, views, texts};
use crate::model::{TmatsDocument, TmatsDocumentV, OwnedTmatsDocument, RawAttribute, RawAttributeV, CodeName, CodeNameV, PathSegment, PathSegmentV, TmatsDate, GGroup, GGroupV, TGroup, TGroupV, RGroup, RGroupV, RChannel, RChannelV, MGroup, MGroupV, PGroup, PGroupV, DGroup, DGroupV, BGroup, BGroupV, SGroup, SGroupV, CGroup, CGroupV, DataSourceDecl, DataSourceDeclV, date_from_parts};
use crate::ordered_map::{OrderedMap, DefaultModel, assoc_find, assoc_get, assoc_put, or_default, lemma_put_over};
use crate::text::{push_str, push_char, push_dec, push_dec_padded, dec, dec_padded, utf8_decode, chars_of, split, split_chars, upper, upper_chars, chars_eq_str, trim, parse_unsigned, parse_unsigned_trimmed, parse_unsigned_range, float_text_trimmed, is_float_literal, eq_ignore_case, chars_eq_ignore_case, string_of, string_of_range, lemma_split_len, trimmed_chars, chars_eq};
use crate::types_bridge::{GroupPrefix, Irig106Version};

verus! {

// ─── Options ────────────────────────────────────────────────────────────────

/// Strict mode aborts on the first error; lenient mode collects errors and
/// recovers as much data as possible.
#[derive(Debug, Clone, Copy, PartialEq, Eq, Structural)]
pub enum ParseMode {
    /// Abort on first malformed attribute.
    Strict,
    /// Collect all errors and recover as much data as possible.
    Lenient,
}

/// Controls parser behavior.
#[derive(Debug, Clone)]
pub struct ParseOptions {
    /// Strict mode aborts on first error; Lenient collects all errors.
    pub mode: ParseMode,
    /// Explicit version override (bypasses auto-detection).
    pub target_version: Option<Irig106Version>,
    /// Maximum number of attributes accepted (DoS protection).
    pub max_attributes: usize,
    /// Maximum value size in bytes (DoS protection).
    pub max_value_size: usize,
}

impl Default for ParseOptions {
    fn default() -> (r: Self)
        ensures
            r.mode == ParseMode::Strict,
            r.target_version is None,
            r.max_attributes == 100_000,
            r.max_value_size == 1_048_576,
    {
        ParseOptions {
            mode: ParseMode::Strict,
            target_version: None,
            max_attributes: 100_000,
            max_value_size: 1_048_576,
        }
    }
}

/// A string holding the characters of `s`.
pub fn owned(s: &str) -> (r: String)
    ensures
        r@ == s@,
{
    let mut r = String::new();
    push_str(&mut r, s);
    r
}

// ═══ Phase 1: tokenization ══════════════════════════════════════════════════

/// A raw `code-name:value;` pair with its place in the input.
pub struct TokenV {
    pub code: Seq<char>,
    pub value: Seq<char>,
    pub byte_offset: int,
    pub line: int,
}

struct Token {
    code: String,
    value: String,
    byte_offset: usize,
    line: u32,
}

impl View for Token {
    type V = TokenV;

    closed spec fn view(&self) -> TokenV {
        TokenV {
            code: self.code@,
            value: self.value@,
            byte_offset: self.byte_offset as int,
            line: self.line as int,
        }
    }
}

/// Printable ASCII other than space.
pub open spec fn is_graphic(b: u8) -> bool {
    0x21 <= b <= 0x7E
}

/// The characters of ASCII bytes.
pub open spec fn ascii_chars(s: Seq<u8>) -> Seq<char> {
    s.map_values(|b: u8| b as char)
}

/// Position of the first `t` at or after `start`.
pub open spec fn find_from(s: Seq<u8>, start: int, t: u8) -> Option<int>
    decreases s.len() - start,
{
    if start < 0 || start >= s.len() {
        None
    } else if s[start] == t {
        Some(start)
    } else {
        find_from(s, start + 1, t)
    }
}

pub proof fn lemma_find_from(s: Seq<u8>, start: int, t: u8)
    requires
        0 <= start,
    ensures
        match find_from(s, start, t) {
            Some(i) => start <= i < s.len() && s[i] == t && forall|j: int| start <= j < i ==> s[j] != t,
            None => forall|j: int| start <= j < s.len() ==> s[j] != t,
        },
    decreases s.len() - start,
{
    if start < s.len() && s[start] != t {
        lemma_find_from(s, start + 1, t);
    }
}

/// The whitespace run (bytes up to 0x20) from `pos`: where it ends, and the
/// line count after its newlines.
pub open spec fn skip_ws(s: Seq<u8>, pos: int, line: int) -> (int, int)
    decreases s.len() - pos,
{
    if 0 <= pos < s.len() && s[pos] <= 0x20 {
        skip_ws(s, pos + 1, if s[pos] == 0x0A { line + 1 } else { line })
    } else {
        (pos, line)
    }
}

pub proof fn lemma_skip_ws(s: Seq<u8>, pos: int, line: int)
    requires
        0 <= pos <= s.len(),
    ensures
        pos <= skip_ws(s, pos, line).0 <= s.len(),
        line <= skip_ws(s, pos, line).1,
        skip_ws(s, pos, line).1 - line <= skip_ws(s, pos, line).0 - pos,
    decreases s.len() - pos,
{
    if pos < s.len() && s[pos] <= 0x20 {
        lemma_skip_ws(s, pos + 1, if s[pos] == 0x0A { line + 1 } else { line });
    }
}

/// Number of newline bytes.
pub open spec fn count_nl(s: Seq<u8>) -> nat
    decreases s.len(),
{
    if s.len() == 0 {
        0
    } else {
        count_nl(s.drop_last()) + if s.last() == 0x0A { 1nat } else { 0nat }
    }
}

pub proof fn lemma_count_nl(s: Seq<u8>)
    ensures
        count_nl(s) <= s.len(),
    decreases s.len(),
{
    if s.len() > 0 {
        lemma_count_nl(s.drop_last());
    }
}

proof fn lemma_count_nl_step(s: Seq<u8>, i: int)
    requires
        0 <= i < s.len(),
    ensures
        count_nl(s.take(i + 1)) == count_nl(s.take(i)) + if s[i] == 0x0A { 1nat } else { 0nat },
{
    assert(s.take(i + 1).drop_last() =~= s.take(i));
}

/// Newlines of a prefix split at `a`.
pub proof fn lemma_count_nl_split(s: Seq<u8>, a: int, b: int)
    requires
        0 <= a <= b <= s.len(),
    ensures
        count_nl(s.take(b)) == count_nl(s.take(a)) + count_nl(s.subrange(a, b)),
    decreases b - a,
{
    if b == a {
        assert(s.subrange(a, b) =~= Seq::<u8>::empty());
    } else {
        lemma_count_nl_split(s, a, b - 1);
        lemma_count_nl_step(s, b - 1);
        assert(s.subrange(a, b).drop_last() =~= s.subrange(a, b - 1));
    }
}

/// A longer prefix has at least as many newlines, and none has more than the whole.
pub proof fn lemma_count_nl_prefix(s: Seq<u8>, a: int, b: int)
    requires
        0 <= a <= b <= s.len(),
    ensures
        count_nl(s.take(a)) <= count_nl(s.take(b)) <= count_nl(s),
{
    lemma_count_nl_split(s, a, b);
    lemma_count_nl_split(s, b, s.len() as int);
    assert(s.take(s.len() as int) =~= s);
}

pub open spec fn perr(kind: ParseErrorKind, off: int, line: int, code: Option<Seq<char>>, msg: Seq<char>) -> ParseErrorV {
    ParseErrorV { kind, byte_offset: off as usize, line: line as u32, code_name: code, message: msg }
}

/// The tokens and errors of the input from `pos` on, `line` being the line
/// number at `pos`, given those found before.
pub open spec fn tokenize_from(
    s: Seq<u8>,
    pos: int,
    line: int,
    toks: Seq<TokenV>,
    errs: Seq<ParseErrorV>,
    max_attrs: nat,
    max_val: nat,
) -> (Seq<TokenV>, Seq<ParseErrorV>)
    decreases s.len() - pos,
{
    if pos < 0 || pos >= s.len() {
        (toks, errs)
    } else {
        let (p, ln) = skip_ws(s, pos, line);
        proof {
            lemma_skip_ws(s, pos, line);
        }
        if p >= s.len() {
            (toks, errs)
        } else if toks.len() >= max_attrs {
            (toks, errs.push(perr(ParseErrorKind::MaxAttributesExceeded, p, ln, None,
                "exceeded maximum attribute count of "@ + dec(max_attrs))))
        } else {
            proof {
                lemma_find_from(s, p, 0x3A);
            }
            match find_from(s, p, 0x3A) {
                None => (toks, errs.push(perr(ParseErrorKind::InvalidDelimiter, p, ln, None,
                    "expected ':' delimiter, found end of input"@))),
                Some(c) => {
                    let cn = s.subrange(p, c);
                    proof {
                        lemma_find_from(s, c + 1, 0x3B);
                    }
                    if !(forall|j: int| 0 <= j < cn.len() ==> is_graphic(#[trigger] cn[j])) {
                        let e = perr(ParseErrorKind::InvalidAscii, p, ln, None,
                            "code-name contains non-ASCII-graphic bytes"@);
                        match find_from(s, c + 1, 0x3B) {
                            Some(sm) => tokenize_from(s, sm + 1, ln, toks, errs.push(e), max_attrs, max_val),
                            None => (toks, errs.push(e)),
                        }
                    } else {
                        let code = ascii_chars(cn);
                        match find_from(s, c + 1, 0x3B) {
                            None => (toks, errs.push(perr(ParseErrorKind::InvalidDelimiter, c + 1, ln,
                                Some(code), "expected ';' delimiter after value"@))),
                            Some(sm) => {
                                let vlen = sm - (c + 1);
                                if vlen > max_val {
                                    tokenize_from(s, sm + 1, ln, toks, errs.push(perr(
                                        ParseErrorKind::MaxValueSizeExceeded, c + 1, ln, Some(code),
                                        "value size "@ + dec(vlen as nat) + " exceeds maximum "@ + dec(max_val))),
                                        max_attrs, max_val)
                                } else {
                                    let vb = s.subrange(c + 1, sm);
                                    let ln2 = ln + count_nl(vb);
                                    if !valid_utf8(vb) {
                                        tokenize_from(s, sm + 1, ln2, toks, errs.push(perr(
                                            ParseErrorKind::InvalidAscii, c + 1, ln, Some(code),
                                            "value contains invalid UTF-8"@)), max_attrs, max_val)
                                    } else {
                                        tokenize_from(s, sm + 1, ln2, toks.push(TokenV {
                                            code,
                                            value: decode_utf8(vb),
                                            byte_offset: p,
                                            line: ln,
                                        }), errs, max_attrs, max_val)
                                    }
                                }
                            },
                        }
                    }
                },
            }
        }
    }
}

/// Phase 1 of parsing: all tokens and all errors of the input.
pub open spec fn tokenize_spec(s: Seq<u8>, max_attrs: nat, max_val: nat) -> (Seq<TokenV>, Seq<ParseErrorV>) {
    tokenize_from(s, 0, 1, Seq::empty(), Seq::empty(), max_attrs, max_val)
}

/// Position of the first `t` in `input[start..]`.
fn find_byte(input: &[u8], start: usize, t: u8) -> (r: Option<usize>)
    requires
        start <= input@.len(),
    ensures
        match r {
            Some(i) => find_from(input@, start as int, t) == Some(i as int),
            None => find_from(input@, start as int, t) is None,
        },
{
    let mut i = start;
    while i < input.len()
        invariant
            start <= i <= input@.len(),
            find_from(input@, start as int, t) == find_from(input@, i as int, t),
        decreases input@.len() - i,
    {
        if input[i] == t {
            return Some(i);
        }
        i = i + 1;
    }
    None
}

/// The characters of the ASCII bytes `input[a..b]`.
fn ascii_string(input: &[u8], a: usize, b: usize) -> (r: String)
    requires
        a <= b <= input@.len(),
    ensures
        r@ == ascii_chars(input@.subrange(a as int, b as int)),
{
    let mut s = String::new();
    let mut i = a;
    while i < b
        invariant
            a <= i <= b,
            b <= input@.len(),
            s@ == ascii_chars(input@.subrange(a as int, i as int)),
        decreases b - i,
    {
        push_char(&mut s, input[i] as char);
        assert(s@ =~= ascii_chars(input@.subrange(a as int, i + 1)));
        i = i + 1;
    }
    s
}

/// Whether every byte of `input[a..b]` is graphic ASCII.
fn all_graphic(input: &[u8], a: usize, b: usize) -> (r: bool)
    requires
        a <= b <= input@.len(),
    ensures
        r == (forall|j: int| 0 <= j < (b - a) ==> is_graphic(#[trigger] input@.subrange(a as int, b as int)[j])),
{
    let mut i = a;
    while i < b
        invariant
            a <= i <= b,
            b <= input@.len(),
            forall|j: int| a <= j < i ==> is_graphic(input@[j]),
        decreases b - i,
    {
        if !(0x21 <= input[i] && input[i] <= 0x7E) {
            assert(input@.subrange(a as int, b as int)[i - a] == input@[i as int]);
            return false;
        }
        i = i + 1;
    }
    assert forall|j: int| 0 <= j < (b - a) implies is_graphic(#[trigger] input@.subrange(a as int, b as int)[j]) by {
        assert(input@.subrange(a as int, b as int)[j] == input@[a + j]);
    }
    true
}

/// Number of newlines in `input[a..b]`.
fn count_newlines(input: &[u8], a: usize, b: usize) -> (r: usize)
    requires
        a <= b <= input@.len(),
    ensures
        r == count_nl(input@.subrange(a as int, b as int)),
{
    let mut n: usize = 0;
    let mut i = a;
    while i < b
        invariant
            a <= i <= b,
            b <= input@.len(),
            n == count_nl(input@.subrange(a as int, i as int)),
            n <= i - a,
        decreases b - i,
    {
        assert(input@.subrange(a as int, i + 1).drop_last() =~= input@.subrange(a as int, i as int));
        if input[i] == 0x0A {
            n = n + 1;
        }
        i = i + 1;
    }
    n
}

fn make_err(kind: ParseErrorKind, off: usize, line: u32, code: Option<String>, msg: String) -> (r: ParseError)
    ensures
        r@ == perr(kind, off as int, line as int, opt_text(code), msg@),
{
    ParseError { kind, byte_offset: off, line, code_name: code, message: msg }
}

/// Phase 1: splits the input into `code-name:value;` tokens, skipping
/// whitespace and control bytes between them.
fn tokenize(input: &[u8], opts: &ParseOptions) -> (r: (Vec<Token>, Vec<ParseError>))
    requires
        count_nl(input@) < u32::MAX,
    ensures
        (views(r.0@), views(r.1@)) == tokenize_spec(input@, opts.max_attributes as nat, opts.max_value_size as nat),
{
    let ghost ma = opts.max_attributes as nat;
    let ghost mv = opts.max_value_size as nat;
    let ghost goal = tokenize_spec(input@, ma, mv);
    let mut tokens: Vec<Token> = Vec::new();
    let mut errors: Vec<ParseError> = Vec::new();
    let mut pos: usize = 0;
    let mut line: u32 = 1;
    assert(views(tokens@) =~= Seq::<TokenV>::empty());
    assert(views(errors@) =~= Seq::<ParseErrorV>::empty());
    while pos < input.len()
        invariant_except_break
            pos <= input@.len(),
            1 <= line <= count_nl(input@.take(pos as int)) + 1,
            count_nl(input@) < u32::MAX,
            ma == opts.max_attributes,
            mv == opts.max_value_size,
            goal == tokenize_spec(input@, ma, mv),
            tokenize_from(input@, pos as int, line as int, views(tokens@), views(errors@), ma, mv) == goal,
        ensures
            goal == (views(tokens@), views(errors@)),
        decreases input@.len() - pos,
    {
        let ghost s = input@;
        let ghost pos0 = pos as int;
        let ghost line0 = line as int;
        proof {
            lemma_skip_ws(s, pos0, line0);
        }
        // Skip whitespace and control bytes, counting lines.
        while pos < input.len() && input[pos] <= 0x20
            invariant
                pos0 <= pos <= s.len(),
                s == input@,
                1 <= line <= count_nl(s.take(pos as int)) + 1,
                count_nl(s) < u32::MAX,
                skip_ws(s, pos0, line0) == skip_ws(s, pos as int, line as int),
            decreases s.len() - pos,
        {
            proof {
                lemma_count_nl_step(s, pos as int);
                lemma_count_nl_prefix(s, pos + 1, s.len() as int);
            }
            if input[pos] == 0x0A {
                line = line + 1;
            }
            pos = pos + 1;
        }
        if pos >= input.len() {
            break;
        }
        assert forall|q: int| pos <= q <= s.len() implies count_nl(s.take(pos as int)) <= #[trigger] count_nl(s.take(q))
            && count_nl(s.take(q)) <= count_nl(s) by {
            lemma_count_nl_prefix(s, pos as int, q);
        }
        if tokens.len() >= opts.max_attributes {
            let mut msg = owned("exceeded maximum attribute count of ");
            push_dec(&mut msg, opts.max_attributes as u64);
            let e = make_err(ParseErrorKind::MaxAttributesExceeded, pos, line, None, msg);
            let ghost ev = views(errors@);
            let ghost ew = e@;
            errors.push(e);
            assert(views(errors@) =~= ev.push(ew));
            break;
        }
        let attr_start = pos;
        let attr_line = line;
        proof {
            lemma_find_from(s, pos as int, 0x3A);
        }
        let colon = match find_byte(input, pos, 0x3A) {
            Some(c) => c,
            None => {
                let e = make_err(ParseErrorKind::InvalidDelimiter, pos, line, None,
                    owned("expected ':' delimiter, found end of input"));
                let ghost ev = views(errors@);
                let ghost ew = e@;
                errors.push(e);
                assert(views(errors@) =~= ev.push(ew));
                break;
            },
        };
        proof {
            lemma_find_from(s, colon + 1, 0x3B);
        }
        if !all_graphic(input, attr_start, colon) {
            let e = make_err(ParseErrorKind::InvalidAscii, attr_start, attr_line, None,
                owned("code-name contains non-ASCII-graphic bytes"));
            let ghost ev = views(errors@);
            let ghost ew = e@;
            errors.push(e);
            assert(views(errors@) =~= ev.push(ew));
            match find_byte(input, colon + 1, 0x3B) {
                Some(semi) => {
                    pos = semi + 1;
                    continue;
                },
                None => {
                    break;
                },
            }
        }
        let code = ascii_string(input, attr_start, colon);
        let value_start = colon + 1;
        let semi = match find_byte(input, value_start, 0x3B) {
            Some(p) => p,
            None => {
                let e = make_err(ParseErrorKind::InvalidDelimiter, value_start, attr_line, Some(code),
                    owned("expected ';' delimiter after value"));
                let ghost ev = views(errors@);
                let ghost ew = e@;
                errors.push(e);
                assert(views(errors@) =~= ev.push(ew));
                break;
            },
        };
        let value_len = semi - value_start;
        if value_len > opts.max_value_size {
            let mut msg = owned("value size ");
            push_dec(&mut msg, value_len as u64);
            push_str(&mut msg, " exceeds maximum ");
            push_dec(&mut msg, opts.max_value_size as u64);
            let e = make_err(ParseErrorKind::MaxValueSizeExceeded, value_start, attr_line, Some(code), msg);
            let ghost ev = views(errors@);
            let ghost ew = e@;
            errors.push(e);
            assert(views(errors@) =~= ev.push(ew));
            pos = semi + 1;
            continue;
        }
        let nl = count_newlines(input, value_start, semi);
        proof {
            lemma_count_nl(s.subrange(value_start as int, semi as int));
            lemma_count_nl_split(s, value_start as int, semi as int);
            lemma_count_nl_prefix(s, semi as int, semi + 1);
        }
        line = line + nl as u32;
        let value_bytes = vstd::slice::slice_subrange(input, value_start, semi);
        match utf8_decode(value_bytes) {
            None => {
                let e = make_err(ParseErrorKind::InvalidAscii, value_start, attr_line, Some(code),
                    owned("value contains invalid UTF-8"));
                let ghost ev = views(errors@);
                let ghost ew = e@;
                errors.push(e);
                assert(views(errors@) =~= ev.push(ew));
                pos = semi + 1;
            },
            Some(value) => {
                let t = Token { code, value, byte_offset: attr_start, line: attr_line };
                let ghost tv = views(tokens@);
                let ghost tw = t@;
                tokens.push(t);
                assert(views(tokens@) =~= tv.push(tw));
                pos = semi + 1;
            },
        }
    }
    (tokens, errors)
}

// ─── Code-names ─────────────────────────────────────────────────────────────

/// Position of the last `c` in `s`, or -1.
pub open spec fn last_index_of(s: Seq<char>, c: char) -> int
    decreases s.len(),
{
    if s.len() == 0 {
        -1
    } else if s.last() == c {
        s.len() - 1
    } else {
        last_index_of(s.drop_last(), c)
    }
}

pub proof fn lemma_last_index_of(s: Seq<char>, c: char)
    ensures
        -1 <= last_index_of(s, c) < s.len(),
        last_index_of(s, c) >= 0 ==> s[last_index_of(s, c)] == c,
    decreases s.len(),
{
    if s.len() > 0 && s.last() != c {
        lemma_last_index_of(s.drop_last(), c);
    }
}

/// `u32` text: optional `+`, digits, at most `u32::MAX`.
pub open spec fn parse_u32(s: Seq<char>) -> Option<u32> {
    match parse_unsigned(s, u32::MAX as nat) {
        Some(n) => Some(n as u32),
        None => None,
    }
}

/// A path segment `NAME-N` splits at its last `-` when what follows is a
/// `u32`; otherwise the whole text is the name.
pub open spec fn path_segment_spec(s: Seq<char>) -> PathSegmentV {
    let d = last_index_of(s, '-');
    if d >= 0 && parse_u32(s.skip(d + 1)) is Some {
        PathSegmentV { name: s.take(d), index: parse_u32(s.skip(d + 1)) }
    } else {
        PathSegmentV { name: s, index: None }
    }
}

/// The group letter and occurrence of a prefix `X` or `X-N`; `None` when empty.
pub open spec fn group_prefix_spec(s: Seq<char>) -> Option<(GroupPrefix, Option<u32>)> {
    if s.len() == 0 {
        None
    } else {
        Some((
            GroupPrefix::spec_from_char(s[0]),
            if s.len() > 1 && s[1] == '-' {
                parse_u32(s.skip(2))
            } else {
                None
            },
        ))
    }
}

/// The structure of a code-name `PREFIX\SEG\SEG...`; `None` when the prefix is empty.
pub open spec fn code_name_spec(s: Seq<char>) -> Option<CodeNameV> {
    let parts = split(s, '\\');
    match group_prefix_spec(parts[0]) {
        None => None,
        Some(gp) => Some(
            CodeNameV {
                group: gp.0,
                occurrence: gp.1,
                path: parts.skip(1).map_values(|p: Seq<char>| path_segment_spec(p)),
            },
        ),
    }
}

/// Parse `v[a..b]` as a `u32`.
fn parse_u32_range(v: &Vec<char>, a: usize, b: usize) -> (r: Option<u32>)
    requires
        a <= b <= v@.len(),
    ensures
        r == parse_u32(v@.subrange(a as int, b as int)),
{
    match parse_unsigned_range(v, a, b, 0xFFFF_FFFF) {
        Some(n) => Some(n as u32),
        None => None,
    }
}

/// Parse `TK1-3` into name `TK1` and index `3`.
fn parse_path_segment(s: &Vec<char>) -> (r: PathSegment)
    ensures
        r@ == path_segment_spec(s@),
{
    let n = s.len();
    let mut i = n;
    assert(s@.take(n as int) =~= s@);
    while i > 0 && s[i - 1] != '-'
        invariant
            i <= n,
            n == s@.len(),
            last_index_of(s@, '-') == last_index_of(s@.take(i as int), '-'),
        decreases i,
    {
        assert(s@.take(i as int).drop_last() =~= s@.take(i - 1));
        i = i - 1;
    }
    proof {
        lemma_last_index_of(s@, '-');
        if i > 0 {
            assert(s@.take(i as int).last() == '-');
        } else {
            assert(s@.take(0).len() == 0);
        }
    }
    if i > 0 {
        let d = i - 1;
        assert(s@.skip(d + 1) =~= s@.subrange(d + 1, n as int));
        match parse_u32_range(s, d + 1, n) {
            Some(idx) => {
                assert(s@.take(d as int) =~= s@.subrange(0, d as int));
                return PathSegment { name: string_of_range(s, 0, d), index: Some(idx) };
            },
            None => {},
        }
    }
    PathSegment { name: string_of(s), index: None }
}

/// Parse a group prefix `R-1` into its letter and occurrence.
fn parse_group_prefix(s: &Vec<char>) -> (r: Option<(GroupPrefix, Option<u32>)>)
    ensures
        r == group_prefix_spec(s@),
{
    if s.len() == 0 {
        return None;
    }
    let group = GroupPrefix::from_char(s[0]);
    let occurrence = if s.len() > 1 && s[1] == '-' {
        assert(s@.skip(2) =~= s@.subrange(2, s@.len() as int));
        parse_u32_range(s, 2, s.len())
    } else {
        None
    };
    Some((group, occurrence))
}

/// Parse a code-name string into its structural components.
pub(crate) fn parse_code_name(raw: &str) -> (r: Option<CodeName>)
    ensures
        match r {
            Some(cn) => code_name_spec(raw@) == Some(cn@),
            None => code_name_spec(raw@) is None,
        },
{
    let v = chars_of(raw);
    let parts = split_chars(&v, '\\');
    let ghost sp = split(raw@, '\\');
    proof {
        lemma_split_len(raw@, '\\');
        assert(parts@.len() == sp.len());
        assert(parts@[0]@ == sp[0]);
    }
    let (group, occurrence) = match parse_group_prefix(&parts[0]) {
        Some(g) => g,
        None => return None,
    };
    let mut path: Vec<PathSegment> = Vec::new();
    let n = parts.len();
    let mut i: usize = 1;
    while i < n
        invariant
            1 <= i <= n,
            n == parts@.len(),
            n == sp.len(),
            forall|j: int| 0 <= j < n ==> parts@[j]@ == sp[j],
            views(path@) == sp.skip(1).take(i - 1).map_values(|p: Seq<char>| path_segment_spec(p)),
        decreases n - i,
    {
        let seg = parse_path_segment(&parts[i]);
        let ghost pv = views(path@);
        let ghost sv = seg@;
        path.push(seg);
        assert(views(path@) =~= pv.push(sv));
        assert(sp.skip(1).take(i as int) =~= sp.skip(1).take(i - 1).push(sp[i as int]));
        assert(views(path@) =~= sp.skip(1).take(i as int).map_values(|p: Seq<char>| path_segment_spec(p)));
        i = i + 1;
    }
    assert(sp.skip(1).take(n - 1) =~= sp.skip(1));
    let cn = CodeName { group, occurrence, path };
    Some(cn)
}

// ═══ Phase 2: structuring ═══════════════════════════════════════════════════

/// The first path segment's name, upper-cased.
pub open spec fn first_key_spec(cn: CodeNameV) -> Option<Seq<char>> {
    if cn.path.len() > 0 {
        Some(upper(cn.path[0].name))
    } else {
        None
    }
}

/// The first path segment's index.
pub open spec fn first_index_spec(cn: CodeNameV) -> Option<u32> {
    if cn.path.len() > 0 {
        cn.path[0].index
    } else {
        None
    }
}

/// Whether the last path segment is `N` (a counter attribute such as `G\DSI\N`).
pub open spec fn is_counter_spec(cn: CodeNameV) -> bool {
    cn.path.len() > 0 && eq_ignore_case(cn.path.last().name, "N"@)
}

/// A value read as `u32` after trimming.
pub open spec fn u32_of_text(v: Seq<char>) -> Option<u32> {
    parse_u32(trim(v))
}

/// A value read as `u16` after trimming.
pub open spec fn u16_of_text(v: Seq<char>) -> Option<u16> {
    match parse_unsigned(trim(v), 65535) {
        Some(n) => Some(n as u16),
        None => None,
    }
}

/// A value read as a floating-point number after trimming: the trimmed text
/// when it is a floating-point literal.
pub open spec fn float_of_text(v: Seq<char>) -> Option<Seq<char>> {
    if is_float_literal(trim(v)) {
        Some(trim(v))
    } else {
        None
    }
}

/// A TMATS boolean: `T`/`TRUE`/`YES`/`1` or `F`/`FALSE`/`NO`/`0`, trimmed, any case.
pub open spec fn bool_of_text(v: Seq<char>) -> Option<bool> {
    let u = upper(trim(v));
    if u == "T"@ || u == "TRUE"@ || u == "YES"@ || u == "1"@ {
        Some(true)
    } else if u == "F"@ || u == "FALSE"@ || u == "NO"@ || u == "0"@ {
        Some(false)
    } else {
        None
    }
}

pub(crate) fn first_key(cn: &CodeName) -> (r: Option<Vec<char>>)
    ensures
        match r {
            Some(k) => first_key_spec(cn@) == Some(k@),
            None => first_key_spec(cn@) is None,
        },
{
    if cn.path.len() > 0 {
        let v = chars_of(cn.path[0].name.as_str());
        Some(upper_chars(&v))
    } else {
        None
    }
}

fn key_is(k: &Option<Vec<char>>, lit: &str) -> (r: bool)
    ensures
        r == (match k {
            Some(v) => v@ == lit@,
            None => false,
        }),
{
    match k {
        Some(v) => chars_eq_str(v, lit),
        None => false,
    }
}

fn first_index(cn: &CodeName) -> (r: Option<u32>)
    ensures
        r == first_index_spec(cn@),
{
    if cn.path.len() > 0 {
        cn.path[0].index
    } else {
        None
    }
}

fn is_counter(cn: &CodeName) -> (r: bool)
    ensures
        r == is_counter_spec(cn@),
{
    if cn.path.len() > 0 {
        let v = chars_of(cn.path[cn.path.len() - 1].name.as_str());
        let n = chars_of("N");
        chars_eq_ignore_case(&v, &n)
    } else {
        false
    }
}

fn u32_of(v: &String) -> (r: Option<u32>)
    ensures
        r == u32_of_text(v@),
{
    match parse_unsigned_trimmed(v.as_str(), 0xFFFF_FFFF) {
        Some(n) => Some(n as u32),
        None => None,
    }
}

pub(crate) fn u16_of(v: &String) -> (r: Option<u16>)
    ensures
        r == u16_of_text(v@),
{
    match parse_unsigned_trimmed(v.as_str(), 65535) {
        Some(n) => Some(n as u16),
        None => None,
    }
}

pub(crate) fn float_of(v: &String) -> (r: Option<String>)
    ensures
        opt_text(r) == float_of_text(v@),
{
    float_text_trimmed(v.as_str())
}

fn bool_of(v: &String) -> (r: Option<bool>)
    ensures
        r == bool_of_text(v@),
{
    let t = trimmed_chars(v.as_str());
    let u = upper_chars(&t);
    if chars_eq_str(&u, "T") || chars_eq_str(&u, "TRUE") || chars_eq_str(&u, "YES") || chars_eq_str(&u, "1") {
        Some(true)
    } else if chars_eq_str(&u, "F") || chars_eq_str(&u, "FALSE") || chars_eq_str(&u, "NO") || chars_eq_str(&u, "0") {
        Some(false)
    } else {
        None
    }
}

/// Routing of one G-group attribute.
pub open spec fn route_g_spec(g: GGroupV, a: RawAttributeV) -> GGroupV {
    let k = first_key_spec(a.code_name);
    let v = a.value;
    let cn = a.code_name;
    if k == Some("PN"@) {
        GGroupV { program_name: Some(v), ..g }
    } else if k == Some("106"@) {
        GGroupV { irig106_version: Some(v), ..g }
    } else if k == Some("OD"@) {
        GGroupV { origination_date: date_from_parts(v, false), ..g }
    } else if k == Some("RN"@) {
        GGroupV { revision_number: Some(v), ..g }
    } else if k == Some("RD"@) {
        GGroupV { revision_date: date_from_parts(v, false), ..g }
    } else if k == Some("UN"@) {
        GGroupV { update_number: Some(v), ..g }
    } else if k == Some("UD"@) {
        GGroupV { update_date: date_from_parts(v, false), ..g }
    } else if k == Some("TN"@) {
        GGroupV { test_number: Some(v), ..g }
    } else if k == Some("DSI"@) {
        if is_counter_spec(cn) {
            GGroupV { num_data_sources: u32_of_text(v), ..g }
        } else {
            match first_index_spec(cn) {
                Some(i) => {
                    let ds = or_default(g.data_sources, i, DataSourceDecl::default_model());
                    GGroupV { data_sources: assoc_put(g.data_sources, i, DataSourceDeclV { data_source_id: Some(v), ..ds }), ..g }
                },
                None => g,
            }
        }
    } else if k == Some("DST"@) {
        match first_index_spec(cn) {
            Some(i) => {
                let ds = or_default(g.data_sources, i, DataSourceDecl::default_model());
                GGroupV { data_sources: assoc_put(g.data_sources, i, DataSourceDeclV { data_source_type: Some(v), ..ds }), ..g }
            },
            None => g,
        }
    } else if k == Some("DSC"@) {
        match first_index_spec(cn) {
            Some(i) => {
                let ds = or_default(g.data_sources, i, DataSourceDecl::default_model());
                GGroupV { data_sources: assoc_put(g.data_sources, i, DataSourceDeclV { classification: Some(v), ..ds }), ..g }
            },
            None => g,
        }
    } else if k == Some("POC"@) {
        if is_counter_spec(cn) {
            GGroupV { num_points_of_contact: u32_of_text(v), ..g }
        } else {
            g
        }
    } else if k == Some("COM"@) {
        GGroupV { comments: g.comments.push(v), ..g }
    } else {
        GGroupV { extra: g.extra.push(a), ..g }
    }
}

/// Route a G-group attribute.
fn route_g(g: &mut GGroup, attr: RawAttribute)
    ensures
        final(g)@ == route_g_spec(old(g)@, attr@),
{
    let ghost g0 = g@;
    let ghost a = attr@;
    let key = first_key(&attr.code_name);
    if key_is(&key, "PN") {
        g.program_name = Some(attr.value);
    } else if key_is(&key, "106") {
        g.irig106_version = Some(attr.value);
    } else if key_is(&key, "OD") {
        g.origination_date = TmatsDate::from_tmats_str(attr.value.as_str());
    } else if key_is(&key, "RN") {
        g.revision_number = Some(attr.value);
    } else if key_is(&key, "RD") {
        g.revision_date = TmatsDate::from_tmats_str(attr.value.as_str());
    } else if key_is(&key, "UN") {
        g.update_number = Some(attr.value);
    } else if key_is(&key, "UD") {
        g.update_date = TmatsDate::from_tmats_str(attr.value.as_str());
    } else if key_is(&key, "TN") {
        g.test_number = Some(attr.value);
    } else if key_is(&key, "DSI") {
        if is_counter(&attr.code_name) {
            g.num_data_sources = u32_of(&attr.value);
        } else if let Some(idx) = first_index(&attr.code_name) {
            let (pos, mut ds) = g.data_sources.take_entry(idx);
            ds.data_source_id = Some(attr.value);
            let ghost dv = ds@;
            g.data_sources.put_at(pos, ds);
            proof {
                lemma_put_over(g0.data_sources, idx, DataSourceDecl::default_model(), dv);
            }
        }
    } else if key_is(&key, "DST") {
        if let Some(idx) = first_index(&attr.code_name) {
            let (pos, mut ds) = g.data_sources.take_entry(idx);
            ds.data_source_type = Some(attr.value);
            let ghost dv = ds@;
            g.data_sources.put_at(pos, ds);
            proof {
                lemma_put_over(g0.data_sources, idx, DataSourceDecl::default_model(), dv);
            }
        }
    } else if key_is(&key, "DSC") {
        if let Some(idx) = first_index(&attr.code_name) {
            let (pos, mut ds) = g.data_sources.take_entry(idx);
            ds.classification = Some(attr.value);
            let ghost dv = ds@;
            g.data_sources.put_at(pos, ds);
            proof {
                lemma_put_over(g0.data_sources, idx, DataSourceDecl::default_model(), dv);
            }
        }
    } else if key_is(&key, "POC") {
        if is_counter(&attr.code_name) {
            g.num_points_of_contact = u32_of(&attr.value);
        }
    } else if key_is(&key, "COM") {
        g.comments.push(attr.value);
        assert(texts(g.comments@) =~= g0.comments.push(a.value));
    } else {
        g.extra.push(attr);
        assert(views(g.extra@) =~= g0.extra.push(a));
    }
}

/// Routing of one T-group attribute.
pub open spec fn route_t_spec(g: TGroupV, a: RawAttributeV) -> TGroupV {
    let k = first_key_spec(a.code_name);
    let v = a.value;
    if k == Some("ID"@) {
        TGroupV { transmitter_id: Some(v), ..g }
    } else if k == Some("CF"@) {
        TGroupV { carrier_frequency_mhz: float_of_text(v), ..g }
    } else if k == Some("MT"@) {
        TGroupV { modulation_type: Some(v), ..g }
    } else if k == Some("PW"@) {
        TGroupV { power_watts: float_of_text(v), ..g }
    } else if k == Some("AT"@) {
        TGroupV { antenna_type: Some(v), ..g }
    } else if k == Some("AP"@) {
        TGroupV { antenna_polarization: Some(v), ..g }
    } else if k == Some("COM"@) {
        TGroupV { comments: g.comments.push(v), ..g }
    } else {
        TGroupV { extra: g.extra.push(a), ..g }
    }
}

/// Route a T-group attribute.
fn route_t(g: &mut TGroup, attr: RawAttribute)
    ensures
        final(g)@ == route_t_spec(old(g)@, attr@),
{
    let ghost g0 = g@;
    let ghost a = attr@;
    let key = first_key(&attr.code_name);
    if key_is(&key, "ID") {
        g.transmitter_id = Some(attr.value);
    } else if key_is(&key, "CF") {
        g.carrier_frequency_mhz = float_of(&attr.value);
    } else if key_is(&key, "MT") {
        g.modulation_type = Some(attr.value);
    } else if key_is(&key, "PW") {
        g.power_watts = float_of(&attr.value);
    } else if key_is(&key, "AT") {
        g.antenna_type = Some(attr.value);
    } else if key_is(&key, "AP") {
        g.antenna_polarization = Some(attr.value);
    } else if key_is(&key, "COM") {
        g.comments.push(attr.value);
        assert(texts(g.comments@) =~= g0.comments.push(a.value));
    } else {
        g.extra.push(attr);
        assert(views(g.extra@) =~= g0.extra.push(a));
    }
}

/// Routing of one R-group attribute.
pub open spec fn route_r_spec(g: RGroupV, a: RawAttributeV) -> RGroupV {
    let k = first_key_spec(a.code_name);
    let v = a.value;
    if k == Some("ID"@) {
        RGroupV { recorder_id: Some(v), ..g }
    } else if k == Some("RI1"@) {
        RGroupV { recorder_description: Some(v), ..g }
    } else if k == Some("RMT"@) {
        RGroupV { media_type: Some(v), ..g }
    } else if k == Some("N"@) {
        RGroupV { num_channels: u32_of_text(v), ..g }
    } else if k == Some("TK1"@) {
        match first_index_spec(a.code_name) {
            Some(i) => {
                let ch = or_default(g.channels, i, RChannel::default_model());
                RGroupV { channels: assoc_put(g.channels, i, RChannelV { channel_id: u16_of_text(v), ..ch }), ..g }
            },
            None => g,
        }
    } else if k == Some("CDT"@) {
        match first_index_spec(a.code_name) {
            Some(i) => {
                let ch = or_default(g.channels, i, RChannel::default_model());
                RGroupV { channels: assoc_put(g.channels, i, RChannelV { data_type: Some(v), ..ch }), ..g }
            },
            None => g,
        }
    } else if k == Some("DSI"@) {
        match first_index_spec(a.code_name) {
            Some(i) => {
                let ch = or_default(g.channels, i, RChannel::default_model());
                RGroupV { channels: assoc_put(g.channels, i, RChannelV { data_source_id: Some(v), ..ch }), ..g }
            },
            None => g,
        }
    } else if k == Some("CDLN"@) {
        match first_index_spec(a.code_name) {
            Some(i) => {
                let ch = or_default(g.channels, i, RChannel::default_model());
                RGroupV { channels: assoc_put(g.channels, i, RChannelV { data_link_name: Some(v), ..ch }), ..g }
            },
            None => g,
        }
    } else if k == Some("PDP"@) {
        match first_index_spec(a.code_name) {
            Some(i) => {
                let ch = or_default(g.channels, i, RChannel::default_model());
                RGroupV { channels: assoc_put(g.channels, i, RChannelV { data_packing_option: Some(v), ..ch }), ..g }
            },
            None => g,
        }
    } else if k == Some("CHE"@) {
        match first_index_spec(a.code_name) {
            Some(i) => {
                let ch = or_default(g.channels, i, RChannel::default_model());
                RGroupV { channels: assoc_put(g.channels, i, RChannelV { channel_enabled: bool_of_text(v), ..ch }), ..g }
            },
            None => g,
        }
    } else if k == Some("IDX"@) {
        if a.code_name.path.len() >= 2 { RGroupV { index_enabled: bool_of_text(v), ..g } } else { g }
    } else if k == Some("EV"@) {
        if a.code_name.path.len() >= 2 { RGroupV { events_enabled: bool_of_text(v), ..g } } else { g }
    } else if k == Some("COM"@) {
        RGroupV { comments: g.comments.push(v), ..g }
    } else {
        RGroupV { extra: g.extra.push(a), ..g }
    }
}

/// Route a R-group attribute.
fn route_r(g: &mut RGroup, attr: RawAttribute)
    ensures
        final(g)@ == route_r_spec(old(g)@, attr@),
{
    let ghost g0 = g@;
    let ghost a = attr@;
    let key = first_key(&attr.code_name);
    if key_is(&key, "ID") {
        g.recorder_id = Some(attr.value);
    } else if key_is(&key, "RI1") {
        g.recorder_description = Some(attr.value);
    } else if key_is(&key, "RMT") {
        g.media_type = Some(attr.value);
    } else if key_is(&key, "N") {
        g.num_channels = u32_of(&attr.value);
    } else if key_is(&key, "TK1") {
        if let Some(idx) = first_index(&attr.code_name) {
            let (pos, mut ch) = g.channels.take_entry(idx);
            ch.channel_id = u16_of(&attr.value);
            let ghost cv = ch@;
            g.channels.put_at(pos, ch);
            proof {
                lemma_put_over(g0.channels, idx, RChannel::default_model(), cv);
            }
        }
    } else if key_is(&key, "CDT") {
        if let Some(idx) = first_index(&attr.code_name) {
            let (pos, mut ch) = g.channels.take_entry(idx);
            ch.data_type = Some(attr.value);
            let ghost cv = ch@;
            g.channels.put_at(pos, ch);
            proof {
                lemma_put_over(g0.channels, idx, RChannel::default_model(), cv);
            }
        }
    } else if key_is(&key, "DSI") {
        if let Some(idx) = first_index(&attr.code_name) {
            let (pos, mut ch) = g.channels.take_entry(idx);
            ch.data_source_id = Some(attr.value);
            let ghost cv = ch@;
            g.channels.put_at(pos, ch);
            proof {
                lemma_put_over(g0.channels, idx, RChannel::default_model(), cv);
            }
        }
    } else if key_is(&key, "CDLN") {
        if let Some(idx) = first_index(&attr.code_name) {
            let (pos, mut ch) = g.channels.take_entry(idx);
            ch.data_link_name = Some(attr.value);
            let ghost cv = ch@;
            g.channels.put_at(pos, ch);
            proof {
                lemma_put_over(g0.channels, idx, RChannel::default_model(), cv);
            }
        }
    } else if key_is(&key, "PDP") {
        if let Some(idx) = first_index(&attr.code_name) {
            let (pos, mut ch) = g.channels.take_entry(idx);
            ch.data_packing_option = Some(attr.value);
            let ghost cv = ch@;
            g.channels.put_at(pos, ch);
            proof {
                lemma_put_over(g0.channels, idx, RChannel::default_model(), cv);
            }
        }
    } else if key_is(&key, "CHE") {
        if let Some(idx) = first_index(&attr.code_name) {
            let (pos, mut ch) = g.channels.take_entry(idx);
            ch.channel_enabled = bool_of(&attr.value);
            let ghost cv = ch@;
            g.channels.put_at(pos, ch);
            proof {
                lemma_put_over(g0.channels, idx, RChannel::default_model(), cv);
            }
        }
    } else if key_is(&key, "IDX") {
        if attr.code_name.path.len() >= 2 {
            g.index_enabled = bool_of(&attr.value);
        }
    } else if key_is(&key, "EV") {
        if attr.code_name.path.len() >= 2 {
            g.events_enabled = bool_of(&attr.value);
        }
    } else if key_is(&key, "COM") {
        g.comments.push(attr.value);
        assert(texts(g.comments@) =~= g0.comments.push(a.value));
    } else {
        g.extra.push(attr);
        assert(views(g.extra@) =~= g0.extra.push(a));
    }
}

/// Routing of one M-group attribute.
pub open spec fn route_m_spec(g: MGroupV, a: RawAttributeV) -> MGroupV {
    let k = first_key_spec(a.code_name);
    let v = a.value;
    if k == Some("BSG"@) {
        MGroupV { baseband_signal_type: Some(v), ..g }
    } else if k == Some("MS"@) {
        MGroupV { modulation_sense: Some(v), ..g }
    } else if k == Some("COM"@) {
        MGroupV { comments: g.comments.push(v), ..g }
    } else {
        MGroupV { extra: g.extra.push(a), ..g }
    }
}

/// Route a M-group attribute.
fn route_m(g: &mut MGroup, attr: RawAttribute)
    ensures
        final(g)@ == route_m_spec(old(g)@, attr@),
{
    let ghost g0 = g@;
    let ghost a = attr@;
    let key = first_key(&attr.code_name);
    if key_is(&key, "BSG") {
        g.baseband_signal_type = Some(attr.value);
    } else if key_is(&key, "MS") {
        g.modulation_sense = Some(attr.value);
    } else if key_is(&key, "COM") {
        g.comments.push(attr.value);
        assert(texts(g.comments@) =~= g0.comments.push(a.value));
    } else {
        g.extra.push(attr);
        assert(views(g.extra@) =~= g0.extra.push(a));
    }
}

/// Routing of one P-group attribute.
pub open spec fn route_p_spec(g: PGroupV, a: RawAttributeV) -> PGroupV {
    let k = first_key_spec(a.code_name);
    let v = a.value;
    if k == Some("DLN"@) {
        PGroupV { data_link_name: Some(v), ..g }
    } else if k == Some("D1"@) {
        PGroupV { bit_rate: float_of_text(v), ..g }
    } else if k == Some("D2"@) {
        PGroupV { encoding: Some(v), ..g }
    } else if k == Some("D3"@) {
        PGroupV { polarity: Some(v), ..g }
    } else if k == Some("D4"@) {
        PGroupV { auto_polarity_correction: bool_of_text(v), ..g }
    } else if k == Some("MF"@) {
        if is_counter_spec(a.code_name) { PGroupV { num_minor_frames: u32_of_text(v), ..g } } else { g }
    } else if k == Some("F1"@) {
        PGroupV { num_words_per_frame: u32_of_text(v), ..g }
    } else if k == Some("F2"@) {
        PGroupV { num_bits_per_word: u32_of_text(v), ..g }
    } else if k == Some("F3"@) {
        if a.code_name.path.len() >= 2 { PGroupV { sync_pattern_length: u32_of_text(v), ..g } } else { PGroupV { sync_pattern: Some(v), ..g } }
    } else if k == Some("COM"@) {
        PGroupV { comments: g.comments.push(v), ..g }
    } else {
        PGroupV { extra: g.extra.push(a), ..g }
    }
}

/// Route a P-group attribute.
fn route_p(g: &mut PGroup, attr: RawAttribute)
    ensures
        final(g)@ == route_p_spec(old(g)@, attr@),
{
    let ghost g0 = g@;
    let ghost a = attr@;
    let key = first_key(&attr.code_name);
    if key_is(&key, "DLN") {
        g.data_link_name = Some(attr.value);
    } else if key_is(&key, "D1") {
        g.bit_rate = float_of(&attr.value);
    } else if key_is(&key, "D2") {
        g.encoding = Some(attr.value);
    } else if key_is(&key, "D3") {
        g.polarity = Some(attr.value);
    } else if key_is(&key, "D4") {
        g.auto_polarity_correction = bool_of(&attr.value);
    } else if key_is(&key, "MF") {
        if is_counter(&attr.code_name) {
            g.num_minor_frames = u32_of(&attr.value);
        }
    } else if key_is(&key, "F1") {
        g.num_words_per_frame = u32_of(&attr.value);
    } else if key_is(&key, "F2") {
        g.num_bits_per_word = u32_of(&attr.value);
    } else if key_is(&key, "F3") {
        if attr.code_name.path.len() >= 2 {
            g.sync_pattern_length = u32_of(&attr.value);
        } else {
            g.sync_pattern = Some(attr.value);
        }
    } else if key_is(&key, "COM") {
        g.comments.push(attr.value);
        assert(texts(g.comments@) =~= g0.comments.push(a.value));
    } else {
        g.extra.push(attr);
        assert(views(g.extra@) =~= g0.extra.push(a));
    }
}

/// Routing of one D-group attribute.
pub open spec fn route_d_spec(g: DGroupV, a: RawAttributeV) -> DGroupV {
    let k = first_key_spec(a.code_name);
    let v = a.value;
    if k == Some("MLN"@) {
        DGroupV { measurement_list_name: Some(v), ..g }
    } else if k == Some("DLN"@) {
        DGroupV { data_link_name: Some(v), ..g }
    } else if k == Some("MN"@) {
        if is_counter_spec(a.code_name) { DGroupV { num_measurements: u32_of_text(v), ..g } } else { g }
    } else if k == Some("COM"@) {
        DGroupV { comments: g.comments.push(v), ..g }
    } else {
        DGroupV { extra: g.extra.push(a), ..g }
    }
}

/// Route a D-group attribute.
fn route_d(g: &mut DGroup, attr: RawAttribute)
    ensures
        final(g)@ == route_d_spec(old(g)@, attr@),
{
    let ghost g0 = g@;
    let ghost a = attr@;
    let key = first_key(&attr.code_name);
    if key_is(&key, "MLN") {
        g.measurement_list_name = Some(attr.value);
    } else if key_is(&key, "DLN") {
        g.data_link_name = Some(attr.value);
    } else if key_is(&key, "MN") {
        if is_counter(&attr.code_name) {
            g.num_measurements = u32_of(&attr.value);
        }
    } else if key_is(&key, "COM") {
        g.comments.push(attr.value);
        assert(texts(g.comments@) =~= g0.comments.push(a.value));
    } else {
        g.extra.push(attr);
        assert(views(g.extra@) =~= g0.extra.push(a));
    }
}

/// Routing of one B-group attribute.
pub open spec fn route_b_spec(g: BGroupV, a: RawAttributeV) -> BGroupV {
    let k = first_key_spec(a.code_name);
    let v = a.value;
    if k == Some("DLN"@) {
        BGroupV { data_link_name: Some(v), ..g }
    } else if k == Some("BT"@) {
        BGroupV { bus_type: Some(v), ..g }
    } else if k == Some("NBS"@) {
        if is_counter_spec(a.code_name) { BGroupV { num_buses: u32_of_text(v), ..g } } else { g }
    } else if k == Some("COM"@) {
        BGroupV { comments: g.comments.push(v), ..g }
    } else {
        BGroupV { extra: g.extra.push(a), ..g }
    }
}

/// Route a B-group attribute.
fn route_b(g: &mut BGroup, attr: RawAttribute)
    ensures
        final(g)@ == route_b_spec(old(g)@, attr@),
{
    let ghost g0 = g@;
    let ghost a = attr@;
    let key = first_key(&attr.code_name);
    if key_is(&key, "DLN") {
        g.data_link_name = Some(attr.value);
    } else if key_is(&key, "BT") {
        g.bus_type = Some(attr.value);
    } else if key_is(&key, "NBS") {
        if is_counter(&attr.code_name) {
            g.num_buses = u32_of(&attr.value);
        }
    } else if key_is(&key, "COM") {
        g.comments.push(attr.value);
        assert(texts(g.comments@) =~= g0.comments.push(a.value));
    } else {
        g.extra.push(attr);
        assert(views(g.extra@) =~= g0.extra.push(a));
    }
}

/// Routing of one S-group attribute.
pub open spec fn route_s_spec(g: SGroupV, a: RawAttributeV) -> SGroupV {
    let k = first_key_spec(a.code_name);
    let v = a.value;
    if k == Some("DLN"@) {
        SGroupV { data_link_name: Some(v), ..g }
    } else if k == Some("COM"@) {
        SGroupV { comments: g.comments.push(v), ..g }
    } else {
        SGroupV { extra: g.extra.push(a), ..g }
    }
}

/// Route a S-group attribute.
fn route_s(g: &mut SGroup, attr: RawAttribute)
    ensures
        final(g)@ == route_s_spec(old(g)@, attr@),
{
    let ghost g0 = g@;
    let ghost a = attr@;
    let key = first_key(&attr.code_name);
    if key_is(&key, "DLN") {
        g.data_link_name = Some(attr.value);
    } else if key_is(&key, "COM") {
        g.comments.push(attr.value);
        assert(texts(g.comments@) =~= g0.comments.push(a.value));
    } else {
        g.extra.push(attr);
        assert(views(g.extra@) =~= g0.extra.push(a));
    }
}

/// Routing of one C-group attribute.
pub open spec fn route_c_spec(g: CGroupV, a: RawAttributeV) -> CGroupV {
    let k = first_key_spec(a.code_name);
    let v = a.value;
    if k == Some("DCN"@) {
        CGroupV { measurement_name: Some(v), ..g }
    } else if k == Some("DCT"@) {
        CGroupV { conversion_type: Some(v), ..g }
    } else if k == Some("EU"@) {
        CGroupV { eu_units: Some(v), ..g }
    } else if k == Some("COM"@) {
        CGroupV { comments: g.comments.push(v), ..g }
    } else {
        CGroupV { extra: g.extra.push(a), ..g }
    }
}

/// Route a C-group attribute.
fn route_c(g: &mut CGroup, attr: RawAttribute)
    ensures
        final(g)@ == route_c_spec(old(g)@, attr@),
{
    let ghost g0 = g@;
    let ghost a = attr@;
    let key = first_key(&attr.code_name);
    if key_is(&key, "DCN") {
        g.measurement_name = Some(attr.value);
    } else if key_is(&key, "DCT") {
        g.conversion_type = Some(attr.value);
    } else if key_is(&key, "EU") {
        g.eu_units = Some(attr.value);
    } else if key_is(&key, "COM") {
        g.comments.push(attr.value);
        assert(texts(g.comments@) =~= g0.comments.push(a.value));
    } else {
        g.extra.push(attr);
        assert(views(g.extra@) =~= g0.extra.push(a));
    }
}

/// Routing of one attribute into the document: by group letter, into the
/// group entry of its occurrence index (1 when it has none).
pub open spec fn route_doc(d: TmatsDocumentV, a: RawAttributeV) -> TmatsDocumentV {
    let idx = match a.code_name.occurrence {
        Some(i) => i,
        None => 1u32,
    };
    match a.code_name.group {
        GroupPrefix::G => TmatsDocumentV { general: route_g_spec(d.general, a), ..d },
        GroupPrefix::T => TmatsDocumentV { transmission: assoc_put(d.transmission, idx, route_t_spec(or_default(d.transmission, idx, TGroup::default_model()), a)), ..d },
        GroupPrefix::R => TmatsDocumentV { recorders: assoc_put(d.recorders, idx, route_r_spec(or_default(d.recorders, idx, RGroup::default_model()), a)), ..d },
        GroupPrefix::M => TmatsDocumentV { multiplex: assoc_put(d.multiplex, idx, route_m_spec(or_default(d.multiplex, idx, MGroup::default_model()), a)), ..d },
        GroupPrefix::P => TmatsDocumentV { pcm_formats: assoc_put(d.pcm_formats, idx, route_p_spec(or_default(d.pcm_formats, idx, PGroup::default_model()), a)), ..d },
        GroupPrefix::D => TmatsDocumentV { pcm_measurements: assoc_put(d.pcm_measurements, idx, route_d_spec(or_default(d.pcm_measurements, idx, DGroup::default_model()), a)), ..d },
        GroupPrefix::B => TmatsDocumentV { bus_data: assoc_put(d.bus_data, idx, route_b_spec(or_default(d.bus_data, idx, BGroup::default_model()), a)), ..d },
        GroupPrefix::S => TmatsDocumentV { message_data: assoc_put(d.message_data, idx, route_s_spec(or_default(d.message_data, idx, SGroup::default_model()), a)), ..d },
        GroupPrefix::C => TmatsDocumentV { data_conversion: assoc_put(d.data_conversion, idx, route_c_spec(or_default(d.data_conversion, idx, CGroup::default_model()), a)), ..d },
        GroupPrefix::Unknown(_) => TmatsDocumentV { unknown: d.unknown.push(a), ..d },
    }
}

/// Route one attribute into the document.
fn route_attribute(doc: &mut TmatsDocument, attr: RawAttribute)
    ensures
        final(doc)@ == route_doc(old(doc)@, attr@),
{
    let ghost d0 = doc@;
    let ghost a = attr@;
    let idx = match attr.code_name.occurrence {
        Some(i) => i,
        None => 1,
    };
    let group = attr.code_name.group;
    match group {
        GroupPrefix::G => route_g(&mut doc.general, attr),
        GroupPrefix::T => {
            let (pos, mut grp) = doc.transmission.take_entry(idx);
            route_t(&mut grp, attr);
            let ghost gv = grp@;
            doc.transmission.put_at(pos, grp);
            proof {
                lemma_put_over(d0.transmission, idx, TGroup::default_model(), gv);
            }
        },
        GroupPrefix::R => {
            let (pos, mut grp) = doc.recorders.take_entry(idx);
            route_r(&mut grp, attr);
            let ghost gv = grp@;
            doc.recorders.put_at(pos, grp);
            proof {
                lemma_put_over(d0.recorders, idx, RGroup::default_model(), gv);
            }
        },
        GroupPrefix::M => {
            let (pos, mut grp) = doc.multiplex.take_entry(idx);
            route_m(&mut grp, attr);
            let ghost gv = grp@;
            doc.multiplex.put_at(pos, grp);
            proof {
                lemma_put_over(d0.multiplex, idx, MGroup::default_model(), gv);
            }
        },
        GroupPrefix::P => {
            let (pos, mut grp) = doc.pcm_formats.take_entry(idx);
            route_p(&mut grp, attr);
            let ghost gv = grp@;
            doc.pcm_formats.put_at(pos, grp);
            proof {
                lemma_put_over(d0.pcm_formats, idx, PGroup::default_model(), gv);
            }
        },
        GroupPrefix::D => {
            let (pos, mut grp) = doc.pcm_measurements.take_entry(idx);
            route_d(&mut grp, attr);
            let ghost gv = grp@;
            doc.pcm_measurements.put_at(pos, grp);
            proof {
                lemma_put_over(d0.pcm_measurements, idx, DGroup::default_model(), gv);
            }
        },
        GroupPrefix::B => {
            let (pos, mut grp) = doc.bus_data.take_entry(idx);
            route_b(&mut grp, attr);
            let ghost gv = grp@;
            doc.bus_data.put_at(pos, grp);
            proof {
                lemma_put_over(d0.bus_data, idx, BGroup::default_model(), gv);
            }
        },
        GroupPrefix::S => {
            let (pos, mut grp) = doc.message_data.take_entry(idx);
            route_s(&mut grp, attr);
            let ghost gv = grp@;
            doc.message_data.put_at(pos, grp);
            proof {
                lemma_put_over(d0.message_data, idx, SGroup::default_model(), gv);
            }
        },
        GroupPrefix::C => {
            let (pos, mut grp) = doc.data_conversion.take_entry(idx);
            route_c(&mut grp, attr);
            let ghost gv = grp@;
            doc.data_conversion.put_at(pos, grp);
            proof {
                lemma_put_over(d0.data_conversion, idx, CGroup::default_model(), gv);
            }
        },
        GroupPrefix::Unknown(_) => {
            doc.unknown.push(attr);
            assert(views(doc.unknown@) =~= d0.unknown.push(a));
        },
    }
}

pub open spec fn dup_message(code: Seq<char>) -> Seq<char> {
    "duplicate attribute '"@ + code + "' (keeping last)"@
}

/// The warning recorded for a duplicate attribute in lenient mode.
pub open spec fn dup_diag(t: TokenV) -> DiagnosticV {
    DiagnosticV {
        severity: Severity::Warning,
        rule_id: "TMATS-P004"@,
        message: dup_message(t.code),
        spec_reference: "Ch9 §9.4.2"@,
        attribute_path: Some(t.code),
        expected: None,
        actual: None,
        suggested_fix: Some("remove duplicate attribute"@),
    }
}

/// The diagnostic recorded for a parse error in lenient mode.
pub open spec fn error_diag(e: ParseErrorV) -> DiagnosticV {
    DiagnosticV {
        severity: Severity::Error,
        rule_id: "TMATS-P"@ + dec_padded(e.kind.spec_code() as nat, 3),
        message: e.message,
        spec_reference: "Ch9 §9.4.2"@,
        attribute_path: e.code_name,
        expected: None,
        actual: None,
        suggested_fix: None,
    }
}

pub open spec fn raw_of(t: TokenV, cn: CodeNameV) -> RawAttributeV {
    RawAttributeV {
        code_name: cn,
        raw_code_name: t.code,
        value: t.value,
        byte_offset: t.byte_offset as usize,
        line: t.line as u32,
    }
}

/// Structuring of the tokens from `i` on, into `doc`, with the errors found
/// so far and the upper-cased code-names already seen.
pub open spec fn structure_from(
    toks: Seq<TokenV>,
    i: int,
    doc: TmatsDocumentV,
    errs: Seq<ParseErrorV>,
    seen: Seq<Seq<char>>,
    mode: ParseMode,
) -> Result<(TmatsDocumentV, Seq<ParseErrorV>), ParseErrorV>
    decreases toks.len() - i,
{
    if i < 0 || i >= toks.len() {
        Ok((doc, errs))
    } else {
        let t = toks[i];
        match code_name_spec(t.code) {
            None => {
                let e = perr(ParseErrorKind::MalformedCodeName, t.byte_offset, t.line, None, "empty group prefix"@);
                if mode == ParseMode::Strict {
                    Err(e)
                } else {
                    structure_from(toks, i + 1, doc, errs.push(e), seen, mode)
                }
            },
            Some(cn) => {
                let up = upper(t.code);
                if seen.contains(up) {
                    if mode == ParseMode::Strict {
                        Err(perr(ParseErrorKind::DuplicateAttribute, t.byte_offset, t.line, Some(t.code), dup_message(t.code)))
                    } else {
                        let d1 = TmatsDocumentV { parse_diagnostics: doc.parse_diagnostics.push(dup_diag(t)), ..doc };
                        structure_from(toks, i + 1, route_doc(d1, raw_of(t, cn)), errs, seen, mode)
                    }
                } else {
                    structure_from(toks, i + 1, route_doc(doc, raw_of(t, cn)), errs, seen.push(up), mode)
                }
            },
        }
    }
}

/// The version of a structured document: the target when one is given,
/// else the one that `G\106` names.
pub open spec fn detect_version(d: TmatsDocumentV, target: Option<Irig106Version>) -> Option<Irig106Version> {
    match target {
        Some(v) => Some(v),
        None => match d.general.irig106_version {
            Some(s) => Irig106Version::spec_from_g106(s),
            None => d.source_version,
        },
    }
}

/// Phase 2 of parsing: the document that the tokens describe, or the error
/// that strict mode stops at.
pub open spec fn structure_spec(toks: Seq<TokenV>, mode: ParseMode, target: Option<Irig106Version>) -> Result<TmatsDocumentV, ParseErrorV> {
    match structure_from(toks, 0, TmatsDocumentV::empty(), Seq::empty(), Seq::empty(), mode) {
        Err(e) => Err(e),
        Ok(r) => Ok(TmatsDocumentV {
            source_version: detect_version(r.0, target),
            parse_diagnostics: r.0.parse_diagnostics + r.1.map_values(|e: ParseErrorV| error_diag(e)),
            ..r.0
        }),
    }
}

/// Whether `x` occurs among the character vectors of `seen`.
fn contains_chars(seen: &Vec<Vec<char>>, x: &Vec<char>) -> (r: bool)
    ensures
        r == seen@.map_values(|v: Vec<char>| v@).contains(x@),
{
    let n = seen.len();
    for i in 0..n
        invariant
            n == seen@.len(),
            forall|j: int| 0 <= j < i ==> seen@[j]@ != x@,
    {
        if chars_eq(&seen[i], x) {
            assert(seen@.map_values(|v: Vec<char>| v@)[i as int] == x@);
            return true;
        }
    }
    proof {
        let m = seen@.map_values(|v: Vec<char>| v@);
        if m.contains(x@) {
            let j = choose|j: int| 0 <= j < m.len() && m[j] == x@;
            assert(seen@[j]@ == x@);
        }
    }
    false
}

fn diag_of_error(e: &ParseError) -> (r: Diagnostic)
    ensures
        r@ == error_diag(e@),
{
    let mut rule = owned("TMATS-P");
    push_dec_padded(&mut rule, e.kind.code() as u64, 3);
    Diagnostic {
        severity: Severity::Error,
        rule_id: rule,
        message: e.message.clone(),
        spec_reference: owned("Ch9 §9.4.2"),
        attribute_path: e.code_name.clone(),
        expected: None,
        actual: None,
        suggested_fix: None,
    }
}

/// Phase 2: routes the tokens into the typed groups.
fn structure_document(tokens: Vec<Token>, opts: &ParseOptions) -> (r: Result<TmatsDocument, ParseError>)
    ensures
        match structure_spec(views(tokens@), opts.mode, opts.target_version) {
            Ok(d) => r matches Ok(x) && x@ == d,
            Err(e) => r matches Err(x) && x@ == e,
        },
{
    let ghost toks = views(tokens@);
    let ghost goal = structure_from(toks, 0, TmatsDocumentV::empty(), Seq::empty(), Seq::empty(), opts.mode);
    let mut work = tokens;
    let mut doc = TmatsDocument::empty();
    let mut errors: Vec<ParseError> = Vec::new();
    let mut seen: Vec<Vec<char>> = Vec::new();
    assert(views(errors@) =~= Seq::<ParseErrorV>::empty());
    assert(seen@.map_values(|v: Vec<char>| v@) =~= Seq::<Seq<char>>::empty());
    let n = work.len();
    let mut i: usize = 0;
    while i < n
        invariant
            i <= n,
            n == work@.len(),
            n == toks.len(),
            toks == views(tokens@),
            forall|j: int| i <= j < n ==> work@[j]@ == toks[j],
            structure_from(toks, i as int, doc@, views(errors@), seen@.map_values(|v: Vec<char>| v@), opts.mode) == goal,
            goal == structure_from(toks, 0, TmatsDocumentV::empty(), Seq::empty(), Seq::empty(), opts.mode),
        decreases n - i,
    {
        let mut t = Token { code: String::new(), value: String::new(), byte_offset: 0, line: 0 };
        work.set_and_swap(i, &mut t);
        let ghost tv = toks[i as int];
        assert(t@ == tv);
        let ghost sv = seen@.map_values(|v: Vec<char>| v@);
        match parse_code_name(t.code.as_str()) {
            None => {
                let e = make_err(ParseErrorKind::MalformedCodeName, t.byte_offset, t.line, None, owned("empty group prefix"));
                if opts.mode == ParseMode::Strict {
                    assert(goal == Err::<(TmatsDocumentV, Seq<ParseErrorV>), ParseErrorV>(e@));
                    return Err(e);
                }
                let ghost ev = views(errors@);
                let ghost ew = e@;
                errors.push(e);
                assert(views(errors@) =~= ev.push(ew));
            },
            Some(cn) => {
                let code_chars = chars_of(t.code.as_str());
                let up = upper_chars(&code_chars);
                if contains_chars(&seen, &up) {
                    let mut msg = owned("duplicate attribute '");
                    push_str(&mut msg, t.code.as_str());
                    push_str(&mut msg, "' (keeping last)");
                    if opts.mode == ParseMode::Strict {
                        let code_copy = t.code.clone();
                        return Err(make_err(ParseErrorKind::DuplicateAttribute, t.byte_offset, t.line, Some(code_copy), msg));
                    }
                    let dg = Diagnostic {
                        severity: Severity::Warning,
                        rule_id: owned("TMATS-P004"),
                        message: msg,
                        spec_reference: owned("Ch9 §9.4.2"),
                        attribute_path: Some(t.code.clone()),
                        expected: None,
                        actual: None,
                        suggested_fix: Some(owned("remove duplicate attribute")),
                    };
                    let ghost dv = views(doc.parse_diagnostics@);
                    let ghost dgv = dg@;
                    doc.parse_diagnostics.push(dg);
                    assert(views(doc.parse_diagnostics@) =~= dv.push(dgv));
                } else {
                    seen.push(up);
                    assert(seen@.map_values(|v: Vec<char>| v@) =~= sv.push(upper(tv.code)));
                }
                let attr = RawAttribute {
                    code_name: cn,
                    raw_code_name: t.code,
                    value: t.value,
                    byte_offset: t.byte_offset,
                    line: t.line,
                };
                route_attribute(&mut doc, attr);
            },
        }
        i = i + 1;
    }
    let ghost d0 = doc@;
    let ghost e0 = views(errors@);
    assert(goal == Ok::<(TmatsDocumentV, Seq<ParseErrorV>), ParseErrorV>((d0, e0)));
    let ver = match &doc.general.irig106_version {
        Some(s) => Irig106Version::from_g106_str(s.as_str()),
        None => doc.source_version,
    };
    let ver = match opts.target_version {
        Some(v) => Some(v),
        None => ver,
    };
    doc.source_version = ver;
    let ghost pd = views(doc.parse_diagnostics@);
    let m = errors.len();
    assert(doc@ == TmatsDocumentV { source_version: detect_version(d0, opts.target_version), parse_diagnostics: pd, ..d0 });
    for j in 0..m
        invariant
            m == errors@.len(),
            e0 == views(errors@),
            views(doc.parse_diagnostics@) == pd + views(errors@).take(j as int).map_values(|e: ParseErrorV| error_diag(e)),
            doc@ == (TmatsDocumentV { source_version: detect_version(d0, opts.target_version), parse_diagnostics: doc@.parse_diagnostics, ..d0 }),
    {
        let dg = diag_of_error(&errors[j]);
        let ghost before = views(doc.parse_diagnostics@);
        let ghost dgv = dg@;
        doc.parse_diagnostics.push(dg);
        assert(views(doc.parse_diagnostics@) =~= before.push(dgv));
        assert(views(errors@).take(j + 1) =~= views(errors@).take(j as int).push(errors@[j as int]@));
        assert(views(doc.parse_diagnostics@) =~= pd + views(errors@).take(j + 1).map_values(|e: ParseErrorV| error_diag(e)));
    }
    assert(views(errors@).take(m as int) =~= views(errors@));
    assert(doc@.source_version == detect_version(d0, opts.target_version));
    assert(doc@.parse_diagnostics == d0.parse_diagnostics + e0.map_values(|e: ParseErrorV| error_diag(e)));
    assert(doc@ == TmatsDocumentV {
            source_version: detect_version(d0, opts.target_version),
            parse_diagnostics: d0.parse_diagnostics + e0.map_values(|e: ParseErrorV| error_diag(e)),
            ..d0
        });
    Ok(doc)
}

// ═══ Public API ═════════════════════════════════════════════════════════════

/// A structured document with the tokenization errors reported first
/// among its diagnostics.
pub open spec fn with_token_errors(d: TmatsDocumentV, errs: Seq<ParseErrorV>) -> TmatsDocumentV {
    TmatsDocumentV { parse_diagnostics: errs.map_values(|e: ParseErrorV| error_diag(e)) + d.parse_diagnostics, ..d }
}

/// What parsing yields: the document, or the errors that strict mode
/// reports (every tokenization error, or the first structuring error).
/// Lenient mode keeps every well-formed attribute and reports each
/// tokenization error as a diagnostic, ahead of the structuring ones.
pub open spec fn parse_spec(input: Seq<u8>, opts: ParseOptions) -> Result<TmatsDocumentV, Seq<ParseErrorV>> {
    let (toks, errs) = tokenize_spec(input, opts.max_attributes as nat, opts.max_value_size as nat);
    if errs.len() > 0 && opts.mode == ParseMode::Strict {
        Err(errs)
    } else {
        match structure_spec(toks, opts.mode, opts.target_version) {
            Ok(d) => Ok(if errs.len() == 0 { d } else { with_token_errors(d, errs) }),
            Err(e) => Err(seq![e]),
        }
    }
}

/// Put the diagnostics of tokenization errors ahead of a document's own.
fn prepend_token_errors(doc: &mut TmatsDocument, errors: &Vec<ParseError>)
    ensures
        final(doc)@ == with_token_errors(old(doc)@, views(errors@)),
{
    let ghost d0 = doc@;
    let mut rest: Vec<Diagnostic> = Vec::new();
    std::mem::swap(&mut rest, &mut doc.parse_diagnostics);
    let ghost r0 = views(rest@);
    assert(r0 == d0.parse_diagnostics);
    assert(views(doc.parse_diagnostics@) =~= Seq::<DiagnosticV>::empty());
    let ghost ev = views(errors@);
    let m = errors.len();
    for j in 0..m
        invariant
            m == errors@.len(),
            views(doc.parse_diagnostics@) == views(errors@).take(j as int).map_values(|e: ParseErrorV| error_diag(e)),
            doc@ == (TmatsDocumentV { parse_diagnostics: doc@.parse_diagnostics, ..d0 }),
    {
        let dg = diag_of_error(&errors[j]);
        let ghost before = views(doc.parse_diagnostics@);
        let ghost dgv = dg@;
        doc.parse_diagnostics.push(dg);
        assert(views(doc.parse_diagnostics@) =~= before.push(dgv));
        assert(views(errors@).take(j + 1) =~= views(errors@).take(j as int).push(errors@[j as int]@));
        assert(views(doc.parse_diagnostics@) =~= views(errors@).take(j + 1).map_values(|e: ParseErrorV| error_diag(e)));
    }
    assert(views(errors@).take(m as int) =~= views(errors@));
    let ghost head = views(doc.parse_diagnostics@);
    let n = rest.len();
    for i in 0..n
        invariant
            n == rest@.len(),
            views(doc.parse_diagnostics@) == head + r0.take(i as int),
            forall|k: int| i <= k < n ==> rest@[k]@ == r0[k],
            r0.len() == n,
            doc@ == (TmatsDocumentV { parse_diagnostics: doc@.parse_diagnostics, ..d0 }),
    {
        let mut x = Diagnostic {
            severity: Severity::Info,
            rule_id: String::new(),
            message: String::new(),
            spec_reference: String::new(),
            attribute_path: None,
            expected: None,
            actual: None,
            suggested_fix: None,
        };
        rest.set_and_swap(i, &mut x);
        let ghost before = views(doc.parse_diagnostics@);
        let ghost xv = x@;
        doc.parse_diagnostics.push(x);
        assert(views(doc.parse_diagnostics@) =~= before.push(xv));
        assert(r0.take(i + 1) =~= r0.take(i as int).push(r0[i as int]));
    }
    assert(r0.take(n as int) =~= r0);
    assert(doc@.parse_diagnostics =~= with_token_errors(d0, ev).parse_diagnostics);
}

/// Whether `x` holds exactly the parse errors `es`, in order.
pub open spec fn holds_parse_errors(x: TmatsErrors, es: Seq<ParseErrorV>) -> bool {
    &&& x.errors@.len() == es.len()
    &&& forall|i: int| 0 <= i < es.len() ==> ((#[trigger] x.errors@[i]) matches TmatsError::Parse(e) && e@ == es[i])
}

/// The result of a parse, as `parse_spec` describes it.
pub open spec fn parse_result_is(r: Result<TmatsDocument, TmatsErrors>, s: Result<TmatsDocumentV, Seq<ParseErrorV>>) -> bool {
    match s {
        Ok(d) => r matches Ok(x) && x@ == d,
        Err(es) => r matches Err(x) && holds_parse_errors(x, es),
    }
}

fn wrap_errors(errs: Vec<ParseError>) -> (r: TmatsErrors)
    ensures
        holds_parse_errors(r, views(errs@)),
{
    let ghost ev = views(errs@);
    let mut out = TmatsErrors::new();
    let mut errs = errs;
    let n = errs.len();
    let mut i: usize = 0;
    while i < n
        invariant
            i <= n,
            n == errs@.len(),
            n == ev.len(),
            forall|j: int| i <= j < n ==> errs@[j]@ == ev[j],
            out.errors@.len() == i,
            forall|j: int| 0 <= j < i ==> ((#[trigger] out.errors@[j]) matches TmatsError::Parse(e) && e@ == ev[j]),
        decreases n - i,
    {
        let mut e = make_err(ParseErrorKind::UnexpectedEof, 0, 0, None, String::new());
        errs.set_and_swap(i, &mut e);
        out.push(TmatsError::Parse(e));
        i = i + 1;
    }
    out
}

/// Parse TMATS ASCII data with explicit options.
pub fn parse_with_options(input: &[u8], opts: &ParseOptions) -> (r: Result<TmatsDocument, TmatsErrors>)
    requires
        count_nl(input@) < u32::MAX,
    ensures
        parse_result_is(r, parse_spec(input@, *opts)),
{
    let (tokens, errors) = tokenize(input, opts);
    if errors.len() > 0 && opts.mode == ParseMode::Strict {
        return Err(wrap_errors(errors));
    }
    match structure_document(tokens, opts) {
        Ok(doc) => {
            let mut doc = doc;
            if errors.len() > 0 {
                prepend_token_errors(&mut doc, &errors);
            }
            Ok(doc)
        },
        Err(e) => {
            let mut v: Vec<ParseError> = Vec::new();
            let ghost ew = e@;
            v.push(e);
            assert(views(v@) =~= seq![ew]);
            Err(wrap_errors(v))
        },
    }
}

/// The options that `parse` uses: strict, no version override, at most
/// 100 000 attributes of at most 1 MiB each.
pub open spec fn default_parse_options() -> ParseOptions {
    ParseOptions { mode: ParseMode::Strict, target_version: None, max_attributes: 100_000, max_value_size: 1_048_576 }
}

/// Parse TMATS ASCII data with the default options.
pub fn parse(input: &[u8]) -> (r: Result<TmatsDocument, TmatsErrors>)
    requires
        count_nl(input@) < u32::MAX,
    ensures
        parse_result_is(r, parse_spec(input@, default_parse_options())),
{
    let opts = ParseOptions::default();
    parse_with_options(input, &opts)
}

/// Parse and produce a document that owns all of its text.
pub fn parse_owned(input: &[u8]) -> (r: Result<OwnedTmatsDocument, TmatsErrors>)
    requires
        count_nl(input@) < u32::MAX,
    ensures
        parse_result_is(r, parse_spec(input@, default_parse_options())),
{
    match parse(input) {
        Ok(doc) => Ok(doc.into_owned()),
        Err(e) => Err(e),
    }
}

} // verus!
