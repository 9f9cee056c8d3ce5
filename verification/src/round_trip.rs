//! What parsing reads back of written text: rendering attributes as
//! `code:value;` text, encoding it as UTF-8 and tokenizing the bytes gives
//! the same attributes again, and structuring those attributes gives back
//! the document's G-group fields, counters and recorder channels.
use vstd::prelude::*;
use vstd::utf8::*;
use crate::parse::{TokenV, tokenize_from, tokenize_spec, skip_ws, find_from, lemma_find_from, is_graphic, ascii_chars, ParseMode, code_name_spec, structure_from, structure_spec, route_doc, route_g_spec, raw_of, first_key_spec, first_index_spec, route_r_spec, u16_of_text, u32_of_text, is_counter_spec, parse_spec, default_parse_options, path_segment_spec, group_prefix_spec, last_index_of};
use crate::model::{CodeNameV, GGroupV, RGroup, RGroupV, RChannelV, DataSourceDecl, DataSourceDeclV};
use crate::ordered_map::{DefaultModel, assoc_get, assoc_put, assoc_find, assoc_keys, has_key, or_default, lemma_get_put, lemma_assoc_find, lemma_assoc_find_unique, lemma_put_keys, lemma_same_keys_len};
use crate::validate::{v001, v002, v010, v011, v011_all};
use crate::types_bridge::GroupPrefix;
use crate::text::{upper, split, dec, trim, trim_start, trim_end, is_digit, parse_unsigned, lemma_dec_value, lemma_dec_len, lemma_split_single, lemma_split_append};
use crate::serial::{lemma_doc_pairs_g_scalars, lemma_doc_pairs_channels, lemma_doc_pairs_recorders, lemma_doc_pairs_sources, channel_in, recorder_in, source_in};
use crate::serial::{Pairs, bool_text, render, doc_pairs, written_pairs, serialized_text, separator, SerializeOptions, OutputFormat, LineEnding};
use crate::model::TmatsDocumentV;
use crate::error::{ParseErrorV, DiagnosticV};

verus! {

/// The code-name and value of each token.
pub open spec fn token_pairs(t: Seq<TokenV>) -> Pairs {
    t.map_values(|x: TokenV| (x.code, x.value))
}

/// A character a code-name can hold so that it reads back: printable ASCII
/// other than space and `:`.
pub open spec fn is_code_char(c: char) -> bool {
    '!' <= c && c <= '~' && c != ':'
}

/// An attribute that reads back from its text: a non-empty code-name of
/// printable ASCII without `:`, a value without `;` whose UTF-8 encoding
/// fits the value limit.
pub open spec fn pair_reads_back(p: (Seq<char>, Seq<char>), max_val: nat) -> bool {
    &&& p.0.len() > 0
    &&& forall|i: int| 0 <= i < p.0.len() ==> is_code_char(#[trigger] p.0[i])
    &&& forall|i: int| 0 <= i < p.1.len() ==> #[trigger] p.1[i] != ';'
    &&& encode_utf8(p.1).len() <= max_val
}

/// Characters that the tokenizer skips between attributes.
pub open spec fn is_blank(c: char) -> bool {
    (c as u32) <= 0x20
}

// ─── UTF-8 ──────────────────────────────────────────────────────────────────

proof fn lemma_encode_concat(a: Seq<char>, b: Seq<char>)
    ensures
        encode_utf8(a + b) == encode_utf8(a) + encode_utf8(b),
    decreases a.len(),
{
    if a.len() == 0 {
        assert(a + b =~= b);
        assert(encode_utf8(a) + encode_utf8(b) =~= encode_utf8(b));
    } else {
        lemma_encode_concat(a.drop_first(), b);
        assert((a + b)[0] == a[0]);
        assert((a + b).drop_first() =~= a.drop_first() + b);
        assert(encode_utf8(a + b) =~= encode_utf8(a) + encode_utf8(b));
    }
}

proof fn lemma_encode_ascii_char(c: char)
    requires
        (c as u32) < 0x80,
    ensures
        encode_utf8(seq![c]) == seq![(c as u32) as u8],
{
    let v = c as u32;
    assert(v & 0x7F == v) by (bit_vector)
        requires
            v < 0x80,
    ;
    assert(seq![c].drop_first() =~= Seq::<char>::empty());
    assert(encode_utf8(Seq::<char>::empty()) =~= Seq::<u8>::empty());
    assert(seq![c][0] == c);
    assert(encode_scalar(v) =~= seq![v as u8]);
    assert(encode_utf8(seq![c]) =~= seq![(c as u32) as u8]);
}

proof fn lemma_scalar_high(v: u32)
    requires
        is_scalar(v),
        v >= 0x80,
    ensures
        forall|j: int| 0 <= j < encode_scalar(v).len() ==> encode_scalar(v)[j] >= 0x80,
{
    assert(leading_byte_width_2(v) >= 0x80) by (bit_vector);
    assert(leading_byte_width_3(v) >= 0x80) by (bit_vector);
    assert(leading_byte_width_4(v) >= 0x80) by (bit_vector);
    assert(last_continuation_byte(v) >= 0x80) by (bit_vector);
    assert(second_last_continuation_byte(v) >= 0x80) by (bit_vector);
    assert(third_last_continuation_byte(v) >= 0x80) by (bit_vector);
}

/// The UTF-8 bytes of text without the ASCII character `t` hold no byte `t`.
proof fn lemma_encode_lacks(s: Seq<char>, t: char)
    requires
        (t as u32) < 0x80,
        forall|i: int| 0 <= i < s.len() ==> #[trigger] s[i] != t,
    ensures
        forall|j: int| 0 <= j < encode_utf8(s).len() ==> #[trigger] encode_utf8(s)[j] != (t as u32) as u8,
    decreases s.len(),
{
    if s.len() > 0 {
        let c = s[0];
        let rest = s.drop_first();
        lemma_encode_lacks(rest, t);
        char_is_scalar(c);
        let e = encode_scalar(c as u32);
        if (c as u32) < 0x80 {
            let v = c as u32;
            assert(v & 0x7F == v) by (bit_vector)
                requires
                    v < 0x80,
            ;
            assert(e =~= seq![(c as u32) as u8]);
            let w = t as u32;
            assert(c != t) by {
                assert(s[0] == c);
            }
            char_u32_cast(c, v);
            char_u32_cast(t, w);
            assert(v != w);
            assert(v as u8 != w as u8) by (bit_vector)
                requires
                    v < 0x80,
                    w < 0x80,
                    v != w,
            ;
        } else {
            lemma_scalar_high(c as u32);
        }
        assert forall|j: int| 0 <= j < encode_utf8(s).len() implies #[trigger] encode_utf8(s)[j] != (t as u32) as u8 by {
            if j < e.len() {
                assert(encode_utf8(s)[j] == e[j]);
            } else {
                assert(encode_utf8(s)[j] == encode_utf8(rest)[j - e.len()]);
            }
        }
    }
}

/// The UTF-8 bytes of ASCII text are its characters' codes.
proof fn lemma_encode_ascii(s: Seq<char>)
    requires
        forall|i: int| 0 <= i < s.len() ==> (#[trigger] s[i] as u32) < 0x80,
    ensures
        encode_utf8(s).len() == s.len(),
        forall|j: int| 0 <= j < s.len() ==> #[trigger] encode_utf8(s)[j] == (s[j] as u32) as u8,
    decreases s.len(),
{
    if s.len() > 0 {
        let c = s[0];
        let rest = s.drop_first();
        assert forall|i: int| 0 <= i < rest.len() implies (#[trigger] rest[i] as u32) < 0x80 by {
            assert(rest[i] == s[i + 1]);
        }
        lemma_encode_ascii(rest);
        let v = c as u32;
        assert(v & 0x7F == v) by (bit_vector)
            requires
                v < 0x80,
        ;
        assert forall|j: int| 0 <= j < s.len() implies #[trigger] encode_utf8(s)[j] == (s[j] as u32) as u8 by {
            if j > 0 {
                assert(encode_utf8(s)[j] == encode_utf8(rest)[j - 1]);
                assert(rest[j - 1] == s[j]);
            }
        }
    }
}

// ─── The tokenizer on written text ──────────────────────────────────────────

proof fn lemma_find_at(s: Seq<u8>, start: int, t: u8, i: int)
    requires
        0 <= start <= i < s.len(),
        s[i] == t,
        forall|j: int| start <= j < i ==> s[j] != t,
    ensures
        find_from(s, start, t) == Some(i),
    decreases i - start,
{
    if start < i {
        lemma_find_at(s, start + 1, t, i);
    }
}

proof fn lemma_skip_to(s: Seq<u8>, pos: int, line: int, e: int)
    requires
        0 <= pos <= e <= s.len(),
        forall|j: int| pos <= j < e ==> s[j] <= 0x20,
        e < s.len() ==> s[e] > 0x20,
    ensures
        skip_ws(s, pos, line).0 == e,
    decreases e - pos,
{
    if pos < e {
        lemma_skip_to(s, pos + 1, if s[pos] == 0x0A { line + 1 } else { line }, e);
    }
}

/// The bytes of one attribute written with separator `sep`.
pub open spec fn chunk(p: (Seq<char>, Seq<char>), sep: Seq<char>) -> Seq<u8> {
    encode_utf8(p.0 + seq![':'] + p.1 + seq![';'] + sep)
}

proof fn lemma_render_prefix(p: Pairs, sep: Seq<char>, k: int)
    requires
        0 <= k < p.len(),
    ensures
        encode_utf8(render(p.take(k + 1), sep)) == encode_utf8(render(p.take(k), sep)) + chunk(p[k], sep),
{
    let q = p.take(k + 1);
    assert(q.drop_last() =~= p.take(k));
    assert(q.last() == p[k]);
    let a = render(p.take(k), sep);
    let b = p[k].0 + seq![':'] + p[k].1 + seq![';'] + sep;
    assert(render(q, sep) =~= a + b);
    lemma_encode_concat(a, b);
}

proof fn lemma_render_grows(p: Pairs, sep: Seq<char>, k: int)
    requires
        0 <= k <= p.len(),
    ensures
        encode_utf8(render(p, sep)).len() >= encode_utf8(render(p.take(k), sep)).len(),
        encode_utf8(render(p, sep)).take(encode_utf8(render(p.take(k), sep)).len() as int)
            == encode_utf8(render(p.take(k), sep)),
    decreases p.len() - k,
{
    if k == p.len() {
        assert(p.take(k) =~= p);
        let w = encode_utf8(render(p, sep));
        assert(w.take(w.len() as int) =~= w);
    } else {
        lemma_render_grows(p, sep, k + 1);
        lemma_render_prefix(p, sep, k);
        let w = encode_utf8(render(p, sep));
        let a = encode_utf8(render(p.take(k), sep));
        let b = encode_utf8(render(p.take(k + 1), sep));
        assert(b.take(a.len() as int) =~= a);
        assert(w.take(a.len() as int) =~= b.take(a.len() as int));
    }
}

/// The layout of one written attribute: where its code-name, `:`, value,
/// `;` and separator bytes lie.
proof fn lemma_chunk_layout(p: (Seq<char>, Seq<char>), sep: Seq<char>, max_val: nat)
    requires
        pair_reads_back(p, max_val),
        forall|i: int| 0 <= i < sep.len() ==> is_blank(#[trigger] sep[i]),
    ensures
        ({
            let c = chunk(p, sep);
            let n = p.0.len() as int;
            let ev = encode_utf8(p.1);
            let m = ev.len() as int;
            &&& c.len() == n + 1 + m + 1 + sep.len()
            &&& forall|j: int| 0 <= j < n ==> is_graphic(#[trigger] c[j]) && c[j] != 0x3A
            &&& ascii_chars(c.take(n)) == p.0
            &&& c[n] == 0x3A
            &&& c.subrange(n + 1, n + 1 + m) == ev
            &&& forall|j: int| n + 1 <= j < n + 1 + m ==> #[trigger] c[j] != 0x3B
            &&& c[n + 1 + m] == 0x3B
            &&& forall|j: int| n + 2 + m <= j < c.len() ==> #[trigger] c[j] <= 0x20
        }),
{
    let code = p.0;
    let v = p.1;
    let colon = seq![':'];
    let semi = seq![';'];
    lemma_encode_concat(code + colon + v + semi, sep);
    lemma_encode_concat(code + colon + v, semi);
    lemma_encode_concat(code + colon, v);
    lemma_encode_concat(code, colon);
    assert forall|i: int| 0 <= i < code.len() implies (#[trigger] code[i] as u32) < 0x80 by {
        assert(is_code_char(code[i]));
    }
    lemma_encode_ascii(code);
    lemma_encode_ascii_char(':');
    lemma_encode_ascii_char(';');
    assert forall|i: int| 0 <= i < sep.len() implies (#[trigger] sep[i] as u32) < 0x80 by {
        assert(is_blank(sep[i]));
    }
    lemma_encode_ascii(sep);
    lemma_encode_lacks(v, ';');
    let ec = encode_utf8(code);
    let ev = encode_utf8(v);
    let es = encode_utf8(sep);
    let c = chunk(p, sep);
    assert(c =~= ec + seq![0x3Au8] + ev + seq![0x3Bu8] + es);
    let n = code.len() as int;
    let m = ev.len() as int;
    assert forall|j: int| 0 <= j < n implies is_graphic(#[trigger] c[j]) && c[j] != 0x3A by {
        assert(c[j] == ec[j]);
        assert(is_code_char(code[j]));
    }
    assert(c.take(n) =~= ec);
    assert forall|j: int| 0 <= j < n implies #[trigger] ascii_chars(c.take(n))[j] == code[j] by {
        assert(is_code_char(code[j]));
    }
    assert(ascii_chars(c.take(n)) =~= code);
    assert(c.subrange(n + 1, n + 1 + m) =~= ev);
    assert forall|j: int| n + 1 <= j < n + 1 + m implies #[trigger] c[j] != 0x3B by {
        assert(c[j] == ev[j - n - 1]);
    }
    assert forall|j: int| n + 2 + m <= j < c.len() implies #[trigger] c[j] <= 0x20 by {
        assert(c[j] == es[j - n - 2 - m]);
        assert(is_blank(sep[j - n - 2 - m]));
    }
}

/// From a position followed only by blanks up to the start of attribute
/// `k`, the tokenizer reads the attributes from `k` on, one token each.
proof fn lemma_tokenize_rest(
    p: Pairs,
    sep: Seq<char>,
    k: int,
    pos: int,
    line: int,
    toks: Seq<TokenV>,
    errs: Seq<ParseErrorV>,
    max_attrs: nat,
    max_val: nat,
)
    requires
        0 <= k <= p.len(),
        forall|i: int| 0 <= i < p.len() ==> pair_reads_back(#[trigger] p[i], max_val),
        forall|i: int| 0 <= i < sep.len() ==> is_blank(#[trigger] sep[i]),
        toks.len() + (p.len() - k) <= max_attrs,
        0 <= pos <= encode_utf8(render(p.take(k), sep)).len(),
        forall|j: int| pos <= j < encode_utf8(render(p.take(k), sep)).len() ==> #[trigger] encode_utf8(
            render(p, sep),
        )[j] <= 0x20,
    ensures
        tokenize_from(encode_utf8(render(p, sep)), pos, line, toks, errs, max_attrs, max_val).1 == errs,
        token_pairs(tokenize_from(encode_utf8(render(p, sep)), pos, line, toks, errs, max_attrs, max_val).0)
            == token_pairs(toks) + p.skip(k),
    decreases p.len() - k,
{
    let s = encode_utf8(render(p, sep));
    let b = encode_utf8(render(p.take(k), sep)).len() as int;
    lemma_render_grows(p, sep, k);
    if k == p.len() {
        assert(p.take(k) =~= p);
        assert(p.skip(k) =~= Seq::<(Seq<char>, Seq<char>)>::empty());
        assert(token_pairs(toks) + p.skip(k) =~= token_pairs(toks));
        if pos < s.len() {
            lemma_skip_to(s, pos, line, s.len() as int);
        }
    } else {
        let e = p[k];
        lemma_render_prefix(p, sep, k);
        lemma_render_grows(p, sep, k + 1);
        lemma_chunk_layout(e, sep, max_val);
        let c = chunk(e, sep);
        let b2 = encode_utf8(render(p.take(k + 1), sep)).len() as int;
        assert(b2 == b + c.len());
        assert forall|j: int| 0 <= j < c.len() implies s[b + j] == #[trigger] c[j] by {
            let w2 = encode_utf8(render(p.take(k + 1), sep));
            assert(s.take(b2)[b + j] == s[b + j]);
            assert(w2[b + j] == c[j]);
        }
        let n = e.0.len() as int;
        let ev = encode_utf8(e.1);
        let m = ev.len() as int;
        // Blanks, then the code-name.
        assert(s[b] == c[0]);
        lemma_skip_to(s, pos, line, b);
        let (pp, ln) = skip_ws(s, pos, line);
        assert(pp == b);
        // The `:` after the code-name.
        assert forall|j: int| b <= j < b + n implies s[j] != 0x3A by {
            assert(s[j] == c[j - b]);
        }
        assert(s[b + n] == c[n]);
        lemma_find_at(s, b, 0x3A, b + n);
        let cn = s.subrange(b, b + n);
        assert(cn =~= c.take(n)) by {
            assert forall|j: int| 0 <= j < n implies cn[j] == c.take(n)[j] by {
                assert(s[b + j] == c[j]);
            }
        }
        assert forall|j: int| 0 <= j < cn.len() implies is_graphic(#[trigger] cn[j]) by {
            assert(cn[j] == c[j]);
        }
        // The `;` after the value.
        assert forall|j: int| b + n + 1 <= j < b + n + 1 + m implies s[j] != 0x3B by {
            assert(s[j] == c[j - b]);
        }
        assert(s[b + n + 1 + m] == c[n + 1 + m]);
        lemma_find_at(s, b + n + 1, 0x3B, b + n + 1 + m);
        let vb = s.subrange(b + n + 1, b + n + 1 + m);
        assert(vb =~= ev) by {
            assert forall|j: int| 0 <= j < m implies vb[j] == ev[j] by {
                assert(s[b + n + 1 + j] == c[n + 1 + j]);
                assert(c.subrange(n + 1, n + 1 + m)[j] == c[n + 1 + j]);
            }
        }
        encode_utf8_valid_utf8(e.1);
        encode_utf8_decode_utf8(e.1);
        let tok = TokenV { code: e.0, value: e.1, byte_offset: b, line: ln };
        let toks2 = toks.push(tok);
        // The separator is blank up to the next attribute.
        let next = b + n + 2 + m;
        assert forall|j: int| next <= j < b2 implies #[trigger] s[j] <= 0x20 by {
            assert(s[j] == c[j - b]);
        }
        let ln2 = ln + crate::parse::count_nl(vb);
        assert(tokenize_from(s, pos, line, toks, errs, max_attrs, max_val) == tokenize_from(
            s, next, ln2, toks2, errs, max_attrs, max_val,
        ));
        lemma_tokenize_rest(p, sep, k + 1, next, ln2, toks2, errs, max_attrs, max_val);
        assert(token_pairs(toks2) =~= token_pairs(toks).push((e.0, e.1)));
        assert(p.skip(k) =~= seq![e] + p.skip(k + 1));
        assert(token_pairs(toks2) + p.skip(k + 1) =~= token_pairs(toks) + p.skip(k));
    }
}

// ─── Laws ───────────────────────────────────────────────────────────────────

/// Attributes written as `code:value;` text, each followed by blanks, read
/// back as the same attributes in the same order and without error, when
/// every code-name is printable ASCII without `:`, no value holds `;`, and
/// the attributes fit the tokenizer's limits.
pub proof fn law_tokenize_reads_back_render(p: Pairs, sep: Seq<char>, max_attrs: nat, max_val: nat)
    requires
        forall|i: int| 0 <= i < p.len() ==> pair_reads_back(#[trigger] p[i], max_val),
        forall|i: int| 0 <= i < sep.len() ==> is_blank(#[trigger] sep[i]),
        p.len() <= max_attrs,
    ensures
        tokenize_spec(encode_utf8(render(p, sep)), max_attrs, max_val).1.len() == 0,
        token_pairs(tokenize_spec(encode_utf8(render(p, sep)), max_attrs, max_val).0) == p,
{
    assert(p.take(0) =~= Seq::<(Seq<char>, Seq<char>)>::empty());
    lemma_tokenize_rest(p, sep, 0, 0, 1, Seq::empty(), Seq::empty(), max_attrs, max_val);
    assert(token_pairs(Seq::<TokenV>::empty()) + p.skip(0) =~= p);
}

/// The bytes that serializing a document writes tokenize back into the
/// attributes it writes (the document's, in canonical order, keyword values
/// in canonical case when asked), without error, under the default parse
/// limits, when every attribute reads back from its text.
pub proof fn law_serialized_document_tokenizes_to_its_attributes(d: TmatsDocumentV, opts: SerializeOptions)
    requires
        forall|i: int| 0 <= i < written_pairs(d, opts).len()
            ==> pair_reads_back(#[trigger] written_pairs(d, opts)[i], 1_048_576),
        written_pairs(d, opts).len() <= 100_000,
    ensures
        tokenize_spec(encode_utf8(serialized_text(d, opts)), 100_000, 1_048_576).1.len() == 0,
        token_pairs(tokenize_spec(encode_utf8(serialized_text(d, opts)), 100_000, 1_048_576).0)
            == written_pairs(d, opts),
{
    let sep = separator(opts);
    assert forall|i: int| 0 <= i < sep.len() implies is_blank(#[trigger] sep[i]) by {
        if opts.format == OutputFormat::Pretty {
            match opts.line_ending {
                LineEnding::Lf => assert(sep[i] == '\n'),
                LineEnding::CrLf => assert(sep[i] == '\r' || sep[i] == '\n'),
            }
        }
    }
    law_tokenize_reads_back_render(written_pairs(d, opts), sep, 100_000, 1_048_576);
}

// ─── What parsing gives back of a serialized document ───────────────────────

/// The code-name of a token, or an empty G code-name where it does not parse.
pub open spec fn token_code_name(t: TokenV) -> CodeNameV {
    match code_name_spec(t.code) {
        Some(cn) => cn,
        None => CodeNameV { group: GroupPrefix::G, occurrence: None, path: Seq::empty() },
    }
}

/// Routing the tokens from `i` on, one after another, into `doc`.
pub open spec fn route_from(toks: Seq<TokenV>, i: int, doc: TmatsDocumentV) -> TmatsDocumentV
    decreases toks.len() - i,
{
    if i < 0 || i >= toks.len() {
        doc
    } else {
        route_from(toks, i + 1, route_doc(doc, raw_of(toks[i], token_code_name(toks[i]))))
    }
}

/// Routing the G-group tokens from `i` on into `g`.
pub open spec fn g_from(toks: Seq<TokenV>, i: int, g: GGroupV) -> GGroupV
    decreases toks.len() - i,
{
    if i < 0 || i >= toks.len() {
        g
    } else {
        let cn = token_code_name(toks[i]);
        g_from(toks, i + 1, if cn.group == GroupPrefix::G { route_g_spec(g, raw_of(toks[i], cn)) } else { g })
    }
}

proof fn lemma_structure_strict(
    toks: Seq<TokenV>,
    i: int,
    doc: TmatsDocumentV,
    errs: Seq<ParseErrorV>,
    seen: Seq<Seq<char>>,
)
    requires
        0 <= i <= toks.len(),
        forall|j: int| 0 <= j < toks.len() ==> code_name_spec(#[trigger] toks[j].code) is Some,
        forall|j: int, k: int| 0 <= j < k < toks.len() ==> upper(#[trigger] toks[j].code) != upper(#[trigger] toks[k].code),
        forall|j: int| i <= j < toks.len() ==> !seen.contains(upper(#[trigger] toks[j].code)),
    ensures
        structure_from(toks, i, doc, errs, seen, ParseMode::Strict) == Ok::<(TmatsDocumentV, Seq<ParseErrorV>), ParseErrorV>(
            (route_from(toks, i, doc), errs),
        ),
    decreases toks.len() - i,
{
    if i < toks.len() {
        let t = toks[i];
        let up = upper(t.code);
        let seen2 = seen.push(up);
        assert(code_name_spec(t.code) is Some);
        assert(!seen.contains(up));
        assert forall|j: int| i + 1 <= j < toks.len() implies !seen2.contains(upper(#[trigger] toks[j].code)) by {
            if seen2.contains(upper(toks[j].code)) {
                let k = choose|k: int| 0 <= k < seen2.len() && seen2[k] == upper(toks[j].code);
                if k < seen.len() {
                    assert(seen[k] == seen2[k]);
                    assert(seen.contains(upper(toks[j].code)));
                } else {
                    assert(upper(toks[i].code) != upper(toks[j].code));
                }
            }
        }
        lemma_structure_strict(toks, i + 1, route_doc(doc, raw_of(t, token_code_name(t))), errs, seen2);
    }
}

proof fn lemma_route_general(toks: Seq<TokenV>, i: int, doc: TmatsDocumentV)
    requires
        0 <= i,
    ensures
        route_from(toks, i, doc).general == g_from(toks, i, doc.general),
    decreases toks.len() - i,
{
    if i < toks.len() {
        let cn = token_code_name(toks[i]);
        let d2 = route_doc(doc, raw_of(toks[i], cn));
        lemma_route_general(toks, i + 1, d2);
    }
}

/// Whether a token routes to the G attribute with key `k`.
pub open spec fn routes_to(t: TokenV, k: Seq<char>) -> bool {
    token_code_name(t).group == GroupPrefix::G && first_key_spec(token_code_name(t)) == Some(k)
}

proof fn lemma_g_from_fields(toks: Seq<TokenV>, i: int, g: GGroupV, pn: Option<Seq<char>>, ver: Option<Seq<char>>, tn: Option<Seq<char>>)
    requires
        0 <= i <= toks.len(),
        forall|j: int| i <= j < toks.len() && routes_to(#[trigger] toks[j], "PN"@) ==> pn == Some(toks[j].value),
        forall|j: int| i <= j < toks.len() && routes_to(#[trigger] toks[j], "106"@) ==> ver == Some(toks[j].value),
        forall|j: int| i <= j < toks.len() && routes_to(#[trigger] toks[j], "TN"@) ==> tn == Some(toks[j].value),
    ensures
        g_from(toks, i, g).program_name == (if exists|j: int| i <= j < toks.len() && routes_to(#[trigger] toks[j], "PN"@) {
            pn
        } else {
            g.program_name
        }),
        g_from(toks, i, g).irig106_version == (if exists|j: int| i <= j < toks.len() && routes_to(#[trigger] toks[j], "106"@) {
            ver
        } else {
            g.irig106_version
        }),
        g_from(toks, i, g).test_number == (if exists|j: int| i <= j < toks.len() && routes_to(#[trigger] toks[j], "TN"@) {
            tn
        } else {
            g.test_number
        }),
    decreases toks.len() - i,
{
    if i < toks.len() {
        let t = toks[i];
        let cn = token_code_name(t);
        let g2 = if cn.group == GroupPrefix::G { route_g_spec(g, raw_of(t, cn)) } else { g };
        lemma_g_from_fields(toks, i + 1, g2, pn, ver, tn);
        assert(routes_to(t, "PN"@) ==> g2.program_name == pn);
        assert(routes_to(t, "106"@) ==> g2.irig106_version == ver) by {
            reveal_strlit("PN");
            reveal_strlit("106");
            if routes_to(t, "106"@) {
                assert("106"@ != "PN"@) by {
                    assert("106"@.len() != "PN"@.len());
                }
                assert(first_key_spec(cn) == Some("106"@));
                assert(g2.irig106_version == Some(t.value));
                assert(ver == Some(toks[i].value));
            }
        }
        assert(routes_to(t, "TN"@) ==> g2.test_number == tn) by {
            reveal_strlit("PN");
            reveal_strlit("106");
            reveal_strlit("OD");
            reveal_strlit("RN");
            reveal_strlit("RD");
            reveal_strlit("UN");
            reveal_strlit("UD");
            reveal_strlit("TN");
            if routes_to(t, "TN"@) {
                assert("TN"@ != "PN"@) by {
                    assert("TN"@[0] != "PN"@[0]);
                }
                assert("TN"@ != "106"@) by {
                    assert("TN"@.len() != "106"@.len());
                }
                assert("TN"@ != "OD"@) by {
                    assert("TN"@[0] != "OD"@[0]);
                }
                assert("TN"@ != "RN"@) by {
                    assert("TN"@[0] != "RN"@[0]);
                }
                assert("TN"@ != "RD"@) by {
                    assert("TN"@[0] != "RD"@[0]);
                }
                assert("TN"@ != "UN"@) by {
                    assert("TN"@[0] != "UN"@[0]);
                }
                assert("TN"@ != "UD"@) by {
                    assert("TN"@[0] != "UD"@[0]);
                }
                assert(g2.test_number == Some(t.value));
                assert(tn == Some(toks[i].value));
            }
        }
        assert(!routes_to(t, "PN"@) ==> g2.program_name == g.program_name) by {
            reveal_strlit("PN");
            reveal_strlit("106");
            reveal_strlit("TN");
        }
        assert(!routes_to(t, "106"@) ==> g2.irig106_version == g.irig106_version) by {
            reveal_strlit("PN");
            reveal_strlit("106");
            reveal_strlit("TN");
        }
        assert(!routes_to(t, "TN"@) ==> g2.test_number == g.test_number) by {
            reveal_strlit("PN");
            reveal_strlit("106");
            reveal_strlit("TN");
        }
        lemma_exists_step(toks, i, "PN"@);
        lemma_exists_step(toks, i, "106"@);
        lemma_exists_step(toks, i, "TN"@);
    }
}

proof fn lemma_exists_step(toks: Seq<TokenV>, i: int, k: Seq<char>)
    requires
        0 <= i < toks.len(),
    ensures
        (exists|j: int| i <= j < toks.len() && routes_to(#[trigger] toks[j], k)) == (routes_to(toks[i], k)
            || exists|j: int| i + 1 <= j < toks.len() && routes_to(#[trigger] toks[j], k)),
{
    if exists|j: int| i <= j < toks.len() && routes_to(#[trigger] toks[j], k) {
        let j = choose|j: int| i <= j < toks.len() && routes_to(#[trigger] toks[j], k);
        if j > i {
            assert(i + 1 <= j < toks.len() && routes_to(toks[j], k));
        }
    }
    if routes_to(toks[i], k) {
        assert(i <= i < toks.len() && routes_to(toks[i], k));
    }
    if exists|j: int| i + 1 <= j < toks.len() && routes_to(#[trigger] toks[j], k) {
        let j = choose|j: int| i + 1 <= j < toks.len() && routes_to(#[trigger] toks[j], k);
        assert(i <= j < toks.len() && routes_to(toks[j], k));
    }
}

/// The G code-names of the program name, IRIG 106 version and test number
/// parse as G attributes with those keys.
proof fn lemma_g_scalar_codes()
    ensures
        code_name_spec("G\\PN"@) matches Some(cn) && cn.group == GroupPrefix::G && first_key_spec(cn) == Some("PN"@),
        code_name_spec("G\\106"@) matches Some(cn) && cn.group == GroupPrefix::G && first_key_spec(cn) == Some("106"@),
        code_name_spec("G\\TN"@) matches Some(cn) && cn.group == GroupPrefix::G && first_key_spec(cn) == Some("TN"@),
{
    reveal_strlit("G\\PN");
    reveal_strlit("G\\106");
    reveal_strlit("G\\TN");
    reveal_strlit("PN");
    reveal_strlit("106");
    reveal_strlit("TN");
    assert("G\\PN"@ =~= seq!['G'] + seq!['\\'] + "PN"@);
    assert("G\\106"@ =~= seq!['G'] + seq!['\\'] + "106"@);
    assert("G\\TN"@ =~= seq!['G'] + seq!['\\'] + "TN"@);
    assert(upper("PN"@) =~= "PN"@);
    assert(upper("106"@) =~= "106"@);
    assert(upper("TN"@) =~= "TN"@);
    lemma_g_code("G\\PN"@, "PN"@);
    lemma_g_code("G\\106"@, "106"@);
    lemma_g_code("G\\TN"@, "TN"@);
}

/// `G\K` for a key `K` without `\` or `-` parses as the G attribute with key `K`.
proof fn lemma_g_code(code: Seq<char>, key: Seq<char>)
    requires
        code == seq!['G'] + seq!['\\'] + key,
        key.len() > 0,
        forall|j: int| 0 <= j < key.len() ==> #[trigger] key[j] != '\\' && key[j] != '-',
        upper(key) == key,
    ensures
        code_name_spec(code) matches Some(cn) && cn.group == GroupPrefix::G && first_key_spec(cn) == Some(key),
{
    let g = seq!['G'];
    assert(!g.contains('\\')) by {
        if g.contains('\\') {
            let j = choose|j: int| 0 <= j < g.len() && g[j] == '\\';
            assert(g[0] == 'G');
        }
    }
    assert(!key.contains('\\')) by {
        if key.contains('\\') {
            let j = choose|j: int| 0 <= j < key.len() && key[j] == '\\';
        }
    }
    lemma_split_single(g, '\\');
    lemma_split_append(g, '\\', key);
    let parts = split(code, '\\');
    assert(parts =~= seq![g, key]);
    assert(GroupPrefix::spec_from_char('G') == GroupPrefix::G);
    lemma_no_dash(key);
    let seg = path_segment_spec(key);
    assert(seg.name == key);
    assert(parts.skip(1) =~= seq![key]);
}

proof fn lemma_no_dash(key: Seq<char>)
    requires
        forall|j: int| 0 <= j < key.len() ==> #[trigger] key[j] != '-',
    ensures
        last_index_of(key, '-') == -1,
    decreases key.len(),
{
    if key.len() > 0 {
        assert(key.last() == key[key.len() - 1]);
        assert forall|j: int| 0 <= j < key.drop_last().len() implies #[trigger] key.drop_last()[j] != '-' by {
            assert(key.drop_last()[j] == key[j]);
        }
        lemma_no_dash(key.drop_last());
    }
}

/// The tokens that parsing reads from a serialized document: its attributes,
/// in order, without error; structuring them in strict mode routes each in
/// turn, when the attributes read back, their code-names parse and differ
/// beyond ASCII case.
proof fn lemma_reparse(d: TmatsDocumentV, opts: SerializeOptions) -> (toks: Seq<TokenV>)
    requires
        !opts.canonical_keyword_case,
        ({
            let p = doc_pairs(d, opts.emit_comments);
            &&& p.len() <= 100_000
            &&& forall|i: int| 0 <= i < p.len() ==> pair_reads_back(#[trigger] p[i], 1_048_576)
            &&& forall|i: int| 0 <= i < p.len() ==> code_name_spec(#[trigger] p[i].0) is Some
            &&& forall|i: int, j: int| 0 <= i < j < p.len() ==> upper(#[trigger] p[i].0) != upper(#[trigger] p[j].0)
        }),
    ensures
        toks == tokenize_spec(encode_utf8(serialized_text(d, opts)), 100_000, 1_048_576).0,
        tokenize_spec(encode_utf8(serialized_text(d, opts)), 100_000, 1_048_576).1.len() == 0,
        toks.len() == doc_pairs(d, opts.emit_comments).len(),
        forall|i: int| 0 <= i < toks.len() ==> (#[trigger] toks[i]).code == doc_pairs(d, opts.emit_comments)[i].0
            && toks[i].value == doc_pairs(d, opts.emit_comments)[i].1,
        forall|j: int| 0 <= j < toks.len() ==> code_name_spec(#[trigger] toks[j].code) is Some,
        structure_from(toks, 0, TmatsDocumentV::empty(), Seq::empty(), Seq::empty(), ParseMode::Strict)
            == Ok::<(TmatsDocumentV, Seq<ParseErrorV>), ParseErrorV>((route_from(toks, 0, TmatsDocumentV::empty()), Seq::empty())),
{
    let p = doc_pairs(d, opts.emit_comments);
    let bytes = encode_utf8(serialized_text(d, opts));
    law_serialized_document_tokenizes_to_its_attributes(d, opts);
    let toks = tokenize_spec(bytes, 100_000, 1_048_576).0;
    assert(token_pairs(toks) == p);
    assert(toks.len() == p.len());
    assert forall|i: int| 0 <= i < toks.len() implies (#[trigger] toks[i]).code == p[i].0 && toks[i].value == p[i].1 by {
        assert(token_pairs(toks)[i] == (toks[i].code, toks[i].value));
    }
    assert forall|j: int| 0 <= j < toks.len() implies code_name_spec(#[trigger] toks[j].code) is Some by {
        assert(code_name_spec(p[j].0) is Some);
    }
    assert forall|j: int, k: int| 0 <= j < k < toks.len() implies upper(#[trigger] toks[j].code) != upper(#[trigger] toks[k].code) by {
        assert(upper(p[j].0) != upper(p[k].0));
    }
    lemma_structure_strict(toks, 0, TmatsDocumentV::empty(), Seq::empty(), Seq::empty());
    toks
}

/// Parsing the serialized text of a document gives back its program name,
/// IRIG 106 version and test number, whenever the serialized attributes
/// read back from their text, their code-names parse and differ beyond
/// ASCII case, and every attribute that parsing would route to one of the
/// three carries the document's value for it.
#[verifier::rlimit(40)]
pub proof fn law_parse_reads_back_g_group(d: TmatsDocumentV, opts: SerializeOptions)
    requires
        !opts.canonical_keyword_case,
        ({
            let p = doc_pairs(d, opts.emit_comments);
            &&& p.len() <= 100_000
            &&& forall|i: int| 0 <= i < p.len() ==> pair_reads_back(#[trigger] p[i], 1_048_576)
            &&& forall|i: int| 0 <= i < p.len() ==> code_name_spec(#[trigger] p[i].0) is Some
            &&& forall|i: int, j: int| 0 <= i < j < p.len() ==> upper(#[trigger] p[i].0) != upper(#[trigger] p[j].0)
            &&& forall|i: int| 0 <= i < p.len() && pair_routes_to(#[trigger] p[i], "PN"@) ==> d.general.program_name == Some(p[i].1)
            &&& forall|i: int| 0 <= i < p.len() && pair_routes_to(#[trigger] p[i], "106"@) ==> d.general.irig106_version == Some(p[i].1)
            &&& forall|i: int| 0 <= i < p.len() && pair_routes_to(#[trigger] p[i], "TN"@) ==> d.general.test_number == Some(p[i].1)
        }),
    ensures
        parse_spec(encode_utf8(serialized_text(d, opts)), default_parse_options()) matches Ok(r)
            && r.general.program_name == d.general.program_name
            && r.general.irig106_version == d.general.irig106_version
            && r.general.test_number == d.general.test_number,
{
    let p = doc_pairs(d, opts.emit_comments);
    let toks = lemma_reparse(d, opts);
    let e0 = TmatsDocumentV::empty();
    lemma_route_general(toks, 0, e0);
    let g = d.general;
    assert forall|j: int| 0 <= j < toks.len() && routes_to(#[trigger] toks[j], "PN"@) implies g.program_name == Some(toks[j].value) by {
        assert(pair_routes_to(p[j], "PN"@));
    }
    assert forall|j: int| 0 <= j < toks.len() && routes_to(#[trigger] toks[j], "106"@) implies g.irig106_version == Some(toks[j].value) by {
        assert(pair_routes_to(p[j], "106"@));
    }
    assert forall|j: int| 0 <= j < toks.len() && routes_to(#[trigger] toks[j], "TN"@) implies g.test_number == Some(toks[j].value) by {
        assert(pair_routes_to(p[j], "TN"@));
    }
    lemma_g_from_fields(toks, 0, e0.general, g.program_name, g.irig106_version, g.test_number);
    // Each field the document has is routed by its own attribute.
    lemma_doc_pairs_g_scalars(d, opts.emit_comments);
    lemma_g_scalar_codes();
    if let Some(v) = g.program_name {
        let j = choose|j: int| 0 <= j < p.len() && p[j] == ("G\\PN"@, v);
        assert(routes_to(toks[j], "PN"@));
    }
    if let Some(v) = g.irig106_version {
        let j = choose|j: int| 0 <= j < p.len() && p[j] == ("G\\106"@, v);
        assert(routes_to(toks[j], "106"@));
    }
    if let Some(v) = g.test_number {
        let j = choose|j: int| 0 <= j < p.len() && p[j] == ("G\\TN"@, v);
        assert(routes_to(toks[j], "TN"@));
    }
}

/// Whether an attribute, parsed, routes to the G attribute with key `k`.
pub open spec fn pair_routes_to(p: (Seq<char>, Seq<char>), k: Seq<char>) -> bool {
    code_name_spec(p.0) matches Some(cn) && cn.group == GroupPrefix::G && first_key_spec(cn) == Some(k)
}

// ─── What parsing gives back of recorder channels ───────────────────────────

/// The decimal text of `n` holds digits only and parses back as `n`.
proof fn lemma_dec_parses(n: nat, max: nat)
    requires
        n <= max,
    ensures
        parse_unsigned(dec(n), max) == Some(n),
        forall|j: int| 0 <= j < dec(n).len() ==> #[trigger] dec(n)[j] != '\\' && dec(n)[j] != '-' && dec(n)[j] != ';',
        !dec(n).contains('\\'),
{
    lemma_dec_value(n);
    lemma_dec_len(n);
    let d = dec(n);
    assert(is_digit(d[0]));
    assert forall|j: int| 0 <= j < d.len() implies #[trigger] d[j] != '\\' && d[j] != '-' && d[j] != ';' by {
        assert(is_digit(d[j]));
    }
}

/// The last `-` of `x`, `-`, `y` is the one between them when `y` has none.
proof fn lemma_last_dash(x: Seq<char>, y: Seq<char>)
    requires
        forall|j: int| 0 <= j < y.len() ==> #[trigger] y[j] != '-',
    ensures
        last_index_of(x + seq!['-'] + y, '-') == x.len(),
    decreases y.len(),
{
    let s = x + seq!['-'] + y;
    if y.len() == 0 {
        assert(s.last() == '-');
    } else {
        assert(s.last() == y.last());
        assert(y.last() == y[y.len() - 1]);
        assert forall|j: int| 0 <= j < y.drop_last().len() implies #[trigger] y.drop_last()[j] != '-' by {
            assert(y.drop_last()[j] == y[j]);
        }
        lemma_last_dash(x, y.drop_last());
        assert(s.drop_last() =~= x + seq!['-'] + y.drop_last());
    }
}

/// `R-n\KEY-m`, for a key without `\` or `-`, parses as the attribute `KEY`
/// of channel `m` of recorder `n`.
proof fn lemma_r_code(ri: u32, key: Seq<char>, ci: u32)
    requires
        key.len() > 0,
        forall|j: int| 0 <= j < key.len() ==> #[trigger] key[j] != '\\' && key[j] != '-',
        upper(key) == key,
    ensures
        code_name_spec(("R-"@ + dec(ri as nat)) + seq!['\\'] + key + seq!['-'] + dec(ci as nat)) matches Some(cn)
            && cn.group == GroupPrefix::R && cn.occurrence == Some(ri)
            && first_key_spec(cn) == Some(key) && first_index_spec(cn) == Some(ci),
{
    reveal_strlit("R-");
    lemma_dec_parses(ri as nat, u32::MAX as nat);
    lemma_dec_parses(ci as nat, u32::MAX as nat);
    let a = "R-"@ + dec(ri as nat);
    let b = key + seq!['-'] + dec(ci as nat);
    let code = a + seq!['\\'] + b;
    assert(code =~= ("R-"@ + dec(ri as nat)) + seq!['\\'] + key + seq!['-'] + dec(ci as nat));
    assert(!a.contains('\\')) by {
        if a.contains('\\') {
            let j = choose|j: int| 0 <= j < a.len() && a[j] == '\\';
            if j >= 2 {
                assert(a[j] == dec(ri as nat)[j - 2]);
            }
        }
    }
    assert(!b.contains('\\')) by {
        if b.contains('\\') {
            let j = choose|j: int| 0 <= j < b.len() && b[j] == '\\';
            if j > key.len() {
                assert(b[j] == dec(ci as nat)[j - key.len() - 1]);
            } else if j < key.len() {
                assert(b[j] == key[j]);
            }
        }
    }
    lemma_split_single(a, '\\');
    lemma_split_append(a, '\\', b);
    let parts = split(code, '\\');
    assert(parts =~= seq![a, b]);
    assert(a[0] == 'R' && a[1] == '-');
    assert(a.skip(2) =~= dec(ri as nat));
    assert(GroupPrefix::spec_from_char('R') == GroupPrefix::R);
    lemma_last_dash(key, dec(ci as nat));
    assert(b.skip(key.len() + 1int) =~= dec(ci as nat));
    assert(b.take(key.len() as int) =~= key);
    let seg = path_segment_spec(b);
    assert(seg.name == key && seg.index == Some(ci));
    assert(parts.skip(1) =~= seq![b]);
}

/// The channel `ci` of recorder `ri`, when both are there.
pub open spec fn channel_at(rs: Seq<(u32, RGroupV)>, ri: u32, ci: u32) -> Option<RChannelV> {
    match assoc_get(rs, ri) {
        Some(g) => assoc_get(g.channels, ci),
        None => None,
    }
}

/// The occurrence a code-name routes to: its own, else 1.
pub open spec fn occurrence_of(cn: CodeNameV) -> u32 {
    match cn.occurrence {
        Some(o) => o,
        None => 1u32,
    }
}

/// Whether a parsed code-name is attribute `k` of channel `ci` of recorder `ri`.
pub open spec fn names_channel(cn: CodeNameV, ri: u32, k: Seq<char>, ci: u32) -> bool {
    &&& cn.group == GroupPrefix::R
    &&& occurrence_of(cn) == ri
    &&& first_key_spec(cn) == Some(k)
    &&& first_index_spec(cn) == Some(ci)
}

/// Whether a token routes to attribute `k` of channel `ci` of recorder `ri`.
pub open spec fn routes_to_channel(t: TokenV, ri: u32, k: Seq<char>, ci: u32) -> bool {
    names_channel(token_code_name(t), ri, k, ci)
}

/// Whether an attribute, parsed, routes to attribute `k` of channel `ci` of recorder `ri`.
pub open spec fn pair_routes_to_channel(p: (Seq<char>, Seq<char>), ri: u32, k: Seq<char>, ci: u32) -> bool {
    code_name_spec(p.0) matches Some(cn) && names_channel(cn, ri, k, ci)
}

/// Reading any key after any put, for every put into `m`.
proof fn lemma_get_put_all<W>(m: Seq<(u32, W)>, k2: u32)
    ensures
        forall|k: u32, v: W| #[trigger] assoc_get(assoc_put(m, k, v), k2) == (if k2 == k {
            Some(v)
        } else {
            assoc_get(m, k2)
        }),
{
    assert forall|k: u32, v: W| #[trigger] assoc_get(assoc_put(m, k, v), k2) == (if k2 == k {
        Some(v)
    } else {
        assoc_get(m, k2)
    }) by {
        lemma_get_put(m, k, v, k2);
    }
}

/// One token's effect on the channel number of channel `ci` of recorder `ri`:
/// `R-ri\TK1-ci` sets it, every other token keeps it.
proof fn lemma_step_channel_id(doc: TmatsDocumentV, t: TokenV, ri: u32, ci: u32)
    ensures
        ({
            let d2 = route_doc(doc, raw_of(t, token_code_name(t)));
            &&& routes_to_channel(t, ri, "TK1"@, ci) ==> (channel_at(d2.recorders, ri, ci) matches Some(ch)
                && ch.channel_id == u16_of_text(t.value))
            &&& (!routes_to_channel(t, ri, "TK1"@, ci) && channel_at(doc.recorders, ri, ci) is Some) ==> (
                channel_at(d2.recorders, ri, ci) matches Some(ch2)
                && ch2.channel_id == channel_at(doc.recorders, ri, ci).unwrap().channel_id)
        }),
{
    let cn = token_code_name(t);
    if cn.group == GroupPrefix::R {
        let idx = occurrence_of(cn);
        let rs = doc.recorders;
        let g0 = or_default(rs, idx, RGroup::default_model());
        let g2 = route_r_spec(g0, raw_of(t, cn));
        lemma_get_put(rs, idx, g2, ri);
        lemma_get_put_all(g0.channels, ci);
        reveal_strlit("ID");
        reveal_strlit("RI1");
        reveal_strlit("RMT");
        reveal_strlit("N");
        reveal_strlit("TK1");
        if routes_to_channel(t, ri, "TK1"@, ci) {
            assert("TK1"@ != "ID"@) by {
                assert("TK1"@.len() != "ID"@.len());
            }
            assert("TK1"@ != "RI1"@) by {
                assert("TK1"@[0] != "RI1"@[0]);
            }
            assert("TK1"@ != "RMT"@) by {
                assert("TK1"@[0] != "RMT"@[0]);
            }
            assert("TK1"@ != "N"@) by {
                assert("TK1"@.len() != "N"@.len());
            }
        }
    }
}

/// One token's effect on the data type of channel `ci` of recorder `ri`:
/// `R-ri\CDT-ci` sets it, every other token keeps it.
proof fn lemma_step_data_type(doc: TmatsDocumentV, t: TokenV, ri: u32, ci: u32)
    ensures
        ({
            let d2 = route_doc(doc, raw_of(t, token_code_name(t)));
            &&& routes_to_channel(t, ri, "CDT"@, ci) ==> (channel_at(d2.recorders, ri, ci) matches Some(ch)
                && ch.data_type == Some(t.value))
            &&& (!routes_to_channel(t, ri, "CDT"@, ci) && channel_at(doc.recorders, ri, ci) is Some) ==> (
                channel_at(d2.recorders, ri, ci) matches Some(ch2)
                && ch2.data_type == channel_at(doc.recorders, ri, ci).unwrap().data_type)
        }),
{
    let cn = token_code_name(t);
    if cn.group == GroupPrefix::R {
        let idx = occurrence_of(cn);
        let rs = doc.recorders;
        let g0 = or_default(rs, idx, RGroup::default_model());
        let g2 = route_r_spec(g0, raw_of(t, cn));
        lemma_get_put(rs, idx, g2, ri);
        lemma_get_put_all(g0.channels, ci);
        reveal_strlit("ID");
        reveal_strlit("RI1");
        reveal_strlit("RMT");
        reveal_strlit("N");
        reveal_strlit("TK1");
        reveal_strlit("CDT");
        if routes_to_channel(t, ri, "CDT"@, ci) {
            assert("CDT"@ != "ID"@) by {
                assert("CDT"@.len() != "ID"@.len());
            }
            assert("CDT"@ != "RI1"@) by {
                assert("CDT"@[0] != "RI1"@[0]);
            }
            assert("CDT"@ != "RMT"@) by {
                assert("CDT"@[0] != "RMT"@[0]);
            }
            assert("CDT"@ != "N"@) by {
                assert("CDT"@.len() != "N"@.len());
            }
            assert("CDT"@ != "TK1"@) by {
                assert("CDT"@[0] != "TK1"@[0]);
            }
        }
    }
}

/// After the tokens from `i` on, channel `ci` of recorder `ri` is there with
/// channel number `cid`, when some of them set it and all that do set `cid`,
/// or when it was already so.
proof fn lemma_channel_id_from(toks: Seq<TokenV>, i: int, doc: TmatsDocumentV, ri: u32, ci: u32, cid: Option<u16>)
    requires
        0 <= i <= toks.len(),
        forall|j: int| i <= j < toks.len() && routes_to_channel(#[trigger] toks[j], ri, "TK1"@, ci) ==> u16_of_text(toks[j].value) == cid,
        (exists|j: int| i <= j < toks.len() && routes_to_channel(#[trigger] toks[j], ri, "TK1"@, ci))
            || (channel_at(doc.recorders, ri, ci) matches Some(ch) && ch.channel_id == cid),
    ensures
        channel_at(route_from(toks, i, doc).recorders, ri, ci) matches Some(ch) && ch.channel_id == cid,
    decreases toks.len() - i,
{
    if i < toks.len() {
        let t = toks[i];
        let d2 = route_doc(doc, raw_of(t, token_code_name(t)));
        lemma_step_channel_id(doc, t, ri, ci);
        if !routes_to_channel(t, ri, "TK1"@, ci) && !(channel_at(doc.recorders, ri, ci) matches Some(ch) && ch.channel_id == cid) {
            let j = choose|j: int| i <= j < toks.len() && routes_to_channel(#[trigger] toks[j], ri, "TK1"@, ci);
            assert(j != i);
            assert(i + 1 <= j < toks.len() && routes_to_channel(toks[j], ri, "TK1"@, ci));
        }
        lemma_channel_id_from(toks, i + 1, d2, ri, ci, cid);
    }
}

/// After the tokens from `i` on, channel `ci` of recorder `ri` is there with
/// data type `dt`, when some of them set it and all that do set `dt`, or when
/// it was already so.
proof fn lemma_data_type_from(toks: Seq<TokenV>, i: int, doc: TmatsDocumentV, ri: u32, ci: u32, dt: Option<Seq<char>>)
    requires
        0 <= i <= toks.len(),
        forall|j: int| i <= j < toks.len() && routes_to_channel(#[trigger] toks[j], ri, "CDT"@, ci) ==> Some(toks[j].value) == dt,
        (exists|j: int| i <= j < toks.len() && routes_to_channel(#[trigger] toks[j], ri, "CDT"@, ci))
            || (channel_at(doc.recorders, ri, ci) matches Some(ch) && ch.data_type == dt),
    ensures
        channel_at(route_from(toks, i, doc).recorders, ri, ci) matches Some(ch) && ch.data_type == dt,
    decreases toks.len() - i,
{
    if i < toks.len() {
        let t = toks[i];
        let d2 = route_doc(doc, raw_of(t, token_code_name(t)));
        lemma_step_data_type(doc, t, ri, ci);
        if !routes_to_channel(t, ri, "CDT"@, ci) && !(channel_at(doc.recorders, ri, ci) matches Some(ch) && ch.data_type == dt) {
            let j = choose|j: int| i <= j < toks.len() && routes_to_channel(#[trigger] toks[j], ri, "CDT"@, ci);
            assert(j != i);
            assert(i + 1 <= j < toks.len() && routes_to_channel(toks[j], ri, "CDT"@, ci));
        }
        lemma_data_type_from(toks, i + 1, d2, ri, ci, dt);
    }
}

/// The decimal text of a channel number reads back as that number.
proof fn lemma_u16_dec(n: u16)
    ensures
        u16_of_text(dec(n as nat)) == Some(n),
{
    lemma_dec_parses(n as nat, 65535);
    lemma_dec_trimmed(n as nat);
}

/// The serialized attribute `R-ri\KEY-ci`, for a channel attribute `KEY`,
/// parses as attribute `KEY` of channel `ci` of recorder `ri`.
proof fn lemma_channel_code(ri: u32, ci: u32, lit: Seq<char>, key: Seq<char>)
    requires
        lit == seq!['\\'] + key + seq!['-'],
        key.len() > 0,
        forall|j: int| 0 <= j < key.len() ==> #[trigger] key[j] != '\\' && key[j] != '-',
        upper(key) == key,
    ensures
        code_name_spec(("R-"@ + dec(ri as nat)) + lit + dec(ci as nat)) matches Some(cn) && names_channel(cn, ri, key, ci),
{
    lemma_r_code(ri, key, ci);
    assert(("R-"@ + dec(ri as nat)) + lit + dec(ci as nat) =~= ("R-"@ + dec(ri as nat)) + seq!['\\'] + key + seq!['-'] + dec(ci as nat));
}

/// Parsing the serialized text of a document gives back the channel number
/// and data type of every recorder channel that has them, whenever the
/// serialized attributes read back from their text, their code-names parse
/// and differ beyond ASCII case, and every attribute that parsing would
/// route to a channel's `TK1` or `CDT` is that channel's own.
#[verifier::rlimit(60)]
pub proof fn law_parse_reads_back_channels(d: TmatsDocumentV, opts: SerializeOptions)
    requires
        !opts.canonical_keyword_case,
        ({
            let p = doc_pairs(d, opts.emit_comments);
            &&& p.len() <= 100_000
            &&& forall|i: int| 0 <= i < p.len() ==> pair_reads_back(#[trigger] p[i], 1_048_576)
            &&& forall|i: int| 0 <= i < p.len() ==> code_name_spec(#[trigger] p[i].0) is Some
            &&& forall|i: int, j: int| 0 <= i < j < p.len() ==> upper(#[trigger] p[i].0) != upper(#[trigger] p[j].0)
            &&& forall|i: int, ri: u32, ci: u32| 0 <= i < p.len() && #[trigger] pair_routes_to_channel(p[i], ri, "TK1"@, ci)
                ==> (channel_at(d.recorders, ri, ci) matches Some(ch) && ch.channel_id matches Some(n) && p[i].1 == dec(n as nat))
            &&& forall|i: int, ri: u32, ci: u32| 0 <= i < p.len() && #[trigger] pair_routes_to_channel(p[i], ri, "CDT"@, ci)
                ==> (channel_at(d.recorders, ri, ci) matches Some(ch) && ch.data_type == Some(p[i].1))
        }),
    ensures
        parse_spec(encode_utf8(serialized_text(d, opts)), default_parse_options()) matches Ok(r)
            && forall|ri: u32, ci: u32| #[trigger] channel_at(d.recorders, ri, ci) is Some ==> ({
                let ch = channel_at(d.recorders, ri, ci).unwrap();
                &&& ch.channel_id is Some ==> (channel_at(r.recorders, ri, ci) matches Some(rc) && rc.channel_id == ch.channel_id)
                &&& ch.data_type is Some ==> (channel_at(r.recorders, ri, ci) matches Some(rc) && rc.data_type == ch.data_type)
            }),
{
    let p = doc_pairs(d, opts.emit_comments);
    let toks = lemma_reparse(d, opts);
    let e0 = TmatsDocumentV::empty();
    let routed = route_from(toks, 0, e0);
    lemma_doc_pairs_channels(d, opts.emit_comments);
    reveal_strlit("\\TK1-");
    reveal_strlit("\\CDT-");
    reveal_strlit("TK1");
    reveal_strlit("CDT");
    assert(upper("TK1"@) =~= "TK1"@);
    assert(upper("CDT"@) =~= "CDT"@);
    assert("\\TK1-"@ =~= seq!['\\'] + "TK1"@ + seq!['-']);
    assert("\\CDT-"@ =~= seq!['\\'] + "CDT"@ + seq!['-']);
    assert forall|ri: u32, ci: u32| #[trigger] channel_at(d.recorders, ri, ci) is Some implies ({
        let ch = channel_at(d.recorders, ri, ci).unwrap();
        &&& ch.channel_id is Some ==> (channel_at(routed.recorders, ri, ci) matches Some(rc) && rc.channel_id == ch.channel_id)
        &&& ch.data_type is Some ==> (channel_at(routed.recorders, ri, ci) matches Some(rc) && rc.data_type == ch.data_type)
    }) by {
        let ch = channel_at(d.recorders, ri, ci).unwrap();
        let rs = d.recorders;
        lemma_assoc_find(rs, ri);
        let i = assoc_find(rs, ri);
        let g = rs[i].1;
        lemma_assoc_find(g.channels, ci);
        let j = assoc_find(g.channels, ci);
        assert(g.channels[j] == (ci, ch));
        assert(channel_in(p, "R-"@ + dec(rs[i].0 as nat), rs[i].1.channels[j].0, rs[i].1.channels[j].1));
        if let Some(n) = ch.channel_id {
            let code = ("R-"@ + dec(ri as nat)) + "\\TK1-"@ + dec(ci as nat);
            lemma_channel_code(ri, ci, "\\TK1-"@, "TK1"@);
            let k = choose|k: int| 0 <= k < p.len() && p[k] == (code, dec(n as nat));
            assert(routes_to_channel(toks[k], ri, "TK1"@, ci));
            lemma_u16_dec(n);
            assert forall|m: int| 0 <= m < toks.len() && routes_to_channel(#[trigger] toks[m], ri, "TK1"@, ci)
                implies u16_of_text(toks[m].value) == Some(n) by {
                assert(pair_routes_to_channel(p[m], ri, "TK1"@, ci));
            }
            lemma_channel_id_from(toks, 0, e0, ri, ci, Some(n));
        }
        if let Some(v) = ch.data_type {
            let code = ("R-"@ + dec(ri as nat)) + "\\CDT-"@ + dec(ci as nat);
            lemma_channel_code(ri, ci, "\\CDT-"@, "CDT"@);
            let k = choose|k: int| 0 <= k < p.len() && p[k] == (code, v);
            assert(routes_to_channel(toks[k], ri, "CDT"@, ci));
            assert forall|m: int| 0 <= m < toks.len() && routes_to_channel(#[trigger] toks[m], ri, "CDT"@, ci)
                implies Some(toks[m].value) == Some(v) by {
                assert(pair_routes_to_channel(p[m], ri, "CDT"@, ci));
            }
            lemma_data_type_from(toks, 0, e0, ri, ci, Some(v));
        }
    }
}

// ─── What parsing gives back of the counters ────────────────────────────────

/// Whether a token routes to the attribute with key `k` of recorder `ri`.
pub open spec fn routes_to_recorder(t: TokenV, ri: u32, k: Seq<char>) -> bool {
    let cn = token_code_name(t);
    cn.group == GroupPrefix::R && occurrence_of(cn) == ri && first_key_spec(cn) == Some(k)
}

/// Whether an attribute, parsed, routes to the attribute with key `k` of recorder `ri`.
pub open spec fn pair_routes_to_recorder(p: (Seq<char>, Seq<char>), ri: u32, k: Seq<char>) -> bool {
    code_name_spec(p.0) matches Some(cn) && cn.group == GroupPrefix::R && occurrence_of(cn) == ri
        && first_key_spec(cn) == Some(k)
}

/// One token's effect on the channel counter of recorder `ri`: `R-ri\N`
/// sets it, every other token keeps it.
proof fn lemma_step_num_channels(doc: TmatsDocumentV, t: TokenV, ri: u32)
    ensures
        ({
            let d2 = route_doc(doc, raw_of(t, token_code_name(t)));
            &&& routes_to_recorder(t, ri, "N"@) ==> (assoc_get(d2.recorders, ri) matches Some(g)
                && g.num_channels == u32_of_text(t.value))
            &&& (!routes_to_recorder(t, ri, "N"@) && assoc_get(doc.recorders, ri) is Some) ==> (
                assoc_get(d2.recorders, ri) matches Some(g2)
                && g2.num_channels == assoc_get(doc.recorders, ri).unwrap().num_channels)
            &&& (!routes_to_recorder(t, ri, "N"@) && assoc_get(doc.recorders, ri) is None) ==> (
                assoc_get(d2.recorders, ri) matches Some(g2) ==> g2.num_channels is None)
        }),
{
    let cn = token_code_name(t);
    if cn.group == GroupPrefix::R {
        let idx = occurrence_of(cn);
        let rs = doc.recorders;
        let g0 = or_default(rs, idx, RGroup::default_model());
        let g2 = route_r_spec(g0, raw_of(t, cn));
        lemma_get_put(rs, idx, g2, ri);
        reveal_strlit("ID");
        reveal_strlit("RI1");
        reveal_strlit("RMT");
        reveal_strlit("N");
        if routes_to_recorder(t, ri, "N"@) {
            assert("N"@ != "ID"@) by {
                assert("N"@.len() != "ID"@.len());
            }
            assert("N"@ != "RI1"@) by {
                assert("N"@.len() != "RI1"@.len());
            }
            assert("N"@ != "RMT"@) by {
                assert("N"@.len() != "RMT"@.len());
            }
        }
    }
}

/// After the tokens from `i` on, recorder `ri` is there with channel counter
/// `n`, when some of them set it and all that do set `n`, or when it was
/// already so.
proof fn lemma_num_channels_from(toks: Seq<TokenV>, i: int, doc: TmatsDocumentV, ri: u32, n: Option<u32>)
    requires
        0 <= i <= toks.len(),
        forall|j: int| i <= j < toks.len() && routes_to_recorder(#[trigger] toks[j], ri, "N"@) ==> u32_of_text(toks[j].value) == n,
        (exists|j: int| i <= j < toks.len() && routes_to_recorder(#[trigger] toks[j], ri, "N"@))
            || (assoc_get(doc.recorders, ri) matches Some(g) && g.num_channels == n),
    ensures
        assoc_get(route_from(toks, i, doc).recorders, ri) matches Some(g) && g.num_channels == n,
    decreases toks.len() - i,
{
    if i < toks.len() {
        let t = toks[i];
        let d2 = route_doc(doc, raw_of(t, token_code_name(t)));
        lemma_step_num_channels(doc, t, ri);
        if !routes_to_recorder(t, ri, "N"@) && !(assoc_get(doc.recorders, ri) matches Some(g) && g.num_channels == n) {
            let j = choose|j: int| i <= j < toks.len() && routes_to_recorder(#[trigger] toks[j], ri, "N"@);
            assert(j != i);
            assert(i + 1 <= j < toks.len() && routes_to_recorder(toks[j], ri, "N"@));
        }
        lemma_num_channels_from(toks, i + 1, d2, ri, n);
    }
}

/// `R-n\K`, for a key without `\` or `-`, parses as the attribute `K` of recorder `n`.
proof fn lemma_r_key_code(ri: u32, key: Seq<char>)
    requires
        key.len() > 0,
        forall|j: int| 0 <= j < key.len() ==> #[trigger] key[j] != '\\' && key[j] != '-',
        upper(key) == key,
    ensures
        code_name_spec(("R-"@ + dec(ri as nat)) + seq!['\\'] + key) matches Some(cn)
            && cn.group == GroupPrefix::R && occurrence_of(cn) == ri && first_key_spec(cn) == Some(key),
{
    reveal_strlit("R-");
    lemma_dec_parses(ri as nat, u32::MAX as nat);
    let a = "R-"@ + dec(ri as nat);
    let code = a + seq!['\\'] + key;
    assert(!a.contains('\\')) by {
        if a.contains('\\') {
            let j = choose|j: int| 0 <= j < a.len() && a[j] == '\\';
            if j >= 2 {
                assert(a[j] == dec(ri as nat)[j - 2]);
            }
        }
    }
    assert(!key.contains('\\')) by {
        if key.contains('\\') {
            let j = choose|j: int| 0 <= j < key.len() && key[j] == '\\';
        }
    }
    lemma_split_single(a, '\\');
    lemma_split_append(a, '\\', key);
    let parts = split(code, '\\');
    assert(parts =~= seq![a, key]);
    assert(a[0] == 'R' && a[1] == '-');
    assert(a.skip(2) =~= dec(ri as nat));
    assert(GroupPrefix::spec_from_char('R') == GroupPrefix::R);
    lemma_no_dash(key);
    let seg = path_segment_spec(key);
    assert(seg.name == key);
    assert(parts.skip(1) =~= seq![key]);
}

/// Whether a token routes to the G counter with key `k`, such as `G\DSI\N`.
pub open spec fn routes_to_g_counter(t: TokenV, k: Seq<char>) -> bool {
    let cn = token_code_name(t);
    cn.group == GroupPrefix::G && first_key_spec(cn) == Some(k) && is_counter_spec(cn)
}

/// Whether an attribute, parsed, routes to the G counter with key `k`.
pub open spec fn pair_routes_to_g_counter(p: (Seq<char>, Seq<char>), k: Seq<char>) -> bool {
    code_name_spec(p.0) matches Some(cn) && cn.group == GroupPrefix::G && first_key_spec(cn) == Some(k)
        && is_counter_spec(cn)
}

/// After the G tokens from `i` on, the data source counter is `n`, when
/// some of them set it and all that do set `n`, or when it was already so.
proof fn lemma_num_data_sources_from(toks: Seq<TokenV>, i: int, g: GGroupV, n: Option<u32>)
    requires
        0 <= i <= toks.len(),
        forall|j: int| i <= j < toks.len() && routes_to_g_counter(#[trigger] toks[j], "DSI"@) ==> u32_of_text(toks[j].value) == n,
        (exists|j: int| i <= j < toks.len() && routes_to_g_counter(#[trigger] toks[j], "DSI"@)) || g.num_data_sources == n,
    ensures
        g_from(toks, i, g).num_data_sources == n,
    decreases toks.len() - i,
{
    if i < toks.len() {
        let t = toks[i];
        let cn = token_code_name(t);
        let g2 = if cn.group == GroupPrefix::G { route_g_spec(g, raw_of(t, cn)) } else { g };
        reveal_strlit("PN");
        reveal_strlit("106");
        reveal_strlit("OD");
        reveal_strlit("RN");
        reveal_strlit("RD");
        reveal_strlit("UN");
        reveal_strlit("UD");
        reveal_strlit("TN");
        reveal_strlit("DSI");
        if routes_to_g_counter(t, "DSI"@) {
            assert("DSI"@ != "PN"@) by {
                assert("DSI"@.len() != "PN"@.len());
            }
            assert("DSI"@ != "106"@) by {
                assert("DSI"@[0] != "106"@[0]);
            }
            assert("DSI"@ != "OD"@) by {
                assert("DSI"@.len() != "OD"@.len());
            }
            assert("DSI"@ != "RN"@) by {
                assert("DSI"@.len() != "RN"@.len());
            }
            assert("DSI"@ != "RD"@) by {
                assert("DSI"@.len() != "RD"@.len());
            }
            assert("DSI"@ != "UN"@) by {
                assert("DSI"@.len() != "UN"@.len());
            }
            assert("DSI"@ != "UD"@) by {
                assert("DSI"@.len() != "UD"@.len());
            }
            assert("DSI"@ != "TN"@) by {
                assert("DSI"@.len() != "TN"@.len());
            }
            assert(g2.num_data_sources == u32_of_text(t.value));
        } else {
            assert(g2.num_data_sources == g.num_data_sources);
            if g.num_data_sources != n {
                let j = choose|j: int| i <= j < toks.len() && routes_to_g_counter(#[trigger] toks[j], "DSI"@);
                assert(j != i);
                assert(i + 1 <= j < toks.len() && routes_to_g_counter(toks[j], "DSI"@));
            }
        }
        lemma_num_data_sources_from(toks, i + 1, g2, n);
    }
}

/// `G\DSI\N` parses as the data source counter.
proof fn lemma_dsi_counter_code()
    ensures
        code_name_spec("G\\DSI\\N"@) matches Some(cn) && cn.group == GroupPrefix::G && first_key_spec(cn) == Some("DSI"@)
            && is_counter_spec(cn),
{
    reveal_strlit("G\\DSI\\N");
    reveal_strlit("DSI");
    reveal_strlit("N");
    let g = seq!['G'];
    let k1 = "DSI"@;
    let k2 = "N"@;
    assert("G\\DSI\\N"@ =~= g + seq!['\\'] + k1 + seq!['\\'] + k2);
    assert(!g.contains('\\')) by {
        if g.contains('\\') {
            let j = choose|j: int| 0 <= j < g.len() && g[j] == '\\';
            assert(g[0] == 'G');
        }
    }
    assert(!k1.contains('\\')) by {
        if k1.contains('\\') {
            let j = choose|j: int| 0 <= j < k1.len() && k1[j] == '\\';
        }
    }
    assert(!k2.contains('\\')) by {
        if k2.contains('\\') {
            let j = choose|j: int| 0 <= j < k2.len() && k2[j] == '\\';
        }
    }
    lemma_split_single(g, '\\');
    lemma_split_append(g, '\\', k1);
    lemma_split_append(g + seq!['\\'] + k1, '\\', k2);
    let parts = split("G\\DSI\\N"@, '\\');
    assert(parts =~= seq![g, k1, k2]);
    assert(GroupPrefix::spec_from_char('G') == GroupPrefix::G);
    lemma_no_dash(k1);
    lemma_no_dash(k2);
    assert(parts.skip(1) =~= seq![k1, k2]);
    assert(upper(k1) =~= k1);
    assert(upper(k2) =~= k2);
}

/// Parsing the serialized text of a document gives back its counters as the
/// numbers of entries they count: `G\DSI\N` the data sources and each
/// `R-x\N` the recorder's channels, whenever the serialized attributes read
/// back from their text, their code-names parse and differ beyond ASCII case,
/// the counts fit in `u32`, and every attribute that parsing would route to
/// one of these counters is the counter itself.
#[verifier::rlimit(60)]
pub proof fn law_parse_reads_back_counters(d: TmatsDocumentV, opts: SerializeOptions)
    requires
        !opts.canonical_keyword_case,
        ({
            let p = doc_pairs(d, opts.emit_comments);
            &&& p.len() <= 100_000
            &&& forall|i: int| 0 <= i < p.len() ==> pair_reads_back(#[trigger] p[i], 1_048_576)
            &&& forall|i: int| 0 <= i < p.len() ==> code_name_spec(#[trigger] p[i].0) is Some
            &&& forall|i: int, j: int| 0 <= i < j < p.len() ==> upper(#[trigger] p[i].0) != upper(#[trigger] p[j].0)
            &&& forall|i: int| 0 <= i < p.len() && #[trigger] pair_routes_to_g_counter(p[i], "DSI"@)
                ==> p[i].1 == dec(d.general.data_sources.len())
            &&& forall|i: int, ri: u32| 0 <= i < p.len() && #[trigger] pair_routes_to_recorder(p[i], ri, "N"@)
                ==> (assoc_get(d.recorders, ri) matches Some(g) && p[i].1 == dec(g.channels.len()))
        }),
        d.general.data_sources.len() <= u32::MAX,
        forall|i: int| 0 <= i < d.recorders.len() ==> (#[trigger] d.recorders[i]).1.channels.len() <= u32::MAX,
    ensures
        parse_spec(encode_utf8(serialized_text(d, opts)), default_parse_options()) matches Ok(r)
            && (d.general.data_sources.len() > 0 ==> r.general.num_data_sources == Some(d.general.data_sources.len() as u32))
            && forall|ri: u32| #[trigger] assoc_get(d.recorders, ri) is Some
                && assoc_get(d.recorders, ri).unwrap().channels.len() > 0 ==> (assoc_get(r.recorders, ri) matches Some(rg)
                && rg.num_channels == Some(assoc_get(d.recorders, ri).unwrap().channels.len() as u32)),
{
    let p = doc_pairs(d, opts.emit_comments);
    let toks = lemma_reparse(d, opts);
    let e0 = TmatsDocumentV::empty();
    lemma_route_general(toks, 0, e0);
    let routed = route_from(toks, 0, e0);
    crate::serial::law_serialized_counters_are_counts(d, opts.emit_comments);
    let nd = d.general.data_sources.len();
    if nd > 0 {
        lemma_dsi_counter_code();
        let k = choose|k: int| 0 <= k < p.len() && p[k] == ("G\\DSI\\N"@, dec(nd));
        assert(routes_to_g_counter(toks[k], "DSI"@));
        lemma_dec_parses(nd, u32::MAX as nat);
        lemma_dec_trimmed(nd);
        assert forall|m: int| 0 <= m < toks.len() && routes_to_g_counter(#[trigger] toks[m], "DSI"@)
            implies u32_of_text(toks[m].value) == Some(nd as u32) by {
            assert(pair_routes_to_g_counter(p[m], "DSI"@));
        }
        lemma_num_data_sources_from(toks, 0, e0.general, Some(nd as u32));
    }
    reveal_strlit("\\N");
    reveal_strlit("N");
    assert(upper("N"@) =~= "N"@);
    assert("\\N"@ =~= seq!['\\'] + "N"@);
    assert forall|ri: u32| #[trigger] assoc_get(d.recorders, ri) is Some
        && assoc_get(d.recorders, ri).unwrap().channels.len() > 0 implies (assoc_get(routed.recorders, ri) matches Some(rg)
        && rg.num_channels == Some(assoc_get(d.recorders, ri).unwrap().channels.len() as u32)) by {
        let g = assoc_get(d.recorders, ri).unwrap();
        let nc = g.channels.len();
        lemma_assoc_find(d.recorders, ri);
        let i = assoc_find(d.recorders, ri);
        assert(d.recorders[i] == (ri, g));
        lemma_r_key_code(ri, "N"@);
        let code = "R-"@ + dec(ri as nat) + "\\N"@;
        assert(code =~= ("R-"@ + dec(ri as nat)) + seq!['\\'] + "N"@);
        let k = choose|k: int| 0 <= k < p.len() && p[k] == (code, dec(nc));
        assert(routes_to_recorder(toks[k], ri, "N"@));
        lemma_dec_parses(nc, u32::MAX as nat);
        lemma_dec_trimmed(nc);
        assert forall|m: int| 0 <= m < toks.len() && routes_to_recorder(#[trigger] toks[m], ri, "N"@)
            implies u32_of_text(toks[m].value) == Some(nc as u32) by {
            assert(pair_routes_to_recorder(p[m], ri, "N"@));
        }
        lemma_num_channels_from(toks, 0, e0, ri, Some(nc as u32));
    }
}

/// The decimal text of a number is its own trimmed text.
proof fn lemma_dec_trimmed(n: nat)
    ensures
        trim(dec(n)) == dec(n),
{
    lemma_dec_len(n);
    lemma_dec_value(n);
    let s = dec(n);
    assert(is_digit(s[0]) && is_digit(s.last()));
    assert(trim_start(s) == s);
    assert(trim_end(s) == s);
}

// ─── What parsing gives back of the number of recorders ─────────────────────

/// The recorder a token routes to, if it is an R attribute.
pub open spec fn token_recorder(t: TokenV) -> Option<u32> {
    let cn = token_code_name(t);
    if cn.group == GroupPrefix::R {
        Some(occurrence_of(cn))
    } else {
        None
    }
}

/// The recorders after the tokens from `i` on: those there before and those
/// the tokens name, each once.
proof fn lemma_recorder_keys_from(toks: Seq<TokenV>, i: int, doc: TmatsDocumentV)
    requires
        0 <= i <= toks.len(),
    ensures
        forall|x: u32| #[trigger] has_key(route_from(toks, i, doc).recorders, x) == (has_key(doc.recorders, x)
            || exists|j: int| i <= j < toks.len() && token_recorder(#[trigger] toks[j]) == Some(x)),
        assoc_keys(doc.recorders).no_duplicates() ==> assoc_keys(route_from(toks, i, doc).recorders).no_duplicates(),
    decreases toks.len() - i,
{
    if i < toks.len() {
        let t = toks[i];
        let cn = token_code_name(t);
        let d2 = route_doc(doc, raw_of(t, cn));
        if cn.group == GroupPrefix::R {
            let idx = occurrence_of(cn);
            let rs = doc.recorders;
            lemma_put_keys(rs, idx, route_r_spec(or_default(rs, idx, RGroup::default_model()), raw_of(t, cn)));
        }
        assert forall|x: u32| #[trigger] has_key(d2.recorders, x) == (has_key(doc.recorders, x) || token_recorder(t) == Some(x)) by {}
        lemma_recorder_keys_from(toks, i + 1, d2);
        let fin = route_from(toks, i, doc);
        assert forall|x: u32| #[trigger] has_key(fin.recorders, x) == (has_key(doc.recorders, x)
            || exists|j: int| i <= j < toks.len() && token_recorder(#[trigger] toks[j]) == Some(x)) by {
            if exists|j: int| i <= j < toks.len() && token_recorder(#[trigger] toks[j]) == Some(x) {
                let j = choose|j: int| i <= j < toks.len() && token_recorder(#[trigger] toks[j]) == Some(x);
                if j > i {
                    assert(i + 1 <= j < toks.len() && token_recorder(toks[j]) == Some(x));
                }
            }
            if exists|j: int| i + 1 <= j < toks.len() && token_recorder(#[trigger] toks[j]) == Some(x) {
                let j = choose|j: int| i + 1 <= j < toks.len() && token_recorder(#[trigger] toks[j]) == Some(x);
                assert(i <= j < toks.len() && token_recorder(toks[j]) == Some(x));
            }
            if token_recorder(t) == Some(x) {
                assert(i <= i < toks.len() && token_recorder(toks[i]) == Some(x));
            }
        }
    }
}

/// Whether a recorder writes one of its head attributes: an identification,
/// a description, a media type, or a channel counter.
pub open spec fn recorder_written(g: RGroupV) -> bool {
    g.recorder_id is Some || g.recorder_description is Some || g.media_type is Some || g.channels.len() > 0
}

/// A written head attribute of recorder `ri` parses as an attribute of recorder `ri`.
proof fn lemma_head_code(ri: u32, lit: Seq<char>, key: Seq<char>)
    requires
        lit == seq!['\\'] + key,
        key.len() > 0,
        forall|j: int| 0 <= j < key.len() ==> #[trigger] key[j] != '\\' && key[j] != '-',
        upper(key) == key,
    ensures
        code_name_spec(("R-"@ + dec(ri as nat)) + lit) matches Some(cn) && cn.group == GroupPrefix::R
            && occurrence_of(cn) == ri,
{
    lemma_r_key_code(ri, key);
    assert(("R-"@ + dec(ri as nat)) + lit =~= ("R-"@ + dec(ri as nat)) + seq!['\\'] + key);
}

/// Parsing the serialized text of a document gives back as many recorders
/// as it has, whenever its recorders are distinct and each writes a head
/// attribute, the serialized attributes read back from their text, their
/// code-names parse and differ beyond ASCII case, and every attribute that
/// parses into the R group names one of the document's recorders.
#[verifier::rlimit(60)]
pub proof fn law_parse_keeps_recorder_count(d: TmatsDocumentV, opts: SerializeOptions)
    requires
        !opts.canonical_keyword_case,
        ({
            let p = doc_pairs(d, opts.emit_comments);
            &&& p.len() <= 100_000
            &&& forall|i: int| 0 <= i < p.len() ==> pair_reads_back(#[trigger] p[i], 1_048_576)
            &&& forall|i: int| 0 <= i < p.len() ==> code_name_spec(#[trigger] p[i].0) is Some
            &&& forall|i: int, j: int| 0 <= i < j < p.len() ==> upper(#[trigger] p[i].0) != upper(#[trigger] p[j].0)
            &&& forall|i: int| 0 <= i < p.len() && (#[trigger] code_name_spec(p[i].0)).unwrap().group == GroupPrefix::R
                ==> has_key(d.recorders, occurrence_of(code_name_spec(p[i].0).unwrap()))
        }),
        assoc_keys(d.recorders).no_duplicates(),
        forall|i: int| 0 <= i < d.recorders.len() ==> recorder_written(#[trigger] d.recorders[i].1),
    ensures
        parse_spec(encode_utf8(serialized_text(d, opts)), default_parse_options()) matches Ok(r)
            && r.recorders.len() == d.recorders.len(),
{
    let p = doc_pairs(d, opts.emit_comments);
    let toks = lemma_reparse(d, opts);
    let e0 = TmatsDocumentV::empty();
    let routed = route_from(toks, 0, e0);
    lemma_recorder_keys_from(toks, 0, e0);
    assert(assoc_keys(e0.recorders) =~= Seq::<u32>::empty());
    lemma_doc_pairs_recorders(d, opts.emit_comments);
    reveal_strlit("\\ID");
    reveal_strlit("\\RI1");
    reveal_strlit("\\RMT");
    reveal_strlit("\\N");
    reveal_strlit("ID");
    reveal_strlit("RI1");
    reveal_strlit("RMT");
    reveal_strlit("N");
    assert(upper("ID"@) =~= "ID"@);
    assert(upper("RI1"@) =~= "RI1"@);
    assert(upper("RMT"@) =~= "RMT"@);
    assert(upper("N"@) =~= "N"@);
    assert("\\ID"@ =~= seq!['\\'] + "ID"@);
    assert("\\RI1"@ =~= seq!['\\'] + "RI1"@);
    assert("\\RMT"@ =~= seq!['\\'] + "RMT"@);
    assert("\\N"@ =~= seq!['\\'] + "N"@);
    assert forall|x: u32| has_key(routed.recorders, x) == has_key(d.recorders, x) by {
        assert(!has_key(e0.recorders, x));
        if has_key(d.recorders, x) {
            lemma_assoc_find(d.recorders, x);
            let i = assoc_find(d.recorders, x);
            let g = d.recorders[i].1;
            assert(recorder_in(p, d.recorders[i].0, g));
            assert(recorder_written(g));
            let pfx = "R-"@ + dec(x as nat);
            let lit = if g.recorder_id is Some {
                "\\ID"@
            } else if g.recorder_description is Some {
                "\\RI1"@
            } else if g.media_type is Some {
                "\\RMT"@
            } else {
                "\\N"@
            };
            let val = if g.recorder_id is Some {
                g.recorder_id.unwrap()
            } else if g.recorder_description is Some {
                g.recorder_description.unwrap()
            } else if g.media_type is Some {
                g.media_type.unwrap()
            } else {
                dec(g.channels.len())
            };
            assert(p.contains((pfx + lit, val)));
            if g.recorder_id is Some {
                lemma_head_code(x, lit, "ID"@);
            } else if g.recorder_description is Some {
                lemma_head_code(x, lit, "RI1"@);
            } else if g.media_type is Some {
                lemma_head_code(x, lit, "RMT"@);
            } else {
                lemma_head_code(x, lit, "N"@);
            }
            let k = choose|k: int| 0 <= k < p.len() && p[k] == (pfx + lit, val);
            assert(token_recorder(toks[k]) == Some(x));
        }
        if exists|j: int| 0 <= j < toks.len() && token_recorder(#[trigger] toks[j]) == Some(x) {
            let j = choose|j: int| 0 <= j < toks.len() && token_recorder(#[trigger] toks[j]) == Some(x);
            assert(code_name_spec(p[j].0) is Some);
            assert(has_key(d.recorders, occurrence_of(code_name_spec(p[j].0).unwrap())));
        }
    }
    lemma_same_keys_len(routed.recorders, d.recorders);
}

// ─── What parsing gives back of the number of channels ──────────────────────

/// The keys of the attributes that create a recorder channel.
pub open spec fn is_channel_key(k: Seq<char>) -> bool {
    k == "TK1"@ || k == "CDT"@ || k == "DSI"@ || k == "CDLN"@ || k == "PDP"@ || k == "CHE"@
}

/// The channel of recorder `ri` that a token creates or sets, if any.
pub open spec fn token_channel(t: TokenV, ri: u32) -> Option<u32> {
    let cn = token_code_name(t);
    if cn.group == GroupPrefix::R && occurrence_of(cn) == ri && first_key_spec(cn) is Some
        && is_channel_key(first_key_spec(cn).unwrap()) {
        first_index_spec(cn)
    } else {
        None
    }
}

/// The channel of recorder `ri` that an attribute, parsed, creates or sets, if any.
pub open spec fn pair_channel(p: (Seq<char>, Seq<char>), ri: u32) -> Option<u32> {
    match code_name_spec(p.0) {
        Some(cn) => if cn.group == GroupPrefix::R && occurrence_of(cn) == ri && first_key_spec(cn) is Some
            && is_channel_key(first_key_spec(cn).unwrap()) {
            first_index_spec(cn)
        } else {
            None
        },
        None => None,
    }
}

/// The channels of recorder `ri`, none when it is not there.
pub open spec fn channels_of(rs: Seq<(u32, RGroupV)>, ri: u32) -> Seq<(u32, RChannelV)> {
    match assoc_get(rs, ri) {
        Some(g) => g.channels,
        None => Seq::empty(),
    }
}

/// The keys after any put into `m`: its own and the new one, still distinct.
proof fn lemma_put_keys_all<W>(m: Seq<(u32, W)>)
    ensures
        forall|k: u32, v: W, x: u32| #[trigger] has_key(assoc_put(m, k, v), x) == (x == k || has_key(m, x)),
        forall|k: u32, v: W| assoc_keys(m).no_duplicates() ==> (#[trigger] assoc_keys(assoc_put(m, k, v))).no_duplicates(),
{
    assert forall|k: u32, v: W, x: u32| #[trigger] has_key(assoc_put(m, k, v), x) == (x == k || has_key(m, x)) by {
        lemma_put_keys(m, k, v);
    }
    assert forall|k: u32, v: W| assoc_keys(m).no_duplicates() implies (#[trigger] assoc_keys(assoc_put(m, k, v))).no_duplicates() by {
        lemma_put_keys(m, k, v);
    }
}

/// No recorder head key is a channel key.
proof fn lemma_channel_keys_distinct()
    ensures
        !is_channel_key("ID"@),
        !is_channel_key("RI1"@),
        !is_channel_key("RMT"@),
        !is_channel_key("N"@),
{
    reveal_strlit("TK1");
    reveal_strlit("CDT");
    reveal_strlit("DSI");
    reveal_strlit("CDLN");
    reveal_strlit("PDP");
    reveal_strlit("CHE");
    reveal_strlit("ID");
    reveal_strlit("RI1");
    reveal_strlit("RMT");
    reveal_strlit("N");
    assert("TK1"@ != "ID"@) by {
        assert("TK1"@.len() != "ID"@.len());
    }
    assert("TK1"@ != "RI1"@) by {
        assert("TK1"@[0] != "RI1"@[0]);
    }
    assert("TK1"@ != "RMT"@) by {
        assert("TK1"@[0] != "RMT"@[0]);
    }
    assert("TK1"@ != "N"@) by {
        assert("TK1"@.len() != "N"@.len());
    }
    assert("CDT"@ != "ID"@) by {
        assert("CDT"@.len() != "ID"@.len());
    }
    assert("CDT"@ != "RI1"@) by {
        assert("CDT"@[0] != "RI1"@[0]);
    }
    assert("CDT"@ != "RMT"@) by {
        assert("CDT"@[0] != "RMT"@[0]);
    }
    assert("CDT"@ != "N"@) by {
        assert("CDT"@.len() != "N"@.len());
    }
    assert("DSI"@ != "ID"@) by {
        assert("DSI"@.len() != "ID"@.len());
    }
    assert("DSI"@ != "RI1"@) by {
        assert("DSI"@[0] != "RI1"@[0]);
    }
    assert("DSI"@ != "RMT"@) by {
        assert("DSI"@[0] != "RMT"@[0]);
    }
    assert("DSI"@ != "N"@) by {
        assert("DSI"@.len() != "N"@.len());
    }
    assert("CDLN"@ != "ID"@) by {
        assert("CDLN"@.len() != "ID"@.len());
    }
    assert("CDLN"@ != "RI1"@) by {
        assert("CDLN"@.len() != "RI1"@.len());
    }
    assert("CDLN"@ != "RMT"@) by {
        assert("CDLN"@.len() != "RMT"@.len());
    }
    assert("CDLN"@ != "N"@) by {
        assert("CDLN"@.len() != "N"@.len());
    }
    assert("PDP"@ != "ID"@) by {
        assert("PDP"@.len() != "ID"@.len());
    }
    assert("PDP"@ != "RI1"@) by {
        assert("PDP"@[0] != "RI1"@[0]);
    }
    assert("PDP"@ != "RMT"@) by {
        assert("PDP"@[0] != "RMT"@[0]);
    }
    assert("PDP"@ != "N"@) by {
        assert("PDP"@.len() != "N"@.len());
    }
    assert("CHE"@ != "ID"@) by {
        assert("CHE"@.len() != "ID"@.len());
    }
    assert("CHE"@ != "RI1"@) by {
        assert("CHE"@[0] != "RI1"@[0]);
    }
    assert("CHE"@ != "RMT"@) by {
        assert("CHE"@[0] != "RMT"@[0]);
    }
    assert("CHE"@ != "N"@) by {
        assert("CHE"@.len() != "N"@.len());
    }
}

/// One token's effect on the channels of recorder `ri`: a channel attribute
/// of it adds its channel, every other token keeps them; they stay distinct.
proof fn lemma_step_channel_keys(doc: TmatsDocumentV, t: TokenV, ri: u32)
    ensures
        ({
            let d2 = route_doc(doc, raw_of(t, token_code_name(t)));
            &&& forall|x: u32| #[trigger] has_key(channels_of(d2.recorders, ri), x)
                == (has_key(channels_of(doc.recorders, ri), x) || token_channel(t, ri) == Some(x))
            &&& assoc_keys(channels_of(doc.recorders, ri)).no_duplicates()
                ==> assoc_keys(channels_of(d2.recorders, ri)).no_duplicates()
        }),
{
    let cn = token_code_name(t);
    let d2 = route_doc(doc, raw_of(t, cn));
    if cn.group == GroupPrefix::R {
        let idx = occurrence_of(cn);
        let rs = doc.recorders;
        let g0 = or_default(rs, idx, RGroup::default_model());
        let g2 = route_r_spec(g0, raw_of(t, cn));
        lemma_get_put(rs, idx, g2, ri);
        lemma_put_keys_all(g0.channels);
        lemma_channel_keys_distinct();
        assert(assoc_keys(Seq::<(u32, RChannelV)>::empty()) =~= Seq::<u32>::empty());
        if idx == ri {
            assert(channels_of(d2.recorders, ri) == g2.channels);
            assert(channels_of(doc.recorders, ri) == g0.channels);
        } else {
            assert(channels_of(d2.recorders, ri) == channels_of(doc.recorders, ri));
        }
    }
}

/// The channels of recorder `ri` after the tokens from `i` on: those there
/// before and those the tokens name, each once.
proof fn lemma_channel_keys_from(toks: Seq<TokenV>, i: int, doc: TmatsDocumentV, ri: u32)
    requires
        0 <= i <= toks.len(),
    ensures
        forall|x: u32| #[trigger] has_key(channels_of(route_from(toks, i, doc).recorders, ri), x)
            == (has_key(channels_of(doc.recorders, ri), x)
            || exists|j: int| i <= j < toks.len() && token_channel(#[trigger] toks[j], ri) == Some(x)),
        assoc_keys(channels_of(doc.recorders, ri)).no_duplicates()
            ==> assoc_keys(channels_of(route_from(toks, i, doc).recorders, ri)).no_duplicates(),
    decreases toks.len() - i,
{
    if i < toks.len() {
        let t = toks[i];
        let d2 = route_doc(doc, raw_of(t, token_code_name(t)));
        lemma_step_channel_keys(doc, t, ri);
        lemma_channel_keys_from(toks, i + 1, d2, ri);
        let fin = route_from(toks, i, doc);
        assert forall|x: u32| #[trigger] has_key(channels_of(fin.recorders, ri), x) == (has_key(channels_of(doc.recorders, ri), x)
            || exists|j: int| i <= j < toks.len() && token_channel(#[trigger] toks[j], ri) == Some(x)) by {
            if exists|j: int| i <= j < toks.len() && token_channel(#[trigger] toks[j], ri) == Some(x) {
                let j = choose|j: int| i <= j < toks.len() && token_channel(#[trigger] toks[j], ri) == Some(x);
                if j > i {
                    assert(i + 1 <= j < toks.len() && token_channel(toks[j], ri) == Some(x));
                }
            }
            if exists|j: int| i + 1 <= j < toks.len() && token_channel(#[trigger] toks[j], ri) == Some(x) {
                let j = choose|j: int| i + 1 <= j < toks.len() && token_channel(#[trigger] toks[j], ri) == Some(x);
                assert(i <= j < toks.len() && token_channel(toks[j], ri) == Some(x));
            }
            if token_channel(t, ri) == Some(x) {
                assert(i <= i < toks.len() && token_channel(toks[i], ri) == Some(x));
            }
        }
    }
}

/// Whether a channel writes one of its channel attributes.
pub open spec fn channel_written(ch: RChannelV) -> bool {
    ||| ch.channel_id is Some
    ||| ch.data_type is Some
    ||| ch.data_source_id is Some
    ||| ch.data_link_name is Some
    ||| ch.data_packing_option is Some
    ||| ch.channel_enabled is Some
}

/// A written channel of recorder `ri` has an attribute among the pairs that
/// parses as one of its channel attributes.
proof fn lemma_written_channel_pair(p: Pairs, ri: u32, ci: u32, ch: RChannelV)
    requires
        channel_in(p, "R-"@ + dec(ri as nat), ci, ch),
        channel_written(ch),
    ensures
        exists|k: int| 0 <= k < p.len() && #[trigger] pair_channel(p[k], ri) == Some(ci),
{
    reveal_strlit("\\TK1-");
    reveal_strlit("\\CDT-");
    reveal_strlit("\\DSI-");
    reveal_strlit("\\CDLN-");
    reveal_strlit("\\PDP-");
    reveal_strlit("\\CHE-");
    reveal_strlit("TK1");
    reveal_strlit("CDT");
    reveal_strlit("DSI");
    reveal_strlit("CDLN");
    reveal_strlit("PDP");
    reveal_strlit("CHE");
    assert(upper("TK1"@) =~= "TK1"@);
    assert(upper("CDT"@) =~= "CDT"@);
    assert(upper("DSI"@) =~= "DSI"@);
    assert(upper("CDLN"@) =~= "CDLN"@);
    assert(upper("PDP"@) =~= "PDP"@);
    assert(upper("CHE"@) =~= "CHE"@);
    assert("\\TK1-"@ =~= seq!['\\'] + "TK1"@ + seq!['-']);
    assert("\\CDT-"@ =~= seq!['\\'] + "CDT"@ + seq!['-']);
    assert("\\DSI-"@ =~= seq!['\\'] + "DSI"@ + seq!['-']);
    assert("\\CDLN-"@ =~= seq!['\\'] + "CDLN"@ + seq!['-']);
    assert("\\PDP-"@ =~= seq!['\\'] + "PDP"@ + seq!['-']);
    assert("\\CHE-"@ =~= seq!['\\'] + "CHE"@ + seq!['-']);
    let pfx = "R-"@ + dec(ri as nat);
    let (lit, key, val) = if ch.channel_id is Some {
        ("\\TK1-"@, "TK1"@, dec(ch.channel_id.unwrap() as nat))
    } else if ch.data_type is Some {
        ("\\CDT-"@, "CDT"@, ch.data_type.unwrap())
    } else if ch.data_source_id is Some {
        ("\\DSI-"@, "DSI"@, ch.data_source_id.unwrap())
    } else if ch.data_link_name is Some {
        ("\\CDLN-"@, "CDLN"@, ch.data_link_name.unwrap())
    } else if ch.data_packing_option is Some {
        ("\\PDP-"@, "PDP"@, ch.data_packing_option.unwrap())
    } else {
        ("\\CHE-"@, "CHE"@, bool_text(ch.channel_enabled.unwrap()))
    };
    assert(p.contains((pfx + lit + dec(ci as nat), val)));
    lemma_channel_code(ri, ci, lit, key);
    let k = choose|k: int| 0 <= k < p.len() && p[k] == (pfx + lit + dec(ci as nat), val);
    assert(is_channel_key(key));
    assert(pair_channel(p[k], ri) == Some(ci));
}

/// Parsing the serialized text of a document gives back, for every recorder,
/// as many channels as it has, whenever each recorder's channels are
/// distinct and each writes a channel attribute, the serialized attributes
/// read back from their text, their code-names parse and differ beyond ASCII
/// case, and every attribute that parses as a channel attribute names one of
/// the document's channels.
#[verifier::rlimit(60)]
pub proof fn law_parse_keeps_channel_counts(d: TmatsDocumentV, opts: SerializeOptions)
    requires
        !opts.canonical_keyword_case,
        ({
            let p = doc_pairs(d, opts.emit_comments);
            &&& p.len() <= 100_000
            &&& forall|i: int| 0 <= i < p.len() ==> pair_reads_back(#[trigger] p[i], 1_048_576)
            &&& forall|i: int| 0 <= i < p.len() ==> code_name_spec(#[trigger] p[i].0) is Some
            &&& forall|i: int, j: int| 0 <= i < j < p.len() ==> upper(#[trigger] p[i].0) != upper(#[trigger] p[j].0)
            &&& forall|i: int, ri: u32| 0 <= i < p.len() && (#[trigger] pair_channel(p[i], ri)) is Some
                ==> has_key(channels_of(d.recorders, ri), pair_channel(p[i], ri).unwrap())
        }),
        forall|i: int| 0 <= i < d.recorders.len() ==> assoc_keys((#[trigger] d.recorders[i]).1.channels).no_duplicates(),
        forall|i: int, j: int| 0 <= i < d.recorders.len() && 0 <= j < d.recorders[i].1.channels.len()
            ==> channel_written((#[trigger] d.recorders[i].1.channels[j]).1),
    ensures
        parse_spec(encode_utf8(serialized_text(d, opts)), default_parse_options()) matches Ok(r)
            && forall|ri: u32| (#[trigger] channels_of(r.recorders, ri)).len() == channels_of(d.recorders, ri).len(),
{
    let p = doc_pairs(d, opts.emit_comments);
    let toks = lemma_reparse(d, opts);
    let e0 = TmatsDocumentV::empty();
    let routed = route_from(toks, 0, e0);
    lemma_doc_pairs_channels(d, opts.emit_comments);
    assert forall|ri: u32| (#[trigger] channels_of(routed.recorders, ri)).len() == channels_of(d.recorders, ri).len() by {
        lemma_channel_keys_from(toks, 0, e0, ri);
        assert(channels_of(e0.recorders, ri) =~= Seq::<(u32, RChannelV)>::empty());
        assert(assoc_keys(Seq::<(u32, RChannelV)>::empty()) =~= Seq::<u32>::empty());
        let dch = channels_of(d.recorders, ri);
        lemma_assoc_find(d.recorders, ri);
        if has_key(d.recorders, ri) {
            let i = assoc_find(d.recorders, ri);
            assert(dch == d.recorders[i].1.channels);
            assert(assoc_keys(d.recorders[i].1.channels).no_duplicates());
        } else {
            assert(assoc_keys(dch) =~= Seq::<u32>::empty());
        }
        assert forall|x: u32| has_key(channels_of(routed.recorders, ri), x) == has_key(dch, x) by {
            assert(!has_key(channels_of(e0.recorders, ri), x));
            if has_key(dch, x) {
                let i = assoc_find(d.recorders, ri);
                let g = d.recorders[i].1;
                lemma_assoc_find(g.channels, x);
                let j = assoc_find(g.channels, x);
                let ch = g.channels[j].1;
                assert(channel_in(p, "R-"@ + dec(d.recorders[i].0 as nat), d.recorders[i].1.channels[j].0, d.recorders[i].1.channels[j].1));
                assert(channel_written(d.recorders[i].1.channels[j].1));
                lemma_written_channel_pair(p, ri, x, ch);
                let k = choose|k: int| 0 <= k < p.len() && #[trigger] pair_channel(p[k], ri) == Some(x);
                assert(token_channel(toks[k], ri) == Some(x));
            }
            if exists|j: int| 0 <= j < toks.len() && token_channel(#[trigger] toks[j], ri) == Some(x) {
                let j = choose|j: int| 0 <= j < toks.len() && token_channel(#[trigger] toks[j], ri) == Some(x);
                assert(pair_channel(p[j], ri) == Some(x));
            }
        }
        lemma_same_keys_len(channels_of(routed.recorders, ri), dch);
    }
}

// ─── What parsing gives back of the number of data sources ──────────────────

/// The keys of the attributes that create a data source.
pub open spec fn is_source_key(k: Seq<char>) -> bool {
    k == "DSI"@ || k == "DST"@ || k == "DSC"@
}

/// The data source that a parsed code-name creates or sets, if any: an
/// indexed `DSI` that is not the counter, or an indexed `DST` or `DSC`.
pub open spec fn source_of_code(cn: CodeNameV) -> Option<u32> {
    if cn.group == GroupPrefix::G && first_key_spec(cn) is Some && is_source_key(first_key_spec(cn).unwrap())
        && !(first_key_spec(cn) == Some("DSI"@) && is_counter_spec(cn)) {
        first_index_spec(cn)
    } else {
        None
    }
}

/// The data source that a token creates or sets, if any.
pub open spec fn token_source(t: TokenV) -> Option<u32> {
    source_of_code(token_code_name(t))
}

/// The data source that an attribute, parsed, creates or sets, if any.
pub open spec fn pair_source(p: (Seq<char>, Seq<char>)) -> Option<u32> {
    match code_name_spec(p.0) {
        Some(cn) => source_of_code(cn),
        None => None,
    }
}

/// No G key routed before the data source keys is one of them.
proof fn lemma_source_keys_distinct()
    ensures
        !is_source_key("PN"@),
        !is_source_key("106"@),
        !is_source_key("OD"@),
        !is_source_key("RN"@),
        !is_source_key("RD"@),
        !is_source_key("UN"@),
        !is_source_key("UD"@),
        !is_source_key("TN"@),
{
    reveal_strlit("DSI");
    reveal_strlit("DST");
    reveal_strlit("DSC");
    reveal_strlit("PN");
    reveal_strlit("106");
    reveal_strlit("OD");
    reveal_strlit("RN");
    reveal_strlit("RD");
    reveal_strlit("UN");
    reveal_strlit("UD");
    reveal_strlit("TN");
    assert("DSI"@ != "PN"@) by {
        assert("DSI"@.len() != "PN"@.len());
    }
    assert("DSI"@ != "106"@) by {
        assert("DSI"@[0] != "106"@[0]);
    }
    assert("DSI"@ != "OD"@) by {
        assert("DSI"@.len() != "OD"@.len());
    }
    assert("DSI"@ != "RN"@) by {
        assert("DSI"@.len() != "RN"@.len());
    }
    assert("DSI"@ != "RD"@) by {
        assert("DSI"@.len() != "RD"@.len());
    }
    assert("DSI"@ != "UN"@) by {
        assert("DSI"@.len() != "UN"@.len());
    }
    assert("DSI"@ != "UD"@) by {
        assert("DSI"@.len() != "UD"@.len());
    }
    assert("DSI"@ != "TN"@) by {
        assert("DSI"@.len() != "TN"@.len());
    }
    assert("DST"@ != "PN"@) by {
        assert("DST"@.len() != "PN"@.len());
    }
    assert("DST"@ != "106"@) by {
        assert("DST"@[0] != "106"@[0]);
    }
    assert("DST"@ != "OD"@) by {
        assert("DST"@.len() != "OD"@.len());
    }
    assert("DST"@ != "RN"@) by {
        assert("DST"@.len() != "RN"@.len());
    }
    assert("DST"@ != "RD"@) by {
        assert("DST"@.len() != "RD"@.len());
    }
    assert("DST"@ != "UN"@) by {
        assert("DST"@.len() != "UN"@.len());
    }
    assert("DST"@ != "UD"@) by {
        assert("DST"@.len() != "UD"@.len());
    }
    assert("DST"@ != "TN"@) by {
        assert("DST"@.len() != "TN"@.len());
    }
    assert("DSC"@ != "PN"@) by {
        assert("DSC"@.len() != "PN"@.len());
    }
    assert("DSC"@ != "106"@) by {
        assert("DSC"@[0] != "106"@[0]);
    }
    assert("DSC"@ != "OD"@) by {
        assert("DSC"@.len() != "OD"@.len());
    }
    assert("DSC"@ != "RN"@) by {
        assert("DSC"@.len() != "RN"@.len());
    }
    assert("DSC"@ != "RD"@) by {
        assert("DSC"@.len() != "RD"@.len());
    }
    assert("DSC"@ != "UN"@) by {
        assert("DSC"@.len() != "UN"@.len());
    }
    assert("DSC"@ != "UD"@) by {
        assert("DSC"@.len() != "UD"@.len());
    }
    assert("DSC"@ != "TN"@) by {
        assert("DSC"@.len() != "TN"@.len());
    }
}

/// The data sources after the G tokens from `i` on: those there before and
/// those the tokens name, each once.
proof fn lemma_source_keys_from(toks: Seq<TokenV>, i: int, g: GGroupV)
    requires
        0 <= i <= toks.len(),
    ensures
        forall|x: u32| #[trigger] has_key(g_from(toks, i, g).data_sources, x) == (has_key(g.data_sources, x)
            || exists|j: int| i <= j < toks.len() && token_source(#[trigger] toks[j]) == Some(x)),
        assoc_keys(g.data_sources).no_duplicates() ==> assoc_keys(g_from(toks, i, g).data_sources).no_duplicates(),
    decreases toks.len() - i,
{
    if i < toks.len() {
        let t = toks[i];
        let cn = token_code_name(t);
        let g2 = if cn.group == GroupPrefix::G { route_g_spec(g, raw_of(t, cn)) } else { g };
        lemma_source_keys_distinct();
        if cn.group == GroupPrefix::G {
            let a = raw_of(t, cn);
            let k = first_key_spec(cn);
            let v = t.value;
            if token_source(t) is Some {
                let ix = first_index_spec(cn).unwrap();
                let d0 = or_default(g.data_sources, ix, DataSourceDecl::default_model());
                if k == Some("DSI"@) {
                    lemma_put_keys(g.data_sources, ix, DataSourceDeclV { data_source_id: Some(v), ..d0 });
                } else if k == Some("DST"@) {
                    lemma_put_keys(g.data_sources, ix, DataSourceDeclV { data_source_type: Some(v), ..d0 });
                } else {
                    lemma_put_keys(g.data_sources, ix, DataSourceDeclV { classification: Some(v), ..d0 });
                }
            } else {
                assert(g2.data_sources == g.data_sources);
            }
        }
        assert forall|x: u32| #[trigger] has_key(g2.data_sources, x) == (has_key(g.data_sources, x) || token_source(t) == Some(x)) by {}
        lemma_source_keys_from(toks, i + 1, g2);
        let fin = g_from(toks, i, g);
        assert forall|x: u32| #[trigger] has_key(fin.data_sources, x) == (has_key(g.data_sources, x)
            || exists|j: int| i <= j < toks.len() && token_source(#[trigger] toks[j]) == Some(x)) by {
            if exists|j: int| i <= j < toks.len() && token_source(#[trigger] toks[j]) == Some(x) {
                let j = choose|j: int| i <= j < toks.len() && token_source(#[trigger] toks[j]) == Some(x);
                if j > i {
                    assert(i + 1 <= j < toks.len() && token_source(toks[j]) == Some(x));
                }
            }
            if exists|j: int| i + 1 <= j < toks.len() && token_source(#[trigger] toks[j]) == Some(x) {
                let j = choose|j: int| i + 1 <= j < toks.len() && token_source(#[trigger] toks[j]) == Some(x);
                assert(i <= j < toks.len() && token_source(toks[j]) == Some(x));
            }
            if token_source(t) == Some(x) {
                assert(i <= i < toks.len() && token_source(toks[i]) == Some(x));
            }
        }
    }
}

/// `G\K-n`, for a key of two or more characters without `\` or `-`, parses
/// as the attribute `K` of entry `n` of the G group, no counter.
proof fn lemma_g_indexed_code(lit: Seq<char>, key: Seq<char>, n: u32)
    requires
        lit == seq!['G'] + seq!['\\'] + key + seq!['-'],
        key.len() > 1,
        forall|j: int| 0 <= j < key.len() ==> #[trigger] key[j] != '\\' && key[j] != '-',
        upper(key) == key,
    ensures
        code_name_spec(lit + dec(n as nat)) matches Some(cn) && cn.group == GroupPrefix::G
            && first_key_spec(cn) == Some(key) && first_index_spec(cn) == Some(n) && !is_counter_spec(cn),
{
    lemma_dec_parses(n as nat, u32::MAX as nat);
    let g = seq!['G'];
    let b = key + seq!['-'] + dec(n as nat);
    let code = g + seq!['\\'] + b;
    assert(lit + dec(n as nat) =~= code);
    assert(!g.contains('\\')) by {
        if g.contains('\\') {
            let j = choose|j: int| 0 <= j < g.len() && g[j] == '\\';
            assert(g[0] == 'G');
        }
    }
    assert(!b.contains('\\')) by {
        if b.contains('\\') {
            let j = choose|j: int| 0 <= j < b.len() && b[j] == '\\';
            if j > key.len() {
                assert(b[j] == dec(n as nat)[j - key.len() - 1]);
            } else if j < key.len() {
                assert(b[j] == key[j]);
            }
        }
    }
    lemma_split_single(g, '\\');
    lemma_split_append(g, '\\', b);
    let parts = split(code, '\\');
    assert(parts =~= seq![g, b]);
    assert(GroupPrefix::spec_from_char('G') == GroupPrefix::G);
    lemma_last_dash(key, dec(n as nat));
    assert(b.skip(key.len() + 1int) =~= dec(n as nat));
    assert(b.take(key.len() as int) =~= key);
    let seg = path_segment_spec(b);
    assert(seg.name == key && seg.index == Some(n));
    assert(parts.skip(1) =~= seq![b]);
    reveal_strlit("N");
    assert(upper(key).len() != upper("N"@).len());
}

/// Whether a data source writes one of its attributes.
pub open spec fn source_written(ds: DataSourceDeclV) -> bool {
    ds.data_source_id is Some || ds.data_source_type is Some || ds.classification is Some
}

/// Parsing the serialized text of a document gives back as many data
/// sources as it has, whenever its data sources are distinct and each writes
/// an attribute, the serialized attributes read back from their text, their
/// code-names parse and differ beyond ASCII case, and every attribute that
/// parses as a data source attribute names one of the document's data sources.
#[verifier::rlimit(60)]
pub proof fn law_parse_keeps_source_count(d: TmatsDocumentV, opts: SerializeOptions)
    requires
        !opts.canonical_keyword_case,
        ({
            let p = doc_pairs(d, opts.emit_comments);
            &&& p.len() <= 100_000
            &&& forall|i: int| 0 <= i < p.len() ==> pair_reads_back(#[trigger] p[i], 1_048_576)
            &&& forall|i: int| 0 <= i < p.len() ==> code_name_spec(#[trigger] p[i].0) is Some
            &&& forall|i: int, j: int| 0 <= i < j < p.len() ==> upper(#[trigger] p[i].0) != upper(#[trigger] p[j].0)
            &&& forall|i: int| 0 <= i < p.len() && (#[trigger] pair_source(p[i])) is Some
                ==> has_key(d.general.data_sources, pair_source(p[i]).unwrap())
        }),
        assoc_keys(d.general.data_sources).no_duplicates(),
        forall|j: int| 0 <= j < d.general.data_sources.len() ==> source_written((#[trigger] d.general.data_sources[j]).1),
    ensures
        parse_spec(encode_utf8(serialized_text(d, opts)), default_parse_options()) matches Ok(r)
            && r.general.data_sources.len() == d.general.data_sources.len(),
{
    let p = doc_pairs(d, opts.emit_comments);
    let toks = lemma_reparse(d, opts);
    let e0 = TmatsDocumentV::empty();
    lemma_route_general(toks, 0, e0);
    let gr = g_from(toks, 0, e0.general);
    lemma_source_keys_from(toks, 0, e0.general);
    assert(assoc_keys(e0.general.data_sources) =~= Seq::<u32>::empty());
    lemma_doc_pairs_sources(d, opts.emit_comments);
    reveal_strlit("G\\DSI-");
    reveal_strlit("G\\DST-");
    reveal_strlit("G\\DSC-");
    reveal_strlit("DSI");
    reveal_strlit("DST");
    reveal_strlit("DSC");
    assert(upper("DSI"@) =~= "DSI"@);
    assert(upper("DST"@) =~= "DST"@);
    assert(upper("DSC"@) =~= "DSC"@);
    assert("G\\DSI-"@ =~= seq!['G'] + seq!['\\'] + "DSI"@ + seq!['-']);
    assert("G\\DST-"@ =~= seq!['G'] + seq!['\\'] + "DST"@ + seq!['-']);
    assert("G\\DSC-"@ =~= seq!['G'] + seq!['\\'] + "DSC"@ + seq!['-']);
    let ds = d.general.data_sources;
    assert forall|x: u32| has_key(gr.data_sources, x) == has_key(ds, x) by {
        assert(!has_key(e0.general.data_sources, x));
        if has_key(ds, x) {
            lemma_assoc_find(ds, x);
            let j = assoc_find(ds, x);
            let s = ds[j].1;
            assert(source_in(p, ds[j].0, s));
            assert(source_written(s));
            let (lit, key, val) = if s.data_source_id is Some {
                ("G\\DSI-"@, "DSI"@, s.data_source_id.unwrap())
            } else if s.data_source_type is Some {
                ("G\\DST-"@, "DST"@, s.data_source_type.unwrap())
            } else {
                ("G\\DSC-"@, "DSC"@, s.classification.unwrap())
            };
            assert(p.contains((lit + dec(x as nat), val)));
            lemma_g_indexed_code(lit, key, x);
            let k = choose|k: int| 0 <= k < p.len() && p[k] == (lit + dec(x as nat), val);
            assert(token_source(toks[k]) == Some(x));
        }
        if exists|j: int| 0 <= j < toks.len() && token_source(#[trigger] toks[j]) == Some(x) {
            let j = choose|j: int| 0 <= j < toks.len() && token_source(#[trigger] toks[j]) == Some(x);
            assert(pair_source(p[j]) == Some(x));
        }
    }
    lemma_same_keys_len(gr.data_sources, ds);
}

/// The channel counter of recorder `ri`, where there is one, stays `n` or
/// unset through the tokens from `i` on when all that set it set `n`.
proof fn lemma_num_channels_stays(toks: Seq<TokenV>, i: int, doc: TmatsDocumentV, ri: u32, n: Option<u32>)
    requires
        0 <= i <= toks.len(),
        forall|j: int| i <= j < toks.len() && routes_to_recorder(#[trigger] toks[j], ri, "N"@) ==> u32_of_text(toks[j].value) == n,
        assoc_get(doc.recorders, ri) matches Some(g) ==> (g.num_channels is None || g.num_channels == n),
    ensures
        assoc_get(route_from(toks, i, doc).recorders, ri) matches Some(g) ==> (g.num_channels is None || g.num_channels == n),
    decreases toks.len() - i,
{
    if i < toks.len() {
        let t = toks[i];
        let d2 = route_doc(doc, raw_of(t, token_code_name(t)));
        lemma_step_num_channels(doc, t, ri);
        lemma_num_channels_stays(toks, i + 1, d2, ri, n);
    }
}

/// The data source counter stays `n` or unset through the G tokens from `i`
/// on when all that set it set `n`.
proof fn lemma_num_data_sources_stays(toks: Seq<TokenV>, i: int, g: GGroupV, n: Option<u32>)
    requires
        0 <= i <= toks.len(),
        forall|j: int| i <= j < toks.len() && routes_to_g_counter(#[trigger] toks[j], "DSI"@) ==> u32_of_text(toks[j].value) == n,
        g.num_data_sources is None || g.num_data_sources == n,
    ensures
        g_from(toks, i, g).num_data_sources is None || g_from(toks, i, g).num_data_sources == n,
    decreases toks.len() - i,
{
    if i < toks.len() {
        let t = toks[i];
        let cn = token_code_name(t);
        let g2 = if cn.group == GroupPrefix::G { route_g_spec(g, raw_of(t, cn)) } else { g };
        reveal_strlit("PN");
        reveal_strlit("106");
        reveal_strlit("OD");
        reveal_strlit("RN");
        reveal_strlit("RD");
        reveal_strlit("UN");
        reveal_strlit("UD");
        reveal_strlit("TN");
        reveal_strlit("DSI");
        if routes_to_g_counter(t, "DSI"@) {
            assert("DSI"@ != "PN"@) by {
                assert("DSI"@.len() != "PN"@.len());
            }
            assert("DSI"@ != "106"@) by {
                assert("DSI"@[0] != "106"@[0]);
            }
            assert("DSI"@ != "OD"@) by {
                assert("DSI"@.len() != "OD"@.len());
            }
            assert("DSI"@ != "RN"@) by {
                assert("DSI"@.len() != "RN"@.len());
            }
            assert("DSI"@ != "RD"@) by {
                assert("DSI"@.len() != "RD"@.len());
            }
            assert("DSI"@ != "UN"@) by {
                assert("DSI"@.len() != "UN"@.len());
            }
            assert("DSI"@ != "UD"@) by {
                assert("DSI"@.len() != "UD"@.len());
            }
            assert("DSI"@ != "TN"@) by {
                assert("DSI"@.len() != "TN"@.len());
            }
            assert(g2.num_data_sources == u32_of_text(t.value));
        } else {
            assert(g2.num_data_sources == g.num_data_sources);
        }
        lemma_num_data_sources_stays(toks, i + 1, g2, n);
    }
}

// ─── What validation finds in a reparsed document ───────────────────────────

/// Whether a recorder's channel counter, if set, counts its channels.
pub open spec fn counter_matches(g: RGroupV) -> bool {
    match g.num_channels {
        Some(n) => n == g.channels.len() as u32,
        None => true,
    }
}

/// Recorders whose counters count their channels raise no V011 finding.
proof fn lemma_v011_quiet(rs: Seq<(u32, RGroupV)>)
    requires
        forall|j: int| 0 <= j < rs.len() ==> counter_matches(#[trigger] rs[j].1),
    ensures
        v011_all(rs) == Seq::<DiagnosticV>::empty(),
    decreases rs.len(),
{
    if rs.len() > 0 {
        assert forall|j: int| 0 <= j < rs.drop_last().len() implies counter_matches(#[trigger] rs.drop_last()[j].1) by {
            assert(rs.drop_last()[j] == rs[j]);
        }
        lemma_v011_quiet(rs.drop_last());
        assert(counter_matches(rs[rs.len() - 1].1));
    }
}

/// Serializing a document and parsing the text again gives a document whose
/// structural validation finds what it finds in the original for the program
/// name and IRIG 106 version, and no counter error (`G\DSI\N`, `R-x\N`):
/// whenever the attributes read back as the read-back laws ask, every
/// counter attribute carries its count, and every data source and channel
/// attribute names an entry of the document, each written and distinct.
#[verifier::rlimit(80)]
pub proof fn law_reparsed_counters_validate(d: TmatsDocumentV, opts: SerializeOptions)
    requires
        !opts.canonical_keyword_case,
        ({
            let p = doc_pairs(d, opts.emit_comments);
            &&& p.len() <= 100_000
            &&& forall|i: int| 0 <= i < p.len() ==> pair_reads_back(#[trigger] p[i], 1_048_576)
            &&& forall|i: int| 0 <= i < p.len() ==> code_name_spec(#[trigger] p[i].0) is Some
            &&& forall|i: int, j: int| 0 <= i < j < p.len() ==> upper(#[trigger] p[i].0) != upper(#[trigger] p[j].0)
            &&& forall|i: int| 0 <= i < p.len() && pair_routes_to(#[trigger] p[i], "PN"@) ==> d.general.program_name == Some(p[i].1)
            &&& forall|i: int| 0 <= i < p.len() && pair_routes_to(#[trigger] p[i], "106"@) ==> d.general.irig106_version == Some(p[i].1)
            &&& forall|i: int| 0 <= i < p.len() && pair_routes_to(#[trigger] p[i], "TN"@) ==> d.general.test_number == Some(p[i].1)
            &&& forall|i: int| 0 <= i < p.len() && #[trigger] pair_routes_to_g_counter(p[i], "DSI"@)
                ==> p[i].1 == dec(d.general.data_sources.len())
            &&& forall|i: int, ri: u32| 0 <= i < p.len() && #[trigger] pair_routes_to_recorder(p[i], ri, "N"@)
                ==> (assoc_get(d.recorders, ri) matches Some(g) && p[i].1 == dec(g.channels.len()))
            &&& forall|i: int, ri: u32| 0 <= i < p.len() && (#[trigger] pair_channel(p[i], ri)) is Some
                ==> has_key(channels_of(d.recorders, ri), pair_channel(p[i], ri).unwrap())
            &&& forall|i: int| 0 <= i < p.len() && (#[trigger] pair_source(p[i])) is Some
                ==> has_key(d.general.data_sources, pair_source(p[i]).unwrap())
        }),
        d.general.data_sources.len() <= u32::MAX,
        assoc_keys(d.general.data_sources).no_duplicates(),
        forall|j: int| 0 <= j < d.general.data_sources.len() ==> source_written((#[trigger] d.general.data_sources[j]).1),
        forall|i: int| 0 <= i < d.recorders.len() ==> (#[trigger] d.recorders[i]).1.channels.len() <= u32::MAX
            && assoc_keys(d.recorders[i].1.channels).no_duplicates(),
        forall|i: int, j: int| 0 <= i < d.recorders.len() && 0 <= j < d.recorders[i].1.channels.len()
            ==> channel_written((#[trigger] d.recorders[i].1.channels[j]).1),
    ensures
        parse_spec(encode_utf8(serialized_text(d, opts)), default_parse_options()) matches Ok(r)
            && v001(r) == v001(d)
            && v002(r) == v002(d)
            && v010(r) == Seq::<DiagnosticV>::empty()
            && v011(r) == Seq::<DiagnosticV>::empty(),
{
    law_parse_reads_back_g_group(d, opts);
    law_parse_keeps_channel_counts(d, opts);
    law_parse_keeps_source_count(d, opts);
    let p = doc_pairs(d, opts.emit_comments);
    let bytes = encode_utf8(serialized_text(d, opts));
    let toks = lemma_reparse(d, opts);
    let e0 = TmatsDocumentV::empty();
    lemma_route_general(toks, 0, e0);
    let routed = route_from(toks, 0, e0);
    let r = parse_spec(bytes, default_parse_options())->Ok_0;
    assert(r.recorders == routed.recorders);
    assert(r.general == routed.general);
    // The data source counter.
    let nd = d.general.data_sources.len();
    lemma_dec_parses(nd, u32::MAX as nat);
    lemma_dec_trimmed(nd);
    assert forall|m: int| 0 <= m < toks.len() && routes_to_g_counter(#[trigger] toks[m], "DSI"@)
        implies u32_of_text(toks[m].value) == Some(nd as u32) by {
        assert(pair_routes_to_g_counter(p[m], "DSI"@));
    }
    lemma_num_data_sources_stays(toks, 0, e0.general, Some(nd as u32));
    // The recorder counters.
    lemma_recorder_keys_from(toks, 0, e0);
    assert(assoc_keys(e0.recorders) =~= Seq::<u32>::empty());
    let rs = r.recorders;
    assert forall|j: int| 0 <= j < rs.len() implies counter_matches(#[trigger] rs[j].1) by {
        let ri = rs[j].0;
        lemma_assoc_find_unique(rs, j);
        assert(assoc_get(rs, ri) == Some(rs[j].1));
        assert(channels_of(rs, ri) == rs[j].1.channels);
        let nc = channels_of(d.recorders, ri).len();
        lemma_assoc_find(d.recorders, ri);
        if has_key(d.recorders, ri) {
            let i = assoc_find(d.recorders, ri);
            assert(d.recorders[i].1.channels.len() <= u32::MAX);
            assert(channels_of(d.recorders, ri) == d.recorders[i].1.channels);
        }
        assert(nc <= u32::MAX);
        lemma_dec_parses(nc, u32::MAX as nat);
        lemma_dec_trimmed(nc);
        assert forall|m: int| 0 <= m < toks.len() && routes_to_recorder(#[trigger] toks[m], ri, "N"@)
            implies u32_of_text(toks[m].value) == Some(nc as u32) by {
            assert(pair_routes_to_recorder(p[m], ri, "N"@));
        }
        lemma_num_channels_stays(toks, 0, e0, ri, Some(nc as u32));
    }
    lemma_v011_quiet(rs);
}

// ─── Recorder description and media type ────────────────────────────────────

/// Routing one attribute `R-x\RI1:v` sets recorder `x`'s description to `v`,
/// and `R-x\RMT:v` its media type; the recorder is otherwise unchanged (a
/// new one when there was none).
pub proof fn law_route_recorder_texts(d: TmatsDocumentV, a: crate::model::RawAttributeV)
    ensures
        ({
            let ri = occurrence_of(a.code_name);
            let g0 = or_default(d.recorders, ri, RGroup::default_model());
            let g = assoc_get(route_doc(d, a).recorders, ri);
            &&& (a.code_name.group == GroupPrefix::R && first_key_spec(a.code_name) == Some("RI1"@))
                ==> g == Some(RGroupV { recorder_description: Some(a.value), ..g0 })
            &&& (a.code_name.group == GroupPrefix::R && first_key_spec(a.code_name) == Some("RMT"@))
                ==> g == Some(RGroupV { media_type: Some(a.value), ..g0 })
        }),
{
    let ri = occurrence_of(a.code_name);
    if a.code_name.group == GroupPrefix::R {
        let g0 = or_default(d.recorders, ri, RGroup::default_model());
        lemma_get_put(d.recorders, ri, route_r_spec(g0, a), ri);
        lemma_r_text_keys();
    }
}

proof fn lemma_r_text_keys()
    ensures
        "RI1"@ != "ID"@,
        "RMT"@ != "ID"@,
        "RI1"@ != "RMT"@,
        upper("RI1"@) == "RI1"@,
        upper("RMT"@) == "RMT"@,
        "\\RI1"@ == seq!['\\'] + "RI1"@,
        "\\RMT"@ == seq!['\\'] + "RMT"@,
{
    reveal_strlit("ID");
    reveal_strlit("RI1");
    reveal_strlit("RMT");
    reveal_strlit("\\RI1");
    reveal_strlit("\\RMT");
    assert("RI1"@.len() != "ID"@.len());
    assert("RMT"@.len() != "ID"@.len());
    assert("RI1"@[1] != "RMT"@[1]);
    assert(upper("RI1"@) =~= "RI1"@);
    assert(upper("RMT"@) =~= "RMT"@);
    assert("\\RI1"@ =~= seq!['\\'] + "RI1"@);
    assert("\\RMT"@ =~= seq!['\\'] + "RMT"@);
}

/// A recorder's description (key `RI1`) or media type (key `RMT`).
pub open spec fn recorder_text(g: RGroupV, k: Seq<char>) -> Option<Seq<char>> {
    if k == "RI1"@ {
        g.recorder_description
    } else {
        g.media_type
    }
}

proof fn lemma_step_recorder_text(doc: TmatsDocumentV, t: TokenV, ri: u32, k: Seq<char>)
    requires
        k == "RI1"@ || k == "RMT"@,
    ensures
        ({
            let d2 = route_doc(doc, raw_of(t, token_code_name(t)));
            &&& routes_to_recorder(t, ri, k) ==> (assoc_get(d2.recorders, ri) matches Some(g)
                && recorder_text(g, k) == Some(t.value))
            &&& (!routes_to_recorder(t, ri, k) && assoc_get(doc.recorders, ri) is Some) ==> (
                assoc_get(d2.recorders, ri) matches Some(g2)
                && recorder_text(g2, k) == recorder_text(assoc_get(doc.recorders, ri).unwrap(), k))
        }),
{
    let cn = token_code_name(t);
    lemma_r_text_keys();
    law_route_recorder_texts(doc, raw_of(t, cn));
    if cn.group == GroupPrefix::R {
        let idx = occurrence_of(cn);
        let rs = doc.recorders;
        let g0 = or_default(rs, idx, RGroup::default_model());
        let g2 = route_r_spec(g0, raw_of(t, cn));
        lemma_get_put(rs, idx, g2, ri);
        reveal_strlit("N");
        reveal_strlit("TK1");
        reveal_strlit("CDT");
        reveal_strlit("DSI");
        reveal_strlit("CDLN");
    }
}

proof fn lemma_recorder_text_from(toks: Seq<TokenV>, i: int, doc: TmatsDocumentV, ri: u32, k: Seq<char>, v: Seq<char>)
    requires
        k == "RI1"@ || k == "RMT"@,
        0 <= i <= toks.len(),
        forall|j: int| i <= j < toks.len() && routes_to_recorder(#[trigger] toks[j], ri, k) ==> toks[j].value == v,
        (exists|j: int| i <= j < toks.len() && routes_to_recorder(#[trigger] toks[j], ri, k))
            || (assoc_get(doc.recorders, ri) matches Some(g) && recorder_text(g, k) == Some(v)),
    ensures
        assoc_get(route_from(toks, i, doc).recorders, ri) matches Some(g) && recorder_text(g, k) == Some(v),
    decreases toks.len() - i,
{
    if i < toks.len() {
        let t = toks[i];
        let d2 = route_doc(doc, raw_of(t, token_code_name(t)));
        lemma_step_recorder_text(doc, t, ri, k);
        if !routes_to_recorder(t, ri, k) && !(assoc_get(doc.recorders, ri) matches Some(g) && recorder_text(g, k) == Some(v)) {
            let j = choose|j: int| i <= j < toks.len() && routes_to_recorder(#[trigger] toks[j], ri, k);
            assert(j != i);
            assert(i + 1 <= j < toks.len() && routes_to_recorder(toks[j], ri, k));
        }
        lemma_recorder_text_from(toks, i + 1, d2, ri, k, v);
    }
}

/// The premises of the recorder text law.
pub open spec fn recorder_texts_written(d: TmatsDocumentV, opts: SerializeOptions) -> bool {
    let p = doc_pairs(d, opts.emit_comments);
    &&& !opts.canonical_keyword_case
    &&& p.len() <= 100_000
    &&& forall|i: int| 0 <= i < p.len() ==> pair_reads_back(#[trigger] p[i], 1_048_576)
    &&& forall|i: int| 0 <= i < p.len() ==> code_name_spec(#[trigger] p[i].0) is Some
    &&& forall|i: int, j: int| 0 <= i < j < p.len() ==> upper(#[trigger] p[i].0) != upper(#[trigger] p[j].0)
    &&& forall|i: int, ri: u32| 0 <= i < p.len() && #[trigger] pair_routes_to_recorder(p[i], ri, "RI1"@)
        ==> (assoc_get(d.recorders, ri) matches Some(g) && g.recorder_description == Some(p[i].1))
    &&& forall|i: int, ri: u32| 0 <= i < p.len() && #[trigger] pair_routes_to_recorder(p[i], ri, "RMT"@)
        ==> (assoc_get(d.recorders, ri) matches Some(g) && g.media_type == Some(p[i].1))
}

proof fn lemma_recorder_text_in(d: TmatsDocumentV, opts: SerializeOptions, toks: Seq<TokenV>, ri: u32, k: Seq<char>, v: Seq<char>)
    requires
        k == "RI1"@ || k == "RMT"@,
        recorder_texts_written(d, opts),
        toks.len() == doc_pairs(d, opts.emit_comments).len(),
        forall|i: int| 0 <= i < toks.len() ==> (#[trigger] toks[i]).code == doc_pairs(d, opts.emit_comments)[i].0
            && toks[i].value == doc_pairs(d, opts.emit_comments)[i].1,
        assoc_get(d.recorders, ri) matches Some(g) && recorder_in(doc_pairs(d, opts.emit_comments), ri, g)
            && recorder_text(g, k) == Some(v),
    ensures
        assoc_get(route_from(toks, 0, TmatsDocumentV::empty()).recorders, ri) matches Some(g) && recorder_text(g, k) == Some(v),
{
    let p = doc_pairs(d, opts.emit_comments);
    lemma_r_text_keys();
    reveal_strlit("RI1");
    reveal_strlit("RMT");
    reveal_strlit("\\RI1");
    reveal_strlit("\\RMT");
    lemma_r_key_code(ri, k);
    let pfx = "R-"@ + dec(ri as nat);
    let code = pfx + seq!['\\'] + k;
    if k == "RI1"@ {
        assert(pfx + "\\RI1"@ =~= code);
    } else {
        assert(pfx + "\\RMT"@ =~= code);
    }
    assert(p.contains((code, v)));
    let m = choose|m: int| 0 <= m < p.len() && p[m] == (code, v);
    assert(routes_to_recorder(toks[m], ri, k));
    assert forall|j: int| 0 <= j < toks.len() && routes_to_recorder(#[trigger] toks[j], ri, k)
        implies toks[j].value == v by {
        assert(pair_routes_to_recorder(p[j], ri, k));
    }
    lemma_recorder_text_from(toks, 0, TmatsDocumentV::empty(), ri, k, v);
}

/// Parsing a document's serialized text gives every recorder back its
/// description (`R-x\RI1`) and its media type (`R-x\RMT`).
pub proof fn law_parse_reads_back_recorder_texts(d: TmatsDocumentV, opts: SerializeOptions)
    requires
        recorder_texts_written(d, opts),
    ensures
        parse_spec(encode_utf8(serialized_text(d, opts)), default_parse_options()) matches Ok(r)
            && forall|ri: u32| #[trigger] assoc_get(d.recorders, ri) is Some ==> ({
                let g = assoc_get(d.recorders, ri).unwrap();
                &&& g.recorder_description is Some ==> (assoc_get(r.recorders, ri) matches Some(rg)
                    && rg.recorder_description == g.recorder_description)
                &&& g.media_type is Some ==> (assoc_get(r.recorders, ri) matches Some(rg)
                    && rg.media_type == g.media_type)
            }),
{
    let toks = lemma_reparse(d, opts);
    let e0 = TmatsDocumentV::empty();
    lemma_route_general(toks, 0, e0);
    let routed = route_from(toks, 0, e0);
    lemma_doc_pairs_recorders(d, opts.emit_comments);
    lemma_r_text_keys();
    assert forall|ri: u32| #[trigger] assoc_get(d.recorders, ri) is Some implies ({
        let g = assoc_get(d.recorders, ri).unwrap();
        &&& g.recorder_description is Some ==> (assoc_get(routed.recorders, ri) matches Some(rg)
            && rg.recorder_description == g.recorder_description)
        &&& g.media_type is Some ==> (assoc_get(routed.recorders, ri) matches Some(rg)
            && rg.media_type == g.media_type)
    }) by {
        let g = assoc_get(d.recorders, ri).unwrap();
        lemma_assoc_find(d.recorders, ri);
        let i = assoc_find(d.recorders, ri);
        assert(d.recorders[i] == (ri, g));
        if let Some(v) = g.recorder_description {
            lemma_recorder_text_in(d, opts, toks, ri, "RI1"@, v);
        }
        if let Some(v) = g.media_type {
            lemma_recorder_text_in(d, opts, toks, ri, "RMT"@, v);
        }
    }
}

} // verus!
