//! TMATS ASCII serialization: a document is flattened into its
//! `(code-name, value)` attributes in canonical group order (G, T, R, M, P,
//! D, B, S, C, then unknown attributes), which are written as
//! `code-name:value;` with an optional line ending after each.
use vstd::prelude::*;
use vstd::utf8::*;
use crate::error::{SerializeError, opt_text};
use crate::model::{TmatsDocument, TmatsDocumentV, RawAttribute, RawAttributeV, TmatsDate, GGroup, GGroupV, TGroup, TGroupV, RGroup, RGroupV, RChannel, RChannelV, MGroup, MGroupV, PGroup, PGroupV, DGroup, DGroupV, BGroup, BGroupV, SGroup, SGroupV, CGroup, CGroupV, DataSourceDecl, DataSourceDeclV};
use crate::ordered_map::OrderedMap;
use crate::text::{push_str, push_char, push_dec, dec, dec_string, upper, upper_chars, chars_of, chars_eq_str, string_of};
use crate::parse::{code_name_spec, first_key_spec, parse_code_name, first_key};
use crate::types_bridge::GroupPrefix;

verus! {

// ─── Options ────────────────────────────────────────────────────────────────

/// Output layout.
#[derive(Debug, Clone, Copy, PartialEq, Eq, Structural)]
pub enum OutputFormat {
    /// No whitespace between attributes.
    Compact,
    /// Line breaks between attributes for readability.
    Pretty,
}

/// Line ending style for pretty output.
#[derive(Debug, Clone, Copy, PartialEq, Eq, Structural)]
pub enum LineEnding {
    Lf,
    CrLf,
}

/// Controls serializer output format.
#[derive(Debug, Clone)]
pub struct SerializeOptions {
    /// Output format style.
    pub format: OutputFormat,
    /// Line ending style for pretty output.
    pub line_ending: LineEnding,
    /// Whether to emit comment attributes.
    pub emit_comments: bool,
    /// Whether to write keyword values in canonical (upper) case.
    pub canonical_keyword_case: bool,
}

impl Default for SerializeOptions {
    fn default() -> (r: Self)
        ensures
            r.format == OutputFormat::Pretty,
            r.line_ending == LineEnding::Lf,
            r.emit_comments,
            !r.canonical_keyword_case,
    {
        SerializeOptions {
            format: OutputFormat::Pretty,
            line_ending: LineEnding::Lf,
            emit_comments: true,
            canonical_keyword_case: false,
        }
    }
}

/// What follows each attribute: a line ending in pretty output, nothing in compact output.
pub open spec fn separator(opts: SerializeOptions) -> Seq<char> {
    if opts.format == OutputFormat::Pretty {
        match opts.line_ending {
            LineEnding::Lf => seq!['\n'],
            LineEnding::CrLf => seq!['\r', '\n'],
        }
    } else {
        Seq::empty()
    }
}

// ─── Attributes ─────────────────────────────────────────────────────────────

/// A sequence of `(code-name, value)` attributes.
pub type Pairs = Seq<(Seq<char>, Seq<char>)>;

pub open spec fn pair_views(v: Seq<(String, String)>) -> Pairs {
    v.map_values(|p: (String, String)| (p.0@, p.1@))
}

pub open spec fn put(acc: Pairs, c: Seq<char>, v: Seq<char>) -> Pairs {
    acc.push((c, v))
}

pub open spec fn put_opt(acc: Pairs, c: Seq<char>, o: Option<Seq<char>>) -> Pairs {
    match o {
        Some(v) => acc.push((c, v)),
        None => acc,
    }
}

pub open spec fn put_date(acc: Pairs, c: Seq<char>, o: Option<TmatsDate>) -> Pairs {
    match o {
        Some(d) => acc.push((c, d.spec_tmats_text())),
        None => acc,
    }
}

pub open spec fn put_u32(acc: Pairs, c: Seq<char>, o: Option<u32>) -> Pairs {
    match o {
        Some(n) => acc.push((c, dec(n as nat))),
        None => acc,
    }
}

pub open spec fn put_u16(acc: Pairs, c: Seq<char>, o: Option<u16>) -> Pairs {
    match o {
        Some(n) => acc.push((c, dec(n as nat))),
        None => acc,
    }
}

/// A TMATS boolean is written `T` or `F`.
pub open spec fn bool_text(b: bool) -> Seq<char> {
    if b {
        seq!['T']
    } else {
        seq!['F']
    }
}

pub open spec fn put_bool(acc: Pairs, c: Seq<char>, o: Option<bool>) -> Pairs {
    match o {
        Some(b) => acc.push((c, bool_text(b))),
        None => acc,
    }
}

/// The code-name of comment `i` (from 0) under `c`: `c` itself for the
/// first, then `c-2`, `c-3`, and so on, so that each reads back as a comment
/// of its own.
pub open spec fn comment_code(c: Seq<char>, i: nat) -> Seq<char> {
    if i == 0 {
        c
    } else {
        c + "-"@ + dec(i + 1)
    }
}

fn comment_code_string(c: &String, i: usize) -> (r: String)
    requires
        i < usize::MAX,
    ensures
        r@ == comment_code(c@, i as nat),
{
    let mut r = String::new();
    push_str(&mut r, c.as_str());
    if i > 0 {
        push_str(&mut r, "-");
        push_dec(&mut r, (i + 1) as u64);
    }
    r
}

/// One attribute per text of `cs`, the first under `c`, the others under
/// their numbered code-names.
pub open spec fn put_texts(acc: Pairs, c: Seq<char>, cs: Seq<Seq<char>>) -> Pairs
    decreases cs.len(),
{
    if cs.len() == 0 {
        acc
    } else {
        put_texts(acc, c, cs.drop_last()).push((comment_code(c, (cs.len() - 1) as nat), cs.last()))
    }
}

/// Comment attributes, when comments are emitted.
pub open spec fn put_comments(acc: Pairs, c: Seq<char>, cs: Seq<Seq<char>>, emit: bool) -> Pairs {
    if emit {
        put_texts(acc, c, cs)
    } else {
        acc
    }
}

/// Raw attributes, as they were read.
pub open spec fn put_extra(acc: Pairs, ex: Seq<RawAttributeV>) -> Pairs
    decreases ex.len(),
{
    if ex.len() == 0 {
        acc
    } else {
        put_extra(acc, ex.drop_last()).push((ex.last().raw_code_name, ex.last().value))
    }
}

fn emit(pairs: &mut Vec<(String, String)>, c: String, v: String)
    ensures
        pair_views(final(pairs)@) == pair_views(old(pairs)@).push((c@, v@)),
{
    let ghost pv = pair_views(pairs@);
    let ghost cv = (c@, v@);
    pairs.push((c, v));
    assert(pair_views(pairs@) =~= pv.push(cv));
}

fn emit_opt(pairs: &mut Vec<(String, String)>, c: &String, o: &Option<String>)
    ensures
        pair_views(final(pairs)@) == put_opt(pair_views(old(pairs)@), c@, opt_text(*o)),
{
    if let Some(v) = o {
        emit(pairs, c.clone(), v.clone());
    }
}

fn emit_date(pairs: &mut Vec<(String, String)>, c: &String, o: &Option<TmatsDate>)
    ensures
        pair_views(final(pairs)@) == put_date(pair_views(old(pairs)@), c@, *o),
{
    if let Some(d) = o {
        emit(pairs, c.clone(), d.to_string());
    }
}

fn emit_u32(pairs: &mut Vec<(String, String)>, c: &String, o: &Option<u32>)
    ensures
        pair_views(final(pairs)@) == put_u32(pair_views(old(pairs)@), c@, *o),
{
    if let Some(n) = o {
        emit(pairs, c.clone(), dec_string(*n as u64));
    }
}

fn emit_u16(pairs: &mut Vec<(String, String)>, c: &String, o: &Option<u16>)
    ensures
        pair_views(final(pairs)@) == put_u16(pair_views(old(pairs)@), c@, *o),
{
    if let Some(n) = o {
        emit(pairs, c.clone(), dec_string(*n as u64));
    }
}

fn bool_string(b: bool) -> (r: String)
    ensures
        r@ == bool_text(b),
{
    let mut s = String::new();
    push_char(&mut s, if b { 'T' } else { 'F' });
    assert(s@ =~= bool_text(b));
    s
}

fn emit_bool(pairs: &mut Vec<(String, String)>, c: &String, o: &Option<bool>)
    ensures
        pair_views(final(pairs)@) == put_bool(pair_views(old(pairs)@), c@, *o),
{
    if let Some(b) = o {
        emit(pairs, c.clone(), bool_string(*b));
    }
}

fn emit_comment_list(pairs: &mut Vec<(String, String)>, c: &String, cs: &Vec<String>, emit_comments: bool)
    ensures
        pair_views(final(pairs)@) == put_comments(pair_views(old(pairs)@), c@, crate::error::texts(cs@), emit_comments),
{
    if !emit_comments {
        return;
    }
    let ghost acc = pair_views(pairs@);
    let ghost ts = crate::error::texts(cs@);
    let n = cs.len();
    for i in 0..n
        invariant
            n == cs@.len(),
            ts == crate::error::texts(cs@),
            pair_views(pairs@) == put_texts(acc, c@, ts.take(i as int)),
    {
        assert(ts.take(i + 1).drop_last() =~= ts.take(i as int));
        emit(pairs, comment_code_string(c, i), cs[i].clone());
    }
    assert(ts.take(n as int) =~= ts);
}

fn emit_extra(pairs: &mut Vec<(String, String)>, ex: &Vec<RawAttribute>)
    ensures
        pair_views(final(pairs)@) == put_extra(pair_views(old(pairs)@), crate::error::views(ex@)),
{
    let ghost acc = pair_views(pairs@);
    let ghost xs = crate::error::views(ex@);
    let n = ex.len();
    for i in 0..n
        invariant
            n == ex@.len(),
            xs == crate::error::views(ex@),
            pair_views(pairs@) == put_extra(acc, xs.take(i as int)),
    {
        assert(xs.take(i + 1).drop_last() =~= xs.take(i as int));
        emit(pairs, ex[i].raw_code_name.clone(), ex[i].value.clone());
    }
    assert(xs.take(n as int) =~= xs);
}

/// `p` followed by the decimal digits of `idx`.
fn prefix(p: &str, idx: u32) -> (r: String)
    ensures
        r@ == p@ + dec(idx as nat),
{
    let mut s = String::new();
    push_str(&mut s, p);
    push_dec(&mut s, idx as u64);
    s
}

/// `pfx` followed by `suffix`.
fn code(pfx: &String, suffix: &str) -> (r: String)
    ensures
        r@ == pfx@ + suffix@,
{
    let mut s = pfx.clone();
    push_str(&mut s, suffix);
    s
}

/// `pfx`, then `mid`, then the decimal digits of `idx`.
fn code_idx(pfx: &String, mid: &str, idx: u32) -> (r: String)
    ensures
        r@ == pfx@ + mid@ + dec(idx as nat),
{
    let mut s = code(pfx, mid);
    push_dec(&mut s, idx as u64);
    s
}

// ─── G group ────────────────────────────────────────────────────────────────

/// The attributes of a data source declaration with index `idx`.
pub open spec fn ds_pairs(acc: Pairs, idx: u32, ds: DataSourceDeclV) -> Pairs {
    let a = put_opt(acc, "G\\DSI-"@ + dec(idx as nat), ds.data_source_id);
    let a = put_opt(a, "G\\DST-"@ + dec(idx as nat), ds.data_source_type);
    let a = put_opt(a, "G\\DSC-"@ + dec(idx as nat), ds.classification);
    put_extra(a, ds.extra)
}

pub open spec fn ds_all(acc: Pairs, m: Seq<(u32, DataSourceDeclV)>) -> Pairs
    decreases m.len(),
{
    if m.len() == 0 {
        acc
    } else {
        ds_pairs(ds_all(acc, m.drop_last()), m.last().0, m.last().1)
    }
}

/// The attributes of the G group, appended to `acc`; the `G\DSI\N` and
/// `G\POC\N` counters are the numbers of entries.
pub open spec fn g_pairs(acc: Pairs, g: GGroupV, emit_comments: bool) -> Pairs {
    let a = put_opt(acc, "G\\PN"@, g.program_name);
    let a = put_opt(a, "G\\106"@, g.irig106_version);
    let a = put_date(a, "G\\OD"@, g.origination_date);
    let a = put_opt(a, "G\\RN"@, g.revision_number);
    let a = put_date(a, "G\\RD"@, g.revision_date);
    let a = put_opt(a, "G\\UN"@, g.update_number);
    let a = put_date(a, "G\\UD"@, g.update_date);
    let a = put_opt(a, "G\\TN"@, g.test_number);
    let a = if g.data_sources.len() > 0 {
        ds_all(put(a, "G\\DSI\\N"@, dec(g.data_sources.len())), g.data_sources)
    } else {
        a
    };
    let a = if g.points_of_contact.len() > 0 {
        put(a, "G\\POC\\N"@, dec(g.points_of_contact.len()))
    } else {
        a
    };
    let a = put_comments(a, "G\\COM"@, g.comments, emit_comments);
    put_extra(a, g.extra)
}

fn emit_ds(pairs: &mut Vec<(String, String)>, idx: u32, ds: &DataSourceDecl)
    ensures
        pair_views(final(pairs)@) == ds_pairs(pair_views(old(pairs)@), idx, ds@),
{
    emit_opt(pairs, &prefix("G\\DSI-", idx), &ds.data_source_id);
    emit_opt(pairs, &prefix("G\\DST-", idx), &ds.data_source_type);
    emit_opt(pairs, &prefix("G\\DSC-", idx), &ds.classification);
    emit_extra(pairs, &ds.extra);
}

fn emit_g_group(pairs: &mut Vec<(String, String)>, g: &GGroup, emit_comments: bool)
    ensures
        pair_views(final(pairs)@) == g_pairs(pair_views(old(pairs)@), g@, emit_comments),
{
    emit_opt(pairs, &owned_str("G\\PN"), &g.program_name);
    emit_opt(pairs, &owned_str("G\\106"), &g.irig106_version);
    emit_date(pairs, &owned_str("G\\OD"), &g.origination_date);
    emit_opt(pairs, &owned_str("G\\RN"), &g.revision_number);
    emit_date(pairs, &owned_str("G\\RD"), &g.revision_date);
    emit_opt(pairs, &owned_str("G\\UN"), &g.update_number);
    emit_date(pairs, &owned_str("G\\UD"), &g.update_date);
    emit_opt(pairs, &owned_str("G\\TN"), &g.test_number);
    if g.data_sources.len() > 0 {
        emit(pairs, owned_str("G\\DSI\\N"), dec_string(g.data_sources.len() as u64));
        let ghost acc = pair_views(pairs@);
        let n = g.data_sources.len();
        for i in 0..n
            invariant
                n == g.data_sources@.len(),
                pair_views(pairs@) == ds_all(acc, g.data_sources@.take(i as int)),
        {
            assert(g.data_sources@.take(i + 1).drop_last() =~= g.data_sources@.take(i as int));
            emit_ds(pairs, g.data_sources.key_at(i), g.data_sources.value_at(i));
        }
        assert(g.data_sources@.take(n as int) =~= g.data_sources@);
    }
    if g.points_of_contact.len() > 0 {
        emit(pairs, owned_str("G\\POC\\N"), dec_string(g.points_of_contact.len() as u64));
    }
    emit_comment_list(pairs, &owned_str("G\\COM"), &g.comments, emit_comments);
    emit_extra(pairs, &g.extra);
}

fn owned_str(s: &str) -> (r: String)
    ensures
        r@ == s@,
{
    let mut r = String::new();
    push_str(&mut r, s);
    r
}

// ─── R channels ─────────────────────────────────────────────────────────────

/// The attributes of channel `ci` of an R group with prefix `pfx`.
pub open spec fn channel_pairs(acc: Pairs, pfx: Seq<char>, ci: u32, ch: RChannelV) -> Pairs {
    let a = put_u16(acc, pfx + "\\TK1-"@ + dec(ci as nat), ch.channel_id);
    let a = put_opt(a, pfx + "\\CDT-"@ + dec(ci as nat), ch.data_type);
    let a = put_opt(a, pfx + "\\DSI-"@ + dec(ci as nat), ch.data_source_id);
    let a = put_opt(a, pfx + "\\CDLN-"@ + dec(ci as nat), ch.data_link_name);
    let a = put_opt(a, pfx + "\\PDP-"@ + dec(ci as nat), ch.data_packing_option);
    let a = put_bool(a, pfx + "\\CHE-"@ + dec(ci as nat), ch.channel_enabled);
    put_extra(a, ch.extra)
}

pub open spec fn put_channels(acc: Pairs, pfx: Seq<char>, m: Seq<(u32, RChannelV)>) -> Pairs
    decreases m.len(),
{
    if m.len() == 0 {
        acc
    } else {
        channel_pairs(put_channels(acc, pfx, m.drop_last()), pfx, m.last().0, m.last().1)
    }
}

fn emit_channel(pairs: &mut Vec<(String, String)>, pfx: &String, ci: u32, ch: &RChannel)
    ensures
        pair_views(final(pairs)@) == channel_pairs(pair_views(old(pairs)@), pfx@, ci, ch@),
{
    emit_u16(pairs, &code_idx(pfx, "\\TK1-", ci), &ch.channel_id);
    emit_opt(pairs, &code_idx(pfx, "\\CDT-", ci), &ch.data_type);
    emit_opt(pairs, &code_idx(pfx, "\\DSI-", ci), &ch.data_source_id);
    emit_opt(pairs, &code_idx(pfx, "\\CDLN-", ci), &ch.data_link_name);
    emit_opt(pairs, &code_idx(pfx, "\\PDP-", ci), &ch.data_packing_option);
    emit_bool(pairs, &code_idx(pfx, "\\CHE-", ci), &ch.channel_enabled);
    emit_extra(pairs, &ch.extra);
}

fn emit_channels(pairs: &mut Vec<(String, String)>, pfx: &String, m: &OrderedMap<RChannel>)
    ensures
        pair_views(final(pairs)@) == put_channels(pair_views(old(pairs)@), pfx@, m@),
{
    let ghost acc = pair_views(pairs@);
    let n = m.len();
    for i in 0..n
        invariant
            n == m@.len(),
            pair_views(pairs@) == put_channels(acc, pfx@, m@.take(i as int)),
    {
        assert(m@.take(i + 1).drop_last() =~= m@.take(i as int));
        emit_channel(pairs, pfx, m.key_at(i), m.value_at(i));
    }
    assert(m@.take(n as int) =~= m@);
}

// ─── Repeated groups ────────────────────────────────────────────────────────

/// The attributes of a T group with occurrence `idx`, appended to `acc`.
pub open spec fn t_pairs(acc: Pairs, idx: u32, g: TGroupV, emit_comments: bool) -> Pairs {
    let pfx = "T-"@ + dec(idx as nat);
    let a = acc;
    let a = put_opt(a, pfx + "\\ID"@, g.transmitter_id);
    let a = put_opt(a, pfx + "\\CF"@, g.carrier_frequency_mhz);
    let a = put_opt(a, pfx + "\\MT"@, g.modulation_type);
    let a = put_opt(a, pfx + "\\PW"@, g.power_watts);
    let a = put_opt(a, pfx + "\\AT"@, g.antenna_type);
    let a = put_opt(a, pfx + "\\AP"@, g.antenna_polarization);
    let a = put_comments(a, pfx + "\\COM"@, g.comments, emit_comments);
    put_extra(a, g.extra)
}

fn emit_t_group(pairs: &mut Vec<(String, String)>, idx: u32, g: &TGroup, emit_comments: bool)
    ensures
        pair_views(final(pairs)@) == t_pairs(pair_views(old(pairs)@), idx, g@, emit_comments),
{
    let pfx = prefix("T-", idx);
    emit_opt(pairs, &code(&pfx, "\\ID"), &g.transmitter_id);
    emit_opt(pairs, &code(&pfx, "\\CF"), &g.carrier_frequency_mhz);
    emit_opt(pairs, &code(&pfx, "\\MT"), &g.modulation_type);
    emit_opt(pairs, &code(&pfx, "\\PW"), &g.power_watts);
    emit_opt(pairs, &code(&pfx, "\\AT"), &g.antenna_type);
    emit_opt(pairs, &code(&pfx, "\\AP"), &g.antenna_polarization);
    emit_comment_list(pairs, &code(&pfx, "\\COM"), &g.comments, emit_comments);
    emit_extra(pairs, &g.extra);
}

/// The attributes of all T groups, in map order, appended to `acc`.
pub open spec fn t_groups(acc: Pairs, m: Seq<(u32, TGroupV)>, emit_comments: bool) -> Pairs
    decreases m.len(),
{
    if m.len() == 0 {
        acc
    } else {
        t_pairs(t_groups(acc, m.drop_last(), emit_comments), m.last().0, m.last().1, emit_comments)
    }
}

fn emit_t_groups(pairs: &mut Vec<(String, String)>, m: &OrderedMap<TGroup>, emit_comments: bool)
    ensures
        pair_views(final(pairs)@) == t_groups(pair_views(old(pairs)@), m@, emit_comments),
{
    let ghost acc = pair_views(pairs@);
    let n = m.len();
    for i in 0..n
        invariant
            n == m@.len(),
            pair_views(pairs@) == t_groups(acc, m@.take(i as int), emit_comments),
    {
        assert(m@.take(i + 1).drop_last() =~= m@.take(i as int));
        emit_t_group(pairs, m.key_at(i), m.value_at(i), emit_comments);
    }
    assert(m@.take(n as int) =~= m@);
}

/// The attributes of a R group with occurrence `idx`, appended to `acc`.
pub open spec fn r_pairs(acc: Pairs, idx: u32, g: RGroupV, emit_comments: bool) -> Pairs {
    let pfx = "R-"@ + dec(idx as nat);
    let a = acc;
    let a = put_opt(a, pfx + "\\ID"@, g.recorder_id);
    let a = put_opt(a, pfx + "\\RI1"@, g.recorder_description);
    let a = put_opt(a, pfx + "\\RMT"@, g.media_type);
    let a = if g.channels.len() > 0 { put(a, pfx + "\\N"@, dec(g.channels.len())) } else { a };
    let a = put_channels(a, pfx, g.channels);
    let a = put_bool(a, pfx + "\\IDX\\E"@, g.index_enabled);
    let a = put_bool(a, pfx + "\\EV\\E"@, g.events_enabled);
    let a = put_comments(a, pfx + "\\COM"@, g.comments, emit_comments);
    put_extra(a, g.extra)
}

fn emit_r_group(pairs: &mut Vec<(String, String)>, idx: u32, g: &RGroup, emit_comments: bool)
    ensures
        pair_views(final(pairs)@) == r_pairs(pair_views(old(pairs)@), idx, g@, emit_comments),
{
    let pfx = prefix("R-", idx);
    emit_opt(pairs, &code(&pfx, "\\ID"), &g.recorder_id);
    emit_opt(pairs, &code(&pfx, "\\RI1"), &g.recorder_description);
    emit_opt(pairs, &code(&pfx, "\\RMT"), &g.media_type);
    if g.channels.len() > 0 {
        emit(pairs, code(&pfx, "\\N"), dec_string(g.channels.len() as u64));
    }
    emit_channels(pairs, &pfx, &g.channels);
    emit_bool(pairs, &code(&pfx, "\\IDX\\E"), &g.index_enabled);
    emit_bool(pairs, &code(&pfx, "\\EV\\E"), &g.events_enabled);
    emit_comment_list(pairs, &code(&pfx, "\\COM"), &g.comments, emit_comments);
    emit_extra(pairs, &g.extra);
}

/// The attributes of all R groups, in map order, appended to `acc`.
pub open spec fn r_groups(acc: Pairs, m: Seq<(u32, RGroupV)>, emit_comments: bool) -> Pairs
    decreases m.len(),
{
    if m.len() == 0 {
        acc
    } else {
        r_pairs(r_groups(acc, m.drop_last(), emit_comments), m.last().0, m.last().1, emit_comments)
    }
}

fn emit_r_groups(pairs: &mut Vec<(String, String)>, m: &OrderedMap<RGroup>, emit_comments: bool)
    ensures
        pair_views(final(pairs)@) == r_groups(pair_views(old(pairs)@), m@, emit_comments),
{
    let ghost acc = pair_views(pairs@);
    let n = m.len();
    for i in 0..n
        invariant
            n == m@.len(),
            pair_views(pairs@) == r_groups(acc, m@.take(i as int), emit_comments),
    {
        assert(m@.take(i + 1).drop_last() =~= m@.take(i as int));
        emit_r_group(pairs, m.key_at(i), m.value_at(i), emit_comments);
    }
    assert(m@.take(n as int) =~= m@);
}

/// The attributes of a M group with occurrence `idx`, appended to `acc`.
pub open spec fn m_pairs(acc: Pairs, idx: u32, g: MGroupV, emit_comments: bool) -> Pairs {
    let pfx = "M-"@ + dec(idx as nat);
    let a = acc;
    let a = put_opt(a, pfx + "\\BSG"@, g.baseband_signal_type);
    let a = put_opt(a, pfx + "\\MS"@, g.modulation_sense);
    let a = put_comments(a, pfx + "\\COM"@, g.comments, emit_comments);
    put_extra(a, g.extra)
}

fn emit_m_group(pairs: &mut Vec<(String, String)>, idx: u32, g: &MGroup, emit_comments: bool)
    ensures
        pair_views(final(pairs)@) == m_pairs(pair_views(old(pairs)@), idx, g@, emit_comments),
{
    let pfx = prefix("M-", idx);
    emit_opt(pairs, &code(&pfx, "\\BSG"), &g.baseband_signal_type);
    emit_opt(pairs, &code(&pfx, "\\MS"), &g.modulation_sense);
    emit_comment_list(pairs, &code(&pfx, "\\COM"), &g.comments, emit_comments);
    emit_extra(pairs, &g.extra);
}

/// The attributes of all M groups, in map order, appended to `acc`.
pub open spec fn m_groups(acc: Pairs, m: Seq<(u32, MGroupV)>, emit_comments: bool) -> Pairs
    decreases m.len(),
{
    if m.len() == 0 {
        acc
    } else {
        m_pairs(m_groups(acc, m.drop_last(), emit_comments), m.last().0, m.last().1, emit_comments)
    }
}

fn emit_m_groups(pairs: &mut Vec<(String, String)>, m: &OrderedMap<MGroup>, emit_comments: bool)
    ensures
        pair_views(final(pairs)@) == m_groups(pair_views(old(pairs)@), m@, emit_comments),
{
    let ghost acc = pair_views(pairs@);
    let n = m.len();
    for i in 0..n
        invariant
            n == m@.len(),
            pair_views(pairs@) == m_groups(acc, m@.take(i as int), emit_comments),
    {
        assert(m@.take(i + 1).drop_last() =~= m@.take(i as int));
        emit_m_group(pairs, m.key_at(i), m.value_at(i), emit_comments);
    }
    assert(m@.take(n as int) =~= m@);
}

/// The attributes of a P group with occurrence `idx`, appended to `acc`.
pub open spec fn p_pairs(acc: Pairs, idx: u32, g: PGroupV, emit_comments: bool) -> Pairs {
    let pfx = "P-"@ + dec(idx as nat);
    let a = acc;
    let a = put_opt(a, pfx + "\\DLN"@, g.data_link_name);
    let a = put_opt(a, pfx + "\\D1"@, g.bit_rate);
    let a = put_opt(a, pfx + "\\D2"@, g.encoding);
    let a = put_opt(a, pfx + "\\D3"@, g.polarity);
    let a = put_bool(a, pfx + "\\D4"@, g.auto_polarity_correction);
    let a = put_u32(a, pfx + "\\MF\\N"@, g.num_minor_frames);
    let a = put_u32(a, pfx + "\\F1"@, g.num_words_per_frame);
    let a = put_u32(a, pfx + "\\F2"@, g.num_bits_per_word);
    let a = put_opt(a, pfx + "\\F3"@, g.sync_pattern);
    let a = put_u32(a, pfx + "\\F3\\L"@, g.sync_pattern_length);
    let a = put_comments(a, pfx + "\\COM"@, g.comments, emit_comments);
    put_extra(a, g.extra)
}

fn emit_p_group(pairs: &mut Vec<(String, String)>, idx: u32, g: &PGroup, emit_comments: bool)
    ensures
        pair_views(final(pairs)@) == p_pairs(pair_views(old(pairs)@), idx, g@, emit_comments),
{
    let pfx = prefix("P-", idx);
    emit_opt(pairs, &code(&pfx, "\\DLN"), &g.data_link_name);
    emit_opt(pairs, &code(&pfx, "\\D1"), &g.bit_rate);
    emit_opt(pairs, &code(&pfx, "\\D2"), &g.encoding);
    emit_opt(pairs, &code(&pfx, "\\D3"), &g.polarity);
    emit_bool(pairs, &code(&pfx, "\\D4"), &g.auto_polarity_correction);
    emit_u32(pairs, &code(&pfx, "\\MF\\N"), &g.num_minor_frames);
    emit_u32(pairs, &code(&pfx, "\\F1"), &g.num_words_per_frame);
    emit_u32(pairs, &code(&pfx, "\\F2"), &g.num_bits_per_word);
    emit_opt(pairs, &code(&pfx, "\\F3"), &g.sync_pattern);
    emit_u32(pairs, &code(&pfx, "\\F3\\L"), &g.sync_pattern_length);
    emit_comment_list(pairs, &code(&pfx, "\\COM"), &g.comments, emit_comments);
    emit_extra(pairs, &g.extra);
}

/// The attributes of all P groups, in map order, appended to `acc`.
pub open spec fn p_groups(acc: Pairs, m: Seq<(u32, PGroupV)>, emit_comments: bool) -> Pairs
    decreases m.len(),
{
    if m.len() == 0 {
        acc
    } else {
        p_pairs(p_groups(acc, m.drop_last(), emit_comments), m.last().0, m.last().1, emit_comments)
    }
}

fn emit_p_groups(pairs: &mut Vec<(String, String)>, m: &OrderedMap<PGroup>, emit_comments: bool)
    ensures
        pair_views(final(pairs)@) == p_groups(pair_views(old(pairs)@), m@, emit_comments),
{
    let ghost acc = pair_views(pairs@);
    let n = m.len();
    for i in 0..n
        invariant
            n == m@.len(),
            pair_views(pairs@) == p_groups(acc, m@.take(i as int), emit_comments),
    {
        assert(m@.take(i + 1).drop_last() =~= m@.take(i as int));
        emit_p_group(pairs, m.key_at(i), m.value_at(i), emit_comments);
    }
    assert(m@.take(n as int) =~= m@);
}

/// The attributes of a D group with occurrence `idx`, appended to `acc`.
pub open spec fn d_pairs(acc: Pairs, idx: u32, g: DGroupV, emit_comments: bool) -> Pairs {
    let pfx = "D-"@ + dec(idx as nat);
    let a = acc;
    let a = put_opt(a, pfx + "\\MLN"@, g.measurement_list_name);
    let a = put_opt(a, pfx + "\\DLN"@, g.data_link_name);
    let a = if g.measurements.len() > 0 { put(a, pfx + "\\MN\\N"@, dec(g.measurements.len())) } else { a };
    let a = put_comments(a, pfx + "\\COM"@, g.comments, emit_comments);
    put_extra(a, g.extra)
}

fn emit_d_group(pairs: &mut Vec<(String, String)>, idx: u32, g: &DGroup, emit_comments: bool)
    ensures
        pair_views(final(pairs)@) == d_pairs(pair_views(old(pairs)@), idx, g@, emit_comments),
{
    let pfx = prefix("D-", idx);
    emit_opt(pairs, &code(&pfx, "\\MLN"), &g.measurement_list_name);
    emit_opt(pairs, &code(&pfx, "\\DLN"), &g.data_link_name);
    if g.measurements.len() > 0 {
        emit(pairs, code(&pfx, "\\MN\\N"), dec_string(g.measurements.len() as u64));
    }
    emit_comment_list(pairs, &code(&pfx, "\\COM"), &g.comments, emit_comments);
    emit_extra(pairs, &g.extra);
}

/// The attributes of all D groups, in map order, appended to `acc`.
pub open spec fn d_groups(acc: Pairs, m: Seq<(u32, DGroupV)>, emit_comments: bool) -> Pairs
    decreases m.len(),
{
    if m.len() == 0 {
        acc
    } else {
        d_pairs(d_groups(acc, m.drop_last(), emit_comments), m.last().0, m.last().1, emit_comments)
    }
}

fn emit_d_groups(pairs: &mut Vec<(String, String)>, m: &OrderedMap<DGroup>, emit_comments: bool)
    ensures
        pair_views(final(pairs)@) == d_groups(pair_views(old(pairs)@), m@, emit_comments),
{
    let ghost acc = pair_views(pairs@);
    let n = m.len();
    for i in 0..n
        invariant
            n == m@.len(),
            pair_views(pairs@) == d_groups(acc, m@.take(i as int), emit_comments),
    {
        assert(m@.take(i + 1).drop_last() =~= m@.take(i as int));
        emit_d_group(pairs, m.key_at(i), m.value_at(i), emit_comments);
    }
    assert(m@.take(n as int) =~= m@);
}

/// The attributes of a B group with occurrence `idx`, appended to `acc`.
pub open spec fn b_pairs(acc: Pairs, idx: u32, g: BGroupV, emit_comments: bool) -> Pairs {
    let pfx = "B-"@ + dec(idx as nat);
    let a = acc;
    let a = put_opt(a, pfx + "\\DLN"@, g.data_link_name);
    let a = put_opt(a, pfx + "\\BT"@, g.bus_type);
    let a = put_comments(a, pfx + "\\COM"@, g.comments, emit_comments);
    put_extra(a, g.extra)
}

fn emit_b_group(pairs: &mut Vec<(String, String)>, idx: u32, g: &BGroup, emit_comments: bool)
    ensures
        pair_views(final(pairs)@) == b_pairs(pair_views(old(pairs)@), idx, g@, emit_comments),
{
    let pfx = prefix("B-", idx);
    emit_opt(pairs, &code(&pfx, "\\DLN"), &g.data_link_name);
    emit_opt(pairs, &code(&pfx, "\\BT"), &g.bus_type);
    emit_comment_list(pairs, &code(&pfx, "\\COM"), &g.comments, emit_comments);
    emit_extra(pairs, &g.extra);
}

/// The attributes of all B groups, in map order, appended to `acc`.
pub open spec fn b_groups(acc: Pairs, m: Seq<(u32, BGroupV)>, emit_comments: bool) -> Pairs
    decreases m.len(),
{
    if m.len() == 0 {
        acc
    } else {
        b_pairs(b_groups(acc, m.drop_last(), emit_comments), m.last().0, m.last().1, emit_comments)
    }
}

fn emit_b_groups(pairs: &mut Vec<(String, String)>, m: &OrderedMap<BGroup>, emit_comments: bool)
    ensures
        pair_views(final(pairs)@) == b_groups(pair_views(old(pairs)@), m@, emit_comments),
{
    let ghost acc = pair_views(pairs@);
    let n = m.len();
    for i in 0..n
        invariant
            n == m@.len(),
            pair_views(pairs@) == b_groups(acc, m@.take(i as int), emit_comments),
    {
        assert(m@.take(i + 1).drop_last() =~= m@.take(i as int));
        emit_b_group(pairs, m.key_at(i), m.value_at(i), emit_comments);
    }
    assert(m@.take(n as int) =~= m@);
}

/// The attributes of a S group with occurrence `idx`, appended to `acc`.
pub open spec fn s_pairs(acc: Pairs, idx: u32, g: SGroupV, emit_comments: bool) -> Pairs {
    let pfx = "S-"@ + dec(idx as nat);
    let a = acc;
    let a = put_opt(a, pfx + "\\DLN"@, g.data_link_name);
    let a = put_comments(a, pfx + "\\COM"@, g.comments, emit_comments);
    put_extra(a, g.extra)
}

fn emit_s_group(pairs: &mut Vec<(String, String)>, idx: u32, g: &SGroup, emit_comments: bool)
    ensures
        pair_views(final(pairs)@) == s_pairs(pair_views(old(pairs)@), idx, g@, emit_comments),
{
    let pfx = prefix("S-", idx);
    emit_opt(pairs, &code(&pfx, "\\DLN"), &g.data_link_name);
    emit_comment_list(pairs, &code(&pfx, "\\COM"), &g.comments, emit_comments);
    emit_extra(pairs, &g.extra);
}

/// The attributes of all S groups, in map order, appended to `acc`.
pub open spec fn s_groups(acc: Pairs, m: Seq<(u32, SGroupV)>, emit_comments: bool) -> Pairs
    decreases m.len(),
{
    if m.len() == 0 {
        acc
    } else {
        s_pairs(s_groups(acc, m.drop_last(), emit_comments), m.last().0, m.last().1, emit_comments)
    }
}

fn emit_s_groups(pairs: &mut Vec<(String, String)>, m: &OrderedMap<SGroup>, emit_comments: bool)
    ensures
        pair_views(final(pairs)@) == s_groups(pair_views(old(pairs)@), m@, emit_comments),
{
    let ghost acc = pair_views(pairs@);
    let n = m.len();
    for i in 0..n
        invariant
            n == m@.len(),
            pair_views(pairs@) == s_groups(acc, m@.take(i as int), emit_comments),
    {
        assert(m@.take(i + 1).drop_last() =~= m@.take(i as int));
        emit_s_group(pairs, m.key_at(i), m.value_at(i), emit_comments);
    }
    assert(m@.take(n as int) =~= m@);
}

/// The attributes of a C group with occurrence `idx`, appended to `acc`.
pub open spec fn c_pairs(acc: Pairs, idx: u32, g: CGroupV, emit_comments: bool) -> Pairs {
    let pfx = "C-"@ + dec(idx as nat);
    let a = acc;
    let a = put_opt(a, pfx + "\\DCN"@, g.measurement_name);
    let a = put_opt(a, pfx + "\\DCT"@, g.conversion_type);
    let a = put_opt(a, pfx + "\\EU"@, g.eu_units);
    let a = put_comments(a, pfx + "\\COM"@, g.comments, emit_comments);
    put_extra(a, g.extra)
}

fn emit_c_group(pairs: &mut Vec<(String, String)>, idx: u32, g: &CGroup, emit_comments: bool)
    ensures
        pair_views(final(pairs)@) == c_pairs(pair_views(old(pairs)@), idx, g@, emit_comments),
{
    let pfx = prefix("C-", idx);
    emit_opt(pairs, &code(&pfx, "\\DCN"), &g.measurement_name);
    emit_opt(pairs, &code(&pfx, "\\DCT"), &g.conversion_type);
    emit_opt(pairs, &code(&pfx, "\\EU"), &g.eu_units);
    emit_comment_list(pairs, &code(&pfx, "\\COM"), &g.comments, emit_comments);
    emit_extra(pairs, &g.extra);
}

/// The attributes of all C groups, in map order, appended to `acc`.
pub open spec fn c_groups(acc: Pairs, m: Seq<(u32, CGroupV)>, emit_comments: bool) -> Pairs
    decreases m.len(),
{
    if m.len() == 0 {
        acc
    } else {
        c_pairs(c_groups(acc, m.drop_last(), emit_comments), m.last().0, m.last().1, emit_comments)
    }
}

fn emit_c_groups(pairs: &mut Vec<(String, String)>, m: &OrderedMap<CGroup>, emit_comments: bool)
    ensures
        pair_views(final(pairs)@) == c_groups(pair_views(old(pairs)@), m@, emit_comments),
{
    let ghost acc = pair_views(pairs@);
    let n = m.len();
    for i in 0..n
        invariant
            n == m@.len(),
            pair_views(pairs@) == c_groups(acc, m@.take(i as int), emit_comments),
    {
        assert(m@.take(i + 1).drop_last() =~= m@.take(i as int));
        emit_c_group(pairs, m.key_at(i), m.value_at(i), emit_comments);
    }
    assert(m@.take(n as int) =~= m@);
}

// ─── The document ───────────────────────────────────────────────────────────

/// All attributes of a document, in canonical order.
pub open spec fn doc_pairs(d: TmatsDocumentV, emit_comments: bool) -> Pairs {
    let a = g_pairs(Seq::empty(), d.general, emit_comments);
    let a = t_groups(a, d.transmission, emit_comments);
    let a = r_groups(a, d.recorders, emit_comments);
    let a = m_groups(a, d.multiplex, emit_comments);
    let a = p_groups(a, d.pcm_formats, emit_comments);
    let a = d_groups(a, d.pcm_measurements, emit_comments);
    let a = b_groups(a, d.bus_data, emit_comments);
    let a = s_groups(a, d.message_data, emit_comments);
    let a = c_groups(a, d.data_conversion, emit_comments);
    put_extra(a, d.unknown)
}

/// The attributes of a document, as `(code-name, value)` strings in canonical order.
pub fn attribute_pairs(doc: &TmatsDocument, emit_comments: bool) -> (r: Vec<(String, String)>)
    ensures
        pair_views(r@) == doc_pairs(doc@, emit_comments),
{
    let mut pairs: Vec<(String, String)> = Vec::new();
    assert(pair_views(pairs@) =~= Seq::<(Seq<char>, Seq<char>)>::empty());
    emit_g_group(&mut pairs, &doc.general, emit_comments);
    emit_t_groups(&mut pairs, &doc.transmission, emit_comments);
    emit_r_groups(&mut pairs, &doc.recorders, emit_comments);
    emit_m_groups(&mut pairs, &doc.multiplex, emit_comments);
    emit_p_groups(&mut pairs, &doc.pcm_formats, emit_comments);
    emit_d_groups(&mut pairs, &doc.pcm_measurements, emit_comments);
    emit_b_groups(&mut pairs, &doc.bus_data, emit_comments);
    emit_s_groups(&mut pairs, &doc.message_data, emit_comments);
    emit_c_groups(&mut pairs, &doc.data_conversion, emit_comments);
    emit_extra(&mut pairs, &doc.unknown);
    pairs
}

/// The text of attributes: each as `code:value;` followed by `sep`.
pub open spec fn render(p: Pairs, sep: Seq<char>) -> Seq<char>
    decreases p.len(),
{
    if p.len() == 0 {
        Seq::empty()
    } else {
        render(p.drop_last(), sep) + p.last().0 + seq![':'] + p.last().1 + seq![';'] + sep
    }
}

/// Whether an attribute holds a keyword value: one the attribute table types
/// as a keyword (`G\106`, `G\DST-n`, `G\DSC-n`, `R-x\CDT-n`, `R-x\PDP-n`,
/// `P-n\D2`, `B-n\BT`, `C-n\DCT`), recognised by its group and first key.
pub open spec fn keyword_code(c: Seq<char>) -> bool {
    match code_name_spec(c) {
        Some(cn) => {
            let k = first_key_spec(cn);
            ||| cn.group == GroupPrefix::G && (k == Some("106"@) || k == Some("DST"@) || k == Some("DSC"@))
            ||| cn.group == GroupPrefix::R && (k == Some("CDT"@) || k == Some("PDP"@))
            ||| cn.group == GroupPrefix::P && k == Some("D2"@)
            ||| cn.group == GroupPrefix::B && k == Some("BT"@)
            ||| cn.group == GroupPrefix::C && k == Some("DCT"@)
        },
        None => false,
    }
}

/// An attribute with its keyword value, if it has one, in canonical (upper) case.
pub open spec fn canonical_pair(p: (Seq<char>, Seq<char>)) -> (Seq<char>, Seq<char>) {
    if keyword_code(p.0) {
        (p.0, upper(p.1))
    } else {
        p
    }
}

/// The attributes serializing writes: the document's, with keyword values in
/// canonical case when the options ask for it.
pub open spec fn written_pairs(d: TmatsDocumentV, opts: SerializeOptions) -> Pairs {
    if opts.canonical_keyword_case {
        doc_pairs(d, opts.emit_comments).map_values(|p: (Seq<char>, Seq<char>)| canonical_pair(p))
    } else {
        doc_pairs(d, opts.emit_comments)
    }
}

/// The text that serializing a document writes.
pub open spec fn serialized_text(d: TmatsDocumentV, opts: SerializeOptions) -> Seq<char> {
    render(written_pairs(d, opts), separator(opts))
}

/// Whether a code-name is that of a keyword attribute.
fn is_keyword_code(c: &String) -> (r: bool)
    ensures
        r == keyword_code(c@),
{
    match parse_code_name(c.as_str()) {
        None => false,
        Some(cn) => match first_key(&cn) {
            None => false,
            Some(k) => {
                proof {
                    reveal_strlit("106");
                    reveal_strlit("DST");
                    reveal_strlit("DSC");
                    reveal_strlit("CDT");
                    reveal_strlit("PDP");
                    reveal_strlit("D2");
                    reveal_strlit("BT");
                    reveal_strlit("DCT");
                }
                match cn.group {
                    GroupPrefix::G => chars_eq_str(&k, "106") || chars_eq_str(&k, "DST") || chars_eq_str(&k, "DSC"),
                    GroupPrefix::R => chars_eq_str(&k, "CDT") || chars_eq_str(&k, "PDP"),
                    GroupPrefix::P => chars_eq_str(&k, "D2"),
                    GroupPrefix::B => chars_eq_str(&k, "BT"),
                    GroupPrefix::C => chars_eq_str(&k, "DCT"),
                    _ => false,
                }
            },
        },
    }
}

/// Put every keyword value of the attributes in canonical case.
fn canonicalize(pairs: &mut Vec<(String, String)>)
    ensures
        pair_views(final(pairs)@) == pair_views(old(pairs)@).map_values(|p: (Seq<char>, Seq<char>)| canonical_pair(p)),
{
    let ghost p0 = pair_views(pairs@);
    let n = pairs.len();
    for i in 0..n
        invariant
            n == pairs@.len(),
            p0.len() == n,
            forall|j: int| 0 <= j < i ==> (#[trigger] pairs@[j]).0@ == canonical_pair(p0[j]).0 && pairs@[j].1@ == canonical_pair(p0[j]).1,
            forall|j: int| i <= j < n ==> (#[trigger] pairs@[j]).0@ == p0[j].0 && pairs@[j].1@ == p0[j].1,
    {
        let mut x = (String::new(), String::new());
        pairs.set_and_swap(i, &mut x);
        let (c, v) = x;
        assert(c@ == p0[i as int].0 && v@ == p0[i as int].1);
        let up = if is_keyword_code(&c) {
            string_of(&upper_chars(&chars_of(v.as_str())))
        } else {
            v
        };
        assert((c@, up@) == canonical_pair(p0[i as int]));
        let mut y = (c, up);
        pairs.set_and_swap(i, &mut y);
        assert(pairs@[i as int].0@ == canonical_pair(p0[i as int]).0 && pairs@[i as int].1@ == canonical_pair(p0[i as int]).1);
    }
    assert forall|j: int| 0 <= j < n implies #[trigger] pair_views(pairs@)[j] == canonical_pair(p0[j]) by {
        assert(pairs@[j].0@ == canonical_pair(p0[j]).0 && pairs@[j].1@ == canonical_pair(p0[j]).1);
    }
    assert(pair_views(pairs@) =~= p0.map_values(|p: (Seq<char>, Seq<char>)| canonical_pair(p)));
}



fn separator_str(opts: &SerializeOptions) -> (r: &'static str)
    ensures
        r@ == separator(*opts),
{
    proof {
        reveal_strlit("\n");
        reveal_strlit("\r\n");
        reveal_strlit("");
    }
    match opts.format {
        OutputFormat::Pretty => match opts.line_ending {
            LineEnding::Lf => "\n",
            LineEnding::CrLf => "\r\n",
        },
        OutputFormat::Compact => "",
    }
}

fn render_text(pairs: &Vec<(String, String)>, sep: &str) -> (r: String)
    ensures
        r@ == render(pair_views(pairs@), sep@),
{
    let ghost pv = pair_views(pairs@);
    let mut s = String::new();
    let n = pairs.len();
    for i in 0..n
        invariant
            n == pairs@.len(),
            pv == pair_views(pairs@),
            s@ == render(pv.take(i as int), sep@),
    {
        assert(pv.take(i + 1).drop_last() =~= pv.take(i as int));
        push_str(&mut s, pairs[i].0.as_str());
        push_char(&mut s, ':');
        push_str(&mut s, pairs[i].1.as_str());
        push_char(&mut s, ';');
        push_str(&mut s, sep);
        assert(s@ =~= render(pv.take(i + 1), sep@));
    }
    assert(pv.take(n as int) =~= pv);
    s
}

/// The text of a document as `serialized_text` describes it.
pub fn serialize_to_string(doc: &TmatsDocument, opts: &SerializeOptions) -> (r: String)
    ensures
        r@ == serialized_text(doc@, *opts),
{
    let mut pairs = attribute_pairs(doc, opts.emit_comments);
    if opts.canonical_keyword_case {
        canonicalize(&mut pairs);
    }
    render_text(&pairs, separator_str(opts))
}

/// Appends the UTF-8 bytes of `s` to `out`.
fn push_utf8(out: &mut Vec<u8>, s: &String)
    ensures
        final(out)@ == old(out)@ + encode_utf8(s@),
{
    let b = s.as_str().as_bytes();
    let n = b.len();
    for i in 0..n
        invariant
            n == b@.len(),
            b@ == encode_utf8(s@),
            out@ == old(out)@ + b@.take(i as int),
    {
        out.push(b[i]);
        assert(out@ =~= old(out)@ + b@.take(i + 1));
    }
    assert(b@.take(n as int) =~= b@);
}

/// Serialize with explicit options, appending the UTF-8 text to `out`.
pub fn serialize_with_options(doc: &TmatsDocument, out: &mut Vec<u8>, opts: &SerializeOptions) -> (r: Result<(), SerializeError>)
    ensures
        r is Ok,
        final(out)@ == old(out)@ + encode_utf8(serialized_text(doc@, *opts)),
{
    let s = serialize_to_string(doc, opts);
    push_utf8(out, &s);
    Ok(())
}

/// The options that `serialize` uses: pretty output with `\n`, comments emitted.
pub open spec fn default_serialize_options() -> SerializeOptions {
    SerializeOptions {
        format: OutputFormat::Pretty,
        line_ending: LineEnding::Lf,
        emit_comments: true,
        canonical_keyword_case: false,
    }
}

/// Serialize with the default options, appending to `out`.
pub fn serialize(doc: &TmatsDocument, out: &mut Vec<u8>) -> (r: Result<(), SerializeError>)
    ensures
        r is Ok,
        final(out)@ == old(out)@ + encode_utf8(serialized_text(doc@, default_serialize_options())),
{
    let opts = SerializeOptions::default();
    serialize_with_options(doc, out, &opts)
}

/// Serialize to a new buffer with the default options.
pub fn serialize_to_vec(doc: &TmatsDocument) -> (r: Result<Vec<u8>, SerializeError>)
    ensures
        r matches Ok(b) && b@ == encode_utf8(serialized_text(doc@, default_serialize_options())),
{
    let mut buf: Vec<u8> = Vec::new();
    match serialize(doc, &mut buf) {
        Ok(()) => {
            assert(buf@ =~= encode_utf8(serialized_text(doc@, default_serialize_options())));
            Ok(buf)
        },
        Err(e) => Err(e),
    }
}

// ─── Laws ───────────────────────────────────────────────────────────────────

/// `b` begins with `a`.
pub open spec fn extends(a: Pairs, b: Pairs) -> bool {
    a.len() <= b.len() && forall|i: int| 0 <= i < a.len() ==> #[trigger] b[i] == a[i]
}

proof fn lemma_put_texts_ext(acc: Pairs, c: Seq<char>, cs: Seq<Seq<char>>)
    ensures
        extends(acc, put_texts(acc, c, cs)),
    decreases cs.len(),
{
    if cs.len() > 0 {
        lemma_put_texts_ext(acc, c, cs.drop_last());
    }
}

proof fn lemma_put_extra_ext(acc: Pairs, ex: Seq<RawAttributeV>)
    ensures
        extends(acc, put_extra(acc, ex)),
    decreases ex.len(),
{
    if ex.len() > 0 {
        lemma_put_extra_ext(acc, ex.drop_last());
    }
}

proof fn lemma_tail_ext(a: Pairs, c: Seq<char>, cs: Seq<Seq<char>>, e: bool, ex: Seq<RawAttributeV>)
    ensures
        extends(a, put_extra(put_comments(a, c, cs, e), ex)),
{
    lemma_put_texts_ext(a, c, cs);
    lemma_put_extra_ext(put_comments(a, c, cs, e), ex);
}

proof fn lemma_ds_all_ext(acc: Pairs, m: Seq<(u32, DataSourceDeclV)>)
    ensures
        extends(acc, ds_all(acc, m)),
    decreases m.len(),
{
    if m.len() > 0 {
        lemma_ds_all_ext(acc, m.drop_last());
        let a = ds_all(acc, m.drop_last());
        let idx = m.last().0;
        let ds = m.last().1;
        let a1 = put_opt(a, "G\\DSI-"@ + dec(idx as nat), ds.data_source_id);
        let a2 = put_opt(a1, "G\\DST-"@ + dec(idx as nat), ds.data_source_type);
        let a3 = put_opt(a2, "G\\DSC-"@ + dec(idx as nat), ds.classification);
        lemma_put_extra_ext(a3, ds.extra);
    }
}

proof fn lemma_put_channels_ext(acc: Pairs, pfx: Seq<char>, m: Seq<(u32, RChannelV)>)
    ensures
        extends(acc, put_channels(acc, pfx, m)),
    decreases m.len(),
{
    if m.len() > 0 {
        lemma_put_channels_ext(acc, pfx, m.drop_last());
        let a = put_channels(acc, pfx, m.drop_last());
        let ci = m.last().0;
        let ch = m.last().1;
        let a1 = put_u16(a, pfx + "\\TK1-"@ + dec(ci as nat), ch.channel_id);
        let a2 = put_opt(a1, pfx + "\\CDT-"@ + dec(ci as nat), ch.data_type);
        let a3 = put_opt(a2, pfx + "\\DSI-"@ + dec(ci as nat), ch.data_source_id);
        let a4 = put_opt(a3, pfx + "\\CDLN-"@ + dec(ci as nat), ch.data_link_name);
        let a5 = put_opt(a4, pfx + "\\PDP-"@ + dec(ci as nat), ch.data_packing_option);
        let a6 = put_bool(a5, pfx + "\\CHE-"@ + dec(ci as nat), ch.channel_enabled);
        lemma_put_extra_ext(a6, ch.extra);
    }
}

#[verifier::rlimit(30)]
proof fn lemma_g_pairs(acc: Pairs, g: GGroupV, e: bool)
    ensures
        extends(acc, g_pairs(acc, g, e)),
        g.data_sources.len() > 0 ==> g_pairs(acc, g, e).contains(("G\\DSI\\N"@, dec(g.data_sources.len()))),
        g.points_of_contact.len() > 0 ==> g_pairs(acc, g, e).contains(
            ("G\\POC\\N"@, dec(g.points_of_contact.len())),
        ),
{
    let a = put_opt(acc, "G\\PN"@, g.program_name);
    let a = put_opt(a, "G\\106"@, g.irig106_version);
    let a = put_date(a, "G\\OD"@, g.origination_date);
    let a = put_opt(a, "G\\RN"@, g.revision_number);
    let a = put_date(a, "G\\RD"@, g.revision_date);
    let a = put_opt(a, "G\\UN"@, g.update_number);
    let a = put_date(a, "G\\UD"@, g.update_date);
    let a8 = put_opt(a, "G\\TN"@, g.test_number);
    assert(extends(acc, a8));
    let dsi = ("G\\DSI\\N"@, dec(g.data_sources.len()));
    let a9 = if g.data_sources.len() > 0 {
        let b = put(a8, dsi.0, dsi.1);
        lemma_ds_all_ext(b, g.data_sources);
        assert(ds_all(b, g.data_sources)[a8.len() as int] == dsi);
        ds_all(b, g.data_sources)
    } else {
        a8
    };
    let poc = ("G\\POC\\N"@, dec(g.points_of_contact.len()));
    let a10 = if g.points_of_contact.len() > 0 {
        put(a9, poc.0, poc.1)
    } else {
        a9
    };
    lemma_tail_ext(a10, "G\\COM"@, g.comments, e, g.extra);
    let r = g_pairs(acc, g, e);
    if g.data_sources.len() > 0 {
        assert(r[a8.len() as int] == dsi);
    }
    if g.points_of_contact.len() > 0 {
        assert(r[a9.len() as int] == poc);
    }
}

/// The G group's program name, IRIG 106 version and test number are among
/// a document's serialized attributes, under their code-names.
pub proof fn lemma_doc_pairs_g_scalars(d: TmatsDocumentV, e: bool)
    ensures
        d.general.program_name matches Some(v) ==> doc_pairs(d, e).contains(("G\\PN"@, v)),
        d.general.irig106_version matches Some(v) ==> doc_pairs(d, e).contains(("G\\106"@, v)),
        d.general.test_number matches Some(v) ==> doc_pairs(d, e).contains(("G\\TN"@, v)),
{
    let g = d.general;
    let a0 = Seq::<(Seq<char>, Seq<char>)>::empty();
    let a1 = put_opt(a0, "G\\PN"@, g.program_name);
    let a2 = put_opt(a1, "G\\106"@, g.irig106_version);
    let a3 = put_date(a2, "G\\OD"@, g.origination_date);
    let a4 = put_opt(a3, "G\\RN"@, g.revision_number);
    let a5 = put_date(a4, "G\\RD"@, g.revision_date);
    let a6 = put_opt(a5, "G\\UN"@, g.update_number);
    let a7 = put_date(a6, "G\\UD"@, g.update_date);
    let a8 = put_opt(a7, "G\\TN"@, g.test_number);
    let r1 = g_pairs(a0, g, e);
    lemma_g_pairs(a0, g, e);
    // The rest of the G group extends `a8`.
    let a9 = if g.data_sources.len() > 0 {
        let b = put(a8, "G\\DSI\\N"@, dec(g.data_sources.len()));
        lemma_ds_all_ext(b, g.data_sources);
        ds_all(b, g.data_sources)
    } else {
        a8
    };
    let a10 = if g.points_of_contact.len() > 0 {
        put(a9, "G\\POC\\N"@, dec(g.points_of_contact.len()))
    } else {
        a9
    };
    lemma_tail_ext(a10, "G\\COM"@, g.comments, e, g.extra);
    assert(extends(a8, r1));
    let r = doc_pairs(d, e);
    let b2 = t_groups(r1, d.transmission, e);
    let b3 = r_groups(b2, d.recorders, e);
    let b4 = m_groups(b3, d.multiplex, e);
    let b5 = p_groups(b4, d.pcm_formats, e);
    let b6 = d_groups(b5, d.pcm_measurements, e);
    let b7 = b_groups(b6, d.bus_data, e);
    let b8 = s_groups(b7, d.message_data, e);
    let b9 = c_groups(b8, d.data_conversion, e);
    lemma_t_groups(r1, d.transmission, e);
    lemma_r_groups(b2, d.recorders, e);
    lemma_m_groups(b3, d.multiplex, e);
    lemma_p_groups(b4, d.pcm_formats, e);
    lemma_d_groups(b5, d.pcm_measurements, e);
    lemma_b_groups(b6, d.bus_data, e);
    lemma_s_groups(b7, d.message_data, e);
    lemma_c_groups(b8, d.data_conversion, e);
    lemma_put_extra_ext(b9, d.unknown);
    assert(extends(r1, b3));
    assert(extends(b3, b6));
    assert(extends(b6, b9));
    assert(extends(b9, r));
    assert(extends(r1, r));
    assert(extends(a8, r));
    if let Some(v) = g.program_name {
        assert(a8[0] == ("G\\PN"@, v));
        assert(r[0] == ("G\\PN"@, v));
    }
    if let Some(v) = g.irig106_version {
        assert(a8[a1.len() as int] == ("G\\106"@, v));
        assert(r[a1.len() as int] == ("G\\106"@, v));
    }
    if let Some(v) = g.test_number {
        assert(a8[a7.len() as int] == ("G\\TN"@, v));
        assert(r[a7.len() as int] == ("G\\TN"@, v));
    }
}

proof fn lemma_r_pairs(acc: Pairs, idx: u32, g: RGroupV, e: bool)
    ensures
        extends(acc, r_pairs(acc, idx, g, e)),
        g.channels.len() > 0 ==> r_pairs(acc, idx, g, e).contains(
            ("R-"@ + dec(idx as nat) + "\\N"@, dec(g.channels.len())),
        ),
{
    let pfx = "R-"@ + dec(idx as nat);
    let a = put_opt(acc, pfx + "\\ID"@, g.recorder_id);
    let a = put_opt(a, pfx + "\\RI1"@, g.recorder_description);
    let a3 = put_opt(a, pfx + "\\RMT"@, g.media_type);
    let np = (pfx + "\\N"@, dec(g.channels.len()));
    let a4 = if g.channels.len() > 0 { put(a3, np.0, np.1) } else { a3 };
    lemma_put_channels_ext(a4, pfx, g.channels);
    let a5 = put_channels(a4, pfx, g.channels);
    let a6 = put_bool(a5, pfx + "\\IDX\\E"@, g.index_enabled);
    let a7 = put_bool(a6, pfx + "\\EV\\E"@, g.events_enabled);
    lemma_tail_ext(a7, pfx + "\\COM"@, g.comments, e, g.extra);
    if g.channels.len() > 0 {
        assert(r_pairs(acc, idx, g, e)[a3.len() as int] == np);
    }
}

proof fn lemma_r_groups(acc: Pairs, m: Seq<(u32, RGroupV)>, e: bool)
    ensures
        extends(acc, r_groups(acc, m, e)),
        forall|i: int| 0 <= i < m.len() && (#[trigger] m[i]).1.channels.len() > 0 ==> r_groups(acc, m, e).contains(
            ("R-"@ + dec(m[i].0 as nat) + "\\N"@, dec(m[i].1.channels.len())),
        ),
    decreases m.len(),
{
    if m.len() > 0 {
        let prev = r_groups(acc, m.drop_last(), e);
        lemma_r_groups(acc, m.drop_last(), e);
        lemma_r_pairs(prev, m.last().0, m.last().1, e);
        let r = r_groups(acc, m, e);
        assert forall|i: int| 0 <= i < m.len() && (#[trigger] m[i]).1.channels.len() > 0 implies r.contains(
            ("R-"@ + dec(m[i].0 as nat) + "\\N"@, dec(m[i].1.channels.len())),
        ) by {
            let x = ("R-"@ + dec(m[i].0 as nat) + "\\N"@, dec(m[i].1.channels.len()));
            if i < m.len() - 1 {
                assert(m.drop_last()[i] == m[i]);
                let j = choose|j: int| 0 <= j < prev.len() && prev[j] == x;
                assert(r[j] == x);
            } else {
                assert(m[i] == m.last());
            }
        }
    }
}

proof fn lemma_d_pairs(acc: Pairs, idx: u32, g: DGroupV, e: bool)
    ensures
        extends(acc, d_pairs(acc, idx, g, e)),
        g.measurements.len() > 0 ==> d_pairs(acc, idx, g, e).contains(
            ("D-"@ + dec(idx as nat) + "\\MN\\N"@, dec(g.measurements.len())),
        ),
{
    let pfx = "D-"@ + dec(idx as nat);
    let a = put_opt(acc, pfx + "\\MLN"@, g.measurement_list_name);
    let a2 = put_opt(a, pfx + "\\DLN"@, g.data_link_name);
    let np = (pfx + "\\MN\\N"@, dec(g.measurements.len()));
    let a3 = if g.measurements.len() > 0 { put(a2, np.0, np.1) } else { a2 };
    lemma_tail_ext(a3, pfx + "\\COM"@, g.comments, e, g.extra);
    if g.measurements.len() > 0 {
        assert(d_pairs(acc, idx, g, e)[a2.len() as int] == np);
    }
}

proof fn lemma_d_groups(acc: Pairs, m: Seq<(u32, DGroupV)>, e: bool)
    ensures
        extends(acc, d_groups(acc, m, e)),
        forall|i: int| 0 <= i < m.len() && (#[trigger] m[i]).1.measurements.len() > 0 ==> d_groups(acc, m, e).contains(
            ("D-"@ + dec(m[i].0 as nat) + "\\MN\\N"@, dec(m[i].1.measurements.len())),
        ),
    decreases m.len(),
{
    if m.len() > 0 {
        let prev = d_groups(acc, m.drop_last(), e);
        lemma_d_groups(acc, m.drop_last(), e);
        lemma_d_pairs(prev, m.last().0, m.last().1, e);
        let r = d_groups(acc, m, e);
        assert forall|i: int| 0 <= i < m.len() && (#[trigger] m[i]).1.measurements.len() > 0 implies r.contains(
            ("D-"@ + dec(m[i].0 as nat) + "\\MN\\N"@, dec(m[i].1.measurements.len())),
        ) by {
            let x = ("D-"@ + dec(m[i].0 as nat) + "\\MN\\N"@, dec(m[i].1.measurements.len()));
            if i < m.len() - 1 {
                assert(m.drop_last()[i] == m[i]);
                let j = choose|j: int| 0 <= j < prev.len() && prev[j] == x;
                assert(r[j] == x);
            } else {
                assert(m[i] == m.last());
            }
        }
    }
}

proof fn lemma_t_groups(acc: Pairs, m: Seq<(u32, TGroupV)>, e: bool)
    ensures
        extends(acc, t_groups(acc, m, e)),
    decreases m.len(),
{
    if m.len() > 0 {
        let prev = t_groups(acc, m.drop_last(), e);
        lemma_t_groups(acc, m.drop_last(), e);
        let g = m.last().1;
        let pfx = "T-"@ + dec(m.last().0 as nat);
        let a = put_opt(prev, pfx + "\\ID"@, g.transmitter_id);
        let a = put_opt(a, pfx + "\\CF"@, g.carrier_frequency_mhz);
        let a = put_opt(a, pfx + "\\MT"@, g.modulation_type);
        let a = put_opt(a, pfx + "\\PW"@, g.power_watts);
        let a = put_opt(a, pfx + "\\AT"@, g.antenna_type);
        let a = put_opt(a, pfx + "\\AP"@, g.antenna_polarization);
        lemma_tail_ext(a, pfx + "\\COM"@, g.comments, e, g.extra);
    }
}

proof fn lemma_m_groups(acc: Pairs, m: Seq<(u32, MGroupV)>, e: bool)
    ensures
        extends(acc, m_groups(acc, m, e)),
    decreases m.len(),
{
    if m.len() > 0 {
        let prev = m_groups(acc, m.drop_last(), e);
        lemma_m_groups(acc, m.drop_last(), e);
        let g = m.last().1;
        let pfx = "M-"@ + dec(m.last().0 as nat);
        let a = put_opt(prev, pfx + "\\BSG"@, g.baseband_signal_type);
        let a = put_opt(a, pfx + "\\MS"@, g.modulation_sense);
        lemma_tail_ext(a, pfx + "\\COM"@, g.comments, e, g.extra);
    }
}

proof fn lemma_p_groups(acc: Pairs, m: Seq<(u32, PGroupV)>, e: bool)
    ensures
        extends(acc, p_groups(acc, m, e)),
    decreases m.len(),
{
    if m.len() > 0 {
        let prev = p_groups(acc, m.drop_last(), e);
        lemma_p_groups(acc, m.drop_last(), e);
        let g = m.last().1;
        let pfx = "P-"@ + dec(m.last().0 as nat);
        let a = put_opt(prev, pfx + "\\DLN"@, g.data_link_name);
        let a = put_opt(a, pfx + "\\D1"@, g.bit_rate);
        let a = put_opt(a, pfx + "\\D2"@, g.encoding);
        let a = put_opt(a, pfx + "\\D3"@, g.polarity);
        let a = put_bool(a, pfx + "\\D4"@, g.auto_polarity_correction);
        let a = put_u32(a, pfx + "\\MF\\N"@, g.num_minor_frames);
        let a = put_u32(a, pfx + "\\F1"@, g.num_words_per_frame);
        let a = put_u32(a, pfx + "\\F2"@, g.num_bits_per_word);
        let a = put_opt(a, pfx + "\\F3"@, g.sync_pattern);
        let a = put_u32(a, pfx + "\\F3\\L"@, g.sync_pattern_length);
        lemma_tail_ext(a, pfx + "\\COM"@, g.comments, e, g.extra);
    }
}

proof fn lemma_b_groups(acc: Pairs, m: Seq<(u32, BGroupV)>, e: bool)
    ensures
        extends(acc, b_groups(acc, m, e)),
    decreases m.len(),
{
    if m.len() > 0 {
        let prev = b_groups(acc, m.drop_last(), e);
        lemma_b_groups(acc, m.drop_last(), e);
        let g = m.last().1;
        let pfx = "B-"@ + dec(m.last().0 as nat);
        let a = put_opt(prev, pfx + "\\DLN"@, g.data_link_name);
        let a = put_opt(a, pfx + "\\BT"@, g.bus_type);
        lemma_tail_ext(a, pfx + "\\COM"@, g.comments, e, g.extra);
    }
}

proof fn lemma_s_groups(acc: Pairs, m: Seq<(u32, SGroupV)>, e: bool)
    ensures
        extends(acc, s_groups(acc, m, e)),
    decreases m.len(),
{
    if m.len() > 0 {
        let prev = s_groups(acc, m.drop_last(), e);
        lemma_s_groups(acc, m.drop_last(), e);
        let g = m.last().1;
        let pfx = "S-"@ + dec(m.last().0 as nat);
        let a = put_opt(prev, pfx + "\\DLN"@, g.data_link_name);
        lemma_tail_ext(a, pfx + "\\COM"@, g.comments, e, g.extra);
    }
}

proof fn lemma_c_groups(acc: Pairs, m: Seq<(u32, CGroupV)>, e: bool)
    ensures
        extends(acc, c_groups(acc, m, e)),
    decreases m.len(),
{
    if m.len() > 0 {
        let prev = c_groups(acc, m.drop_last(), e);
        lemma_c_groups(acc, m.drop_last(), e);
        let g = m.last().1;
        let pfx = "C-"@ + dec(m.last().0 as nat);
        let a = put_opt(prev, pfx + "\\DCN"@, g.measurement_name);
        let a = put_opt(a, pfx + "\\DCT"@, g.conversion_type);
        let a = put_opt(a, pfx + "\\EU"@, g.eu_units);
        lemma_tail_ext(a, pfx + "\\COM"@, g.comments, e, g.extra);
    }
}

proof fn lemma_contains_ext(a: Pairs, b: Pairs, x: (Seq<char>, Seq<char>))
    requires
        extends(a, b),
        a.contains(x),
    ensures
        b.contains(x),
{
    let j = choose|j: int| 0 <= j < a.len() && a[j] == x;
    assert(b[j] == x);
}

/// The serialized attributes carry every counter as the number of entries
/// it counts: `G\DSI\N` the data sources, `G\POC\N` the points of contact,
/// each `R-x\N` the recorder's channels and each `D-x\MN\N` the group's
/// measurements; a counter of no entries is left out.
pub proof fn law_serialized_counters_are_counts(d: TmatsDocumentV, e: bool)
    ensures
        d.general.data_sources.len() > 0 ==> doc_pairs(d, e).contains(
            ("G\\DSI\\N"@, dec(d.general.data_sources.len())),
        ),
        d.general.points_of_contact.len() > 0 ==> doc_pairs(d, e).contains(
            ("G\\POC\\N"@, dec(d.general.points_of_contact.len())),
        ),
        forall|i: int| 0 <= i < d.recorders.len() && (#[trigger] d.recorders[i]).1.channels.len() > 0 ==> doc_pairs(d, e).contains(
            ("R-"@ + dec(d.recorders[i].0 as nat) + "\\N"@, dec(d.recorders[i].1.channels.len())),
        ),
        forall|i: int| 0 <= i < d.pcm_measurements.len() && (#[trigger] d.pcm_measurements[i]).1.measurements.len() > 0
            ==> doc_pairs(d, e).contains(
            ("D-"@ + dec(d.pcm_measurements[i].0 as nat) + "\\MN\\N"@, dec(d.pcm_measurements[i].1.measurements.len())),
        ),
{
    let a1 = g_pairs(Seq::empty(), d.general, e);
    let a2 = t_groups(a1, d.transmission, e);
    let a3 = r_groups(a2, d.recorders, e);
    let a4 = m_groups(a3, d.multiplex, e);
    let a5 = p_groups(a4, d.pcm_formats, e);
    let a6 = d_groups(a5, d.pcm_measurements, e);
    let a7 = b_groups(a6, d.bus_data, e);
    let a8 = s_groups(a7, d.message_data, e);
    let a9 = c_groups(a8, d.data_conversion, e);
    let r = doc_pairs(d, e);
    lemma_g_pairs(Seq::empty(), d.general, e);
    lemma_t_groups(a1, d.transmission, e);
    lemma_r_groups(a2, d.recorders, e);
    lemma_m_groups(a3, d.multiplex, e);
    lemma_p_groups(a4, d.pcm_formats, e);
    lemma_d_groups(a5, d.pcm_measurements, e);
    lemma_b_groups(a6, d.bus_data, e);
    lemma_s_groups(a7, d.message_data, e);
    lemma_c_groups(a8, d.data_conversion, e);
    lemma_put_extra_ext(a9, d.unknown);
    assert(extends(a6, r));
    assert(extends(a3, a6));
    assert(extends(a3, r));
    assert(extends(a1, a3));
    assert(extends(a1, r));
    if d.general.data_sources.len() > 0 {
        lemma_contains_ext(a1, r, ("G\\DSI\\N"@, dec(d.general.data_sources.len())));
    }
    if d.general.points_of_contact.len() > 0 {
        lemma_contains_ext(a1, r, ("G\\POC\\N"@, dec(d.general.points_of_contact.len())));
    }
    assert forall|i: int| 0 <= i < d.recorders.len() && (#[trigger] d.recorders[i]).1.channels.len() > 0 implies r.contains(
        ("R-"@ + dec(d.recorders[i].0 as nat) + "\\N"@, dec(d.recorders[i].1.channels.len())),
    ) by {
        lemma_contains_ext(a3, r, ("R-"@ + dec(d.recorders[i].0 as nat) + "\\N"@, dec(d.recorders[i].1.channels.len())));
    }
    assert forall|i: int| 0 <= i < d.pcm_measurements.len() && (#[trigger] d.pcm_measurements[i]).1.measurements.len() > 0
        implies r.contains(
        ("D-"@ + dec(d.pcm_measurements[i].0 as nat) + "\\MN\\N"@, dec(d.pcm_measurements[i].1.measurements.len())),
    ) by {
        lemma_contains_ext(a6, r, ("D-"@ + dec(d.pcm_measurements[i].0 as nat) + "\\MN\\N"@, dec(d.pcm_measurements[i].1.measurements.len())));
    }
}

/// The attributes of channel `ci` that it has (`TK1`, `CDT`, `DSI`, `CDLN`,
/// `PDP`, `CHE`) are among `p`.
pub open spec fn channel_in(p: Pairs, pfx: Seq<char>, ci: u32, ch: RChannelV) -> bool {
    &&& (ch.channel_id matches Some(n) ==> p.contains((pfx + "\\TK1-"@ + dec(ci as nat), dec(n as nat))))
    &&& (ch.data_type matches Some(v) ==> p.contains((pfx + "\\CDT-"@ + dec(ci as nat), v)))
    &&& (ch.data_source_id matches Some(v) ==> p.contains((pfx + "\\DSI-"@ + dec(ci as nat), v)))
    &&& (ch.data_link_name matches Some(v) ==> p.contains((pfx + "\\CDLN-"@ + dec(ci as nat), v)))
    &&& (ch.data_packing_option matches Some(v) ==> p.contains((pfx + "\\PDP-"@ + dec(ci as nat), v)))
    &&& (ch.channel_enabled matches Some(b) ==> p.contains((pfx + "\\CHE-"@ + dec(ci as nat), bool_text(b))))
}

proof fn lemma_channel_in_ext(a: Pairs, b: Pairs, pfx: Seq<char>, ci: u32, ch: RChannelV)
    requires
        extends(a, b),
        channel_in(a, pfx, ci, ch),
    ensures
        channel_in(b, pfx, ci, ch),
{
    if let Some(n) = ch.channel_id {
        lemma_contains_ext(a, b, (pfx + "\\TK1-"@ + dec(ci as nat), dec(n as nat)));
    }
    if let Some(v) = ch.data_type {
        lemma_contains_ext(a, b, (pfx + "\\CDT-"@ + dec(ci as nat), v));
    }
    if let Some(v) = ch.data_source_id {
        lemma_contains_ext(a, b, (pfx + "\\DSI-"@ + dec(ci as nat), v));
    }
    if let Some(v) = ch.data_link_name {
        lemma_contains_ext(a, b, (pfx + "\\CDLN-"@ + dec(ci as nat), v));
    }
    if let Some(v) = ch.data_packing_option {
        lemma_contains_ext(a, b, (pfx + "\\PDP-"@ + dec(ci as nat), v));
    }
    if let Some(x) = ch.channel_enabled {
        lemma_contains_ext(a, b, (pfx + "\\CHE-"@ + dec(ci as nat), bool_text(x)));
    }
}

proof fn lemma_channel_pairs_in(acc: Pairs, pfx: Seq<char>, ci: u32, ch: RChannelV)
    ensures
        extends(acc, channel_pairs(acc, pfx, ci, ch)),
        channel_in(channel_pairs(acc, pfx, ci, ch), pfx, ci, ch),
{
    let a1 = put_u16(acc, pfx + "\\TK1-"@ + dec(ci as nat), ch.channel_id);
    let a2 = put_opt(a1, pfx + "\\CDT-"@ + dec(ci as nat), ch.data_type);
    let a3 = put_opt(a2, pfx + "\\DSI-"@ + dec(ci as nat), ch.data_source_id);
    let a4 = put_opt(a3, pfx + "\\CDLN-"@ + dec(ci as nat), ch.data_link_name);
    let a5 = put_opt(a4, pfx + "\\PDP-"@ + dec(ci as nat), ch.data_packing_option);
    let a6 = put_bool(a5, pfx + "\\CHE-"@ + dec(ci as nat), ch.channel_enabled);
    lemma_put_extra_ext(a6, ch.extra);
    let r = channel_pairs(acc, pfx, ci, ch);
    if let Some(n) = ch.channel_id {
        assert(r[acc.len() as int] == (pfx + "\\TK1-"@ + dec(ci as nat), dec(n as nat)));
    }
    if let Some(v) = ch.data_type {
        assert(r[a1.len() as int] == (pfx + "\\CDT-"@ + dec(ci as nat), v));
    }
    if let Some(v) = ch.data_source_id {
        assert(r[a2.len() as int] == (pfx + "\\DSI-"@ + dec(ci as nat), v));
    }
    if let Some(v) = ch.data_link_name {
        assert(r[a3.len() as int] == (pfx + "\\CDLN-"@ + dec(ci as nat), v));
    }
    if let Some(v) = ch.data_packing_option {
        assert(r[a4.len() as int] == (pfx + "\\PDP-"@ + dec(ci as nat), v));
    }
    if let Some(x) = ch.channel_enabled {
        assert(r[a5.len() as int] == (pfx + "\\CHE-"@ + dec(ci as nat), bool_text(x)));
    }
}

proof fn lemma_put_channels_in(acc: Pairs, pfx: Seq<char>, m: Seq<(u32, RChannelV)>)
    ensures
        forall|j: int| 0 <= j < m.len() ==> channel_in(put_channels(acc, pfx, m), pfx, (#[trigger] m[j]).0, m[j].1),
    decreases m.len(),
{
    if m.len() > 0 {
        let prev = put_channels(acc, pfx, m.drop_last());
        lemma_put_channels_in(acc, pfx, m.drop_last());
        lemma_channel_pairs_in(prev, pfx, m.last().0, m.last().1);
        let r = put_channels(acc, pfx, m);
        assert forall|j: int| 0 <= j < m.len() implies channel_in(r, pfx, (#[trigger] m[j]).0, m[j].1) by {
            if j < m.len() - 1 {
                assert(m.drop_last()[j] == m[j]);
                lemma_channel_in_ext(prev, r, pfx, m[j].0, m[j].1);
            } else {
                assert(m[j] == m.last());
            }
        }
    }
}

proof fn lemma_r_pairs_in(acc: Pairs, idx: u32, g: RGroupV, e: bool)
    ensures
        extends(acc, r_pairs(acc, idx, g, e)),
        forall|j: int| 0 <= j < g.channels.len() ==> channel_in(r_pairs(acc, idx, g, e), "R-"@ + dec(idx as nat),
            (#[trigger] g.channels[j]).0, g.channels[j].1),
{
    lemma_r_pairs(acc, idx, g, e);
    let pfx = "R-"@ + dec(idx as nat);
    let a = put_opt(acc, pfx + "\\ID"@, g.recorder_id);
    let a = put_opt(a, pfx + "\\RI1"@, g.recorder_description);
    let a3 = put_opt(a, pfx + "\\RMT"@, g.media_type);
    let a4 = if g.channels.len() > 0 { put(a3, pfx + "\\N"@, dec(g.channels.len())) } else { a3 };
    lemma_put_channels_in(a4, pfx, g.channels);
    let a5 = put_channels(a4, pfx, g.channels);
    let a6 = put_bool(a5, pfx + "\\IDX\\E"@, g.index_enabled);
    let a7 = put_bool(a6, pfx + "\\EV\\E"@, g.events_enabled);
    lemma_tail_ext(a7, pfx + "\\COM"@, g.comments, e, g.extra);
    let r = r_pairs(acc, idx, g, e);
    assert(extends(a5, r));
    assert forall|j: int| 0 <= j < g.channels.len() implies channel_in(r, pfx, (#[trigger] g.channels[j]).0, g.channels[j].1) by {
        lemma_channel_in_ext(a5, r, pfx, g.channels[j].0, g.channels[j].1);
    }
}

proof fn lemma_r_groups_in(acc: Pairs, m: Seq<(u32, RGroupV)>, e: bool)
    ensures
        extends(acc, r_groups(acc, m, e)),
        forall|i: int, j: int| 0 <= i < m.len() && 0 <= j < m[i].1.channels.len() ==> channel_in(r_groups(acc, m, e),
            "R-"@ + dec(m[i].0 as nat), (#[trigger] m[i].1.channels[j]).0, m[i].1.channels[j].1),
    decreases m.len(),
{
    lemma_r_groups(acc, m, e);
    if m.len() > 0 {
        let prev = r_groups(acc, m.drop_last(), e);
        lemma_r_groups_in(acc, m.drop_last(), e);
        lemma_r_pairs_in(prev, m.last().0, m.last().1, e);
        let r = r_groups(acc, m, e);
        assert forall|i: int, j: int| 0 <= i < m.len() && 0 <= j < m[i].1.channels.len() implies channel_in(r,
            "R-"@ + dec(m[i].0 as nat), (#[trigger] m[i].1.channels[j]).0, m[i].1.channels[j].1) by {
            if i < m.len() - 1 {
                assert(m.drop_last()[i] == m[i]);
                lemma_channel_in_ext(prev, r, "R-"@ + dec(m[i].0 as nat), m[i].1.channels[j].0, m[i].1.channels[j].1);
            } else {
                assert(m[i] == m.last());
            }
        }
    }
}

/// Every channel's `TK1` and `CDT` attributes, as far as it has them, are
/// among the serialized attributes.
pub proof fn lemma_doc_pairs_channels(d: TmatsDocumentV, e: bool)
    ensures
        forall|i: int, j: int| 0 <= i < d.recorders.len() && 0 <= j < d.recorders[i].1.channels.len() ==> channel_in(
            doc_pairs(d, e), "R-"@ + dec(d.recorders[i].0 as nat), (#[trigger] d.recorders[i].1.channels[j]).0,
            d.recorders[i].1.channels[j].1),
{
    let a1 = g_pairs(Seq::empty(), d.general, e);
    let a2 = t_groups(a1, d.transmission, e);
    let a3 = r_groups(a2, d.recorders, e);
    let a4 = m_groups(a3, d.multiplex, e);
    let a5 = p_groups(a4, d.pcm_formats, e);
    let a6 = d_groups(a5, d.pcm_measurements, e);
    let a7 = b_groups(a6, d.bus_data, e);
    let a8 = s_groups(a7, d.message_data, e);
    let a9 = c_groups(a8, d.data_conversion, e);
    let r = doc_pairs(d, e);
    lemma_r_groups_in(a2, d.recorders, e);
    lemma_m_groups(a3, d.multiplex, e);
    lemma_p_groups(a4, d.pcm_formats, e);
    lemma_d_groups(a5, d.pcm_measurements, e);
    lemma_b_groups(a6, d.bus_data, e);
    lemma_s_groups(a7, d.message_data, e);
    lemma_c_groups(a8, d.data_conversion, e);
    lemma_put_extra_ext(a9, d.unknown);
    assert(extends(a3, a6));
    assert(extends(a6, r));
    assert(extends(a3, r));
    assert forall|i: int, j: int| 0 <= i < d.recorders.len() && 0 <= j < d.recorders[i].1.channels.len() implies channel_in(
        r, "R-"@ + dec(d.recorders[i].0 as nat), (#[trigger] d.recorders[i].1.channels[j]).0,
        d.recorders[i].1.channels[j].1) by {
        lemma_channel_in_ext(a3, r, "R-"@ + dec(d.recorders[i].0 as nat), d.recorders[i].1.channels[j].0,
            d.recorders[i].1.channels[j].1);
    }
}

/// The head attributes of recorder `idx` that it has (`ID`, `RI1`, `RMT`,
/// and `N` when it has channels) are among `p`.
pub open spec fn recorder_in(p: Pairs, idx: u32, g: RGroupV) -> bool {
    let pfx = "R-"@ + dec(idx as nat);
    &&& (g.recorder_id matches Some(v) ==> p.contains((pfx + "\\ID"@, v)))
    &&& (g.recorder_description matches Some(v) ==> p.contains((pfx + "\\RI1"@, v)))
    &&& (g.media_type matches Some(v) ==> p.contains((pfx + "\\RMT"@, v)))
    &&& (g.channels.len() > 0 ==> p.contains((pfx + "\\N"@, dec(g.channels.len()))))
}

proof fn lemma_recorder_in_ext(a: Pairs, b: Pairs, idx: u32, g: RGroupV)
    requires
        extends(a, b),
        recorder_in(a, idx, g),
    ensures
        recorder_in(b, idx, g),
{
    let pfx = "R-"@ + dec(idx as nat);
    if let Some(v) = g.recorder_id {
        lemma_contains_ext(a, b, (pfx + "\\ID"@, v));
    }
    if let Some(v) = g.recorder_description {
        lemma_contains_ext(a, b, (pfx + "\\RI1"@, v));
    }
    if let Some(v) = g.media_type {
        lemma_contains_ext(a, b, (pfx + "\\RMT"@, v));
    }
    if g.channels.len() > 0 {
        lemma_contains_ext(a, b, (pfx + "\\N"@, dec(g.channels.len())));
    }
}

proof fn lemma_r_pairs_head(acc: Pairs, idx: u32, g: RGroupV, e: bool)
    ensures
        recorder_in(r_pairs(acc, idx, g, e), idx, g),
{
    lemma_r_pairs(acc, idx, g, e);
    let pfx = "R-"@ + dec(idx as nat);
    let a1 = put_opt(acc, pfx + "\\ID"@, g.recorder_id);
    let a2 = put_opt(a1, pfx + "\\RI1"@, g.recorder_description);
    let a3 = put_opt(a2, pfx + "\\RMT"@, g.media_type);
    let a4 = if g.channels.len() > 0 { put(a3, pfx + "\\N"@, dec(g.channels.len())) } else { a3 };
    lemma_put_channels_ext(a4, pfx, g.channels);
    let a5 = put_channels(a4, pfx, g.channels);
    let a6 = put_bool(a5, pfx + "\\IDX\\E"@, g.index_enabled);
    let a7 = put_bool(a6, pfx + "\\EV\\E"@, g.events_enabled);
    lemma_tail_ext(a7, pfx + "\\COM"@, g.comments, e, g.extra);
    let r = r_pairs(acc, idx, g, e);
    assert(extends(a4, r));
    if let Some(v) = g.recorder_id {
        assert(r[acc.len() as int] == (pfx + "\\ID"@, v));
    }
    if let Some(v) = g.recorder_description {
        assert(r[a1.len() as int] == (pfx + "\\RI1"@, v));
    }
    if let Some(v) = g.media_type {
        assert(r[a2.len() as int] == (pfx + "\\RMT"@, v));
    }
}

proof fn lemma_r_groups_head(acc: Pairs, m: Seq<(u32, RGroupV)>, e: bool)
    ensures
        extends(acc, r_groups(acc, m, e)),
        forall|i: int| 0 <= i < m.len() ==> recorder_in(r_groups(acc, m, e), (#[trigger] m[i]).0, m[i].1),
    decreases m.len(),
{
    lemma_r_groups(acc, m, e);
    if m.len() > 0 {
        let prev = r_groups(acc, m.drop_last(), e);
        lemma_r_groups_head(acc, m.drop_last(), e);
        lemma_r_pairs(prev, m.last().0, m.last().1, e);
        lemma_r_pairs_head(prev, m.last().0, m.last().1, e);
        let r = r_groups(acc, m, e);
        assert forall|i: int| 0 <= i < m.len() implies recorder_in(r, (#[trigger] m[i]).0, m[i].1) by {
            if i < m.len() - 1 {
                assert(m.drop_last()[i] == m[i]);
                lemma_recorder_in_ext(prev, r, m[i].0, m[i].1);
            } else {
                assert(m[i] == m.last());
            }
        }
    }
}

/// The head attributes of every recorder are among the serialized attributes.
pub proof fn lemma_doc_pairs_recorders(d: TmatsDocumentV, e: bool)
    ensures
        forall|i: int| 0 <= i < d.recorders.len() ==> recorder_in(doc_pairs(d, e), (#[trigger] d.recorders[i]).0,
            d.recorders[i].1),
{
    let a1 = g_pairs(Seq::empty(), d.general, e);
    let a2 = t_groups(a1, d.transmission, e);
    let a3 = r_groups(a2, d.recorders, e);
    let a4 = m_groups(a3, d.multiplex, e);
    let a5 = p_groups(a4, d.pcm_formats, e);
    let a6 = d_groups(a5, d.pcm_measurements, e);
    let a7 = b_groups(a6, d.bus_data, e);
    let a8 = s_groups(a7, d.message_data, e);
    let a9 = c_groups(a8, d.data_conversion, e);
    let r = doc_pairs(d, e);
    lemma_r_groups_head(a2, d.recorders, e);
    lemma_m_groups(a3, d.multiplex, e);
    lemma_p_groups(a4, d.pcm_formats, e);
    lemma_d_groups(a5, d.pcm_measurements, e);
    lemma_b_groups(a6, d.bus_data, e);
    lemma_s_groups(a7, d.message_data, e);
    lemma_c_groups(a8, d.data_conversion, e);
    lemma_put_extra_ext(a9, d.unknown);
    assert(extends(a3, a6));
    assert(extends(a6, r));
    assert(extends(a3, r));
    assert forall|i: int| 0 <= i < d.recorders.len() implies recorder_in(r, (#[trigger] d.recorders[i]).0, d.recorders[i].1) by {
        lemma_recorder_in_ext(a3, r, d.recorders[i].0, d.recorders[i].1);
    }
}

/// The attributes of data source `idx` that it has (`DSI`, `DST`, `DSC`)
/// are among `p`.
pub open spec fn source_in(p: Pairs, idx: u32, ds: DataSourceDeclV) -> bool {
    &&& (ds.data_source_id matches Some(v) ==> p.contains(("G\\DSI-"@ + dec(idx as nat), v)))
    &&& (ds.data_source_type matches Some(v) ==> p.contains(("G\\DST-"@ + dec(idx as nat), v)))
    &&& (ds.classification matches Some(v) ==> p.contains(("G\\DSC-"@ + dec(idx as nat), v)))
}

proof fn lemma_source_in_ext(a: Pairs, b: Pairs, idx: u32, ds: DataSourceDeclV)
    requires
        extends(a, b),
        source_in(a, idx, ds),
    ensures
        source_in(b, idx, ds),
{
    if let Some(v) = ds.data_source_id {
        lemma_contains_ext(a, b, ("G\\DSI-"@ + dec(idx as nat), v));
    }
    if let Some(v) = ds.data_source_type {
        lemma_contains_ext(a, b, ("G\\DST-"@ + dec(idx as nat), v));
    }
    if let Some(v) = ds.classification {
        lemma_contains_ext(a, b, ("G\\DSC-"@ + dec(idx as nat), v));
    }
}

proof fn lemma_ds_all_in(acc: Pairs, m: Seq<(u32, DataSourceDeclV)>)
    ensures
        forall|j: int| 0 <= j < m.len() ==> source_in(ds_all(acc, m), (#[trigger] m[j]).0, m[j].1),
    decreases m.len(),
{
    if m.len() > 0 {
        let prev = ds_all(acc, m.drop_last());
        lemma_ds_all_in(acc, m.drop_last());
        let idx = m.last().0;
        let ds = m.last().1;
        let a1 = put_opt(prev, "G\\DSI-"@ + dec(idx as nat), ds.data_source_id);
        let a2 = put_opt(a1, "G\\DST-"@ + dec(idx as nat), ds.data_source_type);
        let a3 = put_opt(a2, "G\\DSC-"@ + dec(idx as nat), ds.classification);
        lemma_put_extra_ext(a3, ds.extra);
        let r = ds_all(acc, m);
        assert(extends(prev, r));
        if let Some(v) = ds.data_source_id {
            assert(r[prev.len() as int] == ("G\\DSI-"@ + dec(idx as nat), v));
        }
        if let Some(v) = ds.data_source_type {
            assert(r[a1.len() as int] == ("G\\DST-"@ + dec(idx as nat), v));
        }
        if let Some(v) = ds.classification {
            assert(r[a2.len() as int] == ("G\\DSC-"@ + dec(idx as nat), v));
        }
        assert forall|j: int| 0 <= j < m.len() implies source_in(r, (#[trigger] m[j]).0, m[j].1) by {
            if j < m.len() - 1 {
                assert(m.drop_last()[j] == m[j]);
                lemma_source_in_ext(prev, r, m[j].0, m[j].1);
            } else {
                assert(m[j] == m.last());
            }
        }
    }
}

/// The attributes of every data source are among the serialized attributes.
#[verifier::rlimit(30)]
pub proof fn lemma_doc_pairs_sources(d: TmatsDocumentV, e: bool)
    ensures
        forall|j: int| 0 <= j < d.general.data_sources.len() ==> source_in(doc_pairs(d, e),
            (#[trigger] d.general.data_sources[j]).0, d.general.data_sources[j].1),
{
    let g = d.general;
    let a = put_opt(Seq::empty(), "G\\PN"@, g.program_name);
    let a = put_opt(a, "G\\106"@, g.irig106_version);
    let a = put_date(a, "G\\OD"@, g.origination_date);
    let a = put_opt(a, "G\\RN"@, g.revision_number);
    let a = put_date(a, "G\\RD"@, g.revision_date);
    let a = put_opt(a, "G\\UN"@, g.update_number);
    let a = put_date(a, "G\\UD"@, g.update_date);
    let a8 = put_opt(a, "G\\TN"@, g.test_number);
    if g.data_sources.len() > 0 {
        let b = put(a8, "G\\DSI\\N"@, dec(g.data_sources.len()));
        let a9 = ds_all(b, g.data_sources);
        lemma_ds_all_in(b, g.data_sources);
        let a10 = if g.points_of_contact.len() > 0 {
            put(a9, "G\\POC\\N"@, dec(g.points_of_contact.len()))
        } else {
            a9
        };
        lemma_tail_ext(a10, "G\\COM"@, g.comments, e, g.extra);
        let a1 = g_pairs(Seq::empty(), g, e);
        assert(extends(a9, a1));
        let a2 = t_groups(a1, d.transmission, e);
        let a3 = r_groups(a2, d.recorders, e);
        let a4 = m_groups(a3, d.multiplex, e);
        let a5 = p_groups(a4, d.pcm_formats, e);
        let a6 = d_groups(a5, d.pcm_measurements, e);
        let a7 = b_groups(a6, d.bus_data, e);
        let a8b = s_groups(a7, d.message_data, e);
        let a9b = c_groups(a8b, d.data_conversion, e);
        let r = doc_pairs(d, e);
        lemma_t_groups(a1, d.transmission, e);
        lemma_r_groups(a2, d.recorders, e);
        lemma_m_groups(a3, d.multiplex, e);
        lemma_p_groups(a4, d.pcm_formats, e);
        lemma_d_groups(a5, d.pcm_measurements, e);
        lemma_b_groups(a6, d.bus_data, e);
        lemma_s_groups(a7, d.message_data, e);
        lemma_c_groups(a8b, d.data_conversion, e);
        lemma_put_extra_ext(a9b, d.unknown);
        assert(extends(a1, a3));
        assert(extends(a3, a6));
        assert(extends(a6, r));
        assert(extends(a1, r));
        assert(extends(a9, r));
        assert forall|j: int| 0 <= j < g.data_sources.len() implies source_in(r, (#[trigger] g.data_sources[j]).0,
            g.data_sources[j].1) by {
            lemma_source_in_ext(a9, r, g.data_sources[j].0, g.data_sources[j].1);
        }
    }
}

} // verus!
