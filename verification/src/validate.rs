//! Rule-based validation of documents against the Ch9 §9.5 normative
//! tables: required attributes, counter consistency, cross-group
//! references, keywords, dates and field sizes.
use vstd::prelude::*;
use vstd::string::StringSliceAdditionalSpecFns;
use crate::error::{Diagnostic, DiagnosticV, Severity, views, count_severity, count_severity_v, lemma_count_severity_views, count_of_severity};
use crate::model::{TmatsDocument, TmatsDocumentV, TmatsDate, RGroupV, RChannelV, PGroupV, BGroupV, SGroupV, DataSourceDeclV, GGroupV};
use crate::ordered_map::OrderedMap;
use crate::text::{dec_string, push_str, push_dec, dec, upper, trim, eq_ignore_case, chars_of, chars_eq_ignore_case, chars_eq_str, chars_eq};
use crate::types_bridge::Irig106Version;
use crate::version::{AttrMetaV, registry, attr_table, pattern_index_from};

verus! {

// ─── Profiles and context ───────────────────────────────────────────────────

/// Selects which rules to apply.
#[derive(Debug, Clone)]
pub enum ValidationProfile {
    /// All rules.
    Full,
    /// Only R-CH10 and RO-CH10 tagged requirements.
    Ch10Required,
    /// Custom set of rule IDs.
    Custom(Vec<String>),
}

impl Default for ValidationProfile {
    fn default() -> (r: Self)
        ensures
            r is Full,
    {
        ValidationProfile::Full
    }
}

/// Where a TMATS record came from.
#[derive(Debug, Clone, Copy, PartialEq, Eq, Structural)]
pub enum TmatsSource {
    /// Extracted from a Ch10 setup record.
    Ch10,
    /// Standalone TMATS file (.TMT/.TMA/.TXT).
    Standalone,
    /// Origin unknown.
    Unknown,
}

/// Context provided to validation rules.
#[derive(Debug, Clone)]
pub struct ValidationContext {
    /// Target IRIG 106 version for version-specific rules.
    pub target_version: Option<Irig106Version>,
    /// Whether the source is a Ch10 file.
    pub source: TmatsSource,
    /// Which rules to apply.
    pub profile: ValidationProfile,
}

impl Default for ValidationContext {
    fn default() -> (r: Self)
        ensures
            r.target_version is None,
            r.source == TmatsSource::Unknown,
            r.profile is Full,
    {
        ValidationContext { target_version: None, source: TmatsSource::Unknown, profile: ValidationProfile::Full }
    }
}

/// Results of validation.
#[derive(Debug, Clone)]
pub struct ValidationReport {
    pub diagnostics: Vec<Diagnostic>,
    pub version_detected: Option<Irig106Version>,
    pub total_attributes: usize,
    pub errors: usize,
    pub warnings: usize,
    pub info: usize,
}

impl ValidationReport {
    pub fn has_errors(&self) -> (r: bool)
        ensures
            r == (self.errors > 0),
    {
        self.errors > 0
    }
}

/// A single validation rule.
pub trait ValidationRule {
    /// Unique rule identifier (e.g., "TMATS-V001").
    fn id(&self) -> &str;
    /// Human-readable description.
    fn description(&self) -> &str;
    /// Severity of findings from this rule.
    fn severity(&self) -> Severity;
    /// Spec section reference.
    fn spec_ref(&self) -> &str;
    /// Which IRIG 106 versions this rule applies to (empty = all).
    fn applicable_versions(&self) -> &[Irig106Version];
    /// Execute the rule against a document.
    fn check(&self, doc: &TmatsDocument, ctx: &ValidationContext) -> Vec<Diagnostic>;
}

// ─── Building blocks ────────────────────────────────────────────────────────

pub open spec fn dv(
    sev: Severity,
    rule: Seq<char>,
    msg: Seq<char>,
    spec_ref: Seq<char>,
    path: Option<Seq<char>>,
    expected: Option<Seq<char>>,
    actual: Option<Seq<char>>,
    fix: Option<Seq<char>>,
) -> DiagnosticV {
    DiagnosticV {
        severity: sev,
        rule_id: rule,
        message: msg,
        spec_reference: spec_ref,
        attribute_path: path,
        expected,
        actual,
        suggested_fix: fix,
    }
}

fn mk(
    sev: Severity,
    rule: &str,
    msg: String,
    spec_ref: &str,
    path: Option<String>,
    expected: Option<String>,
    actual: Option<String>,
    fix: Option<String>,
) -> (r: Diagnostic)
    ensures
        r@ == dv(sev, rule@, msg@, spec_ref@, crate::error::opt_text(path), crate::error::opt_text(expected),
            crate::error::opt_text(actual), crate::error::opt_text(fix)),
{
    Diagnostic {
        severity: sev,
        rule_id: st(rule),
        message: msg,
        spec_reference: st(spec_ref),
        attribute_path: path,
        expected,
        actual,
        suggested_fix: fix,
    }
}

/// A string holding `s`.
fn st(s: &str) -> (r: String)
    ensures
        r@ == s@,
{
    let mut r = String::new();
    push_str(&mut r, s);
    r
}

/// A string holding `a`, the digits of `n`, then `b`.
fn num_text(a: &str, n: u64, b: &str) -> (r: String)
    ensures
        r@ == a@ + dec(n as nat) + b@,
{
    let mut r = st(a);
    push_dec(&mut r, n);
    push_str(&mut r, b);
    r
}

fn extend(out: &mut Vec<Diagnostic>, more: Vec<Diagnostic>)
    ensures
        views(final(out)@) == views(old(out)@) + views(more@),
{
    let ghost o = views(out@);
    let ghost m = views(more@);
    let mut more = more;
    let n = more.len();
    let mut i: usize = 0;
    while i < n
        invariant
            i <= n,
            n == more@.len(),
            m.len() == n,
            forall|j: int| i <= j < n ==> more@[j]@ == m[j],
            views(out@) == o + m.take(i as int),
        decreases n - i,
    {
        let mut d = mk(Severity::Info, "", String::new(), "", None, None, None, None);
        more.set_and_swap(i, &mut d);
        let ghost before = views(out@);
        let ghost dw = d@;
        out.push(d);
        assert(views(out@) =~= before.push(dw));
        assert(m.take(i + 1) =~= m.take(i as int).push(m[i as int]));
        assert(views(out@) =~= o + m.take(i + 1));
        i = i + 1;
    }
    assert(m.take(n as int) =~= m);
}

/// The entry of `pattern` in the attribute table, if any.
pub open spec fn lookup(pattern: Seq<char>) -> Option<AttrMetaV> {
    let i = pattern_index_from(attr_table(), pattern, 0);
    if i >= 0 {
        Some(attr_table()[i])
    } else {
        None
    }
}

/// Words joined with `sep` between them.
pub open spec fn join(ws: Seq<Seq<char>>, sep: Seq<char>) -> Seq<char>
    decreases ws.len(),
{
    if ws.len() == 0 {
        Seq::empty()
    } else if ws.len() == 1 {
        ws[0]
    } else {
        join(ws.drop_last(), sep) + sep + ws.last()
    }
}

fn join_str(ws: &Vec<&'static str>, sep: &str) -> (r: String)
    ensures
        r@ == join(crate::version::str_views(ws@), sep@),
{
    let ghost w = crate::version::str_views(ws@);
    let mut s = String::new();
    let n = ws.len();
    for i in 0..n
        invariant
            n == ws@.len(),
            w == crate::version::str_views(ws@),
            s@ == join(w.take(i as int), sep@),
    {
        assert(w.take(i + 1).drop_last() =~= w.take(i as int));
        if i > 0 {
            push_str(&mut s, sep);
        }
        push_str(&mut s, ws[i]);
        proof {
            if i == 0 {
                assert(join(w.take(1), sep@) == w.take(1)[0]);
            }
        }
        assert(s@ =~= join(w.take(i + 1), sep@));
    }
    assert(w.take(n as int) =~= w);
    s
}

/// A string holding `a` then the digits of `n`.
fn pre_num(a: &str, n: u64) -> (r: String)
    ensures
        r@ == a@ + dec(n as nat),
{
    let mut r = st(a);
    push_dec(&mut r, n);
    r
}

// ─── Rule findings ──────────────────────────────────────────────────────────

pub open spec fn v001(d: TmatsDocumentV) -> Seq<DiagnosticV> {
    if d.general.program_name is None {
        seq![dv(Severity::Error, "TMATS-V001"@, "missing required attribute G\\PN (Program Name)"@,
            "Ch9 §9.5.2 Table 9-1"@, Some("G\\PN"@), Some("non-empty string"@), Some("absent"@),
            Some("add G\\PN:<program name>;"@))]
    } else {
        Seq::empty()
    }
}

pub open spec fn v002(d: TmatsDocumentV) -> Seq<DiagnosticV> {
    if d.general.irig106_version is None {
        seq![dv(Severity::Error, "TMATS-V002"@, "missing required attribute G\\106 (IRIG 106 Version)"@,
            "Ch9 §9.5.2 Table 9-1"@, Some("G\\106"@), Some("version string (e.g., '07', '17')"@), Some("absent"@),
            Some("add G\\106:<version>;"@))]
    } else {
        Seq::empty()
    }
}

pub open spec fn v010(d: TmatsDocumentV) -> Seq<DiagnosticV> {
    match d.general.num_data_sources {
        Some(declared) => {
            let actual = d.general.data_sources.len() as u32;
            if declared != actual {
                seq![dv(Severity::Error, "TMATS-V010"@,
                    "G\\DSI\\N declares "@ + dec(declared as nat) + " data sources but "@ + dec(actual as nat) + " found"@,
                    "Ch9 §9.5.2 Table 9-1"@, Some("G\\DSI\\N"@), Some(dec(actual as nat)), Some(dec(declared as nat)),
                    Some("change G\\DSI\\N to "@ + dec(actual as nat)))]
            } else {
                Seq::empty()
            }
        },
        None => Seq::empty(),
    }
}

pub open spec fn v011_one(acc: Seq<DiagnosticV>, idx: u32, r: RGroupV) -> Seq<DiagnosticV> {
    match r.num_channels {
        Some(declared) => {
            let actual = r.channels.len() as u32;
            if declared != actual {
                acc.push(dv(Severity::Error, "TMATS-V011"@,
                    "R-"@ + dec(idx as nat) + "\\N declares "@ + dec(declared as nat) + " channels but "@ + dec(actual as nat) + " found"@,
                    "Ch9 §9.5.4"@, Some("R-"@ + dec(idx as nat) + "\\N"@), Some(dec(actual as nat)), Some(dec(declared as nat)),
                    Some("change R-"@ + dec(idx as nat) + "\\N to "@ + dec(actual as nat))))
            } else {
                acc
            }
        },
        None => acc,
    }
}

pub open spec fn v011_all(rs: Seq<(u32, RGroupV)>) -> Seq<DiagnosticV>
    decreases rs.len(),
{
    if rs.len() == 0 {
        Seq::empty()
    } else {
        v011_one(v011_all(rs.drop_last()), rs.last().0, rs.last().1)
    }
}

pub open spec fn v011(d: TmatsDocumentV) -> Seq<DiagnosticV> {
    v011_all(d.recorders)
}

fn push_diag(out: &mut Vec<Diagnostic>, d: Diagnostic)
    ensures
        views(final(out)@) == views(old(out)@).push(d@),
{
    let ghost before = views(out@);
    let ghost dw = d@;
    out.push(d);
    assert(views(out@) =~= before.push(dw));
}

fn v011_push(out: &mut Vec<Diagnostic>, idx: u32, r: &crate::model::RGroup)
    ensures
        views(final(out)@) == v011_one(views(old(out)@), idx, r@),
{
    if let Some(declared) = r.num_channels {
        let actual = r.channels.len() as u32;
        if declared != actual {
            let mut msg = num_text("R-", idx as u64, "\\N declares ");
            push_dec(&mut msg, declared as u64);
            push_str(&mut msg, " channels but ");
            push_dec(&mut msg, actual as u64);
            push_str(&mut msg, " found");
            let mut fix = num_text("change R-", idx as u64, "\\N to ");
            push_dec(&mut fix, actual as u64);
            push_diag(out, mk(Severity::Error, "TMATS-V011", msg, "Ch9 §9.5.4", Some(num_text("R-", idx as u64, "\\N")),
                Some(crate::text::dec_string(actual as u64)), Some(crate::text::dec_string(declared as u64)), Some(fix)));
        }
    }
}

// Cross-group references.

pub open spec fn dlns_p(m: Seq<(u32, PGroupV)>) -> Seq<Seq<char>>
    decreases m.len(),
{
    if m.len() == 0 {
        Seq::empty()
    } else {
        match m.last().1.data_link_name {
            Some(x) => dlns_p(m.drop_last()).push(x),
            None => dlns_p(m.drop_last()),
        }
    }
}

pub open spec fn dlns_b(m: Seq<(u32, BGroupV)>) -> Seq<Seq<char>>
    decreases m.len(),
{
    if m.len() == 0 {
        Seq::empty()
    } else {
        match m.last().1.data_link_name {
            Some(x) => dlns_b(m.drop_last()).push(x),
            None => dlns_b(m.drop_last()),
        }
    }
}

pub open spec fn dlns_s(m: Seq<(u32, SGroupV)>) -> Seq<Seq<char>>
    decreases m.len(),
{
    if m.len() == 0 {
        Seq::empty()
    } else {
        match m.last().1.data_link_name {
            Some(x) => dlns_s(m.drop_last()).push(x),
            None => dlns_s(m.drop_last()),
        }
    }
}

/// The data link names of the P, B and S groups, in that order.
pub open spec fn known_spec(d: TmatsDocumentV) -> Seq<Seq<char>> {
    dlns_p(d.pcm_formats) + dlns_b(d.bus_data) + dlns_s(d.message_data)
}

pub open spec fn known_view(v: Seq<String>) -> Seq<Seq<char>> {
    v.map_values(|s: String| s@)
}

pub(crate) fn known_dlns(doc: &TmatsDocument) -> (r: Vec<String>)
    ensures
        known_view(r@) == known_spec(doc@),
{
    let mut out: Vec<String> = Vec::new();
    let mp = &doc.pcm_formats;
    let n = mp.len();
    for i in 0..n
        invariant
            n == mp@.len(),
            known_view(out@) == dlns_p(mp@.take(i as int)),
    {
        assert(mp@.take(i + 1).drop_last() =~= mp@.take(i as int));
        if let Some(x) = &mp.value_at(i).data_link_name {
            let ghost before = known_view(out@);
            out.push(x.clone());
            assert(known_view(out@) =~= before.push(x@));
        }
    }
    assert(mp@.take(n as int) =~= mp@);
    let ghost a = known_view(out@);
    let mb = &doc.bus_data;
    let n = mb.len();
    for i in 0..n
        invariant
            n == mb@.len(),
            known_view(out@) == a + dlns_b(mb@.take(i as int)),
    {
        assert(mb@.take(i + 1).drop_last() =~= mb@.take(i as int));
        if let Some(x) = &mb.value_at(i).data_link_name {
            let ghost before = known_view(out@);
            out.push(x.clone());
            assert(known_view(out@) =~= before.push(x@));
            assert(known_view(out@) =~= a + dlns_b(mb@.take(i + 1)));
        } else {
            assert(known_view(out@) =~= a + dlns_b(mb@.take(i + 1)));
        }
    }
    assert(mb@.take(n as int) =~= mb@);
    let ghost b = known_view(out@);
    let ms = &doc.message_data;
    let n = ms.len();
    for i in 0..n
        invariant
            n == ms@.len(),
            known_view(out@) == b + dlns_s(ms@.take(i as int)),
    {
        assert(ms@.take(i + 1).drop_last() =~= ms@.take(i as int));
        if let Some(x) = &ms.value_at(i).data_link_name {
            let ghost before = known_view(out@);
            out.push(x.clone());
            assert(known_view(out@) =~= before.push(x@));
            assert(known_view(out@) =~= b + dlns_s(ms@.take(i + 1)));
        } else {
            assert(known_view(out@) =~= b + dlns_s(ms@.take(i + 1)));
        }
    }
    assert(ms@.take(n as int) =~= ms@);
    out
}

/// Whether a name equals one of `known` up to ASCII case.
pub open spec fn has_match(known: Seq<Seq<char>>, c: Seq<char>) -> bool {
    exists|i: int| 0 <= i < known.len() && eq_ignore_case(#[trigger] known[i], c)
}

pub(crate) fn matches_any(known: &Vec<String>, c: &String) -> (r: bool)
    ensures
        r == has_match(known_view(known@), c@),
{
    let cv = chars_of(c.as_str());
    let n = known.len();
    for i in 0..n
        invariant
            n == known@.len(),
            cv@ == c@,
            forall|j: int| 0 <= j < i ==> !eq_ignore_case(known_view(known@)[j], c@),
    {
        let k = chars_of(known[i].as_str());
        if chars_eq_ignore_case(&k, &cv) {
            assert(eq_ignore_case(known_view(known@)[i as int], c@));
            return true;
        }
    }
    false
}

pub open spec fn v020_chan(acc: Seq<DiagnosticV>, ri: u32, ci: u32, ch: RChannelV, known: Seq<Seq<char>>) -> Seq<DiagnosticV> {
    match ch.data_link_name {
        Some(c) => if !has_match(known, c) {
            acc.push(dv(Severity::Warning, "TMATS-V020"@,
                "R-"@ + dec(ri as nat) + "\\CDLN-"@ + dec(ci as nat) + " references '"@ + c + "' which has no matching P/B/S group"@,
                "Ch9 §9.5.1 Figure 9-1"@, Some("R-"@ + dec(ri as nat) + "\\CDLN-"@ + dec(ci as nat)),
                Some("valid data link name from P/B/S group"@), Some(c), None))
        } else {
            acc
        },
        None => acc,
    }
}

pub open spec fn v020_chans(acc: Seq<DiagnosticV>, ri: u32, chs: Seq<(u32, RChannelV)>, known: Seq<Seq<char>>) -> Seq<DiagnosticV>
    decreases chs.len(),
{
    if chs.len() == 0 {
        acc
    } else {
        v020_chan(v020_chans(acc, ri, chs.drop_last(), known), ri, chs.last().0, chs.last().1, known)
    }
}

pub open spec fn v020_all(rs: Seq<(u32, RGroupV)>, known: Seq<Seq<char>>) -> Seq<DiagnosticV>
    decreases rs.len(),
{
    if rs.len() == 0 {
        Seq::empty()
    } else {
        v020_chans(v020_all(rs.drop_last(), known), rs.last().0, rs.last().1.channels, known)
    }
}

pub open spec fn v020(d: TmatsDocumentV) -> Seq<DiagnosticV> {
    v020_all(d.recorders, known_spec(d))
}

fn v020_push(out: &mut Vec<Diagnostic>, ri: u32, r: &crate::model::RGroup, known: &Vec<String>)
    ensures
        views(final(out)@) == v020_chans(views(old(out)@), ri, r@.channels, known_view(known@)),
{
    let ghost acc = views(out@);
    let m = &r.channels;
    let n = m.len();
    for i in 0..n
        invariant
            n == m@.len(),
            m@ == r@.channels,
            views(out@) == v020_chans(acc, ri, m@.take(i as int), known_view(known@)),
    {
        assert(m@.take(i + 1).drop_last() =~= m@.take(i as int));
        let ci = m.key_at(i);
        if let Some(c) = &m.value_at(i).data_link_name {
            if !matches_any(known, c) {
                let mut msg = num_text("R-", ri as u64, "\\CDLN-");
                push_dec(&mut msg, ci as u64);
                push_str(&mut msg, " references '");
                push_str(&mut msg, c.as_str());
                push_str(&mut msg, "' which has no matching P/B/S group");
                let mut path = num_text("R-", ri as u64, "\\CDLN-");
                push_dec(&mut path, ci as u64);
                push_diag(out, mk(Severity::Warning, "TMATS-V020", msg, "Ch9 §9.5.1 Figure 9-1", Some(path),
                    Some(st("valid data link name from P/B/S group")), Some(c.clone()), None));
            }
        }
    }
    assert(m@.take(n as int) =~= m@);
}

// Keywords.

pub open spec fn v030_one(acc: Seq<DiagnosticV>, idx: u32, ds: DataSourceDeclV, meta: AttrMetaV) -> Seq<DiagnosticV> {
    match ds.data_source_type {
        Some(val) => if !meta.keyword_ok(val) {
            acc.push(dv(Severity::Error, "TMATS-V030"@,
                "G\\DST-"@ + dec(idx as nat) + " value '"@ + val + "' is not a valid keyword"@,
                "Ch9 §9.5.2 Table 9-1"@, Some("G\\DST-"@ + dec(idx as nat)), Some(join(meta.keywords, ", "@)), Some(val),
                Some("use one of: "@ + join(meta.keywords, ", "@))))
        } else {
            acc
        },
        None => acc,
    }
}

pub open spec fn v030_all(m: Seq<(u32, DataSourceDeclV)>, meta: AttrMetaV) -> Seq<DiagnosticV>
    decreases m.len(),
{
    if m.len() == 0 {
        Seq::empty()
    } else {
        v030_one(v030_all(m.drop_last(), meta), m.last().0, m.last().1, meta)
    }
}

pub open spec fn v030(d: TmatsDocumentV, meta: AttrMetaV) -> Seq<DiagnosticV> {
    v030_all(d.general.data_sources, meta)
}

pub open spec fn v031_chan(acc: Seq<DiagnosticV>, ri: u32, ci: u32, ch: RChannelV, meta: AttrMetaV) -> Seq<DiagnosticV> {
    match ch.data_packing_option {
        Some(val) => if !meta.keyword_ok(val) {
            acc.push(dv(Severity::Error, "TMATS-V031"@,
                "R-"@ + dec(ri as nat) + "\\PDP-"@ + dec(ci as nat) + " value '"@ + val + "' is not a valid packing option"@,
                "Ch9 §9.5.4"@, Some("R-"@ + dec(ri as nat) + "\\PDP-"@ + dec(ci as nat)), Some(join(meta.keywords, ", "@)),
                Some(val), Some("use one of: "@ + join(meta.keywords, ", "@))))
        } else {
            acc
        },
        None => acc,
    }
}

pub open spec fn v031_chans(acc: Seq<DiagnosticV>, ri: u32, chs: Seq<(u32, RChannelV)>, meta: AttrMetaV) -> Seq<DiagnosticV>
    decreases chs.len(),
{
    if chs.len() == 0 {
        acc
    } else {
        v031_chan(v031_chans(acc, ri, chs.drop_last(), meta), ri, chs.last().0, chs.last().1, meta)
    }
}

pub open spec fn v031_all(rs: Seq<(u32, RGroupV)>, meta: AttrMetaV) -> Seq<DiagnosticV>
    decreases rs.len(),
{
    if rs.len() == 0 {
        Seq::empty()
    } else {
        v031_chans(v031_all(rs.drop_last(), meta), rs.last().0, rs.last().1.channels, meta)
    }
}

pub open spec fn v031(d: TmatsDocumentV, meta: AttrMetaV) -> Seq<DiagnosticV> {
    v031_all(d.recorders, meta)
}

fn v031_push(out: &mut Vec<Diagnostic>, ri: u32, r: &crate::model::RGroup, meta: &crate::version::AttrMeta)
    ensures
        views(final(out)@) == v031_chans(views(old(out)@), ri, r@.channels, meta@),
{
    let ghost acc = views(out@);
    let m = &r.channels;
    let n = m.len();
    for i in 0..n
        invariant
            n == m@.len(),
            m@ == r@.channels,
            views(out@) == v031_chans(acc, ri, m@.take(i as int), meta@),
    {
        assert(m@.take(i + 1).drop_last() =~= m@.take(i as int));
        let ci = m.key_at(i);
        if let Some(val) = &m.value_at(i).data_packing_option {
            if !meta.validate_keyword(val.as_str()) {
                let mut msg = num_text("R-", ri as u64, "\\PDP-");
                push_dec(&mut msg, ci as u64);
                push_str(&mut msg, " value '");
                push_str(&mut msg, val.as_str());
                push_str(&mut msg, "' is not a valid packing option");
                let mut path = num_text("R-", ri as u64, "\\PDP-");
                push_dec(&mut path, ci as u64);
                let kws = join_str(&meta.keywords, ", ");
                let mut fix = st("use one of: ");
                push_str(&mut fix, kws.as_str());
                push_diag(out, mk(Severity::Error, "TMATS-V031", msg, "Ch9 §9.5.4", Some(path), Some(kws), Some(val.clone()),
                    Some(fix)));
            }
        }
    }
    assert(m@.take(n as int) =~= m@);
}

pub open spec fn v032_one(acc: Seq<DiagnosticV>, idx: u32, p: PGroupV, meta: AttrMetaV) -> Seq<DiagnosticV> {
    match p.encoding {
        Some(val) => if !meta.keyword_ok(val) {
            acc.push(dv(Severity::Error, "TMATS-V032"@,
                "P-"@ + dec(idx as nat) + "\\D2 encoding '"@ + val + "' is not valid"@,
                "Ch9 §9.5.6.1"@, Some("P-"@ + dec(idx as nat) + "\\D2"@), Some(join(meta.keywords, ", "@)), Some(val), None))
        } else {
            acc
        },
        None => acc,
    }
}

pub open spec fn v032_all(m: Seq<(u32, PGroupV)>, meta: AttrMetaV) -> Seq<DiagnosticV>
    decreases m.len(),
{
    if m.len() == 0 {
        Seq::empty()
    } else {
        v032_one(v032_all(m.drop_last(), meta), m.last().0, m.last().1, meta)
    }
}

pub open spec fn v032(d: TmatsDocumentV, meta: AttrMetaV) -> Seq<DiagnosticV> {
    v032_all(d.pcm_formats, meta)
}

pub open spec fn v033_one(acc: Seq<DiagnosticV>, idx: u32, b: BGroupV, meta: AttrMetaV) -> Seq<DiagnosticV> {
    match b.bus_type {
        Some(val) => if !meta.keyword_ok(val) {
            acc.push(dv(Severity::Error, "TMATS-V033"@,
                "B-"@ + dec(idx as nat) + "\\BT bus type '"@ + val + "' is not valid"@,
                "Ch9 §9.5.6.3"@, Some("B-"@ + dec(idx as nat) + "\\BT"@), Some(join(meta.keywords, ", "@)), Some(val), None))
        } else {
            acc
        },
        None => acc,
    }
}

pub open spec fn v033_all(m: Seq<(u32, BGroupV)>, meta: AttrMetaV) -> Seq<DiagnosticV>
    decreases m.len(),
{
    if m.len() == 0 {
        Seq::empty()
    } else {
        v033_one(v033_all(m.drop_last(), meta), m.last().0, m.last().1, meta)
    }
}

pub open spec fn v033(d: TmatsDocumentV, meta: AttrMetaV) -> Seq<DiagnosticV> {
    v033_all(d.bus_data, meta)
}

// Dates and field sizes.

/// A date whose month is not 1..=12 or whose day is not 1..=31.
pub open spec fn bad_date(d: TmatsDate) -> bool {
    d.month == 0 || d.month > 12 || d.day == 0 || d.day > 31
}

pub open spec fn v040(doc: TmatsDocumentV) -> Seq<DiagnosticV> {
    let a = match doc.general.origination_date {
        Some(d) => if bad_date(d) {
            seq![dv(Severity::Warning, "TMATS-V040"@, "G\\OD date '"@ + d.spec_tmats_text() + "' has invalid month/day values"@,
                "Ch9 §9.5.2 Table 9-1"@, Some("G\\OD"@), Some("valid MM-DD-YYYY (1≤MM≤12, 1≤DD≤31)"@),
                Some(d.spec_tmats_text()), None)]
        } else {
            Seq::empty()
        },
        None => Seq::empty(),
    };
    match doc.general.revision_date {
        Some(d) => if bad_date(d) {
            a.push(dv(Severity::Warning, "TMATS-V040"@, "G\\RD date '"@ + d.spec_tmats_text() + "' has invalid month/day values"@,
                "Ch9 §9.5.2 Table 9-1"@, Some("G\\RD"@), Some("valid MM-DD-YYYY"@), Some(d.spec_tmats_text()), None))
        } else {
            a
        },
        None => a,
    }
}

pub open spec fn v050(doc: TmatsDocumentV, meta: AttrMetaV) -> Seq<DiagnosticV> {
    match doc.general.program_name {
        Some(pn) => {
            let n = vstd::utf8::encode_utf8(pn).len();
            if !meta.mfs_ok(n) {
                let mfs: nat = match meta.max_field_size {
                    Some(m) => m as nat,
                    None => 0,
                };
                seq![dv(Severity::Warning, "TMATS-V050"@,
                    "G\\PN '"@ + pn + "' exceeds MFS of "@ + dec(mfs) + " characters (actual: "@ + dec(n) + ")"@,
                    "Ch9 §9.5.2 Table 9-1"@, Some("G\\PN"@), Some("≤"@ + dec(mfs) + " chars"@), Some(dec(n)),
                    Some("truncate program name"@))]
            } else {
                Seq::empty()
            }
        },
        None => Seq::empty(),
    }
}

// Required group attributes.

/// The finding for a missing required attribute.
pub open spec fn missing(rule: Seq<char>, sref: Seq<char>, path: Seq<char>, name: Seq<char>) -> DiagnosticV {
    dv(Severity::Error, rule, "missing required attribute "@ + path + " ("@ + name + ")"@, sref, Some(path),
        Some("non-empty value"@), Some("absent"@), Some("add "@ + path + ":<value>;"@))
}

fn push_missing(out: &mut Vec<Diagnostic>, rule: &str, sref: &str, path: String, name: &str)
    ensures
        views(final(out)@) == views(old(out)@).push(missing(rule@, sref@, path@, name@)),
{
    let mut msg = st("missing required attribute ");
    push_str(&mut msg, path.as_str());
    push_str(&mut msg, " (");
    push_str(&mut msg, name);
    push_str(&mut msg, ")");
    let mut fix = st("add ");
    push_str(&mut fix, path.as_str());
    push_str(&mut fix, ":<value>;");
    let p2 = path.clone();
    push_diag(out, mk(Severity::Error, rule, msg, sref, Some(path), Some(st("non-empty value")), Some(st("absent")), Some(fix)));
    assert(p2@ == path@);
}

pub open spec fn v060_one(acc: Seq<DiagnosticV>, idx: u32, p: PGroupV) -> Seq<DiagnosticV> {
    let pfx = "P-"@ + dec(idx as nat);
    let r = "TMATS-V060"@;
    let s = "Ch9 §9.5.6.1"@;
    let a = if p.data_link_name is None { acc.push(missing(r, s, pfx + "\\DLN"@, "Data Link Name"@)) } else { acc };
    let a = if p.bit_rate is None { a.push(missing(r, s, pfx + "\\D1"@, "Bit Rate"@)) } else { a };
    let a = if p.encoding is None { a.push(missing(r, s, pfx + "\\D2"@, "Encoding"@)) } else { a };
    let a = if p.num_words_per_frame is None { a.push(missing(r, s, pfx + "\\F1"@, "Words per Frame"@)) } else { a };
    let a = if p.num_bits_per_word is None { a.push(missing(r, s, pfx + "\\F2"@, "Bits per Word"@)) } else { a };
    if p.sync_pattern is None { a.push(missing(r, s, pfx + "\\F3"@, "Sync Pattern"@)) } else { a }
}

pub open spec fn v060_all(m: Seq<(u32, PGroupV)>) -> Seq<DiagnosticV>
    decreases m.len(),
{
    if m.len() == 0 {
        Seq::empty()
    } else {
        v060_one(v060_all(m.drop_last()), m.last().0, m.last().1)
    }
}

pub open spec fn v060(d: TmatsDocumentV) -> Seq<DiagnosticV> {
    v060_all(d.pcm_formats)
}

fn v060_push(out: &mut Vec<Diagnostic>, idx: u32, p: &crate::model::PGroup)
    ensures
        views(final(out)@) == v060_one(views(old(out)@), idx, p@),
{
    if p.data_link_name.is_none() {
        push_missing(out, "TMATS-V060", "Ch9 §9.5.6.1", num_text("P-", idx as u64, "\\DLN"), "Data Link Name");
    }
    if p.bit_rate.is_none() {
        push_missing(out, "TMATS-V060", "Ch9 §9.5.6.1", num_text("P-", idx as u64, "\\D1"), "Bit Rate");
    }
    if p.encoding.is_none() {
        push_missing(out, "TMATS-V060", "Ch9 §9.5.6.1", num_text("P-", idx as u64, "\\D2"), "Encoding");
    }
    if p.num_words_per_frame.is_none() {
        push_missing(out, "TMATS-V060", "Ch9 §9.5.6.1", num_text("P-", idx as u64, "\\F1"), "Words per Frame");
    }
    if p.num_bits_per_word.is_none() {
        push_missing(out, "TMATS-V060", "Ch9 §9.5.6.1", num_text("P-", idx as u64, "\\F2"), "Bits per Word");
    }
    if p.sync_pattern.is_none() {
        push_missing(out, "TMATS-V060", "Ch9 §9.5.6.1", num_text("P-", idx as u64, "\\F3"), "Sync Pattern");
    }
}

pub open spec fn v061_one(acc: Seq<DiagnosticV>, idx: u32, b: BGroupV) -> Seq<DiagnosticV> {
    let pfx = "B-"@ + dec(idx as nat);
    let r = "TMATS-V061"@;
    let s = "Ch9 §9.5.6.3"@;
    let a = if b.data_link_name is None { acc.push(missing(r, s, pfx + "\\DLN"@, "Data Link Name"@)) } else { acc };
    if b.bus_type is None { a.push(missing(r, s, pfx + "\\BT"@, "Bus Type"@)) } else { a }
}

pub open spec fn v061_all(m: Seq<(u32, BGroupV)>) -> Seq<DiagnosticV>
    decreases m.len(),
{
    if m.len() == 0 {
        Seq::empty()
    } else {
        v061_one(v061_all(m.drop_last()), m.last().0, m.last().1)
    }
}

pub open spec fn v061(d: TmatsDocumentV) -> Seq<DiagnosticV> {
    v061_all(d.bus_data)
}

fn v061_push(out: &mut Vec<Diagnostic>, idx: u32, b: &crate::model::BGroup)
    ensures
        views(final(out)@) == v061_one(views(old(out)@), idx, b@),
{
    if b.data_link_name.is_none() {
        push_missing(out, "TMATS-V061", "Ch9 §9.5.6.3", num_text("B-", idx as u64, "\\DLN"), "Data Link Name");
    }
    if b.bus_type.is_none() {
        push_missing(out, "TMATS-V061", "Ch9 §9.5.6.3", num_text("B-", idx as u64, "\\BT"), "Bus Type");
    }
}

// ─── Rules ──────────────────────────────────────────────────────────────────

struct RequiredGProgramName;

impl ValidationRule for RequiredGProgramName {
    fn id(&self) -> (r: &str)
        ensures
            r@ == "TMATS-V001"@,
    {
        "TMATS-V001"
    }

    fn description(&self) -> (r: &str)
        ensures
            r@ == "G\\PN (Program Name) is required"@,
    {
        "G\\PN (Program Name) is required"
    }

    fn severity(&self) -> (r: Severity)
        ensures
            r == Severity::Error,
    {
        Severity::Error
    }

    fn spec_ref(&self) -> (r: &str)
        ensures
            r@ == "Ch9 §9.5.2 Table 9-1"@,
    {
        "Ch9 §9.5.2 Table 9-1"
    }

    fn applicable_versions(&self) -> (r: &[Irig106Version])
        ensures
            r@.len() == 0,
    {
        &[]
    }

    fn check(&self, doc: &TmatsDocument, ctx: &ValidationContext) -> (r: Vec<Diagnostic>)
        ensures
            views(r@) == v001(doc@),
    {
        let mut out: Vec<Diagnostic> = Vec::new();
        if doc.general.program_name.is_none() {
            out.push(mk(Severity::Error, "TMATS-V001", st("missing required attribute G\\PN (Program Name)"),
                "Ch9 §9.5.2 Table 9-1", Some(st("G\\PN")), Some(st("non-empty string")), Some(st("absent")),
                Some(st("add G\\PN:<program name>;"))));
        }
        assert(views(out@) =~= v001(doc@));
        out
    }
}

struct RequiredGVersion;

impl ValidationRule for RequiredGVersion {
    fn id(&self) -> (r: &str)
        ensures
            r@ == "TMATS-V002"@,
    {
        "TMATS-V002"
    }

    fn description(&self) -> (r: &str)
        ensures
            r@ == "G\\106 (IRIG 106 Version) is required"@,
    {
        "G\\106 (IRIG 106 Version) is required"
    }

    fn severity(&self) -> (r: Severity)
        ensures
            r == Severity::Error,
    {
        Severity::Error
    }

    fn spec_ref(&self) -> (r: &str)
        ensures
            r@ == "Ch9 §9.5.2 Table 9-1"@,
    {
        "Ch9 §9.5.2 Table 9-1"
    }

    fn applicable_versions(&self) -> (r: &[Irig106Version])
        ensures
            r@.len() == 0,
    {
        &[]
    }

    fn check(&self, doc: &TmatsDocument, ctx: &ValidationContext) -> (r: Vec<Diagnostic>)
        ensures
            views(r@) == v002(doc@),
    {
        let mut out: Vec<Diagnostic> = Vec::new();
        if doc.general.irig106_version.is_none() {
            out.push(mk(Severity::Error, "TMATS-V002", st("missing required attribute G\\106 (IRIG 106 Version)"),
                "Ch9 §9.5.2 Table 9-1", Some(st("G\\106")), Some(st("version string (e.g., '07', '17')")), Some(st("absent")),
                Some(st("add G\\106:<version>;"))));
        }
        assert(views(out@) =~= v002(doc@));
        out
    }
}

struct CounterConsistencyGDsi;

impl ValidationRule for CounterConsistencyGDsi {
    fn id(&self) -> (r: &str)
        ensures
            r@ == "TMATS-V010"@,
    {
        "TMATS-V010"
    }

    fn description(&self) -> (r: &str)
        ensures
            r@ == "G\\DSI\\N counter matches data source count"@,
    {
        "G\\DSI\\N counter matches data source count"
    }

    fn severity(&self) -> (r: Severity)
        ensures
            r == Severity::Error,
    {
        Severity::Error
    }

    fn spec_ref(&self) -> (r: &str)
        ensures
            r@ == "Ch9 §9.5.2 Table 9-1"@,
    {
        "Ch9 §9.5.2 Table 9-1"
    }

    fn applicable_versions(&self) -> (r: &[Irig106Version])
        ensures
            r@.len() == 0,
    {
        &[]
    }

    fn check(&self, doc: &TmatsDocument, ctx: &ValidationContext) -> (r: Vec<Diagnostic>)
        ensures
            views(r@) == v010(doc@),
    {
        let mut out: Vec<Diagnostic> = Vec::new();
        if let Some(declared) = doc.general.num_data_sources {
            let actual = doc.general.data_sources.len() as u32;
            if declared != actual {
                let mut msg = num_text("G\\DSI\\N declares ", declared as u64, " data sources but ");
                push_dec(&mut msg, actual as u64);
                push_str(&mut msg, " found");
                out.push(mk(Severity::Error, "TMATS-V010", msg, "Ch9 §9.5.2 Table 9-1", Some(st("G\\DSI\\N")),
                    Some(dec_string(actual as u64)), Some(dec_string(declared as u64)),
                    Some(pre_num("change G\\DSI\\N to ", actual as u64))));
            }
        }
        assert(views(out@) =~= v010(doc@));
        out
    }
}

struct CounterConsistencyRN;

impl ValidationRule for CounterConsistencyRN {
    fn id(&self) -> (r: &str)
        ensures
            r@ == "TMATS-V011"@,
    {
        "TMATS-V011"
    }

    fn description(&self) -> (r: &str)
        ensures
            r@ == "R-x\\N counter matches channel count"@,
    {
        "R-x\\N counter matches channel count"
    }

    fn severity(&self) -> (r: Severity)
        ensures
            r == Severity::Error,
    {
        Severity::Error
    }

    fn spec_ref(&self) -> (r: &str)
        ensures
            r@ == "Ch9 §9.5.4"@,
    {
        "Ch9 §9.5.4"
    }

    fn applicable_versions(&self) -> (r: &[Irig106Version])
        ensures
            r@.len() == 0,
    {
        &[]
    }

    fn check(&self, doc: &TmatsDocument, ctx: &ValidationContext) -> (r: Vec<Diagnostic>)
        ensures
            views(r@) == v011(doc@),
    {
        let mut out: Vec<Diagnostic> = Vec::new();
        let m = &doc.recorders;
        let n = m.len();
        for i in 0..n
            invariant
                n == m@.len(),
                m@ == doc@.recorders,
                views(out@) == v011_all(m@.take(i as int)),
        {
            assert(m@.take(i + 1).drop_last() =~= m@.take(i as int));
            v011_push(&mut out, m.key_at(i), m.value_at(i));
        }
        assert(m@.take(n as int) =~= m@);
        out
    }
}

struct CrossGroupRefCdln;

impl ValidationRule for CrossGroupRefCdln {
    fn id(&self) -> (r: &str)
        ensures
            r@ == "TMATS-V020"@,
    {
        "TMATS-V020"
    }

    fn description(&self) -> (r: &str)
        ensures
            r@ == "R-x\\CDLN-n references a valid P/B/S data link name"@,
    {
        "R-x\\CDLN-n references a valid P/B/S data link name"
    }

    fn severity(&self) -> (r: Severity)
        ensures
            r == Severity::Warning,
    {
        Severity::Warning
    }

    fn spec_ref(&self) -> (r: &str)
        ensures
            r@ == "Ch9 §9.5.1 Figure 9-1"@,
    {
        "Ch9 §9.5.1 Figure 9-1"
    }

    fn applicable_versions(&self) -> (r: &[Irig106Version])
        ensures
            r@.len() == 0,
    {
        &[]
    }

    fn check(&self, doc: &TmatsDocument, ctx: &ValidationContext) -> (r: Vec<Diagnostic>)
        ensures
            views(r@) == v020(doc@),
    {
        let known = known_dlns(doc);
        let mut out: Vec<Diagnostic> = Vec::new();
        let m = &doc.recorders;
        let n = m.len();
        for i in 0..n
            invariant
                n == m@.len(),
                m@ == doc@.recorders,
                known_view(known@) == known_spec(doc@),
                views(out@) == v020_all(m@.take(i as int), known_spec(doc@)),
        {
            assert(m@.take(i + 1).drop_last() =~= m@.take(i as int));
            v020_push(&mut out, m.key_at(i), m.value_at(i), &known);
        }
        assert(m@.take(n as int) =~= m@);
        out
    }
}

struct KeywordValidationGDst;

impl ValidationRule for KeywordValidationGDst {
    fn id(&self) -> (r: &str)
        ensures
            r@ == "TMATS-V030"@,
    {
        "TMATS-V030"
    }

    fn description(&self) -> (r: &str)
        ensures
            r@ == "G\\DST-n value must be a valid keyword"@,
    {
        "G\\DST-n value must be a valid keyword"
    }

    fn severity(&self) -> (r: Severity)
        ensures
            r == Severity::Error,
    {
        Severity::Error
    }

    fn spec_ref(&self) -> (r: &str)
        ensures
            r@ == "Ch9 §9.5.2 Table 9-1"@,
    {
        "Ch9 §9.5.2 Table 9-1"
    }

    fn applicable_versions(&self) -> (r: &[Irig106Version])
        ensures
            r@.len() == 0,
    {
        &[]
    }

    fn check(&self, doc: &TmatsDocument, ctx: &ValidationContext) -> (r: Vec<Diagnostic>)
        ensures
            views(r@) == (match lookup("G\\DST-n"@) { Some(m) => v030(doc@, m), None => Seq::<DiagnosticV>::empty() }),
    {
        let reg = registry();
        let meta = match reg.get("G\\DST-n") {
            Some(m) => m,
            None => {
                let v: Vec<Diagnostic> = Vec::new();
                assert(views(v@) =~= Seq::<DiagnosticV>::empty());
                return v;
            },
        };
        let mut out: Vec<Diagnostic> = Vec::new();
        let m = &doc.general.data_sources;
        let n = m.len();
        for i in 0..n
            invariant
                n == m@.len(),
                m@ == doc@.general.data_sources,
                lookup("G\\DST-n"@) == Some(meta@),
                views(out@) == v030_all(m@.take(i as int), meta@),
        {
            assert(m@.take(i + 1).drop_last() =~= m@.take(i as int));
            let idx = m.key_at(i);
            let ds = m.value_at(i);
            if let Some(val) = &ds.data_source_type {
                if !meta.validate_keyword(val.as_str()) {
                    let mut msg = num_text("G\\DST-", idx as u64, " value '");
                    push_str(&mut msg, val.as_str());
                    push_str(&mut msg, "' is not a valid keyword");
                    let kws = join_str(&meta.keywords, ", ");
                    let mut fix = st("use one of: ");
                    push_str(&mut fix, kws.as_str());
                    let d = mk(Severity::Error, "TMATS-V030", msg, "Ch9 §9.5.2 Table 9-1",
                        Some(pre_num("G\\DST-", idx as u64)), Some(kws), Some(val.clone()), Some(fix));
                    let ghost before = views(out@);
                    let ghost dw = d@;
                    out.push(d);
                    assert(views(out@) =~= before.push(dw));
                }
            }
                assert(views(out@) =~= v030_all(m@.take(i + 1), meta@));
        }
        assert(m@.take(n as int) =~= m@);
        out
    }
}

struct KeywordValidationRPdp;

impl ValidationRule for KeywordValidationRPdp {
    fn id(&self) -> (r: &str)
        ensures
            r@ == "TMATS-V031"@,
    {
        "TMATS-V031"
    }

    fn description(&self) -> (r: &str)
        ensures
            r@ == "R-x\\PDP-n must be a valid packing keyword"@,
    {
        "R-x\\PDP-n must be a valid packing keyword"
    }

    fn severity(&self) -> (r: Severity)
        ensures
            r == Severity::Error,
    {
        Severity::Error
    }

    fn spec_ref(&self) -> (r: &str)
        ensures
            r@ == "Ch9 §9.5.4"@,
    {
        "Ch9 §9.5.4"
    }

    fn applicable_versions(&self) -> (r: &[Irig106Version])
        ensures
            r@.len() == 0,
    {
        &[]
    }

    fn check(&self, doc: &TmatsDocument, ctx: &ValidationContext) -> (r: Vec<Diagnostic>)
        ensures
            views(r@) == (match lookup("R-x\\PDP-n"@) { Some(m) => v031(doc@, m), None => Seq::<DiagnosticV>::empty() }),
    {
        let reg = registry();
        let meta = match reg.get("R-x\\PDP-n") {
            Some(m) => m,
            None => {
                let v: Vec<Diagnostic> = Vec::new();
                assert(views(v@) =~= Seq::<DiagnosticV>::empty());
                return v;
            },
        };
        let mut out: Vec<Diagnostic> = Vec::new();
        let m = &doc.recorders;
        let n = m.len();
        for i in 0..n
            invariant
                n == m@.len(),
                m@ == doc@.recorders,
                lookup("R-x\\PDP-n"@) == Some(meta@),
                views(out@) == v031_all(m@.take(i as int), meta@),
        {
            assert(m@.take(i + 1).drop_last() =~= m@.take(i as int));
            v031_push(&mut out, m.key_at(i), m.value_at(i), meta);
        }
        assert(m@.take(n as int) =~= m@);
        out
    }
}

struct KeywordValidationPEncoding;

impl ValidationRule for KeywordValidationPEncoding {
    fn id(&self) -> (r: &str)
        ensures
            r@ == "TMATS-V032"@,
    {
        "TMATS-V032"
    }

    fn description(&self) -> (r: &str)
        ensures
            r@ == "P-n\\D2 must be a valid PCM encoding keyword"@,
    {
        "P-n\\D2 must be a valid PCM encoding keyword"
    }

    fn severity(&self) -> (r: Severity)
        ensures
            r == Severity::Error,
    {
        Severity::Error
    }

    fn spec_ref(&self) -> (r: &str)
        ensures
            r@ == "Ch9 §9.5.6.1"@,
    {
        "Ch9 §9.5.6.1"
    }

    fn applicable_versions(&self) -> (r: &[Irig106Version])
        ensures
            r@.len() == 0,
    {
        &[]
    }

    fn check(&self, doc: &TmatsDocument, ctx: &ValidationContext) -> (r: Vec<Diagnostic>)
        ensures
            views(r@) == (match lookup("P-n\\D2"@) { Some(m) => v032(doc@, m), None => Seq::<DiagnosticV>::empty() }),
    {
        let reg = registry();
        let meta = match reg.get("P-n\\D2") {
            Some(m) => m,
            None => {
                let v: Vec<Diagnostic> = Vec::new();
                assert(views(v@) =~= Seq::<DiagnosticV>::empty());
                return v;
            },
        };
        let mut out: Vec<Diagnostic> = Vec::new();
        let m = &doc.pcm_formats;
        let n = m.len();
        for i in 0..n
            invariant
                n == m@.len(),
                m@ == doc@.pcm_formats,
                lookup("P-n\\D2"@) == Some(meta@),
                views(out@) == v032_all(m@.take(i as int), meta@),
        {
            assert(m@.take(i + 1).drop_last() =~= m@.take(i as int));
            let idx = m.key_at(i);
            let p = m.value_at(i);
            if let Some(val) = &p.encoding {
                if !meta.validate_keyword(val.as_str()) {
                    let mut msg = num_text("P-", idx as u64, "\\D2 encoding '");
                    push_str(&mut msg, val.as_str());
                    push_str(&mut msg, "' is not valid");
                    let d = mk(Severity::Error, "TMATS-V032", msg, "Ch9 §9.5.6.1",
                        Some(num_text("P-", idx as u64, "\\D2")), Some(join_str(&meta.keywords, ", ")), Some(val.clone()), None);
                    let ghost before = views(out@);
                    let ghost dw = d@;
                    out.push(d);
                    assert(views(out@) =~= before.push(dw));
                }
            }
            assert(views(out@) =~= v032_all(m@.take(i + 1), meta@));
        }
        assert(m@.take(n as int) =~= m@);
        out
    }
}

struct KeywordValidationBBusType;

impl ValidationRule for KeywordValidationBBusType {
    fn id(&self) -> (r: &str)
        ensures
            r@ == "TMATS-V033"@,
    {
        "TMATS-V033"
    }

    fn description(&self) -> (r: &str)
        ensures
            r@ == "B-n\\BT must be a valid bus type keyword"@,
    {
        "B-n\\BT must be a valid bus type keyword"
    }

    fn severity(&self) -> (r: Severity)
        ensures
            r == Severity::Error,
    {
        Severity::Error
    }

    fn spec_ref(&self) -> (r: &str)
        ensures
            r@ == "Ch9 §9.5.6.3"@,
    {
        "Ch9 §9.5.6.3"
    }

    fn applicable_versions(&self) -> (r: &[Irig106Version])
        ensures
            r@.len() == 0,
    {
        &[]
    }

    fn check(&self, doc: &TmatsDocument, ctx: &ValidationContext) -> (r: Vec<Diagnostic>)
        ensures
            views(r@) == (match lookup("B-n\\BT"@) { Some(m) => v033(doc@, m), None => Seq::<DiagnosticV>::empty() }),
    {
        let reg = registry();
        let meta = match reg.get("B-n\\BT") {
            Some(m) => m,
            None => {
                let v: Vec<Diagnostic> = Vec::new();
                assert(views(v@) =~= Seq::<DiagnosticV>::empty());
                return v;
            },
        };
        let mut out: Vec<Diagnostic> = Vec::new();
        let m = &doc.bus_data;
        let n = m.len();
        for i in 0..n
            invariant
                n == m@.len(),
                m@ == doc@.bus_data,
                lookup("B-n\\BT"@) == Some(meta@),
                views(out@) == v033_all(m@.take(i as int), meta@),
        {
            assert(m@.take(i + 1).drop_last() =~= m@.take(i as int));
            let idx = m.key_at(i);
            let b = m.value_at(i);
            if let Some(val) = &b.bus_type {
                if !meta.validate_keyword(val.as_str()) {
                    let mut msg = num_text("B-", idx as u64, "\\BT bus type '");
                    push_str(&mut msg, val.as_str());
                    push_str(&mut msg, "' is not valid");
                    let d = mk(Severity::Error, "TMATS-V033", msg, "Ch9 §9.5.6.3",
                        Some(num_text("B-", idx as u64, "\\BT")), Some(join_str(&meta.keywords, ", ")), Some(val.clone()), None);
                    let ghost before = views(out@);
                    let ghost dw = d@;
                    out.push(d);
                    assert(views(out@) =~= before.push(dw));
                }
            }
            assert(views(out@) =~= v033_all(m@.take(i + 1), meta@));
        }
        assert(m@.take(n as int) =~= m@);
        out
    }
}

struct DateFormatValidation;

impl ValidationRule for DateFormatValidation {
    fn id(&self) -> (r: &str)
        ensures
            r@ == "TMATS-V040"@,
    {
        "TMATS-V040"
    }

    fn description(&self) -> (r: &str)
        ensures
            r@ == "Date attributes must be valid MM-DD-YYYY"@,
    {
        "Date attributes must be valid MM-DD-YYYY"
    }

    fn severity(&self) -> (r: Severity)
        ensures
            r == Severity::Warning,
    {
        Severity::Warning
    }

    fn spec_ref(&self) -> (r: &str)
        ensures
            r@ == "Ch9 §9.5.2 Table 9-1"@,
    {
        "Ch9 §9.5.2 Table 9-1"
    }

    fn applicable_versions(&self) -> (r: &[Irig106Version])
        ensures
            r@.len() == 0,
    {
        &[]
    }

    fn check(&self, doc: &TmatsDocument, ctx: &ValidationContext) -> (r: Vec<Diagnostic>)
        ensures
            views(r@) == v040(doc@),
    {
        let mut out: Vec<Diagnostic> = Vec::new();
        if let Some(d) = &doc.general.origination_date {
            if d.month == 0 || d.month > 12 || d.day == 0 || d.day > 31 {
                let mut msg = st("G\\OD date '");
                push_str(&mut msg, d.to_string().as_str());
                push_str(&mut msg, "' has invalid month/day values");
                out.push(mk(Severity::Warning, "TMATS-V040", msg, "Ch9 §9.5.2 Table 9-1", Some(st("G\\OD")),
                    Some(st("valid MM-DD-YYYY (1≤MM≤12, 1≤DD≤31)")), Some(d.to_string()), None));
            }
        }
        let ghost mid = views(out@);
        if let Some(d) = &doc.general.revision_date {
            if d.month == 0 || d.month > 12 || d.day == 0 || d.day > 31 {
                let mut msg = st("G\\RD date '");
                push_str(&mut msg, d.to_string().as_str());
                push_str(&mut msg, "' has invalid month/day values");
                let dg = mk(Severity::Warning, "TMATS-V040", msg, "Ch9 §9.5.2 Table 9-1", Some(st("G\\RD")),
                    Some(st("valid MM-DD-YYYY")), Some(d.to_string()), None);
                let ghost dw = dg@;
                out.push(dg);
                assert(views(out@) =~= mid.push(dw));
            }
        }
        assert(views(out@) =~= v040(doc@));
        out
    }
}

struct MfsValidationGPn;

impl ValidationRule for MfsValidationGPn {
    fn id(&self) -> (r: &str)
        ensures
            r@ == "TMATS-V050"@,
    {
        "TMATS-V050"
    }

    fn description(&self) -> (r: &str)
        ensures
            r@ == "G\\PN must not exceed 32 characters (MFS)"@,
    {
        "G\\PN must not exceed 32 characters (MFS)"
    }

    fn severity(&self) -> (r: Severity)
        ensures
            r == Severity::Warning,
    {
        Severity::Warning
    }

    fn spec_ref(&self) -> (r: &str)
        ensures
            r@ == "Ch9 §9.5.2 Table 9-1"@,
    {
        "Ch9 §9.5.2 Table 9-1"
    }

    fn applicable_versions(&self) -> (r: &[Irig106Version])
        ensures
            r@.len() == 0,
    {
        &[]
    }

    fn check(&self, doc: &TmatsDocument, ctx: &ValidationContext) -> (r: Vec<Diagnostic>)
        ensures
            views(r@) == (match lookup("G\\PN"@) { Some(m) => v050(doc@, m), None => Seq::<DiagnosticV>::empty() }),
    {
        let reg = registry();
        let meta = match reg.get("G\\PN") {
            Some(m) => m,
            None => {
                let v: Vec<Diagnostic> = Vec::new();
                assert(views(v@) =~= Seq::<DiagnosticV>::empty());
                return v;
            },
        };
        let mut out: Vec<Diagnostic> = Vec::new();
        if let Some(pn) = &doc.general.program_name {
            if !meta.validate_mfs(pn.as_str()) {
                let mfs: u64 = match meta.max_field_size {
                    Some(m) => m as u64,
                    None => 0,
                };
                let len = pn.as_str().as_bytes().len();
                let mut msg = st("G\\PN '");
                push_str(&mut msg, pn.as_str());
                push_str(&mut msg, "' exceeds MFS of ");
                push_dec(&mut msg, mfs);
                push_str(&mut msg, " characters (actual: ");
                push_dec(&mut msg, len as u64);
                push_str(&mut msg, ")");
                out.push(mk(Severity::Warning, "TMATS-V050", msg, "Ch9 §9.5.2 Table 9-1", Some(st("G\\PN")),
                    Some(num_text("≤", mfs, " chars")), Some(dec_string(len as u64)), Some(st("truncate program name"))));
            }
        }
        assert(views(out@) =~= v050(doc@, meta@));
        out
    }
}

struct RequiredPGroupAttrs;

impl ValidationRule for RequiredPGroupAttrs {
    fn id(&self) -> (r: &str)
        ensures
            r@ == "TMATS-V060"@,
    {
        "TMATS-V060"
    }

    fn description(&self) -> (r: &str)
        ensures
            r@ == "P-group required attributes (DLN, D1, D2, F1, F2, F3)"@,
    {
        "P-group required attributes (DLN, D1, D2, F1, F2, F3)"
    }

    fn severity(&self) -> (r: Severity)
        ensures
            r == Severity::Error,
    {
        Severity::Error
    }

    fn spec_ref(&self) -> (r: &str)
        ensures
            r@ == "Ch9 §9.5.6.1"@,
    {
        "Ch9 §9.5.6.1"
    }

    fn applicable_versions(&self) -> (r: &[Irig106Version])
        ensures
            r@.len() == 0,
    {
        &[]
    }

    fn check(&self, doc: &TmatsDocument, ctx: &ValidationContext) -> (r: Vec<Diagnostic>)
        ensures
            views(r@) == v060(doc@),
    {
        let mut out: Vec<Diagnostic> = Vec::new();
        let m = &doc.pcm_formats;
        let n = m.len();
        for i in 0..n
            invariant
                n == m@.len(),
                m@ == doc@.pcm_formats,
                views(out@) == v060_all(m@.take(i as int)),
        {
            assert(m@.take(i + 1).drop_last() =~= m@.take(i as int));
            v060_push(&mut out, m.key_at(i), m.value_at(i));
        }
        assert(m@.take(n as int) =~= m@);
        out
    }
}

struct RequiredBGroupAttrs;

impl ValidationRule for RequiredBGroupAttrs {
    fn id(&self) -> (r: &str)
        ensures
            r@ == "TMATS-V061"@,
    {
        "TMATS-V061"
    }

    fn description(&self) -> (r: &str)
        ensures
            r@ == "B-group required attributes (DLN, BT)"@,
    {
        "B-group required attributes (DLN, BT)"
    }

    fn severity(&self) -> (r: Severity)
        ensures
            r == Severity::Error,
    {
        Severity::Error
    }

    fn spec_ref(&self) -> (r: &str)
        ensures
            r@ == "Ch9 §9.5.6.3"@,
    {
        "Ch9 §9.5.6.3"
    }

    fn applicable_versions(&self) -> (r: &[Irig106Version])
        ensures
            r@.len() == 0,
    {
        &[]
    }

    fn check(&self, doc: &TmatsDocument, ctx: &ValidationContext) -> (r: Vec<Diagnostic>)
        ensures
            views(r@) == v061(doc@),
    {
        let mut out: Vec<Diagnostic> = Vec::new();
        let m = &doc.bus_data;
        let n = m.len();
        for i in 0..n
            invariant
                n == m@.len(),
                m@ == doc@.bus_data,
                views(out@) == v061_all(m@.take(i as int)),
        {
            assert(m@.take(i + 1).drop_last() =~= m@.take(i as int));
            v061_push(&mut out, m.key_at(i), m.value_at(i));
        }
        assert(m@.take(n as int) =~= m@);
        out
    }
}


// ─── Running the rules ──────────────────────────────────────────────────────

/// The findings of a keyword rule: those of the rule number `n` against the
/// table entry of `pattern`, none when the table has no such entry.
pub open spec fn keyword_findings(pattern: Seq<char>, d: TmatsDocumentV, n: int) -> Seq<DiagnosticV> {
    match lookup(pattern) {
        Some(m) => if n == 30 {
            v030(d, m)
        } else if n == 31 {
            v031(d, m)
        } else if n == 32 {
            v032(d, m)
        } else {
            v033(d, m)
        },
        None => Seq::empty(),
    }
}

/// The findings of the field-size rule for `G\PN`.
pub open spec fn mfs_findings(d: TmatsDocumentV) -> Seq<DiagnosticV> {
    match lookup("G\\PN"@) {
        Some(m) => v050(d, m),
        None => Seq::empty(),
    }
}

/// Whether a rule checks an attribute that the attribute table tags R-CH10
/// or RO-CH10: V011 checks `R-x\N` and V031 checks `R-x\PDP-n`; every other
/// rule checks attributes tagged otherwise.
pub open spec fn ch10_rule(id: Seq<char>) -> bool {
    id == "TMATS-V011"@ || id == "TMATS-V031"@
}

/// Whether the profile runs the rule `id`: every rule for the full profile,
/// the R-CH10 and RO-CH10 rules for the Chapter 10 profile, the listed ones
/// for a custom profile.
pub open spec fn included(p: ValidationProfile, id: Seq<char>) -> bool {
    match p {
        ValidationProfile::Custom(ids) => known_view(ids@).contains(id),
        ValidationProfile::Ch10Required => ch10_rule(id),
        ValidationProfile::Full => true,
    }
}

#[verifier::opaque]
pub open spec fn when(p: ValidationProfile, id: Seq<char>, ds: Seq<DiagnosticV>) -> Seq<DiagnosticV> {
    if included(p, id) {
        ds
    } else {
        Seq::empty()
    }
}

/// All findings of the built-in rules that the profile runs, in rule order:
/// required attributes (V001, V002, V060, V061), counters (V010, V011),
/// cross-group references (V020), keywords (V030-V033), dates (V040) and
/// field sizes (V050).
pub open spec fn validation_diags(d: TmatsDocumentV, p: ValidationProfile) -> Seq<DiagnosticV> {
    when(p, "TMATS-V001"@, v001(d))
        + when(p, "TMATS-V002"@, v002(d))
        + when(p, "TMATS-V060"@, v060(d))
        + when(p, "TMATS-V061"@, v061(d))
        + when(p, "TMATS-V010"@, v010(d))
        + when(p, "TMATS-V011"@, v011(d))
        + when(p, "TMATS-V020"@, v020(d))
        + when(p, "TMATS-V030"@, keyword_findings("G\\DST-n"@, d, 30))
        + when(p, "TMATS-V031"@, keyword_findings("R-x\\PDP-n"@, d, 31))
        + when(p, "TMATS-V032"@, keyword_findings("P-n\\D2"@, d, 32))
        + when(p, "TMATS-V033"@, keyword_findings("B-n\\BT"@, d, 33))
        + when(p, "TMATS-V040"@, v040(d))
        + when(p, "TMATS-V050"@, mfs_findings(d))
}

fn includes(p: &ValidationProfile, id: &str) -> (r: bool)
    ensures
        r == included(*p, id@),
{
    match p {
        ValidationProfile::Custom(ids) => {
            let n = ids.len();
            for i in 0..n
                invariant
                    n == ids@.len(),
                    *p == ValidationProfile::Custom(*ids),
                    forall|j: int| 0 <= j < i ==> ids@[j]@ != id@,
            {
                let v = chars_of(ids[i].as_str());
                if chars_eq_str(&v, id) {
                    assert(known_view(ids@)[i as int] == id@);
                    return true;
                }
            }
            assert(!known_view(ids@).contains(id@)) by {
                if known_view(ids@).contains(id@) {
                    let j = choose|j: int| 0 <= j < known_view(ids@).len() && known_view(ids@)[j] == id@;
                    assert(ids@[j]@ == id@);
                }
            }
            false
        },
        ValidationProfile::Ch10Required => chars_eq_str(&chars_of(id), "TMATS-V011") || chars_eq_str(&chars_of(id), "TMATS-V031"),
        ValidationProfile::Full => true,
    }
}

/// Whether a rule for the versions `applicable` (all when empty) runs for `target`.
fn applies(applicable: &[Irig106Version], target: Option<Irig106Version>) -> (r: bool)
    ensures
        r == (applicable@.len() == 0 || target is None || applicable@.contains(target.unwrap())),
{
    if applicable.len() == 0 {
        return true;
    }
    match target {
        None => true,
        Some(v) => {
            let n = applicable.len();
            for i in 0..n
                invariant
                    n == applicable@.len(),
                    target == Some(v),
                    forall|j: int| 0 <= j < i ==> applicable@[j] != v,
            {
                if applicable[i] == v {
                    return true;
                }
            }
            false
        },
    }
}

fn run_v001(out: &mut Vec<Diagnostic>, doc: &TmatsDocument, ctx: &ValidationContext, target: Option<Irig106Version>)
    ensures
        views(final(out)@) == views(old(out)@) + when(ctx.profile, "TMATS-V001"@, v001(doc@)),
{
    reveal(when);
    let ghost before = views(out@);
    if applies(RequiredGProgramName.applicable_versions(), target) && includes(&ctx.profile, "TMATS-V001") {
        extend(out, RequiredGProgramName.check(doc, ctx));
    } else {
        assert(views(out@) =~= before + Seq::<DiagnosticV>::empty());
    }
}

fn run_v002(out: &mut Vec<Diagnostic>, doc: &TmatsDocument, ctx: &ValidationContext, target: Option<Irig106Version>)
    ensures
        views(final(out)@) == views(old(out)@) + when(ctx.profile, "TMATS-V002"@, v002(doc@)),
{
    reveal(when);
    let ghost before = views(out@);
    if applies(RequiredGVersion.applicable_versions(), target) && includes(&ctx.profile, "TMATS-V002") {
        extend(out, RequiredGVersion.check(doc, ctx));
    } else {
        assert(views(out@) =~= before + Seq::<DiagnosticV>::empty());
    }
}

fn run_v060(out: &mut Vec<Diagnostic>, doc: &TmatsDocument, ctx: &ValidationContext, target: Option<Irig106Version>)
    ensures
        views(final(out)@) == views(old(out)@) + when(ctx.profile, "TMATS-V060"@, v060(doc@)),
{
    reveal(when);
    let ghost before = views(out@);
    if applies(RequiredPGroupAttrs.applicable_versions(), target) && includes(&ctx.profile, "TMATS-V060") {
        extend(out, RequiredPGroupAttrs.check(doc, ctx));
    } else {
        assert(views(out@) =~= before + Seq::<DiagnosticV>::empty());
    }
}

fn run_v061(out: &mut Vec<Diagnostic>, doc: &TmatsDocument, ctx: &ValidationContext, target: Option<Irig106Version>)
    ensures
        views(final(out)@) == views(old(out)@) + when(ctx.profile, "TMATS-V061"@, v061(doc@)),
{
    reveal(when);
    let ghost before = views(out@);
    if applies(RequiredBGroupAttrs.applicable_versions(), target) && includes(&ctx.profile, "TMATS-V061") {
        extend(out, RequiredBGroupAttrs.check(doc, ctx));
    } else {
        assert(views(out@) =~= before + Seq::<DiagnosticV>::empty());
    }
}

fn run_v010(out: &mut Vec<Diagnostic>, doc: &TmatsDocument, ctx: &ValidationContext, target: Option<Irig106Version>)
    ensures
        views(final(out)@) == views(old(out)@) + when(ctx.profile, "TMATS-V010"@, v010(doc@)),
{
    reveal(when);
    let ghost before = views(out@);
    if applies(CounterConsistencyGDsi.applicable_versions(), target) && includes(&ctx.profile, "TMATS-V010") {
        extend(out, CounterConsistencyGDsi.check(doc, ctx));
    } else {
        assert(views(out@) =~= before + Seq::<DiagnosticV>::empty());
    }
}

fn run_v011(out: &mut Vec<Diagnostic>, doc: &TmatsDocument, ctx: &ValidationContext, target: Option<Irig106Version>)
    ensures
        views(final(out)@) == views(old(out)@) + when(ctx.profile, "TMATS-V011"@, v011(doc@)),
{
    reveal(when);
    let ghost before = views(out@);
    if applies(CounterConsistencyRN.applicable_versions(), target) && includes(&ctx.profile, "TMATS-V011") {
        extend(out, CounterConsistencyRN.check(doc, ctx));
    } else {
        assert(views(out@) =~= before + Seq::<DiagnosticV>::empty());
    }
}

fn run_v020(out: &mut Vec<Diagnostic>, doc: &TmatsDocument, ctx: &ValidationContext, target: Option<Irig106Version>)
    ensures
        views(final(out)@) == views(old(out)@) + when(ctx.profile, "TMATS-V020"@, v020(doc@)),
{
    reveal(when);
    let ghost before = views(out@);
    if applies(CrossGroupRefCdln.applicable_versions(), target) && includes(&ctx.profile, "TMATS-V020") {
        extend(out, CrossGroupRefCdln.check(doc, ctx));
    } else {
        assert(views(out@) =~= before + Seq::<DiagnosticV>::empty());
    }
}

fn run_v030(out: &mut Vec<Diagnostic>, doc: &TmatsDocument, ctx: &ValidationContext, target: Option<Irig106Version>)
    ensures
        views(final(out)@) == views(old(out)@) + when(ctx.profile, "TMATS-V030"@, keyword_findings("G\\DST-n"@, doc@, 30)),
{
    reveal(when);
    let ghost before = views(out@);
    if applies(KeywordValidationGDst.applicable_versions(), target) && includes(&ctx.profile, "TMATS-V030") {
        extend(out, KeywordValidationGDst.check(doc, ctx));
    } else {
        assert(views(out@) =~= before + Seq::<DiagnosticV>::empty());
    }
}

fn run_v031(out: &mut Vec<Diagnostic>, doc: &TmatsDocument, ctx: &ValidationContext, target: Option<Irig106Version>)
    ensures
        views(final(out)@) == views(old(out)@) + when(ctx.profile, "TMATS-V031"@, keyword_findings("R-x\\PDP-n"@, doc@, 31)),
{
    reveal(when);
    let ghost before = views(out@);
    if applies(KeywordValidationRPdp.applicable_versions(), target) && includes(&ctx.profile, "TMATS-V031") {
        extend(out, KeywordValidationRPdp.check(doc, ctx));
    } else {
        assert(views(out@) =~= before + Seq::<DiagnosticV>::empty());
    }
}

fn run_v032(out: &mut Vec<Diagnostic>, doc: &TmatsDocument, ctx: &ValidationContext, target: Option<Irig106Version>)
    ensures
        views(final(out)@) == views(old(out)@) + when(ctx.profile, "TMATS-V032"@, keyword_findings("P-n\\D2"@, doc@, 32)),
{
    reveal(when);
    let ghost before = views(out@);
    if applies(KeywordValidationPEncoding.applicable_versions(), target) && includes(&ctx.profile, "TMATS-V032") {
        extend(out, KeywordValidationPEncoding.check(doc, ctx));
    } else {
        assert(views(out@) =~= before + Seq::<DiagnosticV>::empty());
    }
}

fn run_v033(out: &mut Vec<Diagnostic>, doc: &TmatsDocument, ctx: &ValidationContext, target: Option<Irig106Version>)
    ensures
        views(final(out)@) == views(old(out)@) + when(ctx.profile, "TMATS-V033"@, keyword_findings("B-n\\BT"@, doc@, 33)),
{
    reveal(when);
    let ghost before = views(out@);
    if applies(KeywordValidationBBusType.applicable_versions(), target) && includes(&ctx.profile, "TMATS-V033") {
        extend(out, KeywordValidationBBusType.check(doc, ctx));
    } else {
        assert(views(out@) =~= before + Seq::<DiagnosticV>::empty());
    }
}

fn run_v040(out: &mut Vec<Diagnostic>, doc: &TmatsDocument, ctx: &ValidationContext, target: Option<Irig106Version>)
    ensures
        views(final(out)@) == views(old(out)@) + when(ctx.profile, "TMATS-V040"@, v040(doc@)),
{
    reveal(when);
    let ghost before = views(out@);
    if applies(DateFormatValidation.applicable_versions(), target) && includes(&ctx.profile, "TMATS-V040") {
        extend(out, DateFormatValidation.check(doc, ctx));
    } else {
        assert(views(out@) =~= before + Seq::<DiagnosticV>::empty());
    }
}

fn run_v050(out: &mut Vec<Diagnostic>, doc: &TmatsDocument, ctx: &ValidationContext, target: Option<Irig106Version>)
    ensures
        views(final(out)@) == views(old(out)@) + when(ctx.profile, "TMATS-V050"@, mfs_findings(doc@)),
{
    reveal(when);
    let ghost before = views(out@);
    if applies(MfsValidationGPn.applicable_versions(), target) && includes(&ctx.profile, "TMATS-V050") {
        extend(out, MfsValidationGPn.check(doc, ctx));
    } else {
        assert(views(out@) =~= before + Seq::<DiagnosticV>::empty());
    }
}

/// Validate with explicit context.
pub fn validate_with_options(doc: &TmatsDocument, ctx: &ValidationContext) -> (r: ValidationReport)
    requires
        doc@.attribute_total() <= usize::MAX,
    ensures
        views(r.diagnostics@) == validation_diags(doc@, ctx.profile),
        r.version_detected == (match ctx.target_version {
            Some(v) => Some(v),
            None => doc@.source_version,
        }),
        r.total_attributes == doc@.attribute_total(),
        r.errors == count_severity_v(views(r.diagnostics@), Severity::Error),
        r.warnings == count_severity_v(views(r.diagnostics@), Severity::Warning),
        r.info == count_severity_v(views(r.diagnostics@), Severity::Info),
        r.errors + r.warnings + r.info == r.diagnostics@.len(),
{
    let ghost d = doc@;
    let ghost p = ctx.profile;
    let target = match ctx.target_version {
        Some(v) => Some(v),
        None => doc.source_version,
    };
    let mut diagnostics: Vec<Diagnostic> = Vec::new();
    assert(views(diagnostics@) =~= Seq::<DiagnosticV>::empty());
    let ghost mut acc = Seq::<DiagnosticV>::empty();
    run_v001(&mut diagnostics, doc, ctx, target);
    proof {
        acc = acc + when(p, "TMATS-V001"@, v001(d));
    }
    run_v002(&mut diagnostics, doc, ctx, target);
    proof {
        acc = acc + when(p, "TMATS-V002"@, v002(d));
    }
    run_v060(&mut diagnostics, doc, ctx, target);
    proof {
        acc = acc + when(p, "TMATS-V060"@, v060(d));
    }
    run_v061(&mut diagnostics, doc, ctx, target);
    proof {
        acc = acc + when(p, "TMATS-V061"@, v061(d));
    }
    run_v010(&mut diagnostics, doc, ctx, target);
    proof {
        acc = acc + when(p, "TMATS-V010"@, v010(d));
    }
    run_v011(&mut diagnostics, doc, ctx, target);
    proof {
        acc = acc + when(p, "TMATS-V011"@, v011(d));
    }
    run_v020(&mut diagnostics, doc, ctx, target);
    proof {
        acc = acc + when(p, "TMATS-V020"@, v020(d));
    }
    run_v030(&mut diagnostics, doc, ctx, target);
    proof {
        acc = acc + when(p, "TMATS-V030"@, keyword_findings("G\\DST-n"@, d, 30));
    }
    run_v031(&mut diagnostics, doc, ctx, target);
    proof {
        acc = acc + when(p, "TMATS-V031"@, keyword_findings("R-x\\PDP-n"@, d, 31));
    }
    run_v032(&mut diagnostics, doc, ctx, target);
    proof {
        acc = acc + when(p, "TMATS-V032"@, keyword_findings("P-n\\D2"@, d, 32));
    }
    run_v033(&mut diagnostics, doc, ctx, target);
    proof {
        acc = acc + when(p, "TMATS-V033"@, keyword_findings("B-n\\BT"@, d, 33));
    }
    run_v040(&mut diagnostics, doc, ctx, target);
    proof {
        acc = acc + when(p, "TMATS-V040"@, v040(d));
    }
    run_v050(&mut diagnostics, doc, ctx, target);
    proof {
        acc = acc + when(p, "TMATS-V050"@, mfs_findings(d));
    }
    assert(views(diagnostics@) == acc);
    assert(acc == validation_diags(d, p));
    proof {
        lemma_count_severity_views(diagnostics@, Severity::Error);
        lemma_count_severity_views(diagnostics@, Severity::Warning);
        lemma_count_severity_views(diagnostics@, Severity::Info);
        crate::error::law_severity_counts_sum(views(diagnostics@));
    }
    let errors = count_of_severity(&diagnostics, Severity::Error);
    let warnings = count_of_severity(&diagnostics, Severity::Warning);
    let info = count_of_severity(&diagnostics, Severity::Info);
    ValidationReport {
        diagnostics,
        version_detected: target,
        total_attributes: doc.attribute_count(),
        errors,
        warnings,
        info,
    }
}

/// Validate a document with the default context: every rule, the
/// document's own version.
pub fn validate(doc: &TmatsDocument) -> (r: ValidationReport)
    requires
        doc@.attribute_total() <= usize::MAX,
    ensures
        views(r.diagnostics@) == validation_diags(doc@, ValidationProfile::Full),
        r.version_detected == doc@.source_version,
        r.total_attributes == doc@.attribute_total(),
        r.errors == count_severity_v(views(r.diagnostics@), Severity::Error),
        r.warnings == count_severity_v(views(r.diagnostics@), Severity::Warning),
        r.info == count_severity_v(views(r.diagnostics@), Severity::Info),
        r.errors + r.warnings + r.info == r.diagnostics@.len(),
{
    let ctx = ValidationContext::default();
    validate_with_options(doc, &ctx)
}

// ─── Which rule each diagnostic comes from ──────────────────────────────────

/// Every diagnostic of `ds` carries the rule identifier `id`.
pub open spec fn tagged(ds: Seq<DiagnosticV>, id: Seq<char>) -> bool {
    forall|k: int| 0 <= k < ds.len() ==> (#[trigger] ds[k]).rule_id == id
}

proof fn lemma_tagged_push(ds: Seq<DiagnosticV>, x: DiagnosticV, id: Seq<char>)
    requires
        tagged(ds, id),
        x.rule_id == id,
    ensures
        tagged(ds.push(x), id),
{
    assert forall|k: int| 0 <= k < ds.push(x).len() implies (#[trigger] ds.push(x)[k]).rule_id == id by {
        if k < ds.len() {
            assert(ds.push(x)[k] == ds[k]);
        }
    }
}

proof fn lemma_v011_tagged(rs: Seq<(u32, RGroupV)>)
    ensures
        tagged(v011_all(rs), "TMATS-V011"@),
    decreases rs.len(),
{
    if rs.len() > 0 {
        lemma_v011_tagged(rs.drop_last());
        let acc = v011_all(rs.drop_last());
        let out = v011_one(acc, rs.last().0, rs.last().1);
        if out != acc {
            lemma_tagged_push(acc, out.last(), "TMATS-V011"@);
            assert(out =~= acc.push(out.last()));
        }
    }
}

proof fn lemma_v020_chans_tagged(acc: Seq<DiagnosticV>, ri: u32, chs: Seq<(u32, RChannelV)>, known: Seq<Seq<char>>)
    requires
        tagged(acc, "TMATS-V020"@),
    ensures
        tagged(v020_chans(acc, ri, chs, known), "TMATS-V020"@),
    decreases chs.len(),
{
    if chs.len() > 0 {
        lemma_v020_chans_tagged(acc, ri, chs.drop_last(), known);
        let a = v020_chans(acc, ri, chs.drop_last(), known);
        let out = v020_chan(a, ri, chs.last().0, chs.last().1, known);
        if out != a {
            lemma_tagged_push(a, out.last(), "TMATS-V020"@);
            assert(out =~= a.push(out.last()));
        }
    }
}

proof fn lemma_v020_tagged(rs: Seq<(u32, RGroupV)>, known: Seq<Seq<char>>)
    ensures
        tagged(v020_all(rs, known), "TMATS-V020"@),
    decreases rs.len(),
{
    if rs.len() > 0 {
        lemma_v020_tagged(rs.drop_last(), known);
        lemma_v020_chans_tagged(v020_all(rs.drop_last(), known), rs.last().0, rs.last().1.channels, known);
    }
}

proof fn lemma_v030_tagged(m: Seq<(u32, DataSourceDeclV)>, meta: AttrMetaV)
    ensures
        tagged(v030_all(m, meta), "TMATS-V030"@),
    decreases m.len(),
{
    if m.len() > 0 {
        lemma_v030_tagged(m.drop_last(), meta);
        let acc = v030_all(m.drop_last(), meta);
        let out = v030_one(acc, m.last().0, m.last().1, meta);
        if out != acc {
            lemma_tagged_push(acc, out.last(), "TMATS-V030"@);
            assert(out =~= acc.push(out.last()));
        }
    }
}

proof fn lemma_v031_chans_tagged(acc: Seq<DiagnosticV>, ri: u32, chs: Seq<(u32, RChannelV)>, meta: AttrMetaV)
    requires
        tagged(acc, "TMATS-V031"@),
    ensures
        tagged(v031_chans(acc, ri, chs, meta), "TMATS-V031"@),
    decreases chs.len(),
{
    if chs.len() > 0 {
        lemma_v031_chans_tagged(acc, ri, chs.drop_last(), meta);
        let a = v031_chans(acc, ri, chs.drop_last(), meta);
        let out = v031_chan(a, ri, chs.last().0, chs.last().1, meta);
        if out != a {
            lemma_tagged_push(a, out.last(), "TMATS-V031"@);
            assert(out =~= a.push(out.last()));
        }
    }
}

proof fn lemma_v031_tagged(rs: Seq<(u32, RGroupV)>, meta: AttrMetaV)
    ensures
        tagged(v031_all(rs, meta), "TMATS-V031"@),
    decreases rs.len(),
{
    if rs.len() > 0 {
        lemma_v031_tagged(rs.drop_last(), meta);
        lemma_v031_chans_tagged(v031_all(rs.drop_last(), meta), rs.last().0, rs.last().1.channels, meta);
    }
}

proof fn lemma_v032_tagged(m: Seq<(u32, PGroupV)>, meta: AttrMetaV)
    ensures
        tagged(v032_all(m, meta), "TMATS-V032"@),
    decreases m.len(),
{
    if m.len() > 0 {
        lemma_v032_tagged(m.drop_last(), meta);
        let acc = v032_all(m.drop_last(), meta);
        let out = v032_one(acc, m.last().0, m.last().1, meta);
        if out != acc {
            lemma_tagged_push(acc, out.last(), "TMATS-V032"@);
            assert(out =~= acc.push(out.last()));
        }
    }
}

proof fn lemma_v033_tagged(m: Seq<(u32, BGroupV)>, meta: AttrMetaV)
    ensures
        tagged(v033_all(m, meta), "TMATS-V033"@),
    decreases m.len(),
{
    if m.len() > 0 {
        lemma_v033_tagged(m.drop_last(), meta);
        let acc = v033_all(m.drop_last(), meta);
        let out = v033_one(acc, m.last().0, m.last().1, meta);
        if out != acc {
            lemma_tagged_push(acc, out.last(), "TMATS-V033"@);
            assert(out =~= acc.push(out.last()));
        }
    }
}

proof fn lemma_v060_tagged(m: Seq<(u32, PGroupV)>)
    ensures
        tagged(v060_all(m), "TMATS-V060"@),
    decreases m.len(),
{
    if m.len() > 0 {
        lemma_v060_tagged(m.drop_last());
        let acc = v060_all(m.drop_last());
        let out = v060_one(acc, m.last().0, m.last().1);
        assert forall|k: int| 0 <= k < out.len() implies (#[trigger] out[k]).rule_id == "TMATS-V060"@ by {
            if k < acc.len() {
                assert(out.subrange(0, acc.len() as int) =~= acc);
                assert(out[k] == acc[k]);
            }
        }
    }
}

proof fn lemma_v061_tagged(m: Seq<(u32, BGroupV)>)
    ensures
        tagged(v061_all(m), "TMATS-V061"@),
    decreases m.len(),
{
    if m.len() > 0 {
        lemma_v061_tagged(m.drop_last());
        let acc = v061_all(m.drop_last());
        let out = v061_one(acc, m.last().0, m.last().1);
        assert forall|k: int| 0 <= k < out.len() implies (#[trigger] out[k]).rule_id == "TMATS-V061"@ by {
            if k < acc.len() {
                assert(out.subrange(0, acc.len() as int) =~= acc);
                assert(out[k] == acc[k]);
            }
        }
    }
}

/// Every diagnostic of `ds` comes from a rule that the profile runs.
pub open spec fn from_included(ds: Seq<DiagnosticV>, p: ValidationProfile) -> bool {
    forall|k: int| 0 <= k < ds.len() ==> included(p, (#[trigger] ds[k]).rule_id)
}

proof fn lemma_when_included(p: ValidationProfile, id: Seq<char>, ds: Seq<DiagnosticV>, acc: Seq<DiagnosticV>)
    requires
        tagged(ds, id),
        from_included(acc, p),
    ensures
        from_included(acc + when(p, id, ds), p),
{
    reveal(when);
    let w = when(p, id, ds);
    assert forall|k: int| 0 <= k < (acc + w).len() implies included(p, (#[trigger] (acc + w)[k]).rule_id) by {
        if k < acc.len() {
            assert((acc + w)[k] == acc[k]);
        } else {
            assert((acc + w)[k] == w[k - acc.len()]);
            assert(w[k - acc.len()] == ds[k - acc.len()]);
        }
    }
}

/// A validation profile filters by rule: every diagnostic that validation
/// reports comes from a rule that the profile runs (for a custom profile,
/// one of the listed rule identifiers; for the Chapter 10 profile, a rule
/// on R-CH10 or RO-CH10 attributes).
pub proof fn law_profile_reports_only_its_rules(d: TmatsDocumentV, p: ValidationProfile)
    ensures
        from_included(validation_diags(d, p), p),
{
    lemma_v011_tagged(d.recorders);
    lemma_v020_tagged(d.recorders, known_spec(d));
    lemma_v060_tagged(d.pcm_formats);
    lemma_v061_tagged(d.bus_data);
    match lookup("G\\DST-n"@) { Some(m) => lemma_v030_tagged(d.general.data_sources, m), None => {} }
    match lookup("R-x\\PDP-n"@) { Some(m) => lemma_v031_tagged(d.recorders, m), None => {} }
    match lookup("P-n\\D2"@) { Some(m) => lemma_v032_tagged(d.pcm_formats, m), None => {} }
    match lookup("B-n\\BT"@) { Some(m) => lemma_v033_tagged(d.bus_data, m), None => {} }
    let e = Seq::<DiagnosticV>::empty();
    lemma_when_included(p, "TMATS-V001"@, v001(d), e);
    let a1 = e + when(p, "TMATS-V001"@, v001(d));
    lemma_when_included(p, "TMATS-V002"@, v002(d), a1);
    let a2 = a1 + when(p, "TMATS-V002"@, v002(d));
    lemma_when_included(p, "TMATS-V060"@, v060(d), a2);
    let a3 = a2 + when(p, "TMATS-V060"@, v060(d));
    lemma_when_included(p, "TMATS-V061"@, v061(d), a3);
    let a4 = a3 + when(p, "TMATS-V061"@, v061(d));
    lemma_when_included(p, "TMATS-V010"@, v010(d), a4);
    let a5 = a4 + when(p, "TMATS-V010"@, v010(d));
    lemma_when_included(p, "TMATS-V011"@, v011(d), a5);
    let a6 = a5 + when(p, "TMATS-V011"@, v011(d));
    lemma_when_included(p, "TMATS-V020"@, v020(d), a6);
    let a7 = a6 + when(p, "TMATS-V020"@, v020(d));
    lemma_when_included(p, "TMATS-V030"@, keyword_findings("G\\DST-n"@, d, 30), a7);
    let a8 = a7 + when(p, "TMATS-V030"@, keyword_findings("G\\DST-n"@, d, 30));
    lemma_when_included(p, "TMATS-V031"@, keyword_findings("R-x\\PDP-n"@, d, 31), a8);
    let a9 = a8 + when(p, "TMATS-V031"@, keyword_findings("R-x\\PDP-n"@, d, 31));
    lemma_when_included(p, "TMATS-V032"@, keyword_findings("P-n\\D2"@, d, 32), a9);
    let a10 = a9 + when(p, "TMATS-V032"@, keyword_findings("P-n\\D2"@, d, 32));
    lemma_when_included(p, "TMATS-V033"@, keyword_findings("B-n\\BT"@, d, 33), a10);
    let a11 = a10 + when(p, "TMATS-V033"@, keyword_findings("B-n\\BT"@, d, 33));
    lemma_when_included(p, "TMATS-V040"@, v040(d), a11);
    let a12 = a11 + when(p, "TMATS-V040"@, v040(d));
    lemma_when_included(p, "TMATS-V050"@, mfs_findings(d), a12);
    let a13 = a12 + when(p, "TMATS-V050"@, mfs_findings(d));
    assert(a1 =~= when(p, "TMATS-V001"@, v001(d)));
    assert(validation_diags(d, p) =~= a13);
}

// ─── Channel counters ───────────────────────────────────────────────────────

/// Whether `ds` holds an error of rule `id` on the attribute `path`.
pub open spec fn has_error_at(ds: Seq<DiagnosticV>, id: Seq<char>, path: Seq<char>) -> bool {
    exists|k: int| 0 <= k < ds.len() && (#[trigger] ds[k]).rule_id == id && ds[k].severity == Severity::Error
        && ds[k].attribute_path == Some(path)
}

proof fn lemma_has_error_left(a: Seq<DiagnosticV>, b: Seq<DiagnosticV>, id: Seq<char>, path: Seq<char>)
    requires
        has_error_at(a, id, path),
    ensures
        has_error_at(a + b, id, path),
{
    let k = choose|k: int| 0 <= k < a.len() && (#[trigger] a[k]).rule_id == id && a[k].severity == Severity::Error
        && a[k].attribute_path == Some(path);
    assert((a + b)[k] == a[k]);
}

proof fn lemma_has_error_right(a: Seq<DiagnosticV>, b: Seq<DiagnosticV>, id: Seq<char>, path: Seq<char>)
    requires
        has_error_at(b, id, path),
    ensures
        has_error_at(a + b, id, path),
{
    let k = choose|k: int| 0 <= k < b.len() && (#[trigger] b[k]).rule_id == id && b[k].severity == Severity::Error
        && b[k].attribute_path == Some(path);
    assert((a + b)[a.len() + k] == b[k]);
}

proof fn lemma_v011_reports(rs: Seq<(u32, RGroupV)>, i: int, n: u32)
    requires
        0 <= i < rs.len(),
        rs[i].1.num_channels == Some(n),
        rs[i].1.channels.len() <= u32::MAX,
        n != rs[i].1.channels.len(),
    ensures
        has_error_at(v011_all(rs), "TMATS-V011"@, "R-"@ + dec(rs[i].0 as nat) + "\\N"@),
    decreases rs.len(),
{
    let path = "R-"@ + dec(rs[i].0 as nat) + "\\N"@;
    let prev = v011_all(rs.drop_last());
    let out = v011_all(rs);
    if i < rs.len() - 1 {
        assert(rs.drop_last()[i] == rs[i]);
        lemma_v011_reports(rs.drop_last(), i, n);
        let k = choose|k: int| 0 <= k < prev.len() && (#[trigger] prev[k]).rule_id == "TMATS-V011"@
            && prev[k].severity == Severity::Error && prev[k].attribute_path == Some(path);
        if out != prev {
            assert(out =~= prev.push(out.last()));
        }
        assert(out[k] == prev[k]);
    } else {
        assert(out == prev.push(out.last()));
        assert(out[prev.len() as int].rule_id == "TMATS-V011"@);
    }
}

/// A recorder whose `R-x\N` differs from its number of channels, in either
/// direction, gets a TMATS-V011 error on `R-x\N` from full validation.
pub proof fn law_channel_count_mismatch_reported(d: TmatsDocumentV, i: int, n: u32)
    requires
        0 <= i < d.recorders.len(),
        d.recorders[i].1.num_channels == Some(n),
        d.recorders[i].1.channels.len() <= u32::MAX,
        n != d.recorders[i].1.channels.len(),
    ensures
        has_error_at(validation_diags(d, ValidationProfile::Full), "TMATS-V011"@,
            "R-"@ + dec(d.recorders[i].0 as nat) + "\\N"@),
{
    reveal(when);
    let id = "TMATS-V011"@;
    let path = "R-"@ + dec(d.recorders[i].0 as nat) + "\\N"@;
    let p = ValidationProfile::Full;
    lemma_v011_reports(d.recorders, i, n);
    let a5 = when(p, "TMATS-V001"@, v001(d)) + when(p, "TMATS-V002"@, v002(d)) + when(p, "TMATS-V060"@, v060(d))
        + when(p, "TMATS-V061"@, v061(d)) + when(p, "TMATS-V010"@, v010(d));
    lemma_has_error_right(a5, when(p, id, v011(d)), id, path);
    let a6 = a5 + when(p, id, v011(d));
    let a7 = a6 + when(p, "TMATS-V020"@, v020(d));
    lemma_has_error_left(a6, when(p, "TMATS-V020"@, v020(d)), id, path);
    let a8 = a7 + when(p, "TMATS-V030"@, keyword_findings("G\\DST-n"@, d, 30));
    lemma_has_error_left(a7, when(p, "TMATS-V030"@, keyword_findings("G\\DST-n"@, d, 30)), id, path);
    let a9 = a8 + when(p, "TMATS-V031"@, keyword_findings("R-x\\PDP-n"@, d, 31));
    lemma_has_error_left(a8, when(p, "TMATS-V031"@, keyword_findings("R-x\\PDP-n"@, d, 31)), id, path);
    let a10 = a9 + when(p, "TMATS-V032"@, keyword_findings("P-n\\D2"@, d, 32));
    lemma_has_error_left(a9, when(p, "TMATS-V032"@, keyword_findings("P-n\\D2"@, d, 32)), id, path);
    let a11 = a10 + when(p, "TMATS-V033"@, keyword_findings("B-n\\BT"@, d, 33));
    lemma_has_error_left(a10, when(p, "TMATS-V033"@, keyword_findings("B-n\\BT"@, d, 33)), id, path);
    let a12 = a11 + when(p, "TMATS-V040"@, v040(d));
    lemma_has_error_left(a11, when(p, "TMATS-V040"@, v040(d)), id, path);
    lemma_has_error_left(a12, when(p, "TMATS-V050"@, mfs_findings(d)), id, path);
}

} // verus!
