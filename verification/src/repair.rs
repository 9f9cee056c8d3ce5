//! Automated repair: recompute counters, normalize keyword case, and detect
//! channels whose data link name leads nowhere.
use vstd::prelude::*;
use crate::error::{Severity, count_severity};
use crate::model::{TmatsDocument, TmatsDocumentV, GGroupV, RGroup, RGroupV, RChannel, RChannelV, PGroup, PGroupV, DataSourceDecl, DataSourceDeclV};
use crate::ordered_map::OrderedMap;
use crate::text::{push_str, push_dec, dec, dec_string, upper, upper_chars, chars_of, chars_eq, chars_eq_ignore_case, eq_ignore_case, string_of};
use crate::validate::{validate, validation_diags, ValidationProfile, known_spec, has_match, dlns_p, dlns_b, dlns_s, v001, v002, v010, v011, v011_all, v011_one, v020, v020_all, v020_chans, v020_chan, v031_all, v031_chans, v031_chan, v032_all, v032_one, v030_all, v030_one, v060, v060_all, v060_one, v061, v040, keyword_findings, mfs_findings, lookup};
use crate::version::AttrMetaV;
use crate::error::{DiagnosticV, count_severity_v};
use crate::text::{lemma_upper_trim_upper, trim};

verus! {

// ─── Options and reports ────────────────────────────────────────────────────

/// How duplicates are resolved.
#[derive(Debug, Clone, Copy, PartialEq, Eq, Structural)]
pub enum DuplicateStrategy {
    KeepFirst,
    KeepLast,
}

/// Controls repair behavior.
#[derive(Debug, Clone)]
pub struct RepairOptions {
    /// Report findings only; change nothing.
    pub dry_run: bool,
    /// How duplicate attributes are resolved.
    pub duplicate_strategy: DuplicateStrategy,
    /// Recompute counter attributes.
    pub auto_fix_counters: bool,
    /// Normalize keyword values to upper case.
    pub auto_fix_case: bool,
    /// Insert missing required attributes.
    pub auto_fix_missing_required: bool,
}

impl Default for RepairOptions {
    fn default() -> (r: Self)
        ensures
            !r.dry_run,
            r.duplicate_strategy == DuplicateStrategy::KeepLast,
            r.auto_fix_counters,
            r.auto_fix_case,
            r.auto_fix_missing_required,
    {
        RepairOptions {
            dry_run: false,
            duplicate_strategy: DuplicateStrategy::KeepLast,
            auto_fix_counters: true,
            auto_fix_case: true,
            auto_fix_missing_required: true,
        }
    }
}

/// What a repair did to an attribute.
#[derive(Debug, Clone, Copy, PartialEq, Eq, Structural)]
pub enum RepairActionType {
    Modified,
    Inserted,
    Removed,
    Recomputed,
}

/// A problem that a rule found.
#[derive(Debug, Clone)]
pub struct RepairFinding {
    pub rule_id: String,
    pub description: String,
    pub attribute_path: Option<String>,
    pub current_value: Option<String>,
    pub proposed_value: Option<String>,
    pub auto_fixable: bool,
}

/// The model of a [`RepairFinding`].
pub struct RepairFindingV {
    pub rule_id: Seq<char>,
    pub description: Seq<char>,
    pub attribute_path: Option<Seq<char>>,
    pub current_value: Option<Seq<char>>,
    pub proposed_value: Option<Seq<char>>,
    pub auto_fixable: bool,
}

impl View for RepairFinding {
    type V = RepairFindingV;

    open spec fn view(&self) -> RepairFindingV {
        RepairFindingV {
            rule_id: self.rule_id@,
            description: self.description@,
            attribute_path: crate::error::opt_text(self.attribute_path),
            current_value: crate::error::opt_text(self.current_value),
            proposed_value: crate::error::opt_text(self.proposed_value),
            auto_fixable: self.auto_fixable,
        }
    }
}

/// A change that a rule made.
#[derive(Debug, Clone)]
pub struct RepairAction {
    pub rule_id: String,
    pub action_type: RepairActionType,
    pub attribute_path: String,
    pub old_value: Option<String>,
    pub new_value: Option<String>,
}

/// The model of a [`RepairAction`].
pub struct RepairActionV {
    pub rule_id: Seq<char>,
    pub action_type: RepairActionType,
    pub attribute_path: Seq<char>,
    pub old_value: Option<Seq<char>>,
    pub new_value: Option<Seq<char>>,
}

impl View for RepairAction {
    type V = RepairActionV;

    open spec fn view(&self) -> RepairActionV {
        RepairActionV {
            rule_id: self.rule_id@,
            action_type: self.action_type,
            attribute_path: self.attribute_path@,
            old_value: crate::error::opt_text(self.old_value),
            new_value: crate::error::opt_text(self.new_value),
        }
    }
}

/// Summary of a repair run.
#[derive(Debug, Clone)]
pub struct RepairReport {
    pub findings: Vec<RepairFinding>,
    pub actions_taken: Vec<RepairAction>,
    pub was_dry_run: bool,
    pub pre_repair_errors: usize,
    pub post_repair_errors: usize,
}

/// A single repair rule.
pub trait RepairRule {
    fn id(&self) -> &str;
    fn description(&self) -> &str;
    fn can_auto_fix(&self) -> bool;
    fn detect(&self, doc: &TmatsDocument) -> Vec<RepairFinding>;
    fn apply(&self, doc: &mut TmatsDocument) -> Vec<RepairAction>;
}

pub open spec fn finding_views(v: Seq<RepairFinding>) -> Seq<RepairFindingV> {
    v.map_values(|f: RepairFinding| f@)
}

pub open spec fn action_views(v: Seq<RepairAction>) -> Seq<RepairActionV> {
    v.map_values(|a: RepairAction| a@)
}

/// A string holding `s`.
fn st(s: &str) -> (r: String)
    ensures
        r@ == s@,
{
    let mut r = String::new();
    push_str(&mut r, s);
    r
}

/// A string holding `a`, the digits of `n`, then `b`.
fn num_text(a: &str, n: u64, b: &str) -> (r: String)
    ensures
        r@ == a@ + dec(n as nat) + b@,
{
    let mut r = st(a);
    push_dec(&mut r, n);
    push_str(&mut r, b);
    r
}

fn push_finding(out: &mut Vec<RepairFinding>, f: RepairFinding)
    ensures
        finding_views(final(out)@) == finding_views(old(out)@).push(f@),
{
    let ghost before = finding_views(out@);
    let ghost fw = f@;
    out.push(f);
    assert(finding_views(out@) =~= before.push(fw));
}

fn push_action(out: &mut Vec<RepairAction>, a: RepairAction)
    ensures
        action_views(final(out)@) == action_views(old(out)@).push(a@),
{
    let ghost before = action_views(out@);
    let ghost aw = a@;
    out.push(a);
    assert(action_views(out@) =~= before.push(aw));
}

pub open spec fn dec_opt(o: Option<u32>) -> Option<Seq<char>> {
    match o {
        Some(n) => Some(dec(n as nat)),
        None => None,
    }
}

// ─── R001: the G\DSI\N counter ──────────────────────────────────────────────

pub open spec fn r001_findings(d: TmatsDocumentV) -> Seq<RepairFindingV> {
    let actual = d.general.data_sources.len() as u32;
    match d.general.num_data_sources {
        Some(declared) => if declared != actual {
            seq![RepairFindingV {
                rule_id: "TMATS-R001"@,
                description: "G\\DSI\\N is "@ + dec(declared as nat) + ", actual count is "@ + dec(actual as nat),
                attribute_path: Some("G\\DSI\\N"@),
                current_value: Some(dec(declared as nat)),
                proposed_value: Some(dec(actual as nat)),
                auto_fixable: true,
            }]
        } else {
            Seq::empty()
        },
        None => Seq::empty(),
    }
}

/// The document with `G\DSI\N` set to the number of data sources.
pub open spec fn r001_doc(d: TmatsDocumentV) -> TmatsDocumentV {
    TmatsDocumentV { general: GGroupV { num_data_sources: Some(d.general.data_sources.len() as u32), ..d.general }, ..d }
}

pub open spec fn r001_actions(d: TmatsDocumentV) -> Seq<RepairActionV> {
    let actual = d.general.data_sources.len() as u32;
    if d.general.num_data_sources != Some(actual) {
        seq![RepairActionV {
            rule_id: "TMATS-R001"@,
            action_type: RepairActionType::Recomputed,
            attribute_path: "G\\DSI\\N"@,
            old_value: dec_opt(d.general.num_data_sources),
            new_value: Some(dec(actual as nat)),
        }]
    } else {
        Seq::empty()
    }
}

struct CounterRepairGDsi;

impl RepairRule for CounterRepairGDsi {
    fn id(&self) -> (r: &str)
        ensures
            r@ == "TMATS-R001"@,
    {
        "TMATS-R001"
    }

    fn description(&self) -> (r: &str)
        ensures
            r@ == "Recompute G\\DSI\\N counter"@,
    {
        "Recompute G\\DSI\\N counter"
    }

    fn can_auto_fix(&self) -> (r: bool)
        ensures
            r,
    {
        true
    }

    fn detect(&self, doc: &TmatsDocument) -> (r: Vec<RepairFinding>)
        ensures
            finding_views(r@) == r001_findings(doc@),
    {
        let actual = doc.general.data_sources.len() as u32;
        let mut out: Vec<RepairFinding> = Vec::new();
        if let Some(declared) = doc.general.num_data_sources {
            if declared != actual {
                let mut desc = num_text("G\\DSI\\N is ", declared as u64, ", actual count is ");
                push_dec(&mut desc, actual as u64);
                push_finding(&mut out, RepairFinding {
                    rule_id: st("TMATS-R001"),
                    description: desc,
                    attribute_path: Some(st("G\\DSI\\N")),
                    current_value: Some(dec_string(declared as u64)),
                    proposed_value: Some(dec_string(actual as u64)),
                    auto_fixable: true,
                });
            }
        }
        assert(finding_views(out@) =~= r001_findings(doc@));
        out
    }

    fn apply(&self, doc: &mut TmatsDocument) -> (r: Vec<RepairAction>)
        ensures
            final(doc)@ == (if old(doc)@.general.num_data_sources != Some(old(doc)@.general.data_sources.len() as u32) {
                r001_doc(old(doc)@)
            } else {
                old(doc)@
            }),
            action_views(r@) == r001_actions(old(doc)@),
    {
        let ghost d0 = doc@;
        let actual = doc.general.data_sources.len() as u32;
        let old = doc.general.num_data_sources;
        let mut out: Vec<RepairAction> = Vec::new();
        if old != Some(actual) {
            doc.general.num_data_sources = Some(actual);
            let old_text = match old {
                Some(v) => Some(dec_string(v as u64)),
                None => None,
            };
            push_action(&mut out, RepairAction {
                rule_id: st("TMATS-R001"),
                action_type: RepairActionType::Recomputed,
                attribute_path: st("G\\DSI\\N"),
                old_value: old_text,
                new_value: Some(dec_string(actual as u64)),
            });
        }
        assert(action_views(out@) =~= r001_actions(d0));
        out
    }
}

// ─── R002: the R-x\N counters ───────────────────────────────────────────────

pub open spec fn r002_find_one(acc: Seq<RepairFindingV>, idx: u32, r: RGroupV) -> Seq<RepairFindingV> {
    let actual = r.channels.len() as u32;
    match r.num_channels {
        Some(declared) => if declared != actual {
            acc.push(RepairFindingV {
                rule_id: "TMATS-R002"@,
                description: "R-"@ + dec(idx as nat) + "\\N is "@ + dec(declared as nat) + ", actual count is "@ + dec(actual as nat),
                attribute_path: Some("R-"@ + dec(idx as nat) + "\\N"@),
                current_value: Some(dec(declared as nat)),
                proposed_value: Some(dec(actual as nat)),
                auto_fixable: true,
            })
        } else {
            acc
        },
        None => acc,
    }
}

pub open spec fn r002_findings_of(rs: Seq<(u32, RGroupV)>) -> Seq<RepairFindingV>
    decreases rs.len(),
{
    if rs.len() == 0 {
        Seq::empty()
    } else {
        r002_find_one(r002_findings_of(rs.drop_last()), rs.last().0, rs.last().1)
    }
}

pub open spec fn r002_findings(d: TmatsDocumentV) -> Seq<RepairFindingV> {
    r002_findings_of(d.recorders)
}

/// A recorder with its `N` counter set to its number of channels.
pub open spec fn fix_counter(r: RGroupV) -> RGroupV {
    RGroupV { num_channels: Some(r.channels.len() as u32), ..r }
}

pub open spec fn r002_doc(d: TmatsDocumentV) -> TmatsDocumentV {
    TmatsDocumentV { recorders: d.recorders.map_values(|e: (u32, RGroupV)| (e.0, fix_counter(e.1))), ..d }
}

pub open spec fn r002_act_one(acc: Seq<RepairActionV>, idx: u32, r: RGroupV) -> Seq<RepairActionV> {
    let actual = r.channels.len() as u32;
    if r.num_channels != Some(actual) {
        acc.push(RepairActionV {
            rule_id: "TMATS-R002"@,
            action_type: RepairActionType::Recomputed,
            attribute_path: "R-"@ + dec(idx as nat) + "\\N"@,
            old_value: dec_opt(r.num_channels),
            new_value: Some(dec(actual as nat)),
        })
    } else {
        acc
    }
}

pub open spec fn r002_actions_of(rs: Seq<(u32, RGroupV)>) -> Seq<RepairActionV>
    decreases rs.len(),
{
    if rs.len() == 0 {
        Seq::empty()
    } else {
        r002_act_one(r002_actions_of(rs.drop_last()), rs.last().0, rs.last().1)
    }
}

pub open spec fn r002_actions(d: TmatsDocumentV) -> Seq<RepairActionV> {
    r002_actions_of(d.recorders)
}

struct CounterRepairRN;

impl RepairRule for CounterRepairRN {
    fn id(&self) -> (r: &str)
        ensures
            r@ == "TMATS-R002"@,
    {
        "TMATS-R002"
    }

    fn description(&self) -> (r: &str)
        ensures
            r@ == "Recompute R-x\\N counters"@,
    {
        "Recompute R-x\\N counters"
    }

    fn can_auto_fix(&self) -> (r: bool)
        ensures
            r,
    {
        true
    }

    fn detect(&self, doc: &TmatsDocument) -> (r: Vec<RepairFinding>)
        ensures
            finding_views(r@) == r002_findings(doc@),
    {
        let mut out: Vec<RepairFinding> = Vec::new();
        assert(finding_views(out@) =~= Seq::<RepairFindingV>::empty());
        let m = &doc.recorders;
        let n = m.len();
        for i in 0..n
            invariant
                n == m@.len(),
                m@ == doc@.recorders,
                finding_views(out@) == r002_findings_of(m@.take(i as int)),
        {
            assert(m@.take(i + 1).drop_last() =~= m@.take(i as int));
            let idx = m.key_at(i);
            let r = m.value_at(i);
            let actual = r.channels.len() as u32;
            if let Some(declared) = r.num_channels {
                if declared != actual {
                    let mut desc = num_text("R-", idx as u64, "\\N is ");
                    push_dec(&mut desc, declared as u64);
                    push_str(&mut desc, ", actual count is ");
                    push_dec(&mut desc, actual as u64);
                    push_finding(&mut out, RepairFinding {
                        rule_id: st("TMATS-R002"),
                        description: desc,
                        attribute_path: Some(num_text("R-", idx as u64, "\\N")),
                        current_value: Some(dec_string(declared as u64)),
                        proposed_value: Some(dec_string(actual as u64)),
                        auto_fixable: true,
                    });
                }
            }
        }
        assert(m@.take(n as int) =~= m@);
        out
    }

    fn apply(&self, doc: &mut TmatsDocument) -> (r: Vec<RepairAction>)
        ensures
            final(doc)@ == r002_doc(old(doc)@),
            action_views(r@) == r002_actions(old(doc)@),
    {
        let ghost d0 = doc@;
        let ghost orig = doc@.recorders;
        let mut out: Vec<RepairAction> = Vec::new();
        assert(action_views(out@) =~= Seq::<RepairActionV>::empty());
        let n = doc.recorders.len();
        for i in 0..n
            invariant
                n == orig.len(),
                doc@.recorders.len() == n,
                forall|k: int| 0 <= k < n ==> (#[trigger] doc@.recorders[k]) == (if k < i {
                    (orig[k].0, fix_counter(orig[k].1))
                } else {
                    orig[k]
                }),
                doc@ == (TmatsDocumentV { recorders: doc@.recorders, ..d0 }),
                action_views(out@) == r002_actions_of(orig.take(i as int)),
        {
            assert(orig.take(i + 1).drop_last() =~= orig.take(i as int));
            let idx = doc.recorders.key_at(i);
            let mut r = doc.recorders.take_at(i);
            let actual = r.channels.len() as u32;
            let old = r.num_channels;
            if old != Some(actual) {
                r.num_channels = Some(actual);
                let old_text = match old {
                    Some(v) => Some(dec_string(v as u64)),
                    None => None,
                };
                push_action(&mut out, RepairAction {
                    rule_id: st("TMATS-R002"),
                    action_type: RepairActionType::Recomputed,
                    attribute_path: num_text("R-", idx as u64, "\\N"),
                    old_value: old_text,
                    new_value: Some(dec_string(actual as u64)),
                });
            }
            doc.recorders.put_at(i, r);
        }
        assert(doc@.recorders =~= orig.map_values(|e: (u32, RGroupV)| (e.0, fix_counter(e.1))));
        assert(orig.take(n as int) =~= orig);
        out
    }
}

// ─── R003: keyword case ─────────────────────────────────────────────────────

pub open spec fn upper_opt(o: Option<Seq<char>>) -> Option<Seq<char>> {
    match o {
        Some(v) => Some(upper(v)),
        None => None,
    }
}

pub open spec fn upper_channel(c: RChannelV) -> RChannelV {
    RChannelV { data_packing_option: upper_opt(c.data_packing_option), ..c }
}

pub open spec fn upper_recorder(r: RGroupV) -> RGroupV {
    RGroupV { channels: r.channels.map_values(|e: (u32, RChannelV)| (e.0, upper_channel(e.1))), ..r }
}

pub open spec fn upper_pcm(p: PGroupV) -> PGroupV {
    PGroupV { encoding: upper_opt(p.encoding), ..p }
}

pub open spec fn upper_source(ds: DataSourceDeclV) -> DataSourceDeclV {
    DataSourceDeclV { data_source_type: upper_opt(ds.data_source_type), ..ds }
}

/// The document with every packing option, PCM encoding and data source
/// type upper-cased.
pub open spec fn r003_doc(d: TmatsDocumentV) -> TmatsDocumentV {
    TmatsDocumentV {
        recorders: d.recorders.map_values(|e: (u32, RGroupV)| (e.0, upper_recorder(e.1))),
        pcm_formats: d.pcm_formats.map_values(|e: (u32, PGroupV)| (e.0, upper_pcm(e.1))),
        general: GGroupV { data_sources: d.general.data_sources.map_values(|e: (u32, DataSourceDeclV)| (e.0, upper_source(e.1))), ..d.general },
        ..d
    }
}

/// The finding for a value that is not upper case.
pub open spec fn case_finding(path: Seq<char>, v: Seq<char>) -> RepairFindingV {
    RepairFindingV {
        rule_id: "TMATS-R003"@,
        description: path + " '"@ + v + "' should be '"@ + upper(v) + "'"@,
        attribute_path: Some(path),
        current_value: Some(v),
        proposed_value: Some(upper(v)),
        auto_fixable: true,
    }
}

/// The action that upper-cases a value.
pub open spec fn case_action(path: Seq<char>, v: Seq<char>) -> RepairActionV {
    RepairActionV {
        rule_id: "TMATS-R003"@,
        action_type: RepairActionType::Modified,
        attribute_path: path,
        old_value: Some(v),
        new_value: Some(upper(v)),
    }
}

/// Whether an optional value holds text that is not upper case.
pub open spec fn not_upper(o: Option<Seq<char>>) -> bool {
    o matches Some(v) && v != upper(v)
}

pub open spec fn pdp_path(ri: u32, ci: u32) -> Seq<char> {
    "R-"@ + dec(ri as nat) + "\\PDP-"@ + dec(ci as nat)
}

pub open spec fn d2_path(i: u32) -> Seq<char> {
    "P-"@ + dec(i as nat) + "\\D2"@
}

pub open spec fn dst_path(i: u32) -> Seq<char> {
    "G\\DST-"@ + dec(i as nat)
}

/// Findings (`act` false) or actions (`act` true) are told apart by the caller;
/// these collect the values that upper-casing changes, with their paths.
pub open spec fn case_chans(acc: Seq<(Seq<char>, Seq<char>)>, ri: u32, chs: Seq<(u32, RChannelV)>) -> Seq<(Seq<char>, Seq<char>)>
    decreases chs.len(),
{
    if chs.len() == 0 {
        acc
    } else {
        let a = case_chans(acc, ri, chs.drop_last());
        let o = chs.last().1.data_packing_option;
        if not_upper(o) {
            a.push((pdp_path(ri, chs.last().0), o.unwrap()))
        } else {
            a
        }
    }
}

pub open spec fn case_recs(acc: Seq<(Seq<char>, Seq<char>)>, rs: Seq<(u32, RGroupV)>) -> Seq<(Seq<char>, Seq<char>)>
    decreases rs.len(),
{
    if rs.len() == 0 {
        acc
    } else {
        case_chans(case_recs(acc, rs.drop_last()), rs.last().0, rs.last().1.channels)
    }
}

pub open spec fn case_pcm(acc: Seq<(Seq<char>, Seq<char>)>, ps: Seq<(u32, PGroupV)>) -> Seq<(Seq<char>, Seq<char>)>
    decreases ps.len(),
{
    if ps.len() == 0 {
        acc
    } else {
        let a = case_pcm(acc, ps.drop_last());
        let o = ps.last().1.encoding;
        if not_upper(o) {
            a.push((d2_path(ps.last().0), o.unwrap()))
        } else {
            a
        }
    }
}

pub open spec fn case_sources(acc: Seq<(Seq<char>, Seq<char>)>, ds: Seq<(u32, DataSourceDeclV)>) -> Seq<(Seq<char>, Seq<char>)>
    decreases ds.len(),
{
    if ds.len() == 0 {
        acc
    } else {
        let a = case_sources(acc, ds.drop_last());
        let o = ds.last().1.data_source_type;
        if not_upper(o) {
            a.push((dst_path(ds.last().0), o.unwrap()))
        } else {
            a
        }
    }
}

/// The values that are not upper case, with their paths: packing options,
/// then PCM encodings, then data source types.
pub open spec fn case_changes(d: TmatsDocumentV) -> Seq<(Seq<char>, Seq<char>)> {
    case_sources(case_pcm(case_recs(Seq::empty(), d.recorders), d.pcm_formats), d.general.data_sources)
}

pub open spec fn r003_findings(d: TmatsDocumentV) -> Seq<RepairFindingV> {
    case_changes(d).map_values(|c: (Seq<char>, Seq<char>)| case_finding(c.0, c.1))
}

pub open spec fn r003_actions(d: TmatsDocumentV) -> Seq<RepairActionV> {
    case_changes(d).map_values(|c: (Seq<char>, Seq<char>)| case_action(c.0, c.1))
}

pub open spec fn change_views(v: Seq<(String, String)>) -> Seq<(Seq<char>, Seq<char>)> {
    v.map_values(|p: (String, String)| (p.0@, p.1@))
}

fn upper_string(s: &String) -> (r: String)
    ensures
        r@ == upper(s@),
{
    let v = chars_of(s.as_str());
    let u = upper_chars(&v);
    string_of(&u)
}

fn is_upper(s: &String) -> (r: bool)
    ensures
        r == (s@ == upper(s@)),
{
    let v = chars_of(s.as_str());
    let u = upper_chars(&v);
    chars_eq(&v, &u)
}

fn push_change(out: &mut Vec<(String, String)>, path: String, v: String)
    ensures
        change_views(final(out)@) == change_views(old(out)@).push((path@, v@)),
{
    let ghost before = change_views(out@);
    let ghost e = (path@, v@);
    out.push((path, v));
    assert(change_views(out@) =~= before.push(e));
}

/// The values that are not upper case, with their paths, as `case_changes` orders them.
fn case_collect(doc: &TmatsDocument) -> (r: Vec<(String, String)>)
    ensures
        change_views(r@) == case_changes(doc@),
{
    let mut out: Vec<(String, String)> = Vec::new();
    assert(change_views(out@) =~= Seq::<(Seq<char>, Seq<char>)>::empty());
    let rs = &doc.recorders;
    let n = rs.len();
    for i in 0..n
        invariant
            n == rs@.len(),
            rs@ == doc@.recorders,
            change_views(out@) == case_recs(Seq::empty(), rs@.take(i as int)),
    {
        assert(rs@.take(i + 1).drop_last() =~= rs@.take(i as int));
        let ri = rs.key_at(i);
        let chs = &rs.value_at(i).channels;
        let ghost acc = change_views(out@);
        let nc = chs.len();
        for j in 0..nc
            invariant
                nc == chs@.len(),
                change_views(out@) == case_chans(acc, ri, chs@.take(j as int)),
        {
            assert(chs@.take(j + 1).drop_last() =~= chs@.take(j as int));
            let ci = chs.key_at(j);
            if let Some(v) = &chs.value_at(j).data_packing_option {
                if !is_upper(v) {
                    let mut path = num_text("R-", ri as u64, "\\PDP-");
                    push_dec(&mut path, ci as u64);
                    push_change(&mut out, path, v.clone());
                }
            }
        }
        assert(chs@.take(nc as int) =~= chs@);
    }
    assert(rs@.take(n as int) =~= rs@);
    let ghost acc1 = change_views(out@);
    let ps = &doc.pcm_formats;
    let n = ps.len();
    for i in 0..n
        invariant
            n == ps@.len(),
            ps@ == doc@.pcm_formats,
            change_views(out@) == case_pcm(acc1, ps@.take(i as int)),
    {
        assert(ps@.take(i + 1).drop_last() =~= ps@.take(i as int));
        let pi = ps.key_at(i);
        if let Some(v) = &ps.value_at(i).encoding {
            if !is_upper(v) {
                push_change(&mut out, num_text("P-", pi as u64, "\\D2"), v.clone());
            }
        }
    }
    assert(ps@.take(n as int) =~= ps@);
    let ghost acc2 = change_views(out@);
    let ds = &doc.general.data_sources;
    let n = ds.len();
    for i in 0..n
        invariant
            n == ds@.len(),
            ds@ == doc@.general.data_sources,
            change_views(out@) == case_sources(acc2, ds@.take(i as int)),
    {
        assert(ds@.take(i + 1).drop_last() =~= ds@.take(i as int));
        let di = ds.key_at(i);
        if let Some(v) = &ds.value_at(i).data_source_type {
            if !is_upper(v) {
                let mut path = st("G\\DST-");
                push_dec(&mut path, di as u64);
                push_change(&mut out, path, v.clone());
            }
        }
    }
    assert(ds@.take(n as int) =~= ds@);
    out
}

fn upper_in_place(o: &mut Option<String>)
    ensures
        crate::error::opt_text(*final(o)) == upper_opt(crate::error::opt_text(*old(o))),
{
    let u = match o {
        Some(v) => Some(upper_string(v)),
        None => None,
    };
    *o = u;
}

/// Upper-cases every packing option, PCM encoding and data source type.
fn case_fix(doc: &mut TmatsDocument)
    ensures
        final(doc)@ == r003_doc(old(doc)@),
{
    let ghost d0 = doc@;
    let ghost rs0 = doc@.recorders;
    let n = doc.recorders.len();
    for i in 0..n
        invariant
            n == rs0.len(),
            doc@.recorders.len() == n,
            forall|k: int| 0 <= k < n ==> (#[trigger] doc@.recorders[k]) == (if k < i {
                (rs0[k].0, upper_recorder(rs0[k].1))
            } else {
                rs0[k]
            }),
            doc@ == (TmatsDocumentV { recorders: doc@.recorders, ..d0 }),
    {
        let mut r = doc.recorders.take_at(i);
        let ghost r0 = r@;
        let nc = r.channels.len();
        for j in 0..nc
            invariant
                nc == r0.channels.len(),
                r@.channels.len() == nc,
                forall|k: int| 0 <= k < nc ==> (#[trigger] r@.channels[k]) == (if k < j {
                    (r0.channels[k].0, upper_channel(r0.channels[k].1))
                } else {
                    r0.channels[k]
                }),
                r@ == (RGroupV { channels: r@.channels, ..r0 }),
        {
            let mut ch = r.channels.take_at(j);
            upper_in_place(&mut ch.data_packing_option);
            r.channels.put_at(j, ch);
        }
        assert(r@.channels =~= r0.channels.map_values(|e: (u32, RChannelV)| (e.0, upper_channel(e.1))));
        doc.recorders.put_at(i, r);
    }
    assert(doc@.recorders =~= rs0.map_values(|e: (u32, RGroupV)| (e.0, upper_recorder(e.1))));
    let ghost d1 = doc@;
    let ghost ps0 = doc@.pcm_formats;
    let n = doc.pcm_formats.len();
    for i in 0..n
        invariant
            n == ps0.len(),
            doc@.pcm_formats.len() == n,
            forall|k: int| 0 <= k < n ==> (#[trigger] doc@.pcm_formats[k]) == (if k < i {
                (ps0[k].0, upper_pcm(ps0[k].1))
            } else {
                ps0[k]
            }),
            doc@ == (TmatsDocumentV { pcm_formats: doc@.pcm_formats, ..d1 }),
    {
        let mut p = doc.pcm_formats.take_at(i);
        upper_in_place(&mut p.encoding);
        doc.pcm_formats.put_at(i, p);
    }
    assert(doc@.pcm_formats =~= ps0.map_values(|e: (u32, PGroupV)| (e.0, upper_pcm(e.1))));
    let ghost d2 = doc@;
    let ghost ds0 = doc@.general.data_sources;
    let n = doc.general.data_sources.len();
    for i in 0..n
        invariant
            n == ds0.len(),
            doc@.general.data_sources.len() == n,
            forall|k: int| 0 <= k < n ==> (#[trigger] doc@.general.data_sources[k]) == (if k < i {
                (ds0[k].0, upper_source(ds0[k].1))
            } else {
                ds0[k]
            }),
            doc@ == (TmatsDocumentV { general: GGroupV { data_sources: doc@.general.data_sources, ..d2.general }, ..d2 }),
    {
        let mut ds = doc.general.data_sources.take_at(i);
        upper_in_place(&mut ds.data_source_type);
        doc.general.data_sources.put_at(i, ds);
    }
    assert(doc@.general.data_sources =~= ds0.map_values(|e: (u32, DataSourceDeclV)| (e.0, upper_source(e.1))));
}

struct CaseNormalizationRepair;

impl RepairRule for CaseNormalizationRepair {
    fn id(&self) -> (r: &str)
        ensures
            r@ == "TMATS-R003"@,
    {
        "TMATS-R003"
    }

    fn description(&self) -> (r: &str)
        ensures
            r@ == "Normalize keyword values to canonical case"@,
    {
        "Normalize keyword values to canonical case"
    }

    fn can_auto_fix(&self) -> (r: bool)
        ensures
            r,
    {
        true
    }

    fn detect(&self, doc: &TmatsDocument) -> (r: Vec<RepairFinding>)
        ensures
            finding_views(r@) == r003_findings(doc@),
    {
        let changes = case_collect(doc);
        let ghost cv = change_views(changes@);
        let mut out: Vec<RepairFinding> = Vec::new();
        let n = changes.len();
        for i in 0..n
            invariant
                n == changes@.len(),
                cv == change_views(changes@),
                finding_views(out@) == cv.take(i as int).map_values(|c: (Seq<char>, Seq<char>)| case_finding(c.0, c.1)),
        {
            let path = &changes[i].0;
            let v = &changes[i].1;
            let u = upper_string(v);
            let mut desc = path.clone();
            push_str(&mut desc, " '");
            push_str(&mut desc, v.as_str());
            push_str(&mut desc, "' should be '");
            push_str(&mut desc, u.as_str());
            push_str(&mut desc, "'");
            push_finding(&mut out, RepairFinding {
                rule_id: st("TMATS-R003"),
                description: desc,
                attribute_path: Some(path.clone()),
                current_value: Some(v.clone()),
                proposed_value: Some(u),
                auto_fixable: true,
            });
            assert(cv.take(i + 1) =~= cv.take(i as int).push(cv[i as int]));
            assert(finding_views(out@) =~= cv.take(i + 1).map_values(|c: (Seq<char>, Seq<char>)| case_finding(c.0, c.1)));
        }
        assert(cv.take(n as int) =~= cv);
        out
    }

    fn apply(&self, doc: &mut TmatsDocument) -> (r: Vec<RepairAction>)
        ensures
            final(doc)@ == r003_doc(old(doc)@),
            action_views(r@) == r003_actions(old(doc)@),
    {
        let changes = case_collect(doc);
        let ghost cv = change_views(changes@);
        case_fix(doc);
        let mut out: Vec<RepairAction> = Vec::new();
        let n = changes.len();
        for i in 0..n
            invariant
                n == changes@.len(),
                cv == change_views(changes@),
                action_views(out@) == cv.take(i as int).map_values(|c: (Seq<char>, Seq<char>)| case_action(c.0, c.1)),
        {
            let path = &changes[i].0;
            let v = &changes[i].1;
            push_action(&mut out, RepairAction {
                rule_id: st("TMATS-R003"),
                action_type: RepairActionType::Modified,
                attribute_path: path.clone(),
                old_value: Some(v.clone()),
                new_value: Some(upper_string(v)),
            });
            assert(cv.take(i + 1) =~= cv.take(i as int).push(cv[i as int]));
            assert(action_views(out@) =~= cv.take(i + 1).map_values(|c: (Seq<char>, Seq<char>)| case_action(c.0, c.1)));
        }
        assert(cv.take(n as int) =~= cv);
        out
    }
}

// ─── R004: missing required recorder attributes ─────────────────────────────

/// The value written for a recorder identification that is missing.
pub open spec fn default_recorder_id() -> Seq<char> {
    "UNKNOWN"@
}

/// A recorder with its missing `ID` and `N` filled in: the default
/// identification and its number of channels.
pub open spec fn fill_recorder(r: RGroupV) -> RGroupV {
    RGroupV {
        recorder_id: if r.recorder_id is None { Some(default_recorder_id()) } else { r.recorder_id },
        num_channels: if r.num_channels is None { Some(r.channels.len() as u32) } else { r.num_channels },
        ..r
    }
}

pub open spec fn r004_doc(d: TmatsDocumentV) -> TmatsDocumentV {
    TmatsDocumentV { recorders: d.recorders.map_values(|e: (u32, RGroupV)| (e.0, fill_recorder(e.1))), ..d }
}

pub open spec fn missing_finding(path: Seq<char>, v: Seq<char>) -> RepairFindingV {
    RepairFindingV {
        rule_id: "TMATS-R004"@,
        description: "missing required attribute "@ + path,
        attribute_path: Some(path),
        current_value: None,
        proposed_value: Some(v),
        auto_fixable: true,
    }
}

pub open spec fn missing_action(path: Seq<char>, v: Seq<char>) -> RepairActionV {
    RepairActionV {
        rule_id: "TMATS-R004"@,
        action_type: RepairActionType::Inserted,
        attribute_path: path,
        old_value: None,
        new_value: Some(v),
    }
}

/// The (path, value) pairs that R004 inserts into one recorder.
pub open spec fn missing_of(idx: u32, r: RGroupV) -> Seq<(Seq<char>, Seq<char>)> {
    (if r.recorder_id is None { seq![("R-"@ + dec(idx as nat) + "\\ID"@, default_recorder_id())] } else { Seq::empty() })
        + (if r.num_channels is None {
            seq![("R-"@ + dec(idx as nat) + "\\N"@, dec(r.channels.len() as u32 as nat))]
        } else {
            Seq::empty()
        })
}

/// The (path, value) pairs that R004 inserts, recorder by recorder.
pub open spec fn missing_all(rs: Seq<(u32, RGroupV)>) -> Seq<(Seq<char>, Seq<char>)>
    decreases rs.len(),
{
    if rs.len() == 0 {
        Seq::empty()
    } else {
        missing_all(rs.drop_last()) + missing_of(rs.last().0, rs.last().1)
    }
}

pub open spec fn r004_findings(d: TmatsDocumentV) -> Seq<RepairFindingV> {
    missing_all(d.recorders).map_values(|p: (Seq<char>, Seq<char>)| missing_finding(p.0, p.1))
}

pub open spec fn r004_actions(d: TmatsDocumentV) -> Seq<RepairActionV> {
    missing_all(d.recorders).map_values(|p: (Seq<char>, Seq<char>)| missing_action(p.0, p.1))
}

/// The (path, value) pairs for one recorder, computed.
fn missing_pairs(idx: u32, r: &RGroup) -> (out: Vec<(String, String)>)
    ensures
        pair_views(out@) == missing_of(idx, r@),
{
    let mut out: Vec<(String, String)> = Vec::new();
    if r.recorder_id.is_none() {
        out.push((num_text("R-", idx as u64, "\\ID"), st("UNKNOWN")));
    }
    if r.num_channels.is_none() {
        out.push((num_text("R-", idx as u64, "\\N"), dec_string(r.channels.len() as u32 as u64)));
    }
    assert(pair_views(out@) =~= missing_of(idx, r@));
    out
}

pub open spec fn pair_views(v: Seq<(String, String)>) -> Seq<(Seq<char>, Seq<char>)> {
    v.map_values(|p: (String, String)| (p.0@, p.1@))
}

struct MissingRequiredRepair;

impl RepairRule for MissingRequiredRepair {
    fn id(&self) -> (r: &str)
        ensures
            r@ == "TMATS-R004"@,
    {
        "TMATS-R004"
    }

    fn description(&self) -> (r: &str)
        ensures
            r@ == "Insert missing required recorder attributes"@,
    {
        "Insert missing required recorder attributes"
    }

    fn can_auto_fix(&self) -> (r: bool)
        ensures
            r,
    {
        true
    }

    fn detect(&self, doc: &TmatsDocument) -> (r: Vec<RepairFinding>)
        ensures
            finding_views(r@) == r004_findings(doc@),
    {
        let mut out: Vec<RepairFinding> = Vec::new();
        let ghost f = |p: (Seq<char>, Seq<char>)| missing_finding(p.0, p.1);
        assert(finding_views(out@) =~= missing_all(Seq::<(u32, RGroupV)>::empty()).map_values(f));
        let m = &doc.recorders;
        let n = m.len();
        for i in 0..n
            invariant
                n == m@.len(),
                m@ == doc@.recorders,
                f == (|p: (Seq<char>, Seq<char>)| missing_finding(p.0, p.1)),
                finding_views(out@) == missing_all(m@.take(i as int)).map_values(f),
        {
            assert(m@.take(i + 1).drop_last() =~= m@.take(i as int));
            let idx = m.key_at(i);
            let pairs = missing_pairs(idx, m.value_at(i));
            let ghost before = missing_all(m@.take(i as int));
            let ghost here = missing_of(idx, m@[i as int].1);
            let k = pairs.len();
            for j in 0..k
                invariant
                    k == pairs@.len(),
                    pair_views(pairs@) == here,
                    f == (|p: (Seq<char>, Seq<char>)| missing_finding(p.0, p.1)),
                    finding_views(out@) == (before + here.take(j as int)).map_values(f),
            {
                let (path, v) = (pairs[j].0.clone(), pairs[j].1.clone());
                let mut desc = st("missing required attribute ");
                push_str(&mut desc, path.as_str());
                push_finding(&mut out, RepairFinding {
                    rule_id: st("TMATS-R004"),
                    description: desc,
                    attribute_path: Some(path),
                    current_value: None,
                    proposed_value: Some(v),
                    auto_fixable: true,
                });
                assert((before + here.take(j + 1)).map_values(f) =~= (before + here.take(j as int)).map_values(f).push(f(here[j as int])));
            }
            assert(here.take(k as int) =~= here);
        }
        assert(m@.take(n as int) =~= m@);
        out
    }

    fn apply(&self, doc: &mut TmatsDocument) -> (r: Vec<RepairAction>)
        ensures
            final(doc)@ == r004_doc(old(doc)@),
            action_views(r@) == r004_actions(old(doc)@),
    {
        let ghost d0 = doc@;
        let ghost orig = doc@.recorders;
        let ghost g = |p: (Seq<char>, Seq<char>)| missing_action(p.0, p.1);
        let mut out: Vec<RepairAction> = Vec::new();
        assert(action_views(out@) =~= missing_all(Seq::<(u32, RGroupV)>::empty()).map_values(g));
        let n = doc.recorders.len();
        for i in 0..n
            invariant
                n == orig.len(),
                doc@.recorders.len() == n,
                forall|k: int| 0 <= k < n ==> (#[trigger] doc@.recorders[k]) == (if k < i {
                    (orig[k].0, fill_recorder(orig[k].1))
                } else {
                    orig[k]
                }),
                doc@ == (TmatsDocumentV { recorders: doc@.recorders, ..d0 }),
                g == (|p: (Seq<char>, Seq<char>)| missing_action(p.0, p.1)),
                action_views(out@) == missing_all(orig.take(i as int)).map_values(g),
        {
            assert(orig.take(i + 1).drop_last() =~= orig.take(i as int));
            let idx = doc.recorders.key_at(i);
            let mut r = doc.recorders.take_at(i);
            let pairs = missing_pairs(idx, &r);
            let ghost before = missing_all(orig.take(i as int));
            let ghost here = missing_of(idx, orig[i as int].1);
            let k = pairs.len();
            for j in 0..k
                invariant
                    k == pairs@.len(),
                    pair_views(pairs@) == here,
                    g == (|p: (Seq<char>, Seq<char>)| missing_action(p.0, p.1)),
                    action_views(out@) == (before + here.take(j as int)).map_values(g),
            {
                push_action(&mut out, RepairAction {
                    rule_id: st("TMATS-R004"),
                    action_type: RepairActionType::Inserted,
                    attribute_path: pairs[j].0.clone(),
                    old_value: None,
                    new_value: Some(pairs[j].1.clone()),
                });
                assert((before + here.take(j + 1)).map_values(g) =~= (before + here.take(j as int)).map_values(g).push(g(here[j as int])));
            }
            assert(here.take(k as int) =~= here);
            if r.recorder_id.is_none() {
                r.recorder_id = Some(st("UNKNOWN"));
            }
            if r.num_channels.is_none() {
                r.num_channels = Some(r.channels.len() as u32);
            }
            doc.recorders.put_at(i, r);
        }
        assert(doc@.recorders =~= orig.map_values(|e: (u32, RGroupV)| (e.0, fill_recorder(e.1))));
        assert(orig.take(n as int) =~= orig);
        out
    }
}

// ─── R005: orphan channels ──────────────────────────────────────────────────

/// The data link names of the P, B and S groups, upper-cased.
pub open spec fn known_upper(d: TmatsDocumentV) -> Seq<Seq<char>> {
    known_spec(d).map_values(|x: Seq<char>| upper(x))
}

pub open spec fn orphan_path(ri: u32, ci: u32) -> Seq<char> {
    "R-"@ + dec(ri as nat) + "\\CDLN-"@ + dec(ci as nat)
}

/// The finding for channel `ci` of recorder `ri`, whose data link name `c`
/// leads nowhere.
pub open spec fn orphan_finding(ri: u32, ci: u32, c: Seq<char>) -> RepairFindingV {
    RepairFindingV {
        rule_id: "TMATS-R005"@,
        description: orphan_path(ri, ci) + " '"@ + c + "' has no matching P/B/S format group"@,
        attribute_path: Some(orphan_path(ri, ci)),
        current_value: Some(c),
        proposed_value: None,
        auto_fixable: false,
    }
}

pub open spec fn orphan_chans(acc: Seq<RepairFindingV>, ri: u32, chs: Seq<(u32, RChannelV)>, known: Seq<Seq<char>>) -> Seq<RepairFindingV>
    decreases chs.len(),
{
    if chs.len() == 0 {
        acc
    } else {
        let a = orphan_chans(acc, ri, chs.drop_last(), known);
        match chs.last().1.data_link_name {
            Some(c) => if !has_match(known, c) {
                a.push(orphan_finding(ri, chs.last().0, c))
            } else {
                a
            },
            None => a,
        }
    }
}

pub open spec fn orphan_recs(rs: Seq<(u32, RGroupV)>, known: Seq<Seq<char>>) -> Seq<RepairFindingV>
    decreases rs.len(),
{
    if rs.len() == 0 {
        Seq::empty()
    } else {
        orphan_chans(orphan_recs(rs.drop_last(), known), rs.last().0, rs.last().1.channels, known)
    }
}

pub open spec fn r005_findings(d: TmatsDocumentV) -> Seq<RepairFindingV> {
    orphan_recs(d.recorders, known_upper(d))
}

struct OrphanDetectionRepair;

impl RepairRule for OrphanDetectionRepair {
    fn id(&self) -> (r: &str)
        ensures
            r@ == "TMATS-R005"@,
    {
        "TMATS-R005"
    }

    fn description(&self) -> (r: &str)
        ensures
            r@ == "Detect orphan channel references to missing format groups"@,
    {
        "Detect orphan channel references to missing format groups"
    }

    fn can_auto_fix(&self) -> (r: bool)
        ensures
            !r,
    {
        false
    }

    fn detect(&self, doc: &TmatsDocument) -> (r: Vec<RepairFinding>)
        ensures
            finding_views(r@) == r005_findings(doc@),
    {
        let names = crate::validate::known_dlns(doc);
        let mut known: Vec<String> = Vec::new();
        let n = names.len();
        for i in 0..n
            invariant
                n == names@.len(),
                crate::validate::known_view(names@) == known_spec(doc@),
                crate::validate::known_view(known@) == known_spec(doc@).take(i as int).map_values(|x: Seq<char>| upper(x)),
        {
            let ghost before = crate::validate::known_view(known@);
            let u = upper_string(&names[i]);
            let ghost uv = u@;
            known.push(u);
            assert(crate::validate::known_view(known@) =~= before.push(uv));
            assert(uv == upper(known_spec(doc@)[i as int]));
            assert(known_spec(doc@).take(i + 1) =~= known_spec(doc@).take(i as int).push(known_spec(doc@)[i as int]));
            assert(crate::validate::known_view(known@) =~= known_spec(doc@).take(i + 1).map_values(|x: Seq<char>| upper(x)));
        }
        assert(known_spec(doc@).take(n as int) =~= known_spec(doc@));
        let mut out: Vec<RepairFinding> = Vec::new();
        assert(finding_views(out@) =~= Seq::<RepairFindingV>::empty());
        let rs = &doc.recorders;
        let n = rs.len();
        for i in 0..n
            invariant
                n == rs@.len(),
                rs@ == doc@.recorders,
                crate::validate::known_view(known@) == known_upper(doc@),
                finding_views(out@) == orphan_recs(rs@.take(i as int), known_upper(doc@)),
        {
            assert(rs@.take(i + 1).drop_last() =~= rs@.take(i as int));
            let ri = rs.key_at(i);
            let chs = &rs.value_at(i).channels;
            let ghost acc = finding_views(out@);
            let nc = chs.len();
            for j in 0..nc
                invariant
                    nc == chs@.len(),
                    crate::validate::known_view(known@) == known_upper(doc@),
                    finding_views(out@) == orphan_chans(acc, ri, chs@.take(j as int), known_upper(doc@)),
            {
                assert(chs@.take(j + 1).drop_last() =~= chs@.take(j as int));
                let ci = chs.key_at(j);
                if let Some(c) = &chs.value_at(j).data_link_name {
                    if !crate::validate::matches_any(&known, c) {
                        let mut path = num_text("R-", ri as u64, "\\CDLN-");
                        push_dec(&mut path, ci as u64);
                        let mut desc = path.clone();
                        push_str(&mut desc, " '");
                        push_str(&mut desc, c.as_str());
                        push_str(&mut desc, "' has no matching P/B/S format group");
                        push_finding(&mut out, RepairFinding {
                            rule_id: st("TMATS-R005"),
                            description: desc,
                            attribute_path: Some(path),
                            current_value: Some(c.clone()),
                            proposed_value: None,
                            auto_fixable: false,
                        });
                    }
                }
            }
            assert(chs@.take(nc as int) =~= chs@);
        }
        assert(rs@.take(n as int) =~= rs@);
        out
    }

    fn apply(&self, doc: &mut TmatsDocument) -> (r: Vec<RepairAction>)
        ensures
            final(doc)@ == old(doc)@,
            r@.len() == 0,
    {
        Vec::new()
    }
}

// ─── Running the rules ──────────────────────────────────────────────────────

pub open spec fn fixes_counters(o: RepairOptions) -> bool {
    !o.dry_run && o.auto_fix_counters
}

pub open spec fn fixes_case(o: RepairOptions) -> bool {
    !o.dry_run && o.auto_fix_case
}

/// The document after the counter rule for `G\DSI\N`.
pub open spec fn step1(d: TmatsDocumentV, o: RepairOptions) -> TmatsDocumentV {
    if fixes_counters(o) && d.general.num_data_sources != Some(d.general.data_sources.len() as u32) {
        r001_doc(d)
    } else {
        d
    }
}

/// The document after the counter rule for `R-x\N`.
pub open spec fn step2(d: TmatsDocumentV, o: RepairOptions) -> TmatsDocumentV {
    if fixes_counters(o) {
        r002_doc(step1(d, o))
    } else {
        step1(d, o)
    }
}

pub open spec fn fixes_missing(o: RepairOptions) -> bool {
    !o.dry_run && o.auto_fix_missing_required
}

/// The document after the keyword case rule.
pub open spec fn step3(d: TmatsDocumentV, o: RepairOptions) -> TmatsDocumentV {
    if fixes_case(o) {
        r003_doc(step2(d, o))
    } else {
        step2(d, o)
    }
}

/// The repaired document: counters recomputed, keyword case normalized,
/// then missing recorder attributes inserted, as the options allow.
pub open spec fn repaired(d: TmatsDocumentV, o: RepairOptions) -> TmatsDocumentV {
    if fixes_missing(o) {
        r004_doc(step3(d, o))
    } else {
        step3(d, o)
    }
}

/// Every rule's findings, each rule seeing the document as the rules before it left it.
pub open spec fn repair_findings(d: TmatsDocumentV, o: RepairOptions) -> Seq<RepairFindingV> {
    r001_findings(d) + r002_findings(step1(d, o)) + r003_findings(step2(d, o)) + r004_findings(step3(d, o))
        + r005_findings(repaired(d, o))
}

/// The changes the rules made.
pub open spec fn repair_actions(d: TmatsDocumentV, o: RepairOptions) -> Seq<RepairActionV> {
    (if fixes_counters(o) { r001_actions(d) } else { Seq::empty() })
        + (if fixes_counters(o) { r002_actions(step1(d, o)) } else { Seq::empty() })
        + (if fixes_case(o) { r003_actions(step2(d, o)) } else { Seq::empty() })
        + (if fixes_missing(o) { r004_actions(step3(d, o)) } else { Seq::empty() })
}

/// The number of errors that validation finds.
pub open spec fn error_count(d: TmatsDocumentV) -> nat {
    crate::error::count_severity_v(validation_diags(d, ValidationProfile::Full), Severity::Error)
}

fn extend_findings(out: &mut Vec<RepairFinding>, more: Vec<RepairFinding>)
    ensures
        finding_views(final(out)@) == finding_views(old(out)@) + finding_views(more@),
{
    let ghost o = finding_views(out@);
    let ghost m = finding_views(more@);
    let n = more.len();
    for i in 0..n
        invariant
            n == more@.len(),
            m == finding_views(more@),
            finding_views(out@) == o + m.take(i as int),
    {
        push_finding(out, more[i].clone_finding());
        assert(m.take(i + 1) =~= m.take(i as int).push(m[i as int]));
        assert(finding_views(out@) =~= o + m.take(i + 1));
    }
    assert(m.take(n as int) =~= m);
}

fn extend_actions(out: &mut Vec<RepairAction>, more: Vec<RepairAction>)
    ensures
        action_views(final(out)@) == action_views(old(out)@) + action_views(more@),
{
    let ghost o = action_views(out@);
    let ghost m = action_views(more@);
    let n = more.len();
    for i in 0..n
        invariant
            n == more@.len(),
            m == action_views(more@),
            action_views(out@) == o + m.take(i as int),
    {
        push_action(out, more[i].clone_action());
        assert(m.take(i + 1) =~= m.take(i as int).push(m[i as int]));
        assert(action_views(out@) =~= o + m.take(i + 1));
    }
    assert(m.take(n as int) =~= m);
}

impl RepairFinding {
    fn clone_finding(&self) -> (r: RepairFinding)
        ensures
            r@ == self@,
    {
        RepairFinding {
            rule_id: self.rule_id.clone(),
            description: self.description.clone(),
            attribute_path: self.attribute_path.clone(),
            current_value: self.current_value.clone(),
            proposed_value: self.proposed_value.clone(),
            auto_fixable: self.auto_fixable,
        }
    }
}

impl RepairAction {
    fn clone_action(&self) -> (r: RepairAction)
        ensures
            r@ == self@,
    {
        RepairAction {
            rule_id: self.rule_id.clone(),
            action_type: self.action_type,
            attribute_path: self.attribute_path.clone(),
            old_value: self.old_value.clone(),
            new_value: self.new_value.clone(),
        }
    }
}

/// Repair a document in place, as far as the options allow, and report
/// what was found and done, with the validation error counts before and after.
pub fn repair(doc: &mut TmatsDocument, opts: &RepairOptions) -> (r: RepairReport)
    requires
        old(doc)@.attribute_total() <= usize::MAX,
    ensures
        final(doc)@ == repaired(old(doc)@, *opts),
        finding_views(r.findings@) == repair_findings(old(doc)@, *opts),
        action_views(r.actions_taken@) == repair_actions(old(doc)@, *opts),
        r.was_dry_run == opts.dry_run,
        r.pre_repair_errors == error_count(old(doc)@),
        r.post_repair_errors == error_count(final(doc)@),
{
    let ghost d0 = doc@;
    let pre = validate(doc).errors;
    let counters = !opts.dry_run && opts.auto_fix_counters;
    let case = !opts.dry_run && opts.auto_fix_case;
    let missing = !opts.dry_run && opts.auto_fix_missing_required;
    let mut findings: Vec<RepairFinding> = Vec::new();
    let mut actions: Vec<RepairAction> = Vec::new();
    assert(finding_views(findings@) =~= Seq::<RepairFindingV>::empty());
    assert(action_views(actions@) =~= Seq::<RepairActionV>::empty());

    extend_findings(&mut findings, CounterRepairGDsi.detect(doc));
    if counters && CounterRepairGDsi.can_auto_fix() {
        extend_actions(&mut actions, CounterRepairGDsi.apply(doc));
    }
    assert(doc@ == step1(d0, *opts));
    let ghost a1 = action_views(actions@);
    assert(a1 =~= Seq::<RepairActionV>::empty() + (if fixes_counters(*opts) { r001_actions(d0) } else { Seq::empty() }));

    extend_findings(&mut findings, CounterRepairRN.detect(doc));
    if counters && CounterRepairRN.can_auto_fix() {
        extend_actions(&mut actions, CounterRepairRN.apply(doc));
    } else {
        assert(action_views(actions@) =~= a1 + Seq::<RepairActionV>::empty());
    }
    assert(doc@ == step2(d0, *opts));
    let ghost a2 = action_views(actions@);

    extend_findings(&mut findings, CaseNormalizationRepair.detect(doc));
    if case && CaseNormalizationRepair.can_auto_fix() {
        extend_actions(&mut actions, CaseNormalizationRepair.apply(doc));
    } else {
        assert(action_views(actions@) =~= a2 + Seq::<RepairActionV>::empty());
    }
    assert(doc@ == step3(d0, *opts));
    let ghost a3 = action_views(actions@);

    extend_findings(&mut findings, MissingRequiredRepair.detect(doc));
    if missing && MissingRequiredRepair.can_auto_fix() {
        extend_actions(&mut actions, MissingRequiredRepair.apply(doc));
    } else {
        assert(action_views(actions@) =~= a3 + Seq::<RepairActionV>::empty());
    }
    assert(doc@ == repaired(d0, *opts));

    extend_findings(&mut findings, OrphanDetectionRepair.detect(doc));
    assert(doc@.attribute_total() == d0.attribute_total());
    let post = validate(doc).errors;
    RepairReport {
        findings,
        actions_taken: actions,
        was_dry_run: opts.dry_run,
        pre_repair_errors: pre,
        post_repair_errors: post,
    }
}

/// The findings that every rule reports on the unchanged document.
pub open spec fn dry_run_findings(d: TmatsDocumentV) -> Seq<RepairFindingV> {
    r001_findings(d) + r002_findings(d) + r003_findings(d) + r004_findings(d) + r005_findings(d)
}

/// Report what repair would find, changing nothing.
pub fn repair_dry_run(doc: &TmatsDocument) -> (r: RepairReport)
    requires
        doc@.attribute_total() <= usize::MAX,
    ensures
        finding_views(r.findings@) == dry_run_findings(doc@),
        r.actions_taken@.len() == 0,
        r.was_dry_run,
        r.pre_repair_errors == error_count(doc@),
        r.post_repair_errors == error_count(doc@),
{
    let pre = validate(doc).errors;
    let mut findings: Vec<RepairFinding> = Vec::new();
    assert(finding_views(findings@) =~= Seq::<RepairFindingV>::empty());
    extend_findings(&mut findings, CounterRepairGDsi.detect(doc));
    extend_findings(&mut findings, CounterRepairRN.detect(doc));
    extend_findings(&mut findings, CaseNormalizationRepair.detect(doc));
    extend_findings(&mut findings, MissingRequiredRepair.detect(doc));
    extend_findings(&mut findings, OrphanDetectionRepair.detect(doc));
    RepairReport {
        findings,
        actions_taken: Vec::new(),
        was_dry_run: true,
        pre_repair_errors: pre,
        post_repair_errors: pre,
    }
}

// ─── Laws ───────────────────────────────────────────────────────────────────

proof fn lemma_upper_idempotent(s: Seq<char>)
    ensures
        upper(upper(s)) == upper(s),
{
    assert(upper(upper(s)) =~= upper(s));
}

proof fn lemma_upper_opt_upper(o: Option<Seq<char>>)
    ensures
        !not_upper(upper_opt(o)),
{
    if let Some(v) = o {
        lemma_upper_idempotent(v);
    }
}

proof fn lemma_case_chans_none(acc: Seq<(Seq<char>, Seq<char>)>, ri: u32, chs: Seq<(u32, RChannelV)>)
    requires
        forall|j: int| 0 <= j < chs.len() ==> !not_upper(#[trigger] chs[j].1.data_packing_option),
    ensures
        case_chans(acc, ri, chs) == acc,
    decreases chs.len(),
{
    if chs.len() > 0 {
        assert(!not_upper(chs[chs.len() - 1].1.data_packing_option));
        lemma_case_chans_none(acc, ri, chs.drop_last());
    }
}

proof fn lemma_case_recs_none(acc: Seq<(Seq<char>, Seq<char>)>, rs: Seq<(u32, RGroupV)>)
    requires
        forall|i: int, j: int| 0 <= i < rs.len() && 0 <= j < rs[i].1.channels.len()
            ==> !not_upper(#[trigger] rs[i].1.channels[j].1.data_packing_option),
    ensures
        case_recs(acc, rs) == acc,
    decreases rs.len(),
{
    if rs.len() > 0 {
        lemma_case_recs_none(acc, rs.drop_last());
        let last = rs[rs.len() - 1];
        assert forall|j: int| 0 <= j < last.1.channels.len() implies !not_upper(#[trigger] last.1.channels[j].1.data_packing_option) by {
            assert(!not_upper(rs[rs.len() - 1].1.channels[j].1.data_packing_option));
        }
        lemma_case_chans_none(acc, last.0, last.1.channels);
    }
}

proof fn lemma_case_pcm_none(acc: Seq<(Seq<char>, Seq<char>)>, ps: Seq<(u32, PGroupV)>)
    requires
        forall|j: int| 0 <= j < ps.len() ==> !not_upper(#[trigger] ps[j].1.encoding),
    ensures
        case_pcm(acc, ps) == acc,
    decreases ps.len(),
{
    if ps.len() > 0 {
        assert(!not_upper(ps[ps.len() - 1].1.encoding));
        lemma_case_pcm_none(acc, ps.drop_last());
    }
}

proof fn lemma_case_sources_none(acc: Seq<(Seq<char>, Seq<char>)>, ds: Seq<(u32, DataSourceDeclV)>)
    requires
        forall|j: int| 0 <= j < ds.len() ==> !not_upper(#[trigger] ds[j].1.data_source_type),
    ensures
        case_sources(acc, ds) == acc,
    decreases ds.len(),
{
    if ds.len() > 0 {
        assert(!not_upper(ds[ds.len() - 1].1.data_source_type));
        lemma_case_sources_none(acc, ds.drop_last());
    }
}

proof fn lemma_r002_none(rs: Seq<(u32, RGroupV)>)
    requires
        forall|i: int| 0 <= i < rs.len() ==> (#[trigger] rs[i]).1.num_channels == Some(rs[i].1.channels.len() as u32),
    ensures
        r002_actions_of(rs).len() == 0,
    decreases rs.len(),
{
    if rs.len() > 0 {
        assert(rs[rs.len() - 1].1.num_channels == Some(rs[rs.len() - 1].1.channels.len() as u32));
        lemma_r002_none(rs.drop_last());
    }
}

/// A normalized document: every packing option, PCM encoding and data
/// source type is upper case.
pub open spec fn all_upper(d: TmatsDocumentV) -> bool {
    &&& forall|i: int, j: int| 0 <= i < d.recorders.len() && 0 <= j < d.recorders[i].1.channels.len()
        ==> !not_upper(#[trigger] d.recorders[i].1.channels[j].1.data_packing_option)
    &&& forall|j: int| 0 <= j < d.pcm_formats.len() ==> !not_upper(#[trigger] d.pcm_formats[j].1.encoding)
    &&& forall|j: int| 0 <= j < d.general.data_sources.len() ==> !not_upper(#[trigger] d.general.data_sources[j].1.data_source_type)
}

proof fn lemma_r003_doc_all_upper(d: TmatsDocumentV)
    ensures
        all_upper(r003_doc(d)),
{
    let e = r003_doc(d);
    assert forall|i: int, j: int| 0 <= i < e.recorders.len() && 0 <= j < e.recorders[i].1.channels.len()
        implies !not_upper(#[trigger] e.recorders[i].1.channels[j].1.data_packing_option) by {
        lemma_upper_opt_upper(d.recorders[i].1.channels[j].1.data_packing_option);
    }
    assert forall|j: int| 0 <= j < e.pcm_formats.len() implies !not_upper(#[trigger] e.pcm_formats[j].1.encoding) by {
        lemma_upper_opt_upper(d.pcm_formats[j].1.encoding);
    }
    assert forall|j: int| 0 <= j < e.general.data_sources.len() implies !not_upper(#[trigger] e.general.data_sources[j].1.data_source_type) by {
        lemma_upper_opt_upper(d.general.data_sources[j].1.data_source_type);
    }
}

proof fn lemma_missing_none(rs: Seq<(u32, RGroupV)>)
    requires
        forall|i: int| 0 <= i < rs.len() ==> (#[trigger] rs[i]).1.recorder_id is Some && rs[i].1.num_channels is Some,
    ensures
        missing_all(rs).len() == 0,
    decreases rs.len(),
{
    if rs.len() > 0 {
        assert(rs[rs.len() - 1].1.recorder_id is Some);
        lemma_missing_none(rs.drop_last());
    }
}

/// Repair is idempotent: repairing a repaired document with the same
/// options takes no action.
pub proof fn law_repair_idempotent(d: TmatsDocumentV, o: RepairOptions)
    ensures
        repair_actions(repaired(d, o), o).len() == 0,
{
    let e = repaired(d, o);
    let d1 = step1(d, o);
    let d2 = step2(d, o);
    let d3 = step3(d, o);
    assert(e.recorders.len() == d3.recorders.len());
    assert forall|i: int| 0 <= i < e.recorders.len() implies (#[trigger] e.recorders[i]).1.channels == d3.recorders[i].1.channels
        && (d3.recorders[i].1.num_channels is Some ==> e.recorders[i].1.num_channels == d3.recorders[i].1.num_channels)
        && (fixes_missing(o) ==> e.recorders[i].1.recorder_id is Some && e.recorders[i].1.num_channels is Some) by {
        if fixes_missing(o) {
            assert(e.recorders[i].1 == fill_recorder(d3.recorders[i].1));
        }
    }
    if fixes_counters(o) {
        assert(d2 == r002_doc(d1));
        assert(e.general.num_data_sources == Some(e.general.data_sources.len() as u32));
        assert(step1(e, o) == e);
        assert forall|i: int| 0 <= i < e.recorders.len() implies (#[trigger] e.recorders[i]).1.num_channels == Some(e.recorders[i].1.channels.len() as u32) by {
            assert(d2.recorders[i].1 == fix_counter(d1.recorders[i].1));
            if fixes_case(o) {
                assert(d3.recorders[i].1 == upper_recorder(d2.recorders[i].1));
            }
        }
        lemma_r002_none(e.recorders);
    }
    if fixes_case(o) {
        lemma_r003_doc_all_upper(d2);
        let f = step2(e, o);
        assert(all_upper(f)) by {
            assert forall|i: int, j: int| 0 <= i < f.recorders.len() && 0 <= j < f.recorders[i].1.channels.len()
                implies !not_upper(#[trigger] f.recorders[i].1.channels[j].1.data_packing_option) by {
                assert(f.recorders[i].1.channels == e.recorders[i].1.channels);
                assert(!not_upper(d3.recorders[i].1.channels[j].1.data_packing_option));
            }
        }
        lemma_case_recs_none(Seq::empty(), f.recorders);
        lemma_case_pcm_none(Seq::empty(), f.pcm_formats);
        lemma_case_sources_none(Seq::empty(), f.general.data_sources);
        assert(case_changes(f).len() == 0);
    }
    if fixes_missing(o) {
        let g = step3(e, o);
        assert forall|i: int| 0 <= i < g.recorders.len() implies (#[trigger] g.recorders[i]).1.recorder_id is Some && g.recorders[i].1.num_channels is Some by {
            let s2 = step2(e, o);
            if fixes_counters(o) {
                assert(s2.recorders[i].1 == fix_counter(e.recorders[i].1));
            }
            if fixes_case(o) {
                assert(g.recorders[i].1 == upper_recorder(s2.recorders[i].1));
            }
        }
        lemma_missing_none(g.recorders);
    }
}

proof fn lemma_r003_doc_fixed(f: TmatsDocumentV)
    requires
        all_upper(f),
    ensures
        r003_doc(f) == f,
{
    let e = r003_doc(f);
    assert forall|i: int| 0 <= i < f.recorders.len() implies #[trigger] e.recorders[i] == f.recorders[i] by {
        let r = f.recorders[i].1;
        assert forall|j: int| 0 <= j < r.channels.len() implies #[trigger] e.recorders[i].1.channels[j] == r.channels[j] by {
            assert(!not_upper(f.recorders[i].1.channels[j].1.data_packing_option));
        }
        assert(e.recorders[i].1.channels =~= r.channels);
    }
    assert(e.recorders =~= f.recorders);
    assert forall|j: int| 0 <= j < f.pcm_formats.len() implies #[trigger] e.pcm_formats[j] == f.pcm_formats[j] by {
        assert(!not_upper(f.pcm_formats[j].1.encoding));
    }
    assert(e.pcm_formats =~= f.pcm_formats);
    assert forall|j: int| 0 <= j < f.general.data_sources.len() implies #[trigger] e.general.data_sources[j] == f.general.data_sources[j] by {
        assert(!not_upper(f.general.data_sources[j].1.data_source_type));
    }
    assert(e.general.data_sources =~= f.general.data_sources);
    assert(e.general == f.general);
}

/// Repair reaches a fixed point in one run: repairing a repaired document
/// with the same options gives it back unchanged.
pub proof fn law_repair_fixed_point(d: TmatsDocumentV, o: RepairOptions)
    ensures
        repaired(repaired(d, o), o) == repaired(d, o),
{
    law_repair_idempotent(d, o);
    let e = repaired(d, o);
    let d1 = step1(d, o);
    let d2 = step2(d, o);
    let d3 = step3(d, o);
    assert(e.recorders.len() == d3.recorders.len());
    assert forall|i: int| 0 <= i < e.recorders.len() implies (#[trigger] e.recorders[i]).1.channels == d3.recorders[i].1.channels
        && (d3.recorders[i].1.num_channels is Some ==> e.recorders[i].1.num_channels == d3.recorders[i].1.num_channels)
        && (fixes_missing(o) ==> e.recorders[i].1.recorder_id is Some && e.recorders[i].1.num_channels is Some) by {
        if fixes_missing(o) {
            assert(e.recorders[i].1 == fill_recorder(d3.recorders[i].1));
        }
    }
    if fixes_counters(o) {
        assert(d2 == r002_doc(d1));
        assert(step1(e, o) == e);
        assert forall|i: int| 0 <= i < e.recorders.len() implies #[trigger] fix_counter(e.recorders[i].1) == e.recorders[i].1 by {
            assert(d2.recorders[i].1 == fix_counter(d1.recorders[i].1));
            if fixes_case(o) {
                assert(d3.recorders[i].1 == upper_recorder(d2.recorders[i].1));
            }
        }
        assert(r002_doc(e).recorders =~= e.recorders);
        assert(step2(e, o) == e);
    }
    assert(step2(e, o) == e);
    if fixes_case(o) {
        lemma_r003_doc_all_upper(d2);
        assert(all_upper(e)) by {
            assert forall|i: int, j: int| 0 <= i < e.recorders.len() && 0 <= j < e.recorders[i].1.channels.len()
                implies !not_upper(#[trigger] e.recorders[i].1.channels[j].1.data_packing_option) by {
                assert(!not_upper(d3.recorders[i].1.channels[j].1.data_packing_option));
            }
        }
        lemma_r003_doc_fixed(e);
    }
    assert(step3(e, o) == e);
    if fixes_missing(o) {
        assert forall|i: int| 0 <= i < e.recorders.len() implies #[trigger] fill_recorder(e.recorders[i].1) == e.recorders[i].1 by {
        }
        assert(r004_doc(e).recorders =~= e.recorders);
    }
}

proof fn lemma_orphan_chans(acc: Seq<RepairFindingV>, ri: u32, chs: Seq<(u32, RChannelV)>, known: Seq<Seq<char>>)
    ensures
        acc.len() <= orphan_chans(acc, ri, chs, known).len(),
        forall|k: int| 0 <= k < acc.len() ==> #[trigger] orphan_chans(acc, ri, chs, known)[k] == acc[k],
        forall|j: int| 0 <= j < chs.len() && (#[trigger] chs[j]).1.data_link_name is Some
            && !has_match(known, chs[j].1.data_link_name.unwrap())
            ==> orphan_chans(acc, ri, chs, known).contains(orphan_finding(ri, chs[j].0, chs[j].1.data_link_name.unwrap())),
    decreases chs.len(),
{
    if chs.len() > 0 {
        let rest = chs.drop_last();
        lemma_orphan_chans(acc, ri, rest, known);
        let a = orphan_chans(acc, ri, rest, known);
        let res = orphan_chans(acc, ri, chs, known);
        assert forall|j: int| 0 <= j < chs.len() && (#[trigger] chs[j]).1.data_link_name is Some
            && !has_match(known, chs[j].1.data_link_name.unwrap())
            implies res.contains(orphan_finding(ri, chs[j].0, chs[j].1.data_link_name.unwrap())) by {
            let c = chs[j].1.data_link_name.unwrap();
            if j < chs.len() - 1 {
                assert(rest[j] == chs[j]);
                let k = choose|k: int| 0 <= k < a.len() && a[k] == orphan_finding(ri, chs[j].0, c);
                assert(res[k] == a[k]);
            } else {
                assert(res[res.len() - 1] == orphan_finding(ri, chs[j].0, c));
            }
        }
    }
}

proof fn lemma_orphan_recs(rs: Seq<(u32, RGroupV)>, known: Seq<Seq<char>>, i: int, j: int, c: Seq<char>)
    requires
        0 <= i < rs.len(),
        0 <= j < rs[i].1.channels.len(),
        rs[i].1.channels[j].1.data_link_name == Some(c),
        !has_match(known, c),
    ensures
        orphan_recs(rs, known).contains(orphan_finding(rs[i].0, rs[i].1.channels[j].0, c)),
    decreases rs.len(),
{
    let last = rs.last();
    let prev = orphan_recs(rs.drop_last(), known);
    lemma_orphan_chans(prev, last.0, last.1.channels, known);
    if i < rs.len() - 1 {
        assert(rs.drop_last()[i] == rs[i]);
        lemma_orphan_recs(rs.drop_last(), known, i, j, c);
        let k = choose|k: int| 0 <= k < prev.len() && prev[k] == orphan_finding(rs[i].0, rs[i].1.channels[j].0, c);
        assert(orphan_recs(rs, known)[k] == prev[k]);
    } else {
        assert(last.1.channels[j].1.data_link_name == Some(c));
        assert(last.1.channels[j].1.data_link_name is Some);
    }
}

/// Orphan detection reports every channel of every recorder whose data link
/// name matches no P, B or S group.
pub proof fn law_orphan_channels_reported(d: TmatsDocumentV, i: int, j: int, c: Seq<char>)
    requires
        0 <= i < d.recorders.len(),
        0 <= j < d.recorders[i].1.channels.len(),
        d.recorders[i].1.channels[j].1.data_link_name == Some(c),
        !has_match(known_upper(d), c),
    ensures
        r005_findings(d).contains(orphan_finding(d.recorders[i].0, d.recorders[i].1.channels[j].0, c)),
{
    lemma_orphan_recs(d.recorders, known_upper(d), i, j, c);
}

/// The path and value of each orphan finding.
pub open spec fn orphan_summary(fs: Seq<RepairFindingV>) -> Seq<(Option<Seq<char>>, Option<Seq<char>>)> {
    fs.map_values(|f: RepairFindingV| (f.attribute_path, f.current_value))
}

/// The path and offending value of each diagnostic.
pub open spec fn diag_summary(ds: Seq<DiagnosticV>) -> Seq<(Option<Seq<char>>, Option<Seq<char>>)> {
    ds.map_values(|x: DiagnosticV| (x.attribute_path, x.actual))
}

proof fn lemma_known_upper_match(d: TmatsDocumentV, c: Seq<char>)
    ensures
        has_match(known_upper(d), c) == has_match(known_spec(d), c),
{
    let ku = known_upper(d);
    let ks = known_spec(d);
    if has_match(ku, c) {
        let i = choose|i: int| 0 <= i < ku.len() && eq_ignore_case(#[trigger] ku[i], c);
        lemma_upper_idempotent(ks[i]);
        assert(eq_ignore_case(ks[i], c));
    }
    if has_match(ks, c) {
        let i = choose|i: int| 0 <= i < ks.len() && eq_ignore_case(#[trigger] ks[i], c);
        lemma_upper_idempotent(ks[i]);
        assert(eq_ignore_case(ku[i], c));
    }
}

proof fn lemma_orphan_chans_v020(
    af: Seq<RepairFindingV>,
    ad: Seq<DiagnosticV>,
    ri: u32,
    chs: Seq<(u32, RChannelV)>,
    d: TmatsDocumentV,
)
    requires
        orphan_summary(af) == diag_summary(ad),
    ensures
        orphan_summary(orphan_chans(af, ri, chs, known_upper(d))) == diag_summary(v020_chans(ad, ri, chs, known_spec(d))),
    decreases chs.len(),
{
    if chs.len() > 0 {
        lemma_orphan_chans_v020(af, ad, ri, chs.drop_last(), d);
        let f = orphan_chans(af, ri, chs.drop_last(), known_upper(d));
        let g = v020_chans(ad, ri, chs.drop_last(), known_spec(d));
        if let Some(c) = chs.last().1.data_link_name {
            lemma_known_upper_match(d, c);
            if !has_match(known_spec(d), c) {
                let x = orphan_finding(ri, chs.last().0, c);
                let y = v020_chan(g, ri, chs.last().0, chs.last().1, known_spec(d)).last();
                assert(orphan_summary(f.push(x)) =~= orphan_summary(f).push((x.attribute_path, x.current_value)));
                assert(diag_summary(g.push(y)) =~= diag_summary(g).push((y.attribute_path, y.actual)));
            }
        }
    }
}

proof fn lemma_orphan_recs_v020(rs: Seq<(u32, RGroupV)>, d: TmatsDocumentV)
    ensures
        orphan_summary(orphan_recs(rs, known_upper(d))) == diag_summary(v020_all(rs, known_spec(d))),
    decreases rs.len(),
{
    if rs.len() == 0 {
        assert(orphan_summary(Seq::<RepairFindingV>::empty()) =~= diag_summary(Seq::<DiagnosticV>::empty()));
    } else {
        lemma_orphan_recs_v020(rs.drop_last(), d);
        lemma_orphan_chans_v020(orphan_recs(rs.drop_last(), known_upper(d)), v020_all(rs.drop_last(), known_spec(d)),
            rs.last().0, rs.last().1.channels, d);
    }
}

/// Orphan detection and the cross-group reference check agree: the orphan
/// findings name the same attributes, with the same values, in the same
/// order, as the TMATS-V020 diagnostics of validation.
pub proof fn law_orphans_match_reference_diagnostics(d: TmatsDocumentV)
    ensures
        orphan_summary(r005_findings(d)) == diag_summary(v020(d)),
{
    lemma_orphan_recs_v020(d.recorders, d);
}

/// Repair keeps the document's group and attribute total, so a repaired
/// document can be repaired or validated again.
pub proof fn law_repair_keeps_attribute_total(d: TmatsDocumentV, o: RepairOptions)
    ensures
        repaired(d, o).attribute_total() == d.attribute_total(),
{
}

/// A dry run changes nothing and takes no action.
pub proof fn law_dry_run_changes_nothing(d: TmatsDocumentV, o: RepairOptions)
    requires
        o.dry_run,
    ensures
        repaired(d, o) == d,
        repair_actions(d, o).len() == 0,
{
}

// ─── Repair and validation errors ───────────────────────────────────────────

pub open spec fn errs(d: Seq<DiagnosticV>) -> nat {
    count_severity_v(d, Severity::Error)
}

proof fn lemma_errs_concat(a: Seq<DiagnosticV>, b: Seq<DiagnosticV>)
    ensures
        errs(a + b) == errs(a) + errs(b),
    decreases b.len(),
{
    if b.len() == 0 {
        assert(a + b =~= a);
    } else {
        lemma_errs_concat(a, b.drop_last());
        assert((a + b).drop_last() =~= a + b.drop_last());
        assert((a + b).last() == b.last());
    }
}

pub(crate) proof fn lemma_errs_push(a: Seq<DiagnosticV>)
    ensures
        forall|x: DiagnosticV| #[trigger] errs(a.push(x)) == errs(a) + (if x.severity == Severity::Error {
            1nat
        } else {
            0nat
        }),
{
    assert forall|x: DiagnosticV| #[trigger] errs(a.push(x)) == errs(a) + (if x.severity == Severity::Error {
        1nat
    } else {
        0nat
    }) by {
        assert(a.push(x).drop_last() =~= a);
    }
}

/// The errors of a document, rule by rule.
pub open spec fn rule_errors(d: TmatsDocumentV) -> nat {
    errs(v001(d)) + errs(v002(d)) + errs(v060(d)) + errs(v061(d)) + errs(v010(d)) + errs(v011(d))
        + errs(v020(d)) + errs(keyword_findings("G\\DST-n"@, d, 30))
        + errs(keyword_findings("R-x\\PDP-n"@, d, 31)) + errs(keyword_findings("P-n\\D2"@, d, 32))
        + errs(keyword_findings("B-n\\BT"@, d, 33)) + errs(v040(d)) + errs(mfs_findings(d))
}

pub(crate) proof fn lemma_error_count_rules(d: TmatsDocumentV)
    ensures
        error_count(d) == rule_errors(d),
{
    reveal(crate::validate::when);
    let p = ValidationProfile::Full;
    let a1 = v001(d);
    let a2 = a1 + v002(d);
    let a3 = a2 + v060(d);
    let a4 = a3 + v061(d);
    let a5 = a4 + v010(d);
    let a6 = a5 + v011(d);
    let a7 = a6 + v020(d);
    let a8 = a7 + keyword_findings("G\\DST-n"@, d, 30);
    let a9 = a8 + keyword_findings("R-x\\PDP-n"@, d, 31);
    let a10 = a9 + keyword_findings("P-n\\D2"@, d, 32);
    let a11 = a10 + keyword_findings("B-n\\BT"@, d, 33);
    let a12 = a11 + v040(d);
    let a13 = a12 + mfs_findings(d);
    lemma_errs_concat(a1, v002(d));
    lemma_errs_concat(a2, v060(d));
    lemma_errs_concat(a3, v061(d));
    lemma_errs_concat(a4, v010(d));
    lemma_errs_concat(a5, v011(d));
    lemma_errs_concat(a6, v020(d));
    lemma_errs_concat(a7, keyword_findings("G\\DST-n"@, d, 30));
    lemma_errs_concat(a8, keyword_findings("R-x\\PDP-n"@, d, 31));
    lemma_errs_concat(a9, keyword_findings("P-n\\D2"@, d, 32));
    lemma_errs_concat(a10, keyword_findings("B-n\\BT"@, d, 33));
    lemma_errs_concat(a11, v040(d));
    lemma_errs_concat(a12, mfs_findings(d));
    assert(validation_diags(d, p) == a13);
}

proof fn lemma_keyword_upper(m: AttrMetaV, v: Seq<char>)
    ensures
        m.keyword_ok(upper(v)) == m.keyword_ok(v),
{
    lemma_upper_trim_upper(v);
}

// Counters.

proof fn lemma_v011_fixed(rs: Seq<(u32, RGroupV)>)
    ensures
        v011_all(rs.map_values(|e: (u32, RGroupV)| (e.0, fix_counter(e.1)))) == Seq::<DiagnosticV>::empty(),
    decreases rs.len(),
{
    let f = |e: (u32, RGroupV)| (e.0, fix_counter(e.1));
    if rs.len() > 0 {
        assert(rs.map_values(f).drop_last() =~= rs.drop_last().map_values(f));
        lemma_v011_fixed(rs.drop_last());
    } else {
        assert(rs.map_values(f) =~= Seq::<(u32, RGroupV)>::empty());
    }
}

proof fn lemma_v020_fixed(rs: Seq<(u32, RGroupV)>, known: Seq<Seq<char>>)
    ensures
        v020_all(rs.map_values(|e: (u32, RGroupV)| (e.0, fix_counter(e.1))), known) == v020_all(rs, known),
    decreases rs.len(),
{
    let f = |e: (u32, RGroupV)| (e.0, fix_counter(e.1));
    if rs.len() > 0 {
        assert(rs.map_values(f).drop_last() =~= rs.drop_last().map_values(f));
        lemma_v020_fixed(rs.drop_last(), known);
    } else {
        assert(rs.map_values(f) =~= Seq::<(u32, RGroupV)>::empty());
    }
}

proof fn lemma_v031_fixed(rs: Seq<(u32, RGroupV)>, m: AttrMetaV)
    ensures
        v031_all(rs.map_values(|e: (u32, RGroupV)| (e.0, fix_counter(e.1))), m) == v031_all(rs, m),
    decreases rs.len(),
{
    let f = |e: (u32, RGroupV)| (e.0, fix_counter(e.1));
    if rs.len() > 0 {
        assert(rs.map_values(f).drop_last() =~= rs.drop_last().map_values(f));
        lemma_v031_fixed(rs.drop_last(), m);
    } else {
        assert(rs.map_values(f) =~= Seq::<(u32, RGroupV)>::empty());
    }
}

proof fn lemma_r001_errors(d: TmatsDocumentV)
    ensures
        error_count(r001_doc(d)) <= error_count(d),
{
    lemma_error_count_rules(d);
    lemma_error_count_rules(r001_doc(d));
}

proof fn lemma_r002_errors(d: TmatsDocumentV)
    ensures
        error_count(r002_doc(d)) <= error_count(d),
{
    let d2 = r002_doc(d);
    lemma_error_count_rules(d);
    lemma_error_count_rules(d2);
    lemma_v011_fixed(d.recorders);
    lemma_v020_fixed(d.recorders, known_spec(d));
    assert(known_spec(d2) == known_spec(d));
    match lookup("R-x\\PDP-n"@) {
        Some(m) => lemma_v031_fixed(d.recorders, m),
        None => {},
    }
}

// Missing recorder attributes.

proof fn lemma_fill_rules(rs: Seq<(u32, RGroupV)>, known: Seq<Seq<char>>)
    ensures
        v011_all(rs.map_values(|e: (u32, RGroupV)| (e.0, fill_recorder(e.1)))) == v011_all(rs),
        v020_all(rs.map_values(|e: (u32, RGroupV)| (e.0, fill_recorder(e.1))), known) == v020_all(rs, known),
    decreases rs.len(),
{
    let f = |e: (u32, RGroupV)| (e.0, fill_recorder(e.1));
    if rs.len() > 0 {
        assert(rs.map_values(f).drop_last() =~= rs.drop_last().map_values(f));
        lemma_fill_rules(rs.drop_last(), known);
    } else {
        assert(rs.map_values(f) =~= Seq::<(u32, RGroupV)>::empty());
    }
}

proof fn lemma_fill_v031(rs: Seq<(u32, RGroupV)>, m: AttrMetaV)
    ensures
        v031_all(rs.map_values(|e: (u32, RGroupV)| (e.0, fill_recorder(e.1))), m) == v031_all(rs, m),
    decreases rs.len(),
{
    let f = |e: (u32, RGroupV)| (e.0, fill_recorder(e.1));
    if rs.len() > 0 {
        assert(rs.map_values(f).drop_last() =~= rs.drop_last().map_values(f));
        lemma_fill_v031(rs.drop_last(), m);
    } else {
        assert(rs.map_values(f) =~= Seq::<(u32, RGroupV)>::empty());
    }
}

proof fn lemma_r004_errors(d: TmatsDocumentV)
    ensures
        error_count(r004_doc(d)) <= error_count(d),
{
    let d4 = r004_doc(d);
    lemma_error_count_rules(d);
    lemma_error_count_rules(d4);
    assert(known_spec(d4) == known_spec(d));
    lemma_fill_rules(d.recorders, known_spec(d));
    match lookup("R-x\\PDP-n"@) {
        Some(m) => lemma_fill_v031(d.recorders, m),
        None => {},
    }
}

// Case.

pub open spec fn bad031(chs: Seq<(u32, RChannelV)>, m: AttrMetaV) -> nat
    decreases chs.len(),
{
    if chs.len() == 0 {
        0
    } else {
        bad031(chs.drop_last(), m) + match chs.last().1.data_packing_option {
            Some(v) => if !m.keyword_ok(v) { 1nat } else { 0nat },
            None => 0nat,
        }
    }
}

proof fn lemma_v031_chans_count(acc: Seq<DiagnosticV>, ri: u32, chs: Seq<(u32, RChannelV)>, m: AttrMetaV)
    ensures
        errs(v031_chans(acc, ri, chs, m)) == errs(acc) + bad031(chs, m),
    decreases chs.len(),
{
    if chs.len() > 0 {
        lemma_v031_chans_count(acc, ri, chs.drop_last(), m);
        lemma_errs_push(v031_chans(acc, ri, chs.drop_last(), m));
    }
}

proof fn lemma_bad031_upper(chs: Seq<(u32, RChannelV)>, m: AttrMetaV)
    ensures
        bad031(chs.map_values(|e: (u32, RChannelV)| (e.0, upper_channel(e.1))), m) == bad031(chs, m),
    decreases chs.len(),
{
    let f = |e: (u32, RChannelV)| (e.0, upper_channel(e.1));
    if chs.len() > 0 {
        assert(chs.map_values(f).drop_last() =~= chs.drop_last().map_values(f));
        lemma_bad031_upper(chs.drop_last(), m);
        match chs.last().1.data_packing_option {
            Some(v) => lemma_keyword_upper(m, v),
            None => {},
        }
    } else {
        assert(chs.map_values(f) =~= Seq::<(u32, RChannelV)>::empty());
    }
}

proof fn lemma_v031_upper(rs: Seq<(u32, RGroupV)>, m: AttrMetaV)
    ensures
        errs(v031_all(rs.map_values(|e: (u32, RGroupV)| (e.0, upper_recorder(e.1))), m)) == errs(v031_all(rs, m)),
    decreases rs.len(),
{
    let f = |e: (u32, RGroupV)| (e.0, upper_recorder(e.1));
    if rs.len() > 0 {
        let r = rs.last();
        assert(rs.map_values(f).drop_last() =~= rs.drop_last().map_values(f));
        lemma_v031_upper(rs.drop_last(), m);
        lemma_v031_chans_count(v031_all(rs.drop_last(), m), r.0, r.1.channels, m);
        lemma_v031_chans_count(v031_all(rs.map_values(f).drop_last(), m), r.0, upper_recorder(r.1).channels, m);
        lemma_bad031_upper(r.1.channels, m);
    } else {
        assert(rs.map_values(f) =~= Seq::<(u32, RGroupV)>::empty());
    }
}

proof fn lemma_v020_chans_upper(acc: Seq<DiagnosticV>, ri: u32, chs: Seq<(u32, RChannelV)>, known: Seq<Seq<char>>)
    ensures
        v020_chans(acc, ri, chs.map_values(|e: (u32, RChannelV)| (e.0, upper_channel(e.1))), known)
            == v020_chans(acc, ri, chs, known),
    decreases chs.len(),
{
    let f = |e: (u32, RChannelV)| (e.0, upper_channel(e.1));
    if chs.len() > 0 {
        assert(chs.map_values(f).drop_last() =~= chs.drop_last().map_values(f));
        lemma_v020_chans_upper(acc, ri, chs.drop_last(), known);
    } else {
        assert(chs.map_values(f) =~= Seq::<(u32, RChannelV)>::empty());
    }
}

proof fn lemma_v020_upper(rs: Seq<(u32, RGroupV)>, known: Seq<Seq<char>>)
    ensures
        v020_all(rs.map_values(|e: (u32, RGroupV)| (e.0, upper_recorder(e.1))), known) == v020_all(rs, known),
    decreases rs.len(),
{
    let f = |e: (u32, RGroupV)| (e.0, upper_recorder(e.1));
    if rs.len() > 0 {
        let r = rs.last();
        assert(rs.map_values(f).drop_last() =~= rs.drop_last().map_values(f));
        lemma_v020_upper(rs.drop_last(), known);
        lemma_v020_chans_upper(v020_all(rs.drop_last(), known), r.0, r.1.channels, known);
    } else {
        assert(rs.map_values(f) =~= Seq::<(u32, RGroupV)>::empty());
    }
}

proof fn lemma_v011_upper(rs: Seq<(u32, RGroupV)>)
    ensures
        v011_all(rs.map_values(|e: (u32, RGroupV)| (e.0, upper_recorder(e.1)))) == v011_all(rs),
    decreases rs.len(),
{
    let f = |e: (u32, RGroupV)| (e.0, upper_recorder(e.1));
    if rs.len() > 0 {
        assert(rs.map_values(f).drop_last() =~= rs.drop_last().map_values(f));
        lemma_v011_upper(rs.drop_last());
    } else {
        assert(rs.map_values(f) =~= Seq::<(u32, RGroupV)>::empty());
    }
}

proof fn lemma_pcm_upper(ps: Seq<(u32, PGroupV)>, m: AttrMetaV)
    ensures
        v060_all(ps.map_values(|e: (u32, PGroupV)| (e.0, upper_pcm(e.1)))) == v060_all(ps),
        dlns_p(ps.map_values(|e: (u32, PGroupV)| (e.0, upper_pcm(e.1)))) == dlns_p(ps),
        errs(v032_all(ps.map_values(|e: (u32, PGroupV)| (e.0, upper_pcm(e.1))), m)) == errs(v032_all(ps, m)),
    decreases ps.len(),
{
    let f = |e: (u32, PGroupV)| (e.0, upper_pcm(e.1));
    if ps.len() > 0 {
        assert(ps.map_values(f).drop_last() =~= ps.drop_last().map_values(f));
        lemma_pcm_upper(ps.drop_last(), m);
        lemma_errs_push(v032_all(ps.drop_last(), m));
        lemma_errs_push(v032_all(ps.map_values(f).drop_last(), m));
        match ps.last().1.encoding {
            Some(v) => lemma_keyword_upper(m, v),
            None => {},
        }
    } else {
        assert(ps.map_values(f) =~= Seq::<(u32, PGroupV)>::empty());
    }
}

proof fn lemma_sources_upper(ds: Seq<(u32, DataSourceDeclV)>, m: AttrMetaV)
    ensures
        errs(v030_all(ds.map_values(|e: (u32, DataSourceDeclV)| (e.0, upper_source(e.1))), m)) == errs(
            v030_all(ds, m),
        ),
    decreases ds.len(),
{
    let f = |e: (u32, DataSourceDeclV)| (e.0, upper_source(e.1));
    if ds.len() > 0 {
        assert(ds.map_values(f).drop_last() =~= ds.drop_last().map_values(f));
        lemma_sources_upper(ds.drop_last(), m);
        lemma_errs_push(v030_all(ds.drop_last(), m));
        lemma_errs_push(v030_all(ds.map_values(f).drop_last(), m));
        match ds.last().1.data_source_type {
            Some(v) => lemma_keyword_upper(m, v),
            None => {},
        }
    } else {
        assert(ds.map_values(f) =~= Seq::<(u32, DataSourceDeclV)>::empty());
    }
}

proof fn lemma_r003_errors(d: TmatsDocumentV)
    ensures
        error_count(r003_doc(d)) == error_count(d),
{
    let d3 = r003_doc(d);
    lemma_error_count_rules(d);
    lemma_error_count_rules(d3);
    lemma_v011_upper(d.recorders);
    let pm = match lookup("P-n\\D2"@) {
        Some(m) => m,
        None => vstd::pervasive::arbitrary(),
    };
    lemma_pcm_upper(d.pcm_formats, pm);
    assert(known_spec(d3) == known_spec(d));
    lemma_v020_upper(d.recorders, known_spec(d));
    match lookup("R-x\\PDP-n"@) {
        Some(m) => lemma_v031_upper(d.recorders, m),
        None => {},
    }
    match lookup("G\\DST-n"@) {
        Some(m) => lemma_sources_upper(d.general.data_sources, m),
        None => {},
    }
}

/// Repair never adds validation errors: the repaired document has at most
/// as many as the document had.
pub proof fn law_repair_does_not_add_errors(d: TmatsDocumentV, o: RepairOptions)
    ensures
        error_count(repaired(d, o)) <= error_count(d),
{
    if fixes_counters(o) && d.general.num_data_sources != Some(d.general.data_sources.len() as u32) {
        lemma_r001_errors(d);
    }
    let d1 = step1(d, o);
    if fixes_counters(o) {
        lemma_r002_errors(d1);
    }
    let d2 = step2(d, o);
    if fixes_case(o) {
        lemma_r003_errors(d2);
    }
    if fixes_missing(o) {
        lemma_r004_errors(step3(d, o));
    }
}

} // verus!
