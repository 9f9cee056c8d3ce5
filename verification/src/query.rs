//! Navigation of the group hierarchy: resolving a channel to its recorder,
//! format, measurement and conversion groups; enumerations; and an
//! attribute-level diff of two documents.
use vstd::prelude::*;
use crate::error::TmatsError;
use crate::model::{TmatsDocument, TmatsDocumentV, RGroup, RGroupV, RChannel, RChannelV, PGroup, PGroupV, BGroup, BGroupV, SGroup, SGroupV, DGroup, DGroupV, CGroup, CGroupV, DataSourceDecl, DataSourceDeclV};
use crate::ordered_map::OrderedMap;
use crate::serial::{serialize_to_string, serialized_text, default_serialize_options, SerializeOptions};
use crate::text::{chars_of, chars_eq, split, split_chars, trim, trim_bounds, string_of_range, lemma_split_len};

verus! {

// ─── Channel resolution ─────────────────────────────────────────────────────

/// Reference to a format group (PCM, Bus, or Message).
#[derive(Debug)]
pub enum FormatRef<'d> {
    Pcm(&'d PGroup),
    Bus(&'d BGroup),
    Message(&'d SGroup),
}

/// The model of a [`FormatRef`].
pub enum FormatRefV {
    Pcm(PGroupV),
    Bus(BGroupV),
    Message(SGroupV),
}

impl<'d> View for FormatRef<'d> {
    type V = FormatRefV;

    open spec fn view(&self) -> FormatRefV {
        match self {
            FormatRef::Pcm(p) => FormatRefV::Pcm(p@),
            FormatRef::Bus(b) => FormatRefV::Bus(b@),
            FormatRef::Message(s) => FormatRefV::Message(s@),
        }
    }
}

/// Resolved configuration chain for a single Ch10 channel.
#[derive(Debug)]
pub struct ChannelConfig<'d> {
    /// The Chapter 10 channel ID.
    pub channel_id: u16,
    /// The R-group this channel belongs to.
    pub recorder: &'d RGroup,
    /// The R-group occurrence index.
    pub recorder_index: u32,
    /// The specific channel definition within the R-group.
    pub recorder_channel: &'d RChannel,
    /// The linked format group, if resolved.
    pub format: Option<FormatRef<'d>>,
    /// Linked D-group measurement descriptions.
    pub measurements: Vec<&'d DGroup>,
    /// Linked C-group data conversions.
    pub conversions: Vec<&'d CGroup>,
}

/// The model of a [`ChannelConfig`].
pub struct ChannelConfigV {
    pub channel_id: u16,
    pub recorder: RGroupV,
    pub recorder_index: u32,
    pub recorder_channel: RChannelV,
    pub format: Option<FormatRefV>,
    pub measurements: Seq<DGroupV>,
    pub conversions: Seq<CGroupV>,
}

impl<'d> View for ChannelConfig<'d> {
    type V = ChannelConfigV;

    open spec fn view(&self) -> ChannelConfigV {
        ChannelConfigV {
            channel_id: self.channel_id,
            recorder: self.recorder@,
            recorder_index: self.recorder_index,
            recorder_channel: self.recorder_channel@,
            format: match self.format {
                Some(f) => Some(f@),
                None => None,
            },
            measurements: self.measurements@.map_values(|d: &DGroup| d@),
            conversions: self.conversions@.map_values(|c: &CGroup| c@),
        }
    }
}

/// Position of the first channel from `j` on with channel ID `cid`, or -1.
pub open spec fn channel_from(chs: Seq<(u32, RChannelV)>, cid: u16, j: int) -> int
    decreases chs.len() - j,
{
    if j < 0 || j >= chs.len() {
        -1
    } else if chs[j].1.channel_id == Some(cid) {
        j
    } else {
        channel_from(chs, cid, j + 1)
    }
}

/// The first recorder (from `i` on) holding a channel with ID `cid`, and
/// the position of that channel in it.
pub open spec fn recorder_from(rs: Seq<(u32, RGroupV)>, cid: u16, i: int) -> Option<(int, int)>
    decreases rs.len() - i,
{
    if i < 0 || i >= rs.len() {
        None
    } else {
        let j = channel_from(rs[i].1.channels, cid, 0);
        if j >= 0 {
            Some((i, j))
        } else {
            recorder_from(rs, cid, i + 1)
        }
    }
}

pub proof fn lemma_channel_from(chs: Seq<(u32, RChannelV)>, cid: u16, j: int)
    requires
        0 <= j,
    ensures
        channel_from(chs, cid, j) == -1 || (j <= channel_from(chs, cid, j) < chs.len()
            && chs[channel_from(chs, cid, j)].1.channel_id == Some(cid)),
    decreases chs.len() - j,
{
    if j < chs.len() && chs[j].1.channel_id != Some(cid) {
        lemma_channel_from(chs, cid, j + 1);
    }
}

/// Position of the first P group whose data link name is `dln`, or -1.
pub open spec fn p_from(m: Seq<(u32, PGroupV)>, dln: Seq<char>, i: int) -> int
    decreases m.len() - i,
{
    if i < 0 || i >= m.len() {
        -1
    } else if m[i].1.data_link_name == Some(dln) {
        i
    } else {
        p_from(m, dln, i + 1)
    }
}

pub open spec fn b_from(m: Seq<(u32, BGroupV)>, dln: Seq<char>, i: int) -> int
    decreases m.len() - i,
{
    if i < 0 || i >= m.len() {
        -1
    } else if m[i].1.data_link_name == Some(dln) {
        i
    } else {
        b_from(m, dln, i + 1)
    }
}

pub open spec fn s_from(m: Seq<(u32, SGroupV)>, dln: Seq<char>, i: int) -> int
    decreases m.len() - i,
{
    if i < 0 || i >= m.len() {
        -1
    } else if m[i].1.data_link_name == Some(dln) {
        i
    } else {
        s_from(m, dln, i + 1)
    }
}

/// The format group of a data link name: the first P group with that
/// name, else the first B group, else the first S group.
pub open spec fn format_of(d: TmatsDocumentV, dln: Seq<char>) -> Option<FormatRefV> {
    let ip = p_from(d.pcm_formats, dln, 0);
    let ib = b_from(d.bus_data, dln, 0);
    let is = s_from(d.message_data, dln, 0);
    if ip >= 0 {
        Some(FormatRefV::Pcm(d.pcm_formats[ip].1))
    } else if ib >= 0 {
        Some(FormatRefV::Bus(d.bus_data[ib].1))
    } else if is >= 0 {
        Some(FormatRefV::Message(d.message_data[is].1))
    } else {
        None
    }
}

/// The D groups whose data link name is `dln`, in order.
pub open spec fn measurements_of(m: Seq<(u32, DGroupV)>, dln: Seq<char>) -> Seq<DGroupV>
    decreases m.len(),
{
    if m.len() == 0 {
        Seq::empty()
    } else if m.last().1.data_link_name == Some(dln) {
        measurements_of(m.drop_last(), dln).push(m.last().1)
    } else {
        measurements_of(m.drop_last(), dln)
    }
}

/// Whether a C group converts a measurement list of `ds`.
pub open spec fn converts(c: CGroupV, ds: Seq<DGroupV>) -> bool {
    match c.measurement_name {
        Some(mn) => exists|k: int| 0 <= k < ds.len() && (#[trigger] ds[k]).measurement_list_name == Some(mn),
        None => false,
    }
}

/// The C groups that convert a measurement list of `ds`, in order.
pub open spec fn conversions_of(m: Seq<(u32, CGroupV)>, ds: Seq<DGroupV>) -> Seq<CGroupV>
    decreases m.len(),
{
    if m.len() == 0 {
        Seq::empty()
    } else if converts(m.last().1, ds) {
        conversions_of(m.drop_last(), ds).push(m.last().1)
    } else {
        conversions_of(m.drop_last(), ds)
    }
}

/// The configuration chain of channel `cid`: the first recorder channel
/// with that ID, and the groups that its data link name leads to.
pub open spec fn resolve_spec(d: TmatsDocumentV, cid: u16) -> Option<ChannelConfigV> {
    match recorder_from(d.recorders, cid, 0) {
        None => None,
        Some(p) => {
            let r = d.recorders[p.0];
            let ch = r.1.channels[p.1].1;
            let meas = match ch.data_link_name {
                Some(dln) => measurements_of(d.pcm_measurements, dln),
                None => Seq::empty(),
            };
            Some(ChannelConfigV {
                channel_id: cid,
                recorder: r.1,
                recorder_index: r.0,
                recorder_channel: ch,
                format: match ch.data_link_name {
                    Some(dln) => format_of(d, dln),
                    None => None,
                },
                measurements: meas,
                conversions: conversions_of(d.data_conversion, meas),
            })
        },
    }
}

/// Whether two optional strings hold the same text.
fn same_opt(a: &Option<String>, b: &String) -> (r: bool)
    ensures
        r == (crate::error::opt_text(*a) == Some(b@)),
{
    match a {
        Some(x) => {
            let xv = chars_of(x.as_str());
            let bv = chars_of(b.as_str());
            chars_eq(&xv, &bv)
        },
        None => false,
    }
}

fn find_format<'d>(doc: &'d TmatsDocument, dln: &String) -> (r: Option<FormatRef<'d>>)
    ensures
        match r {
            Some(f) => format_of(doc@, dln@) == Some(f@),
            None => format_of(doc@, dln@) is None,
        },
{
    let mp = &doc.pcm_formats;
    let n = mp.len();
    let mut i: usize = 0;
    while i < n
        invariant
            i <= n,
            n == mp@.len(),
            mp@ == doc@.pcm_formats,
            p_from(mp@, dln@, 0) == p_from(mp@, dln@, i as int),
        decreases n - i,
    {
        if same_opt(&mp.value_at(i).data_link_name, dln) {
            return Some(FormatRef::Pcm(mp.value_at(i)));
        }
        i = i + 1;
    }
    let mb = &doc.bus_data;
    let n = mb.len();
    let mut i: usize = 0;
    while i < n
        invariant
            i <= n,
            n == mb@.len(),
            mb@ == doc@.bus_data,
            p_from(doc@.pcm_formats, dln@, 0) == -1,
            b_from(mb@, dln@, 0) == b_from(mb@, dln@, i as int),
        decreases n - i,
    {
        if same_opt(&mb.value_at(i).data_link_name, dln) {
            return Some(FormatRef::Bus(mb.value_at(i)));
        }
        i = i + 1;
    }
    let ms = &doc.message_data;
    let n = ms.len();
    let mut i: usize = 0;
    while i < n
        invariant
            i <= n,
            n == ms@.len(),
            ms@ == doc@.message_data,
            p_from(doc@.pcm_formats, dln@, 0) == -1,
            b_from(doc@.bus_data, dln@, 0) == -1,
            s_from(ms@, dln@, 0) == s_from(ms@, dln@, i as int),
        decreases n - i,
    {
        if same_opt(&ms.value_at(i).data_link_name, dln) {
            return Some(FormatRef::Message(ms.value_at(i)));
        }
        i = i + 1;
    }
    None
}

fn find_measurements<'d>(doc: &'d TmatsDocument, dln: &String) -> (r: Vec<&'d DGroup>)
    ensures
        r@.map_values(|d: &DGroup| d@) == measurements_of(doc@.pcm_measurements, dln@),
{
    let m = &doc.pcm_measurements;
    let mut out: Vec<&'d DGroup> = Vec::new();
    let n = m.len();
    for i in 0..n
        invariant
            n == m@.len(),
            m@ == doc@.pcm_measurements,
            out@.map_values(|d: &DGroup| d@) == measurements_of(m@.take(i as int), dln@),
    {
        assert(m@.take(i + 1).drop_last() =~= m@.take(i as int));
        let g = m.value_at(i);
        let ghost before = out@.map_values(|d: &DGroup| d@);
        if same_opt(&g.data_link_name, dln) {
            out.push(g);
            assert(out@.map_values(|d: &DGroup| d@) =~= before.push(g@));
        }
    }
    assert(m@.take(n as int) =~= m@);
    out
}

fn converts_any(c: &CGroup, meas: &Vec<&DGroup>) -> (r: bool)
    ensures
        r == converts(c@, meas@.map_values(|d: &DGroup| d@)),
{
    let ghost ds = meas@.map_values(|d: &DGroup| d@);
    match &c.measurement_name {
        None => false,
        Some(mn) => {
            let n = meas.len();
            for k in 0..n
                invariant
                    n == meas@.len(),
                    ds == meas@.map_values(|d: &DGroup| d@),
                    c@.measurement_name == Some(mn@),
                    forall|j: int| 0 <= j < k ==> ds[j].measurement_list_name != Some(mn@),
            {
                if same_opt(&meas[k].measurement_list_name, mn) {
                    assert(ds[k as int].measurement_list_name == Some(mn@));
                    return true;
                }
            }
            false
        },
    }
}

fn find_conversions<'d>(doc: &'d TmatsDocument, meas: &Vec<&'d DGroup>) -> (r: Vec<&'d CGroup>)
    ensures
        r@.map_values(|c: &CGroup| c@) == conversions_of(doc@.data_conversion, meas@.map_values(|d: &DGroup| d@)),
{
    let ghost ds = meas@.map_values(|d: &DGroup| d@);
    let m = &doc.data_conversion;
    let mut out: Vec<&'d CGroup> = Vec::new();
    let n = m.len();
    for i in 0..n
        invariant
            n == m@.len(),
            m@ == doc@.data_conversion,
            ds == meas@.map_values(|d: &DGroup| d@),
            out@.map_values(|c: &CGroup| c@) == conversions_of(m@.take(i as int), ds),
    {
        assert(m@.take(i + 1).drop_last() =~= m@.take(i as int));
        let g = m.value_at(i);
        let ghost before = out@.map_values(|c: &CGroup| c@);
        if converts_any(g, meas) {
            out.push(g);
            assert(out@.map_values(|c: &CGroup| c@) =~= before.push(g@));
        }
    }
    assert(m@.take(n as int) =~= m@);
    out
}

/// Resolve a Chapter 10 channel ID to its complete configuration chain.
pub fn resolve_channel<'d>(doc: &'d TmatsDocument, channel_id: u16) -> (r: Option<ChannelConfig<'d>>)
    ensures
        match r {
            Some(c) => resolve_spec(doc@, channel_id) == Some(c@),
            None => resolve_spec(doc@, channel_id) is None,
        },
{
    let rs = &doc.recorders;
    let nr = rs.len();
    let mut i: usize = 0;
    while i < nr
        invariant
            i <= nr,
            nr == rs@.len(),
            rs@ == doc@.recorders,
            recorder_from(rs@, channel_id, 0) == recorder_from(rs@, channel_id, i as int),
        decreases nr - i,
    {
        let r = rs.value_at(i);
        let chs = &r.channels;
        let nc = chs.len();
        let mut j: usize = 0;
        while j < nc
            invariant
                j <= nc,
                i < nr,
                nr == rs@.len(),
                rs@ == doc@.recorders,
                r@ == rs@[i as int].1,
                nc == chs@.len(),
                chs@ == rs@[i as int].1.channels,
                recorder_from(rs@, channel_id, 0) == recorder_from(rs@, channel_id, i as int),
                channel_from(chs@, channel_id, 0) == channel_from(chs@, channel_id, j as int),
            decreases nc - j,
        {
            let ch = chs.value_at(j);
            if ch.channel_id == Some(channel_id) {
                let (format, measurements) = match &ch.data_link_name {
                    Some(dln) => (find_format(doc, dln), find_measurements(doc, dln)),
                    None => {
                        let v: Vec<&DGroup> = Vec::new();
                        assert(v@.map_values(|d: &DGroup| d@) =~= Seq::<DGroupV>::empty());
                        (None, v)
                    },
                };
                let conversions = find_conversions(doc, &measurements);
                let c = ChannelConfig {
                    channel_id,
                    recorder: r,
                    recorder_index: rs.key_at(i),
                    recorder_channel: ch,
                    format,
                    measurements,
                    conversions,
                };
                return Some(c);
            }
            j = j + 1;
        }
        i = i + 1;
    }
    None
}

// ─── Enumerations ───────────────────────────────────────────────────────────

/// All declared data sources of the G group, with their indices, in order.
pub fn enumerate_data_sources<'d>(doc: &'d TmatsDocument) -> (r: Vec<(u32, &'d DataSourceDecl)>)
    ensures
        r@.map_values(|p: (u32, &DataSourceDecl)| (p.0, p.1@)) == doc@.general.data_sources,
{
    let m = &doc.general.data_sources;
    let mut out: Vec<(u32, &'d DataSourceDecl)> = Vec::new();
    let n = m.len();
    for i in 0..n
        invariant
            n == m@.len(),
            m@ == doc@.general.data_sources,
            out@.map_values(|p: (u32, &DataSourceDecl)| (p.0, p.1@)) == m@.take(i as int),
    {
        let ghost before = out@.map_values(|p: (u32, &DataSourceDecl)| (p.0, p.1@));
        let e = (m.key_at(i), m.value_at(i));
        out.push(e);
        assert(out@.map_values(|p: (u32, &DataSourceDecl)| (p.0, p.1@)) =~= before.push((e.0, e.1@)));
        assert(m@.take(i + 1) =~= m@.take(i as int).push(m@[i as int]));
        assert(out@.map_values(|p: (u32, &DataSourceDecl)| (p.0, p.1@)) =~= m@.take(i + 1));
    }
    assert(m@.take(n as int) =~= m@);
    out
}

/// The channels of the recorders `rs`, as (recorder index, channel index, channel).
pub open spec fn all_channels(rs: Seq<(u32, RGroupV)>) -> Seq<(u32, u32, RChannelV)>
    decreases rs.len(),
{
    if rs.len() == 0 {
        Seq::empty()
    } else {
        all_channels(rs.drop_last()) + rs.last().1.channels.map_values(|c: (u32, RChannelV)| (rs.last().0, c.0, c.1))
    }
}

/// Enumerate all channels across all R-groups, in order.
pub fn enumerate_channels<'d>(doc: &'d TmatsDocument) -> (r: Vec<(u32, u32, &'d RChannel)>)
    ensures
        r@.map_values(|t: (u32, u32, &RChannel)| (t.0, t.1, t.2@)) == all_channels(doc@.recorders),
{
    let rs = &doc.recorders;
    let mut out: Vec<(u32, u32, &'d RChannel)> = Vec::new();
    let nr = rs.len();
    for i in 0..nr
        invariant
            nr == rs@.len(),
            rs@ == doc@.recorders,
            out@.map_values(|t: (u32, u32, &RChannel)| (t.0, t.1, t.2@)) == all_channels(rs@.take(i as int)),
    {
        assert(rs@.take(i + 1).drop_last() =~= rs@.take(i as int));
        let ri = rs.key_at(i);
        let chs = &rs.value_at(i).channels;
        let ghost base = out@.map_values(|t: (u32, u32, &RChannel)| (t.0, t.1, t.2@));
        let ghost cv = chs@.map_values(|c: (u32, RChannelV)| (ri, c.0, c.1));
        let nc = chs.len();
        for j in 0..nc
            invariant
                nc == chs@.len(),
                cv == chs@.map_values(|c: (u32, RChannelV)| (ri, c.0, c.1)),
                out@.map_values(|t: (u32, u32, &RChannel)| (t.0, t.1, t.2@)) == base + cv.take(j as int),
        {
            let ghost before = out@.map_values(|t: (u32, u32, &RChannel)| (t.0, t.1, t.2@));
            let e = (ri, chs.key_at(j), chs.value_at(j));
            out.push(e);
            assert(out@.map_values(|t: (u32, u32, &RChannel)| (t.0, t.1, t.2@)) =~= before.push((e.0, e.1, e.2@)));
            assert(cv.take(j + 1) =~= cv.take(j as int).push(cv[j as int]));
            assert(out@.map_values(|t: (u32, u32, &RChannel)| (t.0, t.1, t.2@)) =~= base + cv.take(j + 1));
        }
        assert(cv.take(nc as int) =~= cv);
    }
    assert(rs@.take(nr as int) =~= rs@);
    out
}

// ─── Diff ───────────────────────────────────────────────────────────────────

/// A structured diff between two documents, by attribute code-name.
#[derive(Debug)]
pub struct TmatsDiff {
    /// Attributes present in `b` but not `a`.
    pub added: Vec<(String, String)>,
    /// Attributes present in `a` but not `b`.
    pub removed: Vec<(String, String)>,
    /// Attributes present in both but with different values: (code-name, in `a`, in `b`).
    pub modified: Vec<(String, String, String)>,
}

impl Default for TmatsDiff {
    fn default() -> (r: Self)
        ensures
            r.added@.len() == 0,
            r.removed@.len() == 0,
            r.modified@.len() == 0,
    {
        TmatsDiff { added: Vec::new(), removed: Vec::new(), modified: Vec::new() }
    }
}

/// Text pairs.
pub type KvList = Seq<(Seq<char>, Seq<char>)>;

pub open spec fn kv_view(v: Seq<(String, String)>) -> KvList {
    v.map_values(|p: (String, String)| (p.0@, p.1@))
}

pub open spec fn kv3_view(v: Seq<(String, String, String)>) -> Seq<(Seq<char>, Seq<char>, Seq<char>)> {
    v.map_values(|p: (String, String, String)| (p.0@, p.1@, p.2@))
}

/// Position of the first entry from `i` on whose key is `k`, or -1.
pub open spec fn kv_find(m: KvList, k: Seq<char>, i: int) -> int
    decreases m.len() - i,
{
    if i < 0 || i >= m.len() {
        -1
    } else if m[i].0 == k {
        i
    } else {
        kv_find(m, k, i + 1)
    }
}

pub proof fn lemma_kv_find(m: KvList, k: Seq<char>, i: int)
    requires
        0 <= i,
    ensures
        kv_find(m, k, i) == -1 || (i <= kv_find(m, k, i) < m.len() && m[kv_find(m, k, i)].0 == k),
    decreases m.len() - i,
{
    if i < m.len() && m[i].0 != k {
        lemma_kv_find(m, k, i + 1);
    }
}

/// Maps `k` to `v`, in place when `k` is a key, else last.
pub open spec fn kv_put(m: KvList, k: Seq<char>, v: Seq<char>) -> KvList {
    let i = kv_find(m, k, 0);
    if i >= 0 {
        m.update(i, (k, v))
    } else {
        m.push((k, v))
    }
}

/// Position of the first `c` in `q` from `i` on, or -1.
pub open spec fn char_from(q: Seq<char>, c: char, i: int) -> int
    decreases q.len() - i,
{
    if i < 0 || i >= q.len() {
        -1
    } else if q[i] == c {
        i
    } else {
        char_from(q, c, i + 1)
    }
}

pub proof fn lemma_char_from(q: Seq<char>, c: char, i: int)
    requires
        0 <= i,
    ensures
        char_from(q, c, i) == -1 || i <= char_from(q, c, i) < q.len(),
    decreases q.len() - i,
{
    if i < q.len() && q[i] != c {
        lemma_char_from(q, c, i + 1);
    }
}

/// One `;`-separated piece of serialized text added to the map: trimmed,
/// skipped when empty or without `:`, else its trimmed code-name mapped to
/// the rest after the first `:`.
pub open spec fn add_piece(m: KvList, piece: Seq<char>) -> KvList {
    let q = trim(piece);
    let c = char_from(q, ':', 0);
    if q.len() == 0 || c < 0 {
        m
    } else {
        kv_put(m, trim(q.take(c)), q.skip(c + 1))
    }
}

pub open spec fn attr_map(pieces: Seq<Seq<char>>) -> KvList
    decreases pieces.len(),
{
    if pieces.len() == 0 {
        Seq::empty()
    } else {
        add_piece(attr_map(pieces.drop_last()), pieces.last())
    }
}

/// The code-name to value map of serialized text.
pub open spec fn text_attr_map(t: Seq<char>) -> KvList {
    attr_map(split(t, ';'))
}

pub open spec fn diff_modified(am: KvList, bm: KvList) -> Seq<(Seq<char>, Seq<char>, Seq<char>)>
    decreases am.len(),
{
    if am.len() == 0 {
        Seq::empty()
    } else {
        let (k, v) = am.last();
        let j = kv_find(bm, k, 0);
        if j >= 0 && bm[j].1 != v {
            diff_modified(am.drop_last(), bm).push((k, v, bm[j].1))
        } else {
            diff_modified(am.drop_last(), bm)
        }
    }
}

pub open spec fn diff_missing(am: KvList, bm: KvList) -> KvList
    decreases am.len(),
{
    if am.len() == 0 {
        Seq::empty()
    } else if kv_find(bm, am.last().0, 0) < 0 {
        diff_missing(am.drop_last(), bm).push(am.last())
    } else {
        diff_missing(am.drop_last(), bm)
    }
}

fn kv_find_exec(m: &Vec<(String, String)>, k: &Vec<char>) -> (r: Option<usize>)
    ensures
        match r {
            Some(i) => kv_find(kv_view(m@), k@, 0) == i,
            None => kv_find(kv_view(m@), k@, 0) == -1,
        },
{
    let n = m.len();
    let mut i: usize = 0;
    while i < n
        invariant
            i <= n,
            n == m@.len(),
            kv_find(kv_view(m@), k@, 0) == kv_find(kv_view(m@), k@, i as int),
        decreases n - i,
    {
        let key = chars_of(m[i].0.as_str());
        if chars_eq(&key, k) {
            return Some(i);
        }
        i = i + 1;
    }
    None
}

fn kv_put_exec(m: &mut Vec<(String, String)>, k: Vec<char>, v: String)
    ensures
        kv_view(final(m)@) == kv_put(kv_view(old(m)@), k@, v@),
{
    let ghost before = kv_view(m@);
    let ks = crate::text::string_of(&k);
    match kv_find_exec(m, &k) {
        Some(i) => {
            proof {
                lemma_kv_find(before, k@, 0);
            }
            m.set(i, (ks, v));
            assert(kv_view(m@) =~= before.update(i as int, (k@, v@)));
        },
        None => {
            m.push((ks, v));
            assert(kv_view(m@) =~= before.push((k@, v@)));
        },
    }
}

/// The code-name to value map of serialized text.
fn text_map(t: &String) -> (r: Vec<(String, String)>)
    ensures
        kv_view(r@) == text_attr_map(t@),
{
    let tv = chars_of(t.as_str());
    let pieces = split_chars(&tv, ';');
    let ghost ps = split(t@, ';');
    assert(pieces@.len() == ps.len());
    let mut m: Vec<(String, String)> = Vec::new();
    assert(kv_view(m@) =~= Seq::<(Seq<char>, Seq<char>)>::empty());
    let n = pieces.len();
    for i in 0..n
        invariant
            n == pieces@.len(),
            n == ps.len(),
            forall|j: int| 0 <= j < n ==> pieces@[j]@ == ps[j],
            kv_view(m@) == attr_map(ps.take(i as int)),
    {
        assert(ps.take(i + 1).drop_last() =~= ps.take(i as int));
        let piece = &pieces[i];
        let (a, b) = trim_bounds(piece);
        let ghost q = trim(piece@);
        assert(q == piece@.subrange(a as int, b as int));
        let mut c = a;
        while c < b && piece[c] != ':'
            invariant
                a <= c <= b,
                b <= piece@.len(),
                q == piece@.subrange(a as int, b as int),
                char_from(q, ':', 0) == char_from(q, ':', c - a),
            decreases b - c,
        {
            c = c + 1;
        }
        proof {
            lemma_char_from(q, ':', 0);
        }
        if a < b && c < b {
            let mut key_chars: Vec<char> = Vec::new();
            let (ka, kb) = {
                let mut kv: Vec<char> = Vec::new();
                let mut x = a;
                while x < c
                    invariant
                        a <= x <= c,
                        c <= piece@.len(),
                        kv@ == piece@.subrange(a as int, x as int),
                    decreases c - x,
                {
                    kv.push(piece[x]);
                    assert(kv@ =~= piece@.subrange(a as int, x + 1));
                    x = x + 1;
                }
                key_chars = kv;
                trim_bounds(&key_chars)
            };
            let mut key: Vec<char> = Vec::new();
            let mut y = ka;
            while y < kb
                invariant
                    ka <= y <= kb,
                    kb <= key_chars@.len(),
                    key@ == key_chars@.subrange(ka as int, y as int),
                decreases kb - y,
            {
                key.push(key_chars[y]);
                assert(key@ =~= key_chars@.subrange(ka as int, y + 1));
                y = y + 1;
            }
            let val = string_of_range(piece, c + 1, b);
            assert(key_chars@ =~= q.take(c - a));
            assert(val@ =~= q.skip(c - a + 1));
            kv_put_exec(&mut m, key, val);
        }
    }
    assert(ps.take(n as int) =~= ps);
    m
}

/// Compare two documents attribute by attribute, by their serialized text:
/// what only `b` has, what only `a` has, and what both have with different values.
pub fn diff(a: &TmatsDocument, b: &TmatsDocument) -> (r: Result<TmatsDiff, TmatsError>)
    ensures
        r matches Ok(d) && ({
            let am = text_attr_map(serialized_text(a@, default_serialize_options()));
            let bm = text_attr_map(serialized_text(b@, default_serialize_options()));
            &&& kv3_view(d.modified@) == diff_modified(am, bm)
            &&& kv_view(d.removed@) == diff_missing(am, bm)
            &&& kv_view(d.added@) == diff_missing(bm, am)
        }),
{
    let opts = SerializeOptions::default();
    let at = serialize_to_string(a, &opts);
    let bt = serialize_to_string(b, &opts);
    let am = text_map(&at);
    let bm = text_map(&bt);
    let ghost amv = kv_view(am@);
    let ghost bmv = kv_view(bm@);
    let mut result = TmatsDiff::default();
    assert(kv3_view(result.modified@) =~= Seq::<(Seq<char>, Seq<char>, Seq<char>)>::empty());
    assert(kv_view(result.removed@) =~= Seq::<(Seq<char>, Seq<char>)>::empty());
    assert(kv_view(result.added@) =~= Seq::<(Seq<char>, Seq<char>)>::empty());
    let n = am.len();
    for i in 0..n
        invariant
            n == am@.len(),
            amv == kv_view(am@),
            bmv == kv_view(bm@),
            kv3_view(result.modified@) == diff_modified(amv.take(i as int), bmv),
            kv_view(result.removed@) == diff_missing(amv.take(i as int), bmv),
            kv_view(result.added@).len() == 0,
    {
        assert(amv.take(i + 1).drop_last() =~= amv.take(i as int));
        let key = chars_of(am[i].0.as_str());
        match kv_find_exec(&bm, &key) {
            Some(j) => {
                proof {
                    lemma_kv_find(bmv, key@, 0);
                }
                let bv = chars_of(bm[j].1.as_str());
                let av = chars_of(am[i].1.as_str());
                if !chars_eq(&bv, &av) {
                    let ghost before = kv3_view(result.modified@);
                    let e = (am[i].0.clone(), am[i].1.clone(), bm[j].1.clone());
                    result.modified.push(e);
                    assert(kv3_view(result.modified@) =~= before.push((amv[i as int].0, amv[i as int].1, bmv[j as int].1)));
                }
            },
            None => {
                let ghost before = kv_view(result.removed@);
                let e = (am[i].0.clone(), am[i].1.clone());
                result.removed.push(e);
                assert(kv_view(result.removed@) =~= before.push(amv[i as int]));
            },
        }
    }
    assert(amv.take(n as int) =~= amv);
    let n = bm.len();
    for i in 0..n
        invariant
            n == bm@.len(),
            amv == kv_view(am@),
            bmv == kv_view(bm@),
            kv3_view(result.modified@) == diff_modified(amv, bmv),
            kv_view(result.removed@) == diff_missing(amv, bmv),
            kv_view(result.added@) == diff_missing(bmv.take(i as int), amv),
    {
        assert(bmv.take(i + 1).drop_last() =~= bmv.take(i as int));
        let key = chars_of(bm[i].0.as_str());
        if kv_find_exec(&am, &key).is_none() {
            let ghost before = kv_view(result.added@);
            let e = (bm[i].0.clone(), bm[i].1.clone());
            result.added.push(e);
            assert(kv_view(result.added@) =~= before.push(bmv[i as int]));
        }
    }
    assert(bmv.take(n as int) =~= bmv);
    Ok(result)
}

// ─── Laws ───────────────────────────────────────────────────────────────────

/// No two entries of the list share a key.
pub open spec fn kv_keys_distinct(m: KvList) -> bool {
    forall|i: int, j: int| 0 <= i < j < m.len() ==> m[i].0 != m[j].0
}

proof fn lemma_kv_find_none(m: KvList, k: Seq<char>, i: int)
    requires
        0 <= i,
        kv_find(m, k, i) == -1,
    ensures
        forall|j: int| i <= j < m.len() ==> m[j].0 != k,
    decreases m.len() - i,
{
    if i < m.len() {
        lemma_kv_find_none(m, k, i + 1);
    }
}

proof fn lemma_kv_find_distinct(m: KvList, i: int, s: int)
    requires
        kv_keys_distinct(m),
        0 <= s <= i < m.len(),
    ensures
        kv_find(m, m[i].0, s) == i,
    decreases i - s,
{
    if s < i {
        lemma_kv_find_distinct(m, i, s + 1);
    }
}

proof fn lemma_kv_put_distinct(m: KvList, k: Seq<char>, v: Seq<char>)
    requires
        kv_keys_distinct(m),
    ensures
        kv_keys_distinct(kv_put(m, k, v)),
{
    lemma_kv_find(m, k, 0);
    if kv_find(m, k, 0) == -1 {
        lemma_kv_find_none(m, k, 0);
    }
}

proof fn lemma_attr_map_distinct(pieces: Seq<Seq<char>>)
    ensures
        kv_keys_distinct(attr_map(pieces)),
    decreases pieces.len(),
{
    if pieces.len() > 0 {
        let m = attr_map(pieces.drop_last());
        lemma_attr_map_distinct(pieces.drop_last());
        let q = trim(pieces.last());
        let c = char_from(q, ':', 0);
        if q.len() != 0 && c >= 0 {
            lemma_kv_put_distinct(m, trim(q.take(c)), q.skip(c + 1));
        }
    }
}

proof fn lemma_diff_prefix_empty(am: KvList, bm: KvList)
    requires
        kv_keys_distinct(bm),
        am.len() <= bm.len(),
        am == bm.take(am.len() as int),
    ensures
        diff_modified(am, bm).len() == 0,
        diff_missing(am, bm).len() == 0,
    decreases am.len(),
{
    if am.len() > 0 {
        let n = am.len() - 1;
        assert(am.drop_last() =~= bm.take(n));
        lemma_diff_prefix_empty(am.drop_last(), bm);
        assert(am.last() == bm[n]);
        lemma_kv_find_distinct(bm, n, 0);
    }
}

/// A document compared with itself shows nothing added, removed or modified.
pub proof fn law_diff_with_itself_is_empty(d: TmatsDocumentV)
    ensures
        ({
            let m = text_attr_map(serialized_text(d, default_serialize_options()));
            &&& diff_modified(m, m).len() == 0
            &&& diff_missing(m, m).len() == 0
        }),
{
    let m = text_attr_map(serialized_text(d, default_serialize_options()));
    lemma_attr_map_distinct(split(serialized_text(d, default_serialize_options()), ';'));
    assert(m.take(m.len() as int) =~= m);
    lemma_diff_prefix_empty(m, m);
}

proof fn lemma_modified_member(am: KvList, bm: KvList, t: (Seq<char>, Seq<char>, Seq<char>))
    requires
        diff_modified(am, bm).contains(t),
    ensures
        exists|i: int| 0 <= i < am.len() && (#[trigger] am[i]).0 == t.0 && am[i].1 == t.1,
        kv_find(bm, t.0, 0) >= 0,
        bm[kv_find(bm, t.0, 0)].1 == t.2,
        t.2 != t.1,
    decreases am.len(),
{
    let rest = am.drop_last();
    let (k, v) = am.last();
    let j = kv_find(bm, k, 0);
    let prev = diff_modified(rest, bm);
    if j >= 0 && bm[j].1 != v && t == (k, v, bm[j].1) {
        assert(am[am.len() - 1] == am.last());
    } else {
        if j >= 0 && bm[j].1 != v {
            let n = choose|n: int| 0 <= n < diff_modified(am, bm).len() && diff_modified(am, bm)[n] == t;
            assert(diff_modified(am, bm) == prev.push((k, v, bm[j].1)));
            assert(n < prev.len());
            assert(prev[n] == t);
        }
        assert(prev.contains(t));
        lemma_modified_member(rest, bm, t);
        let i = choose|i: int| 0 <= i < rest.len() && (#[trigger] rest[i]).0 == t.0 && rest[i].1 == t.1;
        assert(am[i] == rest[i]);
    }
}

proof fn lemma_modified_has(am: KvList, bm: KvList, i: int)
    requires
        0 <= i < am.len(),
        kv_find(bm, am[i].0, 0) >= 0,
        bm[kv_find(bm, am[i].0, 0)].1 != am[i].1,
    ensures
        diff_modified(am, bm).contains((am[i].0, am[i].1, bm[kv_find(bm, am[i].0, 0)].1)),
    decreases am.len(),
{
    let rest = am.drop_last();
    let (k, v) = am.last();
    let j = kv_find(bm, k, 0);
    let prev = diff_modified(rest, bm);
    let t = (am[i].0, am[i].1, bm[kv_find(bm, am[i].0, 0)].1);
    if i == am.len() - 1 {
        assert(diff_modified(am, bm) == prev.push(t));
        assert(diff_modified(am, bm)[prev.len() as int] == t);
    } else {
        assert(rest[i] == am[i]);
        lemma_modified_has(rest, bm, i);
        let n = choose|n: int| 0 <= n < prev.len() && prev[n] == t;
        if j >= 0 && bm[j].1 != v {
            assert(diff_modified(am, bm) == prev.push((k, v, bm[j].1)));
            assert(diff_modified(am, bm)[n] == t);
        }
    }
}

/// Comparing the other way round swaps old and new values: every attribute
/// that `diff(a, b)` shows modified from `v` to `w`, `diff(b, a)` shows
/// modified from `w` to `v`.
pub proof fn law_diff_modified_swaps(a: TmatsDocumentV, b: TmatsDocumentV, t: (Seq<char>, Seq<char>, Seq<char>))
    requires
        diff_modified(
            text_attr_map(serialized_text(a, default_serialize_options())),
            text_attr_map(serialized_text(b, default_serialize_options())),
        ).contains(t),
    ensures
        diff_modified(
            text_attr_map(serialized_text(b, default_serialize_options())),
            text_attr_map(serialized_text(a, default_serialize_options())),
        ).contains((t.0, t.2, t.1)),
{
    let am = text_attr_map(serialized_text(a, default_serialize_options()));
    let bm = text_attr_map(serialized_text(b, default_serialize_options()));
    lemma_attr_map_distinct(split(serialized_text(a, default_serialize_options()), ';'));
    lemma_modified_member(am, bm, t);
    let i = choose|i: int| 0 <= i < am.len() && (#[trigger] am[i]).0 == t.0 && am[i].1 == t.1;
    let j = kv_find(bm, t.0, 0);
    lemma_kv_find(bm, t.0, 0);
    lemma_kv_find_distinct(am, i, 0);
    assert(bm[j].0 == t.0);
    assert(kv_find(am, bm[j].0, 0) == i);
    lemma_modified_has(bm, am, j);
}

/// Whether the list has an entry for the code-name `k`.
pub open spec fn has_key(m: KvList, k: Seq<char>) -> bool {
    exists|i: int| 0 <= i < m.len() && (#[trigger] m[i]).0 == k
}

/// The code-name to value map that `diff` compares for a document.
pub open spec fn doc_attrs(d: TmatsDocumentV) -> KvList {
    text_attr_map(serialized_text(d, default_serialize_options()))
}

proof fn lemma_kv_find_has(m: KvList, k: Seq<char>)
    ensures
        (kv_find(m, k, 0) >= 0) == has_key(m, k),
{
    lemma_kv_find(m, k, 0);
    if kv_find(m, k, 0) == -1 {
        lemma_kv_find_none(m, k, 0);
    } else {
        assert(m[kv_find(m, k, 0)].0 == k);
    }
}

proof fn lemma_missing_iff(am: KvList, bm: KvList, t: (Seq<char>, Seq<char>))
    ensures
        diff_missing(am, bm).contains(t) <==> (am.contains(t) && !has_key(bm, t.0)),
    decreases am.len(),
{
    if am.len() > 0 {
        let rest = am.drop_last();
        let last = am.last();
        let prev = diff_missing(rest, bm);
        let res = diff_missing(am, bm);
        lemma_missing_iff(rest, bm, t);
        lemma_kv_find_has(bm, last.0);
        lemma_kv_find_has(bm, t.0);
        if res.contains(t) {
            let n = choose|n: int| 0 <= n < res.len() && res[n] == t;
            if kv_find(bm, last.0, 0) < 0 && n == prev.len() {
                assert(res == prev.push(last));
                assert(am[am.len() - 1] == t);
            } else {
                if kv_find(bm, last.0, 0) < 0 {
                    assert(res == prev.push(last));
                }
                assert(prev[n] == t);
                let i = choose|i: int| 0 <= i < rest.len() && rest[i] == t;
                assert(am[i] == t);
            }
        }
        if am.contains(t) && !has_key(bm, t.0) {
            let i = choose|i: int| 0 <= i < am.len() && am[i] == t;
            if i == am.len() - 1 {
                assert(res == prev.push(last));
                assert(res[prev.len() as int] == t);
            } else {
                assert(rest[i] == t);
                let n = choose|n: int| 0 <= n < prev.len() && prev[n] == t;
                if kv_find(bm, last.0, 0) < 0 {
                    assert(res == prev.push(last));
                }
                assert(res[n] == t);
            }
        }
    }
}

proof fn lemma_modified_iff(am: KvList, bm: KvList, t: (Seq<char>, Seq<char>, Seq<char>))
    requires
        kv_keys_distinct(bm),
    ensures
        diff_modified(am, bm).contains(t) <==> (am.contains((t.0, t.1)) && bm.contains((t.0, t.2)) && t.1 != t.2),
{
    if diff_modified(am, bm).contains(t) {
        lemma_modified_member(am, bm, t);
        let i = choose|i: int| 0 <= i < am.len() && (#[trigger] am[i]).0 == t.0 && am[i].1 == t.1;
        assert(am[i] == (t.0, t.1));
        let j = kv_find(bm, t.0, 0);
        lemma_kv_find(bm, t.0, 0);
        assert(bm[j] == (t.0, t.2));
    }
    if am.contains((t.0, t.1)) && bm.contains((t.0, t.2)) && t.1 != t.2 {
        let i = choose|i: int| 0 <= i < am.len() && am[i] == (t.0, t.1);
        let j = choose|j: int| 0 <= j < bm.len() && bm[j] == (t.0, t.2);
        lemma_kv_find_distinct(bm, j, 0);
        lemma_modified_has(am, bm, i);
    }
}

/// What `diff(a, b)` holds, as sets over the code-name to value maps of the
/// two documents' text (each code-name at most once): added, the entries of
/// `b` whose code-name `a` lacks; removed, the entries of `a` whose code-name
/// `b` lacks; modified, the code-names both have with different values, with
/// the value in `a`, then in `b`.
pub proof fn law_diff_as_sets(a: TmatsDocumentV, b: TmatsDocumentV, k: Seq<char>, v: Seq<char>, w: Seq<char>)
    ensures
        kv_keys_distinct(doc_attrs(a)),
        kv_keys_distinct(doc_attrs(b)),
        diff_missing(doc_attrs(b), doc_attrs(a)).contains((k, v)) <==> (doc_attrs(b).contains((k, v)) && !has_key(doc_attrs(a), k)),
        diff_missing(doc_attrs(a), doc_attrs(b)).contains((k, v)) <==> (doc_attrs(a).contains((k, v)) && !has_key(doc_attrs(b), k)),
        diff_modified(doc_attrs(a), doc_attrs(b)).contains((k, v, w))
            <==> (doc_attrs(a).contains((k, v)) && doc_attrs(b).contains((k, w)) && v != w),
{
    lemma_attr_map_distinct(split(serialized_text(a, default_serialize_options()), ';'));
    lemma_attr_map_distinct(split(serialized_text(b, default_serialize_options()), ';'));
    lemma_missing_iff(doc_attrs(b), doc_attrs(a), (k, v));
    lemma_missing_iff(doc_attrs(a), doc_attrs(b), (k, v));
    lemma_modified_iff(doc_attrs(a), doc_attrs(b), (k, v, w));
}

// ─── What channel resolution finds ──────────────────────────────────────────

proof fn lemma_recorder_from_channel(rs: Seq<(u32, RGroupV)>, cid: u16, i: int)
    requires
        0 <= i,
    ensures
        recorder_from(rs, cid, i) matches Some(p) ==> (0 <= p.0 < rs.len() && 0 <= p.1 < rs[p.0].1.channels.len()
            && rs[p.0].1.channels[p.1].1.channel_id == Some(cid)),
    decreases rs.len() - i,
{
    if i < rs.len() {
        lemma_channel_from(rs[i].1.channels, cid, 0);
        if channel_from(rs[i].1.channels, cid, 0) < 0 {
            lemma_recorder_from_channel(rs, cid, i + 1);
        }
    }
}

proof fn lemma_measurements_of(m: Seq<(u32, DGroupV)>, dln: Seq<char>)
    ensures
        forall|j: int| 0 <= j < m.len() && (#[trigger] m[j]).1.data_link_name == Some(dln)
            ==> measurements_of(m, dln).contains(m[j].1),
        forall|k: int| 0 <= k < measurements_of(m, dln).len()
            ==> (#[trigger] measurements_of(m, dln)[k]).data_link_name == Some(dln),
    decreases m.len(),
{
    if m.len() > 0 {
        let rest = m.drop_last();
        lemma_measurements_of(rest, dln);
        let prev = measurements_of(rest, dln);
        let out = measurements_of(m, dln);
        assert forall|j: int| 0 <= j < m.len() && (#[trigger] m[j]).1.data_link_name == Some(dln)
            implies out.contains(m[j].1) by {
            if j < m.len() - 1 {
                assert(rest[j] == m[j]);
                let k = choose|k: int| 0 <= k < prev.len() && prev[k] == m[j].1;
                assert(out[k] == prev[k]);
            } else {
                assert(out[out.len() - 1] == m[j].1);
            }
        }
        assert forall|k: int| 0 <= k < out.len() implies (#[trigger] out[k]).data_link_name == Some(dln) by {
            if k < prev.len() {
                assert(out[k] == prev[k]);
            }
        }
    }
}

proof fn lemma_conversions_of(m: Seq<(u32, CGroupV)>, ds: Seq<DGroupV>)
    ensures
        forall|j: int| 0 <= j < m.len() && converts(#[trigger] m[j].1, ds) ==> conversions_of(m, ds).contains(m[j].1),
        forall|k: int| 0 <= k < conversions_of(m, ds).len() ==> converts(#[trigger] conversions_of(m, ds)[k], ds),
    decreases m.len(),
{
    if m.len() > 0 {
        let rest = m.drop_last();
        lemma_conversions_of(rest, ds);
        let prev = conversions_of(rest, ds);
        let out = conversions_of(m, ds);
        assert forall|j: int| 0 <= j < m.len() && converts(#[trigger] m[j].1, ds) implies out.contains(m[j].1) by {
            if j < m.len() - 1 {
                assert(rest[j] == m[j]);
                assert(converts(rest[j].1, ds));
                let k = choose|k: int| 0 <= k < prev.len() && prev[k] == m[j].1;
                assert(out[k] == prev[k]);
            } else {
                assert(out[out.len() - 1] == m[j].1);
            }
        }
        assert forall|k: int| 0 <= k < out.len() implies converts(#[trigger] out[k], ds) by {
            if k < prev.len() {
                assert(out[k] == prev[k]);
            }
        }
    }
}

/// What resolving channel `cid` finds, stated from the document: the
/// recorder channel carries that ID; the measurements are exactly the D
/// groups whose data link name is the channel's (every such group is among
/// them, and each of them has it); the conversions are exactly the C groups
/// whose measurement name is the measurement list name of one of those
/// measurements.
pub proof fn law_resolved_channel_links(d: TmatsDocumentV, cid: u16)
    ensures
        resolve_spec(d, cid) matches Some(c) ==> {
            &&& c.channel_id == cid
            &&& c.recorder_channel.channel_id == Some(cid)
            &&& (exists|i: int, j: int| 0 <= i < d.recorders.len() && 0 <= j < d.recorders[i].1.channels.len()
                && d.recorders[i] == (c.recorder_index, c.recorder)
                && d.recorders[i].1.channels[j].1 == c.recorder_channel)
            &&& forall|j: int| 0 <= j < d.pcm_measurements.len() && c.recorder_channel.data_link_name is Some
                && (#[trigger] d.pcm_measurements[j]).1.data_link_name == c.recorder_channel.data_link_name
                ==> c.measurements.contains(d.pcm_measurements[j].1)
            &&& forall|k: int| 0 <= k < c.measurements.len() ==> c.recorder_channel.data_link_name is Some
                && (#[trigger] c.measurements[k]).data_link_name == c.recorder_channel.data_link_name
            &&& forall|j: int, k: int| 0 <= j < d.data_conversion.len() && 0 <= k < c.measurements.len()
                && (#[trigger] d.data_conversion[j]).1.measurement_name is Some
                && d.data_conversion[j].1.measurement_name == (#[trigger] c.measurements[k]).measurement_list_name
                ==> c.conversions.contains(d.data_conversion[j].1)
            &&& forall|k: int| 0 <= k < c.conversions.len() ==> (#[trigger] c.conversions[k]).measurement_name is Some
                && exists|m: int| 0 <= m < c.measurements.len()
                    && (#[trigger] c.measurements[m]).measurement_list_name == c.conversions[k].measurement_name
        },
{
    lemma_recorder_from_channel(d.recorders, cid, 0);
    if let Some(c) = resolve_spec(d, cid) {
        let p = recorder_from(d.recorders, cid, 0).unwrap();
        let meas = c.measurements;
        match c.recorder_channel.data_link_name {
            Some(dln) => lemma_measurements_of(d.pcm_measurements, dln),
            None => {},
        }
        lemma_conversions_of(d.data_conversion, meas);
        assert forall|j: int, k: int| 0 <= j < d.data_conversion.len() && 0 <= k < meas.len()
            && (#[trigger] d.data_conversion[j]).1.measurement_name is Some
            && d.data_conversion[j].1.measurement_name == (#[trigger] meas[k]).measurement_list_name
            implies c.conversions.contains(d.data_conversion[j].1) by {
            assert(converts(d.data_conversion[j].1, meas));
        }
        assert forall|k: int| 0 <= k < c.conversions.len() implies (#[trigger] c.conversions[k]).measurement_name is Some
            && exists|m: int| 0 <= m < meas.len() && (#[trigger] meas[m]).measurement_list_name == c.conversions[k].measurement_name by {
            assert(converts(c.conversions[k], meas));
        }
        assert(d.recorders[p.0].1.channels[p.1].1 == c.recorder_channel);
    }
}

} // verus!
