//! What the XML reader's state machine makes of the events the XML writer
//! emits: the G group's text fields come back, trimmed.
use vstd::prelude::*;
use crate::model::{TmatsDocumentV, GGroupV, TGroupV, RGroupV, RChannelV, MGroupV, PGroupV, DGroupV, BGroupV, SGroupV, CGroupV, DataSourceDeclV};
use crate::text::trim;
use crate::xml::{
    XmlOutV, XmlEventV, XmlReadV, EndKind, xml_step, xml_run, xml_document, xml_doc_events, end_kind, end_apply,
    end_general, is_general, parent_of, el, el_opt, el_exp, el_date, el_u32, el_u16, el_bool, xml_g, xml_ds, xml_ds_all,
    xml_comments, xml_t, xml_t_all, xml_r, xml_r_all, xml_channel, xml_channels, xml_m, xml_m_all, xml_p, xml_p_all,
    xml_d, xml_d_all, xml_b, xml_b_all, xml_s, xml_s_all, xml_c, xml_c_all,
};

verus! {

/// How the reader reports an event the writer wrote: the declaration carries
/// nothing for TMATS; tags and text come back as written.
pub open spec fn read_back(e: XmlOutV) -> XmlEventV {
    match e {
        XmlOutV::Decl => XmlEventV::Other,
        XmlOutV::Start(n) => XmlEventV::Start(n),
        XmlOutV::End(n) => XmlEventV::End(n),
        XmlOutV::Text(t) => XmlEventV::Text(t),
    }
}

pub open spec fn read_back_all(es: Seq<XmlOutV>) -> Seq<XmlEventV> {
    es.map_values(|e: XmlOutV| read_back(e))
}

/// The reader's state after the events `evs`, from state `s`.
pub open spec fn run_from(s: XmlReadV, evs: Seq<XmlEventV>) -> XmlReadV
    decreases evs.len(),
{
    if evs.len() == 0 {
        s
    } else {
        xml_step(run_from(s, evs.drop_last()), evs.last())
    }
}

/// The reader's state after the written events `es`.
pub open spec fn read_state(es: Seq<XmlOutV>) -> XmlReadV {
    xml_run(read_back_all(es))
}

proof fn lemma_read_push(es: Seq<XmlOutV>, e: XmlOutV)
    ensures
        read_state(es.push(e)) == xml_step(read_state(es), read_back(e)),
{
    assert(read_back_all(es.push(e)).drop_last() =~= read_back_all(es));
}

proof fn lemma_run_split(a: Seq<XmlEventV>, b: Seq<XmlEventV>)
    ensures
        xml_run(a + b) == run_from(xml_run(a), b),
    decreases b.len(),
{
    if b.len() == 0 {
        assert(a + b =~= a);
    } else {
        lemma_run_split(a, b.drop_last());
        assert((a + b).drop_last() =~= a + b.drop_last());
    }
}

/// An element name other than the two that the reader routes into the G group.
pub open spec fn foreign(n: Seq<char>) -> bool {
    n != "GeneralInformation"@ && n != "DataSource"@
}

pub open spec fn start_foreign(e: XmlOutV) -> bool {
    match e {
        XmlOutV::Start(n) => foreign(n),
        _ => true,
    }
}

/// `res` is `acc` followed by events whose start tags are all foreign.
pub open spec fn extends_foreign(acc: Seq<XmlOutV>, res: Seq<XmlOutV>) -> bool {
    &&& acc.len() <= res.len()
    &&& res.take(acc.len() as int) == acc
    &&& forall|i: int| acc.len() <= i < res.len() ==> start_foreign(#[trigger] res[i])
}

proof fn lemma_ext_refl(a: Seq<XmlOutV>)
    ensures
        extends_foreign(a, a),
{
    assert(a.take(a.len() as int) =~= a);
}

proof fn lemma_ext_trans(a: Seq<XmlOutV>, b: Seq<XmlOutV>, c: Seq<XmlOutV>)
    requires
        extends_foreign(a, b),
        extends_foreign(b, c),
    ensures
        extends_foreign(a, c),
{
    assert(c.take(a.len() as int) =~= b.take(a.len() as int));
    assert forall|i: int| a.len() <= i < c.len() implies start_foreign(#[trigger] c[i]) by {
        if i < b.len() {
            assert(c[i] == c.take(b.len() as int)[i]);
        }
    }
}

proof fn lemma_ext_push(a: Seq<XmlOutV>, x: XmlOutV)
    requires
        start_foreign(x),
    ensures
        extends_foreign(a, a.push(x)),
{
    assert(a.push(x).take(a.len() as int) =~= a);
}

proof fn lemma_ext_el(a: Seq<XmlOutV>, name: Seq<char>, v: Seq<char>)
    requires
        foreign(name),
    ensures
        extends_foreign(a, el(a, name, v)),
{
    let a1 = a.push(XmlOutV::Start(name));
    let a2 = a1.push(XmlOutV::Text(v));
    lemma_ext_push(a, XmlOutV::Start(name));
    lemma_ext_push(a1, XmlOutV::Text(v));
    lemma_ext_push(a2, XmlOutV::End(name));
    lemma_ext_trans(a, a1, a2);
    lemma_ext_trans(a, a2, el(a, name, v));
}

/// Each optional element: nothing, or one element.
proof fn lemma_ext_el_any(a: Seq<XmlOutV>, name: Seq<char>, r: Seq<XmlOutV>)
    requires
        foreign(name),
        r == a || exists|v: Seq<char>| r == el(a, name, v),
    ensures
        extends_foreign(a, r),
{
    if r == a {
        lemma_ext_refl(a);
    } else {
        let v = choose|v: Seq<char>| r == el(a, name, v);
        lemma_ext_el(a, name, v);
    }
}

/// The element names the writer uses outside the G group are foreign.
proof fn lemma_foreign_names()
    ensures
        foreign("Tmats"@),
        foreign("TransmissionAttributes"@),
        foreign("TransmitterID"@),
        foreign("CarrierFrequency"@),
        foreign("ModulationType"@),
        foreign("RecorderAttributes"@),
        foreign("RecorderID"@),
        foreign("Description"@),
        foreign("Channel"@),
        foreign("ChannelID"@),
        foreign("DataType"@),
        foreign("DataLinkName"@),
        foreign("DataPacking"@),
        foreign("Enabled"@),
        foreign("IndexEnabled"@),
        foreign("MultiplexAttributes"@),
        foreign("BasebandSignalType"@),
        foreign("PCMFormatAttributes"@),
        foreign("BitRate"@),
        foreign("Encoding"@),
        foreign("Polarity"@),
        foreign("WordsPerFrame"@),
        foreign("BitsPerWord"@),
        foreign("SyncPattern"@),
        foreign("SyncPatternLength"@),
        foreign("PCMMeasurementDescription"@),
        foreign("MeasurementListName"@),
        foreign("BusDataAttributes"@),
        foreign("BusType"@),
        foreign("MessageDataAttributes"@),
        foreign("DataConversionAttributes"@),
        foreign("MeasurementName"@),
        foreign("ConversionType"@),
        foreign("EngineeringUnits"@),
{
    reveal_strlit("GeneralInformation");
    reveal_strlit("DataSource");
    reveal_strlit("Tmats");
    reveal_strlit("TransmissionAttributes");
    reveal_strlit("TransmitterID");
    reveal_strlit("CarrierFrequency");
    reveal_strlit("ModulationType");
    reveal_strlit("RecorderAttributes");
    reveal_strlit("RecorderID");
    reveal_strlit("Description");
    reveal_strlit("Channel");
    reveal_strlit("ChannelID");
    reveal_strlit("DataType");
    reveal_strlit("DataLinkName");
    reveal_strlit("DataPacking");
    reveal_strlit("Enabled");
    reveal_strlit("IndexEnabled");
    reveal_strlit("MultiplexAttributes");
    reveal_strlit("BasebandSignalType");
    reveal_strlit("PCMFormatAttributes");
    reveal_strlit("BitRate");
    reveal_strlit("Encoding");
    reveal_strlit("Polarity");
    reveal_strlit("WordsPerFrame");
    reveal_strlit("BitsPerWord");
    reveal_strlit("SyncPattern");
    reveal_strlit("SyncPatternLength");
    reveal_strlit("PCMMeasurementDescription");
    reveal_strlit("MeasurementListName");
    reveal_strlit("BusDataAttributes");
    reveal_strlit("BusType");
    reveal_strlit("MessageDataAttributes");
    reveal_strlit("DataConversionAttributes");
    reveal_strlit("MeasurementName");
    reveal_strlit("ConversionType");
    reveal_strlit("EngineeringUnits");
    assert("RecorderAttributes"@[0] != "GeneralInformation"@[0]);
    assert("BasebandSignalType"@[0] != "GeneralInformation"@[0]);
    assert("RecorderID"@[0] != "DataSource"@[0]);
    assert("Description"@.len() != "DataSource"@.len());
    assert("Description"@.len() != "GeneralInformation"@.len());
    assert("DataType"@.len() != "DataSource"@.len());
    assert("DataType"@.len() != "GeneralInformation"@.len());
}

proof fn lemma_ext_t(acc: Seq<XmlOutV>, g: TGroupV)
    ensures
        extends_foreign(acc, xml_t(acc, g)),
{
    lemma_foreign_names();
    let a1 = acc.push(XmlOutV::Start("TransmissionAttributes"@));
    lemma_ext_push(acc, XmlOutV::Start("TransmissionAttributes"@));
    let a2 = el_opt(a1, "TransmitterID"@, g.transmitter_id);
    lemma_ext_el_any(a1, "TransmitterID"@, a2);
    lemma_ext_trans(acc, a1, a2);
    let a3 = el_opt(a2, "CarrierFrequency"@, g.carrier_frequency_mhz);
    lemma_ext_el_any(a2, "CarrierFrequency"@, a3);
    lemma_ext_trans(acc, a2, a3);
    let a4 = el_exp(a3, "ModulationType"@, g.modulation_type);
    lemma_ext_el_any(a3, "ModulationType"@, a4);
    lemma_ext_trans(acc, a3, a4);
    lemma_ext_push(a4, XmlOutV::End("TransmissionAttributes"@));
    lemma_ext_trans(acc, a4, a4.push(XmlOutV::End("TransmissionAttributes"@)));
}

proof fn lemma_ext_channel(acc: Seq<XmlOutV>, ch: RChannelV)
    ensures
        extends_foreign(acc, xml_channel(acc, ch)),
{
    lemma_foreign_names();
    let a1 = acc.push(XmlOutV::Start("Channel"@));
    lemma_ext_push(acc, XmlOutV::Start("Channel"@));
    let a2 = el_u16(a1, "ChannelID"@, ch.channel_id);
    lemma_ext_el_any(a1, "ChannelID"@, a2);
    lemma_ext_trans(acc, a1, a2);
    let a3 = el_opt(a2, "DataType"@, ch.data_type);
    lemma_ext_el_any(a2, "DataType"@, a3);
    lemma_ext_trans(acc, a2, a3);
    let a4 = el_opt(a3, "DataLinkName"@, ch.data_link_name);
    lemma_ext_el_any(a3, "DataLinkName"@, a4);
    lemma_ext_trans(acc, a3, a4);
    let a5 = el_exp(a4, "DataPacking"@, ch.data_packing_option);
    lemma_ext_el_any(a4, "DataPacking"@, a5);
    lemma_ext_trans(acc, a4, a5);
    let a6 = el_bool(a5, "Enabled"@, ch.channel_enabled);
    lemma_ext_el_any(a5, "Enabled"@, a6);
    lemma_ext_trans(acc, a5, a6);
    lemma_ext_push(a6, XmlOutV::End("Channel"@));
    lemma_ext_trans(acc, a6, a6.push(XmlOutV::End("Channel"@)));
}

proof fn lemma_ext_r(acc: Seq<XmlOutV>, g: RGroupV)
    ensures
        extends_foreign(acc, xml_r(acc, g)),
{
    lemma_foreign_names();
    let a1 = acc.push(XmlOutV::Start("RecorderAttributes"@));
    lemma_ext_push(acc, XmlOutV::Start("RecorderAttributes"@));
    let a2 = el_opt(a1, "RecorderID"@, g.recorder_id);
    lemma_ext_el_any(a1, "RecorderID"@, a2);
    lemma_ext_trans(acc, a1, a2);
    let a3 = el_opt(a2, "Description"@, g.recorder_description);
    lemma_ext_el_any(a2, "Description"@, a3);
    lemma_ext_trans(acc, a2, a3);
    let a4 = xml_channels(a3, g.channels);
    lemma_ext_channels(a3, g.channels);
    lemma_ext_trans(acc, a3, a4);
    let a5 = el_bool(a4, "IndexEnabled"@, g.index_enabled);
    lemma_ext_el_any(a4, "IndexEnabled"@, a5);
    lemma_ext_trans(acc, a4, a5);
    lemma_ext_push(a5, XmlOutV::End("RecorderAttributes"@));
    lemma_ext_trans(acc, a5, a5.push(XmlOutV::End("RecorderAttributes"@)));
}

proof fn lemma_ext_m(acc: Seq<XmlOutV>, g: MGroupV)
    ensures
        extends_foreign(acc, xml_m(acc, g)),
{
    lemma_foreign_names();
    let a1 = acc.push(XmlOutV::Start("MultiplexAttributes"@));
    lemma_ext_push(acc, XmlOutV::Start("MultiplexAttributes"@));
    let a2 = el_opt(a1, "BasebandSignalType"@, g.baseband_signal_type);
    lemma_ext_el_any(a1, "BasebandSignalType"@, a2);
    lemma_ext_trans(acc, a1, a2);
    lemma_ext_push(a2, XmlOutV::End("MultiplexAttributes"@));
    lemma_ext_trans(acc, a2, a2.push(XmlOutV::End("MultiplexAttributes"@)));
}

proof fn lemma_ext_p(acc: Seq<XmlOutV>, g: PGroupV)
    ensures
        extends_foreign(acc, xml_p(acc, g)),
{
    lemma_foreign_names();
    let a1 = acc.push(XmlOutV::Start("PCMFormatAttributes"@));
    lemma_ext_push(acc, XmlOutV::Start("PCMFormatAttributes"@));
    let a2 = el_opt(a1, "DataLinkName"@, g.data_link_name);
    lemma_ext_el_any(a1, "DataLinkName"@, a2);
    lemma_ext_trans(acc, a1, a2);
    let a3 = el_opt(a2, "BitRate"@, g.bit_rate);
    lemma_ext_el_any(a2, "BitRate"@, a3);
    lemma_ext_trans(acc, a2, a3);
    let a4 = el_exp(a3, "Encoding"@, g.encoding);
    lemma_ext_el_any(a3, "Encoding"@, a4);
    lemma_ext_trans(acc, a3, a4);
    let a5 = el_exp(a4, "Polarity"@, g.polarity);
    lemma_ext_el_any(a4, "Polarity"@, a5);
    lemma_ext_trans(acc, a4, a5);
    let a6 = el_u32(a5, "WordsPerFrame"@, g.num_words_per_frame);
    lemma_ext_el_any(a5, "WordsPerFrame"@, a6);
    lemma_ext_trans(acc, a5, a6);
    let a7 = el_u32(a6, "BitsPerWord"@, g.num_bits_per_word);
    lemma_ext_el_any(a6, "BitsPerWord"@, a7);
    lemma_ext_trans(acc, a6, a7);
    let a8 = el_opt(a7, "SyncPattern"@, g.sync_pattern);
    lemma_ext_el_any(a7, "SyncPattern"@, a8);
    lemma_ext_trans(acc, a7, a8);
    let a9 = el_u32(a8, "SyncPatternLength"@, g.sync_pattern_length);
    lemma_ext_el_any(a8, "SyncPatternLength"@, a9);
    lemma_ext_trans(acc, a8, a9);
    lemma_ext_push(a9, XmlOutV::End("PCMFormatAttributes"@));
    lemma_ext_trans(acc, a9, a9.push(XmlOutV::End("PCMFormatAttributes"@)));
}

proof fn lemma_ext_d(acc: Seq<XmlOutV>, g: DGroupV)
    ensures
        extends_foreign(acc, xml_d(acc, g)),
{
    lemma_foreign_names();
    let a1 = acc.push(XmlOutV::Start("PCMMeasurementDescription"@));
    lemma_ext_push(acc, XmlOutV::Start("PCMMeasurementDescription"@));
    let a2 = el_opt(a1, "MeasurementListName"@, g.measurement_list_name);
    lemma_ext_el_any(a1, "MeasurementListName"@, a2);
    lemma_ext_trans(acc, a1, a2);
    let a3 = el_opt(a2, "DataLinkName"@, g.data_link_name);
    lemma_ext_el_any(a2, "DataLinkName"@, a3);
    lemma_ext_trans(acc, a2, a3);
    lemma_ext_push(a3, XmlOutV::End("PCMMeasurementDescription"@));
    lemma_ext_trans(acc, a3, a3.push(XmlOutV::End("PCMMeasurementDescription"@)));
}

proof fn lemma_ext_b(acc: Seq<XmlOutV>, g: BGroupV)
    ensures
        extends_foreign(acc, xml_b(acc, g)),
{
    lemma_foreign_names();
    let a1 = acc.push(XmlOutV::Start("BusDataAttributes"@));
    lemma_ext_push(acc, XmlOutV::Start("BusDataAttributes"@));
    let a2 = el_opt(a1, "DataLinkName"@, g.data_link_name);
    lemma_ext_el_any(a1, "DataLinkName"@, a2);
    lemma_ext_trans(acc, a1, a2);
    let a3 = el_exp(a2, "BusType"@, g.bus_type);
    lemma_ext_el_any(a2, "BusType"@, a3);
    lemma_ext_trans(acc, a2, a3);
    lemma_ext_push(a3, XmlOutV::End("BusDataAttributes"@));
    lemma_ext_trans(acc, a3, a3.push(XmlOutV::End("BusDataAttributes"@)));
}

proof fn lemma_ext_s(acc: Seq<XmlOutV>, g: SGroupV)
    ensures
        extends_foreign(acc, xml_s(acc, g)),
{
    lemma_foreign_names();
    let a1 = acc.push(XmlOutV::Start("MessageDataAttributes"@));
    lemma_ext_push(acc, XmlOutV::Start("MessageDataAttributes"@));
    let a2 = el_opt(a1, "DataLinkName"@, g.data_link_name);
    lemma_ext_el_any(a1, "DataLinkName"@, a2);
    lemma_ext_trans(acc, a1, a2);
    lemma_ext_push(a2, XmlOutV::End("MessageDataAttributes"@));
    lemma_ext_trans(acc, a2, a2.push(XmlOutV::End("MessageDataAttributes"@)));
}

proof fn lemma_ext_c(acc: Seq<XmlOutV>, g: CGroupV)
    ensures
        extends_foreign(acc, xml_c(acc, g)),
{
    lemma_foreign_names();
    let a1 = acc.push(XmlOutV::Start("DataConversionAttributes"@));
    lemma_ext_push(acc, XmlOutV::Start("DataConversionAttributes"@));
    let a2 = el_opt(a1, "MeasurementName"@, g.measurement_name);
    lemma_ext_el_any(a1, "MeasurementName"@, a2);
    lemma_ext_trans(acc, a1, a2);
    let a3 = el_exp(a2, "ConversionType"@, g.conversion_type);
    lemma_ext_el_any(a2, "ConversionType"@, a3);
    lemma_ext_trans(acc, a2, a3);
    let a4 = el_opt(a3, "EngineeringUnits"@, g.eu_units);
    lemma_ext_el_any(a3, "EngineeringUnits"@, a4);
    lemma_ext_trans(acc, a3, a4);
    lemma_ext_push(a4, XmlOutV::End("DataConversionAttributes"@));
    lemma_ext_trans(acc, a4, a4.push(XmlOutV::End("DataConversionAttributes"@)));
}

proof fn lemma_ext_channels(acc: Seq<XmlOutV>, m: Seq<(u32, RChannelV)>)
    ensures
        extends_foreign(acc, xml_channels(acc, m)),
    decreases m.len(),
{
    if m.len() == 0 {
        lemma_ext_refl(acc);
    } else {
        let a = xml_channels(acc, m.drop_last());
        lemma_ext_channels(acc, m.drop_last());
        lemma_ext_channel(a, m.last().1);
        lemma_ext_trans(acc, a, xml_channels(acc, m));
    }
}

proof fn lemma_ext_t_all(acc: Seq<XmlOutV>, m: Seq<(u32, TGroupV)>)
    ensures
        extends_foreign(acc, xml_t_all(acc, m)),
    decreases m.len(),
{
    if m.len() == 0 {
        lemma_ext_refl(acc);
    } else {
        let a = xml_t_all(acc, m.drop_last());
        lemma_ext_t_all(acc, m.drop_last());
        lemma_ext_t(a, m.last().1);
        lemma_ext_trans(acc, a, xml_t_all(acc, m));
    }
}

proof fn lemma_ext_r_all(acc: Seq<XmlOutV>, m: Seq<(u32, RGroupV)>)
    ensures
        extends_foreign(acc, xml_r_all(acc, m)),
    decreases m.len(),
{
    if m.len() == 0 {
        lemma_ext_refl(acc);
    } else {
        let a = xml_r_all(acc, m.drop_last());
        lemma_ext_r_all(acc, m.drop_last());
        lemma_ext_r(a, m.last().1);
        lemma_ext_trans(acc, a, xml_r_all(acc, m));
    }
}

proof fn lemma_ext_m_all(acc: Seq<XmlOutV>, m: Seq<(u32, MGroupV)>)
    ensures
        extends_foreign(acc, xml_m_all(acc, m)),
    decreases m.len(),
{
    if m.len() == 0 {
        lemma_ext_refl(acc);
    } else {
        let a = xml_m_all(acc, m.drop_last());
        lemma_ext_m_all(acc, m.drop_last());
        lemma_ext_m(a, m.last().1);
        lemma_ext_trans(acc, a, xml_m_all(acc, m));
    }
}

proof fn lemma_ext_p_all(acc: Seq<XmlOutV>, m: Seq<(u32, PGroupV)>)
    ensures
        extends_foreign(acc, xml_p_all(acc, m)),
    decreases m.len(),
{
    if m.len() == 0 {
        lemma_ext_refl(acc);
    } else {
        let a = xml_p_all(acc, m.drop_last());
        lemma_ext_p_all(acc, m.drop_last());
        lemma_ext_p(a, m.last().1);
        lemma_ext_trans(acc, a, xml_p_all(acc, m));
    }
}

proof fn lemma_ext_d_all(acc: Seq<XmlOutV>, m: Seq<(u32, DGroupV)>)
    ensures
        extends_foreign(acc, xml_d_all(acc, m)),
    decreases m.len(),
{
    if m.len() == 0 {
        lemma_ext_refl(acc);
    } else {
        let a = xml_d_all(acc, m.drop_last());
        lemma_ext_d_all(acc, m.drop_last());
        lemma_ext_d(a, m.last().1);
        lemma_ext_trans(acc, a, xml_d_all(acc, m));
    }
}

proof fn lemma_ext_b_all(acc: Seq<XmlOutV>, m: Seq<(u32, BGroupV)>)
    ensures
        extends_foreign(acc, xml_b_all(acc, m)),
    decreases m.len(),
{
    if m.len() == 0 {
        lemma_ext_refl(acc);
    } else {
        let a = xml_b_all(acc, m.drop_last());
        lemma_ext_b_all(acc, m.drop_last());
        lemma_ext_b(a, m.last().1);
        lemma_ext_trans(acc, a, xml_b_all(acc, m));
    }
}

proof fn lemma_ext_s_all(acc: Seq<XmlOutV>, m: Seq<(u32, SGroupV)>)
    ensures
        extends_foreign(acc, xml_s_all(acc, m)),
    decreases m.len(),
{
    if m.len() == 0 {
        lemma_ext_refl(acc);
    } else {
        let a = xml_s_all(acc, m.drop_last());
        lemma_ext_s_all(acc, m.drop_last());
        lemma_ext_s(a, m.last().1);
        lemma_ext_trans(acc, a, xml_s_all(acc, m));
    }
}

proof fn lemma_ext_c_all(acc: Seq<XmlOutV>, m: Seq<(u32, CGroupV)>)
    ensures
        extends_foreign(acc, xml_c_all(acc, m)),
    decreases m.len(),
{
    if m.len() == 0 {
        lemma_ext_refl(acc);
    } else {
        let a = xml_c_all(acc, m.drop_last());
        lemma_ext_c_all(acc, m.drop_last());
        lemma_ext_c(a, m.last().1);
        lemma_ext_trans(acc, a, xml_c_all(acc, m));
    }
}

/// The G group's events, after the declaration and the root's start tag.
pub open spec fn g_part(d: TmatsDocumentV) -> Seq<XmlOutV> {
    xml_g(seq![XmlOutV::Decl, XmlOutV::Start("Tmats"@)], d.general)
}

proof fn lemma_ext_rest(d: TmatsDocumentV)
    ensures
        extends_foreign(g_part(d), xml_doc_events(d)),
{
    let a0 = g_part(d);
    let a1 = xml_t_all(a0, d.transmission);
    lemma_ext_t_all(a0, d.transmission);
    let a2 = xml_r_all(a1, d.recorders);
    lemma_ext_r_all(a1, d.recorders);
    lemma_ext_trans(a0, a1, a2);
    let a3 = xml_m_all(a2, d.multiplex);
    lemma_ext_m_all(a2, d.multiplex);
    lemma_ext_trans(a0, a2, a3);
    let a4 = xml_p_all(a3, d.pcm_formats);
    lemma_ext_p_all(a3, d.pcm_formats);
    lemma_ext_trans(a0, a3, a4);
    let a5 = xml_d_all(a4, d.pcm_measurements);
    lemma_ext_d_all(a4, d.pcm_measurements);
    lemma_ext_trans(a0, a4, a5);
    let a6 = xml_b_all(a5, d.bus_data);
    lemma_ext_b_all(a5, d.bus_data);
    lemma_ext_trans(a0, a5, a6);
    let a7 = xml_s_all(a6, d.message_data);
    lemma_ext_s_all(a6, d.message_data);
    lemma_ext_trans(a0, a6, a7);
    let a8 = xml_c_all(a7, d.data_conversion);
    lemma_ext_c_all(a7, d.data_conversion);
    lemma_ext_trans(a0, a7, a8);
    lemma_ext_push(a8, XmlOutV::End("Tmats"@));
    lemma_ext_trans(a0, a8, a8.push(XmlOutV::End("Tmats"@)));
}

/// No open element is one the reader routes into the G group, and no data
/// source is being assembled.
pub open spec fn outside_g(s: XmlReadV) -> bool {
    &&& forall|i: int| 0 <= i < s.path.len() ==> foreign(#[trigger] s.path[i])
    &&& s.ds is None
}

/// Closing an element routed to a G field: only that field (and the
/// version, for the 106 field) changes.
proof fn lemma_apply_general(s: XmlReadV, k: EndKind, t: Seq<char>)
    requires
        is_general(k),
    ensures
        end_apply(s, k, t) == (XmlReadV {
            doc: TmatsDocumentV {
                general: end_general(s.doc.general, k, t),
                source_version: if k == EndKind::Irig106Version {
                    crate::types_bridge::Irig106Version::spec_from_g106(t)
                } else {
                    s.doc.source_version
                },
                ..s.doc
            },
            ..s
        }),
{
    reveal(end_apply);
}

/// Closing any other element: the G group's text fields and the version
/// stay; only data-source elements touch the data source being assembled
/// or the G group's data sources, and closing a data source leaves none open.
proof fn lemma_apply_other(s: XmlReadV, k: EndKind, t: Seq<char>)
    requires
        !is_general(k),
    ensures
        g_texts(end_apply(s, k, t).doc.general) == g_texts(s.doc.general),
        end_apply(s, k, t).doc.source_version == s.doc.source_version,
        end_apply(s, k, t).path == s.path,
        k == EndKind::DataSourceDone ==> end_apply(s, k, t).ds is None,
        !(k == EndKind::DataSourceId || k == EndKind::DataSourceType || k == EndKind::Classification
            || k == EndKind::DataSourceDone) ==> end_apply(s, k, t).ds == s.ds
            && end_apply(s, k, t).doc.general == s.doc.general,
        (k == EndKind::DataSourceDone && s.ds is None) ==> end_apply(s, k, t) == s,
{
    reveal(end_apply);
}

proof fn lemma_end_kind_parent(p: Option<Seq<char>>, n: Seq<char>)
    ensures
        is_general(end_kind(p, n)) ==> p == Some("GeneralInformation"@),
        (end_kind(p, n) == EndKind::DataSourceId || end_kind(p, n) == EndKind::DataSourceType
            || end_kind(p, n) == EndKind::Classification) ==> p == Some("DataSource"@),
{
}

proof fn lemma_foreign_step(s: XmlReadV, e: XmlEventV)
    requires
        outside_g(s),
        e matches XmlEventV::Start(n) ==> foreign(n),
    ensures
        outside_g(xml_step(s, e)),
        xml_step(s, e).doc.general == s.doc.general,
        xml_step(s, e).doc.source_version == s.doc.source_version,
{
    if let XmlEventV::End(n) = e {
        let p = parent_of(s.path);
        lemma_end_kind_parent(p, n);
        if s.path.len() >= 2 {
            assert(foreign(s.path[s.path.len() - 2]));
        } else if s.path.len() == 1 {
            assert(foreign(s.path[0]));
        }
        lemma_apply_other(s, end_kind(p, n), trim(s.text));
        let r = xml_step(s, e);
        assert forall|i: int| 0 <= i < r.path.len() implies foreign(#[trigger] r.path[i]) by {
            assert(r.path[i] == s.path[i]);
        }
    }
    if let XmlEventV::Start(n) = e {
        let r = xml_step(s, e);
        assert forall|i: int| 0 <= i < r.path.len() implies foreign(#[trigger] r.path[i]) by {
            if i < s.path.len() {
                assert(r.path[i] == s.path[i]);
            }
        }
    }
}

proof fn lemma_foreign_run(s: XmlReadV, es: Seq<XmlOutV>)
    requires
        outside_g(s),
        forall|i: int| 0 <= i < es.len() ==> start_foreign(#[trigger] es[i]),
    ensures
        outside_g(run_from(s, read_back_all(es))),
        run_from(s, read_back_all(es)).doc.general == s.doc.general,
        run_from(s, read_back_all(es)).doc.source_version == s.doc.source_version,
    decreases es.len(),
{
    if es.len() > 0 {
        let rest = es.drop_last();
        assert(read_back_all(es).drop_last() =~= read_back_all(rest));
        assert forall|i: int| 0 <= i < rest.len() implies start_foreign(#[trigger] rest[i]) by {
            assert(rest[i] == es[i]);
        }
        lemma_foreign_run(s, rest);
        assert(start_foreign(es[es.len() - 1]));
        lemma_foreign_step(run_from(s, read_back_all(rest)), read_back(es.last()));
    }
}

/// `Some` of the trimmed text, or `None`.
pub open spec fn trim_opt(o: Option<Seq<char>>) -> Option<Seq<char>> {
    match o {
        Some(v) => Some(trim(v)),
        None => None,
    }
}

/// The G group's text fields that the law speaks of.
pub open spec fn g_texts(g: GGroupV) -> (Option<Seq<char>>, Option<Seq<char>>, Option<Seq<char>>, Option<Seq<char>>) {
    (g.program_name, g.irig106_version, g.revision_number, g.test_number)
}

proof fn lemma_g_kinds()
    ensures
        end_kind(Some("GeneralInformation"@), "ProgramName"@) == EndKind::ProgramName,
        end_kind(Some("GeneralInformation"@), "Irig106Version"@) == EndKind::Irig106Version,
        end_kind(Some("GeneralInformation"@), "OriginationDate"@) == EndKind::OriginationDate,
        end_kind(Some("GeneralInformation"@), "RevisionNumber"@) == EndKind::RevisionNumber,
        end_kind(Some("GeneralInformation"@), "RevisionDate"@) == EndKind::RevisionDate,
        end_kind(Some("GeneralInformation"@), "TestNumber"@) == EndKind::TestNumber,
        end_kind(Some("GeneralInformation"@), "Comment"@) == EndKind::Comment,
        end_kind(Some("GeneralInformation"@), "DataSource"@) == EndKind::DataSourceDone,
        !is_general(end_kind(Some("DataSource"@), "DataSourceID"@)),
        !is_general(end_kind(Some("DataSource"@), "DataSourceType"@)),
        !is_general(end_kind(Some("DataSource"@), "Classification"@)),
        foreign("Tmats"@),
        "Tmats"@ != "GeneralInformation"@,
        "GeneralInformation"@ != "DataSource"@,
{
    reveal_strlit("GeneralInformation");
    reveal_strlit("DataSource");
    reveal_strlit("Tmats");
    reveal_strlit("ProgramName");
    reveal_strlit("Irig106Version");
    reveal_strlit("OriginationDate");
    reveal_strlit("RevisionNumber");
    reveal_strlit("RevisionDate");
    reveal_strlit("TestNumber");
    reveal_strlit("Comment");
    assert("ProgramName"@[0] != "Irig106Version"@[0]);
    assert("OriginationDate"@[0] != "ProgramName"@[0]);
    assert("RevisionNumber"@[0] != "ProgramName"@[0]);
    assert("RevisionNumber"@[8] != "RevisionDate"@[8]);
    assert("TestNumber"@ != "ProgramName"@);
    assert("Comment"@ != "ProgramName"@);
    assert("DataSource"@ != "ProgramName"@);
    assert("DataSource"@[0] != "TestNumber"@[0]);
    assert("DataSource"@ != "Comment"@);
    assert("Comment"@[0] != "ProgramName"@[0]);
    assert("Comment"@[0] != "Irig106Version"@[0]);
    assert("Comment"@[0] != "OriginationDate"@[0]);
    assert("Comment"@[0] != "RevisionNumber"@[0]);
    assert("Comment"@[0] != "RevisionDate"@[0]);
    assert("Comment"@[0] != "TestNumber"@[0]);
    assert("DataSource"@[0] != "ProgramName"@[0]);
    assert("DataSource"@[0] != "Irig106Version"@[0]);
    assert("DataSource"@[0] != "OriginationDate"@[0]);
    assert("DataSource"@[0] != "RevisionNumber"@[0]);
    assert("DataSource"@[0] != "RevisionDate"@[0]);
    assert("DataSource"@[0] != "TestNumber"@[0]);
    assert("DataSource"@[0] != "Comment"@[0]);
    assert("Tmats"@[0] != "DataSource"@[0]);
    assert("Tmats"@[0] != "GeneralInformation"@[0]);
    assert("GeneralInformation"@[0] != "DataSource"@[0]);
}

/// One step of the reader closing an element `name` holding `v` opened in
/// the state `s`.
pub open spec fn close_in(s: XmlReadV, name: Seq<char>, v: Seq<char>) -> XmlReadV {
    let inner = XmlReadV { path: s.path.push(name), text: v, ..s };
    XmlReadV { path: s.path, text: Seq::empty(), ..end_apply(inner, end_kind(Some(s.path.last()), name), trim(v)) }
}

proof fn lemma_read_el(acc: Seq<XmlOutV>, name: Seq<char>, v: Seq<char>)
    requires
        read_state(acc).path.len() >= 1,
    ensures
        read_state(el(acc, name, v)) == close_in(read_state(acc), name, v),
{
    let s = read_state(acc);
    let a1 = acc.push(XmlOutV::Start(name));
    let a2 = a1.push(XmlOutV::Text(v));
    lemma_read_push(acc, XmlOutV::Start(name));
    lemma_read_push(a1, XmlOutV::Text(v));
    lemma_read_push(a2, XmlOutV::End(name));
    let s2 = read_state(a2);
    assert(Seq::<char>::empty() + v =~= v);
    assert(s2 == XmlReadV { path: s.path.push(name), text: v, ..s });
    assert(parent_of(s.path.push(name)) == Some(s.path.last()));
    assert(s.path.push(name).drop_last() =~= s.path);
}

/// Inside `GeneralInformation`: an element whose closing the reader routes
/// to a G field sets that field (and the version, for the 106 field).
proof fn lemma_read_g_field(acc: Seq<XmlOutV>, name: Seq<char>, v: Seq<char>)
    requires
        read_state(acc).path.len() == 2,
        read_state(acc).path[1] == "GeneralInformation"@,
        is_general(end_kind(Some("GeneralInformation"@), name)),
    ensures
        ({
            let s = read_state(acc);
            let r = read_state(el(acc, name, v));
            let k = end_kind(Some("GeneralInformation"@), name);
            &&& r.path == s.path
            &&& r.ds == s.ds
            &&& r.doc.general == end_general(s.doc.general, k, trim(v))
            &&& r.doc.source_version == (if k == EndKind::Irig106Version {
                crate::types_bridge::Irig106Version::spec_from_g106(trim(v))
            } else {
                s.doc.source_version
            })
        }),
{
    lemma_read_el(acc, name, v);
    let s = read_state(acc);
    lemma_apply_general(XmlReadV { path: s.path.push(name), text: v, ..s }, end_kind(Some("GeneralInformation"@), name), trim(v));
}

/// An element whose closing the reader does not route to a G field leaves
/// the G group's text fields and the version alone.
proof fn lemma_read_other(acc: Seq<XmlOutV>, name: Seq<char>, v: Seq<char>)
    requires
        read_state(acc).path.len() >= 1,
        !is_general(end_kind(Some(read_state(acc).path.last()), name)),
    ensures
        ({
            let s = read_state(acc);
            let r = read_state(el(acc, name, v));
            &&& r.path == s.path
            &&& g_texts(r.doc.general) == g_texts(s.doc.general)
            &&& r.doc.source_version == s.doc.source_version
        }),
{
    lemma_read_el(acc, name, v);
    let s = read_state(acc);
    lemma_apply_other(XmlReadV { path: s.path.push(name), text: v, ..s }, end_kind(Some(s.path.last()), name), trim(v));
}

proof fn lemma_read_other_opt(acc: Seq<XmlOutV>, name: Seq<char>, r: Seq<XmlOutV>)
    requires
        read_state(acc).path.len() >= 1,
        !is_general(end_kind(Some(read_state(acc).path.last()), name)),
        r == acc || exists|v: Seq<char>| r == el(acc, name, v),
    ensures
        read_state(r).path == read_state(acc).path,
        g_texts(read_state(r).doc.general) == g_texts(read_state(acc).doc.general),
        read_state(r).doc.source_version == read_state(acc).doc.source_version,
{
    if r != acc {
        let v = choose|v: Seq<char>| r == el(acc, name, v);
        lemma_read_other(acc, name, v);
    }
}

proof fn lemma_read_ds(acc: Seq<XmlOutV>, x: DataSourceDeclV)
    requires
        read_state(acc).path.len() == 2,
        read_state(acc).path[1] == "GeneralInformation"@,
        read_state(acc).ds is None,
    ensures
        read_state(xml_ds(acc, x)).path == read_state(acc).path,
        read_state(xml_ds(acc, x)).ds is None,
        g_texts(read_state(xml_ds(acc, x)).doc.general) == g_texts(read_state(acc).doc.general),
        read_state(xml_ds(acc, x)).doc.source_version == read_state(acc).doc.source_version,
{
    lemma_g_kinds();
    let s = read_state(acc);
    let a1 = acc.push(XmlOutV::Start("DataSource"@));
    lemma_read_push(acc, XmlOutV::Start("DataSource"@));
    assert(read_state(a1).path.last() == "DataSource"@);
    let a2 = el_opt(a1, "DataSourceID"@, x.data_source_id);
    lemma_read_other_opt(a1, "DataSourceID"@, a2);
    let a3 = el_exp(a2, "DataSourceType"@, x.data_source_type);
    lemma_read_other_opt(a2, "DataSourceType"@, a3);
    let a4 = el_exp(a3, "Classification"@, x.classification);
    lemma_read_other_opt(a3, "Classification"@, a4);
    let s4 = read_state(a4);
    assert(s4.path == s.path.push("DataSource"@));
    lemma_read_push(a4, XmlOutV::End("DataSource"@));
    assert(parent_of(s4.path) == Some("GeneralInformation"@));
    lemma_apply_other(s4, EndKind::DataSourceDone, trim(s4.text));
    assert(s4.path.drop_last() =~= s.path);
}

proof fn lemma_read_ds_all(acc: Seq<XmlOutV>, m: Seq<(u32, DataSourceDeclV)>)
    requires
        read_state(acc).path.len() == 2,
        read_state(acc).path[1] == "GeneralInformation"@,
        read_state(acc).ds is None,
    ensures
        read_state(xml_ds_all(acc, m)).path == read_state(acc).path,
        read_state(xml_ds_all(acc, m)).ds is None,
        g_texts(read_state(xml_ds_all(acc, m)).doc.general) == g_texts(read_state(acc).doc.general),
        read_state(xml_ds_all(acc, m)).doc.source_version == read_state(acc).doc.source_version,
    decreases m.len(),
{
    if m.len() > 0 {
        lemma_read_ds_all(acc, m.drop_last());
        lemma_read_ds(xml_ds_all(acc, m.drop_last()), m.last().1);
    }
}

proof fn lemma_read_comments(acc: Seq<XmlOutV>, cs: Seq<Seq<char>>)
    requires
        read_state(acc).path.len() == 2,
        read_state(acc).path[1] == "GeneralInformation"@,
    ensures
        read_state(xml_comments(acc, cs)).path == read_state(acc).path,
        read_state(xml_comments(acc, cs)).ds == read_state(acc).ds,
        g_texts(read_state(xml_comments(acc, cs)).doc.general) == g_texts(read_state(acc).doc.general),
        read_state(xml_comments(acc, cs)).doc.source_version == read_state(acc).doc.source_version,
    decreases cs.len(),
{
    if cs.len() > 0 {
        lemma_g_kinds();
        lemma_read_comments(acc, cs.drop_last());
        lemma_read_g_field(xml_comments(acc, cs.drop_last()), "Comment"@, cs.last());
    }
}

proof fn lemma_read_g_date(acc: Seq<XmlOutV>, name: Seq<char>, o: Option<crate::model::TmatsDate>)
    requires
        read_state(acc).path.len() == 2,
        read_state(acc).path[1] == "GeneralInformation"@,
        end_kind(Some("GeneralInformation"@), name) == EndKind::OriginationDate
            || end_kind(Some("GeneralInformation"@), name) == EndKind::RevisionDate,
    ensures
        read_state(el_date(acc, name, o)).path == read_state(acc).path,
        read_state(el_date(acc, name, o)).ds == read_state(acc).ds,
        g_texts(read_state(el_date(acc, name, o)).doc.general) == g_texts(read_state(acc).doc.general),
        read_state(el_date(acc, name, o)).doc.source_version == read_state(acc).doc.source_version,
{
    if let Some(x) = o {
        lemma_read_g_field(acc, name, crate::xml::xml_date_text(x));
    }
}

proof fn lemma_read_g_text(acc: Seq<XmlOutV>, name: Seq<char>, o: Option<Seq<char>>)
    requires
        read_state(acc).path.len() == 2,
        read_state(acc).path[1] == "GeneralInformation"@,
        is_general(end_kind(Some("GeneralInformation"@), name)),
    ensures
        ({
            let s = read_state(acc);
            let r = read_state(el_opt(acc, name, o));
            let k = end_kind(Some("GeneralInformation"@), name);
            &&& r.path == s.path
            &&& r.ds == s.ds
            &&& r.doc.general == (match o {
                Some(v) => end_general(s.doc.general, k, trim(v)),
                None => s.doc.general,
            })
            &&& r.doc.source_version == (match o {
                Some(v) => if k == EndKind::Irig106Version {
                    crate::types_bridge::Irig106Version::spec_from_g106(trim(v))
                } else {
                    s.doc.source_version
                },
                None => s.doc.source_version,
            })
        }),
{
    if let Some(v) = o {
        lemma_read_g_field(acc, name, v);
    }
}

/// The reader's state after the declaration, the root's start tag and the
/// G group: back at the root, no data source open, the G group's text
/// fields set to the written values, trimmed.
proof fn lemma_read_g(d: TmatsDocumentV)
    ensures
        ({
            let s = read_state(g_part(d));
            let g = d.general;
            &&& s.path == seq!["Tmats"@]
            &&& s.ds is None
            &&& g_texts(s.doc.general) == (trim_opt(g.program_name), trim_opt(g.irig106_version),
                trim_opt(g.revision_number), trim_opt(g.test_number))
        }),
{
    lemma_g_kinds();
    let g = d.general;
    let e = Seq::<XmlOutV>::empty();
    assert(read_back_all(e) =~= Seq::<XmlEventV>::empty());
    let a0 = seq![XmlOutV::Decl, XmlOutV::Start("Tmats"@)];
    assert(a0 =~= e.push(XmlOutV::Decl).push(XmlOutV::Start("Tmats"@)));
    lemma_read_push(e, XmlOutV::Decl);
    lemma_read_push(e.push(XmlOutV::Decl), XmlOutV::Start("Tmats"@));
    let gi = "GeneralInformation"@;
    let b0 = a0.push(XmlOutV::Start(gi));
    lemma_read_push(a0, XmlOutV::Start(gi));
    let s0 = read_state(b0);
    assert(s0.path =~= seq!["Tmats"@, gi]);
    assert(s0.ds is None);
    assert(g_texts(s0.doc.general) == (None::<Seq<char>>, None::<Seq<char>>, None::<Seq<char>>, None::<Seq<char>>));
    let b1 = el_opt(b0, "ProgramName"@, g.program_name);
    lemma_read_g_text(b0, "ProgramName"@, g.program_name);
    let b2 = el_opt(b1, "Irig106Version"@, g.irig106_version);
    lemma_read_g_text(b1, "Irig106Version"@, g.irig106_version);
    let b3 = el_date(b2, "OriginationDate"@, g.origination_date);
    lemma_read_g_date(b2, "OriginationDate"@, g.origination_date);
    let b4 = el_opt(b3, "RevisionNumber"@, g.revision_number);
    lemma_read_g_text(b3, "RevisionNumber"@, g.revision_number);
    let b5 = el_date(b4, "RevisionDate"@, g.revision_date);
    lemma_read_g_date(b4, "RevisionDate"@, g.revision_date);
    let b6 = el_opt(b5, "TestNumber"@, g.test_number);
    lemma_read_g_text(b5, "TestNumber"@, g.test_number);
    let b7 = xml_ds_all(b6, g.data_sources);
    lemma_read_ds_all(b6, g.data_sources);
    let b8 = xml_comments(b7, g.comments);
    lemma_read_comments(b7, g.comments);
    let s8 = read_state(b8);
    assert(g_texts(s8.doc.general) == (trim_opt(g.program_name), trim_opt(g.irig106_version),
        trim_opt(g.revision_number), trim_opt(g.test_number)));
    lemma_read_push(b8, XmlOutV::End(gi));
    assert(parent_of(s8.path) == Some("Tmats"@));
    lemma_end_kind_parent(Some("Tmats"@), gi);
    lemma_apply_other(s8, end_kind(Some("Tmats"@), gi), trim(s8.text));
    assert(b8.push(XmlOutV::End(gi)) == g_part(d));
    assert(s8.path.drop_last() =~= seq!["Tmats"@]);
}

/// The XML events of a document, read back by the XML reader's state
/// machine, give back the G group's program name, IRIG 106 version,
/// revision number and test number, each trimmed of surrounding whitespace.
pub proof fn law_xml_events_read_back_general(d: TmatsDocumentV)
    ensures
        ({
            let r = xml_document(read_back_all(xml_doc_events(d))).general;
            &&& r.program_name == trim_opt(d.general.program_name)
            &&& r.irig106_version == trim_opt(d.general.irig106_version)
            &&& r.revision_number == trim_opt(d.general.revision_number)
            &&& r.test_number == trim_opt(d.general.test_number)
        }),
{
    let es = xml_doc_events(d);
    let gp = g_part(d);
    lemma_read_g(d);
    lemma_ext_rest(d);
    let rest = es.skip(gp.len() as int);
    assert(es =~= gp + rest);
    assert(read_back_all(gp + rest) =~= read_back_all(gp) + read_back_all(rest));
    lemma_run_split(read_back_all(gp), read_back_all(rest));
    let s = read_state(gp);
    lemma_g_kinds();
    assert(outside_g(s));
    assert forall|i: int| 0 <= i < rest.len() implies start_foreign(#[trigger] rest[i]) by {
        assert(rest[i] == es[i + gp.len()]);
    }
    lemma_foreign_run(s, rest);
}

} // verus!
