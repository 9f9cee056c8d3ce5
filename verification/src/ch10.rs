//! Chapter 10 Type 0x01 setup record payloads: the channel-specific data
//! word (CSDW) followed by the TMATS text.  This crate produces payloads,
//! not packets; framing is the writer's job.
use vstd::prelude::*;
use vstd::utf8::*;
use crate::error::{Ch10Error, TmatsError, ParseErrorV};
use crate::model::{TmatsDocument, TmatsDocumentV};
use crate::parse::{count_nl, ParseOptions, ParseMode, parse_with_options, parse_spec, parse_result_is, holds_parse_errors, code_name_spec};
use crate::serial::{Pairs, serialize_to_vec, serialized_text, default_serialize_options, doc_pairs, render, separator, lemma_doc_pairs_g_scalars};
use crate::round_trip::{pair_reads_back, pair_routes_to, law_parse_reads_back_g_group};
use crate::text::{push_str, push_dec, dec, upper};
use crate::types_bridge::Irig106Version;

verus! {

/// Size of the CSDW in bytes.
pub const CSDW_SIZE: usize = 4;

/// Type 0x01 Computer-Generated Data Format 1 (Setup Record) CSDW.
///
/// Layout (32 bits, little-endian): bits 0-7 the Chapter 10 version,
/// bit 8 the configuration-change flag, bits 9-31 reserved (zero).
#[derive(Debug, Clone, Copy, PartialEq, Eq, Structural)]
pub struct SetupRecordCsdw {
    /// IRIG 106 Chapter 10 version encoding.
    pub ch10_version: u8,
    /// Whether recorder configuration has changed.
    pub config_change: bool,
}

/// The CSDW that the first four bytes of `b` hold.
pub open spec fn csdw_of(b: Seq<u8>) -> SetupRecordCsdw {
    SetupRecordCsdw { ch10_version: b[0], config_change: b[1] & 1 == 1 }
}

/// The message of a too-short CSDW.
pub open spec fn short_csdw_message(n: nat) -> Seq<char> {
    "CSDW requires 4 bytes, got "@ + dec(n)
}

impl SetupRecordCsdw {
    /// The four bytes of a CSDW.
    pub open spec fn spec_encode(self) -> Seq<u8> {
        seq![self.ch10_version, if self.config_change { 1u8 } else { 0u8 }, 0u8, 0u8]
    }

    /// Decode a CSDW from the first 4 bytes of a payload buffer.
    pub fn decode(bytes: &[u8]) -> (r: Result<Self, Ch10Error>)
        ensures
            bytes@.len() >= 4 ==> r == Ok::<SetupRecordCsdw, Ch10Error>(csdw_of(bytes@)),
            bytes@.len() < 4 ==> (r matches Err(e) && e.message@ == short_csdw_message(bytes@.len())),
    {
        if bytes.len() < CSDW_SIZE {
            let mut m = String::new();
            push_str(&mut m, "CSDW requires 4 bytes, got ");
            push_dec(&mut m, bytes.len() as u64);
            return Err(Ch10Error { message: m });
        }
        Ok(SetupRecordCsdw { ch10_version: bytes[0], config_change: bytes[1] & 1 == 1 })
    }

    /// Encode the CSDW as 4 little-endian bytes, reserved bits zero.
    pub fn encode(&self) -> (r: [u8; 4])
        ensures
            r@ == self.spec_encode(),
    {
        let flag: u8 = if self.config_change { 1 } else { 0 };
        let r = [self.ch10_version, flag, 0u8, 0u8];
        assert(r@ =~= self.spec_encode());
        r
    }

    /// The IRIG 106 version that the CSDW version field names; none before 106-07.
    pub fn irig_version(&self) -> (r: Option<Irig106Version>)
        ensures
            r == Irig106Version::spec_from_csdw(self.ch10_version),
    {
        Irig106Version::from_csdw_version(self.ch10_version)
    }

    /// Create a CSDW from an `Irig106Version`.
    pub fn from_version(version: Irig106Version, config_change: bool) -> (r: Self)
        ensures
            r.ch10_version == version.spec_to_csdw(),
            r.config_change == config_change,
    {
        SetupRecordCsdw { ch10_version: version.to_csdw_version(), config_change }
    }
}

/// Complete setup record payload: the CSDW and the serialized TMATS bytes.
#[derive(Debug, Clone)]
pub struct SetupRecordPayload {
    /// The CSDW for this setup record.
    pub csdw: SetupRecordCsdw,
    /// Serialized TMATS bytes (ASCII or XML).
    pub tmats_bytes: Vec<u8>,
}

impl SetupRecordPayload {
    /// Total payload size (CSDW + TMATS data).
    pub fn total_len(&self) -> (r: usize)
        requires
            self.tmats_bytes@.len() + 4 <= usize::MAX,
        ensures
            r == self.tmats_bytes@.len() + 4,
    {
        CSDW_SIZE + self.tmats_bytes.len()
    }

    /// The complete payload: the CSDW bytes, then the TMATS bytes.
    pub fn to_bytes(&self) -> (r: Vec<u8>)
        ensures
            r@ == self.csdw.spec_encode() + self.tmats_bytes@,
    {
        let head = self.csdw.encode();
        let mut out: Vec<u8> = Vec::new();
        out.push(head[0]);
        out.push(head[1]);
        out.push(head[2]);
        out.push(head[3]);
        assert(out@ =~= self.csdw.spec_encode());
        let n = self.tmats_bytes.len();
        for i in 0..n
            invariant
                n == self.tmats_bytes@.len(),
                out@ == self.csdw.spec_encode() + self.tmats_bytes@.take(i as int),
        {
            out.push(self.tmats_bytes[i]);
            assert(out@ =~= self.csdw.spec_encode() + self.tmats_bytes@.take(i + 1));
        }
        assert(self.tmats_bytes@.take(n as int) =~= self.tmats_bytes@);
        out
    }
}

/// Payload encoding format.
#[derive(Debug, Clone, Copy, PartialEq, Eq, Structural)]
pub enum PayloadEncoding {
    Ascii,
    Xml,
}

/// The parse options for the TMATS of a payload whose CSDW is `c`: the
/// defaults, with the version that the CSDW names as target.
pub open spec fn payload_parse_options(c: SetupRecordCsdw) -> ParseOptions {
    ParseOptions {
        mode: ParseMode::Strict,
        target_version: Irig106Version::spec_from_csdw(c.ch10_version),
        max_attributes: 100_000,
        max_value_size: 1_048_576,
    }
}

/// Decode a Ch10 Type 0x01 setup record payload into its CSDW and document.
pub fn decode_setup_payload(payload: &[u8]) -> (r: Result<(SetupRecordCsdw, TmatsDocument), TmatsError>)
    requires
        count_nl(payload@) < u32::MAX,
    ensures
        payload@.len() < 4 ==> (r matches Err(TmatsError::Ch10(e)) && e.message@ == short_csdw_message(payload@.len())),
        payload@.len() == 4 ==> (r matches Err(TmatsError::Ch10(e))
            && e.message@ == "setup record payload contains only CSDW, no TMATS data"@),
        payload@.len() > 4 ==> match parse_spec(payload@.skip(4), payload_parse_options(csdw_of(payload@))) {
            Ok(d) => r matches Ok(p) && p.0 == csdw_of(payload@) && p.1@ == d,
            Err(es) => r matches Err(TmatsError::Parse(e)) && e@ == es[0],
        },
{
    let csdw = match SetupRecordCsdw::decode(payload) {
        Ok(c) => c,
        Err(e) => return Err(TmatsError::Ch10(e)),
    };
    if payload.len() <= CSDW_SIZE {
        let mut m = String::new();
        push_str(&mut m, "setup record payload contains only CSDW, no TMATS data");
        return Err(TmatsError::Ch10(Ch10Error { message: m }));
    }
    let tmats = vstd::slice::slice_subrange(payload, CSDW_SIZE, payload.len());
    assert(tmats@ =~= payload@.skip(4));
    proof {
        crate::parse::lemma_count_nl_split(payload@, 4, payload@.len() as int);
        assert(payload@.take(payload@.len() as int) =~= payload@);
        assert(payload@.subrange(4, payload@.len() as int) =~= payload@.skip(4));
    }
    let mut opts = ParseOptions::default();
    if let Some(ver) = csdw.irig_version() {
        opts.target_version = Some(ver);
    }
    assert(opts == payload_parse_options(csdw));
    match parse_with_options(tmats, &opts) {
        Ok(doc) => Ok((csdw, doc)),
        Err(errs) => {
            let mut errs = errs;
            if errs.errors.len() > 0 {
                proof {
                    let es = match parse_spec(payload@.skip(4), opts) {
                        Err(es) => es,
                        Ok(_) => Seq::empty(),
                    };
                    assert(errs.errors@[0] matches TmatsError::Parse(e) && e@ == es[0]);
                }
                let first = errs.errors.remove(0);
                Err(first)
            } else {
                let mut m = String::new();
                push_str(&mut m, "TMATS parse failed");
                Err(TmatsError::Ch10(Ch10Error { message: m }))
            }
        },
    }
}

/// Encode a document into a setup record payload: the CSDW and the
/// document serialized with the default options.
pub fn encode_setup_payload(doc: &TmatsDocument, csdw: &SetupRecordCsdw) -> (r: Result<SetupRecordPayload, TmatsError>)
    ensures
        r matches Ok(p) && p.csdw == *csdw
            && p.tmats_bytes@ == encode_utf8(serialized_text(doc@, default_serialize_options())),
{
    match serialize_to_vec(doc) {
        Ok(tmats_bytes) => Ok(SetupRecordPayload { csdw: *csdw, tmats_bytes }),
        Err(e) => Err(TmatsError::Serialize(e)),
    }
}

/// Whether two byte vectors hold the same bytes.
fn bytes_equal(a: &Vec<u8>, b: &Vec<u8>) -> (r: bool)
    ensures
        r == (a@ == b@),
{
    if a.len() != b.len() {
        return false;
    }
    let n = a.len();
    for i in 0..n
        invariant
            n == a@.len(),
            n == b@.len(),
            forall|j: int| 0 <= j < i ==> a@[j] == b@[j],
    {
        if a[i] != b[i] {
            return false;
        }
    }
    assert(a@ =~= b@);
    true
}

/// Whether the configuration changed: whether the two documents serialize
/// to different text.
pub fn detect_config_change(prev: &TmatsDocument, curr: &TmatsDocument) -> (r: Result<bool, TmatsError>)
    ensures
        r == Ok::<bool, TmatsError>(serialized_text(prev@, default_serialize_options())
            != serialized_text(curr@, default_serialize_options())),
{
    let a = match serialize_to_vec(prev) {
        Ok(b) => b,
        Err(e) => return Err(TmatsError::Serialize(e)),
    };
    let b = match serialize_to_vec(curr) {
        Ok(b) => b,
        Err(e) => return Err(TmatsError::Serialize(e)),
    };
    proof {
        let ta = serialized_text(prev@, default_serialize_options());
        let tb = serialized_text(curr@, default_serialize_options());
        encode_utf8_decode_utf8(ta);
        encode_utf8_decode_utf8(tb);
    }
    Ok(!bytes_equal(&a, &b))
}

// ─── Laws ───────────────────────────────────────────────────────────────────

/// A CSDW survives encoding and decoding.
pub proof fn law_csdw_round_trip(c: SetupRecordCsdw)
    ensures
        csdw_of(c.spec_encode()) == c,
        c.spec_encode().len() == 4,
{
    assert(1u8 & 1 == 1) by (bit_vector);
    assert(0u8 & 1 == 0) by (bit_vector);
}

/// Encoding a decoded CSDW keeps its version byte and configuration bit and
/// clears every reserved bit.
pub proof fn law_csdw_reserved_bits_cleared(b: Seq<u8>)
    requires
        b.len() >= 4,
    ensures
        csdw_of(b).spec_encode()[0] == b[0],
        csdw_of(b).spec_encode()[1] == b[1] & 1,
        csdw_of(b).spec_encode()[2] == 0,
        csdw_of(b).spec_encode()[3] == 0,
{
    let x = b[1];
    assert(x & 1 == 1 || x & 1 == 0) by (bit_vector);
}

/// A payload's bytes begin with the CSDW that decoding reads back.
pub proof fn law_payload_csdw_round_trip(p: SetupRecordPayload)
    ensures
        csdw_of(p.csdw.spec_encode() + p.tmats_bytes@) == p.csdw,
        (p.csdw.spec_encode() + p.tmats_bytes@).skip(4) == p.tmats_bytes@,
{
    law_csdw_round_trip(p.csdw);
    assert((p.csdw.spec_encode() + p.tmats_bytes@).skip(4) =~= p.tmats_bytes@);
}

/// Two documents with the same content show no configuration change: their
/// serialized texts are the same, so `detect_config_change` answers `false`.
pub proof fn law_no_change_between_equal_documents(a: TmatsDocumentV, b: TmatsDocumentV)
    requires
        a == b,
    ensures
        serialized_text(a, default_serialize_options()) == serialized_text(b, default_serialize_options()),
{
}

/// The bytes of written attributes are not empty when there are attributes.
proof fn lemma_written_bytes_nonempty(p: Pairs, sep: Seq<char>)
    requires
        p.len() > 0,
    ensures
        encode_utf8(render(p, sep)).len() > 0,
{
    let t = render(p, sep);
    assert(t.len() > 0);
    assert(encode_utf8(t) == encode_scalar(t[0] as u32) + encode_utf8(t.drop_first()));
}

/// Decoding an encoded setup record payload gives back its CSDW, and the
/// document parsed from its TMATS bytes has the program name, IRIG 106
/// version and test number of the encoded document, whenever the document has
/// a program name and its serialized attributes read back as
/// `law_parse_reads_back_g_group` asks.
pub proof fn law_payload_reads_back_g_group(d: TmatsDocumentV, c: SetupRecordCsdw)
    requires
        d.general.program_name is Some,
        ({
            let p = doc_pairs(d, default_serialize_options().emit_comments);
            &&& p.len() <= 100_000
            &&& forall|i: int| 0 <= i < p.len() ==> pair_reads_back(#[trigger] p[i], 1_048_576)
            &&& forall|i: int| 0 <= i < p.len() ==> code_name_spec(#[trigger] p[i].0) is Some
            &&& forall|i: int, j: int| 0 <= i < j < p.len() ==> upper(#[trigger] p[i].0) != upper(#[trigger] p[j].0)
            &&& forall|i: int| 0 <= i < p.len() && pair_routes_to(#[trigger] p[i], "PN"@) ==> d.general.program_name == Some(p[i].1)
            &&& forall|i: int| 0 <= i < p.len() && pair_routes_to(#[trigger] p[i], "106"@) ==> d.general.irig106_version == Some(p[i].1)
            &&& forall|i: int| 0 <= i < p.len() && pair_routes_to(#[trigger] p[i], "TN"@) ==> d.general.test_number == Some(p[i].1)
        }),
    ensures
        ({
            let b = c.spec_encode() + encode_utf8(serialized_text(d, default_serialize_options()));
            &&& b.len() > 4
            &&& csdw_of(b) == c
            &&& parse_spec(b.skip(4), payload_parse_options(csdw_of(b))) matches Ok(r)
                && r.general.program_name == d.general.program_name
                && r.general.irig106_version == d.general.irig106_version
                && r.general.test_number == d.general.test_number
        }),
{
    let opts = default_serialize_options();
    let text = encode_utf8(serialized_text(d, opts));
    let b = c.spec_encode() + text;
    law_csdw_round_trip(c);
    assert(csdw_of(b) == csdw_of(c.spec_encode()));
    assert(b.skip(4) =~= text);
    lemma_doc_pairs_g_scalars(d, opts.emit_comments);
    let p = doc_pairs(d, opts.emit_comments);
    assert(p.len() > 0);
    lemma_written_bytes_nonempty(p, separator(opts));
    law_parse_reads_back_g_group(d, opts);
}

} // verus!
