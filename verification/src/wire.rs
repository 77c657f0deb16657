//! The raw fields of a protocol buffer message, as `protobuf_core` reads them.
use protobuf_core::{AsRefExtProtobuf, FieldValue};
use vstd::prelude::*;

verus! {

/// The value of one raw field, without interpretation.
#[derive(Debug)]
pub enum WireValue {
    /// A varint, as the unsigned 64-bit number that it encodes.
    Varint(u64),
    /// A 32-bit fixed-width value, its bytes in wire order.
    I32([u8; 4]),
    /// A 64-bit fixed-width value, its bytes in wire order.
    I64([u8; 8]),
    /// A length-delimited payload.
    Len(Vec<u8>),
    /// A start-group tag.
    StartGroup,
    /// An end-group tag.
    EndGroup,
}

/// One raw field: its number and its value.
#[derive(Debug)]
pub struct WireField {
    pub field_number: u32,
    pub value: WireValue,
}

pub enum SpecWireValue {
    Varint(u64),
    I32([u8; 4]),
    I64([u8; 8]),
    Len(Seq<u8>),
    StartGroup,
    EndGroup,
}

pub struct SpecWireField {
    pub field_number: u32,
    pub value: SpecWireValue,
}

impl View for WireValue {
    type V = SpecWireValue;

    open spec fn view(&self) -> SpecWireValue {
        match self {
            WireValue::Varint(v) => SpecWireValue::Varint(*v),
            WireValue::I32(b) => SpecWireValue::I32(*b),
            WireValue::I64(b) => SpecWireValue::I64(*b),
            WireValue::Len(p) => SpecWireValue::Len(p@),
            WireValue::StartGroup => SpecWireValue::StartGroup,
            WireValue::EndGroup => SpecWireValue::EndGroup,
        }
    }
}

impl View for WireField {
    type V = SpecWireField;

    open spec fn view(&self) -> SpecWireField {
        SpecWireField { field_number: self.field_number, value: self.value@ }
    }
}

pub open spec fn fields_view(v: Seq<WireField>) -> Seq<SpecWireField> {
    v.map_values(|f: WireField| f@)
}

/// The fields that `protobuf_core` reads from `bytes`, in order, or the text of
/// the error at which it stops.
pub uninterp spec fn protobuf_fields(bytes: Seq<u8>) -> Result<Seq<SpecWireField>, Seq<char>>;

/// The length of a length-delimited payload; other values have none.
pub open spec fn payload_len(v: SpecWireValue) -> nat {
    match v {
        SpecWireValue::Len(p) => p.len(),
        _ => 0,
    }
}

/// One more than the length of the longest payload among `fs`; zero for no fields.
pub open spec fn payload_bound(fs: Seq<SpecWireField>) -> nat
    decreases fs.len(),
{
    if fs.len() == 0 {
        0
    } else {
        let rest = payload_bound(fs.drop_last());
        let here = payload_len(fs.last().value) + 1;
        if here > rest {
            here
        } else {
            rest
        }
    }
}

/// Every payload of `fs` is shorter than `bound`.
pub open spec fn payloads_shorter_than(fs: Seq<SpecWireField>, bound: nat) -> bool {
    forall|i: int| 0 <= i < fs.len() ==> payload_len((#[trigger] fs[i]).value) < bound
}

pub proof fn lemma_payload_bound(fs: Seq<SpecWireField>, i: int)
    requires
        0 <= i < fs.len(),
    ensures
        payload_len(fs[i].value) < payload_bound(fs),
    decreases fs.len(),
{
    if i < fs.len() - 1 {
        lemma_payload_bound(fs.drop_last(), i);
    }
}

pub proof fn lemma_payload_bound_le(fs: Seq<SpecWireField>, bound: nat)
    requires
        payloads_shorter_than(fs, bound),
    ensures
        payload_bound(fs) <= bound,
    decreases fs.len(),
{
    if fs.len() > 0 {
        let init = fs.drop_last();
        assert(payloads_shorter_than(init, bound)) by {
            assert forall|i: int| 0 <= i < init.len() implies payload_len(
                (#[trigger] init[i]).value,
            ) < bound by {
                assert(init[i] == fs[i]);
            }
        }
        lemma_payload_bound_le(init, bound);
        assert(fs.last() == fs[fs.len() - 1]);
    }
}

/// Reads the raw fields of `bytes` with `protobuf_core`'s
/// `AsRefExtProtobuf::read_protobuf_fields`, collected until the first error.
///
/// Claimed of the outside code: the fields (or the error's text) are those that
/// [`protobuf_fields`] names for these bytes, and each length-delimited payload is
/// a part of `bytes` that its tag precedes, so it is shorter than `bytes`.
#[verifier::external_body]
pub(crate) fn read_fields(bytes: &[u8]) -> (r: Result<Vec<WireField>, String>)
    ensures
        match r {
            Ok(v) => protobuf_fields(bytes@) == Ok::<Seq<SpecWireField>, Seq<char>>(
                fields_view(v@),
            ),
            Err(e) => protobuf_fields(bytes@) == Err::<Seq<SpecWireField>, Seq<char>>(e@),
        },
        r matches Ok(v) ==> payloads_shorter_than(fields_view(v@), bytes@.len()),
{
    let mut out = Vec::new();
    for f in bytes.read_protobuf_fields() {
        let f = f.map_err(|e| e.to_string())?;
        let value = match f.value {
            FieldValue::Varint(v) => WireValue::Varint(v.to_uint64()),
            FieldValue::I32(b) => WireValue::I32(b),
            FieldValue::I64(b) => WireValue::I64(b),
            FieldValue::Len(p) => WireValue::Len(p.to_vec()),
            FieldValue::SGroup => WireValue::StartGroup,
            FieldValue::EGroup => WireValue::EndGroup,
        };
        out.push(WireField { field_number: f.field_number.as_u32(), value });
    }
    Ok(out)
}

/// A copy of `v`.
pub fn copy_wire_value(v: &WireValue) -> (r: WireValue)
    ensures
        r@ == v@,
{
    match v {
        WireValue::Varint(x) => WireValue::Varint(*x),
        WireValue::I32(b) => WireValue::I32(*b),
        WireValue::I64(b) => WireValue::I64(*b),
        WireValue::Len(p) => {
            let mut q: Vec<u8> = Vec::new();
            let n = p.len();
            let mut i: usize = 0;
            while i < n
                invariant
                    n == p@.len(),
                    i <= n,
                    q@ == p@.take(i as int),
                decreases n - i,
            {
                q.push(p[i]);
                i += 1;
                assert(q@ =~= p@.take(i as int));
            }
            assert(p@.take(n as int) =~= p@);
            WireValue::Len(q)
        },
        WireValue::StartGroup => WireValue::StartGroup,
        WireValue::EndGroup => WireValue::EndGroup,
    }
}

/// The signed number that a ZigZag-encoded varint stands for (protobuf `sint64`).
pub open spec fn zigzag_decode(v: u64) -> i64 {
    ((v >> 1u64) as i64) ^ (-((v & 1u64) as i64)) as i64
}

pub fn sint64_of(v: u64) -> (r: i64)
    ensures
        r == zigzag_decode(v),
{
    let half = (v >> 1u64) as i64;
    let low = (v & 1u64) as i64;
    assert(0 <= low <= 1) by (bit_vector)
        requires
            low == (v & 1u64) as i64,
    ;
    half ^ (-low)
}

} // verus!
