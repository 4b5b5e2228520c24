//! Structured binary encoding of the inventory payload carried by `Update`.
//!
//! The encoding is schema-evolution friendly: every record starts with a
//! field count, and every field is length-prefixed, so a reader that knows
//! only an older field set parses the fields it knows and skips the rest.
//! All integers are little-endian; text is UTF-8.
//!
//! Record layouts, in order:
//! - machine record: field count (at least 3), then an id field (4-byte
//!   integer), a display-name field (UTF-8 text), an is-online field (one
//!   byte, 0 or 1).
//! - worker-info record: field count (at least 2), then a worker-name field
//!   (UTF-8 text) and a machine-list field (4-byte machine count followed by
//!   the machine records).

use vstd::prelude::*;
use vstd::bytes::{
    lemma_auto_spec_u32_to_from_le_bytes, spec_u32_from_le_bytes, spec_u32_to_le_bytes,
    u32_from_le_bytes, u32_to_le_bytes,
};
use vstd::slice::{slice_index_get, slice_subrange, slice_to_vec};
use vstd::utf8::{decode_utf8, encode_utf8, valid_utf8};

use crate::inventory::{MachineInfo, MachineInfoView, WorkerInfo, WorkerInfoView};

verus! {

/// Number of fields of a machine record that this reader knows.
pub const MACHINE_FIELD_COUNT: u32 = 3;

/// Number of fields of a worker-info record that this reader knows.
pub const WORKER_INFO_FIELD_COUNT: u32 = 2;

// ---------------------------------------------------------------------------
// Specification of the encoding
// ---------------------------------------------------------------------------
/// A length-prefixed field: 4-byte length, then the content.
pub open spec fn spec_field(content: Seq<u8>) -> Seq<u8> {
    spec_u32_to_le_bytes(content.len() as u32) + content
}

/// The single byte standing for a boolean.
pub open spec fn spec_bool_byte(b: bool) -> u8 {
    if b {
        1
    } else {
        0
    }
}

/// The encoding of one machine record.
pub open spec fn spec_encode_machine(m: MachineInfoView) -> Seq<u8> {
    spec_u32_to_le_bytes(MACHINE_FIELD_COUNT) + spec_field(spec_u32_to_le_bytes(m.id))
        + spec_field(encode_utf8(m.display_name)) + spec_field(seq![spec_bool_byte(m.is_online)])
}

/// The concatenation of the encodings of a sequence of machine records.
pub open spec fn spec_encode_machine_seq(ms: Seq<MachineInfoView>) -> Seq<u8>
    decreases ms.len(),
{
    if ms.len() == 0 {
        Seq::empty()
    } else {
        spec_encode_machine(ms[0]) + spec_encode_machine_seq(ms.drop_first())
    }
}

/// The content of the machine-list field: machine count, then the records.
pub open spec fn spec_machine_list(ms: Seq<MachineInfoView>) -> Seq<u8> {
    spec_u32_to_le_bytes(ms.len() as u32) + spec_encode_machine_seq(ms)
}

/// The encoding of a full worker-info record.
pub open spec fn spec_encode_worker_info(info: WorkerInfoView) -> Seq<u8> {
    spec_u32_to_le_bytes(WORKER_INFO_FIELD_COUNT) + spec_field(encode_utf8(info.worker_name))
        + spec_field(spec_machine_list(info.machines))
}

/// Whether a machine record's variable-length parts fit the length fields.
pub open spec fn machine_encodable(m: MachineInfoView) -> bool {
    encode_utf8(m.display_name).len() <= u32::MAX
}

/// Whether a worker-info record's variable-length parts fit the length fields.
pub open spec fn worker_info_encodable(info: WorkerInfoView) -> bool {
    &&& encode_utf8(info.worker_name).len() <= u32::MAX
    &&& info.machines.len() <= u32::MAX
    &&& (forall|k: int|
        0 <= k < info.machines.len() ==> machine_encodable(#[trigger] info.machines[k]))
    &&& spec_machine_list(info.machines).len() <= u32::MAX
}

// ---------------------------------------------------------------------------
// Specification of the decoding
// ---------------------------------------------------------------------------
/// Read a 4-byte little-endian integer at `pos`.
pub open spec fn dec_u32(b: Seq<u8>, pos: int) -> Option<(u32, int)> {
    if 0 <= pos && pos + 4 <= b.len() {
        Some((spec_u32_from_le_bytes(b.subrange(pos, pos + 4)), pos + 4))
    } else {
        None
    }
}

/// Read a length-prefixed field at `pos`, yielding its content.
pub open spec fn dec_field(b: Seq<u8>, pos: int) -> Option<(Seq<u8>, int)> {
    match dec_u32(b, pos) {
        Some((n, p)) => if p + n <= b.len() {
            Some((b.subrange(p, p + n), p + n))
        } else {
            None
        },
        None => None,
    }
}

/// Skip `count` length-prefixed fields starting at `pos`.
pub open spec fn dec_skip_fields(b: Seq<u8>, pos: int, count: nat) -> Option<int>
    decreases count,
{
    if count == 0 {
        Some(pos)
    } else {
        match dec_field(b, pos) {
            Some((_, p)) => dec_skip_fields(b, p, (count - 1) as nat),
            None => None,
        }
    }
}

/// Read one machine record at `pos`, skipping fields this reader does not know.
pub open spec fn dec_machine(b: Seq<u8>, pos: int) -> Option<(MachineInfoView, int)> {
    match dec_u32(b, pos) {
        Some((nfields, p0)) => if nfields < MACHINE_FIELD_COUNT {
            None
        } else {
            match dec_field(b, p0) {
                Some((idc, p1)) => if idc.len() == 4 {
                    match dec_field(b, p1) {
                        Some((namec, p2)) => if valid_utf8(namec) {
                            match dec_field(b, p2) {
                                Some((bc, p3)) => if bc.len() == 1 && (bc[0] == 0 || bc[0] == 1) {
                                    match dec_skip_fields(
                                        b,
                                        p3,
                                        (nfields - MACHINE_FIELD_COUNT) as nat,
                                    ) {
                                        Some(p4) => Some(
                                            (
                                                MachineInfoView {
                                                    id: spec_u32_from_le_bytes(idc),
                                                    display_name: decode_utf8(namec),
                                                    is_online: bc[0] == 1,
                                                },
                                                p4,
                                            ),
                                        ),
                                        None => None,
                                    }
                                } else {
                                    None
                                },
                                None => None,
                            }
                        } else {
                            None
                        },
                        None => None,
                    }
                } else {
                    None
                },
                None => None,
            }
        },
        None => None,
    }
}

/// Read `count` machine records starting at `pos`.
pub open spec fn dec_machines(b: Seq<u8>, pos: int, count: nat) -> Option<
    (Seq<MachineInfoView>, int),
>
    decreases count,
{
    if count == 0 {
        Some((Seq::empty(), pos))
    } else {
        match dec_machine(b, pos) {
            Some((m, p)) => match dec_machines(b, p, (count - 1) as nat) {
                Some((ms, q)) => Some((seq![m] + ms, q)),
                None => None,
            },
            None => None,
        }
    }
}

/// Decode a full inventory payload. The payload must be consumed exactly.
pub open spec fn spec_decode_worker_info(b: Seq<u8>) -> Option<WorkerInfoView> {
    match dec_u32(b, 0) {
        Some((nfields, p0)) => if nfields < WORKER_INFO_FIELD_COUNT {
            None
        } else {
            match dec_field(b, p0) {
                Some((namec, p1)) => if valid_utf8(namec) {
                    match dec_field(b, p1) {
                        Some((listc, p2)) => match dec_skip_fields(
                            b,
                            p2,
                            (nfields - WORKER_INFO_FIELD_COUNT) as nat,
                        ) {
                            Some(p3) => if p3 == b.len() {
                                match dec_u32(listc, 0) {
                                    Some((count, q0)) => match dec_machines(
                                        listc,
                                        q0,
                                        count as nat,
                                    ) {
                                        Some((ms, q)) => if q == listc.len() {
                                            Some(
                                                WorkerInfoView {
                                                    worker_name: decode_utf8(namec),
                                                    machines: ms,
                                                },
                                            )
                                        } else {
                                            None
                                        },
                                        None => None,
                                    },
                                    None => None,
                                }
                            } else {
                                None
                            },
                            None => None,
                        },
                        None => None,
                    }
                } else {
                    None
                },
                None => None,
            }
        },
        None => None,
    }
}

// ---------------------------------------------------------------------------
// Executable encoding
// ---------------------------------------------------------------------------
/// Append the 4-byte little-endian form of `value`.
pub fn write_u32_little_endian(buf: &mut Vec<u8>, value: u32)
    ensures
        final(buf)@ == old(buf)@ + spec_u32_to_le_bytes(value),
{
    let mut b = u32_to_le_bytes(value);
    buf.append(&mut b);
}

/// Append a length-prefixed field holding `content`; fails when the content
/// does not fit the 4-byte length prefix, leaving `buf` unchanged.
fn write_field(buf: &mut Vec<u8>, content: &[u8]) -> (ok: bool)
    ensures
        ok ==> content@.len() <= u32::MAX && final(buf)@ == old(buf)@ + spec_field(content@),
        !ok ==> content@.len() > u32::MAX && final(buf)@ == old(buf)@,
{
    if content.len() > u32::MAX as usize {
        return false;
    }
    write_u32_little_endian(buf, content.len() as u32);
    buf.extend_from_slice(content);
    true
}

/// Append the encoding of one machine record; fails exactly when the record
/// is not encodable.
fn encode_machine_into(buf: &mut Vec<u8>, m: &MachineInfo) -> (ok: bool)
    ensures
        ok ==> machine_encodable(m@) && final(buf)@ == old(buf)@ + spec_encode_machine(m@),
        !ok ==> !machine_encodable(m@),
{
    proof {
        lemma_auto_spec_u32_to_from_le_bytes();
    }
    write_u32_little_endian(buf, MACHINE_FIELD_COUNT);
    let mut idc: Vec<u8> = Vec::new();
    write_u32_little_endian(&mut idc, m.id);
    let ok_id = write_field(buf, idc.as_slice());
    assert(ok_id);
    if !write_field(buf, m.display_name.as_str().as_bytes()) {
        return false;
    }
    let mut bc: Vec<u8> = Vec::new();
    bc.push(if m.is_online {
        1
    } else {
        0
    });
    let ok_b = write_field(buf, bc.as_slice());
    assert(ok_b);
    proof {
        assert(bc@ =~= seq![spec_bool_byte(m@.is_online)]);
        assert(final(buf)@ =~= old(buf)@ + spec_encode_machine(m@));
    }
    true
}

/// Append the encodings of all machines of `ms`; fails exactly when some
/// machine is not encodable.
fn encode_machines_into(buf: &mut Vec<u8>, ms: &Vec<MachineInfo>) -> (ok: bool)
    ensures
        ok ==> (forall|k: int|
            0 <= k < ms@.len() ==> machine_encodable(#[trigger] ms@[k]@)) && final(buf)@ == old(
            buf,
        )@ + spec_encode_machine_seq(ms@.map_values(|m: MachineInfo| m@)),
        !ok ==> exists|k: int| 0 <= k < ms@.len() && !machine_encodable(#[trigger] ms@[k]@),
{
    let ghost views = ms@.map_values(|m: MachineInfo| m@);
    let mut i: usize = 0;
    while i < ms.len()
        invariant
            i <= ms@.len(),
            views == ms@.map_values(|m: MachineInfo| m@),
            buf@ == old(buf)@ + spec_encode_machine_seq(views.take(i as int)),
            forall|k: int| 0 <= k < i ==> machine_encodable(#[trigger] ms@[k]@),
        decreases ms@.len() - i,
    {
        proof {
            lemma_encode_machine_seq_snoc(views, i as int);
        }
        if !encode_machine_into(buf, &ms[i]) {
            return false;
        }
        i = i + 1;
    }
    proof {
        assert(views.take(ms@.len() as int) =~= views);
    }
    true
}

/// The encoding of one machine sequence grows one record at a time.
proof fn lemma_encode_machine_seq_snoc(ms: Seq<MachineInfoView>, i: int)
    requires
        0 <= i < ms.len(),
    ensures
        spec_encode_machine_seq(ms.take(i + 1)) == spec_encode_machine_seq(ms.take(i))
            + spec_encode_machine(ms[i]),
    decreases i,
{
    if i == 0 {
        assert(ms.take(1).drop_first() =~= Seq::<MachineInfoView>::empty());
        assert(ms.take(0) =~= Seq::<MachineInfoView>::empty());
        assert(spec_encode_machine_seq(ms.take(1)) =~= spec_encode_machine_seq(ms.take(0))
            + spec_encode_machine(ms[0]));
    } else {
        lemma_encode_machine_seq_snoc(ms.drop_first(), i - 1);
        assert(ms.take(i + 1).drop_first() =~= ms.drop_first().take(i));
        assert(ms.take(i).drop_first() =~= ms.drop_first().take(i - 1));
        assert(spec_encode_machine_seq(ms.take(i + 1)) =~= spec_encode_machine_seq(ms.take(i))
            + spec_encode_machine(ms[i]));
    }
}

/// Encode a full inventory payload. `None` exactly when some variable-length
/// part does not fit a 4-byte length field.
pub fn encode_worker_info(info: &WorkerInfo) -> (r: Option<Vec<u8>>)
    ensures
        r is Some <==> worker_info_encodable(info@),
        r matches Some(v) ==> v@ == spec_encode_worker_info(info@),
{
    proof {
        lemma_auto_spec_u32_to_from_le_bytes();
    }
    let mut buf: Vec<u8> = Vec::new();
    write_u32_little_endian(&mut buf, WORKER_INFO_FIELD_COUNT);
    if !write_field(&mut buf, info.worker_name.as_str().as_bytes()) {
        return None;
    }
    if info.machines.len() > u32::MAX as usize {
        return None;
    }
    let mut list: Vec<u8> = Vec::new();
    write_u32_little_endian(&mut list, info.machines.len() as u32);
    if !encode_machines_into(&mut list, &info.machines) {
        proof {
            let k = choose|k: int|
                0 <= k < info.machines@.len() && !machine_encodable(info.machines@[k]@);
            assert(info@.machines[k] == info.machines@[k]@);
        }
        return None;
    }
    proof {
        assert(list@ =~= spec_machine_list(info@.machines));
    }
    if !write_field(&mut buf, list.as_slice()) {
        return None;
    }
    proof {
        assert(buf@ =~= spec_encode_worker_info(info@));
    }
    Some(buf)
}

// ---------------------------------------------------------------------------
// Executable decoding
// ---------------------------------------------------------------------------
/// Relies on `String::from_utf8`: it succeeds exactly on valid UTF-8 input
/// and returns the string the bytes encode.
#[verifier::external_body]
fn bytes_to_string(v: Vec<u8>) -> (r: Option<String>)
    ensures
        r is Some <==> valid_utf8(v@),
        r matches Some(s) ==> s@ == decode_utf8(v@),
{
    String::from_utf8(v).ok()
}

/// Read the 4-byte little-endian integer at the front of `buf`.
pub fn read_u32_little_endian(buf: &[u8]) -> (r: u32)
    requires
        buf@.len() >= 4,
    ensures
        r == spec_u32_from_le_bytes(buf@.subrange(0, 4)),
{
    let s = slice_subrange(buf, 0, 4);
    let r = u32_from_le_bytes(s);
    proof {
        assert(s@ =~= buf@.subrange(0, 4));
    }
    r
}

/// Read a 4-byte little-endian integer at `pos`.
pub(crate) fn take_u32(b: &[u8], pos: usize) -> (r: Option<(u32, usize)>)
    requires
        pos <= b@.len(),
    ensures
        match r {
            Some((v, p)) => dec_u32(b@, pos as int) == Some((v, p as int)) && p <= b@.len(),
            None => dec_u32(b@, pos as int) is None,
        },
{
    if b.len() - pos >= 4 {
        let s = slice_subrange(b, pos, pos + 4);
        let v = read_u32_little_endian(s);
        proof {
            assert(s@.subrange(0, 4) =~= b@.subrange(pos as int, pos as int + 4));
        }
        Some((v, pos + 4))
    } else {
        None
    }
}

/// Read a length-prefixed field at `pos`, yielding its content.
fn take_field<'a>(b: &'a [u8], pos: usize) -> (r: Option<(&'a [u8], usize)>)
    requires
        pos <= b@.len(),
    ensures
        match r {
            Some((c, p)) => dec_field(b@, pos as int) == Some((c@, p as int)) && p <= b@.len(),
            None => dec_field(b@, pos as int) is None,
        },
{
    match take_u32(b, pos) {
        Some((n, p)) => {
            let nu = n as usize;
            if b.len() - p >= nu {
                Some((slice_subrange(b, p, p + nu), p + nu))
            } else {
                None
            }
        },
        None => None,
    }
}

/// Skip `count` length-prefixed fields starting at `pos`.
fn skip_fields(b: &[u8], pos: usize, count: u32) -> (r: Option<usize>)
    requires
        pos <= b@.len(),
    ensures
        match r {
            Some(p) => dec_skip_fields(b@, pos as int, count as nat) == Some(p as int) && p
                <= b@.len(),
            None => dec_skip_fields(b@, pos as int, count as nat) is None,
        },
{
    let mut p = pos;
    let mut remaining = count;
    while remaining > 0
        invariant
            p <= b@.len(),
            dec_skip_fields(b@, pos as int, count as nat) == dec_skip_fields(
                b@,
                p as int,
                remaining as nat,
            ),
        decreases remaining,
    {
        match take_field(b, p) {
            Some((_, np)) => {
                p = np;
                remaining = remaining - 1;
            },
            None => {
                return None;
            },
        }
    }
    Some(p)
}

/// Read one machine record at `pos`, skipping fields this reader does not know.
fn parse_machine(b: &[u8], pos: usize) -> (r: Option<(MachineInfo, usize)>)
    requires
        pos <= b@.len(),
    ensures
        match r {
            Some((m, p)) => dec_machine(b@, pos as int) == Some((m@, p as int)) && p <= b@.len(),
            None => dec_machine(b@, pos as int) is None,
        },
{
    let (nfields, p0) = match take_u32(b, pos) {
        Some(x) => x,
        None => {
            return None;
        },
    };
    if nfields < MACHINE_FIELD_COUNT {
        return None;
    }
    let (idc, p1) = match take_field(b, p0) {
        Some(x) => x,
        None => {
            return None;
        },
    };
    if idc.len() != 4 {
        return None;
    }
    let id = u32_from_le_bytes(idc);
    let (namec, p2) = match take_field(b, p1) {
        Some(x) => x,
        None => {
            return None;
        },
    };
    let display_name = match bytes_to_string(slice_to_vec(namec)) {
        Some(s) => s,
        None => {
            return None;
        },
    };
    let (bc, p3) = match take_field(b, p2) {
        Some(x) => x,
        None => {
            return None;
        },
    };
    if bc.len() != 1 {
        return None;
    }
    let flag = *slice_index_get(bc, 0);
    if flag != 0 && flag != 1 {
        return None;
    }
    let p4 = match skip_fields(b, p3, nfields - MACHINE_FIELD_COUNT) {
        Some(x) => x,
        None => {
            return None;
        },
    };
    let m = MachineInfo { id, display_name, is_online: flag == 1 };
    proof {
        let spec_m = dec_machine(b@, pos as int)->Some_0.0;
        assert(m@ =~= spec_m);
    }
    Some((m, p4))
}

/// Read `count` machine records starting at `pos`.
fn parse_machines(b: &[u8], pos: usize, count: u32) -> (r: Option<(Vec<MachineInfo>, usize)>)
    requires
        pos <= b@.len(),
    ensures
        match r {
            Some((ms, p)) => dec_machines(b@, pos as int, count as nat) == Some(
                (ms@.map_values(|m: MachineInfo| m@), p as int),
            ) && p <= b@.len(),
            None => dec_machines(b@, pos as int, count as nat) is None,
        },
{
    let mut acc: Vec<MachineInfo> = Vec::new();
    let mut p = pos;
    let mut remaining = count;
    proof {
        assert(acc@.map_values(|m: MachineInfo| m@) =~= Seq::<MachineInfoView>::empty());
    }
    while remaining > 0
        invariant
            p <= b@.len(),
            (match dec_machines(b@, p as int, remaining as nat) {
                Some((ms, q)) => dec_machines(b@, pos as int, count as nat) == Some(
                    (acc@.map_values(|m: MachineInfo| m@) + ms, q),
                ),
                None => dec_machines(b@, pos as int, count as nat) is None,
            }),
        decreases remaining,
    {
        let ghost acc_views = acc@.map_values(|m: MachineInfo| m@);
        match parse_machine(b, p) {
            Some((m, np)) => {
                acc.push(m);
                proof {
                    assert(acc@.map_values(|m: MachineInfo| m@) =~= acc_views + seq![m@]);
                    if dec_machines(b@, np as int, (remaining - 1) as nat) is Some {
                        let msq = dec_machines(b@, np as int, (remaining - 1) as nat)->Some_0;
                        assert((acc_views + seq![m@]) + msq.0 =~= acc_views + (seq![m@] + msq.0));
                    }
                }
                p = np;
                remaining = remaining - 1;
            },
            None => {
                return None;
            },
        }
    }
    proof {
        assert(acc@.map_values(|m: MachineInfo| m@) + Seq::<MachineInfoView>::empty()
            =~= acc@.map_values(|m: MachineInfo| m@));
    }
    Some((acc, p))
}

/// Decode a full inventory payload; `None` exactly when the bytes are not a
/// well-formed worker-info record consuming the whole payload.
pub fn decode_worker_info(b: &[u8]) -> (r: Option<WorkerInfo>)
    ensures
        match r {
            Some(info) => spec_decode_worker_info(b@) == Some(info@),
            None => spec_decode_worker_info(b@) is None,
        },
{
    let (nfields, p0) = match take_u32(b, 0) {
        Some(x) => x,
        None => {
            return None;
        },
    };
    if nfields < WORKER_INFO_FIELD_COUNT {
        return None;
    }
    let (namec, p1) = match take_field(b, p0) {
        Some(x) => x,
        None => {
            return None;
        },
    };
    let worker_name = match bytes_to_string(slice_to_vec(namec)) {
        Some(s) => s,
        None => {
            return None;
        },
    };
    let (listc, p2) = match take_field(b, p1) {
        Some(x) => x,
        None => {
            return None;
        },
    };
    let p3 = match skip_fields(b, p2, nfields - WORKER_INFO_FIELD_COUNT) {
        Some(x) => x,
        None => {
            return None;
        },
    };
    if p3 != b.len() {
        return None;
    }
    let (count, q0) = match take_u32(listc, 0) {
        Some(x) => x,
        None => {
            return None;
        },
    };
    let (machines, q) = match parse_machines(listc, q0, count) {
        Some(x) => x,
        None => {
            return None;
        },
    };
    if q != listc.len() {
        return None;
    }
    let info = WorkerInfo { worker_name, machines };
    proof {
        let spec_info = spec_decode_worker_info(b@)->Some_0;
        assert(info@ =~= spec_info);
    }
    Some(info)
}

// ---------------------------------------------------------------------------
// Round trip
// ---------------------------------------------------------------------------
/// A 4-byte little-endian integer decodes to the value it encodes.
pub(crate) proof fn lemma_dec_u32_at(b: Seq<u8>, pos: int, v: u32)
    requires
        0 <= pos,
        pos + 4 <= b.len(),
        b.subrange(pos, pos + 4) == spec_u32_to_le_bytes(v),
    ensures
        dec_u32(b, pos) == Some((v, pos + 4)),
{
    lemma_auto_spec_u32_to_from_le_bytes();
    assert(spec_u32_to_le_bytes(v).len() == 4);
    assert(spec_u32_from_le_bytes(b.subrange(pos, pos + 4)) == v);
}

/// A length-prefixed field decodes to the content it was built from.
proof fn lemma_dec_field_at(b: Seq<u8>, pos: int, content: Seq<u8>)
    requires
        0 <= pos,
        content.len() <= u32::MAX,
        pos + 4 + content.len() <= b.len(),
        b.subrange(pos, pos + 4 + content.len()) == spec_field(content),
    ensures
        dec_field(b, pos) == Some((content, pos + 4 + content.len())),
{
    lemma_auto_spec_u32_to_from_le_bytes();
    let whole = 4 + content.len() as int;
    assert(spec_field(content).subrange(0, 4) =~= spec_u32_to_le_bytes(content.len() as u32));
    lemma_subrange_slice(b, pos, whole, 0, 4);
    lemma_dec_u32_at(b, pos, content.len() as u32);
    assert(spec_field(content).subrange(4, whole) =~= content);
    lemma_subrange_slice(b, pos, whole, 4, whole);
}

/// A window of `b` cut out in two steps equals the window cut out in one.
proof fn lemma_subrange_slice(b: Seq<u8>, pos: int, len: int, lo: int, hi: int)
    requires
        0 <= pos,
        0 <= lo <= hi <= len,
        pos + len <= b.len(),
    ensures
        b.subrange(pos, pos + len).subrange(lo, hi) == b.subrange(pos + lo, pos + hi),
{
    assert(b.subrange(pos, pos + len).subrange(lo, hi) =~= b.subrange(pos + lo, pos + hi));
}

/// A machine record decodes to the machine it encodes.
proof fn lemma_dec_machine_at(b: Seq<u8>, pos: int, m: MachineInfoView)
    requires
        0 <= pos,
        machine_encodable(m),
        pos + spec_encode_machine(m).len() <= b.len(),
        b.subrange(pos, pos + spec_encode_machine(m).len()) == spec_encode_machine(m),
    ensures
        dec_machine(b, pos) == Some((m, pos + spec_encode_machine(m).len())),
{
    lemma_auto_spec_u32_to_from_le_bytes();
    let enc = spec_encode_machine(m);
    let namec = encode_utf8(m.display_name);
    let idc = spec_u32_to_le_bytes(m.id);
    let boolc = seq![spec_bool_byte(m.is_online)];
    let r1 = 4int;
    let r2 = r1 + 4 + idc.len();
    let r3 = r2 + 4 + namec.len();
    let r4 = r3 + 4 + boolc.len();
    assert(r4 == enc.len());
    assert(enc.subrange(0, r1) =~= spec_u32_to_le_bytes(MACHINE_FIELD_COUNT));
    lemma_subrange_slice(b, pos, r4, 0, r1);
    lemma_dec_u32_at(b, pos, MACHINE_FIELD_COUNT);
    assert(enc.subrange(r1, r2) =~= spec_field(idc));
    lemma_subrange_slice(b, pos, r4, r1, r2);
    lemma_dec_field_at(b, pos + r1, idc);
    assert(enc.subrange(r2, r3) =~= spec_field(namec));
    lemma_subrange_slice(b, pos, r4, r2, r3);
    lemma_dec_field_at(b, pos + r2, namec);
    vstd::utf8::encode_utf8_valid_utf8(m.display_name);
    vstd::utf8::encode_utf8_decode_utf8(m.display_name);
    assert(enc.subrange(r3, r4) =~= spec_field(boolc));
    lemma_subrange_slice(b, pos, r4, r3, r4);
    lemma_dec_field_at(b, pos + r3, boolc);
    assert(dec_skip_fields(b, pos + r4, (MACHINE_FIELD_COUNT - MACHINE_FIELD_COUNT) as nat)
        == Some(pos + r4));
    let got = dec_machine(b, pos)->Some_0;
    assert(got.0 =~= m);
}

/// A sequence of machine records decodes to the machines it encodes.
proof fn lemma_dec_machine_seq_at(b: Seq<u8>, pos: int, ms: Seq<MachineInfoView>)
    requires
        0 <= pos,
        forall|k: int| 0 <= k < ms.len() ==> machine_encodable(#[trigger] ms[k]),
        pos + spec_encode_machine_seq(ms).len() <= b.len(),
        b.subrange(pos, pos + spec_encode_machine_seq(ms).len()) == spec_encode_machine_seq(ms),
    ensures
        dec_machines(b, pos, ms.len()) == Some((ms, pos + spec_encode_machine_seq(ms).len())),
    decreases ms.len(),
{
    if ms.len() == 0 {
        assert(dec_machines(b, pos, 0) == Some((Seq::<MachineInfoView>::empty(), pos)));
        assert(ms =~= Seq::<MachineInfoView>::empty());
    } else {
        let m0 = ms[0];
        let enc0 = spec_encode_machine(m0);
        let rest = spec_encode_machine_seq(ms.drop_first());
        let enc = spec_encode_machine_seq(ms);
        assert(enc.subrange(0, enc0.len() as int) =~= enc0);
        lemma_subrange_slice(b, pos, enc.len() as int, 0, enc0.len() as int);
        lemma_dec_machine_at(b, pos, m0);
        assert(enc.subrange(enc0.len() as int, enc.len() as int) =~= rest);
        lemma_subrange_slice(b, pos, enc.len() as int, enc0.len() as int, enc.len() as int);
        lemma_dec_machine_seq_at(b, pos + enc0.len(), ms.drop_first());
        assert(seq![m0] + ms.drop_first() =~= ms);
    }
}

/// Round trip of the inventory payload: decoding an encoded worker-info
/// record yields the record, whenever it is encodable at all.
pub proof fn lemma_worker_info_round_trip(info: WorkerInfoView)
    requires
        worker_info_encodable(info),
    ensures
        spec_decode_worker_info(spec_encode_worker_info(info)) == Some(info),
{
    lemma_auto_spec_u32_to_from_le_bytes();
    let b = spec_encode_worker_info(info);
    let namec = encode_utf8(info.worker_name);
    let listc = spec_machine_list(info.machines);
    let p0 = 4int;
    let p1 = p0 + 4 + namec.len();
    let p2 = p1 + 4 + listc.len();
    assert(b.subrange(0, 4) =~= spec_u32_to_le_bytes(WORKER_INFO_FIELD_COUNT));
    lemma_dec_u32_at(b, 0, WORKER_INFO_FIELD_COUNT);
    assert(b.subrange(p0, p1) =~= spec_field(namec));
    lemma_dec_field_at(b, p0, namec);
    vstd::utf8::encode_utf8_valid_utf8(info.worker_name);
    vstd::utf8::encode_utf8_decode_utf8(info.worker_name);
    assert(b.subrange(p1, p2) =~= spec_field(listc));
    lemma_dec_field_at(b, p1, listc);
    assert(dec_skip_fields(b, p2, (WORKER_INFO_FIELD_COUNT - WORKER_INFO_FIELD_COUNT) as nat)
        == Some(p2));
    assert(p2 == b.len());
    let count = info.machines.len() as u32;
    assert(listc.subrange(0, 4) =~= spec_u32_to_le_bytes(count));
    lemma_dec_u32_at(listc, 0, count);
    let encms = spec_encode_machine_seq(info.machines);
    assert(listc.subrange(4, 4 + encms.len() as int) =~= encms);
    lemma_dec_machine_seq_at(listc, 4, info.machines);
    assert(count as nat == info.machines.len());
    assert(4 + encms.len() == listc.len());
    let got = spec_decode_worker_info(b)->Some_0;
    assert(got =~= info);
}

} // verus!
