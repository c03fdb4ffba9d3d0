//! Properties of the table format and of loading, proved over the spec.
use crate::bytes::le_at;
use crate::error::VersionlibError;
use crate::format::{
    decode_field, decode_header, decode_record, decode_records, decode_table, field_value,
    field_width, forward_of, id_mode, is_scaled, name_len_field, offset_mode, reverse_of,
    table_view, DecodedTable, TableView, FORMAT_VERSION,
};
use crate::resolver::{is_load_step, FileRead};
use crate::table::{is_load_result, VersionlibData};
use vstd::prelude::*;
use vstd::wrapping::u64_specs::wrapping_mul;

verus! {

proof fn lemma_forward_last_write(records: Seq<(u64, u64)>, i: int)
    requires
        0 <= i < records.len(),
        forall|j: int| i < j < records.len() ==> records[j].0 != records[i].0,
    ensures
        forward_of(records).contains_key(records[i].0),
        forward_of(records)[records[i].0] == records[i].1,
    decreases records.len(),
{
    if i < records.len() - 1 {
        let init = records.drop_last();
        assert(forall|j: int| i < j < init.len() ==> init[j] == records[j]);
        lemma_forward_last_write(init, i);
    }
}

proof fn lemma_reverse_last_write(records: Seq<(u64, u64)>, i: int)
    requires
        0 <= i < records.len(),
        forall|j: int| i < j < records.len() ==> records[j].1 != records[i].1,
    ensures
        reverse_of(records).contains_key(records[i].1),
        reverse_of(records)[records[i].1] == records[i].0,
    decreases records.len(),
{
    if i < records.len() - 1 {
        let init = records.drop_last();
        assert(forall|j: int| i < j < init.len() ==> init[j] == records[j]);
        lemma_reverse_last_write(init, i);
    }
}

/// Each decoded record can be looked up in both directions: its identifier
/// maps to its offset unless a later record reuses the identifier, and its
/// offset maps back to its identifier unless a later record reuses the offset.
pub proof fn lemma_round_trip(b: Seq<u8>, i: int)
    requires
        decode_table(b) is Ok,
        0 <= i < decode_table(b)->Ok_0.records.len(),
    ensures
        ({
            let t = decode_table(b)->Ok_0;
            let (id, off) = t.records[i];
            &&& (forall|j: int| i < j < t.records.len() ==> t.records[j].0 != id) ==> {
                &&& table_view(t).forward.contains_key(id)
                &&& table_view(t).forward[id] == off
            }
            &&& (forall|j: int| i < j < t.records.len() ==> t.records[j].1 != off) ==> {
                &&& table_view(t).reverse.contains_key(off)
                &&& table_view(t).reverse[off] == id
            }
        }),
{
    let t = decode_table(b)->Ok_0;
    if forall|j: int| i < j < t.records.len() ==> t.records[j].0 != t.records[i].0 {
        lemma_forward_last_write(t.records, i);
    }
    if forall|j: int| i < j < t.records.len() ==> t.records[j].1 != t.records[i].1 {
        lemma_reverse_last_write(t.records, i);
    }
}

/// Input whose first four bytes are not the supported format tag is refused
/// with that tag, whatever follows it.
pub proof fn lemma_header_rejection(b: Seq<u8>)
    requires
        b.len() >= 4,
        le_at(b, 0, 4) != FORMAT_VERSION,
    ensures
        decode_table(b) == Err::<DecodedTable, VersionlibError>(
            VersionlibError::Format { format: le_at(b, 0, 4) as u32 },
        ),
{
}

proof fn lemma_le_at_prefix(b: Seq<u8>, k: int, pos: int, w: int)
    requires
        0 <= pos,
        0 <= w,
        pos + w <= k <= b.len(),
    ensures
        le_at(b.subrange(0, k), pos, w) == le_at(b, pos, w),
{
    assert(b.subrange(0, k).subrange(pos, pos + w) =~= b.subrange(pos, pos + w));
}

proof fn lemma_field_prefix(b: Seq<u8>, k: nat, pos: nat, mode: u8, prev: u64)
    requires
        pos <= k <= b.len(),
    ensures
        pos + field_width(mode) <= k ==> decode_field(b.subrange(0, k as int), pos, mode, prev)
            == decode_field(b, pos, mode, prev),
        pos + field_width(mode) > k ==> decode_field(b.subrange(0, k as int), pos, mode, prev)
            is None,
{
    if pos + field_width(mode) <= k {
        lemma_le_at_prefix(b, k as int, pos as int, field_width(mode) as int);
    }
}

proof fn lemma_record_prefix(
    b: Seq<u8>,
    k: nat,
    pos: nat,
    prev_id: u64,
    prev_off: u64,
    ptr: u32,
)
    requires
        pos <= k <= b.len(),
        decode_record(b, pos, prev_id, prev_off, ptr) is Ok,
    ensures
        ({
            let next = decode_record(b, pos, prev_id, prev_off, ptr)->Ok_0.2;
            let cut = decode_record(b.subrange(0, k as int), pos, prev_id, prev_off, ptr);
            &&& pos < next <= b.len()
            &&& k >= next ==> cut == decode_record(b, pos, prev_id, prev_off, ptr)
            &&& k < next ==> cut matches Err(VersionlibError::Read { .. })
        }),
{
    let c = b.subrange(0, k as int);
    if k > pos {
        let kind = b[pos as int];
        assert(c[pos as int] == kind);
        lemma_field_prefix(b, k, pos + 1, id_mode(kind), prev_id);
        let (id, p) = decode_field(b, pos + 1, id_mode(kind), prev_id)->Some_0;
        if p <= k {
            let base = if is_scaled(kind) {
                (prev_off / (ptr as u64)) as u64
            } else {
                prev_off
            };
            lemma_field_prefix(b, k, p, offset_mode(kind), base);
        }
    }
}

proof fn lemma_records_prefix(
    b: Seq<u8>,
    k: nat,
    pos: nat,
    n: nat,
    prev_id: u64,
    prev_off: u64,
    ptr: u32,
)
    requires
        pos <= k <= b.len(),
        decode_records(b, pos, n, prev_id, prev_off, ptr) is Ok,
    ensures
        ({
            let end = decode_records(b, pos, n, prev_id, prev_off, ptr)->Ok_0.1;
            let cut = decode_records(b.subrange(0, k as int), pos, n, prev_id, prev_off, ptr);
            &&& pos <= end <= b.len()
            &&& k < end ==> cut matches Err(VersionlibError::Read { .. })
        }),
    decreases n,
{
    if n > 0 {
        lemma_record_prefix(b, k, pos, prev_id, prev_off, ptr);
        let (id, off, p) = decode_record(b, pos, prev_id, prev_off, ptr)->Ok_0;
        if p <= k {
            lemma_records_prefix(b, k, p, (n - 1) as nat, id, off, ptr);
        } else {
            lemma_records_prefix(b, p, p, (n - 1) as nat, id, off, ptr);
        }
    }
}

proof fn lemma_header_prefix(b: Seq<u8>, k: nat)
    requires
        decode_header(b) is Ok,
        decode_header(b)->Ok_0.records_start <= k <= b.len(),
    ensures
        decode_header(b.subrange(0, k as int)) == decode_header(b),
{
    let c = b.subrange(0, k as int);
    let n = name_len_field(b);
    lemma_le_at_prefix(b, k as int, 0, 4);
    lemma_le_at_prefix(b, k as int, 4, 4);
    lemma_le_at_prefix(b, k as int, 8, 4);
    lemma_le_at_prefix(b, k as int, 12, 4);
    lemma_le_at_prefix(b, k as int, 16, 4);
    lemma_le_at_prefix(b, k as int, 20, 4);
    lemma_le_at_prefix(b, k as int, 24 + n, 4);
    lemma_le_at_prefix(b, k as int, 28 + n, 4);
    assert(c.subrange(24, 24 + n) =~= b.subrange(24, 24 + n));
}

/// Cutting a loadable file short anywhere inside its records gives a
/// truncation error, never a table.
pub proof fn lemma_truncation(b: Seq<u8>, k: nat)
    requires
        decode_table(b) is Ok,
        decode_table(b)->Ok_0.records_start <= k < decode_table(b)->Ok_0.end,
    ensures
        decode_table(b.subrange(0, k as int)) matches Err(VersionlibError::Read { .. }),
{
    let h = decode_header(b)->Ok_0;
    lemma_records_prefix(b, b.len(), h.records_start, h.count as nat, 0, 0, h.pointer_size);
    lemma_header_prefix(b, k);
    lemma_records_prefix(b, k, h.records_start, h.count as nat, 0, 0, h.pointer_size);
}

/// Loading the same bytes twice gives the same outcome: tables with equal
/// contents, or the same error.
pub proof fn lemma_load_deterministic(
    b: Seq<u8>,
    r1: Result<VersionlibData, VersionlibError>,
    r2: Result<VersionlibData, VersionlibError>,
)
    requires
        is_load_result(b, r1),
        is_load_result(b, r2),
    ensures
        r1 is Ok <==> r2 is Ok,
        r1 matches Ok(t1) ==> (r2 matches Ok(t2) && t1@ == t2@),
        r1 is Err ==> r1 == r2,
{
}

/// In a scaled record the offset field counts in pointer-size units: it is
/// decoded against the previous offset divided by the pointer size, and the
/// value is then multiplied by the pointer size.
pub proof fn lemma_scaled_offset(b: Seq<u8>, pos: nat, prev_id: u64, prev_off: u64, ptr: u32)
    requires
        pos < b.len(),
        is_scaled(b[pos as int]),
        decode_record(b, pos, prev_id, prev_off, ptr) is Ok,
    ensures
        ({
            let (id, off, next) = decode_record(b, pos, prev_id, prev_off, ptr)->Ok_0;
            let mode = offset_mode(b[pos as int]);
            let field_start = next - field_width(mode);
            &&& ptr > 0
            &&& off == wrapping_mul(
                field_value(
                    mode,
                    (prev_off / (ptr as u64)) as u64,
                    le_at(b, field_start, field_width(mode) as int),
                ),
                ptr as u64,
            )
        }),
{
}

/// Resolving is memoized: once a load step has succeeded for a version, its
/// table stays; a later step for the same version changes nothing and needs no
/// file, and a later step for another version leaves that table as it was.
pub proof fn lemma_memoized(
    c0: Map<Seq<char>, TableView>,
    version: Seq<char>,
    read1: FileRead,
    c1: Map<Seq<char>, TableView>,
    r1: Result<(), VersionlibError>,
    other: Seq<char>,
    read2: FileRead,
    c2: Map<Seq<char>, TableView>,
    r2: Result<(), VersionlibError>,
)
    requires
        is_load_step(c0, version, read1, c1, r1),
        r1 is Ok,
        is_load_step(c1, other, read2, c2, r2),
    ensures
        c1.contains_key(version),
        c2.contains_key(version),
        c2[version] == c1[version],
        other == version ==> c2 == c1 && r2 is Ok,
{
}

} // verus!
