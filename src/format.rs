//! The address-table file format, stated as spec functions over the bytes.
//!
//! Layout (little-endian): format tag `u32`, version `u32 x 4`, name length
//! `i32`, name bytes, pointer size `u32`, record count `u32`, then the records.
//! Each record starts with a kind byte whose low nibble selects how the
//! identifier is encoded and whose high nibble selects how the offset is
//! encoded (bit 3 of the high nibble: scaled by the pointer size).
use crate::bytes::le_at;
use crate::error::{Field, VersionlibError};
use vstd::prelude::*;
use vstd::wrapping::u64_specs::{wrapping_add, wrapping_mul, wrapping_sub};

verus! {

/// The only format tag this decoder accepts.
pub const FORMAT_VERSION: u32 = 2;

/// Module names must be strictly shorter than this.
pub const NAME_LEN_LIMIT: i32 = 0x10000;

/// Number of bytes that a value field of encoding `mode` occupies.
pub open spec fn field_width(mode: u8) -> nat {
    if mode == 0 {
        8
    } else if mode == 1 {
        0
    } else if mode <= 3 {
        1
    } else if mode <= 6 {
        2
    } else {
        4
    }
}

/// Value of a field of encoding `mode`, given the running value `prev` and the
/// field's bytes read as the unsigned number `raw`.
pub open spec fn field_value(mode: u8, prev: u64, raw: nat) -> u64 {
    if mode == 1 {
        wrapping_add(prev, 1)
    } else if mode == 2 || mode == 4 {
        wrapping_add(prev, raw as u64)
    } else if mode == 3 || mode == 5 {
        wrapping_sub(prev, raw as u64)
    } else {
        raw as u64
    }
}

/// Decodes a value field of encoding `mode` at `pos`: its value and the
/// position after it, or `None` if the input ends inside the field.
pub open spec fn decode_field(b: Seq<u8>, pos: nat, mode: u8, prev: u64) -> Option<(u64, nat)> {
    if pos + field_width(mode) <= b.len() {
        Some(
            (
                field_value(mode, prev, le_at(b, pos as int, field_width(mode) as int)),
                pos + field_width(mode),
            ),
        )
    } else {
        None
    }
}

/// Encoding of the identifier: the low nibble of the kind byte.
pub open spec fn id_mode(kind: u8) -> u8 {
    (kind % 16) as u8
}

/// Encoding of the offset: the low three bits of the high nibble.
pub open spec fn offset_mode(kind: u8) -> u8 {
    ((kind / 16) % 8) as u8
}

/// Whether the offset is counted in units of the pointer size.
pub open spec fn is_scaled(kind: u8) -> bool {
    kind >= 128
}

/// Decodes the record at `pos`, given the identifier and offset of the record
/// before it: the record's identifier, its offset, and the position after it.
pub open spec fn decode_record(b: Seq<u8>, pos: nat, prev_id: u64, prev_off: u64, ptr: u32) -> Result<
    (u64, u64, nat),
    VersionlibError,
> {
    if pos >= b.len() {
        Err(VersionlibError::Read { field: Field::RecordKind })
    } else {
        let kind = b[pos as int];
        if id_mode(kind) >= 8 {
            Err(VersionlibError::RecordKind { kind })
        } else {
            match decode_field(b, pos + 1, id_mode(kind), prev_id) {
                None => Err(VersionlibError::Read { field: Field::Identifier }),
                Some((id, p)) => {
                    if is_scaled(kind) && ptr == 0 {
                        Err(VersionlibError::ZeroPointerSize)
                    } else {
                        let base = if is_scaled(kind) {
                            (prev_off / (ptr as u64)) as u64
                        } else {
                            prev_off
                        };
                        match decode_field(b, p, offset_mode(kind), base) {
                            None => Err(VersionlibError::Read { field: Field::Offset }),
                            Some((off, q)) => Ok(
                                (
                                    id,
                                    if is_scaled(kind) {
                                        wrapping_mul(off, ptr as u64)
                                    } else {
                                        off
                                    },
                                    q,
                                ),
                            ),
                        }
                    }
                },
            }
        }
    }
}

/// Decodes `n` records from `pos` on, with the running identifier and offset
/// seeded by `prev_id` and `prev_off`: the `(identifier, offset)` pairs in file
/// order and the position after the last record.
pub open spec fn decode_records(
    b: Seq<u8>,
    pos: nat,
    n: nat,
    prev_id: u64,
    prev_off: u64,
    ptr: u32,
) -> Result<(Seq<(u64, u64)>, nat), VersionlibError>
    decreases n,
{
    if n == 0 {
        Ok((Seq::empty(), pos))
    } else {
        match decode_record(b, pos, prev_id, prev_off, ptr) {
            Err(e) => Err(e),
            Ok((id, off, p)) => match decode_records(b, p, (n - 1) as nat, id, off, ptr) {
                Err(e) => Err(e),
                Ok((rest, end)) => Ok((seq![(id, off)] + rest, end)),
            },
        }
    }
}

/// The header fields of a table file.
pub struct Header {
    pub version: Seq<u32>,
    pub module_name: Seq<u8>,
    pub pointer_size: u32,
    pub count: u32,
    /// Position of the first record.
    pub records_start: nat,
}

/// The two's complement value of four bytes read as the unsigned `v`.
pub open spec fn as_signed32(v: nat) -> int {
    if v < 0x8000_0000 {
        v as int
    } else {
        v - 0x1_0000_0000
    }
}

/// The module name length stored in the header.
pub open spec fn name_len_field(b: Seq<u8>) -> int {
    as_signed32(le_at(b, 20, 4))
}

/// Decodes the header, checking each field as it comes.
pub open spec fn decode_header(b: Seq<u8>) -> Result<Header, VersionlibError> {
    if b.len() < 4 {
        Err(VersionlibError::Read { field: Field::Format })
    } else if le_at(b, 0, 4) != FORMAT_VERSION {
        Err(VersionlibError::Format { format: le_at(b, 0, 4) as u32 })
    } else if b.len() < 20 {
        Err(VersionlibError::Read { field: Field::Version })
    } else if b.len() < 24 {
        Err(VersionlibError::Read { field: Field::NameLength })
    } else if name_len_field(b) < 0 || name_len_field(b) >= NAME_LEN_LIMIT {
        Err(VersionlibError::TnLenRange { tn_len: name_len_field(b) as i32 })
    } else {
        let n = name_len_field(b);
        if b.len() < 24 + n {
            Err(VersionlibError::Read { field: Field::Name })
        } else if b.len() < 28 + n {
            Err(VersionlibError::Read { field: Field::PointerSize })
        } else if b.len() < 32 + n {
            Err(VersionlibError::Read { field: Field::RecordCount })
        } else {
            Ok(
                Header {
                    version: seq![
                        le_at(b, 4, 4) as u32,
                        le_at(b, 8, 4) as u32,
                        le_at(b, 12, 4) as u32,
                        le_at(b, 16, 4) as u32,
                    ],
                    module_name: b.subrange(24, 24 + n),
                    pointer_size: le_at(b, 24 + n, 4) as u32,
                    count: le_at(b, 28 + n, 4) as u32,
                    records_start: (32 + n) as nat,
                },
            )
        }
    }
}

/// A decoded table file: its header fields and its records in file order.
pub struct DecodedTable {
    pub version: Seq<u32>,
    pub module_name: Seq<u8>,
    pub pointer_size: u32,
    pub records: Seq<(u64, u64)>,
    /// Position of the first record.
    pub records_start: nat,
    /// Position after the last record.
    pub end: nat,
}

/// Decodes a whole table file.
pub open spec fn decode_table(b: Seq<u8>) -> Result<DecodedTable, VersionlibError> {
    match decode_header(b) {
        Err(e) => Err(e),
        Ok(h) => match decode_records(b, h.records_start, h.count as nat, 0, 0, h.pointer_size) {
            Err(e) => Err(e),
            Ok((records, end)) => Ok(
                DecodedTable {
                    version: h.version,
                    module_name: h.module_name,
                    pointer_size: h.pointer_size,
                    records,
                    records_start: h.records_start,
                    end,
                },
            ),
        },
    }
}

/// Identifier-to-offset map built by inserting the records in order.
pub open spec fn forward_of(records: Seq<(u64, u64)>) -> Map<u64, u64>
    decreases records.len(),
{
    if records.len() == 0 {
        Map::empty()
    } else {
        forward_of(records.drop_last()).insert(records.last().0, records.last().1)
    }
}

/// Offset-to-identifier map built by inserting the records in order.
pub open spec fn reverse_of(records: Seq<(u64, u64)>) -> Map<u64, u64>
    decreases records.len(),
{
    if records.len() == 0 {
        Map::empty()
    } else {
        reverse_of(records.drop_last()).insert(records.last().1, records.last().0)
    }
}

/// What a loaded table holds.
pub struct TableView {
    pub version: Seq<u32>,
    pub module_name: Seq<u8>,
    pub pointer_size: u32,
    pub forward: Map<u64, u64>,
    pub reverse: Map<u64, u64>,
}

/// The table that a decoded file describes.
pub open spec fn table_view(t: DecodedTable) -> TableView {
    TableView {
        version: t.version,
        module_name: t.module_name,
        pointer_size: t.pointer_size,
        forward: forward_of(t.records),
        reverse: reverse_of(t.records),
    }
}

} // verus!
