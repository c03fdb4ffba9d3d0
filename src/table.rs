//! Loading an address table from the bytes of its file, and querying it.
use crate::bytes::{read_i32_le, read_u16_le, read_u32_le, read_u64_le, read_u8};
use crate::error::{Field, VersionlibError};
use crate::format::{
    decode_field, decode_header, decode_record, decode_records, decode_table, forward_of,
    reverse_of, table_view, Header, TableView, FORMAT_VERSION, NAME_LEN_LIMIT,
};
use crate::offset_map::OffsetMap;
use crate::version::{pack_version, packed_version};
use vstd::prelude::*;
use vstd::utf8::{decode_utf8, valid_utf8};

verus! {

/// A decoded address table: the header fields and the two lookup maps.
pub struct VersionlibData {
    version: [u32; 4],
    module_name_raw: Vec<u8>,
    ptr_size: u32,
    data: OffsetMap,
    rdata: OffsetMap,
}

impl View for VersionlibData {
    type V = TableView;

    closed spec fn view(&self) -> TableView {
        TableView {
            version: self.version@,
            module_name: self.module_name_raw@,
            pointer_size: self.ptr_size,
            forward: self.data@,
            reverse: self.rdata@,
        }
    }
}

/// Relies on `String::from_utf8`: succeeds exactly when the bytes are valid
/// UTF-8, with the text that they encode.
#[verifier::external_body]
fn text_from_utf8(b: Vec<u8>) -> (r: Option<String>)
    ensures
        r is Some <==> valid_utf8(b@),
        r matches Some(s) ==> s@ == decode_utf8(b@),
{
    String::from_utf8(b).ok()
}

impl VersionlibData {
    /// The version `[major, minor, patch, build]` that the table describes.
    pub fn version(&self) -> (r: [u32; 4])
        ensures
            r@ == self@.version,
    {
        self.version
    }

    /// The module name as stored, without any check of its encoding.
    pub fn module_name_raw(&self) -> (r: &[u8])
        ensures
            r@ == self@.module_name,
    {
        self.module_name_raw.as_slice()
    }

    /// The module name as text; `None` where its bytes are not valid UTF-8,
    /// which leaves the rest of the table usable.
    pub fn module_name(&self) -> (r: Option<String>)
        ensures
            r is Some <==> valid_utf8(self@.module_name),
            r matches Some(s) ==> s@ == decode_utf8(self@.module_name),
    {
        text_from_utf8(self.module_name_raw.clone())
    }

    /// The unit in which scaled records count their offsets.
    pub fn ptr_size(&self) -> (r: u32)
        ensures
            r == self@.pointer_size,
    {
        self.ptr_size
    }

    /// The table's version packed into one integer.
    pub fn packed_version(&self) -> (r: u32)
        ensures
            r as int == packed_version(self@.version),
    {
        pack_version(self.version)
    }

    /// The offset of identifier `id`.
    pub fn lookup(&self, id: u64) -> (r: Result<u64, VersionlibError>)
        ensures
            self@.forward.contains_key(id) ==> r == Ok::<u64, VersionlibError>(self@.forward[id]),
            !self@.forward.contains_key(id) ==> r == Err::<u64, VersionlibError>(
                VersionlibError::UnknownIdentifier { id },
            ),
    {
        match self.data.get(id) {
            Some(offset) => Ok(offset),
            None => Err(VersionlibError::UnknownIdentifier { id }),
        }
    }

    /// The identifier whose offset is `offset`.
    pub fn reverse_lookup(&self, offset: u64) -> (r: Result<u64, VersionlibError>)
        ensures
            self@.reverse.contains_key(offset) ==> r == Ok::<u64, VersionlibError>(
                self@.reverse[offset],
            ),
            !self@.reverse.contains_key(offset) ==> r == Err::<u64, VersionlibError>(
                VersionlibError::UnknownOffset { offset },
            ),
    {
        match self.rdata.get(offset) {
            Some(id) => Ok(id),
            None => Err(VersionlibError::UnknownOffset { offset }),
        }
    }
}

/// Decodes a value field of encoding `mode` (one of 0 to 7) at `pos`.
fn read_field(b: &[u8], pos: usize, mode: u8, prev: u64) -> (r: Option<(u64, usize)>)
    requires
        mode < 8,
        pos <= b@.len(),
    ensures
        match decode_field(b@, pos as nat, mode, prev) {
            Some((v, p)) => r matches Some((w, q)) && w == v && q == p,
            None => r is None,
        },
{
    let rest = b.len() - pos;
    if mode == 0 {
        if rest < 8 {
            return None;
        }
        Some((read_u64_le(b, pos), pos + 8))
    } else if mode == 1 {
        Some((prev.wrapping_add(1), pos))
    } else if mode <= 3 {
        if rest < 1 {
            return None;
        }
        let v = read_u8(b, pos) as u64;
        if mode == 2 {
            Some((prev.wrapping_add(v), pos + 1))
        } else {
            Some((prev.wrapping_sub(v), pos + 1))
        }
    } else if mode <= 6 {
        if rest < 2 {
            return None;
        }
        let v = read_u16_le(b, pos) as u64;
        if mode == 4 {
            Some((prev.wrapping_add(v), pos + 2))
        } else if mode == 5 {
            Some((prev.wrapping_sub(v), pos + 2))
        } else {
            Some((v, pos + 2))
        }
    } else {
        if rest < 4 {
            return None;
        }
        Some((read_u32_le(b, pos) as u64, pos + 4))
    }
}

/// Decodes the record at `pos`, given the identifier and offset of the record
/// before it.
fn read_record(b: &[u8], pos: usize, prev_id: u64, prev_off: u64, ptr: u32) -> (r: Result<
    (u64, u64, usize),
    VersionlibError,
>)
    requires
        pos <= b@.len(),
    ensures
        match decode_record(b@, pos as nat, prev_id, prev_off, ptr) {
            Ok((id, off, p)) => r matches Ok((i, o, q)) && i == id && o == off && q == p,
            Err(e) => r == Err::<(u64, u64, usize), VersionlibError>(e),
        },
{
    if pos >= b.len() {
        return Err(VersionlibError::Read { field: Field::RecordKind });
    }
    let kind = b[pos];
    let low = kind & 0xF;
    let high = kind >> 4;
    assert(low == kind % 16 && (high & 7) == (kind / 16) % 8 && ((high & 8) != 0) == (kind
        >= 128) && (high & 7) < 8) by (bit_vector)
        requires
            low == kind & 0xF,
            high == kind >> 4,
    ;
    if low > 7 {
        return Err(VersionlibError::RecordKind { kind });
    }
    let (id, p) = match read_field(b, pos + 1, low, prev_id) {
        None => {
            return Err(VersionlibError::Read { field: Field::Identifier });
        },
        Some(x) => x,
    };
    let scaled = (high & 8) != 0;
    let base = if scaled {
        if ptr == 0 {
            return Err(VersionlibError::ZeroPointerSize);
        }
        prev_off / (ptr as u64)
    } else {
        prev_off
    };
    let (off, q) = match read_field(b, p, high & 7, base) {
        None => {
            return Err(VersionlibError::Read { field: Field::Offset });
        },
        Some(x) => x,
    };
    let off = if scaled {
        off.wrapping_mul(ptr as u64)
    } else {
        off
    };
    Ok((id, off, q))
}

/// Puts the records decoded so far in front of the result of decoding the rest.
spec fn prepend_records(
    done: Seq<(u64, u64)>,
    rest: Result<(Seq<(u64, u64)>, nat), VersionlibError>,
) -> Result<(Seq<(u64, u64)>, nat), VersionlibError> {
    match rest {
        Ok((rs, end)) => Ok((done + rs, end)),
        Err(e) => Err(e),
    }
}

proof fn lemma_prepend_step(
    done: Seq<(u64, u64)>,
    x: (u64, u64),
    rest: Result<(Seq<(u64, u64)>, nat), VersionlibError>,
)
    ensures
        prepend_records(done, prepend_records(seq![x], rest)) == prepend_records(
            done.push(x),
            rest,
        ),
{
    if let Ok((rs, end)) = rest {
        assert(done + (seq![x] + rs) =~= done.push(x) + rs);
    }
}

proof fn lemma_maps_push(done: Seq<(u64, u64)>, x: (u64, u64))
    ensures
        forward_of(done.push(x)) == forward_of(done).insert(x.0, x.1),
        reverse_of(done.push(x)) == reverse_of(done).insert(x.1, x.0),
{
    assert(done.push(x).drop_last() =~= done);
}

/// Whether `r` is what loading the bytes `b` gives: the decoded table when `b`
/// decodes, else the first error met.
pub open spec fn is_load_result(b: Seq<u8>, r: Result<VersionlibData, VersionlibError>) -> bool {
    match decode_table(b) {
        Ok(t) => r matches Ok(d) && d@ == table_view(t),
        Err(e) => r == Err::<VersionlibData, VersionlibError>(e),
    }
}

/// Loads an address table from the bytes of its file.
///
/// Succeeds exactly when the bytes decode as a table; the table then holds the
/// header's version, module name and pointer size, and maps every decoded
/// identifier to its offset and back, later records overriding earlier ones.
/// Otherwise it returns the first error met while decoding in file order.
pub fn load(b: &[u8]) -> (r: Result<VersionlibData, VersionlibError>)
    ensures
        is_load_result(b@, r),
{
    let len = b.len();
    if len < 4 {
        return Err(VersionlibError::Read { field: Field::Format });
    }
    let format = read_u32_le(b, 0);
    if format != FORMAT_VERSION {
        return Err(VersionlibError::Format { format });
    }
    if len < 20 {
        return Err(VersionlibError::Read { field: Field::Version });
    }
    let version: [u32; 4] = [
        read_u32_le(b, 4),
        read_u32_le(b, 8),
        read_u32_le(b, 12),
        read_u32_le(b, 16),
    ];
    if len < 24 {
        return Err(VersionlibError::Read { field: Field::NameLength });
    }
    let tn_len = read_i32_le(b, 20);
    if tn_len < 0 || tn_len >= NAME_LEN_LIMIT {
        return Err(VersionlibError::TnLenRange { tn_len });
    }
    let n = tn_len as usize;
    if len - 24 < n {
        return Err(VersionlibError::Read { field: Field::Name });
    }
    let mut module_name_raw: Vec<u8> = Vec::new();
    let name_end: usize = 24 + n;
    let mut i: usize = 24;
    while i < name_end
        invariant
            24 <= i <= name_end <= b@.len(),
            module_name_raw@ == b@.subrange(24, i as int),
        decreases name_end - i,
    {
        module_name_raw.push(b[i]);
        i = i + 1;
        assert(module_name_raw@ =~= b@.subrange(24, i as int));
    }
    if len - 24 - n < 4 {
        return Err(VersionlibError::Read { field: Field::PointerSize });
    }
    let ptr_size = read_u32_le(b, 24 + n);
    if len - 28 - n < 4 {
        return Err(VersionlibError::Read { field: Field::RecordCount });
    }
    let count = read_u32_le(b, 28 + n);
    let start: usize = 32 + n;
    // Each record takes at least one byte, so no more than that many can follow.
    let capacity: usize = if (count as usize) < len - start {
        count as usize
    } else {
        len - start
    };
    let mut data = OffsetMap::with_capacity(capacity);
    let mut rdata = OffsetMap::with_capacity(capacity);
    let ghost done: Seq<(u64, u64)> = Seq::empty();
    let mut pos: usize = start;
    let mut prev_id: u64 = 0;
    let mut prev_off: u64 = 0;
    let mut k: u32 = 0;
    assert(prepend_records(done, decode_records(b@, start as nat, count as nat, 0, 0, ptr_size))
        =~= decode_records(b@, start as nat, count as nat, 0, 0, ptr_size)) by {
        if let Ok((rs, end)) = decode_records(b@, start as nat, count as nat, 0, 0, ptr_size) {
            assert(done + rs =~= rs);
        }
    }
    let ghost header = decode_header(b@)->Ok_0;
    assert(decode_header(b@) == Ok::<Header, VersionlibError>(header));
    while k < count
        invariant
            k <= count,
            pos <= b@.len(),
            decode_records(b@, start as nat, count as nat, 0, 0, ptr_size) == prepend_records(
                done,
                decode_records(b@, pos as nat, (count - k) as nat, prev_id, prev_off, ptr_size),
            ),
            data@ == forward_of(done),
            rdata@ == reverse_of(done),
            decode_header(b@) == Ok::<Header, VersionlibError>(header),
            header.records_start == start,
            header.count == count,
            header.pointer_size == ptr_size,
        decreases count - k,
    {
        let ghost rest = decode_records(
            b@,
            pos as nat,
            (count - k) as nat,
            prev_id,
            prev_off,
            ptr_size,
        );
        let (id, off, next) = match read_record(b, pos, prev_id, prev_off, ptr_size) {
            Ok(x) => x,
            Err(e) => {
                assert(rest == Err::<(Seq<(u64, u64)>, nat), VersionlibError>(e));
                return Err(e);
            },
        };
        proof {
            assert(rest == prepend_records(
                seq![(id, off)],
                decode_records(b@, next as nat, (count - k - 1) as nat, id, off, ptr_size),
            ));
            lemma_prepend_step(
                done,
                (id, off),
                decode_records(b@, next as nat, (count - k - 1) as nat, id, off, ptr_size),
            );
            lemma_maps_push(done, (id, off));
            done = done.push((id, off));
        }
        data.insert(id, off);
        rdata.insert(off, id);
        pos = next;
        prev_id = id;
        prev_off = off;
        k = k + 1;
    }
    assert(done + Seq::<(u64, u64)>::empty() =~= done);
    Ok(VersionlibData { version, module_name_raw, ptr_size, data, rdata })
}

} // verus!
