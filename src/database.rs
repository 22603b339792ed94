//! The database handle: its header, its range and index tables, and lookups.
use vstd::prelude::*;
use crate::bytes::{
    compose_ipv6, copy_bytes, le_u32_at, le_u32_of, string_from_utf8, utf8_text, words_to_u128,
};
use crate::layout::{
    column_of, field_column, field_is_numeric, field_text_adjust, is_numeric, lemma_all_fields_listed,
    text_adjust, Field, ALL_FIELDS,
};
use crate::record::{
    number_value, text_value, DbError, FieldValue, IP2LocationRecord, IpAddress,
};

verus! {

/// The length of the fixed header: five bytes and six 32-bit words.
pub const HEADER_LEN: usize = 29;

/// Where a search ends: at a range that holds the address, with none, or at a range
/// whose bounds cannot be read.
pub enum Probe {
    NotFound,
    Failed,
    Found(int),
}

/// The largest record index that a lookup visits: one past the largest 32-bit count.
pub const MAX_INDEX: u64 = 0x1_0000_0000;

/// The little-endian word at 1-based `offset`, or `None` where it does not fit in `buf`.
pub open spec fn u32_at(buf: Seq<u8>, offset: int) -> Option<int> {
    if 1 <= offset && offset + 3 <= buf.len() {
        Some(le_u32_of(buf, offset - 1))
    } else {
        None
    }
}

/// The length-prefixed text whose length byte is at 1-based `offset`.
pub open spec fn text_at(buf: Seq<u8>, offset: int) -> Result<Seq<char>, DbError> {
    if offset < 1 || offset > buf.len() {
        Err(DbError::OutOfBounds)
    } else {
        let n = buf[offset - 1] as int;
        if offset + n > buf.len() {
            Err(DbError::OutOfBounds)
        } else {
            match utf8_text(buf.subrange(offset, offset + n)) {
                Some(s) => Ok(s),
                None => Err(DbError::InvalidEncoding),
            }
        }
    }
}

/// A read-only IP2Location database held in memory, with the metadata of its header.
pub struct IP2Location {
    pub db_buffer: Vec<u8>,
    pub db_type: u8,
    pub db_column: u8,
    pub db_year: u8,
    pub db_month: u8,
    pub db_day: u8,
    pub ipv4_db_count: u32,
    pub ipv4_db_addr: u32,
    pub ipv6_db_count: u32,
    pub ipv6_db_addr: u32,
    pub ipv4_index_base_addr: u32,
    pub ipv6_index_base_addr: u32,
}

impl IP2Location {
    /// Whether the metadata is the header of the buffer.
    pub open spec fn header_of(self, buf: Seq<u8>) -> bool {
        &&& buf.len() >= HEADER_LEN
        &&& self.db_buffer@ == buf
        &&& self.db_type == buf[0]
        &&& self.db_column == buf[1]
        &&& self.db_year == buf[2]
        &&& self.db_month == buf[3]
        &&& self.db_day == buf[4]
        &&& self.ipv4_db_count as int == le_u32_of(buf, 5)
        &&& self.ipv4_db_addr as int == le_u32_of(buf, 9)
        &&& self.ipv6_db_count as int == le_u32_of(buf, 13)
        &&& self.ipv6_db_addr as int == le_u32_of(buf, 17)
        &&& self.ipv4_index_base_addr as int == le_u32_of(buf, 21)
        &&& self.ipv6_index_base_addr as int == le_u32_of(buf, 25)
    }

    /// The start of the range table of a family.
    pub open spec fn table_base(self, v6: bool) -> int {
        if v6 {
            self.ipv6_db_addr as int
        } else {
            self.ipv4_db_addr as int
        }
    }

    /// The bytes by which a record of the family is wider than its columns.
    pub open spec fn extra(v6: bool) -> int {
        if v6 {
            12
        } else {
            0
        }
    }

    /// The distance between two records of a family's range table.
    pub open spec fn stride(self, v6: bool) -> int {
        self.db_column as int * 4 + Self::extra(v6)
    }

    /// The address stored at 1-based `offset`: one word for IPv4, four for IPv6.
    pub open spec fn addr_at(self, v6: bool, offset: int) -> Option<int> {
        let buf = self.db_buffer@;
        if !v6 {
            u32_at(buf, offset)
        } else if u32_at(buf, offset) is Some && u32_at(buf, offset + 4) is Some && u32_at(
            buf,
            offset + 8,
        ) is Some && u32_at(buf, offset + 12) is Some {
            Some(
                words_to_u128(
                    u32_at(buf, offset)->0,
                    u32_at(buf, offset + 4)->0,
                    u32_at(buf, offset + 8)->0,
                    u32_at(buf, offset + 12)->0,
                ),
            )
        } else {
            None
        }
    }

    /// The first address of range `i` of a family; range `i` ends where `i + 1` starts.
    pub open spec fn start_of(self, v6: bool, i: int) -> Option<int> {
        self.addr_at(v6, self.table_base(v6) + i * self.stride(v6))
    }

    /// Whether range `i` is readable and holds address `q`.
    pub open spec fn covers(self, v6: bool, i: int, q: int) -> bool {
        &&& self.start_of(v6, i) is Some
        &&& self.start_of(v6, i + 1) is Some
        &&& self.start_of(v6, i)->0 <= q
        &&& q < self.start_of(v6, i + 1)->0
    }

    /// Whether the starts of ranges `lo ..= hi + 1` are all readable and ascend.
    pub open spec fn sorted_window(self, v6: bool, lo: int, hi: int) -> bool {
        &&& forall|i: int| lo <= i <= hi + 1 ==> (#[trigger] self.start_of(v6, i)) is Some
        &&& forall|i: int, j: int|
            lo <= i <= j <= hi + 1 ==> (#[trigger] self.start_of(v6, i))->0 <= (
            #[trigger] self.start_of(v6, j))->0
    }

    /// The address that a record of index `i` reports, read at `i` times the column width.
    pub open spec fn ip_at(self, v6: bool, i: int) -> Option<int> {
        self.addr_at(v6, self.table_base(v6) + i * (self.db_column as int * 4))
    }

    /// The 1-based offset of column `col` in record `i` of a family.
    pub open spec fn slot(self, v6: bool, i: int, col: int) -> int {
        self.table_base(v6) + i * self.stride(v6) + Self::extra(v6) + 4 * (col - 1)
    }

    /// What field `f` of record `i` decodes to: absent for a type without it, a number read
    /// in the record, or text reached through the pointer in the record.
    #[verifier::opaque]
    pub open spec fn field_at(self, v6: bool, i: int, f: Field) -> Result<Option<FieldValue>, DbError> {
        let col = column_of(f, self.db_type as int);
        if col == 0 {
            Ok(None)
        } else {
            match u32_at(self.db_buffer@, self.slot(v6, i, col)) {
                None => Err(DbError::OutOfBounds),
                Some(v) => if is_numeric(f) {
                    Ok(Some(FieldValue::Number(v as u32)))
                } else {
                    match text_at(self.db_buffer@, v + text_adjust(f)) {
                        Ok(s) => Ok(Some(FieldValue::Text(s))),
                        Err(e) => Err(e),
                    }
                },
            }
        }
    }

    /// Whether `rec` is what record `i` of a family decodes to.
    pub open spec fn record_at(self, v6: bool, i: int, rec: IP2LocationRecord) -> bool {
        &&& rec.ip is Some
        &&& rec.ip->0.is_v6() == v6
        &&& self.ip_at(v6, i) == Some(rec.ip->0.value())
        &&& forall|f: Field| #[trigger] self.field_at(v6, i, f) == Ok::<Option<FieldValue>, DbError>(rec.value_of(f))
    }

    /// The error of the first field, in decoding order from position `k` of `ALL_FIELDS`,
    /// that record `i` of a family cannot decode; `None` where all of them decode.
    pub open spec fn field_error_from(self, v6: bool, i: int, k: int) -> Option<DbError>
        decreases 20 - k,
    {
        if k < 0 || k >= 20 {
            None
        } else {
            match self.field_at(v6, i, ALL_FIELDS@[k]) {
                Err(e) => Some(e),
                Ok(_) => self.field_error_from(v6, i, k + 1),
            }
        }
    }

    /// Why record `i` of a family cannot be decoded: its address cannot be read, or the
    /// first field in decoding order fails. `None` where the whole record decodes.
    pub open spec fn decode_failure(self, v6: bool, i: int) -> Option<DbError> {
        if self.ip_at(v6, i) is None {
            Some(DbError::OutOfBounds)
        } else {
            self.field_error_from(v6, i, 0)
        }
    }

    /// What decoding record `i` of a family gives, as the result of a lookup that found it.
    pub open spec fn decoded(self, v6: bool, i: int, r: Result<Option<IP2LocationRecord>, DbError>) -> bool {
        match r {
            Ok(Some(rec)) => self.decode_failure(v6, i) is None && self.record_at(v6, i, rec),
            Ok(None) => false,
            Err(e) => self.decode_failure(v6, i) == Some(e),
        }
    }

    /// The path of a search of ranges `lo ..= hi` for `q`: probe the middle range, stop
    /// where it holds `q` or its bounds cannot be read, else go on in the half that can.
    pub open spec fn probe(self, v6: bool, lo: int, hi: int, q: int) -> Probe
        decreases hi + 1 - lo,
    {
        if lo > hi || lo < 0 {
            Probe::NotFound
        } else {
            let mid = lo + (hi - lo) / 2;
            match (self.start_of(v6, mid), self.start_of(v6, mid + 1)) {
                (Some(from), Some(to)) => if from <= q && q < to {
                    Probe::Found(mid)
                } else if q < from {
                    if mid == 0 {
                        Probe::NotFound
                    } else {
                        self.probe(v6, lo, mid - 1, q)
                    }
                } else {
                    self.probe(v6, mid + 1, hi, q)
                },
                _ => Probe::Failed,
            }
        }
    }

    /// What a search of ranges `lo ..= hi` for `q` returns: nothing, `OutOfBounds`, or what
    /// decoding the found range gives, as the probe path decides. A record comes only from
    /// a range that holds `q`. Over ascending readable starts the path finds the range that
    /// holds `q`, and ends in nothing where no range does.
    pub open spec fn search_result(
        self,
        v6: bool,
        lo: int,
        hi: int,
        q: int,
        r: Result<Option<IP2LocationRecord>, DbError>,
    ) -> bool {
        &&& match self.probe(v6, lo, hi, q) {
            Probe::NotFound => r matches Ok(None),
            Probe::Failed => r == Err::<Option<IP2LocationRecord>, DbError>(DbError::OutOfBounds),
            Probe::Found(i) => self.decoded(v6, i, r),
        }
        &&& r matches Ok(Some(rec)) ==> exists|i: int|
            lo <= i <= hi && self.covers(v6, i, q) && #[trigger] self.record_at(v6, i, rec)
        &&& self.sorted_window(v6, lo, hi) ==> forall|i: int|
            lo <= i <= hi && #[trigger] self.covers(v6, i, q) ==> self.probe(v6, lo, hi, q)
                == Probe::Found(i)
        &&& self.sorted_window(v6, lo, hi) ==> (!exists|i: int|
            lo <= i <= hi && #[trigger] self.covers(v6, i, q)) ==> self.probe(v6, lo, hi, q)
            == Probe::NotFound
    }

    /// The search window of a lookup of `ip`: the whole table, or the bounds that the index
    /// table gives for the address's top 16 bits (`None` where they cannot be read).
    pub open spec fn window(self, ip: IpAddress) -> Option<(int, int)> {
        let v6 = ip.is_v6();
        let (base, count, top) = if v6 {
            (
                self.ipv6_index_base_addr as int,
                self.ipv6_db_count as int,
                ip.value() / 0x1_0000_0000_0000_0000_0000_0000_0000,
            )
        } else {
            (self.ipv4_index_base_addr as int, self.ipv4_db_count as int, ip.value() / 0x1_0000)
        };
        if base == 0 {
            Some((0, count))
        } else {
            let pos = top * 8 + base;
            let buf = self.db_buffer@;
            if u32_at(buf, pos) is Some && u32_at(buf, pos + 4) is Some {
                Some((u32_at(buf, pos)->0, u32_at(buf, pos + 4)->0))
            } else {
                None
            }
        }
    }

    /// The number of ranges of the family of `ip`.
    pub open spec fn count_of(self, ip: IpAddress) -> int {
        if ip.is_v6() {
            self.ipv6_db_count as int
        } else {
            self.ipv4_db_count as int
        }
    }

    /// Reads the header of a database image and keeps the image for lookups.
    pub fn from_bytes(db_buffer: Vec<u8>) -> (r: Result<IP2Location, DbError>)
        ensures
            r is Err <==> db_buffer@.len() < HEADER_LEN,
            r matches Err(e) ==> e == DbError::MalformedHeader,
            r matches Ok(db) ==> db.header_of(db_buffer@),
    {
        if db_buffer.len() < HEADER_LEN {
            return Err(DbError::MalformedHeader);
        }
        let b = db_buffer.as_slice();
        let db_type = b[0];
        let db_column = b[1];
        let db_year = b[2];
        let db_month = b[3];
        let db_day = b[4];
        let ipv4_db_count = le_u32_at(b, 5);
        let ipv4_db_addr = le_u32_at(b, 9);
        let ipv6_db_count = le_u32_at(b, 13);
        let ipv6_db_addr = le_u32_at(b, 17);
        let ipv4_index_base_addr = le_u32_at(b, 21);
        let ipv6_index_base_addr = le_u32_at(b, 25);
        Ok(
            IP2Location {
                db_buffer,
                db_type,
                db_column,
                db_year,
                db_month,
                db_day,
                ipv4_db_count,
                ipv4_db_addr,
                ipv6_db_count,
                ipv6_db_addr,
                ipv4_index_base_addr,
                ipv6_index_base_addr,
            },
        )
    }

    /// Reads the little-endian word at 1-based `offset`.
    pub fn read_u32(&self, offset: u64) -> (r: Result<u32, DbError>)
        ensures
            match r {
                Ok(v) => u32_at(self.db_buffer@, offset as int) == Some(v as int),
                Err(e) => u32_at(self.db_buffer@, offset as int) is None && e
                    == DbError::OutOfBounds,
            },
    {
        let len = self.db_buffer.len();
        if offset == 0 || offset > len as u64 || len as u64 - offset < 3 {
            return Err(DbError::OutOfBounds);
        }
        Ok(le_u32_at(self.db_buffer.as_slice(), (offset - 1) as usize))
    }

    /// Reads the length-prefixed UTF-8 text whose length byte is at 1-based `offset`.
    pub fn read_string(&self, offset: u64) -> (r: Result<String, DbError>)
        ensures
            match r {
                Ok(s) => text_at(self.db_buffer@, offset as int) == Ok::<Seq<char>, DbError>(s@),
                Err(e) => text_at(self.db_buffer@, offset as int) == Err::<Seq<char>, DbError>(e),
            },
    {
        let len = self.db_buffer.len();
        if offset == 0 || offset > len as u64 {
            return Err(DbError::OutOfBounds);
        }
        let n = self.db_buffer[(offset - 1) as usize] as u64;
        if len as u64 - offset < n {
            return Err(DbError::OutOfBounds);
        }
        let bytes = copy_bytes(self.db_buffer.as_slice(), offset as usize, n as usize);
        match string_from_utf8(bytes) {
            Some(s) => Ok(s),
            None => Err(DbError::InvalidEncoding),
        }
    }

    /// Reads the IPv4 address at 1-based `offset`.
    pub fn read_ipv4(&self, offset: u64) -> (r: Result<u32, DbError>)
        ensures
            match r {
                Ok(v) => self.addr_at(false, offset as int) == Some(v as int),
                Err(e) => self.addr_at(false, offset as int) is None && e == DbError::OutOfBounds,
            },
    {
        self.read_u32(offset)
    }

    /// Reads the IPv6 address at 1-based `offset`: four words, the least significant first.
    pub fn read_ipv6(&self, offset: u64) -> (r: Result<u128, DbError>)
        requires
            offset <= u64::MAX - 12,
        ensures
            match r {
                Ok(v) => self.addr_at(true, offset as int) == Some(v as int),
                Err(e) => self.addr_at(true, offset as int) is None && e == DbError::OutOfBounds,
            },
    {
        let a = match self.read_u32(offset) {
            Ok(v) => v,
            Err(e) => return Err(e),
        };
        let b = match self.read_u32(offset + 4) {
            Ok(v) => v,
            Err(e) => return Err(e),
        };
        let c = match self.read_u32(offset + 8) {
            Ok(v) => v,
            Err(e) => return Err(e),
        };
        let d = match self.read_u32(offset + 12) {
            Ok(v) => v,
            Err(e) => return Err(e),
        };
        Ok(compose_ipv6(a, b, c, d))
    }

    /// Reads the address of a family at 1-based `offset`, widened to 128 bits.
    fn read_addr(&self, v6: bool, offset: u64) -> (r: Result<u128, DbError>)
        requires
            offset <= u64::MAX - 12,
        ensures
            match r {
                Ok(v) => self.addr_at(v6, offset as int) == Some(v as int),
                Err(e) => self.addr_at(v6, offset as int) is None && e == DbError::OutOfBounds,
            },
    {
        if v6 {
            self.read_ipv6(offset)
        } else {
            match self.read_ipv4(offset) {
                Ok(v) => Ok(v as u128),
                Err(e) => Err(e),
            }
        }
    }

    /// The first address of range `i` of a family.
    fn range_start(&self, v6: bool, i: u64) -> (r: Result<u128, DbError>)
        requires
            i <= MAX_INDEX,
        ensures
            match r {
                Ok(v) => self.start_of(v6, i as int) == Some(v as int),
                Err(e) => self.start_of(v6, i as int) is None && e == DbError::OutOfBounds,
            },
    {
        let stride: u64 = self.db_column as u64 * 4 + if v6 { 12 } else { 0 };
        assert(i * stride <= MAX_INDEX * 1032) by (nonlinear_arith)
            requires
                i <= MAX_INDEX,
                stride <= 1032,
        ;
        let base: u64 = if v6 { self.ipv6_db_addr as u64 } else { self.ipv4_db_addr as u64 };
        self.read_addr(v6, base + i * stride)
    }

    /// The address that record `i` of a family reports.
    fn read_ip(&self, v6: bool, i: u64) -> (r: Result<IpAddress, DbError>)
        requires
            i <= MAX_INDEX,
        ensures
            match r {
                Ok(a) => a.is_v6() == v6 && self.ip_at(v6, i as int) == Some(a.value()),
                Err(e) => self.ip_at(v6, i as int) is None && e == DbError::OutOfBounds,
            },
    {
        let width: u64 = self.db_column as u64 * 4;
        assert(i * width <= MAX_INDEX * 1020) by (nonlinear_arith)
            requires
                i <= MAX_INDEX,
                width <= 1020,
        ;
        let base: u64 = if v6 { self.ipv6_db_addr as u64 } else { self.ipv4_db_addr as u64 };
        if v6 {
            match self.read_ipv6(base + i * width) {
                Ok(a) => Ok(IpAddress::V6(a)),
                Err(e) => Err(e),
            }
        } else {
            match self.read_ipv4(base + i * width) {
                Ok(a) => Ok(IpAddress::V4(a)),
                Err(e) => Err(e),
            }
        }
    }

    /// The 1-based offset of column `col` (at least 1) in record `i` of a family.
    fn slot_offset(&self, v6: bool, i: u64, col: u8) -> (r: u64)
        requires
            i <= MAX_INDEX,
            1 <= col <= 20,
        ensures
            r as int == self.slot(v6, i as int, col as int),
            r <= MAX_INDEX * 1100,
    {
        let extra: u64 = if v6 { 12 } else { 0 };
        let stride: u64 = self.db_column as u64 * 4 + extra;
        assert(i * stride <= MAX_INDEX * 1032) by (nonlinear_arith)
            requires
                i <= MAX_INDEX,
                stride <= 1032,
        ;
        let base: u64 = if v6 { self.ipv6_db_addr as u64 } else { self.ipv4_db_addr as u64 };
        base + i * stride + extra + 4 * (col as u64 - 1)
    }

    /// Decodes a text field of record `i` of a family.
    fn read_text_field(&self, v6: bool, i: u64, f: Field) -> (r: Result<Option<String>, DbError>)
        requires
            i <= MAX_INDEX,
            !is_numeric(f),
        ensures
            match r {
                Ok(o) => self.field_at(v6, i as int, f) == Ok::<Option<FieldValue>, DbError>(
                    text_value(o),
                ),
                Err(e) => self.field_at(v6, i as int, f) == Err::<Option<FieldValue>, DbError>(e),
            },
    {
        proof {
            reveal(IP2Location::field_at);
        }
        let col = field_column(f, self.db_type);
        if col == 0 {
            return Ok(None);
        }
        let slot = self.slot_offset(v6, i, col);
        let ptr = match self.read_u32(slot) {
            Ok(p) => p,
            Err(e) => return Err(e),
        };
        match self.read_string(ptr as u64 + field_text_adjust(f)) {
            Ok(s) => Ok(Some(s)),
            Err(e) => Err(e),
        }
    }

    /// Decodes a numeric field of record `i` of a family: the four bytes in its column.
    fn read_number_field(&self, v6: bool, i: u64, f: Field) -> (r: Result<Option<u32>, DbError>)
        requires
            i <= MAX_INDEX,
            is_numeric(f),
        ensures
            match r {
                Ok(o) => self.field_at(v6, i as int, f) == Ok::<Option<FieldValue>, DbError>(
                    number_value(o),
                ),
                Err(e) => self.field_at(v6, i as int, f) == Err::<Option<FieldValue>, DbError>(e),
            },
    {
        proof {
            reveal(IP2Location::field_at);
        }
        let col = field_column(f, self.db_type);
        if col == 0 {
            return Ok(None);
        }
        let slot = self.slot_offset(v6, i, col);
        match self.read_u32(slot) {
            Ok(v) => Ok(Some(v)),
            Err(e) => Err(e),
        }
    }

    /// Decodes field `f` of record `i` of a family into `rec`.
    fn fill_field(&self, v6: bool, i: u64, f: Field, rec: &mut IP2LocationRecord) -> (r: Result<(), DbError>)
        requires
            i <= MAX_INDEX,
        ensures
            match r {
                Ok(()) => {
                    &&& self.field_at(v6, i as int, f) == Ok::<Option<FieldValue>, DbError>(final(rec).value_of(f))
                    &&& final(rec).ip == old(rec).ip
                    &&& forall|g: Field| g != f ==> #[trigger] final(rec).value_of(g) == old(rec).value_of(g)
                },
                Err(e) => self.field_at(v6, i as int, f) == Err::<Option<FieldValue>, DbError>(e),
            },
    {
        if field_is_numeric(f) {
            match self.read_number_field(v6, i, f) {
                Ok(o) => {
                    rec.set_number(f, o);
                    Ok(())
                },
                Err(e) => Err(e),
            }
        } else {
            match self.read_text_field(v6, i, f) {
                Ok(o) => {
                    rec.set_text(f, o);
                    Ok(())
                },
                Err(e) => Err(e),
            }
        }
    }

    /// Decodes the record at `index` of the range table of one family.
    fn read_record(&self, v6: bool, index: u64) -> (r: Result<IP2LocationRecord, DbError>)
        requires
            index <= MAX_INDEX,
        ensures
            match r {
                Ok(rec) => self.record_at(v6, index as int, rec) && self.decode_failure(
                    v6,
                    index as int,
                ) is None,
                Err(e) => self.decode_failure(v6, index as int) == Some(e),
            },
    {
        let ip = match self.read_ip(v6, index) {
            Ok(a) => a,
            Err(e) => return Err(e),
        };
        let mut rec = IP2LocationRecord::new(ip);
        let fields = ALL_FIELDS;
        let mut k: usize = 0;
        while k < 20
            invariant
                k <= 20,
                index <= MAX_INDEX,
                fields@ == ALL_FIELDS@,
                rec.ip == Some(ip),
                ip.is_v6() == v6,
                self.ip_at(v6, index as int) == Some(ip.value()),
                self.field_error_from(v6, index as int, 0) == self.field_error_from(
                    v6,
                    index as int,
                    k as int,
                ),
                forall|m: int| 0 <= m < k ==> self.field_at(v6, index as int, #[trigger] fields@[m])
                    == Ok::<Option<FieldValue>, DbError>(rec.value_of(fields@[m])),
            decreases 20 - k,
        {
            let f = fields[k];
            let ghost prev = rec;
            match self.fill_field(v6, index, f, &mut rec) {
                Ok(()) => {},
                Err(e) => return Err(e),
            }
            assert forall|m: int| 0 <= m < k + 1 implies self.field_at(v6, index as int, #[trigger] fields@[m])
                == Ok::<Option<FieldValue>, DbError>(rec.value_of(fields@[m])) by {
                if m < k && fields@[m] != f {
                    assert(rec.value_of(fields@[m]) == prev.value_of(fields@[m]));
                }
            }
            k = k + 1;
        }
        assert forall|f: Field| #[trigger] self.field_at(v6, index as int, f)
            == Ok::<Option<FieldValue>, DbError>(rec.value_of(f)) by {
            lemma_all_fields_listed(f);
        }
        Ok(rec)
    }

    /// Searches ranges `low ..= high` of a family for the one that holds `q`, halving the
    /// window at each step, and decodes its record.
    pub fn binary_search(&self, v6: bool, low: u64, high: u64, q: u128) -> (r: Result<
        Option<IP2LocationRecord>,
        DbError,
    >)
        requires
            high < MAX_INDEX,
        ensures
            self.search_result(v6, low as int, high as int, q as int, r),
    {
        let mut lo: u64 = low;
        let mut hi: u64 = high;
        while lo <= hi
            invariant
                low <= lo,
                hi <= high,
                high < MAX_INDEX,
                self.probe(v6, low as int, high as int, q as int) == self.probe(
                    v6,
                    lo as int,
                    hi as int,
                    q as int,
                ),
                self.sorted_window(v6, low as int, high as int) ==> forall|i: int|
                    low <= i <= high && #[trigger] self.covers(v6, i, q as int) ==> lo <= i <= hi,
            decreases hi + 1 - lo,
        {
            let mid: u64 = lo + (hi - lo) / 2;
            let from = match self.range_start(v6, mid) {
                Ok(v) => v,
                Err(e) => return Err(e),
            };
            let to = match self.range_start(v6, mid + 1) {
                Ok(v) => v,
                Err(e) => return Err(e),
            };
            if from <= q && q < to {
                proof {
                    assert(self.covers(v6, mid as int, q as int));
                    if self.sorted_window(v6, low as int, high as int) {
                        assert forall|i: int|
                            low <= i <= high && #[trigger] self.covers(v6, i, q as int) implies i
                            == mid by {
                            self.lemma_single_cover(v6, low as int, high as int, i, mid as int, q as int);
                        }
                    }
                }
                return match self.read_record(v6, mid) {
                    Ok(rec) => Ok(Some(rec)),
                    Err(e) => Err(e),
                };
            }
            if q < from {
                proof {
                    if self.sorted_window(v6, low as int, high as int) {
                        assert forall|i: int|
                            low <= i <= high && #[trigger] self.covers(v6, i, q as int) implies i
                            < mid by {
                            if i >= mid {
                                assert(self.start_of(v6, mid as int)->0 <= self.start_of(v6, i)->0);
                            }
                        }
                    }
                }
                if mid == 0 {
                    return Ok(None);
                }
                hi = mid - 1;
            } else {
                proof {
                    if self.sorted_window(v6, low as int, high as int) {
                        assert forall|i: int|
                            low <= i <= high && #[trigger] self.covers(v6, i, q as int) implies i
                            > mid by {
                            if i <= mid {
                                assert(self.start_of(v6, i + 1)->0 <= self.start_of(
                                    v6,
                                    mid + 1,
                                )->0);
                            }
                        }
                    }
                }
                lo = mid + 1;
            }
        }
        Ok(None)
    }

    /// The full lookup of an address: the range table of its family, within the window that
    /// the index table gives where the database has one.
    pub fn get_record(&self, ip: IpAddress) -> (r: Result<Option<IP2LocationRecord>, DbError>)
        ensures
            ip.is_v6() && self.ipv6_db_count == 0 ==> r == Err::<
                Option<IP2LocationRecord>,
                DbError,
            >(DbError::WrongAddressFamily),
            !(ip.is_v6() && self.ipv6_db_count == 0) ==> match self.window(ip) {
                None => r == Err::<Option<IP2LocationRecord>, DbError>(DbError::OutOfBounds),
                Some(w) => self.search_result(ip.is_v6(), w.0, w.1, ip.value(), r),
            },
    {
        match ip {
            IpAddress::V4(a) => {
                let mut low: u64 = 0;
                let mut high: u64 = self.ipv4_db_count as u64;
                if self.ipv4_index_base_addr > 0 {
                    let top: u32 = a >> 16u32;
                    assert(a >> 16u32 == a / 0x1_0000u32) by (bit_vector);
                    let pos: u64 = top as u64 * 8 + self.ipv4_index_base_addr as u64;
                    low = match self.read_u32(pos) {
                        Ok(v) => v as u64,
                        Err(e) => return Err(e),
                    };
                    high = match self.read_u32(pos + 4) {
                        Ok(v) => v as u64,
                        Err(e) => return Err(e),
                    };
                }
                self.binary_search(false, low, high, a as u128)
            },
            IpAddress::V6(a) => {
                if self.ipv6_db_count == 0 {
                    return Err(DbError::WrongAddressFamily);
                }
                let mut low: u64 = 0;
                let mut high: u64 = self.ipv6_db_count as u64;
                if self.ipv6_index_base_addr > 0 {
                    let top: u128 = a >> 112u128;
                    assert(a >> 112u128 == a / 0x1_0000_0000_0000_0000_0000_0000_0000u128)
                        by (bit_vector);
                    assert(top < 0x1_0000u128) by (bit_vector)
                        requires
                            top == a >> 112u128,
                    ;
                    let pos: u64 = top as u64 * 8 + self.ipv6_index_base_addr as u64;
                    low = match self.read_u32(pos) {
                        Ok(v) => v as u64,
                        Err(e) => return Err(e),
                    };
                    high = match self.read_u32(pos + 4) {
                        Ok(v) => v as u64,
                        Err(e) => return Err(e),
                    };
                }
                self.binary_search(true, low, high, a)
            },
        }
    }

    /// The lookup of an address over the whole range table of its family, with no use of
    /// the index table.
    pub fn get_record_unindexed(&self, ip: IpAddress) -> (r: Result<
        Option<IP2LocationRecord>,
        DbError,
    >)
        ensures
            ip.is_v6() && self.ipv6_db_count == 0 ==> r == Err::<
                Option<IP2LocationRecord>,
                DbError,
            >(DbError::WrongAddressFamily),
            !(ip.is_v6() && self.ipv6_db_count == 0) ==> self.search_result(
                ip.is_v6(),
                0,
                self.count_of(ip),
                ip.value(),
                r,
            ),
    {
        match ip {
            IpAddress::V4(a) => self.binary_search(false, 0, self.ipv4_db_count as u64, a as u128),
            IpAddress::V6(a) => {
                if self.ipv6_db_count == 0 {
                    return Err(DbError::WrongAddressFamily);
                }
                self.binary_search(true, 0, self.ipv6_db_count as u64, a)
            },
        }
    }

    /// Over ascending starts, at most one range of a window holds a given address.
    pub proof fn lemma_single_cover(self, v6: bool, lo: int, hi: int, i: int, j: int, q: int)
        requires
            self.sorted_window(v6, lo, hi),
            lo <= i <= hi,
            lo <= j <= hi,
            self.covers(v6, i, q),
            self.covers(v6, j, q),
        ensures
            i == j,
    {
        if i < j {
            assert(self.start_of(v6, i + 1)->0 <= self.start_of(v6, j)->0);
        } else if j < i {
            assert(self.start_of(v6, j + 1)->0 <= self.start_of(v6, i)->0);
        }
    }

    /// Whether two records report the same address and the same content in every field.
    pub open spec fn same_record(a: IP2LocationRecord, b: IP2LocationRecord) -> bool {
        &&& a.ip == b.ip
        &&& forall|f: Field| #[trigger] a.value_of(f) == b.value_of(f)
    }

    /// Over ascending readable starts, a search of a window gives what decoding the one
    /// range that holds `q` gives, or nothing where no range of the window holds `q`.
    pub proof fn lemma_search_total(
        self,
        v6: bool,
        lo: int,
        hi: int,
        q: int,
        r: Result<Option<IP2LocationRecord>, DbError>,
    )
        requires
            self.sorted_window(v6, lo, hi),
            self.search_result(v6, lo, hi, q, r),
        ensures
            forall|i: int| lo <= i <= hi && #[trigger] self.covers(v6, i, q) ==> self.decoded(v6, i, r),
            (!exists|i: int| lo <= i <= hi && #[trigger] self.covers(v6, i, q)) ==> r matches Ok(None),
    {
    }

    /// Whether two lookups agree: both find nothing, both fail with the same error, or both
    /// give the same record.
    pub open spec fn same_result(
        r1: Result<Option<IP2LocationRecord>, DbError>,
        r2: Result<Option<IP2LocationRecord>, DbError>,
    ) -> bool {
        match (r1, r2) {
            (Ok(None), Ok(None)) => true,
            (Ok(Some(a)), Ok(Some(b))) => Self::same_record(a, b),
            (Err(x), Err(y)) => x == y,
            _ => false,
        }
    }

    /// Two results that are both what decoding one record gives agree.
    pub proof fn lemma_decoded_agree(
        self,
        v6: bool,
        i: int,
        r1: Result<Option<IP2LocationRecord>, DbError>,
        r2: Result<Option<IP2LocationRecord>, DbError>,
    )
        requires
            self.decoded(v6, i, r1),
            self.decoded(v6, i, r2),
        ensures
            Self::same_result(r1, r2),
    {
        match (r1, r2) {
            (Ok(Some(a)), Ok(Some(b))) => {
                assert forall|f: Field| #[trigger] a.value_of(f) == b.value_of(f) by {
                    assert(self.field_at(v6, i, f) == Ok::<Option<FieldValue>, DbError>(
                        a.value_of(f),
                    ));
                    assert(self.field_at(v6, i, f) == Ok::<Option<FieldValue>, DbError>(
                        b.value_of(f),
                    ));
                }
            },
            _ => {},
        }
    }

    /// Over ascending starts, two addresses that one range of the window holds get the same
    /// result from a search of that window, errors included.
    pub proof fn lemma_same_range_same_result(
        self,
        v6: bool,
        lo: int,
        hi: int,
        i: int,
        q1: int,
        q2: int,
        r1: Result<Option<IP2LocationRecord>, DbError>,
        r2: Result<Option<IP2LocationRecord>, DbError>,
    )
        requires
            self.sorted_window(v6, lo, hi),
            lo <= i <= hi,
            self.covers(v6, i, q1),
            self.covers(v6, i, q2),
            self.search_result(v6, lo, hi, q1, r1),
            self.search_result(v6, lo, hi, q2, r2),
        ensures
            Self::same_result(r1, r2),
    {
        assert(self.probe(v6, lo, hi, q1) == Probe::Found(i));
        assert(self.probe(v6, lo, hi, q2) == Probe::Found(i));
        self.lemma_decoded_agree(v6, i, r1, r2);
    }

    /// A field of a decoded record is populated exactly when the database type gives it a
    /// column, so records of one database, from any ranges of either family, populate the
    /// same fields.
    pub proof fn lemma_fields_follow_type(
        self,
        v6a: bool,
        i: int,
        a: IP2LocationRecord,
        v6b: bool,
        j: int,
        b: IP2LocationRecord,
    )
        requires
            self.record_at(v6a, i, a),
            self.record_at(v6b, j, b),
        ensures
            forall|f: Field|
                #![trigger a.value_of(f)]
                (a.value_of(f) is Some) <==> column_of(f, self.db_type as int) != 0,
            forall|f: Field| #[trigger] (a.value_of(f) is Some) == (b.value_of(f) is Some),
    {
        reveal(IP2Location::field_at);
        assert forall|f: Field| #![trigger a.value_of(f)]
            (a.value_of(f) is Some) <==> column_of(f, self.db_type as int) != 0 by {
            assert(self.field_at(v6a, i, f) == Ok::<Option<FieldValue>, DbError>(a.value_of(f)));
        }
        assert forall|f: Field| #[trigger] (a.value_of(f) is Some) == (b.value_of(f) is Some) by {
            assert(self.field_at(v6a, i, f) == Ok::<Option<FieldValue>, DbError>(a.value_of(f)));
            assert(self.field_at(v6b, j, f) == Ok::<Option<FieldValue>, DbError>(b.value_of(f)));
        }
    }

    /// Where the starts of the whole table of a family ascend and the index window keeps
    /// every range that holds the address, a lookup through the index and one over the whole
    /// table agree: both find nothing, both fail with the same error, or both give the same
    /// record.
    pub proof fn lemma_index_agrees(
        self,
        ip: IpAddress,
        indexed: Result<Option<IP2LocationRecord>, DbError>,
        full: Result<Option<IP2LocationRecord>, DbError>,
    )
        requires
            self.window(ip) is Some,
            self.sorted_window(ip.is_v6(), 0, self.count_of(ip)),
            self.window(ip).unwrap().1 <= self.count_of(ip),
            forall|i: int|
                0 <= i <= self.count_of(ip) && #[trigger] self.covers(ip.is_v6(), i, ip.value())
                    ==> self.window(ip).unwrap().0 <= i <= self.window(ip).unwrap().1,
            self.search_result(
                ip.is_v6(),
                self.window(ip).unwrap().0,
                self.window(ip).unwrap().1,
                ip.value(),
                indexed,
            ),
            self.search_result(ip.is_v6(), 0, self.count_of(ip), ip.value(), full),
        ensures
            Self::same_result(indexed, full),
    {
        let v6 = ip.is_v6();
        let q = ip.value();
        let n = self.count_of(ip);
        let (lo, hi) = self.window(ip)->0;
        assert(0 <= lo);
        assert(self.sorted_window(v6, lo, hi));
        if exists|i: int| 0 <= i <= n && #[trigger] self.covers(v6, i, q) {
            let i = choose|i: int| 0 <= i <= n && #[trigger] self.covers(v6, i, q);
            assert(lo <= i <= hi);
            self.lemma_decoded_agree(v6, i, indexed, full);
        } else {
            assert(!exists|i: int| lo <= i <= hi && #[trigger] self.covers(v6, i, q));
        }
    }

    /// An address equal to the start of range `i + 1`, the end of range `i`, is not held by
    /// range `i`; over ascending starts, where range `i + 1` is not empty, it is held by that
    /// range and a search of the window gives what decoding that range gives.
    pub proof fn lemma_end_belongs_to_next(
        self,
        v6: bool,
        lo: int,
        hi: int,
        i: int,
        q: int,
        r: Result<Option<IP2LocationRecord>, DbError>,
    )
        requires
            self.sorted_window(v6, lo, hi),
            lo <= i,
            i + 1 <= hi,
            q == self.start_of(v6, i + 1)->0,
            self.search_result(v6, lo, hi, q, r),
        ensures
            !self.covers(v6, i, q),
            q < self.start_of(v6, i + 2)->0 ==> self.covers(v6, i + 1, q) && self.decoded(
                v6,
                i + 1,
                r,
            ),
    {
        assert(self.start_of(v6, i + 1) is Some);
        assert(self.start_of(v6, i + 2) is Some);
    }
}

} // verus!
