//! The fixed-width metadata record and its big-endian byte layout.
use vstd::prelude::*;
use crate::store::Location;

verus! {

/// Big-endian bytes of a 64-bit integer, most significant first.
pub open spec fn be_bytes(v: u64) -> Seq<u8> {
    seq![
        (v >> 56u64) as u8,
        (v >> 48u64) as u8,
        (v >> 40u64) as u8,
        (v >> 32u64) as u8,
        (v >> 24u64) as u8,
        (v >> 16u64) as u8,
        (v >> 8u64) as u8,
        v as u8,
    ]
}

/// The integer that eight big-endian bytes stand for.
pub open spec fn be_value(b: Seq<u8>) -> u64
    recommends
        b.len() == 8,
{
    (b[0] as u64) << 56u64 | (b[1] as u64) << 48u64 | (b[2] as u64) << 40u64 | (b[3] as u64)
        << 32u64 | (b[4] as u64) << 24u64 | (b[5] as u64) << 16u64 | (b[6] as u64) << 8u64
        | (b[7] as u64)
}

pub proof fn lemma_be_value_of_bytes(v: u64)
    ensures
        be_value(be_bytes(v)) == v,
{
    assert(((((v >> 56u64) as u8) as u64) << 56u64 | (((v >> 48u64) as u8) as u64) << 48u64
        | (((v >> 40u64) as u8) as u64) << 40u64 | (((v >> 32u64) as u8) as u64) << 32u64
        | (((v >> 24u64) as u8) as u64) << 24u64 | (((v >> 16u64) as u8) as u64) << 16u64
        | (((v >> 8u64) as u8) as u64) << 8u64 | ((v as u8) as u64)) == v) by (bit_vector);
}

pub proof fn lemma_bytes_of_be_value(b: Seq<u8>)
    requires
        b.len() == 8,
    ensures
        be_bytes(be_value(b)) == b,
{
    let (b0, b1, b2, b3, b4, b5, b6, b7) = (b[0], b[1], b[2], b[3], b[4], b[5], b[6], b[7]);
    let v = be_value(b);
    assert(v == (b0 as u64) << 56u64 | (b1 as u64) << 48u64 | (b2 as u64) << 40u64 | (b3 as u64)
        << 32u64 | (b4 as u64) << 24u64 | (b5 as u64) << 16u64 | (b6 as u64) << 8u64
        | (b7 as u64));
    assert(v == (b0 as u64) << 56u64 | (b1 as u64) << 48u64 | (b2 as u64) << 40u64 | (b3 as u64)
        << 32u64 | (b4 as u64) << 24u64 | (b5 as u64) << 16u64 | (b6 as u64) << 8u64
        | (b7 as u64) ==> (v >> 56u64) as u8 == b0 && (v >> 48u64) as u8 == b1 && (v
        >> 40u64) as u8 == b2 && (v >> 32u64) as u8 == b3 && (v >> 24u64) as u8 == b4 && (v
        >> 16u64) as u8 == b5 && (v >> 8u64) as u8 == b6 && v as u8 == b7) by (bit_vector);
    assert(be_bytes(v) =~= b);
}

/// Appends the eight big-endian bytes of `v` to `out`.
fn push_be64(out: &mut Vec<u8>, v: u64)
    ensures
        final(out)@ == old(out)@ + be_bytes(v),
{
    out.push((v >> 56u64) as u8);
    out.push((v >> 48u64) as u8);
    out.push((v >> 40u64) as u8);
    out.push((v >> 32u64) as u8);
    out.push((v >> 24u64) as u8);
    out.push((v >> 16u64) as u8);
    out.push((v >> 8u64) as u8);
    out.push(v as u8);
    assert(final(out)@ =~= old(out)@ + be_bytes(v));
}

/// Reads the big-endian integer held in `b[at..at + 8]`.
fn read_be64(b: &[u8], at: usize) -> (r: u64)
    requires
        at + 8 <= b@.len(),
    ensures
        r == be_value(b@.subrange(at as int, at + 8)),
{
    let s = Ghost(b@.subrange(at as int, at + 8));
    assert(s@[0] == b@[at as int] && s@[7] == b@[at + 7]);
    (b[at] as u64) << 56u64 | (b[at + 1] as u64) << 48u64 | (b[at + 2] as u64) << 40u64
        | (b[at + 3] as u64) << 32u64 | (b[at + 4] as u64) << 24u64 | (b[at + 5] as u64)
        << 16u64 | (b[at + 6] as u64) << 8u64 | (b[at + 7] as u64)
}

/// Size in bytes of one encoded metadata record: an index byte and three
/// big-endian 64-bit integers.
pub const META_RECORD_SIZE: usize = 25;

/// Where one key-value payload lives in the value log, and where its value
/// part begins.
#[derive(Clone, Copy, Debug, PartialEq, Eq, Structural)]
pub struct MetaRecord {
    /// Which file of the value log holds the payload.
    pub file_index: u8,
    /// Byte offset of the payload's first (key) byte within that file.
    pub value_log_offset: u64,
    /// Length of the whole payload, key and value together.
    pub value_log_length: u64,
    /// Byte offset, within the same file, of the payload's first value byte.
    pub split_point: u64,
}

impl MetaRecord {
    /// The record's 25-byte layout: the file index, then offset, length and
    /// split point, each big-endian.
    pub open spec fn spec_bytes(self) -> Seq<u8> {
        seq![self.file_index] + be_bytes(self.value_log_offset) + be_bytes(self.value_log_length)
            + be_bytes(self.split_point)
    }

    /// The bytes of `self` in the meta log's layout.
    pub fn encode(&self) -> (r: Vec<u8>)
        ensures
            r@ == self.spec_bytes(),
            r@.len() == META_RECORD_SIZE,
    {
        let mut out: Vec<u8> = Vec::new();
        out.push(self.file_index);
        push_be64(&mut out, self.value_log_offset);
        push_be64(&mut out, self.value_log_length);
        push_be64(&mut out, self.split_point);
        assert(out@ =~= self.spec_bytes());
        out
    }

    /// The record's key bytes, from the payload's start up to the split
    /// point; `None` where the split point lies outside the payload.
    pub fn key_location(&self) -> (r: Option<Location>)
        ensures
            r is Some <==> self.value_log_offset <= self.split_point <= self.value_log_offset
                + self.value_log_length,
            r matches Some(at) ==> at == (Location {
                file_index: self.file_index,
                offset: self.value_log_offset,
                length: (self.split_point - self.value_log_offset) as u64,
            }),
    {
        if self.split_point < self.value_log_offset || self.split_point - self.value_log_offset
            > self.value_log_length {
            return None;
        }
        Some(
            Location {
                file_index: self.file_index,
                offset: self.value_log_offset,
                length: self.split_point - self.value_log_offset,
            },
        )
    }

    /// The record's value bytes, from the split point to the payload's end;
    /// `None` where the split point lies outside the payload.
    pub fn value_location(&self) -> (r: Option<Location>)
        ensures
            r is Some <==> self.value_log_offset <= self.split_point <= self.value_log_offset
                + self.value_log_length,
            r matches Some(at) ==> at == (Location {
                file_index: self.file_index,
                offset: self.split_point,
                length: (self.value_log_offset + self.value_log_length - self.split_point) as u64,
            }),
    {
        if self.split_point < self.value_log_offset || self.split_point - self.value_log_offset
            > self.value_log_length {
            return None;
        }
        Some(
            Location {
                file_index: self.file_index,
                offset: self.split_point,
                length: self.value_log_length - (self.split_point - self.value_log_offset),
            },
        )
    }

    /// Reads one record from exactly 25 bytes; `None` for any other length.
    pub fn decode(bytes: &[u8]) -> (r: Option<MetaRecord>)
        ensures
            r is Some <==> bytes@.len() == META_RECORD_SIZE,
            r is Some ==> r == Some(record_of(bytes@)),
    {
        if bytes.len() != META_RECORD_SIZE {
            return None;
        }
        Some(Self::decode_at(bytes, 0))
    }

    /// Reads the record that starts at `at`.
    fn decode_at(bytes: &[u8], at: usize) -> (r: MetaRecord)
        requires
            at + META_RECORD_SIZE <= bytes@.len(),
        ensures
            r == record_of(bytes@.subrange(at as int, at + META_RECORD_SIZE)),
    {
        let ghost s = bytes@.subrange(at as int, at + META_RECORD_SIZE);
        assert(s.subrange(1, 9) =~= bytes@.subrange(at + 1, at + 9));
        assert(s.subrange(9, 17) =~= bytes@.subrange(at + 9, at + 17));
        assert(s.subrange(17, 25) =~= bytes@.subrange(at + 17, at + 25));
        MetaRecord {
            file_index: bytes[at],
            value_log_offset: read_be64(bytes, at + 1),
            value_log_length: read_be64(bytes, at + 9),
            split_point: read_be64(bytes, at + 17),
        }
    }
}

/// The record that 25 bytes in the meta log's layout stand for.
pub open spec fn record_of(b: Seq<u8>) -> MetaRecord
    recommends
        b.len() == META_RECORD_SIZE,
{
    MetaRecord {
        file_index: b[0],
        value_log_offset: be_value(b.subrange(1, 9)),
        value_log_length: be_value(b.subrange(9, 17)),
        split_point: be_value(b.subrange(17, 25)),
    }
}

/// Decoding the bytes of a record gives that record back.
pub proof fn lemma_record_of_bytes(m: MetaRecord)
    ensures
        m.spec_bytes().len() == META_RECORD_SIZE,
        record_of(m.spec_bytes()) == m,
{
    let b = m.spec_bytes();
    assert(b.subrange(1, 9) =~= be_bytes(m.value_log_offset));
    assert(b.subrange(9, 17) =~= be_bytes(m.value_log_length));
    assert(b.subrange(17, 25) =~= be_bytes(m.split_point));
    lemma_be_value_of_bytes(m.value_log_offset);
    lemma_be_value_of_bytes(m.value_log_length);
    lemma_be_value_of_bytes(m.split_point);
}

/// Every 25 bytes are the encoding of the record they decode to.
pub proof fn lemma_bytes_of_record(b: Seq<u8>)
    requires
        b.len() == META_RECORD_SIZE,
    ensures
        record_of(b).spec_bytes() == b,
{
    lemma_bytes_of_be_value(b.subrange(1, 9));
    lemma_bytes_of_be_value(b.subrange(9, 17));
    lemma_bytes_of_be_value(b.subrange(17, 25));
    assert(record_of(b).spec_bytes() =~= b);
}

/// The records a meta log holds, read 25 bytes at a time; trailing bytes
/// short of a whole record are not counted.
pub open spec fn records_of(b: Seq<u8>) -> Seq<MetaRecord> {
    Seq::new(
        b.len() / META_RECORD_SIZE as nat,
        |i: int|
            record_of(b.subrange(META_RECORD_SIZE * i, META_RECORD_SIZE * i + META_RECORD_SIZE)),
    )
}

/// The meta log made by appending the records of `rs` in order.
pub open spec fn meta_log_of(rs: Seq<MetaRecord>) -> Seq<u8>
    decreases rs.len(),
{
    if rs.len() == 0 {
        Seq::empty()
    } else {
        meta_log_of(rs.drop_last()) + rs.last().spec_bytes()
    }
}

/// Splits a whole meta log into its records, in write order; `None` where
/// its length is not a multiple of the record size.
pub fn decode_meta_log(bytes: &[u8]) -> (r: Option<Vec<MetaRecord>>)
    ensures
        r is Some <==> bytes@.len() % (META_RECORD_SIZE as nat) == 0,
        r is Some ==> r.unwrap()@ == records_of(bytes@),
{
    if bytes.len() % META_RECORD_SIZE != 0 {
        return None;
    }
    let mut out: Vec<MetaRecord> = Vec::new();
    let mut at: usize = 0;
    while at < bytes.len()
        invariant
            at % META_RECORD_SIZE == 0,
            at <= bytes@.len(),
            bytes@.len() % (META_RECORD_SIZE as nat) == 0,
            out@.len() == at / META_RECORD_SIZE,
            forall|j: int|
                0 <= j < out@.len() ==> #[trigger] out@[j] == record_of(
                    bytes@.subrange(META_RECORD_SIZE * j, META_RECORD_SIZE * j + META_RECORD_SIZE),
                ),
        decreases bytes@.len() - at,
    {
        let m = MetaRecord::decode_at(bytes, at);
        out.push(m);
        at = at + META_RECORD_SIZE;
    }
    assert(out@ =~= records_of(bytes@));
    Some(out)
}

/// A meta log holds 25 bytes per record appended, and reading it back
/// 25 bytes at a time gives the records in the order they were appended.
pub proof fn lemma_meta_log_round_trip(rs: Seq<MetaRecord>)
    ensures
        meta_log_of(rs).len() == META_RECORD_SIZE * rs.len(),
        meta_log_of(rs).len() % (META_RECORD_SIZE as nat) == 0,
        records_of(meta_log_of(rs)) == rs,
    decreases rs.len(),
{
    let b = meta_log_of(rs);
    let n = rs.len() as int;
    if n > 0 {
        let init = rs.drop_last();
        lemma_meta_log_round_trip(init);
        lemma_record_of_bytes(rs.last());
        let a = meta_log_of(init);
        assert(b.len() == META_RECORD_SIZE * n);
        assert forall|j: int| 0 <= j < n implies #[trigger] records_of(b)[j] == rs[j] by {
            let lo = META_RECORD_SIZE * j;
            if j < n - 1 {
                assert(lo + META_RECORD_SIZE <= META_RECORD_SIZE * (n - 1)) by (nonlinear_arith)
                    requires
                        j < n - 1,
                        lo == META_RECORD_SIZE * j,
                ;
                assert(b.subrange(lo, lo + META_RECORD_SIZE) =~= a.subrange(
                    lo,
                    lo + META_RECORD_SIZE,
                ));
                assert(records_of(a)[j] == init[j]);
            } else {
                assert(b.subrange(lo, lo + META_RECORD_SIZE) =~= rs.last().spec_bytes());
            }
        }
    }
    assert(b.len() / (META_RECORD_SIZE as nat) == n && b.len() % (META_RECORD_SIZE as nat) == 0)
        by (nonlinear_arith)
        requires
            b.len() == META_RECORD_SIZE * n,
            n >= 0,
    ;
    assert(records_of(b) =~= rs);
}

} // verus!
