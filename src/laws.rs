//! What holds of a store across calls, against a model of a log group's
//! contents: its files, in index order, each a sequence of bytes.
use vstd::prelude::*;
use crate::record::{
    lemma_bytes_of_record, lemma_meta_log_round_trip, lemma_record_of_bytes, meta_log_of, record_of,
    records_of, MetaRecord, META_RECORD_SIZE,
};
use crate::store::{
    consistent, done_after, meta_append_after, payload, phase_after, record_for, value_location,
    Event, Location, Phase,
};

verus! {

/// `bytes` stand at `at` in a log group whose files are `files`: reading
/// `at` gives exactly them.
pub open spec fn stands_at(files: Seq<Seq<u8>>, at: Location, bytes: Seq<u8>) -> bool {
    &&& at.file_index < files.len()
    &&& at.length == bytes.len()
    &&& at.offset + at.length <= files[at.file_index as int].len()
    &&& files[at.file_index as int].subrange(at.offset as int, at.offset + at.length) == bytes
}

/// `later` is `earlier` after appends alone: no file was shortened or
/// changed, and files may have been added after the last one.
pub open spec fn appended_to(earlier: Seq<Seq<u8>>, later: Seq<Seq<u8>>) -> bool {
    &&& earlier.len() <= later.len()
    &&& forall|i: int|
        0 <= i < earlier.len() ==> earlier[i].len() <= later[i].len() && #[trigger] later[i].subrange(
            0,
            earlier[i].len() as int,
        ) == earlier[i]
}

/// The phase a store is in once it has asked to append the payload of
/// `key` and `value`.
pub open spec fn writing(key: Seq<u8>, value: Seq<u8>, fsync: bool) -> Phase {
    Phase::AwaitingValue {
        key_len: key.len() as u64,
        payload_len: (key.len() + value.len()) as u64,
        fsync,
    }
}

/// Writing then reading back: once the payload of a write stands where the
/// value log reported it, and the meta log reports its record appended, the
/// write hands back a location from which exactly `value` reads, in the file
/// the value log reported, whatever `key` is, empty or not.
pub proof fn lemma_write_then_read(
    key: Seq<u8>,
    value: Seq<u8>,
    fsync: bool,
    files: Seq<Seq<u8>>,
    at: Location,
    meta_at: Location,
)
    requires
        key.len() + value.len() <= u64::MAX,
        stands_at(files, at, payload(key, value)),
        at.offset + at.length <= u64::MAX,
    ensures
        ({
            let p = phase_after(writing(key, value, fsync), Event::Appended(at));
            &&& done_after(p, Event::Appended(meta_at)) == Some(value_location(at, key.len()))
            &&& value_location(at, key.len()).file_index == at.file_index
            &&& stands_at(files, value_location(at, key.len()), value)
        }),
{
    let f = files[at.file_index as int];
    let v = value_location(at, key.len());
    let whole = f.subrange(at.offset as int, at.offset + at.length);
    assert(f.subrange(v.offset as int, v.offset + v.length) =~= whole.subrange(
        key.len() as int,
        whole.len() as int,
    ));
    assert(payload(key, value).subrange(key.len() as int, (key.len() + value.len()) as int)
        =~= value);
}

/// The metadata record of a write locates its payload: the split point
/// lies within the payload's range, a key's length past its start, and the
/// value location that the write hands back is the rest of the payload.
pub proof fn lemma_split_point(at: Location, key_len: nat)
    requires
        key_len <= at.length,
        at.offset + at.length <= u64::MAX,
    ensures
        ({
            let m = record_for(at, key_len);
            let v = value_location(at, key_len);
            &&& m.file_index == at.file_index
            &&& m.value_log_offset == at.offset
            &&& m.value_log_length == at.length
            &&& m.value_log_offset <= m.split_point <= m.value_log_offset + m.value_log_length
            &&& m.split_point - m.value_log_offset == key_len
            &&& v.file_index == at.file_index
            &&& v.offset == m.split_point
            &&& v.length == at.length - key_len
            &&& v.offset + v.length == at.offset + at.length
        }),
{
}

/// A metadata append is asked for only on a report that the payload append
/// succeeded, and what it appends is one 25-byte record that points at the
/// reported payload. So a write cut short before that report leaves the
/// meta log as it was: a payload may stand unreferenced, never a record
/// without its payload.
pub proof fn lemma_meta_follows_payload(p: Phase, e: Event, bytes: Seq<u8>, fsync: bool)
    requires
        meta_append_after(p, e) == Some((bytes, fsync)),
    ensures
        p is AwaitingValue,
        e is Appended,
        consistent(e->0, p->payload_len),
        fsync == p->AwaitingValue_fsync,
        bytes.len() == META_RECORD_SIZE,
        record_of(bytes) == record_for(e->0, p->key_len as nat),
        phase_after(p, e) == (Phase::AwaitingMeta {
            value: value_location(e->0, p->key_len as nat),
            fsync,
        }),
{
    lemma_record_of_bytes(record_for(e->0, p->key_len as nat));
}

/// A failed append never leads to a metadata append nor to a completed
/// write, whatever the phase.
pub proof fn lemma_failure_ends_write(p: Phase)
    ensures
        meta_append_after(p, Event::Failed) is None,
        done_after(p, Event::Failed) is None,
        phase_after(p, Event::Failed) == Phase::Idle,
{
}

/// Appending to a log group, payloads that nothing references included,
/// keeps every earlier read as it was.
pub proof fn lemma_appends_keep_reads(
    earlier: Seq<Seq<u8>>,
    later: Seq<Seq<u8>>,
    at: Location,
    bytes: Seq<u8>,
)
    requires
        appended_to(earlier, later),
        stands_at(earlier, at, bytes),
    ensures
        stands_at(later, at, bytes),
{
    let i = at.file_index as int;
    let e = earlier[i];
    let l = later[i];
    assert(l.subrange(0, e.len() as int) == e);
    assert(l.subrange(at.offset as int, at.offset + at.length) =~= l.subrange(
        0,
        e.len() as int,
    ).subrange(at.offset as int, at.offset + at.length));
}

/// A meta log that holds whole records keeps doing so through every
/// metadata append a store asks for: it grows by exactly one 25-byte record,
/// the one that append describes, and reads back as the records appended so
/// far, in order.
pub proof fn lemma_meta_log_grows_by_records(
    rs: Seq<MetaRecord>,
    p: Phase,
    e: Event,
    bytes: Seq<u8>,
    fsync: bool,
)
    requires
        meta_append_after(p, e) == Some((bytes, fsync)),
    ensures
        meta_log_of(rs) + bytes == meta_log_of(rs.push(record_of(bytes))),
        (meta_log_of(rs) + bytes).len() == META_RECORD_SIZE * (rs.len() + 1),
        (meta_log_of(rs) + bytes).len() % (META_RECORD_SIZE as nat) == 0,
        records_of(meta_log_of(rs) + bytes) == rs.push(record_of(bytes)),
{
    lemma_meta_follows_payload(p, e, bytes, fsync);
    lemma_bytes_of_record(bytes);
    let grown = rs.push(record_of(bytes));
    assert(grown.drop_last() =~= rs);
    lemma_meta_log_round_trip(grown);
}

} // verus!
