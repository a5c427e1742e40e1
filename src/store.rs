//! The separation layer: one logical write becomes a value-log append
//! followed by a meta-log append.
//!
//! The two log groups are driven from outside. `KV` says which request to
//! issue next, and is told what the log group reported; it never asks for the
//! metadata append before the value append has been reported done.
use vstd::prelude::*;
use crate::record::MetaRecord;

verus! {

/// A byte range in a log group: which file, where in it, and how long.
#[derive(Clone, Copy, Debug, PartialEq, Eq, Structural)]
pub struct Location {
    pub file_index: u8,
    pub offset: u64,
    pub length: u64,
}

/// The two log groups a store owns.
#[derive(Clone, Copy, Debug, PartialEq, Eq, Structural)]
pub enum LogName {
    /// Holds the fixed-width metadata records.
    Meta,
    /// Holds the key-then-value payloads.
    Value,
}

/// Work for a log group.
#[derive(Debug)]
pub enum Request {
    /// Append `bytes` to `log`, flushing them durably first when `fsync`.
    Append { log: LogName, bytes: Vec<u8>, fsync: bool },
    /// Read the whole of `log`, in file then offset order.
    ReadAll { log: LogName },
    /// Read exactly `length` bytes of file `file_index` of `log`, from `offset`.
    Read { log: LogName, file_index: u8, offset: u64, length: usize },
}

impl Request {
    /// `self` asks to append exactly `bytes` to `log`, with the given flush flag.
    pub open spec fn appends(self, log: LogName, bytes: Seq<u8>, fsync: bool) -> bool {
        match self {
            Request::Append { log: l, bytes: b, fsync: f } => l == log && b@ == bytes && f == fsync,
            _ => false,
        }
    }
}

/// What a log group reported for the last append it was asked for.
#[derive(Clone, Copy, Debug, PartialEq, Eq, Structural)]
pub enum Event {
    /// The bytes now stand at this location.
    Appended(Location),
    /// The append failed.
    Failed,
}

/// What a store does after an event.
#[derive(Debug)]
pub enum Step {
    /// Issue this request and report its outcome.
    Issue(Request),
    /// The write is complete; its value bytes stand at this location.
    Done(Location),
    /// The write failed.
    Failed,
}

/// Where a store is within a write.
#[derive(Clone, Copy, Debug, PartialEq, Eq, Structural)]
pub enum Phase {
    /// No write under way.
    Idle,
    /// The payload append was requested; the key is `key_len` of its
    /// `payload_len` bytes.
    AwaitingValue { key_len: u64, payload_len: u64, fsync: bool },
    /// The metadata append was requested; the value bytes stand at `value`.
    AwaitingMeta { value: Location, fsync: bool },
}

/// The payload of a write: the key bytes, then the value bytes.
pub open spec fn payload(key: Seq<u8>, value: Seq<u8>) -> Seq<u8> {
    key + value
}

/// A location reported for a payload of `payload_len` bytes is believable:
/// it has that length and ends within the 64-bit offset range.
pub open spec fn consistent(at: Location, payload_len: u64) -> bool {
    at.length == payload_len && at.offset + at.length <= u64::MAX
}

/// The metadata record for a payload appended at `at` whose key is
/// `key_len` bytes long.
pub open spec fn record_for(at: Location, key_len: nat) -> MetaRecord {
    MetaRecord {
        file_index: at.file_index,
        value_log_offset: at.offset,
        value_log_length: at.length,
        split_point: (at.offset + key_len) as u64,
    }
}

/// The value part of a payload appended at `at` whose key is `key_len`
/// bytes long.
pub open spec fn value_location(at: Location, key_len: nat) -> Location {
    Location {
        file_index: at.file_index,
        offset: (at.offset + key_len) as u64,
        length: (at.length - key_len) as u64,
    }
}

/// The phase a store moves to on `e` from `p`.
pub open spec fn phase_after(p: Phase, e: Event) -> Phase {
    match (p, e) {
        (Phase::AwaitingValue { key_len, payload_len, fsync }, Event::Appended(at)) => {
            if consistent(at, payload_len) {
                Phase::AwaitingMeta { value: value_location(at, key_len as nat), fsync }
            } else {
                Phase::Idle
            }
        },
        _ => Phase::Idle,
    }
}

/// The metadata append, as bytes and flush flag, that a store asks for on
/// `e` from `p`, if any.
pub open spec fn meta_append_after(p: Phase, e: Event) -> Option<(Seq<u8>, bool)> {
    match (p, e) {
        (Phase::AwaitingValue { key_len, payload_len, fsync }, Event::Appended(at)) => {
            if consistent(at, payload_len) {
                Some((record_for(at, key_len as nat).spec_bytes(), fsync))
            } else {
                None
            }
        },
        _ => None,
    }
}

/// The value location a store hands back on `e` from `p`, if the write
/// completes there.
pub open spec fn done_after(p: Phase, e: Event) -> Option<Location> {
    match (p, e) {
        (Phase::AwaitingMeta { value, fsync }, Event::Appended(_)) => Some(value),
        _ => None,
    }
}

/// A store over a value log group and a meta log group.
pub struct KV {
    meta_dir: String,
    kv_dir: String,
    limit_per_file: u64,
    phase: Phase,
}

impl View for KV {
    type V = Phase;

    closed spec fn view(&self) -> Phase {
        self.phase
    }
}

impl KV {
    /// Where the meta log group lives.
    pub closed spec fn spec_meta_dir(&self) -> Seq<char> {
        self.meta_dir@
    }

    /// Where the value log group lives.
    pub closed spec fn spec_kv_dir(&self) -> Seq<char> {
        self.kv_dir@
    }

    /// Size limit of each file, the same for both log groups.
    pub closed spec fn spec_limit_per_file(&self) -> u64 {
        self.limit_per_file
    }

    /// The configuration of `self` and `other` agree.
    pub open spec fn same_config(&self, other: &KV) -> bool {
        &&& self.spec_meta_dir() == other.spec_meta_dir()
        &&& self.spec_kv_dir() == other.spec_kv_dir()
        &&& self.spec_limit_per_file() == other.spec_limit_per_file()
    }

    /// Where the meta log group lives.
    pub fn meta_dir(&self) -> (r: &str)
        ensures
            r@ == self.spec_meta_dir(),
    {
        self.meta_dir.as_str()
    }

    /// Where the value log group lives.
    pub fn kv_dir(&self) -> (r: &str)
        ensures
            r@ == self.spec_kv_dir(),
    {
        self.kv_dir.as_str()
    }

    /// Size limit of each file, the same for both log groups.
    pub fn limit_per_file(&self) -> (r: u64)
        ensures
            r == self.spec_limit_per_file(),
    {
        self.limit_per_file
    }

    /// The phase is one a write can be in: the key lies within the payload.
    pub closed spec fn wf(&self) -> bool {
        match self.phase {
            Phase::AwaitingValue { key_len, payload_len, .. } => key_len <= payload_len,
            _ => true,
        }
    }

    /// A store over the log groups at `meta_dir` and `kv_dir`, with no write
    /// under way.
    pub fn new(meta_dir: &str, kv_dir: &str, limit_per_file: u64) -> (r: KV)
        ensures
            r.wf(),
            r@ == Phase::Idle,
            r.spec_meta_dir() == meta_dir@,
            r.spec_kv_dir() == kv_dir@,
            r.spec_limit_per_file() == limit_per_file,
    {
        KV {
            meta_dir: meta_dir.to_string(),
            kv_dir: kv_dir.to_string(),
            limit_per_file,
            phase: Phase::Idle,
        }
    }

    /// Starts a write of `value` under `key`: asks for the payload, key then
    /// value, to be appended to the value log. Any write under way is
    /// abandoned; its payload, if it was appended, is never referenced.
    pub fn write(&mut self, key: &[u8], value: &[u8], fsync: bool) -> (r: Request)
        requires
            key@.len() + value@.len() <= u64::MAX,
        ensures
            final(self).wf(),
            final(self)@ == (Phase::AwaitingValue {
                key_len: key@.len() as u64,
                payload_len: (key@.len() + value@.len()) as u64,
                fsync,
            }),
            final(self).same_config(old(self)),
            r.appends(LogName::Value, payload(key@, value@), fsync),
    {
        let mut bytes: Vec<u8> = Vec::new();
        let mut i: usize = 0;
        while i < key.len()
            invariant
                i <= key@.len(),
                bytes@ == key@.subrange(0, i as int),
            decreases key@.len() - i,
        {
            bytes.push(key[i]);
            i = i + 1;
        }
        let mut j: usize = 0;
        while j < value.len()
            invariant
                j <= value@.len(),
                bytes@ == key@ + value@.subrange(0, j as int),
            decreases value@.len() - j,
        {
            bytes.push(value[j]);
            j = j + 1;
        }
        assert(key@.subrange(0, key@.len() as int) == key@);
        assert(value@.subrange(0, value@.len() as int) == value@);
        self.phase = Phase::AwaitingValue {
            key_len: key.len() as u64,
            payload_len: bytes.len() as u64,
            fsync,
        };
        Request::Append { log: LogName::Value, bytes, fsync }
    }

    /// Takes in what the log group reported for the request last issued, and
    /// says what to do next.
    ///
    /// After the payload append, a consistent report leads to the metadata
    /// append for that payload; after the metadata append, the write is done
    /// and hands back where its value bytes stand. A failure, an inconsistent
    /// report, or an event with no write under way fails the write.
    pub fn advance(&mut self, event: Event) -> (r: Step)
        requires
            old(self).wf(),
        ensures
            final(self).wf(),
            final(self)@ == phase_after(old(self)@, event),
            final(self).same_config(old(self)),
            match meta_append_after(old(self)@, event) {
                Some((bytes, fsync)) => r matches Step::Issue(q) && q.appends(LogName::Meta, bytes, fsync),
                None => match done_after(old(self)@, event) {
                    Some(v) => r == Step::Done(v),
                    None => r is Failed,
                },
            },
    {
        match (self.phase, event) {
            (Phase::AwaitingValue { key_len, payload_len, fsync }, Event::Appended(at)) => {
                if at.length == payload_len && at.offset <= u64::MAX - at.length {
                    let record = MetaRecord {
                        file_index: at.file_index,
                        value_log_offset: at.offset,
                        value_log_length: at.length,
                        split_point: at.offset + key_len,
                    };
                    self.phase = Phase::AwaitingMeta {
                        value: Location {
                            file_index: at.file_index,
                            offset: at.offset + key_len,
                            length: at.length - key_len,
                        },
                        fsync,
                    };
                    Step::Issue(Request::Append { log: LogName::Meta, bytes: record.encode(), fsync })
                } else {
                    self.phase = Phase::Idle;
                    Step::Failed
                }
            },
            (Phase::AwaitingMeta { value, fsync }, Event::Appended(_)) => {
                self.phase = Phase::Idle;
                Step::Done(value)
            },
            _ => {
                self.phase = Phase::Idle;
                Step::Failed
            },
        }
    }

    /// Asks for the whole meta log, for replay 25 bytes at a time.
    pub fn read_meta(&self) -> (r: Request)
        ensures
            r == (Request::ReadAll { log: LogName::Meta }),
    {
        Request::ReadAll { log: LogName::Meta }
    }

    /// Asks for `len` bytes of value-log file `fidx`, from `offset`.
    pub fn read_kv(&self, fidx: u8, offset: u64, len: usize) -> (r: Request)
        ensures
            r == (Request::Read { log: LogName::Value, file_index: fidx, offset, length: len }),
    {
        Request::Read { log: LogName::Value, file_index: fidx, offset, length: len }
    }
}

} // verus!
