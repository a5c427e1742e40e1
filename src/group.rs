//! Where a log group puts each append: the active file while the append
//! fits under the per-file limit, else a new file, up to 256 files.
use vstd::prelude::*;
use crate::store::Location;

verus! {

/// The most files a log group may hold; a file index is one byte.
pub const MAX_FILES: usize = 256;

/// Where an append of `len` bytes goes in a log group whose files have the
/// sizes `sizes`: the end of the last file, if that file is empty or the
/// append keeps it within `limit`; else the start of a new file, unless the
/// group already holds `MAX_FILES` files.
pub open spec fn placement(sizes: Seq<u64>, limit: u64, len: u64) -> Option<Location> {
    if sizes.len() == 0 {
        Some(Location { file_index: 0, offset: 0, length: len })
    } else if sizes.last() == 0 || sizes.last() + len <= limit {
        Some(Location { file_index: (sizes.len() - 1) as u8, offset: sizes.last(), length: len })
    } else if sizes.len() < MAX_FILES {
        Some(Location { file_index: sizes.len() as u8, offset: 0, length: len })
    } else {
        None
    }
}

/// The file sizes once `at` has been written.
pub open spec fn sizes_after(sizes: Seq<u64>, at: Location) -> Seq<u64> {
    if at.file_index < sizes.len() {
        sizes.update(at.file_index as int, (at.offset + at.length) as u64)
    } else {
        sizes.push(at.length)
    }
}

/// The sizes of a log group's files, in index order, and its per-file limit.
pub struct GroupLog {
    limit: u64,
    sizes: Vec<u64>,
}

impl GroupLog {
    /// The sizes of the files, in index order.
    pub closed spec fn spec_sizes(&self) -> Seq<u64> {
        self.sizes@
    }

    /// The per-file size limit.
    pub closed spec fn spec_limit(&self) -> u64 {
        self.limit
    }

    /// At most `MAX_FILES` files.
    pub open spec fn wf(&self) -> bool {
        self.spec_sizes().len() <= MAX_FILES
    }

    /// A log group with no files yet.
    pub fn new(limit_per_file: u64) -> (r: GroupLog)
        ensures
            r.wf(),
            r.spec_limit() == limit_per_file,
            r.spec_sizes() == Seq::<u64>::empty(),
    {
        GroupLog { limit: limit_per_file, sizes: Vec::new() }
    }

    /// A log group whose files already have the sizes `sizes`; `None` if
    /// there are more than `MAX_FILES` of them.
    pub fn open(limit_per_file: u64, sizes: Vec<u64>) -> (r: Option<GroupLog>)
        ensures
            r is Some <==> sizes@.len() <= MAX_FILES,
            r matches Some(g) ==> g.wf() && g.spec_limit() == limit_per_file && g.spec_sizes()
                == sizes@,
    {
        if sizes.len() > MAX_FILES {
            None
        } else {
            Some(GroupLog { limit: limit_per_file, sizes })
        }
    }

    /// The number of files.
    pub fn file_count(&self) -> (r: usize)
        ensures
            r == self.spec_sizes().len(),
    {
        self.sizes.len()
    }

    /// Places an append of `len` bytes and counts it as written; `None`,
    /// with nothing changed, when it would take a file past `MAX_FILES`.
    pub fn place(&mut self, len: u64) -> (r: Option<Location>)
        requires
            old(self).wf(),
        ensures
            final(self).wf(),
            final(self).spec_limit() == old(self).spec_limit(),
            r == placement(old(self).spec_sizes(), old(self).spec_limit(), len),
            r matches Some(at) ==> final(self).spec_sizes() == sizes_after(
                old(self).spec_sizes(),
                at,
            ) && at.offset + at.length <= u64::MAX,
            r is None ==> final(self).spec_sizes() == old(self).spec_sizes(),
    {
        let n = self.sizes.len();
        if n == 0 {
            self.sizes.push(len);
            return Some(Location { file_index: 0, offset: 0, length: len });
        }
        let last = self.sizes[n - 1];
        if last == 0 || (len <= self.limit && last <= self.limit - len) {
            self.sizes.set(n - 1, last + len);
            Some(Location { file_index: (n - 1) as u8, offset: last, length: len })
        } else if n < MAX_FILES {
            self.sizes.push(len);
            Some(Location { file_index: n as u8, offset: 0, length: len })
        } else {
            None
        }
    }
}

/// An append that would take the active file past the limit goes to the
/// start of the next file, whose index is one more; at `MAX_FILES` files
/// it is refused.
pub proof fn lemma_rotation(sizes: Seq<u64>, limit: u64, len: u64)
    requires
        0 < sizes.len() <= MAX_FILES,
        sizes.last() > 0,
        sizes.last() + len > limit,
    ensures
        sizes.len() < MAX_FILES ==> placement(sizes, limit, len) == Some(
            Location { file_index: sizes.len() as u8, offset: 0, length: len },
        ),
        sizes.len() < MAX_FILES ==> placement(sizes, limit, len).unwrap().file_index == (sizes.len()
            - 1) + 1,
        sizes.len() == MAX_FILES ==> placement(sizes, limit, len) is None,
{
}

} // verus!
