//! Download progress over the files of a dump.

use vstd::prelude::*;

use crate::file_name::FileName;

verus! {

/// The sizes of the named files.
pub open spec fn sizes_of(files: Seq<(FileName, usize)>) -> Seq<usize> {
    files.map_values(|f: (FileName, usize)| f.1)
}

/// The sum of the sizes.
pub open spec fn total(sizes: Seq<usize>) -> nat
    decreases sizes.len(),
{
    if sizes.len() == 0 {
        0
    } else {
        total(sizes.drop_last()) + sizes.last() as nat
    }
}

proof fn lemma_total_prefix(sizes: Seq<usize>, i: int)
    requires
        0 <= i < sizes.len(),
    ensures
        total(sizes.take(i + 1)) == total(sizes.take(i)) + sizes[i],
        total(sizes.take(i)) + sizes[i] <= total(sizes),
    decreases sizes.len(),
{
    assert(sizes.take(i + 1).drop_last() =~= sizes.take(i));
    if i + 1 < sizes.len() {
        lemma_total_prefix(sizes.drop_last(), i);
        assert(sizes.drop_last().take(i + 1) =~= sizes.take(i + 1));
        assert(sizes.drop_last().take(i) =~= sizes.take(i));
    } else {
        assert(sizes.take(i + 1) =~= sizes);
    }
}

/// Where the download of a dump stands: the files in order, their sizes, the
/// file being read and the position in it.
#[derive(Debug, Clone)]
pub struct DownloadTracker {
    /// When the download started, in seconds since the Unix epoch.
    pub start_time: i64,
    pub file_names: Vec<FileName>,
    pub file_sizes: Vec<usize>,
    pub total_size: usize,
    pub current_file: usize,
    pub passive_offset: usize,
    pub current_offset: usize,
}

impl DownloadTracker {
    /// One size per name, the total is their sum, and the bytes of the files
    /// already read are the sizes of the files before the current one.
    pub open spec fn wf(&self) -> bool {
        &&& self.file_names@.len() == self.file_sizes@.len()
        &&& self.total_size == total(self.file_sizes@)
        &&& self.current_file <= self.file_sizes@.len()
        &&& self.passive_offset == total(self.file_sizes@.take(self.current_file as int))
    }

    pub open spec fn sizes(&self) -> Seq<usize> {
        self.file_sizes@
    }

    pub open spec fn position(&self) -> (usize, usize, usize) {
        (self.current_file, self.passive_offset, self.current_offset)
    }

    /// A tracker at the start of the first of `files`, named with their sizes.
    pub fn new(files: &Vec<(FileName, usize)>, start_time: i64) -> (r: DownloadTracker)
        requires
            total(sizes_of(files@)) <= usize::MAX,
        ensures
            r.wf(),
            r.sizes() == sizes_of(files@),
            r.position() == (0usize, 0usize, 0usize),
            r.start_time == start_time,
    {
        let ghost sizes = sizes_of(files@);
        let mut file_names: Vec<FileName> = Vec::new();
        let mut file_sizes: Vec<usize> = Vec::new();
        let mut total_size: usize = 0;
        let mut i: usize = 0;
        while i < files.len()
            invariant
                sizes == sizes_of(files@),
                total(sizes) <= usize::MAX,
                0 <= i <= files@.len(),
                file_names@.len() == i,
                file_sizes@ == sizes.take(i as int),
                total_size == total(sizes.take(i as int)),
            decreases files@.len() - i,
        {
            proof {
                lemma_total_prefix(sizes, i as int);
            }
            let size = files[i].1;
            file_names.push(files[i].0.clone());
            file_sizes.push(size);
            total_size = total_size + size;
            i = i + 1;
            assert(file_sizes@ =~= sizes.take(i as int));
        }
        assert(sizes.take(i as int) =~= sizes);
        assert(sizes.take(0) =~= Seq::<usize>::empty());
        DownloadTracker {
            start_time,
            file_names,
            file_sizes,
            total_size,
            current_file: 0,
            passive_offset: 0,
            current_offset: 0,
        }
    }

    /// Records the position reached in the current file.
    pub fn set_current_position(&mut self, buffer_position: usize)
        ensures
            final(self).wf() == old(self).wf(),
            final(self).sizes() == old(self).sizes(),
            final(self).position() == (
                old(self).current_file,
                old(self).passive_offset,
                buffer_position,
            ),
    {
        self.current_offset = buffer_position;
    }

    /// The size of all files together.
    pub fn total_size(&self) -> (r: usize)
        requires
            self.wf(),
        ensures
            r == total(self.sizes()),
    {
        self.total_size
    }

    /// The bytes read so far over all files, at most `usize::MAX`.
    pub fn downloaded(&self) -> (r: usize)
        ensures
            r == if self.passive_offset + self.current_offset <= usize::MAX {
                (self.passive_offset + self.current_offset) as usize
            } else {
                usize::MAX
            },
    {
        self.passive_offset.saturating_add(self.current_offset)
    }

    /// Moves on to the next file.
    pub fn advance_file(&mut self)
        requires
            old(self).wf(),
            old(self).current_file < old(self).sizes().len(),
        ensures
            final(self).wf(),
            final(self).sizes() == old(self).sizes(),
            final(self).position() == (
                (old(self).current_file + 1) as usize,
                (old(self).passive_offset + old(self).sizes()[old(self).current_file as int]) as usize,
                0usize,
            ),
    {
        proof {
            lemma_total_prefix(self.file_sizes@, self.current_file as int);
        }
        let files = self.file_sizes.len();
        assert(self.current_file < files);
        self.passive_offset = self.passive_offset + self.file_sizes[self.current_file];
        self.current_offset = 0;
        self.current_file = self.current_file + 1;
    }

    /// The name of the file being read, if any is left.
    pub fn current_file(&self) -> (r: Option<&FileName>)
        requires
            self.wf(),
        ensures
            r is Some <==> self.current_file < self.sizes().len(),
            r matches Some(n) ==> *n == self.file_names@[self.current_file as int],
    {
        if self.current_file < self.file_names.len() {
            Some(&self.file_names[self.current_file])
        } else {
            None
        }
    }
}

} // verus!
