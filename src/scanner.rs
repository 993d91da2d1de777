//! The backward block scan that finds where a file's real content ends.
//!
//! `ScanState` holds the decisions of the scan: which block to read next,
//! what a block read tells about the boundary, and when to stop. The caller
//! performs the reads; `compute_trim_boundary` runs the same scan over bytes
//! that are already in memory.
use vstd::prelude::*;
use vstd::slice::slice_subrange;
use crate::boundary::{all_match, trim_boundary, lemma_boundary_is_maximal_suffix,
    lemma_boundary_zero_iff_all_match, lemma_boundary_of_concat};

verus! {

/// The number of bytes read at a time.
pub const BLOCK_SIZE: u64 = 4096;

/// The boundary of one block, found by scanning it front to back: a count of
/// the matching bytes seen since the last other byte is folded into the
/// result each time another byte comes.
pub fn scan_block(block: &[u8], target_byte: u8) -> (r: usize)
    ensures
        r == trim_boundary(block@, target_byte),
{
    let mut valid: usize = 0;
    let mut run: usize = 0;
    let mut i: usize = 0;
    while i < block.len()
        invariant
            i <= block@.len(),
            valid + run == i,
            valid == trim_boundary(block@.subrange(0, i as int), target_byte),
        decreases block@.len() - i,
    {
        let ghost prefix = block@.subrange(0, i + 1);
        assert(prefix.drop_last() =~= block@.subrange(0, i as int));
        if block[i] == target_byte {
            run = run + 1;
        } else {
            valid = valid + run + 1;
            run = 0;
        }
        i = i + 1;
    }
    assert(block@.subrange(0, i as int) =~= block@);
    valid
}

/// The state of a backward scan over a file of `total_len` bytes.
///
/// The bytes from `cursor` to the end have been read (they are `seen`), and
/// `valid_len` is the boundary that they imply. The scan is finished once a
/// byte other than the target has been read, or the start of the file reached.
pub struct ScanState {
    total_len: u64,
    target_byte: u8,
    valid_len: u64,
    cursor: u64,
    finished: bool,
    seen: Ghost<Seq<u8>>,
}

impl ScanState {
    pub closed spec fn spec_total_len(&self) -> u64 {
        self.total_len
    }

    pub closed spec fn spec_target_byte(&self) -> u8 {
        self.target_byte
    }

    pub closed spec fn spec_valid_len(&self) -> u64 {
        self.valid_len
    }

    pub closed spec fn spec_cursor(&self) -> u64 {
        self.cursor
    }

    pub closed spec fn spec_finished(&self) -> bool {
        self.finished
    }

    /// The bytes read so far: those of the file from `cursor` to its end.
    pub closed spec fn seen(&self) -> Seq<u8> {
        self.seen@
    }

    pub open spec fn wf(&self) -> bool {
        &&& self.spec_cursor() <= self.spec_total_len()
        &&& self.seen().len() == self.spec_total_len() - self.spec_cursor()
        &&& self.spec_valid_len() == self.spec_cursor() + trim_boundary(self.seen(), self.spec_target_byte())
        &&& self.spec_finished() <==> (self.spec_cursor() == 0 || !all_match(self.seen(), self.spec_target_byte()))
    }

    /// The length of the next block: a full block, or what is left before it.
    pub open spec fn spec_next_block_len(&self) -> u64 {
        if self.spec_cursor() < BLOCK_SIZE {
            self.spec_cursor()
        } else {
            BLOCK_SIZE
        }
    }

    /// A scan of a file of `total_len` bytes that has read nothing yet.
    pub fn new(total_len: u64, target_byte: u8) -> (r: ScanState)
        ensures
            r.wf(),
            r.spec_total_len() == total_len,
            r.spec_target_byte() == target_byte,
            r.spec_cursor() == total_len,
            r.seen() == Seq::<u8>::empty(),
            r.spec_valid_len() == total_len,
            r.spec_finished() == (total_len == 0),
    {
        ScanState {
            total_len,
            target_byte,
            valid_len: total_len,
            cursor: total_len,
            finished: total_len == 0,
            seen: Ghost(Seq::empty()),
        }
    }

    pub fn valid_len(&self) -> (r: u64)
        ensures
            r == self.spec_valid_len(),
    {
        self.valid_len
    }

    pub fn is_finished(&self) -> (r: bool)
        ensures
            r == self.spec_finished(),
    {
        self.finished
    }

    /// Where the next block starts in the file, and how many bytes it holds.
    pub fn next_block(&self) -> (r: (u64, usize))
        requires
            self.wf(),
            !self.spec_finished(),
        ensures
            r.1 == self.spec_next_block_len(),
            r.0 == self.spec_cursor() - r.1,
            r.1 > 0,
    {
        let len: u64 = if self.cursor < BLOCK_SIZE {
            self.cursor
        } else {
            BLOCK_SIZE
        };
        (self.cursor - len, len as usize)
    }

    /// Takes in the next block, the bytes just before `cursor`. The boundary
    /// never grows, and it only moves below `cursor` over bytes that match.
    pub fn feed_block(&mut self, block: &[u8])
        requires
            old(self).wf(),
            !old(self).spec_finished(),
            block@.len() == old(self).spec_next_block_len(),
        ensures
            final(self).wf(),
            final(self).spec_total_len() == old(self).spec_total_len(),
            final(self).spec_target_byte() == old(self).spec_target_byte(),
            final(self).spec_cursor() == old(self).spec_cursor() - block@.len(),
            final(self).seen() == block@ + old(self).seen(),
            final(self).spec_valid_len() <= old(self).spec_valid_len(),
    {
        let k = scan_block(block, self.target_byte);
        let start = self.cursor - block.len() as u64;
        proof {
            lemma_boundary_zero_iff_all_match(self.seen@, self.target_byte);
            lemma_boundary_is_maximal_suffix(block@, self.target_byte);
            lemma_boundary_of_concat(block@, self.seen@, self.target_byte);
            lemma_boundary_zero_iff_all_match(block@, self.target_byte);
            lemma_all_match_concat(block@, self.seen@, self.target_byte);
        }
        self.cursor = start;
        self.valid_len = start + k as u64;
        self.finished = k > 0 || start == 0;
        self.seen = Ghost(block@ + self.seen@);
    }
}

proof fn lemma_all_match_concat(p: Seq<u8>, q: Seq<u8>, target: u8)
    ensures
        all_match(p + q, target) <==> all_match(p, target) && all_match(q, target),
{
    if all_match(p + q, target) {
        assert forall|i: int| 0 <= i < q.len() implies q[i] == target by {
            assert((p + q)[p.len() + i] == q[i]);
        }
        assert forall|i: int| 0 <= i < p.len() implies p[i] == target by {
            assert((p + q)[i] == p[i]);
        }
    }
}

/// A finished scan has found the boundary of every file of its length whose
/// tail is what it read.
pub proof fn lemma_finished_scan_gives_boundary(st: ScanState, file: Seq<u8>)
    requires
        st.wf(),
        st.spec_finished(),
        file.len() == st.spec_total_len(),
        file.subrange(st.spec_cursor() as int, file.len() as int) == st.seen(),
    ensures
        trim_boundary(file, st.spec_target_byte()) == st.spec_valid_len(),
{
    let c = st.spec_cursor() as int;
    assert(file =~= file.subrange(0, c) + file.subrange(c, file.len() as int));
    lemma_boundary_of_concat(file.subrange(0, c), st.seen(), st.spec_target_byte());
    lemma_boundary_zero_iff_all_match(st.seen(), st.spec_target_byte());
}

/// The length of `data` without its trailing run of `target_byte`, found by
/// the backward block scan.
pub fn compute_trim_boundary(data: &[u8], target_byte: u8) -> (r: u64)
    requires
        data@.len() <= u64::MAX,
    ensures
        r == trim_boundary(data@, target_byte),
        r <= data@.len(),
{
    let n: usize = data.len();
    let mut st = ScanState::new(n as u64, target_byte);
    while !st.is_finished()
        invariant
            n == data@.len(),
            st.wf(),
            st.spec_total_len() == data@.len(),
            st.spec_target_byte() == target_byte,
            st.seen() == data@.subrange(st.spec_cursor() as int, data@.len() as int),
        decreases st.spec_cursor(),
    {
        let (start, len) = st.next_block();
        assert(start + len == st.spec_cursor());
        let first: usize = start as usize;
        let block = slice_subrange(data, first, first + len);
        assert(block@ + st.seen() =~= data@.subrange(start as int, data@.len() as int));
        st.feed_block(block);
    }
    proof {
        lemma_finished_scan_gives_boundary(st, data@);
        lemma_boundary_is_maximal_suffix(data@, target_byte);
    }
    st.valid_len()
}

} // verus!
