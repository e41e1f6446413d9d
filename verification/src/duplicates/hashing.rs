//! Content fingerprints for duplicate detection: a BLAKE3 digest of a few
//! samples (partial hash), of the whole content (full hash), and a
//! chunk-by-chunk comparison of two contents. Reading the files is left to the
//! caller, which hands the bytes in.
use vstd::prelude::*;
use vstd::bytes::{spec_u64_to_le_bytes, u64_to_le_bytes};
use crate::domain::error::{CommandError, ErrorCode};
use crate::ids::is_lower_hex;
use crate::scanner::walker::FsErrorKind;

verus! {

/// Bytes read from each sampled region of a file.
pub const SAMPLE_BYTES: usize = 131072;

/// Size of the read buffer used while streaming a whole file.
pub const BUFFER_BYTES: usize = 262144;

#[verifier::external_type_specification]
#[verifier::external_body]
pub struct ExBlake3Hasher(blake3::Hasher);

/// All the bytes fed to a `blake3::Hasher` so far, in order.
pub uninterp spec fn hashed_input(h: blake3::Hasher) -> Seq<u8>;

/// The lower-case hexadecimal BLAKE3 digest of a byte sequence.
pub uninterp spec fn blake3_hex(input: Seq<u8>) -> Seq<char>;

/// `blake3::Hasher::new()`: a hasher that has been fed nothing.
#[verifier::external_body]
fn new_hasher() -> (h: blake3::Hasher)
    ensures
        hashed_input(h) == Seq::<u8>::empty(),
{
    blake3::Hasher::new()
}

/// `blake3::Hasher::update`: appends `data` to what the hasher has been fed
/// (the crate documents that it may be called any number of times).
#[verifier::external_body]
fn hasher_update(h: &mut blake3::Hasher, data: &[u8])
    ensures
        hashed_input(*final(h)) == hashed_input(*old(h)) + data@,
{
    h.update(data);
}

/// `blake3::Hasher::finalize` followed by `Hash::to_hex`: the digest of all
/// the bytes fed so far, as 64 lower-case hexadecimal digits.
#[verifier::external_body]
fn hasher_hex(h: &blake3::Hasher) -> (r: String)
    ensures
        r@ == blake3_hex(hashed_input(*h)),
        r@.len() == 64,
        forall|i: int| 0 <= i < 64 ==> is_lower_hex(#[trigger] r@[i]),
{
    h.finalize().to_hex().to_string()
}

/// The distance from the start of a file to the start of its last sample.
pub open spec fn sample_span(size: u64) -> int {
    if size >= SAMPLE_BYTES { size - SAMPLE_BYTES } else { 0 }
}

/// The offsets at which a file of `size` bytes is sampled: its start, its
/// middle and its last sample, in increasing order and without repetition.
pub open spec fn partial_offsets(size: u64) -> Seq<u64> {
    let s = sample_span(size);
    if s == 0 {
        seq![0u64]
    } else if s == 1 {
        seq![0u64, 1u64]
    } else {
        seq![0u64, (s / 2) as u64, s as u64]
    }
}

/// How many bytes are read at `offset` of a file of `size` bytes.
pub open spec fn sample_length(size: u64, offset: u64) -> int {
    let remaining: int = if size >= offset { size - offset } else { 0 };
    if remaining < SAMPLE_BYTES { remaining } else { SAMPLE_BYTES as int }
}

/// The sample offsets of a file of `size` bytes.
pub fn partial_hash_offsets(size: u64) -> (r: Vec<u64>)
    ensures
        r@ == partial_offsets(size),
        forall|i: int, j: int| 0 <= i < j < r@.len() ==> r@[i] < r@[j],
{
    let span: u64 = if size >= SAMPLE_BYTES as u64 { size - SAMPLE_BYTES as u64 } else { 0 };
    if span == 0 {
        vec![0u64]
    } else if span == 1 {
        vec![0u64, 1u64]
    } else {
        vec![0u64, span / 2, span]
    }
}

/// How many bytes are read at `offset` of a file of `size` bytes.
pub fn wanted_sample_length(size: u64, offset: u64) -> (r: usize)
    ensures
        r == sample_length(size, offset),
{
    let remaining: u64 = if size >= offset { size - offset } else { 0 };
    if remaining < SAMPLE_BYTES as u64 { remaining as usize } else { SAMPLE_BYTES }
}

/// What the partial hash digests after `n` samples: for each sample, its
/// offset as eight little-endian bytes followed by the bytes read there.
pub open spec fn partial_input(offsets: Seq<u64>, samples: Seq<Seq<u8>>, n: nat) -> Seq<u8>
    decreases n,
{
    if n == 0 {
        Seq::empty()
    } else {
        partial_input(offsets, samples, (n - 1) as nat) + spec_u64_to_le_bytes(offsets[n - 1])
            + samples[n - 1]
    }
}

/// The total number of bytes in the first `n` samples.
pub open spec fn samples_total(samples: Seq<Seq<u8>>, n: nat) -> int
    decreases n,
{
    if n == 0 { 0 } else { samples_total(samples, (n - 1) as nat) + samples[n - 1].len() }
}

pub open spec fn byte_views(samples: Seq<Vec<u8>>) -> Seq<Seq<u8>> {
    samples.map_values(|v: Vec<u8>| v@)
}

/// The samples that can come back from reading a file of `size` bytes at
/// its sample offsets: one per offset, none longer than asked for (a file
/// that shrank gives fewer bytes).
pub open spec fn valid_samples(size: u64, samples: Seq<Seq<u8>>) -> bool {
    &&& samples.len() == partial_offsets(size).len()
    &&& forall|i: int| 0 <= i < samples.len() ==> #[trigger] samples[i].len() <= sample_length(size, partial_offsets(size)[i])
}

/// The partial fingerprint of a file of `size` bytes from the samples read
/// at its sample offsets, and the number of sampled bytes.
pub fn partial_hash(size: u64, samples: &Vec<Vec<u8>>) -> (r: (String, u64))
    requires
        valid_samples(size, byte_views(samples@)),
    ensures
        r.0@ == blake3_hex(partial_input(partial_offsets(size), byte_views(samples@), samples@.len() as nat)),
        r.1 == samples_total(byte_views(samples@), samples@.len() as nat),
{
    let offsets = partial_hash_offsets(size);
    let ghost views = byte_views(samples@);
    let mut hasher = new_hasher();
    let mut total: u64 = 0;
    let mut i: usize = 0;
    while i < offsets.len()
        invariant
            offsets@ == partial_offsets(size),
            views == byte_views(samples@),
            valid_samples(size, views),
            0 <= i <= offsets.len(),
            offsets.len() <= 3,
            hashed_input(hasher) == partial_input(offsets@, views, i as nat),
            total == samples_total(views, i as nat),
            total <= i * SAMPLE_BYTES,
        decreases offsets.len() - i,
    {
        let offset = offsets[i];
        let bytes = u64_to_le_bytes(offset);
        hasher_update(&mut hasher, bytes.as_slice());
        let sample = &samples[i];
        assert(views[i as int] == sample@);
        assert(sample@.len() <= SAMPLE_BYTES);
        hasher_update(&mut hasher, sample.as_slice());
        total = total + sample.len() as u64;
        i = i + 1;
    }
    (hasher_hex(&hasher), total)
}

/// A whole-content fingerprint fed chunk by chunk.
pub struct ContentHasher {
    hasher: blake3::Hasher,
    total: u64,
}

impl ContentHasher {
    /// All the bytes fed so far.
    pub closed spec fn input(&self) -> Seq<u8> {
        hashed_input(self.hasher)
    }

    /// The byte count reported: the length of the input, held at `u64::MAX`.
    pub closed spec fn total(&self) -> u64 {
        self.total
    }

    pub closed spec fn wf(&self) -> bool {
        self.total == (if self.input().len() > u64::MAX { u64::MAX as int } else { self.input().len() as int })
    }

    pub fn new() -> (h: Self)
        ensures
            h.wf(),
            h.input() == Seq::<u8>::empty(),
    {
        ContentHasher { hasher: new_hasher(), total: 0 }
    }

    /// Feeds the next chunk of content.
    pub fn update(&mut self, chunk: &[u8])
        requires
            old(self).wf(),
        ensures
            final(self).wf(),
            final(self).input() == old(self).input() + chunk@,
    {
        hasher_update(&mut self.hasher, chunk);
        let n = chunk.len() as u64;
        if self.total > u64::MAX - n {
            self.total = u64::MAX;
        } else {
            self.total = self.total + n;
        }
    }

    /// The fingerprint of everything fed, and the number of bytes fed (held
    /// at `u64::MAX`).
    pub fn finish(&self) -> (r: (String, u64))
        requires
            self.wf(),
        ensures
            r.0@ == blake3_hex(self.input()),
            r.1 == (if self.input().len() > u64::MAX { u64::MAX as int } else { self.input().len() as int }),
    {
        (hasher_hex(&self.hasher), self.total)
    }
}

/// The full fingerprint of a content read in chunks, and its length.
pub fn full_hash(chunks: &Vec<Vec<u8>>) -> (r: (String, u64))
    ensures
        r.0@ == blake3_hex(concat_chunks(byte_views(chunks@), chunks@.len() as nat)),
        r.1 == (if concat_chunks(byte_views(chunks@), chunks@.len() as nat).len() > u64::MAX {
            u64::MAX as int
        } else {
            concat_chunks(byte_views(chunks@), chunks@.len() as nat).len() as int
        }),
{
    let ghost views = byte_views(chunks@);
    let mut h = ContentHasher::new();
    let mut i: usize = 0;
    while i < chunks.len()
        invariant
            views == byte_views(chunks@),
            0 <= i <= chunks.len(),
            h.wf(),
            h.input() == concat_chunks(views, i as nat),
        decreases chunks.len() - i,
    {
        assert(views[i as int] == chunks[i as int]@);
        h.update(chunks[i].as_slice());
        i = i + 1;
    }
    h.finish()
}

/// The first `n` chunks, one after the other.
pub open spec fn concat_chunks(chunks: Seq<Seq<u8>>, n: nat) -> Seq<u8>
    decreases n,
{
    if n == 0 { Seq::empty() } else { concat_chunks(chunks, (n - 1) as nat) + chunks[n - 1] }
}

/// What a comparison of two contents learns from one pair of reads.
#[derive(Debug, Clone, Copy, PartialEq, Eq, Structural)]
pub enum ComparisonStep {
    /// The reads differ: the contents are not equal. Holds the bytes found
    /// equal before this step.
    Different(u64),
    /// Both contents ended together: they are equal. Holds the bytes compared.
    Equal(u64),
    /// The reads agree and more content follows. Holds the bytes compared so far.
    Continue(u64),
}

pub open spec fn saturating_add(a: u64, b: int) -> u64 {
    if a + b > u64::MAX { u64::MAX } else { (a + b) as u64 }
}

/// What one pair of reads tells a comparison that found `compared` bytes
/// equal before: the reads differ, both contents ended, or they agree and
/// the count goes on.
pub open spec fn step_of(left: Seq<u8>, right: Seq<u8>, compared: u64) -> ComparisonStep {
    if left != right {
        ComparisonStep::Different(compared)
    } else if left.len() == 0 {
        ComparisonStep::Equal(compared)
    } else {
        ComparisonStep::Continue(saturating_add(compared, left.len() as int))
    }
}

/// Taking the comparison steps one pair of reads after another, as a reader
/// does, gives `comparison_of`: a difference or a common end decides, and
/// otherwise the comparison goes on with the new count.
pub proof fn law_comparison_follows_the_steps(reads: Seq<(Seq<u8>, Seq<u8>)>, compared: u64)
    requires
        reads.len() > 0,
    ensures
        comparison_of(reads, compared) == match step_of(reads[0].0, reads[0].1, compared) {
            ComparisonStep::Different(n) => Some((false, n)),
            ComparisonStep::Equal(n) => Some((true, n)),
            ComparisonStep::Continue(n) => comparison_of(reads.drop_first(), n),
        },
{
}

/// One step of a byte-for-byte comparison: `left` and `right` are the next
/// reads from the two files, `compared` the bytes found equal before.
pub fn compare_step(left: &[u8], right: &[u8], compared: u64) -> (r: ComparisonStep)
    ensures
        r == step_of(left@, right@, compared),
{
    if left.len() != right.len() {
        return ComparisonStep::Different(compared);
    }
    let mut i: usize = 0;
    while i < left.len()
        invariant
            left@.len() == right@.len(),
            0 <= i <= left@.len(),
            forall|k: int| 0 <= k < i ==> left@[k] == right@[k],
        decreases left.len() - i,
    {
        if left[i] != right[i] {
            return ComparisonStep::Different(compared);
        }
        i = i + 1;
    }
    assert(left@ =~= right@);
    let n = left.len() as u64;
    if n == 0 {
        ComparisonStep::Equal(compared)
    } else if compared > u64::MAX - n {
        ComparisonStep::Continue(u64::MAX)
    } else {
        ComparisonStep::Continue(compared + n)
    }
}

/// The outcome of comparing two contents from their successive pairs of
/// reads, `compared` bytes having been found equal before: whether they are
/// equal and how many bytes were found equal, or `None` when the reads run
/// out before either a difference or the end of both contents.
pub open spec fn comparison_of(reads: Seq<(Seq<u8>, Seq<u8>)>, compared: u64) -> Option<(bool, u64)>
    decreases reads.len(),
{
    if reads.len() == 0 {
        None
    } else if reads[0].0 != reads[0].1 {
        Some((false, compared))
    } else if reads[0].0.len() == 0 {
        Some((true, compared))
    } else {
        comparison_of(reads.drop_first(), saturating_add(compared, reads[0].0.len() as int))
    }
}

/// The successive pairs of reads of `block` bytes that two contents give
/// when every read fills its buffer unless at the end of its content (an
/// empty read once a content has ended).
pub open spec fn block_reads(left: Seq<u8>, right: Seq<u8>, block: int, n: nat) -> Seq<(Seq<u8>, Seq<u8>)>
    decreases n,
{
    if n == 0 {
        Seq::empty()
    } else {
        let kl = if block < left.len() { block } else { left.len() as int };
        let kr = if block < right.len() { block } else { right.len() as int };
        seq![(left.take(kl), right.take(kr))] + block_reads(left.skip(kl), right.skip(kr), block, (n - 1) as nat)
    }
}

proof fn lemma_block_comparison(left: Seq<u8>, right: Seq<u8>, block: int, n: nat, compared: u64)
    requires
        block >= 1,
        n > left.len(),
        n > right.len(),
    ensures
        comparison_of(block_reads(left, right, block, n), compared) matches Some((equal, count)) && {
            &&& equal == (left == right)
            &&& equal ==> count == saturating_add(compared, left.len() as int)
            &&& !equal ==> count <= compared + left.len() && count <= compared + right.len()
        },
    decreases n,
{
    let kl = if block < left.len() { block } else { left.len() as int };
    let kr = if block < right.len() { block } else { right.len() as int };
    let reads = block_reads(left, right, block, n);
    let rest = block_reads(left.skip(kl), right.skip(kr), block, (n - 1) as nat);
    assert(reads[0] == (left.take(kl), right.take(kr)));
    assert(reads.drop_first() =~= rest);
    assert(left =~= left.take(kl) + left.skip(kl));
    assert(right =~= right.take(kr) + right.skip(kr));
    if left.take(kl) != right.take(kr) {
        if left == right {
            assert(kl == kr);
        }
    } else if left.take(kl).len() == 0 {
        assert(left.len() == 0 && right.len() == 0);
        assert(left =~= right);
    } else {
        lemma_block_comparison(left.skip(kl), right.skip(kr), block, (n - 1) as nat, saturating_add(compared, kl));
        if left.skip(kl) == right.skip(kr) {
            assert(left =~= right);
        }
        if left == right {
            assert(left.skip(kl) =~= right.skip(kr));
        }
    }
}

/// Comparing two contents read a block at a time finds them equal exactly
/// when they are equal, counting every byte when they are (up to the
/// largest count) and no more bytes than the shorter content when they are
/// not; the answer does not depend on which content comes first.
pub proof fn law_block_comparison_matches_the_contents(left: Seq<u8>, right: Seq<u8>, block: int, n: nat)
    requires
        block >= 1,
        n > left.len(),
        n > right.len(),
    ensures
        comparison_of(block_reads(left, right, block, n), 0) matches Some((equal, count)) && {
            &&& equal == (left == right)
            &&& equal ==> count == saturating_add(0, left.len() as int)
            &&& !equal ==> count <= left.len() && count <= right.len()
        },
        comparison_of(block_reads(right, left, block, n), 0) matches Some((equal, _)) && equal == (left == right),
{
    lemma_block_comparison(left, right, block, n, 0);
    lemma_block_comparison(right, left, block, n, 0);
}

/// The byte views of pairs of reads.
pub open spec fn read_views(reads: Seq<(Vec<u8>, Vec<u8>)>) -> Seq<(Seq<u8>, Seq<u8>)> {
    reads.map_values(|p: (Vec<u8>, Vec<u8>)| (p.0@, p.1@))
}

/// Compares two files byte for byte from the successive pairs of reads taken
/// from them (an empty read is the end of a file).
pub fn byte_for_byte_equal(reads: &Vec<(Vec<u8>, Vec<u8>)>) -> (r: Option<(bool, u64)>)
    ensures
        r == comparison_of(read_views(reads@), 0),
{
    let ghost all = read_views(reads@);
    let mut compared: u64 = 0;
    let mut i: usize = 0;
    assert(all.subrange(0, all.len() as int) =~= all);
    while i < reads.len()
        invariant
            all == read_views(reads@),
            0 <= i <= reads@.len(),
            comparison_of(all, 0) == comparison_of(all.subrange(i as int, all.len() as int), compared),
        decreases reads@.len() - i,
    {
        let ghost rest = all.subrange(i as int, all.len() as int);
        assert(rest[0] == (reads@[i as int].0@, reads@[i as int].1@));
        let step = compare_step(reads[i].0.as_slice(), reads[i].1.as_slice(), compared);
        match step {
            ComparisonStep::Different(n) => {
                return Some((false, n));
            },
            ComparisonStep::Equal(n) => {
                return Some((true, n));
            },
            ComparisonStep::Continue(n) => {
                assert(rest.drop_first() =~= all.subrange(i + 1, all.len() as int));
                compared = n;
            },
        }
        i = i + 1;
    }
    None
}

/// The error that stops hashing when its scan was cancelled.
pub fn check_cancelled(cancelled: bool) -> (r: Result<(), CommandError>)
    ensures
        !cancelled <==> r is Ok,
        r matches Err(e) ==> e.code == ErrorCode::ScanCancelled && e.message@ == "Duplicate hashing was cancelled."@
            && e.recoverable && e.path is None && e.details is None,
{
    if cancelled {
        Err(CommandError::new(ErrorCode::ScanCancelled, "Duplicate hashing was cancelled.", true))
    } else {
        Ok(())
    }
}

/// The error for a file that could not be opened or read while hashing.
pub fn hash_io_error(path: &str, kind: FsErrorKind, details: &str) -> (e: CommandError)
    ensures
        e.code == (match kind {
            FsErrorKind::NotFound => ErrorCode::PathNotFound,
            FsErrorKind::PermissionDenied => ErrorCode::PermissionDenied,
            FsErrorKind::Other => ErrorCode::HashError,
        }),
        e.message@ == "A file could not be hashed safely."@,
        e.recoverable,
        e.path matches Some(p) && p@ == path@,
        e.details matches Some(d) && d@ == details@,
{
    let code = match kind {
        FsErrorKind::NotFound => ErrorCode::PathNotFound,
        FsErrorKind::PermissionDenied => ErrorCode::PermissionDenied,
        FsErrorKind::Other => ErrorCode::HashError,
    };
    CommandError::new(code, "A file could not be hashed safely.", true).with_path(path).with_details(details)
}

} // verus!
