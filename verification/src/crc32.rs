//! The content hasher: CRC-32 checksums of bytes in memory, of chunked streams and of
//! archive members.

use vstd::prelude::*;
use crc32fast::Hasher;

verus! {

#[verifier::external_type_specification]
#[verifier::external_body]
pub struct ExHasher(crc32fast::Hasher);

/// The CRC-32 (IEEE) checksum of `data`, as the crate `crc32fast` computes it.
pub uninterp spec fn crc32_of(data: Seq<u8>) -> u32;

/// The bytes that a hasher has processed since it was made, in order.
pub uninterp spec fn fed_bytes(h: Hasher) -> Seq<u8>;

/// The bytes of the member `name` of the ZIP archive `data`, as the crate `zip`
/// extracts it, or the stage at which that fails.
pub uninterp spec fn zip_member(data: Seq<u8>, name: Seq<char>) -> Result<Seq<u8>, ZipFailure>;

/// The stage at which reading a member of a ZIP archive failed.
#[derive(Clone, Copy, Debug, PartialEq, Eq, Structural)]
pub enum ZipFailure {
    /// The bytes are no ZIP archive.
    Open,
    /// The archive has no member of that name.
    Missing,
    /// The member could not be read: it is encrypted, damaged, or compressed in a
    /// way that is not supported.
    Read,
}

/// The bytes of a member that was read, or the stage that failed.
pub open spec fn member_view(r: Result<Vec<u8>, ZipFailure>) -> Result<Seq<u8>, ZipFailure> {
    match r {
        Ok(b) => Ok(b@),
        Err(e) => Err(e),
    }
}

/// `crc32fast::hash`: the result is the CRC-32 (IEEE) checksum of the slice; that of
/// no bytes is zero, the initial state.
#[verifier::external_body]
fn crc32fast_hash(data: &[u8]) -> (r: u32)
    ensures
        r == crc32_of(data@),
        data@.len() == 0 ==> r == 0,
{
    crc32fast::hash(data)
}

/// `crc32fast::Hasher::new`: a hasher that has processed nothing.
#[verifier::external_body]
fn hasher_new() -> (h: Hasher)
    ensures
        fed_bytes(h) == Seq::<u8>::empty(),
{
    Hasher::new()
}

/// `crc32fast::Hasher::update`: the hasher has processed `buf` after what it had
/// processed before. The hasher counts its bytes in 64 bits.
#[verifier::external_body]
fn hasher_update(h: &mut Hasher, buf: &[u8])
    requires
        fed_bytes(*old(h)).len() + buf@.len() <= u64::MAX,
    ensures
        fed_bytes(*final(h)) == fed_bytes(*old(h)) + buf@,
{
    h.update(buf)
}

/// `crc32fast::Hasher::finalize`: the checksum of all that the hasher has processed.
#[verifier::external_body]
fn hasher_finalize(h: Hasher) -> (r: u32)
    ensures
        r == crc32_of(fed_bytes(h)),
{
    h.finalize()
}

/// `zip::ZipArchive::new` over the bytes in memory, `by_name_decrypt` with an
/// empty password and a read of the member to its end: the member's bytes, or the
/// stage that failed. A member that is not found is missing; one that cannot be
/// had without a password, or whose bytes cannot be read, fails at reading.
#[verifier::external_body]
pub(crate) fn zip_read_member(zip_data: &[u8], entry_name: &str) -> (r: Result<Vec<u8>, ZipFailure>)
    ensures
        member_view(r) == zip_member(zip_data@, entry_name@),
{
    let mut archive = match zip::ZipArchive::new(std::io::Cursor::new(zip_data)) {
        Ok(a) => a,
        Err(_) => return Err(ZipFailure::Open),
    };
    let mut file = match archive.by_name_decrypt(entry_name, &[]) {
        Ok(Ok(f)) => f,
        Err(zip::result::ZipError::FileNotFound) => return Err(ZipFailure::Missing),
        _ => return Err(ZipFailure::Read),
    };
    let mut buffer = Vec::new();
    match std::io::Read::read_to_end(&mut file, &mut buffer) {
        Ok(_) => Ok(buffer),
        Err(_) => Err(ZipFailure::Read),
    }
}

/// The checksum of bytes in memory.
pub fn calculate_crc32_from_bytes(data: &[u8]) -> (r: u32)
    ensures
        r == crc32_of(data@),
        data@.len() == 0 ==> r == 0,
{
    crc32fast_hash(data)
}

/// The checksum of a member of a ZIP archive held in memory.
pub fn checksum_of_member(member: Result<Vec<u8>, ZipFailure>) -> (r: Result<u32, ZipFailure>)
    ensures
        r == match member {
            Ok(b) => Ok::<u32, ZipFailure>(crc32_of(b@)),
            Err(e) => Err::<u32, ZipFailure>(e),
        },
{
    match member {
        Ok(b) => Ok(calculate_crc32_from_bytes(b.as_slice())),
        Err(e) => Err(e),
    }
}

/// The checksum of the member `entry_name` of the ZIP archive `zip_data`.
pub fn calculate_crc32_zip_entry(zip_data: &[u8], entry_name: &str) -> (r: Result<u32, ZipFailure>)
    ensures
        r == match zip_member(zip_data@, entry_name@) {
            Ok(b) => Ok::<u32, ZipFailure>(crc32_of(b)),
            Err(e) => Err::<u32, ZipFailure>(e),
        },
{
    checksum_of_member(zip_read_member(zip_data, entry_name))
}

/// The bytes of `chunks`, one chunk after the other.
pub open spec fn flat(chunks: Seq<Seq<u8>>) -> Seq<u8>
    decreases chunks.len(),
{
    if chunks.len() == 0 {
        Seq::empty()
    } else {
        flat(chunks.drop_last()) + chunks.last()
    }
}

/// A checksum in progress over a stream that arrives in chunks.
pub struct CrcStream {
    hasher: Hasher,
    amount: u64,
}

impl CrcStream {
    /// The bytes taken so far.
    pub closed spec fn taken(&self) -> Seq<u8> {
        fed_bytes(self.hasher)
    }

    /// The count of bytes is the number of bytes taken.
    pub closed spec fn wf(&self) -> bool {
        self.amount == fed_bytes(self.hasher).len()
    }

    /// A stream that has taken nothing.
    pub fn new() -> (s: Self)
        ensures
            s.wf(),
            s.taken() == Seq::<u8>::empty(),
    {
        CrcStream { hasher: hasher_new(), amount: 0 }
    }

    /// Takes one more chunk. A chunk that would bring the stream beyond what 64 bits
    /// can count is refused, and the stream stays as it is.
    pub fn update(&mut self, chunk: &[u8]) -> (taken: bool)
        requires
            old(self).wf(),
        ensures
            final(self).wf(),
            taken == (old(self).taken().len() + chunk@.len() <= u64::MAX),
            final(self).taken() == if taken {
                old(self).taken() + chunk@
            } else {
                old(self).taken()
            },
    {
        let n: u64 = chunk.len() as u64;
        if n > u64::MAX - self.amount {
            return false;
        }
        hasher_update(&mut self.hasher, chunk);
        self.amount = self.amount + n;
        true
    }

    /// The checksum of all that was taken.
    pub fn finalize(self) -> (r: u32)
        ensures
            r == crc32_of(self.taken()),
    {
        hasher_finalize(self.hasher)
    }
}

/// The checksum of a file's content, given as the chunks in which it was read.
/// `None` where the content is longer than 64 bits can count.
pub fn calculate_crc32(chunks: &Vec<Vec<u8>>) -> (r: Option<u32>)
    ensures
        r == if flat(chunks@.map_values(|c: Vec<u8>| c@)).len() <= u64::MAX {
            Some(crc32_of(flat(chunks@.map_values(|c: Vec<u8>| c@))))
        } else {
            None
        },
{
    let ghost cs = chunks@.map_values(|c: Vec<u8>| c@);
    let mut stream = CrcStream::new();
    let mut i: usize = 0;
    assert(flat(cs.take(0)) =~= Seq::<u8>::empty());
    while i < chunks.len()
        invariant
            i <= chunks.len(),
            cs == chunks@.map_values(|c: Vec<u8>| c@),
            stream.wf(),
            stream.taken() == flat(cs.take(i as int)),
        decreases chunks.len() - i,
    {
        assert(cs.take(i + 1).drop_last() == cs.take(i as int));
        assert(cs.take(i + 1).last() == chunks@[i as int]@);
        if !stream.update(chunks[i].as_slice()) {
            proof {
                lemma_flat_grows(cs, i + 1);
            }
            return None;
        }
        i += 1;
    }
    assert(cs.take(cs.len() as int) == cs);
    Some(stream.finalize())
}

/// More chunks make no shorter a stream.
pub proof fn lemma_flat_grows(chunks: Seq<Seq<u8>>, k: int)
    requires
        0 <= k <= chunks.len(),
    ensures
        flat(chunks.take(k)).len() <= flat(chunks).len(),
    decreases chunks.len() - k,
{
    if k < chunks.len() {
        lemma_flat_grows(chunks.drop_last(), k);
        assert(chunks.drop_last().take(k) == chunks.take(k));
    } else {
        assert(chunks.take(k) == chunks);
    }
}

} // verus!
