//! The checksum engine: a streaming content digest in bounded memory.
//!
//! Data files can be gigabytes, so content is fed to an incremental hash
//! context in fixed-size chunks rather than held whole.  The digest itself
//! comes from an outside hashing crate; the library names its result
//! [`md5_hex_of`] and verifies everything around the call, in particular
//! that chunking a buffer feeds exactly the whole buffer.

use vstd::prelude::*;
use vstd::slice::slice_subrange;

verus! {

/// Bytes are read and hashed in chunks of this size, independent of file
/// size, so memory use stays bounded.
pub const CHUNK_LEN: usize = 4096;

/// The lower-case hex digest that the hashing crate computes over a byte
/// sequence.  The digest depends on the consumed bytes alone.
pub uninterp spec fn md5_hex_of(data: Seq<u8>) -> Seq<char>;

/// Declares the outside crate's incremental digest context so that a field
/// may hold one; the verifier sees nothing inside it.
#[verifier::external_type_specification]
#[verifier::external_body]
pub struct ExMd5Context(md5::Context);

/// An incremental digest context; its view is the byte sequence consumed
/// so far.
pub struct Hasher {
    ctx: md5::Context,
    consumed: Ghost<Seq<u8>>,
}

impl View for Hasher {
    type V = Seq<u8>;

    closed spec fn view(&self) -> Seq<u8> {
        self.consumed@
    }
}

impl Hasher {
    /// Relies on md5::Context::new: a fresh context has consumed nothing.
    #[verifier::external_body]
    pub fn new() -> (r: Hasher)
        ensures
            r@ == Seq::<u8>::empty(),
    {
        Hasher { ctx: md5::Context::new(), consumed: Ghost(Seq::empty()) }
    }

    /// Relies on md5::Context::consume: feeding a chunk appends it to the
    /// consumed stream.
    #[verifier::external_body]
    pub fn consume(&mut self, chunk: &[u8])
        ensures
            final(self)@ == old(self)@ + chunk@,
    {
        self.ctx.consume(chunk);
    }

    /// Relies on md5::Context::compute and the digest's LowerHex rendering:
    /// the result is the 32-character lower-case hex digest of everything
    /// consumed, a function of those bytes alone.
    #[verifier::external_body]
    pub fn finish_hex(self) -> (r: String)
        ensures
            r@ == md5_hex_of(self@),
            r@.len() == 32,
    {
        format!("{:x}", self.ctx.compute())
    }
}

/// Digest a whole in-memory buffer, feeding it to the incremental context
/// in [`CHUNK_LEN`]-sized chunks exactly as a file stream would be.
pub fn md5sum(data: &[u8]) -> (r: String)
    ensures
        r@ == md5_hex_of(data@),
        r@.len() == 32,
{
    let n = data.len();
    let mut hasher = Hasher::new();
    let mut i: usize = 0;
    proof {
        assert(hasher@ =~= data@.subrange(0, 0));
    }
    while i < n
        invariant
            n == data@.len(),
            i <= n,
            hasher@ == data@.subrange(0, i as int),
        decreases n - i,
    {
        let j = if n - i < CHUNK_LEN {
            n
        } else {
            i + CHUNK_LEN
        };
        let chunk = slice_subrange(data, i, j);
        hasher.consume(chunk);
        proof {
            assert(data@.subrange(0, i as int) + data@.subrange(i as int, j as int) =~= data@
                .subrange(0, j as int));
        }
        i = j;
    }
    proof {
        assert(data@.subrange(0, n as int) =~= data@);
    }
    hasher.finish_hex()
}

} // verus!
