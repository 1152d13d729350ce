//! The bounded output buffer of a shell session: raw bytes in arrival order,
//! hard-capped with eviction of the oldest half, plus a cached lossy UTF-8
//! decoding refreshed on every mutation.

use vstd::prelude::*;

verus! {

/// The largest number of raw bytes the buffer keeps.
pub const OUTPUT_CAP: usize = 100000;

/// How many of the oldest bytes leave when the cap is exceeded.
pub const OUTPUT_EVICT: usize = 50000;

/// Names what `String::from_utf8_lossy` returns for the given bytes: their
/// UTF-8 decoding, with each invalid sequence replaced.
pub uninterp spec fn lossy_utf8(bytes: Seq<u8>) -> Seq<char>;

/// Relies on `String::from_utf8_lossy`: the result depends on the bytes
/// alone, and an empty input decodes to an empty string.
#[verifier::external_body]
fn decode_lossy(bytes: &Vec<u8>) -> (r: String)
    ensures
        r@ == lossy_utf8(bytes@),
        bytes@.len() == 0 ==> r@.len() == 0,
{
    String::from_utf8_lossy(bytes).into_owned()
}

/// A bounded byte accumulator with a cached decoded snapshot.
pub struct OutputBuffer {
    raw: Vec<u8>,
    cached: String,
}

impl OutputBuffer {
    /// The raw bytes currently held, oldest first.
    pub closed spec fn raw_bytes(&self) -> Seq<u8> {
        self.raw@
    }

    /// The cached decoded text.
    pub closed spec fn cached_text(&self) -> Seq<char> {
        self.cached@
    }

    /// The buffer's invariant: never over the cap, and the cache is exactly
    /// the decoding of the raw bytes.
    pub open spec fn wf(&self) -> bool {
        &&& self.raw_bytes().len() <= OUTPUT_CAP as int
        &&& self.cached_text() == lossy_utf8(self.raw_bytes())
    }

    pub fn new() -> (r: OutputBuffer)
        ensures
            r.wf(),
            r.raw_bytes() == Seq::<u8>::empty(),
            r.cached_text() == Seq::<char>::empty(),
    {
        let raw: Vec<u8> = Vec::new();
        let cached = decode_lossy(&raw);
        proof {
            assert(cached@ =~= Seq::<char>::empty());
        }
        OutputBuffer { raw, cached }
    }

    /// The number of raw bytes held.
    pub fn len(&self) -> (r: usize)
        ensures
            r == self.raw_bytes().len(),
    {
        self.raw.len()
    }

    /// Appends one chunk of read bytes in arrival order. If the cap is
    /// exceeded, the oldest `OUTPUT_EVICT` bytes of the combined contents are
    /// dropped at once, so the stored length never ends above the cap. The
    /// cached decoding is refreshed under the same mutation.
    pub fn append(&mut self, chunk: &[u8])
        requires
            old(self).wf(),
            chunk@.len() <= OUTPUT_EVICT as int,
        ensures
            final(self).wf(),
            final(self).raw_bytes() == (if old(self).raw_bytes().len() + chunk@.len()
                > OUTPUT_CAP as int {
                (old(self).raw_bytes() + chunk@).skip(OUTPUT_EVICT as int)
            } else {
                old(self).raw_bytes() + chunk@
            }),
            final(self).raw_bytes().len() <= OUTPUT_CAP as int,
            final(self).cached_text() == lossy_utf8(final(self).raw_bytes()),
    {
        self.raw.extend_from_slice(chunk);
        proof {
            assert(self.raw@ =~= old(self).raw@ + chunk@);
        }
        if self.raw.len() > OUTPUT_CAP {
            let ghost combined = self.raw@;
            let tail = self.raw.split_off(OUTPUT_EVICT);
            self.raw = tail;
            proof {
                assert(self.raw@ =~= combined.skip(OUTPUT_EVICT as int));
            }
        }
        self.cached = decode_lossy(&self.raw);
    }

    /// The decoded text of everything held, as the render path reads it.
    pub fn get_output(&self) -> (r: String)
        requires
            self.wf(),
        ensures
            r@ == self.cached_text(),
            r@ == lossy_utf8(self.raw_bytes()),
    {
        self.cached.clone()
    }

    /// Empties the buffer and its cache: a user-initiated reset.
    pub fn clear(&mut self)
        ensures
            final(self).wf(),
            final(self).raw_bytes() == Seq::<u8>::empty(),
            final(self).cached_text() == Seq::<char>::empty(),
    {
        self.raw.clear();
        self.cached = decode_lossy(&self.raw);
        proof {
            assert(self.cached@ =~= Seq::<char>::empty());
        }
    }
}

} // verus!
