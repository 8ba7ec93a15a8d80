//! The rules of the firmware's upload endpoint: which requests it takes, and
//! how the body is collected under its size limit.

use vstd::prelude::*;
use crate::text::same_text;

verus! {

broadcast use vstd::string::group_string_axioms;

/// The only content type that the upload endpoint takes.
pub const OCTET_STREAM: &'static str = "application/octet-stream";

/// The largest body that the endpoint takes, in bytes.
pub const MAX_BODY_SIZE: usize = 4096;

/// Whether a request with this `content-type` header (if any) is taken.
pub fn accepts_content_type(content_type: Option<&str>) -> (r: bool)
    ensures
        r == (content_type matches Some(t) && t@ == OCTET_STREAM@),
        r == (content_type matches Some(t) && t@ == "application/octet-stream"@),
{
    match content_type {
        Some(t) => same_text(t, OCTET_STREAM),
        None => false,
    }
}

/// The body of an upload, as far as it has been read.
pub struct UploadBody {
    bytes: Vec<u8>,
}

/// What the endpoint does after reading a chunk of the body.
#[derive(PartialEq, Eq, Structural)]
pub enum UploadStep {
    /// The chunk was added; read on.
    Continue,
    /// The body is complete (the chunk was empty).
    Finished,
    /// The chunk would take the body over `MAX_BODY_SIZE`: refuse the request.
    TooLarge,
}

impl View for UploadBody {
    type V = Seq<u8>;

    closed spec fn view(&self) -> Seq<u8> {
        self.bytes@
    }
}

impl UploadBody {
    #[verifier::type_invariant]
    spec fn within_limit(self) -> bool {
        self.bytes@.len() <= MAX_BODY_SIZE
    }

    /// An empty body.
    pub fn new() -> (r: UploadBody)
        ensures
            r@ == Seq::<u8>::empty(),
    {
        UploadBody { bytes: Vec::new() }
    }

    /// The number of bytes collected so far; never more than the limit.
    pub fn len(&self) -> (r: usize)
        ensures
            r == self@.len(),
            r <= MAX_BODY_SIZE,
    {
        proof {
            use_type_invariant(self);
        }
        self.bytes.len()
    }

    /// Takes the next chunk read from the connection: an empty chunk ends the
    /// body, a chunk that would take it over the limit is refused and leaves
    /// it as it was, any other chunk is appended.
    pub fn push_chunk(&mut self, chunk: &[u8]) -> (r: UploadStep)
        ensures
            chunk@.len() == 0 ==> r == UploadStep::Finished && final(self)@ == old(self)@,
            chunk@.len() > 0 && old(self)@.len() + chunk@.len() > MAX_BODY_SIZE ==> r
                == UploadStep::TooLarge && final(self)@ == old(self)@,
            chunk@.len() > 0 && old(self)@.len() + chunk@.len() <= MAX_BODY_SIZE ==> r
                == UploadStep::Continue && final(self)@ == old(self)@ + chunk@,
            final(self)@.len() <= MAX_BODY_SIZE,
    {
        proof {
            use_type_invariant(&*self);
        }
        if chunk.len() == 0 {
            return UploadStep::Finished;
        }
        if chunk.len() > MAX_BODY_SIZE - self.bytes.len() {
            return UploadStep::TooLarge;
        }
        let mut i: usize = 0;
        let mut bytes: Vec<u8> = Vec::new();
        std::mem::swap(&mut bytes, &mut self.bytes);
        let ghost start = bytes@;
        while i < chunk.len()
            invariant
                start.len() + chunk@.len() <= MAX_BODY_SIZE,
                i <= chunk@.len(),
                bytes@ == start + chunk@.subrange(0, i as int),
            decreases chunk@.len() - i,
        {
            bytes.push(chunk[i]);
            i = i + 1;
            assert(bytes@ =~= start + chunk@.subrange(0, i as int));
        }
        assert(chunk@.subrange(0, i as int) =~= chunk@);
        self.bytes = bytes;
        UploadStep::Continue
    }

    /// The collected body.
    pub fn into_bytes(self) -> (r: Vec<u8>)
        ensures
            r@ == self@,
            r@.len() <= MAX_BODY_SIZE,
    {
        proof {
            use_type_invariant(&self);
        }
        self.bytes
    }
}

} // verus!
