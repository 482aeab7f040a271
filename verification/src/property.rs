//! Property messages: the buffer of tags that is handed to the co-processor
//! through the mailbox, and the marker it leaves in the answer.
//!
//! A buffer is a sequence of 32-bit words: its size in bytes, a marker, the
//! tags one after the other, a terminating null tag, and null words up to the
//! next multiple of 16 bytes. A tag is its identifier, the size of its value
//! buffer in bytes, a marker, and the value buffer.

use vstd::prelude::*;

verus! {

pub const NULL_TAG: u32 = 0x0;

pub const FB_ALLOCATE_BUFFER: u32 = 0x0004_0001;

pub const FB_SET_PHYSICAL_DIMENSIONS: u32 = 0x0004_8003;

pub const FB_SET_VIRTUAL_DIMENSIONS: u32 = 0x0004_8004;

pub const FB_SET_BITS_PER_PIXEL: u32 = 0x0004_8005;

/// Marker of a buffer or tag that has not been answered.
pub const REQUEST: u32 = 0x0;

/// Marker of a buffer that the co-processor has answered.
pub const RESPONSE_SUCCESS: u32 = 0x8000_0000;

/// Marker of a buffer that the co-processor could not answer.
pub const RESPONSE_ERROR: u32 = 0x8000_0001;

/// Bytes of a buffer outside its tags: size, marker and terminator.
pub const FRAME_BYTES: u32 = 12;

/// Bytes of a tag outside its value buffer: identifier, size and marker.
pub const TAG_HEADER_BYTES: u32 = 12;

/// One property of a request. The variant fixes the identifier and the shape
/// of the value buffer.
#[derive(Clone, Copy, Debug, PartialEq, Eq, Structural)]
pub enum MessageTag {
    SetPhysicalDimensions { width: u32, height: u32 },
    SetVirtualDimensions { width: u32, height: u32 },
    SetBitsPerPixel { bits: u32 },
    /// Asks for a buffer at the given alignment. The value buffer has a
    /// second word, because the answer holds an address and a size.
    AllocateBuffer { alignment: u32 },
}

impl MessageTag {
    pub open spec fn spec_proptag(&self) -> u32 {
        match self {
            MessageTag::SetPhysicalDimensions { .. } => FB_SET_PHYSICAL_DIMENSIONS,
            MessageTag::SetVirtualDimensions { .. } => FB_SET_VIRTUAL_DIMENSIONS,
            MessageTag::SetBitsPerPixel { .. } => FB_SET_BITS_PER_PIXEL,
            MessageTag::AllocateBuffer { .. } => FB_ALLOCATE_BUFFER,
        }
    }

    /// The words of the value buffer.
    pub open spec fn value(self) -> Seq<u32> {
        match self {
            MessageTag::SetPhysicalDimensions { width, height } => seq![width, height],
            MessageTag::SetVirtualDimensions { width, height } => seq![width, height],
            MessageTag::SetBitsPerPixel { bits } => seq![bits],
            MessageTag::AllocateBuffer { alignment } => seq![alignment, 0u32],
        }
    }

    /// Size of the value buffer in bytes.
    pub open spec fn spec_size(&self) -> u32 {
        (4 * self.value().len()) as u32
    }

    /// The tag as it stands in a request.
    pub open spec fn words(self) -> Seq<u32> {
        seq![self.spec_proptag(), self.spec_size(), REQUEST] + self.value()
    }

    #[verifier::when_used_as_spec(spec_proptag)]
    pub fn proptag(&self) -> (id: u32)
        ensures
            id == self.spec_proptag(),
    {
        match self {
            MessageTag::SetPhysicalDimensions { .. } => FB_SET_PHYSICAL_DIMENSIONS,
            MessageTag::SetVirtualDimensions { .. } => FB_SET_VIRTUAL_DIMENSIONS,
            MessageTag::SetBitsPerPixel { .. } => FB_SET_BITS_PER_PIXEL,
            MessageTag::AllocateBuffer { .. } => FB_ALLOCATE_BUFFER,
        }
    }

    #[verifier::when_used_as_spec(spec_size)]
    pub fn size(&self) -> (bytes: u32)
        ensures
            bytes == self.spec_size(),
            bytes == 4 || bytes == 8,
    {
        match self {
            MessageTag::SetBitsPerPixel { .. } => 4,
            _ => 8,
        }
    }

    /// Appends the tag to a buffer under construction.
    pub fn encode(&self, out: &mut Vec<u32>)
        ensures
            final(out)@ == old(out)@ + self.words(),
    {
        out.push(self.proptag());
        out.push(self.size());
        out.push(REQUEST);
        match self {
            MessageTag::SetPhysicalDimensions { width, height } => {
                out.push(*width);
                out.push(*height);
            },
            MessageTag::SetVirtualDimensions { width, height } => {
                out.push(*width);
                out.push(*height);
            },
            MessageTag::SetBitsPerPixel { bits } => {
                out.push(*bits);
            },
            MessageTag::AllocateBuffer { alignment } => {
                out.push(*alignment);
                out.push(0);
            },
        }
        assert(out@ =~= old(out)@ + self.words());
    }
}

/// The tags of `tags` as they follow each other in a request.
pub open spec fn tags_words(tags: Seq<MessageTag>) -> Seq<u32>
    decreases tags.len(),
{
    if tags.len() == 0 {
        Seq::empty()
    } else {
        tags_words(tags.drop_last()) + tags.last().words()
    }
}

/// Bytes that `tags` take in a request: a header and a value buffer each.
pub open spec fn tags_bytes(tags: Seq<MessageTag>) -> int
    decreases tags.len(),
{
    if tags.len() == 0 {
        0
    } else {
        tags_bytes(tags.drop_last()) + TAG_HEADER_BYTES + tags.last().spec_size()
    }
}

/// `bytes` rounded up to the next multiple of 16.
pub open spec fn padded(bytes: int) -> int {
    if bytes % 16 > 0 {
        bytes + 16 - bytes % 16
    } else {
        bytes
    }
}

/// The words of the tags take the bytes that `tags_bytes` counts.
pub proof fn lemma_tags_words_len(tags: Seq<MessageTag>)
    ensures
        4 * tags_words(tags).len() == tags_bytes(tags),
    decreases tags.len(),
{
    if tags.len() > 0 {
        lemma_tags_words_len(tags.drop_last());
    }
}

/// A longer list of tags takes no fewer bytes than a prefix of it.
pub proof fn lemma_tags_bytes_grow(tags: Seq<MessageTag>, n: int)
    requires
        0 <= n <= tags.len(),
    ensures
        0 <= tags_bytes(tags.take(n)) <= tags_bytes(tags),
    decreases tags.len(),
{
    if n == tags.len() {
        assert(tags.take(n) =~= tags);
        if n > 0 {
            lemma_tags_bytes_grow(tags.drop_last(), n - 1);
        }
    } else {
        lemma_tags_bytes_grow(tags.drop_last(), n);
        assert(tags.drop_last().take(n) =~= tags.take(n));
    }
}

/// A request: the tags in the order in which the co-processor is to see them.
#[derive(Debug)]
pub struct PropertyMessage {
    pub tags: Vec<MessageTag>,
}

/// Bytes of a request with the tags `tags` before padding: the frame and the
/// tags.
pub open spec fn request_bytes(tags: Seq<MessageTag>) -> int {
    FRAME_BYTES + tags_bytes(tags)
}

/// Size in bytes of the buffer of a request with the tags `tags`.
pub open spec fn request_size(tags: Seq<MessageTag>) -> int {
    padded(request_bytes(tags))
}

/// The buffer of a request with the tags `tags`: size, marker, tags, and null
/// words from the terminator to the end.
pub open spec fn request_words(tags: Seq<MessageTag>) -> Seq<u32> {
    seq![request_size(tags) as u32, REQUEST] + tags_words(tags) + Seq::new(
        ((request_size(tags) - request_bytes(tags)) / 4 + 1) as nat,
        |i: int| NULL_TAG,
    )
}

/// The size of a request buffer is a multiple of 16, covers the frame, the
/// headers and value buffers of the tags and the terminator, and exceeds
/// them by less than 16 bytes. The buffer has that many bytes.
pub proof fn lemma_request_size(tags: Seq<MessageTag>)
    ensures
        request_size(tags) % 16 == 0,
        request_bytes(tags) <= request_size(tags) < request_bytes(tags) + 16,
        request_size(tags) <= u32::MAX ==> 4 * request_words(tags).len() == request_size(tags),
{
    lemma_tags_words_len(tags);
    lemma_tags_bytes_grow(tags, tags.len() as int);
}

impl PropertyMessage {
    /// Bytes of the request before padding.
    pub open spec fn raw_size(self) -> int {
        request_bytes(self.tags@)
    }

    /// Size of the request buffer in bytes.
    pub open spec fn spec_size(self) -> int {
        request_size(self.tags@)
    }

    /// The request buffer.
    pub open spec fn words(self) -> Seq<u32> {
        request_words(self.tags@)
    }

    /// The size of the request buffer in bytes, or `None` if it does not fit
    /// in the 32 bits of the size word.
    ///
    /// The size is a multiple of 16, covers the frame and the tags, and
    /// exceeds them by less than 16 bytes.
    pub fn size(&self) -> (bytes: Option<u32>)
        ensures
            bytes.is_some() <==> self.spec_size() <= u32::MAX,
            bytes matches Some(n) ==> {
                &&& n == self.spec_size()
                &&& n % 16 == 0
                &&& self.raw_size() <= n < self.raw_size() + 16
            },
    {
        let mut total: u64 = FRAME_BYTES as u64;
        let mut i: usize = 0;
        while i < self.tags.len()
            invariant
                0 <= i <= self.tags.len(),
                total == FRAME_BYTES + tags_bytes(self.tags@.take(i as int)),
                total <= u32::MAX,
            decreases self.tags.len() - i,
        {
            proof {
                assert(self.tags@.take(i + 1).drop_last() =~= self.tags@.take(i as int));
                lemma_tags_bytes_grow(self.tags@, i + 1);
            }
            total = total + TAG_HEADER_BYTES as u64 + self.tags[i].size() as u64;
            if total > u32::MAX as u64 {
                return None;
            }
            i += 1;
        }
        assert(self.tags@.take(i as int) =~= self.tags@);
        let rest: u64 = total % 16;
        if rest > 0 {
            total = total + (16 - rest);
        }
        if total > u32::MAX as u64 {
            None
        } else {
            Some(total as u32)
        }
    }

    /// The request buffer, or `None` if its size does not fit in 32 bits.
    pub fn encode(&self) -> (buffer: Option<Vec<u32>>)
        ensures
            buffer.is_some() <==> self.spec_size() <= u32::MAX,
            buffer matches Some(out) ==> out@ == self.words() && 4 * out@.len()
                == self.spec_size(),
    {
        let bytes: u32 = match self.size() {
            Some(n) => n,
            None => {
                return None;
            },
        };
        let mut out: Vec<u32> = Vec::new();
        out.push(bytes);
        out.push(REQUEST);
        let mut i: usize = 0;
        while i < self.tags.len()
            invariant
                0 <= i <= self.tags.len(),
                out@ == seq![bytes, REQUEST] + tags_words(self.tags@.take(i as int)),
            decreases self.tags.len() - i,
        {
            proof {
                assert(self.tags@.take(i + 1).drop_last() =~= self.tags@.take(i as int));
            }
            self.tags[i].encode(&mut out);
            assert(out@ =~= seq![bytes, REQUEST] + tags_words(self.tags@.take(i + 1)));
            i += 1;
        }
        proof {
            assert(self.tags@.take(i as int) =~= self.tags@);
            lemma_tags_words_len(self.tags@);
        }
        let ghost head = out@;
        let words: usize = (bytes / 4) as usize;
        while out.len() < words
            invariant
                head.len() <= out@.len() <= words,
                head.len() < words,
                out@ == head + Seq::new((out@.len() - head.len()) as nat, |i: int| NULL_TAG),
            decreases words - out.len(),
        {
            out.push(NULL_TAG);
            assert(out@ =~= head + Seq::new((out@.len() - head.len()) as nat, |i: int| NULL_TAG));
        }
        assert(out@ =~= self.words());
        Some(out)
    }
}

} // verus!
