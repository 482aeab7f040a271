//! The framebuffer handle: the pixel memory with its geometry, and the cursor
//! of the text console that is drawn on it.

use vstd::prelude::*;
use crate::font::Font8x8;
use crate::property::{
    request_bytes, request_size, request_words, tags_bytes, tags_words, MessageTag,
    PropertyMessage, FB_ALLOCATE_BUFFER, FB_SET_BITS_PER_PIXEL, FB_SET_PHYSICAL_DIMENSIONS,
    FB_SET_VIRTUAL_DIMENSIONS, REQUEST, RESPONSE_SUCCESS,
};
use crate::screen::{Screen, CHAR_HEIGHT, CHAR_WIDTH};

verus! {

/// A colour: one byte each of red, green and blue, stored in this order.
#[derive(Clone, Copy, Debug, PartialEq, Eq, Structural)]
pub struct Pixel24 {
    pub r: u8,
    pub g: u8,
    pub b: u8,
}

impl Pixel24 {
    pub open spec fn spec_black() -> Pixel24 {
        Pixel24 { r: 0, g: 0, b: 0 }
    }

    #[verifier::when_used_as_spec(spec_black)]
    pub fn black() -> (p: Pixel24)
        ensures
            p == Pixel24::spec_black(),
    {
        Pixel24 { r: 0, g: 0, b: 0 }
    }
}

/// What the marker of an answered buffer says.
#[derive(Clone, Copy, Debug, PartialEq, Eq, Structural)]
pub enum FBInitResult {
    /// The co-processor has filled the buffer in.
    Success,
    /// The marker is still that of a request: nothing has filled the buffer
    /// in, or the read gave up before the answer came.
    RequestNotProcessed,
    /// The marker reports an error, or is no marker at all.
    ResponseError,
}

impl FBInitResult {
    pub open spec fn spec_of_marker(mtype: u32) -> FBInitResult {
        if mtype == REQUEST {
            FBInitResult::RequestNotProcessed
        } else if mtype == RESPONSE_SUCCESS {
            FBInitResult::Success
        } else {
            FBInitResult::ResponseError
        }
    }

    /// Reads the marker at the head of an answered buffer.
    #[verifier::when_used_as_spec(spec_of_marker)]
    pub fn of_marker(mtype: u32) -> (res: FBInitResult)
        ensures
            res == FBInitResult::spec_of_marker(mtype),
    {
        if mtype == REQUEST {
            FBInitResult::RequestNotProcessed
        } else if mtype != RESPONSE_SUCCESS {
            FBInitResult::ResponseError
        } else {
            FBInitResult::Success
        }
    }
}

/// Alignment that is asked of the pixel memory.
pub const FB_ALIGNMENT: u32 = 16;

/// Words of the request that configures the dimensions.
pub const INIT_WORDS: usize = 20;

/// Words of the request that allocates the pixel memory.
pub const ALLOC_WORDS: usize = 8;

/// The tags of the request that configures the display, in the order in
/// which the co-processor is to see them.
pub open spec fn init_tags(width: u32, height: u32, bpp: u32) -> Seq<MessageTag> {
    seq![
        MessageTag::SetPhysicalDimensions { width, height },
        MessageTag::SetVirtualDimensions { width, height },
        MessageTag::SetBitsPerPixel { bits: bpp },
    ]
}

/// The tag of the request that allocates the pixel memory.
pub open spec fn allocate_tags() -> Seq<MessageTag> {
    seq![MessageTag::AllocateBuffer { alignment: FB_ALIGNMENT }]
}

/// The request that configures the display takes 68 bytes, which are padded
/// to 80: a multiple of 16 that covers the frame, the three tags and the
/// terminator. Its buffer is `init_words`.
pub proof fn lemma_init_request(width: u32, height: u32, bpp: u32)
    ensures
        request_bytes(init_tags(width, height, bpp)) == 68,
        request_size(init_tags(width, height, bpp)) == 80,
        request_words(init_tags(width, height, bpp)) == init_words(width, height, bpp),
{
    let t = init_tags(width, height, bpp);
    let t2 = t.drop_last();
    let t1 = t2.drop_last();
    assert(t1.drop_last().len() == 0);
    assert(tags_bytes(t1) == 20 && tags_bytes(t2) == 40 && tags_bytes(t) == 56) by {
        reveal_with_fuel(tags_bytes, 4);
    }
    assert(tags_words(t) =~= t[0].words() + t[1].words() + t[2].words()) by {
        reveal_with_fuel(tags_words, 4);
    }
    assert(request_words(t) =~= init_words(width, height, bpp));
}

/// The request that allocates the pixel memory takes 32 bytes and needs no
/// padding. Its buffer is `allocate_words`.
pub proof fn lemma_allocate_request()
    ensures
        request_bytes(allocate_tags()) == 32,
        request_size(allocate_tags()) == 32,
        request_words(allocate_tags()) == allocate_words(),
{
    let t = allocate_tags();
    assert(t.drop_last().len() == 0);
    assert(tags_bytes(t) == 20) by {
        reveal_with_fuel(tags_bytes, 2);
    }
    assert(tags_words(t) =~= t[0].words()) by {
        reveal_with_fuel(tags_words, 2);
    }
    assert(request_words(t) =~= allocate_words());
}

/// The request that sets the physical and the virtual size of the display
/// and the depth of a pixel, word by word: 68 bytes, padded to 80.
pub open spec fn init_words(width: u32, height: u32, bpp: u32) -> Seq<u32> {
    seq![
        80u32,
        REQUEST,
        FB_SET_PHYSICAL_DIMENSIONS,
        8u32,
        REQUEST,
        width,
        height,
        FB_SET_VIRTUAL_DIMENSIONS,
        8u32,
        REQUEST,
        width,
        height,
        FB_SET_BITS_PER_PIXEL,
        4u32,
        REQUEST,
        bpp,
        0u32,
        0u32,
        0u32,
        0u32,
    ]
}

/// The request that allocates the pixel memory, word by word: 32 bytes. The
/// answer holds the address in word 5 and the size in word 6.
pub open spec fn allocate_words() -> Seq<u32> {
    seq![32u32, REQUEST, FB_ALLOCATE_BUFFER, 8u32, REQUEST, FB_ALIGNMENT, 0u32, 0u32]
}

/// How far the negotiation of a handle has come.
#[derive(Clone, Copy, Debug, PartialEq, Eq, Structural)]
pub enum Stage {
    /// The dimensions have not been configured.
    Configure,
    /// The dimensions are configured, the pixel memory is not allocated.
    Allocate,
    /// The handle is negotiated and can be drawn on.
    Ready,
    /// The co-processor has turned the negotiation down.
    Failed,
}

/// A framebuffer of 24 bits per pixel with the cursor of its text console.
#[derive(Debug)]
pub struct FrameBuffer24 {
    pub width: u32,
    pub height: u32,
    pub bpp: u32,
    /// Bytes from one row of pixels to the next.
    pub pitch: u32,
    /// Bus address of the pixel memory.
    pub addr: u32,
    /// The pixel memory, `size` bytes.
    pub buf: Vec<u8>,
    pub size: u32,
    pub chars_width: u32,
    pub chars_height: u32,
    pub x: u32,
    pub y: u32,
    pub font: Font8x8,
    pub stage: Stage,
}

impl View for FrameBuffer24 {
    type V = Screen;

    open spec fn view(&self) -> Screen {
        Screen {
            width: self.width as int,
            height: self.height as int,
            pixels: Seq::new(
                self.pixel_count(),
                |k: int|
                    Pixel24 {
                        r: self.buf@[3 * k],
                        g: self.buf@[3 * k + 1],
                        b: self.buf@[3 * k + 2],
                    },
            ),
            x: self.x as int,
            y: self.y as int,
        }
    }
}

impl FrameBuffer24 {
    /// Number of pixels of the plane that the memory has room for.
    pub open spec fn pixel_count(&self) -> nat {
        if self.width * self.height <= self.buf@.len() / 3 {
            (self.width * self.height) as nat
        } else {
            self.buf@.len() / 3
        }
    }

    /// The handle is valid for its stage. Once the dimensions are
    /// configured, rows are packed without gaps and the text grid is the
    /// plane in cells of 8 by 8 pixels; once the memory is allocated, it has
    /// the negotiated size.
    pub open spec fn wf(&self) -> bool {
        &&& self.bpp == 24
        &&& 3 * self.width <= u32::MAX
        &&& self.font.wf()
        &&& (self.stage == Stage::Allocate || self.stage == Stage::Ready) ==> {
            &&& self.pitch == 3 * self.width
            &&& self.chars_width == self.width / 8
            &&& self.chars_height == self.height / 8
        }
        &&& self.stage == Stage::Ready ==> self.buf@.len() == self.size
    }

    /// The handle is negotiated and can be drawn on.
    pub open spec fn ready(&self) -> bool {
        self.wf() && self.stage == Stage::Ready
    }

    /// Whether the handle is valid for its stage.
    pub fn is_valid(&self) -> (ok: bool)
        ensures
            ok == self.wf(),
    {
        let configured: bool = self.pitch as u64 == 3 * self.width as u64 && self.chars_width
            == self.width / 8 && self.chars_height == self.height / 8;
        self.bpp == 24 && self.width <= u32::MAX / 3 && self.font.is_valid() && match self.stage {
            Stage::Allocate => configured,
            Stage::Ready => configured && self.buf.len() as u64 == self.size as u64,
            _ => true,
        }
    }

    /// Whether the handle is negotiated and can be drawn on.
    pub fn is_ready(&self) -> (ok: bool)
        ensures
            ok == self.ready(),
    {
        self.is_valid() && self.stage == Stage::Ready
    }

    /// A handle for a display of `width` by `height` pixels at 24 bits per
    /// pixel, with nothing negotiated yet.
    pub fn new(width: u32, height: u32, font: Font8x8) -> (fb: FrameBuffer24)
        requires
            3 * width <= u32::MAX,
            font.wf(),
        ensures
            fb.wf(),
            fb.stage == Stage::Configure,
            fb.width == width,
            fb.height == height,
            fb.bpp == 24,
            fb.pitch == 0,
            fb.addr == 0,
            fb.size == 0,
            fb.buf@.len() == 0,
            fb.chars_width == 0,
            fb.chars_height == 0,
            fb.x == 0,
            fb.y == 0,
            fb.font == font,
    {
        FrameBuffer24 {
            width,
            height,
            bpp: 24,
            pitch: 0,
            addr: 0,
            buf: Vec::new(),
            size: 0,
            chars_width: 0,
            chars_height: 0,
            x: 0,
            y: 0,
            font,
            stage: Stage::Configure,
        }
    }

    /// Everything but the stage and what `init` derives is as in `other`.
    pub open spec fn same_display(&self, other: &FrameBuffer24) -> bool {
        &&& self.width == other.width
        &&& self.height == other.height
        &&& self.bpp == other.bpp
        &&& self.font == other.font
        &&& self.addr == other.addr
        &&& self.size == other.size
        &&& self.buf@ == other.buf@
    }

    /// Everything but the stage and the pixel memory is as in `other`.
    pub open spec fn same_grid(&self, other: &FrameBuffer24) -> bool {
        &&& self.width == other.width
        &&& self.height == other.height
        &&& self.bpp == other.bpp
        &&& self.font == other.font
        &&& self.pitch == other.pitch
        &&& self.chars_width == other.chars_width
        &&& self.chars_height == other.chars_height
        &&& self.x == other.x
        &&& self.y == other.y
    }

    /// What `init` makes of the handle `before` on the answer `res`. On
    /// success the pitch and the text grid follow from the dimensions, the
    /// cursor stands in the first cell, and the memory is to be allocated
    /// next. Any other answer ends the negotiation and changes nothing else.
    pub open spec fn configured_from(&self, before: &FrameBuffer24, res: FBInitResult) -> bool {
        &&& self.same_display(before)
        &&& res == FBInitResult::Success ==> {
            &&& self.stage == Stage::Allocate
            &&& self.pitch == 3 * before.width
            &&& self.chars_width == before.width / 8
            &&& self.chars_height == before.height / 8
            &&& self.x == 0
            &&& self.y == 0
        }
        &&& res != FBInitResult::Success ==> {
            &&& self.stage == Stage::Failed
            &&& self.same_grid(before)
        }
    }

    /// What `allocate` makes of the handle `before` on the answer `res` with
    /// the address `addr` and the size `size`. On success the handle is ready
    /// and owns a memory of `size` bytes, all of them zero. Any other answer
    /// ends the negotiation and changes nothing else.
    pub open spec fn allocated_from(
        &self,
        before: &FrameBuffer24,
        res: FBInitResult,
        addr: u32,
        size: u32,
    ) -> bool {
        &&& self.same_grid(before)
        &&& res == FBInitResult::Success ==> {
            &&& self.stage == Stage::Ready
            &&& self.addr == addr
            &&& self.size == size
            &&& self.buf@ == Seq::new(size as nat, |i: int| 0u8)
        }
        &&& res != FBInitResult::Success ==> {
            &&& self.stage == Stage::Failed
            &&& self.same_display(before)
        }
    }

    /// A handle becomes ready exactly by two answers of success, the first
    /// to the request that configures the dimensions and the second to the
    /// request that allocates the memory. The first answer that is no
    /// success ends the negotiation with that answer. A handle that is ready
    /// has a pitch of three bytes for each pixel of a row, a text grid in
    /// cells of 8 by 8 pixels with the cursor in its first cell, and the
    /// address and the size that the second answer gave.
    pub proof fn lemma_negotiated(
        fresh: &FrameBuffer24,
        configured: &FrameBuffer24,
        allocated: &FrameBuffer24,
        first: FBInitResult,
        second: FBInitResult,
        addr: u32,
        size: u32,
    )
        requires
            fresh.wf(),
            fresh.stage == Stage::Configure,
            configured.configured_from(fresh, first),
            first == FBInitResult::Success ==> allocated.allocated_from(
                configured,
                second,
                addr,
                size,
            ),
        ensures
            first != FBInitResult::Success ==> configured.stage == Stage::Failed,
            first == FBInitResult::Success && second != FBInitResult::Success ==> allocated.stage
                == Stage::Failed,
            first == FBInitResult::Success && second == FBInitResult::Success ==> {
                &&& allocated.ready()
                &&& allocated.width == fresh.width
                &&& allocated.height == fresh.height
                &&& allocated.bpp == 24
                &&& allocated.pitch == 3 * fresh.width
                &&& allocated.chars_width == fresh.width / 8
                &&& allocated.chars_height == fresh.height / 8
                &&& allocated.x == 0
                &&& allocated.y == 0
                &&& allocated.addr == addr
                &&& allocated.size == size
                &&& allocated@.pixels == Seq::new(
                    allocated.pixel_count(),
                    |k: int| Pixel24::spec_black(),
                )
            },
    {
        if first == FBInitResult::Success && second == FBInitResult::Success {
            assert(allocated@.pixels =~= Seq::new(
                allocated.pixel_count(),
                |k: int| Pixel24::spec_black(),
            ));
        }
    }

    /// The request that configures the dimensions of the display.
    pub fn init_request(&self) -> (words: Vec<u32>)
        ensures
            words@ == init_words(self.width, self.height, self.bpp),
            words@.len() == INIT_WORDS,
    {
        let mut tags: Vec<MessageTag> = Vec::new();
        tags.push(MessageTag::SetPhysicalDimensions { width: self.width, height: self.height });
        tags.push(MessageTag::SetVirtualDimensions { width: self.width, height: self.height });
        tags.push(MessageTag::SetBitsPerPixel { bits: self.bpp });
        let req_init: PropertyMessage = PropertyMessage { tags };
        proof {
            assert(req_init.tags@ =~= init_tags(self.width, self.height, self.bpp));
            lemma_init_request(self.width, self.height, self.bpp);
        }
        req_init.encode().unwrap()
    }

    /// Takes the answer to the request of `init_request`. On success the
    /// pitch and the text grid are derived from the dimensions, the cursor is
    /// set to the first cell, and the memory is to be allocated next. Any
    /// other answer ends the negotiation.
    pub fn init(&mut self, reply: &Vec<u32>) -> (res: FBInitResult)
        requires
            old(self).wf(),
            old(self).stage == Stage::Configure,
            reply@.len() == INIT_WORDS,
        ensures
            res == FBInitResult::spec_of_marker(reply@[1]),
            final(self).wf(),
            final(self).configured_from(old(self), res),
    {
        let res: FBInitResult = FBInitResult::of_marker(reply[1]);
        match res {
            FBInitResult::Success => {
                self.chars_width = self.width / CHAR_WIDTH;
                self.chars_height = self.height / CHAR_HEIGHT;
                self.x = 0;
                self.y = 0;
                self.pitch = self.width * (self.bpp / 8);
                self.stage = Stage::Allocate;
            },
            _ => {
                self.stage = Stage::Failed;
            },
        }
        res
    }

    /// The request that allocates the pixel memory.
    pub fn allocate_request(&self) -> (words: Vec<u32>)
        ensures
            words@ == allocate_words(),
            words@.len() == ALLOC_WORDS,
    {
        let mut tags: Vec<MessageTag> = Vec::new();
        tags.push(MessageTag::AllocateBuffer { alignment: FB_ALIGNMENT });
        let req_allocate: PropertyMessage = PropertyMessage { tags };
        proof {
            assert(req_allocate.tags@ =~= allocate_tags());
            lemma_allocate_request();
        }
        req_allocate.encode().unwrap()
    }

    /// Takes the answer to the request of `allocate_request`. On success the
    /// handle takes the address and the size from the answer and owns a pixel
    /// memory of that size, all black. Any other answer ends the negotiation.
    pub fn allocate(&mut self, reply: &Vec<u32>) -> (res: FBInitResult)
        requires
            old(self).wf(),
            old(self).stage == Stage::Allocate,
            reply@.len() == ALLOC_WORDS,
        ensures
            res == FBInitResult::spec_of_marker(reply@[1]),
            final(self).wf(),
            final(self).allocated_from(old(self), res, reply@[5], reply@[6]),
    {
        let res: FBInitResult = FBInitResult::of_marker(reply[1]);
        match res {
            FBInitResult::Success => {
                self.addr = reply[5];
                self.size = reply[6];
                self.buf = vec![0u8; self.size as usize];
                self.stage = Stage::Ready;
                assert(self.buf@ =~= Seq::new(reply@[6] as nat, |i: int| 0u8));
            },
            _ => {
                self.stage = Stage::Failed;
            },
        }
        res
    }

    /// The request that the negotiation needs answered next, or `None` when
    /// the negotiation has ended.
    pub fn request(&self) -> (words: Option<Vec<u32>>)
        ensures
            match self.stage {
                Stage::Configure => words.is_some() && words.unwrap()@ == init_words(
                    self.width,
                    self.height,
                    self.bpp,
                ),
                Stage::Allocate => words.is_some() && words.unwrap()@ == allocate_words(),
                _ => words.is_none(),
            },
    {
        match self.stage {
            Stage::Configure => Some(self.init_request()),
            Stage::Allocate => Some(self.allocate_request()),
            _ => None,
        }
    }

    /// Takes the answer to the request of `request`: the dimensions are
    /// configured first and the memory is allocated second, and the first
    /// answer that is no success ends the negotiation.
    pub fn respond(&mut self, reply: &Vec<u32>) -> (res: FBInitResult)
        requires
            old(self).wf(),
            old(self).stage == Stage::Configure && reply@.len() == INIT_WORDS || old(self).stage
                == Stage::Allocate && reply@.len() == ALLOC_WORDS,
        ensures
            res == FBInitResult::spec_of_marker(reply@[1]),
            final(self).wf(),
            old(self).stage == Stage::Configure ==> final(self).configured_from(old(self), res),
            old(self).stage == Stage::Allocate ==> final(self).allocated_from(
                old(self),
                res,
                reply@[5],
                reply@[6],
            ),
    {
        match self.stage {
            Stage::Configure => self.init(reply),
            _ => self.allocate(reply),
        }
    }
}

} // verus!
