//! Pixel buffers: a frame as the display hands it out, and the smaller frame
//! that is encoded.

use vstd::prelude::*;

verus! {

/// A pixel buffer as a mathematical value: its size in pixels and its bytes,
/// row after row from the top, each pixel with its channels side by side.
pub struct Picture {
    pub width: nat,
    pub height: nat,
    pub bytes: Seq<u8>,
}

impl Picture {
    /// Whether the bytes are those of `width * height` pixels of `channels`
    /// bytes each.
    pub open spec fn holds(self, channels: nat) -> bool {
        self.bytes.len() == self.width * self.height * channels
    }

    /// Channel `c` of the pixel in column `x` of row `y`, where each pixel has
    /// `channels` bytes.
    pub open spec fn channel(self, channels: nat, x: int, y: int, c: int) -> u8 {
        self.bytes[(y * self.width + x) * channels + c]
    }
}

/// The picture of every second pixel of every second row of an RGBA picture,
/// without the alpha channel.
pub open spec fn downsampled(raw: Picture) -> Picture {
    let width = raw.width / 2;
    let height = raw.height / 2;
    Picture {
        width,
        height,
        bytes: Seq::new(
            width * height * 3,
            |i: int| raw.channel(4, 2 * ((i / 3) % (width as int)), 2 * ((i / 3) / (width as int)), i % 3),
        ),
    }
}

/// The picture of the given size whose bytes are all zero.
pub open spec fn blank(width: nat, height: nat) -> Picture {
    Picture { width, height, bytes: Seq::new(width * height * 3, |i: int| 0u8) }
}

/// A captured frame: RGBA, four bytes per pixel.
pub struct RawFrame {
    width: u32,
    height: u32,
    pixels: Vec<u8>,
}

/// A frame ready for encoding: RGB, three bytes per pixel.
pub struct RgbFrame {
    width: u32,
    height: u32,
    data: Vec<u8>,
}

impl View for RawFrame {
    type V = Picture;

    closed spec fn view(&self) -> Picture {
        Picture { width: self.width as nat, height: self.height as nat, bytes: self.pixels@ }
    }
}

impl View for RgbFrame {
    type V = Picture;

    closed spec fn view(&self) -> Picture {
        Picture { width: self.width as nat, height: self.height as nat, bytes: self.data@ }
    }
}

impl RawFrame {
    #[verifier::type_invariant]
    spec fn well_formed(self) -> bool {
        &&& self.pixels@.len() == self.width * self.height * 4
        &&& self.pixels@.len() <= usize::MAX
    }

    /// A frame of the given size over the given bytes, if they are the bytes
    /// of that many RGBA pixels.
    pub fn new(width: u32, height: u32, pixels: Vec<u8>) -> (frame: Option<RawFrame>)
        ensures
            frame is Some <==> pixels@.len() == width * height * 4,
            frame is Some ==> frame->0@ == (Picture {
                width: width as nat,
                height: height as nat,
                bytes: pixels@,
            }),
    {
        assert(width * height <= 0xFFFF_FFFF * 0xFFFF_FFFF) by (nonlinear_arith)
            requires
                0 <= width <= 0xFFFF_FFFF,
                0 <= height <= 0xFFFF_FFFF,
        ;
        let area: u64 = width as u64 * height as u64;
        let length: usize = pixels.len();
        if area > u64::MAX / 4 {
            return None;
        }
        if length as u64 != area * 4 {
            return None;
        }
        Some(RawFrame { width, height, pixels })
    }

    pub fn width(&self) -> (width: u32)
        ensures
            width == self@.width,
    {
        self.width
    }

    pub fn height(&self) -> (height: u32)
        ensures
            height == self@.height,
    {
        self.height
    }

    /// The bytes of the frame, four for each pixel.
    pub fn pixels(&self) -> (pixels: &Vec<u8>)
        ensures
            pixels@ == self@.bytes,
            self@.holds(4),
    {
        proof {
            use_type_invariant(self);
        }
        &self.pixels
    }
}

impl RgbFrame {
    #[verifier::type_invariant]
    spec fn well_formed(self) -> bool {
        &&& self.data@.len() == self.width * self.height * 3
        &&& self.data@.len() <= usize::MAX
    }

    pub fn width(&self) -> (width: u32)
        ensures
            width == self@.width,
    {
        self.width
    }

    pub fn height(&self) -> (height: u32)
        ensures
            height == self@.height,
    {
        self.height
    }

    /// The bytes of the frame, three for each pixel.
    pub fn data(&self) -> (data: &Vec<u8>)
        ensures
            data@ == self@.bytes,
            self@.holds(3),
            self@.bytes.len() <= usize::MAX,
    {
        proof {
            use_type_invariant(self);
        }
        &self.data
    }

    /// The zero-filled frame of the given size.
    pub fn blank(width: u32, height: u32) -> (frame: RgbFrame)
        requires
            width * height * 3 <= usize::MAX,
        ensures
            frame@ == blank(width as nat, height as nat),
    {
        assert(width * height <= width * height * 3) by (nonlinear_arith)
            requires
                0 <= width,
                0 <= height,
        ;
        let pixels: usize = width as usize * height as usize;
        let data: Vec<u8> = vec![0u8; pixels * 3];
        assert(data@ =~= blank(width as nat, height as nat).bytes);
        RgbFrame { width, height, data }
    }

    /// Halves a captured frame in both directions by keeping every second
    /// pixel of every second row, and drops the alpha channel.
    pub fn downsample(raw: &RawFrame) -> (frame: RgbFrame)
        ensures
            frame@ == downsampled(raw@),
    {
        proof {
            use_type_invariant(raw);
        }
        let width: u32 = raw.width / 2;
        let height: u32 = raw.height / 2;
        let w: usize = width as usize;
        let h: usize = height as usize;
        let source_width: usize = raw.width as usize;
        let ghost target = downsampled(raw@);
        let mut data: Vec<u8> = Vec::new();
        let mut y: usize = 0;
        while y < h
            invariant
                y <= h,
                w == raw.width / 2,
                h == raw.height / 2,
                source_width == raw.width,
                raw.pixels@.len() == raw.width * raw.height * 4,
                raw.pixels@.len() <= usize::MAX,
                target == downsampled(raw@),
                data@.len() == y * w * 3,
                forall|i: int| 0 <= i < data@.len() ==> data@[i] == target.bytes[i],
            decreases h - y,
        {
            let mut x: usize = 0;
            while x < w
                invariant
                    x <= w,
                    y < h,
                    w == raw.width / 2,
                    h == raw.height / 2,
                    source_width == raw.width,
                    raw.pixels@.len() == raw.width * raw.height * 4,
                    raw.pixels@.len() <= usize::MAX,
                    target == downsampled(raw@),
                    data@.len() == (y * w + x) * 3,
                    forall|i: int| 0 <= i < data@.len() ==> data@[i] == target.bytes[i],
                decreases w - x,
            {
                proof {
                    lemma_source_in_bounds(
                        raw.width as int,
                        raw.height as int,
                        x as int,
                        y as int,
                    );
                    lemma_target_index(w as int, h as int, x as int, y as int, 0);
                    lemma_target_index(w as int, h as int, x as int, y as int, 1);
                    lemma_target_index(w as int, h as int, x as int, y as int, 2);
                }
                let at: usize = ((2 * y) * source_width + 2 * x) * 4;
                data.push(raw.pixels[at]);
                data.push(raw.pixels[at + 1]);
                data.push(raw.pixels[at + 2]);
                x += 1;
                assert((y * w + x) * 3 == (y * w + (x - 1)) * 3 + 3) by (nonlinear_arith);
            }
            y += 1;
            assert(y * w * 3 == ((y - 1) * w + w) * 3) by (nonlinear_arith);
        }
        assert(data@.len() == target.bytes.len()) by (nonlinear_arith)
            requires
                data@.len() == y * w * 3,
                y == h,
                target.bytes.len() == w * h * 3,
        ;
        assert(data@ =~= target.bytes);
        assert(w * h * 3 <= raw.width * raw.height * 4) by (nonlinear_arith)
            requires
                0 <= 2 * w <= raw.width,
                0 <= 2 * h <= raw.height,
        ;
        RgbFrame { width, height, data }
    }
}

/// The pixel that a downsampled pixel is taken from lies in the source.
proof fn lemma_source_in_bounds(source_width: int, source_height: int, x: int, y: int)
    requires
        0 <= x < source_width / 2,
        0 <= y < source_height / 2,
    ensures
        0 <= (2 * y) * source_width,
        0 <= ((2 * y) * source_width + 2 * x) * 4,
        ((2 * y) * source_width + 2 * x) * 4 + 3 < source_width * source_height * 4,
{
    assert((2 * y) * source_width + 2 * x + 1 <= (2 * y + 1) * source_width) by (nonlinear_arith)
        requires
            2 * x + 1 <= source_width,
    ;
    assert((2 * y + 1) * source_width <= source_height * source_width) by (nonlinear_arith)
        requires
            2 * y + 1 <= source_height,
            source_width >= 0,
    ;
    assert((2 * y) * source_width >= 0) by (nonlinear_arith)
        requires
            y >= 0,
            source_width >= 0,
    ;
    assert(source_height * source_width == source_width * source_height) by (nonlinear_arith);
}

/// Where channel `c` of pixel (`x`, `y`) lies among the bytes of an RGB
/// picture of the given size, and how the pixel is found again from there.
pub proof fn lemma_target_index(width: int, height: int, x: int, y: int, c: int)
    requires
        0 <= x < width,
        0 <= y < height,
        0 <= c < 3,
    ensures
        0 <= (y * width + x) * 3 + c < width * height * 3,
        ((y * width + x) * 3 + c) / 3 == y * width + x,
        ((y * width + x) * 3 + c) % 3 == c,
        (y * width + x) % width == x,
        (y * width + x) / width == y,
{
    let pixel = y * width + x;
    assert(0 <= y * width) by (nonlinear_arith)
        requires
            0 <= y,
            0 <= width,
    ;
    assert(pixel + 1 <= height * width) by (nonlinear_arith)
        requires
            pixel == y * width + x,
            x + 1 <= width,
            y + 1 <= height,
            0 <= width,
    ;
    assert(height * width == width * height) by (nonlinear_arith);
    assert(width * height * 3 == (width * height) * 3);
    vstd::arithmetic::div_mod::lemma_fundamental_div_mod_converse(pixel * 3 + c, 3, pixel, c);
    vstd::arithmetic::div_mod::lemma_fundamental_div_mod_converse(pixel, width, y, x);
}

/// Each pixel of the downsampled picture has the red, green and blue of the
/// source pixel in twice its column and twice its row.
pub proof fn lemma_downsampled_pixels(raw: Picture, x: int, y: int, c: int)
    requires
        raw.holds(4),
        0 <= x < raw.width / 2,
        0 <= y < raw.height / 2,
        0 <= c < 3,
    ensures
        downsampled(raw).width == raw.width / 2,
        downsampled(raw).height == raw.height / 2,
        downsampled(raw).holds(3),
        downsampled(raw).channel(3, x, y, c) == raw.channel(4, 2 * x, 2 * y, c),
{
    let width = (raw.width / 2) as int;
    let height = (raw.height / 2) as int;
    lemma_target_index(width, height, x, y, c);
}

} // verus!
