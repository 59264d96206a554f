//! Bitmap textures: nearest-texel lookup with coordinates clamped to the
//! image's edges.
use vstd::prelude::*;

verus! {

/// One texel of a bitmap, 8 bits per channel.
#[derive(Clone, Copy, Debug, PartialEq, Eq, Structural)]
pub struct Rgb8 {
    pub r: u8,
    pub g: u8,
    pub b: u8,
}

/// A bitmap texture: `width * height` texels in row-major order, the first
/// row at the top.
#[derive(Debug)]
pub struct ImageTexture {
    pixels: Vec<Rgb8>,
    width: usize,
    height: usize,
}

/// What an image texture holds.
pub struct TextureView {
    pub width: nat,
    pub height: nat,
    pub texels: Seq<Rgb8>,
}

impl View for ImageTexture {
    type V = TextureView;

    closed spec fn view(&self) -> TextureView {
        TextureView { width: self.width as nat, height: self.height as nat, texels: self.pixels@ }
    }
}

/// A coordinate limited to `0..n`: below the range it is the first index,
/// above it the last.
pub open spec fn clamp_index(c: int, n: int) -> int {
    if c < 0 {
        0
    } else if c >= n {
        n - 1
    } else {
        c
    }
}

/// The texels that a tightly packed RGB byte buffer describes, three bytes
/// per texel.
pub open spec fn texels_of(rgb: Seq<u8>, count: nat) -> Seq<Rgb8> {
    Seq::new(count, |i: int| Rgb8 { r: rgb[3 * i], g: rgb[3 * i + 1], b: rgb[3 * i + 2] })
}

impl ImageTexture {
    /// The texture is not empty and holds one texel per position.
    pub open spec fn wf(&self) -> bool {
        &&& self@.width > 0
        &&& self@.height > 0
        &&& self@.texels.len() == self@.width * self@.height
    }

    /// A texture of `width * height` texels from their RGB bytes, row by
    /// row from the top. There is none when either side is zero or the
    /// buffer does not hold exactly three bytes per texel.
    pub fn new(width: usize, height: usize, rgb: &Vec<u8>) -> (r: Option<ImageTexture>)
        ensures
            r is Some <==> width > 0 && height > 0 && rgb@.len() == 3 * width * height,
            r matches Some(t) ==> {
                &&& t.wf()
                &&& t@.width == width
                &&& t@.height == height
                &&& t@.texels == texels_of(rgb@, (width * height) as nat)
            },
    {
        let len = rgb.len();
        if width == 0 || height == 0 {
            return None;
        }
        let count = match width.checked_mul(height) {
            Some(c) => c,
            None => {
                proof {
                    assert(3 * width * height > usize::MAX) by (nonlinear_arith)
                        requires
                            width * height > usize::MAX,
                    ;
                }
                return None;
            },
        };
        let bytes = match count.checked_mul(3) {
            Some(b) => b,
            None => {
                proof {
                    assert(3 * width * height == count * 3) by (nonlinear_arith)
                        requires
                            count == width * height,
                    ;
                }
                return None;
            },
        };
        proof {
            assert(3 * width * height == count * 3) by (nonlinear_arith)
                requires
                    count == width * height,
            ;
        }
        if len != bytes {
            return None;
        }
        let mut pixels: Vec<Rgb8> = Vec::new();
        let mut i: usize = 0;
        while i < count
            invariant
                i <= count,
                rgb@.len() == 3 * count,
                bytes == 3 * count,
                pixels@ =~= texels_of(rgb@, i as nat),
            decreases count - i,
        {
            pixels.push(Rgb8 { r: rgb[3 * i], g: rgb[3 * i + 1], b: rgb[3 * i + 2] });
            i = i + 1;
        }
        Some(ImageTexture { pixels, width, height })
    }

    pub fn width(&self) -> (r: usize)
        ensures
            r == self@.width,
    {
        self.width
    }

    pub fn height(&self) -> (r: usize)
        ensures
            r == self@.height,
    {
        self.height
    }

    /// The texel nearest to texel coordinates `(u, v)`, column `u` of row
    /// `v` from the top; coordinates outside the image are clamped to its
    /// edges.
    pub fn sample(&self, u: i64, v: i64) -> (r: Rgb8)
        requires
            self.wf(),
        ensures
            r == self@.texels[clamp_index(u as int, self@.width as int) + self@.width
                * clamp_index(v as int, self@.height as int)],
    {
        let tu: usize = if u < 0 {
            0
        } else if u as u64 >= self.width as u64 {
            self.width - 1
        } else {
            u as usize
        };
        let tv: usize = if v < 0 {
            0
        } else if v as u64 >= self.height as u64 {
            self.height - 1
        } else {
            v as usize
        };
        let w = self.width;
        let h = self.height;
        let n = self.pixels.len();
        proof {
            assert(tu + w * tv < w * h) by (nonlinear_arith)
                requires
                    tu < w,
                    tv < h,
            ;
            assert(n == w * h);
        }
        self.pixels[tu + w * tv]
    }
}

} // verus!
