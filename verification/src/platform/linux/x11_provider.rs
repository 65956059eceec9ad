use vstd::prelude::*;
use vstd::arithmetic::div_mod::{
    lemma_div_is_ordered, lemma_div_multiples_vanish, lemma_fundamental_div_mod,
    lemma_fundamental_div_mod_converse_div, lemma_fundamental_div_mod_converse_mod,
    lemma_mod_bound,
};
use vstd::arithmetic::mul::lemma_mul_inequality;
use crate::canonical::Image;
use crate::error::Error;
use crate::traits::Provider;

verus! {

/// A window's client rectangle in root-window coordinates.
#[derive(Clone, Copy, Debug, PartialEq, Eq, Structural)]
pub struct Rect {
    pub x: i32,
    pub y: i32,
    pub w: u32,
    pub h: u32,
}

/// The fields of an X server image reply that decoding reads, together with
/// the raw pixel bytes. Field widths follow the native image structure:
/// dimensions and layout are C ints, channel masks are C unsigned longs.
pub struct XImageData {
    pub width: i32,
    pub height: i32,
    pub byte_order: i32,
    pub depth: i32,
    pub bytes_per_line: i32,
    pub bits_per_pixel: i32,
    pub red_mask: u64,
    pub green_mask: u64,
    pub blue_mask: u64,
    pub data: Vec<u8>,
}

/// The byte lane within a pixel that holds the channel selected by `mask`,
/// for the server's byte order (0 is least-significant-byte first, 1 is
/// most-significant-byte first). Only a mask covering exactly one of the
/// four byte lanes of the low 32 bits is decodable.
pub open spec fn channel_offset_spec(byte_order: i32, mask: u64) -> Option<u32> {
    let m = mask & 0xFFFF_FFFF;
    if byte_order == 0 {
        if m == 0xFF {
            Some(0u32)
        } else if m == 0xFF00 {
            Some(1u32)
        } else if m == 0xFF_0000 {
            Some(2u32)
        } else if m == 0xFF00_0000 {
            Some(3u32)
        } else {
            None
        }
    } else if byte_order == 1 {
        if m == 0xFF00_0000 {
            Some(0u32)
        } else if m == 0xFF_0000 {
            Some(1u32)
        } else if m == 0xFF00 {
            Some(2u32)
        } else if m == 0xFF {
            Some(3u32)
        } else {
            None
        }
    } else {
        None
    }
}

/// Derives the byte position of one channel within a pixel from its bit
/// mask and the server's byte order. Every decodable offset lies in 0..=3.
pub fn channel_offset(byte_order: i32, mask: u64) -> (r: Result<u32, Error>)
    ensures
        match r {
            Ok(off) => channel_offset_spec(byte_order, mask) == Some(off) && off <= 3,
            Err(e) => {
                &&& channel_offset_spec(byte_order, mask) is None
                &&& e == Error::WindowCaptureFailed
            },
        },
{
    let m: u64 = mask & 0xFFFF_FFFF;
    if byte_order == 0 {
        if m == 0xFF {
            Ok(0)
        } else if m == 0xFF00 {
            Ok(1)
        } else if m == 0xFF_0000 {
            Ok(2)
        } else if m == 0xFF00_0000 {
            Ok(3)
        } else {
            Err(Error::WindowCaptureFailed)
        }
    } else if byte_order == 1 {
        if m == 0xFF00_0000 {
            Ok(0)
        } else if m == 0xFF_0000 {
            Ok(1)
        } else if m == 0xFF00 {
            Ok(2)
        } else if m == 0xFF {
            Ok(3)
        } else {
            Err(Error::WindowCaptureFailed)
        }
    } else {
        Err(Error::WindowCaptureFailed)
    }
}

/// Every offset the mask table can produce lies in one of the four byte
/// lanes of a pixel.
pub proof fn lemma_channel_offset_in_range(byte_order: i32, mask: u64)
    ensures
        channel_offset_spec(byte_order, mask) matches Some(off) ==> 0 <= off <= 3,
{
}

/// The byte distance between two horizontally adjacent pixels, determined
/// by the supported (depth, bits-per-pixel) pairs: (24, 24) packs pixels in
/// three bytes, (24, 32) and (32, 32) in four. Any other pair is not
/// decodable.
pub open spec fn pixel_stride_spec(depth: i32, bits_per_pixel: i32) -> Option<u32> {
    if depth == 24 && bits_per_pixel == 24 {
        Some(3u32)
    } else if (depth == 24 || depth == 32) && bits_per_pixel == 32 {
        Some(4u32)
    } else {
        None
    }
}

pub fn pixel_stride(depth: i32, bits_per_pixel: i32) -> (r: Result<u32, Error>)
    ensures
        match r {
            Ok(s) => pixel_stride_spec(depth, bits_per_pixel) == Some(s) && (s == 3 || s == 4),
            Err(e) => {
                &&& pixel_stride_spec(depth, bits_per_pixel) is None
                &&& e == Error::WindowCaptureFailed
            },
        },
{
    if depth == 24 && bits_per_pixel == 24 {
        Ok(3)
    } else if (depth == 24 || depth == 32) && bits_per_pixel == 32 {
        Ok(4)
    } else {
        Err(Error::WindowCaptureFailed)
    }
}

/// The mask of the bits covered by none of the three color masks; when the
/// pixel has an alpha channel, this is where it lives.
pub open spec fn alpha_mask_of(img: XImageData) -> u64 {
    !(img.red_mask | img.green_mask | img.blue_mask)
}

/// All four channel offsets of `img`, red, green, blue, alpha, when they
/// are decodable.
pub open spec fn offsets_of(img: XImageData) -> (Option<u32>, Option<u32>, Option<u32>, Option<
    u32,
>) {
    (
        channel_offset_spec(img.byte_order, img.red_mask),
        channel_offset_spec(img.byte_order, img.green_mask),
        channel_offset_spec(img.byte_order, img.blue_mask),
        channel_offset_spec(img.byte_order, alpha_mask_of(img)),
    )
}

pub open spec fn masks_decodable(img: XImageData) -> bool {
    &&& pixel_stride_spec(img.depth, img.bits_per_pixel) is Some
    &&& offsets_of(img).0 is Some
    &&& offsets_of(img).1 is Some
    &&& offsets_of(img).2 is Some
    &&& offsets_of(img).3 is Some
}

/// The largest channel offset a decode of `img` actually reads: the alpha
/// lane is never read at depth 24, where alpha is synthesized instead.
pub open spec fn max_read_offset(img: XImageData) -> int {
    let ro = offsets_of(img).0.unwrap() as int;
    let go = offsets_of(img).1.unwrap() as int;
    let bo = offsets_of(img).2.unwrap() as int;
    let ao = offsets_of(img).3.unwrap() as int;
    let m1 = if go > ro {
        go
    } else {
        ro
    };
    let m2 = if bo > m1 {
        bo
    } else {
        m1
    };
    if img.depth != 24 && ao > m2 {
        ao
    } else {
        m2
    }
}

/// The buffer and dimensions are consistent: every byte the per-pixel read
/// formula addresses exists, and the canonical output fits in memory.
pub open spec fn geometry_ok(img: XImageData) -> bool {
    let stride = pixel_stride_spec(img.depth, img.bits_per_pixel).unwrap() as int;
    &&& 0 <= img.width
    &&& 0 <= img.height
    &&& 0 <= img.bytes_per_line
    &&& img.data@.len() == img.height * img.bytes_per_line
    &&& img.width > 0 ==> (img.width - 1) * stride + max_read_offset(img) + 1
        <= img.bytes_per_line
    &&& img.width * img.height * 4 <= usize::MAX
}

/// An image reply the decoder accepts: a supported (depth, bits-per-pixel)
/// pair, all four channel masks on whole byte lanes, and a buffer that
/// covers every addressed byte.
pub open spec fn decodable(img: XImageData) -> bool {
    masks_decodable(img) && geometry_ok(img)
}

/// The byte lane of channel `c` (0 red, 1 green, 2 blue, 3 alpha).
pub open spec fn offset_at(img: XImageData, c: int) -> int {
    if c == 0 {
        offsets_of(img).0.unwrap() as int
    } else if c == 1 {
        offsets_of(img).1.unwrap() as int
    } else if c == 2 {
        offsets_of(img).2.unwrap() as int
    } else {
        offsets_of(img).3.unwrap() as int
    }
}

/// The native buffer byte holding channel `c` of the pixel at `(x, y)`:
/// `data[y * bytes_per_line + x * stride + offset]`.
pub open spec fn native_pixel_byte(img: XImageData, x: int, y: int, c: int) -> u8 {
    let stride = pixel_stride_spec(img.depth, img.bits_per_pixel).unwrap() as int;
    img.data@[y * img.bytes_per_line + x * stride + offset_at(img, c)]
}

/// Output byte `i` of a decode of `img`: channel `i % 4` of pixel `i / 4`,
/// read from the native buffer at the row, pixel and channel offset the
/// masks dictate; the alpha channel of a depth-24 image is fully opaque.
pub open spec fn decoded_byte(img: XImageData, i: int) -> u8 {
    let p = i / 4;
    let c = i % 4;
    let x = p % (img.width as int);
    let y = p / (img.width as int);
    if c == 3 && img.depth == 24 {
        0xFF
    } else {
        native_pixel_byte(img, x, y, c)
    }
}

/// The canonical RGBA bytes of a decode of `img`.
pub open spec fn decoded_rgba(img: XImageData) -> Seq<u8> {
    Seq::new((img.width * img.height * 4) as nat, |i: int| decoded_byte(img, i))
}

/// At depth 24 every decoded alpha byte is fully opaque, whatever the
/// native buffer holds.
pub proof fn lemma_depth24_alpha_opaque(img: XImageData)
    requires
        img.depth == 24,
    ensures
        forall|p: int|
            0 <= p && p * 4 + 3 < decoded_rgba(img).len() ==> #[trigger] decoded_rgba(img)[p * 4
                + 3] == 0xFF,
{
    assert forall|p: int| 0 <= p && p * 4 + 3 < decoded_rgba(img).len() implies #[trigger] decoded_rgba(
        img,
    )[p * 4 + 3] == 0xFF by {
        lemma_fundamental_div_mod_converse_div(p * 4 + 3, 4, p, 3);
        lemma_fundamental_div_mod_converse_mod(p * 4 + 3, 4, p, 3);
    }
}

/// Decodes an X server image reply into the canonical image: inspects
/// depth, bits per pixel, byte order and the channel masks, derives the
/// byte lane of each channel, and repacks every pixel into RGBA order.
/// Fails on any unsupported layout or inconsistent buffer, and never
/// returns a partial image.
#[verifier::rlimit(60)]
pub fn decode(img: &XImageData) -> (r: Result<Image, Error>)
    ensures
        match r {
            Ok(out) => {
                &&& decodable(*img)
                &&& out.width == img.width as u32
                &&& out.height == img.height as u32
                &&& out.wf()
                &&& out.data@ == decoded_rgba(*img)
            },
            Err(e) => {
                &&& !decodable(*img)
                &&& e == Error::WindowCaptureFailed
            },
        },
{
    let stride: u32 = match pixel_stride(img.depth, img.bits_per_pixel) {
        Ok(s) => s,
        Err(e) => { return Err(e) },
    };
    let ro: u32 = match channel_offset(img.byte_order, img.red_mask) {
        Ok(o) => o,
        Err(e) => { return Err(e) },
    };
    let go: u32 = match channel_offset(img.byte_order, img.green_mask) {
        Ok(o) => o,
        Err(e) => { return Err(e) },
    };
    let bo: u32 = match channel_offset(img.byte_order, img.blue_mask) {
        Ok(o) => o,
        Err(e) => { return Err(e) },
    };
    let amask: u64 = !(img.red_mask | img.green_mask | img.blue_mask);
    let ao: u32 = match channel_offset(img.byte_order, amask) {
        Ok(o) => o,
        Err(e) => { return Err(e) },
    };
    if img.width < 0 || img.height < 0 || img.bytes_per_line < 0 {
        return Err(Error::WindowCaptureFailed);
    }
    let w: usize = img.width as usize;
    let h: usize = img.height as usize;
    let bpl: usize = img.bytes_per_line as usize;
    let mut mo: u32 = ro;
    if go > mo {
        mo = go;
    }
    if bo > mo {
        mo = bo;
    }
    if img.depth != 24 && ao > mo {
        mo = ao;
    }
    assert(mo as int == max_read_offset(*img));
    proof {
        assert(h * bpl < u128::MAX) by (nonlinear_arith)
            requires
                h <= 0x8000_0000,
                bpl <= 0x8000_0000,
        ;
    }
    if img.data.len() as u128 != (h as u128) * (bpl as u128) {
        return Err(Error::WindowCaptureFailed);
    }
    if w > 0 {
        proof {
            assert((w - 1) * stride <= 0x7FFF_FFFF * 4) by (nonlinear_arith)
                requires
                    1 <= w <= 0x8000_0000,
                    stride <= 4,
            ;
        }
        let span: u64 = (w as u64 - 1) * (stride as u64) + (mo as u64) + 1;
        if span > bpl as u64 {
            return Err(Error::WindowCaptureFailed);
        }
    }
    proof {
        assert(w * h * 4 < u128::MAX) by (nonlinear_arith)
            requires
                w <= 0x8000_0000,
                h <= 0x8000_0000,
        ;
    }
    if (w as u128) * (h as u128) * 4 > usize::MAX as u128 {
        return Err(Error::WindowCaptureFailed);
    }
    assert(decodable(*img));
    let stride_us: usize = stride as usize;
    let mut out: Vec<u8> = Vec::new();
    let mut y: usize = 0;
    #[verifier::loop_isolation(false)]
    while y < h
        invariant
            y <= h,
            out@.len() == y * w * 4,
            forall|i: int| 0 <= i < out@.len() ==> out@[i] == decoded_byte(*img, i),
        decreases h - y,
    {
        let mut x: usize = 0;
        proof {
            lemma_mul_inequality(y as int + 1, h as int, bpl as int);
            lemma_mul_inequality(y as int + 1, h as int, (w * 4) as int);
            assert((y + 1) * bpl == y * bpl + bpl) by (nonlinear_arith);
            assert((y + 1) * (w * 4) == y * w * 4 + w * 4) by (nonlinear_arith);
        }
        let row: usize = y * bpl;
        #[verifier::loop_isolation(false)]
        while x < w
            invariant
                x <= w,
                y < h,
                row == y * bpl,
                out@.len() == y * w * 4 + x * 4,
                forall|i: int| 0 <= i < out@.len() ==> out@[i] == decoded_byte(*img, i),
            decreases w - x,
        {
            proof {
                lemma_mul_inequality(x as int + 1, w as int, stride as int);
                assert((x + 1) * stride == x * stride + stride) by (nonlinear_arith);
                assert(row + x * stride_us + mo < img.data@.len()) by {
                    lemma_mul_inequality(x as int, (w - 1) as int, stride as int);
                    assert(y * bpl + bpl <= h * bpl) by (nonlinear_arith)
                        requires
                            y < h,
                            bpl >= 0,
                            (y + 1) * bpl == y * bpl + bpl,
                            (y + 1) * bpl <= h * bpl,
                    ;
                }
                assert(h * bpl == img.data@.len());
            }
            let base: usize = row + x * stride_us;
            let ghost p: int = y * w + x;
            proof {
                assert(p * 4 == y * w * 4 + x * 4) by (nonlinear_arith)
                    requires
                        p == y * w + x,
                ;
                assert(p * 4 + 4 <= w * h * 4) by (nonlinear_arith)
                    requires
                        p == y * w + x,
                        0 <= x < w,
                        0 <= y < h,
                ;
                lemma_fundamental_div_mod_converse_div(p, w as int, y as int, x as int);
                lemma_fundamental_div_mod_converse_mod(p, w as int, y as int, x as int);
            }
            let b_red: u8 = img.data[base + ro as usize];
            out.push(b_red);
            let b_green: u8 = img.data[base + go as usize];
            out.push(b_green);
            let b_blue: u8 = img.data[base + bo as usize];
            out.push(b_blue);
            if img.depth == 24 {
                out.push(0xFF);
            } else {
                let b_alpha: u8 = img.data[base + ao as usize];
                out.push(b_alpha);
            }
            proof {
                assert forall|c: int| 0 <= c < 4 implies out@[p * 4 + c] == #[trigger] decoded_byte(
                    *img,
                    p * 4 + c,
                ) by {
                    lemma_fundamental_div_mod_converse_div(p * 4 + c, 4, p, c);
                    lemma_fundamental_div_mod_converse_mod(p * 4 + c, 4, p, c);
                }
            }
            x = x + 1;
        }
        y = y + 1;
        proof {
            assert(y * w * 4 == (y - 1) * w * 4 + w * 4) by (nonlinear_arith);
        }
    }
    proof {
        assert(h * w * 4 == img.width * img.height * 4) by (nonlinear_arith)
            requires
                w == img.width,
                h == img.height,
        ;
        assert(out@ =~= decoded_rgba(*img));
    }
    Ok(Image { width: img.width as u32, height: img.height as u32, data: out })
}

/// Byte lane `l` of the native pixel at `(x, y)` as an encode writes it:
/// the source channel whose offset is `l`, or zero for an unused lane.
spec fn encoded_lane(
    source: Image,
    depth: i32,
    ro: int,
    go: int,
    bo: int,
    ao: int,
    x: int,
    y: int,
    l: int,
) -> u8 {
    let p4 = (y * source.width + x) * 4;
    if l == ro {
        source.data@[p4]
    } else if l == go {
        source.data@[p4 + 1]
    } else if l == bo {
        source.data@[p4 + 2]
    } else if l == ao && depth != 24 {
        source.data@[p4 + 3]
    } else {
        0
    }
}

/// Byte `i` of the whole encoded buffer: rows of `bpl` bytes, each holding
/// `width` pixels of `stride` bytes followed by zero padding.
spec fn encoded_byte(
    source: Image,
    depth: i32,
    stride: int,
    bpl: int,
    ro: int,
    go: int,
    bo: int,
    ao: int,
    i: int,
) -> u8 {
    let y = i / bpl;
    let k = i % bpl;
    let x = k / stride;
    let l = k % stride;
    if x < source.width {
        encoded_lane(source, depth, ro, go, bo, ao, x, y, l)
    } else {
        0
    }
}

/// Builds a native X buffer that embeds a canonical image's pixels under
/// the given masks, byte order and row stride: the synthetic capture used
/// to state and exercise the decode round trip. Each channel byte is
/// written to the lane its mask selects; unused lanes and row padding are
/// zero.
#[verifier::rlimit(60)]
pub fn encode(
    image: &Image,
    byte_order: i32,
    depth: i32,
    bits_per_pixel: i32,
    bytes_per_line: i32,
    red_mask: u64,
    green_mask: u64,
    blue_mask: u64,
) -> (r: XImageData)
    requires
        image.wf(),
        image.width <= 0x7FFF_FFFF,
        image.height <= 0x7FFF_FFFF,
        0 <= bytes_per_line,
        pixel_stride_spec(depth, bits_per_pixel) is Some,
        channel_offset_spec(byte_order, red_mask) is Some,
        channel_offset_spec(byte_order, green_mask) is Some,
        channel_offset_spec(byte_order, blue_mask) is Some,
        channel_offset_spec(byte_order, !(red_mask | green_mask | blue_mask)) is Some,
        ({
            let stride = pixel_stride_spec(depth, bits_per_pixel).unwrap() as int;
            let ro = channel_offset_spec(byte_order, red_mask).unwrap() as int;
            let go = channel_offset_spec(byte_order, green_mask).unwrap() as int;
            let bo = channel_offset_spec(byte_order, blue_mask).unwrap() as int;
            let ao = channel_offset_spec(
                byte_order,
                !(red_mask | green_mask | blue_mask),
            ).unwrap() as int;
            &&& ro < stride
            &&& go < stride
            &&& bo < stride
            &&& ro != go
            &&& ro != bo
            &&& go != bo
            &&& depth != 24 ==> ao < stride && ao != ro && ao != go && ao != bo
            &&& image.width * stride <= bytes_per_line
        }),
        image.height * bytes_per_line <= usize::MAX,
    ensures
        r.width == image.width as i32,
        r.height == image.height as i32,
        r.byte_order == byte_order,
        r.depth == depth,
        r.bits_per_pixel == bits_per_pixel,
        r.bytes_per_line == bytes_per_line,
        r.red_mask == red_mask,
        r.green_mask == green_mask,
        r.blue_mask == blue_mask,
        r.data@.len() == image.height * bytes_per_line,
        decodable(r),
        forall|x: int, y: int, c: int|
            0 <= x < image.width && 0 <= y < image.height && 0 <= c < 4 && (c != 3 || depth != 24)
                ==> #[trigger] native_pixel_byte(r, x, y, c) == image.data@[(y * image.width + x)
                * 4 + c],
{
    let stride: u32 = match pixel_stride(depth, bits_per_pixel) {
        Ok(s) => s,
        Err(_) => 0,  // dead arm: the contract admits only decodable layouts
    };
    let ro: u32 = match channel_offset(byte_order, red_mask) {
        Ok(o) => o,
        Err(_) => 0,  // dead arm: the contract admits only decodable layouts
    };
    let go: u32 = match channel_offset(byte_order, green_mask) {
        Ok(o) => o,
        Err(_) => 0,  // dead arm: the contract admits only decodable layouts
    };
    let bo: u32 = match channel_offset(byte_order, blue_mask) {
        Ok(o) => o,
        Err(_) => 0,  // dead arm: the contract admits only decodable layouts
    };
    let amask: u64 = !(red_mask | green_mask | blue_mask);
    let ao: u32 = match channel_offset(byte_order, amask) {
        Ok(o) => o,
        Err(_) => 0,  // dead arm: the contract admits only decodable layouts
    };
    let w: usize = image.width as usize;
    let h: usize = image.height as usize;
    let bpl: usize = bytes_per_line as usize;
    let stride_us: usize = stride as usize;
    let total: usize = image.data.len();
    proof {
        assert(h * bpl <= usize::MAX);
        assert(total == w * h * 4);
    }
    let mut buf: Vec<u8> = Vec::new();
    let mut y: usize = 0;
    #[verifier::loop_isolation(false)]
    while y < h
        invariant
            y <= h,
            buf@.len() == y * bpl,
            forall|i: int|
                0 <= i < buf@.len() ==> buf@[i] == encoded_byte(
                    *image,
                    depth,
                    stride as int,
                    bpl as int,
                    ro as int,
                    go as int,
                    bo as int,
                    ao as int,
                    i,
                ),
        decreases h - y,
    {
        proof {
            lemma_mul_inequality(y as int + 1, h as int, bpl as int);
            assert((y + 1) * bpl == y * bpl + bpl) by (nonlinear_arith);
        }
        let row: usize = y * bpl;
        let mut x: usize = 0;
        #[verifier::loop_isolation(false)]
        while x < w
            invariant
                x <= w,
                y < h,
                row == y * bpl,
                buf@.len() == y * bpl + x * stride,
                forall|i: int|
                    0 <= i < buf@.len() ==> buf@[i] == encoded_byte(
                        *image,
                        depth,
                        stride as int,
                        bpl as int,
                        ro as int,
                        go as int,
                        bo as int,
                        ao as int,
                        i,
                    ),
            decreases w - x,
        {
            proof {
                lemma_mul_inequality(x as int + 1, w as int, stride as int);
                assert((x + 1) * stride == x * stride + stride) by (nonlinear_arith);
            }
            let ghost p: int = y * w + x;
            proof {
                assert(p * 4 + 4 <= w * h * 4) by (nonlinear_arith)
                    requires
                        p == y * w + x,
                        0 <= x < w,
                        0 <= y < h,
                ;
            }
            let p4: usize = (y * w + x) * 4;
            let mut l: usize = 0;
            #[verifier::loop_isolation(false)]
            while l < stride_us
                invariant
                    l <= stride_us,
                    x < w,
                    y < h,
                    row == y * bpl,
                    p4 == p * 4,
                    buf@.len() == y * bpl + x * stride + l,
                    forall|i: int|
                        0 <= i < buf@.len() ==> buf@[i] == encoded_byte(
                            *image,
                            depth,
                            stride as int,
                            bpl as int,
                            ro as int,
                            go as int,
                            bo as int,
                            ao as int,
                            i,
                        ),
                decreases stride_us - l,
            {
                let b: u8 = if l == ro as usize {
                    image.data[p4]
                } else if l == go as usize {
                    image.data[p4 + 1]
                } else if l == bo as usize {
                    image.data[p4 + 2]
                } else if l == ao as usize && depth != 24 {
                    image.data[p4 + 3]
                } else {
                    0
                };
                buf.push(b);
                proof {
                    let i: int = y * bpl + x * stride + l;
                    let k: int = x * stride + l;
                    assert(k + 1 <= w * stride) by (nonlinear_arith)
                        requires
                            k == x * stride + l,
                            (x + 1) * stride == x * stride + stride,
                            0 <= x < w,
                            0 <= l < stride,
                            (x + 1) * stride <= w * stride,
                    ;
                    lemma_fundamental_div_mod_converse_div(i, bpl as int, y as int, k);
                    lemma_fundamental_div_mod_converse_mod(i, bpl as int, y as int, k);
                    lemma_fundamental_div_mod_converse_div(k, stride as int, x as int, l as int);
                    lemma_fundamental_div_mod_converse_mod(k, stride as int, x as int, l as int);
                }
                l = l + 1;
            }
        x = x + 1;
        }
        // zero padding after the last pixel of the row
        let mut k: usize = w * stride_us;
        #[verifier::loop_isolation(false)]
        while k < bpl
            invariant
                w * stride <= k <= bpl,
                y < h,
                row == y * bpl,
                buf@.len() == y * bpl + k,
                forall|i: int|
                    0 <= i < buf@.len() ==> buf@[i] == encoded_byte(
                        *image,
                        depth,
                        stride as int,
                        bpl as int,
                        ro as int,
                        go as int,
                        bo as int,
                        ao as int,
                        i,
                    ),
            decreases bpl - k,
        {
            buf.push(0);
            proof {
                let i: int = y * bpl + k;
                lemma_fundamental_div_mod_converse_div(i, bpl as int, y as int, k as int);
                lemma_fundamental_div_mod_converse_mod(i, bpl as int, y as int, k as int);
                assert(k as int / (stride as int) >= w) by {
                    lemma_div_is_ordered((w * stride) as int, k as int, stride as int);
                    assert(w * stride == (stride as int) * (w as int)) by (nonlinear_arith);
                    lemma_div_multiples_vanish(w as int, stride as int);
                }
            }
            k = k + 1;
        }
        y = y + 1;
        proof {
            assert(y * bpl == (y - 1) * bpl + bpl) by (nonlinear_arith);
        }
    }
    let r = XImageData {
        width: image.width as i32,
        height: image.height as i32,
        byte_order,
        depth,
        bytes_per_line,
        bits_per_pixel,
        red_mask,
        green_mask,
        blue_mask,
        data: buf,
    };
    proof {
        assert(image.width * image.height * 4 <= usize::MAX);
        lemma_encode_result(r, *image);
    }
    r
}

/// From the pointwise construction of an encoded buffer, derives the
/// geometry facts and the per-channel embedding that `encode` promises.
proof fn lemma_encode_result(r: XImageData, source: Image)
    requires
        source.wf(),
        source.width <= 0x7FFF_FFFF,
        source.height <= 0x7FFF_FFFF,
        source.width * source.height * 4 <= usize::MAX,
        masks_decodable(r),
        r.width == source.width as i32,
        r.height == source.height as i32,
        0 <= r.bytes_per_line,
        ({
            let stride = pixel_stride_spec(r.depth, r.bits_per_pixel).unwrap() as int;
            &&& offset_at(r, 0) < stride
            &&& offset_at(r, 1) < stride
            &&& offset_at(r, 2) < stride
            &&& offset_at(r, 0) != offset_at(r, 1)
            &&& offset_at(r, 0) != offset_at(r, 2)
            &&& offset_at(r, 1) != offset_at(r, 2)
            &&& r.depth != 24 ==> offset_at(r, 3) < stride && offset_at(r, 3) != offset_at(r, 0)
                && offset_at(r, 3) != offset_at(r, 1) && offset_at(r, 3) != offset_at(r, 2)
            &&& source.width * stride <= r.bytes_per_line
        }),
        r.data@.len() == source.height * r.bytes_per_line,
        forall|i: int|
            0 <= i < r.data@.len() ==> r.data@[i] == encoded_byte(
                source,
                r.depth,
                pixel_stride_spec(r.depth, r.bits_per_pixel).unwrap() as int,
                r.bytes_per_line as int,
                offset_at(r, 0),
                offset_at(r, 1),
                offset_at(r, 2),
                offset_at(r, 3),
                i,
            ),
    ensures
        decodable(r),
        forall|x: int, y: int, c: int|
            0 <= x < source.width && 0 <= y < source.height && 0 <= c < 4 && (c != 3 || r.depth
                != 24) ==> #[trigger] native_pixel_byte(r, x, y, c) == source.data@[(y
                * source.width + x) * 4 + c],
{
    let stride = pixel_stride_spec(r.depth, r.bits_per_pixel).unwrap() as int;
    let bpl = r.bytes_per_line as int;
    let w = source.width as int;
    let h = source.height as int;
    assert(geometry_ok(r)) by {
        assert(r.width as int == w);
        assert(r.height as int == h);
        let mro = max_read_offset(r);
        assert(mro < stride);
        if w > 0 {
            assert((w - 1) * stride + stride == w * stride) by (nonlinear_arith);
            assert((w - 1) * stride + mro + 1 <= w * stride);
        }
    }
    assert forall|x: int, y: int, c: int|
        0 <= x < w && 0 <= y < h && 0 <= c < 4 && (c != 3 || r.depth != 24) implies #[trigger] native_pixel_byte(
        r,
        x,
        y,
        c,
    ) == source.data@[(y * w + x) * 4 + c] by {
        let off = offset_at(r, c);
        let k = x * stride + off;
        let i = y * bpl + k;
        assert(0 <= off < stride);
        assert(k + 1 <= w * stride) by (nonlinear_arith)
            requires
                k == x * stride + off,
                0 <= x < w,
                0 <= off < stride,
        ;
        assert(w * stride <= bpl);
        assert(0 <= i < h * bpl) by (nonlinear_arith)
            requires
                i == y * bpl + k,
                0 <= k < bpl,
                0 <= y < h,
        ;
        lemma_fundamental_div_mod_converse_div(i, bpl, y, k);
        lemma_fundamental_div_mod_converse_mod(i, bpl, y, k);
        lemma_fundamental_div_mod_converse_div(k, stride, x, off);
        lemma_fundamental_div_mod_converse_mod(k, stride, x, off);
        assert(r.data@[i] == encoded_lane(
            source,
            r.depth,
            offset_at(r, 0),
            offset_at(r, 1),
            offset_at(r, 2),
            offset_at(r, 3),
            x,
            y,
            off,
        ));
    }
}

/// Decoding an encoded buffer reproduces the source image: every color
/// byte round-trips exactly, and the alpha byte does too unless the buffer
/// was encoded at depth 24, where decoding makes it fully opaque.
pub proof fn lemma_round_trip(img: XImageData, source: Image)
    requires
        decodable(img),
        source.wf(),
        source.width <= 0x7FFF_FFFF,
        source.height <= 0x7FFF_FFFF,
        img.width == source.width as i32,
        img.height == source.height as i32,
        forall|x: int, y: int, c: int|
            0 <= x < source.width && 0 <= y < source.height && 0 <= c < 4 && (c != 3 || img.depth
                != 24) ==> #[trigger] native_pixel_byte(img, x, y, c) == source.data@[(y
                * source.width + x) * 4 + c],
    ensures
        decoded_rgba(img).len() == source.data@.len(),
        forall|i: int|
            0 <= i < source.data@.len() ==> #[trigger] decoded_rgba(img)[i] == if i % 4 == 3
                && img.depth == 24 {
                0xFF
            } else {
                source.data@[i]
            },
{
    let w = source.width as int;
    let h = source.height as int;
    assert(img.width as int == w);
    assert(img.height as int == h);
    assert(decoded_rgba(img).len() == source.data@.len());
    assert forall|i: int| 0 <= i < source.data@.len() implies #[trigger] decoded_rgba(img)[i] == (
    if i % 4 == 3 && img.depth == 24 {
        0xFF
    } else {
        source.data@[i]
    }) by {
        let p = i / 4;
        let c = i % 4;
        assert(w > 0 && h > 0) by (nonlinear_arith)
            requires
                0 <= w,
                0 <= h,
                0 < w * h * 4,
        ;
        lemma_fundamental_div_mod(i, 4);
        lemma_mod_bound(i, 4);
        assert(p < w * h) by (nonlinear_arith)
            requires
                i == 4 * p + c,
                0 <= c < 4,
                i < w * h * 4,
        ;
        let x = p % w;
        let y = p / w;
        lemma_fundamental_div_mod(p, w);
        lemma_mod_bound(p, w);
        assert(y < h) by (nonlinear_arith)
            requires
                p == w * y + x,
                0 <= x < w,
                0 <= p < w * h,
                w > 0,
        ;
        assert(0 <= y) by (nonlinear_arith)
            requires
                p == w * y + x,
                0 <= x < w,
                0 <= p,
                w > 0,
        ;
        if !(c == 3 && img.depth == 24) {
            assert(native_pixel_byte(img, x, y, c) == source.data@[(y * w + x) * 4 + c]);
            assert((y * w + x) * 4 + c == i) by (nonlinear_arith)
                requires
                    p == w * y + x,
                    i == 4 * p + c,
            ;
        }
    }
}

/// The Linux backend: captures a window's client area through the X
/// protocol and decodes the server's native encoding into RGBA.
#[derive(Clone, Copy, Debug, PartialEq, Eq, Structural)]
pub struct X11Provider;

impl Provider for X11Provider {
    fn new() -> (p: X11Provider) {
        X11Provider
    }
}

/// Resolves a window's client rectangle in root coordinates. The window's
/// own attributes give its size and its position relative to its parent;
/// when the window has a parent (a reparenting window manager wraps client
/// windows in a decoration frame), the position is the parent-relative
/// origin translated into root coordinates, one level up.
pub fn resolve_window_rect(
    attr_x: i32,
    attr_y: i32,
    attr_w: u32,
    attr_h: u32,
    parent: u64,
    translated_x: i32,
    translated_y: i32,
) -> (r: Rect)
    ensures
        r.w == attr_w,
        r.h == attr_h,
        parent != 0 ==> r.x == translated_x && r.y == translated_y,
        parent == 0 ==> r.x == attr_x && r.y == attr_y,
{
    if parent != 0 {
        Rect { x: translated_x, y: translated_y, w: attr_w, h: attr_h }
    } else {
        Rect { x: attr_x, y: attr_y, w: attr_w, h: attr_h }
    }
}

} // verus!
