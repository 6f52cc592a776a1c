//! Pixel formats and colour conversion: images as validated plane data, and
//! exact conversions between sensor-native encodings and BGR, the canonical
//! display target.
//!
//! Every constructor checks the plane-size invariant of its format and fails
//! rather than build a malformed image. The YUV-to-RGB conversion follows the
//! BT.601-style model `R = clamp(Y + 1.370705 (V-128))`,
//! `G = clamp(Y - 0.337633 (U-128) - 0.698001 (V-128))`,
//! `B = clamp(Y + 1.732446 (U-128))`, carried out in exact fixed-point
//! arithmetic with the coefficients scaled by 10^6. Chroma for 4:2:0 sources
//! is upsampled nearest-neighbour: each 2x2 luma block shares one (U,V).

use vstd::arithmetic::div_mod::{lemma_fundamental_div_mod, lemma_fundamental_div_mod_converse};
use vstd::prelude::*;
use vstd::slice::slice_to_vec;

verus! {

/// Clamps a channel numerator (scaled by 10^6) into a byte: negative values
/// saturate to 0, values above 255 to 255, everything else keeps its integer
/// part.
pub open spec fn spec_clamp_channel(num: int) -> u8 {
    if num < 0 {
        0
    } else if num / 1000000 > 255 {
        255
    } else {
        (num / 1000000) as u8
    }
}

/// The red channel of a YUV sample: `clamp(Y + 1.370705 (V - 128))`.
pub open spec fn spec_yuv_r(y: u8, v: u8) -> u8 {
    spec_clamp_channel(y * 1000000 + 1370705 * (v - 128))
}

/// The green channel of a YUV sample:
/// `clamp(Y - 0.698001 (V - 128) - 0.337633 (U - 128))`.
pub open spec fn spec_yuv_g(y: u8, u: u8, v: u8) -> u8 {
    spec_clamp_channel(y * 1000000 - 698001 * (v - 128) - 337633 * (u - 128))
}

/// The blue channel of a YUV sample: `clamp(Y + 1.732446 (U - 128))`.
pub open spec fn spec_yuv_b(y: u8, u: u8) -> u8 {
    spec_clamp_channel(y * 1000000 + 1732446 * (u - 128))
}

/// Clamps a scaled channel numerator into a byte.
fn clamp_channel(num: i64) -> (r: u8)
    requires
        -1000000000000 <= num <= 1000000000000,
    ensures
        r == spec_clamp_channel(num as int),
{
    if num < 0 {
        0
    } else {
        let q = (num as u64) / 1000000;
        if q > 255 {
            255
        } else {
            q as u8
        }
    }
}

/// Converts one (Y, U, V) sample to (R, G, B), in exact fixed-point
/// arithmetic.
pub fn yuv2rgb(y: u8, u: u8, v: u8) -> (r: (u8, u8, u8))
    ensures
        r.0 == spec_yuv_r(y, v),
        r.1 == spec_yuv_g(y, u, v),
        r.2 == spec_yuv_b(y, u),
{
    let yn: i64 = (y as i64) * 1000000;
    let un: i64 = (u as i64) - 128;
    let vn: i64 = (v as i64) - 128;
    let rn: i64 = yn + 1370705 * vn;
    let gn: i64 = yn - 698001 * vn - 337633 * un;
    let bn: i64 = yn + 1732446 * un;
    (clamp_channel(rn), clamp_channel(gn), clamp_channel(bn))
}

/// Byte `j` of a 3-byte-per-pixel sequence with the first and third channel
/// of every pixel exchanged: the RGB/BGR swap.
pub open spec fn spec_swap_rb(data: Seq<u8>, j: int) -> u8 {
    let p = j / 3;
    let c = j % 3;
    data[3 * p + (2 - c)]
}

/// A 3-byte-per-pixel sequence with the first and third channel of every
/// pixel exchanged.
pub open spec fn spec_swapped(data: Seq<u8>) -> Seq<u8> {
    Seq::new(data.len(), |j: int| spec_swap_rb(data, j))
}

/// Division facts for pixel offsets: byte `3p + c` of a 3-byte-per-pixel
/// sequence belongs to pixel `p`, channel `c`.
proof fn lemma_pixel_offset(p: int, c: int)
    requires
        0 <= p,
        0 <= c < 3,
    ensures
        (3 * p + c) / 3 == p,
        (3 * p + c) % 3 == c,
{
    lemma_fundamental_div_mod_converse(3 * p + c, 3, p, c);
}

/// Exchanging the first and third channel of every pixel twice gives the
/// original bytes back: the RGB/BGR round trip is exact.
pub proof fn lemma_swap_round_trip(data: Seq<u8>)
    requires
        data.len() % 3 == 0,
    ensures
        spec_swapped(spec_swapped(data)) == data,
{
    let sw = spec_swapped(data);
    assert forall|j: int| 0 <= j < data.len() implies spec_swapped(sw)[j] == data[j] by {
        let p = j / 3;
        let c = j % 3;
        lemma_fundamental_div_mod(j, 3);
        assert(3 * p + c == j);
        lemma_pixel_offset(p, 2 - c);
        assert(3 * (data.len() / 3) == data.len()) by {
            lemma_fundamental_div_mod(data.len() as int, 3);
        }
        assert(p < data.len() / 3);
        assert(3 * p + (2 - c) < data.len());
        assert(sw[j] == data[3 * p + (2 - c)]);
        assert(spec_swapped(sw)[j] == sw[3 * p + (2 - c)]);
        assert(sw[3 * p + (2 - c)] == data[3 * p + (2 - (2 - c))]);
    }
    assert(spec_swapped(sw) =~= data);
}

/// An image made of validated pixel planes.
///
/// `planes_ok` is the format's plane-size table; `from_planes` accepts
/// exactly the plane vectors it allows and never builds a malformed image.
/// `spec_bgr` gives the bytes of the image's BGR rendering, `None` when the
/// image cannot be converted.
pub trait CameraImage: Sized {
    /// The image's planes satisfy its format's size invariant.
    spec fn wf(&self) -> bool;

    /// The image size `(width, height)` in pixels.
    spec fn spec_size(&self) -> (usize, usize);

    /// The raw pixel planes.
    spec fn spec_planes(&self) -> Seq<Seq<u8>>;

    /// Which plane vectors this format accepts for a given size.
    spec fn planes_ok(width: int, height: int, planes: Seq<Seq<u8>>) -> bool;

    /// The bytes of this image rendered as BGR, `None` when the image cannot
    /// be converted.
    spec fn spec_bgr(&self) -> Option<Seq<u8>>;

    /// Creates an image out of a size and the image data planes; fails, and
    /// builds nothing, when the planes do not fit the format's size
    /// invariant.
    fn from_planes(width: usize, height: usize, planes: Vec<Vec<u8>>) -> (r: Option<Self>)
        ensures
            (r is Some) == Self::planes_ok(width as int, height as int, planes.deep_view()),
            r matches Some(img) ==> img.wf() && img.spec_size() == (width, height)
                && img.spec_planes() == planes.deep_view(),
    ;

    /// Converts this image to BGR; `None` when this image cannot be
    /// converted.
    fn as_bgr(&self) -> (r: Option<BgrImage>)
        requires
            self.wf(),
        ensures
            (r is Some) == (self.spec_bgr() is Some),
            r matches Some(img) ==> {
                &&& img.spec_width() * img.spec_height() * 3 == img.spec_data().len()
                &&& (img.spec_width(), img.spec_height()) == self.spec_size()
                &&& img.spec_data() == self.spec_bgr()->Some_0
            },
    ;

    /// The size of this image.
    fn get_size(&self) -> (r: (usize, usize))
        ensures
            r == self.spec_size(),
    ;

    /// The raw pixel planes of this image.
    fn get_planes(&self) -> (r: Vec<&[u8]>)
        ensures
            r.deep_view() == self.spec_planes(),
    ;
}

/// An image in BGR format: one plane of `width * height` blue, green, red
/// triplets.
pub struct BgrImage {
    width: usize,
    height: usize,
    data: Vec<u8>,
}

impl BgrImage {
    /// The image width in pixels.
    pub closed spec fn spec_width(&self) -> usize {
        self.width
    }

    /// The image height in pixels.
    pub closed spec fn spec_height(&self) -> usize {
        self.height
    }

    /// The pixel bytes, in B, G, R order per pixel.
    pub closed spec fn spec_data(&self) -> Seq<u8> {
        self.data@
    }

    /// Convert this image into an RGB image: an exact byte-triplet swap.
    pub fn as_rgb(&self) -> (r: RgbImage)
        requires
            self.wf(),
        ensures
            r.wf(),
            r.spec_size() == self.spec_size(),
            r.spec_data() == spec_swapped(self.spec_data()),
    {
        let data = swap_channels(&self.data);
        RgbImage { width: self.width, height: self.height, data }
    }
}

/// An image in RGB format: one plane of `width * height` red, green, blue
/// triplets.
pub struct RgbImage {
    width: usize,
    height: usize,
    data: Vec<u8>,
}

impl RgbImage {
    /// The image width in pixels.
    pub closed spec fn spec_width(&self) -> usize {
        self.width
    }

    /// The image height in pixels.
    pub closed spec fn spec_height(&self) -> usize {
        self.height
    }

    /// The pixel bytes, in R, G, B order per pixel.
    pub closed spec fn spec_data(&self) -> Seq<u8> {
        self.data@
    }
}

/// Swaps the first and third byte of every 3-byte pixel.
fn swap_channels(data: &Vec<u8>) -> (r: Vec<u8>)
    requires
        data@.len() % 3 == 0,
    ensures
        r@ == spec_swapped(data@),
{
    let pixels = data.len() / 3;
    proof {
        lemma_fundamental_div_mod(data@.len() as int, 3);
    }
    let mut out: Vec<u8> = Vec::new();
    let mut p: usize = 0;
    while p < pixels
        invariant
            0 <= p <= pixels,
            pixels == data@.len() / 3,
            3 * pixels == data@.len(),
            data@.len() <= usize::MAX,
            out@.len() == 3 * p,
            forall|j: int| 0 <= j < 3 * p ==> out@[j] == spec_swap_rb(data@, j),
        decreases pixels - p,
    {
        let base = 3 * p;
        out.push(data[base + 2]);
        out.push(data[base + 1]);
        out.push(data[base]);
        proof {
            lemma_pixel_offset(p as int, 0);
            lemma_pixel_offset(p as int, 1);
            lemma_pixel_offset(p as int, 2);
            assert forall|j: int| 0 <= j < 3 * (p + 1) implies out@[j] == spec_swap_rb(data@, j) by {
                if j == 3 * p {
                    assert(spec_swap_rb(data@, j) == data@[3 * (p as int) + 2]);
                } else if j == 3 * p + 1 {
                    assert(spec_swap_rb(data@, j) == data@[3 * (p as int) + 1]);
                } else if j == 3 * p + 2 {
                    assert(spec_swap_rb(data@, j) == data@[3 * (p as int)]);
                }
            }
        }
        p = p + 1;
    }
    assert(out@ =~= spec_swapped(data@));
    out
}

impl CameraImage for BgrImage {
    open spec fn wf(&self) -> bool {
        self.spec_width() * self.spec_height() * 3 == self.spec_data().len()
    }

    open spec fn spec_size(&self) -> (usize, usize) {
        (self.spec_width(), self.spec_height())
    }

    open spec fn spec_planes(&self) -> Seq<Seq<u8>> {
        seq![self.spec_data()]
    }

    open spec fn planes_ok(width: int, height: int, planes: Seq<Seq<u8>>) -> bool {
        planes.len() == 1 && width * height * 3 == planes[0].len()
    }

    open spec fn spec_bgr(&self) -> Option<Seq<u8>> {
        Some(self.spec_data())
    }

    fn from_planes(width: usize, height: usize, planes: Vec<Vec<u8>>) -> (r: Option<BgrImage>) {
        let ghost gplanes = planes.deep_view();
        if planes.len() != 1 {
            return None;
        }
        let mut planes = planes;
        let data = match planes.pop() {
            Some(d) => d,
            None => {
                return None;
            },
        };
        proof {
            assert(gplanes[0] == data@);
        }
        let dlen = data.len();
        let wh = match width.checked_mul(height) {
            Some(x) => x,
            None => {
                proof {
                    assert(width * height * 3 >= width * height > dlen);
                }
                return None;
            },
        };
        let total = match wh.checked_mul(3) {
            Some(x) => x,
            None => {
                proof {
                    assert(width * height * 3 > dlen);
                }
                return None;
            },
        };
        if total == dlen {
            Some(BgrImage { width, height, data })
        } else {
            None
        }
    }

    fn as_bgr(&self) -> (r: Option<BgrImage>) {
        Some(
            BgrImage {
                width: self.width,
                height: self.height,
                data: slice_to_vec(self.data.as_slice()),
            },
        )
    }

    fn get_size(&self) -> (r: (usize, usize)) {
        (self.width, self.height)
    }

    fn get_planes(&self) -> (r: Vec<&[u8]>) {
        let mut v: Vec<&[u8]> = Vec::new();
        v.push(self.data.as_slice());
        proof {
            assert(v.deep_view() =~~= self.spec_planes());
        }
        v
    }
}

impl CameraImage for RgbImage {
    open spec fn wf(&self) -> bool {
        self.spec_width() * self.spec_height() * 3 == self.spec_data().len()
    }

    open spec fn spec_size(&self) -> (usize, usize) {
        (self.spec_width(), self.spec_height())
    }

    open spec fn spec_planes(&self) -> Seq<Seq<u8>> {
        seq![self.spec_data()]
    }

    open spec fn planes_ok(width: int, height: int, planes: Seq<Seq<u8>>) -> bool {
        planes.len() == 1 && width * height * 3 == planes[0].len()
    }

    open spec fn spec_bgr(&self) -> Option<Seq<u8>> {
        Some(spec_swapped(self.spec_data()))
    }

    fn from_planes(width: usize, height: usize, planes: Vec<Vec<u8>>) -> (r: Option<RgbImage>) {
        let ghost gplanes = planes.deep_view();
        if planes.len() != 1 {
            return None;
        }
        let mut planes = planes;
        let data = match planes.pop() {
            Some(d) => d,
            None => {
                return None;
            },
        };
        proof {
            assert(gplanes[0] == data@);
        }
        let dlen = data.len();
        let wh = match width.checked_mul(height) {
            Some(x) => x,
            None => {
                proof {
                    assert(width * height * 3 >= width * height > dlen);
                }
                return None;
            },
        };
        let total = match wh.checked_mul(3) {
            Some(x) => x,
            None => {
                proof {
                    assert(width * height * 3 > dlen);
                }
                return None;
            },
        };
        if total == dlen {
            Some(RgbImage { width, height, data })
        } else {
            None
        }
    }

    /// Converts to BGR by swapping byte triplets; never fails.
    fn as_bgr(&self) -> (r: Option<BgrImage>) {
        proof {
            assert(self.spec_data().len() % 3 == 0) by {
                lemma_fundamental_div_mod_converse(
                    self.spec_data().len() as int,
                    3,
                    self.spec_width() * self.spec_height(),
                    0,
                );
            }
        }
        let data = swap_channels(&self.data);
        Some(BgrImage { width: self.width, height: self.height, data })
    }

    fn get_size(&self) -> (r: (usize, usize)) {
        (self.width, self.height)
    }

    fn get_planes(&self) -> (r: Vec<&[u8]>) {
        let mut v: Vec<&[u8]> = Vec::new();
        v.push(self.data.as_slice());
        proof {
            assert(v.deep_view() =~~= self.spec_planes());
        }
        v
    }
}

/// Byte `j` of the BGR rendering of a YUYV 4:2:2 image: pixel `j / 3`,
/// channel `j % 3` (B, G, R). Pixel `p` takes its luma from byte `2p` and
/// shares the chroma bytes of its 2-pixel group `p / 2`.
pub open spec fn spec_yuyv_bgr_byte(data: Seq<u8>, j: int) -> u8 {
    let p = j / 3;
    let c = j % 3;
    let y = data[2 * p];
    let u = data[4 * (p / 2) + 1];
    let v = data[4 * (p / 2) + 3];
    if c == 0 {
        spec_yuv_b(y, u)
    } else if c == 1 {
        spec_yuv_g(y, u, v)
    } else {
        spec_yuv_r(y, v)
    }
}

/// An image in YUYV 4:2:2 format: one interleaved plane of Y' U Y' V byte
/// groups, two bytes per pixel.
pub struct YuyvImage {
    width: usize,
    height: usize,
    data: Vec<u8>,
}

impl YuyvImage {
    /// The image width in pixels.
    pub closed spec fn spec_width(&self) -> usize {
        self.width
    }

    /// The image height in pixels.
    pub closed spec fn spec_height(&self) -> usize {
        self.height
    }

    /// The interleaved Y' U Y' V bytes.
    pub closed spec fn spec_data(&self) -> Seq<u8> {
        self.data@
    }
}

impl CameraImage for YuyvImage {
    open spec fn wf(&self) -> bool {
        self.spec_width() * self.spec_height() * 2 == self.spec_data().len()
    }

    open spec fn spec_size(&self) -> (usize, usize) {
        (self.spec_width(), self.spec_height())
    }

    open spec fn spec_planes(&self) -> Seq<Seq<u8>> {
        seq![self.spec_data()]
    }

    open spec fn planes_ok(width: int, height: int, planes: Seq<Seq<u8>>) -> bool {
        planes.len() == 1 && width * height * 2 == planes[0].len()
    }

    /// Convertible only when the pixel count is even: the trailing 4-byte
    /// group of an odd-pixel image is incomplete.
    open spec fn spec_bgr(&self) -> Option<Seq<u8>> {
        if (self.spec_width() * self.spec_height()) % 2 == 0 {
            Some(
                Seq::new(
                    (self.spec_width() * self.spec_height() * 3) as nat,
                    |j: int| spec_yuyv_bgr_byte(self.spec_data(), j),
                ),
            )
        } else {
            None
        }
    }

    fn from_planes(width: usize, height: usize, planes: Vec<Vec<u8>>) -> (r: Option<YuyvImage>) {
        let ghost gplanes = planes.deep_view();
        if planes.len() != 1 {
            return None;
        }
        let mut planes = planes;
        let data = match planes.pop() {
            Some(d) => d,
            None => {
                return None;
            },
        };
        proof {
            assert(gplanes[0] == data@);
        }
        let dlen = data.len();
        let wh = match width.checked_mul(height) {
            Some(x) => x,
            None => {
                proof {
                    assert(width * height * 2 >= width * height > dlen);
                }
                return None;
            },
        };
        let total = match wh.checked_mul(2) {
            Some(x) => x,
            None => {
                proof {
                    assert(width * height * 2 > dlen);
                }
                return None;
            },
        };
        if total == dlen {
            Some(YuyvImage { width, height, data })
        } else {
            None
        }
    }

    /// Converts each Y' U Y' V group to two BGR pixels sharing one (U, V)
    /// sample.
    fn as_bgr(&self) -> (r: Option<BgrImage>) {
        let ghost w = self.spec_width() as int;
        let ghost h = self.spec_height() as int;
        let dlen = self.data.len();
        let wh = dlen / 2;
        proof {
            lemma_fundamental_div_mod_converse(dlen as int, 2, w * h, 0);
            assert(wh == w * h);
        }
        if wh % 2 != 0 {
            return None;
        }
        let pairs = dlen / 4;
        proof {
            lemma_fundamental_div_mod(w * h, 2);
            assert(2 * (w * h) == 4 * ((w * h) / 2) + 2 * ((w * h) % 2));
            lemma_fundamental_div_mod_converse(dlen as int, 4, (w * h) / 2, 0);
            assert(pairs == (w * h) / 2);
            assert(4 * pairs == dlen);
        }
        let mut out: Vec<u8> = Vec::new();
        let mut q: usize = 0;
        while q < pairs
            invariant
                0 <= q <= pairs,
                dlen == self.spec_data().len(),
                dlen <= usize::MAX,
                4 * pairs == dlen,
                out@.len() == 6 * q,
                forall|j: int|
                    0 <= j < 6 * q ==> out@[j] == spec_yuyv_bgr_byte(self.spec_data(), j),
            decreases pairs - q,
        {
            let base = 4 * q;
            let y1 = self.data[base];
            let u = self.data[base + 1];
            let y2 = self.data[base + 2];
            let v = self.data[base + 3];
            let (r1, g1, b1) = yuv2rgb(y1, u, v);
            let (r2, g2, b2) = yuv2rgb(y2, u, v);
            out.push(b1);
            out.push(g1);
            out.push(r1);
            out.push(b2);
            out.push(g2);
            out.push(r2);
            proof {
                let data = self.spec_data();
                let p1 = 2 * (q as int);
                let p2 = 2 * (q as int) + 1;
                lemma_fundamental_div_mod_converse(p1, 2, q as int, 0);
                lemma_fundamental_div_mod_converse(p2, 2, q as int, 1);
                assert(p1 / 2 == q as int && p2 / 2 == q as int);
                lemma_pixel_offset(p1, 0);
                lemma_pixel_offset(p1, 1);
                lemma_pixel_offset(p1, 2);
                lemma_pixel_offset(p2, 0);
                lemma_pixel_offset(p2, 1);
                lemma_pixel_offset(p2, 2);
                assert forall|j: int| 0 <= j < 6 * (q + 1) implies out@[j] == spec_yuyv_bgr_byte(
                    data,
                    j,
                ) by {
                    if j >= 6 * q {
                        if j == 3 * p1 {
                            assert(spec_yuyv_bgr_byte(data, j) == spec_yuv_b(
                                data[2 * p1],
                                data[4 * (p1 / 2) + 1],
                            ));
                        } else if j == 3 * p1 + 1 {
                            assert(spec_yuyv_bgr_byte(data, j) == spec_yuv_g(
                                data[2 * p1],
                                data[4 * (p1 / 2) + 1],
                                data[4 * (p1 / 2) + 3],
                            ));
                        } else if j == 3 * p1 + 2 {
                            assert(spec_yuyv_bgr_byte(data, j) == spec_yuv_r(
                                data[2 * p1],
                                data[4 * (p1 / 2) + 3],
                            ));
                        } else if j == 3 * p2 {
                            assert(spec_yuyv_bgr_byte(data, j) == spec_yuv_b(
                                data[2 * p2],
                                data[4 * (p2 / 2) + 1],
                            ));
                        } else if j == 3 * p2 + 1 {
                            assert(spec_yuyv_bgr_byte(data, j) == spec_yuv_g(
                                data[2 * p2],
                                data[4 * (p2 / 2) + 1],
                                data[4 * (p2 / 2) + 3],
                            ));
                        } else {
                            assert(j == 3 * p2 + 2);
                            assert(spec_yuyv_bgr_byte(data, j) == spec_yuv_r(
                                data[2 * p2],
                                data[4 * (p2 / 2) + 3],
                            ));
                        }
                    }
                }
            }
            q = q + 1;
        }
        proof {
            assert(out@ =~= self.spec_bgr()->Some_0);
            assert((w * h * 3) % 3 == 0) by {
                lemma_fundamental_div_mod_converse(w * h * 3, 3, w * h, 0);
            }
        }
        let out_len = out.len();
        let width = self.width;
        let height = self.height;
        proof {
            assert(out_len == w * h * 3);
        }
        Some(BgrImage { width, height, data: out })
    }

    fn get_size(&self) -> (r: (usize, usize)) {
        (self.width, self.height)
    }

    fn get_planes(&self) -> (r: Vec<&[u8]>) {
        let mut v: Vec<&[u8]> = Vec::new();
        v.push(self.data.as_slice());
        proof {
            assert(v.deep_view() =~~= self.spec_planes());
        }
        v
    }
}

/// Pixel `(x, yy)` of a `w`-wide plane sits at luma index `yy * w + x`, and
/// that index decomposes back into the row and column.
proof fn lemma_luma_index(yy: int, x: int, w: int, h: int)
    requires
        0 <= yy < h,
        0 <= x < w,
    ensures
        0 <= yy * w + x < w * h,
        (yy * w + x) / w == yy,
        (yy * w + x) % w == x,
{
    lemma_fundamental_div_mod_converse(yy * w + x, w, yy, x);
    assert(0 <= yy * w + x < w * h) by (nonlinear_arith)
        requires
            0 <= yy < h,
            0 <= x < w,
    ;
}

/// The shared chroma sample of pixel `(x, yy)` sits inside the
/// half-resolution plane when both dimensions are even.
proof fn lemma_chroma_index(yy: int, x: int, w: int, h: int)
    requires
        0 <= yy < h,
        0 <= x < w,
        w % 2 == 0,
        h % 2 == 0,
    ensures
        0 <= (yy / 2) * (w / 2) + x / 2 < (w / 2) * (h / 2),
{
    let m = h / 2;
    let w2 = w / 2;
    let yy2 = yy / 2;
    let x2 = x / 2;
    lemma_fundamental_div_mod(h, 2);
    lemma_fundamental_div_mod(w, 2);
    lemma_fundamental_div_mod(yy, 2);
    lemma_fundamental_div_mod(x, 2);
    assert(yy2 <= m - 1);
    assert(x2 <= w2 - 1);
    assert(0 <= yy2 * w2 + x2 < w2 * m) by (nonlinear_arith)
        requires
            0 <= yy2 <= m - 1,
            0 <= x2 <= w2 - 1,
            1 <= w2,
    ;
}

/// Byte `j` of the BGR rendering of a planar YUV 4:2:0 image with width
/// `w`: pixel `j / 3`, channel `j % 3` (B, G, R). Each 2x2 luma block
/// shares the chroma sample at `(row / 2) * (w / 2) + column / 2`.
pub open spec fn spec_yuv420_bgr_byte(
    yp: Seq<u8>,
    up: Seq<u8>,
    vp: Seq<u8>,
    w: int,
    j: int,
) -> u8 {
    let p = j / 3;
    let c = j % 3;
    let ci = ((p / w) / 2) * (w / 2) + (p % w) / 2;
    let y = yp[p];
    let u = up[ci];
    let v = vp[ci];
    if c == 0 {
        spec_yuv_b(y, u)
    } else if c == 1 {
        spec_yuv_g(y, u, v)
    } else {
        spec_yuv_r(y, v)
    }
}

/// Byte `j` of the BGR rendering of an NV12 image with width `w`: as YUV
/// 4:2:0, with the chroma plane interleaved U, V.
pub open spec fn spec_nv12_bgr_byte(yp: Seq<u8>, uvp: Seq<u8>, w: int, j: int) -> u8 {
    let p = j / 3;
    let c = j % 3;
    let ci = ((p / w) / 2) * (w / 2) + (p % w) / 2;
    let y = yp[p];
    let u = uvp[2 * ci];
    let v = uvp[2 * ci + 1];
    if c == 0 {
        spec_yuv_b(y, u)
    } else if c == 1 {
        spec_yuv_g(y, u, v)
    } else {
        spec_yuv_r(y, v)
    }
}

/// An image in planar YUV 4:2:0 format: a full-resolution Y plane and
/// half-resolution U and V planes.
pub struct Yuv420Image {
    width: usize,
    height: usize,
    y_plane: Vec<u8>,
    u_plane: Vec<u8>,
    v_plane: Vec<u8>,
}

impl Yuv420Image {
    /// The image width in pixels.
    pub closed spec fn spec_width(&self) -> usize {
        self.width
    }

    /// The image height in pixels.
    pub closed spec fn spec_height(&self) -> usize {
        self.height
    }

    /// The luma plane.
    pub closed spec fn spec_y_plane(&self) -> Seq<u8> {
        self.y_plane@
    }

    /// The U chroma plane.
    pub closed spec fn spec_u_plane(&self) -> Seq<u8> {
        self.u_plane@
    }

    /// The V chroma plane.
    pub closed spec fn spec_v_plane(&self) -> Seq<u8> {
        self.v_plane@
    }
}

impl CameraImage for Yuv420Image {
    open spec fn wf(&self) -> bool {
        &&& self.spec_width() * self.spec_height() == self.spec_y_plane().len()
        &&& (self.spec_width() / 2) * (self.spec_height() / 2) == self.spec_u_plane().len()
        &&& (self.spec_width() / 2) * (self.spec_height() / 2) == self.spec_v_plane().len()
    }

    open spec fn spec_size(&self) -> (usize, usize) {
        (self.spec_width(), self.spec_height())
    }

    open spec fn spec_planes(&self) -> Seq<Seq<u8>> {
        seq![self.spec_y_plane(), self.spec_u_plane(), self.spec_v_plane()]
    }

    open spec fn planes_ok(width: int, height: int, planes: Seq<Seq<u8>>) -> bool {
        &&& planes.len() == 3
        &&& width * height == planes[0].len()
        &&& (width / 2) * (height / 2) == planes[1].len()
        &&& (width / 2) * (height / 2) == planes[2].len()
    }

    /// Convertible only when both dimensions are even, so every pixel has a
    /// chroma sample inside the half-resolution planes.
    open spec fn spec_bgr(&self) -> Option<Seq<u8>> {
        if self.spec_width() % 2 == 0 && self.spec_height() % 2 == 0 {
            Some(
                Seq::new(
                    (self.spec_width() * self.spec_height() * 3) as nat,
                    |j: int|
                        spec_yuv420_bgr_byte(
                            self.spec_y_plane(),
                            self.spec_u_plane(),
                            self.spec_v_plane(),
                            self.spec_width() as int,
                            j,
                        ),
                ),
            )
        } else {
            None
        }
    }

    fn from_planes(width: usize, height: usize, planes: Vec<Vec<u8>>) -> (r: Option<Yuv420Image>) {
        let ghost gplanes = planes.deep_view();
        if planes.len() != 3 {
            return None;
        }
        let mut planes = planes;
        let v_plane = match planes.pop() {
            Some(d) => d,
            None => {
                return None;
            },
        };
        let u_plane = match planes.pop() {
            Some(d) => d,
            None => {
                return None;
            },
        };
        let y_plane = match planes.pop() {
            Some(d) => d,
            None => {
                return None;
            },
        };
        proof {
            assert(gplanes[0] == y_plane@);
            assert(gplanes[1] == u_plane@);
            assert(gplanes[2] == v_plane@);
        }
        let ylen = y_plane.len();
        let clen = u_plane.len();
        let wh = match width.checked_mul(height) {
            Some(x) => x,
            None => {
                proof {
                    assert(width * height > ylen);
                }
                return None;
            },
        };
        let half = match (width / 2).checked_mul(height / 2) {
            Some(x) => x,
            None => {
                proof {
                    assert((width / 2) * (height / 2) > clen);
                }
                return None;
            },
        };
        if wh == ylen && half == clen && half == v_plane.len() {
            Some(Yuv420Image { width, height, y_plane, u_plane, v_plane })
        } else {
            None
        }
    }

    /// Converts with nearest-neighbour chroma upsampling: every 2x2 luma
    /// block takes the one (U, V) sample of its half-resolution cell.
    fn as_bgr(&self) -> (r: Option<BgrImage>) {
        let w = self.width;
        let h = self.height;
        if w % 2 != 0 || h % 2 != 0 {
            return None;
        }
        let w2 = w / 2;
        let ylen = self.y_plane.len();
        let clen = self.u_plane.len();
        let mut out: Vec<u8> = Vec::new();
        let mut yy: usize = 0;
        while yy < h
            invariant
                0 <= yy <= h,
                w == self.spec_width(),
                h == self.spec_height(),
                w % 2 == 0,
                h % 2 == 0,
                w2 == w / 2,
                self.wf(),
                ylen == self.spec_y_plane().len(),
                clen == self.spec_u_plane().len(),
                out@.len() == 3 * ((yy * w) as int),
                forall|j: int|
                    0 <= j < out@.len() ==> out@[j] == spec_yuv420_bgr_byte(
                        self.spec_y_plane(),
                        self.spec_u_plane(),
                        self.spec_v_plane(),
                        w as int,
                        j,
                    ),
            decreases h - yy,
        {
            let mut x: usize = 0;
            proof {
                if w > 0 {
                    lemma_luma_index(yy as int, 0, w as int, h as int);
                } else {
                    assert(yy * w == 0) by (nonlinear_arith)
                        requires
                            w == 0,
                    ;
                }
            }
            while x < w
                invariant
                    0 <= x <= w,
                    0 <= yy < h,
                    w == self.spec_width(),
                    h == self.spec_height(),
                    w % 2 == 0,
                    h % 2 == 0,
                    w2 == w / 2,
                    self.wf(),
                    ylen == self.spec_y_plane().len(),
                    clen == self.spec_u_plane().len(),
                    yy * w + x <= ylen,
                    out@.len() == 3 * ((yy * w + x) as int),
                    forall|j: int|
                        0 <= j < out@.len() ==> out@[j] == spec_yuv420_bgr_byte(
                            self.spec_y_plane(),
                            self.spec_u_plane(),
                            self.spec_v_plane(),
                            w as int,
                            j,
                        ),
                decreases w - x,
            {
                proof {
                    lemma_luma_index(yy as int, x as int, w as int, h as int);
                    lemma_chroma_index(yy as int, x as int, w as int, h as int);
                }
                let yi = yy * w + x;
                let ci = (yy / 2) * w2 + x / 2;
                let y = self.y_plane[yi];
                let u = self.u_plane[ci];
                let v = self.v_plane[ci];
                let (rr, gg, bb) = yuv2rgb(y, u, v);
                out.push(bb);
                out.push(gg);
                out.push(rr);
                proof {
                    let p = (yy * w + x) as int;
                    lemma_pixel_offset(p, 0);
                    lemma_pixel_offset(p, 1);
                    lemma_pixel_offset(p, 2);
                    assert((p / (w as int)) == yy as int && (p % (w as int)) == x as int);
                    assert forall|j: int| 0 <= j < 3 * (p + 1) implies out@[j]
                        == spec_yuv420_bgr_byte(
                        self.spec_y_plane(),
                        self.spec_u_plane(),
                        self.spec_v_plane(),
                        w as int,
                        j,
                    ) by {
                        if j >= 3 * p {
                            assert(j / 3 == p && (j == 3 * p || j == 3 * p + 1 || j == 3 * p + 2));
                        }
                    }
                }
                x = x + 1;
            }
            proof {
                assert(3 * ((yy * w + w) as int) == 3 * (((yy + 1) * w) as int))
                    by (nonlinear_arith);
            }
            yy = yy + 1;
        }
        proof {
            assert((h * w) as int == (w * h) as int) by (nonlinear_arith);
            assert(out@.len() == self.spec_width() * self.spec_height() * 3);
            assert(out@ =~= self.spec_bgr()->Some_0);
        }
        let width = self.width;
        let height = self.height;
        Some(BgrImage { width, height, data: out })
    }

    fn get_size(&self) -> (r: (usize, usize)) {
        (self.width, self.height)
    }

    fn get_planes(&self) -> (r: Vec<&[u8]>) {
        let mut v: Vec<&[u8]> = Vec::new();
        v.push(self.y_plane.as_slice());
        v.push(self.u_plane.as_slice());
        v.push(self.v_plane.as_slice());
        proof {
            assert(v.deep_view() =~~= self.spec_planes());
        }
        v
    }
}

/// An image in NV12 format (YUV 4:2:0 with interleaved chroma): a
/// full-resolution Y plane and one half-resolution plane of interleaved
/// U, V pairs.
pub struct Nv12Image {
    width: usize,
    height: usize,
    y_plane: Vec<u8>,
    uv_plane: Vec<u8>,
}

impl Nv12Image {
    /// The image width in pixels.
    pub closed spec fn spec_width(&self) -> usize {
        self.width
    }

    /// The image height in pixels.
    pub closed spec fn spec_height(&self) -> usize {
        self.height
    }

    /// The luma plane.
    pub closed spec fn spec_y_plane(&self) -> Seq<u8> {
        self.y_plane@
    }

    /// The interleaved U, V chroma plane.
    pub closed spec fn spec_uv_plane(&self) -> Seq<u8> {
        self.uv_plane@
    }
}

impl CameraImage for Nv12Image {
    open spec fn wf(&self) -> bool {
        &&& self.spec_width() * self.spec_height() == self.spec_y_plane().len()
        &&& (self.spec_width() / 2) * (self.spec_height() / 2) * 2 == self.spec_uv_plane().len()
    }

    open spec fn spec_size(&self) -> (usize, usize) {
        (self.spec_width(), self.spec_height())
    }

    open spec fn spec_planes(&self) -> Seq<Seq<u8>> {
        seq![self.spec_y_plane(), self.spec_uv_plane()]
    }

    open spec fn planes_ok(width: int, height: int, planes: Seq<Seq<u8>>) -> bool {
        &&& planes.len() == 2
        &&& width * height == planes[0].len()
        &&& (width / 2) * (height / 2) * 2 == planes[1].len()
    }

    /// Convertible only when both dimensions are even, so every pixel has a
    /// chroma pair inside the half-resolution plane.
    open spec fn spec_bgr(&self) -> Option<Seq<u8>> {
        if self.spec_width() % 2 == 0 && self.spec_height() % 2 == 0 {
            Some(
                Seq::new(
                    (self.spec_width() * self.spec_height() * 3) as nat,
                    |j: int|
                        spec_nv12_bgr_byte(
                            self.spec_y_plane(),
                            self.spec_uv_plane(),
                            self.spec_width() as int,
                            j,
                        ),
                ),
            )
        } else {
            None
        }
    }

    fn from_planes(width: usize, height: usize, planes: Vec<Vec<u8>>) -> (r: Option<Nv12Image>) {
        let ghost gplanes = planes.deep_view();
        if planes.len() != 2 {
            return None;
        }
        let mut planes = planes;
        let uv_plane = match planes.pop() {
            Some(d) => d,
            None => {
                return None;
            },
        };
        let y_plane = match planes.pop() {
            Some(d) => d,
            None => {
                return None;
            },
        };
        proof {
            assert(gplanes[0] == y_plane@);
            assert(gplanes[1] == uv_plane@);
        }
        let ylen = y_plane.len();
        let clen = uv_plane.len();
        let wh = match width.checked_mul(height) {
            Some(x) => x,
            None => {
                proof {
                    assert(width * height > ylen);
                }
                return None;
            },
        };
        let half = match (width / 2).checked_mul(height / 2) {
            Some(x) => x,
            None => {
                proof {
                    assert((width / 2) * (height / 2) * 2 >= (width / 2) * (height / 2) > clen);
                }
                return None;
            },
        };
        let uv_total = match half.checked_mul(2) {
            Some(x) => x,
            None => {
                proof {
                    assert((width / 2) * (height / 2) * 2 > clen);
                }
                return None;
            },
        };
        if wh == ylen && uv_total == clen {
            Some(Nv12Image { width, height, y_plane, uv_plane })
        } else {
            None
        }
    }

    /// Converts with nearest-neighbour chroma upsampling: every 2x2 luma
    /// block takes the interleaved (U, V) pair of its half-resolution cell.
    fn as_bgr(&self) -> (r: Option<BgrImage>) {
        let w = self.width;
        let h = self.height;
        if w % 2 != 0 || h % 2 != 0 {
            return None;
        }
        let w2 = w / 2;
        let ylen = self.y_plane.len();
        let clen = self.uv_plane.len();
        let mut out: Vec<u8> = Vec::new();
        let mut yy: usize = 0;
        while yy < h
            invariant
                0 <= yy <= h,
                w == self.spec_width(),
                h == self.spec_height(),
                w % 2 == 0,
                h % 2 == 0,
                w2 == w / 2,
                self.wf(),
                ylen == self.spec_y_plane().len(),
                clen == self.spec_uv_plane().len(),
                out@.len() == 3 * ((yy * w) as int),
                forall|j: int|
                    0 <= j < out@.len() ==> out@[j] == spec_nv12_bgr_byte(
                        self.spec_y_plane(),
                        self.spec_uv_plane(),
                        w as int,
                        j,
                    ),
            decreases h - yy,
        {
            let mut x: usize = 0;
            proof {
                if w > 0 {
                    lemma_luma_index(yy as int, 0, w as int, h as int);
                } else {
                    assert(yy * w == 0) by (nonlinear_arith)
                        requires
                            w == 0,
                    ;
                }
            }
            while x < w
                invariant
                    0 <= x <= w,
                    0 <= yy < h,
                    w == self.spec_width(),
                    h == self.spec_height(),
                    w % 2 == 0,
                    h % 2 == 0,
                    w2 == w / 2,
                    self.wf(),
                    ylen == self.spec_y_plane().len(),
                    clen == self.spec_uv_plane().len(),
                    yy * w + x <= ylen,
                    out@.len() == 3 * ((yy * w + x) as int),
                    forall|j: int|
                        0 <= j < out@.len() ==> out@[j] == spec_nv12_bgr_byte(
                            self.spec_y_plane(),
                            self.spec_uv_plane(),
                            w as int,
                            j,
                        ),
                decreases w - x,
            {
                proof {
                    lemma_luma_index(yy as int, x as int, w as int, h as int);
                    lemma_chroma_index(yy as int, x as int, w as int, h as int);
                }
                let yi = yy * w + x;
                let ci = (yy / 2) * w2 + x / 2;
                let y = self.y_plane[yi];
                let u = self.uv_plane[2 * ci];
                let v = self.uv_plane[2 * ci + 1];
                let (rr, gg, bb) = yuv2rgb(y, u, v);
                out.push(bb);
                out.push(gg);
                out.push(rr);
                proof {
                    let p = (yy * w + x) as int;
                    lemma_pixel_offset(p, 0);
                    lemma_pixel_offset(p, 1);
                    lemma_pixel_offset(p, 2);
                    assert((p / (w as int)) == yy as int && (p % (w as int)) == x as int);
                    assert forall|j: int| 0 <= j < 3 * (p + 1) implies out@[j]
                        == spec_nv12_bgr_byte(
                        self.spec_y_plane(),
                        self.spec_uv_plane(),
                        w as int,
                        j,
                    ) by {
                        if j >= 3 * p {
                            assert(j / 3 == p && (j == 3 * p || j == 3 * p + 1 || j == 3 * p + 2));
                        }
                    }
                }
                x = x + 1;
            }
            proof {
                assert(3 * ((yy * w + w) as int) == 3 * (((yy + 1) * w) as int))
                    by (nonlinear_arith);
            }
            yy = yy + 1;
        }
        proof {
            assert((h * w) as int == (w * h) as int) by (nonlinear_arith);
            assert(out@.len() == self.spec_width() * self.spec_height() * 3);
            assert(out@ =~= self.spec_bgr()->Some_0);
        }
        let width = self.width;
        let height = self.height;
        Some(BgrImage { width, height, data: out })
    }

    fn get_size(&self) -> (r: (usize, usize)) {
        (self.width, self.height)
    }

    fn get_planes(&self) -> (r: Vec<&[u8]>) {
        let mut v: Vec<&[u8]> = Vec::new();
        v.push(self.y_plane.as_slice());
        v.push(self.uv_plane.as_slice());
        proof {
            assert(v.deep_view() =~~= self.spec_planes());
        }
        v
    }
}

/// Contains an image in any supported format.
pub enum MultiImage {
    /// Image in the BGR format.
    Bgr(BgrImage),
    /// Image in the RGB format.
    Rgb(RgbImage),
    /// Image in the YUYV 4:2:2 format.
    Yuyv(YuyvImage),
    /// Image in the YUV 4:2:0 planar format.
    Yuv420(Yuv420Image),
    /// Image in the NV12 format (YUV 4:2:0, interleaved U/V).
    Nv12(Nv12Image),
}

impl MultiImage {
    /// The contained image's planes satisfy its format's size invariant.
    pub open spec fn wf(&self) -> bool {
        match self {
            MultiImage::Bgr(i) => i.wf(),
            MultiImage::Rgb(i) => i.wf(),
            MultiImage::Yuyv(i) => i.wf(),
            MultiImage::Yuv420(i) => i.wf(),
            MultiImage::Nv12(i) => i.wf(),
        }
    }

    /// The image size `(width, height)` in pixels.
    pub open spec fn spec_size(&self) -> (usize, usize) {
        match self {
            MultiImage::Bgr(i) => i.spec_size(),
            MultiImage::Rgb(i) => i.spec_size(),
            MultiImage::Yuyv(i) => i.spec_size(),
            MultiImage::Yuv420(i) => i.spec_size(),
            MultiImage::Nv12(i) => i.spec_size(),
        }
    }

    /// The bytes of the image's BGR rendering, `None` when it cannot be
    /// converted.
    pub open spec fn spec_bgr(&self) -> Option<Seq<u8>> {
        match self {
            MultiImage::Bgr(i) => i.spec_bgr(),
            MultiImage::Rgb(i) => i.spec_bgr(),
            MultiImage::Yuyv(i) => i.spec_bgr(),
            MultiImage::Yuv420(i) => i.spec_bgr(),
            MultiImage::Nv12(i) => i.spec_bgr(),
        }
    }

    /// Convert this image into a [`BgrImage`].
    pub fn as_bgr(&self) -> (r: Option<BgrImage>)
        requires
            self.wf(),
        ensures
            (r is Some) == (self.spec_bgr() is Some),
            r matches Some(img) ==> {
                &&& img.spec_width() * img.spec_height() * 3 == img.spec_data().len()
                &&& (img.spec_width(), img.spec_height()) == self.spec_size()
                &&& img.spec_data() == self.spec_bgr()->Some_0
            },
    {
        match self {
            MultiImage::Bgr(i) => i.as_bgr(),
            MultiImage::Rgb(i) => i.as_bgr(),
            MultiImage::Yuyv(i) => i.as_bgr(),
            MultiImage::Yuv420(i) => i.as_bgr(),
            MultiImage::Nv12(i) => i.as_bgr(),
        }
    }

    /// Get the size of this image.
    pub fn get_size(&self) -> (r: (usize, usize))
        ensures
            r == self.spec_size(),
    {
        match self {
            MultiImage::Bgr(i) => i.get_size(),
            MultiImage::Rgb(i) => i.get_size(),
            MultiImage::Yuyv(i) => i.get_size(),
            MultiImage::Yuv420(i) => i.get_size(),
            MultiImage::Nv12(i) => i.get_size(),
        }
    }
}

/// What a JPEG stream decodes to: nothing at all, an image in some colour
/// format other than 8-bit RGB, or an 8-bit RGB image with its size and
/// bytes. Decoding depends on the input bytes alone.
pub enum JpegRgb {
    /// The bytes do not decode as a JPEG image.
    Undecodable,
    /// The bytes decode, but not to an 8-bit RGB image.
    NotRgb8,
    /// The decoded 8-bit RGB image: width, height, and one byte triplet per
    /// pixel.
    Rgb8(u32, u32, Seq<u8>),
}

/// The outcome of decoding a JPEG stream.
pub uninterp spec fn jpeg_rgb_of(data: Seq<u8>) -> JpegRgb;

/// Carries the JPEG decoder's outcome from the trusted call into verified
/// code.
enum JpegDecoded {
    /// The decoder reported an error.
    Undecodable,
    /// The decoder produced an image in some other colour format.
    NotRgb8,
    /// The decoded 8-bit RGB image.
    Rgb8(u32, u32, Vec<u8>),
}

/// Relies on `image::load_from_memory_with_format` with the JPEG format:
/// the decode is a pure function of the input bytes; it errors exactly when
/// the bytes do not decode, and an 8-bit RGB result's buffer holds exactly
/// one byte triplet per pixel (the decoder builds its buffers exactly
/// sized).
#[verifier::external_body]
fn decode_jpeg_rgb(data: &[u8]) -> (r: JpegDecoded)
    ensures
        match (r, jpeg_rgb_of(data@)) {
            (JpegDecoded::Undecodable, JpegRgb::Undecodable) => true,
            (JpegDecoded::NotRgb8, JpegRgb::NotRgb8) => true,
            (JpegDecoded::Rgb8(w, h, bytes), JpegRgb::Rgb8(sw, sh, sbytes)) => w == sw && h == sh
                && bytes@ == sbytes && sbytes.len() == sw * sh * 3,
            _ => false,
        },
{
    match image::load_from_memory_with_format(data, image::ImageFormat::Jpeg) {
        Ok(image::DynamicImage::ImageRgb8(img)) => {
            let (width, height) = img.dimensions();
            JpegDecoded::Rgb8(width, height, img.into_raw())
        },
        Ok(_) => JpegDecoded::NotRgb8,
        Err(_) => JpegDecoded::Undecodable,
    }
}

/// What a `width` x `height` RGB byte buffer encodes to as a PNG stream.
/// Encoding depends on the size and bytes alone.
pub uninterp spec fn png_of(width: u32, height: u32, data: Seq<u8>) -> Option<Seq<u8>>;

/// Relies on `image::write_buffer_with_format` with the PNG format: the
/// encoding is a pure function of the size and the 8-bit RGB bytes. The
/// encoder asserts that the buffer holds exactly `width * height` byte
/// triplets and aborts otherwise, so that input is excluded here; it can
/// still report an error (e.g. for zero dimensions).
#[verifier::external_body]
fn encode_png_bytes(width: u32, height: u32, data: &[u8]) -> (r: Option<Vec<u8>>)
    requires
        data@.len() == width * height * 3,
    ensures
        match (r, png_of(width, height, data@)) {
            (Some(v), Some(s)) => v@ == s,
            (None, None) => true,
            _ => false,
        },
{
    let mut buffer = std::io::Cursor::new(Vec::new());
    match image::write_buffer_with_format(
        &mut buffer,
        data,
        width,
        height,
        image::ExtendedColorType::Rgb8,
        image::ImageFormat::Png,
    ) {
        Ok(()) => Some(buffer.into_inner()),
        Err(_) => None,
    }
}

impl RgbImage {
    /// Decode an [`RgbImage`] from a JPEG image stream.
    ///
    /// Succeeds exactly when the bytes decode to an 8-bit RGB image. Bytes
    /// that do not decode at all are an image error; an image in some other
    /// colour format is a bad image format.
    pub fn decode_jpeg(data: &[u8]) -> (r: crate::error::Result<RgbImage>)
        ensures
            match jpeg_rgb_of(data@) {
                JpegRgb::Rgb8(w, h, bytes) => match r {
                    Ok(img) => {
                        &&& img.wf()
                        &&& img.spec_width() == w as usize
                        &&& img.spec_height() == h as usize
                        &&& img.spec_data() == bytes
                    },
                    Err(_) => false,
                },
                JpegRgb::NotRgb8 => r == Err::<RgbImage, crate::error::LibcameraError>(
                    crate::error::LibcameraError::BadImageFormat,
                ),
                JpegRgb::Undecodable => r == Err::<RgbImage, crate::error::LibcameraError>(
                    crate::error::LibcameraError::ImageError,
                ),
            },
    {
        match decode_jpeg_rgb(data) {
            JpegDecoded::Rgb8(width, height, bytes) => {
                let mut planes: Vec<Vec<u8>> = Vec::new();
                planes.push(bytes);
                proof {
                    assert(RgbImage::planes_ok(
                        width as int,
                        height as int,
                        planes.deep_view(),
                    )) by {
                        assert(planes.deep_view()[0] == planes@[0]@);
                    }
                }
                match RgbImage::from_planes(width as usize, height as usize, planes) {
                    Some(img) => Ok(img),
                    None => Err(crate::error::LibcameraError::BadImageFormat),
                }
            },
            JpegDecoded::NotRgb8 => Err(crate::error::LibcameraError::BadImageFormat),
            JpegDecoded::Undecodable => Err(crate::error::LibcameraError::ImageError),
        }
    }

    /// Encode this image to a PNG image stream.
    ///
    /// Fails when a dimension exceeds the encoder's 32-bit range, or when
    /// the encoder rejects the buffer (e.g. an empty image).
    pub fn encode_png(&self) -> (r: crate::error::Result<Vec<u8>>)
        requires
            self.wf(),
        ensures
            self.spec_width() <= u32::MAX && self.spec_height() <= u32::MAX ==> match (
            r,
            png_of(self.spec_width() as u32, self.spec_height() as u32, self.spec_data()),
            ) {
                (Ok(v), Some(s)) => v@ == s,
                (Err(e), None) => e == crate::error::LibcameraError::ImageError,
                _ => false,
            },
            self.spec_width() > u32::MAX || self.spec_height() > u32::MAX ==> r == Err::<
                Vec<u8>,
                crate::error::LibcameraError,
            >(crate::error::LibcameraError::ImageError),
    {
        if self.width > u32::MAX as usize || self.height > u32::MAX as usize {
            return Err(crate::error::LibcameraError::ImageError);
        }
        proof {
            assert(self.spec_data().len() == (self.spec_width() as u32) * (self.spec_height()
                as u32) * 3);
        }
        match encode_png_bytes(self.width as u32, self.height as u32, self.data.as_slice()) {
            Some(v) => Ok(v),
            None => Err(crate::error::LibcameraError::ImageError),
        }
    }
}

/// Converting an RGB image to BGR and that BGR image back to RGB returns the
/// original image's bytes exactly: decode of encode is the identity for the
/// reversible RGB/BGR pair.
pub proof fn lemma_rgb_bgr_round_trip(img: RgbImage)
    requires
        img.wf(),
    ensures
        spec_swapped(spec_swapped(img.spec_data())) == img.spec_data(),
{
    lemma_fundamental_div_mod_converse(
        img.spec_data().len() as int,
        3,
        img.spec_width() * img.spec_height(),
        0,
    );
    lemma_swap_round_trip(img.spec_data());
}

} // verus!
