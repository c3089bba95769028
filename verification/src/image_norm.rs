//! Image polarity normalization: decode to 3-channel RGB, measure the
//! average BT.601 luminance, invert every channel when the image is
//! dark overall, and re-encode the result as PNG.

use vstd::prelude::*;
use vstd::arithmetic::div_mod::{
    lemma_div_is_ordered, lemma_fundamental_div_mod, lemma_fundamental_div_mod_converse,
    lemma_mod_pos_bound,
};
use vstd::arithmetic::mul::{lemma_mul_is_commutative, lemma_mul_strictly_positive, lemma_mul_upper_bound};
use crate::errors::PipelineError;

verus! {

/// ITU-R BT.601 luminance of one RGB pixel: weights 299/587/114 per
/// 1000, integer arithmetic, truncating division. Ranges over 0..=255.
pub open spec fn luma(r: u8, g: u8, b: u8) -> int {
    (r * 299 + g * 587 + b * 114) / 1000
}

/// Sum of the luminances of the consecutive RGB triples of `p`.
pub open spec fn luma_sum(p: Seq<u8>) -> int
    decreases p.len(),
{
    if p.len() < 3 {
        0
    } else {
        luma(p[0], p[1], p[2]) + luma_sum(p.skip(3))
    }
}

/// Average luminance over `n_pixels` pixels, truncating division.
pub open spec fn avg_brightness(p: Seq<u8>, n_pixels: int) -> int {
    luma_sum(p) / n_pixels
}

/// Every channel value replaced by its complement `255 - v`.
pub open spec fn inverted(p: Seq<u8>) -> Seq<u8> {
    p.map_values(|v: u8| (255 - v) as u8)
}

/// The polarity decision rule: a dark image (average luminance below
/// 128) is inverted in full; any other image passes through unchanged.
pub open spec fn normalized_pixels(p: Seq<u8>, n_pixels: int) -> Seq<u8> {
    if avg_brightness(p, n_pixels) < 128 {
        inverted(p)
    } else {
        p
    }
}

/// A decoded raster image in canonical 3-channel form: `pixels` holds
/// the RGB triples row by row.
#[derive(Debug)]
pub struct NormalizedImage {
    pub width: u32,
    pub height: u32,
    pub pixels: Vec<u8>,
}

impl NormalizedImage {
    /// Well-formedness: a non-empty image whose buffer holds exactly
    /// `width * height` RGB triples.
    pub open spec fn wf(&self) -> bool {
        &&& self.pixels@.len() == self.width * self.height * 3
        &&& self.width * self.height > 0
    }
}

/// What `image::load_from_memory` followed by `to_rgb8` yields for a
/// given byte sequence: `None` when the bytes are not a decodable
/// raster image, otherwise the dimensions and the RGB samples.
pub uninterp spec fn rgb_decode_of(bytes: Seq<u8>) -> Option<(u32, u32, Seq<u8>)>;

/// What re-encoding an RGB buffer of the given dimensions as PNG yields.
pub uninterp spec fn png_bytes_of(width: u32, height: u32, pixels: Seq<u8>) -> Seq<u8>;

/// Whether the PNG encoder accepts an RGB buffer of the given
/// dimensions: a function of the dimensions and samples alone.
pub uninterp spec fn png_encode_ok(width: u32, height: u32, pixels: Seq<u8>) -> bool;

/// Relies on `image::load_from_memory` and `DynamicImage::to_rgb8`:
/// decoding is a function of the bytes alone, and the RGB buffer of a
/// decoded image holds exactly `width * height * 3` one-byte samples.
#[verifier::external_body]
fn decode_rgb(bytes: &Vec<u8>) -> (r: Result<(u32, u32, Vec<u8>), String>)
    ensures
        r is Ok <==> rgb_decode_of(bytes@) is Some,
        (r matches Ok(t) ==> rgb_decode_of(bytes@) matches Some(d) && t.0 == d.0 && t.1 == d.1
            && t.2@ == d.2 && d.2.len() == d.0 * d.1 * 3),
{
    match image::load_from_memory(bytes.as_slice()) {
        Ok(img) => {
            let rgb = img.to_rgb8();
            let (w, h) = rgb.dimensions();
            Ok((w, h, rgb.into_raw()))
        },
        Err(e) => Err(e.to_string()),
    }
}

/// Relies on `image::RgbImage::from_raw` and `write_to` with the PNG
/// format: whether encoding succeeds and what it writes are both
/// functions of the dimensions and samples alone.
#[verifier::external_body]
fn encode_png(width: u32, height: u32, pixels: &Vec<u8>) -> (r: Result<Vec<u8>, String>)
    requires
        pixels@.len() == width * height * 3,
    ensures
        r is Ok <==> png_encode_ok(width, height, pixels@),
        (r matches Ok(b) ==> b@ == png_bytes_of(width, height, pixels@)),
{
    let img = match image::RgbImage::from_raw(width, height, pixels.clone()) {
        Some(i) => i,
        None => {
            return Err("buffer size mismatch".to_string());
        },
    };
    let mut buf = Vec::new();
    let mut cursor = std::io::Cursor::new(&mut buf);
    match img.write_to(&mut cursor, image::ImageFormat::Png) {
        Ok(()) => Ok(buf),
        Err(e) => Err(e.to_string()),
    }
}

/// Each luminance lies in 0..=255, so a luminance sum is bounded by
/// 85 per buffer byte.
proof fn lemma_luma_sum_bounds(p: Seq<u8>)
    ensures
        0 <= luma_sum(p) <= 85 * p.len(),
    decreases p.len(),
{
    if p.len() >= 3 {
        lemma_luma_sum_bounds(p.skip(3));
    }
}

/// Computes the luminance sum of the RGB triples of `p`.
fn luma_sum_exec(p: &Vec<u8>) -> (r: u128)
    ensures
        r == luma_sum(p@),
{
    proof {
        lemma_luma_sum_bounds(p@);
    }
    let n = p.len();
    let mut sum: u128 = 0;
    let mut i: usize = 0;
    proof {
        assert(p@.skip(0) =~= p@);
    }
    while n - i >= 3
        invariant
            0 <= i <= n,
            n == p@.len(),
            i % 3 == 0 || n - i < 3,
            sum + luma_sum(p@.skip(i as int)) == luma_sum(p@),
            0 <= sum <= 85 * i,
        decreases n - i,
    {
        proof {
            lemma_luma_sum_bounds(p@.skip(i as int));
            lemma_luma_sum_bounds(p@.skip(i + 3));
            assert(p@.skip(i as int).skip(3) =~= p@.skip(i + 3));
            assert(p@.skip(i as int)[0] == p@[i as int]);
            assert(p@.skip(i as int)[1] == p@[i as int + 1]);
            assert(p@.skip(i as int)[2] == p@[i as int + 2]);
        }
        let gray: u64 = (p[i] as u64 * 299 + p[i + 1] as u64 * 587 + p[i + 2] as u64 * 114) / 1000;
        sum = sum + gray as u128;
        i = i + 3;
    }
    proof {
        assert(luma_sum(p@.skip(i as int)) == 0);
    }
    sum
}

/// Replaces every channel value by `255 - v`.
fn invert_pixels(p: &mut Vec<u8>)
    ensures
        final(p)@ == inverted(old(p)@),
{
    let n = p.len();
    let mut j: usize = 0;
    while j < n
        invariant
            0 <= j <= n,
            n == p@.len(),
            p@.len() == old(p)@.len(),
            forall|m: int| 0 <= m < j ==> p@[m] == 255 - old(p)@[m],
            forall|m: int| j <= m < n ==> p@[m] == old(p)@[m],
        decreases n - j,
    {
        let v = p[j];
        p.set(j, 255 - v);
        j = j + 1;
    }
    proof {
        assert(p@ =~= inverted(old(p)@));
    }
}

/// Applies the polarity decision rule to a decoded image: measures the
/// average luminance and inverts every channel exactly when it is
/// below 128.
pub fn normalize_polarity(img: NormalizedImage) -> (r: NormalizedImage)
    requires
        img.wf(),
    ensures
        r.width == img.width,
        r.height == img.height,
        r.wf(),
        r.pixels@ == normalized_pixels(img.pixels@, img.width * img.height),
        avg_brightness(img.pixels@, img.width * img.height) >= 128 ==> r.pixels@ == img.pixels@,
        avg_brightness(img.pixels@, img.width * img.height) < 128 ==> r.pixels@ == inverted(
            img.pixels@,
        ),
{
    let sum = luma_sum_exec(&img.pixels);
    proof {
        lemma_mul_upper_bound(img.width as int, 0xffffffff, img.height as int, 0xffffffff);
    }
    let count: u64 = img.width as u64 * img.height as u64;
    let avg: u128 = sum / count as u128;
    proof {
        lemma_luma_sum_bounds(img.pixels@);
        assert(avg == avg_brightness(img.pixels@, img.width * img.height));
    }
    if avg < 128 {
        let NormalizedImage { width, height, mut pixels } = img;
        invert_pixels(&mut pixels);
        NormalizedImage { width, height, pixels }
    } else {
        img
    }
}

/// Decodes a raster image, converts it to 3-channel RGB, and applies
/// the polarity decision rule. An input that does not decode, or that
/// decodes to an image without pixels, fails with `Decode` carrying
/// the cause.
pub fn normalize(raw: &Vec<u8>) -> (r: Result<NormalizedImage, PipelineError>)
    ensures
        rgb_decode_of(raw@) is None ==> r matches Err(PipelineError::Decode(_)),
        (rgb_decode_of(raw@) matches Some(d) ==> (if d.0 * d.1 == 0 {
            r matches Err(PipelineError::Decode(_))
        } else {
            r matches Ok(img) && img.width == d.0 && img.height == d.1 && img.wf()
                && img.pixels@ == normalized_pixels(d.2, d.0 * d.1)
        })),
{
    match decode_rgb(raw) {
        Err(m) => Err(PipelineError::Decode(m)),
        Ok((w, h, pixels)) => {
            if w == 0 || h == 0 {
                proof {
                    lemma_mul_is_commutative(w as int, h as int);
                    if w == 0 {
                        lemma_mul_upper_bound(w as int, 0, h as int, 0xffffffff);
                    } else {
                        lemma_mul_upper_bound(h as int, 0, w as int, 0xffffffff);
                    }
                }
                return Err(PipelineError::Decode(String::from_str("空图像")));
            }
            proof {
                lemma_mul_strictly_positive(w as int, h as int);
            }
            let img = NormalizedImage { width: w, height: h, pixels };
            Ok(normalize_polarity(img))
        },
    }
}

/// Re-encodes a normalized image as a PNG byte stream. A buffer whose
/// length does not match the declared dimensions fails with `Encode`,
/// as does a failure of the encoder itself; a well-formed buffer the
/// encoder accepts always succeeds.
pub fn encode_normalized(img: &NormalizedImage) -> (r: Result<Vec<u8>, PipelineError>)
    ensures
        r is Err ==> r matches Err(PipelineError::Encode(_)),
        img.pixels@.len() != img.width * img.height * 3 ==> r is Err,
        img.pixels@.len() == img.width * img.height * 3 && png_encode_ok(
            img.width,
            img.height,
            img.pixels@,
        ) ==> r is Ok,
        (r matches Ok(b) ==> img.pixels@.len() == img.width * img.height * 3 && b@ == png_bytes_of(
            img.width,
            img.height,
            img.pixels@,
        )),
{
    proof {
        lemma_mul_upper_bound(img.width as int, 0xffffffff, img.height as int, 0xffffffff);
    }
    let expected: u128 = img.width as u128 * img.height as u128 * 3;
    if img.pixels.len() as u128 != expected {
        return Err(PipelineError::Encode(String::from_str("缓冲区大小不符")));
    }
    match encode_png(img.width, img.height, &img.pixels) {
        Ok(b) => Ok(b),
        Err(m) => Err(PipelineError::Encode(m)),
    }
}

/// Inverting one pixel complements its luminance, up to the single
/// unit lost to truncating division.
proof fn lemma_luma_inverted(r: u8, g: u8, b: u8)
    ensures
        255 - luma(r, g, b) - 1 <= luma((255 - r) as u8, (255 - g) as u8, (255 - b) as u8) <= 255
            - luma(r, g, b),
{
    let t = r * 299 + g * 587 + b * 114;
    let t2 = (255 - r) * 299 + (255 - g) * 587 + (255 - b) * 114;
    assert(t2 == 255000 - t);
    lemma_fundamental_div_mod(t, 1000);
    lemma_mod_pos_bound(t, 1000);
    let q = t / 1000;
    let s = t % 1000;
    if s == 0 {
        lemma_fundamental_div_mod_converse(t2, 1000, 255 - q, 0);
    } else {
        lemma_fundamental_div_mod_converse(t2, 1000, 254 - q, 1000 - s);
    }
}

/// Inverting every pixel complements the luminance sum, up to one
/// unit per pixel.
proof fn lemma_luma_sum_inverted(p: Seq<u8>)
    requires
        p.len() % 3 == 0,
    ensures
        inverted(p).len() == p.len(),
        255 * (p.len() / 3) - luma_sum(p) - (p.len() / 3) <= luma_sum(inverted(p)) <= 255 * (
        p.len() / 3) - luma_sum(p),
    decreases p.len(),
{
    if p.len() == 0 {
    } else {
        assert(p.len() >= 3);
        lemma_luma_sum_inverted(p.skip(3));
        assert(inverted(p).skip(3) =~= inverted(p.skip(3)));
        lemma_luma_inverted(p[0], p[1], p[2]);
        assert(inverted(p)[0] == (255 - p[0]) as u8);
        assert(inverted(p)[1] == (255 - p[1]) as u8);
        assert(inverted(p)[2] == (255 - p[2]) as u8);
        assert((p.len() - 3) / 3 == p.len() / 3 - 1) by {
            lemma_fundamental_div_mod(p.len() as int, 3);
            lemma_fundamental_div_mod_converse(p.len() - 3, 3, p.len() / 3 - 1, 0);
        }
    }
}

/// The polarity-inversion law. A bright image (average luminance at
/// least 128) passes through the decision rule unchanged. A dark image
/// has every channel value complemented to `255 - v`, and its new
/// average luminance is the complement of the old one, up to the two
/// units of integer-rounding tolerance.
pub proof fn lemma_polarity_inversion(p: Seq<u8>, n: int)
    requires
        n > 0,
        p.len() == 3 * n,
    ensures
        avg_brightness(p, n) >= 128 ==> normalized_pixels(p, n) == p,
        avg_brightness(p, n) < 128 ==> normalized_pixels(p, n) == inverted(p),
        inverted(p).len() == p.len(),
        forall|i: int| 0 <= i < p.len() ==> inverted(p)[i] == 255 - p[i],
        255 - avg_brightness(p, n) - 2 <= avg_brightness(inverted(p), n) <= 255 - avg_brightness(
            p,
            n,
        ),
{
    assert(p.len() % 3 == 0 && p.len() / 3 == n) by {
        lemma_fundamental_div_mod_converse(p.len() as int, 3, n, 0);
    }
    lemma_luma_sum_inverted(p);
    lemma_luma_sum_bounds(p);
    lemma_luma_sum_bounds(inverted(p));
    let s = luma_sum(p);
    let s2 = luma_sum(inverted(p));
    lemma_fundamental_div_mod(s, n);
    lemma_mod_pos_bound(s, n);
    let q = s / n;
    let rr = s % n;
    // Upper bound: s2 <= 255n - s, so s2 / n <= (255n - s) / n <= 255 - q.
    lemma_div_is_ordered(s2, 255 * n - s, n);
    if rr == 0 {
        assert(255 * n - s == (255 - q) * n + 0) by (nonlinear_arith)
            requires
                s == n * q + rr,
                rr == 0;
        lemma_fundamental_div_mod_converse(255 * n - s, n, 255 - q, 0);
    } else {
        assert(255 * n - s == (254 - q) * n + (n - rr)) by (nonlinear_arith)
            requires
                s == n * q + rr;
        lemma_fundamental_div_mod_converse(255 * n - s, n, 254 - q, n - rr);
    }
    // Lower bound: s2 >= 255n - s - n, so s2 / n >= (255n - s - n) / n >= 253 - q.
    lemma_div_is_ordered(255 * n - s - n, s2, n);
    if rr == 0 {
        assert(255 * n - s - n == (254 - q) * n + 0) by (nonlinear_arith)
            requires
                s == n * q + rr,
                rr == 0;
        lemma_fundamental_div_mod_converse(255 * n - s - n, n, 254 - q, 0);
    } else {
        assert(255 * n - s - n == (253 - q) * n + (n - rr)) by (nonlinear_arith)
            requires
                s == n * q + rr;
        lemma_fundamental_div_mod_converse(255 * n - s - n, n, 253 - q, n - rr);
    }
    assert forall|i: int| 0 <= i < p.len() implies inverted(p)[i] == 255 - p[i] by {
        assert(inverted(p)[i] == (255 - p[i]) as u8);
    }
}

/// Repacks an RGBA byte stream, as clipboard and screen captures hand
/// it over, into the canonical 3-channel form: each pixel keeps its
/// red, green and blue values and drops its alpha; trailing bytes of
/// an incomplete pixel are dropped.
#[verifier::rlimit(30)]
pub fn rgba_to_rgb(rgba: &Vec<u8>) -> (r: Vec<u8>)
    ensures
        r@.len() == (rgba@.len() / 4) * 3,
        forall|k: int| #![trigger r@[3 * k]] 0 <= k < rgba@.len() / 4 ==> r@[3 * k] == rgba@[4
            * k],
        forall|k: int| #![trigger r@[3 * k + 1]] 0 <= k < rgba@.len() / 4 ==> r@[3 * k + 1]
            == rgba@[4 * k + 1],
        forall|k: int| #![trigger r@[3 * k + 2]] 0 <= k < rgba@.len() / 4 ==> r@[3 * k + 2]
            == rgba@[4 * k + 2],
{
    let n = rgba.len();
    let mut out: Vec<u8> = Vec::new();
    let mut j: usize = 0;
    while n - j >= 4
        invariant
            0 <= j <= n,
            j % 4 == 0,
            n == rgba@.len(),
            n - j < 4 ==> j / 4 == n / 4,
            out@.len() == (j / 4) * 3,
            forall|k: int| #![trigger out@[3 * k]] 0 <= k < j / 4 ==> out@[3 * k] == rgba@[4 * k],
            forall|k: int| #![trigger out@[3 * k + 1]] 0 <= k < j / 4 ==> out@[3 * k + 1]
                == rgba@[4 * k + 1],
            forall|k: int| #![trigger out@[3 * k + 2]] 0 <= k < j / 4 ==> out@[3 * k + 2]
                == rgba@[4 * k + 2],
        decreases n - j,
    {
        let ghost out0 = out@;
        out.push(rgba[j]);
        out.push(rgba[j + 1]);
        out.push(rgba[j + 2]);
        proof {
            lemma_fundamental_div_mod(j as int, 4);
            let p = j as int / 4;
            lemma_fundamental_div_mod_converse(j + 4, 4, p + 1, 0);
            if n - (j + 4) < 4 {
                lemma_fundamental_div_mod_converse(n as int, 4, p + 1, n - (j + 4));
            }
            assert(out@ =~= out0 + seq![
                rgba@[j as int],
                rgba@[j as int + 1],
                rgba@[j as int + 2],
            ]);
            assert forall|k: int| #![trigger out@[3 * k]] 0 <= k < p + 1 implies out@[3 * k]
                == rgba@[4 * k] by {
                if k == p {
                    assert(out@[3 * p] == rgba@[j as int]);
                } else {
                    assert(out0[3 * k] == rgba@[4 * k]);
                    assert(out@[3 * k] == out0[3 * k]);
                }
            }
            assert forall|k: int| #![trigger out@[3 * k + 1]] 0 <= k < p + 1 implies out@[3 * k
                + 1] == rgba@[4 * k + 1] by {
                if k == p {
                    assert(out@[3 * p + 1] == rgba@[j as int + 1]);
                } else {
                    assert(out0[3 * k + 1] == rgba@[4 * k + 1]);
                    assert(out@[3 * k + 1] == out0[3 * k + 1]);
                }
            }
            assert forall|k: int| #![trigger out@[3 * k + 2]] 0 <= k < p + 1 implies out@[3 * k
                + 2] == rgba@[4 * k + 2] by {
                if k == p {
                    assert(out@[3 * p + 2] == rgba@[j as int + 2]);
                } else {
                    assert(out0[3 * k + 2] == rgba@[4 * k + 2]);
                    assert(out@[3 * k + 2] == out0[3 * k + 2]);
                }
            }
        }
        j = j + 4;
    }
    proof {
        assert forall|k: int| #![trigger out@[3 * k]] 0 <= k < rgba@.len() / 4 implies out@[3
            * k] == rgba@[4 * k] by {}
        assert forall|k: int| #![trigger out@[3 * k + 1]] 0 <= k < rgba@.len() / 4 implies out@[3
            * k + 1] == rgba@[4 * k + 1] by {}
        assert forall|k: int| #![trigger out@[3 * k + 2]] 0 <= k < rgba@.len() / 4 implies out@[3
            * k + 2] == rgba@[4 * k + 2] by {}
    }
    out
}

} // verus!
