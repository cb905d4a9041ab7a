//! The pictures of the conversation, as 16-bit RGBA samples: reading an image, putting it on
//! its new canvas, and writing the finished spray as a PNG.

use vstd::prelude::*;
use std::io::Cursor;
use image::imageops::{resize, FilterType};
use image::{GenericImage, GenericImageView, ImageBuffer, ImageFormat, ImageReader, Rgb, Rgba};
use crate::vector2::Vector2;
use crate::dialogue::{
    AnchorError, Placement, is_two_words, placement_for_choice, spec_placement, apply_opacity_bound,
    bounded_samples,
};

verus! {

/// A picture: its width and height in pixels and its samples, row by row, four 16-bit samples
/// (red, green, blue, opacity) a pixel.
#[derive(Debug, Clone)]
pub struct RawImage {
    pub width: u32,
    pub height: u32,
    pub samples: Vec<u16>,
}

impl RawImage {
    /// The samples are exactly those of `width * height` pixels.
    pub open spec fn is_whole(&self) -> bool {
        self.samples@.len() == 4 * self.width * self.height
    }
}

/// `ImageReader::with_guessed_format`, `ImageReader::decode` and `DynamicImage::into_rgba16`
/// from the image crate: the image the bytes hold, as 16-bit RGBA samples, exactly four a pixel.
/// Which image comes out is left unsaid: the crate guesses the format and picks the decoder
/// through hooks that any code in the process may register, so the same bytes need not decode
/// alike in every process.
#[verifier::external_body]
fn decode_rgba16(bytes: &[u8]) -> (r: Option<(u32, u32, Vec<u16>)>)
    ensures
        r matches Some((w, h, s)) ==> s@.len() == 4 * w * h,
{
    let reader = ImageReader::new(Cursor::new(bytes)).with_guessed_format().ok()?;
    let image = reader.decode().ok()?.into_rgba16();
    Some((image.width(), image.height(), image.into_raw()))
}

/// Why bytes do not give a picture to work on.
#[derive(Debug, Clone, Copy, PartialEq, Eq, Structural)]
pub enum ImageError {
    /// The bytes are not an image.
    NotAnImage,
    /// The image has no pixels: its width or its height is zero.
    EmptyImage,
}

/// The picture of a decoding outcome: none when nothing was decoded or when the image has no
/// pixels.
pub fn picture_of(decoded: Option<(u32, u32, Vec<u16>)>) -> (r: Result<RawImage, ImageError>)
    requires
        decoded matches Some((w, h, s)) ==> s@.len() == 4 * w * h,
    ensures
        decoded is None ==> r == Err::<RawImage, ImageError>(ImageError::NotAnImage),
        decoded matches Some((w, h, s)) ==> (if w == 0 || h == 0 {
            r == Err::<RawImage, ImageError>(ImageError::EmptyImage)
        } else {
            r matches Ok(p) && p.width == w && p.height == h && p.samples@ == s@ && p.is_whole()
        }),
{
    match decoded {
        None => Err(ImageError::NotAnImage),
        Some((width, height, samples)) => {
            if width == 0 || height == 0 {
                Err(ImageError::EmptyImage)
            } else {
                Ok(RawImage { width, height, samples })
            }
        },
    }
}

/// The picture that `bytes` hold: see [`picture_of`], which says what each decoding outcome
/// gives.
pub fn read_image(bytes: &[u8]) -> (r: Result<RawImage, ImageError>)
    ensures
        r matches Ok(p) ==> p.is_whole() && p.width > 0 && p.height > 0,
{
    picture_of(decode_rgba16(bytes))
}

/// Sample `i` of a canvas of size `canvas` onto which the `p.size` pixels at `p.crop_origin`
/// of a picture `width` pixels wide, with samples `samples`, are copied at `p.canvas_origin`;
/// the rest of the canvas is zero (transparent black).
pub open spec fn placed_sample(samples: Seq<u16>, width: u32, canvas: Vector2<u32>, p: Placement, i: int) -> u16 {
    let pixel = i / 4;
    let channel = i % 4;
    let x = pixel % (canvas.x as int);
    let y = pixel / (canvas.x as int);
    if p.canvas_origin.x <= x < p.canvas_origin.x + p.size.x && p.canvas_origin.y <= y < p.canvas_origin.y + p.size.y {
        let sx = x - p.canvas_origin.x + p.crop_origin.x;
        let sy = y - p.canvas_origin.y + p.crop_origin.y;
        samples[4 * (sy * width + sx) + channel]
    } else {
        0u16
    }
}

/// The copied rectangle lies inside the picture and inside the canvas.
pub open spec fn placement_fits(width: u32, height: u32, canvas: Vector2<u32>, p: Placement) -> bool {
    &&& p.crop_origin.x + p.size.x <= width
    &&& p.crop_origin.y + p.size.y <= height
    &&& p.canvas_origin.x + p.size.x <= canvas.x
    &&& p.canvas_origin.y + p.size.y <= canvas.y
}

/// `ImageBuffer::new`, `GenericImageView::view`, `SubImage::to_image`,
/// `GenericImage::sub_image` and `GenericImage::copy_from` from the image crate: a new canvas of
/// zero pixels, onto which the rectangle of the picture is copied; the samples of the canvas,
/// row by row.
#[verifier::external_body]
fn place_rgba16(samples: &Vec<u16>, width: u32, height: u32, canvas: Vector2<u32>, p: Placement) -> (r: Vec<u16>)
    requires
        samples@.len() == 4 * width * height,
        placement_fits(width, height, canvas, p),
        4 * canvas.x * canvas.y <= usize::MAX,
    ensures
        r@.len() == 4 * canvas.x * canvas.y,
        forall|i: int| 0 <= i < r@.len() ==> r@[i] == #[trigger] placed_sample(samples@, width, canvas, p, i),
{
    let picture = ImageBuffer::<Rgba<u16>, Vec<u16>>::from_raw(width, height, samples.clone()).unwrap();
    let mut target = ImageBuffer::<Rgba<u16>, Vec<u16>>::new(canvas.x, canvas.y);
    let cropped = picture.view(p.crop_origin.x, p.crop_origin.y, p.size.x, p.size.y).to_image();
    let _ = target.sub_image(p.canvas_origin.x, p.canvas_origin.y, p.size.x, p.size.y).copy_from(&cropped, 0, 0);
    target.into_raw()
}

/// `placed` is the canvas of size `canvas` with the rectangle `p` of `image` copied onto it.
pub open spec fn is_placed_picture(image: RawImage, canvas: Vector2<u32>, p: Placement, placed: RawImage) -> bool {
    &&& placed.width == canvas.x
    &&& placed.height == canvas.y
    &&& placed.is_whole()
    &&& forall|i: int| 0 <= i < placed.samples@.len() ==> placed.samples@[i] == #[trigger] placed_sample(image.samples@, image.width, canvas, p, i)
}

/// The placements that anchor choices give lie inside both picture and canvas.
pub proof fn lemma_placement_fits(original: Vector2<u32>, canvas: Vector2<u32>, a: Seq<char>, b: Seq<char>)
    requires
        spec_placement(original, canvas, a, b) is Some,
    ensures
        placement_fits(original.x, original.y, canvas, spec_placement(original, canvas, a, b)->0),
{
}

/// The picture `image` on a new canvas of size `canvas`, placed or cropped at the anchor
/// point that `choice` names (see [`placement_for_choice`]).
pub fn recanvas(image: &RawImage, canvas: Vector2<u32>, choice: &str) -> (r: Result<RawImage, AnchorError>)
    requires
        image.is_whole(),
        4 * canvas.x * canvas.y <= usize::MAX,
    ensures
        r matches Err(e) ==> (e == AnchorError::NotTwoWords <==> forall|a: Seq<char>, b: Seq<char>| !#[trigger] is_two_words(choice@, a, b)),
        r is Ok <==> exists|a: Seq<char>, b: Seq<char>| #[trigger] is_two_words(choice@, a, b)
            && spec_placement(Vector2 { x: image.width, y: image.height }, canvas, a, b) is Some,
        r matches Ok(placed) ==> exists|a: Seq<char>, b: Seq<char>| #[trigger] is_two_words(choice@, a, b)
            && (spec_placement(Vector2 { x: image.width, y: image.height }, canvas, a, b) matches Some(p)
            && is_placed_picture(*image, canvas, p, placed)),
{
    let original = Vector2 { x: image.width, y: image.height };
    let placement = placement_for_choice(original, canvas, choice)?;
    proof {
        let (a, b) = choose|a: Seq<char>, b: Seq<char>| #[trigger] is_two_words(choice@, a, b) && spec_placement(original, canvas, a, b) == Some(placement);
        lemma_placement_fits(original, canvas, a, b);
    }
    let samples = place_rgba16(&image.samples, image.width, image.height, canvas, placement);
    Ok(RawImage { width: canvas.x, height: canvas.y, samples })
}

/// `imageops::resize` with `FilterType::Lanczos3` from the image crate, on a 16-bit RGBA
/// picture: a picture of the new size. Stated is what holds of every outcome: the new size, an
/// exact copy when the size does not change, and transparent black when the picture has no
/// pixels. The resampled values are left unsaid: they go through `f32::sin`, whose precision
/// std leaves to the platform.
#[verifier::external_body]
fn resize_rgba16(samples: &Vec<u16>, width: u32, height: u32, size: Vector2<u32>) -> (r: Vec<u16>)
    requires
        samples@.len() == 4 * width * height,
        4 * width * size.y <= usize::MAX,
        4 * size.x * size.y <= usize::MAX,
    ensures
        r@.len() == 4 * size.x * size.y,
        size.x == width && size.y == height ==> r@ == samples@,
        width == 0 || height == 0 ==> forall|i: int| 0 <= i < r@.len() ==> r@[i] == 0,
{
    let picture = ImageBuffer::<Rgba<u16>, Vec<u16>>::from_raw(width, height, samples.clone()).unwrap();
    resize(&picture, size.x, size.y, FilterType::Lanczos3).into_raw()
}

/// The picture resampled to `size` with the Lanczos3 filter (see [`resize_rgba16`] for what is
/// stated of the samples).
pub fn resize_picture(picture: &RawImage, size: Vector2<u32>) -> (r: RawImage)
    requires
        picture.is_whole(),
        4 * picture.width * size.y <= usize::MAX,
        4 * size.x * size.y <= usize::MAX,
    ensures
        r.width == size.x,
        r.height == size.y,
        r.is_whole(),
        size.x == picture.width && size.y == picture.height ==> r.samples@ == picture.samples@,
{
    let samples = resize_rgba16(&picture.samples, picture.width, picture.height, size);
    RawImage { width: size.x, height: size.y, samples }
}

/// A 16-bit sample as an 8-bit one, rounded to the nearest: `round(c * 255 / 65535)`, which
/// the image crate computes as `(c + 128) / 257`.
pub open spec fn to_u8(c: u16) -> u8 {
    ((c as int + 128) / 257) as u8
}

/// Sample `i` of the 8-bit RGB picture made from the 16-bit RGBA samples `s`: the red, green or
/// blue sample of the same pixel, converted to 8 bits; opacity is dropped.
pub open spec fn rgb8_sample(s: Seq<u16>, i: int) -> u8 {
    to_u8(s[4 * (i / 3) + i % 3])
}

/// The 8-bit RGB samples of the first `pixels` pixels of the 16-bit RGBA samples `s`.
pub open spec fn rgb8_of(s: Seq<u16>, pixels: nat) -> Seq<u8> {
    Seq::new(3 * pixels, |i: int| rgb8_sample(s, i))
}

/// The 16-bit RGBA samples as 8-bit RGB samples, pixel by pixel, as `DynamicImage::into_rgb8`
/// of the image crate converts them: each colour sample rounded to 8 bits, opacity dropped.
fn to_rgb8(samples: &Vec<u16>) -> (r: Vec<u8>)
    requires
        samples@.len() % 4 == 0,
    ensures
        r@ == rgb8_of(samples@, samples@.len() / 4),
{
    let total = samples.len();
    let n = total / 4;
    let mut out: Vec<u8> = Vec::new();
    let mut p: usize = 0;
    while p < n
        invariant
            n == samples@.len() / 4,
            total == samples@.len(),
            samples@.len() % 4 == 0,
            p <= n,
            out@.len() == 3 * p,
            forall|i: int| 0 <= i < 3 * p ==> out@[i] == #[trigger] rgb8_sample(samples@, i),
        decreases n - p,
    {
        assert(4 * p + 4 <= samples@.len()) by {
            vstd::arithmetic::div_mod::lemma_fundamental_div_mod(samples@.len() as int, 4);
        }
        let base = 4 * p;
        let red = samples[base];
        let green = samples[base + 1];
        let blue = samples[base + 2];
        out.push(((red as u32 + 128) / 257) as u8);
        out.push(((green as u32 + 128) / 257) as u8);
        out.push(((blue as u32 + 128) / 257) as u8);
        assert forall|i: int| 3 * p <= i < 3 * p + 3 implies out@[i] == #[trigger] rgb8_sample(samples@, i) by {
            assert(i / 3 == p && i % 3 == i - 3 * p);
        }
        p += 1;
    }
    assert(out@ =~= rgb8_of(samples@, samples@.len() / 4));
    out
}

/// The 8-bit picture keeps every pixel in its place: its pixel at column `x` and row `y` of a
/// picture `width` pixels wide is the 8-bit conversion of the pixel at the same column and row.
pub proof fn lemma_rgb8_keeps_positions(s: Seq<u16>, width: nat, height: nat, x: nat, y: nat, c: nat)
    requires
        s.len() == 4 * width * height,
        x < width,
        y < height,
        c < 3,
    ensures
        rgb8_of(s, width * height).len() == 3 * width * height,
        rgb8_of(s, width * height)[3 * (y * width + x) + c as int] == to_u8(s[4 * (y * width + x) + c as int]),
{
    let p = y * width + x;
    assert(p < width * height) by (nonlinear_arith)
        requires
            x < width,
            y < height,
            p == y * width + x,
    ;
    assert((3 * p + c) / 3 == p && (3 * p + c) % 3 == c) by (nonlinear_arith)
        requires
            c < 3,
            p >= 0,
    ;
    assert(3 * (width * height) == 3 * width * height) by (nonlinear_arith);
}

/// What the image crate writes for an 8-bit RGB picture encoded as PNG: whether writing
/// succeeded, and the bytes written.
pub uninterp spec fn png_rgb8(width: u32, height: u32, rgb: Seq<u8>) -> (bool, Seq<u8>);

/// `ImageBuffer::from_raw` and `ImageBuffer::write_to` with `ImageFormat::Png` from the image
/// crate: the 8-bit RGB picture as a PNG, and whether writing succeeded. The bytes are named,
/// not spelled out.
#[verifier::external_body]
fn encode_png_rgb8(width: u32, height: u32, rgb: Vec<u8>) -> (r: (bool, Vec<u8>))
    requires
        rgb@.len() == 3 * width * height,
    ensures
        (r.0, r.1@) == png_rgb8(width, height, rgb@),
{
    let picture = ImageBuffer::<Rgb<u8>, Vec<u8>>::from_raw(width, height, rgb).unwrap();
    let mut bytes: Vec<u8> = Vec::new();
    let written = picture.write_to(&mut Cursor::new(&mut bytes), ImageFormat::Png).is_ok();
    (written, bytes)
}

/// The finished spray: the picture after the opacity bound `bound` (see
/// [`apply_opacity_bound`]), converted pixel by pixel to 8-bit RGB (see [`rgb8_of`]) and
/// written as a PNG, with whether writing it succeeded.
pub fn finish_spray(image: RawImage, bound: u16) -> (r: (bool, Vec<u8>))
    requires
        image.is_whole(),
    ensures
        (r.0, r.1@) == png_rgb8(
            image.width,
            image.height,
            rgb8_of(bounded_samples(image.samples@, bound), (image.width * image.height) as nat),
        ),
{
    let RawImage { width, height, mut samples } = image;
    apply_opacity_bound(&mut samples, bound);
    let ghost n: nat = (width * height) as nat;
    assert(samples@.len() == 4 * n && samples@.len() % 4 == 0 && samples@.len() / 4 == n) by (nonlinear_arith)
        requires
            samples@.len() == 4 * width * height,
            n == width * height,
    ;
    let rgb = to_rgb8(&samples);
    assert(rgb@.len() == 3 * width * height) by (nonlinear_arith)
        requires
            rgb@.len() == 3 * n,
            n == width * height,
    ;
    encode_png_rgb8(width, height, rgb)
}

} // verus!
