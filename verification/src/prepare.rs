//! Fitting an image to the square model input.
//!
//! The image is resized so that its longer side becomes the input size, and
//! placed at the top-left corner of the square canvas; padding is added at
//! the bottom and at the right only. That is what lets a single factor,
//! without an offset, map model coordinates back to the image.

use vstd::prelude::*;
use crate::INPUT_SIZE;

verus! {

/// The factor that maps model-space coordinates back to the source image:
/// `longer_side / input_size`, kept as an exact fraction.
#[derive(Debug, Clone, Copy, PartialEq, Eq, Structural)]
pub struct ResizeScale {
    pub longer_side: u32,
    pub input_size: u32,
}

/// Width and height of the resized image: the longer side becomes the input
/// size, the shorter one shrinks in proportion, rounded down.
pub open spec fn resized_dimensions(input_width: u32, input_height: u32) -> (int, int) {
    if input_width > input_height {
        (INPUT_SIZE as int, (INPUT_SIZE * input_height) / (input_width as int))
    } else {
        ((INPUT_SIZE * input_width) / (input_height as int), INPUT_SIZE as int)
    }
}

/// How an image of the given size is fitted to the model input: the size to
/// resize it to, and the scale that undoes the resizing. An image without
/// pixels in either direction cannot be fitted.
pub fn letterbox(input_width: u32, input_height: u32) -> (r: Option<(u32, u32, ResizeScale)>)
    ensures
        match r {
            Some((width, height, scale)) => {
                &&& (input_width > 0 || input_height > 0)
                &&& (width as int, height as int) == resized_dimensions(input_width, input_height)
                &&& width <= INPUT_SIZE && height <= INPUT_SIZE
                &&& scale.input_size == INPUT_SIZE
                &&& scale.longer_side == if input_width > input_height {
                    input_width
                } else {
                    input_height
                }
            },
            None => input_width == 0 && input_height == 0,
        },
{
    if input_width == 0 && input_height == 0 {
        return None;
    }
    let size: u64 = INPUT_SIZE as u64;
    assert(size == 640);
    if input_width > input_height {
        let scaled: u64 = 640 * (input_height as u64);
        assert(scaled == INPUT_SIZE * input_height);
        let height: u64 = scaled / input_width as u64;
        assert(height <= 640) by (nonlinear_arith)
            requires
                height == scaled / (input_width as u64),
                scaled == 640 * input_height,
                0 <= input_height < input_width,
        ;
        Some(
            (
                INPUT_SIZE,
                height as u32,
                ResizeScale { longer_side: input_width, input_size: INPUT_SIZE },
            ),
        )
    } else {
        let scaled: u64 = 640 * (input_width as u64);
        assert(scaled == INPUT_SIZE * input_width);
        let width: u64 = scaled / input_height as u64;
        assert(width <= 640) by (nonlinear_arith)
            requires
                width == scaled / (input_height as u64),
                scaled == 640 * input_width,
                0 <= input_width <= input_height,
                0 < input_height,
        ;
        Some(
            (
                width as u32,
                INPUT_SIZE,
                ResizeScale { longer_side: input_height, input_size: INPUT_SIZE },
            ),
        )
    }
}

/// One channel of interleaved three-channel pixels, in pixel order.
fn channel_plane<T: Copy>(pixels: &[T], c: usize, planes: &mut Vec<T>)
    requires
        pixels.len() % 3 == 0,
        c < 3,
    ensures
        final(planes).len() == old(planes).len() + pixels.len() / 3,
        forall|k: int| 0 <= k < old(planes).len() ==> final(planes)[k] == old(planes)[k],
        forall|i: int|
            0 <= i < pixels.len() / 3 ==> #[trigger] final(planes)[old(planes).len() + i]
                == pixels[3 * i + c],
{
    let n = pixels.len() / 3;
    let ghost before = planes@;
    for i in 0..n
        invariant
            n == pixels.len() / 3,
            pixels.len() % 3 == 0,
            c < 3,
            planes.len() == before.len() + i,
            forall|k: int| 0 <= k < before.len() ==> planes[k] == before[k],
            forall|k: int| 0 <= k < i ==> #[trigger] planes[before.len() + k] == pixels[3 * k + c],
    {
        planes.push(pixels[3 * i + c]);
    }
}

/// Splits interleaved three-channel pixels into three planes laid end to
/// end: first every pixel's first channel, then every pixel's second, then
/// every pixel's third, each plane in pixel order. Refused when the buffer is
/// not a whole number of pixels.
pub fn planar_from_interleaved<T: Copy>(pixels: &[T]) -> (r: Option<Vec<T>>)
    ensures
        match r {
            Some(planes) => {
                &&& pixels.len() % 3 == 0
                &&& planes.len() == pixels.len()
                &&& forall|i: int|
                    0 <= i < pixels.len() / 3 ==> {
                        &&& #[trigger] planes[i] == pixels[3 * i]
                        &&& planes[pixels.len() / 3 + i] == pixels[3 * i + 1]
                        &&& planes[2 * (pixels.len() / 3) + i] == pixels[3 * i + 2]
                    }
            },
            None => pixels.len() % 3 != 0,
        },
{
    if pixels.len() % 3 != 0 {
        return None;
    }
    let ghost n = pixels.len() as int / 3;
    let mut planes: Vec<T> = Vec::new();
    channel_plane(pixels, 0, &mut planes);
    channel_plane(pixels, 1, &mut planes);
    channel_plane(pixels, 2, &mut planes);
    proof {
        assert forall|i: int| 0 <= i < n implies {
            &&& #[trigger] planes[i] == pixels[3 * i]
            &&& planes[n + i] == pixels[3 * i + 1]
            &&& planes[2 * n + i] == pixels[3 * i + 2]
        } by {
            assert(planes[0 + i] == pixels[3 * i + 0]);
            assert(planes[n + n + i] == pixels[3 * i + 2]);
        }
    }
    Some(planes)
}

/// What resizing an RGB image with a triangle filter gives: the interleaved
/// pixels of the `new_width` by `new_height` image.
pub uninterp spec fn resized_rgb(
    pixels: Seq<u8>,
    width: u32,
    height: u32,
    new_width: u32,
    new_height: u32,
) -> Seq<u8>;

/// Calls `image::imageops::resize` with `FilterType::Triangle` on the RGB
/// image that the interleaved pixels make up. Trusted: the result is an image
/// of exactly the dimensions asked for, and it depends on nothing but the
/// pixels and the four dimensions. The source must have pixels and the buffer
/// must hold exactly its pixels, since the image crate's sampling indexes the
/// source; the new dimensions are bounded so that the result can be allocated.
#[verifier::external_body]
fn resize_triangle(pixels: &[u8], width: u32, height: u32, new_width: u32, new_height: u32) -> (out:
    Vec<u8>)
    requires
        width > 0,
        height > 0,
        pixels.len() == width * height * 3,
        new_width <= INPUT_SIZE,
        new_height <= INPUT_SIZE,
    ensures
        out@ == resized_rgb(pixels@, width, height, new_width, new_height),
        out.len() == new_width * new_height * 3,
{
    let source = image::RgbImage::from_raw(width, height, pixels.to_vec()).unwrap();
    let filter = image::imageops::FilterType::Triangle;
    image::imageops::resize(&source, new_width, new_height, filter).into_raw()
}

/// One channel value of the square canvas: the resized image where it
/// reaches, black below and to the right of it.
pub open spec fn canvas_value(resized: Seq<u8>, width: int, height: int, x: int, y: int, c: int) -> u8 {
    if x < width && y < height {
        resized[(y * width + x) * 3 + c]
    } else {
        0
    }
}

/// The interleaved pixels of the square canvas with the resized image in
/// its top-left corner.
pub open spec fn canvas_of(resized: Seq<u8>, width: int, height: int) -> Seq<u8> {
    Seq::new(
        (INPUT_SIZE * INPUT_SIZE * 3) as nat,
        |k: int| canvas_value(resized, width, height, (k / 3) % 640, (k / 3) / 640, k % 3),
    )
}

/// Places a resized image in the top-left corner of a black square canvas of
/// the model's input size.
pub fn place_on_canvas(resized: &[u8], width: u32, height: u32) -> (canvas: Vec<u8>)
    requires
        width <= INPUT_SIZE,
        height <= INPUT_SIZE,
        resized.len() == width * height * 3,
    ensures
        canvas@ == canvas_of(resized@, width as int, height as int),
{
    assert(INPUT_SIZE == 640);
    let mut canvas: Vec<u8> = Vec::new();
    let (w, h) = (width as usize, height as usize);
    for p in 0..409600usize
        invariant
            w == width,
            h == height,
            w <= 640,
            h <= 640,
            resized.len() == w * h * 3,
            canvas.len() == 3 * p,
            forall|k: int|
                0 <= k < 3 * p ==> #[trigger] canvas[k] == canvas_value(
                    resized@,
                    w as int,
                    h as int,
                    (k / 3) % 640,
                    (k / 3) / 640,
                    k % 3,
                ),
    {
        let x: usize = p % 640;
        let y: usize = p / 640;
        if x < w && y < h {
            assert(y * w + x < w * h && y * w <= 640 * 640) by (nonlinear_arith)
                requires
                    0 <= x < w,
                    0 <= y < h,
                    w <= 640,
                    h <= 640,
            ;
            assert((w * h) * 3 == w * h * 3);
            let at: usize = (y * w + x) * 3;
            canvas.push(resized[at]);
            canvas.push(resized[at + 1]);
            canvas.push(resized[at + 2]);
        } else {
            canvas.push(0);
            canvas.push(0);
            canvas.push(0);
        }
    }
    assert(canvas@ =~= canvas_of(resized@, width as int, height as int));
    canvas
}

/// The longer side of an image.
pub open spec fn longer_side(width: u32, height: u32) -> u32 {
    if width > height {
        width
    } else {
        height
    }
}

/// The three planes that go into the model, before normalising: the resized
/// image on its canvas, split by channel.
pub open spec fn model_planes(pixels: Seq<u8>, width: u32, height: u32) -> Seq<u8> {
    let (w, h) = resized_dimensions(width, height);
    let canvas = canvas_of(resized_rgb(pixels, width, height, w as u32, h as u32), w, h);
    Seq::new(
        canvas.len(),
        |k: int| canvas[3 * (k % 409600) + k / 409600],
    )
}

/// Prepares an RGB image for the model: it is resized so that its longer
/// side becomes the input size, placed in the top-left corner of a black
/// square canvas, and split into a red, a green and a blue plane laid end to
/// end. Comes with the scale that maps model coordinates back to the image.
/// Refused when the image has no pixels or the buffer does not hold exactly
/// its pixels.
pub fn pre_process_image(pixels: &[u8], width: u32, height: u32) -> (r: Option<
    (Vec<u8>, ResizeScale),
>)
    ensures
        match r {
            Some((planes, scale)) => {
                &&& width > 0 && height > 0 && pixels.len() == width * height * 3
                &&& planes@ == model_planes(pixels@, width, height)
                &&& scale == (ResizeScale {
                    longer_side: longer_side(width, height),
                    input_size: INPUT_SIZE,
                })
            },
            None => width == 0 || height == 0 || pixels.len() != width * height * 3,
        },
{
    if width == 0 || height == 0 {
        return None;
    }
    assert(width * height <= 0xffff_ffff * 0xffff_ffff) by (nonlinear_arith)
        requires
            width <= 0xffff_ffff,
            height <= 0xffff_ffff,
    ;
    let need: u128 = (width as u128 * height as u128) * 3;
    if pixels.len() as u128 != need {
        return None;
    }
    let (new_width, new_height, scale) = match letterbox(width, height) {
        Some(fit) => fit,
        None => {
            return None;
        },
    };
    let resized = resize_triangle(pixels, width, height, new_width, new_height);
    let canvas = place_on_canvas(resized.as_slice(), new_width, new_height);
    match planar_from_interleaved(canvas.as_slice()) {
        Some(planes) => {
            proof {
                assert(INPUT_SIZE == 640);
                let want = model_planes(pixels@, width, height);
                assert(canvas.len() == 3 * 409600);
                assert forall|k: int| 0 <= k < planes.len() implies planes[k] == want[k] by {
                    let i = k % 409600;
                    assert(#[trigger] planes[i] == canvas[3 * i]);
                }
                assert(planes@ =~= want);
            }
            Some((planes, scale))
        },
        None => None,
    }
}

} // verus!
