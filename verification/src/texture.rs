use vstd::prelude::*;

verus! {

/// What the `image` crate decodes from the file contents `bytes` in the
/// format that the file extension `ext` names, converted to 8-bit RGB: the
/// width, the height and the row-major channel bytes; `None` when `ext` names
/// no format or the bytes do not decode.
pub uninterp spec fn decoded_rgb8(bytes: Seq<u8>, ext: Seq<char>) -> Option<(u32, u32, Seq<u8>)>;

/// Calls `image::ImageFormat::from_extension` on `ext`, then
/// `image::load_from_memory_with_format` on `bytes` in that format, then
/// `DynamicImage::to_rgb8`, and hands out the width, height and raw bytes.
///
/// Claimed: the result is `decoded_rgb8(bytes, ext)` (a function of the two
/// arguments alone), `None` exactly when the extension names no format or
/// decoding fails, and the raw buffer holds at least three bytes per pixel
/// (every constructor of `image::ImageBuffer` checks that its buffer is long
/// enough). Not stated: which pixels a given file decodes to.
#[verifier::external_body]
fn load_rgb8(bytes: &[u8], ext: &str) -> (r: Option<(u32, u32, Vec<u8>)>)
    ensures
        r is None <==> decoded_rgb8(bytes@, ext@) is None,
        r matches Some(t) ==> decoded_rgb8(bytes@, ext@) == Some((t.0, t.1, t.2@)),
        r matches Some(t) ==> 3 * t.0 * t.1 <= t.2@.len(),
{
    let format = image::ImageFormat::from_extension(ext)?;
    let image = image::load_from_memory_with_format(bytes, format).ok()?.to_rgb8();
    let (width, height) = image.dimensions();
    Some((width, height, image.into_raw()))
}

/// A decoded image: `width` x `height` pixels of three 8-bit channels (red,
/// green, blue), row after row.
#[derive(Debug)]
pub struct RgbPixels {
    width: u32,
    height: u32,
    data: Vec<u8>,
}

impl View for RgbPixels {
    type V = (u32, u32, Seq<u8>);

    closed spec fn view(&self) -> (u32, u32, Seq<u8>) {
        (self.width, self.height, self.data@)
    }
}

/// The three channels of pixel `(x, y)` of an image of width `width` whose
/// channel bytes are `data`.
pub open spec fn pixel_at(data: Seq<u8>, width: u32, x: u32, y: u32) -> Seq<u8> {
    let k = 3 * (y * width + x);
    data.subrange(k, k + 3)
}

proof fn lemma_pixel_in_image(x: int, y: int, w: int, h: int)
    by (nonlinear_arith)
    requires
        0 <= x < w,
        0 <= y < h,
    ensures
        0 <= 3 * (y * w + x),
        3 * (y * w + x) + 3 <= 3 * w * h,
{
}

impl Clone for RgbPixels {
    fn clone(&self) -> (r: Self)
        ensures
            r@ == self@,
    {
        proof {
            use_type_invariant(self);
        }
        let mut data: Vec<u8> = Vec::new();
        let n: usize = self.data.len();
        let mut i: usize = 0;
        while i < n
            invariant
                n == self.data@.len(),
                0 <= i <= n,
                data@ == self.data@.subrange(0, i as int),
            decreases n - i,
        {
            data.push(self.data[i]);
            i = i + 1;
            assert(data@ == self.data@.subrange(0, i as int));
        }
        assert(data@ == self.data@);
        RgbPixels { width: self.width, height: self.height, data }
    }
}

impl RgbPixels {
    #[verifier::type_invariant]
    closed spec fn inv(self) -> bool {
        3 * self.width * self.height <= self.data@.len()
    }

    /// The width and the height.
    pub fn dimensions(&self) -> (d: (u32, u32))
        ensures
            d == (self@.0, self@.1),
    {
        (self.width, self.height)
    }

    /// The red, green and blue channels of pixel `(x, y)`.
    pub fn pixel(&self, x: u32, y: u32) -> (px: [u8; 3])
        requires
            x < self@.0,
            y < self@.1,
        ensures
            px@ == pixel_at(self@.2, self@.0, x, y),
    {
        proof {
            use_type_invariant(self);
            lemma_pixel_in_image(x as int, y as int, self.width as int, self.height as int);
        }
        let n: usize = self.data.len();
        assert(y * self.width <= 3 * (y * self.width + x));
        let k: usize = 3 * (y as usize * self.width as usize + x as usize);
        let px: [u8; 3] = [self.data[k], self.data[k + 1], self.data[k + 2]];
        assert(px@ =~= pixel_at(self@.2, self@.0, x, y));
        px
    }
}

/// Decodes the contents `bytes` of an image file whose extension is `ext`
/// (`jpg`, `png`, ...) into 8-bit RGB pixels: `None` when the extension names
/// no format or the bytes do not decode.
pub fn decode_rgb8(bytes: &[u8], ext: &str) -> (r: Option<RgbPixels>)
    ensures
        r is None <==> decoded_rgb8(bytes@, ext@) is None,
        r matches Some(p) ==> decoded_rgb8(bytes@, ext@) == Some(p@),
{
    match load_rgb8(bytes, ext) {
        Some((width, height, data)) => Some(RgbPixels { width, height, data }),
        None => None,
    }
}

} // verus!
