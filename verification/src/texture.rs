//! Textures: what colour a surface has at a point.

use vstd::prelude::*;
use crate::scalar::Scalar;
use crate::vec3::Vec3;

verus! {

#[derive(Clone, Copy, Debug, PartialEq, Eq, Structural)]
pub struct SolidColor {
    pub color_value: Vec3,
}

/// A three-dimensional checker pattern of two textures.
pub struct CheckerTexture {
    pub odd: Box<Texture>,
    pub even: Box<Texture>,
}

/// Marbled gradient noise: `noise` is a handle into the caller's table of noise
/// lattices.
#[derive(Clone, Copy, Debug, PartialEq, Eq, Structural)]
pub struct NoiseTexture {
    pub noise: usize,
    pub scale: Scalar,
}

/// A decoded image: an `image::RgbImage`, kept whole and read through the
/// functions below.
#[verifier::external_body]
pub struct Raster {
    data: image::RgbImage,
}

/// The rows of a raster from the top, each row its pixels from the left, each
/// pixel its red, green and blue channel.
pub uninterp spec fn raster_rows(img: Raster) -> Seq<Seq<(u8, u8, u8)>>;

/// The number of pixels in each row of a raster.
pub uninterp spec fn raster_width(img: Raster) -> int;

/// A decoded image, sampled at the nearest pixel.
pub struct ImageTexture {
    pub data: Raster,
    pub width: usize,
    pub height: usize,
}

pub enum Texture {
    Solid(SolidColor),
    Checker(CheckerTexture),
    Noise(NoiseTexture),
    Image(ImageTexture),
}

impl SolidColor {
    pub fn new(color_value: Vec3) -> (r: SolidColor)
        ensures
            r.color_value == color_value,
    {
        SolidColor { color_value }
    }

    pub fn new_rgb(red: Scalar, green: Scalar, blue: Scalar) -> (r: Vec3)
        ensures
            r == (Vec3 { x: red, y: green, z: blue }),
    {
        Vec3::new(red, green, blue)
    }

    pub fn value(&self) -> (r: Vec3)
        ensures
            r == self.color_value,
    {
        self.color_value
    }
}

impl NoiseTexture {
    pub fn new(noise: usize, scale: Scalar) -> (r: NoiseTexture)
        ensures
            r == (NoiseTexture { noise, scale }),
    {
        NoiseTexture { noise, scale }
    }
}

impl CheckerTexture {
    pub fn new(even: Texture, odd: Texture) -> (r: CheckerTexture)
        ensures
            *r.even == even,
            *r.odd == odd,
    {
        CheckerTexture { odd: Box::new(odd), even: Box::new(even) }
    }

    pub fn new_rgb(even: Vec3, odd: Vec3) -> (r: CheckerTexture)
        ensures
            *r.even == Texture::Solid(SolidColor { color_value: even }),
            *r.odd == Texture::Solid(SolidColor { color_value: odd }),
    {
        CheckerTexture {
            odd: Box::new(Texture::Solid(SolidColor::new(odd))),
            even: Box::new(Texture::Solid(SolidColor::new(even))),
        }
    }

    /// The texture of the cell in which a point lies. `sines` is the product of
    /// the sines of the point's scaled coordinates: the odd texture where it is
    /// negative, the even one otherwise.
    pub fn value(&self, sines: Scalar) -> (r: &Texture)
        ensures
            *r == if sines.num_lt(Scalar { key: 0 }) {
                *self.odd
            } else {
                *self.even
            },
    {
        if sines.lt(&Scalar::zero()) {
            &*self.odd
        } else {
            &*self.even
        }
    }
}

impl Texture {
    /// The texture that colours a point after every checker pattern on the way
    /// has chosen its cell.
    pub open spec fn resolved(&self, sines: Scalar) -> Texture
        decreases self,
    {
        match self {
            Texture::Checker(c) => if sines.num_lt(Scalar { key: 0 }) {
                c.odd.resolved(sines)
            } else {
                c.even.resolved(sines)
            },
            _ => *self,
        }
    }

    /// Follows checker patterns down to a texture that is none.
    pub fn resolve(&self, sines: Scalar) -> (r: &Texture)
        ensures
            *r == self.resolved(sines),
            !(*r is Checker),
        decreases self,
    {
        match self {
            Texture::Checker(c) => c.value(sines).resolve(sines),
            _ => self,
        }
    }
}

/// The pixel that `data` holds for column `x` of row `y` of a raster `width`
/// wide: three bytes in a row, rows one after the other.
pub open spec fn packed_pixel(data: Seq<u8>, width: int, x: int, y: int) -> (u8, u8, u8) {
    let at = 3 * (y * width + x);
    (data[at], data[at + 1], data[at + 2])
}

/// A raster over packed bytes.
///
/// Trusted: the body is `ImageBuffer::from_raw`. The contract claims what its
/// source shows: the buffer is made exactly when `data` holds at least three
/// bytes for each of `width * height` pixels, it records the two sizes, and its
/// pixel in column `x` of row `y` is the three bytes from `3 * (y * width + x)`.
#[verifier::external_body]
fn raster_from_raw(width: u32, height: u32, data: Vec<u8>) -> (r: Option<Raster>)
    ensures
        r is Some <==> 3 * width * height <= data@.len(),
        r is Some ==> raster_width(r->Some_0) == width && raster_rows(r->Some_0).len() == height,
        r is Some ==> forall|x: int, y: int|
            0 <= x < width && 0 <= y < height ==> (#[trigger] raster_rows(r->Some_0)[y]).len()
                == width && #[trigger] raster_rows(r->Some_0)[y][x] == packed_pixel(
                data@,
                width as int,
                x,
                y,
            ),
{
    match image::RgbImage::from_raw(width, height, data) {
        Some(img) => Some(Raster { data: img }),
        None => None,
    }
}

/// Width of a raster.
///
/// Trusted: the body is `ImageBuffer::width`, which returns the width the buffer
/// was made with.
#[verifier::external_body]
fn raster_columns(img: &Raster) -> (r: u32)
    ensures
        r == raster_width(*img),
{
    img.data.width()
}

/// Height of a raster.
///
/// Trusted: the body is `ImageBuffer::height`, which returns the number of rows
/// the buffer was made with.
#[verifier::external_body]
fn raster_lines(img: &Raster) -> (r: u32)
    ensures
        r == raster_rows(*img).len(),
{
    img.data.height()
}

/// One pixel of a raster.
///
/// Trusted: the body is `ImageBuffer::get_pixel`, which hands out the pixel in
/// column `x` of row `y` and panics outside the raster; the precondition keeps
/// the call inside. The three channels are copied out in order.
#[verifier::external_body]
fn raster_pixel(img: &Raster, x: u32, y: u32) -> (r: (u8, u8, u8))
    requires
        x < raster_width(*img),
        y < raster_rows(*img).len(),
    ensures
        r == raster_rows(*img)[y as int][x as int],
{
    let p = img.data.get_pixel(x, y);
    (p.0[0], p.0[1], p.0[2])
}

impl Default for ImageTexture {
    /// The texture over the image without pixels.
    fn default() -> (r: ImageTexture)
        ensures
            r.width == 0,
            r.height == 0,
            raster_width(r.data) == 0,
            raster_rows(r.data).len() == 0,
    {
        ImageTexture::new(0, 0, Vec::new()).unwrap()
    }
}

impl ImageTexture {
    /// The recorded size is the raster's own, and the raster has pixels.
    pub open spec fn well_formed(&self) -> bool {
        &&& self.width > 0
        &&& self.height > 0
        &&& self.width == raster_width(self.data)
        &&& self.height == raster_rows(self.data).len()
        &&& self.width <= u32::MAX
        &&& self.height <= u32::MAX
        &&& forall|y: int|
            0 <= y < self.height ==> (#[trigger] raster_rows(self.data)[y]).len() == self.width
    }

    /// The column or row nearest to `i` among `0 .. n`.
    pub open spec fn nearest_index(i: int, n: int) -> int {
        if i >= n {
            n - 1
        } else {
            i
        }
    }

    /// A texture over the packed bytes of a decoded image, three to the pixel,
    /// rows from the top. `None` where `data` is too short for the two sizes.
    pub fn new(width: u32, height: u32, data: Vec<u8>) -> (r: Option<ImageTexture>)
        ensures
            r is Some <==> 3 * width * height <= data@.len(),
            r is Some ==> {
                let t = r->Some_0;
                &&& t.width == width
                &&& t.height == height
                &&& raster_width(t.data) == width
                &&& raster_rows(t.data).len() == height
                &&& width > 0 && height > 0 ==> t.well_formed()
                &&& forall|x: int, y: int|
                    0 <= x < width && 0 <= y < height ==> #[trigger] raster_rows(t.data)[y][x]
                        == packed_pixel(data@, width as int, x, y)
            },
    {
        match raster_from_raw(width, height, data) {
            Some(raster) => {
                let w = raster_columns(&raster) as usize;
                let h = raster_lines(&raster) as usize;
                proof {
                    if width > 0 {
                        assert forall|y: int| 0 <= y < height implies (#[trigger] raster_rows(
                            raster,
                        )[y]).len() == width by {
                            assert(raster_rows(raster)[y][0] == packed_pixel(
                                data@,
                                width as int,
                                0,
                                y,
                            ));
                        }
                    }
                }
                Some(ImageTexture { data: raster, width: w, height: h })
            },
            None => None,
        }
    }

    /// Nearest-sample lookup. `i` and `j` are the column and row that the surface
    /// coordinates scale to; one past the last is drawn back onto the last.
    pub fn value(&self, i: usize, j: usize) -> (r: (u8, u8, u8))
        requires
            self.well_formed(),
        ensures
            r == raster_rows(self.data)[Self::nearest_index(j as int, self.height as int)][Self::nearest_index(
                i as int,
                self.width as int,
            )],
    {
        let i = if i >= self.width {
            self.width - 1
        } else {
            i
        };
        let j = if j >= self.height {
            self.height - 1
        } else {
            j
        };
        raster_pixel(&self.data, i as u32, j as u32)
    }
}

} // verus!
