//! The framebuffer that render workers fill, held in a `bmp::Image`.

use vstd::prelude::*;
use crate::schedule::{rows_of, worker_rows, lemma_rows_partition, lemma_rows_ascending};

verus! {

#[verifier::external_type_specification]
#[verifier::external_body]
pub struct ExImage(bmp::Image);

#[verifier::external_type_specification]
pub struct ExPixel(bmp::Pixel);

/// The pixels of an image, by `(x, y)` with `(0, 0)` the top left corner,
/// as red, green and blue bytes.
pub uninterp spec fn image_pixels(img: bmp::Image) -> Map<(u32, u32), (u8, u8, u8)>;

/// The pixel coordinates of a `width` by `height` image.
pub open spec fn image_coords(width: nat, height: nat) -> Set<(u32, u32)> {
    Set::new(|p: (u32, u32)| p.0 < width && p.1 < height)
}

/// The sizes for which `bmp::Image::new` computes its pixel count and its
/// file size in `u32` without overflow.
pub open spec fn image_size_ok(width: nat, height: nat) -> bool {
    width <= 0x10_0000 && (3 * width + 8) * height + 54 <= u32::MAX
}

/// Relies on `bmp::Image::new`: an image of the given size, every pixel black.
#[verifier::external_body]
fn image_new(width: u32, height: u32) -> (r: bmp::Image)
    requires
        image_size_ok(width as nat, height as nat),
    ensures
        image_pixels(r).dom() == image_coords(width as nat, height as nat),
        forall|p: (u32, u32)|
            #[trigger] image_pixels(r).contains_key(p) ==> image_pixels(r)[p] == (0u8, 0u8, 0u8),
{
    bmp::Image::new(width, height)
}

/// Relies on `bmp::Image::set_pixel`: replaces the pixel at `(x, y)`, which
/// must lie inside the image.
#[verifier::external_body]
fn image_set_pixel(img: &mut bmp::Image, x: u32, y: u32, val: bmp::Pixel)
    requires
        image_pixels(*old(img)).contains_key((x, y)),
    ensures
        image_pixels(*final(img)) == image_pixels(*old(img)).insert((x, y), (val.r, val.g, val.b)),
{
    img.set_pixel(x, y, val)
}

/// Relies on `bmp::Image::get_pixel`: the pixel at `(x, y)`, which must lie
/// inside the image.
#[verifier::external_body]
fn image_get_pixel(img: &bmp::Image, x: u32, y: u32) -> (r: bmp::Pixel)
    requires
        image_pixels(*img).contains_key((x, y)),
    ensures
        (r.r, r.g, r.b) == image_pixels(*img)[(x, y)],
{
    img.get_pixel(x, y)
}

/// A displayable pixel colour: one byte per channel.
#[derive(Clone, Copy, Debug, PartialEq, Eq, Structural)]
pub struct PixelColour {
    pub r: u8,
    pub g: u8,
    pub b: u8,
}

impl PixelColour {
    pub open spec fn rgb(self) -> (u8, u8, u8) {
        (self.r, self.g, self.b)
    }

    pub fn new(r: u8, g: u8, b: u8) -> (p: PixelColour)
        ensures
            p.rgb() == (r, g, b),
    {
        PixelColour { r, g, b }
    }

    /// The same colour as a pixel of a `bmp::Image`.
    pub fn into_pixel(self) -> (p: bmp::Pixel)
        ensures
            p.r == self.r,
            p.g == self.g,
            p.b == self.b,
    {
        bmp::Pixel { r: self.r, g: self.g, b: self.b }
    }
}

/// A `width` by `height` grid of pixels.
pub struct Framebuffer {
    image: bmp::Image,
    width: u32,
    height: u32,
}

impl Framebuffer {
    pub closed spec fn spec_width(&self) -> nat {
        self.width as nat
    }

    pub closed spec fn spec_height(&self) -> nat {
        self.height as nat
    }

    /// The pixels, by `(x, y)` with `(0, 0)` the top left corner.
    pub closed spec fn pixels(&self) -> Map<(u32, u32), (u8, u8, u8)> {
        image_pixels(self.image)
    }

    /// The pixels are exactly those inside the width and height.
    pub open spec fn wf(&self) -> bool {
        self.pixels().dom() == image_coords(self.spec_width(), self.spec_height())
    }

    /// A black framebuffer of the given size.
    pub fn new(width: u32, height: u32) -> (r: Framebuffer)
        requires
            image_size_ok(width as nat, height as nat),
        ensures
            r.wf(),
            r.spec_width() == width,
            r.spec_height() == height,
            forall|p: (u32, u32)|
                #[trigger] r.pixels().contains_key(p) ==> r.pixels()[p] == (0u8, 0u8, 0u8),
    {
        Framebuffer { image: image_new(width, height), width, height }
    }

    pub fn width(&self) -> (r: u32)
        ensures
            r == self.spec_width(),
    {
        self.width
    }

    pub fn height(&self) -> (r: u32)
        ensures
            r == self.spec_height(),
    {
        self.height
    }

    /// Writes the pixel at `(x, y)`.
    pub fn set_pixel(&mut self, x: u32, y: u32, colour: PixelColour)
        requires
            old(self).wf(),
            x < old(self).spec_width(),
            y < old(self).spec_height(),
        ensures
            final(self).wf(),
            final(self).spec_width() == old(self).spec_width(),
            final(self).spec_height() == old(self).spec_height(),
            final(self).pixels() == old(self).pixels().insert((x, y), colour.rgb()),
    {
        assert(image_coords(self.width as nat, self.height as nat).contains((x, y)));
        image_set_pixel(&mut self.image, x, y, colour.into_pixel());
        assert(self.pixels().dom() =~= image_coords(self.width as nat, self.height as nat));
    }

    /// The pixel at `(x, y)`.
    pub fn get_pixel(&self, x: u32, y: u32) -> (r: PixelColour)
        requires
            self.wf(),
            x < self.spec_width(),
            y < self.spec_height(),
        ensures
            r.rgb() == self.pixels()[(x, y)],
    {
        assert(image_coords(self.width as nat, self.height as nat).contains((x, y)));
        let p = image_get_pixel(&self.image, x, y);
        PixelColour { r: p.r, g: p.g, b: p.b }
    }

    /// Writes `self.spec_width()` pixels of `block`, from index `start` on,
    /// as row `y`, left to right.
    fn write_row(&mut self, y: u32, block: &Vec<PixelColour>, start: usize)
        requires
            old(self).wf(),
            y < old(self).spec_height(),
            start + old(self).spec_width() <= block.len(),
        ensures
            final(self).wf(),
            final(self).spec_width() == old(self).spec_width(),
            final(self).spec_height() == old(self).spec_height(),
            forall|x: u32|
                x < old(self).spec_width() ==> #[trigger] final(self).pixels()[(x, y)]
                    == block@[start + x].rgb(),
            forall|p: (u32, u32)|
                p.1 != y && #[trigger] old(self).pixels().contains_key(p) ==> final(self).pixels()[p]
                    == old(self).pixels()[p],
    {
        let mut x: u32 = 0;
        while x < self.width
            invariant
                self.wf(),
                self.spec_width() == old(self).spec_width(),
                self.spec_height() == old(self).spec_height(),
                y < self.spec_height(),
                x <= self.spec_width(),
                start + self.spec_width() <= block.len(),
                forall|i: u32| i < x ==> #[trigger] self.pixels()[(i, y)] == block@[start + i].rgb(),
                forall|p: (u32, u32)|
                    p.1 != y && #[trigger] old(self).pixels().contains_key(p) ==> self.pixels()[p]
                        == old(self).pixels()[p],
            decreases self.spec_width() - x,
        {
            let colour = block[start + x as usize];
            self.set_pixel(x, y, colour);
            x = x + 1;
        }
    }

    /// The framebuffer that the rows rendered by `workers` workers make up.
    /// Worker `w` hands over, as `blocks[w]`, the pixels of the rows
    /// `rows_of(height, workers, w)` one after another, each row left to
    /// right; by the row partitioning every pixel comes from exactly one
    /// worker and is written once.
    pub fn assemble(width: u32, height: u32, workers: u32, blocks: &Vec<Vec<PixelColour>>) -> (r:
        Framebuffer)
        requires
            image_size_ok(width as nat, height as nat),
            0 < workers,
            blocks.len() == workers,
            forall|w: int|
                0 <= w < workers ==> #[trigger] blocks@[w].len() == rows_of(
                    height as nat,
                    workers as nat,
                    w as nat,
                ).len() * width,
        ensures
            r.wf(),
            r.spec_width() == width,
            r.spec_height() == height,
            forall|w: int, k: int, x: u32|
                0 <= w < workers && 0 <= k < rows_of(height as nat, workers as nat, w as nat).len()
                    && x < width ==> #[trigger] r.pixels()[(
                    x,
                    rows_of(height as nat, workers as nat, w as nat)[k],
                )] == blocks@[w]@[k * width + x].rgb(),
            forall|x: u32, y: u32|
                x < width && y < height ==> #[trigger] r.pixels()[(x, y)] == blocks@[(y
                    % workers) as int]@[rows_of(height as nat, workers as nat, (y % workers) as nat).index_of(y)
                    * width + x].rgb(),
    {
        let mut fb = Framebuffer::new(width, height);
        let mut w: u32 = 0;
        while w < workers
            invariant
                fb.wf(),
                fb.spec_width() == width,
                fb.spec_height() == height,
                w <= workers,
                blocks.len() == workers,
                forall|v: int|
                    0 <= v < workers ==> #[trigger] blocks@[v].len() == rows_of(
                        height as nat,
                        workers as nat,
                        v as nat,
                    ).len() * width,
                forall|v: int, k: int, x: u32|
                    0 <= v < w && 0 <= k < rows_of(height as nat, workers as nat, v as nat).len()
                        && x < width ==> #[trigger] fb.pixels()[(
                        x,
                        rows_of(height as nat, workers as nat, v as nat)[k],
                    )] == blocks@[v]@[k * width + x].rgb(),
            decreases workers - w,
        {
            let rows = worker_rows(height, workers, w);
            let block = &blocks[w as usize];
            proof {
                lemma_rows_ascending(height as nat, workers as nat, w as nat);
            }
            let mut k: usize = 0;
            while k < rows.len()
                invariant
                    fb.wf(),
                    fb.spec_width() == width,
                    fb.spec_height() == height,
                    w < workers,
                    k <= rows.len(),
                    blocks.len() == workers,
                    rows@ == rows_of(height as nat, workers as nat, w as nat),
                    *block == blocks@[w as int],
                    block.len() == rows.len() * width,
                    forall|i: int| 0 <= i < rows.len() ==> rows@[i] < height,
                    forall|i: int, j: int| 0 <= i < j < rows.len() ==> rows@[i] < rows@[j],
                    forall|v: int|
                        0 <= v < workers ==> #[trigger] blocks@[v].len() == rows_of(
                            height as nat,
                            workers as nat,
                            v as nat,
                        ).len() * width,
                    forall|v: int, j: int, x: u32|
                        0 <= v < w && 0 <= j < rows_of(height as nat, workers as nat, v as nat).len()
                            && x < width ==> #[trigger] fb.pixels()[(
                            x,
                            rows_of(height as nat, workers as nat, v as nat)[j],
                        )] == blocks@[v]@[j * width + x].rgb(),
                    forall|j: int, x: u32|
                        0 <= j < k && x < width ==> #[trigger] fb.pixels()[(x, rows@[j])]
                            == block@[j * width + x].rgb(),
                decreases rows.len() - k,
            {
                let y = rows[k];
                assert(k * width + width <= rows.len() * width) by (nonlinear_arith)
                    requires
                        k < rows.len(),
                ;
                let start = k * width as usize;
                let ghost before = fb.pixels();
                assert(rows@[k as int] == y);
                fb.write_row(y, block, start);
                proof {
                    lemma_rows_partition(height, workers, y);
                    assert forall|v: int, j: int, x: u32|
                        0 <= v < w && 0 <= j < rows_of(height as nat, workers as nat, v as nat).len()
                            && x < width implies #[trigger] fb.pixels()[(
                            x,
                            rows_of(height as nat, workers as nat, v as nat)[j],
                        )] == blocks@[v]@[j * width + x].rgb() by {
                        let row = rows_of(height as nat, workers as nat, v as nat)[j];
                        assert(rows_of(height as nat, workers as nat, v as nat).contains(row));
                        lemma_rows_ascending(height as nat, workers as nat, v as nat);
                        assert(row < height);
                        assert(image_coords(width as nat, height as nat).contains((x, row)));
                        assert(before.contains_key((x, row)));
                        if row == y {
                            assert(rows_of(height as nat, workers as nat, v as nat).contains(y));
                            assert(v == y % workers);
                            assert(rows_of(height as nat, workers as nat, w as nat).contains(y));
                            assert(w == y % workers);
                        }
                    }
                    assert forall|j: int, x: u32|
                        0 <= j < k + 1 && x < width implies #[trigger] fb.pixels()[(x, rows@[j])]
                            == block@[j * width + x].rgb() by {
                        if j < k {
                            assert(before.contains_key((x, rows@[j])));
                        }
                    }
                }
                k = k + 1;
            }
            w = w + 1;
        }
        assert forall|x: u32, y: u32| x < width && y < height implies #[trigger] fb.pixels()[(x, y)]
            == blocks@[(y % workers) as int]@[rows_of(height as nat, workers as nat, (y % workers) as nat).index_of(y)
            * width + x].rgb() by {
            let rows = rows_of(height as nat, workers as nat, (y % workers) as nat);
            lemma_rows_partition(height, workers, y);
            assert(rows.contains(y));
            let k = rows.index_of(y);
            assert(rows[k] == y);
            let w: int = (y % workers) as int;
            assert(rows == rows_of(height as nat, workers as nat, w as nat));
            assert(fb.pixels()[(x, rows_of(height as nat, workers as nat, w as nat)[k])]
                == blocks@[w]@[k * width + x].rgb());
        }
        fb
    }

    /// The image that holds the pixels, for encoding.
    pub fn into_image(self) -> (r: bmp::Image)
        ensures
            image_pixels(r) == self.pixels(),
    {
        self.image
    }
}

} // verus!
