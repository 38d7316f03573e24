//! Thresholded access to the pixels of a raster image.

use vstd::prelude::*;
use crate::error::DecodeError;
use crate::util::IteratorExt;

verus! {

/// The raster type of the `image` crate. Nothing is known of a value of it
/// but what the three functions below are trusted to say.
#[verifier::external_type_specification]
#[verifier::external_body]
pub struct ExDynamicImage(image::DynamicImage);

/// Number of pixel columns of an image: what `DynamicImage::width` returns.
pub uninterp spec fn image_width(img: image::DynamicImage) -> u32;

/// Number of pixel rows of an image: what `DynamicImage::height` returns.
pub uninterp spec fn image_height(img: image::DynamicImage) -> u32;

/// The red, green, blue and alpha samples of the pixel in column `x` of row
/// `y`: what `get_pixel` returns for it.
pub uninterp spec fn image_rgba(img: image::DynamicImage, x: u32, y: u32) -> Seq<u8>;

/// Calls `image::DynamicImage::width`. Trusted: the result is the image's
/// number of pixel columns, whatever the image holds.
#[verifier::external_body]
pub(crate) fn width(img: &image::DynamicImage) -> (w: u32)
    ensures
        w == image_width(*img),
{
    img.width()
}

/// Calls `image::DynamicImage::height`. Trusted: the result is the image's
/// number of pixel rows, whatever the image holds.
#[verifier::external_body]
pub(crate) fn height(img: &image::DynamicImage) -> (h: u32)
    ensures
        h == image_height(*img),
{
    img.height()
}

/// Calls `image::GenericImageView::get_pixel` on a `DynamicImage`. The call
/// panics for coordinates outside the image, so they must lie inside it.
/// Trusted: the four samples that come back depend on the image and the
/// coordinates alone.
#[verifier::external_body]
pub(crate) fn rgba_at(img: &image::DynamicImage, x: u32, y: u32) -> (rgba: [u8; 4])
    requires
        x < image_width(*img),
        y < image_height(*img),
    ensures
        rgba@ == image_rgba(*img, x, y),
{
    image::GenericImageView::get_pixel(img, x, y).0
}

/// The luminance of a colour: its red, green and blue samples weighted by
/// 2126, 7152 and 722 parts in 10000, rounded down.
pub open spec fn luminance(red: u8, green: u8, blue: u8) -> u8 {
    ((2126 * red + 7152 * green + 722 * blue) / 10000) as u8
}

/// Calls `image::Pixel::to_luma` on an `Rgba<u8>`. Trusted: the result is
/// the weighted sum of the three colour samples that `luminance` states.
#[verifier::external_body]
pub(crate) fn rgba_to_luma(rgba: [u8; 4]) -> (luma: u8)
    ensures
        luma == luminance(rgba[0], rgba[1], rgba[2]),
{
    image::Pixel::to_luma(&image::Rgba(rgba)).0[0]
}

/// Luminance of the pixel in column `x` of row `y`.
pub open spec fn pixel_luma(img: image::DynamicImage, x: u32, y: u32) -> u8 {
    luminance(image_rgba(img, x, y)[0], image_rgba(img, x, y)[1], image_rgba(img, x, y)[2])
}

/// The thresholding rule: a pixel is white when its luminance exceeds 128.
pub open spec fn luma_is_white(luma: u8) -> bool {
    luma > 128
}

/// Whether a luminance value counts as white.
pub fn is_white(luma: u8) -> (white: bool)
    ensures
        white == luma_is_white(luma),
{
    luma > 128
}

/// Whether the pixel in column `x` of row `y` is white.
pub open spec fn white_at(img: image::DynamicImage, x: int, y: int) -> bool {
    luma_is_white(pixel_luma(img, x as u32, y as u32))
}

/// Whether the pixel at `(x, y)`, which must lie inside the image, is white.
pub fn is_white_pixel(img: &image::DynamicImage, x: u32, y: u32) -> (white: bool)
    requires
        x < image_width(*img),
        y < image_height(*img),
    ensures
        white == white_at(*img, x as int, y as int),
{
    is_white(rgba_to_luma(rgba_at(img, x, y)))
}

/// The pixels that stand for one module: the columns `start_x..end_x` of the
/// rows `start_y..end_y`.
#[derive(Debug, Clone, Copy, PartialEq, Eq, Structural)]
pub struct Raster {
    pub start_x: u32,
    pub end_x: u32,
    pub start_y: u32,
    pub end_y: u32,
}

impl Raster {
    /// Whether the raster holds no pixel.
    pub open spec fn is_empty(self) -> bool {
        self.start_x >= self.end_x || self.start_y >= self.end_y
    }

    /// Whether `(x, y)` is one of the raster's pixels.
    pub open spec fn contains(self, x: int, y: int) -> bool {
        self.start_x <= x < self.end_x && self.start_y <= y < self.end_y
    }

    /// Number of pixels in the raster.
    pub open spec fn area(self) -> nat {
        if self.is_empty() {
            0
        } else {
            ((self.end_x - self.start_x) * (self.end_y - self.start_y)) as nat
        }
    }

    /// Every pixel of the raster lies inside the image.
    pub open spec fn fits(self, img: image::DynamicImage) -> bool {
        !self.is_empty() ==> self.end_x <= image_width(img) && self.end_y <= image_height(img)
    }

    /// Whether every pixel of the raster lies inside the image.
    pub fn fits_image(&self, img: &image::DynamicImage) -> (ok: bool)
        ensures
            ok == self.fits(*img),
    {
        self.start_x >= self.end_x || self.start_y >= self.end_y || (self.end_x <= width(img)
            && self.end_y <= height(img))
    }
}

/// Number of white pixels among the columns `x0..x1` of row `y`.
pub open spec fn white_in_row(img: image::DynamicImage, y: int, x0: int, x1: int) -> nat
    decreases x1 - x0,
{
    if x0 >= x1 {
        0
    } else {
        white_in_row(img, y, x0, x1 - 1) + if white_at(img, x1 - 1, y) {
            1nat
        } else {
            0nat
        }
    }
}

/// Number of white pixels among the columns `x0..x1` of the rows `y0..y1`.
pub open spec fn white_in_rows(img: image::DynamicImage, x0: int, x1: int, y0: int, y1: int) -> nat
    decreases y1 - y0,
{
    if y0 >= y1 {
        0
    } else {
        white_in_rows(img, x0, x1, y0, y1 - 1) + white_in_row(img, y1 - 1, x0, x1)
    }
}

/// Number of white pixels in a raster.
pub open spec fn white_count(img: image::DynamicImage, raster: Raster) -> nat {
    white_in_rows(
        img,
        raster.start_x as int,
        raster.end_x as int,
        raster.start_y as int,
        raster.end_y as int,
    )
}

/// The majority vote over a module's pixels: the module is white when more
/// than half of the raster's pixels are white. An empty raster is not white.
pub open spec fn module_is_white(img: image::DynamicImage, raster: Raster) -> bool {
    2 * white_count(img, raster) > raster.area()
}

/// A row holds at most as many white pixels as it has pixels, all of them
/// when every pixel is white and none when every pixel is dark.
pub proof fn lemma_white_in_row(img: image::DynamicImage, y: int, x0: int, x1: int)
    requires
        x0 <= x1,
    ensures
        white_in_row(img, y, x0, x1) <= x1 - x0,
        (forall|x: int| x0 <= x < x1 ==> white_at(img, x, y)) ==> white_in_row(img, y, x0, x1) == x1
            - x0,
        (forall|x: int| x0 <= x < x1 ==> !white_at(img, x, y)) ==> white_in_row(img, y, x0, x1)
            == 0,
    decreases x1 - x0,
{
    if x0 < x1 {
        lemma_white_in_row(img, y, x0, x1 - 1);
    }
}

/// A block of rows holds at most as many white pixels as it has pixels, all
/// of them when every pixel is white and none when every pixel is dark.
pub proof fn lemma_white_in_rows(img: image::DynamicImage, x0: int, x1: int, y0: int, y1: int)
    requires
        x0 <= x1,
        y0 <= y1,
    ensures
        white_in_rows(img, x0, x1, y0, y1) <= (x1 - x0) * (y1 - y0),
        (forall|x: int, y: int| x0 <= x < x1 && y0 <= y < y1 ==> white_at(img, x, y))
            ==> white_in_rows(img, x0, x1, y0, y1) == (x1 - x0) * (y1 - y0),
        (forall|x: int, y: int| x0 <= x < x1 && y0 <= y < y1 ==> !white_at(img, x, y))
            ==> white_in_rows(img, x0, x1, y0, y1) == 0,
    decreases y1 - y0,
{
    if y0 < y1 {
        lemma_white_in_rows(img, x0, x1, y0, y1 - 1);
        lemma_white_in_row(img, y1 - 1, x0, x1);
        assert((x1 - x0) * (y1 - y0) == (x1 - x0) * (y1 - 1 - y0) + (x1 - x0)) by (nonlinear_arith);
    } else {
        assert((x1 - x0) * (y1 - y0) == 0) by (nonlinear_arith)
            requires
                y1 - y0 == 0,
        ;
    }
}

/// A module whose raster lies in a region of one colour has that colour:
/// where every pixel of a raster that is not empty is white the module is
/// white, and where every pixel is dark the module is dark.
pub proof fn lemma_uniform_module(img: image::DynamicImage, raster: Raster)
    requires
        !raster.is_empty(),
    ensures
        (forall|x: int, y: int| raster.contains(x, y) ==> white_at(img, x, y)) ==> module_is_white(
            img,
            raster,
        ),
        (forall|x: int, y: int| raster.contains(x, y) ==> !white_at(img, x, y))
            ==> !module_is_white(img, raster),
{
    lemma_white_in_rows(
        img,
        raster.start_x as int,
        raster.end_x as int,
        raster.start_y as int,
        raster.end_y as int,
    );
    assert((raster.end_x - raster.start_x) * (raster.end_y - raster.start_y) > 0)
        by (nonlinear_arith)
        requires
            raster.end_x - raster.start_x > 0,
            raster.end_y - raster.start_y > 0,
    ;
}

/// The majority vote over the pixels of a module.
pub fn is_white_module(img: &image::DynamicImage, raster: &Raster) -> (white: bool)
    requires
        raster.fits(*img),
    ensures
        white == module_is_white(*img, *raster),
{
    if raster.start_x >= raster.end_x || raster.start_y >= raster.end_y {
        proof {
            lemma_empty_raster(*img, *raster);
        }
        return false;
    }
    let row_len: u64 = (raster.end_x - raster.start_x) as u64;
    let rows: u64 = (raster.end_y - raster.start_y) as u64;
    assert(row_len * rows <= 0xffff_ffff * 0xffff_ffff) by (nonlinear_arith)
        requires
            0 <= row_len <= 0xffff_ffff,
            0 <= rows <= 0xffff_ffff,
    ;
    let area: u64 = row_len * rows;
    let mut val: u64 = 0;
    let mut y: u32 = raster.start_y;
    while y < raster.end_y
        invariant
            raster.fits(*img),
            !raster.is_empty(),
            raster.start_y <= y <= raster.end_y,
            row_len == raster.end_x - raster.start_x,
            val == white_in_rows(
                *img,
                raster.start_x as int,
                raster.end_x as int,
                raster.start_y as int,
                y as int,
            ),
        decreases raster.end_y - y,
    {
        let mut x: u32 = raster.start_x;
        let mut in_row: u64 = 0;
        while x < raster.end_x
            invariant
                raster.fits(*img),
                !raster.is_empty(),
                raster.start_y <= y < raster.end_y,
                raster.start_x <= x <= raster.end_x,
                in_row == white_in_row(*img, y as int, raster.start_x as int, x as int),
                in_row <= x - raster.start_x,
            decreases raster.end_x - x,
        {
            if is_white_pixel(img, x, y) {
                in_row += 1;
            }
            x += 1;
        }
        proof {
            lemma_white_in_rows(
                *img,
                raster.start_x as int,
                raster.end_x as int,
                raster.start_y as int,
                y as int,
            );
            assert((raster.end_x - raster.start_x) * (y - raster.start_y) + (raster.end_x
                - raster.start_x) <= 0xffff_ffff * 0xffff_ffff) by (nonlinear_arith)
                requires
                    0 <= raster.end_x - raster.start_x <= 0xffff_ffff,
                    0 <= y - raster.start_y < 0xffff_ffff,
            ;
        }
        val += in_row;
        y += 1;
    }
    proof {
        lemma_white_in_rows(
            *img,
            raster.start_x as int,
            raster.end_x as int,
            raster.start_y as int,
            raster.end_y as int,
        );
    }
    val > area - val
}

/// An empty raster holds no white pixel.
proof fn lemma_empty_raster(img: image::DynamicImage, raster: Raster)
    requires
        raster.is_empty(),
    ensures
        white_count(img, raster) == 0,
    decreases raster.end_y - raster.start_y,
{
    if raster.start_y < raster.end_y {
        lemma_empty_raster(img, Raster { end_y: (raster.end_y - 1) as u32, ..raster });
        assert(white_in_row(img, raster.end_y - 1, raster.start_x as int, raster.end_x as int) == 0);
    }
}

/// The scan of row `y` from column `x` to the right edge: whether each pixel
/// is white. The scan of a row outside the image is empty.
pub open spec fn row_scan_from(img: image::DynamicImage, x: int, y: int) -> Seq<bool> {
    if 0 <= y < image_height(img) && 0 <= x < image_width(img) {
        Seq::new((image_width(img) - x) as nat, |i: int| white_at(img, x + i, y))
    } else {
        Seq::empty()
    }
}

/// The scan of column `x` from row `y` to the bottom edge: whether each pixel
/// is white. The scan of a column outside the image is empty.
pub open spec fn column_scan_from(img: image::DynamicImage, x: int, y: int) -> Seq<bool> {
    if 0 <= x < image_width(img) && 0 <= y < image_height(img) {
        Seq::new((image_height(img) - y) as nat, |i: int| white_at(img, x, y + i))
    } else {
        Seq::empty()
    }
}

/// The horizontal scan of row `y`, from the left edge.
pub open spec fn row_scan(img: image::DynamicImage, y: int) -> Seq<bool> {
    row_scan_from(img, 0, y)
}

/// The vertical scan of column `x`, from the top edge.
pub open spec fn column_scan(img: image::DynamicImage, x: int) -> Seq<bool> {
    column_scan_from(img, x, 0)
}

/// A scan along one row of an image, from left to right.
pub struct HorizIterator<'a> {
    img: &'a image::DynamicImage,
    x: u32,
    y: u32,
}

impl<'a> HorizIterator<'a> {
    /// A scan of row `y` from the left edge; `None` where the image has no
    /// such row.
    pub fn new(img: &'a image::DynamicImage, y: u32) -> (scan: Option<Self>)
        ensures
            scan is Some <==> y < image_height(*img),
            scan matches Some(iter) ==> iter.remaining() == row_scan(*img, y as int),
    {
        if y >= height(img) {
            None
        } else {
            Some(Self { img, x: 0, y })
        }
    }
}

impl<'a> IteratorExt for HorizIterator<'a> {
    type Item = bool;

    open spec fn wf(&self) -> bool {
        true
    }

    closed spec fn remaining(&self) -> Seq<bool> {
        row_scan_from(*self.img, self.x as int, self.y as int)
    }

    open spec fn failure(&self) -> Option<DecodeError> {
        None
    }

    fn next(&mut self) -> (item: Result<Option<bool>, DecodeError>) {
        if self.y >= height(self.img) || self.x >= width(self.img) {
            return Ok(None);
        }
        let ghost before = self.remaining();
        let result = is_white_pixel(self.img, self.x, self.y);
        self.x += 1;
        assert(self.remaining() =~= before.skip(1));
        Ok(Some(result))
    }
}

/// Images offer horizontal scans of their rows.
pub trait ToHoriz {
    /// The whole horizontal scan of row `y`.
    spec fn row(&self, y: int) -> Seq<bool>;

    /// A scan of row `y` from the left edge. A row outside the image gives an
    /// empty scan.
    fn to_horiz(&self, y: u32) -> (scan: HorizIterator)
        ensures
            scan.remaining() == self.row(y as int),
    ;
}

impl ToHoriz for image::DynamicImage {
    open spec fn row(&self, y: int) -> Seq<bool> {
        row_scan(*self, y)
    }

    fn to_horiz(&self, y: u32) -> (scan: HorizIterator) {
        match HorizIterator::new(self, y) {
            Some(iter) => iter,
            None => HorizIterator { img: self, x: 0, y },
        }
    }
}

/// A scan along one column of an image, from top to bottom.
pub struct VertIterator<'a> {
    img: &'a image::DynamicImage,
    x: u32,
    y: u32,
}

impl<'a> VertIterator<'a> {
    /// A scan of column `x` from the top edge; `None` where the image has no
    /// such column.
    pub fn new(img: &'a image::DynamicImage, x: u32) -> (scan: Option<Self>)
        ensures
            scan is Some <==> x < image_width(*img),
            scan matches Some(iter) ==> iter.remaining() == column_scan(*img, x as int),
    {
        if x >= width(img) {
            None
        } else {
            Some(Self { img, x, y: 0 })
        }
    }
}

impl<'a> IteratorExt for VertIterator<'a> {
    type Item = bool;

    open spec fn wf(&self) -> bool {
        true
    }

    closed spec fn remaining(&self) -> Seq<bool> {
        column_scan_from(*self.img, self.x as int, self.y as int)
    }

    open spec fn failure(&self) -> Option<DecodeError> {
        None
    }

    fn next(&mut self) -> (item: Result<Option<bool>, DecodeError>) {
        if self.x >= width(self.img) || self.y >= height(self.img) {
            return Ok(None);
        }
        let ghost before = self.remaining();
        let result = is_white_pixel(self.img, self.x, self.y);
        self.y += 1;
        assert(self.remaining() =~= before.skip(1));
        Ok(Some(result))
    }
}

/// Images offer vertical scans of their columns.
pub trait ToVert {
    /// The whole vertical scan of column `x`.
    spec fn column(&self, x: int) -> Seq<bool>;

    /// A scan of column `x` from the top edge. A column outside the image
    /// gives an empty scan.
    fn to_vert(&self, x: u32) -> (scan: VertIterator)
        ensures
            scan.remaining() == self.column(x as int),
    ;
}

impl ToVert for image::DynamicImage {
    open spec fn column(&self, x: int) -> Seq<bool> {
        column_scan(*self, x)
    }

    fn to_vert(&self, x: u32) -> (scan: VertIterator) {
        match VertIterator::new(self, x) {
            Some(iter) => iter,
            None => VertIterator { img: self, x, y: 0 },
        }
    }
}

} // verus!
