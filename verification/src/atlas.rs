use font_kit::canvas::{Canvas, Format};
use pathfinder_geometry::vector::Vector2I;
use vstd::prelude::*;

verus! {

/// Side length, in pixels, of the square surface of a default atlas.
pub const ATLAS_SIZE: i32 = 1024;

/// Largest side length an atlas can be made with. The surface of such an
/// atlas takes 2^30 bytes, which still fits a 32-bit `usize`.
pub const MAX_ATLAS_SIZE: i32 = 16384;

/// Largest magnitude of a coordinate of a glyph's bounds. It keeps every
/// extent and every paint offset inside `i32`.
pub const COORD_LIMIT: i32 = 536870912;

/// Why an atlas did not take a rectangle.
#[derive(Clone, Copy, Debug, PartialEq, Eq, Structural)]
pub enum AtlasInsertError {
    /// No room is left below the current row; another atlas may take it.
    Full,
    /// The rectangle is wider or taller than the surface of any atlas of
    /// this size.
    GlyphTooLarge,
}

/// Pixel bounds of a rasterized glyph. The origin is at the top left, so
/// `min_y` is the top edge and `max_y` the bottom edge; `min` is inclusive
/// and `max` exclusive.
#[derive(Clone, Copy, Debug, PartialEq, Eq, Structural)]
pub struct GlyphBounds {
    pub min_x: i32,
    pub min_y: i32,
    pub max_x: i32,
    pub max_y: i32,
}

/// A rectangle of pixels on an atlas surface.
#[derive(Clone, Copy, Debug, PartialEq, Eq, Structural)]
pub struct PixelRect {
    pub x: i32,
    pub y: i32,
    pub width: i32,
    pub height: i32,
}

/// Where a glyph lives: the texture, and its rectangle in texture
/// coordinates. Each `uv_*` field is the numerator of a fraction whose
/// denominator is `uv_denom`, the side length of the atlas, so the
/// coordinate itself lies in `[0, 1]`.
#[derive(Clone, Copy, Debug, PartialEq, Eq, Structural)]
pub struct GlyphTexInfo {
    pub tex_id: u32,
    pub uv_left: i32,
    pub uv_bot: i32,
    pub uv_width: i32,
    pub uv_height: i32,
    pub uv_denom: i32,
}

/// What `Atlas::insert` hands back: the translation that moves the glyph's
/// lower left corner onto its slot, and the texture coordinates of the slot.
#[derive(Clone, Copy, Debug, PartialEq, Eq, Structural)]
pub struct Placement {
    pub offset_x: i32,
    pub offset_y: i32,
    pub info: GlyphTexInfo,
}

/// A run of surface rows: `height` rows starting at row `y_offset`.
/// A band of height 0 is empty.
#[derive(Clone, Copy, Debug, PartialEq, Eq, Structural)]
pub struct DirtyBand {
    pub y_offset: i32,
    pub height: i32,
}

/// One transfer to the texture: the rows to replace, and the bytes
/// `start..end` of the surface that hold them.
#[derive(Clone, Copy, Debug, PartialEq, Eq, Structural)]
pub struct Upload {
    pub y_offset: i32,
    pub height: i32,
    pub start: usize,
    pub end: usize,
}

/// The state of an atlas as the contracts see it.
pub struct AtlasView {
    /// The texture that mirrors the surface.
    pub tex_id: u32,
    /// The bytes of the surface, row after row.
    pub surface: Seq<u8>,
    /// The number of bytes from one row of the surface to the next.
    pub stride: int,
    /// Side length of the surface, in pixels.
    pub size: int,
    /// Leftmost free column of the current row.
    pub insert_x: int,
    /// First pixel row of the current row.
    pub insert_y: int,
    /// Height of the tallest rectangle in the current row.
    pub row_tallest: int,
    /// Rows written since the last upload.
    pub dirty: DirtyBand,
    /// Every rectangle handed out so far, oldest first.
    pub placed: Seq<PixelRect>,
    /// The rectangles handed out since the last upload, oldest first.
    pub pending: Seq<PixelRect>,
}

/// `font_kit::canvas::Canvas`, the bitmap that glyphs are rasterized
/// into. Nothing is read from inside it but through the items below.
#[verifier::external_type_specification]
#[verifier::external_body]
pub struct ExCanvas(font_kit::canvas::Canvas);

/// The bytes of a canvas, row after row.
pub uninterp spec fn canvas_pixels(canvas: Canvas) -> Seq<u8>;

/// The number of bytes from one row of a canvas to the next.
pub uninterp spec fn canvas_stride(canvas: Canvas) -> int;

/// `font_kit::canvas::Canvas::new` with a square size and the format
/// `Rgba32`. Trusted: the stride is four bytes per pixel of width, and the
/// canvas holds stride times height bytes, all zero.
#[verifier::external_body]
fn blank_canvas(size: i32) -> (canvas: Canvas)
    requires
        0 <= size <= MAX_ATLAS_SIZE,
    ensures
        canvas_stride(canvas) == 4 * size,
        canvas_pixels(canvas).len() == 4 * size * size,
        forall|i: int| 0 <= i < canvas_pixels(canvas).len() ==> canvas_pixels(canvas)[i] == 0u8,
{
    Canvas::new(Vector2I::splat(size), Format::Rgba32)
}

/// The length of the field `pixels` of a `font_kit::canvas::Canvas`.
/// Trusted: it is the number of bytes that `canvas_pixels` names.
#[verifier::external_body]
fn canvas_len(canvas: &Canvas) -> (len: usize)
    ensures
        len == canvas_pixels(*canvas).len(),
{
    canvas.pixels.len()
}

/// The field `pixels` of a `font_kit::canvas::Canvas`, cut to the bytes
/// `start..end`. Trusted: those are the bytes that `canvas_pixels` names.
#[verifier::external_body]
fn canvas_bytes(canvas: &Canvas, start: usize, end: usize) -> (bytes: &[u8])
    requires
        start <= end <= canvas_pixels(*canvas).len(),
    ensures
        bytes@ == canvas_pixels(*canvas).subrange(start as int, end as int),
{
    &canvas.pixels[start..end]
}

impl GlyphBounds {
    /// Bounds are well formed when they are not inverted and every
    /// coordinate is within `COORD_LIMIT` of the origin.
    pub open spec fn wf(&self) -> bool {
        &&& -COORD_LIMIT <= self.min_x <= self.max_x <= COORD_LIMIT
        &&& -COORD_LIMIT <= self.min_y <= self.max_y <= COORD_LIMIT
    }

    /// The number of pixel columns between the left and the right edge.
    pub open spec fn spec_width(&self) -> int {
        self.max_x - self.min_x
    }

    /// The number of pixel rows between the top and the bottom edge.
    pub open spec fn spec_height(&self) -> int {
        self.max_y - self.min_y
    }

    /// The bounds with the given corners, or `None` where they are not
    /// well formed.
    pub fn new(min_x: i32, min_y: i32, max_x: i32, max_y: i32) -> (result: Option<GlyphBounds>)
        ensures
            result == (if (GlyphBounds { min_x, min_y, max_x, max_y }).wf() {
                Some(GlyphBounds { min_x, min_y, max_x, max_y })
            } else {
                None
            }),
    {
        if -COORD_LIMIT <= min_x && min_x <= max_x && max_x <= COORD_LIMIT && -COORD_LIMIT <= min_y
            && min_y <= max_y && max_y <= COORD_LIMIT {
            Some(GlyphBounds { min_x, min_y, max_x, max_y })
        } else {
            None
        }
    }

    /// The number of pixel columns between the left and the right edge.
    pub fn width(&self) -> (w: i32)
        requires
            self.wf(),
        ensures
            w == self.spec_width(),
    {
        self.max_x - self.min_x
    }

    /// The number of pixel rows between the top and the bottom edge.
    pub fn height(&self) -> (h: i32)
        requires
            self.wf(),
        ensures
            h == self.spec_height(),
    {
        self.max_y - self.min_y
    }
}

impl PixelRect {
    /// The pixel in column `px` of row `py` belongs to the rectangle.
    pub open spec fn contains(&self, px: int, py: int) -> bool {
        &&& self.x <= px < self.x + self.width
        &&& self.y <= py < self.y + self.height
    }

    /// A vertical or a horizontal line parts the two rectangles.
    pub open spec fn apart_from(&self, other: PixelRect) -> bool {
        ||| self.x + self.width <= other.x
        ||| other.x + other.width <= self.x
        ||| self.y + self.height <= other.y
        ||| other.y + other.height <= self.y
    }

    /// The rectangle lies on a surface of side `size`.
    pub open spec fn within(&self, size: int) -> bool {
        &&& 0 <= self.x
        &&& 0 <= self.y
        &&& 0 <= self.width
        &&& 0 <= self.height
        &&& self.x + self.width <= size
        &&& self.y + self.height <= size
    }
}

impl DirtyBand {
    /// The band that holds no row.
    pub open spec fn empty() -> DirtyBand {
        DirtyBand { y_offset: 0, height: 0 }
    }

    /// The first row past the band.
    pub open spec fn upper(&self) -> int {
        self.y_offset + self.height
    }

    /// The smallest band that holds this band and the rows `y .. y + h`.
    pub open spec fn cover(&self, y: int, h: int) -> DirtyBand {
        if h <= 0 {
            *self
        } else if self.height <= 0 {
            DirtyBand { y_offset: y as i32, height: h as i32 }
        } else {
            let low = if self.y_offset < y { self.y_offset as int } else { y };
            let high = if self.upper() < y + h { y + h } else { self.upper() };
            DirtyBand { y_offset: low as i32, height: (high - low) as i32 }
        }
    }

    /// The smallest band that holds the rows of every rectangle of `rects`.
    pub open spec fn hull(rects: Seq<PixelRect>) -> DirtyBand
        decreases rects.len(),
    {
        if rects.len() == 0 {
            DirtyBand::empty()
        } else {
            DirtyBand::hull(rects.drop_last()).cover(
                rects.last().y as int,
                rects.last().height as int,
            )
        }
    }
}

impl AtlasView {
    /// An atlas of side `size` for the texture `tex_id` that has handed out
    /// nothing: every byte of its surface is zero.
    pub open spec fn blank(tex_id: u32, size: int) -> AtlasView {
        AtlasView {
            tex_id,
            surface: Seq::new((4 * size * size) as nat, |i: int| 0u8),
            stride: 4 * size,
            size,
            insert_x: 0,
            insert_y: 0,
            row_tallest: 0,
            dirty: DirtyBand::empty(),
            placed: Seq::empty(),
            pending: Seq::empty(),
        }
    }

    /// The rectangle `r` sits in a finished row, or in the current row to
    /// the left of the cursor.
    pub open spec fn shelved(&self, r: PixelRect) -> bool {
        ||| r.y + r.height <= self.insert_y
        ||| (r.y == self.insert_y && r.x + r.width <= self.insert_x && r.height
            <= self.row_tallest)
    }

    /// The surface is `size` rows of `size` pixels of four bytes, the
    /// cursor and the current row lie on it, the dirty band is the hull of
    /// the pending rectangles, the height of the current row is that of a
    /// rectangle in it, and every rectangle handed out lies on the surface,
    /// in a finished row or left of the cursor, apart from all the others.
    pub open spec fn wf(&self) -> bool {
        &&& 1 <= self.size <= MAX_ATLAS_SIZE
        &&& self.stride == 4 * self.size
        &&& self.surface.len() == 4 * self.size * self.size
        &&& 0 <= self.insert_x <= self.size
        &&& 0 <= self.insert_y
        &&& 0 <= self.row_tallest
        &&& self.insert_y + self.row_tallest <= self.size
        &&& self.row_tallest > 0 ==> exists|i: int|
            0 <= i < self.placed.len() && (#[trigger] self.placed[i]).y == self.insert_y
                && self.placed[i].height == self.row_tallest
        &&& self.dirty == DirtyBand::hull(self.pending)
        &&& 0 <= self.dirty.height
        &&& self.dirty.height > 0 ==> 0 <= self.dirty.y_offset && self.dirty.upper()
            <= self.insert_y + self.row_tallest
        &&& forall|i: int|
            0 <= i < self.placed.len() ==> (#[trigger] self.placed[i]).within(self.size)
                && self.shelved(self.placed[i])
        &&& forall|i: int, j: int|
            0 <= i < j < self.placed.len() ==> (#[trigger] self.placed[i]).apart_from(
                #[trigger] self.placed[j],
            )
        &&& forall|i: int|
            0 <= i < self.pending.len() ==> (#[trigger] self.pending[i]).within(self.size)
                && self.shelved(self.pending[i])
    }

    /// A rectangle `w` wide does not fit in what is left of the current row.
    pub open spec fn wraps(&self, w: int) -> bool {
        self.insert_x + w > self.size
    }

    /// The row that a rectangle `w` wide goes to: the current one, or the
    /// one that starts right above its tallest rectangle.
    pub open spec fn slot_y(&self, w: int) -> int {
        if self.wraps(w) {
            self.insert_y + self.row_tallest
        } else {
            self.insert_y
        }
    }

    /// The column that a rectangle `w` wide goes to: the cursor, or the
    /// first column of a new row.
    pub open spec fn slot_x(&self, w: int) -> int {
        if self.wraps(w) {
            0
        } else {
            self.insert_x
        }
    }

    /// Where a rectangle of `w` by `h` pixels goes, or why it goes nowhere.
    pub open spec fn slot(&self, w: int, h: int) -> Result<PixelRect, AtlasInsertError> {
        if w > self.size || h > self.size {
            Err(AtlasInsertError::GlyphTooLarge)
        } else if self.slot_y(w) + h > self.size {
            Err(AtlasInsertError::Full)
        } else {
            Ok(
                PixelRect {
                    x: self.slot_x(w) as i32,
                    y: self.slot_y(w) as i32,
                    width: w as i32,
                    height: h as i32,
                },
            )
        }
    }

    /// The atlas after a request for `w` by `h` pixels: unchanged where the
    /// request fails, and otherwise with the cursor moved past the new
    /// rectangle, the row height raised to it, and the dirty band grown
    /// over its rows.
    pub open spec fn after_insert(&self, w: int, h: int) -> AtlasView {
        match self.slot(w, h) {
            Err(_) => *self,
            Ok(r) => AtlasView {
                insert_x: r.x + w,
                insert_y: r.y as int,
                row_tallest: if !self.wraps(w) && self.row_tallest > h {
                    self.row_tallest
                } else {
                    h
                },
                dirty: self.dirty.cover(r.y as int, h),
                placed: self.placed.push(r),
                pending: self.pending.push(r),
                ..*self
            },
        }
    }

    /// The atlas after one request for each of `sizes`, a width and a
    /// height, in their order.
    pub open spec fn after_requests(&self, sizes: Seq<(int, int)>) -> AtlasView
        decreases sizes.len(),
    {
        if sizes.len() == 0 {
            *self
        } else {
            self.after_requests(sizes.drop_last()).after_insert(sizes.last().0, sizes.last().1)
        }
    }

    /// The atlas after its pending rows went to the texture.
    pub open spec fn after_upload(&self) -> AtlasView {
        AtlasView { dirty: DirtyBand::empty(), pending: Seq::empty(), ..*self }
    }

    /// The atlas after `update_texture`: unchanged where no row is pending.
    pub open spec fn flushed(&self) -> AtlasView {
        if self.dirty.height == 0 {
            *self
        } else {
            self.after_upload()
        }
    }

    /// The transfer that brings the texture up to date, if one is due.
    pub open spec fn upload(&self) -> Option<Upload> {
        if self.dirty.height == 0 {
            None
        } else {
            Some(
                Upload {
                    y_offset: self.dirty.y_offset,
                    height: self.dirty.height,
                    start: (4 * self.size * self.dirty.y_offset) as usize,
                    end: (4 * self.size * self.dirty.upper()) as usize,
                },
            )
        }
    }
}

/// The texture coordinates of the rectangle `r` on the texture `tex_id` of
/// an atlas of side `size`: the pixel coordinates over `size`.
pub open spec fn tex_info(tex_id: u32, size: int, r: PixelRect) -> GlyphTexInfo {
    GlyphTexInfo {
        tex_id,
        uv_left: r.x,
        uv_bot: r.y,
        uv_width: r.width,
        uv_height: r.height,
        uv_denom: size as i32,
    }
}

/// What a request for the slot of `bounds` returns, given the rectangle
/// that the atlas found for it.
pub open spec fn placement(
    tex_id: u32,
    size: int,
    bounds: GlyphBounds,
    slot: Result<PixelRect, AtlasInsertError>,
) -> Result<Placement, AtlasInsertError> {
    match slot {
        Err(e) => Err(e),
        Ok(r) => Ok(
            Placement {
                offset_x: (r.x - bounds.min_x) as i32,
                offset_y: (r.y - bounds.max_y) as i32,
                info: tex_info(tex_id, size, r),
            },
        ),
    }
}

/// One square surface that rectangles are packed into row by row, and the
/// texture that mirrors it.
pub struct Atlas {
    pub tex_id: u32,
    pub canvas: Canvas,
    size: i32,
    // leftmost free x coordinate
    insert_x: i32,
    // topmost free y coordinate
    insert_y: i32,
    // portion of atlas not yet uploaded to GPU
    dirty_y: i32,
    dirty_height: i32,
    // height of tallest glyph in current row to use for advancement
    row_tallest: i32,
    placed: Ghost<Seq<PixelRect>>,
    pending: Ghost<Seq<PixelRect>>,
}

impl View for Atlas {
    type V = AtlasView;

    closed spec fn view(&self) -> AtlasView {
        AtlasView {
            tex_id: self.tex_id,
            surface: canvas_pixels(self.canvas),
            stride: canvas_stride(self.canvas),
            size: self.size as int,
            insert_x: self.insert_x as int,
            insert_y: self.insert_y as int,
            row_tallest: self.row_tallest as int,
            dirty: DirtyBand { y_offset: self.dirty_y, height: self.dirty_height },
            placed: self.placed@,
            pending: self.pending@,
        }
    }
}

impl Atlas {
    /// The atlas is well formed when its state is.
    pub open spec fn wf(&self) -> bool {
        self@.wf()
    }

    /// An empty atlas of the default size that mirrors the texture `tex_id`.
    pub fn new(tex_id: u32) -> (atlas: Atlas)
        ensures
            atlas.wf(),
            atlas@ == AtlasView::blank(tex_id, ATLAS_SIZE as int),
    {
        Atlas::with_size(tex_id, ATLAS_SIZE)
    }

    /// An empty atlas of side `size` that mirrors the texture `tex_id`.
    pub fn with_size(tex_id: u32, size: i32) -> (atlas: Atlas)
        requires
            1 <= size <= MAX_ATLAS_SIZE,
        ensures
            atlas.wf(),
            atlas@ == AtlasView::blank(tex_id, size as int),
    {
        let canvas = blank_canvas(size);
        assert(canvas_pixels(canvas) =~= Seq::new((4 * size * size) as nat, |i: int| 0u8));
        Atlas {
            tex_id,
            canvas,
            size,
            insert_x: 0,
            insert_y: 0,
            dirty_y: 0,
            dirty_height: 0,
            row_tallest: 0,
            placed: Ghost(Seq::empty()),
            pending: Ghost(Seq::empty()),
        }
    }

    /// Side length of the surface, in pixels.
    pub fn size(&self) -> (size: i32)
        ensures
            size == self@.size,
    {
        self.size
    }

    /// The cursor: leftmost free column and first pixel row of the current
    /// row.
    pub fn cursor(&self) -> (at: (i32, i32))
        ensures
            at.0 == self@.insert_x,
            at.1 == self@.insert_y,
    {
        (self.insert_x, self.insert_y)
    }

    /// Height of the tallest rectangle in the current row.
    pub fn row_height(&self) -> (height: i32)
        ensures
            height == self@.row_tallest,
    {
        self.row_tallest
    }

    /// The rows written since the last upload.
    pub fn dirty_band(&self) -> (band: DirtyBand)
        ensures
            band == self@.dirty,
    {
        DirtyBand { y_offset: self.dirty_y, height: self.dirty_height }
    }

    /// Reserves a slot for a glyph with the given bounds. The slot is the
    /// next free place in the current row, or the start of a new row above
    /// it where the row has no room left. A failed request changes nothing.
    pub fn insert(&mut self, glyph_bounds: &GlyphBounds) -> (result: Result<
        Placement,
        AtlasInsertError,
    >)
        requires
            old(self).wf(),
            glyph_bounds.wf(),
        ensures
            final(self).wf(),
            result == placement(
                old(self)@.tex_id,
                old(self)@.size,
                *glyph_bounds,
                old(self)@.slot(glyph_bounds.spec_width(), glyph_bounds.spec_height()),
            ),
            final(self)@ == old(self)@.after_insert(
                glyph_bounds.spec_width(),
                glyph_bounds.spec_height(),
            ),
    {
        let glyph_width: i32 = glyph_bounds.width();
        let glyph_height: i32 = glyph_bounds.height();

        if glyph_width > self.size || glyph_height > self.size {
            return Err(AtlasInsertError::GlyphTooLarge);
        }
        let wraps: bool = glyph_width > self.size - self.insert_x;
        let slot_y: i32 = if wraps {
            self.insert_y + self.row_tallest
        } else {
            self.insert_y
        };
        if glyph_height > self.size - slot_y {
            return Err(AtlasInsertError::Full);
        }
        if wraps {
            self.advance_row();
        }
        let rect = PixelRect {
            x: self.insert_x,
            y: self.insert_y,
            width: glyph_width,
            height: glyph_height,
        };
        let placement = Placement {
            offset_x: self.insert_x - glyph_bounds.min_x,
            offset_y: self.insert_y - glyph_bounds.max_y,
            info: GlyphTexInfo {
                tex_id: self.tex_id,
                uv_left: rect.x,
                uv_bot: rect.y,
                uv_width: rect.width,
                uv_height: rect.height,
                uv_denom: self.size,
            },
        };

        self.insert_x = self.insert_x + glyph_width;
        if glyph_height > self.row_tallest {
            self.row_tallest = glyph_height;
        }
        if glyph_height > 0 {
            if self.dirty_height == 0 {
                self.dirty_y = self.insert_y;
                self.dirty_height = glyph_height;
            } else {
                let upper: i32 = self.dirty_y + self.dirty_height;
                if self.insert_y < self.dirty_y {
                    self.dirty_y = self.insert_y;
                }
                if upper < self.insert_y + glyph_height {
                    self.dirty_height = self.insert_y + glyph_height - self.dirty_y;
                } else {
                    self.dirty_height = upper - self.dirty_y;
                }
            }
        }
        proof {
            self.placed@ = self.placed@.push(rect);
            self.pending@ = self.pending@.push(rect);
            lemma_insert_keeps_wf(old(self)@, glyph_width as int, glyph_height as int);
        }
        Ok(placement)
    }

    /// Starts a new row right above the tallest rectangle of the current
    /// one.
    fn advance_row(&mut self)
        requires
            old(self).wf(),
        ensures
            final(self).wf(),
            final(self)@ == (AtlasView {
                insert_x: 0,
                insert_y: old(self)@.insert_y + old(self)@.row_tallest,
                row_tallest: 0,
                ..old(self)@
            }),
    {
        self.insert_y = self.insert_y + self.row_tallest;
        self.insert_x = 0;
        self.row_tallest = 0;
    }

    /// Takes the pending rows for upload: returns the one transfer that
    /// brings the texture up to date and marks the surface clean, or
    /// returns `None` and changes nothing where no row is pending.
    pub fn update_texture(&mut self) -> (upload: Option<Upload>)
        requires
            old(self).wf(),
        ensures
            final(self).wf(),
            upload == old(self)@.upload(),
            final(self)@ == old(self)@.flushed(),
            upload is Some ==> upload.unwrap().start <= upload.unwrap().end
                <= old(self)@.surface.len(),
    {
        if self.dirty_height == 0 {
            return None;
        }
        let stride: usize = 4 * (self.size as usize);
        proof {
            lemma_upload_range(self@);
        }
        let start: usize = stride * (self.dirty_y as usize);
        let end: usize = stride * ((self.dirty_y + self.dirty_height) as usize);
        let upload = Upload { y_offset: self.dirty_y, height: self.dirty_height, start, end };
        self.dirty_y = 0;
        self.dirty_height = 0;
        proof {
            self.pending@ = Seq::empty();
            assert(self@.placed == old(self)@.placed);
        }
        Some(upload)
    }

    /// The bytes of the surface that an upload sends, or `None` where the
    /// upload does not lie on the surface.
    pub fn rows(&self, upload: &Upload) -> (bytes: Option<&[u8]>)
        ensures
            bytes is Some <==> upload.start <= upload.end <= self@.surface.len(),
            bytes is Some ==> bytes.unwrap()@ == self@.surface.subrange(
                upload.start as int,
                upload.end as int,
            ),
    {
        if upload.start <= upload.end && upload.end <= canvas_len(&self.canvas) {
            Some(canvas_bytes(&self.canvas, upload.start, upload.end))
        } else {
            None
        }
    }
}

/// Rectangles that a line parts have no pixel in common.
pub proof fn lemma_apart_share_no_pixel(a: PixelRect, b: PixelRect)
    requires
        a.apart_from(b),
    ensures
        forall|px: int, py: int| !(a.contains(px, py) && b.contains(px, py)),
{
}

/// A request keeps a well-formed atlas well formed: the rectangle it hands
/// out lies on the surface and is apart from every rectangle handed out
/// before it, which all stay where they were.
pub proof fn lemma_insert_keeps_wf(v: AtlasView, w: int, h: int)
    requires
        v.wf(),
        0 <= w,
        0 <= h,
    ensures
        v.after_insert(w, h).wf(),
        v.slot(w, h) is Err ==> v.after_insert(w, h) == v,
        v.slot(w, h) is Ok ==> v.after_insert(w, h).placed == v.placed.push(v.slot(w, h).unwrap()),
{
    if let Ok(r) = v.slot(w, h) {
        let after = v.after_insert(w, h);
        assert(after.pending.drop_last() =~= v.pending);
        assert(r.within(after.size) && after.shelved(r));
        assert forall|i: int| 0 <= i < v.placed.len() implies after.shelved(
            #[trigger] v.placed[i],
        ) && v.placed[i].apart_from(r) by {
            assert(v.shelved(v.placed[i]));
        }
        assert forall|i: int| 0 <= i < v.pending.len() implies after.shelved(
            #[trigger] v.pending[i],
        ) by {
            assert(v.shelved(v.pending[i]));
        }
        if after.row_tallest > 0 {
            if !v.wraps(w) && v.row_tallest > h {
                let k = choose|k: int|
                    0 <= k < v.placed.len() && (#[trigger] v.placed[k]).y == v.insert_y
                        && v.placed[k].height == v.row_tallest;
                assert(after.placed[k] == v.placed[k]);
            } else {
                assert(after.placed[v.placed.len() as int] == r);
            }
        }
    }
}

/// Whatever is asked of a well-formed atlas, in whatever order, it stays
/// well formed, and the rectangles that it handed out before stay, in
/// their order, the first that it has handed out.
pub proof fn lemma_requests_keep_wf(v: AtlasView, sizes: Seq<(int, int)>)
    requires
        v.wf(),
        forall|k: int| 0 <= k < sizes.len() ==> 0 <= (#[trigger] sizes[k]).0 && 0 <= sizes[k].1,
    ensures
        v.after_requests(sizes).wf(),
        v.after_requests(sizes).size == v.size,
        v.placed.len() <= v.after_requests(sizes).placed.len() <= v.placed.len() + sizes.len(),
        forall|i: int|
            0 <= i < v.placed.len() ==> #[trigger] v.after_requests(sizes).placed[i] == v.placed[i],
    decreases sizes.len(),
{
    if sizes.len() > 0 {
        let front = sizes.drop_last();
        assert forall|k: int| 0 <= k < front.len() implies 0 <= (#[trigger] front[k]).0 && 0
            <= front[k].1 by {
            assert(front[k] == sizes[k]);
        }
        lemma_requests_keep_wf(v, front);
        lemma_insert_keeps_wf(v.after_requests(front), sizes.last().0, sizes.last().1);
    }
}

/// Any two rectangles that a well-formed atlas has handed out lie on its
/// surface and have no pixel in common.
pub proof fn lemma_placed_disjoint(v: AtlasView, i: int, j: int)
    requires
        v.wf(),
        0 <= i < v.placed.len(),
        0 <= j < v.placed.len(),
        i != j,
    ensures
        v.placed[i].within(v.size),
        v.placed[j].within(v.size),
        v.placed[i].apart_from(v.placed[j]),
        forall|px: int, py: int| !(v.placed[i].contains(px, py) && v.placed[j].contains(px, py)),
{
    if i < j {
        assert(v.placed[i].apart_from(v.placed[j]));
    } else {
        assert(v.placed[j].apart_from(v.placed[i]));
    }
}

/// A blank atlas is well formed and takes any rectangle that is no larger
/// than its surface at the origin; one as large as the surface fills it.
pub proof fn lemma_blank_takes(tex_id: u32, size: int, w: int, h: int)
    requires
        1 <= size <= MAX_ATLAS_SIZE,
        0 <= w <= size,
        0 <= h <= size,
    ensures
        AtlasView::blank(tex_id, size).wf(),
        AtlasView::blank(tex_id, size).slot(w, h) == Ok::<PixelRect, AtlasInsertError>(
            PixelRect { x: 0, y: 0, width: w as i32, height: h as i32 },
        ),
{
    assert(4 * size * size >= 0) by (nonlinear_arith)
        requires
            1 <= size,
    ;
}

/// A rectangle wider or taller than the surface is refused as too large
/// whatever the atlas holds, and the atlas stays as it was.
pub proof fn lemma_too_large_always(v: AtlasView, w: int, h: int)
    requires
        w > v.size || h > v.size,
    ensures
        v.slot(w, h) == Err::<PixelRect, AtlasInsertError>(AtlasInsertError::GlyphTooLarge),
        v.after_insert(w, h) == v,
{
}

/// The height of the current row is the height of its tallest rectangle.
/// A rectangle that does not fit the rest of the row, and is placed, goes
/// to the first column of the row that starts that many pixels higher.
pub proof fn lemma_row_advance(v: AtlasView, w: int, h: int)
    requires
        v.wf(),
        0 <= w,
        0 <= h,
        v.wraps(w),
        v.slot(w, h) is Ok,
    ensures
        v.slot(w, h).unwrap().x == 0,
        v.slot(w, h).unwrap().y == v.insert_y + v.row_tallest,
        forall|i: int|
            0 <= i < v.placed.len() && (#[trigger] v.placed[i]).y == v.insert_y
                ==> v.placed[i].height <= v.row_tallest,
        v.row_tallest > 0 ==> exists|i: int|
            0 <= i < v.placed.len() && (#[trigger] v.placed[i]).y == v.insert_y
                && v.placed[i].height == v.row_tallest,
        v.after_insert(w, h).insert_y == v.insert_y + v.row_tallest,
        v.after_insert(w, h).row_tallest == h,
{
    assert forall|i: int|
        0 <= i < v.placed.len() && (#[trigger] v.placed[i]).y == v.insert_y implies v.placed[i].height
        <= v.row_tallest by {
        assert(v.placed[i].within(v.size) && v.shelved(v.placed[i]));
    }
}

/// The texture coordinates of a rectangle handed out by a well-formed
/// atlas are its pixel coordinates over the side of the atlas, and lie in
/// the unit square.
pub proof fn lemma_tex_info_in_unit_square(v: AtlasView, i: int)
    requires
        v.wf(),
        0 <= i < v.placed.len(),
    ensures
        ({
            let t = tex_info(v.tex_id, v.size, v.placed[i]);
            &&& t.uv_denom == v.size
            &&& t.uv_left == v.placed[i].x
            &&& t.uv_bot == v.placed[i].y
            &&& t.uv_width == v.placed[i].width
            &&& t.uv_height == v.placed[i].height
            &&& 0 <= t.uv_left <= t.uv_left + t.uv_width <= t.uv_denom
            &&& 0 <= t.uv_bot <= t.uv_bot + t.uv_height <= t.uv_denom
        }),
{
    assert(v.placed[i].within(v.size));
}

/// The hull of rectangles that lie on a surface holds the rows of each of
/// them that has any.
pub proof fn lemma_hull_covers(rects: Seq<PixelRect>, size: int, i: int)
    requires
        size <= MAX_ATLAS_SIZE,
        forall|k: int| 0 <= k < rects.len() ==> (#[trigger] rects[k]).within(size),
        0 <= i < rects.len(),
        rects[i].height > 0,
    ensures
        DirtyBand::hull(rects).height > 0,
        0 <= DirtyBand::hull(rects).y_offset <= rects[i].y,
        rects[i].y + rects[i].height <= DirtyBand::hull(rects).upper() <= size,
    decreases rects.len(),
{
    let front = rects.drop_last();
    let last = rects.last();
    assert(last.within(size));
    assert forall|k: int| 0 <= k < front.len() implies (#[trigger] front[k]).within(size) by {
        assert(front[k] == rects[k]);
    }
    lemma_hull_on_surface(front, size);
    if i < rects.len() - 1 {
        assert(front[i] == rects[i]);
        lemma_hull_covers(front, size, i);
    }
}

/// The hull of rectangles that lie on a surface lies on it too, and is no
/// larger than needed: where it is not empty, one of the rectangles starts
/// at its first row and one ends at its last.
pub proof fn lemma_hull_on_surface(rects: Seq<PixelRect>, size: int)
    requires
        size <= MAX_ATLAS_SIZE,
        forall|k: int| 0 <= k < rects.len() ==> (#[trigger] rects[k]).within(size),
    ensures
        0 <= DirtyBand::hull(rects).height,
        DirtyBand::hull(rects).height == 0 ==> DirtyBand::hull(rects) == DirtyBand::empty(),
        DirtyBand::hull(rects).height > 0 ==> {
            &&& 0 <= DirtyBand::hull(rects).y_offset
            &&& DirtyBand::hull(rects).upper() <= size
            &&& exists|k: int|
                0 <= k < rects.len() && (#[trigger] rects[k]).height > 0 && rects[k].y
                    == DirtyBand::hull(rects).y_offset
            &&& exists|k: int|
                0 <= k < rects.len() && (#[trigger] rects[k]).height > 0 && rects[k].y
                    + rects[k].height == DirtyBand::hull(rects).upper()
        },
    decreases rects.len(),
{
    if rects.len() > 0 {
        let front = rects.drop_last();
        let last = rects.last();
        let n = rects.len() - 1;
        assert(last.within(size));
        assert forall|k: int| 0 <= k < front.len() implies (#[trigger] front[k]).within(size) by {
            assert(front[k] == rects[k]);
        }
        lemma_hull_on_surface(front, size);
        let inner = DirtyBand::hull(front);
        let outer = DirtyBand::hull(rects);
        assert(outer == inner.cover(last.y as int, last.height as int));
        if outer.height > 0 {
            if last.height > 0 && (inner.height == 0 || last.y <= inner.y_offset) {
                assert(rects[n].height > 0 && rects[n].y == outer.y_offset);
            } else {
                let k = choose|k: int|
                    0 <= k < front.len() && (#[trigger] front[k]).height > 0 && front[k].y
                        == inner.y_offset;
                assert(rects[k] == front[k]);
                assert(rects[k].height > 0 && rects[k].y == outer.y_offset);
            }
            if last.height > 0 && (inner.height == 0 || last.y + last.height >= inner.upper()) {
                assert(rects[n].height > 0 && rects[n].y + rects[n].height == outer.upper());
            } else {
                let k = choose|k: int|
                    0 <= k < front.len() && (#[trigger] front[k]).height > 0 && front[k].y
                        + front[k].height == inner.upper();
                assert(rects[k] == front[k]);
                assert(rects[k].height > 0 && rects[k].y + rects[k].height == outer.upper());
            }
        }
    }
}

/// However many rectangles are pending, a well-formed atlas asks for at
/// most one transfer. It sends the rows from the first that a pending
/// rectangle starts at to the last that one ends at, and once it is taken
/// nothing is left to send.
pub proof fn lemma_one_upload(v: AtlasView)
    requires
        v.wf(),
    ensures
        v.flushed().wf(),
        v.flushed().upload() is None,
        v.flushed().placed == v.placed,
        v.upload() is Some ==> {
            &&& v.upload().unwrap().y_offset == DirtyBand::hull(v.pending).y_offset
            &&& v.upload().unwrap().height == DirtyBand::hull(v.pending).height
            &&& v.upload().unwrap().start == v.stride * v.upload().unwrap().y_offset
            &&& v.upload().unwrap().end == v.stride * (v.upload().unwrap().y_offset
                + v.upload().unwrap().height)
            &&& v.upload().unwrap().end <= v.surface.len()
        },
        forall|i: int|
            0 <= i < v.pending.len() && (#[trigger] v.pending[i]).height > 0 ==> {
                &&& v.upload() is Some
                &&& v.upload().unwrap().y_offset <= v.pending[i].y
                &&& v.pending[i].y + v.pending[i].height <= v.upload().unwrap().y_offset
                    + v.upload().unwrap().height
            },
{
    assert forall|i: int|
        0 <= i < v.pending.len() && (#[trigger] v.pending[i]).height > 0 implies {
        &&& v.upload() is Some
        &&& v.upload().unwrap().y_offset <= v.pending[i].y
        &&& v.pending[i].y + v.pending[i].height <= v.upload().unwrap().y_offset
            + v.upload().unwrap().height
    } by {
        lemma_hull_covers(v.pending, v.size, i);
    }
    if v.dirty.height > 0 {
        lemma_upload_range(v);
        let f = v.flushed();
        assert(f.placed == v.placed);
        assert forall|i: int| 0 <= i < f.placed.len() implies (#[trigger] f.placed[i]).within(
            f.size,
        ) && f.shelved(f.placed[i]) by {
            assert(v.placed[i].within(v.size) && v.shelved(v.placed[i]));
        }
        if f.row_tallest > 0 {
            let k = choose|k: int|
                0 <= k < v.placed.len() && (#[trigger] v.placed[k]).y == v.insert_y
                    && v.placed[k].height == v.row_tallest;
            assert(f.placed[k] == v.placed[k]);
        }
    }
}

/// The bytes of a pending transfer lie on the surface.
pub proof fn lemma_upload_range(v: AtlasView)
    requires
        v.wf(),
        v.dirty.height > 0,
    ensures
        0 <= 4 * v.size * v.dirty.y_offset <= 4 * v.size * v.dirty.upper() <= 4 * v.size * v.size,
        4 * v.size * v.size <= 0x4000_0000,
        4 * v.size * v.dirty.y_offset == v.stride * v.dirty.y_offset,
        4 * v.size * v.dirty.upper() == v.stride * v.dirty.upper(),
{
    assert(0 <= 4 * v.size * v.dirty.y_offset <= 4 * v.size * v.dirty.upper() <= 4 * v.size
        * v.size) by (nonlinear_arith)
        requires
            0 <= v.dirty.y_offset <= v.dirty.upper() <= v.size,
            1 <= v.size,
    ;
    assert(4 * v.size * v.size <= 0x4000_0000) by (nonlinear_arith)
        requires
            1 <= v.size <= 16384,
    ;
}

} // verus!
