use crate::atlas::{
    lemma_blank_takes, lemma_one_upload, placement, Atlas, AtlasInsertError, AtlasView,
    GlyphBounds, GlyphTexInfo, PixelRect, Placement, Upload, ATLAS_SIZE, MAX_ATLAS_SIZE,
};
use fnv::FnvHashMap;
use vstd::prelude::*;

verus! {

/// First of the code points that are worth placing before the first frame.
pub const FIRST_COMMON_CHAR: u8 = 32;

/// Last of the code points that are worth placing before the first frame.
pub const LAST_COMMON_CHAR: u8 = 126;

/// `fnv::FnvHasher`, the hasher of the table of placements.
#[verifier::external_type_specification]
#[verifier::external_body]
pub struct ExFnvHasher(fnv::FnvHasher);

/// `std::hash::BuildHasherDefault`, which makes a hasher by `Default`.
#[verifier::external_type_specification]
#[verifier::external_body]
#[verifier::reject_recursive_types(H)]
pub struct ExBuildHasherDefault<H>(std::hash::BuildHasherDefault<H>);

/// `Default::default` of `fnv::FnvHashMap`. Trusted: the map holds no key.
#[verifier::external_body]
fn empty_placements() -> (table: FnvHashMap<u32, GlyphTexInfo>)
    ensures
        forall|glyph_id: u32| !table@.contains_key(glyph_id),
{
    FnvHashMap::default()
}

/// `HashMap::get` on a map that hashes with `fnv::FnvHasher`. Trusted: the
/// hasher gives equal keys equal hashes, so the value comes back exactly
/// where the map holds the key.
#[verifier::external_body]
fn find_placement(table: &FnvHashMap<u32, GlyphTexInfo>, glyph_id: u32) -> (found: Option<
    &GlyphTexInfo,
>)
    ensures
        found is Some <==> table@.contains_key(glyph_id),
        found is Some ==> *found.unwrap() == table@[glyph_id],
{
    table.get(&glyph_id)
}

/// `HashMap::insert` on a map that hashes with `fnv::FnvHasher`. Trusted:
/// the map then holds `info` at `glyph_id` and is otherwise as before.
#[verifier::external_body]
fn add_placement(table: &mut FnvHashMap<u32, GlyphTexInfo>, glyph_id: u32, info: GlyphTexInfo)
    ensures
        final(table)@ == old(table)@.insert(glyph_id, info),
{
    table.insert(glyph_id, info);
}

/// What `GlyphCache::load_glyph` hands back for a glyph that found a slot.
#[derive(Clone, Copy, Debug, PartialEq, Eq, Structural)]
pub struct Loaded {
    /// Where to paint the glyph, on the surface of the current atlas, and
    /// where it lives.
    pub placement: Placement,
    /// Whether the chain grew by an atlas to make room.
    pub grew: bool,
    /// Where the chain grew: the transfer that brings the texture of the
    /// retired atlas, now the last but one, up to date, if one is due.
    pub upload: Option<Upload>,
}

/// What the caller of `GlyphCache::get` has done for the glyph so far.
#[derive(Clone, Copy, Debug, PartialEq, Eq, Structural)]
pub enum GlyphEvent {
    /// Nothing: the glyph is asked for.
    Asked,
    /// The rasterizer measured the glyph: its pixel bounds.
    Measured(GlyphBounds),
    /// The rasterizer painted the glyph into the slot that it was given.
    Painted(GlyphTexInfo),
}

/// What `GlyphCache::get` answers: where the glyph lives, or what the
/// caller has to do next to get it placed.
#[derive(Clone, Copy, Debug, PartialEq, Eq, Structural)]
pub enum GlyphStep {
    /// The glyph is placed, here.
    Found(GlyphTexInfo),
    /// The glyph is not placed. Measure it, and come back with `Measured`.
    Measure,
    /// A slot is reserved. Do the upload, if one is due; paint the glyph
    /// onto the surface of the current atlas, moved by the offset; and
    /// come back with `Painted` and the placement's texture coordinates.
    Paint(Loaded),
    /// The glyph is larger than the surface of an atlas: it cannot be
    /// placed in this cache at all.
    TooLarge,
}

/// The state of a glyph cache as the contracts see it.
pub struct GlyphCacheView {
    /// The glyphs placed so far, each with where it lives.
    pub placements: Map<u32, GlyphTexInfo>,
    /// The chain of atlases, oldest first. Only the last takes rectangles.
    pub atlases: Seq<AtlasView>,
}

impl GlyphCacheView {
    /// The chain holds an atlas, and every atlas of it is well formed.
    pub open spec fn wf(&self) -> bool {
        &&& self.atlases.len() >= 1
        &&& forall|i: int| 0 <= i < self.atlases.len() ==> (#[trigger] self.atlases[i]).wf()
    }

    /// A cache with nothing placed and one blank atlas.
    pub open spec fn fresh(tex_id: u32, size: int) -> GlyphCacheView {
        GlyphCacheView {
            placements: Map::empty(),
            atlases: seq![AtlasView::blank(tex_id, size)],
        }
    }

    /// The atlas that takes rectangles.
    pub open spec fn current(&self) -> AtlasView {
        self.atlases.last()
    }

    /// The cache after a request for `w` by `h` pixels went to the current
    /// atlas.
    pub open spec fn after_load(&self, w: int, h: int) -> GlyphCacheView {
        GlyphCacheView {
            placements: self.placements,
            atlases: self.atlases.drop_last().push(self.current().after_insert(w, h)),
        }
    }

    /// The cache after its current atlas was flushed and a blank atlas of
    /// the same size, for the texture `tex_id`, took its place at the end
    /// of the chain.
    pub open spec fn after_grow(&self, tex_id: u32) -> GlyphCacheView {
        GlyphCacheView {
            placements: self.placements,
            atlases: self.atlases.drop_last().push(self.current().flushed()).push(
                AtlasView::blank(tex_id, self.current().size),
            ),
        }
    }

    /// What a request for the slot of `bounds` returns, where `tex_id` is
    /// the texture that a new atlas would mirror. A glyph larger than the
    /// surface is refused; one that the current atlas takes is placed in
    /// it; any other goes to a new, blank atlas.
    pub open spec fn load_result(&self, bounds: GlyphBounds, tex_id: u32) -> Result<
        Loaded,
        AtlasInsertError,
    > {
        let w = bounds.spec_width();
        let h = bounds.spec_height();
        let (grew, slot) = if self.overflows(w, h) {
            (true, AtlasView::blank(tex_id, self.current().size).slot(w, h))
        } else {
            (false, self.current().slot(w, h))
        };
        let upload = if grew {
            self.current().upload()
        } else {
            None
        };
        let holder = if grew {
            tex_id
        } else {
            self.current().tex_id
        };
        match placement(holder, self.current().size, bounds, slot) {
            Err(e) => Err(e),
            Ok(p) => Ok(Loaded { placement: p, grew, upload }),
        }
    }

    /// The current atlas is too full for a rectangle of `w` by `h` pixels
    /// that an empty atlas would take.
    pub open spec fn overflows(&self, w: int, h: int) -> bool {
        self.current().slot(w, h) == Err::<PixelRect, AtlasInsertError>(AtlasInsertError::Full)
    }

    /// The cache after `load_glyph`, where `tex_id` is the texture that a
    /// new atlas would mirror.
    pub open spec fn after_load_glyph(&self, w: int, h: int, tex_id: u32) -> GlyphCacheView {
        if self.overflows(w, h) {
            self.after_grow(tex_id).after_load(w, h)
        } else {
            self.after_load(w, h)
        }
    }

    /// What `get` answers for `glyph_id` after `event`, where `tex_id` is
    /// the texture that a new atlas would mirror. A glyph that is placed
    /// is found, whatever the event; for any other the event decides.
    pub open spec fn answer(&self, glyph_id: u32, event: GlyphEvent, tex_id: u32) -> GlyphStep {
        if self.placements.contains_key(glyph_id) {
            GlyphStep::Found(self.placements[glyph_id])
        } else {
            match event {
                GlyphEvent::Asked => GlyphStep::Measure,
                GlyphEvent::Measured(bounds) => match self.load_result(bounds, tex_id) {
                    Ok(loaded) => GlyphStep::Paint(loaded),
                    Err(_) => GlyphStep::TooLarge,
                },
                GlyphEvent::Painted(info) => GlyphStep::Found(info),
            }
        }
    }

    /// The cache after `get` for `glyph_id` with `event`, where `tex_id` is
    /// the texture that a new atlas would mirror. Nothing changes for a
    /// glyph that is placed, nor when a glyph is asked for.
    pub open spec fn after_get(
        &self,
        glyph_id: u32,
        event: GlyphEvent,
        tex_id: u32,
    ) -> GlyphCacheView {
        if self.placements.contains_key(glyph_id) {
            *self
        } else {
            match event {
                GlyphEvent::Asked => *self,
                GlyphEvent::Measured(bounds) => self.after_load_glyph(
                    bounds.spec_width(),
                    bounds.spec_height(),
                    tex_id,
                ),
                GlyphEvent::Painted(info) => self.after_record(glyph_id, info),
            }
        }
    }

    /// The cache after `glyph_id` was recorded at `info`: a glyph that was
    /// placed before stays where it was.
    pub open spec fn after_record(&self, glyph_id: u32, info: GlyphTexInfo) -> GlyphCacheView {
        GlyphCacheView {
            placements: if self.placements.contains_key(glyph_id) {
                self.placements
            } else {
                self.placements.insert(glyph_id, info)
            },
            atlases: self.atlases,
        }
    }
}

/// Remembers where each glyph was placed, and owns the chain of atlases
/// that the glyphs are placed in.
pub struct GlyphCache {
    cache: FnvHashMap<u32, GlyphTexInfo>,
    pub atlases: Vec<Atlas>,
}

impl View for GlyphCache {
    type V = GlyphCacheView;

    closed spec fn view(&self) -> GlyphCacheView {
        GlyphCacheView {
            placements: self.cache@,
            atlases: Seq::new(self.atlases@.len(), |i: int| self.atlases@[i]@),
        }
    }
}

impl GlyphCache {
    /// The cache is well formed when its state is.
    pub open spec fn wf(&self) -> bool {
        self@.wf()
    }

    /// A cache with nothing placed and one blank atlas of the default
    /// size, for the texture `tex_id`.
    pub fn new(tex_id: u32) -> (cache: GlyphCache)
        ensures
            cache.wf(),
            cache@ == GlyphCacheView::fresh(tex_id, ATLAS_SIZE as int),
    {
        GlyphCache::with_size(tex_id, ATLAS_SIZE)
    }

    /// A cache with nothing placed and one blank atlas of side `size`, for
    /// the texture `tex_id`.
    pub fn with_size(tex_id: u32, size: i32) -> (cache: GlyphCache)
        requires
            1 <= size <= MAX_ATLAS_SIZE,
        ensures
            cache.wf(),
            cache@ == GlyphCacheView::fresh(tex_id, size as int),
    {
        let mut atlases: Vec<Atlas> = Vec::new();
        atlases.push(Atlas::with_size(tex_id, size));
        let table = empty_placements();
        assert(table@ =~= Map::<u32, GlyphTexInfo>::empty());
        let cache = GlyphCache { cache: table, atlases };
        assert(cache@.atlases =~= seq![AtlasView::blank(tex_id, size as int)]);
        cache
    }

    /// One step towards the placement of a glyph. A glyph that is placed
    /// is found at once, with no change and no work for the rasterizer.
    /// For any other the caller does what the answer says and comes back
    /// with the event that the answer names: asked for, the glyph is to be
    /// measured; measured, it gets a slot and is to be painted, unless it
    /// is too large; painted, it is recorded and found. `new_texture` is
    /// called only where the slot needs a new atlas.
    pub fn get<F: FnOnce() -> u32>(
        &mut self,
        glyph_id: u32,
        event: GlyphEvent,
        new_texture: F,
    ) -> (step: GlyphStep)
        requires
            old(self).wf(),
            event matches GlyphEvent::Measured(bounds) ==> bounds.wf(),
            call_requires(new_texture, ()),
        ensures
            final(self).wf(),
            step == old(self)@.answer(glyph_id, event, final(self)@.current().tex_id),
            final(self)@ == old(self)@.after_get(glyph_id, event, final(self)@.current().tex_id),
            final(self)@.atlases.len() > old(self)@.atlases.len() ==> call_ensures(
                new_texture,
                (),
                final(self)@.current().tex_id,
            ),
    {
        if let Some(found) = self.lookup(glyph_id) {
            return GlyphStep::Found(found);
        }
        match event {
            GlyphEvent::Asked => GlyphStep::Measure,
            GlyphEvent::Measured(bounds) => {
                match self.load_glyph(&bounds, new_texture) {
                    Ok(loaded) => GlyphStep::Paint(loaded),
                    Err(_) => GlyphStep::TooLarge,
                }
            },
            GlyphEvent::Painted(info) => GlyphStep::Found(self.record(glyph_id, info)),
        }
    }

    /// Where the glyph lives, if it was placed.
    pub fn lookup(&self, glyph_id: u32) -> (found: Option<GlyphTexInfo>)
        ensures
            found == (if self@.placements.contains_key(glyph_id) {
                Some(self@.placements[glyph_id])
            } else {
                None
            }),
    {
        match find_placement(&self.cache, glyph_id) {
            Some(info) => Some(*info),
            None => None,
        }
    }

    /// The number of atlases in the chain.
    pub fn atlas_count(&self) -> (count: usize)
        ensures
            count == self@.atlases.len(),
    {
        self.atlases.len()
    }

    /// Reserves a slot for a glyph with the given bounds: in the current
    /// atlas where that has room, and otherwise in a new atlas, which
    /// mirrors the texture that `new_texture` returns and becomes the
    /// current one. `new_texture` is called only in that case, once, and
    /// the chain then grows by exactly one atlas. The request fails only
    /// for a glyph larger than the surface, and then changes nothing.
    pub fn load_glyph<F: FnOnce() -> u32>(
        &mut self,
        glyph_bounds: &GlyphBounds,
        new_texture: F,
    ) -> (result: Result<Loaded, AtlasInsertError>)
        requires
            old(self).wf(),
            glyph_bounds.wf(),
            call_requires(new_texture, ()),
        ensures
            final(self).wf(),
            result == old(self)@.load_result(*glyph_bounds, final(self)@.current().tex_id),
            final(self)@ == old(self)@.after_load_glyph(
                glyph_bounds.spec_width(),
                glyph_bounds.spec_height(),
                final(self)@.current().tex_id,
            ),
            old(self)@.overflows(glyph_bounds.spec_width(), glyph_bounds.spec_height())
                ==> call_ensures(new_texture, (), final(self)@.current().tex_id),
            result is Ok <==> glyph_bounds.spec_width() <= old(self)@.current().size
                && glyph_bounds.spec_height() <= old(self)@.current().size,
            result is Err ==> result == Err::<Loaded, AtlasInsertError>(
                AtlasInsertError::GlyphTooLarge,
            ),
    {
        assert(old(self)@.atlases[old(self)@.atlases.len() - 1].wf());
        match self.try_load(glyph_bounds) {
            Ok(placement) => Ok(Loaded { placement, grew: false, upload: None }),
            Err(AtlasInsertError::GlyphTooLarge) => Err(AtlasInsertError::GlyphTooLarge),
            Err(AtlasInsertError::Full) => {
                assert(self@.atlases =~= old(self)@.atlases);
                let tex_id = new_texture();
                let upload = self.grow(tex_id);
                proof {
                    lemma_grow_then_load(
                        old(self)@,
                        tex_id,
                        glyph_bounds.spec_width(),
                        glyph_bounds.spec_height(),
                    );
                }
                let placement = self.try_load(glyph_bounds).unwrap();
                Ok(Loaded { placement, grew: true, upload })
            },
        }
    }

    /// Reserves a slot for a glyph with the given bounds in the current
    /// atlas. No other atlas changes, and a failed request changes
    /// nothing.
    pub fn try_load(&mut self, glyph_bounds: &GlyphBounds) -> (result: Result<
        Placement,
        AtlasInsertError,
    >)
        requires
            old(self).wf(),
            glyph_bounds.wf(),
        ensures
            final(self).wf(),
            result == placement(
                old(self)@.current().tex_id,
                old(self)@.current().size,
                *glyph_bounds,
                old(self)@.current().slot(glyph_bounds.spec_width(), glyph_bounds.spec_height()),
            ),
            final(self)@ == old(self)@.after_load(
                glyph_bounds.spec_width(),
                glyph_bounds.spec_height(),
            ),
    {
        assert(old(self)@.atlases[old(self)@.atlases.len() - 1].wf());
        let mut atlas = self.atlases.pop().unwrap();
        let result = atlas.insert(glyph_bounds);
        self.atlases.push(atlas);
        proof {
            let after = old(self)@.after_load(
                glyph_bounds.spec_width(),
                glyph_bounds.spec_height(),
            );
            assert(self@.atlases =~= after.atlases);
            assert forall|i: int| 0 <= i < self@.atlases.len() implies (
            #[trigger] self@.atlases[i]).wf() by {
                if i < self@.atlases.len() - 1 {
                    assert(old(self)@.atlases[i].wf());
                }
            }
        }
        result
    }

    /// Retires the current atlas and starts a blank one of the same size
    /// for the texture `tex_id`. Returns the one transfer that brings the
    /// retired atlas's texture up to date, or `None` where it is up to
    /// date; the retired atlas is then the last but one of the chain.
    pub fn grow(&mut self, tex_id: u32) -> (upload: Option<Upload>)
        requires
            old(self).wf(),
        ensures
            final(self).wf(),
            upload == old(self)@.current().upload(),
            final(self)@ == old(self)@.after_grow(tex_id),
    {
        assert(old(self)@.atlases[old(self)@.atlases.len() - 1].wf());
        let mut retired = self.atlases.pop().unwrap();
        let upload = retired.update_texture();
        let size: i32 = retired.size();
        self.atlases.push(retired);
        self.atlases.push(Atlas::with_size(tex_id, size));
        proof {
            assert(self@.atlases =~= old(self)@.after_grow(tex_id).atlases);
            assert forall|i: int| 0 <= i < self@.atlases.len() implies (
            #[trigger] self@.atlases[i]).wf() by {
                if i < self@.atlases.len() - 2 {
                    assert(old(self)@.atlases[i].wf());
                }
            }
        }
        upload
    }

    /// Records that `glyph_id` lives at `info`, unless the glyph was
    /// placed before: a placement is never replaced. Returns where the
    /// glyph lives.
    pub fn record(&mut self, glyph_id: u32, info: GlyphTexInfo) -> (kept: GlyphTexInfo)
        ensures
            final(self)@ == old(self)@.after_record(glyph_id, info),
            kept == final(self)@.placements[glyph_id],
            final(self).wf() == old(self).wf(),
    {
        match self.lookup(glyph_id) {
            Some(kept) => kept,
            None => {
                add_placement(&mut self.cache, glyph_id, info);
                info
            },
        }
    }
}

/// A glyph that is placed stays placed where it is: recording any glyph,
/// reserving a slot and growing the chain all leave its placement alone.
pub proof fn lemma_placement_is_kept(
    v: GlyphCacheView,
    glyph_id: u32,
    other: u32,
    info: GlyphTexInfo,
    tex_id: u32,
    w: int,
    h: int,
)
    requires
        v.placements.contains_key(glyph_id),
    ensures
        v.after_record(other, info).placements.contains_key(glyph_id),
        v.after_record(other, info).placements[glyph_id] == v.placements[glyph_id],
        v.after_load(w, h).placements == v.placements,
        v.after_grow(tex_id).placements == v.placements,
{
}

/// Once a glyph is recorded it is found, at the place recorded first:
/// recording it again changes nothing.
pub proof fn lemma_record_once(
    v: GlyphCacheView,
    glyph_id: u32,
    first: GlyphTexInfo,
    second: GlyphTexInfo,
)
    ensures
        v.after_record(glyph_id, first).placements.contains_key(glyph_id),
        !v.placements.contains_key(glyph_id) ==> v.after_record(glyph_id, first).placements[glyph_id]
            == first,
        v.after_record(glyph_id, first).after_record(glyph_id, second) == v.after_record(
            glyph_id,
            first,
        ),
{
}

/// A request for a slot touches the current atlas only: the chain keeps
/// its length and every earlier atlas stays as it was.
pub proof fn lemma_load_touches_current_only(v: GlyphCacheView, w: int, h: int)
    requires
        v.wf(),
    ensures
        v.after_load(w, h).atlases.len() == v.atlases.len(),
        forall|i: int|
            0 <= i < v.atlases.len() - 1 ==> #[trigger] v.after_load(w, h).atlases[i]
                == v.atlases[i],
        v.after_load(w, h).current() == v.current().after_insert(w, h),
{
}

/// Growing the chain adds exactly one atlas. The atlas that was current is
/// flushed, keeps what it handed out and has nothing more to send; every
/// earlier atlas stays as it was; and the new atlas is blank, so it takes
/// any rectangle that is no larger than its surface, at the origin.
pub proof fn lemma_grow_then_load(v: GlyphCacheView, tex_id: u32, w: int, h: int)
    requires
        v.wf(),
        0 <= w <= v.current().size,
        0 <= h <= v.current().size,
    ensures
        v.after_grow(tex_id).wf(),
        v.after_grow(tex_id).atlases.len() == v.atlases.len() + 1,
        forall|i: int|
            0 <= i < v.atlases.len() - 1 ==> #[trigger] v.after_grow(tex_id).atlases[i]
                == v.atlases[i],
        v.after_grow(tex_id).atlases[v.atlases.len() - 1] == v.current().flushed(),
        v.current().flushed().upload() is None,
        v.current().flushed().placed == v.current().placed,
        v.after_grow(tex_id).current() == AtlasView::blank(tex_id, v.current().size),
        v.after_grow(tex_id).current().slot(w, h) == Ok::<PixelRect, AtlasInsertError>(
            PixelRect { x: 0, y: 0, width: w as i32, height: h as i32 },
        ),
        v.after_grow(tex_id).after_load(w, h).atlases.len() == v.atlases.len() + 1,
{
    let n = v.atlases.len() - 1;
    assert(v.atlases[n].wf());
    lemma_one_upload(v.current());
    lemma_blank_takes(tex_id, v.current().size, w, h);
    let g = v.after_grow(tex_id);
    assert forall|i: int| 0 <= i < g.atlases.len() implies (#[trigger] g.atlases[i]).wf() by {
        if i < n {
            assert(v.atlases[i].wf());
        }
    }
}

/// A glyph that is placed is found where it is, whatever event comes with
/// the request, and the request changes nothing: asking again gives the
/// same answer, and never an answer that sends the caller to the
/// rasterizer.
pub proof fn lemma_found_again(
    v: GlyphCacheView,
    glyph_id: u32,
    first: GlyphEvent,
    second: GlyphEvent,
    tex_id: u32,
)
    requires
        v.placements.contains_key(glyph_id),
    ensures
        v.answer(glyph_id, first, tex_id) == GlyphStep::Found(v.placements[glyph_id]),
        v.after_get(glyph_id, first, tex_id) == v,
        v.after_get(glyph_id, first, tex_id).answer(glyph_id, second, tex_id) == v.answer(
            glyph_id,
            first,
            tex_id,
        ),
{
}

/// A glyph that a request found stays found there: once `get` has
/// answered `Found`, it answers the same for that glyph ever after that
/// request.
pub proof fn lemma_found_stays(
    v: GlyphCacheView,
    glyph_id: u32,
    event: GlyphEvent,
    next: GlyphEvent,
    tex_id: u32,
)
    requires
        v.answer(glyph_id, event, tex_id) is Found,
    ensures
        v.after_get(glyph_id, event, tex_id).answer(glyph_id, next, tex_id) == v.answer(
            glyph_id,
            event,
            tex_id,
        ),
{
}

} // verus!
