use glyph_atlas::atlas::{AtlasInsertError, DirtyBand, GlyphBounds, GlyphTexInfo, Upload};
use glyph_atlas::atlas::Placement;
use glyph_atlas::glyph_cache::{
    GlyphCache, GlyphEvent, GlyphStep, Loaded, FIRST_COMMON_CHAR, LAST_COMMON_CHAR,
};

fn bounds(width: i32, height: i32) -> GlyphBounds {
    GlyphBounds::new(0, 0, width, height).unwrap()
}

fn info(tex_id: u32, x: i32, y: i32, w: i32, h: i32, size: i32) -> GlyphTexInfo {
    GlyphTexInfo { tex_id, uv_left: x, uv_bot: y, uv_width: w, uv_height: h, uv_denom: size }
}

#[test]
fn fresh_cache_holds_one_blank_atlas() {
    let cache = GlyphCache::new(4);
    assert_eq!(cache.atlas_count(), 1);
    assert_eq!(cache.atlases[0].tex_id, 4);
    assert_eq!(cache.atlases[0].size(), 1024);
    assert_eq!(cache.atlases[0].cursor(), (0, 0));
    assert_eq!(cache.lookup(0), None);
    assert_eq!(cache.lookup(65), None);
}

#[test]
fn lookup_twice_gives_the_same_and_asks_for_no_raster() {
    let mut cache = GlyphCache::with_size(1, 8);
    let mut rasterized = 0;
    let mut answers = Vec::new();
    for _ in 0..2 {
        let found = match cache.lookup(42) {
            Some(found) => found,
            None => {
                let placed = cache.try_load(&bounds(3, 3)).unwrap();
                rasterized += 1;
                cache.record(42, placed.info)
            }
        };
        answers.push(found);
    }
    assert_eq!(rasterized, 1);
    assert_eq!(answers[0], answers[1]);
    assert_eq!(answers[0], info(1, 0, 0, 3, 3, 8));
}

#[test]
fn recorded_glyph_is_never_replaced() {
    let mut cache = GlyphCache::with_size(1, 8);
    let first = info(1, 0, 0, 3, 3, 8);
    let second = info(1, 3, 0, 2, 2, 8);
    assert_eq!(cache.record(7, first), first);
    assert_eq!(cache.record(7, second), first);
    assert_eq!(cache.lookup(7), Some(first));
    assert_eq!(cache.record(8, second), second);
    assert_eq!(cache.lookup(8), Some(second));
    assert_eq!(cache.lookup(7), Some(first));
    assert_eq!(cache.lookup(9), None);
}

#[test]
fn full_atlas_is_flushed_once_and_followed_by_a_new_one() {
    let mut cache = GlyphCache::with_size(10, 8);
    let a = cache.try_load(&bounds(8, 8)).unwrap();
    assert_eq!(a.info, info(10, 0, 0, 8, 8, 8));
    assert_eq!(cache.try_load(&bounds(2, 2)), Err(AtlasInsertError::Full));
    assert_eq!(cache.atlas_count(), 1);

    let upload = cache.grow(11);
    assert_eq!(upload, Some(Upload { y_offset: 0, height: 8, start: 0, end: 256 }));
    assert_eq!(cache.atlas_count(), 2);
    assert_eq!(cache.atlases[0].tex_id, 10);
    assert_eq!(cache.atlases[0].dirty_band(), DirtyBand { y_offset: 0, height: 0 });
    assert_eq!(cache.atlases[0].cursor(), (8, 0));
    assert_eq!(cache.atlases[0].update_texture(), None);
    assert_eq!(cache.atlases[1].tex_id, 11);
    assert_eq!(cache.atlases[1].size(), 8);

    let b = cache.try_load(&bounds(2, 2)).unwrap();
    assert_eq!(b.info, info(11, 0, 0, 2, 2, 8));
    assert_eq!(b.offset_x, 0);
    assert_eq!(b.offset_y, -2);
    assert_eq!(cache.atlases[0].cursor(), (8, 0));
    assert_eq!(cache.atlases[1].cursor(), (2, 0));
}

#[test]
fn growing_a_clean_chain_uploads_nothing() {
    let mut cache = GlyphCache::with_size(1, 8);
    assert_eq!(cache.grow(2), None);
    assert_eq!(cache.atlas_count(), 2);
    assert_eq!(cache.atlases[1].tex_id, 2);
}

#[test]
fn too_large_glyph_changes_nothing() {
    let mut cache = GlyphCache::with_size(1, 8);
    cache.try_load(&bounds(3, 3)).unwrap();
    assert_eq!(cache.try_load(&bounds(9, 1)), Err(AtlasInsertError::GlyphTooLarge));
    assert_eq!(cache.atlas_count(), 1);
    assert_eq!(cache.atlases[0].cursor(), (3, 0));
}

#[test]
fn common_chars_are_printable_ascii() {
    assert_eq!(FIRST_COMMON_CHAR, 32);
    assert_eq!(LAST_COMMON_CHAR, 126);
    assert_eq!(FIRST_COMMON_CHAR as char, ' ');
    assert_eq!(LAST_COMMON_CHAR as char, '~');
}

#[test]
fn load_grows_the_chain_once_when_the_atlas_is_full() {
    let mut cache = GlyphCache::with_size(10, 8);
    let mut made = 0;
    let a = cache
        .load_glyph(&bounds(8, 8), || {
            made += 1;
            11
        })
        .unwrap();
    assert_eq!(made, 0);
    assert_eq!(
        a,
        Loaded {
            placement: Placement { offset_x: 0, offset_y: -8, info: info(10, 0, 0, 8, 8, 8) },
            grew: false,
            upload: None,
        }
    );
    let b = cache
        .load_glyph(&bounds(3, 2), || {
            made += 1;
            12
        })
        .unwrap();
    assert_eq!(made, 1);
    assert_eq!(
        b,
        Loaded {
            placement: Placement { offset_x: 0, offset_y: -2, info: info(12, 0, 0, 3, 2, 8) },
            grew: true,
            upload: Some(Upload { y_offset: 0, height: 8, start: 0, end: 256 }),
        }
    );
    assert_eq!(cache.atlas_count(), 2);
    assert_eq!(cache.atlases[0].update_texture(), None);
    assert_eq!(cache.atlases[0].cursor(), (8, 0));
    let c = cache
        .load_glyph(&bounds(3, 2), || {
            made += 1;
            13
        })
        .unwrap();
    assert_eq!(made, 1);
    assert_eq!(c.placement.info, info(12, 3, 0, 3, 2, 8));
    assert!(!c.grew);
    assert_eq!(cache.atlas_count(), 2);
}

#[test]
fn load_refuses_a_glyph_larger_than_the_surface() {
    let mut cache = GlyphCache::with_size(10, 8);
    let mut made = 0;
    let r = cache.load_glyph(&bounds(9, 2), || {
        made += 1;
        11
    });
    assert_eq!(r, Err(AtlasInsertError::GlyphTooLarge));
    let r = cache.load_glyph(&bounds(2, 9), || {
        made += 1;
        11
    });
    assert_eq!(r, Err(AtlasInsertError::GlyphTooLarge));
    assert_eq!(made, 0);
    assert_eq!(cache.atlas_count(), 1);
    assert_eq!(cache.atlases[0].cursor(), (0, 0));
}

#[test]
fn miss_then_hit_through_the_whole_path() {
    let mut cache = GlyphCache::with_size(1, 8);
    let mut rasterized = Vec::new();
    let mut next_tex = 1;
    let glyphs = [(65u32, 5, 5), (66, 5, 5), (65, 5, 5), (67, 8, 3), (66, 5, 5), (67, 8, 3)];
    let mut answers = Vec::new();
    for (id, w, h) in glyphs {
        let found = match cache.lookup(id) {
            Some(found) => found,
            None => {
                let loaded = cache
                    .load_glyph(&bounds(w, h), || {
                        next_tex += 1;
                        next_tex
                    })
                    .unwrap();
                rasterized.push(id);
                cache.record(id, loaded.placement.info)
            }
        };
        answers.push(found);
    }
    assert_eq!(rasterized, vec![65, 66, 67]);
    assert_eq!(answers[0], info(1, 0, 0, 5, 5, 8));
    assert_eq!(answers[1], info(2, 0, 0, 5, 5, 8));
    assert_eq!(answers[2], answers[0]);
    assert_eq!(answers[3], info(2, 0, 5, 8, 3, 8));
    assert_eq!(answers[4], answers[1]);
    assert_eq!(answers[5], answers[3]);
    assert_eq!(cache.atlas_count(), 2);
}

/// Drives `get` the way a renderer does, with a rasterizer that counts.
struct Bench {
    cache: GlyphCache,
    measured: u32,
    painted: u32,
    uploads: Vec<(u32, Upload)>,
    next_tex: u32,
}

fn fetch(bench: &mut Bench, glyph_id: u32, size: (i32, i32)) -> Option<GlyphTexInfo> {
    let mut event = GlyphEvent::Asked;
    for _ in 0..4 {
        let fresh = bench.next_tex;
        let mut made = false;
        let step = bench.cache.get(glyph_id, event, || {
            made = true;
            fresh
        });
        if made {
            bench.next_tex += 1;
        }
        match step {
            GlyphStep::Found(info) => return Some(info),
            GlyphStep::TooLarge => return None,
            GlyphStep::Measure => {
                bench.measured += 1;
                event = GlyphEvent::Measured(bounds(size.0, size.1));
            }
            GlyphStep::Paint(loaded) => {
                assert_eq!(made, loaded.grew);
                if let Some(upload) = loaded.upload {
                    let retired = &bench.cache.atlases[bench.cache.atlas_count() - 2];
                    assert!(retired.rows(&upload).is_some());
                    bench.uploads.push((retired.tex_id, upload));
                }
                bench.painted += 1;
                event = GlyphEvent::Painted(loaded.placement.info);
            }
        }
    }
    panic!("get did not settle");
}

#[test]
fn second_get_is_identical_and_rasterizes_nothing() {
    let mut bench = Bench {
        cache: GlyphCache::with_size(1, 8),
        measured: 0,
        painted: 0,
        uploads: Vec::new(),
        next_tex: 2,
    };
    let first = fetch(&mut bench, 42, (3, 4)).unwrap();
    assert_eq!((bench.measured, bench.painted), (1, 1));
    let second = fetch(&mut bench, 42, (3, 4)).unwrap();
    assert_eq!((bench.measured, bench.painted), (1, 1));
    assert_eq!(first, second);
    assert_eq!(first, info(1, 0, 0, 3, 4, 8));
    // a placed glyph is found whatever event comes with the request
    let odd = bench.cache.get(42, GlyphEvent::Measured(bounds(1, 1)), || 99);
    assert_eq!(odd, GlyphStep::Found(first));
    let odd = bench.cache.get(42, GlyphEvent::Painted(info(9, 9, 9, 9, 9, 9)), || 99);
    assert_eq!(odd, GlyphStep::Found(first));
    assert_eq!(bench.cache.atlases[0].cursor(), (3, 0));
    assert_eq!(bench.cache.atlas_count(), 1);
}

#[test]
fn get_chains_a_new_atlas_when_the_last_is_full() {
    let mut bench = Bench {
        cache: GlyphCache::with_size(1, 8),
        measured: 0,
        painted: 0,
        uploads: Vec::new(),
        next_tex: 2,
    };
    assert_eq!(fetch(&mut bench, 1, (8, 8)), Some(info(1, 0, 0, 8, 8, 8)));
    assert!(bench.uploads.is_empty());
    assert_eq!(fetch(&mut bench, 2, (1, 1)), Some(info(2, 0, 0, 1, 1, 8)));
    assert_eq!(
        bench.uploads,
        vec![(1, Upload { y_offset: 0, height: 8, start: 0, end: 256 })]
    );
    assert_eq!(bench.cache.atlas_count(), 2);
    assert_eq!(bench.next_tex, 3);
    assert_eq!(fetch(&mut bench, 3, (7, 7)), Some(info(2, 1, 0, 7, 7, 8)));
    assert_eq!(bench.cache.atlas_count(), 2);
    assert_eq!(bench.uploads.len(), 1);
    assert_eq!((bench.measured, bench.painted), (3, 3));
    assert_eq!(fetch(&mut bench, 1, (8, 8)), Some(info(1, 0, 0, 8, 8, 8)));
    assert_eq!((bench.measured, bench.painted), (3, 3));
}

#[test]
fn get_reports_a_glyph_that_fits_no_atlas() {
    let mut bench = Bench {
        cache: GlyphCache::with_size(1, 8),
        measured: 0,
        painted: 0,
        uploads: Vec::new(),
        next_tex: 2,
    };
    assert_eq!(fetch(&mut bench, 5, (9, 1)), None);
    assert_eq!((bench.measured, bench.painted), (1, 0));
    assert_eq!(bench.cache.lookup(5), None);
    assert_eq!(bench.cache.atlas_count(), 1);
    assert_eq!(bench.cache.atlases[0].cursor(), (0, 0));
    assert_eq!(bench.next_tex, 2);
}

#[test]
fn asking_for_an_unplaced_glyph_changes_nothing() {
    let mut cache = GlyphCache::with_size(1, 8);
    assert_eq!(cache.get(7, GlyphEvent::Asked, || 2), GlyphStep::Measure);
    assert_eq!(cache.get(7, GlyphEvent::Asked, || 2), GlyphStep::Measure);
    assert_eq!(cache.lookup(7), None);
    assert_eq!(cache.atlas_count(), 1);
    assert_eq!(cache.atlases[0].cursor(), (0, 0));
}
