use fontdue::layout::{CoordinateSystem, GlyphRasterConfig, Layout, LayoutSettings, TextStyle};
use fontdue::{Font, FontSettings};
use std::sync::Arc;
use text_render::colourize::colourize;
use text_render::colours::TextColour;
use text_render::renderer::{PlacedGlyph, TextRenderer, TextRendererError};
use text_render::surface::{DrawableSurface, RgbaSurface};

/// A font of two glyphs: a hollow box at index 0 and the letter A at index 1.
fn small_font() -> Vec<u8> {
    vec![
        0, 1, 0, 0, 0, 7, 0, 64, 0, 2, 0, 48, 99, 109, 97, 112,
        0, 9, 0, 118, 0, 0, 1, 0, 0, 0, 0, 44, 103, 108, 121, 102,
        241, 203, 102, 152, 0, 0, 1, 52, 0, 0, 0, 92, 104, 101, 97, 100,
        242, 53, 221, 248, 0, 0, 0, 124, 0, 0, 0, 54, 104, 104, 101, 97,
        6, 97, 0, 202, 0, 0, 0, 180, 0, 0, 0, 36, 104, 109, 116, 120,
        4, 116, 0, 106, 0, 0, 0, 248, 0, 0, 0, 8, 108, 111, 99, 97,
        0, 46, 0, 20, 0, 0, 1, 44, 0, 0, 0, 6, 109, 97, 120, 112,
        0, 5, 0, 11, 0, 0, 0, 216, 0, 0, 0, 32, 0, 1, 0, 0,
        0, 1, 0, 0, 245, 156, 41, 68, 95, 15, 60, 245, 0, 2, 3, 232,
        0, 0, 0, 0, 180, 146, 244, 0, 0, 0, 0, 0, 220, 47, 166, 92,
        0, 6, 0, 0, 2, 88, 2, 188, 0, 0, 0, 3, 0, 2, 0, 0,
        0, 0, 0, 0, 0, 1, 0, 0, 4, 0, 254, 112, 0, 0, 2, 88,
        0, 6, 255, 255, 2, 88, 0, 1, 0, 0, 0, 0, 0, 0, 0, 0,
        0, 0, 0, 0, 0, 0, 0, 2, 0, 1, 0, 0, 0, 2, 0, 11,
        0, 2, 0, 0, 0, 0, 0, 0, 0, 0, 0, 0, 0, 0, 0, 0,
        0, 0, 0, 0, 0, 0, 0, 0, 2, 88, 0, 100, 2, 28, 0, 6,
        0, 0, 0, 1, 0, 0, 0, 3, 0, 0, 0, 12, 0, 4, 0, 32,
        0, 0, 0, 4, 0, 4, 0, 1, 0, 0, 0, 65, 255, 255, 0, 0,
        0, 65, 255, 255, 255, 192, 0, 1, 0, 0, 0, 0, 0, 0, 0, 20,
        0, 46, 0, 0, 0, 2, 0, 100, 0, 0, 2, 88, 2, 188, 0, 3,
        0, 7, 0, 0, 51, 17, 33, 17, 37, 33, 17, 33, 100, 1, 244, 254,
        52, 1, 164, 254, 92, 2, 188, 253, 68, 40, 2, 108, 0, 2, 0, 6,
        0, 0, 2, 29, 2, 144, 0, 2, 0, 10, 0, 0, 19, 51, 3, 1,
        19, 51, 19, 35, 39, 35, 7, 173, 196, 99, 254, 248, 218, 96, 221, 89,
        62, 239, 66, 1, 11, 1, 64, 253, 181, 2, 144, 253, 112, 200, 200, 0,
    ]
}

fn parsed(data: Vec<u8>) -> Result<Font, &'static str> {
    Font::from_bytes(data, FontSettings::default())
}

/// The left edges of `count` cells half a size wide that start at `x`.
fn cell_offsets(x: f32, size: f32, count: usize) -> Vec<usize> {
    (0..count).map(|i| (x + (size / 2.0) * i as f32) as usize).collect()
}

fn sized(index: u16, px: f32) -> PlacedGlyph {
    PlacedGlyph {
        key: GlyphRasterConfig { glyph_index: index, px, font_hash: 0 },
        parent: 'A',
        x: 0,
        y: 0,
        width: 0,
        height: 0,
    }
}

fn glyph_at(index: u16, parent: char, x: usize, y: usize, width: usize, height: usize) -> PlacedGlyph {
    PlacedGlyph {
        key: GlyphRasterConfig { glyph_index: index, px: 24.0, font_hash: 0 },
        parent,
        x,
        y,
        width,
        height,
    }
}

fn laid_out(font: &Arc<Font>, text: &str, x: f32, y: f32, size: f32) -> Vec<PlacedGlyph> {
    let mut settings = LayoutSettings::default();
    settings.x = x;
    settings.y = y;
    let mut layout: Layout = Layout::new(CoordinateSystem::PositiveYDown);
    layout.reset(&settings);
    layout.append(&[font.clone()], &TextStyle::new(text, size, 0));
    layout
        .glyphs()
        .iter()
        .map(|g| PlacedGlyph {
            key: g.key,
            parent: g.parent,
            x: (x + g.x) as usize,
            y: (y + g.y) as usize,
            width: g.width,
            height: g.height,
        })
        .collect()
}

/// A surface that keeps the pastes it was asked for.
#[derive(Clone, Debug)]
struct Recorder {
    pastes: Vec<(usize, usize, usize, usize)>,
    bytes: Vec<u8>,
}

impl DrawableSurface for Recorder {
    fn paste(&mut self, x: usize, y: usize, width: usize, height: usize, _data: &Self) {
        self.pastes.push((x, y, width, height));
    }

    fn from_raw_mask(_width: usize, _height: usize, data: &[u8], _colour: TextColour) -> Self {
        Recorder { pastes: Vec::new(), bytes: data.to_vec() }
    }
}

fn white() -> TextColour {
    TextColour::new_rgb(255, 255, 255)
}

#[test]
fn load_accepts_a_font() {
    let renderer = TextRenderer::<RgbaSurface>::load(parsed(small_font()));
    assert!(renderer.is_ok());
    assert_eq!(renderer.unwrap().cached_count(), 0);
}

#[test]
fn load_refuses_what_is_no_font() {
    let renderer = TextRenderer::<RgbaSurface>::load(parsed(vec![1, 2, 3, 4]));
    assert!(matches!(renderer, Err(TextRendererError::FontNotFound)));
    let renderer = TextRenderer::<RgbaSurface>::load(parsed(Vec::new()));
    assert!(matches!(renderer, Err(TextRendererError::FontNotFound)));
}

#[test]
fn a_fetched_glyph_is_the_coloured_mask() {
    let font = Font::from_bytes(small_font(), FontSettings::default()).unwrap();
    let glyph = glyph_at(1, 'A', 0, 0, 13, 16);
    let (_, mask) = font.rasterize_config(glyph.key);
    assert!(!mask.is_empty());
    assert!(mask.iter().any(|b| *b != 0));
    let colour = TextColour::new(10, 20, 30, 255);
    let mut renderer = TextRenderer::<RgbaSurface>::load(parsed(small_font())).unwrap();
    let artifact = renderer.get_glyph_surface(&glyph, colour);
    assert_eq!(artifact.data, colourize(&mask, colour));
    assert_eq!(artifact.data.len(), 4 * mask.len());
    assert_eq!((artifact.width, artifact.height), (13, 16));
    assert_eq!(renderer.cached_bytes(&glyph, colour), Some(colourize(&mask, colour)));
}

#[test]
fn a_second_fetch_finds_the_first_entry() {
    let mut renderer = TextRenderer::<RgbaSurface>::load(parsed(small_font())).unwrap();
    let colour = TextColour::new_rgb(1, 2, 3);
    let glyph = glyph_at(1, 'A', 0, 0, 13, 16);
    let first = renderer.get_glyph_surface(&glyph, colour);
    assert_eq!(renderer.cached_count(), 1);
    // the same height, colour and character, but another glyph of the font:
    // the cache is not filled again
    let other = glyph_at(0, 'A', 5, 5, 2, 16);
    let second = renderer.get_glyph_surface(&other, colour);
    assert_eq!(renderer.cached_count(), 1);
    assert_eq!(first.data, second.data);
    assert_eq!((second.width, second.height), (13, 16));
    let third = renderer.get_glyph_surface(&glyph, colour);
    assert_eq!(first.data, third.data);
    assert_eq!(renderer.cached_count(), 1);
}

#[test]
fn a_cached_glyph_needs_no_rasterizing() {
    let mut renderer = TextRenderer::<RgbaSurface>::load(parsed(small_font())).unwrap();
    let colour = white();
    let first = renderer.get_glyph_surface(&glyph_at(1, 'A', 0, 0, 13, 16), colour);
    // index 9 is not in the font; the entry is found before the font is asked
    let again = renderer.get_glyph_surface(&glyph_at(9, 'A', 0, 0, 13, 16), colour);
    assert_eq!(first.data, again.data);
}

#[test]
fn height_colour_and_character_each_part_the_cache() {
    let mut renderer = TextRenderer::<RgbaSurface>::load(parsed(small_font())).unwrap();
    renderer.get_glyph_surface(&glyph_at(1, 'A', 0, 0, 13, 16), white());
    renderer.get_glyph_surface(&glyph_at(1, 'A', 0, 0, 13, 17), white());
    assert_eq!(renderer.cached_count(), 2);
    renderer.get_glyph_surface(&glyph_at(1, 'A', 0, 0, 13, 16), TextColour::new(255, 255, 255, 0));
    assert_eq!(renderer.cached_count(), 3);
    renderer.get_glyph_surface(&glyph_at(1, 'B', 0, 0, 13, 16), white());
    assert_eq!(renderer.cached_count(), 4);
    renderer.get_glyph_surface(&glyph_at(1, 'A', 9, 9, 1, 16), white());
    assert_eq!(renderer.cached_count(), 4);
}

#[test]
fn heights_far_apart_have_places_of_their_own() {
    let mut renderer = TextRenderer::<RgbaSurface>::load(parsed(small_font())).unwrap();
    let low = renderer.get_glyph_surface(&glyph_at(1, 'A', 0, 0, 13, 16), white());
    let high = renderer.get_glyph_surface(&glyph_at(1, 'A', 0, 0, 13, 16 + 65536), white());
    assert_eq!(renderer.cached_count(), 2);
    assert_eq!(low.height, 16);
    assert_eq!(high.height, 16 + 65536);
    renderer.get_glyph_surface(&glyph_at(1, 'A', 0, 0, 13, 16 + (1usize << 32)), white());
    assert_eq!(renderer.cached_count(), 3);
}

#[test]
fn load_keeps_the_font_it_was_given() {
    let renderer = TextRenderer::<RgbaSurface>::load(parsed(small_font())).unwrap();
    assert_eq!(renderer.font.glyph_count(), 2);
    let refused = TextRenderer::<RgbaSurface>::load(Err("no font"));
    assert!(matches!(refused, Err(TextRendererError::FontNotFound)));
}

#[test]
fn accepts_glyph_tells_what_the_font_holds() {
    let renderer = TextRenderer::<RgbaSurface>::load(parsed(small_font())).unwrap();
    assert!(renderer.accepts_glyph(&glyph_at(0, ' ', 0, 0, 1, 1)));
    assert!(renderer.accepts_glyph(&glyph_at(1, 'A', 0, 0, 1, 1)));
    assert!(!renderer.accepts_glyph(&glyph_at(2, 'B', 0, 0, 1, 1)));
}

#[test]
fn can_draw_asks_only_of_glyphs_that_fill_a_place() {
    let mut renderer = TextRenderer::<RgbaSurface>::load(parsed(small_font())).unwrap();
    let good = glyph_at(1, 'A', 0, 0, 13, 16);
    let bad = glyph_at(7, 'A', 0, 0, 13, 16);
    let other = glyph_at(7, 'B', 0, 0, 13, 16);
    assert!(renderer.can_draw(&Vec::new(), white()));
    assert!(renderer.can_draw(&vec![glyph_at(0, ' ', 0, 0, 1, 1), good], white()));
    assert!(!renderer.can_draw(&vec![bad], white()));
    // the second glyph finds the place that the first fills
    assert!(renderer.can_draw(&vec![good, bad], white()));
    assert!(!renderer.can_draw(&vec![bad, good], white()));
    assert!(!renderer.can_draw(&vec![good, other], white()));
    renderer.get_glyph_surface(&good, white());
    // cached now: nothing is asked of the font
    assert!(renderer.can_draw(&vec![bad], white()));
    assert!(!renderer.can_draw(&vec![bad], TextColour::new_rgb(1, 1, 1)));
}

#[test]
fn a_cached_glyph_is_drawn_whatever_the_font_holds() {
    let mut renderer = TextRenderer::<RgbaSurface>::load(parsed(small_font())).unwrap();
    let mut surface = RgbaSurface::blank(32, 32).unwrap();
    let good = glyph_at(1, 'A', 0, 0, 13, 16);
    let bad = glyph_at(7, 'A', 14, 0, 13, 16);
    assert!(renderer.try_draw_string(&vec![good, bad], white(), &mut surface));
    assert_eq!(renderer.cached_count(), 1);
    let art = renderer.get_glyph_surface(&good, white());
    for j in 0..16 {
        for i in 0..13 {
            let from = (j * 13 + i) * 4;
            let left = (j * 32 + i) * 4;
            let right = (j * 32 + 14 + i) * 4;
            assert_eq!(surface.data[left..left + 4], art.data[from..from + 4]);
            assert_eq!(surface.data[right..right + 4], art.data[from..from + 4]);
        }
    }
}

#[test]
fn a_glyph_drawn_above_and_left_of_the_surface_keeps_its_alignment() {
    let mut renderer = TextRenderer::<RgbaSurface>::load(parsed(small_font())).unwrap();
    let mut surface = RgbaSurface::blank(32, 32).unwrap();
    let minus_two = (-2isize) as usize;
    let glyph = glyph_at(1, 'A', minus_two, minus_two, 13, 16);
    renderer.draw_string(&vec![glyph], white(), &mut surface);
    let art = renderer.get_glyph_surface(&glyph, white());
    for j in 0..14 {
        for i in 0..11 {
            let from = ((j + 2) * 13 + i + 2) * 4;
            let to = (j * 32 + i) * 4;
            assert_eq!(surface.data[to..to + 4], art.data[from..from + 4]);
        }
    }
}

#[test]
fn a_glyph_of_too_many_pixels_is_not_accepted() {
    let mut renderer = TextRenderer::<RgbaSurface>::load(parsed(small_font())).unwrap();
    let mut glyph = glyph_at(0, 'x', 0, 0, 500, 700);
    glyph.key = GlyphRasterConfig { glyph_index: 0, px: 1000.0, font_hash: 0 };
    assert!(renderer.accepts_glyph(&glyph));
    glyph.key = GlyphRasterConfig { glyph_index: 0, px: 10000.0, font_hash: 0 };
    assert!(!renderer.accepts_glyph(&glyph));
    assert!(renderer.try_get_glyph_surface(&glyph, white()).is_none());
    assert_eq!(renderer.cached_count(), 0);
}

#[test]
fn a_glyph_of_any_small_size_is_accepted() {
    let renderer = TextRenderer::<RgbaSurface>::load(parsed(small_font())).unwrap();
    let mut glyph = glyph_at(1, 'A', 0, 0, 13, 16);
    assert!(renderer.accepts_glyph(&glyph));
    glyph.key = GlyphRasterConfig { glyph_index: 1, px: 0.0, font_hash: 0 };
    assert!(renderer.accepts_glyph(&glyph));
    glyph.key = GlyphRasterConfig { glyph_index: 0, px: 300.0, font_hash: 0 };
    assert!(renderer.accepts_glyph(&glyph));
}

#[test]
fn a_glyph_of_no_size_has_an_empty_mask() {
    let mut renderer = TextRenderer::<RgbaSurface>::load(parsed(small_font())).unwrap();
    let mut glyph = glyph_at(1, 'A', 0, 0, 0, 0);
    glyph.key = GlyphRasterConfig { glyph_index: 1, px: 0.0, font_hash: 0 };
    let artifact = renderer.get_glyph_surface(&glyph, white());
    assert_eq!(artifact.data, Vec::<u8>::new());
    assert_eq!(renderer.cached_count(), 1);
}

#[test]
fn try_get_refuses_a_glyph_that_the_font_lacks() {
    let mut renderer = TextRenderer::<RgbaSurface>::load(parsed(small_font())).unwrap();
    assert!(renderer.try_get_glyph_surface(&glyph_at(2, 'B', 0, 0, 13, 16), white()).is_none());
    assert_eq!(renderer.cached_count(), 0);
    let made = renderer.try_get_glyph_surface(&glyph_at(1, 'B', 0, 0, 13, 16), white()).unwrap();
    assert_eq!(renderer.cached_count(), 1);
    // cached now, so found whatever the glyph index says
    let found = renderer.try_get_glyph_surface(&glyph_at(2, 'B', 0, 0, 13, 16), white()).unwrap();
    assert_eq!(made.data, found.data);
    assert_eq!(renderer.cached_count(), 1);
}

#[test]
fn try_draw_refuses_a_glyph_that_the_font_lacks() {
    let mut renderer = TextRenderer::<Recorder>::load(parsed(small_font())).unwrap();
    let mut surface = Recorder { pastes: Vec::new(), bytes: Vec::new() };
    let glyphs = vec![glyph_at(1, 'A', 0, 0, 13, 16), glyph_at(7, 'B', 0, 0, 13, 16)];
    assert!(!renderer.try_draw_string(&glyphs, white(), &mut surface));
    assert!(!renderer.try_draw_string_monospaced(&glyphs, &vec![0, 12], 12, white(), &mut surface));
    assert_eq!(renderer.cached_count(), 0);
    assert!(surface.pastes.is_empty());
    assert!(renderer.try_draw_string(&glyphs[..1].to_vec(), white(), &mut surface));
    assert_eq!(renderer.cached_count(), 1);
    assert_eq!(surface.pastes, vec![(0, 0, 13, 16)]);
}

#[test]
fn draw_string_pastes_each_glyph_at_its_place() {
    let mut renderer = TextRenderer::<Recorder>::load(parsed(small_font())).unwrap();
    let mut surface = Recorder { pastes: Vec::new(), bytes: Vec::new() };
    let glyphs = vec![
        glyph_at(1, 'A', 3, 4, 13, 16),
        glyph_at(0, 'x', 20, 5, 12, 17),
        glyph_at(1, 'A', 40, 4, 13, 16),
    ];
    renderer.draw_string(&glyphs, white(), &mut surface);
    assert_eq!(surface.pastes, vec![(3, 4, 13, 16), (20, 5, 12, 17), (40, 4, 13, 16)]);
    assert_eq!(renderer.cached_count(), 2);
}

#[test]
fn monospaced_glyphs_stand_half_a_size_apart() {
    let mut renderer = TextRenderer::<Recorder>::load(parsed(small_font())).unwrap();
    let mut surface = Recorder { pastes: Vec::new(), bytes: Vec::new() };
    let glyphs = vec![
        glyph_at(1, 'A', 3, 4, 13, 16),
        glyph_at(0, 'x', 20, 5, 12, 17),
        glyph_at(1, 'A', 40, 6, 13, 16),
    ];
    renderer.draw_string_monospaced(&glyphs, &cell_offsets(0.0, 24.0, 3), 12, white(), &mut surface);
    assert_eq!(surface.pastes, vec![(0, 4, 12, 16), (12, 5, 12, 17), (24, 6, 12, 16)]);
}

#[test]
fn monospaced_glyphs_of_an_odd_size_stand_where_the_sum_is_cut() {
    let mut renderer = TextRenderer::<Recorder>::load(parsed(small_font())).unwrap();
    let mut surface = Recorder { pastes: Vec::new(), bytes: Vec::new() };
    let glyphs = vec![
        glyph_at(1, 'A', 3, 4, 13, 16),
        glyph_at(0, 'x', 20, 5, 12, 17),
        glyph_at(1, 'A', 40, 6, 13, 16),
        glyph_at(1, 'A', 60, 6, 13, 16),
    ];
    let offsets = cell_offsets(0.0, 25.0, 4);
    assert_eq!(offsets, vec![0, 12, 25, 37]);
    renderer.draw_string_monospaced(&glyphs, &offsets, 12, white(), &mut surface);
    assert_eq!(surface.pastes, vec![(0, 4, 12, 16), (12, 5, 12, 17), (25, 6, 12, 16), (37, 6, 12, 16)]);
}

#[test]
fn try_draw_monospaced_wants_an_offset_for_each_glyph() {
    let mut renderer = TextRenderer::<Recorder>::load(parsed(small_font())).unwrap();
    let mut surface = Recorder { pastes: Vec::new(), bytes: Vec::new() };
    let glyphs = vec![glyph_at(1, 'A', 3, 4, 13, 16), glyph_at(0, 'x', 20, 5, 12, 17)];
    assert!(!renderer.try_draw_string_monospaced(&glyphs, &vec![0], 12, white(), &mut surface));
    assert!(!renderer.try_draw_string_monospaced(&glyphs, &vec![0, 12, 24], 12, white(), &mut surface));
    assert_eq!(renderer.cached_count(), 0);
    assert!(surface.pastes.is_empty());
    assert!(renderer.try_draw_string_monospaced(&glyphs, &vec![5, 1], 9, white(), &mut surface));
    assert_eq!(surface.pastes, vec![(5, 4, 9, 16), (1, 5, 9, 17)]);
}

#[test]
fn a_size_too_small_or_too_large_is_not_accepted() {
    let mut renderer = TextRenderer::<RgbaSurface>::load(parsed(small_font())).unwrap();
    assert!(!renderer.accepts_glyph(&sized(1, 1.0e-45)));
    assert!(!renderer.accepts_glyph(&sized(1, 1.0e-10)));
    assert!(!renderer.accepts_glyph(&sized(1, 1.0e30)));
    assert!(!renderer.accepts_glyph(&sized(1, f32::INFINITY)));
    assert!(!renderer.accepts_glyph(&sized(1, f32::NAN)));
    assert!(renderer.accepts_glyph(&sized(1, 0.000030517578125)));
    assert!(renderer.accepts_glyph(&sized(1, 1.0)));
    assert!(renderer.try_get_glyph_surface(&sized(1, 1.0e-45), white()).is_none());
    assert_eq!(renderer.cached_count(), 0);
}

#[test]
fn a_size_of_zero_or_below_gives_an_empty_mask() {
    let mut renderer = TextRenderer::<RgbaSurface>::load(parsed(small_font())).unwrap();
    assert!(renderer.accepts_glyph(&sized(1, 0.0)));
    assert!(renderer.accepts_glyph(&sized(1, -0.0)));
    assert!(renderer.accepts_glyph(&sized(1, -24.0)));
    assert!(renderer.accepts_glyph(&sized(1, f32::NEG_INFINITY)));
    // the font is not asked for the glyph at such a size
    assert!(renderer.accepts_glyph(&sized(9, -1.0)));
    let artifact = renderer.get_glyph_surface(&sized(9, -1.0), white());
    assert_eq!(artifact.data, Vec::<u8>::new());
    assert_eq!(renderer.cached_count(), 1);
}

#[test]
fn a_clone_has_the_font_and_an_equal_cache_of_its_own() {
    let mut one = TextRenderer::<RgbaSurface>::load(parsed(small_font())).unwrap();
    let glyph = glyph_at(1, 'A', 0, 0, 13, 16);
    one.get_glyph_surface(&glyph, white());
    let mut two = one.clone();
    assert!(Arc::ptr_eq(&one.font, &two.font));
    assert_eq!(two.cached_bytes(&glyph, white()), one.cached_bytes(&glyph, white()));
    assert_eq!(two.cached_count(), 1);
    two.get_glyph_surface(&glyph_at(0, 'x', 0, 0, 12, 17), white());
    assert_eq!(two.cached_count(), 2);
    assert_eq!(one.cached_count(), 1);
}

#[test]
fn renderers_on_one_font_keep_their_own_caches() {
    let font = Arc::new(Font::from_bytes(small_font(), FontSettings::default()).unwrap());
    let mut one = TextRenderer::<RgbaSurface>::with_font(font.clone());
    let two = TextRenderer::<RgbaSurface>::with_font(font);
    let glyph = glyph_at(1, 'A', 0, 0, 13, 16);
    one.get_glyph_surface(&glyph, white());
    assert_eq!(one.cached_count(), 1);
    assert_eq!(two.cached_count(), 0);
    assert_eq!(two.cached_bytes(&glyph, white()), None);
    let mut three = one.clone();
    assert_eq!(three.cached_count(), 1);
    three.get_glyph_surface(&glyph_at(0, 'x', 0, 0, 12, 17), white());
    assert_eq!(three.cached_count(), 2);
    assert_eq!(one.cached_count(), 1);
}

#[test]
fn test_text_renderer() {
    let mut renderer = TextRenderer::<RgbaSurface>::load(parsed(small_font())).unwrap();
    let mut surface = RgbaSurface::blank(256, 256).unwrap();
    let top = laid_out(&renderer.font, "hElLo w0r1d!", 0.0, 0.0, 24.0);
    assert_eq!(top.len(), 12);
    let offsets = cell_offsets(0.0, 24.0, top.len());
    assert!(renderer.try_draw_string_monospaced(&top, &offsets, 12, white(), &mut surface));
    let below = laid_out(&renderer.font, "hElLo w0r1d!", 0.0, 24.0, 24.0);
    assert!(renderer.try_draw_string(&below, white(), &mut surface));
    assert_eq!(surface.data.len(), 256 * 256 * 4);
    assert!(surface.data.iter().any(|b| *b != 0));
    assert!(renderer.cached_count() >= 1);
}
