use ray_tracer::color::{background, Rgb8, Rgba8, BACKGROUND_ALPHA, BACKGROUND_GRAY};
use ray_tracer::composite::{outcome_color, pixel_color, render_frame};
use ray_tracer::raster::Raster;

fn yellow() -> Rgb8 {
    Rgb8::new(255, 255, 0)
}

#[test]
fn background_is_dark_gray_with_alpha_one() {
    let bg = background();
    assert_eq!(bg, Rgba8::new(70, 70, 70, 1));
    assert_eq!(BACKGROUND_GRAY, 70);
    assert_eq!(BACKGROUND_ALPHA, 1);
    assert!(bg.is_background());
    assert!(!Rgba8::new(0, 0, 0, 255).is_background());
    assert!(!Rgba8::new(70, 70, 70, 255).is_background());
}

#[test]
fn to_rgba_keeps_channels_and_is_opaque() {
    let c = Rgb8::new(12, 34, 56).to_rgba();
    assert_eq!(c, Rgba8::new(12, 34, 56, 255));
}

#[test]
fn outcome_of_hit_and_miss() {
    assert_eq!(outcome_color(Some(yellow())), Rgba8::new(255, 255, 0, 255));
    assert_eq!(outcome_color(None), background());
}

#[test]
fn pixel_with_no_objects_is_background() {
    assert_eq!(pixel_color(&[]), background());
}

#[test]
fn pixel_of_single_hit_is_shaded_color() {
    assert_eq!(pixel_color(&[Some(yellow())]), Rgba8::new(255, 255, 0, 255));
}

#[test]
fn pixel_of_single_miss_is_background() {
    assert_eq!(pixel_color(&[None]), background());
}

#[test]
fn nearer_hit_then_farther_miss_is_background() {
    let nearer = Rgb8::new(200, 10, 10);
    let px = pixel_color(&[Some(nearer), None]);
    assert_eq!(px, background());
    assert_ne!(px, nearer.to_rgba());
}

#[test]
fn last_hit_wins_over_earlier_hits_and_misses() {
    let first = Rgb8::new(1, 2, 3);
    let last = Rgb8::new(9, 8, 7);
    assert_eq!(pixel_color(&[Some(first), None, Some(last)]), Rgba8::new(9, 8, 7, 255));
    assert_eq!(pixel_color(&[None, None, Some(last)]), Rgba8::new(9, 8, 7, 255));
}

#[test]
fn new_raster_is_all_background() {
    let r = Raster::new(3, 2);
    assert_eq!(r.width(), 3);
    assert_eq!(r.height(), 2);
    assert_eq!(r.pixels().len(), 6);
    for y in 0..2 {
        for x in 0..3 {
            assert_eq!(r.get_pixel(x, y), background());
        }
    }
}

#[test]
fn put_pixel_changes_only_that_pixel() {
    let mut r = Raster::new(4, 3);
    let red = Rgba8::new(255, 0, 0, 255);
    r.put_pixel(2, 1, red);
    assert_eq!(r.get_pixel(2, 1), red);
    assert_eq!(r.pixels()[1 * 4 + 2], red);
    assert_eq!(r.get_pixel(1, 2), background());
    assert_eq!(r.get_pixel(2, 0), background());
    assert_eq!(r.get_pixel(3, 2), background());
}

#[test]
fn from_pixels_is_row_major() {
    let mut px = Vec::new();
    for i in 0..6u8 {
        px.push(Rgba8::new(i, 0, 0, 255));
    }
    let r = Raster::from_pixels(3, 2, px);
    assert_eq!(r.get_pixel(0, 0).r, 0);
    assert_eq!(r.get_pixel(2, 0).r, 2);
    assert_eq!(r.get_pixel(0, 1).r, 3);
    assert_eq!(r.get_pixel(2, 1).r, 5);
}

#[test]
fn render_frame_without_objects_is_background_everywhere() {
    let hits: Vec<Vec<Option<Rgb8>>> = vec![Vec::new(); 6];
    let r = render_frame(3, 2, &hits);
    assert_eq!(r.width(), 3);
    assert_eq!(r.height(), 2);
    for y in 0..2 {
        for x in 0..3 {
            assert_eq!(r.get_pixel(x, y), background());
        }
    }
}

#[test]
fn render_frame_centre_hit_corner_miss() {
    // One object, seen only through the centre pixel of a 3 by 3 frame.
    let mut hits: Vec<Vec<Option<Rgb8>>> = vec![vec![None]; 9];
    hits[1 * 3 + 1] = vec![Some(yellow())];
    let r = render_frame(3, 3, &hits);
    assert_eq!(r.get_pixel(1, 1), Rgba8::new(255, 255, 0, 255));
    assert!(!r.get_pixel(1, 1).is_background());
    assert_eq!(r.get_pixel(0, 0), Rgba8::new(70, 70, 70, 1));
    assert_eq!(r.get_pixel(2, 2), background());
}

#[test]
fn render_frame_places_pixels_row_major() {
    // A 2 by 3 frame: pixel (x, y) is hit with color (x, y, 0).
    let mut hits: Vec<Vec<Option<Rgb8>>> = Vec::new();
    for y in 0..3u8 {
        for x in 0..2u8 {
            hits.push(vec![Some(Rgb8::new(x, y, 0))]);
        }
    }
    let r = render_frame(2, 3, &hits);
    for y in 0..3u32 {
        for x in 0..2u32 {
            assert_eq!(r.get_pixel(x, y), Rgba8::new(x as u8, y as u8, 0, 255));
        }
    }
}

#[test]
fn render_frame_last_object_wins_per_pixel() {
    let a = Rgb8::new(10, 20, 30);
    let b = Rgb8::new(40, 50, 60);
    // Pixel 0: A hit, B missed. Pixel 1: both hit. Pixel 2: A missed, B hit.
    let hits = vec![vec![Some(a), None], vec![Some(a), Some(b)], vec![None, Some(b)]];
    let r = render_frame(3, 1, &hits);
    assert_eq!(r.get_pixel(0, 0), background());
    assert_eq!(r.get_pixel(1, 0), b.to_rgba());
    assert_eq!(r.get_pixel(2, 0), b.to_rgba());
}
