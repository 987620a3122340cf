use vstd::prelude::*;

use crate::color::{background, spec_background, Rgb8, Rgba8};
use crate::raster::{lemma_index_in_bounds, spec_index, Raster};

verus! {

/// What one object leaves in a pixel: its shaded color where the pixel's ray
/// hits it, the background where the ray misses it.
pub open spec fn spec_outcome_color(hit: Option<Rgb8>) -> Rgba8 {
    match hit {
        Some(c) => c.spec_to_rgba(),
        None => spec_background(),
    }
}

/// The color of a pixel, given what each object of the scene yields for the
/// pixel's ray, in the scene's order (`None` for an object that is missed).
///
/// Every object writes the pixel in turn, so the last object decides: its
/// shaded color if the ray hits it, the background if the ray misses it.
/// With no objects at all, the pixel is the background.
pub open spec fn spec_pixel_color(hits: Seq<Option<Rgb8>>) -> Rgba8 {
    if hits.len() == 0 {
        spec_background()
    } else {
        spec_outcome_color(hits.last())
    }
}

/// What one object leaves in a pixel.
pub fn outcome_color(hit: Option<Rgb8>) -> (c: Rgba8)
    ensures
        c == spec_outcome_color(hit),
{
    match hit {
        Some(shaded) => shaded.to_rgba(),
        None => background(),
    }
}

/// Composites one pixel: starting from the background, each object in turn
/// overwrites the pixel with its shaded color or, where the ray misses it,
/// with the background.
pub fn pixel_color(hits: &[Option<Rgb8>]) -> (c: Rgba8)
    ensures
        c == spec_pixel_color(hits@),
{
    let mut pixel = background();
    let mut i: usize = 0;
    while i < hits.len()
        invariant
            i <= hits@.len(),
            pixel == spec_pixel_color(hits@.subrange(0, i as int)),
        decreases hits@.len() - i,
    {
        pixel = outcome_color(hits[i]);
        i = i + 1;
        assert(hits@.subrange(0, i as int).last() == hits@[i - 1]);
    }
    assert(hits@.subrange(0, hits@.len() as int) =~= hits@);
    pixel
}

/// Fills a `width` by `height` raster. `hits` holds, for each pixel in
/// row-major order, what each object of the scene yields for that pixel's ray,
/// in the scene's order: its shaded color, or `None` where the ray misses it.
/// The pixels are visited column by column, as a camera sweep would, and each
/// is composited by `pixel_color`.
pub fn render_frame(width: u32, height: u32, hits: &Vec<Vec<Option<Rgb8>>>) -> (r: Raster)
    requires
        hits@.len() == width as int * height as int,
    ensures
        r.wf(),
        r.spec_width() == width,
        r.spec_height() == height,
        forall|x: int, y: int|
            r.spec_contains(x, y) ==> #[trigger] r.spec_pixel(x, y) == spec_pixel_color(
                hits@[spec_index(width as int, x, y)]@,
            ),
{
    let n: usize = hits.len();
    let mut raster = Raster::new(width, height);
    let mut x: u32 = 0;
    while x < width
        invariant
            x <= width,
            hits@.len() == width as int * height as int,
            n == hits@.len(),
            raster.wf(),
            raster.spec_width() == width,
            raster.spec_height() == height,
            forall|u: int, v: int|
                raster.spec_contains(u, v) && u < x ==> #[trigger] raster.spec_pixel(u, v)
                    == spec_pixel_color(hits@[spec_index(width as int, u, v)]@),
        decreases width - x,
    {
        let mut y: u32 = 0;
        while y < height
            invariant
                x < width,
                y <= height,
                hits@.len() == width as int * height as int,
                n == hits@.len(),
                raster.wf(),
                raster.spec_width() == width,
                raster.spec_height() == height,
                forall|u: int, v: int|
                    raster.spec_contains(u, v) && (u < x || (u == x && v < y)) ==> #[trigger] raster.spec_pixel(u, v)
                        == spec_pixel_color(hits@[spec_index(width as int, u, v)]@),
            decreases height - y,
        {
            proof {
                lemma_index_in_bounds(width as int, height as int, x as int, y as int);
                assert((y as int) * (width as int) <= (y as int) * (width as int) + (x as int));
            }
            let i: usize = (y as usize) * (width as usize) + (x as usize);
            let pixel = pixel_color(hits[i].as_slice());
            raster.put_pixel(x, y, pixel);
            y = y + 1;
        }
        x = x + 1;
    }
    raster
}

/// Only the last object of the scene decides a pixel: where the pixel's ray
/// misses the last object, the pixel is the background, however many objects
/// before it (nearer ones included) the ray hits.
pub proof fn lemma_last_object_wins(hits: Seq<Option<Rgb8>>)
    requires
        hits.len() > 0,
        hits.last() is None,
    ensures
        spec_pixel_color(hits) == spec_background(),
{
}

/// A nearer object listed before a farther one: where the ray hits the
/// nearer one and misses the farther one, the pixel is the background, not
/// the nearer object's shaded color.
pub proof fn lemma_nearer_hit_overwritten(nearer: Rgb8)
    ensures
        spec_pixel_color(seq![Some(nearer), None]) == spec_background(),
        spec_pixel_color(seq![Some(nearer), None]) != nearer.spec_to_rgba(),
{
}

/// A scene without objects yields the background in every pixel.
pub proof fn lemma_no_objects_background(hits: Seq<Option<Rgb8>>)
    requires
        hits.len() == 0,
    ensures
        spec_pixel_color(hits) == spec_background(),
{
}

} // verus!
