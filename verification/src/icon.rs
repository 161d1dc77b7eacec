//! Picks the best size out of a window's icons and turns it into pixels that
//! can be painted.

use vstd::prelude::*;

verus! {

/// One image of an icon: its size and its pixels, row by row.
#[derive(Debug, Clone, Copy)]
pub struct IconView<'a> {
    pub w: u32,
    pub h: u32,
    pub pixels: &'a [u32],
}

/// One image of an icon as values.
#[verifier::ext_equal]
pub struct Icon {
    pub w: u32,
    pub h: u32,
    pub pixels: Seq<u32>,
}

impl<'a> View for IconView<'a> {
    type V = Icon;

    open spec fn view(&self) -> Icon {
        Icon { w: self.w, h: self.h, pixels: self.pixels@ }
    }
}

/// How many words the first image of `raw` takes: its size, then its pixels.
pub open spec fn icon_span(raw: Seq<u32>) -> int {
    2 + raw[0] * raw[1]
}

/// Whether `raw` starts with an image that has pixels, and has all of them.
pub open spec fn starts_with_icon(raw: Seq<u32>) -> bool {
    raw.len() >= 2 && raw[0] != 0 && raw[1] != 0 && raw.len() >= icon_span(raw)
}

/// The images in `raw`, one after the other, up to the first that is not
/// whole.
pub open spec fn icons_in(raw: Seq<u32>) -> Seq<Icon>
    decreases raw.len(),
{
    if starts_with_icon(raw) {
        proof {
            assert(raw[0] * raw[1] >= 0) by (nonlinear_arith)
                requires
                    raw[0] >= 0,
                    raw[1] >= 0,
            ;
        }
        seq![Icon { w: raw[0], h: raw[1], pixels: raw.subrange(2, icon_span(raw)) }] + icons_in(
            raw.skip(icon_span(raw)),
        )
    } else {
        Seq::empty()
    }
}

/// The images of a list as values.
pub open spec fn icon_views(v: Seq<IconView<'_>>) -> Seq<Icon> {
    v.map_values(|i: IconView<'_>| i@)
}

/// The images in the words of an icon property.
pub fn iter_icons<'a>(raw: &'a [u32]) -> (r: Vec<IconView<'a>>)
    ensures
        icon_views(r@) == icons_in(raw@),
{
    let mut out: Vec<IconView<'a>> = Vec::new();
    let mut rest: &'a [u32] = raw;
    assert(icon_views(out@) + icons_in(rest@) =~= icons_in(raw@));
    while rest.len() >= 2
        invariant_except_break
            icon_views(out@) + icons_in(rest@) == icons_in(raw@),
        ensures
            icon_views(out@) == icons_in(raw@),
        decreases rest@.len(),
    {
        let w = rest[0];
        let h = rest[1];
        let n: u64 = mul_u32(w, h);
        if w == 0 || h == 0 || ((rest.len() - 2) as u64) < n {
            assert(icon_views(out@) =~= icons_in(raw@));
            break;
        }
        let end: usize = 2 + n as usize;
        let ghost before = icon_views(out@);
        let ghost seen = rest@;
        let icon = IconView { w, h, pixels: vstd::slice::slice_subrange(rest, 2, end) };
        rest = vstd::slice::slice_subrange(rest, end, rest.len());
        assert(rest@ =~= seen.skip(icon_span(seen)));
        out.push(icon);
        assert(icon_views(out@) =~= before.push(icon@));
        assert(icon_views(out@) + icons_in(rest@) =~= before + icons_in(seen));
        if rest.len() < 2 {
            assert(icon_views(out@) =~= icons_in(raw@));
        }
    }
    out
}

fn mul_u32(a: u32, b: u32) -> (r: u64)
    ensures
        r == a * b,
        a != 0 && b != 0 ==> r > 0,
{
    assert(0 <= a * b <= 0xffff_ffff * 0xffff_ffff) by (nonlinear_arith)
        requires
            0 <= a <= 0xffff_ffff,
            0 <= b <= 0xffff_ffff,
    ;
    assert(a != 0 && b != 0 ==> a * b > 0) by (nonlinear_arith)
        requires
            0 <= a,
            0 <= b,
    ;
    a as u64 * b as u64
}

/// The larger side of an image.
pub open spec fn larger_side(icon: Icon) -> int {
    if icon.w > icon.h {
        icon.w as int
    } else {
        icon.h as int
    }
}

/// How far an image is from the wanted size. Being too small counts twice.
pub open spec fn score(icon: Icon, target: u32) -> int {
    if larger_side(icon) >= target {
        larger_side(icon) - target
    } else {
        (target - larger_side(icon)) * 2
    }
}

/// The first of the images with the lowest score.
pub open spec fn best_index(icons: Seq<Icon>, target: u32) -> int
    decreases icons.len(),
{
    if icons.len() <= 1 {
        0
    } else {
        let b = best_index(icons.drop_last(), target);
        if score(icons.last(), target) < score(icons[b], target) {
            icons.len() - 1
        } else {
            b
        }
    }
}

/// The image to use for the wanted size.
pub open spec fn best_icon(raw: Seq<u32>, target: u32) -> Option<Icon> {
    let icons = icons_in(raw);
    if icons.len() == 0 {
        None
    } else {
        Some(icons[best_index(icons, target)])
    }
}

fn score_of(icon: &IconView<'_>, target: u32) -> (r: i64)
    ensures
        r == score(icon@, target),
{
    let big: i64 = if icon.w > icon.h {
        icon.w as i64
    } else {
        icon.h as i64
    };
    let t: i64 = target as i64;
    if big >= t {
        big - t
    } else {
        (t - big) * 2
    }
}

/// Chooses the image whose larger side is closest to `target`, and preferably
/// not below it.
pub fn pick_best<'a>(raw: &'a [u32], target: u32) -> (r: Option<IconView<'a>>)
    ensures
        match (r, best_icon(raw@, target)) {
            (Some(a), Some(b)) => a@ == b,
            (None, None) => true,
            _ => false,
        },
{
    let icons = iter_icons(raw);
    let ghost all = icon_views(icons@);
    if icons.len() == 0 {
        assert(all.len() == 0);
        return None;
    }
    let mut best: usize = 0;
    let mut best_score: i64 = score_of(&icons[0], target);
    let mut i: usize = 1;
    assert(all.take(1).len() == 1);
    while i < icons.len()
        invariant
            1 <= i <= icons@.len(),
            all == icon_views(icons@),
            best < i,
            best == best_index(all.take(i as int), target),
            best_score == score(all[best as int], target),
        decreases icons@.len() - i,
    {
        let s = score_of(&icons[i], target);
        assert(all.take(i + 1).drop_last() =~= all.take(i as int));
        assert(all.take(i + 1).last() == all[i as int]);
        assert(all.take(i + 1)[best as int] == all[best as int]);
        if s < best_score {
            best = i;
            best_score = s;
        }
        i += 1;
    }
    assert(all.take(i as int) =~= all);
    Some(icons[best])
}

/// The blue, green, red and alpha bytes of a pixel, with the colours scaled by
/// the alpha.
pub open spec fn pixel_bytes(px: u32) -> Seq<u8> {
    let a = px / 0x100_0000;
    let r = px / 0x1_0000 % 0x100;
    let g = px / 0x100 % 0x100;
    let b = px % 0x100;
    seq![scaled(b, a), scaled(g, a), scaled(r, a), a as u8]
}

/// A colour channel scaled by an alpha.
pub open spec fn scaled(c: u32, a: u32) -> u8 {
    (c * a / 255) as u8
}

/// The bytes of all pixels.
pub open spec fn painted(pixels: Seq<u32>) -> Seq<u8> {
    Seq::new(pixels.len() * 4, |j: int| pixel_bytes(pixels[j / 4])[j % 4])
}

/// An image ready to be painted: 4 bytes for each pixel, without gaps between
/// the rows.
#[derive(Debug)]
pub struct IconImage {
    pub w: u32,
    pub h: u32,
    pub data: Vec<u8>,
}

/// An image ready to be painted, as values.
#[verifier::ext_equal]
pub struct ImageView {
    pub w: u32,
    pub h: u32,
    pub data: Seq<u8>,
}

impl View for IconImage {
    type V = ImageView;

    open spec fn view(&self) -> ImageView {
        ImageView { w: self.w, h: self.h, data: self.data@ }
    }
}

/// The image to paint for a window's icon at the wanted size.
pub open spec fn image_of(raw: Seq<u32>, target: u32) -> Option<ImageView> {
    match best_icon(raw, target) {
        Some(icon) => Some(ImageView { w: icon.w, h: icon.h, data: painted(icon.pixels) }),
        None => None,
    }
}

/// There is no usable image among a window's icons.
#[derive(Debug, Clone, Copy, PartialEq, Eq, Structural)]
pub struct NoUsableIcon;

fn scale(c: u32, a: u32) -> (r: u8)
    requires
        c < 256,
        a < 256,
    ensures
        r == scaled(c, a),
{
    proof {
        lemma_scaled(c, a);
    }
    (c * a / 255) as u8
}

proof fn lemma_scaled(c: u32, a: u32)
    requires
        c < 256,
        a < 256,
    ensures
        0 <= c * a <= 0xffff,
        c * a / 255 <= a,
{
    assert(0 <= c * a <= 255 * a) by (nonlinear_arith)
        requires
            0 <= c <= 255,
            0 <= a,
    ;
}

/// The image to paint for a window's icon at the wanted size.
pub fn surface_from_icon(raw: &[u32], target_px: u32) -> (r: Result<IconImage, NoUsableIcon>)
    ensures
        match image_of(raw@, target_px) {
            None => r is Err,
            Some(image) => r matches Ok(made) && made@ == image,
        },
{
    let icon = match pick_best(raw, target_px) {
        Some(icon) => icon,
        None => return Err(NoUsableIcon),
    };
    let mut data: Vec<u8> = Vec::new();
    let mut i: usize = 0;
    while i < icon.pixels.len()
        invariant
            i <= icon.pixels@.len(),
            data@ == painted(icon.pixels@.take(i as int)),
        decreases icon.pixels@.len() - i,
    {
        let px = icon.pixels[i];
        let a = px / 0x100_0000;
        let r = px / 0x1_0000 % 0x100;
        let g = px / 0x100 % 0x100;
        let b = px % 0x100;
        data.push(scale(b, a));
        data.push(scale(g, a));
        data.push(scale(r, a));
        data.push(a as u8);
        i += 1;
        assert(data@ =~= painted(icon.pixels@.take(i as int)));
    }
    assert(icon.pixels@.take(i as int) =~= icon.pixels@);
    Ok(IconImage { w: icon.w, h: icon.h, data })
}

proof fn lemma_best_index(icons: Seq<Icon>, target: u32)
    requires
        icons.len() > 0,
    ensures
        0 <= best_index(icons, target) < icons.len(),
        forall|i: int|
            0 <= i < icons.len() ==> score(icons[best_index(icons, target)], target) <= score(
                #[trigger] icons[i],
                target,
            ),
        forall|i: int|
            0 <= i < best_index(icons, target) ==> score(icons[best_index(icons, target)], target)
                < score(#[trigger] icons[i], target),
    decreases icons.len(),
{
    if icons.len() > 1 {
        let rest = icons.drop_last();
        lemma_best_index(rest, target);
        assert(forall|i: int| 0 <= i < rest.len() ==> rest[i] == icons[i]);
    }
}

/// The chosen image is the closest one to the wanted size, and the first of
/// those that are equally close.
pub proof fn law_best_icon_is_closest(raw: Seq<u32>, target: u32)
    requires
        icons_in(raw).len() > 0,
    ensures
        ({
            let icons = icons_in(raw);
            let b = best_index(icons, target);
            &&& 0 <= b < icons.len()
            &&& best_icon(raw, target) == Some(icons[b])
            &&& forall|i: int|
                0 <= i < icons.len() ==> score(icons[b], target) <= score(
                    #[trigger] icons[i],
                    target,
                )
            &&& forall|i: int|
                0 <= i < b ==> score(icons[b], target) < score(#[trigger] icons[i], target)
        }),
{
    lemma_best_index(icons_in(raw), target);
}

/// Of two images that are equally far from the wanted size, the larger one is
/// preferred.
pub proof fn law_larger_icons_are_preferred(a: Icon, b: Icon, target: u32)
    requires
        larger_side(a) > target,
        larger_side(b) < target,
        larger_side(a) - target == target - larger_side(b),
    ensures
        score(a, target) < score(b, target),
{
}

/// No colour of a painted pixel is brighter than its alpha, and an opaque
/// pixel keeps its colours.
pub proof fn law_colours_are_premultiplied(px: u32)
    ensures
        ({
            let bytes = pixel_bytes(px);
            &&& bytes.len() == 4
            &&& bytes[0] <= bytes[3] && bytes[1] <= bytes[3] && bytes[2] <= bytes[3]
            &&& px >= 0xff00_0000 ==> bytes[0] == px % 0x100 && bytes[1] == px / 0x100 % 0x100
                && bytes[2] == px / 0x1_0000 % 0x100 && bytes[3] == 255
        }),
{
    let a = px / 0x100_0000;
    lemma_scaled(px / 0x1_0000 % 0x100, a);
    lemma_scaled(px / 0x100 % 0x100, a);
    lemma_scaled(px % 0x100, a);
    if px >= 0xff00_0000 {
        assert(a == 255);
        assert(scaled(px / 0x1_0000 % 0x100, 255) == px / 0x1_0000 % 0x100);
        assert(scaled(px / 0x100 % 0x100, 255) == px / 0x100 % 0x100);
        assert(scaled(px % 0x100, 255) == px % 0x100);
    }
}

/// The words of an image: its width, its height, and its pixels.
pub open spec fn words_of(icon: Icon) -> Seq<u32> {
    seq![icon.w, icon.h] + icon.pixels
}

/// An image in front of anything else is found first, whole, and what is behind
/// it is read as if it stood alone.
pub proof fn law_images_are_found_again(icon: Icon, rest: Seq<u32>)
    requires
        icon.w > 0,
        icon.h > 0,
        icon.pixels.len() == icon.w * icon.h,
    ensures
        icons_in(words_of(icon) + rest) == seq![icon] + icons_in(rest),
{
    let raw = words_of(icon) + rest;
    let n = icon_span(raw);
    assert(raw[0] == icon.w && raw[1] == icon.h);
    assert(n == 2 + icon.pixels.len());
    assert(raw.subrange(2, n) =~= icon.pixels);
    assert(raw.skip(n) =~= rest);
    assert(seq![Icon { w: raw[0], h: raw[1], pixels: raw.subrange(2, n) }] =~= seq![icon]);
}

/// Words that do not start with a whole image hold none: too few for a size, a
/// side of zero, or fewer pixels than the size says.
pub proof fn law_broken_images_are_left_out(raw: Seq<u32>)
    requires
        raw.len() < 2 || raw[0] == 0 || raw[1] == 0 || raw.len() - 2 < raw[0] * raw[1],
    ensures
        icons_in(raw).len() == 0,
{
}

/// The larger side of an image of the given size.
pub open spec fn side_of(icon: Icon) -> int {
    if icon.w >= icon.h {
        icon.w as int
    } else {
        icon.h as int
    }
}

/// The chosen image fits the wanted size at least as well as any other: among
/// those that are large enough the smallest is best, among those that are too
/// small the largest, and being too small by some pixels is as bad as being too
/// large by twice as many.
pub proof fn law_chosen_image_fits_best(raw: Seq<u32>, target: u32, i: int)
    requires
        0 <= i < icons_in(raw).len(),
    ensures
        best_icon(raw, target) matches Some(best) && icons_in(raw).contains(best) && {
            let (a, b) = (side_of(best), side_of(icons_in(raw)[i]));
            &&& a >= target && b >= target ==> a <= b
            &&& a < target && b < target ==> a >= b
            &&& a >= target && b < target ==> a - target <= 2 * (target - b)
            &&& a < target && b >= target ==> 2 * (target - a) <= b - target
        },
{
    let icons = icons_in(raw);
    lemma_best_index(icons, target);
    let best = icons[best_index(icons, target)];
    assert(icons.contains(best));
    assert(score(best, target) <= score(icons[i], target));
}

/// Without images there is none to choose, and nothing to paint.
pub proof fn law_no_image_nothing_to_paint(raw: Seq<u32>, target: u32)
    requires
        icons_in(raw).len() == 0,
    ensures
        best_icon(raw, target) is None,
        image_of(raw, target) is None,
{
}

/// What is painted of an image: it keeps its size, and each pixel becomes four
/// bytes, blue, green, red and alpha. Each colour is the part of itself that the
/// alpha says, rounded down.
pub proof fn law_pixels_are_painted(raw: Seq<u32>, target: u32, k: int)
    requires
        best_icon(raw, target) matches Some(icon) && 0 <= k < icon.pixels.len(),
    ensures
        image_of(raw, target) matches Some(image) && {
            let icon = best_icon(raw, target)->0;
            let px = icon.pixels[k] as int;
            let (alpha, red, green, blue) = (
                px / 0x100_0000,
                px / 0x1_0000 % 0x100,
                px / 0x100 % 0x100,
                px % 0x100,
            );
            &&& image.w == icon.w && image.h == icon.h
            &&& image.data.len() == 4 * icon.pixels.len()
            &&& image.data[4 * k + 3] == alpha
            &&& 0 <= blue * alpha - 255 * image.data[4 * k] < 255
            &&& 0 <= green * alpha - 255 * image.data[4 * k + 1] < 255
            &&& 0 <= red * alpha - 255 * image.data[4 * k + 2] < 255
        },
{
    let icon = best_icon(raw, target)->0;
    let px = icon.pixels[k];
    let a = px / 0x100_0000;
    let data = painted(icon.pixels);
    assert((4 * k) / 4 == k && (4 * k + 1) / 4 == k && (4 * k + 2) / 4 == k && (4 * k + 3) / 4
        == k);
    assert(data[4 * k] == pixel_bytes(px)[0]);
    assert(data[4 * k + 1] == pixel_bytes(px)[1]);
    assert(data[4 * k + 2] == pixel_bytes(px)[2]);
    assert(data[4 * k + 3] == pixel_bytes(px)[3]);
    lemma_scaled_part(px % 0x100, a);
    lemma_scaled_part(px / 0x100 % 0x100, a);
    lemma_scaled_part(px / 0x1_0000 % 0x100, a);
}

proof fn lemma_scaled_part(c: u32, a: u32)
    requires
        c < 256,
        a < 256,
    ensures
        0 <= c * a - 255 * scaled(c, a) < 255,
{
    lemma_scaled(c, a);
    let p = c * a;
    assert(p - 255 * (p / 255) == p % 255);
    assert(scaled(c, a) == p / 255);
}

} // verus!
