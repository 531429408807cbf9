use vstd::prelude::*;

use crate::image::{Image, Rgb};

verus! {

/// The brightest channel value that still counts as background.
pub const BLACK: u8 = 4;

/// How far right of the centring offset the disk sits on the background art.
pub const BIAS_X: u32 = 1400;

/// How far below the centring offset the disk sits on the background art.
pub const BIAS_Y: u32 = 132;

/// A pixel is background when no channel is brighter than `BLACK`.
pub open spec fn is_background(p: Rgb) -> bool {
    p[0] <= BLACK && p[1] <= BLACK && p[2] <= BLACK
}

/// Where the disk was found and the circle derived from it.
#[derive(Debug, Clone, Copy, PartialEq, Eq, Structural)]
pub struct BoundaryEstimate {
    pub disk_left: u32,
    pub disk_right: u32,
    pub center_x: u32,
    pub center_y: u32,
    pub radius: u32,
}

/// The first column of row `y`, marching right from 0, whose pixel is not
/// background; the last column when every earlier one is background.
pub open spec fn is_left_edge(img: Image, y: int, r: int) -> bool {
    &&& 0 <= r <= img.width - 1
    &&& forall|x: int| 0 <= x < r ==> is_background(#[trigger] img.at(x, y))
    &&& r < img.width - 1 ==> !is_background(img.at(r, y))
}

/// The first column of row `y`, marching left from the last one, whose pixel is
/// not background; column 0 when every later one is background.
pub open spec fn is_right_edge(img: Image, y: int, r: int) -> bool {
    &&& 0 <= r <= img.width - 1
    &&& forall|x: int| r < x <= img.width - 1 ==> is_background(#[trigger] img.at(x, y))
    &&& r > 0 ==> !is_background(img.at(r, y))
}

/// The estimate that the midline march gives for `earth`: the edges found on
/// the middle row, half their distance as radius (zero when the march found
/// nothing but background), and the centre of the image as centre.
pub open spec fn is_estimate(earth: Image, est: BoundaryEstimate) -> bool {
    &&& is_left_edge(earth, (earth.height - 1) / 2, est.disk_left as int)
    &&& is_right_edge(earth, (earth.height - 1) / 2, est.disk_right as int)
    &&& est.radius == if est.disk_right >= est.disk_left {
        (est.disk_right - est.disk_left) / 2
    } else {
        0
    }
    &&& est.center_x == (earth.width - 1) / 2
    &&& est.center_y == (earth.height - 1) / 2
}

/// Whether `(x, y)` lies strictly inside the estimated circle.
pub open spec fn inside(est: BoundaryEstimate, x: int, y: int) -> bool {
    (est.center_x - x) * (est.center_x - x) + (est.center_y - y) * (est.center_y - y) < est.radius
        * est.radius
}

/// What the background pixel at `(u, v)` becomes when `earth` is laid over it
/// with its origin at `(dx, dy)`, keeping only the pixels inside the circle.
pub open spec fn overlaid(
    bg: Image,
    earth: Image,
    est: BoundaryEstimate,
    dx: int,
    dy: int,
    u: int,
    v: int,
) -> Rgb {
    if takes(earth, est, dx, dy, u, v) {
        earth.at(u - dx, v - dy)
    } else {
        bg.at(u, v)
    }
}

/// Whether the background pixel at `(u, v)` is taken from the disk image.
pub open spec fn takes(earth: Image, est: BoundaryEstimate, dx: int, dy: int, u: int, v: int) -> bool {
    &&& dx <= u < dx + earth.width
    &&& dy <= v < dy + earth.height
    &&& inside(est, u - dx, v - dy)
}

pub fn is_background_pixel(p: Rgb) -> (r: bool)
    ensures
        r == is_background(p),
{
    p[0] <= BLACK && p[1] <= BLACK && p[2] <= BLACK
}

/// Marches right along row `y` from column 0 to the first pixel that is not
/// background.
pub fn march_right(img: &Image, y: u32) -> (r: u32)
    requires
        img.wf(),
        img.width >= 1,
        y < img.height,
    ensures
        is_left_edge(*img, y as int, r as int),
{
    let x_max = img.width - 1;
    let mut x: u32 = 0;
    while x < x_max
        invariant
            img.wf(),
            x_max == img.width - 1,
            y < img.height,
            x <= x_max,
            forall|k: int| 0 <= k < x ==> is_background(#[trigger] img.at(k, y as int)),
        decreases x_max - x,
    {
        if !is_background_pixel(img.pixel(x, y)) {
            return x;
        }
        x = x + 1;
    }
    x_max
}

/// Marches left along row `y` from the last column to the first pixel that is
/// not background, stopping at column 0.
pub fn march_left(img: &Image, y: u32) -> (r: u32)
    requires
        img.wf(),
        img.width >= 1,
        y < img.height,
    ensures
        is_right_edge(*img, y as int, r as int),
{
    let mut x: u32 = img.width - 1;
    while x > 0
        invariant
            img.wf(),
            y < img.height,
            x <= img.width - 1,
            forall|k: int| x < k <= img.width - 1 ==> is_background(#[trigger] img.at(k, y as int)),
        decreases x,
    {
        if !is_background_pixel(img.pixel(x, y)) {
            return x;
        }
        x = x - 1;
    }
    0
}

/// Finds the disk's horizontal extent on the middle row and derives the circle:
/// centred on the image, with half that extent as radius (zero when nothing but
/// background was found).
pub fn detect_boundary(earth: &Image) -> (r: BoundaryEstimate)
    requires
        earth.wf(),
        earth.width >= 1,
        earth.height >= 1,
    ensures
        is_estimate(*earth, r),
{
    let x_max = earth.width - 1;
    let y_max = earth.height - 1;
    let y_center = y_max / 2;
    let disk_left = march_right(earth, y_center);
    let disk_right = march_left(earth, y_center);
    let radius = disk_right.saturating_sub(disk_left) / 2;
    BoundaryEstimate { disk_left, disk_right, center_x: x_max / 2, center_y: y_center, radius }
}

/// When the middle row is background everywhere but on the columns `a..=b`,
/// the march finds exactly `a` and `b`, and the radius is half their distance.
pub proof fn lemma_bright_span_bounds(earth: Image, est: BoundaryEstimate, a: int, b: int)
    requires
        earth.wf(),
        earth.width >= 1,
        earth.height >= 1,
        0 <= a <= b <= earth.width - 1,
        forall|x: int|
            0 <= x < earth.width ==> (is_background(#[trigger] earth.at(x, (earth.height - 1) / 2))
                <==> !(a <= x <= b)),
        is_estimate(earth, est),
    ensures
        est.disk_left == a,
        est.disk_right == b,
        est.radius == (b - a) / 2,
{
    let y = (earth.height - 1) / 2;
    if est.disk_left > a {
        assert(is_background(earth.at(a, y)));
    }
    if est.disk_left < a {
        assert(is_background(earth.at(est.disk_left as int, y)));
    }
    if est.disk_right < b {
        assert(is_background(earth.at(b, y)));
    }
    if est.disk_right > b {
        assert(is_background(earth.at(est.disk_right as int, y)));
    }
}

/// When the middle row is all background, the rightward march stops at the last
/// column, the leftward one at column 0, and the radius is zero.
pub proof fn lemma_black_row_bounds(earth: Image, est: BoundaryEstimate)
    requires
        earth.wf(),
        earth.width >= 1,
        earth.height >= 1,
        forall|x: int|
            0 <= x < earth.width ==> is_background(#[trigger] earth.at(x, (earth.height - 1) / 2)),
        is_estimate(earth, est),
    ensures
        est.disk_left == earth.width - 1,
        est.disk_right == 0,
        est.radius == 0,
{
    let y = (earth.height - 1) / 2;
    if est.disk_left < earth.width - 1 {
        assert(is_background(earth.at(est.disk_left as int, y)));
    }
    if est.disk_right > 0 {
        assert(is_background(earth.at(est.disk_right as int, y)));
    }
}

/// Whether `(x, y)` lies strictly inside the estimated circle.
pub fn is_inside(est: &BoundaryEstimate, x: u32, y: u32) -> (r: bool)
    ensures
        r == inside(*est, x as int, y as int),
{
    let dx: i64 = est.center_x as i64 - x as i64;
    let dy: i64 = est.center_y as i64 - y as i64;
    let ax: u128 = if dx < 0 { (-dx) as u128 } else { dx as u128 };
    let ay: u128 = if dy < 0 { (-dy) as u128 } else { dy as u128 };
    assert(ax * ax + ay * ay <= u128::MAX && ax * ax == dx * dx && ay * ay == dy * dy)
        by (nonlinear_arith)
        requires
            0 <= ax <= u32::MAX,
            0 <= ay <= u32::MAX,
            ax == dx || ax == -dx,
            ay == dy || ay == -dy,
    ;
    assert(est.radius as int * est.radius as int <= u128::MAX) by (nonlinear_arith)
        requires
            est.radius <= u32::MAX,
    ;
    let rr: u128 = est.radius as u128 * est.radius as u128;
    ax * ax + ay * ay < rr
}

/// Whether the disk pixel `(sx, sy)` comes before `(x, y)` in a scan that
/// walks each column from top to bottom, column after column.
pub open spec fn scanned(sx: int, sy: int, x: int, y: int) -> bool {
    sx < x || (sx == x && sy < y)
}

/// Lays every pixel of `earth` that lies inside the circle over `bg`, with the
/// disk's origin at `(dx, dy)`; pixels that would fall outside `bg` are dropped,
/// and every other pixel of `bg` is left as it was.
pub fn overlay_circle(bg: &mut Image, earth: &Image, est: &BoundaryEstimate, dx: u64, dy: u64)
    requires
        old(bg).wf(),
        earth.wf(),
        dx <= 2 * (u32::MAX as u64),
        dy <= 2 * (u32::MAX as u64),
    ensures
        final(bg).wf(),
        final(bg).width == old(bg).width,
        final(bg).height == old(bg).height,
        forall|u: int, v: int|
            0 <= u < old(bg).width && 0 <= v < old(bg).height ==> #[trigger] final(bg).at(u, v)
                == overlaid(*old(bg), *earth, *est, dx as int, dy as int, u, v),
{
    let ghost bg0 = *bg;
    let mut x: u32 = 0;
    while x < earth.width
        invariant
            bg.wf(),
            earth.wf(),
            bg.width == bg0.width,
            bg.height == bg0.height,
            x <= earth.width,
            dx <= 2 * (u32::MAX as u64),
            dy <= 2 * (u32::MAX as u64),
            forall|u: int, v: int|
                0 <= u < bg0.width && 0 <= v < bg0.height ==> #[trigger] bg.at(u, v) == if takes(
                    *earth,
                    *est,
                    dx as int,
                    dy as int,
                    u,
                    v,
                ) && u - dx < x {
                    earth.at(u - dx, v - dy)
                } else {
                    bg0.at(u, v)
                },
        decreases earth.width - x,
    {
        let mut y: u32 = 0;
        while y < earth.height
            invariant
                bg.wf(),
                earth.wf(),
                bg.width == bg0.width,
                bg.height == bg0.height,
                x < earth.width,
                y <= earth.height,
                dx <= 2 * (u32::MAX as u64),
                dy <= 2 * (u32::MAX as u64),
                forall|u: int, v: int|
                    0 <= u < bg0.width && 0 <= v < bg0.height ==> #[trigger] bg.at(u, v) == if takes(
                        *earth,
                        *est,
                        dx as int,
                        dy as int,
                        u,
                        v,
                    ) && scanned(u - dx, v - dy, x as int, y as int) {
                        earth.at(u - dx, v - dy)
                    } else {
                        bg0.at(u, v)
                    },
            decreases earth.height - y,
        {
            if is_inside(est, x, y) {
                let u: u64 = dx + x as u64;
                let v: u64 = dy + y as u64;
                if u < bg.width as u64 && v < bg.height as u64 {
                    let p = earth.pixel(x, y);
                    bg.set_pixel(u as u32, v as u32, p);
                }
            }
            y = y + 1;
        }
        x = x + 1;
    }
}

/// Finds the disk in `earth` and lays the part inside its circle over `bg`,
/// at the given centring offset plus the fixed bias of the background art.
pub fn cutout_disk(bg: &mut Image, earth: &Image, offset_x: u32, offset_y: u32) -> (est:
    BoundaryEstimate)
    requires
        old(bg).wf(),
        earth.wf(),
        earth.width >= 1,
        earth.height >= 1,
    ensures
        is_estimate(*earth, est),
        final(bg).wf(),
        final(bg).width == old(bg).width,
        final(bg).height == old(bg).height,
        forall|u: int, v: int|
            0 <= u < old(bg).width && 0 <= v < old(bg).height ==> #[trigger] final(bg).at(u, v)
                == overlaid(
                *old(bg),
                *earth,
                est,
                offset_x + BIAS_X,
                offset_y + BIAS_Y,
                u,
                v,
            ),
{
    let est = detect_boundary(earth);
    overlay_circle(bg, earth, &est, offset_x as u64 + BIAS_X as u64, offset_y as u64 + BIAS_Y as u64);
    est
}

} // verus!
