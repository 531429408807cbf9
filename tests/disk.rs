use satpaper::cutout::{cutout_disk, detect_boundary, is_inside, BoundaryEstimate, BIAS_X, BIAS_Y};
use satpaper::image::Image;

fn solid(width: u32, height: u32, p: [u8; 3]) -> Image {
    Image { width, height, data: vec![p; (width * height) as usize] }
}

#[test]
fn bright_square_bounds_at_midline() {
    let mut img = solid(11, 11, [4, 4, 4]);
    for y in 3..=7u32 {
        for x in 3..=7u32 {
            img.data[(y * 11 + x) as usize] = [200, 150, 100];
        }
    }
    let est = detect_boundary(&img);
    assert_eq!(est.disk_left, 3);
    assert_eq!(est.disk_right, 7);
    assert_eq!(est.radius, 2);
    assert_eq!((est.center_x, est.center_y), (5, 5));
}

#[test]
fn one_bright_channel_is_disk() {
    let mut img = solid(9, 3, [0, 0, 0]);
    img.data[9 + 2] = [0, 0, 5];
    img.data[9 + 6] = [3, 200, 200];
    let est = detect_boundary(&img);
    assert_eq!((est.disk_left, est.disk_right, est.radius), (2, 6, 2));
}

#[test]
fn fully_black_input_terminates_at_the_ends() {
    let img = solid(10, 6, [4, 4, 4]);
    let est = detect_boundary(&img);
    assert_eq!(est.disk_left, 9);
    assert_eq!(est.disk_right, 0);
    assert_eq!(est.radius, 0);
    let one = solid(1, 1, [0, 0, 0]);
    let est = detect_boundary(&one);
    assert_eq!((est.disk_left, est.disk_right, est.radius), (0, 0, 0));
}

#[test]
fn circle_membership_is_strict() {
    let est = BoundaryEstimate { disk_left: 0, disk_right: 10, center_x: 5, center_y: 5, radius: 5 };
    assert!(is_inside(&est, 5, 5));
    assert!(is_inside(&est, 9, 7));
    assert!(!is_inside(&est, 10, 5));
    assert!(!is_inside(&est, 8, 9));
}

#[test]
fn composite_copies_exactly_the_circle() {
    let dim = 41u32;
    let earth = solid(dim, dim, [255, 255, 255]);
    let bw = BIAS_X + dim + 10;
    let bh = BIAS_Y + dim + 10;
    let mut bg = solid(bw, bh, [1, 2, 3]);
    let est = cutout_disk(&mut bg, &earth, 3, 4);
    assert_eq!(est.radius, 20);
    let (cx, cy, r) = (20i64, 20i64, 20i64);
    let mut inside = 0u64;
    for v in 0..bh {
        for u in 0..bw {
            let p = bg.data[(v * bw + u) as usize];
            let (x, y) = (u as i64 - 3 - BIAS_X as i64, v as i64 - 4 - BIAS_Y as i64);
            let in_disk = x >= 0 && y >= 0 && x < dim as i64 && y < dim as i64;
            let expected = if in_disk && (x - cx) * (x - cx) + (y - cy) * (y - cy) < r * r {
                [255, 255, 255]
            } else {
                [1, 2, 3]
            };
            assert_eq!(p, expected);
            if p == [255, 255, 255] {
                inside += 1;
            }
        }
    }
    let area = std::f64::consts::PI * 400.0;
    assert!((inside as f64 - area).abs() < 2.0 * std::f64::consts::PI * 20.0);
}

#[test]
fn composite_clips_at_the_background_edge() {
    let earth = solid(8, 8, [9, 9, 9]);
    let mut bg = solid(BIAS_X + 4, BIAS_Y + 4, [0, 0, 0]);
    cutout_disk(&mut bg, &earth, 0, 0);
    assert_eq!(bg.data.len(), ((BIAS_X + 4) * (BIAS_Y + 4)) as usize);
    let w = BIAS_X + 4;
    assert_eq!(bg.data[((BIAS_Y + 3) * w + BIAS_X + 3) as usize], [9, 9, 9]);
}
