use satpaper::cycle::{
    assemble, check_timestamp, conclude_cycle, record_cycle, DownloadError, TileResult,
};
use satpaper::image::Image;
use satpaper::slider::{decode_tile, tile_from_frame, PngFrame, TileError};
use satpaper::stitch::{tile_coordinates, StitchError, Stitcher};

fn solid(width: u32, height: u32, p: [u8; 3]) -> Image {
    Image { width, height, data: vec![p; (width * height) as usize] }
}

fn png_bytes(width: u32, height: u32, color: png::ColorType, data: &[u8]) -> Vec<u8> {
    let mut out = Vec::new();
    {
        let mut enc = png::Encoder::new(&mut out, width, height);
        enc.set_color(color);
        enc.set_depth(png::BitDepth::Eight);
        let mut w = enc.write_header().unwrap();
        w.write_image_data(data).unwrap();
    }
    out
}

#[test]
fn coordinates_list_each_cell_once() {
    let c = tile_coordinates(3);
    assert_eq!(c, vec![(0, 0), (0, 1), (0, 2), (1, 0), (1, 1), (1, 2), (2, 0), (2, 1), (2, 2)]);
}

#[test]
fn stitcher_places_tiles_in_their_cells() {
    let mut st = Stitcher::new(4, 2);
    assert_eq!(st.tile_px, 2);
    let colours = [[10, 0, 0], [20, 0, 0], [30, 0, 0], [40, 0, 0]];
    for (i, (row, col)) in tile_coordinates(2).into_iter().enumerate() {
        assert!(!st.is_placed(row, col));
        st.place(row, col, &solid(2, 2, colours[i])).unwrap();
        assert!(st.is_placed(row, col));
    }
    let img = st.finish().ok().unwrap();
    for v in 0..4u32 {
        for u in 0..4u32 {
            let cell = (v / 2) * 2 + u / 2;
            assert_eq!(img.data[(v * 4 + u) as usize], colours[cell as usize]);
        }
    }
}

#[test]
fn stitcher_errors() {
    let mut st = Stitcher::new(6, 2);
    assert_eq!(st.place(2, 0, &solid(3, 3, [1, 1, 1])), Err(StitchError::OutOfGrid));
    assert_eq!(st.place(0, 0, &solid(2, 3, [1, 1, 1])), Err(StitchError::WrongTileSize));
    assert_eq!(st.place(0, 0, &solid(3, 3, [1, 1, 1])), Ok(()));
    assert_eq!(st.place(0, 0, &solid(3, 3, [2, 2, 2])), Err(StitchError::AlreadyPlaced));
    assert_eq!(st.canvas.data[0], [1, 1, 1]);
    assert_eq!(st.finish().err(), Some(StitchError::Incomplete));
}

#[test]
fn remainder_strip_stays_black() {
    let mut st = Stitcher::new(5, 2);
    for (row, col) in tile_coordinates(2) {
        st.place(row, col, &solid(2, 2, [7, 7, 7])).unwrap();
    }
    let img = st.finish().ok().unwrap();
    assert_eq!(img.data[4], [0, 0, 0]);
    assert_eq!(img.data[4 * 5], [0, 0, 0]);
    assert_eq!(img.data[3 * 5 + 3], [7, 7, 7]);
}

#[test]
fn assemble_fills_grid() {
    let tiles: Vec<TileResult> = tile_coordinates(2)
        .into_iter()
        .map(|(row, col)| TileResult { row, col, tile: Ok(solid(3, 3, [row as u8, col as u8, 9])) })
        .collect();
    let img = assemble(6, 2, &tiles).ok().unwrap();
    assert_eq!(img.data[0], [0, 0, 9]);
    assert_eq!(img.data[5], [0, 1, 9]);
    assert_eq!(img.data[5 * 6], [1, 0, 9]);
    assert_eq!(img.data[35], [1, 1, 9]);
}

#[test]
fn assemble_aborts_on_failed_tile() {
    let mut tiles: Vec<TileResult> = tile_coordinates(2)
        .into_iter()
        .map(|(row, col)| TileResult { row, col, tile: Ok(solid(3, 3, [1, 1, 1])) })
        .collect();
    tiles[2].tile = Err(TileError::Fetch);
    let r = assemble(6, 2, &tiles);
    assert_eq!(r.err(), Some(DownloadError::Tile { row: 1, col: 0, error: TileError::Fetch }));
    let (write, next) = conclude_cycle(Some(11), 12, &assemble(6, 2, &tiles));
    assert!(!write);
    assert_eq!(next, Some(11));
}

#[test]
fn assemble_rejects_missing_or_repeated_cells() {
    let tiles = vec![
        TileResult { row: 0, col: 0, tile: Ok(solid(1, 1, [1, 1, 1])) },
        TileResult { row: 0, col: 0, tile: Ok(solid(1, 1, [1, 1, 1])) },
    ];
    assert_eq!(assemble(2, 2, &tiles).err(), Some(DownloadError::Stitch(StitchError::AlreadyPlaced)));
    assert_eq!(
        assemble(2, 2, &tiles[..1].iter().map(|t| TileResult { row: t.row, col: t.col, tile: Ok(solid(1, 1, [1, 1, 1])) }).collect()).err(),
        Some(DownloadError::Stitch(StitchError::Incomplete))
    );
}

#[test]
fn timestamp_decisions() {
    assert_eq!(check_timestamp(None, Some(5)), Some(5));
    assert_eq!(check_timestamp(Some(5), Some(5)), None);
    assert_eq!(check_timestamp(Some(5), Some(6)), Some(6));
    assert_eq!(check_timestamp(Some(5), None), None);
    assert_eq!(check_timestamp(None, None), Some(0));
    assert_eq!(record_cycle(Some(5), 6, true), Some(6));
    assert_eq!(record_cycle(Some(5), 6, false), Some(5));
    let ok: Result<Image, DownloadError> = Ok(solid(1, 1, [0, 0, 0]));
    assert_eq!(conclude_cycle(None, 3, &ok), (true, Some(3)));
}

#[test]
fn decode_tile_reads_rgb_png() {
    let data: Vec<u8> = (0..12).collect();
    let bytes = png_bytes(2, 2, png::ColorType::Rgb, &data);
    let img = decode_tile(&bytes, 2).ok().unwrap();
    assert_eq!((img.width, img.height), (2, 2));
    assert_eq!(img.data, vec![[0, 1, 2], [3, 4, 5], [6, 7, 8], [9, 10, 11]]);
    assert_eq!(img.to_rgb_bytes(), data);
}

#[test]
fn decode_tile_errors() {
    assert_eq!(decode_tile(b"not a png", 2).err(), Some(TileError::Decode));
    let data: Vec<u8> = (0..12).collect();
    let bytes = png_bytes(2, 2, png::ColorType::Rgb, &data);
    assert_eq!(decode_tile(&bytes, 3).err(), Some(TileError::WrongSize));
    let grey = png_bytes(2, 2, png::ColorType::Grayscale, &[1, 2, 3, 4]);
    assert_eq!(decode_tile(&grey, 2).err(), Some(TileError::NotRgb8));
}

#[test]
fn frame_checks() {
    let f = PngFrame { width: 1, height: 1, color_type: 2, bit_depth: 8, pixels: vec![1, 2] };
    assert_eq!(tile_from_frame(&f, 1).err(), Some(TileError::WrongSize));
    let f = PngFrame { width: 1, height: 1, color_type: 6, bit_depth: 8, pixels: vec![1, 2, 3, 4] };
    assert_eq!(tile_from_frame(&f, 1).err(), Some(TileError::NotRgb8));
    let f = PngFrame { width: 1, height: 1, color_type: 2, bit_depth: 16, pixels: vec![1, 2, 3, 4, 5, 6] };
    assert_eq!(tile_from_frame(&f, 1).err(), Some(TileError::NotRgb8));
    let f = PngFrame { width: 1, height: 1, color_type: 2, bit_depth: 8, pixels: vec![1, 2, 3] };
    assert_eq!(tile_from_frame(&f, 1).ok().unwrap().data, vec![[1, 2, 3]]);
}

#[test]
fn rgb_bytes_round_trip() {
    assert!(Image::from_rgb_bytes(2, 1, &vec![1, 2, 3, 4, 5]).is_none());
    let img = Image::from_rgb_bytes(2, 1, &vec![1, 2, 3, 4, 5, 6]).unwrap();
    assert_eq!(img.pixel(1, 0), [4, 5, 6]);
    let mut img = Image::new(2, 2);
    img.set_pixel(1, 1, [8, 8, 8]);
    assert_eq!(img.data, vec![[0, 0, 0], [0, 0, 0], [0, 0, 0], [8, 8, 8]]);
}

#[test]
fn assemble_leaves_strip_outside_cells_black() {
    let tiles: Vec<TileResult> = tile_coordinates(2)
        .into_iter()
        .map(|(row, col)| TileResult { row, col, tile: Ok(solid(2, 2, [5, 5, 5])) })
        .collect();
    let img = assemble(5, 2, &tiles).ok().unwrap();
    for v in 0..5u32 {
        for u in 0..5u32 {
            let expected = if u < 4 && v < 4 { [5, 5, 5] } else { [0, 0, 0] };
            assert_eq!(img.data[(v * 5 + u) as usize], expected);
        }
    }
}
