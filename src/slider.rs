use vstd::prelude::*;

use crate::config::Config;
use crate::cutout::{BoundaryEstimate, cutout_disk, is_estimate, overlaid, BIAS_X, BIAS_Y};
use crate::image::Image;

verus! {

/// png's `DecodingError`, which `decode_tile` maps to `TileError::Decode`.
#[verifier::external_type_specification]
#[verifier::external_body]
pub struct ExDecodingError(png::DecodingError);

/// Why the service's list of dates or timestamps gave no value.
#[derive(Debug, Clone, Copy, PartialEq, Eq, Structural)]
pub enum MetadataError {
    /// The list could not be fetched or read.
    Fetch,
    /// The list held no element.
    Empty,
}

/// Why one tile could not be turned into an image.
#[derive(Debug, Clone, Copy, PartialEq, Eq, Structural)]
pub enum TileError {
    /// The tile could not be fetched from the service.
    Fetch,
    /// The body is not a PNG that decodes.
    Decode,
    /// The PNG is not RGB with one byte per sample.
    NotRgb8,
    /// The PNG is not a square of the satellite's tile edge.
    WrongSize,
}

/// The PNG colour type of RGB samples.
pub const COLOR_RGB: u8 = 2;

/// The bit depth of one byte per sample.
pub const DEPTH_EIGHT: u8 = 8;

/// The first frame of a decoded PNG: its size, its PNG colour type and bit
/// depth as the format numbers them, and its packed sample bytes.
pub struct PngFrame {
    pub width: u32,
    pub height: u32,
    pub color_type: u8,
    pub bit_depth: u8,
    pub pixels: Vec<u8>,
}

/// The latest capture's timestamp.
pub struct Time {
    pub timestamp: u64,
}

/// The latest capture's date, as the decimal digits `YYYYMMDD`.
pub struct Date {
    pub date: u64,
}

/// The first element of a list from the service; the rest is history.
pub open spec fn first_of(values: Seq<u64>) -> Result<u64, MetadataError> {
    if values.len() > 0 {
        Ok(values[0])
    } else {
        Err(MetadataError::Empty)
    }
}

/// Year, month and day of a `YYYYMMDD` date, read by decimal place value.
pub open spec fn date_parts(date: u64) -> (u16, u8, u8) {
    (((date / 10000) % 10000) as u16, ((date / 100) % 100) as u8, (date % 100) as u8)
}

/// The first frame of the PNG held in `bytes`, or `None` when it does not decode.
pub uninterp spec fn png_decoded(bytes: Seq<u8>) -> Option<(u32, u32, u8, u8, Seq<u8>)>;

/// Relies on png's `Decoder::read_info` and `Reader::next_frame`: the first
/// frame of the image, with the colour type and bit depth it is stored in
/// (both png enums are `repr(u8)` with the format's own numbers).
#[verifier::external_body]
fn decode_png(bytes: &[u8]) -> (r: Result<PngFrame, png::DecodingError>)
    ensures
        match r {
            Ok(f) => png_decoded(bytes@) == Some(
                (f.width, f.height, f.color_type, f.bit_depth, f.pixels@),
            ),
            Err(_) => png_decoded(bytes@) is None,
        },
{
    let mut reader = png::Decoder::new(bytes).read_info()?;
    let mut pixels = vec![0u8; reader.output_buffer_size()];
    let info = reader.next_frame(&mut pixels)?;
    pixels.truncate(info.buffer_size());
    let color_type = info.color_type as u8;
    let bit_depth = info.bit_depth as u8;
    Ok(PngFrame { width: info.width, height: info.height, color_type, bit_depth, pixels })
}

/// What a tile becomes from a decoded frame: the frame's pixels when it is an
/// 8-bit RGB square of edge `tile_size`, else the reason it is not.
pub open spec fn is_tile_of(
    r: Result<Image, TileError>,
    width: u32,
    height: u32,
    color_type: u8,
    bit_depth: u8,
    pixels: Seq<u8>,
    tile_size: u32,
) -> bool {
    if !(color_type == COLOR_RGB && bit_depth == DEPTH_EIGHT) {
        r == Err::<Image, TileError>(TileError::NotRgb8)
    } else if !(width == tile_size && height == tile_size && pixels.len() == 3 * (tile_size as int
        * tile_size as int)) {
        r == Err::<Image, TileError>(TileError::WrongSize)
    } else {
        &&& r is Ok
        &&& r->Ok_0.wf()
        &&& r->Ok_0.width == tile_size
        &&& r->Ok_0.height == tile_size
        &&& forall|i: int|
            0 <= i < r->Ok_0.data@.len() ==> #[trigger] r->Ok_0.data@[i] == [
                pixels[3 * i],
                pixels[3 * i + 1],
                pixels[3 * i + 2],
            ]
    }
}

/// Turns `values` into its first element; an empty list is an error.
pub fn one(values: &[u64]) -> (r: Result<u64, MetadataError>)
    ensures
        r == first_of(values@),
{
    if values.len() > 0 {
        Ok(values[0])
    } else {
        Err(MetadataError::Empty)
    }
}

impl Time {
    /// The timestamp that heads the service's list of latest timestamps.
    pub fn from_list(values: &[u64]) -> (r: Result<Time, MetadataError>)
        ensures
            match first_of(values@) {
                Ok(t) => r matches Ok(time) && time.timestamp == t,
                Err(e) => r matches Err(f) && f == e,
            },
    {
        match one(values) {
            Ok(timestamp) => Ok(Time { timestamp }),
            Err(e) => Err(e),
        }
    }

    pub fn as_int(&self) -> (r: u64)
        ensures
            r == self.timestamp,
    {
        self.timestamp
    }
}

impl Date {
    /// The date that heads the service's list of available dates.
    pub fn from_list(values: &[u64]) -> (r: Result<Date, MetadataError>)
        ensures
            match first_of(values@) {
                Ok(d) => r matches Ok(date) && date.date == d,
                Err(e) => r matches Err(f) && f == e,
            },
    {
        match one(values) {
            Ok(date) => Ok(Date { date }),
            Err(e) => Err(e),
        }
    }

    /// Splits the date into year, month and day.
    pub fn split(&self) -> (r: (u16, u8, u8))
        ensures
            r == date_parts(self.date),
    {
        (
            ((self.date / 10000) % 10000) as u16,
            ((self.date / 100) % 100) as u8,
            (self.date % 100) as u8,
        )
    }
}

/// Splitting a date written as `YYYYMMDD` gives back its year, month and day,
/// for every date from the year 1000 to the year 9999.
pub proof fn lemma_split_round_trip(year: u64, month: u64, day: u64)
    requires
        1000 <= year <= 9999,
        1 <= month <= 12,
        1 <= day <= 31,
    ensures
        date_parts((year * 10000 + month * 100 + day) as u64) == (year as u16, month as u8, day as u8),
{
    let date = year * 10000 + month * 100 + day;
    vstd::arithmetic::div_mod::lemma_fundamental_div_mod_converse(
        date as int,
        10000,
        year as int,
        (month * 100 + day) as int,
    );
    vstd::arithmetic::div_mod::lemma_fundamental_div_mod_converse(year as int, 10000, 0, year as int);
    vstd::arithmetic::div_mod::lemma_fundamental_div_mod_converse(
        date as int,
        100,
        (year * 100 + month) as int,
        day as int,
    );
    vstd::arithmetic::div_mod::lemma_fundamental_div_mod_converse(
        (year * 100 + month) as int,
        100,
        year as int,
        month as int,
    );
}

/// Checks a decoded frame and turns it into a tile image.
pub fn tile_from_frame(frame: &PngFrame, tile_size: u32) -> (r: Result<Image, TileError>)
    ensures
        is_tile_of(
            r,
            frame.width,
            frame.height,
            frame.color_type,
            frame.bit_depth,
            frame.pixels@,
            tile_size,
        ),
{
    if frame.color_type != COLOR_RGB || frame.bit_depth != DEPTH_EIGHT {
        return Err(TileError::NotRgb8);
    }
    if frame.width != tile_size || frame.height != tile_size {
        return Err(TileError::WrongSize);
    }
    match Image::from_rgb_bytes(tile_size, tile_size, &frame.pixels) {
        Some(img) => Ok(img),
        None => Err(TileError::WrongSize),
    }
}

/// Decodes the PNG body of one tile into an image of edge `tile_size`.
pub fn decode_tile(bytes: &[u8], tile_size: u32) -> (r: Result<Image, TileError>)
    ensures
        match png_decoded(bytes@) {
            None => r == Err::<Image, TileError>(TileError::Decode),
            Some((w, h, color_type, bit_depth, pixels)) => is_tile_of(
                r,
                w,
                h,
                color_type,
                bit_depth,
                pixels,
                tile_size,
            ),
        },
{
    match decode_png(bytes) {
        Ok(frame) => tile_from_frame(&frame, tile_size),
        Err(_) => Err(TileError::Decode),
    }
}

/// Lays the disk found in `source` over `bg`, centred for the configured
/// resolution and shifted by the background art's bias.
pub fn composite(config: &Config, source: &Image, bg: &mut Image) -> (est: BoundaryEstimate)
    requires
        config.disk_spec() <= config.resolution_x,
        config.disk_spec() <= config.resolution_y,
        source.wf(),
        source.width >= 1,
        source.height >= 1,
        old(bg).wf(),
    ensures
        is_estimate(*source, est),
        final(bg).wf(),
        final(bg).width == old(bg).width,
        final(bg).height == old(bg).height,
        forall|u: int, v: int|
            0 <= u < old(bg).width && 0 <= v < old(bg).height ==> #[trigger] final(bg).at(u, v)
                == overlaid(
                *old(bg),
                *source,
                est,
                (config.resolution_x - config.disk_spec()) / 2 + BIAS_X,
                (config.resolution_y - config.disk_spec()) / 2 + BIAS_Y,
                u,
                v,
            ),
{
    let disk_dim = config.disk();
    cutout_disk(
        bg,
        source,
        (config.resolution_x - disk_dim) / 2,
        (config.resolution_y - disk_dim) / 2,
    )
}

} // verus!
