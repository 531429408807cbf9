use vstd::prelude::*;

use crate::image::{Image, is_black};

verus! {

/// std's `PathBuf`, carried through `Config` and never looked into.
#[verifier::external_type_specification]
#[verifier::external_body]
pub struct ExPathBuf(std::path::PathBuf);

/// What one run of the compositor works from.
pub struct Config {
    /// The satellite to source imagery from.
    pub satellite: Satellite,
    /// The width of the generated wallpaper.
    pub resolution_x: u32,
    /// The height of the generated wallpaper.
    pub resolution_y: u32,
    /// The disk's size, in percent of the wallpaper's smaller dimension.
    pub disk_size: u32,
    /// The directory that receives the generated wallpaper.
    pub target_path: std::path::PathBuf,
}

/// The satellites whose full-disk imagery can be fetched.
#[derive(Debug, Clone, Copy, PartialEq, Eq, Structural)]
pub enum Satellite {
    GOESEast,
    GOESWest,
    Himawari,
    Meteosat9,
    Meteosat10,
}

pub open spec fn min_u32(a: u32, b: u32) -> u32 {
    if a <= b {
        a
    } else {
        b
    }
}

/// `floor(min(x, y) * percent / 100)`, saturated at `u32::MAX`.
pub open spec fn disk_dim(x: u32, y: u32, percent: u32) -> u32 {
    let d = min_u32(x, y) as int * percent as int / 100;
    if d > u32::MAX {
        u32::MAX
    } else {
        d as u32
    }
}

impl Config {
    pub open spec fn disk_spec(&self) -> u32 {
        disk_dim(self.resolution_x, self.resolution_y, self.disk_size)
    }

    /// The edge length of the disk image, in pixels.
    pub fn disk(&self) -> (r: u32)
        ensures
            r == self.disk_spec(),
    {
        let smaller_dim = if self.resolution_x <= self.resolution_y {
            self.resolution_x
        } else {
            self.resolution_y
        };
        assert(smaller_dim as int * self.disk_size as int <= u64::MAX) by (nonlinear_arith)
            requires
                smaller_dim <= u32::MAX,
                self.disk_size <= u32::MAX,
        ;
        let d: u64 = smaller_dim as u64 * self.disk_size as u64 / 100;
        if d > u32::MAX as u64 {
            u32::MAX
        } else {
            d as u32
        }
    }
}

impl Satellite {
    pub open spec fn id_spec(self) -> Seq<char> {
        match self {
            Satellite::GOESEast => "goes-16"@,
            Satellite::GOESWest => "goes-18"@,
            Satellite::Himawari => "himawari"@,
            Satellite::Meteosat9 => "meteosat-9"@,
            Satellite::Meteosat10 => "meteosat-0deg"@,
        }
    }

    pub open spec fn max_zoom_spec(self) -> u32 {
        match self {
            Satellite::GOESEast | Satellite::GOESWest | Satellite::Himawari => 4,
            Satellite::Meteosat9 | Satellite::Meteosat10 => 3,
        }
    }

    pub open spec fn tile_count_spec(self) -> u32 {
        match self {
            Satellite::GOESEast | Satellite::GOESWest | Satellite::Himawari => 16,
            Satellite::Meteosat9 | Satellite::Meteosat10 => 8,
        }
    }

    pub open spec fn tile_size_spec(self) -> u32 {
        match self {
            Satellite::GOESEast | Satellite::GOESWest => 678,
            Satellite::Himawari => 688,
            Satellite::Meteosat9 | Satellite::Meteosat10 => 464,
        }
    }

    /// The service's name for the satellite.
    pub fn id(self) -> (r: &'static str)
        ensures
            r@ == self.id_spec(),
    {
        proof {
            reveal_strlit("goes-16");
            reveal_strlit("goes-18");
            reveal_strlit("himawari");
            reveal_strlit("meteosat-9");
            reveal_strlit("meteosat-0deg");
        }
        match self {
            Satellite::GOESEast => "goes-16",
            Satellite::GOESWest => "goes-18",
            Satellite::Himawari => "himawari",
            Satellite::Meteosat9 => "meteosat-9",
            Satellite::Meteosat10 => "meteosat-0deg",
        }
    }

    /// The zoom level at which the full grid of tiles is fetched.
    pub fn max_zoom(self) -> (r: u32)
        ensures
            r == self.max_zoom_spec(),
    {
        match self {
            Satellite::GOESEast | Satellite::GOESWest | Satellite::Himawari => 4,
            Satellite::Meteosat9 | Satellite::Meteosat10 => 3,
        }
    }

    /// A black image as large as the whole grid of tiles at full size.
    pub fn image(self) -> (r: Image)
        ensures
            r.wf(),
            r.width == self.tile_count_spec() * self.tile_size_spec(),
            r.height == self.tile_count_spec() * self.tile_size_spec(),
            forall|i: int| 0 <= i < r.data@.len() ==> is_black(#[trigger] r.data@[i]),
    {
        let edge = self.tile_count() * self.tile_size();
        assert(edge as int * edge as int <= usize::MAX) by (nonlinear_arith)
            requires
                edge <= 16 * 688,
        ;
        Image::new(edge, edge)
    }

    /// A black image of one tile at full size.
    pub fn tile_image(self) -> (r: Image)
        ensures
            r.wf(),
            r.width == self.tile_size_spec(),
            r.height == self.tile_size_spec(),
            forall|i: int| 0 <= i < r.data@.len() ==> is_black(#[trigger] r.data@[i]),
    {
        Image::new(self.tile_size(), self.tile_size())
    }

    /// The number of tiles along each edge of the grid.
    pub fn tile_count(self) -> (r: u32)
        ensures
            r == self.tile_count_spec(),
    {
        match self {
            Satellite::GOESEast | Satellite::GOESWest | Satellite::Himawari => 16,
            Satellite::Meteosat9 | Satellite::Meteosat10 => 8,
        }
    }

    /// The edge length of one tile as the service sends it, in pixels.
    pub fn tile_size(self) -> (r: u32)
        ensures
            r == self.tile_size_spec(),
    {
        match self {
            Satellite::GOESEast | Satellite::GOESWest => 678,
            Satellite::Himawari => 688,
            Satellite::Meteosat9 | Satellite::Meteosat10 => 464,
        }
    }
}

} // verus!
