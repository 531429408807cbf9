use satpaper::config::{Config, Satellite};
use satpaper::slider::{one, Date, MetadataError, Time};
use satpaper::url::{dates_url, tile_url, times_url};

#[test]
#[allow(clippy::inconsistent_digit_grouping)]
fn test_date_split() {
    assert_eq!(Date { date: 2023_10_26 }.split(), (2023, 10, 26));
    assert_eq!(Date { date: 2027_04_25 }.split(), (2027, 4, 25));
}

#[test]
fn date_split_edges_of_range() {
    assert_eq!(Date { date: 10000101 }.split(), (1000, 1, 1));
    assert_eq!(Date { date: 99991231 }.split(), (9999, 12, 31));
}

#[test]
fn one_takes_first_element_and_ignores_the_rest() {
    assert_eq!(one(&[1697000000, 5, 7]), Ok(1697000000));
    assert_eq!(one(&[42]), Ok(42));
}

#[test]
fn one_fails_on_empty_list() {
    assert_eq!(one(&[]), Err(MetadataError::Empty));
}

#[test]
fn time_and_date_from_lists() {
    let t = Time::from_list(&[20231026174020, 20231026173020]).ok().unwrap();
    assert_eq!(t.as_int(), 20231026174020);
    let d = Date::from_list(&[20231026, 20231025]).ok().unwrap();
    assert_eq!(d.split(), (2023, 10, 26));
    assert!(Time::from_list(&[]).is_err());
    assert!(Date::from_list(&[]).is_err());
}

#[test]
fn satellite_table() {
    assert_eq!(Satellite::GOESEast.id(), "goes-16");
    assert_eq!(Satellite::GOESWest.id(), "goes-18");
    assert_eq!(Satellite::Himawari.id(), "himawari");
    assert_eq!(Satellite::Meteosat9.id(), "meteosat-9");
    assert_eq!(Satellite::Meteosat10.id(), "meteosat-0deg");
    assert_eq!(Satellite::GOESEast.max_zoom(), 4);
    assert_eq!(Satellite::Meteosat9.max_zoom(), 3);
    assert_eq!(Satellite::Himawari.tile_count(), 16);
    assert_eq!(Satellite::Meteosat10.tile_count(), 8);
    assert_eq!(Satellite::GOESWest.tile_size(), 678);
    assert_eq!(Satellite::Himawari.tile_size(), 688);
    assert_eq!(Satellite::Meteosat9.tile_size(), 464);
}

#[test]
fn satellite_images_are_black_and_sized() {
    let t = Satellite::Meteosat9.tile_image();
    assert_eq!((t.width, t.height), (464, 464));
    assert_eq!(t.data.len(), 464 * 464);
    assert!(t.data.iter().all(|p| *p == [0, 0, 0]));
    let i = Satellite::Meteosat9.image();
    assert_eq!((i.width, i.height), (8 * 464, 8 * 464));
}

#[test]
fn disk_dimension() {
    let config = Config {
        satellite: Satellite::GOESEast,
        resolution_x: 2556,
        resolution_y: 1440,
        disk_size: 95,
        target_path: ".".into(),
    };
    assert_eq!(config.disk(), 1368);
    let config = Config {
        satellite: Satellite::GOESEast,
        resolution_x: 1000,
        resolution_y: 1999,
        disk_size: 33,
        target_path: ".".into(),
    };
    assert_eq!(config.disk(), 330);
    let config = Config {
        satellite: Satellite::GOESEast,
        resolution_x: u32::MAX,
        resolution_y: u32::MAX,
        disk_size: 1000,
        target_path: ".".into(),
    };
    assert_eq!(config.disk(), u32::MAX);
}

#[test]
fn metadata_urls() {
    assert_eq!(
        times_url(Satellite::GOESEast),
        "https://rammb-slider.cira.colostate.edu/data/json/goes-16/full_disk/geocolor/latest_times.json"
    );
    assert_eq!(
        dates_url(Satellite::Meteosat10),
        "https://rammb-slider.cira.colostate.edu/data/json/meteosat-0deg/full_disk/geocolor/available_dates.json"
    );
}

#[test]
fn tile_url_pads_fields() {
    assert_eq!(
        tile_url(Satellite::GOESEast, 2023, 4, 5, 20230405174020, 3, 12),
        "https://rammb-slider.cira.colostate.edu/data/imagery/2023/04/05/goes-16---full_disk/geocolor/20230405174020/04/003_012.png"
    );
    assert_eq!(
        tile_url(Satellite::Meteosat9, 999, 12, 31, 0, 0, 7),
        "https://rammb-slider.cira.colostate.edu/data/imagery/0999/12/31/meteosat-9---full_disk/geocolor/0/03/000_007.png"
    );
}
