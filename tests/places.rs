use backend::city::{city_position, city_with_rank_number, random_city_position, rank_number};
use backend::crop_image;
use backend::picture::{cropped_picture_url, cut_bottom};
use backend::error::AppError;
use backend::maps::{png_data_url, InteractiveMap, StaticGuessMap};
use base64::Engine;

fn ranks(list: &[&str]) -> Vec<String> {
    list.iter().map(|s| s.to_string()).collect()
}

#[test]
fn rank_text_is_read_as_a_number() {
    assert_eq!(rank_number("42"), Some(42));
    assert_eq!(rank_number("0007"), Some(7));
    assert_eq!(rank_number("4294967295"), Some(u32::MAX));
    assert_eq!(rank_number("4294967296"), None);
    assert_eq!(rank_number(""), None);
    assert_eq!(rank_number("4a"), None);
    assert_eq!(rank_number("-1"), None);
}

#[test]
fn city_is_found_by_rank_text() {
    let list = ranks(&["3", "1", "2", "1"]);
    assert_eq!(city_position(&list, "1"), Ok(1));
    assert_eq!(city_position(&list, "2"), Ok(2));
    assert_eq!(city_position(&list, "9"), Err(AppError::CityNotFound));
    assert_eq!(city_position(&list, "01"), Err(AppError::CityNotFound));
}

#[test]
fn city_is_found_by_rank_number() {
    let list = ranks(&["x", "010", "10"]);
    assert_eq!(city_with_rank_number(&list, 10), Some(1));
    assert_eq!(city_with_rank_number(&list, 11), None);
}

#[test]
fn random_city_has_a_rank_in_range() {
    let list: Vec<String> = (1..=1000).map(|n: u32| n.to_string()).collect();
    for _ in 0..50 {
        let i = random_city_position(&list).unwrap();
        let n = rank_number(&list[i]).unwrap();
        assert!((1..=1000).contains(&n));
    }
    assert_eq!(random_city_position(&ranks(&["0", "1001"])), None);
}

#[test]
fn interactive_map_carries_the_key() {
    let map = InteractiveMap::new("KEY123");
    assert_eq!(
        map.request_string,
        "https://maps.googleapis.com/maps/api/js?key=KEY123&maptype=satellite&callback=initMap"
    );
}

#[test]
fn png_bytes_become_a_data_url() {
    assert_eq!(png_data_url(&vec![1, 2, 3]), "data:image/png;base64,AQID");
    assert_eq!(png_data_url(&vec![]), "data:image/png;base64,");
    assert_eq!(StaticGuessMap::from_png(&vec![255, 0]).image_string, "data:image/png;base64,/wA=");
}

fn png_of(width: u32, height: u32) -> String {
    let picture = image::DynamicImage::new_rgb8(width, height);
    let mut bytes = Vec::new();
    picture.write_to(&mut std::io::Cursor::new(&mut bytes), image::ImageOutputFormat::Png).unwrap();
    base64::engine::general_purpose::STANDARD.encode(bytes)
}

#[test]
fn crop_removes_twenty_rows() {
    let cropped = crop_image(png_of(30, 50)).unwrap();
    let bytes = base64::engine::general_purpose::STANDARD.decode(cropped).unwrap();
    let picture = image::load_from_memory(&bytes).unwrap();
    assert_eq!((picture.width(), picture.height()), (30, 30));
}

#[test]
fn crop_refuses_bad_input() {
    assert_eq!(crop_image("%%% not base64".to_string()), Err(AppError::DecodeError));
    assert_eq!(crop_image("AQID".to_string()), Err(AppError::ImageError));
    assert_eq!(crop_image(png_of(30, 10)), Err(AppError::ImageError));
    assert!(crop_image(png_of(30, 21)).is_ok());
}

#[test]
fn bottom_rows_are_cut() {
    assert_eq!(cut_bottom(640, 400), Some((640, 380)));
    assert_eq!(cut_bottom(5, 20), Some((5, 0)));
    assert_eq!(cut_bottom(5, 19), None);
}

#[test]
fn fetched_picture_becomes_a_cropped_data_url() {
    let picture = image::DynamicImage::new_rgb8(8, 30);
    let mut bytes = Vec::new();
    picture.write_to(&mut std::io::Cursor::new(&mut bytes), image::ImageOutputFormat::Png).unwrap();
    let url = cropped_picture_url(&bytes).unwrap();
    let encoded = url.strip_prefix("data:image/png;base64,").unwrap();
    let png = base64::engine::general_purpose::STANDARD.decode(encoded).unwrap();
    let cropped = image::load_from_memory(&png).unwrap();
    assert_eq!((cropped.width(), cropped.height()), (8, 10));
    assert_eq!(cropped_picture_url(&vec![1, 2, 3]), Err(AppError::ImageError));
}
