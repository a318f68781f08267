use std::io::Cursor;

use gma_runner::image_loader::{decode_image_bytes, file_extension, find_image_paths, is_card_image_name, sort_paths};

fn png_bytes(width: u32, height: u32) -> Vec<u8> {
    let image = image::RgbaImage::from_pixel(width, height, image::Rgba([10, 20, 30, 255]));
    let mut bytes = Cursor::new(Vec::new());
    image.write_to(&mut bytes, image::ImageFormat::Png).expect("png should encode");
    bytes.into_inner()
}

#[test]
fn find_image_paths_filters_supported_extensions_and_sorts() {
    let dir = "/tmp/gma_runner_find_image_paths";
    let names = vec!["b-card.png".to_string(), "a-card.JPG".to_string(), "notes.txt".to_string()];

    let paths = find_image_paths(dir, &names);

    assert_eq!(paths.len(), 2);
    assert_eq!(std::path::Path::new(&paths[0]).file_name().and_then(|name| name.to_str()), Some("a-card.JPG"));
    assert_eq!(std::path::Path::new(&paths[1]).file_name().and_then(|name| name.to_str()), Some("b-card.png"));
}

#[test]
fn extensions_follow_path_rules() {
    assert_eq!(file_extension("a.png"), Some("png"));
    assert_eq!(file_extension("a.b.JPEG"), Some("JPEG"));
    assert_eq!(file_extension("a."), Some(""));
    assert_eq!(file_extension(".png"), None);
    assert_eq!(file_extension("png"), None);
    assert_eq!(file_extension(".."), None);
    assert!(is_card_image_name("x.Jpeg"));
    assert!(is_card_image_name("..png"));
    assert!(!is_card_image_name(".png"));
    assert!(!is_card_image_name("x.gif"));
    assert!(!is_card_image_name("x.pngx"));
}

#[test]
fn image_paths_are_sorted_by_character() {
    let names = vec![
        "b.png".to_string(),
        "B.png".to_string(),
        "a10.png".to_string(),
        "a2.png".to_string(),
        "a.png".to_string(),
        "é.png".to_string(),
    ];
    let paths = find_image_paths("d", &names);
    assert_eq!(paths, vec!["d/B.png", "d/a.png", "d/a10.png", "d/a2.png", "d/b.png", "d/é.png"]);
    let sorted = sort_paths(&vec!["z".to_string(), "ab".to_string(), "a".to_string(), "ab".to_string()]);
    assert_eq!(sorted, vec!["a", "ab", "ab", "z"]);
}

#[test]
fn decoding_keeps_small_images_and_shrinks_large_ones() {
    let card = decode_image_bytes("deck/small.png", &png_bytes(3, 2), 10, 10).expect("png decodes");
    assert_eq!(card.path, "deck/small.png");
    assert_eq!(card.size, [3, 2]);
    assert_eq!(card.rgba.len(), 3 * 2 * 4);
    assert_eq!(&card.rgba[0..4], &[10, 20, 30, 255]);

    let card = decode_image_bytes("deck/big.png", &png_bytes(40, 20), 10, 10).expect("png decodes");
    assert_eq!(card.size, [10, 5]);
    assert_eq!(card.rgba.len(), 10 * 5 * 4);
}

#[test]
fn undecodable_bytes_are_an_error() {
    let error = decode_image_bytes("deck/bad.png", b"not an image", 10, 10).expect_err("garbage fails");
    assert!(error.starts_with("Failed to decode deck/bad.png: "));
}

#[test]
fn the_format_comes_from_the_leading_bytes() {
    let error = decode_image_bytes("deck/bad.png", b"not an image", 10, 10).expect_err("garbage fails");
    assert_eq!(error, "Failed to decode deck/bad.png: The image format could not be determined");

    let mut truncated = png_bytes(3, 2);
    truncated.truncate(20);
    let error = decode_image_bytes("deck/cut.png", &truncated, 10, 10).expect_err("a cut png fails");
    assert!(error.starts_with("Failed to decode deck/cut.png: "));

    let card = decode_image_bytes("deck/exact.png", &png_bytes(3, 2), 3, 2).expect("png decodes");
    assert_eq!(card.size, [3, 2]);
    let card = decode_image_bytes("deck/tall.png", &png_bytes(20, 40), 10, 10).expect("png decodes");
    assert_eq!(card.size, [5, 10]);
    assert_eq!(card.rgba.len(), 5 * 10 * 4);
}

#[test]
fn the_card_holds_the_pixels_of_the_image_as_shown() {
    let mut image = image::RgbImage::new(40, 20);
    for (x, y, pixel) in image.enumerate_pixels_mut() {
        *pixel = image::Rgb([(x * 6) as u8, (y * 12) as u8, ((x + y) * 3) as u8]);
    }
    let mut bytes = Cursor::new(Vec::new());
    image.write_to(&mut bytes, image::ImageFormat::Png).expect("png should encode");
    let bytes = bytes.into_inner();

    let card = decode_image_bytes("deck/grad.png", &bytes, 10, 10).expect("png decodes");
    let expected = image::load_from_memory(&bytes)
        .expect("png decodes")
        .resize(10, 10, image::imageops::FilterType::Lanczos3)
        .to_rgba8()
        .into_raw();
    assert_eq!(card.size, [10, 5]);
    assert_eq!(card.rgba, expected);

    let kept = decode_image_bytes("deck/grad.png", &bytes, 40, 20).expect("png decodes");
    assert_eq!(kept.rgba, image::load_from_memory(&bytes).expect("png decodes").to_rgba8().into_raw());
    assert_eq!(&kept.rgba[4 * 3..4 * 4], &[18, 0, 9, 255]);
}
