use std::io::Cursor;

use hl_spray_size_calculator::picture::{
    finish_spray, picture_of, read_image, recanvas, resize_picture, ImageError, RawImage,
};
use hl_spray_size_calculator::dialogue::AnchorError;
use hl_spray_size_calculator::Vector2;
use image::{ImageBuffer, ImageFormat, Rgba};

fn png_bytes(width: u32, height: u32, samples: Vec<u16>) -> Vec<u8> {
    let picture = ImageBuffer::<Rgba<u16>, Vec<u16>>::from_raw(width, height, samples).unwrap();
    let mut bytes = Vec::new();
    picture.write_to(&mut Cursor::new(&mut bytes), ImageFormat::Png).unwrap();
    bytes
}

#[test]
fn read_image_decodes_png() {
    let samples = vec![1000, 2000, 3000, 65535, 4, 5, 6, 7];
    let picture = read_image(&png_bytes(2, 1, samples.clone())).unwrap();
    assert_eq!(picture.width, 2);
    assert_eq!(picture.height, 1);
    assert_eq!(picture.samples, samples);
}

#[test]
fn read_image_refuses_other_bytes() {
    assert_eq!(read_image(b"not a picture at all").unwrap_err(), ImageError::NotAnImage);
    assert_eq!(picture_of(None).unwrap_err(), ImageError::NotAnImage);
    assert_eq!(picture_of(Some((0, 3, vec![]))).unwrap_err(), ImageError::EmptyImage);
    assert_eq!(picture_of(Some((1, 1, vec![1, 2, 3, 4]))).unwrap().samples, vec![1, 2, 3, 4]);
}

#[test]
fn recanvas_places_and_crops() {
    // A 2x2 picture whose pixels are numbered 1..=4, row by row.
    let picture = RawImage {
        width: 2,
        height: 2,
        samples: vec![1, 1, 1, 1, 2, 2, 2, 2, 3, 3, 3, 3, 4, 4, 4, 4],
    };
    // Wider canvas: the picture goes to the right; the left column stays transparent.
    let placed = recanvas(&picture, Vector2::new(3, 2), "center right").unwrap();
    assert_eq!((placed.width, placed.height), (3, 2));
    assert_eq!(placed.samples, vec![0, 0, 0, 0, 1, 1, 1, 1, 2, 2, 2, 2, 0, 0, 0, 0, 3, 3, 3, 3, 4, 4, 4, 4]);
    // Shorter canvas: the bottom row is kept.
    let cropped = recanvas(&picture, Vector2::new(2, 1), "bottom center").unwrap();
    assert_eq!(cropped.samples, vec![3, 3, 3, 3, 4, 4, 4, 4]);
    assert_eq!(recanvas(&picture, Vector2::new(2, 1), "bottom").unwrap_err(), AnchorError::NotTwoWords);
    assert_eq!(recanvas(&picture, Vector2::new(2, 1), "low center").unwrap_err(), AnchorError::UnknownAnchor);
}

#[test]
fn finish_spray_writes_an_opaque_png() {
    // The first pixel is nearly transparent and stays red; the second is above the bound.
    let picture = RawImage { width: 2, height: 1, samples: vec![65535, 0, 0, 10, 0, 65535, 0, 65535] };
    let (written, bytes) = finish_spray(picture, 1000);
    assert!(written);
    let decoded = image::load_from_memory(&bytes).unwrap().into_rgb8();
    assert_eq!((decoded.width(), decoded.height()), (2, 1));
    assert_eq!(decoded.into_raw(), vec![255, 0, 0, 0, 0, 255]);
}

#[test]
fn read_image_gives_whole_pictures() {
    let picture = read_image(&png_bytes(3, 2, vec![7; 24])).unwrap();
    assert_eq!((picture.width, picture.height), (3, 2));
    assert_eq!(picture.samples.len(), 4 * 3 * 2);
}

#[test]
fn recanvas_gives_a_picture_for_every_valid_anchor() {
    let picture = RawImage { width: 2, height: 2, samples: (1..=16).collect() };
    for vertical in ["top", "center", "bottom"] {
        for horizontal in ["left", "center", "right"] {
            let choice = format!("{} {}", vertical, horizontal);
            let placed = recanvas(&picture, Vector2::new(3, 1), &choice).unwrap();
            assert_eq!((placed.width, placed.height), (3, 1));
            assert_eq!(placed.samples.len(), 12);
        }
    }
    // Top row of a 2x2 picture placed at the right of a 3x1 canvas.
    let placed = recanvas(&picture, Vector2::new(3, 1), "top right").unwrap();
    assert_eq!(placed.samples, vec![0, 0, 0, 0, 1, 2, 3, 4, 5, 6, 7, 8]);
    // Same size: the picture as it is, whatever the words.
    let same = recanvas(&picture, Vector2::new(2, 2), "anything here").unwrap();
    assert_eq!(same.samples, picture.samples);
}

#[test]
fn resize_picture_keeps_size_and_copies_when_unchanged() {
    let picture = RawImage { width: 2, height: 2, samples: (1..=16).map(|v| v * 1000).collect() };
    let same = resize_picture(&picture, Vector2::new(2, 2));
    assert_eq!(same.samples, picture.samples);
    let bigger = resize_picture(&picture, Vector2::new(4, 3));
    assert_eq!((bigger.width, bigger.height), (4, 3));
    assert_eq!(bigger.samples.len(), 4 * 4 * 3);
    let flat = RawImage { width: 2, height: 2, samples: vec![500; 16] };
    let flat_bigger = resize_picture(&flat, Vector2::new(3, 5));
    assert!(flat_bigger.samples.iter().all(|&v| v == 500));
}
