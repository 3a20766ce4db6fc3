use image::{DynamicImage, GrayImage, Luma, Rgb, RgbImage, Rgba, RgbaImage};
use image_fader::{fade_image, fade_schedule, frame_count, try_fade_image};
use image_fader::{FadeStyle, Factor, Raster};

fn gradient() -> RgbaImage {
    let mut picture = RgbaImage::new(5, 3);
    for (x, y, pixel) in picture.enumerate_pixels_mut() {
        let base = (40 * y + 8 * x) as u8;
        *pixel = Rgba([base, base + 1, base + 2, 255 - base]);
    }
    picture
}

#[test]
fn half_brightness_halves_the_colours_and_keeps_alpha() {
    let source = DynamicImage::ImageRgba8(RgbaImage::from_pixel(3, 2, Rgba([200, 101, 7, 99])));
    let half = Factor::new(1, 2).unwrap();
    let frame = fade_image(&source, half).to_rgba8();
    assert_eq!(frame.dimensions(), (3, 2));
    for pixel in frame.pixels() {
        assert_eq!(pixel.0, [100, 50, 3, 99]);
    }
}

#[test]
fn every_pixel_is_faded_in_its_own_place() {
    let picture = gradient();
    let source = DynamicImage::ImageRgba8(picture.clone());
    let factor = Factor::new(2, 3).unwrap();
    let frame = fade_image(&source, factor).to_rgba8();
    assert_eq!(frame.dimensions(), (5, 3));
    for (x, y, pixel) in picture.enumerate_pixels() {
        let [r, g, b, a] = pixel.0;
        let wanted = [
            (r as u32 * 2 / 3) as u8,
            (g as u32 * 2 / 3) as u8,
            (b as u32 * 2 / 3) as u8,
            a,
        ];
        assert_eq!(frame.get_pixel(x, y).0, wanted);
    }
}

#[test]
fn a_frame_at_full_brightness_reproduces_the_picture() {
    let picture = gradient();
    let source = DynamicImage::ImageRgba8(picture.clone());
    let frame = fade_image(&source, Factor::one());
    assert_eq!(frame.to_rgba8(), picture);
}

#[test]
fn a_frame_at_zero_brightness_is_black_with_the_same_alpha() {
    let picture = gradient();
    let source = DynamicImage::ImageRgba8(picture.clone());
    let frame = fade_image(&source, Factor::zero()).to_rgba8();
    assert_eq!(frame.dimensions(), picture.dimensions());
    for (x, y, pixel) in picture.enumerate_pixels() {
        assert_eq!(frame.get_pixel(x, y).0, [0, 0, 0, pixel.0[3]]);
    }
}

#[test]
fn the_source_image_is_left_as_it_was() {
    let picture = gradient();
    let source = DynamicImage::ImageRgba8(picture.clone());
    let _ = fade_image(&source, Factor::zero());
    assert_eq!(source.to_rgba8(), picture);
}

#[test]
fn a_frame_is_an_rgba_image() {
    let source = DynamicImage::ImageRgb8(RgbImage::from_pixel(2, 3, Rgb([90, 60, 30])));
    let frame = fade_image(&source, Factor::new(1, 3).unwrap());
    assert!(matches!(frame, DynamicImage::ImageRgba8(_)));
    let frame = frame.to_rgba8();
    assert_eq!(frame.dimensions(), (2, 3));
    for pixel in frame.pixels() {
        assert_eq!(pixel.0, [30, 20, 10, 255]);
    }
}

#[test]
fn a_grey_image_is_faded_in_all_three_colours() {
    let source = DynamicImage::ImageLuma8(GrayImage::from_pixel(4, 1, Luma([100])));
    let frame = fade_image(&source, Factor::new(1, 4).unwrap()).to_rgba8();
    assert_eq!(frame.dimensions(), (4, 1));
    for pixel in frame.pixels() {
        assert_eq!(pixel.0, [25, 25, 25, 255]);
    }
}

#[test]
fn an_image_with_spare_samples_gives_a_frame_of_its_size() {
    let mut samples: Vec<u8> = [10u8, 20, 30, 40].repeat(2);
    samples.extend_from_slice(&[7, 7, 7, 7, 7]);
    let source = DynamicImage::ImageRgba8(RgbaImage::from_raw(2, 1, samples).unwrap());
    let frame = fade_image(&source, Factor::new(1, 2).unwrap()).to_rgba8();
    assert_eq!(frame.dimensions(), (2, 1));
    assert_eq!(frame.into_raw(), vec![5, 10, 15, 40, 5, 10, 15, 40]);
}

#[test]
fn an_empty_image_gives_an_empty_frame() {
    let source = DynamicImage::ImageRgba8(RgbaImage::new(0, 0));
    let frame = fade_image(&source, Factor::new(1, 2).unwrap());
    assert_eq!((frame.width(), frame.height()), (0, 0));
}

#[test]
fn an_image_without_rows_gives_a_frame_without_rows() {
    let source = DynamicImage::ImageLuma8(GrayImage::new(7, 0));
    let frame = try_fade_image(&source, Factor::new(1, 2).unwrap()).unwrap();
    assert_eq!((frame.width(), frame.height()), (7, 0));
    let raster = Raster::new(7, 0, Vec::new()).unwrap();
    let image = raster.into_image();
    assert_eq!((image.width(), image.height()), (7, 0));
}

#[test]
fn an_image_that_fits_is_always_rendered() {
    let source = DynamicImage::ImageRgba8(RgbaImage::from_pixel(3, 2, Rgba([200, 101, 7, 99])));
    let frame = try_fade_image(&source, Factor::new(1, 2).unwrap()).unwrap().to_rgba8();
    assert_eq!(frame.dimensions(), (3, 2));
    for pixel in frame.pixels() {
        assert_eq!(pixel.0, [100, 50, 3, 99]);
    }
}

#[test]
fn a_raster_holds_the_pixels_of_an_image() {
    let picture = gradient();
    let raster = Raster::from_image(&DynamicImage::ImageRgba8(picture.clone())).unwrap();
    assert_eq!((raster.width(), raster.height()), (5, 3));
    assert_eq!(raster.samples(), picture.as_raw().as_slice());
    for (x, y, pixel) in picture.enumerate_pixels() {
        let held = raster.pixel(x, y).unwrap();
        assert_eq!([held.red, held.green, held.blue, held.alpha], pixel.0);
    }
}

#[test]
fn a_raster_of_an_image_without_alpha_is_opaque() {
    let source = DynamicImage::ImageRgb8(RgbImage::from_pixel(1, 2, Rgb([1, 2, 3])));
    let raster = Raster::from_image(&source).unwrap();
    assert_eq!((raster.width(), raster.height()), (1, 2));
    assert_eq!(raster.samples(), [1u8, 2, 3, 255, 1, 2, 3, 255].as_slice());
}

#[test]
fn an_image_made_of_a_raster_has_its_size_and_pixels() {
    let samples: Vec<u8> = (0..24u8).collect();
    let image = Raster::new(2, 3, samples.clone()).unwrap().into_image();
    assert_eq!((image.width(), image.height()), (2, 3));
    assert_eq!(image.to_rgba8().into_raw(), samples);
    let back = Raster::from_image(&image).unwrap();
    assert_eq!(back.samples(), samples.as_slice());
}

#[test]
fn a_red_square_fades_to_dark_in_two_frames() {
    let red = DynamicImage::ImageRgba8(RgbaImage::from_pixel(2, 2, Rgba([255, 0, 0, 255])));
    let count = frame_count(1_000_000_000, 2).unwrap();
    assert_eq!(count, 2);
    let schedule = fade_schedule(count, FadeStyle::ToDark);
    assert_eq!(schedule, vec![Factor::one(), Factor::zero()]);
    let frames: Vec<RgbaImage> =
        schedule.iter().map(|factor| fade_image(&red, *factor).to_rgba8()).collect();
    assert_eq!(frames.len(), 2);
    assert_eq!(frames[0].dimensions(), (2, 2));
    assert_eq!(frames[1].dimensions(), (2, 2));
    for pixel in frames[0].pixels() {
        assert_eq!(pixel.0, [255, 0, 0, 255]);
    }
    for pixel in frames[1].pixels() {
        assert_eq!(pixel.0, [0, 0, 0, 255]);
    }
}
