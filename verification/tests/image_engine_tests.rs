use omu::command::{parse_combine_mode, parse_filter, parse_shape, CombineMode, FilterKind, ShapeKind};
use omu::compositor::{combine_images_horizontal, combine_images_vertical, overlay_images};
use omu::encoder::prepare_for_save;
use omu::filter::{apply_brightness, apply_contrast, apply_grayscale};
use omu::mask::{reshape_circle, reshape_rounded, reshape_square};
use omu::pixel::{has_alpha_channel, Image, Pixel, PixelFormat};
use omu::MediaError;

fn solid(width: u32, height: u32, format: PixelFormat, px: [u8; 4]) -> Image {
    let mut data = Vec::new();
    for _ in 0..(width as usize * height as usize) {
        data.push(px[0]);
        data.push(px[1]);
        data.push(px[2]);
        if format == PixelFormat::Rgba8 {
            data.push(px[3]);
        }
    }
    Image::from_raw(width, height, format, data).unwrap()
}

#[test]
fn from_raw_checks_dimensions_and_length() {
    assert!(Image::from_raw(0, 4, PixelFormat::Rgb8, vec![]).is_none());
    assert!(Image::from_raw(2, 1, PixelFormat::Rgb8, vec![0; 5]).is_none());
    assert!(Image::from_raw(2, 1, PixelFormat::Rgb8, vec![0; 6]).is_some());
    assert!(Image::from_raw(2, 1, PixelFormat::Rgba8, vec![0; 8]).is_some());
}

#[test]
fn pixel_roundtrip_and_alpha_default() {
    let mut img = solid(3, 2, PixelFormat::Rgb8, [1, 2, 3, 0]);
    assert_eq!(img.get_pixel(0, 0), Pixel { r: 1, g: 2, b: 3, a: 255 });
    img.set_pixel(2, 1, Pixel { r: 9, g: 8, b: 7, a: 6 });
    // alpha is dropped in an RGB image and reads back opaque
    assert_eq!(img.get_pixel(2, 1), Pixel { r: 9, g: 8, b: 7, a: 255 });
    assert_eq!(img.get_pixel(1, 1), Pixel { r: 1, g: 2, b: 3, a: 255 });
}

#[test]
fn format_conversions_keep_colors() {
    let img = solid(1, 1, PixelFormat::Rgb8, [10, 20, 30, 0]);
    let rgba = img.to_rgba8();
    assert_eq!(rgba.format, PixelFormat::Rgba8);
    assert_eq!(rgba.data, vec![10, 20, 30, 255]);
    let back = rgba.to_rgb8();
    assert_eq!(back.format, PixelFormat::Rgb8);
    assert_eq!(back.data, vec![10, 20, 30]);
}

#[test]
fn has_alpha_over_sets() {
    let a = solid(2, 2, PixelFormat::Rgb8, [0, 0, 0, 0]);
    let b = solid(2, 2, PixelFormat::Rgba8, [0, 0, 0, 255]);
    assert!(!has_alpha_channel(&vec![]));
    let all_rgb = vec![a.duplicate(), a.duplicate()];
    assert!(!has_alpha_channel(&all_rgb));
    let mixed = vec![a, b];
    assert!(has_alpha_channel(&mixed));
}

// Formats promote to RGBA as soon as one input carries alpha, and stay
// RGB for all-RGB inputs.
#[test]
fn combine_and_overlay_format_promotion() {
    let rgb = solid(2, 2, PixelFormat::Rgb8, [5, 5, 5, 0]);
    let rgba = solid(2, 2, PixelFormat::Rgba8, [5, 5, 5, 200]);

    let h = combine_images_horizontal(&vec![rgb.duplicate(), rgba.duplicate()]).unwrap();
    assert_eq!(h.format, PixelFormat::Rgba8);
    let h2 = combine_images_horizontal(&vec![rgb.duplicate(), rgb.duplicate()]).unwrap();
    assert_eq!(h2.format, PixelFormat::Rgb8);

    let v = combine_images_vertical(&vec![rgba.duplicate(), rgb.duplicate()]).unwrap();
    assert_eq!(v.format, PixelFormat::Rgba8);
    let v2 = combine_images_vertical(&vec![rgb.duplicate()]).unwrap();
    assert_eq!(v2.format, PixelFormat::Rgb8);

    let o = overlay_images(&rgb, &rgba, 0, 0);
    assert_eq!(o.format, PixelFormat::Rgba8);
    let o2 = overlay_images(&rgb, &rgb, 0, 0);
    assert_eq!(o2.format, PixelFormat::Rgb8);
    let o3 = overlay_images(&rgba, &rgb, 0, 0);
    assert_eq!(o3.format, PixelFormat::Rgba8);
}

#[test]
fn combine_horizontal_dimensions() {
    let a = solid(100, 50, PixelFormat::Rgb8, [1, 1, 1, 0]);
    let b = solid(50, 80, PixelFormat::Rgb8, [2, 2, 2, 0]);
    let out = combine_images_horizontal(&vec![a, b]).unwrap();
    assert_eq!(out.width, 150);
    assert_eq!(out.height, 80);
}

#[test]
fn combine_vertical_dimensions() {
    let a = solid(100, 50, PixelFormat::Rgb8, [1, 1, 1, 0]);
    let b = solid(50, 80, PixelFormat::Rgb8, [2, 2, 2, 0]);
    let out = combine_images_vertical(&vec![a, b]).unwrap();
    assert_eq!(out.width, 100);
    assert_eq!(out.height, 130);
}

// Two opaque RGB images side by side: the shorter first image leaves
// black canvas below it, and the second image is reproduced exactly.
#[test]
fn combine_horizontal_contents() {
    let a = solid(100, 50, PixelFormat::Rgb8, [10, 20, 30, 0]);
    let b = solid(50, 80, PixelFormat::Rgb8, [40, 50, 60, 0]);
    let out = combine_images_horizontal(&vec![a, b]).unwrap();
    assert_eq!(out.format, PixelFormat::Rgb8);
    assert_eq!(out.width, 150);
    assert_eq!(out.height, 80);
    for y in 0..80 {
        for x in 0..150 {
            let p = out.get_pixel(x, y);
            let expect = if x < 100 && y < 50 {
                Pixel { r: 10, g: 20, b: 30, a: 255 }
            } else if x < 100 {
                Pixel { r: 0, g: 0, b: 0, a: 255 }
            } else {
                Pixel { r: 40, g: 50, b: 60, a: 255 }
            };
            assert_eq!(p, expect);
        }
    }
}

// A half-transparent top blends 50/50 with the base inside the overlap
// and leaves everything else untouched.
#[test]
fn overlay_blends_half_alpha() {
    let base = solid(100, 100, PixelFormat::Rgb8, [100, 150, 200, 0]);
    let top = solid(20, 20, PixelFormat::Rgba8, [200, 50, 0, 128]);
    let out = overlay_images(&base, &top, 40, 40);
    assert_eq!(out.format, PixelFormat::Rgba8);
    assert_eq!(out.width, 100);
    assert_eq!(out.height, 100);
    let blended = Pixel {
        r: ((200u32 * 128 + 100 * 127) / 255) as u8,
        g: ((50u32 * 128 + 150 * 127) / 255) as u8,
        b: ((0u32 * 128 + 200 * 127) / 255) as u8,
        a: 255,
    };
    assert_eq!(blended.r, 150);
    assert_eq!(blended.g, 99);
    assert_eq!(blended.b, 99);
    for y in 0..100 {
        for x in 0..100 {
            let p = out.get_pixel(x, y);
            if (40..60).contains(&x) && (40..60).contains(&y) {
                assert_eq!(p, blended);
            } else {
                assert_eq!(p, Pixel { r: 100, g: 150, b: 200, a: 255 });
            }
        }
    }
}

#[test]
fn overlay_clips_outside_offsets() {
    let base = solid(4, 4, PixelFormat::Rgb8, [9, 9, 9, 0]);
    let top = solid(3, 3, PixelFormat::Rgb8, [1, 2, 3, 0]);
    let out = overlay_images(&base, &top, -2, -2);
    // only the bottom-right 1x1 corner of top lands on the base
    assert_eq!(out.get_pixel(0, 0), Pixel { r: 1, g: 2, b: 3, a: 255 });
    assert_eq!(out.get_pixel(1, 0), Pixel { r: 9, g: 9, b: 9, a: 255 });
    assert_eq!(out.get_pixel(0, 1), Pixel { r: 9, g: 9, b: 9, a: 255 });
    let far = overlay_images(&base, &top, 10, 10);
    for y in 0..4 {
        for x in 0..4 {
            assert_eq!(far.get_pixel(x, y), Pixel { r: 9, g: 9, b: 9, a: 255 });
        }
    }
}

#[test]
fn empty_combines_fail_with_empty_input() {
    assert!(matches!(combine_images_horizontal(&vec![]), Err(MediaError::EmptyInput)));
    assert!(matches!(combine_images_vertical(&vec![]), Err(MediaError::EmptyInput)));
}

#[test]
fn unknown_selector_names_fail() {
    assert_eq!(parse_filter("sharpen"), Err(MediaError::InvalidFilter));
    assert_eq!(parse_filter("grayscale"), Ok(FilterKind::Grayscale));
    assert_eq!(parse_filter("brightness"), Ok(FilterKind::Brightness));
    assert_eq!(parse_filter("contrast"), Ok(FilterKind::Contrast));
    assert_eq!(parse_filter("blur"), Ok(FilterKind::Blur));
    assert_eq!(parse_combine_mode("horizontal"), Ok(CombineMode::Horizontal));
    assert_eq!(parse_combine_mode("vertical"), Ok(CombineMode::Vertical));
    assert_eq!(parse_combine_mode("diagonal"), Err(MediaError::InvalidMode));
    assert_eq!(parse_shape("circle"), Ok(ShapeKind::Circle));
    assert_eq!(parse_shape("square"), Ok(ShapeKind::Square));
    assert_eq!(parse_shape("rounded"), Ok(ShapeKind::Rounded));
    assert_eq!(parse_shape("hexagon"), Err(MediaError::InvalidShape));
}

#[test]
fn grayscale_exact_and_idempotent() {
    let mut img = solid(2, 1, PixelFormat::Rgba8, [100, 150, 200, 40]);
    img.set_pixel(1, 0, Pixel { r: 7, g: 7, b: 7, a: 13 });
    let g1 = apply_grayscale(&img);
    // (2126*100 + 7152*150 + 722*200) / 10000 = 142
    assert_eq!(g1.get_pixel(0, 0), Pixel { r: 142, g: 142, b: 142, a: 40 });
    // a gray pixel maps to itself
    assert_eq!(g1.get_pixel(1, 0), Pixel { r: 7, g: 7, b: 7, a: 13 });
    assert_eq!(g1.format, PixelFormat::Rgba8);
    let g2 = apply_grayscale(&g1);
    assert_eq!(g2.data, g1.data);
    assert_eq!(g2.width, g1.width);
    assert_eq!(g2.height, g1.height);
    assert_eq!(g2.format, g1.format);
}

#[test]
fn grayscale_keeps_rgb_format() {
    let img = solid(2, 2, PixelFormat::Rgb8, [50, 100, 150, 0]);
    let g = apply_grayscale(&img);
    assert_eq!(g.format, PixelFormat::Rgb8);
}

#[test]
fn brightness_identity_at_factor_one() {
    let img = solid(3, 2, PixelFormat::Rgba8, [11, 22, 33, 44]);
    let out = apply_brightness(&img, 1000);
    assert_eq!(out.data, img.data);
}

#[test]
fn brightness_scales_and_clamps() {
    let img = solid(1, 1, PixelFormat::Rgba8, [100, 200, 0, 77]);
    let half = apply_brightness(&img, 500);
    assert_eq!(half.get_pixel(0, 0), Pixel { r: 50, g: 100, b: 0, a: 77 });
    let double = apply_brightness(&img, 2000);
    assert_eq!(double.get_pixel(0, 0), Pixel { r: 200, g: 255, b: 0, a: 77 });
    // an RGB input is promoted to RGBA
    let rgb = solid(1, 1, PixelFormat::Rgb8, [10, 20, 30, 0]);
    let out = apply_brightness(&rgb, 1000);
    assert_eq!(out.format, PixelFormat::Rgba8);
    assert_eq!(out.data, vec![10, 20, 30, 255]);
}

#[test]
fn contrast_identity_at_factor_one() {
    let img = solid(2, 2, PixelFormat::Rgba8, [0, 128, 255, 9]);
    let out = apply_contrast(&img, 1000);
    assert_eq!(out.data, img.data);
}

#[test]
fn contrast_stretches_and_clamps() {
    let img = solid(1, 1, PixelFormat::Rgba8, [100, 200, 60, 5]);
    let out = apply_contrast(&img, 2000);
    // (100-128)*2+128 = 72; (200-128)*2+128 = 272 -> 255; (60-128)*2+128 = -8 -> 0
    assert_eq!(out.get_pixel(0, 0), Pixel { r: 72, g: 255, b: 0, a: 5 });
    let soft = apply_contrast(&img, 500);
    // (100-128)/2+128 = 114; (200-128)/2+128 = 164; (60-128)/2+128 = 94
    assert_eq!(soft.get_pixel(0, 0), Pixel { r: 114, g: 164, b: 94, a: 5 });
}

#[test]
fn reshape_square_crops_to_short_side() {
    let mut img = solid(30, 20, PixelFormat::Rgb8, [1, 1, 1, 0]);
    img.set_pixel(5, 0, Pixel { r: 200, g: 0, b: 0, a: 255 });
    let out = reshape_square(&img);
    assert_eq!(out.width, 20);
    assert_eq!(out.height, 20);
    assert_eq!(out.width, out.height);
    assert_eq!(out.format, PixelFormat::Rgba8);
    // crop offset is ((30-20)/2, 0) = (5, 0)
    assert_eq!(out.get_pixel(0, 0), Pixel { r: 200, g: 0, b: 0, a: 255 });
    assert_eq!(out.get_pixel(1, 0), Pixel { r: 1, g: 1, b: 1, a: 255 });
}

#[test]
fn reshape_circle_center_and_corners() {
    let img = solid(12, 10, PixelFormat::Rgb8, [30, 40, 50, 0]);
    let out = reshape_circle(&img);
    assert_eq!(out.width, 10);
    assert_eq!(out.height, 10);
    assert_eq!(out.format, PixelFormat::Rgba8);
    // center pixel kept fully opaque
    assert_eq!(out.get_pixel(5, 5).a, 255);
    assert_eq!(out.get_pixel(5, 5), Pixel { r: 30, g: 40, b: 50, a: 255 });
    // all four corners fully transparent
    assert_eq!(out.get_pixel(0, 0).a, 0);
    assert_eq!(out.get_pixel(9, 0).a, 0);
    assert_eq!(out.get_pixel(0, 9).a, 0);
    assert_eq!(out.get_pixel(9, 9).a, 0);
    // boundary: (0, 4) lies outside the circle, the top edge midpoint
    // (5, 0) lies exactly on it
    assert_eq!(out.get_pixel(0, 4).a, 0);
    assert_eq!(out.get_pixel(5, 0).a, 255);
}

#[test]
fn reshape_circle_small_sizes() {
    // at size 7 every corner falls outside the circle
    let seven = reshape_circle(&solid(7, 7, PixelFormat::Rgb8, [1, 1, 1, 0]));
    assert_eq!(seven.get_pixel(0, 0).a, 0);
    assert_eq!(seven.get_pixel(6, 0).a, 0);
    assert_eq!(seven.get_pixel(0, 6).a, 0);
    assert_eq!(seven.get_pixel(6, 6).a, 0);
    assert_eq!(seven.get_pixel(3, 3).a, 255);
    // at size 3 the circle, anchored at (size/2, size/2) of the pixel
    // grid, still covers the bottom-right corner
    let three = reshape_circle(&solid(3, 3, PixelFormat::Rgb8, [1, 1, 1, 0]));
    assert_eq!(three.get_pixel(0, 0).a, 0);
    assert_eq!(three.get_pixel(2, 0).a, 0);
    assert_eq!(three.get_pixel(0, 2).a, 0);
    assert_eq!(three.get_pixel(2, 2).a, 255);
    assert_eq!(three.get_pixel(1, 1).a, 255);
}

#[test]
fn reshape_circle_single_pixel_is_kept() {
    let img = solid(1, 1, PixelFormat::Rgb8, [8, 8, 8, 0]);
    let out = reshape_circle(&img);
    assert_eq!(out.width, 1);
    assert_eq!(out.get_pixel(0, 0).a, 255);
}

#[test]
fn reshape_rounded_corners_and_center() {
    let img = solid(100, 80, PixelFormat::Rgba8, [10, 10, 10, 220]);
    let out = reshape_rounded(&img, 30);
    assert_eq!(out.width, 100);
    assert_eq!(out.height, 80);
    assert_eq!(out.format, PixelFormat::Rgba8);
    // the four extreme corners fall outside the rounding radius
    assert_eq!(out.get_pixel(0, 0).a, 0);
    assert_eq!(out.get_pixel(99, 0).a, 0);
    assert_eq!(out.get_pixel(0, 79).a, 0);
    assert_eq!(out.get_pixel(99, 79).a, 0);
    // a kept pixel keeps its own alpha, not a forced opaque one
    assert_eq!(out.get_pixel(50, 40), Pixel { r: 10, g: 10, b: 10, a: 220 });
    // the corner-mirrored rule also cuts the middle of the top edge:
    // (50, 0) lies farther than 30 from the anchor (30, 30)
    assert_eq!(out.get_pixel(50, 0).a, 0);
    // color channels of a cut pixel are untouched
    assert_eq!(out.get_pixel(0, 0), Pixel { r: 10, g: 10, b: 10, a: 0 });
}

#[test]
fn reshape_radius_defaults_to_thirty() {
    let with = omu::command::ReshapeArgs {
        input: "a.png".to_string(),
        output: None,
        shape: "rounded".to_string(),
        radius: Some(12),
    };
    assert_eq!(with.effective_radius(), 12);
    let without = omu::command::ReshapeArgs {
        input: "a.png".to_string(),
        output: None,
        shape: "rounded".to_string(),
        radius: None,
    };
    assert_eq!(without.effective_radius(), 30);
}

#[test]
fn prepare_for_save_policy() {
    let rgba = solid(2, 2, PixelFormat::Rgba8, [1, 2, 3, 100]);
    let png = prepare_for_save(&rgba, "png");
    assert_eq!(png.format, PixelFormat::Rgba8);
    assert_eq!(png.data, rgba.data);
    let webp = prepare_for_save(&rgba, "webp");
    assert_eq!(webp.format, PixelFormat::Rgba8);
    let jpg = prepare_for_save(&rgba, "jpg");
    assert_eq!(jpg.format, PixelFormat::Rgb8);
    assert_eq!(jpg.data, vec![1, 2, 3, 1, 2, 3, 1, 2, 3, 1, 2, 3]);
    let rgb = solid(2, 2, PixelFormat::Rgb8, [1, 2, 3, 0]);
    let out = prepare_for_save(&rgb, "png");
    assert_eq!(out.format, PixelFormat::Rgb8);
    assert_eq!(out.data, rgb.data);
}
