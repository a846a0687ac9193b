use image_kernel::clamp::clamp;
use image_kernel::image_kernel::ImageKernel;
use image_kernel::outside::RgbaBuffer;
use image_kernel::pixel::{get_alpha_avg, get_brightness, get_largest_alpha_avg, Rgba};

fn kernel_of(width: u32, height: u32, pixels: &[[u8; 4]]) -> ImageKernel {
    let samples: Vec<u8> = pixels.iter().flat_map(|p| p.iter().copied()).collect();
    let img = image::RgbaImage::from_raw(width, height, samples).unwrap();
    ImageKernel::from_image(image::DynamicImage::ImageRgba8(img))
}

fn pixels_of(kernel: &ImageKernel) -> Vec<[u8; 4]> {
    kernel
        .image
        .to_vec()
        .chunks(4)
        .map(|c| [c[0], c[1], c[2], c[3]])
        .collect()
}

fn sample_image() -> ImageKernel {
    kernel_of(
        3,
        3,
        &[
            [10, 20, 30, 200],
            [40, 50, 60, 210],
            [70, 80, 90, 220],
            [100, 110, 120, 50],
            [130, 140, 150, 60],
            [160, 170, 180, 40],
            [5, 6, 7, 0],
            [8, 9, 10, 5],
            [11, 12, 13, 3],
        ],
    )
}

#[test]
fn clamp_limits_values() {
    assert_eq!(clamp(300u16, 0, 0xFF), 255);
    assert_eq!(clamp(17u16, 0, 0xFF), 17);
    assert_eq!(clamp(-5i32, 0, 10), 0);
    assert_eq!(clamp(10i32, 0, 10), 10);
}

#[test]
fn brightness_weights_channels() {
    assert_eq!(get_brightness(10, 20, 30), 18);
    assert_eq!(get_brightness(255, 255, 255), 255);
    assert_eq!(get_brightness(0, 0, 0), 0);
    assert_eq!(get_brightness(255, 0, 0), 85);
    assert_eq!(get_brightness(0, 255, 0), 127);
    assert_eq!(get_brightness(0, 0, 255), 42);
}

#[test]
fn brightness_of_grey_is_its_level() {
    for v in 0..=255u8 {
        assert_eq!(get_brightness(v, v, v), v as u32);
    }
}

#[test]
fn alpha_avg_blends_towards_mean() {
    let r = get_alpha_avg(
        Rgba([100, 0, 0, 0]),
        Rgba([10, 30, 30, 30]),
        Rgba([20, 30, 30, 30]),
        Rgba([30, 30, 30, 30]),
        128,
    );
    assert_eq!(r, Rgba([59, 15, 15, 15]));
}

#[test]
fn alpha_avg_with_strength_zero_is_identity() {
    let cc = Rgba([1, 2, 3, 4]);
    let r = get_alpha_avg(cc, Rgba([200; 4]), Rgba([100; 4]), Rgba([50; 4]), 0);
    assert_eq!(r, cc);
}

#[test]
fn alpha_avg_with_full_strength_is_mean() {
    let r = get_alpha_avg(
        Rgba([1, 2, 3, 4]),
        Rgba([200, 0, 9, 255]),
        Rgba([100, 0, 9, 255]),
        Rgba([51, 2, 9, 254]),
        255,
    );
    assert_eq!(r, Rgba([117, 0, 9, 254]));
}

#[test]
fn largest_alpha_avg_keeps_more_opaque() {
    let cc = Rgba([0, 0, 0, 10]);
    let lightest = Rgba([9, 9, 9, 100]);
    let n = [Rgba([0, 0, 0, 200]); 3];
    // blend alpha (10 * 127 + 200 * 128) / 255 = 105 > 100
    assert_eq!(
        get_largest_alpha_avg(cc, lightest, n[0], n[1], n[2], 128),
        Rgba([0, 0, 0, 105])
    );
    // blend alpha 10 is not above 100
    assert_eq!(get_largest_alpha_avg(cc, lightest, n[0], n[1], n[2], 0), lightest);
}

#[test]
fn from_image_keeps_size_and_pixels() {
    let k = sample_image();
    assert_eq!(k.width(), 3);
    assert_eq!(k.height(), 3);
    assert_eq!(k.image.get_pixel(1, 2), Rgba([8, 9, 10, 5]));
}

#[test]
fn from_image_converts_to_rgba() {
    let rgb = image::RgbImage::from_raw(2, 1, vec![1, 2, 3, 4, 5, 6]).unwrap();
    let k = ImageKernel::from_image(image::DynamicImage::ImageRgb8(rgb));
    assert_eq!(k.width(), 2);
    assert_eq!(pixels_of(&k), vec![[1, 2, 3, 255], [4, 5, 6, 255]]);
}

#[test]
fn buffer_from_raw_needs_enough_samples() {
    assert!(RgbaBuffer::from_raw(2, 2, vec![0; 15]).is_none());
    let b = RgbaBuffer::from_raw(2, 2, vec![7; 20]).unwrap();
    assert_eq!(b.width(), 2);
    assert_eq!(b.height(), 2);
    assert_eq!(b.to_vec().len(), 20);
}

#[test]
fn luminance_sets_alpha_to_brightness() {
    let mut k = sample_image();
    k.compute_luminance();
    assert_eq!(
        pixels_of(&k),
        vec![
            [10, 20, 30, 18],
            [40, 50, 60, 48],
            [70, 80, 90, 78],
            [100, 110, 120, 108],
            [130, 140, 150, 138],
            [160, 170, 180, 168],
            [5, 6, 7, 5],
            [8, 9, 10, 8],
            [11, 12, 13, 11],
        ]
    );
}

#[test]
fn luminance_twice_is_luminance_once() {
    let mut once = sample_image();
    once.compute_luminance();
    let mut twice = sample_image();
    twice.compute_luminance();
    twice.compute_luminance();
    assert_eq!(pixels_of(&once), pixels_of(&twice));
}

#[test]
fn luminance_covers_samples_past_the_pixels() {
    let buffer = RgbaBuffer::from_raw(1, 1, vec![10, 20, 30, 0, 60, 60, 60, 0, 9]).unwrap();
    let mut k = ImageKernel { image: buffer };
    k.compute_luminance();
    assert_eq!(k.image.to_vec(), vec![10, 20, 30, 18, 60, 60, 60, 60, 9]);
}

#[test]
fn gradient_of_sample_image() {
    let mut k = sample_image();
    k.compute_gradient();
    assert_eq!(
        pixels_of(&k),
        vec![
            [10, 20, 30, 0],
            [40, 50, 60, 0],
            [70, 80, 90, 0],
            [100, 110, 120, 0],
            [130, 140, 150, 0],
            [160, 170, 180, 0],
            [5, 6, 7, 49],
            [8, 9, 10, 58],
            [11, 12, 13, 87],
        ]
    );
}

#[test]
fn gradient_of_flat_alpha_is_opaque() {
    let mut k = kernel_of(2, 2, &[[1, 2, 3, 77], [4, 5, 6, 77], [7, 8, 9, 77], [0, 0, 0, 77]]);
    k.compute_gradient();
    assert_eq!(
        pixels_of(&k),
        vec![[1, 2, 3, 255], [4, 5, 6, 255], [7, 8, 9, 255], [0, 0, 0, 255]]
    );
}

#[test]
fn gradient_of_single_pixel() {
    let mut k = kernel_of(1, 1, &[[9, 8, 7, 6]]);
    k.compute_gradient();
    assert_eq!(pixels_of(&k), vec![[9, 8, 7, 255]]);
}

#[test]
fn gradient_of_small_step_takes_square_root() {
    // alpha step of 3 across a 2x1 image: dx = 4 * 3 = 12, so alpha = 255 - 12
    let mut k = kernel_of(2, 1, &[[0, 0, 0, 0], [0, 0, 0, 3]]);
    k.compute_gradient();
    assert_eq!(pixels_of(&k), vec![[0, 0, 0, 243], [0, 0, 0, 243]]);
}

#[test]
fn push_color_of_sample_image() {
    let mut k = sample_image();
    k.push_color(128);
    assert_eq!(
        pixels_of(&k),
        vec![
            [10, 20, 30, 200],
            [40, 50, 60, 210],
            [70, 80, 90, 220],
            [59, 69, 79, 126],
            [84, 94, 104, 135],
            [109, 119, 129, 128],
            [57, 63, 68, 26],
            [69, 74, 80, 27],
            [80, 86, 91, 24],
        ]
    );
}

#[test]
fn push_color_strength_above_255_acts_as_255() {
    let mut high = sample_image();
    high.push_color(1000);
    let mut full = sample_image();
    full.push_color(255);
    assert_eq!(pixels_of(&high), pixels_of(&full));
    assert_eq!(
        pixels_of(&full),
        vec![
            [10, 20, 30, 200],
            [40, 50, 60, 210],
            [70, 80, 90, 220],
            [20, 30, 40, 203],
            [40, 50, 60, 210],
            [60, 70, 80, 216],
            [110, 120, 130, 53],
            [130, 140, 150, 50],
            [150, 160, 170, 46],
        ]
    );
}

#[test]
fn push_color_never_lowers_alpha() {
    let before = pixels_of(&sample_image());
    for strength in [0u16, 1, 64, 128, 200, 255, 300] {
        let mut k = sample_image();
        k.push_color(strength);
        let after = pixels_of(&k);
        for (a, b) in after.iter().zip(before.iter()) {
            assert!(a[3] >= b[3]);
        }
    }
}

#[test]
fn push_color_with_strength_zero_changes_nothing() {
    let mut k = sample_image();
    k.push_color(0);
    assert_eq!(pixels_of(&k), pixels_of(&sample_image()));
}

#[test]
fn push_gradient_of_sample_image() {
    let mut k = sample_image();
    k.push_gradient(128);
    assert_eq!(
        pixels_of(&k),
        vec![
            [10, 20, 30, 255],
            [40, 50, 60, 255],
            [70, 80, 90, 255],
            [79, 89, 99, 255],
            [84, 94, 104, 255],
            [119, 129, 139, 255],
            [42, 46, 50, 255],
            [69, 74, 80, 255],
            [55, 59, 63, 255],
        ]
    );
}

#[test]
fn push_gradient_with_strength_zero_only_makes_opaque() {
    let mut k = sample_image();
    k.push_gradient(0);
    let expected: Vec<[u8; 4]> = pixels_of(&sample_image())
        .into_iter()
        .map(|p| [p[0], p[1], p[2], 255])
        .collect();
    assert_eq!(pixels_of(&k), expected);
}

#[test]
fn pushes_drop_samples_past_the_pixels() {
    let buffer = RgbaBuffer::from_raw(1, 1, vec![1, 2, 3, 4, 5, 6, 7, 8]).unwrap();
    let mut k = ImageKernel { image: buffer };
    k.push_gradient(10);
    assert_eq!(k.image.to_vec(), vec![1, 2, 3, 255]);
}

#[test]
fn scale_changes_size() {
    let mut k = kernel_of(2, 2, &[[10, 20, 30, 40]; 4]);
    k.scale(4, 3);
    assert_eq!(k.width(), 4);
    assert_eq!(k.height(), 3);
    assert_eq!(pixels_of(&k), vec![[10, 20, 30, 40]; 12]);
}

#[test]
fn scale_down_keeps_uniform_colour() {
    let mut k = kernel_of(4, 4, &[[200, 100, 50, 255]; 16]);
    k.scale(2, 1);
    assert_eq!(k.width(), 2);
    assert_eq!(k.height(), 1);
    assert_eq!(pixels_of(&k), vec![[200, 100, 50, 255]; 2]);
}

#[test]
fn scale_up_from_one_pixel() {
    let mut k = kernel_of(1, 1, &[[1, 2, 3, 4]]);
    k.scale(3, 2);
    assert_eq!(k.width(), 3);
    assert_eq!(k.height(), 2);
    assert_eq!(pixels_of(&k), vec![[1, 2, 3, 4]; 6]);
}

#[test]
fn from_image_keeps_size_of_any_colour_type() {
    let luma = image::ImageBuffer::<image::Luma<u16>, Vec<u16>>::from_raw(3, 2, vec![0; 6]).unwrap();
    let dynamic = image::DynamicImage::ImageLuma16(luma);
    let (w, h) = (dynamic.width(), dynamic.height());
    let k = ImageKernel::from_image(dynamic);
    assert_eq!((k.width(), k.height()), (w, h));
    assert_eq!((k.width(), k.height()), (3, 2));
}

#[test]
fn from_image_holds_the_rgba8_conversion() {
    let luma = image::ImageBuffer::<image::Luma<u16>, Vec<u16>>::from_raw(2, 1, vec![0, 65535]).unwrap();
    let dynamic = image::DynamicImage::ImageLuma16(luma);
    let expected = dynamic.to_rgba8().into_raw();
    let k = ImageKernel::from_image(dynamic);
    assert_eq!(k.image.to_vec(), expected);
    assert_eq!(k.image.to_vec(), vec![0, 0, 0, 255, 255, 255, 255, 255]);
}

fn gradient_alphas(width: u32, height: u32, pixels: &[[u8; 4]]) -> Vec<u8> {
    let mut k = kernel_of(width, height, pixels);
    k.compute_gradient();
    pixels_of(&k).iter().map(|p| p[3]).collect()
}

#[test]
fn gradient_alpha_ignores_colour_channels() {
    let a = [[0, 0, 0, 10], [0, 0, 0, 20], [0, 0, 0, 90], [0, 0, 0, 5], [0, 0, 0, 0], [0, 0, 0, 40]];
    let b = [[9, 1, 200, 10], [3, 3, 3, 20], [255, 0, 7, 90], [1, 2, 3, 5], [50, 60, 70, 0], [0, 9, 0, 40]];
    assert_eq!(gradient_alphas(3, 2, &a), gradient_alphas(3, 2, &b));
}

#[test]
fn gradient_alpha_ignores_alpha_offset() {
    let a = [[0, 0, 0, 10], [0, 0, 0, 20], [0, 0, 0, 90], [0, 0, 0, 5], [0, 0, 0, 0], [0, 0, 0, 40]];
    let b: Vec<[u8; 4]> = a.iter().map(|p| [p[0], p[1], p[2], p[3] + 100]).collect();
    assert_eq!(gradient_alphas(3, 2, &a), gradient_alphas(3, 2, &b));
}

#[test]
fn gradient_commutes_with_left_right_mirror() {
    let a = [[1, 0, 0, 10], [2, 0, 0, 20], [3, 0, 0, 90], [4, 0, 0, 5], [5, 0, 0, 0], [6, 0, 0, 40]];
    let m = [a[2], a[1], a[0], a[5], a[4], a[3]];
    let mut ka = kernel_of(3, 2, &a);
    ka.compute_gradient();
    let mut km = kernel_of(3, 2, &m);
    km.compute_gradient();
    let pa = pixels_of(&ka);
    let pm = pixels_of(&km);
    for y in 0..2 {
        for x in 0..3 {
            assert_eq!(pm[y * 3 + x], pa[y * 3 + (2 - x)]);
        }
    }
}

#[test]
fn push_color_depends_only_on_the_old_neighbourhood() {
    // a 4x3 image and a copy that differs only in its last column: pixel (1, 1)
    // sees the same neighbourhood in both.
    let mut a = Vec::new();
    for i in 0..12u8 {
        a.push([i * 10, i * 5, i, (i * 37) % 251]);
    }
    let mut b = a.clone();
    for y in 0..3 {
        b[y * 4 + 3] = [255, 255, 255, 255];
    }
    let mut ka = kernel_of(4, 3, &a);
    ka.push_color(200);
    let mut kb = kernel_of(4, 3, &b);
    kb.push_color(200);
    assert_eq!(ka.image.get_pixel(1, 1), kb.image.get_pixel(1, 1));
}
