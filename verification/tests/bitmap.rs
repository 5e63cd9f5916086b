use space_thumbnails::bitmap::{blend, blend_over, pack_argb, swap_red_blue, Raster, Rgba};
use space_thumbnails::plugins::psd::apply_corner_fold;
use space_thumbnails::plugins::PsdGenerator;

fn px(r: u8, g: u8, b: u8, a: u8) -> Rgba {
    Rgba { r, g, b, a }
}

#[test]
fn pixels_are_packed_with_alpha_on_top() {
    let words = pack_argb(&[0x11, 0x22, 0x33, 0x44, 1, 2, 3, 4, 9, 9]);
    assert_eq!(words, vec![0x4411_2233, 0x0401_0203]);
    assert!(pack_argb(&[1, 2, 3]).is_empty());
}

#[test]
fn red_and_blue_change_places() {
    let mut data = vec![1, 2, 3, 4, 5, 6, 7, 8];
    swap_red_blue(&mut data);
    assert_eq!(data, vec![3, 2, 1, 4, 7, 6, 5, 8]);
    swap_red_blue(&mut data);
    assert_eq!(data, vec![1, 2, 3, 4, 5, 6, 7, 8]);
}

#[test]
fn blending_follows_the_rule() {
    // A transparent pixel on top changes nothing.
    assert_eq!(blend(px(1, 2, 3, 4), px(9, 9, 9, 0)), px(1, 2, 3, 4));
    // An opaque pixel on top replaces what is below.
    assert_eq!(blend(px(1, 2, 3, 4), px(50, 60, 70, 255)), px(50, 60, 70, 255));
    // Half transparent grey over opaque white:
    // alpha 128 + 255 * 127 / 255 = 255; red (100 * 128 + 255 * 255 * 127 / 255) / 255 = 177.
    assert_eq!(blend(px(255, 255, 255, 255), px(100, 100, 100, 128)), px(177, 177, 177, 255));
    // Over a transparent ground: alpha 128, red 100 * 128 / 128 = 100.
    assert_eq!(blend(px(0, 0, 0, 0), px(100, 110, 120, 128)), px(100, 110, 120, 128));
    // A channel that does not fit into eight bits is cut: (255 + 254) / 1 = 509 = 0x1FD.
    assert_eq!(blend(px(255, 0, 0, 1), px(255, 0, 0, 1)), px(0xFD, 0, 0, 1));
}

#[test]
fn blend_over_goes_pixel_by_pixel() {
    let mut under = vec![255, 255, 255, 255, 1, 2, 3, 4];
    let top = vec![100, 100, 100, 128, 9, 9, 9, 0, 7, 7, 7, 7];
    blend_over(&mut under, &top);
    assert_eq!(under, vec![177, 177, 177, 255, 1, 2, 3, 4]);
}

#[test]
fn raster_keeps_its_pixels_apart() {
    let mut image = Raster::new(3, 2).unwrap();
    assert_eq!(image.width(), 3);
    assert_eq!(image.height(), 2);
    assert_eq!(image.as_raw(), &[0u8; 24][..]);
    image.put_pixel(2, 1, px(1, 2, 3, 4));
    image.put_pixel(0, 0, px(5, 6, 7, 8));
    assert_eq!(image.get_pixel(2, 1), px(1, 2, 3, 4));
    assert_eq!(image.get_pixel(0, 0), px(5, 6, 7, 8));
    assert_eq!(image.get_pixel(1, 1), px(0, 0, 0, 0));
    let raw = image.into_raw();
    assert_eq!(&raw[0..4], &[5, 6, 7, 8]);
    assert_eq!(&raw[20..24], &[1, 2, 3, 4]);
    assert!(Raster::from_raw(3, 2, raw).is_some());
    assert!(Raster::from_raw(3, 2, vec![0u8; 23]).is_none());
    assert!(Raster::from_raw(3, 2, vec![0u8; 25]).is_none());
}

#[test]
fn corner_is_folded_over() {
    let mut image = Raster::from_raw(5, 4, vec![9u8; 80]).unwrap();
    apply_corner_fold(&mut image, 3);
    let kept = px(9, 9, 9, 9);
    let clear = px(0, 0, 0, 0);
    let shadow = px(0, 0, 0, 40);
    let flap = px(240, 240, 240, 255);
    let rows = [
        [kept, kept, clear, clear, clear],
        [kept, kept, shadow, clear, clear],
        [kept, kept, flap, shadow, clear],
        [kept, kept, kept, kept, kept],
    ];
    for y in 0..4u32 {
        for x in 0..5u32 {
            assert_eq!(image.get_pixel(x, y), rows[y as usize][x as usize], "at {} {}", x, y);
        }
    }
    let mut same = Raster::from_raw(2, 2, vec![9u8; 16]).unwrap();
    apply_corner_fold(&mut same, 0);
    assert_eq!(same.as_raw(), &[9u8; 16][..]);
    // A fold that is larger than the image is cut to its shorter side.
    let mut small = Raster::from_raw(3, 2, vec![9u8; 24]).unwrap();
    apply_corner_fold(&mut small, 100);
    assert_eq!(small.get_pixel(0, 0), kept);
    assert_eq!(small.get_pixel(1, 0), clear);
    assert_eq!(small.get_pixel(2, 0), clear);
    assert_eq!(small.get_pixel(1, 1), shadow);
    assert_eq!(small.get_pixel(2, 1), clear);
}

#[test]
fn psd_thumbnail_has_the_size_asked_for() {
    let source = vec![200u8; 4 * 4 * 4];
    let image = PsdGenerator.generate(4, 4, source, 8, 8, 2).ok().unwrap();
    assert_eq!(image.width(), 8);
    assert_eq!(image.height(), 8);
    assert_eq!(image.get_pixel(0, 0), px(200, 200, 200, 200));
    assert_eq!(image.get_pixel(7, 0), px(0, 0, 0, 0));
    assert_eq!(image.get_pixel(6, 1), px(0, 0, 0, 40));
    assert_eq!(image.get_pixel(5, 1), px(200, 200, 200, 200));
    assert_eq!(image.as_raw().len(), 8 * 8 * 4);
    let folded = PsdGenerator.generate(4, 4, vec![200u8; 64], 3, 5, 1000).ok().unwrap();
    assert_eq!(folded.as_raw().len(), 3 * 5 * 4);
    let bad = PsdGenerator.generate(4, 4, vec![0u8; 10], 8, 8, 2);
    assert_eq!(bad.err().unwrap(), "Failed to create image buffer from PSD data");
    let huge = PsdGenerator.generate(1, 1, vec![0u8; 4], u32::MAX, u32::MAX, 0);
    assert_eq!(huge.err().unwrap(), "Image too large");
    assert!(Raster::new(u32::MAX, u32::MAX).is_none());
    assert!(Raster::filled(u32::MAX, u32::MAX, px(1, 2, 3, 4)).is_none());
    let red = Raster::filled(2, 1, px(255, 0, 0, 255)).unwrap();
    assert_eq!(red.as_raw(), &[255, 0, 0, 255, 255, 0, 0, 255][..]);
}
