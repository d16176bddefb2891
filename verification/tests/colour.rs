use raytracer::colour::Colour;
use raytracer::constants::SCALE;

#[test]
fn colour_test_new() {
    let colour = Colour::new(SCALE, SCALE, SCALE);
    assert_eq!(colour.red, SCALE);
    assert_eq!(colour.green, SCALE);
    assert_eq!(colour.blue, SCALE);
}

#[test]
fn test_from_hex() {
    let colour = Colour::from_hex(0xffffff);
    assert_eq!(colour.red, SCALE);
    assert_eq!(colour.green, SCALE);
    assert_eq!(colour.blue, SCALE);
}

#[test]
fn test_as_hex() {
    let colour = Colour::new(SCALE, SCALE, SCALE);
    assert_eq!(colour.as_hex(), 0xffffff);
}

#[test]
fn test_as_rgb() {
    let colour = Colour::new(SCALE, SCALE, SCALE);
    assert_eq!(colour.as_rgb(), [SCALE, SCALE, SCALE]);
}

#[test]
fn test_hex_round_trip_close() {
    // each channel survives the byte codec to within one part in 255
    let colour = Colour::new(123_456, 654_321, 999_999);
    let back = Colour::from_hex(colour.as_hex());
    let worst = SCALE / 255 + 1;
    assert!(0 <= colour.red - back.red && colour.red - back.red <= worst);
    assert!(0 <= colour.green - back.green && colour.green - back.green <= worst);
    assert!(0 <= colour.blue - back.blue && colour.blue - back.blue <= worst);
    assert_eq!(back, Colour::new(121_568, 650_980, 996_078));
}

#[test]
fn test_hex_of_black_and_mid_gray() {
    assert_eq!(Colour::new(0, 0, 0).as_hex(), 0x000000);
    assert_eq!(Colour::gray(SCALE / 2).as_hex(), 0x7f7f7f);
    assert_eq!(Colour::from_hex(0x000000), Colour::new(0, 0, 0));
}

#[test]
fn test_as_hex_truncates_to_byte_range() {
    // a negative channel stores as zero, an over-bright one as full
    assert_eq!(Colour::new(-SCALE, 2 * SCALE, SCALE / 2).as_hex(), 0x00ff7f);
}

#[test]
fn test_add_mul_scale() {
    let a = Colour::new(100_000, 200_000, 300_000);
    let b = Colour::new(400_000, 500_000, 600_000);
    assert_eq!(a.add(b), Colour::new(500_000, 700_000, 900_000));
    assert_eq!(a.mul(b), Colour::new(40_000, 100_000, 180_000));
    assert_eq!(a.scale(2 * SCALE), Colour::new(200_000, 400_000, 600_000));
}

#[test]
fn test_gray() {
    assert_eq!(Colour::gray(250_000), Colour::new(250_000, 250_000, 250_000));
}
