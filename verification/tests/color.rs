//! Color conversion and the shading color guard.
use solstrale::geo::Vec3;
use solstrale::renderer::shader::{filter_invalid_color_values, COLOR_CEILING};
use solstrale::rgb_color::{rgb_to_vec3, to_float, to_rgb_color, Rgb, COLOR_INTENSITY_MAX};
use solstrale::UNIT;

#[test]
fn test_rgb_to_vec3() {
    assert_eq!(
        Vec3::new(0, 100 * UNIT / 255, UNIT),
        rgb_to_vec3(&Rgb { r: 0, g: 100, b: 255 })
    );
}

#[test]
fn test_to_rgb_color() {
    // 0.3 is 19661 fixed-point units; one sample leaves it as is, two
    // samples halve it before the gamma square root.
    let col = Vec3::new(0, 19661, UNIT);
    assert_eq!(Rgb { r: 0, g: 140, b: 255 }, to_rgb_color(col, 1));
    assert_eq!(Rgb { r: 0, g: 99, b: 181 }, to_rgb_color(col, 2));
}

#[test]
fn to_float_applies_gamma_and_clamp() {
    // A quarter becomes a half: sqrt(0.25) == 0.5, exactly in fixed
    // point.
    let c = to_float(Vec3::new(UNIT / 4, 0, 0), 1);
    assert_eq!(c.x, UNIT / 2);
    assert_eq!(c.y, 0);
    // Intensities clamp just below one.
    let c = to_float(Vec3::new(9 * UNIT, 4 * UNIT, 0), 1);
    assert_eq!(c.x, COLOR_INTENSITY_MAX);
    assert_eq!(c.y, COLOR_INTENSITY_MAX);
    // Negative channels floor at zero.
    let c = to_float(Vec3::new(-3 * UNIT, 0, 0), 4);
    assert_eq!(c.x, 0);
}

#[test]
fn color_filter_caps_at_ceiling() {
    let wild = Vec3::new(1000 * UNIT, 2 * UNIT, -UNIT);
    let f = filter_invalid_color_values(&wild);
    assert_eq!(f.x, COLOR_CEILING);
    assert_eq!(f.y, 2 * UNIT);
    assert_eq!(f.z, -UNIT);
}
