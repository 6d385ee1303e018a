use color_avg::aggregate::{hsl_geo, less_mix, rgb_avg};
use color_avg::color::{ComputeError, Hsl, Rgb};

fn rgb(r: u8, g: u8, b: u8) -> Rgb {
    Rgb { r, g, b }
}

fn hsl(h: u16, s: u8, l: u8) -> Hsl {
    Hsl { h, s, l }
}

/// The atan2 angle, in whole degrees, of the mean of the hues' unit vectors;
/// the same vector averaging the driver performs before calling `hsl_geo`.
fn raw_hue_angle(hues: &[u16]) -> i16 {
    let n = hues.len() as f32;
    let x: f32 = hues.iter().map(|&h| (h as f32).to_radians().cos()).sum::<f32>() / n;
    let y: f32 = hues.iter().map(|&h| (h as f32).to_radians().sin()).sum::<f32>() / n;
    f32::atan2(y, x).to_degrees() as i16
}

#[test]
fn mean_of_singleton_is_that_color() {
    let v = vec![rgb(10, 20, 30)];
    assert_eq!(rgb_avg(&v), Ok(rgb(10, 20, 30)));
}

#[test]
fn mean_of_two_colors_averages_each_channel() {
    let v = vec![rgb(10, 20, 30), rgb(30, 40, 50)];
    assert_eq!(rgb_avg(&v), Ok(rgb(20, 30, 40)));
}

#[test]
fn mean_of_identical_pair_is_that_color() {
    let v = vec![rgb(42, 99, 7), rgb(42, 99, 7)];
    assert_eq!(rgb_avg(&v), Ok(rgb(42, 99, 7)));
}

#[test]
fn mean_of_empty_input_is_the_empty_error() {
    let v: Vec<Rgb> = vec![];
    assert_eq!(rgb_avg(&v), Err(ComputeError::EmptyInput));
}

#[test]
fn blend_of_singleton_is_that_color() {
    let v = vec![rgb(200, 100, 50)];
    assert_eq!(less_mix(&v), Ok(rgb(200, 100, 50)));
}

#[test]
fn blend_of_identical_pair_is_that_color() {
    let v = vec![rgb(42, 99, 7), rgb(42, 99, 7)];
    assert_eq!(less_mix(&v), Ok(rgb(42, 99, 7)));
}

#[test]
fn blend_of_black_and_white_meets_in_the_middle() {
    let v = vec![rgb(0, 0, 0), rgb(255, 255, 255)];
    assert_eq!(less_mix(&v), Ok(rgb(127, 127, 127)));
}

#[test]
fn blend_of_empty_input_is_the_empty_error() {
    let v: Vec<Rgb> = vec![];
    assert_eq!(less_mix(&v), Err(ComputeError::EmptyInput));
}

#[test]
fn hsl_mean_of_grey_singleton_reproduces_it() {
    let v = vec![hsl(123, 0, 200)];
    let raw = raw_hue_angle(&[123]);
    assert_eq!(hsl_geo(&v, raw), Ok(rgb(200, 200, 200)));
}

#[test]
fn hsl_mean_of_red_singleton_reproduces_its_hue() {
    let v = vec![hsl(0, 255, 128)];
    let raw = raw_hue_angle(&[0]);
    assert_eq!(raw, 0);
    assert_eq!(hsl_geo(&v, raw), Ok(rgb(255, 1, 1)));
}

#[test]
fn hsl_mean_of_identical_pair_is_that_color() {
    let v = vec![hsl(0, 255, 128), hsl(0, 255, 128)];
    let raw = raw_hue_angle(&[0, 0]);
    assert_eq!(raw, 0);
    assert_eq!(hsl_geo(&v, raw), Ok(rgb(255, 1, 1)));
}

#[test]
fn hsl_mean_of_opposite_hues_falls_back_deterministically() {
    // Hues 0 and 180 cancel: the vector sum is (numerically) zero, and the
    // mean hue is whatever atan2's convention yields for it. The run must not
    // fault, and repeating it gives the same angle.
    let raw = raw_hue_angle(&[0, 180]);
    assert_eq!(raw, raw_hue_angle(&[0, 180]));
    let v = vec![hsl(0, 0, 77), hsl(180, 0, 33)];
    assert_eq!(hsl_geo(&v, raw), Ok(rgb(55, 55, 55)));
}

#[test]
fn hsl_mean_of_empty_input_is_the_empty_error() {
    let v: Vec<Hsl> = vec![];
    assert_eq!(hsl_geo(&v, 0), Err(ComputeError::EmptyInput));
}

#[test]
fn hsl_mean_rejects_an_angle_beyond_the_wheel() {
    let v = vec![hsl(0, 0, 10)];
    assert_eq!(hsl_geo(&v, 400), Err(ComputeError::AngleOutOfRange));
}

#[test]
fn hsl_mean_faults_at_exactly_a_full_turn() {
    let v = vec![hsl(0, 0, 10)];
    assert_eq!(hsl_geo(&v, 360), Err(ComputeError::Fault));
}

#[test]
fn random_colors_always_average() {
    let v = vec![
        color_avg::color::random_color(),
        color_avg::color::random_color(),
        color_avg::color::random_color(),
    ];
    assert!(rgb_avg(&v).is_ok());
    assert!(less_mix(&v).is_ok());
}

#[test]
fn hsl_mean_normalizes_negative_angles() {
    let v = vec![hsl(0, 0, 10)];
    assert_eq!(hsl_geo(&v, -450), Ok(rgb(10, 10, 10)));
}
