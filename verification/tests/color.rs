use raytracer::color::Color;

#[test]
fn color_add() {
    let color1 = Color { r: 100, g: 40, b: 80 };
    let color2 = Color { r: 100, g: 40, b: 80 };
    assert_eq!(color1.add(color2), Color { r: 200, g: 80, b: 160 });

    let color1 = Color { r: 200, g: 40, b: 80 };
    let color2 = Color { r: 200, g: 40, b: 80 };
    assert_eq!(color1.add(color2), Color { r: 255, g: 80, b: 160 });
}

#[test]
fn color_mul() {
    let color1 = Color { r: 100, g: 100, b: 100 };
    let color2 = Color { r: 100, g: 100, b: 100 };
    assert_eq!(color1.mul(color2), Color { r: 39, g: 39, b: 39 });
}

#[test]
fn color_add_saturates() {
    let red = Color { r: 255, g: 0, b: 0 };
    let faint_red = Color { r: 10, g: 0, b: 0 };
    assert_eq!(red.add(faint_red), Color { r: 255, g: 0, b: 0 });
}

#[test]
fn black_has_all_channels_zero() {
    assert_eq!(Color::black(), Color { r: 0, g: 0, b: 0 });
}

#[test]
fn mul_by_black_absorbs_everything() {
    let c = Color { r: 255, g: 128, b: 1 };
    assert_eq!(c.mul(Color::black()), Color::black());
}

#[test]
fn mul_by_full_white_changes_nothing() {
    let c = Color { r: 255, g: 128, b: 1 };
    let white = Color { r: 255, g: 255, b: 255 };
    assert_eq!(c.mul(white), c);
}

#[test]
fn gamma_channel_endpoints() {
    assert_eq!(Color::channel_gamma_correction(0), 0);
    assert_eq!(Color::channel_gamma_correction(100), 10);
    assert_eq!(Color::channel_gamma_correction(255), 15);
}

#[test]
fn gamma_corrects_every_channel() {
    let c = Color { r: 100, g: 0, b: 255 };
    assert_eq!(c.gamma_corrected(), Color { r: 10, g: 0, b: 15 });
}

#[test]
fn mean_of_identical_colors_is_that_color() {
    let c = Color { r: 13, g: 77, b: 200 };
    let samples = vec![c; 7];
    assert_eq!(Color::mean_color(samples), c);
}

#[test]
fn mean_of_two_colors() {
    let samples = vec![Color { r: 100, g: 40, b: 80 }, Color { r: 50, g: 20, b: 40 }];
    assert_eq!(Color::mean_color(samples), Color { r: 75, g: 30, b: 60 });
}

#[test]
fn mean_of_one_color_is_that_color() {
    let c = Color { r: 1, g: 2, b: 3 };
    assert_eq!(Color::mean_color(vec![c]), c);
}

#[test]
fn mean_rounds_each_channel_down() {
    let samples = vec![
        Color { r: 0, g: 1, b: 254 },
        Color { r: 1, g: 2, b: 255 },
        Color { r: 1, g: 2, b: 255 },
    ];
    // Channel sums are 2, 5 and 764; dividing by 3 rounds down.
    assert_eq!(Color::mean_color(samples), Color { r: 0, g: 1, b: 254 });
}
