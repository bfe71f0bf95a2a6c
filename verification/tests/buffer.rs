use raytracer::buffer::Image;
use raytracer::color::Color;

#[test]
fn new_image_is_black() {
    let img = Image::new(4, 3);
    assert_eq!(img.width(), 4);
    assert_eq!(img.height(), 3);
    for y in 0..3 {
        for x in 0..4 {
            assert_eq!(img.get_pixel(x, y), Color { r: 0, g: 0, b: 0 });
        }
    }
}

#[test]
fn put_then_get_pixel() {
    let mut img = Image::new(4, 3);
    let c = Color { r: 9, g: 8, b: 7 };
    img.put_pixel(2, 1, c);
    assert_eq!(img.get_pixel(2, 1), c);
}

#[test]
fn put_leaves_other_pixels_alone() {
    let mut img = Image::new(4, 3);
    img.put_pixel(2, 1, Color { r: 9, g: 8, b: 7 });
    for y in 0..3 {
        for x in 0..4 {
            if !(x == 2 && y == 1) {
                assert_eq!(img.get_pixel(x, y), Color { r: 0, g: 0, b: 0 });
            }
        }
    }
}

#[test]
fn store_finished_pixel_averages_samples() {
    let mut img = Image::new(2, 2);
    let samples = vec![Color { r: 100, g: 40, b: 80 }, Color { r: 50, g: 20, b: 40 }];
    img.store_finished_pixel(1, 0, samples, false);
    assert_eq!(img.get_pixel(1, 0), Color { r: 75, g: 30, b: 60 });
    assert_eq!(img.get_pixel(0, 0), Color { r: 0, g: 0, b: 0 });
}

#[test]
fn store_finished_pixel_gamma_corrects_the_average() {
    let mut img = Image::new(2, 2);
    let samples = vec![Color { r: 100, g: 0, b: 255 }];
    img.store_finished_pixel(0, 1, samples, true);
    assert_eq!(img.get_pixel(0, 1), Color { r: 10, g: 0, b: 15 });
}

#[test]
fn every_pixel_keeps_its_own_color() {
    let mut img = Image::new(3, 2);
    for y in 0..2 {
        for x in 0..3 {
            img.put_pixel(x, y, Color { r: x as u8, g: y as u8, b: 42 });
        }
    }
    for y in 0..2 {
        for x in 0..3 {
            assert_eq!(img.get_pixel(x, y), Color { r: x as u8, g: y as u8, b: 42 });
        }
    }
}
