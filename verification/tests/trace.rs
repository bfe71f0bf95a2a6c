use raytracer::color::Color;
use raytracer::trace::PathTrace;

#[test]
fn depth_zero_trace_is_black() {
    let trace = PathTrace::new(0);
    assert!(trace.done());
    assert_eq!(trace.color(), Color { r: 0, g: 0, b: 0 });
}

#[test]
fn exhausted_bounce_budget_goes_black() {
    let mut trace = PathTrace::new(2);
    assert!(!trace.done());
    trace.record_hit(Color { r: 255, g: 255, b: 255 });
    assert!(!trace.done());
    trace.record_hit(Color { r: 200, g: 200, b: 200 });
    assert!(trace.done());
    assert_eq!(trace.color(), Color { r: 0, g: 0, b: 0 });
}

#[test]
fn immediate_miss_returns_background() {
    let mut trace = PathTrace::new(50);
    let sky = Color { r: 127, g: 178, b: 255 };
    trace.record_miss(sky);
    assert!(trace.done());
    assert_eq!(trace.color(), sky);
}

#[test]
fn one_bounce_attenuates_background() {
    let mut trace = PathTrace::new(50);
    trace.record_hit(Color { r: 200, g: 100, b: 50 });
    trace.record_miss(Color { r: 100, g: 100, b: 100 });
    assert_eq!(trace.color(), Color { r: 78, g: 39, b: 19 });
}

#[test]
fn bounces_compose_innermost_first() {
    let mut trace = PathTrace::new(8);
    trace.record_hit(Color { r: 200, g: 150, b: 100 });
    trace.record_hit(Color { r: 128, g: 128, b: 128 });
    trace.record_miss(Color { r: 255, g: 200, b: 60 });
    // The second attenuation applies to the background first, the first one
    // to that product.
    assert_eq!(trace.color(), Color { r: 100, g: 58, b: 11 });
}
