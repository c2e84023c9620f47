use gpui_web::geometry::{centered_bounds, maximized_bounds, point, size, Bounds, DisplayId, DisplayInfo};

fn displays() -> Vec<DisplayInfo> {
    vec![
        DisplayInfo { id: DisplayId(1), bounds: Bounds { origin: point(0, 0), size: size(1920, 1080) } },
        DisplayInfo { id: DisplayId(2), bounds: Bounds { origin: point(1920, 0), size: size(1280, 800) } },
    ]
}

#[test]
fn centered_on_requested_display() {
    let b = centered_bounds(Some(DisplayId(2)), size(800, 600), &displays());
    assert_eq!(b, Bounds { origin: point(2160, 100), size: size(800, 600) });
}

#[test]
fn centered_on_primary_when_unknown() {
    let b = centered_bounds(Some(DisplayId(9)), size(800, 600), &displays());
    assert_eq!(b, Bounds { origin: point(560, 240), size: size(800, 600) });
    let b = centered_bounds(None, size(800, 600), &displays());
    assert_eq!(b.origin, point(560, 240));
}

#[test]
fn centered_at_origin_without_displays() {
    let b = centered_bounds(None, size(800, 600), &Vec::new());
    assert_eq!(b, Bounds { origin: point(0, 0), size: size(800, 600) });
}

#[test]
fn maximized_bounds_choices() {
    assert_eq!(maximized_bounds(Some(DisplayId(2)), &displays()), displays()[1].bounds);
    assert_eq!(maximized_bounds(None, &displays()), displays()[0].bounds);
    assert_eq!(
        maximized_bounds(Some(DisplayId(2)), &Vec::new()),
        Bounds { origin: point(0, 0), size: size(1024, 768) }
    );
}

#[test]
fn center_and_zero() {
    let b = Bounds { origin: point(10, 20), size: size(5, 7) };
    assert_eq!(b.center(), point(12, 23));
    assert_eq!(Bounds::zero(), Bounds { origin: point(0, 0), size: size(0, 0) });
}
