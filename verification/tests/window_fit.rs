use transom_client::window_fit::initial_proxy_size;
use transom_client::wire::control::Size;

#[test]
fn fitting_window_keeps_exact_physical_size() {
    assert_eq!(
        initial_proxy_size(Size { w: 1280, h: 800 }, Size { w: 2560, h: 1400 }),
        Size { w: 1280, h: 800 }
    );
}

#[test]
fn oversized_retina_window_stays_windowed_and_preserves_aspect() {
    assert_eq!(
        initial_proxy_size(Size { w: 3840, h: 1954 }, Size { w: 2560, h: 1400 }),
        Size { w: 2176, h: 1107 }
    );
}

#[test]
fn tall_window_is_limited_by_height() {
    assert_eq!(
        initial_proxy_size(Size { w: 1200, h: 2400 }, Size { w: 1920, h: 1080 }),
        Size { w: 459, h: 918 }
    );
}

#[test]
fn zero_dimensions_are_sanitized() {
    assert_eq!(
        initial_proxy_size(Size { w: 0, h: 0 }, Size { w: 0, h: 0 }),
        Size { w: 1, h: 1 }
    );
}
