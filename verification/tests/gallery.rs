use transom_client::model::Window;
use transom_client::win::gallery::Card;
use transom_client::wire::control::Rect;
use transom_client::wire::control::Size;
use transom_client::wire::control::WindowKind;

#[test]
fn preview_crops_only_its_window_and_rejects_outside_rects() {
    let mut c = Card::new(
        Window {
            id: 1,
            title: "x".into(),
            kind: WindowKind::Normal,
            source: Rect {
                x: 1,
                y: 0,
                w: 1,
                h: 2,
            },
        },
        false,
    );
    c.update_preview(
        &[1, 1, 1, 1, 2, 2, 2, 2, 3, 3, 3, 3, 4, 4, 4, 4],
        Size { w: 2, h: 2 },
        Size { w: 1, h: 2 },
    );
    assert_eq!(c.pixels, vec![2, 2, 2, 2, 4, 4, 4, 4]);
    c.window.source.x = u32::MAX;
    c.update_preview(&[], Size { w: 2, h: 2 }, Size { w: 1, h: 2 });
    assert!(c.pixels.is_empty());
}
