use transom_client::win::cursor::contains;
use transom_client::wire::control::Rect;

#[test]
fn late_text_hint_only_applies_inside_its_field() {
    let r = Rect {
        x: 30,
        y: 40,
        w: 200,
        h: 24,
    };
    assert!(contains(r, 30, 40));
    assert!(contains(r, 229, 63));
    for (x, y) in [(-1, 40), (29, 40), (230, 40), (30, 64), (100, 20)] {
        assert!(!contains(r, x, y));
    }
    assert!(!contains(Rect { x: u32::MAX, ..r }, 100, 40));
}
