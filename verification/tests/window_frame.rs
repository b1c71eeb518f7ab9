use transom_client::win::frame::client_size;
use transom_client::win::frame::outer_size;
use transom_client::wire::control::Size;

#[test]
fn chrome_is_excluded_at_every_dpi() {
    // The chrome of an overlapped window grows with the dots per inch.
    for (dpi, inset) in [(96, (16, 39)), (144, (22, 56)), (192, (28, 73))] {
        let outer = outer_size(1234, 789, inset);
        assert_eq!(outer, (1234 + inset.0, 789 + inset.1), "{dpi}");
        assert_eq!(
            client_size(outer.0 as u32, outer.1 as u32, inset),
            Size { w: 1234, h: 789 }
        );
    }
}
