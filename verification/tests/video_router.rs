use transom_client::win::video_router::Route;
use transom_client::win::video_router::VideoRouter;
use transom_client::wire::control::Size;

#[test]
fn closing_one_window_preserves_other_decoder_and_retires_its_generation() {
    let mut router = VideoRouter::default();
    let size = Size { w: 2000, h: 1600 };
    assert_eq!(router.receive(1, 3, size, true), Route::Fresh);
    assert_eq!(router.receive(2, 4, size, true), Route::Fresh);
    router.remove(1);
    assert!(router.stream(1).is_none());
    assert_eq!(router.retired(1), Some(3));
    assert_eq!(router.stream(2).unwrap().generation, 4);
    assert_eq!(router.stream(2).unwrap().size, size);
}

#[test]
fn every_open_stream_is_polled_once() {
    let mut router = VideoRouter::default();
    for id in [7, 3, 5] {
        router.receive(id, 0, Size { w: id as u32, h: 1 }, true);
    }
    router.remove(3);
    let mut list = router.poll();
    list.sort_by_key(|(id, _)| *id);
    assert_eq!(list, [(5, Size { w: 5, h: 1 }), (7, Size { w: 7, h: 1 })]);
}
