use transom_client::resize_sync::ResizeSync;

const MILLISECOND: u64 = 1_000_000;

#[test]
fn late_ack_cannot_finish_a_newer_drag() {
    let mut sync = ResizeSync::default();
    let now = 0u64;
    let first = sync.commit(now);
    sync.begin();
    assert!(!sync.complete(first));
    let second = sync.commit(now);
    assert!(!sync.complete(first));
    assert!(sync.waiting());
    assert!(sync.complete(second));
    assert!(!sync.complete(second));
}
#[test]
fn old_host_falls_back_once_without_an_infinite_wait() {
    let mut sync = ResizeSync::default();
    let now = 0u64;
    sync.commit(now);
    assert!(!sync.expired(now + 1400 * MILLISECOND));
    assert!(sync.expired(now + 1500 * MILLISECOND));
    assert!(!sync.expired(now + 2000 * MILLISECOND));
}
