use transom_client::model::ModelEvent;
use transom_client::model::WindowModel;
use transom_client::wire::control::Rect;
use transom_client::wire::control::ServerMessage;
use transom_client::wire::control::Size;
use transom_client::wire::control::TileWindow;
use transom_client::wire::control::WindowKind;

fn rect(x: u32, y: u32, w: u32, h: u32) -> Rect {
    Rect { x, y, w, h }
}

fn created(id: u64, r: Rect, title: &str) -> ServerMessage {
    ServerMessage::WindowCreated {
        id,
        rect: r,
        title: title.to_string(),
        kind: WindowKind::Normal,
    }
}

#[test]
fn hello_sets_vds_and_connects() {
    let mut m = WindowModel::new();
    let ev = m.apply(ServerMessage::Hello {
        protocol: 1,
        vds: Size { w: 5120, h: 2880 },
    });
    assert_eq!(
        ev,
        vec![ModelEvent::Connected {
            vds: Size { w: 5120, h: 2880 }
        }]
    );
    assert_eq!(m.vds(), Some(Size { w: 5120, h: 2880 }));
}

#[test]
fn create_then_move_tracks_actual_size() {
    let mut m = WindowModel::new();
    m.apply(created(1, rect(0, 0, 800, 600), "Xcode"));
    assert_eq!(m.get(1).unwrap().source, rect(0, 0, 800, 600));

    // Host reports an actual size one pixel short of any request.
    let ev = m.apply(ServerMessage::WindowMoved {
        id: 1,
        rect: rect(0, 0, 800, 599),
    });
    assert_eq!(
        ev,
        vec![ModelEvent::WindowRectChanged {
            id: 1,
            source: rect(0, 0, 800, 599),
            size_changed: true,
        }]
    );
    assert_eq!(m.get(1).unwrap().source, rect(0, 0, 800, 599));
}

#[test]
fn move_without_size_change_flags_no_resize() {
    let mut m = WindowModel::new();
    m.apply(created(1, rect(0, 0, 800, 600), "x"));
    let ev = m.apply(ServerMessage::WindowMoved {
        id: 1,
        rect: rect(100, 50, 800, 600),
    });
    assert_eq!(
        ev,
        vec![ModelEvent::WindowRectChanged {
            id: 1,
            source: rect(100, 50, 800, 600),
            size_changed: false,
        }]
    );
}

#[test]
fn duplicate_create_is_idempotent() {
    let mut m = WindowModel::new();
    assert!(matches!(
        m.apply(created(1, rect(0, 0, 10, 10), "a")).as_slice(),
        [ModelEvent::WindowAdded(_)]
    ));
    // Same id again (e.g. from a resync) updates, doesn't duplicate.
    let ev = m.apply(created(1, rect(0, 0, 20, 20), "a"));
    assert!(matches!(
        ev.as_slice(),
        [ModelEvent::WindowRectChanged { .. }]
    ));
    assert_eq!(m.windows().len(), 1);
}

#[test]
fn destroy_clears_focus() {
    let mut m = WindowModel::new();
    m.apply(created(1, rect(0, 0, 10, 10), "a"));
    m.apply(ServerMessage::WindowFocused { id: 1 });
    assert_eq!(m.focused(), Some(1));
    let ev = m.apply(ServerMessage::WindowDestroyed { id: 1 });
    assert_eq!(ev, vec![ModelEvent::WindowRemoved { id: 1 }]);
    assert_eq!(m.focused(), None);
    assert!(m.windows().is_empty());
}

#[test]
fn move_for_unknown_window_is_ignored() {
    let mut m = WindowModel::new();
    let ev = m.apply(ServerMessage::WindowMoved {
        id: 99,
        rect: rect(0, 0, 1, 1),
    });
    assert!(ev.is_empty());
}

#[test]
fn tile_layout_prunes_stale_windows() {
    let mut m = WindowModel::new();
    m.apply(created(1, rect(0, 0, 10, 10), "a"));
    m.apply(created(2, rect(20, 0, 10, 10), "b"));
    m.apply(created(3, rect(40, 0, 10, 10), "c"));

    // A resync layout that no longer contains window 2.
    let ev = m.apply(ServerMessage::TileLayout {
        windows: vec![
            TileWindow {
                id: 1,
                rect: rect(0, 0, 10, 10),
            },
            TileWindow {
                id: 3,
                rect: rect(40, 0, 15, 10),
            }, // resized
        ],
        display: Size { w: 100, h: 100 },
    });

    // Window 3 resized, window 2 pruned.
    assert!(ev.contains(&ModelEvent::WindowRectChanged {
        id: 3,
        source: rect(40, 0, 15, 10),
        size_changed: true,
    }));
    assert!(ev.contains(&ModelEvent::Resynced { removed: vec![2] }));
    assert!(m.get(2).is_none());
    assert_eq!(m.windows().len(), 2);
}

#[test]
fn tile_layout_adds_unseen_windows() {
    let mut m = WindowModel::new();
    let ev = m.apply(ServerMessage::TileLayout {
        windows: vec![TileWindow {
            id: 5,
            rect: rect(0, 0, 30, 30),
        }],
        display: Size { w: 100, h: 100 },
    });
    assert!(ev
        .iter()
        .any(|e| matches!(e, ModelEvent::WindowAdded(w) if w.id == 5)));
    assert_eq!(m.get(5).unwrap().source, rect(0, 0, 30, 30));
}

#[test]
fn a_repeated_layout_says_nothing() {
    let mut m = WindowModel::new();
    m.apply(created(1, rect(0, 0, 10, 10), "a"));
    m.apply(ServerMessage::WindowFocused { id: 2 });
    let layout = |last| ServerMessage::TileLayout {
        windows: vec![
            TileWindow { id: 2, rect: rect(5, 0, 7, 7) },
            TileWindow { id: 3, rect: rect(9, 0, 7, 7) },
            TileWindow { id: 2, rect: last },
        ],
        display: Size { w: 100, h: 100 },
    };
    assert_eq!(m.apply(layout(rect(5, 0, 7, 7))).len(), 3);
    let before = m.windows().to_vec();
    assert!(m.apply(layout(rect(5, 0, 7, 7))).is_empty());
    assert_eq!(m.windows(), before);
    assert_eq!(m.focused(), Some(2));
    // A layout that lists an id at two places moves it there and back each time.
    m.apply(layout(rect(6, 0, 7, 7)));
    assert_eq!(m.apply(layout(rect(6, 0, 7, 7))).len(), 2);
}
