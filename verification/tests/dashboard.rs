use transom_client::connections::Connection;
use transom_client::model::Window;
use transom_client::win::commands::KeyFocus;
use transom_client::win::commands::Typed;
use transom_client::win::dashboard::Action;
use transom_client::win::dashboard::Dashboard;
use transom_client::win::dashboard::Effect;
use transom_client::win::dashboard::SystemCommand;
use transom_client::win::dashboard::ADD_MAC;
use transom_client::win::dashboard::CARD_MENU_BASE;
use transom_client::win::dashboard::CHANGED;
use transom_client::win::dashboard::CLICKED;
use transom_client::win::dashboard::CLOSE;
use transom_client::win::dashboard::CONNECT;
use transom_client::win::dashboard::FORGET;
use transom_client::win::dashboard::HOST;
use transom_client::win::dashboard::LIST;
use transom_client::win::dashboard::MAC_BASE;
use transom_client::win::dashboard::MANUAL;
use transom_client::win::dashboard::MAXIMIZE;
use transom_client::win::dashboard::NAV_APPS;
use transom_client::win::dashboard::NAV_CONNECTIONS;
use transom_client::win::dashboard::NAV_SETTINGS;
use transom_client::win::dashboard::NEXT;
use transom_client::win::dashboard::PREVIOUS;
use transom_client::win::dashboard::REFRESH;
use transom_client::win::dashboard::SEARCH;
use transom_client::win::dashboard::SORT;
use transom_client::win::dashboard::UPDATE;
use transom_client::win::gallery::CARD_BASE;
use transom_client::win::gallery::CARD_COUNT;
use transom_client::win::search::matching;
use transom_client::win::shell::picture_for;
use transom_client::win::scene::Shape;
use transom_client::wire::control::Rect;
use transom_client::wire::control::Size;
use transom_client::wire::control::WindowKind;

const SECOND: u64 = 1_000_000_000;

fn window(id: u64, title: &str) -> Window {
    Window {
        id,
        title: title.to_string(),
        kind: WindowKind::Normal,
        source: Rect { x: 0, y: 0, w: 2, h: 2 },
    }
}

fn mac(id: &str, host: &str) -> Connection {
    let mut c = Connection::manual(host, "7000", "7001").unwrap();
    c.id = id.to_string();
    c.name = id.to_string();
    c
}

fn typed(search: &str, host: &str, control: &str, video: &str) -> Typed {
    Typed {
        search: search.to_string(),
        host: host.to_string(),
        control: control.to_string(),
        video: video.to_string(),
    }
}

fn click(d: &mut Dashboard, id: usize) -> Vec<Effect> {
    d.command(id, CLICKED, &typed("", "", "", ""), false)
}

fn placed(effects: &[Effect], wanted: usize) -> Option<(i32, i32, i32, i32)> {
    let mut found = None;
    for effect in effects {
        if let Effect::Place { id, x, y, w, h, visible } = effect {
            if *id == wanted {
                found = if *visible { Some((*x, *y, *w, *h)) } else { None };
            }
        }
    }
    found
}

fn enabled(effects: &[Effect], wanted: usize) -> bool {
    let mut found = true;
    for effect in effects {
        if let Effect::Enable { id, on } = effect {
            if *id == wanted {
                found = *on;
            }
        }
    }
    found
}

fn text_of(effects: &[Effect], wanted: usize) -> Option<String> {
    effects.iter().rev().find_map(|effect| match effect {
        Effect::SetText { id, text } if *id == wanted => Some(text.clone()),
        _ => None,
    })
}

fn has(effects: &[Effect], wanted: &str) -> bool {
    effects.iter().any(|effect| format!("{effect:?}") == wanted)
}

fn taken(d: &mut Dashboard) -> Option<String> {
    d.scanning = true;
    d.tick(None, 0).1.map(|action| match action {
        Action::Connect(c) => format!("connect {}", c.id),
        other => format!("{other:?}"),
    })
}

fn open(titles: &[&str]) -> (Dashboard, Vec<Effect>) {
    let mut d = Dashboard::new(Ok(vec![]), 0);
    d.resize(1464, 934);
    let windows = titles.iter().enumerate().map(|(i, t)| (window(i as u64, t), i == 1)).collect();
    let effects = d.set_windows(windows);
    (d, effects)
}

#[test]
fn the_first_layout_places_every_control() {
    let mut d = Dashboard::new(Ok(vec![]), 5);
    assert_eq!(d.status, "Choose a Mac to get started.");
    assert_eq!(d.discovery, "Looking for nearby Macs…");
    assert_eq!(d.view, NAV_APPS);
    let effects = d.resize(1464, 934);
    assert_eq!(placed(&effects, NAV_SETTINGS), Some((10, 820, 210, 50)));
    assert_eq!(placed(&effects, CLOSE), Some((1416, 0, 46, 32)));
    assert_eq!(placed(&effects, CONNECT), Some((1248, 94, 174, 48)));
    assert_eq!(placed(&effects, SEARCH), Some((280, 299, 440, 27)));
    assert_eq!(placed(&effects, SORT), Some((1184, 294, 164, 36)));
    assert_eq!(placed(&effects, ADD_MAC), None);
    assert_eq!(placed(&effects, CARD_BASE), None);
    assert!(!enabled(&effects, CONNECT));
    assert!(enabled(&effects, MANUAL));
    assert_eq!(text_of(&effects, SORT).as_deref(), Some("Sort: Name"));
    let effects = d.resize(1100, 720);
    assert_eq!(placed(&effects, SEARCH), Some((280, 299, 440, 27)));
    let effects = d.resize(900, 720);
    assert_eq!(placed(&effects, SEARCH), Some((280, 299, 310, 27)));
}

#[test]
fn a_bad_settings_file_is_reported() {
    let d = Dashboard::new(Err("broken".into()), 0);
    assert_eq!(d.status, "Could not load saved Macs: broken");
    assert!(d.saved.is_empty());
}

#[test]
fn cards_fill_a_grid_and_turn_pages() {
    let (mut d, effects) = open(&["a", "b", "c", "d", "e", "f", "g", "h", "i", "j"]);
    assert_eq!(d.page_size, 8);
    assert_eq!(d.visible, [0, 1, 2, 3, 4, 5, 6, 7]);
    assert_eq!(placed(&effects, CARD_BASE), Some((238, 348, 290, 188)));
    assert_eq!(placed(&effects, CARD_BASE + 5), Some((544, 552, 290, 188)));
    assert_eq!(placed(&effects, CARD_MENU_BASE + 5), Some((790, 700, 32, 30)));
    assert_eq!(placed(&effects, CARD_BASE + 8), None);
    assert_eq!(text_of(&effects, CARD_BASE).as_deref(), Some("Open window: a"));
    assert_eq!(text_of(&effects, CARD_BASE + 1).as_deref(), Some("Show window: b"));
    assert_eq!(text_of(&effects, CARD_MENU_BASE).as_deref(), Some("Options for a"));
    assert_eq!(placed(&effects, PREVIOUS), Some((1224, 882, 98, 32)));
    assert!(!enabled(&effects, PREVIOUS));
    assert!(enabled(&effects, NEXT));
    let effects = click(&mut d, NEXT);
    assert_eq!((d.page, d.visible.clone()), (1, vec![8, 9]));
    assert!(enabled(&effects, PREVIOUS));
    assert!(!enabled(&effects, NEXT));
    // The last page is the last.
    click(&mut d, NEXT);
    assert_eq!(d.page, 1);
    click(&mut d, PREVIOUS);
    click(&mut d, PREVIOUS);
    assert_eq!(d.page, 0);
}

#[test]
fn every_page_fits_the_slots_and_every_item_is_on_one() {
    let titles: Vec<String> = (0..31).map(|n| format!("{n:02}")).collect();
    let names: Vec<&str> = titles.iter().map(String::as_str).collect();
    let (mut d, _) = open(&names);
    for list in [false, true] {
        d.list = list;
        d.page = 0;
        d.resize(1464, 4000);
        let mut seen = Vec::new();
        loop {
            assert!(d.visible.len() <= CARD_COUNT);
            seen.extend(d.visible.clone());
            let page = d.page;
            click(&mut d, NEXT);
            if d.page == page {
                break;
            }
        }
        assert_eq!(seen, (0..31).collect::<Vec<usize>>());
    }
}

#[test]
fn a_list_shows_one_card_per_row() {
    let (mut d, _) = open(&["a", "b"]);
    let effects = click(&mut d, LIST);
    assert_eq!(d.page_size, 6);
    assert_eq!(placed(&effects, CARD_BASE + 1), Some((238, 432, 1210, 72)));
    assert_eq!(placed(&effects, CARD_MENU_BASE + 1), Some((1399, 449, 34, 32)));
}

#[test]
fn search_ignores_case_and_sorts_by_name() {
    let (mut d, _) = open(&["Zebra", "apple ÄPFEL", "Mango", "zoo"]);
    assert_eq!(d.visible, [1, 2, 0, 3]);
    d.command(SEARCH, CHANGED, &typed("äpf", "", "", ""), false);
    assert_eq!(d.visible, [1]);
    let (effects, handled) = d.dialog_message(KeyFocus::Search);
    assert!(handled && effects.is_empty());
    assert_eq!(taken(&mut d).as_deref(), Some("OpenWindow(1)"));
    d.command(SEARCH, CHANGED, &typed("Z", "", "", ""), false);
    assert_eq!(d.visible, [0, 3]);
    assert!(d.dialog_message(KeyFocus::Search).1);
    assert_eq!(taken(&mut d), None);
    let effects = click(&mut d, SORT);
    assert!(has(&effects, "OpenSortMenu"));
    d.command(SEARCH, CHANGED, &typed("", "", "", ""), false);
    let effects = d.sort_menu_chosen(2);
    assert_eq!(d.visible, [0, 1, 2, 3]);
    assert_eq!(text_of(&effects, SORT).as_deref(), Some("Sort: Host order"));
    assert!(d.sort_menu_chosen(0).is_empty());
    assert!(!d.sort_name);
}

#[test]
fn cards_open_and_hide_their_windows() {
    let (mut d, _) = open(&["b", "a"]);
    click(&mut d, CARD_BASE);
    assert_eq!(taken(&mut d).as_deref(), Some("OpenWindow(1)"));
    click(&mut d, CARD_BASE + 5);
    assert_eq!(taken(&mut d), None);
    assert!(has(&click(&mut d, CARD_MENU_BASE + 1), "OpenCardMenu { slot: 1 }"));
    assert_eq!(d.card_menu(0), Some((1, true)));
    assert_eq!(d.card_menu(1), Some((0, false)));
    assert_eq!(d.card_menu(2), None);
    d.card_menu_chosen(1, 2);
    assert_eq!(taken(&mut d).as_deref(), Some("HideWindow(1)"));
    d.card_menu_chosen(1, 1);
    assert_eq!(taken(&mut d).as_deref(), Some("OpenWindow(1)"));
    d.card_menu_chosen(1, 0);
    assert_eq!(taken(&mut d), None);
}

#[test]
fn the_connect_button_connects_or_disconnects() {
    let mut d = Dashboard::new(Ok(vec![mac("one", "10.0.0.1"), mac("two", "10.0.0.2")]), 0);
    d.resize(1464, 934);
    d.rebuild_rows();
    click(&mut d, NAV_CONNECTIONS);
    click(&mut d, MAC_BASE + 1);
    click(&mut d, CONNECT);
    assert_eq!(taken(&mut d).as_deref(), Some("connect two"));
    let effects = d.set_status("Streaming", true);
    assert_eq!(text_of(&effects, CONNECT).as_deref(), Some("Disconnect"));
    assert!(!enabled(&effects, MAC_BASE));
    assert!(d.set_status("Streaming", true).is_empty());
    // An active session only disconnects.
    click(&mut d, MAC_BASE);
    assert_eq!(d.selected_device, 1);
    click(&mut d, FORGET);
    assert_eq!(d.saved.len(), 2);
    d.command(MANUAL, CLICKED, &typed("", "mac", "1", ""), false);
    assert_eq!(taken(&mut d), None);
    click(&mut d, CONNECT);
    assert_eq!(taken(&mut d).as_deref(), Some("Disconnect"));
}

#[test]
fn the_selection_follows_its_mac() {
    let mut d = Dashboard::new(Ok(vec![mac("one", "10.0.0.1"), mac("two", "10.0.0.2")]), 0);
    d.resize(1464, 934);
    d.rebuild_rows();
    d.selected_device = 1;
    d.scanning = true;
    let (effects, action) = d.tick(Some(Ok(vec![mac("new", "10.0.0.3"), mac("two", "10.0.0.9")])), 9);
    assert!(action.is_none() && !effects.is_empty());
    assert_eq!(d.discovery, "2 Macs available nearby");
    let ids: Vec<_> = d.rows.iter().map(|c| c.id.clone()).collect();
    assert_eq!(ids, ["new", "two", "one"]);
    assert_eq!(d.selected().unwrap().host, "10.0.0.9");
}

#[test]
fn scans_come_every_eight_seconds() {
    let mut d = Dashboard::new(Ok(vec![]), 3);
    assert!(!has(&d.tick(None, 2).0, "StartScan"));
    assert!(has(&d.tick(None, 3).0, "StartScan"));
    assert!(!has(&d.tick(None, 4).0, "StartScan"));
    d.tick(Some(Ok(vec![mac("m", "10.0.0.1")])), SECOND);
    assert_eq!(d.discovery, "1 Mac available nearby");
    assert!(!has(&d.tick(None, 9 * SECOND - 1).0, "StartScan"));
    assert!(has(&d.tick(None, 9 * SECOND).0, "StartScan"));
    d.tick(Some(Err("no net".into())), 9 * SECOND);
    assert_eq!(d.discovery, "Discovery unavailable: no net");
    assert_eq!(d.nearby.len(), 1);
    let mut e = Dashboard::new(Ok(vec![]), 0);
    e.scanning = true;
    e.tick(Some(Ok(vec![])), 0);
    assert_eq!(e.discovery, "No nearby Macs. Start sharing in Transom Host.");
    // Refreshing scans at once, but never twice.
    assert!(has(&click(&mut e, REFRESH), "StartScan"));
    assert!(!has(&click(&mut e, REFRESH), "StartScan"));
}

#[test]
fn remembered_macs_are_selected_and_saved() {
    let mut d = Dashboard::new(Ok(vec![mac("one", "10.0.0.1")]), 0);
    d.rebuild_rows();
    let effects = d.remember(mac("two", "10.0.0.2"));
    assert!(has(&effects, "Save") && has(&effects, "Invalidate"));
    assert_eq!(d.saved[0].id, "two");
    assert_eq!(d.selected().unwrap().id, "two");
    d.save_failed("disk full");
    assert_eq!(d.discovery, "Connected, but could not save this Mac: disk full");
}

#[test]
fn forgetting_a_mac_says_how_it_went() {
    let mut d = Dashboard::new(Ok(vec![mac("one", "10.0.0.1"), mac("two", "10.0.0.2")]), 0);
    d.resize(1464, 934);
    d.rebuild_rows();
    assert!(has(&click(&mut d, FORGET), "SaveForgotten"));
    assert_eq!(d.saved.len(), 1);
    d.forgot(None);
    assert_eq!(d.status, "Saved connection removed. Nearby Macs remain discoverable.");
    assert_eq!(d.rows.len(), 1);
    d.forgot(Some("denied"));
    assert_eq!(d.status, "Could not save connections: denied");
}

#[test]
fn manual_connections_are_checked() {
    let mut d = Dashboard::new(Ok(vec![]), 0);
    d.resize(1464, 934);
    let effects = click(&mut d, ADD_MAC);
    assert_eq!(d.view, NAV_SETTINGS);
    assert_eq!(placed(&effects, HOST), Some((268, 402, 470, 36)));
    assert!(has(&effects, &format!("Focus {{ id: {HOST} }}")));
    let (effects, handled) = d.dialog_message(KeyFocus::Manual);
    assert!(handled && has(&effects, "PressManual"));
    d.command(MANUAL, CLICKED, &typed("", "", "1", ""), false);
    assert_eq!(
        d.status,
        "Enter a Mac hostname (such as Mac-Studio.local) or an IP address."
    );
    d.command(MANUAL, CLICKED, &typed("", "Mac", "1", ""), false);
    assert_eq!(taken(&mut d).as_deref(), Some("connect manual:mac:1"));
    assert!(!d.dialog_message(KeyFocus::Elsewhere).1);
}

#[test]
fn window_buttons_give_system_commands() {
    let mut d = Dashboard::new(Ok(vec![]), 0);
    for (id, zoomed, wanted) in [
        (MAXIMIZE, false, SystemCommand::Maximize),
        (MAXIMIZE, true, SystemCommand::Restore),
        (CLOSE, false, SystemCommand::Close),
    ] {
        let effects = d.command(id, CLICKED, &typed("", "", "", ""), zoomed);
        assert!(matches!(&effects[..], [Effect::System { command }] if *command == wanted));
    }
    assert!(has(&click(&mut d, UPDATE), "CheckForUpdates"));
    d.update_started(None);
    assert_eq!(d.status, "Checking for updates…");
    d.update_started(Some("no updater"));
    assert_eq!(d.status, "no updater");
}

#[test]
fn connecting_shows_the_windows() {
    let mut d = Dashboard::new(Ok(vec![]), 0);
    d.resize(1464, 934);
    click(&mut d, NAV_CONNECTIONS);
    d.set_connected(true);
    assert_eq!((d.view, d.connected), (NAV_APPS, true));
    click(&mut d, NAV_SETTINGS);
    d.set_connected(true);
    assert_eq!(d.view, NAV_SETTINGS);
}

#[test]
fn previews_come_four_times_a_second() {
    let (mut d, _) = open(&["a"]);
    assert!(d.previews_due(0, true));
    assert!(!d.previews_due(0, false));
    // Luma of a white and a black column, no colour.
    let nv12 = [235u8, 16, 235, 16, 128, 128];
    let effects =
        d.update_previews(&nv12, 2, Size { w: 2, h: 2 }, &vec![Size { w: 2, h: 1 }], SECOND);
    assert!(has(&effects, "Invalidate"));
    assert_eq!(d.cards[0].pixels, [255, 255, 255, 255, 0, 0, 0, 255]);
    assert!(!d.previews_due(SECOND + 249_999_999, true));
    assert!(d.previews_due(SECOND + 250_000_000, true));
    // A window that stays where it is keeps its thumbnail.
    d.set_windows(vec![(window(0, "renamed"), true)]);
    assert_eq!(d.cards[0].pixels.len(), 8);
    let mut moved = window(0, "renamed");
    moved.source.x = 1;
    d.set_windows(vec![(moved, true)]);
    assert!(d.cards[0].pixels.is_empty());
}

#[test]
fn searches_compare_texts_as_they_are() {
    let keys: Vec<String> = ["zoo", "an apple", "ape", "zebra", "ape"]
        .iter()
        .map(|k| k.to_string())
        .collect();
    assert_eq!(matching(&keys, "ap", false), [1, 2, 4]);
    assert_eq!(matching(&keys, "ap", true), [1, 2, 4]);
    assert_eq!(matching(&keys, "z", true), [3, 0]);
    assert_eq!(matching(&keys, "Z", true), Vec::<usize>::new());
    assert_eq!(matching(&keys, "", true), [1, 2, 4, 3, 0]);
    let (mut d, _) = open(&["Zebra", "apple"]);
    d.search("zeb".to_string());
    assert_eq!(d.visible, [0]);
    d.search("Zeb".to_string());
    assert!(d.visible.is_empty());
}

#[test]
fn only_a_studio_gets_its_picture() {
    assert!(matches!(picture_for("my mac studio"), Shape::Mac { .. }));
    assert!(matches!(picture_for("mac mini"), Shape::Icon { .. }));
    assert!(matches!(picture_for("Studio"), Shape::Icon { .. }));
}
