use melange::app::{Action, App, AppState, DashboardTab, Key};

#[test]
fn new_app_starts_on_splash() {
    let a = App::new();
    assert_eq!(a.state, AppState::Splash);
    assert_eq!(a.active_tab, DashboardTab::Local);
    assert_eq!(a.selected_model, 0);
    assert!(!a.should_quit && !a.vpn_visible);
}

#[test]
fn navigation_wraps() {
    let mut a = App::new();
    a.state = AppState::Dashboard;
    assert_eq!(a.on_key(Key::Up, 3), Action::Nothing);
    assert_eq!(a.selected_model, 2);
    a.on_key(Key::Char('j'), 3);
    assert_eq!(a.selected_model, 0);
    a.on_key(Key::Down, 3);
    a.on_key(Key::Char('k'), 3);
    assert_eq!(a.selected_model, 0);
    a.on_key(Key::Down, 0);
    assert_eq!(a.selected_model, 0);
}

#[test]
fn down_then_up_returns() {
    let mut a = App::new();
    a.selected_model = 4;
    let before = a;
    a.on_key(Key::Down, 5);
    a.on_key(Key::Up, 5);
    assert_eq!(a, before);
}

#[test]
fn toggles_and_quit() {
    let mut a = App::new();
    let start = a;
    a.on_key(Key::Tab, 1);
    assert_eq!(a.active_tab, DashboardTab::Catalog);
    a.on_key(Key::Tab, 1);
    a.on_key(Key::Char('v'), 1);
    assert!(a.vpn_visible);
    a.on_key(Key::Char('v'), 1);
    assert_eq!(a, start);
    assert_eq!(a.on_key(Key::Char('r'), 1), Action::Refresh);
    assert_eq!(a.on_key(Key::Other, 1), Action::Nothing);
    a.on_key(Key::Esc, 1);
    assert!(a.should_quit);
    let mut b = App::new();
    b.on_key(Key::Char('q'), 1);
    assert!(b.should_quit);
}

#[test]
fn any_key_leaves_the_splash() {
    let mut a = App::new();
    assert_eq!(a.handle_key(Key::Char('q'), 2), Action::Nothing);
    assert_eq!(a.state, AppState::Dashboard);
    assert!(!a.should_quit);
    a.handle_key(Key::Char('q'), 2);
    assert!(a.should_quit);
}

#[test]
fn tick_moves_on() {
    let mut a = App::new();
    assert!(!a.tick(1500, 9));
    assert_eq!(a.state, AppState::Splash);
    assert!(a.tick(1501, 10));
    assert_eq!(a.state, AppState::Dashboard);
    assert_eq!(a.quote_index, 1);
    a.quote_index = 14;
    a.tick(0, 11);
    assert_eq!(a.quote_index, 0);
}

#[test]
fn refresh_keeps_selection_in_list() {
    let mut a = App::new();
    a.selected_model = 3;
    a.refresh(4);
    assert_eq!(a.selected_model, 3);
    a.refresh(3);
    assert_eq!(a.selected_model, 0);
}
