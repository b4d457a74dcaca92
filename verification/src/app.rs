//! The dashboard's interaction state: which screen and tab are shown, which
//! model is selected, and what a key press or the passing of time does.
use vstd::prelude::*;
use crate::dune::quotes;

verus! {

/// The screen on display.
#[derive(Debug, Clone, Copy, PartialEq, Eq, Structural)]
pub enum AppState {
    Splash,
    Dashboard,
}

/// The dashboard's tab.
#[derive(Debug, Clone, Copy, PartialEq, Eq, Structural)]
pub enum DashboardTab {
    Local,
    Catalog,
}

/// A key press, as far as the dashboard tells keys apart.
#[derive(Debug, Clone, Copy, PartialEq, Eq, Structural)]
pub enum Key {
    Char(char),
    Up,
    Down,
    Tab,
    Esc,
    Other,
}

/// Outside work a key press asks for.
#[derive(Debug, Clone, Copy, PartialEq, Eq, Structural)]
pub enum Action {
    Nothing,
    /// Detect the hardware and scan the models again, then call `refresh`.
    Refresh,
}

/// How long the splash screen stays, in milliseconds.
pub const SPLASH_MS: u128 = 1500;

/// Seconds between quote changes.
pub const QUOTE_SECS: u64 = 10;

/// The interaction state.
#[derive(Debug, Clone, Copy, PartialEq, Eq, Structural)]
pub struct App {
    pub state: AppState,
    pub active_tab: DashboardTab,
    pub selected_model: usize,
    pub quote_index: usize,
    pub should_quit: bool,
    pub vpn_visible: bool,
}

/// The selection after moving down: the next model, wrapping to the first.
pub open spec fn next_index(sel: usize, count: usize) -> usize {
    if count == 0 { sel } else { ((sel + 1) % (count as int)) as usize }
}

/// The selection after moving up: the previous model, wrapping to the last.
pub open spec fn prev_index(sel: usize, count: usize) -> usize {
    if count == 0 { sel } else if sel == 0 { (count - 1) as usize } else { (sel - 1) as usize }
}

pub open spec fn other_tab(t: DashboardTab) -> DashboardTab {
    match t {
        DashboardTab::Local => DashboardTab::Catalog,
        DashboardTab::Catalog => DashboardTab::Local,
    }
}

/// What a key does on the dashboard (with `count` models listed).
pub open spec fn on_key_spec(a: App, key: Key, count: usize) -> (App, Action) {
    match key {
        Key::Char('q') | Key::Esc => (App { should_quit: true, ..a }, Action::Nothing),
        Key::Char('j') | Key::Down => (App { selected_model: next_index(a.selected_model, count), ..a }, Action::Nothing),
        Key::Char('k') | Key::Up => (App { selected_model: prev_index(a.selected_model, count), ..a }, Action::Nothing),
        Key::Tab => (App { active_tab: other_tab(a.active_tab), ..a }, Action::Nothing),
        Key::Char('r') => (a, Action::Refresh),
        Key::Char('v') => (App { vpn_visible: !a.vpn_visible, ..a }, Action::Nothing),
        _ => (a, Action::Nothing),
    }
}

impl App {
    /// The state at start: splash screen, local tab, first model and quote.
    pub fn new() -> (r: App)
        ensures
            r == (App {
                state: AppState::Splash,
                active_tab: DashboardTab::Local,
                selected_model: 0,
                quote_index: 0,
                should_quit: false,
                vpn_visible: false,
            }),
    {
        App {
            state: AppState::Splash,
            active_tab: DashboardTab::Local,
            selected_model: 0,
            quote_index: 0,
            should_quit: false,
            vpn_visible: false,
        }
    }

    /// Handles a key on the dashboard: `q`/Esc quits, `j`/Down and `k`/Up
    /// move the selection (wrapping), Tab switches tabs, `r` asks for a
    /// refresh, `v` shows or masks the VPN address.
    pub fn on_key(&mut self, key: Key, model_count: usize) -> (r: Action)
        ensures
            (*final(self), r) == on_key_spec(*old(self), key, model_count),
    {
        match key {
            Key::Char('q') | Key::Esc => {
                self.should_quit = true;
                Action::Nothing
            },
            Key::Char('j') | Key::Down => {
                if model_count > 0 {
                    self.selected_model = ((self.selected_model as u128 + 1) % model_count as u128) as usize;
                }
                Action::Nothing
            },
            Key::Char('k') | Key::Up => {
                if model_count > 0 {
                    self.selected_model = if self.selected_model == 0 { model_count - 1 } else { self.selected_model - 1 };
                }
                Action::Nothing
            },
            Key::Tab => {
                self.active_tab = match self.active_tab {
                    DashboardTab::Local => DashboardTab::Catalog,
                    DashboardTab::Catalog => DashboardTab::Local,
                };
                Action::Nothing
            },
            Key::Char('r') => Action::Refresh,
            Key::Char('v') => {
                self.vpn_visible = !self.vpn_visible;
                Action::Nothing
            },
            _ => Action::Nothing,
        }
    }

    /// Handles any key press: on the splash screen it only skips to the dashboard.
    pub fn handle_key(&mut self, key: Key, model_count: usize) -> (r: Action)
        ensures
            old(self).state == AppState::Splash ==> *final(self) == (App { state: AppState::Dashboard, ..*old(self) })
                && r == Action::Nothing,
            old(self).state == AppState::Dashboard ==> (*final(self), r) == on_key_spec(*old(self), key, model_count),
    {
        if self.state == AppState::Splash {
            self.state = AppState::Dashboard;
            Action::Nothing
        } else {
            self.on_key(key, model_count)
        }
    }

    /// Lets time pass: the splash gives way after 1.5 s, and the quote
    /// changes every 10 s. Returns whether the quote changed (its timer then
    /// starts again).
    pub fn tick(&mut self, splash_elapsed_ms: u128, quote_elapsed_secs: u64) -> (changed: bool)
        ensures
            final(self).state == (if old(self).state == AppState::Splash && splash_elapsed_ms > SPLASH_MS {
                AppState::Dashboard
            } else {
                old(self).state
            }),
            changed == (quote_elapsed_secs >= QUOTE_SECS),
            final(self).quote_index == (if changed {
                ((old(self).quote_index + 1) % (quotes::QUOTE_COUNT as int)) as usize
            } else {
                old(self).quote_index
            }),
            final(self).active_tab == old(self).active_tab,
            final(self).selected_model == old(self).selected_model,
            final(self).should_quit == old(self).should_quit,
            final(self).vpn_visible == old(self).vpn_visible,
    {
        if self.state == AppState::Splash && splash_elapsed_ms > SPLASH_MS {
            self.state = AppState::Dashboard;
        }
        if quote_elapsed_secs >= QUOTE_SECS {
            self.quote_index = ((self.quote_index as u128 + 1) % quotes::count() as u128) as usize;
            true
        } else {
            false
        }
    }

    /// After a rescan found `model_count` models: a selection past the end
    /// goes back to the first model.
    pub fn refresh(&mut self, model_count: usize)
        ensures
            final(self).selected_model == (if old(self).selected_model >= model_count { 0 } else { old(self).selected_model }),
            final(self).state == old(self).state,
            final(self).active_tab == old(self).active_tab,
            final(self).quote_index == old(self).quote_index,
            final(self).should_quit == old(self).should_quit,
            final(self).vpn_visible == old(self).vpn_visible,
    {
        if self.selected_model >= model_count {
            self.selected_model = 0;
        }
    }
}

/// With models listed, a key never leaves the selection outside the list.
pub proof fn law_selection_stays_in_list(a: App, key: Key, count: usize)
    requires
        count > 0,
        a.selected_model < count,
    ensures
        on_key_spec(a, key, count).0.selected_model < count,
{
}

/// Moving down and then up selects the same model again, and so does
/// moving up and then down.
pub proof fn law_down_then_up_returns(a: App, count: usize)
    requires
        a.selected_model < count,
    ensures
        on_key_spec(on_key_spec(a, Key::Down, count).0, Key::Up, count).0 == a,
        on_key_spec(on_key_spec(a, Key::Up, count).0, Key::Down, count).0 == a,
{
    let s = a.selected_model as int;
    let c = count as int;
    lemma_wrap_next(s, c);
    if s > 0 {
        lemma_wrap_next(s - 1, c);
    } else {
        lemma_wrap_next(c - 1, c);
    }
}

/// The successor modulo `c` of an index below `c`.
proof fn lemma_wrap_next(s: int, c: int)
    requires
        0 <= s < c,
    ensures
        (s + 1) % c == (if s + 1 < c { s + 1 } else { 0 }),
{
    if s + 1 < c {
        vstd::arithmetic::div_mod::lemma_small_mod((s + 1) as nat, c as nat);
    } else {
        vstd::arithmetic::div_mod::lemma_mod_self_0(c);
    }
}

/// Switching tabs twice comes back to the first tab; so does showing the
/// VPN address twice.
pub proof fn law_toggles_are_involutions(a: App, count: usize)
    ensures
        on_key_spec(on_key_spec(a, Key::Tab, count).0, Key::Tab, count).0 == a,
        on_key_spec(on_key_spec(a, Key::Char('v'), count).0, Key::Char('v'), count).0 == a,
{
}

} // verus!
