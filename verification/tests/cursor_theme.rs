use std::cell::RefCell;

use lamco_rdp_server::server::cursor_theme::{
    build_cursor_theme_manager, next_step, CmdRunner, CursorThemeManager, CursorThemes,
    SessionCmdRunner, ThemeState, ToggleStep,
};

/// Records calls; fails on request.
struct FakeRunner {
    calls: RefCell<Vec<String>>,
    fail_apply: bool,
    fail_persist: bool,
}

impl FakeRunner {
    fn ok() -> Self {
        Self {
            calls: RefCell::new(vec![]),
            fail_apply: false,
            fail_persist: false,
        }
    }

    fn calls(&self) -> Vec<String> {
        self.calls.borrow().clone()
    }
}

impl CmdRunner for FakeRunner {
    fn apply_theme(&self, theme: &str) -> bool {
        self.calls.borrow_mut().push(format!("apply:{theme}"));
        !self.fail_apply
    }

    fn persist_theme(&self, theme: &str) -> bool {
        self.calls.borrow_mut().push(format!("persist:{theme}"));
        !self.fail_persist
    }
}

fn themes() -> CursorThemes {
    CursorThemes {
        visible: "breeze_cursors".into(),
        transparent: "transparent".into(),
    }
}

#[test]
fn begin_applies_toggle_and_persists_visible() {
    let runner = FakeRunner::ok();
    let mut mgr = CursorThemeManager::new(themes(), &runner);
    mgr.begin_rdp_session();
    assert_eq!(mgr.state(), ThemeState::Transparent);
    assert_eq!(
        runner.calls(),
        vec![
            "apply:breeze_cursors".to_string(),
            "apply:transparent".to_string(),
            "persist:breeze_cursors".to_string(),
        ]
    );
}

#[test]
fn begin_is_idempotent_when_already_transparent() {
    let runner = FakeRunner::ok();
    let mut mgr = CursorThemeManager::new(themes(), &runner);
    mgr.begin_rdp_session();
    let after_first = runner.calls().len();
    mgr.begin_rdp_session();
    assert_eq!(runner.calls().len(), after_first);
}

#[test]
fn end_restores_visible_theme_and_config() {
    let runner = FakeRunner::ok();
    let mut mgr = CursorThemeManager::new(themes(), &runner);
    mgr.begin_rdp_session();
    mgr.end_rdp_session();
    assert_eq!(mgr.state(), ThemeState::Visible);
    assert_eq!(runner.calls().last().unwrap(), "persist:breeze_cursors");
    assert!(runner.calls().contains(&"apply:breeze_cursors".to_string()));
}

#[test]
fn end_without_begin_is_noop() {
    let runner = FakeRunner::ok();
    let mut mgr = CursorThemeManager::new(themes(), &runner);
    mgr.end_rdp_session();
    assert!(runner.calls().is_empty());
}

#[test]
fn failed_toggle_leaves_state_visible() {
    let runner = FakeRunner {
        calls: RefCell::new(vec![]),
        fail_apply: true,
        fail_persist: false,
    };
    let mut mgr = CursorThemeManager::new(themes(), &runner);
    mgr.begin_rdp_session();
    assert_eq!(mgr.state(), ThemeState::Visible);
    mgr.begin_rdp_session();
    assert_eq!(mgr.state(), ThemeState::Visible);
}

#[test]
fn failed_persist_is_nonfatal() {
    let runner = FakeRunner {
        calls: RefCell::new(vec![]),
        fail_apply: false,
        fail_persist: true,
    };
    let mut mgr = CursorThemeManager::new(themes(), &runner);
    mgr.begin_rdp_session();
    assert_eq!(mgr.state(), ThemeState::Transparent);
}

#[test]
fn restore_visible_forces_state_even_if_tracked_as_transparent() {
    let runner = FakeRunner::ok();
    let mut mgr = CursorThemeManager::new(themes(), &runner);
    mgr.begin_rdp_session();
    mgr.restore_visible();
    assert_eq!(mgr.state(), ThemeState::Visible);
    assert_eq!(runner.calls().last().unwrap(), "persist:breeze_cursors");
    assert!(mgr.state() == ThemeState::Visible);
}

#[test]
fn configuration_never_names_transparent_theme() {
    let runner = FakeRunner::ok();
    let mut mgr = CursorThemeManager::new(themes(), &runner);
    mgr.begin_rdp_session();
    mgr.end_rdp_session();
    mgr.restore_visible();
    mgr.begin_rdp_session();
    assert!(!runner.calls().contains(&"persist:transparent".to_string()));
}

#[test]
fn session_commands_run_in_users_session() {
    assert!(SessionCmdRunner::with_uid(0).is_none());
    assert!(SessionCmdRunner::new(None).is_none());
    let runner = SessionCmdRunner::with_uid(1000).expect("user");
    assert_eq!(runner.runtime_dir(), "/run/user/1000");
    let env = runner.environment();
    assert_eq!(env[1].1, "unix:path=/run/user/1000/bus");
    assert_eq!(SessionCmdRunner::apply_command("x")[1], "x");
    assert_eq!(SessionCmdRunner::persist_command("breeze_cursors")[7], "breeze_cursors");
}

#[test]
fn manager_needs_switch_runner_and_tool() {
    assert!(build_cursor_theme_manager(true, Some(&FakeRunner::ok()), true, themes()).is_some());
    assert!(build_cursor_theme_manager(false, Some(&FakeRunner::ok()), true, themes()).is_none());
    assert!(build_cursor_theme_manager(true, Some(&FakeRunner::ok()), false, themes()).is_none());
    assert!(build_cursor_theme_manager::<&FakeRunner>(true, None, true, themes()).is_none());
}

/// Applies the transparent theme and no other.
struct NeverVisible(RefCell<Vec<String>>);

impl CmdRunner for NeverVisible {
    fn apply_theme(&self, theme: &str) -> bool {
        self.0.borrow_mut().push(format!("apply:{theme}"));
        theme == "transparent"
    }

    fn persist_theme(&self, theme: &str) -> bool {
        self.0.borrow_mut().push(format!("persist:{theme}"));
        true
    }
}

#[test]
fn failed_restore_leaves_configuration_visible() {
    let runner = NeverVisible(RefCell::new(vec![]));
    let mut mgr = CursorThemeManager::new(themes(), &runner);
    mgr.restore_visible();
    let expected = ["apply:transparent", "apply:breeze_cursors", "persist:breeze_cursors"];
    assert_eq!(*runner.0.borrow(), expected);
    mgr.begin_rdp_session();
    assert_eq!(runner.0.borrow().len(), 4);
    assert_eq!(mgr.state(), ThemeState::Visible);
}

#[test]
fn toggle_steps_follow_answers() {
    let (visible, transparent) = (ThemeState::Visible, ThemeState::Transparent);
    let step = |target, step, ok| next_step(target, false, step, ok);
    assert_eq!(step(visible, ToggleStep::First, true), ToggleStep::Second);
    assert_eq!(step(visible, ToggleStep::First, false), ToggleStep::Done { reached: false });
    assert_eq!(step(visible, ToggleStep::Second, true), ToggleStep::Persist { reached: true });
    assert_eq!(step(visible, ToggleStep::Second, false), ToggleStep::Persist { reached: false });
    assert_eq!(step(transparent, ToggleStep::Second, false), ToggleStep::Done { reached: false });
    let persist = ToggleStep::Persist { reached: true };
    assert_eq!(step(transparent, persist, false), ToggleStep::Done { reached: true });
    assert_eq!(next_step(visible, true, ToggleStep::Second, true), ToggleStep::Pin);
}

#[test]
fn themes_change_with_every_client() {
    let runner = FakeRunner::ok();
    let mut mgr = CursorThemeManager::new(themes(), &runner);
    mgr.begin_rdp_session();
    mgr.end_rdp_session();
    let expected = [
        "apply:breeze_cursors",
        "apply:transparent",
        "persist:breeze_cursors",
        "apply:transparent",
        "apply:breeze_cursors",
        "persist:breeze_cursors",
    ];
    assert_eq!(runner.calls(), expected);
}
