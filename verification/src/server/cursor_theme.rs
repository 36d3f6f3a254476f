//! The console cursor during a remote session.
//!
//! Where the compositor paints the cursor into the picture that is captured, the
//! client would show two. While a client is connected the console therefore has
//! a transparent cursor theme; when it leaves, the visible one comes back. Applying
//! a theme writes it to the configuration too, so wherever the transparent one was
//! applied last, the visible one is written there again: a machine that restarts in
//! between has a cursor.

use vstd::prelude::*;

use crate::text::{decimal, decimal_text, same_text};

verus! {

/// Which theme the console shows.
#[derive(Clone, Copy, Debug, PartialEq, Eq, Structural)]
pub enum ThemeState {
    Visible,
    Transparent,
}

/// Names of the two themes.
#[derive(Clone, Debug)]
pub struct CursorThemes {
    pub visible: String,
    pub transparent: String,
}

/// Carries out theme commands.
pub trait CmdRunner {
    /// Applies a theme to the running session. Returns whether it succeeded.
    fn apply_theme(&self, theme: &str) -> bool;

    /// Writes a theme to the configuration. Returns whether it succeeded.
    fn persist_theme(&self, theme: &str) -> bool;

    /// Gives the compositor time to load a theme that was applied.
    fn settle(&self) {
    }
}

impl<F: CmdRunner> CmdRunner for &F {
    /// Succeeds as the runner behind the reference does.
    fn apply_theme(&self, theme: &str) -> (ok: bool)
        ensures
            call_ensures(F::apply_theme, (*self, theme), ok),
    {
        (**self).apply_theme(theme)
    }

    /// Succeeds as the runner behind the reference does.
    fn persist_theme(&self, theme: &str) -> (ok: bool)
        ensures
            call_ensures(F::persist_theme, (*self, theme), ok),
    {
        (**self).persist_theme(theme)
    }

    /// Waits as the runner behind the reference does.
    fn settle(&self)
        ensures
            call_ensures(F::settle, (*self,), ()),
    {
        (**self).settle()
    }
}

/// Commands to run in the user's session.
pub struct SessionCmdRunner {
    runtime_dir: String,
}

impl SessionCmdRunner {
    /// The runtime directory of the session.
    pub closed spec fn dir(self) -> Seq<char> {
        self.runtime_dir@
    }

    /// For the user that the process runs as, where it is known; none for root,
    /// who has no session.
    pub fn new(current_uid: Option<u32>) -> (r: Option<Self>)
        ensures
            match current_uid {
                Some(uid) => if uid == 0 {
                    r is None
                } else {
                    r is Some && r->0.dir() == "/run/user/"@ + decimal(uid as nat)
                },
                None => r is None,
            },
    {
        SessionCmdRunner::with_uid(
            match current_uid {
                Some(uid) => uid,
                None => 0,
            },
        )
    }

    pub fn with_uid(uid: u32) -> (r: Option<Self>)
        ensures
            uid == 0 ==> r is None,
            uid != 0 ==> r is Some && r->0.dir() == "/run/user/"@ + decimal(uid as nat),
    {
        if uid == 0 {
            return None;
        }
        let mut runtime_dir = "/run/user/".to_owned();
        runtime_dir.append(decimal_text(uid as u64).as_str());
        Some(SessionCmdRunner { runtime_dir })
    }

    pub fn runtime_dir(&self) -> (r: &str)
        ensures
            r@ == self.dir(),
    {
        self.runtime_dir.as_str()
    }

    /// Variables with which a command runs, as names and values.
    pub fn environment(&self) -> (r: Vec<(&'static str, String)>)
        ensures
            r@.len() == 5,
            r@[0].0@ == "XDG_RUNTIME_DIR"@ && r@[0].1@ == self.dir(),
            r@[1].0@ == "DBUS_SESSION_BUS_ADDRESS"@ && r@[1].1@ == "unix:path="@ + self.dir()
                + "/bus"@,
            r@[2].0@ == "DISPLAY"@ && r@[2].1@ == ":0"@,
            r@[3].0@ == "WAYLAND_DISPLAY"@ && r@[3].1@ == "wayland-0"@,
            r@[4].0@ == "LC_ALL"@ && r@[4].1@ == "C.UTF-8"@,
    {
        let mut bus = "unix:path=".to_owned();
        bus.append(self.runtime_dir.as_str());
        bus.append("/bus");
        let mut r: Vec<(&'static str, String)> = Vec::new();
        r.push(("XDG_RUNTIME_DIR", self.runtime_dir.clone()));
        r.push(("DBUS_SESSION_BUS_ADDRESS", bus));
        r.push(("DISPLAY", ":0".to_owned()));
        r.push(("WAYLAND_DISPLAY", "wayland-0".to_owned()));
        r.push(("LC_ALL", "C.UTF-8".to_owned()));
        r
    }

    /// The command that applies a theme.
    pub fn apply_command(theme: &str) -> (r: Vec<String>)
        ensures
            r@.len() == 2,
            r@[0]@ == "/usr/bin/plasma-apply-cursortheme"@,
            r@[1]@ == theme@,
    {
        let mut r: Vec<String> = Vec::new();
        r.push("/usr/bin/plasma-apply-cursortheme".to_owned());
        r.push(theme.to_owned());
        r
    }

    /// The command that writes a theme to the configuration.
    pub fn persist_command(theme: &str) -> (r: Vec<String>)
        ensures
            r@.len() == 8,
            r@[0]@ == "/usr/bin/kwriteconfig6"@,
            r@[1]@ == "--file"@,
            r@[2]@ == "kcminputrc"@,
            r@[3]@ == "--group"@,
            r@[4]@ == "Mouse"@,
            r@[5]@ == "--key"@,
            r@[6]@ == "cursorTheme"@,
            r@[7]@ == theme@,
    {
        let mut r: Vec<String> = Vec::new();
        r.push("/usr/bin/kwriteconfig6".to_owned());
        r.push("--file".to_owned());
        r.push("kcminputrc".to_owned());
        r.push("--group".to_owned());
        r.push("Mouse".to_owned());
        r.push("--key".to_owned());
        r.push("cursorTheme".to_owned());
        r.push(theme.to_owned());
        r
    }
}

/// A command that was carried out, with whether it succeeded.
pub enum ThemeCall {
    Apply(Seq<char>, bool),
    Settle,
    Persist(Seq<char>, bool),
}

/// What a toggle does next.
#[derive(Clone, Copy, Debug, PartialEq, Eq, Structural)]
pub enum ToggleStep {
    /// Applies the theme that is not wanted, so that the other changes the picture
    /// even where it is the configured one.
    First,
    /// Waits, and applies the theme that is wanted.
    Second,
    /// Writes the visible theme to the configuration, and then does so once more.
    Pin,
    /// Writes the visible theme to the configuration.
    Persist { reached: bool },
    /// Ends; the wanted theme is shown where `reached` holds.
    Done { reached: bool },
}

/// What a toggle does after a step that succeeded or failed.
///
/// A first application that fails ends it. Whenever the transparent theme was the
/// last one that was applied, the configuration names it, so the visible one is
/// written there: after the wanted theme was applied where that is the transparent
/// one, and after it was not where it is the visible one. The visible theme is
/// written as well once it is shown again, twice where both themes have one name.
/// Whether a write succeeds changes nothing.
pub open spec fn step_after(
    target: ThemeState,
    one_name: bool,
    step: ToggleStep,
    ok: bool,
) -> ToggleStep {
    match step {
        ToggleStep::First => if ok {
            ToggleStep::Second
        } else {
            ToggleStep::Done { reached: false }
        },
        ToggleStep::Second => match target {
            ThemeState::Transparent => if ok {
                ToggleStep::Persist { reached: true }
            } else {
                ToggleStep::Done { reached: false }
            },
            ThemeState::Visible => if ok && one_name {
                ToggleStep::Pin
            } else {
                ToggleStep::Persist { reached: ok }
            },
        },
        ToggleStep::Pin => ToggleStep::Persist { reached: true },
        ToggleStep::Persist { reached } => ToggleStep::Done { reached },
        ToggleStep::Done { reached } => ToggleStep::Done { reached },
    }
}

/// What a toggle to `target` does after a step, by whether that succeeded. `one_name`
/// is whether both themes have the same name.
pub fn next_step(target: ThemeState, one_name: bool, step: ToggleStep, ok: bool) -> (r: ToggleStep)
    ensures
        r == step_after(target, one_name, step, ok),
{
    match step {
        ToggleStep::First => if ok {
            ToggleStep::Second
        } else {
            ToggleStep::Done { reached: false }
        },
        ToggleStep::Second => match target {
            ThemeState::Transparent => if ok {
                ToggleStep::Persist { reached: true }
            } else {
                ToggleStep::Done { reached: false }
            },
            ThemeState::Visible => if ok && one_name {
                ToggleStep::Pin
            } else {
                ToggleStep::Persist { reached: ok }
            },
        },
        ToggleStep::Pin => ToggleStep::Persist { reached: true },
        ToggleStep::Persist { reached } => ToggleStep::Done { reached },
        ToggleStep::Done { reached } => ToggleStep::Done { reached },
    }
}

/// What the runner answered in a toggle. An answer counts only where its command was
/// carried out.
pub struct Answers {
    pub first: bool,
    pub second: bool,
    pub pinned: bool,
    pub persisted: bool,
}

impl Answers {
    /// The wanted theme was applied.
    pub open spec fn reached(self) -> bool {
        self.first && self.second
    }

    /// The visible theme is written to the configuration once more than otherwise.
    pub open spec fn pins(self, target: ThemeState, one_name: bool) -> bool {
        self.reached() && target == ThemeState::Visible && one_name
    }

    /// The visible theme is written to the configuration.
    pub open spec fn persists(self, target: ThemeState) -> bool {
        self.first && (self.second || target == ThemeState::Visible)
    }
}

/// The commands of a toggle, in order, with the answers to them: the unwanted theme
/// is applied, then, after a pause, the wanted one, and the visible one is written to
/// the configuration.
pub open spec fn toggle_calls(
    target: ThemeState,
    visible: Seq<char>,
    transparent: Seq<char>,
    a: Answers,
) -> Seq<ThemeCall> {
    let (from, to) = match target {
        ThemeState::Transparent => (visible, transparent),
        ThemeState::Visible => (transparent, visible),
    };
    if !a.first {
        seq![ThemeCall::Apply(from, false)]
    } else {
        let applied = seq![
            ThemeCall::Apply(from, true),
            ThemeCall::Settle,
            ThemeCall::Apply(to, a.second),
        ];
        let pinned = if a.pins(target, visible == transparent) {
            applied.push(ThemeCall::Persist(visible, a.pinned))
        } else {
            applied
        };
        if a.persists(target) {
            pinned.push(ThemeCall::Persist(visible, a.persisted))
        } else {
            pinned
        }
    }
}

/// The runner, asked to apply a theme of this name, may answer so.
pub open spec fn applies<R: CmdRunner>(runner: R, theme: Seq<char>, ok: bool) -> bool {
    exists|t: &str| t@ == theme && #[trigger] call_ensures(R::apply_theme, (&runner, t), ok)
}

/// The runner, asked to write a theme of this name, may answer so.
pub open spec fn persists<R: CmdRunner>(runner: R, theme: Seq<char>, ok: bool) -> bool {
    exists|t: &str| t@ == theme && #[trigger] call_ensures(R::persist_theme, (&runner, t), ok)
}

/// Manages the console cursor theme across remote sessions.
pub struct CursorThemeManager<R: CmdRunner> {
    state: ThemeState,
    themes: CursorThemes,
    runner: R,
    calls: Ghost<Seq<ThemeCall>>,
}

impl<R: CmdRunner> CursorThemeManager<R> {
    /// The theme the console shows.
    pub closed spec fn shows(self) -> ThemeState {
        self.state
    }

    /// Name of the visible theme.
    pub closed spec fn visible(self) -> Seq<char> {
        self.themes.visible@
    }

    /// Name of the transparent theme.
    pub closed spec fn transparent(self) -> Seq<char> {
        self.themes.transparent@
    }

    /// Who carries out the commands.
    pub closed spec fn runner(self) -> R {
        self.runner
    }

    /// Every command so far.
    pub closed spec fn history(self) -> Seq<ThemeCall> {
        self.calls@
    }

    /// Names and runner stay.
    pub open spec fn same_setup(self, before: Self) -> bool {
        &&& self.visible() == before.visible()
        &&& self.transparent() == before.transparent()
        &&& self.runner() == before.runner()
    }

    /// These are answers of the runner to the commands of a toggle.
    pub open spec fn answered(self, target: ThemeState, a: Answers) -> bool {
        let (from, to) = match target {
            ThemeState::Transparent => (self.visible(), self.transparent()),
            ThemeState::Visible => (self.transparent(), self.visible()),
        };
        &&& applies(self.runner(), from, a.first)
        &&& a.first ==> call_ensures(R::settle, (&self.runner(),), ())
        &&& a.first ==> applies(self.runner(), to, a.second)
        &&& a.pins(target, self.visible() == self.transparent()) ==> persists(
            self.runner(),
            self.visible(),
            a.pinned,
        )
        &&& a.persists(target) ==> persists(self.runner(), self.visible(), a.persisted)
    }

    /// A toggle to `target`, with these answers of the runner, makes `self` to
    /// `after`. The console shows the target where both applications succeeded, and
    /// what it showed where not.
    pub open spec fn toggles(self, target: ThemeState, a: Answers, after: Self) -> bool {
        &&& after.same_setup(self)
        &&& self.answered(target, a)
        &&& after.history() == self.history() + toggle_calls(
            target,
            self.visible(),
            self.transparent(),
            a,
        )
        &&& after.shows() == (if a.reached() {
            target
        } else {
            self.shows()
        })
    }

    pub fn new(themes: CursorThemes, runner: R) -> (r: Self)
        ensures
            r.shows() == ThemeState::Visible,
            r.visible() == themes.visible@,
            r.transparent() == themes.transparent@,
            r.runner() == runner,
            r.history() == Seq::<ThemeCall>::empty(),
    {
        CursorThemeManager {
            state: ThemeState::Visible,
            themes,
            runner,
            calls: Ghost(Seq::empty()),
        }
    }

    pub fn state(&self) -> (r: ThemeState)
        ensures
            r == self.shows(),
    {
        self.state
    }

    fn apply(&mut self, theme: ThemeState) -> (ok: bool)
        ensures
            ({
                let name = match theme {
                    ThemeState::Visible => old(self).visible(),
                    ThemeState::Transparent => old(self).transparent(),
                };
                &&& applies(old(self).runner(), name, ok)
                &&& *final(self) == (CursorThemeManager {
                    calls: Ghost(old(self).calls@.push(ThemeCall::Apply(name, ok))),
                    ..*old(self)
                })
            }),
    {
        let name: &str = match theme {
            ThemeState::Visible => self.themes.visible.as_str(),
            ThemeState::Transparent => self.themes.transparent.as_str(),
        };
        let ok = self.runner.apply_theme(name);
        let ghost text = name@;
        self.calls = Ghost(self.calls@.push(ThemeCall::Apply(text, ok)));
        ok
    }

    fn settle(&mut self)
        ensures
            call_ensures(R::settle, (&old(self).runner(),), ()),
            *final(self) == (CursorThemeManager {
                calls: Ghost(old(self).calls@.push(ThemeCall::Settle)),
                ..*old(self)
            }),
    {
        self.runner.settle();
        self.calls = Ghost(self.calls@.push(ThemeCall::Settle));
    }

    fn persist_visible(&mut self) -> (ok: bool)
        ensures
            persists(old(self).runner(), old(self).visible(), ok),
            *final(self) == (CursorThemeManager {
                calls: Ghost(old(self).calls@.push(ThemeCall::Persist(old(self).visible(), ok))),
                ..*old(self)
            }),
    {
        let ok = self.runner.persist_theme(self.themes.visible.as_str());
        self.calls = Ghost(self.calls@.push(ThemeCall::Persist(self.themes.visible@, ok)));
        ok
    }

    /// Brings `target` to the console.
    fn apply_toggle(&mut self, target: ThemeState)
        ensures
            exists|a: Answers| #[trigger] old(self).toggles(target, a, *final(self)),
    {
        let ghost start = *self;
        let one_name = same_text(self.themes.visible.as_str(), self.themes.transparent.as_str());
        let other = match target {
            ThemeState::Visible => ThemeState::Transparent,
            ThemeState::Transparent => ThemeState::Visible,
        };
        let mut second = false;
        let mut pinned = false;
        let mut persisted = false;
        let first = self.apply(other);
        let mut step = next_step(target, one_name, ToggleStep::First, first);
        if step == ToggleStep::Second {
            self.settle();
            second = self.apply(target);
            step = next_step(target, one_name, step, second);
        }
        if step == ToggleStep::Pin {
            pinned = self.persist_visible();
            step = next_step(target, one_name, step, pinned);
        }
        match step {
            ToggleStep::Persist { .. } => {
                persisted = self.persist_visible();
                step = next_step(target, one_name, step, persisted);
            },
            _ => {},
        }
        if step == (ToggleStep::Done { reached: true }) {
            self.state = target;
        }
        proof {
            let a = Answers { first, second, pinned, persisted };
            let calls = toggle_calls(target, start.visible(), start.transparent(), a);
            assert(self.history() =~= start.history() + calls);
            assert(start.toggles(target, a, *self));
        }
    }

    /// A client is there: the console cursor becomes transparent. Does nothing
    /// where it is; a toggle that fails leaves it visible.
    pub fn begin_rdp_session(&mut self)
        ensures
            old(self).shows() == ThemeState::Transparent ==> *final(self) == *old(self),
            old(self).shows() == ThemeState::Visible ==> exists|a: Answers| #[trigger]
                old(self).toggles(ThemeState::Transparent, a, *final(self)),
    {
        match self.state {
            ThemeState::Transparent => {},
            ThemeState::Visible => {
                self.apply_toggle(ThemeState::Transparent);
            },
        }
    }

    /// The client left: the visible theme comes back. Does nothing where it is; a
    /// toggle that fails leaves it transparent, so that a later call tries again.
    pub fn end_rdp_session(&mut self)
        ensures
            old(self).shows() == ThemeState::Visible ==> *final(self) == *old(self),
            old(self).shows() == ThemeState::Transparent ==> exists|a: Answers| #[trigger]
                old(self).toggles(ThemeState::Visible, a, *final(self)),
    {
        match self.state {
            ThemeState::Visible => {},
            ThemeState::Transparent => {
                self.apply_toggle(ThemeState::Visible);
            },
        }
    }

    /// Brings the visible theme back, whatever the console is thought to show.
    pub fn restore_visible(&mut self)
        ensures
            exists|a: Answers| #[trigger]
                old(self).toggles(ThemeState::Visible, a, *final(self)),
    {
        self.apply_toggle(ThemeState::Visible);
    }
}

/// The theme that the configuration names after these commands. Applying a theme
/// writes it there too.
pub open spec fn configured_theme(initial: Seq<char>, calls: Seq<ThemeCall>) -> Seq<char>
    decreases calls.len(),
{
    if calls.len() == 0 {
        initial
    } else {
        match calls.last() {
            ThemeCall::Apply(theme, true) => theme,
            ThemeCall::Persist(theme, true) => theme,
            _ => configured_theme(initial, calls.drop_last()),
        }
    }
}

proof fn lemma_configured_push(initial: Seq<char>, calls: Seq<ThemeCall>, call: ThemeCall)
    ensures
        configured_theme(initial, calls.push(call)) == (match call {
            ThemeCall::Apply(theme, true) => theme,
            ThemeCall::Persist(theme, true) => theme,
            _ => configured_theme(initial, calls),
        }),
{
    assert(calls.push(call).drop_last() =~= calls);
}

/// A machine that restarts has a cursor: where the configuration named the visible
/// theme before a toggle, to either theme and however far it came, it names it
/// afterwards, unless the runner failed to write it. That failure alone, of the write
/// that follows an application of the transparent theme, leaves it naming the other.
pub proof fn law_configuration_stays_visible(
    initial: Seq<char>,
    before: Seq<ThemeCall>,
    target: ThemeState,
    visible: Seq<char>,
    transparent: Seq<char>,
    a: Answers,
)
    requires
        configured_theme(initial, before) == visible,
    ensures
        ({
            let after = before + toggle_calls(target, visible, transparent, a);
            let lost = a.first && a.second == (target == ThemeState::Transparent) && !a.persisted;
            configured_theme(initial, after) == (if lost {
                transparent
            } else {
                visible
            })
        }),
{
    let (from, to) = match target {
        ThemeState::Transparent => (visible, transparent),
        ThemeState::Visible => (transparent, visible),
    };
    let after = before + toggle_calls(target, visible, transparent, a);
    let one = before.push(ThemeCall::Apply(from, a.first));
    lemma_configured_push(initial, before, ThemeCall::Apply(from, a.first));
    if !a.first {
        assert(after =~= one);
    } else {
        let two = one.push(ThemeCall::Settle);
        let three = two.push(ThemeCall::Apply(to, a.second));
        lemma_configured_push(initial, one, ThemeCall::Settle);
        lemma_configured_push(initial, two, ThemeCall::Apply(to, a.second));
        let four = if a.pins(target, visible == transparent) {
            three.push(ThemeCall::Persist(visible, a.pinned))
        } else {
            three
        };
        lemma_configured_push(initial, three, ThemeCall::Persist(visible, a.pinned));
        let five = if a.persists(target) {
            four.push(ThemeCall::Persist(visible, a.persisted))
        } else {
            four
        };
        lemma_configured_push(initial, four, ThemeCall::Persist(visible, a.persisted));
        assert(after =~= five);
    }
}

/// A runner that succeeds at everything: a client that comes makes the cursor
/// transparent, and one that leaves brings it back.
pub proof fn law_success_changes_theme<R: CmdRunner>(
    before: CursorThemeManager<R>,
    target: ThemeState,
    a: Answers,
    after: CursorThemeManager<R>,
)
    requires
        forall|theme: Seq<char>, ok: bool| #[trigger] applies(before.runner(), theme, ok) ==> ok,
        before.toggles(target, a, after),
    ensures
        after.shows() == target,
        a.first && a.second,
{
}

/// A runner that fails at everything: the console shows what it showed, and one
/// application was tried and nothing written.
pub proof fn law_failure_changes_nothing<R: CmdRunner>(
    before: CursorThemeManager<R>,
    target: ThemeState,
    a: Answers,
    after: CursorThemeManager<R>,
)
    requires
        forall|theme: Seq<char>, ok: bool| #[trigger] applies(before.runner(), theme, ok) ==> !ok,
        before.toggles(target, a, after),
    ensures
        after.shows() == before.shows(),
        after.history() == before.history().push(
            ThemeCall::Apply(
                match target {
                    ThemeState::Transparent => before.visible(),
                    ThemeState::Visible => before.transparent(),
                },
                false,
            ),
        ),
{
}

/// Makes the manager, where it is switched on, there is a session to address, and
/// the command that applies themes is installed.
pub fn build_cursor_theme_manager<R: CmdRunner>(
    enabled: bool,
    runner: Option<R>,
    tool_installed: bool,
    themes: CursorThemes,
) -> (r: Option<CursorThemeManager<R>>)
    ensures
        r is Some <==> enabled && runner is Some && tool_installed,
        r is Some ==> r->0.shows() == ThemeState::Visible && r->0.visible() == themes.visible@
            && r->0.transparent() == themes.transparent@ && r->0.runner() == runner->0
            && r->0.history() == Seq::<ThemeCall>::empty(),
{
    if !enabled {
        return None;
    }
    match runner {
        None => None,
        Some(runner) => {
            if tool_installed {
                Some(CursorThemeManager::new(themes, runner))
            } else {
                None
            }
        },
    }
}

/// A toggle applies the theme that is not wanted before the one that is, with a pause
/// between them, and nothing after a first application that fails.
pub proof fn law_wanted_theme_comes_second(
    target: ThemeState,
    visible: Seq<char>,
    transparent: Seq<char>,
    a: Answers,
)
    ensures
        ({
            let calls = toggle_calls(target, visible, transparent, a);
            let wanted = if target == ThemeState::Visible {
                visible
            } else {
                transparent
            };
            let other = if target == ThemeState::Visible {
                transparent
            } else {
                visible
            };
            &&& calls[0] == ThemeCall::Apply(other, a.first)
            &&& !a.first ==> calls.len() == 1
            &&& a.first ==> calls[1] == ThemeCall::Settle && calls[2] == ThemeCall::Apply(
                wanted,
                a.second,
            )
        }),
{
}

/// Only the visible theme is ever written by itself: last of all, wherever the transparent
/// one was the last to be applied or the visible one is back, and twice where both have
/// one name.
pub proof fn law_visible_theme_is_written(
    target: ThemeState,
    visible: Seq<char>,
    transparent: Seq<char>,
    a: Answers,
)
    requires
        a.first,
    ensures
        ({
            let calls = toggle_calls(target, visible, transparent, a);
            let twice = target == ThemeState::Visible && a.second && visible == transparent;
            let none = target == ThemeState::Transparent && !a.second;
            &&& none ==> calls.len() == 3
            &&& !none ==> calls.last() == ThemeCall::Persist(visible, a.persisted)
            &&& !none && !twice ==> calls.len() == 4
            &&& twice ==> calls.len() == 5 && calls[3] == ThemeCall::Persist(visible, a.pinned)
        }),
{
}

/// The console shows what a toggle was for exactly where both applications succeeded, and
/// what it showed before where one did not.
pub proof fn law_toggle_shows_target<R: CmdRunner>(
    before: CursorThemeManager<R>,
    target: ThemeState,
    a: Answers,
    after: CursorThemeManager<R>,
)
    requires
        before.toggles(target, a, after),
    ensures
        a.first && a.second ==> after.shows() == target,
        !(a.first && a.second) ==> after.shows() == before.shows(),
        after.visible() == before.visible() && after.transparent() == before.transparent(),
        after.history().take(before.history().len() as int) == before.history(),
{
    assert(after.history().take(before.history().len() as int) =~= before.history());
}

/// The configuration names the last theme that was applied or written with success.
pub proof fn law_last_write_counts(
    initial: Seq<char>,
    calls: Seq<ThemeCall>,
    theme: Seq<char>,
)
    ensures
        configured_theme(initial, Seq::<ThemeCall>::empty()) == initial,
        configured_theme(initial, calls.push(ThemeCall::Apply(theme, true))) == theme,
        configured_theme(initial, calls.push(ThemeCall::Persist(theme, true))) == theme,
        configured_theme(initial, calls.push(ThemeCall::Apply(theme, false))) == configured_theme(
            initial,
            calls,
        ),
        configured_theme(initial, calls.push(ThemeCall::Persist(theme, false)))
            == configured_theme(initial, calls),
        configured_theme(initial, calls.push(ThemeCall::Settle)) == configured_theme(
            initial,
            calls,
        ),
{
    lemma_configured_push(initial, calls, ThemeCall::Apply(theme, true));
    lemma_configured_push(initial, calls, ThemeCall::Persist(theme, true));
    lemma_configured_push(initial, calls, ThemeCall::Apply(theme, false));
    lemma_configured_push(initial, calls, ThemeCall::Persist(theme, false));
    lemma_configured_push(initial, calls, ThemeCall::Settle);
}

} // verus!
