//! The benchmark's mode machine and its target object count.

use vstd::prelude::*;

verus! {

/// Target object count when a benchmark starts or is reset.
pub const DEFAULT_TARGET: usize = 100;

/// Largest target object count.
pub const MAX_TARGET: usize = 5000;

/// Amount by which one key press raises or lowers the target.
pub const TARGET_STEP: isize = 100;

/// What the game is showing.
#[derive(Debug, Clone, Copy, PartialEq, Eq, Structural)]
pub enum Mode {
    Menu,
    Benchmark,
}

/// The physical keys that the game reacts to; every other key is `Other`.
#[derive(Debug, Clone, Copy, PartialEq, Eq, Structural)]
pub enum Key {
    Enter,
    KeyQ,
    KeyA,
    KeyZ,
    KeyR,
    Other,
}

/// The menu widget that a click landed on.
#[derive(Debug, Clone, Copy, PartialEq, Eq, Structural)]
pub enum MenuButton {
    Start,
    Quit,
    Other,
}

/// What an input asks the game to do.
#[derive(Debug, Clone, Copy, PartialEq, Eq, Structural)]
pub enum Action {
    /// Nothing happens.
    Ignore,
    /// Leave the menu and start a fresh benchmark.
    StartBenchmark,
    /// Exit the program.
    Quit,
    /// Move the target object count by the given amount (clamped).
    ChangeTarget(isize),
    /// Remove every object and go back to the default target.
    Reset,
}

/// The action that a pressed key asks for in the given mode.
pub open spec fn key_action_spec(mode: Option<Mode>, key: Key) -> Action {
    match (mode, key) {
        (Some(Mode::Menu), Key::Enter) => Action::StartBenchmark,
        (Some(Mode::Menu), Key::KeyQ) => Action::Quit,
        (Some(Mode::Benchmark), Key::KeyQ) => Action::Quit,
        (Some(Mode::Benchmark), Key::KeyA) => Action::ChangeTarget(TARGET_STEP),
        (Some(Mode::Benchmark), Key::KeyZ) => Action::ChangeTarget((-TARGET_STEP) as isize),
        (Some(Mode::Benchmark), Key::KeyR) => Action::Reset,
        _ => Action::Ignore,
    }
}

/// The action that a click on a menu button asks for; clicks count only while
/// the menu is on screen.
pub open spec fn click_action_spec(menu_shown: bool, button: MenuButton) -> Action {
    if !menu_shown {
        Action::Ignore
    } else {
        match button {
            MenuButton::Start => Action::StartBenchmark,
            MenuButton::Quit => Action::Quit,
            MenuButton::Other => Action::Ignore,
        }
    }
}

/// `x` clamped into `[lo, hi]`.
pub open spec fn clamp(x: int, lo: int, hi: int) -> int {
    if x < lo {
        lo
    } else if x > hi {
        hi
    } else {
        x
    }
}

/// The abstract state of the game: its mode, its target object count, and
/// which of the two screens (the menu, the benchmark overlay) is shown.
pub struct GameView {
    pub mode: Option<Mode>,
    pub target: int,
    pub menu_shown: bool,
    pub overlay_shown: bool,
}

/// The screens on display match the mode: the menu exactly in menu mode,
/// the benchmark overlay exactly in benchmark mode, nothing before the game
/// is shown.
pub open spec fn ui_matches_mode(g: GameView) -> bool {
    match g.mode {
        Some(Mode::Menu) => g.menu_shown && !g.overlay_shown,
        Some(Mode::Benchmark) => !g.menu_shown && g.overlay_shown,
        None => !g.menu_shown && !g.overlay_shown,
    }
}

/// The target after a change by `delta`.
pub open spec fn changed_target(target: int, delta: int) -> int {
    clamp(target + delta, 0, MAX_TARGET as int)
}

/// The state after the game has carried out `action`.
pub open spec fn apply_action(g: GameView, action: Action) -> GameView {
    match action {
        Action::StartBenchmark => GameView {
            mode: Some(Mode::Benchmark),
            target: DEFAULT_TARGET as int,
            menu_shown: false,
            overlay_shown: true,
        },
        Action::ChangeTarget(delta) => GameView {
            mode: g.mode,
            target: changed_target(g.target, delta as int),
            menu_shown: g.menu_shown,
            overlay_shown: g.overlay_shown,
        },
        Action::Reset => GameView {
            mode: g.mode,
            target: DEFAULT_TARGET as int,
            menu_shown: g.menu_shown,
            overlay_shown: g.overlay_shown,
        },
        Action::Ignore => g,
        Action::Quit => g,
    }
}

/// Whether `action` can be carried out on `g` without overflowing the
/// target arithmetic.
pub open spec fn action_fits(g: GameView, action: Action) -> bool {
    match action {
        Action::ChangeTarget(delta) => g.target + delta <= isize::MAX,
        _ => true,
    }
}

/// Every action keeps the target object count within `[0, MAX_TARGET]`.
pub proof fn lemma_actions_keep_target_in_range(g: GameView, action: Action)
    requires
        0 <= g.target <= MAX_TARGET,
    ensures
        0 <= apply_action(g, action).target <= MAX_TARGET,
{
}

/// Every action keeps the screens on display matching the mode.
pub proof fn lemma_actions_keep_ui_matching_mode(g: GameView, action: Action)
    requires
        ui_matches_mode(g),
    ensures
        ui_matches_mode(apply_action(g, action)),
{
}

/// A click on a menu button does something only in menu mode, where the
/// menu is on display; in any other mode it changes nothing.
pub proof fn lemma_clicks_act_only_in_menu(g: GameView, button: MenuButton)
    requires
        ui_matches_mode(g),
    ensures
        click_action_spec(g.menu_shown, button) != Action::Ignore ==> g.mode == Some(Mode::Menu),
        g.mode != Some(Mode::Menu) ==> apply_action(g, click_action_spec(g.menu_shown, button))
            == g,
{
}

/// Raising the target by one step and lowering it again gives back the
/// state, as long as the raise did not hit `MAX_TARGET`.
pub proof fn lemma_add_then_remove_restores(g: GameView)
    requires
        0 <= g.target,
        g.target + TARGET_STEP <= MAX_TARGET,
    ensures
        apply_action(
            apply_action(g, Action::ChangeTarget(TARGET_STEP)),
            Action::ChangeTarget((-TARGET_STEP) as isize),
        ) == g,
{
}

/// Lowering the target by one step and raising it again gives back the
/// state, as long as the lowering did not hit 0.
pub proof fn lemma_remove_then_add_restores(g: GameView)
    requires
        TARGET_STEP <= g.target <= MAX_TARGET,
    ensures
        apply_action(
            apply_action(g, Action::ChangeTarget((-TARGET_STEP) as isize)),
            Action::ChangeTarget(TARGET_STEP),
        ) == g,
{
}

/// Resetting twice is the same as resetting once, and either way the target
/// is the default.
pub proof fn lemma_reset_idempotent(g: GameView)
    ensures
        apply_action(apply_action(g, Action::Reset), Action::Reset) == apply_action(
            g,
            Action::Reset,
        ),
        apply_action(g, Action::Reset).target == DEFAULT_TARGET,
{
}

/// Once the game is shown, the Q key quits in every mode, and keys do
/// nothing before the game is shown.
pub proof fn lemma_quit_key(mode: Option<Mode>, key: Key)
    ensures
        mode is Some ==> key_action_spec(mode, Key::KeyQ) == Action::Quit,
        mode is None ==> key_action_spec(mode, key) == Action::Ignore,
{
}

/// Keys change the mode only by starting the benchmark, and only from the
/// menu with Enter.
pub proof fn lemma_mode_changes_only_by_start(g: GameView, key: Key)
    ensures
        apply_action(g, key_action_spec(g.mode, key)).mode != g.mode ==> (g.mode == Some(
            Mode::Menu,
        ) && key == Key::Enter),
{
}

/// The action that a pressed key asks for in the given mode.
pub fn key_action(mode: Option<Mode>, key: Key) -> (action: Action)
    ensures
        action == key_action_spec(mode, key),
{
    match (mode, key) {
        (Some(Mode::Menu), Key::Enter) => Action::StartBenchmark,
        (Some(Mode::Menu), Key::KeyQ) => Action::Quit,
        (Some(Mode::Benchmark), Key::KeyQ) => Action::Quit,
        (Some(Mode::Benchmark), Key::KeyA) => Action::ChangeTarget(TARGET_STEP),
        (Some(Mode::Benchmark), Key::KeyZ) => Action::ChangeTarget(-TARGET_STEP),
        (Some(Mode::Benchmark), Key::KeyR) => Action::Reset,
        _ => Action::Ignore,
    }
}

/// The action that a click on a menu button asks for.
pub fn click_action(menu_shown: bool, button: MenuButton) -> (action: Action)
    ensures
        action == click_action_spec(menu_shown, button),
{
    if !menu_shown {
        Action::Ignore
    } else {
        match button {
            MenuButton::Start => Action::StartBenchmark,
            MenuButton::Quit => Action::Quit,
            MenuButton::Other => Action::Ignore,
        }
    }
}

/// The game's mode, target object count and screens on display.
#[derive(Debug)]
pub struct Game {
    mode: Option<Mode>,
    target_count: usize,
    menu_shown: bool,
    overlay_shown: bool,
}

impl View for Game {
    type V = GameView;

    closed spec fn view(&self) -> GameView {
        GameView {
            mode: self.mode,
            target: self.target_count as int,
            menu_shown: self.menu_shown,
            overlay_shown: self.overlay_shown,
        }
    }
}

impl Game {
    #[verifier::type_invariant]
    spec fn consistent(self) -> bool {
        &&& self.target_count <= MAX_TARGET
        &&& ui_matches_mode(self@)
    }

    /// A game that has not been shown yet: no mode, target 0, no screen.
    pub fn new() -> (g: Game)
        ensures
            g@ == (GameView { mode: None, target: 0, menu_shown: false, overlay_shown: false }),
    {
        Game { mode: None, target_count: 0, menu_shown: false, overlay_shown: false }
    }

    /// The current mode.
    pub fn mode(&self) -> (m: Option<Mode>)
        ensures
            m == self@.mode,
    {
        self.mode
    }

    /// The current target object count.
    pub fn target_count(&self) -> (t: usize)
        ensures
            t == self@.target,
            t <= MAX_TARGET,
    {
        proof {
            use_type_invariant(self);
        }
        self.target_count
    }

    /// Whether the menu is on display.
    pub fn menu_shown(&self) -> (b: bool)
        ensures
            b == self@.menu_shown,
            b == (self@.mode == Some(Mode::Menu)),
    {
        proof {
            use_type_invariant(self);
        }
        self.menu_shown
    }

    /// Whether the benchmark overlay is on display.
    pub fn overlay_shown(&self) -> (b: bool)
        ensures
            b == self@.overlay_shown,
            b == (self@.mode == Some(Mode::Benchmark)),
    {
        proof {
            use_type_invariant(self);
        }
        self.overlay_shown
    }

    /// Whether the benchmark is running, so that the objects move each frame.
    pub fn is_running(&self) -> (b: bool)
        ensures
            b == (self@.mode == Some(Mode::Benchmark)),
    {
        match self.mode {
            Some(Mode::Benchmark) => true,
            _ => false,
        }
    }

    /// Enters the main menu: the overlay goes, the menu comes; the target is
    /// kept.
    pub fn show_menu(&mut self)
        ensures
            final(self)@ == (GameView {
                mode: Some(Mode::Menu),
                target: old(self)@.target,
                menu_shown: true,
                overlay_shown: false,
            }),
            0 <= final(self)@.target <= MAX_TARGET,
            ui_matches_mode(final(self)@),
    {
        proof {
            use_type_invariant(&*self);
        }
        *self = Game {
            mode: Some(Mode::Menu),
            target_count: self.target_count,
            menu_shown: true,
            overlay_shown: false,
        };
    }

    /// Starts a fresh benchmark at the default target: the menu goes, the
    /// overlay comes.
    pub fn start_benchmark(&mut self)
        ensures
            final(self)@ == (GameView {
                mode: Some(Mode::Benchmark),
                target: DEFAULT_TARGET as int,
                menu_shown: false,
                overlay_shown: true,
            }),
            0 <= final(self)@.target <= MAX_TARGET,
            ui_matches_mode(final(self)@),
    {
        *self = Game {
            mode: Some(Mode::Benchmark),
            target_count: DEFAULT_TARGET,
            menu_shown: false,
            overlay_shown: true,
        };
    }

    /// Goes back to the default target; mode and screens are kept.
    pub fn reset_benchmark(&mut self)
        ensures
            final(self)@ == (GameView {
                mode: old(self)@.mode,
                target: DEFAULT_TARGET as int,
                menu_shown: old(self)@.menu_shown,
                overlay_shown: old(self)@.overlay_shown,
            }),
            0 <= final(self)@.target <= MAX_TARGET,
            ui_matches_mode(final(self)@),
    {
        proof {
            use_type_invariant(&*self);
        }
        self.target_count = DEFAULT_TARGET;
    }

    /// Moves the target by `delta`, clamped into `[0, MAX_TARGET]`.
    pub fn change_target(&mut self, delta: isize)
        requires
            old(self)@.target + delta <= isize::MAX,
        ensures
            final(self)@ == (GameView {
                mode: old(self)@.mode,
                target: changed_target(old(self)@.target, delta as int),
                menu_shown: old(self)@.menu_shown,
                overlay_shown: old(self)@.overlay_shown,
            }),
            0 <= final(self)@.target <= MAX_TARGET,
            ui_matches_mode(final(self)@),
    {
        proof {
            use_type_invariant(&*self);
        }
        let next: isize = self.target_count as isize + delta;
        let clamped: usize = if next < 0 {
            0
        } else if next > MAX_TARGET as isize {
            MAX_TARGET
        } else {
            next as usize
        };
        self.target_count = clamped;
    }

    /// Carries out the state part of `action`.
    pub fn apply(&mut self, action: Action)
        requires
            action_fits(old(self)@, action),
        ensures
            final(self)@ == apply_action(old(self)@, action),
            0 <= final(self)@.target <= MAX_TARGET,
            ui_matches_mode(final(self)@),
    {
        proof {
            use_type_invariant(&*self);
        }
        match action {
            Action::StartBenchmark => self.start_benchmark(),
            Action::ChangeTarget(delta) => self.change_target(delta),
            Action::Reset => self.reset_benchmark(),
            Action::Ignore => {},
            Action::Quit => {},
        }
        proof {
            use_type_invariant(&*self);
        }
    }

    /// Reacts to a pressed key: updates the state and returns the action, so
    /// that the caller can do the rest (user interface, objects, exit).
    pub fn handle_key(&mut self, key: Key) -> (action: Action)
        ensures
            action == key_action_spec(old(self)@.mode, key),
            final(self)@ == apply_action(old(self)@, action),
            0 <= final(self)@.target <= MAX_TARGET,
            ui_matches_mode(final(self)@),
    {
        proof {
            use_type_invariant(&*self);
        }
        let action = key_action(self.mode, key);
        self.apply(action);
        action
    }

    /// Reacts to a click on a menu button; clicks count only while the menu
    /// is on display, that is, in menu mode.
    pub fn handle_click(&mut self, button: MenuButton) -> (action: Action)
        ensures
            action == click_action_spec(old(self)@.menu_shown, button),
            final(self)@ == apply_action(old(self)@, action),
            old(self)@.mode != Some(Mode::Menu) ==> action == Action::Ignore && final(self)@ == old(
                self,
            )@,
            0 <= final(self)@.target <= MAX_TARGET,
            ui_matches_mode(final(self)@),
    {
        proof {
            use_type_invariant(&*self);
        }
        let action = click_action(self.menu_shown, button);
        self.apply(action);
        action
    }
}

impl Default for Game {
    fn default() -> (g: Game)
        ensures
            g@ == (GameView { mode: None, target: 0, menu_shown: false, overlay_shown: false }),
    {
        Game::new()
    }
}

} // verus!
