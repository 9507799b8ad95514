use gamebench_fyrox::game::{
    click_action, key_action, Action, Game, Key, MenuButton, Mode, DEFAULT_TARGET, MAX_TARGET,
    TARGET_STEP,
};

fn benchmark_game() -> Game {
    let mut g = Game::new();
    g.show_menu();
    assert_eq!(g.handle_key(Key::Enter), Action::StartBenchmark);
    g
}

#[test]
fn new_game_has_no_mode_and_no_target() {
    let g = Game::new();
    assert_eq!(g.mode(), None);
    assert_eq!(g.target_count(), 0);
    assert!(!g.is_running());
    let d = Game::default();
    assert_eq!(d.mode(), None);
    assert_eq!(d.target_count(), 0);
}

#[test]
fn keys_do_nothing_before_the_menu() {
    let mut g = Game::new();
    for key in [Key::Enter, Key::KeyQ, Key::KeyA, Key::KeyZ, Key::KeyR, Key::Other] {
        assert_eq!(g.handle_key(key), Action::Ignore);
    }
    assert_eq!(g.mode(), None);
    assert_eq!(g.target_count(), 0);
}

#[test]
fn enter_starts_benchmark_at_default_target() {
    let g = benchmark_game();
    assert_eq!(g.mode(), Some(Mode::Benchmark));
    assert!(g.is_running());
    assert_eq!(g.target_count(), DEFAULT_TARGET);
    assert_eq!(DEFAULT_TARGET, 100);
}

#[test]
fn menu_ignores_benchmark_keys() {
    let mut g = Game::new();
    g.show_menu();
    for key in [Key::KeyA, Key::KeyZ, Key::KeyR, Key::Other] {
        assert_eq!(g.handle_key(key), Action::Ignore);
    }
    assert_eq!(g.mode(), Some(Mode::Menu));
    assert!(!g.is_running());
}

#[test]
fn q_quits_in_menu_and_benchmark() {
    let mut g = Game::new();
    g.show_menu();
    assert_eq!(g.handle_key(Key::KeyQ), Action::Quit);
    assert_eq!(g.mode(), Some(Mode::Menu));
    let mut b = benchmark_game();
    assert_eq!(b.handle_key(Key::KeyQ), Action::Quit);
    assert_eq!(b.mode(), Some(Mode::Benchmark));
}

#[test]
fn a_adds_and_z_removes_one_hundred() {
    let mut g = benchmark_game();
    assert_eq!(g.handle_key(Key::KeyA), Action::ChangeTarget(100));
    assert_eq!(g.target_count(), 200);
    assert_eq!(g.handle_key(Key::KeyA), Action::ChangeTarget(TARGET_STEP));
    assert_eq!(g.target_count(), 300);
    assert_eq!(g.handle_key(Key::KeyZ), Action::ChangeTarget(-100));
    assert_eq!(g.target_count(), 200);
}

#[test]
fn add_then_remove_restores_target() {
    let mut g = benchmark_game();
    g.handle_key(Key::KeyA);
    g.handle_key(Key::KeyZ);
    assert_eq!(g.target_count(), 100);
    g.handle_key(Key::KeyZ);
    g.handle_key(Key::KeyA);
    assert_eq!(g.target_count(), 100);
}

#[test]
fn z_stops_at_zero() {
    let mut g = benchmark_game();
    g.handle_key(Key::KeyZ);
    assert_eq!(g.target_count(), 0);
    assert_eq!(g.handle_key(Key::KeyZ), Action::ChangeTarget(-100));
    assert_eq!(g.target_count(), 0);
    g.handle_key(Key::KeyA);
    assert_eq!(g.target_count(), 100);
}

#[test]
fn a_stops_at_max_target() {
    let mut g = benchmark_game();
    for _ in 0..60 {
        g.handle_key(Key::KeyA);
    }
    assert_eq!(g.target_count(), MAX_TARGET);
    assert_eq!(MAX_TARGET, 5000);
}

#[test]
fn r_resets_to_default() {
    let mut g = benchmark_game();
    g.handle_key(Key::KeyA);
    g.handle_key(Key::KeyA);
    assert_eq!(g.handle_key(Key::KeyR), Action::Reset);
    assert_eq!(g.target_count(), 100);
    assert_eq!(g.handle_key(Key::KeyR), Action::Reset);
    assert_eq!(g.target_count(), 100);
    assert_eq!(g.mode(), Some(Mode::Benchmark));
}

#[test]
fn enter_ignored_during_benchmark() {
    let mut g = benchmark_game();
    g.handle_key(Key::KeyA);
    assert_eq!(g.handle_key(Key::Enter), Action::Ignore);
    assert_eq!(g.target_count(), 200);
}

#[test]
fn change_target_clamps() {
    let mut g = benchmark_game();
    g.change_target(250);
    assert_eq!(g.target_count(), 350);
    g.change_target(0);
    assert_eq!(g.target_count(), 350);
    g.change_target(-1000);
    assert_eq!(g.target_count(), 0);
    g.change_target(-5);
    assert_eq!(g.target_count(), 0);
    g.change_target(isize::MAX - 5000);
    assert_eq!(g.target_count(), 5000);
    g.change_target(isize::MIN);
    assert_eq!(g.target_count(), 0);
    g.change_target(4999);
    assert_eq!(g.target_count(), 4999);
}

#[test]
fn start_benchmark_resets_target_reset_keeps_mode() {
    let mut g = Game::new();
    g.show_menu();
    g.reset_benchmark();
    assert_eq!(g.mode(), Some(Mode::Menu));
    assert_eq!(g.target_count(), 100);
    g.change_target(700);
    g.start_benchmark();
    assert_eq!(g.mode(), Some(Mode::Benchmark));
    assert_eq!(g.target_count(), 100);
}

#[test]
fn clicks_count_only_with_menu_shown() {
    assert_eq!(click_action(true, MenuButton::Start), Action::StartBenchmark);
    assert_eq!(click_action(true, MenuButton::Quit), Action::Quit);
    assert_eq!(click_action(true, MenuButton::Other), Action::Ignore);
    assert_eq!(click_action(false, MenuButton::Start), Action::Ignore);
    assert_eq!(click_action(false, MenuButton::Quit), Action::Ignore);
}

#[test]
fn start_click_starts_benchmark() {
    let mut g = Game::new();
    g.show_menu();
    assert_eq!(g.handle_click(MenuButton::Start), Action::StartBenchmark);
    assert_eq!(g.mode(), Some(Mode::Benchmark));
    assert_eq!(g.target_count(), 100);
    assert_eq!(g.handle_click(MenuButton::Quit), Action::Ignore);
    assert_eq!(g.mode(), Some(Mode::Benchmark));
}

#[test]
fn clicks_ignored_outside_menu() {
    let mut g = Game::new();
    assert_eq!(g.handle_click(MenuButton::Start), Action::Ignore);
    assert_eq!(g.mode(), None);
    let mut b = benchmark_game();
    b.handle_key(Key::KeyA);
    assert_eq!(b.handle_click(MenuButton::Start), Action::Ignore);
    assert_eq!(b.target_count(), 200);
    assert_eq!(b.mode(), Some(Mode::Benchmark));
}

#[test]
fn quit_click_in_menu() {
    let mut g = Game::new();
    g.show_menu();
    assert_eq!(g.handle_click(MenuButton::Other), Action::Ignore);
    assert_eq!(g.handle_click(MenuButton::Quit), Action::Quit);
    assert_eq!(g.mode(), Some(Mode::Menu));
}

#[test]
fn screens_follow_mode() {
    let mut g = Game::new();
    assert!(!g.menu_shown() && !g.overlay_shown());
    g.show_menu();
    assert!(g.menu_shown() && !g.overlay_shown());
    g.handle_key(Key::Enter);
    assert!(!g.menu_shown() && g.overlay_shown());
    g.handle_key(Key::KeyR);
    g.handle_key(Key::KeyA);
    assert!(!g.menu_shown() && g.overlay_shown());
    g.show_menu();
    assert!(g.menu_shown() && !g.overlay_shown());
    assert_eq!(g.target_count(), 200);
}

#[test]
fn key_table() {
    assert_eq!(key_action(Some(Mode::Menu), Key::Enter), Action::StartBenchmark);
    assert_eq!(key_action(Some(Mode::Benchmark), Key::KeyR), Action::Reset);
    assert_eq!(key_action(Some(Mode::Benchmark), Key::Other), Action::Ignore);
    assert_eq!(key_action(None, Key::KeyQ), Action::Ignore);
}

#[test]
fn apply_carries_out_actions() {
    let mut g = Game::new();
    g.apply(Action::StartBenchmark);
    assert_eq!(g.mode(), Some(Mode::Benchmark));
    g.apply(Action::ChangeTarget(4999));
    assert_eq!(g.target_count(), 5000);
    g.apply(Action::Quit);
    g.apply(Action::Ignore);
    assert_eq!(g.target_count(), 5000);
    g.apply(Action::Reset);
    assert_eq!(g.target_count(), 100);
}
