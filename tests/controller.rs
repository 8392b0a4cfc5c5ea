use genpass::controller::{classify, Action, App, CategoryCounts, Command, Key, KeyInput};
use genpass::strength::check_password_strength;
use rand::rngs::StdRng;
use rand::SeedableRng;

fn press(key: Key) -> KeyInput {
    KeyInput { key, control: false }
}

fn fresh() -> App {
    let mut rng = StdRng::seed_from_u64(21);
    App::new(&mut rng)
}

#[test]
fn new_session_has_defaults() {
    let app = fresh();
    assert_eq!(
        app.counts,
        CategoryCounts { letters: 6, uppercase: 2, symbols: 2, numbers: 4 }
    );
    assert_eq!(app.focus, 0);
    assert_eq!(app.password.len(), 14);
    assert_eq!(app.strength, check_password_strength(&app.password));
    assert!(app.status.is_empty());
    assert_eq!(app.status_until, None);
}

#[test]
fn focus_is_clamped_under_many_moves() {
    let mut app = fresh();
    for _ in 0..20 {
        assert_eq!(app.handle_key(press(Key::Down)), Action::Nothing);
        assert!(app.focus <= 6);
    }
    assert_eq!(app.focus, 6);
    for _ in 0..20 {
        app.handle_key(press(Key::Char('k')));
    }
    assert_eq!(app.focus, 0);
    app.handle_key(press(Key::Char('j')));
    app.handle_key(press(Key::Char('j')));
    assert_eq!(app.focus, 2);
    app.handle_key(press(Key::Up));
    assert_eq!(app.focus, 1);
}

#[test]
fn counts_are_clamped_under_many_steps() {
    let mut app = fresh();
    for _ in 0..100 {
        app.handle_key(press(Key::Right));
        assert!(app.counts.letters <= 64);
    }
    assert_eq!(app.counts.letters, 64);
    for _ in 0..100 {
        app.handle_key(press(Key::Char('-')));
        assert!(app.counts.letters >= 0);
    }
    assert_eq!(app.counts.letters, 0);
    assert_eq!(app.counts.uppercase, 2);
    assert_eq!(app.counts.symbols, 2);
    assert_eq!(app.counts.numbers, 4);
}

#[test]
fn each_field_focus_adjusts_its_own_count() {
    let mut app = fresh();
    app.handle_key(press(Key::Down));
    app.handle_key(press(Key::Char('+')));
    assert_eq!(app.counts.uppercase, 3);
    app.handle_key(press(Key::Down));
    app.handle_key(press(Key::Char('h')));
    assert_eq!(app.counts.symbols, 1);
    app.handle_key(press(Key::Down));
    app.handle_key(press(Key::Char('=')));
    app.handle_key(press(Key::Char('l')));
    assert_eq!(app.counts.numbers, 6);
    app.handle_key(press(Key::Down));
    app.handle_key(press(Key::Right));
    app.handle_key(press(Key::Left));
    assert_eq!(
        app.counts,
        CategoryCounts { letters: 6, uppercase: 3, symbols: 1, numbers: 6 }
    );
}

#[test]
fn update_value_clamps_large_deltas() {
    let mut app = fresh();
    app.update_value(i32::MAX);
    assert_eq!(app.counts.letters, 64);
    app.update_value(i32::MIN);
    assert_eq!(app.counts.letters, 0);
    app.focus = 5;
    app.update_value(3);
    assert_eq!(app.counts.letters, 0);
}

#[test]
fn clamp_value_bounds() {
    assert_eq!(App::clamp_value(-5), 0);
    assert_eq!(App::clamp_value(0), 0);
    assert_eq!(App::clamp_value(17), 17);
    assert_eq!(App::clamp_value(64), 64);
    assert_eq!(App::clamp_value(65), 64);
}

#[test]
fn confirm_depends_on_focus() {
    let mut app = fresh();
    assert_eq!(app.handle_key(press(Key::Enter)), Action::Regenerate);
    for _ in 0..4 {
        app.handle_key(press(Key::Down));
    }
    assert_eq!(app.handle_key(press(Key::Char('g'))), Action::Regenerate);
    app.handle_key(press(Key::Down));
    assert_eq!(app.handle_key(press(Key::Enter)), Action::Copy);
    app.handle_key(press(Key::Down));
    assert_eq!(app.handle_key(press(Key::Enter)), Action::Quit);
}

#[test]
fn global_keys_give_their_actions() {
    let mut app = fresh();
    assert_eq!(app.handle_key(press(Key::Char('q'))), Action::Quit);
    assert_eq!(app.handle_key(press(Key::Esc)), Action::Quit);
    assert_eq!(app.handle_key(press(Key::Char('c'))), Action::Copy);
    assert_eq!(app.handle_key(press(Key::Char('C'))), Action::Copy);
    assert_eq!(app.handle_key(KeyInput { key: Key::Char('r'), control: true }), Action::Regenerate);
    assert_eq!(app.handle_key(press(Key::Char('r'))), Action::Nothing);
    assert_eq!(app.handle_key(press(Key::Char('x'))), Action::Nothing);
    assert_eq!(app.handle_key(press(Key::Other)), Action::Nothing);
    assert_eq!(app.focus, 0);
    assert_eq!(
        app.counts,
        CategoryCounts { letters: 6, uppercase: 2, symbols: 2, numbers: 4 }
    );
}

#[test]
fn classify_decodes_keys() {
    assert_eq!(classify(press(Key::Char('k'))), Command::Up);
    assert_eq!(classify(press(Key::Char('j'))), Command::Down);
    assert_eq!(classify(press(Key::Left)), Command::Decrease);
    assert_eq!(classify(press(Key::Char('l'))), Command::Increase);
    assert_eq!(classify(KeyInput { key: Key::Char('q'), control: true }), Command::Quit);
}

#[test]
fn regenerate_follows_counts() {
    let mut rng = StdRng::seed_from_u64(4);
    let mut app = App::new(&mut rng);
    app.handle_key(press(Key::Right));
    app.handle_key(press(Key::Right));
    app.generate_password(&mut rng);
    assert_eq!(app.password.len(), 16);
    assert_eq!(app.password.chars().filter(|c| c.is_ascii_lowercase()).count(), 8);
    assert_eq!(app.strength, check_password_strength(&app.password));
}

#[test]
fn status_clears_exactly_at_expiry() {
    let mut app = fresh();
    app.record_copy_result(true, 1000);
    assert_eq!(app.status, "Copied to clipboard.");
    assert_eq!(app.status_until, Some(3000));
    app.clear_status_if_expired(1500);
    assert_eq!(app.status, "Copied to clipboard.");
    app.clear_status_if_expired(2999);
    assert_eq!(app.status_until, Some(3000));
    app.clear_status_if_expired(3000);
    assert!(app.status.is_empty());
    assert_eq!(app.status_until, None);
    app.clear_status_if_expired(5000);
    assert!(app.status.is_empty());
}

#[test]
fn failed_copy_sets_unavailable_status() {
    let mut app = fresh();
    app.record_copy_result(false, 10);
    assert_eq!(app.status, "Clipboard unavailable.");
    assert_eq!(app.status_until, Some(2010));
    app.record_copy_result(true, 2000);
    assert_eq!(app.status, "Copied to clipboard.");
    assert_eq!(app.status_until, Some(4000));
}

#[test]
fn status_expiry_saturates_at_clock_end() {
    let mut app = fresh();
    app.record_copy_result(true, u64::MAX - 5);
    assert_eq!(app.status_until, Some(u64::MAX));
}
