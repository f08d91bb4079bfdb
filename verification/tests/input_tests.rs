use rigorstarter_rust_tauri_webgpu::examples::keypress_demo::KeyPressDemo;
use rigorstarter_rust_tauri_webgpu::game::key_indicator::KeyIndicator;
use rigorstarter_rust_tauri_webgpu::stdlib::input::InputManager;

#[test]
fn presses_and_releases_are_seen_for_one_frame() {
    let mut input = InputManager::new();
    input.tick();
    input.update_key(7, true);
    assert!(input.is_down(7));
    assert!(input.was_pressed(7));
    assert!(!input.was_released(7));
    input.tick();
    assert!(input.is_down(7));
    assert!(!input.was_pressed(7));
    input.update_key(7, false);
    assert!(!input.is_down(7));
    assert!(input.was_released(7));
    input.tick();
    assert!(!input.was_released(7));
    assert!(input.keys().is_empty());
}

#[test]
fn keys_lists_the_held_keys() {
    let mut input = InputManager::new();
    input.update_key(1, true);
    input.update_key(2, true);
    input.update_key(1, true);
    assert_eq!(input.keys().len(), 2);
    input.update_key(3, false);
    assert_eq!(input.keys().len(), 2);
    input.tick();
    assert!(!input.was_pressed(2));
    assert!(input.is_down(2));
}

#[test]
fn indicator_shows_the_last_pressed_key() {
    let mut k: KeyIndicator<char> = KeyIndicator::new();
    assert_eq!(k.last_key, None);
    k.update('a', true);
    assert_eq!(k.last_key, Some('a'));
    k.update('b', true);
    assert_eq!(k.last_key, Some('b'));
    k.update('b', false);
    assert_eq!(k.last_key, None);
}

#[test]
fn history_keeps_the_last_ten_presses() {
    let mut d: KeyPressDemo<u32> = KeyPressDemo::new();
    for k in 0..12u32 {
        d.handle_key(k, true);
        d.handle_key(100 + k, false);
    }
    assert_eq!(d.history, vec![2, 3, 4, 5, 6, 7, 8, 9, 10, 11]);
}
