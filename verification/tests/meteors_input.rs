use krill::meteors::input::{InputState, Key};

#[test]
fn arrows_set_their_control() {
    let mut input = InputState::default();
    input.on_key(Some(Key::Up), true);
    input.on_key(Some(Key::Left), true);
    assert!(input.up && input.left && !input.down && !input.right);
    input.on_key(Some(Key::Up), false);
    assert!(!input.up && input.left);
    input.on_key(None, true);
    assert!(!input.up && input.left && !input.shoot);
}

#[test]
fn one_press_gives_one_shot() {
    let mut input = InputState::default();
    assert!(!input.take_shot());
    input.on_key(Some(Key::Space), true);
    assert!(input.take_shot());
    assert!(!input.take_shot());
    input.on_key(Some(Key::Space), true);
    assert!(!input.take_shot());
    input.on_key(Some(Key::Space), false);
    assert!(!input.shoot && !input.has_shot);
    input.on_key(Some(Key::Space), true);
    assert!(input.take_shot());
}
