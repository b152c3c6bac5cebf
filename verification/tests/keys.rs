use lightgrid::direction::Direction;
use lightgrid::keys::{HeldKeys, Input, Key};

#[test]
fn no_keys_no_inputs() {
    let mut keys = HeldKeys::new();
    assert_eq!(keys.inputs(), vec![]);
}

#[test]
fn newest_key_speaks_first() {
    let mut keys = HeldKeys::new();
    keys.hold(Key::W);
    keys.hold(Key::D);
    keys.hold(Key::H);
    assert_eq!(
        keys.inputs(),
        vec![Input::Help, Input::Navigate(Direction::East), Input::Navigate(Direction::North)]
    );
    // held keys go on speaking
    assert_eq!(
        keys.inputs(),
        vec![Input::Help, Input::Navigate(Direction::East), Input::Navigate(Direction::North)]
    );
}

#[test]
fn every_key_has_its_command() {
    let table = [
        (Key::W, Input::Navigate(Direction::North)),
        (Key::Up, Input::Navigate(Direction::North)),
        (Key::A, Input::Navigate(Direction::West)),
        (Key::Left, Input::Navigate(Direction::West)),
        (Key::S, Input::Navigate(Direction::South)),
        (Key::Down, Input::Navigate(Direction::South)),
        (Key::D, Input::Navigate(Direction::East)),
        (Key::Right, Input::Navigate(Direction::East)),
        (Key::Space, Input::Accept),
        (Key::Return, Input::Accept),
        (Key::Z, Input::Accept),
        (Key::Backspace, Input::Reject),
        (Key::H, Input::Help),
    ];
    for (key, input) in table {
        let mut keys = HeldKeys::new();
        keys.hold(key);
        assert_eq!(keys.inputs(), vec![input]);
    }
}

#[test]
fn two_keys_for_one_command_give_it_once() {
    let mut keys = HeldKeys::new();
    keys.hold(Key::W);
    keys.hold(Key::Left);
    keys.hold(Key::Up);
    assert_eq!(keys.inputs(), vec![Input::Navigate(Direction::North), Input::Navigate(Direction::West)]);
}

#[test]
fn taps_are_heard_once() {
    let mut keys = HeldKeys::new();
    keys.hold(Key::Space);
    keys.hold(Key::S);
    keys.hold(Key::Backspace);
    keys.hold(Key::Return);
    assert_eq!(
        keys.inputs(),
        vec![Input::Accept, Input::Reject, Input::Navigate(Direction::South)]
    );
    assert_eq!(keys.inputs(), vec![Input::Navigate(Direction::South)]);
    // a new press is a new tap
    keys.hold(Key::Space);
    assert_eq!(keys.inputs(), vec![Input::Accept, Input::Navigate(Direction::South)]);
}

#[test]
fn holding_twice_keeps_the_first_place() {
    let mut keys = HeldKeys::new();
    keys.hold(Key::A);
    keys.hold(Key::S);
    keys.hold(Key::A);
    assert_eq!(keys.inputs(), vec![Input::Navigate(Direction::South), Input::Navigate(Direction::West)]);
}

#[test]
fn released_keys_are_silent() {
    let mut keys = HeldKeys::new();
    keys.hold(Key::A);
    keys.hold(Key::S);
    keys.hold(Key::D);
    keys.release(Key::S);
    assert_eq!(keys.inputs(), vec![Input::Navigate(Direction::East), Input::Navigate(Direction::West)]);
    keys.release(Key::S);
    keys.release(Key::A);
    keys.release(Key::D);
    assert_eq!(keys.inputs(), vec![]);
}
