use hectic::components::Player;
use hectic::resources::ControlsState;
use hectic::resources::Item;
use hectic::resources::Key;
use hectic::resources::KeyState;
use hectic::resources::Menu;
use hectic::resources::Mode;
use hectic::resources::PlayerControlsState;
use hectic::resources::PlayingState;
use hectic::resources::Stage;
use hectic::systems::ControlMenu;
use hectic::systems::TogglePaused;

fn lines(active: &[bool]) -> Vec<Item> {
    active
        .iter()
        .map(|ok| if *ok { Item::new("go") } else { Item::unactive("heading") })
        .collect()
}

fn down(active: &[bool], from: usize) -> usize {
    let mut selected = from;
    let mut menu = Menu { title: "t", items: lines(active), selected: &mut selected };
    menu.rotate_down();
    selected
}

fn up(active: &[bool], from: usize) -> usize {
    let mut selected = from;
    let mut menu = Menu { title: "t", items: lines(active), selected: &mut selected };
    menu.rotate_up();
    selected
}

#[test]
fn items_are_active_unless_made_inactive() {
    let item = Item::new("Play");
    assert_eq!((item.text.as_str(), item.active), ("Play", true));
    let item = Item::unactive("General:");
    assert_eq!((item.text.as_str(), item.active), ("General:", false));
    let item = Item::owned(String::from("pause: P"));
    assert_eq!((item.text.as_str(), item.active), ("pause: P", true));
    let copy = item.clone();
    assert_eq!((copy.text.as_str(), copy.active), ("pause: P", true));
}

#[test]
fn the_cursor_goes_round_downwards() {
    let all = [true, true, true];
    assert_eq!(down(&all, 0), 1);
    assert_eq!(down(&all, 1), 2);
    assert_eq!(down(&all, 2), 0);
    assert_eq!(down(&[true], 0), 0);
}

#[test]
fn the_cursor_goes_round_upwards() {
    let all = [true, true, true];
    assert_eq!(up(&all, 0), 2);
    assert_eq!(up(&all, 2), 1);
    assert_eq!(up(&all, 1), 0);
    assert_eq!(up(&[true], 0), 0);
}

#[test]
fn the_cursor_skips_inactive_lines() {
    let some = [false, true, false, false, true];
    assert_eq!(down(&some, 0), 1);
    assert_eq!(down(&some, 1), 4);
    assert_eq!(down(&some, 4), 1);
    assert_eq!(down(&some, 2), 4);
    assert_eq!(up(&some, 4), 1);
    assert_eq!(up(&some, 1), 4);
    assert_eq!(up(&some, 0), 4);
    assert_eq!(up(&some, 3), 1);
    let lone = [false, false, true];
    assert_eq!(down(&lone, 2), 2);
    assert_eq!(up(&lone, 2), 2);
}

#[test]
fn the_cursor_comes_to_rest_after_one_turn_without_active_lines() {
    let none = [false, false, false];
    assert_eq!(down(&none, 1), 1);
    assert_eq!(up(&none, 1), 1);
    assert_eq!(down(&[false], 0), 0);
}

#[test]
fn the_game_starts_in_the_main_menu() {
    assert_eq!(Mode::default(), Mode::MainMenu { selected: 0 });
}

fn menu_of(mode: Mode) -> Option<(String, Vec<(String, bool)>, usize)> {
    let mut mode = mode;
    let controls = ControlsState::default();
    mode.as_menu(&controls).map(|menu| {
        (
            menu.title.to_string(),
            menu.items.iter().map(|item| (item.text.clone(), item.active)).collect(),
            *menu.selected,
        )
    })
}

fn texts(items: &[(String, bool)]) -> Vec<&str> {
    items.iter().map(|(text, _)| text.as_str()).collect()
}

#[test]
fn each_menu_mode_has_its_menu() {
    let (title, items, selected) = menu_of(Mode::MainMenu { selected: 2 }).unwrap();
    assert_eq!(title, "Hectic");
    assert_eq!(texts(&items), vec!["Play", "Controls", "Quit"]);
    assert_eq!(selected, 2);
    let paused = Mode::Paused {
        selected: 1,
        stage: Stage::Two,
        state: PlayingState::Playing,
        multiplayer: true,
    };
    let (title, items, selected) = menu_of(paused).unwrap();
    assert_eq!(title, "Paused");
    assert_eq!(texts(&items), vec!["Resume", "Main Menu"]);
    assert_eq!(selected, 1);
    let (title, items, _) = menu_of(Mode::Stages { selected: 0, multiplayer: false }).unwrap();
    assert_eq!(title, "Stages");
    assert_eq!(texts(&items), vec!["Stage One", "Stage Two", "Players: One", "Back"]);
    let (_, items, _) = menu_of(Mode::Stages { selected: 0, multiplayer: true }).unwrap();
    assert_eq!(texts(&items)[2], "Players: Two");
    let done = Mode::StageComplete { stage: Stage::One, selected: 0, multiplayer: false };
    let (title, items, _) = menu_of(done).unwrap();
    assert_eq!(title, "Stage Complete");
    assert_eq!(texts(&items), vec!["Next Stage", "Main Menu"]);
    let lost = Mode::StageLost { stage: Stage::One, selected: 0, multiplayer: false };
    let (title, items, _) = menu_of(lost).unwrap();
    assert_eq!(title, "Stage Lost");
    assert_eq!(texts(&items), vec!["Main Menu"]);
    assert!(items.iter().all(|(_, active)| *active));
}

#[test]
fn modes_without_a_menu_have_none() {
    let playing = Mode::Playing { stage: Stage::One, state: PlayingState::Playing, multiplayer: false };
    assert!(menu_of(playing).is_none());
    assert!(menu_of(Mode::Quit).is_none());
    assert!(menu_of(Mode::StartStage { stage: Stage::Two, multiplayer: true }).is_none());
}

#[test]
fn the_controls_menu_lists_every_binding() {
    let (title, items, _) = menu_of(Mode::Controls { selected: 0 }).unwrap();
    assert_eq!(title, "Controls");
    assert_eq!(
        texts(&items),
        vec![
            "General:",
            "pause: P",
            "debug: Semicolon",
            "Single Player:",
            "up: Up",
            "left: Left",
            "right: Right",
            "down: Down",
            "fire: Z",
            "bomb: X",
            "slow: LShift",
            "Player One (Multiplayer):",
            "up: Up",
            "left: Left",
            "right: Right",
            "down: Down",
            "fire: Slash",
            "bomb: Period",
            "slow: Comma",
            "Player Two (Multiplayer):",
            "up: W",
            "left: A",
            "right: D",
            "down: S",
            "fire: V",
            "bomb: B",
            "slow: C",
            "Back",
        ]
    );
    let inactive: Vec<usize> =
        items.iter().enumerate().filter(|(_, (_, active))| !active).map(|(i, _)| i).collect();
    assert_eq!(inactive, vec![0, 3, 11, 19]);
}

#[test]
fn the_menu_cursor_is_the_cursor_of_the_mode() {
    let mut mode = Mode::MainMenu { selected: 0 };
    let controls = ControlsState::default();
    {
        let mut menu = mode.as_menu(&controls).unwrap();
        menu.rotate_down();
        menu.rotate_down();
    }
    assert_eq!(mode, Mode::MainMenu { selected: 2 });
}

#[test]
fn keys_are_held_while_pressed_and_pause_flips() {
    let mut controls = ControlsState::default();
    controls.press(Key::Up, true);
    assert!(controls.get(Player::Single).up.pressed);
    assert!(controls.get(Player::One).up.pressed);
    assert!(!controls.get(Player::Two).up.pressed);
    controls.press(Key::Up, false);
    assert!(!controls.get(Player::Single).up.pressed);
    controls.press(Key::P, true);
    assert!(controls.pause.pressed);
    controls.press(Key::P, false);
    assert!(controls.pause.pressed);
    controls.press(Key::P, true);
    assert!(!controls.pause.pressed);
    controls.press(Key::Semicolon, true);
    assert!(controls.debug.pressed);
    controls.press(Key::Other(77), true);
    assert_eq!(controls.get(Player::Two), ControlsState::default().get(Player::Two));
}

#[test]
fn a_key_state_follows_only_its_key() {
    let mut fire = KeyState::new(Key::Z);
    assert_eq!((fire.key(), fire.pressed), (Key::Z, false));
    fire.press(Key::X, true);
    assert!(!fire.pressed);
    fire.press(Key::Z, true);
    assert!(fire.pressed);
    fire.toggle(Key::Z, false);
    assert!(fire.pressed);
    fire.toggle(Key::X, true);
    assert!(fire.pressed);
    fire.toggle(Key::Z, true);
    assert!(!fire.pressed);
    assert_eq!(Key::Other(5).name(), "Other");
    assert_eq!(Key::LShift.name(), "LShift");
}

#[test]
fn bindings_can_be_set() {
    let single = PlayerControlsState::bound_to(
        Key::W,
        Key::A,
        Key::D,
        Key::S,
        Key::N,
        Key::B,
        Key::Other(42),
    );
    let controls = ControlsState::with_bindings(
        Key::Other(1),
        Key::Other(2),
        single,
        PlayerControlsState::player_one(),
        PlayerControlsState::player_two(),
    );
    assert_eq!(controls.pause, KeyState::new(Key::Other(1)));
    assert_eq!(controls.debug.key(), Key::Other(2));
    assert_eq!(controls.get(Player::Single).fire.key(), Key::N);
    assert_eq!(controls.get(Player::Single).slow_movement.key(), Key::Other(42));
    assert_eq!(*controls.get(Player::One), PlayerControlsState::player_one());
    let mut changed = controls;
    changed.get_mut(Player::Two).fire.pressed = true;
    assert!(changed.get(Player::Two).fire.pressed);
    assert_eq!(changed.get(Player::One), controls.get(Player::One));
    assert_eq!(
        single.as_items().iter().map(|item| item.text.clone()).collect::<Vec<_>>(),
        vec!["up: W", "left: A", "right: D", "down: S", "fire: N", "bomb: B", "slow: Other"]
    );
}

fn steer(mode: Mode, keys: &[Key]) -> (Mode, ControlsState) {
    let mut mode = mode;
    let mut controls = ControlsState::default();
    for key in keys {
        controls.press(*key, true);
    }
    ControlMenu.run(&mut controls, &mut mode);
    (mode, controls)
}

#[test]
fn the_main_menu_leads_on() {
    let fire = [Key::Z];
    assert_eq!(
        steer(Mode::MainMenu { selected: 0 }, &fire).0,
        Mode::Stages { selected: 0, multiplayer: false }
    );
    assert_eq!(steer(Mode::MainMenu { selected: 1 }, &fire).0, Mode::Controls { selected: 0 });
    assert_eq!(steer(Mode::MainMenu { selected: 2 }, &fire).0, Mode::Quit);
    assert_eq!(steer(Mode::MainMenu { selected: 0 }, &[Key::Down, Key::Z]).0, Mode::Controls { selected: 0 });
    assert_eq!(steer(Mode::MainMenu { selected: 0 }, &[Key::Up, Key::Z]).0, Mode::Quit);
    assert_eq!(
        steer(Mode::MainMenu { selected: 1 }, &[Key::Up, Key::Down]).0,
        Mode::MainMenu { selected: 1 }
    );
    assert_eq!(steer(Mode::MainMenu { selected: 1 }, &[]).0, Mode::MainMenu { selected: 1 });
}

#[test]
fn menu_keys_are_used_up() {
    let (_, controls) = steer(Mode::MainMenu { selected: 0 }, &[Key::Down, Key::Up, Key::Z, Key::Left]);
    let single = controls.get(Player::Single);
    assert!(!single.down.pressed && !single.up.pressed && !single.fire.pressed);
    assert!(single.left.pressed);
    assert!(controls.get(Player::One).down.pressed);
    let playing = Mode::Playing { stage: Stage::One, state: PlayingState::Playing, multiplayer: false };
    let (mode, controls) = steer(playing, &[Key::Down, Key::Z]);
    assert_eq!(mode, playing);
    assert!(controls.get(Player::Single).down.pressed && controls.get(Player::Single).fire.pressed);
}

#[test]
fn the_stage_menu_starts_stages_and_flips_the_players() {
    let fire = [Key::Z];
    let stages = |selected, multiplayer| Mode::Stages { selected, multiplayer };
    assert_eq!(
        steer(stages(0, true), &fire).0,
        Mode::StartStage { stage: Stage::One, multiplayer: true }
    );
    assert_eq!(
        steer(stages(1, false), &fire).0,
        Mode::StartStage { stage: Stage::Two, multiplayer: false }
    );
    assert_eq!(steer(stages(2, false), &fire).0, stages(2, true));
    assert_eq!(steer(stages(2, true), &fire).0, stages(2, false));
    assert_eq!(steer(stages(3, true), &fire).0, Mode::MainMenu { selected: 0 });
}

#[test]
fn the_pause_menu_resumes_or_leaves() {
    let paused = |selected| Mode::Paused {
        selected,
        stage: Stage::Two,
        state: PlayingState::Lost { at: 5 },
        multiplayer: true,
    };
    assert_eq!(
        steer(paused(0), &[Key::Z]).0,
        Mode::Playing { stage: Stage::Two, state: PlayingState::Lost { at: 5 }, multiplayer: true }
    );
    assert_eq!(steer(paused(1), &[Key::Z]).0, Mode::MainMenu { selected: 0 });
    assert_eq!(steer(paused(1), &[Key::Down]).0, paused(0));
}

#[test]
fn the_controls_menu_only_leaves_by_its_last_line() {
    assert_eq!(steer(Mode::Controls { selected: 27 }, &[Key::Z]).0, Mode::MainMenu { selected: 1 });
    assert_eq!(steer(Mode::Controls { selected: 5 }, &[Key::Z]).0, Mode::Controls { selected: 5 });
    assert_eq!(steer(Mode::Controls { selected: 0 }, &[Key::Down]).0, Mode::Controls { selected: 1 });
    assert_eq!(steer(Mode::Controls { selected: 2 }, &[Key::Down]).0, Mode::Controls { selected: 4 });
    assert_eq!(steer(Mode::Controls { selected: 1 }, &[Key::Up]).0, Mode::Controls { selected: 27 });
    assert_eq!(
        steer(Mode::Controls { selected: 1 }, &[Key::Up, Key::Z]).0,
        Mode::MainMenu { selected: 1 }
    );
}

#[test]
fn the_end_of_a_stage_leads_to_the_next_or_home() {
    let complete = |stage, selected| Mode::StageComplete { stage, selected, multiplayer: true };
    assert_eq!(
        steer(complete(Stage::One, 0), &[Key::Z]).0,
        Mode::StartStage { stage: Stage::Two, multiplayer: true }
    );
    assert_eq!(steer(complete(Stage::Two, 0), &[Key::Z]).0, complete(Stage::Two, 0));
    assert_eq!(steer(complete(Stage::One, 1), &[Key::Z]).0, Mode::MainMenu { selected: 0 });
    let lost = Mode::StageLost { stage: Stage::One, selected: 0, multiplayer: false };
    assert_eq!(steer(lost, &[Key::Z]).0, Mode::MainMenu { selected: 0 });
    assert_eq!(steer(lost, &[Key::Down]).0, lost);
}

fn toggle(mode: Mode, pressed: bool) -> (Mode, bool) {
    let mut mode = mode;
    let mut controls = ControlsState::default();
    controls.pause.pressed = pressed;
    TogglePaused.run(&mut controls, &mut mode);
    (mode, controls.pause.pressed)
}

#[test]
fn pause_toggles_between_playing_and_paused() {
    let playing = Mode::Playing { stage: Stage::One, state: PlayingState::Playing, multiplayer: true };
    let paused =
        Mode::Paused { selected: 0, stage: Stage::One, state: PlayingState::Playing, multiplayer: true };
    assert_eq!(toggle(playing, true), (paused, false));
    assert_eq!(toggle(paused, true), (playing, false));
    let lower = Mode::Paused { selected: 1, stage: Stage::One, state: PlayingState::Playing, multiplayer: true };
    assert_eq!(toggle(lower, true), (playing, false));
    assert_eq!(toggle(playing, false), (playing, false));
    assert_eq!(toggle(Mode::MainMenu { selected: 1 }, true), (Mode::MainMenu { selected: 1 }, false));
    assert_eq!(toggle(Mode::Quit, true), (Mode::Quit, false));
}
