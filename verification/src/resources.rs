//! The singletons of the world: the mode the game is in, its menus, the state
//! of the controls, the clock and the queues that systems hand to each other.

use rand::rngs::ThreadRng;
use vstd::prelude::*;
use vstd::string::*;
use crate::components::ColourBullets;
use crate::components::Image;
use crate::components::Player;
use crate::math::Vec2;
use crate::random::gen_range;
use crate::storage::Entity;

verus! {

/// The stages of the game.
#[derive(Clone, Copy, Debug, PartialEq, Eq, Structural)]
pub enum Stage {
    One,
    Two,
}

/// How the stage being played stands.
#[derive(Clone, Copy, Debug, PartialEq, Eq, Structural)]
pub enum PlayingState {
    Playing,
    /// The last player died at this time.
    Lost { at: u64 },
    /// The boss died at this time.
    Won { at: u64 },
}

/// The mode the game is in. It decides which systems run in a frame.
#[derive(Clone, Copy, Debug, PartialEq, Eq, Structural)]
pub enum Mode {
    Playing { stage: Stage, state: PlayingState, multiplayer: bool },
    Paused { selected: usize, stage: Stage, state: PlayingState, multiplayer: bool },
    MainMenu { selected: usize },
    Controls { selected: usize },
    Stages { selected: usize, multiplayer: bool },
    /// The stage is to be set up at the start of the next frame.
    StartStage { stage: Stage, multiplayer: bool },
    StageComplete { stage: Stage, selected: usize, multiplayer: bool },
    StageLost { stage: Stage, selected: usize, multiplayer: bool },
    Quit,
}

impl Default for Mode {
    fn default() -> (r: Mode)
        ensures
            r == (Mode::MainMenu { selected: 0 }),
    {
        Mode::MainMenu { selected: 0 }
    }
}

/// One line of a menu. The cursor skips lines that are not active.
pub struct Item {
    pub text: String,
    pub active: bool,
}

/// What an `Item` says, with the string as its characters.
pub struct ItemView {
    pub text: Seq<char>,
    pub active: bool,
}

impl View for Item {
    type V = ItemView;

    open spec fn view(&self) -> ItemView {
        ItemView { text: self.text@, active: self.active }
    }
}

impl Clone for Item {
    fn clone(&self) -> (r: Item)
        ensures
            r@ == self@,
    {
        Item { text: self.text.clone(), active: self.active }
    }
}

impl Item {
    /// A line the cursor can rest on.
    pub fn new(text: &'static str) -> (r: Item)
        ensures
            r@ == (ItemView { text: text@, active: true }),
    {
        Item { text: String::from_str(text), active: true }
    }

    /// A heading: a line the cursor skips.
    pub fn unactive(text: &'static str) -> (r: Item)
        ensures
            r@ == (ItemView { text: text@, active: false }),
    {
        Item { text: String::from_str(text), active: false }
    }

    /// A line the cursor can rest on, from a string made at run time.
    pub fn owned(text: String) -> (r: Item)
        ensures
            r@ == (ItemView { text: text@, active: true }),
    {
        Item { text, active: true }
    }
}

/// The views of a list of items.
pub open spec fn item_views(items: Seq<Item>) -> Seq<ItemView> {
    Seq::new(items.len(), |i: int| items[i]@)
}

/// Adds a line to a list of items.
fn push_item(items: &mut Vec<Item>, item: Item)
    ensures
        final(items)@ == old(items)@.push(item),
        item_views(final(items)@) == item_views(old(items)@) + seq![item@],
{
    items.push(item);
    assert(item_views(items@) =~= item_views(old(items)@) + seq![item@]);
}

/// Adds the lines of `more` to a list of items.
fn append_items(items: &mut Vec<Item>, more: Vec<Item>)
    ensures
        final(items)@ == old(items)@ + more@,
        item_views(final(items)@) == item_views(old(items)@) + item_views(more@),
{
    let ghost added = more@;
    let mut more = more;
    items.append(&mut more);
    assert(item_views(items@) =~= item_views(old(items)@) + item_views(added));
}

/// The line below line `i` of a menu of `len` lines, the first line being
/// below the last.
pub open spec fn line_below(len: int, i: int) -> int {
    if i + 1 >= len {
        0
    } else {
        i + 1
    }
}

/// The line above line `i` of a menu of `len` lines, the last line being
/// above the first.
pub open spec fn line_above(len: int, i: int) -> int {
    if i <= 0 || i > len {
        len - 1
    } else {
        i - 1
    }
}

/// Where the cursor comes to rest when it goes down from line `from`: on the
/// first active line below, and after `turns` lines at the latest.
pub open spec fn rest_below(items: Seq<ItemView>, from: int, turns: nat) -> int
    decreases turns,
{
    let next = line_below(items.len() as int, from);
    if turns <= 1 || (0 <= next < items.len() && items[next].active) {
        next
    } else {
        rest_below(items, next, (turns - 1) as nat)
    }
}

/// Where the cursor comes to rest when it goes up from line `from`: on the
/// first active line above, and after `turns` lines at the latest.
pub open spec fn rest_above(items: Seq<ItemView>, from: int, turns: nat) -> int
    decreases turns,
{
    let next = line_above(items.len() as int, from);
    if turns <= 1 || (0 <= next < items.len() && items[next].active) {
        next
    } else {
        rest_above(items, next, (turns - 1) as nat)
    }
}

/// How many lines below `from` the line `to` lies, from 1 to `len`.
pub open spec fn lines_down(len: int, from: int, to: int) -> int {
    if to > from {
        to - from
    } else {
        to + len - from
    }
}

/// Going down, the cursor comes to rest on an active line whenever the menu
/// has one.
pub proof fn lemma_rest_below_active(items: Seq<ItemView>, from: int, turns: nat, some: int)
    requires
        0 <= from < items.len(),
        0 <= some < items.len(),
        items[some].active,
        turns >= lines_down(items.len() as int, from, some),
    ensures
        0 <= rest_below(items, from, turns) < items.len(),
        items[rest_below(items, from, turns)].active,
    decreases turns,
{
    let next = line_below(items.len() as int, from);
    if !items[next].active {
        lemma_rest_below_active(items, next, (turns - 1) as nat, some);
    }
}

/// How many lines above `from` the line `to` lies, from 1 to `len`.
pub open spec fn lines_up(len: int, from: int, to: int) -> int {
    if to < from {
        from - to
    } else {
        from + len - to
    }
}

/// Going up, the cursor comes to rest on an active line whenever the menu has
/// one.
pub proof fn lemma_rest_above_active(items: Seq<ItemView>, from: int, turns: nat, some: int)
    requires
        0 <= from < items.len(),
        0 <= some < items.len(),
        items[some].active,
        turns >= lines_up(items.len() as int, from, some),
    ensures
        0 <= rest_above(items, from, turns) < items.len(),
        items[rest_above(items, from, turns)].active,
    decreases turns,
{
    let next = line_above(items.len() as int, from);
    if !items[next].active {
        lemma_rest_above_active(items, next, (turns - 1) as nat, some);
    }
}

/// A menu on the screen: its title, its lines, and the cursor, which is the
/// cursor of the mode the menu was made from.
pub struct Menu<'a> {
    pub title: &'static str,
    pub items: Vec<Item>,
    pub selected: &'a mut usize,
}

impl<'a> Menu<'a> {
    /// Moves the cursor down to the next active line, going round from the
    /// last line to the first. After one full turn without an active line the
    /// cursor stays where the turn ended.
    pub fn rotate_down(&mut self)
        requires
            old(self).items@.len() > 0,
            *old(self).selected < old(self).items@.len(),
        ensures
            *final(self).selected == rest_below(
                item_views(old(self).items@),
                *old(self).selected as int,
                old(self).items@.len(),
            ),
            *final(self).selected < old(self).items@.len(),
            (exists|k: int| 0 <= k < old(self).items@.len() && old(self).items@[k].active)
                ==> old(self).items@[*final(self).selected as int].active,
            final(self).items == old(self).items,
            final(self).title == old(self).title,
            *final(final(self).selected) == *final(old(self).selected),
    {
        proof {
            let lines = item_views(self.items@);
            if exists|k: int| 0 <= k < self.items@.len() && self.items@[k].active {
                let k = choose|k: int| 0 <= k < self.items@.len() && self.items@[k].active;
                assert(lines[k].active);
                lemma_rest_below_active(lines, *self.selected as int, self.items@.len(), k);
            }
        }
        let len: usize = self.items.len();
        let mut turns: usize = len;
        let mut done = false;
        while !done
            invariant
                len == self.items@.len(),
                len > 0,
                self.items == old(self).items,
                self.title == old(self).title,
                *final(self.selected) == *final(old(self).selected),
                *self.selected < len,
                !done ==> turns >= 1,
                !done ==> rest_below(
                    item_views(self.items@),
                    *self.selected as int,
                    turns as nat,
                ) == rest_below(
                    item_views(old(self).items@),
                    *old(self).selected as int,
                    old(self).items@.len(),
                ),
                done ==> *self.selected == rest_below(
                    item_views(old(self).items@),
                    *old(self).selected as int,
                    old(self).items@.len(),
                ),
            decreases
                    if done {
                        0
                    } else {
                        turns as int
                    },
        {
            let next: usize = if *self.selected + 1 >= len {
                0
            } else {
                *self.selected + 1
            };
            *self.selected = next;
            done = self.items[next].active || turns <= 1;
            turns = turns - 1;
        }
    }

    /// Moves the cursor up to the next active line, going round from the first
    /// line to the last. After one full turn without an active line the cursor
    /// stays where the turn ended.
    pub fn rotate_up(&mut self)
        requires
            old(self).items@.len() > 0,
            *old(self).selected < old(self).items@.len(),
        ensures
            *final(self).selected == rest_above(
                item_views(old(self).items@),
                *old(self).selected as int,
                old(self).items@.len(),
            ),
            *final(self).selected < old(self).items@.len(),
            (exists|k: int| 0 <= k < old(self).items@.len() && old(self).items@[k].active)
                ==> old(self).items@[*final(self).selected as int].active,
            final(self).items == old(self).items,
            final(self).title == old(self).title,
            *final(final(self).selected) == *final(old(self).selected),
    {
        proof {
            let lines = item_views(self.items@);
            if exists|k: int| 0 <= k < self.items@.len() && self.items@[k].active {
                let k = choose|k: int| 0 <= k < self.items@.len() && self.items@[k].active;
                assert(lines[k].active);
                lemma_rest_above_active(lines, *self.selected as int, self.items@.len(), k);
            }
        }
        let len: usize = self.items.len();
        let mut turns: usize = len;
        let mut done = false;
        while !done
            invariant
                len == self.items@.len(),
                len > 0,
                self.items == old(self).items,
                self.title == old(self).title,
                *final(self.selected) == *final(old(self).selected),
                *self.selected < len,
                !done ==> turns >= 1,
                !done ==> rest_above(
                    item_views(self.items@),
                    *self.selected as int,
                    turns as nat,
                ) == rest_above(
                    item_views(old(self).items@),
                    *old(self).selected as int,
                    old(self).items@.len(),
                ),
                done ==> *self.selected == rest_above(
                    item_views(old(self).items@),
                    *old(self).selected as int,
                    old(self).items@.len(),
                ),
            decreases
                    if done {
                        0
                    } else {
                        turns as int
                    },
        {
            let next: usize = match (*self.selected).checked_sub(1) {
                None => len - 1,
                Some(selected) => selected,
            };
            *self.selected = next;
            done = self.items[next].active || turns <= 1;
            turns = turns - 1;
        }
    }
}

/// A key of the keyboard, as far as the game tells keys apart: the keys the
/// built-in bindings use by name, any other by its code.
#[derive(Clone, Copy, Debug, PartialEq, Eq, Structural)]
pub enum Key {
    Up,
    Down,
    Left,
    Right,
    W,
    A,
    S,
    D,
    Z,
    X,
    C,
    V,
    B,
    N,
    P,
    Slash,
    Period,
    Comma,
    Semicolon,
    LShift,
    Other(u32),
}

impl Key {
    /// The name a key is listed under in the controls menu.
    pub open spec fn label(self) -> Seq<char> {
        match self {
            Key::Up => "Up"@,
            Key::Down => "Down"@,
            Key::Left => "Left"@,
            Key::Right => "Right"@,
            Key::W => "W"@,
            Key::A => "A"@,
            Key::S => "S"@,
            Key::D => "D"@,
            Key::Z => "Z"@,
            Key::X => "X"@,
            Key::C => "C"@,
            Key::V => "V"@,
            Key::B => "B"@,
            Key::N => "N"@,
            Key::P => "P"@,
            Key::Slash => "Slash"@,
            Key::Period => "Period"@,
            Key::Comma => "Comma"@,
            Key::Semicolon => "Semicolon"@,
            Key::LShift => "LShift"@,
            Key::Other(_) => "Other"@,
        }
    }

    /// The name a key is listed under in the controls menu.
    pub fn name(self) -> (r: &'static str)
        ensures
            r@ == self.label(),
    {
        match self {
            Key::Up => "Up",
            Key::Down => "Down",
            Key::Left => "Left",
            Key::Right => "Right",
            Key::W => "W",
            Key::A => "A",
            Key::S => "S",
            Key::D => "D",
            Key::Z => "Z",
            Key::X => "X",
            Key::C => "C",
            Key::V => "V",
            Key::B => "B",
            Key::N => "N",
            Key::P => "P",
            Key::Slash => "Slash",
            Key::Period => "Period",
            Key::Comma => "Comma",
            Key::Semicolon => "Semicolon",
            Key::LShift => "LShift",
            Key::Other(_) => "Other",
        }
    }
}

/// One action of the controls: the key bound to it and whether it is held.
#[derive(Clone, Copy, Debug, PartialEq, Eq, Structural)]
pub struct KeyState {
    pub key: Key,
    pub pressed: bool,
}

impl KeyState {
    /// The key bound to the action.
    pub open spec fn bound(self) -> Key {
        self.key
    }

    /// The action with the same binding and another state.
    pub open spec fn set(self, pressed: bool) -> KeyState {
        KeyState { key: self.key, pressed }
    }

    /// The action after an event of `key`, for an action that is held while
    /// its key is: the event of its own key sets it, any other leaves it.
    pub open spec fn pressed_by(self, key: Key, pressed: bool) -> KeyState {
        if self.bound() == key {
            self.set(pressed)
        } else {
            self
        }
    }

    /// The action after an event of `key`, for an action that flips each time
    /// its key goes down.
    pub open spec fn toggled_by(self, key: Key, pressed: bool) -> KeyState {
        if self.bound() == key && pressed {
            self.set(!self.pressed)
        } else {
            self
        }
    }

    /// An action bound to `key`, not held.
    pub fn new(key: Key) -> (r: KeyState)
        ensures
            r.bound() == key,
            !r.pressed,
    {
        KeyState { key, pressed: false }
    }

    /// The key bound to the action.
    pub fn key(&self) -> (k: Key)
        ensures
            k == self.bound(),
    {
        self.key
    }

    /// Flips the action when `key` is its key and goes down.
    pub fn toggle(&mut self, key: Key, pressed: bool)
        ensures
            *final(self) == old(self).toggled_by(key, pressed),
    {
        if self.key == key && pressed {
            self.pressed = !self.pressed;
        }
    }

    /// Sets the action when `key` is its key.
    pub fn press(&mut self, key: Key, pressed: bool)
        ensures
            *final(self) == old(self).pressed_by(key, pressed),
    {
        if self.key == key {
            self.pressed = pressed;
        }
    }
}

/// The actions of one player.
#[derive(Clone, Copy, Debug, PartialEq, Eq, Structural)]
pub struct PlayerControlsState {
    pub up: KeyState,
    pub left: KeyState,
    pub right: KeyState,
    pub down: KeyState,
    pub fire: KeyState,
    pub bomb: KeyState,
    pub slow_movement: KeyState,
}

/// The line of the controls menu for one action: its name, a colon, a blank
/// and the name of its key.
pub open spec fn binding_line(action: Seq<char>, key: Key) -> ItemView {
    ItemView { text: action + ": "@ + key.label(), active: true }
}

/// The line of the controls menu for one action.
fn binding_item(action: &'static str, state: &KeyState) -> (r: Item)
    ensures
        r@ == binding_line(action@, state.bound()),
{
    let text = String::from_str(action).concat(": ").concat(state.key().name());
    Item::owned(text)
}

impl PlayerControlsState {
    /// The lines of the controls menu for this player's actions.
    pub open spec fn lines(self) -> Seq<ItemView> {
        seq![
            binding_line("up"@, self.up.bound()),
            binding_line("left"@, self.left.bound()),
            binding_line("right"@, self.right.bound()),
            binding_line("down"@, self.down.bound()),
            binding_line("fire"@, self.fire.bound()),
            binding_line("bomb"@, self.bomb.bound()),
            binding_line("slow"@, self.slow_movement.bound()),
        ]
    }

    /// The actions after an event of `key`.
    pub open spec fn pressed_by(self, key: Key, pressed: bool) -> PlayerControlsState {
        PlayerControlsState {
            up: self.up.pressed_by(key, pressed),
            left: self.left.pressed_by(key, pressed),
            right: self.right.pressed_by(key, pressed),
            down: self.down.pressed_by(key, pressed),
            fire: self.fire.pressed_by(key, pressed),
            bomb: self.bomb.pressed_by(key, pressed),
            slow_movement: self.slow_movement.pressed_by(key, pressed),
        }
    }

    /// The keys of an action set, in the order up, left, right, down, fire,
    /// bomb, slow.
    pub open spec fn keys(self) -> Seq<Key> {
        seq![
            self.up.bound(),
            self.left.bound(),
            self.right.bound(),
            self.down.bound(),
            self.fire.bound(),
            self.bomb.bound(),
            self.slow_movement.bound(),
        ]
    }

    /// Whether no action is held.
    pub open spec fn idle(self) -> bool {
        !self.up.pressed && !self.left.pressed && !self.right.pressed && !self.down.pressed
            && !self.fire.pressed && !self.bomb.pressed && !self.slow_movement.pressed
    }

    /// The lines of the controls menu for this player's actions.
    pub fn as_items(&self) -> (r: Vec<Item>)
        ensures
            item_views(r@) == self.lines(),
    {
        let mut items: Vec<Item> = Vec::new();
        items.push(binding_item("up", &self.up));
        items.push(binding_item("left", &self.left));
        items.push(binding_item("right", &self.right));
        items.push(binding_item("down", &self.down));
        items.push(binding_item("fire", &self.fire));
        items.push(binding_item("bomb", &self.bomb));
        items.push(binding_item("slow", &self.slow_movement));
        assert(item_views(items@) =~= self.lines());
        items
    }

    /// Idle actions bound to the given keys.
    pub fn bound_to(up: Key, left: Key, right: Key, down: Key, fire: Key, bomb: Key, slow: Key) -> (r:
        PlayerControlsState)
        ensures
            r.keys() == seq![up, left, right, down, fire, bomb, slow],
            r.idle(),
    {
        PlayerControlsState {
            up: KeyState::new(up),
            left: KeyState::new(left),
            right: KeyState::new(right),
            down: KeyState::new(down),
            fire: KeyState::new(fire),
            bomb: KeyState::new(bomb),
            slow_movement: KeyState::new(slow),
        }
    }

    /// The bindings of a lone player: the arrow keys, Z to fire, X for the
    /// bomb and the left shift key to move slowly.
    pub fn single_player() -> (r: PlayerControlsState)
        ensures
            r.keys() == seq![Key::Up, Key::Left, Key::Right, Key::Down, Key::Z, Key::X, Key::LShift],
            r.idle(),
    {
        Self::bound_to(Key::Up, Key::Left, Key::Right, Key::Down, Key::Z, Key::X, Key::LShift)
    }

    /// The bindings of the first of two players: the arrow keys, the slash to
    /// fire, the period for the bomb and the comma to move slowly.
    pub fn player_one() -> (r: PlayerControlsState)
        ensures
            r.keys() == seq![
                Key::Up,
                Key::Left,
                Key::Right,
                Key::Down,
                Key::Slash,
                Key::Period,
                Key::Comma,
            ],
            r.idle(),
    {
        Self::bound_to(
            Key::Up,
            Key::Left,
            Key::Right,
            Key::Down,
            Key::Slash,
            Key::Period,
            Key::Comma,
        )
    }

    /// The bindings of the second of two players: W, A, S and D, V to fire, B
    /// for the bomb and C to move slowly.
    pub fn player_two() -> (r: PlayerControlsState)
        ensures
            r.keys() == seq![Key::W, Key::A, Key::D, Key::S, Key::V, Key::B, Key::C],
            r.idle(),
    {
        Self::bound_to(Key::W, Key::A, Key::D, Key::S, Key::V, Key::B, Key::C)
    }

    /// Hands an event of `key` to every action.
    pub fn press(&mut self, key: Key, pressed: bool)
        ensures
            *final(self) == old(self).pressed_by(key, pressed),
    {
        self.up.press(key, pressed);
        self.left.press(key, pressed);
        self.right.press(key, pressed);
        self.down.press(key, pressed);
        self.fire.press(key, pressed);
        self.bomb.press(key, pressed);
        self.slow_movement.press(key, pressed);
    }
}

/// The state of every action the game knows.
#[derive(Clone, Copy, Debug, PartialEq, Eq, Structural)]
pub struct ControlsState {
    pub pause: KeyState,
    pub debug: KeyState,
    pub single_player: PlayerControlsState,
    pub player_1: PlayerControlsState,
    pub player_2: PlayerControlsState,
}

impl ControlsState {
    /// The actions of the player in the given seat.
    pub open spec fn of(self, player: Player) -> PlayerControlsState {
        match player {
            Player::Single => self.single_player,
            Player::One => self.player_1,
            Player::Two => self.player_2,
        }
    }

    /// The state with the given parts.
    pub open spec fn assembled(
        pause: KeyState,
        debug: KeyState,
        single: PlayerControlsState,
        one: PlayerControlsState,
        two: PlayerControlsState,
    ) -> ControlsState {
        ControlsState { pause, debug, single_player: single, player_1: one, player_2: two }
    }

    /// The state after an event of `key`: the players' actions follow the key,
    /// pause and debug flip when their key goes down.
    pub open spec fn pressed_by(self, key: Key, pressed: bool) -> ControlsState {
        Self::assembled(
            self.pause.toggled_by(key, pressed),
            self.debug.toggled_by(key, pressed),
            self.of(Player::Single).pressed_by(key, pressed),
            self.of(Player::One).pressed_by(key, pressed),
            self.of(Player::Two).pressed_by(key, pressed),
        )
    }

    /// The state with the actions of one seat replaced.
    pub open spec fn with(self, player: Player, actions: PlayerControlsState) -> ControlsState {
        Self::assembled(
            self.pause,
            self.debug,
            if player == Player::Single {
                actions
            } else {
                self.of(Player::Single)
            },
            if player == Player::One {
                actions
            } else {
                self.of(Player::One)
            },
            if player == Player::Two {
                actions
            } else {
                self.of(Player::Two)
            },
        )
    }

    /// The lines of the controls menu.
    pub open spec fn lines(self) -> Seq<ItemView> {
        seq![
            ItemView { text: "General:"@, active: false },
            binding_line("pause"@, self.pause.bound()),
            binding_line("debug"@, self.debug.bound()),
            ItemView { text: "Single Player:"@, active: false },
        ] + self.of(Player::Single).lines() + seq![
            ItemView { text: "Player One (Multiplayer):"@, active: false },
        ] + self.of(Player::One).lines() + seq![
            ItemView { text: "Player Two (Multiplayer):"@, active: false },
        ] + self.of(Player::Two).lines() + seq![ItemView { text: "Back"@, active: true }]
    }

    /// A state with the given bindings.
    pub fn with_bindings(
        pause: Key,
        debug: Key,
        single: PlayerControlsState,
        one: PlayerControlsState,
        two: PlayerControlsState,
    ) -> (r: ControlsState)
        ensures
            r == Self::assembled(
                KeyState { key: pause, pressed: false },
                KeyState { key: debug, pressed: false },
                single,
                one,
                two,
            ),
    {
        ControlsState {
            pause: KeyState::new(pause),
            debug: KeyState::new(debug),
            single_player: single,
            player_1: one,
            player_2: two,
        }
    }

    /// The lines of the controls menu.
    pub fn as_items(&self) -> (r: Vec<Item>)
        ensures
            item_views(r@) == self.lines(),
            r@.len() == 28,
    {
        let mut items: Vec<Item> = Vec::new();
        items.push(Item::unactive("General:"));
        items.push(binding_item("pause", &self.pause));
        items.push(binding_item("debug", &self.debug));
        items.push(Item::unactive("Single Player:"));
        let ghost head = seq![
            ItemView { text: "General:"@, active: false },
            binding_line("pause"@, self.pause.bound()),
            binding_line("debug"@, self.debug.bound()),
            ItemView { text: "Single Player:"@, active: false },
        ];
        assert(item_views(items@) =~= head);
        append_items(&mut items, self.single_player.as_items());
        push_item(&mut items, Item::unactive("Player One (Multiplayer):"));
        append_items(&mut items, self.player_1.as_items());
        push_item(&mut items, Item::unactive("Player Two (Multiplayer):"));
        append_items(&mut items, self.player_2.as_items());
        push_item(&mut items, Item::new("Back"));
        assert(item_views(items@).len() == 28);
        items
    }

    /// Hands an event of `key` to every action.
    pub fn press(&mut self, key: Key, pressed: bool)
        ensures
            *final(self) == old(self).pressed_by(key, pressed),
    {
        self.single_player.press(key, pressed);
        self.player_1.press(key, pressed);
        self.player_2.press(key, pressed);
        self.pause.toggle(key, pressed);
        self.debug.toggle(key, pressed);
    }

    /// The actions of the player in the given seat.
    pub fn get(&self, player: Player) -> (r: &PlayerControlsState)
        ensures
            *r == self.of(player),
    {
        match player {
            Player::Single => &self.single_player,
            Player::One => &self.player_1,
            Player::Two => &self.player_2,
        }
    }

    /// The actions of the player in the given seat, to be changed in place.
    pub fn get_mut(&mut self, player: Player) -> (r: &mut PlayerControlsState)
        ensures
            *r == old(self).of(player),
            *final(self) == old(self).with(player, *final(r)),
    {
        match player {
            Player::Single => &mut self.single_player,
            Player::One => &mut self.player_1,
            Player::Two => &mut self.player_2,
        }
    }
}

impl Default for ControlsState {
    /// The built-in bindings: P pauses, the semicolon shows the hitboxes.
    fn default() -> (r: ControlsState)
        ensures
            r.pause.bound() == Key::P,
            r.debug.bound() == Key::Semicolon,
            !r.pause.pressed,
            !r.debug.pressed,
            r.of(Player::Single).keys() == seq![
                Key::Up,
                Key::Left,
                Key::Right,
                Key::Down,
                Key::Z,
                Key::X,
                Key::LShift,
            ],
            r.of(Player::One).keys() == seq![
                Key::Up,
                Key::Left,
                Key::Right,
                Key::Down,
                Key::Slash,
                Key::Period,
                Key::Comma,
            ],
            r.of(Player::Two).keys() == seq![Key::W, Key::A, Key::D, Key::S, Key::V, Key::B, Key::C],
            r.of(Player::Single).idle(),
            r.of(Player::One).idle(),
            r.of(Player::Two).idle(),
    {
        ControlsState {
            single_player: PlayerControlsState::single_player(),
            player_1: PlayerControlsState::player_one(),
            player_2: PlayerControlsState::player_two(),
            pause: KeyState::new(Key::P),
            debug: KeyState::new(Key::Semicolon),
        }
    }
}

/// The game clock.
#[derive(Clone, Copy, Debug, PartialEq, Eq, Structural)]
pub struct GameTime {
    pub total_time: u64,
}

impl Default for GameTime {
    fn default() -> (r: GameTime)
        ensures
            r.total_time == 0,
    {
        GameTime { total_time: 0 }
    }
}

/// The line of the stage menu that shows and flips the number of players.
pub open spec fn multiplayer_line(multiplayer: bool) -> ItemView {
    ItemView {
        text: if multiplayer {
            "Players: Two"@
        } else {
            "Players: One"@
        },
        active: true,
    }
}

impl Mode {
    /// The line the cursor is on, in the modes that show a menu.
    pub open spec fn cursor(self) -> Option<usize> {
        match self {
            Mode::Paused { selected, .. } => Some(selected),
            Mode::MainMenu { selected } => Some(selected),
            Mode::Controls { selected } => Some(selected),
            Mode::Stages { selected, .. } => Some(selected),
            Mode::StageComplete { selected, .. } => Some(selected),
            Mode::StageLost { selected, .. } => Some(selected),
            _ => None,
        }
    }

    /// The same mode with the cursor on another line.
    pub open spec fn with_cursor(self, selected: usize) -> Mode {
        match self {
            Mode::Paused { stage, state, multiplayer, .. } => Mode::Paused {
                selected,
                stage,
                state,
                multiplayer,
            },
            Mode::MainMenu { .. } => Mode::MainMenu { selected },
            Mode::Controls { .. } => Mode::Controls { selected },
            Mode::Stages { multiplayer, .. } => Mode::Stages { selected, multiplayer },
            Mode::StageComplete { stage, multiplayer, .. } => Mode::StageComplete {
                stage,
                selected,
                multiplayer,
            },
            Mode::StageLost { stage, multiplayer, .. } => Mode::StageLost {
                stage,
                selected,
                multiplayer,
            },
            _ => self,
        }
    }

    /// The title of the mode's menu.
    pub open spec fn menu_title(self) -> Seq<char> {
        match self {
            Mode::Paused { .. } => "Paused"@,
            Mode::MainMenu { .. } => "Hectic"@,
            Mode::Controls { .. } => "Controls"@,
            Mode::Stages { .. } => "Stages"@,
            Mode::StageComplete { .. } => "Stage Complete"@,
            Mode::StageLost { .. } => "Stage Lost"@,
            _ => Seq::empty(),
        }
    }

    /// The lines of the mode's menu.
    pub open spec fn menu_lines(self, controls: ControlsState) -> Seq<ItemView> {
        match self {
            Mode::Paused { .. } => seq![
                ItemView { text: "Resume"@, active: true },
                ItemView { text: "Main Menu"@, active: true },
            ],
            Mode::MainMenu { .. } => seq![
                ItemView { text: "Play"@, active: true },
                ItemView { text: "Controls"@, active: true },
                ItemView { text: "Quit"@, active: true },
            ],
            Mode::Controls { .. } => controls.lines(),
            Mode::Stages { multiplayer, .. } => seq![
                ItemView { text: "Stage One"@, active: true },
                ItemView { text: "Stage Two"@, active: true },
                multiplayer_line(multiplayer),
                ItemView { text: "Back"@, active: true },
            ],
            Mode::StageComplete { .. } => seq![
                ItemView { text: "Next Stage"@, active: true },
                ItemView { text: "Main Menu"@, active: true },
            ],
            Mode::StageLost { .. } => seq![ItemView { text: "Main Menu"@, active: true }],
            _ => Seq::empty(),
        }
    }

    /// Whether the cursor, where the mode has one, is on a line of its menu.
    pub open spec fn cursor_on_menu(self, controls: ControlsState) -> bool {
        self.cursor() matches Some(selected) ==> selected < self.menu_lines(controls).len()
    }

    /// The mode that follows when the line under the cursor is chosen. In
    /// the controls menu only the last line, `last_line`, does anything.
    pub open spec fn chosen(self, last_line: int) -> Mode {
        match self {
            Mode::Paused { selected, stage, state, multiplayer } => if selected == 0 {
                Mode::Playing { stage, state, multiplayer }
            } else {
                Mode::MainMenu { selected: 0 }
            },
            Mode::MainMenu { selected } => if selected == 0 {
                Mode::Stages { selected: 0, multiplayer: false }
            } else if selected == 1 {
                Mode::Controls { selected: 0 }
            } else {
                Mode::Quit
            },
            Mode::Stages { selected, multiplayer } => if selected == 0 {
                Mode::StartStage { stage: Stage::One, multiplayer }
            } else if selected == 1 {
                Mode::StartStage { stage: Stage::Two, multiplayer }
            } else if selected == 2 {
                Mode::Stages { selected, multiplayer: !multiplayer }
            } else {
                Mode::MainMenu { selected: 0 }
            },
            Mode::Controls { selected } => if selected == last_line {
                Mode::MainMenu { selected: 1 }
            } else {
                self
            },
            Mode::StageComplete { stage, selected, multiplayer } => if selected == 0 {
                match stage {
                    Stage::One => Mode::StartStage { stage: Stage::Two, multiplayer },
                    Stage::Two => self,
                }
            } else {
                Mode::MainMenu { selected: 0 }
            },
            Mode::StageLost { .. } => Mode::MainMenu { selected: 0 },
            _ => self,
        }
    }

    /// The menu of the mode, for the modes that show one. The menu's cursor
    /// is the mode's: where it is left, the mode's cursor is.
    pub fn as_menu(&mut self, ctrl_state: &ControlsState) -> (r: Option<Menu<'_>>)
        ensures
            old(self).cursor() is Some <==> r is Some,
            r is None ==> *final(self) == *old(self),
            r matches Some(menu) ==> {
                &&& menu.title@ == old(self).menu_title()
                &&& item_views(menu.items@) == old(self).menu_lines(*ctrl_state)
                &&& Some(*menu.selected) == old(self).cursor()
                &&& *final(self) == old(self).with_cursor(*final(menu.selected))
            },
    {
        match self {
            Mode::Paused { selected, .. } => {
                let mut items: Vec<Item> = Vec::new();
                items.push(Item::new("Resume"));
                items.push(Item::new("Main Menu"));
                assert(item_views(items@) =~= old(self).menu_lines(*ctrl_state));
                Some(Menu { title: "Paused", items, selected })
            },
            Mode::MainMenu { selected } => {
                let mut items: Vec<Item> = Vec::new();
                items.push(Item::new("Play"));
                items.push(Item::new("Controls"));
                items.push(Item::new("Quit"));
                assert(item_views(items@) =~= old(self).menu_lines(*ctrl_state));
                Some(Menu { title: "Hectic", items, selected })
            },
            Mode::Stages { selected, multiplayer } => {
                let mut items: Vec<Item> = Vec::new();
                items.push(Item::new("Stage One"));
                items.push(Item::new("Stage Two"));
                if *multiplayer {
                    items.push(Item::new("Players: Two"));
                } else {
                    items.push(Item::new("Players: One"));
                }
                items.push(Item::new("Back"));
                assert(item_views(items@) =~= old(self).menu_lines(*ctrl_state));
                Some(Menu { title: "Stages", items, selected })
            },
            Mode::Controls { selected } => Some(
                Menu { title: "Controls", items: ctrl_state.as_items(), selected },
            ),
            Mode::StageComplete { selected, .. } => {
                let mut items: Vec<Item> = Vec::new();
                items.push(Item::new("Next Stage"));
                items.push(Item::new("Main Menu"));
                assert(item_views(items@) =~= old(self).menu_lines(*ctrl_state));
                Some(Menu { title: "Stage Complete", items, selected })
            },
            Mode::StageLost { selected, .. } => {
                let mut items: Vec<Item> = Vec::new();
                items.push(Item::new("Main Menu"));
                assert(item_views(items@) =~= old(self).menu_lines(*ctrl_state));
                Some(Menu { title: "Stage Lost", items, selected })
            },
            _ => None,
        }
    }
}

/// A bullet that a system has asked for: where it starts, what it looks like,
/// its pace, and the direction it is to fly in.
#[derive(Clone, Copy, Debug, PartialEq, Eq, Structural)]
pub struct BulletToBeSpawned {
    pub pos: Vec2,
    pub image: Image,
    pub speed: i32,
    pub aim: Aim,
    pub colour: Option<ColourBullets>,
    pub enemy: bool,
}

/// A direction of flight. Angles are in microradians and grow from the
/// positive x axis towards the positive y axis.
#[derive(Clone, Copy, Debug, PartialEq, Eq, Structural)]
pub enum Aim {
    /// At an angle of the plane.
    Heading(i64),
    /// Along the bearing from the bullet's start to `target`, turned by
    /// `offset`.
    Towards { target: Vec2, offset: i64 },
}

/// The bullets asked for in this frame and not yet made.
pub struct BulletSpawner(pub Vec<BulletToBeSpawned>);

impl Default for BulletSpawner {
    fn default() -> (r: BulletSpawner)
        ensures
            r.0@ == Seq::<BulletToBeSpawned>::empty(),
    {
        BulletSpawner(Vec::new())
    }
}

/// A contact between a friendly and an enemy entity.
#[derive(Clone, Copy, Debug, PartialEq, Eq, Structural)]
pub struct Damage {
    pub friendly: Entity,
    pub enemy: Entity,
    pub position: Vec2,
}

/// The contacts found in this frame and not yet resolved.
pub struct DamageTracker(pub Vec<Damage>);

impl Default for DamageTracker {
    fn default() -> (r: DamageTracker)
        ensures
            r.0@ == Seq::<Damage>::empty(),
    {
        DamageTracker(Vec::new())
    }
}

/// Where the players are in this frame.
pub struct PlayerPositions(pub Vec<Vec2>);

impl Default for PlayerPositions {
    fn default() -> (r: PlayerPositions)
        ensures
            r.0@ == Seq::<Vec2>::empty(),
    {
        PlayerPositions(Vec::new())
    }
}

/// Whether `p` lies on the screen.
pub open spec fn on_field(p: Vec2) -> bool {
    0 <= p.x < crate::WIDTH && 0 <= p.y < crate::HEIGHT
}

impl PlayerPositions {
    /// Whether `target` is a point that `random` may hand out: the position
    /// of a player, or any point of the screen when there is no player.
    pub open spec fn admits(&self, target: Vec2) -> bool {
        if self.0@.len() == 0 {
            on_field(target)
        } else {
            self.0@.contains(target)
        }
    }

    /// The position of one of the players, each being as likely; without
    /// players, a point of the screen.
    pub fn random(&self, rng: &mut ThreadRng) -> (r: Vec2)
        ensures
            self.admits(r),
    {
        if self.0.len() == 0 {
            let x: u64 = gen_range(rng, 0, crate::WIDTH as u64);
            let y: u64 = gen_range(rng, 0, crate::HEIGHT as u64);
            return Vec2::new(x as i32, y as i32);
        }
        let index: u64 = gen_range(rng, 0, self.0.len() as u64);
        self.0[index as usize]
    }
}

} // verus!
