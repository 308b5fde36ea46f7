use vstd::prelude::*;

use crate::component::CharacterState;
use crate::game::GameMode;

verus! {

/// The keys that the game reacts to; every other key is `Other`.
#[derive(Clone, Copy, Debug, PartialEq, Eq, Structural)]
pub enum KeyCode {
    KeyW,
    ArrowUp,
    KeyA,
    ArrowLeft,
    KeyS,
    ArrowDown,
    KeyD,
    ArrowRight,
    Space,
    KeyX,
    Escape,
    Other,
}

/// Whether a key went down or up.
#[derive(Clone, Copy, Debug, PartialEq, Eq, Structural)]
pub enum ElementState {
    Pressed,
    Released,
}

/// A key going down or up.
#[derive(Clone, Copy, Debug, PartialEq, Eq, Structural)]
pub struct KeyEvent {
    pub state: ElementState,
    pub physical_key: KeyCode,
}

/// Which of the movement keys are held.
#[derive(Clone, Copy, Debug, PartialEq, Eq, Structural)]
pub struct InputHandler {
    pub up_pressed: bool,
    pub down_pressed: bool,
    pub left_pressed: bool,
    pub right_pressed: bool,
}

/// A change to make to each controllable character: its state (for those
/// that may jump) and, if given, whether its sprite is drawn mirrored.
#[derive(Clone, Copy, Debug, PartialEq, Eq, Structural)]
pub struct CharacterUpdate {
    pub character_state: CharacterState,
    pub is_flipped: Option<bool>,
}

/// What a key event asks of the rest of the game: the character updates,
/// in order, and the sign whose popup opens, if any.
pub struct KeyResponse {
    pub character_updates: Vec<CharacterUpdate>,
    pub popup_sign: Option<usize>,
}

pub open spec fn is_up_key(k: KeyCode) -> bool {
    k == KeyCode::KeyW || k == KeyCode::ArrowUp
}

pub open spec fn is_left_key(k: KeyCode) -> bool {
    k == KeyCode::KeyA || k == KeyCode::ArrowLeft
}

pub open spec fn is_down_key(k: KeyCode) -> bool {
    k == KeyCode::KeyS || k == KeyCode::ArrowDown
}

pub open spec fn is_right_key(k: KeyCode) -> bool {
    k == KeyCode::KeyD || k == KeyCode::ArrowRight
}

/// The last sign that is in range, if any.
pub open spec fn last_in_range(signs: Seq<bool>) -> Option<int>
    decreases signs.len(),
{
    if signs.len() == 0 {
        None
    } else if signs.last() {
        Some(signs.len() - 1)
    } else {
        last_in_range(signs.drop_last())
    }
}

/// The held keys after an event: a popup releases all of them; otherwise
/// a press holds the movement key pressed and a release lets it go.
pub open spec fn next_handler(h: InputHandler, mode: GameMode, event: KeyEvent) -> InputHandler {
    let k = event.physical_key;
    match mode {
        GameMode::POPUP => InputHandler {
            up_pressed: false,
            down_pressed: false,
            left_pressed: false,
            right_pressed: false,
        },
        GameMode::STANDARD => match event.state {
            ElementState::Pressed => InputHandler {
                up_pressed: h.up_pressed || is_up_key(k),
                down_pressed: h.down_pressed || is_down_key(k),
                left_pressed: h.left_pressed || is_left_key(k),
                right_pressed: h.right_pressed || is_right_key(k),
            },
            ElementState::Released => InputHandler {
                up_pressed: h.up_pressed && !is_up_key(k),
                down_pressed: h.down_pressed && !is_down_key(k),
                left_pressed: h.left_pressed && !is_left_key(k),
                right_pressed: h.right_pressed && !is_right_key(k),
            },
        },
    }
}

/// The sign whose popup an event opens: pressing X outside a popup opens
/// the last sign in range.
pub open spec fn next_popup(mode: GameMode, event: KeyEvent, signs: Seq<bool>) -> Option<int> {
    if mode == GameMode::STANDARD && event.state == ElementState::Pressed && event.physical_key
        == KeyCode::KeyX {
        last_in_range(signs)
    } else {
        None
    }
}

/// The game mode after an event: Escape closes a popup, and opening a
/// sign's popup enters one.
pub open spec fn next_mode(mode: GameMode, event: KeyEvent, signs: Seq<bool>) -> GameMode {
    match mode {
        GameMode::POPUP => if event.state == ElementState::Pressed && event.physical_key
            == KeyCode::Escape {
            GameMode::STANDARD
        } else {
            GameMode::POPUP
        },
        GameMode::STANDARD => if next_popup(mode, event, signs) is Some {
            GameMode::POPUP
        } else {
            GameMode::STANDARD
        },
    }
}

/// The character updates that an event asks for, in order: in a popup the
/// characters stand idle; otherwise pressing left or right makes them move
/// (facing that way), and when neither left nor right is then held they
/// stand idle.
pub open spec fn next_updates(h: InputHandler, mode: GameMode, event: KeyEvent) -> Seq<
    CharacterUpdate,
> {
    let idle = CharacterUpdate { character_state: CharacterState::IDLE, is_flipped: None };
    match mode {
        GameMode::POPUP => seq![idle],
        GameMode::STANDARD => {
            let k = event.physical_key;
            let pressed = event.state == ElementState::Pressed;
            let moving = if pressed && is_left_key(k) {
                seq![CharacterUpdate { character_state: CharacterState::MOVE, is_flipped: Some(false) }]
            } else if pressed && is_right_key(k) {
                seq![CharacterUpdate { character_state: CharacterState::MOVE, is_flipped: Some(true) }]
            } else {
                Seq::empty()
            };
            let after = next_handler(h, mode, event);
            if !after.left_pressed && !after.right_pressed {
                moving.push(idle)
            } else {
                moving
            }
        },
    }
}

impl InputHandler {
    /// No key held.
    pub fn new() -> (h: Self)
        ensures
            !h.up_pressed && !h.down_pressed && !h.left_pressed && !h.right_pressed,
    {
        InputHandler {
            up_pressed: false,
            down_pressed: false,
            left_pressed: false,
            right_pressed: false,
        }
    }

    /// Reacts to a key event in the given game mode; `signs_in_range` tells,
    /// for each sign, whether the player is near enough to read it.
    pub fn handle_key_state(
        &mut self,
        event: &KeyEvent,
        game_mode: &mut GameMode,
        signs_in_range: &[bool],
    ) -> (response: KeyResponse)
        ensures
            *final(self) == next_handler(*old(self), *old(game_mode), *event),
            *final(game_mode) == next_mode(*old(game_mode), *event, signs_in_range@),
            response.character_updates@ == next_updates(*old(self), *old(game_mode), *event),
            match response.popup_sign {
                Some(i) => next_popup(*old(game_mode), *event, signs_in_range@) == Some(i as int),
                None => next_popup(*old(game_mode), *event, signs_in_range@) is None,
            },
    {
        let idle = CharacterUpdate { character_state: CharacterState::IDLE, is_flipped: None };
        let mut updates: Vec<CharacterUpdate> = Vec::new();
        let mut popup_sign: Option<usize> = None;
        match *game_mode {
            GameMode::POPUP => {
                updates.push(idle);
                self.up_pressed = false;
                self.left_pressed = false;
                self.right_pressed = false;
                self.down_pressed = false;
                if event.state == ElementState::Pressed && event.physical_key == KeyCode::Escape {
                    *game_mode = GameMode::STANDARD;
                }
            },
            GameMode::STANDARD => {
                let k = event.physical_key;
                match event.state {
                    ElementState::Pressed => match k {
                        KeyCode::KeyW | KeyCode::ArrowUp => {
                            self.up_pressed = true;
                        },
                        KeyCode::KeyA | KeyCode::ArrowLeft => {
                            self.left_pressed = true;
                            updates.push(
                                CharacterUpdate {
                                    character_state: CharacterState::MOVE,
                                    is_flipped: Some(false),
                                },
                            );
                        },
                        KeyCode::KeyS | KeyCode::ArrowDown => {
                            self.down_pressed = true;
                        },
                        KeyCode::KeyD | KeyCode::ArrowRight => {
                            self.right_pressed = true;
                            updates.push(
                                CharacterUpdate {
                                    character_state: CharacterState::MOVE,
                                    is_flipped: Some(true),
                                },
                            );
                        },
                        KeyCode::KeyX => {
                            let mut i: usize = 0;
                            while i < signs_in_range.len()
                                invariant
                                    i <= signs_in_range@.len(),
                                    match popup_sign {
                                        Some(j) => last_in_range(signs_in_range@.take(i as int))
                                            == Some(j as int),
                                        None => last_in_range(
                                            signs_in_range@.take(i as int),
                                        ) is None,
                                    },
                                    *game_mode == (if popup_sign is Some {
                                        GameMode::POPUP
                                    } else {
                                        GameMode::STANDARD
                                    }),
                                decreases signs_in_range@.len() - i,
                            {
                                assert(signs_in_range@.take(i + 1).drop_last() =~= signs_in_range@.take(
                                    i as int,
                                ));
                                if signs_in_range[i] {
                                    popup_sign = Some(i);
                                    *game_mode = GameMode::POPUP;
                                }
                                i = i + 1;
                            }
                            assert(signs_in_range@.take(i as int) =~= signs_in_range@);
                        },
                        _ => {},
                    },
                    ElementState::Released => match k {
                        KeyCode::KeyW | KeyCode::ArrowUp => {
                            self.up_pressed = false;
                        },
                        KeyCode::KeyA | KeyCode::ArrowLeft => {
                            self.left_pressed = false;
                        },
                        KeyCode::KeyS | KeyCode::ArrowDown => {
                            self.down_pressed = false;
                        },
                        KeyCode::KeyD | KeyCode::ArrowRight => {
                            self.right_pressed = false;
                        },
                        _ => {},
                    },
                }
                if !self.left_pressed && !self.right_pressed {
                    updates.push(idle);
                }
            },
        }
        KeyResponse { character_updates: updates, popup_sign }
    }
}

/// Law: outside a popup, pressing a movement key and then releasing it
/// leaves that key not held and every other key as it was.
pub proof fn lemma_press_then_release(h: InputHandler, key: KeyCode)
    ensures
        ({
            let press = KeyEvent { state: ElementState::Pressed, physical_key: key };
            let release = KeyEvent { state: ElementState::Released, physical_key: key };
            let after = next_handler(
                next_handler(h, GameMode::STANDARD, press),
                GameMode::STANDARD,
                release,
            );
            &&& after.up_pressed == (h.up_pressed && !is_up_key(key))
            &&& after.down_pressed == (h.down_pressed && !is_down_key(key))
            &&& after.left_pressed == (h.left_pressed && !is_left_key(key))
            &&& after.right_pressed == (h.right_pressed && !is_right_key(key))
        }),
{
}

/// Law: while a popup is shown every key event lets go of all keys and
/// leaves the characters idle, and only pressing Escape closes the popup.
pub proof fn lemma_popup_holds_player(h: InputHandler, event: KeyEvent, signs: Seq<bool>)
    ensures
        ({
            let after = next_handler(h, GameMode::POPUP, event);
            &&& !after.up_pressed && !after.down_pressed && !after.left_pressed
                && !after.right_pressed
            &&& next_updates(h, GameMode::POPUP, event) == seq![
                CharacterUpdate { character_state: CharacterState::IDLE, is_flipped: None },
            ]
            &&& (next_mode(GameMode::POPUP, event, signs) == GameMode::STANDARD <==> (event.state
                == ElementState::Pressed && event.physical_key == KeyCode::Escape))
        }),
{
}

/// Law: outside a popup, once neither left nor right is held after an
/// event, the last update of that event makes the characters idle.
pub proof fn lemma_idle_when_not_moving(h: InputHandler, event: KeyEvent)
    requires
        !next_handler(h, GameMode::STANDARD, event).left_pressed,
        !next_handler(h, GameMode::STANDARD, event).right_pressed,
    ensures
        next_updates(h, GameMode::STANDARD, event).len() > 0,
        next_updates(h, GameMode::STANDARD, event).last() == (CharacterUpdate {
            character_state: CharacterState::IDLE,
            is_flipped: None,
        }),
{
}

/// Law: a sign's popup opens only for a sign that is in range.
pub proof fn lemma_popup_sign_in_range(mode: GameMode, event: KeyEvent, signs: Seq<bool>)
    ensures
        next_popup(mode, event, signs) matches Some(i) ==> 0 <= i < signs.len() && signs[i],
    decreases signs.len(),
{
    if signs.len() > 0 && !signs.last() && next_popup(mode, event, signs) is Some {
        lemma_popup_sign_in_range(mode, event, signs.drop_last());
    }
}

/// Law: outside a popup, pressing W or the up arrow holds up, A or the left
/// arrow holds left, S or the down arrow holds down, and D or the right
/// arrow holds right; releasing one of them lets go of that direction; any
/// other key leaves the held keys as they were.
pub proof fn lemma_keys_drive_directions(h: InputHandler, key: KeyCode)
    ensures
        ({
            let after = next_handler(
                h,
                GameMode::STANDARD,
                KeyEvent { state: ElementState::Pressed, physical_key: key },
            );
            &&& after.up_pressed == (h.up_pressed || key == KeyCode::KeyW || key == KeyCode::ArrowUp)
            &&& after.left_pressed == (h.left_pressed || key == KeyCode::KeyA || key
                == KeyCode::ArrowLeft)
            &&& after.down_pressed == (h.down_pressed || key == KeyCode::KeyS || key
                == KeyCode::ArrowDown)
            &&& after.right_pressed == (h.right_pressed || key == KeyCode::KeyD || key
                == KeyCode::ArrowRight)
        }),
        ({
            let after = next_handler(
                h,
                GameMode::STANDARD,
                KeyEvent { state: ElementState::Released, physical_key: key },
            );
            &&& after.up_pressed == (h.up_pressed && key != KeyCode::KeyW && key != KeyCode::ArrowUp)
            &&& after.left_pressed == (h.left_pressed && key != KeyCode::KeyA && key
                != KeyCode::ArrowLeft)
            &&& after.down_pressed == (h.down_pressed && key != KeyCode::KeyS && key
                != KeyCode::ArrowDown)
            &&& after.right_pressed == (h.right_pressed && key != KeyCode::KeyD && key
                != KeyCode::ArrowRight)
        }),
{
}

/// Law: outside a popup, pressing A, D or an arrow to the side asks for
/// exactly one update, whatever was held before: the characters move,
/// mirrored when the key points right; they are not then made idle.
pub proof fn lemma_side_press_moves(h: InputHandler, key: KeyCode)
    requires
        key == KeyCode::KeyA || key == KeyCode::ArrowLeft || key == KeyCode::KeyD || key
            == KeyCode::ArrowRight,
    ensures
        next_updates(
            h,
            GameMode::STANDARD,
            KeyEvent { state: ElementState::Pressed, physical_key: key },
        ) == seq![
            CharacterUpdate {
                character_state: CharacterState::MOVE,
                is_flipped: Some(key == KeyCode::KeyD || key == KeyCode::ArrowRight),
            },
        ],
{
}

} // verus!
