use vstd::prelude::*;

use crate::component::{CharacterState, Component};
use crate::sprite::{SheetPosition, SpriteSheet};
use crate::time::{max_nanos, Duration};

verus! {

broadcast use vstd::string::group_string_axioms;

/// A run of `sprite_count` consecutive sprites of a sheet, starting at
/// sheet index `start_index`, each shown for `per_sprite_duration`.
pub struct SpriteAnimation {
    pub animation_index: u32,
    pub sprite_count: u32,
    pub start_index: u32,
    pub per_sprite_duration: Duration,
    pub current_elapsed_time: Duration,
}

impl SpriteAnimation {
    /// The time elapsed in the current sprite once `delta` more has passed.
    pub open spec fn total_elapsed(&self, delta: Duration) -> int {
        (self.current_elapsed_time@ + delta@) as int
    }

    /// Whether `delta` more time moves the animation to its next sprite: the
    /// time in the current sprite then exceeds the time per sprite.
    pub open spec fn advances(&self, delta: Duration) -> bool {
        self.total_elapsed(delta) > self.per_sprite_duration@
    }

    /// The sprite index after `delta` more time.
    pub open spec fn next_index(&self, delta: Duration) -> int {
        if self.advances(delta) {
            (self.animation_index + 1) % (self.sprite_count as int)
        } else {
            self.animation_index as int
        }
    }

    /// The time in the current sprite after `delta` more time.
    pub open spec fn next_elapsed(&self, delta: Duration) -> int {
        if self.advances(delta) {
            self.total_elapsed(delta) - self.per_sprite_duration@
        } else {
            self.total_elapsed(delta)
        }
    }

    /// Whether `update(delta)` can run: the elapsed time stays within the
    /// range of `Duration`, and an advance has sprites to wrap around and room
    /// for the next index.
    pub open spec fn can_update(&self, delta: Duration) -> bool {
        &&& self.total_elapsed(delta) <= max_nanos()
        &&& self.advances(delta) ==> self.sprite_count > 0 && self.animation_index < u32::MAX
    }

    /// Whether `self` is `before` after `update(delta)`.
    pub open spec fn is_update_of(&self, before: SpriteAnimation, delta: Duration) -> bool {
        &&& self.animation_index == before.next_index(delta)
        &&& self.current_elapsed_time@ == before.next_elapsed(delta)
        &&& self.sprite_count == before.sprite_count
        &&& self.start_index == before.start_index
        &&& self.per_sprite_duration == before.per_sprite_duration
    }

    /// Lets `delta_time` pass: when the time in the current sprite then
    /// exceeds the time per sprite, one sprite's time is taken off and the
    /// animation moves to the next sprite, wrapping around after the last.
    pub fn update(&mut self, delta_time: Duration)
        requires
            old(self).can_update(delta_time),
        ensures
            final(self).is_update_of(*old(self), delta_time),
    {
        self.current_elapsed_time = self.current_elapsed_time.add(delta_time);
        if self.current_elapsed_time.gt(&self.per_sprite_duration) {
            self.current_elapsed_time = self.current_elapsed_time.sub(self.per_sprite_duration);
            self.animation_index = (self.animation_index + 1) % self.sprite_count;
        }
    }

    /// The sheet index of the sprite shown now.
    pub fn get_sheet_index(&self) -> (index: u32)
        requires
            self.start_index + self.animation_index <= u32::MAX,
        ensures
            index == self.start_index + self.animation_index,
    {
        self.start_index + self.animation_index
    }
}

/// Law: an animation whose sprite index is within its sprites keeps it
/// within them after any update, so the sheet index it shows stays in
/// `start_index .. start_index + sprite_count`.
pub proof fn lemma_index_stays_in_range(animation: SpriteAnimation, delta: Duration)
    requires
        animation.can_update(delta),
        animation.animation_index < animation.sprite_count,
    ensures
        0 <= animation.next_index(delta) < animation.sprite_count,
        animation.start_index <= animation.start_index + animation.next_index(delta)
            < animation.start_index + animation.sprite_count,
{
}

/// Law: an update loses no time: the time left in the current sprite plus
/// the time of the sprite passed over (if any) is the time before plus
/// `delta`; and the time left never exceeds the time per sprite when it
/// did not before.
pub proof fn lemma_time_is_kept(animation: SpriteAnimation, delta: Duration)
    requires
        animation.can_update(delta),
    ensures
        animation.next_elapsed(delta) + (if animation.advances(delta) {
            animation.per_sprite_duration@ as int
        } else {
            0
        }) == animation.current_elapsed_time@ + delta@,
        animation.next_elapsed(delta) >= 0,
        delta@ <= animation.per_sprite_duration@ && animation.current_elapsed_time@
            <= animation.per_sprite_duration@ ==> animation.next_elapsed(delta)
            <= animation.per_sprite_duration@,
{
}

/// Law: an update moves to the next sprite exactly when the time spent in
/// the current one, `delta` included, exceeds the time per sprite; the next
/// sprite is the one after it in the run, and after the last one the first.
/// So every sprite of the run is shown in turn.
pub proof fn lemma_sprites_shown_in_turn(animation: SpriteAnimation, delta: Duration)
    requires
        animation.can_update(delta),
        animation.animation_index < animation.sprite_count,
    ensures
        animation.current_elapsed_time@ + delta@ <= animation.per_sprite_duration@
            ==> animation.next_index(delta) == animation.animation_index,
        animation.current_elapsed_time@ + delta@ > animation.per_sprite_duration@
            && animation.animation_index + 1 < animation.sprite_count
            ==> animation.next_index(delta) == animation.animation_index + 1,
        animation.current_elapsed_time@ + delta@ > animation.per_sprite_duration@
            && animation.animation_index + 1 == animation.sprite_count
            ==> animation.next_index(delta) == 0,
        animation.current_elapsed_time@ + delta@ > animation.per_sprite_duration@
            ==> animation.next_elapsed(delta) == animation.current_elapsed_time@ + delta@
            - animation.per_sprite_duration@,
        animation.current_elapsed_time@ + delta@ <= animation.per_sprite_duration@
            ==> animation.next_elapsed(delta) == animation.current_elapsed_time@ + delta@,
{
    if animation.animation_index + 1 < animation.sprite_count {
        vstd::arithmetic::div_mod::lemma_small_mod(
            (animation.animation_index + 1) as nat,
            animation.sprite_count as nat,
        );
    }
}

/// The animations of a character, one per character state at most.
pub struct SpriteAnimationControllerComponent {
    idle: Option<SpriteAnimation>,
    moving: Option<SpriteAnimation>,
    attack: Option<SpriteAnimation>,
}

impl SpriteAnimationControllerComponent {
    /// The animation kept for a state.
    pub closed spec fn slot(&self, state: CharacterState) -> Option<SpriteAnimation> {
        match state {
            CharacterState::IDLE => self.idle,
            CharacterState::MOVE => self.moving,
            CharacterState::ATTACK => self.attack,
        }
    }
}

impl View for SpriteAnimationControllerComponent {
    type V = Map<CharacterState, SpriteAnimation>;

    /// Each state that has an animation, with it.
    open spec fn view(&self) -> Map<CharacterState, SpriteAnimation> {
        Map::new(|s: CharacterState| self.slot(s) is Some, |s: CharacterState| self.slot(s)->0)
    }
}

impl Component for SpriteAnimationControllerComponent {
    /// This component reports the name `SpriteAnimationController`.
    fn name(&self) -> (name: String)
        ensures
            name@ == "SpriteAnimationController"@,
    {
        "SpriteAnimationController".to_string()
    }
}

impl SpriteAnimationControllerComponent {
    /// A controller without animations.
    pub fn new() -> (controller: Self)
        ensures
            controller@ == Map::<CharacterState, SpriteAnimation>::empty(),
    {
        let controller = SpriteAnimationControllerComponent { idle: None, moving: None, attack: None };
        assert(controller@ =~= Map::<CharacterState, SpriteAnimation>::empty());
        controller
    }

    /// Sets the animation of `state`, and gives back the one it had.
    pub fn insert(&mut self, state: CharacterState, animation: SpriteAnimation) -> (previous: Option<
        SpriteAnimation,
    >)
        ensures
            final(self)@ == old(self)@.insert(state, animation),
            previous == (if old(self)@.contains_key(state) {
                Some(old(self)@[state])
            } else {
                None
            }),
    {
        let previous = match state {
            CharacterState::IDLE => {
                let p = self.idle.take();
                self.idle = Some(animation);
                p
            },
            CharacterState::MOVE => {
                let p = self.moving.take();
                self.moving = Some(animation);
                p
            },
            CharacterState::ATTACK => {
                let p = self.attack.take();
                self.attack = Some(animation);
                p
            },
        };
        assert(self@ =~= old(self)@.insert(state, animation));
        previous
    }

    /// The animation of `state`, if it has one.
    pub fn get(&self, state: CharacterState) -> (animation: Option<&SpriteAnimation>)
        ensures
            match animation {
                Some(a) => self@.contains_key(state) && *a == self@[state],
                None => !self@.contains_key(state),
            },
    {
        match state {
            CharacterState::IDLE => self.idle.as_ref(),
            CharacterState::MOVE => self.moving.as_ref(),
            CharacterState::ATTACK => self.attack.as_ref(),
        }
    }
}

/// Advances the animations of characters.
pub struct AnimationSystem {}

impl AnimationSystem {
    /// Whether `animate` can run for a character in `state`: its animation
    /// for that state (if any) can update, the sheet index that follows fits,
    /// and the sheet can locate sprites.
    pub open spec fn can_animate<T>(
        controller: SpriteAnimationControllerComponent,
        state: CharacterState,
        sprite_sheet: SpriteSheet<T>,
        delta: Duration,
    ) -> bool {
        controller@.contains_key(state) ==> {
            let a = controller@[state];
            &&& a.can_update(delta)
            &&& a.start_index + a.next_index(delta) <= u32::MAX
            &&& sprite_sheet.can_locate()
        }
    }

    /// One character's step of the animation system: the animation that the
    /// character's state selects (if any) is updated by `delta_time`, and the
    /// cell of the sheet that it now shows is returned; without such an
    /// animation nothing changes and `None` is returned.
    pub fn animate<T>(
        controller: &mut SpriteAnimationControllerComponent,
        character_state: CharacterState,
        sprite_sheet: &SpriteSheet<T>,
        delta_time: Duration,
    ) -> (position: Option<SheetPosition>)
        requires
            Self::can_animate(*old(controller), character_state, *sprite_sheet, delta_time),
        ensures
            final(controller)@.dom() == old(controller)@.dom(),
            forall|s: CharacterState|
                s != character_state && #[trigger] old(controller)@.contains_key(s)
                    ==> final(controller)@[s] == old(controller)@[s],
            match position {
                Some(p) => {
                    let before = old(controller)@[character_state];
                    let index = before.start_index + before.next_index(delta_time);
                    &&& old(controller)@.contains_key(character_state)
                    &&& final(controller)@[character_state].is_update_of(before, delta_time)
                    &&& p.x == index % sprite_sheet.columns()
                    &&& p.y == index / sprite_sheet.columns()
                },
                None => !old(controller)@.contains_key(character_state) && final(controller)@
                    == old(controller)@,
            },
    {
        let slot = match character_state {
            CharacterState::IDLE => &mut controller.idle,
            CharacterState::MOVE => &mut controller.moving,
            CharacterState::ATTACK => &mut controller.attack,
        };
        match slot {
            Some(animation) => {
                animation.update(delta_time);
                let index = animation.get_sheet_index();
                let position = sprite_sheet.get_position_by_index(index);
                Some(position)
            },
            None => None,
        }
    }
}

} // verus!
