//! The player character's intent: which control operations the pressed
//! keys and the body's contacts lead to, tick by tick.
use vstd::prelude::*;
use crate::config::MILLIS;
use crate::map::TileMap;
use crate::moving_object::{
    dropped, jumped, moved_left, moved_right, physics_step, stopped, with_gravity, MovingObject,
};

verus! {

/// What the character is doing.
#[derive(Clone, Copy, Debug, PartialEq, Eq, Structural)]
pub enum CharacterState {
    Stand,
    Walk,
    Jump,
    GrabLedge,
}

/// The animation sequence the character shows.
#[derive(Clone, Copy, Debug, PartialEq, Eq, Structural)]
pub enum Animation {
    Idle,
    Run,
    Jumping,
}

/// Keys held down, the state, the animation and the facing of the
/// character.
#[derive(Clone, Copy, Debug, PartialEq, Eq, Structural)]
pub struct Character {
    pub pressed_left: bool,
    pub pressed_right: bool,
    pub pressed_jump: bool,
    pub pressed_drop: bool,
    pub current_state: CharacterState,
    pub current_animator: Animation,
    pub turned_back: bool,
    pub box_size_x: i64,
    pub box_size_y: i64,
}

/// Standing: a drop key drops through a one-way platform; a walking key
/// starts a walk, else a jump key jumps.
pub open spec fn stand_intent(c: Character, o: MovingObject) -> (Character, MovingObject) {
    let o1 = if c.pressed_drop {
        dropped(o)
    } else {
        o
    };
    if c.pressed_left || c.pressed_right {
        (Character { current_animator: Animation::Idle, current_state: CharacterState::Walk, ..c }, o1)
    } else if c.pressed_jump {
        (Character { current_animator: Animation::Idle, current_state: CharacterState::Jump, ..c }, jumped(o1))
    } else {
        (Character { current_animator: Animation::Idle, current_state: CharacterState::Stand, ..c }, o1)
    }
}

/// Walking: accelerate toward the pressed side unless pushing a wall there,
/// stand when no side is pressed, and jump on the jump key.
pub open spec fn walk_intent(c: Character, o: MovingObject) -> (Character, MovingObject) {
    let (c1, o1) = if c.pressed_right {
        (
            Character { current_animator: Animation::Run, turned_back: false, ..c },
            if o.pushes_right_wall {
                stopped(o)
            } else {
                moved_right(o, 100)
            },
        )
    } else if c.pressed_left {
        (
            Character { current_animator: Animation::Run, turned_back: true, ..c },
            if o.pushes_left_wall {
                stopped(o)
            } else {
                moved_left(o, 100)
            },
        )
    } else {
        (Character { current_animator: Animation::Run, current_state: CharacterState::Stand, ..c }, o)
    };
    if c.pressed_jump {
        (Character { current_state: CharacterState::Jump, ..c1 }, jumped(o1))
    } else {
        (c1, o1)
    }
}

/// In the air: landing ends the jump with normal gravity; otherwise steer at
/// seventy percent and fall fast.
pub open spec fn jump_intent(c: Character, o: MovingObject) -> (Character, MovingObject) {
    if o.on_ground {
        (
            Character { current_animator: Animation::Jumping, current_state: CharacterState::Stand, ..c },
            with_gravity(o, false),
        )
    } else {
        let (c1, o1) = if c.pressed_right {
            (
                Character { current_animator: Animation::Jumping, turned_back: false, ..c },
                if o.pushes_left_wall {
                    stopped(o)
                } else {
                    moved_right(o, 70)
                },
            )
        } else if c.pressed_left {
            (
                Character { current_animator: Animation::Jumping, turned_back: true, ..c },
                if o.pushes_left_wall {
                    stopped(o)
                } else {
                    moved_left(o, 70)
                },
            )
        } else {
            (Character { current_animator: Animation::Jumping, ..c }, o)
        };
        (c1, with_gravity(o1, true))
    }
}

/// The intent of the current state.
pub open spec fn intent(c: Character, o: MovingObject) -> (Character, MovingObject) {
    match c.current_state {
        CharacterState::Stand => stand_intent(c, o),
        CharacterState::Walk => walk_intent(c, o),
        CharacterState::Jump => jump_intent(c, o),
        CharacterState::GrabLedge => (c, o),
    }
}


/// An enemy: it only stands, showing its idle animation, and falls with
/// the physics.
#[derive(Clone, Copy, Debug, PartialEq, Eq, Structural)]
pub struct Enemy {
    pub current_animator: Animation,
    pub turned_back: bool,
    pub box_size_x: i64,
    pub box_size_y: i64,
}

impl Enemy {
    pub fn new(box_size_x: i64, box_size_y: i64) -> (r: Enemy)
        ensures
            r == (Enemy { current_animator: Animation::Idle, turned_back: false, box_size_x, box_size_y }),
    {
        Enemy { current_animator: Animation::Idle, turned_back: false, box_size_x, box_size_y }
    }

    /// One tick of the enemy: it stands idle, and its body advances by
    /// `delta` milliseconds when that step stays in range. Returns whether
    /// the body was advanced.
    pub fn character_update(&mut self, delta: i64, map: &TileMap, moving_object: &mut MovingObject) -> (stepped: bool)
        requires
            map.wf(),
        ensures
            *final(self) == (Enemy { current_animator: Animation::Idle, ..*old(self) }),
            stepped == (old(moving_object).wf() && 0 <= delta <= MILLIS && old(moving_object).step_fits(delta as int)),
            stepped ==> *final(moving_object) == physics_step(*old(moving_object), delta as int, *map),
            !stepped ==> *final(moving_object) == *old(moving_object),
    {
        self.current_animator = Animation::Idle;
        if moving_object.can_step(delta) {
            moving_object.update_physics(delta, map);
            true
        } else {
            false
        }
    }
}

impl Character {
    pub fn new(box_size_x: i64, box_size_y: i64) -> (r: Character)
        ensures
            r == (Character {
                pressed_left: false,
                pressed_right: false,
                pressed_jump: false,
                pressed_drop: false,
                current_state: CharacterState::Stand,
                current_animator: Animation::Idle,
                turned_back: false,
                box_size_x,
                box_size_y,
            }),
    {
        Character {
            pressed_left: false,
            pressed_right: false,
            pressed_jump: false,
            pressed_drop: false,
            current_state: CharacterState::Stand,
            current_animator: Animation::Idle,
            turned_back: false,
            box_size_x,
            box_size_y,
        }
    }

    fn handle_stand(&mut self, moving_object: &mut MovingObject)
        requires
            old(moving_object).wf(),
        ensures
            (*final(self), *final(moving_object)) == stand_intent(*old(self), *old(moving_object)),
    {
        self.current_animator = Animation::Idle;
        if !moving_object.on_ground {
            self.current_state = CharacterState::Jump;
        }
        if self.pressed_drop {
            moving_object.drop();
        }
        if self.pressed_left || self.pressed_right {
            self.current_state = CharacterState::Walk;
        } else if self.pressed_jump {
            moving_object.jump();
            self.current_state = CharacterState::Jump;
        } else {
            self.current_state = CharacterState::Stand;
        }
    }

    fn handle_walk(&mut self, moving_object: &mut MovingObject)
        requires
            old(moving_object).wf(),
        ensures
            (*final(self), *final(moving_object)) == walk_intent(*old(self), *old(moving_object)),
    {
        self.current_animator = Animation::Run;
        if self.pressed_right {
            self.turned_back = false;
            if moving_object.pushes_right_wall {
                moving_object.stop();
            } else {
                moving_object.move_right(100);
            }
        } else if self.pressed_left {
            self.turned_back = true;
            if moving_object.pushes_left_wall {
                moving_object.stop();
            } else {
                moving_object.move_left(100);
            }
        } else {
            self.current_state = CharacterState::Stand;
        }
        if self.pressed_jump {
            moving_object.jump();
            self.current_state = CharacterState::Jump;
        }
    }

    fn handle_jump(&mut self, moving_object: &mut MovingObject)
        requires
            old(moving_object).wf(),
        ensures
            (*final(self), *final(moving_object)) == jump_intent(*old(self), *old(moving_object)),
    {
        self.current_animator = Animation::Jumping;
        if moving_object.on_ground {
            moving_object.stop_falling();
            self.current_state = CharacterState::Stand;
            return;
        }
        if self.pressed_right {
            self.turned_back = false;
            if moving_object.pushes_left_wall {
                moving_object.stop();
            } else {
                moving_object.move_right(70);
            }
        } else if self.pressed_left {
            self.turned_back = true;
            if moving_object.pushes_left_wall {
                moving_object.stop();
            } else {
                moving_object.move_left(70);
            }
        }
        moving_object.falling();
    }

    /// One tick of the character: applies the intent of its state to the
    /// body, then advances the body by `delta` milliseconds when that step
    /// stays in range. Returns whether the body was advanced.
    pub fn character_update(&mut self, delta: i64, map: &TileMap, moving_object: &mut MovingObject) -> (stepped: bool)
        requires
            old(moving_object).wf(),
            map.wf(),
        ensures
            ({
                let (c1, o1) = intent(*old(self), *old(moving_object));
                &&& *final(self) == c1
                &&& stepped == (o1.wf() && 0 <= delta <= MILLIS && o1.step_fits(delta as int))
                &&& stepped ==> *final(moving_object) == physics_step(o1, delta as int, *map)
                &&& !stepped ==> *final(moving_object) == o1
            }),
    {
        match self.current_state {
            CharacterState::Stand => self.handle_stand(moving_object),
            CharacterState::Walk => self.handle_walk(moving_object),
            CharacterState::Jump => self.handle_jump(moving_object),
            CharacterState::GrabLedge => {},
        }
        if moving_object.can_step(delta) {
            moving_object.update_physics(delta, map);
            true
        } else {
            false
        }
    }
}

} // verus!
