//! The state of the program from frame to frame: the size of the screen, the
//! view on display and the clock. Times are seconds in fixed point.

use vstd::prelude::*;
use crate::fixed::{Vector2, ONE};
use crate::player::{frame, Intents, Player};
use crate::render::{Renderer, RendererType};
use crate::world::World;

verus! {

/// The views that the program can display.
#[derive(Clone, Copy, Debug, PartialEq, Eq, Structural)]
pub enum View {
    Editor,
    Minimap,
    FPS,
}

/// What the program keeps from frame to frame.
pub struct State {
    pub screen_width: i32,
    pub screen_height: i32,
    pub view: View,
    pub time_start: i64,
    pub delta_time: i64,
    /// The time of the last tick.
    pub last_tick_time: i64,
}

impl State {
    /// The state of a program that starts at time `now`: a screen of 1024 by
    /// 1024 pixels that shows the minimap.
    pub fn new(now: i64) -> (s: State)
        ensures
            s == (State {
                screen_width: 1024,
                screen_height: 1024,
                view: View::Minimap,
                time_start: now,
                delta_time: 0,
                last_tick_time: now,
            }),
    {
        State {
            screen_width: 1024,
            screen_height: 1024,
            view: View::Minimap,
            time_start: now,
            delta_time: 0,
            last_tick_time: now,
        }
    }

    /// The fixed tick of game time: tells whether a second or more has
    /// passed since the last tick, and if so makes `current_time` the time
    /// of the last tick.
    pub fn tick(&mut self, current_time: i64) -> (ticked: bool)
        ensures
            ticked == (current_time - old(self).last_tick_time >= ONE),
            *final(self) == (State {
                last_tick_time: if ticked {
                    current_time
                } else {
                    old(self).last_tick_time
                },
                ..*old(self)
            }),
    {
        if (current_time as i128) - (self.last_tick_time as i128) >= ONE as i128 {
            self.last_tick_time = current_time;
            true
        } else {
            false
        }
    }

    /// The renderer that shows a view.
    pub open spec fn renderer_of(view: View) -> RendererType {
        match view {
            View::Editor => RendererType::Editor,
            View::Minimap => RendererType::Minimap,
            View::FPS => RendererType::FPS,
        }
    }

    /// The update of one frame that took `frame_time`: the renderer is set
    /// to the one of the view on display, and in a view that shows the
    /// player, the player has a frame with `intents`. A view that the
    /// intents switch to is shown from the next update on.
    pub fn update<F: Fn(i64) -> Vector2>(
        &mut self,
        renderer: &mut Renderer,
        player: &mut Player,
        world: &World,
        frame_time: i64,
        intents: &Intents,
        direction_of: &F,
    )
        requires
            old(player).wf(),
            world.wf(),
            forall|angle: i64| call_requires(*direction_of, (angle,)),
        ensures
            final(player).wf(),
            final(renderer).render_t == State::renderer_of(old(self).view),
            old(self).view == View::Editor ==> {
                &&& *final(self) == (State { delta_time: frame_time, ..*old(self) })
                &&& *final(player) == *old(player)
                &&& final(renderer).camera == old(renderer).camera
            },
            old(self).view != View::Editor ==> frame(
                *old(player),
                *final(player),
                old(renderer).camera,
                final(renderer).camera,
                State { delta_time: frame_time, ..*old(self) },
                *final(self),
                world,
                *intents,
                direction_of,
            ),
    {
        self.delta_time = frame_time;
        match self.view {
            View::Editor => {
                renderer.render_t = RendererType::Editor;
            },
            View::Minimap => {
                renderer.render_t = RendererType::Minimap;
                player.input_update(&mut renderer.camera, self, world, intents, direction_of);
            },
            View::FPS => {
                renderer.render_t = RendererType::FPS;
                player.input_update(&mut renderer.camera, self, world, intents, direction_of);
            },
        }
    }

    /// Puts `view` on display.
    pub fn change_view(&mut self, view: View)
        ensures
            *final(self) == (State { view, ..*old(self) }),
    {
        match view {
            View::Editor => self.view = View::Editor,
            View::Minimap => self.view = View::Minimap,
            View::FPS => self.view = View::FPS,
        }
    }
}

} // verus!
