use vstd::prelude::*;

use crate::geom::{Vector, POS_SCALE};

verus! {

/// The frame rate shown is refreshed once every this many draws.
pub const FPS_UPDATE_CYCLES: u32 = 10;

/// A number to print, centred on `center`.
#[derive(Clone, Copy, Debug, PartialEq, Eq, Structural)]
pub struct HudText {
    pub value: i64,
    pub center: Vector,
}

/// The heads-up display: frame rate at the bottom left, lives at the top
/// left, score at the top right.
#[derive(Clone, Copy, Debug, PartialEq, Eq, Structural)]
pub struct HUD {
    pub draw_counter: u32,
    pub current_fps: u64,
}

/// The point at (`x`, `y`) world units.
pub open spec fn point(x: int, y: int) -> Vector {
    Vector { x: (x * POS_SCALE) as i64, y: (y * POS_SCALE) as i64 }
}

pub open spec fn hud_texts(fps: u64, lives: i32, score: i32) -> Seq<HudText> {
    seq![
        HudText {
            value: if fps > i64::MAX {
                i64::MAX
            } else {
                fps as i64
            },
            center: point(20, 587),
        },
        HudText { value: lives as i64, center: point(10, 20) },
        HudText { value: score as i64, center: point(730, 20) },
    ]
}

impl HUD {
    pub open spec fn wf(&self) -> bool {
        self.draw_counter < FPS_UPDATE_CYCLES && self.current_fps <= i64::MAX
    }

    pub fn new() -> (r: HUD)
        ensures
            r.draw_counter == 0,
            r.current_fps == 60,
            r.wf(),
    {
        HUD { draw_counter: 0, current_fps: 60 }
    }

    /// Counts one more draw, takes `fps_now` as the rate shown every
    /// `FPS_UPDATE_CYCLES` draws, and lists the three numbers to print.
    pub fn draw(&mut self, fps_now: u64, lives: i32, score: i32) -> (r: Vec<HudText>)
        requires
            old(self).wf(),
        ensures
            final(self).wf() || fps_now > i64::MAX,
            final(self).draw_counter == (old(self).draw_counter + 1) % (FPS_UPDATE_CYCLES as int),
            final(self).current_fps == if old(self).draw_counter + 1 == FPS_UPDATE_CYCLES {
                fps_now
            } else {
                old(self).current_fps
            },
            r@ == hud_texts(final(self).current_fps, lives, score),
    {
        self.draw_counter = self.draw_counter + 1;
        if self.draw_counter % FPS_UPDATE_CYCLES == 0 {
            self.draw_counter = 0;
            self.current_fps = fps_now;
        }
        let fps = if self.current_fps > i64::MAX as u64 {
            i64::MAX
        } else {
            self.current_fps as i64
        };
        let r = vec![
            HudText { value: fps, center: Vector { x: 20 * POS_SCALE, y: 587 * POS_SCALE } },
            HudText { value: lives as i64, center: Vector { x: 10 * POS_SCALE, y: 20 * POS_SCALE } },
            HudText { value: score as i64, center: Vector { x: 730 * POS_SCALE, y: 20 * POS_SCALE } },
        ];
        proof {
            assert(r@ =~= hud_texts(self.current_fps, lives, score));
        }
        r
    }
}

} // verus!
