use vstd::prelude::*;
use crate::cutline::CutLine;
use crate::geom::{Rect, Segment};
use crate::physics::{advance_spec, apply_force_spec, Message, Vec2, MESSAGE_MASS};
use crate::rng::random_in_range;

verus! {

/// Largest magnitude of one wind component applied per frame.
pub const WIND_MAX: i64 = 5;

/// The whole animation state: the hatched message and the cut line. It is
/// owned by the frame loop, mutated by the update phase and read by the
/// draw phase.
pub struct Model {
    pub message: Message,
    pub cut_line: CutLine,
}

impl Model {
    /// The starting state: the message at rest on the given hatched path,
    /// the cut line sampled inside the window.
    pub fn init(path: Vec<Segment>, win_rect: &Rect) -> (m: Model)
        requires
            win_rect.wf(),
        ensures
            m.message.wf(),
            m.message.path == path,
            m.message.momentum == (Vec2 { x: 0, y: 0 }),
            m.message.net_force == (Vec2 { x: 0, y: 0 }),
            m.message.mass == MESSAGE_MASS,
            m.cut_line.in_rect(*win_rect),
    {
        Model { message: Message::new(path), cut_line: CutLine::new(win_rect) }
    }

    /// One frame of animation: a random wind impulse with components within
    /// `WIND_MAX` is accumulated and integrated, and the cut line is
    /// resampled inside the window. Whatever the wind samples were, the new
    /// physical state is one advance after one applied force within the
    /// bound, and the path is untouched.
    pub fn update(&mut self, win_rect: &Rect)
        requires
            win_rect.wf(),
            i64::MIN + WIND_MAX <= old(self).message.net_force.x <= i64::MAX - WIND_MAX,
            i64::MIN + WIND_MAX <= old(self).message.net_force.y <= i64::MAX - WIND_MAX,
            i64::MIN + WIND_MAX <= old(self).message.momentum.x + old(self).message.net_force.x
                <= i64::MAX - WIND_MAX,
            i64::MIN + WIND_MAX <= old(self).message.momentum.y + old(self).message.net_force.y
                <= i64::MAX - WIND_MAX,
        ensures
            final(self).cut_line.in_rect(*win_rect),
            final(self).message.path == old(self).message.path,
            exists|wx: int, wy: int|
                -WIND_MAX <= wx <= WIND_MAX && -WIND_MAX <= wy <= WIND_MAX
                    && final(self).message.phys() == advance_spec(
                    apply_force_spec(old(self).message.phys(), wx, wy),
                ),
    {
        let wx = random_in_range(-WIND_MAX, WIND_MAX);
        let wy = random_in_range(-WIND_MAX, WIND_MAX);
        self.message.apply_force(Vec2 { x: wx, y: wy });
        self.message.advance();
        self.cut_line.update(win_rect);
        proof {
            assert(-WIND_MAX <= wx as int <= WIND_MAX && -WIND_MAX <= wy as int <= WIND_MAX
                && self.message.phys() == advance_spec(
                apply_force_spec(old(self).message.phys(), wx as int, wy as int),
            ));
        }
    }
}

} // verus!
