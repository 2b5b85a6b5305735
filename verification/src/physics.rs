use vstd::prelude::*;
use crate::geom::Segment;
use vstd::arithmetic::div_mod::{
    lemma_fundamental_div_mod,
    lemma_fundamental_div_mod_converse,
    lemma_div_pos_is_pos,
    lemma_div_is_ordered_by_denominator,
    lemma_div_basics,
};
use vstd::arithmetic::mul::{lemma_mul_is_commutative, lemma_mul_unary_negation};

verus! {

/// A 2-D vector in integer units.
#[derive(Clone, Copy, PartialEq, Eq, Structural, Debug)]
pub struct Vec2 {
    pub x: i64,
    pub y: i64,
}

/// Mass of the animated message; positive, and never changed after creation.
pub const MESSAGE_MASS: i64 = 10;

/// Mathematical state of the integrator.
///
/// Velocity and acceleration are exact rationals whose denominator is the
/// mass, so both are carried scaled by the mass:
/// `momentum == mass * velocity` and `net_force == mass * acceleration`.
pub ghost struct Phys {
    pub momentum_x: int,
    pub momentum_y: int,
    pub net_force_x: int,
    pub net_force_y: int,
    pub mass: int,
}

/// Accumulating a force adds `force / mass` to the acceleration, which is
/// exactly adding the force itself to the pending net force.
pub open spec fn apply_force_spec(p: Phys, fx: int, fy: int) -> Phys {
    Phys { net_force_x: p.net_force_x + fx, net_force_y: p.net_force_y + fy, ..p }
}

/// One Euler step of unit time: velocity grows by the acceleration (momentum
/// by the net force), then the pending net force is cleared.
pub open spec fn advance_spec(p: Phys) -> Phys {
    Phys {
        momentum_x: p.momentum_x + p.net_force_x,
        momentum_y: p.momentum_y + p.net_force_y,
        net_force_x: 0,
        net_force_y: 0,
        ..p
    }
}

/// The hatched text path together with its physical state.
pub struct Message {
    pub path: Vec<Segment>,
    pub momentum: Vec2,
    pub net_force: Vec2,
    pub mass: i64,
}

impl Message {
    pub open spec fn wf(self) -> bool {
        self.mass > 0
    }

    pub open spec fn phys(self) -> Phys {
        Phys {
            momentum_x: self.momentum.x as int,
            momentum_y: self.momentum.y as int,
            net_force_x: self.net_force.x as int,
            net_force_y: self.net_force.y as int,
            mass: self.mass as int,
        }
    }

    /// A fresh message is at rest: zero velocity, no pending force.
    pub fn new(path: Vec<Segment>) -> (m: Message)
        ensures
            m.wf(),
            m.mass == MESSAGE_MASS,
            m.path == path,
            m.momentum == (Vec2 { x: 0, y: 0 }),
            m.net_force == (Vec2 { x: 0, y: 0 }),
    {
        Message {
            path,
            momentum: Vec2 { x: 0, y: 0 },
            net_force: Vec2 { x: 0, y: 0 },
            mass: MESSAGE_MASS,
        }
    }

    /// Accumulate a force: the acceleration grows by `force / mass`; earlier
    /// forces applied since the last advance are kept, not overwritten.
    pub fn apply_force(&mut self, force: Vec2)
        requires
            i64::MIN <= old(self).net_force.x + force.x <= i64::MAX,
            i64::MIN <= old(self).net_force.y + force.y <= i64::MAX,
        ensures
            final(self).phys() == apply_force_spec(
                old(self).phys(),
                force.x as int,
                force.y as int,
            ),
            final(self).path == old(self).path,
    {
        self.net_force.x = self.net_force.x + force.x;
        self.net_force.y = self.net_force.y + force.y;
    }

    /// One integration step: velocity grows by the accumulated acceleration,
    /// and the acceleration resets to zero.
    pub fn advance(&mut self)
        requires
            i64::MIN <= old(self).momentum.x + old(self).net_force.x <= i64::MAX,
            i64::MIN <= old(self).momentum.y + old(self).net_force.y <= i64::MAX,
        ensures
            final(self).phys() == advance_spec(old(self).phys()),
            final(self).path == old(self).path,
    {
        self.momentum.x = self.momentum.x + self.net_force.x;
        self.momentum.y = self.momentum.y + self.net_force.y;
        self.net_force.x = 0;
        self.net_force.y = 0;
    }

    /// The velocity in whole units: `Some` exactly when the mass divides
    /// both momentum components; the components multiplied by the mass give
    /// back the momentum.
    pub fn velocity(&self) -> (v: Option<Vec2>)
        requires
            self.wf(),
            self.momentum.x > i64::MIN,
            self.momentum.y > i64::MIN,
        ensures
            match v {
                Some(u) => u.x as int * self.mass == self.momentum.x && u.y as int * self.mass
                    == self.momentum.y,
                None => (forall|q: int| #[trigger] (q * self.mass) != self.momentum.x) || (forall|
                    q: int,
                | #[trigger] (q * self.mass) != self.momentum.y),
            },
    {
        let vx = div_exact(self.momentum.x, self.mass);
        let vy = div_exact(self.momentum.y, self.mass);
        match (vx, vy) {
            (Some(a), Some(b)) => Some(Vec2 { x: a, y: b }),
            _ => None,
        }
    }
}

/// Exact quotient of `n` by positive `d`: `Some(q)` with `q * d == n` when
/// `d` divides `n`, `None` otherwise.
fn div_exact(n: i64, d: i64) -> (r: Option<i64>)
    requires
        d > 0,
        n > i64::MIN,
    ensures
        match r {
            Some(q) => q as int * d == n,
            None => forall|q: int| #[trigger] (q * d) != n,
        },
{
    if n >= 0 {
        let a = n as u64;
        let dd = d as u64;
        let q = a / dd;
        let rem = a % dd;
        if rem == 0 {
            proof {
                lemma_fundamental_div_mod(a as int, dd as int);
                lemma_div_pos_is_pos(a as int, dd as int);
                lemma_div_is_ordered_by_denominator(a as int, 1, dd as int);
                lemma_div_basics(a as int);
                lemma_mul_is_commutative(q as int, dd as int);
            }
            Some(q as i64)
        } else {
            proof {
                assert forall|q2: int| #[trigger] (q2 * (d as int)) != n as int by {
                    if q2 * (d as int) == n as int {
                        lemma_fundamental_div_mod_converse(n as int, d as int, q2, 0);
                    }
                }
            }
            None
        }
    } else {
        let a = (-n) as u64;
        let dd = d as u64;
        let q = a / dd;
        let rem = a % dd;
        if rem == 0 {
            proof {
                lemma_fundamental_div_mod(a as int, dd as int);
                lemma_div_pos_is_pos(a as int, dd as int);
                lemma_div_is_ordered_by_denominator(a as int, 1, dd as int);
                lemma_div_basics(a as int);
                lemma_mul_is_commutative(q as int, dd as int);
                lemma_mul_unary_negation(q as int, dd as int);
            }
            Some(-(q as i64))
        } else {
            proof {
                assert forall|q2: int| #[trigger] (q2 * (d as int)) != n as int by {
                    if q2 * (d as int) == n as int {
                        lemma_mul_unary_negation(q2, d as int);
                        lemma_fundamental_div_mod_converse(a as int, d as int, -q2, 0);
                    }
                }
            }
            None
        }
    }
}

/// Sum of the first components of a force sequence.
pub open spec fn sum_forces_x(fs: Seq<(int, int)>) -> int
    decreases fs.len(),
{
    if fs.len() == 0 {
        0
    } else {
        sum_forces_x(fs.drop_last()) + fs.last().0
    }
}

/// Sum of the second components of a force sequence.
pub open spec fn sum_forces_y(fs: Seq<(int, int)>) -> int
    decreases fs.len(),
{
    if fs.len() == 0 {
        0
    } else {
        sum_forces_y(fs.drop_last()) + fs.last().1
    }
}

/// The state after applying each force of `fs` in order, each immediately
/// followed by an advance.
pub open spec fn run_impulses(p: Phys, fs: Seq<(int, int)>) -> Phys
    decreases fs.len(),
{
    if fs.len() == 0 {
        p
    } else {
        advance_spec(apply_force_spec(run_impulses(p, fs.drop_last()), fs.last().0, fs.last().1))
    }
}

/// Law: from a state with no pending force, applying forces `f1..fn`, each
/// followed by an advance, raises the momentum by exactly the sum of the
/// forces — the velocity by `sum(fi) / mass` — and leaves no pending force
/// behind. In particular an advance with no prior force (an empty sequence)
/// leaves the velocity unchanged.
pub proof fn lemma_velocity_is_sum_of_impulses(p: Phys, fs: Seq<(int, int)>)
    requires
        p.net_force_x == 0,
        p.net_force_y == 0,
    ensures
        run_impulses(p, fs).momentum_x == p.momentum_x + sum_forces_x(fs),
        run_impulses(p, fs).momentum_y == p.momentum_y + sum_forces_y(fs),
        run_impulses(p, fs).net_force_x == 0,
        run_impulses(p, fs).net_force_y == 0,
        run_impulses(p, fs).mass == p.mass,
    decreases fs.len(),
{
    if fs.len() > 0 {
        lemma_velocity_is_sum_of_impulses(p, fs.drop_last());
    }
}

/// Law: an advance with no pending force leaves the velocity unchanged.
pub proof fn lemma_advance_without_force(p: Phys)
    requires
        p.net_force_x == 0,
        p.net_force_y == 0,
    ensures
        advance_spec(p).momentum_x == p.momentum_x,
        advance_spec(p).momentum_y == p.momentum_y,
{
}

/// Law: two forces applied before an advance both contribute: the pending
/// net force ends as the sum of the two, so each adds `force / mass` to the
/// acceleration rather than overwriting the other.
pub proof fn lemma_forces_accumulate(p: Phys, f1: (int, int), f2: (int, int))
    ensures
        apply_force_spec(apply_force_spec(p, f1.0, f1.1), f2.0, f2.1) == apply_force_spec(
            p,
            f1.0 + f2.0,
            f1.1 + f2.1,
        ),
{
}

} // verus!
