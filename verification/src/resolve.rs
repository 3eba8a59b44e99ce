//! The collision resolver: drains the records of the tick in arrival order.
//! For each record it reads the current speeds of both members; if either id
//! is gone the record is skipped whole. Otherwise B's velocity is
//! overwritten with a push of magnitude `(speedA + speedB) / 2` along the
//! record's contact direction, while A is left untouched. A later record may
//! read the velocity this one wrote: resolution is order-dependent and not
//! momentum-conserving, by design.

use vstd::prelude::*;
use crate::ball::{Ball, Vec2};
use crate::collision::BallCollision;
use crate::math::{div_trunc, iabs, isqrt, sqrt_floor};
use crate::math::{lemma_div_trunc_bound, lemma_div_trunc_exact, lemma_sqrt_floor, lemma_sqrt_monotone, lemma_sqrt_square};
use crate::registry::{find_index, lemma_find_index, unique_ids, Registry};

verus! {

/// Magnitude of a velocity, rounded down.
pub open spec fn speed_of(v: Vec2) -> int {
    sqrt_floor((v.x * v.x + v.y * v.y) as nat) as int
}

/// Computes the speed of a velocity.
pub fn speed(v: Vec2) -> (s: u64)
    ensures
        s == speed_of(v),
{
    let x = v.x as i128;
    let y = v.y as i128;
    proof {
        assert(0 <= x * x <= 0x4000_0000_0000_0000_0000_0000_0000_0000int) by (nonlinear_arith)
            requires -0x8000_0000_0000_0000 <= x <= 0x7fff_ffff_ffff_ffff;
        assert(0 <= y * y <= 0x4000_0000_0000_0000_0000_0000_0000_0000int) by (nonlinear_arith)
            requires -0x8000_0000_0000_0000 <= y <= 0x7fff_ffff_ffff_ffff;
    }
    let xx: i128 = x * x;
    let yy: i128 = y * y;
    let n: u128 = (xx as u128) + (yy as u128);
    isqrt(n)
}

/// The push written to B for a record with contact direction (dx, dy) and
/// combined half-speed `s`: the direction scaled to magnitude `s`, i.e.
/// `(sin(atan2(dx, dy)) * s, cos(atan2(dx, dy)) * s)` in fixed point. For a
/// zero direction the contact angle is `atan2(0, 0) == 0`, whose sine and
/// cosine give `(0, s)`.
pub open spec fn push_vec(dx: int, dy: int, s: int) -> (int, int) {
    let d = sqrt_floor((dx * dx + dy * dy) as nat) as int;
    if d == 0 {
        (0, s)
    } else {
        (div_trunc(dx * s, d), div_trunc(dy * s, d))
    }
}

/// The push components never exceed the push magnitude.
pub proof fn lemma_push_bound(dx: int, dy: int, s: int)
    requires
        0 <= s,
    ensures
        iabs(push_vec(dx, dy, s).0) <= s,
        iabs(push_vec(dx, dy, s).1) <= s,
{
    let n = (dx * dx + dy * dy) as nat;
    assert(dx * dx == iabs(dx) * iabs(dx) && dy * dy == iabs(dy) * iabs(dy) && 0 <= dx * dx
        && 0 <= dy * dy) by (nonlinear_arith);
    lemma_sqrt_floor(n);
    let d = sqrt_floor(n) as int;
    if d != 0 {
        lemma_sqrt_square(iabs(dx) as nat);
        lemma_sqrt_square(iabs(dy) as nat);
        lemma_sqrt_monotone((dx * dx) as nat, n);
        lemma_sqrt_monotone((dy * dy) as nat, n);
        assert(iabs(dx) <= d && iabs(dy) <= d);
        assert(-(s * d) <= dx * s <= s * d) by (nonlinear_arith)
            requires iabs(dx) <= d && 0 <= s;
        assert(-(s * d) <= dy * s <= s * d) by (nonlinear_arith)
            requires iabs(dy) <= d && 0 <= s;
        lemma_div_trunc_bound(dx * s, d, s);
        lemma_div_trunc_bound(dy * s, d, s);
    }
}

/// A component bound on a velocity bounds its speed: `2s <= 3m + 2`.
pub proof fn lemma_speed_le(v: Vec2, m: int)
    requires
        iabs(v.x as int) <= m,
        iabs(v.y as int) <= m,
    ensures
        0 <= speed_of(v),
        2 * speed_of(v) <= 3 * m + 2,
{
    let n = (v.x * v.x + v.y * v.y) as nat;
    lemma_sqrt_floor(n);
    let s = sqrt_floor(n) as int;
    assert(v.x * v.x <= m * m && v.y * v.y <= m * m && 0 <= v.x * v.x && 0 <= v.y * v.y)
        by (nonlinear_arith)
        requires iabs(v.x as int) <= m && iabs(v.y as int) <= m;
    if 2 * s >= 3 * m + 3 {
        assert(4 * (s * s) >= (3 * m + 3) * (3 * m + 3)) by (nonlinear_arith)
            requires 2 * s >= 3 * m + 3 >= 0;
        assert((3 * m + 3) * (3 * m + 3) > 8 * (m * m)) by (nonlinear_arith)
            requires m >= 0;
        assert(4 * (s * s) <= 8 * (m * m)) by (nonlinear_arith)
            requires s * s <= 2 * (m * m);
        assert(false);
    }
}

/// One record resolved against the current registry contents: a skip when
/// either id is gone, otherwise B's velocity overwritten with the push.
pub open spec fn resolve_one(balls: Seq<Ball>, ev: BallCollision) -> Seq<Ball> {
    let ia = find_index(balls, ev.ent_a);
    let ib = find_index(balls, ev.ent_b);
    if ia == -1 || ib == -1 {
        balls
    } else {
        let s = (speed_of(balls[ia].vel) + speed_of(balls[ib].vel)) / 2;
        let p = push_vec(ev.dx as int, ev.dy as int, s);
        balls.update(ib, Ball { vel: Vec2 { x: p.0 as i64, y: p.1 as i64 }, ..balls[ib] })
    }
}

/// All records resolved left to right, each against the state the previous
/// ones produced.
pub open spec fn resolve_all(balls: Seq<Ball>, evs: Seq<BallCollision>) -> Seq<Ball>
    decreases evs.len(),
{
    if evs.len() == 0 {
        balls
    } else {
        resolve_all(resolve_one(balls, evs[0]), evs.drop_first())
    }
}

/// Peeling the last record off a left-to-right resolution.
pub proof fn lemma_resolve_all_push(balls: Seq<Ball>, evs: Seq<BallCollision>, ev: BallCollision)
    ensures
        resolve_all(balls, evs.push(ev)) == resolve_one(resolve_all(balls, evs), ev),
    decreases evs.len(),
{
    let p = evs.push(ev);
    if evs.len() == 0 {
        assert(p[0] == ev);
        assert(p.drop_first() =~= Seq::<BallCollision>::empty());
        assert(resolve_all(balls, p) == resolve_all(resolve_one(balls, p[0]), p.drop_first()));
        assert(resolve_all(resolve_one(balls, ev), p.drop_first()) == resolve_one(balls, ev));
        assert(resolve_all(balls, evs) == balls);
    } else {
        assert(p[0] == evs[0]);
        assert(p.drop_first() =~= evs.drop_first().push(ev));
        assert(resolve_all(balls, p) == resolve_all(resolve_one(balls, p[0]), p.drop_first()));
        assert(resolve_all(balls, evs) == resolve_all(resolve_one(balls, evs[0]), evs.drop_first()));
        lemma_resolve_all_push(resolve_one(balls, evs[0]), evs.drop_first(), ev);
    }
}

/// Every velocity component in `balls` lies within `[-c, c]`.
pub open spec fn vels_bounded(balls: Seq<Ball>, c: int) -> bool {
    forall|i: int|
        0 <= i < balls.len() ==> iabs((#[trigger] balls[i]).vel.x as int) <= c && iabs(
            balls[i].vel.y as int,
        ) <= c
}

/// The largest velocity component magnitude in the registry.
pub open spec fn max_vel(balls: Seq<Ball>) -> int
    decreases balls.len(),
{
    if balls.len() == 0 {
        0
    } else {
        let m = max_vel(balls.drop_first());
        let hx = iabs(balls[0].vel.x as int);
        let hy = iabs(balls[0].vel.y as int);
        let h = if hx > hy {
            hx
        } else {
            hy
        };
        if h > m {
            h
        } else {
            m
        }
    }
}

/// `max_vel` bounds every component.
pub proof fn lemma_max_vel(balls: Seq<Ball>)
    ensures
        0 <= max_vel(balls),
        vels_bounded(balls, max_vel(balls)),
    decreases balls.len(),
{
    if balls.len() > 0 {
        let rest = balls.drop_first();
        lemma_max_vel(rest);
        assert forall|i: int|
            0 <= i < balls.len() implies iabs((#[trigger] balls[i]).vel.x as int) <= max_vel(balls)
            && iabs(balls[i].vel.y as int) <= max_vel(balls) by {
            if i > 0 {
                assert(rest[i - 1] == balls[i]);
            }
        }
    }
}

/// A shared component bound caps `max_vel`.
pub proof fn lemma_max_vel_le(balls: Seq<Ball>, c: int)
    requires
        vels_bounded(balls, c),
        0 <= c,
    ensures
        max_vel(balls) <= c,
    decreases balls.len(),
{
    if balls.len() > 0 {
        let rest = balls.drop_first();
        assert forall|i: int|
            0 <= i < rest.len() implies iabs((#[trigger] rest[i]).vel.x as int) <= c && iabs(
            rest[i].vel.y as int,
        ) <= c by {
            assert(rest[i] == balls[i + 1]);
        }
        lemma_max_vel_le(rest, c);
    }
}

/// The component bound the resolver guarantees after `k` records: each
/// record can replace one velocity by a push whose components stay within
/// `(3c)/2 + 1` of the previous bound `c`.
pub open spec fn vel_cap_after(m: int, k: nat) -> int
    decreases k,
{
    if k == 0 {
        m
    } else {
        (3 * vel_cap_after(m, (k - 1) as nat)) / 2 + 1
    }
}

/// The cap grows with the number of records.
pub proof fn lemma_vel_cap_grows(m: int, k1: nat, k2: nat)
    requires
        0 <= m,
        k1 <= k2,
    ensures
        m <= vel_cap_after(m, k1) <= vel_cap_after(m, k2),
        0 <= vel_cap_after(m, k1),
    decreases k2,
{
    if k2 == 0 {
    } else if k1 == k2 {
        lemma_vel_cap_grows(m, (k1 - 1) as nat, (k2 - 1) as nat);
        let c = vel_cap_after(m, (k2 - 1) as nat);
        vstd::arithmetic::div_mod::lemma_div_is_ordered(2 * c, 3 * c, 2);
        vstd::arithmetic::div_mod::lemma_div_by_multiple(c, 2);
        assert(c * 2 == 2 * c) by (nonlinear_arith);
        assert(vel_cap_after(m, k2) == (3 * c) / 2 + 1 >= c + 1);
    } else {
        lemma_vel_cap_grows(m, k1, (k2 - 1) as nat);
        let c = vel_cap_after(m, (k2 - 1) as nat);
        vstd::arithmetic::div_mod::lemma_div_is_ordered(2 * c, 3 * c, 2);
        vstd::arithmetic::div_mod::lemma_div_by_multiple(c, 2);
        assert(c * 2 == 2 * c) by (nonlinear_arith);
        assert(vel_cap_after(m, k2) == (3 * c) / 2 + 1 >= c + 1);
    }
}

/// The cap grows with the starting bound.
pub proof fn lemma_vel_cap_mono_m(m1: int, m2: int, k: nat)
    requires
        0 <= m1 <= m2,
    ensures
        vel_cap_after(m1, k) <= vel_cap_after(m2, k),
    decreases k,
{
    if k > 0 {
        lemma_vel_cap_mono_m(m1, m2, (k - 1) as nat);
        let c1 = vel_cap_after(m1, (k - 1) as nat);
        let c2 = vel_cap_after(m2, (k - 1) as nat);
        vstd::arithmetic::div_mod::lemma_div_is_ordered(3 * c1, 3 * c2, 2);
    }
}

/// Computes the push written to B: the contact direction scaled to
/// magnitude `s` (with truncating division), or straight up for a zero
/// direction.
fn compute_push(dx: i64, dy: i64, s: u64) -> (p: (i64, i64))
    requires
        s <= 0x7fff_ffff_ffff_ffff,
    ensures
        p.0 == push_vec(dx as int, dy as int, s as int).0,
        p.1 == push_vec(dx as int, dy as int, s as int).1,
{
    let dxw = dx as i128;
    let dyw = dy as i128;
    proof {
        assert(0 <= dxw * dxw <= 0x4000_0000_0000_0000_0000_0000_0000_0000int) by (nonlinear_arith)
            requires -0x8000_0000_0000_0000 <= dxw <= 0x7fff_ffff_ffff_ffff;
        assert(0 <= dyw * dyw <= 0x4000_0000_0000_0000_0000_0000_0000_0000int) by (nonlinear_arith)
            requires -0x8000_0000_0000_0000 <= dyw <= 0x7fff_ffff_ffff_ffff;
        lemma_push_bound(dx as int, dy as int, s as int);
    }
    let dxx: i128 = dxw * dxw;
    let dyy: i128 = dyw * dyw;
    let n: u128 = (dxx as u128) + (dyy as u128);
    let d = isqrt(n);
    if d == 0 {
        (0, s as i64)
    } else {
        let magx: u128 = if dx >= 0 {
            dx as u128
        } else {
            (-dxw) as u128
        };
        let magy: u128 = if dy >= 0 {
            dy as u128
        } else {
            (-dyw) as u128
        };
        proof {
            assert(magx * (s as u128) <= 0x4000_0000_0000_0000_0000_0000_0000_0000int)
                by (nonlinear_arith)
                requires magx <= 0x8000_0000_0000_0000u128 && s as u128 <= 0x7fff_ffff_ffff_ffffu128;
            assert(magy * (s as u128) <= 0x4000_0000_0000_0000_0000_0000_0000_0000int)
                by (nonlinear_arith)
                requires magy <= 0x8000_0000_0000_0000u128 && s as u128 <= 0x7fff_ffff_ffff_ffffu128;
            assert(magx * (s as u128) == iabs(dx as int * s as int) && magy * (s as u128) == iabs(
                dy as int * s as int,
            )) by (nonlinear_arith)
                requires ({
                    &&& magx == iabs(dx as int)
                    &&& magy == iabs(dy as int)
                    &&& 0 <= s
                });
        }
        let prodx: u128 = magx * (s as u128);
        let prody: u128 = magy * (s as u128);
        let qx: u128 = prodx / (d as u128);
        let qy: u128 = prody / (d as u128);
        proof {
            let di = d as int;
            let px = push_vec(dx as int, dy as int, s as int).0;
            let py = push_vec(dx as int, dy as int, s as int).1;
            assert(qx == iabs(dx as int * s as int) / di && qy == iabs(dy as int * s as int) / di);
            if dx >= 0 {
                assert(px == qx);
            } else {
                assert(dx as int * s as int <= 0) by (nonlinear_arith)
                    requires dx < 0 && s >= 0;
                assert(-(dx as int * s as int) == iabs(dx as int * s as int));
                assert(px == -(qx as int));
            }
            if dy >= 0 {
                assert(py == qy);
            } else {
                assert(dy as int * s as int <= 0) by (nonlinear_arith)
                    requires dy < 0 && s >= 0;
                assert(py == -(qy as int));
            }
            assert(iabs(px) <= s && iabs(py) <= s);
        }
        let px: i64 = if dx >= 0 {
            qx as i64
        } else {
            -(qx as i64)
        };
        let py: i64 = if dy >= 0 {
            qy as i64
        } else {
            -(qy as i64)
        };
        (px, py)
    }
}

/// Drains the records in arrival order against the registry.
pub fn ball_collision(reg: &mut Registry, evs: &Vec<BallCollision>)
    requires
        old(reg).wf(),
        vel_cap_after(max_vel(old(reg).balls@), evs@.len()) <= 0x7fff_ffff_ffff_ffff,
    ensures
        final(reg).next_id == old(reg).next_id,
        final(reg).balls@ == resolve_all(old(reg).balls@, evs@),
        final(reg).wf(),
        vels_bounded(final(reg).balls@, vel_cap_after(max_vel(old(reg).balls@), evs@.len())),
{
    let ghost orig = reg.balls@;
    let ghost m0 = max_vel(orig);
    proof {
        lemma_max_vel(orig);
    }
    let n_evs = evs.len();
    let mut k: usize = 0;
    while k < n_evs
        invariant
            k <= n_evs,
            n_evs == evs@.len(),
            old(reg).wf(),
            orig == old(reg).balls@,
            m0 == max_vel(orig),
            0 <= m0,
            reg.next_id == old(reg).next_id,
            reg.balls@.len() == orig.len(),
            forall|i: int|
                0 <= i < orig.len() ==> (#[trigger] reg.balls@[i]).id == orig[i].id
                    && reg.balls@[i].pos == orig[i].pos && reg.balls@[i].radius == orig[i].radius
                    && reg.balls@[i].role == orig[i].role,
            reg.balls@ == resolve_all(orig, evs@.take(k as int)),
            vels_bounded(reg.balls@, vel_cap_after(m0, k as nat)),
            vel_cap_after(m0, n_evs as nat) <= 0x7fff_ffff_ffff_ffff,
        decreases n_evs - k,
    {
        let ev = evs[k];
        let ghost pre = reg.balls@;
        let ghost capk = vel_cap_after(m0, k as nat);
        proof {
            lemma_vel_cap_grows(m0, k as nat, (k + 1) as nat);
            lemma_vel_cap_grows(m0, (k + 1) as nat, n_evs as nat);
            lemma_find_index(pre, ev.ent_a);
            lemma_find_index(pre, ev.ent_b);
        }
        match reg.get_vel(ev.ent_a) {
            Some(va) => {
                match reg.get_vel(ev.ent_b) {
                    Some(vb) => {
                        let ghost ia = find_index(pre, ev.ent_a);
                        let ghost ib = find_index(pre, ev.ent_b);
                        let sa = speed(va);
                        let sb = speed(vb);
                        proof {
                            lemma_speed_le(va, capk);
                            lemma_speed_le(vb, capk);
                            vstd::arithmetic::div_mod::lemma_div_is_ordered(
                                sa + sb,
                                3 * capk + 2,
                                2,
                            );
                            vstd::arithmetic::div_mod::lemma_div_plus_one(3 * capk, 2);
                            assert((3 * capk + 2) / 2 == (3 * capk) / 2 + 1);
                            assert((sa + sb) / 2 <= vel_cap_after(m0, (k + 1) as nat));
                            vstd::arithmetic::div_mod::lemma_div_pos_is_pos(sa + sb, 2);
                        }
                        let s128: u128 = ((sa as u128) + (sb as u128)) / 2;
                        let s = s128 as u64;
                        proof {
                            assert(s as int == (speed_of(pre[ia].vel) + speed_of(pre[ib].vel))
                                / 2);
                            lemma_push_bound(ev.dx as int, ev.dy as int, s as int);
                        }
                        let p = compute_push(ev.dx, ev.dy, s);
                        let found = reg.set_vel(ev.ent_b, Vec2 { x: p.0, y: p.1 });
                        proof {
                            assert(found);
                            assert(reg.balls@ =~= resolve_one(pre, ev));
                        }
                    },
                    None => {
                        proof {
                            assert(resolve_one(pre, ev) == pre);
                        }
                    },
                }
            },
            None => {
                proof {
                    assert(resolve_one(pre, ev) == pre);
                }
            },
        }
        proof {
            assert(evs@.take(k as int + 1) =~= evs@.take(k as int).push(evs@[k as int]));
            lemma_resolve_all_push(orig, evs@.take(k as int), evs@[k as int]);
            assert(reg.balls@ == resolve_all(orig, evs@.take(k as int + 1)));
        }
        k = k + 1;
    }
    proof {
        assert(evs@.take(n_evs as int) =~= evs@);
    }
}

/// Resolver asymmetry: when both members of a record are present, resolving
/// it leaves A (and every other ball) bit-identical and overwrites only B's
/// velocity, with the push of magnitude `(speedA + speedB) / 2` along the
/// record's contact direction.
pub proof fn lemma_resolver_asymmetry(balls: Seq<Ball>, ev: BallCollision)
    requires
        unique_ids(balls),
        ev.ent_a != ev.ent_b,
        find_index(balls, ev.ent_a) >= 0,
        find_index(balls, ev.ent_b) >= 0,
    ensures
        ({
            let ia = find_index(balls, ev.ent_a);
            let ib = find_index(balls, ev.ent_b);
            let s = (speed_of(balls[ia].vel) + speed_of(balls[ib].vel)) / 2;
            let r = resolve_one(balls, ev);
            &&& r.len() == balls.len()
            &&& ia != ib
            &&& r[ia] == balls[ia]
            &&& r[ib].vel.x == push_vec(ev.dx as int, ev.dy as int, s).0 as i64
            &&& r[ib].vel.y == push_vec(ev.dx as int, ev.dy as int, s).1 as i64
            &&& r[ib].id == balls[ib].id && r[ib].pos == balls[ib].pos && r[ib].radius
                == balls[ib].radius && r[ib].role == balls[ib].role
            &&& forall|i: int| 0 <= i < balls.len() && i != ib ==> r[i] == balls[i]
        }),
{
    lemma_find_index(balls, ev.ent_a);
    lemma_find_index(balls, ev.ent_b);
}

/// Contact angle along the horizontal axis: a record with `dy == 0` and
/// `dx > 0` has contact angle `atan2(dx, 0)`, a right angle, so the push is
/// exactly `(s, 0)`.
pub proof fn lemma_push_right_angle(dx: int, s: int)
    requires
        0 < dx,
        0 <= s,
    ensures
        push_vec(dx, 0, s).0 == s,
        push_vec(dx, 0, s).1 == 0,
{
    assert(dx * dx + 0 * 0 == dx * dx) by (nonlinear_arith);
    assert((dx * dx) as nat == (dx as nat) * (dx as nat)) by (nonlinear_arith)
        requires dx > 0;
    lemma_sqrt_square(dx as nat);
    assert(sqrt_floor((dx * dx + 0 * 0) as nat) as int == dx);
    assert(dx * s == s * dx) by (nonlinear_arith);
    lemma_div_trunc_exact(s, dx);
    assert(0 * s == 0 * dx) by (nonlinear_arith);
    lemma_div_trunc_exact(0, dx);
}

} // verus!
