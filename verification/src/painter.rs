//! The command interpreter: consumes one path command at a time, advances the
//! pen state, and emits the pointer actions that reproduce the stroke on the
//! destination surface.
//!
//! The interpreter never performs device I/O itself: each command resolves to
//! a sequence of [`PointerAction`] values that the surrounding program hands
//! to the device in order, aborting on the first failure. Every action list
//! and state change is specified exactly by mirror functions (`*_steps`) that
//! repeat the machine computation at the specification level.

use vstd::prelude::*;
use vstd::arithmetic::mul::*;
use crate::rational::{
    Rat, Scalar, rat_add, rat_sub, rat_mul, rat_div, rat_int, rat_norm, rat_fits, rat_eq,
    lemma_norm, lemma_norm_zero, lemma_rat_eq_trans, lemma_mul_congr, lemma_add_congr, gcd,
};
use crate::rect::Rect;
use crate::point::{SvgPoint, map_steps, rat_map, lemma_map_steps_value};
use crate::my_error::MyError;

verus! {

/// Whether a command's coordinates are absolute or relative to the pen.
#[derive(Clone, Copy, PartialEq, Eq, Structural, Debug)]
pub enum Position {
    Absolute,
    Relative,
}

/// One drawing command of a path, with its position mode and parameters.
#[derive(Clone, Debug)]
pub enum PathCommand {
    Move(Position, Vec<Scalar>),
    Line(Position, Vec<Scalar>),
    HorizontalLine(Position, Vec<Scalar>),
    VerticalLine(Position, Vec<Scalar>),
    CubicCurve(Position, Vec<Scalar>),
    QuadraticCurve(Position, Vec<Scalar>),
    SmoothQuadraticCurve(Position, Vec<Scalar>),
    SmoothCubicCurve(Position, Vec<Scalar>),
    EllipticalArc(Position, Vec<Scalar>),
    Close,
}

/// One pointer-device action, in destination coordinates.
#[derive(Clone, Copy, PartialEq, Eq, Structural, Debug)]
pub enum PointerAction {
    MoveTo(Scalar, Scalar),
    Press,
    Release,
}

/// What performing one command produced: a stroke's actions, or the report
/// that the command kind is not drawable.
#[derive(Clone, Debug)]
pub enum CommandOutcome {
    Drawn(Vec<PointerAction>),
    Unsupported,
}

/// Specification-level point: a pair of rational coordinates.
#[verifier::ext_equal]
pub ghost struct RatPoint {
    pub x: Rat,
    pub y: Rat,
}

/// Specification-level pointer action.
pub ghost enum ActionV {
    MoveToV(RatPoint),
    PressV,
    ReleaseV,
}

/// The six numbers that determine the affine mapping of a session.
pub ghost struct Mapping {
    pub sw: Rat,
    pub sh: Rat,
    pub dx: Rat,
    pub dy: Rat,
    pub dw: Rat,
    pub dh: Rat,
}

/// The mapping determined by a source and a destination rectangle.
pub open spec fn areas_view(svg_area: Rect, screen_area: Rect) -> Mapping {
    Mapping {
        sw: svg_area.width@,
        sh: svg_area.height@,
        dx: screen_area.x@,
        dy: screen_area.y@,
        dw: screen_area.width@,
        dh: screen_area.height@,
    }
}

pub open spec fn mapping_wf(m: Mapping) -> bool {
    &&& 1 <= m.sw.d && m.sw.n != 0
    &&& 1 <= m.sh.d && m.sh.n != 0
    &&& 1 <= m.dx.d
    &&& 1 <= m.dy.d
    &&& 1 <= m.dw.d
    &&& 1 <= m.dh.d
}

pub open spec fn point_wf(p: RatPoint) -> bool {
    1 <= p.x.d && 1 <= p.y.d
}

/// A source point mapped to the destination space, both coordinates.
pub open spec fn map_point(m: Mapping, p: RatPoint) -> Option<RatPoint> {
    match map_steps(p.x, m.sw, m.dw, m.dx) {
        None => None,
        Some(x) => match map_steps(p.y, m.sh, m.dh, m.dy) {
            None => None,
            Some(y) => Some(RatPoint { x, y }),
        },
    }
}

/// One coordinate pair resolved against the running point: taken as given in
/// absolute mode, added to the running point (and reduced) in relative mode;
/// `None` when the relative sum leaves machine range.
pub open spec fn resolve_step(mode: Position, cur: RatPoint, px: Rat, py: Rat) -> Option<RatPoint> {
    match mode {
        Position::Absolute => Some(RatPoint { x: px, y: py }),
        Position::Relative => {
            let nx = rat_norm(rat_add(cur.x, px));
            let ny = rat_norm(rat_add(cur.y, py));
            if rat_fits(nx) && rat_fits(ny) {
                Some(RatPoint { x: nx, y: ny })
            } else {
                None
            }
        },
    }
}

/// The stepped resolution of a coordinate list: each pair resolved against
/// the running point and mapped to the destination space. Yields the final
/// running point and the destination targets, or `None` on the first
/// coordinate that leaves machine range.
pub open spec fn line_steps(mode: Position, m: Mapping, cur: RatPoint, ps: Seq<Rat>) -> Option<
    (RatPoint, Seq<RatPoint>),
>
    decreases ps.len(),
{
    if ps.len() < 2 {
        Some((cur, Seq::empty()))
    } else {
        match resolve_step(mode, cur, ps[0], ps[1]) {
            None => None,
            Some(nxt) => match map_point(m, nxt) {
                None => None,
                Some(sp) => match line_steps(mode, m, nxt, ps.skip(2)) {
                    None => None,
                    Some((fin, rest)) => Some((fin, seq![sp] + rest)),
                },
            },
        }
    }
}

/// A whole Line command: the pointer travels to the pen's mapped position,
/// presses, then visits each resolved pair in order.
pub open spec fn line_actions(mode: Position, m: Mapping, cur: RatPoint, ps: Seq<Rat>) -> Option<
    (RatPoint, Seq<ActionV>),
>
{
    match map_point(m, cur) {
        None => None,
        Some(c0) => match line_steps(mode, m, cur, ps) {
            None => None,
            Some((fin, moves)) => Some(
                (
                    fin,
                    seq![ActionV::MoveToV(c0), ActionV::PressV] + moves.map_values(
                        |p: RatPoint| ActionV::MoveToV(p),
                    ),
                ),
            ),
        },
    }
}

/// Whether an executable action is the one the specification calls for.
pub open spec fn action_matches(a: PointerAction, v: ActionV) -> bool {
    match v {
        ActionV::MoveToV(p) => a matches PointerAction::MoveTo(x, y) && x.wf() && y.wf() && x@
            == p.x && y@ == p.y,
        ActionV::PressV => a is Press,
        ActionV::ReleaseV => a is Release,
    }
}

pub open spec fn actions_match(acts: Seq<PointerAction>, vs: Seq<ActionV>) -> bool {
    acts.len() == vs.len() && forall|i: int|
        0 <= i < acts.len() ==> action_matches(#[trigger] acts[i], vs[i])
}

/// The views of a parameter list.
pub open spec fn params_view(params: Seq<Scalar>) -> Seq<Rat> {
    params.map_values(|s: Scalar| s@)
}

pub open spec fn params_wf(params: Seq<Scalar>) -> bool {
    forall|i: int| 0 <= i < params.len() ==> (#[trigger] params[i]).wf()
}

/// The reduced sum when it fits machine range.
pub open spec fn norm_add(a: Rat, b: Rat) -> Option<Rat> {
    let v = rat_norm(rat_add(a, b));
    if rat_fits(v) {
        Some(v)
    } else {
        None
    }
}

/// The reduced difference when it fits machine range.
pub open spec fn norm_sub(a: Rat, b: Rat) -> Option<Rat> {
    let v = rat_norm(rat_sub(a, b));
    if rat_fits(v) {
        Some(v)
    } else {
        None
    }
}

/// The reduced product when it fits machine range.
pub open spec fn norm_mul(a: Rat, b: Rat) -> Option<Rat> {
    let v = rat_norm(rat_mul(a, b));
    if rat_fits(v) {
        Some(v)
    } else {
        None
    }
}

/// The full coordinate pairs traced by an axis-aligned line command: each
/// parameter moves one axis of the running point, the other axis stays.
pub open spec fn axis_coords(mode: Position, horizontal: bool, cur: RatPoint, ps: Seq<Rat>) -> Option<
    Seq<Rat>,
>
    decreases ps.len(),
{
    if ps.len() == 0 {
        Some(Seq::empty())
    } else {
        let px = if horizontal {
            ps[0]
        } else {
            match mode {
                Position::Absolute => cur.x,
                Position::Relative => rat_int(0),
            }
        };
        let py = if horizontal {
            match mode {
                Position::Absolute => cur.y,
                Position::Relative => rat_int(0),
            }
        } else {
            ps[0]
        };
        match resolve_step(mode, cur, px, py) {
            None => None,
            Some(np) => match axis_coords(mode, horizontal, np, ps.skip(1)) {
                None => None,
                Some(rest) => Some(seq![np.x, np.y] + rest),
            },
        }
    }
}

/// A whole horizontal- or vertical-line command: the traced pairs dispatched
/// as an absolute line.
pub open spec fn axis_actions(mode: Position, horizontal: bool, m: Mapping, cur: RatPoint, ps: Seq<Rat>) -> Option<
    (RatPoint, Seq<ActionV>),
>
{
    match axis_coords(mode, horizontal, cur, ps) {
        None => None,
        Some(coords) => line_actions(Position::Absolute, m, cur, coords),
    }
}

/// One coordinate of the cubic Bezier polynomial
/// `(1-t)^3 a0 + 3 (1-t)^2 t a1 + 3 (1-t) t^2 a2 + t^3 a3` at `t = k / 10`,
/// computed step by step with reduced machine arithmetic.
#[verifier::opaque]
pub open spec fn bezier_coord_steps(k: int, a0: Rat, a1: Rat, a2: Rat, a3: Rat) -> Option<Rat> {
    let t = Rat { n: k, d: 10 };
    let one = rat_int(1);
    let three = rat_int(3);
    match norm_sub(one, t) {
        None => None,
        Some(u) => match norm_mul(u, u) {
            None => None,
            Some(u2) => match norm_mul(u2, u) {
                None => None,
                Some(u3) => match norm_mul(t, t) {
                    None => None,
                    Some(t2) => match norm_mul(t2, t) {
                        None => None,
                        Some(t3) => match norm_mul(three, u2) {
                            None => None,
                            Some(w1a) => match norm_mul(w1a, t) {
                                None => None,
                                Some(w1) => match norm_mul(three, u) {
                                    None => None,
                                    Some(w2a) => match norm_mul(w2a, t2) {
                                        None => None,
                                        Some(w2) => match norm_mul(u3, a0) {
                                            None => None,
                                            Some(m0) => match norm_mul(w1, a1) {
                                                None => None,
                                                Some(m1) => match norm_mul(w2, a2) {
                                                    None => None,
                                                    Some(m2) => match norm_mul(t3, a3) {
                                                        None => None,
                                                        Some(m3) => match norm_add(m0, m1) {
                                                            None => None,
                                                            Some(s1) => match norm_add(s1, m2) {
                                                                None => None,
                                                                Some(s2) => norm_add(s2, m3),
                                                            },
                                                        },
                                                    },
                                                },
                                            },
                                        },
                                    },
                                },
                            },
                        },
                    },
                },
            },
        },
    }
}

/// At `t = 0` the Bezier polynomial takes the value of its first point.
#[verifier::rlimit(50)]
pub proof fn lemma_bezier_start(a0: Rat, a1: Rat, a2: Rat, a3: Rat)
    requires
        1 <= a0.d,
        1 <= a1.d,
        1 <= a2.d,
        1 <= a3.d,
    ensures
        bezier_coord_steps(0, a0, a1, a2, a3) matches Some(b) ==> rat_eq(b, a0) && 1 <= b.d,
{
    let t = Rat { n: 0, d: 10 };
    let one = rat_int(1);
    let three = rat_int(3);
    let u = Rat { n: 1, d: 1 };
    let z = Rat { n: 0, d: 1 };
    let th = Rat { n: 3, d: 1 };
    assert(gcd(10, 10) == gcd(10, 0));
    assert(gcd(10, 0) == 10);
    assert((gcd(10, 10) as int) == 10);
    assert(10int / 10int == 1);
    assert(rat_sub(one, t) == (Rat { n: 10, d: 10 }));
    assert(rat_norm(Rat { n: 10, d: 10 }) == u);
    assert(norm_sub(one, t) == Some(u));
    assert(gcd(1, 1) == gcd(1, 0));
    assert(gcd(1, 0) == 1);
    assert((gcd(1, 1) as int) == 1);
    assert(1int / 1int == 1);
    assert(rat_mul(u, u) == u);
    assert(rat_norm(u) == u);
    assert(norm_mul(u, u) == Some(u));
    lemma_norm_zero(100);
    assert(rat_mul(t, t) == (Rat { n: 0, d: 100 }));
    assert(norm_mul(t, t) == Some(z));
    lemma_norm_zero(10);
    assert(rat_mul(z, t) == (Rat { n: 0, d: 10 }));
    assert(norm_mul(z, t) == Some(z));
    assert(gcd(3, 1) == gcd(1, 0));
    assert((gcd(3, 1) as int) == 1);
    assert(3int / 1int == 3);
    assert(rat_mul(three, u) == th);
    assert(rat_norm(th) == th);
    assert(norm_mul(three, u) == Some(th));
    assert(rat_mul(th, t) == (Rat { n: 0, d: 10 }));
    assert(norm_mul(th, t) == Some(z));
    lemma_norm_zero(1);
    assert(rat_mul(th, z) == z);
    assert(norm_mul(th, z) == Some(z));
    // the three vanished terms
    lemma_norm_zero(a1.d);
    assert(rat_mul(z, a1) == (Rat { n: 0, d: a1.d }));
    assert(norm_mul(z, a1) == Some(z));
    lemma_norm_zero(a2.d);
    assert(rat_mul(z, a2) == (Rat { n: 0, d: a2.d }));
    assert(norm_mul(z, a2) == Some(z));
    lemma_norm_zero(a3.d);
    assert(rat_mul(z, a3) == (Rat { n: 0, d: a3.d }));
    assert(norm_mul(z, a3) == Some(z));
    // the surviving term is the first point, reduced at each step
    assert(rat_mul(u, a0) =~= a0);
    let m0 = rat_norm(a0);
    lemma_norm(a0);
    assert(rat_add(m0, z) =~= m0);
    let s1 = rat_norm(m0);
    lemma_norm(m0);
    lemma_rat_eq_trans(s1, m0, a0);
    assert(rat_add(s1, z) =~= s1);
    let s2 = rat_norm(s1);
    lemma_norm(s1);
    lemma_rat_eq_trans(s2, s1, a0);
    assert(rat_add(s2, z) =~= s2);
    let b = rat_norm(s2);
    lemma_norm(s2);
    lemma_rat_eq_trans(b, s2, a0);
    if rat_fits(m0) && rat_fits(s1) && rat_fits(s2) && rat_fits(b) {
        assert(bezier_coord_steps(0, a0, a1, a2, a3) == Some(b)) by {
            reveal(bezier_coord_steps);
        }
    } else {
        assert(bezier_coord_steps(0, a0, a1, a2, a3) is None) by {
            reveal(bezier_coord_steps);
        }
    }
}

/// At `t = 1` the Bezier polynomial takes the value of its last point.
#[verifier::rlimit(50)]
pub proof fn lemma_bezier_end(a0: Rat, a1: Rat, a2: Rat, a3: Rat)
    requires
        1 <= a0.d,
        1 <= a1.d,
        1 <= a2.d,
        1 <= a3.d,
    ensures
        bezier_coord_steps(10, a0, a1, a2, a3) matches Some(b) ==> rat_eq(b, a3) && 1 <= b.d,
{
    let t = Rat { n: 10, d: 10 };
    let one = rat_int(1);
    let three = rat_int(3);
    let u = Rat { n: 1, d: 1 };
    let z = Rat { n: 0, d: 1 };
    lemma_norm_zero(10);
    assert(rat_sub(one, t) == (Rat { n: 0, d: 10 }));
    assert(norm_sub(one, t) == Some(z));
    lemma_norm_zero(1);
    assert(z.n * z.n == 0 && z.d * z.d == 1) by (nonlinear_arith)
        requires
            z.n == 0,
            z.d == 1,
    ;
    assert(rat_mul(z, z) == z);
    assert(norm_mul(z, z) == Some(z));
    assert(gcd(100, 100) == gcd(100, 0));
    assert(gcd(100, 0) == 100);
    assert((gcd(100, 100) as int) == 100);
    assert(100int / 100int == 1);
    assert(rat_mul(t, t) == (Rat { n: 100, d: 100 }));
    assert(rat_norm(Rat { n: 100, d: 100 }) == u);
    assert(norm_mul(t, t) == Some(u));
    assert(gcd(10, 10) == gcd(10, 0));
    assert(gcd(10, 0) == 10);
    assert((gcd(10, 10) as int) == 10);
    assert(10int / 10int == 1);
    assert(rat_mul(u, t) == t);
    assert(rat_norm(t) == u);
    assert(norm_mul(u, t) == Some(u));
    assert(rat_mul(three, z) == (Rat { n: 0, d: 1 }));
    assert(norm_mul(three, z) == Some(z));
    assert(rat_mul(z, t) == (Rat { n: 0, d: 10 }));
    assert(norm_mul(z, t) == Some(z));
    assert(rat_mul(z, u) == z);
    assert(norm_mul(z, u) == Some(z));
    // the three vanished terms
    lemma_norm_zero(a0.d);
    assert(rat_mul(z, a0) == (Rat { n: 0, d: a0.d }));
    assert(norm_mul(z, a0) == Some(z));
    lemma_norm_zero(a1.d);
    assert(rat_mul(z, a1) == (Rat { n: 0, d: a1.d }));
    assert(norm_mul(z, a1) == Some(z));
    lemma_norm_zero(a2.d);
    assert(rat_mul(z, a2) == (Rat { n: 0, d: a2.d }));
    assert(norm_mul(z, a2) == Some(z));
    // the surviving term is the last point, reduced at each step
    assert(rat_mul(u, a3) =~= a3);
    let m3 = rat_norm(a3);
    lemma_norm(a3);
    assert(rat_add(z, z) == z);
    assert(rat_norm(z) == z);
    assert(norm_add(z, z) == Some(z));
    assert(rat_add(z, m3) =~= m3);
    let b = rat_norm(m3);
    lemma_norm(m3);
    lemma_rat_eq_trans(b, m3, a3);
    if rat_fits(m3) && rat_fits(b) {
        assert(bezier_coord_steps(10, a0, a1, a2, a3) == Some(b)) by {
            reveal(bezier_coord_steps);
        }
    } else {
        assert(bezier_coord_steps(10, a0, a1, a2, a3) is None) by {
            reveal(bezier_coord_steps);
        }
    }
}

/// The flattened coordinate list of the Bezier samples from `t = k/10` up to
/// `t = 1`, eleven samples in all when started at `k = 0`.
pub open spec fn bezier_list(k: int, p0: RatPoint, p1: RatPoint, p2: RatPoint, p3: RatPoint) -> Option<
    Seq<Rat>,
>
    decreases 11 - k,
{
    if k > 10 || k < 0 {
        Some(Seq::empty())
    } else {
        match bezier_coord_steps(k, p0.x, p1.x, p2.x, p3.x) {
            None => None,
            Some(bx) => match bezier_coord_steps(k, p0.y, p1.y, p2.y, p3.y) {
                None => None,
                Some(by) => match bezier_list(k + 1, p0, p1, p2, p3) {
                    None => None,
                    Some(rest) => Some(seq![bx, by] + rest),
                },
            },
        }
    }
}

/// A whole cubic-curve command: the control points resolved against the pen,
/// the curve sampled at the eleven `t` values, the samples dispatched as an
/// absolute line.
pub open spec fn cubic_steps(mode: Position, m: Mapping, cur: RatPoint, ps: Seq<Rat>) -> Option<
    (RatPoint, Seq<ActionV>),
>
{
    match resolve_step(mode, cur, ps[0], ps[1]) {
        None => None,
        Some(p1) => match resolve_step(mode, cur, ps[2], ps[3]) {
            None => None,
            Some(p2) => match resolve_step(mode, cur, ps[4], ps[5]) {
                None => None,
                Some(p3) => match bezier_list(0, cur, p1, p2, p3) {
                    None => None,
                    Some(coords) => line_actions(Position::Absolute, m, cur, coords),
                },
            },
        },
    }
}

/// A whole Move command: the first pair, resolved against the pen, becomes
/// both the new subpath start and the pen's position; the button is
/// released; any remaining pairs are drawn as an implicit line from that
/// start, in the command's own mode.
pub open spec fn move_steps(mode: Position, m: Mapping, cur: RatPoint, ps: Seq<Rat>) -> Option<
    (RatPoint, RatPoint, Seq<ActionV>),
>
{
    match resolve_step(mode, cur, ps[0], ps[1]) {
        None => None,
        Some(sub) => {
            if ps.len() > 2 {
                match line_actions(mode, m, sub, ps.skip(2)) {
                    None => None,
                    Some((fin, acts)) => Some((fin, sub, seq![ActionV::ReleaseV] + acts)),
                }
            } else {
                Some((sub, sub, seq![ActionV::ReleaseV]))
            }
        },
    }
}

/// A whole Close command: a degenerate absolute line from the pen back to
/// the subpath's start.
pub open spec fn close_steps(m: Mapping, cur: RatPoint, start: RatPoint) -> Option<
    (RatPoint, Seq<ActionV>),
>
{
    line_actions(Position::Absolute, m, cur, seq![cur.x, cur.y, start.x, start.y])
}

/// The ideal endpoint of a run of relative pairs along one axis: each
/// offset at index `off` of its pair added to the running coordinate.
pub open spec fn rel_end(cur: Rat, ps: Seq<Rat>, off: int) -> Rat
    decreases ps.len(),
{
    if ps.len() < 2 {
        cur
    } else {
        rel_end(rat_add(cur, ps[off]), ps.skip(2), off)
    }
}

/// Accumulation is a congruence: equal starting coordinates accumulate to
/// equal endpoints.
proof fn lemma_rel_end_congr(a: Rat, b: Rat, ps: Seq<Rat>, off: int)
    requires
        0 <= off <= 1,
        rat_eq(a, b),
    ensures
        rat_eq(rel_end(a, ps, off), rel_end(b, ps, off)),
    decreases ps.len(),
{
    if ps.len() >= 2 {
        lemma_add_congr(a, ps[off], b, ps[off]);
        lemma_rel_end_congr(rat_add(a, ps[off]), rat_add(b, ps[off]), ps.skip(2), off);
    }
}

/// Accumulation keeps the denominator positive.
proof fn lemma_rel_end_pos(cur: Rat, ps: Seq<Rat>, off: int)
    requires
        0 <= off <= 1,
        1 <= cur.d,
        forall|i: int| 0 <= i < ps.len() ==> 1 <= (#[trigger] ps[i]).d,
    ensures
        1 <= rel_end(cur, ps, off).d,
    decreases ps.len(),
{
    if ps.len() >= 2 {
        lemma_mul_strictly_positive(cur.d, ps[off].d);
        assert(forall|i: int|
            0 <= i < ps.skip(2).len() ==> 1 <= (#[trigger] ps.skip(2)[i]).d);
        lemma_rel_end_pos(rat_add(cur, ps[off]), ps.skip(2), off);
    }
}

/// Relative accumulation law: a relative line ends the pen on the exact sum
/// of the starting point and all its offsets, accumulated in source space.
pub proof fn lemma_relative_line_accumulates(m: Mapping, cur: RatPoint, ps: Seq<Rat>)
    requires
        ps.len() % 2 == 0,
        point_wf(cur),
        forall|i: int| 0 <= i < ps.len() ==> 1 <= (#[trigger] ps[i]).d,
    ensures
        line_steps(Position::Relative, m, cur, ps) matches Some((fin, moves)) ==> rat_eq(
            fin.x,
            rel_end(cur.x, ps, 0),
        ) && rat_eq(fin.y, rel_end(cur.y, ps, 1)),
    decreases ps.len(),
{
    if ps.len() >= 2 && line_steps(Position::Relative, m, cur, ps) is Some {
        let nxt = resolve_step(Position::Relative, cur, ps[0], ps[1])->Some_0;
        lemma_mul_strictly_positive(cur.x.d, ps[0].d);
        lemma_mul_strictly_positive(cur.y.d, ps[1].d);
        lemma_norm(rat_add(cur.x, ps[0]));
        lemma_norm(rat_add(cur.y, ps[1]));
        assert(forall|i: int|
            0 <= i < ps.skip(2).len() ==> 1 <= (#[trigger] ps.skip(2)[i]).d);
        lemma_relative_line_accumulates(m, nxt, ps.skip(2));
        let (fin, moves) = line_steps(Position::Relative, m, cur, ps)->Some_0;
        lemma_rel_end_congr(nxt.x, rat_add(cur.x, ps[0]), ps.skip(2), 0);
        lemma_rel_end_congr(nxt.y, rat_add(cur.y, ps[1]), ps.skip(2), 1);
        lemma_rel_end_pos(nxt.x, ps.skip(2), 0);
        lemma_rel_end_pos(nxt.y, ps.skip(2), 1);
        lemma_rat_eq_trans(fin.x, rel_end(nxt.x, ps.skip(2), 0), rel_end(cur.x, ps, 0));
        lemma_rat_eq_trans(fin.y, rel_end(nxt.y, ps.skip(2), 1), rel_end(cur.y, ps, 1));
    }
}

/// The number of pointer-motion actions in an action list.
pub open spec fn count_moves(s: Seq<ActionV>) -> int
    decreases s.len(),
{
    if s.len() == 0 {
        0
    } else {
        (if s[0] is MoveToV {
            1int
        } else {
            0int
        }) + count_moves(s.skip(1))
    }
}

/// The number of press actions in an action list.
pub open spec fn count_press(s: Seq<ActionV>) -> int
    decreases s.len(),
{
    if s.len() == 0 {
        0
    } else {
        (if s[0] is PressV {
            1int
        } else {
            0int
        }) + count_press(s.skip(1))
    }
}

/// A list of pointer motions alone counts as all moves and no presses.
pub proof fn lemma_count_all_moves(s: Seq<ActionV>)
    requires
        forall|i: int| 0 <= i < s.len() ==> (#[trigger] s[i]) is MoveToV,
    ensures
        count_moves(s) == s.len(),
        count_press(s) == 0,
    decreases s.len(),
{
    if s.len() > 0 {
        assert(s[0] is MoveToV);
        assert(forall|i: int|
            0 <= i < s.skip(1).len() ==> (#[trigger] s.skip(1)[i]) is MoveToV);
        lemma_count_all_moves(s.skip(1));
    }
}

/// The counts of an action list shaped release, move, press, then motions.
pub proof fn lemma_count_release_head(acts: Seq<ActionV>)
    requires
        acts.len() >= 3,
        acts[0] is ReleaseV,
        acts[1] is MoveToV,
        acts[2] is PressV,
        forall|j: int| 3 <= j < acts.len() ==> (#[trigger] acts[j]) is MoveToV,
    ensures
        count_moves(acts) == acts.len() - 2,
        count_press(acts) == 1,
{
    assert(forall|i: int|
        0 <= i < acts.skip(3).len() ==> (#[trigger] acts.skip(3)[i]) is MoveToV);
    lemma_count_all_moves(acts.skip(3));
    assert(acts.skip(1).skip(1) =~= acts.skip(2));
    assert(acts.skip(2).skip(1) =~= acts.skip(3));
    assert(acts.skip(1)[0] == acts[1]);
    assert(acts.skip(2)[0] == acts[2]);
    assert(count_moves(acts) == count_moves(acts.skip(1)));
    assert(count_moves(acts.skip(1)) == 1 + count_moves(acts.skip(2)));
    assert(count_moves(acts.skip(2)) == count_moves(acts.skip(3)));
    assert(count_press(acts) == count_press(acts.skip(1)));
    assert(count_press(acts.skip(1)) == count_press(acts.skip(2)));
    assert(count_press(acts.skip(2)) == 1 + count_press(acts.skip(3)));
}

/// The counts of an action list shaped move, press, then motions.
pub proof fn lemma_count_press_head(acts: Seq<ActionV>)
    requires
        acts.len() >= 2,
        acts[0] is MoveToV,
        acts[1] is PressV,
        forall|j: int| 2 <= j < acts.len() ==> (#[trigger] acts[j]) is MoveToV,
    ensures
        count_moves(acts) == acts.len() - 1,
        count_press(acts) == 1,
{
    assert(forall|i: int|
        0 <= i < acts.skip(2).len() ==> (#[trigger] acts.skip(2)[i]) is MoveToV);
    lemma_count_all_moves(acts.skip(2));
    assert(acts.skip(1).skip(1) =~= acts.skip(2));
    assert(acts.skip(1)[0] == acts[1]);
    assert(count_moves(acts) == 1 + count_moves(acts.skip(1)));
    assert(count_moves(acts.skip(1)) == count_moves(acts.skip(2)));
    assert(count_press(acts) == count_press(acts.skip(1)));
    assert(count_press(acts.skip(1)) == 1 + count_press(acts.skip(2)));
}

/// The shape of a successful line run: one destination target per pair, and
/// in absolute mode the pen ends on the last pair as given.
pub proof fn lemma_line_steps_shape(mode: Position, m: Mapping, cur: RatPoint, ps: Seq<Rat>)
    requires
        ps.len() % 2 == 0,
    ensures
        line_steps(mode, m, cur, ps) matches Some((fin, moves)) ==> ({
            &&& moves.len() == ps.len() / 2
            &&& (mode is Absolute && ps.len() >= 2 ==> fin == (RatPoint {
                x: ps[ps.len() - 2],
                y: ps[ps.len() - 1],
            }))
            &&& (ps.len() == 0 ==> fin == cur)
        }),
    decreases ps.len(),
{
    if ps.len() >= 2 && line_steps(mode, m, cur, ps) is Some {
        let nxt = resolve_step(mode, cur, ps[0], ps[1])->Some_0;
        lemma_line_steps_shape(mode, m, nxt, ps.skip(2));
        assert(ps.skip(2).len() == ps.len() - 2);
        if ps.len() > 2 {
            assert(ps.skip(2)[ps.len() - 4] == ps[ps.len() - 2]);
            assert(ps.skip(2)[ps.len() - 3] == ps[ps.len() - 1]);
        }
    }
}

/// Move-then-line law: a Move command with more than one absolute pair ends
/// the pen on the last pair, and the device sees one release first, then one
/// pointer motion per pair with a single press and no further release.
pub proof fn lemma_move_then_line(m: Mapping, cur: RatPoint, ps: Seq<Rat>)
    requires
        ps.len() > 2,
        ps.len() % 2 == 0,
    ensures
        move_steps(Position::Absolute, m, cur, ps) matches Some((fin, sub, acts)) ==> ({
            &&& fin == (RatPoint { x: ps[ps.len() - 2], y: ps[ps.len() - 1] })
            &&& sub == (RatPoint { x: ps[0], y: ps[1] })
            &&& count_moves(acts) == ps.len() / 2
            &&& count_press(acts) == 1
            &&& acts.len() == 2 + ps.len() / 2
            &&& acts[0] is ReleaseV
            &&& forall|i: int| 1 <= i < acts.len() ==> !((#[trigger] acts[i]) is ReleaseV)
        }),
{
    let steps = move_steps(Position::Absolute, m, cur, ps);
    if steps is Some {
        let c1 = RatPoint { x: ps[0], y: ps[1] };
        let rest = ps.skip(2);
        let (fin, moves) = line_steps(Position::Absolute, m, c1, rest)->Some_0;
        lemma_line_steps_shape(Position::Absolute, m, c1, rest);
        assert(rest[rest.len() - 2] == ps[ps.len() - 2]);
        assert(rest[rest.len() - 1] == ps[ps.len() - 1]);
        let acts = steps->Some_0.2;
        assert(acts.len() == 3 + moves.len());
        assert(acts[0] is ReleaseV);
        assert(acts[1] is MoveToV);
        assert(acts[2] is PressV);
        assert forall|j: int| 3 <= j < acts.len() implies (#[trigger] acts[j]) is MoveToV by {
            assert(acts[j] == moves.map_values(|p: RatPoint| ActionV::MoveToV(p))[j - 3]);
        }
        lemma_count_release_head(acts);
    }
}

/// The sample list of a successful cubic run holds one coordinate pair for
/// each of the eleven parameter values.
pub proof fn lemma_bezier_list_len(k: int, p0: RatPoint, p1: RatPoint, p2: RatPoint, p3: RatPoint)
    requires
        0 <= k <= 11,
    ensures
        bezier_list(k, p0, p1, p2, p3) matches Some(fc) ==> fc.len() == 2 * (11 - k),
    decreases 11 - k,
{
    if k <= 10 && bezier_list(k, p0, p1, p2, p3) is Some {
        lemma_bezier_list_len(k + 1, p0, p1, p2, p3);
    }
}

/// Cubic sampling law: a successful cubic command resolves to exactly eleven
/// destination targets, visited after the pen's own mapped position, with a
/// single press.
pub proof fn lemma_cubic_sample_count(mode: Position, m: Mapping, cur: RatPoint, ps: Seq<Rat>)
    requires
        ps.len() >= 6,
    ensures
        cubic_steps(mode, m, cur, ps) matches Some((fin, acts)) ==> ({
            &&& acts.len() == 13
            &&& count_moves(acts) == 12
            &&& count_press(acts) == 1
        }),
{
    if cubic_steps(mode, m, cur, ps) is Some {
        let p1 = resolve_step(mode, cur, ps[0], ps[1])->Some_0;
        let p2 = resolve_step(mode, cur, ps[2], ps[3])->Some_0;
        let p3 = resolve_step(mode, cur, ps[4], ps[5])->Some_0;
        let coords = bezier_list(0, cur, p1, p2, p3)->Some_0;
        lemma_bezier_list_len(0, cur, p1, p2, p3);
        let (fin, moves) = line_steps(Position::Absolute, m, cur, coords)->Some_0;
        lemma_line_steps_shape(Position::Absolute, m, cur, coords);
        let acts = cubic_steps(mode, m, cur, ps)->Some_0.1;
        assert(acts.len() == 2 + moves.len());
        assert(acts[0] is MoveToV);
        assert(acts[1] is PressV);
        assert forall|j: int| 2 <= j < acts.len() implies (#[trigger] acts[j]) is MoveToV by {
            assert(acts[j] == moves.map_values(|p: RatPoint| ActionV::MoveToV(p))[j - 2]);
        }
        lemma_count_press_head(acts);
    }
}

/// The last pair of a successful sample list is the sample at `t = 1`.
pub proof fn lemma_bezier_list_last(k: int, p0: RatPoint, p1: RatPoint, p2: RatPoint, p3: RatPoint)
    requires
        0 <= k <= 10,
    ensures
        bezier_list(k, p0, p1, p2, p3) matches Some(fc) ==> ({
            let bx = bezier_coord_steps(10, p0.x, p1.x, p2.x, p3.x);
            let by = bezier_coord_steps(10, p0.y, p1.y, p2.y, p3.y);
            &&& bx is Some
            &&& by is Some
            &&& fc[2 * (10 - k)] == bx->Some_0
            &&& fc[2 * (10 - k) + 1] == by->Some_0
        }),
    decreases 10 - k,
{
    if bezier_list(k, p0, p1, p2, p3) is Some {
        if k < 10 {
            lemma_bezier_list_last(k + 1, p0, p1, p2, p3);
            lemma_bezier_list_len(k + 1, p0, p1, p2, p3);
        }
    }
}

/// The first and last destination targets of a successful absolute line are
/// the mapped first and last coordinate pairs.
pub proof fn lemma_line_steps_first_last(m: Mapping, cur: RatPoint, ps: Seq<Rat>)
    requires
        ps.len() >= 2,
        ps.len() % 2 == 0,
    ensures
        line_steps(Position::Absolute, m, cur, ps) matches Some((fin, moves)) ==> ({
            &&& moves.len() == ps.len() / 2
            &&& map_point(m, RatPoint { x: ps[0], y: ps[1] }) == Some(moves[0])
            &&& map_point(m, RatPoint { x: ps[ps.len() - 2], y: ps[ps.len() - 1] }) == Some(
                moves[moves.len() - 1],
            )
        }),
    decreases ps.len(),
{
    if line_steps(Position::Absolute, m, cur, ps) is Some {
        let nxt = resolve_step(Position::Absolute, cur, ps[0], ps[1])->Some_0;
        lemma_line_steps_shape(Position::Absolute, m, cur, ps);
        if ps.len() > 2 {
            lemma_line_steps_first_last(m, nxt, ps.skip(2));
            assert(ps.skip(2)[0] == ps[2]);
            assert(ps.skip(2)[1] == ps[3]);
            assert(ps.skip(2)[ps.len() - 4] == ps[ps.len() - 2]);
            assert(ps.skip(2)[ps.len() - 3] == ps[ps.len() - 1]);
        }
    }
}

/// Cubic endpoint law: the first of the eleven samples is the pen's own
/// position mapped, and the last is the resolved endpoint mapped.
pub proof fn lemma_cubic_endpoint_values(mode: Position, m: Mapping, cur: RatPoint, ps: Seq<Rat>)
    requires
        ps.len() >= 6,
        mapping_wf(m),
        point_wf(cur),
        forall|i: int| 0 <= i < ps.len() ==> 1 <= (#[trigger] ps[i]).d,
    ensures
        cubic_steps(mode, m, cur, ps) matches Some((fin, acts)) ==> ({
            let p3 = resolve_step(mode, cur, ps[4], ps[5])->Some_0;
            &&& acts.len() == 13
            &&& acts[2] matches ActionV::MoveToV(first) && rat_eq(
                first.x,
                rat_map(cur.x, m.sw, m.dw, m.dx),
            ) && rat_eq(first.y, rat_map(cur.y, m.sh, m.dh, m.dy))
            &&& acts[12] matches ActionV::MoveToV(last_t) && rat_eq(
                last_t.x,
                rat_map(p3.x, m.sw, m.dw, m.dx),
            ) && rat_eq(last_t.y, rat_map(p3.y, m.sh, m.dh, m.dy))
        }),
{
    broadcast use vstd::arithmetic::mul::lemma_mul_nonzero;

    if cubic_steps(mode, m, cur, ps) is Some {
        lemma_cubic_sample_count(mode, m, cur, ps);
        let p1 = resolve_step(mode, cur, ps[0], ps[1])->Some_0;
        let p2 = resolve_step(mode, cur, ps[2], ps[3])->Some_0;
        let p3 = resolve_step(mode, cur, ps[4], ps[5])->Some_0;
        assert(point_wf(p1) && point_wf(p2) && point_wf(p3));
        let coords = bezier_list(0, cur, p1, p2, p3)->Some_0;
        lemma_bezier_list_len(0, cur, p1, p2, p3);
        lemma_bezier_list_last(0, cur, p1, p2, p3);
        let bx0 = bezier_coord_steps(0, cur.x, p1.x, p2.x, p3.x)->Some_0;
        let by0 = bezier_coord_steps(0, cur.y, p1.y, p2.y, p3.y)->Some_0;
        let bx10 = bezier_coord_steps(10, cur.x, p1.x, p2.x, p3.x)->Some_0;
        let by10 = bezier_coord_steps(10, cur.y, p1.y, p2.y, p3.y)->Some_0;
        assert(coords[0] == bx0 && coords[1] == by0);
        assert(coords[20] == bx10 && coords[21] == by10);
        lemma_bezier_start(cur.x, p1.x, p2.x, p3.x);
        lemma_bezier_start(cur.y, p1.y, p2.y, p3.y);
        lemma_bezier_end(cur.x, p1.x, p2.x, p3.x);
        lemma_bezier_end(cur.y, p1.y, p2.y, p3.y);
        let (fin, moves) = line_steps(Position::Absolute, m, cur, coords)->Some_0;
        lemma_line_steps_first_last(m, cur, coords);
        let acts = cubic_steps(mode, m, cur, ps)->Some_0.1;
        assert(acts[2] == moves.map_values(|p: RatPoint| ActionV::MoveToV(p))[0]);
        assert(acts[12] == moves.map_values(|p: RatPoint| ActionV::MoveToV(p))[10]);
        let f = moves[0];
        let l = moves[10];
        // the first target denotes the mapped pen position
        lemma_map_steps_value(bx0, m.sw, m.dw, m.dx);
        lemma_map_steps_value(by0, m.sh, m.dh, m.dy);
        lemma_mul_congr(bx0, rat_div(m.dw, m.sw), cur.x, rat_div(m.dw, m.sw));
        lemma_add_congr(
            rat_mul(bx0, rat_div(m.dw, m.sw)),
            m.dx,
            rat_mul(cur.x, rat_div(m.dw, m.sw)),
            m.dx,
        );
        lemma_rat_eq_trans(f.x, rat_map(bx0, m.sw, m.dw, m.dx), rat_map(cur.x, m.sw, m.dw, m.dx));
        lemma_mul_congr(by0, rat_div(m.dh, m.sh), cur.y, rat_div(m.dh, m.sh));
        lemma_add_congr(
            rat_mul(by0, rat_div(m.dh, m.sh)),
            m.dy,
            rat_mul(cur.y, rat_div(m.dh, m.sh)),
            m.dy,
        );
        lemma_rat_eq_trans(f.y, rat_map(by0, m.sh, m.dh, m.dy), rat_map(cur.y, m.sh, m.dh, m.dy));
        // the last target denotes the mapped endpoint
        lemma_map_steps_value(bx10, m.sw, m.dw, m.dx);
        lemma_map_steps_value(by10, m.sh, m.dh, m.dy);
        lemma_mul_congr(bx10, rat_div(m.dw, m.sw), p3.x, rat_div(m.dw, m.sw));
        lemma_add_congr(
            rat_mul(bx10, rat_div(m.dw, m.sw)),
            m.dx,
            rat_mul(p3.x, rat_div(m.dw, m.sw)),
            m.dx,
        );
        lemma_rat_eq_trans(l.x, rat_map(bx10, m.sw, m.dw, m.dx), rat_map(p3.x, m.sw, m.dw, m.dx));
        lemma_mul_congr(by10, rat_div(m.dh, m.sh), p3.y, rat_div(m.dh, m.sh));
        lemma_add_congr(
            rat_mul(by10, rat_div(m.dh, m.sh)),
            m.dy,
            rat_mul(p3.y, rat_div(m.dh, m.sh)),
            m.dy,
        );
        lemma_rat_eq_trans(l.y, rat_map(by10, m.sh, m.dh, m.dy), rat_map(p3.y, m.sh, m.dh, m.dy));
    }
}

/// Close-without-subpath law: closing against the pen's own position is a
/// degenerate stroke, every target the pen's mapped position, ending where
/// it began.
pub proof fn lemma_close_degenerate(m: Mapping, cur: RatPoint)
    ensures
        close_steps(m, cur, cur) matches Some((fin, acts)) ==> ({
            &&& fin == cur
            &&& map_point(m, cur) matches Some(c0) && acts =~= seq![
                ActionV::MoveToV(c0),
                ActionV::PressV,
                ActionV::MoveToV(c0),
                ActionV::MoveToV(c0),
            ]
        }),
{
    let ps = seq![cur.x, cur.y, cur.x, cur.y];
    if close_steps(m, cur, cur) is Some {
        let c0 = map_point(m, cur)->Some_0;
        assert(cur =~= (RatPoint { x: cur.x, y: cur.y }));
        assert(ps.skip(2) =~= seq![cur.x, cur.y]);
        assert(ps.skip(2).skip(2) =~= Seq::<Rat>::empty());
        assert(resolve_step(Position::Absolute, cur, ps[0], ps[1]) == Some(cur));
        assert(resolve_step(Position::Absolute, cur, ps.skip(2)[0], ps.skip(2)[1]) == Some(cur));
        assert(line_steps(Position::Absolute, m, cur, ps.skip(2).skip(2)) == Some(
            (cur, Seq::<RatPoint>::empty()),
        ));
        assert(line_steps(Position::Absolute, m, cur, ps.skip(2)) == Some(
            (cur, seq![c0] + Seq::<RatPoint>::empty()),
        ));
        let (fin, moves) = line_steps(Position::Absolute, m, cur, ps)->Some_0;
        assert(moves =~= seq![c0] + (seq![c0] + Seq::<RatPoint>::empty()));
        assert(moves =~= seq![c0, c0]);
        let mapped = moves.map_values(|p: RatPoint| ActionV::MoveToV(p));
        let acts = close_steps(m, cur, cur)->Some_0.1;
        assert(acts =~= seq![ActionV::MoveToV(c0), ActionV::PressV] + mapped);
        assert(acts =~= seq![
            ActionV::MoveToV(c0),
            ActionV::PressV,
            ActionV::MoveToV(c0),
            ActionV::MoveToV(c0),
        ]);
    }
}

/// The interpreter's state for one path: the pen's position, the subpath's
/// start if one is open, and the session's two rectangles.
pub struct Painter {
    pub current_point: SvgPoint,
    pub subpath_initial_point: Option<SvgPoint>,
    pub svg_area: Rect,
    pub screen_area: Rect,
}

impl Painter {
    pub open spec fn wf(self) -> bool {
        &&& self.svg_area.wf()
        &&& self.screen_area.wf()
        &&& self.current_point.wf()
        &&& self.current_point.svg_area == self.svg_area
        &&& self.current_point.screen_area == self.screen_area
        &&& match self.subpath_initial_point {
            Some(p) => p.wf() && p.svg_area == self.svg_area && p.screen_area == self.screen_area,
            None => true,
        }
    }

    /// The session mapping of this interpreter.
    pub open spec fn mapping(self) -> Mapping {
        areas_view(self.svg_area, self.screen_area)
    }

    /// The pen's position as rational coordinates.
    pub open spec fn cur(self) -> RatPoint {
        RatPoint { x: self.current_point.x@, y: self.current_point.y@ }
    }

    /// The open subpath's start as rational coordinates, if one is open.
    pub open spec fn sub(self) -> Option<RatPoint> {
        match self.subpath_initial_point {
            Some(p) => Some(RatPoint { x: p.x@, y: p.y@ }),
            None => None,
        }
    }

    /// A fresh interpreter: subpath closed, pen at the source-space origin.
    pub fn new(svg_area: Rect, screen_area: Rect) -> (r: Painter)
        requires
            svg_area.wf(),
            screen_area.wf(),
        ensures
            r.wf(),
            r.svg_area == svg_area,
            r.screen_area == screen_area,
            r.cur() == (RatPoint { x: rat_int(0), y: rat_int(0) }),
            r.sub() is None,
    {
        let zero = Scalar::from_int(0);
        Painter {
            current_point: SvgPoint::new(zero, zero, &svg_area, &screen_area),
            subpath_initial_point: None,
            svg_area,
            screen_area,
        }
    }

    /// One coordinate pair resolved against the pen, as a point of this
    /// interpreter's session.
    fn resolve_point(&self, mode: Position, px: Scalar, py: Scalar) -> (r: Option<SvgPoint>)
        requires
            self.wf(),
            px.wf(),
            py.wf(),
        ensures
            r is Some <==> resolve_step(mode, self.cur(), px@, py@) is Some,
            r matches Some(p) ==> p.wf() && p.svg_area == self.svg_area && p.screen_area
                == self.screen_area && resolve_step(mode, self.cur(), px@, py@) == Some(
                RatPoint { x: p.x@, y: p.y@ },
            ),
    {
        match mode {
            Position::Absolute => Some(SvgPoint::new(px, py, &self.svg_area, &self.screen_area)),
            Position::Relative => self.current_point.offset(px, py),
        }
    }

    /// The line-drawing engine shared by every drawable command: walks the
    /// coordinate pairs, updates the pen, and collects the pointer actions.
    /// On `Err` the interpreter is unchanged.
    fn perform_line(&mut self, position_type: Position, params: &Vec<Scalar>) -> (r: Result<
        Vec<PointerAction>,
        MyError,
    >)
        requires
            old(self).wf(),
            params_wf(params@),
            params@.len() >= 2,
            params@.len() % 2 == 0,
        ensures
            final(self).wf(),
            final(self).svg_area == old(self).svg_area,
            final(self).screen_area == old(self).screen_area,
            final(self).subpath_initial_point == old(self).subpath_initial_point,
            match line_actions(
                position_type,
                old(self).mapping(),
                old(self).cur(),
                params_view(params@),
            ) {
                None => r is Err && *final(self) == *old(self),
                Some((fin, acts)) => r matches Ok(a) && actions_match(a@, acts)
                    && final(self).cur() == fin,
            },
    {
        let ghost m = old(self).mapping();
        let ghost ps = params_view(params@);
        let ghost cur0 = old(self).cur();
        let mut acts: Vec<PointerAction> = Vec::new();
        let start_screen = match self.current_point.to_screen() {
            Some(sp) => sp,
            None => {
                return Err(MyError::new("a mapped coordinate left machine range".to_owned()));
            },
        };
        acts.push(PointerAction::MoveTo(start_screen.x(), start_screen.y()));
        acts.push(PointerAction::Press);
        let ghost c0 = RatPoint { x: start_screen.x@, y: start_screen.y@ };
        let mut cur = self.current_point;
        let mut index: usize = 0;
        proof {
            assert(ps.skip(0) =~= ps);
        }
        while index < params.len()
            invariant
                self == old(self),
                old(self).wf(),
                params_wf(params@),
                ps == params_view(params@),
                m == old(self).mapping(),
                cur0 == old(self).cur(),
                params@.len() % 2 == 0,
                index % 2 == 0,
                index <= params@.len(),
                cur.wf(),
                cur.svg_area == old(self).svg_area,
                cur.screen_area == old(self).screen_area,
                map_point(m, cur0) == Some(c0),
                ({
                    let full = line_steps(position_type, m, cur0, ps);
                    let rest = line_steps(
                        position_type,
                        m,
                        RatPoint { x: cur.x@, y: cur.y@ },
                        ps.skip(index as int),
                    );
                    &&& (full is Some <==> rest is Some)
                    &&& (full matches Some((ffin, fmoves)) ==> rest matches Some((rfin, rmoves))
                        && ffin == rfin && fmoves.len() == index as int / 2 + rmoves.len()
                        && rmoves == fmoves.skip(index as int / 2) && acts@.len() == 2 + index
                            as int / 2 && actions_match(
                        acts@,
                        seq![ActionV::MoveToV(c0), ActionV::PressV] + fmoves.take(
                            index as int / 2,
                        ).map_values(|p: RatPoint| ActionV::MoveToV(p)),
                    ))
                }),
            decreases params@.len() - index,
        {
            let px = params[index];
            let py = params[index + 1];
            let ghost cur_v = RatPoint { x: cur.x@, y: cur.y@ };
            let ghost rest_pre = ps.skip(index as int);
            proof {
                assert(rest_pre[0] == ps[index as int]);
                assert(rest_pre[1] == ps[index as int + 1]);
                assert(rest_pre.skip(2) =~= ps.skip(index as int + 2));
            }
            match position_type {
                Position::Relative => {
                    match cur.offset(px, py) {
                        Some(c) => {
                            cur = c;
                        },
                        None => {
                            return Err(
                                MyError::new("a coordinate left machine range".to_owned()),
                            );
                        },
                    }
                },
                Position::Absolute => {
                    cur = SvgPoint::new(px, py, &self.svg_area, &self.screen_area);
                },
            }
            proof {
                assert(resolve_step(position_type, cur_v, rest_pre[0], rest_pre[1]) == Some(
                    RatPoint { x: cur.x@, y: cur.y@ },
                ));
            }
            let screen = match cur.to_screen() {
                Some(sp) => sp,
                None => {
                    return Err(MyError::new("a mapped coordinate left machine range".to_owned()));
                },
            };
            acts.push(PointerAction::MoveTo(screen.x(), screen.y()));
            index = index + 2;
            proof {
                let full = line_steps(position_type, m, cur0, ps);
                let rest = line_steps(
                    position_type,
                    m,
                    RatPoint { x: cur.x@, y: cur.y@ },
                    ps.skip(index as int),
                );
                if full is Some {
                    let (ffin, fmoves) = full->Some_0;
                    let (rfin, rmoves) = rest->Some_0;
                    assert(fmoves.skip(index as int / 2 - 1)[0] == fmoves[index as int / 2 - 1]);
                    assert(fmoves.skip(index as int / 2 - 1).skip(1) =~= fmoves.skip(
                        index as int / 2,
                    ));
                    assert(fmoves.take(index as int / 2) =~= fmoves.take(index as int / 2 - 1)
                        + seq![fmoves[index as int / 2 - 1]]);
                    assert(actions_match(
                        acts@,
                        seq![ActionV::MoveToV(c0), ActionV::PressV] + fmoves.take(
                            index as int / 2,
                        ).map_values(|p: RatPoint| ActionV::MoveToV(p)),
                    ));
                }
            }
        }
        proof {
            assert(ps.skip(params@.len() as int) =~= Seq::<Rat>::empty());
            let full = line_steps(position_type, m, cur0, ps);
            if full is Some {
                let (ffin, fmoves) = full->Some_0;
                assert(fmoves.take(fmoves.len() as int) =~= fmoves);
            }
        }
        self.current_point = cur;
        Ok(acts)
    }

    /// The horizontal- and vertical-line engine: turns each parameter into a
    /// full coordinate pair against the running point, then draws the pairs
    /// as an absolute line. On `Err` the interpreter is unchanged.
    fn axis_line(&mut self, position_type: Position, horizontal: bool, params: &Vec<Scalar>) -> (r:
        Result<Vec<PointerAction>, MyError>)
        requires
            old(self).wf(),
            params_wf(params@),
            params@.len() >= 1,
        ensures
            final(self).wf(),
            final(self).svg_area == old(self).svg_area,
            final(self).screen_area == old(self).screen_area,
            final(self).subpath_initial_point == old(self).subpath_initial_point,
            match axis_actions(
                position_type,
                horizontal,
                old(self).mapping(),
                old(self).cur(),
                params_view(params@),
            ) {
                None => r is Err && *final(self) == *old(self),
                Some((fin, acts)) => r matches Ok(a) && actions_match(a@, acts)
                    && final(self).cur() == fin,
            },
    {
        let ghost m = old(self).mapping();
        let ghost ps = params_view(params@);
        let ghost cur0 = old(self).cur();
        let mut coords: Vec<Scalar> = Vec::new();
        let mut cur = self.current_point;
        let mut i: usize = 0;
        proof {
            assert(ps.skip(0) =~= ps);
        }
        while i < params.len()
            invariant
                self == old(self),
                old(self).wf(),
                params_wf(params@),
                ps == params_view(params@),
                m == old(self).mapping(),
                cur0 == old(self).cur(),
                i <= params@.len(),
                cur.wf(),
                cur.svg_area == old(self).svg_area,
                cur.screen_area == old(self).screen_area,
                coords@.len() == 2 * i,
                params_wf(coords@),
                ({
                    let full = axis_coords(position_type, horizontal, cur0, ps);
                    let rest = axis_coords(
                        position_type,
                        horizontal,
                        RatPoint { x: cur.x@, y: cur.y@ },
                        ps.skip(i as int),
                    );
                    &&& (full is Some <==> rest is Some)
                    &&& (full matches Some(fc) ==> rest matches Some(rc) && fc == params_view(
                        coords@,
                    ) + rc)
                }),
            decreases params@.len() - i,
        {
            let p = params[i];
            let ghost cur_v = RatPoint { x: cur.x@, y: cur.y@ };
            let ghost rest_pre = ps.skip(i as int);
            proof {
                assert(rest_pre[0] == ps[i as int]);
                assert(rest_pre.skip(1) =~= ps.skip(i as int + 1));
            }
            match position_type {
                Position::Relative => {
                    let z = Scalar::from_int(0);
                    let moved = if horizontal {
                        cur.offset(p, z)
                    } else {
                        cur.offset(z, p)
                    };
                    match moved {
                        Some(c) => {
                            cur = c;
                        },
                        None => {
                            return Err(
                                MyError::new("a coordinate left machine range".to_owned()),
                            );
                        },
                    }
                },
                Position::Absolute => {
                    cur = if horizontal {
                        SvgPoint::new(p, cur.y(), &self.svg_area, &self.screen_area)
                    } else {
                        SvgPoint::new(cur.x(), p, &self.svg_area, &self.screen_area)
                    };
                },
            }
            let ghost prev_coords = coords@;
            coords.push(cur.x());
            coords.push(cur.y());
            i = i + 1;
            proof {
                assert(params_view(coords@) =~= params_view(prev_coords) + seq![cur.x@, cur.y@]);
                let full = axis_coords(position_type, horizontal, cur0, ps);
                let rest = axis_coords(
                    position_type,
                    horizontal,
                    RatPoint { x: cur.x@, y: cur.y@ },
                    ps.skip(i as int),
                );
                if full is Some {
                    assert(full->Some_0 =~= params_view(coords@) + rest->Some_0);
                }
            }
        }
        proof {
            assert(ps.skip(params@.len() as int) =~= Seq::<Rat>::empty());
            let full = axis_coords(position_type, horizontal, cur0, ps);
            if full is Some {
                assert(full->Some_0 =~= params_view(coords@));
            }
        }
        self.perform_line(Position::Absolute, &coords)
    }

    /// The cubic-curve engine: resolves the two control points and the
    /// endpoint, samples the curve at the eleven `t` values, and draws the
    /// samples as an absolute line. On `Err` the interpreter is unchanged.
    #[verifier::rlimit(50)]
    fn perform_cubic_curve(&mut self, position_type: Position, params: &Vec<Scalar>) -> (r: Result<
        Vec<PointerAction>,
        MyError,
    >)
        requires
            old(self).wf(),
            params_wf(params@),
            params@.len() >= 6,
        ensures
            final(self).wf(),
            final(self).svg_area == old(self).svg_area,
            final(self).screen_area == old(self).screen_area,
            final(self).subpath_initial_point == old(self).subpath_initial_point,
            match cubic_steps(
                position_type,
                old(self).mapping(),
                old(self).cur(),
                params_view(params@),
            ) {
                None => r is Err && *final(self) == *old(self),
                Some((fin, acts)) => r matches Ok(a) && actions_match(a@, acts)
                    && final(self).cur() == fin,
            },
    {
        let ghost ps = params_view(params@);
        proof {
            assert(ps[0] == params@[0]@);
            assert(ps[1] == params@[1]@);
            assert(ps[2] == params@[2]@);
            assert(ps[3] == params@[3]@);
            assert(ps[4] == params@[4]@);
            assert(ps[5] == params@[5]@);
        }
        let p0 = self.current_point;
        let p1 = match self.resolve_point(position_type, params[0], params[1]) {
            Some(p) => p,
            None => {
                return Err(MyError::new("a coordinate left machine range".to_owned()));
            },
        };
        let p2 = match self.resolve_point(position_type, params[2], params[3]) {
            Some(p) => p,
            None => {
                return Err(MyError::new("a coordinate left machine range".to_owned()));
            },
        };
        let p3 = match self.resolve_point(position_type, params[4], params[5]) {
            Some(p) => p,
            None => {
                return Err(MyError::new("a coordinate left machine range".to_owned()));
            },
        };
        let ghost pv0 = RatPoint { x: p0.x@, y: p0.y@ };
        let ghost pv1 = RatPoint { x: p1.x@, y: p1.y@ };
        let ghost pv2 = RatPoint { x: p2.x@, y: p2.y@ };
        let ghost pv3 = RatPoint { x: p3.x@, y: p3.y@ };
        let mut coords: Vec<Scalar> = Vec::new();
        let mut k: i64 = 0;
        while k <= 10
            invariant
                self == old(self),
                old(self).wf(),
                0 <= k <= 11,
                p0 == old(self).current_point,
                pv0 == old(self).cur(),
                p1.wf() && p2.wf() && p3.wf(),
                pv1 == (RatPoint { x: p1.x@, y: p1.y@ }),
                pv2 == (RatPoint { x: p2.x@, y: p2.y@ }),
                pv3 == (RatPoint { x: p3.x@, y: p3.y@ }),
                ps == params_view(params@),
                params_wf(params@),
                params@.len() >= 6,
                resolve_step(position_type, pv0, ps[0], ps[1]) == Some(pv1),
                resolve_step(position_type, pv0, ps[2], ps[3]) == Some(pv2),
                resolve_step(position_type, pv0, ps[4], ps[5]) == Some(pv3),
                coords@.len() == 2 * k,
                params_wf(coords@),
                ({
                    let full = bezier_list(0, pv0, pv1, pv2, pv3);
                    let rest = bezier_list(k as int, pv0, pv1, pv2, pv3);
                    &&& (full is Some <==> rest is Some)
                    &&& (full matches Some(fc) ==> rest matches Some(rc) && fc == params_view(
                        coords@,
                    ) + rc)
                }),
            decreases 11 - k,
        {
            let bx = match bezier_coord(k, p0.x, p1.x, p2.x, p3.x) {
                Some(v) => v,
                None => {
                    proof {
                        assert(bezier_list(k as int, pv0, pv1, pv2, pv3) is None);
                    }
                    return Err(MyError::new("a coordinate left machine range".to_owned()));
                },
            };
            let by = match bezier_coord(k, p0.y, p1.y, p2.y, p3.y) {
                Some(v) => v,
                None => {
                    proof {
                        assert(bezier_list(k as int, pv0, pv1, pv2, pv3) is None);
                    }
                    return Err(MyError::new("a coordinate left machine range".to_owned()));
                },
            };
            let ghost prev_coords = coords@;
            coords.push(bx);
            coords.push(by);
            k = k + 1;
            proof {
                assert(params_view(coords@) =~= params_view(prev_coords) + seq![bx@, by@]);
                let full = bezier_list(0, pv0, pv1, pv2, pv3);
                let rest = bezier_list(k as int, pv0, pv1, pv2, pv3);
                if full is Some {
                    assert(full->Some_0 =~= params_view(coords@) + rest->Some_0);
                }
            }
        }
        proof {
            let full = bezier_list(0, pv0, pv1, pv2, pv3);
            if full is Some {
                assert(full->Some_0 =~= params_view(coords@));
            }
        }
        self.perform_line(Position::Absolute, &coords)
    }

    /// Closes the open subpath: draws back to its start and marks it closed.
    /// Called with no subpath open it reports the broken invariant as an
    /// error and changes nothing.
    pub fn perform_close(&mut self) -> (r: Result<Vec<PointerAction>, MyError>)
        requires
            old(self).wf(),
        ensures
            final(self).wf(),
            final(self).svg_area == old(self).svg_area,
            final(self).screen_area == old(self).screen_area,
            old(self).sub() is None ==> r is Err && *final(self) == *old(self),
            old(self).sub() matches Some(start) ==> match close_steps(
                old(self).mapping(),
                old(self).cur(),
                start,
            ) {
                None => r is Err && *final(self) == *old(self),
                Some((fin, acts)) => r matches Ok(a) && actions_match(a@, acts)
                    && final(self).cur() == fin && final(self).sub() is None,
            },
    {
        let start = match &self.subpath_initial_point {
            Some(p) => *p,
            None => {
                return Err(
                    MyError::new(
                        "the subpath's start is unexpectedly absent at close".to_owned(),
                    ),
                );
            },
        };
        let mut coords: Vec<Scalar> = Vec::new();
        coords.push(self.current_point.x());
        coords.push(self.current_point.y());
        coords.push(start.x());
        coords.push(start.y());
        proof {
            assert(params_view(coords@) =~= seq![
                old(self).cur().x,
                old(self).cur().y,
                start.x@,
                start.y@,
            ]);
        }
        match self.perform_line(Position::Absolute, &coords) {
            Ok(a) => {
                self.subpath_initial_point = None;
                Ok(a)
            },
            Err(e) => Err(e),
        }
    }

    /// Performs one path command: advances the pen and the subpath state and
    /// returns the pointer actions of the stroke, or the report that the
    /// command kind is not drawable. On `Err` (a coordinate left machine
    /// range) the interpreter is unchanged.
    pub fn perform_command(&mut self, command: &PathCommand) -> (r: Result<
        CommandOutcome,
        MyError,
    >)
        requires
            old(self).wf(),
            cmd_wf(*command),
        ensures
            final(self).wf(),
            final(self).svg_area == old(self).svg_area,
            final(self).screen_area == old(self).screen_area,
            r is Err ==> *final(self) == *old(self),
            (*command) matches PathCommand::Move(mode, ps) ==> (match move_steps(
                mode,
                old(self).mapping(),
                old(self).cur(),
                params_view(ps@),
            ) {
                None => r is Err,
                Some((fin, sub, acts)) => r matches Ok(o) && o matches CommandOutcome::Drawn(a)
                    && actions_match(a@, acts) && final(self).cur() == fin && final(self).sub()
                    == Some(sub),
            }),
            (*command) matches PathCommand::Line(mode, ps) ==> (match line_actions(
                mode,
                old(self).mapping(),
                old(self).cur(),
                params_view(ps@),
            ) {
                None => r is Err,
                Some((fin, acts)) => r matches Ok(o) && o matches CommandOutcome::Drawn(a)
                    && actions_match(a@, acts) && final(self).cur() == fin && final(self).sub()
                    == Some(adopted_start(*old(self))),
            }),
            (*command) matches PathCommand::HorizontalLine(mode, ps) ==> (match axis_actions(
                mode,
                true,
                old(self).mapping(),
                old(self).cur(),
                params_view(ps@),
            ) {
                None => r is Err,
                Some((fin, acts)) => r matches Ok(o) && o matches CommandOutcome::Drawn(a)
                    && actions_match(a@, acts) && final(self).cur() == fin && final(self).sub()
                    == Some(adopted_start(*old(self))),
            }),
            (*command) matches PathCommand::VerticalLine(mode, ps) ==> (match axis_actions(
                mode,
                false,
                old(self).mapping(),
                old(self).cur(),
                params_view(ps@),
            ) {
                None => r is Err,
                Some((fin, acts)) => r matches Ok(o) && o matches CommandOutcome::Drawn(a)
                    && actions_match(a@, acts) && final(self).cur() == fin && final(self).sub()
                    == Some(adopted_start(*old(self))),
            }),
            (*command) matches PathCommand::CubicCurve(mode, ps) ==> (if ps@.len() < 6 {
                &&& r matches Ok(o) && o is Unsupported
                &&& *final(self) == *old(self)
            } else {
                match cubic_steps(
                    mode,
                    old(self).mapping(),
                    old(self).cur(),
                    params_view(ps@),
                ) {
                    None => r is Err,
                    Some((fin, acts)) => r matches Ok(o) && o matches CommandOutcome::Drawn(a)
                        && actions_match(a@, acts) && final(self).cur() == fin
                        && final(self).sub() == Some(adopted_start(*old(self))),
                }
            }),
            ((*command) is QuadraticCurve || (*command) is SmoothQuadraticCurve || (*command)
                is SmoothCubicCurve || (*command) is EllipticalArc) ==> (r matches Ok(o) && o
                is Unsupported && *final(self) == *old(self)),
            (*command) is Close ==> (match close_steps(
                old(self).mapping(),
                old(self).cur(),
                adopted_start(*old(self)),
            ) {
                None => r is Err,
                Some((fin, acts)) => r matches Ok(o) && o matches CommandOutcome::Drawn(a)
                    && actions_match(a@, acts) && final(self).cur() == fin && final(self).sub()
                    is None,
            }),
    {
        match command {
            PathCommand::Move(mode, ps) => {
                let sub = match self.resolve_point(*mode, ps[0], ps[1]) {
                    Some(p) => p,
                    None => {
                        return Err(
                            MyError::new("a coordinate left machine range".to_owned()),
                        );
                    },
                };
                let saved = self.current_point;
                let mut acts: Vec<PointerAction> = Vec::new();
                acts.push(PointerAction::Release);
                if ps.len() > 2 {
                    let mut rest: Vec<Scalar> = Vec::new();
                    let mut i: usize = 2;
                    while i < ps.len()
                        invariant
                            2 <= i <= ps@.len(),
                            params_wf(ps@),
                            rest@ =~= ps@.subrange(2, i as int),
                        decreases ps@.len() - i,
                    {
                        rest.push(ps[i]);
                        i = i + 1;
                    }
                    proof {
                        assert(params_view(rest@) =~= params_view(ps@).skip(2));
                    }
                    self.current_point = sub;
                    match self.perform_line(*mode, &rest) {
                        Ok(la) => {
                            let mut la = la;
                            acts.append(&mut la);
                            self.subpath_initial_point = Some(sub);
                            proof {
                                let steps = move_steps(
                                    *mode,
                                    old(self).mapping(),
                                    old(self).cur(),
                                    params_view(ps@),
                                );
                                assert(actions_match(acts@, steps->Some_0.2));
                            }
                            Ok(CommandOutcome::Drawn(acts))
                        },
                        Err(e) => {
                            self.current_point = saved;
                            Err(e)
                        },
                    }
                } else {
                    self.current_point = sub;
                    self.subpath_initial_point = Some(sub);
                    proof {
                        let steps = move_steps(
                            *mode,
                            old(self).mapping(),
                            old(self).cur(),
                            params_view(ps@),
                        );
                        assert(actions_match(acts@, steps->Some_0.2));
                    }
                    Ok(CommandOutcome::Drawn(acts))
                }
            },
            PathCommand::Line(mode, ps) => {
                let adopted = match &self.subpath_initial_point {
                    Some(p) => *p,
                    None => self.current_point,
                };
                match self.perform_line(*mode, ps) {
                    Ok(a) => {
                        self.subpath_initial_point = Some(adopted);
                        Ok(CommandOutcome::Drawn(a))
                    },
                    Err(e) => Err(e),
                }
            },
            PathCommand::HorizontalLine(mode, ps) => {
                let adopted = match &self.subpath_initial_point {
                    Some(p) => *p,
                    None => self.current_point,
                };
                match self.axis_line(*mode, true, ps) {
                    Ok(a) => {
                        self.subpath_initial_point = Some(adopted);
                        Ok(CommandOutcome::Drawn(a))
                    },
                    Err(e) => Err(e),
                }
            },
            PathCommand::VerticalLine(mode, ps) => {
                let adopted = match &self.subpath_initial_point {
                    Some(p) => *p,
                    None => self.current_point,
                };
                match self.axis_line(*mode, false, ps) {
                    Ok(a) => {
                        self.subpath_initial_point = Some(adopted);
                        Ok(CommandOutcome::Drawn(a))
                    },
                    Err(e) => Err(e),
                }
            },
            PathCommand::CubicCurve(mode, ps) => {
                if ps.len() < 6 {
                    return Ok(CommandOutcome::Unsupported);
                }
                let adopted = match &self.subpath_initial_point {
                    Some(p) => *p,
                    None => self.current_point,
                };
                match self.perform_cubic_curve(*mode, ps) {
                    Ok(a) => {
                        self.subpath_initial_point = Some(adopted);
                        Ok(CommandOutcome::Drawn(a))
                    },
                    Err(e) => Err(e),
                }
            },
            PathCommand::QuadraticCurve(_, _) => Ok(CommandOutcome::Unsupported),
            PathCommand::SmoothQuadraticCurve(_, _) => Ok(CommandOutcome::Unsupported),
            PathCommand::SmoothCubicCurve(_, _) => Ok(CommandOutcome::Unsupported),
            PathCommand::EllipticalArc(_, _) => Ok(CommandOutcome::Unsupported),
            PathCommand::Close => {
                let saved_sub = self.subpath_initial_point;
                if self.subpath_initial_point.is_none() {
                    self.subpath_initial_point = Some(self.current_point);
                }
                match self.perform_close() {
                    Ok(a) => Ok(CommandOutcome::Drawn(a)),
                    Err(e) => {
                        self.subpath_initial_point = saved_sub;
                        Err(e)
                    },
                }
            },
        }
    }
}

/// The subpath start a drawing command works against: the open subpath's
/// start, or the pen's position adopted as the start when none is open.
pub open spec fn adopted_start(p: Painter) -> RatPoint {
    match p.sub() {
        Some(s) => s,
        None => p.cur(),
    }
}

/// What a well-formed command requires of its parameters: the arity rules
/// that the upstream parser owes the interpreter.
pub open spec fn cmd_wf(c: PathCommand) -> bool {
    match c {
        PathCommand::Move(_, ps) => params_wf(ps@) && ps@.len() >= 2 && ps@.len() % 2 == 0,
        PathCommand::Line(_, ps) => params_wf(ps@) && ps@.len() >= 2 && ps@.len() % 2 == 0,
        PathCommand::HorizontalLine(_, ps) => params_wf(ps@) && ps@.len() >= 1,
        PathCommand::VerticalLine(_, ps) => params_wf(ps@) && ps@.len() >= 1,
        PathCommand::CubicCurve(_, ps) => params_wf(ps@),
        PathCommand::QuadraticCurve(_, ps) => params_wf(ps@),
        PathCommand::SmoothQuadraticCurve(_, ps) => params_wf(ps@),
        PathCommand::SmoothCubicCurve(_, ps) => params_wf(ps@),
        PathCommand::EllipticalArc(_, ps) => params_wf(ps@),
        PathCommand::Close => true,
    }
}


/// One Bezier coordinate at `t = k / 10`, mirroring `bezier_coord_steps`
/// step for step.
fn bezier_coord(k: i64, a0: Scalar, a1: Scalar, a2: Scalar, a3: Scalar) -> (r: Option<Scalar>)
    requires
        0 <= k <= 10,
        a0.wf(),
        a1.wf(),
        a2.wf(),
        a3.wf(),
    ensures
        r is Some <==> bezier_coord_steps(k as int, a0@, a1@, a2@, a3@) is Some,
        r matches Some(v) ==> v.wf() && bezier_coord_steps(k as int, a0@, a1@, a2@, a3@) == Some(
            v@,
        ),
{
    proof {
        reveal(bezier_coord_steps);
    }
    let t = Scalar::new(k, 10);
    let one = Scalar::from_int(1);
    let three = Scalar::from_int(3);
    let u = match one.checked_sub(t) {
        Some(v) => v,
        None => {
            return None;
        },
    };
    let u2 = match u.checked_mul(u) {
        Some(v) => v,
        None => {
            return None;
        },
    };
    let u3 = match u2.checked_mul(u) {
        Some(v) => v,
        None => {
            return None;
        },
    };
    let t2 = match t.checked_mul(t) {
        Some(v) => v,
        None => {
            return None;
        },
    };
    let t3 = match t2.checked_mul(t) {
        Some(v) => v,
        None => {
            return None;
        },
    };
    let w1a = match three.checked_mul(u2) {
        Some(v) => v,
        None => {
            return None;
        },
    };
    let w1 = match w1a.checked_mul(t) {
        Some(v) => v,
        None => {
            return None;
        },
    };
    let w2a = match three.checked_mul(u) {
        Some(v) => v,
        None => {
            return None;
        },
    };
    let w2 = match w2a.checked_mul(t2) {
        Some(v) => v,
        None => {
            return None;
        },
    };
    let m0 = match u3.checked_mul(a0) {
        Some(v) => v,
        None => {
            return None;
        },
    };
    let m1 = match w1.checked_mul(a1) {
        Some(v) => v,
        None => {
            return None;
        },
    };
    let m2 = match w2.checked_mul(a2) {
        Some(v) => v,
        None => {
            return None;
        },
    };
    let m3 = match t3.checked_mul(a3) {
        Some(v) => v,
        None => {
            return None;
        },
    };
    let s1 = match m0.checked_add(m1) {
        Some(v) => v,
        None => {
            return None;
        },
    };
    let s2 = match s1.checked_add(m2) {
        Some(v) => v,
        None => {
            return None;
        },
    };
    s2.checked_add(m3)
}

} // verus!
