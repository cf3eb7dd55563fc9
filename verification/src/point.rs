//! Points in the two coordinate spaces, and the affine mapping between them.
//!
//! A point carries the two rectangles it was constructed against, so a value
//! can always be converted without re-supplying context. Mapping a point into
//! the other space scales by the ratio of the extents and translates by the
//! destination origin; mapping a pure offset scales only.

use vstd::prelude::*;
use vstd::arithmetic::mul::*;
use crate::rational::{
    Rat, Scalar, rat_eq, rat_add, rat_sub, rat_mul, rat_div, rat_norm, rat_fits, lemma_norm,
    lemma_rat_eq_trans, lemma_add_congr, lemma_sub_congr, lemma_mul_congr, lemma_add_sub_cancel,
    lemma_add_sub_cancel_left, lemma_sub_adds_cancel, lemma_mul_div_cancel, lemma_mul_distrib_sub,
};
use crate::rect::Rect;

verus! {

/// A point in the path's native (source) coordinate space.
#[derive(Clone, Copy, PartialEq, Eq, Structural, Debug)]
pub struct SvgPoint {
    pub x: Scalar,
    pub y: Scalar,
    pub svg_area: Rect,
    pub screen_area: Rect,
}

/// A point in the drawing surface's (destination) coordinate space.
#[derive(Clone, Copy, PartialEq, Eq, Structural, Debug)]
pub struct ScreenPoint {
    pub x: Scalar,
    pub y: Scalar,
    pub svg_area: Rect,
    pub screen_area: Rect,
}

/// The ideal mapped coordinate: `v * d_ext / s_ext + d_org`.
pub open spec fn rat_map(v: Rat, s_ext: Rat, d_ext: Rat, d_org: Rat) -> Rat {
    rat_add(rat_mul(v, rat_div(d_ext, s_ext)), d_org)
}

/// The ideal inverse mapping: `(v - d_org) * s_ext / d_ext`.
pub open spec fn rat_unmap(v: Rat, s_ext: Rat, d_ext: Rat, d_org: Rat) -> Rat {
    rat_mul(rat_sub(v, d_org), rat_div(s_ext, d_ext))
}

/// The mapped coordinate exactly as the machine computes it: each step
/// reduced, `None` as soon as a reduced step leaves machine range.
pub open spec fn map_steps(v: Rat, s_ext: Rat, d_ext: Rat, d_org: Rat) -> Option<Rat> {
    let s1 = rat_norm(rat_div(d_ext, s_ext));
    if !rat_fits(s1) {
        None
    } else {
        let s2 = rat_norm(rat_mul(v, s1));
        if !rat_fits(s2) {
            None
        } else {
            let s3 = rat_norm(rat_add(s2, d_org));
            if !rat_fits(s3) {
                None
            } else {
                Some(s3)
            }
        }
    }
}

/// The inverse mapping exactly as the machine computes it.
pub open spec fn unmap_steps(v: Rat, s_ext: Rat, d_ext: Rat, d_org: Rat) -> Option<Rat> {
    let s1 = rat_norm(rat_div(s_ext, d_ext));
    if !rat_fits(s1) {
        None
    } else {
        let s2 = rat_norm(rat_sub(v, d_org));
        if !rat_fits(s2) {
            None
        } else {
            let s3 = rat_norm(rat_mul(s2, s1));
            if !rat_fits(s3) {
                None
            } else {
                Some(s3)
            }
        }
    }
}

/// A pure offset mapped between the spaces: scaled, never translated.
pub open spec fn offset_steps(dv: Rat, s_ext: Rat, d_ext: Rat) -> Option<Rat> {
    let s1 = rat_norm(rat_div(d_ext, s_ext));
    if !rat_fits(s1) {
        None
    } else {
        let s2 = rat_norm(rat_mul(dv, s1));
        if !rat_fits(s2) {
            None
        } else {
            Some(s2)
        }
    }
}

/// A successful mapping step chain denotes exactly the ideal affine image.
pub proof fn lemma_map_steps_value(v: Rat, s_ext: Rat, d_ext: Rat, d_org: Rat)
    requires
        1 <= v.d,
        1 <= s_ext.d,
        1 <= d_ext.d,
        1 <= d_org.d,
        s_ext.n != 0,
    ensures
        map_steps(v, s_ext, d_ext, d_org) matches Some(w) ==> rat_eq(
            w,
            rat_map(v, s_ext, d_ext, d_org),
        ) && 1 <= w.d,
{
    if map_steps(v, s_ext, d_ext, d_org) is Some {
        let q1 = rat_div(d_ext, s_ext);
        lemma_mul_nonzero(d_ext.d, s_ext.n);
        let s1 = rat_norm(q1);
        lemma_norm(q1);
        let q2 = rat_mul(v, s1);
        lemma_mul_strictly_positive(v.d, s1.d);
        let s2 = rat_norm(q2);
        lemma_norm(q2);
        lemma_mul_congr(v, s1, v, q1);
        lemma_rat_eq_trans(s2, q2, rat_mul(v, q1));
        let q3 = rat_add(s2, d_org);
        lemma_mul_strictly_positive(s2.d, d_org.d);
        let s3 = rat_norm(q3);
        lemma_norm(q3);
        lemma_add_congr(s2, d_org, rat_mul(v, q1), d_org);
        lemma_rat_eq_trans(s3, q3, rat_add(rat_mul(v, q1), d_org));
    }
}

/// A successful inverse mapping step chain denotes exactly the ideal
/// inverse image.
pub proof fn lemma_unmap_steps_value(v: Rat, s_ext: Rat, d_ext: Rat, d_org: Rat)
    requires
        1 <= v.d,
        1 <= s_ext.d,
        1 <= d_ext.d,
        1 <= d_org.d,
        d_ext.n != 0,
    ensures
        unmap_steps(v, s_ext, d_ext, d_org) matches Some(u) ==> rat_eq(
            u,
            rat_unmap(v, s_ext, d_ext, d_org),
        ) && 1 <= u.d,
{
    if unmap_steps(v, s_ext, d_ext, d_org) is Some {
        let q1 = rat_div(s_ext, d_ext);
        lemma_mul_nonzero(s_ext.d, d_ext.n);
        let s1 = rat_norm(q1);
        lemma_norm(q1);
        let q2 = rat_sub(v, d_org);
        lemma_mul_strictly_positive(v.d, d_org.d);
        let s2 = rat_norm(q2);
        lemma_norm(q2);
        let q3 = rat_mul(s2, s1);
        lemma_mul_strictly_positive(s2.d, s1.d);
        let s3 = rat_norm(q3);
        lemma_norm(q3);
        lemma_mul_congr(s2, s1, q2, q1);
        lemma_rat_eq_trans(s3, q3, rat_mul(q2, q1));
    }
}

/// A successful offset mapping denotes exactly the scaled offset.
pub proof fn lemma_offset_steps_value(dv: Rat, s_ext: Rat, d_ext: Rat)
    requires
        1 <= dv.d,
        1 <= s_ext.d,
        1 <= d_ext.d,
        s_ext.n != 0,
    ensures
        offset_steps(dv, s_ext, d_ext) matches Some(o) ==> rat_eq(
            o,
            rat_mul(dv, rat_div(d_ext, s_ext)),
        ) && 1 <= o.d,
{
    if offset_steps(dv, s_ext, d_ext) is Some {
        let q1 = rat_div(d_ext, s_ext);
        lemma_mul_nonzero(d_ext.d, s_ext.n);
        let s1 = rat_norm(q1);
        lemma_norm(q1);
        let q2 = rat_mul(dv, s1);
        lemma_mul_strictly_positive(dv.d, s1.d);
        let s2 = rat_norm(q2);
        lemma_norm(q2);
        lemma_mul_congr(dv, s1, dv, q1);
        lemma_rat_eq_trans(s2, q2, rat_mul(dv, q1));
    }
}

/// Round trip law: a coordinate mapped into the destination space and back
/// into the source space is reproduced exactly.
pub proof fn lemma_round_trip(v: Rat, w: Rat, u: Rat, s_ext: Rat, d_ext: Rat, d_org: Rat)
    requires
        1 <= v.d,
        1 <= s_ext.d,
        1 <= d_ext.d,
        1 <= d_org.d,
        s_ext.n != 0,
        d_ext.n != 0,
        map_steps(v, s_ext, d_ext, d_org) == Some(w),
        unmap_steps(w, s_ext, d_ext, d_org) == Some(u),
    ensures
        rat_eq(u, v),
{
    broadcast use lemma_mul_nonzero;

    lemma_map_steps_value(v, s_ext, d_ext, d_org);
    lemma_unmap_steps_value(w, s_ext, d_ext, d_org);
    let r1 = rat_div(d_ext, s_ext);
    let r2 = rat_div(s_ext, d_ext);
    let mv = rat_map(v, s_ext, d_ext, d_org);
    // u ~ unmap(w) ~ unmap(mv)
    lemma_sub_congr(w, d_org, mv, d_org);
    lemma_mul_congr(rat_sub(w, d_org), r2, rat_sub(mv, d_org), r2);
    lemma_rat_eq_trans(u, rat_unmap(w, s_ext, d_ext, d_org), rat_unmap(mv, s_ext, d_ext, d_org));
    // unmap(mv) ~ (v * r1) * r2 ~ v
    lemma_add_sub_cancel(rat_mul(v, r1), d_org);
    lemma_mul_congr(rat_sub(rat_add(rat_mul(v, r1), d_org), d_org), r2, rat_mul(v, r1), r2);
    lemma_mul_div_cancel(v, s_ext, d_ext);
    lemma_rat_eq_trans(
        u,
        rat_unmap(mv, s_ext, d_ext, d_org),
        rat_mul(rat_mul(v, r1), r2),
    );
    lemma_rat_eq_trans(u, rat_mul(rat_mul(v, r1), r2), v);
}

/// Offset law: the mapped image of a pure offset equals the difference of
/// the mapped images of two absolute coordinates that differ by that offset.
pub proof fn lemma_offset_is_difference(
    dv: Rat,
    v: Rat,
    v2: Rat,
    o: Rat,
    w1: Rat,
    w2: Rat,
    s_ext: Rat,
    d_ext: Rat,
    d_org: Rat,
)
    requires
        1 <= dv.d,
        1 <= v.d,
        1 <= v2.d,
        1 <= s_ext.d,
        1 <= d_ext.d,
        1 <= d_org.d,
        s_ext.n != 0,
        rat_eq(v2, rat_add(v, dv)),
        offset_steps(dv, s_ext, d_ext) == Some(o),
        map_steps(v, s_ext, d_ext, d_org) == Some(w1),
        map_steps(v2, s_ext, d_ext, d_org) == Some(w2),
    ensures
        rat_eq(o, rat_sub(w2, w1)),
{
    broadcast use lemma_mul_nonzero;

    lemma_offset_steps_value(dv, s_ext, d_ext);
    lemma_map_steps_value(v, s_ext, d_ext, d_org);
    lemma_map_steps_value(v2, s_ext, d_ext, d_org);
    let r1 = rat_div(d_ext, s_ext);
    let va = rat_add(v, dv);
    // w2 ~ map(v2) ~ map(v + dv)
    lemma_mul_congr(v2, r1, va, r1);
    lemma_add_congr(rat_mul(v2, r1), d_org, rat_mul(va, r1), d_org);
    lemma_rat_eq_trans(
        w2,
        rat_map(v2, s_ext, d_ext, d_org),
        rat_map(va, s_ext, d_ext, d_org),
    );
    // w2 - w1 ~ map(v + dv) - map(v) ~ (va - v) * r1 ~ dv * r1 ~ o
    lemma_sub_congr(w2, w1, rat_map(va, s_ext, d_ext, d_org), rat_map(v, s_ext, d_ext, d_org));
    lemma_sub_adds_cancel(rat_mul(va, r1), rat_mul(v, r1), d_org);
    lemma_mul_distrib_sub(va, v, r1);
    lemma_add_sub_cancel_left(v, dv);
    lemma_mul_congr(rat_sub(va, v), r1, dv, r1);
    lemma_rat_eq_trans(o, rat_mul(dv, r1), rat_mul(rat_sub(va, v), r1));
    lemma_rat_eq_trans(o, rat_mul(rat_sub(va, v), r1), rat_sub(rat_mul(va, r1), rat_mul(v, r1)));
    lemma_rat_eq_trans(
        o,
        rat_sub(rat_mul(va, r1), rat_mul(v, r1)),
        rat_sub(rat_map(va, s_ext, d_ext, d_org), rat_map(v, s_ext, d_ext, d_org)),
    );
    lemma_rat_eq_trans(
        o,
        rat_sub(rat_map(va, s_ext, d_ext, d_org), rat_map(v, s_ext, d_ext, d_org)),
        rat_sub(w2, w1),
    );
}

/// One coordinate of the source-to-destination mapping.
fn map_coord(v: Scalar, s_ext: Scalar, d_ext: Scalar, d_org: Scalar) -> (r: Option<Scalar>)
    requires
        v.wf(),
        s_ext.wf(),
        d_ext.wf(),
        d_org.wf(),
        s_ext@.n != 0,
    ensures
        r is Some <==> map_steps(v@, s_ext@, d_ext@, d_org@) is Some,
        r matches Some(s) ==> s.wf() && map_steps(v@, s_ext@, d_ext@, d_org@) == Some(s@),
{
    match d_ext.checked_div(s_ext) {
        None => None,
        Some(s1) => match v.checked_mul(s1) {
            None => None,
            Some(s2) => s2.checked_add(d_org),
        },
    }
}

/// One coordinate of the destination-to-source mapping.
fn unmap_coord(v: Scalar, s_ext: Scalar, d_ext: Scalar, d_org: Scalar) -> (r: Option<Scalar>)
    requires
        v.wf(),
        s_ext.wf(),
        d_ext.wf(),
        d_org.wf(),
        d_ext@.n != 0,
    ensures
        r is Some <==> unmap_steps(v@, s_ext@, d_ext@, d_org@) is Some,
        r matches Some(s) ==> s.wf() && unmap_steps(v@, s_ext@, d_ext@, d_org@) == Some(s@),
{
    match s_ext.checked_div(d_ext) {
        None => None,
        Some(s1) => match v.checked_sub(d_org) {
            None => None,
            Some(s2) => s2.checked_mul(s1),
        },
    }
}

/// One coordinate of an offset mapped from source to destination units.
fn offset_coord(dv: Scalar, s_ext: Scalar, d_ext: Scalar) -> (r: Option<Scalar>)
    requires
        dv.wf(),
        s_ext.wf(),
        d_ext.wf(),
        s_ext@.n != 0,
    ensures
        r is Some <==> offset_steps(dv@, s_ext@, d_ext@) is Some,
        r matches Some(s) ==> s.wf() && offset_steps(dv@, s_ext@, d_ext@) == Some(s@),
{
    match d_ext.checked_div(s_ext) {
        None => None,
        Some(s1) => dv.checked_mul(s1),
    }
}

impl SvgPoint {
    pub open spec fn wf(self) -> bool {
        &&& self.x.wf()
        &&& self.y.wf()
        &&& self.svg_area.wf()
        &&& self.screen_area.wf()
    }

    /// A source-space point at `(x, y)`, remembering both rectangles.
    pub fn new(x: Scalar, y: Scalar, svg_area: &Rect, screen_area: &Rect) -> (r: SvgPoint)
        requires
            x.wf(),
            y.wf(),
            svg_area.wf(),
            screen_area.wf(),
        ensures
            r.wf(),
            r.x == x,
            r.y == y,
            r.svg_area == *svg_area,
            r.screen_area == *screen_area,
    {
        SvgPoint { x, y, svg_area: *svg_area, screen_area: *screen_area }
    }

    /// The horizontal coordinate.
    pub fn x(&self) -> (r: Scalar)
        ensures
            r == self.x,
    {
        self.x
    }

    /// The vertical coordinate.
    pub fn y(&self) -> (r: Scalar)
        ensures
            r == self.y,
    {
        self.y
    }

    /// The source rectangle the point was constructed against.
    pub fn svg_area(&self) -> (r: &Rect)
        ensures
            *r == self.svg_area,
    {
        &self.svg_area
    }

    /// The destination rectangle the point was constructed against.
    pub fn screen_area(&self) -> (r: &Rect)
        ensures
            *r == self.screen_area,
    {
        &self.screen_area
    }

    /// The point translated by `(x, y)` in its own space; `None` when a
    /// coordinate leaves machine range.
    pub fn offset(self, x: Scalar, y: Scalar) -> (r: Option<SvgPoint>)
        requires
            self.wf(),
            x.wf(),
            y.wf(),
        ensures
            r is Some <==> rat_fits(rat_norm(rat_add(self.x@, x@))) && rat_fits(
                rat_norm(rat_add(self.y@, y@)),
            ),
            r matches Some(p) ==> p.wf() && p.svg_area == self.svg_area && p.screen_area
                == self.screen_area && p.x@ == rat_norm(rat_add(self.x@, x@)) && p.y@ == rat_norm(
                rat_add(self.y@, y@),
            ),
    {
        match (self.x.checked_add(x), self.y.checked_add(y)) {
            (Some(nx), Some(ny)) => Some(
                SvgPoint {
                    x: nx,
                    y: ny,
                    svg_area: self.svg_area,
                    screen_area: self.screen_area,
                },
            ),
            _ => None,
        }
    }

    /// The same location expressed in destination coordinates; `None` when a
    /// mapping step leaves machine range.
    pub fn to_screen(&self) -> (r: Option<ScreenPoint>)
        requires
            self.wf(),
        ensures
            r is Some <==> map_steps(self.x@, self.svg_area.width@, self.screen_area.width@, self.screen_area.x@) is Some
                && map_steps(self.y@, self.svg_area.height@, self.screen_area.height@, self.screen_area.y@) is Some,
            r matches Some(p) ==> p.wf() && p.svg_area == self.svg_area && p.screen_area
                == self.screen_area && map_steps(
                self.x@,
                self.svg_area.width@,
                self.screen_area.width@,
                self.screen_area.x@,
            ) == Some(p.x@) && map_steps(
                self.y@,
                self.svg_area.height@,
                self.screen_area.height@,
                self.screen_area.y@,
            ) == Some(p.y@),
    {
        let nx = map_coord(self.x, self.svg_area.width, self.screen_area.width, self.screen_area.x);
        let ny = map_coord(
            self.y,
            self.svg_area.height,
            self.screen_area.height,
            self.screen_area.y,
        );
        match (nx, ny) {
            (Some(px), Some(py)) => Some(
                ScreenPoint {
                    x: px,
                    y: py,
                    svg_area: self.svg_area,
                    screen_area: self.screen_area,
                },
            ),
            _ => None,
        }
    }
}

impl ScreenPoint {
    pub open spec fn wf(self) -> bool {
        &&& self.x.wf()
        &&& self.y.wf()
        &&& self.svg_area.wf()
        &&& self.screen_area.wf()
    }

    /// A destination-space point at `(x, y)`, remembering both rectangles.
    pub fn new(x: Scalar, y: Scalar, svg_area: &Rect, screen_area: &Rect) -> (r: ScreenPoint)
        requires
            x.wf(),
            y.wf(),
            svg_area.wf(),
            screen_area.wf(),
        ensures
            r.wf(),
            r.x == x,
            r.y == y,
            r.svg_area == *svg_area,
            r.screen_area == *screen_area,
    {
        ScreenPoint { x, y, svg_area: *svg_area, screen_area: *screen_area }
    }

    /// The horizontal coordinate.
    pub fn x(&self) -> (r: Scalar)
        ensures
            r == self.x,
    {
        self.x
    }

    /// The vertical coordinate.
    pub fn y(&self) -> (r: Scalar)
        ensures
            r == self.y,
    {
        self.y
    }

    /// The source rectangle the point was constructed against.
    pub fn svg_area(&self) -> (r: &Rect)
        ensures
            *r == self.svg_area,
    {
        &self.svg_area
    }

    /// The destination rectangle the point was constructed against.
    pub fn screen_area(&self) -> (r: &Rect)
        ensures
            *r == self.screen_area,
    {
        &self.screen_area
    }

    /// The point translated by `(x, y)` in its own space; `None` when a
    /// coordinate leaves machine range.
    pub fn offset(self, x: Scalar, y: Scalar) -> (r: Option<ScreenPoint>)
        requires
            self.wf(),
            x.wf(),
            y.wf(),
        ensures
            r is Some <==> rat_fits(rat_norm(rat_add(self.x@, x@))) && rat_fits(
                rat_norm(rat_add(self.y@, y@)),
            ),
            r matches Some(p) ==> p.wf() && p.svg_area == self.svg_area && p.screen_area
                == self.screen_area && p.x@ == rat_norm(rat_add(self.x@, x@)) && p.y@ == rat_norm(
                rat_add(self.y@, y@),
            ),
    {
        match (self.x.checked_add(x), self.y.checked_add(y)) {
            (Some(nx), Some(ny)) => Some(
                ScreenPoint {
                    x: nx,
                    y: ny,
                    svg_area: self.svg_area,
                    screen_area: self.screen_area,
                },
            ),
            _ => None,
        }
    }

    /// The same location expressed back in source coordinates; `None` when a
    /// mapping step leaves machine range.
    pub fn to_svg(&self) -> (r: Option<SvgPoint>)
        requires
            self.wf(),
        ensures
            r is Some <==> unmap_steps(self.x@, self.svg_area.width@, self.screen_area.width@, self.screen_area.x@) is Some
                && unmap_steps(self.y@, self.svg_area.height@, self.screen_area.height@, self.screen_area.y@) is Some,
            r matches Some(p) ==> p.wf() && p.svg_area == self.svg_area && p.screen_area
                == self.screen_area && unmap_steps(
                self.x@,
                self.svg_area.width@,
                self.screen_area.width@,
                self.screen_area.x@,
            ) == Some(p.x@) && unmap_steps(
                self.y@,
                self.svg_area.height@,
                self.screen_area.height@,
                self.screen_area.y@,
            ) == Some(p.y@),
    {
        let nx = unmap_coord(
            self.x,
            self.svg_area.width,
            self.screen_area.width,
            self.screen_area.x,
        );
        let ny = unmap_coord(
            self.y,
            self.svg_area.height,
            self.screen_area.height,
            self.screen_area.y,
        );
        match (nx, ny) {
            (Some(px), Some(py)) => Some(
                SvgPoint {
                    x: px,
                    y: py,
                    svg_area: self.svg_area,
                    screen_area: self.screen_area,
                },
            ),
            _ => None,
        }
    }
}

/// A source-space offset `(dx, dy)` expressed in destination units: the
/// extent ratios scale it, the origin plays no part.
pub fn offset_to_screen(dx: Scalar, dy: Scalar, svg_area: &Rect, screen_area: &Rect) -> (r: Option<
    (Scalar, Scalar),
>)
    requires
        dx.wf(),
        dy.wf(),
        svg_area.wf(),
        screen_area.wf(),
    ensures
        r is Some <==> offset_steps(dx@, svg_area.width@, screen_area.width@) is Some
            && offset_steps(dy@, svg_area.height@, screen_area.height@) is Some,
        r matches Some(p) ==> p.0.wf() && p.1.wf() && offset_steps(
            dx@,
            svg_area.width@,
            screen_area.width@,
        ) == Some(p.0@) && offset_steps(dy@, svg_area.height@, screen_area.height@) == Some(p.1@),
{
    let ox = offset_coord(dx, svg_area.width, screen_area.width);
    let oy = offset_coord(dy, svg_area.height, screen_area.height);
    match (ox, oy) {
        (Some(px), Some(py)) => Some((px, py)),
        _ => None,
    }
}

} // verus!
