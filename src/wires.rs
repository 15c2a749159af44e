use vstd::prelude::*;

verus! {

/// A horizontal stretch of wire from `x0` to `x1` (`x0 <= x1`) at height
/// `y`, walked rightward or leftward, after `steps` steps of wire.
#[derive(Clone, Copy, Debug, PartialEq, Eq, Structural)]
pub struct Horizontal {
    pub y: i32,
    pub x0: i32,
    pub x1: i32,
    pub rightward: bool,
    pub steps: i32,
}

/// A vertical stretch of wire from `y0` to `y1` (`y0 <= y1`) at `x`,
/// walked upward or downward, after `steps` steps of wire.
#[derive(Clone, Copy, Debug, PartialEq, Eq, Structural)]
pub struct Vertical {
    pub x: i32,
    pub y0: i32,
    pub y1: i32,
    pub upward: bool,
    pub steps: i32,
}

#[derive(Clone, Copy, Debug, PartialEq, Eq, Structural)]
pub enum Segment {
    Horizontal(Horizontal),
    Vertical(Vertical),
}

/// Where a horizontal and a vertical stretch cross, and the steps both
/// wires take to get there.
pub open spec fn crossing(h: Horizontal, v: Vertical) -> Option<(i32, i32, int)> {
    if v.y0 <= h.y <= v.y1 && h.x0 <= v.x <= h.x1 {
        let hs = h.steps + if h.rightward {
            v.x - h.x0
        } else {
            h.x1 - v.x
        };
        let vs = v.steps + if v.upward {
            h.y - v.y0
        } else {
            v.y1 - h.y
        };
        Some((v.x, h.y, hs + vs))
    } else {
        None
    }
}

/// Where two stretches cross: only a horizontal and a vertical one can.
pub open spec fn intersection(a: Segment, b: Segment) -> Option<(i32, i32, int)> {
    match (a, b) {
        (Segment::Horizontal(h), Segment::Vertical(v)) => crossing(h, v),
        (Segment::Vertical(v), Segment::Horizontal(h)) => crossing(h, v),
        _ => None,
    }
}

fn cross(h: &Horizontal, v: &Vertical) -> (r: Option<(i32, i32, i64)>)
    ensures
        match crossing(*h, *v) {
            Some((x, y, s)) => r == Some((x, y, s as i64)),
            None => r is None,
        },
{
    if v.y0 <= h.y && h.y <= v.y1 && h.x0 <= v.x && v.x <= h.x1 {
        let horizontal_steps = h.steps as i64 + if h.rightward {
            v.x as i64 - h.x0 as i64
        } else {
            h.x1 as i64 - v.x as i64
        };
        let vertical_steps = v.steps as i64 + if v.upward {
            h.y as i64 - v.y0 as i64
        } else {
            v.y1 as i64 - h.y as i64
        };
        Some((v.x, h.y, horizontal_steps + vertical_steps))
    } else {
        None
    }
}

impl Segment {
    /// Where this stretch crosses `other`, with the combined steps of the
    /// two wires to that point.
    pub fn intersects(&self, other: &Segment) -> (r: Option<(i32, i32, i64)>)
        ensures
            match intersection(*self, *other) {
                Some((x, y, s)) => r == Some((x, y, s as i64)),
                None => r is None,
            },
    {
        match (self, other) {
            (Segment::Horizontal(h), Segment::Vertical(v)) => cross(h, v),
            (Segment::Vertical(v), Segment::Horizontal(h)) => cross(h, v),
            _ => None,
        }
    }
}

} // verus!
