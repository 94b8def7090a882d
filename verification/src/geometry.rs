//! Geometry values the diagnostics read: segment kinds, layer summaries,
//! points and bounding boxes. Coordinates are integer nanometres.

use vstd::prelude::*;

verus! {

/// Kind of a flat drawing primitive.
#[derive(Clone, Copy, Debug, PartialEq, Eq, Structural)]
pub enum SegmentKind {
    Line,
    Arc,
    Circle,
    Point,
}

/// Per-layer summary of an import.
#[derive(Clone, Debug)]
pub struct Layer {
    pub name: String,
    pub color: i32,
    pub segment_count: usize,
}

/// A point in nanometres.
#[derive(Clone, Copy, Debug, PartialEq, Eq, Structural)]
pub struct PointNm {
    pub x: i64,
    pub y: i64,
}

/// A drawing primitive: kind, end points, layer and colour.
#[derive(Clone, Debug)]
pub struct Segment {
    pub kind: SegmentKind,
    pub start: PointNm,
    pub end: PointNm,
    pub layer: String,
    pub color: i32,
}

/// An axis-aligned box in nanometres.
#[derive(Clone, Copy, Debug, PartialEq, Eq, Structural)]
pub struct BBox {
    pub min_x: i64,
    pub min_y: i64,
    pub max_x: i64,
    pub max_y: i64,
}

pub open spec fn min_i(a: i64, b: i64) -> i64 {
    if a <= b { a } else { b }
}

pub open spec fn max_i(a: i64, b: i64) -> i64 {
    if a >= b { a } else { b }
}

/// The box `b` grown to contain `p`.
pub open spec fn extended(b: BBox, p: PointNm) -> BBox {
    BBox {
        min_x: min_i(b.min_x, p.x),
        min_y: min_i(b.min_y, p.y),
        max_x: max_i(b.max_x, p.x),
        max_y: max_i(b.max_y, p.y),
    }
}

/// The box of both end points of every segment in `segs`, starting from
/// `b`.
pub open spec fn extended_by_segments(b: BBox, segs: Seq<Segment>) -> BBox
    decreases segs.len(),
{
    if segs.len() == 0 {
        b
    } else {
        extended(extended(extended_by_segments(b, segs.drop_last()), segs.last().start), segs.last().end)
    }
}

/// The box of one point.
pub open spec fn point_box(p: PointNm) -> BBox {
    BBox { min_x: p.x, min_y: p.y, max_x: p.x, max_y: p.y }
}

/// The box of every segment end point; the default `(0, 0)–(10 mm, 10 mm)`
/// box when there is none.
pub open spec fn segments_box(segs: Seq<Segment>) -> BBox {
    if segs.len() == 0 {
        BBox { min_x: 0, min_y: 0, max_x: 10_000_000, max_y: 10_000_000 }
    } else {
        extended_by_segments(point_box(segs[0].start), segs)
    }
}

/// Whether `b` contains `p` (boundary included).
pub open spec fn box_contains(b: BBox, p: PointNm) -> bool {
    b.min_x <= p.x <= b.max_x && b.min_y <= p.y <= b.max_y
}

impl BBox {
    /// Grows the box to contain `p`.
    pub fn extend_point(&mut self, p: PointNm)
        ensures
            *final(self) == extended(*old(self), p),
    {
        if p.x < self.min_x {
            self.min_x = p.x;
        }
        if p.y < self.min_y {
            self.min_y = p.y;
        }
        if p.x > self.max_x {
            self.max_x = p.x;
        }
        if p.y > self.max_y {
            self.max_y = p.y;
        }
    }

    /// The bounding box of all segment end points; the default
    /// `(0, 0)–(10 mm, 10 mm)` box when there are no segments.
    pub fn from_segments(segments: &[Segment]) -> (b: BBox)
        ensures
            b == segments_box(segments@),
    {
        if segments.len() == 0 {
            return BBox { min_x: 0, min_y: 0, max_x: 10_000_000, max_y: 10_000_000 };
        }
        let p0 = segments[0].start;
        let mut b = BBox { min_x: p0.x, min_y: p0.y, max_x: p0.x, max_y: p0.y };
        let mut i: usize = 0;
        while i < segments.len()
            invariant
                i <= segments.len(),
                b == extended_by_segments(point_box(p0), segments@.take(i as int)),
            decreases segments.len() - i,
        {
            b.extend_point(segments[i].start);
            b.extend_point(segments[i].end);
            assert(segments@.take(i + 1).drop_last() =~= segments@.take(i as int));
            i += 1;
        }
        assert(segments@.take(segments.len() as int) =~= segments@);
        b
    }

    /// Width in nanometres.
    pub fn width(&self) -> (w: i128)
        ensures
            w == self.max_x - self.min_x,
    {
        self.max_x as i128 - self.min_x as i128
    }

    /// Height in nanometres.
    pub fn height(&self) -> (h: i128)
        ensures
            h == self.max_y - self.min_y,
    {
        self.max_y as i128 - self.min_y as i128
    }
}

/// A bounding box contains every segment end point it was built from.
pub proof fn lemma_extended_contains(b: BBox, segs: Seq<Segment>, i: int)
    requires
        0 <= i < segs.len(),
    ensures
        box_contains(extended_by_segments(b, segs), segs[i].start),
        box_contains(extended_by_segments(b, segs), segs[i].end),
    decreases segs.len(),
{
    lemma_extended_grows(b, segs);
    if i < segs.len() - 1 {
        lemma_extended_contains(b, segs.drop_last(), i);
        lemma_extended_monotone(extended_by_segments(b, segs.drop_last()), segs.last().start, segs.last().end);
    }
}

proof fn lemma_extended_monotone(b: BBox, p: PointNm, q: PointNm)
    ensures
        extended(extended(b, p), q).min_x <= b.min_x,
        extended(extended(b, p), q).min_y <= b.min_y,
        extended(extended(b, p), q).max_x >= b.max_x,
        extended(extended(b, p), q).max_y >= b.max_y,
{
}

proof fn lemma_extended_grows(b: BBox, segs: Seq<Segment>)
    ensures
        extended_by_segments(b, segs).min_x <= b.min_x,
        extended_by_segments(b, segs).min_y <= b.min_y,
        extended_by_segments(b, segs).max_x >= b.max_x,
        extended_by_segments(b, segs).max_y >= b.max_y,
    decreases segs.len(),
{
    if segs.len() > 0 {
        lemma_extended_grows(b, segs.drop_last());
    }
}

} // verus!
