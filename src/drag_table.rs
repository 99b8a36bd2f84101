//! Drag coefficient as a function of Mach number, by linear interpolation
//! between the points of a table.
//!
//! Mach numbers and coefficients are scaled by `SCALE`: 0.2629 is `2629`.
use vstd::prelude::*;
use vstd::arithmetic::div_mod::{lemma_div_is_ordered, lemma_div_multiples_vanish};
use crate::error::BallisticError;
use crate::fixed::{div_floor, fdiv};

verus! {

/// Mach numbers and drag coefficients in a table are counted in ten-thousandths.
pub const SCALE: u32 = 10_000;

/// Keys of `p` increase strictly from each point to every later one.
pub open spec fn strictly_increasing(p: Seq<(u32, u16)>) -> bool {
    forall|i: int, j: int| 0 <= i < j < p.len() ==> #[trigger] p[i].0 < #[trigger] p[j].0
}

/// A table needs at least two points with strictly increasing keys.
pub open spec fn valid_points(p: Seq<(u32, u16)>) -> bool {
    p.len() >= 2 && strictly_increasing(p)
}

/// The line through `(m0, c0)` and `(m1, c1)` at `m`, rounded down; `c0` where
/// the two keys coincide.
pub open spec fn interpolate(m0: int, c0: int, m1: int, c1: int, m: int) -> int {
    if m1 == m0 {
        c0
    } else {
        c0 + fdiv((c1 - c0) * (m - m0), m1 - m0)
    }
}

/// Point `i` and its successor enclose `m`.
pub open spec fn brackets(p: Seq<(u32, u16)>, i: int, m: int) -> bool {
    0 <= i < p.len() - 1 && p[i].0 <= m <= p[i + 1].0
}

/// Value of segment `i` at `m`.
pub open spec fn segment_value(p: Seq<(u32, u16)>, i: int, m: int) -> int {
    interpolate(p[i].0 as int, p[i].1 as int, p[i + 1].0 as int, p[i + 1].1 as int, m)
}

/// The coefficient at `m`: clamped to the end points outside the keys,
/// interpolated on the segment that encloses `m` inside them.
pub open spec fn lookup_value(p: Seq<(u32, u16)>, m: int) -> int {
    if m <= p[0].0 {
        p[0].1 as int
    } else if m >= p.last().0 {
        p.last().1 as int
    } else {
        segment_value(p, choose|i: int| brackets(p, i, m), m)
    }
}

/// An ordered table of (Mach, drag coefficient) points.
pub struct DragTable {
    points: Vec<(u32, u16)>,
}

impl View for DragTable {
    type V = Seq<(u32, u16)>;

    closed spec fn view(&self) -> Seq<(u32, u16)> {
        self.points@
    }
}

proof fn lemma_interpolate_between(m0: int, c0: int, m1: int, c1: int, m: int)
    requires
        m0 < m1,
        m0 <= m <= m1,
    ensures
        c0 <= c1 ==> c0 <= interpolate(m0, c0, m1, c1, m) <= c1,
        c1 <= c0 ==> c1 <= interpolate(m0, c0, m1, c1, m) <= c0,
        m == m1 ==> interpolate(m0, c0, m1, c1, m) == c1,
        m == m0 ==> interpolate(m0, c0, m1, c1, m) == c0,
{
    let d = c1 - c0;
    let w = m1 - m0;
    let x = m - m0;
    if d >= 0 {
        assert(0 <= d * x <= d * w) by (nonlinear_arith)
            requires
                d >= 0,
                0 <= x <= w,
        ;
        lemma_div_is_ordered(0, d * x, w);
        lemma_div_is_ordered(d * x, d * w, w);
    } else {
        assert(d * w <= d * x <= 0) by (nonlinear_arith)
            requires
                d < 0,
                0 <= x <= w,
        ;
        lemma_div_is_ordered(d * x, 0, w);
        lemma_div_is_ordered(d * w, d * x, w);
    }
    lemma_div_multiples_vanish(d, w);
    assert(w * d == d * w) by (nonlinear_arith);
    assert(d * 0 == 0);
}

/// Two segments that enclose the same `m` give the same value there.
proof fn lemma_brackets_agree(p: Seq<(u32, u16)>, i: int, j: int, m: int)
    requires
        valid_points(p),
        0 <= i < p.len() - 1,
        p[i].0 < m <= p[i + 1].0,
        brackets(p, j, m),
    ensures
        segment_value(p, j, m) == segment_value(p, i, m),
{
    if j < i {
        assert(p[j + 1].0 <= p[i].0) by {
            if j + 1 < i {
                assert(p[j + 1].0 < p[i].0);
            }
        }
    } else if j > i + 1 {
        assert(p[i + 1].0 < p[j].0);
    } else if j == i + 1 {
        assert(m == p[i + 1].0);
        assert(p[i].0 < p[i + 1].0);
        assert(p[j].0 < p[j + 1].0);
        lemma_interpolate_between(p[i].0 as int, p[i].1 as int, p[i + 1].0 as int, p[i + 1].1 as int, m);
        lemma_interpolate_between(p[j].0 as int, p[j].1 as int, p[j + 1].0 as int, p[j + 1].1 as int, m);
    }
}

impl DragTable {
    /// The table is well formed: at least two points, keys strictly increasing.
    pub open spec fn wf(&self) -> bool {
        valid_points(self@)
    }

    /// Builds a table; refuses fewer than two points or keys that do not
    /// strictly increase.
    pub fn new(points: Vec<(u32, u16)>) -> (r: Result<DragTable, BallisticError>)
        ensures
            valid_points(points@) <==> r is Ok,
            r matches Ok(t) ==> t@ == points@ && t.wf(),
            r matches Err(e) ==> e == BallisticError::InvalidTable,
    {
        let n = points.len();
        if n < 2 {
            return Err(BallisticError::InvalidTable);
        }
        let mut i: usize = 1;
        while i < n
            invariant
                1 <= i <= n,
                n == points@.len(),
                forall|a: int, b: int| 0 <= a < b < i ==> #[trigger] points@[a].0 < #[trigger] points@[b].0,
            decreases n - i,
        {
            if points[i - 1].0 >= points[i].0 {
                return Err(BallisticError::InvalidTable);
            }
            assert forall|a: int, b: int| 0 <= a < b < i + 1 implies #[trigger] points@[a].0 < #[trigger] points@[b].0 by {
                if b == i && a < i - 1 {
                    assert(points@[a].0 < points@[i - 1].0);
                }
            }
            i = i + 1;
        }
        Ok(DragTable { points })
    }

    /// Builds a table from points already known to be valid.
    pub(crate) fn from_valid(points: Vec<(u32, u16)>) -> (r: DragTable)
        requires
            valid_points(points@),
        ensures
            r@ == points@,
            r.wf(),
    {
        DragTable { points }
    }

    /// Number of points in the table.
    pub fn len(&self) -> (r: usize)
        ensures
            r == self@.len(),
    {
        self.points.len()
    }

    /// Point `i` of the table.
    pub fn point(&self, i: usize) -> (r: (u32, u16))
        requires
            i < self@.len(),
        ensures
            r == self@[i as int],
    {
        self.points[i]
    }

    /// Drag coefficient at `mach`: the first coefficient below the lowest key,
    /// the last above the highest, and the interpolation between the two
    /// enclosing points otherwise.
    pub fn lookup(&self, mach: u32) -> (r: u32)
        requires
            self.wf(),
        ensures
            r == lookup_value(self@, mach as int),
            r <= u16::MAX,
    {
        let p = &self.points;
        let n = p.len();
        if mach <= p[0].0 {
            return p[0].1 as u32;
        }
        if mach >= p[n - 1].0 {
            return p[n - 1].1 as u32;
        }
        let mut i: usize = 0;
        while p[i + 1].0 < mach
            invariant
                0 <= i < n - 1,
                n == p@.len(),
                p@[i as int].0 < mach,
                mach < p@[n - 1].0,
                valid_points(p@),
            decreases n - i,
        {
            i = i + 1;
            assert(i < n - 1);
        }
        let (m0, c0) = p[i];
        let (m1, c1) = p[i + 1];
        proof {
            assert(brackets(p@, i as int, mach as int));
            let j = choose|j: int| brackets(p@, j, mach as int);
            lemma_brackets_agree(p@, i as int, j, mach as int);
            lemma_interpolate_between(m0 as int, c0 as int, m1 as int, c1 as int, mach as int);
        }
        let dc = c1 as i128 - c0 as i128;
        let dm = mach as i128 - m0 as i128;
        proof {
            assert(-65535 * 0x1_0000_0000 <= dc * dm <= 65535 * 0x1_0000_0000) by (nonlinear_arith)
                requires
                    0 <= dm <= 0xffff_ffff,
                    -65535 <= dc <= 65535,
            ;
        }
        let num = dc * dm;
        let den = m1 as i128 - m0 as i128;
        (c0 as i128 + div_floor(num, den)) as u32
    }
}

/// Appends a point whose key exceeds every key already in `v`.
pub(crate) fn push_point(v: &mut Vec<(u32, u16)>, mach: u32, cd: u16)
    requires
        strictly_increasing(old(v)@),
        old(v)@.len() > 0 ==> old(v)@.last().0 < mach,
        old(v)@.len() < usize::MAX,
    ensures
        final(v)@ == old(v)@.push((mach, cd)),
        strictly_increasing(final(v)@),
{
    let ghost before = v@;
    v.push((mach, cd));
    assert forall|i: int, j: int| 0 <= i < j < v@.len() implies #[trigger] v@[i].0 < #[trigger] v@[j].0 by {
        if j == before.len() && i < before.len() - 1 {
            assert(before[i].0 < before[before.len() - 1].0);
        }
    }
}

/// Outside its keys the table clamps to its first and last coefficient.
pub proof fn lemma_lookup_clamps(t: DragTable, m: int)
    requires
        t.wf(),
    ensures
        m <= t@[0].0 ==> lookup_value(t@, m) == t@[0].1,
        m >= t@.last().0 ==> lookup_value(t@, m) == t@.last().1,
{
    let p = t@;
    if m >= p.last().0 && m <= p[0].0 {
        assert(p[0].0 < p[p.len() - 1].0);
    }
}

/// At one of its keys the table gives exactly the stored coefficient.
pub proof fn lemma_lookup_at_key(t: DragTable, i: int)
    requires
        t.wf(),
        0 <= i < t@.len(),
    ensures
        lookup_value(t@, t@[i].0 as int) == t@[i].1,
{
    let p = t@;
    let m = p[i].0 as int;
    if i == 0 {
    } else if i == p.len() - 1 {
        assert(p[0].0 < p[i].0);
    } else {
        assert(p[0].0 < p[i].0);
        assert(p[i].0 < p[p.len() - 1].0);
        assert(brackets(p, i - 1, m));
        let j = choose|j: int| brackets(p, j, m);
        assert(p[i - 1].0 < p[i].0);
        lemma_brackets_agree(p, i - 1, j, m);
        lemma_interpolate_between(p[i - 1].0 as int, p[i - 1].1 as int, p[i].0 as int, p[i].1 as int, m);
    }
}

} // verus!
