use vstd::prelude::*;

verus! {

use crate::structs::movement::Rotation;
use crate::structs::pixel::{Pixel, Point};

/// The mathematical contents of a list of keyed pixels: later entries win.
pub open spec fn entries_to_map(s: Seq<(Point, Pixel)>) -> Map<(int, int), Pixel>
    decreases s.len(),
{
    if s.len() == 0 {
        Map::empty()
    } else {
        entries_to_map(s.drop_last()).insert(s.last().0@, s.last().1)
    }
}

/// Some entry of `s` is keyed by the point `p`.
pub open spec fn seq_has_key(s: Seq<(Point, Pixel)>, p: (int, int)) -> bool {
    exists|i: int| 0 <= i < s.len() && s[i].0@ == p
}

/// No two entries of `s` share a key.
pub open spec fn keys_distinct(s: Seq<(Point, Pixel)>) -> bool {
    forall|i: int, j: int|
        0 <= i < s.len() && 0 <= j < s.len() && #[trigger] s[i].0@ == #[trigger] s[j].0@ ==> i == j
}

/// The map `m` with every key moved by the inverse of `g`: a point `p` is in
/// the result exactly when `g(p)` is in `m`, and it keeps `g(p)`'s pixel.
pub open spec fn relocate_map(
    m: Map<(int, int), Pixel>,
    g: spec_fn((int, int)) -> (int, int),
) -> Map<(int, int), Pixel> {
    Map::new(|p: (int, int)| m.dom().contains(g(p)), |p: (int, int)| m[g(p)])
}

/// Where a local point lands when a sprite anchored at `origin` is projected
/// into world space.
pub open spec fn translate_point(p: (int, int), origin: (int, int)) -> (int, int) {
    (p.0 + origin.0, p.1 + origin.1)
}

/// The closed-form 90-degree-step transform for each absolute orientation.
pub open spec fn rotate_point(r: Rotation, p: (int, int)) -> (int, int) {
    match r {
        Rotation::Up => p,
        Rotation::Right => (-p.1, p.0),
        Rotation::Down => (p.0, -p.1),
        Rotation::Left => (p.1, -p.0),
    }
}

/// The orientation whose transform undoes `r`'s.
pub open spec fn inverse_rotation(r: Rotation) -> Rotation {
    match r {
        Rotation::Up => Rotation::Up,
        Rotation::Right => Rotation::Left,
        Rotation::Down => Rotation::Down,
        Rotation::Left => Rotation::Right,
    }
}

/// A sprite's pixel map with every key moved by `origin`.
pub open spec fn translated_map(
    m: Map<(int, int), Pixel>,
    origin: (int, int),
) -> Map<(int, int), Pixel> {
    relocate_map(m, |p: (int, int)| (p.0 - origin.0, p.1 - origin.1))
}

/// A sprite's pixel map turned to the absolute orientation `r`.
pub open spec fn rotated_map(m: Map<(int, int), Pixel>, r: Rotation) -> Map<(int, int), Pixel> {
    relocate_map(m, |p: (int, int)| rotate_point(inverse_rotation(r), p))
}

/// Every key of `m` can be moved by `origin` without leaving `i32`.
pub open spec fn translatable(m: Map<(int, int), Pixel>, origin: (int, int)) -> bool {
    forall|p: (int, int)| #[trigger]
        m.dom().contains(p) ==> i32::MIN <= p.0 + origin.0 <= i32::MAX && i32::MIN <= p.1
            + origin.1 <= i32::MAX
}

/// Every key of `m` can be negated without leaving `i32`, so `m` can be
/// turned to any orientation.
pub open spec fn rotatable(m: Map<(int, int), Pixel>) -> bool {
    forall|p: (int, int)| #[trigger] m.dom().contains(p) ==> p.0 > i32::MIN && p.1 > i32::MIN
}

/// Two point sets share at least one point.
pub open spec fn sets_intersect(a: Set<(int, int)>, b: Set<(int, int)>) -> bool {
    exists|p: (int, int)| a.contains(p) && b.contains(p)
}

proof fn lemma_entries_dom(s: Seq<(Point, Pixel)>)
    ensures
        forall|p: (int, int)| #[trigger]
            entries_to_map(s).dom().contains(p) <==> seq_has_key(s, p),
    decreases s.len(),
{
    if s.len() > 0 {
        let d = s.drop_last();
        lemma_entries_dom(d);
        assert forall|p: (int, int)|
            #[trigger] entries_to_map(s).dom().contains(p) <==> seq_has_key(s, p) by {
            assert(entries_to_map(s) == entries_to_map(d).insert(s.last().0@, s.last().1));
            if entries_to_map(s).dom().contains(p) {
                if p == s.last().0@ {
                    assert(s[s.len() - 1].0@ == p);
                } else {
                    assert(entries_to_map(d).dom().contains(p));
                    assert(seq_has_key(d, p));
                    let i = choose|i: int| 0 <= i < d.len() && d[i].0@ == p;
                    assert(d[i] == s[i]);
                    assert(s[i].0@ == p);
                }
            }
            if seq_has_key(s, p) {
                let i = choose|i: int| 0 <= i < s.len() && s[i].0@ == p;
                if i < s.len() - 1 {
                    assert(d[i] == s[i]);
                    assert(d[i].0@ == p);
                    assert(seq_has_key(d, p));
                } else {
                    assert(s.last().0@ == p);
                }
            }
        }
    }
}

proof fn lemma_entries_get(s: Seq<(Point, Pixel)>)
    requires
        keys_distinct(s),
    ensures
        forall|i: int|
            0 <= i < s.len() ==> entries_to_map(s)[#[trigger] s[i].0@] == s[i].1,
    decreases s.len(),
{
    if s.len() > 0 {
        let d = s.drop_last();
        assert(keys_distinct(d));
        lemma_entries_get(d);
        assert forall|i: int|
            0 <= i < s.len() implies entries_to_map(s)[#[trigger] s[i].0@] == s[i].1 by {
            if i < s.len() - 1 {
                assert(s[i].0@ != s.last().0@);
                assert(d[i].0@ == s[i].0@ && d[i].1 == s[i].1);
            }
        }
    }
}

proof fn lemma_entries_len(s: Seq<(Point, Pixel)>)
    requires
        keys_distinct(s),
    ensures
        entries_to_map(s).dom().finite(),
        entries_to_map(s).dom().len() == s.len(),
    decreases s.len(),
{
    if s.len() > 0 {
        let d = s.drop_last();
        assert(keys_distinct(d));
        lemma_entries_len(d);
        lemma_entries_dom(d);
        assert(!seq_has_key(d, s.last().0@));
        assert(!entries_to_map(d).dom().contains(s.last().0@));
    }
}

proof fn lemma_entries_finite(s: Seq<(Point, Pixel)>)
    ensures
        entries_to_map(s).dom().finite(),
    decreases s.len(),
{
    if s.len() > 0 {
        lemma_entries_finite(s.drop_last());
    }
}

/// A sparse pixel map: an association from points to pixels, the library's
/// replacement for a hashed map in the sprite and projection logic.
#[derive(Debug)]
pub struct PixelMap {
    entries: Vec<(Point, Pixel)>,
}

impl View for PixelMap {
    type V = Map<(int, int), Pixel>;

    closed spec fn view(&self) -> Map<(int, int), Pixel> {
        entries_to_map(self.entries@)
    }
}

impl PixelMap {
    #[verifier::type_invariant]
    spec fn inv(self) -> bool {
        keys_distinct(self.entries@)
    }

    /// The map with no pixels.
    pub fn empty() -> (r: PixelMap)
        ensures
            r@ == Map::<(int, int), Pixel>::empty(),
    {
        let entries: Vec<(Point, Pixel)> = Vec::new();
        PixelMap { entries }
    }

    /// How many points are mapped.
    pub fn len(&self) -> (n: usize)
        ensures
            n == self@.dom().len(),
            self@.dom().finite(),
    {
        proof {
            use_type_invariant(self);
            lemma_entries_len(self.entries@);
        }
        self.entries.len()
    }

    /// Whether no points are mapped.
    pub fn is_empty(&self) -> (r: bool)
        ensures
            r == (self@ == Map::<(int, int), Pixel>::empty()),
    {
        proof {
            use_type_invariant(self);
            lemma_entries_len(self.entries@);
            lemma_entries_dom(self.entries@);
            if self.entries@.len() > 0 {
                assert(entries_to_map(self.entries@).dom().contains(self.entries@[0].0@));
            } else {
                assert(self@ =~= Map::<(int, int), Pixel>::empty());
            }
        }
        self.entries.len() == 0
    }

    /// Whether the point `p` is mapped.
    pub fn contains_key(&self, p: Point) -> (r: bool)
        ensures
            r == self@.dom().contains(p@),
    {
        proof {
            use_type_invariant(self);
            lemma_entries_dom(self.entries@);
        }
        let n = self.entries.len();
        let mut i: usize = 0;
        while i < n
            invariant
                n == self.entries@.len(),
                0 <= i <= n,
                forall|j: int| 0 <= j < i ==> #[trigger] self.entries@[j].0@ != p@,
                forall|q: (int, int)| #[trigger]
                    entries_to_map(self.entries@).dom().contains(q) <==> seq_has_key(
                        self.entries@,
                        q,
                    ),
            decreases n - i,
        {
            if self.entries[i].0 == p {
                return true;
            }
            i += 1;
        }
        false
    }

    /// The pixel at `p`, if `p` is mapped.
    pub fn get(&self, p: Point) -> (r: Option<Pixel>)
        ensures
            r == if self@.dom().contains(p@) {
                Some(self@[p@])
            } else {
                None::<Pixel>
            },
    {
        proof {
            use_type_invariant(self);
            lemma_entries_dom(self.entries@);
            lemma_entries_get(self.entries@);
        }
        let n = self.entries.len();
        let mut i: usize = 0;
        while i < n
            invariant
                n == self.entries@.len(),
                0 <= i <= n,
                keys_distinct(self.entries@),
                forall|j: int| 0 <= j < i ==> #[trigger] self.entries@[j].0@ != p@,
                forall|q: (int, int)| #[trigger]
                    entries_to_map(self.entries@).dom().contains(q) <==> seq_has_key(
                        self.entries@,
                        q,
                    ),
                forall|j: int|
                    0 <= j < self.entries@.len() ==> entries_to_map(self.entries@)[#[trigger] self
                        .entries@[j].0@] == self.entries@[j].1,
            decreases n - i,
        {
            if self.entries[i].0 == p {
                return Some(self.entries[i].1);
            }
            i += 1;
        }
        None
    }

    /// Map `p` to `px`, replacing any pixel already there.
    pub fn insert(&mut self, p: Point, px: Pixel)
        ensures
            final(self)@ == old(self)@.insert(p@, px),
    {
        proof {
            use_type_invariant(&*self);
            lemma_entries_dom(self.entries@);
        }
        let mut es: Vec<(Point, Pixel)> = Vec::new();
        core::mem::swap(&mut es, &mut self.entries);
        let ghost s0 = es@;
        let n = es.len();
        let mut i: usize = 0;
        let mut found = false;
        while i < n && !found
            invariant
                es@.len() == s0.len(),
                n == s0.len(),
                0 <= i <= n,
                keys_distinct(s0),
                if found {
                    i < n && s0[i as int].0@ == p@ && es@ =~= s0.update(i as int, (p, px))
                } else {
                    es@ =~= s0 && (forall|j: int| 0 <= j < i ==> #[trigger] s0[j].0@ != p@)
                },
            decreases n - i + if found {
                0int
            } else {
                1int
            },
        {
            if es[i].0 == p {
                es.set(i, (p, px));
                found = true;
            } else {
                i += 1;
            }
        }
        if found {
            proof {
                lemma_update_same_key(s0, es@, i as int, p, px);
            }
        } else {
            es.push((p, px));
            proof {
                assert(es@.drop_last() =~= s0);
                assert(!seq_has_key(s0, p@));
                lemma_entries_dom(s0);
                assert(entries_to_map(es@) =~= entries_to_map(s0).insert(p@, px));
            }
        }
        self.entries = es;
    }

    /// The contents as a list: one entry per mapped point, with its pixel.
    pub fn to_entries(&self) -> (r: Vec<(Point, Pixel)>)
        ensures
            r@.len() == self@.dom().len(),
            forall|j: int|
                0 <= j < r@.len() ==> self@.dom().contains(#[trigger] r@[j].0@) && self@[r@[j].0@]
                    == r@[j].1,
    {
        proof {
            use_type_invariant(self);
            lemma_entries_dom(self.entries@);
            lemma_entries_get(self.entries@);
            lemma_entries_len(self.entries@);
        }
        let n = self.entries.len();
        let mut out: Vec<(Point, Pixel)> = Vec::new();
        let mut i: usize = 0;
        while i < n
            invariant
                n == self.entries@.len(),
                0 <= i <= n,
                out@.len() == i,
                forall|j: int| 0 <= j < i ==> #[trigger] out@[j] == self.entries@[j],
            decreases n - i,
        {
            out.push(self.entries[i]);
            i += 1;
        }
        proof {
            assert forall|j: int|
                0 <= j < out@.len() implies entries_to_map(self.entries@).dom().contains(
                #[trigger] out@[j].0@,
            ) && entries_to_map(self.entries@)[out@[j].0@] == out@[j].1 by {
                assert(out@[j] == self.entries@[j]);
                assert(seq_has_key(self.entries@, self.entries@[j].0@));
            }
        }
        out
    }

    /// A pixel map with the same contents.
    pub fn copied(&self) -> (r: PixelMap)
        ensures
            r@ == self@,
    {
        proof {
            use_type_invariant(self);
        }
        let n = self.entries.len();
        let mut out: Vec<(Point, Pixel)> = Vec::new();
        let mut i: usize = 0;
        while i < n
            invariant
                n == self.entries@.len(),
                0 <= i <= n,
                out@ =~= self.entries@.take(i as int),
            decreases n - i,
        {
            out.push(self.entries[i]);
            i += 1;
        }
        proof {
            assert(out@ =~= self.entries@);
        }
        PixelMap { entries: out }
    }
}

proof fn lemma_entries_relocate(
    s: Seq<(Point, Pixel)>,
    t: Seq<(Point, Pixel)>,
    f: spec_fn((int, int)) -> (int, int),
    g: spec_fn((int, int)) -> (int, int),
)
    requires
        t.len() == s.len(),
        forall|p: (int, int)| #[trigger] g(f(p)) == p,
        forall|p: (int, int)| #[trigger] f(g(p)) == p,
        forall|i: int|
            0 <= i < s.len() ==> #[trigger] t[i].0@ == f(s[i].0@) && t[i].1 == s[i].1,
    ensures
        entries_to_map(t) =~= relocate_map(entries_to_map(s), g),
    decreases s.len(),
{
    if s.len() == 0 {
        assert(entries_to_map(t) =~= relocate_map(entries_to_map(s), g));
    } else {
        let ds = s.drop_last();
        let dt = t.drop_last();
        assert forall|i: int|
            0 <= i < ds.len() implies #[trigger] dt[i].0@ == f(ds[i].0@) && dt[i].1
            == ds[i].1 by {
            assert(dt[i] == t[i]);
            assert(ds[i] == s[i]);
            assert(t[i].0@ == f(s[i].0@));
        }
        lemma_entries_relocate(ds, dt, f, g);
        let k = s.last().0@;
        let v = s.last().1;
        let md = entries_to_map(ds);
        assert(t.last().0@ == f(k) && t.last().1 == v) by {
            assert(t[s.len() - 1].0@ == f(s[s.len() - 1].0@));
        }
        assert(entries_to_map(t) == entries_to_map(dt).insert(f(k), v));
        let lhs = relocate_map(md, g).insert(f(k), v);
        let rhs = relocate_map(md.insert(k, v), g);
        assert forall|p: (int, int)|
            #[trigger] lhs.dom().contains(p) <==> rhs.dom().contains(p) by {
            if g(p) == k {
                assert(f(g(p)) == p);
            }
            if p == f(k) {
                assert(g(f(k)) == k);
            }
        }
        assert forall|p: (int, int)| #[trigger]
            lhs.dom().contains(p) && rhs.dom().contains(p) implies lhs[p] == rhs[p] by {
            if g(p) == k {
                assert(f(g(p)) == p);
            }
            if p == f(k) {
                assert(g(f(k)) == k);
            }
        }
        assert(lhs =~= rhs);
    }
}

impl PixelMap {
    /// The same pixels with every point moved by `origin`: the world-space
    /// projection of a local sprite map anchored at `origin`.
    pub fn translated(&self, origin: Point) -> (r: PixelMap)
        requires
            translatable(self@, origin@),
        ensures
            r@ == translated_map(self@, origin@),
    {
        proof {
            use_type_invariant(self);
            lemma_entries_dom(self.entries@);
        }
        let n = self.entries.len();
        let mut out: Vec<(Point, Pixel)> = Vec::new();
        let mut i: usize = 0;
        while i < n
            invariant
                n == self.entries@.len(),
                0 <= i <= n,
                out@.len() == i,
                keys_distinct(self.entries@),
                translatable(entries_to_map(self.entries@), origin@),
                forall|q: (int, int)| #[trigger]
                    entries_to_map(self.entries@).dom().contains(q) <==> seq_has_key(
                        self.entries@,
                        q,
                    ),
                forall|j: int|
                    0 <= j < i ==> #[trigger] out@[j].0@ == translate_point(
                        self.entries@[j].0@,
                        origin@,
                    ),
                forall|j: int| 0 <= j < i ==> #[trigger] out@[j].1 == self.entries@[j].1,
            decreases n - i,
        {
            let (p, px) = self.entries[i];
            proof {
                assert(self.entries@[i as int].0@ == p@);
                assert(seq_has_key(self.entries@, p@));
                assert(entries_to_map(self.entries@).dom().contains(p@));
            }
            let q = Point::new(p.x + origin.x, p.y + origin.y);
            out.push((q, px));
            i += 1;
        }
        proof {
            let f = |p: (int, int)| (p.0 + origin@.0, p.1 + origin@.1);
            let g = |p: (int, int)| (p.0 - origin@.0, p.1 - origin@.1);
            assert forall|j: int|
                0 <= j < self.entries@.len() implies #[trigger] out@[j].0@ == f(
                self.entries@[j].0@,
            ) && out@[j].1 == self.entries@[j].1 by {
                assert(out@[j].0@ == translate_point(self.entries@[j].0@, origin@));
            }
            lemma_entries_relocate(self.entries@, out@, f, g);
            assert forall|a: int, b: int|
                0 <= a < out@.len() && 0 <= b < out@.len() && #[trigger] out@[a].0@
                    == #[trigger] out@[b].0@ implies a == b by {
                assert(out@[a].0@ == f(self.entries@[a].0@));
                assert(out@[b].0@ == f(self.entries@[b].0@));
                assert(g(f(self.entries@[a].0@)) == self.entries@[a].0@);
                assert(g(f(self.entries@[b].0@)) == self.entries@[b].0@);
                assert(self.entries@[a].0@ == self.entries@[b].0@);
            }
            assert(entries_to_map(out@) =~= translated_map(self@, origin@));
        }
        PixelMap { entries: out }
    }

    /// The same pixels turned to the absolute orientation `r`, each point
    /// moved by the closed-form transform for `r`.
    pub fn rotated(&self, rotation: Rotation) -> (r: PixelMap)
        requires
            rotatable(self@),
        ensures
            r@ == rotated_map(self@, rotation),
    {
        proof {
            use_type_invariant(self);
            lemma_entries_dom(self.entries@);
        }
        let n = self.entries.len();
        let mut out: Vec<(Point, Pixel)> = Vec::new();
        let mut i: usize = 0;
        while i < n
            invariant
                n == self.entries@.len(),
                0 <= i <= n,
                out@.len() == i,
                keys_distinct(self.entries@),
                rotatable(entries_to_map(self.entries@)),
                forall|q: (int, int)| #[trigger]
                    entries_to_map(self.entries@).dom().contains(q) <==> seq_has_key(
                        self.entries@,
                        q,
                    ),
                forall|j: int|
                    0 <= j < i ==> #[trigger] out@[j].0@ == rotate_point(
                        rotation,
                        self.entries@[j].0@,
                    ),
                forall|j: int| 0 <= j < i ==> #[trigger] out@[j].1 == self.entries@[j].1,
            decreases n - i,
        {
            let (p, px) = self.entries[i];
            proof {
                assert(self.entries@[i as int].0@ == p@);
                assert(seq_has_key(self.entries@, p@));
                assert(entries_to_map(self.entries@).dom().contains(p@));
            }
            let q = match rotation {
                Rotation::Up => Point::new(p.x, p.y),
                Rotation::Right => Point::new(-p.y, p.x),
                Rotation::Down => Point::new(p.x, -p.y),
                Rotation::Left => Point::new(p.y, -p.x),
            };
            out.push((q, px));
            i += 1;
        }
        proof {
            let f = |p: (int, int)| rotate_point(rotation, p);
            let g = |p: (int, int)| rotate_point(inverse_rotation(rotation), p);
            assert forall|j: int|
                0 <= j < self.entries@.len() implies #[trigger] out@[j].0@ == f(
                self.entries@[j].0@,
            ) && out@[j].1 == self.entries@[j].1 by {
                assert(out@[j].0@ == rotate_point(rotation, self.entries@[j].0@));
            }
            assert forall|p: (int, int)| #[trigger] g(f(p)) == p by {
                assert(g(f(p)) == rotate_point(
                    inverse_rotation(rotation),
                    rotate_point(rotation, p),
                ));
            }
            assert forall|p: (int, int)| #[trigger] f(g(p)) == p by {
                assert(f(g(p)) == rotate_point(
                    rotation,
                    rotate_point(inverse_rotation(rotation), p),
                ));
            }
            lemma_entries_relocate(self.entries@, out@, f, g);
            assert forall|a: int, b: int|
                0 <= a < out@.len() && 0 <= b < out@.len() && #[trigger] out@[a].0@
                    == #[trigger] out@[b].0@ implies a == b by {
                assert(out@[a].0@ == f(self.entries@[a].0@));
                assert(out@[b].0@ == f(self.entries@[b].0@));
                assert(g(f(self.entries@[a].0@)) == self.entries@[a].0@);
                assert(g(f(self.entries@[b].0@)) == self.entries@[b].0@);
                assert(self.entries@[a].0@ == self.entries@[b].0@);
            }
            assert(entries_to_map(out@) =~= rotated_map(self@, rotation));
        }
        PixelMap { entries: out }
    }

    /// The set of points that are mapped: the key set of the pixel map.
    pub fn key_set(&self) -> (r: PointSet)
        ensures
            r@ == self@.dom(),
    {
        proof {
            use_type_invariant(self);
            lemma_entries_dom(self.entries@);
        }
        let n = self.entries.len();
        let mut pts: Vec<Point> = Vec::new();
        let mut i: usize = 0;
        while i < n
            invariant
                n == self.entries@.len(),
                0 <= i <= n,
                pts@.len() == i,
                forall|j: int| 0 <= j < i ==> #[trigger] pts@[j] == self.entries@[j].0,
            decreases n - i,
        {
            pts.push(self.entries[i].0);
            i += 1;
        }
        proof {
            assert forall|a: int, b: int|
                0 <= a < pts@.len() && 0 <= b < pts@.len() && #[trigger] pts@[a]@
                    == #[trigger] pts@[b]@ implies a == b by {
                assert(self.entries@[a].0@ == self.entries@[b].0@);
            }
            let mapped = pts@.map_values(|p: Point| p@);
            assert forall|q: (int, int)| #[trigger]
                mapped.to_set().contains(q) <==> entries_to_map(self.entries@).dom().contains(
                q,
            ) by {
                if mapped.to_set().contains(q) {
                    let j = choose|j: int| 0 <= j < mapped.len() && mapped[j] == q;
                    assert(self.entries@[j].0@ == q);
                    assert(seq_has_key(self.entries@, q));
                }
                if entries_to_map(self.entries@).dom().contains(q) {
                    let j = choose|j: int|
                        0 <= j < self.entries@.len() && self.entries@[j].0@ == q;
                    assert(mapped[j] == q);
                    assert(mapped.contains(q));
                }
            }
            assert(mapped.to_set() =~= entries_to_map(self.entries@).dom());
        }
        PointSet { items: pts }
    }

    /// Write every pixel of `self` into `acc`, overriding what was there:
    /// `self` is composited over `acc`.
    pub fn merge_into(&self, acc: &mut PixelMap)
        ensures
            final(acc)@ == old(acc)@.union_prefer_right(self@),
    {
        proof {
            use_type_invariant(self);
            lemma_entries_dom(self.entries@);
            lemma_entries_get(self.entries@);
        }
        let n = self.entries.len();
        let mut i: usize = 0;
        while i < n
            invariant
                n == self.entries@.len(),
                0 <= i <= n,
                keys_distinct(self.entries@),
                forall|q: (int, int)| #[trigger]
                    entries_to_map(self.entries@).dom().contains(q) <==> seq_has_key(
                        self.entries@,
                        q,
                    ),
                forall|j: int|
                    0 <= j < self.entries@.len() ==> entries_to_map(self.entries@)[#[trigger] self
                        .entries@[j].0@] == self.entries@[j].1,
                acc@ =~= old(acc)@.union_prefer_right(
                    entries_to_map(self.entries@.take(i as int)),
                ),
            decreases n - i,
        {
            let (p, px) = self.entries[i];
            acc.insert(p, px);
            proof {
                let tk = self.entries@.take(i as int);
                let tk1 = self.entries@.take(i as int + 1);
                assert(tk1.drop_last() =~= tk);
                assert(tk1.last() == self.entries@[i as int]);
                assert(entries_to_map(tk1) == entries_to_map(tk).insert(p@, px));
                assert(acc@ =~= old(acc)@.union_prefer_right(entries_to_map(tk1)));
            }
            i += 1;
        }
        proof {
            assert(self.entries@.take(n as int) =~= self.entries@);
        }
    }
}

/// `xmin`/`xmax`/`ymin`/`ymax` are the coordinate extremes of the keys of
/// `m`, each clamped to include 0.
pub open spec fn bounds_ok(
    m: Map<(int, int), Pixel>,
    xmin: int,
    xmax: int,
    ymin: int,
    ymax: int,
) -> bool {
    &&& xmin <= 0 <= xmax
    &&& ymin <= 0 <= ymax
    &&& forall|p: (int, int)| #[trigger]
        m.dom().contains(p) ==> xmin <= p.0 <= xmax && ymin <= p.1 <= ymax
    &&& xmin == 0 || exists|p: (int, int)| #[trigger] m.dom().contains(p) && p.0 == xmin
    &&& xmax == 0 || exists|p: (int, int)| #[trigger] m.dom().contains(p) && p.0 == xmax
    &&& ymin == 0 || exists|p: (int, int)| #[trigger] m.dom().contains(p) && p.1 == ymin
    &&& ymax == 0 || exists|p: (int, int)| #[trigger] m.dom().contains(p) && p.1 == ymax
}

impl PixelMap {
    /// The coordinate extremes of the mapped points, each clamped to include
    /// 0: the scan that derives a sprite's bounding box.
    pub fn bounding(&self) -> (r: (i32, i32, i32, i32))
        ensures
            bounds_ok(self@, r.0 as int, r.1 as int, r.2 as int, r.3 as int),
    {
        proof {
            use_type_invariant(self);
            lemma_entries_dom(self.entries@);
        }
        let n = self.entries.len();
        let mut x_min: i32 = 0;
        let mut x_max: i32 = 0;
        let mut y_min: i32 = 0;
        let mut y_max: i32 = 0;
        let mut i: usize = 0;
        while i < n
            invariant
                n == self.entries@.len(),
                0 <= i <= n,
                x_min <= 0 <= x_max,
                y_min <= 0 <= y_max,
                forall|q: (int, int)| #[trigger]
                    entries_to_map(self.entries@).dom().contains(q) <==> seq_has_key(
                        self.entries@,
                        q,
                    ),
                forall|j: int|
                    0 <= j < i ==> x_min <= #[trigger] self.entries@[j].0@.0 <= x_max,
                forall|j: int|
                    0 <= j < i ==> y_min <= #[trigger] self.entries@[j].0@.1 <= y_max,
                x_min == 0 || exists|j: int|
                    0 <= j < i && #[trigger] self.entries@[j].0@.0 == x_min,
                x_max == 0 || exists|j: int|
                    0 <= j < i && #[trigger] self.entries@[j].0@.0 == x_max,
                y_min == 0 || exists|j: int|
                    0 <= j < i && #[trigger] self.entries@[j].0@.1 == y_min,
                y_max == 0 || exists|j: int|
                    0 <= j < i && #[trigger] self.entries@[j].0@.1 == y_max,
            decreases n - i,
        {
            let (p, _px) = self.entries[i];
            if p.x < x_min {
                x_min = p.x;
            } else if p.x > x_max {
                x_max = p.x;
            }
            if p.y < y_min {
                y_min = p.y;
            } else if p.y > y_max {
                y_max = p.y;
            }
            proof {
                assert(self.entries@[i as int].0@.0 == p.x as int);
                assert(self.entries@[i as int].0@.1 == p.y as int);
            }
            i += 1;
        }
        proof {
            let m = entries_to_map(self.entries@);
            assert forall|q: (int, int)| #[trigger]
                m.dom().contains(q) implies x_min <= q.0 <= x_max && y_min <= q.1 <= y_max by {
                let j = choose|j: int| 0 <= j < self.entries@.len() && self.entries@[j].0@ == q;
                assert(x_min <= self.entries@[j].0@.0 <= x_max);
                assert(y_min <= self.entries@[j].0@.1 <= y_max);
            }
            if x_min != 0 {
                let j = choose|j: int| 0 <= j < n && #[trigger] self.entries@[j].0@.0 == x_min;
                assert(seq_has_key(self.entries@, self.entries@[j].0@));
                assert(m.dom().contains(self.entries@[j].0@));
            }
            if x_max != 0 {
                let j = choose|j: int| 0 <= j < n && #[trigger] self.entries@[j].0@.0 == x_max;
                assert(seq_has_key(self.entries@, self.entries@[j].0@));
                assert(m.dom().contains(self.entries@[j].0@));
            }
            if y_min != 0 {
                let j = choose|j: int| 0 <= j < n && #[trigger] self.entries@[j].0@.1 == y_min;
                assert(seq_has_key(self.entries@, self.entries@[j].0@));
                assert(m.dom().contains(self.entries@[j].0@));
            }
            if y_max != 0 {
                let j = choose|j: int| 0 <= j < n && #[trigger] self.entries@[j].0@.1 == y_max;
                assert(seq_has_key(self.entries@, self.entries@[j].0@));
                assert(m.dom().contains(self.entries@[j].0@));
            }
        }
        (x_min, x_max, y_min, y_max)
    }
}

impl PixelMap {
    /// Whether every mapped point can be negated without leaving `i32`: the
    /// executable test for `rotatable`.
    pub fn can_rotate(&self) -> (r: bool)
        ensures
            r == rotatable(self@),
    {
        proof {
            use_type_invariant(self);
            lemma_entries_dom(self.entries@);
        }
        let n = self.entries.len();
        let mut i: usize = 0;
        while i < n
            invariant
                n == self.entries@.len(),
                0 <= i <= n,
                forall|q: (int, int)| #[trigger]
                    entries_to_map(self.entries@).dom().contains(q) <==> seq_has_key(
                        self.entries@,
                        q,
                    ),
                forall|j: int| 0 <= j < i ==> #[trigger] self.entries@[j].0@.0 > i32::MIN,
                forall|j: int| 0 <= j < i ==> #[trigger] self.entries@[j].0@.1 > i32::MIN,
            decreases n - i,
        {
            let (p, _px) = self.entries[i];
            if p.x == i32::MIN || p.y == i32::MIN {
                proof {
                    assert(self.entries@[i as int].0@ == p@);
                    assert(seq_has_key(self.entries@, p@));
                    assert(entries_to_map(self.entries@).dom().contains(p@));
                }
                return false;
            }
            proof {
                assert(self.entries@[i as int].0@.0 == p.x as int);
                assert(self.entries@[i as int].0@.1 == p.y as int);
            }
            i += 1;
        }
        proof {
            assert forall|q: (int, int)| #[trigger]
                entries_to_map(self.entries@).dom().contains(q) implies q.0 > i32::MIN && q.1
                > i32::MIN by {
                let j = choose|j: int| 0 <= j < self.entries@.len() && self.entries@[j].0@ == q;
                assert(self.entries@[j].0@.0 > i32::MIN);
                assert(self.entries@[j].0@.1 > i32::MIN);
            }
        }
        true
    }

    /// Whether every mapped point can be moved by `origin` without leaving
    /// `i32`: the executable test for `translatable`.
    pub fn can_translate(&self, origin: Point) -> (r: bool)
        ensures
            r == translatable(self@, origin@),
    {
        proof {
            use_type_invariant(self);
            lemma_entries_dom(self.entries@);
        }
        let n = self.entries.len();
        let mut i: usize = 0;
        while i < n
            invariant
                n == self.entries@.len(),
                0 <= i <= n,
                forall|q: (int, int)| #[trigger]
                    entries_to_map(self.entries@).dom().contains(q) <==> seq_has_key(
                        self.entries@,
                        q,
                    ),
                forall|j: int|
                    0 <= j < i ==> i32::MIN <= #[trigger] self.entries@[j].0@.0 + origin@.0
                        <= i32::MAX,
                forall|j: int|
                    0 <= j < i ==> i32::MIN <= #[trigger] self.entries@[j].0@.1 + origin@.1
                        <= i32::MAX,
            decreases n - i,
        {
            let (p, _px) = self.entries[i];
            let sx: i64 = p.x as i64 + origin.x as i64;
            let sy: i64 = p.y as i64 + origin.y as i64;
            if sx < i32::MIN as i64 || sx > i32::MAX as i64 || sy < i32::MIN as i64 || sy
                > i32::MAX as i64 {
                proof {
                    assert(self.entries@[i as int].0@ == p@);
                    assert(seq_has_key(self.entries@, p@));
                    assert(entries_to_map(self.entries@).dom().contains(p@));
                }
                return false;
            }
            proof {
                assert(self.entries@[i as int].0@.0 == p.x as int);
                assert(self.entries@[i as int].0@.1 == p.y as int);
            }
            i += 1;
        }
        proof {
            assert forall|q: (int, int)| #[trigger]
                entries_to_map(self.entries@).dom().contains(q) implies i32::MIN <= q.0 + origin@.0
                <= i32::MAX && i32::MIN <= q.1 + origin@.1 <= i32::MAX by {
                let j = choose|j: int| 0 <= j < self.entries@.len() && self.entries@[j].0@ == q;
                assert(i32::MIN <= self.entries@[j].0@.0 + origin@.0 <= i32::MAX);
                assert(i32::MIN <= self.entries@[j].0@.1 + origin@.1 <= i32::MAX);
            }
        }
        true
    }
}

/// No two points of `s` coincide.
pub open spec fn points_distinct(s: Seq<Point>) -> bool {
    forall|i: int, j: int|
        0 <= i < s.len() && 0 <= j < s.len() && #[trigger] s[i]@ == #[trigger] s[j]@ ==> i == j
}

/// A finite set of points: the library's replacement for a hashed set in the
/// collision logic.
#[derive(Debug)]
pub struct PointSet {
    items: Vec<Point>,
}

impl View for PointSet {
    type V = Set<(int, int)>;

    closed spec fn view(&self) -> Set<(int, int)> {
        self.items@.map_values(|p: Point| p@).to_set()
    }
}

impl PointSet {
    #[verifier::type_invariant]
    spec fn inv(self) -> bool {
        points_distinct(self.items@)
    }

    /// The set with no points.
    pub fn empty() -> (r: PointSet)
        ensures
            r@ == Set::<(int, int)>::empty(),
    {
        let items: Vec<Point> = Vec::new();
        let r = PointSet { items };
        proof {
            assert(r@ =~= Set::<(int, int)>::empty());
        }
        r
    }

    /// How many points the set holds.
    pub fn len(&self) -> (n: usize)
        ensures
            n == self@.len(),
            self@.finite(),
    {
        proof {
            use_type_invariant(self);
            let mapped = self.items@.map_values(|p: Point| p@);
            assert forall|a: int, b: int|
                0 <= a < mapped.len() && 0 <= b < mapped.len() && a != b implies mapped[a]
                != mapped[b] by {
                assert(mapped[a] == self.items@[a]@);
                assert(mapped[b] == self.items@[b]@);
            }
            mapped.unique_seq_to_set();
            broadcast use vstd::seq_lib::seq_to_set_is_finite;

        }
        self.items.len()
    }

    /// Whether the point `p` is in the set.
    pub fn contains(&self, p: Point) -> (r: bool)
        ensures
            r == self@.contains(p@),
    {
        proof {
            use_type_invariant(self);
        }
        let n = self.items.len();
        let mut i: usize = 0;
        while i < n
            invariant
                n == self.items@.len(),
                0 <= i <= n,
                forall|j: int| 0 <= j < i ==> #[trigger] self.items@[j]@ != p@,
            decreases n - i,
        {
            if self.items[i] == p {
                proof {
                    let mapped = self.items@.map_values(|q: Point| q@);
                    assert(mapped[i as int] == p@);
                    assert(mapped.contains(p@));
                }
                return true;
            }
            i += 1;
        }
        proof {
            let mapped = self.items@.map_values(|q: Point| q@);
            if mapped.to_set().contains(p@) {
                let j = choose|j: int| 0 <= j < mapped.len() && mapped[j] == p@;
                assert(self.items@[j]@ == p@);
            }
        }
        false
    }

    /// Add the point `p` to the set.
    pub fn insert(&mut self, p: Point)
        ensures
            final(self)@ == old(self)@.insert(p@),
    {
        proof {
            use_type_invariant(&*self);
        }
        let present = self.contains(p);
        if !present {
            let mut items: Vec<Point> = Vec::new();
            core::mem::swap(&mut items, &mut self.items);
            let ghost s0 = items@;
            items.push(p);
            proof {
                assert forall|a: int, b: int|
                    0 <= a < items@.len() && 0 <= b < items@.len() && #[trigger] items@[a]@
                        == #[trigger] items@[b]@ implies a == b by {
                    let mapped = s0.map_values(|q: Point| q@);
                    if a < s0.len() && b == s0.len() {
                        assert(mapped[a] == s0[a]@);
                        assert(mapped.contains(p@));
                    }
                    if b < s0.len() && a == s0.len() {
                        assert(mapped[b] == s0[b]@);
                        assert(mapped.contains(p@));
                    }
                }
                let mapped0 = s0.map_values(|q: Point| q@);
                let mapped1 = items@.map_values(|q: Point| q@);
                assert forall|q: (int, int)|
                    #[trigger] mapped1.to_set().contains(q) <==> mapped0.to_set().insert(
                        p@,
                    ).contains(q) by {
                    if mapped1.to_set().contains(q) {
                        let j = choose|j: int| 0 <= j < mapped1.len() && mapped1[j] == q;
                        if j < s0.len() {
                            assert(mapped0[j] == q);
                            assert(mapped0.contains(q));
                        } else {
                            assert(items@[j]@ == p@);
                        }
                    }
                    if mapped0.to_set().insert(p@).contains(q) {
                        if q == p@ {
                            assert(mapped1[s0.len() as int] == q);
                            assert(mapped1.contains(q));
                        } else {
                            let j = choose|j: int| 0 <= j < mapped0.len() && mapped0[j] == q;
                            assert(mapped1[j] == q);
                            assert(mapped1.contains(q));
                        }
                    }
                }
                assert(mapped1.to_set() =~= mapped0.to_set().insert(p@));
            }
            self.items = items;
        } else {
            proof {
                assert(final(self)@ =~= old(self)@.insert(p@));
            }
        }
    }

    /// Add every point of `self` to `acc`.
    pub fn union_into(&self, acc: &mut PointSet)
        ensures
            final(acc)@ == old(acc)@.union(self@),
    {
        proof {
            use_type_invariant(self);
        }
        let n = self.items.len();
        let mut i: usize = 0;
        while i < n
            invariant
                n == self.items@.len(),
                0 <= i <= n,
                points_distinct(self.items@),
                acc@ =~= old(acc)@.union(
                    self.items@.take(i as int).map_values(|p: Point| p@).to_set(),
                ),
            decreases n - i,
        {
            acc.insert(self.items[i]);
            proof {
                let tk = self.items@.take(i as int).map_values(|p: Point| p@);
                let tk1 = self.items@.take(i as int + 1).map_values(|p: Point| p@);
                assert forall|q: (int, int)|
                    #[trigger] tk1.to_set().contains(q) <==> tk.to_set().insert(
                        self.items@[i as int]@,
                    ).contains(q) by {
                    if tk1.to_set().contains(q) {
                        let j = choose|j: int| 0 <= j < tk1.len() && tk1[j] == q;
                        if j < i {
                            assert(tk[j] == q);
                            assert(tk.contains(q));
                        } else {
                            assert(tk1[j] == self.items@[i as int]@);
                        }
                    }
                    if tk.to_set().insert(self.items@[i as int]@).contains(q) {
                        if q == self.items@[i as int]@ {
                            assert(tk1[i as int] == q);
                            assert(tk1.contains(q));
                        } else {
                            let j = choose|j: int| 0 <= j < tk.len() && tk[j] == q;
                            assert(tk1[j] == q);
                            assert(tk1.contains(q));
                        }
                    }
                }
                assert(tk1.to_set() =~= tk.to_set().insert(self.items@[i as int]@));
            }
            i += 1;
        }
        proof {
            let whole = self.items@.take(n as int).map_values(|p: Point| p@);
            assert(self.items@.take(n as int) =~= self.items@);
        }
    }

    /// Whether some point of `self` is also in `other`, probing `other` for
    /// each point of `self`.
    pub fn intersects(&self, other: &PointSet) -> (r: bool)
        ensures
            r == sets_intersect(self@, other@),
    {
        proof {
            use_type_invariant(self);
        }
        let n = self.items.len();
        let mut i: usize = 0;
        while i < n
            invariant
                n == self.items@.len(),
                0 <= i <= n,
                forall|j: int| 0 <= j < i ==> !other@.contains(#[trigger] self.items@[j]@),
            decreases n - i,
        {
            let p = self.items[i];
            if other.contains(p) {
                proof {
                    let mapped = self.items@.map_values(|q: Point| q@);
                    assert(mapped[i as int] == p@);
                    assert(mapped.contains(p@));
                    assert(self@.contains(p@));
                }
                return true;
            }
            i += 1;
        }
        proof {
            if sets_intersect(self@, other@) {
                let q = choose|q: (int, int)| self@.contains(q) && other@.contains(q);
                let mapped = self.items@.map_values(|p: Point| p@);
                let j = choose|j: int| 0 <= j < mapped.len() && mapped[j] == q;
                assert(self.items@[j]@ == q);
            }
        }
        false
    }
}

proof fn lemma_update_same_key(
    s1: Seq<(Point, Pixel)>,
    s2: Seq<(Point, Pixel)>,
    i: int,
    p: Point,
    px: Pixel,
)
    requires
        keys_distinct(s1),
        0 <= i < s1.len(),
        s1[i].0@ == p@,
        s2 == s1.update(i, (p, px)),
    ensures
        entries_to_map(s2) =~= entries_to_map(s1).insert(p@, px),
        keys_distinct(s2),
    decreases s1.len(),
{
    assert forall|a: int, b: int|
        0 <= a < s2.len() && 0 <= b < s2.len() && #[trigger] s2[a].0@ == #[trigger] s2[b].0@
            implies a == b by {
        assert(s1[a].0@ == s2[a].0@);
        assert(s1[b].0@ == s2[b].0@);
    }
    if i == s1.len() - 1 {
        assert(s2.drop_last() =~= s1.drop_last());
        assert(s2.last() == (p, px));
        assert(entries_to_map(s2) =~= entries_to_map(s1).insert(p@, px));
    } else {
        let d1 = s1.drop_last();
        let d2 = s2.drop_last();
        assert(d2 =~= d1.update(i, (p, px)));
        assert(keys_distinct(d1));
        assert(d1[i].0@ == p@);
        lemma_update_same_key(d1, d2, i, p, px);
        assert(s2.last() == s1.last());
        assert(s1.last().0@ != p@) by {
            assert(s1[i].0@ == p@);
            assert(s1[s1.len() - 1].0@ == s1.last().0@);
        }
        assert(entries_to_map(s2) =~= entries_to_map(s1).insert(p@, px));
    }
}

} // verus!
