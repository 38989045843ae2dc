//! The tile grid and the index of which entities stand on each tile.
use vstd::prelude::*;
use crate::components::{Entity, Point};

verus! {

/// A `width` x `height` grid; `tile_content[y * width + x]` lists the
/// entities on tile (x, y).
pub struct DungeonMap {
    pub width: i32,
    pub height: i32,
    pub tile_content: Vec<Vec<Entity>>,
}

impl DungeonMap {
    pub open spec fn wf(&self) -> bool {
        &&& self.width > 0
        &&& self.height > 0
        &&& self.tile_content@.len() == self.width * self.height
    }

    pub open spec fn in_bounds(&self, p: Point) -> bool {
        0 <= p.x < self.width && 0 <= p.y < self.height
    }

    /// A tile that is not on the map's outer edge.
    pub open spec fn interior(&self, p: Point) -> bool {
        0 < p.x < self.width - 1 && 0 < p.y < self.height - 1
    }

    pub open spec fn idx(&self, p: Point) -> int {
        p.y * self.width + p.x
    }

    /// The entities on tile `p`.
    pub open spec fn tile(&self, p: Point) -> Seq<Entity> {
        self.tile_content@[self.idx(p)]@
    }

    /// An empty index over a `width` x `height` grid.
    pub fn new(width: i32, height: i32) -> (m: DungeonMap)
        requires
            width > 0,
            height > 0,
            width * height <= usize::MAX,
        ensures
            m.wf(),
            m.width == width,
            m.height == height,
            forall|p: Point| m.in_bounds(p) ==> (#[trigger] m.tile(p)).len() == 0,
    {
        let n = (width as usize) * (height as usize);
        let mut tiles: Vec<Vec<Entity>> = Vec::new();
        let mut i: usize = 0;
        while i < n
            invariant
                i <= n,
                tiles@.len() == i,
                forall|j: int| 0 <= j < i ==> (#[trigger] tiles@[j])@.len() == 0,
            decreases n - i,
        {
            tiles.push(Vec::new());
            i += 1;
        }
        let m = DungeonMap { width, height, tile_content: tiles };
        proof {
            assert forall|p: Point| m.in_bounds(p) implies (#[trigger] m.tile(p)).len() == 0 by {
                lemma_idx_in_range(m, p);
            }
        }
        m
    }

    /// The index of tile (x, y) in `tile_content`.
    pub fn xy_idx(&self, x: i32, y: i32) -> (r: usize)
        requires
            self.wf(),
            self.in_bounds(Point { x, y }),
        ensures
            r == self.idx(Point { x, y }),
            r < self.tile_content@.len(),
    {
        let n = self.tile_content.len();
        proof {
            lemma_idx_in_range(*self, Point { x, y });
            assert(0 <= y * self.width <= y * self.width + x < n) by (nonlinear_arith)
                requires
                    0 <= y,
                    0 <= x,
                    0 < self.width,
                    y * self.width + x < n,
            ;
        }
        (y as usize) * (self.width as usize) + (x as usize)
    }

    /// Puts `e` on tile `p`, after the entities already there.
    pub fn place(&mut self, p: Point, e: Entity)
        requires
            old(self).wf(),
            old(self).in_bounds(p),
        ensures
            final(self).wf(),
            final(self).width == old(self).width,
            final(self).height == old(self).height,
            final(self).tile(p) == old(self).tile(p).push(e),
            forall|q: Point|
                final(self).in_bounds(q) && q != p ==> #[trigger] final(self).tile(q)
                    == old(self).tile(q),
    {
        let i = self.xy_idx(p.x, p.y);
        self.tile_content[i].push(e);
        proof {
            assert forall|q: Point| self.in_bounds(q) && q != p implies #[trigger] self.tile(q)
                == old(self).tile(q) by {
                lemma_idx_in_range(*self, q);
                lemma_idx_injective(*self, p, q);
            }
        }
    }
}

pub proof fn lemma_idx_in_range(m: DungeonMap, p: Point)
    requires
        m.wf(),
        m.in_bounds(p),
    ensures
        0 <= m.idx(p) < m.tile_content@.len(),
{
    assert(p.y * m.width + p.x < m.width * m.height) by (nonlinear_arith)
        requires
            0 <= p.x < m.width,
            0 <= p.y < m.height,
    ;
    assert(0 <= p.y * m.width) by (nonlinear_arith)
        requires
            0 <= p.y,
            0 < m.width,
    ;
}

pub proof fn lemma_idx_injective(m: DungeonMap, p: Point, q: Point)
    requires
        m.wf(),
        m.in_bounds(p),
        m.in_bounds(q),
        p != q,
    ensures
        m.idx(p) != m.idx(q),
{
    if p.y == q.y {
        assert(p.x != q.x);
    } else if p.y < q.y {
        assert(p.y * m.width + m.width <= q.y * m.width) by (nonlinear_arith)
            requires
                p.y < q.y,
                0 < m.width,
        ;
    } else {
        assert(q.y * m.width + m.width <= p.y * m.width) by (nonlinear_arith)
            requires
                q.y < p.y,
                0 < m.width,
        ;
    }
}

} // verus!
