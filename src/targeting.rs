//! Which entities an item use affects.
use vstd::prelude::*;
use crate::components::{Entity, Point};
use crate::map::DungeonMap;
use crate::world::{World, WorldView};

verus! {

/// `s` with `e` appended, unless it already holds `e`.
pub open spec fn add_new(s: Seq<Entity>, e: Entity) -> Seq<Entity> {
    if s.contains(e) {
        s
    } else {
        s.push(e)
    }
}

/// `s` with each of `es` appended in turn, skipping those already present.
pub open spec fn add_all(s: Seq<Entity>, es: Seq<Entity>) -> Seq<Entity>
    decreases es.len(),
{
    if es.len() == 0 {
        s
    } else {
        add_new(add_all(s, es.drop_last()), es.last())
    }
}

/// The entities on the non-border tiles of a blast footprint, in order of
/// tile then of tile content, each once.
pub open spec fn blast_targets(m: DungeonMap, tiles: Seq<Point>) -> Seq<Entity>
    decreases tiles.len(),
{
    if tiles.len() == 0 {
        Seq::empty()
    } else {
        let prev = blast_targets(m, tiles.drop_last());
        if m.interior(tiles.last()) {
            add_all(prev, m.tile(tiles.last()))
        } else {
            prev
        }
    }
}

/// The target set of a use of `item` by `actor` toward `target`. `blast` is
/// the area that the field of view covers from the target point within the
/// item's radius; it matters only for an item with an area of effect.
pub open spec fn target_set(
    w: WorldView,
    m: DungeonMap,
    actor: Entity,
    item: Entity,
    target: Option<Point>,
    blast: Seq<Point>,
) -> Seq<Entity> {
    match target {
        None => seq![actor],
        Some(p) => match w.ent(item).area_of_effect {
            Some(_) => blast_targets(m, blast),
            None => if m.in_bounds(p) {
                add_all(Seq::empty(), m.tile(p))
            } else {
                Seq::empty()
            },
        },
    }
}

pub proof fn lemma_add_all_no_duplicates(s: Seq<Entity>, es: Seq<Entity>)
    requires
        s.no_duplicates(),
    ensures
        add_all(s, es).no_duplicates(),
    decreases es.len(),
{
    if es.len() > 0 {
        lemma_add_all_no_duplicates(s, es.drop_last());
    }
}

pub proof fn lemma_blast_targets_no_duplicates(m: DungeonMap, tiles: Seq<Point>)
    ensures
        blast_targets(m, tiles).no_duplicates(),
    decreases tiles.len(),
{
    if tiles.len() > 0 {
        lemma_blast_targets_no_duplicates(m, tiles.drop_last());
        if m.interior(tiles.last()) {
            lemma_add_all_no_duplicates(blast_targets(m, tiles.drop_last()), m.tile(tiles.last()));
        }
    }
}

/// A border tile anywhere in a blast footprint contributes no targets: the
/// footprint without it gives the same target set.
pub proof fn lemma_border_tile_contributes_nothing(
    m: DungeonMap,
    before: Seq<Point>,
    p: Point,
    after: Seq<Point>,
)
    requires
        !m.interior(p),
    ensures
        blast_targets(m, before + seq![p] + after) == blast_targets(m, before + after),
    decreases after.len(),
{
    if after.len() == 0 {
        assert((before + seq![p] + after).drop_last() =~= before);
        assert(before + after =~= before);
    } else {
        let shorter = after.drop_last();
        lemma_border_tile_contributes_nothing(m, before, p, shorter);
        assert((before + seq![p] + after).drop_last() =~= before + seq![p] + shorter);
        assert((before + after).drop_last() =~= before + shorter);
        assert((before + seq![p] + after).last() == after.last());
        assert((before + after).last() == after.last());
    }
}

/// The target set holds no entity twice.
pub proof fn lemma_target_set_no_duplicates(
    w: WorldView,
    m: DungeonMap,
    actor: Entity,
    item: Entity,
    target: Option<Point>,
    blast: Seq<Point>,
)
    ensures
        target_set(w, m, actor, item, target, blast).no_duplicates(),
{
    match target {
        None => {
            assert(seq![actor].no_duplicates());
        },
        Some(p) => {
            lemma_blast_targets_no_duplicates(m, blast);
            if m.in_bounds(p) {
                lemma_add_all_no_duplicates(Seq::empty(), m.tile(p));
            }
        },
    }
}

/// Resolving a use reads the world and the map and changes neither: with
/// the same world, map and footprint, a second resolution gives the very
/// same target set as the first.
pub proof fn lemma_resolution_repeatable(
    w: WorldView,
    m: DungeonMap,
    actor: Entity,
    item: Entity,
    target: Option<Point>,
    blast: Seq<Point>,
    first: Seq<Entity>,
    second: Seq<Entity>,
)
    requires
        first == target_set(w, m, actor, item, target, blast),
        second == target_set(w, m, actor, item, target, blast),
    ensures
        first == second,
        first.no_duplicates(),
{
    lemma_target_set_no_duplicates(w, m, actor, item, target, blast);
}

/// Appends `e` to `v` unless `v` already holds it.
fn push_new(v: &mut Vec<Entity>, e: Entity)
    ensures
        final(v)@ == add_new(old(v)@, e),
{
    let mut i: usize = 0;
    while i < v.len()
        invariant
            0 <= i <= v@.len(),
            forall|j: int| 0 <= j < i ==> v@[j] != e,
        decreases v@.len() - i,
    {
        if v[i] == e {
            assert(v@.contains(e));
            return;
        }
        i += 1;
    }
    assert(!v@.contains(e));
    v.push(e);
}

/// Appends each of `es` to `v` that `v` does not hold yet.
fn push_all_new(v: &mut Vec<Entity>, es: &Vec<Entity>)
    ensures
        final(v)@ == add_all(old(v)@, es@),
{
    let mut i: usize = 0;
    while i < es.len()
        invariant
            0 <= i <= es@.len(),
            v@ == add_all(old(v)@, es@.subrange(0, i as int)),
        decreases es@.len() - i,
    {
        push_new(v, es[i]);
        proof {
            assert(es@.subrange(0, i + 1).drop_last() =~= es@.subrange(0, i as int));
        }
        i += 1;
    }
    assert(es@.subrange(0, es@.len() as int) =~= es@);
}

/// The entities that a use of `item` by `actor` toward `target` affects: the
/// actor itself when there is no target point; the entities on the target
/// tile for an item without an area of effect (none for a point off the
/// map); otherwise those on the tiles
/// of `blast` that are not on the map's edge. Each entity comes once, in the
/// order first met.
pub fn resolve_targets(
    world: &World,
    map: &DungeonMap,
    actor: Entity,
    item: Entity,
    target: Option<Point>,
    blast: &Vec<Point>,
) -> (r: Vec<Entity>)
    requires
        map.wf(),
        world@.has(item),
    ensures
        r@ == target_set(world@, *map, actor, item, target, blast@),
        r@.no_duplicates(),
{
    proof {
        lemma_target_set_no_duplicates(world@, *map, actor, item, target, blast@);
    }
    let mut targets: Vec<Entity> = Vec::new();
    match target {
        None => {
            targets.push(actor);
            assert(targets@ =~= seq![actor]);
        },
        Some(p) => {
            if world.entities[item.id].area_of_effect.is_some() {
                let mut i: usize = 0;
                while i < blast.len()
                    invariant
                        map.wf(),
                        0 <= i <= blast@.len(),
                        targets@ == blast_targets(*map, blast@.subrange(0, i as int)),
                    decreases blast@.len() - i,
                {
                    let q = blast[i];
                    proof {
                        assert(blast@.subrange(0, i + 1).drop_last() =~= blast@.subrange(
                            0,
                            i as int,
                        ));
                    }
                    if q.x > 0 && q.x < map.width - 1 && q.y > 0 && q.y < map.height - 1 {
                        let idx = map.xy_idx(q.x, q.y);
                        push_all_new(&mut targets, &map.tile_content[idx]);
                    }
                    i += 1;
                }
                assert(blast@.subrange(0, blast@.len() as int) =~= blast@);
            } else if 0 <= p.x && p.x < map.width && 0 <= p.y && p.y < map.height {
                let idx = map.xy_idx(p.x, p.y);
                push_all_new(&mut targets, &map.tile_content[idx]);
            }
        },
    }
    targets
}

} // verus!
