//! The effect dispatcher: what using an item does to its targets, to the
//! equipment of its user and to the item itself.
use vstd::prelude::*;
use crate::components::{
    CombatStats, Confusion, Consumable, Entity, EquipmentSlot, Equipped, InBackpack, Point,
};
use crate::map::DungeonMap;
use crate::targeting::{resolve_targets, target_set};
use crate::text::{
    confuse_line, confuse_text, damage_line, damage_text, equip_line, equip_text, heal_line,
    heal_text, unequip_line, unequip_text,
};
use crate::world::{queued_damage, EntityView, World, WorldView};

verus! {

/// Entity `i`, if it holds `slot` for `owner`, goes back to `owner`'s backpack.
pub open spec fn unequip_at(w: WorldView, owner: Entity, slot: EquipmentSlot, i: nat) -> WorldView {
    let e = Entity { id: i as usize };
    if w.ent(e).equipped == Some(Equipped { owner, slot }) {
        let w2 = w.with(
            e,
            EntityView {
                equipped: None,
                in_backpack: Some(InBackpack { owner }),
                ..w.ent(e)
            },
        );
        if owner == w.player {
            w2.logged(unequip_line(w.ent(e).name))
        } else {
            w2
        }
    } else {
        w
    }
}

/// `unequip_at` over the first `n` entities, in order.
pub open spec fn unequip_upto(w: WorldView, owner: Entity, slot: EquipmentSlot, n: nat) -> WorldView
    decreases n,
{
    if n == 0 {
        w
    } else {
        unequip_at(unequip_upto(w, owner, slot, (n - 1) as nat), owner, slot, (n - 1) as nat)
    }
}

/// `item` leaves the backpack and takes `slot` for `owner`.
pub open spec fn equip_item(w: WorldView, item: Entity, owner: Entity, slot: EquipmentSlot) -> WorldView {
    let w2 = w.with(
        item,
        EntityView {
            equipped: Some(Equipped { owner, slot }),
            in_backpack: None,
            ..w.ent(item)
        },
    );
    if owner == w.player {
        w2.logged(equip_line(w.ent(item).name))
    } else {
        w2
    }
}

/// For an equippable item: the first target gives up whatever it holds in
/// the item's slot, then equips the item.
pub open spec fn equip_phase(w: WorldView, item: Entity, ts: Seq<Entity>) -> WorldView {
    match w.ent(item).equippable {
        Some(eq) => if ts.len() > 0 {
            equip_item(unequip_upto(w, ts[0], eq.slot, w.len()), item, ts[0], eq.slot)
        } else {
            w
        },
        None => w,
    }
}

/// Hit points after healing by `amount`, never above `max_hp`.
pub open spec fn healed_hp(hp: i32, max_hp: i32, amount: u32) -> i32 {
    if hp + amount > max_hp {
        max_hp
    } else {
        (hp + amount) as i32
    }
}

pub open spec fn heal_one(w: WorldView, actor: Entity, item: Entity, amount: u32, t: Entity) -> WorldView {
    if w.has(t) && w.ent(t).stats.is_some() {
        let s = w.ent(t).stats.unwrap();
        let w2 = w.with(
            t,
            EntityView {
                stats: Some(CombatStats { hp: healed_hp(s.hp, s.max_hp, amount), ..s }),
                ..w.ent(t)
            },
        );
        if actor == w.player {
            w2.logged(heal_line(w.ent(item).name, amount as int))
        } else {
            w2
        }
    } else {
        w
    }
}

pub open spec fn heal_all(w: WorldView, actor: Entity, item: Entity, amount: u32, ts: Seq<Entity>) -> WorldView
    decreases ts.len(),
{
    if ts.len() == 0 {
        w
    } else {
        heal_one(heal_all(w, actor, item, amount, ts.drop_last()), actor, item, amount, ts.last())
    }
}

pub open spec fn heal_phase(w: WorldView, actor: Entity, item: Entity, ts: Seq<Entity>) -> WorldView {
    match w.ent(item).healing {
        Some(h) => heal_all(w, actor, item, h.heal_amount, ts),
        None => w,
    }
}

pub open spec fn confuse_one(w: WorldView, actor: Entity, item: Entity, turns: i32, t: Entity) -> WorldView {
    if w.has(t) {
        let w2 = w.with(t, EntityView { confusion: Some(Confusion { turns }), ..w.ent(t) });
        if actor == w.player {
            w2.logged(confuse_line(w.ent(item).name, w.ent(t).name))
        } else {
            w2
        }
    } else {
        w
    }
}

pub open spec fn confuse_all(w: WorldView, actor: Entity, item: Entity, turns: i32, ts: Seq<Entity>) -> WorldView
    decreases ts.len(),
{
    if ts.len() == 0 {
        w
    } else {
        confuse_one(confuse_all(w, actor, item, turns, ts.drop_last()), actor, item, turns, ts.last())
    }
}

pub open spec fn confuse_phase(w: WorldView, actor: Entity, item: Entity, ts: Seq<Entity>) -> WorldView {
    match w.ent(item).confusion {
        Some(c) => confuse_all(w, actor, item, c.turns, ts),
        None => w,
    }
}

pub open spec fn damage_one(w: WorldView, actor: Entity, item: Entity, amount: i32, t: Entity) -> WorldView {
    if w.has(t) {
        let w2 = w.with(
            t,
            EntityView {
                suffer_damage: Some(queued_damage(w.ent(t).suffer_damage, amount)),
                ..w.ent(t)
            },
        );
        if actor == w.player {
            w2.logged(damage_line(w.ent(item).name, w.ent(t).name, amount as int))
        } else {
            w2
        }
    } else {
        w
    }
}

pub open spec fn damage_all(w: WorldView, actor: Entity, item: Entity, amount: i32, ts: Seq<Entity>) -> WorldView
    decreases ts.len(),
{
    if ts.len() == 0 {
        w
    } else {
        damage_one(damage_all(w, actor, item, amount, ts.drop_last()), actor, item, amount, ts.last())
    }
}

pub open spec fn damage_phase(w: WorldView, actor: Entity, item: Entity, ts: Seq<Entity>) -> WorldView {
    match w.ent(item).inflicts_damage {
        Some(d) => damage_all(w, actor, item, d.damage, ts),
        None => w,
    }
}

/// Some target is an entity of the world.
pub open spec fn any_present(w: WorldView, ts: Seq<Entity>) -> bool {
    exists|j: int| 0 <= j < ts.len() && w.has(#[trigger] ts[j])
}

/// Some target is an entity of the world with combat stats.
pub open spec fn any_with_stats(w: WorldView, ts: Seq<Entity>) -> bool {
    exists|j: int| 0 <= j < ts.len() && w.has(#[trigger] ts[j]) && w.ent(ts[j]).stats.is_some()
}

/// Whether the use counts: an item with no effect at all counts, equipping
/// always counts, and each other effect counts when it found a target
/// (for healing, one with combat stats). `w0` to `w3` are the world before
/// each of the four effects.
pub open spec fn use_counts(
    w0: WorldView,
    w1: WorldView,
    w2: WorldView,
    w3: WorldView,
    item: Entity,
    ts: Seq<Entity>,
) -> bool {
    let equips = w0.ent(item).equippable.is_some();
    let heals = w1.ent(item).healing.is_some();
    let confuses = w2.ent(item).confusion.is_some();
    let damages = w3.ent(item).inflicts_damage.is_some();
    ||| !(equips || heals || confuses || damages)
    ||| equips
    ||| heals && any_with_stats(w1, ts)
    ||| confuses && any_present(w2, ts)
    ||| damages && any_present(w3, ts)
}

/// A counted use of a consumable takes one use off it, or marks it for
/// deletion when it had one use or fewer left.
pub open spec fn consume(w: WorldView, item: Entity, counted: bool) -> WorldView {
    if counted {
        match w.ent(item).consumable {
            Some(c) => if c.uses <= 1 {
                w.with(item, EntityView { doomed: true, ..w.ent(item) })
            } else {
                w.with(
                    item,
                    EntityView { consumable: Some(Consumable { uses: (c.uses - 1) as i32 }), ..w.ent(item) },
                )
            },
            None => w,
        }
    } else {
        w
    }
}

/// Everything that `actor` using `item` on the targets `ts` does: equip,
/// heal, confuse and damage in that order, each when the item carries it,
/// then consumption.
pub open spec fn apply_use(w: WorldView, actor: Entity, item: Entity, ts: Seq<Entity>) -> WorldView {
    let w1 = equip_phase(w, item, ts);
    let w2 = heal_phase(w1, actor, item, ts);
    let w3 = confuse_phase(w2, actor, item, ts);
    let w4 = damage_phase(w3, actor, item, ts);
    consume(w4, item, use_counts(w, w1, w2, w3, item, ts))
}

/// What the use intent of entity `i` does, if it has one; `blast` is the
/// field-of-view footprint for that intent.
pub open spec fn use_at(w: WorldView, m: DungeonMap, blast: Seq<Point>, i: nat) -> WorldView {
    let e = Entity { id: i as usize };
    let v = w.ent(e);
    match v.wants_use {
        Some(u) => if v.alive && w.has(u.item) {
            apply_use(w, e, u.item, target_set(w, m, e, u.item, u.target, blast))
        } else {
            w
        },
        None => w,
    }
}

pub open spec fn uses_upto(w: WorldView, m: DungeonMap, blasts: Seq<Seq<Point>>, n: nat) -> WorldView
    decreases n,
{
    if n == 0 {
        w
    } else {
        let k = (n - 1) as nat;
        use_at(uses_upto(w, m, blasts, k), m, blasts[k as int], k)
    }
}

/// One turn of the item-use system.
pub open spec fn use_result(w: WorldView, m: DungeonMap, blasts: Seq<Seq<Point>>) -> WorldView {
    uses_upto(w, m, blasts, w.len()).without_use_intents()
}

/// `b` has the entities and the player of `a`, and each entity is as
/// marked for deletion and has the same uses left as in `a`.
pub open spec fn keeps_lifecycle(a: WorldView, b: WorldView) -> bool {
    &&& b.len() == a.len()
    &&& b.player == a.player
    &&& forall|e: Entity|
        a.has(e) ==> (#[trigger] b.ent(e)).doomed == a.ent(e).doomed && b.ent(e).consumable
            == a.ent(e).consumable
}

proof fn lemma_unequip_upto_keeps(w: WorldView, owner: Entity, slot: EquipmentSlot, n: nat)
    requires
        n <= w.len() <= usize::MAX,
    ensures
        keeps_lifecycle(w, unequip_upto(w, owner, slot, n)),
    decreases n,
{
    if n > 0 {
        lemma_unequip_upto_keeps(w, owner, slot, (n - 1) as nat);
        let prev = unequip_upto(w, owner, slot, (n - 1) as nat);
        let next = unequip_at(prev, owner, slot, (n - 1) as nat);
        assert forall|e: Entity| w.has(e) implies (#[trigger] next.ent(e)).doomed == w.ent(e).doomed
            && next.ent(e).consumable == w.ent(e).consumable by {
            assert(prev.ent(e).doomed == w.ent(e).doomed);
            assert(prev.ent(e).consumable == w.ent(e).consumable);
        }
    }
}

proof fn lemma_heal_all_keeps(w: WorldView, actor: Entity, item: Entity, amount: u32, ts: Seq<Entity>)
    ensures
        keeps_lifecycle(w, heal_all(w, actor, item, amount, ts)),
    decreases ts.len(),
{
    if ts.len() > 0 {
        lemma_heal_all_keeps(w, actor, item, amount, ts.drop_last());
        let prev = heal_all(w, actor, item, amount, ts.drop_last());
        let next = heal_one(prev, actor, item, amount, ts.last());
        assert forall|e: Entity| w.has(e) implies (#[trigger] next.ent(e)).doomed == w.ent(e).doomed
            && next.ent(e).consumable == w.ent(e).consumable by {
            assert(prev.ent(e).doomed == w.ent(e).doomed);
            assert(prev.ent(e).consumable == w.ent(e).consumable);
        }
    }
}

proof fn lemma_confuse_all_keeps(w: WorldView, actor: Entity, item: Entity, turns: i32, ts: Seq<Entity>)
    ensures
        keeps_lifecycle(w, confuse_all(w, actor, item, turns, ts)),
    decreases ts.len(),
{
    if ts.len() > 0 {
        lemma_confuse_all_keeps(w, actor, item, turns, ts.drop_last());
        let prev = confuse_all(w, actor, item, turns, ts.drop_last());
        let next = confuse_one(prev, actor, item, turns, ts.last());
        assert forall|e: Entity| w.has(e) implies (#[trigger] next.ent(e)).doomed == w.ent(e).doomed
            && next.ent(e).consumable == w.ent(e).consumable by {
            assert(prev.ent(e).doomed == w.ent(e).doomed);
            assert(prev.ent(e).consumable == w.ent(e).consumable);
        }
    }
}

proof fn lemma_damage_all_keeps(w: WorldView, actor: Entity, item: Entity, amount: i32, ts: Seq<Entity>)
    ensures
        keeps_lifecycle(w, damage_all(w, actor, item, amount, ts)),
    decreases ts.len(),
{
    if ts.len() > 0 {
        lemma_damage_all_keeps(w, actor, item, amount, ts.drop_last());
        let prev = damage_all(w, actor, item, amount, ts.drop_last());
        let next = damage_one(prev, actor, item, amount, ts.last());
        assert forall|e: Entity| w.has(e) implies (#[trigger] next.ent(e)).doomed == w.ent(e).doomed
            && next.ent(e).consumable == w.ent(e).consumable by {
            assert(prev.ent(e).doomed == w.ent(e).doomed);
            assert(prev.ent(e).consumable == w.ent(e).consumable);
        }
    }
}

/// The four effects keep every entity's deletion mark and uses left.
proof fn lemma_phases_keep(w: WorldView, actor: Entity, item: Entity, ts: Seq<Entity>)
    requires
        w.has(item),
        w.len() <= usize::MAX,
    ensures
        keeps_lifecycle(w, equip_phase(w, item, ts)),
        keeps_lifecycle(w, heal_phase(equip_phase(w, item, ts), actor, item, ts)),
        keeps_lifecycle(
            w,
            confuse_phase(heal_phase(equip_phase(w, item, ts), actor, item, ts), actor, item, ts),
        ),
        keeps_lifecycle(
            w,
            damage_phase(
                confuse_phase(heal_phase(equip_phase(w, item, ts), actor, item, ts), actor, item, ts),
                actor,
                item,
                ts,
            ),
        ),
{
    let w1 = equip_phase(w, item, ts);
    if let Some(eq) = w.ent(item).equippable {
        if ts.len() > 0 {
            let u = unequip_upto(w, ts[0], eq.slot, w.len());
            lemma_unequip_upto_keeps(w, ts[0], eq.slot, w.len());
            assert forall|e: Entity| w.has(e) implies (#[trigger] w1.ent(e)).doomed == w.ent(
                e,
            ).doomed && w1.ent(e).consumable == w.ent(e).consumable by {
                assert(u.ent(e).doomed == w.ent(e).doomed);
                assert(u.ent(e).consumable == w.ent(e).consumable);
            }
        }
    }
    let w2 = heal_phase(w1, actor, item, ts);
    if let Some(h) = w1.ent(item).healing {
        lemma_heal_all_keeps(w1, actor, item, h.heal_amount, ts);
    }
    lemma_keeps_trans(w, w1, w2);
    let w3 = confuse_phase(w2, actor, item, ts);
    if let Some(c) = w2.ent(item).confusion {
        lemma_confuse_all_keeps(w2, actor, item, c.turns, ts);
    }
    lemma_keeps_trans(w, w2, w3);
    let w4 = damage_phase(w3, actor, item, ts);
    if let Some(d) = w3.ent(item).inflicts_damage {
        lemma_damage_all_keeps(w3, actor, item, d.damage, ts);
    }
    lemma_keeps_trans(w, w3, w4);
}

proof fn lemma_keeps_trans(a: WorldView, b: WorldView, c: WorldView)
    requires
        keeps_lifecycle(a, b),
        keeps_lifecycle(b, c),
    ensures
        keeps_lifecycle(a, c),
{
    assert forall|e: Entity| a.has(e) implies (#[trigger] c.ent(e)).doomed == a.ent(e).doomed
        && c.ent(e).consumable == a.ent(e).consumable by {
        assert(b.ent(e).doomed == a.ent(e).doomed);
    }
}

/// Equipping, healing, confusing or damaging never destroys an item: using
/// one that is not consumable leaves it as marked for deletion as before.
pub proof fn lemma_non_consumable_survives_use(
    w: WorldView,
    actor: Entity,
    item: Entity,
    ts: Seq<Entity>,
)
    requires
        w.has(item),
        w.len() <= usize::MAX,
        w.ent(item).consumable.is_none(),
    ensures
        apply_use(w, actor, item, ts).ent(item).doomed == w.ent(item).doomed,
        apply_use(w, actor, item, ts).len() == w.len(),
{
    lemma_phases_keep(w, actor, item, ts);
}

/// A counted use of an item with one use left marks it for deletion, so
/// the end of the turn removes it.
pub proof fn lemma_single_use_consumed(w: WorldView, actor: Entity, item: Entity, ts: Seq<Entity>)
    requires
        w.has(item),
        w.len() <= usize::MAX,
        w.ent(item).consumable == Some(Consumable { uses: 1 }),
        ({
            let w1 = equip_phase(w, item, ts);
            let w2 = heal_phase(w1, actor, item, ts);
            let w3 = confuse_phase(w2, actor, item, ts);
            use_counts(w, w1, w2, w3, item, ts)
        }),
    ensures
        apply_use(w, actor, item, ts).ent(item).doomed,
        !apply_use(w, actor, item, ts).maintained().ent(item).alive,
{
    lemma_phases_keep(w, actor, item, ts);
}

/// Healing never raises hit points above the maximum: a target with combat
/// stats healed by `amount` ends with the smaller of its maximum and its hit
/// points plus `amount`, and nothing else in its stats changes.
pub proof fn lemma_heal_clamped(w: WorldView, actor: Entity, item: Entity, amount: u32, t: Entity)
    requires
        w.has(t),
        w.ent(t).stats.is_some(),
    ensures
        ({
            let before = w.ent(t).stats.unwrap();
            let after = heal_one(w, actor, item, amount, t).ent(t).stats.unwrap();
            &&& after.hp == (if before.hp + amount < before.max_hp {
                before.hp + amount
            } else {
                before.max_hp as int
            })
            &&& after.hp <= after.max_hp
            &&& after == CombatStats { hp: after.hp, ..before }
        }),
{
}

proof fn lemma_unequip_upto_clears(w: WorldView, owner: Entity, slot: EquipmentSlot, n: nat)
    requires
        n <= w.len() <= usize::MAX,
    ensures
        unequip_upto(w, owner, slot, n).len() == w.len(),
        forall|j: int|
            0 <= j < n ==> (#[trigger] unequip_upto(w, owner, slot, n).entities[j]).equipped
                != Some(Equipped { owner, slot }),
    decreases n,
{
    if n > 0 {
        let k = (n - 1) as nat;
        lemma_unequip_upto_clears(w, owner, slot, k);
        let prev = unequip_upto(w, owner, slot, k);
        let next = unequip_at(prev, owner, slot, k);
        assert forall|j: int| 0 <= j < n implies (#[trigger] next.entities[j]).equipped != Some(
            Equipped { owner, slot },
        ) by {
            if j < k {
                assert(prev.entities[j].equipped != Some(Equipped { owner, slot }));
            }
        }
    }
}

/// Equipping is atomic: once `item` is equipped in `slot` for `owner`, it
/// is the one entity that holds that slot for that owner.
pub proof fn lemma_equip_single_occupant(
    w: WorldView,
    item: Entity,
    owner: Entity,
    slot: EquipmentSlot,
)
    requires
        w.has(item),
        w.len() <= usize::MAX,
    ensures
        ({
            let after = equip_item(unequip_upto(w, owner, slot, w.len()), item, owner, slot);
            &&& after.len() == w.len()
            &&& forall|e: Entity|
                after.has(e) ==> ((#[trigger] after.ent(e)).equipped == Some(
                    Equipped { owner, slot },
                ) <==> e == item)
        }),
{
    lemma_unequip_upto_clears(w, owner, slot, w.len());
    let u = unequip_upto(w, owner, slot, w.len());
    let after = equip_item(u, item, owner, slot);
    assert forall|e: Entity| after.has(e) implies ((#[trigger] after.ent(e)).equipped == Some(
        Equipped { owner, slot },
    ) <==> e == item) by {
        if e.id != item.id {
            assert(u.entities[e.id as int].equipped != Some(Equipped { owner, slot }));
        }
    }
}

pub proof fn lemma_uses_upto_len(w: WorldView, m: DungeonMap, blasts: Seq<Seq<Point>>, n: nat)
    requires
        w.len() <= usize::MAX,
    ensures
        uses_upto(w, m, blasts, n).len() == w.len(),
    decreases n,
{
    if n > 0 {
        let k = (n - 1) as nat;
        lemma_uses_upto_len(w, m, blasts, k);
        let prev = uses_upto(w, m, blasts, k);
        let e = Entity { id: k as usize };
        if let Some(u) = prev.ent(e).wants_use {
            if prev.ent(e).alive && prev.has(u.item) {
                lemma_phases_keep(prev, e, u.item, target_set(prev, m, e, u.item, u.target, blasts[k as int]));
            }
        }
    }
}

/// A whole turn of the item-use system destroys no item without uses left
/// to count: every entity that has no `Consumable` ends the turn as marked
/// for deletion as it began it, whatever the intents did.
pub proof fn lemma_use_system_spares_non_consumables(
    w: WorldView,
    m: DungeonMap,
    blasts: Seq<Seq<Point>>,
)
    requires
        w.len() <= usize::MAX,
    ensures
        use_result(w, m, blasts).len() == w.len(),
        forall|e: Entity|
            w.has(e) && w.ent(e).consumable.is_none() ==> (#[trigger] use_result(w, m, blasts).ent(
                e,
            )).doomed == w.ent(e).doomed,
{
    lemma_uses_upto_len(w, m, blasts, w.len());
    lemma_uses_upto_spares(w, m, blasts, w.len());
    let u = uses_upto(w, m, blasts, w.len());
    assert forall|e: Entity| w.has(e) && w.ent(e).consumable.is_none() implies (#[trigger] use_result(
        w,
        m,
        blasts,
    ).ent(e)).doomed == w.ent(e).doomed by {
        assert(u.ent(e).doomed == w.ent(e).doomed);
    }
}

proof fn lemma_uses_upto_spares(w: WorldView, m: DungeonMap, blasts: Seq<Seq<Point>>, n: nat)
    requires
        w.len() <= usize::MAX,
    ensures
        forall|e: Entity|
            w.has(e) && w.ent(e).consumable.is_none() ==> (#[trigger] uses_upto(w, m, blasts, n).ent(
                e,
            )).doomed == w.ent(e).doomed && uses_upto(w, m, blasts, n).ent(e).consumable.is_none(),
    decreases n,
{
    if n > 0 {
        let k = (n - 1) as nat;
        lemma_uses_upto_spares(w, m, blasts, k);
        lemma_uses_upto_len(w, m, blasts, k);
        let prev = uses_upto(w, m, blasts, k);
        let next = uses_upto(w, m, blasts, n);
        let a = Entity { id: k as usize };
        if let Some(u) = prev.ent(a).wants_use {
            if prev.ent(a).alive && prev.has(u.item) {
                let ts = target_set(prev, m, a, u.item, u.target, blasts[k as int]);
                lemma_phases_keep(prev, a, u.item, ts);
                let w1 = equip_phase(prev, u.item, ts);
                let w2 = heal_phase(w1, a, u.item, ts);
                let w3 = confuse_phase(w2, a, u.item, ts);
                let w4 = damage_phase(w3, a, u.item, ts);
                assert(next == consume(w4, u.item, use_counts(prev, w1, w2, w3, u.item, ts)));
                assert forall|e: Entity| w.has(e) && w.ent(e).consumable.is_none() implies (
                #[trigger] next.ent(e)).doomed == w.ent(e).doomed && next.ent(e).consumable.is_none() by {
                    assert(prev.ent(e).doomed == w.ent(e).doomed);
                    assert(w4.ent(e).doomed == prev.ent(e).doomed);
                    assert(w4.ent(e).consumable == prev.ent(e).consumable);
                }
            }
        }
    }
}

/// Moves whatever `owner` holds in `slot` to `owner`'s backpack, then
/// equips `item` there in its place.
pub fn equip(world: &mut World, item: Entity, owner: Entity, slot: EquipmentSlot)
    requires
        old(world)@.has(item),
    ensures
        final(world)@ == equip_item(
            unequip_upto(old(world)@, owner, slot, old(world)@.len()),
            item,
            owner,
            slot,
        ),
{
    let n = world.entities.len();
    let mut i: usize = 0;
    while i < n
        invariant
            n == old(world)@.len(),
            n == world@.len(),
            0 <= i <= n,
            world.player == old(world).player,
            world@ == unequip_upto(old(world)@, owner, slot, i as nat),
        decreases n - i,
    {
        let ghost before = world@;
        let e = Entity { id: i };
        if world.entities[i].equipped == Some(Equipped { owner, slot }) {
            let line = unequip_text(&world.entities[i].name);
            let position = world.entities[i].position;
            world.relocate(e, position, Some(InBackpack { owner }), None);
            if owner == world.player {
                world.push_log(line);
            }
        }
        proof {
            assert(world@ == unequip_at(before, owner, slot, i as nat));
        }
        i += 1;
    }
    let line = equip_text(&world.entities[item.id].name);
    let position = world.entities[item.id].position;
    world.relocate(item, position, None, Some(Equipped { owner, slot }));
    if owner == world.player {
        world.push_log(line);
    }
}

/// Some of `ts` is an entity of the world.
fn has_present(world: &World, ts: &Vec<Entity>) -> (r: bool)
    ensures
        r == any_present(world@, ts@),
{
    let mut i: usize = 0;
    while i < ts.len()
        invariant
            0 <= i <= ts@.len(),
            forall|j: int| 0 <= j < i ==> !world@.has(#[trigger] ts@[j]),
        decreases ts@.len() - i,
    {
        if ts[i].id < world.entities.len() {
            return true;
        }
        i += 1;
    }
    false
}

/// Some of `ts` is an entity of the world with combat stats.
fn has_stats(world: &World, ts: &Vec<Entity>) -> (r: bool)
    ensures
        r == any_with_stats(world@, ts@),
{
    let mut i: usize = 0;
    while i < ts.len()
        invariant
            0 <= i <= ts@.len(),
            forall|j: int|
                0 <= j < i ==> !(world@.has(#[trigger] ts@[j]) && world@.ent(ts@[j]).stats.is_some()),
        decreases ts@.len() - i,
    {
        let t = ts[i];
        if t.id < world.entities.len() && world.entities[t.id].stats.is_some() {
            return true;
        }
        i += 1;
    }
    false
}

/// Heals each target that has combat stats by `amount`, up to its maximum.
pub fn heal_targets(world: &mut World, actor: Entity, item: Entity, amount: u32, ts: &Vec<Entity>)
    requires
        old(world)@.has(item),
    ensures
        final(world)@ == heal_all(old(world)@, actor, item, amount, ts@),
{
    let n = world.entities.len();
    let mut i: usize = 0;
    while i < ts.len()
        invariant
            n == world@.len(),
            item.id < n,
            0 <= i <= ts@.len(),
            world@ == heal_all(old(world)@, actor, item, amount, ts@.subrange(0, i as int)),
        decreases ts@.len() - i,
    {
        proof {
            assert(ts@.subrange(0, i + 1).drop_last() =~= ts@.subrange(0, i as int));
        }
        let t = ts[i];
        if t.id < n && world.entities[t.id].stats.is_some() {
            let s = world.entities[t.id].stats.unwrap();
            let sum: i64 = s.hp as i64 + amount as i64;
            let hp: i32 = if sum > s.max_hp as i64 {
                s.max_hp
            } else {
                sum as i32
            };
            let line = heal_text(&world.entities[item.id].name, amount);
            world.set_stats(t, Some(CombatStats { hp, ..s }));
            if actor == world.player {
                world.push_log(line);
            }
        }
        i += 1;
    }
    assert(ts@.subrange(0, ts@.len() as int) =~= ts@);
}

/// Gives each target a confusion of `turns`, replacing any it had.
pub fn confuse_targets(world: &mut World, actor: Entity, item: Entity, turns: i32, ts: &Vec<Entity>)
    requires
        old(world)@.has(item),
    ensures
        final(world)@ == confuse_all(old(world)@, actor, item, turns, ts@),
{
    let n = world.entities.len();
    let mut i: usize = 0;
    while i < ts.len()
        invariant
            n == world@.len(),
            item.id < n,
            0 <= i <= ts@.len(),
            world@ == confuse_all(old(world)@, actor, item, turns, ts@.subrange(0, i as int)),
        decreases ts@.len() - i,
    {
        proof {
            assert(ts@.subrange(0, i + 1).drop_last() =~= ts@.subrange(0, i as int));
        }
        let t = ts[i];
        if t.id < n {
            let line = confuse_text(&world.entities[item.id].name, &world.entities[t.id].name);
            world.set_confusion(t, Some(Confusion { turns }));
            if actor == world.player {
                world.push_log(line);
            }
        }
        i += 1;
    }
    assert(ts@.subrange(0, ts@.len() as int) =~= ts@);
}

/// Queues `amount` of damage against each target.
pub fn damage_targets(world: &mut World, actor: Entity, item: Entity, amount: i32, ts: &Vec<Entity>)
    requires
        old(world)@.has(item),
    ensures
        final(world)@ == damage_all(old(world)@, actor, item, amount, ts@),
{
    let n = world.entities.len();
    let mut i: usize = 0;
    while i < ts.len()
        invariant
            n == world@.len(),
            item.id < n,
            0 <= i <= ts@.len(),
            world@ == damage_all(old(world)@, actor, item, amount, ts@.subrange(0, i as int)),
        decreases ts@.len() - i,
    {
        proof {
            assert(ts@.subrange(0, i + 1).drop_last() =~= ts@.subrange(0, i as int));
        }
        let t = ts[i];
        if t.id < n {
            let line = damage_text(&world.entities[item.id].name, &world.entities[t.id].name, amount);
            world.push_damage(t, amount);
            if actor == world.player {
                world.push_log(line);
            }
        }
        i += 1;
    }
    assert(ts@.subrange(0, ts@.len() as int) =~= ts@);
}

/// Applies every effect that `item` carries to the targets `ts`, on behalf
/// of `actor`, then uses up one use of the item if the use counted.
pub fn use_item(world: &mut World, actor: Entity, item: Entity, ts: &Vec<Entity>)
    requires
        old(world)@.has(item),
    ensures
        final(world)@ == apply_use(old(world)@, actor, item, ts@),
        final(world)@.len() == old(world)@.len(),
{
    let ghost w0 = world@;
    let n = world.entities.len();
    proof {
        lemma_phases_keep(w0, actor, item, ts@);
    }
    let equips = world.entities[item.id].equippable.is_some();
    if equips && ts.len() > 0 {
        let slot = world.entities[item.id].equippable.unwrap().slot;
        equip(world, item, ts[0], slot);
    }
    let ghost w1 = world@;
    let heals = world.entities[item.id].healing.is_some();
    let mut counted = equips;
    if heals {
        let amount = world.entities[item.id].healing.unwrap().heal_amount;
        if has_stats(world, ts) {
            counted = true;
        }
        heal_targets(world, actor, item, amount, ts);
    }
    let ghost w2 = world@;
    let confuses = world.entities[item.id].confusion.is_some();
    if confuses {
        let turns = world.entities[item.id].confusion.unwrap().turns;
        if has_present(world, ts) {
            counted = true;
        }
        confuse_targets(world, actor, item, turns, ts);
    }
    let ghost w3 = world@;
    let damages = world.entities[item.id].inflicts_damage.is_some();
    if damages {
        let amount = world.entities[item.id].inflicts_damage.unwrap().damage;
        if has_present(world, ts) {
            counted = true;
        }
        damage_targets(world, actor, item, amount, ts);
    }
    if !(equips || heals || confuses || damages) {
        counted = true;
    }
    assert(counted == use_counts(w0, w1, w2, w3, item, ts@));
    if counted && world.entities[item.id].consumable.is_some() {
        let c = world.entities[item.id].consumable.unwrap();
        if c.uses <= 1 {
            world.delete(item);
        } else {
            world.set_consumable(item, Some(Consumable { uses: c.uses - 1 }));
        }
    }
}

pub struct ItemUseSystem {}

impl ItemUseSystem {
    /// Carries out every use intent: resolves its targets, `blasts[i]` being
    /// the field-of-view footprint for entity `i`'s intent, and applies the
    /// item's effects. Then clears all use intents.
    pub fn run(&mut self, world: &mut World, map: &DungeonMap, blasts: &Vec<Vec<Point>>)
        requires
            map.wf(),
            blasts@.len() == old(world)@.len(),
        ensures
            final(world)@ == use_result(old(world)@, *map, blasts@.map_values(|b: Vec<Point>| b@)),
            final(world)@.len() == old(world)@.len(),
    {
        let ghost bs = blasts@.map_values(|b: Vec<Point>| b@);
        let n = world.entities.len();
        let mut i: usize = 0;
        while i < n
            invariant
                map.wf(),
                n == old(world)@.len(),
                n == world@.len(),
                blasts@.len() == n,
                bs == blasts@.map_values(|b: Vec<Point>| b@),
                0 <= i <= n,
                world@ == uses_upto(old(world)@, *map, bs, i as nat),
            decreases n - i,
        {
            let ghost before = world@;
            let e = Entity { id: i };
            if world.entities[i].alive && world.entities[i].wants_use.is_some() {
                let u = world.entities[i].wants_use.unwrap();
                if u.item.id < n {
                    let ts = resolve_targets(world, map, e, u.item, u.target, &blasts[i]);
                    use_item(world, e, u.item, &ts);
                }
            }
            proof {
                assert(world@ == use_at(before, *map, bs[i as int], i as nat));
            }
            i += 1;
        }
        world.clear_use_intents();
    }
}

} // verus!
