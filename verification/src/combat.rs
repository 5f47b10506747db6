//! Turn-based combat: the roster of enemies, the attack of the player, and
//! the resolution of damage.
use crate::random::draw_between;
use crate::timer::Countdown;
use vstd::prelude::*;

verus! {

/// Number of archetypes in the roster.
pub const CHOICES: u64 = 3;

/// Identity under which the player fights.
pub const PLAYER: u64 = 0;

/// What a fighter can take and deal.
#[derive(Clone, Copy, Debug, PartialEq, Eq, Structural)]
pub struct CombatStats {
    pub health: isize,
    pub max_health: isize,
    pub attack: isize,
    pub defense: isize,
}

/// An attack on its way to its target.
#[derive(Clone, Copy, Debug, PartialEq, Eq, Structural)]
pub struct FightEvent {
    pub target: u64,
    pub damage_amount: isize,
}

/// The pause that the player has to keep between two attacks.
#[derive(Clone, Copy, Debug, PartialEq, Eq, Structural)]
pub struct CombatCooldown(pub Countdown);

/// The enemies that can appear.
#[derive(Clone, Copy, Debug, PartialEq, Eq, Structural)]
pub enum Archetype {
    Rehu,
    Imi,
    Mibi,
}

/// Someone who takes part in combat: an identity, the archetype if it is an
/// enemy, and the stats.
#[derive(Clone, Copy, Debug, PartialEq, Eq, Structural)]
pub struct Fighter {
    pub id: u64,
    pub enemy: Option<Archetype>,
    pub stats: CombatStats,
}

impl CombatStats {
    /// Health lies between nothing and its maximum.
    pub open spec fn well_formed(self) -> bool {
        0 <= self.health <= self.max_health
    }

    /// The stats after a hit of `damage`.
    pub open spec fn hit(self, damage: isize) -> CombatStats {
        CombatStats {
            health: health_after_hit(self.health as int, damage as int, self.defense as int) as isize,
            ..self
        }
    }
}

/// What is left of `damage` behind `defense`: never less than nothing.
pub open spec fn mitigated(damage: int, defense: int) -> int {
    if damage - defense > 0 {
        damage - defense
    } else {
        0
    }
}

/// Health that remains after a hit of `damage` on a target with `defense`:
/// never less than nothing.
pub open spec fn health_after_hit(health: int, damage: int, defense: int) -> int {
    if health - mitigated(damage, defense) > 0 {
        health - mitigated(damage, defense)
    } else {
        0
    }
}

/// A hit never heals and never leaves less than no health; a hit that the
/// defense covers leaves the health as it was.
pub proof fn lemma_damage_floor(health: int, damage: int, defense: int)
    requires
        0 <= health,
    ensures
        0 <= health_after_hit(health, damage, defense) <= health,
        defense >= damage ==> health_after_hit(health, damage, defense) == health,
{
}

/// The stats with which each archetype appears.
pub open spec fn stats_of(archetype: Archetype) -> CombatStats {
    match archetype {
        Archetype::Rehu => CombatStats { health: 5, max_health: 5, attack: 2, defense: 1 },
        Archetype::Imi => CombatStats { health: 3, max_health: 3, attack: 2, defense: 1 },
        Archetype::Mibi => CombatStats { health: 1, max_health: 3, attack: 2, defense: 1 },
    }
}

/// The archetype that a draw selects: the first two draws have their own,
/// every other draw the last.
pub open spec fn archetype_for(choice: u64) -> Archetype {
    if choice == 0 {
        Archetype::Rehu
    } else if choice == 1 {
        Archetype::Imi
    } else {
        Archetype::Mibi
    }
}

/// The enemy of `archetype` under identity `id`, as it enters combat.
pub open spec fn enemy_of(id: u64, archetype: Archetype) -> Fighter {
    Fighter { id, enemy: Some(archetype), stats: stats_of(archetype) }
}

/// The display name of an archetype.
pub open spec fn name_of(archetype: Archetype) -> Seq<char> {
    match archetype {
        Archetype::Rehu => "Rehu"@,
        Archetype::Imi => "Imi"@,
        Archetype::Mibi => "Mibi"@,
    }
}

/// Whether no two fighters share an identity.
pub open spec fn distinct(fighters: Seq<Fighter>) -> bool {
    forall|i: int, j: int|
        0 <= i < j < fighters.len() ==> (#[trigger] fighters[i]).id != (#[trigger] fighters[j]).id
}

/// Whether some fighter has identity `id`.
pub open spec fn present(fighters: Seq<Fighter>, id: u64) -> bool {
    exists|i: int| 0 <= i < fighters.len() && (#[trigger] fighters[i]).id == id
}

/// The place of the fighter with identity `id`.
pub open spec fn place_of(fighters: Seq<Fighter>, id: u64) -> int {
    choose|i: int| 0 <= i < fighters.len() && (#[trigger] fighters[i]).id == id
}

/// The fighters after `event` has hit its target.
pub open spec fn struck(fighters: Seq<Fighter>, event: FightEvent) -> Seq<Fighter> {
    let at = place_of(fighters, event.target);
    fighters.update(at, Fighter { stats: fighters[at].stats.hit(event.damage_amount), ..fighters[at] })
}

/// Whether `event` leaves its target without health.
pub open spec fn fells(fighters: Seq<Fighter>, event: FightEvent) -> bool {
    struck(fighters, event)[place_of(fighters, event.target)].stats.health == 0
}

/// The fighters after the events of `events` have hit, in their order.
pub open spec fn resolved(fighters: Seq<Fighter>, events: Seq<FightEvent>) -> Seq<Fighter>
    decreases events.len(),
{
    if events.len() == 0 {
        fighters
    } else {
        struck(resolved(fighters, events.drop_last()), events.last())
    }
}

/// Whether one of the events of `events`, hitting in their order, leaves its
/// target without health.
pub open spec fn any_felled(fighters: Seq<Fighter>, events: Seq<FightEvent>) -> bool
    decreases events.len(),
{
    if events.len() == 0 {
        false
    } else {
        any_felled(fighters, events.drop_last()) || fells(
            resolved(fighters, events.drop_last()),
            events.last(),
        )
    }
}

/// Whether every event of `events` has its target among `fighters`.
pub open spec fn all_present(fighters: Seq<Fighter>, events: Seq<FightEvent>) -> bool {
    forall|k: int| 0 <= k < events.len() ==> present(fighters, (#[trigger] events[k]).target)
}

/// The fighters that are no enemies, in their order.
pub open spec fn without_enemies(fighters: Seq<Fighter>) -> Seq<Fighter> {
    fighters.filter(|fighter: Fighter| fighter.enemy is None)
}

/// Hitting a target changes nobody's identity.
pub proof fn lemma_struck_keeps_identities(fighters: Seq<Fighter>, event: FightEvent)
    requires
        present(fighters, event.target),
    ensures
        struck(fighters, event).len() == fighters.len(),
        forall|i: int|
            0 <= i < fighters.len() ==> (#[trigger] struck(fighters, event)[i]).id
                == fighters[i].id,
        forall|i: int|
            0 <= i < fighters.len() ==> (#[trigger] struck(fighters, event)[i]).enemy
                == fighters[i].enemy,
        forall|id: u64| present(fighters, id) == present(struck(fighters, event), id),
        distinct(fighters) ==> distinct(struck(fighters, event)),
{
    let after = struck(fighters, event);
    assert forall|id: u64| present(fighters, id) implies present(after, id) by {
        let i = choose|i: int| 0 <= i < fighters.len() && (#[trigger] fighters[i]).id == id;
        assert(after[i].id == id);
    }
}

/// Resolving attacks changes nobody's identity.
pub proof fn lemma_resolved_keeps_identities(fighters: Seq<Fighter>, events: Seq<FightEvent>)
    requires
        distinct(fighters),
        all_present(fighters, events),
    ensures
        resolved(fighters, events).len() == fighters.len(),
        forall|i: int|
            0 <= i < fighters.len() ==> (#[trigger] resolved(fighters, events)[i]).id
                == fighters[i].id,
        forall|i: int|
            0 <= i < fighters.len() ==> (#[trigger] resolved(fighters, events)[i]).enemy
                == fighters[i].enemy,
        distinct(resolved(fighters, events)),
    decreases events.len(),
{
    if events.len() > 0 {
        let earlier = events.drop_last();
        let before = resolved(fighters, earlier);
        assert(all_present(fighters, earlier));
        lemma_resolved_keeps_identities(fighters, earlier);
        let target = events.last().target;
        let i = choose|i: int| 0 <= i < fighters.len() && (#[trigger] fighters[i]).id == target;
        assert(before[i].id == target);
        lemma_struck_keeps_identities(before, events.last());
    }
}

impl Archetype {
    /// The display name.
    pub fn name(&self) -> (name: &'static str)
        ensures
            name@ == name_of(*self),
    {
        match self {
            Archetype::Rehu => "Rehu",
            Archetype::Imi => "Imi",
            Archetype::Mibi => "Mibi",
        }
    }
}

/// The stats with which the player enters the game.
pub fn player_stats() -> (stats: CombatStats)
    ensures
        stats == (CombatStats { health: 10, max_health: 10, attack: 2, defense: 1 }),
{
    CombatStats { health: 10, max_health: 10, attack: 2, defense: 1 }
}

/// A Rehu under identity `id`.
pub fn spawn_rehu(id: u64) -> (enemy: Fighter)
    ensures
        enemy == enemy_of(id, Archetype::Rehu),
{
    Fighter {
        id,
        enemy: Some(Archetype::Rehu),
        stats: CombatStats { health: 5, max_health: 5, attack: 2, defense: 1 },
    }
}

/// An Imi under identity `id`.
pub fn spawn_imi(id: u64) -> (enemy: Fighter)
    ensures
        enemy == enemy_of(id, Archetype::Imi),
{
    Fighter {
        id,
        enemy: Some(Archetype::Imi),
        stats: CombatStats { health: 3, max_health: 3, attack: 2, defense: 1 },
    }
}

/// A Mibi under identity `id`.
pub fn spawn_mibi(id: u64) -> (enemy: Fighter)
    ensures
        enemy == enemy_of(id, Archetype::Mibi),
{
    Fighter {
        id,
        enemy: Some(Archetype::Mibi),
        stats: CombatStats { health: 1, max_health: 3, attack: 2, defense: 1 },
    }
}

/// The enemy that the draw `choice` selects from the roster.
pub fn spawn_choice(id: u64, choice: u64) -> (enemy: Fighter)
    ensures
        enemy == enemy_of(id, archetype_for(choice)),
{
    if choice == 0 {
        spawn_rehu(id)
    } else if choice == 1 {
        spawn_imi(id)
    } else {
        spawn_mibi(id)
    }
}

/// An enemy drawn at random from the roster.
pub fn spawn_enemy(id: u64) -> (enemy: Fighter)
    ensures
        exists|choice: u64| choice < CHOICES && enemy == enemy_of(id, archetype_for(choice)),
{
    let choice: u64 = draw_between(0, CHOICES - 1);
    spawn_choice(id, choice)
}

/// Hits `stats` with `damage`.
pub fn strike(stats: &mut CombatStats, damage: isize)
    ensures
        *final(stats) == old(stats).hit(damage),
        old(stats).well_formed() ==> final(stats).well_formed(),
        old(stats).health >= 0 ==> 0 <= final(stats).health <= old(stats).health,
{
    let raw: i128 = damage as i128 - stats.defense as i128;
    let taken: i128 = if raw > 0 { raw } else { 0 };
    let left: i128 = stats.health as i128 - taken;
    stats.health = if left > 0 { left as isize } else { 0 };
}

/// Finds the fighter with identity `id`.
pub fn find_fighter(fighters: &Vec<Fighter>, id: u64) -> (at: Option<usize>)
    ensures
        at is Some <==> present(fighters@, id),
        at matches Some(i) ==> i < fighters.len() && fighters@[i as int].id == id,
        at matches Some(i) ==> forall|j: int| 0 <= j < i ==> fighters@[j].id != id,
{
    let mut i: usize = 0;
    while i < fighters.len()
        invariant
            i <= fighters.len(),
            forall|j: int| 0 <= j < i ==> fighters@[j].id != id,
        decreases fighters.len() - i,
    {
        if fighters[i].id == id {
            return Some(i);
        }
        i += 1;
    }
    None
}

/// Whether no two fighters share an identity and every pending attack has
/// its target among them: what [`damage_calculation`] asks for.
pub fn can_resolve(events: &Vec<FightEvent>, fighters: &Vec<Fighter>) -> (ok: bool)
    ensures
        ok == (distinct(fighters@) && all_present(fighters@, events@)),
{
    let mut j: usize = 0;
    while j < fighters.len()
        invariant
            j <= fighters.len(),
            forall|a: int, b: int|
                0 <= a < b < j ==> (#[trigger] fighters@[a]).id != (#[trigger] fighters@[b]).id,
        decreases fighters.len() - j,
    {
        let mut i: usize = 0;
        while i < j
            invariant
                i <= j < fighters.len(),
                forall|a: int| 0 <= a < i ==> (#[trigger] fighters@[a]).id != fighters@[j as int].id,
            decreases j - i,
        {
            if fighters[i].id == fighters[j].id {
                return false;
            }
            i += 1;
        }
        j += 1;
    }
    let mut k: usize = 0;
    while k < events.len()
        invariant
            k <= events.len(),
            distinct(fighters@),
            forall|e: int| 0 <= e < k ==> present(fighters@, (#[trigger] events@[e]).target),
        decreases events.len() - k,
    {
        if find_fighter(fighters, events[k].target).is_none() {
            return false;
        }
        k += 1;
    }
    true
}

/// Resolves all pending attacks in the order in which they came, and takes
/// them off the queue. Reports whether one of them left its target without
/// health.
pub fn damage_calculation(events: &mut Vec<FightEvent>, fighters: &mut Vec<Fighter>) -> (felled:
    bool)
    requires
        distinct(old(fighters)@),
        all_present(old(fighters)@, old(events)@),
    ensures
        final(fighters)@ == resolved(old(fighters)@, old(events)@),
        felled == any_felled(old(fighters)@, old(events)@),
        final(events)@.len() == 0,
        distinct(final(fighters)@),
{
    let mut felled: bool = false;
    let mut k: usize = 0;
    while k < events.len()
        invariant
            k <= events.len(),
            events@ == old(events)@,
            distinct(old(fighters)@),
            all_present(old(fighters)@, old(events)@),
            fighters@ == resolved(old(fighters)@, old(events)@.take(k as int)),
            felled == any_felled(old(fighters)@, old(events)@.take(k as int)),
            distinct(fighters@),
            forall|id: u64| present(old(fighters)@, id) == present(fighters@, id),
        decreases events.len() - k,
    {
        let event: FightEvent = events[k];
        let ghost before = fighters@;
        proof {
            assert(old(events)@.take(k + 1).drop_last() == old(events)@.take(k as int));
            lemma_struck_keeps_identities(before, event);
        }
        match find_fighter(fighters, event.target) {
            Some(at) => {
                let mut target: Fighter = fighters[at];
                strike(&mut target.stats, event.damage_amount);
                if target.stats.health == 0 {
                    felled = true;
                }
                fighters.set(at, target);
            },
            None => {
                assert(false);
            },
        }
        k += 1;
    }
    assert(old(events)@.take(events.len() as int) == old(events)@);
    events.clear();
    felled
}

/// Handles the attack key during combat: lets `delta` pass on the cooldown
/// and, if the key was pressed and the cooldown has run out, queues an attack
/// of the player on `target` and starts the cooldown again.
pub fn combat_input(
    attack: bool,
    player: &CombatStats,
    target: u64,
    cooldown: &mut CombatCooldown,
    delta: u64,
    events: &mut Vec<FightEvent>,
) -> (sent: bool)
    ensures
        sent == (attack && old(cooldown).0.ticked(delta).finished),
        final(cooldown).0 == (if sent {
            old(cooldown).0.ticked(delta).rewound()
        } else {
            old(cooldown).0.ticked(delta)
        }),
        final(events)@ == (if sent {
            old(events)@.push(FightEvent { target, damage_amount: player.attack })
        } else {
            old(events)@
        }),
{
    cooldown.0.tick(delta);
    if attack && cooldown.0.finished() {
        events.push(FightEvent { target, damage_amount: player.attack });
        cooldown.0.reset();
        true
    } else {
        false
    }
}

/// Removes every enemy from the fighters.
pub fn despawn_enemies(fighters: &mut Vec<Fighter>)
    ensures
        final(fighters)@ == without_enemies(old(fighters)@),
{
    let mut kept: Vec<Fighter> = Vec::new();
    let mut i: usize = 0;
    while i < fighters.len()
        invariant
            i <= fighters.len(),
            fighters@ == old(fighters)@,
            kept@ == without_enemies(fighters@.take(i as int)),
        decreases fighters.len() - i,
    {
        proof {
            reveal(Seq::filter);
            assert(fighters@.take(i + 1).drop_last() == fighters@.take(i as int));
        }
        let fighter: Fighter = fighters[i];
        if fighter.enemy.is_none() {
            kept.push(fighter);
        }
        i += 1;
    }
    assert(fighters@.take(fighters.len() as int) == fighters@);
    *fighters = kept;
}

} // verus!
