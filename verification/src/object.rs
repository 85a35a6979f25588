//! Entities: the player, monsters, items and landmarks of a level.

use crate::ai::{Ai, DeathCallback, Fighter};
use crate::color::Color;
use crate::equipment::Equipment;
use crate::game::{Game, INVENTORY_CAPACITY};
use crate::item::Item;
use crate::log::Messages;
use crate::map::{in_bounds, Tile, TileMap, MAP_HEIGHT, MAP_WIDTH};
use crate::text::{decimal, push_decimal};
use vstd::prelude::*;

verus! {

/// What the player's input amounted to.
#[derive(Clone, Copy, Debug, PartialEq, Eq, Structural)]
pub enum PlayerAction {
    TookTurn,
    DidntTakeTurn,
    Exit,
}

/// An entity of the level.
#[derive(Debug, PartialEq, Eq)]
pub struct Object {
    pub x: i32,
    pub y: i32,
    pub glyph: char,
    pub color: Color,
    pub name: String,
    pub blocks: bool,
    pub alive: bool,
    pub fighter: Option<Fighter>,
    pub ai: Option<Ai>,
    pub item: Option<Item>,
    pub always_visible: bool,
    pub level: i32,
    pub equipment: Option<Equipment>,
}

/// The view of an entity that contracts speak of: the same fields, with the
/// name as a sequence of characters.
pub struct ObjectView {
    pub x: i32,
    pub y: i32,
    pub glyph: char,
    pub color: Color,
    pub name: Seq<char>,
    pub blocks: bool,
    pub alive: bool,
    pub fighter: Option<Fighter>,
    pub ai: Option<Ai>,
    pub item: Option<Item>,
    pub always_visible: bool,
    pub level: i32,
    pub equipment: Option<Equipment>,
}

impl View for Object {
    type V = ObjectView;

    open spec fn view(&self) -> ObjectView {
        ObjectView {
            x: self.x,
            y: self.y,
            glyph: self.glyph,
            color: self.color,
            name: self.name@,
            blocks: self.blocks,
            alive: self.alive,
            fighter: self.fighter,
            ai: self.ai,
            item: self.item,
            always_visible: self.always_visible,
            level: self.level,
            equipment: self.equipment,
        }
    }
}

/// The views of the entities of a list, in order.
pub open spec fn views(objects: Seq<Object>) -> Seq<ObjectView> {
    objects.map_values(|o: Object| o@)
}

/// A new entity: not alive, without components, of level 1.
pub open spec fn new_object(
    x: i32,
    y: i32,
    glyph: char,
    name: Seq<char>,
    color: Color,
    blocks: bool,
) -> ObjectView {
    ObjectView {
        x,
        y,
        glyph,
        color,
        name,
        blocks,
        alive: false,
        fighter: None,
        ai: None,
        item: None,
        always_visible: false,
        level: 1,
        equipment: None,
    }
}

/// Whether the entity is the player, told by its name.
pub open spec fn is_player(o: ObjectView) -> bool {
    o.name == "Player"@
}

/// Whether the entity is a piece of equipment that is being worn.
pub open spec fn worn(o: ObjectView) -> bool {
    o.equipment matches Some(e) && e.equipped
}

/// The equipment worn among `inventory`, in inventory order.
pub open spec fn equipped_items(inventory: Seq<ObjectView>) -> Seq<Equipment>
    decreases inventory.len(),
{
    if inventory.len() == 0 {
        Seq::empty()
    } else if worn(inventory.last()) {
        equipped_items(inventory.drop_last()).push(inventory.last().equipment->0)
    } else {
        equipped_items(inventory.drop_last())
    }
}

/// The equipment that counts for `o`: the worn part of the inventory for the
/// player, nothing for anyone else.
pub open spec fn all_equipped(o: ObjectView, inventory: Seq<ObjectView>) -> Seq<Equipment> {
    if is_player(o) {
        equipped_items(inventory)
    } else {
        Seq::empty()
    }
}

/// One of the three values that equipment can raise.
#[derive(Clone, Copy, Debug, PartialEq, Eq, Structural)]
pub enum Stat {
    Power,
    Defense,
    MaxHp,
}

/// What `e` adds to `stat`.
pub open spec fn bonus(e: Equipment, stat: Stat) -> int {
    match stat {
        Stat::Power => e.power_bonus as int,
        Stat::Defense => e.defense_bonus as int,
        Stat::MaxHp => e.max_hp_bonus as int,
    }
}

/// What all of `items` together add to `stat`.
pub open spec fn total_bonus(items: Seq<Equipment>, stat: Stat) -> int
    decreases items.len(),
{
    if items.len() == 0 {
        0
    } else {
        total_bonus(items.drop_last(), stat) + bonus(items.last(), stat)
    }
}

/// The value of `stat` that `o` has of its own: that of its fighter
/// component, or 0 without one.
pub open spec fn base_stat(o: ObjectView, stat: Stat) -> int {
    match o.fighter {
        Some(f) => match stat {
            Stat::Power => f.base_power as int,
            Stat::Defense => f.base_defense as int,
            Stat::MaxHp => f.base_max_hp as int,
        },
        None => 0,
    }
}

/// The value of `stat` that counts for `o`: its own plus what its equipment
/// adds.
pub open spec fn effective(o: ObjectView, inventory: Seq<ObjectView>, stat: Stat) -> int {
    base_stat(o, stat) + total_bonus(all_equipped(o, inventory), stat)
}

/// The hit points left of `hp` after `damage`: damage that is not positive
/// does nothing, and hit points do not fall below zero.
pub open spec fn hp_after(hp: int, damage: int) -> int {
    if damage <= 0 {
        hp
    } else if hp - damage < 0 {
        0
    } else {
        hp - damage
    }
}

/// `o` with `damage` taken off its hit points, before any death.
pub open spec fn wounded(o: ObjectView, damage: int) -> ObjectView {
    match o.fighter {
        Some(f) => ObjectView {
            fighter: Some(Fighter { hp: hp_after(f.hp as int, damage) as i32, ..f }),
            ..o
        },
        None => o,
    }
}

/// Whether taking `damage` brings `o` down to exactly zero hit points:
/// it had some left before, and has none after. What is at zero already
/// does not die again.
pub open spec fn dies(o: ObjectView, damage: int) -> bool {
    o.fighter matches Some(f) && f.hp > 0 && hp_after(f.hp as int, damage) == 0
}

/// The name of what is left of a monster called `name`.
pub open spec fn corpse_name(name: Seq<char>) -> Seq<char> {
    "remains of "@ + name
}

/// What dying makes of `o`: it is no longer alive and stays visible; a
/// monster also stops blocking, loses its fighter and behaviour components,
/// and is renamed.
pub open spec fn dead(o: ObjectView) -> ObjectView {
    match o.fighter {
        Some(f) => match f.on_death {
            DeathCallback::Player => ObjectView {
                alive: false,
                always_visible: true,
                glyph: '%',
                color: Color::DarkRed,
                ..o
            },
            DeathCallback::Monster => ObjectView {
                alive: false,
                always_visible: true,
                glyph: '%',
                color: Color::DarkRed,
                blocks: false,
                fighter: None,
                ai: None,
                name: corpse_name(o.name),
                ..o
            },
        },
        None => o,
    }
}

/// The line logged when `o` dies.
pub open spec fn death_message(o: ObjectView) -> (Seq<char>, Color) {
    match o.fighter {
        Some(f) => match f.on_death {
            DeathCallback::Player => ("You died!"@, Color::Red),
            DeathCallback::Monster => (
                o.name + " is dead! You gain "@ + decimal(f.xp as int) + " experience points."@,
                Color::Orange,
            ),
        },
        None => (Seq::empty(), Color::White),
    }
}

/// `o` after taking `damage`, death included.
pub open spec fn damaged(o: ObjectView, damage: int) -> ObjectView {
    if dies(o, damage) {
        dead(wounded(o, damage))
    } else {
        wounded(o, damage)
    }
}

/// The lines logged when `o` takes `damage`.
pub open spec fn damage_messages(o: ObjectView, damage: int) -> Seq<(Seq<char>, Color)> {
    if dies(o, damage) {
        seq![death_message(o)]
    } else {
        Seq::empty()
    }
}

/// The experience that `o` yields when it takes `damage`: its banked
/// experience if it dies of it, nothing otherwise.
pub open spec fn damage_xp(o: ObjectView, damage: int) -> Option<i32> {
    if dies(o, damage) {
        Some(o.fighter->0.xp)
    } else {
        None
    }
}

/// The damage of one attack: the attacker's power less the target's defense.
pub open spec fn attack_damage(
    attacker: ObjectView,
    target: ObjectView,
    inventory: Seq<ObjectView>,
) -> int {
    effective(attacker, inventory, Stat::Power) - effective(target, inventory, Stat::Defense)
}

/// Whether the attack kills the target.
pub open spec fn attack_kills(
    attacker: ObjectView,
    target: ObjectView,
    inventory: Seq<ObjectView>,
) -> bool {
    attack_damage(attacker, target, inventory) > 0 && dies(
        target,
        attack_damage(attacker, target, inventory),
    )
}

/// Whether the attacker can bank the experience of the target if the attack
/// kills it: it can fight, and the sum fits.
pub open spec fn attack_fits(
    attacker: ObjectView,
    target: ObjectView,
    inventory: Seq<ObjectView>,
) -> bool {
    attack_kills(attacker, target, inventory) ==> (attacker.fighter matches Some(f) && i32::MIN
        <= f.xp + target.fighter->0.xp <= i32::MAX)
}

/// `o` with `xp` more experience.
pub open spec fn with_xp_gain(o: ObjectView, xp: int) -> ObjectView {
    match o.fighter {
        Some(f) => ObjectView { fighter: Some(Fighter { xp: (f.xp + xp) as i32, ..f }), ..o },
        None => o,
    }
}

/// The target after the attack.
pub open spec fn attacked(
    attacker: ObjectView,
    target: ObjectView,
    inventory: Seq<ObjectView>,
) -> ObjectView {
    if attack_damage(attacker, target, inventory) > 0 {
        damaged(target, attack_damage(attacker, target, inventory))
    } else {
        target
    }
}

/// The attacker after the attack: richer by the target's experience if the
/// attack killed it, unchanged otherwise.
pub open spec fn after_attacking(
    attacker: ObjectView,
    target: ObjectView,
    inventory: Seq<ObjectView>,
) -> ObjectView {
    if attack_kills(attacker, target, inventory) {
        with_xp_gain(attacker, target.fighter->0.xp as int)
    } else {
        attacker
    }
}

/// The lines logged by the attack.
pub open spec fn attack_messages(
    attacker: ObjectView,
    target: ObjectView,
    inventory: Seq<ObjectView>,
) -> Seq<(Seq<char>, Color)> {
    let damage = attack_damage(attacker, target, inventory);
    if damage > 0 {
        seq![
            (
                attacker.name + " attacks "@ + target.name + " for "@ + decimal(damage) + " hp"@,
                Color::White,
            ),
        ] + damage_messages(target, damage)
    } else {
        seq![
            (
                attacker.name + " attacks "@ + target.name + " but it has no effect!"@,
                Color::White,
            ),
        ]
    }
}

/// The hit points after healing by `amount`, capped at `max_hp`.
pub open spec fn healed_hp(hp: int, amount: int, max_hp: int) -> int {
    if hp + amount > max_hp {
        max_hp
    } else {
        hp + amount
    }
}

/// `o` healed by `amount`, its hit points capped at the most it can have. An
/// entity that cannot fight is left as it is.
pub open spec fn healed(o: ObjectView, amount: int, inventory: Seq<ObjectView>) -> ObjectView {
    match o.fighter {
        Some(f) => ObjectView {
            fighter: Some(
                Fighter {
                    hp: healed_hp(f.hp as int, amount, effective(o, inventory, Stat::MaxHp)) as i32,
                    ..f
                },
            ),
            ..o
        },
        None => o,
    }
}

/// Whether the hit points of `o` healed by `amount` fit their field.
pub open spec fn heal_fits(o: ObjectView, amount: int, inventory: Seq<ObjectView>) -> bool {
    o.fighter matches Some(f) ==> i32::MIN <= healed_hp(
        f.hp as int,
        amount,
        effective(o, inventory, Stat::MaxHp),
    ) <= i32::MAX
}

/// Whether one of `objects` that blocks stands at `(x, y)`.
pub open spec fn occupied_at(x: int, y: int, objects: Seq<ObjectView>) -> bool {
    exists|i: int|
        0 <= i < objects.len() && (#[trigger] objects[i]).blocks && objects[i].x == x
            && objects[i].y == y
}

/// Whether something stands in the way at `(x, y)`: the edge of the grid,
/// blocked terrain, or an entity that blocks.
pub open spec fn blocked_at(x: int, y: int, grid: Seq<Seq<Tile>>, objects: Seq<ObjectView>) -> bool {
    ||| !in_bounds(x, y)
    ||| grid[x][y].blocked
    ||| occupied_at(x, y, objects)
}

/// The entity after trying to step by `(dx, dy)`: it moves unless something
/// stands in the way.
pub open spec fn moved_by(
    o: ObjectView,
    dx: int,
    dy: int,
    grid: Seq<Seq<Tile>>,
    objects: Seq<ObjectView>,
) -> ObjectView {
    if blocked_at(o.x + dx, o.y + dy, grid, objects) {
        o
    } else {
        ObjectView { x: (o.x + dx) as i32, y: (o.y + dy) as i32, ..o }
    }
}

/// The square of the distance between `(x1, y1)` and `(x2, y2)`.
pub open spec fn distance_sq(x1: int, y1: int, x2: int, y2: int) -> int {
    (x2 - x1) * (x2 - x1) + (y2 - y1) * (y2 - y1)
}

/// The outcome of trying to put an item on: the item afterwards and the line
/// logged, if any.
pub open spec fn equipped(o: ObjectView) -> ObjectView {
    match (o.item, o.equipment) {
        (Some(_), Some(e)) => ObjectView { equipment: Some(Equipment { equipped: true, ..e }), ..o },
        _ => o,
    }
}

/// The lines logged by trying to put `o` on.
pub open spec fn equip_messages(o: ObjectView) -> Seq<(Seq<char>, Color)> {
    match (o.item, o.equipment) {
        (None, _) => seq![
            ("Can't equip "@ + o.name + " because it's not an Item."@, Color::Red),
        ],
        (Some(_), None) => seq![
            ("Can't equip "@ + o.name + " because it's not an Equipment Item."@, Color::Red),
        ],
        (Some(_), Some(e)) => if e.equipped {
            Seq::empty()
        } else {
            seq![
                ("Equipped "@ + o.name + " on "@ + e.slot.spec_label(), Color::LightGreen),
            ]
        },
    }
}

/// `o` after trying to take it off.
pub open spec fn dequipped(o: ObjectView) -> ObjectView {
    match (o.item, o.equipment) {
        (Some(_), Some(e)) => ObjectView {
            equipment: Some(Equipment { equipped: false, ..e }),
            ..o
        },
        _ => o,
    }
}

/// The lines logged by trying to take `o` off.
pub open spec fn dequip_messages(o: ObjectView) -> Seq<(Seq<char>, Color)> {
    match (o.item, o.equipment) {
        (None, _) => seq![
            ("Can't dequip "@ + o.name + " because it's not an Item."@, Color::Red),
        ],
        (Some(_), None) => seq![
            ("Can't dequip "@ + o.name + " because it's not an Equipment Item."@, Color::Red),
        ],
        (Some(_), Some(e)) => if e.equipped {
            seq![
                ("Dequipped "@ + o.name + " on "@ + e.slot.spec_label(), Color::LightYellow),
            ]
        } else {
            Seq::empty()
        },
    }
}

/// An attack whose damage is not positive leaves the target as it was. One
/// whose damage is positive takes exactly the damage off the target's hit
/// points, which stop at zero and never go below; a target brought down to
/// zero dies, and one that was at zero already stays as it was.
pub proof fn lemma_attack_damage(
    attacker: ObjectView,
    target: ObjectView,
    inventory: Seq<ObjectView>,
)
    requires
        target.fighter is Some,
        target.fighter->0.hp >= 0,
    ensures
        ({
            let damage = attack_damage(attacker, target, inventory);
            let hp = target.fighter->0.hp as int;
            let after = attacked(attacker, target, inventory);
            let left = wounded(target, damage).fighter->0.hp as int;
            &&& damage == effective(attacker, inventory, Stat::Power) - effective(
                target,
                inventory,
                Stat::Defense,
            )
            &&& damage <= 0 ==> after == target
            &&& damage > 0 && hp - damage > 0 ==> left == hp - damage && after == wounded(
                target,
                damage,
            )
            &&& damage > 0 && hp - damage <= 0 ==> left == 0
            &&& damage > 0 && hp - damage <= 0 && hp > 0 ==> after == dead(wounded(target, damage))
            &&& hp == 0 ==> after == target
            &&& left >= 0
        }),
{
}

/// Whether the hit points of `o` are within their bounds: not below zero
/// and not above the most that `o` can have. What cannot fight has none.
pub open spec fn hp_in_bounds(o: ObjectView, inventory: Seq<ObjectView>) -> bool {
    o.fighter matches Some(f) ==> 0 <= f.hp <= effective(o, inventory, Stat::MaxHp)
}

/// Damage keeps the hit points within their bounds.
pub proof fn lemma_damage_keeps_hp_in_bounds(
    o: ObjectView,
    damage: int,
    inventory: Seq<ObjectView>,
)
    requires
        hp_in_bounds(o, inventory),
    ensures
        hp_in_bounds(damaged(o, damage), inventory),
{
}

/// Healing by an amount that is not negative keeps the hit points within
/// their bounds.
pub proof fn lemma_heal_keeps_hp_in_bounds(o: ObjectView, amount: int, inventory: Seq<ObjectView>)
    requires
        hp_in_bounds(o, inventory),
        amount >= 0,
        heal_fits(o, amount, inventory),
    ensures
        hp_in_bounds(healed(o, amount, inventory), inventory),
{
}

/// The equipment worn among the first `n` entities counts no more than `n`.
pub proof fn lemma_equipped_items_len(inventory: Seq<ObjectView>)
    ensures
        equipped_items(inventory).len() <= inventory.len(),
    decreases inventory.len(),
{
    if inventory.len() > 0 {
        lemma_equipped_items_len(inventory.drop_last());
    }
}

impl Object {
    /// A new entity at `(x, y)`: not alive, without components, of level 1.
    pub fn new(x: i32, y: i32, glyph: char, name: &str, color: Color, blocks: bool) -> (o: Object)
        ensures
            o@ == new_object(x, y, glyph, name@, color, blocks),
    {
        Object {
            x,
            y,
            glyph,
            color,
            name: String::from_str(name),
            blocks,
            alive: false,
            fighter: None,
            ai: None,
            item: None,
            always_visible: false,
            level: 1,
            equipment: None,
        }
    }

    /// Where the entity stands.
    pub fn pos(&self) -> (p: (i32, i32))
        ensures
            p == (self@.x, self@.y),
    {
        (self.x, self.y)
    }

    /// Puts the entity at `(x, y)`.
    pub fn set_pos(&mut self, x: i32, y: i32)
        ensures
            final(self)@ == (ObjectView { x, y, ..old(self)@ }),
    {
        self.x = x;
        self.y = y;
    }

    /// The equipment that counts for this entity: what is worn in the
    /// player's inventory if this is the player, nothing otherwise.
    pub fn get_all_equipped(&self, game: &Game) -> (items: Vec<Equipment>)
        ensures
            items@ == all_equipped(self@, game@.inventory),
    {
        let player_name = String::from_str("Player");
        let mut items: Vec<Equipment> = Vec::new();
        if self.name == player_name {
            let mut i: usize = 0;
            while i < game.inventory.len()
                invariant
                    i <= game.inventory.len(),
                    items@ == equipped_items(views(game.inventory@).take(i as int)),
                decreases game.inventory.len() - i,
            {
                assert(views(game.inventory@).take(i as int + 1).drop_last() == views(
                    game.inventory@,
                ).take(i as int));
                match game.inventory[i].equipment {
                    Some(e) => {
                        if e.equipped {
                            items.push(e);
                        }
                    },
                    None => {},
                }
                i += 1;
            }
            assert(views(game.inventory@).take(i as int) == views(game.inventory@));
        }
        items
    }

    /// The value of `stat` that counts for this entity: its own plus what its
    /// equipment adds.
    pub fn stat(&self, game: &Game, stat: Stat) -> (value: i64)
        requires
            game.wf(),
        ensures
            value == effective(self@, game@.inventory, stat),
            -0x8000_0000 * 27 <= value <= 0x8000_0000 * 27,
    {
        let base: i32 = match self.fighter {
            Some(f) => match stat {
                Stat::Power => f.base_power,
                Stat::Defense => f.base_defense,
                Stat::MaxHp => f.base_max_hp,
            },
            None => 0,
        };
        let items = self.get_all_equipped(game);
        proof {
            lemma_equipped_items_len(game@.inventory);
        }
        let mut sum: i64 = 0;
        let mut i: usize = 0;
        while i < items.len()
            invariant
                i <= items.len() <= INVENTORY_CAPACITY,
                sum == total_bonus(items@.take(i as int), stat),
                -0x8000_0000 * i <= sum <= 0x8000_0000 * i,
            decreases items.len() - i,
        {
            assert(items@.take(i as int + 1).drop_last() == items@.take(i as int));
            let e = items[i];
            let b: i32 = match stat {
                Stat::Power => e.power_bonus,
                Stat::Defense => e.defense_bonus,
                Stat::MaxHp => e.max_hp_bonus,
            };
            sum = sum + b as i64;
            i += 1;
        }
        assert(items@.take(i as int) == items@);
        base as i64 + sum
    }

    /// The power that counts in an attack.
    pub fn power(&self, game: &Game) -> (value: i64)
        requires
            game.wf(),
        ensures
            value == effective(self@, game@.inventory, Stat::Power),
            -0x8000_0000 * 27 <= value <= 0x8000_0000 * 27,
    {
        self.stat(game, Stat::Power)
    }

    /// The defense that counts against an attack.
    pub fn defense(&self, game: &Game) -> (value: i64)
        requires
            game.wf(),
        ensures
            value == effective(self@, game@.inventory, Stat::Defense),
            -0x8000_0000 * 27 <= value <= 0x8000_0000 * 27,
    {
        self.stat(game, Stat::Defense)
    }

    /// The most hit points this entity can have.
    pub fn max_hp(&self, game: &Game) -> (value: i64)
        requires
            game.wf(),
        ensures
            value == effective(self@, game@.inventory, Stat::MaxHp),
            -0x8000_0000 * 27 <= value <= 0x8000_0000 * 27,
    {
        self.stat(game, Stat::MaxHp)
    }

    /// Puts this item on, if it is an item that can be worn and is not worn
    /// yet, and logs what happened.
    pub fn equip(&mut self, messages: &mut Messages)
        ensures
            final(self)@ == equipped(old(self)@),
            final(messages)@ == old(messages)@ + equip_messages(old(self)@),
    {
        if self.item.is_none() {
            let mut text = String::from_str("Can't equip ");
            text.append(self.name.as_str());
            text.append(" because it's not an Item.");
            messages.add(text, Color::Red);
            return ;
        }
        match self.equipment {
            Some(e) => {
                if !e.equipped {
                    self.equipment = Some(
                        Equipment {
                            slot: e.slot,
                            equipped: true,
                            max_hp_bonus: e.max_hp_bonus,
                            defense_bonus: e.defense_bonus,
                            power_bonus: e.power_bonus,
                        },
                    );
                    let mut text = String::from_str("Equipped ");
                    text.append(self.name.as_str());
                    text.append(" on ");
                    text.append(e.slot.label());
                    messages.add(text, Color::LightGreen);
                }
            },
            None => {
                let mut text = String::from_str("Can't equip ");
                text.append(self.name.as_str());
                text.append(" because it's not an Equipment Item.");
                messages.add(text, Color::Red);
            },
        }
    }

    /// Takes this item off, if it is an item that is being worn, and logs
    /// what happened.
    pub fn dequip(&mut self, messages: &mut Messages)
        ensures
            final(self)@ == dequipped(old(self)@),
            final(messages)@ == old(messages)@ + dequip_messages(old(self)@),
    {
        if self.item.is_none() {
            let mut text = String::from_str("Can't dequip ");
            text.append(self.name.as_str());
            text.append(" because it's not an Item.");
            messages.add(text, Color::Red);
            return ;
        }
        match self.equipment {
            Some(e) => {
                if e.equipped {
                    self.equipment = Some(
                        Equipment {
                            slot: e.slot,
                            equipped: false,
                            max_hp_bonus: e.max_hp_bonus,
                            defense_bonus: e.defense_bonus,
                            power_bonus: e.power_bonus,
                        },
                    );
                    let mut text = String::from_str("Dequipped ");
                    text.append(self.name.as_str());
                    text.append(" on ");
                    text.append(e.slot.label());
                    messages.add(text, Color::LightYellow);
                }
            },
            None => {
                let mut text = String::from_str("Can't dequip ");
                text.append(self.name.as_str());
                text.append(" because it's not an Equipment Item.");
                messages.add(text, Color::Red);
            },
        }
    }

    /// Raises the hit points by `amount`, but not above the most this entity
    /// can have. An entity that cannot fight is left as it is.
    pub fn heal(&mut self, amount: i32, game: &Game)
        requires
            game.wf(),
            heal_fits(old(self)@, amount as int, game@.inventory),
        ensures
            final(self)@ == healed(old(self)@, amount as int, game@.inventory),
    {
        let max_hp = self.max_hp(game);
        if let Some(fighter) = self.fighter.as_mut() {
            let raised: i64 = fighter.hp as i64 + amount as i64;
            if raised > max_hp {
                fighter.hp = max_hp as i32;
            } else {
                fighter.hp = raised as i32;
            }
        }
    }

    /// Moves entity `id` by `(dx, dy)` unless something stands in the way
    /// there.
    pub fn move_by(id: usize, dx: i32, dy: i32, map: &TileMap, objects: &mut Vec<Object>)
        requires
            id < old(objects).len(),
            map.wf(),
        ensures
            final(objects)@.len() == old(objects)@.len(),
            views(final(objects)@) == views(old(objects)@).update(
                id as int,
                moved_by(
                    views(old(objects)@)[id as int],
                    dx as int,
                    dy as int,
                    map@,
                    views(old(objects)@),
                ),
            ),
    {
        let (x, y) = objects[id].pos();
        let new_x: i64 = x as i64 + dx as i64;
        let new_y: i64 = y as i64 + dy as i64;
        if 0 <= new_x && new_x < MAP_WIDTH as i64 && 0 <= new_y && new_y < MAP_HEIGHT as i64 {
            if !is_blocked(new_x as i32, new_y as i32, map, objects) {
                objects[id].set_pos(new_x as i32, new_y as i32);
            }
        }
    }

    /// The square of the distance from this entity to `other`.
    pub fn distance_sq_to(&self, other: &Object) -> (d: i128)
        ensures
            d == distance_sq(self@.x as int, self@.y as int, other@.x as int, other@.y as int),
    {
        self.distance_sq(other.x, other.y)
    }

    /// The square of the distance from this entity to `(x, y)`.
    pub fn distance_sq(&self, x: i32, y: i32) -> (d: i128)
        ensures
            d == distance_sq(self@.x as int, self@.y as int, x as int, y as int),
    {
        let dx: i128 = x as i128 - self.x as i128;
        let dy: i128 = y as i128 - self.y as i128;
        assert(0 <= dx * dx <= 0x1_0000_0000 * 0x1_0000_0000) by (nonlinear_arith)
            requires
                -0x1_0000_0000 <= dx <= 0x1_0000_0000,
        ;
        assert(0 <= dy * dy <= 0x1_0000_0000 * 0x1_0000_0000) by (nonlinear_arith)
            requires
                -0x1_0000_0000 <= dy <= 0x1_0000_0000,
        ;
        dx * dx + dy * dy
    }

    /// Takes `damage` off the hit points, which do not fall below zero; damage
    /// that is not positive does nothing. An entity whose hit points are
    /// brought down to exactly zero dies: it is marked, its death is logged,
    /// and the experience it had banked is returned. That happens once: what
    /// has no hit points left already is not marked, logged or paid out
    /// again.
    pub fn take_damage(&mut self, damage: i64, game: &mut Game) -> (xp: Option<i32>)
        ensures
            final(self)@ == damaged(old(self)@, damage as int),
            final(game)@ == old(game)@.with_messages(damage_messages(old(self)@, damage as int)),
            xp == damage_xp(old(self)@, damage as int),
    {
        let mut had_hp = false;
        if let Some(fighter) = self.fighter.as_mut() {
            had_hp = fighter.hp > 0;
            if damage > 0 {
                if damage > fighter.hp as i64 {
                    fighter.hp = 0;
                } else {
                    fighter.hp = ((fighter.hp as i64) - damage) as i32;
                }
            }
        }
        if let Some(fighter) = self.fighter {
            if had_hp && fighter.hp == 0 {
                self.alive = false;
                self.always_visible = true;
                match fighter.on_death {
                    DeathCallback::Player => {
                        game.messages.add_str("You died!", Color::Red);
                        assert(game@.messages == old(game)@.messages + seq![
                            death_message(old(self)@),
                        ]);
                        self.glyph = '%';
                        self.color = Color::DarkRed;
                    },
                    DeathCallback::Monster => {
                        let mut text = self.name.clone();
                        text.append(" is dead! You gain ");
                        push_decimal(&mut text, fighter.xp as i64);
                        text.append(" experience points.");
                        game.messages.add(text, Color::Orange);
                        assert(game@.messages == old(game)@.messages + seq![
                            death_message(old(self)@),
                        ]);
                        self.glyph = '%';
                        self.color = Color::DarkRed;
                        self.blocks = false;
                        self.fighter = None;
                        self.ai = None;
                        let mut name = String::from_str("remains of ");
                        name.append(self.name.as_str());
                        self.name = name;
                    },
                }
                return Some(fighter.xp);
            }
        }
        None
    }

    /// Whether an attack on `target` can be made: if it kills, this entity
    /// can fight and the experience it banks fits.
    pub fn can_attack(&self, target: &Object, game: &Game) -> (b: bool)
        requires
            game.wf(),
        ensures
            b == attack_fits(self@, target@, game@.inventory),
    {
        let damage = self.power(game) - target.defense(game);
        match target.fighter {
            Some(defender) => {
                if damage > 0 && defender.hp > 0 && defender.hp as i64 <= damage {
                    match self.fighter {
                        Some(f) => {
                            let sum: i64 = f.xp as i64 + defender.xp as i64;
                            i32::MIN as i64 <= sum && sum <= i32::MAX as i64
                        },
                        None => false,
                    }
                } else {
                    true
                }
            },
            None => true,
        }
    }

    /// Attacks `target`: the damage is this entity's power less the target's
    /// defense. Positive damage is taken by the target, and if that kills it,
    /// this entity gains the experience the target had banked. Either way the
    /// attack is logged.
    pub fn attack(&mut self, target: &mut Object, game: &mut Game)
        requires
            old(game).wf(),
            attack_fits(old(self)@, old(target)@, old(game)@.inventory),
        ensures
            final(target)@ == attacked(old(self)@, old(target)@, old(game)@.inventory),
            final(self)@ == after_attacking(old(self)@, old(target)@, old(game)@.inventory),
            final(game)@ == old(game)@.with_messages(
                attack_messages(old(self)@, old(target)@, old(game)@.inventory),
            ),
    {
        let damage = self.power(game) - target.defense(game);
        if damage > 0 {
            let mut text = self.name.clone();
            text.append(" attacks ");
            text.append(target.name.as_str());
            text.append(" for ");
            push_decimal(&mut text, damage);
            text.append(" hp");
            game.messages.add(text, Color::White);
            if let Some(xp) = target.take_damage(damage, game) {
                if let Some(fighter) = self.fighter.as_mut() {
                    fighter.xp = fighter.xp + xp;
                }
            }
            assert(game@.messages == old(game)@.messages + attack_messages(
                old(self)@,
                old(target)@,
                old(game)@.inventory,
            ));
        } else {
            let mut text = self.name.clone();
            text.append(" attacks ");
            text.append(target.name.as_str());
            text.append(" but it has no effect!");
            game.messages.add(text, Color::White);
            assert(game@.messages == old(game)@.messages + attack_messages(
                old(self)@,
                old(target)@,
                old(game)@.inventory,
            ));
        }
    }
}

/// Whether something stands in the way at `(x, y)`: the edge of the grid,
/// blocked terrain, or an entity that blocks.
pub fn is_blocked(x: i32, y: i32, map: &TileMap, objects: &Vec<Object>) -> (b: bool)
    requires
        map.wf(),
    ensures
        b == blocked_at(x as int, y as int, map@, views(objects@)),
{
    if x < 0 || x >= MAP_WIDTH || y < 0 || y >= MAP_HEIGHT {
        return true;
    }
    if map.tile(x, y).blocked {
        return true;
    }
    let mut i: usize = 0;
    while i < objects.len()
        invariant
            i <= objects.len(),
            forall|k: int|
                0 <= k < i ==> !((#[trigger] views(objects@)[k]).blocks && views(objects@)[k].x == x
                    && views(objects@)[k].y == y),
        decreases objects.len() - i,
    {
        if objects[i].blocks && objects[i].x == x && objects[i].y == y {
            assert(views(objects@)[i as int].blocks);
            return true;
        }
        i += 1;
    }
    false
}

} // verus!