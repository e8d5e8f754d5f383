//! The session state and the equipment the player wears.

use vstd::prelude::*;
use crate::color::Color;
use crate::dungeon::TileMap;
use crate::log::{log_push, MessageLog};
use crate::object::{Equipment, EquipmentView, Object, ObjectView, views};

verus! {

/// Whether the game goes on.
#[derive(Clone, Copy, Debug, PartialEq, Eq, Structural)]
pub enum GameState {
    Playing,
    Death,
}

/// The session: everything about a game in progress but the objects of
/// the current level.
#[derive(Debug, PartialEq)]
pub struct Game {
    pub state: GameState,
    pub dungeon_level: i32,
    pub map: TileMap,
    pub fov_recompute: bool,
    pub log: MessageLog,
    pub inventory: Vec<Object>,
}

/// A [`Game`] with its log and inventory as plain sequences.
pub struct GameView {
    pub state: GameState,
    pub dungeon_level: i32,
    pub map: TileMap,
    pub fov_recompute: bool,
    pub log: Seq<(Seq<char>, Color)>,
    pub inventory: Seq<ObjectView>,
}

impl View for Game {
    type V = GameView;

    open spec fn view(&self) -> GameView {
        GameView {
            state: self.state,
            dungeon_level: self.dungeon_level,
            map: self.map,
            fov_recompute: self.fov_recompute,
            log: self.log@,
            inventory: views(self.inventory@),
        }
    }
}

impl GameView {
    /// The session after `text` is logged in `color`.
    pub open spec fn logged(self, text: Seq<char>, color: Color) -> GameView {
        GameView { log: log_push(self.log, (text, color)), ..self }
    }
}

/// One of the statistics that equipment can raise.
#[derive(Clone, Copy, Debug, PartialEq, Eq, Structural)]
pub enum Stat {
    Power,
    Defense,
    MaxHp,
}

/// Whether `n` is a value of `i32`.
pub open spec fn fits_i32(n: int) -> bool {
    i32::MIN <= n <= i32::MAX
}

/// The bonus that a piece of equipment gives to `stat`.
pub open spec fn bonus(e: EquipmentView, stat: Stat) -> int {
    match stat {
        Stat::Power => e.power_bonus as int,
        Stat::Defense => e.defense_bonus as int,
        Stat::MaxHp => e.max_hp_bonus as int,
    }
}

/// The sum of the bonuses that `items` give to `stat`.
pub open spec fn bonus_sum(items: Seq<EquipmentView>, stat: Stat) -> int
    decreases items.len(),
{
    if items.len() == 0 {
        0
    } else {
        bonus_sum(items.drop_last(), stat) + bonus(items.last(), stat)
    }
}

/// The equipment among `inventory` that is worn, in inventory order.
pub open spec fn worn_items(inventory: Seq<ObjectView>) -> Seq<EquipmentView>
    decreases inventory.len(),
{
    if inventory.len() == 0 {
        Seq::empty()
    } else {
        let rest = worn_items(inventory.drop_last());
        match inventory.last().equipment {
            Some(e) => if e.is_equipped {
                rest.push(e)
            } else {
                rest
            },
            None => rest,
        }
    }
}

/// The equipment that counts for `object`: what the player wears, and
/// nothing for anyone else.
pub open spec fn all_equipped(object: ObjectView, inventory: Seq<ObjectView>) -> Seq<EquipmentView> {
    if object.is_player() {
        worn_items(inventory)
    } else {
        Seq::empty()
    }
}

/// The value of `stat` that `object` has on its own.
pub open spec fn base_stat(object: ObjectView, stat: Stat) -> int {
    match object.fighter {
        Some(f) => match stat {
            Stat::Power => f.base_power as int,
            Stat::Defense => f.base_defense as int,
            Stat::MaxHp => f.base_max_hp as int,
        },
        None => 0,
    }
}

/// The effective value of `stat`: the base value plus the bonuses of all
/// the equipment that counts for `object`.
pub open spec fn full_stat(object: ObjectView, inventory: Seq<ObjectView>, stat: Stat) -> int {
    base_stat(object, stat) + bonus_sum(all_equipped(object, inventory), stat)
}

/// The views of a list of equipment.
pub open spec fn equipment_views(items: Seq<Equipment>) -> Seq<EquipmentView> {
    Seq::new(items.len(), |i: int| items[i]@)
}

fn worn_list(inventory: &Vec<Object>) -> (worn: Vec<Equipment>)
    ensures
        equipment_views(worn@) == worn_items(views(inventory@)),
{
    let mut worn: Vec<Equipment> = Vec::new();
    let mut i: usize = 0;
    assert(views(inventory@).take(0) =~= Seq::<ObjectView>::empty());
    while i < inventory.len()
        invariant
            i <= inventory.len(),
            equipment_views(worn@) =~= worn_items(views(inventory@).take(i as int)),
        decreases inventory.len() - i,
    {
        let ghost before = views(inventory@).take(i as int);
        let ghost after = views(inventory@).take(i + 1);
        assert(after.drop_last() =~= before);
        assert(after.last() == inventory@[i as int]@);
        match &inventory[i].equipment {
            Some(e) => {
                if e.is_equipped {
                    worn.push(e.clone());
                }
            },
            None => {},
        }
        i = i + 1;
    }
    assert(views(inventory@).take(i as int) =~= views(inventory@));
    worn
}

proof fn lemma_bonus_sum_bounded(items: Seq<EquipmentView>, stat: Stat)
    ensures
        -0x8000_0000 * items.len() <= bonus_sum(items, stat) <= 0x8000_0000 * items.len(),
    decreases items.len(),
{
    if items.len() > 0 {
        lemma_bonus_sum_bounded(items.drop_last(), stat);
    }
}

fn sum_bonus(items: &Vec<Equipment>, stat: Stat) -> (sum: i128)
    ensures
        sum == bonus_sum(equipment_views(items@), stat),
{
    let mut sum: i128 = 0;
    let mut i: usize = 0;
    assert(equipment_views(items@).take(0) =~= Seq::<EquipmentView>::empty());
    while i < items.len()
        invariant
            i <= items.len(),
            sum == bonus_sum(equipment_views(items@).take(i as int), stat),
        decreases items.len() - i,
    {
        let ghost before = equipment_views(items@).take(i as int);
        let ghost after = equipment_views(items@).take(i + 1);
        assert(after.drop_last() =~= before);
        assert(after.last() == items@[i as int]@);
        proof {
            lemma_bonus_sum_bounded(before, stat);
        }
        let extra: i32 = match stat {
            Stat::Power => items[i].power_bonus,
            Stat::Defense => items[i].defense_bonus,
            Stat::MaxHp => items[i].max_hp_bonus,
        };
        sum = sum + extra as i128;
        i = i + 1;
    }
    assert(equipment_views(items@).take(i as int) =~= equipment_views(items@));
    sum
}

impl Object {
    /// The list of equipped items that count for this object.
    pub fn get_all_equipped(&self, game: &Game) -> (worn: Vec<Equipment>)
        ensures
            equipment_views(worn@) == all_equipped(self@, game@.inventory),
    {
        if self.is_player() {
            worn_list(&game.inventory)
        } else {
            let worn: Vec<Equipment> = Vec::new();
            assert(equipment_views(worn@) =~= Seq::<EquipmentView>::empty());
            worn
        }
    }

    /// The effective value of `stat`, in a range wide enough for any
    /// inventory.
    pub(crate) fn full_wide(&self, game: &Game, stat: Stat) -> (value: i128)
        ensures
            value == full_stat(self@, game@.inventory, stat),
            -0x1_0000_0000_0000_0000_0000_0000 <= value <= 0x1_0000_0000_0000_0000_0000_0000,
    {
        let base: i32 = match &self.fighter {
            Some(f) => match stat {
                Stat::Power => f.base_power,
                Stat::Defense => f.base_defense,
                Stat::MaxHp => f.base_max_hp,
            },
            None => 0,
        };
        let worn = self.get_all_equipped(game);
        let extra = sum_bonus(&worn, stat);
        let count: usize = worn.len();
        proof {
            lemma_bonus_sum_bounded(equipment_views(worn@), stat);
            assert(equipment_views(worn@).len() == count);
            assert(count <= 0xffff_ffff_ffff_ffff);
        }
        base as i128 + extra
    }

    fn full(&self, game: &Game, stat: Stat) -> (value: i32)
        requires
            fits_i32(full_stat(self@, game@.inventory, stat)),
        ensures
            value == full_stat(self@, game@.inventory, stat),
    {
        self.full_wide(game, stat) as i32
    }

    /// The effective power: the base power plus the bonuses of all worn
    /// equipment.
    pub fn full_power(&self, game: &Game) -> (value: i32)
        requires
            fits_i32(full_stat(self@, game@.inventory, Stat::Power)),
        ensures
            value == full_stat(self@, game@.inventory, Stat::Power),
    {
        self.full(game, Stat::Power)
    }

    /// The effective defense: the base defense plus the bonuses of all
    /// worn equipment.
    pub fn full_defense(&self, game: &Game) -> (value: i32)
        requires
            fits_i32(full_stat(self@, game@.inventory, Stat::Defense)),
        ensures
            value == full_stat(self@, game@.inventory, Stat::Defense),
    {
        self.full(game, Stat::Defense)
    }

    /// The effective maximum of hit points: the base maximum plus the
    /// bonuses of all worn equipment.
    pub fn full_max_hp(&self, game: &Game) -> (value: i32)
        requires
            fits_i32(full_stat(self@, game@.inventory, Stat::MaxHp)),
        ensures
            value == full_stat(self@, game@.inventory, Stat::MaxHp),
    {
        self.full(game, Stat::MaxHp)
    }
}

} // verus!
