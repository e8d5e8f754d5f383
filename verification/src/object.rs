//! The game object and its optional capabilities.

use vstd::prelude::*;
use crate::color::Color;
use crate::text::same_text;

verus! {

/// What happens to an object when its hit points run out.
#[derive(Clone, Copy, Debug, PartialEq, Eq, Structural)]
pub enum DeathCallback {
    Monster,
    Player,
}

/// Combat-related properties of an object: the player, a monster.
#[derive(Clone, Copy, Debug, PartialEq)]
pub struct Fighter {
    pub base_max_hp: i32,
    pub hp: i32,
    pub base_defense: i32,
    pub base_power: i32,
    pub xp: i32,
    pub death: Option<DeathCallback>,
}

/// How a monster behaves on its turn. A confused monster remembers the
/// behaviour it returns to once the confusion wears off.
#[derive(Debug, PartialEq)]
pub enum Ai {
    Basic,
    Confused { previous_ai: Option<Box<Ai>>, num_turns: i32 },
}

impl Clone for Ai {
    fn clone(&self) -> (copy: Ai)
        ensures
            copy == *self,
        decreases *self,
    {
        match self {
            Ai::Basic => Ai::Basic,
            Ai::Confused { previous_ai, num_turns } => {
                let previous = match previous_ai {
                    Some(inner) => Some(Box::new((**inner).clone())),
                    None => None,
                };
                Ai::Confused { previous_ai: previous, num_turns: *num_turns }
            },
        }
    }
}

/// The effect of an item that can be picked up and used. `Inert` marks an
/// item whose use is left entirely to its equipment capability.
#[derive(Clone, Copy, Debug, PartialEq, Eq, Structural)]
pub enum Item {
    Heal,
    Lightning,
    Fireball,
    Confuse,
    Inert,
}

/// Outcome of using an item.
#[derive(Clone, Copy, Debug, PartialEq, Eq, Structural)]
pub enum UseResult {
    Used,
    Cancelled,
}

/// An object that can be equipped for bonuses. Two items with the same
/// slot cannot be worn together.
#[derive(Debug, PartialEq)]
pub struct Equipment {
    pub slot: String,
    pub is_equipped: bool,
    pub power_bonus: i32,
    pub defense_bonus: i32,
    pub max_hp_bonus: i32,
}

/// An [`Equipment`] with its slot as plain text.
pub struct EquipmentView {
    pub slot: Seq<char>,
    pub is_equipped: bool,
    pub power_bonus: i32,
    pub defense_bonus: i32,
    pub max_hp_bonus: i32,
}

impl View for Equipment {
    type V = EquipmentView;

    open spec fn view(&self) -> EquipmentView {
        EquipmentView {
            slot: self.slot@,
            is_equipped: self.is_equipped,
            power_bonus: self.power_bonus,
            defense_bonus: self.defense_bonus,
            max_hp_bonus: self.max_hp_bonus,
        }
    }
}

impl Clone for Equipment {
    fn clone(&self) -> (copy: Equipment)
        ensures
            copy@ == self@,
    {
        Equipment {
            slot: self.slot.clone(),
            is_equipped: self.is_equipped,
            power_bonus: self.power_bonus,
            defense_bonus: self.defense_bonus,
            max_hp_bonus: self.max_hp_bonus,
        }
    }
}

/// The view of an optional equipment.
pub open spec fn equipment_view(e: Option<Equipment>) -> Option<EquipmentView> {
    match e {
        Some(e) => Some(e@),
        None => None,
    }
}

/// A generic object: the player, a monster, an item, the stairs. Its
/// identity is its index in the list that holds it.
#[derive(Debug, PartialEq)]
pub struct Object {
    pub x: i32,
    pub y: i32,
    pub glyph: char,
    pub name: String,
    pub color: Color,
    pub blocks: bool,
    pub always_visible: bool,
    pub level: i32,
    pub fighter: Option<Fighter>,
    pub ai: Option<Ai>,
    pub item: Option<Item>,
    pub equipment: Option<Equipment>,
}

/// An [`Object`] with its texts as plain sequences of characters.
pub struct ObjectView {
    pub x: i32,
    pub y: i32,
    pub glyph: char,
    pub name: Seq<char>,
    pub color: Color,
    pub blocks: bool,
    pub always_visible: bool,
    pub level: i32,
    pub fighter: Option<Fighter>,
    pub ai: Option<Ai>,
    pub item: Option<Item>,
    pub equipment: Option<EquipmentView>,
}

impl View for Object {
    type V = ObjectView;

    open spec fn view(&self) -> ObjectView {
        ObjectView {
            x: self.x,
            y: self.y,
            glyph: self.glyph,
            name: self.name@,
            color: self.color,
            blocks: self.blocks,
            always_visible: self.always_visible,
            level: self.level,
            fighter: self.fighter,
            ai: self.ai,
            item: self.item,
            equipment: equipment_view(self.equipment),
        }
    }
}

impl Clone for Object {
    fn clone(&self) -> (copy: Object)
        ensures
            copy@ == self@,
    {
        Object {
            x: self.x,
            y: self.y,
            glyph: self.glyph,
            name: self.name.clone(),
            color: self.color,
            blocks: self.blocks,
            always_visible: self.always_visible,
            level: self.level,
            fighter: self.fighter,
            ai: match &self.ai {
                Some(ai) => Some(ai.clone()),
                None => None,
            },
            item: self.item,
            equipment: match &self.equipment {
                Some(e) => Some(e.clone()),
                None => None,
            },
        }
    }
}

/// The views of a list of objects.
pub open spec fn views(objects: Seq<Object>) -> Seq<ObjectView> {
    Seq::new(objects.len(), |i: int| objects[i]@)
}

/// Square of the straight-line distance between two points of the grid.
pub open spec fn distance_squared(x1: int, y1: int, x2: int, y2: int) -> int {
    (x2 - x1) * (x2 - x1) + (y2 - y1) * (y2 - y1)
}

impl ObjectView {
    /// Whether the object goes by the player's name.
    pub open spec fn is_player(self) -> bool {
        self.name == "player"@
    }

    /// A bare object: no capabilities, level zero, hidden unless in view.
    pub open spec fn bare(x: i32, y: i32, glyph: char, name: Seq<char>, color: Color, blocks: bool) -> ObjectView {
        ObjectView {
            x,
            y,
            glyph,
            name,
            color,
            blocks,
            always_visible: false,
            level: 0,
            fighter: None,
            ai: None,
            item: None,
            equipment: None,
        }
    }
}

proof fn lemma_square_bounded(d: int)
    by (nonlinear_arith)
    requires
        -0x1_0000_0000 < d < 0x1_0000_0000,
    ensures
        0 <= d * d <= 0x1_0000_0000 * 0x1_0000_0000,
{
}

fn squared_distance(x1: i32, y1: i32, x2: i32, y2: i32) -> (d: u128)
    ensures
        d == distance_squared(x1 as int, y1 as int, x2 as int, y2 as int),
{
    let dx: i128 = x2 as i128 - x1 as i128;
    let dy: i128 = y2 as i128 - y1 as i128;
    proof {
        lemma_square_bounded(dx as int);
        lemma_square_bounded(dy as int);
    }
    let total: i128 = dx * dx + dy * dy;
    total as u128
}

impl Object {
    /// A bare object at `(x, y)`: no capabilities, level zero, hidden
    /// unless in view.
    pub fn new(x: i32, y: i32, glyph: char, name: &str, color: Color, blocks: bool) -> (o: Object)
        ensures
            o@ == ObjectView::bare(x, y, glyph, name@, color, blocks),
    {
        Object {
            x: x,
            y: y,
            glyph: glyph,
            name: name.to_owned(),
            color: color,
            blocks: blocks,
            always_visible: false,
            level: 0,
            fighter: None,
            ai: None,
            item: None,
            equipment: None,
        }
    }

    /// Whether the object goes by the player's name.
    pub fn is_player(&self) -> (b: bool)
        ensures
            b == self@.is_player(),
    {
        same_text(self.name.as_str(), "player")
    }

    /// The position of the object.
    pub fn pos(&self) -> (p: (i32, i32))
        ensures
            p == (self.x, self.y),
    {
        (self.x, self.y)
    }

    /// Moves the object to `(x, y)`.
    pub fn set_pos(&mut self, x: i32, y: i32)
        ensures
            final(self)@ == (ObjectView { x, y, ..old(self)@ }),
    {
        self.x = x;
        self.y = y;
    }

    /// The square of the distance to another object. Distances are
    /// compared through their squares, which are exact.
    pub fn distance_to(&self, other: &Object) -> (d: u128)
        ensures
            d == distance_squared(self.x as int, self.y as int, other.x as int, other.y as int),
    {
        squared_distance(self.x, self.y, other.x, other.y)
    }

    /// The square of the distance to some coordinates. Distances are
    /// compared through their squares, which are exact.
    pub fn distance(&self, x: i32, y: i32) -> (d: u128)
        ensures
            d == distance_squared(self.x as int, self.y as int, x as int, y as int),
    {
        squared_distance(self.x, self.y, x, y)
    }
}

} // verus!
