//! Wording of the messages shown to the player.

use vstd::prelude::*;

verus! {

/// The character that writes the digit `d`.
pub open spec fn digit_char(d: int) -> char {
    if d == 0 {
        '0'
    } else if d == 1 {
        '1'
    } else if d == 2 {
        '2'
    } else if d == 3 {
        '3'
    } else if d == 4 {
        '4'
    } else if d == 5 {
        '5'
    } else if d == 6 {
        '6'
    } else if d == 7 {
        '7'
    } else if d == 8 {
        '8'
    } else {
        '9'
    }
}

/// Decimal digits of a natural number, most significant first.
pub open spec fn decimal_nat(n: nat) -> Seq<char>
    decreases n,
{
    if n < 10 {
        seq![digit_char(n as int)]
    } else {
        decimal_nat(n / 10).push(digit_char((n % 10) as int))
    }
}

/// Decimal notation of an integer, with a leading minus sign below zero.
pub open spec fn decimal(n: int) -> Seq<char> {
    if n < 0 {
        seq!['-'] + decimal_nat((-n) as nat)
    } else {
        decimal_nat(n as nat)
    }
}

fn digit_str(d: u32) -> (s: &'static str)
    requires
        d < 10,
    ensures
        s@ == seq![digit_char(d as int)],
{
    proof {
        reveal_strlit("0");
        reveal_strlit("1");
        reveal_strlit("2");
        reveal_strlit("3");
        reveal_strlit("4");
        reveal_strlit("5");
        reveal_strlit("6");
        reveal_strlit("7");
        reveal_strlit("8");
        reveal_strlit("9");
    }
    let s = if d == 0 {
        "0"
    } else if d == 1 {
        "1"
    } else if d == 2 {
        "2"
    } else if d == 3 {
        "3"
    } else if d == 4 {
        "4"
    } else if d == 5 {
        "5"
    } else if d == 6 {
        "6"
    } else if d == 7 {
        "7"
    } else if d == 8 {
        "8"
    } else {
        "9"
    };
    assert(s@ =~= seq![digit_char(d as int)]);
    s
}

fn push_decimal(s: &mut String, n: u32)
    ensures
        final(s)@ == old(s)@ + decimal_nat(n as nat),
    decreases n,
{
    if n >= 10 {
        push_decimal(s, n / 10);
    }
    s.append(digit_str(n % 10));
    assert(s@ =~= old(s)@ + decimal_nat(n as nat));
}

/// Appends the decimal notation of `n` to `s`.
pub fn push_number(s: &mut String, n: i32)
    ensures
        final(s)@ == old(s)@ + decimal(n as int),
{
    if n < 0 {
        s.append("-");
        proof {
            reveal_strlit("-");
            assert("-"@ =~= seq!['-']);
        }
        let wide: i64 = n as i64;
        let magnitude: u32 = (-wide) as u32;
        push_decimal(s, magnitude);
        assert(s@ =~= old(s)@ + decimal(n as int));
    } else {
        push_decimal(s, n as u32);
    }
}

/// The decimal notation of `n`.
pub fn number_text(n: i32) -> (s: String)
    ensures
        s@ == decimal(n as int),
{
    let mut s = String::new();
    push_number(&mut s, n);
    assert(s@ =~= decimal(n as int));
    s
}

/// Whether two pieces of text are the same.
pub fn same_text(a: &str, b: &str) -> (r: bool)
    ensures
        r == (a@ == b@),
{
    let left = String::from_str(a);
    let right = String::from_str(b);
    left == right
}

/// What is said when an attack lands.
pub open spec fn hit_text(attacker: Seq<char>, target: Seq<char>, damage: int) -> Seq<char> {
    attacker + " attacks "@ + target + " for "@ + decimal(damage) + " hit points."@
}

/// What is said when an attack lands.
pub fn hit_message(attacker: &str, target: &str, damage: i32) -> (s: String)
    ensures
        s@ == hit_text(attacker@, target@, damage as int),
{
    let mut s = String::from_str(attacker);
    s.append(" attacks ");
    s.append(target);
    s.append(" for ");
    push_number(&mut s, damage);
    s.append(" hit points.");
    s
}

/// What is said when an attack does no harm.
pub open spec fn no_effect_text(attacker: Seq<char>, target: Seq<char>) -> Seq<char> {
    attacker + " attacks "@ + target + " but it has no effect!"@
}

/// What is said when an attack does no harm.
pub fn no_effect_message(attacker: &str, target: &str) -> (s: String)
    ensures
        s@ == no_effect_text(attacker@, target@),
{
    let mut s = String::from_str(attacker);
    s.append(" attacks ");
    s.append(target);
    s.append(" but it has no effect!");
    s
}

/// What is said when there is no room for another item.
pub open spec fn inventory_full_text(name: Seq<char>) -> Seq<char> {
    "Your inventory is full, cannot pick up "@ + name + "."@
}

/// What is said when there is no room for another item.
pub fn inventory_full_message(name: &str) -> (s: String)
    ensures
        s@ == inventory_full_text(name@),
{
    let mut s = String::from_str("Your inventory is full, cannot pick up ");
    s.append(name);
    s.append(".");
    s
}

/// What is said when an item is picked up.
pub open spec fn picked_up_text(name: Seq<char>) -> Seq<char> {
    "You picked up a "@ + name + "!"@
}

/// What is said when an item is picked up.
pub fn picked_up_message(name: &str) -> (s: String)
    ensures
        s@ == picked_up_text(name@),
{
    let mut s = String::from_str("You picked up a ");
    s.append(name);
    s.append("!");
    s
}

/// What is said of an object that has no use.
pub open spec fn cannot_be_used_text(name: Seq<char>) -> Seq<char> {
    "The "@ + name + " cannot be used."@
}

/// What is said of an object that has no use.
pub fn cannot_be_used_message(name: &str) -> (s: String)
    ensures
        s@ == cannot_be_used_text(name@),
{
    let mut s = String::from_str("The ");
    s.append(name);
    s.append(" cannot be used.");
    s
}

/// What is said when an item is dropped.
pub open spec fn dropped_text(name: Seq<char>) -> Seq<char> {
    "You dropped a "@ + name + "."@
}

/// What is said when an item is dropped.
pub fn dropped_message(name: &str) -> (s: String)
    ensures
        s@ == dropped_text(name@),
{
    let mut s = String::from_str("You dropped a ");
    s.append(name);
    s.append(".");
    s
}

/// What is said when an item is put on.
pub open spec fn equipped_text(name: Seq<char>, slot: Seq<char>) -> Seq<char> {
    "Equipped "@ + name + " on "@ + slot + "."@
}

/// What is said when an item is put on.
pub fn equipped_message(name: &str, slot: &str) -> (s: String)
    ensures
        s@ == equipped_text(name@, slot@),
{
    let mut s = String::from_str("Equipped ");
    s.append(name);
    s.append(" on ");
    s.append(slot);
    s.append(".");
    s
}

/// What is said when an item is taken off.
pub open spec fn dequipped_text(name: Seq<char>, slot: Seq<char>) -> Seq<char> {
    "Dequipped "@ + name + " from "@ + slot + "."@
}

/// What is said when an item is taken off.
pub fn dequipped_message(name: &str, slot: &str) -> (s: String)
    ensures
        s@ == dequipped_text(name@, slot@),
{
    let mut s = String::from_str("Dequipped ");
    s.append(name);
    s.append(" from ");
    s.append(slot);
    s.append(".");
    s
}

/// What is said when confusion wears off.
pub open spec fn no_longer_confused_text(name: Seq<char>) -> Seq<char> {
    "The "@ + name + " is no longer confused!"@
}

/// What is said when confusion wears off.
pub fn no_longer_confused_message(name: &str) -> (s: String)
    ensures
        s@ == no_longer_confused_text(name@),
{
    let mut s = String::from_str("The ");
    s.append(name);
    s.append(" is no longer confused!");
    s
}

/// What is said when the player reaches a level.
pub open spec fn level_reached_text(level: int) -> Seq<char> {
    "Your battle skills grow stronger! You reached level "@ + decimal(level) + "!"@
}

/// What is said when the player reaches a level.
pub fn level_reached_message(level: i32) -> (s: String)
    ensures
        s@ == level_reached_text(level as int),
{
    let mut s = String::from_str("Your battle skills grow stronger! You reached level ");
    push_number(&mut s, level);
    s.append("!");
    s
}

/// What is said when a monster dies.
pub open spec fn monster_dead_text(name: Seq<char>, xp: int) -> Seq<char> {
    name + " is dead! You gain "@ + decimal(xp) + " experience points."@
}

/// What is said when a monster dies.
pub fn monster_dead_message(name: &str, xp: i32) -> (s: String)
    ensures
        s@ == monster_dead_text(name@, xp as int),
{
    let mut s = String::from_str(name);
    s.append(" is dead! You gain ");
    push_number(&mut s, xp);
    s.append(" experience points.");
    s
}

/// What is said when lightning strikes a monster.
pub open spec fn lightning_strike_text(name: Seq<char>, damage: int) -> Seq<char> {
    "A lightning bolt strikes the "@ + name + " with a loud thunder! The damage is "@ + decimal(damage) + " hit points."@
}

/// What is said when lightning strikes a monster.
pub fn lightning_strike_message(name: &str, damage: i32) -> (s: String)
    ensures
        s@ == lightning_strike_text(name@, damage as int),
{
    let mut s = String::from_str("A lightning bolt strikes the ");
    s.append(name);
    s.append(" with a loud thunder! The damage is ");
    push_number(&mut s, damage);
    s.append(" hit points.");
    s
}

/// What is said when a fireball goes off.
pub open spec fn fireball_explodes_text(radius: int) -> Seq<char> {
    "The fireball explodes, burning everything within "@ + decimal(radius) + " tiles!"@
}

/// What is said when a fireball goes off.
pub fn fireball_explodes_message(radius: i32) -> (s: String)
    ensures
        s@ == fireball_explodes_text(radius as int),
{
    let mut s = String::from_str("The fireball explodes, burning everything within ");
    push_number(&mut s, radius);
    s.append(" tiles!");
    s
}

/// What is said of each object a fireball burns.
pub open spec fn burned_text(name: Seq<char>, damage: int) -> Seq<char> {
    "The "@ + name + " gets burned for "@ + decimal(damage) + " hit points."@
}

/// What is said of each object a fireball burns.
pub fn burned_message(name: &str, damage: i32) -> (s: String)
    ensures
        s@ == burned_text(name@, damage as int),
{
    let mut s = String::from_str("The ");
    s.append(name);
    s.append(" gets burned for ");
    push_number(&mut s, damage);
    s.append(" hit points.");
    s
}

/// What is said when a monster becomes confused.
pub open spec fn confused_text(name: Seq<char>) -> Seq<char> {
    "The eyes of the "@ + name + " look vacant, as he starts to stumble around!"@
}

/// What is said when a monster becomes confused.
pub fn confused_message(name: &str) -> (s: String)
    ensures
        s@ == confused_text(name@),
{
    let mut s = String::from_str("The eyes of the ");
    s.append(name);
    s.append(" look vacant, as he starts to stumble around!");
    s
}

/// The name of what a dead monster leaves behind.
pub open spec fn remains_text(name: Seq<char>) -> Seq<char> {
    "remains of "@ + name
}

/// The name of what a dead monster leaves behind.
pub fn remains_message(name: &str) -> (s: String)
    ensures
        s@ == remains_text(name@),
{
    let mut s = String::from_str("remains of ");
    s.append(name);
    s
}

/// How a worn item is listed in the inventory.
pub open spec fn worn_item_text(name: Seq<char>, slot: Seq<char>) -> Seq<char> {
    name + " (on "@ + slot + ")"@
}

/// How a worn item is listed in the inventory.
pub fn worn_item_message(name: &str, slot: &str) -> (s: String)
    ensures
        s@ == worn_item_text(name@, slot@),
{
    let mut s = String::from_str(name);
    s.append(" (on ");
    s.append(slot);
    s.append(")");
    s
}

/// The level-up choice of more hit points.
pub open spec fn constitution_option_text(max_hp: int) -> Seq<char> {
    "Constitution (+20 HP, from "@ + decimal(max_hp) + ")"@
}

/// The level-up choice of more hit points.
pub fn constitution_option_message(max_hp: i32) -> (s: String)
    ensures
        s@ == constitution_option_text(max_hp as int),
{
    let mut s = String::from_str("Constitution (+20 HP, from ");
    push_number(&mut s, max_hp);
    s.append(")");
    s
}

/// The level-up choice of more power.
pub open spec fn strength_option_text(power: int) -> Seq<char> {
    "Strength (+1 attack, from "@ + decimal(power) + ")"@
}

/// The level-up choice of more power.
pub fn strength_option_message(power: i32) -> (s: String)
    ensures
        s@ == strength_option_text(power as int),
{
    let mut s = String::from_str("Strength (+1 attack, from ");
    push_number(&mut s, power);
    s.append(")");
    s
}

/// The level-up choice of more defense.
pub open spec fn agility_option_text(defense: int) -> Seq<char> {
    "Agility (+1 defense, from "@ + decimal(defense) + ")"@
}

/// The level-up choice of more defense.
pub fn agility_option_message(defense: i32) -> (s: String)
    ensures
        s@ == agility_option_text(defense as int),
{
    let mut s = String::from_str("Agility (+1 defense, from ");
    push_number(&mut s, defense);
    s.append(")");
    s
}

/// The character's statistics, as shown on request.
pub open spec fn character_sheet_text(level: int, xp: int, level_up_xp: int, max_hp: int, power: int, defense: int) -> Seq<char> {
    "Character information

Level: "@ + decimal(level) + "
Experience: "@ + decimal(xp) + "
Experience to level up: "@ + decimal(level_up_xp) + "

Maximum HP: "@ + decimal(max_hp) + "
Attack: "@ + decimal(power) + "
Defense: "@ + decimal(defense)
}

/// The character's statistics, as shown on request.
pub fn character_sheet_message(level: i32, xp: i32, level_up_xp: i32, max_hp: i32, power: i32, defense: i32) -> (s: String)
    ensures
        s@ == character_sheet_text(level as int, xp as int, level_up_xp as int, max_hp as int, power as int, defense as int),
{
    let mut s = String::from_str("Character information

Level: ");
    push_number(&mut s, level);
    s.append("
Experience: ");
    push_number(&mut s, xp);
    s.append("
Experience to level up: ");
    push_number(&mut s, level_up_xp);
    s.append("

Maximum HP: ");
    push_number(&mut s, max_hp);
    s.append("
Attack: ");
    push_number(&mut s, power);
    s.append("
Defense: ");
    push_number(&mut s, defense);
    s
}

/// The depth, as shown beside the map.
pub open spec fn dungeon_level_text(level: int) -> Seq<char> {
    "Dungeon level: "@ + decimal(level)
}

/// The depth, as shown beside the map.
pub fn dungeon_level_message(level: i32) -> (s: String)
    ensures
        s@ == dungeon_level_text(level as int),
{
    let mut s = String::from_str("Dungeon level: ");
    push_number(&mut s, level);
    s
}

/// The caption of a bar that shows a value out of a maximum.
pub open spec fn bar_label_text(name: Seq<char>, value: int, maximum: int) -> Seq<char> {
    name + ": "@ + decimal(value) + "/"@ + decimal(maximum)
}

/// The caption of a bar that shows a value out of a maximum.
pub fn bar_label_message(name: &str, value: i32, maximum: i32) -> (s: String)
    ensures
        s@ == bar_label_text(name@, value as int, maximum as int),
{
    let mut s = String::from_str(name);
    s.append(": ");
    push_number(&mut s, value);
    s.append("/");
    push_number(&mut s, maximum);
    s
}

} // verus!
