//! Menus: how options are lettered, which option a key picks, and how the
//! inventory is listed.

use crate::object::{views, worn, Object, ObjectView};
use vstd::prelude::*;

verus! {

/// The most options that a menu can hold: one per letter.
pub const MENU_CAPACITY: usize = 26;

/// The place in the alphabet, counted from 0, of the letter `key`, be it
/// small or capital.
pub open spec fn letter_index(key: char) -> Option<int> {
    if 'a' <= key <= 'z' {
        Some(key as int - 'a' as int)
    } else if 'A' <= key <= 'Z' {
        Some(key as int - 'A' as int)
    } else {
        None
    }
}

/// The option that `key` picks among `options` options: the one lettered
/// with it, if there is one.
pub open spec fn picked(key: char, options: int) -> Option<usize> {
    match letter_index(key) {
        Some(index) => if index < options {
            Some(index as usize)
        } else {
            None
        },
        None => None,
    }
}

/// The option that `key` picks in a menu of `options` options, which are
/// lettered from `a` on; capitals pick as small letters do.
pub fn menu_choice(key: char, options: usize) -> (choice: Option<usize>)
    requires
        options <= MENU_CAPACITY,
    ensures
        choice == picked(key, options as int),
{
    let code: u32 = key as u32;
    let index: u32 = if 'a' as u32 <= code && code <= 'z' as u32 {
        code - 'a' as u32
    } else if 'A' as u32 <= code && code <= 'Z' as u32 {
        code - 'A' as u32
    } else {
        return None;
    };
    if (index as usize) < options {
        Some(index as usize)
    } else {
        None
    }
}

/// The letter of option `index`.
pub open spec fn spec_menu_letter(index: int) -> char {
    (index + 'a' as int) as char
}

/// The letter of option `index`: `a` for the first, and so on.
pub fn menu_letter(index: usize) -> (letter: char)
    requires
        index < MENU_CAPACITY,
    ensures
        letter == spec_menu_letter(index as int),
{
    (index as u8 + 97u8) as char
}

/// The chosen place in the inventory: what the menu returned, unless the
/// inventory is empty, in which case the menu only said so.
pub fn inventory_choice(choice: Option<usize>, inventory: &Vec<Object>) -> (picked: Option<usize>)
    ensures
        picked == if inventory@.len() > 0 {
            choice
        } else {
            None
        },
{
    if inventory.len() > 0 {
        choice
    } else {
        None
    }
}

/// How `o` is listed in the inventory menu: by its name, followed by where
/// it is worn if it is.
pub open spec fn listed(o: ObjectView) -> Seq<char> {
    if worn(o) {
        o.name + " (on "@ + o.equipment->0.slot.spec_label() + ")"@
    } else {
        o.name
    }
}

/// The options of the inventory menu: one per item, or a single line that
/// says that there is none.
pub open spec fn inventory_lines(inventory: Seq<ObjectView>) -> Seq<Seq<char>> {
    if inventory.len() == 0 {
        seq!["Inventory is empty."@]
    } else {
        inventory.map_values(|o: ObjectView| listed(o))
    }
}

/// The options of the inventory menu.
pub fn inventory_options(inventory: &Vec<Object>) -> (options: Vec<String>)
    ensures
        options@.map_values(|s: String| s@) == inventory_lines(views(inventory@)),
{
    let mut options: Vec<String> = Vec::new();
    if inventory.len() == 0 {
        options.push(String::from_str("Inventory is empty."));
        return options;
    }
    let mut i: usize = 0;
    while i < inventory.len()
        invariant
            i <= inventory.len(),
            options@.len() == i,
            forall|k: int|
                0 <= k < i ==> (#[trigger] options@[k])@ == listed(views(inventory@)[k]),
        decreases inventory.len() - i,
    {
        let item = &inventory[i];
        let mut line = item.name.clone();
        match item.equipment {
            Some(e) => {
                if e.equipped {
                    line.append(" (on ");
                    line.append(e.slot.label());
                    line.append(")");
                }
            },
            None => {},
        }
        options.push(line);
        i += 1;
    }
    options
}

} // verus!
