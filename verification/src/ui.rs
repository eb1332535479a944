//! What the presentation layer asks of the core: which option a key selects, which
//! entities lie under the cursor, and in which order entities are drawn.

use vstd::prelude::*;
use crate::fov::FovMap;
use crate::inventory::INVENTORY_CAPACITY;
use crate::object::{views, Object, ObjectView};

verus! {

/// The largest number of options that a menu can offer: one for each letter.
pub const MENU_CAPACITY: usize = 26;

/// The position of `c` in the alphabet, counted from zero, if `c` is one of the letters
/// `a` to `z` in either case.
pub open spec fn letter_index(c: char) -> Option<int> {
    if 'a' <= c <= 'z' {
        Some(c as int - 'a' as int)
    } else if 'A' <= c <= 'Z' {
        Some(c as int - 'A' as int)
    } else {
        None
    }
}

/// The option that the key `c` selects in a menu of `option_count` options.
pub open spec fn selected(c: char, option_count: int) -> Option<usize> {
    match letter_index(c) {
        Some(i) => if i < option_count {
            Some(i as usize)
        } else {
            None
        },
        None => None,
    }
}

/// The letter that stands before option `index` of a menu.
pub open spec fn spec_menu_letter(index: int) -> char {
    ('a' as int + index) as char
}

/// The letter that stands before option `index` of a menu.
pub fn menu_letter(index: usize) -> (c: char)
    requires
        index < MENU_CAPACITY,
    ensures
        c == spec_menu_letter(index as int),
        selected(c, MENU_CAPACITY as int) == Some(index),
{
    let code: u8 = 97 + index as u8;
    code as char
}

/// Decodes a key into the index of the option that it selects, if any.
pub fn menu_index(printable: char, option_count: usize) -> (r: Option<usize>)
    requires
        option_count <= MENU_CAPACITY,
    ensures
        r == selected(printable, option_count as int),
{
    let code: u32 = printable as u32;
    let index: usize = if 97 <= code && code <= 122 {
        (code - 97) as usize
    } else if 65 <= code && code <= 90 {
        (code - 65) as usize
    } else {
        return None;
    };
    if index < option_count {
        Some(index)
    } else {
        None
    }
}

/// Pressing the letter of an option selects that option, in either case of the letter.
pub proof fn letter_selects_its_option(index: int, option_count: int)
    requires
        0 <= index < option_count <= MENU_CAPACITY,
    ensures
        selected(spec_menu_letter(index), option_count) == Some(index as usize),
        selected(('A' as int + index) as char, option_count) == Some(index as usize),
{
}

/// The inventory entry that the key `c` selects: none while the inventory is empty.
pub open spec fn inventory_selected(c: char, inventory_len: int) -> Option<usize> {
    if inventory_len == 0 {
        None
    } else {
        selected(c, inventory_len)
    }
}

/// Decodes a key pressed in the inventory menu.
pub fn inventory_index(printable: char, inventory: &Vec<Object>) -> (r: Option<usize>)
    requires
        inventory@.len() <= INVENTORY_CAPACITY,
    ensures
        r == inventory_selected(printable, inventory@.len() as int),
        r is Some ==> r->0 < inventory@.len(),
{
    if inventory.len() == 0 {
        None
    } else {
        menu_index(printable, inventory.len())
    }
}

/// The names of a sequence of strings.
pub open spec fn string_views(names: Seq<String>) -> Seq<Seq<char>> {
    names.map_values(|s: String| s@)
}

/// The names of a sequence of entities.
pub open spec fn names_of(objects: Seq<ObjectView>) -> Seq<Seq<char>> {
    objects.map_values(|v: ObjectView| v.name)
}

/// The placeholder that the inventory menu shows while the inventory is empty.
pub open spec fn empty_inventory_label() -> Seq<char> {
    "Inventory is empty"@
}

/// The lines of the inventory menu: the names of the items, or one placeholder.
pub open spec fn inventory_lines(inventory: Seq<ObjectView>) -> Seq<Seq<char>> {
    if inventory.len() == 0 {
        seq![empty_inventory_label()]
    } else {
        names_of(inventory)
    }
}

/// Lists the lines of the inventory menu.
pub fn inventory_options(inventory: &Vec<Object>) -> (options: Vec<String>)
    ensures
        string_views(options@) == inventory_lines(views(inventory@)),
{
    let mut options: Vec<String> = Vec::new();
    if inventory.len() == 0 {
        options.push("Inventory is empty".to_owned());
        assert(string_views(options@) =~= inventory_lines(views(inventory@)));
        return options;
    }
    let mut i: usize = 0;
    while i < inventory.len()
        invariant
            i <= inventory@.len(),
            string_views(options@) == names_of(views(inventory@)).take(i as int),
        decreases inventory@.len() - i,
    {
        let ghost before = string_views(options@);
        options.push(inventory[i].name.clone());
        assert(string_views(options@) =~= before.push(inventory@[i as int].name@));
        assert(names_of(views(inventory@))[i as int] == inventory@[i as int].name@);
        assert(before.push(inventory@[i as int].name@) =~= names_of(views(inventory@)).take(
            i as int + 1,
        ));
        i += 1;
    }
    assert(names_of(views(inventory@)).take(i as int) =~= names_of(views(inventory@)));
    options
}

/// Whether entity `v` lies at `(x, y)` and the observer sees that tile.
pub open spec fn seen_here(v: ObjectView, fov: &FovMap, x: int, y: int) -> bool {
    v.is_at(x, y) && fov.sees(x, y)
}

/// The names of the first `upto` entities that lie at `(x, y)` in view, in registry order.
pub open spec fn names_here(
    objects: Seq<ObjectView>,
    fov: &FovMap,
    x: int,
    y: int,
    upto: int,
) -> Seq<Seq<char>>
    decreases upto,
{
    if upto <= 0 {
        seq![]
    } else if seen_here(objects[upto - 1], fov, x, y) {
        names_here(objects, fov, x, y, upto - 1).push(objects[upto - 1].name)
    } else {
        names_here(objects, fov, x, y, upto - 1)
    }
}

/// The separator between two names.
pub open spec fn name_separator() -> Seq<char> {
    ", "@
}

/// The first `upto` of `names` in one line, separated by commas.
pub open spec fn joined(names: Seq<Seq<char>>, upto: int) -> Seq<char>
    decreases upto,
{
    if upto <= 0 {
        seq![]
    } else if upto == 1 {
        names[0]
    } else {
        joined(names, upto - 1) + name_separator() + names[upto - 1]
    }
}

/// Lists the names of the entities that lie at `(x, y)` and are in view.
pub fn names_at(x: i32, y: i32, objects: &Vec<Object>, fov_map: &FovMap) -> (names: Vec<String>)
    requires
        fov_map.wf(),
        fov_map.in_bounds(x as int, y as int),
    ensures
        string_views(names@) == names_here(
            views(objects@),
            fov_map,
            x as int,
            y as int,
            objects@.len() as int,
        ),
{
    let mut names: Vec<String> = Vec::new();
    let visible: bool = fov_map.is_in_fov(x, y);
    let mut i: usize = 0;
    proof {
        assert(string_views(names@) =~= names_here(views(objects@), fov_map, x as int, y as int, 0));
    }
    while i < objects.len()
        invariant
            i <= objects@.len(),
            visible == fov_map.sees(x as int, y as int),
            string_views(names@) == names_here(
                views(objects@),
                fov_map,
                x as int,
                y as int,
                i as int,
            ),
        decreases objects@.len() - i,
    {
        if objects[i].x == x && objects[i].y == y && visible {
            let ghost before = string_views(names@);
            names.push(objects[i].name.clone());
            assert(string_views(names@) =~= before.push(objects@[i as int].name@));
        }
        i += 1;
    }
    names
}

/// Joins names into one line, separated by commas.
pub fn join_names(names: &Vec<String>) -> (line: String)
    ensures
        line@ == joined(string_views(names@), names@.len() as int),
{
    let mut line: String = String::new();
    let mut i: usize = 0;
    while i < names.len()
        invariant
            i <= names@.len(),
            line@ == joined(string_views(names@), i as int),
        decreases names@.len() - i,
    {
        if i > 0 {
            line.append(", ");
        }
        line.append(names[i].as_str());
        proof {
            assert(string_views(names@)[i as int] == names@[i as int]@);
            if i == 0 {
                assert(line@ =~= names@[0]@);
            }
        }
        i += 1;
    }
    line
}

/// Whether entity `v` is drawn in the pass for blocking entities, or in the pass for the
/// others: it is drawn if the observer sees its tile.
pub open spec fn drawn_in_pass(v: ObjectView, fov: &FovMap, blocking: bool) -> bool {
    v.blocks == blocking && fov.sees(v.x as int, v.y as int)
}

/// The indices below `upto` of the entities drawn in one pass, in registry order.
pub open spec fn pass_order(
    objects: Seq<ObjectView>,
    fov: &FovMap,
    blocking: bool,
    upto: int,
) -> Seq<usize>
    decreases upto,
{
    if upto <= 0 {
        seq![]
    } else if drawn_in_pass(objects[upto - 1], fov, blocking) {
        pass_order(objects, fov, blocking, upto - 1).push((upto - 1) as usize)
    } else {
        pass_order(objects, fov, blocking, upto - 1)
    }
}

/// Whether every entity stands on a tile of the tracker.
pub open spec fn all_on_map(objects: Seq<ObjectView>, fov: &FovMap) -> bool {
    forall|i: int|
        0 <= i < objects.len() ==> fov.in_bounds(
            (#[trigger] objects[i]).x as int,
            objects[i].y as int,
        )
}

/// Lists the entities to draw, by index: those in view, the ones that do not block first
/// so that blocking entities are drawn over them, each group in registry order.
pub fn draw_order(objects: &Vec<Object>, fov_map: &FovMap) -> (order: Vec<usize>)
    requires
        fov_map.wf(),
        all_on_map(views(objects@), fov_map),
    ensures
        order@ == pass_order(views(objects@), fov_map, false, objects@.len() as int) + pass_order(
            views(objects@),
            fov_map,
            true,
            objects@.len() as int,
        ),
{
    let mut order: Vec<usize> = Vec::new();
    let mut i: usize = 0;
    while i < objects.len()
        invariant
            fov_map.wf(),
            all_on_map(views(objects@), fov_map),
            i <= objects@.len(),
            order@ == pass_order(views(objects@), fov_map, false, i as int),
        decreases objects@.len() - i,
    {
        assert(fov_map.in_bounds(views(objects@)[i as int].x as int, views(objects@)[i as int].y as int));
        if !objects[i].blocks && fov_map.is_in_fov(objects[i].x, objects[i].y) {
            order.push(i);
        }
        i += 1;
    }
    let ghost first = order@;
    let mut j: usize = 0;
    proof {
        assert(order@ =~= first + pass_order(views(objects@), fov_map, true, 0));
    }
    while j < objects.len()
        invariant
            fov_map.wf(),
            all_on_map(views(objects@), fov_map),
            j <= objects@.len(),
            order@ == first + pass_order(views(objects@), fov_map, true, j as int),
        decreases objects@.len() - j,
    {
        assert(fov_map.in_bounds(views(objects@)[j as int].x as int, views(objects@)[j as int].y as int));
        if objects[j].blocks && fov_map.is_in_fov(objects[j].x, objects[j].y) {
            order.push(j);
            assert(order@ =~= first + pass_order(views(objects@), fov_map, true, j as int + 1));
        }
        j += 1;
    }
    order
}

} // verus!
