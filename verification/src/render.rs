//! What the core computes for its renderer and menu surface: the draw
//! order of visible entities, the inventory option labels, and the
//! letter-to-slot selection mapping.

use vstd::prelude::*;
use vstd::string::StringExecFns;

use crate::grid::Fov;
use crate::object::{object_wf, Object};

verus! {

/// The indices below `n` of entities that are visible and whose `blocks`
/// flag equals `want_blocks`, in increasing order.
pub open spec fn visible_idxs(objs: Seq<Object>, fov: Fov, want_blocks: bool, n: int) -> Seq<
    usize,
>
    decreases n,
{
    if n <= 0 {
        Seq::empty()
    } else {
        let rest = visible_idxs(objs, fov, want_blocks, n - 1);
        let i = n - 1;
        if fov.spec_visible(objs[i].x as int, objs[i].y as int) && objs[i].blocks == want_blocks {
            rest.push(i as usize)
        } else {
            rest
        }
    }
}

/// The order entities are drawn in: every currently visible entity,
/// non-blocking ones first, blocking ones after them (so they render on
/// top), each class in entity-list order.
pub fn draw_order(objects: &Vec<Object>, fov: &Fov) -> (r: Vec<usize>)
    requires
        fov.wf(),
        forall|i: int| 0 <= i < objects@.len() ==> object_wf(#[trigger] objects@[i]),
    ensures
        r@ == visible_idxs(objects@, *fov, false, objects@.len() as int) + visible_idxs(
            objects@,
            *fov,
            true,
            objects@.len() as int,
        ),
{
    let mut r: Vec<usize> = Vec::new();
    let mut i: usize = 0;
    while i < objects.len()
        invariant
            fov.wf(),
            forall|k: int| 0 <= k < objects@.len() ==> object_wf(#[trigger] objects@[k]),
            i <= objects@.len(),
            r@ == visible_idxs(objects@, *fov, false, i as int),
        decreases objects@.len() - i,
    {
        let o = &objects[i];
        if fov.is_in_fov(o.x, o.y) && !o.blocks {
            r.push(i);
        }
        i = i + 1;
    }
    let ghost first = r@;
    let mut j: usize = 0;
    while j < objects.len()
        invariant
            fov.wf(),
            forall|k: int| 0 <= k < objects@.len() ==> object_wf(#[trigger] objects@[k]),
            j <= objects@.len(),
            r@ == first + visible_idxs(objects@, *fov, true, j as int),
        decreases objects@.len() - j,
    {
        let o = &objects[j];
        if fov.is_in_fov(o.x, o.y) && o.blocks {
            r.push(j);
        }
        j = j + 1;
    }
    r
}

/// The option labels the inventory menu shows: one line per carried item,
/// in inventory order, or a single placeholder line when the inventory is
/// empty.
pub fn inventory_options(inventory: &Vec<Object>) -> (r: Vec<String>)
    ensures
        if inventory@.len() == 0 {
            r@.len() == 1 && r@[0]@ == "Inventory is empty."@
        } else {
            r@.len() == inventory@.len() && forall|i: int|
                0 <= i < r@.len() ==> (#[trigger] r@[i])@ == inventory@[i].name@
        },
{
    let mut r: Vec<String> = Vec::new();
    if inventory.len() == 0 {
        r.push(String::from_str("Inventory is empty."));
    } else {
        let mut i: usize = 0;
        while i < inventory.len()
            invariant
                i <= inventory@.len(),
                r@.len() == i,
                forall|k: int| 0 <= k < i ==> (#[trigger] r@[k])@ == inventory@[k].name@,
            decreases inventory@.len() - i,
        {
            r.push(inventory[i].name.clone());
            i = i + 1;
        }
    }
    r
}

/// Whether pressing letter `c` addresses one of the first `n_options` menu
/// slots: `a` through `z` (either case) map one-to-one onto slots `0`
/// through `25`.
pub open spec fn spec_menu_hit(c: char, n_options: int) -> bool {
    let code = c as int;
    // 97..=122 is 'a'..='z'; 65..=90 is 'A'..='Z'.
    ||| (97 <= code <= 122 && code - 97 < n_options)
    ||| (65 <= code <= 90 && code - 65 < n_options)
}

/// The menu slot a pressed letter selects, if any: `a` through `z` (either
/// case) map one-to-one onto slots `0` through `n_options - 1`; anything
/// else, or a letter past the last option, selects nothing.
pub fn menu_letter_index(c: char, n_options: usize) -> (r: Option<usize>)
    requires
        n_options <= 26,
    ensures
        match r {
            Some(i) => ({
                let code = c as int;
                i < n_options && (97 <= code <= 122 && i == code - 97 || 65 <= code <= 90 && i
                    == code - 65)
            }),
            None => !spec_menu_hit(c, n_options as int),
        },
{
    let code = c as u32;
    let lower_a = 'a' as u32;
    let lower_z = 'z' as u32;
    let upper_a = 'A' as u32;
    let upper_z = 'Z' as u32;
    if lower_a <= code && code <= lower_z {
        let idx = (code - lower_a) as usize;
        if idx < n_options {
            Some(idx)
        } else {
            None
        }
    } else if upper_a <= code && code <= upper_z {
        let idx = (code - upper_a) as usize;
        if idx < n_options {
            Some(idx)
        } else {
            None
        }
    } else {
        None
    }
}

} // verus!
