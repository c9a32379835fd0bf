//! Dark-theme overrides of the Win32 system colour table.

use std::collections::HashMap;
use vstd::prelude::*;

verus! {

broadcast use vstd::std_specs::hash::group_hash_axioms;

/// The dark-theme overrides: pairs of a `GetSysColor` index and its colour.
pub open spec fn dark_theme_table() -> Seq<(i32, u32)> {
    seq![
        (0i32, 0x1a1a1au32),
        (3i32, 0x1a1a1au32),
        (4i32, 0x2d2d2du32),
        (5i32, 0x0000ffu32),
        (8i32, 0x2d2d2du32),
        (10i32, 0x646464u32),
        (11i32, 0xffffffu32),
        (12i32, 0x2d2d2du32),
        (13i32, 0x808080u32),
        (14i32, 0xccccccu32),
    ]
}

/// The colour of the first entry of `table` whose index is `idx`, if any.
pub open spec fn table_lookup(table: Seq<(i32, u32)>, idx: i32) -> Option<u32>
    decreases table.len(),
{
    if table.len() == 0 {
        None
    } else if table[0].0 == idx {
        Some(table[0].1)
    } else {
        table_lookup(table.drop_first(), idx)
    }
}

/// The colour returned for `GetSysColor(n_index)` while the hook is active.
pub open spec fn hooked_color(n_index: i32, original: Option<u32>) -> u32 {
    match table_lookup(dark_theme_table(), n_index) {
        Some(c) => c,
        None => match original {
            Some(o) => o,
            None => 0x1a1a1a,
        },
    }
}

/// The dark-theme override table.
pub fn dark_theme_colors() -> (table: Vec<(i32, u32)>)
    ensures
        table@ == dark_theme_table(),
{
    vec![
        (0, 0x1a1a1a),
        (3, 0x1a1a1a),
        (4, 0x2d2d2d),
        (5, 0x0000ff),
        (8, 0x2d2d2d),
        (10, 0x646464),
        (11, 0xffffff),
        (12, 0x2d2d2d),
        (13, 0x808080),
        (14, 0xcccccc),
    ]
}

/// Searches the dark-theme table for an override of `color_index`.
pub fn get_override_color(color_index: i32) -> (color: Option<u32>)
    ensures
        color == table_lookup(dark_theme_table(), color_index),
{
    let table = dark_theme_colors();
    let mut i: usize = 0;
    assert(table@.skip(0) =~= table@);
    while i < table.len()
        invariant
            0 <= i <= table@.len(),
            table@ == dark_theme_table(),
            table_lookup(table@, color_index) == table_lookup(table@.skip(i as int), color_index),
        decreases table@.len() - i,
    {
        let (idx, color) = table[i];
        assert(table@.skip(i as int)[0] == table@[i as int]);
        if idx == color_index {
            return Some(color);
        }
        assert(table@.skip(i as int).drop_first() =~= table@.skip(i + 1));
        i = i + 1;
    }
    assert(table@.skip(i as int).len() == 0);
    None
}

/// The colour an override map holds for `idx`, if any.
pub open spec fn override_in(m: Map<i32, u32>, idx: i32) -> Option<u32> {
    if m.contains_key(idx) {
        Some(m[idx])
    } else {
        None
    }
}

/// Appending an entry only matters for indices that the table did not have yet.
pub proof fn lemma_lookup_push(table: Seq<(i32, u32)>, entry: (i32, u32), idx: i32)
    ensures
        table_lookup(table.push(entry), idx) == match table_lookup(table, idx) {
            Some(c) => Some(c),
            None => if entry.0 == idx {
                Some(entry.1)
            } else {
                None
            },
        },
    decreases table.len(),
{
    reveal_with_fuel(table_lookup, 2);
    if table.len() > 0 {
        assert(table.push(entry)[0] == table[0]);
        assert(table.push(entry).drop_first() =~= table.drop_first().push(entry));
        lemma_lookup_push(table.drop_first(), entry, idx);
    } else {
        assert(table.push(entry).drop_first() =~= Seq::<(i32, u32)>::empty());
        assert(table.push(entry)[0] == entry);
    }
}

/// A lookup only succeeds for an index that occurs in the table.
pub proof fn lemma_lookup_some(table: Seq<(i32, u32)>, idx: i32)
    ensures
        table_lookup(table, idx) is Some ==> exists|j: int| 0 <= j < table.len() && table[j].0 == idx,
    decreases table.len(),
{
    if table.len() > 0 && table[0].0 != idx {
        lemma_lookup_some(table.drop_first(), idx);
        if table_lookup(table, idx) is Some {
            let j = choose|j: int| 0 <= j < table.drop_first().len() && table.drop_first()[j].0 == idx;
            assert(table[j + 1].0 == idx);
        }
    }
}

/// No index occurs twice in the dark-theme table.
pub proof fn lemma_dark_table_indices_distinct()
    ensures
        forall|i: int, j: int|
            0 <= i < j < dark_theme_table().len() ==> dark_theme_table()[i].0
                != dark_theme_table()[j].0,
{
}

/// Runtime-adjustable system colour overrides, seeded with the dark theme.
pub struct ThemeHandler {
    color_overrides: HashMap<i32, u32>,
}

impl View for ThemeHandler {
    type V = Map<i32, u32>;

    closed spec fn view(&self) -> Map<i32, u32> {
        self.color_overrides@
    }
}

impl ThemeHandler {
    /// Creates a handler holding every dark-theme override.
    pub fn new() -> (handler: Self)
        ensures
            forall|idx: i32| override_in(handler@, idx) == table_lookup(dark_theme_table(), idx),
    {
        let table = dark_theme_colors();
        let mut overrides: HashMap<i32, u32> = HashMap::new();
        let mut i: usize = 0;
        proof {
            lemma_dark_table_indices_distinct();
        }
        while i < table.len()
            invariant
                0 <= i <= table@.len(),
                table@ == dark_theme_table(),
                forall|a: int, b: int| 0 <= a < b < table@.len() ==> table@[a].0 != table@[b].0,
                forall|idx: i32|
                    override_in(overrides@, idx) == table_lookup(table@.take(i as int), idx),
            decreases table@.len() - i,
        {
            let (index, color) = table[i];
            let ghost before = overrides@;
            overrides.insert(index, color);
            assert(overrides@ == before.insert(index, color));
            assert(table@.take(i + 1) =~= table@.take(i as int).push(table@[i as int]));
            assert forall|idx: i32|
                override_in(overrides@, idx) == table_lookup(table@.take(i + 1), idx) by {
                assert(override_in(before, idx) == table_lookup(table@.take(i as int), idx));
                lemma_lookup_push(table@.take(i as int), table@[i as int], idx);
                if idx == index {
                    lemma_lookup_some(table@.take(i as int), idx);
                    if table_lookup(table@.take(i as int), idx) is Some {
                        let j = choose|j: int|
                            0 <= j < table@.take(i as int).len() && table@.take(i as int)[j].0
                                == idx;
                        assert(table@[j].0 == table@[i as int].0);
                    }
                }
            }
            i = i + 1;
        }
        assert(table@.take(table@.len() as int) =~= table@);
        ThemeHandler { color_overrides: overrides }
    }

    /// The override colour for `color_index`, or `None` when it is not overridden.
    pub fn get_override(&self, color_index: i32) -> (color: Option<u32>)
        ensures
            color == override_in(self@, color_index),
    {
        match self.color_overrides.get(&color_index) {
            Some(c) => Some(*c),
            None => None,
        }
    }

    /// Overrides `color_index` with `color`.
    pub fn set_override(&mut self, color_index: i32, color: u32) -> (result: Result<(), String>)
        ensures
            final(self)@ == old(self)@.insert(color_index, color),
            result is Ok,
    {
        self.color_overrides.insert(color_index, color);
        Ok(())
    }

    /// Removes every override, so that all indices fall back to the system colours.
    pub fn clear_overrides(&mut self) -> (result: Result<(), String>)
        ensures
            final(self)@ == Map::<i32, u32>::empty(),
            result is Ok,
    {
        self.color_overrides.clear();
        Ok(())
    }

    /// Applies the theme to a window given by its raw handle value.
    pub fn apply_to_window(&self, hwnd: isize) -> (result: Result<(), String>)
        ensures
            result is Ok,
    {
        Ok(())
    }
}

impl Default for ThemeHandler {
    fn default() -> (handler: Self)
        ensures
            forall|idx: i32| override_in(handler@, idx) == table_lookup(dark_theme_table(), idx),
    {
        ThemeHandler::new()
    }
}

/// Whether the hooked `GetSysColor` must ask the real function: only when
/// the dark-theme table has no override for `n_index`.
pub fn needs_original(n_index: i32) -> (b: bool)
    ensures
        b == (table_lookup(dark_theme_table(), n_index) is None),
{
    get_override_color(n_index).is_none()
}

/// The colour that the hooked `GetSysColor` answers: the dark-theme override
/// when there is one, else what the original function returned (`original`),
/// else a neutral dark colour when the original is not known.
pub fn sys_color_for(n_index: i32, original: Option<u32>) -> (color: u32)
    ensures
        color == hooked_color(n_index, original),
{
    match get_override_color(n_index) {
        Some(c) => c,
        None => match original {
            Some(o) => o,
            None => 0x1a1a1a,
        },
    }
}

/// After `set_override(idx, color)` (which turns `before` into `after`), a
/// read of `idx` gives back `color`, and every other index reads as before.
pub proof fn law_set_then_get(
    before: ThemeHandler,
    after: ThemeHandler,
    idx: i32,
    color: u32,
    other: i32,
)
    requires
        after@ == before@.insert(idx, color),
    ensures
        override_in(after@, idx) == Some(color),
        other != idx ==> override_in(after@, other) == override_in(before@, other),
{
}

/// After `clear_overrides` no index is overridden.
pub proof fn law_cleared_has_no_override(cleared: ThemeHandler, idx: i32)
    requires
        cleared@ == Map::<i32, u32>::empty(),
    ensures
        override_in(cleared@, idx) is None,
{
}

/// The hooked `GetSysColor` answers the table colour for every index of the
/// dark-theme table, whatever the real function would return.
pub proof fn law_hook_answers_table_colours(i: int, original: Option<u32>)
    requires
        0 <= i < dark_theme_table().len(),
    ensures
        hooked_color(dark_theme_table()[i].0, original) == dark_theme_table()[i].1,
{
    law_table_entries_are_overrides(i);
}

/// The dark-theme overrides, index by index: window text and window
/// 0x1a1a1a, window frame 0x2d2d2d, menu text 0x0000ff, menu highlight
/// 0x2d2d2d, highlight 0x646464, highlight text 0xffffff, button face
/// 0x2d2d2d, button shadow 0x808080, button text 0xcccccc; no other index
/// is overridden.
pub proof fn law_dark_overrides_by_index(idx: i32)
    ensures
        table_lookup(dark_theme_table(), idx) == if idx == 0 {
            Some(0x1a1a1au32)
        } else if idx == 3 {
            Some(0x1a1a1au32)
        } else if idx == 4 {
            Some(0x2d2d2du32)
        } else if idx == 5 {
            Some(0x0000ffu32)
        } else if idx == 8 {
            Some(0x2d2d2du32)
        } else if idx == 10 {
            Some(0x646464u32)
        } else if idx == 11 {
            Some(0xffffffu32)
        } else if idx == 12 {
            Some(0x2d2d2du32)
        } else if idx == 13 {
            Some(0x808080u32)
        } else if idx == 14 {
            Some(0xccccccu32)
        } else {
            None
        },
{
    reveal_with_fuel(table_lookup, 11);
}

/// Every index of the dark-theme table is overridden with its table colour.
pub proof fn law_table_entries_are_overrides(i: int)
    requires
        0 <= i < dark_theme_table().len(),
    ensures
        table_lookup(dark_theme_table(), dark_theme_table()[i].0) == Some(dark_theme_table()[i].1),
{
    reveal_with_fuel(table_lookup, 11);
}

} // verus!
