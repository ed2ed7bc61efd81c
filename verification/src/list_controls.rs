//! The route list's remaining controls: what a key does, the expanded
//! groups, a row's shade, the amount a row's quantity editor edits, and the
//! texts of a row's number columns.

use vstd::prelude::*;

use crate::text::{i64_text, int_text};

verus! {

/// What a key on the route list asks for.
#[derive(Clone, Copy, Debug, PartialEq, Eq, Structural)]
pub enum ListKey {
    /// nothing (an inline editor is open, or no key of the list)
    Nothing,
    /// Space: open the inline creator after the selected event
    InsertInline,
    /// Q, W, E, R or T: the quick-add popover on that category
    QuickAdd(u8),
    /// the arrows move the selection
    Arrows,
}

/// What a key on the route list asks for: nothing while the inline creator
/// or the quantity editor is open; Space first, then Q to T (the first
/// pressed), then the arrows.
pub fn list_key(editor_open: bool, space: bool, qwert: [bool; 5], arrow: bool) -> (r: ListKey)
    ensures
        editor_open ==> r == ListKey::Nothing,
        !editor_open && space ==> r == ListKey::InsertInline,
        !editor_open && !space && qwert[0] ==> r == ListKey::QuickAdd(0),
        !editor_open && !space && !qwert[0] && qwert[1] ==> r == ListKey::QuickAdd(1),
        !editor_open && !space && !qwert[0] && !qwert[1] && qwert[2] ==> r == ListKey::QuickAdd(2),
        !editor_open && !space && !qwert[0] && !qwert[1] && !qwert[2] && qwert[3] ==> r == ListKey::QuickAdd(3),
        !editor_open && !space && !qwert[0] && !qwert[1] && !qwert[2] && !qwert[3] && qwert[4] ==> r
            == ListKey::QuickAdd(4),
        !editor_open && !space && !qwert[0] && !qwert[1] && !qwert[2] && !qwert[3] && !qwert[4] ==> r == (if arrow {
            ListKey::Arrows
        } else {
            ListKey::Nothing
        }),
{
    if editor_open {
        return ListKey::Nothing;
    }
    if space {
        return ListKey::InsertInline;
    }
    if qwert[0] {
        ListKey::QuickAdd(0)
    } else if qwert[1] {
        ListKey::QuickAdd(1)
    } else if qwert[2] {
        ListKey::QuickAdd(2)
    } else if qwert[3] {
        ListKey::QuickAdd(3)
    } else if qwert[4] {
        ListKey::QuickAdd(4)
    } else if arrow {
        ListKey::Arrows
    } else {
        ListKey::Nothing
    }
}

/// A group row's arrow was clicked: an expanded group folds, a folded one
/// opens (`expanded`: the groups shown open).
pub fn toggle_group(expanded: &mut Vec<i64>, id: i64, is_open: bool)
    ensures
        is_open ==> forall|x: i64| final(expanded)@.contains(x) <==> (old(expanded)@.contains(x) && x != id),
        !is_open ==> forall|x: i64| final(expanded)@.contains(x) <==> (old(expanded)@.contains(x) || x == id),
{
    if is_open {
        let mut kept: Vec<i64> = Vec::new();
        let mut i: usize = 0;
        while i < expanded.len()
            invariant
                i <= expanded.len(),
                forall|x: i64| kept@.contains(x) <==> (exists|j: int| 0 <= j < i && expanded@[j] == x && x != id),
            decreases expanded.len() - i,
        {
            if expanded[i] != id {
                let ghost before = kept@;
                kept.push(expanded[i]);
                proof {
                    assert forall|x: i64| kept@.contains(x) <==> (exists|j: int| 0 <= j < i + 1 && expanded@[j] == x && x
                        != id) by {
                        if kept@.contains(x) {
                            if x == expanded@[i as int] {
                                assert(0 <= i < i + 1 && expanded@[i as int] == x);
                            } else {
                                let k = choose|k: int| 0 <= k < kept@.len() && kept@[k] == x;
                                if k < before.len() {
                                    assert(before[k] == x);
                                    assert(before.contains(x));
                                } else {
                                    assert(kept@[k] == expanded@[i as int]);
                                }
                            }
                        }
                        if exists|j: int| 0 <= j < i + 1 && expanded@[j] == x && x != id {
                            let j = choose|j: int| 0 <= j < i + 1 && expanded@[j] == x && x != id;
                            if j < i {
                                assert(before.contains(x));
                                let k = choose|k: int| 0 <= k < before.len() && before[k] == x;
                                assert(kept@[k] == x);
                            } else {
                                assert(kept@[kept@.len() - 1] == x);
                            }
                        }
                    }
                }
            } else {
                proof {
                    assert forall|x: i64| kept@.contains(x) <==> (exists|j: int| 0 <= j < i + 1 && expanded@[j] == x && x
                        != id) by {
                        if exists|j: int| 0 <= j < i + 1 && expanded@[j] == x && x != id {
                            let j = choose|j: int| 0 <= j < i + 1 && expanded@[j] == x && x != id;
                            assert(j < i);
                        }
                    }
                }
            }
            i = i + 1;
        }
        proof {
            assert forall|x: i64| kept@.contains(x) <==> (old(expanded)@.contains(x) && x != id) by {
                if old(expanded)@.contains(x) && x != id {
                    let j = choose|j: int| 0 <= j < old(expanded)@.len() && old(expanded)@[j] == x;
                    assert(0 <= j < expanded@.len() && expanded@[j] == x);
                }
            }
        }
        *expanded = kept;
    } else {
        let ghost before = expanded@;
        expanded.push(id);
        proof {
            assert forall|x: i64| expanded@.contains(x) <==> (before.contains(x) || x == id) by {
                if before.contains(x) {
                    let j = choose|j: int| 0 <= j < before.len() && before[j] == x;
                    assert(expanded@[j] == x);
                }
                if x == id {
                    assert(expanded@[expanded@.len() - 1] == x);
                }
                if expanded@.contains(x) && x != id {
                    let j = choose|j: int| 0 <= j < expanded@.len() && expanded@[j] == x;
                    assert(j < before.len());
                    assert(before[j] == x);
                }
            }
        }
    }
}

/// The shade of a route row.
#[derive(Clone, Copy, Debug, PartialEq, Eq, Structural)]
pub enum RowShade {
    /// selected and hovered: the accent, lightened
    AccentLight,
    /// selected: the accent
    Accent,
    /// hovered: the row's highlight colour lightened (the `usize`th tag's)
    HighlightLight(usize),
    /// hovered, without a highlight: the background lightened
    BackgroundLight,
    /// the row's highlight colour
    Highlight(usize),
    /// no shade
    Plain,
}

/// The shade of a route row: the selection wins, then the hover; a row
/// with a highlighted tag (`custom`: the first such tag) keeps its colour.
pub fn row_shade(selected: bool, hovered: bool, custom: Option<usize>) -> (r: RowShade)
    ensures
        r == (if selected && hovered {
            RowShade::AccentLight
        } else if selected {
            RowShade::Accent
        } else if hovered {
            match custom {
                Some(c) => RowShade::HighlightLight(c),
                None => RowShade::BackgroundLight,
            }
        } else {
            match custom {
                Some(c) => RowShade::Highlight(c),
                None => RowShade::Plain,
            }
        }),
{
    if selected && hovered {
        RowShade::AccentLight
    } else if selected {
        RowShade::Accent
    } else if hovered {
        match custom {
            Some(c) => RowShade::HighlightLight(c),
            None => RowShade::BackgroundLight,
        }
    } else {
        match custom {
            Some(c) => RowShade::Highlight(c),
            None => RowShade::Plain,
        }
    }
}

/// The amount a group's quantity editor edits: its item amount, else its
/// vitamin amount, else its rare candy amount.
pub fn quantity_of(item: Option<i64>, vitamin: Option<i64>, candy: Option<i64>) -> (r: Option<i64>)
    ensures
        r == (match item {
            Some(a) => Some(a),
            None => match vitamin {
                Some(a) => Some(a),
                None => candy,
            },
        }),
{
    match item {
        Some(a) => Some(a),
        None => match vitamin {
            Some(a) => Some(a),
            None => candy,
        },
    }
}

/// A number column's text: the number, or nothing.
pub fn number_cell(v: Option<i64>) -> (r: String)
    ensures
        r@ == match v {
            Some(x) => int_text(x as int),
            None => Seq::<char>::empty(),
        },
{
    match v {
        Some(x) => i64_text(x),
        None => String::new(),
    }
}

/// A folder's or group's checkbox: its new switch (an unset one counts as
/// off).
pub fn toggled_enabled(enabled: Option<bool>) -> (r: bool)
    ensures
        r == !(match enabled {
            Some(e) => e,
            None => false,
        }),
{
    match enabled {
        Some(e) => !e,
        None => true,
    }
}

} // verus!
