//! How a drawn item is highlighted: its background, and the character and
//! style of the gutter to its left.
use vstd::prelude::*;

use crate::config::{entry_style, StyleConfig};
use crate::screen::ItemView;
use crate::style::Style;
use crate::text::push_char;

verus! {

/// The style of the line under the cursor when it is highlighted.
pub open spec fn spec_line_selection(style: &StyleConfig, line: ItemView, selected_line: bool) -> Style {
    if line.highlighted() && selected_line {
        entry_style(style.selection_line.fg, style.selection_line.bg, style.selection_line.mods)
    } else {
        Style::empty_style()
    }
}

/// The style of a line within the marked range or the cursor's highlight.
pub open spec fn spec_area_selection(style: &StyleConfig, line: ItemView) -> Style {
    if line.marked {
        entry_style(style.mark_area.fg, style.mark_area.bg, style.mark_area.mods)
    } else if line.cursor_highlighted {
        entry_style(style.selection_area.fg, style.selection_area.bg, style.selection_area.mods)
    } else {
        Style::empty_style()
    }
}

/// The gutter of a highlighted line: `D` on a branch marked for deletion,
/// else the cursor's symbol on the selected line, the mark bar's within the
/// marked range, and the selection bar's elsewhere; each over `bg`.
pub open spec fn spec_gutter(style: &StyleConfig, line: ItemView, is_line_sel: bool, bg: Style) -> (
    Seq<char>,
    Style,
) {
    if line.delete_marked_branch {
        (
            seq!['D'],
            bg.patched(entry_style(style.mark_bar.fg, style.mark_bar.bg, style.mark_bar.mods)),
        )
    } else if is_line_sel {
        (
            seq![style.cursor.symbol],
            bg.patched(entry_style(style.cursor.fg, style.cursor.bg, style.cursor.mods)),
        )
    } else if line.marked {
        (
            seq![style.mark_bar.symbol],
            bg.patched(entry_style(style.mark_bar.fg, style.mark_bar.bg, style.mark_bar.mods)),
        )
    } else {
        (
            seq![style.selection_bar.symbol],
            bg.patched(
                entry_style(style.selection_bar.fg, style.selection_bar.bg, style.selection_bar.mods),
            ),
        )
    }
}

/// A one-character string.
fn char_string(c: char) -> (s: String)
    ensures
        s@ == seq![c],
{
    let mut s = String::new();
    push_char(&mut s, c);
    assert(s@ =~= seq![c]);
    s
}

pub fn line_selection_highlight(style: &StyleConfig, line: &ItemView, selected_line: bool) -> (s:
    Style)
    ensures
        s == spec_line_selection(style, *line, selected_line),
{
    if line.is_highlighted() && selected_line {
        Style::from(&style.selection_line)
    } else {
        Style::new()
    }
}

pub fn area_selection_highlight(style: &StyleConfig, line: &ItemView) -> (s: Style)
    ensures
        s == spec_area_selection(style, *line),
{
    if line.marked {
        Style::from(&style.mark_area)
    } else if line.cursor_highlighted {
        Style::from(&style.selection_area)
    } else {
        Style::new()
    }
}

pub fn gutter_char(style: &StyleConfig, line: &ItemView, is_line_sel: bool, bg: Style) -> (r: (
    String,
    Style,
))
    ensures
        (r.0@, r.1) == spec_gutter(style, *line, is_line_sel, bg),
{
    if line.delete_marked_branch {
        (char_string('D'), bg.patch(Style::from(&style.mark_bar)))
    } else if is_line_sel {
        (char_string(style.cursor.symbol), bg.patch(Style::from(&style.cursor)))
    } else if line.marked {
        (char_string(style.mark_bar.symbol), bg.patch(Style::from(&style.mark_bar)))
    } else {
        (char_string(style.selection_bar.symbol), bg.patch(Style::from(&style.selection_bar)))
    }
}

/// The background of a drawn line: the area's highlight patched with the
/// selected line's.
pub fn line_background(style: &StyleConfig, line: &ItemView, is_line_sel: bool) -> (s: Style)
    ensures
        s == spec_area_selection(style, *line).patched(
            spec_line_selection(style, *line, is_line_sel),
        ),
{
    let area_sel = area_selection_highlight(style, line);
    let line_sel = line_selection_highlight(style, line, is_line_sel);
    area_sel.patch(line_sel)
}

/// The gutter of a drawn line: as [`gutter_char`] says when the line is
/// highlighted (or a branch marked for deletion) and the cursor is shown;
/// else a blank in no style.
pub fn gutter(style: &StyleConfig, line: &ItemView, is_line_sel: bool, bg: Style, hide_cursor: bool) -> (r: (
    String,
    Style,
))
    ensures
        (r.0@, r.1) == if !hide_cursor && (line.highlighted() || line.delete_marked_branch) {
            spec_gutter(style, *line, is_line_sel, bg)
        } else {
            (seq![' '], Style::empty_style())
        },
{
    if !hide_cursor && (line.is_highlighted() || line.delete_marked_branch) {
        gutter_char(style, line, is_line_sel, bg)
    } else {
        (char_string(' '), Style::new())
    }
}

} // verus!
