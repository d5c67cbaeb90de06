use gitu::config::{
    BlameStyleConfig, DiffHighlightConfig, MenuStyleConfig, PickerStyleConfig, StyleConfig, StyleConfigEntry,
    SymbolStyleConfigEntry, SyntaxHighlightConfig,
};
use gitu::item_data::{ItemData, Ref, SectionHeader};
use gitu::items::Item;
use gitu::screen::highlight::{area_selection_highlight, gutter, gutter_char, line_selection_highlight};
use gitu::screen::show_refs::{ref_items, ref_prefix, RefHeaderIds, RefInfo};
use gitu::screen::{ItemView, NavMode, Screen};
use gitu::style::{Color, Modifier, Style};

fn raw_items(count: usize) -> Vec<Item> {
    (0..count)
        .map(|i| Item {
            id: i as u64,
            data: ItemData::Raw(format!("item {i}")),
            depth: 0,
            unselectable: false,
            default_collapsed: false,
        })
        .collect()
}

fn screen_of(item_count: usize, size: (u16, u16)) -> Screen {
    Screen::new(size, Vec::new(), raw_items(item_count), vec![1; item_count])
}

/// Scrolling is allowed a couple of lines past the content, so on a screen
/// the content doesn't fill, its center lands past the last line.
#[test]
fn recenter_cursor_on_a_screen_the_content_doesnt_fill() {
    let mut screen = screen_of(3, (80, 20));

    screen.scroll_view_down(2);
    screen.refresh(raw_items(3), vec![1; 3]);

    assert_eq!(2, screen.cursor);
}

fn section(id: u64, depth: usize) -> Item {
    Item { id, data: ItemData::AllStaged(1), depth, unselectable: false, default_collapsed: false }
}

fn raw(id: u64, depth: usize) -> Item {
    Item { id, data: ItemData::Raw(format!("line {id}")), depth, unselectable: false, default_collapsed: false }
}

#[test]
fn toggling_a_section_twice_restores_it() {
    let items = vec![section(1, 0), raw(2, 1), raw(3, 1), section(4, 0), raw(5, 1)];
    let mut screen = Screen::new((80, 10), Vec::new(), items, vec![1; 5]);
    assert_eq!(screen.cursor, 0);
    assert_eq!(screen.line_index, vec![0, 1, 2, 3, 4]);
    screen.toggle_section();
    assert_eq!(screen.line_index, vec![0, 3, 4]);
    assert_eq!(screen.collapsed, vec![1]);
    screen.toggle_section();
    assert_eq!(screen.line_index, vec![0, 1, 2, 3, 4]);
    assert!(screen.collapsed.is_empty());
}

#[test]
fn sections_start_collapsed_when_configured_or_by_default() {
    let mut items = vec![section(1, 0), raw(2, 1), section(4, 0), raw(5, 1)];
    items[2].default_collapsed = true;
    let screen = Screen::new((80, 10), vec![1], items, vec![1; 4]);
    assert_eq!(screen.line_index, vec![0, 2]);
    assert_eq!(screen.expanded_items, vec![true, false, true, false]);
}

#[test]
fn items_of_several_lines_index_each_line() {
    let items = vec![raw(1, 0), raw(2, 0), raw(3, 0)];
    let screen = Screen::new((80, 10), Vec::new(), items, vec![2, 0, 3]);
    assert_eq!(screen.line_index, vec![0, 0, 2, 2, 2]);
    assert_eq!(screen.unique_line_index, vec![(0, 0), (2, 2)]);
}

#[test]
fn moving_down_then_up_comes_back() {
    let items = vec![section(1, 0), raw(2, 1), raw(3, 1), section(4, 0)];
    let mut screen = Screen::new((80, 10), Vec::new(), items, vec![1; 4]);
    screen.select_next(NavMode::Normal);
    assert_eq!(screen.cursor, 1);
    screen.select_next(NavMode::Normal);
    screen.select_previous(NavMode::Normal);
    assert_eq!(screen.cursor, 1);
    screen.select_next(NavMode::Siblings { depth: 0 });
    assert_eq!(screen.cursor, 3);
    // Nowhere further to go: the cursor stays.
    screen.select_next(NavMode::Normal);
    assert_eq!(screen.cursor, 3);
}

#[test]
fn unselectable_items_are_skipped() {
    let mut items = vec![raw(1, 0), raw(2, 0), raw(3, 0)];
    items[1].unselectable = true;
    let mut screen = Screen::new((80, 10), Vec::new(), items, vec![1; 3]);
    screen.select_next(NavMode::Normal);
    assert_eq!(screen.cursor, 2);
    screen.move_cursor_to_screen_line(1);
    // Line 1 holds an item the cursor may not rest on: it moves off it, up.
    assert_eq!(screen.cursor, 0);
    assert!(!screen.is_valid_screen_line(5));
}

#[test]
fn scrolling_stays_in_range() {
    let mut screen = screen_of(30, (80, 10));
    screen.scroll_view_down(5);
    assert_eq!(screen.scroll, 5);
    screen.scroll_view_up(5);
    assert_eq!(screen.scroll, 0);
    screen.scroll_view_down(1000);
    // 30 lines on a screen of 10, plus the two context lines below.
    assert_eq!(screen.scroll, 22);
    screen.scroll_view_half_page_up();
    assert_eq!(screen.scroll, 17);
    screen.scroll_view_half_page_down();
    assert_eq!(screen.scroll, 22);
    screen.scroll_view_up(1000);
    assert_eq!(screen.scroll, 0);
}

#[test]
fn top_and_bottom() {
    let mut screen = screen_of(30, (80, 10));
    screen.move_cursor_to_bottom();
    assert_eq!(screen.cursor, 29);
    assert_eq!(screen.scroll, 22);
    screen.move_cursor_to_top();
    assert_eq!((screen.cursor, screen.scroll), (0, 0));
}

#[test]
fn selecting_by_predicate() {
    let mut screen = screen_of(30, (80, 10));
    assert!(screen.select_matching(|d| matches!(d, ItemData::Raw(s) if s == "item 20")));
    assert_eq!(screen.cursor, 20);
    // Centered on the screen: line 20 less half of 10 lines.
    assert_eq!(screen.scroll, 15);
    assert!(!screen.select_matching(|d| matches!(d, ItemData::Raw(s) if s == "nothing")));
    assert_eq!(screen.cursor, 20);
    assert!(screen.select_last_matching(|d| matches!(d, ItemData::Raw(s) if s.starts_with("item 1"))));
    assert_eq!(screen.cursor, 19);
}

fn branch(id: u64, name: &str) -> Item {
    Item {
        id,
        data: ItemData::Reference {
            prefix: "  ".to_string(),
            kind: Ref::Head(name.to_string()),
            short_id: String::new(),
            summary: String::new(),
            merge_status: None,
        },
        depth: 1,
        unselectable: false,
        default_collapsed: false,
    }
}

#[test]
fn delete_marks_form_a_sorted_set() {
    let items = vec![branch(1, "main"), branch(2, "feature")];
    let mut screen = Screen::new((80, 10), Vec::new(), items, vec![1; 2]);
    assert!(!screen.has_delete_marks());
    assert!(screen.mark_selected_branch_for_delete());
    screen.mark_branches_for_delete(&["zeta".to_string(), "alpha".to_string(), "main".to_string()]);
    assert_eq!(screen.delete_marked_branches(), vec!["alpha", "main", "zeta"]);
    assert!(screen.unmark_branch_for_delete("zeta"));
    assert!(!screen.unmark_branch_for_delete("zeta"));
    screen.unmark_branches_for_delete(&["alpha".to_string()]);
    assert_eq!(screen.delete_marked_branches(), vec!["main"]);
    screen.clear_delete_marks();
    assert!(!screen.has_delete_marks());
}

#[test]
fn unmarking_undoes_marking() {
    let items = vec![branch(1, "main")];
    let mut screen = Screen::new((80, 10), Vec::new(), items, vec![1]);
    screen.mark_branches_for_delete(&["a".to_string()]);
    screen.mark_branches_for_delete(&["b".to_string()]);
    screen.unmark_branch_for_delete("b");
    assert_eq!(screen.delete_marked_branches(), vec!["a"]);
}

#[test]
fn selected_branches_between_mark_and_cursor() {
    let items = vec![branch(1, "a"), raw_blank(2), branch(3, "b"), branch(4, "c")];
    let mut screen = Screen::new((80, 10), Vec::new(), items, vec![1; 4]);
    assert!(screen.selected_branches().is_none());
    screen.set_mark();
    screen.select_next(NavMode::Normal);
    assert_eq!(screen.cursor, 2);
    assert_eq!(screen.selected_branches(), Some(vec!["a".to_string(), "b".to_string()]));
    screen.clear_mark();
    assert!(screen.selected_branches().is_none());
}

fn raw_blank(id: u64) -> Item {
    Item { id, data: ItemData::Raw(String::new()), depth: 0, unselectable: true, default_collapsed: false }
}

fn info(name: &str, id: u64, kind: Ref, remote: &str, remote_id: u64) -> RefInfo {
    RefInfo {
        name: name.to_string(),
        id,
        kind,
        prefix: "  ".to_string(),
        short_id: "abc1234".to_string(),
        summary: "msg".to_string(),
        remote: remote.to_string(),
        remote_id,
    }
}

#[test]
fn references_screen_layout() {
    let ids = RefHeaderIds { branches: 100, tags: 200 };
    let branches = vec![
        info("refs/heads/main", 1, Ref::Head("main".to_string()), "", 0),
        info("refs/heads/dev", 2, Ref::Head("dev".to_string()), "", 0),
    ];
    let remotes = vec![
        info("refs/remotes/upstream/main", 3, Ref::Remote("upstream/main".to_string()), "upstream", 30),
        info("refs/remotes/origin/main", 4, Ref::Remote("origin/main".to_string()), "origin", 40),
        info("refs/remotes/origin/dev", 5, Ref::Remote("origin/dev".to_string()), "origin", 40),
    ];
    let tags = vec![info("refs/tags/v1", 6, Ref::Tag("v1".to_string()), "", 0)];
    let items = ref_items(&ids, branches, remotes, tags);
    let ids: Vec<u64> = items.iter().map(|i| i.id).collect();
    // Header, dev, main; origin's section (dev, main); upstream's; tags.
    assert_eq!(ids, vec![100, 2, 1, 0, 40, 5, 4, 0, 30, 3, 0, 200, 6]);
    assert!(matches!(&items[0].data, ItemData::Header(SectionHeader::Branches)));
    assert!(matches!(&items[4].data, ItemData::Header(SectionHeader::Remote(r)) if r == "origin"));
    assert!(items[3].unselectable && matches!(&items[3].data, ItemData::Raw(s) if s.is_empty()));
    assert!(matches!(&items[11].data, ItemData::Header(SectionHeader::Tags)));
    assert_eq!(items[1].depth, 1);
}

#[test]
fn references_screen_without_remotes_or_tags() {
    let ids = RefHeaderIds { branches: 100, tags: 200 };
    let items = ref_items(&ids, vec![info("refs/heads/main", 1, Ref::Head("main".to_string()), "", 0)], vec![], vec![]);
    assert_eq!(items.iter().map(|i| i.id).collect::<Vec<_>>(), vec![100, 1]);
}

#[test]
fn reference_prefixes() {
    assert_eq!(ref_prefix(true, true, true), "? ");
    assert_eq!(ref_prefix(false, true, true), "* ");
    assert_eq!(ref_prefix(true, false, true), "* ");
    assert_eq!(ref_prefix(false, false, false), "  ");
}

fn plain_style_config() -> StyleConfig {
    let e = StyleConfigEntry { fg: None, bg: None, mods: None };
    let sym = SymbolStyleConfigEntry { symbol: ' ', fg: None, bg: None, mods: None };
    StyleConfig {
        separator: e,
        info_msg: e,
        error_msg: e,
        command: e,
        menu: MenuStyleConfig { heading: e, key: e, active_arg: e, inactive_arg: e },
        prompt: e,
        section_header: e,
        file_header: e,
        hunk_header: e,
        diff_highlight: DiffHighlightConfig {
            tag_old: e,
            tag_new: e,
            unchanged_old: e,
            unchanged_new: e,
            changed_old: e,
            changed_new: e,
        },
        syntax_highlight: SyntaxHighlightConfig {
            enabled: false,
            attribute: e,
            comment: e,
            constant_builtin: e,
            constant: e,
            constructor: e,
            embedded: e,
            function_builtin: e,
            function: e,
            keyword: e,
            number: e,
            module: e,
            property: e,
            operator: e,
            punctuation_bracket: e,
            punctuation_delimiter: e,
            string_special: e,
            string: e,
            tag: e,
            type_regular: e,
            type_builtin: e,
            variable_builtin: e,
            variable_parameter: e,
        },
        picker: PickerStyleConfig { prompt: e, info: e, selection_line: e, matched: e },
        cursor: sym,
        selection_bar: sym,
        mark_bar: sym,
        selection_line: e,
        selection_area: e,
        mark_area: e,
        hash: e,
        branch: e,
        remote: e,
        tag: e,
        author: e,
        age: e,
        blame: BlameStyleConfig { line_num: e, code_line: e },
    }
}

fn entry(fg: Color) -> StyleConfigEntry {
    StyleConfigEntry { fg: Some(fg), bg: None, mods: None }
}

fn symbol(c: char, fg: Color) -> SymbolStyleConfigEntry {
    SymbolStyleConfigEntry { symbol: c, fg: Some(fg), bg: None, mods: None }
}

fn view(cursor_highlighted: bool, delete_marked_branch: bool, marked: bool) -> ItemView {
    ItemView { item_index: 0, cursor_highlighted, delete_marked_branch, marked }
}

#[test]
fn highlights() {
    let mut style = plain_style_config();
    style.selection_line = entry(Color::Red);
    style.selection_area = entry(Color::Green);
    style.mark_area = entry(Color::Blue);
    style.cursor = symbol('▌', Color::Yellow);
    style.mark_bar = symbol('▌', Color::Magenta);
    style.selection_bar = symbol('▏', Color::Cyan);

    assert_eq!(line_selection_highlight(&style, &view(true, false, false), true).fg, Some(Color::Red));
    assert_eq!(line_selection_highlight(&style, &view(true, false, false), false), Style::new());
    assert_eq!(area_selection_highlight(&style, &view(true, false, true)).fg, Some(Color::Blue));
    assert_eq!(area_selection_highlight(&style, &view(true, false, false)).fg, Some(Color::Green));
    assert_eq!(area_selection_highlight(&style, &view(false, false, false)), Style::new());

    let bg = Style { fg: None, bg: Some(Color::Black), add_modifier: Modifier::empty(), sub_modifier: Modifier::empty() };
    let (c, s) = gutter_char(&style, &view(false, true, false), false, bg);
    assert_eq!((c.as_str(), s.fg, s.bg), ("D", Some(Color::Magenta), Some(Color::Black)));
    let (c, s) = gutter_char(&style, &view(true, false, false), true, bg);
    assert_eq!((c.as_str(), s.fg), ("▌", Some(Color::Yellow)));
    let (c, s) = gutter_char(&style, &view(false, false, true), false, bg);
    assert_eq!((c.as_str(), s.fg), ("▌", Some(Color::Magenta)));
    let (c, s) = gutter_char(&style, &view(true, false, false), false, bg);
    assert_eq!((c.as_str(), s.fg), ("▏", Some(Color::Cyan)));
    let (c, s) = gutter(&style, &view(true, false, false), true, bg, true);
    assert_eq!((c.as_str(), s), (" ", Style::new()));
}

#[test]
fn marking_for_deletion_moves_on_or_takes_the_range() {
    let items = vec![branch(1, "a"), branch(2, "b"), branch(3, "c"), raw(4, 0)];
    let mut screen = Screen::new((80, 10), Vec::new(), items, vec![1; 4]);
    screen.mark_for_delete();
    assert_eq!(screen.delete_marked_branches(), vec!["a"]);
    assert_eq!(screen.cursor, 1);
    screen.set_mark();
    screen.select_next(NavMode::Normal);
    screen.mark_for_delete();
    assert_eq!(screen.delete_marked_branches(), vec!["a", "b", "c"]);
    assert!(screen.mark.is_none());
    assert_eq!(screen.cursor, 2);
    // Not on a branch: nothing is marked and the cursor stays.
    screen.select_next(NavMode::Normal);
    screen.mark_for_delete();
    assert_eq!(screen.delete_marked_branches(), vec!["a", "b", "c"]);
    assert_eq!(screen.cursor, 3);
}
