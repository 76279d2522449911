use treefilter::mark::mark_matched_nodes;
use treefilter::pattern::CompiledPattern;
use treefilter::render::flatten_tree;
use treefilter::render::highlight;
use treefilter::render::render;
use treefilter::render::render_input;
use treefilter::render::set_cursor_position;
use treefilter::render::Style;
use treefilter::strutil::fixed_length_string;
use treefilter::tree::determine_color;
use treefilter::tree::DirectoryNode;
use treefilter::tree::FileCategory;

fn file(name: &str) -> DirectoryNode {
    DirectoryNode {
        name: Some(name.to_string()),
        children: Vec::new(),
        visible: false,
        category: FileCategory::RegularFile,
        error: None,
    }
}

fn root(children: Vec<DirectoryNode>) -> DirectoryNode {
    DirectoryNode {
        name: None,
        children,
        visible: false,
        category: FileCategory::Directory,
        error: None,
    }
}

#[test]
fn fixed_length_pads_with_spaces() {
    assert_eq!(fixed_length_string("ab", 5), "ab   ");
}

#[test]
fn fixed_length_truncates() {
    assert_eq!(fixed_length_string("abcdef", 3), "abc");
}

#[test]
fn fixed_length_keeps_exact_width() {
    assert_eq!(fixed_length_string("abc", 3), "abc");
}

#[test]
fn cursor_positioning_sequence() {
    assert_eq!(set_cursor_position(11, 23), "\x1B[23;11H");
    assert_eq!(set_cursor_position(1, 1), "\x1B[1;1H");
}

#[test]
fn colors_are_fixed_by_category() {
    assert_eq!(determine_color(FileCategory::Directory), "\x1B[36m");
    assert_eq!(determine_color(FileCategory::RegularFile), "\x1B[35m");
    assert_eq!(determine_color(FileCategory::Symlink), "\x1B[33m");
    assert_eq!(determine_color(FileCategory::ErrorPlaceholder), "\x1B[31m");
}

#[test]
fn highlight_wraps_every_match_in_inverse_video() {
    let re = CompiledPattern::compile("(?i:x)").unwrap();
    let out = highlight("xaxa", &re);
    assert_eq!(out, "\x1B[7mx\x1B[27ma\x1B[7mx\x1B[27ma");
}

#[test]
fn highlight_without_matches_returns_the_text() {
    let re = CompiledPattern::compile("(?i:zz)").unwrap();
    assert_eq!(highlight("abc", &re), "abc");
}

#[test]
fn status_rows_carry_hex_dump_pattern_and_hint() {
    let out = render_input("ab", true, 20);
    let rows: Vec<&str> = out.split("\r\n").collect();
    assert_eq!(rows.len(), 3);
    assert_eq!(rows[0], "0x61 0x62           ");
    assert_eq!(rows[1], "Pattern: ab         ");
    assert_eq!(rows[2], "Ctrl+D to exit      ");
}

#[test]
fn invalid_pattern_notice_precedes_the_dump() {
    let out = render_input("a", false, 30);
    let rows: Vec<&str> = out.split("\r\n").collect();
    assert_eq!(rows[0], "Invalid Pattern 0x61          ");
}

#[test]
fn pruned_subtree_emits_no_lines() {
    let mut tree = root(vec![file("a"), file("b")]);
    let re = CompiledPattern::compile("zzz").unwrap();
    mark_matched_nodes(&mut tree, &re);
    let lines = flatten_tree(&tree, "", true, Style::Full);
    assert!(lines.is_empty());
}

#[test]
fn last_visible_sibling_draws_the_closing_connector() {
    // raw children: [amatch, zother]; only the first stays visible
    let mut tree = root(vec![file("amatch"), file("zother")]);
    let re = CompiledPattern::compile("amatch").unwrap();
    mark_matched_nodes(&mut tree, &re);
    // the root has no name and stays visible through its child
    assert!(tree.visible);
    let lines = flatten_tree(&tree, "", true, Style::Full);
    assert_eq!(lines.len(), 2);
    assert_eq!(lines[0].first_part, "\u{2514}\u{2500}");
    assert_eq!(lines[0].last_part, ".");
    // the child is not the last raw sibling, yet draws as last
    assert_eq!(lines[1].first_part, "  \u{2514}\u{2500}");
    assert_eq!(lines[1].last_part, "amatch");
}

#[test]
fn middle_sibling_draws_the_tee_connector() {
    let mut tree = root(vec![file("one"), file("two")]);
    let re = CompiledPattern::compile("(?i:)").unwrap();
    mark_matched_nodes(&mut tree, &re);
    let lines = flatten_tree(&tree, "", true, Style::Full);
    assert_eq!(lines.len(), 3);
    assert_eq!(lines[1].first_part, "  \u{251c}\u{2500}");
    assert_eq!(lines[2].first_part, "  \u{2514}\u{2500}");
}

#[test]
fn compact_style_uses_single_character_connectors() {
    let mut tree = root(vec![file("one")]);
    let re = CompiledPattern::compile("(?i:)").unwrap();
    mark_matched_nodes(&mut tree, &re);
    let lines = flatten_tree(&tree, "", true, Style::Compact);
    assert_eq!(lines[0].first_part, "\u{2514}");
    assert_eq!(lines[1].first_part, " \u{2514}");
}

#[test]
fn error_text_is_appended_to_the_name() {
    let mut tree = root(vec![DirectoryNode {
        name: Some("locked".to_string()),
        children: Vec::new(),
        visible: false,
        category: FileCategory::ErrorPlaceholder,
        error: Some("permission denied".to_string()),
    }]);
    let re = CompiledPattern::compile("(?i:)").unwrap();
    mark_matched_nodes(&mut tree, &re);
    let lines = flatten_tree(&tree, "", true, Style::Full);
    assert_eq!(lines[1].last_part, "locked permission denied");
}

#[test]
fn rendering_twice_with_unchanged_state_yields_an_identical_frame() {
    let mut tree = root(vec![file("a"), file("b"), file("c")]);
    let re = CompiledPattern::compile("(?i:)").unwrap();
    mark_matched_nodes(&mut tree, &re);
    let mut scroll = 2usize;
    let first = render(&tree, "", Style::Full, &mut scroll, 0, &re, true, 40, 10);
    let second = render(&tree, "", Style::Full, &mut scroll, 0, &re, true, 40, 10);
    assert_eq!(first, second);
}

#[test]
fn oversized_scroll_is_clamped_and_never_fails() {
    let mut tree = root(vec![file("a"), file("b")]);
    let re = CompiledPattern::compile("(?i:)").unwrap();
    mark_matched_nodes(&mut tree, &re);
    let mut scroll = 1_000_000usize;
    let _ = render(&tree, "", Style::Full, &mut scroll, 0, &re, true, 40, 10);
    // three visible lines: the root and both children
    assert_eq!(scroll, 2);
}

#[test]
fn scroll_on_an_empty_frame_is_clamped_to_zero() {
    let mut tree = root(vec![file("a")]);
    let re = CompiledPattern::compile("zzz").unwrap();
    mark_matched_nodes(&mut tree, &re);
    let mut scroll = 9usize;
    let _ = render(&tree, "zzz", Style::Full, &mut scroll, 0, &re, true, 40, 5);
    assert_eq!(scroll, 0);
}

#[test]
fn frame_fills_every_viewport_row() {
    let mut tree = root(vec![file("a")]);
    let re = CompiledPattern::compile("(?i:)").unwrap();
    mark_matched_nodes(&mut tree, &re);
    let mut scroll = 0usize;
    let frame = render(&tree, "", Style::Full, &mut scroll, 0, &re, true, 10, 6);
    // height 6 leaves 3 tree rows, each starting with a width-filling
    // blank; the byte dump of the empty pattern makes a fourth blank row
    let blanks = frame.matches("          \r").count();
    assert_eq!(blanks, 4);
}

#[test]
fn degenerate_viewport_still_renders() {
    let mut tree = root(vec![file("a")]);
    let re = CompiledPattern::compile("(?i:)").unwrap();
    mark_matched_nodes(&mut tree, &re);
    let mut scroll = 0usize;
    let frame = render(&tree, "", Style::Full, &mut scroll, 0, &re, true, 0, 3);
    // width 0 clips every line away; height 3 leaves no tree rows
    assert!(frame.starts_with("\x1B[1;1H\r\n"));
}

#[test]
fn line_clipped_to_width() {
    let mut tree = root(vec![file("averylongfilename")]);
    let re = CompiledPattern::compile("zzz|averylongfilename").unwrap();
    mark_matched_nodes(&mut tree, &re);
    let lines = flatten_tree(&tree, "", true, Style::Full);
    let text = lines[1].to_string(&re, 8);
    // four characters of prefix leave four characters of the name
    assert!(text.contains("aver"));
    assert!(!text.contains("avery"));
}
