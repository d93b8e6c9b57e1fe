use fcd::hex_view::{
    backward_step, backward_window, clamp_offset, find_first, find_last, forward_chunk_len, forward_step,
    hex_string, line_start, masked_string, line_width, move_offset, parse_hex_offset, parse_hex_search, position_percent,
    search_next_start, CellStyle, ChunkStep, HexAction, HexKey, HexMove, SearchSetup, ViewerType,
};
use fcd::line_view::{
    parse_usize, search_expression, LineView, SearchOutcome, SearchType, TextSearch, ViewerAction, ViewerKey,
};
use fcd::text_view::{
    clamp_first_line, clamp_list_cursor, expand_tabs_for_line, goto_line, line_down, page_down, page_up,
    search_next, search_prev, viewer_kind, ViewerKind,
};

fn search_of(s: &str, t: SearchType, case_sensitive: bool, backwards: bool, whole_words: bool) -> TextSearch {
    TextSearch { search_string: s.to_string(), search_type: t, case_sensitive, backwards, whole_words }
}

fn view_lines(v: &[&str]) -> Vec<String> {
    v.iter().map(|s| s.to_string()).collect()
}

#[test]
fn hex_search_parsing() {
    assert_eq!(parse_hex_search("01 ff"), Some(vec![1, 255]));
    assert_eq!(parse_hex_search("\"AB\""), Some(vec![0x41, 0x42]));
    assert_eq!(parse_hex_search("0x0a0b"), Some(vec![10, 11]));
    assert_eq!(parse_hex_search("abc"), Some(vec![0x0a, 0xbc]));
    assert_eq!(parse_hex_search("01 \"A\" 02"), Some(vec![1, 0x41, 2]));
    assert_eq!(parse_hex_search("zz"), None);
}

#[test]
fn hex_offset_parsing() {
    assert_eq!(parse_hex_offset("0x10"), Some(16));
    assert_eq!(parse_hex_offset("ff"), Some(255));
    assert_eq!(parse_hex_offset("+f"), Some(15));
    assert_eq!(parse_hex_offset(""), None);
    assert_eq!(parse_hex_offset("g1"), None);
    assert_eq!(parse_hex_offset("10000000000000000"), None);
}

#[test]
fn hex_layout_arithmetic() {
    assert_eq!(line_width(ViewerType::Hex, 80, 8), 16);
    assert_eq!(line_width(ViewerType::Dump, 80, 8), 64);
    assert_eq!(line_width(ViewerType::Hex, 10, 8), 4);
    assert_eq!(clamp_offset(100, 50, 16, 2), 32);
    assert_eq!(clamp_offset(0, 50, 16, 2), 0);
    assert_eq!(line_start(37, 16), 32);
    assert_eq!(position_percent(50, 200), 25);
    assert_eq!(position_percent(0, 0), 100);
    assert_eq!(position_percent(500, 200), 100);
}

#[test]
fn hex_moves() {
    assert_eq!(move_offset(HexMove::Down, 0, 100, 16, 2), 16);
    assert_eq!(move_offset(HexMove::Up, 16, 100, 16, 2), 0);
    assert_eq!(move_offset(HexMove::End, 0, 100, 16, 2), 80);
    assert_eq!(move_offset(HexMove::PageDown, 0, 1000, 16, 4), 48);
    assert_eq!(move_offset(HexMove::Home, 48, 1000, 16, 4), 0);
    assert_eq!(search_next_start(37, 16, 100), 48);
    assert_eq!(search_next_start(90, 16, 100), 96);
    assert_eq!(search_next_start(96, 16, 100), 100);
}

#[test]
fn hex_find_and_cells() {
    assert_eq!(find_first(&[1, 2, 3, 2, 3], &[2, 3]), Some(1));
    assert_eq!(find_last(&[1, 2, 3, 2, 3], &[2, 3]), Some(3));
    assert_eq!(find_first(&[1, 2], &[3]), None);
    let cells = hex_string(&[(false, 0x41), (true, 0x0f)]);
    assert_eq!(cells[0], (" ".to_string(), CellStyle::Even));
    assert_eq!(cells[1], ("41".to_string(), CellStyle::Even));
    assert_eq!(cells[3], ("0F".to_string(), CellStyle::Highlighted));
}

#[test]
fn hex_search_chunks() {
    assert_eq!(forward_chunk_len(0, 1000), 1000);
    assert_eq!(forward_chunk_len(0, 200000), 131072);
    assert_eq!(forward_step(0, 1000, Some(5), 3, 1000), ChunkStep::Found(5));
    assert_eq!(forward_step(0, 1000, None, 3, 1000), ChunkStep::NotFound);
    assert_eq!(forward_step(0, 131072, None, 4, 200000), ChunkStep::Next(131068));
    assert_eq!(backward_window(200000, 300000), (68928, 131072));
    assert_eq!(backward_step(68928, None, 4, 300000), ChunkStep::Next(68932));
    assert_eq!(backward_step(0, None, 4, 10), ChunkStep::NotFound);
    assert_eq!(backward_step(10, Some(2), 4, 100), ChunkStep::Found(12));
}

#[test]
fn text_view_arithmetic() {
    assert_eq!(expand_tabs_for_line("a\tb", 4), "a   b");
    assert_eq!(expand_tabs_for_line("\t", 8), "        ");
    assert_eq!(clamp_first_line(8, 5, 10), 5);
    assert_eq!(clamp_first_line(2, 5, 10), 2);
    assert_eq!(line_down(0, 5, 10), 1);
    assert_eq!(line_down(5, 5, 10), 5);
    assert_eq!(page_up(6, 5), 2);
    assert_eq!(page_down(0, 5, 20), 4);
    assert_eq!(page_down(14, 5, 20), 15);
    assert_eq!(goto_line(3, 5, 20), 2);
    assert_eq!(goto_line(19, 5, 20), 15);
    assert_eq!(clamp_list_cursor(5, 3), 2);
    assert_eq!(clamp_list_cursor(5, 0), 0);
}

#[test]
fn text_view_search_wraps() {
    let m = [false, true, false, true];
    assert_eq!(search_next(&m, 1), 3);
    assert_eq!(search_next(&m, 3), 1);
    assert_eq!(search_prev(&m, 3), 1);
    assert_eq!(search_prev(&m, 1), 3);
}

#[test]
fn search_expressions() {
    assert_eq!(search_expression(&search_of("a.b", SearchType::Normal, false, false, false), false), "a\\.b");
    assert_eq!(search_expression(&search_of("a.b", SearchType::Normal, false, false, true), false), "\\ba\\.b\\b");
    assert_eq!(search_expression(&search_of("a.b", SearchType::Regex, false, false, false), false), "a.b");
    assert_eq!(search_expression(&search_of("*.rs", SearchType::Wildcard, false, false, false), false), "(?s:.*\\.rs)");
    assert_eq!(search_expression(&search_of("*.rs", SearchType::Wildcard, false, false, false), true), "s:.*\\.rs)");
}

#[test]
fn parse_usize_examples() {
    assert_eq!(parse_usize("42"), Some(42));
    assert_eq!(parse_usize("+7"), Some(7));
    assert_eq!(parse_usize(""), None);
    assert_eq!(parse_usize("+"), None);
    assert_eq!(parse_usize("-1"), None);
    assert_eq!(parse_usize("1a"), None);
    assert_eq!(parse_usize("18446744073709551615"), Some(usize::MAX));
    assert_eq!(parse_usize("18446744073709551616"), None);
}

#[test]
fn line_view_text_keys() {
    let mut v = LineView::new(false, 3, 10);
    assert_eq!(v.handle_key(ViewerKey::Down), ViewerAction::Nothing);
    assert_eq!(v.first_line, 1);
    v.handle_key(ViewerKey::End);
    assert_eq!(v.first_line, 7);
    v.handle_key(ViewerKey::PageUp);
    assert_eq!(v.first_line, 5);
    v.handle_key(ViewerKey::Char('g'));
    assert_eq!(v.first_line, 0);
    assert_eq!(v.handle_key(ViewerKey::Char('?')), ViewerAction::SearchDialog(true, true));
    assert_eq!(v.handle_key(ViewerKey::F(5)), ViewerAction::GotoDialog);
    assert_eq!(v.handle_key(ViewerKey::Char('5')), ViewerAction::Unhandled);
    assert_eq!(v.goto("4"), Some(4));
    assert_eq!(v.first_line, 3);
    assert_eq!(v.goto("x"), None);
    assert_eq!(v.first_line, 3);
}

#[test]
fn line_view_dir_keys() {
    let mut v = LineView::new(true, 3, 10);
    v.handle_key(ViewerKey::CtrlEnd);
    assert_eq!(v.first_line, 7);
    v.handle_key(ViewerKey::Down);
    assert_eq!(v.first_line, 7);
    assert_eq!(v.handle_key(ViewerKey::Char('5')), ViewerAction::GotoDialog);
    assert_eq!(v.handle_key(ViewerKey::Char('7')), ViewerAction::SearchDialog(false, false));
}

#[test]
fn line_view_search() {
    let lines = view_lines(&["alpha\n", "beta\n", "Gamma\n", "beta again\n"]);
    let mut v = LineView::new(false, 1, 4);
    assert_eq!(v.apply_search(&search_of("beta", SearchType::Normal, false, false, false), &lines), SearchOutcome::Found);
    assert_eq!(v.search_pos, 1);
    assert_eq!(v.first_line, 1);
    v.handle_key(ViewerKey::Char('n'));
    assert_eq!(v.search_pos, 3);
    v.handle_key(ViewerKey::Char('n'));
    assert_eq!(v.search_pos, 1);
    v.handle_key(ViewerKey::Char('N'));
    assert_eq!(v.search_pos, 3);
    assert_eq!(v.apply_search(&search_of("gamma", SearchType::Normal, true, false, false), &lines), SearchOutcome::NotFound);
    assert!(v.matches.is_none());
    assert_eq!(v.apply_search(&search_of("(", SearchType::Regex, false, false, false), &lines), SearchOutcome::Invalid);
    assert_eq!(v.apply_search(&search_of("a$", SearchType::Regex, false, false, false), &lines), SearchOutcome::Found);
    assert_eq!(v.apply_search(&search_of("", SearchType::Regex, false, false, false), &lines), SearchOutcome::Cleared);
    assert_eq!(v.handle_key(ViewerKey::Esc), ViewerAction::Nothing);
}

#[test]
fn hex_masked_cells() {
    let cells = masked_string(&[(false, b'A'), (false, 0x07), (true, b' '), (false, 0x7f), (false, b'z')]);
    let texts: Vec<String> = cells.iter().map(|c| c.0.clone()).collect();
    assert_eq!(texts, vec!["A", "\u{b7}", " ", "\u{b7}", "z"]);
    assert_eq!(cells[2].1, CellStyle::Highlighted);
    assert_eq!(cells[4].1, CellStyle::Odd);
}

fn cursor(viewer_type: fcd::hex_view::ViewerType) -> fcd::hex_view::HexCursor {
    fcd::hex_view::HexCursor {
        viewer_type,
        file_length: 1000,
        line_width: 16,
        height: 10,
        offset: 0,
        search_pos: 0,
        expression: None,
        backwards: false,
    }
}

#[test]
fn hex_goto_aligns_and_clamps() {
    let mut c = cursor(fcd::hex_view::ViewerType::Hex);
    assert_eq!(c.goto("0x25"), None);
    assert_eq!(c.offset, 0x20);
    assert_eq!(c.search_pos, 0x20);
    assert_eq!(c.goto("3e7"), None);
    // The last line starts at 992; ten lines end at 1008.
    assert_eq!(c.offset, 1008 - 160);
    assert_eq!(c.goto("zz"), Some("Invalid number: zz".to_string()));
    assert_eq!(c.offset, 1008 - 160);
}

#[test]
fn hex_viewers_follow_each_other() {
    let mut c = cursor(fcd::hex_view::ViewerType::Dump);
    c.follow(40, fcd::hex_view::ViewerType::Hex);
    assert_eq!(c.offset, 0);
    c.follow(40, fcd::hex_view::ViewerType::Dump);
    assert_eq!(c.offset, 32);
}

#[test]
fn hex_search_setup() {
    let mut c = cursor(fcd::hex_view::ViewerType::Hex);
    assert_eq!(c.set_search("0x41 \"bc\"", true, true), SearchSetup::Start);
    assert_eq!(c.expression, Some(vec![0x41, b'b', b'c']));
    assert!(c.backwards);
    assert_eq!(c.set_search("é", false, false), SearchSetup::Start);
    assert_eq!(c.expression, Some(vec![0xc3, 0xa9]));
    assert_eq!(c.set_search("zz", true, false), SearchSetup::PatternError("Hex pattern error: zz".to_string()));
    assert_eq!(c.expression, None);
    assert_eq!(c.set_search("  ", true, true), SearchSetup::Empty);
    assert_eq!(c.set_search("", true, false), SearchSetup::Cleared);
    assert!(c.backwards);
}

#[test]
fn hex_search_positions() {
    let mut c = cursor(fcd::hex_view::ViewerType::Hex);
    c.found(100);
    assert_eq!(c.search_pos, 100);
    assert_eq!(c.offset, 96);
    c.prepare_search_next();
    assert_eq!(c.search_pos, 112);
    c.prepare_search_prev();
    assert_eq!(c.search_pos, 112);
    c.found(999);
    c.prepare_search_next();
    assert_eq!(c.search_pos, 1000);
}

#[test]
fn viewer_kind_tells_text_from_binary() {
    assert_eq!(viewer_kind(true, 0, &[]), ViewerKind::Directory);
    assert_eq!(viewer_kind(false, 5, b"hello"), ViewerKind::Text);
    assert_eq!(viewer_kind(false, 5, b"he\0lo"), ViewerKind::Dump);
    assert_eq!(viewer_kind(false, 4 * 1024 * 1024, b"x"), ViewerKind::Text);
    assert_eq!(viewer_kind(false, 4 * 1024 * 1024 + 1, b"x"), ViewerKind::Dump);
}

#[test]
fn hex_keys_move_and_ask_for_dialogs() {
    let mut c = cursor(ViewerType::Hex);
    assert_eq!(c.handle_key(HexKey::Move(HexMove::Down)), HexAction::Nothing);
    assert_eq!((c.offset, c.search_pos), (16, 16));
    c.handle_key(HexKey::Move(HexMove::End));
    assert_eq!(c.offset, 1008 - 160);
    c.handle_key(HexKey::Move(HexMove::PageUp));
    assert_eq!(c.offset, 1008 - 160 - 144);
    assert_eq!(c.handle_key(HexKey::ToggleHex), HexAction::ToggleHex(c.offset, false));
    assert_eq!(c.handle_key(HexKey::Goto), HexAction::GotoDialog);
    assert_eq!(c.handle_key(HexKey::Search(true)), HexAction::SearchDialog(true, true));
    assert_eq!(c.handle_key(HexKey::Again(false)), HexAction::Nothing);
    c.set_search("41", true, true);
    assert_eq!(c.handle_key(HexKey::Again(false)), HexAction::SearchPrev);
    assert_eq!(c.handle_key(HexKey::Again(true)), HexAction::SearchNext);
    assert_eq!(c.handle_key(HexKey::Esc), HexAction::Nothing);
    assert_eq!(c.expression, None);
    assert_eq!(c.handle_key(HexKey::Other), HexAction::Unhandled);
    let mut d = cursor(ViewerType::Dump);
    assert_eq!(d.handle_key(HexKey::ToggleHex), HexAction::ToggleHex(0, true));
    assert_eq!(d.handle_key(HexKey::Search(false)), HexAction::SearchDialog(false, false));
}
