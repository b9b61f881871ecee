use knightty::term::grid::{
    Color, Damage, GridPoint, GridSnapshot, Hyperlink, ImageId, ImagePixelOffset, ImagePlacement, ImagePlacementId,
    ImageSourceRect, ImageZIndex, SelectionMode, SelectionPoint, SelectionRect,
};
use knightty::term::mouse::{
    MouseButton, MouseEncoding, MouseEventKind, MouseModes, MouseProtocol, TerminalMouseEvent,
};
use knightty::term::sanitize::{
    hyperlink_from_parts, MAX_HYPERLINK_ID_BYTES, MAX_HYPERLINK_URI_BYTES, MAX_WINDOW_TITLE_CHARS,
};
use knightty::term::terminal::Terminal;

#[test]
fn plain_ascii_text_is_written_to_grid() {
    let mut term = Terminal::new(80, 24);

    term.feed(b"hello");

    let grid = term.snapshot();
    assert_eq!(grid.cell(0, 0).ch, 'h');
    assert_eq!(grid.cell(1, 0).ch, 'e');
    assert_eq!(grid.cell(2, 0).ch, 'l');
    assert_eq!(grid.cell(3, 0).ch, 'l');
    assert_eq!(grid.cell(4, 0).ch, 'o');
}

#[test]
fn newline_moves_cursor_to_next_row() {
    let mut term = Terminal::new(80, 24);

    term.feed(b"hello\nworld");

    let grid = term.snapshot();
    assert_eq!(grid.cell(0, 0).ch, 'h');
    assert_eq!(grid.cell(5, 1).ch, 'w');
}

#[test]
fn carriage_return_moves_cursor_to_column_zero() {
    let mut term = Terminal::new(80, 24);

    term.feed(b"hello\rY");

    let grid = term.snapshot();
    assert_eq!(grid.cell(0, 0).ch, 'Y');
    assert_eq!(grid.cell(1, 0).ch, 'e');
}

#[test]
fn csi_clear_screen_erases_visible_grid() {
    let mut term = Terminal::new(80, 24);

    term.feed(b"hello\x1b[2J");

    let grid = term.snapshot();
    assert_eq!(grid.cell(0, 0).ch, ' ');
    assert_eq!(grid.cell(1, 0).ch, ' ');
    assert_eq!(grid.cell(2, 0).ch, ' ');
}

#[test]
fn csi_truecolor_fg_sets_cell_color() {
    let mut term = Terminal::new(80, 24);

    term.feed(b"\x1b[38;2;255;0;0mX");

    let grid = term.snapshot();
    assert_eq!(grid.cell(0, 0).ch, 'X');
    assert_eq!(grid.cell(0, 0).fg, Color::Rgb(255, 0, 0));
}

#[test]
fn csi_truecolor_bg_sets_cell_color() {
    let mut term = Terminal::new(80, 24);

    term.feed(b"\x1b[48;2;0;128;255mX");

    let grid = term.snapshot();
    assert_eq!(grid.cell(0, 0).ch, 'X');
    assert_eq!(grid.cell(0, 0).bg, Color::Rgb(0, 128, 255));
}

#[test]
fn csi_truecolor_fg_and_bg_are_preserved_together() {
    let mut term = Terminal::new(80, 24);

    term.feed(b"\x1b[38;2;10;20;30;48;2;40;50;60mX");

    let cell = term.snapshot().cell(0, 0).clone();
    assert_eq!(cell.fg, Color::Rgb(10, 20, 30));
    assert_eq!(cell.bg, Color::Rgb(40, 50, 60));
}

#[test]
fn csi_sequence_split_across_two_feeds_still_parses() {
    let mut term = Terminal::new(80, 24);

    term.feed(b"\x1b[38;2;255;");
    term.feed(b"0;0mX");

    let grid = term.snapshot();
    assert_eq!(grid.cell(0, 0).ch, 'X');
    assert_eq!(grid.cell(0, 0).fg, Color::Rgb(255, 0, 0));
}

#[test]
fn utf8_split_across_two_feeds_still_decodes() {
    let mut term = Terminal::new(80, 24);
    let bytes = "é".as_bytes();

    term.feed(&bytes[..1]);
    term.feed(&bytes[1..]);

    assert_eq!(term.snapshot().cell(0, 0).ch, 'é');
}

#[test]
fn osc_0_bel_sets_window_title() {
    let mut term = Terminal::new(80, 24);

    term.feed(b"\x1b]0;hello\x07");

    assert_eq!(term.window_title(), "hello");
    assert_eq!(term.take_window_title_changed(), Some("hello".to_owned()));
}

#[test]
fn osc_2_bel_sets_window_title() {
    let mut term = Terminal::new(80, 24);

    term.feed(b"\x1b]2;hello\x07");

    assert_eq!(term.window_title(), "hello");
    assert_eq!(term.take_window_title_changed(), Some("hello".to_owned()));
}

#[test]
fn osc_0_st_sets_window_title() {
    let mut term = Terminal::new(80, 24);

    term.feed(b"\x1b]0;hello\x1b\\");

    assert_eq!(term.window_title(), "hello");
    assert_eq!(term.take_window_title_changed(), Some("hello".to_owned()));
}

#[test]
fn osc_title_split_across_feeds_still_updates_title() {
    let mut term = Terminal::new(80, 24);

    term.feed(b"\x1b]0;hel");
    term.feed(b"lo\x07");

    assert_eq!(term.window_title(), "hello");
    assert_eq!(term.take_window_title_changed(), Some("hello".to_owned()));
}

#[test]
fn unsupported_osc_does_not_change_window_title() {
    let mut term = Terminal::new(80, 24);
    term.feed(b"\x1b]0;hello\x07");
    assert_eq!(term.take_window_title_changed(), Some("hello".to_owned()));

    term.feed(b"\x1b]1;icon\x07");

    assert_eq!(term.window_title(), "hello");
    assert_eq!(term.take_window_title_changed(), None);
}

#[test]
fn empty_osc_title_is_allowed() {
    let mut term = Terminal::new(80, 24);

    term.feed(b"\x1b]0;\x07");

    assert_eq!(term.window_title(), "");
    assert_eq!(term.take_window_title_changed(), Some(String::new()));
}

#[test]
fn osc_title_update_preserves_grid_contents() {
    let mut term = Terminal::new(80, 24);
    term.feed(b"hi");

    term.feed(b"\x1b]0;hello\x07");

    let grid = term.snapshot();
    assert_eq!(grid.cell(0, 0).ch, 'h');
    assert_eq!(grid.cell(1, 0).ch, 'i');
    assert_eq!(term.window_title(), "hello");
}

#[test]
fn osc_title_control_chars_are_removed() {
    let mut term = Terminal::new(80, 24);

    term.feed(b"\x1b]0;clean\x01\t title\x07");

    assert_eq!(term.window_title(), "clean title");
    assert_eq!(
        term.take_window_title_changed(),
        Some("clean title".to_owned())
    );
}

#[test]
fn oversized_osc_title_is_safely_limited() {
    let mut term = Terminal::new(80, 24);
    let mut bytes = b"\x1b]0;".to_vec();
    bytes.extend(std::iter::repeat_n(b'a', MAX_WINDOW_TITLE_CHARS * 2));
    bytes.push(b'\x07');

    term.feed(&bytes);

    assert!(term.window_title().chars().count() <= MAX_WINDOW_TITLE_CHARS);
    assert_eq!(term.snapshot().cell(0, 0).ch, ' ');
}

#[test]
fn osc8_bel_attaches_hyperlink_to_visible_cells() {
    let mut term = Terminal::new(10, 1);

    term.feed(b"\x1b]8;id=foo;https://example.com\x07hi");

    let grid = term.snapshot();
    assert_eq!(line_text(&grid, 0), "hi        ");
    assert_eq!(grid.hyperlinks.len(), 1);
    assert_eq!(
        grid.hyperlink_at_cell(0, 0),
        Some(&Hyperlink {
            id: Some("foo".to_owned()),
            uri: "https://example.com".to_owned(),
        })
    );
    assert_eq!(grid.cell(0, 0).hyperlink, grid.cell(1, 0).hyperlink);
}

#[test]
fn osc8_st_attaches_hyperlink_without_explicit_id() {
    let mut term = Terminal::new(10, 1);

    term.feed(b"\x1b]8;;https://example.com\x1b\\X");

    let hyperlink = term.hyperlink_at_cell(0, 0).unwrap();
    assert_eq!(hyperlink.id, None);
    assert_eq!(hyperlink.uri, "https://example.com");
}

#[test]
fn osc8_close_removes_hyperlink_from_following_cells() {
    let mut term = Terminal::new(10, 1);

    term.feed(b"\x1b]8;;https://example.com\x07A\x1b]8;;\x07B");

    let grid = term.snapshot();
    assert!(grid.hyperlink_at_cell(0, 0).is_some());
    assert_eq!(grid.hyperlink_at_cell(1, 0), None);
}

#[test]
fn osc8_split_across_feeds_still_sets_hyperlink() {
    let mut term = Terminal::new(10, 1);

    term.feed(b"\x1b]8;id=foo;https://exa");
    term.feed(b"mple.com\x07X");

    let hyperlink = term.hyperlink_at_cell(0, 0).unwrap();
    assert_eq!(hyperlink.id, Some("foo".to_owned()));
    assert_eq!(hyperlink.uri, "https://example.com");
}

#[test]
fn osc8_st_split_across_feeds_still_sets_hyperlink() {
    let mut term = Terminal::new(10, 1);

    term.feed(b"\x1b]8;;https://example.com\x1b");
    term.feed(b"\\X");

    assert_eq!(
        term.hyperlink_at_cell(0, 0).map(|hyperlink| hyperlink.uri),
        Some("https://example.com".to_owned())
    );
}

#[test]
fn osc8_unsupported_params_preserve_uri() {
    let mut term = Terminal::new(10, 1);

    term.feed(b"\x1b]8;foo=bar;https://example.com\x07X");

    let hyperlink = term.hyperlink_at_cell(0, 0).unwrap();
    assert_eq!(hyperlink.id, None);
    assert_eq!(hyperlink.uri, "https://example.com");
}

#[test]
fn osc8_empty_uri_closes_current_hyperlink() {
    let mut term = Terminal::new(10, 1);

    term.feed(b"\x1b]8;;https://example.com\x07A\x1b]8;;\x1b\\B");

    assert!(term.hyperlink_at_cell(0, 0).is_some());
    assert_eq!(term.hyperlink_at_cell(1, 0), None);
}

#[test]
fn osc8_sequence_itself_is_not_rendered_to_grid() {
    let mut term = Terminal::new(5, 1);

    term.feed(b"\x1b]8;;https://example.com\x07X\x1b]8;;\x07");

    assert_eq!(line_text(&term.snapshot(), 0), "X    ");
}

#[test]
fn osc8_hyperlink_metadata_survives_primary_scrollback() {
    let mut term = Terminal::with_scrollback(5, 2, 10);
    term.feed(b"\x1b]8;id=hist;https://example.com\x07A\x1b]8;;\x07\r\n");
    term.feed(b"B\r\nC\r\n");

    term.scroll_to_top();
    let grid = term.snapshot();
    let (column, row) = find_cell(&grid, 'A').expect("history cell should be visible");

    assert_eq!(
        grid.hyperlink_at_cell(column, row),
        Some(&Hyperlink {
            id: Some("hist".to_owned()),
            uri: "https://example.com".to_owned(),
        })
    );
    assert_eq!(
        term.hyperlink_at_cell(column, row)
            .map(|hyperlink| hyperlink.uri),
        Some("https://example.com".to_owned())
    );
}

#[test]
fn alternate_screen_hyperlinks_do_not_enter_primary_scrollback() {
    let mut term = Terminal::with_scrollback(5, 2, 10);
    term.feed(b"A\r\nB\r\n");
    term.feed(b"\x1b[?1049h");
    term.feed(b"\x1b]8;;https://example.com\x07X\x1b]8;;\x07\r\nY\r\nZ\r\n");
    term.feed(b"\x1b[?1049l");

    term.scroll_to_top();
    let grid = term.snapshot();

    assert!(!snapshot_text(&grid).contains('X'));
    assert!(grid.hyperlinks.is_empty());
}

#[test]
fn selected_text_does_not_include_hyperlink_uri() {
    let mut term = Terminal::new(10, 1);
    term.feed(b"\x1b]8;;https://example.com\x07hello\x1b]8;;\x07");

    term.begin_selection(point(0, 0), SelectionMode::Simple);
    term.update_selection(point(4, 0));

    assert_eq!(term.selected_text(), Some("hello".to_owned()));
}

#[test]
fn scrollback_hyperlink_selection_copies_display_text_only() {
    let mut term = Terminal::with_scrollback(8, 2, 10);
    term.feed(b"\x1b]8;id=hist;https://example.com\x07LINK\x1b]8;;\x07\r\n");
    term.feed(b"NEXT\r\nTAIL\r\n");
    term.scroll_to_top();
    let grid = term.snapshot();
    let (column, row) = find_cell(&grid, 'L').expect("history link should be visible");

    assert_eq!(
        grid.hyperlink_at_cell(column, row),
        Some(&Hyperlink {
            id: Some("hist".to_owned()),
            uri: "https://example.com".to_owned(),
        })
    );

    let start = term.selection_point_for_visible_cell(column, row).unwrap();
    let end = term
        .selection_point_for_visible_cell(column + 3, row)
        .unwrap();
    term.begin_selection(start, SelectionMode::Simple);
    term.update_selection(end);

    assert_eq!(term.selected_text(), Some("LINK".to_owned()));
}

#[test]
fn has_selection_tracks_selection_lifecycle() {
    let mut term = Terminal::new(10, 1);
    term.feed(b"hello");

    assert!(!term.has_selection());
    term.begin_selection(point(0, 0), SelectionMode::Simple);
    assert!(term.has_selection());
    term.clear_selection();
    assert!(!term.has_selection());
}

#[test]
fn osc_title_and_osc8_hyperlink_metadata_coexist() {
    let mut term = Terminal::new(10, 1);

    term.feed(b"\x1b]0;title test\x07");
    term.feed(b"\x1b]8;id=abc;https://example.com\x07hello\x1b]8;;\x07");

    assert_eq!(term.window_title(), "title test");
    assert_eq!(
        term.take_window_title_changed(),
        Some("title test".to_owned())
    );
    assert_eq!(
        term.hyperlink_at_cell(0, 0),
        Some(Hyperlink {
            id: Some("abc".to_owned()),
            uri: "https://example.com".to_owned(),
        })
    );
}

#[test]
fn hyperlink_metadata_is_sanitized_and_limited() {
    let hyperlink = hyperlink_from_parts(
        &format!("id\x01{}", "a".repeat(MAX_HYPERLINK_ID_BYTES * 2)),
        &format!(
            "https://example.com/\x02{}",
            "b".repeat(MAX_HYPERLINK_URI_BYTES * 2)
        ),
    )
    .expect("long hyperlink should be truncated rather than dropped");

    let id = hyperlink.id.expect("non-empty id should remain present");
    assert!(id.len() <= MAX_HYPERLINK_ID_BYTES);
    assert!(hyperlink.uri.len() <= MAX_HYPERLINK_URI_BYTES);
    assert!(!id.chars().any(char::is_control));
    assert!(!hyperlink.uri.chars().any(char::is_control));
}

#[test]
fn osc8_invalid_utf8_does_not_panic_or_render_escape_bytes() {
    let mut term = Terminal::new(5, 1);

    term.feed(b"\x1b]8;;https://exa\xffmple.com\x07X");

    let grid = term.snapshot();
    assert_eq!(line_text(&grid, 0), "X    ");
    assert_eq!(grid.hyperlink_at_cell(0, 0), None);
}

#[test]
fn hyperlink_at_cell_returns_none_for_unlinked_or_out_of_range_cells() {
    let mut term = Terminal::new(5, 1);
    term.feed(b"\x1b]8;;https://example.com\x07A\x1b]8;;\x07B");
    let grid = term.snapshot();

    assert!(grid.hyperlink_at_cell(0, 0).is_some());
    assert_eq!(grid.hyperlink_at_cell(1, 0), None);
    assert_eq!(grid.hyperlink_at_cell(5, 0), None);
    assert_eq!(term.hyperlink_at_cell(5, 0), None);
}

#[test]
fn take_window_title_changed_is_one_shot() {
    let mut term = Terminal::new(80, 24);
    term.feed(b"\x1b]2;hello\x07");

    assert_eq!(term.take_window_title_changed(), Some("hello".to_owned()));
    assert_eq!(term.take_window_title_changed(), None);
}

#[test]
fn resize_changes_visible_grid_size() {
    let mut term = Terminal::new(80, 24);

    term.resize(100, 30);

    let grid = term.snapshot();
    assert_eq!(grid.cols, 100);
    assert_eq!(grid.rows, 30);
    assert_eq!(grid.cells.len(), 3000);
    assert_eq!(grid.cursor.x, 0);
    assert_eq!(grid.cursor.y, 0);
    assert!(grid.cursor.visible);
}

#[test]
fn feed_records_line_damage_until_taken() {
    let mut term = Terminal::new(80, 24);

    assert_eq!(term.take_damage(), Damage::Full);
    assert_eq!(term.take_damage(), Damage::Clean);
    term.feed(b"hello");
    match term.take_damage() {
        Damage::Lines(lines) => {
            assert!(
                lines
                    .iter()
                    .any(|line| line.line == 0 && line.left == 0 && line.right >= 5)
            );
        }
        damage => panic!("expected line damage, got {damage:?}"),
    }
    assert_eq!(term.take_damage(), Damage::Clean);
}

#[test]
fn device_status_report_writes_cursor_position_reply_to_pty() {
    let mut term = Terminal::new(80, 24);

    term.feed(b"\x1b[6n");

    assert_eq!(term.take_pty_writes(), vec!["\x1b[1;1R".to_owned()]);
    assert_eq!(term.take_pty_writes(), Vec::<String>::new());
}

#[test]
fn sgr_background_and_style_flags_are_exposed_in_snapshot() {
    let mut term = Terminal::new(80, 24);

    term.feed(b"\x1b[1;3;4;7;48;2;1;2;3mX");

    let cell = term.snapshot().cell(0, 0).clone();
    assert_eq!(cell.ch, 'X');
    assert_eq!(cell.bg, Color::Rgb(1, 2, 3));
    assert!(cell.flags.bold);
    assert!(cell.flags.italic);
    assert!(cell.flags.underline);
    assert!(cell.flags.inverse);
}

#[test]
fn wide_character_marks_leading_cell_and_spacer() {
    let mut term = Terminal::new(80, 24);

    term.feed("界".as_bytes());

    let grid = term.snapshot();
    assert_eq!(grid.cell(0, 0).ch, '界');
    assert!(grid.cell(0, 0).flags.wide);
    assert!(grid.cell(1, 0).flags.wide_spacer);
}

#[test]
fn dec_private_mode_can_hide_cursor_in_snapshot() {
    let mut term = Terminal::new(80, 24);

    assert!(term.snapshot().cursor.visible);
    term.feed(b"\x1b[?25l");

    assert!(!term.snapshot().cursor.visible);
}

#[test]
fn dec_1049_alt_screen_preserves_and_restores_primary_screen() {
    let mut term = Terminal::new(10, 3);

    term.feed(b"primary");
    term.feed(b"\x1b[?1049h");
    term.feed(b"\x1b[H");
    term.feed(b"alt");

    assert_eq!(term.snapshot().cell(0, 0).ch, 'a');

    term.feed(b"\x1b[?1049l");
    let grid = term.snapshot();
    assert_eq!(grid.cell(0, 0).ch, 'p');
    assert_eq!(grid.cell(1, 0).ch, 'r');
    assert_eq!(grid.cell(2, 0).ch, 'i');
}

#[test]
fn dec_1047_alt_screen_preserves_and_restores_primary_screen() {
    let mut term = Terminal::new(10, 3);

    term.feed(b"primary");
    term.feed(b"\x1b[?1047h");
    term.feed(b"\x1b[H");
    term.feed(b"alt");

    assert_eq!(term.snapshot().cell(0, 0).ch, 'a');

    term.feed(b"\x1b[?1047l");
    let grid = term.snapshot();
    assert_eq!(grid.cell(0, 0).ch, 'p');
    assert_eq!(grid.cell(1, 0).ch, 'r');
    assert_eq!(grid.cell(2, 0).ch, 'i');
}

#[test]
fn dec_1048_saves_and_restores_cursor_position() {
    let mut term = Terminal::new(10, 5);

    term.feed(b"\x1b[2;3H");
    term.feed(b"\x1b[?1048h");
    term.feed(b"\x1b[4;5H");
    assert_eq!(term.snapshot().cursor.x, 4);
    assert_eq!(term.snapshot().cursor.y, 3);

    term.feed(b"\x1b[?1048l");
    let cursor = term.snapshot().cursor;
    assert_eq!(cursor.x, 2);
    assert_eq!(cursor.y, 1);
}

#[test]
fn dec_1048_split_across_feeds_still_restores_cursor_position() {
    let mut term = Terminal::new(10, 5);

    term.feed(b"\x1b[2;3H");
    term.feed(b"\x1b[?1048h");
    term.feed(b"\x1b[4;5H");
    term.feed(b"\x1b[?104");
    term.feed(b"8l");

    let cursor = term.snapshot().cursor;
    assert_eq!(cursor.x, 2);
    assert_eq!(cursor.y, 1);
}

#[test]
fn decstbm_scrolls_only_inside_scroll_region() {
    let mut term = Terminal::new(5, 4);

    term.feed(b"\x1b[1;1HA\x1b[2;1HB\x1b[3;1HC\x1b[4;1HD");
    term.feed(b"\x1b[2;3r\x1b[3;1H\n");

    let grid = term.snapshot();
    assert_eq!(grid.cell(0, 0).ch, 'A');
    assert_eq!(grid.cell(0, 1).ch, 'C');
    assert_eq!(grid.cell(0, 2).ch, ' ');
    assert_eq!(grid.cell(0, 3).ch, 'D');
}

#[test]
fn origin_mode_addresses_cursor_relative_to_scroll_region() {
    let mut term = Terminal::new(5, 5);

    term.feed(b"\x1b[2;4r\x1b[?6h\x1b[1;1HX");
    assert_eq!(term.snapshot().cell(0, 1).ch, 'X');

    term.feed(b"\x1b[?6l\x1b[1;1HY");
    assert_eq!(term.snapshot().cell(0, 0).ch, 'Y');
}

#[test]
fn delete_line_is_limited_to_scroll_region() {
    let mut term = Terminal::new(5, 5);

    term.feed(b"\x1b[1;1HA\x1b[2;1HB\x1b[3;1HC\x1b[4;1HD\x1b[5;1HE");
    term.feed(b"\x1b[2;4r\x1b[2;1H\x1b[1M");

    let grid = term.snapshot();
    assert_eq!(grid.cell(0, 0).ch, 'A');
    assert_eq!(grid.cell(0, 1).ch, 'C');
    assert_eq!(grid.cell(0, 2).ch, 'D');
    assert_eq!(grid.cell(0, 3).ch, ' ');
    assert_eq!(grid.cell(0, 4).ch, 'E');
}

#[test]
fn insert_line_is_limited_to_scroll_region() {
    let mut term = Terminal::new(5, 5);

    term.feed(b"\x1b[1;1HA\x1b[2;1HB\x1b[3;1HC\x1b[4;1HD\x1b[5;1HE");
    term.feed(b"\x1b[2;4r\x1b[3;1H\x1b[1L");

    let grid = term.snapshot();
    assert_eq!(grid.cell(0, 0).ch, 'A');
    assert_eq!(grid.cell(0, 1).ch, 'B');
    assert_eq!(grid.cell(0, 2).ch, ' ');
    assert_eq!(grid.cell(0, 3).ch, 'C');
    assert_eq!(grid.cell(0, 4).ch, 'E');
}

#[test]
fn insert_and_delete_character_affect_only_current_line() {
    let mut term = Terminal::new(5, 2);

    term.feed(b"abcde\x1b[2;1Hvwxyz\x1b[1;3H\x1b[2@");
    let grid = term.snapshot();
    assert_eq!(line_text(&grid, 0), "ab  c");
    assert_eq!(line_text(&grid, 1), "vwxyz");

    term.feed(b"\x1b[2;2H\x1b[2P");
    let grid = term.snapshot();
    assert_eq!(line_text(&grid, 1), "vyz  ");
}

#[test]
fn insert_character_preserves_wide_cell_pairing() {
    let mut term = Terminal::new(6, 1);

    term.feed("A界BC".as_bytes());
    term.feed(b"\x1b[1;2H\x1b[1@");

    let grid = term.snapshot();
    let wide_column = (0..grid.cols)
        .find(|column| grid.cell(*column, 0).flags.wide)
        .expect("wide cell should remain visible");
    assert!(grid.cell(wide_column + 1, 0).flags.wide_spacer);
}

#[test]
fn bracketed_paste_wraps_payload_only_when_mode_is_enabled() {
    let mut term = Terminal::new(10, 3);

    assert!(!term.bracketed_paste_enabled());
    assert_eq!(term.paste_bytes(b"hello"), b"hello");

    term.feed(b"\x1b[?2004h");
    assert!(term.bracketed_paste_enabled());
    assert_eq!(term.paste_bytes(b"hello"), b"\x1b[200~hello\x1b[201~");

    term.feed(b"\x1b[?2004l");
    assert!(!term.bracketed_paste_enabled());
    assert_eq!(term.paste_bytes(b"hello"), b"hello");
}

#[test]
fn sgr_mouse_mode_can_be_enabled_and_disabled() {
    let mut term = Terminal::new(10, 3);

    assert_eq!(term.mouse_modes().encoding, MouseEncoding::Default);
    term.feed(b"\x1b[?1006h");
    assert_eq!(term.mouse_modes().encoding, MouseEncoding::Sgr);

    term.feed(b"\x1b[?1006l");
    assert_eq!(term.mouse_modes().encoding, MouseEncoding::Default);
}

#[test]
fn normal_mouse_reporting_can_be_enabled() {
    let mut term = Terminal::new(10, 3);

    term.feed(b"\x1b[?1000h");

    assert_eq!(
        term.mouse_modes(),
        MouseModes {
            protocol: MouseProtocol::Normal,
            encoding: MouseEncoding::Default,
            focus_events: false,
        }
    );
}

#[test]
fn button_motion_mouse_reporting_has_priority_over_normal() {
    let mut term = Terminal::new(10, 3);

    term.feed(b"\x1b[?1000h");
    term.feed(b"\x1b[?1002h");

    assert_eq!(term.mouse_modes().protocol, MouseProtocol::ButtonMotion);

    term.feed(b"\x1b[?1002l");
    assert_eq!(term.mouse_modes().protocol, MouseProtocol::Normal);
}

#[test]
fn any_motion_mouse_reporting_has_priority_over_button_motion() {
    let mut term = Terminal::new(10, 3);

    term.feed(b"\x1b[?1000;1002h");
    term.feed(b"\x1b[?1003h");

    assert_eq!(term.mouse_modes().protocol, MouseProtocol::AnyMotion);

    term.feed(b"\x1b[?1003l");
    assert_eq!(term.mouse_modes().protocol, MouseProtocol::ButtonMotion);
}

#[test]
fn focus_event_mode_can_be_enabled_and_disabled() {
    let mut term = Terminal::new(10, 3);

    assert!(!term.focus_events_enabled());
    term.feed(b"\x1b[?1004h");
    assert!(term.focus_events_enabled());

    term.feed(b"\x1b[?1004l");
    assert!(!term.focus_events_enabled());
}

#[test]
fn sgr_left_press_uses_one_based_coordinates() {
    let mut term = Terminal::new(10, 3);
    term.feed(b"\x1b[?1000;1006h");

    assert_eq!(
        term.encode_mouse_event(mouse_event(MouseEventKind::Press, Some(MouseButton::Left))),
        Some(b"\x1b[<0;3;2M".to_vec())
    );
}

#[test]
fn sgr_left_release_uses_lowercase_final_byte() {
    let mut term = Terminal::new(10, 3);
    term.feed(b"\x1b[?1000;1006h");

    assert_eq!(
        term.encode_mouse_event(mouse_event(
            MouseEventKind::Release,
            Some(MouseButton::Left)
        )),
        Some(b"\x1b[<0;3;2m".to_vec())
    );
}

#[test]
fn sgr_wheel_up_and_down_use_wheel_button_codes() {
    let mut term = Terminal::new(10, 3);
    term.feed(b"\x1b[?1000;1006h");

    assert_eq!(
        term.encode_mouse_event(mouse_event(
            MouseEventKind::Wheel,
            Some(MouseButton::WheelUp)
        )),
        Some(b"\x1b[<64;3;2M".to_vec())
    );
    assert_eq!(
        term.encode_mouse_event(mouse_event(
            MouseEventKind::Wheel,
            Some(MouseButton::WheelDown)
        )),
        Some(b"\x1b[<65;3;2M".to_vec())
    );
}

#[test]
fn sgr_modifiers_are_added_to_button_code() {
    let mut term = Terminal::new(10, 3);
    term.feed(b"\x1b[?1000;1006h");

    assert_eq!(
        term.encode_mouse_event(TerminalMouseEvent {
            shift: true,
            alt: true,
            ctrl: true,
            ..mouse_event(MouseEventKind::Press, Some(MouseButton::Left))
        }),
        Some(b"\x1b[<28;3;2M".to_vec())
    );
}

#[test]
fn focus_events_encode_only_when_enabled() {
    let mut term = Terminal::new(10, 3);

    assert_eq!(term.encode_focus_event(true), None);
    assert_eq!(term.encode_focus_event(false), None);

    term.feed(b"\x1b[?1004h");
    assert_eq!(term.encode_focus_event(true), Some(b"\x1b[I".to_vec()));
    assert_eq!(term.encode_focus_event(false), Some(b"\x1b[O".to_vec()));
}

#[test]
fn mouse_event_encoding_returns_none_when_reporting_is_off() {
    let term = Terminal::new(10, 3);

    assert_eq!(
        term.encode_mouse_event(mouse_event(MouseEventKind::Press, Some(MouseButton::Left))),
        None
    );
}

#[test]
fn motion_reporting_respects_enabled_protocol() {
    let mut term = Terminal::new(10, 3);
    term.feed(b"\x1b[?1000;1006h");
    assert_eq!(
        term.encode_mouse_event(mouse_event(MouseEventKind::Move, None)),
        None
    );

    term.feed(b"\x1b[?1003h");
    assert_eq!(
        term.encode_mouse_event(mouse_event(MouseEventKind::Move, None)),
        Some(b"\x1b[<35;3;2M".to_vec())
    );
}

#[test]
fn resize_clamps_cursor_to_visible_grid_and_reports_full_damage() {
    let mut term = Terminal::new(5, 5);

    term.take_damage();
    term.feed(b"\x1b[5;5H");
    term.take_damage();
    term.resize(2, 2);

    let grid = term.snapshot();
    assert!(grid.cursor.x < grid.cols);
    assert!(grid.cursor.y < grid.rows);
    assert_eq!(term.take_damage(), Damage::Full);
}

#[test]
fn zero_scrollback_limit_disables_history() {
    let mut term = Terminal::with_scrollback(5, 2, 0);

    feed_lines(&mut term, &["A", "B", "C", "D"]);

    assert_eq!(term.scrollback_len(), 0);
    assert_eq!(term.scroll_offset(), 0);
}

#[test]
fn output_beyond_visible_height_increases_scrollback_len() {
    let mut term = Terminal::with_scrollback(5, 2, 10);

    feed_lines(&mut term, &["A", "B", "C", "D"]);

    assert!(term.scrollback_len() > 0);
}

#[test]
fn scrollback_limit_discards_oldest_lines() {
    let mut term = Terminal::with_scrollback(5, 2, 2);

    feed_lines(&mut term, &["A", "B", "C", "D", "E"]);

    assert_eq!(term.scrollback_len(), 2);
    term.scroll_to_top();
    let grid = term.snapshot();
    assert_ne!(line_text(&grid, 0).trim_end(), "A");
    assert_ne!(line_text(&grid, 0).trim_end(), "B");
}

#[test]
fn scroll_api_clamps_offsets_and_reports_damage() {
    let mut term = Terminal::with_scrollback(5, 2, 10);
    feed_lines(&mut term, &["A", "B", "C", "D"]);

    assert_eq!(term.scroll_offset(), 0);
    assert_eq!(term.scroll_up_lines(1), Damage::Full);
    assert_eq!(term.scroll_offset(), 1);
    assert_eq!(term.scroll_down_lines(1), Damage::Full);
    assert_eq!(term.scroll_offset(), 0);

    assert_eq!(term.scroll_to_top(), Damage::Full);
    assert_eq!(term.scroll_offset(), term.scrollback_len());
    assert_eq!(term.scroll_up_lines(usize::MAX), Damage::Clean);
    assert_eq!(term.scroll_to_bottom(), Damage::Full);
    assert_eq!(term.scroll_offset(), 0);
}

#[test]
fn scrolled_snapshot_contains_history_and_hides_cursor() {
    let mut term = Terminal::with_scrollback(5, 3, 10);
    feed_lines(&mut term, &["A", "B", "C", "D"]);

    term.scroll_up_lines(2);
    let grid = term.snapshot();
    let text = snapshot_text(&grid);

    assert!(text.contains('A') || text.contains('B'));
    assert!(!grid.cursor.visible);
}

#[test]
fn feed_returns_scrolled_view_to_bottom() {
    let mut term = Terminal::with_scrollback(5, 2, 10);
    feed_lines(&mut term, &["A", "B", "C", "D"]);
    term.scroll_to_top();

    term.feed(b"Z");

    assert_eq!(term.scroll_offset(), 0);
    assert!(term.snapshot().cursor.visible);
}

#[test]
fn alternate_screen_output_does_not_enter_primary_scrollback() {
    let mut term = Terminal::with_scrollback(5, 2, 10);
    feed_lines(&mut term, &["A", "B", "C"]);
    let primary_history_len = term.scrollback_len();

    term.feed(b"\x1b[?1049h");
    feed_lines(&mut term, &["X", "Y", "Z"]);
    assert_eq!(term.scrollback_len(), 0);

    term.feed(b"\x1b[?1049l");
    assert_eq!(term.scrollback_len(), primary_history_len);
    term.scroll_to_top();
    assert!(snapshot_text(&term.snapshot()).contains('A'));
}

#[test]
fn resize_clamps_scroll_offset_to_available_history() {
    let mut term = Terminal::with_scrollback(5, 2, 10);
    feed_lines(&mut term, &["A", "B", "C", "D", "E"]);
    term.scroll_to_top();

    term.resize(5, 5);

    assert!(term.scroll_offset() <= term.scrollback_len());
}

#[test]
fn scrolled_snapshot_preserves_wide_cell_pairing() {
    let mut term = Terminal::with_scrollback(5, 2, 10);
    term.feed("界\r\nA\r\nB".as_bytes());

    term.scroll_to_top();
    let grid = term.snapshot();
    let wide_column = (0..grid.rows)
        .flat_map(|row| (0..grid.cols).map(move |column| (column, row)))
        .find(|(column, row)| grid.cell(*column, *row).flags.wide)
        .expect("wide cell should be present in scrolled snapshot");

    assert!(
        grid.cell(wide_column.0 + 1, wide_column.1)
            .flags
            .wide_spacer
    );
}

#[test]
fn single_line_selection_returns_selected_text() {
    let mut term = Terminal::new(20, 2);
    term.feed(b"hello world");

    term.begin_selection(point(0, 0), SelectionMode::Simple);
    term.update_selection(point(4, 0));

    assert_eq!(term.selected_text(), Some("hello".to_owned()));
}

#[test]
fn multi_line_selection_joins_lines_with_lf() {
    let mut term = Terminal::new(20, 3);
    term.feed(b"hello world\r\nabc def");

    term.begin_selection(point(0, 0), SelectionMode::Simple);
    term.update_selection(point(2, 1));

    assert_eq!(term.selected_text(), Some("hello world\nabc".to_owned()));
}

#[test]
fn reversed_selection_returns_same_text() {
    let mut term = Terminal::new(20, 3);
    term.feed(b"hello world\r\nabc def");

    term.begin_selection(point(2, 1), SelectionMode::Simple);
    term.update_selection(point(0, 0));

    assert_eq!(term.selected_text(), Some("hello world\nabc".to_owned()));
}

#[test]
fn reversed_selection_normalizes_same_line_and_multi_line_ranges() {
    let mut same_line = Terminal::new(20, 2);
    same_line.feed(b"hello world");
    same_line.begin_selection(point(4, 0), SelectionMode::Simple);
    same_line.update_selection(point(1, 0));

    assert_eq!(same_line.selected_text(), Some("ello".to_owned()));
    assert_eq!(
        same_line.selection_rects(),
        vec![SelectionRect {
            col: 1,
            row: 0,
            width: 4,
            height: 1,
        }]
    );

    let mut multi_line = Terminal::new(20, 3);
    multi_line.feed(b"hello world\r\nabc def");
    multi_line.begin_selection(point(2, 1), SelectionMode::Simple);
    multi_line.update_selection(point(0, 0));

    assert_eq!(
        multi_line.selected_text(),
        Some("hello world\nabc".to_owned())
    );
    assert_eq!(
        multi_line.selection_rects(),
        vec![
            SelectionRect {
                col: 0,
                row: 0,
                width: 20,
                height: 1,
            },
            SelectionRect {
                col: 0,
                row: 1,
                width: 3,
                height: 1,
            },
        ]
    );
}

#[test]
fn selection_contains_visible_cell_uses_normalized_range() {
    let mut term = Terminal::new(20, 3);
    term.feed(b"hello world\r\nabc def");
    term.begin_selection(point(4, 0), SelectionMode::Simple);
    term.update_selection(point(1, 0));

    assert!(!term.selection_contains_visible_cell(0, 0));
    assert!(term.selection_contains_visible_cell(1, 0));
    assert!(term.selection_contains_visible_cell(4, 0));
    assert!(!term.selection_contains_visible_cell(5, 0));

    term.clear_selection();
    term.begin_selection(point(2, 1), SelectionMode::Simple);
    term.update_selection(point(0, 0));

    assert!(term.selection_contains_visible_cell(19, 0));
    assert!(term.selection_contains_visible_cell(2, 1));
    assert!(!term.selection_contains_visible_cell(3, 1));
}

#[test]
fn selection_skips_wide_spacer_cells() {
    let mut term = Terminal::new(10, 1);
    term.feed("A界B".as_bytes());

    term.begin_selection(point(0, 0), SelectionMode::Simple);
    term.update_selection(point(3, 0));

    assert_eq!(term.selected_text(), Some("A界B".to_owned()));
}

#[test]
fn scrollback_selection_extracts_visible_history_text() {
    let mut term = Terminal::with_scrollback(5, 2, 10);
    feed_lines(&mut term, &["A", "B", "C", "D"]);
    term.scroll_to_top();
    let grid = term.snapshot();
    let expected = (0..grid.rows)
        .map(|row| line_text(&grid, row).trim_end().to_owned())
        .collect::<Vec<_>>()
        .join("\n");

    let start = term.selection_point_for_visible_cell(0, 0).unwrap();
    let end = term.selection_point_for_visible_cell(4, 1).unwrap();
    term.begin_selection(start, SelectionMode::Simple);
    term.update_selection(end);

    assert_eq!(term.selected_text(), Some(expected));
}

#[test]
fn scrolled_selection_rects_only_include_visible_rows() {
    let mut term = Terminal::with_scrollback(5, 2, 10);
    feed_lines(&mut term, &["A", "B", "C", "D"]);
    term.scroll_to_top();

    let start = term.selection_point_for_visible_cell(1, 0).unwrap();
    let end = term.selection_point_for_visible_cell(3, 1).unwrap();
    term.begin_selection(start, SelectionMode::Simple);
    term.update_selection(end);

    assert_eq!(
        term.selection_rects(),
        vec![
            SelectionRect {
                col: 1,
                row: 0,
                width: 4,
                height: 1,
            },
            SelectionRect {
                col: 0,
                row: 1,
                width: 4,
                height: 1,
            },
        ]
    );
}

#[test]
fn clear_selection_removes_text_and_rects() {
    let mut term = Terminal::new(10, 1);
    term.feed(b"hello");
    term.begin_selection(point(0, 0), SelectionMode::Simple);
    term.update_selection(point(4, 0));

    term.clear_selection();

    assert_eq!(term.selected_text(), None);
    assert!(term.selection_rects().is_empty());
}

#[test]
fn feed_clears_existing_selection() {
    let mut term = Terminal::new(10, 1);
    term.feed(b"hello");
    term.begin_selection(point(0, 0), SelectionMode::Simple);
    term.update_selection(point(4, 0));

    term.feed(b"!");

    assert_eq!(term.selected_text(), None);
    assert!(term.snapshot().selection_rects.is_empty());
}

#[test]
fn resize_clears_existing_selection() {
    let mut term = Terminal::new(10, 1);
    term.feed(b"hello");
    term.begin_selection(point(0, 0), SelectionMode::Simple);
    term.update_selection(point(4, 0));

    term.resize(20, 2);

    assert_eq!(term.selected_text(), None);
    assert!(term.selection_rects().is_empty());
}

#[test]
fn word_selection_expands_ascii_word_constituents() {
    let mut term = Terminal::new(20, 1);
    term.feed(b"foo/bar baz");

    term.begin_selection(point(2, 0), SelectionMode::Word);

    assert_eq!(term.selected_text(), Some("foo/bar".to_owned()));
}

#[test]
fn line_selection_selects_visible_line_without_trailing_spaces() {
    let mut term = Terminal::new(20, 2);
    term.feed(b"hello   \r\nnext");

    term.begin_selection(point(3, 0), SelectionMode::Line);

    assert_eq!(term.selected_text(), Some("hello".to_owned()));
}

#[test]
fn alternate_screen_selection_does_not_read_primary_scrollback() {
    let mut term = Terminal::with_scrollback(5, 2, 10);
    feed_lines(&mut term, &["A", "B", "C"]);
    term.feed(b"\x1b[?1049h");
    term.feed(b"\x1b[Halt");

    term.begin_selection(point(0, 0), SelectionMode::Simple);
    term.update_selection(point(2, 0));

    assert_eq!(term.selected_text(), Some("alt".to_owned()));
}

#[test]
fn non_full_scroll_region_without_top_edge_does_not_add_scrollback() {
    let mut term = Terminal::with_scrollback(5, 4, 10);

    term.feed(b"\x1b[1;1HA\x1b[2;1HB\x1b[3;1HC\x1b[4;1HD");
    // TODO(phase4-b): define exact scrollback behavior for all non-full scroll regions.
    term.feed(b"\x1b[2;3r\x1b[3;1H\n");

    assert_eq!(term.scrollback_len(), 0);
}

#[test]
fn image_placement_uses_current_cursor_as_anchor() {
    let mut term = Terminal::new(10, 4);
    term.feed(b"\x1b[2;3H");
    let anchor = term.image_anchor();
    let placement = image_placement(anchor, 2);

    term.add_image_placement(placement);

    assert_eq!(term.snapshot().image_placements, vec![placement]);
    assert_eq!(term.take_damage(), Damage::Full);
}

#[test]
fn image_placement_id_upserts_and_removes_one_logical_placement() {
    let mut term = Terminal::new(10, 4);
    let original = image_placement(GridPoint { col: 0, row: 0 }, 2);
    term.add_image_placement(original);
    let replacement = ImagePlacement {
        anchor: GridPoint { col: 4, row: 1 },
        ..original
    };

    term.upsert_image_placement(replacement);

    assert_eq!(term.snapshot().image_placements, vec![replacement]);
    term.remove_image_placement(replacement.placement_id);
    assert!(term.snapshot().image_placements.is_empty());
}

#[test]
fn removing_image_placements_preserves_other_image_resources() {
    let mut term = Terminal::new(10, 4);
    let first = image_placement(GridPoint { col: 0, row: 0 }, 1);
    let second = ImagePlacement {
        placement_id: ImagePlacementId::new(2),
        image_id: ImageId::new(2),
        anchor: GridPoint { col: 1, row: 0 },
        ..first
    };
    term.add_image_placement(first);
    term.add_image_placement(second);

    term.remove_image_placements(first.image_id);

    assert_eq!(term.snapshot().image_placements, vec![second]);
}

#[test]
fn advancing_after_image_moves_cursor_by_image_rows() {
    let mut term = Terminal::new(10, 6);
    term.feed(b"\x1b[2;3H");

    term.advance_after_image_rows(3);

    let cursor = term.snapshot().cursor;
    assert_eq!((cursor.x, cursor.y), (0, 4));
}

#[test]
fn kitty_image_cursor_moves_after_rectangle_without_writing_cells() {
    let mut term = Terminal::new(10, 6);
    term.feed(b"\x1b[2;3H");

    term.move_after_kitty_image(3, 2);

    let snapshot = term.snapshot();
    assert_eq!((snapshot.cursor.x, snapshot.cursor.y), (5, 2));
    assert!(snapshot.cells.iter().all(|cell| cell.ch == ' '));
}

#[test]
fn kitty_image_cursor_wraps_to_column_zero_at_right_edge() {
    let mut term = Terminal::new(10, 6);
    term.feed(b"\x1b[1;9H");

    term.move_after_kitty_image(3, 2);

    let cursor = term.snapshot().cursor;
    assert_eq!((cursor.x, cursor.y), (0, 2));
}

#[test]
fn image_near_bottom_scrolls_with_generated_rows() {
    let mut term = Terminal::with_scrollback(10, 4, 10);
    term.feed(b"\x1b[4;1H");
    let placement = image_placement(term.image_anchor(), 2);
    term.add_image_placement(placement);

    term.advance_after_image_rows(2);

    let visible = term.snapshot().image_placements;
    assert_eq!(visible.len(), 1);
    assert_eq!(visible[0].anchor.row, 1);
}

#[test]
fn user_scrollback_reveals_image_that_left_current_viewport() {
    let mut term = Terminal::with_scrollback(10, 3, 10);
    term.add_image_placement(image_placement(term.image_anchor(), 1));
    term.feed(b"\r\none\r\ntwo\r\nthree\r\nfour");
    assert!(term.snapshot().image_placements.is_empty());

    term.scroll_to_top();

    assert_eq!(term.snapshot().image_placements.len(), 1);
}

#[test]
fn resize_keeps_image_cell_dimensions() {
    let mut term = Terminal::new(10, 4);
    let placement = image_placement(term.image_anchor(), 3);
    term.add_image_placement(placement);

    term.resize(20, 8);

    let visible = term.snapshot().image_placements;
    assert_eq!(visible[0].columns, placement.columns);
    assert_eq!(visible[0].rows, placement.rows);
}

#[test]
fn terminal_reset_clears_image_placements() {
    let mut term = Terminal::new(10, 4);
    term.add_image_placement(image_placement(term.image_anchor(), 2));

    term.feed(b"\x1bc");

    assert!(term.snapshot().image_placements.is_empty());
}

fn line_text(grid: &GridSnapshot, row: usize) -> String {
    (0..grid.cols)
        .map(|column| grid.cell(column, row).ch)
        .collect()
}

fn snapshot_text(grid: &GridSnapshot) -> String {
    (0..grid.rows)
        .map(|row| line_text(grid, row))
        .collect::<Vec<_>>()
        .join("\n")
}

fn find_cell(grid: &GridSnapshot, ch: char) -> Option<(usize, usize)> {
    (0..grid.rows)
        .flat_map(|row| (0..grid.cols).map(move |column| (column, row)))
        .find(|(column, row)| grid.cell(*column, *row).ch == ch)
}

fn feed_lines(term: &mut Terminal, lines: &[&str]) {
    for line in lines {
        term.feed(line.as_bytes());
        term.feed(b"\r\n");
    }
}

fn point(col: usize, row: isize) -> SelectionPoint {
    SelectionPoint { col, row }
}

fn image_placement(anchor: GridPoint, rows: u16) -> ImagePlacement {
    ImagePlacement {
        placement_id: ImagePlacementId::new(1),
        image_id: ImageId::new(1),
        anchor,
        columns: 2,
        rows,
        source_width: 2,
        source_height: u32::from(rows),
        kitty_image_id: None,
        source_rect: ImageSourceRect { x: 0, y: 0, width: 2, height: u32::from(rows) },
        pixel_offset: ImagePixelOffset::default(),
        z_index: ImageZIndex::default(),
    }
}

fn mouse_event(kind: MouseEventKind, button: Option<MouseButton>) -> TerminalMouseEvent {
    TerminalMouseEvent {
        kind,
        button,
        col: 2,
        row: 1,
        shift: false,
        alt: false,
        ctrl: false,
    }
}


#[test]
fn unfinished_sequence_is_kept_until_the_next_chunk() {
    let mut term = Terminal::new(10, 2);
    term.feed(b"ab\x1b[?1000");
    assert_eq!(term.mouse_modes().protocol, MouseProtocol::Off);
    term.feed(b"h");
    assert_eq!(term.mouse_modes().protocol, MouseProtocol::Normal);
    let grid = term.snapshot();
    assert_eq!(line_text(&grid, 0).trim_end(), "ab");
}

#[test]
fn feed_of_no_bytes_changes_nothing() {
    let mut term = Terminal::new(10, 2);
    term.feed(b"x");
    term.begin_selection(SelectionPoint { col: 0, row: 0 }, SelectionMode::Line);
    term.take_damage();
    term.feed(b"");
    assert!(term.has_selection());
    assert_eq!(term.take_damage(), Damage::Clean);
}

#[test]
fn title_reset_clears_the_window_title() {
    let mut term = Terminal::new(10, 2);
    term.feed(b"\x1b]2;first\x07");
    assert_eq!(term.take_window_title_changed(), Some("first".to_owned()));
    term.feed(b"\x1b]2;\x07");
    assert_eq!(term.window_title(), "");
}
