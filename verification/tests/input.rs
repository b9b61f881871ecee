use knightty::proto::kitty::{encode_response, KittyErrorCode, KittyImageKey, KittyQuiet};
use knightty::term::grid::{Cell, Cursor, GridSnapshot};
use knightty::term::mouse::MouseButton;
use knightty::ui::input::{
    control_character_bytes, find_search_matches, input_bytes, is_config_reload_shortcut,
    is_copy_shortcut, is_find_shortcut, is_paste_shortcut, keyboard_text_input,
    kitty_image_error, route_key_press, scroll_shortcut_for_key, terminal_mouse_button, validate_kitty_chunk, Key,
    KeyRoute, Modifiers, NamedKey, PointerButton, ScrollShortcut, SearchMatch, SearchState,
};
use knightty::ui::inline_image::{ImageLimits, InlineImageError};
use knightty::ui::kitty_graphics::{
    answer_oversized_kitty, append_kitty_chunk, continue_kitty_upload, inline_image_bytes_after, next_id_after,
    plan_kitty_store, route_kitty_command, start_kitty_transmit, ContinuationOutcome,
    KittyCommandRoute, PartialKittyUpload, TransmitStart,
};

const NONE: Modifiers = Modifiers {
    shift: false,
    control: false,
    alt: false,
    super_key: false,
};
const CONTROL: Modifiers = Modifiers {
    control: true,
    ..NONE
};
const ALT: Modifiers = Modifiers { alt: true, ..NONE };
const CONTROL_SHIFT: Modifiers = Modifiers {
    control: true,
    shift: true,
    ..NONE
};

const TRANSPARENT_PNG: &str = "iVBORw0KGgoAAAANSUhEUgAAAAEAAAABCAQAAAC1HAwCAAAAC0lEQVR42mNk+A8AAQUBAScY42YAAAAASUVORK5CYII=";

fn character(value: &str) -> Key {
    Key::Character(value.to_owned())
}

fn snapshot_of(lines: &[&str], cols: usize) -> GridSnapshot {
    let mut cells = Vec::new();
    for line in lines {
        let mut row: Vec<Cell> = line
            .chars()
            .map(|ch| Cell {
                ch,
                ..Cell::default()
            })
            .collect();
        row.resize(cols, Cell::default());
        cells.extend(row);
    }
    GridSnapshot {
        cols,
        rows: lines.len(),
        cells,
        hyperlinks: Vec::new(),
        selection_rects: Vec::new(),
        image_placements: Vec::new(),
        cursor: Cursor::default(),
    }
}

#[test]
fn named_keyboard_keys_write_terminal_sequences() {
    let cases: &[(NamedKey, &[u8])] = &[
        (NamedKey::Enter, b"\r"),
        (NamedKey::Backspace, b"\x7f"),
        (NamedKey::Tab, b"\t"),
        (NamedKey::Escape, b"\x1b"),
        (NamedKey::ArrowUp, b"\x1b[A"),
        (NamedKey::ArrowDown, b"\x1b[B"),
        (NamedKey::ArrowRight, b"\x1b[C"),
        (NamedKey::ArrowLeft, b"\x1b[D"),
        (NamedKey::Home, b"\x1b[H"),
        (NamedKey::End, b"\x1b[F"),
        (NamedKey::PageUp, b"\x1b[5~"),
        (NamedKey::PageDown, b"\x1b[6~"),
        (NamedKey::Insert, b"\x1b[2~"),
        (NamedKey::Delete, b"\x1b[3~"),
        (NamedKey::F1, b"\x1bOP"),
        (NamedKey::F2, b"\x1bOQ"),
        (NamedKey::F3, b"\x1bOR"),
        (NamedKey::F4, b"\x1bOS"),
        (NamedKey::F5, b"\x1b[15~"),
        (NamedKey::F6, b"\x1b[17~"),
        (NamedKey::F7, b"\x1b[18~"),
        (NamedKey::F8, b"\x1b[19~"),
        (NamedKey::F9, b"\x1b[20~"),
        (NamedKey::F10, b"\x1b[21~"),
        (NamedKey::F11, b"\x1b[23~"),
        (NamedKey::F12, b"\x1b[24~"),
    ];

    for &(key, expected) in cases {
        assert_eq!(
            input_bytes(&Key::Named(key), None, NONE),
            Some(expected.to_vec()),
            "{key:?}"
        );
    }
    assert_eq!(input_bytes(&Key::Named(NamedKey::Other), None, NONE), None);
}

#[test]
fn plain_ctrl_c_sends_interrupt_and_is_not_copy() {
    let key = character("c");
    assert!(!is_copy_shortcut(&key, CONTROL));
    assert_eq!(keyboard_text_input(&key, Some("c"), CONTROL), None);
    assert_eq!(input_bytes(&key, Some("c"), CONTROL), Some(b"\x03".to_vec()));
    assert!(is_copy_shortcut(&character("C"), CONTROL_SHIFT));
}

#[test]
fn representative_ctrl_character_mappings_are_written_to_pty() {
    let cases: &[(&str, &[u8])] = &[
        ("a", b"\x01"),
        ("z", b"\x1a"),
        ("[", b"\x1b"),
        ("\\", b"\x1c"),
        ("]", b"\x1d"),
        ("^", b"\x1e"),
        ("_", b"\x1f"),
        (" ", b"\x00"),
    ];

    for &(value, expected) in cases {
        assert_eq!(
            input_bytes(&character(value), Some(value), CONTROL),
            Some(expected.to_vec()),
            "Ctrl+{value}"
        );
    }
}

#[test]
fn control_codes_ignore_letter_case_and_need_one_character() {
    assert_eq!(control_character_bytes(&character("A")), Some(vec![1]));
    assert_eq!(control_character_bytes(&character("Z")), Some(vec![26]));
    assert_eq!(control_character_bytes(&character("@")), Some(vec![0]));
    assert_eq!(control_character_bytes(&character("ab")), None);
    assert_eq!(control_character_bytes(&character("1")), None);
    assert_eq!(control_character_bytes(&Key::Named(NamedKey::Enter)), None);
}

#[test]
fn named_ctrl_space_writes_nul_without_text_payload() {
    assert_eq!(
        input_bytes(&Key::Named(NamedKey::Space), None, CONTROL),
        Some(b"\x00".to_vec())
    );
}

#[test]
fn alt_printable_text_is_escape_prefixed() {
    assert_eq!(
        input_bytes(&character("x"), Some("x"), ALT),
        Some(b"\x1bx".to_vec())
    );
}

#[test]
fn alt_named_space_is_escape_prefixed_without_text_payload() {
    assert_eq!(
        input_bytes(&Key::Named(NamedKey::Space), None, ALT),
        Some(b"\x1b ".to_vec())
    );
}

#[test]
fn alt_with_control_falls_back_to_named_sequences() {
    let both = Modifiers {
        control: true,
        alt: true,
        ..NONE
    };
    assert_eq!(input_bytes(&character("x"), Some("x"), both), None);
    assert_eq!(
        input_bytes(&Key::Named(NamedKey::Enter), None, both),
        Some(b"\r".to_vec())
    );
}

#[test]
fn named_space_key_writes_space_without_text_payload() {
    assert_eq!(keyboard_text_input(&Key::Named(NamedKey::Space), None, NONE), Some(" "));
    assert_eq!(keyboard_text_input(&character("q"), Some("q"), NONE), Some("q"));
    assert_eq!(keyboard_text_input(&character("q"), Some(""), NONE), None);
    assert_eq!(keyboard_text_input(&character("q"), Some("q"), ALT), None);
}

#[test]
fn ctrl_shift_comma_requests_config_reload_without_writing_to_pty() {
    assert!(is_config_reload_shortcut(&character(","), CONTROL_SHIFT));
    assert!(!is_config_reload_shortcut(&character(","), CONTROL));
    assert!(!is_find_shortcut(&character(","), CONTROL_SHIFT));
}

#[test]
fn shortcuts_need_exactly_their_modifiers() {
    assert!(is_find_shortcut(&character("F"), CONTROL_SHIFT));
    assert!(!is_find_shortcut(
        &character("f"),
        Modifiers {
            alt: true,
            ..CONTROL_SHIFT
        }
    ));
    assert!(is_paste_shortcut(&character("v"), CONTROL_SHIFT));
    assert!(is_paste_shortcut(
        &Key::Named(NamedKey::Insert),
        Modifiers {
            shift: true,
            ..NONE
        }
    ));
    assert!(!is_paste_shortcut(&Key::Named(NamedKey::Insert), CONTROL_SHIFT));
    assert!(!is_paste_shortcut(&character("v"), CONTROL));
}

#[test]
fn ctrl_shift_page_shortcuts_do_not_write_to_pty_or_clear_selection() {
    assert_eq!(
        scroll_shortcut_for_key(&Key::Named(NamedKey::PageUp), CONTROL_SHIFT),
        Some(ScrollShortcut::PageUp)
    );
    assert_eq!(
        scroll_shortcut_for_key(&Key::Named(NamedKey::PageDown), CONTROL_SHIFT),
        Some(ScrollShortcut::PageDown)
    );
    assert_eq!(
        scroll_shortcut_for_key(&Key::Named(NamedKey::Home), CONTROL_SHIFT),
        Some(ScrollShortcut::Top)
    );
    assert_eq!(
        scroll_shortcut_for_key(&Key::Named(NamedKey::End), CONTROL_SHIFT),
        Some(ScrollShortcut::Bottom)
    );
    assert_eq!(scroll_shortcut_for_key(&Key::Named(NamedKey::PageUp), CONTROL), None);
}

#[test]
fn pointer_buttons_map_to_terminal_buttons() {
    assert_eq!(terminal_mouse_button(PointerButton::Left), Some(MouseButton::Left));
    assert_eq!(terminal_mouse_button(PointerButton::Back), Some(MouseButton::Other(3)));
    assert_eq!(terminal_mouse_button(PointerButton::Forward), Some(MouseButton::Other(4)));
    assert_eq!(terminal_mouse_button(PointerButton::Other(9)), Some(MouseButton::Other(9)));
    assert_eq!(terminal_mouse_button(PointerButton::Other(300)), None);
}

#[test]
fn search_mode_collects_query_without_writing_to_pty() {
    let snapshot = snapshot_of(&["alpha beta Alpha"], 80);
    let mut search = SearchState::default();
    search.open();
    search.push_text("alpha");

    let (matches, current_match) = search.matches_for_snapshot(&snapshot);
    assert_eq!(search.query_for_render(), Some("alpha".to_owned()));
    assert_eq!(
        matches,
        vec![
            SearchMatch {
                row: 0,
                start_col: 0,
                end_col: 5,
            },
            SearchMatch {
                row: 0,
                start_col: 11,
                end_col: 16,
            },
        ]
    );
    assert_eq!(current_match, matches.first().cloned());
}

#[test]
fn search_enter_advances_current_match_and_escape_clears_search() {
    let snapshot = snapshot_of(&["one two one"], 80);
    let mut search = SearchState::default();
    search.open();
    search.push_text("one");
    assert!(search.handle_key(&Key::Named(NamedKey::Enter), false));

    let (matches, current_match) = search.matches_for_snapshot(&snapshot);
    assert_eq!(current_match, matches.get(1).cloned());

    assert!(search.handle_key(&Key::Named(NamedKey::Escape), false));

    let (matches, current_match) = search.matches_for_snapshot(&snapshot);
    assert!(matches.is_empty());
    assert_eq!(current_match, None);
    assert_eq!(search.query_for_render(), None);
}

#[test]
fn search_backspace_and_shift_enter_edit_the_search() {
    let mut search = SearchState::default();
    search.open();
    search.push_text("ab");
    assert!(search.handle_key(&Key::Named(NamedKey::Backspace), false));
    assert_eq!(search.query, "a");
    assert!(search.handle_key(&Key::Named(NamedKey::Enter), true));
    assert_eq!(search.current_index, 0);
    assert!(!search.handle_key(&character("x"), false));
    assert_eq!(search.query, "a");
}

#[test]
fn search_spans_rows_and_skips_wide_spacers() {
    let mut snapshot = snapshot_of(&["xab", "ab  "], 4);
    snapshot.cells[1].flags.wide = true;
    snapshot.cells[2].flags.wide_spacer = true;
    snapshot.cells[2].ch = ' ';
    snapshot.cells[3].ch = 'b';
    let matches = find_search_matches(&snapshot, "AB");
    assert_eq!(
        matches,
        vec![
            SearchMatch {
                row: 0,
                start_col: 1,
                end_col: 4,
            },
            SearchMatch {
                row: 1,
                start_col: 0,
                end_col: 2,
            },
        ]
    );
    assert!(find_search_matches(&snapshot, "").is_empty());
}

#[test]
fn kitty_multipart_chunk_and_total_encoded_limits_are_enforced() {
    assert!(validate_kitty_chunk(&vec![b'A'; 4096], true).is_ok());
    assert_eq!(
        validate_kitty_chunk(&vec![b'A'; 4097], false).unwrap_err().code,
        KittyErrorCode::TooBig
    );
    assert_eq!(
        validate_kitty_chunk(b"AAA", true).unwrap_err().code,
        KittyErrorCode::Invalid
    );
    assert!(validate_kitty_chunk(b"AAA", false).is_ok());

    let mut exact_limit = b"AAAA".to_vec();
    assert!(append_kitty_chunk(&mut exact_limit, b"BBBB", false, 8).is_ok());
    assert_eq!(exact_limit.len(), 8);

    let mut upload = None;
    let first = format!("a=t,f=100,t=d,i=42,m=1;{}", &TRANSPARENT_PNG[..8]);
    let KittyCommandRoute::Transmit(command, display, context) =
        route_kitty_command(true, &mut upload, first.as_bytes())
    else {
        panic!("transmit expected");
    };
    let TransmitStart::Started(partial) = start_kitty_transmit(&command, display, context, 8) else {
        panic!("upload should start");
    };
    upload = Some(partial);

    let next = format!("m=0;{}", &TRANSPARENT_PNG[8..12]);
    let KittyCommandRoute::Continue(continuation) =
        route_kitty_command(true, &mut upload, next.as_bytes())
    else {
        panic!("continuation expected");
    };
    let ContinuationOutcome::Failed(context, error) =
        continue_kitty_upload(upload.take(), continuation, 8)
    else {
        panic!("the total should exceed the limit");
    };
    assert!(upload.is_none());
    assert_eq!(
        encode_response(context, Err(error)),
        Some(b"\x1b_Gi=42;E2BIG:graphics payload exceeds configured limit\x1b\\".to_vec())
    );
}

#[test]
fn kitty_multipart_continuation_quiet_value_overrides_initial_response_policy() {
    let mut upload = None;
    let (first, final_chunk) = TRANSPARENT_PNG.split_at(4);
    let body = format!("a=t,f=100,t=d,i=42,q=0,m=1;{first}");
    let KittyCommandRoute::Transmit(command, display, context) =
        route_kitty_command(true, &mut upload, body.as_bytes())
    else {
        panic!("transmit expected");
    };
    let TransmitStart::Started(partial) =
        start_kitty_transmit(&command, display, context, 1024 * 1024)
    else {
        panic!("upload should start");
    };
    assert_eq!(partial.metadata.image_id, Some(KittyImageKey { client_id: 42 }));
    upload = Some(partial);

    let body = format!("m=0,q=1;{final_chunk}");
    let KittyCommandRoute::Continue(continuation) =
        route_kitty_command(true, &mut upload, body.as_bytes())
    else {
        panic!("continuation expected");
    };
    let ContinuationOutcome::Complete(done) = continue_kitty_upload(upload.take(), continuation, 1024 * 1024)
    else {
        panic!("upload should complete");
    };
    assert_eq!(done.encoded, TRANSPARENT_PNG.as_bytes());
    assert_eq!(done.response_context.quiet, KittyQuiet::SuppressSuccess);
    assert_eq!(encode_response(done.response_context, Ok(())), None);
}

#[test]
fn kitty_orphan_continuation_is_discarded_without_creating_image_state() {
    let mut upload: Option<PartialKittyUpload> = None;
    let KittyCommandRoute::Continue(continuation) =
        route_kitty_command(true, &mut upload, b"m=0;AAAA")
    else {
        panic!("continuation expected");
    };
    let ContinuationOutcome::NoUpload(context) = continue_kitty_upload(None, continuation, 1024)
    else {
        panic!("no upload is in progress");
    };
    assert!(upload.is_none());
    assert_eq!(context.image_id, None);
    assert_eq!(
        encode_response(context, Err(knightty::ui::kitty_graphics::no_upload_error())),
        None
    );
}

#[test]
fn kitty_new_multipart_upload_with_same_id_aborts_the_previous_partial() {
    let mut upload = None;
    let KittyCommandRoute::Transmit(command, display, context) =
        route_kitty_command(true, &mut upload, b"a=t,f=100,t=d,i=42,q=1,m=1;AAAA")
    else {
        panic!("transmit expected");
    };
    let TransmitStart::Started(partial) = start_kitty_transmit(&command, display, context, 1024) else {
        panic!("upload should start");
    };
    upload = Some(partial);

    let (first, final_chunk) = TRANSPARENT_PNG.split_at(4);
    let body = format!("a=t,f=100,t=d,i=42,q=1,m=1;{first}");
    let KittyCommandRoute::Transmit(command, display, context) =
        route_kitty_command(true, &mut upload, body.as_bytes())
    else {
        panic!("transmit expected");
    };
    assert!(upload.is_none());
    let TransmitStart::Started(partial) = start_kitty_transmit(&command, display, context, 1024) else {
        panic!("upload should start");
    };
    let body = format!("m=0;{final_chunk}");
    let KittyCommandRoute::Continue(continuation) =
        route_kitty_command(true, &mut Some(partial.clone()), body.as_bytes())
    else {
        panic!("continuation expected");
    };
    let ContinuationOutcome::Complete(done) = continue_kitty_upload(Some(partial), continuation, 1024)
    else {
        panic!("upload should complete");
    };
    assert_eq!(done.encoded, TRANSPARENT_PNG.as_bytes());
}

#[test]
fn kitty_delete_new_command_reset_and_config_update_abort_partial_uploads() {
    let mut upload = None;
    let KittyCommandRoute::Transmit(command, display, context) =
        route_kitty_command(true, &mut upload, b"a=t,f=100,t=d,i=42,q=1,m=1;AAAA")
    else {
        panic!("transmit expected");
    };
    let TransmitStart::Started(partial) = start_kitty_transmit(&command, display, context, 1024) else {
        panic!("upload should start");
    };
    upload = Some(partial);
    assert!(matches!(
        route_kitty_command(true, &mut upload, b"a=d,d=i,i=42"),
        KittyCommandRoute::Delete(_)
    ));
    assert!(upload.is_none());
}

#[test]
fn kitty_parse_errors_answer_with_the_upload_context_and_end_it() {
    let mut upload = None;
    let KittyCommandRoute::Transmit(command, display, context) =
        route_kitty_command(true, &mut upload, b"a=t,f=100,t=d,i=7,m=1;AAAA")
    else {
        panic!("transmit expected");
    };
    let TransmitStart::Started(partial) = start_kitty_transmit(&command, display, context, 1024) else {
        panic!("upload should start");
    };
    upload = Some(partial);
    let KittyCommandRoute::Refuse(context, error) =
        route_kitty_command(true, &mut upload, b"a=t,i=1,i=2;AAAA")
    else {
        panic!("a duplicate key is refused");
    };
    assert!(upload.is_none());
    assert_eq!(context.image_id, Some(7));
    assert_eq!(error.protocol_error().code, KittyErrorCode::Invalid);
    assert!(matches!(
        route_kitty_command(false, &mut upload, b"a=t,i=1;AAAA"),
        KittyCommandRoute::Ignore
    ));
}

#[test]
fn single_chunk_transmit_commits_at_once() {
    let mut upload = None;
    let KittyCommandRoute::Transmit(command, display, context) =
        route_kitty_command(true, &mut upload, b"a=T,f=100,i=3,p=5,c=2,r=1;AAAA")
    else {
        panic!("transmit expected");
    };
    assert!(display);
    let TransmitStart::Commit(metadata) = start_kitty_transmit(&command, display, context, 1024) else {
        panic!("a single chunk commits");
    };
    assert!(metadata.should_store());
    assert_eq!(metadata.placement_id, Some(5));
    assert_eq!(metadata.placement.columns, Some(2));
    assert_eq!(metadata.placement.kitty_image_id, Some(3));
}

#[test]
fn store_plans_respect_image_count_and_byte_budget() {
    let limits = ImageLimits {
        max_encoded_bytes: 1024,
        max_decoded_bytes: 1024,
        max_width: 64,
        max_height: 64,
        max_pixels: 4096,
        max_images: 2,
        max_gpu_bytes: 100,
    };
    assert_eq!(plan_kitty_store(1, 40, false, 0, 40, limits).unwrap(), 80);
    assert_eq!(
        plan_kitty_store(2, 40, false, 0, 4, limits).unwrap_err().code,
        KittyErrorCode::NoSpace
    );
    assert_eq!(plan_kitty_store(2, 80, true, 40, 60, limits).unwrap(), 100);
    assert_eq!(
        plan_kitty_store(1, 80, false, 0, 40, limits).unwrap_err().message,
        "image byte quota reached"
    );
    assert_eq!(
        plan_kitty_store(1, usize::MAX, false, 0, 1, ImageLimits { max_gpu_bytes: usize::MAX, ..limits })
            .unwrap_err()
            .message,
        "image byte quota overflow"
    );
    assert_eq!(inline_image_bytes_after(60, 40, limits), Some(100));
    assert_eq!(inline_image_bytes_after(61, 40, limits), None);
    assert_eq!(inline_image_bytes_after(usize::MAX, 1, limits), None);
}

#[test]
fn identifiers_count_up_and_saturate() {
    assert_eq!(next_id_after(1), 2);
    assert_eq!(next_id_after(u64::MAX), u64::MAX);
    assert_eq!(next_id_after(0), 1);
}

#[test]
fn image_errors_map_to_kitty_response_codes() {
    assert_eq!(kitty_image_error(InlineImageError::InvalidPng).code, KittyErrorCode::BadPng);
    assert_eq!(
        kitty_image_error(InlineImageError::InvalidBase64).message,
        "invalid PNG image data"
    );
    assert_eq!(kitty_image_error(InlineImageError::PixelLimit).code, KittyErrorCode::TooBig);
    assert_eq!(kitty_image_error(InlineImageError::ZeroCellSize).code, KittyErrorCode::Invalid);
    assert_eq!(
        kitty_image_error(InlineImageError::InvalidPayloadLength).code,
        KittyErrorCode::NoData
    );
}

#[test]
fn oversized_kitty_command_is_answered_in_the_context_of_the_upload_it_ends() {
    let mut upload = None;
    let KittyCommandRoute::Transmit(command, display, context) =
        route_kitty_command(true, &mut upload, b"a=t,f=100,i=7,q=1,m=1;AAAA")
    else {
        panic!("transmit expected");
    };
    let TransmitStart::Started(partial) = start_kitty_transmit(&command, display, context, 1024) else {
        panic!("upload should start");
    };

    let mut disabled = Some(partial.clone());
    assert!(answer_oversized_kitty(false, &mut disabled, b"a=T,i=9").is_none());
    assert!(disabled.is_some());

    let mut upload = Some(partial);
    let (context, error) = answer_oversized_kitty(true, &mut upload, b"a=T,i=9").unwrap();
    assert!(upload.is_none());
    assert_eq!(context.image_id, Some(7));
    assert_eq!(error.code, KittyErrorCode::TooBig);
    assert_eq!(error.message, "graphics payload exceeds configured limit");

    let (context, _) = answer_oversized_kitty(true, &mut upload, b"a=T,i=9").unwrap();
    assert_eq!(context.image_id, Some(9));
    assert_eq!(
        encode_response(context, Err(error)),
        Some(b"\x1b_Gi=9;E2BIG:graphics payload exceeds configured limit\x1b\\".to_vec())
    );
}

#[test]
fn key_presses_go_to_shortcuts_search_text_or_terminal_in_that_order() {
    let character = |value: &str| Key::Character(value.to_owned());
    assert_eq!(route_key_press(&character(","), None, CONTROL_SHIFT, true), (KeyRoute::ConfigReload, false));
    assert_eq!(route_key_press(&character("F"), None, CONTROL_SHIFT, false), (KeyRoute::OpenSearch, true));
    assert_eq!(route_key_press(&Key::Named(NamedKey::Escape), None, NONE, true), (KeyRoute::Search, true));
    assert_eq!(route_key_press(&Key::Named(NamedKey::Enter), None, NONE, true), (KeyRoute::Search, false));
    assert_eq!(
        route_key_press(&Key::Named(NamedKey::Enter), None, NONE, false),
        (KeyRoute::Bytes(b"\r".to_vec()), false)
    );
    assert_eq!(
        route_key_press(&Key::Named(NamedKey::Escape), None, NONE, false),
        (KeyRoute::Bytes(b"\x1b".to_vec()), true)
    );
    assert_eq!(
        route_key_press(&Key::Named(NamedKey::PageUp), None, CONTROL_SHIFT, false),
        (KeyRoute::Scroll(ScrollShortcut::PageUp), false)
    );
    assert_eq!(route_key_press(&character("c"), None, CONTROL_SHIFT, false), (KeyRoute::Copy, false));
    assert_eq!(route_key_press(&character("V"), None, CONTROL_SHIFT, false), (KeyRoute::Paste, false));
    assert_eq!(route_key_press(&character("a"), Some("a"), NONE, true), (KeyRoute::Text("a"), false));
    assert_eq!(
        route_key_press(&character("c"), Some("c"), CONTROL, false),
        (KeyRoute::Bytes(vec![3]), false)
    );
    assert_eq!(route_key_press(&Key::Unidentified, None, NONE, false), (KeyRoute::Ignore, false));
}

#[test]
fn empty_query_finds_nothing_even_in_a_grid_without_columns() {
    let snapshot = GridSnapshot {
        cols: 0,
        rows: 0,
        cells: Vec::new(),
        hyperlinks: Vec::new(),
        selection_rects: Vec::new(),
        image_placements: Vec::new(),
        cursor: Cursor::default(),
    };
    assert!(find_search_matches(&snapshot, "").is_empty());
    let search = SearchState::default();
    let (matches, current) = search.matches_for_snapshot(&snapshot);
    assert!(matches.is_empty());
    assert_eq!(current, None);
}

#[test]
fn hyperlink_lookup_needs_only_the_cell_it_reads() {
    let snapshot = GridSnapshot {
        cols: 3,
        rows: 2,
        cells: vec![Cell::default(); 2],
        hyperlinks: Vec::new(),
        selection_rects: Vec::new(),
        image_placements: Vec::new(),
        cursor: Cursor::default(),
    };
    assert_eq!(snapshot.hyperlink_at_cell(1, 0), None);
    assert_eq!(snapshot.hyperlink_at_cell(3, 0), None);
}
