use knightty::term::compat::{contains_full_reset, plan_compat_input, CompatAction, CompatStep};
use knightty::term::grid::{
    GridPoint, ImageId, ImagePixelOffset, ImagePlacement, ImagePlacementId, ImageSourceRect,
    ImageZIndex, SelectionMode, SelectionPoint, SelectionRange, SelectionRect, SelectionState,
};
use knightty::term::selection::{
    clamp_selection_point, effective_selection_range, selection_contains_point,
    selection_point_for_visible_cell, selection_rects, word_range_at, SelectionGeometry,
};
use knightty::term::mouse::CompatPrivateMode;
use knightty::term::placements::{kitty_cursor_move_sequence, ImagePlacements};

fn placement(placement_id: u64, image_id: u64, rows: u16) -> ImagePlacement {
    ImagePlacement {
        placement_id: ImagePlacementId::new(placement_id),
        image_id: ImageId::new(image_id),
        kitty_image_id: None,
        anchor: GridPoint { col: 0, row: 0 },
        columns: 1,
        rows,
        source_width: 1,
        source_height: 1,
        source_rect: ImageSourceRect {
            x: 0,
            y: 0,
            width: 1,
            height: 1,
        },
        pixel_offset: ImagePixelOffset::default(),
        z_index: ImageZIndex::default(),
    }
}

#[test]
fn plain_output_is_fed_in_one_piece() {
    let plan = plan_compat_input(b"hello\x1b[31mworld");
    assert_eq!(plan.steps, vec![CompatStep::Vte { start: 0, end: 15 }]);
    assert_eq!(plan.consumed, 15);
}

#[test]
fn handled_private_modes_split_the_output() {
    let input = b"ab\x1b[?1000;1006hcd\x1b[?1049lef";
    let plan = plan_compat_input(input);
    assert_eq!(
        plan.steps,
        vec![
            CompatStep::Vte { start: 0, end: 2 },
            CompatStep::Action(CompatAction::PrivateModes {
                modes: vec![CompatPrivateMode::NormalMouse, CompatPrivateMode::SgrMouse],
                enabled: true,
            }),
            CompatStep::Vte { start: 15, end: input.len() },
        ]
    );
    assert_eq!(plan.consumed, input.len());
}

#[test]
fn alternate_screen_and_cursor_save_become_actions() {
    let plan = plan_compat_input(b"\x1b[?1047h\x1b[?1048l");
    assert_eq!(
        plan.steps,
        vec![
            CompatStep::Action(CompatAction::SetAltScreen),
            CompatStep::Action(CompatAction::RestoreCursor),
        ]
    );
    assert_eq!(plan.consumed, 16);
}

#[test]
fn unfinished_sequence_is_kept_for_the_next_chunk() {
    let plan = plan_compat_input(b"text\x1b[?100");
    assert_eq!(plan.steps, vec![CompatStep::Vte { start: 0, end: 4 }]);
    assert_eq!(plan.consumed, 4);

    let plan = plan_compat_input(b"\x1b");
    assert!(plan.steps.is_empty());
    assert_eq!(plan.consumed, 0);
}

#[test]
fn placements_are_upserted_by_id() {
    let mut placements = ImagePlacements::new();
    assert!(placements.add(placement(1, 10, 1)));
    assert!(placements.upsert(placement(2, 20, 1)));
    assert!(placements.upsert(placement(1, 11, 3)));
    assert_eq!(
        placements.as_slice(),
        &[placement(1, 11, 3), placement(2, 20, 1)]
    );
    assert_eq!(
        placements.placement_ids(),
        vec![ImagePlacementId::new(1), ImagePlacementId::new(2)]
    );
    assert_eq!(placements.image_ids(), vec![ImageId::new(11), ImageId::new(20)]);
}

#[test]
fn removing_placements_reports_whether_anything_changed() {
    let mut placements = ImagePlacements::new();
    placements.add(placement(1, 10, 1));
    placements.add(placement(2, 10, 1));
    placements.add(placement(3, 30, 1));

    assert!(!placements.remove(ImagePlacementId::new(9)));
    assert!(placements.remove(ImagePlacementId::new(3)));
    assert_eq!(placements.len(), 2);
    assert!(placements.remove_image(ImageId::new(10)));
    assert_eq!(placements.len(), 0);
    assert!(!placements.remove_image(ImageId::new(10)));
    assert!(!placements.clear());
    placements.add(placement(4, 40, 1));
    assert!(placements.clear());
    assert!(placements.as_slice().is_empty());
}

#[test]
fn kitty_cursor_moves_below_and_after_the_image() {
    assert_eq!(
        kitty_cursor_move_sequence(3, 80, 2, 1),
        Some(b"\x1b[6G".to_vec())
    );
    assert_eq!(
        kitty_cursor_move_sequence(3, 80, 2, 3),
        Some(b"\x1b[2B\x1b[6G".to_vec())
    );
    assert_eq!(
        kitty_cursor_move_sequence(78, 80, 2, 2),
        Some(b"\x1b[2B\x1b[1G".to_vec())
    );
    assert_eq!(kitty_cursor_move_sequence(0, 80, 0, 2), None);
    assert_eq!(kitty_cursor_move_sequence(0, 80, 2, 0), None);
}

fn point(col: usize, row: isize) -> SelectionPoint {
    SelectionPoint { col, row }
}

fn simple(anchor: SelectionPoint, focus: SelectionPoint) -> Option<SelectionState> {
    Some(SelectionState {
        anchor,
        focus,
        mode: SelectionMode::Simple,
        active: true,
    })
}

fn screen(cols: usize, rows: usize) -> SelectionGeometry {
    SelectionGeometry {
        cols,
        rows,
        history: 0,
        display_offset: 0,
    }
}

#[test]
fn reversed_selection_normalizes_same_line_and_multi_line_ranges_on_parts() {
    let g = screen(20, 2);
    let range = effective_selection_range(g, simple(point(4, 0), point(1, 0)), &[], &[]);
    assert_eq!(
        range,
        Some(SelectionRange {
            start: point(1, 0),
            end: point(4, 0)
        })
    );
    assert_eq!(
        selection_rects(g, range),
        vec![SelectionRect {
            col: 1,
            row: 0,
            width: 4,
            height: 1,
        }]
    );

    let g = screen(20, 3);
    let range = effective_selection_range(g, simple(point(2, 1), point(0, 0)), &[], &[]);
    assert_eq!(
        selection_rects(g, range),
        vec![
            SelectionRect {
                col: 0,
                row: 0,
                width: 20,
                height: 1,
            },
            SelectionRect {
                col: 0,
                row: 1,
                width: 3,
                height: 1,
            },
        ]
    );
}

#[test]
fn selection_contains_visible_cell_uses_normalized_range_on_parts() {
    let g = screen(20, 3);
    let range = effective_selection_range(g, simple(point(4, 0), point(1, 0)), &[], &[]);
    let contains = |col: usize, row: usize| {
        let p = selection_point_for_visible_cell(g, col, row).unwrap();
        selection_contains_point(g, range, p)
    };
    assert!(!contains(0, 0));
    assert!(contains(1, 0));
    assert!(contains(4, 0));
    assert!(!contains(5, 0));

    let range = effective_selection_range(g, simple(point(2, 1), point(0, 0)), &[], &[]);
    let contains = |col: usize, row: usize| {
        let p = selection_point_for_visible_cell(g, col, row).unwrap();
        selection_contains_point(g, range, p)
    };
    assert!(contains(19, 0));
    assert!(contains(2, 1));
    assert!(!contains(3, 1));
}

#[test]
fn scrolled_selection_rects_only_include_visible_rows_on_parts() {
    let g = SelectionGeometry {
        cols: 5,
        rows: 2,
        history: 3,
        display_offset: 3,
    };
    let start = selection_point_for_visible_cell(g, 1, 0).unwrap();
    let end = selection_point_for_visible_cell(g, 3, 1).unwrap();
    assert_eq!((start, end), (point(1, -3), point(3, -2)));
    let range = effective_selection_range(g, simple(start, end), &[], &[]);

    assert_eq!(
        selection_rects(g, range),
        vec![
            SelectionRect {
                col: 1,
                row: 0,
                width: 4,
                height: 1,
            },
            SelectionRect {
                col: 0,
                row: 1,
                width: 4,
                height: 1,
            },
        ]
    );
}

#[test]
fn word_selection_expands_ascii_word_constituents_on_parts() {
    let g = screen(20, 1);
    let mut line: Vec<char> = "foo/bar baz".chars().collect();
    line.resize(20, ' ');
    assert_eq!(
        word_range_at(g, point(2, 0), &line),
        Some(SelectionRange {
            start: point(0, 0),
            end: point(6, 0)
        })
    );
    assert_eq!(word_range_at(g, point(7, 0), &line), None);
    let word = Some(SelectionState {
        anchor: point(2, 0),
        focus: point(9, 0),
        mode: SelectionMode::Word,
        active: true,
    });
    assert_eq!(
        effective_selection_range(g, word, &line, &line),
        Some(SelectionRange {
            start: point(0, 0),
            end: point(10, 0)
        })
    );
}

#[test]
fn line_selection_covers_whole_rows() {
    let g = screen(20, 2);
    let lines = Some(SelectionState {
        anchor: point(5, 1),
        focus: point(2, 0),
        mode: SelectionMode::Line,
        active: false,
    });
    assert_eq!(
        effective_selection_range(g, lines, &[], &[]),
        Some(SelectionRange {
            start: point(0, 0),
            end: point(19, 1)
        })
    );
}

#[test]
fn points_are_clamped_to_the_grid_and_history() {
    let g = SelectionGeometry {
        cols: 10,
        rows: 4,
        history: 2,
        display_offset: 0,
    };
    assert_eq!(clamp_selection_point(g, point(50, -9)), Some(point(9, -2)));
    assert_eq!(clamp_selection_point(g, point(3, 7)), Some(point(3, 3)));
    assert_eq!(clamp_selection_point(screen(0, 4), point(0, 0)), None);
    assert_eq!(selection_point_for_visible_cell(g, 10, 0), None);
    assert_eq!(
        effective_selection_range(g, simple(point(1, 1), point(1, 1)), &[], &[]),
        None
    );
}

#[test]
fn full_reset_is_found_anywhere_in_the_output() {
    assert!(contains_full_reset(b"abc\x1bc"));
    assert!(contains_full_reset(b"\x1bcdef"));
    assert!(!contains_full_reset(b"\x1b[c"));
    assert!(!contains_full_reset(b"\x1b"));
    assert!(!contains_full_reset(b""));
}
