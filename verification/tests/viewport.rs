use knightty::term::grid::{
    Cell, Cursor, GridPoint, Hyperlink, ImageId, ImagePixelOffset, ImagePlacement, ImagePlacementId,
    ImageSourceRect, ImageZIndex,
};
use knightty::term::compat::contains_full_reset;
use knightty::term::placements::ImagePlacements;
use knightty::term::grid::{SelectionMode, SelectionPoint, SelectionState};
use knightty::term::selection::{
    begin_selection, clamp_selection_point, effective_selection_range, end_selection, line_selected_text,
    selection_text, update_selection, SelectionGeometry, TextCell,
};
use knightty::term::viewport::{intern_hyperlink, place_visible_cell, snapshot_cursor, visible_placements};

fn placement_at(placement_id: u64, row: isize, rows: u16) -> ImagePlacement {
    ImagePlacement {
        placement_id: ImagePlacementId::new(placement_id),
        image_id: ImageId::new(placement_id),
        kitty_image_id: None,
        anchor: GridPoint { col: 2, row },
        columns: 1,
        rows,
        source_width: 1,
        source_height: 1,
        source_rect: ImageSourceRect { x: 0, y: 0, width: 1, height: 1 },
        pixel_offset: ImagePixelOffset::default(),
        z_index: ImageZIndex::default(),
    }
}

fn cell(ch: char) -> TextCell {
    TextCell { ch, zerowidth: Vec::new(), wide_spacer: false }
}

fn link(id: Option<&str>, uri: &str) -> Hyperlink {
    Hyperlink { id: id.map(str::to_owned), uri: uri.to_owned() }
}

#[test]
fn output_scroll_moves_placements_up_and_drops_those_beyond_history() {
    let mut placements = ImagePlacements::new();
    placements.add(placement_at(1, 0, 2));
    placements.add(placement_at(2, 3, 1));

    assert!(placements.follow_output_scroll(10, 12));
    let rows: Vec<isize> = placements.as_slice().iter().map(|p| p.anchor.row).collect();
    assert_eq!(rows, vec![-2, 1]);

    // History is capped at 2 lines: the first placement (rows -3 and -4 after
    // two more lines) no longer reaches into it.
    assert!(placements.follow_output_scroll(0, 2));
    let ids: Vec<ImagePlacementId> = placements.as_slice().iter().map(|p| p.placement_id).collect();
    assert_eq!(ids, vec![ImagePlacementId::new(2)]);
    assert_eq!(placements.as_slice()[0].anchor.row, -1);

    assert!(!placements.follow_output_scroll(5, 5));
    assert_eq!(placements.as_slice()[0].anchor.row, -1);
}

#[test]
fn only_placements_reaching_into_the_viewport_are_shown() {
    let placements = vec![
        placement_at(1, -3, 2),
        placement_at(2, -3, 4),
        placement_at(3, 4, 1),
        placement_at(4, 0, 1),
    ];
    let visible = visible_placements(&placements, 1, 5);
    let shown: Vec<(ImagePlacementId, isize)> =
        visible.iter().map(|p| (p.placement_id, p.anchor.row)).collect();
    assert_eq!(shown, vec![(ImagePlacementId::new(2), -2), (ImagePlacementId::new(4), 1)]);
    assert_eq!(visible[0].anchor.col, 2);
}

#[test]
fn hyperlinks_are_interned_once() {
    let mut links = Vec::new();
    assert_eq!(intern_hyperlink(&mut links, link(None, "https://a.example")), 0);
    assert_eq!(intern_hyperlink(&mut links, link(Some("x"), "https://a.example")), 1);
    assert_eq!(intern_hyperlink(&mut links, link(None, "https://a.example")), 0);
    assert_eq!(intern_hyperlink(&mut links, link(Some("x"), "https://a.example")), 1);
    assert_eq!(links.len(), 2);
}

#[test]
fn cells_land_at_their_viewport_position() {
    let mut cells = vec![Cell::default(); 3 * 2];
    let mut marked = Cell::default();
    marked.ch = 'x';
    place_visible_cell(&mut cells, 3, 2, 1, -1, 2, marked);
    assert_eq!(cells[2].ch, 'x');
    place_visible_cell(&mut cells, 3, 2, 1, 0, 1, marked);
    assert_eq!(cells[4].ch, 'x');
    let before = cells.clone();
    place_visible_cell(&mut cells, 3, 2, 1, -2, 0, marked);
    place_visible_cell(&mut cells, 3, 2, 1, 1, 0, marked);
    place_visible_cell(&mut cells, 3, 2, 1, 0, 3, marked);
    assert_eq!(cells, before);
}

#[test]
fn cursor_is_hidden_when_scrolled_back_or_outside_the_grid() {
    assert_eq!(snapshot_cursor(false, true, 3, 1, 80, 24), Cursor { x: 3, y: 1, visible: true });
    assert_eq!(snapshot_cursor(true, true, 3, 1, 80, 24), Cursor { x: 3, y: 1, visible: false });
    assert_eq!(snapshot_cursor(false, false, 3, 1, 80, 24), Cursor { x: 3, y: 1, visible: false });
    assert_eq!(snapshot_cursor(false, true, 80, 1, 80, 24), Cursor { x: 80, y: 1, visible: false });
    assert_eq!(snapshot_cursor(false, true, 0, -1, 80, 24), Cursor { x: 0, y: 24, visible: false });
}

#[test]
fn copied_line_skips_wide_spacers_keeps_combining_marks_and_trims_the_end() {
    let mut accented = cell('e');
    accented.zerowidth.push('\u{301}');
    let mut spacer = cell(' ');
    spacer.wide_spacer = true;
    let line = vec![cell('a'), cell('界'), spacer, accented, cell(' '), cell(' ')];

    assert_eq!(line_selected_text(&line, 0, 5), "a界e\u{301}");
    assert_eq!(line_selected_text(&line, 2, 3), "界e\u{301}");
    assert_eq!(line_selected_text(&line, 4, 99), "");
    assert_eq!(line_selected_text(&line, 9, 12), "");
    assert_eq!(line_selected_text(&line, 3, 1), "");
}

#[test]
fn selection_text_joins_lines_and_is_absent_when_empty() {
    assert_eq!(selection_text(&["one".to_owned(), "two".to_owned()]), Some("one\ntwo".to_owned()));
    assert_eq!(selection_text(&["".to_owned(), "".to_owned()]), Some("\n".to_owned()));
    assert_eq!(selection_text(&["".to_owned()]), None);
    assert_eq!(selection_text(&[]), None);
}

#[test]
fn selections_start_clamped_follow_the_pointer_and_end() {
    let g = SelectionGeometry { cols: 10, rows: 5, history: 3, display_offset: 0 };
    let mut selection: Option<SelectionState> = None;

    assert!(!update_selection(&mut selection, g, SelectionPoint { col: 1, row: 1 }));
    assert_eq!(selection, None);

    assert!(begin_selection(&mut selection, g, SelectionPoint { col: 20, row: -9 }, SelectionMode::Simple));
    let start = SelectionPoint { col: 9, row: -3 };
    assert_eq!(
        selection,
        Some(SelectionState { anchor: start, focus: start, mode: SelectionMode::Simple, active: true })
    );

    assert!(update_selection(&mut selection, g, SelectionPoint { col: 2, row: 9 }));
    assert_eq!(selection.unwrap().focus, SelectionPoint { col: 2, row: 4 });

    assert!(end_selection(&mut selection));
    assert!(!selection.unwrap().active);
    assert!(!end_selection(&mut selection));

    let empty = SelectionGeometry { cols: 0, rows: 5, history: 0, display_offset: 0 };
    assert!(begin_selection(&mut selection, empty, start, SelectionMode::Word));
    assert_eq!(selection, None);
    assert!(!begin_selection(&mut selection, empty, start, SelectionMode::Word));
}

fn image_placement(anchor: GridPoint, rows: u16) -> ImagePlacement {
    ImagePlacement {
        placement_id: ImagePlacementId::new(1),
        image_id: ImageId::new(1),
        kitty_image_id: None,
        anchor,
        columns: 2,
        rows,
        source_width: 2,
        source_height: u32::from(rows),
        source_rect: ImageSourceRect { x: 0, y: 0, width: 2, height: u32::from(rows) },
        pixel_offset: ImagePixelOffset::default(),
        z_index: ImageZIndex::default(),
    }
}

#[test]
fn image_placement_id_upserts_and_removes_one_logical_placement_on_parts() {
    let mut placements = ImagePlacements::new();
    let placed = image_placement(GridPoint { col: 0, row: 0 }, 2);
    placements.add(placed);
    let replacement = ImagePlacement { anchor: GridPoint { col: 4, row: 1 }, ..placed };

    placements.upsert(replacement);

    assert_eq!(visible_placements(placements.as_slice(), 0, 4), vec![replacement]);
    placements.remove(replacement.placement_id);
    assert!(visible_placements(placements.as_slice(), 0, 4).is_empty());
}

#[test]
fn removing_image_placements_preserves_other_image_resources_on_parts() {
    let mut placements = ImagePlacements::new();
    let first = image_placement(GridPoint { col: 0, row: 0 }, 1);
    let second = ImagePlacement {
        placement_id: ImagePlacementId::new(2),
        image_id: ImageId::new(2),
        anchor: GridPoint { col: 1, row: 0 },
        ..first
    };
    placements.add(first);
    placements.add(second);

    placements.remove_image(first.image_id);

    assert_eq!(visible_placements(placements.as_slice(), 0, 4), vec![second]);
}

#[test]
fn image_near_bottom_scrolls_with_generated_rows_on_parts() {
    // A 4-row screen with the cursor on its last row: the two rows generated
    // after the image push two lines into the history.
    let mut placements = ImagePlacements::new();
    placements.add(image_placement(GridPoint { col: 0, row: 3 }, 2));

    placements.follow_output_scroll(0, 2);

    let visible = visible_placements(placements.as_slice(), 0, 4);
    assert_eq!(visible.len(), 1);
    assert_eq!(visible[0].anchor.row, 1);
}

#[test]
fn user_scrollback_reveals_image_that_left_current_viewport_on_parts() {
    // Five lines of output on a 3-row screen leave two lines of history.
    let mut placements = ImagePlacements::new();
    placements.add(image_placement(GridPoint { col: 0, row: 0 }, 1));
    placements.follow_output_scroll(0, 2);
    assert!(visible_placements(placements.as_slice(), 0, 3).is_empty());

    // Scrolled to the top of the history.
    assert_eq!(visible_placements(placements.as_slice(), 2, 3).len(), 1);
}

#[test]
fn terminal_reset_clears_image_placements_on_parts() {
    let mut placements = ImagePlacements::new();
    placements.add(image_placement(GridPoint { col: 0, row: 0 }, 2));

    if contains_full_reset(b"\x1bc") {
        placements.clear();
    }

    assert!(visible_placements(placements.as_slice(), 0, 4).is_empty());
}

/// A screen of text with no history, selected the way the terminal does.
struct TextScreen {
    rows: Vec<Vec<TextCell>>,
    cols: usize,
    selection: Option<SelectionState>,
}

impl TextScreen {
    fn new(cols: usize, rows: usize, text: &str) -> Self {
        let mut grid: Vec<Vec<TextCell>> = Vec::new();
        for line in text.split("\r\n") {
            let mut row = Vec::new();
            for ch in line.chars() {
                row.push(cell(ch));
                if ch as u32 >= 0x1100 {
                    let mut spacer = cell(' ');
                    spacer.wide_spacer = true;
                    row.push(spacer);
                }
            }
            row.resize(cols, cell(' '));
            grid.push(row);
        }
        grid.resize(rows, vec![cell(' '); cols]);
        TextScreen { rows: grid, cols, selection: None }
    }

    fn geometry(&self) -> SelectionGeometry {
        SelectionGeometry { cols: self.cols, rows: self.rows.len(), history: 0, display_offset: 0 }
    }

    fn chars_at(&self, point: SelectionPoint) -> Vec<char> {
        match clamp_selection_point(self.geometry(), point) {
            Some(p) => self.rows[p.row as usize].iter().map(|c| c.ch).collect(),
            None => Vec::new(),
        }
    }

    fn begin_selection(&mut self, point: SelectionPoint, mode: SelectionMode) {
        let g = self.geometry();
        begin_selection(&mut self.selection, g, point, mode);
    }

    fn update_selection(&mut self, point: SelectionPoint) {
        let g = self.geometry();
        update_selection(&mut self.selection, g, point);
    }

    fn clear_selection(&mut self) {
        self.selection = None;
    }

    fn has_selection(&self) -> bool {
        self.selection.is_some()
    }

    fn selected_text(&self) -> Option<String> {
        let selection = self.selection?;
        let range = effective_selection_range(
            self.geometry(),
            Some(selection),
            &self.chars_at(selection.anchor),
            &self.chars_at(selection.focus),
        )?;
        let mut lines = Vec::new();
        for row in range.start.row..=range.end.row {
            let start_col = if row == range.start.row { range.start.col } else { 0 };
            let end_col = if row == range.end.row { range.end.col } else { self.cols - 1 };
            lines.push(line_selected_text(&self.rows[row as usize], start_col, end_col));
        }
        selection_text(&lines)
    }
}

fn point(col: usize, row: isize) -> SelectionPoint {
    SelectionPoint { col, row }
}

#[test]
fn single_line_selection_returns_selected_text_on_parts() {
    let mut term = TextScreen::new(20, 2, "hello world");

    term.begin_selection(point(0, 0), SelectionMode::Simple);
    term.update_selection(point(4, 0));

    assert_eq!(term.selected_text(), Some("hello".to_owned()));
}

#[test]
fn multi_line_selection_joins_lines_with_lf_on_parts() {
    let mut term = TextScreen::new(20, 3, "hello world\r\nabc def");

    term.begin_selection(point(0, 0), SelectionMode::Simple);
    term.update_selection(point(2, 1));

    assert_eq!(term.selected_text(), Some("hello world\nabc".to_owned()));
}

#[test]
fn reversed_selection_returns_same_text_on_parts() {
    let mut term = TextScreen::new(20, 3, "hello world\r\nabc def");

    term.begin_selection(point(2, 1), SelectionMode::Simple);
    term.update_selection(point(0, 0));

    assert_eq!(term.selected_text(), Some("hello world\nabc".to_owned()));
}

#[test]
fn selection_skips_wide_spacer_cells_on_parts() {
    let mut term = TextScreen::new(10, 1, "A界B");

    term.begin_selection(point(0, 0), SelectionMode::Simple);
    term.update_selection(point(3, 0));

    assert_eq!(term.selected_text(), Some("A界B".to_owned()));
}

#[test]
fn line_selection_selects_visible_line_without_trailing_spaces_on_parts() {
    let mut term = TextScreen::new(20, 2, "hello   \r\nnext");

    term.begin_selection(point(3, 0), SelectionMode::Line);

    assert_eq!(term.selected_text(), Some("hello".to_owned()));
}

#[test]
fn has_selection_tracks_selection_lifecycle_on_parts() {
    let mut term = TextScreen::new(10, 1, "hello");

    assert!(!term.has_selection());
    term.begin_selection(point(0, 0), SelectionMode::Simple);
    assert!(term.has_selection());
    term.clear_selection();
    assert!(!term.has_selection());
}
