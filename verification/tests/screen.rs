use try_rs::app::{App, AppMode, KeyCode, KeyPress};
use try_rs::entry::TryEntry;
use try_rs::layout::{
    content_columns, popup_columns, popup_rows, regions_of, screen_layout, screen_rows, Constraint,
    Rect, ScreenLayout,
};
use try_rs::render::{age_label, list_row, preview_capacity, render, Footer, Preview, PreviewItem};
use try_rs::theme::Theme;

const SECOND: i128 = 1_000_000_000;

fn entry(name: &str, modified: i128) -> TryEntry {
    TryEntry {
        name: name.to_string(),
        modified,
        created: 0,
        score: 0,
        is_git: false,
        is_mise: false,
        is_cargo: false,
        is_maven: false,
        is_flutter: false,
        is_go: false,
        is_python: false,
    }
}

fn rect(x: u16, y: u16, width: u16, height: u16) -> Rect {
    Rect { x, y, width, height }
}

fn regions(list_width: u16, preview_height: u16) -> ScreenLayout {
    ScreenLayout {
        title: rect(0, 0, 80, 1),
        search: rect(0, 1, 80, 3),
        list: rect(0, 4, list_width, preview_height),
        preview: rect(list_width, 4, 24, preview_height),
        footer: rect(0, 23, 80, 1),
        popup: rect(16, 10, 48, 3),
    }
}

fn item(name: &str, is_dir: bool) -> PreviewItem {
    PreviewItem { name: name.to_string(), is_dir }
}

#[test]
fn age_label_splits_days_hours_minutes() {
    assert_eq!(age_label(0, 0), "(00d 00h 00m)");
    assert_eq!(age_label(59 * SECOND, 0), "(00d 00h 00m)");
    assert_eq!(age_label(60 * SECOND, 0), "(00d 00h 01m)");
    assert_eq!(age_label((86400 + 3600 * 5 + 60 * 7 + 3) * SECOND, 0), "(01d 05h 07m)");
    assert_eq!(age_label((86400 * 12 + 3600 * 23 + 60 * 59) * SECOND, 0), "(12d 23h 59m)");
    assert_eq!(age_label((86400 * 123) * SECOND + 5, 5), "(123d 00h 00m)");
    assert_eq!(age_label(1_000 * SECOND + 999_999_999, 940 * SECOND), "(00d 00h 01m)");
}

#[test]
fn age_label_of_future_modification_is_zero() {
    assert_eq!(age_label(100 * SECOND, 200 * SECOND), "(00d 00h 00m)");
    assert_eq!(age_label(i128::MIN, i128::MAX), "(00d 00h 00m)");
}

#[test]
fn age_label_spans_the_whole_range_of_times() {
    let label = age_label(i128::MAX, i128::MIN);
    let days = (u128::MAX / 1_000_000_000) / 86400;
    assert!(label.starts_with(&format!("({}d ", days)));
    assert_eq!(age_label(10 * 60 * SECOND, -10 * 60 * SECOND), "(00d 00h 20m)");
}

#[test]
fn row_pads_short_name_to_width() {
    let e = entry("proj", 0);
    let row = list_row(&e, "2024-01-02", 0, 60);
    assert_eq!(row.name, "proj");
    assert_eq!(row.created, "2024-01-02");
    assert_eq!(row.age, "(00d 00h 00m)");
    // 2 + 10 + 1 + 4 + 13 = 30 columns are taken; the rest is padding.
    assert_eq!(row.padding, 30);
}

#[test]
fn row_markers_take_two_columns_each() {
    let mut e = entry("proj", 0);
    e.is_git = true;
    e.is_cargo = true;
    e.is_python = true;
    let row = list_row(&e, "2024-01-02", 0, 60);
    assert_eq!(row.padding, 24);
    assert!(row.is_git && row.is_cargo && row.is_python);
    assert!(!row.is_mise && !row.is_maven && !row.is_flutter && !row.is_go);
}

#[test]
fn row_truncates_long_name_with_dots() {
    let e = entry("a-very-long-experiment-name", 0);
    // reserved: 13 + 0 + 2 + 10 + 2 = 27; room: 40 - 27 = 13; kept: 10.
    let row = list_row(&e, "2024-01-02", 0, 40);
    assert_eq!(row.name, "a-very-lon...");
    assert_eq!(row.padding, 1);
}

#[test]
fn row_name_that_just_fits_is_kept_whole() {
    let e = entry("thirteen-char", 0);
    let row = list_row(&e, "2024-01-02", 0, 40);
    assert_eq!(row.name, "thirteen-char");
    assert_eq!(row.padding, 1);
    let e = entry("fourteen-chars", 0);
    let row = list_row(&e, "2024-01-02", 0, 40);
    assert_eq!(row.name, "fourteen-c...");
    assert_eq!(row.padding, 1);
}

#[test]
fn row_degrades_on_narrow_widths() {
    let e = entry("name", 0);
    for width in [0u16, 1, 5, 26, 27, 28, 29, 30] {
        let row = list_row(&e, "2024-01-02", 0, width);
        assert_eq!(row.name, "...");
        assert_eq!(row.padding, 1);
    }
    let row = list_row(&e, "2024-01-02", 0, 31);
    assert_eq!(row.name, "name");
    assert_eq!(row.padding, 1);
    let empty = entry("", 0);
    let row = list_row(&empty, "2024-01-02", 0, 0);
    assert_eq!(row.name, "");
    assert_eq!(row.padding, 0);
}

#[test]
fn row_counts_characters_not_bytes() {
    let e = entry("déjà-vu-naïve-café", 0);
    let row = list_row(&e, "2024-01-02", 0, 40);
    assert_eq!(row.name, "déjà-vu-na...");
    let row = list_row(&e, "2024-01-02", 0, 60);
    assert_eq!(row.name, "déjà-vu-naïve-café");
    assert_eq!(row.padding, 60 - (27 - 1 + 18));
}

#[test]
fn layout_of_a_common_terminal() {
    let l = screen_layout(rect(0, 0, 80, 24));
    assert_eq!(l.title, rect(0, 0, 80, 1));
    assert_eq!(l.search, rect(0, 1, 80, 3));
    assert_eq!(l.footer, rect(0, 23, 80, 1));
    assert_eq!(l.list, rect(0, 4, 56, 19));
    assert_eq!(l.preview, rect(56, 4, 24, 19));
    assert_eq!(l.popup.height, 3);
    assert_eq!(l.popup.x, 16);
    assert_eq!(l.popup.width, 48);
    assert!(l.popup.y >= 9 && l.popup.y <= 11);
    assert_eq!(preview_capacity(&l), 17);
}

#[test]
fn layout_follows_the_offset_of_the_area() {
    let l = screen_layout(rect(3, 2, 100, 30));
    assert_eq!(l.title, rect(3, 2, 100, 1));
    assert_eq!(l.search, rect(3, 3, 100, 3));
    assert_eq!(l.footer, rect(3, 31, 100, 1));
    assert_eq!(l.list, rect(3, 6, 70, 25));
    assert_eq!(l.preview, rect(73, 6, 30, 25));
}

#[test]
fn layout_of_tiny_areas_does_not_fail() {
    for (w, h) in [(0u16, 0u16), (1, 1), (3, 2), (5, 4), (10, 3), (65535, 65535)] {
        let l = screen_layout(rect(0, 0, w, h));
        assert_eq!(l.title.width, w);
        assert_eq!(l.list.height, l.preview.height);
        assert_eq!(l.list.y, l.preview.y);
        let _ = preview_capacity(&l);
    }
}

#[test]
fn screen_shows_rows_query_and_help() {
    let mut app = App::new(
        vec![entry("alpha", 100 * SECOND), entry("beta", 200 * SECOND)],
        Theme::default(),
        None,
    );
    app.handle_key(KeyPress { code: KeyCode::Down, ctrl: false });
    let labels = vec!["2024-01-02".to_string(), "2023-12-31".to_string()];
    let screen = render(&app, &regions(56, 19), 260 * SECOND, &labels, vec![item("src", true)]);
    assert_eq!(screen.regions, regions(56, 19));
    assert_eq!(screen.query, "");
    assert_eq!(screen.selected, 1);
    assert_eq!(screen.rows.len(), 2);
    assert_eq!(screen.rows[0].name, "beta");
    assert_eq!(screen.rows[0].created, "2024-01-02");
    assert_eq!(screen.rows[0].age, "(00d 00h 01m)");
    assert_eq!(screen.rows[1].name, "alpha");
    assert_eq!(screen.rows[1].created, "2023-12-31");
    assert_eq!(screen.rows[1].age, "(00d 00h 02m)");
    // the list is 56 - 5 = 51 columns wide
    assert_eq!(screen.rows[0].padding, 51 - (2 + 10 + 1 + 4 + 13));
    assert!(matches!(screen.footer, Footer::Help));
    assert!(screen.popup.is_none());
    match screen.preview {
        Preview::Items(items) => {
            assert_eq!(items.len(), 1);
            assert_eq!(items[0].name, "src");
            assert!(items[0].is_dir);
        }
        _ => panic!("preview items expected"),
    }
}

#[test]
fn screen_rows_without_label_have_empty_date() {
    let app = App::new(vec![entry("a", 2), entry("b", 1)], Theme::default(), None);
    let labels = vec!["2024-01-02".to_string()];
    let screen = render(&app, &regions(56, 19), 0, &labels, vec![]);
    assert_eq!(screen.rows[0].created, "2024-01-02");
    assert_eq!(screen.rows[1].created, "");
    assert_eq!(screen.rows[1].padding, 51 - (2 + 1 + 1 + 13));
}

#[test]
fn screen_status_takes_priority_over_help() {
    let mut app = App::new(vec![entry("a", 1)], Theme::default(), None);
    app.handle_key(KeyPress { code: KeyCode::Char('e'), ctrl: true });
    let screen = render(&app, &regions(56, 19), 0, &vec![], vec![]);
    match screen.footer {
        Footer::Status(text) => assert_eq!(text, "No editor configured in config.toml"),
        Footer::Help => panic!("status expected"),
    }
}

#[test]
fn screen_preview_is_capped_and_notes_emptiness() {
    let app = App::new(vec![entry("a", 1)], Theme::default(), None);
    let many = vec![item("1", false), item("2", true), item("3", false), item("4", false)];
    let screen = render(&app, &regions(56, 5), 0, &vec![], many);
    match screen.preview {
        Preview::Items(items) => {
            let names: Vec<&str> = items.iter().map(|i| i.name.as_str()).collect();
            assert_eq!(names, vec!["1", "2", "3"]);
        }
        _ => panic!("preview items expected"),
    }
    let screen = render(&app, &regions(56, 19), 0, &vec![], vec![]);
    assert!(matches!(screen.preview, Preview::Empty));
    let screen = render(&app, &regions(56, 2), 0, &vec![], vec![item("1", false)]);
    assert!(matches!(screen.preview, Preview::Empty));

    let none = App::new(vec![], Theme::default(), None);
    let screen = render(&none, &regions(56, 19), 0, &vec![], vec![item("1", false)]);
    assert!(matches!(screen.preview, Preview::NoSelection));
    assert_eq!(screen.rows.len(), 0);
}

#[test]
fn screen_prompt_names_the_target_in_confirm_mode() {
    let mut app = App::new(vec![entry("old-try", 1)], Theme::default(), None);
    let screen = render(&app, &regions(56, 19), 0, &vec![], vec![]);
    assert!(screen.popup.is_none());
    app.handle_key(KeyPress { code: KeyCode::Char('d'), ctrl: true });
    assert!(app.mode == AppMode::DeleteConfirm);
    let screen = render(&app, &regions(56, 19), 0, &vec![], vec![]);
    assert_eq!(screen.popup.as_deref(), Some("Delete 'old-try'? (y/n)"));
}

#[test]
fn screen_narrow_list_truncates_every_row() {
    let app = App::new(
        vec![entry("a-very-long-experiment-name", 2), entry("x", 1)],
        Theme::default(),
        None,
    );
    let labels = vec!["2024-01-02".to_string(), "2024-01-02".to_string()];
    let screen = render(&app, &regions(45, 19), 0, &labels, vec![]);
    assert_eq!(screen.rows[0].name, "a-very-lon...");
    assert_eq!(screen.rows[1].name, "x");
    let screen = render(&app, &regions(3, 19), 0, &labels, vec![]);
    assert_eq!(screen.rows[0].name, "...");
    assert_eq!(screen.rows[1].name, "...");
}

fn inside(inner: Rect, outer: Rect) -> bool {
    outer.x <= inner.x
        && inner.x as u32 + inner.width as u32 <= outer.x as u32 + outer.width as u32
        && outer.y <= inner.y
        && inner.y as u32 + inner.height as u32 <= outer.y as u32 + outer.height as u32
}

#[test]
fn constraints_of_the_screen_are_fixed() {
    assert_eq!(
        screen_rows(),
        vec![
            Constraint::Length(1),
            Constraint::Length(3),
            Constraint::Min(1),
            Constraint::Length(1)
        ]
    );
    assert_eq!(
        content_columns(),
        vec![Constraint::Percentage(70), Constraint::Percentage(30)]
    );
    assert_eq!(
        popup_rows(),
        vec![
            Constraint::Percentage(40),
            Constraint::Length(3),
            Constraint::Percentage(40)
        ]
    );
    assert_eq!(
        popup_columns(),
        vec![
            Constraint::Percentage(20),
            Constraint::Percentage(60),
            Constraint::Percentage(20)
        ]
    );
}

#[test]
fn regions_are_named_by_position() {
    let bands = vec![rect(0, 0, 9, 1), rect(0, 1, 9, 3), rect(0, 4, 9, 5), rect(0, 9, 9, 1)];
    let panes = vec![rect(0, 4, 6, 5), rect(6, 4, 3, 5)];
    let popup_panes = vec![rect(0, 3, 2, 3), rect(2, 3, 5, 3), rect(7, 3, 2, 3)];
    let regions = regions_of(&bands, &panes, &popup_panes);
    assert_eq!(
        regions,
        ScreenLayout {
            title: rect(0, 0, 9, 1),
            search: rect(0, 1, 9, 3),
            list: rect(0, 4, 6, 5),
            preview: rect(6, 4, 3, 5),
            footer: rect(0, 9, 9, 1),
            popup: rect(2, 3, 5, 3),
        }
    );
}

#[test]
fn every_region_lies_inside_the_area() {
    let areas = [
        rect(0, 0, 0, 0),
        rect(0, 0, 1, 1),
        rect(0, 0, 4, 2),
        rect(7, 9, 10, 3),
        rect(0, 0, 80, 24),
        rect(3, 2, 100, 30),
        rect(0, 0, 200, 60),
        rect(65000, 65000, 535, 535),
        rect(0, 0, 65535, 65535),
    ];
    for area in areas {
        let l = screen_layout(area);
        for region in [l.title, l.search, l.list, l.preview, l.footer, l.popup] {
            assert!(inside(region, area));
        }
        assert_eq!((l.title.x, l.title.width), (area.x, area.width));
        assert_eq!((l.search.x, l.search.width), (area.x, area.width));
        assert_eq!((l.footer.x, l.footer.width), (area.x, area.width));
    }
}

#[test]
fn prompt_takes_the_middle_band_and_pane() {
    let l = screen_layout(rect(0, 0, 100, 30));
    // 20 percent of the width to its left, 40 percent of the height above it
    assert_eq!(l.popup, rect(20, 12, 60, 3));
    let l = screen_layout(rect(10, 5, 50, 20));
    assert_eq!(l.popup, rect(20, 13, 30, 3));
}

fn within_a_cell(hundredths: i64) -> bool {
    (-100..=100).contains(&hundredths)
}

/// Holds a layout to all that is promised of it.
fn assert_promised(area: Rect) {
    let l = screen_layout(area);
    let (x, y, w, h) = (area.x as i64, area.y as i64, area.width as i64, area.height as i64);
    for region in [l.title, l.search, l.list, l.preview, l.footer, l.popup] {
        assert!(inside(region, area), "{:?} in {:?}", region, area);
    }
    assert_eq!((l.title.x, l.title.width), (area.x, area.width));
    assert_eq!((l.search.x, l.search.width), (area.x, area.width));
    assert_eq!((l.footer.x, l.footer.width), (area.x, area.width));
    assert_eq!((l.list.y, l.list.height), (l.preview.y, l.preview.height));
    if x + w > 65535 || y + h > 65535 {
        return;
    }
    if h >= 6 {
        assert_eq!(l.title, rect(area.x, area.y, area.width, 1), "{:?}", area);
        assert_eq!(l.search, rect(area.x, area.y + 1, area.width, 3), "{:?}", area);
        assert_eq!(l.footer, rect(area.x, area.y + area.height - 1, area.width, 1), "{:?}", area);
        assert_eq!((l.list.y, l.list.height), (area.y + 4, area.height - 5), "{:?}", area);
    }
    assert_eq!(l.list.x, area.x, "{:?}", area);
    assert_eq!(l.preview.x, l.list.x + l.list.width, "{:?}", area);
    assert_eq!(l.list.width + l.preview.width, area.width, "{:?}", area);
    assert!(within_a_cell(100 * l.list.width as i64 - 70 * w), "{:?}", area);
    assert!(within_a_cell(100 * (l.popup.x as i64 - x) - 20 * w), "{:?}", area);
    assert!(within_a_cell(100 * l.popup.width as i64 - 60 * w), "{:?}", area);
    if h >= 15 {
        assert_eq!(l.popup.height, 3, "{:?}", area);
        assert!(within_a_cell(100 * (l.popup.y as i64 - y) - 40 * h), "{:?}", area);
    }
}

#[test]
fn layout_keeps_its_promises_at_every_height() {
    for height in 0..=260u16 {
        assert_promised(rect(0, 0, 80, height));
        assert_promised(rect(5, 7, 33, height));
    }
}

#[test]
fn layout_keeps_its_promises_at_every_width() {
    for width in 0..=260u16 {
        assert_promised(rect(0, 0, width, 24));
        assert_promised(rect(3, 9, width, 15));
    }
}

#[test]
fn layout_keeps_its_promises_on_small_areas() {
    for width in 0..=12u16 {
        for height in 0..=18u16 {
            assert_promised(rect(0, 0, width, height));
            assert_promised(rect(2, 1, width, height));
        }
    }
}

#[test]
fn layout_keeps_its_promises_at_the_edge_of_the_grid() {
    for (x, y, w, h) in [
        (0u16, 0u16, 65535u16, 65535u16),
        (0, 0, 65535, 6),
        (0, 0, 7, 65535),
        (65535, 65535, 0, 0),
        (65000, 65000, 535, 535),
        (65000, 65000, 536, 536),
        (65520, 65520, 15, 15),
        (65529, 65529, 6, 6),
        (65530, 65530, 6, 6),
        (1, 1, 65534, 65534),
        (40000, 20000, 25535, 45535),
        (32768, 32768, 32767, 32767),
        (0, 0, 32767, 32768),
        (0, 0, 1000, 1001),
        (0, 0, 9999, 10005),
    ] {
        assert_promised(rect(x, y, w, h));
    }
}
