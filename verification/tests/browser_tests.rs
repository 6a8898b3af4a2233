use peruse_tui::browser::{entry_label, short_path, Browser, Entry, Request, TableInfo, WHEEL_LINES};
use peruse_tui::keys::{KeyCode, KeyEvent, KeyModifiers, MouseButton, MouseEvent, MouseEventKind};
use std::path::PathBuf;
use std::time::SystemTime;

fn key(code: KeyCode) -> KeyEvent {
    KeyEvent::new(code, KeyModifiers::none())
}

fn file(dir: &str, name: &str, format: Option<&str>) -> Entry {
    Entry {
        path: PathBuf::from(format!("{dir}/{name}")),
        name: name.to_string(),
        is_dir: false,
        bytes: 4096,
        modified: Some(SystemTime::now()),
        format: format.map(|f| f.to_string()),
        is_recent: false,
        table: None,
    }
}

fn folder(dir: &str, name: &str) -> Entry {
    Entry {
        path: PathBuf::from(format!("{dir}/{name}")),
        name: name.to_string(),
        is_dir: true,
        bytes: 0,
        modified: None,
        format: None,
        is_recent: false,
        table: None,
    }
}

/// The path of a sample directory.
fn sample_path(tag: &str) -> String {
    format!("/tmp/peruse-browser-{tag}")
}

/// What a read of the sample directory gives, in the order of the directory.
fn sample_listing(dir: &str) -> Vec<Entry> {
    vec![
        file(dir, "c.json", Some("json")),
        folder(dir, "sub"),
        file(dir, ".hidden.csv", Some("csv")),
        file(dir, "b.parquet", Some("parquet")),
        file(dir, "notes.txt", None),
        file(dir, "a.csv", Some("csv")),
    ]
}

/// Makes the chooser over a sample directory with some files in it.
fn sample_browser(tag: &str, recent: Vec<Entry>) -> Browser {
    let d = sample_path(tag);
    Browser::new(PathBuf::from(&d), Some(PathBuf::from("/tmp")), d.clone(), recent, Ok(sample_listing(&d)))
}

fn names(b: &Browser) -> Vec<String> {
    b.items().into_iter().map(|e| e.name).collect()
}

/// Does what the program does for a request: reads the directory that it
/// names. The sample holds one directory, `sub`, and it is empty.
fn follow(b: &mut Browser, r: Request, tag: &str) {
    let d = sample_path(tag);
    if let Request::GoTo(p) = r {
        if p.ends_with("sub") {
            b.show_dir(p, Some(PathBuf::from(&d)), format!("{d}/sub"), Ok(Vec::new()));
        } else {
            b.show_dir(p, Some(PathBuf::from("/tmp")), d.clone(), Ok(sample_listing(&d)));
        }
    }
}

#[test]
fn the_list_holds_the_directories_and_the_data_files() {
    let b = sample_browser("list", Vec::new());
    let n = names(&b);
    // The parent comes first, then the directories, then the files.
    assert_eq!(n[0], "..");
    assert_eq!(n[1], "sub");
    assert!(n.contains(&"a.csv".to_string()), "{n:?}");
    assert!(n.contains(&"b.parquet".to_string()), "{n:?}");
    assert!(n.contains(&"c.json".to_string()), "{n:?}");
    // A file that the viewer cannot read is not in the list.
    assert!(!n.contains(&"notes.txt".to_string()), "{n:?}");
    // A name that starts with a full stop is never in the list.
    assert!(!n.iter().any(|x| x.starts_with('.') && x != ".."), "{n:?}");
}

#[test]
fn the_key_a_shows_each_file() {
    let mut b = sample_browser("all", Vec::new());
    b.on_key(&key(KeyCode::Char('a')));
    assert!(names(&b).contains(&"notes.txt".to_string()));
    b.on_key(&key(KeyCode::Char('a')));
    assert!(!names(&b).contains(&"notes.txt".to_string()));
}

#[test]
fn the_find_box_keeps_the_names_that_hold_the_text() {
    let mut b = sample_browser("find", Vec::new());
    b.on_key(&key(KeyCode::Char('/')));
    for c in "par".chars() {
        b.on_key(&key(KeyCode::Char(c)));
    }
    assert_eq!(names(&b), ["b.parquet"]);
    // The parent goes away with a find box, because the user looks in this
    // directory.
    assert!(!names(&b).contains(&"..".to_string()));
}

#[test]
fn the_find_box_writes_the_rest_of_a_name() {
    let mut b = sample_browser("ghost", Vec::new());
    b.on_key(&key(KeyCode::Char('/')));
    for c in "b.".chars() {
        b.on_key(&key(KeyCode::Char(c)));
    }
    assert_eq!(b.ghost().as_deref(), Some("parquet"));
    b.on_key(&key(KeyCode::Tab));
    assert_eq!(b.find.text(), "b.parquet");
}

#[test]
fn a_file_gives_its_path_back_and_a_directory_opens() {
    let tag = "open";
    let mut b = sample_browser(tag, Vec::new());

    // The entry `sub` is a directory, so Enter goes into it.
    b.on_key(&key(KeyCode::Down));
    assert_eq!(b.selected().map(|e| e.name), Some("sub".into()));
    let r = b.on_key(&key(KeyCode::Enter));
    follow(&mut b, r, tag);
    assert!(b.chosen.is_none(), "a directory is not a choice");
    assert!(b.dir.ends_with("sub"), "{:?}", b.dir);

    // The key h goes back, and a file is a choice.
    let r = b.on_key(&key(KeyCode::Char('h')));
    follow(&mut b, r, tag);
    b.on_key(&key(KeyCode::Char('/')));
    for c in "a.csv".chars() {
        b.on_key(&key(KeyCode::Char(c)));
    }
    b.on_key(&key(KeyCode::Enter)); // leave the find box
    b.on_key(&key(KeyCode::Enter)); // choose the file
    assert_eq!(
        b.chosen.as_ref().and_then(|e| e.path.file_name()).map(|s| s.to_string_lossy().into_owned()),
        Some("a.csv".to_string())
    );
}

/// Makes a list of tables for the picker.
fn tables() -> Vec<TableInfo> {
    vec![
        TableInfo { schema: "main".into(), name: "customers".into(), is_view: false, rows: Some(12_480) },
        TableInfo { schema: "main".into(), name: "orders".into(), is_view: false, rows: Some(3) },
        TableInfo { schema: "staging".into(), name: "orders_raw".into(), is_view: false, rows: None },
        TableInfo { schema: "main".into(), name: "recent_orders".into(), is_view: true, rows: None },
    ]
}

fn picker() -> Browser {
    Browser::of_database(
        PathBuf::from("/data/shop.duckdb"),
        PathBuf::from("/data"),
        "shop.duckdb".into(),
        "duckdb".into(),
        tables(),
    )
}

#[test]
fn the_picker_lists_the_tables_and_then_the_views() {
    let b = picker();
    // A view holds no data of its own, so the tables come first.
    assert_eq!(
        names(&b),
        ["main.customers", "main.orders", "staging.orders_raw", "main.recent_orders"]
    );
    // The keys that walk the file system do nothing here: the list holds the
    // tables of one database.
    let mut b = b;
    b.on_key(&key(KeyCode::Char('h')));
    b.on_key(&key(KeyCode::Char('a')));
    assert_eq!(names(&b).len(), 4);
    assert!(b.chosen.is_none());
}

#[test]
fn the_picker_finds_a_table_by_its_name() {
    let mut b = picker();
    b.on_key(&key(KeyCode::Char('/')));
    for c in "order".chars() {
        b.on_key(&key(KeyCode::Char(c)));
    }
    assert_eq!(names(&b), ["main.orders", "staging.orders_raw", "main.recent_orders"]);

    // Enter leaves the find box, and Enter chooses the table.
    b.on_key(&key(KeyCode::Enter));
    b.on_key(&key(KeyCode::Enter));
    let got = b.chosen.as_ref().and_then(|e| e.table.as_ref()).unwrap();
    assert_eq!(got.name, "orders");
    assert!(!got.is_view);
}

#[test]
fn the_picker_can_choose_a_view() {
    let mut b = picker();
    b.on_key(&key(KeyCode::End));
    b.on_key(&key(KeyCode::Enter));
    let got = b.chosen.as_ref().and_then(|e| e.table.as_ref()).unwrap();
    assert_eq!(got.name, "recent_orders");
    assert!(got.is_view, "the last entry is a view");
}

#[test]
fn the_files_that_the_user_opened_come_first() {
    let d = sample_path("recent");
    let mut recent = file(&d, "b.parquet", Some("parquet"));
    recent.is_recent = true;
    let b = sample_browser("recent", vec![recent]);
    assert_eq!(names(&b)[0], "b.parquet", "{:?}", names(&b));

    // A file that the user moved or deleted is not on the screen: the program
    // gives no entry for it.
    let b = sample_browser("recent-gone", Vec::new());
    assert_eq!(names(&b)[0], "..");
}

#[test]
fn a_directory_that_peruse_cannot_read_gives_a_message() {
    let mut b = Browser::new(
        PathBuf::from("/no/such/directory"),
        Some(PathBuf::from("/no/such")),
        "/no/such/directory".into(),
        Vec::new(),
        Err("/no/such/directory: No such file or directory".into()),
    );
    assert!(b.error.is_some());
    // The screen still works, and the user can leave.
    b.on_key(&key(KeyCode::Char('q')));
    assert!(b.quit);
}

#[test]
fn the_key_q_clears_the_find_box_before_it_leaves() {
    let mut b = sample_browser("quit", Vec::new());
    b.on_key(&key(KeyCode::Char('/')));
    b.on_key(&key(KeyCode::Char('a')));
    b.on_key(&key(KeyCode::Enter));
    assert!(!b.find.is_empty());

    b.on_key(&key(KeyCode::Char('q')));
    assert!(!b.quit, "the first q clears the find box");
    assert!(b.find.is_empty());
    b.on_key(&key(KeyCode::Char('q')));
    assert!(b.quit);
}

// The tests of the mouse. A frame of 90 by 18 cells puts the list from the
// third row down, and keeps the last two rows for the keys.

/// What the screen draws: where each entry of the list is.
fn frame(b: &mut Browser) -> u16 {
    let mut top: u16 = 2;
    if b.finding || !b.find.is_empty() {
        top += 2;
    }
    if b.error.is_some() {
        top += 2;
    }
    let h = 18u16.saturating_sub(top + 2);
    let (_, lines) = b.list_window(top, h);
    b.set_lines(lines);
    top
}

fn render_sample(tag: &str, recent: Vec<Entry>) -> Browser {
    let d = format!("/tmp/peruse-browser-draw-{tag}");
    let listing = vec![
        folder(&d, "archive"),
        file(&d, "trips.parquet", Some("parquet")),
        file(&d, "sales.csv", Some("csv")),
        file(&d, "events.ndjson", Some("ndjson")),
        file(&d, "readme.txt", None),
    ];
    Browser::new(PathBuf::from(&d), Some(PathBuf::from("/tmp")), d.clone(), recent, Ok(listing))
}

/// Gives the row of the terminal that shows an entry.
fn row_of(b: &mut Browser, name: &str) -> u16 {
    let at = names(b).iter().position(|n| n == name).unwrap_or_else(|| panic!("no entry {name:?}"));
    (0..18u16).find(|y| b.line_at(*y) == Some(at)).unwrap_or_else(|| panic!("{name:?} is not on the screen"))
}

fn press(kind: MouseEventKind, column: u16, row: u16) -> MouseEvent {
    MouseEvent { kind, column, row, modifiers: KeyModifiers::none() }
}

/// Makes one press of the left button at a position of the terminal, and
/// gives whether it changed something.
fn click(b: &mut Browser, column: u16, row: u16) -> (bool, Request) {
    b.on_mouse(&press(MouseEventKind::Down(MouseButton::Left), column, row))
}

#[test]
fn a_click_selects_an_entry_and_a_double_click_opens_it() {
    let mut b = render_sample("click", Vec::new());
    frame(&mut b);

    // One click selects the entry under the pointer and no more.
    let y = row_of(&mut b, "sales.csv");
    click(&mut b, 4, y);
    assert_eq!(b.selected().map(|e| e.name), Some("sales.csv".into()));
    assert!(b.chosen.is_none(), "one click chose a file");

    // The second press at the same place chooses the file, as Enter does.
    click(&mut b, 4, y);
    assert_eq!(b.chosen.map(|e| e.name), Some("sales.csv".into()));
}

#[test]
fn a_double_click_on_a_directory_goes_into_it() {
    let mut b = render_sample("click-dir", Vec::new());
    frame(&mut b);

    let y = row_of(&mut b, "archive");
    click(&mut b, 4, y);
    let (_, r) = click(&mut b, 4, y);
    match r {
        Request::GoTo(p) => b.show_dir(p, None, "archive".into(), Ok(Vec::new())),
        other => panic!("the double click asked for {other:?}"),
    }
    assert_eq!(
        b.dir.file_name().map(|s| s.to_string_lossy().into_owned()),
        Some("archive".into()),
        "the double click did not go into the directory"
    );
    assert!(b.chosen.is_none(), "a directory is not a choice");
}

#[test]
fn a_click_beside_the_list_selects_nothing() {
    // A file that the user opened before puts a heading on the screen. A
    // heading is a line that the cursor goes past, so a click on it must move
    // nothing.
    let d = "/tmp/peruse-browser-draw-click-nowhere";
    let mut recent = file(d, "sales.csv", Some("csv"));
    recent.is_recent = true;
    let mut b = render_sample("click-nowhere", vec![recent]);
    let top = frame(&mut b);
    let before = b.sel;

    // The title bar, the heading and the row of keys hold no entry.
    for y in [0u16, top, 17] {
        click(&mut b, 4, y);
        assert_eq!(b.sel, before, "a click on the row {y} moved the cursor");
        assert!(b.chosen.is_none());
    }
}

#[test]
fn the_wheel_moves_the_cursor_of_the_chooser() {
    let mut b = render_sample("click-wheel", Vec::new());
    frame(&mut b);

    b.on_mouse(&press(MouseEventKind::ScrollDown, 4, 6));
    assert_eq!(b.sel, WHEEL_LINES, "the wheel moved another number of lines");
    b.on_mouse(&press(MouseEventKind::ScrollUp, 4, 6));
    assert_eq!(b.sel, 0);
    // A movement of the pointer changes nothing.
    b.on_mouse(&press(MouseEventKind::Moved, 4, 6));
    assert_eq!(b.sel, 0);
    assert!(b.chosen.is_none());
}

#[test]
fn a_movement_of_the_pointer_draws_no_frame() {
    let mut b = render_sample("moved", Vec::new());
    frame(&mut b);

    let y = row_of(&mut b, "sales.csv");
    let quiet = [
        MouseEventKind::Moved,
        MouseEventKind::Drag(MouseButton::Left),
        MouseEventKind::Up(MouseButton::Left),
        MouseEventKind::Down(MouseButton::Right),
    ];
    for kind in quiet {
        assert!(!b.on_mouse(&press(kind, 4, y)).0, "the chooser drew a frame for {kind:?}");
        assert_eq!(b.sel, 0, "{kind:?} moved the cursor");
        assert!(b.chosen.is_none(), "{kind:?} chose an entry");
    }

    // An event that changes the screen still asks for a frame.
    assert!(click(&mut b, 4, y).0, "a click on an entry drew no frame");
    assert!(b.on_mouse(&press(MouseEventKind::ScrollDown, 4, y)).0, "the wheel drew no frame");
    // The title bar holds no entry, so a press there changes nothing.
    assert!(!click(&mut b, 4, 0).0, "a press on the title bar drew a frame");

    // The find box keeps the focus through a movement of the pointer, and it
    // needs no frame for one either.
    b.on_key(&key(KeyCode::Char('/')));
    for kind in quiet {
        assert!(!b.on_mouse(&press(kind, 4, y)).0, "the find box drew a frame for {kind:?}");
        assert!(b.finding, "{kind:?} took the focus out of the find box");
    }
}

#[test]
fn a_double_click_in_a_long_list_opens_the_entry_of_the_first_press() {
    // The window keeps the selected entry on its last row, so a new selection
    // moves the window. The second press of a double click must still open
    // the entry of the first press.
    let d = "/tmp/peruse-browser-draw-long";
    let listing: Vec<Entry> = (0..40).map(|n| file(d, &format!("file_{n:02}.csv"), Some("csv"))).collect();
    let mut b = Browser::new(PathBuf::from(d), Some(PathBuf::from("/tmp")), d.into(), Vec::new(), Ok(listing));

    // Go to the end, so the window shows the last entries.
    b.on_key(&key(KeyCode::Char('G')));
    let top = frame(&mut b);
    let (_, lines) = b.list_window(top, 18 - top - 2);
    assert!(lines.len() < b.items().len(), "the list never moves");

    // The first line of the window is the furthest from the last row.
    let (y, at) = lines[0];
    let want = b.items()[at].name.clone();
    click(&mut b, 4, y);
    assert_eq!(b.sel, at);
    frame(&mut b);
    assert_ne!(b.line_at(y), Some(at), "the list stayed still, so this test proves nothing");

    click(&mut b, 4, y);
    assert_eq!(
        b.chosen.map(|e| e.name),
        Some(want),
        "the double click chose the entry that the list moved under it"
    );
}

#[test]
fn the_wheel_moves_the_cursor_while_the_find_box_has_the_focus() {
    let mut b = render_sample("click-wheel-find", Vec::new());
    frame(&mut b);

    b.on_key(&key(KeyCode::Char('/')));
    assert!(b.finding);
    assert!(b.items().len() > WHEEL_LINES, "too few entries for the test");
    b.on_mouse(&press(MouseEventKind::ScrollDown, 4, 6));
    assert_eq!(b.sel, WHEEL_LINES, "the wheel did not move the list");
    assert!(b.finding, "the wheel took the focus out of the find box");
    assert!(b.find.is_empty(), "the wheel wrote in the find box");
}

#[test]
fn the_screen_shows_the_files_that_the_user_opened_before() {
    let d = "/tmp/peruse-browser-draw-recent";
    let mut recent = file(d, "sales.csv", Some("csv"));
    recent.is_recent = true;
    let b = render_sample("recent", vec![recent]);
    let rows = b.rows();
    let heading = rows
        .iter()
        .position(|r| matches!(r, peruse_tui::browser::Row::Heading(h) if h == "recent"))
        .expect("no heading");
    let sales = rows
        .iter()
        .position(|r| matches!(r, peruse_tui::browser::Row::Item(e) if e.name == "sales.csv"))
        .expect("no file");
    // The heading of the files that the user opened comes before them.
    assert!(heading < sales);
}

// Tests of the parts that the screen shows.

#[test]
fn the_directories_come_first_and_each_group_follows_the_alphabet() {
    let d = "/tmp/order";
    let listing = vec![
        file(d, "Zeta.csv", Some("csv")),
        folder(d, "beta"),
        file(d, "alpha.csv", Some("csv")),
        folder(d, "Alpha"),
        file(d, "beta.csv", Some("csv")),
    ];
    let b = Browser::new(PathBuf::from(d), None, d.into(), Vec::new(), Ok(listing));
    assert_eq!(names(&b), ["Alpha", "beta", "alpha.csv", "beta.csv", "Zeta.csv"]);
}

#[test]
fn a_read_that_fails_keeps_the_cursor() {
    let mut b = sample_browser("keep", Vec::new());
    b.on_key(&key(KeyCode::Down));
    b.on_key(&key(KeyCode::Down));
    assert_eq!(b.sel, 2);
    b.show_dir(PathBuf::from("/gone"), None, "/gone".into(), Err("/gone: denied".into()));
    assert_eq!(b.error.as_deref(), Some("/gone: denied"));
    assert_eq!(b.sel, 2);
    assert!(b.items().is_empty());
    assert_eq!(b.empty_message().as_deref(), Some("no data file here. Press a to show every file, or h to go up."));
}

#[test]
fn the_title_and_the_keys_follow_the_list() {
    let b = picker();
    assert_eq!(b.where_text(), "shop.duckdb · which table?");
    assert!(b.key_hints().contains("find a table"));
    let mut b = sample_browser("hints", Vec::new());
    assert_eq!(b.where_text(), sample_path("hints"));
    assert!(b.key_hints().contains("a every file"));
    b.on_key(&key(KeyCode::Char('a')));
    assert!(b.key_hints().contains("a data files only"));
    b.on_key(&key(KeyCode::Char('/')));
    assert_eq!(b.key_hints(), " type to find · Tab take · Enter list · Esc clear ");
    b.on_key(&key(KeyCode::Char('z')));
    assert_eq!(b.empty_message().as_deref(), Some("no name holds that text"));
}

#[test]
fn a_path_under_home_starts_with_a_tilde() {
    assert_eq!(short_path("/home/ann/data", Some("/home/ann")), "~/data");
    assert_eq!(short_path("C:\\Users\\ann\\data", Some("C:\\Users\\ann")), "~/data");
    assert_eq!(short_path("/srv/data", Some("/home/ann")), "/srv/data");
    assert_eq!(short_path("/srv/data", None), "/srv/data");
}

#[test]
fn a_label_marks_a_directory_and_names_the_place_of_a_recent_file() {
    let d = "/tmp/labels";
    assert_eq!(entry_label(&folder(d, "archive"), ""), "archive/");
    let mut f = file(d, "sales.csv", Some("csv"));
    assert_eq!(entry_label(&f, "~/data"), "sales.csv");
    f.is_recent = true;
    assert_eq!(entry_label(&f, "~/data"), "sales.csv   ~/data");
}

#[test]
fn the_window_scrolls_to_keep_the_cursor_on_its_last_row() {
    let d = "/tmp/window";
    let listing: Vec<Entry> = (0..10).map(|n| file(d, &format!("f{n}.csv"), Some("csv"))).collect();
    let mut b = Browser::new(PathBuf::from(d), None, d.into(), Vec::new(), Ok(listing));
    let (start, lines) = b.list_window(2, 4);
    assert_eq!(start, 0);
    assert_eq!(lines, vec![(2, 0), (3, 1), (4, 2), (5, 3)]);
    for _ in 0..6 {
        b.on_key(&key(KeyCode::Down));
    }
    let (start, lines) = b.list_window(2, 4);
    assert_eq!(start, 3);
    assert_eq!(lines, vec![(2, 3), (3, 4), (4, 5), (5, 6)]);
}

#[test]
fn a_heading_takes_a_row_and_no_pair() {
    let d = "/tmp/peruse-browser-draw-head";
    let mut recent = file(d, "sales.csv", Some("csv"));
    recent.is_recent = true;
    let b = render_sample("head", vec![recent]);
    let (start, lines) = b.list_window(2, 14);
    assert_eq!(start, 0);
    // The heading `recent` is on row 2, its file on row 3, and the heading of
    // the directory on row 4.
    assert_eq!(lines[0], (3, 0));
    assert_eq!(lines[1], (5, 1));
}

#[test]
fn the_walking_keys_ask_the_program_to_read_a_directory() {
    let mut b = sample_browser("walk", Vec::new());
    assert!(matches!(b.on_key(&key(KeyCode::Char('~'))), Request::GoHome));
    match b.on_key(&key(KeyCode::Left)) {
        Request::GoTo(p) => assert_eq!(p, PathBuf::from("/tmp")),
        other => panic!("{other:?}"),
    }
    assert!(matches!(b.on_key(&key(KeyCode::Char('j'))), Request::Stay));
}
