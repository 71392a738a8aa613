use wtlocale::game_controller::create_game_controller;
use wtlocale::locale_controller::parse_max_chars;
use wtlocale::locale_controller::LocaleController;
use wtlocale::LocaleError;

fn controller() -> LocaleController {
    LocaleController::new(&create_game_controller("/games/wt"))
}

fn names(v: &[&str]) -> Vec<String> {
    v.iter().map(|s| s.to_string()).collect()
}

#[test]
fn controller_paths_derive_from_root() {
    let c = controller();
    assert_eq!(c.menu_csv_path(), "/games/wt/lang/menu.csv");
    assert_eq!(c.category_csv_path("items"), "/games/wt/lang/items.csv");
}

#[test]
fn menu_header_yields_locales_in_column_order() {
    let menu = b"<ID|readonly|noverify>;<en>;<ru>;<Comments>;<max_chars>\n".to_vec();
    let locales = controller().get_available_locales(&menu).unwrap();
    assert_eq!(locales, names(&["en", "ru"]));
}

#[test]
fn empty_menu_yields_no_locales() {
    let locales = controller().get_available_locales(&Vec::new()).unwrap();
    assert!(locales.is_empty());
}

#[test]
fn unreadable_menu_header_is_an_error() {
    let mut menu = b"<ID|readonly|noverify>;<".to_vec();
    menu.extend_from_slice(&[0xff, 0xfe]);
    menu.extend_from_slice(b"en>\n");
    let r = controller().get_available_locales(&menu);
    assert!(matches!(r, Err(LocaleError::MalformedRow)));
}

#[test]
fn menu_locales_ignore_rows_after_the_header() {
    // Only the header row is read for the locale list, so a bad data
    // row does not block it.
    let menu = b"<ID|readonly|noverify>;<en>\nonly-one-cell\n".to_vec();
    let locales = controller().get_available_locales(&menu).unwrap();
    assert_eq!(locales, names(&["en"]));
}

#[test]
fn categories_keep_csv_stems_and_drop_missing() {
    let listing = names(&["menu.csv", "_missing.csv", "items.csv", "readme.txt", "notes"]);
    let categories = controller().get_locale_categories(&listing);
    assert_eq!(categories, names(&["menu", "items"]));
}

#[test]
fn missing_locale_column_fails_with_column_not_found() {
    let data = b"<ID|readonly|noverify>;<en>;<max_chars>\ntag1;hello;12\n".to_vec();
    let r = controller().get_locale_text_for_category(
        &"ru".to_string(),
        &"items".to_string(),
        &data,
    );
    match r {
        Err(LocaleError::ColumnNotFound(name)) => assert_eq!(name, "<ru>"),
        other => panic!("expected ColumnNotFound, got {:?}", other),
    }
}

#[test]
fn missing_max_chars_column_fails_with_column_not_found() {
    let data = b"<ID|readonly|noverify>;<en>\ntag1;hello\n".to_vec();
    let r = controller().get_locale_text_for_category(
        &"en".to_string(),
        &"items".to_string(),
        &data,
    );
    match r {
        Err(LocaleError::ColumnNotFound(name)) => assert_eq!(name, "<max_chars>"),
        other => panic!("expected ColumnNotFound, got {:?}", other),
    }
}

#[test]
fn category_rows_resolve_against_locale_column() {
    let data =
        b"<ID|readonly|noverify>;<en>;<ru>;<Comments>;<max_chars>\ntag1;hello;privet;greeting;12\ntag2;bye;poka;farewell;7\n"
            .to_vec();
    let entries = controller()
        .get_locale_text_for_category(&"ru".to_string(), &"greetings".to_string(), &data)
        .unwrap();
    assert_eq!(entries.len(), 2);
    assert_eq!(entries[0].lang, "ru");
    assert_eq!(entries[0].tag, "tag1");
    assert_eq!(entries[0].text, "privet");
    assert_eq!(entries[0].category, "greetings");
    assert_eq!(entries[0].max_chars, 12);
    assert_eq!(entries[1].tag, "tag2");
    assert_eq!(entries[1].text, "poka");
    assert_eq!(entries[1].max_chars, 7);
}

#[test]
fn empty_max_chars_cell_defaults_to_zero() {
    let data = b"<ID|readonly|noverify>;<en>;<max_chars>\ntag1;hello;\n".to_vec();
    let entries = controller()
        .get_locale_text_for_category(&"en".to_string(), &"items".to_string(), &data)
        .unwrap();
    assert_eq!(entries.len(), 1);
    assert_eq!(entries[0].text, "hello");
    assert_eq!(entries[0].max_chars, 0);
}

#[test]
fn non_numeric_max_chars_cell_defaults_to_zero() {
    let data = b"<ID|readonly|noverify>;<en>;<max_chars>\ntag1;hello;lots\n".to_vec();
    let entries = controller()
        .get_locale_text_for_category(&"en".to_string(), &"items".to_string(), &data)
        .unwrap();
    assert_eq!(entries[0].max_chars, 0);
}

#[test]
fn malformed_row_fails_whole_category() {
    let data = b"<ID|readonly|noverify>;<en>;<max_chars>\ntag1;hello\n".to_vec();
    let r = controller().get_locale_text_for_category(
        &"en".to_string(),
        &"items".to_string(),
        &data,
    );
    assert!(matches!(r, Err(LocaleError::MalformedRow)));
}

#[test]
fn parse_max_chars_reads_decimal_cells() {
    assert_eq!(parse_max_chars("42"), 42);
    assert_eq!(parse_max_chars("+42"), 42);
    assert_eq!(parse_max_chars("0"), 0);
    assert_eq!(parse_max_chars("4294967295"), u32::MAX);
}

#[test]
fn parse_max_chars_defaults_on_bad_cells() {
    assert_eq!(parse_max_chars(""), 0);
    assert_eq!(parse_max_chars("+"), 0);
    assert_eq!(parse_max_chars("abc"), 0);
    assert_eq!(parse_max_chars("12x"), 0);
    assert_eq!(parse_max_chars("-3"), 0);
    assert_eq!(parse_max_chars("4294967296"), 0);
}

#[test]
fn error_message_names_missing_column() {
    let data = b"<ID|readonly|noverify>;<en>;<max_chars>\n".to_vec();
    let r = controller().get_locale_text_for_category(
        &"ru".to_string(),
        &"items".to_string(),
        &data,
    );
    let e = r.err().unwrap();
    assert_eq!(e.message(), "column not found: <ru>");
}

#[test]
fn loading_twice_yields_identical_entries() {
    let data =
        b"<ID|readonly|noverify>;<en>;<max_chars>\ntag1;hello;3\ntag2;bye;\n".to_vec();
    let c = controller();
    let first = c
        .get_locale_text_for_category(&"en".to_string(), &"items".to_string(), &data)
        .unwrap();
    let second = c
        .get_locale_text_for_category(&"en".to_string(), &"items".to_string(), &data)
        .unwrap();
    assert_eq!(first.len(), second.len());
    for (a, b) in first.iter().zip(second.iter()) {
        assert_eq!(a.lang, b.lang);
        assert_eq!(a.tag, b.tag);
        assert_eq!(a.text, b.text);
        assert_eq!(a.category, b.category);
        assert_eq!(a.max_chars, b.max_chars);
    }
}

#[test]
fn texts_concatenate_across_categories() {
    let greetings = b"<ID|readonly|noverify>;<en>;<max_chars>\ng1;hi;\n".to_vec();
    let items = b"<ID|readonly|noverify>;<en>;<max_chars>\ni1;sword;\ni2;shield;\n".to_vec();
    let tables = vec![
        ("greetings".to_string(), greetings),
        ("items".to_string(), items),
    ];
    let entries = controller()
        .get_locale_texts(&"en".to_string(), &tables)
        .unwrap();
    assert_eq!(entries.len(), 3);
    assert_eq!(entries[0].tag, "g1");
    assert_eq!(entries[0].category, "greetings");
    assert_eq!(entries[1].tag, "i1");
    assert_eq!(entries[2].tag, "i2");
    assert_eq!(entries[2].category, "items");
}

#[test]
fn failing_category_fails_whole_text_load() {
    let good = b"<ID|readonly|noverify>;<en>;<max_chars>\ng1;hi;\n".to_vec();
    let bad = b"<ID|readonly|noverify>;<max_chars>\nx;1\n".to_vec();
    let tables = vec![("good".to_string(), good), ("bad".to_string(), bad)];
    let r = controller().get_locale_texts(&"en".to_string(), &tables);
    match r {
        Err(LocaleError::ColumnNotFound(name)) => assert_eq!(name, "<en>"),
        other => panic!("expected ColumnNotFound, got {:?}", other),
    }
}
