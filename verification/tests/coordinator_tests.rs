use wtlocale::coordinator::build_snapshot;
use wtlocale::coordinator::filter_by_category;
use wtlocale::coordinator::select_locale;
use wtlocale::coordinator::LoadCoordinator;
use wtlocale::coordinator::LoadResolution;
use wtlocale::coordinator::LocaleSnapshot;
use wtlocale::game_controller::create_game_controller;
use wtlocale::game_controller::is_debug_localization_enabled;
use wtlocale::game_controller::is_localization_files_created;
use wtlocale::game_folder::check_folder_contains_game;
use wtlocale::locale_controller::LocaleController;
use wtlocale::LocaleError;

fn names(v: &[&str]) -> Vec<String> {
    v.iter().map(|s| s.to_string()).collect()
}

fn snapshot(locale: &str) -> LocaleSnapshot {
    LocaleSnapshot {
        selected_locale: locale.to_string(),
        selected_category: String::new(),
        all_texts: Vec::new(),
        category_texts: Vec::new(),
        available_locales: Vec::new(),
        available_categories: Vec::new(),
    }
}

#[test]
fn newer_selection_wins_when_stale_load_finishes_last() {
    let mut c = LoadCoordinator::new();
    let a = c.start_load();
    let b = c.start_load();
    assert!(c.loading);
    // B's load completes first and is published.
    assert_eq!(c.finish_load(b, Ok(snapshot("b"))), LoadResolution::Published);
    assert!(!c.loading);
    // A's stale load completes afterwards and is discarded.
    assert_eq!(c.finish_load(a, Ok(snapshot("a"))), LoadResolution::Discarded);
    assert_eq!(c.snapshot.as_ref().unwrap().selected_locale, "b");
}

#[test]
fn newer_selection_wins_when_stale_load_finishes_first() {
    let mut c = LoadCoordinator::new();
    let a = c.start_load();
    let b = c.start_load();
    // A's stale load completes first: discarded, nothing published.
    assert_eq!(c.finish_load(a, Ok(snapshot("a"))), LoadResolution::Discarded);
    assert!(c.snapshot.is_none());
    assert!(c.loading);
    assert_eq!(c.finish_load(b, Ok(snapshot("b"))), LoadResolution::Published);
    assert_eq!(c.snapshot.as_ref().unwrap().selected_locale, "b");
}

#[test]
fn failed_load_keeps_old_snapshot_and_clears_loading() {
    let mut c = LoadCoordinator::new();
    let t1 = c.start_load();
    assert_eq!(c.finish_load(t1, Ok(snapshot("en"))), LoadResolution::Published);
    let t2 = c.start_load();
    assert!(c.loading);
    let r = c.finish_load(t2, Err(LocaleError::MalformedRow));
    assert_eq!(r, LoadResolution::Failed);
    assert!(!c.loading);
    assert!(matches!(c.failure, Some(LocaleError::MalformedRow)));
    assert_eq!(c.snapshot.as_ref().unwrap().selected_locale, "en");
}

#[test]
fn select_locale_prefers_request_then_first() {
    let locales = names(&["en", "ru"]);
    assert_eq!(select_locale(&Some("ru".to_string()), &locales), "ru");
    assert_eq!(select_locale(&None, &locales), "en");
    assert_eq!(select_locale(&None, &Vec::new()), "");
}

#[test]
fn filter_keeps_only_selected_category() {
    let c = LocaleController::new(&create_game_controller("/games/wt"));
    let greetings = b"<ID|readonly|noverify>;<en>;<max_chars>\ng1;hi;\n".to_vec();
    let items = b"<ID|readonly|noverify>;<en>;<max_chars>\ni1;sword;\n".to_vec();
    let tables = vec![
        ("greetings".to_string(), greetings),
        ("items".to_string(), items),
    ];
    let texts = c.get_locale_texts(&"en".to_string(), &tables).unwrap();
    let filtered = filter_by_category(&texts, &"items".to_string());
    assert_eq!(filtered.len(), 1);
    assert_eq!(filtered[0].tag, "i1");
}

#[test]
fn installation_to_snapshot_end_to_end() {
    // A complete installation root, its configuration text, and the two
    // locale tables, as the surrounding program would read them.
    let files = names(&[
        "launcher.exe",
        "char.vromfs.bin",
        "gaijin_downloader.exe",
        "config.blk",
    ]);
    let subfolders = names(&["content", "win32"]);
    assert!(check_folder_contains_game(&files, &subfolders));

    let config_text = "debug{\ntestLocalization:b=yes\n}\n".to_string();
    assert!(is_debug_localization_enabled(&Some(config_text)));
    let lang_listing = Some(names(&["menu.csv", "greetings.csv"]));
    assert!(is_localization_files_created(&lang_listing));

    let controller = LocaleController::new(&create_game_controller("/games/wt"));
    let menu = b"<ID|readonly|noverify>;<en>;<Comments>;<max_chars>\n".to_vec();
    let greetings =
        b"<ID|readonly|noverify>;<en>;<Comments>;<max_chars>\nhello_tag;Hello;greeting;10\nbye_tag;Bye;farewell;\n"
            .to_vec();
    let tables = vec![("menu".to_string(), menu.clone()), ("greetings".to_string(), greetings)];

    let mut coordinator = LoadCoordinator::new();
    let ticket = coordinator.start_load();
    let result = build_snapshot(
        &controller,
        &Some("en".to_string()),
        &"greetings".to_string(),
        &menu,
        &tables,
    );
    assert_eq!(
        coordinator.finish_load(ticket, result),
        LoadResolution::Published
    );

    let snap = coordinator.snapshot.as_ref().unwrap();
    assert_eq!(snap.selected_locale, "en");
    assert_eq!(snap.selected_category, "greetings");
    assert_eq!(snap.available_locales, names(&["en"]));
    assert_eq!(snap.available_categories, names(&["menu", "greetings"]));
    assert_eq!(snap.all_texts.len(), 2);
    assert_eq!(snap.category_texts.len(), 2);
    assert_eq!(snap.category_texts[0].tag, "hello_tag");
    assert_eq!(snap.category_texts[0].text, "Hello");
    assert_eq!(snap.category_texts[0].max_chars, 10);
    assert_eq!(snap.category_texts[1].tag, "bye_tag");
    assert_eq!(snap.category_texts[1].text, "Bye");
    assert_eq!(snap.category_texts[1].max_chars, 0);
}
