use wtlocale::game_controller::create_game_controller;
use wtlocale::game_controller::get_config_blk_path;
use wtlocale::game_controller::get_locale_path;
use wtlocale::game_controller::is_localization_files_created;
use wtlocale::game_folder::check_folder_contains_game;

fn names(v: &[&str]) -> Vec<String> {
    v.iter().map(|s| s.to_string()).collect()
}

#[test]
fn locale_path_is_lang_subdirectory() {
    let controller = create_game_controller("/games/wt");
    assert_eq!(get_locale_path(&controller), "/games/wt/lang");
}

#[test]
fn config_path_is_config_blk() {
    let controller = create_game_controller("/games/wt");
    assert_eq!(get_config_blk_path(&controller), "/games/wt/config.blk");
}

#[test]
fn folder_with_everything_contains_game() {
    let files = names(&[
        "launcher.exe",
        "char.vromfs.bin",
        "gaijin_downloader.exe",
        "config.blk",
        "extra.txt",
    ]);
    let subfolders = names(&["content", "win32", "ui"]);
    assert!(check_folder_contains_game(&files, &subfolders));
}

#[test]
fn folder_missing_one_file_is_refused() {
    let files = names(&["launcher.exe", "char.vromfs.bin", "config.blk"]);
    let subfolders = names(&["content", "win32"]);
    assert!(!check_folder_contains_game(&files, &subfolders));
}

#[test]
fn folder_missing_subfolder_is_refused() {
    let files = names(&[
        "launcher.exe",
        "char.vromfs.bin",
        "gaijin_downloader.exe",
        "config.blk",
    ]);
    let subfolders = names(&["content"]);
    assert!(!check_folder_contains_game(&files, &subfolders));
}

#[test]
fn localization_files_present_with_menu_csv() {
    let listing = Some(names(&["menu.csv", "items.csv"]));
    assert!(is_localization_files_created(&listing));
}

#[test]
fn localization_files_absent_without_menu_csv() {
    let listing = Some(names(&["items.csv"]));
    assert!(!is_localization_files_created(&listing));
}

#[test]
fn localization_files_absent_without_directory() {
    assert!(!is_localization_files_created(&None));
}
