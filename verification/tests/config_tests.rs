use wtlocale::config::extract_debug_parameters;
use wtlocale::config::get_param;
use wtlocale::config::read_debug_config;
use wtlocale::game_controller::is_debug_localization_enabled;
use wtlocale::LocaleError;

#[test]
fn extract_two_parameters() {
    let params = extract_debug_parameters("debug{a=1\nb=2\n}");
    assert_eq!(params.len(), 2);
    assert_eq!(params[0].0, "a");
    assert_eq!(params[0].1, "1");
    assert_eq!(params[1].0, "b");
    assert_eq!(params[1].1, "2");
}

#[test]
fn extract_without_block_is_empty() {
    let params = extract_debug_parameters("settings{a=1\nb=2\n}");
    assert_eq!(params.len(), 0);
}

#[test]
fn extract_from_empty_text_is_empty() {
    let params = extract_debug_parameters("");
    assert_eq!(params.len(), 0);
}

#[test]
fn extract_block_without_closing_brace_is_empty() {
    let params = extract_debug_parameters("debug{a=1\n");
    assert_eq!(params.len(), 0);
}

#[test]
fn extract_skips_lines_without_equals() {
    let params = extract_debug_parameters("debug{justoneword\n}");
    assert_eq!(params.len(), 0);
}

#[test]
fn extract_handles_carriage_returns() {
    let params = extract_debug_parameters("debug{a=1\r\nb=2\r\n}");
    assert_eq!(params.len(), 2);
    assert_eq!(params[0].0, "a");
    assert_eq!(params[0].1, "1");
    assert_eq!(params[1].0, "b");
    assert_eq!(params[1].1, "2");
}

#[test]
fn extract_later_duplicate_overwrites() {
    let params = extract_debug_parameters("debug{a=1\na=2\n}");
    assert_eq!(params.len(), 1);
    assert_eq!(params[0].0, "a");
    assert_eq!(params[0].1, "2");
}

#[test]
fn extract_concatenates_blocks() {
    let params = extract_debug_parameters("debug{a=1\n} other{x=9\n} debug{b=2\n}");
    assert_eq!(params.len(), 2);
    assert_eq!(params[0].0, "a");
    assert_eq!(params[1].0, "b");
}

#[test]
fn extract_keeps_colon_in_keys() {
    let params = extract_debug_parameters("debug{testLocalization:b=yes\n}");
    assert_eq!(params.len(), 1);
    assert_eq!(params[0].0, "testLocalization:b");
    assert_eq!(params[0].1, "yes");
}

#[test]
fn get_param_finds_bound_key() {
    let params = extract_debug_parameters("debug{a=1\nb=2\n}");
    assert_eq!(get_param(&params, "b").map(|s| s.as_str()), Some("2"));
    assert!(get_param(&params, "c").is_none());
}

#[test]
fn debug_enabled_with_flag_yes() {
    let text = "game{width=1024\n}\ndebug{\ntestLocalization:b=yes\n}\n".to_string();
    assert!(is_debug_localization_enabled(&Some(text)));
}

#[test]
fn debug_disabled_with_flag_no() {
    let text = "debug{\ntestLocalization:b=no\n}\n".to_string();
    assert!(!is_debug_localization_enabled(&Some(text)));
}

#[test]
fn debug_disabled_without_block() {
    let text = "game{width=1024\n}\n".to_string();
    assert!(!is_debug_localization_enabled(&Some(text)));
}

#[test]
fn debug_disabled_without_file() {
    assert!(!is_debug_localization_enabled(&None));
}

#[test]
fn read_debug_config_missing_file_is_not_found() {
    let r = read_debug_config(&None);
    assert!(matches!(r, Err(LocaleError::NotFound)));
}

#[test]
fn read_debug_config_reads_parameters() {
    let r = read_debug_config(&Some("debug{a=1\n}".to_string()));
    let params = r.unwrap();
    assert_eq!(params.len(), 1);
    assert_eq!(params[0].0, "a");
    assert_eq!(params[0].1, "1");
}
