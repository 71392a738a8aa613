use vstd::prelude::*;
use vstd::string::StringExecFns;
use crate::config;
use crate::game_folder::seq_contains_str;
use crate::game_folder::contains_name;

verus! {

/// A resolved game installation root. Every derived path is computed on
/// demand from this single value.
#[derive(Debug, Clone)]
pub struct GameController {
    game_path: String,
}

impl GameController {
    /// The characters of the installation root path.
    pub closed spec fn path(&self) -> Seq<char> {
        self.game_path@
    }
}

pub fn create_game_controller(game_path: &str) -> (r: GameController)
    ensures
        r.path() == game_path@,
{
    GameController { game_path: game_path.to_owned() }
}

/// The locale directory: `<root>/lang`.
pub fn get_locale_path(game_controller: &GameController) -> (r: String)
    ensures
        r@ == game_controller.path() + "/lang"@,
{
    game_controller.game_path.clone().concat("/lang")
}

/// The configuration file: `<root>/config.blk`.
pub fn get_config_blk_path(game_controller: &GameController) -> (r: String)
    ensures
        r@ == game_controller.path() + "/config.blk"@,
{
    game_controller.game_path.clone().concat("/config.blk")
}

/// Whether the debug localization flag is set in the configuration file.
/// `config_text` carries the text of `config.blk`, or `None` when the file
/// is missing or unreadable; either failure counts as "disabled".
pub fn is_debug_localization_enabled(config_text: &Option<String>) -> (r: bool)
    ensures
        r == match config_text {
            Some(text) => config::spec_debug_enabled(text@),
            None => false,
        },
{
    match config_text {
        Some(text) => config::debug_flag_set(text.as_str()),
        None => false,
    }
}

/// Whether the locale files have been generated by the game.
/// `lang_dir_files` holds the entries of the `lang` directory, or `None`
/// when that directory is missing or is not a directory.
pub fn is_localization_files_created(lang_dir_files: &Option<Vec<String>>) -> (r: bool)
    ensures
        r == match lang_dir_files {
            Some(files) => seq_contains_str(files@, "menu.csv"@),
            None => false,
        },
{
    match lang_dir_files {
        Some(files) => contains_name(files, "menu.csv"),
        None => false,
    }
}

} // verus!
