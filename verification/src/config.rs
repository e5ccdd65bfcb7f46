//! The configuration: what the file may say, and how it is weighed against
//! the environment and the defaults.

use crate::theme::{color_of_text, parse_color, Color, Theme};
use crate::utils::{begins_at_home, expand_path, ExpandedPath};
use vstd::prelude::*;

verus! {

/// The colours of the configuration file, each as it was written.
#[derive(Debug)]
pub struct ThemeConfig {
    pub title_try: Option<String>,
    pub title_rs: Option<String>,
    pub search_box: Option<String>,
    pub list_date: Option<String>,
    pub list_highlight_bg: Option<String>,
    pub list_highlight_fg: Option<String>,
    pub help_text: Option<String>,
    pub status_message: Option<String>,
    pub popup_bg: Option<String>,
    pub popup_text: Option<String>,
}

/// The configuration file.
#[derive(Debug)]
pub struct Config {
    /// The root directory of the experiments.
    pub tries_path: Option<String>,
    pub colors: Option<ThemeConfig>,
    /// The editor command.
    pub editor: Option<String>,
}

/// Where the root directory of the experiments is taken from.
#[derive(Debug)]
pub enum TriesPath {
    /// From the environment, which comes before all else.
    Environment,
    /// From the configuration file.
    Configured(ExpandedPath),
    /// The default below the home directory.
    Default,
}

impl View for TriesPath {
    type V = Option<Option<Result<Seq<char>, Seq<char>>>>;

    open spec fn view(&self) -> Option<Option<Result<Seq<char>, Seq<char>>>> {
        match self {
            TriesPath::Environment => None,
            TriesPath::Default => Some(None),
            TriesPath::Configured(path) => Some(Some(path@)),
        }
    }
}

/// What a session is run with.
#[derive(Debug)]
pub struct Settings {
    pub tries_path: TriesPath,
    pub theme: Theme,
    pub editor_cmd: Option<String>,
}

/// What the environment says.
#[derive(Debug)]
pub struct Environment {
    /// Whether the environment names the root directory.
    pub names_tries_path: bool,
    /// The visual editor of the environment.
    pub visual: Option<String>,
    /// The editor of the environment.
    pub editor: Option<String>,
    /// Whether the home directory is known.
    pub home_known: bool,
    /// Whether the platform parts its paths with backslashes.
    pub backslash_separates: bool,
}

/// The characters of an optional string.
pub open spec fn written(text: Option<String>) -> Option<Seq<char>> {
    match text {
        Some(text) => Some(text@),
        None => None,
    }
}

/// The colour of one part: the one written, where one is written and it
/// describes a colour, else the default.
pub open spec fn color_or(text: Option<Seq<char>>, default: Color) -> Color {
    match text {
        Some(text) => match color_of_text(text) {
            Some(color) => color,
            None => default,
        },
        None => default,
    }
}

/// The theme that `colors` describes over the default palette.
pub open spec fn theme_of(colors: ThemeConfig) -> Theme {
    let default = Theme::catppuccin_mocha();
    Theme {
        title_try: color_or(written(colors.title_try), default.title_try),
        title_rs: color_or(written(colors.title_rs), default.title_rs),
        search_box: color_or(written(colors.search_box), default.search_box),
        list_date: color_or(written(colors.list_date), default.list_date),
        list_highlight_bg: color_or(written(colors.list_highlight_bg), default.list_highlight_bg),
        list_highlight_fg: color_or(written(colors.list_highlight_fg), default.list_highlight_fg),
        help_text: color_or(written(colors.help_text), default.help_text),
        status_message: color_or(written(colors.status_message), default.status_message),
        popup_bg: color_or(written(colors.popup_bg), default.popup_bg),
        popup_text: color_or(written(colors.popup_text), default.popup_text),
    }
}

/// The theme of a session: that of the file where it has colours, else the
/// default palette.
pub open spec fn theme_for(config: Option<Config>) -> Theme {
    match config {
        Some(Config { colors: Some(colors), .. }) => theme_of(colors),
        _ => Theme::catppuccin_mocha(),
    }
}

/// The editor of a session: that of the file, else the visual editor of the
/// environment, else its editor.
pub open spec fn editor_for(config: Option<Config>, env: Environment) -> Option<Seq<char>> {
    match config {
        Some(Config { editor: Some(editor), .. }) => Some(editor@),
        _ => match env.visual {
            Some(visual) => Some(visual@),
            None => written(env.editor),
        },
    }
}

/// The root directory of a session: that of the environment, else that of
/// the file with its `~` expanded, else the default.
pub open spec fn tries_path_for(config: Option<Config>, env: Environment) -> Option<
    Option<Result<Seq<char>, Seq<char>>>,
> {
    if env.names_tries_path {
        None
    } else {
        match config {
            Some(Config { tries_path: Some(path), .. }) => Some(
                Some(
                    if env.home_known && begins_at_home(path@, env.backslash_separates) {
                        Ok(path@.skip(2))
                    } else {
                        Err(path@)
                    },
                ),
            ),
            _ => Some(None),
        }
    }
}

fn pick_color(text: &Option<String>, default: Color) -> (color: Color)
    ensures
        color == color_or(written(*text), default),
{
    match text {
        Some(text) => match parse_color(text.as_str()) {
            Some(color) => color,
            None => default,
        },
        None => default,
    }
}

/// Weighs the configuration file against the environment and the defaults.
/// `config` is the file as it was read, or `None` where there is none that
/// can be read.
pub fn load_configuration(config: Option<Config>, env: Environment) -> (settings: Settings)
    ensures
        settings.tries_path@ == tries_path_for(config, env),
        settings.theme == theme_for(config),
        written(settings.editor_cmd) == editor_for(config, env),
{
    let mut theme = Theme::default();
    let mut tries_path = if env.names_tries_path {
        TriesPath::Environment
    } else {
        TriesPath::Default
    };
    let mut editor_cmd = match env.visual {
        Some(visual) => Some(visual),
        None => env.editor,
    };
    match config {
        Some(config) => {
            match config.tries_path {
                Some(path) => {
                    if !env.names_tries_path {
                        tries_path = TriesPath::Configured(
                            expand_path(path.as_str(), env.home_known, env.backslash_separates),
                        );
                    }
                },
                None => {},
            }
            match config.editor {
                Some(editor) => {
                    editor_cmd = Some(editor);
                },
                None => {},
            }
            match config.colors {
                Some(colors) => {
                    let default = Theme::default();
                    theme = Theme {
                        title_try: pick_color(&colors.title_try, default.title_try),
                        title_rs: pick_color(&colors.title_rs, default.title_rs),
                        search_box: pick_color(&colors.search_box, default.search_box),
                        list_date: pick_color(&colors.list_date, default.list_date),
                        list_highlight_bg: pick_color(
                            &colors.list_highlight_bg,
                            default.list_highlight_bg,
                        ),
                        list_highlight_fg: pick_color(
                            &colors.list_highlight_fg,
                            default.list_highlight_fg,
                        ),
                        help_text: pick_color(&colors.help_text, default.help_text),
                        status_message: pick_color(&colors.status_message, default.status_message),
                        popup_bg: pick_color(&colors.popup_bg, default.popup_bg),
                        popup_text: pick_color(&colors.popup_text, default.popup_text),
                    };
                },
                None => {},
            }
        },
        None => {},
    }
    Settings { tries_path, theme, editor_cmd }
}

} // verus!
