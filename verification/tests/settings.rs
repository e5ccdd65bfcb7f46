use try_rs::config::{load_configuration, Config, Environment, ThemeConfig, TriesPath};
use try_rs::dispatch::{plan_for, shell_command, Plan};
use try_rs::shell::{
    accepts, detect_shell, integration_script, is_configured, powershell_profile,
    profile_addition, script_file_name, source_command, PowerShellProfile, Shell,
};
use try_rs::theme::{Color, Theme};
use try_rs::utils::{expand_path, ExpandedPath};

fn env() -> Environment {
    Environment {
        names_tries_path: false,
        visual: None,
        editor: None,
        home_known: true,
        backslash_separates: false,
    }
}

fn no_colors() -> ThemeConfig {
    ThemeConfig {
        title_try: None,
        title_rs: None,
        search_box: None,
        list_date: None,
        list_highlight_bg: None,
        list_highlight_fg: None,
        help_text: None,
        status_message: None,
        popup_bg: None,
        popup_text: None,
    }
}

fn text(s: &str) -> Option<String> {
    Some(s.to_string())
}

/// The colour that the configuration reads from `written`: two parts with
/// different defaults are given it, and agree only where it was read.
fn parse_color(written: &str) -> Option<Color> {
    let colors = ThemeConfig { title_try: text(written), popup_bg: text(written), ..no_colors() };
    let config = Config { tries_path: None, colors: Some(colors), editor: None };
    let theme = load_configuration(Some(config), env()).theme;
    if theme.title_try == theme.popup_bg {
        Some(theme.title_try)
    } else {
        assert_eq!(theme.title_try, Theme::default().title_try);
        assert_eq!(theme.popup_bg, Theme::default().popup_bg);
        None
    }
}

#[test]
fn colors_parse_by_name_in_many_spellings() {
    assert_eq!(parse_color("blue"), Some(Color::Blue));
    assert_eq!(parse_color("Blue"), Some(Color::Blue));
    assert_eq!(parse_color("bright-white"), Some(Color::White));
    assert_eq!(parse_color("light_red"), Some(Color::LightRed));
    assert_eq!(parse_color("bright green"), Some(Color::LightGreen));
    assert_eq!(parse_color("grey"), Some(Color::Gray));
    assert_eq!(parse_color("dark grey"), Some(Color::DarkGray));
    assert_eq!(parse_color("lightblack"), Some(Color::DarkGray));
    assert_eq!(parse_color("silver"), Some(Color::Gray));
    assert_eq!(parse_color("reset"), Some(Color::Reset));
}

#[test]
fn colors_parse_every_named_colour() {
    let named = [
        ("black", Color::Black),
        ("red", Color::Red),
        ("green", Color::Green),
        ("yellow", Color::Yellow),
        ("blue", Color::Blue),
        ("magenta", Color::Magenta),
        ("cyan", Color::Cyan),
        ("gray", Color::Gray),
        ("darkgray", Color::DarkGray),
        ("lightred", Color::LightRed),
        ("lightgreen", Color::LightGreen),
        ("lightyellow", Color::LightYellow),
        ("lightblue", Color::LightBlue),
        ("lightmagenta", Color::LightMagenta),
        ("lightcyan", Color::LightCyan),
        ("white", Color::White),
    ];
    for (name, color) in named {
        assert_eq!(parse_color(name), Some(color));
    }
}

#[test]
fn colors_parse_hex_and_index() {
    assert_eq!(parse_color("#FF0000"), Some(Color::Rgb(255, 0, 0)));
    assert_eq!(parse_color("#89b4fa"), Some(Color::Rgb(137, 180, 250)));
    assert_eq!(parse_color("#000000"), Some(Color::Rgb(0, 0, 0)));
    assert_eq!(parse_color("#0a1B2c"), Some(Color::Rgb(10, 27, 44)));
    assert_eq!(parse_color("0"), Some(Color::Indexed(0)));
    assert_eq!(parse_color("10"), Some(Color::Indexed(10)));
    assert_eq!(parse_color("255"), Some(Color::Indexed(255)));
    assert_eq!(parse_color("007"), Some(Color::Indexed(7)));
}

#[test]
fn colors_that_are_none_do_not_parse() {
    assert_eq!(parse_color("invalid_color"), None);
    assert_eq!(parse_color(""), None);
    assert_eq!(parse_color("256"), None);
    assert_eq!(parse_color("#12345"), None);
    assert_eq!(parse_color("#GG0000"), None);
    assert_eq!(parse_color("#1234567"), None);
}

#[test]
fn expand_path_replaces_leading_tilde() {
    assert!(matches!(expand_path("~/work/tries", true, false), ExpandedPath::BelowHome(ref r) if r == "work/tries"));
    assert!(matches!(expand_path("~/", true, false), ExpandedPath::BelowHome(ref r) if r.is_empty()));
    assert!(matches!(expand_path("~/work", false, false), ExpandedPath::Literal(ref p) if p == "~/work"));
    assert!(matches!(expand_path("/abs/path", true, false), ExpandedPath::Literal(ref p) if p == "/abs/path"));
    assert!(matches!(expand_path("~", true, false), ExpandedPath::Literal(ref p) if p == "~"));
    assert!(matches!(expand_path("~user/x", true, false), ExpandedPath::Literal(ref p) if p == "~user/x"));
    assert!(matches!(expand_path("", true, false), ExpandedPath::Literal(ref p) if p.is_empty()));
}

#[test]
fn expand_path_takes_backslash_only_where_it_separates() {
    assert!(matches!(expand_path("~\\tries", true, true), ExpandedPath::BelowHome(ref r) if r == "tries"));
    assert!(matches!(expand_path("~\\tries", true, false), ExpandedPath::Literal(ref p) if p == "~\\tries"));
    assert!(matches!(expand_path("~/tries", true, true), ExpandedPath::BelowHome(ref r) if r == "tries"));
}

#[test]
fn configuration_defaults_without_file() {
    let settings = load_configuration(None, env());
    assert!(matches!(settings.tries_path, TriesPath::Default));
    assert_eq!(settings.theme, Theme::default());
    assert_eq!(settings.editor_cmd, None);
}

#[test]
fn configuration_environment_path_comes_first() {
    let config = Config { tries_path: text("~/elsewhere"), colors: None, editor: None };
    let mut e = env();
    e.names_tries_path = true;
    let settings = load_configuration(Some(config), e);
    assert!(matches!(settings.tries_path, TriesPath::Environment));
    let settings = load_configuration(None, Environment { names_tries_path: true, ..env() });
    assert!(matches!(settings.tries_path, TriesPath::Environment));
}

#[test]
fn configuration_file_path_is_expanded() {
    let config = Config { tries_path: text("~/elsewhere"), colors: None, editor: None };
    let settings = load_configuration(Some(config), env());
    assert!(matches!(
        settings.tries_path,
        TriesPath::Configured(ExpandedPath::BelowHome(ref rest)) if rest == "elsewhere"
    ));
    let config = Config { tries_path: text("/srv/tries"), colors: None, editor: None };
    let settings = load_configuration(Some(config), env());
    assert!(matches!(
        settings.tries_path,
        TriesPath::Configured(ExpandedPath::Literal(ref path)) if path == "/srv/tries"
    ));
    let config = Config { tries_path: text("~/elsewhere"), colors: None, editor: None };
    let settings = load_configuration(Some(config), Environment { home_known: false, ..env() });
    assert!(matches!(
        settings.tries_path,
        TriesPath::Configured(ExpandedPath::Literal(ref path)) if path == "~/elsewhere"
    ));
}

#[test]
fn configuration_editor_precedence() {
    let both = Environment { visual: text("code"), editor: text("vi"), ..env() };
    let config = Config { tries_path: None, colors: None, editor: text("nvim") };
    assert_eq!(load_configuration(Some(config), both).editor_cmd, text("nvim"));
    let both = Environment { visual: text("code"), editor: text("vi"), ..env() };
    assert_eq!(load_configuration(None, both).editor_cmd, text("code"));
    let only_editor = Environment { editor: text("vi"), ..env() };
    let config = Config { tries_path: None, colors: None, editor: None };
    assert_eq!(load_configuration(Some(config), only_editor).editor_cmd, text("vi"));
}

#[test]
fn configuration_colors_fall_back_one_by_one() {
    let colors = ThemeConfig {
        title_try: text("red"),
        search_box: text("#010203"),
        help_text: text("no such colour"),
        popup_bg: text("17"),
        ..no_colors()
    };
    let config = Config { tries_path: None, colors: Some(colors), editor: None };
    let theme = load_configuration(Some(config), env()).theme;
    let default = Theme::default();
    assert_eq!(theme.title_try, Color::Red);
    assert_eq!(theme.search_box, Color::Rgb(1, 2, 3));
    assert_eq!(theme.help_text, default.help_text);
    assert_eq!(theme.popup_bg, Color::Indexed(17));
    assert_eq!(theme.title_rs, default.title_rs);
    assert_eq!(theme.list_date, default.list_date);
    assert_eq!(theme.list_highlight_bg, default.list_highlight_bg);
    assert_eq!(theme.list_highlight_fg, default.list_highlight_fg);
    assert_eq!(theme.status_message, default.status_message);
    assert_eq!(theme.popup_text, default.popup_text);
}

#[test]
fn configuration_sets_every_colour() {
    let colors = ThemeConfig {
        title_try: text("1"),
        title_rs: text("2"),
        search_box: text("3"),
        list_date: text("4"),
        list_highlight_bg: text("5"),
        list_highlight_fg: text("6"),
        help_text: text("7"),
        status_message: text("8"),
        popup_bg: text("9"),
        popup_text: text("10"),
    };
    let config = Config { tries_path: None, colors: Some(colors), editor: None };
    let theme = load_configuration(Some(config), env()).theme;
    assert_eq!(
        theme,
        Theme {
            title_try: Color::Indexed(1),
            title_rs: Color::Indexed(2),
            search_box: Color::Indexed(3),
            list_date: Color::Indexed(4),
            list_highlight_bg: Color::Indexed(5),
            list_highlight_fg: Color::Indexed(6),
            help_text: Color::Indexed(7),
            status_message: Color::Indexed(8),
            popup_bg: Color::Indexed(9),
            popup_text: Color::Indexed(10),
        }
    );
}

#[test]
fn plan_enters_clones_or_creates() {
    assert!(matches!(plan_for("existing", true), Plan::Enter));
    assert!(matches!(plan_for("https://github.com/tobi/try.git", true), Plan::Enter));
    assert!(matches!(plan_for("newproj", false), Plan::Create));
    match plan_for("https://github.com/tobi/try.git", false) {
        Plan::Clone(folder) => assert_eq!(folder, "try"),
        _ => panic!("clone expected"),
    }
    match plan_for("git@github.com:", false) {
        Plan::Clone(folder) => assert_eq!(folder, "cloned-repo"),
        _ => panic!("clone expected"),
    }
}

#[test]
fn shell_command_quotes_the_path() {
    assert_eq!(shell_command(false, None, "/tmp/tries/a"), "cd '/tmp/tries/a'");
    assert_eq!(shell_command(false, Some("nvim"), "/tmp/tries/a"), "cd '/tmp/tries/a'");
    assert_eq!(shell_command(true, None, "/tmp/tries/a"), "cd '/tmp/tries/a'");
    assert_eq!(shell_command(true, Some("code -n"), "/tmp/tries/a b"), "code -n '/tmp/tries/a b'");
    assert_eq!(shell_command(false, None, ""), "cd ''");
}

#[test]
fn shell_is_told_from_login_shell_path() {
    assert_eq!(detect_shell("/usr/bin/fish"), Some(Shell::Fish));
    assert_eq!(detect_shell("/bin/zsh"), Some(Shell::Zsh));
    assert_eq!(detect_shell("/bin/bash"), Some(Shell::Bash));
    assert_eq!(detect_shell("/opt/zsh-fish/bin/bash"), Some(Shell::Fish));
    assert_eq!(detect_shell("/opt/bash/bin/zsh"), Some(Shell::Zsh));
    assert_eq!(detect_shell("/bin/sh"), None);
    assert_eq!(detect_shell(""), None);
    assert_eq!(detect_shell("fis"), None);
    assert_eq!(detect_shell("xbas"), None);
    assert_eq!(detect_shell("bash"), Some(Shell::Bash));
}

#[test]
fn wrapper_scripts_evaluate_what_the_program_prints() {
    let fish = integration_script(Shell::Fish);
    assert!(fish.starts_with("function try-rs\n"));
    assert!(fish.contains("set command (command try-rs $argv | string collect)"));
    assert!(fish.ends_with("end\nend\n"));
    for shell in [Shell::Zsh, Shell::Bash] {
        let script = integration_script(shell);
        assert!(script.starts_with("try-rs() {\n"));
        assert!(script.contains("output=$(command try-rs \"$@\")"));
        assert!(script.contains("eval \"$output\""));
        assert!(script.ends_with("fi\n}\n"));
    }
    let ps = integration_script(Shell::PowerShell);
    assert!(ps.starts_with("# try-rs integration for PowerShell\nfunction try-rs {"));
    assert!(ps.contains("Invoke-Expression $command"));
    assert!(ps.ends_with("}"));
    let nu = integration_script(Shell::NuShell);
    assert!(nu.starts_with("def --wrapped try-rs [...args] {"));
    assert!(nu.contains("cd $path"));
}

#[test]
fn script_files_are_named_after_the_shell() {
    assert_eq!(script_file_name(Shell::Fish), "try-rs.fish");
    assert_eq!(script_file_name(Shell::Zsh), "try-rs.zsh");
    assert_eq!(script_file_name(Shell::Bash), "try-rs.bash");
    assert_eq!(script_file_name(Shell::NuShell), "try-rs.nu");
    assert_eq!(script_file_name(Shell::PowerShell), "try-rs.ps1");
}

#[test]
fn source_command_follows_the_shell() {
    assert_eq!(source_command(Shell::Zsh, "/c/try-rs.zsh"), "source /c/try-rs.zsh");
    assert_eq!(source_command(Shell::Bash, "/c/try-rs.bash"), "source /c/try-rs.bash");
    assert_eq!(source_command(Shell::Fish, "/c/try-rs.fish"), "source /c/try-rs.fish");
    assert_eq!(source_command(Shell::NuShell, "/c/try-rs.nu"), "source /c/try-rs.nu");
    assert_eq!(source_command(Shell::PowerShell, "C:\\c\\try-rs.ps1"), ". 'C:\\c\\try-rs.ps1'");
}

#[test]
fn profile_is_configured_when_it_holds_the_line() {
    let line = "source /c/try-rs.zsh";
    assert!(is_configured("export A=1\nsource /c/try-rs.zsh\n", line));
    assert!(is_configured(line, line));
    assert!(!is_configured("export A=1\nsource /c/try-rs.bash\n", line));
    assert!(!is_configured("", line));
    assert!(!is_configured("source /c/try-rs.zs", line));
    assert!(is_configured("anything", ""));
    assert!(is_configured("", ""));
}

#[test]
fn profile_addition_is_comment_and_line() {
    assert_eq!(
        profile_addition("source /c/try-rs.zsh", false),
        "\n# try-rs integration\nsource /c/try-rs.zsh\n"
    );
    assert_eq!(
        profile_addition(". 'x.ps1'", true),
        "# try-rs integration\n. 'x.ps1'\n"
    );
}

#[test]
fn empty_answer_and_y_say_yes() {
    assert!(accepts(""));
    assert!(accepts("y"));
    assert!(accepts("Y"));
    assert!(!accepts("n"));
    assert!(!accepts("yes"));
    assert!(!accepts(" "));
    assert!(!accepts("yy"));
}

#[test]
fn powershell_profile_prefers_the_one_that_exists() {
    assert_eq!(powershell_profile(true, true), PowerShellProfile::Core);
    assert_eq!(powershell_profile(true, false), PowerShellProfile::Core);
    assert_eq!(powershell_profile(false, true), PowerShellProfile::Windows);
    assert_eq!(powershell_profile(false, false), PowerShellProfile::Core);
}
