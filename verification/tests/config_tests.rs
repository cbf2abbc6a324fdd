use taskboard::config::{Config, ConfigError, ConfigToml, StatusColor, StatusConfig, Ui};

fn status(label: &str, color: &str, terminal: bool, origin: Option<bool>) -> StatusConfig {
    StatusConfig {
        label: label.to_string(),
        color: color.to_string(),
        terminal,
        origin,
    }
}

fn config(statuses: Vec<StatusConfig>) -> ConfigToml {
    ConfigToml {
        ui: Ui { show_help: true },
        statuses,
    }
}

#[test]
fn default_config_has_three_statuses() {
    let c = Config::get_default();
    assert!(c.ui.show_help);
    let labels: Vec<&str> = c.statuses.iter().map(|s| s.label.as_str()).collect();
    assert_eq!(labels, vec!["UpNext", "OnGoing", "Done"]);
    assert_eq!(c.statuses[0].color, "light_magenta");
    assert_eq!(c.statuses[0].origin, Some(true));
    assert_eq!(c.statuses[1].color, "yellow");
    assert_eq!(c.statuses[1].origin, None);
    assert!(c.statuses[2].terminal);
    assert_eq!(c.statuses[2].color, "light_green");
}

#[test]
fn default_config_is_valid_and_starts_in_upnext() {
    let c = Config::get_default();
    assert_eq!(Config::validate(&c), Ok(()));
    assert_eq!(Config::get_origin_status(&c), "UpNext");
}

#[test]
fn two_origins_are_refused() {
    let c = config(vec![
        status("A", "red", false, Some(true)),
        status("B", "red", false, Some(true)),
    ]);
    assert_eq!(Config::validate(&c), Err(ConfigError::MultipleOrigins));
}

#[test]
fn custom_statuses_need_an_origin() {
    let c = config(vec![
        status("Todo", "red", false, None),
        status("Done", "green", true, Some(false)),
    ]);
    assert_eq!(Config::validate(&c), Err(ConfigError::MissingOrigin));
}

#[test]
fn default_labels_in_any_order_need_no_origin() {
    let c = config(vec![
        status("Done", "red", true, None),
        status("UpNext", "red", false, None),
        status("OnGoing", "red", false, None),
    ]);
    assert_eq!(Config::validate(&c), Ok(()));
    assert_eq!(Config::get_origin_status(&c), "UpNext");
    assert_eq!(Config::validate(&config(vec![])), Ok(()));
}

#[test]
fn origin_status_is_the_first_marked_one() {
    let c = config(vec![
        status("Backlog", "red", false, Some(false)),
        status("Ready", "red", false, Some(true)),
        status("Done", "red", true, None),
    ]);
    assert_eq!(Config::validate(&c), Ok(()));
    assert_eq!(Config::get_origin_status(&c), "Ready");
}

#[test]
fn colors_are_read_case_insensitively() {
    assert_eq!(status("x", "Red", false, None).to_color(), StatusColor::Red);
    assert_eq!(status("x", "LIGHT_BLUE", false, None).to_color(), StatusColor::LightBlue);
    assert_eq!(status("x", "dark_gray", false, None).to_color(), StatusColor::DarkGray);
    assert_eq!(status("x", "gray", false, None).to_color(), StatusColor::Gray);
    assert_eq!(status("x", "purple", false, None).to_color(), StatusColor::Gray);
}

#[test]
fn every_color_name_is_known() {
    let names = [
        ("red", StatusColor::Red),
        ("green", StatusColor::Green),
        ("blue", StatusColor::Blue),
        ("yellow", StatusColor::Yellow),
        ("magenta", StatusColor::Magenta),
        ("cyan", StatusColor::Cyan),
        ("white", StatusColor::White),
        ("black", StatusColor::Black),
        ("light_red", StatusColor::LightRed),
        ("light_green", StatusColor::LightGreen),
        ("light_blue", StatusColor::LightBlue),
        ("light_yellow", StatusColor::LightYellow),
        ("light_magenta", StatusColor::LightMagenta),
        ("light_cyan", StatusColor::LightCyan),
        ("gray", StatusColor::Gray),
        ("dark_gray", StatusColor::DarkGray),
    ];
    for (name, color) in names {
        assert_eq!(Config::color_from_name(name), color);
    }
}
