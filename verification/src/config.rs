//! The board's configuration: which statuses exist, how they look, and which
//! one new tasks start in.
use vstd::prelude::*;
use vstd::string::*;

use crate::text::{ascii_lower_char, is_ascii_text, lowercase_of, same_str, to_lowercase};

verus! {

/// The whole configuration file.
pub struct ConfigToml {
    pub ui: Ui,
    pub statuses: Vec<StatusConfig>,
}

/// Display preferences.
pub struct Ui {
    pub show_help: bool,
}

/// One status a task can be in.
pub struct StatusConfig {
    pub label: String,
    pub color: String,
    /// Tasks in a terminal status are finished (shown crossed out).
    pub terminal: bool,
    /// `Some(true)` marks the status that new tasks start in.
    pub origin: Option<bool>,
}

/// The colors a status can be shown in.
#[derive(Clone, Copy, Debug, PartialEq, Eq, Structural)]
pub enum StatusColor {
    Red,
    Green,
    Blue,
    Yellow,
    Magenta,
    Cyan,
    White,
    Black,
    LightRed,
    LightGreen,
    LightBlue,
    LightYellow,
    LightMagenta,
    LightCyan,
    Gray,
    DarkGray,
}

/// Why a configuration is refused.
#[derive(Clone, Copy, Debug, PartialEq, Eq, Structural)]
pub enum ConfigError {
    /// More than one status has `origin = true`.
    MultipleOrigins,
    /// The statuses are not the default ones, yet none has `origin = true`.
    MissingOrigin,
}

pub struct Config;

/// The color a (lower-case) color name denotes; unknown names are gray.
pub open spec fn color_of_name(name: Seq<char>) -> StatusColor {
    if name == "red"@ {
        StatusColor::Red
    } else if name == "green"@ {
        StatusColor::Green
    } else if name == "blue"@ {
        StatusColor::Blue
    } else if name == "yellow"@ {
        StatusColor::Yellow
    } else if name == "magenta"@ {
        StatusColor::Magenta
    } else if name == "cyan"@ {
        StatusColor::Cyan
    } else if name == "white"@ {
        StatusColor::White
    } else if name == "black"@ {
        StatusColor::Black
    } else if name == "light_red"@ {
        StatusColor::LightRed
    } else if name == "light_green"@ {
        StatusColor::LightGreen
    } else if name == "light_blue"@ {
        StatusColor::LightBlue
    } else if name == "light_yellow"@ {
        StatusColor::LightYellow
    } else if name == "light_magenta"@ {
        StatusColor::LightMagenta
    } else if name == "light_cyan"@ {
        StatusColor::LightCyan
    } else if name == "dark_gray"@ {
        StatusColor::DarkGray
    } else {
        StatusColor::Gray
    }
}

/// The label of the first status marked as origin at index `i` or later, or
/// `UpNext` where there is none.
pub open spec fn origin_label_from(s: Seq<StatusConfig>, i: int) -> Seq<char>
    decreases s.len() - i,
{
    if i < 0 || i >= s.len() {
        "UpNext"@
    } else if s[i].origin == Some(true) {
        s[i].label@
    } else {
        origin_label_from(s, i + 1)
    }
}

/// How many statuses at index `i` or later are marked as origin.
pub open spec fn origin_count_from(s: Seq<StatusConfig>, i: int) -> nat
    decreases s.len() - i,
{
    if i < 0 || i >= s.len() {
        0
    } else {
        (if s[i].origin == Some(true) { 1nat } else { 0nat }) + origin_count_from(s, i + 1)
    }
}

pub open spec fn has_label(s: Seq<StatusConfig>, label: Seq<char>) -> bool {
    exists|i: int| 0 <= i < s.len() && #[trigger] s[i].label@ == label
}

/// The statuses are other than the three default ones (`UpNext`, `OnGoing`,
/// `Done`, in any order).
pub open spec fn has_custom_statuses(s: Seq<StatusConfig>) -> bool {
    s.len() > 0 && !(s.len() == 3 && has_label(s, "UpNext"@) && has_label(s, "OnGoing"@)
        && has_label(s, "Done"@))
}

/// The verdict on a configuration: at most one origin status, and one
/// wherever the statuses are custom.
pub open spec fn validate_spec(c: ConfigToml) -> Result<(), ConfigError> {
    let n = origin_count_from(c.statuses@, 0);
    if n > 1 {
        Err(ConfigError::MultipleOrigins)
    } else if has_custom_statuses(c.statuses@) && n == 0 {
        Err(ConfigError::MissingOrigin)
    } else {
        Ok(())
    }
}

/// The three statuses and display settings used where no configuration
/// file exists.
pub open spec fn is_default_config(c: ConfigToml) -> bool {
    let s = c.statuses@;
    &&& c.ui.show_help
    &&& s.len() == 3
    &&& s[0].label@ == "UpNext"@ && s[0].color@ == "light_magenta"@ && !s[0].terminal && s[0].origin
        == Some(true)
    &&& s[1].label@ == "OnGoing"@ && s[1].color@ == "yellow"@ && !s[1].terminal && s[1].origin
        is None
    &&& s[2].label@ == "Done"@ && s[2].color@ == "light_green"@ && s[2].terminal && s[2].origin
        is None
}

/// The default configuration passes its own checks, and new tasks start in
/// its `UpNext` status.
pub proof fn lemma_default_config_is_valid(c: ConfigToml)
    requires
        is_default_config(c),
    ensures
        validate_spec(c) == Ok::<(), ConfigError>(()),
        origin_label_from(c.statuses@, 0) == "UpNext"@,
{
    let s = c.statuses@;
    assert(origin_count_from(s, 3) == 0);
    assert(origin_count_from(s, 2) == 0);
    assert(origin_count_from(s, 1) == 0);
    assert(origin_count_from(s, 0) == 1);
}

/// A configuration that passes its checks has at most one origin status;
/// if its statuses are custom it has exactly one, and new tasks start in
/// that status.
pub proof fn lemma_valid_config_has_one_origin(c: ConfigToml)
    requires
        validate_spec(c) is Ok,
    ensures
        origin_count_from(c.statuses@, 0) <= 1,
        has_custom_statuses(c.statuses@) ==> origin_count_from(c.statuses@, 0) == 1,
        has_custom_statuses(c.statuses@) ==> exists|i: int|
            0 <= i < c.statuses@.len() && c.statuses@[i].origin == Some(true)
                && origin_label_from(c.statuses@, 0) == c.statuses@[i].label@,
{
    if has_custom_statuses(c.statuses@) {
        lemma_count_gives_origin(c.statuses@, 0);
    }
}

proof fn lemma_count_gives_origin(s: Seq<StatusConfig>, i: int)
    requires
        0 <= i,
        origin_count_from(s, i) > 0,
    ensures
        exists|k: int|
            i <= k < s.len() && s[k].origin == Some(true) && origin_label_from(s, i) == s[k].label@,
    decreases s.len() - i,
{
    if i < s.len() && s[i].origin != Some(true) {
        lemma_count_gives_origin(s, i + 1);
    }
}

proof fn lemma_count_none(s: Seq<StatusConfig>, i: int)
    requires
        0 <= i,
        forall|k: int| i <= k < s.len() ==> #[trigger] s[k].origin != Some(true),
    ensures
        origin_count_from(s, i) == 0,
    decreases s.len() - i,
{
    if i < s.len() {
        lemma_count_none(s, i + 1);
    }
}

proof fn lemma_count_skips(s: Seq<StatusConfig>, i: int, x: int)
    requires
        0 <= i <= x <= s.len(),
        forall|k: int| i <= k < x ==> #[trigger] s[k].origin != Some(true),
    ensures
        origin_count_from(s, i) == origin_count_from(s, x),
    decreases x - i,
{
    if i < x {
        lemma_count_skips(s, i + 1, x);
    }
}

proof fn lemma_count_at_least(s: Seq<StatusConfig>, i: int, x: int)
    requires
        0 <= i <= x < s.len(),
        s[x].origin == Some(true),
    ensures
        origin_count_from(s, i) >= 1 + origin_count_from(s, x + 1),
    decreases x - i,
{
    if i < x {
        lemma_count_at_least(s, i + 1, x);
    }
}

/// What the checks make of a status list, by the origin marks it holds:
/// - two statuses marked as origin are refused with `MultipleOrigins`;
/// - exactly one origin is accepted, whatever the statuses;
/// - with no origin, a list of other than three statuses (but not empty),
///   or three that lack one of the labels `UpNext`, `OnGoing`, `Done`, is
///   refused with `MissingOrigin`;
/// - with no origin, an empty list, or the three labels `UpNext`, `OnGoing`
///   and `Done`, is accepted.
pub proof fn lemma_validation_verdicts(c: ConfigToml)
    ensures
        (exists|x: int, y: int|
            0 <= x < y < c.statuses@.len() && #[trigger] c.statuses@[x].origin == Some(true)
                && #[trigger] c.statuses@[y].origin == Some(true)) ==> validate_spec(c) == Err::<
            (),
            ConfigError,
        >(ConfigError::MultipleOrigins),
        (exists|x: int|
            0 <= x < c.statuses@.len() && #[trigger] c.statuses@[x].origin == Some(true) && forall|
                k: int,
            |
                0 <= k < c.statuses@.len() && k != x ==> #[trigger] c.statuses@[k].origin != Some(
                    true,
                )) ==> validate_spec(c) == Ok::<(), ConfigError>(()),
        (forall|k: int| 0 <= k < c.statuses@.len() ==> #[trigger] c.statuses@[k].origin != Some(true))
            ==> {
            let s = c.statuses@;
            let lacks_one = (forall|k: int| 0 <= k < s.len() ==> #[trigger] s[k].label@ != "UpNext"@)
                || (forall|k: int| 0 <= k < s.len() ==> #[trigger] s[k].label@ != "OnGoing"@) || (
            forall|k: int| 0 <= k < s.len() ==> #[trigger] s[k].label@ != "Done"@);
            &&& (s.len() > 0 && (s.len() != 3 || lacks_one)) ==> validate_spec(c) == Err::<
                (),
                ConfigError,
            >(ConfigError::MissingOrigin)
            &&& (s.len() == 0 || (s.len() == 3 && !lacks_one)) ==> validate_spec(c) == Ok::<
                (),
                ConfigError,
            >(())
        },
{
    let s = c.statuses@;
    if exists|x: int, y: int|
        0 <= x < y < s.len() && #[trigger] s[x].origin == Some(true) && #[trigger] s[y].origin
            == Some(true) {
        let (x, y) = choose|x: int, y: int|
            0 <= x < y < s.len() && #[trigger] s[x].origin == Some(true) && #[trigger] s[y].origin
                == Some(true);
        lemma_count_at_least(s, 0, x);
        lemma_count_at_least(s, x + 1, y);
    }
    if exists|x: int|
        0 <= x < s.len() && #[trigger] s[x].origin == Some(true) && forall|k: int|
            0 <= k < s.len() && k != x ==> #[trigger] s[k].origin != Some(true) {
        let x = choose|x: int|
            0 <= x < s.len() && #[trigger] s[x].origin == Some(true) && forall|k: int|
                0 <= k < s.len() && k != x ==> #[trigger] s[k].origin != Some(true);
        lemma_count_skips(s, 0, x);
        lemma_count_none(s, x + 1);
        assert(origin_count_from(s, x) == 1 + origin_count_from(s, x + 1));
    }
    if forall|k: int| 0 <= k < s.len() ==> #[trigger] s[k].origin != Some(true) {
        lemma_count_none(s, 0);
    }
}

fn status(label: &str, color: &str, terminal: bool, origin: Option<bool>) -> (r: StatusConfig)
    ensures
        r.label@ == label@,
        r.color@ == color@,
        r.terminal == terminal,
        r.origin == origin,
{
    StatusConfig { label: String::from_str(label), color: String::from_str(color), terminal, origin }
}

fn has_label_exec(s: &Vec<StatusConfig>, label: &str) -> (r: bool)
    ensures
        r == has_label(s@, label@),
{
    let mut i: usize = 0;
    while i < s.len()
        invariant
            i <= s.len(),
            forall|k: int| 0 <= k < i ==> s@[k].label@ != label@,
        decreases s.len() - i,
    {
        if same_str(s[i].label.as_str(), label) {
            return true;
        }
        i = i + 1;
    }
    false
}

impl StatusConfig {
    /// The color this status is shown in: its color name, lower-cased,
    /// looked up among the known names (so `RED` and `Red` are red).
    pub fn to_color(&self) -> (r: StatusColor)
        ensures
            r == color_of_name(lowercase_of(self.color@)),
            is_ascii_text(self.color@) ==> r == color_of_name(
                self.color@.map_values(|c: char| ascii_lower_char(c)),
            ),
    {
        let lower = to_lowercase(self.color.as_str());
        Config::color_from_name(lower.as_str())
    }
}

impl Config {
    /// The configuration written when none exists.
    pub fn get_default() -> (r: ConfigToml)
        ensures
            is_default_config(r),
    {
        let mut statuses: Vec<StatusConfig> = Vec::new();
        statuses.push(status("UpNext", "light_magenta", false, Some(true)));
        statuses.push(status("OnGoing", "yellow", false, None));
        statuses.push(status("Done", "light_green", true, None));
        ConfigToml { ui: Ui { show_help: true }, statuses }
    }

    /// The color a lower-case color name denotes; unknown names are gray.
    pub fn color_from_name(name: &str) -> (r: StatusColor)
        ensures
            r == color_of_name(name@),
    {
        if same_str(name, "red") {
            StatusColor::Red
        } else if same_str(name, "green") {
            StatusColor::Green
        } else if same_str(name, "blue") {
            StatusColor::Blue
        } else if same_str(name, "yellow") {
            StatusColor::Yellow
        } else if same_str(name, "magenta") {
            StatusColor::Magenta
        } else if same_str(name, "cyan") {
            StatusColor::Cyan
        } else if same_str(name, "white") {
            StatusColor::White
        } else if same_str(name, "black") {
            StatusColor::Black
        } else if same_str(name, "light_red") {
            StatusColor::LightRed
        } else if same_str(name, "light_green") {
            StatusColor::LightGreen
        } else if same_str(name, "light_blue") {
            StatusColor::LightBlue
        } else if same_str(name, "light_yellow") {
            StatusColor::LightYellow
        } else if same_str(name, "light_magenta") {
            StatusColor::LightMagenta
        } else if same_str(name, "light_cyan") {
            StatusColor::LightCyan
        } else if same_str(name, "dark_gray") {
            StatusColor::DarkGray
        } else {
            StatusColor::Gray
        }
    }

    /// Checks a configuration as read from its file.
    pub fn validate(config: &ConfigToml) -> (r: Result<(), ConfigError>)
        ensures
            r == validate_spec(*config),
    {
        let s = &config.statuses;
        let mut count: usize = 0;
        let mut i: usize = 0;
        while i < s.len()
            invariant
                i <= s.len(),
                count as int + origin_count_from(s@, i as int) == origin_count_from(s@, 0),
                count <= i,
            decreases s.len() - i,
        {
            match s[i].origin {
                Some(true) => {
                    count = count + 1;
                },
                _ => {},
            }
            i = i + 1;
        }
        if count > 1 {
            return Err(ConfigError::MultipleOrigins);
        }
        let custom = s.len() != 0 && !(s.len() == 3 && has_label_exec(s, "UpNext")
            && has_label_exec(s, "OnGoing") && has_label_exec(s, "Done"));
        if custom && count == 0 {
            Err(ConfigError::MissingOrigin)
        } else {
            Ok(())
        }
    }

    /// The status new tasks start in: the first status marked as origin,
    /// or `UpNext` where none is.
    pub fn get_origin_status(config: &ConfigToml) -> (r: String)
        ensures
            r@ == origin_label_from(config.statuses@, 0),
    {
        let s = &config.statuses;
        let mut i: usize = 0;
        while i < s.len()
            invariant
                i <= s.len(),
                s@ == config.statuses@,
                origin_label_from(s@, 0) == origin_label_from(s@, i as int),
            decreases s.len() - i,
        {
            match s[i].origin {
                Some(true) => {
                    let r = s[i].label.clone();
                    assert(origin_label_from(s@, i as int) == s@[i as int].label@);
                    assert(r@ == s@[i as int].label@);
                    return r;
                },
                _ => {},
            }
            i = i + 1;
        }
        String::from_str("UpNext")
    }
}

} // verus!
