//! Configuration for the welcome screen.
//!
//! ```toml
//! # ~/.config/helix/welcome.toml
//! enable = true
//! banner = ["  my own", "  ascii art"]
//! footer = "carpe diem"
//! ```

use toml::Value;
use vstd::prelude::*;

verus! {

/// The settings of the welcome screen.
#[derive(Debug, PartialEq, Eq)]
pub struct Config {
    /// Show the welcome screen when starting with no file arguments.
    pub enable: bool,
    /// Replaces the built-in banner. Lines are centered individually, so they
    /// don't have to be the same length; an empty list hides the banner.
    pub banner: Option<Vec<String>>,
    /// Replaces the built-in `helix <version>` footer. An empty string hides it.
    pub footer: Option<String>,
}

/// What a configuration says.
#[verifier::ext_equal]
pub struct ConfigView {
    pub enable: bool,
    pub banner: Option<Seq<Seq<char>>>,
    pub footer: Option<Seq<char>>,
}

/// One value of a settings file, as far as a setting can take it.
#[derive(Debug)]
pub enum Setting {
    Flag(bool),
    Text(String),
    /// A list; the items that are not text are `None`.
    List(Vec<Option<String>>),
    Integer,
    Float,
    Datetime,
    Table,
}

/// What a value of a settings file says.
#[verifier::ext_equal]
pub enum SettingView {
    Flag(bool),
    Text(Seq<char>),
    List(Seq<Option<Seq<char>>>),
    Integer,
    Float,
    Datetime,
    Table,
}

/// Why a settings file was refused.
#[derive(Debug)]
pub enum ConfigError {
    /// It is not TOML, and what the parser says about it.
    Malformed(toml::de::Error),
    /// It sets something that there is no setting for.
    UnknownKey,
    /// It gives a setting a value of the wrong type.
    WrongType,
}

/// Why a settings file was refused, apart from the parser's words.
pub enum ConfigErrorView {
    Malformed,
    UnknownKey,
    WrongType,
}

impl View for ConfigError {
    type V = ConfigErrorView;

    open spec fn view(&self) -> ConfigErrorView {
        match self {
            ConfigError::Malformed(_) => ConfigErrorView::Malformed,
            ConfigError::UnknownKey => ConfigErrorView::UnknownKey,
            ConfigError::WrongType => ConfigErrorView::WrongType,
        }
    }
}

/// The texts of a list.
pub open spec fn lines_view(lines: Seq<String>) -> Seq<Seq<char>> {
    Seq::new(lines.len(), |i: int| lines[i]@)
}

/// The text of an item, if it is one.
pub open spec fn item_view(item: Option<String>) -> Option<Seq<char>> {
    match item {
        Some(text) => Some(text@),
        None => None,
    }
}

impl View for Config {
    type V = ConfigView;

    open spec fn view(&self) -> ConfigView {
        ConfigView {
            enable: self.enable,
            banner: match self.banner {
                Some(lines) => Some(lines_view(lines@)),
                None => None,
            },
            footer: item_view(self.footer),
        }
    }
}

impl View for Setting {
    type V = SettingView;

    open spec fn view(&self) -> SettingView {
        match self {
            Setting::Flag(flag) => SettingView::Flag(*flag),
            Setting::Text(text) => SettingView::Text(text@),
            Setting::List(items) => SettingView::List(
                Seq::new(items@.len(), |i: int| item_view(items@[i])),
            ),
            Setting::Integer => SettingView::Integer,
            Setting::Float => SettingView::Float,
            Setting::Datetime => SettingView::Datetime,
            Setting::Table => SettingView::Table,
        }
    }
}

/// What the keys and values of a settings file say.
pub open spec fn settings_view(settings: Seq<(String, Setting)>) -> Seq<(Seq<char>, SettingView)> {
    Seq::new(settings.len(), |i: int| (settings[i].0@, settings[i].1@))
}

/// What a settings file sets, top level only, in the order of its keys, or
/// `None` if it is not TOML.
pub uninterp spec fn toml_document(source: Seq<char>) -> Option<Seq<(Seq<char>, SettingView)>>;

/// There is a setting with this name.
pub open spec fn is_known(key: Seq<char>) -> bool {
    key == "enable"@ || key == "banner"@ || key == "footer"@
}

/// A list of texts and nothing else.
pub open spec fn all_text(items: Seq<Option<Seq<char>>>) -> bool {
    forall|i: int| 0 <= i < items.len() ==> (#[trigger] items[i]) is Some
}

/// The value is of the type that the setting with this name takes.
pub open spec fn is_well_typed(key: Seq<char>, value: SettingView) -> bool {
    if key == "enable"@ {
        value is Flag
    } else if key == "banner"@ {
        value is List && all_text(value->List_0)
    } else {
        value is Text
    }
}

/// The value that a file gives to a setting.
pub open spec fn value_of(document: Seq<(Seq<char>, SettingView)>, key: Seq<char>) -> Option<
    SettingView,
>
    decreases document.len(),
{
    if document.len() == 0 {
        None
    } else if document.last().0 == key {
        Some(document.last().1)
    } else {
        value_of(document.drop_last(), key)
    }
}

/// The configuration in which nothing was set.
pub open spec fn default_config() -> ConfigView {
    ConfigView { enable: true, banner: None, footer: None }
}

/// The configuration that sets what a file of known keys and proper types sets.
pub open spec fn overridden(document: Seq<(Seq<char>, SettingView)>) -> ConfigView {
    ConfigView {
        enable: match value_of(document, "enable"@) {
            Some(value) => value->Flag_0,
            None => default_config().enable,
        },
        banner: match value_of(document, "banner"@) {
            Some(value) => Some(
                Seq::new(value->List_0.len(), |i: int| value->List_0[i]->0),
            ),
            None => default_config().banner,
        },
        footer: match value_of(document, "footer"@) {
            Some(value) => Some(value->Text_0),
            None => default_config().footer,
        },
    }
}

/// What a file makes of the configuration, or why it is refused.
pub open spec fn config_of(document: Seq<(Seq<char>, SettingView)>) -> Result<
    ConfigView,
    ConfigErrorView,
> {
    if exists|i: int| 0 <= i < document.len() && !is_known((#[trigger] document[i]).0) {
        Err(ConfigErrorView::UnknownKey)
    } else if exists|i: int|
        0 <= i < document.len() && !is_well_typed((#[trigger] document[i]).0, document[i].1) {
        Err(ConfigErrorView::WrongType)
    } else {
        Ok(overridden(document))
    }
}

/// What a file's text makes of the configuration, or why it is refused.
pub open spec fn parsed(source: Seq<char>) -> Result<ConfigView, ConfigErrorView> {
    match toml_document(source) {
        Some(document) => config_of(document),
        None => Err(ConfigErrorView::Malformed),
    }
}

/// The configuration to start with, from the text of the settings file, if
/// there is one.
pub open spec fn loaded(source: Option<Seq<char>>) -> ConfigView {
    match source {
        Some(source) => match parsed(source) {
            Ok(config) => config,
            Err(_) => default_config(),
        },
        None => default_config(),
    }
}

/// The banner that is shown. An empty one is none.
pub open spec fn shown_banner(config: ConfigView, art: Seq<Seq<char>>) -> Option<Seq<Seq<char>>> {
    let lines = match config.banner {
        Some(lines) => lines,
        None => art,
    };
    if lines.len() == 0 {
        None
    } else {
        Some(lines)
    }
}

/// The footer that is shown. An empty one is none.
pub open spec fn shown_footer(config: ConfigView, version: Seq<char>) -> Option<Seq<char>> {
    match config.footer {
        Some(text) => if text.len() == 0 {
            None
        } else {
            Some(text)
        },
        None => Some("helix "@ + version),
    }
}

/// A result of the library is the result that was meant.
pub open spec fn is_outcome(
    result: Result<Config, ConfigError>,
    meant: Result<ConfigView, ConfigErrorView>,
) -> bool {
    match result {
        Ok(config) => meant == Ok::<ConfigView, ConfigErrorView>(config@),
        Err(error) => meant == Err::<ConfigView, ConfigErrorView>(error@),
    }
}

/// A file that sets nothing leaves every default.
pub proof fn law_nothing_set()
    ensures
        config_of(Seq::empty()) == Ok::<ConfigView, ConfigErrorView>(default_config()),
{
}

/// Each setting stands on its own: one that a file does not set keeps its
/// default, whatever else the file sets.
pub proof fn law_unset_keeps_default(document: Seq<(Seq<char>, SettingView)>, config: ConfigView)
    requires
        config_of(document) == Ok::<ConfigView, ConfigErrorView>(config),
    ensures
        value_of(document, "enable"@) is None ==> config.enable == default_config().enable,
        value_of(document, "banner"@) is None ==> config.banner == default_config().banner,
        value_of(document, "footer"@) is None ==> config.footer == default_config().footer,
{
}

/// A file that is refused, like one that is not there, starts the editor with
/// the defaults.
pub proof fn law_refused_is_default(source: Seq<char>)
    requires
        parsed(source) is Err,
    ensures
        loaded(Some(source)) == default_config(),
        loaded(Some(source)) == loaded(None),
{
}

/// `toml::de::Error`, opaque.
#[verifier::external_type_specification]
#[verifier::external_body]
pub struct ExTomlError(toml::de::Error);

/// `toml::from_str`, into a table: a function of the text, which fails where
/// the text is not TOML.
#[verifier::external_body]
fn parse_toml(source: &str) -> (document: Result<Vec<(String, Setting)>, toml::de::Error>)
    ensures
        match document {
            Ok(document) => toml_document(source@) == Some(settings_view(document@)),
            Err(_) => toml_document(source@) is None,
        },
{
    let table = toml::from_str::<toml::Table>(source)?;
    let text = |item: Value| item.as_str().map(str::to_owned);
    let setting = |value| match value {
        Value::Boolean(flag) => Setting::Flag(flag),
        Value::String(text) => Setting::Text(text),
        Value::Array(items) => Setting::List(items.into_iter().map(text).collect()),
        Value::Integer(_) => Setting::Integer,
        Value::Float(_) => Setting::Float,
        Value::Datetime(_) => Setting::Datetime,
        Value::Table(_) => Setting::Table,
    };
    Ok(table.into_iter().map(|(key, value)| (key, setting(value))).collect())
}

impl Default for Config {
    fn default() -> (config: Self)
        ensures
            config@ == default_config(),
    {
        Config { enable: true, banner: None, footer: None }
    }
}

impl Clone for Config {
    fn clone(&self) -> (copy: Self)
        ensures
            copy@ == self@,
    {
        let banner = match &self.banner {
            Some(lines) => {
                let copied = lines.clone();
                assert(lines_view(copied@) =~= lines_view(lines@));
                Some(copied)
            },
            None => None,
        };
        let footer = match &self.footer {
            Some(text) => Some(text.clone()),
            None => None,
        };
        Config { enable: self.enable, banner, footer }
    }
}

/// The texts of a list that holds nothing else.
fn texts(items: Vec<Option<String>>) -> (lines: Option<Vec<String>>)
    ensures
        match lines {
            Some(lines) => {
                &&& lines@.len() == items@.len()
                &&& forall|i: int|
                    0 <= i < items@.len() ==> #[trigger] items@[i] == Some(lines@[i])
            },
            None => exists|i: int| 0 <= i < items@.len() && (#[trigger] items@[i]) is None,
        },
{
    let mut lines: Vec<String> = Vec::new();
    for item in rest: items
        invariant
            rest.seq() == items@,
            lines@.len() == rest.index(),
            forall|i: int| 0 <= i < rest.index() ==> #[trigger] items@[i] == Some(lines@[i]),
    {
        let ghost at = rest.index() as int;
        assert(item == items@[at]);
        match item {
            Some(text) => {
                lines.push(text);
            },
            None => {
                return None;
            },
        }
    }
    Some(lines)
}

/// Whether there is a setting with this name.
fn known(key: &String) -> (known: bool)
    ensures
        known == is_known(key@),
{
    *key == "enable".to_owned() || *key == "banner".to_owned() || *key == "footer".to_owned()
}

impl Config {
    /// The configuration that a file with these top-level settings asks for.
    ///
    /// Every key must be one that there is a setting for, and every value of
    /// the type that the setting takes; what is not set keeps its default.
    pub fn from_settings(settings: Vec<(String, Setting)>) -> (config: Result<Self, ConfigError>)
        ensures
            is_outcome(config, config_of(settings_view(settings@))),
    {
        let ghost document = settings_view(settings@);
        let mut index: usize = 0;
        while index < settings.len()
            invariant
                index <= settings@.len(),
                document == settings_view(settings@),
                forall|i: int| 0 <= i < index ==> is_known((#[trigger] document[i]).0),
            decreases settings.len() - index,
        {
            if !known(&settings[index].0) {
                assert(!is_known(document[index as int].0));
                return Err(ConfigError::UnknownKey);
            }
            index = index + 1;
        }
        let mut config = Config::default();
        for setting in rest: settings
            invariant
                rest.seq() == settings@,
                document == settings_view(settings@),
                forall|i: int| 0 <= i < document.len() ==> is_known((#[trigger] document[i]).0),
                forall|i: int|
                    0 <= i < rest.index() ==> is_well_typed(
                        (#[trigger] document[i]).0,
                        document[i].1,
                    ),
                config@ == overridden(document.take(rest.index() as int)),
        {
            let ghost at = rest.index() as int;
            let ghost before = config@;
            assert(document.take(at + 1).drop_last() =~= document.take(at));
            assert(setting == settings@[at]);
            let (key, value) = setting;
            assert(document[at] == (key@, value@));
            proof {
                reveal_strlit("enable");
                reveal_strlit("banner");
                reveal_strlit("footer");
                assert("enable"@[0] == 'e' && "banner"@[0] == 'b' && "footer"@[0] == 'f');
            }
            let wanted: bool = if key == "enable".to_owned() {
                if let Setting::Flag(flag) = value {
                    config.enable = flag;
                    true
                } else {
                    false
                }
            } else if key == "banner".to_owned() {
                if let Setting::List(items) = value {
                    match texts(items) {
                        Some(lines) => {
                            let ghost shown = lines_view(lines@);
                            config.banner = Some(lines);
                            assert(shown =~= overridden(document.take(at + 1)).banner->0);
                            true
                        },
                        None => {
                            assert(exists|i: int|
                                0 <= i < items@.len() && (#[trigger] items@[i]) is None);
                            let ghost i = choose|i: int|
                                0 <= i < items@.len() && (#[trigger] items@[i]) is None;
                            assert(document[at].1->List_0[i] is None);
                            false
                        },
                    }
                } else {
                    false
                }
            } else {
                if let Setting::Text(text) = value {
                    config.footer = Some(text);
                    true
                } else {
                    false
                }
            };
            if !wanted {
                assert(!is_well_typed(document[at].0, document[at].1));
                return Err(ConfigError::WrongType);
            }
            assert(is_well_typed(document[at].0, document[at].1));
        }
        assert(document.take(document.len() as int) =~= document);
        Ok(config)
    }

    /// The configuration that a file with this text asks for.
    pub fn parse(source: &str) -> (config: Result<Self, ConfigError>)
        ensures
            is_outcome(config, parsed(source@)),
    {
        match parse_toml(source) {
            Ok(settings) => Config::from_settings(settings),
            Err(error) => Err(ConfigError::Malformed(error)),
        }
    }

    /// The configuration to start with, from the text of `welcome.toml`.
    ///
    /// A missing file is the common case and means "use the defaults". A
    /// malformed one also falls back: a typo in a cosmetic config file must
    /// never stop the editor from starting.
    pub fn load(source: Option<&str>) -> (config: Self)
        ensures
            config@ == loaded(
                match source {
                    Some(source) => Some(source@),
                    None => None,
                },
            ),
    {
        match source {
            Some(source) => match Config::parse(source) {
                Ok(config) => config,
                Err(_) => Config::default(),
            },
            None => Config::default(),
        }
    }

    /// The lines of the banner: those that were set, or else the built-in art.
    /// `None` where there is nothing to show.
    pub fn banner_lines<'a>(&'a self, art: &'a Vec<String>) -> (lines: Option<&'a Vec<String>>)
        ensures
            match lines {
                Some(lines) => shown_banner(self@, lines_view(art@)) == Some(lines_view(lines@)),
                None => shown_banner(self@, lines_view(art@)) is None,
            },
    {
        let lines = match &self.banner {
            Some(lines) => lines,
            None => art,
        };
        if lines.len() == 0 {
            None
        } else {
            Some(lines)
        }
    }

    /// The footer: the one that was set, or else `helix <version>`. `None` where
    /// it is hidden.
    pub fn footer_line(&self, version: &str) -> (line: Option<String>)
        ensures
            match line {
                Some(line) => shown_footer(self@, version@) == Some(line@),
                None => shown_footer(self@, version@) is None,
            },
    {
        match &self.footer {
            Some(text) => {
                if text.as_str().is_empty() {
                    None
                } else {
                    Some(text.clone())
                }
            },
            None => {
                let mut line = "helix ".to_owned();
                line.append(version);
                Some(line)
            },
        }
    }
}

} // verus!
