//! What the settings say and what the welcome screen does, in terms of what was
//! written and what is pressed.

use vstd::prelude::*;

use crate::config::{
    Config, ConfigError, ConfigErrorView, ConfigView, Setting, SettingView,
};
use crate::event::{Event, KeyCode, KeyEvent, Modifiers};
use crate::layout::Rect;
use crate::welcome::{Args, Drawn, Item, LineStyle, Reaction, WelcomeView};

verus! {

/// A file is taken exactly where it sets nothing but `enable` to a flag,
/// `banner` to a list of texts and `footer` to a text. A name that is none of
/// these is found fault with first, then a value of another type.
pub proof fn law_which_files_are_taken(document: Seq<(Seq<char>, SettingView)>)
    ensures
        ({
            let result = crate::config::config_of(document);
            let unknown = exists|i: int|
                0 <= i < document.len() && (#[trigger] document[i]).0 != "enable"@ && document[i].0
                    != "banner"@ && document[i].0 != "footer"@;
            let wrong = exists|i: int|
                0 <= i < document.len() && {
                    ||| (#[trigger] document[i]).0 == "enable"@ && !(document[i].1 is Flag)
                    ||| document[i].0 == "footer"@ && !(document[i].1 is Text)
                    ||| document[i].0 == "banner"@ && !(document[i].1 is List && forall|k: int|
                        0 <= k < document[i].1->List_0.len()
                            ==> (#[trigger] document[i].1->List_0[k]) is Some)
                };
            &&& result == Err::<ConfigView, ConfigErrorView>(ConfigErrorView::UnknownKey) <==> unknown
            &&& result == Err::<ConfigView, ConfigErrorView>(ConfigErrorView::WrongType)
                <==> !unknown && wrong
            &&& result is Ok <==> !unknown && !wrong
        }),
{
    lemma_names_differ();
    if exists|i: int|
        0 <= i < document.len() && !crate::config::is_known((#[trigger] document[i]).0) {
    } else {
        assert forall|i: int| 0 <= i < document.len() implies (crate::config::is_well_typed(
            (#[trigger] document[i]).0,
            document[i].1,
        ) <==> !({
            ||| document[i].0 == "enable"@ && !(document[i].1 is Flag)
            ||| document[i].0 == "footer"@ && !(document[i].1 is Text)
            ||| document[i].0 == "banner"@ && !(document[i].1 is List && forall|k: int|
                0 <= k < document[i].1->List_0.len() ==> (#[trigger] document[i].1->List_0[k])
                    is Some)
        })) by {
            assert(crate::config::is_known(document[i].0));
        }
    }
}

proof fn lemma_names_differ()
    ensures
        "enable"@ != "banner"@,
        "enable"@ != "footer"@,
        "banner"@ != "footer"@,
{
    reveal_strlit("enable");
    reveal_strlit("banner");
    reveal_strlit("footer");
    assert("enable"@[0] == 'e' && "banner"@[0] == 'b' && "footer"@[0] == 'f');
}

/// What a file that is taken sets counts: the value that a name is last given.
/// What it does not set is as if there were no file: the screen enabled, the
/// banner and the footer built in.
pub proof fn law_what_a_file_sets(
    document: Seq<(Seq<char>, SettingView)>,
    config: ConfigView,
    i: int,
)
    requires
        crate::config::config_of(document) == Ok::<ConfigView, ConfigErrorView>(config),
    ensures
        (forall|j: int| 0 <= j < document.len() ==> (#[trigger] document[j]).0 != "enable"@)
            ==> config.enable,
        (forall|j: int| 0 <= j < document.len() ==> (#[trigger] document[j]).0 != "banner"@)
            ==> config.banner is None,
        (forall|j: int| 0 <= j < document.len() ==> (#[trigger] document[j]).0 != "footer"@)
            ==> config.footer is None,
        0 <= i < document.len() && (forall|j: int|
            i < j < document.len() ==> (#[trigger] document[j]).0 != document[i].0) ==> {
            &&& document[i].0 == "enable"@ ==> document[i].1 == SettingView::Flag(config.enable)
            &&& document[i].0 == "footer"@ ==> config.footer is Some && document[i].1
                == SettingView::Text(config.footer->0)
            &&& document[i].0 == "banner"@ ==> {
                &&& config.banner matches Some(lines)
                &&& document[i].1 matches SettingView::List(items)
                &&& lines.len() == items.len()
                &&& forall|k: int| 0 <= k < lines.len() ==> items[k] == Some(#[trigger] lines[k])
            }
        },
{
    lemma_names_differ();
    lemma_value_of(document, "enable"@);
    lemma_value_of(document, "banner"@);
    lemma_value_of(document, "footer"@);
    if 0 <= i < document.len() {
        assert(crate::config::is_known(document[i].0));
        assert(crate::config::is_well_typed(document[i].0, document[i].1));
    }
}

/// The value that a name is given is the last one, if there is one.
proof fn lemma_value_of(document: Seq<(Seq<char>, SettingView)>, key: Seq<char>)
    ensures
        forall|i: int|
            0 <= i < document.len() && (#[trigger] document[i]).0 == key && (forall|j: int|
                i < j < document.len() ==> (#[trigger] document[j]).0 != key)
                ==> crate::config::value_of(document, key) == Some(document[i].1),
        (forall|j: int| 0 <= j < document.len() ==> (#[trigger] document[j]).0 != key)
            ==> crate::config::value_of(document, key) is None,
    decreases document.len(),
{
    if document.len() > 0 && document.last().0 != key {
        let front = document.drop_last();
        lemma_value_of(front, key);
        assert forall|i: int|
            0 <= i < document.len() && (#[trigger] document[i]).0 == key && (forall|j: int|
                i < j < document.len() ==> (#[trigger] document[j]).0 != key) implies
            crate::config::value_of(document, key) == Some(document[i].1) by {
            assert(i != document.len() - 1);
            assert(front[i] == document[i]);
            assert forall|j: int| i < j < front.len() implies (#[trigger] front[j]).0 != key by {
                assert(front[j] == document[j]);
            }
        }
        if forall|j: int| 0 <= j < document.len() ==> (#[trigger] document[j]).0 != key {
            assert forall|j: int| 0 <= j < front.len() implies (#[trigger] front[j]).0 != key by {
                assert(front[j] == document[j]);
            }
        }
    } else if document.len() > 0 {
        assert(document[document.len() - 1].0 == key);
    }
}

/// What is no TOML is refused as such, and only that is; and whatever is refused
/// or missing starts the editor as if nothing were set.
pub proof fn law_text_of_a_file(source: Seq<char>)
    ensures
        ({
            let parsed = crate::config::parsed(source);
            let loaded = crate::config::loaded(Some(source));
            let unset = ConfigView { enable: true, banner: None, footer: None };
            &&& parsed == Err::<ConfigView, ConfigErrorView>(ConfigErrorView::Malformed)
                <==> crate::config::toml_document(source) is None
            &&& crate::config::toml_document(source) matches Some(document) ==> parsed
                == crate::config::config_of(document)
            &&& parsed is Err ==> loaded == unset
            &&& parsed matches Ok(config) ==> loaded == config
            &&& crate::config::loaded(None) == unset
        }),
{
}

/// What is shown of banner and footer: what was set, or else what is built in;
/// an empty one is not shown.
pub proof fn law_banner_and_footer(
    config: ConfigView,
    art: Seq<Seq<char>>,
    version: Seq<char>,
)
    ensures
        ({
            let banner = crate::config::shown_banner(config, art);
            let footer = crate::config::shown_footer(config, version);
            &&& config.banner matches Some(lines) ==> if lines.len() > 0 {
                banner == Some(lines)
            } else {
                banner is None
            }
            &&& config.banner is None ==> if art.len() > 0 {
                banner == Some(art)
            } else {
                banner is None
            }
            &&& config.footer matches Some(text) ==> if text.len() > 0 {
                footer == Some(text)
            } else {
                footer is None
            }
            &&& config.footer is None ==> footer == Some("helix "@ + version)
        }),
{
}

/// What settings and configurations say is what is in them.
pub proof fn law_settings_say(config: Config, error: ConfigError, setting: Setting)
    ensures
        config@.enable == config.enable,
        config.banner is None <==> config@.banner is None,
        config.banner matches Some(lines) ==> {
            &&& config@.banner->0.len() == lines@.len()
            &&& forall|k: int| 0 <= k < lines@.len() ==> config@.banner->0[k] == (#[trigger] lines@[k])@
        },
        config.footer is None <==> config@.footer is None,
        config.footer matches Some(text) ==> config@.footer == Some(text@),
        error is Malformed <==> error@ is Malformed,
        error is UnknownKey <==> error@ is UnknownKey,
        error is WrongType <==> error@ is WrongType,
        setting matches Setting::Flag(flag) ==> setting@ == SettingView::Flag(flag),
        setting matches Setting::Text(text) ==> setting@ == SettingView::Text(text@),
        setting matches Setting::List(items) ==> {
            &&& setting@ matches SettingView::List(said)
            &&& said.len() == items@.len()
            &&& forall|k: int|
                0 <= k < items@.len() ==> {
                    &&& (#[trigger] items@[k]) is None <==> said[k] is None
                    &&& items@[k] matches Some(text) ==> said[k] == Some(text@)
                }
        },
        setting is Integer || setting is Float || setting is Datetime || setting is Table
            ==> !(setting@ is Flag) && !(setting@ is Text) && !(setting@ is List),
{
}

/// What a list of settings says is what each says under its name, in order.
pub proof fn law_settings_in_order(settings: Seq<(String, Setting)>)
    ensures
        ({
            let said = crate::config::settings_view(settings);
            &&& said.len() == settings.len()
            &&& forall|k: int|
                0 <= k < settings.len() ==> (#[trigger] said[k]).0 == settings[k].0@ && said[k].1
                    == settings[k].1@
        }),
{
}

/// A result is the one that was meant exactly where both succeed with the same
/// configuration or fail for the same reason.
pub proof fn law_outcome(
    result: Result<Config, ConfigError>,
    meant: Result<ConfigView, ConfigErrorView>,
)
    requires
        crate::config::is_outcome(result, meant),
    ensures
        result matches Ok(config) ==> meant == Ok::<ConfigView, ConfigErrorView>(config@),
        result matches Err(error) ==> meant == Err::<ConfigView, ConfigErrorView>(error@),
{
}

/// The screen is called for on a terminal, outside integration tests, where
/// neither a file nor the tutor is asked for.
pub proof fn law_called_for(args: Args, integration: bool, terminal: bool)
    ensures
        crate::welcome::is_called_for(args, integration, terminal) <==> {
            &&& terminal
            &&& !integration
            &&& !args.load_tutor
            &&& args.files@.len() == 0
        },
{
}

/// The screen starts with the banner and the footer that were set, or else with
/// the word `welcome` and the version; with the items given, and the cursor on
/// the first.
pub proof fn law_first_shown(
    config: ConfigView,
    version: Seq<char>,
    items: Seq<Item>,
)
    ensures
        ({
            let said = crate::welcome::items_view(items);
            let screen = crate::welcome::first_shown(config, version, said);
            &&& config.banner matches Some(lines) ==> screen.banner == lines
            &&& config.banner is None ==> screen.banner == seq!["welcome"@]
            &&& config.footer matches Some(text) ==> if text.len() > 0 {
                screen.footer == Some(text)
            } else {
                screen.footer is None
            }
            &&& config.footer is None ==> screen.footer == Some("helix "@ + version)
            &&& screen.selected == 0
            &&& screen.items.len() == items.len()
            &&& forall|k: int|
                0 <= k < items.len() ==> (#[trigger] screen.items[k]).label == items[k].label@
                    && screen.items[k].hotkey == items[k].hotkey
        }),
{
    if let Some(lines) = config.banner {
        if lines.len() == 0 {
            assert(lines =~= Seq::empty());
        }
    }
}

/// `j` and Down move to the next item and from the last to the first, `k` and Up
/// the other way round, and nothing else changes. Enter runs the item under the
/// cursor.
pub proof fn law_menu_keys(view: WelcomeView, key: KeyEvent)
    requires
        0 <= view.selected < view.items.len(),
        key.modifiers == Modifiers::Plain,
    ensures
        ({
            let (after, reaction) = view.handle_event(Event::Key(key), false);
            let down = key.code == KeyCode::Char('j') || key.code == KeyCode::Down;
            let up = key.code == KeyCode::Char('k') || key.code == KeyCode::Up;
            let len = view.items.len() as int;
            &&& down || up ==> {
                &&& reaction == Reaction::Moved
                &&& after == (WelcomeView { selected: after.selected, ..view })
                &&& 0 <= after.selected < len
            }
            &&& down ==> after.selected == view.selected + 1 || after.selected == view.selected + 1
                - len
            &&& up ==> after.selected == view.selected - 1 || after.selected == view.selected - 1
                + len
            &&& key.code == KeyCode::Enter ==> after == view && reaction == Reaction::Run(
                view.selected as usize,
            )
        }),
{
}

/// A hotkey runs the first item that has it, unless it is one of the keys that
/// move.
pub proof fn law_hotkeys(view: WelcomeView, character: char, item: int)
    requires
        character != 'j',
        character != 'k',
        0 <= item < view.items.len(),
        view.items[item].hotkey == Some(character),
        forall|i: int| 0 <= i < item ==> (#[trigger] view.items[i]).hotkey != Some(character),
    ensures
        view.handle_event(
            Event::Key(
                KeyEvent { code: KeyCode::Char(character), modifiers: Modifiers::Plain },
            ),
            false,
        ) == (view, Reaction::Run(item as usize)),
{
    crate::welcome::lemma_item_for(view.items, character, 0);
    match crate::welcome::item_for(view.items, character, 0) {
        Some(found) => {
            assert(found < item ==> view.items[found].hotkey != Some(character));
            assert(item < found ==> view.items[item].hotkey != Some(character));
        },
        None => {
            assert(view.items[item].hotkey != Some(character));
        },
    }
}

/// A key takes the screen away exactly where it neither moves nor is Enter nor
/// the hotkey of an item; it changes nothing, and is the editor's.
pub proof fn law_leaving(view: WelcomeView, key: KeyEvent)
    ensures
        ({
            let plain = key.modifiers == Modifiers::Plain;
            let menu = plain && {
                ||| key.code == KeyCode::Char('j') || key.code == KeyCode::Char('k')
                ||| key.code == KeyCode::Down || key.code == KeyCode::Up
                ||| key.code == KeyCode::Enter
                ||| exists|i: int|
                    0 <= i < view.items.len() && key.code is Char && (#[trigger] view.items[i]).hotkey
                        == Some(key.code->Char_0)
            };
            let (after, reaction) = view.handle_event(Event::Key(key), false);
            &&& reaction == Reaction::Leave <==> !menu
            &&& !menu ==> after == view
        }),
{
    if let KeyCode::Char(character) = key.code {
        crate::welcome::lemma_item_for(view.items, character, 0);
        if let Some(found) = crate::welcome::item_for(view.items, character, 0) {
            assert(view.items[found].hotkey == Some(character));
        }
    }
}

/// In an empty menu the cursor stays where it is, though the keys are still the
/// menu's.
pub proof fn law_empty_menu(view: WelcomeView, event: Event, document_open: bool)
    requires
        view.items.len() == 0,
        view.selected == 0,
    ensures
        view.handle_event(event, document_open).0 == view,
        event matches Event::Key(key) ==> !document_open && key.modifiers == Modifiers::Plain ==> {
            &&& key.code == KeyCode::Char('j') || key.code == KeyCode::Char('k') || key.code
                == KeyCode::Down || key.code == KeyCode::Up ==> view.handle_event(
                event,
                document_open,
            ).1 == Reaction::Moved
            &&& key.code == KeyCode::Enter ==> view.handle_event(event, document_open).1
                == Reaction::Run(0)
        },
{
}

/// What is no key leaves the screen as it is, and is the editor's; once a
/// document is open everything is, and the screen goes.
pub proof fn law_staying_and_retiring(view: WelcomeView, event: Event)
    ensures
        view.handle_event(Event::Other, false) == (view, Reaction::Stay),
        view.handle_event(event, true) == (view, Reaction::Retire),
        event is Key ==> !(view.handle_event(event, false).1 is Stay) && !(view.handle_event(
            event,
            false,
        ).1 is Retire),
{
}

/// The screen shows the banner, then after an empty line the items, and after
/// another the footer. Of the items the one under the cursor stands out.
pub proof fn law_screen_content(view: WelcomeView)
    ensures
        ({
            let content = view.content();
            let above = view.banner.len() as int;
            let menu = if view.items.len() > 0 {
                view.items.len() + 1
            } else {
                0
            };
            &&& content.len() == above + menu + (if view.footer is Some {
                2int
            } else {
                0int
            })
            &&& forall|i: int|
                0 <= i < above ==> (#[trigger] content[i]).text == view.banner[i] && content[i].style
                    == LineStyle::Banner
            &&& view.items.len() > 0 ==> content[above].text.len() == 0 && content[above].style
                == LineStyle::Gap
            &&& forall|i: int|
                0 <= i < view.items.len() ==> {
                    let line = #[trigger] content[above + 1 + i];
                    &&& line.text == view.items[i].label
                    &&& i == view.selected ==> line.style == LineStyle::Selected
                    &&& i != view.selected ==> line.style == LineStyle::Item
                }
            &&& view.footer matches Some(text) ==> {
                &&& content[above + menu].text.len() == 0
                &&& content[above + menu].style == LineStyle::Gap
                &&& content[above + menu + 1].text == text
                &&& content[above + menu + 1].style == LineStyle::Footer
            }
        }),
{
}

/// The middle line of the banner stands in the middle row, or as near as there
/// is room above; and as many lines are drawn from there as there are rows.
pub proof fn law_screen_rows(view: WelcomeView, inner: Rect)
    ensures
        ({
            let top = view.top(inner);
            let drawn = view.drawn_lines(inner);
            let middle = inner.height as int / 2;
            let half = view.banner.len() as int / 2;
            let len = view.content().len() as int;
            let rows = if inner.height > 0 {
                inner.height as int
            } else {
                1
            };
            &&& half <= middle ==> top + half == middle
            &&& half > middle ==> top == 0
            &&& 0 <= drawn <= len
            &&& top + drawn <= rows
            &&& drawn < len ==> top + drawn == rows
        }),
{
}

/// Each line is drawn in its row, in the middle of the columns, with its own
/// text.
pub proof fn law_screen_line(view: WelcomeView, drawn: Drawn, inner: Rect, line: int)
    requires
        view.is_drawn(drawn, inner, line),
        0 <= line < view.content().len(),
    ensures
        ({
            let shown = view.content()[line];
            let left = drawn.x - inner.x;
            let right = inner.width - shown.text.len() - left;
            &&& drawn.text@ == shown.text
            &&& drawn.style == shown.style
            &&& drawn.y == inner.y + view.top(inner) + line
            &&& shown.text.len() <= inner.width ==> 0 <= left && (left == right || left + 1
                == right)
            &&& shown.text.len() > inner.width ==> left == 0
        }),
{
}

} // verus!
