//! The welcome screen: when it appears, what it draws, what its menu does with
//! a key, and when it goes.
//!
//! A banner, a menu of actions and a footer, shown when the editor starts with
//! nothing to open. What the actions are and how they are run is the caller's
//! business: the screen says which of them was chosen.

use std::path::PathBuf;
use vstd::prelude::*;

use crate::config::Config;
use crate::event::{Event, KeyCode, KeyEvent, Modifiers};
use crate::layout::{center, Cursor, Rect};

verus! {

/// The command line, as far as the welcome screen depends on it.
#[derive(Debug)]
pub struct Args {
    pub files: Vec<PathBuf>,
    pub load_tutor: bool,
}

/// One action of the menu.
#[derive(Debug)]
pub struct Item {
    /// What the menu shows for it.
    pub label: String,
    /// The key that runs it from anywhere in the menu.
    pub hotkey: Option<char>,
}

/// What an [`Item`] says.
pub struct ItemView {
    pub label: Seq<char>,
    pub hotkey: Option<char>,
}

impl View for Item {
    type V = ItemView;

    open spec fn view(&self) -> ItemView {
        ItemView { label: self.label@, hotkey: self.hotkey }
    }
}

/// What the welcome screen does with an event.
#[derive(Debug, Clone, Copy, PartialEq, Eq, Structural)]
pub enum Reaction {
    /// It stays, and the event is the editor's.
    Stay,
    /// It takes the key: the cursor moved in the menu.
    Moved,
    /// It takes the key: the action with this number is to be run. The screen
    /// stays, so that whatever the action opens is layered on top of it.
    Run(usize),
    /// It goes away, and the key is the editor's.
    Leave,
    /// It goes away because a document is open, and the event is the editor's.
    Retire,
}

/// What a drawn line is part of.
#[derive(Debug, Clone, Copy, PartialEq, Eq, Structural)]
pub enum LineStyle {
    Banner,
    Item,
    /// The item under the cursor.
    Selected,
    Footer,
    /// An empty line.
    Gap,
}

/// One line as it is drawn.
#[derive(Debug)]
pub struct Drawn {
    pub x: u32,
    pub y: u32,
    pub text: String,
    pub style: LineStyle,
}

/// What a line says.
pub struct LineView {
    pub text: Seq<char>,
    pub style: LineStyle,
}

/// The welcome screen.
#[derive(Debug)]
pub struct Welcome {
    banner: Vec<String>,
    items: Vec<Item>,
    footer: Option<String>,
    /// The item under the cursor; 0 in an empty menu.
    selected: usize,
}

/// What a welcome screen is, apart from how it is stored.
#[verifier::ext_equal]
pub struct WelcomeView {
    pub banner: Seq<Seq<char>>,
    pub items: Seq<ItemView>,
    pub footer: Option<Seq<char>>,
    pub selected: int,
}

impl View for Welcome {
    type V = WelcomeView;

    closed spec fn view(&self) -> WelcomeView {
        WelcomeView {
            banner: crate::config::lines_view(self.banner@),
            items: items_view(self.items@),
            footer: crate::config::item_view(self.footer),
            selected: self.selected as int,
        }
    }
}

/// What a menu says.
pub open spec fn items_view(items: Seq<Item>) -> Seq<ItemView> {
    Seq::new(items.len(), |i: int| items[i]@)
}

/// The banner that is shown unless the configuration sets another.
pub open spec fn built_in_banner() -> Seq<Seq<char>> {
    seq!["welcome"@]
}

/// Whether the screen is called for: an interactive start with nothing to open.
pub open spec fn is_called_for(args: Args, integration: bool, terminal: bool) -> bool {
    !integration && args.files@.len() == 0 && !args.load_tutor && terminal
}

/// A key on its own.
pub open spec fn is_plain(key: KeyEvent, code: KeyCode) -> bool {
    key == (KeyEvent { code, modifiers: Modifiers::Plain })
}

/// The keys that move down in the menu.
pub open spec fn is_down(key: KeyEvent) -> bool {
    is_plain(key, KeyCode::Char('j')) || is_plain(key, KeyCode::Down)
}

/// The keys that move up in the menu.
pub open spec fn is_up(key: KeyEvent) -> bool {
    is_plain(key, KeyCode::Char('k')) || is_plain(key, KeyCode::Up)
}

/// The first item from `from` on that a character is the hotkey of.
pub open spec fn item_for(items: Seq<ItemView>, character: char, from: int) -> Option<int>
    decreases items.len() - from,
{
    if from >= items.len() {
        None
    } else if items[from].hotkey == Some(character) {
        Some(from)
    } else {
        item_for(items, character, from + 1)
    }
}

/// The lines of a banner.
pub open spec fn banner_content(banner: Seq<Seq<char>>) -> Seq<LineView> {
    Seq::new(banner.len(), |i: int| LineView { text: banner[i], style: LineStyle::Banner })
}

/// The lines of a menu.
pub open spec fn menu_content(items: Seq<ItemView>, selected: int) -> Seq<LineView> {
    Seq::new(
        items.len(),
        |i: int|
            LineView {
                text: items[i].label,
                style: if i == selected {
                    LineStyle::Selected
                } else {
                    LineStyle::Item
                },
            },
    )
}

/// An empty line.
pub open spec fn gap() -> LineView {
    LineView { text: Seq::empty(), style: LineStyle::Gap }
}

/// The screen as it is first shown.
pub open spec fn first_shown(
    config: crate::config::ConfigView,
    version: Seq<char>,
    items: Seq<ItemView>,
) -> WelcomeView {
    WelcomeView {
        banner: match crate::config::shown_banner(config, built_in_banner()) {
            Some(lines) => lines,
            None => Seq::empty(),
        },
        items,
        footer: crate::config::shown_footer(config, version),
        selected: 0,
    }
}

impl WelcomeView {
    /// The cursor is on an item, if there is one.
    pub open spec fn wf(self) -> bool {
        &&& 0 <= self.selected
        &&& self.items.len() > 0 ==> self.selected < self.items.len()
        &&& self.items.len() == 0 ==> self.selected == 0
    }

    /// One item further, from the last to the first.
    pub open spec fn select_next(self) -> WelcomeView {
        WelcomeView {
            selected: if self.selected + 1 < self.items.len() {
                self.selected + 1
            } else {
                0
            },
            ..self
        }
    }

    /// One item back, from the first to the last.
    pub open spec fn select_prev(self) -> WelcomeView {
        WelcomeView {
            selected: if self.selected > 0 {
                self.selected - 1
            } else if self.items.len() > 0 {
                self.items.len() - 1
            } else {
                0
            },
            ..self
        }
    }

    /// The item that a key is the hotkey of.
    pub open spec fn hotkey_item(self, key: KeyEvent) -> Option<int> {
        match (key.modifiers, key.code) {
            (Modifiers::Plain, KeyCode::Char(character)) => item_for(self.items, character, 0),
            _ => None,
        }
    }

    /// The key is the menu's: it moves, or it runs an action.
    pub open spec fn takes(self, key: KeyEvent) -> bool {
        ||| is_down(key)
        ||| is_up(key)
        ||| crate::command::is_submit(key)
        ||| self.hotkey_item(key) is Some
    }

    /// What an event does. Moving comes before hotkeys.
    pub open spec fn handle_event(self, event: Event, document_open: bool) -> (
        WelcomeView,
        Reaction,
    ) {
        if document_open {
            (self, Reaction::Retire)
        } else {
            match event {
                Event::Other => (self, Reaction::Stay),
                Event::Key(key) => if is_down(key) {
                    (self.select_next(), Reaction::Moved)
                } else if is_up(key) {
                    (self.select_prev(), Reaction::Moved)
                } else if crate::command::is_submit(key) {
                    (self, Reaction::Run(self.selected as usize))
                } else {
                    match self.hotkey_item(key) {
                        Some(item) => (self, Reaction::Run(item as usize)),
                        None => (self, Reaction::Leave),
                    }
                },
            }
        }
    }

    /// The lines of the screen: the banner, then the menu and the footer, each
    /// with an empty line in front of it.
    pub open spec fn content(self) -> Seq<LineView> {
        let menu = if self.items.len() > 0 {
            seq![gap()] + menu_content(self.items, self.selected)
        } else {
            Seq::empty()
        };
        let footer = match self.footer {
            Some(text) => seq![gap(), LineView { text, style: LineStyle::Footer }],
            None => Seq::empty(),
        };
        banner_content(self.banner) + menu + footer
    }

    /// How far down the first line stands: the middle of the banner is in the
    /// middle of the area.
    pub open spec fn top(self, inner: Rect) -> int {
        crate::layout::less(inner.height as int / 2, self.banner.len() as int / 2)
    }

    /// How many lines there is room for. The middle row always counts.
    pub open spec fn drawn_lines(self, inner: Rect) -> int {
        let rows = if inner.height == 0 {
            1
        } else {
            inner.height as int
        };
        crate::layout::least(self.content().len() as int, rows - self.top(inner))
    }

    /// A line of the screen is drawn like this: centered on its own.
    pub open spec fn is_drawn(self, drawn: Drawn, inner: Rect, line: int) -> bool {
        let shown = self.content()[line];
        &&& drawn.text@ == shown.text
        &&& drawn.style == shown.style
        &&& drawn.x == crate::layout::centered(inner, shown.text.len() as int).0
        &&& drawn.y == inner.y + self.top(inner) + line
    }
}

/// The first item that a character is the hotkey of is one of the items, has
/// that hotkey, and none before it does.
pub proof fn lemma_item_for(items: Seq<ItemView>, character: char, from: int)
    requires
        0 <= from,
    ensures
        match item_for(items, character, from) {
            Some(found) => {
                &&& from <= found < items.len()
                &&& items[found].hotkey == Some(character)
                &&& forall|i: int|
                    from <= i < found ==> (#[trigger] items[i]).hotkey != Some(character)
            },
            None => forall|i: int|
                from <= i < items.len() ==> (#[trigger] items[i]).hotkey != Some(character),
        },
    decreases items.len() - from,
{
    if from < items.len() && items[from].hotkey != Some(character) {
        lemma_item_for(items, character, from + 1);
    }
}

/// The menu keeps its keys: none of them takes the screen away or reaches the
/// editor. Every other key does both, and changes nothing.
pub proof fn law_menu_keeps_its_keys(view: WelcomeView, key: KeyEvent)
    ensures
        view.takes(key) <==> {
            let reaction = view.handle_event(Event::Key(key), false).1;
            reaction is Moved || reaction is Run
        },
        !view.takes(key) <==> view.handle_event(Event::Key(key), false) == (view, Reaction::Leave),
{
}

/// What is run is an item of the menu, unless the menu is empty: the one under
/// the cursor, or one that the key is the hotkey of.
pub proof fn law_runs_an_item(view: WelcomeView, event: Event, document_open: bool)
    requires
        view.wf(),
        0 < view.items.len() <= usize::MAX,
    ensures
        view.handle_event(event, document_open).1 matches Reaction::Run(item) ==> {
            &&& item < view.items.len()
            &&& item == view.selected || view.items[item as int].hotkey is Some
        },
{
    if let Event::Key(key) = event {
        if let KeyCode::Char(character) = key.code {
            lemma_item_for(view.items, character, 0);
        }
    }
}

/// Moving down and then up, or up and then down, comes back to the same item.
pub proof fn law_menu_moves_cancel(view: WelcomeView)
    requires
        view.wf(),
    ensures
        view.select_next().wf() && view.select_next().select_prev() == view,
        view.select_prev().wf() && view.select_prev().select_next() == view,
{
}

/// Once a document is open the screen retires on whatever happens next, and
/// keeps nothing from the editor; it retires for no other reason.
pub proof fn law_retires_with_a_document(view: WelcomeView, event: Event, document_open: bool)
    ensures
        document_open ==> view.handle_event(event, document_open) == (view, Reaction::Retire),
        view.handle_event(event, document_open).1 is Retire ==> document_open,
{
}

/// The built-in banner stands in the middle of the area, whatever its size and
/// whatever else is on the screen.
pub proof fn law_built_in_banner_in_the_middle(view: WelcomeView, inner: Rect)
    requires
        view.banner == built_in_banner(),
    ensures
        view.drawn_lines(inner) >= 1,
        view.content()[0] == (LineView { text: "welcome"@, style: LineStyle::Banner }),
        crate::layout::centered(inner, "welcome"@.len() as int).1 == inner.y + view.top(inner),
{
}

/// Whether to show the screen. `integration` says that this is a build for
/// integration tests, `terminal` that the standard input is a terminal.
pub fn should_show(args: &Args, integration: bool, terminal: bool) -> (show: bool)
    ensures
        show == is_called_for(*args, integration, terminal),
{
    !integration && args.files.is_empty() && !args.load_tutor && terminal
}

/// The screen to start with, if there is to be one: it must be called for, and
/// the configuration must not turn it off.
pub fn layer(
    args: &Args,
    integration: bool,
    terminal: bool,
    config: &Config,
    version: &str,
    items: Vec<Item>,
) -> (screen: Option<Welcome>)
    ensures
        match screen {
            Some(screen) => {
                &&& is_called_for(*args, integration, terminal) && config@.enable
                &&& screen.wf()
                &&& screen@ == first_shown(config@, version@, items_view(items@))
            },
            None => !(is_called_for(*args, integration, terminal) && config@.enable),
        },
{
    if should_show(args, integration, terminal) && config.enable {
        Some(Welcome::new(config, version, items))
    } else {
        None
    }
}

/// The banner that is shown unless the configuration sets another.
fn built_in() -> (banner: Vec<String>)
    ensures
        crate::config::lines_view(banner@) == built_in_banner(),
{
    let mut banner: Vec<String> = Vec::new();
    banner.push("welcome".to_owned());
    assert(crate::config::lines_view(banner@) =~= built_in_banner());
    banner
}

impl Default for Welcome {
    /// The built-in banner and nothing else.
    fn default() -> (welcome: Self)
        ensures
            welcome.wf(),
            welcome@ == (WelcomeView {
                banner: built_in_banner(),
                items: Seq::empty(),
                footer: None,
                selected: 0,
            }),
    {
        let welcome = Welcome {
            banner: built_in(),
            items: Vec::new(),
            footer: None,
            selected: 0,
        };
        assert(welcome@.items =~= Seq::empty());
        welcome
    }
}

impl Welcome {
    pub const ID: &'static str = "welcome";

    /// The cursor is on an item, if there is one.
    pub open spec fn wf(&self) -> bool {
        self@.wf()
    }

    /// The screen with the banner and the footer that the configuration asks
    /// for, and the cursor on the first item.
    pub fn new(config: &Config, version: &str, items: Vec<Item>) -> (welcome: Self)
        ensures
            welcome.wf(),
            welcome@ == first_shown(config@, version@, items_view(items@)),
    {
        let art = built_in();
        let banner = match config.banner_lines(&art) {
            Some(lines) => {
                let copied = lines.clone();
                assert(crate::config::lines_view(copied@) =~= crate::config::lines_view(lines@));
                copied
            },
            None => {
                let none: Vec<String> = Vec::new();
                assert(crate::config::lines_view(none@) =~= Seq::empty());
                none
            },
        };
        let footer = config.footer_line(version);
        Welcome { banner, items, footer, selected: 0 }
    }

    /// The item under the cursor; 0 in an empty menu.
    pub fn selected(&self) -> (item: usize)
        ensures
            item == self@.selected,
    {
        self.selected
    }

    /// The lines of the screen, from the top.
    fn lines(&self) -> (lines: Vec<(String, LineStyle)>)
        ensures
            lines@.len() == self@.content().len(),
            forall|i: int|
                0 <= i < lines@.len() ==> {
                    &&& (#[trigger] lines@[i]).0@ == self@.content()[i].text
                    &&& lines@[i].1 == self@.content()[i].style
                },
    {
        let mut lines: Vec<(String, LineStyle)> = Vec::new();
        let ghost content = self@.content();
        let mut index: usize = 0;
        while index < self.banner.len()
            invariant
                content == self@.content(),
                index <= self.banner@.len(),
                lines@.len() == index,
                forall|i: int|
                    0 <= i < lines@.len() ==> {
                        &&& (#[trigger] lines@[i]).0@ == content[i].text
                        &&& lines@[i].1 == content[i].style
                    },
            decreases self.banner.len() - index,
        {
            assert(self@.banner[index as int] == self.banner@[index as int]@);
            lines.push((self.banner[index].clone(), LineStyle::Banner));
            index = index + 1;
        }
        if self.items.len() > 0 {
            lines.push((String::new(), LineStyle::Gap));
            let ghost above = self.banner@.len() + 1;
            let mut item: usize = 0;
            while item < self.items.len()
                invariant
                    content == self@.content(),
                    self.items@.len() > 0,
                    item <= self.items@.len(),
                    above == self.banner@.len() + 1,
                    lines@.len() == above + item,
                    forall|i: int|
                        0 <= i < lines@.len() ==> {
                            &&& (#[trigger] lines@[i]).0@ == content[i].text
                            &&& lines@[i].1 == content[i].style
                        },
                decreases self.items.len() - item,
            {
                let style = if item == self.selected {
                    LineStyle::Selected
                } else {
                    LineStyle::Item
                };
                assert(self@.items[item as int] == self.items@[item as int]@);
                lines.push((self.items[item].label.clone(), style));
                item = item + 1;
            }
        }
        if let Some(text) = &self.footer {
            lines.push((String::new(), LineStyle::Gap));
            lines.push((text.clone(), LineStyle::Footer));
        }
        lines
    }

    /// What to draw, or `None` once a document is open: then the screen stops
    /// drawing. The bottom row is left alone, so that the status line still
    /// shows through. A character counts as one cell.
    pub fn render(&self, area: Rect, document_open: bool) -> (drawn: Option<Vec<Drawn>>)
        ensures
            document_open <==> drawn is None,
            match drawn {
                Some(drawn) => {
                    let inner = area.clipped_bottom(1);
                    &&& drawn@.len() == self@.drawn_lines(inner)
                    &&& forall|line: int|
                        0 <= line < drawn@.len() ==> self@.is_drawn(
                            #[trigger] drawn@[line],
                            inner,
                            line,
                        )
                },
                None => true,
            },
    {
        if document_open {
            return None;
        }
        let inner = area.clip_bottom(1);
        let lines = self.lines();
        let middle: u16 = inner.height / 2;
        let half: usize = self.banner.len() / 2;
        let top: u16 = if (middle as usize) < half {
            0
        } else {
            middle - half as u16
        };
        let rows: u16 = if inner.height == 0 {
            1
        } else {
            inner.height
        };
        let room: u16 = rows - top;
        let mut drawn: Vec<Drawn> = Vec::new();
        let mut line: u16 = 0;
        while line < room && (line as usize) < lines.len()
            invariant
                inner == area.clipped_bottom(1),
                lines@.len() == self@.content().len(),
                forall|i: int|
                    0 <= i < lines@.len() ==> {
                        &&& (#[trigger] lines@[i]).0@ == self@.content()[i].text
                        &&& lines@[i].1 == self@.content()[i].style
                    },
                top == self@.top(inner),
                drawn@.len() == line,
                line <= self@.drawn_lines(inner),
                self@.drawn_lines(inner) == crate::layout::least(lines@.len() as int, room as int),
                forall|i: int|
                    0 <= i < drawn@.len() ==> self@.is_drawn(#[trigger] drawn@[i], inner, i),
            ensures
                line == self@.drawn_lines(inner),
            decreases room - line,
        {
            let text = lines[line as usize].0.clone();
            let len: usize = text.as_str().unicode_len();
            let cells: u16 = if len > u16::MAX as usize {
                u16::MAX
            } else {
                len as u16
            };
            let (x, _) = center(inner, cells);
            drawn.push(
                Drawn {
                    x,
                    y: inner.y as u32 + top as u32 + line as u32,
                    text,
                    style: lines[line as usize].1,
                },
            );
            line = line + 1;
        }
        Some(drawn)
    }

    /// The item that a key is the hotkey of.
    fn find_hotkey(&self, key: KeyEvent) -> (item: Option<usize>)
        ensures
            match item {
                Some(item) => self@.hotkey_item(key) == Some(item as int),
                None => self@.hotkey_item(key) is None,
            },
    {
        let character = match (key.modifiers, key.code) {
            (Modifiers::Plain, KeyCode::Char(character)) => character,
            _ => {
                return None;
            },
        };
        let mut item: usize = 0;
        while item < self.items.len()
            invariant
                item <= self.items@.len(),
                self@.hotkey_item(key) == item_for(self@.items, character, item as int),
            decreases self.items.len() - item,
        {
            assert(self@.items[item as int] == self.items@[item as int]@);
            if let Some(hotkey) = self.items[item].hotkey {
                if hotkey == character {
                    return Some(item);
                }
            }
            item = item + 1;
        }
        None
    }

    /// What the screen does with an event: `j`, `k` and the arrows move in the
    /// menu, Enter and the hotkeys run an action, and any other key takes the
    /// screen away and still reaches the editor underneath. Once a document is
    /// open the screen retires.
    pub fn handle_event(&mut self, event: &Event, document_open: bool) -> (reaction: Reaction)
        requires
            old(self).wf(),
        ensures
            final(self).wf(),
            (final(self)@, reaction) == old(self)@.handle_event(*event, document_open),
    {
        if document_open {
            return Reaction::Retire;
        }
        let key = match event {
            Event::Key(key) => *key,
            Event::Other => {
                return Reaction::Stay;
            },
        };
        match (key.modifiers, key.code) {
            (Modifiers::Plain, KeyCode::Char('j')) | (Modifiers::Plain, KeyCode::Down) => {
                self.selected =
                if self.items.len() > 0 && self.selected < self.items.len() - 1 {
                    self.selected + 1
                } else {
                    0
                };
                Reaction::Moved
            },
            (Modifiers::Plain, KeyCode::Char('k')) | (Modifiers::Plain, KeyCode::Up) => {
                self.selected =
                if self.selected > 0 {
                    self.selected - 1
                } else if self.items.len() > 0 {
                    self.items.len() - 1
                } else {
                    0
                };
                Reaction::Moved
            },
            (Modifiers::Plain, KeyCode::Enter) => Reaction::Run(self.selected),
            _ => match self.find_hotkey(key) {
                Some(item) => Reaction::Run(item),
                None => Reaction::Leave,
            },
        }
    }

    /// Answering at all is what suppresses the editor's own cursor, so there is
    /// no answer once a document is open.
    pub fn cursor(&self, document_open: bool) -> (cursor: Option<Cursor>)
        ensures
            cursor == (if document_open {
                None
            } else {
                Some(Cursor::Hidden)
            }),
    {
        if document_open {
            None
        } else {
            Some(Cursor::Hidden)
        }
    }

    pub fn id(&self) -> (id: Option<&'static str>)
        ensures
            id matches Some(id) && id@ == "welcome"@,
    {
        Some(Welcome::ID)
    }
}

} // verus!
