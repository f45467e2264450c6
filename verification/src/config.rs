//! The configuration as it is written down: global settings, the menus with
//! their entries, and what a menu may override.

use vstd::prelude::*;
use crate::entry::{ActionType, ActionView, EntryView, Rules};
use crate::menu::MenuView;
use crate::pattern::{compiles, Pattern};

verus! {

/// What the entries of a menu do when one is activated.
#[derive(Clone, Copy, Debug, PartialEq, Eq, Structural)]
pub enum Action {
    /// Open the entry with the system's default application.
    Open,
    /// Run a command on the entry.
    Command,
}

/// Settings that hold for every menu that does not override them.
#[derive(Debug)]
pub struct Global {
    pub allowed_chars: String,
    pub match_allowed_chars_case: bool,
    pub allowed_regex: String,
    pub match_selection_case: bool,
    pub minimize_keys: bool,
    pub remove_extension: bool,
    pub custom_css: Option<String>,
    pub ignored_files: Vec<String>,
}

/// `Global` as a mathematical value.
pub struct GlobalView {
    pub allowed_chars: Seq<char>,
    pub match_allowed_chars_case: bool,
    pub allowed_regex: Seq<char>,
    pub match_selection_case: bool,
    pub minimize_keys: bool,
    pub remove_extension: bool,
    pub custom_css: Option<Seq<char>>,
    pub ignored_files: Seq<Seq<char>>,
}

impl View for Global {
    type V = GlobalView;

    open spec fn view(&self) -> GlobalView {
        GlobalView {
            allowed_chars: self.allowed_chars@,
            match_allowed_chars_case: self.match_allowed_chars_case,
            allowed_regex: self.allowed_regex@,
            match_selection_case: self.match_selection_case,
            minimize_keys: self.minimize_keys,
            remove_extension: self.remove_extension,
            custom_css: self.custom_css.deep_view(),
            ignored_files: self.ignored_files.deep_view(),
        }
    }
}

/// The settings that one menu sets for itself. An absent field leaves the
/// global value in force; the ignored files are added to the global ones.
#[derive(Debug)]
pub struct GlobalOverrides {
    pub allowed_chars: Option<String>,
    pub match_allowed_chars_case: Option<bool>,
    pub allowed_regex: Option<String>,
    pub match_selection_case: Option<bool>,
    pub minimize_keys: Option<bool>,
    pub remove_extension: Option<bool>,
    pub custom_css: Option<String>,
    pub ignored_files: Vec<String>,
}

/// `GlobalOverrides` as a mathematical value.
pub struct OverridesView {
    pub allowed_chars: Option<Seq<char>>,
    pub match_allowed_chars_case: Option<bool>,
    pub allowed_regex: Option<Seq<char>>,
    pub match_selection_case: Option<bool>,
    pub minimize_keys: Option<bool>,
    pub remove_extension: Option<bool>,
    pub custom_css: Option<Seq<char>>,
    pub ignored_files: Seq<Seq<char>>,
}

impl View for GlobalOverrides {
    type V = OverridesView;

    open spec fn view(&self) -> OverridesView {
        OverridesView {
            allowed_chars: self.allowed_chars.deep_view(),
            match_allowed_chars_case: self.match_allowed_chars_case,
            allowed_regex: self.allowed_regex.deep_view(),
            match_selection_case: self.match_selection_case,
            minimize_keys: self.minimize_keys,
            remove_extension: self.remove_extension,
            custom_css: self.custom_css.deep_view(),
            ignored_files: self.ignored_files.deep_view(),
        }
    }
}

impl DeepView for GlobalOverrides {
    type V = OverridesView;

    open spec fn deep_view(&self) -> OverridesView {
        self@
    }
}

/// The pattern that selection letters must match where nothing else is
/// configured.
pub fn default_allowed_regex() -> (pattern: String)
    ensures
        pattern@ == "[A-z0-9]"@,
{
    "[A-z0-9]".to_owned()
}

/// The file names that never become entries where nothing else is configured.
pub fn default_ignored_files() -> (files: Vec<String>)
    ensures
        files.deep_view() == seq![".DS_Store"@, "thumbs.db"@, "desktop.ini"@],
{
    let mut files: Vec<String> = Vec::new();
    files.push(".DS_Store".to_owned());
    files.push("thumbs.db".to_owned());
    files.push("desktop.ini".to_owned());
    assert(files.deep_view() =~= seq![".DS_Store"@, "thumbs.db"@, "desktop.ini"@]);
    files
}

impl Default for Global {
    fn default() -> (global: Self)
        ensures
            global@ == (GlobalView {
                allowed_chars: Seq::empty(),
                match_allowed_chars_case: false,
                allowed_regex: "[A-z0-9]"@,
                match_selection_case: false,
                minimize_keys: false,
                remove_extension: false,
                custom_css: None,
                ignored_files: seq![".DS_Store"@, "thumbs.db"@, "desktop.ini"@],
            }),
    {
        Global {
            allowed_chars: String::new(),
            match_allowed_chars_case: false,
            allowed_regex: default_allowed_regex(),
            match_selection_case: false,
            minimize_keys: false,
            remove_extension: false,
            custom_css: None,
            ignored_files: default_ignored_files(),
        }
    }
}

impl GlobalView {
    /// The settings of one menu: each overriding value that is present
    /// replaces the global one, a style sheet of the menu's own comes before
    /// the global one, and the menu's ignored files follow the global ones.
    pub open spec fn with_overrides(self, overrides: Option<OverridesView>) -> GlobalView {
        match overrides {
            Some(own) => GlobalView {
                allowed_chars: match own.allowed_chars {
                    Some(chars) => chars,
                    None => self.allowed_chars,
                },
                match_allowed_chars_case: match own.match_allowed_chars_case {
                    Some(flag) => flag,
                    None => self.match_allowed_chars_case,
                },
                allowed_regex: match own.allowed_regex {
                    Some(pattern) => pattern,
                    None => self.allowed_regex,
                },
                match_selection_case: match own.match_selection_case {
                    Some(flag) => flag,
                    None => self.match_selection_case,
                },
                minimize_keys: match own.minimize_keys {
                    Some(flag) => flag,
                    None => self.minimize_keys,
                },
                remove_extension: match own.remove_extension {
                    Some(flag) => flag,
                    None => self.remove_extension,
                },
                custom_css: match own.custom_css {
                    Some(css) => Some(css),
                    None => self.custom_css,
                },
                ignored_files: self.ignored_files + own.ignored_files,
            },
            None => self,
        }
    }
}

/// A copy of an optional text.
pub fn copy_text(text: &Option<String>) -> (copy: Option<String>)
    ensures
        copy.deep_view() == text.deep_view(),
{
    match text {
        Some(text) => Some(text.clone()),
        None => None,
    }
}

/// Appends copies of `more` to `texts`.
pub fn append_texts(texts: &mut Vec<String>, more: &Vec<String>)
    ensures
        final(texts).deep_view() == old(texts).deep_view() + more.deep_view(),
{
    let n = more.len();
    let mut i: usize = 0;
    assert(texts.deep_view() =~= old(texts).deep_view() + more.deep_view().take(0));
    while i < n
        invariant
            i <= n,
            n == more@.len(),
            texts.deep_view() == old(texts).deep_view() + more.deep_view().take(i as int),
        decreases n - i,
    {
        let ghost before = texts.deep_view();
        texts.push(more[i].clone());
        assert(texts.deep_view() =~= before.push(more@[i as int]@));
        assert(more.deep_view().take(i + 1) =~= more.deep_view().take(i as int).push(
            more@[i as int]@,
        ));
        i += 1;
    }
    assert(more.deep_view().take(n as int) =~= more.deep_view());
}

impl Global {
    /// The settings of one menu: these, with what the menu overrides.
    pub fn with_overrides(&self, overrides: &Option<GlobalOverrides>) -> (settings: Global)
        ensures
            settings@ == self@.with_overrides(overrides.deep_view()),
    {
        let mut ignored_files: Vec<String> = Vec::new();
        assert(ignored_files.deep_view() =~= Seq::empty());
        append_texts(&mut ignored_files, &self.ignored_files);
        assert(ignored_files.deep_view() =~= self.ignored_files.deep_view());
        match overrides {
            Some(own) => {
                append_texts(&mut ignored_files, &own.ignored_files);
                Global {
                    allowed_chars: match &own.allowed_chars {
                        Some(chars) => chars.clone(),
                        None => self.allowed_chars.clone(),
                    },
                    match_allowed_chars_case: match own.match_allowed_chars_case {
                        Some(flag) => flag,
                        None => self.match_allowed_chars_case,
                    },
                    allowed_regex: match &own.allowed_regex {
                        Some(pattern) => pattern.clone(),
                        None => self.allowed_regex.clone(),
                    },
                    match_selection_case: match own.match_selection_case {
                        Some(flag) => flag,
                        None => self.match_selection_case,
                    },
                    minimize_keys: match own.minimize_keys {
                        Some(flag) => flag,
                        None => self.minimize_keys,
                    },
                    remove_extension: match own.remove_extension {
                        Some(flag) => flag,
                        None => self.remove_extension,
                    },
                    custom_css: match &own.custom_css {
                        Some(css) => Some(css.clone()),
                        None => copy_text(&self.custom_css),
                    },
                    ignored_files,
                }
            },
            None => Global {
                allowed_chars: self.allowed_chars.clone(),
                match_allowed_chars_case: self.match_allowed_chars_case,
                allowed_regex: self.allowed_regex.clone(),
                match_selection_case: self.match_selection_case,
                minimize_keys: self.minimize_keys,
                remove_extension: self.remove_extension,
                custom_css: copy_text(&self.custom_css),
                ignored_files,
            },
        }
    }
}

/// An entry that a menu always offers, as it is written in the configuration.
#[derive(Debug)]
pub enum Entry {
    /// A value that is treated as the menu's action says.
    Simple(String),
    /// A value with a command of its own.
    WithCommand { value: String, command: String },
}

/// A configured entry as a mathematical value.
pub enum ConfigEntryView {
    Simple(Seq<char>),
    WithCommand { value: Seq<char>, command: Seq<char> },
}

impl View for Entry {
    type V = ConfigEntryView;

    open spec fn view(&self) -> ConfigEntryView {
        match self {
            Entry::Simple(value) => ConfigEntryView::Simple(value@),
            Entry::WithCommand { value, command } => ConfigEntryView::WithCommand {
                value: value@,
                command: command@,
            },
        }
    }
}

impl DeepView for Entry {
    type V = ConfigEntryView;

    open spec fn deep_view(&self) -> ConfigEntryView {
        self@
    }
}

impl ConfigEntryView {
    /// The menu entry that a configured entry becomes in a menu with this
    /// action and command. A plain value opens, or runs the menu's command;
    /// a value with a command of its own runs that. There is no entry where
    /// a command is called for and the menu has none, nor where the entry has
    /// a command and the menu opens.
    pub open spec fn entry(self, action: Action, command: Option<Seq<char>>) -> Option<
        EntryView,
    > {
        match self {
            ConfigEntryView::Simple(value) => match action {
                Action::Open => Some(EntryView::fresh(value, value, ActionView::Open)),
                Action::Command => match command {
                    Some(template) => Some(EntryView::fresh(value, value, ActionView::Command(template))),
                    None => None,
                },
            },
            ConfigEntryView::WithCommand { value, command: own } => match action {
                Action::Open => None,
                Action::Command => Some(EntryView::fresh(value, value, ActionView::Command(own))),
            },
        }
    }
}

/// `ConfigEntryView::entry` as a function of the configured entry.
pub open spec fn entry_in(action: Action, command: Option<Seq<char>>) -> spec_fn(
    ConfigEntryView,
) -> Option<EntryView> {
    |entry: ConfigEntryView| entry.entry(action, command)
}

impl Entry {
    /// The menu entry that this becomes in a menu with this action and
    /// command, if any.
    pub fn entry(&self, action: Action, command: &Option<String>) -> (entry: Option<
        crate::entry::Entry,
    >)
        ensures
            entry.deep_view() == self@.entry(action, command.deep_view()),
    {
        match self {
            Entry::Simple(value) => match action {
                Action::Open => Some(
                    crate::entry::Entry::new(value.clone(), value.clone(), ActionType::Open),
                ),
                Action::Command => match command {
                    Some(template) => Some(
                        crate::entry::Entry::new(
                            value.clone(),
                            value.clone(),
                            ActionType::Command(template.clone()),
                        ),
                    ),
                    None => None,
                },
            },
            Entry::WithCommand { value, command: own } => match action {
                Action::Open => None,
                Action::Command => Some(
                    crate::entry::Entry::new(
                        value.clone(),
                        value.clone(),
                        ActionType::Command(own.clone()),
                    ),
                ),
            },
        }
    }
}

/// A menu as it is written in the configuration.
#[derive(Debug)]
pub struct Menu {
    pub hotkey: String,
    pub action: Action,
    pub directory: Option<String>,
    pub entries: Option<Vec<Entry>>,
    pub command: Option<String>,
    pub global_overrides: Option<GlobalOverrides>,
}

/// A configured menu as a mathematical value.
pub struct ConfigMenuView {
    pub hotkey: Seq<char>,
    pub action: Action,
    pub directory: Option<Seq<char>>,
    pub entries: Option<Seq<ConfigEntryView>>,
    pub command: Option<Seq<char>>,
    pub global_overrides: Option<OverridesView>,
}

impl View for Menu {
    type V = ConfigMenuView;

    open spec fn view(&self) -> ConfigMenuView {
        ConfigMenuView {
            hotkey: self.hotkey@,
            action: self.action,
            directory: self.directory.deep_view(),
            entries: self.entries.deep_view(),
            command: self.command.deep_view(),
            global_overrides: self.global_overrides.deep_view(),
        }
    }
}

impl DeepView for Menu {
    type V = ConfigMenuView;

    open spec fn deep_view(&self) -> ConfigMenuView {
        self@
    }
}

impl ConfigMenuView {
    /// The entries that the menu always offers: those of the configured ones
    /// that become entries, in their order.
    pub open spec fn static_entries(self) -> Seq<EntryView> {
        match self.entries {
            Some(entries) => entries.filter_map(entry_in(self.action, self.command)),
            None => Seq::empty(),
        }
    }
}

impl Menu {
    /// The entries that the menu always offers.
    pub fn static_entries(&self) -> (entries: Vec<crate::entry::Entry>)
        ensures
            entries.deep_view() == self@.static_entries(),
    {
        let mut entries: Vec<crate::entry::Entry> = Vec::new();
        assert(entries.deep_view() =~= Seq::empty());
        match &self.entries {
            Some(configured) => {
                let ghost source = configured.deep_view();
                let ghost convert = entry_in(self.action, self.command.deep_view());
                let n = configured.len();
                let mut i: usize = 0;
                assert(source.take(0) =~= Seq::empty());
                while i < n
                    invariant
                        i <= n,
                        n == configured@.len(),
                        source == configured.deep_view(),
                        convert == entry_in(self.action, self.command.deep_view()),
                        entries.deep_view() == source.take(i as int).filter_map(convert),
                    decreases n - i,
                {
                    let ghost before = entries.deep_view();
                    assert(source.take(i + 1).drop_last() =~= source.take(i as int));
                    match configured[i].entry(self.action, &self.command) {
                        Some(entry) => {
                            entries.push(entry);
                            assert(entries.deep_view() =~= before + seq![entry@]);
                        },
                        None => {},
                    }
                    i += 1;
                }
                assert(source.take(n as int) =~= source);
            },
            None => {},
        }
        entries
    }
}

impl ConfigMenuView {
    /// The menu that the configured one stands for under the global
    /// settings. The pattern of its settings is compiled, an empty one
    /// standing for no pattern; where it does not compile there is no menu.
    pub open spec fn menu(self, global: GlobalView) -> Option<MenuView> {
        let settings = global.with_overrides(self.global_overrides);
        let pattern = if settings.allowed_regex.len() == 0 {
            None
        } else {
            Some(settings.allowed_regex)
        };
        if settings.allowed_regex.len() > 0 && !compiles(settings.allowed_regex) {
            None
        } else {
            Some(
                MenuView {
                    hotkey: self.hotkey,
                    current_entries: Seq::empty(),
                    entries: self.static_entries(),
                    action: self.action,
                    directory: self.directory,
                    rules: Rules {
                        allowed_chars: settings.allowed_chars,
                        match_allowed_case: settings.match_allowed_chars_case,
                        pattern,
                        match_selection_case: settings.match_selection_case,
                    },
                    minimize_keys: settings.minimize_keys,
                    remove_extension: settings.remove_extension,
                    command: self.command,
                    custom_css: settings.custom_css,
                    ignored_files: settings.ignored_files,
                },
            )
        }
    }
}

/// `ConfigMenuView::menu` as a function of the configured menu.
pub open spec fn menu_under(global: GlobalView) -> spec_fn(ConfigMenuView) -> Option<MenuView> {
    |menu: ConfigMenuView| menu.menu(global)
}

impl Menu {
    /// The menu that this stands for under the global settings, closed; none
    /// where the pattern of its settings does not compile.
    pub fn menu(&self, global: &Global) -> (menu: Option<crate::menu::Menu>)
        ensures
            menu.deep_view() == self@.menu(global@),
    {
        let settings = global.with_overrides(&self.global_overrides);
        let pattern = if settings.allowed_regex.as_str().is_empty() {
            None
        } else {
            match Pattern::new(settings.allowed_regex.as_str()) {
                Some(pattern) => Some(pattern),
                None => {
                    return None;
                },
            }
        };
        Some(
            crate::menu::Menu::new(
                self.hotkey.clone(),
                self.static_entries(),
                self.action,
                copy_text(&self.directory),
                settings.allowed_chars,
                settings.match_allowed_chars_case,
                pattern,
                settings.match_selection_case,
                settings.minimize_keys,
                settings.remove_extension,
                copy_text(&self.command),
                settings.custom_css,
                settings.ignored_files,
            ),
        )
    }
}

/// A whole configuration.
#[derive(Debug)]
pub struct Config {
    pub global: Global,
    pub menus: Vec<Menu>,
}

/// A configuration as a mathematical value.
pub struct ConfigView {
    pub global: GlobalView,
    pub menus: Seq<ConfigMenuView>,
}

impl View for Config {
    type V = ConfigView;

    open spec fn view(&self) -> ConfigView {
        ConfigView { global: self.global@, menus: self.menus.deep_view() }
    }
}

/// The menus of a configuration, in its order: one for each configured menu
/// whose pattern compiles.
pub fn generate_menus(config: &Config) -> (menus: Vec<crate::menu::Menu>)
    ensures
        menus.deep_view() == config@.menus.filter_map(menu_under(config@.global)),
{
    let ghost source = config@.menus;
    let ghost build = menu_under(config@.global);
    let mut menus: Vec<crate::menu::Menu> = Vec::new();
    let n = config.menus.len();
    let mut i: usize = 0;
    assert(menus.deep_view() =~= Seq::empty());
    assert(source.take(0) =~= Seq::empty());
    while i < n
        invariant
            i <= n,
            n == config.menus@.len(),
            source == config@.menus,
            build == menu_under(config@.global),
            menus.deep_view() == source.take(i as int).filter_map(build),
        decreases n - i,
    {
        let ghost before = menus.deep_view();
        assert(source.take(i + 1).drop_last() =~= source.take(i as int));
        match config.menus[i].menu(&config.global) {
            Some(menu) => {
                menus.push(menu);
                assert(menus.deep_view() =~= before + seq![menu@]);
            },
            None => {},
        }
        i += 1;
    }
    assert(source.take(n as int) =~= source);
    menus
}

} // verus!
