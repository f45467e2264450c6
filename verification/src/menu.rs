//! An open menu: the entries that can still be chosen, and the keystrokes
//! that narrow them down.

use vstd::prelude::*;
use crate::assignment::{
    assign, assign_all, exhausted, lemma_pass_keeps_subjects, resolve, resolve_letters, Settings,
};
use crate::config::Action;
use crate::entry::{
    dispatch_of, ActionType, ActionView, Dispatch, DispatchView, Entry, EntryView, Rules,
};
use crate::letters::{is_same_letter, same_letter};
use crate::pattern::Pattern;

verus! {

/// A menu with its settings, the entries it always offers, and the entries
/// that are on display while it is open.
pub struct Menu {
    hotkey: String,
    current_entries: Vec<Entry>,
    entries: Vec<Entry>,
    action: Action,
    directory: Option<String>,
    settings: Settings,
    remove_extension: bool,
    command: Option<String>,
    custom_css: Option<String>,
    ignored_files: Vec<String>,
}

/// A menu as a mathematical value.
pub struct MenuView {
    /// The key combination that opens the menu, as it was configured.
    pub hotkey: Seq<char>,
    /// The entries on display, in display order.
    pub current_entries: Seq<EntryView>,
    /// The entries that the menu offers whenever it is opened.
    pub entries: Seq<EntryView>,
    /// What the entries that come from the directory do.
    pub action: Action,
    /// The directory whose content the menu lists, if any.
    pub directory: Option<Seq<char>>,
    /// Which characters may become selection letters.
    pub rules: Rules,
    /// Whether assignment avoids letters that tell no two entries apart.
    pub minimize_keys: bool,
    /// Whether files are shown without their extension.
    pub remove_extension: bool,
    /// The command template for the entries that come from the directory.
    pub command: Option<Seq<char>>,
    /// A style sheet for the display.
    pub custom_css: Option<Seq<char>>,
    /// The file names that never become entries.
    pub ignored_files: Seq<Seq<char>>,
}

/// What a keystroke did to an open menu.
pub enum FilterOutcome {
    /// No entry has the typed letter: nothing changed.
    Ignored,
    /// Several entries have the typed letter: they are the entries now, with
    /// new letters.
    Updated,
    /// One entry has the typed letter: the menu is closed, and the caller is
    /// to perform this.
    Activated(Dispatch),
}

/// A `FilterOutcome` as a mathematical value.
pub enum OutcomeView {
    Ignored,
    Updated,
    Activated(DispatchView),
}

impl View for FilterOutcome {
    type V = OutcomeView;

    open spec fn view(&self) -> OutcomeView {
        match self {
            FilterOutcome::Ignored => OutcomeView::Ignored,
            FilterOutcome::Updated => OutcomeView::Updated,
            FilterOutcome::Activated(dispatch) => OutcomeView::Activated(dispatch@),
        }
    }
}

/// Whether typing `key` selects the entry.
pub open spec fn selects(key: char, entry: EntryView, match_case: bool) -> bool {
    match entry.selection_letter {
        Some(letter) => same_letter(letter, key, match_case),
        None => false,
    }
}

/// `selects` as a predicate on entries.
pub open spec fn selected_by(key: char, match_case: bool) -> spec_fn(EntryView) -> bool {
    |entry: EntryView| selects(key, entry, match_case)
}

/// Every entry moved on behind its letter.
pub open spec fn advance_all(entries: Seq<EntryView>) -> Seq<EntryView> {
    Seq::new(entries.len(), |i: int| entries[i].advance())
}

/// One item of a directory, as it was read: its file name, whether it is a
/// directory itself, and its full path.
pub struct DirRecord {
    pub name: String,
    pub is_dir: bool,
    pub path: String,
}

/// A `DirRecord` as a mathematical value.
pub struct RecordView {
    pub name: Seq<char>,
    pub is_dir: bool,
    pub path: Seq<char>,
}

impl View for DirRecord {
    type V = RecordView;

    open spec fn view(&self) -> RecordView {
        RecordView { name: self.name@, is_dir: self.is_dir, path: self.path@ }
    }
}

impl DeepView for DirRecord {
    type V = RecordView;

    open spec fn deep_view(&self) -> RecordView {
        self@
    }
}

impl RecordView {
    /// The name under which the item is listed: a directory's ends in `/`.
    pub open spec fn listed_name(self) -> Seq<char> {
        if self.is_dir {
            self.name.push('/')
        } else {
            self.name
        }
    }
}

/// Calls `Path::file_stem` on a file name and hands the stem back where it is
/// text. What part of a path is its file name is the operating system's
/// convention, so nothing is stated of the result.
#[verifier::external_body]
fn file_stem(name: &str) -> (stem: Option<String>) {
    let stem = std::path::Path::new(name).file_stem()?;
    Some(stem.to_str()?.to_owned())
}

impl MenuView {
    /// Whether the item is shown by its stem: a file, in a menu that removes
    /// extensions.
    pub open spec fn strips(self, record: RecordView) -> bool {
        !record.is_dir && self.remove_extension
    }

    /// The entry that an item of the directory becomes, given the stem of its
    /// name. There is none for an ignored name, nor where the menu runs a
    /// command and has none. The label is the listed name, or the stem where
    /// the menu removes extensions and the name has one; the payload is the
    /// path.
    pub open spec fn candidate(self, record: RecordView, stem: Option<Seq<char>>) -> Option<
        EntryView,
    > {
        let name = record.listed_name();
        let label = match stem {
            Some(stem) if self.strips(record) => stem,
            _ => name,
        };
        if self.ignored_files.contains(name) {
            None
        } else {
            match self.action {
                Action::Open => Some(EntryView::fresh(label, record.path, ActionView::Open)),
                Action::Command => match self.command {
                    Some(template) => Some(
                        EntryView::fresh(label, record.path, ActionView::Command(template)),
                    ),
                    None => None,
                },
            }
        }
    }

    /// The entries that a directory listing becomes, in its order. A menu
    /// without a directory takes none.
    pub open spec fn candidates(
        self,
        listing: Seq<RecordView>,
        stems: Seq<Option<Seq<char>>>,
    ) -> Seq<EntryView>
        decreases listing.len(),
    {
        if listing.len() == 0 || self.directory is None {
            Seq::empty()
        } else {
            let rest = self.candidates(listing.drop_last(), stems.drop_last());
            match self.candidate(listing.last(), stems.last()) {
                Some(entry) => rest.push(entry),
                None => rest,
            }
        }
    }

    /// The menu as it is opened on a directory listing: the entries from the
    /// directory, then the entries that it always offers, with letters
    /// assigned.
    pub open spec fn opened(
        self,
        listing: Seq<RecordView>,
        stems: Seq<Option<Seq<char>>>,
    ) -> MenuView {
        MenuView {
            current_entries: self.assigned(self.candidates(listing, stems) + self.entries),
            ..self
        }
    }

    /// Whether `after` is this menu opened on the listing, for some stems of
    /// the names of those items that are shown by their stem.
    pub open spec fn opens_to(self, listing: Seq<RecordView>, after: MenuView) -> bool {
        exists|stems: Seq<Option<Seq<char>>>|
            {
                &&& stems.len() == listing.len()
                &&& forall|i: int|
                    0 <= i < stems.len() && !self.strips(listing[i]) ==> #[trigger] stems[i]
                        is None
                &&& after == #[trigger] self.opened(listing, stems)
            }
    }

    /// The entries with their selection letters assigned as the settings ask.
    pub open spec fn assigned(self, entries: Seq<EntryView>) -> Seq<EntryView> {
        if self.minimize_keys {
            resolve(entries, self.rules)
        } else {
            assign_all(entries, self.rules, Seq::empty())
        }
    }

    /// The entries on display that typing `key` selects, in display order.
    pub open spec fn survivors(self, key: char) -> Seq<EntryView> {
        self.current_entries.filter(selected_by(key, self.rules.match_selection_case))
    }

    /// The menu after the keystroke `key`, and what the keystroke did.
    pub open spec fn filter(self, key: char) -> (MenuView, OutcomeView) {
        let kept = self.survivors(key);
        if kept.len() == 0 {
            (self, OutcomeView::Ignored)
        } else if kept.len() == 1 {
            (
                MenuView { current_entries: Seq::empty(), ..self },
                OutcomeView::Activated(dispatch_of(kept[0].action, kept[0].payload)),
            )
        } else {
            (
                MenuView { current_entries: self.assigned(advance_all(kept)), ..self },
                OutcomeView::Updated,
            )
        }
    }
}

impl DeepView for Menu {
    type V = MenuView;

    open spec fn deep_view(&self) -> MenuView {
        self@
    }
}

impl View for Menu {
    type V = MenuView;

    closed spec fn view(&self) -> MenuView {
        MenuView {
            hotkey: self.hotkey@,
            current_entries: self.current_entries.deep_view(),
            entries: self.entries.deep_view(),
            action: self.action,
            directory: self.directory.deep_view(),
            rules: self.settings.rules(),
            minimize_keys: self.settings.minimize_keys,
            remove_extension: self.remove_extension,
            command: self.command.deep_view(),
            custom_css: self.custom_css.deep_view(),
            ignored_files: self.ignored_files.deep_view(),
        }
    }
}

impl Menu {
    /// A closed menu: nothing on display yet.
    pub fn new(
        hotkey: String,
        entries: Vec<Entry>,
        action: Action,
        directory: Option<String>,
        allowed_chars: String,
        match_allowed_chars_case: bool,
        allowed_regex: Option<Pattern>,
        match_selection_case: bool,
        minimize_keys: bool,
        remove_extension: bool,
        command: Option<String>,
        custom_css: Option<String>,
        ignored_files: Vec<String>,
    ) -> (menu: Self)
        ensures
            menu@ == (MenuView {
                hotkey: hotkey@,
                current_entries: Seq::empty(),
                entries: entries.deep_view(),
                action,
                directory: directory.deep_view(),
                rules: Rules {
                    allowed_chars: allowed_chars@,
                    match_allowed_case: match_allowed_chars_case,
                    pattern: allowed_regex.deep_view(),
                    match_selection_case,
                },
                minimize_keys,
                remove_extension,
                command: command.deep_view(),
                custom_css: custom_css.deep_view(),
                ignored_files: ignored_files.deep_view(),
            }),
    {
        let menu = Menu {
            hotkey,
            entries,
            action,
            directory,
            settings: Settings {
                allowed_chars,
                match_allowed_chars_case,
                allowed_regex,
                match_selection_case,
                minimize_keys,
            },
            remove_extension,
            current_entries: Vec::new(),
            command,
            custom_css,
            ignored_files,
        };
        assert(menu.current_entries.deep_view() =~= Seq::empty());
        menu
    }

    /// The key combination that opens the menu, as it was configured.
    pub fn hotkey(&self) -> (hotkey: &str)
        ensures
            hotkey@ == self@.hotkey,
    {
        self.hotkey.as_str()
    }

    /// The entries on display, in display order.
    pub fn current_entries(&self) -> (entries: &Vec<Entry>)
        ensures
            entries.deep_view() == self@.current_entries,
    {
        &self.current_entries
    }

    /// The directory whose content the menu lists, if any.
    pub fn directory(&self) -> (directory: &Option<String>)
        ensures
            directory.deep_view() == self@.directory,
    {
        &self.directory
    }

    /// The style sheet for the display, if any.
    pub fn custom_css(&self) -> (css: &Option<String>)
        ensures
            css.deep_view() == self@.custom_css,
    {
        &self.custom_css
    }

    /// Takes the menu off display: no entries are left to choose from.
    pub fn close(&mut self)
        ensures
            final(self)@ == (MenuView { current_entries: Seq::empty(), ..old(self)@ }),
    {
        self.current_entries = Vec::new();
        assert(self.current_entries.deep_view() =~= Seq::empty());
    }

    /// Assigns the entries on display their selection letters: by minimize-keys
    /// resolution where the settings ask for it, else each entry on its own.
    pub fn find_entry_selections(&mut self)
        ensures
            final(self)@ == (MenuView {
                current_entries: old(self)@.assigned(old(self)@.current_entries),
                ..old(self)@
            }),
    {
        if self.settings.minimize_keys {
            resolve_letters(&mut self.current_entries, &self.settings);
        } else {
            assign(&mut self.current_entries, &self.settings, "");
            proof {
                reveal_strlit("");
                assert(""@ =~= Seq::<char>::empty());
            }
        }
    }

    /// Whether `name` is one of the ignored file names.
    fn is_ignored(&self, name: &String) -> (ignored: bool)
        ensures
            ignored == self@.ignored_files.contains(name@),
    {
        let ghost names = self.ignored_files.deep_view();
        let n = self.ignored_files.len();
        let mut i: usize = 0;
        while i < n
            invariant
                i <= n,
                n == self.ignored_files@.len(),
                names == self.ignored_files.deep_view(),
                forall|j: int| 0 <= j < i ==> names[j] != name@,
            decreases n - i,
        {
            if self.ignored_files[i] == *name {
                assert(names[i as int] == name@);
                return true;
            }
            i += 1;
        }
        false
    }

    /// The entry that an item of the menu's directory becomes, if any, given
    /// the stem of its name.
    pub fn candidate(&self, record: &DirRecord, stem: Option<String>) -> (entry: Option<Entry>)
        ensures
            entry.deep_view() == self@.candidate(record@, stem.deep_view()),
    {
        let mut name = record.name.clone();
        if record.is_dir {
            name.push('/');
        }
        if self.is_ignored(&name) {
            return None;
        }
        let action = match self.action {
            Action::Open => ActionType::Open,
            Action::Command => match &self.command {
                Some(template) => ActionType::Command(template.clone()),
                None => {
                    return None;
                },
            },
        };
        let label = match stem {
            Some(stem) if !record.is_dir && self.remove_extension => stem,
            _ => name,
        };
        Some(Entry::new(label, record.path.clone(), action))
    }

    /// Opens the menu on a listing of its directory: the entries on display
    /// are those that the listing yields, followed by the entries that the
    /// menu always offers, all with their letters assigned. Where a file is
    /// shown without its extension, its stem is what `Path::file_stem` makes
    /// of its name.
    pub fn get_entries(&mut self, listing: &Vec<DirRecord>)
        ensures
            old(self)@.opens_to(listing.deep_view(), final(self)@),
    {
        let ghost menu = self@;
        let ghost records = listing.deep_view();
        let ghost mut stems: Seq<Option<Seq<char>>> = Seq::empty();
        let mut shown: Vec<Entry> = Vec::new();
        assert(shown.deep_view() =~= Seq::empty());
        if self.directory.is_some() {
            let n = listing.len();
            let mut i: usize = 0;
            assert(records.take(0) =~= Seq::empty());
            while i < n
                invariant
                    i <= n,
                    n == listing@.len(),
                    records == listing.deep_view(),
                    menu == self@,
                    menu.directory is Some,
                    stems.len() == i,
                    forall|j: int|
                        0 <= j < i && !menu.strips(records[j]) ==> #[trigger] stems[j] is None,
                    shown.deep_view() == menu.candidates(records.take(i as int), stems),
                decreases n - i,
            {
                let ghost before = shown.deep_view();
                let stem = if !listing[i].is_dir && self.remove_extension {
                    file_stem(listing[i].name.as_str())
                } else {
                    None
                };
                proof {
                    assert(records.take(i + 1).drop_last() =~= records.take(i as int));
                    assert(stems.push(stem.deep_view()).drop_last() =~= stems);
                    stems = stems.push(stem.deep_view());
                }
                match self.candidate(&listing[i], stem) {
                    Some(entry) => {
                        shown.push(entry);
                        assert(shown.deep_view() =~= before.push(entry@));
                    },
                    None => {},
                }
                i += 1;
            }
            assert(records.take(n as int) =~= records);
        } else {
            proof {
                stems = Seq::new(listing@.len(), |i: int| None);
            }
        }
        let ghost found = shown.deep_view();
        let m = self.entries.len();
        let mut k: usize = 0;
        assert(self.entries.deep_view().take(0) =~= Seq::empty());
        assert(found + Seq::<EntryView>::empty() =~= found);
        while k < m
            invariant
                k <= m,
                m == self.entries@.len(),
                menu == self@,
                shown.deep_view() == found + self.entries.deep_view().take(k as int),
            decreases m - k,
        {
            let ghost before = shown.deep_view();
            let entry = self.entries[k].clone();
            shown.push(entry);
            assert(shown.deep_view() =~= before.push(self.entries@[k as int]@));
            assert(self.entries.deep_view().take(k + 1) =~= self.entries.deep_view().take(
                k as int,
            ).push(self.entries@[k as int]@));
            k += 1;
        }
        assert(self.entries.deep_view().take(m as int) =~= self.entries.deep_view());
        self.current_entries = shown;
        self.find_entry_selections();
        assert(self@ == menu.opened(records, stems));
    }

    /// Whether typing `key` selects some entry on display.
    fn has_match(&self, key: char) -> (found: bool)
        ensures
            found == (self@.survivors(key).len() > 0),
    {
        let ghost shown = self.current_entries.deep_view();
        let ghost typed = selected_by(key, self.settings.match_selection_case);
        let n = self.current_entries.len();
        let mut i: usize = 0;
        proof {
            reveal(Seq::filter);
            assert(shown.take(0) =~= Seq::empty());
        }
        while i < n
            invariant
                i <= n,
                n == self.current_entries@.len(),
                shown == self.current_entries.deep_view(),
                typed == selected_by(key, self.settings.match_selection_case),
                shown.take(i as int).filter(typed).len() == 0,
            decreases n - i,
        {
            let hit = match self.current_entries[i].selection_letter() {
                Some(letter) => is_same_letter(letter, key, self.settings.match_selection_case),
                None => false,
            };
            proof {
                assert(hit == typed(shown[i as int]));
                lemma_filter_take(shown, typed, i as int);
            }
            if hit {
                proof {
                    lemma_filter_grows(shown, typed, i as int + 1);
                }
                return true;
            }
            i += 1;
        }
        assert(shown.take(n as int) =~= shown);
        false
    }

    /// Handles one keystroke. Where no entry on display has the typed letter,
    /// nothing changes. Where one has it, the menu is closed and the entry's
    /// action is handed back for the caller to perform. Where several have
    /// it, these stay on display, each with its cursor behind the typed
    /// letter, and get new letters.
    pub fn filter(&mut self, in_letter: char) -> (outcome: FilterOutcome)
        ensures
            (final(self)@, outcome@) == old(self)@.filter(in_letter),
            outcome is Ignored ==> final(self)@ == old(self)@,
            outcome is Updated ==> forall|i: int|
                0 <= i < old(self)@.survivors(in_letter).len() ==> (
                #[trigger] final(self)@.current_entries[i]).scan_cursor > old(self)@.survivors(
                    in_letter,
                )[i].scan_cursor,
    {
        if !self.has_match(in_letter) {
            return FilterOutcome::Ignored;
        }
        let ghost shown = self.current_entries.deep_view();
        let ghost typed = selected_by(in_letter, self.settings.match_selection_case);
        let mut all: Vec<Entry> = Vec::new();
        core::mem::swap(&mut all, &mut self.current_entries);
        let ghost items = all@;
        let mut kept: Vec<Entry> = Vec::new();
        proof {
            reveal(Seq::filter);
            assert(shown.take(0) =~= Seq::empty());
            assert(kept.deep_view() =~= Seq::empty());
        }
        for entry in it: all
            invariant
                it.seq() == items,
                items.len() == shown.len(),
                forall|j: int| 0 <= j < items.len() ==> (#[trigger] items[j])@ == shown[j],
                typed == selected_by(in_letter, self.settings.match_selection_case),
                kept.deep_view() == shown.take(it.index() as int).filter(typed),
        {
            let ghost k = it.index() as int;
            let ghost before = kept.deep_view();
            let hit = match entry.selection_letter() {
                Some(letter) => is_same_letter(
                    letter,
                    in_letter,
                    self.settings.match_selection_case,
                ),
                None => false,
            };
            proof {
                assert(entry@ == shown[k]);
                assert(hit == typed(shown[k]));
                lemma_filter_take(shown, typed, k);
            }
            if hit {
                kept.push(entry);
                assert(kept.deep_view() =~= before.push(shown[k]));
            }
        }
        assert(shown.take(shown.len() as int) =~= shown);
        if kept.len() == 1 {
            let dispatch = kept[0].action().activate(kept[0].full_string());
            assert(self.current_entries.deep_view() =~= Seq::empty());
            return FilterOutcome::Activated(dispatch);
        }
        let ghost survivors = kept.deep_view();
        proof {
            assert forall|j: int| 0 <= j < survivors.len() implies (
            #[trigger] survivors[j]).selection_letter is Some by {
                shown.lemma_filter_pred(typed, j);
            }
        }
        let n = kept.len();
        let mut i: usize = 0;
        while i < n
            invariant
                i <= n,
                n == kept@.len(),
                n == survivors.len(),
                forall|j: int| 0 <= j < i ==> (#[trigger] kept@[j])@ == survivors[j].advance(),
                forall|j: int|
                    0 <= j < i ==> (#[trigger] kept@[j])@.scan_cursor > survivors[j].scan_cursor,
                forall|j: int| i <= j < n ==> (#[trigger] kept@[j])@ == survivors[j],
                forall|j: int| 0 <= j < n ==> (#[trigger] survivors[j]).selection_letter is Some,
            decreases n - i,
        {
            kept[i].advance();
            i += 1;
        }
        let ghost moved = kept.deep_view();
        assert(moved =~= advance_all(survivors));
        self.current_entries = kept;
        self.find_entry_selections();
        proof {
            lemma_pass_keeps_subjects(
                moved,
                self.settings.rules(),
                exhausted(moved, self.settings.rules(), Seq::empty()),
            );
        }
        FilterOutcome::Updated
    }
}

/// What the filter keeps of the first `k + 1` entries, from what it keeps of
/// the first `k`.
pub proof fn lemma_filter_take<A>(s: Seq<A>, pred: spec_fn(A) -> bool, k: int)
    requires
        0 <= k < s.len(),
    ensures
        s.take(k + 1).filter(pred) == if pred(s[k]) {
            s.take(k).filter(pred).push(s[k])
        } else {
            s.take(k).filter(pred)
        },
{
    reveal(Seq::filter);
    assert(s.take(k + 1).drop_last() =~= s.take(k));
}

/// The filter keeps no less of the whole than of a part from the start.
pub proof fn lemma_filter_grows<A>(s: Seq<A>, pred: spec_fn(A) -> bool, k: int)
    requires
        0 <= k <= s.len(),
    ensures
        s.take(k).filter(pred).len() <= s.filter(pred).len(),
    decreases s.len() - k,
{
    if k < s.len() {
        lemma_filter_take(s, pred, k);
        lemma_filter_grows(s, pred, k + 1);
    } else {
        assert(s.take(k) =~= s);
    }
}

} // verus!
