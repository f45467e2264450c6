//! A candidate of the menu, the action it stands for, and the scan that
//! picks its selection letter.

use vstd::prelude::*;
use crate::letters::{chars_of, contains_letter, holds_letter};
use crate::pattern::{accepts_char, pattern_accepts, Pattern};

verus! {

/// What activating an entry does with its payload.
pub enum ActionType {
    /// Hand the payload to the system's "open" operation.
    Open,
    /// Run a shell command: the template, with the payload in place of each
    /// `{}`.
    Command(String),
}

/// An `ActionType` as a mathematical value.
pub enum ActionView {
    Open,
    Command(Seq<char>),
}

impl View for ActionType {
    type V = ActionView;

    open spec fn view(&self) -> ActionView {
        match self {
            ActionType::Open => ActionView::Open,
            ActionType::Command(template) => ActionView::Command(template@),
        }
    }
}

/// The side effect that an activation asks its caller to perform.
pub enum Dispatch {
    /// Open this path or URI.
    OpenPath(String),
    /// Hand this line to the shell.
    RunShell(String),
}

/// A `Dispatch` as a mathematical value.
pub enum DispatchView {
    OpenPath(Seq<char>),
    RunShell(Seq<char>),
}

impl View for Dispatch {
    type V = DispatchView;

    open spec fn view(&self) -> DispatchView {
        match self {
            Dispatch::OpenPath(path) => DispatchView::OpenPath(path@),
            Dispatch::RunShell(line) => DispatchView::RunShell(line@),
        }
    }
}

/// The template with the payload in place of every `{}`, read from the left.
pub open spec fn substitute(template: Seq<char>, payload: Seq<char>) -> Seq<char>
    decreases template.len(),
{
    if template.len() == 0 {
        template
    } else if template.len() >= 2 && template[0] == '{' && template[1] == '}' {
        payload + substitute(template.skip(2), payload)
    } else {
        seq![template[0]] + substitute(template.skip(1), payload)
    }
}

/// The side effect that an action stands for, given the payload.
pub open spec fn dispatch_of(action: ActionView, payload: Seq<char>) -> DispatchView {
    match action {
        ActionView::Open => DispatchView::OpenPath(payload),
        ActionView::Command(template) => DispatchView::RunShell(substitute(template, payload)),
    }
}

/// Computes `substitute`.
pub fn fill_template(template: &str, payload: &str) -> (line: String)
    ensures
        line@ == substitute(template@, payload@),
{
    let chars = chars_of(template);
    let n = chars.len();
    let mut line = String::new();
    let mut i: usize = 0;
    assert(template@.skip(0) =~= template@);
    while i < n
        invariant
            chars@ == template@,
            n == chars@.len(),
            i <= n,
            substitute(template@, payload@) == line@ + substitute(
                template@.skip(i as int),
                payload@,
            ),
        decreases n - i,
    {
        let ghost rest = template@.skip(i as int);
        if chars[i] == '{' && i + 1 < n && chars[i + 1] == '}' {
            assert(rest.skip(2) =~= template@.skip(i + 2));
            line.append(payload);
            i += 2;
        } else {
            assert(rest.skip(1) =~= template@.skip(i + 1));
            line.push(chars[i]);
            i += 1;
        }
    }
    line
}

impl ActionType {
    /// The side effect that activating this action with `payload` asks for.
    /// Performing it is left to the caller.
    pub fn activate(&self, payload: &str) -> (dispatch: Dispatch)
        ensures
            dispatch@ == dispatch_of(self@, payload@),
    {
        match self {
            ActionType::Open => Dispatch::OpenPath(payload.to_owned()),
            ActionType::Command(template) => Dispatch::RunShell(
                fill_template(template.as_str(), payload),
            ),
        }
    }
}

impl Clone for ActionType {
    fn clone(&self) -> (copy: Self)
        ensures
            copy@ == self@,
    {
        match self {
            ActionType::Open => ActionType::Open,
            ActionType::Command(template) => ActionType::Command(template.clone()),
        }
    }
}

/// The rules that say which characters of a label may become its selection
/// letter.
pub struct Rules {
    /// Where not empty, the only letters that are eligible.
    pub allowed_chars: Seq<char>,
    /// Whether a character is compared with `allowed_chars` by its exact case.
    pub match_allowed_case: bool,
    /// Where present, the text of a pattern that an eligible character must
    /// match.
    pub pattern: Option<Seq<char>>,
    /// Whether selection letters are compared by their exact case, with each
    /// other, with excluded letters and with keystrokes.
    pub match_selection_case: bool,
}

/// Whether `c` may become a selection letter under `rules` while the letters
/// of `disallowed` are excluded.
pub open spec fn eligible(c: char, rules: Rules, disallowed: Seq<char>) -> bool {
    &&& c != ' '
    &&& rules.allowed_chars.len() > 0 ==> holds_letter(
        rules.allowed_chars,
        c,
        rules.match_allowed_case,
    )
    &&& pattern_accepts(rules.pattern, c)
    &&& !holds_letter(disallowed, c, rules.match_selection_case)
}

/// The index of the first eligible character of `label` at or after `from`.
pub open spec fn first_eligible(
    label: Seq<char>,
    from: nat,
    rules: Rules,
    disallowed: Seq<char>,
) -> Option<nat>
    decreases label.len() - from,
{
    if from >= label.len() {
        None
    } else if eligible(label[from as int], rules, disallowed) {
        Some(from)
    } else {
        first_eligible(label, from + 1, rules, disallowed)
    }
}

/// `first_eligible` finds an eligible character at or after `from` with none
/// before it, and finds nothing only where there is none.
pub proof fn lemma_first_eligible(
    label: Seq<char>,
    from: nat,
    rules: Rules,
    disallowed: Seq<char>,
)
    ensures
        match first_eligible(label, from, rules, disallowed) {
            Some(at) => {
                &&& from <= at < label.len()
                &&& eligible(label[at as int], rules, disallowed)
                &&& forall|j: int| from <= j < at ==> !eligible(label[j], rules, disallowed)
            },
            None => forall|j: int|
                from <= j < label.len() ==> !eligible(label[j], rules, disallowed),
        },
    decreases label.len() - from,
{
    if from < label.len() && !eligible(label[from as int], rules, disallowed) {
        lemma_first_eligible(label, from + 1, rules, disallowed);
    }
}

/// A candidate of the menu as a mathematical value.
pub struct EntryView {
    /// The text that is shown and scanned for a selection letter.
    pub label: Seq<char>,
    /// The value handed to the action on activation.
    pub payload: Seq<char>,
    /// What activation does.
    pub action: ActionView,
    /// The index into `label` at which the next scan starts.
    pub scan_cursor: nat,
    /// The letter that selects this entry, if the last scan found one.
    pub selection_letter: Option<char>,
    /// The index of that letter in `label`.
    pub selection_offset: Option<nat>,
}

impl EntryView {
    /// A fresh entry: the cursor at the start of the label, no letter yet.
    pub open spec fn fresh(label: Seq<char>, payload: Seq<char>, action: ActionView) -> EntryView {
        EntryView {
            label,
            payload,
            action,
            scan_cursor: 0,
            selection_letter: None,
            selection_offset: None,
        }
    }

    /// The letter and its offset are present together, and the letter is the
    /// character of the label at that offset, at or after the cursor.
    pub open spec fn wf(self) -> bool {
        match self.selection_offset {
            Some(at) => {
                &&& self.scan_cursor <= at < self.label.len()
                &&& self.selection_letter == Some(self.label[at as int])
            },
            None => self.selection_letter is None,
        }
    }

    /// The entry after a scan from its cursor: it has the first eligible
    /// character as its letter, or no letter where none is eligible.
    pub open spec fn scan(self, rules: Rules, disallowed: Seq<char>) -> EntryView {
        match first_eligible(self.label, self.scan_cursor, rules, disallowed) {
            Some(at) => EntryView {
                selection_letter: Some(self.label[at as int]),
                selection_offset: Some(at),
                ..self
            },
            None => EntryView { selection_letter: None, selection_offset: None, ..self },
        }
    }

    /// The entry after it has survived a keystroke: the cursor stands behind
    /// the letter that was typed, and the letter is given up.
    pub open spec fn advance(self) -> EntryView {
        EntryView {
            scan_cursor: match self.selection_offset {
                Some(at) => at + 1,
                None => self.scan_cursor,
            },
            selection_letter: None,
            selection_offset: None,
            ..self
        }
    }
}

/// A scan leaves a well-formed entry, whatever the entry was before.
pub proof fn lemma_scan_wf(entry: EntryView, rules: Rules, disallowed: Seq<char>)
    ensures
        entry.scan(rules, disallowed).wf(),
{
    lemma_first_eligible(entry.label, entry.scan_cursor, rules, disallowed);
}

/// A candidate of the menu.
pub struct Entry {
    string: String,
    chars: Vec<char>,
    full_string: String,
    action: ActionType,
    pos: usize,
    selection: Option<(char, usize)>,
}

impl View for Entry {
    type V = EntryView;

    closed spec fn view(&self) -> EntryView {
        EntryView {
            label: self.string@,
            payload: self.full_string@,
            action: self.action@,
            scan_cursor: self.pos as nat,
            selection_letter: match self.selection {
                Some((letter, _)) => Some(letter),
                None => None,
            },
            selection_offset: match self.selection {
                Some((_, at)) => Some(at as nat),
                None => None,
            },
        }
    }
}

impl DeepView for Entry {
    type V = EntryView;

    open spec fn deep_view(&self) -> EntryView {
        self@
    }
}

impl Entry {
    #[verifier::type_invariant]
    spec fn inv(self) -> bool {
        &&& self.chars@ == self.string@
        &&& match self.selection {
            Some((letter, at)) => {
                &&& self.pos <= at < self.chars@.len()
                &&& self.chars@[at as int] == letter
            },
            None => true,
        }
    }

    /// A fresh entry: the cursor at the start of the label, no letter yet.
    pub fn new(string: String, full_string: String, action: ActionType) -> (entry: Self)
        ensures
            entry@ == EntryView::fresh(string@, full_string@, action@),
    {
        let chars = chars_of(string.as_str());
        Self { string, chars, full_string, action, pos: 0, selection: None }
    }

    /// The label: the text that is shown and scanned.
    pub fn string(&self) -> (label: &str)
        ensures
            label@ == self@.label,
    {
        self.string.as_str()
    }

    /// The payload: what the action receives on activation.
    pub fn full_string(&self) -> (payload: &str)
        ensures
            payload@ == self@.payload,
    {
        self.full_string.as_str()
    }

    /// The number of characters of the label.
    pub fn label_len(&self) -> (len: usize)
        ensures
            len == self@.label.len(),
    {
        proof {
            use_type_invariant(self);
        }
        self.chars.len()
    }

    /// What activation does.
    pub fn action(&self) -> (action: &ActionType)
        ensures
            action@ == self@.action,
    {
        &self.action
    }

    /// The scan cursor.
    pub fn pos(&self) -> (cursor: usize)
        ensures
            cursor == self@.scan_cursor,
    {
        self.pos
    }

    /// The selection letter, if the last scan found one.
    pub fn selection_letter(&self) -> (letter: Option<char>)
        ensures
            letter == self@.selection_letter,
            self@.wf(),
    {
        proof {
            use_type_invariant(self);
        }
        match self.selection {
            Some((letter, _)) => Some(letter),
            None => None,
        }
    }

    /// The index of the selection letter in the label, counted in characters.
    pub fn selection_index(&self) -> (index: Option<usize>)
        ensures
            match index {
                Some(at) => self@.selection_offset == Some(at as nat),
                None => self@.selection_offset is None,
            },
            self@.wf(),
    {
        proof {
            use_type_invariant(self);
        }
        match self.selection {
            Some((_, at)) => Some(at),
            None => None,
        }
    }

    /// Scans the label from the cursor for the first character that is not a
    /// space, is among `allowed_chars` where these are not empty, matches
    /// `allowed_regex` where there is one, and is not among
    /// `disallowed_chars`. That character becomes the selection letter; with
    /// none, the entry is left without a letter. Returns whether a letter was
    /// found.
    pub fn get_selection(
        &mut self,
        allowed_chars: &str,
        allowed_regex: &Option<Pattern>,
        disallowed_chars: &str,
        match_case: bool,
        match_selection_case: bool,
    ) -> (found: bool)
        ensures
            final(self)@ == old(self)@.scan(
                Rules {
                    allowed_chars: allowed_chars@,
                    match_allowed_case: match_case,
                    pattern: allowed_regex.deep_view(),
                    match_selection_case,
                },
                disallowed_chars@,
            ),
            found == final(self)@.selection_letter is Some,
    {
        proof {
            use_type_invariant(&*self);
        }
        let ghost rules = Rules {
            allowed_chars: allowed_chars@,
            match_allowed_case: match_case,
            pattern: allowed_regex.deep_view(),
            match_selection_case,
        };
        let ghost label = self.string@;
        let restricted = !allowed_chars.is_empty();
        let n = self.chars.len();
        let mut i = self.pos;
        while i < n
            invariant
                *self == *old(self),
                self.inv(),
                label == self.string@,
                n == label.len(),
                self.pos <= i,
                restricted == (allowed_chars@.len() > 0),
                rules.allowed_chars == allowed_chars@,
                rules.match_allowed_case == match_case,
                rules.pattern == allowed_regex.deep_view(),
                rules.match_selection_case == match_selection_case,
                first_eligible(label, self.pos as nat, rules, disallowed_chars@)
                    == first_eligible(label, i as nat, rules, disallowed_chars@),
            decreases n - i,
        {
            let c = self.chars[i];
            if c != ' ' && (!restricted || contains_letter(allowed_chars, c, match_case))
                && accepts_char(allowed_regex, c) && !contains_letter(
                disallowed_chars,
                c,
                match_selection_case,
            ) {
                self.selection = Some((c, i));
                return true;
            }
            i += 1;
        }
        self.selection = None;
        false
    }

    /// Moves the cursor behind the selection letter and gives the letter up,
    /// so that the next scan looks for a new one further on.
    pub fn advance(&mut self)
        ensures
            final(self)@ == old(self)@.advance(),
            final(self)@.scan_cursor >= old(self)@.scan_cursor,
            old(self)@.selection_letter is Some ==> final(self)@.scan_cursor > old(
                self,
            )@.scan_cursor,
    {
        proof {
            use_type_invariant(&*self);
        }
        if let Some((_, at)) = self.selection {
            // The letter lies within the label, so the index behind it fits.
            let len = self.chars.len();
            assert(at < len);
            self.selection = None;
            self.pos = at + 1;
        }
    }
}

impl Clone for Entry {
    fn clone(&self) -> (copy: Self)
        ensures
            copy@ == self@,
    {
        proof {
            use_type_invariant(self);
        }
        Self {
            string: self.string.clone(),
            chars: self.chars.clone(),
            full_string: self.full_string.clone(),
            action: self.action.clone(),
            pos: self.pos,
            selection: self.selection,
        }
    }
}

} // verus!
