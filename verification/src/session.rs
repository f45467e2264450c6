//! The menus that are installed, and which of them is open.

use vstd::prelude::*;
use crate::menu::{DirRecord, FilterOutcome, Menu, MenuView, OutcomeView};

verus! {

/// The installed menus and the index of the one that is open, if any. It is
/// the one place that knows which menu keystrokes go to.
pub struct Registry {
    menus: Vec<Menu>,
    active: Option<usize>,
}

/// A `Registry` as a mathematical value.
pub struct RegistryView {
    /// The installed menus.
    pub menus: Seq<MenuView>,
    /// The index of the open menu.
    pub active: Option<nat>,
}

impl RegistryView {
    /// The open menu, if any, is one of the installed ones.
    pub open spec fn wf(self) -> bool {
        match self.active {
            Some(index) => index < self.menus.len(),
            None => true,
        }
    }

    /// The registry with this menu in place of the one at `index`.
    pub open spec fn with_menu(self, index: nat, menu: MenuView) -> RegistryView {
        RegistryView { menus: self.menus.update(index as int, menu), ..self }
    }

    /// The registry after the open menu, if any, is closed: the menu has no
    /// entries on display and no menu is open.
    pub open spec fn closed(self) -> RegistryView {
        match self.active {
            Some(index) => RegistryView {
                menus: self.menus.update(
                    index as int,
                    MenuView { current_entries: Seq::empty(), ..self.menus[index as int] },
                ),
                active: None,
            },
            None => self,
        }
    }

    /// The registry after the keystroke `key`, and what the keystroke did.
    /// With no menu open it is ignored. Else it goes to the open menu, and
    /// the menu is closed where the keystroke activates an entry.
    pub open spec fn filter(self, key: char) -> (RegistryView, OutcomeView) {
        match self.active {
            Some(index) => {
                let (menu, outcome) = self.menus[index as int].filter(key);
                (
                    RegistryView {
                        menus: self.menus.update(index as int, menu),
                        active: if outcome is Activated {
                            None
                        } else {
                            self.active
                        },
                    },
                    outcome,
                )
            },
            None => (self, OutcomeView::Ignored),
        }
    }
}

impl View for Registry {
    type V = RegistryView;

    closed spec fn view(&self) -> RegistryView {
        RegistryView {
            menus: self.menus.deep_view(),
            active: match self.active {
                Some(index) => Some(index as nat),
                None => None,
            },
        }
    }
}

impl Registry {
    #[verifier::type_invariant]
    spec fn inv(self) -> bool {
        match self.active {
            Some(index) => index < self.menus@.len(),
            None => true,
        }
    }

    /// A registry without menus.
    pub fn new() -> (registry: Self)
        ensures
            registry@ == (RegistryView { menus: Seq::empty(), active: None }),
    {
        let registry = Registry { menus: Vec::new(), active: None };
        assert(registry.menus.deep_view() =~= Seq::empty());
        registry
    }

    /// Installs new menus in place of the old ones. A menu that was open is
    /// closed first, so that no keystroke meets entries of menus that are
    /// gone. Returns whether a menu was open.
    pub fn install(&mut self, menus: Vec<Menu>) -> (was_open: bool)
        ensures
            final(self)@ == (RegistryView { menus: menus.deep_view(), active: None }),
            was_open == old(self)@.active is Some,
    {
        let was_open = self.active.is_some();
        self.active = None;
        self.menus = menus;
        was_open
    }

    /// The installed menus.
    pub fn menus(&self) -> (menus: &Vec<Menu>)
        ensures
            menus.deep_view() == self@.menus,
            self@.wf(),
    {
        proof {
            use_type_invariant(self);
        }
        &self.menus
    }

    /// The index of the open menu, if any.
    pub fn active(&self) -> (active: Option<usize>)
        ensures
            match active {
                Some(index) => self@.active == Some(index as nat),
                None => self@.active is None,
            },
            self@.wf(),
    {
        proof {
            use_type_invariant(self);
        }
        self.active
    }

    /// Whether a menu is open.
    pub fn is_open(&self) -> (open: bool)
        ensures
            open == self@.active is Some,
    {
        self.active.is_some()
    }

    /// Opens the menu at `index` on a listing of its directory, after closing
    /// the menu that was open, if any. With no menu at `index` nothing
    /// changes. Returns whether a menu was opened.
    pub fn open(&mut self, index: usize, listing: &Vec<DirRecord>) -> (opened: bool)
        ensures
            opened == (index < old(self)@.menus.len()),
            !opened ==> final(self)@ == old(self)@,
            opened ==> {
                let closed = old(self)@.closed();
                &&& final(self)@.active == Some(index as nat)
                &&& final(self)@.menus.len() == closed.menus.len()
                &&& forall|i: int|
                    0 <= i < closed.menus.len() && i != index ==> final(self)@.menus[i]
                        == closed.menus[i]
                &&& closed.menus[index as int].opens_to(
                    listing.deep_view(),
                    final(self)@.menus[index as int],
                )
            },
    {
        proof {
            use_type_invariant(&*self);
        }
        if index >= self.menus.len() {
            return false;
        }
        close(self);
        assert(self@.menus.len() == old(self)@.menus.len());
        self.menus[index].get_entries(listing);
        self.active = Some(index);
        true
    }
}

/// Closes the open menu, if any: its entries are taken off display and no
/// menu is open.
pub fn close(registry: &mut Registry)
    ensures
        final(registry)@ == old(registry)@.closed(),
{
    proof {
        use_type_invariant(&*registry);
    }
    match registry.active {
        Some(index) => {
            let ghost before = registry.menus.deep_view();
            registry.menus[index].close();
            registry.active = None;
            assert(registry.menus.deep_view() =~= before.update(
                index as int,
                MenuView { current_entries: Seq::empty(), ..before[index as int] },
            ));
        },
        None => {},
    }
}

/// Hands a keystroke to the open menu. With no menu open the keystroke is
/// ignored. Where it activates an entry, the menu is closed and the entry's
/// action is handed back for the caller to perform.
pub fn filter_entries(registry: &mut Registry, in_char: char) -> (outcome: FilterOutcome)
    ensures
        (final(registry)@, outcome@) == old(registry)@.filter(in_char),
{
    proof {
        use_type_invariant(&*registry);
    }
    match registry.active {
        Some(index) => {
            let ghost before = registry.menus.deep_view();
            let outcome = registry.menus[index].filter(in_char);
            if let FilterOutcome::Activated(_) = &outcome {
                registry.active = None;
            }
            assert(registry.menus.deep_view() =~= before.update(
                index as int,
                before[index as int].filter(in_char).0,
            ));
            outcome
        },
        None => FilterOutcome::Ignored,
    }
}

} // verus!
