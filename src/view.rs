use vstd::prelude::*;
use crate::buttons::ButtonSet;
use crate::draw::DrawCmd;
use crate::dynamic::DynamicView;
use crate::empty::EmptyView;
use crate::file::{filled_from, last_component, DirItem, FileView};
use crate::func::FuncView;
use crate::menu::{menu_step, shows_menu, MenuView};
use crate::text::{shows_text, text_step, TextView};
use crate::text_input::{shows_text_input, text_input_step, TextInputView};

verus! {

/// What a view reports to its parent after handling one frame's buttons.
#[derive(Debug)]
pub enum ReturnStateEnum {
    /// The view is done: its parent takes focus back.
    Pop,
    /// A value produced for the immediate parent to consume.
    Text(String),
    /// The focused view needs the listing of this directory, to be handed
    /// back with `supply_listing`.
    ListDir(String),
    /// The focused view asks the driver to run the action with this number.
    Run(u64),
}

pub type ReturnState = Option<ReturnStateEnum>;

/// Whether `r` may leave a container: nothing, or a request for the driver.
/// A `Pop` or a `Text` stops at the view that receives it.
pub open spec fn passes_up(r: ReturnState) -> bool {
    match r {
        None => true,
        Some(ReturnStateEnum::ListDir(_)) => true,
        Some(ReturnStateEnum::Run(_)) => true,
        _ => false,
    }
}

/// Whether `r` is what opening `v` asks of the driver: a directory listing
/// for a file view, its action for a function view, nothing otherwise.
pub open spec fn activation_signal(v: AnyView, r: ReturnState) -> bool {
    match v {
        AnyView::File(f) => r matches Some(ReturnStateEnum::ListDir(p)) && p@ == f.path@,
        AnyView::Func(f) => r matches Some(ReturnStateEnum::Run(a)) && a == f.action,
        _ => r is None,
    }
}

/// Every kind of view, as one owned tree.
pub enum AnyView {
    Menu(MenuView),
    Text(TextView),
    TextInput(TextInputView),
    File(FileView),
    Empty(EmptyView),
    Func(FuncView),
    Dynamic(DynamicView),
}

/// One frame of a view: each kind handles the buttons as its own type says;
/// a file view as its menu does, an empty view ignores them, and a function
/// view closes.
pub open spec fn view_step(pre: AnyView, post: AnyView, b: ButtonSet, r: ReturnState) -> bool
    decreases pre,
{
    match (pre, post) {
        (AnyView::Menu(m), AnyView::Menu(n)) => menu_step(m, n, b, r),
        (AnyView::Text(t), AnyView::Text(u)) => text_step(t, u, b, r),
        (AnyView::TextInput(t), AnyView::TextInput(u)) => text_input_step(t, u, b, r),
        (AnyView::File(f), AnyView::File(g)) => g.path@ == f.path@ && menu_step(f.menu, g.menu, b, r),
        (AnyView::Empty(_), AnyView::Empty(_)) => r is None,
        (AnyView::Dynamic(_), AnyView::Dynamic(_)) => r is None,
        (AnyView::Func(f), AnyView::Func(g)) => g.action == f.action && (r matches Some(ReturnStateEnum::Pop)),
        _ => false,
    }
}

/// What activation leaves of a view: a file view keeps its path, entries,
/// selection and focus and is named after the last component of its path;
/// every other view is unchanged.
pub open spec fn activated(pre: AnyView, post: AnyView) -> bool {
    match pre {
        AnyView::File(f) => post matches AnyView::File(g) && {
            &&& g.path@ == f.path@
            &&& g.menu.entries@ == f.menu.entries@
            &&& g.menu.pos() == f.menu.pos()
            &&& g.menu.active == f.menu.active
            &&& g.menu.name matches Some(n) && n@ == last_component(f.path@)
        },
        _ => post == pre,
    }
}

/// Whether `n` is `m` with only its open entry's view changed.
pub open spec fn around_open(m: MenuView, n: MenuView) -> bool {
    &&& n.pos() == m.pos()
    &&& n.active == m.active
    &&& n.name == m.name
    &&& n.entries@.len() == m.entries@.len()
    &&& n.labels() == m.labels()
    &&& forall|i: int| 0 <= i < m.entries@.len() && i != m.selected ==> n.entries@[i] == m.entries@[i]
}

/// Whether `post` is `pre` after `listing` was handed to it: down the open
/// path only the open entries change, and the file view at its end keeps its
/// path and name and has its menu rebuilt from the listing.
pub open spec fn listing_applied(pre: AnyView, post: AnyView, listing: Result<Vec<DirItem>, String>) -> bool
    decreases pre,
{
    match (pre, post) {
        (AnyView::Menu(m), AnyView::Menu(n)) => {
            &&& around_open(m, n)
            &&& m.active
            &&& m.selected < m.entries@.len()
            &&& listing_applied(m.entries@[m.selected as int].1, n.entries@[m.selected as int].1, listing)
        },
        (AnyView::File(f), AnyView::File(g)) => {
            &&& g.path@ == f.path@
            &&& if f.menu.active {
                &&& around_open(f.menu, g.menu)
                &&& f.menu.selected < f.menu.entries@.len()
                &&& listing_applied(
                    f.menu.entries@[f.menu.selected as int].1,
                    g.menu.entries@[f.menu.selected as int].1,
                    listing,
                )
            } else {
                g.menu.name == f.menu.name && filled_from(f.path@, g.menu, listing)
            }
        },
        _ => false,
    }
}

impl AnyView {
    /// The view and everything below it are well formed.
    pub open spec fn wf(self) -> bool
        decreases self,
    {
        match self {
            AnyView::Menu(m) => m.nav_wf() && forall|i: int|
                0 <= i < m.entries@.len() ==> (#[trigger] m.entries@[i]).1.wf(),
            AnyView::Text(t) => t.wf(),
            AnyView::TextInput(t) => t.wf(),
            AnyView::File(f) => f.menu.nav_wf() && forall|i: int|
                0 <= i < f.menu.entries@.len() ==> (#[trigger] f.menu.entries@[i]).1.wf(),
            _ => true,
        }
    }

    /// Whether the deepest open view at or below this one is a file view
    /// whose own menu has no entry open: the view a listing goes to.
    pub open spec fn listing_target(self) -> bool
        decreases self,
    {
        match self {
            AnyView::Menu(m) => m.active && m.selected < m.entries@.len()
                && m.entries@[m.selected as int].1.listing_target(),
            AnyView::File(f) => if f.menu.active {
                f.menu.selected < f.menu.entries@.len()
                    && f.menu.entries@[f.menu.selected as int].1.listing_target()
            } else {
                true
            },
            _ => false,
        }
    }

    /// Whether `cmds` is what the view shows: the open view below it, if
    /// any, or its own content.
    pub open spec fn shows(self, cmds: Seq<DrawCmd>) -> bool
        decreases self,
    {
        match self {
            AnyView::Menu(m) => if m.active && m.selected < m.entries@.len() {
                m.entries@[m.selected as int].1.shows(cmds)
            } else {
                !m.active && shows_menu(m, cmds)
            },
            AnyView::File(f) => if f.menu.active && f.menu.selected < f.menu.entries@.len() {
                f.menu.entries@[f.menu.selected as int].1.shows(cmds)
            } else {
                !f.menu.active && shows_menu(f.menu, cmds)
            },
            AnyView::Text(t) => shows_text(t, cmds),
            AnyView::TextInput(t) => shows_text_input(t, cmds),
            _ => cmds.len() == 0,
        }
    }

    /// Draws the view, or the open view below it.
    pub fn render(&self) -> (r: Vec<DrawCmd>)
        requires
            self.wf(),
        ensures
            self.shows(r@),
        decreases *self,
    {
        match self {
            AnyView::Menu(m) => m.render(),
            AnyView::Text(t) => t.render(),
            AnyView::TextInput(t) => t.render(),
            AnyView::File(f) => {
                proof {
                    assert(decreases_to!(*self => f));
                    assert(decreases_to!(*f => f.menu));
                }
                f.menu.render()
            },
            _ => Vec::new(),
        }
    }

    /// Handles one frame's buttons.
    pub fn handle_buttons(&mut self, buttons: &ButtonSet) -> (r: ReturnState)
        requires
            old(self).wf(),
        ensures
            final(self).wf(),
            view_step(*old(self), *final(self), *buttons, r),
        decreases *old(self),
    {
        match self {
            AnyView::Menu(m) => m.handle_buttons(buttons),
            AnyView::Text(t) => t.handle_buttons(buttons),
            AnyView::TextInput(t) => t.handle_buttons(buttons),
            AnyView::File(f) => {
                proof {
                    assert(decreases_to!(*old(self) => old(self)->File_0));
                    assert(decreases_to!(old(self)->File_0 => old(self)->File_0.menu));
                }
                f.menu.handle_buttons(buttons)
            },
            AnyView::Func(_) => Some(ReturnStateEnum::Pop),
            _ => None,
        }
    }

    /// Called once when focus moves onto the view: a file view names its
    /// menu and asks for its directory's listing, a function view asks for
    /// its action; every other view stays as it is.
    pub fn activate(&mut self) -> (r: ReturnState)
        requires
            old(self).wf(),
        ensures
            final(self).wf(),
            activation_signal(*old(self), r),
            activated(*old(self), *final(self)),
    {
        match self {
            AnyView::File(f) => f.activate(),
            AnyView::Func(f) => Some(ReturnStateEnum::Run(f.action)),
            _ => None,
        }
    }

    /// Whether a listing handed to this view would be taken.
    pub fn accepts_listing(&self) -> (r: bool)
        requires
            self.wf(),
        ensures
            r == self.listing_target(),
        decreases *self,
    {
        match self {
            AnyView::Menu(m) => m.active && m.entries[m.selected].1.accepts_listing(),
            AnyView::File(f) => {
                if f.menu.active {
                    proof {
                        assert(decreases_to!(*self => f));
                        assert(decreases_to!(*f => f.menu));
                    }
                    f.menu.entries[f.menu.selected].1.accepts_listing()
                } else {
                    true
                }
            },
            _ => false,
        }
    }

    /// Hands a directory listing to the deepest open view, when that is a file
    /// view whose menu has no entry open: that view rebuilds its menu from the
    /// listing. Tells whether one took it; when none did, nothing changes.
    pub fn supply_listing(&mut self, listing: Result<Vec<DirItem>, String>) -> (r: bool)
        requires
            old(self).wf(),
        ensures
            final(self).wf(),
            r == old(self).listing_target(),
            r ==> listing_applied(*old(self), *final(self), listing),
            !r ==> *final(self) == *old(self),
        decreases *old(self),
    {
        if !self.accepts_listing() {
            return false;
        }
        match self {
            AnyView::Menu(m) => m.supply_listing(listing),
            AnyView::File(f) => {
                if f.menu.active {
                    proof {
                        assert(decreases_to!(*old(self) => old(self)->File_0));
                        assert(decreases_to!(old(self)->File_0 => old(self)->File_0.menu));
                    }
                    f.menu.supply_listing(listing)
                } else {
                    f.fill(listing);
                    true
                }
            },
            _ => false,
        }
    }
}

} // verus!
