use vstd::prelude::*;
use crate::buttons::ButtonSet;
use crate::chars::chars_of;
use crate::draw::{DrawCmd, is_rect, is_text};
use crate::file::DirItem;
use crate::view::{activated, activation_signal, view_step, around_open, listing_applied, passes_up, AnyView, ReturnState, ReturnStateEnum};

verus! {

/// Number of entries shown on the screen at once.
pub const PAGE_SIZE: usize = 4;
/// Number of label characters shown on one row.
pub const LABEL_WIDTH: usize = 20;
/// Height of one menu row, in pixels.
pub const ROW_HEIGHT: i32 = 13;

/// A label and the view it opens.
pub type MenuEntry = (String, AnyView);

/// Whether `first <= sel < first + PAGE_SIZE` and `sel < len`: the selected
/// entry exists and is on screen.
pub open spec fn window_ok(len: nat, sel: nat, first: nat) -> bool {
    first <= sel && sel < first + PAGE_SIZE && sel < len
}

/// Selection and window after moving to the next entry.
pub open spec fn next_pos(len: nat, sel: nat, first: nat) -> (nat, nat) {
    if len == 0 {
        (sel, first)
    } else {
        let s: nat = if sel + 1 < len { sel + 1 } else { 0 };
        let f = if s == 0 { 0 } else { first };
        if s >= f + PAGE_SIZE { (s, (s - PAGE_SIZE + 1) as nat) } else { (s, f) }
    }
}

/// Selection and window after moving to the previous entry.
pub open spec fn prev_pos(len: nat, sel: nat, first: nat) -> (nat, nat) {
    if len == 0 {
        (sel, first)
    } else {
        let (s, f) = if sel == 0 {
            ((len - 1) as nat, if len > PAGE_SIZE { (len - PAGE_SIZE) as nat } else { 0nat })
        } else {
            ((sel - 1) as nat, first)
        };
        if s <= f { (s, s) } else { (s, f) }
    }
}

/// Selection and window after jumping to the first entry.
pub open spec fn first_pos(len: nat, sel: nat, first: nat) -> (nat, nat) {
    if len == 0 { (sel, first) } else { (0, 0) }
}

/// Selection and window after jumping to the last entry.
pub open spec fn last_pos(len: nat, sel: nat, first: nat) -> (nat, nat) {
    if len == 0 {
        (sel, first)
    } else if len > PAGE_SIZE {
        ((len - 1) as nat, (len - PAGE_SIZE) as nat)
    } else {
        ((len - 1) as nat, first)
    }
}

/// A navigation step of a menu.
#[derive(Clone, Copy, Debug, PartialEq, Eq, Structural)]
pub enum NavOp {
    Next,
    Prev,
    First,
    Last,
}

pub open spec fn nav_step(len: nat, pos: (nat, nat), op: NavOp) -> (nat, nat) {
    match op {
        NavOp::Next => next_pos(len, pos.0, pos.1),
        NavOp::Prev => prev_pos(len, pos.0, pos.1),
        NavOp::First => first_pos(len, pos.0, pos.1),
        NavOp::Last => last_pos(len, pos.0, pos.1),
    }
}

/// Selection and window after the steps `ops`, in order.
pub open spec fn nav_run(len: nat, pos: (nat, nat), ops: Seq<NavOp>) -> (nat, nat)
    decreases ops.len(),
{
    if ops.len() == 0 {
        pos
    } else {
        nav_step(len, nav_run(len, pos, ops.drop_last()), ops.last())
    }
}

/// The shown part of a label.
pub open spec fn clip(s: Seq<char>) -> Seq<char> {
    if s.len() > LABEL_WIDTH { s.subrange(0, LABEL_WIDTH as int) } else { s }
}

/// Whether `cmds` draws row `k` of a menu with label `s`, highlighted when `sel`.
pub open spec fn row_cmds(cmds: Seq<DrawCmd>, k: int, s: Seq<char>, sel: bool) -> bool {
    &&& cmds.len() == 3
    &&& is_rect(cmds[0], 0, 13 * k, 127, 13 * (k + 1), Some(sel))
    &&& is_text(cmds[1], clip(s), 3, 13 * k + 3, Some(!sel), Some(sel))
    &&& is_rect(cmds[2], 0, 13 * k, 127, 13 * (k + 1), None)
}

/// Whether `cmds` draws the rows in the window of `m`, the selected one
/// highlighted, then its name and, when entries remain below the window, a
/// down arrow.
pub open spec fn shows_menu(m: MenuView, cmds: Seq<DrawCmd>) -> bool {
    let len = m.entries@.len();
    let first = m.first_visible_item as nat;
    let rows = rows_shown(len, first);
    let named: int = if m.name is Some { 1 } else { 0 };
    let arrow: int = if more_below(len, first) { 1 } else { 0 };
    &&& cmds.len() == 3 * rows + named + arrow
    &&& forall|k: int| 0 <= k < rows ==> row_cmds(
        #[trigger] cmds.subrange(3 * k, 3 * k + 3),
        k,
        m.labels()[first + k],
        first + k == m.selected,
    )
    &&& (m.name matches Some(n) ==> is_text(cmds[3 * rows as int], n@, 3, 55, None, None))
    &&& more_below(len, first) ==> cmds.last() == (DrawCmd::ArrowDown { x: 120, y: 55 })
}

/// One frame of a menu: while an entry is open its view takes the frame; a
/// `Pop` from it closes it and stops there, and any request for the driver
/// passes up as it is. Otherwise the menu navigates itself, and A opens the
/// selected entry.
pub open spec fn menu_step(pre: MenuView, post: MenuView, b: ButtonSet, r: ReturnState) -> bool
    decreases pre,
{
    &&& post.entries@.len() == pre.entries@.len()
    &&& post.labels() == pre.labels()
    &&& post.name == pre.name
    &&& pre.active ==> {
        &&& post.pos() == pre.pos()
        &&& passes_up(r)
        &&& forall|i: int| 0 <= i < pre.entries@.len() && i != pre.selected
            ==> post.entries@[i] == pre.entries@[i]
        &&& !post.active ==> r is None
        &&& pre.selected < pre.entries@.len() ==> view_step(
            pre.entries@[pre.selected as int].1,
            post.entries@[pre.selected as int].1,
            b,
            if post.active { r } else { Some(ReturnStateEnum::Pop) },
        )
    }
    &&& !pre.active ==> {
        let opened = b.a.pressed && pre.entries@.len() > 0;
        &&& post.pos() == self_nav(pre.entries@.len(), pre.pos(), b)
        &&& post.active == opened
        &&& b.b.pressed ==> (r matches Some(ReturnStateEnum::Pop))
        &&& !b.b.pressed && !opened ==> r is None
        &&& !b.b.pressed && opened ==> activation_signal(pre.entries@[post.selected as int].1, r)
        &&& opened ==> activated(pre.entries@[post.selected as int].1, post.entries@[post.selected as int].1)
        &&& forall|i: int| 0 <= i < pre.entries@.len() && (i != post.selected || !opened)
            ==> post.entries@[i] == pre.entries@[i]
    }
}

/// A scrolling list of labelled entries, each opening a child view.
pub struct MenuView {
    pub name: Option<String>,
    pub active: bool,
    pub entries: Vec<MenuEntry>,
    pub selected: usize,
    pub first_visible_item: usize,
}

/// Selection and window after one frame's navigation presses: Up, Down, Left, Right in turn.
pub open spec fn self_nav(len: nat, pos: (nat, nat), b: ButtonSet) -> (nat, nat) {
    let after_up = if b.up.pressed { prev_pos(len, pos.0, pos.1) } else { pos };
    let after_down = if b.down.pressed { next_pos(len, after_up.0, after_up.1) } else { after_up };
    let after_left = if b.left.pressed { first_pos(len, after_down.0, after_down.1) } else { after_down };
    if b.right.pressed { last_pos(len, after_left.0, after_left.1) } else { after_left }
}

/// Number of rows on screen.
pub open spec fn rows_shown(len: nat, first: nat) -> nat {
    if len <= first { 0 } else if len - first < PAGE_SIZE { (len - first) as nat } else { PAGE_SIZE as nat }
}

/// Whether entries remain below the window.
pub open spec fn more_below(len: nat, first: nat) -> bool {
    len >= PAGE_SIZE && first + PAGE_SIZE < len
}

/// Shows the first characters of a label.
pub fn clip_chars(s: &Vec<char>) -> (r: Vec<char>)
    ensures
        r@ == clip(s@),
{
    let n: usize = if s.len() > LABEL_WIDTH { LABEL_WIDTH } else { s.len() };
    let mut r: Vec<char> = Vec::new();
    let mut i: usize = 0;
    while i < n
        invariant
            n <= s@.len(),
            n == if s@.len() > LABEL_WIDTH { LABEL_WIDTH as int } else { s@.len() as int },
            i <= n,
            r@ == s@.subrange(0, i as int),
        decreases n - i,
    {
        r.push(s[i]);
        i = i + 1;
        assert(r@ =~= s@.subrange(0, i as int));
    }
    assert(s@.subrange(0, s@.len() as int) =~= s@);
    r
}

impl MenuView {
    /// The selection and window are consistent, and only a non-empty menu has focus on a child.
    pub open spec fn nav_wf(&self) -> bool {
        if self.entries@.len() == 0 {
            self.selected == 0 && self.first_visible_item == 0 && !self.active
        } else {
            window_ok(self.entries@.len(), self.selected as nat, self.first_visible_item as nat)
        }
    }

    /// The menu and all its children are well formed.
    pub open spec fn wf(&self) -> bool {
        &&& self.nav_wf()
        &&& forall|i: int| 0 <= i < self.entries@.len() ==> (#[trigger] self.entries@[i]).1.wf()
    }

    pub open spec fn pos(&self) -> (nat, nat) {
        (self.selected as nat, self.first_visible_item as nat)
    }

    pub open spec fn labels(&self) -> Seq<Seq<char>> {
        self.entries@.map_values(|e: MenuEntry| e.0@)
    }

    /// Create a new, empty menu.
    pub fn new() -> (r: MenuView)
        ensures
            r.wf(),
            r.entries@.len() == 0,
            r.name is None,
            !r.active,
    {
        MenuView { name: None, active: false, entries: Vec::new(), selected: 0, first_visible_item: 0 }
    }

    /// Create a new menu with the provided entries, the first one selected.
    pub fn with_entries(entries: Vec<MenuEntry>) -> (r: MenuView)
        requires
            forall|i: int| 0 <= i < entries@.len() ==> (#[trigger] entries@[i]).1.wf(),
        ensures
            r.wf(),
            r.entries@ == entries@,
            r.selected == 0,
            r.first_visible_item == 0,
            r.name is None,
            !r.active,
    {
        MenuView { name: None, active: false, entries, selected: 0, first_visible_item: 0 }
    }

    /// Add an entry at the end of the menu; its label is stored as given.
    pub fn add_entry(&mut self, entry: MenuEntry)
        requires
            old(self).wf(),
            entry.1.wf(),
        ensures
            final(self).wf(),
            final(self).entries@ == old(self).entries@.push(entry),
            final(self).selected == old(self).selected,
            final(self).first_visible_item == old(self).first_visible_item,
            final(self).active == old(self).active,
            final(self).name == old(self).name,
    {
        self.entries.push(entry);
        assert(forall|i: int| 0 <= i < old(self).entries@.len() ==> self.entries@[i] == old(self).entries@[i]);
    }

    /// Replace the entries; the selection goes back to the first entry.
    pub fn set_entries(&mut self, entries: Vec<MenuEntry>)
        requires
            forall|i: int| 0 <= i < entries@.len() ==> (#[trigger] entries@[i]).1.wf(),
        ensures
            final(self).wf(),
            final(self).entries@ == entries@,
            final(self).selected == 0,
            final(self).first_visible_item == 0,
            !final(self).active,
            final(self).name == old(self).name,
    {
        self.entries = entries;
        self.selected = 0;
        self.first_visible_item = 0;
        self.active = false;
    }

    /// Set the name shown under the entries.
    pub fn set_name(&mut self, name: &str)
        requires
            old(self).wf(),
        ensures
            final(self).wf(),
            final(self).name matches Some(n) && n@ == name@,
            final(self).entries@ == old(self).entries@,
            final(self).pos() == old(self).pos(),
            final(self).active == old(self).active,
    {
        self.name = Some(name.to_owned());
    }

    /// Handles the buttons at the menu's own level: Up and Down step
    /// through the entries, Left and Right jump to the ends, A opens the
    /// selected entry, B closes the menu.
    pub fn handle_buttons_self(&mut self, buttons: &ButtonSet) -> (r: ReturnState)
        requires
            old(self).wf(),
        ensures
            final(self).wf(),
            final(self).pos() == self_nav(old(self).entries@.len(), old(self).pos(), *buttons),
            final(self).entries@.len() == old(self).entries@.len(),
            final(self).labels() == old(self).labels(),
            final(self).name == old(self).name,
            final(self).active == (old(self).active || (buttons.a.pressed && old(self).entries@.len() > 0)),
            buttons.b.pressed ==> r matches Some(ReturnStateEnum::Pop),
            !buttons.b.pressed && !(buttons.a.pressed && old(self).entries@.len() > 0) ==> r is None,
            !buttons.b.pressed && buttons.a.pressed && old(self).entries@.len() > 0 ==> activation_signal(
                old(self).entries@[final(self).selected as int].1,
                r,
            ),
            buttons.a.pressed && old(self).entries@.len() > 0 ==> activated(
                old(self).entries@[final(self).selected as int].1,
                final(self).entries@[final(self).selected as int].1,
            ),
            forall|i: int| 0 <= i < old(self).entries@.len() && (i != final(self).selected || !buttons.a.pressed)
                ==> final(self).entries@[i] == old(self).entries@[i],
    {
        self.navigate(buttons);
        let mut req: ReturnState = None;
        if buttons.a.was_pressed() && self.entries.len() > 0 {
            req = self.open_selected();
        }
        if buttons.b.was_pressed() {
            return Some(ReturnStateEnum::Pop);
        }
        req
    }

    /// Applies one frame's navigation presses: Up, Down, Left, Right in turn.
    fn navigate(&mut self, buttons: &ButtonSet)
        requires
            old(self).wf(),
        ensures
            final(self).wf(),
            final(self).pos() == self_nav(old(self).entries@.len(), old(self).pos(), *buttons),
            final(self).entries@ == old(self).entries@,
            final(self).name == old(self).name,
            final(self).active == old(self).active,
    {
        if buttons.up.was_pressed() {
            self.prev_entry();
        }
        if buttons.down.was_pressed() {
            self.next_entry();
        }
        if buttons.left.was_pressed() {
            self.first_entry();
        }
        if buttons.right.was_pressed() {
            self.last_entry();
        }
    }

    /// Gives focus to the selected entry and activates its view.
    fn open_selected(&mut self) -> (r: ReturnState)
        requires
            old(self).wf(),
            old(self).entries@.len() > 0,
        ensures
            final(self).wf(),
            final(self).pos() == old(self).pos(),
            final(self).entries@.len() == old(self).entries@.len(),
            final(self).labels() == old(self).labels(),
            final(self).name == old(self).name,
            final(self).active,
            activation_signal(old(self).entries@[old(self).selected as int].1, r),
            activated(old(self).entries@[old(self).selected as int].1, final(self).entries@[old(self).selected as int].1),
            forall|i: int| 0 <= i < old(self).entries@.len() && i != old(self).selected
                ==> final(self).entries@[i] == old(self).entries@[i],
    {
        self.active = true;
        let i = self.selected;
        let ghost before = self.entries@;
        let mut e = self.entries.remove(i);
        assert(e == before[i as int]);
        let req = e.1.activate();
        self.entries.insert(i, e);
        proof {
            assert(self.entries@ =~= before.update(i as int, e));
            assert(self.labels() =~= old(self).labels());
            assert forall|k: int| 0 <= k < self.entries@.len() implies (#[trigger] self.entries@[k]).1.wf() by {
                if k != i {
                    assert(self.entries@[k] == before[k]);
                }
            }
        }
        req
    }

    /// Handles one frame: while an entry is open its view gets the buttons,
    /// and its `Pop` closes it; otherwise the menu navigates itself.
    pub fn handle_buttons(&mut self, buttons: &ButtonSet) -> (r: ReturnState)
        requires
            old(self).wf(),
        ensures
            final(self).wf(),
            menu_step(*old(self), *final(self), *buttons, r),
        decreases *old(self),
    {
        if self.active {
            let i = self.selected;
            let ghost before = self.entries@;
            let mut e = self.entries.remove(i);
            proof {
                assert(e == before[i as int]);
                assert(decreases_to!(*old(self) => old(self).entries));
                assert(decreases_to!(old(self).entries => old(self).entries@));
                assert(decreases_to!(old(self).entries@ => old(self).entries@[i as int]));
                assert(decreases_to!(old(self).entries@[i as int] => old(self).entries@[i as int].1));
            }
            let res = e.1.handle_buttons(buttons);
            let ghost cr = res;
            self.entries.insert(i, e);
            proof {
                assert(self.entries@ =~= before.update(i as int, e));
                assert(self.labels() =~= old(self).labels());
                assert forall|k: int| 0 <= k < self.entries@.len() implies (#[trigger] self.entries@[k]).1.wf() by {
                    if k != i {
                        assert(self.entries@[k] == before[k]);
                    }
                }
            }
            let r = match res {
                Some(ReturnStateEnum::Pop) => {
                    self.active = false;
                    None
                },
                Some(ReturnStateEnum::Text(_)) => None,
                other => other,
            };
            proof {
                lemma_step_no_text(before[i as int].1, self.entries@[i as int].1, *buttons, cr);
                assert(view_step(
                    before[i as int].1,
                    self.entries@[i as int].1,
                    *buttons,
                    if self.active { r } else { Some(ReturnStateEnum::Pop) },
                ));
            }
            r
        } else {
            self.handle_buttons_self(buttons)
        }
    }

    /// Hands a directory listing down the open entry; tells whether a file
    /// view at the end of the open path took it. When none did, nothing changes.
    pub fn supply_listing(&mut self, listing: Result<Vec<DirItem>, String>) -> (r: bool)
        requires
            old(self).wf(),
        ensures
            final(self).wf(),
            r == (old(self).active && old(self).entries@[old(self).selected as int].1.listing_target()),
            r ==> around_open(*old(self), *final(self)) && listing_applied(
                old(self).entries@[old(self).selected as int].1,
                final(self).entries@[old(self).selected as int].1,
                listing,
            ),
            !r ==> *final(self) == *old(self),
        decreases *old(self),
    {
        if !(self.active && self.entries[self.selected].1.accepts_listing()) {
            return false;
        }
        let i = self.selected;
        let ghost before = self.entries@;
        let mut e = self.entries.remove(i);
        proof {
            assert(e == before[i as int]);
            assert(decreases_to!(*old(self) => old(self).entries));
            assert(decreases_to!(old(self).entries => old(self).entries@));
            assert(decreases_to!(old(self).entries@ => old(self).entries@[i as int]));
            assert(decreases_to!(old(self).entries@[i as int] => old(self).entries@[i as int].1));
        }
        let r = e.1.supply_listing(listing);
        self.entries.insert(i, e);
        proof {
            assert(self.entries@ =~= before.update(i as int, e));
            assert(self.labels() =~= old(self).labels());
            assert forall|k: int| 0 <= k < self.entries@.len() implies (#[trigger] self.entries@[k]).1.wf() by {
                if k != i {
                    assert(self.entries@[k] == before[k]);
                }
            }
        }
        r
    }

    /// Draws the rows in the window, the selected one highlighted, then the
    /// name and, when entries remain below the window, a down arrow.
    pub fn render_self(&self) -> (r: Vec<DrawCmd>)
        requires
            self.nav_wf(),
        ensures
            shows_menu(*self, r@),
    {
        let len = self.entries.len();
        let first = self.first_visible_item;
        let rows: usize = if len <= first { 0 } else if len - first < PAGE_SIZE { len - first } else { PAGE_SIZE };
        let mut r: Vec<DrawCmd> = Vec::new();
        let mut k: usize = 0;
        while k < rows
            invariant
                len == self.entries@.len(),
                first == self.first_visible_item,
                rows == rows_shown(len as nat, first as nat),
                rows <= PAGE_SIZE,
                k <= rows,
                r@.len() == 3 * k,
                forall|j: int| 0 <= j < k ==> row_cmds(
                    #[trigger] r@.subrange(3 * j, 3 * j + 3),
                    j,
                    self.labels()[first + j],
                    first + j == self.selected,
                ),
            decreases rows - k,
        {
            let i = first + k;
            let sel = i == self.selected;
            let label = clip_chars(&chars_of(self.entries[i].0.as_str()));
            assert(label@ == clip(self.labels()[i as int]));
            let top = 13 * (k as i32);
            let ghost r0 = r@;
            r.push(DrawCmd::Rect { x0: 0, y0: top, x1: 127, y1: top + 13, fill: Some(sel) });
            r.push(DrawCmd::Text { text: label, x: 3, y: top + 3, stroke: Some(!sel), fill: Some(sel) });
            r.push(DrawCmd::Rect { x0: 0, y0: top, x1: 127, y1: top + 13, fill: None });
            proof {
                assert forall|j: int| 0 <= j < k + 1 implies row_cmds(
                    #[trigger] r@.subrange(3 * j, 3 * j + 3),
                    j,
                    self.labels()[first + j],
                    first + j == self.selected,
                ) by {
                    if j < k {
                        assert(r@.subrange(3 * j, 3 * j + 3) =~= r0.subrange(3 * j, 3 * j + 3));
                    }
                }
            }
            k = k + 1;
        }
        let ghost rows_r = r@;
        match &self.name {
            Some(n) => {
                r.push(DrawCmd::Text { text: chars_of(n.as_str()), x: 3, y: 55, stroke: None, fill: None });
            },
            None => {},
        }
        if len >= PAGE_SIZE && first < len - PAGE_SIZE {
            r.push(DrawCmd::ArrowDown { x: 120, y: 55 });
        }
        proof {
            assert forall|j: int| 0 <= j < rows implies row_cmds(
                #[trigger] r@.subrange(3 * j, 3 * j + 3),
                j,
                self.labels()[first + j],
                first + j == self.selected,
            ) by {
                assert(r@.subrange(3 * j, 3 * j + 3) =~= rows_r.subrange(3 * j, 3 * j + 3));
            }
        }
        r
    }

    /// Draws the open entry's view, or the menu itself.
    pub fn render(&self) -> (r: Vec<DrawCmd>)
        requires
            self.wf(),
        ensures
            self.active ==> self.entries@[self.selected as int].1.shows(r@),
            !self.active ==> shows_menu(*self, r@),
        decreases *self,
    {
        if self.active {
            self.entries[self.selected].1.render()
        } else {
            self.render_self()
        }
    }

    /// Select the next entry, wrapping to the first.
    pub fn next_entry(&mut self)
        requires
            old(self).wf(),
        ensures
            final(self).wf(),
            final(self).pos() == next_pos(old(self).entries@.len(), old(self).selected as nat, old(self).first_visible_item as nat),
            final(self).entries@ == old(self).entries@,
            final(self).active == old(self).active,
            final(self).name == old(self).name,
    {
        let len = self.entries.len();
        if len == 0 {
            return;
        }
        self.selected = if self.selected + 1 < len { self.selected + 1 } else { 0 };
        if self.selected == 0 {
            self.first_visible_item = 0;
        }
        if self.selected - self.first_visible_item >= PAGE_SIZE {
            self.first_visible_item = self.selected - PAGE_SIZE + 1;
        }
    }

    /// Select the previous entry, wrapping to the last with the last page shown.
    pub fn prev_entry(&mut self)
        requires
            old(self).wf(),
        ensures
            final(self).wf(),
            final(self).pos() == prev_pos(old(self).entries@.len(), old(self).selected as nat, old(self).first_visible_item as nat),
            final(self).entries@ == old(self).entries@,
            final(self).active == old(self).active,
            final(self).name == old(self).name,
    {
        let len = self.entries.len();
        if len == 0 {
            return;
        }
        if self.selected == 0 {
            self.selected = len - 1;
            self.first_visible_item = if len > PAGE_SIZE { len - PAGE_SIZE } else { 0 };
        } else {
            self.selected = self.selected - 1;
        }
        if self.selected <= self.first_visible_item {
            self.first_visible_item = self.selected;
        }
    }

    /// Select the first entry.
    pub fn first_entry(&mut self)
        requires
            old(self).wf(),
        ensures
            final(self).wf(),
            final(self).pos() == first_pos(old(self).entries@.len(), old(self).selected as nat, old(self).first_visible_item as nat),
            final(self).entries@ == old(self).entries@,
            final(self).active == old(self).active,
            final(self).name == old(self).name,
    {
        if self.entries.len() == 0 {
            return;
        }
        self.selected = 0;
        self.first_visible_item = 0;
    }

    /// Select the last entry.
    pub fn last_entry(&mut self)
        requires
            old(self).wf(),
        ensures
            final(self).wf(),
            final(self).pos() == last_pos(old(self).entries@.len(), old(self).selected as nat, old(self).first_visible_item as nat),
            final(self).entries@ == old(self).entries@,
            final(self).active == old(self).active,
            final(self).name == old(self).name,
    {
        let len = self.entries.len();
        if len == 0 {
            return;
        }
        self.selected = len - 1;
        if len > PAGE_SIZE {
            self.first_visible_item = self.selected - (PAGE_SIZE - 1);
        }
    }
}

/// No view hands a `Text` to its parent: only the character picker inside a
/// text input produces one, and the text input consumes it.
pub proof fn lemma_step_no_text(pre: AnyView, post: AnyView, b: ButtonSet, r: ReturnState)
    requires
        view_step(pre, post, b, r),
    ensures
        !(r matches Some(ReturnStateEnum::Text(_))),
{
}

/// Each navigation step of a non-empty menu keeps the selected entry in the
/// menu and on screen.
pub proof fn lemma_step_window(len: nat, pos: (nat, nat), op: NavOp)
    requires
        len > 0,
        window_ok(len, pos.0, pos.1),
    ensures
        window_ok(len, nav_step(len, pos, op).0, nav_step(len, pos, op).1),
{
}

/// After any sequence of next, previous, first and last steps on a non-empty
/// menu, the selected entry is in the menu and inside the window:
/// `first_visible <= selected < first_visible + PAGE_SIZE` and `selected < len`.
pub proof fn lemma_window_kept(len: nat, pos: (nat, nat), ops: Seq<NavOp>)
    requires
        len > 0,
        window_ok(len, pos.0, pos.1),
    ensures
        window_ok(len, nav_run(len, pos, ops).0, nav_run(len, pos, ops).1),
    decreases ops.len(),
{
    if ops.len() > 0 {
        lemma_window_kept(len, pos, ops.drop_last());
        lemma_step_window(len, nav_run(len, pos, ops.drop_last()), ops.last());
    }
}

/// Moving to the next entry and then to the previous one, or the other way
/// round, selects the entry selected before, across the wrap too.
pub proof fn lemma_next_prev_inverse(len: nat, sel: nat, first: nat)
    requires
        window_ok(len, sel, first),
    ensures
        prev_pos(len, next_pos(len, sel, first).0, next_pos(len, sel, first).1).0 == sel,
        next_pos(len, prev_pos(len, sel, first).0, prev_pos(len, sel, first).1).0 == sel,
{
}

} // verus!
