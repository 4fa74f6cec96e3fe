use vstd::prelude::*;
use crate::chars::{chars_of, string_of};
use crate::menu::{MenuEntry, MenuView};
use crate::text::TextView;
use crate::view::{AnyView, ReturnState, ReturnStateEnum};

verus! {

/// One entry of a directory listing.
pub struct DirItem {
    pub name: String,
    pub is_dir: bool,
}

/// `p` without its trailing slashes.
pub open spec fn trim_slashes(p: Seq<char>) -> Seq<char>
    decreases p.len(),
{
    if p.len() > 0 && p.last() == '/' { trim_slashes(p.drop_last()) } else { p }
}

/// The characters of `p` after its last slash.
pub open spec fn after_slash(p: Seq<char>) -> Seq<char>
    decreases p.len(),
{
    if p.len() == 0 || p.last() == '/' { seq![] } else { after_slash(p.drop_last()).push(p.last()) }
}

/// The last component of a path.
pub open spec fn last_component(p: Seq<char>) -> Seq<char> {
    after_slash(trim_slashes(p))
}

/// The path of `name` inside the directory `dir`.
pub open spec fn join_path(dir: Seq<char>, name: Seq<char>) -> Seq<char> {
    if dir.len() == 0 {
        name
    } else if dir.last() == '/' {
        dir + name
    } else {
        dir + seq!['/'] + name
    }
}

/// Whether `e` is the entry that the listing item `(name, is_dir)` of the directory `dir` becomes.
pub open spec fn listed_entry(e: MenuEntry, dir: Seq<char>, name: Seq<char>, is_dir: bool) -> bool {
    &&& e.0@ == name
    &&& if is_dir {
        e.1 matches AnyView::File(f) && f.path@ == join_path(dir, name) && f.menu.entries@.len() == 0
            && !f.menu.active
    } else {
        e.1 matches AnyView::Text(t) && t.text@ == name && t.offset == 0
    }
}

/// Whether `m` is the menu that `listing` of the directory `dir` fills: one
/// entry per item, in order, or a single entry that shows why the directory
/// could not be read; the first entry selected and none open.
pub open spec fn filled_from(dir: Seq<char>, m: MenuView, listing: Result<Vec<DirItem>, String>) -> bool {
    &&& m.selected == 0
    &&& m.first_visible_item == 0
    &&& !m.active
    &&& match listing {
        Ok(items) => {
            &&& m.entries@.len() == items@.len()
            &&& forall|i: int| 0 <= i < items@.len() ==> listed_entry(
                #[trigger] m.entries@[i],
                dir,
                items@[i].name@,
                items@[i].is_dir,
            )
        },
        Err(msg) => {
            &&& m.entries@.len() == 1
            &&& listed_entry(m.entries@[0], dir, msg@, false)
        },
    }
}

/// A directory browser: a menu filled from a listing of its directory each
/// time it is opened.
pub struct FileView {
    pub path: Vec<char>,
    pub menu: MenuView,
}

impl FileView {
    /// Create a new file view from a path.
    pub fn new(dir: &str) -> (r: FileView)
        ensures
            r.path@ == dir@,
            r.menu.wf(),
            r.menu.entries@.len() == 0,
            !r.menu.active,
    {
        FileView { path: chars_of(dir), menu: MenuView::new() }
    }

    /// Create a file view from a path given as characters.
    pub fn from_path(path: Vec<char>) -> (r: FileView)
        ensures
            r.path@ == path@,
            r.menu.wf(),
            r.menu.entries@.len() == 0,
            !r.menu.active,
    {
        FileView { path, menu: MenuView::new() }
    }

    /// The last component of the path.
    pub fn get_name(&self) -> (r: String)
        ensures
            r@ == last_component(self.path@),
    {
        let mut end: usize = self.path.len();
        assert(self.path@.subrange(0, end as int) =~= self.path@);
        while end > 0 && self.path[end - 1] == '/'
            invariant
                end <= self.path@.len(),
                trim_slashes(self.path@) == trim_slashes(self.path@.subrange(0, end as int)),
            decreases end,
        {
            assert(self.path@.subrange(0, end - 1) =~= self.path@.subrange(0, end as int).drop_last());
            end = end - 1;
        }
        let ghost q = self.path@.subrange(0, end as int);
        assert(trim_slashes(q) == q);
        let mut start: usize = end;
        while start > 0 && self.path[start - 1] != '/'
            invariant
                start <= end <= self.path@.len(),
                q == self.path@.subrange(0, end as int),
                after_slash(q) == after_slash(self.path@.subrange(0, start as int)) + self.path@.subrange(start as int, end as int),
            decreases start,
        {
            let ghost p = self.path@.subrange(0, start as int);
            assert(self.path@.subrange(0, start - 1) =~= p.drop_last());
            assert(self.path@.subrange(start - 1, end as int) =~= seq![p.last()] + self.path@.subrange(start as int, end as int));
            assert(after_slash(p) == after_slash(p.drop_last()).push(p.last()));
            assert(after_slash(p.drop_last()).push(p.last()) + self.path@.subrange(start as int, end as int)
                =~= after_slash(p.drop_last()) + self.path@.subrange(start - 1, end as int));
            start = start - 1;
        }
        assert(after_slash(self.path@.subrange(0, start as int)) =~= seq![]);
        let mut name: Vec<char> = Vec::new();
        let mut k: usize = start;
        while k < end
            invariant
                start <= k <= end <= self.path@.len(),
                name@ == self.path@.subrange(start as int, k as int),
            decreases end - k,
        {
            name.push(self.path[k]);
            k = k + 1;
            assert(name@ =~= self.path@.subrange(start as int, k as int));
        }
        assert(name@ =~= after_slash(q));
        string_of(&name)
    }

    /// Names the menu after the directory and asks for the directory's listing.
    pub fn activate(&mut self) -> (r: ReturnState)
        requires
            old(self).menu.wf(),
        ensures
            final(self).menu.wf(),
            final(self).path@ == old(self).path@,
            final(self).menu.entries@ == old(self).menu.entries@,
            final(self).menu.pos() == old(self).menu.pos(),
            final(self).menu.active == old(self).menu.active,
            final(self).menu.name matches Some(n) && n@ == last_component(old(self).path@),
            r matches Some(ReturnStateEnum::ListDir(p)) && p@ == old(self).path@,
    {
        let name = self.get_name();
        self.menu.name = Some(name);
        Some(ReturnStateEnum::ListDir(string_of(&self.path)))
    }

    /// Rebuilds the menu from a listing taken now: a subdirectory becomes a
    /// file view of the joined path, any other item a text view of its name.
    /// A listing that could not be read becomes a single entry that shows why.
    pub fn fill(&mut self, listing: Result<Vec<DirItem>, String>)
        ensures
            final(self).menu.wf(),
            final(self).path@ == old(self).path@,
            final(self).menu.name == old(self).menu.name,
            filled_from(old(self).path@, final(self).menu, listing),
    {
        let mut entries: Vec<MenuEntry> = Vec::new();
        match listing {
            Ok(items) => {
                let mut i: usize = 0;
                while i < items.len()
                    invariant
                        i <= items@.len(),
                        entries@.len() == i,
                        forall|k: int| 0 <= k < i ==> listed_entry(
                            #[trigger] entries@[k],
                            self.path@,
                            items@[k].name@,
                            items@[k].is_dir,
                        ),
                        forall|k: int| 0 <= k < i ==> (#[trigger] entries@[k]).1.wf(),
                    decreases items@.len() - i,
                {
                    let item = &items[i];
                    let name = chars_of(item.name.as_str());
                    let view = if item.is_dir {
                        let child = join(&self.path, &name);
                        AnyView::File(FileView::from_path(child))
                    } else {
                        AnyView::Text(TextView::new(item.name.as_str()))
                    };
                    let label = item.name.clone();
                    entries.push((label, view));
                    i = i + 1;
                }
            },
            Err(msg) => {
                let view = AnyView::Text(TextView::new(msg.as_str()));
                entries.push((msg, view));
            },
        }
        self.menu.set_entries(entries);
    }
}

/// The path of `name` inside `dir`.
pub fn join(dir: &Vec<char>, name: &Vec<char>) -> (r: Vec<char>)
    ensures
        r@ == join_path(dir@, name@),
{
    let mut r: Vec<char> = Vec::new();
    let mut i: usize = 0;
    while i < dir.len()
        invariant
            i <= dir@.len(),
            r@ == dir@.subrange(0, i as int),
        decreases dir@.len() - i,
    {
        r.push(dir[i]);
        i = i + 1;
        assert(r@ =~= dir@.subrange(0, i as int));
    }
    assert(dir@.subrange(0, i as int) =~= dir@);
    if dir.len() > 0 && dir[dir.len() - 1] != '/' {
        r.push('/');
    }
    let ghost base = r@;
    let mut j: usize = 0;
    while j < name.len()
        invariant
            j <= name@.len(),
            r@ == base + name@.subrange(0, j as int),
        decreases name@.len() - j,
    {
        r.push(name[j]);
        j = j + 1;
        assert(r@ =~= base + name@.subrange(0, j as int));
    }
    assert(name@.subrange(0, j as int) =~= name@);
    r
}

} // verus!
