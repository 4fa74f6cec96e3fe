use vstd::prelude::*;
use crate::buttons::ButtonSet;
use crate::chars::{case_mapped, chars_of, map_case};
use crate::draw::{DrawCmd, is_line, is_rect, is_text};
use crate::input_tree::{
    emitted, is_final, next_group, pressed_direction, tree_cmds, Group, InputTree,
};
use crate::view::{ReturnState, ReturnStateEnum};

verus! {

/// Whether the widget moves a cursor over its text or picks a character.
#[derive(Clone, Copy, Debug, PartialEq, Eq, Structural)]
pub enum TextInputMode {
    Viewing,
    Entering,
}

/// Most cells the text can hold: the x coordinate of every cell, and of the
/// cursor under it, fits in an `i32`.
pub const MAX_CELLS: usize = 357_913_941;

/// `text` with the cell at `i` replaced by `rep`.
pub open spec fn splice(text: Seq<char>, i: int, rep: Seq<char>) -> Seq<char> {
    text.subrange(0, i) + rep + text.subrange(i + 1, text.len() as int)
}

/// `text` with a space appended unless it already ends with one.
pub open spec fn with_trailing_space(text: Seq<char>) -> Seq<char> {
    if text.len() > 0 && text.last() == ' ' {
        text
    } else {
        text.push(' ')
    }
}

/// The cursor after a press of Left in viewing mode.
pub open spec fn cursor_left(cur: nat, pressed: bool) -> nat {
    if pressed && cur > 0 { (cur - 1) as nat } else { cur }
}

/// An editable line of text with a cursor and a directional character picker.
pub struct TextInputView {
    pub text: Vec<char>,
    pub input_tree: InputTree,
    pub mode: TextInputMode,
    pub selected_char: usize,
}

/// Whether `cmds` draws the frame, every character of `text` in its cell,
/// and the cursor under cell `cur`.
pub open spec fn text_cmds(text: Seq<char>, cur: int, cmds: Seq<DrawCmd>) -> bool {
    let n = text.len() as int;
    &&& cmds.len() == n + 2
    &&& is_rect(cmds[0], 0, 50, 127, 63, None)
    &&& forall|i: int| 0 <= i < n ==> is_text(#[trigger] cmds[1 + i], seq![text[i]], 3 + 6 * i, 53, Some(true), None)
    &&& is_line(cmds[n + 1], 2 + 6 * cur, 61, 8 + 6 * cur, 61)
}

/// Whether `cmds` draws the text row of `v`, then its picker while one is being chosen.
pub open spec fn shows_text_input(v: TextInputView, cmds: Seq<DrawCmd>) -> bool {
    exists|k: int|
        0 <= k <= cmds.len()
        && text_cmds(v.text@, v.selected_char as int, #[trigger] cmds.subrange(0, k))
        && if v.mode == TextInputMode::Entering {
            tree_cmds(v.input_tree, cmds.subrange(k, cmds.len() as int))
        } else {
            k == cmds.len()
        }
}

/// One frame of the widget. While viewing: B gives up, A starts picking a
/// character, Left and Right move the cursor, growing the text by a space at
/// its end. While picking: the picker gets the buttons; a chosen character
/// replaces the one under the cursor, and giving up leaves the text as it was.
pub open spec fn text_input_step(pre: TextInputView, post: TextInputView, b: ButtonSet, r: ReturnState) -> bool {
    &&& pre.mode == TextInputMode::Viewing ==> {
        if b.b.pressed {
            (r matches Some(ReturnStateEnum::Pop)) && post.text@ == pre.text@
                && post.selected_char == pre.selected_char
                && post.mode == TextInputMode::Viewing
                && post.input_tree == pre.input_tree
        } else {
            let c1 = cursor_left(pre.selected_char as nat, b.left.pressed);
            let right = b.right.pressed && c1 + 2 < MAX_CELLS;
            let grow = right && c1 == pre.text@.len() - 1;
            &&& r is None
            &&& post.text@ == if grow { pre.text@.push(' ') } else { pre.text@ }
            &&& post.selected_char == if right { c1 + 1 } else { c1 + 0 }
            &&& post.mode == if b.a.pressed { TextInputMode::Entering } else { TextInputMode::Viewing }
            &&& post.input_tree.caps == pre.input_tree.caps
            &&& post.input_tree.group == if b.a.pressed { Group::Root } else { pre.input_tree.group }
        }
    }
    &&& pre.mode == TextInputMode::Entering ==> {
        &&& r is None
        &&& post.selected_char == pre.selected_char
        &&& if b.b.pressed {
            post.mode == TextInputMode::Viewing && post.text@ == pre.text@
                && post.input_tree == pre.input_tree
        } else {
            let caps = pre.input_tree.caps != b.c.pressed;
            &&& post.input_tree.caps == caps
            &&& match pressed_direction(b) {
                None => post.mode == TextInputMode::Entering
                    && post.text@ == pre.text@
                    && post.input_tree.group == pre.input_tree.group,
                Some(d) => {
                    let g = next_group(pre.input_tree.group, d);
                    &&& post.input_tree.group == g
                    &&& if is_final(g) {
                        post.mode == TextInputMode::Viewing
                            && post.text@ == with_trailing_space(splice(
                                pre.text@,
                                pre.selected_char as int,
                                case_mapped(emitted(g), caps),
                            ))
                    } else {
                        post.mode == TextInputMode::Entering
                            && post.text@ == pre.text@
                    }
                },
            }
        }
    }
}

impl TextInputView {
    /// The text always ends with a space, the cursor stays on the text, and
    /// both stay within `MAX_CELLS`, the cursor one cell short of its end.
    pub open spec fn wf(&self) -> bool {
        &&& self.text@.len() >= 1
        &&& self.text@.last() == ' '
        &&& self.selected_char < self.text@.len()
        &&& self.text@.len() <= MAX_CELLS
        &&& self.selected_char + 2 <= MAX_CELLS
    }

    pub fn new() -> (r: TextInputView)
        ensures
            r.wf(),
            r.text@ == seq![' '],
            r.selected_char == 0,
            r.mode == TextInputMode::Viewing,
            r.input_tree.group == Group::Root,
            r.input_tree.caps,
    {
        let text = vec![' '];
        assert(text@ =~= seq![' ']);
        TextInputView { text, input_tree: InputTree::new(), mode: TextInputMode::Viewing, selected_char: 0 }
    }

    /// Draws the frame of the text row, every character and the cursor.
    pub fn render_text(&self) -> (r: Vec<DrawCmd>)
        requires
            self.wf(),
        ensures
            text_cmds(self.text@, self.selected_char as int, r@),
    {
        let mut r: Vec<DrawCmd> = Vec::new();
        r.push(DrawCmd::Rect { x0: 0, y0: 50, x1: 127, y1: 63, fill: None });
        let n: usize = self.text.len();
        let mut i: usize = 0;
        while i < n
            invariant
                self.wf(),
                n == self.text@.len(),
                i <= n,
                r@.len() == i + 1,
                is_rect(r@[0], 0, 50, 127, 63, None),
                forall|k: int| 0 <= k < i ==> is_text(#[trigger] r@[1 + k], seq![self.text@[k]], 3 + 6 * k, 53, Some(true), None),
            decreases n - i,
        {
            let one = vec![self.text[i]];
            assert(one@ =~= seq![self.text@[i as int]]);
            let x = 3 + 6 * (i as i32);
            r.push(DrawCmd::Text { text: one, x, y: 53, stroke: Some(true), fill: None });
            i = i + 1;
        }
        let c = self.selected_char as i32;
        r.push(DrawCmd::Line { x0: 2 + 6 * c, y0: 61, x1: 8 + 6 * c, y1: 61 });
        r
    }

    /// Draws the text row, and the character picker while one is being chosen.
    pub fn render(&self) -> (r: Vec<DrawCmd>)
        requires
            self.wf(),
        ensures
            shows_text_input(*self, r@),
    {
        let mut r = self.render_text();
        let ghost k = r@.len() as int;
        let ghost r0 = r@;
        if self.mode == TextInputMode::Entering {
            let mut t = self.input_tree.render();
            let ghost t0 = t@;
            r.append(&mut t);
            assert(r@.subrange(0, k) =~= r0);
            assert(r@.subrange(k, r@.len() as int) =~= t0);
        } else {
            assert(r@.subrange(0, k) =~= r0);
        }
        r
    }

    /// Handles one frame. While viewing: B gives up, A starts picking a
    /// character, Left and Right move the cursor, growing the text by a space
    /// at its end. While picking: the picker gets the buttons; a chosen
    /// character replaces the one under the cursor, and giving up leaves the
    /// text as it was.
    pub fn handle_buttons(&mut self, buttons: &ButtonSet) -> (r: ReturnState)
        requires
            old(self).wf(),
        ensures
            final(self).wf(),
            text_input_step(*old(self), *final(self), *buttons, r),
    {
        match self.mode {
            TextInputMode::Viewing => {
                if buttons.b.was_pressed() {
                    return Some(ReturnStateEnum::Pop);
                }
                if buttons.a.was_pressed() {
                    self.input_tree.reset();
                    self.mode = TextInputMode::Entering;
                }
                if buttons.left.was_pressed() {
                    if self.selected_char > 0 {
                        self.selected_char = self.selected_char - 1;
                    }
                }
                if buttons.right.was_pressed() && self.selected_char + 2 < MAX_CELLS {
                    if self.selected_char == self.text.len() - 1 {
                        self.text.push(' ');
                    }
                    self.selected_char = self.selected_char + 1;
                }
                None
            },
            TextInputMode::Entering => {
                match self.input_tree.handle_buttons(buttons) {
                    Some(ReturnStateEnum::Text(t)) => {
                        self.mode = TextInputMode::Viewing;
                        let rep = map_case(&chars_of(t.as_str()), self.input_tree.caps);
                        let mut out = replace_at(&self.text, self.selected_char, &rep);
                        if out[out.len() - 1] != ' ' {
                            out.push(' ');
                        }
                        proof {
                            assert(out@.len() >= 1 && out@.last() == ' ');
                        }
                        self.text = out;
                        None
                    },
                    Some(_) => {
                        self.mode = TextInputMode::Viewing;
                        None
                    },
                    None => None,
                }
            },
        }
    }
}

/// `text` with the cell at `i` replaced by the characters of `rep`.
pub fn replace_at(text: &Vec<char>, i: usize, rep: &Vec<char>) -> (r: Vec<char>)
    requires
        i < text@.len(),
    ensures
        r@ == splice(text@, i as int, rep@),
{
    let mut r: Vec<char> = Vec::new();
    let mut k: usize = 0;
    while k < text.len()
        invariant
            i < text@.len(),
            k <= text@.len(),
            r@ == if k <= i {
                text@.subrange(0, k as int)
            } else {
                text@.subrange(0, i as int) + rep@ + text@.subrange(i + 1, k as int)
            },
        decreases text@.len() - k,
    {
        if k == i {
            let mut j: usize = 0;
            while j < rep.len()
                invariant
                    k == i,
                    j <= rep@.len(),
                    r@ == text@.subrange(0, i as int) + rep@.subrange(0, j as int),
                decreases rep@.len() - j,
            {
                r.push(rep[j]);
                j = j + 1;
                assert(r@ =~= text@.subrange(0, i as int) + rep@.subrange(0, j as int));
            }
            assert(rep@.subrange(0, j as int) =~= rep@);
            assert(r@ =~= text@.subrange(0, i as int) + rep@ + text@.subrange(i + 1, k + 1));
        } else {
            r.push(text[k]);
            if k < i {
                assert(r@ =~= text@.subrange(0, k + 1));
            } else {
                assert(r@ =~= text@.subrange(0, i as int) + rep@ + text@.subrange(i + 1, k + 1));
            }
        }
        k = k + 1;
    }
    r
}

} // verus!
