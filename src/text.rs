use vstd::prelude::*;
use crate::buttons::ButtonSet;
use crate::chars::{chars_of, is_space, space, string_of};
use crate::draw::{DrawCmd, is_rect, is_text};
use crate::view::{ReturnState, ReturnStateEnum};

verus! {

/// Most columns a wrapped line holds, unless a single word is wider.
pub const LINE_WIDTH: usize = 20;
/// Height of one text line, in pixel rows.
pub const LINE_HEIGHT: u64 = 9;
/// Blank rows added below the text.
pub const PADDING: u64 = 1;
/// Height of the screen, in pixel rows, that the text may fill.
pub const VIEWPORT_HEIGHT: u64 = 60;
/// Scroll step on the first press of Up or Down.
pub const SCROLL_AMOUNT: u64 = 7;
/// Scroll step while Up or Down is held.
pub const SCROLL_AMOUNT_HOLD: u64 = 4;

/// The words found so far in `s`, and the word being read at its end.
pub open spec fn split_state(s: Seq<char>) -> (Seq<Seq<char>>, Seq<char>)
    decreases s.len(),
{
    if s.len() == 0 {
        (seq![], seq![])
    } else {
        let (done, cur) = split_state(s.drop_last());
        if is_space(s.last()) {
            if cur.len() > 0 { (done.push(cur), seq![]) } else { (done, cur) }
        } else {
            (done, cur.push(s.last()))
        }
    }
}

/// The maximal runs of non-whitespace characters of `s`, in order.
pub open spec fn words(s: Seq<char>) -> Seq<Seq<char>> {
    let (done, cur) = split_state(s);
    if cur.len() > 0 { done.push(cur) } else { done }
}

/// Greedy filling of `ws`: the finished lines and the line being filled.
/// A word joins the line, after one space, while the line stays within
/// `LINE_WIDTH` columns; otherwise it starts the next line.
pub open spec fn wrap_state(ws: Seq<Seq<char>>) -> (Seq<Seq<char>>, Seq<char>)
    decreases ws.len(),
{
    if ws.len() == 0 {
        (seq![], seq![])
    } else {
        let (done, line) = wrap_state(ws.drop_last());
        let w = ws.last();
        if line.len() == 0 {
            (done, w)
        } else if line.len() + 1 + w.len() <= LINE_WIDTH {
            (done, line + seq![' '] + w)
        } else {
            (done.push(line), w)
        }
    }
}

/// The lines that `ws` fills, the last one included.
pub open spec fn wrap_lines(ws: Seq<Seq<char>>) -> Seq<Seq<char>> {
    let (done, line) = wrap_state(ws);
    done.push(line)
}

/// The wrapped lines of a text.
pub open spec fn text_lines(text: Seq<char>) -> Seq<Seq<char>> {
    wrap_lines(words(text))
}

/// The largest scroll offset for a text of `n` wrapped lines.
pub open spec fn max_offset_for(n: nat) -> nat {
    let full = n * LINE_HEIGHT + PADDING;
    if full <= VIEWPORT_HEIGHT {
        0
    } else if full - VIEWPORT_HEIGHT > u64::MAX {
        u64::MAX as nat
    } else {
        (full - VIEWPORT_HEIGHT) as nat
    }
}

/// The offset after one frame's scrolling presses.
pub open spec fn scrolled(offset: nat, max: nat, b: ButtonSet) -> nat {
    let up_step: nat = if b.up.hold { SCROLL_AMOUNT_HOLD as nat } else { SCROLL_AMOUNT as nat };
    let down_step: nat = if b.down.hold { SCROLL_AMOUNT_HOLD as nat } else { SCROLL_AMOUNT as nat };
    let o1: nat = if b.up.pressed { if offset >= up_step { (offset - up_step) as nat } else { 0 } } else { offset };
    let o2: nat = if b.down.pressed { if o1 + down_step <= max { o1 + down_step } else { max } } else { o1 };
    let o3: nat = if b.left.pressed { 0 } else { o2 };
    if b.right.pressed { max } else { o3 }
}

/// Whether line `i` is on screen at scroll offset `off`.
pub open spec fn line_visible(i: int, off: int) -> bool {
    -8 < 3 + 9 * i - off < 64
}

pub open spec fn seq_view(v: Seq<Vec<char>>) -> Seq<Seq<char>> {
    v.map_values(|l: Vec<char>| l@)
}

pub open spec fn string_view(v: Seq<String>) -> Seq<Seq<char>> {
    v.map_values(|l: String| l@)
}

/// Whether `cmds` draws, in order, exactly the lines of `t` that are on
/// screen at its offset, then the border.
pub open spec fn shows_text(t: TextView, cmds: Seq<DrawCmd>) -> bool {
            exists|idx: Seq<int>|
                #![trigger idx.len()]
                cmds.len() == idx.len() + 1
                && is_rect(cmds.last(), 0, 0, 127, 63, None)
                && (forall|k: int| 0 <= k < idx.len() ==> {
                    &&& 0 <= #[trigger] idx[k] < text_lines(t.text@).len()
                    &&& line_visible(idx[k], t.offset as int)
                    &&& is_text(cmds[k], text_lines(t.text@)[idx[k]], 3, 3 + 9 * idx[k] - t.offset, None, None)
                })
                && (forall|k: int, m: int| 0 <= k < m < idx.len() ==> idx[k] < idx[m])
                && (forall|i: int| 0 <= i < text_lines(t.text@).len() && line_visible(i, t.offset as int)
                    ==> idx.contains(i))
}

/// One frame of a text view: the offset scrolls as `scrolled` says, the text
/// stays, and B gives up.
pub open spec fn text_step(pre: TextView, post: TextView, b: ButtonSet, r: ReturnState) -> bool {
    &&& post.text@ == pre.text@
    &&& post.offset == scrolled(pre.offset as nat, max_offset_for(text_lines(pre.text@).len()), b)
    &&& b.b.pressed ==> (r matches Some(ReturnStateEnum::Pop))
    &&& !b.b.pressed ==> r is None
}

/// A word-wrapped block of text that scrolls vertically.
pub struct TextView {
    pub text: Vec<char>,
    pub offset: u64,
}

/// Splits `s` into its words.
pub fn split_words(s: &Vec<char>) -> (r: Vec<Vec<char>>)
    ensures
        seq_view(r@) == words(s@),
{
    let mut done: Vec<Vec<char>> = Vec::new();
    let mut cur: Vec<char> = Vec::new();
    let mut i: usize = 0;
    while i < s.len()
        invariant
            i <= s@.len(),
            (seq_view(done@), cur@) == split_state(s@.subrange(0, i as int)),
        decreases s@.len() - i,
    {
        let ghost pre = s@.subrange(0, i as int);
        assert(s@.subrange(0, i + 1).drop_last() =~= pre);
        let c = s[i];
        if space(c) {
            if cur.len() > 0 {
                let ghost d0 = done@;
                let w = cur;
                cur = Vec::new();
                done.push(w);
                assert(seq_view(done@) =~= seq_view(d0).push(w@));
            }
        } else {
            cur.push(c);
        }
        i = i + 1;
    }
    assert(s@.subrange(0, s@.len() as int) =~= s@);
    if cur.len() > 0 {
        let ghost d0 = done@;
        let ghost c0 = cur@;
        done.push(cur);
        assert(seq_view(done@) =~= seq_view(d0).push(c0));
    }
    done
}

/// Fills lines greedily from `ws`.
pub fn wrap_words(ws: &Vec<Vec<char>>) -> (r: Vec<Vec<char>>)
    ensures
        seq_view(r@) == wrap_lines(seq_view(ws@)),
{
    let mut done: Vec<Vec<char>> = Vec::new();
    let mut line: Vec<char> = Vec::new();
    let mut i: usize = 0;
    while i < ws.len()
        invariant
            i <= ws@.len(),
            (seq_view(done@), line@) == wrap_state(seq_view(ws@).subrange(0, i as int)),
        decreases ws@.len() - i,
    {
        let ghost pre = seq_view(ws@).subrange(0, i as int);
        assert(seq_view(ws@).subrange(0, i + 1).drop_last() =~= pre);
        let w = &ws[i];
        if line.len() == 0 {
            line = copy_chars(w);
        } else if line.len() < LINE_WIDTH && w.len() < LINE_WIDTH - line.len() {
            line.push(' ');
            append_chars(&mut line, w);
        } else {
            let ghost d0 = done@;
            let ghost l0 = line@;
            let finished = line;
            done.push(finished);
            assert(seq_view(done@) =~= seq_view(d0).push(l0));
            line = copy_chars(w);
        }
        i = i + 1;
        assert(seq_view(ws@).subrange(0, i as int).last() == w@);
    }
    assert(seq_view(ws@).subrange(0, ws@.len() as int) =~= seq_view(ws@));
    let ghost d0 = done@;
    let ghost l0 = line@;
    done.push(line);
    assert(seq_view(done@) =~= seq_view(d0).push(l0));
    done
}

fn copy_chars(w: &Vec<char>) -> (r: Vec<char>)
    ensures
        r@ == w@,
{
    let mut r: Vec<char> = Vec::new();
    append_chars(&mut r, w);
    assert(r@ =~= w@);
    r
}

fn append_chars(line: &mut Vec<char>, w: &Vec<char>)
    ensures
        final(line)@ == old(line)@ + w@,
{
    let mut j: usize = 0;
    while j < w.len()
        invariant
            j <= w@.len(),
            line@ == old(line)@ + w@.subrange(0, j as int),
        decreases w@.len() - j,
    {
        line.push(w[j]);
        j = j + 1;
        assert(line@ =~= old(line)@ + w@.subrange(0, j as int));
    }
    assert(w@.subrange(0, j as int) =~= w@);
}

impl TextView {
    /// The offset stays within the scroll range of the text.
    pub open spec fn wf(&self) -> bool {
        self.offset <= max_offset_for(text_lines(self.text@).len())
    }

    pub fn new(text: &str) -> (r: TextView)
        ensures
            r.wf(),
            r.text@ == text@,
            r.offset == 0,
    {
        TextView { text: chars_of(text), offset: 0 }
    }

    /// The wrapped lines as character vectors.
    pub fn line_chars(&self) -> (r: Vec<Vec<char>>)
        ensures
            seq_view(r@) == text_lines(self.text@),
    {
        let ws = split_words(&self.text);
        wrap_words(&ws)
    }

    /// Wraps the text: words are filled greedily onto lines and never split.
    pub fn get_lines(&self) -> (r: Vec<String>)
        ensures
            string_view(r@) == text_lines(self.text@),
    {
        let ls = self.line_chars();
        let mut r: Vec<String> = Vec::new();
        let mut i: usize = 0;
        while i < ls.len()
            invariant
                i <= ls@.len(),
                string_view(r@) == seq_view(ls@).subrange(0, i as int),
            decreases ls@.len() - i,
        {
            let ghost r0 = r@;
            let l = string_of(&ls[i]);
            r.push(l);
            assert(r@ == r0.push(l));
            assert(l@ == seq_view(ls@)[i as int]);
            assert(string_view(r@) =~= string_view(r0).push(l@));
            i = i + 1;
            assert(string_view(r@) =~= seq_view(ls@).subrange(0, i as int));
        }
        assert(seq_view(ls@).subrange(0, i as int) =~= seq_view(ls@));
        r
    }

    /// The largest scroll offset: the text's height beyond the screen, or zero.
    pub fn get_max_offset(&self) -> (r: u64)
        ensures
            r == max_offset_for(text_lines(self.text@).len()),
    {
        let n = self.line_chars().len() as u128;
        let full: u128 = n * 9 + 1;
        if full <= 60 {
            0
        } else if full - 60 > u64::MAX as u128 {
            u64::MAX
        } else {
            (full - 60) as u64
        }
    }

    /// Draws the lines that are on screen, then the border.
    pub fn render(&self) -> (r: Vec<DrawCmd>)
        ensures
            shows_text(*self, r@),
    {
        let ls = self.line_chars();
        let ghost lines = text_lines(self.text@);
        let mut r: Vec<DrawCmd> = Vec::new();
        let ghost mut idx: Seq<int> = seq![];
        let off = self.offset as u128;
        let mut i: usize = 0;
        while i < ls.len()
            invariant
                i <= ls@.len(),
                seq_view(ls@) == lines,
                off == self.offset,
                r@.len() == idx.len(),
                forall|k: int| 0 <= k < idx.len() ==> {
                    &&& 0 <= #[trigger] idx[k] < i
                    &&& line_visible(idx[k], self.offset as int)
                    &&& is_text(r@[k], lines[idx[k]], 3, 3 + 9 * idx[k] - self.offset, None, None)
                },
                forall|k: int, m: int| 0 <= k < m < idx.len() ==> idx[k] < idx[m],
                forall|j: int| 0 <= j < i && line_visible(j, self.offset as int) ==> idx.contains(j),
            decreases ls@.len() - i,
        {
            let top: u128 = 9 * (i as u128) + 3;
            if top + 8 > off && top < off + 64 {
                let y = (top as i128 - off as i128) as i32;
                let line = copy_chars(&ls[i]);
                assert(line@ == lines[i as int]);
                r.push(DrawCmd::Text { text: line, x: 3, y, stroke: None, fill: None });
                proof {
                    let ghost idx0 = idx;
                    idx = idx.push(i as int);
                    assert(idx.last() == i as int);
                    assert forall|j: int| 0 <= j < i + 1 && line_visible(j, self.offset as int) implies idx.contains(j) by {
                        if j == i {
                            assert(idx[idx.len() - 1] == j);
                        } else {
                            assert(idx0.contains(j));
                            let p = choose|p: int| 0 <= p < idx0.len() && idx0[p] == j;
                            assert(idx[p] == j);
                        }
                    }
                }
            } else {
                proof {
                    assert(!line_visible(i as int, self.offset as int));
                }
            }
            i = i + 1;
        }
        r.push(DrawCmd::Rect { x0: 0, y0: 0, x1: 127, y1: 63, fill: None });
        assert(r@.last() == (DrawCmd::Rect { x0: 0, y0: 0, x1: 127, y1: 63, fill: None }));
        assert(forall|k: int| 0 <= k < idx.len() ==> r@[k] == r@.drop_last()[k]);
        r
    }

    /// Handles one frame: Up and Down scroll by a step (a smaller one while
    /// held) within the range, Left and Right jump to its ends, B gives up.
    pub fn handle_buttons(&mut self, buttons: &ButtonSet) -> (r: ReturnState)
        requires
            old(self).wf(),
        ensures
            final(self).wf(),
            text_step(*old(self), *final(self), *buttons, r),
    {
        let max = self.get_max_offset();
        if buttons.up.was_pressed() {
            let step = if buttons.up.hold { SCROLL_AMOUNT_HOLD } else { SCROLL_AMOUNT };
            self.offset = if self.offset >= step { self.offset - step } else { 0 };
        }
        if buttons.down.was_pressed() {
            let step = if buttons.down.hold { SCROLL_AMOUNT_HOLD } else { SCROLL_AMOUNT };
            self.offset = if self.offset <= max && step <= max - self.offset { self.offset + step } else { max };
        }
        if buttons.left.was_pressed() {
            self.offset = 0;
        }
        if buttons.right.was_pressed() {
            self.offset = max;
        }
        if buttons.b.was_pressed() {
            return Some(ReturnStateEnum::Pop);
        }
        None
    }
}

/// The offset after the frames `bs`, in order.
pub open spec fn scroll_run(offset: nat, max: nat, bs: Seq<ButtonSet>) -> nat
    decreases bs.len(),
{
    if bs.len() == 0 {
        offset
    } else {
        scrolled(scroll_run(offset, max, bs.drop_last()), max, bs.last())
    }
}

/// After any sequence of Up, Down, Left and Right presses the offset stays
/// within `[0, max_offset]`, for any text, the empty one included.
pub proof fn lemma_scroll_bounded(text: Seq<char>, offset: nat, bs: Seq<ButtonSet>)
    requires
        offset <= max_offset_for(text_lines(text).len()),
    ensures
        scroll_run(offset, max_offset_for(text_lines(text).len()), bs) <= max_offset_for(text_lines(text).len()),
    decreases bs.len(),
{
    if bs.len() > 0 {
        lemma_scroll_bounded(text, offset, bs.drop_last());
    }
}

/// The line being filled is at most as wide as the bound, or it is a single
/// word that is wider; every finished line is one or the other too.
proof fn lemma_wrap_state_width(ws: Seq<Seq<char>>)
    ensures
        ({
            let (done, line) = wrap_state(ws);
            &&& line.len() <= LINE_WIDTH || ws.contains(line)
            &&& forall|i: int| 0 <= i < done.len() ==>
                (#[trigger] done[i]).len() <= LINE_WIDTH || ws.contains(done[i])
        }),
    decreases ws.len(),
{
    if ws.len() > 0 {
        let pre = ws.drop_last();
        lemma_wrap_state_width(pre);
        let (done, line) = wrap_state(pre);
        assert forall|x: Seq<char>| pre.contains(x) implies ws.contains(x) by {
            let j = choose|j: int| 0 <= j < pre.len() && pre[j] == x;
            assert(ws[j] == x);
        }
        assert(ws[ws.len() - 1] == ws.last());
        let (done2, line2) = wrap_state(ws);
        assert forall|i: int| 0 <= i < done2.len() implies
            (#[trigger] done2[i]).len() <= LINE_WIDTH || ws.contains(done2[i]) by {
            if i < done.len() {
                assert(done2[i] == done[i]);
            }
        }
    }
}

/// No wrapped line is wider than the column bound, except a single word that
/// is wider by itself, which stands unsplit as the whole line.
pub proof fn lemma_wrap_width(text: Seq<char>)
    ensures
        forall|i: int| 0 <= i < text_lines(text).len() ==>
            (#[trigger] text_lines(text)[i]).len() <= LINE_WIDTH || words(text).contains(text_lines(text)[i]),
{
    let ws = words(text);
    lemma_wrap_state_width(ws);
    let (done, line) = wrap_state(ws);
    assert forall|i: int| 0 <= i < text_lines(text).len() implies
        (#[trigger] text_lines(text)[i]).len() <= LINE_WIDTH || ws.contains(text_lines(text)[i]) by {
        if i < done.len() {
            assert(text_lines(text)[i] == done[i]);
        }
    }
}

/// A word wider than the bound is the line being filled, if it came last, or
/// a finished line of its own.
proof fn lemma_wrap_state_long_words(ws: Seq<Seq<char>>)
    ensures
        ({
            let (done, line) = wrap_state(ws);
            forall|j: int| 0 <= j < ws.len() && (#[trigger] ws[j]).len() > LINE_WIDTH ==>
                done.contains(ws[j]) || (j == ws.len() - 1 && line == ws[j])
        }),
    decreases ws.len(),
{
    if ws.len() > 0 {
        let pre = ws.drop_last();
        lemma_wrap_state_long_words(pre);
        let (done, line) = wrap_state(pre);
        let (done2, line2) = wrap_state(ws);
        assert forall|j: int| 0 <= j < ws.len() && (#[trigger] ws[j]).len() > LINE_WIDTH implies
            done2.contains(ws[j]) || (j == ws.len() - 1 && line2 == ws[j]) by {
            if j < ws.len() - 1 {
                assert(pre[j] == ws[j]);
                if done.contains(ws[j]) {
                    let p = choose|p: int| 0 <= p < done.len() && done[p] == ws[j];
                    assert(done2[p] == ws[j]);
                } else {
                    assert(done2[done.len() as int] == ws[j]);
                }
            }
        }
    }
}

/// Every word wider than the bound stands whole as a line of its own.
pub proof fn lemma_long_words_unsplit(text: Seq<char>)
    ensures
        forall|j: int| 0 <= j < words(text).len() && (#[trigger] words(text)[j]).len() > LINE_WIDTH
            ==> text_lines(text).contains(words(text)[j]),
{
    let ws = words(text);
    lemma_wrap_state_long_words(ws);
    let (done, line) = wrap_state(ws);
    assert forall|j: int| 0 <= j < ws.len() && (#[trigger] ws[j]).len() > LINE_WIDTH implies
        text_lines(text).contains(ws[j]) by {
        if done.contains(ws[j]) {
            let p = choose|p: int| 0 <= p < done.len() && done[p] == ws[j];
            assert(text_lines(text)[p] == ws[j]);
        } else {
            assert(text_lines(text)[done.len() as int] == ws[j]);
        }
    }
}

/// The words of each line in turn.
pub open spec fn line_words(ls: Seq<Seq<char>>) -> Seq<Seq<char>>
    decreases ls.len(),
{
    if ls.len() == 0 {
        seq![]
    } else {
        line_words(ls.drop_last()) + words(ls.last())
    }
}

pub open spec fn spaceless(w: Seq<char>) -> bool {
    forall|k: int| 0 <= k < w.len() ==> !is_space(#[trigger] w[k])
}

/// Reading characters without whitespace extends the word being read.
proof fn lemma_split_spaceless(s: Seq<char>, t: Seq<char>)
    requires
        spaceless(t),
    ensures
        split_state(s + t) == (split_state(s).0, split_state(s).1 + t),
    decreases t.len(),
{
    if t.len() == 0 {
        assert(s + t =~= s);
        assert(split_state(s).1 + t =~= split_state(s).1);
    } else {
        let t0 = t.drop_last();
        assert(spaceless(t0));
        lemma_split_spaceless(s, t0);
        assert((s + t).drop_last() =~= s + t0);
        assert((s + t).last() == t.last());
        assert(!is_space(t[t.len() - 1]));
        assert(split_state(s).1 + t0 + seq![t.last()] =~= split_state(s).1 + t);
    }
}

/// Every word is non-empty and holds no whitespace.
proof fn lemma_words_shape(s: Seq<char>)
    ensures
        spaceless(split_state(s).1),
        forall|j: int| 0 <= j < split_state(s).0.len() ==>
            (#[trigger] split_state(s).0[j]).len() > 0 && spaceless(split_state(s).0[j]),
        forall|j: int| 0 <= j < words(s).len() ==>
            (#[trigger] words(s)[j]).len() > 0 && spaceless(words(s)[j]),
    decreases s.len(),
{
    if s.len() > 0 {
        lemma_words_shape(s.drop_last());
        let (d, c) = split_state(s.drop_last());
        if !is_space(s.last()) {
            assert forall|k: int| 0 <= k < c.push(s.last()).len() implies !is_space(#[trigger] c.push(s.last())[k]) by {
                if k < c.len() {
                    assert(c.push(s.last())[k] == c[k]);
                }
            }
        }
    }
}

/// The words of a non-empty word without whitespace are that word alone.
proof fn lemma_words_of_word(w: Seq<char>)
    requires
        w.len() > 0,
        spaceless(w),
    ensures
        words(w) == seq![w],
{
    lemma_split_spaceless(seq![], w);
    assert(seq![] + w =~= w);
    assert(split_state(Seq::<char>::empty()) == (Seq::<Seq<char>>::empty(), Seq::<char>::empty()));
    assert(Seq::<char>::empty() + w =~= w);
    assert(Seq::<Seq<char>>::empty().push(w) =~= seq![w]);
}

/// Joining a line and a word with one space adds that word to the line's words.
proof fn lemma_words_join(line: Seq<char>, w: Seq<char>)
    requires
        w.len() > 0,
        spaceless(w),
    ensures
        words(line + seq![' '] + w) == words(line).push(w),
{
    let l1 = line + seq![' '];
    assert(l1.drop_last() =~= line);
    assert(l1.last() == ' ');
    lemma_split_spaceless(l1, w);
    assert(split_state(l1).1 == Seq::<char>::empty());
    assert(Seq::<char>::empty() + w =~= w);
}

/// The finished lines and the line being filled hold exactly the words read so far.
proof fn lemma_wrap_state_words(ws: Seq<Seq<char>>)
    requires
        forall|j: int| 0 <= j < ws.len() ==> (#[trigger] ws[j]).len() > 0 && spaceless(ws[j]),
    ensures
        line_words(wrap_state(ws).0.push(wrap_state(ws).1)) == ws,
    decreases ws.len(),
{
    if ws.len() == 0 {
        let e = Seq::<Seq<char>>::empty().push(Seq::<char>::empty());
        assert(e.drop_last() =~= Seq::<Seq<char>>::empty());
        assert(split_state(Seq::<char>::empty()) == (Seq::<Seq<char>>::empty(), Seq::<char>::empty()));
        assert(e.last() == Seq::<char>::empty());
        assert(words(Seq::<char>::empty()) =~= Seq::<Seq<char>>::empty());
        assert(line_words(Seq::<Seq<char>>::empty()) == Seq::<Seq<char>>::empty());
        assert(line_words(e) =~= ws);
    } else {
        let pre = ws.drop_last();
        let w = ws.last();
        assert(w == ws[ws.len() - 1]);
        assert forall|j: int| 0 <= j < pre.len() implies (#[trigger] pre[j]).len() > 0 && spaceless(pre[j]) by {
            assert(pre[j] == ws[j]);
        }
        lemma_wrap_state_words(pre);
        let (done, line) = wrap_state(pre);
        lemma_words_of_word(w);
        assert(done.push(line).drop_last() =~= done);
        if line.len() == 0 {
            assert(split_state(line) == (Seq::<Seq<char>>::empty(), Seq::<char>::empty()));
            assert(done.push(w).drop_last() =~= done);
            assert(line_words(done.push(w)) =~= ws);
        } else if line.len() + 1 + w.len() <= LINE_WIDTH {
            lemma_words_join(line, w);
            let l2 = line + seq![' '] + w;
            assert(done.push(l2).drop_last() =~= done);
            assert(done.push(l2).last() == l2);
            assert(done.push(line).last() == line);
            assert(line_words(done.push(line)) == line_words(done) + words(line));
            assert(line_words(done.push(l2)) == line_words(done) + words(line).push(w));
            assert(ws =~= pre.push(w));
            assert(line_words(done.push(l2)) =~= ws);
        } else {
            let d2 = done.push(line);
            assert(d2.push(w).drop_last() =~= d2);
            assert(line_words(d2.push(w)) =~= ws);
        }
    }
}

/// The wrapped lines hold exactly the words of the text, in order: wrapping
/// neither loses, splits, joins nor reorders a word.
pub proof fn lemma_wrap_keeps_words(text: Seq<char>)
    ensures
        line_words(text_lines(text)) == words(text),
{
    lemma_words_shape(text);
    lemma_wrap_state_words(words(text));
}

/// Wrapping depends on the text alone: wrapping equal texts, or one text
/// twice, gives the same lines.
pub proof fn lemma_wrap_deterministic(a: Seq<char>, b: Seq<char>)
    requires
        a == b,
    ensures
        text_lines(a) == text_lines(b),
{
}

} // verus!
