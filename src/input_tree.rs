use vstd::prelude::*;
use crate::buttons::ButtonSet;
use crate::chars::{case_mapped, map_case, string_of};
use crate::draw::{DrawCmd, is_line, is_text};
use crate::view::{ReturnState, ReturnStateEnum};

verus! {

/// A direction on the four-way pad.
#[derive(Clone, Copy, Debug, PartialEq, Eq, Structural)]
pub enum Direction {
    Up,
    Down,
    Left,
    Right,
}

/// A node of the fixed character-selection tree. `Root` is the empty group:
/// the start, and where a direction with no child leads.
#[derive(Clone, Copy, Debug, PartialEq, Eq, Structural)]
pub enum Group {
    Root,
    Letters,
    LettersAM,
    LettersNZ,
    Bcde,
    Fghi,
    Jklm,
    Opqr,
    Stuv,
    Wxyz,
    Digits,
    Digits0123,
    Digits4567,
    Punct,
    Stops,
    Joins,
    Marks,
    Signs,
    Extra,
    Brackets,
    Angles,
    Quotes,
    Slashes,
    /// A single character: the selection is final.
    Leaf(char),
}

/// The child reached by `d` when the four children are given in the order up, right, down, left.
pub open spec fn pick(d: Direction, up: Group, right: Group, down: Group, left: Group) -> Group {
    match d {
        Direction::Up => up,
        Direction::Right => right,
        Direction::Down => down,
        Direction::Left => left,
    }
}

/// A group of four characters: left, down, up, right select them in that order.
pub open spec fn quad(d: Direction, l: char, dn: char, u: char, r: char) -> Group {
    pick(d, Group::Leaf(u), Group::Leaf(r), Group::Leaf(dn), Group::Leaf(l))
}

/// The transition of the character tree.
pub open spec fn next_group(g: Group, d: Direction) -> Group {
    match g {
        Group::Root => pick(d, Group::Letters, Group::Digits, Group::Punct, Group::Extra),
        Group::Letters => pick(d, Group::LettersAM, Group::Root, Group::LettersNZ, Group::Root),
        Group::LettersAM => pick(d, Group::Bcde, Group::Fghi, Group::Jklm, Group::Leaf('A')),
        Group::LettersNZ => pick(d, Group::Opqr, Group::Stuv, Group::Wxyz, Group::Leaf('N')),
        Group::Bcde => quad(d, 'B', 'C', 'D', 'E'),
        Group::Fghi => quad(d, 'F', 'G', 'H', 'I'),
        Group::Jklm => quad(d, 'J', 'K', 'L', 'M'),
        Group::Opqr => quad(d, 'O', 'P', 'Q', 'R'),
        Group::Stuv => quad(d, 'S', 'T', 'U', 'V'),
        Group::Wxyz => quad(d, 'W', 'X', 'Y', 'Z'),
        Group::Digits => pick(d, Group::Digits0123, Group::Digits4567, Group::Leaf('8'), Group::Leaf('9')),
        Group::Digits0123 => quad(d, '0', '1', '2', '3'),
        Group::Digits4567 => quad(d, '4', '5', '6', '7'),
        Group::Punct => pick(d, Group::Stops, Group::Joins, Group::Marks, Group::Signs),
        Group::Stops => quad(d, '.', ',', '!', '?'),
        Group::Joins => quad(d, ':', ';', '-', '_'),
        Group::Marks => quad(d, '#', '@', '$', '%'),
        Group::Signs => quad(d, '&', '^', '*', '~'),
        Group::Extra => pick(d, Group::Brackets, Group::Angles, Group::Quotes, Group::Slashes),
        Group::Brackets => quad(d, '(', ')', '[', ']'),
        Group::Angles => quad(d, '<', '>', '{', '}'),
        Group::Quotes => quad(d, '"', '\'', '`', '|'),
        Group::Slashes => quad(d, '/', '\\', '+', '='),
        Group::Leaf(_) => Group::Root,
    }
}

/// The text shown for a group.
pub open spec fn label(g: Group) -> Seq<char> {
    match g {
        Group::Root => seq![],
        Group::Letters => seq!['A', '.', '.', 'Z'],
        Group::LettersAM => seq!['A', '.', '.', 'M'],
        Group::LettersNZ => seq!['N', '.', '.', 'Z'],
        Group::Bcde => seq!['B', 'C', 'D', 'E'],
        Group::Fghi => seq!['F', 'G', 'H', 'I'],
        Group::Jklm => seq!['J', 'K', 'L', 'M'],
        Group::Opqr => seq!['O', 'P', 'Q', 'R'],
        Group::Stuv => seq!['S', 'T', 'U', 'V'],
        Group::Wxyz => seq!['W', 'X', 'Y', 'Z'],
        Group::Digits => seq!['0', '.', '.', '9'],
        Group::Digits0123 => seq!['0', '1', '2', '3'],
        Group::Digits4567 => seq!['4', '5', '6', '7'],
        Group::Punct => seq!['P', 'U', 'N', 'C'],
        Group::Stops => seq!['.', ',', '!', '?'],
        Group::Joins => seq![':', ';', '-', '_'],
        Group::Marks => seq!['#', '@', '$', '%'],
        Group::Signs => seq!['&', '^', '*', '~'],
        Group::Extra => seq!['E', 'X', 'T', 'R'],
        Group::Brackets => seq!['(', ')', '[', ']'],
        Group::Angles => seq!['<', '>', '{', '}'],
        Group::Quotes => seq!['"', '\'', '`', '|'],
        Group::Slashes => seq!['/', '\\', '+', '='],
        Group::Leaf(c) => seq![c],
    }
}

/// The group reached from the root by following `ds` in order.
pub open spec fn follow(ds: Seq<Direction>) -> Group
    decreases ds.len(),
{
    if ds.len() == 0 {
        Group::Root
    } else {
        next_group(follow(ds.drop_last()), ds.last())
    }
}

/// The direction a snapshot selects: left, then right, then up, then down take precedence.
pub open spec fn pressed_direction(b: ButtonSet) -> Option<Direction> {
    if b.left.pressed {
        Some(Direction::Left)
    } else if b.right.pressed {
        Some(Direction::Right)
    } else if b.up.pressed {
        Some(Direction::Up)
    } else if b.down.pressed {
        Some(Direction::Down)
    } else {
        None
    }
}

/// Whether `r` is the signal that landing on `g` produces: a blank for the
/// root, the character for a leaf, nothing for an inner group.
pub open spec fn signals(r: ReturnState, g: Group) -> bool {
    match g {
        Group::Root => r matches Some(ReturnStateEnum::Text(s)) && s@ == seq![' '],
        Group::Leaf(c) => r matches Some(ReturnStateEnum::Text(s)) && s@ == seq![c],
        _ => r is None,
    }
}

/// The directional character-selection state machine.
#[derive(Clone, Copy, Debug, PartialEq, Eq, Structural)]
pub struct InputTree {
    /// Whether the chosen character is upper case; C flips it.
    pub caps: bool,
    /// The current node of the tree.
    pub group: Group,
}

pub fn get_group(group: Group, pressed: Direction) -> (r: Group)
    ensures
        r == next_group(group, pressed),
{
    let (up, right, down, left) = match group {
        Group::Root => (Group::Letters, Group::Digits, Group::Punct, Group::Extra),
        Group::Letters => (Group::LettersAM, Group::Root, Group::LettersNZ, Group::Root),
        Group::LettersAM => (Group::Bcde, Group::Fghi, Group::Jklm, Group::Leaf('A')),
        Group::LettersNZ => (Group::Opqr, Group::Stuv, Group::Wxyz, Group::Leaf('N')),
        Group::Bcde => quad_children('B', 'C', 'D', 'E'),
        Group::Fghi => quad_children('F', 'G', 'H', 'I'),
        Group::Jklm => quad_children('J', 'K', 'L', 'M'),
        Group::Opqr => quad_children('O', 'P', 'Q', 'R'),
        Group::Stuv => quad_children('S', 'T', 'U', 'V'),
        Group::Wxyz => quad_children('W', 'X', 'Y', 'Z'),
        Group::Digits => (Group::Digits0123, Group::Digits4567, Group::Leaf('8'), Group::Leaf('9')),
        Group::Digits0123 => quad_children('0', '1', '2', '3'),
        Group::Digits4567 => quad_children('4', '5', '6', '7'),
        Group::Punct => (Group::Stops, Group::Joins, Group::Marks, Group::Signs),
        Group::Stops => quad_children('.', ',', '!', '?'),
        Group::Joins => quad_children(':', ';', '-', '_'),
        Group::Marks => quad_children('#', '@', '$', '%'),
        Group::Signs => quad_children('&', '^', '*', '~'),
        Group::Extra => (Group::Brackets, Group::Angles, Group::Quotes, Group::Slashes),
        Group::Brackets => quad_children('(', ')', '[', ']'),
        Group::Angles => quad_children('<', '>', '{', '}'),
        Group::Quotes => quad_children('"', '\'', '`', '|'),
        Group::Slashes => quad_children('/', '\\', '+', '='),
        Group::Leaf(_) => (Group::Root, Group::Root, Group::Root, Group::Root),
    };
    match pressed {
        Direction::Up => up,
        Direction::Right => right,
        Direction::Down => down,
        Direction::Left => left,
    }
}

/// The children (up, right, down, left) of a group of four characters
/// selected by left, down, up, right.
fn quad_children(l: char, dn: char, u: char, r: char) -> (res: (Group, Group, Group, Group))
    ensures
        res == (Group::Leaf(u), Group::Leaf(r), Group::Leaf(dn), Group::Leaf(l)),
{
    (Group::Leaf(u), Group::Leaf(r), Group::Leaf(dn), Group::Leaf(l))
}

pub fn group_label(g: Group) -> (r: Vec<char>)
    ensures
        r@ == label(g),
{
    let r = match g {
        Group::Root => vec![],
        Group::Letters => vec!['A', '.', '.', 'Z'],
        Group::LettersAM => vec!['A', '.', '.', 'M'],
        Group::LettersNZ => vec!['N', '.', '.', 'Z'],
        Group::Bcde => vec!['B', 'C', 'D', 'E'],
        Group::Fghi => vec!['F', 'G', 'H', 'I'],
        Group::Jklm => vec!['J', 'K', 'L', 'M'],
        Group::Opqr => vec!['O', 'P', 'Q', 'R'],
        Group::Stuv => vec!['S', 'T', 'U', 'V'],
        Group::Wxyz => vec!['W', 'X', 'Y', 'Z'],
        Group::Digits => vec!['0', '.', '.', '9'],
        Group::Digits0123 => vec!['0', '1', '2', '3'],
        Group::Digits4567 => vec!['4', '5', '6', '7'],
        Group::Punct => vec!['P', 'U', 'N', 'C'],
        Group::Stops => vec!['.', ',', '!', '?'],
        Group::Joins => vec![':', ';', '-', '_'],
        Group::Marks => vec!['#', '@', '$', '%'],
        Group::Signs => vec!['&', '^', '*', '~'],
        Group::Extra => vec!['E', 'X', 'T', 'R'],
        Group::Brackets => vec!['(', ')', '[', ']'],
        Group::Angles => vec!['<', '>', '{', '}'],
        Group::Quotes => vec!['"', '\'', '`', '|'],
        Group::Slashes => vec!['/', '\\', '+', '='],
        Group::Leaf(c) => vec![c],
    };
    assert(r@ =~= label(g));
    r
}

/// The draw commands that show the candidate `s` in direction `d` around the crosshair.
pub open spec fn candidate_cmds(cmds: Seq<DrawCmd>, d: Direction, s: Seq<char>) -> bool {
    let n = s.len() as int;
    if n == 0 {
        cmds.len() == 0
    } else {
        cmds.len() == 2 && match d {
            Direction::Up => is_text(cmds[0], s, 64 - (n * 6) / 2, 8, None, None)
                && is_line(cmds[1], 63, 23, 63, 19),
            Direction::Down => is_text(cmds[0], s, 64 - (n * 6) / 2, 32, None, None)
                && is_line(cmds[1], 63, 23, 63, 27),
            Direction::Left => is_text(cmds[0], s, 56 - n * 6, 20, None, None)
                && is_line(cmds[1], 63, 23, 59, 23),
            Direction::Right => is_text(cmds[0], s, 72, 20, None, None)
                && is_line(cmds[1], 63, 23, 67, 23),
        }
    }
}

/// Whether `cmds` shows the four candidates of `t`: up, right, down, left.
pub open spec fn tree_cmds(t: InputTree, cmds: Seq<DrawCmd>) -> bool {
    exists|a: int, b: int, c: int|
        0 <= a <= b <= c <= cmds.len()
        && candidate_cmds(cmds.subrange(0, a), Direction::Up, t.candidate(Direction::Up))
        && candidate_cmds(cmds.subrange(a, b), Direction::Right, t.candidate(Direction::Right))
        && candidate_cmds(cmds.subrange(b, c), Direction::Down, t.candidate(Direction::Down))
        && candidate_cmds(cmds.subrange(c, cmds.len() as int), Direction::Left, t.candidate(Direction::Left))
}

/// What landing on `g` emits: a blank for the root, the character for a leaf.
pub open spec fn emitted(g: Group) -> Seq<char> {
    match g {
        Group::Root => seq![' '],
        Group::Leaf(c) => seq![c],
        _ => seq![],
    }
}

/// Whether landing on `g` ends the selection of one character.
pub open spec fn is_final(g: Group) -> bool {
    g is Root || g is Leaf
}

impl InputTree {
    pub fn new() -> (r: InputTree)
        ensures
            r.group == Group::Root,
            r.caps,
    {
        InputTree { caps: true, group: Group::Root }
    }

    /// Goes back to the root group; the case toggle is kept.
    pub fn reset(&mut self)
        ensures
            final(self).group == Group::Root,
            final(self).caps == old(self).caps,
    {
        self.group = Group::Root;
    }

    /// The candidate shown in direction `d`, in the current case.
    pub open spec fn candidate(self, d: Direction) -> Seq<char> {
        case_mapped(label(next_group(self.group, d)), self.caps)
    }

    fn candidate_draw(&self, d: Direction, out: &mut Vec<DrawCmd>)
        ensures
            final(out)@.len() >= old(out)@.len(),
            final(out)@.subrange(0, old(out)@.len() as int) == old(out)@,
            candidate_cmds(final(out)@.subrange(old(out)@.len() as int, final(out)@.len() as int), d, self.candidate(d)),
    {
        let s = map_case(&group_label(get_group(self.group, d)), self.caps);
        let ghost start = out@.len();
        if s.len() > 0 {
            let n = s.len() as i32;
            proof {
                assert(s@.len() <= 4) by {
                    let g = next_group(self.group, d);
                    assert(label(g).len() <= 4);
                }
            }
            let (text, line) = match d {
                Direction::Up => (
                    DrawCmd::Text { text: s, x: 64 - (n * 6) / 2, y: 8, stroke: None, fill: None },
                    DrawCmd::Line { x0: 63, y0: 23, x1: 63, y1: 19 },
                ),
                Direction::Down => (
                    DrawCmd::Text { text: s, x: 64 - (n * 6) / 2, y: 32, stroke: None, fill: None },
                    DrawCmd::Line { x0: 63, y0: 23, x1: 63, y1: 27 },
                ),
                Direction::Left => (
                    DrawCmd::Text { text: s, x: 56 - n * 6, y: 20, stroke: None, fill: None },
                    DrawCmd::Line { x0: 63, y0: 23, x1: 59, y1: 23 },
                ),
                Direction::Right => (
                    DrawCmd::Text { text: s, x: 72, y: 20, stroke: None, fill: None },
                    DrawCmd::Line { x0: 63, y0: 23, x1: 67, y1: 23 },
                ),
            };
            out.push(text);
            out.push(line);
        }
        assert(out@.subrange(0, start as int) =~= old(out)@);
    }

    /// Draws the four candidates around the crosshair: up, right, down, left.
    pub fn render(&self) -> (r: Vec<DrawCmd>)
        ensures
            tree_cmds(*self, r@),
    {
        let mut r: Vec<DrawCmd> = Vec::new();
        self.candidate_draw(Direction::Up, &mut r);
        let ghost a = r@.len() as int;
        let ghost r1 = r@;
        self.candidate_draw(Direction::Right, &mut r);
        let ghost b = r@.len() as int;
        let ghost r2 = r@;
        self.candidate_draw(Direction::Down, &mut r);
        let ghost c = r@.len() as int;
        let ghost r3 = r@;
        self.candidate_draw(Direction::Left, &mut r);
        proof {
            assert(r@.subrange(0, a) =~= r1.subrange(0, a));
            assert(r@.subrange(a, b) =~= r2.subrange(a, b));
            assert(r@.subrange(b, c) =~= r3.subrange(b, c));
            assert(tree_cmds(*self, r@));
        }
        r
    }

    /// Handles one frame: B gives up, C flips the case, a direction moves
    /// down the tree and reports a blank or a character when it lands on the
    /// root or a leaf.
    pub fn handle_buttons(&mut self, buttons: &ButtonSet) -> (r: ReturnState)
        ensures
            buttons.b.pressed ==> (r matches Some(ReturnStateEnum::Pop)) && *final(self) == *old(self),
            !buttons.b.pressed ==> final(self).caps == (old(self).caps != buttons.c.pressed),
            !buttons.b.pressed ==> match pressed_direction(*buttons) {
                None => final(self).group == old(self).group && r is None,
                Some(d) => final(self).group == next_group(old(self).group, d)
                    && signals(r, final(self).group),
            },
    {
        if buttons.b.was_pressed() {
            return Some(ReturnStateEnum::Pop);
        }
        if buttons.c.was_pressed() {
            self.caps = !self.caps;
        }
        let pressed = if buttons.left.was_pressed() {
            Direction::Left
        } else if buttons.right.was_pressed() {
            Direction::Right
        } else if buttons.up.was_pressed() {
            Direction::Up
        } else if buttons.down.was_pressed() {
            Direction::Down
        } else {
            return None;
        };
        self.group = get_group(self.group, pressed);
        match self.group {
            Group::Root => {
                let v = vec![' '];
                assert(v@ =~= seq![' ']);
                Some(ReturnStateEnum::Text(string_of(&v)))
            },
            Group::Leaf(c) => {
                let v = vec![c];
                assert(v@ =~= seq![c]);
                Some(ReturnStateEnum::Text(string_of(&v)))
            },
            _ => None,
        }
    }
}

/// The groups reachable from the root are closed under the transition: one
/// more direction after a path leads where the transition from the path's end
/// leads.
pub proof fn lemma_follow_step(ds: Seq<Direction>, d: Direction)
    ensures
        follow(ds.push(d)) == next_group(follow(ds), d),
{
    assert(ds.push(d).drop_last() =~= ds);
}

} // verus!
