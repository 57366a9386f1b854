//! A single-line text buffer with a caret, indexed by Unicode scalar values.

use vstd::prelude::*;
use vstd::string::StrSliceExecFns;
use crate::text::{chars_of, is_space, is_space_char, string_from_chars};

verus! {

broadcast use vstd::seq_lib::group_seq_properties;

/// Width of one indent step, in spaces.
pub const INDENT_SIZE: usize = 2;

/// The caret position reached from `i` by moving left over characters whose
/// white-space status is `space`.
pub open spec fn back_while(s: Seq<char>, i: int, space: bool) -> int
    decreases i,
{
    if 0 < i <= s.len() && is_space(s[i - 1]) == space {
        back_while(s, i - 1, space)
    } else {
        i
    }
}

/// The caret position reached from `i` by moving right over characters whose
/// white-space status is `space`.
pub open spec fn forward_while(s: Seq<char>, i: int, space: bool) -> int
    decreases s.len() - i,
{
    if 0 <= i < s.len() && is_space(s[i]) == space {
        forward_while(s, i + 1, space)
    } else {
        i
    }
}

/// Start of the word left of caret `i`: white space, then non-white space,
/// is skipped.
pub open spec fn word_start(s: Seq<char>, i: int) -> int {
    back_while(s, back_while(s, i, true), false)
}

/// Start of the next word right of caret `i`: non-white space, then white
/// space, is skipped.
pub open spec fn next_word(s: Seq<char>, i: int) -> int {
    forward_while(s, forward_while(s, i, false), true)
}

/// What typing `c` inserts: a tab becomes four spaces, a carriage return or
/// line feed one space, anything else itself.
pub open spec fn typed(c: char) -> Seq<char> {
    if c == '\t' {
        seq![' ', ' ', ' ', ' ']
    } else if c == '\r' || c == '\n' {
        seq![' ']
    } else {
        seq![c]
    }
}

/// What typing each character of `s` in turn inserts.
pub open spec fn typed_text(s: Seq<char>) -> Seq<char>
    decreases s.len(),
{
    if s.len() == 0 {
        Seq::empty()
    } else {
        typed_text(s.drop_last()) + typed(s.last())
    }
}

/// How many leading spaces, at most one indent step, an outdent removes.
pub open spec fn outdent_width(s: Seq<char>) -> nat {
    if s.len() >= 1 && s[0] == ' ' {
        if s.len() >= 2 && s[1] == ' ' {
            2
        } else {
            1
        }
    } else {
        0
    }
}

proof fn lemma_back_while_bounds(s: Seq<char>, i: int, space: bool)
    requires
        0 <= i <= s.len(),
    ensures
        0 <= back_while(s, i, space) <= i,
    decreases i,
{
    if 0 < i && is_space(s[i - 1]) == space {
        lemma_back_while_bounds(s, i - 1, space);
    }
}

proof fn lemma_forward_while_bounds(s: Seq<char>, i: int, space: bool)
    requires
        0 <= i <= s.len(),
    ensures
        i <= forward_while(s, i, space) <= s.len(),
    decreases s.len() - i,
{
    if i < s.len() && is_space(s[i]) == space {
        lemma_forward_while_bounds(s, i + 1, space);
    }
}

/// The line being edited and the caret, which stands before the character
/// it counts up to (`0` is the start, the length is the end).
pub struct Editor {
    pub line: String,
    pub cur_x: usize,
}

impl Editor {
    /// The caret lies within the text.
    pub open spec fn wf(&self) -> bool {
        self.cur_x <= self.line@.len()
    }

    /// An empty line with the caret at its start.
    pub fn new() -> (e: Editor)
        ensures
            e.line@ == Seq::<char>::empty(),
            e.cur_x == 0,
            e.wf(),
    {
        Editor { line: String::new(), cur_x: 0 }
    }

    /// The length of the line in characters.
    pub fn len_utf8(&self) -> (n: usize)
        ensures
            n == self.line@.len(),
    {
        self.line.as_str().unicode_len()
    }

    /// Replaces the text, keeping the caret.
    fn store(&mut self, chars: &Vec<char>)
        ensures
            final(self).line@ == chars@,
            final(self).cur_x == old(self).cur_x,
    {
        self.line = string_from_chars(chars);
    }

    /// Moves the caret one character left, unless at the start.
    pub fn left(&mut self)
        requires
            old(self).wf(),
        ensures
            final(self).wf(),
            final(self).line@ == old(self).line@,
            final(self).cur_x == if old(self).cur_x > 0 { (old(self).cur_x - 1) as usize } else { 0 },
    {
        if self.cur_x > 0 {
            self.cur_x -= 1;
        }
    }

    /// Moves the caret one character right, unless at the end.
    pub fn right(&mut self)
        requires
            old(self).wf(),
        ensures
            final(self).wf(),
            final(self).line@ == old(self).line@,
            old(self).cur_x < old(self).line@.len() ==> final(self).cur_x == old(self).cur_x + 1,
            old(self).cur_x == old(self).line@.len() ==> final(self).cur_x == old(self).cur_x,
    {
        if self.cur_x < self.len_utf8() {
            self.cur_x += 1;
        }
    }

    /// Removes up to one indent step of leading spaces, stopping at the
    /// first character that is not a space; the caret moves with the text
    /// but not past the start.
    pub fn indent_left(&mut self)
        requires
            old(self).wf(),
        ensures
            final(self).wf(),
            final(self).line@ == old(self).line@.subrange(
                outdent_width(old(self).line@) as int,
                old(self).line@.len() as int,
            ),
            final(self).cur_x == if old(self).cur_x >= outdent_width(old(self).line@) {
                (old(self).cur_x - outdent_width(old(self).line@)) as usize
            } else {
                0
            },
    {
        let mut v = chars_of(self.line.as_str());
        let ghost s = v@;
        let mut k: usize = 0;
        while k < INDENT_SIZE && k < v.len() && v[k] == ' '
            invariant
                v@ == s,
                k <= 2,
                k <= s.len(),
                forall|t: int| 0 <= t < k ==> s[t] == ' ',
            decreases 2 - k,
        {
            k += 1;
        }
        assert(k == outdent_width(s));
        let mut w: Vec<char> = Vec::new();
        let mut i: usize = k;
        while i < v.len()
            invariant
                v@ == s,
                k <= i <= s.len(),
                w@ == s.subrange(k as int, i as int),
            decreases v.len() - i,
        {
            w.push(v[i]);
            i += 1;
        }
        self.store(&w);
        if self.cur_x >= k {
            self.cur_x -= k;
        } else {
            self.cur_x = 0;
        }
    }

    /// Inserts one indent step of spaces at the start; the caret moves with
    /// the text.
    pub fn indent_right(&mut self)
        requires
            old(self).wf(),
        ensures
            final(self).wf(),
            final(self).line@ == seq![' ', ' '] + old(self).line@,
            final(self).cur_x == old(self).cur_x + 2,
    {
        let v = chars_of(self.line.as_str());
        let mut w: Vec<char> = vec![' ', ' '];
        let mut i: usize = 0;
        while i < v.len()
            invariant
                i <= v@.len(),
                w@ == seq![' ', ' '] + v@.subrange(0, i as int),
            decreases v.len() - i,
        {
            w.push(v[i]);
            i += 1;
        }
        assert(v@.subrange(0, v@.len() as int) =~= v@);
        let n = w.len();
        self.store(&w);
        assert(self.cur_x + 2 <= n);
        self.cur_x += INDENT_SIZE;
    }

    /// Moves the caret to the start of the word on its left.
    pub fn word_left(&mut self)
        requires
            old(self).wf(),
        ensures
            final(self).wf(),
            final(self).line@ == old(self).line@,
            final(self).cur_x == word_start(old(self).line@, old(self).cur_x as int),
    {
        let v = chars_of(self.line.as_str());
        let ghost s = v@;
        let mut i = self.cur_x;
        while i > 0 && is_space_char(v[i - 1])
            invariant
                v@ == s,
                i <= s.len(),
                back_while(s, i as int, true) == back_while(s, self.cur_x as int, true),
            decreases i,
        {
            i -= 1;
        }
        let ghost mid = i;
        while i > 0 && !is_space_char(v[i - 1])
            invariant
                v@ == s,
                i <= s.len(),
                back_while(s, i as int, false) == back_while(s, mid as int, false),
                mid == back_while(s, self.cur_x as int, true),
            decreases i,
        {
            i -= 1;
        }
        self.cur_x = i;
    }

    /// Moves the caret to the start of the next word on its right.
    pub fn word_right(&mut self)
        requires
            old(self).wf(),
        ensures
            final(self).wf(),
            final(self).line@ == old(self).line@,
            final(self).cur_x == next_word(old(self).line@, old(self).cur_x as int),
    {
        let v = chars_of(self.line.as_str());
        let ghost s = v@;
        let mut i = self.cur_x;
        while i < v.len() && !is_space_char(v[i])
            invariant
                v@ == s,
                i <= s.len(),
                forward_while(s, i as int, false) == forward_while(s, self.cur_x as int, false),
            decreases s.len() - i,
        {
            i += 1;
        }
        let ghost mid = i;
        while i < v.len() && is_space_char(v[i])
            invariant
                v@ == s,
                i <= s.len(),
                forward_while(s, i as int, true) == forward_while(s, mid as int, true),
                mid == forward_while(s, self.cur_x as int, false),
            decreases s.len() - i,
        {
            i += 1;
        }
        self.cur_x = i;
    }

    /// Moves the caret to the start of the line.
    pub fn home(&mut self)
        requires
            old(self).wf(),
        ensures
            final(self).wf(),
            final(self).line@ == old(self).line@,
            final(self).cur_x == 0,
    {
        self.cur_x = 0;
    }

    /// Moves the caret to the end of the line.
    pub fn end(&mut self)
        requires
            old(self).wf(),
        ensures
            final(self).wf(),
            final(self).line@ == old(self).line@,
            final(self).cur_x == old(self).line@.len(),
    {
        self.cur_x = self.len_utf8();
    }
}

impl Editor {
    /// The line with `piece` inserted at the caret, as characters.
    fn spliced(&self, piece: &Vec<char>, cut_end: usize) -> (w: Vec<char>)
        requires
            self.wf(),
            self.cur_x <= cut_end <= self.line@.len(),
        ensures
            w@ == self.line@.subrange(0, self.cur_x as int) + piece@ + self.line@.subrange(
                cut_end as int,
                self.line@.len() as int,
            ),
    {
        let v = chars_of(self.line.as_str());
        let mut w: Vec<char> = Vec::new();
        let mut i: usize = 0;
        while i < self.cur_x
            invariant
                v@ == self.line@,
                self.cur_x <= v@.len(),
                i <= self.cur_x,
                w@ == v@.subrange(0, i as int),
            decreases self.cur_x - i,
        {
            w.push(v[i]);
            i += 1;
        }
        let mut k: usize = 0;
        while k < piece.len()
            invariant
                k <= piece@.len(),
                w@ == v@.subrange(0, self.cur_x as int) + piece@.subrange(0, k as int),
            decreases piece.len() - k,
        {
            w.push(piece[k]);
            k += 1;
        }
        assert(piece@.subrange(0, piece@.len() as int) =~= piece@);
        let mut i: usize = cut_end;
        while i < v.len()
            invariant
                v@ == self.line@,
                cut_end <= i <= v@.len(),
                w@ == v@.subrange(0, self.cur_x as int) + piece@ + v@.subrange(cut_end as int, i as int),
            decreases v.len() - i,
        {
            w.push(v[i]);
            i += 1;
        }
        w
    }

    /// Types `ch` at the caret (see `typed`); the caret moves past the
    /// inserted text.
    pub fn add(&mut self, ch: char)
        requires
            old(self).wf(),
        ensures
            final(self).wf(),
            final(self).line@ == old(self).line@.subrange(0, old(self).cur_x as int) + typed(ch)
                + old(self).line@.subrange(old(self).cur_x as int, old(self).line@.len() as int),
            final(self).cur_x == old(self).cur_x + typed(ch).len(),
    {
        let piece: Vec<char> = if ch == '\t' {
            vec![' ', ' ', ' ', ' ']
        } else if ch == '\r' || ch == '\n' {
            vec![' ']
        } else {
            vec![ch]
        };
        assert(piece@ =~= typed(ch));
        let w = self.spliced(&piece, self.cur_x);
        let n = w.len();
        self.store(&w);
        assert(self.cur_x + piece@.len() <= n);
        self.cur_x += piece.len();
    }

    /// Empties the line.
    pub fn clear(&mut self)
        ensures
            final(self).wf(),
            final(self).line@ == Seq::<char>::empty(),
            final(self).cur_x == 0,
    {
        self.line = String::new();
        self.cur_x = 0;
    }

    /// Replaces the line with `old_text` and puts the caret at `idx`, or at
    /// the end when `idx` lies beyond it.
    pub fn insert_at(&mut self, old_text: &str, idx: usize)
        ensures
            final(self).wf(),
            final(self).line@ == old_text@,
            final(self).cur_x == if idx < old_text@.len() { idx } else { old_text@.len() as usize },
    {
        self.line = old_text.to_owned();
        let n = self.len_utf8();
        self.cur_x = if idx < n { idx } else { n };
    }

    /// Deletes the character before the caret, if any; the caret moves left.
    pub fn backspace(&mut self)
        requires
            old(self).wf(),
        ensures
            final(self).wf(),
            old(self).cur_x > 0 ==> final(self).line@ == old(self).line@.remove(old(self).cur_x - 1)
                && final(self).cur_x == old(self).cur_x - 1,
            old(self).cur_x == 0 ==> *final(self) == *old(self),
    {
        if self.cur_x > 0 {
            self.cur_x -= 1;
            let w = self.spliced(&Vec::new(), self.cur_x + 1);
            self.store(&w);
            assert(w@ =~= old(self).line@.remove(old(self).cur_x - 1));
        }
    }

    /// Deletes the character at the caret, if any; the caret stays.
    pub fn delete(&mut self)
        requires
            old(self).wf(),
        ensures
            final(self).wf(),
            final(self).cur_x == old(self).cur_x,
            old(self).cur_x < old(self).line@.len() ==> final(self).line@ == old(self).line@.remove(
                old(self).cur_x as int,
            ),
            old(self).cur_x == old(self).line@.len() ==> final(self).line@ == old(self).line@,
    {
        if self.cur_x < self.len_utf8() {
            let w = self.spliced(&Vec::new(), self.cur_x + 1);
            self.store(&w);
            assert(w@ =~= old(self).line@.remove(old(self).cur_x as int));
        }
    }

    /// Deletes everything left of the caret.
    pub fn delete_left_all(&mut self)
        requires
            old(self).wf(),
        ensures
            final(self).wf(),
            final(self).line@ == old(self).line@.subrange(old(self).cur_x as int, old(self).line@.len() as int),
            final(self).cur_x == 0,
    {
        let keep = self.cur_x;
        self.cur_x = 0;
        let w = self.spliced(&Vec::new(), keep);
        self.store(&w);
        assert(w@ =~= old(self).line@.subrange(old(self).cur_x as int, old(self).line@.len() as int));
    }

    /// Deletes everything right of the caret.
    pub fn delete_right_all(&mut self)
        requires
            old(self).wf(),
        ensures
            final(self).wf(),
            final(self).line@ == old(self).line@.subrange(0, old(self).cur_x as int),
            final(self).cur_x == old(self).cur_x,
    {
        let n = self.len_utf8();
        let w = self.spliced(&Vec::new(), n);
        self.store(&w);
        assert(w@ =~= old(self).line@.subrange(0, old(self).cur_x as int));
    }

    /// Deletes the word left of the caret, with the white space between it
    /// and the caret; the caret moves to where the word started.
    pub fn delete_word(&mut self)
        requires
            old(self).wf(),
        ensures
            final(self).wf(),
            final(self).cur_x == word_start(old(self).line@, old(self).cur_x as int),
            final(self).line@ == old(self).line@.subrange(0, final(self).cur_x as int) + old(
                self,
            ).line@.subrange(old(self).cur_x as int, old(self).line@.len() as int),
    {
        let keep = self.cur_x;
        self.word_left();
        proof {
            lemma_back_while_bounds(old(self).line@, old(self).cur_x as int, true);
            lemma_back_while_bounds(
                old(self).line@,
                back_while(old(self).line@, old(self).cur_x as int, true),
                false,
            );
        }
        let w = self.spliced(&Vec::new(), keep);
        self.store(&w);
        assert(w@ =~= old(self).line@.subrange(0, self.cur_x as int) + old(self).line@.subrange(
            keep as int,
            old(self).line@.len() as int,
        ));
    }

    /// A copy of the line.
    pub fn get_line(&self) -> (r: String)
        ensures
            r@ == self.line@,
    {
        self.line.clone()
    }

    /// Types each character of `text` in turn, as pasted from the system
    /// clipboard.
    pub fn insert_clipboard(&mut self, text: &str)
        requires
            old(self).wf(),
        ensures
            final(self).wf(),
            final(self).line@ == old(self).line@.subrange(0, old(self).cur_x as int) + typed_text(text@)
                + old(self).line@.subrange(old(self).cur_x as int, old(self).line@.len() as int),
            final(self).cur_x == old(self).cur_x + typed_text(text@).len(),
    {
        let t = chars_of(text);
        let ghost pre = old(self).line@.subrange(0, old(self).cur_x as int);
        let ghost post = old(self).line@.subrange(old(self).cur_x as int, old(self).line@.len() as int);
        let mut i: usize = 0;
        while i < t.len()
            invariant
                t@ == text@,
                i <= t@.len(),
                self.wf(),
                self.line@ == pre + typed_text(t@.subrange(0, i as int)) + post,
                self.cur_x == pre.len() + typed_text(t@.subrange(0, i as int)).len(),
            decreases t.len() - i,
        {
            let ghost before = self.line@;
            let ghost c = self.cur_x;
            proof {
                assert(before.subrange(0, c as int) =~= pre + typed_text(t@.subrange(0, i as int)));
                assert(before.subrange(c as int, before.len() as int) =~= post);
                assert(t@.subrange(0, i + 1).drop_last() =~= t@.subrange(0, i as int));
            }
            self.add(t[i]);
            i += 1;
        }
        assert(t@.subrange(0, t@.len() as int) =~= text@);
    }
}

} // verus!
