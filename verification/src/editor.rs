//! The text box: a bounded line of text with a cursor and an optional
//! selection.

use vstd::prelude::*;
use crate::chars::{append_range, chars_of, string_of};
use crate::input::FrameInput;

verus! {

/// Longest text, in characters, that the text box accepts.
pub const MAX_INTENTION_LEN: usize = 100;

/// Whether a character may enter the text box: an ASCII letter, an ASCII
/// digit or a space.
pub open spec fn is_typable(c: char) -> bool {
    ('a' <= c && c <= 'z') || ('A' <= c && c <= 'Z') || ('0' <= c && c <= '9') || c == ' '
}

/// Decides whether `c` may enter the text box.
pub fn typable(c: char) -> (ok: bool)
    ensures
        ok == is_typable(c),
{
    ('a' <= c && c <= 'z') || ('A' <= c && c <= 'Z') || ('0' <= c && c <= '9') || c == ' '
}

/// The text box as mathematical values: the text, the cursor as an offset
/// into it, and the offset at which a selection was started, if one is
/// active.
pub struct TextState {
    pub text: Seq<char>,
    pub cursor: int,
    pub anchor: Option<int>,
}

/// One editing operation, as the text box understands it.
pub enum EditOp {
    Insert(char),
    DeleteBackward,
    DeleteForward,
    MoveLeft { extend: bool },
    MoveRight { extend: bool },
    MoveHome { extend: bool },
    MoveEnd { extend: bool },
    SelectAll,
    Cut,
    Paste(Seq<char>),
}

impl TextState {
    /// The text is bounded and typable, and cursor and anchor lie inside it.
    pub open spec fn wf(self) -> bool {
        &&& self.text.len() <= MAX_INTENTION_LEN
        &&& 0 <= self.cursor <= self.text.len()
        &&& (self.anchor matches Some(a) ==> 0 <= a <= self.text.len())
        &&& forall|i: int| 0 <= i < self.text.len() ==> is_typable(#[trigger] self.text[i])
    }

    /// No text, cursor at the start, no selection.
    pub open spec fn empty() -> TextState {
        TextState { text: Seq::empty(), cursor: 0, anchor: None }
    }

    /// The selected half-open range `(start, end)`: the smaller of anchor
    /// and cursor first, whichever of them it is.
    pub open spec fn selection(self) -> Option<(int, int)> {
        match self.anchor {
            Some(a) => Some(
                if a < self.cursor {
                    (a, self.cursor)
                } else {
                    (self.cursor, a)
                },
            ),
            None => None,
        }
    }

    /// The selected characters, if a selection is active.
    pub open spec fn selected_text(self) -> Option<Seq<char>> {
        match self.selection() {
            Some((start, end)) => Some(self.text.subrange(start, end)),
            None => None,
        }
    }

    /// The text before the selected range, if a selection is active.
    pub open spec fn text_before_selection(self) -> Option<Seq<char>> {
        match self.selection() {
            Some((start, end)) => Some(self.text.subrange(0, start)),
            None => None,
        }
    }

    /// The state with the selected range removed and the cursor at its
    /// start; the state itself where no selection is active.
    pub open spec fn without_selection(self) -> TextState {
        match self.selection() {
            Some((start, end)) => TextState {
                text: self.text.subrange(0, start) + self.text.subrange(
                    end,
                    self.text.len() as int,
                ),
                cursor: start,
                anchor: None,
            },
            None => self,
        }
    }

    /// Typing `c`: refused unless `c` is typable and the text is below the
    /// cap; otherwise `c` replaces the selection, or goes in at the cursor.
    pub open spec fn insert(self, c: char) -> TextState {
        if is_typable(c) && self.text.len() < MAX_INTENTION_LEN {
            let s = self.without_selection();
            TextState { text: s.text.insert(s.cursor, c), cursor: s.cursor + 1, anchor: None }
        } else {
            self
        }
    }

    /// Backspace: removes the selection, or else the character before the
    /// cursor.
    pub open spec fn delete_backward(self) -> TextState {
        if self.anchor is Some {
            self.without_selection()
        } else if self.cursor > 0 {
            TextState {
                text: self.text.remove(self.cursor - 1),
                cursor: self.cursor - 1,
                anchor: None,
            }
        } else {
            self
        }
    }

    /// Delete: removes the selection, or else the character after the
    /// cursor.
    pub open spec fn delete_forward(self) -> TextState {
        if self.anchor is Some {
            self.without_selection()
        } else if self.cursor < self.text.len() {
            TextState { text: self.text.remove(self.cursor), cursor: self.cursor, anchor: None }
        } else {
            self
        }
    }

    /// The anchor after a move that extends the selection: the one that
    /// was there, or else the cursor before the move.
    pub open spec fn extended_anchor(self) -> Option<int> {
        match self.anchor {
            Some(a) => Some(a),
            None => Some(self.cursor),
        }
    }

    /// One step to the left. Without `extend` the selection is dropped and
    /// the cursor stops at the start of the text; with it the cursor moves
    /// only where it can, and the anchor is kept or set where it moved from.
    pub open spec fn move_left(self, extend: bool) -> TextState {
        if extend {
            if self.cursor > 0 {
                TextState {
                    text: self.text,
                    cursor: self.cursor - 1,
                    anchor: self.extended_anchor(),
                }
            } else {
                self
            }
        } else {
            TextState {
                text: self.text,
                cursor: if self.cursor > 0 {
                    self.cursor - 1
                } else {
                    self.cursor
                },
                anchor: None,
            }
        }
    }

    /// One step to the right, as `move_left` but towards the end.
    pub open spec fn move_right(self, extend: bool) -> TextState {
        if extend {
            if self.cursor < self.text.len() {
                TextState {
                    text: self.text,
                    cursor: self.cursor + 1,
                    anchor: self.extended_anchor(),
                }
            } else {
                self
            }
        } else {
            TextState {
                text: self.text,
                cursor: if self.cursor < self.text.len() {
                    self.cursor + 1
                } else {
                    self.cursor
                },
                anchor: None,
            }
        }
    }

    /// The cursor jumps to the start of the text.
    pub open spec fn move_home(self, extend: bool) -> TextState {
        TextState {
            text: self.text,
            cursor: 0,
            anchor: if extend {
                self.extended_anchor()
            } else {
                None
            },
        }
    }

    /// The cursor jumps to the end of the text.
    pub open spec fn move_end(self, extend: bool) -> TextState {
        TextState {
            text: self.text,
            cursor: self.text.len() as int,
            anchor: if extend {
                self.extended_anchor()
            } else {
                None
            },
        }
    }

    /// The whole text is selected, the cursor at its end.
    pub open spec fn select_all(self) -> TextState {
        TextState { text: self.text, cursor: self.text.len() as int, anchor: Some(0int) }
    }

    /// How many of `count` offered characters still fit once the selection
    /// is gone.
    pub open spec fn paste_len(self, count: int) -> int {
        let room = MAX_INTENTION_LEN - self.without_selection().text.len();
        if count < room {
            count
        } else {
            room
        }
    }

    /// Pasting `incoming`: its typable characters, as many of them as fit
    /// under the cap, replace the selection or go in at the cursor.
    pub open spec fn paste(self, incoming: Seq<char>) -> TextState {
        let s = self.without_selection();
        let offered = incoming.filter(|c: char| is_typable(c));
        let taken = offered.subrange(0, self.paste_len(offered.len() as int));
        TextState {
            text: s.text.subrange(0, s.cursor) + taken + s.text.subrange(
                s.cursor,
                s.text.len() as int,
            ),
            cursor: s.cursor + taken.len(),
            anchor: None,
        }
    }

    /// The state after one operation.
    pub open spec fn apply(self, op: EditOp) -> TextState {
        match op {
            EditOp::Insert(c) => self.insert(c),
            EditOp::DeleteBackward => self.delete_backward(),
            EditOp::DeleteForward => self.delete_forward(),
            EditOp::MoveLeft { extend } => self.move_left(extend),
            EditOp::MoveRight { extend } => self.move_right(extend),
            EditOp::MoveHome { extend } => self.move_home(extend),
            EditOp::MoveEnd { extend } => self.move_end(extend),
            EditOp::SelectAll => self.select_all(),
            EditOp::Cut => self.without_selection(),
            EditOp::Paste(incoming) => self.paste(incoming),
        }
    }

    /// The state after a sequence of operations, first to last.
    pub open spec fn apply_all(self, ops: Seq<EditOp>) -> TextState
        decreases ops.len(),
    {
        if ops.len() == 0 {
            self
        } else {
            self.apply_all(ops.drop_last()).apply(ops.last())
        }
    }

    /// The state after typing `chars` one by one.
    pub open spec fn typed_all(self, chars: Seq<char>) -> TextState
        decreases chars.len(),
    {
        if chars.len() == 0 {
            self
        } else {
            self.typed_all(chars.drop_last()).insert(chars.last())
        }
    }

    /// The state once the typed characters have gone in, before any key
    /// of the frame is looked at.
    pub open spec fn after_typing(self, input: FrameInput) -> TextState {
        self.typed_all(input.typed@)
    }

    /// The state once backspace and delete have been served.
    pub open spec fn after_deleting(self, input: FrameInput) -> TextState {
        let s = self.after_typing(input);
        let s = if input.backspace {
            s.delete_backward()
        } else {
            s
        };
        if input.delete {
            s.delete_forward()
        } else {
            s
        }
    }

    /// The state once the arrow keys, home and end have been served.
    pub open spec fn after_moving(self, input: FrameInput) -> TextState {
        let s = self.after_deleting(input);
        let s = if input.left {
            s.move_left(input.shift)
        } else {
            s
        };
        let s = if input.right {
            s.move_right(input.shift)
        } else {
            s
        };
        let s = if input.home {
            s.move_home(input.shift)
        } else {
            s
        };
        if input.end {
            s.move_end(input.shift)
        } else {
            s
        }
    }

    /// The state at the moment a copy is served: after select-all.
    pub open spec fn at_copy(self, input: FrameInput) -> TextState {
        let s = self.after_moving(input);
        if input.a && input.ctrl {
            s.select_all()
        } else {
            s
        }
    }

    /// The state at the moment a cut is served: after the paste.
    pub open spec fn at_cut(self, input: FrameInput) -> TextState {
        let s = self.at_copy(input);
        if input.v && input.ctrl {
            s.paste(input.clipboard@)
        } else {
            s
        }
    }

    /// The state at the end of a frame with the given input. Within one
    /// frame the order is fixed: typed characters, backspace, delete, left,
    /// right, home, end, select-all, copy, paste, cut.
    pub open spec fn after_input(self, input: FrameInput) -> TextState {
        let s = self.at_cut(input);
        if input.x && input.ctrl {
            s.without_selection()
        } else {
            s
        }
    }

    /// What a frame with the given input hands to the clipboard as copied.
    pub open spec fn copied_by(self, input: FrameInput) -> Option<Seq<char>> {
        if input.c && input.ctrl {
            self.at_copy(input).selected_text()
        } else {
            None
        }
    }

    /// What a frame with the given input hands to the clipboard as cut.
    pub open spec fn cut_by(self, input: FrameInput) -> Option<Seq<char>> {
        if input.x && input.ctrl {
            self.at_cut(input).selected_text()
        } else {
            None
        }
    }
}

/// What the text box hands to the clipboard during one frame.
pub struct EditEffects {
    /// The text that a copy selected.
    pub copied: Option<String>,
    /// The text that a cut removed.
    pub cut: Option<String>,
}

/// The view of an optional string.
pub open spec fn opt_view(s: Option<String>) -> Option<Seq<char>> {
    match s {
        Some(t) => Some(t@),
        None => None,
    }
}

/// The text box itself. Its text never exceeds `MAX_INTENTION_LEN`
/// characters, all of them typable, and cursor and anchor never leave it.
pub struct IntentionText {
    chars: Vec<char>,
    cursor: usize,
    anchor: Option<usize>,
}

impl View for IntentionText {
    type V = TextState;

    closed spec fn view(&self) -> TextState {
        TextState {
            text: self.chars@,
            cursor: self.cursor as int,
            anchor: match self.anchor {
                Some(a) => Some(a as int),
                None => None,
            },
        }
    }
}

/// `chars` with `chars[start..end]` replaced by `insert[..take]`.
fn spliced(
    chars: &Vec<char>,
    start: usize,
    end: usize,
    insert: &Vec<char>,
    take: usize,
) -> (out: Vec<char>)
    requires
        start <= end <= chars.len(),
        take <= insert.len(),
    ensures
        out@ == chars@.subrange(0, start as int) + insert@.subrange(0, take as int)
            + chars@.subrange(end as int, chars.len() as int),
{
    let mut out: Vec<char> = Vec::new();
    append_range(&mut out, chars, 0, start);
    append_range(&mut out, insert, 0, take);
    append_range(&mut out, chars, end, chars.len());
    assert(Seq::<char>::empty() + chars@.subrange(0, start as int) =~= chars@.subrange(
        0,
        start as int,
    ));
    out
}

/// The typable characters of `text`, in order.
fn typable_chars(text: &str) -> (out: Vec<char>)
    ensures
        out@ == text@.filter(|c: char| is_typable(c)),
{
    let all = chars_of(text);
    let ghost keep = |c: char| is_typable(c);
    let mut out: Vec<char> = Vec::new();
    let mut i: usize = 0;
    proof {
        reveal(Seq::filter);
        assert(all@.take(0) =~= Seq::<char>::empty());
    }
    while i < all.len()
        invariant
            i <= all.len(),
            keep == (|c: char| is_typable(c)),
            out@ == all@.take(i as int).filter(keep),
        decreases all.len() - i,
    {
        let c = all[i];
        proof {
            reveal(Seq::filter);
            assert(all@.take(i + 1).drop_last() =~= all@.take(i as int));
            assert(all@.take(i + 1).last() == c);
        }
        if typable(c) {
            out.push(c);
        }
        i += 1;
    }
    assert(all@.take(all.len() as int) =~= all@);
    out
}

impl IntentionText {
    #[verifier::type_invariant]
    spec fn inv(self) -> bool {
        self@.wf()
    }

    /// An empty text box.
    pub fn new() -> (t: IntentionText)
        ensures
            t@ == TextState::empty(),
    {
        IntentionText { chars: Vec::new(), cursor: 0, anchor: None }
    }

    /// The number of characters in the text.
    pub fn len(&self) -> (n: usize)
        ensures
            n == self@.text.len(),
            n <= MAX_INTENTION_LEN,
    {
        proof {
            use_type_invariant(self);
        }
        self.chars.len()
    }

    /// The cursor's offset.
    pub fn cursor(&self) -> (c: usize)
        ensures
            c == self@.cursor,
            c <= self@.text.len(),
    {
        proof {
            use_type_invariant(self);
        }
        self.cursor
    }

    /// The offset at which the selection was started, if one is active.
    pub fn anchor(&self) -> (a: Option<usize>)
        ensures
            a is Some == self@.anchor is Some,
            a matches Some(o) ==> self@.anchor == Some(o as int) && o <= self@.text.len(),
    {
        proof {
            use_type_invariant(self);
        }
        self.anchor
    }

    /// The text as a string.
    pub fn text(&self) -> (s: String)
        ensures
            s@ == self@.text,
    {
        let s = string_of(&self.chars, 0, self.chars.len());
        assert(self.chars@.subrange(0, self.chars.len() as int) =~= self.chars@);
        s
    }

    /// The text before the cursor.
    pub fn text_before_cursor(&self) -> (s: String)
        ensures
            s@ == self@.text.subrange(0, self@.cursor),
    {
        proof {
            use_type_invariant(self);
        }
        string_of(&self.chars, 0, self.cursor)
    }

    /// The text before the selection, if a selection is active.
    pub fn text_before_selection(&self) -> (s: Option<String>)
        ensures
            opt_view(s) == self@.text_before_selection(),
    {
        match self.selection_range() {
            Some((start, _)) => Some(string_of(&self.chars, 0, start)),
            None => None,
        }
    }

    /// The selected range as `(start, end)`, end excluded.
    pub fn selection_range(&self) -> (r: Option<(usize, usize)>)
        ensures
            r is Some == self@.selection() is Some,
            r matches Some((start, end)) ==> self@.selection() == Some((start as int, end as int))
                && start <= end <= self@.text.len(),
    {
        proof {
            use_type_invariant(self);
        }
        match self.anchor {
            Some(a) => {
                if a < self.cursor {
                    Some((a, self.cursor))
                } else {
                    Some((self.cursor, a))
                }
            },
            None => None,
        }
    }

    /// Removes the selected range, if a selection is active, and says
    /// whether one was.
    pub fn delete_selection(&mut self) -> (had_selection: bool)
        ensures
            final(self)@ == old(self)@.without_selection(),
            final(self)@.wf(),
            had_selection == old(self)@.anchor is Some,
    {
        proof {
            use_type_invariant(&*self);
        }
        match self.selection_range() {
            Some((start, end)) => {
                let empty: Vec<char> = Vec::new();
                let kept = spliced(&self.chars, start, end, &empty, 0);
                assert(kept@ =~= self.chars@.subrange(0, start as int) + self.chars@.subrange(
                    end as int,
                    self.chars.len() as int,
                ));
                self.anchor = None;
                self.cursor = start;
                self.chars = kept;
                true
            },
            None => false,
        }
    }

    /// Types `c`.
    pub fn insert(&mut self, c: char)
        ensures
            final(self)@ == old(self)@.insert(c),
            final(self)@.wf(),
    {
        proof {
            use_type_invariant(&*self);
        }
        if typable(c) && self.chars.len() < MAX_INTENTION_LEN {
            self.delete_selection();
            proof {
                use_type_invariant(&*self);
            }
            let mut one: Vec<char> = Vec::new();
            one.push(c);
            let merged = spliced(&self.chars, self.cursor, self.cursor, &one, 1);
            assert(merged@ =~= self.chars@.insert(self.cursor as int, c));
            self.chars = merged;
            self.cursor = self.cursor + 1;
        }
    }

    /// Backspace.
    pub fn delete_backward(&mut self)
        ensures
            final(self)@ == old(self)@.delete_backward(),
            final(self)@.wf(),
    {
        proof {
            use_type_invariant(&*self);
        }
        if !self.delete_selection() && self.cursor > 0 {
            let empty: Vec<char> = Vec::new();
            let kept = spliced(&self.chars, self.cursor - 1, self.cursor, &empty, 0);
            assert(kept@ =~= self.chars@.remove(self.cursor - 1));
            self.cursor = self.cursor - 1;
            self.chars = kept;
        }
    }

    /// Delete.
    pub fn delete_forward(&mut self)
        ensures
            final(self)@ == old(self)@.delete_forward(),
            final(self)@.wf(),
    {
        proof {
            use_type_invariant(&*self);
        }
        if !self.delete_selection() && self.cursor < self.chars.len() {
            let empty: Vec<char> = Vec::new();
            let kept = spliced(&self.chars, self.cursor, self.cursor + 1, &empty, 0);
            assert(kept@ =~= self.chars@.remove(self.cursor as int));
            self.chars = kept;
        }
    }

    /// Left arrow; `extend` is true while shift is held.
    pub fn move_left(&mut self, extend: bool)
        ensures
            final(self)@ == old(self)@.move_left(extend),
            final(self)@.wf(),
    {
        proof {
            use_type_invariant(&*self);
        }
        if extend {
            if self.cursor > 0 {
                if self.anchor.is_none() {
                    self.anchor = Some(self.cursor);
                }
                self.cursor = self.cursor - 1;
            }
        } else {
            if self.cursor > 0 {
                self.cursor = self.cursor - 1;
            }
            self.anchor = None;
        }
    }

    /// Right arrow; `extend` is true while shift is held.
    pub fn move_right(&mut self, extend: bool)
        ensures
            final(self)@ == old(self)@.move_right(extend),
            final(self)@.wf(),
    {
        proof {
            use_type_invariant(&*self);
        }
        if extend {
            if self.cursor < self.chars.len() {
                if self.anchor.is_none() {
                    self.anchor = Some(self.cursor);
                }
                self.cursor = self.cursor + 1;
            }
        } else {
            if self.cursor < self.chars.len() {
                self.cursor = self.cursor + 1;
            }
            self.anchor = None;
        }
    }

    /// Home; `extend` is true while shift is held.
    pub fn move_home(&mut self, extend: bool)
        ensures
            final(self)@ == old(self)@.move_home(extend),
            final(self)@.wf(),
    {
        proof {
            use_type_invariant(&*self);
        }
        if extend {
            if self.anchor.is_none() {
                self.anchor = Some(self.cursor);
            }
        } else {
            self.anchor = None;
        }
        self.cursor = 0;
    }

    /// End; `extend` is true while shift is held.
    pub fn move_end(&mut self, extend: bool)
        ensures
            final(self)@ == old(self)@.move_end(extend),
            final(self)@.wf(),
    {
        proof {
            use_type_invariant(&*self);
        }
        if extend {
            if self.anchor.is_none() {
                self.anchor = Some(self.cursor);
            }
        } else {
            self.anchor = None;
        }
        self.cursor = self.chars.len();
    }

    /// Selects the whole text.
    pub fn select_all(&mut self)
        ensures
            final(self)@ == old(self)@.select_all(),
            final(self)@.wf(),
    {
        proof {
            use_type_invariant(&*self);
        }
        self.anchor = Some(0);
        self.cursor = self.chars.len();
    }

    /// The selected text, for the clipboard; the text box stays as it is.
    pub fn copy_selection(&self) -> (copied: Option<String>)
        ensures
            opt_view(copied) == self@.selected_text(),
    {
        match self.selection_range() {
            Some((start, end)) => Some(string_of(&self.chars, start, end)),
            None => None,
        }
    }

    /// The selected text, for the clipboard; it leaves the text box.
    pub fn cut_selection(&mut self) -> (cut: Option<String>)
        ensures
            opt_view(cut) == old(self)@.selected_text(),
            final(self)@ == old(self)@.without_selection(),
            final(self)@.wf(),
    {
        let cut = self.copy_selection();
        self.delete_selection();
        cut
    }

    /// Pastes `text`.
    pub fn paste(&mut self, text: &str)
        ensures
            final(self)@ == old(self)@.paste(text@),
            final(self)@.wf(),
    {
        let offered = typable_chars(text);
        self.delete_selection();
        proof {
            use_type_invariant(&*self);
            broadcast use vstd::seq_lib::group_filter_ensures;
        }
        let room = MAX_INTENTION_LEN - self.chars.len();
        let take = if offered.len() < room {
            offered.len()
        } else {
            room
        };
        let merged = spliced(&self.chars, self.cursor, self.cursor, &offered, take);
        self.chars = merged;
        self.cursor = self.cursor + take;
    }

    /// Empties the text box.
    pub fn clear(&mut self)
        ensures
            final(self)@ == TextState::empty(),
    {
        proof {
            use_type_invariant(&*self);
        }
        self.anchor = None;
        self.cursor = 0;
        self.chars = Vec::new();
    }

    /// Serves one frame of input: the typed characters first, then the
    /// editing keys in their fixed order.
    #[verifier::rlimit(30)]
    pub fn handle_text_input(&mut self, input: &FrameInput) -> (effects: EditEffects)
        ensures
            final(self)@ == old(self)@.after_input(*input),
            final(self)@.wf(),
            opt_view(effects.copied) == old(self)@.copied_by(*input),
            opt_view(effects.cut) == old(self)@.cut_by(*input),
    {
        let mut i: usize = 0;
        while i < input.typed.len()
            invariant
                i <= input.typed.len(),
                self@ == old(self)@.typed_all(input.typed@.take(i as int)),
            decreases input.typed.len() - i,
        {
            self.insert(input.typed[i]);
            proof {
                assert(input.typed@.take(i + 1).drop_last() =~= input.typed@.take(i as int));
            }
            i += 1;
        }
        assert(input.typed@.take(i as int) =~= input.typed@);
        if input.backspace {
            self.delete_backward();
        }
        if input.delete {
            self.delete_forward();
        }
        if input.left {
            self.move_left(input.shift);
        }
        if input.right {
            self.move_right(input.shift);
        }
        if input.home {
            self.move_home(input.shift);
        }
        if input.end {
            self.move_end(input.shift);
        }
        if input.a && input.ctrl {
            self.select_all();
        }
        let copied = if input.c && input.ctrl {
            self.copy_selection()
        } else {
            None
        };
        if input.v && input.ctrl {
            self.paste(input.clipboard.as_str());
        }
        let cut = if input.x && input.ctrl {
            self.cut_selection()
        } else {
            None
        };
        proof {
            use_type_invariant(&*self);
        }
        EditEffects { copied, cut }
    }
}

/// A selection, where one is active, is a half-open range inside the
/// text, whichever of anchor and cursor comes first.
pub proof fn lemma_selection_in_bounds(s: TextState)
    requires
        s.wf(),
    ensures
        0 <= s.cursor <= s.text.len(),
        s.selection() matches Some((start, end)) ==> 0 <= start <= end <= s.text.len(),
        s.selection() is Some == s.anchor is Some,
{
}

/// Removing the selection keeps the text box well formed.
pub proof fn lemma_without_selection_keeps_wf(s: TextState)
    requires
        s.wf(),
    ensures
        s.without_selection().wf(),
        s.without_selection().text.len() <= s.text.len(),
        s.without_selection().anchor is None,
{
}

/// Pasting keeps the text box well formed.
pub proof fn lemma_paste_keeps_wf(s: TextState, incoming: Seq<char>)
    requires
        s.wf(),
    ensures
        s.paste(incoming).wf(),
{
    broadcast use vstd::seq_lib::group_filter_ensures;

    lemma_without_selection_keeps_wf(s);
}

/// Every single operation keeps the text box well formed: the text stays
/// within the cap and typable, and cursor and selection stay inside it.
pub proof fn lemma_apply_keeps_wf(s: TextState, op: EditOp)
    requires
        s.wf(),
    ensures
        s.apply(op).wf(),
{
    lemma_without_selection_keeps_wf(s);
    match op {
        EditOp::Paste(incoming) => {
            lemma_paste_keeps_wf(s, incoming);
        },
        _ => {},
    }
}

/// After any sequence of operations on a well-formed text box the cursor
/// lies inside the text, and so does the selected range where a selection
/// is active.
pub proof fn lemma_apply_all_keeps_wf(s: TextState, ops: Seq<EditOp>)
    requires
        s.wf(),
    ensures
        s.apply_all(ops).wf(),
        0 <= s.apply_all(ops).cursor <= s.apply_all(ops).text.len(),
        s.apply_all(ops).selection() matches Some((start, end)) ==> 0 <= start <= end
            <= s.apply_all(ops).text.len(),
    decreases ops.len(),
{
    if ops.len() > 0 {
        lemma_apply_all_keeps_wf(s, ops.drop_last());
        lemma_apply_keeps_wf(s.apply_all(ops.drop_last()), ops.last());
    }
}

/// Typing never takes the text past the cap: once the text is full, every
/// further character is dropped and the state stays as it is.
pub proof fn lemma_insert_at_cap(s: TextState, c: char)
    requires
        s.text.len() >= MAX_INTENTION_LEN,
    ensures
        s.insert(c) == s,
{
}

/// Typing a typable character into a text box that is below the cap and
/// has no selection lengthens the text by one and advances the cursor by
/// one.
pub proof fn lemma_insert_grows(s: TextState, c: char)
    requires
        s.wf(),
        is_typable(c),
        s.text.len() < MAX_INTENTION_LEN,
        s.anchor is None,
    ensures
        s.insert(c).text.len() == s.text.len() + 1,
        s.insert(c).cursor == s.cursor + 1,
        s.insert(c).text[s.cursor] == c,
{
}

/// Typing any characters keeps the text box well formed.
pub proof fn lemma_typed_all_keeps_wf(s: TextState, chars: Seq<char>)
    requires
        s.wf(),
    ensures
        s.typed_all(chars).wf(),
    decreases chars.len(),
{
    if chars.len() > 0 {
        lemma_typed_all_keeps_wf(s, chars.drop_last());
        lemma_apply_keeps_wf(s.typed_all(chars.drop_last()), EditOp::Insert(chars.last()));
    }
}

/// Serving backspace and delete keeps the text box well formed.
proof fn lemma_after_deleting_keeps_wf(s: TextState, input: FrameInput)
    requires
        s.wf(),
    ensures
        s.after_deleting(input).wf(),
{
    lemma_typed_all_keeps_wf(s, input.typed@);
    let s1 = s.after_typing(input);
    lemma_apply_keeps_wf(s1, EditOp::DeleteBackward);
    let s2 = if input.backspace {
        s1.delete_backward()
    } else {
        s1
    };
    lemma_apply_keeps_wf(s2, EditOp::DeleteForward);
}

/// Serving the arrow keys, home and end keeps the text box well formed.
proof fn lemma_after_moving_keeps_wf(s: TextState, input: FrameInput)
    requires
        s.wf(),
    ensures
        s.after_moving(input).wf(),
{
    lemma_after_deleting_keeps_wf(s, input);
    let s0 = s.after_deleting(input);
    let s1 = if input.left {
        s0.move_left(input.shift)
    } else {
        s0
    };
    assert(s1.wf());
    let s2 = if input.right {
        s1.move_right(input.shift)
    } else {
        s1
    };
    assert(s2.wf());
    let s3 = if input.home {
        s2.move_home(input.shift)
    } else {
        s2
    };
    assert(s3.wf());
}

/// A whole frame of input keeps the text box well formed.
pub proof fn lemma_after_input_keeps_wf(s: TextState, input: FrameInput)
    requires
        s.wf(),
    ensures
        s.after_input(input).wf(),
{
    lemma_after_moving_keeps_wf(s, input);
    let copy = s.at_copy(input);
    assert(copy.wf());
    lemma_paste_keeps_wf(copy, input.clipboard@);
    let cut = s.at_cut(input);
    assert(cut.wf());
    lemma_without_selection_keeps_wf(cut);
}

} // verus!
