//! The editor: buffers of text lines with a cursor, selections, undo and
//! redo, tabs, and the vim-style modal state. Everything here is a pure state
//! transition; terminal I/O, the clipboard, files and evaluation are done by
//! the caller, which the transitions tell what to do.
use vstd::prelude::*;
use crate::mode::{Config, EditStyle, Mode};
use crate::text::{chars_of, string_from_chars, push_char};
use crate::words::{
    CharClass, class_of, class_has, in_class, run_end, run_start, scan_backward, scan_forward,
    space_char, word_char, inner_word, find_inner_word, is_word_char,
    lemma_inner_word_bounds,
};
use crate::text::{is_whitespace, after_last_slash, last_segment};

verus! {

// ── Text of one line ───────────────────────────────────────────────────────

/// `x`, or `hi` when `x` exceeds it.
pub open spec fn min_int(x: int, hi: int) -> int {
    if x < hi {
        x
    } else {
        hi
    }
}

/// `l` with `c` inserted before character `cx` (at the end when `cx` is past it).
pub open spec fn insert_char_spec(l: Seq<char>, cx: int, c: char) -> Seq<char> {
    l.insert(min_int(cx, l.len() as int), c)
}

/// `l` with `t` inserted before character `cx` (at the end when `cx` is past it).
pub open spec fn insert_text_spec(l: Seq<char>, cx: int, t: Seq<char>) -> Seq<char> {
    let k = min_int(cx, l.len() as int);
    l.take(k) + t + l.skip(k)
}

/// `l` without the characters from `a` up to (not including) `b`, both
/// clamped to the line.
pub open spec fn remove_range_spec(l: Seq<char>, a: int, b: int) -> Seq<char> {
    l.take(min_int(a, l.len() as int)) + l.skip(min_int(b, l.len() as int))
}

/// The number of characters of a string.
pub fn char_count(s: &String) -> (n: usize)
    ensures
        n == s@.len(),
{
    s.as_str().unicode_len()
}

/// Inserts `c` before character `cx` of `s` (appends when `cx` is past the end).
pub fn insert_char(s: &mut String, cx: usize, c: char)
    ensures
        final(s)@ == insert_char_spec(old(s)@, cx as int, c),
{
    let mut v = chars_of(s.as_str());
    let k = if cx < v.len() {
        cx
    } else {
        v.len()
    };
    v.insert(k, c);
    *s = string_from_chars(v.as_slice());
}

/// Inserts `t` before character `cx` of `s` (appends when `cx` is past the end).
pub fn insert_text(s: &mut String, cx: usize, t: &str)
    ensures
        final(s)@ == insert_text_spec(old(s)@, cx as int, t@),
{
    let v = chars_of(s.as_str());
    let k = if cx < v.len() {
        cx
    } else {
        v.len()
    };
    let mut out: Vec<char> = Vec::new();
    let mut i: usize = 0;
    while i < k
        invariant
            k <= v.len(),
            i <= k,
            out@ == v@.take(i as int),
        decreases k - i,
    {
        out.push(v[i]);
        assert(v@.take(i + 1) =~= v@.take(i as int).push(v@[i as int]));
        i = i + 1;
    }
    let tv = chars_of(t);
    let mut j: usize = 0;
    while j < tv.len()
        invariant
            k <= v.len(),
            out@ == v@.take(k as int) + tv@.take(j as int),
            j <= tv.len(),
        decreases tv.len() - j,
    {
        out.push(tv[j]);
        assert(tv@.take(j + 1) =~= tv@.take(j as int).push(tv@[j as int]));
        assert(v@.take(k as int) + tv@.take(j + 1) =~= (v@.take(k as int) + tv@.take(j as int)).push(tv@[j as int]));
        j = j + 1;
    }
    assert(tv@.take(tv.len() as int) =~= tv@);
    let mut m: usize = k;
    while m < v.len()
        invariant
            k <= m <= v.len(),
            out@ == v@.take(k as int) + tv@ + v@.subrange(k as int, m as int),
        decreases v.len() - m,
    {
        out.push(v[m]);
        assert(v@.subrange(k as int, m + 1) =~= v@.subrange(k as int, m as int).push(v@[m as int]));
        assert(v@.take(k as int) + tv@ + v@.subrange(k as int, m + 1) =~= (v@.take(k as int) + tv@ + v@.subrange(k as int, m as int)).push(v@[m as int]));
        m = m + 1;
    }
    assert(v@.subrange(k as int, v.len() as int) =~= v@.skip(k as int));
    *s = string_from_chars(out.as_slice());
}

/// The characters of `s` from `a` up to (not including) `b`, as a string.
pub fn substring_chars(s: &String, a: usize, b: usize) -> (r: String)
    requires
        a <= b <= s@.len(),
    ensures
        r@ == s@.subrange(a as int, b as int),
{
    let v = chars_of(s.as_str());
    let mut out: Vec<char> = Vec::new();
    let mut i: usize = a;
    while i < b
        invariant
            a <= i <= b,
            b <= v.len(),
            out@ == v@.subrange(a as int, i as int),
        decreases b - i,
    {
        out.push(v[i]);
        assert(v@.subrange(a as int, i + 1) =~= v@.subrange(a as int, i as int).push(v@[i as int]));
        i = i + 1;
    }
    string_from_chars(out.as_slice())
}

/// Removes the characters from `a` up to (not including) `b` of `s`, both
/// clamped to the string.
pub fn remove_range(s: &mut String, a: usize, b: usize)
    requires
        a <= b,
    ensures
        final(s)@ == remove_range_spec(old(s)@, a as int, b as int),
{
    let n = char_count(s);
    let ka = if a < n {
        a
    } else {
        n
    };
    let kb = if b < n {
        b
    } else {
        n
    };
    let head = substring_chars(s, 0, ka);
    let tail = substring_chars(s, kb, n);
    let mut r = head;
    r.append(tail.as_str());
    assert(old(s)@.take(ka as int) =~= old(s)@.subrange(0, ka as int));
    assert(old(s)@.skip(kb as int) =~= old(s)@.subrange(kb as int, n as int));
    *s = r;
}


// ── State ──────────────────────────────────────────────────────────────────

/// Whether a selection covers whole lines or runs of characters.
#[derive(Debug, Clone, Copy, PartialEq, Eq, Structural)]
pub enum SelectionKind {
    Line,
    Char,
}

/// A selection from an anchor to the cursor.
#[derive(Debug, Clone, Copy, PartialEq, Eq, Structural)]
pub struct Selection {
    pub anchor_y: usize,
    pub anchor_x: usize,
    pub kind: SelectionKind,
}

/// A saved state of a buffer's text and cursor, for undo and redo.
pub struct UndoSnapshot {
    pub lines: Vec<String>,
    pub cursor_x: usize,
    pub cursor_y: usize,
}

/// What the results pane shows for one line: the rendered value, or the error.
pub struct LineOutput {
    pub display: String,
    pub error: Option<String>,
}

/// One open document.
pub struct Buffer {
    pub lines: Vec<String>,
    pub cursor_x: usize,
    pub cursor_y: usize,
    /// Remembered column for vertical movement (like vim's "virtual column").
    /// Set to `None` when cursor_x changes from non-vertical actions.
    pub desired_x: Option<usize>,
    pub scroll_offset: usize,
    pub results: Vec<LineOutput>,
    pub file_path: Option<String>,
    pub dirty: bool,
    pub selection: Option<Selection>,
    pub yank_buffer: Vec<String>,
    pub undo_stack: Vec<UndoSnapshot>,
    pub redo_stack: Vec<UndoSnapshot>,
}

/// The mathematical content of an `UndoSnapshot`.
pub struct SnapshotV {
    pub lines: Seq<Seq<char>>,
    pub cursor_x: usize,
    pub cursor_y: usize,
}

/// The mathematical content of a `LineOutput`.
pub struct LineOutputV {
    pub display: Seq<char>,
    pub error: Option<Seq<char>>,
}

/// The mathematical content of a `Buffer`.
pub struct BufferV {
    pub lines: Seq<Seq<char>>,
    pub cursor_x: usize,
    pub cursor_y: usize,
    pub desired_x: Option<usize>,
    pub scroll_offset: usize,
    pub results: Seq<LineOutputV>,
    pub file_path: Option<Seq<char>>,
    pub dirty: bool,
    pub selection: Option<Selection>,
    pub yank: Seq<Seq<char>>,
    pub undo: Seq<SnapshotV>,
    pub redo: Seq<SnapshotV>,
}

/// The views of a sequence of strings.
pub open spec fn strs(v: Seq<String>) -> Seq<Seq<char>> {
    v.map_values(|s: String| s@)
}

/// The view of an optional string.
pub open spec fn opt_str(o: Option<String>) -> Option<Seq<char>> {
    match o {
        Some(s) => Some(s@),
        None => None,
    }
}

impl View for UndoSnapshot {
    type V = SnapshotV;

    open spec fn view(&self) -> SnapshotV {
        SnapshotV { lines: strs(self.lines@), cursor_x: self.cursor_x, cursor_y: self.cursor_y }
    }
}

impl View for LineOutput {
    type V = LineOutputV;

    open spec fn view(&self) -> LineOutputV {
        LineOutputV { display: self.display@, error: opt_str(self.error) }
    }
}

/// The views of a sequence of snapshots.
pub open spec fn snaps(v: Seq<UndoSnapshot>) -> Seq<SnapshotV> {
    v.map_values(|s: UndoSnapshot| s@)
}

impl View for Buffer {
    type V = BufferV;

    open spec fn view(&self) -> BufferV {
        BufferV {
            lines: strs(self.lines@),
            cursor_x: self.cursor_x,
            cursor_y: self.cursor_y,
            desired_x: self.desired_x,
            scroll_offset: self.scroll_offset,
            results: self.results@.map_values(|o: LineOutput| o@),
            file_path: opt_str(self.file_path),
            dirty: self.dirty,
            selection: self.selection,
            yank: strs(self.yank_buffer@),
            undo: snaps(self.undo_stack@),
            redo: snaps(self.redo_stack@),
        }
    }
}

impl SnapshotV {
    /// The saved cursor lies on a saved line, at most one past its end.
    pub open spec fn wf(self) -> bool {
        &&& self.lines.len() >= 1
        &&& self.cursor_y < self.lines.len()
        &&& self.cursor_x <= self.lines[self.cursor_y as int].len()
    }
}

impl BufferV {
    /// The characters of line `y`.
    pub open spec fn line(self, y: int) -> Seq<char> {
        self.lines[y]
    }

    /// The length of the cursor's line.
    pub open spec fn cur_len(self) -> int {
        self.lines[self.cursor_y as int].len() as int
    }

    /// A buffer always has a line, and the cursor lies on a line, at most one
    /// past its last character; so do the cursors of saved snapshots.
    pub open spec fn wf(self) -> bool {
        &&& self.lines.len() >= 1
        &&& self.cursor_y < self.lines.len()
        &&& self.cursor_x <= self.lines[self.cursor_y as int].len()
        &&& forall|i: int| 0 <= i < self.undo.len() ==> (#[trigger] self.undo[i]).wf()
        &&& forall|i: int| 0 <= i < self.redo.len() ==> (#[trigger] self.redo[i]).wf()
    }

    /// This buffer's text and cursor as a snapshot.
    pub open spec fn snapshot(self) -> SnapshotV {
        SnapshotV { lines: self.lines, cursor_x: self.cursor_x, cursor_y: self.cursor_y }
    }
}

impl Buffer {
    /// The buffer's invariant.
    pub open spec fn wf(&self) -> bool {
        &&& self@.wf()
        &&& self.cursor_y < self.lines.len()
    }
}


// ── Cursor and line operations of one buffer ───────────────────────────────

/// The column a cursor at `x` may take on a line of `len` characters: on the
/// last character at most for a block cursor (Normal and Visual modes), one
/// past the end otherwise.
pub open spec fn clamp_x(x: int, len: int, blk: bool) -> int {
    if blk {
        if len == 0 {
            0
        } else {
            min_int(x, len - 1)
        }
    } else {
        min_int(x, len)
    }
}

/// `n - 1`, or 0 for 0.
pub open spec fn pred_sat(n: int) -> int {
    if n > 0 {
        n - 1
    } else {
        0
    }
}

impl BufferV {
    /// The cursor clamped into its line (onto its last character for a block cursor).
    pub open spec fn clamp_cursor_spec(self, blk: bool) -> BufferV {
        BufferV { cursor_x: clamp_x(self.cursor_x as int, self.cur_len(), blk) as usize, ..self }
    }

    /// Moving to line `y` keeps the remembered column (set from the current
    /// column if none is remembered).
    pub open spec fn vertical_spec(self, y: int, blk: bool) -> BufferV {
        let d = match self.desired_x {
            Some(d) => d,
            None => self.cursor_x,
        };
        BufferV {
            desired_x: Some(d),
            cursor_y: y as usize,
            cursor_x: clamp_x(d as int, self.lines[y].len() as int, blk) as usize,
            ..self
        }
    }

    /// One line up, unless on the first line.
    pub open spec fn move_up_spec(self, blk: bool) -> BufferV {
        if self.cursor_y == 0 {
            self
        } else {
            self.vertical_spec(self.cursor_y - 1, blk)
        }
    }

    /// One line down, unless on the last line.
    pub open spec fn move_down_spec(self, blk: bool) -> BufferV {
        if self.cursor_y + 1 >= self.lines.len() {
            self
        } else {
            self.vertical_spec(self.cursor_y + 1, blk)
        }
    }

    /// Removes the cursor's line (leaving one empty line when it was the only
    /// one) and keeps the cursor on a line, on a character.
    pub open spec fn delete_line_spec(self) -> BufferV {
        let l1 = self.lines.remove(self.cursor_y as int);
        let l2 = if l1.len() == 0 {
            seq![Seq::<char>::empty()]
        } else {
            l1
        };
        let y = if self.cursor_y >= l2.len() {
            l2.len() - 1
        } else {
            self.cursor_y as int
        };
        BufferV {
            lines: l2,
            cursor_y: y as usize,
            cursor_x: min_int(self.cursor_x as int, pred_sat(l2[y].len() as int)) as usize,
            ..self
        }
    }

    /// The yanked lines inserted below the cursor's line; the cursor moves to
    /// the first of them.
    pub open spec fn paste_below_spec(self) -> BufferV {
        if self.yank.len() == 0 {
            self
        } else {
            let idx = min_int(self.cursor_y + 1, self.lines.len() as int);
            BufferV {
                lines: self.lines.take(idx) + self.yank + self.lines.skip(idx),
                cursor_y: idx as usize,
                cursor_x: 0,
                ..self
            }
        }
    }

    /// The yanked lines inserted above the cursor's line; the cursor stays on
    /// the line index, now the first of them.
    pub open spec fn paste_above_spec(self) -> BufferV {
        if self.yank.len() == 0 {
            self
        } else {
            BufferV {
                lines: self.lines.take(self.cursor_y as int) + self.yank + self.lines.skip(
                    self.cursor_y as int,
                ),
                cursor_x: 0,
                ..self
            }
        }
    }

    /// Records a snapshot for undo; a new change forgets the redo history.
    pub open spec fn push_snapshot_spec(self, snap: SnapshotV) -> BufferV {
        BufferV { undo: self.undo.push(snap), redo: Seq::empty(), ..self }
    }

    /// Restores the last undo snapshot, saving the current state for redo.
    pub open spec fn undo_spec(self) -> BufferV {
        if self.undo.len() == 0 {
            self
        } else {
            let snap = self.undo.last();
            BufferV {
                redo: self.redo.push(self.snapshot()),
                undo: self.undo.drop_last(),
                lines: snap.lines,
                cursor_x: snap.cursor_x,
                cursor_y: snap.cursor_y,
                ..self
            }
        }
    }

    /// Restores the last redo snapshot, saving the current state for undo.
    pub open spec fn redo_spec(self) -> BufferV {
        if self.redo.len() == 0 {
            self
        } else {
            let snap = self.redo.last();
            BufferV {
                undo: self.undo.push(self.snapshot()),
                redo: self.redo.drop_last(),
                lines: snap.lines,
                cursor_x: snap.cursor_x,
                cursor_y: snap.cursor_y,
                ..self
            }
        }
    }

    /// Scrolls so that the cursor's line is among `h` visible lines.
    pub open spec fn ensure_visible_spec(self, h: int) -> BufferV {
        if h == 0 {
            self
        } else {
            let s1 = if self.cursor_y < self.scroll_offset {
                self.cursor_y as int
            } else {
                self.scroll_offset as int
            };
            let s2 = if self.cursor_y >= s1 + h {
                self.cursor_y - h + 1
            } else {
                s1
            };
            BufferV { scroll_offset: s2 as usize, ..self }
        }
    }
}

/// A document with one empty line and nothing else: no file, no results, no
/// selection, nothing yanked, no history.
pub open spec fn empty_buffer() -> BufferV {
    BufferV {
        lines: seq![Seq::<char>::empty()],
        cursor_x: 0,
        cursor_y: 0,
        desired_x: None,
        scroll_offset: 0,
        results: Seq::empty(),
        file_path: None,
        dirty: false,
        selection: None,
        yank: Seq::empty(),
        undo: Seq::empty(),
        redo: Seq::empty(),
    }
}

/// A copy of a list of lines.
pub fn clone_lines(v: &Vec<String>) -> (r: Vec<String>)
    ensures
        strs(r@) == strs(v@),
        r@.len() == v@.len(),
{
    let mut r: Vec<String> = Vec::new();
    let mut i: usize = 0;
    while i < v.len()
        invariant
            i <= v.len(),
            r@.len() == i,
            forall|k: int| 0 <= k < i ==> r@[k]@ == v@[k]@,
        decreases v.len() - i,
    {
        r.push(v[i].clone());
        i = i + 1;
    }
    assert(strs(r@) =~= strs(v@));
    r
}

impl Buffer {
    /// An empty document: one empty line.
    pub fn new() -> (r: Buffer)
        ensures
            r.wf(),
            r@ == empty_buffer(),
    {
        let mut lines: Vec<String> = Vec::new();
        lines.push(String::new());
        let r = Buffer {
            lines,
            cursor_x: 0,
            cursor_y: 0,
            desired_x: None,
            scroll_offset: 0,
            results: Vec::new(),
            file_path: None,
            dirty: false,
            selection: None,
            yank_buffer: Vec::new(),
            undo_stack: Vec::new(),
            redo_stack: Vec::new(),
        };
        assert(r@.lines =~= seq![Seq::<char>::empty()]);
        assert(r@.results =~= Seq::<LineOutputV>::empty());
        assert(r@.yank =~= Seq::<Seq<char>>::empty());
        assert(r@.undo =~= Seq::<SnapshotV>::empty());
        assert(r@.redo =~= Seq::<SnapshotV>::empty());
        r
    }

    /// The length of line `y`.
    pub fn line_len(&self, y: usize) -> (n: usize)
        requires
            y < self.lines.len(),
        ensures
            n == self@.lines[y as int].len(),
    {
        char_count(&self.lines[y])
    }

    /// Clamps the cursor into its line (onto its last character for a block cursor).
    pub fn clamp_cursor(&mut self, blk: bool)
        requires
            old(self).wf(),
        ensures
            final(self).wf(),
            final(self)@ == old(self)@.clamp_cursor_spec(blk),
    {
        let len = self.line_len(self.cursor_y);
        if blk {
            if len == 0 {
                self.cursor_x = 0;
            } else if self.cursor_x > len - 1 {
                self.cursor_x = len - 1;
            }
        } else if self.cursor_x > len {
            self.cursor_x = len;
        }
    }

    fn vertical(&mut self, y: usize, blk: bool)
        requires
            old(self).wf(),
            y < old(self).lines.len(),
        ensures
            final(self).wf(),
            final(self)@ == old(self)@.vertical_spec(y as int, blk),
    {
        let d = match self.desired_x {
            Some(d) => d,
            None => self.cursor_x,
        };
        self.desired_x = Some(d);
        self.cursor_y = y;
        let len = self.line_len(y);
        self.cursor_x = if blk {
            if len == 0 {
                0
            } else if d < len - 1 {
                d
            } else {
                len - 1
            }
        } else if d < len {
            d
        } else {
            len
        };
    }

    /// Moves the cursor up a line, keeping the remembered column.
    pub fn move_up(&mut self, blk: bool)
        requires
            old(self).wf(),
        ensures
            final(self).wf(),
            final(self)@ == old(self)@.move_up_spec(blk),
    {
        if self.cursor_y == 0 {
            return;
        }
        self.vertical(self.cursor_y - 1, blk);
    }

    /// Moves the cursor down a line, keeping the remembered column.
    pub fn move_down(&mut self, blk: bool)
        requires
            old(self).wf(),
        ensures
            final(self).wf(),
            final(self)@ == old(self)@.move_down_spec(blk),
    {
        if self.cursor_y + 1 >= self.lines.len() {
            return;
        }
        self.vertical(self.cursor_y + 1, blk);
    }

    /// Deletes the cursor's line and returns its text.
    pub fn delete_line(&mut self) -> (removed: String)
        requires
            old(self).wf(),
        ensures
            final(self).wf(),
            final(self)@ == old(self)@.delete_line_spec(),
            removed@ == old(self)@.lines[old(self).cursor_y as int],
    {
        let cy = self.cursor_y;
        let ghost l0 = self.lines@;
        let removed = self.lines.remove(cy);
        assert(strs(self.lines@) =~= strs(l0).remove(cy as int));
        if self.lines.len() == 0 {
            self.lines.push(String::new());
            assert(strs(self.lines@) =~= seq![Seq::<char>::empty()]);
        }
        if self.cursor_y >= self.lines.len() {
            self.cursor_y = self.lines.len() - 1;
        }
        let len = self.line_len(self.cursor_y);
        let m = if len > 0 {
            len - 1
        } else {
            0
        };
        if self.cursor_x > m {
            self.cursor_x = m;
        }
        removed
    }

    /// Inserts the lines of the yank buffer at line index `idx`.
    fn insert_yanked(&mut self, idx: usize)
        requires
            old(self).wf(),
            idx <= old(self).lines.len(),
        ensures
            strs(final(self).lines@) == old(self)@.lines.take(idx as int) + old(self)@.yank + old(
                self,
            )@.lines.skip(idx as int),
            final(self)@ == (BufferV { lines: strs(final(self).lines@), ..old(self)@ }),
            final(self).lines.len() == old(self).lines.len() + old(self).yank_buffer.len(),
    {
        let ghost l0 = strs(self.lines@);
        let ghost y = strs(self.yank_buffer@);
        let mut j: usize = 0;
        assert(l0.take(idx as int) + y.take(0) + l0.skip(idx as int) =~= l0);
        while j < self.yank_buffer.len()
            invariant
                self@ == (BufferV { lines: strs(self.lines@), ..old(self)@ }),
                y == strs(self.yank_buffer@),
                l0 == old(self)@.lines,
                idx <= l0.len(),
                j <= self.yank_buffer.len(),
                self.lines.len() == l0.len() + j,
                strs(self.lines@) == l0.take(idx as int) + y.take(j as int) + l0.skip(idx as int),
            decreases self.yank_buffer.len() - j,
        {
            let line = self.yank_buffer[j].clone();
            let ghost before = self.lines@;
            self.lines.insert(idx + j, line);
            assert(strs(self.lines@) =~= strs(before).insert(idx + j, y[j as int]));
            assert(strs(self.lines@) =~= l0.take(idx as int) + y.take(j + 1) + l0.skip(idx as int));
            j = j + 1;
        }
        assert(y.take(self.yank_buffer.len() as int) =~= y);
    }

    /// Pastes the yanked lines below the cursor's line.
    pub fn paste_below(&mut self)
        requires
            old(self).wf(),
        ensures
            final(self).wf(),
            final(self)@ == old(self)@.paste_below_spec(),
    {
        if self.yank_buffer.len() == 0 {
            return;
        }
        let idx = if self.cursor_y + 1 < self.lines.len() {
            self.cursor_y + 1
        } else {
            self.lines.len()
        };
        self.insert_yanked(idx);
        self.cursor_y = idx;
        self.cursor_x = 0;
    }

    /// Pastes the yanked lines above the cursor's line.
    pub fn paste_above(&mut self)
        requires
            old(self).wf(),
        ensures
            final(self).wf(),
            final(self)@ == old(self)@.paste_above_spec(),
    {
        if self.yank_buffer.len() == 0 {
            return;
        }
        let cy = self.cursor_y;
        self.insert_yanked(cy);
        self.cursor_x = 0;
    }

    /// The text and cursor as a snapshot.
    pub fn take_snapshot(&self) -> (r: UndoSnapshot)
        requires
            self.wf(),
        ensures
            r@ == self@.snapshot(),
            r@.wf(),
    {
        UndoSnapshot { lines: clone_lines(&self.lines), cursor_x: self.cursor_x, cursor_y: self.cursor_y }
    }

    /// Records `snap` for undo and forgets the redo history.
    pub fn push_snapshot(&mut self, snap: UndoSnapshot)
        requires
            old(self).wf(),
            snap@.wf(),
        ensures
            final(self).wf(),
            final(self)@ == old(self)@.push_snapshot_spec(snap@),
    {
        let ghost u0 = self.undo_stack@;
        self.undo_stack.push(snap);
        self.redo_stack.clear();
        assert(snaps(self.undo_stack@) =~= snaps(u0).push(snap@));
        assert(snaps(self.redo_stack@) =~= Seq::<SnapshotV>::empty());
    }

    /// Undoes the last change; `false` when there is none.
    pub fn undo(&mut self) -> (r: bool)
        requires
            old(self).wf(),
        ensures
            final(self).wf(),
            final(self)@ == old(self)@.undo_spec(),
            r == (old(self)@.undo.len() > 0),
    {
        if self.undo_stack.len() == 0 {
            return false;
        }
        let ghost u0 = self.undo_stack@;
        let ghost r0 = self.redo_stack@;
        let snap = self.undo_stack.pop().unwrap();
        assert(snaps(self.undo_stack@) =~= snaps(u0).drop_last());
        assert(snap@ == snaps(u0).last());
        let cur = self.take_snapshot();
        self.redo_stack.push(cur);
        assert(snaps(self.redo_stack@) =~= snaps(r0).push(old(self)@.snapshot()));
        self.lines = snap.lines;
        self.cursor_x = snap.cursor_x;
        self.cursor_y = snap.cursor_y;
        assert(snaps(u0).last().wf());
        true
    }

    /// Redoes the last undone change; `false` when there is none.
    pub fn redo(&mut self) -> (r: bool)
        requires
            old(self).wf(),
        ensures
            final(self).wf(),
            final(self)@ == old(self)@.redo_spec(),
            r == (old(self)@.redo.len() > 0),
    {
        if self.redo_stack.len() == 0 {
            return false;
        }
        let ghost u0 = self.undo_stack@;
        let ghost r0 = self.redo_stack@;
        let snap = self.redo_stack.pop().unwrap();
        assert(snaps(self.redo_stack@) =~= snaps(r0).drop_last());
        assert(snap@ == snaps(r0).last());
        let cur = self.take_snapshot();
        self.undo_stack.push(cur);
        assert(snaps(self.undo_stack@) =~= snaps(u0).push(old(self)@.snapshot()));
        self.lines = snap.lines;
        self.cursor_x = snap.cursor_x;
        self.cursor_y = snap.cursor_y;
        assert(snaps(r0).last().wf());
        true
    }

    /// Scrolls so that the cursor's line is among `h` visible lines.
    pub fn ensure_cursor_visible(&mut self, h: usize)
        requires
            old(self).wf(),
        ensures
            final(self).wf(),
            final(self)@ == old(self)@.ensure_visible_spec(h as int),
    {
        if h == 0 {
            return;
        }
        if self.cursor_y < self.scroll_offset {
            self.scroll_offset = self.cursor_y;
        }
        if self.cursor_y - self.scroll_offset >= h {
            self.scroll_offset = self.cursor_y - h + 1;
        }
    }
}


// ── Editing of the cursor's line ───────────────────────────────────────────

/// The position just past the whitespace that ends at `p` going backward:
/// stops at 0 or at the first non-whitespace character.
pub open spec fn skip_space_back(l: Seq<char>, p: int) -> int
    decreases p,
{
    if 0 < p < l.len() && space_char(l[p]) {
        skip_space_back(l, p - 1)
    } else {
        p
    }
}

/// The last position of the run (word or punctuation) that contains the
/// non-whitespace character at `p`.
pub open spec fn run_last(l: Seq<char>, p: int) -> int {
    if word_char(l[p]) {
        run_end(l, p + 1, CharClass::Word) - 1
    } else {
        run_end(l, p + 1, CharClass::Punct) - 1
    }
}

/// Where `w` lands on a line, from column `cx` inside it: past the current
/// word or punctuation run, then past whitespace.
pub open spec fn word_forward_pos(l: Seq<char>, cx: int) -> int {
    let p1 = if word_char(l[cx]) {
        run_end(l, cx, CharClass::Word)
    } else if !space_char(l[cx]) {
        run_end(l, cx, CharClass::Punct)
    } else {
        cx
    };
    run_end(l, p1, CharClass::Space)
}

/// Where `b` lands on a line, from column `cx > 0`: back over whitespace,
/// then to the start of the word or punctuation run.
pub open spec fn word_backward_pos(l: Seq<char>, cx: int) -> int {
    let p0 = skip_space_back(l, cx - 1);
    if p0 > 0 && word_char(l[p0]) {
        run_start(l, p0, CharClass::Word)
    } else if p0 > 0 && !space_char(l[p0]) {
        run_start(l, p0, CharClass::Punct)
    } else {
        p0
    }
}

/// The end of what a forward word deletion removes from column `cx`: the
/// whitespace, then one word or punctuation run.
pub open spec fn delete_forward_end(l: Seq<char>, cx: int) -> int {
    let e0 = run_end(l, cx, CharClass::Space);
    if e0 < l.len() && word_char(l[e0]) {
        run_end(l, e0, CharClass::Word)
    } else if e0 < l.len() && !space_char(l[e0]) {
        run_end(l, e0, CharClass::Punct)
    } else {
        e0
    }
}

/// The start of what a backward word deletion removes before column `cx`:
/// the whitespace, then one word or punctuation run.
pub open spec fn delete_backward_start(l: Seq<char>, cx: int) -> int {
    let s0 = run_start(l, cx, CharClass::Space);
    if s0 > 0 && word_char(l[s0 - 1]) {
        run_start(l, s0, CharClass::Word)
    } else if s0 > 0 && !space_char(l[s0 - 1]) {
        run_start(l, s0, CharClass::Punct)
    } else {
        s0
    }
}

/// The end of what `cw` / `ce` removes from column `cx < len`: the run under
/// the cursor; from whitespace, the whitespace and the run after it.
pub open spec fn change_word_end(l: Seq<char>, cx: int) -> int {
    if word_char(l[cx]) {
        run_end(l, cx, CharClass::Word)
    } else if !space_char(l[cx]) {
        run_end(l, cx, CharClass::Punct)
    } else {
        let e0 = run_end(l, cx, CharClass::Space);
        if e0 < l.len() && word_char(l[e0]) {
            run_end(l, e0, CharClass::Word)
        } else {
            run_end(l, e0, CharClass::Punct)
        }
    }
}

impl BufferV {
    /// The cursor's line.
    pub open spec fn cur(self) -> Seq<char> {
        self.lines[self.cursor_y as int]
    }

    /// Line `y` replaced by `l`.
    pub open spec fn with_line(self, y: int, l: Seq<char>) -> BufferV {
        BufferV { lines: self.lines.update(y, l), ..self }
    }

    /// The cursor on the first column of the next line, when there is one.
    pub open spec fn next_line_start(self) -> BufferV {
        if self.cursor_y + 1 < self.lines.len() {
            BufferV { cursor_y: (self.cursor_y + 1) as usize, cursor_x: 0, ..self }
        } else {
            self
        }
    }

    /// `w`: to the start of the next word, or of the next line.
    pub open spec fn word_forward_spec(self) -> BufferV {
        let l = self.cur();
        let len = l.len() as int;
        if self.cursor_x >= len {
            self.next_line_start()
        } else {
            let p = word_forward_pos(l, self.cursor_x as int);
            if p >= len {
                if self.cursor_y + 1 < self.lines.len() {
                    self.next_line_start()
                } else {
                    BufferV { cursor_x: pred_sat(len) as usize, ..self }
                }
            } else {
                BufferV { cursor_x: p as usize, ..self }
            }
        }
    }

    /// `e`: to the end of the current or next word, moving on to the next
    /// line from the last character.
    pub open spec fn word_end_spec(self) -> BufferV {
        let l = self.cur();
        let len = l.len() as int;
        let cx = self.cursor_x as int;
        if len == 0 || (cx >= pred_sat(len) && self.cursor_y + 1 < self.lines.len()) {
            if self.cursor_y + 1 < self.lines.len() {
                let nl = self.lines[self.cursor_y + 1];
                let p = run_end(nl, 0, CharClass::Space);
                let x = if nl.len() == 0 {
                    0
                } else if p < nl.len() {
                    run_last(nl, p)
                } else {
                    p
                };
                BufferV { cursor_y: (self.cursor_y + 1) as usize, cursor_x: x as usize, ..self }
            } else {
                self
            }
        } else if cx + 1 < len {
            let p = run_end(l, cx + 1, CharClass::Space);
            if p >= len {
                BufferV { cursor_x: (len - 1) as usize, ..self }
            } else {
                BufferV { cursor_x: run_last(l, p) as usize, ..self }
            }
        } else {
            self
        }
    }

    /// `b`: to the start of the current or previous word, moving to the last
    /// character of the previous line from column 0.
    pub open spec fn word_backward_spec(self) -> BufferV {
        if self.cursor_x == 0 {
            if self.cursor_y > 0 {
                BufferV {
                    cursor_y: (self.cursor_y - 1) as usize,
                    cursor_x: pred_sat(self.lines[self.cursor_y - 1].len() as int) as usize,
                    ..self
                }
            } else {
                self
            }
        } else {
            BufferV { cursor_x: word_backward_pos(self.cur(), self.cursor_x as int) as usize, ..self }
        }
    }

    /// Deletes forward over whitespace and one word; at the end of a line,
    /// joins the next line to it.
    pub open spec fn delete_word_forward_spec(self) -> BufferV {
        let l = self.cur();
        let cy = self.cursor_y as int;
        if self.cursor_x >= l.len() {
            if cy + 1 < self.lines.len() {
                BufferV { lines: self.lines.update(cy, l + self.lines[cy + 1]).remove(cy + 1), ..self }
            } else {
                self
            }
        } else {
            let e = delete_forward_end(l, self.cursor_x as int);
            self.with_line(cy, remove_range_spec(l, self.cursor_x as int, e))
        }
    }

    /// Deletes backward over whitespace and one word; at the start of a line,
    /// joins it to the previous line.
    pub open spec fn delete_word_backward_spec(self) -> BufferV {
        let l = self.cur();
        let cy = self.cursor_y as int;
        if self.cursor_x == 0 {
            if cy > 0 {
                let prev = self.lines[cy - 1];
                BufferV {
                    lines: self.lines.update(cy - 1, prev + l).remove(cy),
                    cursor_y: (cy - 1) as usize,
                    cursor_x: prev.len() as usize,
                    ..self
                }
            } else {
                self
            }
        } else {
            let s = delete_backward_start(l, self.cursor_x as int);
            BufferV {
                cursor_x: s as usize,
                ..self.with_line(cy, remove_range_spec(l, s, self.cursor_x as int))
            }
        }
    }

    /// `diw`: removes the word under the cursor; the cursor goes to its start.
    pub open spec fn delete_inner_word_spec(self) -> BufferV {
        let l = self.cur();
        if l.len() == 0 {
            self
        } else {
            let (s, e) = inner_word(l, self.cursor_x as int);
            BufferV {
                cursor_x: s as usize,
                ..self.with_line(self.cursor_y as int, remove_range_spec(l, s, e))
            }
        }
    }

    /// `cw` / `ce`: removes from the cursor to the end of the word.
    pub open spec fn change_word_spec(self) -> BufferV {
        let l = self.cur();
        if self.cursor_x < l.len() {
            let e = change_word_end(l, self.cursor_x as int);
            self.with_line(self.cursor_y as int, remove_range_spec(l, self.cursor_x as int, e))
        } else {
            self
        }
    }
}

impl Buffer {
    /// Replaces line `y` by `s`.
    fn set_line(&mut self, y: usize, s: String)
        requires
            y < old(self).lines.len(),
        ensures
            final(self)@ == old(self)@.with_line(y as int, s@),
            final(self).lines.len() == old(self).lines.len(),
    {
        let ghost l0 = self.lines@;
        self.lines.set(y, s);
        assert(strs(self.lines@) =~= strs(l0).update(y as int, s@));
    }

    /// The characters of line `y`.
    fn line_chars(&self, y: usize) -> (v: Vec<char>)
        requires
            y < self.lines.len(),
        ensures
            v@ == self@.lines[y as int],
    {
        chars_of(self.lines[y].as_str())
    }

    /// Removes line `y` and returns it.
    fn take_line(&mut self, y: usize) -> (r: String)
        requires
            y < old(self).lines.len(),
        ensures
            r@ == old(self)@.lines[y as int],
            final(self)@ == (BufferV { lines: old(self)@.lines.remove(y as int), ..old(self)@ }),
            final(self).lines.len() == old(self).lines.len() - 1,
    {
        let ghost l0 = self.lines@;
        let r = self.lines.remove(y);
        assert(strs(self.lines@) =~= strs(l0).remove(y as int));
        r
    }

    /// Inserts `s` as line `y`.
    fn put_line(&mut self, y: usize, s: String)
        requires
            y <= old(self).lines.len(),
        ensures
            final(self)@ == (BufferV { lines: old(self)@.lines.insert(y as int, s@), ..old(self)@ }),
            final(self).lines.len() == old(self).lines.len() + 1,
    {
        let ghost l0 = self.lines@;
        self.lines.insert(y, s);
        assert(strs(self.lines@) =~= strs(l0).insert(y as int, s@));
    }

    /// `w`.
    pub fn move_word_forward(&mut self)
        requires
            old(self).wf(),
        ensures
            final(self).wf(),
            final(self)@ == old(self)@.word_forward_spec(),
    {
        let cy = self.cursor_y;
        let chars = self.line_chars(cy);
        let len = chars.len();
        if self.cursor_x >= len {
            if cy + 1 < self.lines.len() {
                self.cursor_y = cy + 1;
                self.cursor_x = 0;
            }
            return;
        }
        let cx = self.cursor_x;
        let p1 = if is_word_char(chars[cx]) {
            scan_forward(chars.as_slice(), cx, CharClass::Word)
        } else if !is_whitespace(chars[cx]) {
            scan_forward(chars.as_slice(), cx, CharClass::Punct)
        } else {
            cx
        };
        let p = scan_forward(chars.as_slice(), p1, CharClass::Space);
        if p >= len {
            if cy + 1 < self.lines.len() {
                self.cursor_y = cy + 1;
                self.cursor_x = 0;
            } else {
                self.cursor_x = if len > 0 {
                    len - 1
                } else {
                    0
                };
            }
        } else {
            self.cursor_x = p;
        }
    }

    /// The last position of the run holding the non-whitespace character `p`.
    fn last_of_run(chars: &Vec<char>, p: usize) -> (r: usize)
        requires
            p < chars.len(),
        ensures
            r == run_last(chars@, p as int),
            p <= r < chars@.len(),
    {
        let k = if is_word_char(chars[p]) {
            CharClass::Word
        } else {
            CharClass::Punct
        };
        let e = scan_forward(chars.as_slice(), p + 1, k);
        e - 1
    }

    /// `e`.
    pub fn move_word_end(&mut self)
        requires
            old(self).wf(),
        ensures
            final(self).wf(),
            final(self)@ == old(self)@.word_end_spec(),
    {
        let cy = self.cursor_y;
        let chars = self.line_chars(cy);
        let len = chars.len();
        let cx = self.cursor_x;
        let last = if len > 0 {
            len - 1
        } else {
            0
        };
        if len == 0 || (cx >= last && cy + 1 < self.lines.len()) {
            if cy + 1 < self.lines.len() {
                let next = self.line_chars(cy + 1);
                let nlen = next.len();
                let x = if nlen == 0 {
                    0
                } else {
                    let p = scan_forward(next.as_slice(), 0, CharClass::Space);
                    if p < nlen {
                        Self::last_of_run(&next, p)
                    } else {
                        p
                    }
                };
                self.cursor_y = cy + 1;
                self.cursor_x = x;
            }
            return;
        }
        if cx < len - 1 {
            let p = scan_forward(chars.as_slice(), cx + 1, CharClass::Space);
            if p >= len {
                self.cursor_x = len - 1;
            } else {
                self.cursor_x = Self::last_of_run(&chars, p);
            }
        }
    }

    /// `b`.
    pub fn move_word_backward(&mut self)
        requires
            old(self).wf(),
        ensures
            final(self).wf(),
            final(self)@ == old(self)@.word_backward_spec(),
    {
        let cy = self.cursor_y;
        if self.cursor_x == 0 {
            if cy > 0 {
                let plen = self.line_len(cy - 1);
                self.cursor_y = cy - 1;
                self.cursor_x = if plen > 0 {
                    plen - 1
                } else {
                    0
                };
            }
            return;
        }
        let chars = self.line_chars(cy);
        let ghost l = chars@;
        let mut pos = self.cursor_x - 1;
        while pos > 0 && is_whitespace(chars[pos])
            invariant
                pos < chars@.len(),
                l == chars@,
                skip_space_back(l, pos as int) == skip_space_back(l, self.cursor_x - 1),
                self.cursor_x <= chars@.len(),
                self.cursor_x > 0,
            decreases pos,
        {
            pos = pos - 1;
        }
        let p = if pos > 0 && is_word_char(chars[pos]) {
            scan_backward(chars.as_slice(), pos, CharClass::Word)
        } else if pos > 0 && !is_whitespace(chars[pos]) {
            scan_backward(chars.as_slice(), pos, CharClass::Punct)
        } else {
            pos
        };
        self.cursor_x = p;
    }
}


impl BufferV {
    /// The next line appended to the cursor's line.
    pub open spec fn join_next_spec(self) -> BufferV {
        let cy = self.cursor_y as int;
        BufferV { lines: self.lines.update(cy, self.cur() + self.lines[cy + 1]).remove(cy + 1), ..self }
    }

    /// The cursor's line appended to the previous one; the cursor goes to the
    /// joint.
    pub open spec fn join_prev_spec(self) -> BufferV {
        let cy = self.cursor_y as int;
        let prev = self.lines[cy - 1];
        BufferV {
            lines: self.lines.update(cy - 1, prev + self.cur()).remove(cy),
            cursor_y: (cy - 1) as usize,
            cursor_x: prev.len() as usize,
            ..self
        }
    }

    /// Typing `c`: inserted at the cursor, which moves past it.
    pub open spec fn type_char_spec(self, c: char) -> BufferV {
        BufferV {
            cursor_x: (self.cursor_x + 1) as usize,
            ..self.with_line(self.cursor_y as int, insert_char_spec(self.cur(), self.cursor_x as int, c))
        }
    }

    /// Typing the text `t` (no line breaks): inserted at the cursor, which
    /// moves past it.
    pub open spec fn type_text_spec(self, t: Seq<char>) -> BufferV {
        BufferV {
            cursor_x: (self.cursor_x + t.len()) as usize,
            ..self.with_line(self.cursor_y as int, insert_text_spec(self.cur(), self.cursor_x as int, t))
        }
    }

    /// Enter: the line is split at the cursor, which moves to the start of
    /// the new line.
    pub open spec fn split_line_spec(self) -> BufferV {
        let cy = self.cursor_y as int;
        let l = self.cur();
        let cx = self.cursor_x as int;
        BufferV {
            lines: self.lines.update(cy, l.take(cx)).insert(cy + 1, l.skip(cx)),
            cursor_y: (cy + 1) as usize,
            cursor_x: 0,
            ..self
        }
    }

    /// Backspace: removes the character before the cursor, or joins the line
    /// to the previous one; `false` when at the very start.
    pub open spec fn backspace_spec(self) -> (BufferV, bool) {
        if self.cursor_x > 0 {
            (
                BufferV {
                    cursor_x: (self.cursor_x - 1) as usize,
                    ..self.with_line(
                        self.cursor_y as int,
                        remove_range_spec(self.cur(), self.cursor_x - 1, self.cursor_x as int),
                    )
                },
                true,
            )
        } else if self.cursor_y > 0 {
            (self.join_prev_spec(), true)
        } else {
            (self, false)
        }
    }

    /// Delete: removes the character under the cursor, or joins the next line;
    /// `false` when at the very end.
    pub open spec fn delete_char_spec(self) -> (BufferV, bool) {
        if self.cursor_x < self.cur().len() {
            (
                self.with_line(
                    self.cursor_y as int,
                    remove_range_spec(self.cur(), self.cursor_x as int, self.cursor_x + 1),
                ),
                true,
            )
        } else if self.cursor_y + 1 < self.lines.len() {
            (self.join_next_spec(), true)
        } else {
            (self, false)
        }
    }

    /// Left in insert style: wraps to the end of the previous line.
    pub open spec fn left_wrap_spec(self) -> BufferV {
        if self.cursor_x > 0 {
            BufferV { cursor_x: (self.cursor_x - 1) as usize, ..self }
        } else if self.cursor_y > 0 {
            BufferV {
                cursor_y: (self.cursor_y - 1) as usize,
                cursor_x: self.lines[self.cursor_y - 1].len() as usize,
                ..self
            }
        } else {
            self
        }
    }

    /// Right in insert style: wraps to the start of the next line.
    pub open spec fn right_wrap_spec(self) -> BufferV {
        if self.cursor_x < self.cur().len() {
            BufferV { cursor_x: (self.cursor_x + 1) as usize, ..self }
        } else {
            self.next_line_start()
        }
    }

    /// Ten lines up, keeping the column where the line allows.
    pub open spec fn page_up_spec(self) -> BufferV {
        let y = if self.cursor_y >= 10 {
            self.cursor_y - 10
        } else {
            0
        };
        BufferV {
            cursor_y: y as usize,
            cursor_x: min_int(self.cursor_x as int, self.lines[y].len() as int) as usize,
            ..self
        }
    }

    /// Ten lines down, keeping the column where the line allows.
    pub open spec fn page_down_spec(self) -> BufferV {
        let y = min_int(self.cursor_y + 10, self.lines.len() - 1);
        BufferV {
            cursor_y: y as usize,
            cursor_x: min_int(self.cursor_x as int, self.lines[y].len() as int) as usize,
            ..self
        }
    }

    /// `x`: removes the character under the cursor (which is then kept on the
    /// line, on a character when `blk`); `false` when there is none.
    pub open spec fn delete_under_spec(self, blk: bool) -> (BufferV, bool) {
        let l = self.cur();
        if l.len() > 0 && self.cursor_x < l.len() {
            (
                self.with_line(
                    self.cursor_y as int,
                    remove_range_spec(l, self.cursor_x as int, self.cursor_x + 1),
                ).clamp_cursor_spec(blk),
                true,
            )
        } else {
            (self, false)
        }
    }

    /// `s`: removes the character under the cursor, if any.
    pub open spec fn substitute_spec(self) -> BufferV {
        let l = self.cur();
        if l.len() > 0 && self.cursor_x < l.len() {
            self.with_line(self.cursor_y as int, remove_range_spec(l, self.cursor_x as int, self.cursor_x + 1))
        } else {
            self
        }
    }

    /// `C`: the line cut at the cursor.
    pub open spec fn truncate_spec(self) -> BufferV {
        self.with_line(self.cursor_y as int, self.cur().take(self.cursor_x as int))
    }

    /// `c0`: the line before the cursor removed; the cursor goes to column 0.
    pub open spec fn cut_to_start_spec(self) -> BufferV {
        BufferV { cursor_x: 0, ..self.with_line(self.cursor_y as int, self.cur().skip(self.cursor_x as int)) }
    }

    /// `S` / `cc`: the line emptied.
    pub open spec fn clear_line_spec(self) -> BufferV {
        BufferV { cursor_x: 0, ..self.with_line(self.cursor_y as int, Seq::<char>::empty()) }
    }

    /// `o`: an empty line opened below the cursor's.
    pub open spec fn open_below_spec(self) -> BufferV {
        BufferV {
            lines: self.lines.insert(self.cursor_y + 1, Seq::<char>::empty()),
            cursor_y: (self.cursor_y + 1) as usize,
            cursor_x: 0,
            ..self
        }
    }

    /// `O`: an empty line opened above the cursor's (the cursor keeps its
    /// index, now on the new line).
    pub open spec fn open_above_spec(self) -> BufferV {
        BufferV {
            lines: self.lines.insert(self.cursor_y as int, Seq::<char>::empty()),
            cursor_x: 0,
            ..self
        }
    }

    /// `a`: one past the cursor, when the line has characters.
    pub open spec fn append_spec(self) -> BufferV {
        let len = self.cur().len() as int;
        if len > 0 {
            BufferV { cursor_x: min_int(self.cursor_x + 1, len) as usize, ..self }
        } else {
            self
        }
    }
}

impl Buffer {
    /// Line `y` with `t` appended.
    fn append_to_line(&mut self, y: usize, t: &String)
        requires
            y < old(self).lines.len(),
        ensures
            final(self)@ == old(self)@.with_line(y as int, old(self)@.lines[y as int] + t@),
            final(self).lines.len() == old(self).lines.len(),
    {
        let mut cur = self.lines[y].clone();
        cur.append(t.as_str());
        self.set_line(y, cur);
    }

    /// Joins the next line onto the cursor's line.
    fn join_next(&mut self)
        requires
            old(self).wf(),
            old(self).cursor_y + 1 < old(self).lines.len(),
        ensures
            final(self).wf(),
            final(self)@ == old(self)@.join_next_spec(),
    {
        let cy = self.cursor_y;
        let ghost b0 = self@;
        let next = self.take_line(cy + 1);
        self.append_to_line(cy, &next);
        assert(self@.lines =~= b0.join_next_spec().lines);
    }

    /// Joins the cursor's line onto the previous one.
    fn join_prev(&mut self)
        requires
            old(self).wf(),
            old(self).cursor_y > 0,
        ensures
            final(self).wf(),
            final(self)@ == old(self)@.join_prev_spec(),
    {
        let cy = self.cursor_y;
        let ghost b0 = self@;
        let cur = self.take_line(cy);
        let plen = self.line_len(cy - 1);
        self.append_to_line(cy - 1, &cur);
        self.cursor_y = cy - 1;
        self.cursor_x = plen;
        assert(self@.lines =~= b0.join_prev_spec().lines);
    }

    /// Removes characters `a..b` of the cursor's line.
    fn cut_cur(&mut self, a: usize, b: usize)
        requires
            old(self).wf(),
            a <= b,
            old(self).cursor_x <= a,
        ensures
            final(self).wf(),
            final(self)@ == old(self)@.with_line(
                old(self).cursor_y as int,
                remove_range_spec(old(self)@.cur(), a as int, b as int),
            ),
    {
        let cy = self.cursor_y;
        let mut line = self.lines[cy].clone();
        remove_range(&mut line, a, b);
        self.set_line(cy, line);
    }

    /// Deletes a word forward, or joins the next line at the end of a line.
    pub fn delete_word_forward(&mut self)
        requires
            old(self).wf(),
        ensures
            final(self).wf(),
            final(self)@ == old(self)@.delete_word_forward_spec(),
    {
        let cy = self.cursor_y;
        let chars = self.line_chars(cy);
        let len = chars.len();
        if self.cursor_x >= len {
            if cy + 1 < self.lines.len() {
                self.join_next();
            }
            return;
        }
        let cx = self.cursor_x;
        let e0 = scan_forward(chars.as_slice(), cx, CharClass::Space);
        let e = if e0 < len && is_word_char(chars[e0]) {
            scan_forward(chars.as_slice(), e0, CharClass::Word)
        } else if e0 < len && !is_whitespace(chars[e0]) {
            scan_forward(chars.as_slice(), e0, CharClass::Punct)
        } else {
            e0
        };
        self.cut_cur(cx, e);
    }

    /// Deletes a word backward, or joins the line to the previous one at its start.
    pub fn delete_word_backward(&mut self)
        requires
            old(self).wf(),
        ensures
            final(self).wf(),
            final(self)@ == old(self)@.delete_word_backward_spec(),
    {
        let cy = self.cursor_y;
        if self.cursor_x == 0 {
            if cy > 0 {
                self.join_prev();
            }
            return;
        }
        let chars = self.line_chars(cy);
        let cx = self.cursor_x;
        let s0 = scan_backward(chars.as_slice(), cx, CharClass::Space);
        let st = if s0 > 0 && is_word_char(chars[s0 - 1]) {
            scan_backward(chars.as_slice(), s0, CharClass::Word)
        } else if s0 > 0 && !is_whitespace(chars[s0 - 1]) {
            scan_backward(chars.as_slice(), s0, CharClass::Punct)
        } else {
            s0
        };
        self.cursor_x = st;
        let mut line = self.lines[cy].clone();
        remove_range(&mut line, st, cx);
        self.set_line(cy, line);
    }

    /// `diw`.
    pub fn delete_inner_word(&mut self)
        requires
            old(self).wf(),
        ensures
            final(self).wf(),
            final(self)@ == old(self)@.delete_inner_word_spec(),
    {
        let cy = self.cursor_y;
        let chars = self.line_chars(cy);
        if chars.len() == 0 {
            return;
        }
        let (st, en) = find_inner_word(chars.as_slice(), self.cursor_x);
        self.cursor_x = st;
        let mut line = self.lines[cy].clone();
        remove_range(&mut line, st, en);
        self.set_line(cy, line);
    }

    /// `cw` / `ce`.
    pub fn change_word(&mut self)
        requires
            old(self).wf(),
        ensures
            final(self).wf(),
            final(self)@ == old(self)@.change_word_spec(),
    {
        let cy = self.cursor_y;
        let chars = self.line_chars(cy);
        let len = chars.len();
        let cx = self.cursor_x;
        if cx < len {
            let e = if is_word_char(chars[cx]) {
                scan_forward(chars.as_slice(), cx, CharClass::Word)
            } else if !is_whitespace(chars[cx]) {
                scan_forward(chars.as_slice(), cx, CharClass::Punct)
            } else {
                let e0 = scan_forward(chars.as_slice(), cx, CharClass::Space);
                if e0 < len && is_word_char(chars[e0]) {
                    scan_forward(chars.as_slice(), e0, CharClass::Word)
                } else {
                    scan_forward(chars.as_slice(), e0, CharClass::Punct)
                }
            };
            self.cut_cur(cx, e);
        }
    }
}


impl Buffer {
    /// Types `c` at the cursor.
    pub fn type_char(&mut self, c: char)
        requires
            old(self).wf(),
        ensures
            final(self).wf(),
            final(self)@ == old(self)@.type_char_spec(c),
    {
        let cy = self.cursor_y;
        let cx = self.cursor_x;
        let mut line = self.lines[cy].clone();
        insert_char(&mut line, cx, c);
        let n = char_count(&line);
        self.set_line(cy, line);
        assert(n == self@.lines[cy as int].len());
        self.cursor_x = cx + 1;
    }

    /// Types the text `t` (which holds no line break) at the cursor.
    pub fn type_text(&mut self, t: &str)
        requires
            old(self).wf(),
        ensures
            final(self).wf(),
            final(self)@ == old(self)@.type_text_spec(t@),
    {
        let cy = self.cursor_y;
        let cx = self.cursor_x;
        let tl = t.unicode_len();
        let mut line = self.lines[cy].clone();
        insert_text(&mut line, cx, t);
        let n = char_count(&line);
        self.set_line(cy, line);
        assert(n == self@.lines[cy as int].len());
        self.cursor_x = cx + tl;
    }

    /// Splits the line at the cursor.
    pub fn split_line(&mut self)
        requires
            old(self).wf(),
        ensures
            final(self).wf(),
            final(self)@ == old(self)@.split_line_spec(),
    {
        let cy = self.cursor_y;
        let cx = self.cursor_x;
        let n = self.line_len(cy);
        let before = substring_chars(&self.lines[cy], 0, cx);
        let after = substring_chars(&self.lines[cy], cx, n);
        let ghost l = self@.cur();
        assert(l.subrange(0, cx as int) =~= l.take(cx as int));
        assert(l.subrange(cx as int, n as int) =~= l.skip(cx as int));
        self.set_line(cy, before);
        self.put_line(cy + 1, after);
        self.cursor_y = cy + 1;
        self.cursor_x = 0;
    }

    /// Backspace; `false` when nothing changed.
    pub fn backspace(&mut self) -> (changed: bool)
        requires
            old(self).wf(),
        ensures
            final(self).wf(),
            (final(self)@, changed) == old(self)@.backspace_spec(),
    {
        let cx = self.cursor_x;
        if cx > 0 {
            self.cursor_x = cx - 1;
            let cy = self.cursor_y;
            let mut line = self.lines[cy].clone();
            remove_range(&mut line, cx - 1, cx);
            self.set_line(cy, line);
            true
        } else if self.cursor_y > 0 {
            self.join_prev();
            true
        } else {
            false
        }
    }

    /// Delete; `false` when nothing changed.
    pub fn delete_char(&mut self) -> (changed: bool)
        requires
            old(self).wf(),
        ensures
            final(self).wf(),
            (final(self)@, changed) == old(self)@.delete_char_spec(),
    {
        let cx = self.cursor_x;
        let len = self.line_len(self.cursor_y);
        if cx < len {
            self.cut_cur(cx, cx + 1);
            true
        } else if self.cursor_y + 1 < self.lines.len() {
            self.join_next();
            true
        } else {
            false
        }
    }

    /// Left, wrapping to the previous line.
    pub fn left_wrap(&mut self)
        requires
            old(self).wf(),
        ensures
            final(self).wf(),
            final(self)@ == old(self)@.left_wrap_spec(),
    {
        if self.cursor_x > 0 {
            self.cursor_x = self.cursor_x - 1;
        } else if self.cursor_y > 0 {
            let y = self.cursor_y - 1;
            self.cursor_x = self.line_len(y);
            self.cursor_y = y;
        }
    }

    /// Right, wrapping to the next line.
    pub fn right_wrap(&mut self)
        requires
            old(self).wf(),
        ensures
            final(self).wf(),
            final(self)@ == old(self)@.right_wrap_spec(),
    {
        let len = self.line_len(self.cursor_y);
        if self.cursor_x < len {
            self.cursor_x = self.cursor_x + 1;
        } else if self.cursor_y + 1 < self.lines.len() {
            self.cursor_y = self.cursor_y + 1;
            self.cursor_x = 0;
        }
    }

    /// Page Up.
    pub fn page_up(&mut self)
        requires
            old(self).wf(),
        ensures
            final(self).wf(),
            final(self)@ == old(self)@.page_up_spec(),
    {
        let y = if self.cursor_y >= 10 {
            self.cursor_y - 10
        } else {
            0
        };
        let len = self.line_len(y);
        self.cursor_y = y;
        if self.cursor_x > len {
            self.cursor_x = len;
        }
    }

    /// Page Down.
    pub fn page_down(&mut self)
        requires
            old(self).wf(),
        ensures
            final(self).wf(),
            final(self)@ == old(self)@.page_down_spec(),
    {
        let last = self.lines.len() - 1;
        let y = if last - self.cursor_y < 10 {
            last
        } else {
            self.cursor_y + 10
        };
        let len = self.line_len(y);
        self.cursor_y = y;
        if self.cursor_x > len {
            self.cursor_x = len;
        }
    }

    /// `x`; `false` when there was nothing under the cursor.
    pub fn delete_under(&mut self, blk: bool) -> (changed: bool)
        requires
            old(self).wf(),
        ensures
            final(self).wf(),
            (final(self)@, changed) == old(self)@.delete_under_spec(blk),
    {
        let cx = self.cursor_x;
        let len = self.line_len(self.cursor_y);
        if len > 0 && cx < len {
            self.cut_cur(cx, cx + 1);
            self.clamp_cursor(blk);
            true
        } else {
            false
        }
    }

    /// `s`.
    pub fn substitute(&mut self)
        requires
            old(self).wf(),
        ensures
            final(self).wf(),
            final(self)@ == old(self)@.substitute_spec(),
    {
        let cx = self.cursor_x;
        let len = self.line_len(self.cursor_y);
        if len > 0 && cx < len {
            self.cut_cur(cx, cx + 1);
        }
    }

    /// `C`: cuts the line at the cursor.
    pub fn truncate_at_cursor(&mut self)
        requires
            old(self).wf(),
        ensures
            final(self).wf(),
            final(self)@ == old(self)@.truncate_spec(),
    {
        let cy = self.cursor_y;
        let line = substring_chars(&self.lines[cy], 0, self.cursor_x);
        assert(self@.cur().subrange(0, self.cursor_x as int) =~= self@.cur().take(self.cursor_x as int));
        self.set_line(cy, line);
    }

    /// `c0`: removes the line before the cursor.
    pub fn cut_to_start(&mut self)
        requires
            old(self).wf(),
        ensures
            final(self).wf(),
            final(self)@ == old(self)@.cut_to_start_spec(),
    {
        let cy = self.cursor_y;
        let n = self.line_len(cy);
        let line = substring_chars(&self.lines[cy], self.cursor_x, n);
        assert(self@.cur().subrange(self.cursor_x as int, n as int) =~= self@.cur().skip(self.cursor_x as int));
        self.cursor_x = 0;
        self.set_line(cy, line);
    }

    /// `S` / `cc`: empties the line.
    pub fn clear_line(&mut self)
        requires
            old(self).wf(),
        ensures
            final(self).wf(),
            final(self)@ == old(self)@.clear_line_spec(),
    {
        let cy = self.cursor_y;
        self.cursor_x = 0;
        self.set_line(cy, String::new());
    }

    /// `o`.
    pub fn open_below(&mut self)
        requires
            old(self).wf(),
        ensures
            final(self).wf(),
            final(self)@ == old(self)@.open_below_spec(),
    {
        let cy = self.cursor_y;
        self.put_line(cy + 1, String::new());
        self.cursor_y = cy + 1;
        self.cursor_x = 0;
    }

    /// `O`.
    pub fn open_above(&mut self)
        requires
            old(self).wf(),
        ensures
            final(self).wf(),
            final(self)@ == old(self)@.open_above_spec(),
    {
        let cy = self.cursor_y;
        self.put_line(cy, String::new());
        self.cursor_x = 0;
    }

    /// `a`.
    pub fn append_after(&mut self)
        requires
            old(self).wf(),
        ensures
            final(self).wf(),
            final(self)@ == old(self)@.append_spec(),
    {
        let len = self.line_len(self.cursor_y);
        if len > 0 {
            self.cursor_x = if self.cursor_x < len {
                self.cursor_x + 1
            } else {
                len
            };
        }
    }
}


// ── Selections ─────────────────────────────────────────────────────────────

/// Lines joined with line feeds between them.
pub open spec fn join_lines_spec(ls: Seq<Seq<char>>) -> Seq<char>
    decreases ls.len(),
{
    if ls.len() == 0 {
        Seq::<char>::empty()
    } else if ls.len() == 1 {
        ls[0]
    } else {
        join_lines_spec(ls.drop_last()) + seq!['\n'] + ls.last()
    }
}

/// Position `a` comes no later than position `b` (line first, then column).
pub open spec fn pos_le(a: (usize, usize), b: (usize, usize)) -> bool {
    a.0 < b.0 || (a.0 == b.0 && a.1 <= b.1)
}

impl BufferV {
    /// The selection's two ends, earlier first.
    pub open spec fn ordered(self, sel: Selection) -> ((usize, usize), (usize, usize)) {
        let a = (sel.anchor_y, sel.anchor_x);
        let c = (self.cursor_y, self.cursor_x);
        if pos_le(a, c) {
            (a, c)
        } else {
            (c, a)
        }
    }

    /// The selection's anchor lies in the text: on a line, and for a
    /// character selection at most one past that line's end.
    pub open spec fn sel_in_bounds(self, sel: Selection) -> bool {
        &&& sel.anchor_y < self.lines.len()
        &&& sel.kind == SelectionKind::Char ==> sel.anchor_x <= self.lines[sel.anchor_y as int].len()
    }

    /// The selected text: whole lines joined by line feeds, or the characters
    /// from the earlier end up to (not including) the later one.
    pub open spec fn selection_text(self, sel: Selection) -> Seq<char> {
        let (s, e) = self.ordered(sel);
        let (sy, sx) = (s.0 as int, s.1 as int);
        let (ey, ex) = (e.0 as int, e.1 as int);
        if sel.kind == SelectionKind::Line {
            join_lines_spec(self.lines.subrange(sy, ey + 1))
        } else if sy == ey {
            self.lines[sy].subrange(sx, ex)
        } else {
            join_lines_spec(
                seq![self.lines[sy].skip(sx)] + self.lines.subrange(sy + 1, ey) + seq![
                    self.lines[ey].take(ex),
                ],
            )
        }
    }

    /// The buffer with the selected text removed; the cursor goes to where
    /// the selection started (for whole lines, to the line now at that index).
    pub open spec fn delete_selection_spec(self, sel: Selection) -> BufferV {
        let (s, e) = self.ordered(sel);
        let (sy, sx) = (s.0 as int, s.1 as int);
        let (ey, ex) = (e.0 as int, e.1 as int);
        if sel.kind == SelectionKind::Line {
            let l1 = self.lines.take(sy) + self.lines.skip(ey + 1);
            let l2 = if l1.len() == 0 {
                seq![Seq::<char>::empty()]
            } else {
                l1
            };
            let y = min_int(sy, l2.len() - 1);
            BufferV {
                lines: l2,
                cursor_y: y as usize,
                cursor_x: min_int(self.cursor_x as int, l2[y].len() as int) as usize,
                ..self
            }
        } else if sy == ey {
            BufferV {
                cursor_y: sy as usize,
                cursor_x: sx as usize,
                ..self.with_line(sy, remove_range_spec(self.lines[sy], sx, ex))
            }
        } else {
            BufferV {
                lines: self.lines.take(sy) + seq![self.lines[sy].take(sx) + self.lines[ey].skip(ex)]
                    + self.lines.skip(ey + 1),
                cursor_y: sy as usize,
                cursor_x: sx as usize,
                ..self
            }
        }
    }
}

/// Joins lines with line feeds between them.
pub fn join_lines(v: &[String]) -> (r: String)
    ensures
        r@ == join_lines_spec(strs(v@)),
{
    let n = v.len();
    if n == 0 {
        return String::new();
    }
    let mut r = v[0].clone();
    let mut i: usize = 1;
    assert(strs(v@).take(1) =~= seq![v@[0]@]);
    while i < n
        invariant
            n == v@.len(),
            1 <= i <= n,
            r@ == join_lines_spec(strs(v@).take(i as int)),
        decreases n - i,
    {
        push_char(&mut r, '\n');
        r.append(v[i].as_str());
        assert(strs(v@).take(i + 1).drop_last() =~= strs(v@).take(i as int));
        i = i + 1;
    }
    assert(strs(v@).take(n as int) =~= strs(v@));
    r
}

/// Copies of lines `a..b` of `v`.
pub fn clone_range(v: &Vec<String>, a: usize, b: usize) -> (r: Vec<String>)
    requires
        a <= b <= v.len(),
    ensures
        strs(r@) == strs(v@).subrange(a as int, b as int),
{
    let mut r: Vec<String> = Vec::new();
    let mut i: usize = a;
    while i < b
        invariant
            a <= i <= b <= v.len(),
            strs(r@) == strs(v@).subrange(a as int, i as int),
        decreases b - i,
    {
        let ghost r0 = r@;
        r.push(v[i].clone());
        assert(strs(r@) =~= strs(r0).push(v@[i as int]@));
        assert(strs(v@).subrange(a as int, i + 1) =~= strs(v@).subrange(a as int, i as int).push(
            v@[i as int]@,
        ));
        i = i + 1;
    }
    r
}

impl Buffer {
    /// The selection's two ends, earlier first.
    pub fn ordered_selection(&self, sel: &Selection) -> (r: ((usize, usize), (usize, usize)))
        ensures
            r == self@.ordered(*sel),
    {
        let a = (sel.anchor_y, sel.anchor_x);
        let c = (self.cursor_y, self.cursor_x);
        if a.0 < c.0 || (a.0 == c.0 && a.1 <= c.1) {
            (a, c)
        } else {
            (c, a)
        }
    }

    /// The selected text.
    pub fn extract_selection_text(&self, sel: &Selection) -> (r: String)
        requires
            self.wf(),
            self@.sel_in_bounds(*sel),
        ensures
            r@ == self@.selection_text(*sel),
    {
        let ((sy, sx), (ey, ex)) = self.ordered_selection(sel);
        if sel.kind == SelectionKind::Line {
            let part = clone_range(&self.lines, sy, ey + 1);
            return join_lines(part.as_slice());
        }
        if sy == ey {
            return substring_chars(&self.lines[sy], sx, ex);
        }
        let ghost b = self@;
        let first_len = self.line_len(sy);
        let mut r = substring_chars(&self.lines[sy], sx, first_len);
        assert(b.lines[sy as int].subrange(sx as int, first_len as int) =~= b.lines[sy as int].skip(sx as int));
        let ghost head = seq![b.lines[sy as int].skip(sx as int)];
        assert(join_lines_spec(head) == r@);
        let mut j: usize = sy + 1;
        while j < ey
            invariant
                b == self@,
                self.wf(),
                sy < j <= ey < self.lines.len(),
                head.len() == 1,
                r@ == join_lines_spec(head + b.lines.subrange(sy + 1, j as int)),
            decreases ey - j,
        {
            let ghost before = head + b.lines.subrange(sy + 1, j as int);
            push_char(&mut r, '\n');
            r.append(self.lines[j].as_str());
            let ghost after = head + b.lines.subrange(sy + 1, j + 1);
            assert(after.drop_last() =~= before);
            assert(after.len() > 1);
            assert(after.last() == b.lines[j as int]);
            assert(join_lines_spec(after) == join_lines_spec(before) + seq!['\n'] + b.lines[j as int]);
            j = j + 1;
        }
        let tail = substring_chars(&self.lines[ey], 0, ex);
        assert(b.lines[ey as int].subrange(0, ex as int) =~= b.lines[ey as int].take(ex as int));
        push_char(&mut r, '\n');
        r.append(tail.as_str());
        let ghost all = head + b.lines.subrange(sy + 1, ey as int) + seq![b.lines[ey as int].take(ex as int)];
        assert(all.drop_last() =~= head + b.lines.subrange(sy + 1, ey as int));
        r
    }

    /// Removes `count` lines at index `y`.
    fn remove_lines(&mut self, y: usize, count: usize)
        requires
            y + count <= old(self).lines.len(),
        ensures
            final(self)@ == (BufferV {
                lines: old(self)@.lines.take(y as int) + old(self)@.lines.skip(y + count),
                ..old(self)@
            }),
            final(self).lines.len() == old(self).lines.len() - count,
    {
        let ghost l0 = self@.lines;
        let mut k: usize = 0;
        assert(l0.take(y as int) + l0.skip(y as int) =~= l0);
        while k < count
            invariant
                y + count <= l0.len(),
                k <= count,
                self.lines.len() == l0.len() - k,
                self@ == (BufferV { lines: l0.take(y as int) + l0.skip(y + k), ..old(self)@ }),
            decreases count - k,
        {
            let ghost before = self@.lines;
            self.take_line(y);
            assert(before.remove(y as int) =~= l0.take(y as int) + l0.skip(y + k + 1));
            k = k + 1;
        }
    }

    /// Removes the selected text.
    pub fn delete_selection_range(&mut self, sel: &Selection)
        requires
            old(self).wf(),
            old(self)@.sel_in_bounds(*sel),
        ensures
            final(self).wf(),
            final(self)@ == old(self)@.delete_selection_spec(*sel),
    {
        let ((sy, sx), (ey, ex)) = self.ordered_selection(sel);
        let ghost b = self@;
        if sel.kind == SelectionKind::Line {
            self.remove_lines(sy, ey - sy + 1);
            if self.lines.len() == 0 {
                self.lines.push(String::new());
                assert(strs(self.lines@) =~= seq![Seq::<char>::empty()]);
            }
            let last = self.lines.len() - 1;
            self.cursor_y = if sy < last {
                sy
            } else {
                last
            };
            let len = self.line_len(self.cursor_y);
            if self.cursor_x > len {
                self.cursor_x = len;
            }
            return;
        }
        if sy == ey {
            let mut line = self.lines[sy].clone();
            remove_range(&mut line, sx, ex);
            self.set_line(sy, line);
        } else {
            let n_first = self.line_len(sy);
            let n_last = self.line_len(ey);
            let mut merged = substring_chars(&self.lines[sy], 0, sx);
            let rest = substring_chars(&self.lines[ey], ex, n_last);
            merged.append(rest.as_str());
            assert(b.lines[sy as int].subrange(0, sx as int) =~= b.lines[sy as int].take(sx as int));
            assert(b.lines[ey as int].subrange(ex as int, n_last as int) =~= b.lines[ey as int].skip(ex as int));
            self.set_line(sy, merged);
            self.remove_lines(sy + 1, ey - sy);
            assert(self@.lines =~= b.delete_selection_spec(*sel).lines);
        }
        self.cursor_y = sy;
        self.cursor_x = sx;
    }

    /// Copies of lines `sy..=ey`.
    pub fn lines_between(&self, sy: usize, ey: usize) -> (r: Vec<String>)
        requires
            sy <= ey < self.lines.len(),
        ensures
            strs(r@) == self@.lines.subrange(sy as int, ey + 1),
    {
        clone_range(&self.lines, sy, ey + 1)
    }
}


/// The label of a tab: the file's name (after its last `/`) or `untitled`,
/// with `*` when there are unsaved changes.
pub open spec fn tab_name_spec(b: BufferV) -> Seq<char> {
    let name = match b.file_path {
        Some(p) => last_segment(p),
        None => "untitled"@,
    };
    if b.dirty {
        name + "*"@
    } else {
        name
    }
}

impl Buffer {
    /// The label of this buffer's tab.
    pub fn tab_name(&self) -> (r: String)
        ensures
            r@ == tab_name_spec(self@),
    {
        let name = match &self.file_path {
            Some(p) => after_last_slash(p.as_str()),
            None => String::from_str("untitled"),
        };
        if self.dirty {
            let mut n = name;
            n.append("*");
            n
        } else {
            name
        }
    }
}


impl Buffer {
    /// Deletes the cursor's line into the yank buffer and returns it.
    pub fn cut_line(&mut self) -> (removed: String)
        requires
            old(self).wf(),
        ensures
            final(self).wf(),
            removed@ == old(self)@.cur(),
            final(self)@ == (BufferV { yank: seq![removed@], ..old(self)@.delete_line_spec() }),
    {
        let removed = self.delete_line();
        let mut y: Vec<String> = Vec::new();
        y.push(removed.clone());
        self.yank_buffer = y;
        assert(strs(self.yank_buffer@) =~= seq![removed@]);
        removed
    }

    /// Yanks the cursor's line and returns it.
    pub fn yank_cur(&mut self) -> (line: String)
        requires
            old(self).wf(),
        ensures
            final(self).wf(),
            line@ == old(self)@.cur(),
            final(self)@ == (BufferV { yank: seq![line@], ..old(self)@ }),
    {
        let line = self.lines[self.cursor_y].clone();
        let mut y: Vec<String> = Vec::new();
        y.push(line.clone());
        self.yank_buffer = y;
        assert(strs(self.yank_buffer@) =~= seq![line@]);
        line
    }

    /// Ends the selection, yanking its text (or the cursor's line when there
    /// is none), and returns that text.
    pub fn yank_selection_or_line(&mut self) -> (t: String)
        requires
            old(self).wf(),
            match old(self)@.selection {
                Some(sel) => old(self)@.sel_in_bounds(sel),
                None => true,
            },
        ensures
            final(self).wf(),
            t@ == (match old(self)@.selection {
                Some(sel) => old(self)@.selection_text(sel),
                None => old(self)@.cur(),
            }),
            final(self)@ == (BufferV { selection: None, yank: seq![t@], ..old(self)@ }),
    {
        let t = match self.selection {
            Some(sel) => self.extract_selection_text(&sel),
            None => self.lines[self.cursor_y].clone(),
        };
        let mut y: Vec<String> = Vec::new();
        y.push(t.clone());
        self.selection = None;
        self.yank_buffer = y;
        assert(strs(self.yank_buffer@) =~= seq![t@]);
        t
    }

    /// Cuts the selection `sel` into the yank buffer and returns its text.
    pub fn cut_selection(&mut self, sel: &Selection) -> (t: String)
        requires
            old(self).wf(),
            old(self)@.sel_in_bounds(*sel),
        ensures
            final(self).wf(),
            t@ == old(self)@.selection_text(*sel),
            final(self)@ == (BufferV { selection: None, yank: seq![t@], ..old(self)@ }).delete_selection_spec(
                *sel,
            ),
    {
        let t = self.extract_selection_text(sel);
        let mut y: Vec<String> = Vec::new();
        y.push(t.clone());
        self.selection = None;
        self.yank_buffer = y;
        assert(strs(self.yank_buffer@) =~= seq![t@]);
        self.delete_selection_range(sel);
        t
    }
}


impl Buffer {
    /// Pastes the pieces `parts` (at least two: the text split at line feeds)
    /// at the cursor: the first ends the cursor's line, the last starts the
    /// rest of it, the others are lines of their own; the cursor ends after
    /// the last piece.
    pub fn paste_lines(&mut self, parts: &Vec<String>)
        requires
            old(self).wf(),
            parts@.len() >= 2,
        ensures
            final(self).wf(),
            ({
                let ps = strs(parts@);
                let k = ps.len() as int;
                let b = old(self)@;
                let cy = b.cursor_y as int;
                let l = b.cur();
                let cx = b.cursor_x as int;
                final(self)@ == (BufferV {
                    lines: b.lines.take(cy) + seq![l.take(cx) + ps[0]] + ps.subrange(1, k - 1) + seq![
                        ps[k - 1] + l.skip(cx),
                    ] + b.lines.skip(cy + 1),
                    cursor_y: (cy + k - 1) as usize,
                    cursor_x: ps[k - 1].len() as usize,
                    ..b
                })
            }),
    {
        let ghost b = self@;
        let ghost ps = strs(parts@);
        let k = parts.len();
        let cy = self.cursor_y;
        let cx = self.cursor_x;
        let n = self.line_len(cy);
        let mut first = substring_chars(&self.lines[cy], 0, cx);
        let after = substring_chars(&self.lines[cy], cx, n);
        assert(b.cur().subrange(0, cx as int) =~= b.cur().take(cx as int));
        assert(b.cur().subrange(cx as int, n as int) =~= b.cur().skip(cx as int));
        first.append(parts[0].as_str());
        self.set_line(cy, first);
        let mut j: usize = 1;
        assert(self@.lines =~= b.lines.take(cy as int) + seq![b.cur().take(cx as int) + ps[0]]
            + ps.subrange(1, 1) + b.lines.skip(cy + 1));
        while j + 1 < k
            invariant
                1 <= j < k,
                k == parts@.len(),
                ps == strs(parts@),
                cy < b.lines.len(),
                self.lines.len() == b.lines.len() + j - 1,
                self@ == (BufferV {
                    lines: b.lines.take(cy as int) + seq![b.cur().take(cx as int) + ps[0]]
                        + ps.subrange(1, j as int) + b.lines.skip(cy + 1),
                    ..b
                }),
            decreases k - j,
        {
            let ghost before = self@.lines;
            self.put_line(cy + j, parts[j].clone());
            assert(before.insert(cy + j, ps[j as int]) =~= b.lines.take(cy as int) + seq![
                b.cur().take(cx as int) + ps[0],
            ] + ps.subrange(1, j + 1) + b.lines.skip(cy + 1));
            j = j + 1;
        }
        let mut last = parts[k - 1].clone();
        let last_len = char_count(&last);
        last.append(after.as_str());
        let ghost before = self@.lines;
        self.put_line(cy + (k - 1), last);
        assert(before.insert(cy + k - 1, ps[k - 1] + b.cur().skip(cx as int)) =~= b.lines.take(
            cy as int,
        ) + seq![b.cur().take(cx as int) + ps[0]] + ps.subrange(1, k - 1) + seq![
            ps[k - 1] + b.cur().skip(cx as int),
        ] + b.lines.skip(cy + 1));
        self.cursor_y = cy + (k - 1);
        self.cursor_x = last_len;
    }
}


impl Buffer {
    /// Replaces the text by `lines` read from the file `path`, with the
    /// cursor and the view at the top and no unsaved changes.
    pub fn load_lines(&mut self, path: String, lines: Vec<String>)
        requires
            old(self).wf(),
            lines@.len() >= 1,
        ensures
            final(self).wf(),
            final(self)@ == (BufferV {
                file_path: Some(path@),
                lines: strs(lines@),
                cursor_x: 0,
                cursor_y: 0,
                scroll_offset: 0,
                dirty: false,
                ..old(self)@
            }),
    {
        self.file_path = Some(path);
        self.lines = lines;
        self.cursor_x = 0;
        self.cursor_y = 0;
        self.scroll_offset = 0;
        self.dirty = false;
    }
}


// ── Operations by name ─────────────────────────────────────────────────────

/// The cursor and line operations the key handlers apply to a buffer.
#[derive(Debug, Clone, Copy, PartialEq, Eq, Structural)]
pub enum BufOp {
    TypeChar(char),
    TypeTab,
    SplitLine,
    Backspace,
    DeleteChar,
    LeftWrap,
    RightWrap,
    LineStart,
    LineEnd,
    PageUp,
    PageDown,
    /// `h`: one column left, stopping at the line's start.
    Left,
    /// `l`: one column right, stopping on the last character.
    RightBlock,
    /// `$`: onto the last character.
    EndBlock,
    WordForward,
    WordEnd,
    WordBackward,
    DeleteUnder(bool),
    Substitute,
    Truncate,
    CutToStart,
    ClearLine,
    OpenBelow,
    OpenAbove,
    Append,
    DeleteWordForward,
    DeleteWordBackward,
    DeleteInnerWord,
    ChangeWord,
    PasteBelow,
    PasteAbove,
    ClearDesired,
    MoveUp(bool),
    MoveDown(bool),
    Clamp(bool),
    /// To the first line, column 0.
    DocStart,
    /// To the last line, one past its end.
    DocEnd,
    /// To line `y` (the last line when past it), the cursor kept on the line
    /// (on a character when the flag is set).
    GotoLine(usize, bool),
    /// One column left if possible (leaving Insert mode).
    StepBack,
    EndSelection,
    /// Starts a selection of the given kind anchored at the cursor.
    SelectFromCursor(SelectionKind),
    /// To line `y`, column `x`, each kept within the text.
    JumpTo(usize, usize),
    /// Selects the word under line `y`, column `x` (when that line has
    /// characters); the cursor goes onto its last character.
    SelectWord(usize, usize),
    /// Scrolls so that line `s` is the first shown.
    ScrollTo(usize),
}

/// What an operation makes of a buffer, and whether it reports a change.
#[verifier::opaque]
pub open spec fn buf_op_spec(b: BufferV, op: BufOp) -> (BufferV, bool) {
    let len = b.cur().len() as int;
    match op {
        BufOp::TypeChar(c) => (b.type_char_spec(c), true),
        BufOp::TypeTab => (b.type_text_spec(seq![' ', ' ']), true),
        BufOp::SplitLine => (b.split_line_spec(), true),
        BufOp::Backspace => b.backspace_spec(),
        BufOp::DeleteChar => b.delete_char_spec(),
        BufOp::LeftWrap => (b.left_wrap_spec(), false),
        BufOp::RightWrap => (b.right_wrap_spec(), false),
        BufOp::LineStart => (BufferV { cursor_x: 0, ..b }, false),
        BufOp::LineEnd => (BufferV { cursor_x: len as usize, ..b }, false),
        BufOp::PageUp => (b.page_up_spec(), false),
        BufOp::PageDown => (b.page_down_spec(), false),
        BufOp::Left => (
            if b.cursor_x > 0 {
                BufferV { cursor_x: (b.cursor_x - 1) as usize, ..b }
            } else {
                b
            },
            false,
        ),
        BufOp::RightBlock => (
            if len > 0 && b.cursor_x < len - 1 {
                BufferV { cursor_x: (b.cursor_x + 1) as usize, ..b }
            } else {
                b
            },
            false,
        ),
        BufOp::EndBlock => (BufferV { cursor_x: pred_sat(len) as usize, ..b }, false),
        BufOp::WordForward => (b.word_forward_spec(), false),
        BufOp::WordEnd => (b.word_end_spec(), false),
        BufOp::WordBackward => (b.word_backward_spec(), false),
        BufOp::DeleteUnder(blk) => b.delete_under_spec(blk),
        BufOp::Substitute => (b.substitute_spec(), true),
        BufOp::Truncate => (b.truncate_spec(), true),
        BufOp::CutToStart => (b.cut_to_start_spec(), true),
        BufOp::ClearLine => (b.clear_line_spec(), true),
        BufOp::OpenBelow => (b.open_below_spec(), true),
        BufOp::OpenAbove => (b.open_above_spec(), true),
        BufOp::Append => (b.append_spec(), false),
        BufOp::DeleteWordForward => (b.delete_word_forward_spec(), true),
        BufOp::DeleteWordBackward => (b.delete_word_backward_spec(), true),
        BufOp::DeleteInnerWord => (b.delete_inner_word_spec(), true),
        BufOp::ChangeWord => (b.change_word_spec(), true),
        BufOp::PasteBelow => (b.paste_below_spec(), true),
        BufOp::PasteAbove => (b.paste_above_spec(), true),
        BufOp::ClearDesired => (BufferV { desired_x: None, ..b }, false),
        BufOp::MoveUp(blk) => (b.move_up_spec(blk), false),
        BufOp::MoveDown(blk) => (b.move_down_spec(blk), false),
        BufOp::Clamp(blk) => (b.clamp_cursor_spec(blk), false),
        BufOp::DocStart => (BufferV { cursor_y: 0, cursor_x: 0, ..b }, false),
        BufOp::DocEnd => {
            let y = b.lines.len() - 1;
            (BufferV { cursor_y: y as usize, cursor_x: b.lines[y].len() as usize, ..b }, false)
        },
        BufOp::GotoLine(y, blk) => (
            BufferV { cursor_y: min_int(y as int, b.lines.len() - 1) as usize, ..b }.clamp_cursor_spec(blk),
            false,
        ),
        BufOp::StepBack => (
            BufferV { cursor_x: pred_sat(b.cursor_x as int) as usize, ..b },
            false,
        ),
        BufOp::EndSelection => (BufferV { selection: None, ..b }, false),
        BufOp::SelectFromCursor(k) => (
            BufferV {
                selection: Some(Selection { anchor_y: b.cursor_y, anchor_x: b.cursor_x, kind: k }),
                ..b
            },
            false,
        ),
        BufOp::SelectWord(y, x) => {
            if (y as int) < b.lines.len() && b.lines[y as int].len() > 0 {
                let (st, en) = inner_word(b.lines[y as int], x as int);
                (
                    BufferV {
                        cursor_y: y,
                        selection: Some(Selection { anchor_y: y, anchor_x: st as usize, kind: SelectionKind::Char }),
                        cursor_x: pred_sat(en) as usize,
                        ..b
                    },
                    false,
                )
            } else {
                (b, false)
            }
        },
        BufOp::ScrollTo(sc) => (BufferV { scroll_offset: sc, ..b }, false),
        BufOp::JumpTo(y, x) => {
            let ty = min_int(y as int, b.lines.len() - 1);
            (
                BufferV {
                    cursor_y: ty as usize,
                    cursor_x: min_int(x as int, b.lines[ty].len() as int) as usize,
                    ..b
                },
                false,
            )
        },
    }
}

/// What forgetting the remembered column, splitting the line and Backspace
/// make of a buffer.
#[verifier::spinoff_prover]
pub proof fn lemma_op_edit_keys(b: BufferV)
    ensures
        buf_op_spec(b, BufOp::ClearDesired) == (BufferV { desired_x: None, ..b }, false),
        buf_op_spec(b, BufOp::SplitLine) == (b.split_line_spec(), true),
        buf_op_spec(b, BufOp::Backspace) == b.backspace_spec(),
{
    reveal(buf_op_spec);
}

/// Only the selection operations touch the selection: ending it clears it,
/// selecting from the cursor anchors it there, and the others keep it.
#[verifier::spinoff_prover]
#[verifier::rlimit(50)]
pub proof fn lemma_op_keeps_selection(b: BufferV, op: BufOp)
    ensures
        op is EndSelection ==> buf_op_spec(b, op).0 == (BufferV { selection: None, ..b }),
        op matches BufOp::SelectFromCursor(k) ==> buf_op_spec(b, op).0.selection == Some(
            Selection { anchor_y: b.cursor_y, anchor_x: b.cursor_x, kind: k },
        ),
        !(op is EndSelection) && !(op is SelectFromCursor) && !(op is SelectWord)
            ==> buf_op_spec(b, op).0.selection == b.selection,
{
    reveal(buf_op_spec);
    match op {
        BufOp::TypeChar(_) => {},
        BufOp::TypeTab => {},
        BufOp::SplitLine => {},
        BufOp::Backspace => {},
        BufOp::DeleteChar => {},
        BufOp::LeftWrap => {},
        BufOp::RightWrap => {},
        BufOp::PageUp => {},
        BufOp::PageDown => {},
        BufOp::WordForward => {},
        BufOp::WordEnd => {},
        BufOp::WordBackward => {},
        BufOp::DeleteUnder(_) => {},
        BufOp::DeleteWordForward => {},
        BufOp::DeleteWordBackward => {},
        BufOp::DeleteInnerWord => {},
        BufOp::ChangeWord => {},
        BufOp::PasteBelow => {},
        BufOp::PasteAbove => {},
        _ => {},
    }
}

impl Buffer {
    /// Applies an operation that changes the text.
    #[verifier::spinoff_prover]
    fn apply_edit(&mut self, op: BufOp) -> (r: bool)
        requires
            old(self).wf(),
            match op {
                BufOp::TypeChar(_) | BufOp::TypeTab | BufOp::SplitLine | BufOp::Backspace
                | BufOp::DeleteChar | BufOp::DeleteUnder(_) | BufOp::Substitute | BufOp::Truncate
                | BufOp::CutToStart | BufOp::ClearLine | BufOp::OpenBelow | BufOp::OpenAbove
                | BufOp::DeleteWordForward | BufOp::DeleteWordBackward | BufOp::DeleteInnerWord
                | BufOp::ChangeWord | BufOp::PasteBelow | BufOp::PasteAbove => true,
                _ => false,
            },
        ensures
            final(self).wf(),
            (final(self)@, r) == buf_op_spec(old(self)@, op),
    {
        reveal(buf_op_spec);
        match op {
            BufOp::TypeChar(c) => {
                self.type_char(c);
                true
            },
            BufOp::TypeTab => {
                self.type_text("  ");
                proof {
                    reveal_strlit("  ");
                    assert("  "@ =~= seq![' ', ' ']);
                }
                true
            },
            BufOp::SplitLine => {
                self.split_line();
                true
            },
            BufOp::Backspace => self.backspace(),
            BufOp::DeleteChar => self.delete_char(),
            BufOp::DeleteUnder(blk) => self.delete_under(blk),
            BufOp::Substitute => {
                self.substitute();
                true
            },
            BufOp::Truncate => {
                self.truncate_at_cursor();
                true
            },
            BufOp::CutToStart => {
                self.cut_to_start();
                true
            },
            BufOp::ClearLine => {
                self.clear_line();
                true
            },
            BufOp::OpenBelow => {
                self.open_below();
                true
            },
            BufOp::OpenAbove => {
                self.open_above();
                true
            },
            BufOp::DeleteWordForward => {
                self.delete_word_forward();
                true
            },
            BufOp::DeleteWordBackward => {
                self.delete_word_backward();
                true
            },
            BufOp::DeleteInnerWord => {
                self.delete_inner_word();
                true
            },
            BufOp::ChangeWord => {
                self.change_word();
                true
            },
            BufOp::PasteBelow => {
                self.paste_below();
                true
            },
            _ => {
                self.paste_above();
                true
            },
        }
    }

    /// Applies an operation that moves the cursor, the view or the selection.
    #[verifier::spinoff_prover]
    fn apply_move(&mut self, op: BufOp)
        requires
            old(self).wf(),
            match op {
                BufOp::TypeChar(_) | BufOp::TypeTab | BufOp::SplitLine | BufOp::Backspace
                | BufOp::DeleteChar | BufOp::DeleteUnder(_) | BufOp::Substitute | BufOp::Truncate
                | BufOp::CutToStart | BufOp::ClearLine | BufOp::OpenBelow | BufOp::OpenAbove
                | BufOp::DeleteWordForward | BufOp::DeleteWordBackward | BufOp::DeleteInnerWord
                | BufOp::ChangeWord | BufOp::PasteBelow | BufOp::PasteAbove => false,
                _ => true,
            },
        ensures
            final(self).wf(),
            final(self)@ == buf_op_spec(old(self)@, op).0,
            !buf_op_spec(old(self)@, op).1,
    {
        reveal(buf_op_spec);
        let len = self.line_len(self.cursor_y);
        match op {
            BufOp::LeftWrap => self.left_wrap(),
            BufOp::RightWrap => self.right_wrap(),
            BufOp::LineStart => {
                self.cursor_x = 0;
            },
            BufOp::LineEnd => {
                self.cursor_x = len;
            },
            BufOp::PageUp => self.page_up(),
            BufOp::PageDown => self.page_down(),
            BufOp::Left => {
                if self.cursor_x > 0 {
                    self.cursor_x = self.cursor_x - 1;
                }
            },
            BufOp::RightBlock => {
                if len > 0 && self.cursor_x < len - 1 {
                    self.cursor_x = self.cursor_x + 1;
                }
            },
            BufOp::EndBlock => {
                self.cursor_x = if len > 0 {
                    len - 1
                } else {
                    0
                };
            },
            BufOp::WordForward => self.move_word_forward(),
            BufOp::WordEnd => self.move_word_end(),
            BufOp::WordBackward => self.move_word_backward(),
            BufOp::Append => self.append_after(),
            BufOp::ClearDesired => {
                self.desired_x = None;
            },
            BufOp::MoveUp(blk) => self.move_up(blk),
            BufOp::MoveDown(blk) => self.move_down(blk),
            BufOp::Clamp(blk) => self.clamp_cursor(blk),
            BufOp::DocStart => {
                self.cursor_y = 0;
                self.cursor_x = 0;
            },
            BufOp::DocEnd => {
                let y = self.lines.len() - 1;
                self.cursor_x = self.line_len(y);
                self.cursor_y = y;
            },
            BufOp::GotoLine(y, blk) => {
                let last = self.lines.len() - 1;
                let ty = if y < last {
                    y
                } else {
                    last
                };
                let n = self.line_len(ty);
                self.cursor_y = ty;
                if blk {
                    if n == 0 {
                        self.cursor_x = 0;
                    } else if self.cursor_x > n - 1 {
                        self.cursor_x = n - 1;
                    }
                } else if self.cursor_x > n {
                    self.cursor_x = n;
                }
            },
            BufOp::StepBack => {
                if self.cursor_x > 0 {
                    self.cursor_x = self.cursor_x - 1;
                }
            },
            BufOp::SelectFromCursor(k) => {
                self.selection = Some(Selection { anchor_y: self.cursor_y, anchor_x: self.cursor_x, kind: k });
            },
            BufOp::SelectWord(y, x) => {
                if y < self.lines.len() {
                    let chars = self.line_chars(y);
                    if chars.len() > 0 {
                        proof {
                            lemma_inner_word_bounds(chars@, x as int);
                        }
                        let (st, en) = find_inner_word(chars.as_slice(), x);
                        self.cursor_y = y;
                        self.selection = Some(Selection { anchor_y: y, anchor_x: st, kind: SelectionKind::Char });
                        self.cursor_x = if en > 0 {
                            en - 1
                        } else {
                            0
                        };
                    }
                }
            },
            BufOp::ScrollTo(sc) => {
                self.scroll_offset = sc;
            },
            BufOp::JumpTo(y, x) => {
                let last = self.lines.len() - 1;
                let ty = if y < last {
                    y
                } else {
                    last
                };
                let n = self.line_len(ty);
                self.cursor_y = ty;
                self.cursor_x = if x < n {
                    x
                } else {
                    n
                };
            },
            _ => {
                self.selection = None;
            },
        }
        proof {
            assert(self@.undo == old(self)@.undo);
            assert(self@.redo == old(self)@.redo);
        }
    }
}


/// The operations that change the text.
pub open spec fn is_edit_spec(op: BufOp) -> bool {
    match op {
        BufOp::TypeChar(_) | BufOp::TypeTab | BufOp::SplitLine | BufOp::Backspace
        | BufOp::DeleteChar | BufOp::DeleteUnder(_) | BufOp::Substitute | BufOp::Truncate
        | BufOp::CutToStart | BufOp::ClearLine | BufOp::OpenBelow | BufOp::OpenAbove
        | BufOp::DeleteWordForward | BufOp::DeleteWordBackward | BufOp::DeleteInnerWord
        | BufOp::ChangeWord | BufOp::PasteBelow | BufOp::PasteAbove => true,
        _ => false,
    }
}

/// Whether `op` changes the text.
pub fn is_edit(op: BufOp) -> (r: bool)
    ensures
        r == is_edit_spec(op),
{
    match op {
        BufOp::TypeChar(_) | BufOp::TypeTab | BufOp::SplitLine | BufOp::Backspace
        | BufOp::DeleteChar | BufOp::DeleteUnder(_) | BufOp::Substitute | BufOp::Truncate
        | BufOp::CutToStart | BufOp::ClearLine | BufOp::OpenBelow | BufOp::OpenAbove
        | BufOp::DeleteWordForward | BufOp::DeleteWordBackward | BufOp::DeleteInnerWord
        | BufOp::ChangeWord | BufOp::PasteBelow | BufOp::PasteAbove => true,
        _ => false,
    }
}

impl Buffer {
    /// Applies `op`; `true` when it reports a change.
    pub fn apply(&mut self, op: BufOp) -> (r: bool)
        requires
            old(self).wf(),
        ensures
            final(self).wf(),
            (final(self)@, r) == buf_op_spec(old(self)@, op),
    {
        if is_edit(op) {
            self.apply_edit(op)
        } else {
            self.apply_move(op);
            false
        }
    }

    /// Records `snap` for undo and marks the buffer as changed.
    pub fn commit_change(&mut self, snap: UndoSnapshot)
        requires
            old(self).wf(),
            snap@.wf(),
        ensures
            final(self).wf(),
            final(self)@ == (BufferV { dirty: true, ..old(self)@.push_snapshot_spec(snap@) }),
    {
        self.push_snapshot(snap);
        self.dirty = true;
    }
}


impl BufferV {
    /// The first and last line a selection touches.
    pub open spec fn line_span(self, sel: Selection) -> (int, int) {
        (self.ordered(sel).0.0 as int, self.ordered(sel).1.0 as int)
    }

    /// Visual `y` on whole lines: they go to the yank buffer, the selection
    /// ends, and the cursor goes to the first of them (onto a character).
    pub open spec fn yank_lines_spec(self, sel: Selection) -> BufferV {
        let (sy, ey) = self.line_span(sel);
        BufferV {
            selection: None,
            yank: self.lines.subrange(sy, ey + 1),
            cursor_y: sy as usize,
            ..self
        }.clamp_cursor_spec(true)
    }

    /// Visual `d` on whole lines: they go to the yank buffer and are removed.
    pub open spec fn cut_lines_spec(self, sel: Selection) -> BufferV {
        let (sy, ey) = self.line_span(sel);
        BufferV { selection: None, yank: self.lines.subrange(sy, ey + 1), ..self }.delete_selection_spec(sel)
    }
}

impl Buffer {
    /// Yanks the lines of a line selection; returns them joined and their count.
    pub fn yank_lines_of(&mut self, sel: &Selection) -> (r: (String, usize))
        requires
            old(self).wf(),
            old(self)@.sel_in_bounds(*sel),
        ensures
            final(self).wf(),
            final(self)@ == old(self)@.yank_lines_spec(*sel),
            r.0@ == join_lines_spec(old(self)@.lines.subrange(
                old(self)@.line_span(*sel).0,
                old(self)@.line_span(*sel).1 + 1,
            )),
            r.1 == old(self)@.line_span(*sel).1 - old(self)@.line_span(*sel).0 + 1,
    {
        let ((sy, _), (ey, _)) = self.ordered_selection(sel);
        let yanked = self.lines_between(sy, ey);
        let text = join_lines(yanked.as_slice());
        let len = self.line_len(sy);
        self.selection = None;
        self.yank_buffer = yanked;
        self.cursor_y = sy;
        if len == 0 {
            self.cursor_x = 0;
        } else if self.cursor_x > len - 1 {
            self.cursor_x = len - 1;
        }
        (text, ey - sy + 1)
    }
}


impl Buffer {
    /// Cuts the lines of a line selection; returns them joined.
    pub fn cut_lines_of(&mut self, sel: &Selection) -> (r: String)
        requires
            old(self).wf(),
            old(self)@.sel_in_bounds(*sel),
        ensures
            final(self).wf(),
            final(self)@ == old(self)@.cut_lines_spec(*sel),
            r@ == join_lines_spec(old(self)@.lines.subrange(
                old(self)@.line_span(*sel).0,
                old(self)@.line_span(*sel).1 + 1,
            )),
    {
        let ((sy, _), (ey, _)) = self.ordered_selection(sel);
        let yanked = self.lines_between(sy, ey);
        let text = join_lines(yanked.as_slice());
        self.selection = None;
        self.yank_buffer = yanked;
        self.delete_selection_range(sel);
        text
    }
}

} // verus!
