//! The editor application: tabs of buffers, modes, prompts, messages, and the
//! requests it makes of its host (copy to the clipboard, read the clipboard,
//! write a file, re-evaluate the active buffer). The host drains those
//! requests, performs them, and reports back where an answer is needed.
use vstd::prelude::*;
use crate::editor::{Buffer, BufferV, BufOp, pred_sat, min_int, tab_name_spec, SnapshotV, UndoSnapshot, buf_op_spec, empty_buffer, LineOutput, LineOutputV, Selection, SelectionKind, join_lines, join_lines_spec, strs};
use crate::mode::{Config, EditStyle, Mode};
use crate::text::{
    after_last_slash, concat_str, decimal_string, decimal_text, last_segment,
    split_on, split_spec, text_lines, text_lines_spec, trim_string, trim_spec, str_eq, pop_char,
    push_char, digits_value, parse_digits, has_extension, path_has_extension,
};
use crate::motion::{easy_motion_scan, easy_motion_targets, targets_in};

verus! {

// ── Events ─────────────────────────────────────────────────────────────────

/// A key, as the terminal reports it.
#[derive(Debug, Clone, Copy, PartialEq, Eq, Structural)]
pub enum KeyCode {
    Char(char),
    Enter,
    Backspace,
    Delete,
    Left,
    Right,
    Up,
    Down,
    Home,
    End,
    PageUp,
    PageDown,
    Tab,
    Esc,
    Other,
}

/// The modifier keys held with a key.
#[derive(Debug, Clone, Copy, PartialEq, Eq, Structural)]
pub struct KeyModifiers {
    pub shift: bool,
    pub control: bool,
    pub alt: bool,
}

/// A key press.
#[derive(Debug, Clone, Copy, PartialEq, Eq, Structural)]
pub struct KeyEvent {
    pub code: KeyCode,
    pub modifiers: KeyModifiers,
}

/// What the mouse did.
#[derive(Debug, Clone, Copy, PartialEq, Eq, Structural)]
pub enum MouseEventKind {
    LeftDown,
    LeftDrag,
    ScrollUp,
    ScrollDown,
    Other,
}

/// A mouse event at a terminal cell, with the time it happened in milliseconds.
#[derive(Debug, Clone, Copy, PartialEq, Eq, Structural)]
pub struct MouseEvent {
    pub kind: MouseEventKind,
    pub column: u16,
    pub row: u16,
    pub time_ms: u64,
}

/// A rectangle of terminal cells.
#[derive(Debug, Clone, Copy, PartialEq, Eq, Structural)]
pub struct Rect {
    pub x: u16,
    pub y: u16,
    pub width: u16,
    pub height: u16,
}

// ── State ──────────────────────────────────────────────────────────────────

/// What a prompt's answer is for.
#[derive(Debug, Clone, Copy, PartialEq, Eq, Structural)]
pub enum PromptAction {
    SaveAs,
    ConfirmQuit,
    ConfirmCloseTab,
}

/// A question in the bottom bar and the answer typed so far.
pub struct Prompt {
    pub label: String,
    pub buffer: String,
    pub action: PromptAction,
}

/// The first keys of a multi-key vim command.
#[derive(Debug, Clone, Copy, PartialEq, Eq, Structural)]
pub enum PendingKey {
    D,
    Y,
    G,
    C,
    DI,
    CI,
}

/// An EasyMotion search: the text typed, the visible matches, and the label
/// that jumps to each.
pub struct EasyMotionState {
    pub search: String,
    pub matches: Vec<(usize, usize)>,
    pub labels: Vec<char>,
}

/// A file write the host is performing for the buffer at `tab`; `close_after`
/// closes that tab once the write is reported.
pub struct PendingWrite {
    pub tab: usize,
    pub path: String,
    pub close_after: bool,
}

/// A file the host is asked to write.
pub struct WriteRequest {
    pub path: String,
    pub content: String,
}

/// What the host found when reading a file.
pub enum FileRead {
    Contents(String),
    NotFound,
    Failed(String),
}

/// The requests accumulated for the host.
pub struct Effects {
    pub copy: Option<String>,
    pub evaluate: bool,
    pub write: Option<WriteRequest>,
    pub read_clipboard: bool,
}

/// The whole editor.
pub struct App {
    pub buffers: Vec<Buffer>,
    pub active_tab: usize,
    pub should_quit: bool,
    pub message: Option<String>,
    pub config: Config,
    pub mode: Mode,
    pub command_buffer: String,
    pub pending_key: Option<PendingKey>,
    pub prompt: Option<Prompt>,
    pub easy_motion: Option<EasyMotionState>,
    pub last_visible_height: usize,
    /// Cached layout rects for mouse hit-testing (set during render).
    pub layout_editor_area: Option<Rect>,
    pub layout_tab_bar: Option<Rect>,
    pub layout_gutter_width: u16,
    pub layout_results_area: Option<Rect>,
    /// For double-click detection: time in milliseconds, column, row.
    pub last_click: Option<(u64, u16, u16)>,
    /// Vim count prefix buffer (e.g. "15" in "15G").
    pub count_buffer: String,
    /// Text to put on the clipboard.
    pub clipboard_out: Option<String>,
    /// The active buffer must be evaluated again.
    pub evaluate_pending: bool,
    /// A file to write, and what to do once it is written.
    pub write_request: Option<WriteRequest>,
    pub pending_write: Option<PendingWrite>,
    /// A paste waits for the clipboard's text.
    pub paste_requested: bool,
}

// ── Views ──────────────────────────────────────────────────────────────────

/// A prompt as plain values.
pub struct PromptV {
    pub label: Seq<char>,
    pub buffer: Seq<char>,
    pub action: PromptAction,
}

/// An EasyMotion search as plain values.
pub struct EasyMotionV {
    pub search: Seq<char>,
    pub matches: Seq<(usize, usize)>,
    pub labels: Seq<char>,
}

/// A pending write as plain values.
pub struct PendingWriteV {
    pub tab: usize,
    pub path: Seq<char>,
    pub close_after: bool,
}

/// The whole editor as plain values: what the contracts speak of.
pub struct AppV {
    pub buffers: Seq<BufferV>,
    pub active_tab: usize,
    pub should_quit: bool,
    pub message: Option<Seq<char>>,
    pub config: Config,
    pub mode: Mode,
    pub command_buffer: Seq<char>,
    pub pending_key: Option<PendingKey>,
    pub prompt: Option<PromptV>,
    pub easy_motion: Option<EasyMotionV>,
    pub last_visible_height: usize,
    pub layout_editor_area: Option<Rect>,
    pub layout_tab_bar: Option<Rect>,
    pub layout_gutter_width: u16,
    pub layout_results_area: Option<Rect>,
    pub last_click: Option<(u64, u16, u16)>,
    pub count_buffer: Seq<char>,
    pub clipboard_out: Option<Seq<char>>,
    pub evaluate_pending: bool,
    pub write_request: Option<(Seq<char>, Seq<char>)>,
    pub pending_write: Option<PendingWriteV>,
    pub paste_requested: bool,
}

impl View for Prompt {
    type V = PromptV;

    open spec fn view(&self) -> PromptV {
        PromptV { label: self.label@, buffer: self.buffer@, action: self.action }
    }
}

impl View for EasyMotionState {
    type V = EasyMotionV;

    open spec fn view(&self) -> EasyMotionV {
        EasyMotionV { search: self.search@, matches: self.matches@, labels: self.labels@ }
    }
}

impl View for PendingWrite {
    type V = PendingWriteV;

    open spec fn view(&self) -> PendingWriteV {
        PendingWriteV { tab: self.tab, path: self.path@, close_after: self.close_after }
    }
}

/// The view of an optional value that has one.
pub open spec fn opt_view<T: View>(o: Option<T>) -> Option<T::V> {
    match o {
        Some(x) => Some(x@),
        None => None,
    }
}

/// The view of an optional string.
pub open spec fn opt_s(o: Option<String>) -> Option<Seq<char>> {
    match o {
        Some(x) => Some(x@),
        None => None,
    }
}

/// The view of an optional write request.
pub open spec fn opt_write(o: Option<WriteRequest>) -> Option<(Seq<char>, Seq<char>)> {
    match o {
        Some(w) => Some((w.path@, w.content@)),
        None => None,
    }
}

/// The views of a sequence of buffers.
pub open spec fn bufs(v: Seq<Buffer>) -> Seq<BufferV> {
    v.map_values(|b: Buffer| b@)
}

impl View for App {
    type V = AppV;

    open spec fn view(&self) -> AppV {
        AppV {
            buffers: bufs(self.buffers@),
            active_tab: self.active_tab,
            should_quit: self.should_quit,
            message: opt_s(self.message),
            config: self.config,
            mode: self.mode,
            command_buffer: self.command_buffer@,
            pending_key: self.pending_key,
            prompt: opt_view(self.prompt),
            easy_motion: opt_view(self.easy_motion),
            last_visible_height: self.last_visible_height,
            layout_editor_area: self.layout_editor_area,
            layout_tab_bar: self.layout_tab_bar,
            layout_gutter_width: self.layout_gutter_width,
            layout_results_area: self.layout_results_area,
            last_click: self.last_click,
            count_buffer: self.count_buffer@,
            clipboard_out: opt_s(self.clipboard_out),
            evaluate_pending: self.evaluate_pending,
            write_request: opt_write(self.write_request),
            pending_write: opt_view(self.pending_write),
            paste_requested: self.paste_requested,
        }
    }
}

proof fn lemma_bufs_update(v: Seq<Buffer>, i: int, b: Buffer)
    requires
        0 <= i < v.len(),
    ensures
        bufs(v.update(i, b)) == bufs(v).update(i, b@),
{
    assert(bufs(v.update(i, b)) =~= bufs(v).update(i, b@));
}

impl AppV {
    /// The active buffer.
    pub open spec fn buf(self) -> BufferV {
        self.buffers[self.active_tab as int]
    }

    /// The active buffer replaced by `b`.
    pub open spec fn with_buf(self, b: BufferV) -> AppV {
        AppV { buffers: self.buffers.update(self.active_tab as int, b), ..self }
    }

    /// The message set to `m`.
    pub open spec fn say(self, m: Seq<char>) -> AppV {
        AppV { message: Some(m), ..self }
    }

    /// There is always a buffer and the active tab is one of them; every
    /// buffer is well formed; the count prefix holds digits only; every
    /// EasyMotion match has its label.
    pub open spec fn wf(self) -> bool {
        &&& self.buffers.len() >= 1
        &&& self.active_tab < self.buffers.len()
        &&& forall|j: int| 0 <= j < self.buffers.len() ==> (#[trigger] self.buffers[j]).wf()
        &&& forall|j: int|
            0 <= j < self.count_buffer.len() ==> '0' <= #[trigger] self.count_buffer[j] <= '9'
        &&& match self.easy_motion {
            Some(em) => em.matches.len() == em.labels.len(),
            None => true,
        }
    }
}

impl App {
    /// The application's invariant.
    pub open spec fn wf(&self) -> bool {
        &&& self@.wf()
        &&& forall|j: int| 0 <= j < self.buffers@.len() ==> (#[trigger] self.buffers@[j]).wf()
    }
}


// ── Tabs, messages, undo ───────────────────────────────────────────────────

/// Some buffer has unsaved changes.
pub open spec fn any_dirty(bs: Seq<BufferV>) -> bool {
    exists|j: int| 0 <= j < bs.len() && (#[trigger] bs[j]).dirty
}

/// The message a new editor greets with.
pub open spec fn greeting(style: EditStyle) -> Seq<char> {
    match style {
        EditStyle::Vim => "Calc (vim) — :q quit | :w save | i insert"@,
        EditStyle::Simple => "Calc — Ctrl+Q quit | Ctrl+S save | Ctrl+N new"@,
    }
}

impl AppV {
    /// The cursor is a block (on a character) in Normal and Visual mode.
    pub open spec fn blk(self) -> bool {
        self.mode == Mode::Normal || self.mode == Mode::Visual
    }

    /// Asks the host to evaluate the active buffer again.
    pub open spec fn eval(self) -> AppV {
        AppV { evaluate_pending: true, ..self }
    }

    /// The active buffer marked as changed and queued for evaluation.
    pub open spec fn touched(self) -> AppV {
        AppV { evaluate_pending: true, ..self.with_buf(BufferV { dirty: true, ..self.buf() }) }
    }

    /// Asks the host to put `t` on the clipboard.
    pub open spec fn copy(self, t: Seq<char>) -> AppV {
        AppV { clipboard_out: Some(t), ..self }
    }

    /// A new empty buffer in a new tab, which becomes the active one.
    pub open spec fn new_buffer_spec(self) -> AppV {
        AppV {
            buffers: self.buffers.push(empty_buffer()),
            active_tab: self.buffers.len() as usize,
            evaluate_pending: true,
            ..self
        }.say("New buffer"@)
    }

    /// Activates the next tab, wrapping around.
    pub open spec fn next_tab_spec(self) -> AppV {
        if self.buffers.len() > 1 {
            AppV { active_tab: ((self.active_tab + 1) % (self.buffers.len() as int)) as usize, ..self }
        } else {
            self
        }
    }

    /// Activates the previous tab, wrapping around.
    pub open spec fn prev_tab_spec(self) -> AppV {
        if self.buffers.len() > 1 {
            AppV {
                active_tab: if self.active_tab == 0 {
                    (self.buffers.len() - 1) as usize
                } else {
                    (self.active_tab - 1) as usize
                },
                ..self
            }
        } else {
            self
        }
    }

    /// Closes the active tab, or quits when it is the last one.
    pub open spec fn close_tab_force_spec(self) -> AppV {
        if self.buffers.len() == 1 {
            AppV { should_quit: true, ..self }
        } else {
            let bs = self.buffers.remove(self.active_tab as int);
            let a = if self.active_tab >= bs.len() {
                (bs.len() - 1) as usize
            } else {
                self.active_tab
            };
            AppV { buffers: bs, active_tab: a, ..self }.say(
                "Tab closed ("@ + decimal_text(bs.len()) + " remaining)"@,
            )
        }
    }

    /// Closes the active tab, asking first when it has unsaved changes.
    pub open spec fn close_tab_spec(self) -> AppV {
        if self.buf().dirty {
            AppV {
                prompt: Some(
                    PromptV {
                        label: "Unsaved changes. Close tab? (y/n): "@,
                        buffer: Seq::empty(),
                        action: PromptAction::ConfirmCloseTab,
                    },
                ),
                ..self
            }
        } else {
            self.close_tab_force_spec()
        }
    }

    /// Saves the active buffer's text and cursor for undo.
    pub open spec fn save_undo_spec(self) -> AppV {
        self.with_buf(self.buf().push_snapshot_spec(self.buf().snapshot()))
    }

    /// Undoes the active buffer's last change, or says there is none.
    pub open spec fn undo_app_spec(self) -> AppV {
        if self.buf().undo.len() > 0 {
            self.with_buf(self.buf().undo_spec()).eval().say("Undo"@)
        } else {
            self.say("Already at oldest change"@)
        }
    }

    /// Redoes the active buffer's last undone change, or says there is none.
    pub open spec fn redo_app_spec(self) -> AppV {
        if self.buf().redo.len() > 0 {
            self.with_buf(self.buf().redo_spec()).eval().say("Redo"@)
        } else {
            self.say("Already at newest change"@)
        }
    }

    /// Moves the active buffer's cursor up a line.
    pub open spec fn move_up_app(self) -> AppV {
        self.with_buf(self.buf().move_up_spec(self.blk()))
    }

    /// Moves the active buffer's cursor down a line.
    pub open spec fn move_down_app(self) -> AppV {
        self.with_buf(self.buf().move_down_spec(self.blk()))
    }

    /// Clamps the active buffer's cursor into its line.
    pub open spec fn clamp_app(self) -> AppV {
        self.with_buf(self.buf().clamp_cursor_spec(self.blk()))
    }

    /// Forgets the active buffer's remembered column.
    pub open spec fn clear_desired(self) -> AppV {
        self.with_buf(BufferV { desired_x: None, ..self.buf() })
    }

    /// `dd` and friends: the line removed, put in the yank buffer and on the
    /// clipboard.
    pub open spec fn delete_line_yank_spec(self) -> AppV {
        let removed = self.buf().cur();
        let b = self.buf().delete_line_spec();
        self.with_buf(BufferV { yank: seq![removed], ..b }).copy(removed)
    }

    /// `yy`: the line put in the yank buffer and on the clipboard.
    pub open spec fn yank_line_spec(self) -> AppV {
        let l = self.buf().cur();
        self.with_buf(BufferV { yank: seq![l], ..self.buf() }).copy(l)
    }

    /// The text a result row offers for copying: its error, else its value.
    pub open spec fn result_text(self, y: int) -> Seq<char> {
        let r = self.buf().results[y];
        match r.error {
            Some(e) => e,
            None => r.display,
        }
    }

    /// Copies the result of the cursor's line.
    pub open spec fn copy_result_spec(self) -> AppV {
        let cy = self.buf().cursor_y as int;
        if cy < self.buf().results.len() && self.result_text(cy).len() > 0 {
            let t = self.result_text(cy);
            self.copy(t).say("Copied: "@ + t)
        } else {
            self.say("No result to copy"@)
        }
    }

    /// Copies the selection (which ends) or the cursor's line into the yank
    /// buffer and the clipboard.
    pub open spec fn copy_selection_spec(self) -> AppV {
        let b = self.buf();
        let t = match b.selection {
            Some(sel) => b.selection_text(sel),
            None => b.cur(),
        };
        self.with_buf(BufferV { selection: None, yank: seq![t], ..b }).copy(t).say("Copied"@)
    }

    /// Cuts the selection, or the cursor's line.
    pub open spec fn cut_selection_spec(self) -> AppV {
        let b = self.buf();
        match b.selection {
            Some(sel) => {
                let t = b.selection_text(sel);
                let b2 = BufferV { selection: None, yank: seq![t], ..b }.delete_selection_spec(sel);
                self.with_buf(b2).copy(t)
            },
            None => self.delete_line_yank_spec(),
        }
    }

    /// Asks the host to write the active buffer to `path`.
    pub open spec fn write_spec(self, path: Seq<char>, close_after: bool) -> AppV {
        AppV {
            write_request: Some((path, join_lines_spec(self.buf().lines))),
            pending_write: Some(PendingWriteV { tab: self.active_tab, path, close_after }),
            ..self
        }
    }

    /// Saves under `path`, adding `.calc` when its file name has no extension.
    pub open spec fn save_as_spec(self, path: Seq<char>) -> AppV {
        let p = if has_extension(path) {
            path
        } else {
            path + ".calc"@
        };
        self.with_buf(BufferV { file_path: Some(p), ..self.buf() }).write_spec(p, false)
    }

    /// Saves to the buffer's file, or asks for a name.
    pub open spec fn save_spec(self, close_after: bool) -> AppV {
        match self.buf().file_path {
            Some(p) => self.write_spec(p, close_after),
            None => AppV {
                prompt: Some(
                    PromptV { label: "Save as: "@, buffer: Seq::empty(), action: PromptAction::SaveAs },
                ),
                ..self
            },
        }
    }

    /// What a reported write does.
    pub open spec fn finish_write_spec(self, result: Result<(), Seq<char>>) -> AppV {
        match self.pending_write {
            None => self,
            Some(pw) => {
                let a = AppV { pending_write: None, ..self };
                let a2 = match result {
                    Ok(_) => {
                        let bs = if pw.tab < a.buffers.len() {
                            a.buffers.update(pw.tab as int, BufferV { dirty: false, ..a.buffers[pw.tab as int] })
                        } else {
                            a.buffers
                        };
                        AppV { buffers: bs, ..a }.say("Saved to "@ + pw.path)
                    },
                    Err(e) => a.say("Error saving: "@ + e),
                };
                if pw.close_after {
                    a2.close_tab_force_spec()
                } else {
                    a2
                }
            },
        }
    }

    /// Inserts pasted text at the cursor; text spanning lines splits the
    /// cursor's line around it, and the cursor ends after the pasted text.
    pub open spec fn paste_text_spec(self, text: Seq<char>) -> AppV {
        let b = self.buf();
        if text.len() == 0 {
            self
        } else {
            let parts = split_spec(text, '\n');
            if parts.len() == 1 {
                self.with_buf(b.type_text_spec(parts[0]))
            } else {
                let k = parts.len() as int;
                let cy = b.cursor_y as int;
                let l = b.cur();
                let cx = b.cursor_x as int;
                let lines = b.lines.take(cy) + seq![l.take(cx) + parts[0]] + parts.subrange(1, k - 1)
                    + seq![parts[k - 1] + l.skip(cx)] + b.lines.skip(cy + 1);
                self.with_buf(
                    BufferV {
                        lines,
                        cursor_y: (cy + k - 1) as usize,
                        cursor_x: parts[k - 1].len() as usize,
                        ..b
                    },
                )
            }
        }
    }

    /// Pastes the clipboard's text, or the yank buffer's lines when the
    /// clipboard could not be read.
    pub open spec fn paste_clip_spec(self, clip: Option<Seq<char>>) -> AppV {
        let text = match clip {
            Some(t) => t,
            None => join_lines_spec(self.buf().yank),
        };
        self.paste_text_spec(text)
    }

    /// The clipboard's text arrived (or not): it is pasted (else the yank
    /// buffer is), and the buffer counts as changed.
    pub open spec fn finish_paste_spec(self, clip: Option<Seq<char>>) -> AppV {
        AppV { paste_requested: false, ..self.paste_clip_spec(clip) }.touched()
    }

    /// What loading a file does, given what reading it gave.
    pub open spec fn load_spec(self, path: Seq<char>, read: FileReadV) -> AppV {
        let b = self.buf();
        match read {
            FileReadV::Contents(c) => {
                let ls = text_lines_spec(c);
                let lines = if ls.len() == 0 {
                    seq![Seq::<char>::empty()]
                } else {
                    ls
                };
                self.with_buf(
                    BufferV {
                        file_path: Some(path),
                        lines,
                        cursor_x: 0,
                        cursor_y: 0,
                        scroll_offset: 0,
                        dirty: false,
                        ..b
                    },
                ).eval().say("Loaded "@ + path)
            },
            FileReadV::NotFound => self.with_buf(BufferV { file_path: Some(path), ..b }).say(
                "New file: "@ + path,
            ),
            FileReadV::Failed(_) => self.with_buf(BufferV { file_path: None, ..b }),
        }
    }

    /// Scrolls the active buffer so that its cursor is visible.
    pub open spec fn ensure_visible_app(self, h: int) -> AppV {
        self.with_buf(self.buf().ensure_visible_spec(h))
    }
}

/// The view of what reading a file gave.
pub enum FileReadV {
    Contents(Seq<char>),
    NotFound,
    Failed(Seq<char>),
}

impl View for FileRead {
    type V = FileReadV;

    open spec fn view(&self) -> FileReadV {
        match self {
            FileRead::Contents(c) => FileReadV::Contents(c@),
            FileRead::NotFound => FileReadV::NotFound,
            FileRead::Failed(e) => FileReadV::Failed(e@),
        }
    }
}

/// `a` followed by `b` and `c`.
fn concat3(a: &str, b: &str, c: &str) -> (r: String)
    ensures
        r@ == a@ + b@ + c@,
{
    let mut r = String::from_str(a);
    r.append(b);
    r.append(c);
    r
}

impl App {
    /// A new editor with one empty buffer, in the mode the style starts in.
    pub fn new(config: Config) -> (r: App)
        ensures
            r.wf(),
            r@.buffers.len() == 1,
            r@.buffers[0] == empty_buffer(),
            r@.active_tab == 0,
            !r@.should_quit,
            r@.message == Some(greeting(config.edit_style)),
            r@.config == config,
            r@.mode == (match config.edit_style {
                EditStyle::Vim => Mode::Normal,
                EditStyle::Simple => Mode::Insert,
            }),
            r@.command_buffer.len() == 0,
            r@.pending_key is None && r@.prompt is None && r@.easy_motion is None,
            r@.last_visible_height == 20,
            r@.layout_editor_area is None && r@.layout_tab_bar is None && r@.layout_results_area is None,
            r@.layout_gutter_width == 0,
            r@.last_click is None,
            r@.count_buffer.len() == 0,
            r@.clipboard_out is None && r@.write_request is None && r@.pending_write is None,
            r@.evaluate_pending,
            !r@.paste_requested,
    {
        let mode = match config.edit_style {
            EditStyle::Vim => Mode::Normal,
            EditStyle::Simple => Mode::Insert,
        };
        let msg = match config.edit_style {
            EditStyle::Vim => String::from_str("Calc (vim) — :q quit | :w save | i insert"),
            EditStyle::Simple => String::from_str("Calc — Ctrl+Q quit | Ctrl+S save | Ctrl+N new"),
        };
        let mut buffers: Vec<Buffer> = Vec::new();
        buffers.push(Buffer::new());
        let r = App {
            buffers,
            active_tab: 0,
            should_quit: false,
            message: Some(msg),
            config,
            mode,
            command_buffer: String::new(),
            pending_key: None,
            prompt: None,
            easy_motion: None,
            last_visible_height: 20,
            layout_editor_area: None,
            layout_tab_bar: None,
            layout_gutter_width: 0,
            layout_results_area: None,
            last_click: None,
            count_buffer: String::new(),
            clipboard_out: None,
            evaluate_pending: true,
            write_request: None,
            pending_write: None,
            paste_requested: false,
        };
        r
    }

    /// Hands the host the requests accumulated so far and clears them.
    pub fn take_effects(&mut self) -> (e: Effects)
        requires
            old(self).wf(),
        ensures
            final(self).wf(),
            opt_s(e.copy) == old(self)@.clipboard_out,
            e.evaluate == old(self)@.evaluate_pending,
            opt_write(e.write) == old(self)@.write_request,
            e.read_clipboard == old(self)@.paste_requested,
            final(self)@ == (AppV {
                clipboard_out: None,
                evaluate_pending: false,
                write_request: None,
                paste_requested: false,
                ..old(self)@
            }),
    {
        let copy = self.clipboard_out.take();
        let write = self.write_request.take();
        let e = Effects {
            copy,
            evaluate: self.evaluate_pending,
            write,
            read_clipboard: self.paste_requested,
        };
        self.evaluate_pending = false;
        self.paste_requested = false;
        e
    }

    /// Stores the results the host computed for the active buffer.
    pub fn set_results(&mut self, results: Vec<LineOutput>)
        requires
            old(self).wf(),
        ensures
            final(self).wf(),
            final(self)@ == old(self)@.with_buf(
                BufferV { results: results@.map_values(|o: LineOutput| o@), ..old(self)@.buf() },
            ),
    {
        let i = self.active_tab;
        let ghost v0 = self.buffers@;
        self.buffers[i].results = results;
        proof {
            lemma_bufs_update(v0, i as int, self.buffers@[i as int]);
        }
    }

    /// Opens a new empty buffer in a new tab.
    pub fn new_buffer(&mut self)
        requires
            old(self).wf(),
        ensures
            final(self).wf(),
            final(self)@ == old(self)@.new_buffer_spec(),
    {
        let ghost v0 = self.buffers@;
        self.buffers.push(Buffer::new());
        assert(bufs(self.buffers@) =~= bufs(v0).push(empty_buffer()));
        self.active_tab = self.buffers.len() - 1;
        self.message = Some(String::from_str("New buffer"));
        self.evaluate_pending = true;
    }

    /// Activates the next tab, wrapping around.
    pub fn next_tab(&mut self)
        requires
            old(self).wf(),
        ensures
            final(self).wf(),
            final(self)@ == old(self)@.next_tab_spec(),
    {
        if self.buffers.len() > 1 {
            self.active_tab = (self.active_tab + 1) % self.buffers.len();
        }
    }

    /// Activates the previous tab, wrapping around.
    pub fn prev_tab(&mut self)
        requires
            old(self).wf(),
        ensures
            final(self).wf(),
            final(self)@ == old(self)@.prev_tab_spec(),
    {
        if self.buffers.len() > 1 {
            self.active_tab = if self.active_tab == 0 {
                self.buffers.len() - 1
            } else {
                self.active_tab - 1
            };
        }
    }

    /// Closes the active tab without asking, or quits when it is the last one.
    pub fn close_tab_force(&mut self)
        requires
            old(self).wf(),
        ensures
            final(self).wf(),
            final(self)@ == old(self)@.close_tab_force_spec(),
    {
        if self.buffers.len() == 1 {
            self.should_quit = true;
            return;
        }
        let ghost v0 = self.buffers@;
        self.buffers.remove(self.active_tab);
        assert(bufs(self.buffers@) =~= bufs(v0).remove(self.active_tab as int));
        if self.active_tab >= self.buffers.len() {
            self.active_tab = self.buffers.len() - 1;
        }
        let n = decimal_string(self.buffers.len());
        self.message = Some(concat3("Tab closed (", n.as_str(), " remaining)"));
    }

    /// Closes the active tab, asking first when it has unsaved changes.
    pub fn close_tab(&mut self)
        requires
            old(self).wf(),
        ensures
            final(self).wf(),
            final(self)@ == old(self)@.close_tab_spec(),
    {
        if self.buffers[self.active_tab].dirty {
            self.prompt = Some(
                Prompt {
                    label: String::from_str("Unsaved changes. Close tab? (y/n): "),
                    buffer: String::new(),
                    action: PromptAction::ConfirmCloseTab,
                },
            );
        } else {
            self.close_tab_force();
        }
    }

    /// Queues the active buffer for evaluation.
    pub fn evaluate(&mut self)
        ensures
            final(self)@ == old(self)@.eval(),
    {
        self.evaluate_pending = true;
    }

    /// Saves the active buffer's text and cursor for undo.
    pub fn save_undo_snapshot(&mut self)
        requires
            old(self).wf(),
        ensures
            final(self).wf(),
            final(self)@ == old(self)@.save_undo_spec(),
    {
        let i = self.active_tab;
        let snap = self.buffers[i].take_snapshot();
        let ghost v0 = self.buffers@;
        self.buffers[i].push_snapshot(snap);
        proof {
            lemma_bufs_update(v0, i as int, self.buffers@[i as int]);
        }
    }

    /// Undoes the active buffer's last change, or says there is none.
    pub fn undo(&mut self)
        requires
            old(self).wf(),
        ensures
            final(self).wf(),
            final(self)@ == old(self)@.undo_app_spec(),
    {
        let i = self.active_tab;
        let ghost v0 = self.buffers@;
        let did = self.buffers[i].undo();
        proof {
            lemma_bufs_update(v0, i as int, self.buffers@[i as int]);
        }
        if did {
            self.evaluate_pending = true;
            self.message = Some(String::from_str("Undo"));
        } else {
            assert(self@.buffers =~= old(self)@.buffers);
            self.message = Some(String::from_str("Already at oldest change"));
        }
    }

    /// Redoes the active buffer's last undone change, or says there is none.
    pub fn redo(&mut self)
        requires
            old(self).wf(),
        ensures
            final(self).wf(),
            final(self)@ == old(self)@.redo_app_spec(),
    {
        let i = self.active_tab;
        let ghost v0 = self.buffers@;
        let did = self.buffers[i].redo();
        proof {
            lemma_bufs_update(v0, i as int, self.buffers@[i as int]);
        }
        if did {
            self.evaluate_pending = true;
            self.message = Some(String::from_str("Redo"));
        } else {
            assert(self@.buffers =~= old(self)@.buffers);
            self.message = Some(String::from_str("Already at newest change"));
        }
    }

    fn block_cursor(&self) -> (r: bool)
        ensures
            r == self@.blk(),
    {
        self.mode == Mode::Normal || self.mode == Mode::Visual
    }

    /// Moves the cursor up a line, keeping the remembered column.
    pub fn move_up(&mut self)
        requires
            old(self).wf(),
        ensures
            final(self).wf(),
            final(self)@ == old(self)@.move_up_app(),
    {
        let i = self.active_tab;
        let blk = self.block_cursor();
        let ghost v0 = self.buffers@;
        self.buffers[i].move_up(blk);
        proof {
            lemma_bufs_update(v0, i as int, self.buffers@[i as int]);
        }
    }

    /// Moves the cursor down a line, keeping the remembered column.
    pub fn move_down(&mut self)
        requires
            old(self).wf(),
        ensures
            final(self).wf(),
            final(self)@ == old(self)@.move_down_app(),
    {
        let i = self.active_tab;
        let blk = self.block_cursor();
        let ghost v0 = self.buffers@;
        self.buffers[i].move_down(blk);
        proof {
            lemma_bufs_update(v0, i as int, self.buffers@[i as int]);
        }
    }

    /// Keeps the cursor on its line (on a character in Normal and Visual mode).
    pub fn clamp_cursor(&mut self)
        requires
            old(self).wf(),
        ensures
            final(self).wf(),
            final(self)@ == old(self)@.clamp_app(),
    {
        let i = self.active_tab;
        let blk = self.block_cursor();
        let ghost v0 = self.buffers@;
        self.buffers[i].clamp_cursor(blk);
        proof {
            lemma_bufs_update(v0, i as int, self.buffers@[i as int]);
        }
    }

    /// Forgets the remembered column, after horizontal movement or an edit.
    pub fn clear_desired_x(&mut self)
        requires
            old(self).wf(),
        ensures
            final(self).wf(),
            final(self)@ == old(self)@.clear_desired(),
    {
        let i = self.active_tab;
        let ghost v0 = self.buffers@;
        self.buffers[i].desired_x = None;
        proof {
            lemma_bufs_update(v0, i as int, self.buffers@[i as int]);
        }
    }

    /// Deletes the cursor's line, which goes to the yank buffer and the clipboard.
    pub fn delete_line_yank(&mut self)
        requires
            old(self).wf(),
        ensures
            final(self).wf(),
            final(self)@ == old(self)@.delete_line_yank_spec(),
    {
        let i = self.active_tab;
        let ghost v0 = self.buffers@;
        let removed = self.buffers[i].cut_line();
        proof {
            lemma_bufs_update(v0, i as int, self.buffers@[i as int]);
        }
        self.clipboard_out = Some(removed);
    }

    /// Yanks the cursor's line.
    pub fn yank_line(&mut self)
        requires
            old(self).wf(),
        ensures
            final(self).wf(),
            final(self)@ == old(self)@.yank_line_spec(),
    {
        let i = self.active_tab;
        let ghost v0 = self.buffers@;
        let line = self.buffers[i].yank_cur();
        proof {
            lemma_bufs_update(v0, i as int, self.buffers@[i as int]);
        }
        self.clipboard_out = Some(line);
    }

    /// Copies the result of the cursor's line to the clipboard.
    pub fn copy_result(&mut self)
        requires
            old(self).wf(),
        ensures
            final(self).wf(),
            final(self)@ == old(self)@.copy_result_spec(),
    {
        let i = self.active_tab;
        let cy = self.buffers[i].cursor_y;
        if cy < self.buffers[i].results.len() {
            let r = &self.buffers[i].results[cy];
            let text = match &r.error {
                Some(e) => e.clone(),
                None => r.display.clone(),
            };
            if text.as_str().unicode_len() > 0 {
                self.message = Some(concat_str("Copied: ", text.as_str()));
                self.clipboard_out = Some(text);
                return;
            }
        }
        self.message = Some(String::from_str("No result to copy"));
    }

    /// Copies the selection or the cursor's line.
    pub fn copy_selection_or_line(&mut self)
        requires
            old(self).wf(),
            match old(self)@.buf().selection {
                Some(sel) => old(self)@.buf().sel_in_bounds(sel),
                None => true,
            },
        ensures
            final(self).wf(),
            final(self)@ == old(self)@.copy_selection_spec(),
    {
        let i = self.active_tab;
        let ghost v0 = self.buffers@;
        let t = self.buffers[i].yank_selection_or_line();
        proof {
            lemma_bufs_update(v0, i as int, self.buffers@[i as int]);
        }
        self.clipboard_out = Some(t);
        self.message = Some(String::from_str("Copied"));
    }

    /// Cuts the selection or the cursor's line.
    pub fn cut_selection_or_line(&mut self)
        requires
            old(self).wf(),
            match old(self)@.buf().selection {
                Some(sel) => old(self)@.buf().sel_in_bounds(sel),
                None => true,
            },
        ensures
            final(self).wf(),
            final(self)@ == old(self)@.cut_selection_spec(),
    {
        let i = self.active_tab;
        match self.buffers[i].selection {
            Some(sel) => {
                let ghost v0 = self.buffers@;
                let t = self.buffers[i].cut_selection(&sel);
                proof {
                    lemma_bufs_update(v0, i as int, self.buffers@[i as int]);
                }
                self.clipboard_out = Some(t);
            },
            None => {
                self.delete_line_yank();
            },
        }
    }

    /// The number of text rows the editor shows in a terminal `area_height` rows tall.
    pub fn visible_height(&self, area_height: u16) -> (r: usize)
        ensures
            r == (if area_height as int >= 3 + (if self.buffers@.len() > 1 { 1int } else { 0int }) {
                area_height - 3 - (if self.buffers@.len() > 1 { 1int } else { 0int })
            } else {
                0
            }),
    {
        let overhead: usize = if self.buffers.len() > 1 {
            4
        } else {
            3
        };
        let h = area_height as usize;
        if h >= overhead {
            h - overhead
        } else {
            0
        }
    }

    /// Scrolls the active buffer so that its cursor's line is visible.
    pub fn ensure_cursor_visible(&mut self, visible_height: usize)
        requires
            old(self).wf(),
        ensures
            final(self).wf(),
            final(self)@ == old(self)@.ensure_visible_app(visible_height as int),
    {
        let i = self.active_tab;
        let ghost v0 = self.buffers@;
        self.buffers[i].ensure_cursor_visible(visible_height);
        proof {
            lemma_bufs_update(v0, i as int, self.buffers@[i as int]);
        }
    }
}


impl App {
    /// Asks the host to write the active buffer to `path`.
    fn request_write(&mut self, path: String, close_after: bool)
        requires
            old(self).wf(),
        ensures
            final(self).wf(),
            final(self)@ == old(self)@.write_spec(path@, close_after),
    {
        let i = self.active_tab;
        let content = join_lines(self.buffers[i].lines.as_slice());
        let p2 = path.clone();
        self.write_request = Some(WriteRequest { path, content });
        self.pending_write = Some(PendingWrite { tab: i, path: p2, close_after });
    }

    /// Saves under `path`, adding `.calc` when its file name has no extension.
    pub fn save_as(&mut self, path: &str)
        requires
            old(self).wf(),
        ensures
            final(self).wf(),
            final(self)@ == old(self)@.save_as_spec(path@),
    {
        let p = if path_has_extension(path) {
            String::from_str(path)
        } else {
            concat_str(path, ".calc")
        };
        let i = self.active_tab;
        let ghost v0 = self.buffers@;
        self.buffers[i].file_path = Some(p.clone());
        proof {
            lemma_bufs_update(v0, i as int, self.buffers@[i as int]);
        }
        self.request_write(p, false);
    }

    /// Saves to the buffer's file (closing the tab afterwards when
    /// `close_after`), or asks for a file name.
    pub fn save(&mut self, close_after: bool)
        requires
            old(self).wf(),
        ensures
            final(self).wf(),
            final(self)@ == old(self)@.save_spec(close_after),
    {
        let i = self.active_tab;
        match &self.buffers[i].file_path {
            Some(p) => {
                let p = p.clone();
                self.request_write(p, close_after);
            },
            None => {
                self.prompt = Some(
                    Prompt {
                        label: String::from_str("Save as: "),
                        buffer: String::new(),
                        action: PromptAction::SaveAs,
                    },
                );
            },
        }
    }

    /// The host reports how the requested write went.
    pub fn finish_write(&mut self, result: Result<(), String>)
        requires
            old(self).wf(),
        ensures
            final(self).wf(),
            final(self)@ == old(self)@.finish_write_spec(
                match result {
                    Ok(_) => Ok(()),
                    Err(e) => Err(e@),
                },
            ),
    {
        let pw = match self.pending_write.take() {
            Some(pw) => pw,
            None => {
                return;
            },
        };
        match result {
            Ok(_) => {
                if pw.tab < self.buffers.len() {
                    let ghost v0 = self.buffers@;
                    self.buffers[pw.tab].dirty = false;
                    proof {
                        lemma_bufs_update(v0, pw.tab as int, self.buffers@[pw.tab as int]);
                    }
                }
                self.message = Some(concat_str("Saved to ", pw.path.as_str()));
            },
            Err(e) => {
                self.message = Some(concat_str("Error saving: ", e.as_str()));
            },
        }
        if pw.close_after {
            self.close_tab_force();
        }
    }

    /// Loads what reading `path` gave into the active buffer; a read that
    /// failed for another reason than a missing file is handed back.
    pub fn load_contents(&mut self, path: &str, read: FileRead) -> (r: Result<(), String>)
        requires
            old(self).wf(),
        ensures
            final(self).wf(),
            final(self)@ == old(self)@.load_spec(path@, read@),
            match read@ {
                FileReadV::Failed(e) => r matches Err(x) && x@ == e,
                _ => r is Ok,
            },
    {
        let i = self.active_tab;
        let ghost v0 = self.buffers@;
        match read {
            FileRead::Contents(c) => {
                let mut lines = text_lines(c.as_str());
                if lines.len() == 0 {
                    lines.push(String::new());
                }
                proof {
                    assert(strs(lines@) =~= lines@.map_values(|x: String| x@));
                    if text_lines_spec(c@).len() == 0 {
                        assert(strs(lines@) =~= seq![Seq::<char>::empty()]);
                    }
                }
                self.buffers[i].load_lines(String::from_str(path), lines);
                proof {
                    lemma_bufs_update(v0, i as int, self.buffers@[i as int]);
                }
                self.evaluate_pending = true;
                self.message = Some(concat_str("Loaded ", path));
                Ok(())
            },
            FileRead::NotFound => {
                self.buffers[i].file_path = Some(String::from_str(path));
                proof {
                    lemma_bufs_update(v0, i as int, self.buffers@[i as int]);
                }
                self.message = Some(concat_str("New file: ", path));
                Ok(())
            },
            FileRead::Failed(e) => {
                self.buffers[i].file_path = None;
                proof {
                    lemma_bufs_update(v0, i as int, self.buffers@[i as int]);
                }
                Err(e)
            },
        }
    }

    /// Pastes `text` at the cursor.
    fn paste_text(&mut self, text: &str)
        requires
            old(self).wf(),
        ensures
            final(self).wf(),
            final(self)@ == old(self)@.paste_text_spec(text@),
    {
        if text.unicode_len() == 0 {
            return;
        }
        let parts = split_on(text, '\n');
        let ghost ps = parts@.map_values(|x: String| x@);
        let k = parts.len();
        let i = self.active_tab;
        let ghost v0 = self.buffers@;
        if k == 1 {
            self.buffers[i].type_text(parts[0].as_str());
            proof {
                lemma_bufs_update(v0, i as int, self.buffers@[i as int]);
            }
            return;
        }
        self.buffers[i].paste_lines(&parts);
        proof {
            lemma_bufs_update(v0, i as int, self.buffers@[i as int]);
        }
    }

    /// Pastes the clipboard's text `clip` at the cursor, or the yank
    /// buffer's lines when the clipboard could not be read (`None`).
    pub fn paste_from_clipboard(&mut self, clip: Option<String>)
        requires
            old(self).wf(),
        ensures
            final(self).wf(),
            final(self)@ == old(self)@.paste_clip_spec(opt_s(clip)),
    {
        let i = self.active_tab;
        let text = match clip {
            Some(t) => t,
            None => join_lines(self.buffers[i].yank_buffer.as_slice()),
        };
        self.paste_text(text.as_str());
    }

    /// The host hands over the clipboard's text (`None` when it could not be
    /// read) for the paste it was asked for.
    pub fn finish_paste(&mut self, clip: Option<String>)
        requires
            old(self).wf(),
        ensures
            final(self).wf(),
            final(self)@ == old(self)@.finish_paste_spec(opt_s(clip)),
    {
        let i = self.active_tab;
        self.paste_from_clipboard(clip);
        self.paste_requested = false;
        let ghost v0 = self.buffers@;
        self.buffers[i].dirty = true;
        proof {
            lemma_bufs_update(v0, i as int, self.buffers@[i as int]);
        }
        self.evaluate_pending = true;
    }
}


// ── Command line and prompts ───────────────────────────────────────────────

impl AppV {
    /// Runs the `:` command typed so far (trimmed), back in Normal mode.
    pub open spec fn execute_command_spec(self) -> AppV {
        let cmd = trim_spec(self.command_buffer);
        let a = AppV { command_buffer: Seq::empty(), mode: Mode::Normal, ..self };
        if cmd == "q"@ {
            if a.buf().dirty {
                a.say("Unsaved changes. Use :q! to force or :w to save."@)
            } else {
                a.close_tab_force_spec()
            }
        } else if cmd == "q!"@ {
            a.close_tab_force_spec()
        } else if cmd == "qa"@ {
            if any_dirty(a.buffers) {
                AppV {
                    prompt: Some(
                        PromptV {
                            label: "Unsaved changes. Quit all? (y/n): "@,
                            buffer: Seq::empty(),
                            action: PromptAction::ConfirmQuit,
                        },
                    ),
                    ..a
                }
            } else {
                AppV { should_quit: true, ..a }
            }
        } else if cmd == "qa!"@ {
            AppV { should_quit: true, ..a }
        } else if cmd == "w"@ {
            a.save_spec(false)
        } else if cmd.len() >= 2 && cmd[0] == 'w' && cmd[1] == ' ' {
            let p = trim_spec(cmd.skip(2));
            if p.len() > 0 {
                a.save_as_spec(p)
            } else {
                a
            }
        } else if cmd == "wq"@ || cmd == "x"@ {
            a.save_spec(true)
        } else if cmd == "tabnew"@ {
            a.new_buffer_spec()
        } else if cmd == "tabn"@ {
            a.next_tab_spec()
        } else if cmd == "tabp"@ {
            a.prev_tab_spec()
        } else {
            a.say("Unknown command: :"@ + cmd)
        }
    }

    /// A key in Command mode.
    pub open spec fn command_key_spec(self, key: KeyEvent) -> AppV {
        match key.code {
            KeyCode::Esc => AppV { mode: Mode::Normal, command_buffer: Seq::empty(), ..self },
            KeyCode::Enter => self.execute_command_spec(),
            KeyCode::Backspace => if self.command_buffer.len() > 0 {
                AppV { command_buffer: self.command_buffer.drop_last(), ..self }
            } else {
                AppV { mode: Mode::Normal, ..self }
            },
            KeyCode::Char(c) => AppV { command_buffer: self.command_buffer.push(c), ..self },
            _ => self,
        }
    }

    /// A key while a prompt is open.
    pub open spec fn prompt_key_spec(self, key: KeyEvent) -> AppV
        recommends
            self.prompt is Some,
    {
        let p = self.prompt->0;
        let yes = key.code == KeyCode::Char('y') || key.code == KeyCode::Char('Y');
        let closed = AppV { prompt: None, ..self };
        match p.action {
            PromptAction::ConfirmQuit => if yes {
                AppV { should_quit: true, ..closed }
            } else {
                closed.say("Quit cancelled"@)
            },
            PromptAction::ConfirmCloseTab => if yes {
                closed.close_tab_force_spec()
            } else {
                closed.say("Close cancelled"@)
            },
            PromptAction::SaveAs => match key.code {
                KeyCode::Esc => closed,
                KeyCode::Enter => {
                    let v = trim_spec(p.buffer);
                    if v.len() == 0 {
                        closed.say("Cancelled"@)
                    } else {
                        closed.save_as_spec(v)
                    }
                },
                KeyCode::Backspace => if p.buffer.len() > 0 {
                    AppV { prompt: Some(PromptV { buffer: p.buffer.drop_last(), ..p }), ..self }
                } else {
                    closed
                },
                KeyCode::Char(c) => AppV { prompt: Some(PromptV { buffer: p.buffer.push(c), ..p }), ..self },
                _ => self,
            },
        }
    }
}

fn any_buffer_dirty(bs: &Vec<Buffer>) -> (r: bool)
    ensures
        r == any_dirty(bufs(bs@)),
{
    let mut i: usize = 0;
    while i < bs.len()
        invariant
            i <= bs@.len(),
            forall|j: int| 0 <= j < i ==> !(#[trigger] bufs(bs@)[j]).dirty,
        decreases bs@.len() - i,
    {
        if bs[i].dirty {
            assert(bufs(bs@)[i as int].dirty);
            return true;
        }
        i = i + 1;
    }
    false
}

impl App {
    /// Runs the command typed in Command mode.
    pub fn execute_command(&mut self)
        requires
            old(self).wf(),
        ensures
            final(self).wf(),
            final(self)@ == old(self)@.execute_command_spec(),
    {
        let cmd = trim_string(self.command_buffer.as_str());
        self.command_buffer = String::new();
        self.mode = Mode::Normal;
        let c = cmd.as_str();
        if str_eq(c, "q") {
            if self.buffers[self.active_tab].dirty {
                self.message = Some(String::from_str("Unsaved changes. Use :q! to force or :w to save."));
            } else {
                self.close_tab_force();
            }
        } else if str_eq(c, "q!") {
            self.close_tab_force();
        } else if str_eq(c, "qa") {
            if any_buffer_dirty(&self.buffers) {
                self.prompt = Some(
                    Prompt {
                        label: String::from_str("Unsaved changes. Quit all? (y/n): "),
                        buffer: String::new(),
                        action: PromptAction::ConfirmQuit,
                    },
                );
            } else {
                self.should_quit = true;
            }
        } else if str_eq(c, "qa!") {
            self.should_quit = true;
        } else if str_eq(c, "w") {
            self.save(false);
        } else if c.unicode_len() >= 2 && c.get_char(0) == 'w' && c.get_char(1) == ' ' {
            let rest = c.substring_char(2, c.unicode_len());
            let p = trim_string(rest);
            assert(rest@ =~= cmd@.skip(2));
            if p.as_str().unicode_len() > 0 {
                self.save_as(p.as_str());
            }
        } else if str_eq(c, "wq") || str_eq(c, "x") {
            self.save(true);
        } else if str_eq(c, "tabnew") {
            self.new_buffer();
        } else if str_eq(c, "tabn") {
            self.next_tab();
        } else if str_eq(c, "tabp") {
            self.prev_tab();
        } else {
            self.message = Some(concat_str("Unknown command: :", c));
        }
    }

    /// A key in Command mode.
    pub fn handle_command_key(&mut self, key: KeyEvent)
        requires
            old(self).wf(),
        ensures
            final(self).wf(),
            final(self)@ == old(self)@.command_key_spec(key),
    {
        match key.code {
            KeyCode::Esc => {
                self.mode = Mode::Normal;
                self.command_buffer = String::new();
            },
            KeyCode::Enter => {
                self.execute_command();
            },
            KeyCode::Backspace => {
                if !pop_char(&mut self.command_buffer) {
                    self.mode = Mode::Normal;
                }
            },
            KeyCode::Char(c) => {
                push_char(&mut self.command_buffer, c);
            },
            _ => {},
        }
    }

    /// A key while a prompt is open.
    pub fn handle_prompt_key(&mut self, key: KeyEvent)
        requires
            old(self).wf(),
            old(self)@.prompt is Some,
        ensures
            final(self).wf(),
            final(self)@ == old(self)@.prompt_key_spec(key),
    {
        let yes = key.code == KeyCode::Char('y') || key.code == KeyCode::Char('Y');
        let action = match &self.prompt {
            Some(p) => p.action,
            None => {
                return;
            },
        };
        match action {
            PromptAction::ConfirmQuit => {
                self.prompt = None;
                if yes {
                    self.should_quit = true;
                } else {
                    self.message = Some(String::from_str("Quit cancelled"));
                }
            },
            PromptAction::ConfirmCloseTab => {
                self.prompt = None;
                if yes {
                    self.close_tab_force();
                } else {
                    self.message = Some(String::from_str("Close cancelled"));
                }
            },
            PromptAction::SaveAs => match key.code {
                KeyCode::Esc => {
                    self.prompt = None;
                },
                KeyCode::Enter => {
                    let p = self.prompt.take().unwrap();
                    let v = trim_string(p.buffer.as_str());
                    if v.as_str().unicode_len() == 0 {
                        self.message = Some(String::from_str("Cancelled"));
                    } else {
                        self.save_as(v.as_str());
                    }
                },
                KeyCode::Backspace => {
                    let mut p = self.prompt.take().unwrap();
                    if pop_char(&mut p.buffer) {
                        self.prompt = Some(p);
                    }
                },
                KeyCode::Char(c) => {
                    let mut p = self.prompt.take().unwrap();
                    push_char(&mut p.buffer, c);
                    self.prompt = Some(p);
                },
                _ => {},
            },
        }
    }
}


// ── Insert-style keys and the simple key map ───────────────────────────────

/// The Control commands of simple mode that read the selected text.
pub open spec fn ctrl_reads_selection(code: KeyCode) -> bool {
    code == KeyCode::Char('c') || code == KeyCode::Char('C') || code == KeyCode::Char('x') || code
        == KeyCode::Char('X') || code == KeyCode::Char('d') || code == KeyCode::Char('D')
}

/// The keys that, with Control, are commands of simple mode.
pub open spec fn simple_ctrl_command(code: KeyCode) -> bool {
    match code {
        KeyCode::Char(c) => c == 'q' || c == 'Q' || c == 's' || c == 'S' || c == 'n' || c == 'N' || c
            == 'w' || c == 'W' || c == 'z' || c == 'Z' || c == 'c' || c == 'C' || c == 'x' || c == 'X'
            || c == 'v' || c == 'V' || c == 'y' || c == 'Y' || c == 'd' || c == 'D',
        KeyCode::Delete | KeyCode::Backspace | KeyCode::PageDown | KeyCode::PageUp => true,
        _ => false,
    }
}

/// Whether `code` is, with Control, a command of simple mode.
fn is_simple_ctrl_command(code: KeyCode) -> (r: bool)
    ensures
        r == simple_ctrl_command(code),
{
    match code {
        KeyCode::Char(c) => c == 'q' || c == 'Q' || c == 's' || c == 'S' || c == 'n' || c == 'N' || c
            == 'w' || c == 'W' || c == 'z' || c == 'Z' || c == 'c' || c == 'C' || c == 'x' || c == 'X'
            || c == 'v' || c == 'V' || c == 'y' || c == 'Y' || c == 'd' || c == 'D',
        KeyCode::Delete | KeyCode::Backspace | KeyCode::PageDown | KeyCode::PageUp => true,
        _ => false,
    }
}

/// Whether the Control command `code` reads the selected text.
fn ctrl_reads(code: KeyCode) -> (r: bool)
    ensures
        r == ctrl_reads_selection(code),
{
    code == KeyCode::Char('c') || code == KeyCode::Char('C') || code == KeyCode::Char('x') || code
        == KeyCode::Char('X') || code == KeyCode::Char('d') || code == KeyCode::Char('D')
}

/// Whether a selection's anchor is usable for reading the selected text.
pub open spec fn sel_ok(b: BufferV) -> bool {
    match b.selection {
        Some(sel) => b.sel_in_bounds(sel),
        None => true,
    }
}

impl AppV {
    /// The active buffer after operation `o`.
    pub open spec fn op(self, o: BufOp) -> AppV {
        self.with_buf(buf_op_spec(self.buf(), o).0)
    }

    /// The active buffer after operation `o`, and whether `o` reports a change.
    pub open spec fn op_changed(self, o: BufOp) -> (AppV, bool) {
        (self.op(o), buf_op_spec(self.buf(), o).1)
    }

    /// The message cleared.
    pub open spec fn say_nothing(self) -> AppV {
        AppV { message: None, ..self }
    }

    /// A change recorded: `snap` saved for undo, the active buffer marked as
    /// changed and queued for evaluation.
    pub open spec fn commit(self, snap: SnapshotV) -> AppV {
        AppV {
            evaluate_pending: true,
            ..self.with_buf(BufferV { dirty: true, ..self.buf().push_snapshot_spec(snap) })
        }
    }

    /// A key in insert style (simple mode, vim Insert mode): whether it
    /// changed the text.
    pub open spec fn insert_key_spec(self, key: KeyEvent) -> (AppV, bool) {
        let a = if key.code == KeyCode::Up || key.code == KeyCode::Down {
            self
        } else {
            self.op(BufOp::ClearDesired)
        };
        match key.code {
            KeyCode::Char(c) => if key.modifiers.control {
                (a, false)
            } else {
                a.op_changed(BufOp::TypeChar(c))
            },
            KeyCode::Enter => a.op_changed(BufOp::SplitLine),
            KeyCode::Backspace => a.op_changed(BufOp::Backspace),
            KeyCode::Delete => a.op_changed(BufOp::DeleteChar),
            KeyCode::Left => (a.op(BufOp::LeftWrap).op(BufOp::ClearDesired), false),
            KeyCode::Right => (a.op(BufOp::RightWrap).op(BufOp::ClearDesired), false),
            KeyCode::Up => (a.op(BufOp::MoveUp(a.blk())), false),
            KeyCode::Down => (a.op(BufOp::MoveDown(a.blk())), false),
            KeyCode::Home => (a.op(BufOp::LineStart), false),
            KeyCode::End => (a.op(BufOp::LineEnd), false),
            KeyCode::PageUp => (a.op(BufOp::PageUp), false),
            KeyCode::PageDown => (a.op(BufOp::PageDown), false),
            KeyCode::Tab => a.op_changed(BufOp::TypeTab),
            _ => (a, false),
        }
    }

    /// A key in vim Insert mode: Esc goes back to Normal mode (one column
    /// left), anything else is an insert-style key.
    pub open spec fn insert_mode_key_spec(self, key: KeyEvent) -> (AppV, bool) {
        if key.code == KeyCode::Esc {
            (AppV { mode: Mode::Normal, ..self }.op(BufOp::StepBack).say_nothing(), false)
        } else {
            self.insert_key_spec(key)
        }
    }

    /// A key with Control in simple mode, when it is one of the editor's
    /// commands.
    pub open spec fn simple_ctrl_spec(self, code: KeyCode) -> Option<AppV> {
        match code {
            KeyCode::Char('q') | KeyCode::Char('Q') => Some(
                if any_dirty(self.buffers) {
                    AppV {
                        prompt: Some(
                            PromptV {
                                label: "Unsaved changes. Quit? (y/n): "@,
                                buffer: Seq::empty(),
                                action: PromptAction::ConfirmQuit,
                            },
                        ),
                        ..self
                    }
                } else {
                    AppV { should_quit: true, ..self }
                },
            ),
            KeyCode::Char('s') | KeyCode::Char('S') => Some(self.save_spec(false)),
            KeyCode::Char('n') | KeyCode::Char('N') => Some(self.new_buffer_spec()),
            KeyCode::Char('w') | KeyCode::Char('W') => Some(self.close_tab_spec()),
            KeyCode::Char('z') => Some(self.undo_app_spec()),
            KeyCode::Char('Z') => Some(self.redo_app_spec()),
            KeyCode::Char('c') | KeyCode::Char('C') => Some(self.copy_selection_spec()),
            KeyCode::Char('x') | KeyCode::Char('X') => Some(self.save_undo_spec().cut_selection_spec().touched()),
            KeyCode::Char('v') | KeyCode::Char('V') => Some(AppV { paste_requested: true, ..self.save_undo_spec() }),
            KeyCode::Char('y') | KeyCode::Char('Y') => Some(self.copy_result_spec()),
            KeyCode::Char('d') | KeyCode::Char('D') => Some(self.save_undo_spec().cut_selection_spec().touched()),
            KeyCode::Delete => Some(self.word_delete_spec(true)),
            KeyCode::Backspace => Some(self.word_delete_spec(false)),
            KeyCode::PageDown => Some(self.next_tab_spec()),
            KeyCode::PageUp => Some(self.prev_tab_spec()),
            _ => None,
        }
    }

    /// Deletes a word forward or backward as a recorded change.
    pub open spec fn word_delete_spec(self, forward: bool) -> AppV {
        self.save_undo_spec().op(
            if forward {
                BufOp::DeleteWordForward
            } else {
                BufOp::DeleteWordBackward
            },
        ).touched()
    }

    /// A key with Shift in simple mode, when it moves the cursor (extending
    /// the selection).
    pub open spec fn simple_shift_spec(self, key: KeyEvent) -> Option<AppV> {
        let ctrl = key.modifiers.control;
        match key.code {
            KeyCode::Left => Some(
                self.op(
                    if ctrl {
                        BufOp::WordBackward
                    } else {
                        BufOp::LeftWrap
                    },
                ),
            ),
            KeyCode::Right => Some(
                self.op(
                    if ctrl {
                        BufOp::WordForward
                    } else {
                        BufOp::RightWrap
                    },
                ),
            ),
            KeyCode::Home => Some(
                self.op(
                    if ctrl {
                        BufOp::DocStart
                    } else {
                        BufOp::LineStart
                    },
                ),
            ),
            KeyCode::End => Some(
                self.op(
                    if ctrl {
                        BufOp::DocEnd
                    } else {
                        BufOp::LineEnd
                    },
                ),
            ),
            KeyCode::Up => Some(self.op(BufOp::MoveUp(self.blk()))),
            KeyCode::Down => Some(self.op(BufOp::MoveDown(self.blk()))),
            _ => None,
        }
    }

    /// The active buffer's selection ended, unless `key` holds Shift: in
    /// simple mode every key without Shift ends the selection.
    pub open spec fn unselect_unless_shift(self, key: KeyEvent) -> AppV {
        if key.modifiers.shift {
            self
        } else {
            self.op(BufOp::EndSelection)
        }
    }

    /// A key in simple mode.
    pub open spec fn simple_key_spec(self, key: KeyEvent) -> AppV {
        if key.modifiers.control && simple_ctrl_command(key.code) {
            if ctrl_reads_selection(key.code) {
                self.simple_ctrl_spec(key.code)->0.unselect_unless_shift(key)
            } else {
                self.unselect_unless_shift(key).simple_ctrl_spec(key.code)->0
            }
        } else if key.modifiers.alt && key.code == KeyCode::Delete {
            self.word_delete_spec(true).unselect_unless_shift(key)
        } else if key.modifiers.alt && key.code == KeyCode::Backspace {
            self.word_delete_spec(false).unselect_unless_shift(key)
        } else {
            let a = if key.modifiers.shift && self.buf().selection is None {
                self.op(BufOp::SelectFromCursor(SelectionKind::Char))
            } else {
                self
            };
            let shift_result = if key.modifiers.shift {
                a.simple_shift_spec(key)
            } else {
                None
            };
            if shift_result is Some {
                shift_result->0
            } else {
                let a2 = if a.buf().selection is Some && !key.modifiers.shift {
                    a.op(BufOp::EndSelection)
                } else {
                    a
                };
                let (a3, changed) = a2.insert_key_spec(key);
                if changed {
                    a3.commit(a2.buf().snapshot())
                } else {
                    a3
                }
            }
        }
    }

    /// The keys that read the selected text in simple mode.
    pub open spec fn simple_reads_selection(key: KeyEvent) -> bool {
        key.modifiers.control && ctrl_reads_selection(key.code)
    }
}

impl App {
    /// Applies `op` to the active buffer; `true` when it reports a change.
    pub fn apply(&mut self, op: BufOp) -> (changed: bool)
        requires
            old(self).wf(),
        ensures
            final(self).wf(),
            final(self)@ == old(self)@.op(op),
            changed == buf_op_spec(old(self)@.buf(), op).1,
    {
        let i = self.active_tab;
        let ghost v0 = self.buffers@;
        let r = self.buffers[i].apply(op);
        proof {
            lemma_bufs_update(v0, i as int, self.buffers@[i as int]);
        }
        r
    }

    /// Records a change of the active buffer: `snap` saved for undo, the
    /// buffer marked as changed and queued for evaluation.
    fn commit(&mut self, snap: UndoSnapshot)
        requires
            old(self).wf(),
            snap@.wf(),
        ensures
            final(self).wf(),
            final(self)@ == old(self)@.commit(snap@),
    {
        let i = self.active_tab;
        let ghost v0 = self.buffers@;
        self.buffers[i].commit_change(snap);
        proof {
            lemma_bufs_update(v0, i as int, self.buffers@[i as int]);
        }
        self.evaluate_pending = true;
    }

    /// A key in insert style; `true` when it changed the text.
    #[verifier::spinoff_prover]
    #[verifier::rlimit(40)]
    pub fn handle_insert_key(&mut self, key: KeyEvent) -> (changed: bool)
        requires
            old(self).wf(),
        ensures
            final(self).wf(),
            (final(self)@, changed) == old(self)@.insert_key_spec(key),
    {
        if !(key.code == KeyCode::Up || key.code == KeyCode::Down) {
            self.apply(BufOp::ClearDesired);
        }
        match key.code {
            KeyCode::Char(c) => {
                if key.modifiers.control {
                    false
                } else {
                    self.apply(BufOp::TypeChar(c))
                }
            },
            KeyCode::Enter => self.apply(BufOp::SplitLine),
            KeyCode::Backspace => self.apply(BufOp::Backspace),
            KeyCode::Delete => self.apply(BufOp::DeleteChar),
            KeyCode::Left => {
                self.apply(BufOp::LeftWrap);
                self.apply(BufOp::ClearDesired);
                false
            },
            KeyCode::Right => {
                self.apply(BufOp::RightWrap);
                self.apply(BufOp::ClearDesired);
                false
            },
            KeyCode::Up => {
                let blk = self.block_cursor();
                self.apply(BufOp::MoveUp(blk));
                false
            },
            KeyCode::Down => {
                let blk = self.block_cursor();
                self.apply(BufOp::MoveDown(blk));
                false
            },
            KeyCode::Home => {
                self.apply(BufOp::LineStart);
                false
            },
            KeyCode::End => {
                self.apply(BufOp::LineEnd);
                false
            },
            KeyCode::PageUp => {
                self.apply(BufOp::PageUp);
                false
            },
            KeyCode::PageDown => {
                self.apply(BufOp::PageDown);
                false
            },
            KeyCode::Tab => self.apply(BufOp::TypeTab),
            _ => false,
        }
    }

    /// A key in vim Insert mode; `true` when it changed the text.
    pub fn handle_insert_mode_key(&mut self, key: KeyEvent) -> (changed: bool)
        requires
            old(self).wf(),
        ensures
            final(self).wf(),
            (final(self)@, changed) == old(self)@.insert_mode_key_spec(key),
    {
        if key.code == KeyCode::Esc {
            self.mode = Mode::Normal;
            self.apply(BufOp::StepBack);
            self.message = None;
            return false;
        }
        self.handle_insert_key(key)
    }
}


impl App {
    /// Marks the active buffer as changed and queues it for evaluation.
    fn touch(&mut self)
        requires
            old(self).wf(),
        ensures
            final(self).wf(),
            final(self)@ == old(self)@.touched(),
    {
        let i = self.active_tab;
        let ghost v0 = self.buffers@;
        self.buffers[i].dirty = true;
        proof {
            lemma_bufs_update(v0, i as int, self.buffers@[i as int]);
        }
        self.evaluate_pending = true;
    }

    fn word_delete(&mut self, forward: bool)
        requires
            old(self).wf(),
        ensures
            final(self).wf(),
            final(self)@ == old(self)@.word_delete_spec(forward),
    {
        self.save_undo_snapshot();
        if forward {
            self.apply(BufOp::DeleteWordForward);
        } else {
            self.apply(BufOp::DeleteWordBackward);
        }
        self.touch();
    }

    /// The Control commands of simple mode; `false` when `code` is none of them.
    #[verifier::spinoff_prover]
    #[verifier::rlimit(40)]
    fn handle_simple_ctrl(&mut self, code: KeyCode) -> (handled: bool)
        requires
            old(self).wf(),
            ctrl_reads_selection(code) ==> sel_ok(old(self)@.buf()),
        ensures
            final(self).wf(),
            handled == old(self)@.simple_ctrl_spec(code) is Some,
            handled ==> final(self)@ == old(self)@.simple_ctrl_spec(code)->0,
            !handled ==> final(self)@ == old(self)@,
    {
        match code {
            KeyCode::Char('q') | KeyCode::Char('Q') => {
                if any_buffer_dirty(&self.buffers) {
                    self.prompt = Some(
                        Prompt {
                            label: String::from_str("Unsaved changes. Quit? (y/n): "),
                            buffer: String::new(),
                            action: PromptAction::ConfirmQuit,
                        },
                    );
                } else {
                    self.should_quit = true;
                }
                true
            },
            KeyCode::Char('s') | KeyCode::Char('S') => {
                self.save(false);
                true
            },
            KeyCode::Char('n') | KeyCode::Char('N') => {
                self.new_buffer();
                true
            },
            KeyCode::Char('w') | KeyCode::Char('W') => {
                self.close_tab();
                true
            },
            KeyCode::Char('z') => {
                self.undo();
                true
            },
            KeyCode::Char('Z') => {
                self.redo();
                true
            },
            KeyCode::Char('c') | KeyCode::Char('C') => {
                self.copy_selection_or_line();
                true
            },
            KeyCode::Char('x') | KeyCode::Char('X') | KeyCode::Char('d') | KeyCode::Char('D') => {
                self.save_undo_snapshot();
                self.cut_selection_or_line();
                self.touch();
                true
            },
            KeyCode::Char('v') | KeyCode::Char('V') => {
                self.save_undo_snapshot();
                self.paste_requested = true;
                true
            },
            KeyCode::Char('y') | KeyCode::Char('Y') => {
                self.copy_result();
                true
            },
            KeyCode::Delete => {
                self.word_delete(true);
                true
            },
            KeyCode::Backspace => {
                self.word_delete(false);
                true
            },
            KeyCode::PageDown => {
                self.next_tab();
                true
            },
            KeyCode::PageUp => {
                self.prev_tab();
                true
            },
            _ => false,
        }
    }

    /// The Shift movements of simple mode; `false` when the key is none of them.
    #[verifier::spinoff_prover]
    fn handle_simple_shift(&mut self, key: KeyEvent) -> (handled: bool)
        requires
            old(self).wf(),
        ensures
            final(self).wf(),
            handled == old(self)@.simple_shift_spec(key) is Some,
            handled ==> final(self)@ == old(self)@.simple_shift_spec(key)->0,
            !handled ==> final(self)@ == old(self)@,
    {
        let ctrl = key.modifiers.control;
        match key.code {
            KeyCode::Left => {
                self.apply(
                    if ctrl {
                        BufOp::WordBackward
                    } else {
                        BufOp::LeftWrap
                    },
                );
                true
            },
            KeyCode::Right => {
                self.apply(
                    if ctrl {
                        BufOp::WordForward
                    } else {
                        BufOp::RightWrap
                    },
                );
                true
            },
            KeyCode::Home => {
                self.apply(
                    if ctrl {
                        BufOp::DocStart
                    } else {
                        BufOp::LineStart
                    },
                );
                true
            },
            KeyCode::End => {
                self.apply(
                    if ctrl {
                        BufOp::DocEnd
                    } else {
                        BufOp::LineEnd
                    },
                );
                true
            },
            KeyCode::Up => {
                let blk = self.block_cursor();
                self.apply(BufOp::MoveUp(blk));
                true
            },
            KeyCode::Down => {
                let blk = self.block_cursor();
                self.apply(BufOp::MoveDown(blk));
                true
            },
            _ => false,
        }
    }

    /// A key in simple mode.
    pub fn handle_key_simple(&mut self, key: KeyEvent)
        requires
            old(self).wf(),
            AppV::simple_reads_selection(key) ==> sel_ok(old(self)@.buf()),
        ensures
            final(self).wf(),
            final(self)@ == old(self)@.simple_key_spec(key),
    {
        if key.modifiers.control && is_simple_ctrl_command(key.code) {
            // The selection ended is the one of the buffer the key was
            // pressed in: before a command that may switch tabs, after one
            // that reads the selected text.
            let reads = ctrl_reads(key.code);
            if !reads && !key.modifiers.shift {
                self.apply(BufOp::EndSelection);
            }
            let handled = self.handle_simple_ctrl(key.code);
            assert(handled);
            if reads && !key.modifiers.shift {
                self.apply(BufOp::EndSelection);
            }
            return;
        }
        if key.modifiers.alt && key.code == KeyCode::Delete {
            self.word_delete(true);
            if !key.modifiers.shift {
                self.apply(BufOp::EndSelection);
            }
            return;
        }
        if key.modifiers.alt && key.code == KeyCode::Backspace {
            self.word_delete(false);
            if !key.modifiers.shift {
                self.apply(BufOp::EndSelection);
            }
            return;
        }
        if key.modifiers.shift && self.buffers[self.active_tab].selection.is_none() {
            self.apply(BufOp::SelectFromCursor(SelectionKind::Char));
        }
        if key.modifiers.shift {
            if self.handle_simple_shift(key) {
                return;
            }
        }
        if self.buffers[self.active_tab].selection.is_some() && !key.modifiers.shift {
            self.apply(BufOp::EndSelection);
        }
        let i = self.active_tab;
        let snap = self.buffers[i].take_snapshot();
        let changed = self.handle_insert_key(key);
        if changed {
            self.commit(snap);
        }
    }
}


// ── Vim: EasyMotion, Normal, pending keys, Visual ──────────────────────────

/// The first position of `c` in `s`, or -1.
pub open spec fn first_index(s: Seq<char>, c: char) -> int
    decreases s.len(),
{
    if s.len() == 0 {
        -1
    } else if s[0] == c {
        0
    } else {
        let r = first_index(s.drop_first(), c);
        if r < 0 {
            -1
        } else {
            r + 1
        }
    }
}

/// The count typed before a command, when it fits in a `usize`.
pub open spec fn count_value(cb: Seq<char>) -> Option<usize> {
    if cb.len() == 0 || digits_value(cb) > usize::MAX {
        None
    } else {
        Some(digits_value(cb) as usize)
    }
}

/// The message after yanking `n` lines.
pub open spec fn lines_yanked_text(n: nat) -> Seq<char> {
    decimal_text(n) + " line"@ + (if n == 1 {
        ""@
    } else {
        "s"@
    }) + " yanked"@
}

impl AppV {
    /// Insert mode, message cleared.
    pub open spec fn to_insert(self) -> AppV {
        AppV { mode: Mode::Insert, message: None, ..self }
    }

    /// The EasyMotion matches and labels recomputed for the search typed.
    pub open spec fn recompute_spec(self) -> AppV {
        match self.easy_motion {
            None => self,
            Some(em) => if em.search.len() == 0 {
                AppV { easy_motion: Some(EasyMotionV { matches: Seq::empty(), labels: Seq::empty(), ..em }), ..self }
            } else {
                let t = easy_motion_targets(self.buf(), em.search, self.last_visible_height as int);
                AppV { easy_motion: Some(EasyMotionV { matches: t.0, labels: t.1, ..em }), ..self }
            },
        }
    }

    /// A key while EasyMotion is active: a label jumps to its match, another
    /// character extends the search, Backspace shortens it, Esc ends it.
    pub open spec fn easy_key_spec(self, key: KeyEvent) -> AppV
        recommends
            self.easy_motion is Some,
    {
        let em = self.easy_motion->0;
        let off = AppV { easy_motion: None, message: None, ..self };
        match key.code {
            KeyCode::Esc => off,
            KeyCode::Backspace => if em.search.len() == 0 {
                off
            } else {
                AppV { easy_motion: Some(EasyMotionV { search: em.search.drop_last(), ..em }), ..self }.recompute_spec()
            },
            KeyCode::Char(c) => {
                let idx = first_index(em.labels, c);
                if idx >= 0 {
                    let t = em.matches[idx];
                    off.op(BufOp::JumpTo(t.0, t.1)).op(BufOp::ClearDesired)
                } else {
                    AppV { easy_motion: Some(EasyMotionV { search: em.search.push(c), ..em }), ..self }.recompute_spec()
                }
            },
            _ => self,
        }
    }

    /// The second (or third) key of a multi-key command.
    pub open spec fn pending_spec(self, p: PendingKey, key: KeyEvent) -> (AppV, bool) {
        match key.code {
            KeyCode::Char(ch) => match (p, ch) {
                (PendingKey::D, 'd') => (self.delete_line_yank_spec(), true),
                (PendingKey::D, 'i') => (AppV { pending_key: Some(PendingKey::DI), ..self }, false),
                (PendingKey::DI, 'w') => (self.op(BufOp::DeleteInnerWord), true),
                (PendingKey::Y, 'y') => (self.yank_line_spec().say("1 line yanked"@), false),
                (PendingKey::Y, 'r') => (self.copy_result_spec(), false),
                (PendingKey::G, 'g') => (self.op(BufOp::GotoLine(0, self.blk())), false),
                (PendingKey::G, 't') => (self.next_tab_spec(), false),
                (PendingKey::G, 'T') => (self.prev_tab_spec(), false),
                (PendingKey::C, 'c') => (self.op(BufOp::ClearLine).to_insert(), true),
                (PendingKey::C, 'i') => (AppV { pending_key: Some(PendingKey::CI), ..self }, false),
                (PendingKey::CI, 'w') => (self.op(BufOp::DeleteInnerWord).to_insert(), true),
                (PendingKey::C, 'w') | (PendingKey::C, 'e') => (self.op(BufOp::ChangeWord).to_insert(), true),
                (PendingKey::C, 'b') => (self.op(BufOp::DeleteWordBackward).to_insert(), true),
                (PendingKey::C, '$') => (self.op(BufOp::Truncate).to_insert(), true),
                (PendingKey::C, '0') => (self.op(BufOp::CutToStart).to_insert(), true),
                _ => (self, false),
            },
            _ => (self, false),
        }
    }

    /// A Normal-mode command key, with the count typed before it.
    pub open spec fn normal_cmd_spec(self, code: KeyCode, count: Option<usize>) -> (AppV, bool) {
        let blk = self.blk();
        match code {
            KeyCode::Char('i') => (self.to_insert(), false),
            KeyCode::Char('a') => (self.op(BufOp::Append).to_insert(), false),
            KeyCode::Char('A') => (self.op(BufOp::LineEnd).to_insert(), false),
            KeyCode::Char('o') => (self.op(BufOp::OpenBelow).to_insert(), true),
            KeyCode::Char('O') => (self.op(BufOp::OpenAbove).to_insert(), true),
            KeyCode::Char('v') => (
                AppV { mode: Mode::Visual, ..self.op(BufOp::SelectFromCursor(SelectionKind::Char)) }.say_nothing(),
                false,
            ),
            KeyCode::Char('V') => (
                AppV { mode: Mode::Visual, ..self.op(BufOp::SelectFromCursor(SelectionKind::Line)) }.say_nothing(),
                false,
            ),
            KeyCode::Char(':') => (AppV { mode: Mode::Command, command_buffer: Seq::empty(), ..self }, false),
            KeyCode::Char('h') | KeyCode::Left => (self.op(BufOp::Left).op(BufOp::ClearDesired), false),
            KeyCode::Char('j') | KeyCode::Down => (self.op(BufOp::MoveDown(blk)), false),
            KeyCode::Char('k') | KeyCode::Up => (self.op(BufOp::MoveUp(blk)), false),
            KeyCode::Char('l') | KeyCode::Right => (self.op(BufOp::RightBlock).op(BufOp::ClearDesired), false),
            KeyCode::Char('0') | KeyCode::Home => (self.op(BufOp::LineStart).op(BufOp::ClearDesired), false),
            KeyCode::Char('$') | KeyCode::End => (self.op(BufOp::EndBlock).op(BufOp::ClearDesired), false),
            KeyCode::Char('w') => (self.op(BufOp::WordForward).op(BufOp::ClearDesired), false),
            KeyCode::Char('e') => (self.op(BufOp::WordEnd).op(BufOp::ClearDesired), false),
            KeyCode::Char('b') => (self.op(BufOp::WordBackward).op(BufOp::ClearDesired), false),
            KeyCode::Char('G') => {
                let y = match count {
                    Some(n) => pred_sat(n as int),
                    None => self.buf().lines.len() - 1,
                };
                (self.op(BufOp::GotoLine(y as usize, blk)).op(BufOp::ClearDesired), false)
            },
            KeyCode::Char('f') => (
                AppV {
                    easy_motion: Some(
                        EasyMotionV { search: Seq::empty(), matches: Seq::empty(), labels: Seq::empty() },
                    ),
                    ..self
                }.say("EasyMotion: type to search"@),
                false,
            ),
            KeyCode::Char('u') => (self.undo_app_spec(), false),
            KeyCode::Char('x') | KeyCode::Delete => self.op_changed(BufOp::DeleteUnder(blk)),
            KeyCode::Char('p') => (self.op(BufOp::PasteBelow), true),
            KeyCode::Char('P') => (self.op(BufOp::PasteAbove), true),
            KeyCode::Char('C') => (self.op(BufOp::Truncate).to_insert(), true),
            KeyCode::Char('s') => (self.op(BufOp::Substitute).to_insert(), true),
            KeyCode::Char('S') => (self.op(BufOp::ClearLine).to_insert(), true),
            KeyCode::Char('d') => (AppV { pending_key: Some(PendingKey::D), ..self }, false),
            KeyCode::Char('y') => (AppV { pending_key: Some(PendingKey::Y), ..self }, false),
            KeyCode::Char('g') => (AppV { pending_key: Some(PendingKey::G), ..self }, false),
            KeyCode::Char('c') => (AppV { pending_key: Some(PendingKey::C), ..self }, false),
            _ => (self, false),
        }
    }

    /// A key in Normal mode: whether it changed the text.
    pub open spec fn normal_key_spec(self, key: KeyEvent) -> (AppV, bool) {
        let cb = self.count_buffer;
        if self.easy_motion is Some {
            (self.easy_key_spec(key), false)
        } else if key.modifiers.control {
            if key.code == KeyCode::Char('r') {
                (self.redo_app_spec(), false)
            } else {
                (self, false)
            }
        } else if self.pending_key is Some {
            AppV { pending_key: None, count_buffer: Seq::empty(), ..self }.pending_spec(self.pending_key->0, key)
        } else if (key.code matches KeyCode::Char(c) && '1' <= c <= '9') || (key.code == KeyCode::Char('0')
            && cb.len() > 0) {
            let d = key.code->0;
            (AppV { count_buffer: cb.push(d), message: Some(cb.push(d)), ..self }, false)
        } else if cb.len() == 0 {
            self.normal_cmd_spec(key.code, None)
        } else {
            AppV { count_buffer: Seq::empty(), message: None, ..self }.normal_cmd_spec(key.code, count_value(cb))
        }
    }

    /// Visual `y`: yanks the selection, back in Normal mode.
    pub open spec fn visual_yank_spec(self, sel: Selection) -> AppV {
        let b = self.buf();
        let a = if sel.kind == SelectionKind::Line {
            let (sy, ey) = b.line_span(sel);
            self.with_buf(b.yank_lines_spec(sel)).copy(join_lines_spec(b.lines.subrange(sy, ey + 1))).say(
                lines_yanked_text((ey - sy + 1) as nat),
            )
        } else {
            let t = b.selection_text(sel);
            self.with_buf(BufferV { selection: None, yank: seq![t], ..b }).copy(t).say("Yanked"@)
        };
        AppV { mode: Mode::Normal, ..a }.op(BufOp::Clamp(true))
    }

    /// Visual `d`: cuts the selection, back in Normal mode.
    pub open spec fn visual_delete_spec(self, sel: Selection) -> AppV {
        let b = self.buf();
        let a = if sel.kind == SelectionKind::Line {
            let (sy, ey) = b.line_span(sel);
            self.with_buf(b.cut_lines_spec(sel)).copy(join_lines_spec(b.lines.subrange(sy, ey + 1)))
        } else {
            let t = b.selection_text(sel);
            self.with_buf(BufferV { selection: None, yank: seq![t], ..b }.delete_selection_spec(sel)).copy(t)
        };
        AppV { mode: Mode::Normal, ..a }.op(BufOp::Clamp(true))
    }

    /// A key in Visual mode: whether it changed the text.
    pub open spec fn visual_key_spec(self, key: KeyEvent) -> (AppV, bool) {
        let blk = self.blk();
        match key.code {
            KeyCode::Esc => (AppV { mode: Mode::Normal, ..self }.op(BufOp::EndSelection), false),
            KeyCode::Char('j') | KeyCode::Down => (self.op(BufOp::MoveDown(blk)), false),
            KeyCode::Char('k') | KeyCode::Up => (self.op(BufOp::MoveUp(blk)), false),
            KeyCode::Char('h') | KeyCode::Left => (self.op(BufOp::Left).op(BufOp::ClearDesired), false),
            KeyCode::Char('l') | KeyCode::Right => (self.op(BufOp::RightBlock).op(BufOp::ClearDesired), false),
            KeyCode::Char('w') => (self.op(BufOp::WordForward), false),
            KeyCode::Char('e') => (self.op(BufOp::WordEnd), false),
            KeyCode::Char('b') => (self.op(BufOp::WordBackward), false),
            KeyCode::Char('0') | KeyCode::Home => (self.op(BufOp::LineStart), false),
            KeyCode::Char('$') | KeyCode::End => (self.op(BufOp::EndBlock), false),
            KeyCode::Char('G') => (self.op(BufOp::GotoLine((self.buf().lines.len() - 1) as usize, blk)), false),
            KeyCode::Char('y') => match self.buf().selection {
                Some(sel) => (self.visual_yank_spec(sel), false),
                None => (self, false),
            },
            KeyCode::Char('d') | KeyCode::Delete => match self.buf().selection {
                Some(sel) => (self.visual_delete_spec(sel), true),
                None => (self, false),
            },
            _ => (self, false),
        }
    }

    /// A key in the vim key map.
    pub open spec fn vim_key_spec(self, key: KeyEvent) -> AppV {
        let s = AppV { easy_motion: None, ..self };
        match self.mode {
            Mode::Normal => {
                let (a, ch) = self.normal_key_spec(key);
                if ch {
                    a.commit(self.buf().snapshot())
                } else {
                    a
                }
            },
            Mode::Insert => {
                let (a, ch) = s.insert_mode_key_spec(key);
                if ch {
                    a.commit(s.buf().snapshot())
                } else {
                    a
                }
            },
            Mode::Visual => {
                let (a, ch) = s.visual_key_spec(key);
                if ch {
                    a.commit(s.buf().snapshot())
                } else {
                    a
                }
            },
            Mode::Command => s.command_key_spec(key),
        }
    }

    /// Any key: to the prompt when one is open, else to the key map of the
    /// configured style.
    pub open spec fn key_spec(self, key: KeyEvent) -> AppV {
        if self.prompt is Some {
            self.prompt_key_spec(key)
        } else {
            match self.config.edit_style {
                EditStyle::Simple => self.simple_key_spec(key),
                EditStyle::Vim => self.vim_key_spec(key),
            }
        }
    }

    /// Vim Visual `y`, `d` and Delete read the selected text.
    pub open spec fn vim_reads_selection(self, key: KeyEvent) -> bool {
        self.mode == Mode::Visual && (key.code == KeyCode::Char('y') || key.code == KeyCode::Char('d')
            || key.code == KeyCode::Delete)
    }

    /// The key can be handled: when it reads the selected text, the
    /// selection's anchor lies in the text.
    pub open spec fn key_safe(self, key: KeyEvent) -> bool {
        ||| self.prompt is Some
        ||| match self.config.edit_style {
            EditStyle::Simple => AppV::simple_reads_selection(key) ==> sel_ok(self.buf()),
            EditStyle::Vim => self.vim_reads_selection(key) ==> sel_ok(self.buf()),
        }
    }
}


proof fn lemma_first_index(s: Seq<char>, c: char, k: int)
    requires
        0 <= k <= s.len(),
        forall|j: int| 0 <= j < k ==> s[j] != c,
    ensures
        k < s.len() && s[k] == c ==> first_index(s, c) == k,
        k == s.len() ==> first_index(s, c) == -1,
    decreases s.len(),
{
    if k > 0 {
        lemma_first_index(s.drop_first(), c, k - 1);
    } else if s.len() > 0 {
        if s[0] != c {
            lemma_first_index(s.drop_first(), c, 0);
        }
    }
}

impl App {
    /// Recomputes the EasyMotion matches and labels for the search typed.
    pub fn recompute_easy_motion(&mut self)
        requires
            old(self).wf(),
        ensures
            final(self).wf(),
            final(self)@ == old(self)@.recompute_spec(),
    {
        let mut em = match self.easy_motion.take() {
            Some(em) => em,
            None => {
                return;
            },
        };
        if em.search.as_str().unicode_len() == 0 {
            em.matches = Vec::new();
            em.labels = Vec::new();
            self.easy_motion = Some(em);
            return;
        }
        let i = self.active_tab;
        let (ms, ls) = easy_motion_scan(
            &self.buffers[i].lines,
            self.buffers[i].scroll_offset,
            self.last_visible_height,
            em.search.as_str(),
        );
        em.matches = ms;
        em.labels = ls;
        self.easy_motion = Some(em);
    }

    /// A key while EasyMotion is active.
    pub fn handle_easy_motion_key(&mut self, key: KeyEvent)
        requires
            old(self).wf(),
            old(self)@.easy_motion is Some,
        ensures
            final(self).wf(),
            final(self)@ == old(self)@.easy_key_spec(key),
    {
        match key.code {
            KeyCode::Esc => {
                self.easy_motion = None;
                self.message = None;
            },
            KeyCode::Backspace => {
                let mut em = self.easy_motion.take().unwrap();
                if pop_char(&mut em.search) {
                    self.easy_motion = Some(em);
                    self.recompute_easy_motion();
                } else {
                    self.message = None;
                }
            },
            KeyCode::Char(c) => {
                let em = self.easy_motion.take().unwrap();
                let mut k: usize = 0;
                while k < em.labels.len() && em.labels[k] != c
                    invariant
                        k <= em.labels@.len(),
                        forall|j: int| 0 <= j < k ==> em.labels@[j] != c,
                    decreases em.labels@.len() - k,
                {
                    k = k + 1;
                }
                proof {
                    lemma_first_index(em.labels@, c, k as int);
                }
                if k < em.labels.len() {
                    let t = em.matches[k];
                    self.message = None;
                    self.apply(BufOp::JumpTo(t.0, t.1));
                    self.apply(BufOp::ClearDesired);
                } else {
                    let mut em2 = em;
                    push_char(&mut em2.search, c);
                    self.easy_motion = Some(em2);
                    self.recompute_easy_motion();
                }
            },
            _ => {},
        }
    }

    /// The second (or third) key of a multi-key command; `true` when the text changed.
    #[verifier::spinoff_prover]
    #[verifier::rlimit(40)]
    fn handle_pending_key(&mut self, p: PendingKey, key: KeyEvent) -> (changed: bool)
        requires
            old(self).wf(),
        ensures
            final(self).wf(),
            (final(self)@, changed) == old(self)@.pending_spec(p, key),
    {
        let ch = match key.code {
            KeyCode::Char(c) => c,
            _ => {
                return false;
            },
        };
        let r = match (p, ch) {
            (PendingKey::D, 'd') => {
                self.delete_line_yank();
                true
            },
            (PendingKey::D, 'i') => {
                self.pending_key = Some(PendingKey::DI);
                false
            },
            (PendingKey::DI, 'w') => {
                self.apply(BufOp::DeleteInnerWord);
                true
            },
            (PendingKey::Y, 'y') => {
                self.yank_line();
                self.message = Some(String::from_str("1 line yanked"));
                false
            },
            (PendingKey::Y, 'r') => {
                self.copy_result();
                false
            },
            (PendingKey::G, 'g') => {
                let blk = self.block_cursor();
                self.apply(BufOp::GotoLine(0, blk));
                false
            },
            (PendingKey::G, 't') => {
                self.next_tab();
                false
            },
            (PendingKey::G, 'T') => {
                self.prev_tab();
                false
            },
            (PendingKey::C, 'c') => {
                self.apply(BufOp::ClearLine);
                self.enter_insert();
                true
            },
            (PendingKey::C, 'i') => {
                self.pending_key = Some(PendingKey::CI);
                false
            },
            (PendingKey::CI, 'w') => {
                self.apply(BufOp::DeleteInnerWord);
                self.enter_insert();
                true
            },
            (PendingKey::C, 'w') | (PendingKey::C, 'e') => {
                self.apply(BufOp::ChangeWord);
                self.enter_insert();
                true
            },
            (PendingKey::C, 'b') => {
                self.apply(BufOp::DeleteWordBackward);
                self.enter_insert();
                true
            },
            (PendingKey::C, '$') => {
                self.apply(BufOp::Truncate);
                self.enter_insert();
                true
            },
            (PendingKey::C, '0') => {
                self.apply(BufOp::CutToStart);
                self.enter_insert();
                true
            },
            _ => false,
        };
        proof {
            assert(self@.count_buffer == old(self)@.count_buffer);
        }
        r
    }

    /// Insert mode, message cleared.
    fn enter_insert(&mut self)
        requires
            old(self).wf(),
        ensures
            final(self).wf(),
            final(self)@ == old(self)@.to_insert(),
    {
        self.mode = Mode::Insert;
        self.message = None;
    }

    /// A Normal-mode command key with its count; `true` when the text changed.
    #[verifier::spinoff_prover]
    #[verifier::rlimit(80)]
    fn handle_normal_cmd(&mut self, code: KeyCode, count: Option<usize>) -> (changed: bool)
        requires
            old(self).wf(),
        ensures
            final(self).wf(),
            (final(self)@, changed) == old(self)@.normal_cmd_spec(code, count),
    {
        let blk = self.block_cursor();
        match code {
            KeyCode::Char('i') => {
                self.enter_insert();
                false
            },
            KeyCode::Char('a') => {
                self.apply(BufOp::Append);
                self.enter_insert();
                false
            },
            KeyCode::Char('A') => {
                self.apply(BufOp::LineEnd);
                self.enter_insert();
                false
            },
            KeyCode::Char('o') => {
                self.apply(BufOp::OpenBelow);
                self.enter_insert();
                true
            },
            KeyCode::Char('O') => {
                self.apply(BufOp::OpenAbove);
                self.enter_insert();
                true
            },
            KeyCode::Char('v') => {
                self.apply(BufOp::SelectFromCursor(SelectionKind::Char));
                self.mode = Mode::Visual;
                self.message = None;
                false
            },
            KeyCode::Char('V') => {
                self.apply(BufOp::SelectFromCursor(SelectionKind::Line));
                self.mode = Mode::Visual;
                self.message = None;
                false
            },
            KeyCode::Char(':') => {
                self.mode = Mode::Command;
                self.command_buffer = String::new();
                false
            },
            KeyCode::Char('h') | KeyCode::Left => {
                self.apply(BufOp::Left);
                self.apply(BufOp::ClearDesired);
                false
            },
            KeyCode::Char('j') | KeyCode::Down => {
                self.apply(BufOp::MoveDown(blk));
                false
            },
            KeyCode::Char('k') | KeyCode::Up => {
                self.apply(BufOp::MoveUp(blk));
                false
            },
            KeyCode::Char('l') | KeyCode::Right => {
                self.apply(BufOp::RightBlock);
                self.apply(BufOp::ClearDesired);
                false
            },
            KeyCode::Char('0') | KeyCode::Home => {
                self.apply(BufOp::LineStart);
                self.apply(BufOp::ClearDesired);
                false
            },
            KeyCode::Char('$') | KeyCode::End => {
                self.apply(BufOp::EndBlock);
                self.apply(BufOp::ClearDesired);
                false
            },
            KeyCode::Char('w') => {
                self.apply(BufOp::WordForward);
                self.apply(BufOp::ClearDesired);
                false
            },
            KeyCode::Char('e') => {
                self.apply(BufOp::WordEnd);
                self.apply(BufOp::ClearDesired);
                false
            },
            KeyCode::Char('b') => {
                self.apply(BufOp::WordBackward);
                self.apply(BufOp::ClearDesired);
                false
            },
            KeyCode::Char('G') => {
                let y = match count {
                    Some(n) => if n > 0 {
                        n - 1
                    } else {
                        0
                    },
                    None => self.buffers[self.active_tab].lines.len() - 1,
                };
                self.apply(BufOp::GotoLine(y, blk));
                self.apply(BufOp::ClearDesired);
                false
            },
            KeyCode::Char('f') => {
                self.easy_motion = Some(
                    EasyMotionState { search: String::new(), matches: Vec::new(), labels: Vec::new() },
                );
                self.message = Some(String::from_str("EasyMotion: type to search"));
                false
            },
            KeyCode::Char('u') => {
                self.undo();
                false
            },
            KeyCode::Char('x') | KeyCode::Delete => self.apply(BufOp::DeleteUnder(blk)),
            KeyCode::Char('p') => {
                self.apply(BufOp::PasteBelow);
                true
            },
            KeyCode::Char('P') => {
                self.apply(BufOp::PasteAbove);
                true
            },
            KeyCode::Char('C') => {
                self.apply(BufOp::Truncate);
                self.enter_insert();
                true
            },
            KeyCode::Char('s') => {
                self.apply(BufOp::Substitute);
                self.enter_insert();
                true
            },
            KeyCode::Char('S') => {
                self.apply(BufOp::ClearLine);
                self.enter_insert();
                true
            },
            KeyCode::Char('d') => {
                self.pending_key = Some(PendingKey::D);
                false
            },
            KeyCode::Char('y') => {
                self.pending_key = Some(PendingKey::Y);
                false
            },
            KeyCode::Char('g') => {
                self.pending_key = Some(PendingKey::G);
                false
            },
            KeyCode::Char('c') => {
                self.pending_key = Some(PendingKey::C);
                false
            },
            _ => false,
        }
    }

    /// A key in Normal mode; `true` when it changed the text.
    pub fn handle_normal_key(&mut self, key: KeyEvent) -> (changed: bool)
        requires
            old(self).wf(),
        ensures
            final(self).wf(),
            (final(self)@, changed) == old(self)@.normal_key_spec(key),
    {
        if self.easy_motion.is_some() {
            self.handle_easy_motion_key(key);
            return false;
        }
        if key.modifiers.control {
            if key.code == KeyCode::Char('r') {
                self.redo();
            }
            return false;
        }
        if let Some(p) = self.pending_key {
            self.pending_key = None;
            self.count_buffer = String::new();
            return self.handle_pending_key(p, key);
        }
        if let KeyCode::Char(c) = key.code {
            if ('1' <= c && c <= '9') || (c == '0' && self.count_buffer.as_str().unicode_len() > 0) {
                push_char(&mut self.count_buffer, c);
                self.message = Some(self.count_buffer.clone());
                return false;
            }
        }
        if self.count_buffer.as_str().unicode_len() == 0 {
            return self.handle_normal_cmd(key.code, None);
        }
        let count = parse_digits(self.count_buffer.as_str());
        self.count_buffer = String::new();
        self.message = None;
        self.handle_normal_cmd(key.code, count)
    }
}


/// The message after yanking `n` lines.
fn lines_yanked_message(n: usize) -> (r: String)
    ensures
        r@ == lines_yanked_text(n as nat),
{
    let mut r = decimal_string(n);
    r.append(" line");
    if n != 1 {
        r.append("s");
    }
    r.append(" yanked");
    proof {
        reveal_strlit("");
        assert(r@ =~= lines_yanked_text(n as nat));
    }
    r
}

impl App {
    /// Visual `y`.
    fn visual_yank(&mut self, sel: Selection)
        requires
            old(self).wf(),
            old(self)@.buf().selection == Some(sel),
            old(self)@.buf().sel_in_bounds(sel),
        ensures
            final(self).wf(),
            final(self)@ == old(self)@.visual_yank_spec(sel),
    {
        let i = self.active_tab;
        let ghost v0 = self.buffers@;
        if sel.kind == SelectionKind::Line {
            let (text, n) = self.buffers[i].yank_lines_of(&sel);
            proof {
                lemma_bufs_update(v0, i as int, self.buffers@[i as int]);
            }
            self.clipboard_out = Some(text);
            self.message = Some(lines_yanked_message(n));
        } else {
            let t = self.buffers[i].yank_selection_or_line();
            proof {
                lemma_bufs_update(v0, i as int, self.buffers@[i as int]);
            }
            self.clipboard_out = Some(t);
            self.message = Some(String::from_str("Yanked"));
        }
        self.mode = Mode::Normal;
        self.apply(BufOp::Clamp(true));
    }

    /// Visual `d`.
    fn visual_delete(&mut self, sel: Selection)
        requires
            old(self).wf(),
            old(self)@.buf().selection == Some(sel),
            old(self)@.buf().sel_in_bounds(sel),
        ensures
            final(self).wf(),
            final(self)@ == old(self)@.visual_delete_spec(sel),
    {
        let i = self.active_tab;
        let ghost v0 = self.buffers@;
        if sel.kind == SelectionKind::Line {
            let text = self.buffers[i].cut_lines_of(&sel);
            proof {
                lemma_bufs_update(v0, i as int, self.buffers@[i as int]);
            }
            self.clipboard_out = Some(text);
        } else {
            let t = self.buffers[i].cut_selection(&sel);
            proof {
                lemma_bufs_update(v0, i as int, self.buffers@[i as int]);
            }
            self.clipboard_out = Some(t);
        }
        self.mode = Mode::Normal;
        self.apply(BufOp::Clamp(true));
    }

    /// A key in Visual mode; `true` when it changed the text.
    #[verifier::spinoff_prover]
    #[verifier::rlimit(40)]
    pub fn handle_visual_key(&mut self, key: KeyEvent) -> (changed: bool)
        requires
            old(self).wf(),
            (key.code == KeyCode::Char('y') || key.code == KeyCode::Char('d') || key.code == KeyCode::Delete)
                ==> sel_ok(old(self)@.buf()),
        ensures
            final(self).wf(),
            (final(self)@, changed) == old(self)@.visual_key_spec(key),
    {
        let blk = self.block_cursor();
        let i = self.active_tab;
        match key.code {
            KeyCode::Esc => {
                self.mode = Mode::Normal;
                self.apply(BufOp::EndSelection);
                false
            },
            KeyCode::Char('j') | KeyCode::Down => {
                self.apply(BufOp::MoveDown(blk));
                false
            },
            KeyCode::Char('k') | KeyCode::Up => {
                self.apply(BufOp::MoveUp(blk));
                false
            },
            KeyCode::Char('h') | KeyCode::Left => {
                self.apply(BufOp::Left);
                self.apply(BufOp::ClearDesired);
                false
            },
            KeyCode::Char('l') | KeyCode::Right => {
                self.apply(BufOp::RightBlock);
                self.apply(BufOp::ClearDesired);
                false
            },
            KeyCode::Char('w') => {
                self.apply(BufOp::WordForward);
                false
            },
            KeyCode::Char('e') => {
                self.apply(BufOp::WordEnd);
                false
            },
            KeyCode::Char('b') => {
                self.apply(BufOp::WordBackward);
                false
            },
            KeyCode::Char('0') | KeyCode::Home => {
                self.apply(BufOp::LineStart);
                false
            },
            KeyCode::Char('$') | KeyCode::End => {
                self.apply(BufOp::EndBlock);
                false
            },
            KeyCode::Char('G') => {
                let y = self.buffers[i].lines.len() - 1;
                self.apply(BufOp::GotoLine(y, blk));
                false
            },
            KeyCode::Char('y') => match self.buffers[i].selection {
                Some(sel) => {
                    self.visual_yank(sel);
                    false
                },
                None => false,
            },
            KeyCode::Char('d') | KeyCode::Delete => match self.buffers[i].selection {
                Some(sel) => {
                    self.visual_delete(sel);
                    true
                },
                None => false,
            },
            _ => false,
        }
    }

    /// A key in the vim key map.
    pub fn handle_key_vim(&mut self, key: KeyEvent)
        requires
            old(self).wf(),
            old(self)@.vim_reads_selection(key) ==> sel_ok(old(self)@.buf()),
        ensures
            final(self).wf(),
            final(self)@ == old(self)@.vim_key_spec(key),
    {
        let i = self.active_tab;
        match self.mode {
            Mode::Normal => {
                let snap = self.buffers[i].take_snapshot();
                if self.handle_normal_key(key) {
                    self.commit(snap);
                }
            },
            Mode::Insert => {
                self.easy_motion = None;
                let snap = self.buffers[i].take_snapshot();
                if self.handle_insert_mode_key(key) {
                    self.commit(snap);
                }
            },
            Mode::Visual => {
                self.easy_motion = None;
                let snap = self.buffers[i].take_snapshot();
                if self.handle_visual_key(key) {
                    self.commit(snap);
                }
            },
            Mode::Command => {
                self.easy_motion = None;
                self.handle_command_key(key);
            },
        }
    }

    /// Whether `key` reads the selected text in the current state.
    pub fn key_reads_selection(&self, key: KeyEvent) -> (r: bool)
        ensures
            r == (self@.prompt is None && match self@.config.edit_style {
                EditStyle::Simple => AppV::simple_reads_selection(key),
                EditStyle::Vim => self@.vim_reads_selection(key),
            }),
    {
        if self.prompt.is_some() {
            return false;
        }
        match self.config.edit_style {
            EditStyle::Simple => key.modifiers.control && (key.code == KeyCode::Char('c') || key.code
                == KeyCode::Char('C') || key.code == KeyCode::Char('x') || key.code == KeyCode::Char('X')
                || key.code == KeyCode::Char('d') || key.code == KeyCode::Char('D')),
            EditStyle::Vim => self.mode == Mode::Visual && (key.code == KeyCode::Char('y') || key.code
                == KeyCode::Char('d') || key.code == KeyCode::Delete),
        }
    }

    /// Whether the active buffer's selection, if any, lies in its text.
    pub fn selection_in_bounds(&self) -> (r: bool)
        requires
            self.wf(),
        ensures
            r == sel_ok(self@.buf()),
    {
        let b = &self.buffers[self.active_tab];
        match b.selection {
            None => true,
            Some(sel) => {
                if sel.anchor_y >= b.lines.len() {
                    false
                } else if sel.kind == SelectionKind::Char {
                    sel.anchor_x <= b.line_len(sel.anchor_y)
                } else {
                    true
                }
            },
        }
    }

    /// Handles a key press.
    pub fn handle_key(&mut self, key: KeyEvent)
        requires
            old(self).wf(),
            old(self)@.key_safe(key),
        ensures
            final(self).wf(),
            final(self)@ == old(self)@.key_spec(key),
    {
        if self.prompt.is_some() {
            self.handle_prompt_key(key);
            return;
        }
        match self.config.edit_style {
            EditStyle::Simple => self.handle_key_simple(key),
            EditStyle::Vim => self.handle_key_vim(key),
        }
    }
}


// ── Mouse ──────────────────────────────────────────────────────────────────

/// The cell (`col`, `row`) lies in `r`.
pub open spec fn in_rect(r: Rect, col: u16, row: u16) -> bool {
    r.x <= col && (col as int) < r.x + r.width && r.y <= row && (row as int) < r.y + r.height
}

/// The number of bytes of `s` in UTF-8.
pub open spec fn byte_len(s: Seq<char>) -> int {
    vstd::utf8::encode_utf8(s).len() as int
}

/// The tab whose label (` name ` followed by a space) covers column `col`,
/// looking from tab `k` whose label starts at column `x`; -1 for none.
pub open spec fn tab_at(bs: Seq<BufferV>, col: int, k: int, x: int) -> int
    decreases bs.len() - k,
{
    if k < 0 || k >= bs.len() {
        -1
    } else {
        let w = byte_len(tab_name_spec(bs[k])) + 2;
        if x <= col < x + w {
            k
        } else {
            tab_at(bs, col, k + 1, x + w + 1)
        }
    }
}

impl AppV {
    /// A click on the tab bar at column `col`.
    pub open spec fn tab_click_spec(self, col: u16) -> AppV {
        let t = tab_at(self.buffers, col as int, 0, 0);
        if t >= 0 {
            AppV { active_tab: t as usize, ..self }
        } else {
            self
        }
    }

    /// Whether a click at `m` repeats the last one within 400 ms.
    pub open spec fn is_double(self, m: MouseEvent) -> bool {
        match self.last_click {
            Some(lc) => lc.1 == m.column && lc.2 == m.row && (if m.time_ms >= lc.0 {
                m.time_ms - lc.0
            } else {
                0
            }) < 400,
            None => false,
        }
    }

    /// A left click in the editor area `r`: a double click selects the word,
    /// a single click moves the cursor there and ends any selection.
    pub open spec fn editor_click_spec(self, r: Rect, m: MouseEvent) -> AppV {
        let b = self.buf();
        let line_idx = b.scroll_offset + (m.row - r.y);
        let col = (m.column - r.x) as usize;
        if line_idx < b.lines.len() {
            let a = if self.is_double(m) {
                let a1 = AppV { last_click: None, ..self };
                if b.lines[line_idx].len() > 0 {
                    let a2 = a1.op(BufOp::SelectWord(line_idx as usize, col));
                    if self.config.edit_style == EditStyle::Vim {
                        AppV { mode: Mode::Visual, ..a2 }
                    } else {
                        a2
                    }
                } else {
                    a1
                }
            } else {
                let a1 = AppV { last_click: Some((m.time_ms, m.column, m.row)), ..self }.op(
                    BufOp::JumpTo(line_idx as usize, col),
                ).op(BufOp::Clamp(self.blk())).op(BufOp::EndSelection);
                if self.mode == Mode::Visual {
                    AppV { mode: Mode::Normal, ..a1 }
                } else {
                    a1
                }
            };
            AppV { pending_key: None, easy_motion: None, ..a.op(BufOp::ClearDesired) }
        } else {
            self
        }
    }

    /// A left click in the results area `r`: copies that line's result.
    pub open spec fn results_click_spec(self, r: Rect, m: MouseEvent) -> AppV {
        let y = self.buf().scroll_offset + (m.row - r.y);
        if y < self.buf().results.len() && self.result_text(y).len() > 0 {
            self.copy(self.result_text(y)).say("Copied: "@ + self.result_text(y))
        } else {
            self
        }
    }

    /// A left button press.
    pub open spec fn mouse_down_spec(self, m: MouseEvent) -> AppV {
        if self.layout_tab_bar is Some && self.layout_tab_bar->0.y <= m.row && (m.row as int)
            < self.layout_tab_bar->0.y + self.layout_tab_bar->0.height {
            AppV { last_click: None, ..self.tab_click_spec(m.column) }
        } else {
            let a = match self.layout_editor_area {
                Some(r) => if in_rect(r, m.column, m.row) {
                    self.editor_click_spec(r, m)
                } else {
                    self
                },
                None => self,
            };
            match a.layout_results_area {
                Some(r) => if in_rect(r, m.column, m.row) {
                    a.results_click_spec(r, m)
                } else {
                    a
                },
                None => a,
            }
        }
    }

    /// A drag with the left button: extends (or starts) a selection to the
    /// cell under the mouse.
    pub open spec fn mouse_drag_spec(self, m: MouseEvent) -> AppV {
        match self.layout_editor_area {
            Some(r) => if r.x <= m.column && r.y <= m.row {
                let a = if self.buf().selection is None {
                    let a1 = self.op(BufOp::SelectFromCursor(SelectionKind::Char));
                    if self.config.edit_style == EditStyle::Vim {
                        AppV { mode: Mode::Visual, ..a1 }
                    } else {
                        a1
                    }
                } else {
                    self
                };
                let line_idx = a.buf().scroll_offset + (m.row - r.y);
                if line_idx < a.buf().lines.len() {
                    a.op(BufOp::JumpTo(line_idx as usize, (m.column - r.x) as usize)).op(BufOp::ClearDesired)
                } else {
                    a
                }
            } else {
                self
            },
            None => self,
        }
    }

    /// The wheel scrolls three lines up; the cursor stays in view.
    pub open spec fn scroll_up_spec(self) -> AppV {
        let b = self.buf();
        let s2 = if b.scroll_offset >= 3 {
            b.scroll_offset - 3
        } else {
            0
        };
        let h = self.last_visible_height as int;
        let a = self.op(BufOp::ScrollTo(s2 as usize));
        if b.cursor_y >= s2 + h {
            a.op(BufOp::GotoLine((s2 + h - 1) as usize, self.blk()))
        } else {
            a
        }
    }

    /// The wheel scrolls three lines down (not past the last line); the
    /// cursor stays in view.
    pub open spec fn scroll_down_spec(self) -> AppV {
        let b = self.buf();
        let s2 = min_int(b.scroll_offset + 3, b.lines.len() - 1);
        let a = self.op(BufOp::ScrollTo(s2 as usize));
        if b.cursor_y < s2 {
            a.op(BufOp::GotoLine(s2 as usize, self.blk()))
        } else {
            a
        }
    }

    /// Any mouse event.
    pub open spec fn mouse_spec(self, m: MouseEvent) -> AppV {
        match m.kind {
            MouseEventKind::LeftDown => self.mouse_down_spec(m),
            MouseEventKind::LeftDrag => self.mouse_drag_spec(m),
            MouseEventKind::ScrollUp => self.scroll_up_spec(),
            MouseEventKind::ScrollDown => self.scroll_down_spec(),
            MouseEventKind::Other => self,
        }
    }

    /// The mouse event can be handled: scrolling up needs a window at least
    /// one line tall once the view is at the top.
    pub open spec fn mouse_safe(self, m: MouseEvent) -> bool {
        m.kind == MouseEventKind::ScrollUp ==> !(self.last_visible_height == 0 && self.buf().scroll_offset <= 3)
    }
}

impl App {
    /// A click on the tab bar at column `col`.
    pub fn handle_tab_bar_click(&mut self, col: u16)
        requires
            old(self).wf(),
        ensures
            final(self).wf(),
            final(self)@ == old(self)@.tab_click_spec(col),
    {
        let c = col as u64;
        let mut x: u64 = 0;
        let mut k: usize = 0;
        let ghost bs = self@.buffers;
        while k < self.buffers.len()
            invariant
                bs == self@.buffers,
                k <= bs.len(),
                c == col,
                x <= c + 1,
                tab_at(bs, col as int, 0, 0) == tab_at(bs, col as int, k as int, x as int),
                self.wf(),
                self@ == old(self)@,
            decreases bs.len() - k,
        {
            if x > c {
                proof {
                    lemma_tab_at_past(bs, col as int, k as int, x as int);
                }
                return;
            }
            let name = self.buffers[k].tab_name();
            let w = name.as_str().as_bytes().len();
            proof {
                assert(bs[k as int] == self.buffers@[k as int]@);
            }
            let d = c - x;
            if d < 2 || ((d - 2) as usize) < w {
                self.active_tab = k;
                return;
            }
            x = x + (w as u64) + 3;
            k = k + 1;
        }
    }
}

proof fn lemma_tab_at_past(bs: Seq<BufferV>, col: int, k: int, x: int)
    requires
        x > col,
        0 <= k,
    ensures
        tab_at(bs, col, k, x) == -1,
    decreases bs.len() - k,
{
    if k < bs.len() {
        lemma_tab_at_past(bs, col, k + 1, x + byte_len(tab_name_spec(bs[k])) + 3);
    }
}


/// Whether the cell (`col`, `row`) lies in `r`.
fn in_rect_exec(r: Rect, col: u16, row: u16) -> (b: bool)
    ensures
        b == in_rect(r, col, row),
{
    r.x <= col && (col as u32) < (r.x as u32) + (r.width as u32) && r.y <= row && (row as u32) < (r.y as u32)
        + (r.height as u32)
}

impl App {
    fn is_double_click(&self, m: MouseEvent) -> (b: bool)
        ensures
            b == self@.is_double(m),
    {
        match self.last_click {
            Some((t, c, rw)) => {
                let elapsed = if m.time_ms >= t {
                    m.time_ms - t
                } else {
                    0
                };
                c == m.column && rw == m.row && elapsed < 400
            },
            None => false,
        }
    }

    /// A double click on line `line_idx`, column `col` of the editor.
    #[verifier::spinoff_prover]
    fn double_click(&mut self, line_idx: usize, col: usize)
        requires
            old(self).wf(),
            line_idx < old(self)@.buf().lines.len(),
        ensures
            final(self).wf(),
            final(self)@ == ({
                let a1 = AppV { last_click: None, ..old(self)@ };
                if old(self)@.buf().lines[line_idx as int].len() > 0 {
                    let a2 = a1.op(BufOp::SelectWord(line_idx, col));
                    if old(self)@.config.edit_style == EditStyle::Vim {
                        AppV { mode: Mode::Visual, ..a2 }
                    } else {
                        a2
                    }
                } else {
                    a1
                }
            }),
    {
        let i = self.active_tab;
        self.last_click = None;
        if self.buffers[i].line_len(line_idx) > 0 {
            self.apply(BufOp::SelectWord(line_idx, col));
            if self.config.edit_style == EditStyle::Vim {
                self.mode = Mode::Visual;
            }
        }
    }

    /// A single click on line `line_idx`, column `col` of the editor.
    #[verifier::spinoff_prover]
    fn single_click(&mut self, line_idx: usize, col: usize, m: MouseEvent)
        requires
            old(self).wf(),
        ensures
            final(self).wf(),
            final(self)@ == ({
                let a1 = AppV { last_click: Some((m.time_ms, m.column, m.row)), ..old(self)@ }.op(
                    BufOp::JumpTo(line_idx, col),
                ).op(BufOp::Clamp(old(self)@.blk())).op(BufOp::EndSelection);
                if old(self)@.mode == Mode::Visual {
                    AppV { mode: Mode::Normal, ..a1 }
                } else {
                    a1
                }
            }),
    {
        let blk = self.block_cursor();
        self.last_click = Some((m.time_ms, m.column, m.row));
        self.apply(BufOp::JumpTo(line_idx, col));
        self.apply(BufOp::Clamp(blk));
        self.apply(BufOp::EndSelection);
        if self.mode == Mode::Visual {
            self.mode = Mode::Normal;
        }
    }

    /// A left click in the editor area `r`.
    #[verifier::spinoff_prover]
    fn editor_click(&mut self, r: Rect, m: MouseEvent)
        requires
            old(self).wf(),
            in_rect(r, m.column, m.row),
        ensures
            final(self).wf(),
            final(self)@ == old(self)@.editor_click_spec(r, m),
    {
        let i = self.active_tab;
        let scroll = self.buffers[i].scroll_offset;
        let d = (m.row - r.y) as usize;
        proof {
            assert(self@.buf().lines.len() == self.buffers@[i as int].lines@.len());
        }
        if d > usize::MAX - scroll {
            return;
        }
        let line_idx = scroll + d;
        if line_idx >= self.buffers[i].lines.len() {
            return;
        }
        let col = (m.column - r.x) as usize;
        if self.is_double_click(m) {
            self.double_click(line_idx, col);
        } else {
            self.single_click(line_idx, col, m);
        }
        self.apply(BufOp::ClearDesired);
        self.pending_key = None;
        self.easy_motion = None;
    }

    /// A left click in the results area `r`.
    fn results_click(&mut self, r: Rect, m: MouseEvent)
        requires
            old(self).wf(),
            in_rect(r, m.column, m.row),
        ensures
            final(self).wf(),
            final(self)@ == old(self)@.results_click_spec(r, m),
    {
        let i = self.active_tab;
        let scroll = self.buffers[i].scroll_offset;
        let d = (m.row - r.y) as usize;
        let rl = self.buffers[i].results.len();
        proof {
            assert(self@.buf().results.len() == self.buffers@[i as int].results@.len());
        }
        if d > usize::MAX - scroll {
            return;
        }
        let y = scroll + d;
        if y < rl {
            let res = &self.buffers[i].results[y];
            let text = match &res.error {
                Some(e) => e.clone(),
                None => res.display.clone(),
            };
            if text.as_str().unicode_len() > 0 {
                self.message = Some(concat_str("Copied: ", text.as_str()));
                self.clipboard_out = Some(text);
            }
        }
    }

    fn mouse_down(&mut self, m: MouseEvent)
        requires
            old(self).wf(),
        ensures
            final(self).wf(),
            final(self)@ == old(self)@.mouse_down_spec(m),
    {
        if let Some(tb) = self.layout_tab_bar {
            if tb.y <= m.row && (m.row as u32) < (tb.y as u32) + (tb.height as u32) {
                self.handle_tab_bar_click(m.column);
                self.last_click = None;
                return;
            }
        }
        if let Some(r) = self.layout_editor_area {
            if in_rect_exec(r, m.column, m.row) {
                self.editor_click(r, m);
            }
        }
        if let Some(r) = self.layout_results_area {
            if in_rect_exec(r, m.column, m.row) {
                self.results_click(r, m);
            }
        }
    }

    fn mouse_drag(&mut self, m: MouseEvent)
        requires
            old(self).wf(),
        ensures
            final(self).wf(),
            final(self)@ == old(self)@.mouse_drag_spec(m),
    {
        let r = match self.layout_editor_area {
            Some(r) => r,
            None => {
                return;
            },
        };
        if !(r.x <= m.column && r.y <= m.row) {
            return;
        }
        let i = self.active_tab;
        if self.buffers[i].selection.is_none() {
            self.apply(BufOp::SelectFromCursor(SelectionKind::Char));
            if self.config.edit_style == EditStyle::Vim {
                self.mode = Mode::Visual;
            }
        }
        let scroll = self.buffers[i].scroll_offset;
        let d = (m.row - r.y) as usize;
        proof {
            assert(self@.buf().lines.len() == self.buffers@[i as int].lines@.len());
        }
        if d > usize::MAX - scroll {
            return;
        }
        let line_idx = scroll + d;
        if line_idx < self.buffers[i].lines.len() {
            self.apply(BufOp::JumpTo(line_idx, (m.column - r.x) as usize));
            self.apply(BufOp::ClearDesired);
        }
    }

    fn scroll_up(&mut self)
        requires
            old(self).wf(),
            !(old(self).last_visible_height == 0 && old(self)@.buf().scroll_offset <= 3),
        ensures
            final(self).wf(),
            final(self)@ == old(self)@.scroll_up_spec(),
    {
        let i = self.active_tab;
        let blk = self.block_cursor();
        let sc = self.buffers[i].scroll_offset;
        let s2 = if sc >= 3 {
            sc - 3
        } else {
            0
        };
        let h = self.last_visible_height;
        let cy = self.buffers[i].cursor_y;
        self.apply(BufOp::ScrollTo(s2));
        if cy >= s2 && cy - s2 >= h {
            self.apply(BufOp::GotoLine(s2 + h - 1, blk));
        }
    }

    fn scroll_down(&mut self)
        requires
            old(self).wf(),
        ensures
            final(self).wf(),
            final(self)@ == old(self)@.scroll_down_spec(),
    {
        let i = self.active_tab;
        let blk = self.block_cursor();
        let sc = self.buffers[i].scroll_offset;
        let last = self.buffers[i].lines.len() - 1;
        let s2 = if sc >= last || last - sc < 3 {
            last
        } else {
            sc + 3
        };
        let cy = self.buffers[i].cursor_y;
        self.apply(BufOp::ScrollTo(s2));
        if cy < s2 {
            self.apply(BufOp::GotoLine(s2, blk));
        }
    }

    /// Handles a mouse event.
    pub fn handle_mouse(&mut self, m: MouseEvent)
        requires
            old(self).wf(),
            old(self)@.mouse_safe(m),
        ensures
            final(self).wf(),
            final(self)@ == old(self)@.mouse_spec(m),
    {
        match m.kind {
            MouseEventKind::LeftDown => self.mouse_down(m),
            MouseEventKind::LeftDrag => self.mouse_drag(m),
            MouseEventKind::ScrollUp => self.scroll_up(),
            MouseEventKind::ScrollDown => self.scroll_down(),
            MouseEventKind::Other => {},
        }
    }
}


/// Moves the active buffer's cursor to the start of the next word (as `w`
/// does), keeping any selection: the motion behind Control+Shift+Right.
pub fn move_word_forward_pub(app: &mut App)
    requires
        old(app).wf(),
    ensures
        final(app).wf(),
        final(app)@ == old(app)@.with_buf(old(app)@.buf().word_forward_spec()),
{
    let i = app.active_tab;
    let ghost v0 = app.buffers@;
    app.buffers[i].move_word_forward();
    proof {
        lemma_bufs_update(v0, i as int, app.buffers@[i as int]);
    }
}

/// Moves the active buffer's cursor to the start of the previous word (as
/// `b` does), keeping any selection: the motion behind Control+Shift+Left.
pub fn move_word_backward_pub(app: &mut App)
    requires
        old(app).wf(),
    ensures
        final(app).wf(),
        final(app)@ == old(app)@.with_buf(old(app)@.buf().word_backward_spec()),
{
    let i = app.active_tab;
    let ghost v0 = app.buffers@;
    app.buffers[i].move_word_backward();
    proof {
        lemma_bufs_update(v0, i as int, app.buffers@[i as int]);
    }
}

} // verus!
