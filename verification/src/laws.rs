//! Properties that span several operations of the editor and its text
//! handling, each proved over the operations' specifications.
use vstd::prelude::*;
use crate::app::{
    AppV, FileReadV, KeyCode, KeyEvent, KeyModifiers, any_dirty, ctrl_reads_selection,
    simple_ctrl_command,
};
use crate::editor::{
    BufOp, BufferV, Selection, SelectionKind, SnapshotV, buf_op_spec, clamp_x, join_lines_spec,
    lemma_op_keeps_selection, lemma_op_edit_keys, delete_forward_end, delete_backward_start,
    remove_range_spec,
};
use crate::mode::{EditStyle, Mode};
use crate::words::{
    CharClass, class_of, lemma_run_end_bounds, lemma_run_start_bounds, lemma_space_not_word,
    run_end, run_start, space_char, word_char,
};
use crate::text::{has_extension, last_segment, split_spec, strip_cr, text_lines_spec, trim_spec};

verus! {

/// Undoing a recorded change brings back the text and the cursor from before
/// the change, whatever the change did to them.
pub proof fn law_undo_restores(b: BufferV, lines: Seq<Seq<char>>, cx: usize, cy: usize)
    requires
        b.wf(),
    ensures
        ({
            let changed = BufferV { lines, cursor_x: cx, cursor_y: cy, ..b.push_snapshot_spec(b.snapshot()) };
            let u = changed.undo_spec();
            &&& u.lines == b.lines
            &&& u.cursor_x == b.cursor_x
            &&& u.cursor_y == b.cursor_y
            &&& u.undo == b.undo
        }),
{
    let changed = BufferV { lines, cursor_x: cx, cursor_y: cy, ..b.push_snapshot_spec(b.snapshot()) };
    assert(changed.undo.drop_last() =~= b.undo);
}

/// In the editor, saving an undo point, changing the active buffer's text
/// and cursor, and undoing brings back that text and cursor, drops the undo
/// point, keeps the changed state for redo, asks for the results to be
/// evaluated again, and says "Undo".
pub proof fn law_undo_in_editor(a: AppV, lines: Seq<Seq<char>>, cx: usize, cy: usize)
    requires
        a.wf(),
    ensures
        ({
            let s = a.save_undo_spec();
            let changed = s.with_buf(BufferV { lines, cursor_x: cx, cursor_y: cy, ..s.buf() });
            let u = changed.undo_app_spec();
            &&& u.active_tab == a.active_tab
            &&& u.buf().lines == a.buf().lines
            &&& u.buf().cursor_x == a.buf().cursor_x
            &&& u.buf().cursor_y == a.buf().cursor_y
            &&& u.buf().undo == a.buf().undo
            &&& u.buf().redo == seq![SnapshotV { lines, cursor_x: cx, cursor_y: cy }]
            &&& u.evaluate_pending
            &&& u.message == Some("Undo"@)
        }),
{
    let s = a.save_undo_spec();
    let changed = s.with_buf(BufferV { lines, cursor_x: cx, cursor_y: cy, ..s.buf() });
    assert(changed.buf().undo.drop_last() =~= a.buf().undo);
    assert(Seq::<SnapshotV>::empty().push(SnapshotV { lines, cursor_x: cx, cursor_y: cy }) =~= seq![
        SnapshotV { lines, cursor_x: cx, cursor_y: cy },
    ]);
}

/// Redo undoes an undo: text, cursor and both histories come back.
pub proof fn law_redo_after_undo(b: BufferV)
    requires
        b.undo.len() > 0,
    ensures
        b.undo_spec().redo_spec() == b,
{
    let u = b.undo_spec();
    assert(u.redo.drop_last() =~= b.redo);
    assert(u.undo.push(u.snapshot()) =~= b.undo);
    assert(b.undo_spec().redo_spec() =~= b);
}

/// Undo undoes a redo: text, cursor and both histories come back.
pub proof fn law_undo_after_redo(b: BufferV)
    requires
        b.redo.len() > 0,
    ensures
        b.redo_spec().undo_spec() == b,
{
    let r = b.redo_spec();
    assert(r.undo.drop_last() =~= b.undo);
    assert(r.redo.push(r.snapshot()) =~= b.redo);
    assert(b.redo_spec().undo_spec() =~= b);
}

/// The key Control+Z, as the terminal reports it.
pub open spec fn ctrl_z() -> KeyEvent {
    KeyEvent { code: KeyCode::Char('z'), modifiers: KeyModifiers { shift: false, control: true, alt: false } }
}

/// In simple mode, a plain key that changes the text is undone by Control+Z:
/// the text and the cursor are those from before the key.
pub proof fn law_simple_key_then_undo(a: AppV, key: KeyEvent)
    requires
        a.wf(),
        a.config.edit_style == EditStyle::Simple,
        a.prompt is None,
        !key.modifiers.control && !key.modifiers.alt && !key.modifiers.shift,
        a.buf().selection is None,
        a.insert_key_spec(key).1,
    ensures
        ({
            let after = a.key_spec(key).key_spec(ctrl_z());
            &&& after.buf().lines == a.buf().lines
            &&& after.buf().cursor_x == a.buf().cursor_x
            &&& after.buf().cursor_y == a.buf().cursor_y
        }),
{
    let (a3, changed) = a.insert_key_spec(key);
    assert(changed);
    lemma_insert_key_keeps_tabs(a, key);
    let c = a3.commit(a.buf().snapshot());
    assert(a.key_spec(key) == c);
    assert(c.prompt is None);
    assert(c.buf().undo.len() > 0);
    lemma_op_keeps_selection(c.buf(), BufOp::EndSelection);
    let c2 = c.op(BufOp::EndSelection);
    assert(c2.buf().undo == c.buf().undo);
    assert(c.key_spec(ctrl_z()) == c2.undo_app_spec());
}

/// Insert-style keys leave the tabs, the style and any prompt alone.
pub proof fn lemma_insert_key_keeps_tabs(a: AppV, key: KeyEvent)
    requires
        a.wf(),
    ensures
        a.insert_key_spec(key).0.active_tab == a.active_tab,
        a.insert_key_spec(key).0.buffers.len() == a.buffers.len(),
        a.insert_key_spec(key).0.config == a.config,
        a.insert_key_spec(key).0.prompt == a.prompt,
{
}


/// The key `u` with no modifier.
pub open spec fn key_u() -> KeyEvent {
    KeyEvent { code: KeyCode::Char('u'), modifiers: KeyModifiers { shift: false, control: false, alt: false } }
}

/// In vim Normal mode, a command that changes the text and stays in Normal
/// mode is undone by `u`: the text and the cursor are those from before it.
#[verifier::rlimit(50)]
pub proof fn law_vim_command_then_undo(a: AppV, key: KeyEvent)
    requires
        a.wf(),
        a.config.edit_style == EditStyle::Vim,
        a.prompt is None,
        a.mode == Mode::Normal,
        a.easy_motion is None,
        a.pending_key is None,
        a.count_buffer.len() == 0,
        !key.modifiers.control,
        !(key.code matches KeyCode::Char(c) && '1' <= c <= '9'),
        a.normal_key_spec(key).1,
        a.normal_key_spec(key).0.mode == Mode::Normal,
    ensures
        ({
            let after = a.key_spec(key).key_spec(key_u());
            &&& after.buf().lines == a.buf().lines
            &&& after.buf().cursor_x == a.buf().cursor_x
            &&& after.buf().cursor_y == a.buf().cursor_y
        }),
{
    let (a3, changed) = a.normal_cmd_spec(key.code, None);
    assert(a.normal_key_spec(key) == (a3, changed));
    lemma_normal_cmd_keeps(a, key.code);
    let c = a3.commit(a.buf().snapshot());
    assert(a.key_spec(key) == c);
    assert(c.buf().undo.len() > 0);
    assert(c.normal_key_spec(key_u()) == c.normal_cmd_spec(KeyCode::Char('u'), None));
    assert(c.key_spec(key_u()) == c.undo_app_spec());
}

/// A Normal-mode command that changes the text leaves the tabs, the style,
/// the prompt, EasyMotion and the pending key as they were.
pub proof fn lemma_normal_cmd_keeps(a: AppV, code: KeyCode)
    requires
        a.wf(),
        a.prompt is None,
        a.easy_motion is None,
        a.pending_key is None,
        a.normal_cmd_spec(code, None).1,
    ensures
        a.normal_cmd_spec(code, None).0.active_tab == a.active_tab,
        a.normal_cmd_spec(code, None).0.buffers.len() == a.buffers.len(),
        a.normal_cmd_spec(code, None).0.config == a.config,
        a.normal_cmd_spec(code, None).0.prompt is None,
        a.normal_cmd_spec(code, None).0.easy_motion is None,
        a.normal_cmd_spec(code, None).0.pending_key is None,
        a.normal_cmd_spec(code, None).0.count_buffer == a.count_buffer,
{
}

/// In simple mode, any key without Shift ends the selection of the buffer
/// it was pressed in (unless the key closed that buffer); a key that
/// switches tabs leaves the selection of the tab it lands on alone.
pub proof fn law_plain_key_clears_selection(a: AppV, key: KeyEvent)
    requires
        a.wf(),
        a.config.edit_style == EditStyle::Simple,
        a.prompt is None,
        !key.modifiers.shift,
    ensures
        a.key_spec(key).buffers.len() >= a.buffers.len() ==> a.key_spec(key).buffers[a.active_tab as int].selection is None,
        key.modifiers.control && (key.code == KeyCode::PageDown || key.code == KeyCode::PageUp) ==> forall|j: int|
            0 <= j < a.buffers.len() && j != a.active_tab ==> #[trigger] a.key_spec(key).buffers[j] == a.buffers[j],
{
    lemma_op_keeps_selection(a.buf(), BufOp::EndSelection);
    if key.modifiers.control && simple_ctrl_command(key.code) {
        if ctrl_reads_selection(key.code) {
            let x = a.simple_ctrl_spec(key.code)->0;
            lemma_ctrl_reading_keeps_tab(a, key.code);
            lemma_op_keeps_selection(x.buf(), BufOp::EndSelection);
            assert(a.key_spec(key) == x.op(BufOp::EndSelection));
        } else {
            let x = a.op(BufOp::EndSelection);
            assert(x.wf()) by {
                assert forall|j: int| 0 <= j < x.buffers.len() implies (#[trigger] x.buffers[j]).wf() by {
                    if j != a.active_tab {
                        assert(x.buffers[j] == a.buffers[j]);
                    }
                }
            }
            lemma_ctrl_keeps_cleared(x, key.code);
            assert(a.key_spec(key) == x.simple_ctrl_spec(key.code)->0);
        }
        return;
    }
    if key.modifiers.alt && (key.code == KeyCode::Delete || key.code == KeyCode::Backspace) {
        let x = a.word_delete_spec(key.code == KeyCode::Delete);
        lemma_simple_ctrl_keeps_tab_valid(a, key.code);
        lemma_op_keeps_selection(x.buf(), BufOp::EndSelection);
        assert(a.key_spec(key) == x.op(BufOp::EndSelection));
        return;
    }
    lemma_op_keeps_selection(a.buf(), BufOp::EndSelection);
    let a2 = if a.buf().selection is Some {
        a.op(BufOp::EndSelection)
    } else {
        a
    };
    lemma_op_keeps_selection(a2.buf(), BufOp::ClearDesired);
    let b = if key.code == KeyCode::Up || key.code == KeyCode::Down {
        a2
    } else {
        a2.op(BufOp::ClearDesired)
    };
    assert(b.active_tab == a.active_tab && b.buffers.len() == a.buffers.len());
    let bb = b.buf();
    let (a3, changed) = a2.insert_key_spec(key);
    match key.code {
        KeyCode::Char(c) => {
            lemma_op_keeps_selection(bb, BufOp::TypeChar(c));
        },
        KeyCode::Enter => {
            lemma_op_keeps_selection(bb, BufOp::SplitLine);
        },
        KeyCode::Backspace => {
            lemma_op_keeps_selection(bb, BufOp::Backspace);
        },
        KeyCode::Delete => {
            lemma_op_keeps_selection(bb, BufOp::DeleteChar);
        },
        KeyCode::Tab => {
            lemma_op_keeps_selection(bb, BufOp::TypeTab);
        },
        KeyCode::Left => {
            lemma_op_keeps_selection(bb, BufOp::LeftWrap);
            lemma_op_keeps_selection(b.op(BufOp::LeftWrap).buf(), BufOp::ClearDesired);
        },
        KeyCode::Right => {
            lemma_op_keeps_selection(bb, BufOp::RightWrap);
            lemma_op_keeps_selection(b.op(BufOp::RightWrap).buf(), BufOp::ClearDesired);
        },
        KeyCode::Up => {
            lemma_op_keeps_selection(bb, BufOp::MoveUp(b.blk()));
        },
        KeyCode::Down => {
            lemma_op_keeps_selection(bb, BufOp::MoveDown(b.blk()));
        },
        KeyCode::Home => {
            lemma_op_keeps_selection(bb, BufOp::LineStart);
        },
        KeyCode::End => {
            lemma_op_keeps_selection(bb, BufOp::LineEnd);
        },
        KeyCode::PageUp => {
            lemma_op_keeps_selection(bb, BufOp::PageUp);
        },
        KeyCode::PageDown => {
            lemma_op_keeps_selection(bb, BufOp::PageDown);
        },
        _ => {},
    }
    assert(a3.buf().selection is None);
    if changed {
        assert(a3.commit(a2.buf().snapshot()).buf().selection is None);
    }
}

/// The Control commands that read the selected text stay on the active tab.
proof fn lemma_ctrl_reading_keeps_tab(a: AppV, code: KeyCode)
    requires
        a.wf(),
        ctrl_reads_selection(code),
    ensures
        a.simple_ctrl_spec(code) matches Some(x) && x.active_tab == a.active_tab && x.buffers.len()
            == a.buffers.len(),
{
}

/// The Control commands that do not read the selected text leave a buffer
/// without a selection without one (unless they close it).
proof fn lemma_ctrl_keeps_cleared(x: AppV, code: KeyCode)
    requires
        x.wf(),
        x.buf().selection is None,
        simple_ctrl_command(code),
        !ctrl_reads_selection(code),
    ensures
        x.simple_ctrl_spec(code) matches Some(r) && (r.buffers.len() >= x.buffers.len()
            ==> r.buffers[x.active_tab as int].selection is None),
        (code == KeyCode::PageDown || code == KeyCode::PageUp) ==> x.simple_ctrl_spec(code)->0.buffers
            == x.buffers,
{
    let s = x.save_undo_spec();
    lemma_op_keeps_selection(s.buf(), BufOp::DeleteWordForward);
    lemma_op_keeps_selection(s.buf(), BufOp::DeleteWordBackward);
}

/// The Control commands of simple mode, and the word deletions, leave the
/// active tab one of the buffers.
proof fn lemma_simple_ctrl_keeps_tab_valid(a: AppV, code: KeyCode)
    requires
        a.wf(),
    ensures
        a.simple_ctrl_spec(code) matches Some(x) ==> x.active_tab < x.buffers.len(),
        a.word_delete_spec(true).active_tab < a.word_delete_spec(true).buffers.len(),
        a.word_delete_spec(false).active_tab < a.word_delete_spec(false).buffers.len(),
{
}

/// In simple mode, Shift with an arrow, Home or End keeps the selection's
/// anchor: the selection already there, or one anchored where the cursor
/// stood before the key.
pub proof fn law_shift_key_extends_selection(a: AppV, key: KeyEvent)
    requires
        a.wf(),
        a.config.edit_style == EditStyle::Simple,
        a.prompt is None,
        key.modifiers.shift,
        key.code == KeyCode::Left || key.code == KeyCode::Right || key.code == KeyCode::Up
            || key.code == KeyCode::Down || key.code == KeyCode::Home || key.code == KeyCode::End,
    ensures
        a.key_spec(key).buf().selection == Some(
            match a.buf().selection {
                Some(sel) => sel,
                None => Selection {
                    anchor_y: a.buf().cursor_y,
                    anchor_x: a.buf().cursor_x,
                    kind: SelectionKind::Char,
                },
            },
        ),
{
    lemma_op_keeps_selection(a.buf(), BufOp::SelectFromCursor(SelectionKind::Char));
    let a1 = if a.buf().selection is None {
        a.op(BufOp::SelectFromCursor(SelectionKind::Char))
    } else {
        a
    };
    let b = a1.buf();
    let ctrl = key.modifiers.control;
    let o = match key.code {
        KeyCode::Left => if ctrl { BufOp::WordBackward } else { BufOp::LeftWrap },
        KeyCode::Right => if ctrl { BufOp::WordForward } else { BufOp::RightWrap },
        KeyCode::Home => if ctrl { BufOp::DocStart } else { BufOp::LineStart },
        KeyCode::End => if ctrl { BufOp::DocEnd } else { BufOp::LineEnd },
        KeyCode::Up => BufOp::MoveUp(a1.blk()),
        _ => BufOp::MoveDown(a1.blk()),
    };
    lemma_op_keeps_selection(b, o);
    assert(a1.simple_shift_spec(key) == Some(a1.op(o)));
    assert(a.simple_ctrl_spec(key.code) is None);
}

/// Vertical moves keep the column the first one started from: across a
/// shorter line and on to the next one the cursor comes back to that column
/// (clamped into the line it lands on), and down then up returns to it.
pub proof fn law_vertical_moves_keep_column(b: BufferV, blk: bool)
    requires
        b.wf(),
        b.desired_x is None,
        b.cursor_y + 1 < b.lines.len() <= usize::MAX,
    ensures
        ({
            let d = b.move_down_spec(blk);
            &&& d.move_up_spec(blk).cursor_y == b.cursor_y
            &&& d.move_up_spec(blk).cursor_x == clamp_x(b.cursor_x as int, b.cur_len(), blk)
            &&& !blk ==> d.move_up_spec(blk).cursor_x == b.cursor_x
            &&& b.cursor_y + 2 < b.lines.len() ==> d.move_down_spec(blk).cursor_x == clamp_x(
                b.cursor_x as int,
                b.lines[b.cursor_y + 2].len() as int,
                blk,
            )
        }),
{
    let d = b.move_down_spec(blk);
    assert(d.cursor_y == b.cursor_y + 1);
    assert(d.desired_x == Some(b.cursor_x));
    let u = d.move_up_spec(blk);
    assert(u.cursor_y == b.cursor_y);
}

/// Enter then Backspace leaves the text and the cursor as they were: the
/// Backspace at the start of the new line joins back exactly the line that
/// Enter split.
#[verifier::spinoff_prover]
pub proof fn law_enter_then_backspace(b: BufferV)
    requires
        b.wf(),
        b.lines.len() <= usize::MAX,
    ensures
        ({
            let (r, changed) = buf_op_spec(buf_op_spec(b, BufOp::SplitLine).0, BufOp::Backspace);
            &&& changed
            &&& r.lines == b.lines
            &&& r.cursor_x == b.cursor_x
            &&& r.cursor_y == b.cursor_y
        }),
{
    reveal(buf_op_spec);
    let s = b.split_line_spec();
    let cy = b.cursor_y as int;
    let l = b.cur();
    let cx = b.cursor_x as int;
    assert(s.lines[cy] == l.take(cx));
    assert(s.lines[cy + 1] == l.skip(cx));
    assert(l.take(cx) + l.skip(cx) =~= l);
    let j = s.join_prev_spec();
    assert(j.lines =~= b.lines);
}

/// The key Enter (or Backspace) with no modifier.
pub open spec fn plain_key(code: KeyCode) -> KeyEvent {
    KeyEvent { code, modifiers: KeyModifiers { shift: false, control: false, alt: false } }
}

/// Typed as keys in insert style (simple mode, vim Insert mode), Enter then
/// Backspace both report a change and leave the active buffer's text and
/// cursor as they were.
pub proof fn law_enter_then_backspace_keys(a: AppV)
    requires
        a.wf(),
        a.buf().lines.len() < usize::MAX,
    ensures
        ({
            let (a1, c1) = a.insert_key_spec(plain_key(KeyCode::Enter));
            let (a2, c2) = a1.insert_key_spec(plain_key(KeyCode::Backspace));
            &&& c1 && c2
            &&& a2.active_tab == a.active_tab
            &&& a2.buf().lines == a.buf().lines
            &&& a2.buf().cursor_x == a.buf().cursor_x
            &&& a2.buf().cursor_y == a.buf().cursor_y
        }),
{
    lemma_op_edit_keys(a.buf());
    let b0 = a.op(BufOp::ClearDesired);
    let x = b0.buf();
    lemma_op_edit_keys(x);
    let (a1, c1) = a.insert_key_spec(plain_key(KeyCode::Enter));
    assert(a1.buf() == x.split_line_spec());
    lemma_op_edit_keys(a1.buf());
    let y = BufferV { desired_x: None, ..x.split_line_spec() };
    lemma_op_edit_keys(y);
    let cy = x.cursor_y as int;
    let l = x.cur();
    let cx = x.cursor_x as int;
    assert(l.take(cx) + l.skip(cx) =~= l);
    assert(y.join_prev_spec().lines =~= x.lines);
}

/// `l[cx..e)` is what deleting a word forward from `cx` removes: the
/// whitespace from `cx` up to `m`, then, unless the line ends there, the
/// whole run of word characters or of punctuation that starts at `m`.
pub open spec fn forward_word_span(l: Seq<char>, cx: int, m: int, e: int) -> bool {
    &&& 0 <= cx <= m <= e <= l.len()
    &&& forall|i: int| cx <= i < m ==> space_char(#[trigger] l[i])
    &&& (m == l.len() || !space_char(l[m]))
    &&& (m < l.len() ==> m < e)
    &&& forall|i: int| m <= i < e ==> class_of(#[trigger] l[i]) == class_of(l[m])
    &&& (e == l.len() || m == e || class_of(l[e]) != class_of(l[m]))
}

/// `l[s..cx)` is what deleting a word backward from `cx` removes: the
/// whitespace before `cx` back to `m`, then, unless the line starts there,
/// the whole run of word characters or of punctuation that ends at `m`.
pub open spec fn backward_word_span(l: Seq<char>, s: int, m: int, cx: int) -> bool {
    &&& 0 <= s <= m <= cx <= l.len()
    &&& forall|i: int| m <= i < cx ==> space_char(#[trigger] l[i])
    &&& (m == 0 || !space_char(l[m - 1]))
    &&& (m > 0 ==> s < m)
    &&& forall|i: int| s <= i < m ==> class_of(#[trigger] l[i]) == class_of(l[m - 1])
    &&& (s == 0 || s == m || class_of(l[s - 1]) != class_of(l[m - 1]))
}

/// Deleting a word forward (Control+Delete) from a column inside the line
/// removes the whitespace after the cursor and then the whole word or
/// punctuation run that follows, and nothing else; the cursor stays. At the
/// end of a line it joins the next line on.
pub proof fn law_delete_word_forward(b: BufferV)
    requires
        b.wf(),
    ensures
        ({
            let l = b.cur();
            let cx = b.cursor_x as int;
            let cy = b.cursor_y as int;
            let r = b.delete_word_forward_spec();
            &&& cx < l.len() ==> exists|m: int, e: int|
                #[trigger] forward_word_span(l, cx, m, e) && r.lines == b.lines.update(cy, l.take(cx)
                    + l.skip(e)) && r.cursor_x == b.cursor_x && r.cursor_y == b.cursor_y
            &&& (cx >= l.len() && cy + 1 < b.lines.len()) ==> r.lines == b.lines.update(cy, l + b.lines[cy
                + 1]).remove(cy + 1)
        }),
{
    let l = b.cur();
    let cx = b.cursor_x as int;
    if cx < l.len() {
        lemma_run_end_bounds(l, cx, CharClass::Space);
        let m = run_end(l, cx, CharClass::Space);
        let e = delete_forward_end(l, cx);
        if m < l.len() {
            let k = if word_char(l[m]) {
                CharClass::Word
            } else {
                CharClass::Punct
            };
            lemma_run_end_bounds(l, m, k);
            lemma_space_not_word(l[m]);
            assert forall|i: int| m <= i < e implies class_of(#[trigger] l[i]) == class_of(l[m]) by {
                lemma_space_not_word(l[i]);
            }
            if e < l.len() {
                lemma_space_not_word(l[e]);
            }
        }
        assert(forward_word_span(l, cx, m, e));
        assert(l.take(cx) + l.skip(e) == remove_range_spec(l, cx, e));
    }
}

/// Deleting a word backward (Control+Backspace) from a column after the
/// start of the line removes the whitespace before the cursor and then the
/// whole word or punctuation run before it, and nothing else; the cursor
/// moves to where the removed text began. At the start of a line it joins
/// the line to the previous one.
pub proof fn law_delete_word_backward(b: BufferV)
    requires
        b.wf(),
    ensures
        ({
            let l = b.cur();
            let cx = b.cursor_x as int;
            let cy = b.cursor_y as int;
            let r = b.delete_word_backward_spec();
            &&& cx > 0 ==> exists|s: int, m: int|
                #[trigger] backward_word_span(l, s, m, cx) && r.lines == b.lines.update(cy, l.take(s)
                    + l.skip(cx)) && r.cursor_x == s && r.cursor_y == b.cursor_y
            &&& (cx == 0 && cy > 0) ==> r.lines == b.lines.update(cy - 1, b.lines[cy - 1] + l).remove(cy)
                && r.cursor_y == cy - 1 && r.cursor_x == b.lines[cy - 1].len() as usize
        }),
{
    let l = b.cur();
    let cx = b.cursor_x as int;
    if cx > 0 {
        lemma_run_start_bounds(l, cx, CharClass::Space);
        let m = run_start(l, cx, CharClass::Space);
        let s = delete_backward_start(l, cx);
        if m > 0 {
            let k = if word_char(l[m - 1]) {
                CharClass::Word
            } else {
                CharClass::Punct
            };
            lemma_run_start_bounds(l, m, k);
            lemma_space_not_word(l[m - 1]);
            assert forall|i: int| s <= i < m implies class_of(#[trigger] l[i]) == class_of(l[m - 1]) by {
                lemma_space_not_word(l[i]);
            }
            if s > 0 {
                lemma_space_not_word(l[s - 1]);
            }
        }
        assert(backward_word_span(l, s, m, cx));
        assert(l.take(s) + l.skip(cx) == remove_range_spec(l, s, cx));
    }
}

/// No line holds a line feed, none ends with a carriage return, and the
/// last line is empty only when it is the only one: the lines a file keeps
/// through a write and a read.
pub open spec fn storable(ls: Seq<Seq<char>>) -> bool {
    &&& ls.len() >= 1
    &&& forall|i: int| 0 <= i < ls.len() ==> !(#[trigger] ls[i]).contains('\n')
    &&& forall|i: int| 0 <= i < ls.len() ==> (#[trigger] ls[i]).len() == 0 || ls[i].last() != '\r'
    &&& ls.len() > 1 ==> ls.last().len() > 0
}

proof fn lemma_split_append(x: Seq<char>, l: Seq<char>, c: char)
    requires
        !l.contains(c),
    ensures
        split_spec(x + l, c) == split_spec(x, c).update(
            split_spec(x, c).len() - 1,
            split_spec(x, c).last() + l,
        ),
        split_spec(x, c).len() >= 1,
    decreases l.len(),
{
    lemma_split_len(x, c);
    if l.len() == 0 {
        assert(x + l =~= x);
        assert(split_spec(x, c).last() + l =~= split_spec(x, c).last());
        assert(split_spec(x, c).update(split_spec(x, c).len() - 1, split_spec(x, c).last()) =~= split_spec(
            x,
            c,
        ));
    } else {
        let l2 = l.drop_last();
        assert(!l2.contains(c)) by {
            if l2.contains(c) {
                let j = choose|j: int| 0 <= j < l2.len() && l2[j] == c;
                assert(l[j] == c);
            }
        }
        lemma_split_append(x, l2, c);
        assert((x + l).drop_last() =~= x + l2);
        assert((x + l).last() == l.last());
        assert(l.last() != c) by {
            assert(l[l.len() - 1] == l.last());
        }
        let p = split_spec(x + l2, c);
        assert(split_spec(x + l, c) == p.update(p.len() - 1, p.last().push(l.last())));
        assert(split_spec(x, c).last() + l =~= (split_spec(x, c).last() + l2).push(l.last()));
        assert(split_spec(x + l, c) =~= split_spec(x, c).update(
            split_spec(x, c).len() - 1,
            split_spec(x, c).last() + l,
        ));
    }
}

proof fn lemma_split_len(x: Seq<char>, c: char)
    ensures
        split_spec(x, c).len() >= 1,
    decreases x.len(),
{
    if x.len() > 0 {
        lemma_split_len(x.drop_last(), c);
    }
}

proof fn lemma_split_join(ls: Seq<Seq<char>>)
    requires
        ls.len() >= 1,
        forall|i: int| 0 <= i < ls.len() ==> !(#[trigger] ls[i]).contains('\n'),
    ensures
        split_spec(join_lines_spec(ls), '\n') == ls,
    decreases ls.len(),
{
    if ls.len() == 1 {
        lemma_split_append(Seq::<char>::empty(), ls[0], '\n');
        assert(Seq::<char>::empty() + ls[0] =~= ls[0]);
        assert(split_spec(Seq::<char>::empty(), '\n') =~= seq![Seq::<char>::empty()]);
        assert(Seq::<char>::empty() + ls[0] =~= ls[0]);
        assert(split_spec(ls[0], '\n') =~= ls);
    } else {
        let init = ls.drop_last();
        assert forall|i: int| 0 <= i < init.len() implies !(#[trigger] init[i]).contains('\n') by {
            assert(init[i] == ls[i]);
        }
        lemma_split_join(init);
        let x = join_lines_spec(init) + seq!['\n'];
        assert(x.drop_last() =~= join_lines_spec(init));
        assert(split_spec(x, '\n') == split_spec(join_lines_spec(init), '\n').push(Seq::<char>::empty()));
        assert(!ls.last().contains('\n')) by {
            assert(ls[ls.len() - 1] == ls.last());
        }
        lemma_split_append(x, ls.last(), '\n');
        assert(join_lines_spec(ls) == x + ls.last());
        assert(Seq::<char>::empty() + ls.last() =~= ls.last());
        assert(split_spec(join_lines_spec(ls), '\n') =~= ls);
    }
}

/// Writing lines joined by line feeds and reading the text back line by
/// line gives the same lines, for lines a file can hold.
pub proof fn law_lines_roundtrip(ls: Seq<Seq<char>>)
    requires
        storable(ls),
    ensures
        ({
            let back = text_lines_spec(join_lines_spec(ls));
            if back.len() == 0 {
                ls == seq![Seq::<char>::empty()]
            } else {
                back == ls
            }
        }),
{
    lemma_split_join(ls);
    let p = ls;
    let body = p.drop_last().map_values(|l: Seq<char>| strip_cr(l));
    assert(body =~= p.drop_last()) by {
        assert forall|i: int| 0 <= i < body.len() implies body[i] == p.drop_last()[i] by {
            assert(p.drop_last()[i] == p[i]);
            assert(p[i].len() == 0 || p[i].last() != '\r');
        }
    }
    if p.last().len() == 0 {
        assert(p.len() == 1);
        assert(body.len() == 0);
        assert(ls =~= seq![Seq::<char>::empty()]);
    } else {
        assert(body.push(p.last()) =~= ls);
    }
}

/// Loading the text that saving a buffer writes gives back the buffer's
/// lines (for lines a file can hold).
pub proof fn law_save_then_load(a: AppV, path: Seq<char>)
    requires
        a.wf(),
        storable(a.buf().lines),
    ensures
        a.load_spec(path, FileReadV::Contents(join_lines_spec(a.buf().lines))).buf().lines == a.buf().lines,
{
    law_lines_roundtrip(a.buf().lines);
}

/// `:q` and `:qa` never drop unsaved work: with unsaved changes they keep
/// every buffer and do not quit.
pub proof fn law_quit_commands_keep_unsaved_work(a: AppV)
    requires
        a.wf(),
        !a.should_quit,
        (trim_spec(a.command_buffer) == "q"@ && a.buf().dirty) || (trim_spec(a.command_buffer)
            == "qa"@ && any_dirty(a.buffers)),
    ensures
        a.execute_command_spec().buffers == a.buffers,
        !a.execute_command_spec().should_quit,
{
    reveal_strlit("q");
    reveal_strlit("qa");
    reveal_strlit("q!");
    let cmd = trim_spec(a.command_buffer);
    let b = AppV { command_buffer: Seq::empty(), mode: Mode::Normal, ..a };
    assert(b.buf() == a.buf());
    if cmd == "q"@ {
        assert(a.execute_command_spec() == b.say("Unsaved changes. Use :q! to force or :w to save."@));
    } else {
        assert(cmd == "qa"@);
        assert(("qa"@)[1] != ("q!"@)[1]);
        assert(any_dirty(b.buffers));
    }
}

/// Appending text without a `/` to a path extends its file name.
proof fn lemma_last_segment_append(x: Seq<char>, y: Seq<char>)
    requires
        !y.contains('/'),
    ensures
        last_segment(x + y) == last_segment(x) + y,
    decreases y.len(),
{
    if y.len() == 0 {
        assert(x + y =~= x);
        assert(last_segment(x) + y =~= last_segment(x));
    } else {
        let y0 = y.drop_last();
        assert(!y0.contains('/')) by {
            if y0.contains('/') {
                let k = choose|k: int| 0 <= k < y0.len() && y0[k] == '/';
                assert(y[k] == '/');
            }
        }
        assert(y.last() != '/') by {
            assert(y[y.len() - 1] == y.last());
        }
        lemma_last_segment_append(x, y0);
        assert((x + y).drop_last() =~= x + y0);
        assert((x + y).last() == y.last());
        assert((last_segment(x) + y0).push(y.last()) =~= last_segment(x) + y);
    }
}

/// Saving under a name writes to that name when its file name has an
/// extension, else to the name with `.calc` added; so a file name that is
/// not empty always ends up with an extension.
pub proof fn law_saved_name_has_extension(a: AppV, path: Seq<char>)
    requires
        a.wf(),
    ensures
        a.save_as_spec(path).write_request matches Some((p, _)) && (has_extension(path) ==> p == path)
            && (!has_extension(path) ==> p == path + ".calc"@) && (last_segment(path).len() > 0
            ==> has_extension(p)),
{
    reveal_strlit(".calc");
    let ext = ".calc"@;
    assert(!ext.contains('/')) by {
        if ext.contains('/') {
            let k = choose|k: int| 0 <= k < ext.len() && ext[k] == '/';
        }
    }
    lemma_last_segment_append(path, ext);
    let seg = last_segment(path);
    if !has_extension(path) && seg.len() > 0 {
        let name = seg + ext;
        assert(name.drop_first()[seg.len() - 1] == '.');
    }
}

/// Opening a file that does not exist yet names the buffer after it, so
/// the first save writes the buffer's text to that file.
pub proof fn law_missing_file_saved_on_first_save(a: AppV, path: Seq<char>)
    requires
        a.wf(),
    ensures
        ({
            let opened = a.load_spec(path, FileReadV::NotFound);
            opened.save_spec(false).write_request == Some((path, join_lines_spec(a.buf().lines)))
        }),
{
}

/// Opening a tab and closing it again leaves the same documents.
pub proof fn law_new_then_close(a: AppV)
    requires
        a.wf(),
        a.buffers.len() < usize::MAX,
    ensures
        a.new_buffer_spec().close_tab_force_spec().buffers == a.buffers,
{
    let n = a.new_buffer_spec();
    assert(n.buffers.remove(n.active_tab as int) =~= a.buffers);
}

/// Going to the next tab and back returns to the same tab.
pub proof fn law_next_then_prev(a: AppV)
    requires
        a.wf(),
        a.buffers.len() <= usize::MAX,
    ensures
        a.next_tab_spec().prev_tab_spec() == a,
{
    let n = a.buffers.len() as int;
    if n > 1 {
        if a.active_tab + 1 < n {
            vstd::arithmetic::div_mod::lemma_small_mod((a.active_tab + 1) as nat, n as nat);
        } else {
            vstd::arithmetic::div_mod::lemma_mod_self_0(n);
        }
        assert(a.next_tab_spec().prev_tab_spec().active_tab == a.active_tab);
    }
}

} // verus!
