//! What the screen shows, computed from the editor's state: the line-number
//! gutter, the selected part of each line, and the status bar's text.
use vstd::prelude::*;
use crate::app::{App, AppV, Rect};
use crate::editor::{BufferV, Selection, SelectionKind, min_int};
use crate::mode::{EditStyle, Mode};
use crate::text::{concat_str, decimal_string, decimal_text};

verus! {

/// The number of decimal digits of `n` (1 for 0).
pub open spec fn digit_count_spec(n: nat) -> nat {
    decimal_text(n).len()
}

proof fn lemma_decimal_len_step(n: nat)
    requires
        n >= 10,
    ensures
        decimal_text(n).len() == decimal_text(n / 10).len() + 1,
{
}

/// The number of decimal digits of `n`.
pub fn digit_count(n: usize) -> (r: usize)
    ensures
        r == digit_count_spec(n as nat),
        r <= 20,
{
    proof {
        lemma_usize_digits(n);
    }
    let mut m = n;
    let mut c: usize = 1;
    proof {
        lemma_digit_count_small(n as nat);
    }
    while m >= 10
        invariant
            c >= 1,
            c + digit_count_spec(m as nat) == digit_count_spec(n as nat) + 1,
            digit_count_spec(m as nat) <= m + 1,
            digit_count_spec(n as nat) <= n + 1,
            digit_count_spec(n as nat) <= 20,
            m <= n,
        decreases m,
    {
        proof {
            lemma_decimal_len_step(m as nat);
            lemma_digit_count_small((m / 10) as nat);
            assert(decimal_text((m / 10) as nat).len() >= 1);
        }
        m = m / 10;
        c = c + 1;
    }
    c
}

proof fn lemma_digit_count_small(n: nat)
    ensures
        decimal_text(n).len() <= n + 1,
        n >= 1 ==> decimal_text(n).len() <= n,
    decreases n,
{
    if n >= 10 {
        lemma_digit_count_small(n / 10);
    }
}

/// `10` to the power `k`.
pub open spec fn pow10(k: nat) -> nat
    decreases k,
{
    if k == 0 {
        1
    } else {
        10 * pow10((k - 1) as nat)
    }
}

proof fn lemma_digits_below_pow10(n: nat, k: nat)
    requires
        k >= 1,
        n < pow10(k),
    ensures
        decimal_text(n).len() <= k,
    decreases k,
{
    if n >= 10 {
        assert(k >= 2) by {
            if k == 1 {
                assert(pow10(1) == 10 * pow10(0));
            }
        }
        lemma_digits_below_pow10(n / 10, (k - 1) as nat);
    }
}

proof fn lemma_usize_digits(n: usize)
    ensures
        decimal_text(n as nat).len() <= 20,
{
    assert(pow10(20) == 100000000000000000000) by {
        reveal_with_fuel(pow10, 21);
    }
    lemma_digits_below_pow10(n as nat, 20);
}

/// The gutter's width for a document of `total` lines: the digits of the
/// line count (at least two) and a space.
pub open spec fn gutter_width_spec(total: nat) -> nat {
    (if digit_count_spec(total) >= 2 {
        digit_count_spec(total)
    } else {
        2
    }) + 1
}

/// The width of the line-number gutter and the text area inside the editor
/// pane's border `inner`, for a document of `total` lines.
pub fn editor_layout(inner: Rect, total: usize) -> (r: (u16, Rect))
    requires
        inner.x + inner.width <= u16::MAX,
    ensures
        r.0 == min_int(gutter_width_spec(total as nat) as int, inner.width as int),
        r.1 == (Rect { x: (inner.x + r.0) as u16, y: inner.y, width: (inner.width - r.0) as u16, height: inner.height }),
{
    let d = digit_count(total);
    let g = if d >= 2 {
        d + 1
    } else {
        3
    };
    let gw: u16 = if g < inner.width as usize {
        g as u16
    } else {
        inner.width
    };
    (gw, Rect { x: inner.x + gw, y: inner.y, width: inner.width - gw, height: inner.height })
}

/// The selected columns of line `y` (of `len` characters): all of it for a
/// line selection that covers it; for a character selection the part
/// between the selection's ends, clamped to the line.
pub open spec fn selection_span_spec(b: BufferV, y: int, len: int) -> Option<(int, int)> {
    match b.selection {
        None => None,
        Some(sel) => {
            let (s, e) = b.ordered(sel);
            let (sy, sx, ey, ex) = (s.0 as int, s.1 as int, e.0 as int, e.1 as int);
            if y < sy || y > ey {
                None
            } else if sel.kind == SelectionKind::Line {
                Some((0, len))
            } else if sy == ey {
                Some((min_int(sx, len), min_int(ex, len)))
            } else if y == sy {
                Some((min_int(sx, len), len))
            } else if y == ey {
                Some((0, min_int(ex, len)))
            } else {
                Some((0, len))
            }
        },
    }
}

impl App {
    /// The selected columns of line `y` of the active buffer, which has `len`
    /// characters.
    pub fn selection_span(&self, y: usize, len: usize) -> (r: Option<(usize, usize)>)
        requires
            self.wf(),
        ensures
            match selection_span_spec(self@.buf(), y as int, len as int) {
                None => r is None,
                Some(p) => r matches Some(q) && q.0 == p.0 && q.1 == p.1,
            },
    {
        let b = &self.buffers[self.active_tab];
        let sel = match b.selection {
            None => {
                return None;
            },
            Some(sel) => sel,
        };
        let ((sy, sx), (ey, ex)) = b.ordered_selection(&sel);
        let cl = |v: usize| -> (w: usize)
            ensures
                w == min_int(v as int, len as int),
            {
                if v < len {
                    v
                } else {
                    len
                }
            };
        if y < sy || y > ey {
            None
        } else if sel.kind == SelectionKind::Line {
            Some((0, len))
        } else if sy == ey {
            Some((cl(sx), cl(ex)))
        } else if y == sy {
            Some((cl(sx), len))
        } else if y == ey {
            Some((0, cl(ex)))
        } else {
            Some((0, len))
        }
    }

    /// The left part of the status bar: in vim style the mode's name and the
    /// message, in simple style the message alone.
    pub fn status_left(&self) -> (r: String)
        ensures
            r@ == status_left_spec(self@),
    {
        if self.config.edit_style == EditStyle::Vim {
            let mode_str = self.mode.display();
            match &self.message {
                Some(m) => {
                    if mode_str.unicode_len() == 0 {
                        m.clone()
                    } else {
                        let mut s = concat_str(mode_str, " ");
                        s.append(m.as_str());
                        s
                    }
                },
                None => String::from_str(mode_str),
            }
        } else {
            match &self.message {
                Some(m) => m.clone(),
                None => String::new(),
            }
        }
    }

    /// The cursor position shown at the right of the status bar:
    /// `Ln <line>, Col <column> ` counted from 1.
    pub fn status_position(&self) -> (r: String)
        requires
            self.wf(),
            self@.buf().cursor_x < usize::MAX,
        ensures
            r@ == "Ln "@ + decimal_text((self@.buf().cursor_y + 1) as nat) + ", Col "@ + decimal_text(
                (self@.buf().cursor_x + 1) as nat,
            ) + " "@,
    {
        let b = &self.buffers[self.active_tab];
        let ly = decimal_string(b.cursor_y + 1);
        let lx = decimal_string(b.cursor_x + 1);
        let mut s = concat_str("Ln ", ly.as_str());
        s.append(", Col ");
        s.append(lx.as_str());
        s.append(" ");
        s
    }

    /// Prepares a frame `area_height` rows tall: remembers how many text rows
    /// it shows and scrolls the cursor into view.
    pub fn prepare_frame(&mut self, area_height: u16)
        requires
            old(self).wf(),
        ensures
            final(self).wf(),
            final(self)@ == (AppV {
                last_visible_height: visible_rows(area_height, old(self)@.buffers.len()) as usize,
                ..old(self)@
            }).ensure_visible_app(visible_rows(area_height, old(self)@.buffers.len())),
    {
        let h = self.visible_height(area_height);
        self.last_visible_height = h;
        self.ensure_cursor_visible(h);
    }
}

/// The number of text rows in a terminal `area_height` rows tall: all but the
/// borders and the status bar, and the tab bar when there are several tabs.
pub open spec fn visible_rows(area_height: u16, tabs: nat) -> int {
    let overhead: int = if tabs > 1 {
        4
    } else {
        3
    };
    if area_height >= overhead {
        area_height - overhead
    } else {
        0
    }
}

/// The left part of the status bar.
pub open spec fn status_left_spec(a: AppV) -> Seq<char> {
    let msg = match a.message {
        Some(m) => m,
        None => Seq::empty(),
    };
    if a.config.edit_style == EditStyle::Vim {
        let mode_str = match a.mode {
            Mode::Normal => "-- NORMAL --"@,
            Mode::Insert => "-- INSERT --"@,
            Mode::Visual => "-- VISUAL --"@,
            Mode::Command => ""@,
        };
        match a.message {
            Some(m) => if mode_str.len() == 0 {
                m
            } else {
                mode_str + " "@ + m
            },
            None => mode_str,
        }
    } else {
        msg
    }
}

} // verus!
