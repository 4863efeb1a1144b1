//! Building the frame: which rows are shown, their exact text, and where
//! the cursor sits while typing. Writing the rows to the terminal is the
//! caller's job; everything computed here is pinned down exactly.

use vstd::prelude::*;

use crate::entry::{label_of, EntryModel, VaultEntry};
use crate::error::Error;
use crate::path::{joined_of, lemma_width_matches_joined};
use crate::scroll::{recompute_scroll, scrolled};
use crate::store::SecretStore;
use crate::strutil::make_spaces;
use crate::walker::{EditMode, Mode, Vaultwalker};
use vstd::pervasive::unreached;

verus! {

/// `s` cut to `max` characters with an ellipsis appended, or `s` itself
/// when it already fits.
pub open spec fn shorten_spec(s: Seq<char>, max: int) -> Seq<char> {
    if max < s.len() {
        s.take(max) + "..."@
    } else {
        s
    }
}

/// Cut a string to `max_len` characters, marking the cut with an ellipsis.
pub fn shorten_string(s: &str, max_len: usize) -> (r: String)
    ensures
        r@ == shorten_spec(s@, max_len as int),
{
    let n = s.unicode_len();
    if max_len < n {
        let mut t = s.substring_char(0, max_len).to_owned();
        t.append("...");
        t
    } else {
        s.to_owned()
    }
}

/// `s` wrapped in the bold-on / bold-off styling marks.
pub open spec fn bold_of(s: Seq<char>) -> Seq<char> {
    "\u{1b}[1m"@ + s + "\u{1b}[0m"@
}

/// Wrap a string in the bold styling marks.
pub fn bold(s: &str) -> (r: String)
    ensures
        r@ == bold_of(s@),
{
    let mut t = String::new();
    t.append("\u{1b}[1m");
    t.append(s);
    t.append("\u{1b}[0m");
    t
}

/// The styling marks around a bold span take eight columns of the raw text.
pub proof fn lemma_bold_overhead(s: Seq<char>)
    ensures
        bold_of(s).len() == s.len() + 8,
{
    reveal_strlit("\u{1b}[1m");
    reveal_strlit("\u{1b}[0m");
}

/// A run of `n` spaces.
pub open spec fn spaces_of(n: int) -> Seq<char> {
    Seq::new(n as nat, |i: int| ' ')
}

/// The view of an optional secret.
pub open spec fn secret_view(o: Option<String>) -> Option<Seq<char>> {
    match o {
        Some(s) => Some(s@),
        None => None,
    }
}

/// The placeholder row appended to the rendered list while a new entry is
/// being typed: the buffered key as a leaf. It exists on screen only, never
/// in the real listing.
pub open spec fn virtual_rows(mode: Mode, buffered: Seq<char>) -> Seq<EntryModel> {
    match mode {
        Mode::TypingKey(em) => if em is Insert {
            seq![EntryModel { name: buffered, is_dir: false }]
        } else {
            Seq::empty()
        },
        Mode::TypingSecret(em) => seq![EntryModel { name: buffered, is_dir: false }],
        _ => Seq::empty(),
    }
}

/// The text of the selected row, by mode: browsing and delete-confirmation
/// show the entry and, for a resolved leaf, its value in bold, cut to the
/// remaining width; typing a new key echoes the virtual entry; renaming
/// shows a bare prompt; typing a value shows the entry and an arrow.
pub open spec fn selected_line_spec(
    mode: Mode,
    item: EntryModel,
    secret: Option<Seq<char>>,
    max_width: int,
) -> Seq<char> {
    match mode {
        Mode::Navigation | Mode::DeletingKey => {
            let base = "> "@ + label_of(item);
            match secret {
                Some(v) => {
                    let remaining = if max_width < base.len() + 7 {
                        0
                    } else {
                        max_width - base.len() - 7
                    };
                    base + " -> "@ + bold_of(shorten_spec(v, remaining))
                },
                None => base,
            }
        },
        Mode::TypingKey(em) => if em is Insert {
            "> "@ + label_of(item)
        } else {
            "> "@
        },
        Mode::TypingSecret(em) => "> "@ + label_of(item) + " -> "@,
    }
}

/// A frame: the rows to draw from the top of the screen, and the cursor
/// position (column, row) to leave the terminal at while typing.
pub struct RenderPlan {
    pub lines: Vec<String>,
    pub cursor: Option<(usize, usize)>,
}

impl<H: SecretStore> Vaultwalker<H> {
    /// The item shown on absolute row `i`: a real entry, or the virtual row.
    pub open spec fn row_item(&self, i: int) -> EntryModel {
        (self.list_model() + virtual_rows(self.mode, self.buffered_key@))[i]
    }

    /// How many rows the rendered listing has, real and virtual together.
    pub open spec fn total_rows(&self) -> int {
        self.list_model().len() + virtual_rows(self.mode, self.buffered_key@).len() as int
    }

    /// The exact text of absolute row `i` of the frame: the first visible
    /// row carries the joined path in bold, every other row is indented to
    /// align under it; the selected row shows its mode-dependent text and
    /// any other row its entry.
    pub open spec fn render_row(&self, width: int, i: int) -> Seq<char> {
        let prefix = if i == self.scroll {
            bold_of(joined_of(self.path@)) + seq![' ']
        } else {
            spaces_of(joined_of(self.path@).len() as int + 1)
        };
        let body = if i == self.selected_item {
            let maxw = if width - prefix.len() < 3 {
                3
            } else {
                width - prefix.len()
            };
            selected_line_spec(self.mode, self.row_item(i), secret_view(self.selected_secret), maxw)
        } else {
            "  "@ + label_of(self.row_item(i))
        };
        prefix + body
    }

    /// The text of the selected row for the current mode.
    pub fn selected_line_for_current_mode(&self, item: &VaultEntry, max_width: usize) -> (r:
        Result<String, Error>)
        ensures
            r matches Ok(line) && line@ == selected_line_spec(
                self.mode,
                item@,
                secret_view(self.selected_secret),
                max_width as int,
            ),
    {
        match self.mode {
            Mode::Navigation | Mode::DeletingKey => {
                let mut line = String::new();
                line.append("> ");
                let lab = item.label();
                line.append(lab.as_str());
                match &self.selected_secret {
                    Some(secret) => {
                        let line_len = line.as_str().unicode_len();
                        let remaining: usize = if max_width >= 7 && line_len <= max_width - 7 {
                            max_width - 7 - line_len
                        } else {
                            0
                        };
                        let sh = shorten_string(secret.as_str(), remaining);
                        let b = bold(sh.as_str());
                        line.append(" -> ");
                        line.append(b.as_str());
                    },
                    None => {},
                }
                Ok(line)
            },
            Mode::TypingKey(EditMode::Insert) => {
                let mut line = String::new();
                line.append("> ");
                let lab = item.label();
                line.append(lab.as_str());
                Ok(line)
            },
            Mode::TypingKey(EditMode::Update) => {
                let mut line = String::new();
                line.append("> ");
                Ok(line)
            },
            Mode::TypingSecret(_) => {
                let mut line = String::new();
                line.append("> ");
                let lab = item.label();
                line.append(lab.as_str());
                line.append(" -> ");
                Ok(line)
            },
        }
    }

    /// Recompute the scroll offset and build the frame: the window of rows
    /// starting at the new offset, at most `height - 1` of them (one
    /// terminal row is reserved for the status line), each row's text
    /// exactly as [`Self::render_row`] states it, and the cursor position
    /// while typing. Rows outside the window are not rendered. The
    /// recomputed offset always keeps an in-range selection inside the
    /// window.
    #[verifier::loop_isolation(false)]
    #[verifier::rlimit(60)]
    pub fn render_plan(&mut self, width: usize, height: usize) -> (r: RenderPlan)
        requires
            old(self).wf(),
            height >= 4,
            old(self).current_list@.len() < usize::MAX,
        ensures
            final(self).wf(),
            final(self).client == old(self).client,
            final(self).mode == old(self).mode,
            final(self).path == old(self).path,
            final(self).current_list == old(self).current_list,
            final(self).selected_item == old(self).selected_item,
            final(self).previous_selected_item == old(self).previous_selected_item,
            final(self).selected_secret == old(self).selected_secret,
            final(self).displayed_message == old(self).displayed_message,
            final(self).buffered_key == old(self).buffered_key,
            final(self).quit_requested == old(self).quit_requested,
            final(self).scroll as int == (if old(self).selected_item < old(self).total_rows() {
                scrolled(
                    old(self).selected_item as int,
                    old(self).scroll as int,
                    height as int,
                    old(self).total_rows(),
                )
            } else {
                old(self).scroll as int
            }),
            old(self).selected_item < old(self).total_rows() ==> final(self).scroll <= old(
                self,
            ).selected_item && old(self).selected_item < final(self).scroll + height - 1,
            ({
                let rows = if final(self).scroll >= final(self).total_rows() {
                    0int
                } else if final(self).total_rows() - final(self).scroll > height - 1 {
                    height - 1
                } else {
                    final(self).total_rows() - final(self).scroll
                };
                &&& r.lines.deep_view().len() == rows
                &&& forall|k: int|
                    0 <= k < rows ==> r.lines.deep_view()[k] == final(self).render_row(
                        width as int,
                        final(self).scroll + k,
                    )
            }),
            (final(self).mode matches Mode::TypingKey(_) || final(self).mode
                matches Mode::TypingSecret(_)) ==> (r.cursor matches Some(cur) && cur.1 == old(
                self,
            ).selected_item - final(self).scroll && cur.0 as int == final(self).render_row(
                width as int,
                old(self).selected_item as int,
            ).len() - (if old(self).selected_item == final(self).scroll {
                8int
            } else {
                0int
            })),
            !(final(self).mode matches Mode::TypingKey(_) || final(self).mode
                matches Mode::TypingSecret(_)) ==> r.cursor is None,
    {
        let list_len = self.current_list.len();
        let has_virtual = match self.mode {
            Mode::TypingKey(EditMode::Insert) => true,
            Mode::TypingSecret(_) => true,
            _ => false,
        };
        let total = if has_virtual {
            list_len + 1
        } else {
            list_len
        };
        proof {
            assert(total as int == self.total_rows());
        }
        if self.selected_item < total {
            let s = recompute_scroll(self.selected_item, self.scroll, height, total);
            self.scroll = s;
        }
        let joined = self.path.join();
        let mut head_prefix = bold(joined.as_str());
        head_prefix.append(" ");
        let pw = joined.as_str().unicode_len();
        proof {
            // the indent under the path header is the path's display width
            // plus one column, which for a directory path is the length of
            // its joined prefix plus one
            lemma_width_matches_joined(self.path@);
        }
        let mut pad = make_spaces(pw);
        pad.append(" ");
        proof {
            reveal_strlit(" ");
            assert(head_prefix@ =~= bold_of(joined_of(self.path@)) + seq![' ']);
            assert(pad@ =~= spaces_of(joined_of(self.path@).len() as int + 1));
        }
        let virt: Option<VaultEntry> = if has_virtual {
            Some(VaultEntry { name: self.buffered_key.clone(), is_dir: false })
        } else {
            None
        };
        let start = self.scroll;
        let room = height - 1;
        let end: usize = if start >= total {
            start
        } else if total - start > room {
            start + room
        } else {
            total
        };
        let mut lines: Vec<String> = Vec::new();
        let mut cursor_col: usize = 0;
        let mut i = start;
        let ghost typing_ghost = (self.mode matches Mode::TypingKey(_) || self.mode
            matches Mode::TypingSecret(_));
        while i < end
            invariant
                start <= i <= end,
                lines.deep_view().len() == i - start,
                forall|k: int|
                    0 <= k < i - start ==> lines.deep_view()[k] == self.render_row(
                        width as int,
                        start + k,
                    ),
                (typing_ghost && start <= self.selected_item < i) ==> cursor_col as int
                    == self.render_row(width as int, self.selected_item as int).len() - (
                if self.selected_item == start {
                    8int
                } else {
                    0int
                }),
            decreases end - i,
        {
            let mut line = if i == start {
                head_prefix.clone()
            } else {
                pad.clone()
            };
            let item_ref: &VaultEntry = if i < list_len {
                &self.current_list[i]
            } else {
                match &virt {
                    Some(v) => v,
                    None => unreached(),
                }
            };
            proof {
                if i >= list_len {
                    assert(virtual_rows(self.mode, self.buffered_key@).len() == 1);
                }
                assert(item_ref@ == self.row_item(i as int));
            }
            let ghost prev_lines = lines.deep_view();
            if i == self.selected_item {
                let ll = line.as_str().unicode_len();
                let maxw = if width > ll && width - ll >= 3 {
                    width - ll
                } else {
                    3
                };
                let sel = match self.selected_line_for_current_mode(item_ref, maxw) {
                    Ok(s) => s,
                    Err(_) => unreached(),
                };
                line.append(sel.as_str());
                proof {
                    assert(line@ == self.render_row(width as int, i as int));
                }
                let typing = match self.mode {
                    Mode::TypingKey(em) => true,
                    Mode::TypingSecret(em) => true,
                    _ => false,
                };
                if typing {
                    let full = line.as_str().unicode_len();
                    if i == start {
                        proof {
                            lemma_bold_overhead(joined_of(self.path@));
                        }
                        cursor_col = full - 8;
                    } else {
                        cursor_col = full;
                    }
                }
            } else {
                line.append("  ");
                let lab = item_ref.label();
                line.append(lab.as_str());
                proof {
                    assert(line@ == self.render_row(width as int, i as int));
                }
            }
            lines.push(line);
            proof {
                assert(lines.deep_view() =~= prev_lines.push(line@));
            }
            i = i + 1;
        }
        let typing = match self.mode {
            Mode::TypingKey(em) => true,
            Mode::TypingSecret(em) => true,
            _ => false,
        };
        let cursor: Option<(usize, usize)> = if typing {
            Some((cursor_col, self.selected_item - start))
        } else {
            None
        };
        RenderPlan { lines, cursor }
    }
}

} // verus!
