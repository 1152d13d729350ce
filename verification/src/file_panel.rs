//! One side of the dual-pane browser: a directory listing with a selection
//! and a scroll window. Reading directories is I/O and lives with the
//! surrounding code; the panel itself is pure state.

use vstd::prelude::*;
use crate::filesystem::FileEntry;

verus! {

/// A file panel: the listed entries, the selected index, and the scroll
/// window over them.
pub struct FilePanel {
    pub current_path: String,
    pub entries: Vec<FileEntry>,
    pub selected_index: usize,
    pub scroll_offset: usize,
    pub visible_rows: usize,
    pub is_remote: bool,
}

/// The scroll offset adjusted so the selection lies inside the window.
pub open spec fn spec_adjust_scroll(p: FilePanel) -> FilePanel {
    if p.selected_index < p.scroll_offset {
        FilePanel { scroll_offset: p.selected_index, ..p }
    } else if p.selected_index >= p.scroll_offset + p.visible_rows {
        FilePanel {
            scroll_offset: (p.selected_index - p.visible_rows + 1) as usize,
            ..p
        }
    } else {
        p
    }
}

impl FilePanel {
    /// A fresh panel over an already-listed directory, with the first entry
    /// selected and the default window height.
    pub fn new(current_path: String, entries: Vec<FileEntry>, is_remote: bool) -> (p: FilePanel)
        ensures
            p.current_path == current_path,
            p.entries == entries,
            p.selected_index == 0,
            p.scroll_offset == 0,
            p.visible_rows == 20,
            p.is_remote == is_remote,
    {
        FilePanel {
            current_path,
            entries,
            selected_index: 0,
            scroll_offset: 0,
            visible_rows: 20,
            is_remote,
        }
    }

    /// Installs a fresh listing of the same directory, clamping the
    /// selection to the new length.
    pub fn set_entries(&mut self, entries: Vec<FileEntry>)
        ensures
            final(self).entries == entries,
            final(self).selected_index == (if old(self).selected_index >= entries@.len() {
                if entries@.len() == 0 {
                    0int
                } else {
                    entries@.len() - 1
                }
            } else {
                old(self).selected_index as int
            }),
            final(self).current_path == old(self).current_path,
            final(self).scroll_offset == old(self).scroll_offset,
            final(self).visible_rows == old(self).visible_rows,
            final(self).is_remote == old(self).is_remote,
    {
        let len = entries.len();
        self.entries = entries;
        if self.selected_index >= len {
            self.selected_index = if len == 0 {
                0
            } else {
                len - 1
            };
        }
    }

    /// Moves the panel to another directory whose listing is given: the
    /// selection and the window reset to the top.
    pub fn change_directory(&mut self, path: String, entries: Vec<FileEntry>)
        ensures
            *final(self) == (FilePanel {
                current_path: path,
                entries,
                selected_index: 0,
                scroll_offset: 0,
                ..*old(self)
            }),
    {
        self.current_path = path;
        self.entries = entries;
        self.selected_index = 0;
        self.scroll_offset = 0;
    }

    /// The selected entry, where one exists.
    pub fn selected_entry(&self) -> (r: Option<&FileEntry>)
        ensures
            self.selected_index < self.entries@.len() ==> r == Some(
                &self.entries@[self.selected_index as int],
            ),
            self.selected_index >= self.entries@.len() ==> r is None,
    {
        if self.selected_index < self.entries.len() {
            Some(&self.entries[self.selected_index])
        } else {
            None
        }
    }

    /// Brings the selection into the visible window, as
    /// `spec_adjust_scroll` describes; with a window of at least one row the
    /// selection lies inside it afterwards.
    pub fn adjust_scroll(&mut self)
        requires
            old(self).visible_rows >= 1,
        ensures
            *final(self) == spec_adjust_scroll(*old(self)),
            final(self).scroll_offset <= final(self).selected_index,
            final(self).selected_index - final(self).scroll_offset < final(self).visible_rows,
    {
        if self.selected_index < self.scroll_offset {
            self.scroll_offset = self.selected_index;
        } else if self.selected_index - self.scroll_offset >= self.visible_rows {
            self.scroll_offset = self.selected_index - self.visible_rows + 1;
        }
    }

    /// The entries inside the scroll window, each with its index in the full
    /// listing.
    pub fn visible_entries<'a>(&'a self) -> (r: Vec<(usize, &'a FileEntry)>)
        ensures
            r@.len() == (if self.scroll_offset as int + self.visible_rows as int
                <= self.entries@.len() {
                self.visible_rows as int
            } else if self.scroll_offset as int <= self.entries@.len() {
                self.entries@.len() - self.scroll_offset
            } else {
                0int
            }),
            forall|i: int|
                0 <= i < r@.len() ==> (#[trigger] r@[i]).0 == self.scroll_offset + i && r@[i].1
                    == self.entries@[self.scroll_offset + i],
    {
        let mut r: Vec<(usize, &'a FileEntry)> = Vec::new();
        let mut i: usize = self.scroll_offset;
        if self.scroll_offset > self.entries.len() {
            return r;
        }
        let end: usize = if self.entries.len() - self.scroll_offset > self.visible_rows {
            self.scroll_offset + self.visible_rows
        } else {
            self.entries.len()
        };
        while i < end
            invariant
                self.scroll_offset <= i <= end,
                end <= self.entries@.len(),
                end as int == (if self.scroll_offset as int + self.visible_rows as int
                    <= self.entries@.len() {
                    self.scroll_offset + self.visible_rows
                } else {
                    self.entries@.len() as int
                }),
                r@.len() == i - self.scroll_offset,
                forall|k: int|
                    0 <= k < r@.len() ==> (#[trigger] r@[k]).0 == self.scroll_offset + k
                        && r@[k].1 == self.entries@[self.scroll_offset + k],
            decreases end - i,
        {
            r.push((i, &self.entries[i]));
            i = i + 1;
        }
        r
    }
}

} // verus!
