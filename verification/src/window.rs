//! State the presentation layer keeps between frames: the archive on display,
//! the path it was opened from, the search text, and the current selection.
//! All rendering and input handling lives outside the library; these methods
//! are the state transitions its buttons and lists perform.
use crate::archive::Archive;
use vstd::prelude::*;

verus! {

/// The viewer's state: the open archive, the path it came from, the search
/// text, the selected record and its decoded bytes, and whether the last
/// attempt to open a file failed.
pub struct Window {
    pub file_search: String,
    pub wad: Archive,
    pub wad_path: String,
    pub selected_record: String,
    pub selected_record_buffer: Vec<u8>,
    pub invalid_file_found: bool,
}

impl Window {
    /// A fresh window: no archive, nothing searched, nothing selected.
    pub fn new() -> (w: Window)
        ensures
            w.file_search@ == Seq::<char>::empty(),
            w.wad.wf(),
            w.wad@.records.len() == 0,
            w.wad_path@ == Seq::<char>::empty(),
            w.selected_record@ == Seq::<char>::empty(),
            w.selected_record_buffer@ == Seq::<u8>::empty(),
            !w.invalid_file_found,
    {
        Window {
            file_search: String::new(),
            wad: Archive::default(),
            wad_path: String::new(),
            selected_record: String::new(),
            selected_record_buffer: Vec::new(),
            invalid_file_found: false,
        }
    }

    /// Takes a freshly opened archive on display: the failure flag, the
    /// search text, and the selection are reset; the path field stays as the
    /// user typed it.
    pub fn set_archive(&mut self, wad: Archive)
        ensures
            final(self).wad == wad,
            !final(self).invalid_file_found,
            final(self).file_search@ == Seq::<char>::empty(),
            final(self).selected_record@ == Seq::<char>::empty(),
            final(self).selected_record_buffer@ == Seq::<u8>::empty(),
            final(self).wad_path == old(self).wad_path,
    {
        self.wad = wad;
        self.invalid_file_found = false;
        self.file_search = String::new();
        self.selected_record = String::new();
        self.selected_record_buffer = Vec::new();
    }

    /// Records that the last attempt to open a file failed; nothing else
    /// changes.
    pub fn mark_invalid_file(&mut self)
        ensures
            final(self).invalid_file_found,
            final(self).wad == old(self).wad,
            final(self).file_search == old(self).file_search,
            final(self).wad_path == old(self).wad_path,
            final(self).selected_record == old(self).selected_record,
            final(self).selected_record_buffer == old(self).selected_record_buffer,
    {
        self.invalid_file_found = true;
    }

    /// Selects a record by name and drops the previously decoded bytes, so
    /// the next frame reads the newly selected record.
    pub fn select_record(&mut self, name: String)
        ensures
            final(self).selected_record == name,
            final(self).selected_record_buffer@ == Seq::<u8>::empty(),
            final(self).wad == old(self).wad,
            final(self).file_search == old(self).file_search,
            final(self).wad_path == old(self).wad_path,
            final(self).invalid_file_found == old(self).invalid_file_found,
    {
        self.selected_record = name;
        self.selected_record_buffer = Vec::new();
    }
}

impl Default for Window {
    /// Same as `new`: a window with no archive and nothing selected.
    fn default() -> (w: Window)
        ensures
            w.file_search@ == Seq::<char>::empty(),
            w.wad.wf(),
            w.wad@.records.len() == 0,
            w.wad_path@ == Seq::<char>::empty(),
            w.selected_record@ == Seq::<char>::empty(),
            w.selected_record_buffer@ == Seq::<u8>::empty(),
            !w.invalid_file_found,
    {
        Window::new()
    }
}

} // verus!
