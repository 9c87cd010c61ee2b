//! The directory layout that gates classification: a single pass over the
//! entries of a FAT directory, one entry at a time, then a look at the marker
//! file's content.

use vstd::prelude::*;
use crate::bytes::same_bytes;
use crate::subsystem::{buffer_class, check_buffer_cfgload_system, SubSystem};

verus! {

/// What one directory entry shows: its name, whether it is a file, whether it
/// is a directory.
pub type EntryView = (Seq<u8>, bool, bool);

/// "cfgload": the marker file.
pub open spec fn cfgload_name() -> Seq<u8> {
    seq![99u8, 102, 103, 108, 111, 97, 100]
}

/// "config.ini": the primary configuration file.
pub open spec fn config_ini_name() -> Seq<u8> {
    seq![99u8, 111, 110, 102, 105, 103, 46, 105, 110, 105]
}

/// "device_trees": the directory of device descriptions.
pub open spec fn device_trees_name() -> Seq<u8> {
    seq![100u8, 101, 118, 105, 99, 101, 95, 116, 114, 101, 101, 115]
}

/// "kernel.img": the boot payload.
pub open spec fn kernel_img_name() -> Seq<u8> {
    seq![107u8, 101, 114, 110, 101, 108, 46, 105, 109, 103]
}

/// "SYSTEM": the installation marker.
pub open spec fn system_name() -> Seq<u8> {
    seq![83u8, 89, 83, 84, 69, 77]
}

/// What the caller does with its handle on the marker file after an entry.
#[derive(Clone, Copy, Debug, PartialEq, Eq, Structural)]
pub enum MarkerUpdate {
    /// The entry is not named like the marker file: keep what is held.
    Unchanged,
    /// The entry is the marker file, as a file: hold this entry.
    Capture,
    /// The entry is named like the marker file but is no file: hold nothing.
    Release,
}

pub open spec fn marker_update(name: Seq<u8>, is_file: bool) -> MarkerUpdate {
    if name == cfgload_name() {
        if is_file {
            MarkerUpdate::Capture
        } else {
            MarkerUpdate::Release
        }
    } else {
        MarkerUpdate::Unchanged
    }
}

/// What has been seen of the required entries so far. Where a name occurs
/// more than once, the last entry of that name decides.
#[derive(Clone, Copy, Debug, PartialEq, Eq, Structural)]
pub struct DirLayout {
    pub config_ini: bool,
    pub device_trees: bool,
    pub kernel_img: bool,
    pub system: bool,
    pub marker: bool,
}

/// The layout after the entries of `entries`, in that order.
pub open spec fn layout_after(entries: Seq<EntryView>) -> DirLayout
    decreases entries.len(),
{
    if entries.len() == 0 {
        DirLayout::empty()
    } else {
        let e = entries.last();
        layout_after(entries.drop_last()).step(e.0, e.1, e.2)
    }
}

/// The class of a directory with the entries `entries`, whose marker file
/// (if it has one) holds `marker`.
pub open spec fn dir_class(entries: Seq<EntryView>, marker: Seq<u8>) -> Option<SubSystem> {
    layout_after(entries).class_of(marker)
}

/// Some entry of `entries` is named `name` and is a file.
pub open spec fn has_file(entries: Seq<EntryView>, name: Seq<u8>) -> bool {
    exists|k: int| 0 <= k < entries.len() && (#[trigger] entries[k]).0 == name && entries[k].1
}

/// Some entry of `entries` is named `name` and is a directory.
pub open spec fn has_dir(entries: Seq<EntryView>, name: Seq<u8>) -> bool {
    exists|k: int| 0 <= k < entries.len() && (#[trigger] entries[k]).0 == name && entries[k].2
}

/// Each flag of the layout is backed by an entry of the right name and kind.
proof fn lemma_flags_witnessed(entries: Seq<EntryView>)
    ensures
        layout_after(entries).config_ini ==> has_file(entries, config_ini_name()),
        layout_after(entries).device_trees ==> has_dir(entries, device_trees_name()),
        layout_after(entries).kernel_img ==> has_file(entries, kernel_img_name()),
        layout_after(entries).system ==> has_file(entries, system_name()),
        layout_after(entries).marker ==> has_file(entries, cfgload_name()),
    decreases entries.len(),
{
    if entries.len() > 0 {
        let init = entries.drop_last();
        lemma_flags_witnessed(init);
        let n = entries.len() - 1;
        assert(forall|k: int| 0 <= k < init.len() ==> init[k] == entries[k]);
        assert(entries[n] == entries.last());
        if has_file(init, config_ini_name()) {
            let k = choose|k: int| 0 <= k < init.len() && (#[trigger] init[k]).0 == config_ini_name() && init[k].1;
            assert(entries[k] == init[k]);
        }
        if has_dir(init, device_trees_name()) {
            let k = choose|k: int| 0 <= k < init.len() && (#[trigger] init[k]).0 == device_trees_name() && init[k].2;
            assert(entries[k] == init[k]);
        }
        if has_file(init, kernel_img_name()) {
            let k = choose|k: int| 0 <= k < init.len() && (#[trigger] init[k]).0 == kernel_img_name() && init[k].1;
            assert(entries[k] == init[k]);
        }
        if has_file(init, system_name()) {
            let k = choose|k: int| 0 <= k < init.len() && (#[trigger] init[k]).0 == system_name() && init[k].1;
            assert(entries[k] == init[k]);
        }
        if has_file(init, cfgload_name()) {
            let k = choose|k: int| 0 <= k < init.len() && (#[trigger] init[k]).0 == cfgload_name() && init[k].1;
            assert(entries[k] == init[k]);
        }
    }
}

/// A directory that lacks any of the four required entries, or holds it as
/// the wrong kind, has no class, whatever its marker file holds.
pub proof fn lemma_required_entry_missing(entries: Seq<EntryView>, marker: Seq<u8>)
    requires
        !has_file(entries, config_ini_name()) || !has_dir(entries, device_trees_name())
            || !has_file(entries, kernel_img_name()) || !has_file(entries, system_name()),
    ensures
        dir_class(entries, marker) == None::<SubSystem>,
{
    lemma_flags_witnessed(entries);
}

/// A directory with no marker file, or with a marker entry that is not a
/// file, has no class, even when the four required entries are there.
pub proof fn lemma_marker_missing(entries: Seq<EntryView>, marker: Seq<u8>)
    requires
        !has_file(entries, cfgload_name()),
    ensures
        dir_class(entries, marker) == None::<SubSystem>,
{
    lemma_flags_witnessed(entries);
}

impl DirLayout {
    pub open spec fn empty() -> DirLayout {
        DirLayout {
            config_ini: false,
            device_trees: false,
            kernel_img: false,
            system: false,
            marker: false,
        }
    }

    /// The layout after one more entry.
    pub open spec fn step(self, name: Seq<u8>, is_file: bool, is_dir: bool) -> DirLayout {
        if name == cfgload_name() {
            DirLayout { marker: is_file, ..self }
        } else if name == config_ini_name() {
            DirLayout { config_ini: is_file, ..self }
        } else if name == device_trees_name() {
            DirLayout { device_trees: is_dir, ..self }
        } else if name == kernel_img_name() {
            DirLayout { kernel_img: is_file, ..self }
        } else if name == system_name() {
            DirLayout { system: is_file, ..self }
        } else {
            self
        }
    }

    /// The four required entries are there, each of its kind.
    pub open spec fn complete(self) -> bool {
        self.config_ini && self.device_trees && self.kernel_img && self.system
    }

    /// The layout is complete and a marker file is held.
    pub open spec fn ready(self) -> bool {
        self.complete() && self.marker
    }

    /// The class that this layout, with a marker file holding `marker`, yields.
    pub open spec fn class_of(self, marker: Seq<u8>) -> Option<SubSystem> {
        if self.ready() {
            buffer_class(marker)
        } else {
            None
        }
    }

    /// A layout before any entry has been seen.
    pub fn new() -> (r: DirLayout)
        ensures
            r == DirLayout::empty(),
    {
        DirLayout {
            config_ini: false,
            device_trees: false,
            kernel_img: false,
            system: false,
            marker: false,
        }
    }

    /// Takes one directory entry into account; says what to do with the
    /// handle on the marker file.
    pub fn observe(&mut self, name: &[u8], is_file: bool, is_dir: bool) -> (r: MarkerUpdate)
        ensures
            *final(self) == old(self).step(name@, is_file, is_dir),
            r == marker_update(name@, is_file),
    {
        let cfgload = vec![99u8, 102, 103, 108, 111, 97, 100];
        let config_ini = vec![99u8, 111, 110, 102, 105, 103, 46, 105, 110, 105];
        let device_trees = vec![100u8, 101, 118, 105, 99, 101, 95, 116, 114, 101, 101, 115];
        let kernel_img = vec![107u8, 101, 114, 110, 101, 108, 46, 105, 109, 103];
        let system = vec![83u8, 89, 83, 84, 69, 77];
        assert(cfgload@ =~= cfgload_name());
        assert(config_ini@ =~= config_ini_name());
        assert(device_trees@ =~= device_trees_name());
        assert(kernel_img@ =~= kernel_img_name());
        assert(system@ =~= system_name());
        if same_bytes(name, cfgload.as_slice()) {
            self.marker = is_file;
            if is_file {
                MarkerUpdate::Capture
            } else {
                MarkerUpdate::Release
            }
        } else {
            if same_bytes(name, config_ini.as_slice()) {
                self.config_ini = is_file;
            } else if same_bytes(name, device_trees.as_slice()) {
                self.device_trees = is_dir;
            } else if same_bytes(name, kernel_img.as_slice()) {
                self.kernel_img = is_file;
            } else if same_bytes(name, system.as_slice()) {
                self.system = is_file;
            }
            MarkerUpdate::Unchanged
        }
    }

    /// Whether the marker file's content is needed: all four required entries
    /// are there and a marker file is held.
    pub fn wants_marker(&self) -> (r: bool)
        ensures
            r == self.ready(),
    {
        self.config_ini && self.device_trees && self.kernel_img && self.system && self.marker
    }

    /// The class of the directory, given the content of the marker file held.
    pub fn classify(&self, marker: &[u8]) -> (r: Option<SubSystem>)
        ensures
            r == self.class_of(marker@),
    {
        if self.wants_marker() {
            check_buffer_cfgload_system(marker)
        } else {
            None
        }
    }
}

} // verus!
