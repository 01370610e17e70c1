use vstd::prelude::*;
use crate::text::{strs, words, split_words, has_char, lemma_strs_push};

verus! {

/// How the mods of an instance are exported.
#[derive(Debug, Clone, Copy, PartialEq, Eq, Structural)]
pub enum ExportModsMessage {
    ExportAsPlainText,
    ExportAsMarkdown,
    CopyMarkdownToClipboard,
    CopyPlainTextToClipboard,
}

/// Events of the OptiFine installation screen.
#[derive(Debug)]
pub enum InstallOptifineMessage {
    ScreenOpen,
    SelectInstallerStart,
    DeleteInstallerToggle(bool),
    End(Result<(), String>),
}

/// Window events from custom title bar buttons.
#[derive(Debug, Clone, Copy, PartialEq, Eq, Structural)]
pub enum WindowMessage {
    Dragged,
    ClickClose,
    ClickMinimize,
    ClickMaximize,
}

/// Events of the shortcut creation screen.
#[derive(Debug)]
pub enum ShortcutMessage {
    Open,
    OpenFolder,
    ToggleAddToMenu(bool),
    ToggleAddToDesktop(bool),
    EditName(String),
    EditDescription(String),
    AccountSelected(String),
    AccountOffline(String),
    SaveCustom,
    SaveCustomPicked(String),
    SaveMenu,
    Done(Result<(), String>),
}

/// Events of the instance editing screen. The slider position of
/// `MemoryChanged`, the main class mode of `SetMainClass` and the mode of
/// `PreLaunchPrefixModeChanged` are carried by the interface.
#[derive(Debug)]
pub enum EditInstanceMessage {
    ConfigSaved(Result<(), String>),
    ReinstallLibraries,
    UpdateAssets,
    BrowseJavaOverride,
    JavaOverride(String),
    JavaOverrideVersion(usize),
    MemoryChanged,
    MemoryInputChanged(String),
    LoggingToggle(bool),
    SetMainClass(Option<String>),
    JavaArgs(ListMessage),
    JavaArgsModeChanged(bool),
    GameArgs(ListMessage),
    ToggleSplitArg(bool),
    PreLaunchPrefix(ListMessage),
    PreLaunchPrefixModeChanged,
    RenameEdit(String),
    RenameApply,
    RenameToggle,
    WindowWidthChanged(String),
    WindowHeightChanged(String),
    CustomJarPathChanged(String),
    CustomJarLoaded(Result<Vec<String>, String>),
}

/// Whether an event of the instance editing screen changes the instance's
/// configuration (so that it must be saved again): renaming, argument
/// splitting, reinstalling and the results of loading and saving do not.
pub open spec fn changes_config(m: EditInstanceMessage) -> bool {
    !(m is ConfigSaved || m is ReinstallLibraries || m is UpdateAssets || m is RenameToggle || m is ToggleSplitArg
        || m is RenameEdit || m is RenameApply || m is CustomJarLoaded)
}

impl EditInstanceMessage {
    /// Whether the event changes the instance's configuration (see
    /// `changes_config`).
    pub fn edits_config(&self) -> (r: bool)
        ensures
            r == changes_config(*self),
    {
        match self {
            EditInstanceMessage::ReinstallLibraries
            | EditInstanceMessage::UpdateAssets
            | EditInstanceMessage::RenameToggle
            | EditInstanceMessage::ToggleSplitArg(_)
            | EditInstanceMessage::RenameEdit(_)
            | EditInstanceMessage::RenameApply
            | EditInstanceMessage::CustomJarLoaded(_)
            | EditInstanceMessage::ConfigSaved(_) => false,
            EditInstanceMessage::MemoryChanged
            | EditInstanceMessage::MemoryInputChanged(_)
            | EditInstanceMessage::LoggingToggle(_)
            | EditInstanceMessage::SetMainClass(_)
            | EditInstanceMessage::JavaArgs(_)
            | EditInstanceMessage::JavaArgsModeChanged(_)
            | EditInstanceMessage::GameArgs(_)
            | EditInstanceMessage::PreLaunchPrefix(_)
            | EditInstanceMessage::PreLaunchPrefixModeChanged
            | EditInstanceMessage::JavaOverride(_)
            | EditInstanceMessage::JavaOverrideVersion(_)
            | EditInstanceMessage::WindowWidthChanged(_)
            | EditInstanceMessage::WindowHeightChanged(_)
            | EditInstanceMessage::CustomJarPathChanged(_)
            | EditInstanceMessage::BrowseJavaOverride => true,
        }
    }
}

/// An edit of an editable list of strings (such as Java arguments).
#[derive(Debug)]
pub enum ListMessage {
    Add,
    Edit(String, usize),
    Delete(usize),
    ShiftUp(usize),
    ShiftDown(usize),
}

/// The two entries at `i` and `j` exchanged.
pub open spec fn swapped(l: Seq<Seq<char>>, i: int, j: int) -> Seq<Seq<char>> {
    l.update(i, l[j]).update(j, l[i])
}

/// The list after the edit. An edit in split mode whose text holds a space
/// replaces the entry by the words of the text.
pub open spec fn list_after(m: ListMessage, l: Seq<Seq<char>>, split: bool) -> Seq<Seq<char>> {
    match m {
        ListMessage::Add => l.push(Seq::empty()),
        ListMessage::Edit(msg, idx) => if split && msg@.contains(' ') {
            l.take(idx as int) + words(msg@) + l.skip(idx + 1)
        } else if idx < l.len() {
            l.update(idx as int, msg@)
        } else {
            l
        },
        ListMessage::Delete(i) => if i < l.len() {
            l.remove(i as int)
        } else {
            l
        },
        ListMessage::ShiftUp(idx) => if idx > 0 {
            swapped(l, idx as int, idx - 1)
        } else {
            l
        },
        ListMessage::ShiftDown(idx) => if idx + 1 < l.len() {
            swapped(l, idx as int, idx + 1)
        } else {
            l
        },
    }
}

/// The inputs on which an edit can be applied: a split edit and a shift up
/// name an existing entry, and a shift down an index below the largest.
pub open spec fn list_edit_ok(m: ListMessage, len: nat, split: bool) -> bool {
    match m {
        ListMessage::Edit(msg, idx) => split && msg@.contains(' ') ==> idx < len,
        ListMessage::ShiftUp(idx) => idx > 0 ==> idx < len,
        ListMessage::ShiftDown(idx) => idx < usize::MAX,
        _ => true,
    }
}

/// Moves the entry at `from` to position `to` of a list whose other entries
/// keep their order; for adjacent positions this exchanges two entries.
fn move_adjacent(l: &mut Vec<String>, from: usize, to: usize)
    requires
        from < old(l).len(),
        to < old(l).len(),
        to + 1 == from || from + 1 == to,
    ensures
        strs(final(l)@) == swapped(strs(old(l)@), from as int, to as int),
{
    let ghost s0 = strs(l@);
    let x = l.remove(from);
    l.insert(to, x);
    proof {
        assert(strs(l@) =~= swapped(s0, from as int, to as int));
    }
}

impl ListMessage {
    /// Applies the edit to the list.
    pub fn apply(self, l: &mut Vec<String>, split: bool)
        requires
            list_edit_ok(self, old(l)@.len(), split),
        ensures
            strs(final(l)@) == list_after(self, strs(old(l)@), split),
    {
        let ghost s0 = strs(l@);
        let ghost m = self;
        match self {
            ListMessage::Add => {
                let ghost before = l@;
                l.push(String::new());
                proof {
                    lemma_strs_push(before, l@.last());
                }
            },
            ListMessage::Edit(msg, idx) => {
                if split && has_char(msg.as_str(), ' ') {
                    let ws = split_words(msg.as_str());
                    l.remove(idx);
                    proof {
                        assert(strs(l@) =~= s0.take(idx as int) + strs(ws@).take(0) + s0.skip(idx + 1));
                    }
                    let mut k: usize = 0;
                    while k < ws.len()
                        invariant
                            0 <= k <= ws.len(),
                            idx <= s0.len() - 1,
                            strs(ws@) == words(msg@),
                            strs(l@) == s0.take(idx as int) + strs(ws@).take(k as int) + s0.skip(idx + 1),
                        decreases ws.len() - k,
                    {
                        let ghost before = strs(l@);
                        let ghost bl = l@;
                        assert(strs(l@).len() == l@.len());
                        assert(idx + k <= l.len());
                        let w = ws[k].clone();
                        l.insert(idx + k, w);
                        proof {
                            assert(strs(ws@)[k as int] == ws@[k as int]@);
                            assert(strs(l@) =~= before.insert(idx + k, w@));
                            assert(strs(ws@).take(k + 1) =~= strs(ws@).take(k as int).push(w@));
                            assert(strs(l@) =~= s0.take(idx as int) + strs(ws@).take(k + 1) + s0.skip(idx + 1));
                        }
                        k += 1;
                    }
                    proof {
                        assert(strs(ws@).take(ws.len() as int) =~= strs(ws@));
                    }
                } else if idx < l.len() {
                    l[idx] = msg;
                    proof {
                        assert(strs(l@) =~= s0.update(idx as int, m->Edit_0@));
                    }
                }
            },
            ListMessage::Delete(i) => {
                if i < l.len() {
                    l.remove(i);
                    proof {
                        assert(strs(l@) =~= s0.remove(i as int));
                    }
                }
            },
            ListMessage::ShiftUp(idx) => {
                if idx > 0 {
                    move_adjacent(l, idx, idx - 1);
                }
            },
            ListMessage::ShiftDown(idx) => {
                if idx + 1 < l.len() {
                    move_adjacent(l, idx, idx + 1);
                }
            },
        }
    }
}

/// Shifting an entry up and then shifting it back down gives back the list.
pub proof fn law_shift_up_then_down(l: Seq<Seq<char>>, i: usize, split: bool)
    requires
        0 < i < l.len(),
    ensures
        list_after(ListMessage::ShiftDown((i - 1) as usize), list_after(ListMessage::ShiftUp(i), l, split), split) == l,
{
    assert(swapped(swapped(l, i as int, i - 1), i - 1, i as int) =~= l);
}

} // verus!
