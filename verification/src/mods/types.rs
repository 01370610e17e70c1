use vstd::prelude::*;

verus! {

/// Where a downloaded mod comes from, with its id in that store.
#[derive(Debug)]
pub enum ModId {
    Modrinth(String),
    Curseforge(String),
}

/// What the mod list reads of the record of a downloaded mod.
#[derive(Debug)]
pub struct ModConfig {
    pub name: String,
    pub manually_installed: bool,
    pub enabled: bool,
}

/// An entry of the mod list: a mod downloaded from a store, or a jar file
/// the user put in the mods folder.
#[derive(Debug)]
pub enum ModListEntry {
    Downloaded { id: ModId, config: ModConfig },
    Local { file_name: String },
}

/// A mod picked in the mod list.
#[derive(Debug)]
pub enum SelectedMod {
    Downloaded { name: String, id: ModId },
    Local { file_name: String },
}

/// The value of a mod id.
pub enum IdView {
    Modrinth(Seq<char>),
    Curseforge(Seq<char>),
}

/// The value of a mod list entry.
pub enum EntryView {
    Downloaded { id: IdView, name: Seq<char>, manual: bool, enabled: bool },
    Local { file_name: Seq<char> },
}

/// The value of a picked mod.
pub enum PickView {
    Downloaded { name: Seq<char>, id: IdView },
    Local { file_name: Seq<char> },
}

impl View for ModId {
    type V = IdView;

    open spec fn view(&self) -> IdView {
        match self {
            ModId::Modrinth(s) => IdView::Modrinth(s@),
            ModId::Curseforge(s) => IdView::Curseforge(s@),
        }
    }
}

impl View for ModListEntry {
    type V = EntryView;

    open spec fn view(&self) -> EntryView {
        match self {
            ModListEntry::Downloaded { id, config } => EntryView::Downloaded {
                id: id@,
                name: config.name@,
                manual: config.manually_installed,
                enabled: config.enabled,
            },
            ModListEntry::Local { file_name } => EntryView::Local { file_name: file_name@ },
        }
    }
}

impl View for SelectedMod {
    type V = PickView;

    open spec fn view(&self) -> PickView {
        match self {
            SelectedMod::Downloaded { name, id } => PickView::Downloaded { name: name@, id: id@ },
            SelectedMod::Local { file_name } => PickView::Local { file_name: file_name@ },
        }
    }
}

/// The values of a sequence of entries.
pub open spec fn entry_views(s: Seq<ModListEntry>) -> Seq<EntryView> {
    Seq::new(s.len(), |i: int| s[i]@)
}

/// The values of a sequence of picked mods.
pub open spec fn pick_views(s: Seq<SelectedMod>) -> Seq<PickView> {
    Seq::new(s.len(), |i: int| s[i]@)
}

/// The pick that stands for an entry.
pub open spec fn pick_of(e: EntryView) -> PickView {
    match e {
        EntryView::Downloaded { id, name, .. } => PickView::Downloaded { name, id },
        EntryView::Local { file_name } => PickView::Local { file_name },
    }
}

pub open spec fn entry_name(e: EntryView) -> Seq<char> {
    match e {
        EntryView::Downloaded { name, .. } => name,
        EntryView::Local { file_name } => file_name,
    }
}

pub open spec fn entry_manual(e: EntryView) -> bool {
    match e {
        EntryView::Downloaded { manual, .. } => manual,
        EntryView::Local { .. } => true,
    }
}

impl Clone for ModId {
    fn clone(&self) -> (r: Self)
        ensures
            r == *self,
    {
        match self {
            ModId::Modrinth(s) => ModId::Modrinth(s.clone()),
            ModId::Curseforge(s) => ModId::Curseforge(s.clone()),
        }
    }
}

impl Clone for ModConfig {
    fn clone(&self) -> (r: Self)
        ensures
            r == *self,
    {
        ModConfig { name: self.name.clone(), manually_installed: self.manually_installed, enabled: self.enabled }
    }
}

impl Clone for ModListEntry {
    fn clone(&self) -> (r: Self)
        ensures
            r == *self,
    {
        match self {
            ModListEntry::Downloaded { id, config } => ModListEntry::Downloaded { id: id.clone(), config: config.clone() },
            ModListEntry::Local { file_name } => ModListEntry::Local { file_name: file_name.clone() },
        }
    }
}

impl Clone for SelectedMod {
    fn clone(&self) -> (r: Self)
        ensures
            r == *self,
    {
        match self {
            SelectedMod::Downloaded { name, id } => SelectedMod::Downloaded { name: name.clone(), id: id.clone() },
            SelectedMod::Local { file_name } => SelectedMod::Local { file_name: file_name.clone() },
        }
    }
}

impl ModId {
    /// Whether two ids are the same.
    pub fn same_as(&self, other: &ModId) -> (r: bool)
        ensures
            r == (self@ == other@),
    {
        match (self, other) {
            (ModId::Modrinth(a), ModId::Modrinth(b)) => *a == *b,
            (ModId::Curseforge(a), ModId::Curseforge(b)) => *a == *b,
            _ => false,
        }
    }
}

impl ModListEntry {
    /// Whether the user installed the mod themselves, rather than as a
    /// dependency of another.
    pub fn is_manually_installed(&self) -> (r: bool)
        ensures
            r == entry_manual(self@),
    {
        match self {
            ModListEntry::Local { .. } => true,
            ModListEntry::Downloaded { config, .. } => config.manually_installed,
        }
    }

    /// The shown name: the mod's name, or the file name of a local jar.
    pub fn name(&self) -> (r: &str)
        ensures
            r@ == entry_name(self@),
    {
        match self {
            ModListEntry::Local { file_name } => file_name.as_str(),
            ModListEntry::Downloaded { config, .. } => config.name.as_str(),
        }
    }
}

impl SelectedMod {
    /// The pick that stands for a mod list entry.
    pub fn from_entry(value: ModListEntry) -> (r: SelectedMod)
        ensures
            r@ == pick_of(value@),
    {
        match value {
            ModListEntry::Local { file_name } => SelectedMod::Local { file_name },
            ModListEntry::Downloaded { id, config } => SelectedMod::Downloaded { name: config.name, id },
        }
    }

    /// Whether this pick stands for the entry.
    pub fn is_entry(&self, other: &ModListEntry) -> (r: bool)
        ensures
            r == (self@ == pick_of(other@)),
    {
        match (self, other) {
            (SelectedMod::Downloaded { name, id }, ModListEntry::Downloaded { id: id2, config }) => {
                id.same_as(id2) && *name == config.name
            },
            (SelectedMod::Local { file_name }, ModListEntry::Local { file_name: name2 }) => *file_name == *name2,
            _ => false,
        }
    }

    /// Whether two picks are the same.
    pub fn same_as(&self, other: &SelectedMod) -> (r: bool)
        ensures
            r == (self@ == other@),
    {
        match (self, other) {
            (SelectedMod::Downloaded { name, id }, SelectedMod::Downloaded { name: name2, id: id2 }) => {
                id.same_as(id2) && *name == *name2
            },
            (SelectedMod::Local { file_name }, SelectedMod::Local { file_name: name2 }) => *file_name == *name2,
            _ => false,
        }
    }
}

impl From<ModListEntry> for SelectedMod {
    fn from(value: ModListEntry) -> (r: SelectedMod) {
        match value {
            ModListEntry::Local { file_name } => SelectedMod::Local { file_name },
            ModListEntry::Downloaded { id, config } => SelectedMod::Downloaded { name: config.name, id },
        }
    }
}

impl vstd::std_specs::convert::FromSpecImpl<ModListEntry> for SelectedMod {
    open spec fn obeys_from_spec() -> bool {
        true
    }

    open spec fn from_spec(value: ModListEntry) -> SelectedMod {
        match value {
            ModListEntry::Local { file_name } => SelectedMod::Local { file_name },
            ModListEntry::Downloaded { id, config } => SelectedMod::Downloaded { name: config.name, id },
        }
    }
}

} // verus!
