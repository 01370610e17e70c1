use vstd::prelude::*;
use crate::menu::AutoSaveKind;
use crate::message::{changes_config, EditInstanceMessage, ListMessage};

verus! {

/// What is saved already, or blocked from being auto-saved. Taking a kind
/// out marks a change to it; putting it in marks it saved, so that it needs
/// no saving again until the next change.
#[derive(Debug, Clone, Copy, PartialEq, Eq, Structural)]
pub struct AutoSave {
    pub launcher_config: bool,
    pub instance_config: bool,
    pub jarmods: bool,
}

/// Whether the kind is marked in the three flags.
pub open spec fn has_kind(a: AutoSave, k: AutoSaveKind) -> bool {
    match k {
        AutoSaveKind::LauncherConfig => a.launcher_config,
        AutoSaveKind::InstanceConfig => a.instance_config,
        AutoSaveKind::Jarmods => a.jarmods,
    }
}

impl View for AutoSave {
    type V = Set<AutoSaveKind>;

    open spec fn view(&self) -> Set<AutoSaveKind> {
        Set::new(|k: AutoSaveKind| has_kind(*self, k))
    }
}

impl AutoSave {
    /// Nothing saved yet.
    pub fn new() -> (r: AutoSave)
        ensures
            r@ == Set::<AutoSaveKind>::empty(),
    {
        let r = AutoSave { launcher_config: false, instance_config: false, jarmods: false };
        proof {
            assert(r@ =~= Set::<AutoSaveKind>::empty());
        }
        r
    }

    /// Whether the kind is marked saved.
    pub fn contains(&self, kind: AutoSaveKind) -> (r: bool)
        ensures
            r == self@.contains(kind),
    {
        match kind {
            AutoSaveKind::LauncherConfig => self.launcher_config,
            AutoSaveKind::InstanceConfig => self.instance_config,
            AutoSaveKind::Jarmods => self.jarmods,
        }
    }

    /// Marks the kind saved; true when it was not marked before.
    pub fn insert(&mut self, kind: AutoSaveKind) -> (r: bool)
        ensures
            final(self)@ == old(self)@.insert(kind),
            r == !old(self)@.contains(kind),
    {
        let was = self.contains(kind);
        match kind {
            AutoSaveKind::LauncherConfig => self.launcher_config = true,
            AutoSaveKind::InstanceConfig => self.instance_config = true,
            AutoSaveKind::Jarmods => self.jarmods = true,
        }
        proof {
            assert(self@ =~= old(self)@.insert(kind));
        }
        !was
    }

    /// Marks a change to the kind, so that it is saved again; true when it
    /// was marked before.
    pub fn remove(&mut self, kind: AutoSaveKind) -> (r: bool)
        ensures
            final(self)@ == old(self)@.remove(kind),
            r == old(self)@.contains(kind),
    {
        let was = self.contains(kind);
        match kind {
            AutoSaveKind::LauncherConfig => self.launcher_config = false,
            AutoSaveKind::InstanceConfig => self.instance_config = false,
            AutoSaveKind::Jarmods => self.jarmods = false,
        }
        proof {
            assert(self@ =~= old(self)@.remove(kind));
        }
        was
    }
}

/// Whether the launcher configuration is written on a tick: on every fifth
/// tick, when it changed since it was last written.
pub open spec fn launcher_config_is_due(a: Set<AutoSaveKind>, tick: int) -> bool {
    tick % 5 == 0 && !a.contains(AutoSaveKind::LauncherConfig)
}

/// What is marked saved after the launcher configuration was checked on a
/// tick.
pub open spec fn after_launcher_config_check(a: Set<AutoSaveKind>, tick: int) -> Set<AutoSaveKind> {
    if tick % 5 == 0 {
        a.insert(AutoSaveKind::LauncherConfig)
    } else {
        a
    }
}

/// Whether the launcher configuration is written on this tick (see
/// `launcher_config_is_due`). Marks it saved on every fifth tick.
pub fn launcher_config_due(autosave: &mut AutoSave, tick_timer: usize) -> (r: bool)
    ensures
        r == launcher_config_is_due(old(autosave)@, tick_timer as int),
        final(autosave)@ == after_launcher_config_check(old(autosave)@, tick_timer as int),
{
    tick_timer % 5 == 0 && autosave.insert(AutoSaveKind::LauncherConfig)
}

/// Whether the configuration of the instance being edited is written on this
/// tick: when it changed since it was last written, and on every fifth tick
/// anyway. Marks it saved.
pub fn instance_config_due(autosave: &mut AutoSave, tick_timer: usize) -> (r: bool)
    ensures
        r == (!old(autosave)@.contains(AutoSaveKind::InstanceConfig) || tick_timer % 5 == 0),
        final(autosave)@ == old(autosave)@.insert(AutoSaveKind::InstanceConfig),
{
    autosave.insert(AutoSaveKind::InstanceConfig) || tick_timer % 5 == 0
}

/// Whether the jar mod list is written on this tick: when it changed since it
/// was last written. Marks it saved.
pub fn jarmods_due(autosave: &mut AutoSave) -> (r: bool)
    ensures
        r == !old(autosave)@.contains(AutoSaveKind::Jarmods),
        final(autosave)@ == old(autosave)@.insert(AutoSaveKind::Jarmods),
{
    autosave.insert(AutoSaveKind::Jarmods)
}

/// The marks of what is saved after an event of the instance editing
/// screen is noted.
pub open spec fn after_instance_edit(a: Set<AutoSaveKind>, m: EditInstanceMessage) -> Set<AutoSaveKind> {
    if changes_config(m) {
        a.remove(AutoSaveKind::InstanceConfig)
    } else {
        a
    }
}

/// Takes note of an event of the instance editing screen: one that changes
/// the instance's configuration marks it changed.
pub fn note_instance_edit(autosave: &mut AutoSave, message: &EditInstanceMessage)
    ensures
        final(autosave)@ == after_instance_edit(old(autosave)@, *message),
        final(autosave)@ == (if changes_config(*message) {
            old(autosave)@.remove(AutoSaveKind::InstanceConfig)
        } else {
            old(autosave)@
        }),
{
    if message.edits_config() {
        autosave.remove(AutoSaveKind::InstanceConfig);
    }
}

/// Once the launcher configuration was due and written, it is not due again
/// until a change to it is marked; after a change it is due on the next
/// fifth tick.
pub proof fn law_launcher_config_saved_until_changed(a: Set<AutoSaveKind>, t1: int, t2: int)
    requires
        launcher_config_is_due(a, t1),
    ensures
        !launcher_config_is_due(after_launcher_config_check(a, t1), t2),
        launcher_config_is_due(after_launcher_config_check(a, t1).remove(AutoSaveKind::LauncherConfig), t2) == (t2 % 5
            == 0),
{
}


/// Every edit of one of the instance's argument lists (Java arguments, game
/// arguments, the pre-launch prefix) changes the instance's configuration:
/// once noted, the configuration is no longer marked saved, so it is written
/// on the next tick, while the other marks stay as they were.
pub proof fn law_argument_edits_are_saved(a: Set<AutoSaveKind>, l: ListMessage, k: AutoSaveKind)
    requires
        k != AutoSaveKind::InstanceConfig,
    ensures
        !after_instance_edit(a, EditInstanceMessage::JavaArgs(l)).contains(AutoSaveKind::InstanceConfig),
        !after_instance_edit(a, EditInstanceMessage::GameArgs(l)).contains(AutoSaveKind::InstanceConfig),
        !after_instance_edit(a, EditInstanceMessage::PreLaunchPrefix(l)).contains(AutoSaveKind::InstanceConfig),
        after_instance_edit(a, EditInstanceMessage::JavaArgs(l)).contains(k) == a.contains(k),
        after_instance_edit(a, EditInstanceMessage::GameArgs(l)).contains(k) == a.contains(k),
        after_instance_edit(a, EditInstanceMessage::PreLaunchPrefix(l)).contains(k) == a.contains(k),
{
}


/// Renaming, argument splitting, reinstalling and the results of loading or
/// saving leave the marks of what is saved as they were.
pub proof fn law_non_edits_keep_marks(a: Set<AutoSaveKind>, t: bool, name: String)
    ensures
        after_instance_edit(a, EditInstanceMessage::RenameToggle) == a,
        after_instance_edit(a, EditInstanceMessage::RenameApply) == a,
        after_instance_edit(a, EditInstanceMessage::RenameEdit(name)) == a,
        after_instance_edit(a, EditInstanceMessage::ToggleSplitArg(t)) == a,
        after_instance_edit(a, EditInstanceMessage::ReinstallLibraries) == a,
        after_instance_edit(a, EditInstanceMessage::UpdateAssets) == a,
{
}

} // verus!
