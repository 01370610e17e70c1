use vstd::prelude::*;

verus! {

/// Where a launcher shortcut is put: in the applications menu, on the
/// desktop, or both.
#[derive(Debug, Clone, Copy, PartialEq, Eq, Structural)]
pub struct ShortcutTargets {
    pub add_to_menu: bool,
    pub add_to_desktop: bool,
}

/// The places after the applications menu is ticked or unticked; unticking
/// it is refused while the desktop is not ticked.
pub open spec fn menu_toggled(t: ShortcutTargets, on: bool) -> ShortcutTargets {
    if on || t.add_to_desktop {
        ShortcutTargets { add_to_menu: on, ..t }
    } else {
        t
    }
}

/// The places after the desktop is ticked or unticked; unticking it is
/// refused while the applications menu is not ticked.
pub open spec fn desktop_toggled(t: ShortcutTargets, on: bool) -> ShortcutTargets {
    if on || t.add_to_menu {
        ShortcutTargets { add_to_desktop: on, ..t }
    } else {
        t
    }
}

impl ShortcutTargets {
    /// At least one place is chosen.
    pub open spec fn wf(self) -> bool {
        self.add_to_menu || self.add_to_desktop
    }

    /// A new shortcut goes to the applications menu only.
    pub fn new() -> (r: ShortcutTargets)
        ensures
            r.add_to_menu && !r.add_to_desktop,
    {
        ShortcutTargets { add_to_menu: true, add_to_desktop: false }
    }

    /// Ticks or unticks the applications menu (see `menu_toggled`).
    pub fn toggle_menu(&mut self, on: bool)
        ensures
            *final(self) == menu_toggled(*old(self), on),
    {
        if on || self.add_to_desktop {
            self.add_to_menu = on;
        }
    }

    /// Ticks or unticks the desktop (see `desktop_toggled`).
    pub fn toggle_desktop(&mut self, on: bool)
        ensures
            *final(self) == desktop_toggled(*old(self), on),
    {
        if on || self.add_to_menu {
            self.add_to_desktop = on;
        }
    }
}

/// A shortcut always has somewhere to go: from places with one chosen, no
/// tick or untick leaves none.
pub proof fn law_shortcut_keeps_a_target(t: ShortcutTargets, on: bool)
    requires
        t.wf(),
    ensures
        menu_toggled(t, on).wf(),
        desktop_toggled(t, on).wf(),
{
}

} // verus!
