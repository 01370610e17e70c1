use vstd::prelude::*;
use crate::instance::InstanceKind;
use crate::text::str_eq;
use crate::menu::{LaunchTab, LauncherSettingsTab, LicenseTab, MenuWelcome, settings_next, settings_prev, license_next, license_prev};

verus! {

/// What the keyboard shortcuts need to know of the current screen.
#[derive(Debug, Clone, Copy, PartialEq, Eq, Structural)]
pub enum ScreenKind {
    Launch { is_viewing_server: bool },
    EditMods { searching: bool },
    EditJarMods,
    CreateChoosing { list_loaded: bool },
    ModsDownload,
    ManagePresets,
    InstallOptifineChoosing,
    LauncherSettings { tab: LauncherSettingsTab },
    License { tab: LicenseTab },
    Welcome { page: MenuWelcome },
    Other,
}

/// A pressed key: a character, or one of the named keys the launcher uses.
#[derive(Debug)]
pub enum KeyInput {
    Character(String),
    Escape,
    ArrowUp,
    ArrowDown,
    Enter,
    Backspace,
    Other,
}

/// The value of a pressed key.
pub enum KeyView {
    Character(Seq<char>),
    Escape,
    ArrowUp,
    ArrowDown,
    Enter,
    Backspace,
    Other,
}

impl View for KeyInput {
    type V = KeyView;

    open spec fn view(&self) -> KeyView {
        match self {
            KeyInput::Character(s) => KeyView::Character(s@),
            KeyInput::Escape => KeyView::Escape,
            KeyInput::ArrowUp => KeyView::ArrowUp,
            KeyInput::ArrowDown => KeyView::ArrowDown,
            KeyInput::Enter => KeyView::Enter,
            KeyInput::Backspace => KeyView::Backspace,
            KeyInput::Other => KeyView::Other,
        }
    }
}

/// What a key press does.
#[derive(Debug, Clone, Copy, PartialEq, Eq, Structural)]
pub enum KeyAction {
    /// Go back from the current screen.
    EscapeBack,
    Quit,
    ModsSelectAll,
    ModsCloseSearch,
    ModsOpenSearch,
    FocusNext,
    JarModsSelectAll,
    CreateInstanceOpen { is_server: bool },
    ChangeLaunchTab(LaunchTab),
    OpenSettings,
    SettingsTab(LauncherSettingsTab),
    LicenseTab(LicenseTab),
    SelectInstance { down: bool },
    LaunchStart,
    LaunchKill,
    CreateStart,
    /// The first-run screen moves to this page.
    WelcomePage(MenuWelcome),
    /// The first-run screen is done; the home screen opens.
    WelcomeDone,
    /// A character with no shortcut.
    Nothing,
    /// A key with no effect but being remembered as held.
    Record,
}

/// The action of a character key with the command (ctrl or cmd) and alt
/// modifiers, whether no widget took the key, on a screen.
pub open spec fn char_action(c: Seq<char>, command: bool, alt: bool, ignored: bool, screen: ScreenKind) -> KeyAction {
    if c == "q"@ && command && ignored {
        KeyAction::Quit
    } else if c == "a"@ && command && ignored && screen is EditMods {
        KeyAction::ModsSelectAll
    } else if c == "f"@ && command && screen == (ScreenKind::EditMods { searching: true }) {
        KeyAction::ModsCloseSearch
    } else if c == "f"@ && command && screen is EditMods {
        KeyAction::ModsOpenSearch
    } else if (c == "f"@ && command || c == "/"@ && ignored) && (screen is CreateChoosing || screen is ModsDownload) {
        KeyAction::FocusNext
    } else if c == "a"@ && command && ignored && screen is EditJarMods {
        KeyAction::JarModsSelectAll
    } else if c == "n"@ && command && screen is Launch {
        KeyAction::CreateInstanceOpen { is_server: screen->is_viewing_server }
    } else if c == "1"@ && (command || alt) && screen is Launch {
        KeyAction::ChangeLaunchTab(LaunchTab::Buttons)
    } else if c == "2"@ && (command || alt) && screen is Launch {
        KeyAction::ChangeLaunchTab(LaunchTab::Edit)
    } else if c == "3"@ && (command || alt) && screen is Launch {
        KeyAction::ChangeLaunchTab(LaunchTab::Log)
    } else if c == ","@ && command && screen is Launch {
        KeyAction::OpenSettings
    } else {
        KeyAction::Nothing
    }
}

/// The action of a key press.
pub open spec fn key_action_spec(key: KeyView, command: bool, alt: bool, ignored: bool, screen: ScreenKind) -> KeyAction {
    match key {
        KeyView::Escape if ignored => KeyAction::EscapeBack,
        KeyView::Character(c) => char_action(c, command, alt, ignored, screen),
        _ => match screen {
            ScreenKind::LauncherSettings { tab } => match key {
                KeyView::ArrowUp => KeyAction::SettingsTab(settings_prev(tab)),
                KeyView::ArrowDown => KeyAction::SettingsTab(settings_next(tab)),
                _ => KeyAction::Record,
            },
            ScreenKind::License { tab } => match key {
                KeyView::ArrowUp => KeyAction::LicenseTab(license_prev(tab)),
                KeyView::ArrowDown => KeyAction::LicenseTab(license_next(tab)),
                _ => KeyAction::Record,
            },
            ScreenKind::Launch { .. } if ignored => match key {
                KeyView::ArrowUp => KeyAction::SelectInstance { down: false },
                KeyView::ArrowDown => KeyAction::SelectInstance { down: true },
                KeyView::Enter if command => KeyAction::LaunchStart,
                KeyView::Backspace if command => KeyAction::LaunchKill,
                _ => KeyAction::Record,
            },
            ScreenKind::CreateChoosing { list_loaded } if list_loaded => match key {
                KeyView::Enter if command => KeyAction::CreateStart,
                _ => KeyAction::Record,
            },
            ScreenKind::Welcome { page } => match key {
                KeyView::Enter => match page {
                    MenuWelcome::P1InitialScreen => KeyAction::WelcomePage(MenuWelcome::P2Theme),
                    MenuWelcome::P2Theme => KeyAction::WelcomePage(MenuWelcome::P3Auth),
                    MenuWelcome::P3Auth => KeyAction::WelcomeDone,
                },
                _ => KeyAction::Record,
            },
            _ => KeyAction::Record,
        },
    }
}

fn char_key_action(c: &str, command: bool, alt: bool, ignored: bool, screen: ScreenKind) -> (r: KeyAction)
    ensures
        r == char_action(c@, command, alt, ignored, screen),
{
    let q = str_eq(c, "q");
    let a = str_eq(c, "a");
    let f = str_eq(c, "f");
    let slash = str_eq(c, "/");
    let n = str_eq(c, "n");
    let one = str_eq(c, "1");
    let two = str_eq(c, "2");
    let three = str_eq(c, "3");
    let comma = str_eq(c, ",");
    let edit_mods = matches!(screen, ScreenKind::EditMods { .. });
    let searching = matches!(screen, ScreenKind::EditMods { searching: true });
    let launch = matches!(screen, ScreenKind::Launch { .. });
    if q && command && ignored {
        KeyAction::Quit
    } else if a && command && ignored && edit_mods {
        KeyAction::ModsSelectAll
    } else if f && command && searching {
        KeyAction::ModsCloseSearch
    } else if f && command && edit_mods {
        KeyAction::ModsOpenSearch
    } else if (f && command || slash && ignored) && (matches!(screen, ScreenKind::CreateChoosing { .. }) || matches!(
        screen,
        ScreenKind::ModsDownload
    )) {
        KeyAction::FocusNext
    } else if a && command && ignored && matches!(screen, ScreenKind::EditJarMods) {
        KeyAction::JarModsSelectAll
    } else if n && command && launch {
        let is_server = match screen {
            ScreenKind::Launch { is_viewing_server } => is_viewing_server,
            _ => false,
        };
        KeyAction::CreateInstanceOpen { is_server }
    } else if one && (command || alt) && launch {
        KeyAction::ChangeLaunchTab(LaunchTab::Buttons)
    } else if two && (command || alt) && launch {
        KeyAction::ChangeLaunchTab(LaunchTab::Edit)
    } else if three && (command || alt) && launch {
        KeyAction::ChangeLaunchTab(LaunchTab::Log)
    } else if comma && command && launch {
        KeyAction::OpenSettings
    } else {
        KeyAction::Nothing
    }
}

/// What a key press does on the current screen, given the command (ctrl or
/// cmd) and alt modifiers and whether no widget took the key.
pub fn key_action(key: &KeyInput, command: bool, alt: bool, ignored: bool, screen: ScreenKind) -> (r: KeyAction)
    ensures
        r == key_action_spec(key@, command, alt, ignored, screen),
{
    if let KeyInput::Escape = key {
        if ignored {
            return KeyAction::EscapeBack;
        }
    }
    if let KeyInput::Character(c) = key {
        return char_key_action(c.as_str(), command, alt, ignored, screen);
    }
    match screen {
        ScreenKind::LauncherSettings { tab } => match key {
            KeyInput::ArrowUp => KeyAction::SettingsTab(tab.prev()),
            KeyInput::ArrowDown => KeyAction::SettingsTab(tab.next()),
            _ => KeyAction::Record,
        },
        ScreenKind::License { tab } => match key {
            KeyInput::ArrowUp => KeyAction::LicenseTab(tab.prev()),
            KeyInput::ArrowDown => KeyAction::LicenseTab(tab.next()),
            _ => KeyAction::Record,
        },
        ScreenKind::Launch { .. } if ignored => match key {
            KeyInput::ArrowUp => KeyAction::SelectInstance { down: false },
            KeyInput::ArrowDown => KeyAction::SelectInstance { down: true },
            KeyInput::Enter if command => KeyAction::LaunchStart,
            KeyInput::Backspace if command => KeyAction::LaunchKill,
            _ => KeyAction::Record,
        },
        ScreenKind::CreateChoosing { list_loaded } if list_loaded => match key {
            KeyInput::Enter if command => KeyAction::CreateStart,
            _ => KeyAction::Record,
        },
        ScreenKind::Welcome { page } => match key {
            KeyInput::Enter => match page.advance() {
                Some(p) => KeyAction::WelcomePage(p),
                None => KeyAction::WelcomeDone,
            },
            _ => KeyAction::Record,
        },
        _ => KeyAction::Record,
    }
}

/// What a file dropped on the window does.
#[derive(Debug, Clone, Copy, PartialEq, Eq, Structural)]
pub enum DropAction {
    /// Add a mod jar to the instance's mods.
    AddModJar,
    /// Install a mod preset.
    LoadPreset,
    /// Install a modpack.
    LoadModpack,
    /// Add a jar mod to the game jar.
    AddJarmod,
    /// Install OptiFine from the dropped installer.
    InstallOptifine,
    Nothing,
}

/// The letters of a text with ASCII capitals made small.
pub open spec fn ascii_lower(s: Seq<char>) -> Seq<char> {
    Seq::new(s.len(), |i: int| if 'A' <= s[i] <= 'Z' { ((s[i] as u32) + 32) as char } else { s[i] })
}

/// What a file with this (lowercased) extension does when dropped on a
/// screen.
pub open spec fn drop_action_spec(screen: ScreenKind, ext: Seq<char>) -> DropAction {
    match screen {
        ScreenKind::EditMods { .. } => if ext == "jar"@ || ext == "disabled"@ {
            DropAction::AddModJar
        } else if ext == "qmp"@ {
            DropAction::LoadPreset
        } else if ext == "zip"@ || ext == "mrpack"@ {
            DropAction::LoadModpack
        } else {
            DropAction::Nothing
        },
        ScreenKind::ManagePresets => if ext == "qmp"@ {
            DropAction::LoadPreset
        } else if ext == "zip"@ || ext == "mrpack"@ {
            DropAction::LoadModpack
        } else {
            DropAction::Nothing
        },
        ScreenKind::EditJarMods => if ext == "jar"@ || ext == "zip"@ {
            DropAction::AddJarmod
        } else {
            DropAction::Nothing
        },
        ScreenKind::InstallOptifineChoosing => if ext == "jar"@ || ext == "zip"@ {
            DropAction::InstallOptifine
        } else {
            DropAction::Nothing
        },
        _ => DropAction::Nothing,
    }
}

/// Whether the text, with ASCII capitals made small, is `lit`.
fn lower_eq(s: &str, lit: &str) -> (r: bool)
    ensures
        r == (ascii_lower(s@) == lit@),
{
    let n = s.unicode_len();
    if n != lit.unicode_len() {
        proof {
            assert(ascii_lower(s@).len() != lit@.len());
        }
        return false;
    }
    let mut i: usize = 0;
    while i < n
        invariant
            0 <= i <= n,
            n == s@.len(),
            n == lit@.len(),
            forall|j: int| 0 <= j < i ==> #[trigger] ascii_lower(s@)[j] == lit@[j],
        decreases n - i,
    {
        let c = s.get_char(i);
        let l = lit.get_char(i);
        let code: u32 = if 'A' <= c && c <= 'Z' { (c as u32) + 32 } else { c as u32 };
        if code != (l as u32) {
            proof {
                assert(ascii_lower(s@)[i as int] != lit@[i as int]);
            }
            return false;
        }
        proof {
            assert(ascii_lower(s@)[i as int] == lit@[i as int]);
        }
        i += 1;
    }
    proof {
        assert(ascii_lower(s@) =~= lit@);
    }
    true
}

/// What a file dropped on the window does, by its extension (in any case).
pub fn drop_action(screen: ScreenKind, extension: &str) -> (r: DropAction)
    ensures
        r == drop_action_spec(screen, ascii_lower(extension@)),
{
    let ext = extension;
    match screen {
        ScreenKind::EditMods { .. } => if lower_eq(ext, "jar") || lower_eq(ext, "disabled") {
            DropAction::AddModJar
        } else if lower_eq(ext, "qmp") {
            DropAction::LoadPreset
        } else if lower_eq(ext, "zip") || lower_eq(ext, "mrpack") {
            DropAction::LoadModpack
        } else {
            DropAction::Nothing
        },
        ScreenKind::ManagePresets => if lower_eq(ext, "qmp") {
            DropAction::LoadPreset
        } else if lower_eq(ext, "zip") || lower_eq(ext, "mrpack") {
            DropAction::LoadModpack
        } else {
            DropAction::Nothing
        },
        ScreenKind::EditJarMods => if lower_eq(ext, "jar") || lower_eq(ext, "zip") {
            DropAction::AddJarmod
        } else {
            DropAction::Nothing
        },
        ScreenKind::InstallOptifineChoosing => if lower_eq(ext, "jar") || lower_eq(ext, "zip") {
            DropAction::InstallOptifine
        } else {
            DropAction::Nothing
        },
        _ => DropAction::Nothing,
    }
}


/// What going back with Escape needs to know of the current screen: which
/// screen it is, and whether it is busy with work that must not be left.
#[derive(Debug, Clone, Copy, PartialEq, Eq, Structural)]
pub enum BackScreen {
    Launch,
    ChangeLog,
    Error,
    LauncherSettings,
    License,
    ConfirmAction,
    Welcome,
    AccountLogin,
    LoginMs,
    LoginAlternate { loading: bool },
    AccountLoginProgress,
    CreateShortcut,
    CreateChoosing,
    CreateBusy,
    ExportInstance { busy: bool },
    UpdateFound { busy: bool },
    EditMods { updating: bool },
    EditJarMods,
    ExportMods,
    ManagePresets { busy: bool },
    RecommendedMods { loading: bool },
    ModDescription,
    ModsDownload { opened_mod: bool, downloading: bool },
    InstallOptifine { choosing: bool },
    InstallFabric { busy: bool },
    InstallPaper { installing: bool },
    InstallForge,
    InstallJava,
    ImportModpack,
    CurseforgeManualDownload,
    GenericMessage,
    LogUploadResult,
}

/// Where Escape leads from a screen.
#[derive(Debug, Clone, Copy, PartialEq, Eq, Structural)]
pub enum BackTarget {
    /// The home screen.
    MainScreen,
    /// The mod list of the instance.
    EditMods,
    /// The mod store's list, closing the opened mod.
    CloseOpenedMod,
    /// The "About" tab of the settings.
    SettingsAbout,
    /// The "no" answer of the question asked.
    ConfirmNo,
    /// Nowhere: the screen stays.
    Stay,
}

/// Where Escape leads from a screen.
pub open spec fn back_target(s: BackScreen) -> BackTarget {
    match s {
        BackScreen::ChangeLog | BackScreen::Error | BackScreen::LauncherSettings | BackScreen::LoginMs
        | BackScreen::AccountLogin | BackScreen::CreateShortcut | BackScreen::Welcome | BackScreen::CreateChoosing => BackTarget::MainScreen,
        BackScreen::EditMods { updating } => if updating { BackTarget::Stay } else { BackTarget::MainScreen },
        BackScreen::ExportInstance { busy } => if busy { BackTarget::Stay } else { BackTarget::MainScreen },
        BackScreen::LoginAlternate { loading } => if loading { BackTarget::Stay } else { BackTarget::MainScreen },
        BackScreen::UpdateFound { busy } => if busy { BackTarget::Stay } else { BackTarget::MainScreen },
        BackScreen::License => BackTarget::SettingsAbout,
        BackScreen::ConfirmAction => BackTarget::ConfirmNo,
        BackScreen::InstallOptifine { choosing } => if choosing { BackTarget::EditMods } else { BackTarget::Stay },
        BackScreen::InstallFabric { busy } => if busy { BackTarget::Stay } else { BackTarget::EditMods },
        BackScreen::EditJarMods | BackScreen::ExportMods | BackScreen::ModDescription => BackTarget::EditMods,
        BackScreen::ManagePresets { busy } => if busy { BackTarget::Stay } else { BackTarget::EditMods },
        BackScreen::RecommendedMods { loading } => if loading { BackTarget::Stay } else { BackTarget::EditMods },
        BackScreen::InstallPaper { installing } => if installing { BackTarget::Stay } else { BackTarget::EditMods },
        BackScreen::ModsDownload { opened_mod, downloading } => if opened_mod {
            BackTarget::CloseOpenedMod
        } else if !downloading {
            BackTarget::EditMods
        } else {
            BackTarget::Stay
        },
        _ => BackTarget::Stay,
    }
}

impl BackScreen {
    /// Where Escape leads from this screen.
    pub fn escape_target(self) -> (r: BackTarget)
        ensures
            r == back_target(self),
    {
        match self {
            BackScreen::ChangeLog | BackScreen::Error | BackScreen::LauncherSettings | BackScreen::LoginMs
            | BackScreen::AccountLogin | BackScreen::CreateShortcut | BackScreen::Welcome | BackScreen::CreateChoosing => BackTarget::MainScreen,
            BackScreen::EditMods { updating } => if updating { BackTarget::Stay } else { BackTarget::MainScreen },
            BackScreen::ExportInstance { busy } => if busy { BackTarget::Stay } else { BackTarget::MainScreen },
            BackScreen::LoginAlternate { loading } => if loading { BackTarget::Stay } else { BackTarget::MainScreen },
            BackScreen::UpdateFound { busy } => if busy { BackTarget::Stay } else { BackTarget::MainScreen },
            BackScreen::License => BackTarget::SettingsAbout,
            BackScreen::ConfirmAction => BackTarget::ConfirmNo,
            BackScreen::InstallOptifine { choosing } => if choosing { BackTarget::EditMods } else { BackTarget::Stay },
            BackScreen::InstallFabric { busy } => if busy { BackTarget::Stay } else { BackTarget::EditMods },
            BackScreen::EditJarMods | BackScreen::ExportMods | BackScreen::ModDescription => BackTarget::EditMods,
            BackScreen::ManagePresets { busy } => if busy { BackTarget::Stay } else { BackTarget::EditMods },
            BackScreen::RecommendedMods { loading } => if loading { BackTarget::Stay } else { BackTarget::EditMods },
            BackScreen::InstallPaper { installing } => if installing { BackTarget::Stay } else { BackTarget::EditMods },
            BackScreen::ModsDownload { opened_mod, downloading } => if opened_mod {
                BackTarget::CloseOpenedMod
            } else if !downloading {
                BackTarget::EditMods
            } else {
                BackTarget::Stay
            },
            _ => BackTarget::Stay,
        }
    }
}

/// Whether Escape does something: with `affect` the move is made, without it
/// the question is only whether Escape would lead anywhere (the answer of a
/// question is only given when the move is made).
pub fn escape_handled(target: BackTarget, affect: bool) -> (r: bool)
    ensures
        r == match target {
            BackTarget::Stay => false,
            BackTarget::ConfirmNo => affect,
            _ => true,
        },
{
    match target {
        BackTarget::Stay => false,
        BackTarget::ConfirmNo => affect,
        _ => true,
    }
}

/// Whether the launcher may close on the quit shortcut: no game is running,
/// and the screen is the home screen or one that Escape would leave.
pub fn can_quit(running_games: usize, target: BackTarget, on_home_screen: bool) -> (r: bool)
    ensures
        r == (running_games == 0 && (!(target is Stay || target is ConfirmNo) || on_home_screen)),
{
    running_games == 0 && (escape_handled(target, false) || on_home_screen)
}

/// Whether the instance screen to open is the servers' one: as asked, else
/// as the selected instance is, else not.
pub fn screen_is_server(asked: Option<bool>, selected: Option<InstanceKind>) -> (r: bool)
    ensures
        r == match asked {
            Some(b) => b,
            None => selected == Some(InstanceKind::Server),
        },
{
    match asked {
        Some(b) => b,
        None => match selected {
            Some(InstanceKind::Server) => true,
            _ => false,
        },
    }
}

/// The overlays open on a screen that can have some: Escape closes them
/// before it leaves the screen.
#[derive(Debug, Clone, Copy, PartialEq, Eq, Structural)]
pub enum Overlays {
    /// The mod list: a menu over a mod, and the search box.
    EditMods { modal: bool, search: bool },
    /// The version list of a new instance: the drop-down of version kinds.
    CreateChoosing { dropdown: bool },
    /// The home screen: a menu over the sidebar or an instance.
    Launch { modal: bool },
    /// A screen without overlays.
    Other,
}

/// The overlays left after one is closed, and whether one was: on the mod
/// list the menu goes before the search box.
pub open spec fn hide_one(o: Overlays) -> (Overlays, bool) {
    match o {
        Overlays::EditMods { modal, search } => if modal {
            (Overlays::EditMods { modal: false, search }, true)
        } else if search {
            (Overlays::EditMods { modal: false, search: false }, true)
        } else {
            (o, false)
        },
        Overlays::CreateChoosing { dropdown } => if dropdown {
            (Overlays::CreateChoosing { dropdown: false }, true)
        } else {
            (o, false)
        },
        Overlays::Launch { modal } => if modal {
            (Overlays::Launch { modal: false }, true)
        } else {
            (o, false)
        },
        Overlays::Other => (o, false),
    }
}

/// Whether an overlay is open.
pub open spec fn any_open(o: Overlays) -> bool {
    match o {
        Overlays::EditMods { modal, search } => modal || search,
        Overlays::CreateChoosing { dropdown } => dropdown,
        Overlays::Launch { modal } => modal,
        Overlays::Other => false,
    }
}

/// Closes one open overlay (see `hide_one`); true when one was open.
pub fn hide_submenu(o: &mut Overlays) -> (closed: bool)
    ensures
        (*final(o), closed) == hide_one(*old(o)),
{
    match *o {
        Overlays::EditMods { modal, search } => {
            if modal {
                *o = Overlays::EditMods { modal: false, search };
                true
            } else if search {
                *o = Overlays::EditMods { modal: false, search: false };
                true
            } else {
                false
            }
        },
        Overlays::CreateChoosing { dropdown } => {
            if dropdown {
                *o = Overlays::CreateChoosing { dropdown: false };
                true
            } else {
                false
            }
        },
        Overlays::Launch { modal } => {
            if modal {
                *o = Overlays::Launch { modal: false };
                true
            } else {
                false
            }
        },
        Overlays::Other => false,
    }
}

/// Escape closes the open overlays before it leaves the screen: a press
/// closes one exactly when one is open (otherwise nothing changes), and two
/// presses close them all.
pub proof fn law_escape_closes_overlays_first(o: Overlays)
    ensures
        hide_one(o).1 == any_open(o),
        !any_open(o) ==> hide_one(o).0 == o,
        any_open(o) ==> !any_open(hide_one(hide_one(o).0).0),
{
}


/// On the home screen, with the key not taken by a widget, the arrow keys
/// move the instance selection: up moves it up and down moves it down,
/// whatever the modifiers and whether servers are shown.
pub proof fn law_arrows_move_selection(command: bool, alt: bool, is_viewing_server: bool)
    ensures
        key_action_spec(KeyView::ArrowUp, command, alt, true, ScreenKind::Launch { is_viewing_server })
            == (KeyAction::SelectInstance { down: false }),
        key_action_spec(KeyView::ArrowDown, command, alt, true, ScreenKind::Launch { is_viewing_server })
            == (KeyAction::SelectInstance { down: true }),
{
}


/// Escape, when no widget took it, goes back on every screen; ctrl+q, when
/// no widget took it, quits on every screen.
pub proof fn law_escape_and_quit_everywhere(command: bool, alt: bool, screen: ScreenKind)
    ensures
        key_action_spec(KeyView::Escape, command, alt, true, screen) == KeyAction::EscapeBack,
        key_action_spec(KeyView::Character("q"@), true, alt, true, screen) == KeyAction::Quit,
{
}

/// In the settings and on the license screen, the arrow keys move one tab
/// up or down.
pub proof fn law_arrows_move_tabs(command: bool, alt: bool, ignored: bool, s: LauncherSettingsTab, l: LicenseTab)
    ensures
        key_action_spec(KeyView::ArrowUp, command, alt, ignored, ScreenKind::LauncherSettings { tab: s })
            == KeyAction::SettingsTab(settings_prev(s)),
        key_action_spec(KeyView::ArrowDown, command, alt, ignored, ScreenKind::LauncherSettings { tab: s })
            == KeyAction::SettingsTab(settings_next(s)),
        key_action_spec(KeyView::ArrowUp, command, alt, ignored, ScreenKind::License { tab: l })
            == KeyAction::LicenseTab(license_prev(l)),
        key_action_spec(KeyView::ArrowDown, command, alt, ignored, ScreenKind::License { tab: l })
            == KeyAction::LicenseTab(license_next(l)),
{
}

} // verus!
