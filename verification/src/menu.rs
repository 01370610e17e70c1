use vstd::prelude::*;
use crate::text::{concat, contains_text, has_substring, string_of};

verus! {

/// The tabs of the home screen.
#[derive(Debug, Clone, Copy, PartialEq, Eq, Structural)]
pub enum LaunchTab {
    Buttons,
    Log,
    Edit,
}

impl LaunchTab {
    /// The tab shown when the home screen opens.
    pub fn default_tab() -> (r: LaunchTab)
        ensures
            r == LaunchTab::Buttons,
    {
        LaunchTab::Buttons
    }

    /// The label of the tab.
    pub fn label(&self) -> (r: &'static str)
        ensures
            r@ == (match *self {
                LaunchTab::Buttons => "Play"@,
                LaunchTab::Log => "Logs"@,
                LaunchTab::Edit => "Edit"@,
            }),
    {
        match self {
            LaunchTab::Buttons => "Play",
            LaunchTab::Log => "Logs",
            LaunchTab::Edit => "Edit",
        }
    }
}

/// How many entries of a list are selected.
#[derive(Debug, Clone, Copy, PartialEq, Eq, Structural)]
pub enum SelectedState {
    All,
    Partial,
    Empty,
}

impl SelectedState {
    /// The state of a selection of `selected` out of `total` entries.
    pub fn of_counts(selected: usize, total: usize) -> (r: SelectedState)
        ensures
            r == (if selected == 0 {
                SelectedState::Empty
            } else if selected == total {
                SelectedState::All
            } else {
                SelectedState::Partial
            }),
    {
        if selected == 0 {
            SelectedState::Empty
        } else if selected == total {
            SelectedState::All
        } else {
            SelectedState::Partial
        }
    }
}

/// The kind of a message shown to the user.
#[derive(Debug)]
pub enum InfoMessageKind {
    Success,
    AtPath(String),
    Error,
}

/// A message shown to the user.
#[derive(Debug)]
pub struct InfoMessage {
    pub text: String,
    pub kind: InfoMessageKind,
}

impl InfoMessage {
    /// An error message with this text.
    pub fn error(text: &str) -> (r: InfoMessage)
        ensures
            r.text@ == text@,
            r.kind is Error,
    {
        InfoMessage { text: string_of(text), kind: InfoMessageKind::Error }
    }

    /// A success message with this text.
    pub fn success(text: &str) -> (r: InfoMessage)
        ensures
            r.text@ == text@,
            r.kind is Success,
    {
        InfoMessage { text: string_of(text), kind: InfoMessageKind::Success }
    }
}

/// What is being done to a mod in the store.
#[derive(Debug, Clone, Copy, PartialEq, Eq, Structural)]
pub enum ModOperation {
    Downloading,
    Deleting,
}

/// The tabs of the settings screen, in display order.
#[derive(Debug, Clone, Copy, PartialEq, Eq, Structural)]
pub enum LauncherSettingsTab {
    UserInterface,
    Game,
    About,
}

/// Position of a settings tab in display order.
pub open spec fn settings_tab_index(t: LauncherSettingsTab) -> int {
    match t {
        LauncherSettingsTab::UserInterface => 0,
        LauncherSettingsTab::Game => 1,
        LauncherSettingsTab::About => 2,
    }
}

/// The tab below a settings tab; the last tab stays.
pub open spec fn settings_next(t: LauncherSettingsTab) -> LauncherSettingsTab {
    match t {
        LauncherSettingsTab::UserInterface => LauncherSettingsTab::Game,
        _ => LauncherSettingsTab::About,
    }
}

/// The tab above a settings tab; the first tab stays.
pub open spec fn settings_prev(t: LauncherSettingsTab) -> LauncherSettingsTab {
    match t {
        LauncherSettingsTab::About => LauncherSettingsTab::Game,
        _ => LauncherSettingsTab::UserInterface,
    }
}

impl LauncherSettingsTab {
    /// The tab below this one; the last tab stays.
    pub fn next(self) -> (r: LauncherSettingsTab)
        ensures
            r == settings_next(self),
            settings_tab_index(r) == if settings_tab_index(self) < 2 {
                settings_tab_index(self) + 1
            } else {
                2
            },
    {
        match self {
            LauncherSettingsTab::UserInterface => LauncherSettingsTab::Game,
            LauncherSettingsTab::Game | LauncherSettingsTab::About => LauncherSettingsTab::About,
        }
    }

    /// The tab above this one; the first tab stays.
    pub fn prev(self) -> (r: LauncherSettingsTab)
        ensures
            r == settings_prev(self),
            settings_tab_index(r) == if settings_tab_index(self) > 0 {
                settings_tab_index(self) - 1
            } else {
                0
            },
    {
        match self {
            LauncherSettingsTab::UserInterface | LauncherSettingsTab::Game => LauncherSettingsTab::UserInterface,
            LauncherSettingsTab::About => LauncherSettingsTab::Game,
        }
    }

    /// The label of the tab.
    pub fn label(&self) -> (r: &'static str)
        ensures
            r@ == (match *self {
                LauncherSettingsTab::UserInterface => "Appearance"@,
                LauncherSettingsTab::Game => "Game"@,
                LauncherSettingsTab::About => "About"@,
            }),
    {
        match self {
            LauncherSettingsTab::UserInterface => "Appearance",
            LauncherSettingsTab::Game => "Game",
            LauncherSettingsTab::About => "About",
        }
    }
}

/// The pages of the first-run screen, in order.
#[derive(Debug, Clone, Copy, PartialEq, Eq, Structural)]
pub enum MenuWelcome {
    P1InitialScreen,
    P2Theme,
    P3Auth,
}

impl MenuWelcome {
    /// The page that Enter leads to; `None` after the last page, where the
    /// launcher opens its home screen.
    pub fn advance(self) -> (r: Option<MenuWelcome>)
        ensures
            r == (match self {
                MenuWelcome::P1InitialScreen => Some(MenuWelcome::P2Theme),
                MenuWelcome::P2Theme => Some(MenuWelcome::P3Auth),
                MenuWelcome::P3Auth => None,
            }),
    {
        match self {
            MenuWelcome::P1InitialScreen => Some(MenuWelcome::P2Theme),
            MenuWelcome::P2Theme => Some(MenuWelcome::P3Auth),
            MenuWelcome::P3Auth => None,
        }
    }
}

/// The login screen for alternative (non-Microsoft) accounts.
#[derive(Debug)]
pub struct MenuLoginAlternate {
    pub username: String,
    pub password: String,
    pub show_password: bool,
    pub is_incorrect_password: bool,
    pub is_loading: bool,
    pub otp: Option<String>,
    pub is_from_welcome_screen: bool,
    pub is_littleskin: bool,
    pub oauth: Option<LittleSkinOauth>,
    pub device_code_error: Option<String>,
}

/// A pending LittleSkin device-code login.
#[derive(Debug)]
pub struct LittleSkinOauth {
    pub user_code: String,
    pub verification_uri: String,
    /// When the device code expires, in seconds of the launcher's clock.
    pub device_code_expires_at: u64,
}

impl LittleSkinOauth {
    /// A pending login whose code expires `expires_in` seconds after `now`.
    pub fn new(user_code: String, verification_uri: String, now: u64, expires_in: u64) -> (r: LittleSkinOauth)
        ensures
            r.user_code == user_code,
            r.verification_uri == verification_uri,
            r.device_code_expires_at == if now + expires_in <= u64::MAX { now + expires_in } else { u64::MAX as int },
    {
        LittleSkinOauth { user_code, verification_uri, device_code_expires_at: now.saturating_add(expires_in) }
    }
}

/// The texts of the licenses that the launcher shows.
pub struct LicenseTexts {
    pub gpl3: String,
    pub apache2: String,
    pub ofl: String,
    pub password_asterisks_source: String,
    pub cc_by_sa_3: String,
    pub lwjgl: String,
}

/// The tabs of the licenses screen, in display order.
#[derive(Debug, Clone, Copy, PartialEq, Eq, Structural)]
pub enum LicenseTab {
    Gpl3,
    ForgeInstallerApache,
    OpenFontLicense,
    PasswordAsterisks,
    Lwjgl,
}

/// Position of a license tab in display order.
pub open spec fn license_tab_index(t: LicenseTab) -> int {
    match t {
        LicenseTab::Gpl3 => 0,
        LicenseTab::ForgeInstallerApache => 1,
        LicenseTab::OpenFontLicense => 2,
        LicenseTab::PasswordAsterisks => 3,
        LicenseTab::Lwjgl => 4,
    }
}

/// The text shown for a license tab.
pub open spec fn license_text(t: LicenseTab, texts: LicenseTexts) -> Seq<char> {
    match t {
        LicenseTab::Gpl3 => texts.gpl3@,
        LicenseTab::OpenFontLicense => "For the Inter and JetBrains fonts used in QuantumLauncher:\n--------\n\n"@ + texts.ofl@,
        LicenseTab::PasswordAsterisks => texts.password_asterisks_source@ + "\n--------\n"@ + texts.cc_by_sa_3@,
        LicenseTab::ForgeInstallerApache => "For the Forge Installer script used in QuantumLauncher:\n--------\n\n"@ + texts.apache2@,
        LicenseTab::Lwjgl => texts.lwjgl@,
    }
}

/// The tab below a license tab; the last tab stays.
pub open spec fn license_next(t: LicenseTab) -> LicenseTab {
    match t {
        LicenseTab::Gpl3 => LicenseTab::ForgeInstallerApache,
        LicenseTab::ForgeInstallerApache => LicenseTab::OpenFontLicense,
        LicenseTab::OpenFontLicense => LicenseTab::PasswordAsterisks,
        _ => LicenseTab::Lwjgl,
    }
}

/// The tab above a license tab; the first tab stays.
pub open spec fn license_prev(t: LicenseTab) -> LicenseTab {
    match t {
        LicenseTab::Lwjgl => LicenseTab::PasswordAsterisks,
        LicenseTab::PasswordAsterisks => LicenseTab::OpenFontLicense,
        LicenseTab::OpenFontLicense => LicenseTab::ForgeInstallerApache,
        _ => LicenseTab::Gpl3,
    }
}

impl LicenseTab {
    /// The tab below this one; the last tab stays.
    pub fn next(self) -> (r: LicenseTab)
        ensures
            r == license_next(self),
            license_tab_index(r) == if license_tab_index(self) < 4 {
                license_tab_index(self) + 1
            } else {
                4
            },
    {
        match self {
            LicenseTab::Gpl3 => LicenseTab::ForgeInstallerApache,
            LicenseTab::ForgeInstallerApache => LicenseTab::OpenFontLicense,
            LicenseTab::OpenFontLicense => LicenseTab::PasswordAsterisks,
            LicenseTab::PasswordAsterisks | LicenseTab::Lwjgl => LicenseTab::Lwjgl,
        }
    }

    /// The tab above this one; the first tab stays.
    pub fn prev(self) -> (r: LicenseTab)
        ensures
            r == license_prev(self),
            license_tab_index(r) == if license_tab_index(self) > 0 {
                license_tab_index(self) - 1
            } else {
                0
            },
    {
        match self {
            LicenseTab::Gpl3 | LicenseTab::ForgeInstallerApache => LicenseTab::Gpl3,
            LicenseTab::OpenFontLicense => LicenseTab::ForgeInstallerApache,
            LicenseTab::PasswordAsterisks => LicenseTab::OpenFontLicense,
            LicenseTab::Lwjgl => LicenseTab::PasswordAsterisks,
        }
    }

    /// The license text of the tab, with its heading.
    pub fn get_text(self, texts: &LicenseTexts) -> (r: String)
        ensures
            r@ == license_text(self, *texts),
    {
        match self {
            LicenseTab::Gpl3 => texts.gpl3.clone(),
            LicenseTab::OpenFontLicense => concat(
                "For the Inter and JetBrains fonts used in QuantumLauncher:\n--------\n\n",
                texts.ofl.as_str(),
            ),
            LicenseTab::PasswordAsterisks => {
                let head = concat(texts.password_asterisks_source.as_str(), "\n--------\n");
                concat(head.as_str(), texts.cc_by_sa_3.as_str())
            },
            LicenseTab::ForgeInstallerApache => concat(
                "For the Forge Installer script used in QuantumLauncher:\n--------\n\n",
                texts.apache2.as_str(),
            ),
            LicenseTab::Lwjgl => texts.lwjgl.clone(),
        }
    }

    /// The label of the tab.
    pub fn label(&self) -> (r: &'static str)
        ensures
            r@ == (match *self {
                LicenseTab::Gpl3 => "QuantumLauncher"@,
                LicenseTab::OpenFontLicense => "Fonts (Inter/Jetbrains Mono)"@,
                LicenseTab::PasswordAsterisks => "Password Asterisks Font"@,
                LicenseTab::ForgeInstallerApache => "Forge Installer"@,
                LicenseTab::Lwjgl => "LWJGL"@,
            }),
    {
        match self {
            LicenseTab::Gpl3 => "QuantumLauncher",
            LicenseTab::OpenFontLicense => "Fonts (Inter/Jetbrains Mono)",
            LicenseTab::PasswordAsterisks => "Password Asterisks Font",
            LicenseTab::ForgeInstallerApache => "Forge Installer",
            LicenseTab::Lwjgl => "LWJGL",
        }
    }
}

/// The log of a running or finished instance.
#[derive(Debug)]
pub struct InstanceLog {
    pub log: Vec<String>,
    pub has_crashed: bool,
    pub command: String,
}

/// What is blocked from being auto-saved, or was just saved.
#[derive(Debug, Clone, Copy, PartialEq, Eq, Hash, Structural)]
pub enum AutoSaveKind {
    LauncherConfig,
    InstanceConfig,
    Jarmods,
}

/// Which mod loader of the Forge family to install.
#[derive(Debug, Clone, Copy, PartialEq, Eq, Structural)]
pub enum ForgeKind {
    Normal,
    NeoForge,
    OptiFine,
}


/// Going one settings tab down and back up returns to the tab one left,
/// unless it was the last; going up and back down likewise, unless it was
/// the first.
pub proof fn law_settings_tab_round_trip(t: LauncherSettingsTab)
    ensures
        t != LauncherSettingsTab::About ==> settings_prev(settings_next(t)) == t,
        t != LauncherSettingsTab::UserInterface ==> settings_next(settings_prev(t)) == t,
{
}

/// Going one license tab down and back up returns to the tab one left,
/// unless it was the last; going up and back down likewise, unless it was
/// the first.
pub proof fn law_license_tab_round_trip(t: LicenseTab)
    ensures
        t != LicenseTab::Lwjgl ==> license_prev(license_next(t)) == t,
        t != LicenseTab::Gpl3 ==> license_next(license_prev(t)) == t,
{
}


/// The first line of an instance's log, written by the launcher.
pub open spec fn log_start_line(is_server: bool, os_name: Seq<char>) -> Seq<char> {
    "[00:00:00] [launcher/INFO] "@ + (if is_server { "Starting Minecraft server"@ } else { "Launching Minecraft"@ })
        + " (OS: "@ + os_name + ")\n"@
}

/// All the lines of a log, one after the other.
pub open spec fn joined(lines: Seq<String>) -> Seq<char>
    decreases lines.len(),
{
    if lines.len() == 0 {
        Seq::empty()
    } else {
        joined(lines.drop_last()) + lines.last()@
    }
}

/// The message shown when a game or server stops with a failure.
pub open spec fn crash_text(is_server: bool, status: Seq<char>, diagnostic: Option<Seq<char>>) -> Seq<char> {
    let base = (if is_server { "Server"@ } else { "Game"@ }) + " crashed! ("@ + status + ")\nCheck \"Logs\" for more info"@;
    match diagnostic {
        Some(d) => base + "\n\n"@ + d,
        None => base,
    }
}

impl InstanceLog {
    /// The log of an instance that was just started, holding the launcher's
    /// first line.
    pub fn started(is_server: bool, os_name: &str) -> (r: InstanceLog)
        ensures
            r.log@.len() == 1,
            r.log@[0]@ == log_start_line(is_server, os_name@),
            !r.has_crashed,
            r.command@.len() == 0,
    {
        let kind = if is_server { "Starting Minecraft server" } else { "Launching Minecraft" };
        let a = concat("[00:00:00] [launcher/INFO] ", kind);
        let b = concat(a.as_str(), " (OS: ");
        let c = concat(b.as_str(), os_name);
        let line = concat(c.as_str(), ")\n");
        InstanceLog { log: vec![line], has_crashed: false, command: String::new() }
    }

    /// Adds a line the game printed.
    pub fn push(&mut self, message: String)
        ensures
            final(self).log@ == old(self).log@.push(message),
            final(self).has_crashed == old(self).has_crashed,
            final(self).command == old(self).command,
    {
        self.log.push(message);
    }

    /// The whole log as one text.
    pub fn text(&self) -> (r: String)
        ensures
            r@ == joined(self.log@),
    {
        let mut out = String::new();
        let mut i: usize = 0;
        proof {
            assert(self.log@.take(0) =~= Seq::<String>::empty());
        }
        while i < self.log.len()
            invariant
                0 <= i <= self.log.len(),
                out@ == joined(self.log@.take(i as int)),
            decreases self.log.len() - i,
        {
            proof {
                assert(self.log@.take(i + 1).drop_last() =~= self.log@.take(i as int));
                assert(self.log@.take(i + 1).last() == self.log@[i as int]);
            }
            out.append(self.log[i].as_str());
            i += 1;
        }
        proof {
            assert(self.log@.take(i as int) =~= self.log@);
        }
        out
    }

    /// Sends the typed server command: it is echoed into the log behind
    /// "> ", the input is cleared, and the line to write to the server's
    /// input is returned.
    pub fn submit_command(&mut self) -> (line: String)
        ensures
            line@ == old(self).command@ + "\n"@,
            final(self).log@.len() == old(self).log@.len() + 1,
            final(self).log@.drop_last() == old(self).log@,
            final(self).log@.last()@ == "> "@ + old(self).command@,
            final(self).command@.len() == 0,
            final(self).has_crashed == old(self).has_crashed,
    {
        let line = concat(self.command.as_str(), "\n");
        let echo = concat("> ", self.command.as_str());
        self.log.push(echo);
        self.command = String::new();
        proof {
            assert(self.log@.drop_last() =~= old(self).log@);
        }
        line
    }
}

impl MenuLoginAlternate {
    /// Starts a login: the "incorrect password" note goes away, the menu
    /// shows that it is busy, and the password to send is returned, with
    /// the one-time code after a colon when one was asked for.
    pub fn begin_login(&mut self) -> (password: String)
        ensures
            password@ == (match old(self).otp {
                Some(o) => old(self).password@ + ":"@ + o@,
                None => old(self).password@,
            }),
            !final(self).is_incorrect_password,
            final(self).is_loading,
            final(self).username == old(self).username,
            final(self).password == old(self).password,
            final(self).show_password == old(self).show_password,
            final(self).otp == old(self).otp,
            final(self).is_from_welcome_screen == old(self).is_from_welcome_screen,
            final(self).is_littleskin == old(self).is_littleskin,
            final(self).device_code_error == old(self).device_code_error,
    {
        self.is_incorrect_password = false;
        let password = match &self.otp {
            Some(otp) => {
                let a = concat(self.password.as_str(), ":");
                concat(a.as_str(), otp.as_str())
            },
            None => string_of(self.password.as_str()),
        };
        self.is_loading = true;
        password
    }

    /// Takes a refused login: when the service says the password is wrong,
    /// the menu shows so and stops waiting, and true is returned; any other
    /// error is left to the caller (nothing changes).
    pub fn login_refused(&mut self, err: &str) -> (handled: bool)
        ensures
            handled == has_substring(err@, "incorrect password"@),
            handled ==> final(self).is_incorrect_password && !final(self).is_loading,
            !handled ==> final(self).is_incorrect_password == old(self).is_incorrect_password
                && final(self).is_loading == old(self).is_loading,
            final(self).username == old(self).username,
            final(self).password == old(self).password,
            final(self).show_password == old(self).show_password,
            final(self).otp == old(self).otp,
            final(self).is_from_welcome_screen == old(self).is_from_welcome_screen,
            final(self).is_littleskin == old(self).is_littleskin,
            final(self).device_code_error == old(self).device_code_error,
    {
        if contains_text(err, "incorrect password") {
            self.is_incorrect_password = true;
            self.is_loading = false;
            true
        } else {
            false
        }
    }

    /// Takes an accepted login: the menu stops waiting; when the service
    /// asks for a one-time code, an empty code field appears.
    pub fn login_answered(&mut self, needs_otp: bool)
        ensures
            !final(self).is_loading,
            needs_otp ==> (final(self).otp matches Some(o) && o@.len() == 0),
            !needs_otp ==> final(self).otp == old(self).otp,
            final(self).is_incorrect_password == old(self).is_incorrect_password,
            final(self).username == old(self).username,
            final(self).password == old(self).password,
            final(self).show_password == old(self).show_password,
            final(self).is_from_welcome_screen == old(self).is_from_welcome_screen,
            final(self).is_littleskin == old(self).is_littleskin,
            final(self).device_code_error == old(self).device_code_error,
    {
        self.is_loading = false;
        if needs_otp {
            self.otp = Some(String::new());
        }
    }
}

/// The message shown when a game or server stops with a failure, with the
/// launcher's diagnosis when it has one.
pub fn crash_message(is_server: bool, status: &str, diagnostic: Option<&str>) -> (r: String)
    ensures
        r@ == crash_text(is_server, status@, match diagnostic { Some(d) => Some(d@), None => None }),
{
    let kind = if is_server { "Server" } else { "Game" };
    let a = concat(kind, " crashed! (");
    let b = concat(a.as_str(), status);
    let base = concat(b.as_str(), ")\nCheck \"Logs\" for more info");
    match diagnostic {
        Some(d) => {
            let c = concat(base.as_str(), "\n\n");
            concat(c.as_str(), d)
        },
        None => base,
    }
}

} // verus!
