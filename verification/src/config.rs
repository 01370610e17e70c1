use vstd::prelude::*;
use crate::text::{str_eq, strip_suffix_spec};
use crate::theme::{LauncherThemeColor, LauncherThemeLightness};
use crate::sidebar::ops::SidebarConfig;
use crate::sidebar::maintain::{add_missing, names_view, retain_seq, update_sidebar};
use crate::sidebar::types::NodeView;
use crate::instance::InstanceKind;

verus! {

/// Where the window's title bar buttons go: the system's own decorations, or
/// the launcher's, on the left or the right.
#[derive(Debug, Clone, Copy, PartialEq, Eq, Structural)]
pub enum UiWindowDecorations {
    System,
    Left,
    Right,
}

impl Default for UiWindowDecorations {
    fn default() -> (r: Self)
        ensures
            r == UiWindowDecorations::System,
    {
        UiWindowDecorations::System
    }
}

/// The service an account logs in with.
#[derive(Debug, Clone, Copy, PartialEq, Eq, Structural)]
pub enum AccountType {
    Microsoft,
    ElyBy,
    LittleSkin,
}

impl Default for AccountType {
    fn default() -> (r: Self)
        ensures
            r == AccountType::Microsoft,
    {
        AccountType::Microsoft
    }
}

/// A logged-in account, as the launcher holds it while running.
#[derive(Debug)]
pub struct AccountData {
    pub access_token: Option<String>,
    pub uuid: String,
    pub refresh_token: String,
    pub needs_refresh: bool,
    pub account_type: AccountType,
    pub username: String,
    pub nice_username: String,
}

/// The account entry that logs in without an account.
pub const OFFLINE_ACCOUNT_NAME: &'static str = "(Offline)";

/// The account entry that opens the login screen.
pub const NEW_ACCOUNT_NAME: &'static str = "+ Add Account";

/// An account as the configuration stores it.
#[derive(Debug)]
pub struct ConfigAccount {
    pub uuid: String,
    pub skin: Option<String>,
    pub account_type: Option<AccountType>,
    pub keyring_identifier: Option<String>,
    pub username_nice: Option<String>,
}

/// The interface settings the logic reads.
#[derive(Debug)]
pub struct UiSettings {
    pub window_decorations: UiWindowDecorations,
    pub idle_fps: Option<u64>,
}

/// The launcher configuration, as far as its logic reads it.
#[derive(Debug)]
pub struct LauncherConfig {
    pub username: String,
    pub java_installs: Option<Vec<String>>,
    pub ui_mode: Option<LauncherThemeLightness>,
    pub ui_theme: Option<LauncherThemeColor>,
    pub version: Option<String>,
    pub accounts: Option<Vec<(String, ConfigAccount)>>,
    pub account_selected: Option<String>,
    pub ui_antialiasing: Option<bool>,
    pub extra_java_args: Option<Vec<String>>,
    pub ui: Option<UiSettings>,
    pub sidebar: Option<SidebarConfig>,
    pub persistent: Option<PersistentSettings>,
}

/// The frame rate of an idle window when none is set.
pub const IDLE_FPS: u64 = 6;

/// The name an account is stored under in the keyring, for accounts saved
/// without one: the account's key without the " (elyby)" or " (littleskin)"
/// that marks its service.
pub open spec fn keyring_name(account_type: Option<AccountType>, key: Seq<char>) -> Seq<char> {
    let t = match account_type {
        Some(t) => t,
        None => AccountType::Microsoft,
    };
    let stripped = match t {
        AccountType::ElyBy => strip_suffix_spec(key, " (elyby)"@),
        AccountType::LittleSkin => strip_suffix_spec(key, " (littleskin)"@),
        AccountType::Microsoft => Some(key),
    };
    match stripped {
        Some(s) => s,
        None => key,
    }
}

/// `s` without the suffix `suf`, borrowed from `s`, if it ends with it.
fn strip_suffix_str<'a>(s: &'a str, suf: &str) -> (r: Option<&'a str>)
    ensures
        match r {
            Some(x) => strip_suffix_spec(s@, suf@) == Some(x@),
            None => strip_suffix_spec(s@, suf@) is None,
        },
{
    let n = s.unicode_len();
    let m = suf.unicode_len();
    if m > n {
        return None;
    }
    let mut k: usize = 0;
    while k < m
        invariant
            n == s@.len(),
            m == suf@.len(),
            m <= n,
            0 <= k <= m,
            forall|j: int| 0 <= j < k ==> s@[n - m + j] == #[trigger] suf@[j],
        decreases m - k,
    {
        if s.get_char(n - m + k) != suf.get_char(k) {
            proof {
                assert(s@.subrange(n - m, n as int)[k as int] != suf@[k as int]);
            }
            return None;
        }
        k += 1;
    }
    proof {
        assert(s@.subrange(n - m, n as int) =~= suf@);
    }
    Some(s.substring_char(0, n - m))
}

/// The stored form of a logged-in account.
pub open spec fn stored_form(d: AccountData) -> ConfigAccount {
    ConfigAccount {
        uuid: d.uuid,
        skin: None,
        account_type: Some(d.account_type),
        keyring_identifier: Some(d.username),
        username_nice: Some(d.nice_username),
    }
}

impl ConfigAccount {
    /// The stored form of a fresh login.
    pub fn from_account(data: &AccountData) -> (r: ConfigAccount)
        ensures
            r == stored_form(*data),
            r.uuid@ == data.uuid@,
            r.skin is None,
            r.account_type == Some(data.account_type),
            r.keyring_identifier matches Some(k) && k@ == data.username@,
            r.username_nice matches Some(n) && n@ == data.nice_username@,
    {
        ConfigAccount {
            uuid: data.uuid.clone(),
            skin: None,
            account_type: Some(data.account_type),
            keyring_identifier: Some(data.username.clone()),
            username_nice: Some(data.nice_username.clone()),
        }
    }

    /// The name the account's token is kept under in the keyring: the one
    /// saved with the account, or, for older accounts, the account's key
    /// without its service mark.
    pub fn get_keyring_identifier<'a>(&'a self, key_username: &'a str) -> (r: &'a str)
        ensures
            r@ == match self.keyring_identifier {
                Some(k) => k@,
                None => keyring_name(self.account_type, key_username@),
            },
    {
        match &self.keyring_identifier {
            Some(k) => k.as_str(),
            None => {
                let t = match self.account_type {
                    Some(t) => t,
                    None => AccountType::Microsoft,
                };
                let stripped = match t {
                    AccountType::ElyBy => strip_suffix_str(key_username, " (elyby)"),
                    AccountType::LittleSkin => strip_suffix_str(key_username, " (littleskin)"),
                    AccountType::Microsoft => Some(key_username),
                };
                match stripped {
                    Some(s) => s,
                    None => key_username,
                }
            },
        }
    }
}

impl Clone for ConfigAccount {
    fn clone(&self) -> (r: Self)
        ensures
            r == *self,
    {
        ConfigAccount {
            uuid: self.uuid.clone(),
            skin: match &self.skin {
                Some(s) => Some(s.clone()),
                None => None,
            },
            account_type: self.account_type,
            keyring_identifier: match &self.keyring_identifier {
                Some(s) => Some(s.clone()),
                None => None,
            },
            username_nice: match &self.username_nice {
                Some(s) => Some(s.clone()),
                None => None,
            },
        }
    }
}

/// The service of a stored account: told by the mark at the end of its key,
/// else the stored one (Microsoft when none).
pub open spec fn account_type_of(key: Seq<char>, stored: Option<AccountType>) -> AccountType {
    if strip_suffix_spec(key, " (elyby)"@) is Some {
        AccountType::ElyBy
    } else if strip_suffix_spec(key, " (littleskin)"@) is Some {
        AccountType::LittleSkin
    } else {
        match stored {
            Some(t) => t,
            None => AccountType::Microsoft,
        }
    }
}

/// The service of a stored account: told by the mark at the end of its key,
/// else the stored one (Microsoft when none).
pub fn account_type_for(key: &str, stored: Option<AccountType>) -> (r: AccountType)
    ensures
        r == account_type_of(key@, stored),
{
    if strip_suffix_str(key, " (elyby)").is_some() {
        AccountType::ElyBy
    } else if strip_suffix_str(key, " (littleskin)").is_some() {
        AccountType::LittleSkin
    } else {
        match stored {
            Some(t) => t,
            None => AccountType::Microsoft,
        }
    }
}

/// The keys of the stored accounts.
pub open spec fn account_keys(a: Seq<(String, ConfigAccount)>) -> Seq<Seq<char>> {
    Seq::new(a.len(), |i: int| a[i].0@)
}

impl LauncherConfig {
    /// A fresh configuration, as written when none exists, for the launcher
    /// of the given version.
    pub fn new_default(version_name: String) -> (r: LauncherConfig)
        ensures
            r.username@.len() == 0,
            r.version matches Some(v) && v@ == version_name@,
            r.java_installs matches Some(j) && j@.len() == 0,
            r.ui_antialiasing == Some(true),
            r.ui_mode is None,
            r.ui_theme is None,
            r.accounts is None,
            r.account_selected is None,
            r.extra_java_args is None,
            r.ui is None,
            r.sidebar is None,
            r.persistent is None,
    {
        LauncherConfig {
            username: String::new(),
            java_installs: Some(Vec::new()),
            ui_mode: None,
            ui_theme: None,
            version: Some(version_name),
            accounts: None,
            account_selected: None,
            ui_antialiasing: Some(true),
            extra_java_args: None,
            ui: None,
            sidebar: None,
            persistent: None,
        }
    }

    /// Repairs a loaded configuration: antialiasing on when unset, no
    /// selected account that is not among the accounts, and an empty list of
    /// old Java installs when unset.
    pub fn fix(&mut self)
        ensures
            final(self).ui_antialiasing == (match old(self).ui_antialiasing {
                Some(b) => Some(b),
                None => Some(true),
            }),
            ({
                let drop = match (old(self).accounts, old(self).account_selected) {
                    (Some(a), Some(s)) => !account_keys(a@).contains(s@),
                    _ => false,
                };
                if drop {
                    final(self).account_selected is None
                } else {
                    final(self).account_selected == old(self).account_selected
                }
            }),
            match old(self).java_installs {
                Some(j) => final(self).java_installs == Some(j),
                None => final(self).java_installs matches Some(j) && j@.len() == 0,
            },
            final(self).accounts == old(self).accounts,
            final(self).username == old(self).username,
            final(self).version == old(self).version,
            final(self).ui_mode == old(self).ui_mode,
            final(self).ui_theme == old(self).ui_theme,
            final(self).extra_java_args == old(self).extra_java_args,
            final(self).ui == old(self).ui,
            final(self).sidebar == old(self).sidebar,
            final(self).persistent == old(self).persistent,
    {
        if self.ui_antialiasing.is_none() {
            self.ui_antialiasing = Some(true);
        }
        let mut drop = false;
        if let (Some(accounts), Some(selected)) = (&self.accounts, &self.account_selected) {
            let ghost keys = account_keys(accounts@);
            let mut i: usize = 0;
            let mut found = false;
            while i < accounts.len()
                invariant
                    0 <= i <= accounts.len(),
                    keys == account_keys(accounts@),
                    found ==> keys.contains(selected@),
                    !found ==> forall|j: int| 0 <= j < i ==> #[trigger] keys[j] != selected@,
                decreases accounts.len() - i,
            {
                if accounts[i].0 == *selected {
                    found = true;
                    proof {
                        assert(keys[i as int] == selected@);
                    }
                }
                i += 1;
            }
            drop = !found;
        }
        if drop {
            self.account_selected = None;
        }
        if self.java_installs.is_none() {
            self.java_installs = Some(Vec::new());
        }
    }

    /// Whether the window uses the system's decorations: when no interface
    /// settings are stored, or they ask for the system's.
    pub fn uses_system_decorations(&self) -> (r: bool)
        ensures
            r == match self.ui {
                None => true,
                Some(u) => u.window_decorations == UiWindowDecorations::System,
            },
    {
        match &self.ui {
            None => true,
            Some(u) => u.window_decorations == UiWindowDecorations::System,
        }
    }

    /// The frame rate of an idle window: the one set, or 6 when none (or
    /// zero) is set.
    pub fn c_idle_fps(&self) -> (r: u64)
        ensures
            r == match self.ui {
                Some(u) => match u.idle_fps {
                    Some(f) => if f > 0 { f } else { IDLE_FPS },
                    None => IDLE_FPS,
                },
                None => IDLE_FPS,
            },
            r > 0,
    {
        let i = match &self.ui {
            Some(u) => match u.idle_fps {
                Some(f) => f,
                None => IDLE_FPS,
            },
            None => IDLE_FPS,
        };
        if i > 0 {
            i
        } else {
            IDLE_FPS
        }
    }

    /// Brings the sidebar in line with the installed instances of one kind:
    /// creates the sidebar if absent, drops the entries of vanished (or
    /// other-kind) instances, and appends an entry for each new instance.
    /// Nothing else of the configuration changes.
    pub fn update_sidebar(&mut self, instances: &Vec<String>, is_server: bool)
        ensures
            final(self).sidebar is Some,
            ({
                let kind = if is_server { InstanceKind::Server } else { InstanceKind::Client };
                let start = match old(self).sidebar {
                    Some(c) => c@,
                    None => Seq::<NodeView>::empty(),
                };
                final(self).sidebar->0@ == add_missing(retain_seq(start, names_view(instances@), kind), names_view(instances@), kind)
            }),
            final(self).username == old(self).username,
            final(self).java_installs == old(self).java_installs,
            final(self).ui_mode == old(self).ui_mode,
            final(self).ui_theme == old(self).ui_theme,
            final(self).version == old(self).version,
            final(self).accounts == old(self).accounts,
            final(self).account_selected == old(self).account_selected,
            final(self).ui_antialiasing == old(self).ui_antialiasing,
            final(self).extra_java_args == old(self).extra_java_args,
            final(self).ui == old(self).ui,
            final(self).persistent == old(self).persistent,
    {
        update_sidebar(&mut self.sidebar, instances, is_server);
    }

    /// The sidebar, made empty first when there is none.
    pub fn c_sidebar(&mut self) -> (r: &mut SidebarConfig)
        ensures
            old(self).sidebar matches Some(c) ==> *r == c,
            old(self).sidebar is None ==> r.list@.len() == 0,
            final(self).sidebar == Some(*final(r)),
            final(self).username == old(self).username,
            final(self).java_installs == old(self).java_installs,
            final(self).ui_mode == old(self).ui_mode,
            final(self).ui_theme == old(self).ui_theme,
            final(self).version == old(self).version,
            final(self).accounts == old(self).accounts,
            final(self).account_selected == old(self).account_selected,
            final(self).ui_antialiasing == old(self).ui_antialiasing,
            final(self).extra_java_args == old(self).extra_java_args,
            final(self).ui == old(self).ui,
            final(self).persistent == old(self).persistent,
    {
        self.sidebar.get_or_insert(SidebarConfig { list: Vec::new() })
    }
}

/// What the launcher remembers between runs: the last selected instance and
/// server (when remembering is on), and the version kinds picked in the
/// list of a new instance.
#[derive(Debug)]
pub struct PersistentSettings {
    pub selected_instance: Option<String>,
    pub selected_server: Option<String>,
    pub selected_remembered: bool,
    pub create_instance_filters: Option<Vec<u32>>,
}

impl Default for PersistentSettings {
    /// Nothing remembered yet, and remembering on.
    fn default() -> (r: Self)
        ensures
            r.selected_instance is None,
            r.selected_server is None,
            r.selected_remembered,
            r.create_instance_filters is None,
    {
        PersistentSettings {
            selected_instance: None,
            selected_server: None,
            selected_remembered: true,
            create_instance_filters: None,
        }
    }
}

impl PersistentSettings {
    /// The version kinds to show in the list of a new instance: those
    /// remembered, unless none are, else the given defaults.
    pub fn get_create_instance_filters(&self, defaults: Vec<u32>) -> (r: Vec<u32>)
        ensures
            r@ == match self.create_instance_filters {
                Some(f) => if f@.len() > 0 { f@ } else { defaults@ },
                None => defaults@,
            },
    {
        match &self.create_instance_filters {
            Some(f) => if f.len() > 0 { f.clone() } else { defaults },
            None => defaults,
        }
    }

    /// Takes note of the selected instance or server, when remembering is on;
    /// true when something was noted (the configuration then changed).
    pub fn remember_selection(&mut self, name: String, kind: InstanceKind) -> (noted: bool)
        ensures
            noted == old(self).selected_remembered,
            final(self).selected_remembered == old(self).selected_remembered,
            final(self).create_instance_filters == old(self).create_instance_filters,
            !noted ==> final(self).selected_instance == old(self).selected_instance && final(self).selected_server
                == old(self).selected_server,
            noted && kind == InstanceKind::Client ==> final(self).selected_instance == Some(name)
                && final(self).selected_server == old(self).selected_server,
            noted && kind == InstanceKind::Server ==> final(self).selected_server == Some(name)
                && final(self).selected_instance == old(self).selected_instance,
            *final(self) == remembered_with(*old(self), name, kind),
    {
        if !self.selected_remembered {
            return false;
        }
        match kind {
            InstanceKind::Client => self.selected_instance = Some(name),
            InstanceKind::Server => self.selected_server = Some(name),
        }
        true
    }

    /// Turns remembering the selection on or off; turning it off forgets
    /// what was remembered.
    pub fn set_remembering(&mut self, on: bool)
        ensures
            final(self).selected_remembered == on,
            final(self).create_instance_filters == old(self).create_instance_filters,
            on ==> final(self).selected_instance == old(self).selected_instance && final(self).selected_server
                == old(self).selected_server,
            !on ==> final(self).selected_instance is None && final(self).selected_server is None,
    {
        self.selected_remembered = on;
        if !on {
            self.selected_instance = None;
            self.selected_server = None;
        }
    }

    /// The instance to select at start: the remembered one, when remembering
    /// is on.
    pub fn startup_selection(&self) -> (r: Option<&String>)
        ensures
            r == (if self.selected_remembered {
                match &self.selected_instance {
                    Some(n) => Some(n),
                    None => None::<&String>,
                }
            } else {
                None::<&String>
            }),
            (match r {
                Some(x) => Some(*x),
                None => None::<String>,
            }) == startup_choice(*self),
    {
        if self.selected_remembered {
            self.selected_instance.as_ref()
        } else {
            None
        }
    }

    /// Forgets the remembered selection (both instance and server).
    pub fn unselect(&mut self)
        ensures
            final(self).selected_instance is None,
            final(self).selected_server is None,
            final(self).selected_remembered == old(self).selected_remembered,
            final(self).create_instance_filters == old(self).create_instance_filters,
    {
        self.selected_instance = None;
        self.selected_server = None;
    }

    /// Whether the remembered instance (or server) of a freshly loaded list
    /// is missing from it, so that the selection must be dropped.
    pub fn remembered_is_missing(&self, list: &Vec<String>, is_server: bool) -> (r: bool)
        ensures
            r == match (if is_server { self.selected_server } else { self.selected_instance }) {
                Some(n) => !string_views(list@).contains(n@),
                None => false,
            },
    {
        let remembered = if is_server { &self.selected_server } else { &self.selected_instance };
        match remembered {
            Some(n) => !list_has_name(list, n),
            None => false,
        }
    }
}

/// Whether a list of names holds the given one.
fn list_has_name(list: &Vec<String>, n: &String) -> (r: bool)
    ensures
        r == string_views(list@).contains(n@),
{
    let mut i: usize = 0;
    while i < list.len()
        invariant
            0 <= i <= list.len(),
            forall|j: int| 0 <= j < i ==> list@[j]@ != n@,
        decreases list.len() - i,
    {
        if str_eq(list[i].as_str(), n.as_str()) {
            proof {
                assert(string_views(list@)[i as int] == n@);
            }
            return true;
        }
        i += 1;
    }
    proof {
        if string_views(list@).contains(n@) {
            let k = choose|k: int| 0 <= k < string_views(list@).len() && string_views(list@)[k] == n@;
            assert(list@[k]@ == n@);
        }
    }
    false
}

impl LauncherConfig {
    /// What the launcher remembers between runs, made with the defaults
    /// first when there is none.
    pub fn c_persistent(&mut self) -> (r: &mut PersistentSettings)
        ensures
            *r == settings_or_default(old(self).persistent),
            final(self).persistent == Some(*final(r)),
            same_but_persistent(*old(self), *final(self)),
    {
        self.persistent.get_or_insert(PersistentSettings::default())
    }

    /// Takes a freshly loaded list of instances (or of servers): the sidebar
    /// follows it, and when the remembered selection of that kind is not in
    /// the list, the remembered selection is forgotten and true is returned,
    /// for the caller to drop its own selection too.
    pub fn list_loaded(&mut self, list: &Vec<String>, is_server: bool) -> (unselect: bool)
        ensures
            unselect == (match remembered(old(self).persistent, is_server) {
                Some(n) => !string_views(list@).contains(n@),
                None => false,
            }),
            ({
                let p = settings_or_default(old(self).persistent);
                final(self).persistent == Some(if unselect {
                    PersistentSettings { selected_instance: None, selected_server: None, ..p }
                } else {
                    p
                })
            }),
            final(self).sidebar is Some,
            ({
                let kind = if is_server { InstanceKind::Server } else { InstanceKind::Client };
                let start = match old(self).sidebar {
                    Some(c) => c@,
                    None => Seq::<NodeView>::empty(),
                };
                final(self).sidebar->0@ == add_missing(retain_seq(start, names_view(list@), kind), names_view(list@), kind)
            }),
            final(self).username == old(self).username,
            final(self).java_installs == old(self).java_installs,
            final(self).ui_mode == old(self).ui_mode,
            final(self).ui_theme == old(self).ui_theme,
            final(self).version == old(self).version,
            final(self).accounts == old(self).accounts,
            final(self).account_selected == old(self).account_selected,
            final(self).ui_antialiasing == old(self).ui_antialiasing,
            final(self).extra_java_args == old(self).extra_java_args,
            final(self).ui == old(self).ui,
    {
        self.update_sidebar(list, is_server);
        let p = self.c_persistent();
        let missing = p.remembered_is_missing(list, is_server);
        if missing {
            p.unselect();
        }
        missing
    }
}

/// What is remembered after an instance (or server) is selected: the
/// selection, when remembering is on.
pub open spec fn remembered_with(p: PersistentSettings, name: String, kind: InstanceKind) -> PersistentSettings {
    if !p.selected_remembered {
        p
    } else {
        match kind {
            InstanceKind::Client => PersistentSettings { selected_instance: Some(name), ..p },
            InstanceKind::Server => PersistentSettings { selected_server: Some(name), ..p },
        }
    }
}

/// The instance selected at start: the remembered one, when remembering is
/// on.
pub open spec fn startup_choice(p: PersistentSettings) -> Option<String> {
    if p.selected_remembered {
        p.selected_instance
    } else {
        None
    }
}

/// While remembering is on, the instance last selected is the one selected
/// at the next start; selecting a server does not change it.
pub proof fn law_selected_instance_is_restored(p: PersistentSettings, name: String, server: String)
    requires
        p.selected_remembered,
    ensures
        startup_choice(remembered_with(p, name, InstanceKind::Client)) == Some(name),
        startup_choice(remembered_with(remembered_with(p, name, InstanceKind::Client), server, InstanceKind::Server))
            == Some(name),
{
}

/// What is remembered between runs, or the defaults when nothing is yet.
pub open spec fn settings_or_default(p: Option<PersistentSettings>) -> PersistentSettings {
    match p {
        Some(p) => p,
        None => PersistentSettings {
            selected_instance: None,
            selected_server: None,
            selected_remembered: true,
            create_instance_filters: None,
        },
    }
}

/// The remembered instance (or server), if any.
pub open spec fn remembered(p: Option<PersistentSettings>, is_server: bool) -> Option<String> {
    match p {
        Some(p) => if is_server { p.selected_server } else { p.selected_instance },
        None => None,
    }
}

/// Two configurations that differ at most in what is remembered between runs.
pub open spec fn same_but_persistent(a: LauncherConfig, b: LauncherConfig) -> bool {
    &&& b.username == a.username
    &&& b.java_installs == a.java_installs
    &&& b.ui_mode == a.ui_mode
    &&& b.ui_theme == a.ui_theme
    &&& b.version == a.version
    &&& b.accounts == a.accounts
    &&& b.account_selected == a.account_selected
    &&& b.ui_antialiasing == a.ui_antialiasing
    &&& b.extra_java_args == a.extra_java_args
    &&& b.ui == a.ui
    &&& b.sidebar == a.sidebar
}

/// The rows of the stored accounts whose token could be read.
pub open spec fn kept_rows(t: Seq<Option<String>>, n: int) -> Seq<int>
    decreases n,
{
    if n <= 0 {
        Seq::empty()
    } else if t[n - 1] is Some {
        kept_rows(t, n - 1).push(n - 1)
    } else {
        kept_rows(t, n - 1)
    }
}

/// The account menu: the loaded accounts, the last loaded first, then the
/// offline entry and the entry that adds an account.
pub open spec fn account_menu(keys: Seq<Seq<char>>, t: Seq<Option<String>>, n: int) -> Seq<Seq<char>>
    decreases n,
{
    if n <= 0 {
        seq![OFFLINE_ACCOUNT_NAME@, NEW_ACCOUNT_NAME@]
    } else if t[n - 1] is Some {
        seq![keys[n - 1]] + account_menu(keys, t, n - 1)
    } else {
        account_menu(keys, t, n - 1)
    }
}

proof fn lemma_kept_rows(t: Seq<Option<String>>, n: int)
    requires
        0 <= n <= t.len(),
    ensures
        kept_rows(t, n).len() <= n,
        forall|j: int| 0 <= j < kept_rows(t, n).len() ==> 0 <= #[trigger] kept_rows(t, n)[j] < n,
    decreases n,
{
    if n > 0 {
        lemma_kept_rows(t, n - 1);
    }
}

proof fn lemma_menu_len(keys: Seq<Seq<char>>, t: Seq<Option<String>>, n: int)
    ensures
        account_menu(keys, t, n).len() >= 2,
    decreases n,
{
    if n > 0 {
        lemma_menu_len(keys, t, n - 1);
    }
}

/// The running form of a stored account whose refresh token was read.
pub open spec fn loaded_from(d: AccountData, key: Seq<char>, acc: ConfigAccount, token: Seq<char>) -> bool {
    &&& d.access_token is None
    &&& d.uuid@ == acc.uuid@
    &&& d.refresh_token@ == token
    &&& d.needs_refresh
    &&& d.account_type == account_type_of(key, acc.account_type)
    &&& d.username@ == match acc.keyring_identifier {
        Some(k) => k@,
        None => keyring_name(acc.account_type, key),
    }
    &&& d.nice_username@ == match acc.username_nice {
        Some(n) => n@,
        None => key,
    }
}

pub open spec fn stored_accounts(c: LauncherConfig) -> Seq<(String, ConfigAccount)> {
    match c.accounts {
        Some(a) => a@,
        None => Seq::empty(),
    }
}

pub open spec fn string_views(v: Seq<String>) -> Seq<Seq<char>> {
    Seq::new(v.len(), |i: int| v[i]@)
}

/// Loads the stored accounts, given the refresh token read from the keyring
/// for each (none when it could not be read): the accounts whose token was
/// read, the account menu, and the account to select (the stored choice,
/// else the first entry of the menu). Accounts whose token could not be read
/// are dropped from the configuration.
pub fn load_accounts(config: &mut LauncherConfig, refresh_tokens: &Vec<Option<String>>) -> (r: (
    Vec<(String, AccountData)>,
    Vec<String>,
    String,
))
    requires
        refresh_tokens@.len() == stored_accounts(*old(config)).len(),
    ensures
        ({
            let a = stored_accounts(*old(config));
            let t = refresh_tokens@;
            let rows = kept_rows(t, t.len() as int);
            let menu = account_menu(Seq::new(a.len(), |i: int| a[i].0@), t, t.len() as int);
            &&& r.0@.len() == rows.len()
            &&& forall|j: int|
                0 <= j < rows.len() ==> (#[trigger] r.0@[j]).0@ == a[rows[j]].0@ && loaded_from(
                    r.0@[j].1,
                    a[rows[j]].0@,
                    a[rows[j]].1,
                    t[rows[j]]->0@,
                )
            &&& string_views(r.1@) == menu
            &&& r.2@ == match old(config).account_selected {
                Some(s) => s@,
                None => menu[0],
            }
            &&& match old(config).accounts {
                Some(_) => final(config).accounts matches Some(v) && v@.len() == rows.len() && forall|j: int|
                    0 <= j < rows.len() ==> #[trigger] v@[j] == a[rows[j]],
                None => final(config).accounts is None,
            }
            &&& final(config).account_selected == old(config).account_selected
            &&& final(config).sidebar == old(config).sidebar
            &&& final(config).ui == old(config).ui
            &&& final(config).persistent == old(config).persistent
        }),
{
    let ghost a = stored_accounts(*config);
    let ghost t = refresh_tokens@;
    let ghost keys = Seq::new(a.len(), |i: int| a[i].0@);
    let mut loaded: Vec<(String, AccountData)> = Vec::new();
    let mut menu: Vec<String> = vec![OFFLINE_ACCOUNT_NAME.to_string(), NEW_ACCOUNT_NAME.to_string()];
    let mut kept: Vec<(String, ConfigAccount)> = Vec::new();
    proof {
        broadcast use vstd::string::to_string_from_display_ensures_for_str;
        assert(string_views(menu@) =~= account_menu(keys, t, 0));
    }
    if let Some(accounts) = &config.accounts {
        let mut i: usize = 0;
        while i < accounts.len()
            invariant
                0 <= i <= accounts.len(),
                a == accounts@,
                t == refresh_tokens@,
                t.len() == a.len(),
                keys == Seq::new(a.len(), |i: int| a[i].0@),
                loaded@.len() == kept_rows(t, i as int).len(),
                kept@.len() == kept_rows(t, i as int).len(),
                forall|j: int|
                    0 <= j < kept_rows(t, i as int).len() ==> (#[trigger] loaded@[j]).0@ == a[kept_rows(t, i as int)[j]].0@
                        && loaded_from(
                        loaded@[j].1,
                        a[kept_rows(t, i as int)[j]].0@,
                        a[kept_rows(t, i as int)[j]].1,
                        t[kept_rows(t, i as int)[j]]->0@,
                    ),
                forall|j: int| 0 <= j < kept_rows(t, i as int).len() ==> #[trigger] kept@[j] == a[kept_rows(t, i as int)[j]],
                string_views(menu@) == account_menu(keys, t, i as int),
            decreases accounts.len() - i,
        {
            let (username, account) = &accounts[i];
            proof {
                lemma_kept_rows(t, i as int);
                lemma_menu_len(keys, t, i as int);
            }
            let ghost rows0 = kept_rows(t, i as int);
            let ghost loaded0 = loaded@;
            let ghost kept0 = kept@;
            if let Some(token) = &refresh_tokens[i] {
                let account_type = account_type_for(username.as_str(), account.account_type);
                let keyring_username = account.get_keyring_identifier(username.as_str());
                let data = AccountData {
                    access_token: None,
                    uuid: account.uuid.clone(),
                    refresh_token: token.clone(),
                    needs_refresh: true,
                    account_type,
                    username: keyring_username.to_string(),
                    nice_username: match &account.username_nice {
                        Some(n) => n.clone(),
                        None => username.clone(),
                    },
                };
                let ghost m0 = menu@;
                menu.insert(0, username.clone());
                loaded.push((username.clone(), data));
                kept.push((username.clone(), account.clone()));
                proof {
                    let rows1 = kept_rows(t, i + 1);
                    assert(rows1 == rows0.push(i as int));
                    assert(string_views(menu@) =~= seq![keys[i as int]] + string_views(m0));
                    assert forall|j: int| 0 <= j < rows1.len() implies (#[trigger] loaded@[j]).0@ == a[rows1[j]].0@
                        && loaded_from(loaded@[j].1, a[rows1[j]].0@, a[rows1[j]].1, t[rows1[j]]->0@) by {
                        if j < rows0.len() {
                            assert(loaded@[j] == loaded0[j]);
                            assert(rows1[j] == rows0[j]);
                        }
                    }
                    assert forall|j: int| 0 <= j < rows1.len() implies #[trigger] kept@[j] == a[rows1[j]] by {
                        if j < rows0.len() {
                            assert(kept@[j] == kept0[j]);
                            assert(rows1[j] == rows0[j]);
                        }
                    }
                }
            }
            i += 1;
        }
    }
    proof {
        lemma_kept_rows(t, t.len() as int);
        lemma_menu_len(keys, t, t.len() as int);
    }
    let selected = match &config.account_selected {
        Some(s) => s.clone(),
        None => menu[0].clone(),
    };
    if config.accounts.is_some() {
        config.accounts = Some(kept);
    }
    (loaded, menu, selected)
}

/// The frame rate of the interface: fast while an entry of the sidebar is
/// dragged (for smooth scrolling at its edges), else the idle rate.
pub fn tick_interval(config: &LauncherConfig, dragging: bool) -> (r: u64)
    ensures
        dragging ==> r == 15,
        !dragging ==> r == match config.ui {
            Some(u) => match u.idle_fps {
                Some(f) => if f > 0 { f } else { IDLE_FPS },
                None => IDLE_FPS,
            },
            None => IDLE_FPS,
        },
{
    if dragging {
        15
    } else {
        config.c_idle_fps()
    }
}

} // verus!
