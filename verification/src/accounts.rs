use vstd::prelude::*;
use crate::autosave::AutoSave;
use crate::config::{
    stored_form, AccountData, AccountType, ConfigAccount, LauncherConfig, NEW_ACCOUNT_NAME, OFFLINE_ACCOUNT_NAME,
};
use crate::menu::AutoSaveKind;
use crate::text::{lowercase, str_eq, string_of, to_lowercase};

verus! {

/// The first place, from `i` on, of an entry with the key `k`.
pub open spec fn key_pos<X>(s: Seq<(String, X)>, k: Seq<char>, i: int) -> Option<int>
    decreases s.len() - i,
{
    if i < 0 || i >= s.len() {
        None
    } else if s[i].0@ == k {
        Some(i)
    } else {
        key_pos(s, k, i + 1)
    }
}

/// The entries whose key is not `k`, in their order.
pub open spec fn drop_key<X>(s: Seq<(String, X)>, k: Seq<char>) -> Seq<(String, X)>
    decreases s.len(),
{
    if s.len() == 0 {
        s
    } else if s.last().0@ == k {
        drop_key(s.drop_last(), k)
    } else {
        drop_key(s.drop_last(), k).push(s.last())
    }
}

/// The entries with the value under `k` set to `x`: the first entry with that
/// key is replaced, or the pair is added at the end.
pub open spec fn set_key<X>(s: Seq<(String, X)>, k: String, x: X) -> Seq<(String, X)> {
    match key_pos(s, k@, 0) {
        Some(i) => s.update(i, (k, x)),
        None => s.push((k, x)),
    }
}

/// The first place, from `i` on, of the name `k`.
pub open spec fn name_pos(s: Seq<String>, k: Seq<char>, i: int) -> Option<int>
    decreases s.len() - i,
{
    if i < 0 || i >= s.len() {
        None
    } else if s[i]@ == k {
        Some(i)
    } else {
        name_pos(s, k, i + 1)
    }
}

/// The names without the first `k`.
pub open spec fn drop_name(s: Seq<String>, k: Seq<char>) -> Seq<String> {
    match name_pos(s, k, 0) {
        Some(i) => s.remove(i),
        None => s,
    }
}

/// The service of the loaded account under the key (Microsoft when there is
/// none).
pub open spec fn loaded_type(s: Seq<(String, AccountData)>, k: Seq<char>) -> AccountType {
    match key_pos(s, k, 0) {
        Some(i) => s[i].1.account_type,
        None => AccountType::Microsoft,
    }
}

/// The stored accounts, none standing for an empty list.
pub open spec fn stored_or_empty(a: Option<Vec<(String, ConfigAccount)>>) -> Seq<(String, ConfigAccount)> {
    match a {
        Some(v) => v@,
        None => Seq::empty(),
    }
}

/// The configuration is the same but for its accounts and chosen account.
pub open spec fn same_but_accounts(a: LauncherConfig, b: LauncherConfig) -> bool {
    &&& a.username == b.username
    &&& a.java_installs == b.java_installs
    &&& a.ui_mode == b.ui_mode
    &&& a.ui_theme == b.ui_theme
    &&& a.version == b.version
    &&& a.ui_antialiasing == b.ui_antialiasing
    &&& a.extra_java_args == b.extra_java_args
    &&& a.ui == b.ui
    &&& a.sidebar == b.sidebar
    &&& a.persistent == b.persistent
}

proof fn lemma_key_pos_range<X>(s: Seq<(String, X)>, k: Seq<char>, i: int)
    ensures
        key_pos(s, k, i) matches Some(j) ==> (0 <= i <= j < s.len() && s[j].0@ == k),
    decreases s.len() - i,
{
    if 0 <= i < s.len() {
        lemma_key_pos_range(s, k, i + 1);
    }
}

proof fn lemma_name_pos_range(s: Seq<String>, k: Seq<char>, i: int)
    ensures
        name_pos(s, k, i) matches Some(j) ==> (0 <= i <= j < s.len() && s[j]@ == k),
    decreases s.len() - i,
{
    if 0 <= i < s.len() {
        lemma_name_pos_range(s, k, i + 1);
    }
}

/// The place of the first entry with the key.
fn find_key<X>(v: &Vec<(String, X)>, k: &str) -> (r: Option<usize>)
    ensures
        match r {
            Some(i) => key_pos(v@, k@, 0) == Some(i as int),
            None => key_pos(v@, k@, 0) is None,
        },
{
    proof {
        lemma_key_pos_range(v@, k@, 0);
    }
    let mut i: usize = 0;
    while i < v.len()
        invariant
            0 <= i <= v.len(),
            key_pos(v@, k@, 0) == key_pos(v@, k@, i as int),
        decreases v.len() - i,
    {
        if str_eq(v[i].0.as_str(), k) {
            return Some(i);
        }
        i += 1;
    }
    None
}

/// The place of the first `k` among the names.
fn find_name(v: &Vec<String>, k: &str) -> (r: Option<usize>)
    ensures
        match r {
            Some(i) => name_pos(v@, k@, 0) == Some(i as int),
            None => name_pos(v@, k@, 0) is None,
        },
{
    proof {
        lemma_name_pos_range(v@, k@, 0);
    }
    let mut i: usize = 0;
    while i < v.len()
        invariant
            0 <= i <= v.len(),
            name_pos(v@, k@, 0) == name_pos(v@, k@, i as int),
        decreases v.len() - i,
    {
        if str_eq(v[i].as_str(), k) {
            return Some(i);
        }
        i += 1;
    }
    None
}

/// Takes out every entry with the key.
fn remove_key<X>(v: &mut Vec<(String, X)>, k: &str)
    ensures
        final(v)@ == drop_key(old(v)@, k@),
{
    let ghost orig = v@;
    let ghost mut j: int = 0;
    let mut i: usize = 0;
    proof {
        assert(orig.take(0) =~= Seq::<(String, X)>::empty());
        assert(v@.take(0) =~= drop_key(orig.take(0), k@));
        assert(v@.skip(0) =~= orig.skip(0));
    }
    while i < v.len()
        invariant
            0 <= i <= v.len(),
            0 <= j <= orig.len(),
            v@.len() == i + (orig.len() - j),
            v@.take(i as int) == drop_key(orig.take(j), k@),
            v@.skip(i as int) == orig.skip(j),
        decreases v.len() - i,
    {
        proof {
            assert(v@[i as int] == v@.skip(i as int)[0]);
            assert(orig[j] == orig.skip(j)[0]);
            assert(orig.take(j + 1).drop_last() =~= orig.take(j));
            assert(orig.take(j + 1).last() == orig[j]);
        }
        if str_eq(v[i].0.as_str(), k) {
            let ghost before = v@;
            v.remove(i);
            proof {
                assert(v@.take(i as int) =~= before.take(i as int));
                assert(v@.skip(i as int) =~= before.skip(i as int + 1));
                assert(before.skip(i as int + 1) =~= orig.skip(j + 1)) by {
                    assert(before.skip(i as int).skip(1) =~= before.skip(i as int + 1));
                    assert(orig.skip(j).skip(1) =~= orig.skip(j + 1));
                }
                j = j + 1;
            }
        } else {
            proof {
                assert(v@.take(i as int + 1) =~= v@.take(i as int).push(v@[i as int]));
                assert(v@.skip(i as int + 1) =~= orig.skip(j + 1)) by {
                    assert(v@.skip(i as int).skip(1) =~= v@.skip(i as int + 1));
                    assert(orig.skip(j).skip(1) =~= orig.skip(j + 1));
                }
                j = j + 1;
            }
            i += 1;
        }
    }
    proof {
        assert(j == orig.len());
        assert(orig.take(j) =~= orig);
        assert(v@.take(i as int) =~= v@);
    }
}

/// Sets the value under the key (see `set_key`).
fn put_key<X>(v: &mut Vec<(String, X)>, k: String, x: X)
    ensures
        final(v)@ == set_key(old(v)@, k, x),
{
    proof {
        lemma_key_pos_range(v@, k@, 0);
    }
    match find_key(v, k.as_str()) {
        Some(i) => {
            v.set(i, (k, x));
        },
        None => {
            v.push((k, x));
        },
    }
}

/// The service an account type given on the command line names, in any
/// case: "elyby" or "ely.by", "littleskin" or "littleskin.cn", "microsoft"
/// or "ms"; none for any other text.
pub open spec fn named_account_type(t: Seq<char>) -> Option<AccountType> {
    lowered_account_type(lowercase(t))
}

/// The service a lowercased account type names: "elyby" or "ely.by",
/// "littleskin" or "littleskin.cn", "microsoft" or "ms"; none for any other
/// text.
pub open spec fn lowered_account_type(l: Seq<char>) -> Option<AccountType> {
    if l == "elyby"@ || l == "ely.by"@ {
        Some(AccountType::ElyBy)
    } else if l == "littleskin"@ || l == "littleskin.cn"@ {
        Some(AccountType::LittleSkin)
    } else if l == "microsoft"@ || l == "ms"@ {
        Some(AccountType::Microsoft)
    } else {
        None
    }
}

/// Reads an account type given on the command line (see
/// `named_account_type`).
pub fn parse_account_type(t: &str) -> (r: Option<AccountType>)
    ensures
        r == named_account_type(t@),
{
    let l = to_lowercase(t);
    account_type_of_lowered(l.as_str())
}

/// Reads an account type already lowercased (see `lowered_account_type`).
pub fn account_type_of_lowered(l: &str) -> (r: Option<AccountType>)
    ensures
        r == lowered_account_type(l@),
{
    if str_eq(l, "elyby") || str_eq(l, "ely.by") {
        Some(AccountType::ElyBy)
    } else if str_eq(l, "littleskin") || str_eq(l, "littleskin.cn") {
        Some(AccountType::LittleSkin)
    } else if str_eq(l, "microsoft") || str_eq(l, "ms") {
        Some(AccountType::Microsoft)
    } else {
        None
    }
}

/// Whether a stored account goes by the name: its keyring name or its shown
/// name is it.
pub open spec fn goes_by(a: ConfigAccount, name: Seq<char>) -> bool {
    (a.keyring_identifier matches Some(k) && k@ == name) || (a.username_nice matches Some(u) && u@ == name)
}

/// The first stored account, from `i` on, that goes by the name.
pub open spec fn first_going_by(s: Seq<(String, ConfigAccount)>, name: Seq<char>, i: int) -> Option<int>
    decreases s.len() - i,
{
    if i < 0 || i >= s.len() {
        None
    } else if goes_by(s[i].1, name) {
        Some(i)
    } else {
        first_going_by(s, name, i + 1)
    }
}

/// The stored account a launch from the command line uses: with a key
/// given (the name marked with the service named on the command line), the
/// account under that key; else the account stored under the name, or
/// failing that the first that goes by it.
pub open spec fn account_for_launch(
    s: Seq<(String, ConfigAccount)>,
    name: Seq<char>,
    key: Option<Seq<char>>,
) -> Option<int> {
    match key {
        Some(k) => key_pos(s, k, 0),
        None => match key_pos(s, name, 0) {
            Some(i) => Some(i),
            None => first_going_by(s, name, 0),
        },
    }
}

fn name_is(o: &Option<String>, name: &str) -> (r: bool)
    ensures
        r == (o matches Some(k) && k@ == name@),
{
    match o {
        Some(k) => str_eq(k.as_str(), name),
        None => false,
    }
}

/// Finds, by its place among the stored accounts, the account a launch from
/// the command line uses (see `account_for_launch`); none when no account is
/// stored.
pub fn find_account(config: &LauncherConfig, username: &str, key: Option<&str>) -> (r: Option<usize>)
    ensures
        match config.accounts {
            None => r is None,
            Some(v) => match r {
                Some(i) => account_for_launch(v@, username@, match key {
                    Some(k) => Some(k@),
                    None => None,
                }) == Some(i as int),
                None => account_for_launch(v@, username@, match key {
                    Some(k) => Some(k@),
                    None => None,
                }) is None,
            },
        },
{
    let accounts = match &config.accounts {
        Some(a) => a,
        None => return None,
    };
    if let Some(k) = key {
        return find_key(accounts, k);
    }
    if let Some(i) = find_key(accounts, username) {
        return Some(i);
    }
    let mut i: usize = 0;
    while i < accounts.len()
        invariant
            0 <= i <= accounts.len(),
            config.accounts matches Some(v) && v@ == accounts@,
            key is None,
            key_pos(accounts@, username@, 0) is None,
            first_going_by(accounts@, username@, 0) == first_going_by(accounts@, username@, i as int),
        decreases accounts.len() - i,
    {
        let a = &accounts[i].1;
        if name_is(&a.keyring_identifier, username) || name_is(&a.username_nice, username) {
            return Some(i);
        }
        i += 1;
    }
    None
}

/// The access tokens of the loaded accounts, in order, that the game's log
/// must not show.
pub open spec fn tokens_of(s: Seq<(String, AccountData)>) -> Seq<Seq<char>>
    decreases s.len(),
{
    if s.len() == 0 {
        Seq::empty()
    } else {
        match s.last().1.access_token {
            Some(t) => tokens_of(s.drop_last()).push(t@),
            None => tokens_of(s.drop_last()),
        }
    }
}

/// The texts to hide from a launched game's log: the access token of every
/// loaded account that has one.
pub fn log_censors(accounts: &Vec<(String, AccountData)>) -> (r: Vec<String>)
    ensures
        r@.len() == tokens_of(accounts@).len(),
        forall|j: int| 0 <= j < r@.len() ==> #[trigger] r@[j]@ == tokens_of(accounts@)[j],
{
    let mut r: Vec<String> = Vec::new();
    let mut i: usize = 0;
    while i < accounts.len()
        invariant
            0 <= i <= accounts.len(),
            r@.len() == tokens_of(accounts@.take(i as int)).len(),
            forall|j: int| 0 <= j < r@.len() ==> #[trigger] r@[j]@ == tokens_of(accounts@.take(i as int))[j],
        decreases accounts.len() - i,
    {
        proof {
            assert(accounts@.take(i + 1).drop_last() =~= accounts@.take(i as int));
            assert(accounts@.take(i + 1).last() == accounts@[i as int]);
        }
        if let Some(t) = &accounts[i].1.access_token {
            r.push(t.clone());
        }
        i += 1;
    }
    proof {
        assert(accounts@.take(i as int) =~= accounts@);
    }
    r
}

/// Every access token of a loaded account is hidden from the game's log.
pub proof fn law_every_token_is_censored(s: Seq<(String, AccountData)>, i: int)
    requires
        0 <= i < s.len(),
        s[i].1.access_token is Some,
    ensures
        tokens_of(s).contains(s[i].1.access_token->0@),
    decreases s.len(),
{
    let last = s.len() - 1;
    if i == last {
        let t = tokens_of(s.drop_last()).push(s[i].1.access_token->0@);
        assert(s.last() == s[i]);
        assert(t[t.len() - 1] == s[i].1.access_token->0@);
    } else {
        let d = s.drop_last();
        assert(d[i] == s[i]);
        law_every_token_is_censored(d, i);
        let k = choose|k: int| 0 <= k < tokens_of(d).len() && tokens_of(d)[k] == s[i].1.access_token->0@;
        match s.last().1.access_token {
            Some(tok) => {
                assert(tokens_of(s) == tokens_of(d).push(tok@));
                assert(tokens_of(s)[k] == tokens_of(d)[k]);
            },
            None => {},
        }
    }
}

/// The loaded account a game is launched with: the chosen one, by its place
/// among the loaded accounts; none for the offline entry, the entry that adds
/// an account, or a choice that is not loaded.
pub fn selected_account_data(accounts: &Vec<(String, AccountData)>, selected: &str) -> (r: Option<usize>)
    ensures
        r == (if selected@ == NEW_ACCOUNT_NAME@ || selected@ == OFFLINE_ACCOUNT_NAME@ {
            None
        } else {
            match key_pos(accounts@, selected@, 0) {
                Some(i) => Some(i as usize),
                None => None,
            }
        }),
{
    if str_eq(selected, NEW_ACCOUNT_NAME) || str_eq(selected, OFFLINE_ACCOUNT_NAME) {
        return None;
    }
    proof {
        lemma_key_pos_range(accounts@, selected@, 0);
    }
    find_key(accounts, selected)
}

/// What picking an entry of the account menu does. The entry that adds an
/// account opens the login screen (the result is true) and changes nothing.
/// Any other entry becomes the chosen one, and is remembered in the
/// configuration unless it is the offline entry.
pub fn account_selected(config: &mut LauncherConfig, selected: &mut String, account: String) -> (opens_login: bool)
    ensures
        opens_login == (account@ == NEW_ACCOUNT_NAME@),
        opens_login ==> *final(selected) == *old(selected) && *final(config) == *old(config),
        !opens_login ==> *final(selected) == account,
        !opens_login ==> final(config).account_selected == (if account@ == OFFLINE_ACCOUNT_NAME@ {
            old(config).account_selected
        } else {
            Some(account)
        }),
        same_but_accounts(*final(config), *old(config)),
        final(config).accounts == old(config).accounts,
{
    if str_eq(account.as_str(), NEW_ACCOUNT_NAME) {
        return true;
    }
    if !str_eq(account.as_str(), OFFLINE_ACCOUNT_NAME) {
        config.account_selected = Some(account.clone());
    }
    *selected = account;
    false
}

/// Logs out of the chosen account: it leaves the stored accounts, the loaded
/// accounts and the account menu, and the first entry left in the menu (the
/// offline entry when none is left) becomes the chosen one. The launcher
/// configuration is marked changed. Gives the service of the account, for
/// taking its token out of the keyring.
pub fn logout_selected(
    config: &mut LauncherConfig,
    accounts: &mut Vec<(String, AccountData)>,
    dropdown: &mut Vec<String>,
    selected: &mut String,
    autosave: &mut AutoSave,
) -> (r: AccountType)
    ensures
        r == loaded_type(old(accounts)@, old(selected)@),
        final(autosave)@ == old(autosave)@.remove(AutoSaveKind::LauncherConfig),
        match old(config).accounts {
            Some(v) => final(config).accounts matches Some(w) && w@ == drop_key(v@, old(selected)@),
            None => final(config).accounts is None,
        },
        final(config).account_selected == old(config).account_selected,
        same_but_accounts(*final(config), *old(config)),
        final(accounts)@ == drop_key(old(accounts)@, old(selected)@),
        final(dropdown)@ == drop_name(old(dropdown)@, old(selected)@),
        final(selected)@ == (if final(dropdown)@.len() > 0 {
            final(dropdown)@[0]@
        } else {
            OFFLINE_ACCOUNT_NAME@
        }),
{
    autosave.remove(AutoSaveKind::LauncherConfig);
    let username = selected.clone();
    proof {
        lemma_key_pos_range(accounts@, username@, 0);
    }
    let account_type = match find_key(accounts, username.as_str()) {
        Some(i) => accounts[i].1.account_type,
        None => AccountType::Microsoft,
    };
    match &mut config.accounts {
        Some(stored) => remove_key(stored, username.as_str()),
        None => {},
    }
    remove_key(accounts, username.as_str());
    proof {
        lemma_name_pos_range(dropdown@, username@, 0);
    }
    match find_name(dropdown, username.as_str()) {
        Some(i) => {
            dropdown.remove(i);
        },
        None => {},
    }
    *selected = if dropdown.len() > 0 {
        dropdown[0].clone()
    } else {
        string_of(OFFLINE_ACCOUNT_NAME)
    };
    account_type
}

/// Takes in a finished login, stored under `key` (its user name marked with
/// its service). A login named like the offline entry or the entry that adds
/// an account, or one already in the account menu, changes nothing (the
/// result is false). Otherwise the key goes first in the account menu and
/// becomes the chosen one, and the account joins the stored accounts (in its
/// stored form) and the loaded ones. The launcher configuration is marked
/// changed either way.
pub fn add_logged_in_account(
    config: &mut LauncherConfig,
    accounts: &mut Vec<(String, AccountData)>,
    dropdown: &mut Vec<String>,
    selected: &mut String,
    autosave: &mut AutoSave,
    data: AccountData,
    key: String,
) -> (added: bool)
    ensures
        final(autosave)@ == old(autosave)@.remove(AutoSaveKind::LauncherConfig),
        added == !(data.username@ == OFFLINE_ACCOUNT_NAME@ || data.username@ == NEW_ACCOUNT_NAME@ || name_pos(
            old(dropdown)@,
            key@,
            0,
        ) is Some),
        !added ==> *final(config) == *old(config) && final(accounts)@ == old(accounts)@ && final(dropdown)@ == old(
            dropdown,
        )@ && *final(selected) == *old(selected),
        added ==> final(dropdown)@ == seq![key] + old(dropdown)@,
        added ==> *final(selected) == key,
        added ==> (final(config).accounts matches Some(w) && w@ == set_key(
            stored_or_empty(old(config).accounts),
            key,
            stored_form(data),
        )),
        added ==> final(accounts)@ == set_key(old(accounts)@, key, data),
        final(config).account_selected == old(config).account_selected,
        same_but_accounts(*final(config), *old(config)),
{
    autosave.remove(AutoSaveKind::LauncherConfig);
    if str_eq(data.username.as_str(), OFFLINE_ACCOUNT_NAME) || str_eq(data.username.as_str(), NEW_ACCOUNT_NAME) {
        return false;
    }
    if find_name(dropdown, key.as_str()).is_some() {
        return false;
    }
    dropdown.insert(0, key.clone());
    proof {
        assert(dropdown@ =~= seq![key] + old(dropdown)@);
    }
    let stored = ConfigAccount::from_account(&data);
    let mut list = match config.accounts.take() {
        Some(v) => v,
        None => Vec::new(),
    };
    proof {
        assert(list@ =~= stored_or_empty(old(config).accounts));
    }
    put_key(&mut list, key.clone(), stored);
    config.accounts = Some(list);
    *selected = key.clone();
    put_key(accounts, key, data);
    true
}

proof fn lemma_key_pos_none<X>(s: Seq<(String, X)>, k: Seq<char>, i: int)
    requires
        0 <= i,
    ensures
        (key_pos(s, k, i) is None) == (forall|j: int| i <= j < s.len() ==> (#[trigger] s[j]).0@ != k),
    decreases s.len() - i,
{
    if i < s.len() {
        lemma_key_pos_none(s, k, i + 1);
    }
}

proof fn lemma_drop_key_absent<X>(s: Seq<(String, X)>, k: Seq<char>)
    requires
        forall|j: int| 0 <= j < s.len() ==> (#[trigger] s[j]).0@ != k,
    ensures
        drop_key(s, k) == s,
    decreases s.len(),
{
    if s.len() > 0 {
        let t = s.drop_last();
        assert forall|j: int| 0 <= j < t.len() implies (#[trigger] t[j]).0@ != k by {
            assert(t[j] == s[j]);
        }
        lemma_drop_key_absent(t, k);
        assert(s.last() == s[s.len() - 1]);
        assert(t.push(s.last()) =~= s);
    }
}

/// Logging out right after a new login, of an account that was not stored or
/// loaded before, restores the account menu and the stored and loaded
/// accounts.
pub proof fn law_logout_undoes_login<X>(menu: Seq<String>, entries: Seq<(String, X)>, key: String, x: X)
    requires
        name_pos(menu, key@, 0) is None,
        key_pos(entries, key@, 0) is None,
    ensures
        drop_name(seq![key] + menu, key@) == menu,
        drop_key(set_key(entries, key, x), key@) == entries,
{
    assert(name_pos(seq![key] + menu, key@, 0) == Some(0int));
    assert((seq![key] + menu).remove(0) =~= menu);
    lemma_key_pos_none(entries, key@, 0);
    let pushed = entries.push((key, x));
    assert(pushed.drop_last() =~= entries);
    assert(pushed.last().0@ == key@);
    lemma_drop_key_absent(entries, key@);
}

} // verus!
