//! The sessions, connections and relay accounts that the panels work on.

use vstd::prelude::*;

use crate::text::{same, texts};

verus! {

/// The kind of a session, as far as the panels tell them apart.
#[derive(Clone, Copy, PartialEq, Eq, Structural, Debug)]
pub enum SessionType {
    Ssh,
    Other,
}

/// How an SSH connection authenticates.
#[derive(Clone, Debug, PartialEq)]
pub enum SshAuth {
    Password { password: String },
    Key { private_key_path: String, passphrase: Option<String> },
    Agent,
}

/// The kind of a proxy.
#[derive(Clone, Copy, PartialEq, Eq, Structural, Debug)]
pub enum ProxyKind {
    Http,
    Https,
    Socks5,
}

/// The proxy of a connection.
#[derive(Clone, Debug, PartialEq)]
pub struct ProxyConfig {
    pub kind: ProxyKind,
    pub host: String,
    pub port: u16,
    pub username: Option<String>,
    pub password: Option<String>,
}

/// The settings of an SSH connection.
#[derive(Clone, Debug, PartialEq)]
pub struct SshConfig {
    pub host: String,
    pub port: u16,
    pub username: String,
    pub auth: SshAuth,
    pub terminal_type: String,
    pub proxy: Option<ProxyConfig>,
}

/// What a connection connects to.
#[derive(Clone, Debug, PartialEq)]
pub enum ConnectionKind {
    Ssh(SshConfig),
    Other,
}

/// A saved connection.
#[derive(Clone, Debug, PartialEq)]
pub struct ConnectionConfig {
    pub id: String,
    pub name: String,
    pub kind: ConnectionKind,
    pub group: Option<String>,
    pub onekey: bool,
    pub login_script: Option<String>,
}

/// An open session.
#[derive(Clone, Debug, PartialEq)]
pub struct SessionTab {
    pub id: String,
    pub name: String,
    pub kind: SessionType,
    /// The host name that the shell reported last.
    pub hostname: Option<String>,
}

/// The connection that a session was opened from.
#[derive(Clone, Debug, PartialEq)]
pub struct SessionConfig {
    pub tab_id: String,
    pub config: ConnectionConfig,
}

/// The open sessions. Each session has at most one connection.
#[derive(Clone, Debug, PartialEq)]
pub struct AppState {
    pub sessions: Vec<SessionTab>,
    pub active_session: Option<String>,
    pub session_configs: Vec<SessionConfig>,
}

/// The first session of an id.
pub open spec fn tab_of(tabs: Seq<SessionTab>, id: Seq<char>) -> Option<SessionTab>
    decreases tabs.len(),
{
    if tabs.len() == 0 {
        None
    } else if tabs[0].id@ == id {
        Some(tabs[0])
    } else {
        tab_of(tabs.drop_first(), id)
    }
}

/// The connection of a session.
pub open spec fn config_of(configs: Seq<SessionConfig>, tab_id: Seq<char>) -> Option<
    ConnectionConfig,
>
    decreases configs.len(),
{
    if configs.len() == 0 {
        None
    } else if configs[0].tab_id@ == tab_id {
        Some(configs[0].config)
    } else {
        config_of(configs.drop_first(), tab_id)
    }
}

/// A session that is found is one of the list and has the id.
pub proof fn lemma_tab_found(tabs: Seq<SessionTab>, id: Seq<char>)
    ensures
        tab_of(tabs, id) matches Some(tab) ==> tab.id@ == id && tabs.contains(tab),
        tab_of(tabs, id) is None ==> forall|i: int|
            0 <= i < tabs.len() ==> (#[trigger] tabs[i]).id@ != id,
    decreases tabs.len(),
{
    if tabs.len() > 0 {
        if tabs[0].id@ != id {
            lemma_tab_found(tabs.drop_first(), id);
            assert forall|i: int| tab_of(tabs, id) is None && 0 <= i < tabs.len() implies (
            #[trigger] tabs[i]).id@ != id by {
                if i > 0 {
                    assert(tabs.drop_first()[i - 1] == tabs[i]);
                }
            }
            if tab_of(tabs, id) is Some {
                let tab = tab_of(tabs, id)->0;
                let i = choose|i: int| 0 <= i < tabs.drop_first().len() && tabs.drop_first()[i] == tab;
                assert(tabs[i + 1] == tab);
            }
        } else {
            assert(tabs.contains(tabs[0]));
        }
    }
}

impl AppState {
    /// The session of an id.
    pub fn tab(&self, id: &str) -> (r: Option<&SessionTab>)
        ensures
            match r {
                Some(tab) => tab_of(self.sessions@, id@) == Some(*tab),
                None => tab_of(self.sessions@, id@) is None,
            },
    {
        let mut i: usize = 0;
        assert(self.sessions@.skip(0) == self.sessions@);
        while i < self.sessions.len()
            invariant
                i <= self.sessions@.len(),
                tab_of(self.sessions@.skip(i as int), id@) == tab_of(self.sessions@, id@),
            decreases self.sessions@.len() - i,
        {
            if same(self.sessions[i].id.as_str(), id) {
                return Some(&self.sessions[i]);
            }
            assert(self.sessions@.skip(i as int).drop_first() == self.sessions@.skip(i + 1));
            i = i + 1;
        }
        None
    }

    /// The connection of a session.
    pub fn config(&self, tab_id: &str) -> (r: Option<&ConnectionConfig>)
        ensures
            match r {
                Some(config) => config_of(self.session_configs@, tab_id@) == Some(*config),
                None => config_of(self.session_configs@, tab_id@) is None,
            },
    {
        let mut i: usize = 0;
        assert(self.session_configs@.skip(0) == self.session_configs@);
        while i < self.session_configs.len()
            invariant
                i <= self.session_configs@.len(),
                config_of(self.session_configs@.skip(i as int), tab_id@) == config_of(self.session_configs@, tab_id@),
            decreases self.session_configs@.len() - i,
        {
            if same(self.session_configs[i].tab_id.as_str(), tab_id) {
                return Some(&self.session_configs[i].config);
            }
            assert(self.session_configs@.skip(i as int).drop_first() == self.session_configs@.skip(i + 1));
            i = i + 1;
        }
        None
    }
}

// ---------------------------------------------------------------------------------------------
// Relay accounts
// ---------------------------------------------------------------------------------------------

/// An account of the relay.
#[derive(Clone, Debug, PartialEq)]
pub struct RelayAccount {
    pub username: String,
    pub password_hash: String,
    pub allowed_hosts: Vec<String>,
    pub allowed_commands: Vec<String>,
    pub readonly: bool,
}

/// What an account holds.
#[verifier::ext_equal]
pub struct AccountText {
    pub username: Seq<char>,
    pub password_hash: Seq<char>,
    pub allowed_hosts: Seq<Seq<char>>,
    pub allowed_commands: Seq<Seq<char>>,
    pub readonly: bool,
}

impl View for RelayAccount {
    type V = AccountText;

    open spec fn view(&self) -> AccountText {
        AccountText {
            username: self.username@,
            password_hash: self.password_hash@,
            allowed_hosts: texts(self.allowed_hosts@),
            allowed_commands: texts(self.allowed_commands@),
            readonly: self.readonly,
        }
    }
}

/// What a list of accounts holds.
pub open spec fn accounts_view(accounts: Seq<RelayAccount>) -> Seq<AccountText> {
    accounts.map_values(|a: RelayAccount| a@)
}

/// Whether an account of this name is in the list.
pub open spec fn has_account(accounts: Seq<RelayAccount>, username: Seq<char>) -> bool {
    exists|i: int| 0 <= i < accounts.len() && (#[trigger] accounts[i]).username@ == username
}

/// Having another name.
pub open spec fn account_other(username: Seq<char>) -> spec_fn(RelayAccount) -> bool {
    |a: RelayAccount| a.username@ != username
}

/// Whether an account of this name is in the list.
pub fn account_exists(accounts: &Vec<RelayAccount>, username: &str) -> (r: bool)
    ensures
        r == has_account(accounts@, username@),
{
    for i in 0..accounts.len()
        invariant
            forall|j: int| 0 <= j < i ==> (#[trigger] accounts@[j]).username@ != username@,
    {
        if same(accounts[i].username.as_str(), username) {
            return true;
        }
    }
    false
}

/// Takes the accounts of this name out of the list; the others stay in their order.
pub fn remove_account(accounts: &mut Vec<RelayAccount>, username: &str)
    ensures
        final(accounts)@ == old(accounts)@.filter(account_other(username@)),
{
    let ghost all = accounts@;
    let ghost keep = account_other(username@);
    let mut rest: Vec<RelayAccount> = Vec::new();
    std::mem::swap(&mut rest, accounts);
    let count: usize = rest.len();
    let mut left: usize = count;
    let mut kept: Vec<RelayAccount> = Vec::new();
    proof {
        crate::text::lemma_filter_none(all, keep);
    }
    while left > 0
        invariant
            left <= count == all.len(),
            rest@ == all.skip(count - left),
            keep == account_other(username@),
            kept@ == all.take(count - left).filter(keep),
        decreases left,
    {
        proof {
            crate::text::lemma_filter_step(all, count - left, keep);
        }
        let account = rest.remove(0);
        if !same(account.username.as_str(), username) {
            kept.push(account);
        }
        left = left - 1;
    }
    proof {
        crate::text::lemma_filter_none(all, keep);
    }
    *accounts = kept;
}

/// After taking a name out no account has it, and no other name is lost.
pub proof fn law_removed_account_is_gone(
    accounts: Seq<RelayAccount>,
    username: Seq<char>,
    other: Seq<char>,
)
    ensures
        !has_account(accounts.filter(account_other(username)), username),
        other != username ==> (has_account(accounts.filter(account_other(username)), other)
            <==> has_account(accounts, other)),
    decreases accounts.len(),
{
    reveal(Seq::filter);
    let keep = account_other(username);
    if accounts.len() > 0 {
        let before = accounts.drop_last();
        law_removed_account_is_gone(before, username, other);
        let kept = before.filter(keep);
        let all = accounts.filter(keep);
        if has_account(all, username) {
            let i = choose|i: int| 0 <= i < all.len() && (#[trigger] all[i]).username@ == username;
            if i < kept.len() {
                assert(kept[i].username@ == username);
            }
            assert(false);
        }
        if other != username {
            if has_account(all, other) {
                let i = choose|i: int| 0 <= i < all.len() && (#[trigger] all[i]).username@ == other;
                if i < kept.len() {
                    assert(kept[i].username@ == other);
                    let j = choose|j: int|
                        0 <= j < before.len() && (#[trigger] before[j]).username@ == other;
                    assert(accounts[j].username@ == other);
                } else {
                    assert(accounts[accounts.len() - 1].username@ == other);
                }
            }
            if has_account(accounts, other) {
                let i = choose|i: int|
                    0 <= i < accounts.len() && (#[trigger] accounts[i]).username@ == other;
                if i < before.len() {
                    assert(before[i].username@ == other);
                    let j = choose|j: int|
                        0 <= j < kept.len() && (#[trigger] kept[j]).username@ == other;
                    assert(all[j].username@ == other);
                } else {
                    assert(all[all.len() - 1].username@ == other);
                }
            }
        }
    }
}

/// The session of an id is the first one that has it, and the connection of a session is the
/// first one that is held for it; where none is held, there is none.
pub proof fn law_first_of_the_id(
    tabs: Seq<SessionTab>,
    configs: Seq<SessionConfig>,
    id: Seq<char>,
    i: int,
)
    ensures
        0 <= i < tabs.len() && tabs[i].id@ == id && (forall|j: int|
            0 <= j < i ==> (#[trigger] tabs[j]).id@ != id) ==> tab_of(tabs, id) == Some(tabs[i]),
        0 <= i < configs.len() && configs[i].tab_id@ == id && (forall|j: int|
            0 <= j < i ==> (#[trigger] configs[j]).tab_id@ != id) ==> config_of(configs, id)
            == Some(configs[i].config),
        (forall|j: int| 0 <= j < tabs.len() ==> (#[trigger] tabs[j]).id@ != id) ==> tab_of(
            tabs,
            id,
        ) is None,
        (forall|j: int| 0 <= j < configs.len() ==> (#[trigger] configs[j]).tab_id@ != id)
            ==> config_of(configs, id) is None,
{
    lemma_first_tab(tabs, id, i);
    lemma_first_config(configs, id, i);
}

proof fn lemma_first_tab(tabs: Seq<SessionTab>, id: Seq<char>, i: int)
    ensures
        0 <= i < tabs.len() && tabs[i].id@ == id && (forall|j: int|
            0 <= j < i ==> (#[trigger] tabs[j]).id@ != id) ==> tab_of(tabs, id) == Some(tabs[i]),
        (forall|j: int| 0 <= j < tabs.len() ==> (#[trigger] tabs[j]).id@ != id) ==> tab_of(
            tabs,
            id,
        ) is None,
    decreases tabs.len(),
{
    if tabs.len() > 0 {
        let rest = tabs.drop_first();
        lemma_first_tab(rest, id, i - 1);
        assert forall|j: int| 0 <= j < rest.len() implies #[trigger] rest[j] == tabs[j + 1] by {}
        if tabs[0].id@ != id {
            if 0 < i < tabs.len() && (forall|j: int|
                0 <= j < i ==> (#[trigger] tabs[j]).id@ != id) {
                assert forall|j: int| 0 <= j < i - 1 implies (#[trigger] rest[j]).id@ != id by {
                    assert(tabs[j + 1].id@ != id);
                }
            }
            if forall|j: int| 0 <= j < tabs.len() ==> (#[trigger] tabs[j]).id@ != id {
                assert forall|j: int| 0 <= j < rest.len() implies (#[trigger] rest[j]).id@ != id by {
                    assert(tabs[j + 1].id@ != id);
                }
            }
        }
    }
}

proof fn lemma_first_config(configs: Seq<SessionConfig>, id: Seq<char>, i: int)
    ensures
        0 <= i < configs.len() && configs[i].tab_id@ == id && (forall|j: int|
            0 <= j < i ==> (#[trigger] configs[j]).tab_id@ != id) ==> config_of(configs, id)
            == Some(configs[i].config),
        (forall|j: int| 0 <= j < configs.len() ==> (#[trigger] configs[j]).tab_id@ != id)
            ==> config_of(configs, id) is None,
    decreases configs.len(),
{
    if configs.len() > 0 {
        let rest = configs.drop_first();
        lemma_first_config(rest, id, i - 1);
        assert forall|j: int| 0 <= j < rest.len() implies #[trigger] rest[j] == configs[j + 1] by {}
        if configs[0].tab_id@ != id {
            if 0 < i < configs.len() && (forall|j: int|
                0 <= j < i ==> (#[trigger] configs[j]).tab_id@ != id) {
                assert forall|j: int| 0 <= j < i - 1 implies (#[trigger] rest[j]).tab_id@ != id by {
                    assert(configs[j + 1].tab_id@ != id);
                }
            }
            if forall|j: int| 0 <= j < configs.len() ==> (#[trigger] configs[j]).tab_id@ != id {
                assert forall|j: int| 0 <= j < rest.len() implies (#[trigger] rest[j]).tab_id@
                    != id by {
                    assert(configs[j + 1].tab_id@ != id);
                }
            }
        }
    }
}

/// Taking a name out leaves every account of another name, as often as it was there.
pub proof fn law_other_accounts_stay(
    accounts: Seq<RelayAccount>,
    username: Seq<char>,
    account: RelayAccount,
)
    ensures
        account.username@ != username ==> accounts.filter(
            account_other(username),
        ).to_multiset().count(account) == accounts.to_multiset().count(account),
        account.username@ == username ==> accounts.filter(
            account_other(username),
        ).to_multiset().count(account) == 0,
{
    crate::text::lemma_filter_count(accounts, account_other(username), account);
}

} // verus!
