//! The dialog for a connection, new or edited.

use vstd::prelude::*;

use crate::model::{ConnectionConfig, ConnectionKind, ProxyConfig, ProxyKind, SshAuth, SshConfig};
use crate::number::{decimal, decimal_text, parsed};
use crate::text::{opt_text, same};

verus! {

// ---------------------------------------------------------------------------------------------
// The form
// ---------------------------------------------------------------------------------------------

/// The fields of the dialog.
#[derive(Clone, Debug, PartialEq)]
pub struct NewConnectionForm {
    pub name: String,
    pub host: String,
    pub port: String,
    pub username: String,
    pub auth_type: String,
    pub password: String,
    pub key_path: String,
    pub passphrase: String,
    pub terminal_type: String,
    pub proxy_type: String,
    pub proxy_host: String,
    pub proxy_port: String,
    pub proxy_username: String,
    pub proxy_password: String,
    pub group_id: Option<String>,
    pub onekey: bool,
    /// The lines of the login script. None means that there is no script.
    pub login_script: String,
}

/// What a form holds.
#[verifier::ext_equal]
pub struct FormText {
    pub name: Seq<char>,
    pub host: Seq<char>,
    pub port: Seq<char>,
    pub username: Seq<char>,
    pub auth_type: Seq<char>,
    pub password: Seq<char>,
    pub key_path: Seq<char>,
    pub passphrase: Seq<char>,
    pub terminal_type: Seq<char>,
    pub proxy_type: Seq<char>,
    pub proxy_host: Seq<char>,
    pub proxy_port: Seq<char>,
    pub proxy_username: Seq<char>,
    pub proxy_password: Seq<char>,
    pub group_id: Option<Seq<char>>,
    pub onekey: bool,
    pub login_script: Seq<char>,
}

impl View for NewConnectionForm {
    type V = FormText;

    open spec fn view(&self) -> FormText {
        FormText {
            name: self.name@,
            host: self.host@,
            port: self.port@,
            username: self.username@,
            auth_type: self.auth_type@,
            password: self.password@,
            key_path: self.key_path@,
            passphrase: self.passphrase@,
            terminal_type: self.terminal_type@,
            proxy_type: self.proxy_type@,
            proxy_host: self.proxy_host@,
            proxy_port: self.proxy_port@,
            proxy_username: self.proxy_username@,
            proxy_password: self.proxy_password@,
            group_id: opt_text(self.group_id),
            onekey: self.onekey,
            login_script: self.login_script@,
        }
    }
}

/// An empty form: a password, the usual port and terminal, no proxy.
pub open spec fn empty_form() -> FormText {
    FormText {
        name: Seq::empty(),
        host: Seq::empty(),
        port: "22"@,
        username: Seq::empty(),
        auth_type: "password"@,
        password: Seq::empty(),
        key_path: Seq::empty(),
        passphrase: Seq::empty(),
        terminal_type: "xterm-256color"@,
        proxy_type: "none"@,
        proxy_host: Seq::empty(),
        proxy_port: Seq::empty(),
        proxy_username: Seq::empty(),
        proxy_password: Seq::empty(),
        group_id: None,
        onekey: false,
        login_script: Seq::empty(),
    }
}

/// An empty form.
pub fn default_form() -> (r: NewConnectionForm)
    ensures
        r@ == empty_form(),
{
    NewConnectionForm {
        name: String::new(),
        host: String::new(),
        port: "22".to_owned(),
        username: String::new(),
        auth_type: "password".to_owned(),
        password: String::new(),
        key_path: String::new(),
        passphrase: String::new(),
        terminal_type: "xterm-256color".to_owned(),
        proxy_type: "none".to_owned(),
        proxy_host: String::new(),
        proxy_port: String::new(),
        proxy_username: String::new(),
        proxy_password: String::new(),
        group_id: None,
        onekey: false,
        login_script: String::new(),
    }
}

/// The text, empty where there is none.
pub open spec fn text_or_empty(text: Option<String>) -> Seq<char> {
    match text {
        Some(t) => t@,
        None => Seq::empty(),
    }
}

fn or_empty(text: &Option<String>) -> (r: String)
    ensures
        r@ == text_or_empty(*text),
{
    match text {
        Some(t) => t.clone(),
        None => String::new(),
    }
}

fn copy_option(text: &Option<String>) -> (r: Option<String>)
    ensures
        opt_text(r) == opt_text(*text),
{
    match text {
        Some(t) => Some(t.clone()),
        None => None,
    }
}

/// How a way to authenticate is written: the kind, the password, the key and its passphrase. A
/// stored password is not written: the field stays empty, and left empty it stands for the stored
/// one.
pub open spec fn auth_fields(auth: SshAuth) -> (Seq<char>, Seq<char>, Seq<char>, Seq<char>) {
    match auth {
        SshAuth::Password { .. } => ("password"@, Seq::empty(), Seq::empty(), Seq::empty()),
        SshAuth::Key { private_key_path, passphrase } => (
            "key"@,
            Seq::empty(),
            private_key_path@,
            text_or_empty(passphrase),
        ),
        SshAuth::Agent => ("agent"@, Seq::empty(), Seq::empty(), Seq::empty()),
    }
}

/// How the kind of a proxy is written.
pub open spec fn proxy_kind_name(kind: ProxyKind) -> Seq<char> {
    match kind {
        ProxyKind::Http => "http"@,
        ProxyKind::Https => "https"@,
        ProxyKind::Socks5 => "socks5"@,
    }
}

/// A form with the fields of a proxy.
pub open spec fn with_proxy(form: FormText, proxy: Option<ProxyConfig>) -> FormText {
    match proxy {
        Some(p) => FormText {
            proxy_type: proxy_kind_name(p.kind),
            proxy_host: p.host@,
            proxy_port: decimal(p.port as nat),
            proxy_username: text_or_empty(p.username),
            proxy_password: text_or_empty(p.password),
            ..form
        },
        None => FormText {
            proxy_type: "none"@,
            proxy_host: Seq::empty(),
            proxy_port: Seq::empty(),
            proxy_username: Seq::empty(),
            proxy_password: Seq::empty(),
            ..form
        },
    }
}

/// A form with the fields of an SSH connection.
pub open spec fn with_ssh(form: FormText, ssh: SshConfig) -> FormText {
    let auth = auth_fields(ssh.auth);
    with_proxy(
        FormText {
            host: ssh.host@,
            port: decimal(ssh.port as nat),
            username: ssh.username@,
            auth_type: auth.0,
            password: auth.1,
            key_path: auth.2,
            passphrase: auth.3,
            terminal_type: ssh.terminal_type@,
            ..form
        },
        ssh.proxy,
    )
}

/// The form of a saved connection. Only an SSH connection fills in more than the name, the group
/// and the one-key mark.
pub open spec fn form_of(c: ConnectionConfig) -> FormText {
    let named = FormText {
        name: c.name@,
        group_id: opt_text(c.group),
        onekey: c.onekey,
        ..empty_form()
    };
    match c.kind {
        ConnectionKind::Ssh(ssh) => with_ssh(
            FormText { login_script: text_or_empty(c.login_script), ..named },
            ssh,
        ),
        ConnectionKind::Other => named,
    }
}

/// No stored password is shown: the password field of a saved connection's form is empty.
pub proof fn law_password_is_not_shown(c: ConnectionConfig)
    ensures
        form_of(c).password == Seq::<char>::empty(),
{
}

proof fn lemma_form_names()
    ensures
        "password"@ != "key"@,
        "password"@ != "agent"@,
        "key"@ != "agent"@,
        "http"@ != "https"@,
        "http"@ != "socks5"@,
        "https"@ != "socks5"@,
        "none"@ != "http"@,
        "none"@ != "https"@,
        "none"@ != "socks5"@,
{
    reveal_strlit("password");
    reveal_strlit("key");
    reveal_strlit("agent");
    reveal_strlit("http");
    reveal_strlit("https");
    reveal_strlit("socks5");
    reveal_strlit("none");
    assert("password"@.len() == 8 && "key"@.len() == 3 && "agent"@.len() == 5);
    assert("http"@.len() == 4 && "https"@.len() == 5 && "socks5"@.len() == 6);
    assert("none"@[0] == 'n' && "http"@[0] == 'h');
}

proof fn lemma_port_reads_back(port: u16)
    ensures
        parsed(decimal(port as nat), u16::MAX as nat) == Some(port as nat),
{
    crate::number::law_decimal_reads_back(port as nat, u16::MAX as nat, Seq::empty(), 0);
}

/// The form of a saved SSH connection reads back as that connection: its host and its user stand
/// in the fields of that name, its port and its proxy's read as the same numbers, and the kind of
/// authentication, the key, the terminal type, the proxy and the login script are those of the
/// connection. Of any other connection only the name, the group and the one-key mark are shown.
pub proof fn law_form_reads_back_as_the_connection(c: ConnectionConfig)
    ensures
        form_of(c).name == c.name@,
        c.group matches Some(group) ==> form_of(c).group_id == Some(group@),
        c.group is None ==> form_of(c).group_id is None,
        form_of(c).onekey == c.onekey,
        c.kind matches ConnectionKind::Ssh(ssh) ==> {
            &&& form_of(c).host == ssh.host@
            &&& form_of(c).username == ssh.username@
            &&& parsed(form_of(c).port, u16::MAX as nat) == Some(ssh.port as nat)
            &&& form_of(c).port == decimal(ssh.port as nat)
            &&& ssh.auth is Password <==> form_of(c).auth_type == "password"@
            &&& ssh.auth is Key <==> form_of(c).auth_type == "key"@
            &&& ssh.auth is Agent <==> form_of(c).auth_type == "agent"@
            &&& form_of(c).password == Seq::<char>::empty()
            &&& (ssh.auth matches SshAuth::Key { private_key_path, passphrase } ==> form_of(c).key_path == private_key_path@ && form_of(c).passphrase == (match passphrase { Some(p) => p@, None => Seq::empty() }))
            &&& (!(ssh.auth is Key) ==> form_of(c).key_path == Seq::<char>::empty() && form_of(c).passphrase == Seq::<char>::empty())
            &&& form_of(c).terminal_type == ssh.terminal_type@
            &&& ssh.proxy is None <==> form_of(c).proxy_type == "none"@
            &&& (ssh.proxy is None ==> form_of(c).proxy_host == Seq::<char>::empty() && form_of(c).proxy_port == Seq::<char>::empty() && form_of(c).proxy_username == Seq::<char>::empty() && form_of(c).proxy_password == Seq::<char>::empty())
            &&& (ssh.proxy matches Some(p) ==> (p.kind == ProxyKind::Http <==> form_of(c).proxy_type == "http"@) && (p.kind == ProxyKind::Https <==> form_of(c).proxy_type == "https"@) && (p.kind == ProxyKind::Socks5 <==> form_of(c).proxy_type == "socks5"@))
            &&& (ssh.proxy matches Some(p) ==> form_of(c).proxy_host == p.host@ && parsed(form_of(c).proxy_port, u16::MAX as nat) == Some(p.port as nat))
            &&& (ssh.proxy matches Some(p) ==> form_of(c).proxy_username == (match p.username { Some(u) => u@, None => Seq::empty() }))
            &&& (ssh.proxy matches Some(p) ==> form_of(c).proxy_password == (match p.password { Some(w) => w@, None => Seq::empty() }))
            &&& (c.login_script matches Some(s) ==> form_of(c).login_script == s@)
            &&& (c.login_script is None ==> form_of(c).login_script == Seq::<char>::empty())
        },
        c.kind is Other ==> {
            &&& form_of(c).host == Seq::<char>::empty()
            &&& form_of(c).username == Seq::<char>::empty()
            &&& form_of(c).port == "22"@
            &&& form_of(c).auth_type == "password"@
            &&& form_of(c).password == Seq::<char>::empty()
            &&& form_of(c).key_path == Seq::<char>::empty()
            &&& form_of(c).passphrase == Seq::<char>::empty()
            &&& form_of(c).terminal_type == "xterm-256color"@
            &&& form_of(c).proxy_type == "none"@
            &&& form_of(c).proxy_host == Seq::<char>::empty()
            &&& form_of(c).proxy_port == Seq::<char>::empty()
            &&& form_of(c).proxy_username == Seq::<char>::empty()
            &&& form_of(c).proxy_password == Seq::<char>::empty()
            &&& form_of(c).login_script == Seq::<char>::empty()
        },
{
    lemma_form_names();
    match c.kind {
        ConnectionKind::Ssh(ssh) => {
            lemma_port_reads_back(ssh.port);
            if let Some(p) = ssh.proxy {
                lemma_port_reads_back(p.port);
            }
        },
        ConnectionKind::Other => {},
    }
}

/// The form of a saved connection.
pub fn form_from_connection(c: &ConnectionConfig) -> (r: NewConnectionForm)
    ensures
        r@ == form_of(*c),
        r.name@ == c.name@,
        opt_text(r.group_id) == opt_text(c.group),
        r.onekey == c.onekey,
        c.kind matches ConnectionKind::Ssh(ssh) ==> {
            &&& r.host@ == ssh.host@
            &&& r.username@ == ssh.username@
            &&& parsed(r.port@, u16::MAX as nat) == Some(ssh.port as nat)
            &&& r.port@ == decimal(ssh.port as nat)
            &&& ssh.auth is Password <==> r.auth_type@ == "password"@
            &&& ssh.auth is Key <==> r.auth_type@ == "key"@
            &&& ssh.auth is Agent <==> r.auth_type@ == "agent"@
            &&& r.password@ == Seq::<char>::empty()
            &&& (ssh.auth matches SshAuth::Key { private_key_path, passphrase } ==> r.key_path@ == private_key_path@ && r.passphrase@ == (match passphrase { Some(p) => p@, None => Seq::empty() }))
            &&& (!(ssh.auth is Key) ==> r.key_path@ == Seq::<char>::empty() && r.passphrase@ == Seq::<char>::empty())
            &&& r.terminal_type@ == ssh.terminal_type@
            &&& ssh.proxy is None <==> r.proxy_type@ == "none"@
            &&& (ssh.proxy is None ==> r.proxy_host@ == Seq::<char>::empty() && r.proxy_port@ == Seq::<char>::empty() && r.proxy_username@ == Seq::<char>::empty() && r.proxy_password@ == Seq::<char>::empty())
            &&& (ssh.proxy matches Some(p) ==> (p.kind == ProxyKind::Http <==> r.proxy_type@ == "http"@) && (p.kind == ProxyKind::Https <==> r.proxy_type@ == "https"@) && (p.kind == ProxyKind::Socks5 <==> r.proxy_type@ == "socks5"@))
            &&& (ssh.proxy matches Some(p) ==> r.proxy_host@ == p.host@ && parsed(r.proxy_port@, u16::MAX as nat) == Some(p.port as nat))
            &&& (ssh.proxy matches Some(p) ==> r.proxy_username@ == (match p.username { Some(u) => u@, None => Seq::empty() }))
            &&& (ssh.proxy matches Some(p) ==> r.proxy_password@ == (match p.password { Some(w) => w@, None => Seq::empty() }))
            &&& (c.login_script matches Some(s) ==> r.login_script@ == s@)
            &&& (c.login_script is None ==> r.login_script@ == Seq::<char>::empty())
        },
{
    proof {
        law_form_reads_back_as_the_connection(*c);
    }
    let mut form = default_form();
    form.name = c.name.clone();
    form.group_id = copy_option(&c.group);
    form.onekey = c.onekey;
    if let ConnectionKind::Ssh(ssh) = &c.kind {
        form.login_script = or_empty(&c.login_script);
        form.host = ssh.host.clone();
        form.port = decimal_text(ssh.port as u64);
        form.username = ssh.username.clone();
        form.terminal_type = ssh.terminal_type.clone();
        match &ssh.auth {
            SshAuth::Password { .. } => {
                form.auth_type = "password".to_owned();
            },
            SshAuth::Key { private_key_path, passphrase } => {
                form.auth_type = "key".to_owned();
                form.key_path = private_key_path.clone();
                form.passphrase = or_empty(passphrase);
            },
            SshAuth::Agent => {
                form.auth_type = "agent".to_owned();
            },
        }
        if let Some(proxy) = &ssh.proxy {
            form.proxy_type = match proxy.kind {
                ProxyKind::Http => "http".to_owned(),
                ProxyKind::Https => "https".to_owned(),
                ProxyKind::Socks5 => "socks5".to_owned(),
            };
            form.proxy_host = proxy.host.clone();
            form.proxy_port = decimal_text(proxy.port as u64);
            form.proxy_username = or_empty(&proxy.username);
            form.proxy_password = or_empty(&proxy.password);
        }
    }
    form
}

// ---------------------------------------------------------------------------------------------
// Choices in the form
// ---------------------------------------------------------------------------------------------

/// The terminal types that are offered.
pub open spec fn terminal_type_names() -> Seq<Seq<char>> {
    seq![
        "xterm-256color"@,
        "xterm"@,
        "vt100"@,
        "vt220"@,
        "vt320"@,
        "linux"@,
        "ansi"@,
        "screen-256color"@,
        "screen"@,
    ]
}

/// The terminal types that are offered.
pub fn terminal_types() -> (r: Vec<&'static str>)
    ensures
        r@.map_values(|s: &'static str| s@) == terminal_type_names(),
{
    vec![
        "xterm-256color",
        "xterm",
        "vt100",
        "vt220",
        "vt320",
        "linux",
        "ansi",
        "screen-256color",
        "screen",
    ]
}

/// The usual port of a kind of proxy; none where there is no proxy.
pub open spec fn usual_port(proxy_type: Seq<char>) -> Seq<char> {
    if proxy_type == "https"@ {
        "443"@
    } else if proxy_type == "socks5"@ {
        "1080"@
    } else if proxy_type == "http"@ {
        "8080"@
    } else {
        ""@
    }
}

fn usual_proxy_port(proxy_type: &str) -> (r: &'static str)
    ensures
        r@ == usual_port(proxy_type@),
{
    if same(proxy_type, "https") {
        "443"
    } else if same(proxy_type, "socks5") {
        "1080"
    } else if same(proxy_type, "http") {
        "8080"
    } else {
        ""
    }
}

/// The port after another kind of proxy is chosen: one that was left empty or as usual becomes
/// the usual one, any other stays.
pub open spec fn port_after(proxy_type: Seq<char>, port: Seq<char>, next: Seq<char>) -> Seq<char> {
    if port.len() == 0 || port == usual_port(proxy_type) {
        usual_port(next)
    } else {
        port
    }
}

/// Through any choice of proxies a port left as usual is the usual one of the last choice, and a
/// port of one's own, that is no usual one, stays.
pub proof fn law_port_follows_the_proxy(first: Seq<char>, second: Seq<char>, port: Seq<char>)
    ensures
        port_after(first, usual_port(first), second) == usual_port(second),
        port.len() > 0 && port != usual_port(first) ==> port_after(first, port, second) == port,
{
}

/// A host of the SSH configuration.
#[derive(Clone, Debug, PartialEq)]
pub struct ResolvedHost {
    pub host: String,
    pub port: u16,
    pub user: String,
    pub identity_file: Option<String>,
}

impl NewConnectionForm {
    /// Chooses a group; the empty id means none.
    pub fn choose_group(&mut self, id: String)
        ensures
            final(self)@ == (FormText {
                group_id: if id@.len() == 0 {
                    None
                } else {
                    Some(id@)
                },
                ..old(self)@
            }),
    {
        self.group_id = if id.as_str().is_empty() {
            None
        } else {
            Some(id)
        };
    }

    /// Turns the one-key mark on or off.
    pub fn toggle_onekey(&mut self)
        ensures
            final(self)@ == (FormText { onekey: !old(self).onekey, ..old(self)@ }),
    {
        self.onekey = !self.onekey;
    }

    /// Chooses the kind of proxy.
    pub fn choose_proxy(&mut self, next: String)
        ensures
            final(self)@ == (FormText {
                proxy_type: next@,
                proxy_port: port_after(old(self).proxy_type@, old(self).proxy_port@, next@),
                ..old(self)@
            }),
    {
        if self.proxy_port.as_str().is_empty() || same(
            self.proxy_port.as_str(),
            usual_proxy_port(self.proxy_type.as_str()),
        ) {
            self.proxy_port = usual_proxy_port(next.as_str()).to_owned();
        }
        self.proxy_type = next;
    }

    /// Fills in a host of the SSH configuration: its key where it has one, else the agent is to
    /// authenticate.
    pub fn fill_host(&mut self, resolved: ResolvedHost)
        ensures
            final(self)@ == (FormText {
                host: resolved.host@,
                port: decimal(resolved.port as nat),
                username: resolved.user@,
                key_path: match resolved.identity_file {
                    Some(path) => path@,
                    None => old(self).key_path@,
                },
                auth_type: if resolved.identity_file is Some {
                    "key"@
                } else {
                    "agent"@
                },
                ..old(self)@
            }),
    {
        self.host = resolved.host;
        self.port = decimal_text(resolved.port as u64);
        self.username = resolved.user;
        match resolved.identity_file {
            Some(path) => {
                self.key_path = path;
                self.auth_type = "key".to_owned();
            },
            None => {
                self.auth_type = "agent".to_owned();
            },
        }
    }

    /// Whether a proxy is chosen.
    pub fn proxy_enabled(&self) -> (r: bool)
        ensures
            r == (self.proxy_type@ != "none"@),
    {
        !same(self.proxy_type.as_str(), "none")
    }

    /// The port that is suggested for the proxy.
    pub fn proxy_port_placeholder(&self) -> (r: &'static str)
        ensures
            r@ == (if self.proxy_type@ == "https"@ {
                "443"@
            } else if self.proxy_type@ == "socks5"@ {
                "1080"@
            } else {
                "8080"@
            }),
    {
        if same(self.proxy_type.as_str(), "https") {
            "443"
        } else if same(self.proxy_type.as_str(), "socks5") {
            "1080"
        } else {
            "8080"
        }
    }

    /// The hint in the password field.
    pub fn password_placeholder(&self, is_editing: bool) -> (r: &'static str)
        ensures
            r@ == (if is_editing && self.auth_type@ == "password"@ {
                "Leave blank to keep current password"@
            } else {
                "Enter password"@
            }),
    {
        if is_editing && same(self.auth_type.as_str(), "password") {
            "Leave blank to keep current password"
        } else {
            "Enter password"
        }
    }

    /// The same form once more.
    pub fn duplicate(&self) -> (r: NewConnectionForm)
        ensures
            r@ == self@,
    {
        NewConnectionForm {
            name: self.name.clone(),
            host: self.host.clone(),
            port: self.port.clone(),
            username: self.username.clone(),
            auth_type: self.auth_type.clone(),
            password: self.password.clone(),
            key_path: self.key_path.clone(),
            passphrase: self.passphrase.clone(),
            terminal_type: self.terminal_type.clone(),
            proxy_type: self.proxy_type.clone(),
            proxy_host: self.proxy_host.clone(),
            proxy_port: self.proxy_port.clone(),
            proxy_username: self.proxy_username.clone(),
            proxy_password: self.proxy_password.clone(),
            group_id: copy_option(&self.group_id),
            onekey: self.onekey,
            login_script: self.login_script.clone(),
        }
    }
}

// ---------------------------------------------------------------------------------------------
// The dialog
// ---------------------------------------------------------------------------------------------

/// The dialog: the form, and the id of the connection that it was filled from.
#[derive(Clone, Debug, PartialEq)]
pub struct ConnectionEditor {
    pub form: NewConnectionForm,
    pub seeded_id: String,
}

/// What the dialog hands on.
#[derive(Clone, Debug, PartialEq)]
pub enum Submission {
    Create(NewConnectionForm),
    Edit(String, NewConnectionForm),
}

/// The id of an edited connection; empty where there is none.
pub open spec fn editing_id(editing: Option<&ConnectionConfig>) -> Seq<char> {
    match editing {
        Some(c) => c.id@,
        None => Seq::empty(),
    }
}

impl ConnectionEditor {
    /// A dialog that was not opened yet.
    pub fn new() -> (r: ConnectionEditor)
        ensures
            r.form@ == empty_form(),
            r.seeded_id@ == Seq::<char>::empty(),
    {
        ConnectionEditor { form: default_form(), seeded_id: String::new() }
    }

    /// Fills the form anew where another connection is edited than before; what was typed for the
    /// same one stays.
    pub fn seed(&mut self, editing: Option<&ConnectionConfig>)
        ensures
            final(self).seeded_id@ == editing_id(editing),
            final(self).form@ == (if old(self).seeded_id@ == editing_id(editing) {
                old(self).form@
            } else {
                match editing {
                    Some(c) => form_of(*c),
                    None => empty_form(),
                }
            }),
    {
        let id = match editing {
            Some(c) => c.id.clone(),
            None => String::new(),
        };
        if !same(self.seeded_id.as_str(), id.as_str()) {
            self.form = match editing {
                Some(c) => form_from_connection(c),
                None => default_form(),
            };
            self.seeded_id = id;
        }
    }

    /// Hands the form on: for the edited connection, so that it is replaced, or for a new one, and
    /// then the form is empty again.
    pub fn submit(&mut self, editing: Option<&ConnectionConfig>) -> (r: Submission)
        ensures
            final(self).seeded_id == old(self).seeded_id,
            match editing {
                Some(c) => {
                    &&& r matches Submission::Edit(id, form) && id@ == c.id@ && form@ == old(
                        self,
                    ).form@
                    &&& final(self).form == old(self).form
                },
                None => {
                    &&& r matches Submission::Create(form) && form@ == old(self).form@
                    &&& final(self).form@ == empty_form()
                },
            },
    {
        match editing {
            Some(c) => Submission::Edit(c.id.clone(), self.form.duplicate()),
            None => {
                let form = self.form.duplicate();
                self.form = default_form();
                Submission::Create(form)
            },
        }
    }
}

/// The title of the dialog.
pub fn dialog_title(is_editing: bool) -> (r: &'static str)
    ensures
        r@ == (if is_editing {
            "Edit SSH Connection"@
        } else {
            "New SSH Connection"@
        }),
{
    if is_editing {
        "Edit SSH Connection"
    } else {
        "New SSH Connection"
    }
}

/// The label of the button that hands the form on.
pub fn submit_label(is_editing: bool) -> (r: &'static str)
    ensures
        r@ == (if is_editing {
            "Save"@
        } else {
            "Connect"@
        }),
{
    if is_editing {
        "Save"
    } else {
        "Connect"
    }
}

/// Whether the proxy can be set: for a new connection and for one over SSH.
pub fn show_proxy_settings(editing: Option<&ConnectionConfig>) -> (r: bool)
    ensures
        r == (match editing {
            Some(c) => c.kind is Ssh,
            None => true,
        }),
{
    match editing {
        Some(c) => match &c.kind {
            ConnectionKind::Ssh(_) => true,
            ConnectionKind::Other => false,
        },
        None => true,
    }
}

/// The hint where the hosts on offer come from; none where there are none.
pub fn host_hint(config_path: Option<&str>, count: usize) -> (r: Option<String>)
    ensures
        opt_text(r) == (match config_path {
            Some(path) if count > 0 => Some(
                "提示：从 "@ + path@ + " 读取到 "@ + decimal(count as nat) + " 个主机配置"@,
            ),
            _ => None,
        }),
{
    match config_path {
        Some(path) => {
            if count == 0 {
                return None;
            }
            let mut out = "提示：从 ".to_owned();
            out.append(path);
            out.append(" 读取到 ");
            out.append(decimal_text(count as u64).as_str());
            out.append(" 个主机配置");
            Some(out)
        },
        None => None,
    }
}

/// The hint how many keys are on offer; none where there are none.
pub fn identity_hint(count: usize) -> (r: Option<String>)
    ensures
        opt_text(r) == (if count == 0 {
            None
        } else {
            Some("提示：从 ~/.ssh/ 找到 "@ + decimal(count as nat) + " 个私钥文件"@)
        }),
{
    if count == 0 {
        return None;
    }
    let mut out = "提示：从 ~/.ssh/ 找到 ".to_owned();
    out.append(decimal_text(count as u64).as_str());
    out.append(" 个私钥文件");
    Some(out)
}

/// The usual port of each kind of proxy, and no port where there is no proxy.
pub proof fn law_usual_ports(kind: ProxyKind, other: Seq<char>)
    ensures
        usual_port(proxy_kind_name(kind)) == decimal(
            match kind {
                ProxyKind::Http => 8080,
                ProxyKind::Https => 443,
                ProxyKind::Socks5 => 1080,
            },
        ),
        other != "http"@ && other != "https"@ && other != "socks5"@ ==> usual_port(other)
            == Seq::<char>::empty(),
        other.len() > 0 ==> port_after("none"@, Seq::empty(), other) == usual_port(other),
{
    lemma_form_names();
    reveal_strlit("443");
    reveal_strlit("1080");
    reveal_strlit("8080");
    reveal_strlit("");
    crate::number::law_decimal(44, 3);
    crate::number::law_decimal(4, 4);
    crate::number::law_decimal(108, 0);
    crate::number::law_decimal(10, 8);
    crate::number::law_decimal(1, 0);
    crate::number::law_decimal(808, 0);
    crate::number::law_decimal(80, 8);
    crate::number::law_decimal(8, 0);
    assert(decimal(443) == "443"@);
    assert(decimal(1080) == "1080"@);
    assert(decimal(8080) == "8080"@);
    assert(""@ == Seq::<char>::empty());
}

/// An empty form is one for a password at the usual port, in the usual terminal and without a
/// proxy, and everything else in it is empty.
pub proof fn law_empty_form()
    ensures
        empty_form().port == decimal(22),
        empty_form().auth_type == "password"@,
        empty_form().terminal_type == "xterm-256color"@,
        empty_form().proxy_type == "none"@,
        empty_form().name.len() == 0 && empty_form().host.len() == 0 && empty_form().username.len()
            == 0,
        empty_form().password.len() == 0 && empty_form().key_path.len() == 0
            && empty_form().passphrase.len() == 0,
        empty_form().proxy_host.len() == 0 && empty_form().proxy_port.len() == 0
            && empty_form().proxy_username.len() == 0 && empty_form().proxy_password.len() == 0,
        empty_form().group_id is None,
        !empty_form().onekey,
        empty_form().login_script.len() == 0,
        terminal_type_names()[0] == empty_form().terminal_type,
        terminal_type_names().len() == 9,
{
    reveal_strlit("22");
    crate::number::law_decimal(2, 2);
    assert(decimal(22) == "22"@);
}

/// The dialog is for the connection of the id that is edited, and for none where none is.
pub proof fn law_edited_id(c: &ConnectionConfig)
    ensures
        editing_id(Some(c)) == c.id@,
        editing_id(None).len() == 0,
{
}

} // verus!
