//! The remote files panel: which session is browsed, how a directory is listed, and what the
//! buttons and dialogs do.

use vstd::prelude::*;

use crate::model::{SessionTab, SessionType};
use crate::number::{decimal, decimal_text};
use crate::posix_path::{
    components_of, is_absolute, joined, name_error, name_error_text, normalize_posix_path,
    parent_of, posix_join, posix_parent, rendered, validate_entry_name, NOT_ABSOLUTE,
};
use crate::search::{less, text_less};
use crate::sort::{is_order, lemma_insert_at, sorted_by};
use crate::text::{
    lemma_filter_none, lemma_filter_step, list_contains, lowercase, opt_text, same, texts, trimmed,
};

verus! {

// ---------------------------------------------------------------------------------------------
// Sessions
// ---------------------------------------------------------------------------------------------

/// A session that can be browsed.
#[derive(Clone, Debug, PartialEq)]
pub struct SshSessionOption {
    pub id: String,
    pub label: String,
}

/// The texts of a session that can be browsed.
#[verifier::ext_equal]
pub struct SessionOptionText {
    pub id: Seq<char>,
    pub label: Seq<char>,
}

/// The texts of a list of sessions.
pub open spec fn options_view(options: Seq<SshSessionOption>) -> Seq<SessionOptionText> {
    options.map_values(|o: SshSessionOption| SessionOptionText { id: o.id@, label: o.label@ })
}

/// Being an SSH session that is connected.
pub open spec fn is_browsable(connected: Seq<Seq<char>>) -> spec_fn(SessionTab) -> bool {
    |tab: SessionTab| tab.kind == SessionType::Ssh && connected.contains(tab.id@)
}

/// How a session is offered: by its name, and by its host where that says more.
pub open spec fn option_of(tab: SessionTab) -> SessionOptionText {
    SessionOptionText {
        id: tab.id@,
        label: match tab.hostname {
            Some(host) => if host@.len() > 0 && host@ != tab.name@ {
                tab.name@ + " · "@ + host@
            } else {
                tab.name@
            },
            None => tab.name@,
        },
    }
}

/// The sessions that can be browsed, in order.
pub open spec fn browsable(tabs: Seq<SessionTab>, connected: Seq<Seq<char>>) -> Seq<
    SessionOptionText,
> {
    tabs.filter(is_browsable(connected)).map_values(|tab: SessionTab| option_of(tab))
}

fn option_text(tab: &SessionTab) -> (r: SshSessionOption)
    ensures
        (SessionOptionText { id: r.id@, label: r.label@ }) == option_of(*tab),
{
    let mut label = tab.name.clone();
    match &tab.hostname {
        Some(host) => {
            if !host.as_str().is_empty() && !same(host.as_str(), tab.name.as_str()) {
                label.append(" · ");
                label.append(host.as_str());
            }
        },
        None => {},
    }
    SshSessionOption { id: tab.id.clone(), label }
}

/// The sessions that can be browsed, in order.
pub fn available_ssh_sessions(tabs: &Vec<SessionTab>, connected: &Vec<String>) -> (r: Vec<
    SshSessionOption,
>)
    ensures
        options_view(r@) == browsable(tabs@, texts(connected@)),
{
    let mut out: Vec<SshSessionOption> = Vec::new();
    let ghost keep = is_browsable(texts(connected@));
    let ghost f = |tab: SessionTab| option_of(tab);
    proof {
        lemma_filter_none(tabs@, keep);
        assert(options_view(out@) == Seq::<SessionTab>::empty().map_values(f));
    }
    for i in 0..tabs.len()
        invariant
            keep == is_browsable(texts(connected@)),
            f == (|tab: SessionTab| option_of(tab)),
            options_view(out@) == tabs@.take(i as int).filter(keep).map_values(f),
    {
        let tab = &tabs[i];
        let ghost kept = tabs@.take(i as int).filter(keep);
        proof {
            lemma_filter_step(tabs@, i as int, keep);
        }
        if tab.kind == SessionType::Ssh && list_contains(connected, tab.id.as_str()) {
            let option = option_text(tab);
            let ghost before = out@;
            out.push(option);
            proof {
                assert(options_view(before.push(option)) == options_view(before).push(
                    option_of(*tab),
                ));
                assert(kept.push(*tab).map_values(f) == kept.map_values(f).push(f(*tab)));
            }
        }
    }
    proof {
        lemma_filter_none(tabs@, keep);
        assert(browsable(tabs@, texts(connected@)) == tabs@.filter(keep).map_values(f));
    }
    out
}

/// Whether a session is among those that can be browsed.
pub open spec fn offers(options: Seq<SessionOptionText>, id: Seq<char>) -> bool {
    exists|i: int| 0 <= i < options.len() && (#[trigger] options[i]).id == id
}

fn offers_session(options: &Vec<SshSessionOption>, id: &str) -> (r: bool)
    ensures
        r == offers(options_view(options@), id@),
{
    for i in 0..options.len()
        invariant
            forall|j: int| 0 <= j < i ==> (#[trigger] options_view(options@)[j]).id != id@,
    {
        assert(options_view(options@)[i as int].id == options@[i as int].id@);
        if same(options[i].id.as_str(), id) {
            return true;
        }
    }
    false
}

/// The session to browse: the one of the focused pane, else the active one, else the first that
/// can be browsed.
pub open spec fn preferred(
    options: Seq<SessionOptionText>,
    focused: Option<Seq<char>>,
    active: Option<Seq<char>>,
) -> Option<Seq<char>> {
    if focused is Some && offers(options, focused->0) {
        focused
    } else if active is Some && offers(options, active->0) {
        active
    } else if options.len() > 0 {
        Some(options[0].id)
    } else {
        None
    }
}

/// The session to browse: the one of the focused pane, else the active one, else the first that
/// can be browsed.
pub fn preferred_ssh_session(
    options: &Vec<SshSessionOption>,
    focused: &Option<String>,
    active: &Option<String>,
) -> (r: Option<String>)
    ensures
        opt_text(r) == preferred(options_view(options@), opt_text(*focused), opt_text(*active)),
{
    match focused {
        Some(id) => {
            if offers_session(options, id.as_str()) {
                return Some(id.clone());
            }
        },
        None => {},
    }
    match active {
        Some(id) => {
            if offers_session(options, id.as_str()) {
                return Some(id.clone());
            }
        },
        None => {},
    }
    if options.len() > 0 {
        assert(options_view(options@)[0].id == options@[0].id@);
        Some(options[0].id.clone())
    } else {
        None
    }
}

/// The session to browse can be browsed, and there is one whenever one can be.
pub proof fn law_preferred_is_offered(
    options: Seq<SessionOptionText>,
    focused: Option<Seq<char>>,
    active: Option<Seq<char>>,
)
    ensures
        preferred(options, focused, active) is Some <==> options.len() > 0,
        preferred(options, focused, active) matches Some(id) ==> offers(options, id),
{
    if options.len() > 0 {
        assert(options[0].id == options[0].id);
        assert(offers(options, options[0].id));
    }
}

/// How a session gets its file transfer client.
#[derive(Clone, Copy, PartialEq, Eq, Structural, Debug)]
pub enum SftpSource {
    /// The client that is open already.
    Existing,
    /// A new one.
    New,
}

/// Before a client is opened: an open one is used; a session that is gone gets none.
pub fn sftp_source(client_open: bool, connected: bool) -> (r: Result<SftpSource, &'static str>)
    ensures
        match r {
            Ok(source) => source == (if client_open {
                SftpSource::Existing
            } else {
                SftpSource::New
            }) && (client_open || connected),
            Err(message) => !client_open && !connected && message@
                == "SSH session is no longer connected"@,
        },
{
    if client_open {
        Ok(SftpSource::Existing)
    } else if connected {
        Ok(SftpSource::New)
    } else {
        Err("SSH session is no longer connected")
    }
}

/// After a client was opened: one that was opened meanwhile is used instead; for a session that
/// went away meanwhile the client is of no use.
pub fn sftp_opened(client_open: bool, connected: bool) -> (r: Result<SftpSource, &'static str>)
    ensures
        match r {
            Ok(source) => source == (if client_open {
                SftpSource::Existing
            } else {
                SftpSource::New
            }) && (client_open || connected),
            Err(message) => !client_open && !connected && message@
                == "SSH session disconnected while SFTP was opening"@,
        },
{
    if client_open {
        Ok(SftpSource::Existing)
    } else if connected {
        Ok(SftpSource::New)
    } else {
        Err("SSH session disconnected while SFTP was opening")
    }
}

// ---------------------------------------------------------------------------------------------
// Entries
// ---------------------------------------------------------------------------------------------

/// The type of a remote entry.
#[derive(Clone, Copy, PartialEq, Eq, Structural, Debug)]
pub enum RemoteFileType {
    File,
    Directory,
    Symlink,
    Other,
}

/// An entry of a remote directory.
#[derive(Debug, PartialEq)]
pub struct RemoteDirEntry {
    pub name: String,
    pub path: String,
    pub file_type: RemoteFileType,
    pub size: Option<u64>,
}

impl Clone for RemoteDirEntry {
    fn clone(&self) -> (r: Self)
        ensures
            r == *self,
    {
        RemoteDirEntry {
            name: self.name.clone(),
            path: self.path.clone(),
            file_type: self.file_type,
            size: self.size,
        }
    }
}

/// Being neither the directory itself nor its parent.
pub open spec fn is_listed_entry() -> spec_fn(RemoteDirEntry) -> bool {
    |e: RemoteDirEntry| e.name@ != "."@ && e.name@ != ".."@
}

/// An entry comes first when it is a directory and the other is none, then by its name in lower
/// case, then by its name.
pub open spec fn lists_first(a: RemoteDirEntry, b: RemoteDirEntry) -> bool {
    let a_dir = a.file_type == RemoteFileType::Directory;
    let b_dir = b.file_type == RemoteFileType::Directory;
    if a_dir != b_dir {
        a_dir
    } else if lowercase(a.name@) != lowercase(b.name@) {
        text_less(lowercase(a.name@), lowercase(b.name@))
    } else {
        text_less(a.name@, b.name@)
    }
}

/// The order of a listing.
pub open spec fn listing_order() -> spec_fn(RemoteDirEntry, RemoteDirEntry) -> bool {
    |a: RemoteDirEntry, b: RemoteDirEntry| lists_first(a, b)
}

/// A directory as it is listed.
pub open spec fn listed(entries: Seq<RemoteDirEntry>) -> Seq<RemoteDirEntry> {
    sorted_by(entries.filter(is_listed_entry()), listing_order())
}

fn comes_before(a: &RemoteDirEntry, b: &RemoteDirEntry) -> (r: bool)
    ensures
        r == lists_first(*a, *b),
{
    let a_dir = a.file_type == RemoteFileType::Directory;
    let b_dir = b.file_type == RemoteFileType::Directory;
    if a_dir != b_dir {
        return a_dir;
    }
    let a_lower = a.name.as_str().to_lowercase();
    let b_lower = b.name.as_str().to_lowercase();
    if !same(a_lower.as_str(), b_lower.as_str()) {
        less(a_lower.as_str(), b_lower.as_str())
    } else {
        less(a.name.as_str(), b.name.as_str())
    }
}

fn insert_entry(list: &mut Vec<RemoteDirEntry>, entry: RemoteDirEntry)
    ensures
        final(list)@ == crate::sort::insert_sorted(old(list)@, entry, listing_order()),
{
    let mut at: usize = list.len();
    while at > 0 && comes_before(&entry, &list[at - 1])
        invariant
            at <= list@.len(),
            forall|i: int| at <= i < list@.len() ==> listing_order()(entry, #[trigger] list@[i]),
        decreases at,
    {
        at = at - 1;
    }
    proof {
        lemma_insert_at(list@, entry, listing_order(), at as int);
    }
    list.insert(at, entry);
}

/// Lists a directory: without the directory itself and its parent, directories first, then by
/// name whatever the case, then by name.
pub fn list_entries(entries: Vec<RemoteDirEntry>) -> (r: Vec<RemoteDirEntry>)
    ensures
        r@ == listed(entries@),
        forall|entry: RemoteDirEntry|
            entry.name@ != "."@ && entry.name@ != ".."@ ==> #[trigger] r@.to_multiset().count(entry)
                == entries@.to_multiset().count(entry),
{
    let ghost all = entries@;
    let ghost keep = is_listed_entry();
    let mut rest = entries;
    let count: usize = rest.len();
    let mut left: usize = count;
    let mut out: Vec<RemoteDirEntry> = Vec::new();
    proof {
        lemma_filter_none(all, keep);
    }
    while left > 0
        invariant
            left <= count == all.len(),
            keep == is_listed_entry(),
            rest@ == all.skip(count - left),
            out@ == sorted_by(all.take(count - left).filter(keep), listing_order()),
        decreases left,
    {
        let ghost kept = all.take(count - left).filter(keep);
        proof {
            lemma_filter_step(all, count - left, keep);
        }
        let entry = rest.remove(0);
        if !same(entry.name.as_str(), ".") && !same(entry.name.as_str(), "..") {
            assert(kept.push(entry).drop_last() == kept);
            insert_entry(&mut out, entry);
        }
        left = left - 1;
    }
    proof {
        lemma_filter_none(all, keep);
    }
    proof {
        assert forall|entry: RemoteDirEntry| entry.name@ != "."@ && entry.name@ != ".."@ implies
            #[trigger] out@.to_multiset().count(entry) == all.to_multiset().count(entry) by {
            law_all_but_the_two_dots_are_listed(all, entry);
        }
    }
    out
}

/// The order of a listing is an order.
pub proof fn law_listing_order()
    ensures
        is_order(listing_order()),
{
    let before = listing_order();
    assert forall|a: RemoteDirEntry| !#[trigger] before(a, a) by {
        crate::search::lemma_less_irreflexive(a.name@);
    }
    assert forall|a: RemoteDirEntry, b: RemoteDirEntry, c: RemoteDirEntry|
        #![trigger before(a, b), before(b, c)]
        before(a, b) && before(b, c) implies before(a, c) by {
        let (x, y, z) = (lowercase(a.name@), lowercase(b.name@), lowercase(c.name@));
        if x != y && y != z {
            if text_less(x, y) && text_less(y, z) {
                crate::search::lemma_less_transitive(x, y, z);
                crate::search::lemma_less_irreflexive(x);
            }
        } else if x == y && y == z {
            if text_less(a.name@, b.name@) && text_less(b.name@, c.name@) {
                crate::search::lemma_less_transitive(a.name@, b.name@, c.name@);
            }
        }
    }
    assert forall|a: RemoteDirEntry, b: RemoteDirEntry, c: RemoteDirEntry|
        #![trigger before(a, b), before(b, c)]
        !before(a, b) && !before(b, c) implies !before(a, c) by {
        let (x, y, z) = (lowercase(a.name@), lowercase(b.name@), lowercase(c.name@));
        let a_dir = a.file_type == RemoteFileType::Directory;
        let b_dir = b.file_type == RemoteFileType::Directory;
        let c_dir = c.file_type == RemoteFileType::Directory;
        if before(a, c) && a_dir == c_dir && a_dir == b_dir {
            crate::search::lemma_less_total(x, y);
            crate::search::lemma_less_total(y, z);
            crate::search::lemma_less_irreflexive(x);
            if x != y && y != z {
                crate::search::lemma_less_transitive(z, y, x);
                if x != z {
                    crate::search::lemma_less_transitive(x, z, x);
                }
            } else if x == y && y == z {
                crate::search::lemma_less_total(a.name@, b.name@);
                crate::search::lemma_less_total(b.name@, c.name@);
                crate::search::lemma_less_irreflexive(a.name@);
                if a.name@ != b.name@ && b.name@ != c.name@ {
                    crate::search::lemma_less_transitive(c.name@, b.name@, a.name@);
                    crate::search::lemma_less_transitive(a.name@, c.name@, a.name@);
                }
            } else if x == y {
                crate::search::lemma_less_transitive(x, z, x);
            } else {
                crate::search::lemma_less_transitive(x, z, x);
            }
        }
    }
}

/// In a listing no directory stands behind another entry.
pub proof fn law_directories_first(entries: Seq<RemoteDirEntry>, i: int, j: int)
    requires
        0 <= i < j < listed(entries).len(),
        listed(entries)[j].file_type == RemoteFileType::Directory,
    ensures
        listed(entries)[i].file_type == RemoteFileType::Directory,
{
    law_listing_order();
    crate::sort::law_sorted(entries.filter(is_listed_entry()), listing_order());
    let list = listed(entries);
    assert(!listing_order()(list[j], list[i]));
}

/// A listing holds the entries of the directory, but never the directory itself or its parent.
pub proof fn law_listing_holds_the_entries(entries: Seq<RemoteDirEntry>)
    ensures
        listed(entries).to_multiset() == entries.filter(is_listed_entry()).to_multiset(),
        forall|i: int|
            0 <= i < listed(entries).len() ==> is_listed_entry()(#[trigger] listed(entries)[i]),
{
    broadcast use vstd::seq_lib::group_to_multiset_ensures;
    broadcast use vstd::seq_lib::group_filter_ensures;

    law_listing_order();
    let kept = entries.filter(is_listed_entry());
    crate::sort::law_sorted(kept, listing_order());
    let list = listed(entries);
    assert forall|i: int| 0 <= i < list.len() implies is_listed_entry()(#[trigger] list[i]) by {
        assert(list.to_multiset().contains(list[i]));
        assert(kept.contains(list[i]));
        let k = choose|k: int| 0 <= k < kept.len() && kept[k] == list[i];
        assert(is_listed_entry()(kept[k]));
    }
}

/// The name of a type.
pub fn file_type_label(file_type: RemoteFileType) -> (r: &'static str)
    ensures
        r@ == match file_type {
            RemoteFileType::File => "file"@,
            RemoteFileType::Directory => "directory"@,
            RemoteFileType::Symlink => "symlink"@,
            RemoteFileType::Other => "other"@,
        },
{
    match file_type {
        RemoteFileType::File => "file",
        RemoteFileType::Directory => "directory",
        RemoteFileType::Symlink => "symlink",
        RemoteFileType::Other => "other",
    }
}

/// The sign of a type.
pub fn file_type_icon(file_type: RemoteFileType) -> (r: &'static str)
    ensures
        r@ == match file_type {
            RemoteFileType::Directory => "▸"@,
            RemoteFileType::Symlink => "↗"@,
            RemoteFileType::File => "·"@,
            RemoteFileType::Other => "?"@,
        },
{
    match file_type {
        RemoteFileType::Directory => "▸",
        RemoteFileType::Symlink => "↗",
        RemoteFileType::File => "·",
        RemoteFileType::Other => "?",
    }
}

/// How a size is shown.
#[derive(Clone, Debug, PartialEq)]
pub enum SizeLabel {
    /// As this text.
    Text(String),
    /// Divided by this number of bytes, in this unit.
    Scaled { divisor: u64, unit: &'static str },
}

/// How a size is shown: below 1024 bytes in bytes, else in the largest unit that it reaches; a
/// dash where it is unknown.
pub fn file_size_scale(size: Option<u64>) -> (r: SizeLabel)
    ensures
        match size {
            None => r matches SizeLabel::Text(text) && text@ == "—"@,
            Some(n) => if n >= 1073741824 {
                r matches SizeLabel::Scaled { divisor, unit } && divisor == 1073741824 && unit@
                    == "GB"@
            } else if n >= 1048576 {
                r matches SizeLabel::Scaled { divisor, unit } && divisor == 1048576 && unit@ == "MB"@
            } else if n >= 1024 {
                r matches SizeLabel::Scaled { divisor, unit } && divisor == 1024 && unit@ == "KB"@
            } else {
                r matches SizeLabel::Text(text) && text@ == decimal(n as nat) + " B"@
            },
        },
{
    match size {
        None => SizeLabel::Text("—".to_owned()),
        Some(n) => {
            if n >= 1073741824 {
                SizeLabel::Scaled { divisor: 1073741824, unit: "GB" }
            } else if n >= 1048576 {
                SizeLabel::Scaled { divisor: 1048576, unit: "MB" }
            } else if n >= 1024 {
                SizeLabel::Scaled { divisor: 1024, unit: "KB" }
            } else {
                let mut text = decimal_text(n);
                text.append(" B");
                SizeLabel::Text(text)
            }
        },
    }
}

// ---------------------------------------------------------------------------------------------
// Where the panel is
// ---------------------------------------------------------------------------------------------

/// The browsed session and directory, and the path field.
#[derive(Clone, Debug, PartialEq)]
pub struct Location {
    pub session: Option<String>,
    pub path: String,
    pub draft: String,
}

/// What the panel is doing, and what it tells about it.
#[derive(Clone, Debug, PartialEq)]
pub struct Activity {
    pub busy: bool,
    pub status: Option<String>,
    pub error: Option<String>,
    /// Grows by one whenever the directory is to be read again.
    pub refresh: u64,
}

impl Activity {
    /// Forgets what was told.
    pub fn quiet(&mut self)
        ensures
            final(self).busy == old(self).busy,
            final(self).status is None,
            final(self).error is None,
            final(self).refresh == old(self).refresh,
    {
        self.status = None;
        self.error = None;
    }

    /// Asks for the directory to be read again.
    pub fn request_refresh(&mut self)
        ensures
            final(self).busy == old(self).busy,
            final(self).status == old(self).status,
            final(self).error == old(self).error,
            final(self).refresh == old(self).refresh.wrapping_add(1),
    {
        self.refresh = self.refresh.wrapping_add(1);
    }

    /// Starts an operation that runs outside the panel.
    pub fn begin(&mut self, message: &str)
        ensures
            final(self).busy,
            opt_text(final(self).status) == Some(message@),
            final(self).error is None,
            final(self).refresh == old(self).refresh,
    {
        self.busy = true;
        self.error = None;
        self.status = Some(message.to_owned());
    }

    /// The user has cancelled the operation.
    pub fn cancelled(&mut self, message: &str)
        ensures
            !final(self).busy,
            opt_text(final(self).status) == Some(message@),
            final(self).error == old(self).error,
            final(self).refresh == old(self).refresh,
    {
        self.busy = false;
        self.status = Some(message.to_owned());
    }

    /// The operation has failed.
    pub fn failed(&mut self, message: String)
        ensures
            !final(self).busy,
            final(self).status is None,
            final(self).error == Some(message),
            final(self).refresh == old(self).refresh,
    {
        self.busy = false;
        self.status = None;
        self.error = Some(message);
    }

    /// A transfer was queued.
    pub fn queued(&mut self, verb: &str, name: &str)
        ensures
            !final(self).busy,
            opt_text(final(self).status) == Some(verb@ + " queued: "@ + name@),
            final(self).error == old(self).error,
            final(self).refresh == old(self).refresh.wrapping_add(1),
    {
        self.busy = false;
        let mut message = String::from_str(verb);
        message.append(" queued: ");
        message.append(name);
        self.status = Some(message);
        self.refresh = self.refresh.wrapping_add(1);
    }
}

impl Location {
    /// Goes to the root of another session when the browsed one is gone.
    pub fn sync(&mut self, options: &Vec<SshSessionOption>, preferred: Option<String>)
        ensures
            ({
                let stays = old(self).session matches Some(id) && offers(
                    options_view(options@),
                    id@,
                );
                if stays {
                    *final(self) == *old(self)
                } else {
                    final(self).session == preferred && final(self).path@ == "/"@ && final(
                        self).draft@ == "/"@
                }
            }),
    {
        let stays = match &self.session {
            Some(id) => offers_session(options, id.as_str()),
            None => false,
        };
        if !stays {
            self.session = preferred;
            self.path = "/".to_owned();
            self.draft = "/".to_owned();
        }
    }

    /// Goes to the root of a chosen session.
    pub fn choose_session(&mut self, value: String, activity: &mut Activity)
        ensures
            final(self).session == (if value@.len() == 0 {
                None
            } else {
                Some(value)
            }),
            final(self).path@ == "/"@,
            final(self).draft@ == "/"@,
            final(activity).status is None,
            final(activity).error is None,
            final(activity).busy == old(activity).busy,
            final(activity).refresh == old(activity).refresh,
    {
        self.session = if value.as_str().is_empty() {
            None
        } else {
            Some(value)
        };
        self.path = "/".to_owned();
        self.draft = "/".to_owned();
        activity.quiet();
    }

    /// Goes to the directory above; from the root nothing happens.
    pub fn go_parent(&mut self, activity: &mut Activity)
        ensures
            final(self).session == old(self).session,
            match parent_of(old(self).path@) {
                Some(parent) => final(self).path@ == parent && final(self).draft@ == parent && final(
                    activity).status is None && final(activity).error is None && final(
                    activity).busy == old(activity).busy && final(activity).refresh == old(
                    activity).refresh,
                None => *final(self) == *old(self) && *final(activity) == *old(activity),
            },
    {
        match posix_parent(self.path.as_str()) {
            Some(parent) => {
                self.path = parent.clone();
                self.draft = parent;
                activity.quiet();
            },
            None => {},
        }
    }

    /// Goes to the typed path; one that is not absolute is refused.
    pub fn go(&mut self, activity: &mut Activity)
        ensures
            final(self).session == old(self).session,
            final(activity).busy == old(activity).busy,
            final(activity).status == old(activity).status,
            final(activity).refresh == old(activity).refresh,
            if is_absolute(old(self).draft@) {
                let path = rendered(components_of(old(self).draft@));
                final(self).path@ == path && final(self).draft@ == path && final(
                    activity).error is None
            } else {
                final(self).path == old(self).path && final(self).draft == old(self).draft
                    && opt_text(final(activity).error) == Some(NOT_ABSOLUTE@)
            },
    {
        match normalize_posix_path(self.draft.as_str()) {
            Ok(path) => {
                self.path = path.clone();
                self.draft = path;
                activity.error = None;
            },
            Err(message) => {
                activity.error = Some(message.to_owned());
            },
        }
    }

    /// A double click: a directory is opened, anything else is selected.
    pub fn open(&mut self, entry: &RemoteDirEntry, listing: &mut Listing, activity: &mut Activity)
        ensures
            final(self).session == old(self).session,
            if entry.file_type == RemoteFileType::Directory {
                final(self).path == entry.path && final(self).draft == entry.path && *final(
                    listing) == *old(listing) && final(activity).status is None && final(
                    activity).error is None && final(activity).busy == old(activity).busy && final(
                    activity).refresh == old(activity).refresh
            } else {
                *final(self) == *old(self) && *final(activity) == *old(activity) && final(
                    listing).selected == Some(*entry) && final(listing).entries@ == old(
                    listing).entries@ && final(listing).sequence == old(listing).sequence && final(
                    listing).loading == old(listing).loading && final(listing).error == old(
                    listing).error
            },
    {
        if entry.file_type == RemoteFileType::Directory {
            self.path = entry.path.clone();
            self.draft = entry.path.clone();
            activity.quiet();
        } else {
            listing.selected = Some(entry.clone());
        }
    }
}

// ---------------------------------------------------------------------------------------------
// Reading a directory
// ---------------------------------------------------------------------------------------------

/// The listed directory. Every reading has a number; only the last one counts.
#[derive(Clone, Debug, PartialEq)]
pub struct Listing {
    pub entries: Vec<RemoteDirEntry>,
    pub selected: Option<RemoteDirEntry>,
    pub sequence: u64,
    pub loading: bool,
    pub error: Option<String>,
}

impl Listing {
    /// Starts to read a directory and hands out the reading's number; without a session nothing
    /// is read and the listing is empty.
    pub fn begin_load(&mut self, session: &Option<String>) -> (r: Option<u64>)
        ensures
            final(self).sequence == old(self).sequence.wrapping_add(1),
            final(self).selected is None,
            final(self).error is None,
            match session {
                Some(_) => r == Some(final(self).sequence) && final(self).loading && final(
                    self).entries@ == old(self).entries@,
                None => r is None && !final(self).loading && final(self).entries@.len() == 0,
            },
    {
        self.sequence = self.sequence.wrapping_add(1);
        self.selected = None;
        self.error = None;
        match session {
            Some(_) => {
                self.loading = true;
                Some(self.sequence)
            },
            None => {
                self.entries = Vec::new();
                self.loading = false;
                None
            },
        }
    }

    /// What a reading gave: the entries to show, or why there are none. That of an earlier reading
    /// than the last one is dropped; a failure empties the listing and is shown.
    pub fn finish_load(&mut self, request: u64, result: Result<Vec<RemoteDirEntry>, String>)
        ensures
            request != old(self).sequence ==> *final(self) == *old(self),
            request == old(self).sequence ==> {
                &&& !final(self).loading
                &&& final(self).sequence == old(self).sequence
                &&& final(self).selected == old(self).selected
                &&& match result {
                    Ok(entries) => final(self).entries == entries && final(self).error == old(
                        self,
                    ).error,
                    Err(message) => final(self).entries@.len() == 0 && final(self).error == Some(
                        message,
                    ),
                }
            },
    {
        if self.sequence != request {
            return;
        }
        self.loading = false;
        match result {
            Ok(entries) => {
                self.entries = entries;
            },
            Err(message) => {
                self.entries = Vec::new();
                self.error = Some(message);
            },
        }
    }

    /// Whether the selected entry can be renamed.
    pub fn can_rename(&self, busy: bool) -> (r: bool)
        ensures
            r == (self.selected is Some && !busy),
    {
        self.selected.is_some() && !busy
    }

    /// Whether the selected entry can be deleted.
    pub fn can_delete(&self, busy: bool) -> (r: bool)
        ensures
            r == ((self.selected matches Some(entry) && entry.file_type != RemoteFileType::Other)
                && !busy),
    {
        match &self.selected {
            Some(entry) => entry.file_type != RemoteFileType::Other && !busy,
            None => false,
        }
    }

    /// Whether the selected entry can be downloaded.
    pub fn can_download(&self, busy: bool) -> (r: bool)
        ensures
            r == ((self.selected matches Some(entry) && entry.file_type == RemoteFileType::File)
                && !busy),
    {
        match &self.selected {
            Some(entry) => entry.file_type == RemoteFileType::File && !busy,
            None => false,
        }
    }
}

// ---------------------------------------------------------------------------------------------
// Operations
// ---------------------------------------------------------------------------------------------

/// The dialog that is open.
#[derive(Clone, Debug, PartialEq)]
pub enum PendingDialog {
    CreateDirectory,
    Rename(RemoteDirEntry),
    Delete(RemoteDirEntry),
}

/// An operation on the remote host.
#[derive(Clone, Debug, PartialEq)]
pub enum RemoteOperation {
    CreateDirectory { path: String },
    Rename { from: String, to: String },
    RemoveFile { path: String },
    RemoveEmptyDirectory { path: String },
    /// The entry is of a type that cannot be deleted here.
    Unsupported,
}

/// The dialog and its input field.
#[derive(Clone, Debug, PartialEq)]
pub struct EntryDialog {
    pub pending: Option<PendingDialog>,
    pub input: String,
}

/// What deleting an entry does: only files, links and empty directories are deleted.
pub open spec fn deletion(entry: RemoteDirEntry, operation: RemoteOperation) -> bool {
    match entry.file_type {
        RemoteFileType::File => operation matches RemoteOperation::RemoveFile { path } && path
            == entry.path,
        RemoteFileType::Symlink => operation matches RemoteOperation::RemoveFile { path } && path
            == entry.path,
        RemoteFileType::Directory => operation matches RemoteOperation::RemoveEmptyDirectory {
            path,
        } && path == entry.path,
        RemoteFileType::Other => operation is Unsupported,
    }
}

/// What deleting an entry does.
pub fn delete_operation(entry: RemoteDirEntry) -> (r: RemoteOperation)
    ensures
        deletion(entry, r),
{
    match entry.file_type {
        RemoteFileType::File => RemoteOperation::RemoveFile { path: entry.path },
        RemoteFileType::Symlink => RemoteOperation::RemoveFile { path: entry.path },
        RemoteFileType::Directory => RemoteOperation::RemoveEmptyDirectory { path: entry.path },
        RemoteFileType::Other => RemoteOperation::Unsupported,
    }
}

/// Tells that a directory could not be listed, and why.
pub fn listing_failure(error: &str) -> (r: String)
    ensures
        r@ == "Unable to list remote directory: "@ + error@,
{
    let mut out = "Unable to list remote directory: ".to_owned();
    out.append(error);
    out
}

/// Tells that the connection for files could not be opened, and why.
pub fn opening_failure(error: &str) -> (r: String)
    ensures
        r@ == "Unable to open SFTP: "@ + error@,
{
    let mut out = "Unable to open SFTP: ".to_owned();
    out.append(error);
    out
}

/// What listing a directory gives, once the host has answered: the entries in the order in which
/// they are shown, or why there are none.
pub fn directory_listing(answer: Result<Vec<RemoteDirEntry>, String>) -> (r: Result<
    Vec<RemoteDirEntry>,
    String,
>)
    ensures
        match answer {
            Ok(entries) => r matches Ok(shown) && shown@ == listed(entries@),
            Err(error) => r matches Err(message) && message@ == "Unable to list remote directory: "@
                + error@,
        },
{
    match answer {
        Ok(entries) => Ok(list_entries(entries)),
        Err(error) => Err(listing_failure(error.as_str())),
    }
}

/// The text that tells that an operation failed; what the host said stands behind it.
pub fn operation_failure(operation: &RemoteOperation) -> (r: &'static str)
    ensures
        r@ == match operation {
            RemoteOperation::CreateDirectory { .. } => "Unable to create directory: "@,
            RemoteOperation::Rename { .. } => "Unable to rename remote entry: "@,
            RemoteOperation::RemoveFile { .. } => "Unable to delete remote entry: "@,
            RemoteOperation::RemoveEmptyDirectory { .. } => "Unable to delete empty directory: "@,
            RemoteOperation::Unsupported => "This remote entry type cannot be deleted here"@,
        },
{
    match operation {
        RemoteOperation::CreateDirectory { .. } => "Unable to create directory: ",
        RemoteOperation::Rename { .. } => "Unable to rename remote entry: ",
        RemoteOperation::RemoveFile { .. } => "Unable to delete remote entry: ",
        RemoteOperation::RemoveEmptyDirectory { .. } => "Unable to delete empty directory: ",
        RemoteOperation::Unsupported => "This remote entry type cannot be deleted here",
    }
}

/// What submitting a dialog leads to.
#[derive(Clone, Debug, PartialEq)]
pub enum Submission {
    /// Nothing, for there is no session or no dialog.
    Ignored,
    /// The name was refused.
    Refused,
    /// The name is the old one; the dialog just closes.
    Unchanged,
    /// The operation is to be carried out; the message tells its success.
    Run { operation: RemoteOperation, success: String },
}

impl EntryDialog {
    /// Asks for the name of a new directory.
    pub fn ask_create(&mut self, activity: &mut Activity)
        ensures
            final(self).pending == Some(PendingDialog::CreateDirectory),
            final(self).input@ == Seq::<char>::empty(),
            final(activity).error is None,
            final(activity).busy == old(activity).busy,
            final(activity).status == old(activity).status,
            final(activity).refresh == old(activity).refresh,
    {
        self.input = String::new();
        activity.error = None;
        self.pending = Some(PendingDialog::CreateDirectory);
    }

    /// Asks for a new name of the selected entry.
    pub fn ask_rename(&mut self, selected: &Option<RemoteDirEntry>, activity: &mut Activity)
        ensures
            match selected {
                Some(entry) => final(self).pending == Some(PendingDialog::Rename(*entry)) && final(
                    self).input == entry.name && final(activity).error is None && final(
                    activity).busy == old(activity).busy && final(activity).status == old(
                    activity).status && final(activity).refresh == old(activity).refresh,
                None => *final(self) == *old(self) && *final(activity) == *old(activity),
            },
    {
        match selected {
            Some(entry) => {
                self.input = entry.name.clone();
                activity.error = None;
                self.pending = Some(PendingDialog::Rename(entry.clone()));
            },
            None => {},
        }
    }

    /// Asks whether the selected entry is to be deleted.
    pub fn ask_delete(&mut self, selected: &Option<RemoteDirEntry>)
        ensures
            final(self).input == old(self).input,
            final(self).pending == (match selected {
                Some(entry) => Some(PendingDialog::Delete(*entry)),
                None => old(self).pending,
            }),
    {
        match selected {
            Some(entry) => {
                self.pending = Some(PendingDialog::Delete(entry.clone()));
            },
            None => {},
        }
    }

    /// The title of the dialog.
    pub fn title(&self) -> (r: &'static str)
        ensures
            r@ == match self.pending {
                Some(PendingDialog::CreateDirectory) => "Create remote directory"@,
                Some(PendingDialog::Rename(_)) => "Rename remote entry"@,
                Some(PendingDialog::Delete(_)) => "Confirm remote deletion"@,
                None => ""@,
            },
    {
        match &self.pending {
            Some(PendingDialog::CreateDirectory) => "Create remote directory",
            Some(PendingDialog::Rename(_)) => "Rename remote entry",
            Some(PendingDialog::Delete(_)) => "Confirm remote deletion",
            None => "",
        }
    }

    /// What the dialog tells about a deletion.
    pub open spec fn message(&self) -> Seq<char> {
        match self.pending {
            Some(PendingDialog::Delete(entry)) => if entry.file_type == RemoteFileType::Directory {
                "Delete empty directory ‘"@ + entry.name@
                    + "’? Non-empty directories are never deleted recursively."@
            } else if entry.file_type == RemoteFileType::Symlink {
                "Delete symbolic link ‘"@ + entry.name@
                    + "’? Its target will not be followed or deleted."@
            } else {
                "Delete remote file ‘"@ + entry.name@ + "’?"@
            },
            _ => Seq::empty(),
        }
    }

    /// What the dialog tells about a deletion.
    pub fn delete_message(&self) -> (r: String)
        ensures
            r@ == self.message(),
    {
        match &self.pending {
            Some(PendingDialog::Delete(entry)) => {
                if entry.file_type == RemoteFileType::Directory {
                    let mut out = String::from_str("Delete empty directory ‘");
                    out.append(entry.name.as_str());
                    out.append("’? Non-empty directories are never deleted recursively.");
                    out
                } else if entry.file_type == RemoteFileType::Symlink {
                    let mut out = String::from_str("Delete symbolic link ‘");
                    out.append(entry.name.as_str());
                    out.append("’? Its target will not be followed or deleted.");
                    out
                } else {
                    let mut out = String::from_str("Delete remote file ‘");
                    out.append(entry.name.as_str());
                    out.append("’?");
                    out
                }
            },
            _ => String::new(),
        }
    }

    /// The name that the dialog asks for, where it asks for one and the name is in order.
    pub open spec fn typed_name(&self) -> Option<Seq<char>> {
        if name_error(self.input@) is None {
            Some(trimmed(self.input@))
        } else {
            None
        }
    }

    /// Submits the dialog. An operation closes the dialog and makes the panel busy; a refused
    /// name keeps the dialog open and is told.
    pub fn submit(&mut self, session: &Option<String>, directory: &str, activity: &mut Activity) -> (r:
        Submission)
        ensures
            final(self).input == old(self).input,
            final(activity).refresh == old(activity).refresh,
            r is Ignored <==> session is None || old(self).pending is None,
            r is Ignored ==> final(self).pending == old(self).pending && *final(activity) == *old(
                activity),
            r is Refused <==> session is Some && (old(self).pending matches Some(dialog) && (
            dialog is CreateDirectory || dialog is Rename)) && name_error(old(self).input@) is Some,
            r is Refused ==> final(self).pending == old(self).pending && final(activity).busy == old(
                activity).busy && final(activity).status == old(activity).status && opt_text(
                final(activity).error,
            ) == Some(name_error_text(name_error(old(self).input@)->0)),
            r is Unchanged <==> session is Some && (old(self).pending matches Some(
                PendingDialog::Rename(entry),
            ) && old(self).typed_name() == Some(entry.name@)),
            r is Unchanged ==> final(self).pending is None && *final(activity) == *old(activity),
            r matches Submission::Run { operation, success } ==> {
                &&& final(self).pending is None
                &&& final(activity).busy
                &&& final(activity).error is None
                &&& opt_text(final(activity).status) == Some("Applying remote operation…"@)
                &&& match old(self).pending {
                    Some(PendingDialog::CreateDirectory) => (
                    operation matches RemoteOperation::CreateDirectory { path } && path@ == joined(
                        directory@,
                        trimmed(old(self).input@),
                    )) && success@ == "Created directory: "@ + trimmed(old(self).input@),
                    Some(PendingDialog::Rename(entry)) => (
                    operation matches RemoteOperation::Rename { from, to } && from == entry.path
                        && to@ == joined(directory@, trimmed(old(self).input@))) && success@
                        == "Renamed to: "@ + trimmed(old(self).input@),
                    Some(PendingDialog::Delete(entry)) => deletion(entry, operation) && success@
                        == "Deleted: "@ + entry.name@,
                    None => false,
                }
            },
    {
        if session.is_none() {
            return Submission::Ignored;
        }
        match self.pending.take() {
            None => Submission::Ignored,
            Some(PendingDialog::CreateDirectory) => {
                match validate_entry_name(self.input.as_str()) {
                    Err(message) => {
                        activity.error = Some(message.to_owned());
                        self.pending = Some(PendingDialog::CreateDirectory);
                        Submission::Refused
                    },
                    Ok(name) => {
                        let path = posix_join(directory, name.as_str());
                        let mut success = String::from_str("Created directory: ");
                        success.append(name.as_str());
                        activity.begin("Applying remote operation…");
                        Submission::Run {
                            operation: RemoteOperation::CreateDirectory { path },
                            success,
                        }
                    },
                }
            },
            Some(PendingDialog::Rename(entry)) => {
                match validate_entry_name(self.input.as_str()) {
                    Err(message) => {
                        activity.error = Some(message.to_owned());
                        self.pending = Some(PendingDialog::Rename(entry));
                        Submission::Refused
                    },
                    Ok(name) => {
                        if same(name.as_str(), entry.name.as_str()) {
                            return Submission::Unchanged;
                        }
                        let to = posix_join(directory, name.as_str());
                        let mut success = String::from_str("Renamed to: ");
                        success.append(name.as_str());
                        activity.begin("Applying remote operation…");
                        Submission::Run {
                            operation: RemoteOperation::Rename { from: entry.path, to },
                            success,
                        }
                    },
                }
            },
            Some(PendingDialog::Delete(entry)) => {
                let mut success = String::from_str("Deleted: ");
                success.append(entry.name.as_str());
                activity.begin("Applying remote operation…");
                Submission::Run { operation: delete_operation(entry), success }
            },
        }
    }
}

/// What an operation gave: after a success nothing is selected and the directory is read again;
/// a failure is told. The panel is not busy any more.
pub fn finish_operation(
    result: Result<(), String>,
    success: String,
    listing: &mut Listing,
    activity: &mut Activity,
)
    ensures
        !final(activity).busy,
        final(listing).entries@ == old(listing).entries@,
        final(listing).sequence == old(listing).sequence,
        final(listing).loading == old(listing).loading,
        final(listing).error == old(listing).error,
        match result {
            Ok(_) => final(activity).status == Some(success) && final(activity).error == old(
                activity).error && final(activity).refresh == old(activity).refresh.wrapping_add(1)
                && final(listing).selected is None,
            Err(message) => final(activity).status is None && final(activity).error == Some(message)
                && final(activity).refresh == old(activity).refresh && final(listing).selected
                == old(listing).selected,
        },
{
    match result {
        Ok(_) => {
            activity.status = Some(success);
            listing.selected = None;
            activity.refresh = activity.refresh.wrapping_add(1);
        },
        Err(message) => {
            activity.status = None;
            activity.error = Some(message);
        },
    }
    activity.busy = false;
}

/// Every entry of the directory whose name is neither "." nor ".." is in the listing, as often as
/// it is in the directory; no entry of one of these two names is.
pub proof fn law_all_but_the_two_dots_are_listed(
    entries: Seq<RemoteDirEntry>,
    entry: RemoteDirEntry,
)
    ensures
        entry.name@ != "."@ && entry.name@ != ".."@ ==> listed(entries).to_multiset().count(entry)
            == entries.to_multiset().count(entry),
        entry.name@ == "."@ || entry.name@ == ".."@ ==> listed(entries).to_multiset().count(entry)
            == 0,
        entry.name@ != "."@ && entry.name@ != ".."@ ==> (listed(entries).contains(entry)
            <==> entries.contains(entry)),
        entry.name@ == "."@ || entry.name@ == ".."@ ==> !listed(entries).contains(entry),
{
    broadcast use vstd::seq_lib::group_to_multiset_ensures;

    law_listing_holds_the_entries(entries);
    crate::text::lemma_filter_count(entries, is_listed_entry(), entry);
    assert(listed(entries).contains(entry) <==> listed(entries).to_multiset().count(entry) > 0);
    assert(entries.contains(entry) <==> entries.to_multiset().count(entry) > 0);
}

/// A listing is in order: a directory before what is none, and of two entries that are alike in
/// that, one whose name in lower case comes first before the other; where these are the same, by
/// the names as they are.
pub proof fn law_listing_is_in_order(entries: Seq<RemoteDirEntry>, i: int, j: int)
    requires
        0 <= i < j < listed(entries).len(),
    ensures
        listed(entries)[i].file_type != RemoteFileType::Directory ==> listed(entries)[j].file_type
            != RemoteFileType::Directory,
        (listed(entries)[i].file_type == RemoteFileType::Directory <==> listed(entries)[j].file_type
            == RemoteFileType::Directory) ==> !text_less(
            lowercase(listed(entries)[j].name@),
            lowercase(listed(entries)[i].name@),
        ),
        (listed(entries)[i].file_type == RemoteFileType::Directory <==> listed(entries)[j].file_type
            == RemoteFileType::Directory) && lowercase(listed(entries)[i].name@) == lowercase(
            listed(entries)[j].name@,
        ) ==> !text_less(listed(entries)[j].name@, listed(entries)[i].name@),
{
    law_listing_order();
    crate::sort::law_sorted(entries.filter(is_listed_entry()), listing_order());
    let list = listed(entries);
    assert(!listing_order()(list[j], list[i]));
    crate::search::lemma_less_irreflexive(lowercase(list[i].name@));
}

/// A session is offered exactly when it is an SSH session that is connected, under its id.
pub proof fn law_connected_sessions_are_offered(
    tabs: Seq<SessionTab>,
    connected: Seq<Seq<char>>,
    tab: SessionTab,
    i: int,
)
    ensures
        tabs.contains(tab) && tab.kind == SessionType::Ssh && connected.contains(tab.id@)
            ==> browsable(tabs, connected).contains(option_of(tab)),
        0 <= i < browsable(tabs, connected).len() ==> exists|k: int|
            0 <= k < tabs.len() && (#[trigger] tabs[k]).kind == SessionType::Ssh
                && connected.contains(tabs[k].id@) && browsable(tabs, connected)[i] == option_of(
                tabs[k],
            ),
{
    broadcast use vstd::seq_lib::group_filter_ensures;

    let keep = is_browsable(connected);
    let kept = tabs.filter(keep);
    let all = browsable(tabs, connected);
    if tabs.contains(tab) && tab.kind == SessionType::Ssh && connected.contains(tab.id@) {
        let k = choose|k: int| 0 <= k < tabs.len() && tabs[k] == tab;
        assert(keep(tabs[k]));
        assert(kept.contains(tab));
        let j = choose|j: int| 0 <= j < kept.len() && kept[j] == tab;
        assert(all[j] == option_of(tab));
    }
    if 0 <= i < all.len() {
        crate::text::lemma_filtered_is_listed(tabs, keep, i);
        let k = choose|k: int| 0 <= k < tabs.len() && tabs[k] == kept[i];
        assert(all[i] == option_of(tabs[k]));
    }
}

/// A session is offered under its id and its name, with the host that its shell reports behind it
/// where that is told and is another text than the name.
pub proof fn law_offered_label(tab: SessionTab)
    ensures
        option_of(tab).id == tab.id@,
        tab.hostname is None ==> option_of(tab).label == tab.name@,
        tab.hostname matches Some(host) ==> (host@.len() == 0 || host@ == tab.name@ ==> option_of(
            tab,
        ).label == tab.name@),
        tab.hostname matches Some(host) ==> (host@.len() > 0 && host@ != tab.name@ ==> option_of(
            tab,
        ).label == tab.name@ + " · "@ + host@),
{
}

/// The focused session comes before the active one, and the active one before the first that is
/// offered.
pub proof fn law_preference(
    options: Seq<SessionOptionText>,
    focused: Option<Seq<char>>,
    active: Option<Seq<char>>,
)
    ensures
        focused matches Some(id) ==> (offers(options, id) ==> preferred(options, focused, active)
            == Some(id)),
        (focused is None || !offers(options, focused->0)) && active is Some && offers(
            options,
            active->0,
        ) ==> preferred(options, focused, active) == Some(active->0),
        (focused is None || !offers(options, focused->0)) && (active is None || !offers(
            options,
            active->0,
        )) && options.len() > 0 ==> preferred(options, focused, active) == Some(options[0].id),
{
}

/// A directory is deleted as an empty directory, a file and a link as a file, and always under the
/// path of the entry; what is neither is not deleted.
pub proof fn law_deletion(entry: RemoteDirEntry, operation: RemoteOperation)
    requires
        deletion(entry, operation),
    ensures
        entry.file_type == RemoteFileType::Directory <==> operation is RemoveEmptyDirectory,
        entry.file_type == RemoteFileType::File || entry.file_type == RemoteFileType::Symlink
            <==> operation is RemoveFile,
        entry.file_type == RemoteFileType::Other <==> operation is Unsupported,
        operation matches RemoteOperation::RemoveFile { path } ==> path == entry.path,
        operation matches RemoteOperation::RemoveEmptyDirectory { path } ==> path == entry.path,
{
}

/// A typed name is taken without the whitespace around it, unless nothing is left of it, it is one
/// of the dots, or it holds a slash.
pub proof fn law_typed_name(dialog: EntryDialog)
    ensures
        dialog.typed_name() is None <==> trimmed(dialog.input@).len() == 0 || trimmed(dialog.input@)
            == "."@ || trimmed(dialog.input@) == ".."@ || trimmed(dialog.input@).contains('/'),
        dialog.typed_name() matches Some(name) ==> name == trimmed(dialog.input@),
{
    crate::posix_path::law_refused_names(dialog.input@);
}

} // verus!
