//! The relay's settings panel: its switch, its address, and its accounts with their restrictions.

use vstd::prelude::*;

use crate::api_panel::RelaySwitch;
use crate::i18n::{Catalog, Language};
use crate::model::{
    account_other, accounts_view, law_removed_account_is_gone, remove_account, AccountText,
    RelayAccount,
};
use crate::number::{decimal, decimal_text, parse_unsigned, parsed};
use crate::search::{
    is_char, is_filled, join, join_texts, lemma_pieces_uncut, split_on, split_text,
};
use crate::text::{
    lemma_filter_none, lemma_filter_step, lemma_texts_push, lemma_trimmed_ends, texts, trim,
    trim_end, trim_start, trimmed,
};

verus! {

// ---------------------------------------------------------------------------------------------
// Lists in one line
// ---------------------------------------------------------------------------------------------

/// Trimming.
pub open spec fn trimming() -> spec_fn(Seq<char>) -> Seq<char> {
    |s: Seq<char>| trimmed(s)
}

/// The entries of a line: what stands between its commas, trimmed, without the empty ones.
pub open spec fn csv(line: Seq<char>) -> Seq<Seq<char>> {
    split_on(line, ',').map_values(trimming()).filter(is_filled())
}

/// The entries of a line.
pub fn split_csv(input: &str) -> (r: Vec<String>)
    ensures
        texts(r@) == csv(input@),
{
    let pieces = split_text(input, ',');
    let ghost all = split_on(input@, ',').map_values(trimming());
    let mut out: Vec<String> = Vec::new();
    proof {
        lemma_filter_none(all, is_filled());
    }
    assert(texts(out@) == all.take(0).filter(is_filled()));
    for i in 0..pieces.len()
        invariant
            texts(pieces@) == split_on(input@, ','),
            all == split_on(input@, ',').map_values(trimming()),
            texts(out@) == all.take(i as int).filter(is_filled()),
    {
        let entry = trim(pieces[i].as_str());
        proof {
            assert(texts(pieces@)[i as int] == pieces@[i as int]@);
            assert(all[i as int] == entry@);
            lemma_filter_step(all, i as int, is_filled());
            lemma_texts_push(out@, entry);
        }
        if !entry.as_str().is_empty() {
            out.push(entry);
        }
    }
    proof {
        lemma_filter_none(all, is_filled());
        assert(all.len() == pieces@.len()) by {
            assert(texts(pieces@).len() == pieces@.len());
        }
    }
    out
}

proof fn lemma_trim_start_part(s: Seq<char>)
    ensures
        exists|from: int| 0 <= from <= s.len() && trim_start(s) == #[trigger] s.skip(from),
    decreases s.len(),
{
    if s.len() > 0 && crate::text::char_is_whitespace(s[0]) {
        lemma_trim_start_part(s.drop_first());
        let from = choose|from: int|
            0 <= from <= s.drop_first().len() && trim_start(s.drop_first())
                == #[trigger] s.drop_first().skip(from);
        let next = from + 1;
        assert(s.drop_first().skip(from) == s.skip(next));
    } else {
        assert(s.skip(0) == s);
    }
}

proof fn lemma_trim_end_part(s: Seq<char>)
    ensures
        exists|to: int| 0 <= to <= s.len() && trim_end(s) == #[trigger] s.take(to),
    decreases s.len(),
{
    if s.len() > 0 && crate::text::char_is_whitespace(s.last()) {
        lemma_trim_end_part(s.drop_last());
        let to = choose|to: int|
            0 <= to <= s.drop_last().len() && trim_end(s.drop_last())
                == #[trigger] s.drop_last().take(to);
        assert(s.drop_last().take(to) == s.take(to));
    } else {
        assert(s.take(s.len() as int) == s);
    }
}

/// Every entry of a line holds something, is trimmed, and holds no comma.
pub proof fn law_csv_entries(line: Seq<char>, i: int)
    requires
        0 <= i < csv(line).len(),
    ensures
        csv(line)[i].len() > 0,
        trimmed(csv(line)[i]) == csv(line)[i],
        !csv(line)[i].contains(','),
{
    broadcast use vstd::seq_lib::group_filter_ensures;

    let pieces = split_on(line, ',');
    let all = pieces.map_values(trimming());
    let entry = csv(line)[i];
    assert(csv(line).contains(entry));
    all.lemma_filter_contains_rev(is_filled(), entry);
    let k = choose|k: int| 0 <= k < all.len() && all[k] == entry;
    let piece = pieces[k];
    assert(entry == trimmed(piece));
    lemma_trimmed_ends(piece);
    lemma_trim_start_part(piece);
    lemma_trim_end_part(trim_start(piece));
    let from = choose|from: int|
        0 <= from <= piece.len() && trim_start(piece) == #[trigger] piece.skip(from);
    let to = choose|to: int|
        0 <= to <= trim_start(piece).len() && trim_end(trim_start(piece))
            == #[trigger] trim_start(piece).take(to);
    assert forall|j: int| 0 <= j < entry.len() implies entry[j] != ',' by {
        assert(entry[j] == piece[from + j]);
        lemma_pieces_uncut(line, is_char(','), k, from + j);
    }
}

// ---------------------------------------------------------------------------------------------
// The switch
// ---------------------------------------------------------------------------------------------

impl RelaySwitch {
    /// Whether the relay may be started: an address that is open to the network has to be
    /// confirmed, and there has to be an account. What is missing is shown.
    pub fn may_start(
        &mut self,
        binds_publicly: bool,
        confirmed: bool,
        accounts: &Vec<RelayAccount>,
    ) -> (r: bool)
        ensures
            r == (!(binds_publicly && !confirmed) && accounts@.len() > 0),
            final(self).running == old(self).running,
            final(self).started_url == old(self).started_url,
            final(self).status@ == (if binds_publicly && !confirmed {
                "relay.confirm_public_bind_before_start"@
            } else if accounts@.len() == 0 {
                "relay.account_required_before_start"@
            } else {
                old(self).status@
            }),
    {
        if binds_publicly && !confirmed {
            self.status = "relay.confirm_public_bind_before_start".to_owned();
            return false;
        }
        if accounts.len() == 0 {
            self.status = "relay.account_required_before_start".to_owned();
            return false;
        }
        true
    }

    /// The stop button: the relay stops even where the settings could not be stored, which is
    /// shown.
    pub fn stop_anyway(&mut self, stored: Result<(), String>)
        ensures
            !final(self).running,
            final(self).started_url == old(self).started_url,
            final(self).status == (match stored {
                Ok(_) => old(self).status,
                Err(message) => message,
            }),
    {
        if let Err(message) = stored {
            self.status = message;
        }
        self.running = false;
    }

    /// The save button. The status is the key of a message.
    pub fn config_saved(&mut self, stored: Result<(), String>)
        ensures
            final(self).running == old(self).running,
            final(self).started_url == old(self).started_url,
            final(self).status@ == (match stored {
                Ok(_) => "api.saved"@,
                Err(message) => message@,
            }),
    {
        self.status = match stored {
            Ok(_) => "api.saved".to_owned(),
            Err(message) => message,
        };
    }

    /// The address field: any text that is no address is shown as such.
    pub fn bind_addr_typed(
        &mut self,
        typed: &str,
        is_address: bool,
        language: Language,
        catalog: &Catalog,
    )
        ensures
            final(self).running == old(self).running,
            final(self).started_url == old(self).started_url,
            final(self).status@ == (if is_address {
                old(self).status@
            } else {
                catalog.text_with(language, "relay.invalid_bind_addr"@, "value"@, typed@)
            }),
    {
        if !is_address {
            self.status = catalog.tf_for(language, "relay.invalid_bind_addr", "value", typed);
        }
    }

    /// The port field: a text that is a port is taken over and clears the status; any other is
    /// shown as such.
    pub fn relay_port_typed(
        &mut self,
        port: &mut u16,
        typed: &str,
        language: Language,
        catalog: &Catalog,
    )
        ensures
            final(self).running == old(self).running,
            final(self).started_url == old(self).started_url,
            match parsed(typed@, 65535) {
                Some(value) => *final(port) == value && final(self).status@ == Seq::<char>::empty(),
                None => *final(port) == *old(port) && final(self).status@ == catalog.text_with(
                    language,
                    "api.invalid_port"@,
                    "value"@,
                    typed@,
                ),
            },
    {
        match parse_unsigned(typed, 65535) {
            Some(value) => {
                *port = value as u16;
                self.status = String::new();
            },
            None => {
                self.status = catalog.tf_for(language, "api.invalid_port", "value", typed);
            },
        }
    }
}

/// Whether the warning about an address that is open to the network is shown.
pub fn warns_of_public_bind(binds_publicly: bool, confirmed: bool) -> (r: bool)
    ensures
        r == (binds_publicly && !confirmed),
{
    binds_publicly && !confirmed
}

// ---------------------------------------------------------------------------------------------
// Accounts
// ---------------------------------------------------------------------------------------------

/// The hosts of an account in one line; a star where it has all.
pub fn hosts_text(account: &RelayAccount) -> (r: String)
    ensures
        r@ == (if account@.allowed_hosts.len() == 0 {
            "*"@
        } else {
            join(account@.allowed_hosts, ", "@)
        }),
{
    if account.allowed_hosts.len() == 0 {
        "*".to_owned()
    } else {
        join_texts(&account.allowed_hosts, ", ")
    }
}

/// The commands of an account in one line; a message where it has all.
pub fn commands_text(account: &RelayAccount, language: Language, catalog: &Catalog) -> (r: String)
    ensures
        r@ == (if account@.allowed_commands.len() == 0 {
            catalog.text(language, "relay.all_commands_validated"@)
        } else {
            join(account@.allowed_commands, ", "@)
        }),
{
    if account.allowed_commands.len() == 0 {
        catalog.t_for(language, "relay.all_commands_validated")
    } else {
        join_texts(&account.allowed_commands, ", ")
    }
}

/// The numbers of a list in decimal.
pub open spec fn decimals(list: Seq<usize>) -> Seq<Seq<char>> {
    list.map_values(|n: usize| decimal(n as nat))
}

/// A list of numbers in brackets.
pub open spec fn index_list(list: Seq<usize>) -> Seq<char> {
    "["@ + join(decimals(list), ", "@) + "]"@
}

/// A list of numbers in brackets.
pub fn indices_text(list: &Vec<usize>) -> (r: String)
    ensures
        r@ == index_list(list@),
{
    let mut items: Vec<String> = Vec::new();
    for i in 0..list.len()
        invariant
            texts(items@) == decimals(list@).take(i as int),
    {
        let item = decimal_text(list[i] as u64);
        proof {
            lemma_texts_push(items@, item);
            assert(decimals(list@).take(i + 1) == decimals(list@).take(i as int).push(item@));
        }
        items.push(item);
    }
    assert(decimals(list@).take(list@.len() as int) == decimals(list@));
    let mut out = "[".to_owned();
    out.append(join_texts(&items, ", ").as_str());
    out.append("]");
    out
}

/// The fields for an account, new or changed.
#[derive(Clone, Debug, PartialEq)]
pub struct RelayAccountForm {
    pub username: String,
    pub password: String,
    pub allowed_hosts: String,
    pub allowed_commands: String,
    pub readonly: bool,
    pub error: String,
}

impl RelayAccountForm {
    /// Whether two forms have the same fields, their errors aside.
    pub open spec fn same_fields(self, other: RelayAccountForm) -> bool {
        &&& self.username == other.username
        &&& self.password == other.password
        &&& self.allowed_hosts == other.allowed_hosts
        &&& self.allowed_commands == other.allowed_commands
        &&& self.readonly == other.readonly
    }

    /// Checks the form: the trimmed name and the password must not be empty. The name is handed
    /// back where the password is to be hashed; else the error is the key of a message.
    pub fn begin(&mut self) -> (r: Option<String>)
        ensures
            r is Some <==> trimmed(old(self).username@).len() > 0 && old(self).password@.len() > 0,
            r matches Some(name) ==> name@ == trimmed(old(self).username@) && *final(self) == *old(
                self,
            ),
            r is None ==> final(self).same_fields(*old(self)) && final(self).error@ == (if trimmed(
                old(self).username@,
            ).len() == 0 {
                "relay.username_required"@
            } else {
                "relay.password_required"@
            }),
    {
        let user = trim(self.username.as_str());
        if user.as_str().is_empty() {
            self.error = "relay.username_required".to_owned();
            return None;
        }
        if self.password.as_str().is_empty() {
            self.error = "relay.password_required".to_owned();
            return None;
        }
        Some(user)
    }

    /// The commands that the account is restricted to.
    pub fn command_patterns(&self) -> (r: Vec<String>)
        ensures
            texts(r@) == csv(self.allowed_commands@),
    {
        split_csv(self.allowed_commands.as_str())
    }

    /// Puts the account in place of the one of its name, at the end, once its password is hashed
    /// and its command patterns are valid (`true`); a failure is shown and changes nothing else.
    /// Of the patterns that are not valid the positions are shown.
    pub fn apply(
        &mut self,
        accounts: &mut Vec<RelayAccount>,
        username: String,
        hashed: Result<String, String>,
        compiled: Result<(), Vec<usize>>,
        language: Language,
        catalog: &Catalog,
    ) -> (r: bool)
        ensures
            r == (hashed is Ok && compiled is Ok),
            final(self).same_fields(*old(self)),
            match (hashed, compiled) {
                (Err(message), _) => {
                    &&& final(accounts)@ == old(accounts)@
                    &&& final(self).error@ == catalog.text_with(
                        language,
                        "relay.hashing_failed"@,
                        "error"@,
                        message@,
                    )
                },
                (Ok(_), Err(positions)) => {
                    &&& final(accounts)@ == old(accounts)@
                    &&& final(self).error@ == catalog.text_with(
                        language,
                        "relay.invalid_regex_indices"@,
                        "indices"@,
                        index_list(positions@),
                    )
                },
                (Ok(hash), Ok(_)) => {
                    &&& final(self).error == old(self).error
                    &&& accounts_view(final(accounts)@) == accounts_view(
                        old(accounts)@.filter(account_other(username@)),
                    ).push(
                        AccountText {
                            username: username@,
                            password_hash: hash@,
                            allowed_hosts: csv(old(self).allowed_hosts@),
                            allowed_commands: csv(old(self).allowed_commands@),
                            readonly: old(self).readonly,
                        },
                    )
                },
            },
    {
        let hash = match hashed {
            Ok(hash) => hash,
            Err(message) => {
                self.error = catalog.tf_for(
                    language,
                    "relay.hashing_failed",
                    "error",
                    message.as_str(),
                );
                return false;
            },
        };
        if let Err(positions) = compiled {
            let shown = indices_text(&positions);
            self.error = catalog.tf_for(
                language,
                "relay.invalid_regex_indices",
                "indices",
                shown.as_str(),
            );
            return false;
        }
        let account = RelayAccount {
            username: username.clone(),
            password_hash: hash,
            allowed_hosts: split_csv(self.allowed_hosts.as_str()),
            allowed_commands: split_csv(self.allowed_commands.as_str()),
            readonly: self.readonly,
        };
        remove_account(accounts, username.as_str());
        let ghost before = accounts@;
        accounts.push(account);
        assert(accounts_view(before.push(account)) == accounts_view(before).push(account@));
        true
    }

    /// Once the accounts were stored: the form is emptied, except for the read-only mark; a
    /// failure is shown and the form stays as it is.
    pub fn stored(&mut self, outcome: Result<(), String>)
        ensures
            final(self).readonly == old(self).readonly,
            match outcome {
                Ok(_) => {
                    &&& final(self).username@ == Seq::<char>::empty()
                    &&& final(self).password@ == Seq::<char>::empty()
                    &&& final(self).allowed_hosts@ == Seq::<char>::empty()
                    &&& final(self).allowed_commands@ == Seq::<char>::empty()
                    &&& final(self).error@ == Seq::<char>::empty()
                },
                Err(message) => final(self).same_fields(*old(self)) && final(self).error == message,
            },
    {
        match outcome {
            Ok(_) => {
                self.username = String::new();
                self.password = String::new();
                self.allowed_hosts = String::new();
                self.allowed_commands = String::new();
                self.error = String::new();
            },
            Err(message) => {
                self.error = message;
            },
        }
    }
}

/// Once an account is put in place there is exactly one of its name, the last one.
pub proof fn law_one_account_of_a_name(accounts: Seq<RelayAccount>, account: RelayAccount, i: int)
    requires
        0 <= i <= accounts.filter(account_other(account.username@)).len(),
    ensures
        accounts.filter(account_other(account.username@)).push(account)[i].username@
            == account.username@ <==> i == accounts.filter(account_other(account.username@)).len(),
{
    let kept = accounts.filter(account_other(account.username@));
    law_removed_account_is_gone(accounts, account.username@, account.username@);
    if i < kept.len() {
        assert(kept.push(account)[i] == kept[i]);
    }
}

/// The entries of two lines with a comma between them are those of the first and then those of
/// the second; a line without a comma is one entry, without the whitespace around it, and none
/// where nothing is left.
pub proof fn law_csv(a: Seq<char>, b: Seq<char>)
    ensures
        csv(a + seq![','] + b) == csv(a) + csv(b),
        !a.contains(',') && trimmed(a).len() > 0 ==> csv(a) == seq![trimmed(a)],
        !a.contains(',') && trimmed(a).len() == 0 ==> csv(a) == Seq::<Seq<char>>::empty(),
{
    reveal(Seq::filter);
    crate::search::law_split_on(a, b, ',');
    let left = split_on(a, ',');
    let right = split_on(b, ',');
    assert((left + right).map_values(trimming()) == left.map_values(trimming())
        + right.map_values(trimming()));
    crate::search::lemma_filter_sum(
        left.map_values(trimming()),
        right.map_values(trimming()),
        is_filled(),
    );
    if !a.contains(',') {
        let one = seq![trimmed(a)];
        assert(left.map_values(trimming()) == one);
        assert(one.drop_last() == Seq::<Seq<char>>::empty());
        assert(one.last() == trimmed(a));
        assert(one.drop_last().filter(is_filled()) == Seq::<Seq<char>>::empty());
        if trimmed(a).len() > 0 {
            assert(one.filter(is_filled()) == one);
        } else {
            assert(!is_filled()(one.last()));
            assert(one.filter(is_filled()) == Seq::<Seq<char>>::empty());
        }
    }
}

/// A list of numbers stands in brackets, with a comma and a space between each two.
pub proof fn law_index_list(list: Seq<usize>, n: usize)
    ensures
        index_list(Seq::empty()) == "[]"@,
        index_list(seq![n]) == "["@ + decimal(n as nat) + "]"@,
        list.len() > 0 ==> index_list(list.push(n)) == index_list(list).drop_last() + ", "@
            + decimal(n as nat) + "]"@,
{
    reveal_strlit("[");
    reveal_strlit("]");
    reveal_strlit("[]");
    let none = Seq::<Seq<char>>::empty();
    assert(decimals(Seq::<usize>::empty()) == none);
    assert(join(none, ", "@) == Seq::<char>::empty());
    assert("["@ + Seq::<char>::empty() + "]"@ == "[]"@);
    let one = decimal(n as nat);
    assert(decimals(seq![n]) == seq![one]);
    assert(join(seq![one], ", "@) == one);
    if list.len() > 0 {
        let pieces = decimals(list);
        assert(decimals(list.push(n)) == pieces.push(one));
        assert(pieces.push(one).drop_last() == pieces);
        assert(join(pieces.push(one), ", "@) == join(pieces, ", "@) + ", "@ + one);
        assert(index_list(list).drop_last() == "["@ + join(pieces, ", "@));
        assert(index_list(list.push(n)) == "["@ + join(pieces, ", "@) + ", "@ + one + "]"@);
    }
}

} // verus!
