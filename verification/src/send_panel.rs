//! The send panel: typing a command for the sessions, with completions from the history.

use vstd::prelude::*;

use crate::search::{starts_with, starts_with_text};
use crate::text::{lemma_texts_push, list_contains, lowercase, same, texts, trim, trimmed};

verus! {

// ---------------------------------------------------------------------------------------------
// Completions
// ---------------------------------------------------------------------------------------------

/// Whether a text is in a list, whatever the case.
pub open spec fn is_taken(list: Seq<Seq<char>>, text: Seq<char>) -> bool {
    exists|i: int| 0 <= i < list.len() && lowercase(#[trigger] list[i]) == lowercase(text)
}

/// Whether a command completes a prefix: it starts with it, whatever the case, and is another
/// text; it is not among those found already, whatever the case, and did not fail lately.
pub open spec fn completes(
    command: Seq<char>,
    prefix: Seq<char>,
    failed: Seq<Seq<char>>,
    found: Seq<Seq<char>>,
) -> bool {
    starts_with_text(lowercase(command), lowercase(prefix)) && command != prefix && !is_taken(
        found,
        command,
    ) && !failed.contains(command)
}

/// Whether a limit is reached.
pub open spec fn is_full(found: Seq<Seq<char>>, limit: Option<nat>) -> bool {
    limit matches Some(n) && found.len() >= n
}

/// What is found once the commands of a source were gone through in their order, each taken
/// where it completes the prefix, up to a limit.
pub open spec fn gathered(
    source: Seq<Seq<char>>,
    prefix: Seq<char>,
    failed: Seq<Seq<char>>,
    found: Seq<Seq<char>>,
    limit: Option<nat>,
) -> Seq<Seq<char>>
    decreases source.len(),
{
    if source.len() == 0 {
        found
    } else {
        let before = gathered(source.drop_last(), prefix, failed, found, limit);
        if !is_full(before, limit) && completes(source.last(), prefix, failed, before) {
            before.push(source.last())
        } else {
            before
        }
    }
}

/// How many completions are offered: at least one.
pub open spec fn offered(suggestion_count: u8) -> nat {
    if suggestion_count == 0 {
        1
    } else {
        suggestion_count as nat
    }
}

/// The completions of a prefix: those of the history, which come first, and where these are too
/// few those of the most used commands.
pub open spec fn completions(
    prefix: Seq<char>,
    failed: Seq<Seq<char>>,
    history: Seq<Seq<char>>,
    rankings: Seq<Seq<char>>,
    suggestion_count: u8,
) -> Seq<Seq<char>> {
    ranked(
        gathered(history, prefix, failed, Seq::empty(), None),
        prefix,
        failed,
        rankings,
        suggestion_count,
    )
}

/// What is offered once the history was gone through.
pub open spec fn ranked(
    found: Seq<Seq<char>>,
    prefix: Seq<char>,
    failed: Seq<Seq<char>>,
    rankings: Seq<Seq<char>>,
    suggestion_count: u8,
) -> Seq<Seq<char>> {
    let count = offered(suggestion_count);
    if found.len() < count {
        gathered(rankings, prefix, failed, found, Some(count))
    } else {
        found.take(count as int)
    }
}

fn taken(list: &Vec<String>, text: &str) -> (r: bool)
    ensures
        r == is_taken(texts(list@), text@),
{
    let folded = text.to_lowercase();
    for i in 0..list.len()
        invariant
            folded@ == lowercase(text@),
            forall|j: int| 0 <= j < i ==> lowercase(#[trigger] texts(list@)[j]) != lowercase(text@),
    {
        let other = list[i].as_str().to_lowercase();
        if same(other.as_str(), folded.as_str()) {
            assert(texts(list@)[i as int] == list@[i as int]@);
            return true;
        }
    }
    false
}

/// Goes through the commands of a source.
fn gather(
    source: &Vec<String>,
    prefix: &str,
    failed: &Vec<String>,
    found: &mut Vec<String>,
    limit: Option<usize>,
)
    ensures
        texts(final(found)@) == gathered(
            texts(source@),
            prefix@,
            texts(failed@),
            texts(old(found)@),
            match limit {
                Some(n) => Some(n as nat),
                None => None,
            },
        ),
{
    let ghost start = texts(found@);
    let ghost bound: Option<nat> = match limit {
        Some(n) => Some(n as nat),
        None => None,
    };
    let folded = prefix.to_lowercase();
    assert(texts(source@).take(0) == Seq::<Seq<char>>::empty());
    for i in 0..source.len()
        invariant
            folded@ == lowercase(prefix@),
            bound == (match limit {
                Some(n) => Some(n as nat),
                None => None,
            }),
            texts(found@) == gathered(
                texts(source@).take(i as int),
                prefix@,
                texts(failed@),
                start,
                bound,
            ),
    {
        let full = match limit {
            Some(n) => found.len() >= n,
            None => false,
        };
        let command = source[i].as_str();
        proof {
            let now = texts(source@).take(i + 1);
            assert(now.drop_last() == texts(source@).take(i as int));
            assert(now.last() == command@);
            assert(full == is_full(texts(found@), bound));
        }
        if !full && starts_with(command.to_lowercase().as_str(), folded.as_str()) && !same(
            command,
            prefix,
        ) && !taken(found, command) && !list_contains(failed, command) {
            let text = source[i].clone();
            proof {
                lemma_texts_push(found@, text);
            }
            found.push(text);
        }
    }
    assert(texts(source@).take(source@.len() as int) == texts(source@));
}

/// How many commands each source is asked for.
pub fn source_limit(suggestion_count: u8) -> (r: usize)
    ensures
        r == 2 * offered(suggestion_count),
{
    let count: usize = if suggestion_count == 0 {
        1
    } else {
        suggestion_count as usize
    };
    2 * count
}

/// The completions from the history.
pub fn history_completions(prefix: &str, failed: &Vec<String>, history: &Vec<String>) -> (r: Vec<
    String,
>)
    ensures
        texts(r@) == gathered(texts(history@), prefix@, texts(failed@), Seq::empty(), None),
{
    let mut found: Vec<String> = Vec::new();
    assert(texts(found@) == Seq::<Seq<char>>::empty());
    gather(history, prefix, failed, &mut found, None);
    found
}

/// Whether the most used commands are asked for too.
pub fn needs_rankings(found: &Vec<String>, suggestion_count: u8) -> (r: bool)
    ensures
        r == (found@.len() < offered(suggestion_count)),
{
    let count: usize = if suggestion_count == 0 {
        1
    } else {
        suggestion_count as usize
    };
    found.len() < count
}

/// The completions that are offered, once the history was gone through.
pub fn ranked_completions(
    found: Vec<String>,
    prefix: &str,
    failed: &Vec<String>,
    rankings: &Vec<String>,
    suggestion_count: u8,
) -> (r: Vec<String>)
    ensures
        texts(r@) == ranked(
            texts(found@),
            prefix@,
            texts(failed@),
            texts(rankings@),
            suggestion_count,
        ),
{
    let count: usize = if suggestion_count == 0 {
        1
    } else {
        suggestion_count as usize
    };
    let mut all = found;
    if all.len() < count {
        gather(rankings, prefix, failed, &mut all, Some(count));
    } else {
        let ghost before = all@;
        all.truncate(count);
        assert(texts(all@) == texts(before).take(count as int));
    }
    all
}

proof fn lemma_gathered(
    source: Seq<Seq<char>>,
    prefix: Seq<char>,
    failed: Seq<Seq<char>>,
    found: Seq<Seq<char>>,
    limit: Option<nat>,
)
    requires
        all_complete(found, prefix, failed),
        limit matches Some(n) ==> found.len() <= n,
    ensures
        all_complete(gathered(source, prefix, failed, found, limit), prefix, failed),
        limit matches Some(n) ==> gathered(source, prefix, failed, found, limit).len() <= n,
    decreases source.len(),
{
    if source.len() > 0 {
        lemma_gathered(source.drop_last(), prefix, failed, found, limit);
    }
}

/// Whether each command of a list completes a prefix next to those before it.
pub open spec fn all_complete(
    list: Seq<Seq<char>>,
    prefix: Seq<char>,
    failed: Seq<Seq<char>>,
) -> bool {
    &&& forall|i: int|
        0 <= i < list.len() ==> starts_with_text(lowercase(#[trigger] list[i]), lowercase(prefix))
            && list[i] != prefix && !failed.contains(list[i])
    &&& forall|i: int, j: int|
        0 <= i < j < list.len() ==> lowercase(#[trigger] list[i]) != lowercase(#[trigger] list[j])
}

/// What is offered are no more completions than asked for, each starts with the prefix and adds
/// to it, none is offered twice in different cases, and none failed lately.
pub proof fn law_completions(
    prefix: Seq<char>,
    failed: Seq<Seq<char>>,
    history: Seq<Seq<char>>,
    rankings: Seq<Seq<char>>,
    suggestion_count: u8,
)
    ensures
        completions(prefix, failed, history, rankings, suggestion_count).len() <= offered(
            suggestion_count,
        ),
        all_complete(
            completions(prefix, failed, history, rankings, suggestion_count),
            prefix,
            failed,
        ),
{
    let found = gathered(history, prefix, failed, Seq::empty(), None);
    lemma_gathered(history, prefix, failed, Seq::empty(), None);
    if found.len() < offered(suggestion_count) {
        lemma_gathered(rankings, prefix, failed, found, Some(offered(suggestion_count)));
    }
}

proof fn lemma_gathered_prefix(
    source: Seq<Seq<char>>,
    prefix: Seq<char>,
    failed: Seq<Seq<char>>,
    found: Seq<Seq<char>>,
    limit: Option<nat>,
)
    ensures
        found.is_prefix_of(gathered(source, prefix, failed, found, limit)),
    decreases source.len(),
{
    if source.len() > 0 {
        lemma_gathered_prefix(source.drop_last(), prefix, failed, found, limit);
    }
}

/// The completions of the history come first: what is offered starts with as many of them as
/// there is room for.
pub proof fn law_history_comes_first(
    prefix: Seq<char>,
    failed: Seq<Seq<char>>,
    history: Seq<Seq<char>>,
    rankings: Seq<Seq<char>>,
    suggestion_count: u8,
    i: int,
)
    requires
        0 <= i < offered(suggestion_count),
        i < gathered(history, prefix, failed, Seq::empty(), None).len(),
    ensures
        i < completions(prefix, failed, history, rankings, suggestion_count).len(),
        completions(prefix, failed, history, rankings, suggestion_count)[i] == gathered(
            history,
            prefix,
            failed,
            Seq::empty(),
            None,
        )[i],
{
    let found = gathered(history, prefix, failed, Seq::empty(), None);
    lemma_gathered_prefix(rankings, prefix, failed, found, Some(offered(suggestion_count)));
}

// ---------------------------------------------------------------------------------------------
// The input
// ---------------------------------------------------------------------------------------------

/// How long typing must rest before the completions are asked for, in milliseconds.
pub const SEND_COMPLETION_DEBOUNCE_MS: u64 = 200;

/// What is typed and what is offered for it. The epoch counts what makes an outstanding request
/// for completions obsolete.
#[derive(Clone, Debug, PartialEq)]
pub struct SendInput {
    pub command: String,
    pub suggestions: Vec<String>,
    pub selected: usize,
    pub visible: bool,
    pub epoch: u64,
}

/// A request for completions.
#[derive(Clone, Debug, PartialEq)]
pub struct CompletionRequest {
    pub epoch: u64,
    pub prefix: String,
}

/// A key in the input.
#[derive(Clone, Copy, PartialEq, Eq, Structural, Debug)]
pub enum SendKey {
    Tab,
    ArrowDown,
    ArrowUp,
    Escape,
    /// Enter together with the control or the command key.
    Run,
    Other,
}

/// What a key leads to: whether it was used up, and a command to send.
#[derive(Clone, Debug, PartialEq)]
pub struct SendKeyOutcome {
    pub handled: bool,
    pub sent: Option<String>,
}

impl SendInput {
    /// Whether the completions are shown.
    pub open spec fn is_open(self) -> bool {
        self.visible && self.suggestions@.len() > 0
    }

    /// The position of the highlighted completion.
    pub open spec fn highlighted(self) -> int {
        if self.selected < self.suggestions@.len() {
            self.selected as int
        } else {
            self.suggestions@.len() - 1
        }
    }

    /// Whether nothing is offered and an outstanding request is obsolete.
    pub open spec fn dismissed(self, before: SendInput) -> bool {
        &&& self.suggestions@.len() == 0
        &&& !self.visible
        &&& self.selected == 0
        &&& self.epoch == before.epoch + 1
    }

    /// The command that can be sent, if any.
    pub open spec fn sendable(self, has_targets: bool) -> Option<Seq<char>> {
        if trimmed(self.command@).len() > 0 && has_targets {
            Some(trimmed(self.command@))
        } else {
            None
        }
    }

    /// An empty input.
    pub fn new() -> (r: SendInput)
        ensures
            r.command@ == Seq::<char>::empty(),
            r.suggestions@.len() == 0,
            r.selected == 0,
            !r.visible,
            r.epoch == 0,
    {
        SendInput {
            command: String::new(),
            suggestions: Vec::new(),
            selected: 0,
            visible: false,
            epoch: 0,
        }
    }

    /// Whether the completions are shown.
    pub fn popup_open(&self) -> (r: bool)
        ensures
            r == self.is_open(),
    {
        self.visible && self.suggestions.len() > 0
    }

    /// The position of the highlighted completion; the first where there is none.
    pub fn current(&self) -> (r: usize)
        ensures
            self.suggestions@.len() > 0 ==> r == self.highlighted(),
            self.suggestions@.len() == 0 ==> r == 0,
    {
        if self.suggestions.len() == 0 {
            0
        } else if self.selected < self.suggestions.len() {
            self.selected
        } else {
            self.suggestions.len() - 1
        }
    }

    /// Whether the send button can be pressed.
    pub fn can_send(&self, has_targets: bool) -> (r: bool)
        ensures
            r == self.sendable(has_targets) is Some,
    {
        !trim(self.command.as_str()).as_str().is_empty() && has_targets
    }

    fn dismiss(&mut self)
        requires
            old(self).epoch < u64::MAX,
        ensures
            final(self).dismissed(*old(self)),
            final(self).command == old(self).command,
    {
        self.suggestions = Vec::new();
        self.visible = false;
        self.selected = 0;
        self.epoch = self.epoch + 1;
    }

    /// New text: any request that is outstanding is obsolete, and completions of the trimmed text
    /// are to be asked for. Where that is empty nothing is offered.
    pub fn typed(&mut self, value: String) -> (r: Option<CompletionRequest>)
        requires
            old(self).epoch < u64::MAX,
        ensures
            final(self).command == value,
            final(self).epoch == old(self).epoch + 1,
            r is Some <==> trimmed(value@).len() > 0,
            match r {
                Some(request) => {
                    &&& request.prefix@ == trimmed(value@)
                    &&& request.epoch == final(self).epoch
                    &&& final(self).visible
                    &&& final(self).suggestions == old(self).suggestions
                    &&& final(self).selected == old(self).selected
                },
                None => final(self).dismissed(*old(self)),
            },
    {
        let prefix = trim(value.as_str());
        self.command = value;
        self.epoch = self.epoch + 1;
        if prefix.as_str().is_empty() {
            self.suggestions = Vec::new();
            self.visible = false;
            self.selected = 0;
            return None;
        }
        self.visible = true;
        Some(CompletionRequest { epoch: self.epoch, prefix })
    }

    /// Whether a request is still the last one.
    pub fn is_current(&self, epoch: u64) -> (r: bool)
        ensures
            r == (self.epoch == epoch),
    {
        self.epoch == epoch
    }

    /// The completions for a request. Those for an obsolete request are dropped.
    pub fn fetched(&mut self, epoch: u64, suggestions: Vec<String>)
        ensures
            old(self).epoch != epoch ==> *final(self) == *old(self),
            old(self).epoch == epoch ==> {
                &&& final(self).command == old(self).command
                &&& final(self).epoch == old(self).epoch
                &&& final(self).suggestions == suggestions
                &&& final(self).visible == (suggestions@.len() > 0)
                &&& final(self).selected == 0
            },
    {
        if self.epoch != epoch {
            return;
        }
        self.visible = suggestions.len() > 0;
        self.suggestions = suggestions;
        self.selected = 0;
    }

    /// Takes a completion: the whole command is replaced by it.
    pub fn accept(&mut self, command: String)
        requires
            old(self).epoch < u64::MAX,
        ensures
            final(self).command == command,
            final(self).dismissed(*old(self)),
    {
        self.command = command;
        self.dismiss();
    }

    /// Sends the command, trimmed, where it holds something and there is a session to send it to;
    /// the input is then empty.
    pub fn send(&mut self, has_targets: bool) -> (r: Option<String>)
        requires
            old(self).epoch < u64::MAX,
        ensures
            crate::text::opt_text(r) == old(self).sendable(has_targets),
            r is None ==> *final(self) == *old(self),
            r is Some ==> final(self).command@ == Seq::<char>::empty() && final(self).dismissed(
                *old(self),
            ),
    {
        let value = trim(self.command.as_str());
        if value.as_str().is_empty() || !has_targets {
            return None;
        }
        self.command = String::new();
        self.dismiss();
        Some(value)
    }

    /// A key in the input. While completions are shown Tab takes the highlighted one, the arrows
    /// move the highlight around, and Escape dismisses them. Enter with a modifier sends.
    pub fn key(&mut self, key: SendKey, has_targets: bool) -> (r: SendKeyOutcome)
        requires
            old(self).epoch < u64::MAX,
        ensures
            r.handled <==> (key == SendKey::Run || (old(self).is_open() && key != SendKey::Other)),
            key == SendKey::Run ==> {
                &&& crate::text::opt_text(r.sent) == old(self).sendable(has_targets)
                &&& r.sent is None ==> *final(self) == *old(self)
                &&& r.sent is Some ==> final(self).command@ == Seq::<char>::empty() && final(
                    self).dismissed(*old(self))
            },
            key != SendKey::Run ==> r.sent is None,
            !r.handled ==> *final(self) == *old(self),
            old(self).is_open() ==> match key {
                SendKey::Tab => {
                    &&& final(self).command@ == old(self).suggestions@[old(self).highlighted()]@
                    &&& final(self).dismissed(*old(self))
                },
                SendKey::Escape => {
                    &&& final(self).command == old(self).command
                    &&& final(self).dismissed(*old(self))
                },
                SendKey::ArrowDown | SendKey::ArrowUp => {
                    &&& final(self).command == old(self).command
                    &&& final(self).suggestions == old(self).suggestions
                    &&& final(self).visible == old(self).visible
                    &&& final(self).epoch == old(self).epoch
                    &&& final(self).selected == (if key == SendKey::ArrowDown {
                        below(old(self).highlighted(), old(self).suggestions@.len())
                    } else {
                        above(old(self).highlighted(), old(self).suggestions@.len())
                    })
                },
                _ => true,
            },
    {
        if let SendKey::Run = key {
            let sent = self.send(has_targets);
            return SendKeyOutcome { handled: true, sent };
        }
        if !self.popup_open() {
            return SendKeyOutcome { handled: false, sent: None };
        }
        let at = self.current();
        match key {
            SendKey::Tab => {
                let command = self.suggestions[at].clone();
                self.accept(command);
            },
            SendKey::ArrowDown => {
                self.selected = if at < self.suggestions.len() - 1 {
                    at + 1
                } else {
                    0
                };
            },
            SendKey::ArrowUp => {
                self.selected = if at > 0 {
                    at - 1
                } else {
                    self.suggestions.len() - 1
                };
            },
            SendKey::Escape => {
                self.dismiss();
            },
            _ => {
                return SendKeyOutcome { handled: false, sent: None };
            },
        }
        SendKeyOutcome { handled: true, sent: None }
    }
}

/// The row below one of `count` rows; the first one below the last.
pub open spec fn below(at: int, count: nat) -> int {
    if at + 1 < count {
        at + 1
    } else {
        0
    }
}

/// The row above one of `count` rows; the last one above the first.
pub open spec fn above(at: int, count: nat) -> int {
    if at > 0 {
        at - 1
    } else {
        count - 1
    }
}

/// Going up undoes going down, and the other way round; neither leaves the rows.
pub proof fn law_up_and_down(at: int, count: nat)
    requires
        0 <= at < count,
    ensures
        0 <= below(at, count) < count,
        0 <= above(at, count) < count,
        above(below(at, count), count) == at,
        below(above(at, count), count) == at,
{
}

/// One row down is the next one and one row up the one before, around the ends.
pub proof fn law_rows_around(at: int, count: nat)
    requires
        0 <= at < count,
    ensures
        at < count - 1 ==> below(at, count) == at + 1,
        below(count - 1, count) == 0,
        at > 0 ==> above(at, count) == at - 1,
        above(0, count) == count - 1,
{
}

/// As many completions are offered as are asked for, and one where none is asked for.
pub proof fn law_offered(suggestion_count: u8)
    ensures
        suggestion_count > 0 ==> offered(suggestion_count) == suggestion_count,
        offered(0) == 1,
{
}

/// Everything that is gathered was found before or stands in the source.
proof fn lemma_gathered_from(
    source: Seq<Seq<char>>,
    prefix: Seq<char>,
    failed: Seq<Seq<char>>,
    found: Seq<Seq<char>>,
    limit: Option<nat>,
    i: int,
)
    requires
        0 <= i < gathered(source, prefix, failed, found, limit).len(),
    ensures
        found.contains(gathered(source, prefix, failed, found, limit)[i]) || source.contains(
            gathered(source, prefix, failed, found, limit)[i],
        ),
    decreases source.len(),
{
    let all = gathered(source, prefix, failed, found, limit);
    if source.len() > 0 {
        let rest = source.drop_last();
        let before = gathered(rest, prefix, failed, found, limit);
        if i < before.len() {
            lemma_gathered_from(rest, prefix, failed, found, limit, i);
            if rest.contains(all[i]) {
                let k = choose|k: int| 0 <= k < rest.len() && rest[k] == all[i];
                assert(source[k] == all[i]);
            }
        } else {
            assert(source[source.len() - 1] == all[i]);
        }
    } else {
        assert(found[i] == all[i]);
    }
}

/// A command of the source that starts with the prefix, goes on behind it and has not failed is
/// gathered, in one case of its letters or another, as long as there is room.
proof fn lemma_gathered_all(
    source: Seq<Seq<char>>,
    prefix: Seq<char>,
    failed: Seq<Seq<char>>,
    found: Seq<Seq<char>>,
    limit: Option<nat>,
    k: int,
)
    requires
        0 <= k < source.len(),
        starts_with_text(lowercase(source[k]), lowercase(prefix)),
        source[k] != prefix,
        !failed.contains(source[k]),
        limit matches Some(n) ==> gathered(source, prefix, failed, found, limit).len() < n,
    ensures
        is_taken(gathered(source, prefix, failed, found, limit), source[k]),
    decreases source.len(),
{
    let all = gathered(source, prefix, failed, found, limit);
    let rest = source.drop_last();
    let before = gathered(rest, prefix, failed, found, limit);
    if k < rest.len() {
        assert(rest[k] == source[k]);
        lemma_gathered_all(rest, prefix, failed, found, limit, k);
        let i = choose|i: int|
            0 <= i < before.len() && lowercase(#[trigger] before[i]) == lowercase(source[k]);
        assert(all[i] == before[i]);
    } else {
        if is_taken(before, source[k]) {
            let i = choose|i: int|
                0 <= i < before.len() && lowercase(#[trigger] before[i]) == lowercase(source[k]);
            assert(all[i] == before[i]);
        } else {
            assert(completes(source[k], prefix, failed, before));
            assert(all[all.len() - 1] == source[k]);
        }
    }
}

/// What is offered comes from the history or from the most used commands, and as long as there is
/// room for more, every command of either that starts with what was typed, goes on behind it and
/// has not failed is offered, in one case of its letters or another.
pub proof fn law_completions_leave_nothing_out(
    prefix: Seq<char>,
    failed: Seq<Seq<char>>,
    history: Seq<Seq<char>>,
    rankings: Seq<Seq<char>>,
    suggestion_count: u8,
    i: int,
    command: Seq<char>,
)
    ensures
        0 <= i < completions(prefix, failed, history, rankings, suggestion_count).len()
            ==> history.contains(
            completions(prefix, failed, history, rankings, suggestion_count)[i],
        ) || rankings.contains(
            completions(prefix, failed, history, rankings, suggestion_count)[i],
        ),
        completions(prefix, failed, history, rankings, suggestion_count).len() < offered(
            suggestion_count,
        ) && (history.contains(command) || rankings.contains(command)) && starts_with_text(
            lowercase(command),
            lowercase(prefix),
        ) && command != prefix && !failed.contains(command) ==> exists|j: int|
            0 <= j < completions(prefix, failed, history, rankings, suggestion_count).len()
                && lowercase(
                #[trigger] completions(prefix, failed, history, rankings, suggestion_count)[j],
            ) == lowercase(command),
{
    let none = Seq::<Seq<char>>::empty();
    let count = offered(suggestion_count);
    let found = gathered(history, prefix, failed, none, None);
    let all = completions(prefix, failed, history, rankings, suggestion_count);
    if 0 <= i < all.len() {
        if found.len() < count {
            lemma_gathered_from(rankings, prefix, failed, found, Some(count), i);
            if found.contains(all[i]) {
                let j = choose|j: int| 0 <= j < found.len() && found[j] == all[i];
                lemma_gathered_from(history, prefix, failed, none, None, j);
            }
        } else {
            assert(all[i] == found[i]);
            lemma_gathered_from(history, prefix, failed, none, None, i);
        }
    }
    if all.len() < count && (history.contains(command) || rankings.contains(command))
        && starts_with_text(lowercase(command), lowercase(prefix)) && command != prefix
        && !failed.contains(command) {
        assert(found.len() < count);
        lemma_gathered_prefix(rankings, prefix, failed, found, Some(count));
        if history.contains(command) {
            let k = choose|k: int| 0 <= k < history.len() && history[k] == command;
            lemma_gathered_all(history, prefix, failed, none, None, k);
            let j = choose|j: int|
                0 <= j < found.len() && lowercase(#[trigger] found[j]) == lowercase(command);
            assert(all[j] == found[j]);
        } else {
            let k = choose|k: int| 0 <= k < rankings.len() && rankings[k] == command;
            lemma_gathered_all(rankings, prefix, failed, found, Some(count), k);
            let j = choose|j: int|
                0 <= j < all.len() && lowercase(#[trigger] all[j]) == lowercase(command);
        }
    }
}

/// A command is sent exactly when something is left of it without the whitespace around it and
/// there is somewhere to send it, and then without that whitespace.
pub proof fn law_when_a_command_is_sent(input: SendInput, has_targets: bool)
    ensures
        input.sendable(has_targets) is Some <==> trimmed(input.command@).len() > 0 && has_targets,
        input.sendable(has_targets) matches Some(command) ==> command == trimmed(input.command@),
{
}

/// While suggestions are shown one of them is highlighted: the chosen one, the last one where
/// there are fewer.
pub proof fn law_highlighted_suggestion(input: SendInput)
    ensures
        input.is_open() <==> input.visible && input.suggestions@.len() > 0,
        input.is_open() ==> 0 <= input.highlighted() < input.suggestions@.len(),
        input.selected < input.suggestions@.len() ==> input.highlighted() == input.selected,
        input.selected >= input.suggestions@.len() ==> input.highlighted()
            == input.suggestions@.len() - 1,
{
}

/// Dismissed suggestions are gone and hidden, nothing is chosen, and a reply that is still on its
/// way belongs to an earlier request.
pub proof fn law_dismissed(before: SendInput, after: SendInput)
    requires
        after.dismissed(before),
    ensures
        after.suggestions@ == Seq::<String>::empty(),
        !after.visible,
        !after.is_open(),
        after.selected == 0,
        after.epoch > before.epoch,
{
}

} // verus!
