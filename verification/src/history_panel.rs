//! The history panel: which commands it lists, the rows that it shows, and its keys.

use vstd::prelude::*;

use crate::clock::{
    current_time, is_plain_point, is_point, rfc3339_point, rfc3339_time, seconds_apart,
    seconds_between,
};
use crate::number::{signed_decimal, signed_decimal_text};
use crate::search::{contains_text, holds_text, lemma_holds_last_three, lemma_holds_more};
use crate::text::{
    chars_of, flat_map, lemma_filter_none, lemma_filter_step, lemma_flat_map_push, lowercase,
};

verus! {

/// A command of the history.
#[derive(Clone, Debug, PartialEq)]
pub struct HistoryPanelEntry {
    pub command: String,
    pub cwd: Option<String>,
    pub duration_ms: Option<i64>,
    pub timestamp: Option<String>,
}

/// Whether a command fits a query, whatever the case: by itself or by the directory it ran in. An
/// empty query fits every command.
pub open spec fn entry_fits(entry: HistoryPanelEntry, query: Seq<char>) -> bool {
    query.len() == 0 || holds_text(lowercase(entry.command@), lowercase(query)) || (
    entry.cwd matches Some(cwd) && holds_text(lowercase(cwd@), lowercase(query)))
}

/// Fitting a query.
pub open spec fn fits(query: Seq<char>) -> spec_fn(HistoryPanelEntry) -> bool {
    |e: HistoryPanelEntry| entry_fits(e, query)
}

fn fits_query(entry: &HistoryPanelEntry, query: &str, folded: &str) -> (r: bool)
    requires
        folded@ == lowercase(query@),
    ensures
        r == entry_fits(*entry, query@),
{
    if query.is_empty() {
        return true;
    }
    if contains_text(entry.command.as_str().to_lowercase().as_str(), folded) {
        return true;
    }
    match &entry.cwd {
        Some(cwd) => contains_text(cwd.as_str().to_lowercase().as_str(), folded),
        None => false,
    }
}

/// The commands that fit a query, whatever the case, in their order.
pub fn filter_entries(entries: Vec<HistoryPanelEntry>, query: &str) -> (r: Vec<HistoryPanelEntry>)
    ensures
        r@ == entries@.filter(fits(query@)),
{
    let folded = query.to_lowercase();
    let ghost all = entries@;
    let ghost keep = fits(query@);
    let mut rest = entries;
    let count: usize = rest.len();
    let mut left: usize = count;
    let mut out: Vec<HistoryPanelEntry> = Vec::new();
    proof {
        lemma_filter_none(all, keep);
    }
    while left > 0
        invariant
            left <= count == all.len(),
            keep == fits(query@),
            folded@ == lowercase(query@),
            rest@ == all.skip(count - left),
            out@ == all.take(count - left).filter(keep),
        decreases left,
    {
        proof {
            lemma_filter_step(all, count - left, keep);
        }
        let entry = rest.remove(0);
        if fits_query(&entry, query, folded.as_str()) {
            out.push(entry);
        }
        left = left - 1;
    }
    proof {
        lemma_filter_none(all, keep);
    }
    out
}

/// An empty query shows every command.
pub proof fn law_empty_query_shows_all(entries: Seq<HistoryPanelEntry>)
    ensures
        entries.filter(fits(Seq::empty())) == entries,
    decreases entries.len(),
{
    reveal(Seq::filter);
    if entries.len() > 0 {
        law_empty_query_shows_all(entries.drop_last());
        assert(entries.drop_last().push(entries.last()) == entries);
    }
}

/// What is searched for and which row is highlighted.
#[derive(Clone, Debug, PartialEq)]
pub struct HistorySearch {
    pub query: String,
    pub selected: usize,
}

impl HistorySearch {
    /// The highlighted row among `count` rows: the chosen one, the last one where there are fewer.
    pub open spec fn highlighted(self, count: nat) -> nat {
        if self.selected >= count && count > 0 {
            (count - 1) as nat
        } else {
            self.selected as nat
        }
    }

    /// A new query: the highlight goes back to the first row.
    pub fn typed(&mut self, value: String)
        ensures
            final(self).query == value,
            final(self).selected == 0,
    {
        self.query = value;
        self.selected = 0;
    }

    /// The commands that fit the query. The highlight stays among them.
    pub fn shown(&mut self, entries: Vec<HistoryPanelEntry>) -> (r: Vec<HistoryPanelEntry>)
        ensures
            r@ == entries@.filter(fits(old(self).query@)),
            final(self).query == old(self).query,
            final(self).selected == old(self).highlighted(r@.len()),
    {
        let found = filter_entries(entries, self.query.as_str());
        if self.selected >= found.len() && found.len() > 0 {
            self.selected = found.len() - 1;
        }
        found
    }

    /// A key in the panel: the arrows move the highlight without going around, Enter takes the
    /// highlighted command, Escape and the opening key close the panel.
    pub fn key(&mut self, entries: &Vec<HistoryPanelEntry>, key: HistoryKey) -> (r: HistoryAction)
        ensures
            final(self).query == old(self).query,
            final(self).selected == (if key == HistoryKey::ArrowUp && old(self).selected > 0 {
                old(self).selected - 1
            } else if key == HistoryKey::ArrowDown && old(self).selected + 1 < entries@.len() {
                old(self).selected + 1
            } else {
                old(self).selected as int
            }),
            r is Close <==> key == HistoryKey::Escape || key == HistoryKey::CtrlR,
            r is Accept <==> key == HistoryKey::Enter && old(self).selected < entries@.len(),
            r matches HistoryAction::Accept(command) ==> command@
                == entries@[old(self).selected as int].command@,
    {
        match key {
            HistoryKey::ArrowUp => {
                if self.selected > 0 {
                    self.selected = self.selected - 1;
                }
                HistoryAction::Nothing
            },
            HistoryKey::ArrowDown => {
                if self.selected < entries.len() && self.selected + 1 < entries.len() {
                    self.selected = self.selected + 1;
                }
                HistoryAction::Nothing
            },
            HistoryKey::Enter => {
                if self.selected < entries.len() {
                    HistoryAction::Accept(entries[self.selected].command.clone())
                } else {
                    HistoryAction::Nothing
                }
            },
            HistoryKey::Escape => HistoryAction::Close,
            HistoryKey::CtrlR => HistoryAction::Close,
            HistoryKey::Other => HistoryAction::Nothing,
        }
    }
}

/// A key in the panel.
#[derive(Clone, Copy, PartialEq, Eq, Structural, Debug)]
pub enum HistoryKey {
    ArrowUp,
    ArrowDown,
    Enter,
    Escape,
    /// The key that opened the panel.
    CtrlR,
    Other,
}

/// What a key leads to.
#[derive(Clone, Debug, PartialEq)]
pub enum HistoryAction {
    Nothing,
    Accept(String),
    Close,
}

// ---------------------------------------------------------------------------------------------
// Times
// ---------------------------------------------------------------------------------------------

/// How long ago something was, in the largest unit that fits.
pub open spec fn ago(seconds: int) -> Seq<char> {
    let minutes = seconds / 60;
    let hours = seconds / 3600;
    let days = seconds / 86400;
    if seconds < 60 {
        "just now"@
    } else if minutes < 60 {
        signed_decimal(minutes) + "m ago"@
    } else if hours < 24 {
        signed_decimal(hours) + "h ago"@
    } else if days < 30 {
        signed_decimal(days) + "d ago"@
    } else if days < 365 {
        signed_decimal(days / 30) + "mo ago"@
    } else {
        signed_decimal(days / 365) + "y ago"@
    }
}

fn amount(n: i64, unit: &str) -> (r: String)
    ensures
        r@ == signed_decimal(n as int) + unit@,
{
    let mut out = signed_decimal_text(n);
    out.append(unit);
    out
}

/// How long ago something was, in the largest unit that fits.
pub fn relative_label(seconds: i64) -> (r: String)
    ensures
        r@ == ago(seconds as int),
{
    if seconds < 60 {
        return "just now".to_owned();
    }
    let minutes: i64 = seconds / 60;
    let hours: i64 = seconds / 3600;
    let days: i64 = seconds / 86400;
    if minutes < 60 {
        amount(minutes, "m ago")
    } else if hours < 24 {
        amount(hours, "h ago")
    } else if days < 30 {
        amount(days, "d ago")
    } else if days < 365 {
        amount(days / 30, "mo ago")
    } else {
        amount(days / 365, "y ago")
    }
}

/// The text of an optional timestamp.
pub open spec fn stamp_text(timestamp: Option<&str>) -> Option<Seq<char>> {
    match timestamp {
        Some(text) => Some(text@),
        None => None,
    }
}

/// How long before a point in time a timestamp is; a dash where there is no timestamp or it
/// cannot be read.
pub open spec fn relative_time(timestamp: Option<Seq<char>>, now: (i64, u32)) -> Seq<char> {
    match timestamp {
        None => "-"@,
        Some(text) => match rfc3339_point(text) {
            None => "-"@,
            Some(point) => match seconds_apart(point, now) {
                Some(seconds) => ago(seconds as int),
                None => "-"@,
            },
        },
    }
}

/// Whether there is a time from a timestamp, if it can be read, to a point in time.
pub open spec fn has_age(timestamp: Option<Seq<char>>, now: (i64, u32)) -> bool {
    match timestamp {
        None => true,
        Some(text) => match rfc3339_point(text) {
            None => true,
            Some(point) => seconds_apart(point, now) is Some,
        },
    }
}

/// How long before a point in time a timestamp is.
pub fn relative_time_at(timestamp: Option<&str>, now: (i64, u32)) -> (r: String)
    ensures
        r@ == relative_time(stamp_text(timestamp), now),
        is_point(now.0, now.1) ==> has_age(stamp_text(timestamp), now),
{
    match timestamp {
        None => "-".to_owned(),
        Some(text) => match rfc3339_time(text) {
            None => "-".to_owned(),
            Some(point) => match seconds_between(point.0, point.1, now.0, now.1) {
                Some(seconds) => relative_label(seconds),
                None => "-".to_owned(),
            },
        },
    }
}

/// How long ago a timestamp is.
pub fn format_relative_time(timestamp: Option<&str>) -> (r: String)
    ensures
        exists|now: (i64, u32)|
            is_plain_point(now.0, now.1) && r@ == #[trigger] relative_time(
                stamp_text(timestamp),
                now,
            ),
        timestamp matches Some(text) && rfc3339_point(text@) is Some ==> exists|seconds: i64|
            r@ == #[trigger] ago(seconds as int),
{
    let now = current_time();
    relative_time_at(timestamp, now)
}

// ---------------------------------------------------------------------------------------------
// Rows
// ---------------------------------------------------------------------------------------------

/// How a character is written in HTML.
pub open spec fn html_char(c: char) -> Seq<char> {
    if c == '&' {
        "&amp;"@
    } else if c == '<' {
        "&lt;"@
    } else if c == '>' {
        "&gt;"@
    } else if c == '"' {
        "&quot;"@
    } else if c == '\'' {
        "&#39;"@
    } else {
        seq![c]
    }
}

/// The rewriting of characters in HTML.
pub open spec fn html_chars() -> spec_fn(char) -> Seq<char> {
    |c: char| html_char(c)
}

/// A text as it is written in HTML.
pub open spec fn html_escaped(s: Seq<char>) -> Seq<char> {
    flat_map(s, html_chars())
}

/// Writes a text in HTML.
pub fn html_escape(s: &str) -> (r: String)
    ensures
        r@ == html_escaped(s@),
{
    let v = chars_of(s);
    let mut out = String::new();
    for i in 0..v.len()
        invariant
            v@ == s@,
            out@ == html_escaped(s@.take(i as int)),
    {
        let c = v[i];
        proof {
            lemma_flat_map_push(s@.take(i as int), c, html_chars());
            assert(s@.take(i as int).push(c) == s@.take(i + 1));
        }
        let ghost before = out@;
        if c == '&' {
            out.append("&amp;");
        } else if c == '<' {
            out.append("&lt;");
        } else if c == '>' {
            out.append("&gt;");
        } else if c == '"' {
            out.append("&quot;");
        } else if c == '\'' {
            out.append("&#39;");
        } else {
            out.push(c);
        }
        assert(out@ == before + html_char(c));
    }
    assert(s@.take(v@.len() as int) == s@);
    out
}

/// Whether a character is part of HTML's markup.
pub open spec fn is_markup(c: char) -> bool {
    c == '<' || c == '>' || c == '"' || c == '\''
}

proof fn lemma_html_char(c: char, i: int)
    requires
        0 <= i < html_char(c).len(),
    ensures
        !is_markup(html_char(c)[i]),
{
    reveal_strlit("&amp;");
    reveal_strlit("&lt;");
    reveal_strlit("&gt;");
    reveal_strlit("&quot;");
    reveal_strlit("&#39;");
}

/// Whatever a text holds, nothing of it is markup once it is written in HTML.
pub proof fn law_html_holds_no_markup(s: Seq<char>, i: int)
    requires
        0 <= i < html_escaped(s).len(),
    ensures
        !is_markup(html_escaped(s)[i]),
    decreases s.len(),
{
    let before = html_escaped(s.drop_last());
    assert(html_escaped(s) == before + html_char(s.last()));
    if i < before.len() {
        law_html_holds_no_markup(s.drop_last(), i);
    } else {
        lemma_html_char(s.last(), i - before.len());
    }
}

/// How long a command ran: the text and its colour.
pub open spec fn duration_shown(duration_ms: Option<i64>) -> (Seq<char>, Seq<char>) {
    match duration_ms {
        None => ("-"@, "#565f89"@),
        Some(ms) => if ms < 1000 {
            (signed_decimal(ms as int) + "ms"@, "#9ece6a"@)
        } else if ms < 10000 {
            (signed_decimal(ms as int / 1000) + "s"@, "#e0af68"@)
        } else {
            (signed_decimal(ms as int / 1000) + "s"@, "#f7768e"@)
        },
    }
}

/// How long a command ran: the text and its colour.
pub fn duration_label(duration_ms: Option<i64>) -> (r: (String, &'static str))
    ensures
        (r.0@, r.1@) == duration_shown(duration_ms),
{
    match duration_ms {
        None => ("-".to_owned(), "#565f89"),
        Some(ms) => {
            if ms < 1000 {
                (amount(ms, "ms"), "#9ece6a")
            } else if ms < 10000 {
                (amount(ms / 1000, "s"), "#e0af68")
            } else {
                (amount(ms / 1000, "s"), "#f7768e")
            }
        },
    }
}

/// Opens a row: what stands before its border.
pub const ROW_OPEN: &'static str =
    "<div style=\"display:flex;align-items:center;gap:12px;padding:4px 12px;";

/// The border of the highlighted row.
pub const ROW_BORDER_ON: &'static str = "border-left:2px solid #7aa2f7;";

/// The border of any other row.
pub const ROW_BORDER_OFF: &'static str = "border-left:2px solid transparent;";

/// What stands before the row's background.
pub const ROW_BACKGROUND: &'static str = "background:";

/// What stands before the colour of the duration.
pub const ROW_DURATION: &'static str = ";cursor:pointer;\"><span style=\"color:";

/// What stands before the duration.
pub const ROW_DURATION_TEXT: &'static str =
    ";min-width:60px;text-align:right;font-size:12px;\">";

/// What stands before the time.
pub const ROW_TIME: &'static str =
    "</span><span style=\"color:#7aa2f7;min-width:70px;font-size:12px;\">";

/// What stands before the command.
pub const ROW_COMMAND: &'static str =
    "</span><span style=\"color:#c0caf5;flex:1;overflow:hidden;text-overflow:ellipsis;white-space:pre;\">";

/// What stands before the directory.
pub const ROW_CWD: &'static str =
    "</span><span style=\"color:#565f89;font-size:11px;max-width:200px;overflow:hidden;text-overflow:ellipsis;white-space:pre;\">";

/// Closes a row.
pub const ROW_CLOSE: &'static str = "</span></div>";

/// A row of the panel.
pub open spec fn row(entry: HistoryPanelEntry, selected: bool, time: Seq<char>) -> Seq<char> {
    let duration = duration_shown(entry.duration_ms);
    ROW_OPEN@ + (if selected {
        ROW_BORDER_ON@
    } else {
        ROW_BORDER_OFF@
    }) + ROW_BACKGROUND@ + (if selected {
        "#283457"@
    } else {
        "transparent"@
    }) + ROW_DURATION@ + duration.1 + ROW_DURATION_TEXT@ + duration.0 + ROW_TIME@ + time
        + ROW_COMMAND@ + html_escaped(entry.command@) + ROW_CWD@ + html_escaped(
        match entry.cwd {
            Some(cwd) => cwd@,
            None => Seq::empty(),
        },
    ) + ROW_CLOSE@
}

/// A row of the panel. The command and the directory are escaped; the time is shown as it is.
pub fn row_html(entry: &HistoryPanelEntry, selected: bool, time: &str) -> (r: String)
    ensures
        r@ == row(*entry, selected, time@),
{
    let duration = duration_label(entry.duration_ms);
    let mut out = String::from_str(ROW_OPEN);
    if selected {
        out.append(ROW_BORDER_ON);
    } else {
        out.append(ROW_BORDER_OFF);
    }
    out.append(ROW_BACKGROUND);
    if selected {
        out.append("#283457");
    } else {
        out.append("transparent");
    }
    out.append(ROW_DURATION);
    out.append(duration.1);
    out.append(ROW_DURATION_TEXT);
    out.append(duration.0.as_str());
    out.append(ROW_TIME);
    out.append(time);
    out.append(ROW_COMMAND);
    out.append(html_escape(entry.command.as_str()).as_str());
    out.append(ROW_CWD);
    let cwd: String = match &entry.cwd {
        Some(cwd) => cwd.clone(),
        None => String::new(),
    };
    assert(cwd@ == match entry.cwd {
        Some(cwd) => cwd@,
        None => Seq::empty(),
    });
    out.append(html_escape(cwd.as_str()).as_str());
    out.append(ROW_CLOSE);
    out
}

/// The rows of a list at a point in time.
pub open spec fn rows(
    entries: Seq<HistoryPanelEntry>,
    selected: int,
    now: (i64, u32),
) -> Seq<char>
    decreases entries.len(),
{
    if entries.len() == 0 {
        Seq::empty()
    } else {
        let last = entries.last();
        rows(entries.drop_last(), selected, now) + row(
            last,
            selected == entries.len() - 1,
            relative_time(crate::text::opt_text(last.timestamp), now),
        )
    }
}

/// Whether there is a time from each timestamp that can be read to a point in time.
pub open spec fn have_ages(entries: Seq<HistoryPanelEntry>, now: (i64, u32)) -> bool {
    forall|i: int|
        0 <= i < entries.len() ==> has_age(
            crate::text::opt_text((#[trigger] entries[i]).timestamp),
            now,
        )
}

/// The rows of a list at a point in time, one after the other.
pub fn rows_html(entries: &Vec<HistoryPanelEntry>, selected: usize, now: (i64, u32)) -> (r: String)
    ensures
        r@ == rows(entries@, selected as int, now),
        is_point(now.0, now.1) ==> have_ages(entries@, now),
{
    let mut out = String::new();
    for i in 0..entries.len()
        invariant
            out@ == rows(entries@.take(i as int), selected as int, now),
            is_point(now.0, now.1) ==> have_ages(entries@.take(i as int), now),
    {
        let entry = &entries[i];
        let time: String = match &entry.timestamp {
            Some(text) => relative_time_at(Some(text.as_str()), now),
            None => relative_time_at(None, now),
        };
        out.append(row_html(entry, i == selected, time.as_str()).as_str());
        assert(entries@.take(i + 1).drop_last() == entries@.take(i as int));
        assert(entries@.take(i + 1).last() == *entry);
    }
    assert(entries@.take(entries@.len() as int) == entries@);
    out
}

/// The rows of a list now.
pub fn rows_now(entries: &Vec<HistoryPanelEntry>, selected: usize) -> (r: String)
    ensures
        exists|now: (i64, u32)|
            is_plain_point(now.0, now.1) && have_ages(entries@, now) && r@ == #[trigger] rows(
                entries@,
                selected as int,
                now,
            ),
{
    let now = current_time();
    rows_html(entries, selected, now)
}

/// A command is listed exactly when it or its directory holds the query, whatever the case of
/// their letters, and as often as it is in the history.
pub proof fn law_commands_that_hold_the_query(
    entries: Seq<HistoryPanelEntry>,
    query: Seq<char>,
    entry: HistoryPanelEntry,
)
    requires
        query.len() > 0,
    ensures
        holds_text(lowercase(entry.command@), lowercase(query)) || (entry.cwd is Some && holds_text(
            lowercase((entry.cwd->0)@),
            lowercase(query),
        )) ==> entries.filter(fits(query)).to_multiset().count(entry) == entries.to_multiset().count(
            entry,
        ),
        !holds_text(lowercase(entry.command@), lowercase(query)) && (entry.cwd is None
            || !holds_text(lowercase((entry.cwd->0)@), lowercase(query))) ==> entries.filter(
            fits(query),
        ).to_multiset().count(entry) == 0,
{
    crate::text::lemma_filter_count(entries, fits(query), entry);
}

/// An age is told in the largest unit of which it holds at least one, in whole ones: minutes from
/// one minute on, hours from sixty minutes, days from twenty-four hours, months of thirty days,
/// and years from 365 days on.
pub proof fn law_age_is_told_in_whole_units(seconds: int, n: int)
    ensures
        seconds < 60 ==> ago(seconds) == "just now"@,
        1 <= n < 60 && 60 * n <= seconds < 60 * (n + 1) ==> ago(seconds) == signed_decimal(n)
            + "m ago"@,
        1 <= n < 24 && 3600 * n <= seconds < 3600 * (n + 1) ==> ago(seconds) == signed_decimal(n)
            + "h ago"@,
        1 <= n < 30 && 86400 * n <= seconds < 86400 * (n + 1) ==> ago(seconds) == signed_decimal(n)
            + "d ago"@,
        1 <= n && 2592000 * n <= seconds < 2592000 * (n + 1) && seconds < 31536000 ==> ago(
            seconds,
        ) == signed_decimal(n) + "mo ago"@,
        1 <= n && 31536000 * n <= seconds < 31536000 * (n + 1) ==> ago(seconds)
            == signed_decimal(n) + "y ago"@,
{
    let days = seconds / 86400;
    if 1 <= n && 2592000 * n <= seconds < 2592000 * (n + 1) && seconds < 31536000 {
        assert(30 * n <= days < 30 * (n + 1));
        assert(days / 30 == n);
    }
    if 1 <= n && 31536000 * n <= seconds < 31536000 * (n + 1) {
        assert(365 * n <= days < 365 * (n + 1));
        assert(days / 365 == n);
    }
}

/// The five characters of markup are written by their names, every other one as it is, and a text
/// is written character by character.
pub proof fn law_html_is_written_by_character(a: Seq<char>, b: Seq<char>, c: char)
    ensures
        html_escaped(a + b) == html_escaped(a) + html_escaped(b),
        html_escaped(Seq::empty()) == Seq::<char>::empty(),
        html_escaped(seq!['&']) == "&amp;"@,
        html_escaped(seq!['<']) == "&lt;"@,
        html_escaped(seq!['>']) == "&gt;"@,
        html_escaped(seq!['"']) == "&quot;"@,
        html_escaped(seq!['\'']) == "&#39;"@,
        c != '&' && c != '<' && c != '>' && c != '"' && c != '\'' ==> html_escaped(seq![c])
            == seq![c],
{
    crate::text::lemma_flat_map_concat(a, b, html_chars());
    lemma_html_one('&');
    lemma_html_one('<');
    lemma_html_one('>');
    lemma_html_one('"');
    lemma_html_one('\'');
    lemma_html_one(c);
}

proof fn lemma_html_one(c: char)
    ensures
        html_escaped(seq![c]) == html_char(c),
{
    let none = Seq::<char>::empty();
    lemma_flat_map_push(none, c, html_chars());
    assert(none.push(c) == seq![c]);
    assert(flat_map(none, html_chars()) == none);
    assert(none + html_char(c) == html_char(c));
}

/// A duration below a second is told in milliseconds, a longer one in whole seconds; it is green,
/// yellow from one second and red from ten seconds on, and grey where none is known.
pub proof fn law_duration_shown(ms: i64)
    ensures
        duration_shown(None) == ("-"@, "#565f89"@),
        ms < 1000 ==> duration_shown(Some(ms)) == (signed_decimal(ms as int) + "ms"@, "#9ece6a"@),
        ms >= 1000 ==> duration_shown(Some(ms)).0 == signed_decimal(ms as int / 1000) + "s"@,
        1000 <= ms < 10000 ==> duration_shown(Some(ms)).1 == "#e0af68"@,
        ms >= 10000 ==> duration_shown(Some(ms)).1 == "#f7768e"@,
{
}

/// The highlight is the chosen row as long as there is one, and the last row where there are
/// fewer.
pub proof fn law_highlight_is_a_row(search: HistorySearch, count: nat)
    ensures
        count > 0 ==> search.highlighted(count) < count,
        search.selected < count ==> search.highlighted(count) == search.selected,
        0 < count <= search.selected ==> search.highlighted(count) == count - 1,
{
}

/// The rows stand one behind the other as the commands do, each with its own time, and only the
/// selected one is shown as selected.
pub proof fn law_rows_in_order(
    entries: Seq<HistoryPanelEntry>,
    entry: HistoryPanelEntry,
    selected: int,
    now: (i64, u32),
)
    ensures
        rows(Seq::empty(), selected, now) == Seq::<char>::empty(),
        rows(entries.push(entry), selected, now) == rows(entries, selected, now) + row(
            entry,
            selected == entries.len(),
            relative_time(crate::text::opt_text(entry.timestamp), now),
        ),
{
    assert(entries.push(entry).drop_last() == entries);
}

/// A row shows the duration in its colour, the time, the command and its directory, each in a
/// column of its own and in this order, and marks the selected one by its border and background.
pub proof fn law_row_columns(entry: HistoryPanelEntry, selected: bool, time: Seq<char>)
    ensures
        holds_text(
            row(entry, selected, time),
            "<div style=\"display:flex;align-items:center;gap:12px;padding:4px 12px;"@ + (
            if selected {
                "border-left:2px solid #7aa2f7;"@
            } else {
                "border-left:2px solid transparent;"@
            }) + "background:"@,
        ),
        holds_text(
            row(entry, selected, time),
            "background:"@ + (if selected {
                "#283457"@
            } else {
                "transparent"@
            }) + ";cursor:pointer;\"><span style=\"color:"@,
        ),
        holds_text(
            row(entry, selected, time),
            ";cursor:pointer;\"><span style=\"color:"@ + duration_shown(entry.duration_ms).1
                + ";min-width:60px;text-align:right;font-size:12px;\">"@,
        ),
        holds_text(
            row(entry, selected, time),
            ";min-width:60px;text-align:right;font-size:12px;\">"@ + duration_shown(
                entry.duration_ms,
            ).0 + "</span><span style=\"color:#7aa2f7;min-width:70px;font-size:12px;\">"@,
        ),
        holds_text(
            row(entry, selected, time),
            "</span><span style=\"color:#7aa2f7;min-width:70px;font-size:12px;\">"@ + time
                + "</span><span style=\"color:#c0caf5;flex:1;overflow:hidden;text-overflow:ellipsis;white-space:pre;\">"@,
        ),
        holds_text(
            row(entry, selected, time),
            "</span><span style=\"color:#c0caf5;flex:1;overflow:hidden;text-overflow:ellipsis;white-space:pre;\">"@
                + html_escaped(entry.command@)
                + "</span><span style=\"color:#565f89;font-size:11px;max-width:200px;overflow:hidden;text-overflow:ellipsis;white-space:pre;\">"@,
        ),
        holds_text(
            row(entry, selected, time),
            "</span><span style=\"color:#565f89;font-size:11px;max-width:200px;overflow:hidden;text-overflow:ellipsis;white-space:pre;\">"@
                + html_escaped(
                if entry.cwd is Some {
                    (entry.cwd->0)@
                } else {
                    Seq::empty()
                },
            ) + "</span></div>"@,
        ),
{
    let border = if selected {
        ROW_BORDER_ON@
    } else {
        ROW_BORDER_OFF@
    };
    let background = if selected {
        "#283457"@
    } else {
        "transparent"@
    };
    let duration = duration_shown(entry.duration_ms);
    let command = html_escaped(entry.command@);
    let cwd = html_escaped(
        match entry.cwd {
            Some(cwd) => cwd@,
            None => Seq::empty(),
        },
    );
    let none = Seq::<char>::empty();
    let s0 = ROW_OPEN@;
    let s1 = s0 + border;
    let s2 = s1 + ROW_BACKGROUND@;
    let s3 = s2 + background;
    let s4 = s3 + ROW_DURATION@;
    let s5 = s4 + duration.1;
    let s6 = s5 + ROW_DURATION_TEXT@;
    let s7 = s6 + duration.0;
    let s8 = s7 + ROW_TIME@;
    let s9 = s8 + time;
    let s10 = s9 + ROW_COMMAND@;
    let s11 = s10 + command;
    let s12 = s11 + ROW_CWD@;
    let s13 = s12 + cwd;
    let s14 = s13 + ROW_CLOSE@;
    assert(row(entry, selected, time) == s14);
    assert(none + ROW_OPEN@ == ROW_OPEN@);
    let p1 = ROW_OPEN@ + border + ROW_BACKGROUND@;
    lemma_holds_last_three(none, ROW_OPEN@, border, ROW_BACKGROUND@);
    let p2 = ROW_BACKGROUND@ + background + ROW_DURATION@;
    lemma_holds_last_three(s1, ROW_BACKGROUND@, background, ROW_DURATION@);
    let p3 = ROW_DURATION@ + duration.1 + ROW_DURATION_TEXT@;
    lemma_holds_last_three(s3, ROW_DURATION@, duration.1, ROW_DURATION_TEXT@);
    let p4 = ROW_DURATION_TEXT@ + duration.0 + ROW_TIME@;
    lemma_holds_last_three(s5, ROW_DURATION_TEXT@, duration.0, ROW_TIME@);
    let p5 = ROW_TIME@ + time + ROW_COMMAND@;
    lemma_holds_last_three(s7, ROW_TIME@, time, ROW_COMMAND@);
    let p6 = ROW_COMMAND@ + command + ROW_CWD@;
    lemma_holds_last_three(s9, ROW_COMMAND@, command, ROW_CWD@);
    lemma_holds_last_three(s11, ROW_CWD@, cwd, ROW_CLOSE@);
    lemma_holds_two_more(s2, background, ROW_DURATION@, p1);
    lemma_holds_two_more(s4, duration.1, ROW_DURATION_TEXT@, p1);
    lemma_holds_two_more(s4, duration.1, ROW_DURATION_TEXT@, p2);
    lemma_holds_two_more(s6, duration.0, ROW_TIME@, p1);
    lemma_holds_two_more(s6, duration.0, ROW_TIME@, p2);
    lemma_holds_two_more(s6, duration.0, ROW_TIME@, p3);
    lemma_holds_two_more(s8, time, ROW_COMMAND@, p1);
    lemma_holds_two_more(s8, time, ROW_COMMAND@, p2);
    lemma_holds_two_more(s8, time, ROW_COMMAND@, p3);
    lemma_holds_two_more(s8, time, ROW_COMMAND@, p4);
    lemma_holds_two_more(s10, command, ROW_CWD@, p1);
    lemma_holds_two_more(s10, command, ROW_CWD@, p2);
    lemma_holds_two_more(s10, command, ROW_CWD@, p3);
    lemma_holds_two_more(s10, command, ROW_CWD@, p4);
    lemma_holds_two_more(s10, command, ROW_CWD@, p5);
    lemma_holds_two_more(s12, cwd, ROW_CLOSE@, p1);
    lemma_holds_two_more(s12, cwd, ROW_CLOSE@, p2);
    lemma_holds_two_more(s12, cwd, ROW_CLOSE@, p3);
    lemma_holds_two_more(s12, cwd, ROW_CLOSE@, p4);
    lemma_holds_two_more(s12, cwd, ROW_CLOSE@, p5);
    lemma_holds_two_more(s12, cwd, ROW_CLOSE@, p6);
}

proof fn lemma_holds_two_more(s: Seq<char>, a: Seq<char>, b: Seq<char>, pattern: Seq<char>)
    requires
        holds_text(s, pattern),
    ensures
        holds_text(s + a + b, pattern),
{
    lemma_holds_more(s, a, pattern);
    lemma_holds_more(s + a, b, pattern);
}

/// The time of a command that cannot be read is told as unknown.
pub proof fn law_unknown_times(timestamp: Seq<char>, now: (i64, u32), point: (i64, u32))
    ensures
        relative_time(None, now) == "-"@,
        rfc3339_point(timestamp) is None ==> relative_time(Some(timestamp), now) == "-"@,
        rfc3339_point(timestamp) == Some(point) && seconds_apart(point, now) is Some
            ==> relative_time(Some(timestamp), now) == ago(seconds_apart(point, now)->0 as int),
{
}

} // verus!
