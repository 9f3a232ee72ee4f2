//! Quoting for a POSIX shell.

use vstd::prelude::*;

use crate::text::{chars_of, flat_map, lemma_flat_map_concat, lemma_flat_map_push};

verus! {

/// How a character is written inside single quotes: an apostrophe closes the quotes, stands in
/// double quotes and opens single quotes again.
pub open spec fn shell_char(c: char) -> Seq<char> {
    if c == '\'' {
        seq!['\'', '"', '\'', '"', '\'']
    } else {
        seq![c]
    }
}

/// The rewriting of characters inside single quotes.
pub open spec fn shell_chars() -> spec_fn(char) -> Seq<char> {
    |c: char| shell_char(c)
}

/// A text as it is written inside single quotes.
pub open spec fn shell_escaped(s: Seq<char>) -> Seq<char> {
    flat_map(s, shell_chars())
}

/// A text as one shell word.
pub open spec fn shell_quoted(s: Seq<char>) -> Seq<char> {
    seq!['\''] + shell_escaped(s) + seq!['\'']
}

/// Writes a text for use inside single quotes.
pub fn shell_escape(value: &str) -> (r: String)
    ensures
        r@ == shell_escaped(value@),
{
    let v = chars_of(value);
    let mut out = String::new();
    for i in 0..v.len()
        invariant
            v@ == value@,
            out@ == shell_escaped(value@.take(i as int)),
    {
        let c = v[i];
        proof {
            lemma_flat_map_push(value@.take(i as int), c, shell_chars());
            assert(value@.take(i as int).push(c) == value@.take(i + 1));
        }
        let ghost before = out@;
        if c == '\'' {
            out.push('\'');
            out.push('"');
            out.push('\'');
            out.push('"');
            out.push('\'');
        } else {
            out.push(c);
        }
        assert(out@ == before + shell_char(c));
    }
    assert(value@.take(v@.len() as int) == value@);
    out
}

/// Writes a text as one shell word.
pub fn shell_quote(value: &str) -> (r: String)
    ensures
        r@ == shell_quoted(value@),
{
    let mut out = String::new();
    out.push('\'');
    out.append(shell_escape(value).as_str());
    out.push('\'');
    assert(out@ == shell_quoted(value@));
    out
}

/// Escaping the parts of a text one by one is escaping the whole text.
pub proof fn law_shell_escape_concat(a: Seq<char>, b: Seq<char>)
    ensures
        shell_escaped(a + b) == shell_escaped(a) + shell_escaped(b),
{
    lemma_flat_map_concat(a, b, shell_chars());
}

// ---------------------------------------------------------------------------------------------
// What a shell reads
// ---------------------------------------------------------------------------------------------

/// Where a shell stands in a word.
pub enum ShellMode {
    Bare,
    Single,
    Double,
    Bad,
}

/// Whether a character means something to a shell outside quotes: it ends a word or a command, or
/// has the shell expand the word. The equals sign and the percent sign, which do so only in the
/// name of a command or of a job, are left out, for what is read here are arguments.
pub open spec fn is_special(c: char) -> bool {
    c == '\t' || c == '\n' || c == '|' || c == '&' || c == ';' || c == '<' || c == '>' || c == '('
        || c == ')' || c == '$' || c == '`' || c == '\\' || c == '*' || c == '?' || c == '[' || c
        == ']' || c == '#' || c == '~' || c == '{' || c == '}' || c == '!' || c == '^'
}

/// A shell that reads arguments: where it stands, the arguments it has read, what the one under
/// way holds so far, and whether one is under way.
pub struct ShellReader {
    pub mode: ShellMode,
    pub words: Seq<Seq<char>>,
    pub word: Seq<char>,
    pub begun: bool,
}

impl ShellReader {
    /// The shell after one more character. Spaces outside quotes end an argument. No other
    /// character is taken that is special outside quotes, and none that stays special in double
    /// quotes.
    pub open spec fn step(self, c: char) -> ShellReader {
        match self.mode {
            ShellMode::Bare => if c == '\'' {
                ShellReader { mode: ShellMode::Single, begun: true, ..self }
            } else if c == '"' {
                ShellReader { mode: ShellMode::Double, begun: true, ..self }
            } else if c == ' ' {
                if self.begun {
                    ShellReader {
                        words: self.words.push(self.word),
                        word: Seq::empty(),
                        begun: false,
                        ..self
                    }
                } else {
                    self
                }
            } else if is_special(c) {
                ShellReader { mode: ShellMode::Bad, ..self }
            } else {
                ShellReader { word: self.word.push(c), begun: true, ..self }
            },
            ShellMode::Single => if c == '\'' {
                ShellReader { mode: ShellMode::Bare, ..self }
            } else {
                ShellReader { word: self.word.push(c), ..self }
            },
            ShellMode::Double => if c == '"' {
                ShellReader { mode: ShellMode::Bare, ..self }
            } else if c == '$' || c == '`' || c == '\\' {
                ShellReader { mode: ShellMode::Bad, ..self }
            } else {
                ShellReader { word: self.word.push(c), ..self }
            },
            ShellMode::Bad => self,
        }
    }
}

/// A shell that has read `s` from the start of its arguments.
pub open spec fn shell_read(s: Seq<char>) -> ShellReader
    decreases s.len(),
{
    if s.len() == 0 {
        ShellReader {
            mode: ShellMode::Bare,
            words: Seq::empty(),
            word: Seq::empty(),
            begun: false,
        }
    } else {
        shell_read(s.drop_last()).step(s.last())
    }
}

/// The arguments that a shell reads from `s`; none where `s` holds what is not taken here or ends
/// inside quotes.
pub open spec fn shell_arguments(s: Seq<char>) -> Option<Seq<Seq<char>>> {
    let reader = shell_read(s);
    if !(reader.mode is Bare) {
        None
    } else if reader.begun {
        Some(reader.words.push(reader.word))
    } else {
        Some(reader.words)
    }
}

pub proof fn lemma_shell_read_push(s: Seq<char>, c: char)
    ensures
        shell_read(s.push(c)) == shell_read(s).step(c),
{
    assert(s.push(c).drop_last() == s);
}

/// After an opening quote and an escaped text the shell is inside single quotes, and the argument
/// under way holds the text too.
proof fn lemma_shell_reads_escaped(s: Seq<char>, t: Seq<char>)
    requires
        shell_read(s).mode is Bare,
    ensures
        shell_read(s + (seq!['\''] + shell_escaped(t))) == (ShellReader {
            mode: ShellMode::Single,
            words: shell_read(s).words,
            word: shell_read(s).word + t,
            begun: true,
        }),
    decreases t.len(),
{
    let open = s.push('\'');
    if t.len() == 0 {
        assert(t == Seq::<char>::empty());
        assert(s + (seq!['\''] + shell_escaped(t)) == open);
        lemma_shell_read_push(s, '\'');
        assert(shell_read(s).word + t == shell_read(s).word);
    } else {
        lemma_shell_reads_escaped(s, t.drop_last());
        let before = s + (seq!['\''] + shell_escaped(t.drop_last()));
        let c = t.last();
        let word = shell_read(s).word + t.drop_last();
        assert(shell_read(s).word + t == word.push(c));
        assert(shell_escaped(t) == shell_escaped(t.drop_last()) + shell_char(c));
        if c == '\'' {
            let b1 = before.push('\'');
            let b2 = b1.push('"');
            let b3 = b2.push('\'');
            let b4 = b3.push('"');
            assert(s + (seq!['\''] + shell_escaped(t)) == b4.push('\''));
            lemma_shell_read_push(before, '\'');
            lemma_shell_read_push(b1, '"');
            lemma_shell_read_push(b2, '\'');
            lemma_shell_read_push(b3, '"');
            lemma_shell_read_push(b4, '\'');
        } else {
            assert(s + (seq!['\''] + shell_escaped(t)) == before.push(c));
            lemma_shell_read_push(before, c);
        }
    }
}

/// A quoted text adds the text to the argument under way.
pub proof fn lemma_shell_reads_quoted(s: Seq<char>, t: Seq<char>)
    requires
        shell_read(s).mode is Bare,
    ensures
        shell_read(s + shell_quoted(t)) == (ShellReader {
            mode: ShellMode::Bare,
            words: shell_read(s).words,
            word: shell_read(s).word + t,
            begun: true,
        }),
{
    lemma_shell_reads_escaped(s, t);
    let inner = s + (seq!['\''] + shell_escaped(t));
    assert(s + shell_quoted(t) == inner.push('\''));
    lemma_shell_read_push(inner, '\'');
}

/// Whether a character stands for itself outside quotes.
pub open spec fn is_bare(c: char) -> bool {
    c != ' ' && c != '\'' && c != '"' && !is_special(c)
}

/// Characters that stand for themselves make an argument.
pub proof fn lemma_shell_reads_bare(s: Seq<char>)
    requires
        forall|i: int| 0 <= i < s.len() ==> is_bare(#[trigger] s[i]),
    ensures
        shell_read(s) == (ShellReader {
            mode: ShellMode::Bare,
            words: Seq::empty(),
            word: s,
            begun: s.len() > 0,
        }),
    decreases s.len(),
{
    if s.len() > 0 {
        assert forall|i: int| 0 <= i < s.drop_last().len() implies is_bare(
            #[trigger] s.drop_last()[i],
        ) by {
            assert(is_bare(s[i]));
        }
        lemma_shell_reads_bare(s.drop_last());
        assert(is_bare(s[s.len() - 1]));
        assert(s.drop_last().push(s.last()) == s);
    } else {
        assert(s == Seq::<char>::empty());
    }
}

/// A name, an equals sign and a quoted value are one argument that gives the name exactly that
/// value.
pub proof fn law_quoted_value_is_assigned(name: Seq<char>, value: Seq<char>)
    requires
        forall|i: int| 0 <= i < name.len() ==> is_bare(#[trigger] name[i]),
    ensures
        shell_arguments(name + "="@ + shell_quoted(value)) == Some(seq![name + "="@ + value]),
{
    reveal_strlit("=");
    let lead = name + "="@;
    assert forall|i: int| 0 <= i < lead.len() implies is_bare(#[trigger] lead[i]) by {
        if i < name.len() {
            assert(is_bare(name[i]));
        }
    }
    lemma_shell_reads_bare(lead);
    lemma_shell_reads_quoted(lead, value);
    assert(Seq::<Seq<char>>::empty().push(lead + value) == seq![lead + value]);
}

/// Two quoted texts with a space between them are two arguments that hold exactly the texts.
pub proof fn law_two_quoted_arguments(first: Seq<char>, second: Seq<char>)
    ensures
        shell_arguments(shell_quoted(first) + " "@ + shell_quoted(second)) == Some(
            seq![first, second],
        ),
{
    reveal_strlit(" ");
    let none = Seq::<char>::empty();
    lemma_shell_reads_quoted(none, first);
    assert(none + shell_quoted(first) == shell_quoted(first));
    assert(none + first == first);
    let lead = shell_quoted(first) + " "@;
    assert(lead == shell_quoted(first).push(' '));
    lemma_shell_read_push(shell_quoted(first), ' ');
    lemma_shell_reads_quoted(lead, second);
    assert(none + second == second);
    assert(Seq::<Seq<char>>::empty().push(first).push(second) == seq![first, second]);
}

/// A shell reads a quoted text as one argument that holds exactly the text.
pub proof fn law_shell_quote_reads_back(s: Seq<char>)
    ensures
        shell_arguments(shell_quoted(s)) == Some(seq![s]),
{
    let none = Seq::<char>::empty();
    lemma_shell_reads_quoted(none, s);
    assert(none + shell_quoted(s) == shell_quoted(s));
    assert(none + s == s);
    assert(Seq::<Seq<char>>::empty().push(s) == seq![s]);
}

} // verus!
