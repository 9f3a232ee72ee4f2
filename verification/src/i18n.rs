//! The message catalog: texts by key in each interface language.

use vstd::prelude::*;

use crate::search::replace_text;
use crate::text::same;

verus! {

/// An interface language.
#[derive(Clone, Copy, PartialEq, Eq, Structural, Debug)]
pub enum Language {
    Zh,
    En,
}

/// One message in every language.
#[derive(Clone, Debug, PartialEq)]
pub struct Message {
    pub key: String,
    pub zh: String,
    pub en: String,
}

/// All messages. The first one of a key counts.
#[derive(Clone, Debug, PartialEq)]
pub struct Catalog {
    pub messages: Vec<Message>,
}

impl Message {
    /// The message in one language.
    pub open spec fn in_language(&self, language: Language) -> Seq<char> {
        match language {
            Language::Zh => self.zh@,
            Language::En => self.en@,
        }
    }
}

/// The text of `key`: that of the first message of this key, the key itself where there is none.
pub open spec fn message_text(messages: Seq<Message>, language: Language, key: Seq<char>) -> Seq<
    char,
>
    decreases messages.len(),
{
    if messages.len() == 0 {
        key
    } else if messages[0].key@ == key {
        messages[0].in_language(language)
    } else {
        message_text(messages.drop_first(), language, key)
    }
}

/// The placeholder of an argument: its name in braces.
pub open spec fn placeholder(name: Seq<char>) -> Seq<char> {
    seq!['{'] + name + seq!['}']
}

impl Catalog {
    /// The text of `key` in `language`.
    pub open spec fn text(&self, language: Language, key: Seq<char>) -> Seq<char> {
        message_text(self.messages@, language, key)
    }

    /// The text of `key` in `language`, with the placeholder of `name` replaced by `value`.
    pub open spec fn text_with(
        &self,
        language: Language,
        key: Seq<char>,
        name: Seq<char>,
        value: Seq<char>,
    ) -> Seq<char> {
        crate::search::replaced(self.text(language, key), placeholder(name), value)
    }

    /// Looks a message up.
    pub fn t_for(&self, language: Language, key: &str) -> (r: String)
        ensures
            r@ == self.text(language, key@),
    {
        let mut i: usize = 0;
        assert(self.messages@.skip(0) == self.messages@);
        while i < self.messages.len()
            invariant
                i <= self.messages@.len(),
                message_text(self.messages@.skip(i as int), language, key@) == self.text(
                    language,
                    key@,
                ),
            decreases self.messages@.len() - i,
        {
            if same(self.messages[i].key.as_str(), key) {
                return match language {
                    Language::Zh => self.messages[i].zh.clone(),
                    Language::En => self.messages[i].en.clone(),
                };
            }
            assert(self.messages@.skip(i as int).drop_first() == self.messages@.skip(i + 1));
            i = i + 1;
        }
        key.to_owned()
    }

    /// Looks a message up and fills in one argument.
    pub fn tf_for(&self, language: Language, key: &str, name: &str, value: &str) -> (r: String)
        ensures
            r@ == self.text_with(language, key@, name@, value@),
    {
        let text = self.t_for(language, key);
        fill(text.as_str(), name, value)
    }
}

/// A text with the placeholder of `name` replaced by `value`.
pub fn fill(text: &str, name: &str, value: &str) -> (r: String)
    ensures
        r@ == crate::search::replaced(text@, placeholder(name@), value@),
{
    let mut pattern = String::new();
    pattern.push('{');
    pattern.append(name);
    pattern.push('}');
    assert(pattern@ == placeholder(name@));
    replace_text(text, pattern.as_str(), value)
}

/// A key has the text of its first message, in the language asked for; a key without a message is
/// its own text.
pub proof fn law_message(catalog: &Catalog, i: int, key: Seq<char>)
    ensures
        0 <= i < catalog.messages@.len() && catalog.messages@[i].key@ == key && (forall|j: int|
            0 <= j < i ==> (#[trigger] catalog.messages@[j]).key@ != key) ==> catalog.text(
            Language::Zh,
            key,
        ) == catalog.messages@[i].zh@ && catalog.text(Language::En, key)
            == catalog.messages@[i].en@,
        (forall|j: int|
            0 <= j < catalog.messages@.len() ==> (#[trigger] catalog.messages@[j]).key@ != key)
            ==> catalog.text(Language::Zh, key) == key && catalog.text(Language::En, key) == key,
{
    lemma_message(catalog.messages@, i, key);
}

proof fn lemma_message(messages: Seq<Message>, i: int, key: Seq<char>)
    ensures
        0 <= i < messages.len() && messages[i].key@ == key && (forall|j: int|
            0 <= j < i ==> (#[trigger] messages[j]).key@ != key) ==> message_text(
            messages,
            Language::Zh,
            key,
        ) == messages[i].zh@ && message_text(messages, Language::En, key) == messages[i].en@,
        (forall|j: int| 0 <= j < messages.len() ==> (#[trigger] messages[j]).key@ != key)
            ==> message_text(messages, Language::Zh, key) == key && message_text(
            messages,
            Language::En,
            key,
        ) == key,
    decreases messages.len(),
{
    if messages.len() > 0 {
        let rest = messages.drop_first();
        lemma_message(rest, i - 1, key);
        assert forall|j: int| 0 <= j < rest.len() implies #[trigger] rest[j] == messages[j + 1] by {}
        if 0 < i < messages.len() && (forall|j: int|
            0 <= j < i ==> (#[trigger] messages[j]).key@ != key) {
            assert(messages[0].key@ != key);
            assert forall|j: int| 0 <= j < i - 1 implies (#[trigger] rest[j]).key@ != key by {
                assert(messages[j + 1].key@ != key);
            }
        }
        if forall|j: int| 0 <= j < messages.len() ==> (#[trigger] messages[j]).key@ != key {
            assert(messages[0].key@ != key);
            assert forall|j: int| 0 <= j < rest.len() implies (#[trigger] rest[j]).key@ != key by {
                assert(messages[j + 1].key@ != key);
            }
        }
    }
}

/// Filling an argument in replaces its name in braces.
pub proof fn law_filled(
    catalog: &Catalog,
    language: Language,
    key: Seq<char>,
    name: Seq<char>,
    value: Seq<char>,
    before: Seq<char>,
    after: Seq<char>,
)
    requires
        catalog.text(language, key) == before + (seq!['{'] + name + seq!['}']) + after,
        !before.contains('{'),
        !crate::search::holds_text(after, seq!['{'] + name + seq!['}']),
    ensures
        catalog.text_with(language, key, name, value) == before + value + after,
{
    let pattern = seq!['{'] + name + seq!['}'];
    let all = before + pattern + after;
    let at = before.len() as int;
    assert(all.subrange(at, at + pattern.len()) == pattern);
    assert forall|j: int| 0 <= j < at implies !crate::search::stands_at(all, pattern, j) by {
        if crate::search::stands_at(all, pattern, j) {
            assert(all.subrange(j, j + pattern.len())[0] == '{');
            assert(before[j] == '{');
        }
    }
    crate::search::law_replaced(all, pattern, value, at);
    crate::search::law_replaced(after, pattern, value, 0);
    assert(all.take(at) == before);
    assert(all.skip(at + pattern.len()) == after);
}

} // verus!
