//! The OneKey manager: named sequences of prompts and the answers that are sent to them.

use vstd::prelude::*;

use crate::number::{decimal, decimal_text};
use crate::search::{starts_with, starts_with_text};
use crate::text::{
    lemma_filter_none, lemma_filter_step, lemma_texts_push, is_other, list_contains, opt_text,
    retain_other, same, texts, trim, trimmed,
};

verus! {

/// One step: the prompt that is expected, as a regular expression, and what is sent.
#[derive(Clone, Debug, PartialEq)]
pub struct OneKeyStep {
    pub label: String,
    pub expect: String,
    pub send: String,
}

/// A named sequence of steps.
#[derive(Clone, Debug, PartialEq)]
pub struct OneKey {
    pub id: String,
    pub name: String,
    pub steps: Vec<OneKeyStep>,
}

/// The built-in prompts.
#[derive(Clone, Debug, PartialEq)]
pub struct PromptPresets {
    pub password_expect: String,
    pub username_expect: String,
}

/// Which prompt a step expects.
#[derive(Clone, Copy, PartialEq, Eq, Structural, Debug)]
pub enum ExpectPreset {
    Password,
    Username,
    Custom,
}

/// Which prompt an expression is.
pub open spec fn preset_of(expect: Seq<char>, presets: &PromptPresets) -> ExpectPreset {
    if trimmed(expect) == presets.password_expect@ {
        ExpectPreset::Password
    } else if trimmed(expect) == presets.username_expect@ {
        ExpectPreset::Username
    } else {
        ExpectPreset::Custom
    }
}

/// Which prompt an expression is.
pub fn expect_preset(expect: &str, presets: &PromptPresets) -> (r: ExpectPreset)
    ensures
        r == preset_of(expect@, presets),
{
    let expect = trim(expect);
    if same(expect.as_str(), presets.password_expect.as_str()) {
        ExpectPreset::Password
    } else if same(expect.as_str(), presets.username_expect.as_str()) {
        ExpectPreset::Username
    } else {
        ExpectPreset::Custom
    }
}

/// The key of a step.
pub open spec fn mode_key(onekey_id: Seq<char>, step_index: nat) -> Seq<char> {
    onekey_id + ":"@ + decimal(step_index)
}

/// The key of a step.
pub fn expect_mode_key(onekey_id: &str, step_index: usize) -> (r: String)
    ensures
        r@ == mode_key(onekey_id@, step_index as nat),
{
    let mut out = String::from_str(onekey_id);
    out.append(":");
    out.append(decimal_text(step_index as u64).as_str());
    out
}

// ---------------------------------------------------------------------------------------------
// Validation
// ---------------------------------------------------------------------------------------------

/// Why `regex::Regex::new` refuses a pattern: the text of its error, nothing where it accepts
/// the pattern.
pub uninterp spec fn regex_error(pattern: Seq<char>) -> Option<Seq<char>>;

/// `regex::Regex::new`: whether a pattern is a regular expression of acceptable size. The
/// grammar and the texts of the errors are not spelled out.
#[verifier::external_body]
fn regex_error_text(pattern: &str) -> (r: Option<String>)
    ensures
        opt_text(r) == regex_error(pattern@),
{
    match regex::Regex::new(pattern) {
        Ok(_) => None,
        Err(error) => Some(error.to_string()),
    }
}

/// The pattern that is compiled for a step: matching ignores case.
pub open spec fn step_pattern(expect: Seq<char>) -> Seq<char> {
    "(?i)"@ + expect
}

/// How a sequence is called in a message: by its name, by its position where it has none.
pub open spec fn entry_title(name: Seq<char>, index: int) -> Seq<char> {
    if trimmed(name).len() == 0 {
        "OneKey #"@ + decimal((index + 1) as nat)
    } else {
        "OneKey ‘"@ + trimmed(name) + "’"@
    }
}

/// How a step is called in a message: by its label, by its position where it has none.
pub open spec fn step_title(label: Seq<char>, index: int) -> Seq<char> {
    if trimmed(label).len() == 0 {
        "step #"@ + decimal((index + 1) as nat)
    } else {
        "step ‘"@ + trimmed(label) + "’"@
    }
}

/// What is wrong with a step, given what is wrong with its expression.
pub open spec fn step_problem(
    title: Seq<char>,
    expect: Seq<char>,
    send: Seq<char>,
    invalid: Option<Seq<char>>,
) -> Option<Seq<char>> {
    if trimmed(expect).len() == 0 {
        Some(title + " needs an Expect regex."@)
    } else if invalid is Some {
        Some(title + " has an invalid Expect regex: "@ + invalid->0)
    } else if send.len() == 0 {
        Some(title + " needs a Send value."@)
    } else {
        None
    }
}

/// The first thing that is wrong with the steps from `from` on.
pub open spec fn steps_problem(title: Seq<char>, steps: Seq<OneKeyStep>, from: int) -> Option<
    Seq<char>,
>
    decreases steps.len() - from,
{
    if from < 0 || from >= steps.len() {
        None
    } else {
        let step = steps[from];
        let problem = step_problem(
            title + " "@ + step_title(step.label@, from),
            step.expect@,
            step.send@,
            regex_error(step_pattern(step.expect@)),
        );
        if problem is Some {
            problem
        } else {
            steps_problem(title, steps, from + 1)
        }
    }
}

/// What is wrong with a sequence.
pub open spec fn entry_problem(onekey: OneKey, index: int) -> Option<Seq<char>> {
    let title = entry_title(onekey.name@, index);
    if trimmed(onekey.name@).len() == 0 {
        Some(title + " needs a name."@)
    } else if onekey.steps@.len() == 0 {
        Some(title + " needs at least one Expect / Send step."@)
    } else {
        steps_problem(title, onekey.steps@, 0)
    }
}

/// The first thing that is wrong with the sequences from `from` on.
pub open spec fn problem(onekeys: Seq<OneKey>, from: int) -> Option<Seq<char>>
    decreases onekeys.len() - from,
{
    if from < 0 || from >= onekeys.len() {
        None
    } else if entry_problem(onekeys[from], from) is Some {
        entry_problem(onekeys[from], from)
    } else {
        problem(onekeys, from + 1)
    }
}

fn title_text(kind: &str, text: &str, index: usize) -> (r: String)
    requires
        index < usize::MAX,
    ensures
        r@ == (if trimmed(text@).len() == 0 {
            kind@ + " #"@ + decimal((index + 1) as nat)
        } else {
            kind@ + " ‘"@ + trimmed(text@) + "’"@
        }),
{
    let text = trim(text);
    let mut out = String::from_str(kind);
    if text.as_str().is_empty() {
        out.append(" #");
        out.append(decimal_text((index + 1) as u64).as_str());
    } else {
        out.append(" ‘");
        out.append(text.as_str());
        out.append("’");
    }
    out
}

proof fn lemma_titles()
    ensures
        "OneKey #"@ == "OneKey"@ + " #"@,
        "OneKey ‘"@ == "OneKey"@ + " ‘"@,
        "step #"@ == "step"@ + " #"@,
        "step ‘"@ == "step"@ + " ‘"@,
{
    reveal_strlit("OneKey #");
    reveal_strlit("OneKey ‘");
    reveal_strlit("OneKey");
    reveal_strlit("step #");
    reveal_strlit("step ‘");
    reveal_strlit("step");
    reveal_strlit(" #");
    reveal_strlit(" ‘");
}

/// What is wrong with a step, given what is wrong with its expression.
pub fn check_step(title: &str, step: &OneKeyStep, invalid: &Option<String>) -> (r: Option<String>)
    ensures
        opt_text(r) == step_problem(title@, step.expect@, step.send@, opt_text(*invalid)),
{
    if trim(step.expect.as_str()).as_str().is_empty() {
        let mut out = String::from_str(title);
        out.append(" needs an Expect regex.");
        return Some(out);
    }
    match invalid {
        Some(error) => {
            let mut out = String::from_str(title);
            out.append(" has an invalid Expect regex: ");
            out.append(error.as_str());
            return Some(out);
        },
        None => {},
    }
    if step.send.as_str().is_empty() {
        let mut out = String::from_str(title);
        out.append(" needs a Send value.");
        return Some(out);
    }
    None
}

fn check_steps(title: &str, steps: &Vec<OneKeyStep>) -> (r: Option<String>)
    ensures
        opt_text(r) == steps_problem(title@, steps@, 0),
{
    for i in 0..steps.len()
        invariant
            steps_problem(title@, steps@, 0) == steps_problem(title@, steps@, i as int),
    {
        let step = &steps[i];
        proof {
            lemma_titles();
        }
        let mut name = String::from_str(title);
        name.append(" ");
        name.append(title_text("step", step.label.as_str(), i).as_str());
        let mut pattern = String::from_str("(?i)");
        pattern.append(step.expect.as_str());
        let invalid = regex_error_text(pattern.as_str());
        let found = check_step(name.as_str(), step, &invalid);
        if found.is_some() {
            return found;
        }
    }
    None
}

/// The first thing that is wrong with a list of sequences, told with the place where it is;
/// nothing where the list can be saved.
pub fn validate_onekeys(onekeys: &Vec<OneKey>) -> (r: Option<String>)
    ensures
        opt_text(r) == problem(onekeys@, 0),
{
    for i in 0..onekeys.len()
        invariant
            problem(onekeys@, 0) == problem(onekeys@, i as int),
    {
        let onekey = &onekeys[i];
        proof {
            lemma_titles();
        }
        let title = title_text("OneKey", onekey.name.as_str(), i);
        if trim(onekey.name.as_str()).as_str().is_empty() {
            let mut out = title;
            out.append(" needs a name.");
            return Some(out);
        }
        if onekey.steps.len() == 0 {
            let mut out = title;
            out.append(" needs at least one Expect / Send step.");
            return Some(out);
        }
        let found = check_steps(title.as_str(), &onekey.steps);
        if found.is_some() {
            return found;
        }
    }
    None
}

/// Whether a step is complete and its expression is in order.
pub open spec fn step_in_order(step: OneKeyStep) -> bool {
    trimmed(step.expect@).len() > 0 && regex_error(step_pattern(step.expect@)) is None
        && step.send@.len() > 0
}

/// Whether a sequence has a name and steps, all of them in order.
pub open spec fn onekey_in_order(onekey: OneKey) -> bool {
    &&& trimmed(onekey.name@).len() > 0
    &&& onekey.steps@.len() > 0
    &&& forall|i: int| 0 <= i < onekey.steps@.len() ==> step_in_order(#[trigger] onekey.steps@[i])
}

proof fn lemma_steps_in_order(title: Seq<char>, steps: Seq<OneKeyStep>, from: int)
    requires
        0 <= from,
    ensures
        steps_problem(title, steps, from) is None <==> forall|i: int|
            from <= i < steps.len() ==> step_in_order(#[trigger] steps[i]),
    decreases steps.len() - from,
{
    if from < steps.len() {
        lemma_steps_in_order(title, steps, from + 1);
        if steps_problem(title, steps, from) is None {
            assert forall|i: int| from <= i < steps.len() implies step_in_order(
                #[trigger] steps[i],
            ) by {
                if i > from {
                    assert(steps_problem(title, steps, from + 1) is None);
                }
            }
        }
        if forall|i: int| from <= i < steps.len() ==> step_in_order(#[trigger] steps[i]) {
            assert(step_in_order(steps[from]));
            assert forall|i: int| from + 1 <= i < steps.len() implies step_in_order(
                #[trigger] steps[i],
            ) by {}
        }
    }
}

proof fn lemma_in_order(onekeys: Seq<OneKey>, from: int)
    requires
        0 <= from,
    ensures
        problem(onekeys, from) is None <==> forall|i: int|
            from <= i < onekeys.len() ==> onekey_in_order(#[trigger] onekeys[i]),
    decreases onekeys.len() - from,
{
    if from < onekeys.len() {
        lemma_in_order(onekeys, from + 1);
        let onekey = onekeys[from];
        lemma_steps_in_order(entry_title(onekey.name@, from), onekey.steps@, 0);
        assert(entry_problem(onekey, from) is None <==> onekey_in_order(onekey));
        if problem(onekeys, from) is None {
            assert forall|i: int| from <= i < onekeys.len() implies onekey_in_order(
                #[trigger] onekeys[i],
            ) by {
                if i > from {
                    assert(problem(onekeys, from + 1) is None);
                }
            }
        }
        if forall|i: int| from <= i < onekeys.len() ==> onekey_in_order(#[trigger] onekeys[i]) {
            assert(onekey_in_order(onekeys[from]));
            assert forall|i: int| from + 1 <= i < onekeys.len() implies onekey_in_order(
                #[trigger] onekeys[i],
            ) by {}
        }
    }
}

/// A list can be saved exactly when every sequence in it is in order.
pub proof fn law_valid_when_all_in_order(onekeys: Seq<OneKey>)
    ensures
        problem(onekeys, 0) is None <==> forall|i: int|
            0 <= i < onekeys.len() ==> onekey_in_order(#[trigger] onekeys[i]),
{
    lemma_in_order(onekeys, 0);
}

// ---------------------------------------------------------------------------------------------
// Editing
// ---------------------------------------------------------------------------------------------

/// Whether a character is a hexadecimal digit in lower case.
pub open spec fn is_hex(c: char) -> bool {
    ('0' <= c && c <= '9') || ('a' <= c && c <= 'f')
}

/// Whether a text is a random id: five groups of hexadecimal digits with hyphens between them,
/// with the digit that marks randomness and those of the standard variant.
pub open spec fn is_random_id(id: Seq<char>) -> bool {
    &&& id.len() == 36
    &&& forall|i: int|
        0 <= i < 36 ==> if i == 8 || i == 13 || i == 18 || i == 23 {
            #[trigger] id[i] == '-'
        } else {
            is_hex(id[i])
        }
    &&& id[14] == '4'
    &&& (id[19] == '8' || id[19] == '9' || id[19] == 'a' || id[19] == 'b')
}

/// `uuid::Uuid::new_v4` as text: a random id in lower case. Which one, is left to chance.
#[verifier::external_body]
fn random_id() -> (r: String)
    ensures
        is_random_id(r@),
{
    uuid::Uuid::new_v4().to_string()
}

/// The manager's working copy. The keys in `custom_steps` are those of the steps whose
/// expression is shown for editing though it is a built-in one, or was when the manager opened.
#[derive(Clone, Debug, PartialEq)]
pub struct OneKeyEditor {
    pub entries: Vec<OneKey>,
    pub selected: Option<usize>,
    pub custom_steps: Vec<String>,
}

/// Not starting with a text.
pub open spec fn starts_otherwise(prefix: Seq<char>) -> spec_fn(Seq<char>) -> bool {
    |s: Seq<char>| !starts_with_text(s, prefix)
}

fn retain_starting_otherwise(list: &Vec<String>, prefix: &str) -> (r: Vec<String>)
    ensures
        texts(r@) == texts(list@).filter(starts_otherwise(prefix@)),
{
    let mut out: Vec<String> = Vec::new();
    let ghost all = texts(list@);
    let ghost keep = starts_otherwise(prefix@);
    proof {
        lemma_filter_none(all, keep);
    }
    assert(texts(out@) == Seq::<Seq<char>>::empty());
    for i in 0..list.len()
        invariant
            all == texts(list@),
            keep == starts_otherwise(prefix@),
            texts(out@) == all.take(i as int).filter(keep),
    {
        proof {
            lemma_filter_step(all, i as int, keep);
        }
        if !starts_with(list[i].as_str(), prefix) {
            proof {
                lemma_texts_push(out@, list@[i as int]);
            }
            out.push(list[i].clone());
        }
    }
    proof {
        lemma_filter_none(all, keep);
    }
    out
}

/// Whether the step at `(i, j)` of a list has an expression of its own, and this key.
pub open spec fn is_custom_key(
    onekeys: Seq<OneKey>,
    presets: &PromptPresets,
    key: Seq<char>,
    i: int,
    j: int,
) -> bool {
    0 <= i < onekeys.len() && 0 <= j < onekeys[i].steps@.len() && preset_of(
        onekeys[i].steps@[j].expect@,
        presets,
    ) == ExpectPreset::Custom && key == mode_key(onekeys[i].id@, j as nat)
}

/// Whether two steps of a pair come one after the other in a list.
spec fn ahead(i: int, j: int, a: int, b: int) -> bool {
    i < a || (i == a && j < b)
}

/// The keys of all steps with an expression of their own, each once.
pub fn custom_keys(onekeys: &Vec<OneKey>, presets: &PromptPresets) -> (r: Vec<String>)
    ensures
        texts(r@).no_duplicates(),
        forall|key: Seq<char>|
            texts(r@).contains(key) <==> exists|i: int, j: int|
                is_custom_key(onekeys@, presets, key, i, j),
{
    let mut out: Vec<String> = Vec::new();
    assert(texts(out@).no_duplicates());
    for a in 0..onekeys.len()
        invariant
            texts(out@).no_duplicates(),
            forall|key: Seq<char>|
                texts(out@).contains(key) ==> exists|i: int, j: int|
                    is_custom_key(onekeys@, presets, key, i, j),
            forall|key: Seq<char>, i: int, j: int|
                i < a && is_custom_key(onekeys@, presets, key, i, j) ==> texts(out@).contains(key),
    {
        let onekey = &onekeys[a];
        for b in 0..onekey.steps.len()
            invariant
                a < onekeys@.len(),
                *onekey == onekeys@[a as int],
                texts(out@).no_duplicates(),
                forall|key: Seq<char>|
                    texts(out@).contains(key) ==> exists|i: int, j: int|
                        is_custom_key(onekeys@, presets, key, i, j),
                forall|key: Seq<char>, i: int, j: int|
                    ahead(i, j, a as int, b as int) && is_custom_key(onekeys@, presets, key, i, j)
                        ==> texts(out@).contains(key),
        {
            let step = &onekey.steps[b];
            if expect_preset(step.expect.as_str(), presets) == ExpectPreset::Custom {
                let key = expect_mode_key(onekey.id.as_str(), b);
                assert(is_custom_key(onekeys@, presets, key@, a as int, b as int));
                if !list_contains(&out, key.as_str()) {
                    let ghost before = out@;
                    proof {
                        lemma_texts_push(before, key);
                        let now = texts(before).push(key@);
                        assert forall|k: Seq<char>| now.contains(k) implies exists|i: int, j: int|
                            is_custom_key(onekeys@, presets, k, i, j) by {
                            if k != key@ {
                                let n = choose|n: int| 0 <= n < now.len() && now[n] == k;
                                assert(texts(before)[n] == k);
                                assert(texts(before).contains(k));
                            }
                        }
                        assert(now[texts(before).len() as int] == key@);
                        assert forall|k: Seq<char>| texts(before).contains(k) implies now.contains(
                            k,
                        ) by {
                            let n = choose|n: int|
                                0 <= n < texts(before).len() && texts(before)[n] == k;
                            assert(now[n] == k);
                        }
                    }
                    out.push(key);
                }
            }
        }
    }
    out
}

/// The name of the mode in which a step is shown.
pub open spec fn shown_mode(preset: ExpectPreset, forced_custom: bool) -> ExpectPreset {
    if forced_custom {
        ExpectPreset::Custom
    } else {
        preset
    }
}

/// The name of a mode in the selector.
pub open spec fn mode_name(mode: ExpectPreset) -> Seq<char> {
    match mode {
        ExpectPreset::Custom => "custom"@,
        ExpectPreset::Username => "username"@,
        ExpectPreset::Password => "password"@,
    }
}

/// Whether a sequence is a new one for a login by name and password, with nothing to send yet.
pub open spec fn is_login(onekey: OneKey, presets: &PromptPresets) -> bool {
    &&& onekey.name@ == "new"@
    &&& onekey.steps@.len() == 2
    &&& onekey.steps@[0].label@ == "Username"@
    &&& onekey.steps@[0].expect == presets.username_expect
    &&& onekey.steps@[0].send@.len() == 0
    &&& onekey.steps@[1].label@ == "Password"@
    &&& onekey.steps@[1].expect == presets.password_expect
    &&& onekey.steps@[1].send@.len() == 0
}

impl OneKeyEditor {
    /// The manager as it opens: the first sequence is selected, where there is one.
    pub fn opened(onekeys: Vec<OneKey>, presets: &PromptPresets) -> (r: OneKeyEditor)
        ensures
            r.entries == onekeys,
            r.selected == (if onekeys@.len() > 0 {
                Some(0usize)
            } else {
                None
            }),
            texts(r.custom_steps@).no_duplicates(),
            forall|key: Seq<char>|
                texts(r.custom_steps@).contains(key) <==> exists|i: int, j: int|
                    is_custom_key(onekeys@, presets, key, i, j),
    {
        let custom_steps = custom_keys(&onekeys, presets);
        let selected: Option<usize> = if onekeys.len() > 0 {
            Some(0)
        } else {
            None
        };
        OneKeyEditor { entries: onekeys, selected, custom_steps }
    }

    /// Adds a sequence of this id with the steps that a login by name and password takes, and
    /// selects it.
    pub fn add_onekey(&mut self, id: String, presets: &PromptPresets)
        ensures
            final(self).custom_steps == old(self).custom_steps,
            final(self).entries@.len() == old(self).entries@.len() + 1,
            final(self).entries@.drop_last() == old(self).entries@,
            final(self).selected == Some((final(self).entries@.len() - 1) as usize),
            final(self).entries@.last().id == id,
            is_login(final(self).entries@.last(), presets),
    {
        let mut steps: Vec<OneKeyStep> = Vec::new();
        steps.push(
            OneKeyStep {
                label: "Username".to_owned(),
                expect: presets.username_expect.clone(),
                send: String::new(),
            },
        );
        steps.push(
            OneKeyStep {
                label: "Password".to_owned(),
                expect: presets.password_expect.clone(),
                send: String::new(),
            },
        );
        let ghost before = self.entries@;
        self.entries.push(OneKey { id, name: "new".to_owned(), steps });
        assert(self.entries@.drop_last() == before);
        self.selected = Some(self.entries.len() - 1);
    }

    /// Adds a sequence with a random id.
    pub fn add_new_onekey(&mut self, presets: &PromptPresets)
        ensures
            final(self).custom_steps == old(self).custom_steps,
            final(self).entries@.len() == old(self).entries@.len() + 1,
            final(self).entries@.drop_last() == old(self).entries@,
            final(self).selected == Some((final(self).entries@.len() - 1) as usize),
            is_random_id(final(self).entries@.last().id@),
            is_login(final(self).entries@.last(), presets),
    {
        let id = random_id();
        self.add_onekey(id, presets);
    }

    /// Adds a step for a password to a sequence.
    pub fn add_step(&mut self, index: usize, presets: &PromptPresets)
        requires
            index < old(self).entries@.len(),
        ensures
            final(self).selected == old(self).selected,
            final(self).custom_steps == old(self).custom_steps,
            ({
                let entry = old(self).entries@[index as int];
                let after = final(self).entries@[index as int];
                &&& final(self).entries@ == old(self).entries@.update(index as int, after)
                &&& after.id == entry.id
                &&& after.name == entry.name
                &&& after.steps@.len() == entry.steps@.len() + 1
                &&& after.steps@.drop_last() == entry.steps@
                &&& after.steps@.last().label@ == "Password"@
                &&& after.steps@.last().expect == presets.password_expect
                &&& after.steps@.last().send@.len() == 0
            }),
    {
        let ghost before = self.entries@[index as int].steps@;
        let entry = &mut self.entries[index];
        entry.steps.push(
            OneKeyStep {
                label: "Password".to_owned(),
                expect: presets.password_expect.clone(),
                send: String::new(),
            },
        );
        assert(self.entries@[index as int].steps@.drop_last() == before);
    }

    /// Takes a step out of a sequence. As the steps behind it move up, all of the sequence's
    /// steps are shown by their expressions again.
    pub fn remove_step(&mut self, index: usize, step: usize)
        requires
            index < old(self).entries@.len(),
            step < old(self).entries@[index as int].steps@.len(),
        ensures
            final(self).selected == old(self).selected,
            texts(final(self).custom_steps@) == texts(old(self).custom_steps@).filter(
                starts_otherwise(old(self).entries@[index as int].id@ + ":"@),
            ),
            ({
                let entry = old(self).entries@[index as int];
                let after = final(self).entries@[index as int];
                &&& final(self).entries@ == old(self).entries@.update(index as int, after)
                &&& after.id == entry.id
                &&& after.name == entry.name
                &&& after.steps@ == entry.steps@.remove(step as int)
            }),
    {
        let mut prefix = self.entries[index].id.clone();
        prefix.append(":");
        let entry = &mut self.entries[index];
        let _removed = entry.steps.remove(step);
        self.custom_steps = retain_starting_otherwise(&self.custom_steps, prefix.as_str());
    }

    /// The mode in which a step is shown.
    pub open spec fn mode(&self, presets: &PromptPresets, index: int, step: int) -> ExpectPreset {
        let entry = self.entries@[index];
        shown_mode(
            preset_of(entry.steps@[step].expect@, presets),
            texts(self.custom_steps@).contains(mode_key(entry.id@, step as nat)),
        )
    }

    /// The name of the mode in which a step is shown.
    pub fn expect_mode(&self, presets: &PromptPresets, index: usize, step: usize) -> (r: &'static str)
        requires
            index < self.entries@.len(),
            step < self.entries@[index as int].steps@.len(),
        ensures
            r@ == mode_name(self.mode(presets, index as int, step as int)),
            texts(self.custom_steps@).contains(
                self.entries@[index as int].id@ + ":"@ + decimal(step as nat),
            ) ==> r@ == "custom"@,
            !texts(self.custom_steps@).contains(
                self.entries@[index as int].id@ + ":"@ + decimal(step as nat),
            ) ==> r@ == (if trimmed(self.entries@[index as int].steps@[step as int].expect@)
                == presets.password_expect@ {
                "password"@
            } else if trimmed(self.entries@[index as int].steps@[step as int].expect@)
                == presets.username_expect@ {
                "username"@
            } else {
                "custom"@
            }),
    {
        let entry = &self.entries[index];
        let key = expect_mode_key(entry.id.as_str(), step);
        let preset = expect_preset(entry.steps[step].expect.as_str(), presets);
        if preset == ExpectPreset::Custom || list_contains(&self.custom_steps, key.as_str()) {
            "custom"
        } else if preset == ExpectPreset::Username {
            "username"
        } else {
            "password"
        }
    }

    /// Chooses the mode of a step by its name: a built-in prompt becomes the step's expression;
    /// the step's own expression is kept and shown for editing. Any other name changes nothing.
    pub fn choose_mode(&mut self, presets: &PromptPresets, index: usize, step: usize, mode: &str)
        requires
            index < old(self).entries@.len(),
            step < old(self).entries@[index as int].steps@.len(),
        ensures
            final(self).selected == old(self).selected,
            ({
                let entry = old(self).entries@[index as int];
                let key = mode_key(entry.id@, step as nat);
                let before = texts(old(self).custom_steps@);
                let expect = if mode@ == "password"@ {
                    presets.password_expect
                } else if mode@ == "username"@ {
                    presets.username_expect
                } else {
                    entry.steps@[step as int].expect
                };
                let after = final(self).entries@[index as int];
                &&& texts(final(self).custom_steps@) == (if mode@ == "password"@ || mode@
                    == "username"@ {
                    before.filter(is_other(key))
                } else if mode@ == "custom"@ && !before.contains(key) {
                    before.push(key)
                } else {
                    before
                })
                &&& final(self).entries@ == old(self).entries@.update(index as int, after)
                &&& after.id == entry.id
                &&& after.name == entry.name
                &&& after.steps@ == entry.steps@.update(
                    step as int,
                    OneKeyStep {
                        label: entry.steps@[step as int].label,
                        expect,
                        send: entry.steps@[step as int].send,
                    },
                )
            }),
    {
        proof {
            reveal_strlit("password");
            reveal_strlit("username");
            reveal_strlit("custom");
            assert("password"@[0] != "username"@[0]);
            assert("custom"@.len() == 6 && "password"@.len() == 8 && "username"@.len() == 8);
        }
        let key = expect_mode_key(self.entries[index].id.as_str(), step);
        if same(mode, "password") {
            let entry = &mut self.entries[index];
            let slot = &mut entry.steps[step];
            slot.expect = presets.password_expect.clone();
            self.custom_steps = retain_other(&self.custom_steps, key.as_str());
        } else if same(mode, "username") {
            let entry = &mut self.entries[index];
            let slot = &mut entry.steps[step];
            slot.expect = presets.username_expect.clone();
            self.custom_steps = retain_other(&self.custom_steps, key.as_str());
        } else if same(mode, "custom") {
            if !list_contains(&self.custom_steps, key.as_str()) {
                proof {
                    lemma_texts_push(self.custom_steps@, key);
                }
                self.custom_steps.push(key);
            }
        }
    }

    /// Deletes a sequence; nothing is selected then.
    pub fn delete_onekey(&mut self, index: usize)
        requires
            index < old(self).entries@.len(),
        ensures
            final(self).entries@ == old(self).entries@.remove(index as int),
            final(self).selected is None,
            final(self).custom_steps == old(self).custom_steps,
    {
        let _removed = self.entries.remove(index);
        self.selected = None;
    }
}

/// A chosen mode is the mode that is shown, where the built-in prompts are different texts
/// without whitespace around them.
pub proof fn law_chosen_mode_is_shown(
    presets: &PromptPresets,
    custom_steps: Seq<Seq<char>>,
    key: Seq<char>,
)
    requires
        trimmed(presets.password_expect@) == presets.password_expect@,
        trimmed(presets.username_expect@) == presets.username_expect@,
        presets.password_expect@ != presets.username_expect@,
    ensures
        shown_mode(
            preset_of(presets.password_expect@, presets),
            custom_steps.filter(is_other(key)).contains(key),
        ) == ExpectPreset::Password,
        shown_mode(
            preset_of(presets.username_expect@, presets),
            custom_steps.filter(is_other(key)).contains(key),
        ) == ExpectPreset::Username,
        custom_steps.push(key).contains(key),
{
    broadcast use vstd::seq_lib::group_filter_ensures;

    let kept = custom_steps.filter(is_other(key));
    if kept.contains(key) {
        let i = choose|i: int| 0 <= i < kept.len() && kept[i] == key;
        assert(is_other(key)(kept[i]));
    }
    assert(custom_steps.push(key)[custom_steps.len() as int] == key);
}

/// What a key does in the manager.
#[derive(Clone, Copy, PartialEq, Eq, Structural, Debug)]
pub enum ManagerAction {
    Nothing,
    Close,
    Save,
}

/// A key in the manager.
#[derive(Clone, Copy, PartialEq, Eq, Structural, Debug)]
pub enum ManagerKey {
    Escape,
    Enter,
    Other,
}

/// Escape closes the manager; Enter with a command key saves a list that is in order.
pub fn manager_key(key: ManagerKey, command_held: bool, onekeys: &Vec<OneKey>) -> (r: ManagerAction)
    ensures
        r == (match key {
            ManagerKey::Escape => ManagerAction::Close,
            ManagerKey::Enter => if command_held && problem(onekeys@, 0) is None {
                ManagerAction::Save
            } else {
                ManagerAction::Nothing
            },
            ManagerKey::Other => ManagerAction::Nothing,
        }),
{
    match key {
        ManagerKey::Escape => ManagerAction::Close,
        ManagerKey::Enter => {
            if command_held && validate_onekeys(onekeys).is_none() {
                ManagerAction::Save
            } else {
                ManagerAction::Nothing
            }
        },
        ManagerKey::Other => ManagerAction::Nothing,
    }
}

/// An expression is the prompt for a password or for a name exactly when it is that prompt, but
/// for the whitespace around it.
pub proof fn law_prompt_of_an_expression(expect: Seq<char>, presets: &PromptPresets)
    ensures
        preset_of(expect, presets) == ExpectPreset::Password <==> trimmed(expect)
            == presets.password_expect@,
        preset_of(expect, presets) == ExpectPreset::Custom <==> trimmed(expect)
            != presets.password_expect@ && trimmed(expect) != presets.username_expect@,
{
}

/// A step's key is the id of its sequence, a colon and its position, so two steps of one sequence
/// have different keys.
pub proof fn law_keys_tell_steps_apart(onekey_id: Seq<char>, a: nat, b: nat)
    ensures
        mode_key(onekey_id, a) == onekey_id + ":"@ + decimal(a),
        mode_key(onekey_id, a) == mode_key(onekey_id, b) <==> a == b,
        starts_with_text(mode_key(onekey_id, a), onekey_id + ":"@),
{
    let front = onekey_id + ":"@;
    let key = mode_key(onekey_id, a);
    assert(key.subrange(0, front.len() as int) == front);
    if mode_key(onekey_id, a) == mode_key(onekey_id, b) {
        assert(key.skip(front.len() as int) == decimal(a));
        assert(mode_key(onekey_id, b).skip(front.len() as int) == decimal(b));
        let max = if a < b {
            b
        } else {
            a
        };
        crate::number::law_decimal_reads_back(a, max, Seq::empty(), 0);
        crate::number::law_decimal_reads_back(b, max, Seq::empty(), 0);
    }
}

/// A sequence and a step are called by their names, and those without one by their positions,
/// counted from one.
pub proof fn law_titles(name: Seq<char>, index: int)
    requires
        0 <= index,
    ensures
        trimmed(name).len() > 0 ==> entry_title(name, index) == "OneKey ‘"@ + trimmed(name) + "’"@,
        trimmed(name).len() > 0 ==> step_title(name, index) == "step ‘"@ + trimmed(name) + "’"@,
        trimmed(name).len() == 0 ==> entry_title(name, index) == "OneKey #"@ + decimal(
            (index + 1) as nat,
        ),
        trimmed(name).len() == 0 ==> step_title(name, index) == "step #"@ + decimal(
            (index + 1) as nat,
        ),
{
}

/// What is wrong with a step is told in the order of its fields: a missing expression first, then
/// one that is refused, with the reason, and last a missing answer.
pub proof fn law_step_problems(
    title: Seq<char>,
    expect: Seq<char>,
    send: Seq<char>,
    invalid: Option<Seq<char>>,
)
    ensures
        step_problem(title, expect, send, invalid) is None <==> trimmed(expect).len() > 0
            && invalid is None && send.len() > 0,
        trimmed(expect).len() == 0 ==> step_problem(title, expect, send, invalid) == Some(
            title + " needs an Expect regex."@,
        ),
        trimmed(expect).len() > 0 && invalid is Some ==> step_problem(title, expect, send, invalid)
            == Some(title + " has an invalid Expect regex: "@ + invalid->0),
        trimmed(expect).len() > 0 && invalid is None && send.len() == 0 ==> step_problem(
            title,
            expect,
            send,
            invalid,
        ) == Some(title + " needs a Send value."@),
        step_pattern(expect) == "(?i)"@ + expect,
{
}

/// What is told is wrong is the first thing that is: with the first sequence that is not in
/// order, and in it with the first step that is not.
pub proof fn law_first_problem_is_told(onekeys: Seq<OneKey>, from: int, at: int)
    requires
        0 <= from <= at < onekeys.len(),
        forall|i: int| from <= i < at ==> entry_problem(#[trigger] onekeys[i], i) is None,
        entry_problem(onekeys[at], at) is Some,
    ensures
        problem(onekeys, from) == entry_problem(onekeys[at], at),
    decreases at - from,
{
    if from < at {
        assert(entry_problem(onekeys[from], from) is None);
        law_first_problem_is_told(onekeys, from + 1, at);
    }
}

/// A sequence without a name or without steps is told so; of a sequence with both the first step
/// that is not in order is told, under the title of the sequence and its own.
pub proof fn law_entry_problems(onekey: OneKey, index: int, at: int)
    ensures
        trimmed(onekey.name@).len() == 0 ==> entry_problem(onekey, index) == Some(
            "OneKey #"@ + decimal((index + 1) as nat) + " needs a name."@,
        ),
        trimmed(onekey.name@).len() > 0 && onekey.steps@.len() == 0 ==> entry_problem(onekey, index)
            == Some(
            "OneKey ‘"@ + trimmed(onekey.name@) + "’"@
                + " needs at least one Expect / Send step."@,
        ),
        trimmed(onekey.name@).len() > 0 && 0 <= at < onekey.steps@.len() && (forall|j: int|
            0 <= j < at ==> step_in_order(#[trigger] onekey.steps@[j])) && !step_in_order(
            onekey.steps@[at],
        ) ==> entry_problem(onekey, index) == step_problem(
            "OneKey ‘"@ + trimmed(onekey.name@) + "’"@ + " "@ + step_title(
                onekey.steps@[at].label@,
                at,
            ),
            onekey.steps@[at].expect@,
            onekey.steps@[at].send@,
            regex_error("(?i)"@ + onekey.steps@[at].expect@),
        ),
{
    if trimmed(onekey.name@).len() > 0 && 0 <= at < onekey.steps@.len() && (forall|j: int|
        0 <= j < at ==> step_in_order(#[trigger] onekey.steps@[j])) && !step_in_order(
        onekey.steps@[at],
    ) {
        lemma_first_step(entry_title(onekey.name@, index), onekey.steps@, 0, at);
    }
}

proof fn lemma_first_step(title: Seq<char>, steps: Seq<OneKeyStep>, from: int, at: int)
    requires
        0 <= from <= at < steps.len(),
        forall|j: int| from <= j < at ==> step_in_order(#[trigger] steps[j]),
        !step_in_order(steps[at]),
    ensures
        steps_problem(title, steps, from) == step_problem(
            title + " "@ + step_title(steps[at].label@, at),
            steps[at].expect@,
            steps[at].send@,
            regex_error(step_pattern(steps[at].expect@)),
        ),
    decreases at - from,
{
    if from < at {
        assert(step_in_order(steps[from]));
        lemma_first_step(title, steps, from + 1, at);
    }
}

/// Forgetting a sequence's keys leaves every key that does not start with its id and a colon, as
/// often as it was there, and none that does.
pub proof fn law_other_keys_stay(keys: Seq<Seq<char>>, onekey_id: Seq<char>, key: Seq<char>)
    ensures
        starts_with_text(key, onekey_id + ":"@) ==> !keys.filter(
            starts_otherwise(onekey_id + ":"@),
        ).contains(key),
        !starts_with_text(key, onekey_id + ":"@) ==> keys.filter(
            starts_otherwise(onekey_id + ":"@),
        ).to_multiset().count(key) == keys.to_multiset().count(key),
{
    broadcast use vstd::seq_lib::group_to_multiset_ensures;

    let keep = starts_otherwise(onekey_id + ":"@);
    crate::text::lemma_filter_count(keys, keep, key);
    if keys.filter(keep).contains(key) {
        assert(keys.filter(keep).to_multiset().contains(key));
    }
}

/// A new sequence asks for the name first and then for the password, and has nothing to send yet,
/// so that it cannot be saved before something is filled in.
pub proof fn law_new_sequence(onekey: OneKey, presets: &PromptPresets)
    requires
        is_login(onekey, presets),
    ensures
        onekey.name@ == "new"@,
        onekey.steps@.len() == 2,
        onekey.steps@[0].label@ == "Username"@ && onekey.steps@[0].expect@
            == presets.username_expect@,
        onekey.steps@[1].label@ == "Password"@ && onekey.steps@[1].expect@
            == presets.password_expect@,
        onekey.steps@[0].send@ == Seq::<char>::empty(),
        onekey.steps@[1].send@ == Seq::<char>::empty(),
        !onekey_in_order(onekey),
{
    assert(!step_in_order(onekey.steps@[0]));
}

} // verus!
