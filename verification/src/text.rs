//! Text helpers shared by every panel: trimming, searching, splitting, escaping and
//! the decimal notation, all stated over the characters of a string.

use vstd::prelude::*;

verus! {

/// Whether a character has the Unicode property `White_Space`.
pub open spec fn char_is_whitespace(c: char) -> bool {
    let code = c as u32;
    ||| 0x9 <= code <= 0xd
    ||| code == 0x20
    ||| code == 0x85
    ||| code == 0xa0
    ||| code == 0x1680
    ||| 0x2000 <= code <= 0x200a
    ||| code == 0x2028
    ||| code == 0x2029
    ||| code == 0x202f
    ||| code == 0x205f
    ||| code == 0x3000
}

/// What `char::is_alphanumeric` answers for a character.
pub uninterp spec fn char_is_alphanumeric(c: char) -> bool;

/// Whether a character is an ASCII letter or an ASCII digit.
pub open spec fn is_ascii_letter_or_digit(c: char) -> bool {
    'a' <= c <= 'z' || 'A' <= c <= 'Z' || '0' <= c <= '9'
}

/// Whether a character is a letter or a digit: of ASCII, or by Unicode's properties.
pub open spec fn is_letter_or_digit(c: char) -> bool {
    if c as u32 <= 127 {
        is_ascii_letter_or_digit(c)
    } else {
        char_is_alphanumeric(c)
    }
}

/// What `str::to_lowercase` makes of a text.
pub uninterp spec fn lowercase(text: Seq<char>) -> Seq<char>;

/// `char::is_whitespace`: whether the character has the Unicode property `White_Space`, that is
/// whether it is one of the 25 characters to which Unicode gives it.
pub assume_specification[ char::is_whitespace ](c: char) -> (r: bool)
    ensures
        r == char_is_whitespace(c),
;

/// `char::is_alphanumeric`: whether the character is alphabetic or numeric by Unicode's
/// properties. Of ASCII these are the letters and the digits; beyond it they are not spelled out.
pub assume_specification[ char::is_alphanumeric ](c: char) -> (r: bool)
    ensures
        r == char_is_alphanumeric(c),
        r == is_ascii_letter_or_digit(c) || c as u32 > 127,
;

/// `str::to_lowercase`: the text in lower case by Unicode's mapping, which is not spelled out.
pub assume_specification[ str::to_lowercase ](s: &str) -> (r: String)
    ensures
        r@ == lowercase(s@),
;

/// `String::push`: appends one character.
pub assume_specification[ String::push ](s: &mut String, c: char)
    ensures
        final(s)@ == old(s)@.push(c),
;

/// The lower-case form of an ASCII letter; any other character stays.
pub open spec fn ascii_lower(c: char) -> char {
    if 'A' <= c && c <= 'Z' {
        (c as u32 + 32) as char
    } else {
        c
    }
}

/// `char::to_ascii_lowercase`: `A` to `Z` become `a` to `z`, every other character stays.
pub assume_specification[ char::to_ascii_lowercase ](c: &char) -> (r: char)
    ensures
        r == ascii_lower(*c),
;

/// `==` on two `str`: whether they hold the same characters.
pub assume_specification[ <str as PartialEq>::eq ](a: &str, b: &str) -> (r: bool)
    ensures
        r == (a@ == b@),
;

/// The characters of a text.
pub fn chars_of(s: &str) -> (r: Vec<char>)
    ensures
        r@ == s@,
{
    let mut out: Vec<char> = Vec::new();
    for c in it: s.chars()
        invariant
            out@ == s@.take(it.index() as int),
            it.seq() == s@,
    {
        out.push(c);
    }
    assert(s@.take(s@.len() as int) == s@);
    out
}

/// Whether two texts hold the same characters.
pub fn same(a: &str, b: &str) -> (r: bool)
    ensures
        r == (a@ == b@),
{
    *a == *b
}

/// Whether a text holds a character.
pub fn contains_char(s: &str, c: char) -> (r: bool)
    ensures
        r == s@.contains(c),
{
    let v = chars_of(s);
    for i in 0..v.len()
        invariant
            v@ == s@,
            forall|j: int| 0 <= j < i ==> v@[j] != c,
    {
        if v[i] == c {
            assert(s@[i as int] == c);
            return true;
        }
    }
    false
}

/// The views of a list of strings.
pub open spec fn texts(list: Seq<String>) -> Seq<Seq<char>> {
    list.map_values(|s: String| s@)
}

/// A copy of a list of strings.
pub fn clone_texts(list: &Vec<String>) -> (r: Vec<String>)
    ensures
        r@ == list@,
{
    let mut out: Vec<String> = Vec::new();
    for i in 0..list.len()
        invariant
            out@ == list@.take(i as int),
    {
        out.push(list[i].clone());
    }
    assert(list@.take(list@.len() as int) == list@);
    out
}

/// Whether `list` holds `text`.
pub fn list_contains(list: &Vec<String>, text: &str) -> (r: bool)
    ensures
        r == texts(list@).contains(text@),
{
    for i in 0..list.len()
        invariant
            forall|j: int| 0 <= j < i ==> texts(list@)[j] != text@,
    {
        if same(list[i].as_str(), text) {
            assert(texts(list@)[i as int] == text@);
            return true;
        }
    }
    false
}

// ---------------------------------------------------------------------------------------------
// Character by character rewriting
// ---------------------------------------------------------------------------------------------

/// Every character of `s` replaced by the text that `f` gives for it.
pub open spec fn flat_map(s: Seq<char>, f: spec_fn(char) -> Seq<char>) -> Seq<char>
    decreases s.len(),
{
    if s.len() == 0 {
        Seq::empty()
    } else {
        flat_map(s.drop_last(), f) + f(s.last())
    }
}

/// Rewriting one more character appends what it becomes.
pub proof fn lemma_flat_map_push(s: Seq<char>, c: char, f: spec_fn(char) -> Seq<char>)
    ensures
        flat_map(s.push(c), f) == flat_map(s, f) + f(c),
{
    assert(s.push(c).drop_last() == s);
}

/// Rewriting a concatenation is the concatenation of the rewritten parts.
pub proof fn lemma_flat_map_concat(a: Seq<char>, b: Seq<char>, f: spec_fn(char) -> Seq<char>)
    ensures
        flat_map(a + b, f) == flat_map(a, f) + flat_map(b, f),
    decreases b.len(),
{
    if b.len() == 0 {
        assert(a + b == a);
        assert(flat_map(a, f) + Seq::<char>::empty() == flat_map(a, f));
    } else {
        assert((a + b).drop_last() == a + b.drop_last());
        lemma_flat_map_concat(a, b.drop_last(), f);
        assert((flat_map(a, f) + flat_map(b.drop_last(), f)) + f(b.last()) == flat_map(a, f) + (
        flat_map(b.drop_last(), f) + f(b.last())));
    }
}

// ---------------------------------------------------------------------------------------------
// Trimming
// ---------------------------------------------------------------------------------------------

/// `s` without its leading whitespace.
pub open spec fn trim_start(s: Seq<char>) -> Seq<char>
    decreases s.len(),
{
    if s.len() > 0 && char_is_whitespace(s[0]) {
        trim_start(s.drop_first())
    } else {
        s
    }
}

/// `s` without its trailing whitespace.
pub open spec fn trim_end(s: Seq<char>) -> Seq<char>
    decreases s.len(),
{
    if s.len() > 0 && char_is_whitespace(s.last()) {
        trim_end(s.drop_last())
    } else {
        s
    }
}

/// `s` without its leading and trailing whitespace.
pub open spec fn trimmed(s: Seq<char>) -> Seq<char> {
    trim_end(trim_start(s))
}

/// The characters of `s` from `from` on, below `to`.
pub fn slice_of(s: &Vec<char>, from: usize, to: usize) -> (r: String)
    requires
        from <= to <= s@.len(),
    ensures
        r@ == s@.subrange(from as int, to as int),
{
    let mut out = String::new();
    for i in from..to
        invariant
            to <= s@.len(),
            from <= i,
            out@ == s@.subrange(from as int, i as int),
    {
        out.push(s[i]);
        assert(s@.subrange(from as int, i as int).push(s@[i as int]) == s@.subrange(
            from as int,
            i + 1,
        ));
    }
    out
}

/// The text without leading and trailing whitespace.
pub fn trim(s: &str) -> (r: String)
    ensures
        r@ == trimmed(s@),
{
    let v = chars_of(s);
    let mut from: usize = 0;
    assert(v@.skip(0) == v@);
    while from < v.len() && v[from].is_whitespace()
        invariant
            from <= v@.len(),
            trim_start(v@.skip(from as int)) == trim_start(v@),
        decreases v@.len() - from,
    {
        assert(v@.skip(from as int).drop_first() == v@.skip(from + 1));
        from = from + 1;
    }
    let mut to: usize = v.len();
    assert(trim_start(v@) == v@.skip(from as int));
    assert(v@.subrange(from as int, to as int) == v@.skip(from as int));
    while to > from && v[to - 1].is_whitespace()
        invariant
            from <= to <= v@.len(),
            trim_end(v@.subrange(from as int, to as int)) == trimmed(v@),
        decreases to,
    {
        assert(v@.subrange(from as int, to as int).drop_last() == v@.subrange(
            from as int,
            to - 1,
        ));
        to = to - 1;
    }
    slice_of(&v, from, to)
}

/// A text that neither starts nor ends with whitespace is its own trimmed form.
pub proof fn lemma_trimmed_ends(s: Seq<char>)
    ensures
        trimmed(s).len() > 0 ==> !char_is_whitespace(trimmed(s)[0]) && !char_is_whitespace(
            trimmed(s).last(),
        ),
        trimmed(trimmed(s)) == trimmed(s),
{
    lemma_trim_start(s);
    lemma_trim_end(trim_start(s));
}

proof fn lemma_trim_start(s: Seq<char>)
    ensures
        trim_start(s).len() > 0 ==> !char_is_whitespace(trim_start(s)[0]),
    decreases s.len(),
{
    if s.len() > 0 && char_is_whitespace(s[0]) {
        lemma_trim_start(s.drop_first());
    }
}

proof fn lemma_trim_end(s: Seq<char>)
    ensures
        trim_end(s).len() > 0 ==> !char_is_whitespace(trim_end(s).last()) && trim_end(s)[0] == s[0],
    decreases s.len(),
{
    if s.len() > 0 && char_is_whitespace(s.last()) {
        lemma_trim_end(s.drop_last());
    }
}

/// The text with its ASCII letters in lower case.
pub open spec fn ascii_lowercase(s: Seq<char>) -> Seq<char> {
    s.map_values(|c: char| ascii_lower(c))
}

/// `str::to_ascii_lowercase` on the characters of a text.
pub fn to_ascii_lower(s: &str) -> (r: String)
    ensures
        r@ == ascii_lowercase(s@),
{
    let v = chars_of(s);
    let mut out = String::new();
    for i in 0..v.len()
        invariant
            v@ == s@,
            out@ == ascii_lowercase(s@).take(i as int),
    {
        out.push(v[i].to_ascii_lowercase());
    }
    assert(ascii_lowercase(s@).take(v@.len() as int) == ascii_lowercase(s@));
    out
}

// ---------------------------------------------------------------------------------------------
// Lists of texts
// ---------------------------------------------------------------------------------------------

/// The view of an optional text.
pub open spec fn opt_text(text: Option<String>) -> Option<Seq<char>> {
    match text {
        Some(t) => Some(t@),
        None => None,
    }
}

/// Whether two lists hold the same texts in the same order.
pub fn same_texts(a: &Vec<String>, b: &Vec<String>) -> (r: bool)
    ensures
        r == (texts(a@) == texts(b@)),
{
    if a.len() != b.len() {
        assert(texts(a@).len() != texts(b@).len());
        return false;
    }
    for i in 0..a.len()
        invariant
            a@.len() == b@.len(),
            forall|j: int| 0 <= j < i ==> texts(a@)[j] == texts(b@)[j],
    {
        if !same(a[i].as_str(), b[i].as_str()) {
            assert(texts(a@)[i as int] != texts(b@)[i as int]);
            return false;
        }
    }
    assert(texts(a@) == texts(b@));
    true
}

/// Being one of some texts.
pub open spec fn is_listed(ids: Seq<Seq<char>>) -> spec_fn(Seq<char>) -> bool {
    |s: Seq<char>| ids.contains(s)
}

/// Being another text than the given one.
pub open spec fn is_other(text: Seq<char>) -> spec_fn(Seq<char>) -> bool {
    |s: Seq<char>| s != text
}

/// The texts of a list after one more.
pub proof fn lemma_texts_push(list: Seq<String>, text: String)
    ensures
        texts(list.push(text)) == texts(list).push(text@),
{
}

/// Keeping by a condition, one element further.
pub proof fn lemma_filter_step<A>(s: Seq<A>, i: int, keep: spec_fn(A) -> bool)
    requires
        0 <= i < s.len(),
    ensures
        s.take(i + 1).filter(keep) == (if keep(s[i]) {
            s.take(i).filter(keep).push(s[i])
        } else {
            s.take(i).filter(keep)
        }),
{
    reveal(Seq::filter);
    assert(s.take(i + 1).drop_last() == s.take(i));
    assert(s.take(i + 1).last() == s[i]);
}

/// Keeping nothing of nothing.
pub proof fn lemma_filter_none<A>(s: Seq<A>, keep: spec_fn(A) -> bool)
    ensures
        s.take(0).filter(keep) == Seq::<A>::empty(),
        s.take(s.len() as int) == s,
{
    reveal(Seq::filter);
}

/// Keeping by a condition makes no duplicates.
pub proof fn lemma_filter_unique<A>(s: Seq<A>, keep: spec_fn(A) -> bool)
    requires
        s.no_duplicates(),
    ensures
        s.filter(keep).no_duplicates(),
    decreases s.len(),
{
    reveal(Seq::filter);
    if s.len() > 0 {
        let before = s.drop_last();
        lemma_filter_unique(before, keep);
        let kept = before.filter(keep);
        assert forall|i: int| 0 <= i < kept.len() implies kept[i] != s.last() by {
            before.lemma_filter_contains_rev(keep, kept[i]);
            let j = choose|j: int| 0 <= j < before.len() && before[j] == kept[i];
            assert(s[j] == kept[i]);
        }
    }
}

/// The texts of `list` that `ids` holds too.
pub fn retain_listed(list: &Vec<String>, ids: &Vec<String>) -> (r: Vec<String>)
    ensures
        texts(r@) == texts(list@).filter(is_listed(texts(ids@))),
{
    let mut out: Vec<String> = Vec::new();
    let ghost all = texts(list@);
    let ghost keep = is_listed(texts(ids@));
    proof {
        lemma_filter_none(all, keep);
    }
    assert(texts(out@) == Seq::<Seq<char>>::empty());
    for i in 0..list.len()
        invariant
            all == texts(list@),
            keep == is_listed(texts(ids@)),
            texts(out@) == all.take(i as int).filter(keep),
    {
        proof {
            lemma_filter_step(all, i as int, keep);
        }
        if list_contains(ids, list[i].as_str()) {
            proof {
                lemma_texts_push(out@, list@[i as int]);
            }
            out.push(list[i].clone());
        }
    }
    proof {
        lemma_filter_none(all, keep);
    }
    out
}

/// The texts of `list` but `text`.
pub fn retain_other(list: &Vec<String>, text: &str) -> (r: Vec<String>)
    ensures
        texts(r@) == texts(list@).filter(is_other(text@)),
{
    let mut out: Vec<String> = Vec::new();
    let ghost all = texts(list@);
    let ghost keep = is_other(text@);
    proof {
        lemma_filter_none(all, keep);
    }
    assert(texts(out@) == Seq::<Seq<char>>::empty());
    for i in 0..list.len()
        invariant
            all == texts(list@),
            keep == is_other(text@),
            texts(out@) == all.take(i as int).filter(keep),
    {
        proof {
            lemma_filter_step(all, i as int, keep);
        }
        if !same(list[i].as_str(), text) {
            proof {
                lemma_texts_push(out@, list@[i as int]);
            }
            out.push(list[i].clone());
        }
    }
    proof {
        lemma_filter_none(all, keep);
    }
    out
}

/// Trimming takes away whitespace at both ends and nothing else: what remains stands in the text
/// from one place to another, everything outside is whitespace, and its ends are not.
pub proof fn law_trimmed(s: Seq<char>)
    ensures
        exists|from: int, to: int|
            0 <= from <= to <= s.len() && trimmed(s) == #[trigger] s.subrange(from, to) && (forall|
                i: int,
            |
                0 <= i < from ==> char_is_whitespace(#[trigger] s[i])) && (forall|i: int|
                to <= i < s.len() ==> char_is_whitespace(#[trigger] s[i])),
        trimmed(s).len() > 0 ==> !char_is_whitespace(trimmed(s)[0]) && !char_is_whitespace(
            trimmed(s).last(),
        ),
{
    lemma_trimmed_ends(s);
    lemma_trim_start_at(s);
    let rest = trim_start(s);
    lemma_trim_end_at(rest);
    let from = s.len() - rest.len();
    let to = from + trim_end(rest).len();
    assert(trimmed(s) == s.subrange(from, to)) by {
        assert(rest == s.skip(from));
        assert(trim_end(rest) == rest.take(to - from));
    }
    assert forall|i: int| to <= i < s.len() implies char_is_whitespace(#[trigger] s[i]) by {
        assert(rest[i - from] == s[i]);
    }
}

proof fn lemma_trim_start_at(s: Seq<char>)
    ensures
        trim_start(s).len() <= s.len(),
        trim_start(s) == s.skip(s.len() - trim_start(s).len()),
        forall|i: int|
            0 <= i < s.len() - trim_start(s).len() ==> char_is_whitespace(#[trigger] s[i]),
    decreases s.len(),
{
    if s.len() > 0 && char_is_whitespace(s[0]) {
        let rest = s.drop_first();
        lemma_trim_start_at(rest);
        let cut = s.len() - trim_start(s).len();
        assert(s.skip(cut) == rest.skip(cut - 1));
        assert forall|i: int| 0 <= i < cut implies char_is_whitespace(#[trigger] s[i]) by {
            if i > 0 {
                assert(rest[i - 1] == s[i]);
            }
        }
    } else {
        assert(s.skip(0) == s);
    }
}

proof fn lemma_trim_end_at(s: Seq<char>)
    ensures
        trim_end(s).len() <= s.len(),
        trim_end(s) == s.take(trim_end(s).len() as int),
        forall|i: int| trim_end(s).len() <= i < s.len() ==> char_is_whitespace(#[trigger] s[i]),
    decreases s.len(),
{
    if s.len() > 0 && char_is_whitespace(s.last()) {
        let rest = s.drop_last();
        lemma_trim_end_at(rest);
        let cut = trim_end(s).len() as int;
        assert(s.take(cut) == rest.take(cut));
        assert forall|i: int| cut <= i < s.len() implies char_is_whitespace(#[trigger] s[i]) by {
            if i < s.len() - 1 {
                assert(rest[i] == s[i]);
            }
        }
    } else {
        assert(s.take(s.len() as int) == s);
    }
}

/// What is kept holds each value as often as the list does, and none that is not kept.
pub proof fn lemma_filter_count<A>(s: Seq<A>, keep: spec_fn(A) -> bool, x: A)
    ensures
        keep(x) ==> s.filter(keep).to_multiset().count(x) == s.to_multiset().count(x),
        !keep(x) ==> s.filter(keep).to_multiset().count(x) == 0,
    decreases s.len(),
{
    broadcast use vstd::seq_lib::group_to_multiset_ensures;

    reveal(Seq::filter);
    if s.len() > 0 {
        lemma_filter_count(s.drop_last(), keep, x);
        assert(s == s.drop_last().push(s.last()));
    } else {
        assert(s.filter(keep) == s);
    }
}

/// What is kept stands in the list.
pub proof fn lemma_filtered_is_listed<A>(s: Seq<A>, keep: spec_fn(A) -> bool, i: int)
    requires
        0 <= i < s.filter(keep).len(),
    ensures
        s.contains(s.filter(keep)[i]),
        keep(s.filter(keep)[i]),
    decreases s.len(),
{
    reveal(Seq::filter);
    let rest = s.drop_last();
    if i < rest.filter(keep).len() {
        lemma_filtered_is_listed(rest, keep, i);
        let k = choose|k: int| 0 <= k < rest.len() && rest[k] == rest.filter(keep)[i];
        assert(s[k] == rest[k]);
    } else {
        assert(s[s.len() - 1] == s.last());
    }
}

/// A text without whitespace at its ends is trimmed as it is.
pub proof fn lemma_already_trimmed(s: Seq<char>)
    requires
        s.len() > 0 ==> !char_is_whitespace(s[0]) && !char_is_whitespace(s.last()),
    ensures
        trimmed(s) == s,
{
}

/// In ASCII lower case the letters from A to Z become those from a to z, and every other
/// character stays; the case of letters then makes no difference.
pub proof fn law_ascii_lowercase(s: Seq<char>)
    ensures
        ascii_lowercase(s).len() == s.len(),
        forall|i: int|
            0 <= i < s.len() ==> if 'A' <= s[i] <= 'Z' {
                (#[trigger] ascii_lowercase(s)[i]) as int - s[i] as int == 'a' as int - 'A' as int
            } else {
                ascii_lowercase(s)[i] == s[i]
            },
        ascii_lowercase(ascii_lowercase(s)) == ascii_lowercase(s),
{
}

} // verus!
