//! Finding, splitting, joining and ordering texts.

use vstd::prelude::*;

use crate::text::{chars_of, slice_of, texts};

verus! {

/// Whether `pattern` stands in `s` at position `at`.
pub open spec fn stands_at(s: Seq<char>, pattern: Seq<char>, at: int) -> bool {
    0 <= at && at + pattern.len() <= s.len() && s.subrange(at, at + pattern.len()) == pattern
}

/// Whether `pattern` stands anywhere in `s`.
pub open spec fn holds_text(s: Seq<char>, pattern: Seq<char>) -> bool {
    exists|at: int| stands_at(s, pattern, at)
}

/// Whether `s` starts with `prefix`.
pub open spec fn starts_with_text(s: Seq<char>, prefix: Seq<char>) -> bool {
    stands_at(s, prefix, 0)
}

/// Whether `at` is the first position of `pattern` in `s`.
pub open spec fn first_at(s: Seq<char>, pattern: Seq<char>, at: int) -> bool {
    stands_at(s, pattern, at) && forall|j: int| 0 <= j < at ==> !stands_at(s, pattern, j)
}

/// Tests whether `pattern` stands in `s` at `at`.
pub fn matches_at(s: &Vec<char>, pattern: &Vec<char>, at: usize) -> (r: bool)
    requires
        at <= s@.len(),
    ensures
        r == stands_at(s@, pattern@, at as int),
{
    if pattern.len() > s.len() - at {
        return false;
    }
    for i in 0..pattern.len()
        invariant
            at + pattern.len() <= s.len(),
            forall|j: int| 0 <= j < i ==> s@[at + j] == pattern@[j],
    {
        if s[at + i] != pattern[i] {
            assert(s@.subrange(at as int, at + pattern@.len())[i as int] != pattern@[i as int]);
            return false;
        }
    }
    assert(s@.subrange(at as int, at + pattern@.len()) == pattern@);
    true
}

/// The first position of `pattern` in `s`, counted in characters.
pub fn find_text(s: &Vec<char>, pattern: &Vec<char>) -> (r: Option<usize>)
    ensures
        match r {
            Some(at) => first_at(s@, pattern@, at as int),
            None => !holds_text(s@, pattern@),
        },
{
    if pattern.len() > s.len() {
        return None;
    }
    let last: usize = s.len() - pattern.len();
    let mut at: usize = 0;
    while at <= last
        invariant
            last == s@.len() - pattern@.len(),
            at <= last + 1,
            forall|j: int| 0 <= j < at ==> !stands_at(s@, pattern@, j),
        decreases last + 1 - at,
    {
        if matches_at(s, pattern, at) {
            return Some(at);
        }
        if at == last {
            return None;
        }
        at = at + 1;
    }
    None
}

/// Whether `pattern` stands in `s`.
pub fn contains_text(s: &str, pattern: &str) -> (r: bool)
    ensures
        r == holds_text(s@, pattern@),
{
    find_text(&chars_of(s), &chars_of(pattern)).is_some()
}

/// Whether `s` starts with `prefix`.
pub fn starts_with(s: &str, prefix: &str) -> (r: bool)
    ensures
        r == starts_with_text(s@, prefix@),
{
    matches_at(&chars_of(s), &chars_of(prefix), 0)
}

/// The first position of a pattern is unique.
pub proof fn lemma_first_at_unique(s: Seq<char>, pattern: Seq<char>, a: int, b: int)
    requires
        first_at(s, pattern, a),
        first_at(s, pattern, b),
    ensures
        a == b,
{
}

// ---------------------------------------------------------------------------------------------
// Splitting and joining
// ---------------------------------------------------------------------------------------------

/// The pieces of `s` between the characters that satisfy `cut`; one more than there are cuts.
pub open spec fn split_by(s: Seq<char>, cut: spec_fn(char) -> bool) -> Seq<Seq<char>>
    decreases s.len(),
{
    if s.len() == 0 {
        seq![Seq::empty()]
    } else {
        let pieces = split_by(s.drop_last(), cut);
        if cut(s.last()) {
            pieces.push(Seq::empty())
        } else {
            pieces.update(pieces.len() - 1, pieces.last().push(s.last()))
        }
    }
}

/// Being a given character.
pub open spec fn is_char(sep: char) -> spec_fn(char) -> bool {
    |c: char| c == sep
}

/// Being whitespace.
pub open spec fn is_space() -> spec_fn(char) -> bool {
    |c: char| crate::text::char_is_whitespace(c)
}

/// Holding at least one character.
pub open spec fn is_filled() -> spec_fn(Seq<char>) -> bool {
    |w: Seq<char>| w.len() > 0
}

/// The pieces of `s` between the occurrences of `sep`.
pub open spec fn split_on(s: Seq<char>, sep: char) -> Seq<Seq<char>> {
    split_by(s, is_char(sep))
}

/// The pieces of `s` that hold something, between stretches of whitespace.
pub open spec fn words(s: Seq<char>) -> Seq<Seq<char>> {
    split_by(s, is_space()).filter(is_filled())
}

/// The pieces of a list, with `sep` between each two.
pub open spec fn join(pieces: Seq<Seq<char>>, sep: Seq<char>) -> Seq<char>
    decreases pieces.len(),
{
    if pieces.len() == 0 {
        Seq::empty()
    } else if pieces.len() == 1 {
        pieces[0]
    } else {
        join(pieces.drop_last(), sep) + sep + pieces.last()
    }
}

/// A text has at least one piece.
pub proof fn lemma_split_some(s: Seq<char>, cut: spec_fn(char) -> bool)
    ensures
        split_by(s, cut).len() > 0,
    decreases s.len(),
{
    if s.len() > 0 {
        lemma_split_some(s.drop_last(), cut);
    }
}

/// No piece holds a character at which the text is cut.
pub proof fn lemma_pieces_uncut(s: Seq<char>, cut: spec_fn(char) -> bool, i: int, j: int)
    requires
        0 <= i < split_by(s, cut).len(),
        0 <= j < split_by(s, cut)[i].len(),
    ensures
        !cut(split_by(s, cut)[i][j]),
    decreases s.len(),
{
    if s.len() > 0 {
        lemma_split_some(s.drop_last(), cut);
        let pieces = split_by(s.drop_last(), cut);
        if i < pieces.len() && j < pieces[i].len() {
            lemma_pieces_uncut(s.drop_last(), cut, i, j);
        }
    }
}

/// `str::split` on one character.
pub fn split_text(s: &str, sep: char) -> (r: Vec<String>)
    ensures
        texts(r@) == split_on(s@, sep),
{
    let v = chars_of(s);
    let ghost cut = is_char(sep);
    let mut done: Vec<String> = Vec::new();
    let mut piece: String = String::new();
    for i in 0..v.len()
        invariant
            cut == is_char(sep),
            texts(done@).push(piece@) == split_by(v@.take(i as int), cut),
    {
        assert(v@.take(i + 1).drop_last() == v@.take(i as int));
        let ghost pieces = split_by(v@.take(i as int), cut);
        assert(pieces.last() == piece@ && pieces.drop_last() == texts(done@));
        if v[i] == sep {
            let ghost before = done@;
            let ghost last = piece@;
            done.push(piece);
            piece = String::new();
            assert(texts(done@) == texts(before).push(last));
        } else {
            let ghost last = piece@;
            piece.push(v[i]);
            assert(texts(done@).push(last.push(v@[i as int])) == pieces.update(
                pieces.len() - 1,
                pieces.last().push(v@[i as int]),
            ));
        }
    }
    assert(v@.take(v@.len() as int) == s@);
    let ghost before = done@;
    let ghost last = piece@;
    done.push(piece);
    assert(texts(done@) == texts(before).push(last));
    done
}

/// `str::split_whitespace`: the words of a text.
pub fn split_words(s: &str) -> (r: Vec<String>)
    ensures
        texts(r@) == words(s@),
{
    let v = chars_of(s);
    let ghost cut = is_space();
    let ghost some = is_filled();
    let mut done: Vec<String> = Vec::new();
    let mut piece: String = String::new();
    let ghost mut all: Seq<Seq<char>> = Seq::empty();
    assert(all.filter(some) == Seq::<Seq<char>>::empty()) by {
        reveal(Seq::filter);
    }
    assert(texts(done@) == all.filter(some));
    for i in 0..v.len()
        invariant
            cut == is_space(),
            some == is_filled(),
            all.push(piece@) == split_by(v@.take(i as int), cut),
            texts(done@) == all.filter(some),
    {
        assert(v@.take(i + 1).drop_last() == v@.take(i as int));
        let ghost pieces = split_by(v@.take(i as int), cut);
        assert(pieces.last() == piece@ && pieces.drop_last() == all);
        if v[i].is_whitespace() {
            let ghost before = done@;
            let ghost last = piece@;
            let ghost old_all = all;
            proof {
                all = all.push(piece@);
                reveal(Seq::filter);
                assert(all.drop_last() == old_all);
            }
            if piece.as_str().is_empty() {
            } else {
                done.push(piece);
                assert(texts(done@) == texts(before).push(last));
            }
            piece = String::new();
        } else {
            let ghost last = piece@;
            piece.push(v[i]);
            assert(all.push(last.push(v@[i as int])) == pieces.update(
                pieces.len() - 1,
                pieces.last().push(v@[i as int]),
            ));
        }
    }
    assert(v@.take(v@.len() as int) == s@);
    let ghost before = done@;
    let ghost last = piece@;
    proof {
        reveal(Seq::filter);
        assert(all.push(last).drop_last() == all);
    }
    if piece.as_str().is_empty() {
    } else {
        done.push(piece);
        assert(texts(done@) == texts(before).push(last));
    }
    done
}

/// The strings of a list, with `sep` between each two.
pub fn join_texts(list: &Vec<String>, sep: &str) -> (r: String)
    ensures
        r@ == join(texts(list@), sep@),
{
    let mut out = String::new();
    let ghost all = texts(list@);
    for i in 0..list.len()
        invariant
            all == texts(list@),
            out@ == join(all.take(i as int), sep@),
    {
        assert(all.take(i + 1).drop_last() == all.take(i as int));
        if i > 0 {
            out.append(sep);
        }
        out.append(list[i].as_str());
        assert(all.take(i + 1).last() == list@[i as int]@);
        if i == 0 {
            assert(Seq::<char>::empty() + list@[0]@ == list@[0]@);
        }
    }
    assert(all.take(list@.len() as int) == all);
    out
}

/// The first position of a character.
pub open spec fn index_of_char(s: Seq<char>, c: char) -> Option<int>
    decreases s.len(),
{
    if s.len() == 0 {
        None
    } else {
        match index_of_char(s.drop_last(), c) {
            Some(at) => Some(at),
            None => if s.last() == c {
                Some(s.len() - 1)
            } else {
                None
            },
        }
    }
}

/// What stands before and behind the first occurrence of a character.
pub open spec fn cut_once(s: Seq<char>, c: char) -> Option<(Seq<char>, Seq<char>)> {
    match index_of_char(s, c) {
        Some(at) => Some((s.take(at), s.skip(at + 1))),
        None => None,
    }
}

/// A character that is found early is found in the whole text.
proof fn lemma_index_of_prefix(s: Seq<char>, c: char, i: int)
    requires
        0 <= i <= s.len(),
        index_of_char(s.take(i), c) is Some,
    ensures
        index_of_char(s, c) == index_of_char(s.take(i), c),
    decreases s.len() - i,
{
    if i == s.len() {
        assert(s.take(i) == s);
    } else {
        assert(s.take(i + 1).drop_last() == s.take(i));
        lemma_index_of_prefix(s, c, i + 1);
    }
}

/// `str::split_once` on one character.
pub fn split_once(s: &str, c: char) -> (r: Option<(String, String)>)
    ensures
        match r {
            Some(pair) => cut_once(s@, c) == Some((pair.0@, pair.1@)),
            None => cut_once(s@, c) is None,
        },
{
    let v = chars_of(s);
    for i in 0..v.len()
        invariant
            v@ == s@,
            index_of_char(v@.take(i as int), c) is None,
    {
        assert(v@.take(i + 1).drop_last() == v@.take(i as int));
        if v[i] == c {
            proof {
                lemma_index_of_prefix(v@, c, i + 1);
                assert(v@.subrange(0, i as int) == v@.take(i as int));
                assert(v@.subrange(i + 1, v@.len() as int) == v@.skip(i + 1));
            }
            return Some((slice_of(&v, 0, i), slice_of(&v, i + 1, v.len())));
        }
    }
    assert(v@.take(v@.len() as int) == v@);
    None
}

// ---------------------------------------------------------------------------------------------
// Replacing
// ---------------------------------------------------------------------------------------------

/// `s` with every occurrence of `pattern`, taken from the left without overlap, replaced by
/// `with`.
pub open spec fn replaced(s: Seq<char>, pattern: Seq<char>, with: Seq<char>) -> Seq<char>
    decreases s.len(),
{
    if s.len() == 0 {
        Seq::empty()
    } else if pattern.len() > 0 && stands_at(s, pattern, 0) {
        with + replaced(s.skip(pattern.len() as int), pattern, with)
    } else {
        seq![s[0]] + replaced(s.drop_first(), pattern, with)
    }
}

/// `str::replace` for a pattern that holds something.
pub fn replace_text(s: &str, pattern: &str, with: &str) -> (r: String)
    requires
        pattern@.len() > 0,
    ensures
        r@ == replaced(s@, pattern@, with@),
{
    let v = chars_of(s);
    let p = chars_of(pattern);
    let mut out = String::new();
    let mut i: usize = 0;
    assert(v@.skip(0) == v@);
    assert(out@ + replaced(v@, p@, with@) == replaced(v@, p@, with@));
    while i < v.len()
        invariant
            i <= v@.len(),
            v@ == s@,
            p@ == pattern@,
            p@.len() > 0,
            out@ + replaced(v@.skip(i as int), p@, with@) == replaced(v@, p@, with@),
        decreases v@.len() - i,
    {
        let ghost rest = v@.skip(i as int);
        let ghost before = out@;
        if matches_at(&v, &p, i) {
            assert(v@.subrange(i as int, i + p@.len()) == rest.subrange(0, p@.len() as int));
            assert(stands_at(rest, p@, 0));
            out.append(with);
            assert(rest.skip(p@.len() as int) == v@.skip(i + p@.len()));
            assert(before + (with@ + replaced(v@.skip(i + p@.len()), p@, with@)) == out@ + replaced(
                v@.skip(i + p@.len()),
                p@,
                with@,
            ));
            i = i + p.len();
        } else {
            assert(stands_at(rest, p@, 0) ==> v@.subrange(i as int, i + p@.len())
                == rest.subrange(0, p@.len() as int));
            out.push(v[i]);
            assert(rest.drop_first() == v@.skip(i + 1));
            assert(before + (seq![v@[i as int]] + replaced(v@.skip(i + 1), p@, with@)) == out@
                + replaced(v@.skip(i + 1), p@, with@));
            i = i + 1;
        }
    }
    assert(v@.skip(i as int).len() == 0);
    assert(out@ + Seq::<char>::empty() == out@);
    out
}

// ---------------------------------------------------------------------------------------------
// Order
// ---------------------------------------------------------------------------------------------

/// The order of texts: by the first character that differs, a proper prefix first.
pub open spec fn text_less(a: Seq<char>, b: Seq<char>) -> bool
    decreases a.len(),
{
    if b.len() == 0 {
        false
    } else if a.len() == 0 {
        true
    } else if a[0] == b[0] {
        text_less(a.drop_first(), b.drop_first())
    } else {
        a[0] < b[0]
    }
}

/// Whether `a` comes before `b`.
pub fn less(a: &str, b: &str) -> (r: bool)
    ensures
        r == text_less(a@, b@),
{
    let x = chars_of(a);
    let y = chars_of(b);
    let mut i: usize = 0;
    assert(x@.skip(0) == x@ && y@.skip(0) == y@);
    while i < x.len() && i < y.len() && x[i] == y[i]
        invariant
            i <= x@.len(),
            i <= y@.len(),
            text_less(x@.skip(i as int), y@.skip(i as int)) == text_less(x@, y@),
        decreases x@.len() - i,
    {
        assert(x@.skip(i as int).drop_first() == x@.skip(i + 1));
        assert(y@.skip(i as int).drop_first() == y@.skip(i + 1));
        i = i + 1;
    }
    if i == y.len() {
        false
    } else if i == x.len() {
        true
    } else {
        x[i] < y[i]
    }
}

/// No text comes before itself.
pub proof fn lemma_less_irreflexive(a: Seq<char>)
    ensures
        !text_less(a, a),
    decreases a.len(),
{
    if a.len() > 0 {
        lemma_less_irreflexive(a.drop_first());
    }
}

/// The order of texts is transitive.
pub proof fn lemma_less_transitive(a: Seq<char>, b: Seq<char>, c: Seq<char>)
    requires
        text_less(a, b),
        text_less(b, c),
    ensures
        text_less(a, c),
    decreases a.len(),
{
    if a.len() > 0 && a[0] == b[0] && b[0] == c[0] {
        lemma_less_transitive(a.drop_first(), b.drop_first(), c.drop_first());
    }
}

/// Of two different texts one comes before the other.
pub proof fn lemma_less_total(a: Seq<char>, b: Seq<char>)
    ensures
        a == b || text_less(a, b) || text_less(b, a),
    decreases a.len(),
{
    if a.len() == 0 && b.len() == 0 {
        assert(a == b);
    } else if a.len() > 0 && b.len() > 0 && a[0] == b[0] {
        lemma_less_total(a.drop_first(), b.drop_first());
        if a.drop_first() == b.drop_first() {
            assert(a == seq![a[0]] + a.drop_first());
            assert(b == seq![b[0]] + b.drop_first());
        }
    }
}

/// What stands in a text stands in every text around it.
pub proof fn lemma_holds_inside(a: Seq<char>, s: Seq<char>, b: Seq<char>, pattern: Seq<char>)
    requires
        holds_text(s, pattern),
    ensures
        holds_text(a + s + b, pattern),
{
    let at = choose|at: int| stands_at(s, pattern, at);
    let all = a + s + b;
    let there = a.len() + at;
    assert(all.subrange(there, there + pattern.len()) == s.subrange(at, at + pattern.len()));
    assert(stands_at(all, pattern, there));
}

/// How a text starts, every longer text starts too.
pub proof fn lemma_starts_more(s: Seq<char>, more: Seq<char>, prefix: Seq<char>)
    requires
        starts_with_text(s, prefix),
    ensures
        starts_with_text(s + more, prefix),
{
    assert((s + more).subrange(0, prefix.len() as int) == s.subrange(0, prefix.len() as int));
}

/// What stands in a text stands in every longer text.
pub proof fn lemma_holds_more(s: Seq<char>, more: Seq<char>, pattern: Seq<char>)
    requires
        holds_text(s, pattern),
    ensures
        holds_text(s + more, pattern),
{
    let none = Seq::<char>::empty();
    lemma_holds_inside(none, s, more, pattern);
    assert(none + s + more == s + more);
}

/// Joining puts the separator between each two pieces, and changes nothing else: one piece is
/// itself, and one more piece stands behind the separator.
pub proof fn law_join(pieces: Seq<Seq<char>>, sep: Seq<char>, last: Seq<char>)
    ensures
        join(seq![last], sep) == last,
        pieces.len() > 0 ==> join(pieces.push(last), sep) == join(pieces, sep) + sep + last,
{
    assert(pieces.push(last).drop_last() == pieces);
}

/// Splitting at a separator gives what stands before it and what stands behind it, each split in
/// turn; a text without a separator is one piece.
pub proof fn law_split_on(a: Seq<char>, b: Seq<char>, sep: char)
    ensures
        split_on(a + seq![sep] + b, sep) == split_on(a, sep) + split_on(b, sep),
        !a.contains(sep) ==> split_on(a, sep) == seq![a],
{
    lemma_split_cut(a, sep, b, is_char(sep));
    if !a.contains(sep) {
        assert forall|i: int| 0 <= i < a.len() implies !is_char(sep)(#[trigger] a[i]) by {}
        lemma_split_uncut(a, is_char(sep));
    }
}

proof fn lemma_split_cut(a: Seq<char>, c: char, b: Seq<char>, cut: spec_fn(char) -> bool)
    requires
        cut(c),
    ensures
        split_by(a + seq![c] + b, cut) == split_by(a, cut) + split_by(b, cut),
    decreases b.len(),
{
    let all = a + seq![c] + b;
    if b.len() == 0 {
        assert(all.drop_last() == a);
        assert(split_by(a, cut).push(Seq::empty()) == split_by(a, cut) + split_by(b, cut));
    } else {
        lemma_split_cut(a, c, b.drop_last(), cut);
        lemma_split_some(b.drop_last(), cut);
        assert(all.drop_last() == a + seq![c] + b.drop_last());
        let left = split_by(a, cut);
        let right = split_by(b.drop_last(), cut);
        if cut(b.last()) {
            assert((left + right).push(Seq::empty()) == left + right.push(Seq::empty()));
        } else {
            let whole = left + right;
            assert(whole.last() == right.last());
            assert(whole.update(whole.len() - 1, whole.last().push(b.last())) == left
                + right.update(right.len() - 1, right.last().push(b.last())));
        }
    }
}

proof fn lemma_split_uncut(s: Seq<char>, cut: spec_fn(char) -> bool)
    requires
        forall|i: int| 0 <= i < s.len() ==> !cut(#[trigger] s[i]),
    ensures
        split_by(s, cut) == seq![s],
    decreases s.len(),
{
    if s.len() > 0 {
        let rest = s.drop_last();
        assert forall|i: int| 0 <= i < rest.len() implies !cut(#[trigger] rest[i]) by {
            assert(!cut(s[i]));
        }
        lemma_split_uncut(rest, cut);
        assert(!cut(s[s.len() - 1]));
        assert(seq![rest].update(0, rest.push(s.last())) == seq![s]) by {
            assert(rest.push(s.last()) == s);
        }
    } else {
        assert(s == Seq::<char>::empty());
    }
}

/// The words of two texts with whitespace between them are those of the first and then those of
/// the second. A text without whitespace that holds something is one word, an empty one is none.
pub proof fn law_words(a: Seq<char>, c: char, b: Seq<char>)
    requires
        crate::text::char_is_whitespace(c),
    ensures
        words(a + seq![c] + b) == words(a) + words(b),
        words(Seq::<char>::empty()) == Seq::<Seq<char>>::empty(),
        a.len() > 0 && (forall|i: int|
            0 <= i < a.len() ==> !crate::text::char_is_whitespace(#[trigger] a[i])) ==> words(a)
            == seq![a],
{
    reveal(Seq::filter);
    lemma_split_cut(a, c, b, is_space());
    lemma_filter_sum(split_by(a, is_space()), split_by(b, is_space()), is_filled());
    let none = seq![Seq::<char>::empty()];
    assert(none.drop_last() == Seq::<Seq<char>>::empty());
    assert(none.last() == Seq::<char>::empty());
    assert(!is_filled()(none.last()));
    assert(none.drop_last().filter(is_filled()) == Seq::<Seq<char>>::empty());
    assert(none.filter(is_filled()) == Seq::<Seq<char>>::empty());
    if a.len() > 0 && (forall|i: int|
        0 <= i < a.len() ==> !crate::text::char_is_whitespace(#[trigger] a[i])) {
        assert forall|i: int| 0 <= i < a.len() implies !is_space()(#[trigger] a[i]) by {}
        lemma_split_uncut(a, is_space());
        assert(seq![a].drop_last() == Seq::<Seq<char>>::empty());
        assert(seq![a].filter(is_filled()) == seq![a]);
    }
}

/// Keeping in a sum is the sum of what is kept.
pub proof fn lemma_filter_sum<A>(a: Seq<A>, b: Seq<A>, keep: spec_fn(A) -> bool)
    ensures
        (a + b).filter(keep) == a.filter(keep) + b.filter(keep),
    decreases b.len(),
{
    reveal(Seq::filter);
    if b.len() == 0 {
        assert(a + b == a);
        assert(a.filter(keep) + b.filter(keep) == a.filter(keep));
    } else {
        lemma_filter_sum(a, b.drop_last(), keep);
        assert((a + b).drop_last() == a + b.drop_last());
        assert((a + b).last() == b.last());
        if keep(b.last()) {
            assert((a.filter(keep) + b.drop_last().filter(keep)).push(b.last()) == a.filter(keep)
                + b.drop_last().filter(keep).push(b.last()));
        }
    }
}

/// Cutting once gives what stands before and behind the first occurrence; a text without one is
/// not cut.
pub proof fn law_cut_once(a: Seq<char>, c: char, b: Seq<char>)
    requires
        !a.contains(c),
    ensures
        cut_once(a + seq![c] + b, c) == Some((a, b)),
        cut_once(a, c) is None,
{
    let all = a + seq![c] + b;
    lemma_index_absent(a, c);
    assert(all.take(a.len() + 1int).drop_last() == a);
    assert(all.take(a.len() + 1int).last() == c);
    lemma_index_of_prefix(all, c, a.len() + 1int);
    assert(all.take(a.len() as int) == a);
    assert(all.skip(a.len() + 1int) == b);
}

proof fn lemma_index_absent(s: Seq<char>, c: char)
    requires
        !s.contains(c),
    ensures
        index_of_char(s, c) is None,
    decreases s.len(),
{
    if s.len() > 0 {
        if s.drop_last().contains(c) {
            let i = choose|i: int| 0 <= i < s.drop_last().len() && s.drop_last()[i] == c;
            assert(s[i] == c);
        }
        lemma_index_absent(s.drop_last(), c);
        assert(s[s.len() - 1] != c);
    }
}

/// A text without the pattern stays as it is; the first occurrence of the pattern is replaced, what
/// stands before it stays, and the rest is replaced in turn.
pub proof fn law_replaced(s: Seq<char>, pattern: Seq<char>, with: Seq<char>, at: int)
    requires
        pattern.len() > 0,
    ensures
        !holds_text(s, pattern) ==> replaced(s, pattern, with) == s,
        first_at(s, pattern, at) ==> replaced(s, pattern, with) == s.take(at) + with + replaced(
            s.skip(at + pattern.len()),
            pattern,
            with,
        ),
    decreases s.len(),
{
    if s.len() == 0 {
        if first_at(s, pattern, at) {
            assert(false);
        }
        assert(s == Seq::<char>::empty());
    } else {
        let rest = s.drop_first();
        if !holds_text(s, pattern) {
            if holds_text(rest, pattern) {
                let j = choose|j: int| stands_at(rest, pattern, j);
                assert(s.subrange(j + 1, j + 1 + pattern.len()) == rest.subrange(
                    j,
                    j + pattern.len(),
                ));
                assert(stands_at(s, pattern, j + 1));
            }
            law_replaced(rest, pattern, with, 0);
            assert(!stands_at(s, pattern, 0));
            assert(seq![s[0]] + rest == s);
        }
        if first_at(s, pattern, at) {
            if at == 0 {
                assert(s.take(0) + with == with);
            } else {
                assert(!stands_at(s, pattern, 0));
                assert(rest.subrange(at - 1, at - 1 + pattern.len()) == s.subrange(
                    at,
                    at + pattern.len(),
                ));
                assert forall|j: int| 0 <= j < at - 1 implies !stands_at(rest, pattern, j) by {
                    if stands_at(rest, pattern, j) {
                        assert(s.subrange(j + 1, j + 1 + pattern.len()) == rest.subrange(
                            j,
                            j + pattern.len(),
                        ));
                        assert(stands_at(s, pattern, j + 1));
                    }
                }
                law_replaced(rest, pattern, with, at - 1);
                let tail = replaced(s.skip(at + pattern.len()), pattern, with);
                assert(rest.skip(at - 1 + pattern.len()) == s.skip(at + pattern.len()));
                assert(seq![s[0]] + (rest.take(at - 1) + with + tail) == s.take(at) + with + tail);
            }
        }
    }
}

/// A text comes before every text that goes on where it ends, and of two texts that differ after a
/// common start the one with the smaller character comes first.
pub proof fn law_text_order(common: Seq<char>, a: char, s: Seq<char>, b: char, t: Seq<char>)
    requires
        a < b,
    ensures
        text_less(common, common + seq![b] + t),
        !text_less(common + seq![b] + t, common),
        text_less(common + seq![a] + s, common + seq![b] + t),
        !text_less(common + seq![b] + t, common + seq![a] + s),
    decreases common.len(),
{
    let low = common + seq![a] + s;
    let high = common + seq![b] + t;
    if common.len() > 0 {
        let rest = common.drop_first();
        law_text_order(rest, a, s, b, t);
        assert(low.drop_first() == rest + seq![a] + s);
        assert(high.drop_first() == rest + seq![b] + t);
    } else {
        assert(low[0] == a && high[0] == b);
    }
}

/// Three pieces in a row stand at the end of a text that ends with them.
pub proof fn lemma_holds_last_three(base: Seq<char>, a: Seq<char>, x: Seq<char>, b: Seq<char>)
    ensures
        holds_text(base + a + x + b, a + x + b),
{
    let all = base + a + x + b;
    let last = a + x + b;
    let at = base.len() as int;
    assert(all.subrange(at, at + last.len()) == last);
    assert(stands_at(all, last, at));
}

} // verus!
