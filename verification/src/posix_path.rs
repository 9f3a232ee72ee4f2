//! Paths of a remote host: absolute, with slashes, whatever the local platform.

use vstd::prelude::*;

use crate::curl::{trim_slashes, without_slashes};
use crate::search::{is_char, join, join_texts, split_on, split_text};
use crate::text::{char_is_whitespace, chars_of, contains_char, same, slice_of, texts, trim, trimmed};

verus! {

/// What is left of the pieces of a path: an empty piece and a dot stand for nothing, two dots
/// take the piece before away.
pub open spec fn resolved(pieces: Seq<Seq<char>>) -> Seq<Seq<char>>
    decreases pieces.len(),
{
    if pieces.len() == 0 {
        Seq::empty()
    } else {
        let before = resolved(pieces.drop_last());
        let piece = pieces.last();
        if piece.len() == 0 || piece == "."@ {
            before
        } else if piece == ".."@ {
            if before.len() > 0 {
                before.drop_last()
            } else {
                before
            }
        } else {
            before.push(piece)
        }
    }
}

/// A path of these components.
pub open spec fn rendered(components: Seq<Seq<char>>) -> Seq<char> {
    if components.len() == 0 {
        "/"@
    } else {
        "/"@ + join(components, "/"@)
    }
}

/// The components of a path.
pub open spec fn components_of(path: Seq<char>) -> Seq<Seq<char>> {
    resolved(split_on(trimmed(path), '/'))
}

/// Whether a text is an absolute path.
pub open spec fn is_absolute(path: Seq<char>) -> bool {
    trimmed(path).len() > 0 && trimmed(path)[0] == '/'
}

/// Tells that a path is not absolute.
pub const NOT_ABSOLUTE: &'static str = "Remote path must be absolute and start with /";

/// The path without dots, empty pieces and a trailing slash; only an absolute path has one.
pub fn normalize_posix_path(path: &str) -> (r: Result<String, &'static str>)
    ensures
        r is Ok <==> is_absolute(path@),
        r matches Ok(text) ==> text@ == rendered(components_of(path@)),
        r matches Err(message) ==> message@ == NOT_ABSOLUTE@,
        r matches Err(message) ==> message@ == "Remote path must be absolute and start with /"@,
{
    let path = trim(path);
    let v = chars_of(path.as_str());
    if v.len() == 0 || v[0] != '/' {
        return Err(NOT_ABSOLUTE);
    }
    let pieces = split_text(path.as_str(), '/');
    let ghost all = texts(pieces@);
    let mut components: Vec<String> = Vec::new();
    assert(texts(components@) == resolved(all.take(0)));
    for i in 0..pieces.len()
        invariant
            all == texts(pieces@),
            texts(components@) == resolved(all.take(i as int)),
    {
        let piece = pieces[i].as_str();
        assert(all.take(i + 1).drop_last() == all.take(i as int));
        assert(all.take(i + 1).last() == piece@);
        let ghost before = components@;
        if piece.is_empty() || same(piece, ".") {
        } else if same(piece, "..") {
            let _last = components.pop();
            proof {
                if before.len() > 0 {
                    assert(texts(components@) == texts(before).drop_last());
                }
            }
        } else {
            let copy = pieces[i].clone();
            components.push(copy);
            assert(texts(components@) == texts(before).push(piece@));
        }
    }
    assert(all.take(pieces@.len() as int) == all);
    if components.len() == 0 {
        assert(texts(components@).len() == 0);
        Ok("/".to_owned())
    } else {
        let mut out = String::from_str("/");
        out.append(join_texts(&components, "/").as_str());
        Ok(out)
    }
}

/// The path of a child of a directory.
pub open spec fn joined(parent: Seq<char>, child: Seq<char>) -> Seq<char> {
    let base = without_slashes(parent);
    if base.len() == 0 {
        "/"@ + child
    } else if child.len() == 0 {
        base
    } else {
        base + "/"@ + child
    }
}

/// The path of a child of a directory.
pub fn posix_join(parent: &str, child: &str) -> (r: String)
    ensures
        r@ == joined(parent@, child@),
{
    let base = trim_slashes(parent);
    if base.as_str().is_empty() {
        let mut out = String::from_str("/");
        out.append(child);
        out
    } else if child.is_empty() {
        base
    } else {
        let mut out = base;
        out.append("/");
        out.append(child);
        out
    }
}

/// The position of the last slash.
pub open spec fn last_slash(s: Seq<char>) -> Option<int>
    decreases s.len(),
{
    if s.len() == 0 {
        None
    } else if s.last() == '/' {
        Some(s.len() - 1)
    } else {
        last_slash(s.drop_last())
    }
}

/// The directory of a path; the root has none, nor has a path without a slash.
pub open spec fn parent_of(path: Seq<char>) -> Option<Seq<char>> {
    let base = without_slashes(path);
    match last_slash(base) {
        None => None,
        Some(at) => if at == 0 {
            Some("/"@)
        } else {
            Some(base.take(at))
        },
    }
}

/// The directory of a path; the root has none, nor has a path without a slash.
pub fn posix_parent(path: &str) -> (r: Option<String>)
    ensures
        match r {
            Some(parent) => parent_of(path@) == Some(parent@),
            None => parent_of(path@) is None,
        },
{
    let base = trim_slashes(path);
    let v = chars_of(base.as_str());
    let mut at: usize = v.len();
    assert(v@.take(at as int) == v@);
    while at > 0
        invariant
            at <= v@.len(),
            v@ == without_slashes(path@),
            last_slash(v@.take(at as int)) == last_slash(v@),
        decreases at,
    {
        if v[at - 1] == '/' {
            assert(last_slash(v@) == Some(at - 1));
            if at == 1 {
                return Some("/".to_owned());
            }
            assert(v@.subrange(0, at - 1) == v@.take(at - 1));
            return Some(slice_of(&v, 0, at - 1));
        }
        assert(v@.take(at as int).drop_last() == v@.take(at - 1));
        at = at - 1;
    }
    None
}

/// Why a name is refused.
#[derive(Clone, Copy, PartialEq, Eq, Structural, Debug)]
pub enum NameError {
    Empty,
    Dots,
    Slash,
}

/// What is wrong with a name, if anything.
pub open spec fn name_error(name: Seq<char>) -> Option<NameError> {
    let name = trimmed(name);
    if name.len() == 0 {
        Some(NameError::Empty)
    } else if name == "."@ || name == ".."@ {
        Some(NameError::Dots)
    } else if name.contains('/') {
        Some(NameError::Slash)
    } else {
        None
    }
}

/// The text that tells what is wrong with a name.
pub open spec fn name_error_text(error: NameError) -> Seq<char> {
    match error {
        NameError::Empty => "Name cannot be empty"@,
        NameError::Dots => "Name cannot be . or .."@,
        NameError::Slash => "Name cannot contain /"@,
    }
}

/// A name for an entry of a directory, without the whitespace around it.
pub fn validate_entry_name(name: &str) -> (r: Result<String, &'static str>)
    ensures
        match r {
            Ok(text) => name_error(name@) is None && text@ == trimmed(name@),
            Err(message) => name_error(name@) is Some && message@ == name_error_text(
                name_error(name@)->0,
            ),
        },
{
    let name = trim(name);
    if name.as_str().is_empty() {
        return Err("Name cannot be empty");
    }
    if same(name.as_str(), ".") || same(name.as_str(), "..") {
        return Err("Name cannot be . or ..");
    }
    if contains_char(name.as_str(), '/') {
        return Err("Name cannot contain /");
    }
    Ok(name)
}

// ---------------------------------------------------------------------------------------------
// Laws
// ---------------------------------------------------------------------------------------------

/// Whether a piece names an entry: it holds something, is none of the dots, and has no slash.
pub open spec fn is_entry(piece: Seq<char>) -> bool {
    piece.len() > 0 && piece != "."@ && piece != ".."@ && !piece.contains('/')
}

proof fn lemma_resolved_entries(pieces: Seq<Seq<char>>, i: int)
    requires
        forall|j: int| 0 <= j < pieces.len() ==> !(#[trigger] pieces[j]).contains('/'),
        0 <= i < resolved(pieces).len(),
    ensures
        is_entry(resolved(pieces)[i]),
    decreases pieces.len(),
{
    let before = resolved(pieces.drop_last());
    assert forall|j: int| 0 <= j < pieces.drop_last().len() implies !(
    #[trigger] pieces.drop_last()[j]).contains('/') by {
        assert(!pieces[j].contains('/'));
    }
    if i < before.len() {
        lemma_resolved_entries(pieces.drop_last(), i);
    } else {
        assert(!pieces[pieces.len() - 1].contains('/'));
    }
}

/// The components of a path name entries: none is empty, a dot, two dots, or holds a slash.
pub proof fn law_components_are_entries(path: Seq<char>, i: int)
    requires
        0 <= i < components_of(path).len(),
    ensures
        is_entry(components_of(path)[i]),
{
    let pieces = split_on(trimmed(path), '/');
    assert forall|j: int| 0 <= j < pieces.len() implies !(#[trigger] pieces[j]).contains('/') by {
        if pieces[j].contains('/') {
            let k = choose|k: int| 0 <= k < pieces[j].len() && pieces[j][k] == '/';
            crate::search::lemma_pieces_uncut(trimmed(path), is_char('/'), j, k);
        }
    }
    lemma_resolved_entries(pieces, i);
}

/// A piece without the separator stays one piece behind it.
proof fn lemma_split_append(s: Seq<char>, sep: char, piece: Seq<char>)
    requires
        !piece.contains(sep),
    ensures
        split_on(s + seq![sep] + piece, sep) == split_on(s, sep).push(piece),
    decreases piece.len(),
{
    let cut = is_char(sep);
    if piece.len() == 0 {
        let whole = s + seq![sep] + piece;
        assert(whole.drop_last() == s);
        assert(whole.last() == sep);
        assert(piece == Seq::<char>::empty());
    } else {
        let whole = s + seq![sep] + piece;
        assert(whole.drop_last() == s + seq![sep] + piece.drop_last());
        assert(piece.contains(piece.last())) by {
            assert(piece[piece.len() - 1] == piece.last());
        }
        assert(!piece.drop_last().contains(sep)) by {
            if piece.drop_last().contains(sep) {
                let k = choose|k: int|
                    0 <= k < piece.drop_last().len() && piece.drop_last()[k] == sep;
                assert(piece[k] == sep);
            }
        }
        lemma_split_append(s, sep, piece.drop_last());
        let before = split_on(s, sep);
        let pieces = before.push(piece.drop_last());
        assert(pieces.last().push(piece.last()) == piece);
        assert(pieces.update(pieces.len() - 1, piece) == before.push(piece));
    }
}

proof fn lemma_split_plain(piece: Seq<char>, sep: char)
    requires
        !piece.contains(sep),
    ensures
        split_on(piece, sep) == seq![piece],
    decreases piece.len(),
{
    if piece.len() == 0 {
        assert(piece == Seq::<char>::empty());
    } else {
        assert(piece.contains(piece.last())) by {
            assert(piece[piece.len() - 1] == piece.last());
        }
        assert(!piece.drop_last().contains(sep)) by {
            if piece.drop_last().contains(sep) {
                let k = choose|k: int|
                    0 <= k < piece.drop_last().len() && piece.drop_last()[k] == sep;
                assert(piece[k] == sep);
            }
        }
        lemma_split_plain(piece.drop_last(), sep);
        assert(piece.drop_last().push(piece.last()) == piece);
        assert(seq![piece.drop_last()].update(0, piece) == seq![piece]);
    }
}

/// Splitting joined pieces gives the pieces back.
proof fn lemma_join_split(pieces: Seq<Seq<char>>, sep: char)
    requires
        pieces.len() > 0,
        forall|j: int| 0 <= j < pieces.len() ==> !(#[trigger] pieces[j]).contains(sep),
    ensures
        split_on(join(pieces, seq![sep]), sep) == pieces,
    decreases pieces.len(),
{
    if pieces.len() == 1 {
        assert(!pieces[0].contains(sep));
        lemma_split_plain(pieces[0], sep);
        assert(seq![pieces[0]] == pieces);
    } else {
        let rest = pieces.drop_last();
        assert forall|j: int| 0 <= j < rest.len() implies !(#[trigger] rest[j]).contains(sep) by {
            assert(!pieces[j].contains(sep));
        }
        lemma_join_split(rest, sep);
        assert(!pieces[pieces.len() - 1].contains(sep));
        lemma_split_append(join(rest, seq![sep]), sep, pieces.last());
        assert(rest.push(pieces.last()) == pieces);
    }
}

/// Entries stay when they are resolved behind an empty piece.
proof fn lemma_resolved_same(entries: Seq<Seq<char>>)
    requires
        forall|j: int| 0 <= j < entries.len() ==> is_entry(#[trigger] entries[j]),
    ensures
        resolved(seq![Seq::<char>::empty()] + entries) == entries,
    decreases entries.len(),
{
    let lead = seq![Seq::<char>::empty()];
    let all = lead + entries;
    if entries.len() == 0 {
        assert(all.drop_last() == Seq::<Seq<char>>::empty());
        assert(resolved(all.drop_last()) == Seq::<Seq<char>>::empty());
        assert(entries == Seq::<Seq<char>>::empty());
    } else {
        let rest = entries.drop_last();
        assert(all.drop_last() == lead + rest);
        assert forall|j: int| 0 <= j < rest.len() implies is_entry(#[trigger] rest[j]) by {
            assert(is_entry(entries[j]));
        }
        lemma_resolved_same(rest);
        assert(is_entry(entries[entries.len() - 1]));
        assert(rest.push(entries.last()) == entries);
    }
}

/// Joining behind an empty piece puts the separator in front.
proof fn lemma_join_lead(entries: Seq<Seq<char>>, sep: Seq<char>)
    requires
        entries.len() > 0,
    ensures
        join(seq![Seq::<char>::empty()] + entries, sep) == sep + join(entries, sep),
    decreases entries.len(),
{
    let lead = seq![Seq::<char>::empty()];
    let all = lead + entries;
    assert(all.drop_last() == lead + entries.drop_last());
    if entries.len() == 1 {
        assert(all.drop_last() == lead);
        assert(join(lead, sep) == Seq::<char>::empty());
        assert(Seq::<char>::empty() + sep + entries[0] == sep + entries[0]);
    } else {
        lemma_join_lead(entries.drop_last(), sep);
        let inner = join(entries.drop_last(), sep);
        assert((sep + inner) + sep + entries.last() == sep + (inner + sep + entries.last()));
    }
}

proof fn lemma_join_last(entries: Seq<Seq<char>>, sep: Seq<char>)
    requires
        entries.len() > 0,
        entries.last().len() > 0,
    ensures
        join(entries, sep).len() > 0,
        join(entries, sep).last() == entries.last().last(),
{
    if entries.len() > 1 {
        let lead = join(entries.drop_last(), sep) + sep;
        assert((lead + entries.last()).last() == entries.last().last());
    }
}

proof fn lemma_untrimmed(s: Seq<char>)
    requires
        s.len() > 0,
        !char_is_whitespace(s[0]),
        !char_is_whitespace(s.last()),
    ensures
        trimmed(s) == s,
{
}

/// Normalizing a normalized path changes nothing, unless its last component ends with
/// whitespace, which normalizing takes away.
pub proof fn law_normalizing_twice(path: Seq<char>)
    requires
        is_absolute(path),
        components_of(path).len() > 0 ==> !char_is_whitespace(components_of(path).last().last()),
    ensures
        is_absolute(rendered(components_of(path))),
        components_of(rendered(components_of(path))) == components_of(path),
{
    reveal_strlit("/");
    assert("/"@ == seq!['/']);
    let entries = components_of(path);
    let text = rendered(entries);
    let lead = seq![Seq::<char>::empty()];
    assert forall|j: int| 0 <= j < entries.len() implies is_entry(#[trigger] entries[j]) by {
        law_components_are_entries(path, j);
    }
    lemma_resolved_same(entries);
    if entries.len() == 0 {
        lemma_untrimmed(text);
        lemma_split_plain(Seq::<char>::empty(), '/');
        lemma_split_append(Seq::<char>::empty(), '/', Seq::<char>::empty());
        assert(Seq::<char>::empty() + seq!['/'] + Seq::<char>::empty() == text);
        let pieces = lead.push(Seq::<char>::empty());
        assert(split_on(text, '/') == pieces);
        assert(pieces.drop_last() == lead + entries);
        assert(resolved(pieces) == resolved(pieces.drop_last()));
    } else {
        lemma_join_lead(entries, "/"@);
        assert(is_entry(entries[entries.len() - 1]));
        lemma_join_last(entries, "/"@);
        assert(text.last() == entries.last().last());
        assert(text[0] == '/');
        lemma_untrimmed(text);
        let pieces = lead + entries;
        assert forall|j: int| 0 <= j < pieces.len() implies !(#[trigger] pieces[j]).contains('/') by {
            if j > 0 {
                assert(pieces[j] == entries[j - 1]);
                assert(is_entry(entries[j - 1]));
            }
        }
        lemma_join_split(pieces, '/');
    }
}

proof fn lemma_last_slash_behind(s: Seq<char>, tail: Seq<char>)
    requires
        !tail.contains('/'),
    ensures
        last_slash(s + seq!['/'] + tail) == Some(s.len() as int),
    decreases tail.len(),
{
    let whole = s + seq!['/'] + tail;
    if tail.len() == 0 {
        assert(whole.last() == '/');
    } else {
        assert(whole.last() == tail.last());
        assert(tail.contains(tail.last())) by {
            assert(tail[tail.len() - 1] == tail.last());
        }
        assert(!tail.drop_last().contains('/')) by {
            if tail.drop_last().contains('/') {
                let k = choose|k: int|
                    0 <= k < tail.drop_last().len() && tail.drop_last()[k] == '/';
                assert(tail[k] == '/');
            }
        }
        assert(whole.drop_last() == s + seq!['/'] + tail.drop_last());
        lemma_last_slash_behind(s, tail.drop_last());
    }
}

/// The directory of a directory's child is the directory: of the root, and of any path that does
/// not end with a slash, when the child's name has no slash.
pub proof fn law_parent_of_joined(parent: Seq<char>, child: Seq<char>)
    requires
        child.len() > 0,
        !child.contains('/'),
        parent == "/"@ || (parent.len() > 0 && parent.last() != '/'),
    ensures
        parent_of(joined(parent, child)) == Some(parent),
{
    reveal_strlit("/");
    assert("/"@ == seq!['/']);
    let path = joined(parent, child);
    assert(child.contains(child.last())) by {
        assert(child[child.len() - 1] == child.last());
    }
    if parent == "/"@ {
        assert(parent.drop_last() == Seq::<char>::empty());
        assert(without_slashes(parent.drop_last()) == Seq::<char>::empty());
        assert(without_slashes(parent) == Seq::<char>::empty());
        assert(path == Seq::<char>::empty() + seq!['/'] + child);
        lemma_last_slash_behind(Seq::<char>::empty(), child);
    } else {
        assert(path == parent + seq!['/'] + child);
        lemma_last_slash_behind(parent, child);
        assert(path.take(parent.len() as int) == parent);
    }
    assert(path.last() == child.last());
    assert(without_slashes(path) == path);
}

/// The pieces of a path are followed one by one: a name leads into an entry, two dots lead back
/// out of it and not above the root, a dot and an empty piece lead nowhere.
pub proof fn law_pieces_are_followed(pieces: Seq<Seq<char>>, name: Seq<char>)
    requires
        name.len() > 0,
        name != "."@,
        name != ".."@,
    ensures
        resolved(Seq::empty()) == Seq::<Seq<char>>::empty(),
        resolved(pieces.push(name)) == resolved(pieces).push(name),
        resolved(pieces.push("."@)) == resolved(pieces),
        resolved(pieces.push(Seq::empty())) == resolved(pieces),
        resolved(pieces.push(name).push(".."@)) == resolved(pieces),
        resolved(pieces).len() == 0 ==> resolved(pieces.push(".."@)) == resolved(pieces),
        resolved(pieces).len() > 0 ==> resolved(pieces.push(".."@)) == resolved(pieces).drop_last(),
{
    reveal_strlit(".");
    reveal_strlit("..");
    assert("."@.len() == 1 && ".."@.len() == 2);
    assert(pieces.push(name).drop_last() == pieces);
    assert(pieces.push("."@).drop_last() == pieces);
    assert(pieces.push(".."@).drop_last() == pieces);
    assert(pieces.push(Seq::empty()).drop_last() == pieces);
    assert(pieces.push(name).push(".."@).drop_last() == pieces.push(name));
    assert(resolved(pieces).push(name).drop_last() == resolved(pieces));
}

/// A child's path is its directory's path, a slash and its name; slashes at the end of the
/// directory's path make no difference, and without a name it is the directory itself.
pub proof fn law_joined(parent: Seq<char>, child: Seq<char>)
    ensures
        joined("/"@, child) == "/"@ + child,
        joined(Seq::empty(), child) == "/"@ + child,
        parent.len() > 0 && parent.last() != '/' && child.len() > 0 ==> joined(parent, child)
            == parent + "/"@ + child,
        parent.len() > 0 && parent.last() != '/' ==> joined(parent, Seq::empty()) == parent,
        joined(parent + "/"@, child) == joined(parent, child),
{
    reveal_strlit("/");
    assert((parent + "/"@).last() == '/');
    assert((parent + "/"@).drop_last() == parent);
    assert("/"@.drop_last() == Seq::<char>::empty());
    assert(without_slashes(Seq::<char>::empty()) == Seq::<char>::empty());
    assert("/"@.last() == '/');
    assert(without_slashes("/"@) == Seq::<char>::empty());
}

/// A name is refused exactly when nothing is left of it without the whitespace around it, when it
/// is one of the dots, or when it holds a slash.
pub proof fn law_refused_names(name: Seq<char>)
    ensures
        name_error(name) is Some <==> trimmed(name).len() == 0 || trimmed(name) == "."@ || trimmed(
            name,
        ) == ".."@ || trimmed(name).contains('/'),
        name_error(name) == Some(NameError::Empty) <==> trimmed(name).len() == 0,
        name_error(name) == Some(NameError::Dots) <==> trimmed(name) == "."@ || trimmed(name)
            == ".."@,
        name_error(name) == Some(NameError::Slash) <==> trimmed(name).contains('/'),
        name_error_text(NameError::Empty) == "Name cannot be empty"@,
        name_error_text(NameError::Dots) == "Name cannot be . or .."@,
        name_error_text(NameError::Slash) == "Name cannot contain /"@,
{
    reveal_strlit(".");
    reveal_strlit("..");
    assert("."@.len() == 1 && "."@[0] == '.');
    assert(".."@.len() == 2 && ".."@[0] == '.' && ".."@[1] == '.');
}

/// A text is an absolute path exactly when a slash comes first behind its whitespace.
pub proof fn law_absolute(path: Seq<char>)
    ensures
        is_absolute(path) <==> exists|rest: Seq<char>| trimmed(path) == #[trigger] (seq!['/']
            + rest),
{
    if is_absolute(path) {
        let rest = trimmed(path).skip(1);
        assert(trimmed(path) == seq!['/'] + rest);
    }
    if exists|rest: Seq<char>| trimmed(path) == #[trigger] (seq!['/'] + rest) {
        let rest = choose|rest: Seq<char>| trimmed(path) == #[trigger] (seq!['/'] + rest);
        assert((seq!['/'] + rest)[0] == '/');
    }
}

/// The directory of a path is what stands before its last slash.
pub proof fn law_parent(front: Seq<char>, name: Seq<char>)
    requires
        name.len() > 0,
        !name.contains('/'),
    ensures
        front.len() > 0 ==> parent_of(front + "/"@ + name) == Some(front),
        parent_of("/"@ + name) == Some("/"@),
        parent_of(name) is None,
        parent_of("/"@) is None,
{
    reveal_strlit("/");
    let path = front + "/"@ + name;
    let top = "/"@ + name;
    assert(name[name.len() - 1] != '/');
    assert(path.last() == name.last());
    assert(top.last() == name.last());
    lemma_last_slash_at(front, name);
    lemma_last_slash_at(Seq::empty(), name);
    assert(Seq::<char>::empty() + "/"@ + name == top);
    lemma_no_slash(name);
    assert(path.take(front.len() as int) == front);
    assert("/"@.drop_last() == Seq::<char>::empty());
    assert(without_slashes(Seq::<char>::empty()) == Seq::<char>::empty());
    assert("/"@.last() == '/');
    assert(without_slashes("/"@) == Seq::<char>::empty());
}

proof fn lemma_no_slash(name: Seq<char>)
    requires
        !name.contains('/'),
    ensures
        last_slash(name) is None,
    decreases name.len(),
{
    if name.len() > 0 {
        let rest = name.drop_last();
        if rest.contains('/') {
            let i = choose|i: int| 0 <= i < rest.len() && rest[i] == '/';
            assert(name[i] == '/');
        }
        assert(name[name.len() - 1] != '/');
        lemma_no_slash(rest);
    }
}

proof fn lemma_last_slash_at(front: Seq<char>, name: Seq<char>)
    requires
        !name.contains('/'),
    ensures
        last_slash(front + "/"@ + name) == Some(front.len() as int),
    decreases name.len(),
{
    reveal_strlit("/");
    let path = front + "/"@ + name;
    if name.len() == 0 {
        assert(path.last() == '/');
    } else {
        let rest = name.drop_last();
        if rest.contains('/') {
            let i = choose|i: int| 0 <= i < rest.len() && rest[i] == '/';
            assert(name[i] == '/');
        }
        assert(name[name.len() - 1] != '/');
        assert(path.drop_last() == front + "/"@ + rest);
        lemma_last_slash_at(front, rest);
    }
}

} // verus!
