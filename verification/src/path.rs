//! Paths as text. A path is a string whose parts are separated by `/`; a path
//! that begins with `/` has a root. Two paths are compared by their parts,
//! not by their letters. Nothing here looks at a file system.

use vstd::prelude::*;
use crate::text::{chars_of, glue, same_text, slice_of, text_of, texts_of};

verus! {

/// Whether `p` begins at the root.
pub open spec fn rooted(p: Seq<char>) -> bool {
    p.len() > 0 && p[0] == '/'
}

/// `rel` placed under `base`: a rooted `rel` replaces `base`, and a
/// separator is put between the two unless `base` is empty or ends in one.
pub open spec fn joined(base: Seq<char>, rel: Seq<char>) -> Seq<char> {
    if rooted(rel) || base.len() == 0 {
        rel
    } else if base.last() == '/' {
        base + rel
    } else {
        base + seq!['/'] + rel
    }
}

/// The texts between the separators of `p`, the empty ones too.
pub open spec fn pieces(p: Seq<char>) -> Seq<Seq<char>>
    decreases p.len(),
{
    if p.len() == 0 {
        seq![Seq::<char>::empty()]
    } else {
        let before = pieces(p.drop_last());
        if p.last() == '/' {
            before.push(Seq::<char>::empty())
        } else {
            before.drop_last().push(before.last().push(p.last()))
        }
    }
}

/// Whether a text between separators is a part of the path: the empty
/// text and the single dot are none.
pub open spec fn is_part(piece: Seq<char>) -> bool {
    piece.len() > 0 && piece != "."@
}

/// Those of `pieces` that are parts, in order.
pub open spec fn keep(pieces: Seq<Seq<char>>) -> Seq<Seq<char>>
    decreases pieces.len(),
{
    if pieces.len() == 0 {
        pieces
    } else if is_part(pieces.last()) {
        keep(pieces.drop_last()).push(pieces.last())
    } else {
        keep(pieces.drop_last())
    }
}

/// The parts of `p`, in order: what stands between its separators, but for
/// empty texts and single dots. Neither a separator at the end, nor two
/// side by side, nor a dot between two changes the parts of a path.
pub open spec fn parts(p: Seq<char>) -> Seq<Seq<char>> {
    keep(pieces(p))
}

/// `parts` with one separator between each two.
pub open spec fn chain(parts: Seq<Seq<char>>) -> Seq<char>
    decreases parts.len(),
{
    if parts.len() == 0 {
        Seq::<char>::empty()
    } else if parts.len() == 1 {
        parts[0]
    } else {
        chain(parts.drop_last()) + seq!['/'] + parts.last()
    }
}

/// The path with the parts `parts`, from the root where `from_root` says
/// so.
pub open spec fn spelled(from_root: bool, parts: Seq<Seq<char>>) -> Seq<char> {
    if from_root {
        seq!['/'] + chain(parts)
    } else {
        chain(parts)
    }
}

/// Whether two paths name the same parts from the same start.
pub open spec fn same_place(a: Seq<char>, b: Seq<char>) -> bool {
    rooted(a) == rooted(b) && parts(a) == parts(b)
}

/// The name of the file or directory that `p` ends in: its last part. A
/// path without parts, and one whose last part is `..`, name nothing.
pub open spec fn file_name_of(p: Seq<char>) -> Option<Seq<char>> {
    let all = parts(p);
    if all.len() == 0 || all.last() == ".."@ {
        None
    } else {
        Some(all.last())
    }
}

/// The path of the directory that holds `p`: the path with the parts of
/// `p` but the last. A path without parts has no parent.
pub open spec fn parent_of(p: Seq<char>) -> Option<Seq<char>> {
    let all = parts(p);
    if all.len() == 0 {
        None
    } else {
        Some(spelled(rooted(p), all.drop_last()))
    }
}

/// `path` as seen from `base`: the parts of `path` that follow those of
/// `base`, where `path` begins with the parts of `base` and both begin at
/// the root or neither does; `None` else. The empty `base` holds every
/// path, and leaves it as it is.
pub open spec fn relative_to(base: Seq<char>, path: Seq<char>) -> Option<Seq<char>> {
    if base.len() == 0 {
        Some(path)
    } else if rooted(base) == rooted(path) && parts(base).is_prefix_of(parts(path)) {
        Some(chain(parts(path).skip(parts(base).len() as int)))
    } else {
        None
    }
}

/// `parts` with every `..` resolved against the part before it. From the
/// root a `..` that has nothing before it is dropped; else it stays.
pub open spec fn settled(from_root: bool, parts: Seq<Seq<char>>) -> Seq<Seq<char>>
    decreases parts.len(),
{
    if parts.len() == 0 {
        parts
    } else {
        let before = settled(from_root, parts.drop_last());
        if parts.last() != ".."@ {
            before.push(parts.last())
        } else if before.len() > 0 && before.last() != ".."@ {
            before.drop_last()
        } else if from_root {
            before
        } else {
            before.push(parts.last())
        }
    }
}

/// The parts that `p` comes to when every `.` and `..` in it is resolved.
pub open spec fn resolved_parts(p: Seq<char>) -> Seq<Seq<char>> {
    settled(rooted(p), parts(p))
}

/// Whether `inner` is `outer` or lies under it, once every `.` and `..` in
/// both is resolved: both begin at the root or neither does, and `inner`
/// begins with the parts of `outer`.
pub open spec fn within(outer: Seq<char>, inner: Seq<char>) -> bool {
    rooted(outer) == rooted(inner) && resolved_parts(outer).is_prefix_of(resolved_parts(inner))
}

/// Whether a text holds no separator.
pub open spec fn plain(piece: Seq<char>) -> bool {
    forall|i: int| 0 <= i < piece.len() ==> piece[i] != '/'
}

/// Whether every one of `parts` can be a part of a path: none is empty, a
/// single dot, or holds a separator.
pub open spec fn all_parts(parts: Seq<Seq<char>>) -> bool {
    forall|i: int| 0 <= i < parts.len() ==> is_part(#[trigger] parts[i]) && plain(parts[i])
}

/// A text has at least one piece, and no piece holds a separator.
pub proof fn lemma_pieces(p: Seq<char>)
    ensures
        pieces(p).len() >= 1,
        forall|i: int| 0 <= i < pieces(p).len() ==> plain(#[trigger] pieces(p)[i]),
    decreases p.len(),
{
    if p.len() > 0 {
        lemma_pieces(p.drop_last());
    }
}

/// A text without a separator is its own single piece.
pub proof fn lemma_pieces_plain(p: Seq<char>)
    requires
        plain(p),
    ensures
        pieces(p) == seq![p],
    decreases p.len(),
{
    if p.len() > 0 {
        let init = p.drop_last();
        lemma_pieces_plain(init);
        assert(init.push(p.last()) =~= p);
    } else {
        assert(p =~= Seq::<char>::empty());
    }
}

/// The pieces of two texts with a separator between them are the pieces
/// of the one followed by the pieces of the other.
pub proof fn lemma_pieces_joined(a: Seq<char>, b: Seq<char>)
    ensures
        pieces(a + seq!['/'] + b) == pieces(a) + pieces(b),
    decreases b.len(),
{
    let whole = a + seq!['/'] + b;
    if b.len() == 0 {
        assert(whole.drop_last() =~= a);
    } else {
        let init = b.drop_last();
        assert(whole.drop_last() =~= a + seq!['/'] + init);
        lemma_pieces_joined(a, init);
        let one = pieces(a);
        let other = pieces(init);
        if b.last() == '/' {
            assert((one + other).push(Seq::<char>::empty()) =~= one + other.push(
                Seq::<char>::empty(),
            ));
        } else {
            assert((one + other).drop_last().push((one + other).last().push(b.last())) =~= one
                + other.drop_last().push(other.last().push(b.last())));
        }
    }
}

/// Keeping the parts of two lists of pieces, one after the other, is
/// keeping the parts of each.
pub proof fn lemma_keep_joined(x: Seq<Seq<char>>, y: Seq<Seq<char>>)
    ensures
        keep(x + y) == keep(x) + keep(y),
    decreases y.len(),
{
    if y.len() != 0 {
        assert((x + y).drop_last() =~= x + y.drop_last());
        lemma_keep_joined(x, y.drop_last());
        if is_part(y.last()) {
            assert((keep(x) + keep(y.drop_last())).push(y.last()) =~= keep(x) + keep(
                y.drop_last(),
            ).push(y.last()));
        }
    }
}

/// What is kept of a list of pieces are parts without separators, where
/// the pieces hold none.
pub proof fn lemma_keep_parts(x: Seq<Seq<char>>)
    requires
        forall|i: int| 0 <= i < x.len() ==> plain(#[trigger] x[i]),
    ensures
        all_parts(keep(x)),
    decreases x.len(),
{
    if x.len() > 0 {
        let init = x.drop_last();
        lemma_keep_parts(init);
    }
}

/// Of a single piece, it is kept where it is a part.
pub proof fn lemma_keep_one(piece: Seq<char>)
    ensures
        keep(seq![piece]) == if is_part(piece) {
            seq![piece]
        } else {
            Seq::<Seq<char>>::empty()
        },
{
    reveal_with_fuel(keep, 2);
}

/// The parts of a path are parts: none is empty, a single dot, or holds a
/// separator.
pub proof fn lemma_parts(p: Seq<char>)
    ensures
        all_parts(parts(p)),
{
    lemma_pieces(p);
    lemma_keep_parts(pieces(p));
}

/// The parts of two paths with a separator between them are the parts of
/// the one followed by the parts of the other; and a separator at the end
/// of a path changes nothing of its parts.
pub proof fn lemma_parts_joined(a: Seq<char>, b: Seq<char>)
    ensures
        parts(a + seq!['/'] + b) == parts(a) + parts(b),
        parts(a.push('/')) == parts(a),
{
    lemma_pieces_joined(a, b);
    lemma_keep_joined(pieces(a), pieces(b));
    let none = Seq::<char>::empty();
    lemma_pieces_joined(a, none);
    lemma_keep_joined(pieces(a), pieces(none));
    assert(a + seq!['/'] + none =~= a.push('/'));
    lemma_keep_one(none);
}

/// A chain of parts has those parts, and no root.
pub proof fn lemma_chain(list: Seq<Seq<char>>)
    requires
        all_parts(list),
    ensures
        parts(chain(list)) == list,
        !rooted(chain(list)),
        parts(spelled(true, list)) == list,
        rooted(spelled(true, list)),
    decreases list.len(),
{
    let none = Seq::<char>::empty();
    lemma_keep_one(none);
    if list.len() == 1 {
        let only = list[0];
        lemma_pieces_plain(only);
        lemma_keep_one(only);
    } else if list.len() > 1 {
        let init = list.drop_last();
        let last = list.last();
        lemma_chain(init);
        lemma_parts_joined(chain(init), last);
        lemma_pieces_plain(last);
        lemma_keep_one(last);
    }
    lemma_parts_joined(none, chain(list));
}

/// A chain of parts begins with the first letter of its first part.
pub proof fn lemma_chain_starts(list: Seq<Seq<char>>)
    requires
        list.len() > 0,
        list[0].len() > 0,
    ensures
        chain(list).len() > 0,
        chain(list)[0] == list[0][0],
    decreases list.len(),
{
    if list.len() > 1 {
        lemma_chain_starts(list.drop_last());
    }
}

/// Whether `p` begins at the root.
pub fn has_root(p: &str) -> (yes: bool)
    ensures
        yes == rooted(p@),
{
    p.unicode_len() > 0 && p.get_char(0) == '/'
}

/// `rel` placed under `base`.
pub fn join(base: &str, rel: &str) -> (out: String)
    ensures
        out@ == joined(base@, rel@),
{
    let n = base.unicode_len();
    if has_root(rel) || n == 0 {
        String::from_str(rel)
    } else if base.get_char(n - 1) == '/' {
        glue(base, rel)
    } else {
        let mut out = glue(base, "/");
        proof {
            reveal_strlit("/");
        }
        out.append(rel);
        out
    }
}

/// Whether `piece` is a part of a path.
fn counts(piece: &str) -> (yes: bool)
    ensures
        yes == is_part(piece@),
{
    piece.unicode_len() > 0 && !same_text(piece, ".")
}

/// The parts of `p`, in order.
pub fn split_parts(p: &str) -> (out: Vec<String>)
    ensures
        texts_of(out@) == parts(p@),
{
    let chars = chars_of(p);
    let n = chars.len();
    let ghost t = p@;
    let ghost mut whole: Seq<Seq<char>> = Seq::empty();
    let mut out: Vec<String> = Vec::new();
    let mut start: usize = 0;
    let mut i: usize = 0;
    assert(t.take(0) =~= Seq::<char>::empty());
    while i < n
        invariant
            start <= i <= n,
            n == t.len(),
            t == p@,
            chars@ == t,
            pieces(t.take(i as int)) == whole.push(t.subrange(start as int, i as int)),
            texts_of(out@) == keep(whole),
        decreases n - i,
    {
        let ghost current = t.subrange(start as int, i as int);
        proof {
            assert(t.take(i + 1).drop_last() =~= t.take(i as int));
            assert(whole.push(current).drop_last() =~= whole);
        }
        if chars[i] == '/' {
            let piece = slice_of(p, start, i);
            if counts(piece.as_str()) {
                out.push(piece);
            }
            proof {
                whole = whole.push(current);
                assert(t.subrange(i + 1, i + 1) =~= Seq::<char>::empty());
            }
            start = i + 1;
        } else {
            assert(current.push(t[i as int]) =~= t.subrange(start as int, i + 1));
        }
        i += 1;
    }
    let ghost current = t.subrange(start as int, n as int);
    proof {
        assert(t.take(n as int) =~= t);
        assert(whole.push(current).drop_last() =~= whole);
    }
    let piece = slice_of(p, start, n);
    if counts(piece.as_str()) {
        out.push(piece);
    }
    out
}

/// The path with the parts of `parts` from position `from` up to, not
/// including, `to`; from the root where `from_root` says so.
pub fn spell(from_root: bool, parts: &Vec<String>, from: usize, to: usize) -> (out: String)
    requires
        from <= to <= parts@.len(),
    ensures
        out@ == spelled(from_root, texts_of(parts@).subrange(from as int, to as int)),
{
    let ghost wanted = texts_of(parts@).subrange(from as int, to as int);
    let mut out = String::new();
    let mut i: usize = from;
    while i < to
        invariant
            from <= i <= to <= parts@.len(),
            wanted == texts_of(parts@).subrange(from as int, to as int),
            out@ == chain(wanted.take(i - from)),
        decreases to - i,
    {
        proof {
            assert(wanted.take(i - from + 1).drop_last() =~= wanted.take(i - from));
        }
        if i > from {
            out.append("/");
            proof {
                reveal_strlit("/");
            }
        }
        out.append(parts[i].as_str());
        i += 1;
    }
    assert(wanted.take(to - from) =~= wanted);
    if from_root {
        let mut rooted_out = String::from_str("/");
        proof {
            reveal_strlit("/");
        }
        rooted_out.append(out.as_str());
        rooted_out
    } else {
        out
    }
}

/// Whether `all` begins with the texts of `head`.
fn begins_with(head: &Vec<String>, all: &Vec<String>) -> (yes: bool)
    ensures
        yes == texts_of(head@).is_prefix_of(texts_of(all@)),
{
    if head.len() > all.len() {
        return false;
    }
    let mut i: usize = 0;
    while i < head.len()
        invariant
            i <= head.len() <= all.len(),
            forall|j: int| 0 <= j < i ==> texts_of(head@)[j] == texts_of(all@)[j],
        decreases head.len() - i,
    {
        if !same_text(head[i].as_str(), all[i].as_str()) {
            assert(texts_of(head@)[i as int] != texts_of(all@)[i as int]);
            return false;
        }
        i += 1;
    }
    true
}

/// `parts` with every `..` resolved against the part before it.
pub fn settle(from_root: bool, parts: &Vec<String>) -> (out: Vec<String>)
    ensures
        texts_of(out@) == settled(from_root, texts_of(parts@)),
{
    let ghost all = texts_of(parts@);
    let mut out: Vec<String> = Vec::new();
    let mut i: usize = 0;
    while i < parts.len()
        invariant
            i <= parts.len(),
            all == texts_of(parts@),
            texts_of(out@) == settled(from_root, all.take(i as int)),
        decreases parts.len() - i,
    {
        proof {
            assert(all.take(i + 1).drop_last() =~= all.take(i as int));
        }
        if !same_text(parts[i].as_str(), "..") {
            out.push(parts[i].clone());
        } else {
            let n = out.len();
            if n > 0 && !same_text(out[n - 1].as_str(), "..") {
                out.pop();
            } else if !from_root {
                out.push(parts[i].clone());
            }
        }
        i += 1;
    }
    assert(all.take(i as int) =~= all);
    out
}

/// The name of the file or directory that `p` ends in.
pub fn file_name(p: &str) -> (name: Option<String>)
    ensures
        text_of(name) == file_name_of(p@),
{
    let mut all = split_parts(p);
    match all.pop() {
        None => None,
        Some(last) => {
            if same_text(last.as_str(), "..") {
                None
            } else {
                Some(last)
            }
        },
    }
}

/// The path of the directory that holds `p`.
pub fn parent(p: &str) -> (dir: Option<String>)
    ensures
        text_of(dir) == parent_of(p@),
{
    let all = split_parts(p);
    let n = all.len();
    if n == 0 {
        return None;
    }
    Some(spell(has_root(p), &all, 0, n - 1))
}

/// `path` as seen from `base`, if `path` is `base` or lies under it. What
/// comes back for a `base` that is not empty has no root, and joined with
/// `base` it names the parts that `path` names.
pub fn strip_prefix(base: &str, path: &str) -> (rest: Option<String>)
    ensures
        text_of(rest) == relative_to(base@, path@),
        base@.len() > 0 && rest is Some ==> !rooted(rest->0@) && same_place(
            joined(base@, rest->0@),
            path@,
        ),
{
    proof {
        if base@.len() > 0 && relative_to(base@, path@) is Some {
            crate::laws::law_relative_then_joined(base@, path@);
        }
    }
    if base.unicode_len() == 0 {
        return Some(String::from_str(path));
    }
    if has_root(base) != has_root(path) {
        return None;
    }
    let head = split_parts(base);
    let all = split_parts(path);
    if !begins_with(&head, &all) {
        return None;
    }
    assert(texts_of(all@).subrange(head@.len() as int, all@.len() as int) =~= texts_of(all@).skip(
        head@.len() as int,
    ));
    Some(spell(false, &all, head.len(), all.len()))
}

/// Whether `inner` is `outer` or lies under it, once every `.` and `..` in
/// both is resolved.
pub fn is_within(outer: &str, inner: &str) -> (yes: bool)
    ensures
        yes == within(outer@, inner@),
{
    if has_root(outer) != has_root(inner) {
        return false;
    }
    let head = settle(has_root(outer), &split_parts(outer));
    let all = settle(has_root(inner), &split_parts(inner));
    begins_with(&head, &all)
}

} // verus!
