//! Request paths: normalisation that cannot leave the content root, and the
//! location under the content root that a normalised path names.
use crate::text::chars_of;
use vstd::prelude::*;
use vstd::string::{StrSliceExecFns, StringExecFns};

verus! {

/// The character that separates the components of a path.
pub const SEPARATOR: char = '/';

/// The pieces of `s` between separators, in order. A text without a
/// separator is one piece; `n` separators give `n + 1` pieces, some of which
/// may be empty.
pub open spec fn split(s: Seq<char>) -> Seq<Seq<char>>
    decreases s.len(),
{
    if s.len() == 0 {
        seq![Seq::empty()]
    } else {
        let before = split(s.drop_last());
        if s.last() == SEPARATOR {
            before.push(Seq::empty())
        } else {
            before.drop_last().push(before.last().push(s.last()))
        }
    }
}

/// The piece `..`, which names the parent directory.
pub open spec fn is_parent(piece: Seq<char>) -> bool {
    piece == seq!['.', '.']
}

/// A piece that names nothing: the empty piece, which a leading, trailing or
/// doubled separator leaves, and `.`.
pub open spec fn is_skipped(piece: Seq<char>) -> bool {
    piece.len() == 0 || piece == seq!['.']
}

/// A piece that names an entry of a directory.
pub open spec fn is_normal(piece: Seq<char>) -> bool {
    !is_parent(piece) && !is_skipped(piece) && !piece.contains(SEPARATOR)
}

/// Whether every one of `segments` names an entry of a directory.
pub open spec fn all_normal(segments: Seq<Seq<char>>) -> bool {
    forall|k: int| 0 <= k < segments.len() ==> is_normal(#[trigger] segments[k])
}

/// The stack of segments after `piece` is walked: `..` drops the segment on
/// top where there is one and is dropped itself where there is none, a piece
/// that names nothing leaves the stack alone, and any other piece goes on top.
pub open spec fn walk(stack: Seq<Seq<char>>, piece: Seq<char>) -> Seq<Seq<char>> {
    if is_parent(piece) {
        if stack.len() > 0 {
            stack.drop_last()
        } else {
            stack
        }
    } else if is_skipped(piece) {
        stack
    } else {
        stack.push(piece)
    }
}

/// The stack of segments after all of `pieces` are walked in order, starting
/// from the empty stack.
pub open spec fn resolve(pieces: Seq<Seq<char>>) -> Seq<Seq<char>>
    decreases pieces.len(),
{
    if pieces.len() == 0 {
        Seq::empty()
    } else {
        walk(resolve(pieces.drop_last()), pieces.last())
    }
}

/// `segments` written as one path, with a separator between neighbours.
pub open spec fn join(segments: Seq<Seq<char>>) -> Seq<char>
    decreases segments.len(),
{
    if segments.len() == 0 {
        Seq::empty()
    } else if segments.len() == 1 {
        segments[0]
    } else {
        join(segments.drop_last()) + seq![SEPARATOR] + segments.last()
    }
}

/// The segments that the request path `path` names under the content root.
pub open spec fn segments_of(path: Seq<char>) -> Seq<Seq<char>> {
    resolve(split(path))
}

/// The normal form of the request path `path`.
pub open spec fn normalise(path: Seq<char>) -> Seq<char> {
    join(segments_of(path))
}

/// `name` appended to the directory `base`, with a separator between them
/// unless `base` is empty or ends with one.
pub open spec fn locate(base: Seq<char>, name: Seq<char>) -> Seq<char> {
    if base.len() == 0 || base.last() == SEPARATOR {
        base + name
    } else {
        base + seq![SEPARATOR] + name
    }
}

/// The pieces of `s` that `ranges` cut out.
pub open spec fn cut(s: Seq<char>, ranges: Seq<(usize, usize)>) -> Seq<Seq<char>> {
    Seq::new(ranges.len(), |k: int| s.subrange(ranges[k].0 as int, ranges[k].1 as int))
}

/// Whether every one of `ranges` lies within a text of `len` characters.
pub open spec fn within(ranges: Seq<(usize, usize)>, len: int) -> bool {
    forall|k: int| 0 <= k < ranges.len() ==> (#[trigger] ranges[k]).0 <= ranges[k].1 <= len
}

/// A text always splits into at least one piece.
pub proof fn lemma_split_nonempty(s: Seq<char>)
    ensures
        split(s).len() >= 1,
    decreases s.len(),
{
    if s.len() > 0 {
        lemma_split_nonempty(s.drop_last());
    }
}

/// Walks the piece `text[from..to]` on the stack of ranges.
fn walk_range(text: &Vec<char>, stack: &mut Vec<(usize, usize)>, from: usize, to: usize)
    requires
        from <= to <= text.len(),
        within(old(stack)@, text.len() as int),
    ensures
        within(final(stack)@, text.len() as int),
        cut(text@, final(stack)@) == walk(
            cut(text@, old(stack)@),
            text@.subrange(from as int, to as int),
        ),
{
    let ghost piece = text@.subrange(from as int, to as int);
    let ghost before = cut(text@, stack@);
    let len = to - from;
    if len == 2 && text[from] == '.' && text[from + 1] == '.' {
        assert(piece =~= seq!['.', '.']);
        if stack.len() > 0 {
            stack.pop();
            assert(cut(text@, stack@) =~= before.drop_last());
        }
    } else if len == 0 || (len == 1 && text[from] == '.') {
        assert(piece.len() == 0 || piece =~= seq!['.']);
        assert(!is_parent(piece));
    } else {
        assert(!is_parent(piece)) by {
            if piece.len() == 2 {
                assert(piece[0] == text@[from as int]);
                assert(piece[1] == text@[from + 1]);
            }
        }
        assert(!is_skipped(piece)) by {
            if piece.len() == 1 {
                assert(piece[0] == text@[from as int]);
            }
        }
        stack.push((from, to));
        assert(cut(text@, stack@) =~= before.push(piece));
    }
}

/// The normal form of the request path `p`: its segments, with `.`, empty
/// pieces and the root marker dropped and each `..` resolved against the
/// segment before it or, where there is none, dropped.
pub fn normalise_path(p: &str) -> (normal: String)
    ensures
        normal@ == normalise(p@),
        all_normal(segments_of(p@)),
{
    proof {
        lemma_segments_normal(p@);
    }
    let text = chars_of(p);
    let mut stack: Vec<(usize, usize)> = Vec::new();
    let mut start: usize = 0;
    let mut i: usize = 0;
    proof {
        assert(p@.take(0) =~= Seq::<char>::empty());
        assert(split(p@.take(0)).drop_last() =~= Seq::<Seq<char>>::empty());
        assert(cut(text@, stack@) =~= Seq::<Seq<char>>::empty());
        assert(split(p@.take(0)).last() =~= p@.subrange(0, 0));
    }
    while i < text.len()
        invariant
            start <= i <= text.len(),
            text@ == p@,
            within(stack@, text.len() as int),
            cut(text@, stack@) == resolve(split(p@.take(i as int)).drop_last()),
            split(p@.take(i as int)).last() == p@.subrange(start as int, i as int),
        decreases text.len() - i,
    {
        let ghost seen = p@.take(i as int);
        let ghost next = p@.take(i + 1);
        proof {
            lemma_split_nonempty(seen);
            assert(next.drop_last() =~= seen);
            assert(next.last() == p@[i as int]);
        }
        if text[i] == SEPARATOR {
            walk_range(&text, &mut stack, start, i);
            start = i + 1;
            proof {
                assert(split(next) == split(seen).push(Seq::empty()));
                assert(split(next).drop_last() =~= split(seen));
                assert(split(next).last() =~= p@.subrange(start as int, i + 1));
            }
        } else {
            proof {
                let last = split(seen).last().push(p@[i as int]);
                assert(split(next) == split(seen).drop_last().push(last));
                assert(split(next).drop_last() =~= split(seen).drop_last());
                assert(split(next).last() =~= p@.subrange(start as int, i + 1));
            }
        }
        i += 1;
    }
    proof {
        assert(p@.take(i as int) =~= p@);
        lemma_split_nonempty(p@);
    }
    walk_range(&text, &mut stack, start, i);
    assert(cut(text@, stack@) == segments_of(p@));
    let mut normal = String::new();
    let mut k: usize = 0;
    assert(cut(text@, stack@).take(0) =~= Seq::<Seq<char>>::empty());
    while k < stack.len()
        invariant
            k <= stack.len(),
            text@ == p@,
            within(stack@, text.len() as int),
            normal@ == join(cut(text@, stack@).take(k as int)),
        decreases stack.len() - k,
    {
        let ghost segments = cut(text@, stack@);
        let ghost done = normal@;
        if k > 0 {
            normal.append("/");
        }
        let (from, to) = stack[k];
        normal.append(p.substring_char(from, to));
        proof {
            reveal_strlit("/");
            assert("/"@ =~= seq![SEPARATOR]);
            assert(segments.take(k + 1).drop_last() =~= segments.take(k as int));
            assert(segments.take(k + 1).last() == segments[k as int]);
            if k == 0 {
                assert(done =~= Seq::<char>::empty());
                assert(normal@ =~= segments[0]);
            }
        }
        k += 1;
    }
    assert(cut(text@, stack@).take(k as int) =~= cut(text@, stack@));
    normal
}

/// The location of `name` in the directory `base`.
pub fn locate_in(base: &str, name: &str) -> (location: String)
    ensures
        location@ == locate(base@, name@),
{
    let text = chars_of(base);
    let mut location = String::from_str(base);
    if text.len() > 0 && text[text.len() - 1] != SEPARATOR {
        location.append("/");
        proof {
            reveal_strlit("/");
            assert("/"@ =~= seq![SEPARATOR]);
        }
    }
    location.append(name);
    location
}

/// The pieces of `pieces` that name something: all but the empty ones and
/// `.`. Among them `..` still stands.
pub open spec fn names(pieces: Seq<Seq<char>>) -> Seq<Seq<char>>
    decreases pieces.len(),
{
    if pieces.len() == 0 {
        Seq::empty()
    } else if is_skipped(pieces.last()) {
        names(pieces.drop_last())
    } else {
        names(pieces.drop_last()).push(pieces.last())
    }
}

/// No piece of a split text holds a separator.
pub proof fn lemma_split_pieces_plain(s: Seq<char>)
    ensures
        forall|k: int| 0 <= k < split(s).len() ==> !(#[trigger] split(s)[k]).contains(SEPARATOR),
    decreases s.len(),
{
    if s.len() > 0 {
        let before = split(s.drop_last());
        lemma_split_pieces_plain(s.drop_last());
        lemma_split_nonempty(s.drop_last());
        if s.last() != SEPARATOR {
            let grown = before.last().push(s.last());
            assert forall|j: int| 0 <= j < grown.len() implies grown[j] != SEPARATOR by {
                if j < before.last().len() {
                    assert(before.last()[j] == grown[j]);
                    assert(!before.last().contains(SEPARATOR));
                }
            }
        }
    }
}

/// A text without a separator is its own single piece.
pub proof fn lemma_split_plain(x: Seq<char>)
    requires
        !x.contains(SEPARATOR),
    ensures
        split(x) == seq![x],
    decreases x.len(),
{
    if x.len() > 0 {
        let head = x.drop_last();
        assert forall|j: int| 0 <= j < head.len() implies head[j] != SEPARATOR by {
            assert(head[j] == x[j]);
        }
        lemma_split_plain(head);
        assert(x.last() == x[x.len() - 1]);
        assert(split(x) =~= seq![head.push(x.last())]);
        assert(head.push(x.last()) =~= x);
    } else {
        assert(x =~= Seq::empty());
    }
}

/// Splitting two texts joined by a separator gives the pieces of the first
/// followed by the pieces of the second.
pub proof fn lemma_split_concat(a: Seq<char>, b: Seq<char>)
    ensures
        split(a + seq![SEPARATOR] + b) == split(a) + split(b),
    decreases b.len(),
{
    let whole = a + seq![SEPARATOR] + b;
    if b.len() == 0 {
        assert(whole.drop_last() =~= a);
        assert(split(whole) =~= split(a) + split(b));
    } else {
        let head = b.drop_last();
        lemma_split_concat(a, head);
        lemma_split_nonempty(head);
        lemma_split_nonempty(a);
        assert(whole.drop_last() =~= a + seq![SEPARATOR] + head);
        assert(whole.last() == b.last());
        let before = split(a) + split(head);
        if b.last() == SEPARATOR {
            assert(before.push(Seq::empty()) =~= split(a) + split(head).push(Seq::empty()));
        } else {
            assert(before.last() == split(head).last());
            assert(before.drop_last() =~= split(a) + split(head).drop_last());
            assert(before.drop_last().push(before.last().push(b.last())) =~= split(a) + split(
                head,
            ).drop_last().push(split(head).last().push(b.last())));
        }
    }
}

/// Walking pieces that hold no separator leaves only segments that name an
/// entry of a directory.
pub proof fn lemma_resolve_normal(pieces: Seq<Seq<char>>)
    requires
        forall|k: int| 0 <= k < pieces.len() ==> !(#[trigger] pieces[k]).contains(SEPARATOR),
    ensures
        all_normal(resolve(pieces)),
    decreases pieces.len(),
{
    if pieces.len() > 0 {
        let before = pieces.drop_last();
        assert forall|k: int| 0 <= k < before.len() implies !(#[trigger] before[k]).contains(
            SEPARATOR,
        ) by {
            assert(before[k] == pieces[k]);
        }
        lemma_resolve_normal(before);
        assert(pieces.last() == pieces[pieces.len() - 1]);
    }
}

/// Segments that all name an entry of a directory resolve to themselves.
pub proof fn lemma_resolve_settled(segments: Seq<Seq<char>>)
    requires
        all_normal(segments),
    ensures
        resolve(segments) == segments,
    decreases segments.len(),
{
    if segments.len() > 0 {
        let before = segments.drop_last();
        assert forall|k: int| 0 <= k < before.len() implies is_normal(#[trigger] before[k]) by {
            assert(before[k] == segments[k]);
        }
        lemma_resolve_settled(before);
        assert(is_normal(segments[segments.len() - 1]));
        assert(before.push(segments.last()) =~= segments);
    } else {
        assert(segments =~= Seq::empty());
    }
}

/// Segments that all name an entry of a directory are their own names.
pub proof fn lemma_names_settled(segments: Seq<Seq<char>>)
    requires
        all_normal(segments),
    ensures
        names(segments) == segments,
    decreases segments.len(),
{
    if segments.len() > 0 {
        let before = segments.drop_last();
        assert forall|k: int| 0 <= k < before.len() implies is_normal(#[trigger] before[k]) by {
            assert(before[k] == segments[k]);
        }
        lemma_names_settled(before);
        assert(is_normal(segments[segments.len() - 1]));
        assert(before.push(segments.last()) =~= segments);
    } else {
        assert(segments =~= Seq::empty());
    }
}

/// The names of two runs of pieces are the names of the first followed by
/// the names of the second.
pub proof fn lemma_names_concat(a: Seq<Seq<char>>, b: Seq<Seq<char>>)
    ensures
        names(a + b) == names(a) + names(b),
    decreases b.len(),
{
    if b.len() == 0 {
        assert(a + b =~= a);
        assert(names(a) + names(b) =~= names(a));
    } else {
        lemma_names_concat(a, b.drop_last());
        assert((a + b).drop_last() =~= a + b.drop_last());
        assert((a + b).last() == b.last());
        if !is_skipped(b.last()) {
            assert((names(a) + names(b.drop_last())).push(b.last()) =~= names(a) + names(
                b.drop_last(),
            ).push(b.last()));
        }
    }
}

/// Joined segments split into the same segments again, provided there is at
/// least one and each names an entry of a directory.
pub proof fn lemma_split_join(segments: Seq<Seq<char>>)
    requires
        all_normal(segments),
        segments.len() >= 1,
    ensures
        split(join(segments)) == segments,
    decreases segments.len(),
{
    if segments.len() == 1 {
        assert(is_normal(segments[0]));
        lemma_split_plain(segments[0]);
        assert(seq![segments[0]] =~= segments);
    } else {
        let before = segments.drop_last();
        assert forall|k: int| 0 <= k < before.len() implies is_normal(#[trigger] before[k]) by {
            assert(before[k] == segments[k]);
        }
        lemma_split_join(before);
        assert(is_normal(segments[segments.len() - 1]));
        lemma_split_concat(join(before), segments.last());
        lemma_split_plain(segments.last());
        assert(before + seq![segments.last()] =~= segments);
    }
}

/// The empty text has one piece, which names nothing.
pub proof fn lemma_split_empty()
    ensures
        split(Seq::empty()) == seq![Seq::<char>::empty()],
        names(split(Seq::empty())) == Seq::<Seq<char>>::empty(),
        resolve(split(Seq::empty())) == Seq::<Seq<char>>::empty(),
{
    let blank = seq![Seq::<char>::empty()];
    assert(blank.drop_last() =~= Seq::empty());
    assert(is_skipped(blank.last()));
    assert(!is_parent(blank.last()));
    assert(names(blank.drop_last()) =~= Seq::empty());
    assert(resolve(blank.drop_last()) =~= Seq::empty());
}

/// The segments of any request path each name an entry of a directory: none
/// is `..`, `.` or empty, and none holds a separator.
pub proof fn lemma_segments_normal(path: Seq<char>)
    ensures
        all_normal(segments_of(path)),
{
    lemma_split_pieces_plain(path);
    lemma_resolve_normal(split(path));
}

/// Normalisation is traversal-safe. Whatever the request path holds, its
/// normal form reads as the very segments it was joined from, each naming an
/// entry of a directory, so no `..` and no root marker is left in it. Placed
/// under a content root, the location's names are the root's own names
/// followed by those segments: nothing in the request can climb out of the
/// root.
pub proof fn law_normalise_stays_inside(root: Seq<char>, path: Seq<char>)
    ensures
        all_normal(segments_of(path)),
        segments_of(path).len() == 0 ==> normalise(path).len() == 0,
        segments_of(path).len() > 0 ==> split(normalise(path)) == segments_of(path),
        names(split(normalise(path))) == segments_of(path),
        names(split(locate(root, normalise(path)))) == names(split(root)) + segments_of(path),
{
    let segments = segments_of(path);
    let normal = normalise(path);
    lemma_segments_normal(path);
    if segments.len() > 0 {
        lemma_split_join(segments);
        lemma_names_settled(segments);
    } else {
        assert(normal =~= Seq::empty());
        lemma_split_empty();
        assert(segments =~= Seq::empty());
    }
    if root.len() == 0 {
        assert(root + normal =~= normal);
        assert(root =~= Seq::empty());
        lemma_split_empty();
        assert(names(split(root)) + segments =~= segments);
    } else if root.last() == SEPARATOR {
        let stem = root.drop_last();
        assert(root + normal =~= stem + seq![SEPARATOR] + normal);
        lemma_split_concat(stem, normal);
        lemma_names_concat(split(stem), split(normal));
        assert(split(root) == split(stem).push(Seq::empty()));
        assert(split(root).drop_last() =~= split(stem));
    } else {
        lemma_split_concat(root, normal);
        lemma_names_concat(split(root), split(normal));
    }
}

/// Normalisation is idempotent: the normal form of a normal form is that
/// normal form.
pub proof fn law_normalise_idempotent(path: Seq<char>)
    ensures
        normalise(normalise(path)) == normalise(path),
{
    let segments = segments_of(path);
    lemma_segments_normal(path);
    if segments.len() > 0 {
        lemma_split_join(segments);
        lemma_resolve_settled(segments);
    } else {
        assert(normalise(path) =~= Seq::empty());
        lemma_split_empty();
    }
}

} // verus!
