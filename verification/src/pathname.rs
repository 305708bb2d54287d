//! Path syntax: components, containment by whole components, and joining.
//!
//! A path is a string; `/` separates its components. Nothing here touches
//! the filesystem.

use crate::text::{
    chars_of, lemma_split_is_nonempty, same_chars, split, split_chars, string_of, views,
};
use vstd::prelude::*;

verus! {

/// The piece names a directory entry: it is neither empty nor `.`.
pub open spec fn is_named(piece: Seq<char>) -> bool {
    piece.len() > 0 && piece != seq!['.']
}

/// `is_named` as a predicate value.
pub open spec fn named() -> spec_fn(Seq<char>) -> bool {
    |piece: Seq<char>| is_named(piece)
}

/// `path` begins at the root.
pub open spec fn is_rooted(path: Seq<char>) -> bool {
    path.len() > 0 && path[0] == '/'
}

/// What stands in front of the named components: `/` for a rooted path, `.`
/// for a relative path whose first piece is `.`, and nothing otherwise.
pub open spec fn lead(path: Seq<char>) -> Seq<Seq<char>> {
    if is_rooted(path) {
        seq![seq!['/']]
    } else if split(path, '/')[0] == seq!['.'] {
        seq![seq!['.']]
    } else {
        Seq::<Seq<char>>::empty()
    }
}

/// The components of `path`: its lead, then every piece between separators
/// that is neither empty nor `.`. Repeated separators, a trailing separator
/// and inner `.` pieces leave no trace; `..` is kept as it stands.
pub open spec fn components(path: Seq<char>) -> Seq<Seq<char>> {
    lead(path) + split(path, '/').filter(named())
}

/// `path` is `base` or lies below it, compared component by component.
pub open spec fn path_starts_with(path: Seq<char>, base: Seq<char>) -> bool {
    components(base).is_prefix_of(components(path))
}

/// `base` with `rest` appended as a path: an absolute `rest` replaces `base`;
/// otherwise a separator is put between them unless `base` is empty or
/// already ends in one.
pub open spec fn joined(base: Seq<char>, rest: Seq<char>) -> Seq<char> {
    if is_rooted(rest) {
        rest
    } else if base.len() == 0 || base.last() == '/' {
        base + rest
    } else {
        base + seq!['/'] + rest
    }
}

/// The components of `path`.
pub fn components_of(path: &Vec<char>) -> (comps: Vec<Vec<char>>)
    ensures
        views(comps@) == components(path@),
{
    let pieces = split_chars(path, '/');
    let mut comps: Vec<Vec<char>> = Vec::new();
    proof {
        lemma_split_is_nonempty(path@, '/');
    }
    assert(views(pieces@)[0] == pieces@[0]@);
    if path.len() > 0 && path[0] == '/' {
        let root = vec!['/'];
        assert(root@ =~= seq!['/']);
        comps.push(root);
        assert(views(comps@)[0] == seq!['/']);
    } else if pieces[0].len() == 1 && pieces[0][0] == '.' {
        assert(pieces@[0]@ =~= seq!['.']);
        let dot = vec!['.'];
        assert(dot@ =~= seq!['.']);
        comps.push(dot);
        assert(views(comps@)[0] == seq!['.']);
    } else {
        assert(pieces@[0]@ != seq!['.']) by {
            if pieces@[0]@ == seq!['.'] {
                assert(pieces@[0]@.len() == 1);
                assert(pieces@[0]@[0] == '.');
            }
        }
    }
    assert(views(comps@) =~= lead(path@));
    let mut i: usize = 0;
    assert(views(pieces@).take(0) =~= Seq::<Seq<char>>::empty());
    proof {
        reveal(Seq::filter);
    }
    assert(views(pieces@).take(0).filter(named()) =~= Seq::<Seq<char>>::empty());
    while i < pieces.len()
        invariant
            i <= pieces.len(),
            views(comps@) == lead(path@) + views(pieces@).take(i as int).filter(named()),
        decreases pieces.len() - i,
    {
        let piece = &pieces[i];
        let keep = piece.len() > 0 && !(piece.len() == 1 && piece[0] == '.');
        proof {
            let all = views(pieces@);
            assert(all[i as int] == piece@);
            assert(keep == is_named(piece@)) by {
                if piece.len() == 1 && piece[0] == '.' {
                    assert(piece@ =~= seq!['.']);
                }
            }
            assert(all.take(i + 1) =~= all.take(i as int).push(piece@));
            all.take(i as int).lemma_filter_push(piece@, named());
        }
        if keep {
            let ghost before = comps@;
            comps.push(piece.clone());
            assert(views(comps@) =~= views(before).push(piece@));
        }
        i += 1;
    }
    assert(views(pieces@).take(pieces.len() as int) =~= views(pieces@));
    comps
}

/// Where a text does not begin with the separator, its first piece begins
/// as the text does.
pub proof fn lemma_first_piece(s: Seq<char>, sep: char)
    requires
        s.len() > 0,
        s[0] != sep,
    ensures
        split(s, sep).len() > 0,
        split(s, sep)[0].len() > 0,
        split(s, sep)[0][0] == s[0],
    decreases s.len(),
{
    let t = s.drop_last();
    lemma_split_is_nonempty(t, sep);
    if t.len() > 0 {
        lemma_first_piece(t, sep);
    }
}

/// The empty path has no components, and it is the only such path.
pub proof fn lemma_components_of_nothing(path: Seq<char>)
    ensures
        components(path).len() == 0 <==> path.len() == 0,
{
    if path.len() == 0 {
        let none = Seq::<Seq<char>>::empty();
        assert(split(path, '/') =~= none.push(Seq::<char>::empty()));
        none.lemma_filter_push(Seq::<char>::empty(), named());
        assert(none.filter(named()) =~= none) by {
            reveal(Seq::filter);
        }
        assert(split(path, '/')[0].len() == 0);
        assert(components(path) =~= none);
    } else if !is_rooted(path) {
        lemma_first_piece(path, '/');
        let pieces = split(path, '/');
        if pieces[0] != seq!['.'] {
            assert(is_named(pieces[0]));
            pieces.lemma_filter_contains(named(), 0);
            let kept = pieces.filter(named());
            assert(kept.contains(pieces[0]));
            assert(kept.len() > 0);
        }
    }
}

/// The empty path is on or under no path that has a character.
pub proof fn lemma_empty_path_lies_nowhere(base: Seq<char>)
    requires
        base.len() > 0,
    ensures
        !path_starts_with(Seq::<char>::empty(), base),
{
    lemma_components_of_nothing(base);
    lemma_components_of_nothing(Seq::<char>::empty());
}

/// Whether the component list `base` is a prefix of the component list `path`.
pub fn components_start_with(path: &Vec<Vec<char>>, base: &Vec<Vec<char>>) -> (r: bool)
    ensures
        r == views(base@).is_prefix_of(views(path@)),
{
    if base.len() > path.len() {
        return false;
    }
    let mut i: usize = 0;
    while i < base.len()
        invariant
            i <= base.len() <= path.len(),
            views(base@).take(i as int) == views(path@).take(i as int),
        decreases base.len() - i,
    {
        if !same_chars(&path[i], &base[i]) {
            proof {
                let b = views(base@);
                let p = views(path@);
                if b.is_prefix_of(p) {
                    assert(p.subrange(0, b.len() as int)[i as int] == b[i as int]);
                }
            }
            return false;
        }
        proof {
            let b = views(base@);
            let p = views(path@);
            assert(b.take(i + 1) =~= b.take(i as int).push(b[i as int]));
            assert(p.take(i + 1) =~= p.take(i as int).push(p[i as int]));
        }
        i += 1;
    }
    proof {
        let b = views(base@);
        let p = views(path@);
        assert(b.take(b.len() as int) =~= b);
        assert(p.take(b.len() as int) =~= p.subrange(0, b.len() as int));
    }
    true
}

/// Whether `path` is `base` or lies below it, by whole components.
pub fn starts_with_path(path: &str, base: &str) -> (r: bool)
    ensures
        r == path_starts_with(path@, base@),
{
    let p = components_of(&chars_of(path));
    let b = components_of(&chars_of(base));
    components_start_with(&p, &b)
}

/// Appends `rest` to `base` as a path, on characters.
pub fn join_chars(base: &Vec<char>, rest: &Vec<char>) -> (out: Vec<char>)
    ensures
        out@ == joined(base@, rest@),
{
    if rest.len() > 0 && rest[0] == '/' {
        return rest.clone();
    }
    let mut out = base.clone();
    if out.len() > 0 && out[out.len() - 1] != '/' {
        out.push('/');
    }
    let ghost head = out@;
    let mut i: usize = 0;
    while i < rest.len()
        invariant
            i <= rest.len(),
            out@ == head + rest@.take(i as int),
        decreases rest.len() - i,
    {
        out.push(rest[i]);
        assert(rest@.take(i + 1) =~= rest@.take(i as int).push(rest@[i as int]));
        i += 1;
    }
    assert(rest@.take(rest.len() as int) =~= rest@);
    out
}

/// Appends `rest` to `base` as a path.
pub fn join_path(base: &str, rest: &str) -> (r: String)
    ensures
        r@ == joined(base@, rest@),
{
    string_of(&join_chars(&chars_of(base), &chars_of(rest)))
}

} // verus!
