//! Stable sorting, as an order of positions.
//!
//! A sort is handed out as the list of positions to read the input in, so
//! that the same verified order serves every kind of record.

use vstd::prelude::*;

verus! {

/// `order` lists positions of `keys`, each at most once.
pub open spec fn is_selection(len: int, order: Seq<usize>) -> bool {
    &&& forall|k: int| 0 <= k < order.len() ==> (#[trigger] order[k]) < len
    &&& forall|a: int, b: int|
        0 <= a < b < order.len() ==> (#[trigger] order[a]) != (#[trigger] order[b])
}

/// Read in `order`, the keys never rise, and equal keys keep the order they
/// came in.
pub open spec fn is_stable_descent(keys: Seq<u64>, order: Seq<usize>) -> bool {
    &&& forall|a: int, b: int|
        0 <= a < b < order.len() ==> keys[(#[trigger] order[a]) as int] >= keys[(
        #[trigger] order[b]) as int]
    &&& forall|a: int, b: int|
        0 <= a < b < order.len() && keys[(#[trigger] order[a]) as int] == keys[(
        #[trigger] order[b]) as int] ==> order[a] < order[b]
}

/// `order` is the stable sort of `keys` from the largest down: as many
/// positions as there are keys, none twice, largest key first, ties in input
/// order.
pub open spec fn is_descending_order(keys: Seq<u64>, order: Seq<usize>) -> bool {
    &&& order.len() == keys.len()
    &&& is_selection(keys.len() as int, order)
    &&& is_stable_descent(keys, order)
}

/// The order in which to read `keys` from the largest down; equal keys stay
/// in the order they came in.
pub fn order_by_size_desc(keys: &Vec<u64>) -> (order: Vec<usize>)
    ensures
        is_descending_order(keys@, order@),
{
    let mut order: Vec<usize> = Vec::new();
    let mut i: usize = 0;
    while i < keys.len()
        invariant
            i <= keys.len(),
            order@.len() == i,
            is_selection(i as int, order@),
            is_stable_descent(keys@, order@),
        decreases keys.len() - i,
    {
        let key = keys[i];
        let mut pos: usize = 0;
        while pos < order.len() && keys[order[pos]] >= key
            invariant
                pos <= order@.len(),
                order@.len() == i,
                i < keys.len(),
                key == keys@[i as int],
                is_selection(i as int, order@),
                forall|k: int| 0 <= k < pos ==> keys@[(#[trigger] order@[k]) as int] >= key,
            decreases order@.len() - pos,
        {
            pos += 1;
        }
        let ghost before = order@;
        order.insert(pos, i);
        proof {
            let after = order@;
            assert(after == before.insert(pos as int, i));
            assert forall|k: int| 0 <= k < after.len() implies (#[trigger] after[k]) < i + 1 by {
                if k < pos {
                    assert(after[k] == before[k]);
                } else if k > pos {
                    assert(after[k] == before[k - 1]);
                }
            }
            assert forall|a: int, b: int| 0 <= a < b < after.len() implies (#[trigger] after[a])
                != (#[trigger] after[b]) && keys@[after[a] as int] >= keys@[after[b] as int] && (
            keys@[after[a] as int] == keys@[after[b] as int] ==> after[a] < after[b]) by {
                let x = if a < pos {
                    before[a]
                } else if a == pos {
                    i
                } else {
                    before[a - 1]
                };
                let y = if b < pos {
                    before[b]
                } else if b == pos {
                    i
                } else {
                    before[b - 1]
                };
                assert(after[a] == x);
                assert(after[b] == y);
                if a == pos {
                    // Everything from `pos` on had a smaller key.
                    assert(keys@[before[pos as int] as int] < key);
                    if b - 1 > pos {
                        assert(keys@[before[pos as int] as int] >= keys@[before[b - 1] as int]);
                    }
                } else if b == pos {
                    assert(keys@[before[a] as int] >= key);
                    assert(before[a] < i);
                }
            }
        }
        i += 1;
    }
    order
}

/// `input` read in `order`.
pub open spec fn arranged<T>(input: Seq<T>, order: Seq<usize>) -> Seq<T> {
    Seq::new(order.len(), |k: int| input[order[k] as int])
}

/// `output` is `input` sorted by `keys` from the largest down, equal keys in
/// input order.
pub open spec fn is_sorted_by_size<T>(output: Seq<T>, input: Seq<T>, keys: Seq<u64>) -> bool {
    exists|order: Seq<usize>| is_descending_order(keys, order) && output == arranged(input, order)
}

/// `j` stands somewhere in `order`.
pub open spec fn is_listed(order: Seq<usize>, j: int) -> bool {
    exists|k: int| 0 <= k < order.len() && (#[trigger] order[k]) == j
}

/// A selection that is as long as its input lists every position of it:
/// a sort neither drops nor repeats an entry.
pub proof fn lemma_order_lists_every_position(len: int, order: Seq<usize>)
    requires
        order.len() == len,
        is_selection(len, order),
    ensures
        forall|j: int| 0 <= j < len ==> is_listed(order, j),
{
    let positions = order.map_values(|x: usize| x as int);
    assert(positions.no_duplicates()) by {
        assert forall|a: int, b: int|
            0 <= a < positions.len() && 0 <= b < positions.len() && a != b implies positions[a]
            != positions[b] by {
            if a < b {
                assert(order[a] != order[b]);
            } else {
                assert(order[b] != order[a]);
            }
        }
    }
    positions.unique_seq_to_set();
    let listed = positions.to_set();
    let all = vstd::set_lib::set_int_range(0, len);
    vstd::set_lib::lemma_int_range(0, len);
    assert(listed.subset_of(all)) by {
        assert forall|v: int| listed.contains(v) implies all.contains(v) by {
            let k = choose|k: int| 0 <= k < positions.len() && positions[k] == v;
            assert(order[k] < len);
        }
    }
    assert(listed.finite()) by {
        vstd::set_lib::lemma_len_subset(listed, all);
    }
    vstd::set_lib::lemma_subset_equality(listed, all);
    assert forall|j: int| 0 <= j < len implies is_listed(order, j) by {
        assert(all.contains(j));
        assert(listed.contains(j));
        let k = choose|k: int| 0 <= k < positions.len() && positions[k] == j;
        assert(order[k] == j);
    }
}

/// `a` comes before `b` in dictionary order, characters compared by code
/// point: at the first place where they differ `a` has the smaller
/// character, or `a` ends there and `b` goes on.
pub open spec fn lex_less(a: Seq<char>, b: Seq<char>) -> bool
    decreases a.len(),
{
    if b.len() == 0 {
        false
    } else if a.len() == 0 {
        true
    } else if a[0] != b[0] {
        a[0] < b[0]
    } else {
        lex_less(a.skip(1), b.skip(1))
    }
}

/// Nothing comes before itself.
pub proof fn lemma_lex_irreflexive(a: Seq<char>)
    ensures
        !lex_less(a, a),
    decreases a.len(),
{
    if a.len() > 0 {
        lemma_lex_irreflexive(a.skip(1));
    }
}

/// Dictionary order is transitive.
pub proof fn lemma_lex_transitive(a: Seq<char>, b: Seq<char>, c: Seq<char>)
    requires
        lex_less(a, b),
        lex_less(b, c),
    ensures
        lex_less(a, c),
    decreases a.len(),
{
    if a.len() > 0 && b.len() > 0 && c.len() > 0 {
        if a[0] == b[0] && b[0] == c[0] {
            lemma_lex_transitive(a.skip(1), b.skip(1), c.skip(1));
        }
    }
}

/// Whether `a` comes before `b` in dictionary order.
pub fn comes_before(a: &Vec<char>, b: &Vec<char>) -> (r: bool)
    ensures
        r == lex_less(a@, b@),
{
    let mut i: usize = 0;
    assert(a@.skip(0) =~= a@);
    assert(b@.skip(0) =~= b@);
    while i < a.len() && i < b.len()
        invariant
            i <= a.len(),
            i <= b.len(),
            lex_less(a@, b@) == lex_less(a@.skip(i as int), b@.skip(i as int)),
        decreases a.len() - i,
    {
        let x = a[i];
        let y = b[i];
        proof {
            assert(a@.skip(i as int)[0] == a@[i as int]);
            assert(b@.skip(i as int)[0] == b@[i as int]);
            assert(a@.skip(i as int).skip(1) =~= a@.skip(i + 1));
            assert(b@.skip(i as int).skip(1) =~= b@.skip(i + 1));
        }
        if x != y {
            return x < y;
        }
        i += 1;
    }
    i < b.len()
}

/// Read in `order`, the keys never fall in dictionary order, and equal keys
/// keep the order they came in.
pub open spec fn is_stable_ascent(keys: Seq<Seq<char>>, order: Seq<usize>) -> bool {
    &&& forall|a: int, b: int|
        0 <= a < b < order.len() ==> !lex_less(
            keys[(#[trigger] order[b]) as int],
            keys[(#[trigger] order[a]) as int],
        )
    &&& forall|a: int, b: int|
        0 <= a < b < order.len() && keys[(#[trigger] order[a]) as int] == keys[(
        #[trigger] order[b]) as int] ==> order[a] < order[b]
}

/// `order` is the stable sort of `keys` in dictionary order: as many
/// positions as there are keys, none twice, smallest key first, ties in
/// input order.
pub open spec fn is_dictionary_order(keys: Seq<Seq<char>>, order: Seq<usize>) -> bool {
    &&& order.len() == keys.len()
    &&& is_selection(keys.len() as int, order)
    &&& is_stable_ascent(keys, order)
}

/// The views of a list of keys.
pub open spec fn key_views(keys: Seq<Vec<char>>) -> Seq<Seq<char>> {
    keys.map_values(|k: Vec<char>| k@)
}

/// The order in which to read `keys` in dictionary order; equal keys stay in
/// the order they came in.
pub fn order_by_name(keys: &Vec<Vec<char>>) -> (order: Vec<usize>)
    ensures
        is_dictionary_order(key_views(keys@), order@),
{
    let ghost kv = key_views(keys@);
    let mut order: Vec<usize> = Vec::new();
    let mut i: usize = 0;
    while i < keys.len()
        invariant
            i <= keys.len(),
            kv == key_views(keys@),
            order@.len() == i,
            is_selection(i as int, order@),
            is_stable_ascent(kv, order@),
        decreases keys.len() - i,
    {
        let key = &keys[i];
        let mut pos: usize = 0;
        while pos < order.len() && !comes_before(key, &keys[order[pos]])
            invariant
                pos <= order@.len(),
                order@.len() == i,
                i < keys.len(),
                kv == key_views(keys@),
                key@ == kv[i as int],
                is_selection(i as int, order@),
                forall|k: int| 0 <= k < pos ==> !lex_less(key@, kv[(#[trigger] order@[k]) as int]),
            decreases order@.len() - pos,
        {
            assert(kv[order@[pos as int] as int] == keys@[order@[pos as int] as int]@);
            pos += 1;
        }
        let ghost before = order@;
        proof {
            if pos < order@.len() {
                assert(kv[before[pos as int] as int] == keys@[before[pos as int] as int]@);
            }
        }
        order.insert(pos, i);
        proof {
            let after = order@;
            assert(after == before.insert(pos as int, i));
            assert forall|k: int| 0 <= k < after.len() implies (#[trigger] after[k]) < i + 1 by {
                if k < pos {
                    assert(after[k] == before[k]);
                } else if k > pos {
                    assert(after[k] == before[k - 1]);
                }
            }
            assert forall|a: int, b: int| 0 <= a < b < after.len() implies (#[trigger] after[a])
                != (#[trigger] after[b]) && !lex_less(kv[after[b] as int], kv[after[a] as int])
                && (kv[after[a] as int] == kv[after[b] as int] ==> after[a] < after[b]) by {
                let x = if a < pos {
                    before[a]
                } else if a == pos {
                    i
                } else {
                    before[a - 1]
                };
                let y = if b < pos {
                    before[b]
                } else if b == pos {
                    i
                } else {
                    before[b - 1]
                };
                assert(after[a] == x);
                assert(after[b] == y);
                if a == pos {
                    // The key is smaller than the one it was put in front of,
                    // and so than every later one.
                    let next = kv[before[pos as int] as int];
                    assert(lex_less(key@, next));
                    lemma_lex_irreflexive(key@);
                    if b - 1 > pos {
                        assert(!lex_less(kv[before[b - 1] as int], next));
                    }
                    if lex_less(kv[y as int], key@) {
                        lemma_lex_transitive(kv[y as int], key@, next);
                        lemma_lex_irreflexive(next);
                    }
                    if kv[y as int] == key@ {
                        lemma_lex_irreflexive(next);
                    }
                } else if b == pos {
                    assert(!lex_less(key@, kv[before[a] as int]));
                    assert(before[a] < i);
                }
            }
        }
        i += 1;
    }
    order
}

} // verus!
