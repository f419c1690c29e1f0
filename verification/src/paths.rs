//! Device enumeration: from the listing of a directory to the paths of the
//! devices in it, in one fixed order.
//!
//! The caller lists the directory. A listing is `None` where the directory
//! could not be listed; an entry is `None` where its name is no text.

use crate::text::{chars_of, has_prefix, starts_with, string_of, texts};
use vstd::prelude::*;
use vstd::relations::{sorted_by, total_ordering};
use vstd::seq_lib::{lemma_sorted_unique, to_multiset_insert};

verus! {

/// The path of the entry `name` of the directory `base`.
pub open spec fn join_path(base: Seq<char>, name: Seq<char>) -> Seq<char> {
    if base.len() == 0 || base.last() == '/' {
        base + name
    } else {
        base + seq!['/'] + name
    }
}

/// The order of paths: character by character, a path before those that
/// it begins.
pub open spec fn path_le(a: Seq<char>, b: Seq<char>) -> bool
    decreases a.len(),
{
    if a.len() == 0 {
        true
    } else if b.len() == 0 {
        false
    } else if a[0] != b[0] {
        a[0] < b[0]
    } else {
        path_le(a.drop_first(), b.drop_first())
    }
}

/// Whether each path stands before all that follow it.
pub open spec fn paths_sorted(paths: Seq<Seq<char>>) -> bool {
    forall|i: int, j: int| 0 <= i < j < paths.len() ==> path_le(#[trigger] paths[i], #[trigger] paths[j])
}

/// What an entry of a listing gives: its path, where its name is text that
/// begins with `prefix`.
pub open spec fn kept(base: Seq<char>, prefix: Seq<char>, entry: Option<Seq<char>>) -> Option<
    Seq<char>,
> {
    match entry {
        Some(name) => if starts_with(name, prefix) {
            Some(join_path(base, name))
        } else {
            None
        },
        None => None,
    }
}

/// The paths that a listing gives, in the order of the listing.
pub open spec fn candidates(
    base: Seq<char>,
    prefix: Seq<char>,
    listing: Option<Seq<Option<Seq<char>>>>,
) -> Seq<Seq<char>> {
    match listing {
        None => Seq::empty(),
        Some(entries) => entries.filter_map(|e: Option<Seq<char>>| kept(base, prefix, e)),
    }
}

/// The view of an entry of a listing.
pub open spec fn entry_view(entry: Option<String>) -> Option<Seq<char>> {
    match entry {
        Some(name) => Some(name@),
        None => None,
    }
}

/// The view of a listing.
pub open spec fn listing_view(listing: Option<Vec<Option<String>>>) -> Option<
    Seq<Option<Seq<char>>>,
> {
    match listing {
        Some(entries) => Some(entries@.map_values(|e: Option<String>| entry_view(e))),
        None => None,
    }
}

/// Every path stands before itself.
pub proof fn lemma_path_le_reflexive(a: Seq<char>)
    ensures
        path_le(a, a),
    decreases a.len(),
{
    if a.len() > 0 {
        lemma_path_le_reflexive(a.drop_first());
    }
}

/// Two paths that stand before each other are one path.
pub proof fn lemma_path_le_antisymmetric(a: Seq<char>, b: Seq<char>)
    requires
        path_le(a, b),
        path_le(b, a),
    ensures
        a == b,
    decreases a.len(),
{
    if a.len() == 0 || b.len() == 0 {
        assert(a =~= b);
    } else {
        lemma_path_le_antisymmetric(a.drop_first(), b.drop_first());
        assert(a =~= seq![a[0]] + a.drop_first());
        assert(b =~= seq![b[0]] + b.drop_first());
    }
}

/// The order of paths is transitive.
pub proof fn lemma_path_le_transitive(a: Seq<char>, b: Seq<char>, c: Seq<char>)
    requires
        path_le(a, b),
        path_le(b, c),
    ensures
        path_le(a, c),
    decreases a.len(),
{
    if a.len() > 0 && b.len() > 0 && c.len() > 0 {
        if a[0] == b[0] && b[0] == c[0] {
            lemma_path_le_transitive(a.drop_first(), b.drop_first(), c.drop_first());
        }
    }
}

/// Of two paths, one stands before the other.
pub proof fn lemma_path_le_total(a: Seq<char>, b: Seq<char>)
    ensures
        path_le(a, b) || path_le(b, a),
    decreases a.len(),
{
    if a.len() > 0 && b.len() > 0 && a[0] == b[0] {
        lemma_path_le_total(a.drop_first(), b.drop_first());
    }
}

/// Two enumerations of the same paths are the same enumeration: the order of
/// the result does not depend on the order of the listing.
pub proof fn lemma_enumeration_unique(x: Seq<Seq<char>>, y: Seq<Seq<char>>)
    requires
        paths_sorted(x),
        paths_sorted(y),
        x.to_multiset() == y.to_multiset(),
    ensures
        x == y,
{
    let leq = |a: Seq<char>, b: Seq<char>| path_le(a, b);
    assert forall|a: Seq<char>| #[trigger] leq(a, a) by {
        lemma_path_le_reflexive(a);
    }
    assert forall|a: Seq<char>, b: Seq<char>| #[trigger] leq(a, b) && #[trigger] leq(b, a) implies a
        == b by {
        lemma_path_le_antisymmetric(a, b);
    }
    assert forall|a: Seq<char>, b: Seq<char>, c: Seq<char>| #[trigger]
        leq(a, b) && #[trigger] leq(b, c) implies leq(a, c) by {
        lemma_path_le_transitive(a, b, c);
    }
    assert forall|a: Seq<char>, b: Seq<char>| #[trigger] leq(a, b) || #[trigger] leq(b, a) by {
        lemma_path_le_total(a, b);
    }
    assert(total_ordering(leq));
    assert(sorted_by(x, leq));
    assert(sorted_by(y, leq));
    lemma_sorted_unique(x, y, leq);
}

/// The paths of two listings put end to end are the paths of the first and
/// those of the second.
proof fn lemma_candidates_concat(
    base: Seq<char>,
    prefix: Seq<char>,
    a: Seq<Option<Seq<char>>>,
    b: Seq<Option<Seq<char>>>,
)
    ensures
        candidates(base, prefix, Some(a + b)) == candidates(base, prefix, Some(a)) + candidates(
            base,
            prefix,
            Some(b),
        ),
    decreases b.len(),
{
    let keep = |e: Option<Seq<char>>| kept(base, prefix, e);
    if b.len() == 0 {
        assert(a + b == a);
        assert(a.filter_map(keep) + b.filter_map(keep) == a.filter_map(keep));
    } else {
        lemma_candidates_concat(base, prefix, a, b.drop_last());
        assert((a + b).drop_last() == a + b.drop_last());
        assert((a + b).last() == b.last());
        match keep(b.last()) {
            Some(path) => {
                assert((a.filter_map(keep) + b.drop_last().filter_map(keep)) + seq![path]
                    == a.filter_map(keep) + (b.drop_last().filter_map(keep) + seq![path]));
            },
            None => {},
        }
    }
}

/// Two listings that hold the same entries, in whatever order, give the same
/// paths, in whatever order.
pub proof fn lemma_candidates_of_reordered(
    base: Seq<char>,
    prefix: Seq<char>,
    a: Seq<Option<Seq<char>>>,
    b: Seq<Option<Seq<char>>>,
)
    requires
        a.to_multiset() == b.to_multiset(),
    ensures
        candidates(base, prefix, Some(a)).to_multiset() == candidates(
            base,
            prefix,
            Some(b),
        ).to_multiset(),
    decreases a.len(),
{
    broadcast use vstd::seq_lib::group_to_multiset_ensures;
    broadcast use vstd::multiset::group_multiset_axioms;

    let keep = |e: Option<Seq<char>>| kept(base, prefix, e);
    if a.len() == 0 {
        assert(a.to_multiset().len() == a.len());
        assert(b.to_multiset().len() == b.len());
        assert(a == b);
    } else {
        let x = a.last();
        let a1 = a.drop_last();
        assert(a == a1.push(x));
        assert(b.to_multiset().count(x) > 0);
        assert(b.contains(x));
        let j = choose|j: int| 0 <= j < b.len() && b[j] == x;
        let b1 = b.remove(j);
        assert(a1.to_multiset() =~= a.to_multiset().remove(x));
        assert(a1.to_multiset() == b1.to_multiset());
        lemma_candidates_of_reordered(base, prefix, a1, b1);
        let head = b.subrange(0, j);
        let tail = b.subrange(j + 1, b.len() as int);
        assert(b == head + seq![x] + tail);
        assert(b1 == head + tail);
        lemma_candidates_concat(base, prefix, head, seq![x]);
        lemma_candidates_concat(base, prefix, head + seq![x], tail);
        lemma_candidates_concat(base, prefix, head, tail);
        lemma_candidates_concat(base, prefix, a1, seq![x]);
        assert(a == a1 + seq![x]);
        let ca = candidates(base, prefix, Some(a1));
        let ch = candidates(base, prefix, Some(head));
        let ct = candidates(base, prefix, Some(tail));
        let cx = candidates(base, prefix, Some(seq![x]));
        vstd::seq_lib::lemma_multiset_commutative(ca, cx);
        vstd::seq_lib::lemma_multiset_commutative(ch, cx);
        vstd::seq_lib::lemma_multiset_commutative(ch + cx, ct);
        vstd::seq_lib::lemma_multiset_commutative(ch, ct);
        assert((ch + cx + ct).to_multiset() =~= (ch + ct).to_multiset().add(cx.to_multiset()));
    }
}

/// The enumeration of a directory does not depend on the order in which
/// its entries are listed: two results for listings that hold the same
/// entries are the same.
pub proof fn lemma_enumeration_stable(
    base: Seq<char>,
    prefix: Seq<char>,
    first_listing: Seq<Option<Seq<char>>>,
    second_listing: Seq<Option<Seq<char>>>,
    first: Seq<Seq<char>>,
    second: Seq<Seq<char>>,
)
    requires
        first_listing.to_multiset() == second_listing.to_multiset(),
        paths_sorted(first),
        first.to_multiset() == candidates(base, prefix, Some(first_listing)).to_multiset(),
        paths_sorted(second),
        second.to_multiset() == candidates(base, prefix, Some(second_listing)).to_multiset(),
    ensures
        first == second,
{
    lemma_candidates_of_reordered(base, prefix, first_listing, second_listing);
    lemma_enumeration_unique(first, second);
}

/// Dropping equal first parts leaves the order of two paths as it was.
proof fn lemma_path_le_skip(a: Seq<char>, b: Seq<char>, k: int)
    requires
        0 <= k <= a.len(),
        k <= b.len(),
        forall|i: int| 0 <= i < k ==> a[i] == b[i],
    ensures
        path_le(a, b) == path_le(a.skip(k), b.skip(k)),
    decreases k,
{
    if k == 0 {
        assert(a.skip(0) == a);
        assert(b.skip(0) == b);
    } else {
        let a1 = a.drop_first();
        let b1 = b.drop_first();
        assert forall|i: int| 0 <= i < k - 1 implies a1[i] == b1[i] by {
            assert(a1[i] == a[i + 1]);
            assert(b1[i] == b[i + 1]);
        }
        lemma_path_le_skip(a1, b1, k - 1);
        assert(a1.skip(k - 1) == a.skip(k));
        assert(b1.skip(k - 1) == b.skip(k));
        assert(a[0] == b[0]);
    }
}

/// Whether the path `a` stands before the path `b`, or is `b`.
pub fn path_before(a: &Vec<char>, b: &Vec<char>) -> (r: bool)
    ensures
        r == path_le(a@, b@),
{
    let mut i: usize = 0;
    while i < a.len() && i < b.len()
        invariant
            i <= a.len(),
            i <= b.len(),
            forall|k: int| 0 <= k < i ==> a@[k] == b@[k],
        decreases a.len() - i,
    {
        if a[i] != b[i] {
            proof {
                lemma_path_le_skip(a@, b@, i as int);
                assert(a@.skip(i as int)[0] == a@[i as int]);
                assert(b@.skip(i as int)[0] == b@[i as int]);
            }
            return a[i] < b[i];
        }
        i += 1;
    }
    proof {
        lemma_path_le_skip(a@, b@, i as int);
    }
    a.len() <= b.len()
}

/// Joins a directory and the name of an entry into the path of the entry.
pub fn join_entry(base: &Vec<char>, name: &Vec<char>) -> (path: Vec<char>)
    ensures
        path@ == join_path(base@, name@),
{
    let mut path: Vec<char> = base.clone();
    if base.len() > 0 && base[base.len() - 1] != '/' {
        path.push('/');
    }
    let ghost head = path@;
    let mut i: usize = 0;
    while i < name.len()
        invariant
            i <= name.len(),
            path@ == head + name@.take(i as int),
        decreases name.len() - i,
    {
        path.push(name[i]);
        assert(name@.take(i + 1) == name@.take(i as int).push(name@[i as int]));
        i += 1;
    }
    assert(name@.take(name.len() as int) == name@);
    path
}

/// The views of a sequence of character vectors.
pub open spec fn lines(v: Seq<Vec<char>>) -> Seq<Seq<char>> {
    v.map_values(|line: Vec<char>| line@)
}

/// Puts a path into a sorted sequence of paths, at its place.
fn insert_sorted(sorted: &mut Vec<Vec<char>>, path: Vec<char>)
    requires
        paths_sorted(lines(old(sorted)@)),
    ensures
        paths_sorted(lines(final(sorted)@)),
        lines(final(sorted)@).to_multiset() == lines(old(sorted)@).to_multiset().insert(path@),
{
    let ghost before = lines(sorted@);
    let mut at: usize = 0;
    while at < sorted.len() && path_before(&sorted[at], &path)
        invariant
            at <= sorted.len(),
            sorted@ == old(sorted)@,
            before == lines(sorted@),
            forall|k: int| 0 <= k < at ==> path_le(#[trigger] before[k], path@),
        decreases sorted.len() - at,
    {
        at += 1;
    }
    proof {
        let after = before.insert(at as int, path@);
        assert forall|i: int, j: int| 0 <= i < j < after.len() implies path_le(
            #[trigger] after[i],
            #[trigger] after[j],
        ) by {
            if j == at {
                assert(after[i] == before[i]);
            } else if i == at {
                // the path stands before the one whose place it takes, and
                // so before all that follow
                assert(after[j] == before[j - 1]);
                lemma_path_le_total(before[at as int], path@);
                if j - 1 > at {
                    assert(path_le(before[at as int], before[j - 1]));
                    lemma_path_le_transitive(path@, before[at as int], before[j - 1]);
                }
            } else {
                let i0 = if i < at { i } else { i - 1 };
                let j0 = if j < at { j } else { j - 1 };
                assert(after[i] == before[i0]);
                assert(after[j] == before[j0]);
                assert(path_le(before[i0], before[j0]));
            }
        }
        to_multiset_insert(before, at as int, path@);
        assert(lines(sorted@.insert(at as int, path)) =~= after);
    }
    sorted.insert(at, path);
}

/// The paths of the entries of a directory whose names begin with `prefix`,
/// sorted. A directory that could not be listed gives none, and an entry
/// whose name is no text is left out.
pub fn get_paths(base_path: &str, prefix: &str, listing: &Option<Vec<Option<String>>>) -> (paths:
    Vec<String>)
    ensures
        paths_sorted(texts(paths@)),
        texts(paths@).to_multiset() == candidates(
            base_path@,
            prefix@,
            listing_view(*listing),
        ).to_multiset(),
{
    let mut paths: Vec<String> = Vec::new();
    let entries = match listing {
        None => {
            assert(texts(paths@) =~= Seq::<Seq<char>>::empty());
            return paths;
        },
        Some(entries) => entries,
    };
    let base = chars_of(base_path);
    let wanted = chars_of(prefix);
    let ghost names = entries@.map_values(|e: Option<String>| entry_view(e));
    let ghost keep = |e: Option<Seq<char>>| kept(base_path@, prefix@, e);
    let mut sorted: Vec<Vec<char>> = Vec::new();
    let mut i: usize = 0;
    assert(lines(sorted@) =~= names.take(0).filter_map(keep));
    while i < entries.len()
        invariant
            i <= entries.len(),
            base@ == base_path@,
            wanted@ == prefix@,
            names == entries@.map_values(|e: Option<String>| entry_view(e)),
            keep == |e: Option<Seq<char>>| kept(base_path@, prefix@, e),
            paths_sorted(lines(sorted@)),
            lines(sorted@).to_multiset() == names.take(i as int).filter_map(keep).to_multiset(),
        decreases entries.len() - i,
    {
        proof {
            names.lemma_filter_map_take_succ(keep, i as int);
            assert(names[i as int] == entry_view(entries@[i as int]));
        }
        match &entries[i] {
            None => {},
            Some(name) => {
                let name_chars = chars_of(name.as_str());
                if has_prefix(&name_chars, &wanted) {
                    let path = join_entry(&base, &name_chars);
                    proof {
                        vstd::seq_lib::to_multiset_build(
                            names.take(i as int).filter_map(keep),
                            path@,
                        );
                        assert(names.take(i as int).filter_map(keep) + seq![path@]
                            == names.take(i as int).filter_map(keep).push(path@));
                    }
                    insert_sorted(&mut sorted, path);
                }
            },
        }
        i += 1;
    }
    assert(names.take(entries.len() as int) == names);
    let mut k: usize = 0;
    while k < sorted.len()
        invariant
            k <= sorted.len(),
            texts(paths@) == lines(sorted@).take(k as int),
        decreases sorted.len() - k,
    {
        let ghost so_far = texts(paths@);
        paths.push(string_of(&sorted[k]));
        assert(texts(paths@) =~= so_far.push(sorted@[k as int]@));
        assert(lines(sorted@).take(k + 1) =~= lines(sorted@).take(k as int).push(
            sorted@[k as int]@,
        ));
        k += 1;
    }
    assert(lines(sorted@).take(sorted.len() as int) == lines(sorted@));
    paths
}

} // verus!
