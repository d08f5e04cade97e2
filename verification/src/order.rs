//! Sorting of entries under the display ordering, with the laws the
//! ordering obeys: asymmetry, the equality it induces, transitivity on
//! extension-uniform entries, stability of the sort, and the shape of a
//! sorted listing (directories first, hidden first within each class).

use vstd::prelude::*;
use vstd::multiset::Multiset;

use crate::file_entry::{FileEntry, spec_cmp};
use crate::text::{Rel, lex_cmp, lemma_lex_equal, lemma_lex_antisym, lemma_lex_trans};
use crate::unicode::lower_of;

verus! {

/// Adjacent-sortedness: no entry compares `Greater` to its successor.
pub open spec fn adj_sorted(s: Seq<FileEntry>) -> bool {
    forall|i: int| 0 <= i < s.len() - 1 ==> spec_cmp(#[trigger] s[i], s[i + 1]) != Rel::Greater
}

/// The refinement of the comparator's equality that sorting keeps stable:
/// same class, same hidden flag, same extension, same case-folded name.
pub open spec fn same_key(a: FileEntry, b: FileEntry) -> bool {
    &&& a.is_directory == b.is_directory
    &&& a.is_hidden == b.is_hidden
    &&& ext_eq(a.extension, b.extension)
    &&& lower_of(a.name@) == lower_of(b.name@)
}

/// Equality of optional extensions by their characters.
pub open spec fn ext_eq(a: Option<String>, b: Option<String>) -> bool {
    match (a, b) {
        (Some(x), Some(y)) => x@ == y@,
        (None, None) => true,
        _ => false,
    }
}

/// The predicate `same_key(_, e)`, for stating stability as filtering.
pub open spec fn key_pred(e: FileEntry) -> spec_fn(FileEntry) -> bool {
    |x: FileEntry| same_key(x, e)
}

/// A non-directory counts as extension-bearing or extension-free;
/// directories never reach the extension stage of the comparator.
pub open spec fn has_ext_class(e: FileEntry) -> bool {
    e.is_directory || e.extension is Some
}

/// See [`has_ext_class`].
pub open spec fn no_ext_class(e: FileEntry) -> bool {
    e.is_directory || e.extension is None
}

/// Extension-uniformity of three entries: every non-directory among them
/// has an extension, or none of them has one. On mixed sets the conditional
/// extension stage makes the comparator non-transitive.
pub open spec fn ext_uniform3(a: FileEntry, b: FileEntry, c: FileEntry) -> bool {
    (has_ext_class(a) && has_ext_class(b) && has_ext_class(c)) || (no_ext_class(a)
        && no_ext_class(b) && no_ext_class(c))
}

/// Extension-uniformity of a whole entry set.
pub open spec fn ext_uniform_seq(s: Seq<FileEntry>) -> bool {
    (forall|i: int| 0 <= i < s.len() ==> has_ext_class(s[i])) || (forall|i: int|
        0 <= i < s.len() ==> no_ext_class(s[i]))
}

/// For any two entries the comparator answers exactly one of `Less`,
/// `Equal`, `Greater`, and swapping the arguments swaps `Less` with
/// `Greater` and keeps `Equal`.
pub proof fn lemma_cmp_antisym(a: FileEntry, b: FileEntry)
    ensures
        spec_cmp(a, b) == Rel::Less <==> spec_cmp(b, a) == Rel::Greater,
        spec_cmp(a, b) == Rel::Equal <==> spec_cmp(b, a) == Rel::Equal,
        spec_cmp(a, b) == Rel::Greater <==> spec_cmp(b, a) == Rel::Less,
{
    reveal(spec_cmp);
    if a.extension is Some && b.extension is Some {
        lemma_lex_antisym(a.extension.unwrap()@, b.extension.unwrap()@);
        lemma_lex_equal(a.extension.unwrap()@, b.extension.unwrap()@);
    }
    lemma_lex_antisym(lower_of(a.name@), lower_of(b.name@));
}

/// The comparator answers `Equal` only on entries whose case-folded names
/// are equal (and that share class, hidden flag, and extension stage).
pub proof fn lemma_cmp_equal_name(a: FileEntry, b: FileEntry)
    ensures
        spec_cmp(a, b) == Rel::Equal ==> lower_of(a.name@) == lower_of(b.name@)
            && a.is_directory == b.is_directory && a.is_hidden == b.is_hidden,
{
    reveal(spec_cmp);
    if a.extension is Some && b.extension is Some {
        lemma_lex_equal(a.extension.unwrap()@, b.extension.unwrap()@);
    }
    lemma_lex_equal(lower_of(a.name@), lower_of(b.name@));
}

/// Entries with the same key compare `Equal`.
pub proof fn lemma_same_key_equal(a: FileEntry, b: FileEntry)
    requires
        same_key(a, b),
    ensures
        spec_cmp(a, b) == Rel::Equal,
{
    reveal(spec_cmp);
    lemma_lex_equal(lower_of(a.name@), lower_of(b.name@));
}

/// Order-and-equality facts about `lex_cmp` in one total form.
proof fn lemma_lex_le_trans(a: Seq<char>, b: Seq<char>, c: Seq<char>)
    ensures
        lex_cmp(a, b) != Rel::Greater && lex_cmp(b, c) != Rel::Greater ==> lex_cmp(a, c)
            != Rel::Greater,
        lex_cmp(a, b) == Rel::Less && lex_cmp(b, c) == Rel::Less ==> lex_cmp(a, c) == Rel::Less,
{
    lemma_lex_equal(a, b);
    lemma_lex_equal(b, c);
    lemma_lex_equal(a, c);
    lemma_lex_antisym(a, b);
    lemma_lex_antisym(b, c);
    lemma_lex_antisym(a, c);
    if lex_cmp(a, b) == Rel::Less && lex_cmp(b, c) == Rel::Less {
        lemma_lex_trans(a, b, c);
    }
}

/// Transitivity of the display ordering on extension-uniform entries.
/// On mixed entries it can fail: among the files `a.z`, `b`, `c.a` the
/// first sorts before the second and the second before the third by name,
/// yet the third sorts before the first by extension.
pub proof fn lemma_cmp_transitive(a: FileEntry, b: FileEntry, c: FileEntry)
    requires
        ext_uniform3(a, b, c),
    ensures
        spec_cmp(a, b) != Rel::Greater && spec_cmp(b, c) != Rel::Greater ==> spec_cmp(a, c)
            != Rel::Greater,
        spec_cmp(a, b) == Rel::Less && spec_cmp(b, c) == Rel::Less ==> spec_cmp(a, c)
            == Rel::Less,
{
    reveal(spec_cmp);
    lemma_lex_le_trans(lower_of(a.name@), lower_of(b.name@), lower_of(c.name@));
    if a.extension is Some && b.extension is Some {
        lemma_lex_equal(a.extension.unwrap()@, b.extension.unwrap()@);
    }
    if b.extension is Some && c.extension is Some {
        lemma_lex_equal(b.extension.unwrap()@, c.extension.unwrap()@);
    }
    if a.extension is Some && c.extension is Some {
        lemma_lex_equal(a.extension.unwrap()@, c.extension.unwrap()@);
    }
    if a.extension is Some && b.extension is Some && c.extension is Some {
        lemma_lex_le_trans(a.extension.unwrap()@, b.extension.unwrap()@, c.extension.unwrap()@);
    }
}

/// Along an adjacent-sorted listing, the directory flag never turns back on
/// once off, and within one class the hidden flag never turns back on.
proof fn lemma_sorted_chain(s: Seq<FileEntry>, i: int, j: int)
    requires
        adj_sorted(s),
        0 <= i <= j < s.len(),
    ensures
        s[j].is_directory ==> s[i].is_directory,
        s[i].is_directory == s[j].is_directory && s[j].is_hidden ==> s[i].is_hidden,
    decreases j - i,
{
    if i < j {
        reveal(spec_cmp);
        lemma_sorted_chain(s, i, j - 1);
        assert(spec_cmp(s[j - 1], s[j]) != Rel::Greater);
        if s[i].is_directory == s[j].is_directory && s[j].is_hidden {
            if s[j].is_directory {
                assert(s[j - 1].is_directory);
            } else {
                assert(!s[j - 1].is_directory);
            }
        }
    }
}

/// In a sorted listing directories precede files, and within each of the
/// two classes hidden entries precede non-hidden ones.
#[verifier::rlimit(100)]
pub proof fn lemma_directories_first(s: Seq<FileEntry>)
    requires
        adj_sorted(s),
    ensures
        forall|i: int, j: int|
            0 <= i < j < s.len() && s[j].is_directory ==> s[i].is_directory,
        forall|i: int, j: int|
            0 <= i < j < s.len() && s[i].is_directory == s[j].is_directory && s[j].is_hidden
                ==> s[i].is_hidden,
{
    assert forall|i: int, j: int|
        0 <= i < j < s.len() && s[j].is_directory implies s[i].is_directory by {
        lemma_sorted_chain(s, i, j);
    }
    assert forall|i: int, j: int|
        0 <= i < j < s.len() && s[i].is_directory == s[j].is_directory && s[j].is_hidden
        implies s[i].is_hidden by {
        lemma_sorted_chain(s, i, j);
    }
}

/// On an extension-uniform entry set, adjacent sortedness is full pairwise
/// sortedness.
pub proof fn lemma_sorted_pairwise(s: Seq<FileEntry>)
    requires
        adj_sorted(s),
        ext_uniform_seq(s),
    ensures
        forall|i: int, j: int|
            0 <= i < j < s.len() ==> spec_cmp(s[i], s[j]) != Rel::Greater,
{
    assert forall|i: int, j: int|
        0 <= i < j < s.len() implies spec_cmp(s[i], s[j]) != Rel::Greater by {
        lemma_pairwise_chain(s, i, j);
    }
}

proof fn lemma_pairwise_chain(s: Seq<FileEntry>, i: int, j: int)
    requires
        adj_sorted(s),
        ext_uniform_seq(s),
        0 <= i < j < s.len(),
    ensures
        spec_cmp(s[i], s[j]) != Rel::Greater,
    decreases j - i,
{
    if i + 1 == j {
        assert(spec_cmp(s[i], s[j]) != Rel::Greater);
    } else {
        lemma_pairwise_chain(s, i, j - 1);
        assert(spec_cmp(s[j - 1], s[j]) != Rel::Greater);
        lemma_cmp_transitive(s[i], s[j - 1], s[j]);
    }
}

/// Position at which `x` belongs in the sorted prefix `out`: after every
/// entry not above it, before the suffix of entries above it.
fn insertion_point(out: &Vec<FileEntry>, x: &FileEntry) -> (j: usize)
    ensures
        j <= out@.len(),
        forall|k: int| j <= k < out@.len() ==> spec_cmp(out@[k], *x) == Rel::Greater,
        j > 0 ==> spec_cmp(out@[j - 1], *x) != Rel::Greater,
{
    let mut j = out.len();
    while j > 0
        invariant
            j <= out@.len(),
            forall|k: int| j <= k < out@.len() ==> spec_cmp(out@[k], *x) == Rel::Greater,
        decreases j,
    {
        let c = out[j - 1].cmp_entries(x);
        if c == Rel::Greater {
            j = j - 1;
        } else {
            return j;
        }
    }
    0
}

/// Sorts the entries for display: an insertion sort under the display
/// ordering. The result is a rearrangement of the input, no entry compares
/// above its successor, and entries with the same key keep their relative
/// order (the sort is stable).
#[verifier::rlimit(100)]
pub fn sort_entries(v: &mut Vec<FileEntry>)
    ensures
        final(v)@.to_multiset() == old(v)@.to_multiset(),
        adj_sorted(final(v)@),
        forall|e: FileEntry| #[trigger] final(v)@.filter(key_pred(e)) == old(v)@.filter(
            key_pred(e),
        ),
{
    let ghost input = v@;
    let mut out: Vec<FileEntry> = Vec::new();
    proof {
        broadcast use vstd::seq_lib::group_to_multiset_ensures;

        assert(out@.to_multiset().add(v@.to_multiset()) =~= input.to_multiset());
        assert forall|e: FileEntry|
            #[trigger] (out@.filter(key_pred(e)) + v@.filter(key_pred(e))) == input.filter(
            key_pred(e),
        ) by {
            assert(out@.filter(key_pred(e)) =~= Seq::<FileEntry>::empty());
            assert(out@.filter(key_pred(e)) + v@.filter(key_pred(e)) =~= v@.filter(key_pred(e)));
        }
    }
    while v.len() > 0
        invariant
            out@.to_multiset().add(v@.to_multiset()) == input.to_multiset(),
            adj_sorted(out@),
            forall|e: FileEntry|
                #[trigger] (out@.filter(key_pred(e)) + v@.filter(key_pred(e))) == input.filter(
                    key_pred(e),
                ),
        decreases v@.len(),
    {
        let ghost v_before = v@;
        let ghost out_before = out@;
        let x = v.remove(0);
        let j = insertion_point(&out, &x);
        out.insert(j, x);
        proof {
            lemma_insert_step(input, out_before, v_before, out@, v@, x, j as int);
        }
    }
    proof {
        broadcast use vstd::seq_lib::group_to_multiset_ensures;

        assert(v@.to_multiset() =~= Multiset::<FileEntry>::empty());
        assert(out@.to_multiset() =~= input.to_multiset());
        assert forall|e: FileEntry|
            #[trigger] out@.filter(key_pred(e)) == input.filter(key_pred(e)) by {
            assert(v@.filter(key_pred(e)) =~= Seq::<FileEntry>::empty());
            assert(out@.filter(key_pred(e)) + v@.filter(key_pred(e)) =~= out@.filter(key_pred(e)));
        }
    }
    *v = out;
}

/// One insertion step keeps the sort invariants: the multiset balance, the
/// adjacent sortedness of the prefix, and every key filter.
#[verifier::rlimit(100)]
proof fn lemma_insert_step(
    input: Seq<FileEntry>,
    out_before: Seq<FileEntry>,
    v_before: Seq<FileEntry>,
    out_after: Seq<FileEntry>,
    v_after: Seq<FileEntry>,
    x: FileEntry,
    j: int,
)
    requires
        v_before.len() > 0,
        x == v_before[0],
        v_after == v_before.remove(0),
        0 <= j <= out_before.len(),
        out_after == out_before.insert(j, x),
        adj_sorted(out_before),
        forall|k: int| j <= k < out_before.len() ==> spec_cmp(out_before[k], x) == Rel::Greater,
        j > 0 ==> spec_cmp(out_before[j - 1], x) != Rel::Greater,
        out_before.to_multiset().add(v_before.to_multiset()) == input.to_multiset(),
        forall|e: FileEntry|
            #[trigger] (out_before.filter(key_pred(e)) + v_before.filter(key_pred(e)))
                == input.filter(key_pred(e)),
    ensures
        out_after.to_multiset().add(v_after.to_multiset()) == input.to_multiset(),
        adj_sorted(out_after),
        forall|e: FileEntry|
            #[trigger] (out_after.filter(key_pred(e)) + v_after.filter(key_pred(e)))
                == input.filter(key_pred(e)),
{
    lemma_insert_adj(out_before, out_after, x, j);
    lemma_insert_multiset(out_before, v_before, out_after, v_after, x, j);
    assert(out_after.to_multiset().add(v_after.to_multiset()) =~= out_before.to_multiset().add(
        v_before.to_multiset(),
    ));

    // Every key filter is preserved.
    assert forall|e: FileEntry|
        #[trigger] (out_after.filter(key_pred(e)) + v_after.filter(key_pred(e))) == input.filter(
        key_pred(e),
    ) by {
        lemma_insert_one_filter(out_before, v_before, out_after, v_after, x, j, key_pred(e));
        assert(out_before.filter(key_pred(e)) + v_before.filter(key_pred(e)) == input.filter(
            key_pred(e),
        ));
    }
}

/// Inserting `x` below the suffix of entries that compare above it keeps
/// the prefix adjacent-sorted.
#[verifier::rlimit(100)]
proof fn lemma_insert_adj(out_before: Seq<FileEntry>, out_after: Seq<FileEntry>, x: FileEntry, j: int)
    requires
        0 <= j <= out_before.len(),
        out_after == out_before.insert(j, x),
        adj_sorted(out_before),
        forall|k: int| j <= k < out_before.len() ==> spec_cmp(out_before[k], x) == Rel::Greater,
        j > 0 ==> spec_cmp(out_before[j - 1], x) != Rel::Greater,
    ensures
        adj_sorted(out_after),
{
    out_before.insert_ensures(j, x);
    assert forall|i: int|
        0 <= i < out_after.len() - 1 implies spec_cmp(#[trigger] out_after[i], out_after[i + 1])
        != Rel::Greater by {
        lemma_insert_adj_at(out_before, out_after, x, j, i);
    }
}

/// One adjacent pair of the grown prefix, after the insertion.
proof fn lemma_insert_adj_at(
    out_before: Seq<FileEntry>,
    out_after: Seq<FileEntry>,
    x: FileEntry,
    j: int,
    i: int,
)
    requires
        0 <= j <= out_before.len(),
        out_after == out_before.insert(j, x),
        0 <= i < out_after.len() - 1,
        i + 1 < j ==> spec_cmp(out_before[i], out_before[i + 1]) != Rel::Greater,
        i > j ==> spec_cmp(out_before[i - 1], out_before[i]) != Rel::Greater,
        i == j && j < out_before.len() ==> spec_cmp(out_before[j], x) == Rel::Greater,
        i + 1 == j && j > 0 ==> spec_cmp(out_before[j - 1], x) != Rel::Greater,
    ensures
        spec_cmp(out_after[i], out_after[i + 1]) != Rel::Greater,
{
    out_before.insert_ensures(j, x);
    if i + 1 < j {
        assert(out_after[i] == out_before[i]);
        assert(out_after[i + 1] == out_before[i + 1]);
    } else if i + 1 == j {
        assert(out_after[i] == out_before[i]);
        assert(out_after[j] == x);
    } else if i == j {
        assert(out_after[j] == x);
        assert(out_after[j + 1] == out_before[j]);
        lemma_cmp_antisym(x, out_before[j]);
    } else {
        assert(out_after[i] == out_before[i - 1]);
        assert(out_after[i + 1] == out_before[i]);
    }
}

/// Inserting into the prefix what was removed from the rest keeps the
/// multiset balance.
#[verifier::rlimit(100)]
proof fn lemma_insert_multiset(
    out_before: Seq<FileEntry>,
    v_before: Seq<FileEntry>,
    out_after: Seq<FileEntry>,
    v_after: Seq<FileEntry>,
    x: FileEntry,
    j: int,
)
    requires
        v_before.len() > 0,
        x == v_before[0],
        v_after == v_before.remove(0),
        0 <= j <= out_before.len(),
        out_after == out_before.insert(j, x),
    ensures
        out_after.to_multiset() == out_before.to_multiset().insert(x),
        v_before.to_multiset() == v_after.to_multiset().insert(x),
{
    broadcast use vstd::seq_lib::group_to_multiset_ensures;

    assert(out_after.remove(j) =~= out_before);
    assert(out_after[j] == x);
    assert(out_after.to_multiset() =~= out_before.to_multiset().insert(x)) by {
        assert(out_after.contains(x));
        assert(out_after.to_multiset().count(x) > 0);
        assert(out_after.remove(j).to_multiset() =~= out_after.to_multiset().remove(x));
    }
    assert(v_before.to_multiset() =~= v_after.to_multiset().insert(x)) by {
        assert(v_before.contains(x));
        assert(v_before.to_multiset().count(x) > 0);
        assert(v_before.remove(0).to_multiset() =~= v_before.to_multiset().remove(x));
    }
}

/// Inserting `x` below the suffix of entries that compare above it leaves
/// one key filter of prefix-plus-rest unchanged.
#[verifier::rlimit(100)]
proof fn lemma_insert_one_filter(
    out_before: Seq<FileEntry>,
    v_before: Seq<FileEntry>,
    out_after: Seq<FileEntry>,
    v_after: Seq<FileEntry>,
    x: FileEntry,
    j: int,
    p: spec_fn(FileEntry) -> bool,
)
    requires
        v_before.len() > 0,
        x == v_before[0],
        v_after == v_before.remove(0),
        0 <= j <= out_before.len(),
        out_after == out_before.insert(j, x),
        forall|k: int| j <= k < out_before.len() ==> spec_cmp(out_before[k], x) == Rel::Greater,
        forall|a: FileEntry, b: FileEntry| p(a) && p(b) ==> #[trigger] same_key(a, b),
    ensures
        out_after.filter(p) + v_after.filter(p) == out_before.filter(p) + v_before.filter(p),
{
    let take = out_before.take(j);
    let skip = out_before.skip(j);
    assert(out_after =~= take + seq![x] + skip);
    assert(out_before =~= take + skip);
    assert(v_before =~= seq![x] + v_after);
    Seq::filter_distributes_over_add(take + seq![x], skip, p);
    Seq::filter_distributes_over_add(take, seq![x], p);
    Seq::filter_distributes_over_add(take, skip, p);
    Seq::filter_distributes_over_add(seq![x], v_after, p);
    lemma_filter_singleton(x, p);
    if p(x) {
        // No entry of the suffix shares x's key: each compares Greater
        // to x, while sharing the key would force Equal.
        assert forall|k: int| 0 <= k < skip.len() implies !p(#[trigger] skip[k]) by {
            assert(skip[k] == out_before[j + k]);
            assert(spec_cmp(skip[k], x) == Rel::Greater);
            if p(skip[k]) {
                assert(same_key(skip[k], x));
                lemma_same_key_equal(skip[k], x);
            }
        }
        lemma_filter_none(skip, p);
        assert(out_after.filter(p) =~= take.filter(p) + seq![x]);
        assert(out_before.filter(p) =~= take.filter(p));
        assert(v_before.filter(p) =~= seq![x] + v_after.filter(p));
        assert(out_after.filter(p) + v_after.filter(p) =~= out_before.filter(p)
            + v_before.filter(p));
    } else {
        assert(out_after.filter(p) =~= take.filter(p) + skip.filter(p));
        assert(out_after.filter(p) =~= out_before.filter(p));
        assert(v_before.filter(p) =~= v_after.filter(p));
    }
}

/// A sequence none of whose entries matches filters to the empty sequence.
proof fn lemma_filter_none(s: Seq<FileEntry>, p: spec_fn(FileEntry) -> bool)
    requires
        forall|k: int| 0 <= k < s.len() ==> !p(#[trigger] s[k]),
    ensures
        s.filter(p) == Seq::<FileEntry>::empty(),
    decreases s.len(),
{
    reveal_with_fuel(Seq::filter, 2);
    if s.len() > 0 {
        lemma_filter_none(s.drop_last(), p);
        assert(!p(s.last()));
        assert(s.filter(p) =~= Seq::<FileEntry>::empty());
    } else {
        assert(s.filter(p) =~= Seq::<FileEntry>::empty());
    }
}

/// Filtering a one-entry sequence keeps it when the entry matches and
/// yields the empty sequence otherwise.
proof fn lemma_filter_singleton(x: FileEntry, p: spec_fn(FileEntry) -> bool)
    ensures
        p(x) ==> seq![x].filter(p) == seq![x],
        !p(x) ==> seq![x].filter(p) == Seq::<FileEntry>::empty(),
{
    reveal_with_fuel(Seq::filter, 2);
    assert(seq![x].drop_last() =~= Seq::<FileEntry>::empty());
    if p(x) {
        assert(seq![x].filter(p) =~= seq![x]);
    }
}

} // verus!
