//! Stable ordering of a listing by one key, and reversal of the whole list.

use crate::entry::DirectoryEntry;
use crate::order::{
    entry_le, lemma_entry_le_total, lemma_entry_le_transitive, precedes_or_equals, SortField,
};
use crate::text::text_le;
use vstd::prelude::*;
use vstd::seq_lib::*;
use vstd::set_lib::*;

verus! {

/// `p` lists each of the indices `0..n` once.
pub open spec fn is_permutation(p: Seq<int>, n: int) -> bool {
    &&& p.len() == n
    &&& forall|i: int| 0 <= i < n ==> 0 <= #[trigger] p[i] < n
    &&& forall|i: int, j: int| 0 <= i < j < n ==> #[trigger] p[i] != #[trigger] p[j]
}

/// `out` holds the entries of `inp` in the order that `p` gives, `out[i]` being
/// `inp[p[i]]`; no entry stands before one with a smaller key; and entries with
/// equivalent keys stand in the order that they have in `inp`.
pub open spec fn arranges(
    p: Seq<int>,
    out: Seq<DirectoryEntry>,
    inp: Seq<DirectoryEntry>,
    field: SortField,
) -> bool {
    &&& out.len() == inp.len()
    &&& is_permutation(p, inp.len() as int)
    &&& forall|i: int| 0 <= i < out.len() ==> #[trigger] out[i] == inp[p[i]]
    &&& forall|i: int, j: int|
        0 <= i < j < out.len() ==> entry_le(#[trigger] out[i]@, #[trigger] out[j]@, field)
    &&& forall|i: int, j: int|
        0 <= i < j < out.len() && entry_le(out[j]@, out[i]@, field) ==> #[trigger] p[i]
            < #[trigger] p[j]
}

/// `out` is `inp` sorted by `field`, stably: a rearrangement of `inp` in
/// nondecreasing key order that keeps ties in their order of enumeration.
pub open spec fn is_stable_sort_of(
    out: Seq<DirectoryEntry>,
    inp: Seq<DirectoryEntry>,
    field: SortField,
) -> bool {
    exists|p: Seq<int>| arranges(p, out, inp, field)
}

/// Where `x` goes into `sorted` so that it follows every entry that may stand
/// before it: behind the last entry whose key is not greater than that of `x`.
pub open spec fn insert_position(
    sorted: Seq<DirectoryEntry>,
    x: DirectoryEntry,
    field: SortField,
) -> int
    decreases sorted.len(),
{
    if sorted.len() == 0 {
        0
    } else if entry_le(sorted.last()@, x@, field) {
        sorted.len() as int
    } else {
        insert_position(sorted.drop_last(), x, field)
    }
}

/// The entries of `s` sorted stably by `field`.
///
/// `lemma_sorted_by_is_stable_sort` shows that this is a stable sort of `s`, and
/// `lemma_stable_sort_unique` that there is no other.
pub open spec fn sorted_by(s: Seq<DirectoryEntry>, field: SortField) -> Seq<DirectoryEntry>
    decreases s.len(),
{
    if s.len() == 0 {
        s
    } else {
        let head = sorted_by(s.drop_last(), field);
        head.insert(insert_position(head, s.last(), field), s.last())
    }
}

/// The listing in its final order: sorted by `field`, and then, where `reverse`
/// is set, inverted as a whole.
pub open spec fn ordered(s: Seq<DirectoryEntry>, field: SortField, reverse: bool) -> Seq<
    DirectoryEntry,
> {
    if reverse {
        sorted_by(s, field).reverse()
    } else {
        sorted_by(s, field)
    }
}

proof fn lemma_insert_position(sorted: Seq<DirectoryEntry>, x: DirectoryEntry, field: SortField)
    ensures
        0 <= insert_position(sorted, x, field) <= sorted.len(),
        insert_position(sorted, x, field) > 0 ==> entry_le(
            sorted[insert_position(sorted, x, field) - 1]@,
            x@,
            field,
        ),
        forall|j: int|
            insert_position(sorted, x, field) <= j < sorted.len() ==> !entry_le(
                #[trigger] sorted[j]@,
                x@,
                field,
            ),
    decreases sorted.len(),
{
    if sorted.len() > 0 && !entry_le(sorted.last()@, x@, field) {
        let shorter = sorted.drop_last();
        lemma_insert_position(shorter, x, field);
        assert forall|j: int|
            insert_position(sorted, x, field) <= j < sorted.len() implies !entry_le(
            #[trigger] sorted[j]@,
            x@,
            field,
        ) by {
            if j < shorter.len() {
                assert(shorter[j] == sorted[j]);
            }
        }
    }
}

proof fn lemma_sorted_by_arranges(s: Seq<DirectoryEntry>, field: SortField) -> (p: Seq<int>)
    ensures
        arranges(p, sorted_by(s, field), s, field),
    decreases s.len(),
{
    if s.len() == 0 {
        let p = Seq::<int>::empty();
        assert(arranges(p, sorted_by(s, field), s, field));
        p
    } else {
        let rest = s.drop_last();
        let x = s.last();
        let k = s.len() - 1;
        let head = sorted_by(rest, field);
        let q = lemma_sorted_by_arranges(rest, field);
        let pos = insert_position(head, x, field);
        lemma_insert_position(head, x, field);
        let out = head.insert(pos, x);
        let p = q.insert(pos, k);
        head.insert_ensures(pos, x);
        q.insert_ensures(pos, k);
        assert(out[pos] == x);
        assert(p[pos] == k);
        assert forall|i: int| 0 <= i < out.len() implies out[i] == s[p[i]] && 0 <= p[i]
            < s.len() by {
            if i < pos {
                assert(out[i] == head[i] && p[i] == q[i]);
                assert(head[i] == rest[q[i]]);
            } else if i > pos {
                assert(out[i] == head[i - 1] && p[i] == q[i - 1]);
                assert(head[i - 1] == rest[q[i - 1]]);
            }
        }
        assert forall|i: int, j: int| 0 <= i < j < out.len() implies p[i] != p[j] && entry_le(
            out[i]@,
            out[j]@,
            field,
        ) && (entry_le(out[j]@, out[i]@, field) ==> p[i] < p[j]) by {
            let a = if i < pos {
                i
            } else {
                i - 1
            };
            let b = if j < pos {
                j
            } else {
                j - 1
            };
            if i != pos && j != pos {
                assert(out[i] == head[a] && p[i] == q[a]);
                assert(out[j] == head[b] && p[j] == q[b]);
                assert(entry_le(head[a]@, head[b]@, field));
            } else if i == pos {
                assert(out[j] == head[b] && p[j] == q[b]);
                assert(!entry_le(head[b]@, x@, field));
                lemma_entry_le_total(x@, head[b]@, field);
            } else {
                assert(out[i] == head[a] && p[i] == q[a]);
                if a < pos - 1 {
                    assert(entry_le(head[a]@, head[pos - 1]@, field));
                    lemma_entry_le_transitive(head[a]@, head[pos - 1]@, x@, field);
                }
            }
        }
        assert(arranges(p, out, s, field));
        p
    }
}

/// `sorted_by` yields a stable sort of its argument.
pub proof fn lemma_sorted_by_is_stable_sort(s: Seq<DirectoryEntry>, field: SortField)
    ensures
        is_stable_sort_of(sorted_by(s, field), s, field),
{
    let p = lemma_sorted_by_arranges(s, field);
}

proof fn lemma_permutation_reaches(p: Seq<int>, n: int, k: int)
    requires
        is_permutation(p, n),
        0 <= k < n,
    ensures
        exists|i: int| 0 <= i < n && p[i] == k,
{
    assert(p.no_duplicates()) by {
        assert forall|i: int, j: int| 0 <= i < p.len() && 0 <= j < p.len() && i != j implies p[i]
            != p[j] by {
            if i < j {
                assert(p[i] != p[j]);
            } else {
                assert(p[j] != p[i]);
            }
        }
    }
    p.unique_seq_to_set();
    lemma_int_range(0, n);
    let all = set_int_range(0, n);
    assert(p.to_set().subset_of(all)) by {
        assert forall|v: int| p.to_set().contains(v) implies all.contains(v) by {
            let i = choose|i: int| 0 <= i < p.len() && p[i] == v;
            assert(0 <= p[i] < n);
        }
    }
    lemma_len_subset(p.to_set(), all);
    lemma_subset_equality(p.to_set(), all);
    assert(all.contains(k));
    assert(p.to_set().contains(k));
    assert(p.contains(k));
}

proof fn lemma_arrangements_agree(
    p: Seq<int>,
    q: Seq<int>,
    a: Seq<DirectoryEntry>,
    b: Seq<DirectoryEntry>,
    inp: Seq<DirectoryEntry>,
    field: SortField,
    upto: int,
)
    requires
        arranges(p, a, inp, field),
        arranges(q, b, inp, field),
        0 <= upto <= inp.len(),
    ensures
        forall|i: int| 0 <= i < upto ==> p[i] == q[i],
    decreases upto,
{
    if upto > 0 {
        lemma_arrangements_agree(p, q, a, b, inp, field, upto - 1);
        let i = upto - 1;
        let n = inp.len() as int;
        if p[i] != q[i] {
            lemma_permutation_reaches(q, n, p[i]);
            let j = choose|j: int| 0 <= j < n && q[j] == p[i];
            lemma_permutation_reaches(p, n, q[i]);
            let m = choose|m: int| 0 <= m < n && p[m] == q[i];
            if j < i {
                assert(p[j] == q[j]);
                assert(p[j] != p[i]);
            }
            if m < i {
                assert(q[m] == p[m]);
                assert(q[m] != q[i]);
            }
            assert(i < j && i < m);
            assert(a[i] == inp[p[i]] && a[m] == inp[p[m]]);
            assert(b[i] == inp[q[i]] && b[j] == inp[q[j]]);
            assert(entry_le(a[i]@, a[m]@, field));
            assert(entry_le(b[i]@, b[j]@, field));
            assert(entry_le(b[j]@, b[i]@, field));
            assert(entry_le(a[m]@, a[i]@, field));
            assert(q[i] < q[j]);
            assert(p[i] < p[m]);
        }
    }
}

/// A listing has one stable sort by a given key and no other.
pub proof fn lemma_stable_sort_unique(
    a: Seq<DirectoryEntry>,
    b: Seq<DirectoryEntry>,
    inp: Seq<DirectoryEntry>,
    field: SortField,
)
    requires
        is_stable_sort_of(a, inp, field),
        is_stable_sort_of(b, inp, field),
    ensures
        a == b,
{
    let p = choose|p: Seq<int>| arranges(p, a, inp, field);
    let q = choose|q: Seq<int>| arranges(q, b, inp, field);
    lemma_arrangements_agree(p, q, a, b, inp, field, inp.len() as int);
    assert forall|i: int| 0 <= i < a.len() implies a[i] == b[i] by {
        assert(a[i] == inp[p[i]]);
        assert(b[i] == inp[q[i]]);
    }
    assert(a =~= b);
}

/// Whatever sorts a listing stably by `field` yields `sorted_by`, and its
/// result read backwards is the reversed listing.
pub proof fn lemma_stable_sort_is_sorted_by(
    out: Seq<DirectoryEntry>,
    entries: Seq<DirectoryEntry>,
    field: SortField,
)
    requires
        is_stable_sort_of(out, entries, field),
    ensures
        out == sorted_by(entries, field),
        out.reverse() == ordered(entries, field, true),
{
    lemma_sorted_by_is_stable_sort(entries, field);
    lemma_stable_sort_unique(out, sorted_by(entries, field), entries, field);
}

/// Without a key the listing keeps the order of enumeration.
pub proof fn lemma_unsorted_keeps_order(entries: Seq<DirectoryEntry>)
    ensures
        sorted_by(entries, SortField::Unsorted) == entries,
{
    let same = Seq::new(entries.len(), |i: int| i);
    assert(arranges(same, entries, entries, SortField::Unsorted));
    lemma_stable_sort_is_sorted_by(entries, entries, SortField::Unsorted);
}

/// Reversal acts on the list, not on the comparison. The reversed listing is
/// the ascending listing read backwards, position by position: keys do not
/// increase along it, and entries with equivalent keys stand in the opposite of
/// their order of enumeration. The result `p` gives, for each position of the
/// ascending listing, the place that its entry has in `entries`.
pub proof fn lemma_reverse_inverts_sorted_order(
    entries: Seq<DirectoryEntry>,
    field: SortField,
) -> (p: Seq<int>)
    ensures
        ordered(entries, field, true) == ordered(entries, field, false).reverse(),
        ordered(entries, field, true).len() == entries.len(),
        arranges(p, ordered(entries, field, false), entries, field),
        forall|i: int|
            0 <= i < entries.len() ==> #[trigger] ordered(entries, field, true)[i] == ordered(
                entries,
                field,
                false,
            )[entries.len() - 1 - i],
        forall|i: int|
            0 <= i < entries.len() ==> #[trigger] ordered(entries, field, true)[i]
                == entries[p[entries.len() - 1 - i]],
        forall|i: int, j: int|
            0 <= i < j < entries.len() ==> entry_le(
                #[trigger] ordered(entries, field, true)[j]@,
                #[trigger] ordered(entries, field, true)[i]@,
                field,
            ),
        forall|i: int, j: int|
            0 <= i < j < entries.len() && entry_le(
                ordered(entries, field, true)[i]@,
                ordered(entries, field, true)[j]@,
                field,
            ) ==> #[trigger] p[entries.len() - 1 - i] > #[trigger] p[entries.len() - 1 - j],
{
    let n = entries.len() as int;
    let asc = sorted_by(entries, field);
    let desc = asc.reverse();
    let p = lemma_sorted_by_arranges(entries, field);
    assert(desc.len() == n);
    assert forall|i: int| 0 <= i < n implies #[trigger] desc[i] == asc[n - 1 - i] && desc[i]
        == entries[p[n - 1 - i]] by {
        assert(asc[n - 1 - i] == entries[p[n - 1 - i]]);
    }
    assert forall|i: int, j: int| 0 <= i < j < n implies entry_le(
        #[trigger] desc[j]@,
        #[trigger] desc[i]@,
        field,
    ) by {
        assert(entry_le(asc[n - 1 - j]@, asc[n - 1 - i]@, field));
    }
    assert forall|i: int, j: int|
        0 <= i < j < n && entry_le(desc[i]@, desc[j]@, field) implies #[trigger] p[n - 1 - i]
        > #[trigger] p[n - 1 - j] by {
        assert(entry_le(asc[n - 1 - i]@, asc[n - 1 - j]@, field));
        assert(p[n - 1 - j] < p[n - 1 - i]);
    }
    p
}

/// In a listing sorted by file type every directory stands before every file,
/// and the entries of each kind are in the order of their names.
pub proof fn lemma_file_type_order(entries: Seq<DirectoryEntry>)
    ensures
        forall|i: int, j: int|
            0 <= i < entries.len() && 0 <= j < entries.len() && (#[trigger] sorted_by(
                entries,
                SortField::FileType,
            )[i])@.is_directory && !(#[trigger] sorted_by(
                entries,
                SortField::FileType,
            )[j])@.is_directory ==> i < j,
        forall|i: int, j: int|
            0 <= i < j < entries.len() && (#[trigger] sorted_by(
                entries,
                SortField::FileType,
            )[i])@.is_directory == (#[trigger] sorted_by(
                entries,
                SortField::FileType,
            )[j])@.is_directory ==> text_le(
                sorted_by(entries, SortField::FileType)[i]@.name,
                sorted_by(entries, SortField::FileType)[j]@.name,
            ),
{
    let out = sorted_by(entries, SortField::FileType);
    let p = lemma_sorted_by_arranges(entries, SortField::FileType);
    assert forall|i: int, j: int|
        0 <= i < entries.len() && 0 <= j < entries.len() && (#[trigger] out[i])@.is_directory && !(
        #[trigger] out[j])@.is_directory implies i < j by {
        if j < i {
            assert(entry_le(out[j]@, out[i]@, SortField::FileType));
        }
    }
    assert forall|i: int, j: int|
        0 <= i < j < entries.len() && (#[trigger] out[i])@.is_directory == (
        #[trigger] out[j])@.is_directory implies text_le(out[i]@.name, out[j]@.name) by {
        assert(entry_le(out[i]@, out[j]@, SortField::FileType));
    }
}

/// Inverts the order of the whole list.
pub fn reverse_entries(entries: Vec<DirectoryEntry>) -> (turned: Vec<DirectoryEntry>)
    ensures
        turned@ == entries@.reverse(),
{
    let ghost before = entries@;
    let mut entries = entries;
    let mut turned: Vec<DirectoryEntry> = Vec::new();
    while entries.len() > 0
        invariant
            entries.len() + turned.len() == before.len(),
            entries@ == before.take(entries.len() as int),
            forall|i: int| 0 <= i < turned.len() ==> turned[i] == before[before.len() - 1 - i],
        decreases entries.len(),
    {
        let x = entries.pop().unwrap();
        turned.push(x);
    }
    assert(turned@ =~= before.reverse());
    turned
}

/// No entry of `s` stands before one with a smaller key.
pub open spec fn is_sorted_by(s: Seq<DirectoryEntry>, field: SortField) -> bool {
    forall|i: int, j: int|
        0 <= i < j < s.len() ==> entry_le(#[trigger] s[i]@, #[trigger] s[j]@, field)
}

/// Finds by bisection where `x` goes into a sorted list.
fn find_insert_position(
    sorted: &Vec<DirectoryEntry>,
    x: &DirectoryEntry,
    field: SortField,
) -> (pos: usize)
    requires
        is_sorted_by(sorted@, field),
    ensures
        pos == insert_position(sorted@, *x, field),
{
    let mut low: usize = 0;
    let mut high: usize = sorted.len();
    while low < high
        invariant
            low <= high <= sorted.len(),
            is_sorted_by(sorted@, field),
            forall|j: int| 0 <= j < low ==> entry_le(#[trigger] sorted[j]@, x@, field),
            forall|j: int| high <= j < sorted.len() ==> !entry_le(#[trigger] sorted[j]@, x@, field),
        decreases high - low,
    {
        let middle: usize = low + (high - low) / 2;
        if precedes_or_equals(&sorted[middle], x, field) {
            proof {
                assert forall|j: int| 0 <= j < middle + 1 implies entry_le(
                    #[trigger] sorted[j]@,
                    x@,
                    field,
                ) by {
                    if j < middle {
                        assert(entry_le(sorted[j]@, sorted[middle as int]@, field));
                        lemma_entry_le_transitive(sorted[j]@, sorted[middle as int]@, x@, field);
                    }
                }
            }
            low = middle + 1;
        } else {
            proof {
                assert forall|j: int| middle <= j < sorted.len() implies !entry_le(
                    #[trigger] sorted[j]@,
                    x@,
                    field,
                ) by {
                    if middle < j && entry_le(sorted[j]@, x@, field) {
                        assert(entry_le(sorted[middle as int]@, sorted[j]@, field));
                        lemma_entry_le_transitive(sorted[middle as int]@, sorted[j]@, x@, field);
                    }
                }
            }
            high = middle;
        }
    }
    proof {
        lemma_insert_position(sorted@, *x, field);
        let found = insert_position(sorted@, *x, field);
        if found < low {
            assert(entry_le(sorted[found]@, x@, field));
        }
        if found > low {
            assert(!entry_le(sorted[found - 1]@, x@, field));
        }
    }
    low
}

/// Sorts the list by `field`, stably: entries whose keys are equivalent keep
/// the order in which they came. Each entry is put into its place among those
/// before it, which bisection finds.
pub fn sort_entries(entries: Vec<DirectoryEntry>, field: SortField) -> (sorted: Vec<DirectoryEntry>)
    ensures
        sorted@ == sorted_by(entries@, field),
        is_stable_sort_of(sorted@, entries@, field),
{
    let ghost inp = entries@;
    if let SortField::Unsorted = field {
        proof {
            lemma_unsorted_keeps_order(inp);
            lemma_sorted_by_is_stable_sort(inp, field);
        }
        return entries;
    }
    let mut sorted: Vec<DirectoryEntry> = Vec::new();
    assert(inp.take(0) =~= Seq::<DirectoryEntry>::empty());
    for x in rest: entries
        invariant
            rest.seq() == inp,
            sorted@ == sorted_by(inp.take(rest.index() as int), field),
    {
        let ghost done = rest.index() as int;
        proof {
            let p = lemma_sorted_by_arranges(inp.take(done), field);
        }
        let pos = find_insert_position(&sorted, &x, field);
        proof {
            lemma_insert_position(sorted@, x, field);
            let longer = inp.take(done + 1);
            assert(longer.drop_last() =~= inp.take(done));
            assert(longer.last() == x);
        }
        sorted.insert(pos, x);
    }
    proof {
        assert(inp.take(inp.len() as int) =~= inp);
        lemma_sorted_by_is_stable_sort(inp, field);
    }
    sorted
}

} // verus!
