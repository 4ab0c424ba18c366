//! Ordering of change-record entries by their mapped numeric id, and the
//! payload-cap splitting of oversized change sets.
//!
//! An entry is a `(numeric id, protocol state code)` pair.

use vstd::prelude::*;

verus! {

/// Entries appear in ascending order of their mapped numeric id.
pub open spec fn sorted_by_id(s: Seq<(i16, i16)>) -> bool {
    forall|i: int, j: int| 0 <= i < j < s.len() ==> s[i].0 <= s[j].0
}

/// Both halves of an entry fit the record's two-hex-digit fields.
pub open spec fn entry_bounded(e: (i16, i16)) -> bool {
    0 <= e.0 <= 255 && 0 <= e.1 <= 255
}

/// Places `x` after every entry of `t` whose id is not larger, keeping the
/// rest in order: the insertion step of a stable insertion sort.
pub open spec fn insert_entry(t: Seq<(i16, i16)>, x: (i16, i16)) -> Seq<(i16, i16)>
    decreases t.len(),
{
    if t.len() == 0 {
        seq![x]
    } else if t.last().0 <= x.0 {
        t.push(x)
    } else {
        insert_entry(t.drop_last(), x).push(t.last())
    }
}

/// The stable sort of `s` by ascending id: entries are inserted left to
/// right, so entries with equal ids keep their original order.
pub open spec fn sort_entries(s: Seq<(i16, i16)>) -> Seq<(i16, i16)>
    decreases s.len(),
{
    if s.len() == 0 {
        Seq::empty()
    } else {
        insert_entry(sort_entries(s.drop_last()), s.last())
    }
}

/// Inserting adds one entry.
pub proof fn lemma_insert_entry_len(t: Seq<(i16, i16)>, x: (i16, i16))
    ensures
        insert_entry(t, x).len() == t.len() + 1,
    decreases t.len(),
{
    if t.len() > 0 && !(t.last().0 <= x.0) {
        lemma_insert_entry_len(t.drop_last(), x);
    }
}

/// Every entry of the insertion result is `x` or one of the entries of `t`.
pub proof fn lemma_insert_entry_elems(t: Seq<(i16, i16)>, x: (i16, i16))
    ensures
        forall|i: int|
            0 <= i < insert_entry(t, x).len() ==> (#[trigger] insert_entry(t, x)[i] == x
                || exists|k: int| 0 <= k < t.len() && t[k] == insert_entry(t, x)[i]),
    decreases t.len(),
{
    let u = insert_entry(t, x);
    if t.len() == 0 {
    } else if t.last().0 <= x.0 {
        assert forall|i: int| 0 <= i < u.len() implies (#[trigger] u[i] == x
            || exists|k: int| 0 <= k < t.len() && t[k] == u[i]) by {
            if i < t.len() {
                assert(t[i] == u[i]);
            }
        }
    } else {
        lemma_insert_entry_elems(t.drop_last(), x);
        let v = insert_entry(t.drop_last(), x);
        assert forall|i: int| 0 <= i < u.len() implies (#[trigger] u[i] == x
            || exists|k: int| 0 <= k < t.len() && t[k] == u[i]) by {
            if i < v.len() {
                assert(u[i] == v[i]);
                if v[i] != x {
                    let k = choose|k: int| 0 <= k < t.drop_last().len() && t.drop_last()[k] == v[i];
                    assert(t[k] == u[i]);
                }
            } else {
                assert(u[i] == t.last());
                assert(t[t.len() - 1] == u[i]);
            }
        }
    }
}

/// Insertion into a sorted sequence keeps it sorted.
pub proof fn lemma_insert_entry_sorted(t: Seq<(i16, i16)>, x: (i16, i16))
    requires
        sorted_by_id(t),
    ensures
        sorted_by_id(insert_entry(t, x)),
    decreases t.len(),
{
    let u = insert_entry(t, x);
    if t.len() == 0 {
    } else if t.last().0 <= x.0 {
        assert forall|i: int, j: int| 0 <= i < j < u.len() implies u[i].0 <= u[j].0 by {
            if j < t.len() {
                assert(t[i].0 <= t[j].0);
            } else {
                if i < t.len() - 1 {
                    assert(t[i].0 <= t.last().0);
                }
            }
        }
    } else {
        lemma_insert_entry_sorted(t.drop_last(), x);
        lemma_insert_entry_elems(t.drop_last(), x);
        lemma_insert_entry_len(t.drop_last(), x);
        let v = insert_entry(t.drop_last(), x);
        assert forall|i: int, j: int| 0 <= i < j < u.len() implies u[i].0 <= u[j].0 by {
            if j < v.len() {
                assert(v[i].0 <= v[j].0);
            } else {
                assert(u[j] == t.last());
                assert(u[i] == v[i]);
                if v[i] != x {
                    let k = choose|k: int|
                        0 <= k < t.drop_last().len() && t.drop_last()[k] == v[i];
                    assert(t[k].0 <= t.last().0);
                }
            }
        }
    }
}

/// Insertion adds exactly `x` to the entries, counted with multiplicity.
pub proof fn lemma_insert_entry_multiset(t: Seq<(i16, i16)>, x: (i16, i16))
    ensures
        insert_entry(t, x).to_multiset() == t.to_multiset().insert(x),
    decreases t.len(),
{
    broadcast use vstd::seq_lib::group_to_multiset_ensures;

    let u = insert_entry(t, x);
    if t.len() == 0 {
        assert(seq![x] =~= Seq::<(i16, i16)>::empty().push(x));
        assert(u.to_multiset() =~= t.to_multiset().insert(x));
    } else if t.last().0 <= x.0 {
        assert(u.to_multiset() =~= t.to_multiset().insert(x));
    } else {
        lemma_insert_entry_multiset(t.drop_last(), x);
        let v = insert_entry(t.drop_last(), x);
        assert(t =~= t.drop_last().push(t.last()));
        assert(t.to_multiset() =~= t.drop_last().to_multiset().insert(t.last()));
        assert(u.to_multiset() =~= v.to_multiset().insert(t.last()));
        assert(u.to_multiset() =~= t.to_multiset().insert(x));
    }
}

/// The sorted entries are in ascending id order.
pub proof fn lemma_sort_entries_sorted(s: Seq<(i16, i16)>)
    ensures
        sorted_by_id(sort_entries(s)),
    decreases s.len(),
{
    if s.len() > 0 {
        lemma_sort_entries_sorted(s.drop_last());
        lemma_insert_entry_sorted(sort_entries(s.drop_last()), s.last());
    }
}

/// Sorting keeps exactly the original entries, counted with multiplicity:
/// nothing is lost, duplicated, or invented.
pub proof fn lemma_sort_entries_multiset(s: Seq<(i16, i16)>)
    ensures
        sort_entries(s).to_multiset() == s.to_multiset(),
        sort_entries(s).len() == s.len(),
    decreases s.len(),
{
    broadcast use vstd::seq_lib::group_to_multiset_ensures;

    if s.len() > 0 {
        lemma_sort_entries_multiset(s.drop_last());
        lemma_insert_entry_multiset(sort_entries(s.drop_last()), s.last());
        lemma_insert_entry_len(sort_entries(s.drop_last()), s.last());
        assert(s =~= s.drop_last().push(s.last()));
        assert(s.to_multiset() =~= s.drop_last().to_multiset().insert(s.last()));
        assert(sort_entries(s).to_multiset() =~= s.to_multiset());
    }
}

/// The predicate picking out the entries that carry one mapped id.
pub open spec fn has_id(id: i16) -> spec_fn((i16, i16)) -> bool {
    |e: (i16, i16)| e.0 == id
}

/// Insertion puts `x` behind every earlier entry with its id: among the
/// entries of one id, it lands last.
pub proof fn lemma_insert_entry_filter(t: Seq<(i16, i16)>, x: (i16, i16), id: i16)
    ensures
        insert_entry(t, x).filter(has_id(id)) == t.filter(has_id(id)) + (if x.0 == id {
            seq![x]
        } else {
            Seq::empty()
        }),
    decreases t.len(),
{
    reveal(Seq::filter);
    let p = has_id(id);
    let xs: Seq<(i16, i16)> = if x.0 == id {
        seq![x]
    } else {
        Seq::empty()
    };
    if t.len() == 0 {
        let e = Seq::<(i16, i16)>::empty();
        assert(e.filter(p) == e);
        assert(seq![x].drop_last() =~= e);
        assert(seq![x].drop_last() == e);
        assert(seq![x].filter(p) == if p(x) {
            e.filter(p).push(x)
        } else {
            e.filter(p)
        });
        assert(t.filter(p) == t);
        assert(insert_entry(t, x).filter(p) =~= t.filter(p) + xs);
    } else if t.last().0 <= x.0 {
        let u = t.push(x);
        assert(u.drop_last() =~= t);
        assert(u.drop_last() == t);
        assert(u.last() == x);
        assert(u.filter(p) == if p(x) {
            t.filter(p).push(x)
        } else {
            t.filter(p)
        });
        assert(p(x) == (x.0 == id));
        assert(u.filter(p) =~= t.filter(p) + xs);
    } else {
        lemma_insert_entry_filter(t.drop_last(), x, id);
        let v = insert_entry(t.drop_last(), x);
        assert(v.push(t.last()).drop_last() =~= v);
        if t.last().0 == id {
            // x sits strictly below t.last(), so x cannot carry this id too
            assert(x.0 != id);
            assert(insert_entry(t, x).filter(p) =~= t.filter(p) + xs);
        } else {
            assert(insert_entry(t, x).filter(p) =~= t.filter(p) + xs);
        }
    }
}

/// The sort is stable: among the entries that share one mapped id, the
/// original order is kept exactly.
pub proof fn lemma_sort_entries_stable(s: Seq<(i16, i16)>, id: i16)
    ensures
        sort_entries(s).filter(has_id(id)) == s.filter(has_id(id)),
    decreases s.len(),
{
    reveal(Seq::filter);
    let p = has_id(id);
    if s.len() > 0 {
        lemma_sort_entries_stable(s.drop_last(), id);
        lemma_insert_entry_filter(sort_entries(s.drop_last()), s.last(), id);
        assert(sort_entries(s).filter(p) =~= s.filter(p));
    }
}

/// Sorting preserves the field bounds of every entry.
pub proof fn lemma_sort_entries_bounded(s: Seq<(i16, i16)>)
    requires
        forall|i: int| 0 <= i < s.len() ==> entry_bounded(#[trigger] s[i]),
    ensures
        forall|i: int| 0 <= i < sort_entries(s).len() ==> entry_bounded(#[trigger] sort_entries(s)[i]),
    decreases s.len(),
{
    if s.len() > 0 {
        assert(forall|i: int|
            0 <= i < s.drop_last().len() ==> entry_bounded(#[trigger] s.drop_last()[i]));
        lemma_sort_entries_bounded(s.drop_last());
        lemma_insert_entry_elems(sort_entries(s.drop_last()), s.last());
    }
}

/// Inserts one entry into an id-ordered vector, right of its equals.
fn insert_one(out: &mut Vec<(i16, i16)>, x: (i16, i16))
    ensures
        final(out)@ == insert_entry(old(out)@, x),
{
    let ghost t = out@;
    let mut j: usize = out.len();
    while j > 0 && out[j - 1].0 > x.0
        invariant
            out@ == t,
            j <= t.len(),
            forall|k: int| j <= k < t.len() ==> t[k].0 > x.0,
        decreases j,
    {
        j -= 1;
    }
    out.insert(j, x);
    proof {
        lemma_insert_entry_at(t, x, j as int);
    }
}

/// Where the scan from the right stops is where [insert_entry] places `x`.
proof fn lemma_insert_entry_at(t: Seq<(i16, i16)>, x: (i16, i16), j: int)
    requires
        0 <= j <= t.len(),
        forall|k: int| j <= k < t.len() ==> t[k].0 > x.0,
        j > 0 ==> t[j - 1].0 <= x.0,
    ensures
        insert_entry(t, x) == t.insert(j, x),
    decreases t.len(),
{
    if t.len() == 0 {
        assert(insert_entry(t, x) =~= t.insert(0, x));
    } else if t.last().0 <= x.0 {
        assert(j == t.len());
        assert(insert_entry(t, x) =~= t.insert(j, x));
    } else {
        assert(j < t.len());
        lemma_insert_entry_at(t.drop_last(), x, j);
        assert(insert_entry(t, x) =~= t.insert(j, x));
    }
}

/// Sorts the entries of a change set ascending by mapped numeric id, entries
/// with equal ids keeping their original order.
pub fn sort_entries_exec(entries: &Vec<(i16, i16)>) -> (r: Vec<(i16, i16)>)
    ensures
        r@ == sort_entries(entries@),
{
    let mut out: Vec<(i16, i16)> = Vec::new();
    let mut i: usize = 0;
    while i < entries.len()
        invariant
            i <= entries@.len(),
            out@ == sort_entries(entries@.take(i as int)),
        decreases entries@.len() - i,
    {
        insert_one(&mut out, entries[i]);
        proof {
            assert(entries@.take(i + 1 as int).drop_last() =~= entries@.take(i as int));
            assert(entries@.take(i + 1 as int).last() == entries@[i as int]);
        }
        i += 1;
    }
    proof {
        assert(entries@.take(entries@.len() as int) =~= entries@);
    }
    out
}

/// Cuts the entry list into consecutive chunks of `cap` entries. A list
/// that does not exceed the cap stays whole; otherwise what is left over
/// after the full chunks forms the final chunk.
pub open spec fn split_entries(s: Seq<(i16, i16)>, cap: int) -> Seq<Seq<(i16, i16)>>
    recommends
        cap >= 1,
    decreases s.len(),
{
    if cap <= 0 || s.len() <= cap {
        seq![s]
    } else {
        seq![s.take(cap)] + split_entries(s.skip(cap), cap)
    }
}

/// Splitting loses, duplicates and reorders nothing: the chunks concatenate
/// back to the original entry list.
pub proof fn lemma_split_entries_flatten(s: Seq<(i16, i16)>, cap: int)
    requires
        cap >= 1,
    ensures
        split_entries(s, cap).flatten() == s,
    decreases s.len(),
{
    let chunks = split_entries(s, cap);
    if s.len() <= cap {
        chunks.lemma_flatten_one_element();
        assert(chunks.flatten() == s);
    } else {
        lemma_split_entries_flatten(s.skip(cap), cap);
        let rest = split_entries(s.skip(cap), cap);
        assert(chunks.first() == s.take(cap));
        assert(chunks.drop_first() =~= rest);
        assert(chunks.flatten() == s.take(cap) + rest.flatten());
        assert(s.take(cap) + s.skip(cap) =~= s);
    }
}

/// Every chunk fits the cap, and only the final chunk may be smaller.
pub proof fn lemma_split_entries_sizes(s: Seq<(i16, i16)>, cap: int)
    requires
        cap >= 1,
    ensures
        split_entries(s, cap).len() >= 1,
        forall|i: int|
            0 <= i < split_entries(s, cap).len() ==> (#[trigger] split_entries(s, cap)[i]).len()
                <= cap,
        forall|i: int|
            0 <= i < split_entries(s, cap).len() - 1 ==> (#[trigger] split_entries(s, cap)[i]).len()
                == cap,
    decreases s.len(),
{
    if s.len() > cap {
        lemma_split_entries_sizes(s.skip(cap), cap);
        let chunks = split_entries(s, cap);
        let rest = split_entries(s.skip(cap), cap);
        assert forall|i: int| 0 <= i < chunks.len() implies (#[trigger] chunks[i]).len() <= cap by {
            if i > 0 {
                assert(chunks[i] == rest[i - 1]);
            }
        }
        assert forall|i: int| 0 <= i < chunks.len() - 1 implies (#[trigger] chunks[i]).len()
            == cap by {
            if i > 0 {
                assert(chunks[i] == rest[i - 1]);
            }
        }
    }
}

/// How many records a split produces: one full chunk per whole cap of
/// entries, plus the final chunk of what is left, which alone may be
/// smaller. Eighteen entries under a cap of ten thus make two records, and
/// exactly ten entries make one.
pub proof fn lemma_split_entries_count(s: Seq<(i16, i16)>, cap: int)
    requires
        cap >= 1,
    ensures
        split_entries(s, cap).len() == (if s.len() == 0 {
            1int
        } else {
            (s.len() - 1) as int / cap + 1
        }),
    decreases s.len(),
{
    if s.len() <= cap {
        if s.len() > 0 {
            assert((s.len() - 1) as int / cap == 0) by {
                vstd::arithmetic::div_mod::lemma_basic_div((s.len() - 1) as int, cap);
            }
        }
    } else {
        lemma_split_entries_count(s.skip(cap), cap);
        assert((s.len() - 1) as int / cap == 1 + (s.len() - cap - 1) / cap) by {
            vstd::arithmetic::div_mod::lemma_div_plus_one((s.len() - cap - 1) as int, cap);
        }
    }
}

/// Chunks of an id-ordered entry list are id-ordered themselves: the sorted
/// order is preserved across the split boundary.
pub proof fn lemma_split_entries_sorted(s: Seq<(i16, i16)>, cap: int)
    requires
        cap >= 1,
        sorted_by_id(s),
    ensures
        forall|i: int| 0 <= i < split_entries(s, cap).len() ==> sorted_by_id(
            #[trigger] split_entries(s, cap)[i]),
    decreases s.len(),
{
    let chunks = split_entries(s, cap);
    if s.len() <= cap {
    } else {
        assert(sorted_by_id(s.skip(cap)));
        lemma_split_entries_sorted(s.skip(cap), cap);
        let rest = split_entries(s.skip(cap), cap);
        assert forall|i: int| 0 <= i < chunks.len() implies sorted_by_id(#[trigger] chunks[i]) by {
            if i == 0 {
                assert(sorted_by_id(s.take(cap)));
            } else {
                assert(chunks[i] == rest[i - 1]);
            }
        }
    }
}

/// Splitting preserves the field bounds of every entry.
pub proof fn lemma_split_entries_bounded(s: Seq<(i16, i16)>, cap: int)
    requires
        cap >= 1,
        forall|i: int| 0 <= i < s.len() ==> entry_bounded(#[trigger] s[i]),
    ensures
        forall|i: int, j: int|
            0 <= i < split_entries(s, cap).len() && 0 <= j < split_entries(s, cap)[i].len()
                ==> entry_bounded(#[trigger] split_entries(s, cap)[i][j]),
    decreases s.len(),
{
    let chunks = split_entries(s, cap);
    if s.len() > cap {
        lemma_split_entries_bounded(s.skip(cap), cap);
        let rest = split_entries(s.skip(cap), cap);
        assert forall|i: int, j: int|
            0 <= i < chunks.len() && 0 <= j < chunks[i].len() implies entry_bounded(
            #[trigger] chunks[i][j]) by {
            if i > 0 {
                assert(chunks[i] == rest[i - 1]);
            }
        }
    }
}

/// Splits sorted entries into chunks of at most `40 / data_size` entries,
/// as the payload budget of 40 hex digits allows; a list that does not
/// exceed that cap stays whole. Each entry carries its id and its state
/// code together, so splitting cannot disturb the pairing of names with
/// states that change sets are built with.
pub fn split_changes_on_data_limit_signal(entries: &Vec<(i16, i16)>, data_size: i32) -> (r: Vec<
    Vec<(i16, i16)>,
>)
    requires
        1 <= data_size <= 40,
    ensures
        r@.map_values(|v: Vec<(i16, i16)>| v@) == split_entries(
            entries@,
            40 as int / data_size as int,
        ),
{
    let cap: usize = (40 / data_size) as usize;
    let ghost c = 40 as int / data_size as int;
    proof {
        assert(1 <= c && c <= 40) by (nonlinear_arith)
            requires
                1 <= data_size <= 40,
                c == 40 as int / data_size as int,
        ;
    }
    let mut out: Vec<Vec<(i16, i16)>> = Vec::new();
    let mut start: usize = 0;
    proof {
        assert(out@.map_values(|v: Vec<(i16, i16)>| v@) =~= Seq::<Seq<(i16, i16)>>::empty());
        assert(entries@.skip(0) =~= entries@);
        assert(out@.map_values(|v: Vec<(i16, i16)>| v@) + split_entries(entries@, c)
            =~= split_entries(entries@, c));
    }
    while entries.len() - start > cap
        invariant
            1 <= cap,
            cap == c,
            start <= entries@.len(),
            split_entries(entries@, c) == out@.map_values(|v: Vec<(i16, i16)>| v@)
                + split_entries(entries@.skip(start as int), c),
        decreases entries@.len() - start,
    {
        let mut chunk: Vec<(i16, i16)> = Vec::new();
        let mut k: usize = 0;
        while k < cap
            invariant
                cap <= entries@.len() - start,
                start + cap <= usize::MAX,
                k <= cap,
                chunk@ == entries@.subrange(start as int, start as int + k as int),
            decreases cap - k,
        {
            chunk.push(entries[start + k]);
            proof {
                assert(chunk@ =~= entries@.subrange(start as int, start as int + k as int + 1));
            }
            k += 1;
        }
        out.push(chunk);
        proof {
            let rem = entries@.skip(start as int);
            assert(rem.take(c) =~= entries@.subrange(start as int, start as int + c));
            assert(rem.skip(c) =~= entries@.skip(start as int + c));
            assert(out@.map_values(|v: Vec<(i16, i16)>| v@) =~= out@.drop_last().map_values(
                |v: Vec<(i16, i16)>| v@,
            ).push(chunk@));
            assert(split_entries(entries@, c) =~= out@.map_values(|v: Vec<(i16, i16)>| v@)
                + split_entries(entries@.skip(start as int + c), c));
        }
        start += cap;
    }
    let mut tail: Vec<(i16, i16)> = Vec::new();
    let mut k: usize = start;
    while k < entries.len()
        invariant
            start <= k <= entries@.len(),
            tail@ == entries@.subrange(start as int, k as int),
        decreases entries@.len() - k,
    {
        tail.push(entries[k]);
        proof {
            assert(tail@ =~= entries@.subrange(start as int, k as int + 1));
        }
        k += 1;
    }
    out.push(tail);
    proof {
        assert(tail@ =~= entries@.skip(start as int));
        assert(split_entries(entries@.skip(start as int), c) =~= seq![tail@]);
        assert(out@.map_values(|v: Vec<(i16, i16)>| v@) =~= out@.drop_last().map_values(
            |v: Vec<(i16, i16)>| v@,
        ).push(tail@));
        assert(out@.map_values(|v: Vec<(i16, i16)>| v@) =~= split_entries(entries@, c));
    }
    out
}

} // verus!
