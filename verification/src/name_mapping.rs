//! The name-to-numeric-id table used to turn entity names into wire ids.

use vstd::prelude::*;

verus! {

/// The largest numeric id the configuration may assign to a name.
pub const MAX_VLOG_ID: i16 = 254;

/// A total lookup table from entity names to the numeric ids the protocol
/// uses on the wire. Ids lie in `0..=254`, and each name occurs once.
pub struct NameMapping {
    entries: Vec<(String, i16)>,
}

/// The map described by an association list, later entries overriding
/// earlier ones.
pub open spec fn map_of_entries(entries: Seq<(String, i16)>) -> Map<Seq<char>, i16>
    decreases entries.len(),
{
    if entries.len() == 0 {
        Map::empty()
    } else {
        map_of_entries(entries.drop_last()).insert(entries.last().0@, entries.last().1)
    }
}

impl View for NameMapping {
    type V = Map<Seq<char>, i16>;

    closed spec fn view(&self) -> Map<Seq<char>, i16> {
        map_of_entries(self.entries@)
    }
}

impl NameMapping {
    /// Every stored id is a valid wire id, and no name is stored twice.
    pub closed spec fn wf(self) -> bool {
        &&& forall|i: int|
            0 <= i < self.entries@.len() ==> 0 <= (#[trigger] self.entries@[i]).1 <= MAX_VLOG_ID
        &&& forall|i: int, j: int|
            0 <= i < j < self.entries@.len() ==> (#[trigger] self.entries@[i]).0@ != (
            #[trigger] self.entries@[j]).0@
    }

    /// An empty mapping.
    pub fn new() -> (r: Self)
        ensures
            r.wf(),
            r@ == Map::<Seq<char>, i16>::empty(),
    {
        NameMapping { entries: Vec::new() }
    }

    /// Adds or replaces the id recorded for a name.
    pub fn insert(&mut self, name: String, id: i16)
        requires
            old(self).wf(),
            0 <= id <= MAX_VLOG_ID,
        ensures
            final(self).wf(),
            final(self)@ == old(self)@.insert(name@, id),
    {
        let ghost old_entries = self.entries@;
        let mut i: usize = 0;
        while i < self.entries.len()
            invariant
                old(self).wf(),
                0 <= id <= MAX_VLOG_ID,
                old(self).entries@ == old_entries,
                self.entries@ == old_entries,
                forall|k: int| 0 <= k < i ==> (#[trigger] old_entries[k]).0@ != name@,
                i <= old_entries.len(),
            decreases old_entries.len() - i,
        {
            if self.entries[i].0 == name {
                self.entries[i].1 = id;
                proof {
                    lemma_map_of_entries_update(old_entries, i as int, id);
                    assert(self.entries@ =~= old_entries.update(
                        i as int,
                        (old_entries[i as int].0, id),
                    ));
                    assert(self@ =~= old(self)@.insert(name@, id));
                    assert forall|k: int, j: int|
                        0 <= k < j < self.entries@.len() implies (
                    #[trigger] self.entries@[k]).0@ != (#[trigger] self.entries@[j]).0@ by {
                        assert(self.entries@[k].0 == old_entries[k].0);
                        assert(self.entries@[j].0 == old_entries[j].0);
                    }
                    assert forall|k: int| 0 <= k < self.entries@.len() implies 0 <= (
                    #[trigger] self.entries@[k]).1 <= MAX_VLOG_ID by {
                        if k != i {
                            assert(self.entries@[k] == old_entries[k]);
                        }
                    }
                }
                return ;
            }
            i += 1;
        }
        self.entries.push((name, id));
        proof {
            assert(self.entries@.drop_last() =~= old_entries);
        }
    }

    /// Looks a name up, returning its id exactly when the name is known.
    pub fn lookup(&self, name: &str) -> (r: Option<i16>)
        requires
            self.wf(),
        ensures
            r matches Some(id) ==> self@.contains_key(name@) && self@[name@] == id && 0 <= id
                <= MAX_VLOG_ID,
            r is None ==> !self@.contains_key(name@),
    {
        let key = String::from_str(name);
        let mut i: usize = 0;
        while i < self.entries.len()
            invariant
                self.wf(),
                key@ == name@,
                i <= self.entries@.len(),
                forall|k: int| 0 <= k < i ==> (#[trigger] self.entries@[k]).0@ != name@,
            decreases self.entries@.len() - i,
        {
            if self.entries[i].0 == key {
                proof {
                    lemma_map_of_entries_get(self.entries@, i as int);
                }
                return Some(self.entries[i].1);
            }
            i += 1;
        }
        proof {
            lemma_map_of_entries_absent(self.entries@, name@);
        }
        None
    }
}

/// A key that no entry carries is not in the described map.
proof fn lemma_map_of_entries_absent(entries: Seq<(String, i16)>, key: Seq<char>)
    requires
        forall|k: int| 0 <= k < entries.len() ==> (#[trigger] entries[k]).0@ != key,
    ensures
        !map_of_entries(entries).contains_key(key),
    decreases entries.len(),
{
    if entries.len() > 0 {
        lemma_map_of_entries_absent(entries.drop_last(), key);
    }
}

/// With distinct keys, the described map sends each entry's name to its id.
proof fn lemma_map_of_entries_get(entries: Seq<(String, i16)>, i: int)
    requires
        0 <= i < entries.len(),
        forall|k: int, j: int|
            0 <= k < j < entries.len() ==> (#[trigger] entries[k]).0@ != (#[trigger] entries[j]).0@,
    ensures
        map_of_entries(entries).contains_key(entries[i].0@),
        map_of_entries(entries)[entries[i].0@] == entries[i].1,
    decreases entries.len(),
{
    if i < entries.len() - 1 {
        lemma_map_of_entries_get(entries.drop_last(), i);
    }
}

/// Overwriting the id stored at a distinct-keyed position updates the
/// described map at that entry's name.
proof fn lemma_map_of_entries_update(entries: Seq<(String, i16)>, i: int, id: i16)
    requires
        0 <= i < entries.len(),
        forall|k: int, j: int|
            0 <= k < j < entries.len() ==> (#[trigger] entries[k]).0@ != (#[trigger] entries[j]).0@,
    ensures
        map_of_entries(entries.update(i, (entries[i].0, id))) == map_of_entries(entries).insert(
            entries[i].0@,
            id,
        ),
    decreases entries.len(),
{
    let updated = entries.update(i, (entries[i].0, id));
    if i == entries.len() - 1 {
        assert(updated.drop_last() =~= entries.drop_last());
        assert(map_of_entries(updated) =~= map_of_entries(entries).insert(entries[i].0@, id));
    } else {
        lemma_map_of_entries_update(entries.drop_last(), i, id);
        assert(updated.drop_last() =~= entries.drop_last().update(i, (entries[i].0, id)));
        assert(updated.last() == entries.last());
        lemma_map_of_entries_absent_tail(entries, i);
        assert(map_of_entries(updated) =~= map_of_entries(entries).insert(entries[i].0@, id));
    }
}

/// With distinct keys, an inner entry's name differs from the last entry's.
proof fn lemma_map_of_entries_absent_tail(entries: Seq<(String, i16)>, i: int)
    requires
        0 <= i < entries.len() - 1,
        forall|k: int, j: int|
            0 <= k < j < entries.len() ==> (#[trigger] entries[k]).0@ != (#[trigger] entries[j]).0@,
    ensures
        entries[i].0@ != entries.last().0@,
{
}

} // verus!
