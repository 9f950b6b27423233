//! Tables of known channel indices and their display names, kept in index order.

use vstd::prelude::*;

verus! {

/// Whether every element of `s` is smaller than the elements after it.
pub open spec fn strictly_ascending(s: Seq<usize>) -> bool {
    forall|i: int, j: int| 0 <= i < j < s.len() ==> s[i] < s[j]
}

/// The map that takes each of `indices` to the name at the same position.
pub open spec fn table_of(indices: Seq<usize>, names: Seq<Seq<char>>) -> Map<usize, Seq<char>> {
    Map::new(|k: usize| indices.contains(k), |k: usize| names[indices.index_of(k)])
}

/// The place of `index` in the ascending order of `indices`: the number of indices
/// at the start of the list that are smaller.
pub open spec fn place_of(indices: Seq<usize>, index: usize) -> int
    decreases indices.len(),
{
    if indices.len() == 0 || indices[0] >= index {
        0
    } else {
        1 + place_of(indices.skip(1), index)
    }
}

/// The place of an index is the first position that holds no smaller index.
pub proof fn lemma_place_of(indices: Seq<usize>, index: usize, pos: int)
    requires
        0 <= pos <= indices.len(),
        forall|i: int| 0 <= i < pos ==> indices[i] < index,
        pos < indices.len() ==> indices[pos] >= index,
    ensures
        place_of(indices, index) == pos,
    decreases indices.len(),
{
    if pos > 0 {
        let rest = indices.skip(1);
        assert(indices[0] < index);
        assert forall|i: int| 0 <= i < pos - 1 implies rest[i] < index by {
            assert(rest[i] == indices[i + 1]);
        }
        lemma_place_of(rest, index, pos - 1);
    }
}

/// In a strictly ascending sequence an element is found at its own position.
pub proof fn lemma_position_unique(s: Seq<usize>, i: int)
    requires
        strictly_ascending(s),
        0 <= i < s.len(),
    ensures
        s.index_of(s[i]) == i,
{
    let j = s.index_of(s[i]);
    assert(s.contains(s[i]));
    assert(0 <= j < s.len() && s[j] == s[i]);
    if j < i {
        assert(s[j] < s[i]);
    }
    if i < j {
        assert(s[i] < s[j]);
    }
}

#[derive(Debug)]
struct NameEntry {
    index: usize,
    name: String,
}

/// The indices of a list of entries, in order.
spec fn listed_indices(entries: Seq<NameEntry>) -> Seq<usize> {
    Seq::new(entries.len(), |i: int| entries[i].index)
}

/// The names of a list of entries, in order.
spec fn listed_names(entries: Seq<NameEntry>) -> Seq<Seq<char>> {
    Seq::new(entries.len(), |i: int| entries[i].name@)
}

/// The channels of one tier: a map from index to name, listed in ascending index order.
/// Every index fits a channel reference.
#[derive(Debug)]
pub struct ChannelNames {
    entries: Vec<NameEntry>,
}

impl View for ChannelNames {
    type V = Map<usize, Seq<char>>;

    /// The table as a map from index to name.
    open spec fn view(&self) -> Map<usize, Seq<char>> {
        table_of(self.indices(), self.names())
    }
}

impl ChannelNames {
    /// The indices of the table, in the order in which it lists them.
    pub closed spec fn indices(&self) -> Seq<usize> {
        listed_indices(self.entries@)
    }

    /// The names of the table, each at the position of its index.
    pub closed spec fn names(&self) -> Seq<Seq<char>> {
        listed_names(self.entries@)
    }

    /// What holds of every table: its indices ascend strictly, each fits a channel
    /// reference, and each has a name.
    #[verifier::type_invariant]
    pub open spec fn wf(&self) -> bool {
        &&& strictly_ascending(self.indices())
        &&& self.names().len() == self.indices().len()
        &&& forall|i: int| 0 <= i < self.indices().len() ==> self.indices()[i] <= i32::MAX
    }

    /// In a well-formed table the name at a position is the name of the index there.
    pub proof fn lemma_lookup(&self, i: int)
        requires
            self.wf(),
            0 <= i < self.indices().len(),
        ensures
            self@.contains_key(self.indices()[i]),
            self@[self.indices()[i]] == self.names()[i],
    {
        lemma_position_unique(self.indices(), i);
        assert(self.indices().contains(self.indices()[i]));
    }

    /// The empty table.
    pub fn new() -> (table: ChannelNames)
        ensures
            table.indices() == Seq::<usize>::empty(),
            table.names() == Seq::<Seq<char>>::empty(),
            table@ == Map::<usize, Seq<char>>::empty(),
            table.wf(),
    {
        let table = ChannelNames { entries: Vec::new() };
        assert(table.indices() =~= Seq::<usize>::empty());
        assert(table.names() =~= Seq::<Seq<char>>::empty());
        assert(table@ =~= Map::<usize, Seq<char>>::empty());
        table
    }

    /// The number of channels in the table.
    pub fn len(&self) -> (count: usize)
        ensures
            count == self.indices().len(),
            self.wf(),
    {
        proof {
            use_type_invariant(self);
        }
        self.entries.len()
    }

    /// The index at position `i` of the table's ascending order.
    pub fn index_at(&self, i: usize) -> (index: usize)
        requires
            i < self.indices().len(),
        ensures
            index == self.indices()[i as int],
    {
        self.entries[i].index
    }

    /// The name at position `i` of the table's ascending order.
    pub fn name_at(&self, i: usize) -> (name: &String)
        requires
            i < self.indices().len(),
        ensures
            name@ == self.names()[i as int],
    {
        &self.entries[i].name
    }

    /// Gives `index` the name `name`, replacing the name it had, if any. An index
    /// too large for a channel reference is refused, and the table stays as it is.
    pub fn insert(&mut self, index: usize, name: String) -> (accepted: bool)
        ensures
            accepted == (index <= i32::MAX),
            accepted ==> final(self)@ == old(self)@.insert(index, name@),
            accepted && old(self)@.contains_key(index) ==> {
                &&& final(self).indices() == old(self).indices()
                &&& final(self).names() == old(self).names().update(
                    place_of(old(self).indices(), index),
                    name@,
                )
            },
            accepted && !old(self)@.contains_key(index) ==> {
                &&& final(self).indices() == old(self).indices().insert(
                    place_of(old(self).indices(), index),
                    index,
                )
                &&& final(self).names() == old(self).names().insert(
                    place_of(old(self).indices(), index),
                    name@,
                )
            },
            !accepted ==> final(self).indices() == old(self).indices() && final(self).names()
                == old(self).names(),
            final(self).wf(),
    {
        proof {
            use_type_invariant(&*self);
        }
        if index > i32::MAX as usize {
            return false;
        }
        let ghost before_indices = self.indices();
        let ghost before_names = self.names();
        let ghost name_view = name@;
        let mut entries: Vec<NameEntry> = Vec::new();
        core::mem::swap(&mut entries, &mut self.entries);
        assert(before_indices =~= listed_indices(entries@));
        assert(before_names =~= listed_names(entries@));
        let mut pos: usize = 0;
        while pos < entries.len() && entries[pos as usize].index < index
            invariant
                pos <= entries.len(),
                forall|i: int| 0 <= i < pos ==> entries[i].index < index,
            decreases entries.len() - pos,
        {
            pos = pos + 1;
        }
        proof {
            lemma_place_of(before_indices, index, pos as int);
            if pos < before_indices.len() && before_indices[pos as int] == index {
                assert(before_indices.contains(index));
            } else {
                assert forall|i: int| 0 <= i < before_indices.len() implies before_indices[i]
                    != index by {
                    if i > pos {
                        assert(before_indices[pos as int] < before_indices[i]);
                    }
                }
            }
        }
        if pos < entries.len() && entries[pos].index == index {
            entries.set(pos, NameEntry { index, name });
            proof {
                assert(listed_indices(entries@) =~= before_indices);
                assert(listed_names(entries@) =~= before_names.update(pos as int, name_view));
                lemma_replace(before_indices, before_names, pos as int, name_view);
            }
        } else {
            entries.insert(pos, NameEntry { index, name });
            proof {
                assert(listed_indices(entries@) =~= before_indices.insert(pos as int, index));
                assert(listed_names(entries@) =~= before_names.insert(pos as int, name_view));
                lemma_insert(before_indices, before_names, pos as int, index, name_view);
            }
        }
        self.entries = entries;
        true
    }

    /// A copy of the table.
    pub fn copy(&self) -> (table: ChannelNames)
        ensures
            table.indices() == self.indices(),
            table.names() == self.names(),
            table@ == self@,
            table.wf(),
    {
        proof {
            use_type_invariant(self);
        }
        let mut entries: Vec<NameEntry> = Vec::new();
        let mut i: usize = 0;
        while i < self.entries.len()
            invariant
                i <= self.entries.len(),
                entries.len() == i,
                forall|k: int|
                    0 <= k < i ==> entries[k].index == self.entries[k].index && entries[k].name@
                        == self.entries[k].name@,
            decreases self.entries.len() - i,
        {
            entries.push(
                NameEntry { index: self.entries[i].index, name: self.entries[i].name.clone() },
            );
            i = i + 1;
        }
        let ghost indices = Seq::new(entries.len() as nat, |k: int| entries[k].index);
        let ghost names = Seq::new(entries.len() as nat, |k: int| entries[k].name@);
        assert(indices =~= self.indices());
        assert(names =~= self.names());
        let table = ChannelNames { entries };
        assert(table.indices() =~= self.indices());
        assert(table.names() =~= self.names());
        table
    }
}

/// Giving a listed index a new name changes the map at that index only.
proof fn lemma_replace(indices: Seq<usize>, names: Seq<Seq<char>>, pos: int, name: Seq<char>)
    requires
        strictly_ascending(indices),
        names.len() == indices.len(),
        0 <= pos < indices.len(),
    ensures
        table_of(indices, names.update(pos, name)) == table_of(indices, names).insert(
            indices[pos],
            name,
        ),
{
    let after = table_of(indices, names.update(pos, name));
    let expected = table_of(indices, names).insert(indices[pos], name);
    assert(indices.contains(indices[pos]));
    assert forall|k: usize| after.contains_key(k) implies #[trigger] after[k] == expected[k] by {
        let i = indices.index_of(k);
        lemma_position_unique(indices, i);
        lemma_position_unique(indices, pos);
    }
    assert(after =~= expected);
}

/// Listing a new index at its place in the order adds it to the map.
proof fn lemma_insert(
    indices: Seq<usize>,
    names: Seq<Seq<char>>,
    pos: int,
    index: usize,
    name: Seq<char>,
)
    requires
        strictly_ascending(indices),
        names.len() == indices.len(),
        0 <= pos <= indices.len(),
        forall|i: int| 0 <= i < pos ==> indices[i] < index,
        pos < indices.len() ==> index < indices[pos],
    ensures
        strictly_ascending(indices.insert(pos, index)),
        table_of(indices.insert(pos, index), names.insert(pos, name)) == table_of(
            indices,
            names,
        ).insert(index, name),
{
    let grown = indices.insert(pos, index);
    let grown_names = names.insert(pos, name);
    assert forall|i: int, j: int| 0 <= i < j < grown.len() implies grown[i] < grown[j] by {
        if j < pos {
        } else if j == pos {
        } else if i < pos {
            assert(indices[i] < index);
            if pos < indices.len() {
                assert(index < indices[pos]);
                if pos < j - 1 {
                    assert(indices[pos] < indices[j - 1]);
                }
            }
        } else if i == pos {
            if pos < j - 1 {
                assert(indices[pos] < indices[j - 1]);
            }
        } else {
            assert(indices[i - 1] < indices[j - 1]);
        }
    }
    let after = table_of(grown, grown_names);
    let expected = table_of(indices, names).insert(index, name);
    assert(grown[pos] == index);
    assert forall|k: usize| after.contains_key(k) <==> expected.contains_key(k) by {
        if grown.contains(k) {
            let i = grown.index_of(k);
            if i < pos {
                assert(indices[i] == k);
            } else if i > pos {
                assert(indices[i - 1] == k);
            }
        }
        if indices.contains(k) {
            let i = indices.index_of(k);
            if i < pos {
                assert(grown[i] == k);
            } else {
                assert(grown[i + 1] == k);
            }
        }
    }
    assert forall|k: usize| after.contains_key(k) implies #[trigger] after[k] == expected[k] by {
        let i = grown.index_of(k);
        lemma_position_unique(grown, i);
        if i < pos {
            assert(indices[i] == k);
            lemma_position_unique(indices, i);
        } else if i > pos {
            assert(indices[i - 1] == k);
            lemma_position_unique(indices, i - 1);
        } else {
            lemma_position_unique(grown, pos);
        }
    }
    assert(after =~= expected);
}

} // verus!
