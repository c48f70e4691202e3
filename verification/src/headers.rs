//! The header map of one connection: header-field names mapped to their
//! values, each name once, both as the bytes that came over the wire.

use vstd::prelude::*;

verus! {

/// A map from header-field name to header-field value. A name that is
/// inserted again keeps its place and takes the new value.
pub struct HeaderMap {
    names: Vec<Vec<u8>>,
    values: Vec<Vec<u8>>,
}

/// The position of `name` among `names`, if it is one of them.
spec fn position_of(names: Seq<Seq<u8>>, name: Seq<u8>) -> int {
    choose|i: int| 0 <= i < names.len() && names[i] == name
}

/// The map that parallel sequences of names and values stand for.
spec fn map_of(names: Seq<Seq<u8>>, values: Seq<Seq<u8>>) -> Map<
    Seq<u8>,
    Seq<u8>,
> {
    Map::new(|name: Seq<u8>| names.contains(name), |name: Seq<u8>| values[position_of(names, name)])
}

/// Where no name occurs twice, each name maps to the value at its place.
proof fn lemma_map_of_index(names: Seq<Seq<u8>>, values: Seq<Seq<u8>>, i: int)
    requires
        names.no_duplicates(),
        0 <= i < names.len(),
    ensures
        map_of(names, values).contains_key(names[i]),
        map_of(names, values)[names[i]] == values[i],
{
    assert(names.contains(names[i]));
    let j = position_of(names, names[i]);
    assert(0 <= j < names.len() && names[j] == names[i]);
}

/// A new name at the end is an insertion.
proof fn lemma_map_of_push(
    names: Seq<Seq<u8>>,
    values: Seq<Seq<u8>>,
    name: Seq<u8>,
    value: Seq<u8>,
)
    requires
        names.no_duplicates(),
        names.len() == values.len(),
        !names.contains(name),
    ensures
        names.push(name).no_duplicates(),
        map_of(names.push(name), values.push(value)) == map_of(names, values).insert(name, value),
{
    let names2 = names.push(name);
    let values2 = values.push(value);
    assert forall|i: int, j: int| 0 <= i < names2.len() && 0 <= j < names2.len() && i != j implies names2[i] != names2[j] by {
        if i < names.len() && j < names.len() {
        } else if i < names.len() {
            assert(names.contains(names[i]));
        } else {
            assert(names.contains(names[j]));
        }
    }
    assert forall|k: Seq<u8>| #[trigger] map_of(names2, values2).contains_key(k) == map_of(names, values).insert(name, value).contains_key(k) by {
        if names2.contains(k) {
            let i = choose|i: int| 0 <= i < names2.len() && names2[i] == k;
            if i < names.len() {
                assert(names.contains(k));
            }
        }
        if names.contains(k) {
            let i = choose|i: int| 0 <= i < names.len() && names[i] == k;
            assert(names2[i] == k);
        }
        if k == name {
            assert(names2[names.len() as int] == k);
        }
    }
    assert forall|k: Seq<u8>| #[trigger] map_of(names2, values2).contains_key(k) implies map_of(names2, values2)[k] == map_of(names, values).insert(name, value)[k] by {
        let i = choose|i: int| 0 <= i < names2.len() && names2[i] == k;
        lemma_map_of_index(names2, values2, i);
        if i < names.len() {
            assert(names[i] == k);
            lemma_map_of_index(names, values, i);
        }
    }
    assert(map_of(names2, values2) =~= map_of(names, values).insert(name, value));
}

/// A new value at the place of a name that is there is an insertion too.
proof fn lemma_map_of_update(
    names: Seq<Seq<u8>>,
    values: Seq<Seq<u8>>,
    i: int,
    value: Seq<u8>,
)
    requires
        names.no_duplicates(),
        names.len() == values.len(),
        0 <= i < names.len(),
    ensures
        map_of(names, values.update(i, value)) == map_of(names, values).insert(names[i], value),
{
    let values2 = values.update(i, value);
    assert(names.contains(names[i]));
    assert forall|k: Seq<u8>| #[trigger] map_of(names, values2).contains_key(k) implies map_of(names, values2)[k] == map_of(names, values).insert(names[i], value)[k] by {
        let j = choose|j: int| 0 <= j < names.len() && names[j] == k;
        lemma_map_of_index(names, values2, j);
        lemma_map_of_index(names, values, j);
    }
    assert(map_of(names, values2) =~= map_of(names, values).insert(names[i], value));
}

/// Whether two runs of bytes are the same.
pub fn bytes_equal(left: &[u8], right: &[u8]) -> (same: bool)
    ensures
        same == (left@ == right@),
{
    if left.len() != right.len() {
        return false;
    }
    let mut i: usize = 0;
    while i < left.len()
        invariant
            i <= left@.len(),
            left@.len() == right@.len(),
            forall|j: int| 0 <= j < i ==> left@[j] == right@[j],
        decreases left@.len() - i,
    {
        if left[i] != right[i] {
            return false;
        }
        i = i + 1;
    }
    assert(left@ =~= right@);
    true
}

/// Adds bytes at the end of a buffer.
pub fn append_bytes(buffer: &mut Vec<u8>, more: &[u8])
    ensures
        final(buffer)@ == old(buffer)@ + more@,
{
    let mut i: usize = 0;
    while i < more.len()
        invariant
            i <= more@.len(),
            buffer@ == old(buffer)@ + more@.subrange(0, i as int),
        decreases more@.len() - i,
    {
        buffer.push(more[i]);
        assert(buffer@ =~= old(buffer)@ + more@.subrange(0, i + 1));
        i = i + 1;
    }
    assert(more@.subrange(0, i as int) =~= more@);
}

/// A buffer of its own with the same bytes.
pub fn copy_bytes(bytes: &[u8]) -> (copy: Vec<u8>)
    ensures
        copy@ == bytes@,
{
    let mut copy: Vec<u8> = Vec::new();
    append_bytes(&mut copy, bytes);
    assert(copy@ =~= bytes@);
    copy
}

/// A buffer of its own with the bytes from `from` on.
pub fn tail_bytes(bytes: &[u8], from: usize) -> (tail: Vec<u8>)
    requires
        from <= bytes@.len(),
    ensures
        tail@ == bytes@.subrange(from as int, bytes@.len() as int),
{
    let mut tail: Vec<u8> = Vec::new();
    let mut i: usize = from;
    while i < bytes.len()
        invariant
            from <= i <= bytes@.len(),
            tail@ == bytes@.subrange(from as int, i as int),
        decreases bytes@.len() - i,
    {
        tail.push(bytes[i]);
        assert(tail@ =~= bytes@.subrange(from as int, i + 1));
        i = i + 1;
    }
    tail
}

impl HeaderMap {
    /// The names held, in the order in which each first came.
    spec fn names(&self) -> Seq<Seq<u8>> {
        Seq::new(self.names@.len(), |i: int| self.names@[i]@)
    }

    /// The values held, each at the place of its name.
    spec fn values(&self) -> Seq<Seq<u8>> {
        Seq::new(self.values@.len(), |i: int| self.values@[i]@)
    }

    /// Each name has a value and no name occurs twice.
    pub closed spec fn wf(&self) -> bool {
        &&& self.names@.len() == self.values@.len()
        &&& self.names().no_duplicates()
    }

    /// The map that the headers stand for.
    pub closed spec fn view(&self) -> Map<Seq<u8>, Seq<u8>> {
        map_of(self.names(), self.values())
    }

    /// A well-formed map has as many entries as it holds names, and finitely
    /// many.
    proof fn lemma_len(&self)
        requires
            self.wf(),
        ensures
            self@.dom().finite(),
            self@.dom().len() == self.names().len(),
    {
        let names = self.names();
        names.unique_seq_to_set();
        assert(self@.dom() =~= names.to_set());
    }

    /// A well-formed map holds finitely many headers.
    pub proof fn lemma_finite(&self)
        requires
            self.wf(),
        ensures
            self@.dom().finite(),
    {
        self.lemma_len();
    }

    /// An empty header map.
    pub fn new() -> (headers: HeaderMap)
        ensures
            headers.wf(),
            headers@ == Map::<Seq<u8>, Seq<u8>>::empty(),
    {
        let headers = HeaderMap { names: Vec::new(), values: Vec::new() };
        assert(headers@ =~= Map::<Seq<u8>, Seq<u8>>::empty());
        headers
    }

    /// The place of `name`, or the number of names where it is not held.
    fn find(&self, name: &[u8]) -> (i: usize)
        requires
            self.wf(),
        ensures
            i <= self.names().len(),
            i < self.names().len() ==> self.names()[i as int] == name@,
            i == self.names().len() ==> !self.names().contains(name@),
    {
        let mut i: usize = 0;
        while i < self.names.len()
            invariant
                i <= self.names@.len(),
                forall|j: int| 0 <= j < i ==> self.names()[j] != name@,
            decreases self.names@.len() - i,
        {
            if bytes_equal(self.names[i].as_slice(), name) {
                return i;
            }
            i = i + 1;
        }
        i
    }

    /// Sets the value of `name`, whether or not it had one, and returns the
    /// value it had.
    pub fn insert(&mut self, name: Vec<u8>, value: Vec<u8>) -> (previous: Option<Vec<u8>>)
        requires
            old(self).wf(),
        ensures
            final(self).wf(),
            final(self)@ == old(self)@.insert(name@, value@),
            previous is Some <==> old(self)@.contains_key(name@),
            previous matches Some(p) ==> p@ == old(self)@[name@],
    {
        let i = self.find(name.as_slice());
        let ghost names = self.names();
        let ghost values = self.values();
        if i < self.names.len() {
            proof {
                lemma_map_of_index(names, values, i as int);
                lemma_map_of_update(names, values, i as int, value@);
            }
            let mut slot = value;
            std::mem::swap(&mut self.values[i], &mut slot);
            assert(self.names() == names);
            assert(self.values() =~= values.update(i as int, value@));
            Some(slot)
        } else {
            proof {
                lemma_map_of_push(names, values, name@, value@);
            }
            self.names.push(name);
            self.values.push(value);
            assert(self.names() =~= names.push(name@));
            assert(self.values() =~= values.push(value@));
            None
        }
    }

    /// The value of `name`, if it has one.
    pub fn get(&self, name: &[u8]) -> (value: Option<&Vec<u8>>)
        requires
            self.wf(),
        ensures
            value is Some <==> self@.contains_key(name@),
            value matches Some(v) ==> v@ == self@[name@],
    {
        let i = self.find(name);
        if i < self.names.len() {
            proof {
                lemma_map_of_index(self.names(), self.values(), i as int);
            }
            Some(&self.values[i])
        } else {
            None
        }
    }

    /// Whether `name` has a value.
    pub fn contains_key(&self, name: &[u8]) -> (held: bool)
        requires
            self.wf(),
        ensures
            held == self@.contains_key(name@),
    {
        let i = self.find(name);
        proof {
            if i < self.names.len() {
                lemma_map_of_index(self.names(), self.values(), i as int);
            }
        }
        i < self.names.len()
    }

    /// The number of names held.
    pub fn len(&self) -> (n: usize)
        requires
            self.wf(),
        ensures
            n == self@.dom().len(),
    {
        proof {
            self.lemma_len();
        }
        self.names.len()
    }
}

} // verus!
