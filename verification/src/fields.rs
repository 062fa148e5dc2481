use std::collections::HashMap;
use std::collections::VecDeque;
use vstd::prelude::*;

verus! {

broadcast use vstd::std_specs::hash::group_hash_axioms;

/// The integers of a runestone message grouped by tag, each tag's values in
/// the order in which they appeared.
pub struct Fields {
    map: HashMap<u128, VecDeque<u128>>,
}

impl View for Fields {
    type V = Map<u128, Seq<u128>>;

    closed spec fn view(&self) -> Map<u128, Seq<u128>> {
        Map::new(|k: u128| self.map@.contains_key(k), |k: u128| self.map@[k]@)
    }
}

/// `m` with `value` appended to the values of `tag`.
pub open spec fn fields_push(m: Map<u128, Seq<u128>>, tag: u128, value: u128) -> Map<u128, Seq<u128>> {
    if m.contains_key(tag) {
        m.insert(tag, m[tag].push(value))
    } else {
        m.insert(tag, seq![value])
    }
}

/// The first `n` values of `tag`, when it has that many.
pub open spec fn fields_first(m: Map<u128, Seq<u128>>, tag: u128, n: nat) -> Option<Seq<u128>> {
    if m.contains_key(tag) && m[tag].len() >= n {
        Some(m[tag].take(n as int))
    } else {
        None
    }
}

/// `m` without the first `n` values of `tag`; a tag left without values
/// leaves the map.
pub open spec fn fields_drain(m: Map<u128, Seq<u128>>, tag: u128, n: nat) -> Map<u128, Seq<u128>> {
    if !m.contains_key(tag) {
        m
    } else if m[tag].len() <= n {
        m.remove(tag)
    } else {
        m.insert(tag, m[tag].skip(n as int))
    }
}

/// Whether some tag of `m` is even.
pub open spec fn fields_have_even_tag(m: Map<u128, Seq<u128>>) -> bool {
    exists|t: u128| m.contains_key(t) && t % 2 == 0
}

impl Fields {
    /// No fields.
    pub fn new() -> (r: Fields)
        ensures
            r@ == Map::<u128, Seq<u128>>::empty(),
    {
        let r = Fields { map: HashMap::new() };
        assert(r@ =~= Map::<u128, Seq<u128>>::empty());
        r
    }

    /// Appends `value` to the values of `tag`.
    pub fn push(&mut self, tag: u128, value: u128)
        ensures
            final(self)@ == fields_push(old(self)@, tag, value),
    {
        let ghost old_view = self@;
        let values = match self.map.remove(&tag) {
            Some(mut values) => {
                values.push_back(value);
                values
            },
            None => {
                let mut values = VecDeque::new();
                values.push_back(value);
                values
            },
        };
        self.map.insert(tag, values);
        proof {
            if old_view.contains_key(tag) {
                assert(old_view[tag].push(value) =~= values@);
            } else {
                assert(seq![value] =~= values@);
            }
            assert(self@ =~= fields_push(old_view, tag, value));
        }
    }

    /// The first `n` values of `tag`, if it has that many; the fields are left
    /// as they are.
    pub fn first(&self, tag: u128, n: usize) -> (r: Option<Vec<u128>>)
        ensures
            match r {
                Some(v) => fields_first(self@, tag, n as nat) == Some(v@),
                None => fields_first(self@, tag, n as nat) is None,
            },
    {
        match self.map.get(&tag) {
            None => None,
            Some(values) => {
                if values.len() < n {
                    return None;
                }
                let mut out: Vec<u128> = Vec::new();
                let mut i: usize = 0;
                while i < n
                    invariant
                        i <= n <= values@.len(),
                        out@ == values@.take(i as int),
                    decreases n - i,
                {
                    out.push(values[i]);
                    i = i + 1;
                    assert(out@ =~= values@.take(i as int));
                }
                Some(out)
            },
        }
    }

    /// Removes the first `n` values of `tag`; a tag left without values is
    /// removed.
    pub fn drain(&mut self, tag: u128, n: usize)
        ensures
            final(self)@ == fields_drain(old(self)@, tag, n as nat),
    {
        let ghost old_view = self@;
        match self.map.remove(&tag) {
            None => {
                assert(self@ =~= old_view);
            },
            Some(mut values) => {
                let ghost initial = values@;
                let mut i: usize = 0;
                while i < n && values.len() > 0
                    invariant
                        i <= n,
                        i <= initial.len(),
                        values@ == initial.skip(i as int),
                    decreases n - i,
                {
                    values.pop_front();
                    i = i + 1;
                    assert(values@ =~= initial.skip(i as int));
                }
                if values.len() > 0 {
                    self.map.insert(tag, values);
                    assert(self@ =~= fields_drain(old_view, tag, n as nat));
                } else {
                    assert(self@ =~= fields_drain(old_view, tag, n as nat));
                }
            },
        }
    }

    /// Whether some tag with values is even.
    pub fn has_even_tag(&self) -> (r: bool)
        ensures
            r == fields_have_even_tag(self@),
    {
        for t in it: self.map.keys()
            invariant
                forall|j: int| 0 <= j < it.index() ==> #[trigger] *it.seq()[j] % 2 != 0,
                it.seq().unref().to_set() == self.map@.dom(),
        {
            if *t % 2 == 0 {
                assert(it.seq().unref()[it.index()] == *t);
                assert(it.seq().unref().to_set().contains(*t));
                assert(self@.contains_key(*t));
                return true;
            }
        }
        false
    }
}

} // verus!
