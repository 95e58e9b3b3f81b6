//! The variable environment: the tables stored under names.

use vstd::prelude::*;
use polars::frame::DataFrame;
use crate::frame::copy_frame;

verus! {

/// One stored table and its name.
pub struct Binding {
    pub name: String,
    pub table: DataFrame,
}

/// Whether no two bindings have the same name.
pub open spec fn distinct_names(b: Seq<Binding>) -> bool {
    forall|i: int, j: int|
        0 <= i < b.len() && 0 <= j < b.len() && i != j ==> (#[trigger] b[i]).name@ != (
        #[trigger] b[j]).name@
}

/// Whether some binding has the name.
pub open spec fn has_name(b: Seq<Binding>, name: Seq<char>) -> bool {
    exists|i: int| 0 <= i < b.len() && (#[trigger] b[i]).name@ == name
}

/// The mapping that a list of bindings stands for; a later binding of a name
/// overrides an earlier one.
pub open spec fn map_of(b: Seq<Binding>) -> Map<Seq<char>, DataFrame>
    decreases b.len(),
{
    if b.len() == 0 {
        Map::empty()
    } else {
        map_of(b.drop_last()).insert(b.last().name@, b.last().table)
    }
}

/// The mapping holds exactly the names of the bindings, and, where the names
/// are distinct, each name with its own table.
pub proof fn map_of_bindings(b: Seq<Binding>)
    ensures
        forall|k: Seq<char>| #[trigger] map_of(b).contains_key(k) <==> has_name(b, k),
        distinct_names(b) ==> forall|i: int|
            0 <= i < b.len() ==> map_of(b)[(#[trigger] b[i]).name@] == b[i].table,
    decreases b.len(),
{
    if b.len() > 0 {
        let front = b.drop_last();
        map_of_bindings(front);
        assert(map_of(b) == map_of(front).insert(b.last().name@, b.last().table));
        assert forall|k: Seq<char>| #[trigger] map_of(b).contains_key(k) <==> has_name(b, k) by {
            if has_name(b, k) {
                let i = choose|i: int| 0 <= i < b.len() && (#[trigger] b[i]).name@ == k;
                if i < b.len() - 1 {
                    assert(front[i].name@ == k);
                    assert(has_name(front, k));
                    assert(map_of(front).contains_key(k));
                }
            }
            if map_of(b).contains_key(k) {
                if k == b.last().name@ {
                    assert(b[b.len() - 1].name@ == k);
                } else {
                    assert(map_of(front).contains_key(k));
                    assert(has_name(front, k));
                    let i = choose|i: int| 0 <= i < front.len() && (#[trigger] front[i]).name@ == k;
                    assert(b[i].name@ == k);
                }
            }
        }
        if distinct_names(b) {
            assert(distinct_names(front)) by {
                assert forall|i: int, j: int|
                    0 <= i < front.len() && 0 <= j < front.len() && i != j implies (
                #[trigger] front[i]).name@ != (#[trigger] front[j]).name@ by {
                    assert(front[i] == b[i] && front[j] == b[j]);
                }
            }
            assert forall|i: int| 0 <= i < b.len() implies map_of(b)[(#[trigger] b[i]).name@]
                == b[i].table by {
                if i < b.len() - 1 {
                    assert(front[i] == b[i]);
                    assert(b[i].name@ != b[b.len() - 1].name@);
                }
            }
        }
    }
}

/// The tables stored under names. Names are unique; the order in which they
/// were stored does not matter.
pub struct Variables {
    bindings: Vec<Binding>,
}

impl View for Variables {
    type V = Map<Seq<char>, DataFrame>;

    closed spec fn view(&self) -> Map<Seq<char>, DataFrame> {
        map_of(self.bindings@)
    }
}

impl Variables {
    #[verifier::type_invariant]
    spec fn names_are_distinct(self) -> bool {
        distinct_names(self.bindings@)
    }

    /// The empty environment.
    pub fn new() -> (r: Variables)
        ensures
            r@ == Map::<Seq<char>, DataFrame>::empty(),
    {
        Variables { bindings: Vec::new() }
    }

    /// The number of stored tables.
    pub fn len(&self) -> (r: usize)
        ensures
            r == self@.dom().len(),
            self@.dom().finite(),
    {
        proof {
            use_type_invariant(self);
            counted(self.bindings@);
        }
        self.bindings.len()
    }

    /// Where the binding of `name` stands, if there is one.
    fn position(&self, name: &str) -> (r: Option<usize>)
        ensures
            match r {
                Some(i) => i < self.bindings.len() && self.bindings@[i as int].name@ == name@,
                None => !has_name(self.bindings@, name@),
            },
    {
        let mut i: usize = 0;
        while i < self.bindings.len()
            invariant
                i <= self.bindings.len(),
                forall|j: int| 0 <= j < i ==> (#[trigger] self.bindings@[j]).name@ != name@,
            decreases self.bindings.len() - i,
        {
            if self.bindings[i].name.as_str().to_owned() == name.to_owned() {
                return Some(i);
            }
            i += 1;
        }
        None
    }

    /// The table stored under `name`.
    pub fn get(&self, name: &str) -> (r: Option<&DataFrame>)
        ensures
            match r {
                Some(df) => self@.contains_key(name@) && *df == self@[name@],
                None => !self@.contains_key(name@),
            },
    {
        proof {
            use_type_invariant(self);
            map_of_bindings(self.bindings@);
        }
        match self.position(name) {
            Some(i) => Some(&self.bindings[i].table),
            None => None,
        }
    }

    /// Whether a table is stored under `name`.
    pub fn contains(&self, name: &str) -> (r: bool)
        ensures
            r == self@.contains_key(name@),
    {
        self.get(name).is_some()
    }

    /// A copy of the bindings, without the one at `skip` if that is given.
    fn copy_without(&self, skip: Option<usize>) -> (r: Vec<Binding>)
        requires
            skip matches Some(i) ==> i < self.bindings.len(),
        ensures
            match skip {
                Some(i) => same_without(self.bindings@, r@, i as int),
                None => same_bindings(self.bindings@, r@),
            },
    {
        let mut out: Vec<Binding> = Vec::new();
        let mut i: usize = 0;
        while i < self.bindings.len()
            invariant
                i <= self.bindings.len(),
                skip matches Some(k) ==> k < self.bindings.len(),
                match skip {
                    Some(k) => if i <= k {
                        out.len() == i
                    } else {
                        out.len() == i - 1
                    },
                    None => out.len() == i,
                },
                forall|j: int|
                    0 <= j < out.len() ==> same_binding(
                        #[trigger] out@[j],
                        self.bindings@[source_index(skip, j)],
                    ),
            decreases self.bindings.len() - i,
        {
            if skip != Some(i) {
                let b = &self.bindings[i];
                out.push(Binding { name: b.name.clone(), table: copy_frame(&b.table) });
            }
            i += 1;
        }
        out
    }

    /// Stores `table` under `name`; a table already stored under that name is
    /// replaced.
    pub fn insert(&mut self, name: String, table: DataFrame)
        ensures
            final(self)@ == old(self)@.insert(name@, table),
    {
        proof {
            use_type_invariant(&*self);
        }
        let ghost before = self.bindings@;
        let found = self.position(name.as_str());
        let mut out = self.copy_without(found);
        proof {
            match found {
                Some(i) => {
                    removed_map(before, out@, i as int);
                },
                None => {
                    same_map(before, out@);
                },
            }
            map_of_bindings(out@);
            map_of_bindings(before);
        }
        let ghost kept = out@;
        let ghost key = name@;
        out.push(Binding { name, table });
        proof {
            let after = out@;
            assert(after.drop_last() =~= kept);
            assert(!has_name(kept, key));
            assert(distinct_names(after)) by {
                assert forall|a: int, b: int|
                    0 <= a < after.len() && 0 <= b < after.len() && a != b implies (
                #[trigger] after[a]).name@ != (#[trigger] after[b]).name@ by {
                    if a < kept.len() {
                        assert(after[a] == kept[a]);
                    }
                    if b < kept.len() {
                        assert(after[b] == kept[b]);
                    }
                }
            }
            assert(map_of(after) =~= map_of(before).insert(key, table));
        }
        self.bindings = out;
    }

    /// Removes the table stored under `name`, if there is one.
    pub fn remove(&mut self, name: &str)
        ensures
            final(self)@ == old(self)@.remove(name@),
    {
        proof {
            use_type_invariant(&*self);
        }
        let ghost before = self.bindings@;
        let found = self.position(name);
        if found.is_some() {
            let out = self.copy_without(found);
            proof {
                removed_map(before, out@, found->0 as int);
            }
            self.bindings = out;
        } else {
            proof {
                map_of_bindings(before);
                assert(map_of(before) =~= map_of(before).remove(name@));
            }
        }
    }

    /// The stored names, each once.
    pub fn names(&self) -> (r: Vec<String>)
        ensures
            r.len() == self@.dom().len(),
            forall|k: Seq<char>|
                self@.contains_key(k) <==> exists|i: int|
                    0 <= i < r.len() && (#[trigger] r@[i])@ == k,
            forall|i: int, j: int|
                0 <= i < r.len() && 0 <= j < r.len() && i != j ==> (#[trigger] r@[i])@ != (
                #[trigger] r@[j])@,
    {
        proof {
            use_type_invariant(self);
            map_of_bindings(self.bindings@);
            counted(self.bindings@);
        }
        let mut out: Vec<String> = Vec::new();
        let mut i: usize = 0;
        while i < self.bindings.len()
            invariant
                i <= self.bindings.len(),
                out.len() == i,
                forall|j: int| 0 <= j < i ==> (#[trigger] out@[j])@ == self.bindings@[j].name@,
            decreases self.bindings.len() - i,
        {
            out.push(self.bindings[i].name.clone());
            i += 1;
        }
        proof {
            let b = self.bindings@;
            assert forall|k: Seq<char>|
                self@.contains_key(k) <==> exists|i: int|
                    0 <= i < out.len() && (#[trigger] out@[i])@ == k by {
                if has_name(b, k) {
                    let a = choose|a: int| 0 <= a < b.len() && (#[trigger] b[a]).name@ == k;
                    assert(out@[a]@ == k);
                }
                if exists|i: int| 0 <= i < out.len() && (#[trigger] out@[i])@ == k {
                    let a = choose|a: int| 0 <= a < out.len() && (#[trigger] out@[a])@ == k;
                    assert(b[a].name@ == k);
                }
            }
            assert forall|i: int, j: int|
                0 <= i < out.len() && 0 <= j < out.len() && i != j implies (#[trigger] out@[i])@
                != (#[trigger] out@[j])@ by {
                assert(b[i].name@ != b[j].name@);
            }
        }
        out
    }

    /// A copy of the whole environment.
    pub fn snapshot(&self) -> (r: Variables)
        ensures
            r@ == self@,
    {
        proof {
            use_type_invariant(self);
        }
        let out = self.copy_without(None);
        proof {
            same_map(self.bindings@, out@);
        }
        Variables { bindings: out }
    }
}

/// Whether two bindings have the same name and the same table.
pub open spec fn same_binding(a: Binding, b: Binding) -> bool {
    a.name@ == b.name@ && a.table == b.table
}

/// The index in the full list of the binding at `j` of a copy that left
/// out the binding at `skip`.
pub open spec fn source_index(skip: Option<usize>, j: int) -> int {
    match skip {
        Some(k) => if j < k {
            j
        } else {
            j + 1
        },
        None => j,
    }
}

/// Whether `c` is `b`, binding by binding.
pub open spec fn same_bindings(b: Seq<Binding>, c: Seq<Binding>) -> bool {
    &&& b.len() == c.len()
    &&& forall|j: int| 0 <= j < c.len() ==> same_binding(#[trigger] c[j], b[j])
}

/// Whether `c` is `b` without the binding at `i`, binding by binding.
pub open spec fn same_without(b: Seq<Binding>, c: Seq<Binding>, i: int) -> bool {
    &&& 0 <= i < b.len()
    &&& c.len() == b.len() - 1
    &&& forall|j: int|
        0 <= j < c.len() ==> same_binding(#[trigger] c[j], b[source_index(Some(i as usize), j)])
}

/// Leaving out one binding of a list with distinct names removes its name
/// from the mapping, and nothing else.
pub proof fn removed_map(b: Seq<Binding>, c: Seq<Binding>, i: int)
    requires
        distinct_names(b),
        same_without(b, c, i),
        b.len() <= usize::MAX,
    ensures
        distinct_names(c),
        map_of(c) == map_of(b).remove(b[i].name@),
{
    let skip = Some(i as usize);
    assert forall|x: int, y: int| 0 <= x < c.len() && 0 <= y < c.len() && x != y implies (
    #[trigger] c[x]).name@ != (#[trigger] c[y]).name@ by {
        assert(same_binding(c[x], b[source_index(skip, x)]));
        assert(same_binding(c[y], b[source_index(skip, y)]));
    }
    map_of_bindings(b);
    map_of_bindings(c);
    let name = b[i].name@;
    assert forall|k: Seq<char>| has_name(c, k) <==> (has_name(b, k) && k != name) by {
        if has_name(c, k) {
            let x = choose|x: int| 0 <= x < c.len() && (#[trigger] c[x]).name@ == k;
            assert(same_binding(c[x], b[source_index(skip, x)]));
            assert(b[source_index(skip, x)].name@ != b[i].name@);
        }
        if has_name(b, k) && k != name {
            let x0 = choose|x: int| 0 <= x < b.len() && (#[trigger] b[x]).name@ == k;
            let x = if x0 < i {
                x0
            } else {
                x0 - 1
            };
            assert(same_binding(c[x], b[source_index(skip, x)]));
        }
    }
    assert forall|k: Seq<char>| #[trigger] map_of(c).contains_key(k) implies map_of(c)[k]
        == map_of(b)[k] by {
        let x = choose|x: int| 0 <= x < c.len() && (#[trigger] c[x]).name@ == k;
        assert(same_binding(c[x], b[source_index(skip, x)]));
        assert(map_of(c)[c[x].name@] == c[x].table);
        assert(map_of(b)[b[source_index(skip, x)].name@] == b[source_index(skip, x)].table);
    }
    assert(map_of(c) =~= map_of(b).remove(name));
}

/// Lists that agree binding by binding stand for the same mapping, and one
/// has distinct names if the other has.
pub proof fn same_map(b: Seq<Binding>, c: Seq<Binding>)
    requires
        same_bindings(b, c),
    ensures
        map_of(b) == map_of(c),
        distinct_names(b) ==> distinct_names(c),
    decreases b.len(),
{
    if b.len() > 0 {
        assert(same_bindings(b.drop_last(), c.drop_last())) by {
            assert forall|j: int| 0 <= j < c.drop_last().len() implies same_binding(
                #[trigger] c.drop_last()[j],
                b.drop_last()[j],
            ) by {
                assert(same_binding(c[j], b[j]));
            }
        }
        same_map(b.drop_last(), c.drop_last());
        assert(same_binding(c[c.len() - 1], b[b.len() - 1]));
    }
    if distinct_names(b) {
        assert forall|x: int, y: int| 0 <= x < c.len() && 0 <= y < c.len() && x != y implies (
        #[trigger] c[x]).name@ != (#[trigger] c[y]).name@ by {
            assert(same_binding(c[x], b[x]));
            assert(same_binding(c[y], b[y]));
        }
    }
}

/// With distinct names, the mapping has as many names as there are bindings.
pub proof fn counted(b: Seq<Binding>)
    requires
        distinct_names(b),
    ensures
        map_of(b).dom().finite(),
        map_of(b).dom().len() == b.len(),
    decreases b.len(),
{
    if b.len() > 0 {
        let front = b.drop_last();
        assert(distinct_names(front)) by {
            assert forall|i: int, j: int|
                0 <= i < front.len() && 0 <= j < front.len() && i != j implies (
            #[trigger] front[i]).name@ != (#[trigger] front[j]).name@ by {
                assert(front[i] == b[i] && front[j] == b[j]);
            }
        }
        counted(front);
        map_of_bindings(front);
        assert(!has_name(front, b.last().name@)) by {
            if has_name(front, b.last().name@) {
                let i = choose|i: int|
                    0 <= i < front.len() && (#[trigger] front[i]).name@ == b.last().name@;
                assert(b[i].name@ == b[b.len() - 1].name@);
            }
        }
        assert(map_of(b).dom() =~= map_of(front).dom().insert(b.last().name@));
    } else {
        assert(map_of(b).dom() =~= Set::<Seq<char>>::empty());
    }
}

} // verus!
