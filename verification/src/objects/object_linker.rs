//! The references between objects: for each object the objects that it
//! mentions, and for each object the objects that mention it.
use crate::objects::collector::{lemma_take_one_more, ObjectID, SingleObjectExtended};
use crate::primitive::Primitive;
use std::collections::HashMap;
use vstd::prelude::*;

verus! {

broadcast use vstd::std_specs::hash::group_hash_axioms;

/// The numbers of the references in a sequence of values, in the order in
/// which a walk through the values meets them.
pub open spec fn ids_of_all(s: Seq<Primitive>) -> Seq<u64>
    decreases s, 0int,
{
    if s.len() == 0 {
        Seq::empty()
    } else {
        ids_of_all(s.drop_last()) + referenced_ids(s.last())
    }
}

/// The numbers of the references in the values of dictionary entries, in the
/// order of the entries.
pub open spec fn ids_of_entries(s: Seq<(String, Primitive)>) -> Seq<u64>
    decreases s, 0int,
{
    if s.len() == 0 {
        Seq::empty()
    } else {
        ids_of_entries(s.drop_last()) + referenced_ids(s.last().1)
    }
}

/// The numbers of all references that a value contains, in the order in which
/// a depth-first walk meets them: through the values of a dictionary, the
/// elements of an array and the dictionary of a stream. A number that occurs
/// twice is listed twice.
pub open spec fn referenced_ids(p: Primitive) -> Seq<u64>
    decreases p, 1int,
{
    match p {
        Primitive::Reference(r) => seq![r.id],
        Primitive::Array(v) => ids_of_all(v@),
        Primitive::Dictionary(d) => ids_of_entries(d.entries@),
        Primitive::Stream(s) => ids_of_entries(s.info.entries@),
        _ => Seq::empty(),
    }
}

/// The list with `x` added at its end unless it is in the list.
pub open spec fn push_new(acc: Seq<u64>, x: u64) -> Seq<u64> {
    if acc.contains(x) {
        acc
    } else {
        acc.push(x)
    }
}

/// The list with the numbers of `s` added one by one, each unless it is in
/// the list by then.
pub open spec fn push_new_all(acc: Seq<u64>, s: Seq<u64>) -> Seq<u64>
    decreases s.len(),
{
    if s.len() == 0 {
        acc
    } else {
        push_new(push_new_all(acc, s.drop_last()), s.last())
    }
}

/// The numbers of `s` without repetition, each where it first occurs.
pub open spec fn distinct(s: Seq<u64>) -> Seq<u64> {
    push_new_all(Seq::empty(), s)
}

/// Adding two lists one after the other is adding their concatenation.
pub proof fn lemma_push_new_all_concat(acc: Seq<u64>, a: Seq<u64>, b: Seq<u64>)
    ensures
        push_new_all(acc, a + b) == push_new_all(push_new_all(acc, a), b),
    decreases b.len(),
{
    if b.len() == 0 {
        assert(a + b =~= a);
    } else {
        lemma_push_new_all_concat(acc, a, b.drop_last());
        assert((a + b).drop_last() =~= a + b.drop_last());
    }
}

/// Adding numbers keeps the list it starts from as a prefix, holds exactly
/// the numbers of the list and those added, and repeats none if the list
/// repeated none.
pub proof fn lemma_push_new_all(acc: Seq<u64>, s: Seq<u64>)
    ensures
        acc.len() <= push_new_all(acc, s).len(),
        push_new_all(acc, s).take(acc.len() as int) == acc,
        forall|x: u64| push_new_all(acc, s).contains(x) <==> acc.contains(x) || s.contains(x),
        acc.no_duplicates() ==> push_new_all(acc, s).no_duplicates(),
    decreases s.len(),
{
    if s.len() == 0 {
        assert(acc.take(acc.len() as int) =~= acc);
    } else {
        let rest = s.drop_last();
        let x = s.last();
        let mid = push_new_all(acc, rest);
        let out = push_new(mid, x);
        lemma_push_new_all(acc, rest);
        assert(out.take(acc.len() as int) =~= mid.take(acc.len() as int));
        assert forall|y: u64| out.contains(y) <==> acc.contains(y) || s.contains(y) by {
            if out.contains(y) {
                let w = choose|w: int| 0 <= w < out.len() && out[w] == y;
                if w < mid.len() {
                    assert(mid[w] == y);
                    assert(mid.contains(y));
                    if rest.contains(y) {
                        let v = choose|v: int| 0 <= v < rest.len() && rest[v] == y;
                        assert(s[v] == y);
                    }
                } else {
                    assert(y == x);
                    assert(s[s.len() - 1] == y);
                }
            }
            if acc.contains(y) {
                assert(mid.contains(y));
                let w = choose|w: int| 0 <= w < mid.len() && mid[w] == y;
                assert(out[w] == y);
            }
            if s.contains(y) {
                let v = choose|v: int| 0 <= v < s.len() && s[v] == y;
                if v < rest.len() {
                    assert(rest[v] == y);
                    assert(mid.contains(y));
                    let w = choose|w: int| 0 <= w < mid.len() && mid[w] == y;
                    assert(out[w] == y);
                } else {
                    assert(y == x);
                    if mid.contains(x) {
                    } else {
                        assert(out[mid.len() as int] == x);
                    }
                }
            }
        }
    }
}

/// Where a number first occurs in a list; the length of the list if it does
/// not occur.
pub open spec fn first_index(s: Seq<u64>, x: u64) -> int
    decreases s.len(),
{
    if s.len() == 0 {
        0
    } else if s.drop_last().contains(x) {
        first_index(s.drop_last(), x)
    } else if s.last() == x {
        s.len() - 1
    } else {
        s.len() as int
    }
}

/// The first index of a number lies within the list exactly if the number
/// occurs; the number stands there, and nowhere before.
pub proof fn lemma_first_index(s: Seq<u64>, x: u64)
    ensures
        0 <= first_index(s, x) <= s.len(),
        forall|k: int| 0 <= k < first_index(s, x) ==> s[k] != x,
        s.contains(x) <==> first_index(s, x) < s.len(),
        first_index(s, x) < s.len() ==> s[first_index(s, x)] == x,
    decreases s.len(),
{
    if s.len() > 0 {
        let rest = s.drop_last();
        lemma_first_index(rest, x);
        assert forall|k: int| 0 <= k < first_index(s, x) implies s[k] != x by {
            if k < rest.len() {
                assert(rest[k] == s[k]);
                if !rest.contains(x) && s[k] == x {
                    assert(rest.contains(x));
                }
            }
        }
        if rest.contains(x) {
            let w = first_index(rest, x);
            assert(s[w] == x);
        } else if s.contains(x) {
            let w = choose|w: int| 0 <= w < s.len() && s[w] == x;
            if w < rest.len() {
                assert(rest[w] == x);
            }
        }
    }
}

/// Of two numbers of the result, the one that comes first in the result first
/// occurs first in `s`.
pub proof fn lemma_distinct_keeps_first_occurrence(s: Seq<u64>, i: int, j: int)
    requires
        0 <= i < j < distinct(s).len(),
    ensures
        first_index(s, distinct(s)[i]) < first_index(s, distinct(s)[j]) < s.len(),
    decreases s.len(),
{
    let d = distinct(s);
    if s.len() > 0 {
        let rest = s.drop_last();
        let x = s.last();
        let mid = distinct(rest);
        lemma_push_new_all(Seq::empty(), rest);
        assert(d[i] == mid[i]);
        assert(mid.contains(mid[i]));
        lemma_first_index(rest, d[i]);
        if j < mid.len() {
            lemma_distinct_keeps_first_occurrence(rest, i, j);
            assert(d[j] == mid[j]);
            assert(mid.contains(mid[j]));
        } else {
            assert(d[j] == x && !mid.contains(x));
        }
    }
}

/// The list stored under a number; the empty list where nothing is stored.
pub open spec fn list_at(m: Map<u64, Vec<u64>>, k: u64) -> Seq<u64> {
    if m.contains_key(k) {
        m[k]@
    } else {
        Seq::empty()
    }
}

/// Those of the numbers `ids`, in order, whose list in `to` holds `b`.
pub open spec fn sources(ids: Seq<u64>, to: Map<u64, Vec<u64>>, b: u64) -> Seq<u64> {
    ids.filter(|a: u64| list_at(to, a).contains(b))
}

/// The numbers of the objects, by position.
pub open spec fn object_ids(objects: Seq<SingleObjectExtended>) -> Seq<u64> {
    objects.map_values(|o: SingleObjectExtended| o.id)
}

/// The map has a list for each of the numbers `ids` and for each number whose
/// list is not empty, and for no other.
pub open spec fn keyed(m: Map<u64, Vec<u64>>, ids: Seq<u64>) -> bool {
    forall|b: u64|
        #![trigger m.contains_key(b)]
        m.contains_key(b) <==> ids.contains(b) || list_at(m, b).len() > 0
}

/// No later position, up to `end`, holds the number of position `j`.
pub open spec fn last_of_its_id(ids: Seq<u64>, j: int, end: int) -> bool {
    forall|k: int| j < k < end ==> ids[k] != ids[j]
}

/// A number is among the sources of `b` exactly if it is one of `ids` and its
/// list holds `b`.
pub proof fn lemma_sources(ids: Seq<u64>, to: Map<u64, Vec<u64>>, b: u64, a: u64)
    ensures
        sources(ids, to, b).contains(a) <==> ids.contains(a) && list_at(to, a).contains(b),
{
    let pred = |a: u64| list_at(to, a).contains(b);
    if sources(ids, to, b).contains(a) {
        ids.lemma_filter_contains_rev(pred, a);
        let w = choose|w: int| 0 <= w < ids.filter(pred).len() && ids.filter(pred)[w] == a;
        ids.lemma_filter_pred(pred, w);
    }
    if ids.contains(a) && list_at(to, a).contains(b) {
        let w = choose|w: int| 0 <= w < ids.len() && ids[w] == a;
        ids.lemma_filter_contains(pred, w);
    }
}

/// For each object the objects that it mentions, and for each object the
/// objects that mention it.
#[derive(Debug)]
pub struct ObjectLinker {
    /// From the number of an object to the numbers that its value refers to.
    pub to_objects: HashMap<ObjectID, Vec<ObjectID>>,
    /// From a number to the numbers of the objects whose values refer to it.
    pub from_objects: HashMap<ObjectID, Vec<ObjectID>>,
}

fn contains_id(v: &Vec<u64>, x: u64) -> (r: bool)
    ensures
        r == v@.contains(x),
{
    let mut i: usize = 0;
    while i < v.len()
        invariant
            i <= v.len(),
            forall|j: int| 0 <= j < i ==> v@[j] != x,
        decreases v.len() - i,
    {
        if v[i] == x {
            return true;
        }
        i += 1;
    }
    false
}

impl ObjectLinker {
    /// The numbers that object `a` refers to; none for a number that is not
    /// indexed.
    pub open spec fn forward(self, a: u64) -> Seq<u64> {
        list_at(self.to_objects@, a)
    }

    /// The numbers of the objects that refer to `b`.
    pub open spec fn backward(self, b: u64) -> Seq<u64> {
        list_at(self.from_objects@, b)
    }

    /// The invariant of the two maps: `a` refers to `b` exactly if `b` is
    /// referred to by `a`, and no list holds a number twice.
    pub open spec fn wf(self) -> bool {
        &&& forall|a: u64, b: u64|
            self.forward(a).contains(b) <==> self.backward(b).contains(a)
        &&& forall|a: u64| (#[trigger] self.forward(a)).no_duplicates()
        &&& forall|b: u64| (#[trigger] self.backward(b)).no_duplicates()
    }

    /// The maps are those of the given objects: `to_objects` has a list for
    /// each object number, that of the last object with the number;
    /// `from_objects` has a list for each number that is an object's or is
    /// referred to, with the numbers of the objects that refer to it, in the
    /// order of the objects.
    pub open spec fn links(self, objects: Seq<SingleObjectExtended>) -> bool {
        &&& forall|a: u64| self.to_objects@.contains_key(a) <==> object_ids(objects).contains(a)
        &&& forall|i: int|
            0 <= i < objects.len() && #[trigger] last_of_its_id(
                object_ids(objects),
                i,
                objects.len() as int,
            ) ==> self.forward(objects[i].id) == distinct(referenced_ids(objects[i].object_content))
        &&& keyed(self.from_objects@, object_ids(objects))
        &&& forall|b: u64| #[trigger]
            self.backward(b) == distinct(sources(object_ids(objects), self.to_objects@, b))
    }

    /// Walks through a value and adds the number of each reference that it
    /// meets to `references_to`, unless the number is in the list by then.
    /// References are not followed.
    #[verifier::loop_isolation(false)]
    pub fn scan(primitive: &Primitive, references_to: &mut Vec<ObjectID>)
        ensures
            final(references_to)@ == push_new_all(old(references_to)@, referenced_ids(*primitive)),
        decreases primitive,
    {
        match primitive {
            Primitive::Stream(ess) => {
                let entries = &ess.info.entries;
                let mut i: usize = 0;
                assert(entries@.take(0) =~= Seq::<(String, Primitive)>::empty());
                while i < entries.len()
                    invariant
                        i <= entries.len(),
                        references_to@ == push_new_all(
                            old(references_to)@,
                            ids_of_entries(entries@.take(i as int)),
                        ),
                    decreases entries.len() - i,
                {
                    proof {
                        lemma_push_new_all_concat(
                            old(references_to)@,
                            ids_of_entries(entries@.take(i as int)),
                            referenced_ids(entries@[i as int].1),
                        );
                        assert(entries@.take(i + 1).drop_last() =~= entries@.take(i as int));
                        assert(decreases_to!(primitive => primitive->Stream_0.info.entries@[i as int].1));
                    }
                    Self::scan(&entries[i].1, references_to);
                    i += 1;
                }
                assert(entries@.take(i as int) =~= entries@);
                assert(referenced_ids(*primitive) == ids_of_entries(entries@));
            },
            Primitive::Dictionary(elements) => {
                let entries = &elements.entries;
                let mut i: usize = 0;
                assert(entries@.take(0) =~= Seq::<(String, Primitive)>::empty());
                while i < entries.len()
                    invariant
                        i <= entries.len(),
                        references_to@ == push_new_all(
                            old(references_to)@,
                            ids_of_entries(entries@.take(i as int)),
                        ),
                    decreases entries.len() - i,
                {
                    proof {
                        lemma_push_new_all_concat(
                            old(references_to)@,
                            ids_of_entries(entries@.take(i as int)),
                            referenced_ids(entries@[i as int].1),
                        );
                        assert(entries@.take(i + 1).drop_last() =~= entries@.take(i as int));
                        assert(decreases_to!(primitive => primitive->Dictionary_0.entries@[i as int].1));
                    }
                    Self::scan(&entries[i].1, references_to);
                    i += 1;
                }
                assert(entries@.take(i as int) =~= entries@);
                assert(referenced_ids(*primitive) == ids_of_entries(entries@));
            },
            Primitive::Array(elements) => {
                let mut i: usize = 0;
                assert(elements@.take(0) =~= Seq::<Primitive>::empty());
                while i < elements.len()
                    invariant
                        i <= elements.len(),
                        references_to@ == push_new_all(
                            old(references_to)@,
                            ids_of_all(elements@.take(i as int)),
                        ),
                    decreases elements.len() - i,
                {
                    proof {
                        lemma_push_new_all_concat(
                            old(references_to)@,
                            ids_of_all(elements@.take(i as int)),
                            referenced_ids(elements@[i as int]),
                        );
                        assert(elements@.take(i + 1).drop_last() =~= elements@.take(i as int));
                        assert(decreases_to!(primitive => primitive->Array_0@[i as int]));
                    }
                    Self::scan(&elements[i], references_to);
                    i += 1;
                }
                assert(elements@.take(i as int) =~= elements@);
                assert(referenced_ids(*primitive) == ids_of_all(elements@));
            },
            Primitive::Reference(reference) => {
                assert(seq![reference.id].drop_last() =~= Seq::<u64>::empty());
                assert(referenced_ids(*primitive) == seq![reference.id]);
                assert(push_new_all(old(references_to)@, seq![reference.id]) == push_new(
                    old(references_to)@,
                    reference.id,
                )) by {
                    reveal_with_fuel(push_new_all, 2);
                }
                if !contains_id(references_to, reference.id) {
                    references_to.push(reference.id);
                }
            },
            _ => {
                assert(referenced_ids(*primitive) == Seq::<u64>::empty());
            },
        }
    }
}

impl ObjectLinker {
    /// Builds both maps from the indexed objects.
    ///
    /// Each object number of the index has a list in `to_objects`: the
    /// numbers that the object's value refers to, without repetition, each
    /// where the walk first meets it. Of two objects with one number the later
    /// one counts. `from_objects` is the inversion of `to_objects`: it lists,
    /// for each number that is indexed or referred to, the objects that refer
    /// to it, in the order of the index and without repetition. References to
    /// the object itself and to numbers that are not indexed are kept.
    pub fn connect(objects: &Vec<SingleObjectExtended>) -> (r: Self)
        ensures
            r.wf(),
            r.links(objects@),
    {
        let ghost ids = object_ids(objects@);
        let n: usize = objects.len();
        let mut to_hashmap: HashMap<ObjectID, Vec<ObjectID>> = HashMap::new();
        let mut i: usize = 0;
        while i < n
            invariant
                i <= n,
                n == objects@.len(),
                ids == object_ids(objects@),
                forall|a: u64| to_hashmap@.contains_key(a) <==> ids.take(i as int).contains(a),
                forall|j: int|
                    0 <= j < i && #[trigger] last_of_its_id(ids, j, i as int)
                        ==> to_hashmap@.contains_key(ids[j]) && to_hashmap@[ids[j]]@ == distinct(
                        referenced_ids(objects@[j].object_content),
                    ),
                forall|a: u64|
                    to_hashmap@.contains_key(a) ==> (#[trigger] to_hashmap@[a])@.no_duplicates(),
            decreases n - i,
        {
            let obj = &objects[i];
            let mut from: Vec<ObjectID> = Vec::new();
            Self::scan(&obj.object_content, &mut from);
            let ghost before = to_hashmap@;
            proof {
                lemma_push_new_all(Seq::empty(), referenced_ids(obj.object_content));
            }
            to_hashmap.insert(obj.id, from);
            proof {
                lemma_take_one_more(ids, i as int);
                assert forall|j: int|
                    0 <= j < i + 1 && #[trigger] last_of_its_id(
                        ids,
                        j,
                        i + 1,
                    ) implies to_hashmap@.contains_key(ids[j]) && to_hashmap@[ids[j]]@ == distinct(
                    referenced_ids(objects@[j].object_content),
                ) by {
                    if j < i {
                        assert(ids[i as int] != ids[j]);
                        assert(last_of_its_id(ids, j, i as int));
                    }
                }
            }
            i += 1;
        }
        assert(ids.take(n as int) =~= ids);

        let mut from_hashmap: HashMap<ObjectID, Vec<ObjectID>> = HashMap::new();
        i = 0;
        while i < n
            invariant
                i <= n,
                n == objects@.len(),
                ids == object_ids(objects@),
                forall|b: u64| from_hashmap@.contains_key(b) <==> ids.take(i as int).contains(b),
                forall|b: u64| (#[trigger] list_at(from_hashmap@, b)).len() == 0,
            decreases n - i,
        {
            let id: u64 = objects[i].id;
            let ghost before = from_hashmap@;
            from_hashmap.insert(id, Vec::new());
            proof {
                lemma_take_one_more(ids, i as int);
                assert forall|b: u64| (#[trigger] list_at(from_hashmap@, b)).len() == 0 by {
                    if b != id {
                        assert(list_at(from_hashmap@, b) == list_at(before, b));
                    }
                }
            }
            i += 1;
        }
        assert(ids.take(n as int) =~= ids);

        let ghost to = to_hashmap@;
        proof {
            assert(keyed(from_hashmap@, ids)) by {
                assert forall|b: u64|
                    #![trigger from_hashmap@.contains_key(b)]
                    from_hashmap@.contains_key(b) <==> ids.contains(b) || list_at(
                        from_hashmap@,
                        b,
                    ).len() > 0 by {
                    assert(list_at(from_hashmap@, b).len() == 0);
                }
            }
            assert forall|b: u64| #[trigger]
                list_at(from_hashmap@, b) == distinct(sources(ids.take(0), to, b)) by {
                assert(ids.take(0) =~= Seq::<u64>::empty());
                reveal(Seq::filter);
                assert(list_at(from_hashmap@, b).len() == 0);
                assert(list_at(from_hashmap@, b) =~= Seq::<u64>::empty());
            }
        }
        i = 0;
        while i < n
            invariant
                i <= n,
                n == objects@.len(),
                ids == object_ids(objects@),
                to == to_hashmap@,
                forall|a: u64| to.contains_key(a) <==> ids.contains(a),
                keyed(from_hashmap@, ids),
                forall|b: u64| #[trigger]
                    list_at(from_hashmap@, b) == distinct(sources(ids.take(i as int), to, b)),
            decreases n - i,
        {
            let a: u64 = objects[i].id;
            assert(ids[i as int] == a);
            assert(ids.contains(a));
            let ghost targets = list_at(to, a);
            let ghost start = from_hashmap@;
            match to_hashmap.get(&a) {
                Some(list) => {
                    assert(list@ == targets);
                    let mut j: usize = 0;
                    assert(targets.take(0) =~= Seq::<u64>::empty());
                    while j < list.len()
                        invariant
                            j <= list.len(),
                            list@ == targets,
                            keyed(from_hashmap@, ids),
                            forall|b: u64| #[trigger]
                                list_at(from_hashmap@, b) == (if targets.take(j as int).contains(b) {
                                    push_new(list_at(start, b), a)
                                } else {
                                    list_at(start, b)
                                }),
                        decreases list.len() - j,
                    {
                        let b: u64 = list[j];
                        let ghost before = from_hashmap@;
                        let ghost shorter = targets.take(j as int);
                        let ghost longer = targets.take(j + 1);
                        let mut parents: Vec<ObjectID> = match from_hashmap.remove(&b) {
                            Some(v) => v,
                            None => Vec::new(),
                        };
                        assert(parents@ == list_at(before, b));
                        if !contains_id(&parents, a) {
                            parents.push(a);
                        }
                        assert(parents@ == push_new(list_at(before, b), a));
                        from_hashmap.insert(b, parents);
                        proof {
                            assert(longer =~= shorter.push(b));
                            assert(longer[j as int] == b);
                            assert forall|c: u64| #[trigger]
                                list_at(from_hashmap@, c) == (if longer.contains(c) {
                                    push_new(list_at(start, c), a)
                                } else {
                                    list_at(start, c)
                                }) by {
                                if c == b {
                                    if shorter.contains(b) {
                                        assert(push_new(list_at(start, b), a).contains(a)) by {
                                            let l = list_at(start, b);
                                            if !l.contains(a) {
                                                assert(l.push(a)[l.len() as int] == a);
                                            }
                                        }
                                    }
                                } else {
                                    assert(list_at(from_hashmap@, c) == list_at(before, c));
                                    if shorter.contains(c) {
                                        let w = choose|w: int|
                                            0 <= w < shorter.len() && shorter[w] == c;
                                        assert(longer[w] == c);
                                    }
                                    if longer.contains(c) {
                                        let w = choose|w: int| 0 <= w < longer.len() && longer[w] == c;
                                        assert(shorter[w] == c);
                                    }
                                }
                            }
                            assert forall|c: u64|
                                #![trigger from_hashmap@.contains_key(c)]
                                from_hashmap@.contains_key(c) <==> ids.contains(c) || list_at(
                                    from_hashmap@,
                                    c,
                                ).len() > 0 by {
                                if c == b {
                                    let l = list_at(before, b);
                                    assert(push_new(l, a).len() > 0) by {
                                        if l.contains(a) {
                                        }
                                    }
                                } else {
                                    assert(list_at(from_hashmap@, c) == list_at(before, c));
                                    assert(from_hashmap@.contains_key(c) == before.contains_key(c));
                                }
                            }
                        }
                        j += 1;
                    }
                    assert(targets.take(j as int) =~= targets);
                },
                None => {
                    assert(false);
                },
            }
            proof {
                let shorter = ids.take(i as int);
                let longer = ids.take(i + 1);
                assert(longer.drop_last() =~= shorter);
                assert(longer.last() == a);
                assert forall|b: u64| #[trigger]
                    list_at(from_hashmap@, b) == distinct(sources(longer, to, b)) by {
                    reveal(Seq::filter);
                    let pred = |x: u64| list_at(to, x).contains(b);
                    assert(sources(longer, to, b) == longer.filter(pred));
                    assert(sources(shorter, to, b) == shorter.filter(pred));
                    assert(list_at(start, b) == distinct(sources(shorter, to, b)));
                    if targets.contains(b) {
                        assert(pred(a));
                        assert(longer.filter(pred) == shorter.filter(pred).push(a));
                        assert(shorter.filter(pred).push(a).drop_last() =~= shorter.filter(pred));
                    } else {
                        assert(!pred(a));
                        assert(longer.filter(pred) == shorter.filter(pred));
                    }
                }
            }
            i += 1;
        }
        assert(ids.take(n as int) =~= ids);
        let r = Self { to_objects: to_hashmap, from_objects: from_hashmap };
        proof {
            assert forall|a: u64, b: u64|
                r.forward(a).contains(b) <==> r.backward(b).contains(a) by {
                lemma_sources(ids, to, b, a);
                lemma_push_new_all(Seq::empty(), sources(ids, to, b));
                assert(r.backward(b) == distinct(sources(ids, to, b)));
                if r.forward(a).contains(b) {
                    assert(to.contains_key(a));
                }
            }
            assert forall|b: u64| (#[trigger] r.backward(b)).no_duplicates() by {
                lemma_push_new_all(Seq::empty(), sources(ids, to, b));
                assert(r.backward(b) == distinct(sources(ids, to, b)));
            }
            assert forall|a: u64| (#[trigger] r.forward(a)).no_duplicates() by {
                if to.contains_key(a) {
                    assert(to[a]@.no_duplicates());
                }
            }
            assert forall|i: int|
                0 <= i < objects@.len() && #[trigger] last_of_its_id(
                    ids,
                    i,
                    objects@.len() as int,
                ) implies r.forward(objects@[i].id) == distinct(
                referenced_ids(objects@[i].object_content),
            ) by {
                assert(ids[i] == objects@[i].id);
            }
        }
        r
    }
}

/// In the maps of a document, `a` refers to `b` exactly if `b` is referred to
/// by `a`.
pub proof fn lemma_forward_backward(linker: ObjectLinker, a: u64, b: u64)
    requires
        linker.wf(),
    ensures
        linker.forward(a).contains(b) <==> linker.backward(b).contains(a),
{
}

} // verus!
