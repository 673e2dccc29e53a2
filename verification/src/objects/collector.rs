//! The index of a document's objects: one entry for each object that the
//! enumeration yields, ascending by object number.
use crate::primitive::{PlainRef, Primitive, ScanItem};
use crate::text::{decimal, decimal_digits};
use std::collections::HashMap;
use vstd::prelude::*;
use vstd::string::StringExecFns;

verus! {

broadcast use vstd::std_specs::hash::group_hash_axioms;

/// The number of an object.
pub type ObjectID = u64;

/// The short record of an object: what a list of objects shows.
#[derive(Clone, Debug)]
pub struct SingleObject {
    /// The name of the kind of the object's value.
    pub name: String,
    /// The number of the object.
    pub id: u64,
}

/// What the payload of a stream was found to be. The first field of each
/// variant is the payload that was classified.
#[derive(Clone, Debug)]
pub enum FileContent {
    /// Nothing is known of the payload.
    Unknown(Vec<u8>),
    /// The payload starts with the operator `q`, which saves the graphics
    /// state: it is taken for page content.
    GraphicState(Vec<u8>),
    /// The payload is printable ASCII; the second field is its text.
    TextASCII(Vec<u8>, String),
}

/// The mathematical content of a `FileContent`.
pub enum ContentView {
    Unknown(Seq<u8>),
    GraphicState(Seq<u8>),
    TextASCII(Seq<u8>, Seq<char>),
}

impl View for FileContent {
    type V = ContentView;

    open spec fn view(&self) -> ContentView {
        match self {
            FileContent::Unknown(b) => ContentView::Unknown(b@),
            FileContent::GraphicState(b) => ContentView::GraphicState(b@),
            FileContent::TextASCII(b, t) => ContentView::TextASCII(b@, t@),
        }
    }
}

/// The full record of an object.
#[derive(Debug)]
pub struct SingleObjectExtended {
    /// The number of the object.
    pub id: ObjectID,
    /// The label of the object: its number and the name of its kind.
    pub name: String,
    /// The number and generation of the object.
    pub plain_ref: PlainRef,
    /// The value of the object.
    pub object_content: Primitive,
    /// The payload of a stream as stored; `None` until the payload has been
    /// recorded, and for every object that is not a stream.
    pub raw_buffer: Option<Vec<u8>>,
    /// The classification of a stream's payload; `None` until it has been
    /// classified, and for every object that is not a stream.
    pub file_content: Option<FileContent>,
    /// Object numbers recorded for the object; none are recorded here.
    pub references: Vec<u64>,
}

/// The objects among the items of an enumeration, in its order. Trailers are
/// left out.
pub open spec fn scanned_objects(items: Seq<ScanItem>) -> Seq<(PlainRef, Primitive)>
    decreases items.len(),
{
    if items.len() == 0 {
        Seq::empty()
    } else {
        match items.last() {
            ScanItem::Object(r, p) => scanned_objects(items.drop_last()).push((r, p)),
            ScanItem::Trailer(_) => scanned_objects(items.drop_last()),
        }
    }
}

/// The object numbers of a sequence of objects.
pub open spec fn ids_of(entries: Seq<(PlainRef, Primitive)>) -> Seq<u64> {
    entries.map_values(|e: (PlainRef, Primitive)| e.0.id)
}

/// The numbers ascend, equal numbers allowed.
pub open spec fn ascending(ids: Seq<u64>) -> bool {
    forall|i: int, j: int| 0 <= i < j < ids.len() ==> ids[i] <= ids[j]
}

/// Where an object of number `id` joins a sequence: behind the last object
/// whose number is not greater.
pub open spec fn slot(entries: Seq<(PlainRef, Primitive)>, id: u64) -> int
    decreases entries.len(),
{
    if entries.len() == 0 || entries.last().0.id <= id {
        entries.len() as int
    } else {
        slot(entries.drop_last(), id)
    }
}

/// The objects ascending by number. Objects of one number keep the order in
/// which they came.
pub open spec fn sorted_by_id(entries: Seq<(PlainRef, Primitive)>) -> Seq<(PlainRef, Primitive)>
    decreases entries.len(),
{
    if entries.len() == 0 {
        Seq::empty()
    } else {
        let sorted = sorted_by_id(entries.drop_last());
        sorted.insert(slot(sorted, entries.last().0.id), entries.last())
    }
}

/// A number is among the first `i + 1` numbers of a list exactly if it is
/// among the first `i` or is the number at position `i`.
pub proof fn lemma_take_one_more(ids: Seq<u64>, i: int)
    requires
        0 <= i < ids.len(),
    ensures
        forall|x: u64| ids.take(i + 1).contains(x) <==> ids.take(i).contains(x) || x == ids[i],
{
    let shorter = ids.take(i);
    let longer = ids.take(i + 1);
    assert forall|x: u64| longer.contains(x) <==> shorter.contains(x) || x == ids[i] by {
        if x == ids[i] {
            assert(longer[i] == x);
        }
        if shorter.contains(x) {
            let w = choose|w: int| 0 <= w < shorter.len() && shorter[w] == x;
            assert(longer[w] == x);
        }
        if longer.contains(x) && x != ids[i] {
            let w = choose|w: int| 0 <= w < longer.len() && longer[w] == x;
            assert(shorter[w] == x);
        }
    }
}

/// The label of an object: its number, a dash, and the name of its kind.
pub open spec fn object_label(id: u64, content: Primitive) -> Seq<char> {
    decimal_digits(id as nat) + " – "@ + content.debug_name()
}

/// The slot lies within the sequence or at its end; every object from the
/// slot on has a greater number, and the object before the slot has not.
pub proof fn lemma_slot(entries: Seq<(PlainRef, Primitive)>, id: u64)
    ensures
        0 <= slot(entries, id) <= entries.len(),
        forall|j: int| slot(entries, id) <= j < entries.len() ==> (#[trigger] entries[j]).0.id > id,
        slot(entries, id) > 0 ==> entries[slot(entries, id) - 1].0.id <= id,
    decreases entries.len(),
{
    if entries.len() > 0 && entries.last().0.id > id {
        lemma_slot(entries.drop_last(), id);
        assert forall|j: int| slot(entries, id) <= j < entries.len() implies (
        #[trigger] entries[j]).0.id > id by {
            if j < entries.len() - 1 {
                assert(entries.drop_last()[j] == entries[j]);
            }
        }
    }
}

/// Sorting keeps the number of objects and the objects themselves, and puts
/// their numbers in ascending order.
pub proof fn lemma_sorted_by_id(entries: Seq<(PlainRef, Primitive)>)
    ensures
        sorted_by_id(entries).len() == entries.len(),
        sorted_by_id(entries).to_multiset() == entries.to_multiset(),
        ascending(ids_of(sorted_by_id(entries))),
    decreases entries.len(),
{
    if entries.len() == 0 {
        assert(entries =~= Seq::empty());
    } else {
        let rest = entries.drop_last();
        let x = entries.last();
        let sorted = sorted_by_id(rest);
        lemma_sorted_by_id(rest);
        lemma_slot(sorted, x.0.id);
        let at = slot(sorted, x.0.id);
        let out = sorted.insert(at, x);
        assert(out.to_multiset() == sorted.to_multiset().insert(x)) by {
            vstd::seq_lib::to_multiset_insert(sorted, at, x);
        }
        assert(entries =~= rest.push(x));
        assert(entries.to_multiset() == rest.to_multiset().insert(x)) by {
            vstd::seq_lib::to_multiset_build(rest, x);
        }
        assert forall|i: int, j: int| 0 <= i < j < out.len() implies ids_of(out)[i] <= ids_of(
            out,
        )[j] by {
            let a = if i < at {
                i
            } else {
                i - 1
            };
            let b = if j < at {
                j
            } else {
                j - 1
            };
            if i != at && j != at {
                assert(out[i] == sorted[a] && out[j] == sorted[b]);
                assert(ids_of(sorted)[a] <= ids_of(sorted)[b]);
            } else if i == at {
                assert(out[j] == sorted[b]);
            } else {
                assert(out[i] == sorted[a]);
                if at > 0 {
                    assert(ids_of(sorted)[a] <= ids_of(sorted)[at - 1]);
                }
            }
        }
    }
}

impl SingleObject {
    /// The short record of the object of the given number.
    pub fn new(name: String, id: u64) -> (r: Self)
        ensures
            r.name == name,
            r.id == id,
    {
        Self { name, id }
    }
}

impl SingleObjectExtended {
    /// The record of an object whose payload has not been looked at.
    pub fn new(id: u64, name: String, plain_ref: PlainRef, object_content: Primitive) -> (r: Self)
        ensures
            r.id == id,
            r.name == name,
            r.plain_ref == plain_ref,
            r.object_content == object_content,
            r.raw_buffer is None,
            r.file_content is None,
            r.references@.len() == 0,
    {
        Self {
            id,
            name,
            plain_ref,
            object_content,
            raw_buffer: None,
            file_content: None,
            references: Vec::new(),
        }
    }

    /// Records a copy of the payload as stored.
    pub fn insert_raw_buffer(&mut self, buffer: &[u8])
        ensures
            final(self).raw_buffer matches Some(b) && b@ == buffer@,
            *final(self) == (SingleObjectExtended {
                raw_buffer: final(self).raw_buffer,
                ..*old(self)
            }),
    {
        self.raw_buffer = Some(vstd::slice::slice_to_vec(buffer));
    }

    /// Records the classification of the payload.
    pub fn insert_file_content(&mut self, file_content: FileContent)
        ensures
            *final(self) == (SingleObjectExtended {
                file_content: Some(file_content),
                ..*old(self)
            }),
    {
        self.file_content = Some(file_content);
    }
}

/// The two lists describe the given objects, position by position, with no
/// payload looked at yet.
pub open spec fn catalogued(
    objects: Seq<SingleObject>,
    extended: Seq<SingleObjectExtended>,
    entries: Seq<(PlainRef, Primitive)>,
) -> bool {
    &&& objects.len() == entries.len()
    &&& extended.len() == entries.len()
    &&& forall|i: int|
        0 <= i < entries.len() ==> {
            &&& (#[trigger] objects[i]).id == entries[i].0.id
            &&& objects[i].name@ == entries[i].1.debug_name()
        }
    &&& forall|i: int|
        0 <= i < entries.len() ==> {
            &&& (#[trigger] extended[i]).id == entries[i].0.id
            &&& extended[i].plain_ref == entries[i].0
            &&& extended[i].object_content == entries[i].1
            &&& extended[i].name@ == object_label(entries[i].0.id, entries[i].1)
            &&& extended[i].raw_buffer is None
            &&& extended[i].file_content is None
            &&& extended[i].references@.len() == 0
        }
}

/// The index of a document's objects.
#[derive(Debug)]
pub struct ObjectsList {
    /// The short record of each object, ascending by number.
    pub objects: Vec<SingleObject>,
    /// The full record of each object, in the same order.
    pub objects_extended: Vec<SingleObjectExtended>,
    /// From the number of an object to its position in both lists.
    pub map: HashMap<ObjectID, u64>,
}

impl ObjectsList {
    /// The numbers of the indexed objects, by position.
    pub open spec fn ids(self) -> Seq<u64> {
        self.objects_extended@.map_values(|o: SingleObjectExtended| o.id)
    }

    /// The two lists describe the given objects, position by position, with
    /// no payload looked at yet.
    pub open spec fn catalogues(self, entries: Seq<(PlainRef, Primitive)>) -> bool {
        catalogued(self.objects@, self.objects_extended@, entries)
    }

    /// The invariant of an index: both lists have one entry for each object,
    /// with the same number at the same position, ascending; the map knows
    /// exactly the numbers that occur, and leads from a number to the last
    /// position that holds it.
    pub open spec fn wf(self) -> bool {
        &&& self.objects@.len() == self.objects_extended@.len()
        &&& forall|i: int|
            0 <= i < self.objects@.len() ==> (#[trigger] self.objects@[i]).id == self.ids()[i]
        &&& ascending(self.ids())
        &&& forall|id: u64| #[trigger] self.map@.contains_key(id) <==> self.ids().contains(id)
        &&& forall|id: u64| #[trigger]
            self.map@.contains_key(id) ==> {
                &&& 0 <= self.map@[id] < self.ids().len()
                &&& self.ids()[self.map@[id] as int] == id
                &&& forall|j: int| self.map@[id] < j < self.ids().len() ==> self.ids()[j] != id
            }
    }

    /// Indexes the objects of an enumeration. Trailers are passed over. The
    /// entries ascend by object number, whatever the order of the
    /// enumeration; an empty enumeration gives an empty index.
    pub fn new(objects: Vec<ScanItem>) -> (r: Self)
        ensures
            r.wf(),
            r.catalogues(sorted_by_id(scanned_objects(objects@))),
    {
        let ghost all = objects@;
        let mut result: Vec<SingleObject> = Vec::new();
        let mut objects_extended: Vec<SingleObjectExtended> = Vec::new();
        assert(all.take(0) =~= Seq::<ScanItem>::empty());
        for o in it: objects
            invariant
                it.seq() == all,
                catalogued(
                    result@,
                    objects_extended@,
                    sorted_by_id(scanned_objects(all.take(it.index() as int))),
                ),
        {
            proof {
                let next = all.take(it.index() + 1);
                assert(next.drop_last() =~= all.take(it.index() as int));
                assert(next.last() == o);
            }
            match o {
                ScanItem::Trailer(_) => {},
                ScanItem::Object(plain_ref, object_content) => {
                    let ghost sorted = sorted_by_id(scanned_objects(all.take(it.index() as int)));
                    let id: u64 = plain_ref.id;
                    let kind: &'static str = object_content.get_debug_name();
                    let a = SingleObject::new(String::from_str(kind), id);
                    let mut complete_name = decimal(id);
                    complete_name.append(" – ");
                    complete_name.append(kind);
                    let n = SingleObjectExtended::new(id, complete_name, plain_ref, object_content);
                    let mut at: usize = objects_extended.len();
                    assert(sorted.take(sorted.len() as int) =~= sorted);
                    while at > 0 && objects_extended[at - 1].id > id
                        invariant
                            at <= objects_extended@.len(),
                            objects_extended@.len() == sorted.len(),
                            forall|i: int|
                                0 <= i < sorted.len() ==> (#[trigger] objects_extended@[i]).id
                                    == sorted[i].0.id,
                            slot(sorted, id) == slot(sorted.take(at as int), id),
                        decreases at,
                    {
                        assert(sorted.take(at as int).drop_last() =~= sorted.take(at - 1));
                        at -= 1;
                    }
                    proof {
                        assert(slot(sorted, id) == at) by {
                            if at > 0 {
                                assert(sorted.take(at as int).last() == sorted[at - 1]);
                            }
                        }
                    }
                    let ghost short_before = result@;
                    let ghost full_before = objects_extended@;
                    let ghost entry = (plain_ref, n.object_content);
                    result.insert(at, a);
                    objects_extended.insert(at, n);
                    proof {
                        let next = all.take(it.index() + 1);
                        let grown = sorted.insert(at as int, entry);
                        let earlier = scanned_objects(all.take(it.index() as int));
                        assert(next.last() == ScanItem::Object(entry.0, entry.1));
                        assert(scanned_objects(next) == earlier.push(entry));
                        assert(earlier.push(entry).drop_last() =~= earlier);
                        assert(sorted_by_id(scanned_objects(next)) == grown);
                        assert forall|i: int| 0 <= i < grown.len() implies {
                            &&& (#[trigger] result@[i]).id == grown[i].0.id
                            &&& result@[i].name@ == grown[i].1.debug_name()
                        } by {
                            if i < at {
                                assert(result@[i] == short_before[i]);
                            } else if i > at {
                                assert(result@[i] == short_before[i - 1]);
                            }
                        }
                        assert forall|i: int| 0 <= i < grown.len() implies {
                            &&& (#[trigger] objects_extended@[i]).id == grown[i].0.id
                            &&& objects_extended@[i].plain_ref == grown[i].0
                            &&& objects_extended@[i].object_content == grown[i].1
                            &&& objects_extended@[i].name@ == object_label(
                                grown[i].0.id,
                                grown[i].1,
                            )
                            &&& objects_extended@[i].raw_buffer is None
                            &&& objects_extended@[i].file_content is None
                            &&& objects_extended@[i].references@.len() == 0
                        } by {
                            if i < at {
                                assert(objects_extended@[i] == full_before[i]);
                            } else if i > at {
                                assert(objects_extended@[i] == full_before[i - 1]);
                            }
                        }
                    }
                },
            }
        }
        assert(all.take(all.len() as int) =~= all);
        let ghost entries = sorted_by_id(scanned_objects(all));
        proof {
            lemma_sorted_by_id(scanned_objects(all));
        }
        let mut map: HashMap<ObjectID, u64> = HashMap::new();
        let ghost ids = objects_extended@.map_values(|o: SingleObjectExtended| o.id);
        assert(ids =~= ids_of(entries));
        let n: usize = objects_extended.len();
        let mut i: usize = 0;
        while i < n
            invariant
                i <= n,
                n == objects_extended@.len(),
                ids == objects_extended@.map_values(|o: SingleObjectExtended| o.id),
                forall|id: u64| #[trigger] map@.contains_key(id) <==> ids.take(i as int).contains(id),
                forall|id: u64| #[trigger]
                    map@.contains_key(id) ==> {
                        &&& 0 <= map@[id] < i
                        &&& ids[map@[id] as int] == id
                        &&& forall|j: int| map@[id] < j < i ==> ids[j] != id
                    },
            decreases n - i,
        {
            let id: u64 = objects_extended[i].id;
            let ghost before = map@;
            map.insert(id, i as u64);
            proof {
                lemma_take_one_more(ids, i as int);
                assert forall|k: u64| #[trigger] map@.contains_key(k) <==> ids.take(
                    i + 1,
                ).contains(k) by {
                    if k != id {
                        assert(map@.contains_key(k) == before.contains_key(k));
                    }
                }
            }
            i += 1;
        }
        assert(ids.take(n as int) =~= ids);
        Self { objects: result, objects_extended, map }
    }
}

/// Without trailers in the way and with no object number yielded twice, the
/// index has one entry for each object number of the enumeration.
pub proof fn lemma_index_length(index: ObjectsList, items: Seq<ScanItem>)
    requires
        index.catalogues(sorted_by_id(scanned_objects(items))),
    ensures
        index.objects_extended@.len() == scanned_objects(items).len(),
        ids_of(scanned_objects(items)).no_duplicates() ==> index.objects_extended@.len() == ids_of(
            scanned_objects(items),
        ).to_set().len(),
{
    lemma_sorted_by_id(scanned_objects(items));
    if ids_of(scanned_objects(items)).no_duplicates() {
        ids_of(scanned_objects(items)).unique_seq_to_set();
    }
}

/// In an index in which no object number occurs twice, the map is a
/// one-to-one correspondence between the numbers that occur and the
/// positions of the index.
pub proof fn lemma_positions_bijective(index: ObjectsList)
    requires
        index.wf(),
        index.ids().no_duplicates(),
    ensures
        forall|id: u64| #[trigger]
            index.map@.contains_key(id) ==> 0 <= index.map@[id] < index.ids().len()
                && index.ids()[index.map@[id] as int] == id,
        forall|i: int|
            0 <= i < index.ids().len() ==> index.map@.contains_key(#[trigger] index.ids()[i])
                && index.map@[index.ids()[i]] == i,
        forall|a: u64, b: u64|
            index.map@.contains_key(a) && index.map@.contains_key(b) && a != b ==> index.map@[a]
                != index.map@[b],
{
    assert forall|i: int| 0 <= i < index.ids().len() implies index.map@.contains_key(
        #[trigger] index.ids()[i],
    ) && index.map@[index.ids()[i]] == i by {
        let id = index.ids()[i];
        assert(index.ids().contains(id));
        assert(index.map@.contains_key(id));
    }
}

/// Those of the objects that have the given number, in their order.
pub open spec fn with_id(entries: Seq<(PlainRef, Primitive)>, id: u64) -> Seq<(PlainRef, Primitive)> {
    entries.filter(|e: (PlainRef, Primitive)| e.0.id == id)
}

/// Sorting is stable: the objects of one number stand in the sorted sequence
/// in the order in which they came.
pub proof fn lemma_sorted_by_id_is_stable(entries: Seq<(PlainRef, Primitive)>, id: u64)
    ensures
        with_id(sorted_by_id(entries), id) == with_id(entries, id),
    decreases entries.len(),
{
    let pred = |e: (PlainRef, Primitive)| e.0.id == id;
    if entries.len() == 0 {
    } else {
        let rest = entries.drop_last();
        let x = entries.last();
        let sorted = sorted_by_id(rest);
        lemma_sorted_by_id_is_stable(rest, id);
        lemma_slot(sorted, x.0.id);
        let at = slot(sorted, x.0.id);
        let front = sorted.take(at);
        let back = sorted.skip(at);
        assert(sorted =~= front + back);
        assert(sorted.insert(at, x) =~= front + seq![x] + back);
        Seq::filter_distributes_over_add(front, back, pred);
        Seq::filter_distributes_over_add(front + seq![x], back, pred);
        Seq::filter_distributes_over_add(front, seq![x], pred);
        assert(seq![x].filter(pred) =~= (if pred(x) {
            seq![x]
        } else {
            Seq::empty()
        })) by {
            reveal_with_fuel(Seq::filter, 2);
            assert(seq![x].drop_last() =~= Seq::<(PlainRef, Primitive)>::empty());
        }
        assert(entries.filter(pred) == (if pred(x) {
            rest.filter(pred).push(x)
        } else {
            rest.filter(pred)
        })) by {
            reveal(Seq::filter);
        }
        if pred(x) {
            assert(back.filter(pred).len() == 0) by {
                if back.filter(pred).len() > 0 {
                    let e = back.filter(pred)[0];
                    back.lemma_filter_pred(pred, 0);
                    assert(back.filter(pred).contains(e));
                    back.lemma_filter_contains_rev(pred, e);
                    let w = choose|w: int| 0 <= w < back.len() && back[w] == e;
                    assert(sorted[at + w] == e);
                }
            }
            assert(front.filter(pred) + back.filter(pred) =~= front.filter(pred));
            assert(with_id(sorted_by_id(entries), id) =~= with_id(entries, id));
        } else {
            assert(with_id(sorted_by_id(entries), id) =~= with_id(entries, id));
        }
    }
}

} // verus!
