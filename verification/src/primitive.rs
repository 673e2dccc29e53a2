//! The object model of a parsed document: primitive values, dictionaries,
//! streams, references, and the items that an enumeration of a document
//! yields.
use vstd::prelude::*;

verus! {

/// The number and generation of an indirect object.
#[derive(Clone, Copy, Debug, PartialEq, Eq, Structural)]
pub struct PlainRef {
    /// The number of the object.
    pub id: u64,
    /// The generation of the object.
    pub gen: u64,
}

/// A dictionary: its entries in the order in which they are walked.
#[derive(Debug)]
pub struct Dictionary {
    /// The keys, without the leading slash, and their values.
    pub entries: Vec<(String, Primitive)>,
}

/// A stream: its dictionary and its payload as stored, filters still applied.
#[derive(Debug)]
pub struct PdfStream {
    /// The dictionary of the stream.
    pub info: Dictionary,
    /// The payload as stored.
    pub data: Vec<u8>,
}

/// A primitive value. Containment (dictionary values, array elements, a
/// stream's dictionary) forms a finite tree; a reference is a leaf that names
/// another object by number and is never followed here.
#[derive(Debug)]
pub enum Primitive {
    Null,
    Integer(i32),
    /// A real number, held as the bit pattern of its single-precision value.
    Number(u32),
    Boolean(bool),
    String(Vec<u8>),
    Stream(PdfStream),
    Dictionary(Dictionary),
    Array(Vec<Primitive>),
    Reference(PlainRef),
    Name(String),
}

/// One item of a document's enumeration.
#[derive(Debug)]
pub enum ScanItem {
    /// An indirect object and its value.
    Object(PlainRef, Primitive),
    /// A trailer dictionary; it is not an object of the document.
    Trailer(Dictionary),
}

/// The position of the first entry with the given key, or the number of
/// entries when there is none.
pub open spec fn first_with_key(entries: Seq<(String, Primitive)>, key: Seq<char>) -> int
    decreases entries.len(),
{
    if entries.len() == 0 {
        0
    } else if entries[0].0@ == key {
        0
    } else {
        1 + first_with_key(entries.drop_first(), key)
    }
}

/// The position of the first entry with a key lies within the entries or at
/// their end; the key stands there, and nowhere before.
pub proof fn lemma_first_with_key(entries: Seq<(String, Primitive)>, key: Seq<char>)
    ensures
        0 <= first_with_key(entries, key) <= entries.len(),
        first_with_key(entries, key) < entries.len() ==> entries[first_with_key(
            entries,
            key,
        )].0@ == key,
        forall|i: int|
            0 <= i < first_with_key(entries, key) ==> (#[trigger] entries[i]).0@ != key,
    decreases entries.len(),
{
    if entries.len() > 0 && entries[0].0@ != key {
        let rest = entries.drop_first();
        lemma_first_with_key(rest, key);
        assert forall|i: int| 0 <= i < first_with_key(entries, key) implies (
        #[trigger] entries[i]).0@ != key by {
            if i > 0 {
                assert(rest[i - 1] == entries[i]);
            }
        }
    }
}

impl Dictionary {
    /// The value stored under `key`, if any: that of the first such entry.
    pub open spec fn lookup(self, key: Seq<char>) -> Option<Primitive> {
        let at = first_with_key(self.entries@, key);
        if at < self.entries@.len() {
            Some(self.entries@[at].1)
        } else {
            None
        }
    }

    /// The value stored under `key`, if any.
    pub fn get(&self, key: &str) -> (r: Option<&Primitive>)
        ensures
            r matches Some(p) ==> self.lookup(key@) == Some(*p),
            r is None ==> self.lookup(key@) is None,
    {
        let wanted = String::from_str(key);
        let mut i: usize = 0;
        proof {
            lemma_first_with_key(self.entries@, key@);
        }
        while i < self.entries.len()
            invariant
                i <= self.entries.len(),
                wanted@ == key@,
                forall|j: int| 0 <= j < i ==> (#[trigger] self.entries@[j]).0@ != key@,
                0 <= first_with_key(self.entries@, key@) <= self.entries@.len(),
                first_with_key(self.entries@, key@) < self.entries@.len()
                    ==> self.entries@[first_with_key(self.entries@, key@)].0@ == key@,
                forall|j: int|
                    0 <= j < first_with_key(self.entries@, key@) ==> (
                    #[trigger] self.entries@[j]).0@ != key@,
            decreases self.entries.len() - i,
        {
            if self.entries[i].0 == wanted {
                assert(first_with_key(self.entries@, key@) == i) by {
                    let f = first_with_key(self.entries@, key@);
                    if f < i {
                        assert(self.entries@[f].0@ != key@);
                    }
                    if f > i {
                        assert(self.entries@[i as int].0@ != key@);
                    }
                }
                return Some(&self.entries[i].1);
            }
            i += 1;
        }
        assert(first_with_key(self.entries@, key@) == self.entries@.len()) by {
            let f = first_with_key(self.entries@, key@);
            if f < self.entries@.len() {
                assert(self.entries@[f].0@ != key@);
            }
        }
        None
    }
}

impl Primitive {
    /// The name of the value's kind.
    pub open spec fn debug_name(self) -> Seq<char> {
        match self {
            Primitive::Null => "Null"@,
            Primitive::Integer(_) => "Integer"@,
            Primitive::Number(_) => "Number"@,
            Primitive::Boolean(_) => "Boolean"@,
            Primitive::String(_) => "String"@,
            Primitive::Stream(_) => "Stream"@,
            Primitive::Dictionary(_) => "Dictionary"@,
            Primitive::Array(_) => "Array"@,
            Primitive::Reference(_) => "Reference"@,
            Primitive::Name(_) => "Name"@,
        }
    }

    /// The name of the value's kind, as shown in labels.
    pub fn get_debug_name(&self) -> (r: &'static str)
        ensures
            r@ == self.debug_name(),
    {
        match self {
            Primitive::Null => "Null",
            Primitive::Integer(_) => "Integer",
            Primitive::Number(_) => "Number",
            Primitive::Boolean(_) => "Boolean",
            Primitive::String(_) => "String",
            Primitive::Stream(_) => "Stream",
            Primitive::Dictionary(_) => "Dictionary",
            Primitive::Array(_) => "Array",
            Primitive::Reference(_) => "Reference",
            Primitive::Name(_) => "Name",
        }
    }
}

} // verus!
