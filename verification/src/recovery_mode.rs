//! A scan of the raw bytes of a file that needs no parsed structure: the
//! printable strings that the bytes hold, and how many of them mention each
//! keyword of a fixed catalogue.
use crate::input_file::InputFile;
use crate::text::{
    all_ascii, all_printable, ascii_chars, ascii_to_string, contains_bytes, is_printable,
    is_substring, lemma_substring_of_ascii, occurs_at,
};
use vstd::prelude::*;
use vstd::string::StringExecFns;

verus! {

/// The printable bytes that end the buffer: its longest suffix without a
/// byte that is not printable ASCII.
pub open spec fn trailing_run(buf: Seq<u8>) -> Seq<u8>
    decreases buf.len(),
{
    if buf.len() == 0 || !is_printable(buf.last()) {
        Seq::empty()
    } else {
        trailing_run(buf.drop_last()).push(buf.last())
    }
}

/// The runs of printable bytes that a byte of the buffer has ended, in order.
pub open spec fn closed_runs(buf: Seq<u8>) -> Seq<Seq<u8>>
    decreases buf.len(),
{
    if buf.len() == 0 {
        Seq::empty()
    } else if is_printable(buf.last()) || trailing_run(buf.drop_last()).len() == 0 {
        closed_runs(buf.drop_last())
    } else {
        closed_runs(buf.drop_last()).push(trailing_run(buf.drop_last()))
    }
}

/// The maximal runs of printable bytes of the buffer, in order.
pub open spec fn extracted_runs(buf: Seq<u8>) -> Seq<Seq<u8>> {
    if trailing_run(buf).len() == 0 {
        closed_runs(buf)
    } else {
        closed_runs(buf).push(trailing_run(buf))
    }
}

/// The strings that the buffer holds: its maximal runs of printable bytes, as
/// text.
pub open spec fn extracted_strings(buf: Seq<u8>) -> Seq<Seq<char>> {
    extracted_runs(buf).map_values(|run: Seq<u8>| ascii_chars(run))
}

/// How many of the strings contain the keyword. A string counts once, however
/// often the keyword occurs in it.
pub open spec fn frequency(strings: Seq<Seq<char>>, keyword: Seq<char>) -> nat {
    strings.filter(|s: Seq<char>| is_substring(s, keyword)).len()
}

/// The keywords that are counted, in the order of the report.
pub open spec fn keyword_catalogue() -> Seq<Seq<char>> {
    seq![
        "obj"@,
        "endobj"@,
        "stream"@,
        "endstream"@,
        "xref"@,
        "trailer"@,
        "startxref"@,
        "/Page"@,
        "/Encrypt"@,
        "/ObjStm"@,
        "/JS"@,
        "/JavaScript"@,
        "/AA"@,
        "/OpenAction"@,
        "/AcroForm"@,
        "/JBIG2Decode"@,
        "/RichMedia"@,
        "/Launch"@,
        "/EmbeddedFile"@,
        "/XFA"@,
    ]
}

/// The byte sequences that a vector of byte vectors holds.
pub open spec fn runs_of(v: Seq<Vec<u8>>) -> Seq<Seq<u8>> {
    v.map_values(|run: Vec<u8>| run@)
}

/// Every run is non-empty and printable.
pub open spec fn printable_runs(runs: Seq<Seq<u8>>) -> bool {
    forall|i: int|
        0 <= i < runs.len() ==> (#[trigger] runs[i]).len() > 0 && all_printable(runs[i])
}

/// A keyword of the catalogue and the number of extracted strings that
/// contain it.
#[derive(Debug)]
pub struct KeywordFrequency {
    /// The keyword.
    pub keyword: String,
    /// The number of extracted strings that contain the keyword.
    pub count: usize,
}

/// The result of the byte-level scan of one file.
#[derive(Debug)]
pub struct RecoveryMode {
    /// The file that was scanned.
    pub input_file: InputFile,
    /// One entry for each keyword of the catalogue, in its order.
    pub frequencies: Vec<KeywordFrequency>,
}

/// The keywords that are counted, in the order of the report.
pub fn keywords() -> (r: Vec<&'static str>)
    ensures
        r@.len() == keyword_catalogue().len(),
        forall|i: int| 0 <= i < r@.len() ==> (#[trigger] r@[i])@ == keyword_catalogue()[i],
{
    let mut r: Vec<&'static str> = Vec::new();
    r.push("obj");
    r.push("endobj");
    r.push("stream");
    r.push("endstream");
    r.push("xref");
    r.push("trailer");
    r.push("startxref");
    r.push("/Page");
    r.push("/Encrypt");
    r.push("/ObjStm");
    r.push("/JS");
    r.push("/JavaScript");
    r.push("/AA");
    r.push("/OpenAction");
    r.push("/AcroForm");
    r.push("/JBIG2Decode");
    r.push("/RichMedia");
    r.push("/Launch");
    r.push("/EmbeddedFile");
    r.push("/XFA");
    r
}

/// The maximal runs of printable bytes of the buffer, in order.
pub fn extract_runs(buffer: &[u8]) -> (r: Vec<Vec<u8>>)
    ensures
        runs_of(r@) == extracted_runs(buffer@),
        printable_runs(runs_of(r@)),
{
    let mut runs: Vec<Vec<u8>> = Vec::new();
    let mut current: Vec<u8> = Vec::new();
    let mut i: usize = 0;
    assert(buffer@.take(0) =~= Seq::<u8>::empty());
    assert(runs_of(runs@) =~= Seq::<Seq<u8>>::empty());
    while i < buffer.len()
        invariant
            i <= buffer.len(),
            runs_of(runs@) == closed_runs(buffer@.take(i as int)),
            current@ == trailing_run(buffer@.take(i as int)),
            printable_runs(runs_of(runs@)),
            all_printable(current@),
        decreases buffer.len() - i,
    {
        let b: u8 = buffer[i];
        proof {
            let next = buffer@.take(i + 1);
            assert(next.drop_last() =~= buffer@.take(i as int));
            assert(next.last() == b);
        }
        if 0x20 <= b && b <= 0x7e {
            current.push(b);
        } else if current.len() > 0 {
            let ghost before = runs_of(runs@);
            let ghost run = current@;
            runs.push(current);
            current = Vec::new();
            assert(runs_of(runs@) =~= before.push(run));
        }
        i += 1;
    }
    assert(buffer@.take(i as int) =~= buffer@);
    if current.len() > 0 {
        let ghost before = runs_of(runs@);
        let ghost run = current@;
        runs.push(current);
        assert(runs_of(runs@) =~= before.push(run));
    }
    runs
}

/// The strings that the buffer holds: its maximal runs of printable bytes, in
/// order. None is empty.
pub fn extract_strings(buffer: &[u8]) -> (r: Vec<String>)
    ensures
        r@.len() == extracted_strings(buffer@).len(),
        forall|i: int| 0 <= i < r@.len() ==> (#[trigger] r@[i])@ == extracted_strings(buffer@)[i],
        forall|i: int| 0 <= i < r@.len() ==> (#[trigger] r@[i])@.len() > 0,
{
    let mut runs = extract_runs(buffer);
    let ghost all = runs_of(runs@);
    let mut strings: Vec<String> = Vec::new();
    let n: usize = runs.len();
    let mut i: usize = 0;
    while i < n
        invariant
            i <= n,
            n == runs@.len(),
            runs_of(runs@) == all,
            all == extracted_runs(buffer@),
            printable_runs(all),
            strings@.len() == i,
            forall|j: int| 0 <= j < i ==> (#[trigger] strings@[j])@ == ascii_chars(all[j]),
        decreases n - i,
    {
        let mut run: Vec<u8> = Vec::new();
        let ghost before = runs@;
        let src = &runs[i];
        let mut k: usize = 0;
        while k < src.len()
            invariant
                k <= src.len(),
                run@ == src@.take(k as int),
            decreases src.len() - k,
        {
            run.push(src[k]);
            assert(src@.take(k + 1) =~= src@.take(k as int).push(src@[k as int]));
            k += 1;
        }
        assert(run@ =~= src@);
        assert(run@ == all[i as int]) by {
            assert(runs_of(runs@)[i as int] == runs@[i as int]@);
        }
        assert(all_printable(all[i as int]));
        assert(all_ascii(run@)) by {
            assert forall|j: int| 0 <= j < run@.len() implies #[trigger] run@[j] < 128 by {
                assert(is_printable(run@[j]));
            }
        }
        match ascii_to_string(run) {
            Some(s) => {
                strings.push(s);
            },
            None => {
                vstd::pervasive::unreached::<()>();
            },
        }
        i += 1;
    }
    assert forall|i: int| 0 <= i < strings@.len() implies (#[trigger] strings@[i])@.len()
        > 0 by {
        assert(all[i].len() > 0);
    }
    strings
}

/// How many of the runs contain the keyword, read as text.
fn count_containing(runs: &Vec<Vec<u8>>, keyword: &str) -> (r: usize)
    requires
        printable_runs(runs_of(runs@)),
    ensures
        r == frequency(runs_of(runs@).map_values(|run: Seq<u8>| ascii_chars(run)), keyword@),
{
    let ghost strings = runs_of(runs@).map_values(|run: Seq<u8>| ascii_chars(run));
    let ghost pred = |s: Seq<char>| is_substring(s, keyword@);
    let ascii: bool = keyword.is_ascii();
    let needle: &[u8] = keyword.as_bytes();
    proof {
        if ascii {
            vstd::string::is_ascii_spec_bytes(keyword);
            vstd::utf8::is_ascii_chars_nat_bound(keyword@);
            assert(all_ascii(needle@)) by {
                assert forall|j: int| 0 <= j < needle@.len() implies #[trigger] needle@[j]
                    < 128 by {
                    assert((keyword@[j] as nat) < 128);
                }
            }
            assert(ascii_chars(needle@) =~= keyword@) by {
                assert forall|j: int| 0 <= j < needle@.len() implies ascii_chars(needle@)[j]
                    == keyword@[j] by {
                    assert((keyword@[j] as nat) < 128);
                }
            }
        }
    }
    let mut count: usize = 0;
    let mut i: usize = 0;
    assert(strings.take(0) =~= Seq::<Seq<char>>::empty());
    assert(strings.take(0).filter(pred).len() == 0) by {
        reveal(Seq::filter);
    }
    while i < runs.len()
        invariant
            i <= runs.len(),
            count <= i,
            strings == runs_of(runs@).map_values(|run: Seq<u8>| ascii_chars(run)),
            pred == |s: Seq<char>| is_substring(s, keyword@),
            printable_runs(runs_of(runs@)),
            count == strings.take(i as int).filter(pred).len(),
            ascii ==> all_ascii(needle@) && ascii_chars(needle@) == keyword@,
            ascii == vstd::utf8::is_ascii_chars(keyword@),
        decreases runs.len() - i,
    {
        let run = &runs[i];
        let ghost s = strings[i as int];
        proof {
            assert(runs_of(runs@)[i as int] == run@);
            assert(s == ascii_chars(run@));
            assert(all_printable(run@));
            assert(all_ascii(run@)) by {
                assert forall|j: int| 0 <= j < run@.len() implies #[trigger] run@[j] < 128 by {
                    assert(is_printable(run@[j]));
                }
            }
            assert(strings.take(i + 1).drop_last() =~= strings.take(i as int));
            assert(strings.take(i + 1).last() == s);
            reveal(Seq::filter);
            if ascii {
                lemma_substring_of_ascii(run@, needle@);
            } else if is_substring(s, keyword@) {
                lemma_only_ascii_in_ascii(run@, keyword@);
            }
        }
        if ascii && contains_bytes(run.as_slice(), needle) {
            count += 1;
        }
        i += 1;
    }
    assert(strings.take(i as int) =~= strings);
    count
}

/// A text that occurs in the text of ASCII bytes holds ASCII characters only.
pub proof fn lemma_only_ascii_in_ascii(hay: Seq<u8>, needle: Seq<char>)
    requires
        all_ascii(hay),
        is_substring(ascii_chars(hay), needle),
    ensures
        vstd::utf8::is_ascii_chars(needle),
{
    let at = choose|at: int| occurs_at(ascii_chars(hay), needle, at);
    assert forall|j: int| 0 <= j < needle.len() implies '\0' <= #[trigger] needle[j]
        <= '\u{7f}' by {
        assert(ascii_chars(hay).subrange(at, at + needle.len())[j] == needle[j]);
        assert(hay[at + j] < 128);
    }
}

impl RecoveryMode {
    /// Scans the content of a file: extracts its strings and counts, for each
    /// keyword of the catalogue, the strings that contain it.
    pub fn parse(path: String, buffer: Vec<u8>) -> (r: RecoveryMode)
        ensures
            r.input_file.path == path,
            r.input_file.buffer == buffer,
            r.frequencies@.len() == keyword_catalogue().len(),
            forall|i: int|
                0 <= i < r.frequencies@.len() ==> {
                    &&& (#[trigger] r.frequencies@[i]).keyword@ == keyword_catalogue()[i]
                    &&& r.frequencies@[i].count == frequency(
                        extracted_strings(buffer@),
                        keyword_catalogue()[i],
                    )
                },
    {
        let runs = extract_runs(buffer.as_slice());
        let names = keywords();
        let mut frequencies: Vec<KeywordFrequency> = Vec::new();
        let mut i: usize = 0;
        while i < names.len()
            invariant
                i <= names.len(),
                names@.len() == keyword_catalogue().len(),
                forall|j: int|
                    0 <= j < names@.len() ==> (#[trigger] names@[j])@ == keyword_catalogue()[j],
                runs_of(runs@) == extracted_runs(buffer@),
                printable_runs(runs_of(runs@)),
                frequencies@.len() == i,
                forall|j: int|
                    0 <= j < i ==> {
                        &&& (#[trigger] frequencies@[j]).keyword@ == keyword_catalogue()[j]
                        &&& frequencies@[j].count == frequency(
                            extracted_strings(buffer@),
                            keyword_catalogue()[j],
                        )
                    },
            decreases names.len() - i,
        {
            let name: &'static str = names[i];
            let count = count_containing(&runs, name);
            frequencies.push(KeywordFrequency { keyword: String::from_str(name), count });
            i += 1;
        }
        RecoveryMode { input_file: InputFile { path, buffer }, frequencies }
    }

    /// The count recorded for a keyword; `None` for a keyword that is not in
    /// the report.
    pub fn frequency_of(&self, keyword: &str) -> (r: Option<usize>)
        ensures
            r matches Some(c) ==> exists|i: int|
                0 <= i < self.frequencies@.len() && (#[trigger] self.frequencies@[i]).keyword@
                    == keyword@ && self.frequencies@[i].count == c && forall|j: int|
                    0 <= j < i ==> (#[trigger] self.frequencies@[j]).keyword@ != keyword@,
            r is None ==> forall|i: int|
                0 <= i < self.frequencies@.len() ==> (#[trigger] self.frequencies@[i]).keyword@
                    != keyword@,
    {
        let wanted = String::from_str(keyword);
        let mut i: usize = 0;
        while i < self.frequencies.len()
            invariant
                i <= self.frequencies.len(),
                wanted@ == keyword@,
                forall|j: int| 0 <= j < i ==> (#[trigger] self.frequencies@[j]).keyword@ != keyword@,
            decreases self.frequencies.len() - i,
        {
            if self.frequencies[i].keyword == wanted {
                return Some(self.frequencies[i].count);
            }
            i += 1;
        }
        None
    }
}

/// The runs joined end to end.
pub open spec fn joined(runs: Seq<Seq<u8>>) -> Seq<u8>
    decreases runs.len(),
{
    if runs.len() == 0 {
        Seq::empty()
    } else {
        joined(runs.drop_last()) + runs.last()
    }
}

/// The runs that a byte has ended, followed by the run at the end of the
/// buffer, hold the printable bytes of the buffer in their order, and every
/// run is printable and not empty.
pub proof fn lemma_runs_partition(buf: Seq<u8>)
    ensures
        joined(closed_runs(buf)) + trailing_run(buf) == buf.filter(|b: u8| is_printable(b)),
        joined(extracted_runs(buf)) == buf.filter(|b: u8| is_printable(b)),
        printable_runs(closed_runs(buf)),
        printable_runs(extracted_runs(buf)),
        all_printable(trailing_run(buf)),
    decreases buf.len(),
{
    reveal(Seq::filter);
    let pred = |b: u8| is_printable(b);
    if buf.len() == 0 {
        assert(joined(closed_runs(buf)) + trailing_run(buf) =~= buf.filter(pred));
    } else {
        let rest = buf.drop_last();
        lemma_runs_partition(rest);
        let run = trailing_run(rest);
        if is_printable(buf.last()) {
            assert(joined(closed_runs(buf)) + trailing_run(buf) =~= (joined(closed_runs(rest))
                + run).push(buf.last()));
        } else if run.len() == 0 {
            assert(joined(closed_runs(buf)) + trailing_run(buf) =~= joined(closed_runs(rest))
                + run);
        } else {
            assert(closed_runs(buf).drop_last() =~= closed_runs(rest));
            assert(joined(closed_runs(buf)) + trailing_run(buf) =~= joined(closed_runs(rest))
                + run);
        }
    }
    if trailing_run(buf).len() == 0 {
        assert(joined(closed_runs(buf)) + trailing_run(buf) =~= joined(closed_runs(buf)));
    } else {
        assert(extracted_runs(buf).drop_last() =~= closed_runs(buf));
    }
}

/// An empty buffer holds no string, and so no keyword is found in it.
pub proof fn lemma_empty_buffer(keyword: Seq<char>)
    ensures
        extracted_strings(Seq::empty()).len() == 0,
        frequency(extracted_strings(Seq::empty()), keyword) == 0,
{
    reveal(Seq::filter);
    assert(extracted_strings(Seq::empty()) =~= Seq::empty());
}

/// The bytes from `start` up to `end` are printable, and the byte at `end`
/// is not: a run that a byte of the buffer ends.
pub open spec fn is_closed_run(buf: Seq<u8>, start: int, end: int) -> bool {
    &&& 0 <= start < end < buf.len()
    &&& forall|k: int| start <= k < end ==> is_printable(buf[k])
    &&& start == 0 || !is_printable(buf[start - 1])
    &&& !is_printable(buf[end])
}

/// The bytes from `start` up to `end` are a run of printable bytes that can
/// be extended on neither side.
pub open spec fn is_maximal_run(buf: Seq<u8>, start: int, end: int) -> bool {
    &&& 0 <= start < end <= buf.len()
    &&& forall|k: int| start <= k < end ==> is_printable(buf[k])
    &&& start == 0 || !is_printable(buf[start - 1])
    &&& end == buf.len() || !is_printable(buf[end])
}

/// The bytes are those of a closed run of the buffer.
pub open spec fn closed_run_of(buf: Seq<u8>, run: Seq<u8>) -> bool {
    exists|start: int, end: int|
        #![trigger is_closed_run(buf, start, end)]
        is_closed_run(buf, start, end) && run == buf.subrange(start, end)
}

/// The bytes are those of a maximal run of the buffer.
pub open spec fn maximal_run_of(buf: Seq<u8>, run: Seq<u8>) -> bool {
    exists|start: int, end: int|
        #![trigger is_maximal_run(buf, start, end)]
        is_maximal_run(buf, start, end) && run == buf.subrange(start, end)
}

/// The run at the end of a buffer is its longest printable suffix.
pub proof fn lemma_trailing_run(buf: Seq<u8>)
    ensures
        trailing_run(buf).len() <= buf.len(),
        trailing_run(buf) == buf.subrange(buf.len() - trailing_run(buf).len(), buf.len() as int),
        all_printable(trailing_run(buf)),
        trailing_run(buf).len() == buf.len() || !is_printable(
            buf[buf.len() - trailing_run(buf).len() - 1],
        ),
    decreases buf.len(),
{
    if buf.len() == 0 || !is_printable(buf.last()) {
        assert(trailing_run(buf) =~= buf.subrange(buf.len() as int, buf.len() as int));
    } else {
        let rest = buf.drop_last();
        lemma_trailing_run(rest);
        let t = trailing_run(rest).len();
        assert(trailing_run(buf) =~= buf.subrange(buf.len() - t - 1, buf.len() as int));
        if t < rest.len() {
            assert(rest[rest.len() - t - 1] == buf[buf.len() - t - 2]);
        }
    }
}

/// The runs that a byte has ended are the closed runs of the buffer: each of
/// them lies between two bounds that make a closed run, and every closed run
/// is among them.
pub proof fn lemma_closed_runs(buf: Seq<u8>)
    ensures
        forall|i: int|
            0 <= i < closed_runs(buf).len() ==> closed_run_of(buf, #[trigger] closed_runs(buf)[i]),
        forall|start: int, end: int| #[trigger]
            is_closed_run(buf, start, end) ==> closed_runs(buf).contains(buf.subrange(start, end)),
    decreases buf.len(),
{
    if buf.len() > 0 {
        let rest = buf.drop_last();
        let n = rest.len() as int;
        lemma_closed_runs(rest);
        lemma_trailing_run(rest);
        let t = trailing_run(rest).len() as int;
        let closes = !is_printable(buf.last()) && t > 0;
        assert forall|s: int, e: int| 0 <= s <= e <= n implies #[trigger] buf.subrange(s, e)
            == rest.subrange(s, e) by {
            assert(buf.subrange(s, e) =~= rest.subrange(s, e));
        }
        assert forall|s: int, e: int| is_closed_run(rest, s, e) implies is_closed_run(
            buf,
            s,
            e,
        ) by {
            assert forall|k: int| s <= k < e implies is_printable(buf[k]) by {
                assert(rest[k] == buf[k]);
            }
            if s > 0 {
                assert(rest[s - 1] == buf[s - 1]);
            }
            assert(rest[e] == buf[e]);
        }
        if closes {
            assert(is_closed_run(buf, n - t, n)) by {
                assert forall|k: int| n - t <= k < n implies is_printable(buf[k]) by {
                    assert(trailing_run(rest)[k - (n - t)] == rest[k]);
                    assert(is_printable(trailing_run(rest)[k - (n - t)]));
                }
                if n - t > 0 {
                    assert(rest[n - t - 1] == buf[n - t - 1]);
                }
            }
            assert(closed_runs(buf) == closed_runs(rest).push(trailing_run(rest)));
        } else {
            assert(closed_runs(buf) == closed_runs(rest));
        }
        assert forall|i: int| 0 <= i < closed_runs(buf).len() implies closed_run_of(
            buf,
            #[trigger] closed_runs(buf)[i],
        ) by {
            if i < closed_runs(rest).len() {
                assert(closed_run_of(rest, closed_runs(rest)[i]));
                let (s, e) = choose|s: int, e: int|
                    #![trigger is_closed_run(rest, s, e)]
                    is_closed_run(rest, s, e) && closed_runs(rest)[i] == rest.subrange(s, e);
                assert(is_closed_run(buf, s, e));
                assert(buf.subrange(s, e) == rest.subrange(s, e));
            } else {
                assert(is_closed_run(buf, n - t, n));
                assert(closed_runs(buf)[i] == buf.subrange(n - t, n));
            }
        }
        assert forall|start: int, end: int| #[trigger]
            is_closed_run(buf, start, end) implies closed_runs(buf).contains(
            buf.subrange(start, end),
        ) by {
            if end < n {
                assert(is_closed_run(rest, start, end)) by {
                    assert forall|k: int| start <= k < end implies is_printable(rest[k]) by {
                        assert(rest[k] == buf[k]);
                    }
                    if start > 0 {
                        assert(rest[start - 1] == buf[start - 1]);
                    }
                    assert(rest[end] == buf[end]);
                }
                assert(closed_runs(rest).contains(rest.subrange(start, end)));
                let w = choose|w: int|
                    0 <= w < closed_runs(rest).len() && closed_runs(rest)[w] == rest.subrange(
                        start,
                        end,
                    );
                assert(closed_runs(buf)[w] == buf.subrange(start, end));
            } else {
                // the run ends at the last byte of the buffer, which closes it
                assert(end == n);
                assert(is_printable(rest[n - 1])) by {
                    assert(rest[n - 1] == buf[n - 1]);
                }
                assert(t > 0);
                assert(start == n - t) by {
                    if start < n - t {
                        assert(rest[n - t - 1] == buf[n - t - 1]);
                    }
                    if start > n - t {
                        assert(trailing_run(rest)[start - 1 - (n - t)] == rest[start - 1]);
                        assert(is_printable(trailing_run(rest)[start - 1 - (n - t)]));
                        assert(rest[start - 1] == buf[start - 1]);
                    }
                }
                assert(closed_runs(buf)[closed_runs(rest).len() as int] == buf.subrange(
                    start,
                    end,
                ));
            }
        }
    }
}

/// The extracted runs are the maximal runs of printable bytes of the buffer:
/// each of them lies between two bounds that make a maximal run, and every
/// maximal run is among them.
pub proof fn lemma_extracted_runs_are_maximal(buf: Seq<u8>)
    ensures
        forall|i: int|
            0 <= i < extracted_runs(buf).len() ==> maximal_run_of(
                buf,
                #[trigger] extracted_runs(buf)[i],
            ),
        forall|start: int, end: int| #[trigger]
            is_maximal_run(buf, start, end) ==> extracted_runs(buf).contains(
                buf.subrange(start, end),
            ),
{
    lemma_closed_runs(buf);
    lemma_trailing_run(buf);
    let n = buf.len() as int;
    let t = trailing_run(buf).len() as int;
    let runs = extracted_runs(buf);
    if t > 0 {
        assert(is_maximal_run(buf, n - t, n)) by {
            assert forall|k: int| n - t <= k < n implies is_printable(buf[k]) by {
                assert(trailing_run(buf)[k - (n - t)] == buf[k]);
                assert(is_printable(trailing_run(buf)[k - (n - t)]));
            }
        }
    }
    assert forall|i: int| 0 <= i < runs.len() implies maximal_run_of(buf, #[trigger] runs[i]) by {
        if i < closed_runs(buf).len() {
            assert(closed_run_of(buf, closed_runs(buf)[i]));
            let (s, e) = choose|s: int, e: int|
                #![trigger is_closed_run(buf, s, e)]
                is_closed_run(buf, s, e) && closed_runs(buf)[i] == buf.subrange(s, e);
            assert(is_maximal_run(buf, s, e));
            assert(runs[i] == closed_runs(buf)[i]);
        } else {
            assert(is_maximal_run(buf, n - t, n));
            assert(runs[i] == buf.subrange(n - t, n));
        }
    }
    assert forall|start: int, end: int| #[trigger]
        is_maximal_run(buf, start, end) implies runs.contains(buf.subrange(start, end)) by {
        if end < n {
            assert(is_closed_run(buf, start, end));
            let w = choose|w: int|
                0 <= w < closed_runs(buf).len() && closed_runs(buf)[w] == buf.subrange(start, end);
            assert(runs[w] == buf.subrange(start, end));
        } else {
            assert(t > 0) by {
                assert(is_printable(buf[n - 1]));
            }
            assert(start == n - t) by {
                if start > n - t {
                    assert(trailing_run(buf)[start - 1 - (n - t)] == buf[start - 1]);
                    assert(is_printable(trailing_run(buf)[start - 1 - (n - t)]));
                }
            }
            assert(runs[closed_runs(buf).len() as int] == buf.subrange(start, end));
        }
    }
}

} // verus!
