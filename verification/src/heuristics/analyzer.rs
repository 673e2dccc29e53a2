//! The structural checks and their findings.
use crate::objects::collector::ObjectsList;
use crate::pages::PagesList;
use vstd::prelude::*;
use vstd::string::StringExecFns;

verus! {

/// What a check found, in words for the user.
#[derive(Clone, Debug)]
pub struct ElementFound {
    /// The explanation given to the user.
    pub explain: String,
}

/// The findings of all checks on one document.
#[derive(Debug)]
pub struct Analyzer {
    /// The findings, in the order of the checks.
    pub heuristics: Vec<ElementFound>,
}

/// The explanations of a list of findings.
pub open spec fn explanations(found: Seq<ElementFound>) -> Seq<Seq<char>> {
    found.map_values(|e: ElementFound| e.explain@)
}

/// The number of the last object of the index, which is the greatest, is
/// not the number of objects in the index. An empty index has no last object
/// and so no mismatch.
pub open spec fn numbering_mismatch(ids: Seq<u64>) -> bool {
    ids.len() > 0 && ids.last() != ids.len()
}

/// What the check of the numbering says of a mismatch.
pub open spec fn mismatch_message() -> Seq<char> {
    "Last object is not the one we're expecting. PDF file may be compromised"@
}

/// The findings on the objects: one on the numbering, if it mismatches. It
/// is a hint, not a proof of damage: a document that was updated may number
/// its objects with gaps.
pub open spec fn object_findings(ids: Seq<u64>) -> Seq<Seq<char>> {
    if numbering_mismatch(ids) {
        seq![mismatch_message()]
    } else {
        Seq::empty()
    }
}

/// The findings on the pages: no check looks at pages, so there are none.
pub open spec fn page_findings() -> Seq<Seq<char>> {
    Seq::empty()
}

/// A structural check. Each check looks at the index and the pages of a
/// document and lists what it finds; no check depends on another.
#[derive(Clone, Copy, Debug, PartialEq, Eq, Structural)]
pub enum Heuristic {
    /// Compares the number of the last object with the number of objects.
    ObjectNumbering,
    /// Looks at the pages; it finds nothing in any document.
    Pages,
}

/// What one check finds in a document whose objects have the given numbers.
pub open spec fn findings_of(check: Heuristic, ids: Seq<u64>) -> Seq<Seq<char>> {
    match check {
        Heuristic::ObjectNumbering => object_findings(ids),
        Heuristic::Pages => page_findings(),
    }
}

/// What a list of checks finds: the findings of each check, in the order of
/// the list.
pub open spec fn all_findings(checks: Seq<Heuristic>, ids: Seq<u64>) -> Seq<Seq<char>>
    decreases checks.len(),
{
    if checks.len() == 0 {
        Seq::empty()
    } else {
        all_findings(checks.drop_last(), ids) + findings_of(checks.last(), ids)
    }
}

impl ElementFound {
    /// A finding with the given explanation.
    pub fn new(explain: String) -> (r: Self)
        ensures
            r.explain == explain,
    {
        Self { explain }
    }
}

impl Analyzer {
    /// The checks that `start` runs, in their order: the check on the
    /// objects, then the check on the pages.
    pub fn registered() -> (r: Vec<Heuristic>)
        ensures
            r@ == seq![Heuristic::ObjectNumbering, Heuristic::Pages],
    {
        let mut r: Vec<Heuristic> = Vec::new();
        r.push(Heuristic::ObjectNumbering);
        r.push(Heuristic::Pages);
        assert(r@ =~= seq![Heuristic::ObjectNumbering, Heuristic::Pages]);
        r
    }

    /// Runs the given checks and lists their findings in the order of the
    /// checks. No check fails, and no finding stops the others.
    pub fn run(checks: &Vec<Heuristic>, object_list: &ObjectsList, page_list: &PagesList) -> (r:
        Self)
        ensures
            explanations(r.heuristics@) == all_findings(checks@, object_list.ids()),
    {
        let mut heuristics: Vec<ElementFound> = Vec::new();
        let mut i: usize = 0;
        assert(checks@.take(0) =~= Seq::<Heuristic>::empty());
        assert(explanations(heuristics@) =~= Seq::<Seq<char>>::empty());
        while i < checks.len()
            invariant
                i <= checks.len(),
                explanations(heuristics@) == all_findings(
                    checks@.take(i as int),
                    object_list.ids(),
                ),
            decreases checks.len() - i,
        {
            let mut found = match checks[i] {
                Heuristic::ObjectNumbering => Self::apply_for_objects(object_list),
                Heuristic::Pages => Self::apply_for_pages(page_list),
            };
            let ghost first = explanations(heuristics@);
            let ghost second = explanations(found@);
            heuristics.append(&mut found);
            proof {
                assert(explanations(heuristics@) =~= first + second);
                assert(checks@.take(i + 1).drop_last() =~= checks@.take(i as int));
                assert(checks@.take(i + 1).last() == checks@[i as int]);
            }
            i += 1;
        }
        assert(checks@.take(i as int) =~= checks@);
        Self { heuristics }
    }

    /// Runs the registered checks: those on the objects, then those on the
    /// pages, and lists their findings in that order.
    pub fn start(object_list: &ObjectsList, page_list: &PagesList) -> (r: Self)
        ensures
            explanations(r.heuristics@) == object_findings(object_list.ids()) + page_findings(),
    {
        let checks = Self::registered();
        let r = Self::run(&checks, object_list, page_list);
        proof {
            reveal_with_fuel(all_findings, 3);
            let c = checks@;
            assert(c.drop_last() =~= seq![Heuristic::ObjectNumbering]);
            assert(c.drop_last().drop_last() =~= Seq::<Heuristic>::empty());
            assert(all_findings(c, object_list.ids()) =~= object_findings(object_list.ids())
                + page_findings());
        }
        r
    }

    /// The checks on the pages.
    pub fn apply_for_pages(_pages_list: &PagesList) -> (r: Vec<ElementFound>)
        ensures
            explanations(r@) == page_findings(),
    {
        let r: Vec<ElementFound> = Vec::new();
        assert(explanations(r@) =~= page_findings());
        r
    }

    /// The checks on the objects.
    pub fn apply_for_objects(objects_list: &ObjectsList) -> (r: Vec<ElementFound>)
        ensures
            explanations(r@) == object_findings(objects_list.ids()),
    {
        let mut result: Vec<ElementFound> = Vec::new();
        let maximum_len: usize = objects_list.objects_extended.len();
        if maximum_len > 0 {
            let final_obj = &objects_list.objects_extended[maximum_len - 1];
            assert(objects_list.ids().last() == final_obj.id);
            if final_obj.id != maximum_len as u64 {
                result.push(
                    ElementFound::new(
                        String::from_str(
                            "Last object is not the one we're expecting. PDF file may be compromised",
                        ),
                    ),
                );
            }
        }
        assert(explanations(result@) =~= object_findings(objects_list.ids()));
        result
    }
}

} // verus!
