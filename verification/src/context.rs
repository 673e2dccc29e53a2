//! An analysed document: its index, pages, reference maps and findings, and
//! what the user is looking at.
use crate::heuristics::analyzer::{explanations, object_findings, page_findings, Analyzer};
use crate::input_file::{
    check_signature, has_pdf_signature, signature_error, InputFile, InputFileError,
};
use crate::objects::collector::{
    object_label, scanned_objects, sorted_by_id, ObjectID, ObjectsList, SingleObject,
    SingleObjectExtended,
};
use crate::objects::graph::{ObjectGraph, ObjectGraphAnalysis};
use crate::objects::object_linker::ObjectLinker;
use crate::objects::stream_parser::{classification, enriched, stream_payload, StreamParser};
use crate::pages::{Op, PagesList};
use crate::primitive::{PlainRef, Primitive, ScanItem};
use crate::views::{AppView, ObjectSubView, PageSubView};
use vstd::prelude::*;

verus! {

broadcast use vstd::std_specs::hash::group_hash_axioms;

/// What the user is looking at.
#[derive(Clone, Copy, Debug, PartialEq, Eq, Structural)]
pub struct CoreGui {
    /// The position of the object or the number of the page that is shown.
    pub current_id: u64,
    /// The view that is shown.
    pub current_view: AppView,
    /// What is shown of an object.
    pub subcurrent_obj_view: ObjectSubView,
    /// What is shown of a page.
    pub subcurrent_page_view: PageSubView,
}

/// A document that was analysed.
#[derive(Debug)]
pub struct CoreApp {
    /// The file of the document.
    pub input_file: InputFile,
    /// The index of the objects, stream payloads classified.
    pub objects: ObjectsList,
    /// The pages.
    pub pages: PagesList,
    /// The references between the objects.
    pub object_linker: ObjectLinker,
    /// The findings of the structural checks.
    pub heuristics: Analyzer,
    /// The object graph.
    pub object_graph: ObjectGraph,
    /// What the user is looking at.
    pub gui: CoreGui,
}

impl CoreGui {
    /// A page is shown by its entries at first.
    pub fn new(current_id: u64, current_view: AppView, subcurrent_view: ObjectSubView) -> (r: Self)
        ensures
            r == (CoreGui {
                current_id,
                current_view,
                subcurrent_obj_view: subcurrent_view,
                subcurrent_page_view: PageSubView::Decoded,
            }),
    {
        Self {
            current_id,
            current_view,
            subcurrent_obj_view: subcurrent_view,
            subcurrent_page_view: PageSubView::Decoded,
        }
    }
}

/// The two records describe the object: its number, the name of its kind and
/// its label, its value, and, for a stream only, its payload as stored and the
/// classification of its payload. An object that is no stream has neither.
pub open spec fn records_object(
    short: SingleObject,
    full: SingleObjectExtended,
    entry: (PlainRef, Primitive),
) -> bool {
    &&& short.id == entry.0.id
    &&& short.name@ == entry.1.debug_name()
    &&& full.id == entry.0.id
    &&& full.plain_ref == entry.0
    &&& full.object_content == entry.1
    &&& full.name@ == object_label(entry.0.id, entry.1)
    &&& full.references@.len() == 0
    &&& match entry.1 {
        Primitive::Stream(stream) => {
            &&& full.raw_buffer matches Some(raw) && raw@ == stream.data@
            &&& full.file_content matches Some(content) && content@ == classification(
                stream_payload(stream),
            )
        },
        _ => full.raw_buffer is None && full.file_content is None,
    }
}

impl CoreApp {
    /// The analysis is that of the given objects, in the order of the index.
    pub open spec fn analyses(self, entries: Seq<(PlainRef, Primitive)>) -> bool {
        &&& self.objects.objects@.len() == entries.len()
        &&& self.objects.objects_extended@.len() == entries.len()
        &&& forall|i: int|
            0 <= i < entries.len() ==> records_object(
                #[trigger] self.objects.objects@[i],
                self.objects.objects_extended@[i],
                entries[i],
            )
        &&& self.object_linker.links(self.objects.objects_extended@)
        &&& explanations(self.heuristics.heuristics@) == object_findings(self.objects.ids())
            + page_findings()
    }

    /// The invariant of an analysed document: that of its index and that of
    /// its reference maps.
    pub open spec fn wf(self) -> bool {
        self.objects.wf() && self.object_linker.wf()
    }

    /// Analyses a document from the items of its enumeration and the content
    /// of its pages: indexes the objects, classifies the payload of each
    /// stream, builds the reference maps and runs the structural checks. The
    /// opening view is shown at first.
    ///
    /// A file whose content does not start with `%PDF` is rejected with the
    /// error of its signature, and no document is built from it.
    pub fn new(input_file: InputFile, objects: Vec<ScanItem>, pages: Vec<Option<Vec<Op>>>) -> (r:
        Result<Self, InputFileError>)
        ensures
            r is Ok <==> has_pdf_signature(input_file.buffer@),
            r matches Err(e) ==> e == signature_error(input_file.buffer@),
            r matches Ok(core) ==> {
                &&& core.wf()
                &&& core.input_file == input_file
                &&& core.analyses(sorted_by_id(scanned_objects(objects@)))
                &&& core.pages.describes(pages@)
                &&& core.object_graph.vertices@.len() == 0
                &&& core.object_graph.edges@.len() == 0
                &&& core.gui == (CoreGui {
                    current_id: 0,
                    current_view: AppView::Welcome,
                    subcurrent_obj_view: ObjectSubView::Decoded,
                    subcurrent_page_view: PageSubView::Decoded,
                })
            },
    {
        match check_signature(input_file.buffer.as_slice()) {
            Ok(_) => {},
            Err(e) => {
                return Err(e);
            },
        }
        let ghost entries = sorted_by_id(scanned_objects(objects@));
        let listed = ObjectsList::new(objects);
        let ghost fresh = listed;
        let ObjectsList { objects: short, objects_extended, map } = listed;
        let objects_extended = StreamParser::parse(objects_extended);
        let objects = ObjectsList { objects: short, objects_extended, map };
        proof {
            assert(objects.ids() =~= fresh.ids()) by {
                assert forall|i: int| 0 <= i < fresh.ids().len() implies objects.ids()[i]
                    == fresh.ids()[i] by {
                    assert(enriched(fresh.objects_extended@[i], objects.objects_extended@[i]));
                }
            }
            assert forall|i: int| 0 <= i < entries.len() implies records_object(
                #[trigger] objects.objects@[i],
                objects.objects_extended@[i],
                entries[i],
            ) by {
                assert(enriched(fresh.objects_extended@[i], objects.objects_extended@[i]));
            }
        }
        let pages = PagesList::new(pages);
        let object_linker = ObjectLinker::connect(&objects.objects_extended);
        let object_graph = ObjectGraphAnalysis::analyze(&pages);
        let heuristics = Analyzer::start(&objects, &pages);
        let gui = CoreGui::new(0, AppView::Welcome, ObjectSubView::Decoded);
        Ok(Self { input_file, objects, pages, object_linker, heuristics, object_graph, gui })
    }

    /// Shows the object at a position of the index. A position beyond the
    /// index changes nothing.
    pub fn switch_object(&mut self, object_id: u64)
        ensures
            object_id < old(self).objects.objects@.len() ==> *final(self) == (CoreApp {
                gui: CoreGui {
                    current_id: object_id,
                    current_view: AppView::ObjectView,
                    ..old(self).gui
                },
                ..*old(self)
            }),
            object_id >= old(self).objects.objects@.len() ==> *final(self) == *old(self),
    {
        if object_id < self.objects.objects.len() as u64 {
            self.gui.current_id = object_id;
            self.gui.current_view = AppView::ObjectView;
        }
    }

    /// Shows the page of the given number.
    pub fn switch_page(&mut self, page_id: u64)
        ensures
            *final(self) == (CoreApp {
                gui: CoreGui {
                    current_id: page_id,
                    current_view: AppView::PageView,
                    ..old(self).gui
                },
                ..*old(self)
            }),
    {
        self.gui.current_id = page_id;
        self.gui.current_view = AppView::PageView;
    }

    /// Shows the view behind an entry of the menu, if the entry was clicked.
    pub fn change_view(&mut self, view_id: usize, clicked: bool)
        ensures
            clicked ==> *final(self) == (CoreApp {
                gui: CoreGui { current_view: AppView::of_menu_entry(view_id), ..old(self).gui },
                ..*old(self)
            }),
            !clicked ==> *final(self) == *old(self),
    {
        if clicked {
            self.gui.current_view = AppView::from_menu_entry(view_id);
        }
    }

    /// Sets the position or number that the view shows.
    pub fn switch_id(&mut self, view_id: usize)
        ensures
            *final(self) == (CoreApp {
                gui: CoreGui { current_id: view_id as u64, ..old(self).gui },
                ..*old(self)
            }),
    {
        self.gui.current_id = view_id as u64;
    }

    /// Shows the object of the given number, if the map leads from the number
    /// to a position of the index. Returns whether it does; if not, nothing
    /// changes. In a well-formed index the map leads every number that it
    /// knows to such a position.
    pub fn follow_reference(&mut self, id: ObjectID) -> (found: bool)
        ensures
            found == (old(self).objects.map@.contains_key(id) && old(self).objects.map@[id] < old(
                self,
            ).objects.objects@.len()),
            found ==> *final(self) == (CoreApp {
                gui: CoreGui {
                    current_id: old(self).objects.map@[id],
                    current_view: AppView::ObjectView,
                    ..old(self).gui
                },
                ..*old(self)
            }),
            !found ==> *final(self) == *old(self),
    {
        let position: Option<u64> = match self.objects.map.get(&id) {
            Some(p) => Some(*p),
            None => None,
        };
        match position {
            Some(p) => {
                let within: bool = p < self.objects.objects.len() as u64;
                self.switch_object(p);
                within
            },
            None => false,
        }
    }
}

} // verus!
