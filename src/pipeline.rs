//! Bridges the asynchronous reads and uploads and the attachment state
//! machine: every decision the pipeline takes is a transition here, while
//! the caller performs the reads and uploads it hands out.

use vstd::prelude::*;
use crate::attachment::{
    confirmed_paths, has_id, step, string_views, upload_jobs, claimed, ActionView,
    AttachmentAction, AttachmentCollection, EntryView, UploadJob,
};

verus! {

/// Relies on uuid::Uuid::new_v4 (with Uuid::as_u128) for a fresh random
/// identifier; nothing is promised of its value.
#[verifier::external_body]
fn fresh_id() -> (r: u128) {
    uuid::Uuid::new_v4().as_u128()
}

/// Name and MIME type of a file the user picked or dropped.
#[derive(Debug)]
pub struct SelectedFile {
    pub name: String,
    pub mime: String,
}

pub ghost struct SelectedFileView {
    pub name: Seq<char>,
    pub mime: Seq<char>,
}

impl View for SelectedFile {
    type V = SelectedFileView;

    open spec fn view(&self) -> SelectedFileView {
        SelectedFileView { name: self.name@, mime: self.mime@ }
    }
}

/// The views of a sequence of selected files.
pub open spec fn file_views(v: Seq<SelectedFile>) -> Seq<SelectedFileView> {
    v.map_values(|f: SelectedFile| f@)
}

/// A local read to schedule: the file at position `file` of the selection
/// feeds the entry `id`.
#[derive(Debug, PartialEq, Eq)]
pub struct ReadJob {
    pub id: u128,
    pub file: usize,
}

/// Whether `mime` is on the allow-list.
pub open spec fn accepts(accepted: Seq<Seq<char>>, mime: Seq<char>) -> bool {
    exists|i: int| 0 <= i < accepted.len() && accepted[i] == mime
}

/// Whether the last file of `files` enters the collection `s` under the
/// last id of `ids`.
pub open spec fn admits(
    s: Seq<EntryView>,
    accepted: Seq<Seq<char>>,
    files: Seq<SelectedFileView>,
    ids: Seq<u128>,
) -> bool {
    accepts(accepted, files.last().mime) && !has_id(s, ids.last())
}

/// The collection after admitting `files` under `ids`, one by one: an
/// allow-listed file whose id is fresh is added and its read is started;
/// any other file is passed over.
pub open spec fn intake(
    s: Seq<EntryView>,
    accepted: Seq<Seq<char>>,
    files: Seq<SelectedFileView>,
    ids: Seq<u128>,
) -> Seq<EntryView>
    decreases files.len(),
{
    if files.len() == 0 || ids.len() != files.len() {
        s
    } else {
        let prev = intake(s, accepted, files.drop_last(), ids.drop_last());
        let f = files.last();
        let id = ids.last();
        if admits(prev, accepted, files, ids) {
            step(step(prev, ActionView::Add(id, f.name, f.mime)), ActionView::ReadStarted(id))
        } else {
            prev
        }
    }
}

/// The reads to schedule for the same intake, in selection order.
pub open spec fn read_jobs(
    s: Seq<EntryView>,
    accepted: Seq<Seq<char>>,
    files: Seq<SelectedFileView>,
    ids: Seq<u128>,
) -> Seq<ReadJob>
    decreases files.len(),
{
    if files.len() == 0 || ids.len() != files.len() {
        Seq::empty()
    } else {
        let prev = intake(s, accepted, files.drop_last(), ids.drop_last());
        let jobs = read_jobs(s, accepted, files.drop_last(), ids.drop_last());
        if admits(prev, accepted, files, ids) {
            jobs.push(ReadJob { id: ids.last(), file: (files.len() - 1) as usize })
        } else {
            jobs
        }
    }
}

/// Configuration supplied by the owning application.
#[derive(Debug)]
pub struct PipelineConfig {
    pub accepted_mime_types: Vec<String>,
    pub upload_endpoint: String,
}

/// Mathematical model of an [`AttachmentPipeline`].
pub ghost struct PipelineView {
    pub entries: Seq<EntryView>,
    pub accepted: Seq<Seq<char>>,
    pub endpoint: Seq<char>,
    pub published: Seq<Seq<char>>,
}

/// The attachment pipeline of one editing session: the collection, the
/// allow-list, and the confirmed-paths view last handed to the owning form.
pub struct AttachmentPipeline {
    collection: AttachmentCollection,
    config: PipelineConfig,
    published: Vec<String>,
}

impl View for AttachmentPipeline {
    type V = PipelineView;

    closed spec fn view(&self) -> PipelineView {
        PipelineView {
            entries: self.collection@,
            accepted: string_views(self.config.accepted_mime_types@),
            endpoint: self.config.upload_endpoint@,
            published: string_views(self.published@),
        }
    }
}

/// Whether two string sequences hold the same strings.
fn same_strings(a: &Vec<String>, b: &Vec<String>) -> (r: bool)
    ensures
        r == (string_views(a@) == string_views(b@)),
{
    if a.len() != b.len() {
        assert(string_views(a@).len() != string_views(b@).len());
        return false;
    }
    let mut i: usize = 0;
    while i < a.len()
        invariant
            i <= a@.len(),
            a@.len() == b@.len(),
            forall|k: int| 0 <= k < i ==> a@[k]@ == b@[k]@,
        decreases a@.len() - i,
    {
        if a[i] != b[i] {
            assert(string_views(a@)[i as int] != string_views(b@)[i as int]);
            return false;
        }
        i = i + 1;
    }
    assert(string_views(a@) =~= string_views(b@));
    true
}

impl AttachmentPipeline {
    pub closed spec fn wf(&self) -> bool {
        self.collection.wf()
    }

    /// A pipeline with no attachments and nothing published yet.
    pub fn new(config: PipelineConfig) -> (r: AttachmentPipeline)
        ensures
            r.wf(),
            r@.entries == Seq::<EntryView>::empty(),
            r@.accepted == string_views(config.accepted_mime_types@),
            r@.endpoint == config.upload_endpoint@,
            r@.published == Seq::<Seq<char>>::empty(),
    {
        let r = AttachmentPipeline { collection: AttachmentCollection::new(), config, published: Vec::new() };
        assert(string_views(r.published@) =~= Seq::<Seq<char>>::empty());
        r
    }

    /// The current collection.
    pub fn collection(&self) -> (r: &AttachmentCollection)
        ensures
            r@ == self@.entries,
            self.wf() ==> r.wf(),
    {
        &self.collection
    }

    /// Where uploads go, as configured.
    pub fn upload_endpoint(&self) -> (r: &String)
        ensures
            r@ == self@.endpoint,
    {
        &self.config.upload_endpoint
    }

    /// Whether `mime` is on the allow-list.
    pub fn is_accepted(&self, mime: &String) -> (r: bool)
        ensures
            r == accepts(self@.accepted, mime@),
    {
        let accepted = &self.config.accepted_mime_types;
        let mut i: usize = 0;
        while i < accepted.len()
            invariant
                i <= accepted@.len(),
                accepted == &self.config.accepted_mime_types,
                forall|k: int| 0 <= k < i ==> accepted@[k]@ != mime@,
            decreases accepted@.len() - i,
        {
            if accepted[i] == *mime {
                assert(string_views(accepted@)[i as int] == mime@);
                return true;
            }
            i = i + 1;
        }
        assert forall|k: int| 0 <= k < self@.accepted.len() implies self@.accepted[k] != mime@ by {
            assert(self@.accepted[k] == accepted@[k]@);
        }
        false
    }

    /// Applies one action to the collection.
    pub fn dispatch(&mut self, action: AttachmentAction)
        requires
            old(self).wf(),
        ensures
            final(self).wf(),
            final(self)@ == (PipelineView { entries: step(old(self)@.entries, action@), ..old(self)@ }),
    {
        self.collection.apply(action);
    }

    /// Adds the selected files under the given ids, one by one: each
    /// allow-listed file whose id is not in use yet is added, its read is
    /// marked as started and a read job is returned for it; other files are
    /// passed over.
    pub fn add_files(&mut self, files: &Vec<SelectedFile>, ids: &Vec<u128>) -> (r: Vec<ReadJob>)
        requires
            old(self).wf(),
            ids@.len() == files@.len(),
        ensures
            final(self).wf(),
            final(self)@ == (PipelineView {
                entries: intake(old(self)@.entries, old(self)@.accepted, file_views(files@), ids@),
                ..old(self)@
            }),
            r@ == read_jobs(old(self)@.entries, old(self)@.accepted, file_views(files@), ids@),
    {
        let ghost s0 = self@;
        let ghost fs = file_views(files@);
        let mut jobs: Vec<ReadJob> = Vec::new();
        let mut k: usize = 0;
        while k < files.len()
            invariant
                k <= files@.len(),
                ids@.len() == files@.len(),
                fs == file_views(files@),
                self.wf(),
                self@ == (PipelineView {
                    entries: intake(s0.entries, s0.accepted, fs.subrange(0, k as int), ids@.subrange(0, k as int)),
                    ..s0
                }),
                jobs@ == read_jobs(s0.entries, s0.accepted, fs.subrange(0, k as int), ids@.subrange(0, k as int)),
            decreases files@.len() - k,
        {
            let ghost fk = fs.subrange(0, k + 1);
            let ghost ik = ids@.subrange(0, k + 1);
            assert(fk.drop_last() =~= fs.subrange(0, k as int));
            assert(ik.drop_last() =~= ids@.subrange(0, k as int));
            assert(fk.last() == files@[k as int]@);
            assert(ik.last() == ids@[k as int]);
            let id = ids[k];
            let f = &files[k];
            if self.is_accepted(&f.mime) && self.collection.position_of(id).is_none() {
                self.collection.add(id, f.name.clone(), f.mime.clone());
                self.collection.apply(AttachmentAction::ReadStarted(id));
                jobs.push(ReadJob { id, file: k });
            }
            k = k + 1;
        }
        assert(fs.subrange(0, files@.len() as int) =~= fs);
        assert(ids@.subrange(0, files@.len() as int) =~= ids@);
        jobs
    }

    /// Adds the selected files under freshly drawn ids (see [`Self::add_files`]).
    /// Whatever ids are drawn, the outcome is that of `add_files` under them.
    pub fn select_files(&mut self, files: &Vec<SelectedFile>) -> (r: Vec<ReadJob>)
        requires
            old(self).wf(),
        ensures
            final(self).wf(),
            exists|ids: Seq<u128>|
                ids.len() == files@.len() && final(self)@ == (PipelineView {
                    entries: intake(old(self)@.entries, old(self)@.accepted, file_views(files@), ids),
                    ..old(self)@
                }) && r@ == #[trigger] read_jobs(old(self)@.entries, old(self)@.accepted, file_views(files@), ids),
    {
        let mut ids: Vec<u128> = Vec::new();
        let mut k: usize = 0;
        while k < files.len()
            invariant
                k <= files@.len(),
                ids@.len() == k,
            decreases files@.len() - k,
        {
            ids.push(fresh_id());
            k = k + 1;
        }
        self.add_files(files, &ids)
    }

    /// Records the outcome of a local read: the bytes on success, a failure
    /// (and so no upload) otherwise. An id no longer present is ignored.
    pub fn on_read_complete(&mut self, id: u128, result: Result<Vec<u8>, String>)
        requires
            old(self).wf(),
        ensures
            final(self).wf(),
            final(self)@ == (PipelineView {
                entries: match result {
                    Ok(b) => step(old(self)@.entries, ActionView::BytesLoaded(id, b@)),
                    Err(reason) => step(old(self)@.entries, ActionView::Failed(id, reason@)),
                },
                ..old(self)@
            }),
    {
        match result {
            Ok(b) => self.collection.apply(AttachmentAction::BytesLoaded(id, b)),
            Err(reason) => self.collection.apply(AttachmentAction::Failed(id, reason)),
        }
    }

    /// Records the outcome of an upload: the stored path on success, a
    /// failure otherwise. An id no longer present is ignored.
    pub fn on_upload_complete(&mut self, id: u128, result: Result<String, String>)
        requires
            old(self).wf(),
        ensures
            final(self).wf(),
            final(self)@ == (PipelineView {
                entries: match result {
                    Ok(path) => step(old(self)@.entries, ActionView::Uploaded(id, path@)),
                    Err(reason) => step(old(self)@.entries, ActionView::Failed(id, reason@)),
                },
                ..old(self)@
            }),
    {
        match result {
            Ok(path) => self.collection.apply(AttachmentAction::Uploaded(id, path)),
            Err(reason) => self.collection.apply(AttachmentAction::Failed(id, reason)),
        }
    }

    /// Claims the upload of every loaded entry not claimed before and
    /// returns the uploads to perform, in collection order.
    pub fn start_uploads(&mut self) -> (r: Vec<UploadJob>)
        requires
            old(self).wf(),
        ensures
            final(self).wf(),
            final(self)@ == (PipelineView {
                entries: old(self)@.entries.map_values(|e: EntryView| claimed(e)),
                ..old(self)@
            }),
            r@.map_values(|j: UploadJob| j@) == upload_jobs(old(self)@.entries),
    {
        self.collection.claim_uploads()
    }

    /// Recomputes the confirmed-paths view; when it differs from the one
    /// last published, records it and returns it for the owning form,
    /// which takes it as its whole attachment list.
    pub fn publish(&mut self) -> (r: Option<Vec<String>>)
        requires
            old(self).wf(),
        ensures
            final(self).wf(),
            final(self)@ == (PipelineView { published: confirmed_paths(old(self)@.entries), ..old(self)@ }),
            r is Some <==> confirmed_paths(old(self)@.entries) != old(self)@.published,
            r matches Some(v) ==> string_views(v@) == confirmed_paths(old(self)@.entries),
    {
        let current = self.collection.confirmed_paths();
        if same_strings(&current, &self.published) {
            None
        } else {
            self.published = current;
            Some(self.collection.confirmed_paths())
        }
    }
}

} // verus!
