//! The ordered, id-addressed collection of attachments and the pure state
//! machine that updates it.

use vstd::prelude::*;

verus! {

/// Lifecycle tag of one attachment.
#[derive(Debug, PartialEq, Eq)]
pub enum EntryStatus {
    Added,
    Reading,
    Loaded,
    Uploading,
    Uploaded,
    Failed(String),
}

/// Mathematical model of an [`EntryStatus`].
pub ghost enum StatusView {
    Added,
    Reading,
    Loaded,
    Uploading,
    Uploaded,
    Failed(Seq<char>),
}

impl View for EntryStatus {
    type V = StatusView;

    open spec fn view(&self) -> StatusView {
        match self {
            EntryStatus::Added => StatusView::Added,
            EntryStatus::Reading => StatusView::Reading,
            EntryStatus::Loaded => StatusView::Loaded,
            EntryStatus::Uploading => StatusView::Uploading,
            EntryStatus::Uploaded => StatusView::Uploaded,
            EntryStatus::Failed(reason) => StatusView::Failed(reason@),
        }
    }
}

/// One user-added attachment and its lifecycle state.
#[derive(Debug, PartialEq, Eq)]
pub struct AttachmentEntry {
    /// Process-unique identifier; the only stable handle across reorders.
    pub id: u128,
    pub name: String,
    pub mime: String,
    /// The file's content, once the local read has completed.
    pub bytes: Option<Vec<u8>>,
    /// Where the server stored the file, once the upload has succeeded.
    pub remote_path: Option<String>,
    /// Set once an upload task has been claimed for this entry.
    pub upload_started: bool,
    pub status: EntryStatus,
}

/// Mathematical model of an [`AttachmentEntry`].
pub ghost struct EntryView {
    pub id: u128,
    pub name: Seq<char>,
    pub mime: Seq<char>,
    pub bytes: Option<Seq<u8>>,
    pub remote_path: Option<Seq<char>>,
    pub upload_started: bool,
    pub status: StatusView,
}

impl View for AttachmentEntry {
    type V = EntryView;

    open spec fn view(&self) -> EntryView {
        EntryView {
            id: self.id,
            name: self.name@,
            mime: self.mime@,
            bytes: match self.bytes {
                Some(b) => Some(b@),
                None => None,
            },
            remote_path: match self.remote_path {
                Some(p) => Some(p@),
                None => None,
            },
            upload_started: self.upload_started,
            status: self.status@,
        }
    }
}

/// A fresh entry, as `Add` creates it.
pub open spec fn new_entry(id: u128, name: Seq<char>, mime: Seq<char>) -> EntryView {
    EntryView {
        id,
        name,
        mime,
        bytes: None,
        remote_path: None,
        upload_started: false,
        status: StatusView::Added,
    }
}

/// Whether some entry of `s` carries `id`.
pub open spec fn has_id(s: Seq<EntryView>, id: u128) -> bool {
    exists|i: int| 0 <= i < s.len() && #[trigger] s[i].id == id
}

/// No two entries share an id.
pub open spec fn ids_unique(s: Seq<EntryView>) -> bool {
    forall|i: int, j: int|
        0 <= i < s.len() && 0 <= j < s.len() && i != j ==> #[trigger] s[i].id != #[trigger] s[j].id
}

impl EntryStatus {
    /// An equal, independent status.
    pub fn duplicate(&self) -> (r: EntryStatus)
        ensures
            r@ == self@,
    {
        match self {
            EntryStatus::Added => EntryStatus::Added,
            EntryStatus::Reading => EntryStatus::Reading,
            EntryStatus::Loaded => EntryStatus::Loaded,
            EntryStatus::Uploading => EntryStatus::Uploading,
            EntryStatus::Uploaded => EntryStatus::Uploaded,
            EntryStatus::Failed(reason) => EntryStatus::Failed(reason.clone()),
        }
    }
}

impl AttachmentEntry {
    /// An equal, independent entry.
    pub fn duplicate(&self) -> (r: AttachmentEntry)
        ensures
            r@ == self@,
    {
        let bytes = match &self.bytes {
            Some(b) => {
                let c = b.clone();
                assert(c@ =~= b@);
                Some(c)
            },
            None => None,
        };
        let remote_path = match &self.remote_path {
            Some(p) => Some(p.clone()),
            None => None,
        };
        AttachmentEntry {
            id: self.id,
            name: self.name.clone(),
            mime: self.mime.clone(),
            bytes,
            remote_path,
            upload_started: self.upload_started,
            status: self.status.duplicate(),
        }
    }

    /// Applies an id-addressed action to this entry.
    fn apply_to(&mut self, a: AttachmentAction)
        ensures
            final(self)@ == touched(old(self)@, a@),
    {
        match a {
            AttachmentAction::ReadStarted(id) => {
                if self.id == id && matches!(self.status, EntryStatus::Added) {
                    self.status = EntryStatus::Reading;
                }
            },
            AttachmentAction::BytesLoaded(id, b) => {
                if self.id == id && self.bytes.is_none() && !matches!(self.status, EntryStatus::Failed(_)) {
                    self.bytes = Some(b);
                    self.status = EntryStatus::Loaded;
                }
            },
            AttachmentAction::UploadStarted(id) => {
                if self.id == id && matches!(self.status, EntryStatus::Loaded) && !self.upload_started {
                    self.upload_started = true;
                    self.status = EntryStatus::Uploading;
                }
            },
            AttachmentAction::Uploaded(id, p) => {
                if self.id == id && self.remote_path.is_none() && !matches!(self.status, EntryStatus::Failed(_)) {
                    self.remote_path = Some(p);
                    self.status = EntryStatus::Uploaded;
                }
            },
            AttachmentAction::Failed(id, r) => {
                if self.id == id {
                    self.status = EntryStatus::Failed(r);
                }
            },
            _ => {},
        }
    }

    /// A new entry in status `Added`, with nothing read or uploaded yet.
    pub fn new(id: u128, name: String, mime: String) -> (r: AttachmentEntry)
        ensures
            r@ == new_entry(id, name@, mime@),
    {
        AttachmentEntry {
            id,
            name,
            mime,
            bytes: None,
            remote_path: None,
            upload_started: false,
            status: EntryStatus::Added,
        }
    }
}


/// A transition of the collection. Completions address entries by id, so a
/// reorder while a task is in flight cannot misdirect its result.
#[derive(Debug)]
pub enum AttachmentAction {
    /// Append a new entry in status `Added`.
    Add(u128, String, String),
    /// Record that the local read of the entry has been scheduled.
    ReadStarted(u128),
    /// The local read completed with these bytes.
    BytesLoaded(u128, Vec<u8>),
    /// Claim the upload of a loaded entry.
    UploadStarted(u128),
    /// The upload completed; the server stored the file at this path.
    Uploaded(u128, String),
    /// The read or the upload failed for this reason.
    Failed(u128, String),
    /// Take the entry at the first position and reinsert it at the second.
    Move(usize, usize),
    /// Drop the entry with this id.
    Remove(u128),
}

/// Mathematical model of an [`AttachmentAction`].
pub ghost enum ActionView {
    Add(u128, Seq<char>, Seq<char>),
    ReadStarted(u128),
    BytesLoaded(u128, Seq<u8>),
    UploadStarted(u128),
    Uploaded(u128, Seq<char>),
    Failed(u128, Seq<char>),
    Move(usize, usize),
    Remove(u128),
}

impl View for AttachmentAction {
    type V = ActionView;

    open spec fn view(&self) -> ActionView {
        match self {
            AttachmentAction::Add(id, name, mime) => ActionView::Add(*id, name@, mime@),
            AttachmentAction::ReadStarted(id) => ActionView::ReadStarted(*id),
            AttachmentAction::BytesLoaded(id, b) => ActionView::BytesLoaded(*id, b@),
            AttachmentAction::UploadStarted(id) => ActionView::UploadStarted(*id),
            AttachmentAction::Uploaded(id, p) => ActionView::Uploaded(*id, p@),
            AttachmentAction::Failed(id, r) => ActionView::Failed(*id, r@),
            AttachmentAction::Move(from, to) => ActionView::Move(*from, *to),
            AttachmentAction::Remove(id) => ActionView::Remove(*id),
        }
    }
}

/// The id that an id-addressed action targets.
pub open spec fn target_of(a: ActionView) -> Option<u128> {
    match a {
        ActionView::ReadStarted(id) => Some(id),
        ActionView::BytesLoaded(id, _) => Some(id),
        ActionView::UploadStarted(id) => Some(id),
        ActionView::Uploaded(id, _) => Some(id),
        ActionView::Failed(id, _) => Some(id),
        _ => None,
    }
}

/// What an id-addressed action does to one entry. Entries with another id
/// are left as they are; a failed entry stays failed until removed;
/// `bytes` and `remote_path` are written at most once.
pub open spec fn touched(e: EntryView, a: ActionView) -> EntryView {
    if target_of(a) != Some(e.id) {
        e
    } else {
        match a {
            ActionView::ReadStarted(_) => if e.status is Added {
                EntryView { status: StatusView::Reading, ..e }
            } else {
                e
            },
            ActionView::BytesLoaded(_, b) => if e.bytes is None && !(e.status is Failed) {
                EntryView { bytes: Some(b), status: StatusView::Loaded, ..e }
            } else {
                e
            },
            ActionView::UploadStarted(_) => if e.status is Loaded && !e.upload_started {
                EntryView { upload_started: true, status: StatusView::Uploading, ..e }
            } else {
                e
            },
            ActionView::Uploaded(_, p) => if e.remote_path is None && !(e.status is Failed) {
                EntryView { remote_path: Some(p), status: StatusView::Uploaded, ..e }
            } else {
                e
            },
            ActionView::Failed(_, r) => EntryView { status: StatusView::Failed(r), ..e },
            _ => e,
        }
    }
}

/// Position of the entry carrying `id` (any one, should there be several).
pub open spec fn index_of(s: Seq<EntryView>, id: u128) -> int
    recommends
        has_id(s, id),
{
    choose|i: int| 0 <= i < s.len() && s[i].id == id
}

/// `s` with the entry at `from` taken out and reinserted at `to`; unchanged
/// when either position is out of range.
pub open spec fn moved(s: Seq<EntryView>, from: int, to: int) -> Seq<EntryView> {
    if 0 <= from < s.len() && 0 <= to < s.len() {
        s.remove(from).insert(to, s[from])
    } else {
        s
    }
}

/// The collection after one action.
pub open spec fn step(s: Seq<EntryView>, a: ActionView) -> Seq<EntryView> {
    match a {
        ActionView::Add(id, name, mime) => if has_id(s, id) {
            s
        } else {
            s.push(new_entry(id, name, mime))
        },
        ActionView::Move(from, to) => moved(s, from as int, to as int),
        ActionView::Remove(id) => if has_id(s, id) {
            s.remove(index_of(s, id))
        } else {
            s
        },
        _ => s.map_values(|e: EntryView| touched(e, a)),
    }
}

/// An uploaded entry always knows where the server put it.
pub open spec fn paths_known(s: Seq<EntryView>) -> bool {
    forall|i: int| 0 <= i < s.len() && (#[trigger] s[i].status is Uploaded) ==> s[i].remote_path is Some
}

/// A loaded entry holds its bytes.
pub open spec fn bytes_known(s: Seq<EntryView>) -> bool {
    forall|i: int| 0 <= i < s.len() && (#[trigger] s[i].status is Loaded) ==> s[i].bytes is Some
}

/// The invariant of a collection: ids unique, loaded entries hold their
/// bytes, uploaded entries know their path.
pub open spec fn collection_wf(s: Seq<EntryView>) -> bool {
    ids_unique(s) && bytes_known(s) && paths_known(s)
}

/// The views of a sequence of strings.
pub open spec fn string_views(v: Seq<String>) -> Seq<Seq<char>> {
    v.map_values(|p: String| p@)
}

/// Whether an upload may still be claimed for `e`.
pub open spec fn claimable(e: EntryView) -> bool {
    e.status is Loaded && !e.upload_started
}

/// `e` after its upload has been claimed, if it could be.
pub open spec fn claimed(e: EntryView) -> EntryView {
    touched(e, ActionView::UploadStarted(e.id))
}

/// Mathematical model of an [`UploadJob`].
pub ghost struct UploadJobView {
    pub id: u128,
    pub name: Seq<char>,
    pub mime: Seq<char>,
    pub bytes: Seq<u8>,
}

/// The upload that a claimable entry asks for.
pub open spec fn job_for(e: EntryView) -> UploadJobView {
    UploadJobView { id: e.id, name: e.name, mime: e.mime, bytes: e.bytes->Some_0 }
}

/// The uploads to start for `s`: one per claimable entry, in collection order.
pub open spec fn upload_jobs(s: Seq<EntryView>) -> Seq<UploadJobView>
    decreases s.len(),
{
    if s.len() == 0 {
        Seq::empty()
    } else {
        let rest = upload_jobs(s.drop_last());
        if claimable(s.last()) {
            rest.push(job_for(s.last()))
        } else {
            rest
        }
    }
}

/// The derived confirmed-paths view: the remote paths of the uploaded
/// entries, in collection order.
pub open spec fn confirmed_paths(s: Seq<EntryView>) -> Seq<Seq<char>>
    decreases s.len(),
{
    if s.len() == 0 {
        Seq::empty()
    } else {
        let rest = confirmed_paths(s.drop_last());
        let e = s.last();
        if e.status is Uploaded && e.remote_path is Some {
            rest.push(e.remote_path->Some_0)
        } else {
            rest
        }
    }
}

/// An upload to hand to the remote storage service.
#[derive(Debug)]
pub struct UploadJob {
    pub id: u128,
    pub name: String,
    pub mime: String,
    pub bytes: Vec<u8>,
}

impl View for UploadJob {
    type V = UploadJobView;

    open spec fn view(&self) -> UploadJobView {
        UploadJobView { id: self.id, name: self.name@, mime: self.mime@, bytes: self.bytes@ }
    }
}

/// The ordered collection of attachments of one editing session.
pub struct AttachmentCollection {
    entries: Vec<AttachmentEntry>,
}

impl View for AttachmentCollection {
    type V = Seq<EntryView>;

    closed spec fn view(&self) -> Seq<EntryView> {
        self.entries@.map_values(|e: AttachmentEntry| e@)
    }
}

impl AttachmentCollection {
    pub open spec fn wf(&self) -> bool {
        collection_wf(self@)
    }

    /// An empty collection.
    pub fn new() -> (r: AttachmentCollection)
        ensures
            r@ == Seq::<EntryView>::empty(),
            r.wf(),
    {
        let r = AttachmentCollection { entries: Vec::new() };
        assert(r@ =~= Seq::<EntryView>::empty());
        r
    }

    /// Number of entries.
    pub fn len(&self) -> (r: usize)
        ensures
            r == self@.len(),
    {
        self.entries.len()
    }

    /// The entry at `i`, in display order.
    pub fn get(&self, i: usize) -> (r: &AttachmentEntry)
        requires
            i < self@.len(),
        ensures
            r@ == self@[i as int],
    {
        &self.entries[i]
    }

    /// Position of the entry with `id`, if there is one.
    pub fn position_of(&self, id: u128) -> (r: Option<usize>)
        requires
            self.wf(),
        ensures
            match r {
                Some(i) => i < self@.len() && self@[i as int].id == id && index_of(self@, id) == i,
                None => !has_id(self@, id),
            },
    {
        let mut i: usize = 0;
        while i < self.entries.len()
            invariant
                i <= self.entries@.len(),
                self@.len() == self.entries@.len(),
                self.wf(),
                forall|k: int| 0 <= k < i ==> self@[k].id != id,
            decreases self.entries@.len() - i,
        {
            if self.entries[i].id == id {
                assert(self@[i as int].id == id);
                assert(has_id(self@, id));
                proof {
                    let j = index_of(self@, id);
                    assert(self@[j].id == id);
                    if j != i as int {
                        assert(self@[j].id != self@[i as int].id);
                    }
                }
                return Some(i);
            }
            i = i + 1;
        }
        None
    }

    /// An equal, independent snapshot of the collection.
    pub fn snapshot(&self) -> (r: AttachmentCollection)
        ensures
            r@ == self@,
    {
        let mut entries: Vec<AttachmentEntry> = Vec::new();
        let mut i: usize = 0;
        while i < self.entries.len()
            invariant
                i <= self.entries@.len(),
                entries@.len() == i,
                forall|k: int| 0 <= k < i ==> entries@[k]@ == #[trigger] self.entries@[k]@,
            decreases self.entries@.len() - i,
        {
            entries.push(self.entries[i].duplicate());
            i = i + 1;
        }
        let r = AttachmentCollection { entries };
        assert(r@ =~= self@);
        r
    }

    /// Appends a new entry in status `Added`; an id already present is
    /// refused and leaves the collection as it was.
    pub fn add(&mut self, id: u128, name: String, mime: String)
        requires
            old(self).wf(),
        ensures
            final(self).wf(),
            final(self)@ == step(old(self)@, ActionView::Add(id, name@, mime@)),
    {
        match self.position_of(id) {
            Some(_) => {},
            None => {
                let ghost s = self@;
                self.entries.push(AttachmentEntry::new(id, name, mime));
                assert(self@ =~= s.push(new_entry(id, name@, mime@)));
                assert forall|i: int, j: int|
                    0 <= i < self@.len() && 0 <= j < self@.len() && i != j implies
                    #[trigger] self@[i].id != #[trigger] self@[j].id by {
                    if i == s.len() {
                        assert(s[j].id != id);
                    } else if j == s.len() {
                        assert(s[i].id != id);
                    }
                }
            },
        }
    }

    /// Takes the entry at `from` out and reinserts it at `to`; when either
    /// position is out of range nothing changes.
    pub fn move_entry(&mut self, from: usize, to: usize)
        requires
            old(self).wf(),
        ensures
            final(self).wf(),
            final(self)@ == moved(old(self)@, from as int, to as int),
    {
        let len = self.entries.len();
        if from < len && to < len {
            let ghost s = self@;
            let e = self.entries.remove(from);
            self.entries.insert(to, e);
            assert(self@ =~= s.remove(from as int).insert(to as int, s[from as int]));
            proof {
                lemma_moved_wf(s, from as int, to as int);
            }
        }
    }

    /// Drops the entry with `id`; nothing changes when there is none.
    pub fn remove(&mut self, id: u128)
        requires
            old(self).wf(),
        ensures
            final(self).wf(),
            final(self)@ == step(old(self)@, ActionView::Remove(id)),
    {
        match self.position_of(id) {
            Some(i) => {
                let ghost s = self@;
                self.entries.remove(i);
                assert(self@ =~= s.remove(i as int));
                assert forall|a: int, b: int|
                    0 <= a < self@.len() && 0 <= b < self@.len() && a != b implies
                    #[trigger] self@[a].id != #[trigger] self@[b].id by {
                    let a0 = if a < i { a } else { a + 1 };
                    let b0 = if b < i { b } else { b + 1 };
                    assert(s[a0].id != s[b0].id);
                }
                assert forall|k: int| 0 <= k < self@.len() && (#[trigger] self@[k].status is Uploaded)
                    implies self@[k].remote_path is Some by {
                    let k0 = if k < i { k } else { k + 1 };
                    assert(s[k0].status is Uploaded);
                }
                assert forall|k: int| 0 <= k < self@.len() && (#[trigger] self@[k].status is Loaded)
                    implies self@[k].bytes is Some by {
                    let k0 = if k < i { k } else { k + 1 };
                    assert(s[k0].status is Loaded);
                }
            },
            None => {},
        }
    }

    /// Applies an action addressed to `id` to the entry carrying it.
    fn update(&mut self, id: u128, a: AttachmentAction)
        requires
            old(self).wf(),
            target_of(a@) == Some(id),
        ensures
            final(self).wf(),
            final(self)@ == step(old(self)@, a@),
    {
        let ghost s = self@;
        let ghost av = a@;
        match self.position_of(id) {
            Some(i) => {
                self.entries[i].apply_to(a);
                assert forall|k: int| 0 <= k < s.len() && k != i implies
                    touched(#[trigger] s[k], av) == s[k] by {
                    assert(s[k].id != s[i as int].id);
                }
                assert(self@ =~= s.map_values(|e: EntryView| touched(e, av)));
            },
            None => {
                assert forall|k: int| 0 <= k < s.len() implies
                    touched(#[trigger] s[k], av) == s[k] by {
                    assert(s[k].id != id);
                }
                assert(self@ =~= s.map_values(|e: EntryView| touched(e, av)));
            },
        }
        proof {
            lemma_touched_wf(s, av);
        }
    }

    /// The derived confirmed-paths view: the remote paths of the uploaded
    /// entries, in collection order.
    pub fn confirmed_paths(&self) -> (r: Vec<String>)
        ensures
            string_views(r@) == confirmed_paths(self@),
    {
        let mut r: Vec<String> = Vec::new();
        let mut i: usize = 0;
        while i < self.entries.len()
            invariant
                i <= self.entries@.len(),
                self@.len() == self.entries@.len(),
                string_views(r@) == confirmed_paths(self@.subrange(0, i as int)),
            decreases self.entries@.len() - i,
        {
            let ghost before = r@;
            let e = &self.entries[i];
            assert(self@.subrange(0, i + 1).drop_last() =~= self@.subrange(0, i as int));
            assert(self@.subrange(0, i + 1).last() == e@);
            if matches!(e.status, EntryStatus::Uploaded) {
                match &e.remote_path {
                    Some(p) => {
                        r.push(p.clone());
                        assert(string_views(r@) =~= string_views(before).push(p@));
                    },
                    None => {},
                }
            }
            i = i + 1;
        }
        assert(self@.subrange(0, self@.len() as int) =~= self@);
        r
    }

    /// Claims, in one transition, the upload of every loaded entry whose
    /// upload has not been claimed yet, and returns those uploads in
    /// collection order. A claimed entry is never handed out again.
    pub fn claim_uploads(&mut self) -> (r: Vec<UploadJob>)
        requires
            old(self).wf(),
        ensures
            final(self).wf(),
            final(self)@ == old(self)@.map_values(|e: EntryView| claimed(e)),
            r@.map_values(|j: UploadJob| j@) == upload_jobs(old(self)@),
    {
        let ghost s = self@;
        let mut r: Vec<UploadJob> = Vec::new();
        let mut i: usize = 0;
        while i < self.entries.len()
            invariant
                i <= self.entries@.len(),
                self@.len() == s.len(),
                collection_wf(s),
                forall|k: int| 0 <= k < i ==> #[trigger] self@[k] == claimed(s[k]),
                forall|k: int| i <= k < s.len() ==> #[trigger] self@[k] == s[k],
                r@.map_values(|j: UploadJob| j@) == upload_jobs(s.subrange(0, i as int)),
            decreases self.entries@.len() - i,
        {
            let ghost before = r@.map_values(|j: UploadJob| j@);
            assert(s.subrange(0, i + 1).drop_last() =~= s.subrange(0, i as int));
            assert(s.subrange(0, i + 1).last() == s[i as int]);
            assert(self@[i as int] == s[i as int]);
            let id = self.entries[i].id;
            if matches!(self.entries[i].status, EntryStatus::Loaded) && !self.entries[i].upload_started {
                let bytes = match &self.entries[i].bytes {
                    Some(b) => {
                        let c = b.clone();
                        assert(c@ =~= b@);
                        c
                    },
                    None => {
                        assert(s[i as int].status is Loaded);
                        Vec::new()
                    },
                };
                let job = UploadJob {
                    id,
                    name: self.entries[i].name.clone(),
                    mime: self.entries[i].mime.clone(),
                    bytes,
                };
                r.push(job);
                assert(r@.map_values(|j: UploadJob| j@) =~= before.push(job_for(s[i as int])));
            }
            let ghost prev = self@;
            self.entries[i].apply_to(AttachmentAction::UploadStarted(id));
            assert(self@ =~= prev.update(i as int, claimed(s[i as int])));
            i = i + 1;
        }
        assert(s.subrange(0, s.len() as int) =~= s);
        assert(self@ =~= s.map_values(|e: EntryView| claimed(e)));
        proof {
            lemma_claimed_wf(s);
        }
        r
    }

    /// Applies one action in place.
    pub fn apply(&mut self, action: AttachmentAction)
        requires
            old(self).wf(),
        ensures
            final(self).wf(),
            final(self)@ == step(old(self)@, action@),
    {
        match action {
            AttachmentAction::Add(id, name, mime) => self.add(id, name, mime),
            AttachmentAction::Move(from, to) => self.move_entry(from, to),
            AttachmentAction::Remove(id) => self.remove(id),
            AttachmentAction::ReadStarted(id) => self.update(id, AttachmentAction::ReadStarted(id)),
            AttachmentAction::BytesLoaded(id, b) => self.update(id, AttachmentAction::BytesLoaded(id, b)),
            AttachmentAction::UploadStarted(id) => self.update(id, AttachmentAction::UploadStarted(id)),
            AttachmentAction::Uploaded(id, p) => self.update(id, AttachmentAction::Uploaded(id, p)),
            AttachmentAction::Failed(id, r) => self.update(id, AttachmentAction::Failed(id, r)),
        }
    }

    /// The collection after `action`, as a new snapshot; `self` is left as
    /// it was, so holders of the old snapshot keep reading it unchanged.
    pub fn reduce(&self, action: AttachmentAction) -> (r: AttachmentCollection)
        requires
            self.wf(),
        ensures
            r.wf(),
            r@ == step(self@, action@),
    {
        let mut r = self.snapshot();
        r.apply(action);
        r
    }
}

/// Every action keeps the invariant of a collection: ids stay unique,
/// loaded entries keep their bytes and uploaded entries their path.
pub proof fn lemma_step_wf(s: Seq<EntryView>, a: ActionView)
    requires
        collection_wf(s),
    ensures
        collection_wf(step(s, a)),
{
    let t = step(s, a);
    match a {
        ActionView::Add(id, name, mime) => {
            if !has_id(s, id) {
                assert forall|i: int, j: int| 0 <= i < t.len() && 0 <= j < t.len() && i != j implies
                    #[trigger] t[i].id != #[trigger] t[j].id by {
                    if i == s.len() {
                        assert(s[j].id != id);
                    } else if j == s.len() {
                        assert(s[i].id != id);
                    }
                }
                assert forall|k: int| 0 <= k < t.len() && (#[trigger] t[k].status is Uploaded) implies
                    t[k].remote_path is Some by {
                    if k < s.len() {
                        assert(t[k] == s[k]);
                    }
                }
                assert forall|k: int| 0 <= k < t.len() && (#[trigger] t[k].status is Loaded) implies
                    t[k].bytes is Some by {
                    if k < s.len() {
                        assert(t[k] == s[k]);
                    }
                }
            }
        },
        ActionView::Move(from, to) => {
            if 0 <= from < s.len() && 0 <= to < s.len() {
                lemma_moved_wf(s, from as int, to as int);
            }
        },
        ActionView::Remove(id) => {
            if has_id(s, id) {
                let r = index_of(s, id);
                assert(t == s.remove(r));
                assert forall|x: int, y: int| 0 <= x < t.len() && 0 <= y < t.len() && x != y implies
                    #[trigger] t[x].id != #[trigger] t[y].id by {
                    let x0 = if x < r { x } else { x + 1 };
                    let y0 = if y < r { y } else { y + 1 };
                    assert(s[x0].id != s[y0].id);
                }
                assert forall|k: int| 0 <= k < t.len() && (#[trigger] t[k].status is Uploaded) implies
                    t[k].remote_path is Some by {
                    let k0 = if k < r { k } else { k + 1 };
                    assert(s[k0].status is Uploaded);
                }
                assert forall|k: int| 0 <= k < t.len() && (#[trigger] t[k].status is Loaded) implies
                    t[k].bytes is Some by {
                    let k0 = if k < r { k } else { k + 1 };
                    assert(s[k0].status is Loaded);
                }
            }
        },
        _ => {
            lemma_touched_wf(s, a);
        },
    }
}

/// With unique ids, the entry found at `i` is the one `index_of` names.
pub proof fn lemma_index_of_unique(s: Seq<EntryView>, id: u128, i: int)
    requires
        ids_unique(s),
        0 <= i < s.len(),
        s[i].id == id,
    ensures
        has_id(s, id),
        index_of(s, id) == i,
{
    assert(has_id(s, id));
    let j = index_of(s, id);
    if j != i {
        assert(s[j].id != s[i].id);
    }
}

/// Moving an entry keeps the invariant.
proof fn lemma_moved_wf(s: Seq<EntryView>, from: int, to: int)
    requires
        collection_wf(s),
        0 <= from < s.len(),
        0 <= to < s.len(),
    ensures
        collection_wf(moved(s, from, to)),
{
    let t = moved(s, from, to);
    let src = |k: int| if k == to { from } else {
        let k1 = if k < to { k } else { k - 1 };
        if k1 < from { k1 } else { k1 + 1 }
    };
    assert forall|k: int| 0 <= k < t.len() implies t[k] == s[src(k)] && 0 <= src(k) < s.len() by {}
    assert forall|a: int, b: int| 0 <= a < t.len() && 0 <= b < t.len() && a != b implies
        #[trigger] t[a].id != #[trigger] t[b].id by {
        assert(t[a] == s[src(a)]);
        assert(t[b] == s[src(b)]);
        assert(src(a) != src(b));
    }
    assert forall|k: int| 0 <= k < t.len() && (#[trigger] t[k].status is Uploaded) implies
        t[k].remote_path is Some by {
        assert(t[k] == s[src(k)]);
    }
    assert forall|k: int| 0 <= k < t.len() && (#[trigger] t[k].status is Loaded) implies
        t[k].bytes is Some by {
        assert(t[k] == s[src(k)]);
    }
}

/// Claiming uploads keeps the invariant.
proof fn lemma_claimed_wf(s: Seq<EntryView>)
    requires
        collection_wf(s),
    ensures
        collection_wf(s.map_values(|e: EntryView| claimed(e))),
{
    let t = s.map_values(|e: EntryView| claimed(e));
    assert forall|i: int, j: int| 0 <= i < t.len() && 0 <= j < t.len() && i != j implies
        #[trigger] t[i].id != #[trigger] t[j].id by {
        assert(t[i].id == s[i].id);
        assert(t[j].id == s[j].id);
    }
    assert forall|k: int| 0 <= k < t.len() && (#[trigger] t[k].status is Uploaded) implies
        t[k].remote_path is Some by {
        assert(t[k] == claimed(s[k]));
    }
    assert forall|k: int| 0 <= k < t.len() && (#[trigger] t[k].status is Loaded) implies
        t[k].bytes is Some by {
        assert(t[k] == claimed(s[k]));
    }
}

/// An id-addressed action keeps the invariant.
proof fn lemma_touched_wf(s: Seq<EntryView>, a: ActionView)
    requires
        collection_wf(s),
        target_of(a) is Some,
    ensures
        collection_wf(step(s, a)),
{
    let t = step(s, a);
    assert(t == s.map_values(|e: EntryView| touched(e, a)));
    assert forall|i: int, j: int| 0 <= i < t.len() && 0 <= j < t.len() && i != j implies
        #[trigger] t[i].id != #[trigger] t[j].id by {
        assert(t[i].id == s[i].id);
        assert(t[j].id == s[j].id);
    }
    assert forall|k: int| 0 <= k < t.len() && (#[trigger] t[k].status is Uploaded) implies
        t[k].remote_path is Some by {
        assert(t[k] == touched(s[k], a));
    }
    assert forall|k: int| 0 <= k < t.len() && (#[trigger] t[k].status is Loaded) implies
        t[k].bytes is Some by {
        assert(t[k] == touched(s[k], a));
    }
}

} // verus!
