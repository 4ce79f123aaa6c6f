//! The upload of one document folder, as a state machine: the caller
//! performs each action it asks for (read a file, call the remote store)
//! and reports the outcome back as an event.
//!
//! A folder goes `ReadingDescription -> CreatingContainer -> ListingFolder
//! -> UploadingFiles -> Done`; any failure leads to `Failed`, which, like
//! `Done`, is final.
use vstd::prelude::*;

use crate::description::{parse_description, Description, FormatError};

verus! {

/// Name of the file in a document folder that describes it; it is read,
/// not uploaded.
pub const DESCRIPTION_FILE: &'static str = "description.txt";

/// Why one document folder could not be uploaded.
#[derive(Clone, Copy, Debug, PartialEq, Eq, Structural)]
pub enum UploadError {
    /// A local file or the folder listing could not be read.
    Io,
    /// The description text is malformed.
    Format(FormatError),
    /// The remote store refused to create the container or to take a file.
    Remote,
}

/// Where the upload of a folder stands.
#[derive(Clone, Copy, Debug, PartialEq, Eq, Structural)]
pub enum Phase {
    ReadingDescription,
    CreatingContainer,
    ListingFolder,
    UploadingFiles,
    Done,
    Failed(UploadError),
}

/// The outcome of the pending action, as the caller reports it.
pub enum UploadEvent {
    /// The description file holds this text.
    DescriptionRead(String),
    DescriptionUnreadable,
    /// The remote store created the container under this identifier.
    ContainerCreated(String),
    ContainerRefused,
    /// The folder holds entries of these names.
    FolderListed(Vec<String>),
    FolderUnreadable,
    /// The remote store answered the file upload; `true` for a success status.
    FileUploaded(bool),
    FileUnreadable,
}

/// What the caller is to do next.
pub enum UploadAction {
    /// Read the folder's description file.
    ReadDescription,
    /// Create a remote folder-type container of this name.
    CreateContainer { name: String },
    /// List the entries of the folder.
    ListFolder,
    /// Upload the folder's entry `file` under the remote name `name`, as a
    /// child of the container `parent`.
    UploadFile { file: String, name: String, parent: String },
    /// The folder is uploaded into the container of this identifier.
    Finish { container: String },
    /// The folder could not be uploaded.
    Fail { error: UploadError },
}

/// The abstract value of an `UploadEvent`.
pub enum EventModel {
    DescriptionRead(Seq<char>),
    DescriptionUnreadable,
    ContainerCreated(Seq<char>),
    ContainerRefused,
    FolderListed(Seq<Seq<char>>),
    FolderUnreadable,
    FileUploaded(bool),
    FileUnreadable,
}

/// The abstract value of an `UploadAction`.
pub enum ActionModel {
    ReadDescription,
    CreateContainer(Seq<char>),
    ListFolder,
    UploadFile { file: Seq<char>, name: Seq<char>, parent: Seq<char> },
    Finish(Seq<char>),
    Fail(UploadError),
}

impl View for UploadEvent {
    type V = EventModel;

    open spec fn view(&self) -> EventModel {
        match self {
            UploadEvent::DescriptionRead(t) => EventModel::DescriptionRead(t@),
            UploadEvent::DescriptionUnreadable => EventModel::DescriptionUnreadable,
            UploadEvent::ContainerCreated(id) => EventModel::ContainerCreated(id@),
            UploadEvent::ContainerRefused => EventModel::ContainerRefused,
            UploadEvent::FolderListed(entries) => EventModel::FolderListed(entries.deep_view()),
            UploadEvent::FolderUnreadable => EventModel::FolderUnreadable,
            UploadEvent::FileUploaded(ok) => EventModel::FileUploaded(*ok),
            UploadEvent::FileUnreadable => EventModel::FileUnreadable,
        }
    }
}

impl View for UploadAction {
    type V = ActionModel;

    open spec fn view(&self) -> ActionModel {
        match self {
            UploadAction::ReadDescription => ActionModel::ReadDescription,
            UploadAction::CreateContainer { name } => ActionModel::CreateContainer(name@),
            UploadAction::ListFolder => ActionModel::ListFolder,
            UploadAction::UploadFile { file, name, parent } => ActionModel::UploadFile {
                file: file@,
                name: name@,
                parent: parent@,
            },
            UploadAction::Finish { container } => ActionModel::Finish(container@),
            UploadAction::Fail { error } => ActionModel::Fail(*error),
        }
    }
}

/// The abstract state of a folder's upload.
pub struct UploadModel {
    pub phase: Phase,
    /// The document's name, from its description.
    pub name: Seq<char>,
    /// The identifier of the remote container.
    pub container: Seq<char>,
    /// The entries to upload, in listing order.
    pub files: Seq<Seq<char>>,
    /// How many of `files` are uploaded.
    pub uploaded: nat,
}

impl UploadModel {
    pub open spec fn wf(self) -> bool {
        self.phase == Phase::UploadingFiles ==> self.uploaded < self.files.len()
    }
}

/// The entries of a listing that are uploaded: all but the description file.
pub open spec fn uploadable(entries: Seq<Seq<char>>) -> Seq<Seq<char>> {
    entries.filter(|e: Seq<char>| e != DESCRIPTION_FILE@)
}

/// The state in which every upload starts.
pub open spec fn initial_model() -> UploadModel {
    UploadModel {
        phase: Phase::ReadingDescription,
        name: Seq::empty(),
        container: Seq::empty(),
        files: Seq::empty(),
        uploaded: 0,
    }
}

/// `m` moved to `phase`.
pub open spec fn with_phase(m: UploadModel, phase: Phase) -> UploadModel {
    UploadModel { phase, ..m }
}

/// The state after the caller reports `e` in state `m`. An event that does
/// not answer the pending action leaves the state as it is.
pub open spec fn next_state(m: UploadModel, e: EventModel) -> UploadModel {
    match (m.phase, e) {
        (Phase::ReadingDescription, EventModel::DescriptionRead(text)) => match parse_description(
            text,
        ) {
            Ok(d) => UploadModel { phase: Phase::CreatingContainer, name: d.name, ..m },
            Err(f) => with_phase(m, Phase::Failed(UploadError::Format(f))),
        },
        (Phase::ReadingDescription, EventModel::DescriptionUnreadable) => with_phase(
            m,
            Phase::Failed(UploadError::Io),
        ),
        (Phase::CreatingContainer, EventModel::ContainerCreated(id)) => UploadModel {
            phase: Phase::ListingFolder,
            container: id,
            ..m
        },
        (Phase::CreatingContainer, EventModel::ContainerRefused) => with_phase(
            m,
            Phase::Failed(UploadError::Remote),
        ),
        (Phase::ListingFolder, EventModel::FolderListed(entries)) => {
            let files = uploadable(entries);
            UploadModel {
                phase: if files.len() == 0 {
                    Phase::Done
                } else {
                    Phase::UploadingFiles
                },
                files,
                uploaded: 0,
                ..m
            }
        },
        (Phase::ListingFolder, EventModel::FolderUnreadable) => with_phase(
            m,
            Phase::Failed(UploadError::Io),
        ),
        (Phase::UploadingFiles, EventModel::FileUploaded(true)) => UploadModel {
            phase: if m.uploaded + 1 == m.files.len() {
                Phase::Done
            } else {
                Phase::UploadingFiles
            },
            uploaded: m.uploaded + 1,
            ..m
        },
        (Phase::UploadingFiles, EventModel::FileUploaded(false)) => with_phase(
            m,
            Phase::Failed(UploadError::Remote),
        ),
        (Phase::UploadingFiles, EventModel::FileUnreadable) => with_phase(
            m,
            Phase::Failed(UploadError::Io),
        ),
        _ => m,
    }
}

/// The action that state `m` asks for.
pub open spec fn pending(m: UploadModel) -> ActionModel {
    match m.phase {
        Phase::ReadingDescription => ActionModel::ReadDescription,
        Phase::CreatingContainer => ActionModel::CreateContainer(m.name),
        Phase::ListingFolder => ActionModel::ListFolder,
        Phase::UploadingFiles => ActionModel::UploadFile {
            file: m.files[m.uploaded as int],
            name: m.name,
            parent: m.container,
        },
        Phase::Done => ActionModel::Finish(m.container),
        Phase::Failed(e) => ActionModel::Fail(e),
    }
}

/// The state after the events `events`, from `m`.
pub open spec fn run(m: UploadModel, events: Seq<EventModel>) -> UploadModel
    decreases events.len(),
{
    if events.len() == 0 {
        m
    } else {
        run(next_state(m, events[0]), events.drop_first())
    }
}

/// The actions asked for after each of the events `events`, from `m`.
pub open spec fn actions(m: UploadModel, events: Seq<EventModel>) -> Seq<ActionModel>
    decreases events.len(),
{
    if events.len() == 0 {
        Seq::empty()
    } else {
        let n = next_state(m, events[0]);
        seq![pending(n)] + actions(n, events.drop_first())
    }
}

/// `n` successful file uploads in a row.
pub open spec fn successes(n: nat) -> Seq<EventModel> {
    Seq::new(n, |i: int| EventModel::FileUploaded(true))
}

/// The upload of the `i`th file of state `m`.
pub open spec fn upload_of(m: UploadModel, i: int) -> ActionModel {
    ActionModel::UploadFile { file: m.files[i], name: m.name, parent: m.container }
}

/// Each event is answered by one action.
pub proof fn lemma_actions_len(m: UploadModel, events: Seq<EventModel>)
    ensures
        actions(m, events).len() == events.len(),
    decreases events.len(),
{
    if events.len() > 0 {
        lemma_actions_len(next_state(m, events[0]), events.drop_first());
    }
}

/// Reporting `a` and then `b` is reporting `a + b`.
pub proof fn lemma_run_concat(m: UploadModel, a: Seq<EventModel>, b: Seq<EventModel>)
    ensures
        run(m, a + b) == run(run(m, a), b),
        actions(m, a + b) == actions(m, a) + actions(run(m, a), b),
    decreases a.len(),
{
    if a.len() == 0 {
        assert(a + b =~= b);
        assert(actions(m, a) + actions(m, b) =~= actions(m, b));
    } else {
        let n = next_state(m, a[0]);
        assert((a + b)[0] == a[0]);
        assert((a + b).drop_first() =~= a.drop_first() + b);
        lemma_run_concat(n, a.drop_first(), b);
        assert(actions(m, a + b) =~= actions(m, a) + actions(run(m, a), b));
    }
}

/// A failed upload stays failed and keeps reporting its failure.
pub proof fn lemma_failed_is_final(m: UploadModel, events: Seq<EventModel>)
    requires
        m.phase is Failed,
    ensures
        run(m, events) == m,
        actions(m, events) == Seq::new(events.len(), |i: int| pending(m)),
    decreases events.len(),
{
    if events.len() > 0 {
        assert(next_state(m, events[0]) == m);
        lemma_failed_is_final(m, events.drop_first());
        assert(actions(m, events) =~= Seq::new(events.len(), |i: int| pending(m)));
    } else {
        assert(actions(m, events) =~= Seq::new(events.len(), |i: int| pending(m)));
    }
}

/// `k` successful uploads that leave a file to go each ask for the next file.
proof fn lemma_successes(m: UploadModel, k: nat)
    requires
        m.phase == Phase::UploadingFiles,
        m.uploaded + k < m.files.len(),
    ensures
        run(m, successes(k)) == (UploadModel { uploaded: m.uploaded + k, ..m }),
        actions(m, successes(k)) == Seq::new(k, |i: int| upload_of(m, m.uploaded + 1 + i)),
    decreases k,
{
    if k == 0 {
        assert(actions(m, successes(k)) =~= Seq::new(k, |i: int| upload_of(m, m.uploaded + 1 + i)));
        assert(m == (UploadModel { uploaded: m.uploaded + k, ..m }));
    } else {
        let n = next_state(m, EventModel::FileUploaded(true));
        assert(successes(k)[0] == EventModel::FileUploaded(true));
        assert(successes(k).drop_first() =~= successes((k - 1) as nat));
        lemma_successes(n, (k - 1) as nat);
        assert(pending(n) == upload_of(m, m.uploaded + 1int));
        assert(actions(m, successes(k)) =~= Seq::new(k, |i: int| upload_of(m, m.uploaded + 1 + i)));
    }
}

/// The events of a folder whose description reads as `text`, whose container
/// is created as `container` and whose listing is `entries`.
pub open spec fn opening(text: Seq<char>, container: Seq<char>, entries: Seq<Seq<char>>) -> Seq<
    EventModel,
> {
    seq![
        EventModel::DescriptionRead(text),
        EventModel::ContainerCreated(container),
        EventModel::FolderListed(entries),
    ]
}

/// The state and actions after `opening`, for a well-formed description.
proof fn lemma_opening(text: Seq<char>, container: Seq<char>, entries: Seq<Seq<char>>)
    requires
        parse_description(text) is Ok,
    ensures
        ({
            let name = parse_description(text)->Ok_0.name;
            let files = uploadable(entries);
            let m = run(initial_model(), opening(text, container, entries));
            &&& m.name == name
            &&& m.container == container
            &&& m.files == files
            &&& m.uploaded == 0
            &&& m.phase == if files.len() == 0 {
                Phase::Done
            } else {
                Phase::UploadingFiles
            }
            &&& actions(initial_model(), opening(text, container, entries)) == seq![
                ActionModel::CreateContainer(name),
                ActionModel::ListFolder,
                pending(m),
            ]
        }),
{
    let e = opening(text, container, entries);
    let m1 = next_state(initial_model(), e[0]);
    let m2 = next_state(m1, e[1]);
    let m3 = next_state(m2, e[2]);
    assert(e.drop_first() =~= seq![e[1], e[2]]);
    assert(seq![e[1], e[2]].drop_first() =~= seq![e[2]]);
    assert(seq![e[2]].drop_first() =~= Seq::<EventModel>::empty());
    assert(run(m3, Seq::<EventModel>::empty()) == m3);
    assert(run(m2, seq![e[2]]) == m3);
    assert(run(m1, seq![e[1], e[2]]) == m3);
    assert(run(initial_model(), e) == m3);
    assert(actions(m3, Seq::<EventModel>::empty()) =~= Seq::<ActionModel>::empty());
    assert(actions(m2, seq![e[2]]) =~= seq![pending(m3)]);
    assert(actions(m1, seq![e[1], e[2]]) =~= seq![pending(m2), pending(m3)]);
}

/// A folder whose description reads and whose every upload succeeds takes
/// one container creation, then one upload per entry other than the
/// description file, in listing order, each under the document's name and
/// into that container, and ends done.
pub proof fn lemma_all_uploads_succeed(
    text: Seq<char>,
    container: Seq<char>,
    entries: Seq<Seq<char>>,
)
    requires
        parse_description(text) is Ok,
    ensures
        ({
            let name = parse_description(text)->Ok_0.name;
            let files = uploadable(entries);
            let events = opening(text, container, entries) + successes(files.len());
            &&& run(initial_model(), events).phase == Phase::Done
            &&& actions(initial_model(), events) == seq![
                ActionModel::CreateContainer(name),
                ActionModel::ListFolder,
            ] + Seq::new(
                files.len(),
                |i: int| ActionModel::UploadFile { file: files[i], name, parent: container },
            ) + seq![ActionModel::Finish(container)]
        }),
{
    let name = parse_description(text)->Ok_0.name;
    let files = uploadable(entries);
    let n = files.len();
    let open = opening(text, container, entries);
    let uploads = Seq::new(
        n,
        |i: int| ActionModel::UploadFile { file: files[i], name, parent: container },
    );
    lemma_opening(text, container, entries);
    lemma_run_concat(initial_model(), open, successes(n));
    let m3 = run(initial_model(), open);
    if n == 0 {
        assert(successes(n) =~= Seq::<EventModel>::empty());
        assert(actions(m3, successes(n)) =~= Seq::<ActionModel>::empty());
        assert(actions(initial_model(), open + successes(n)) =~= seq![
            ActionModel::CreateContainer(name),
            ActionModel::ListFolder,
        ] + uploads + seq![ActionModel::Finish(container)]);
    } else {
        let last = seq![EventModel::FileUploaded(true)];
        assert(successes(n) =~= successes((n - 1) as nat) + last);
        lemma_run_concat(m3, successes((n - 1) as nat), last);
        lemma_successes(m3, (n - 1) as nat);
        let m4 = run(m3, successes((n - 1) as nat));
        let m5 = next_state(m4, EventModel::FileUploaded(true));
        assert(last.drop_first() =~= Seq::<EventModel>::empty());
        assert(last[0] == EventModel::FileUploaded(true));
        assert(run(m5, Seq::<EventModel>::empty()) == m5);
        assert(actions(m5, Seq::<EventModel>::empty()) =~= Seq::<ActionModel>::empty());
        assert(run(m4, last) == m5);
        assert(actions(m4, last) =~= seq![ActionModel::Finish(container)]);
        assert(actions(initial_model(), open + successes(n)) =~= seq![
            ActionModel::CreateContainer(name),
            ActionModel::ListFolder,
        ] + uploads + seq![ActionModel::Finish(container)]);
    }
}

/// Where the remote store refuses a file after `k` successful uploads, the
/// container of the folder has been created first, the folder fails with a
/// remote error, and no action after the refusal uploads anything, whatever
/// is reported later.
pub proof fn lemma_refused_upload_stops(
    text: Seq<char>,
    container: Seq<char>,
    entries: Seq<Seq<char>>,
    k: nat,
    later: Seq<EventModel>,
)
    requires
        parse_description(text) is Ok,
        k < uploadable(entries).len(),
    ensures
        ({
            let name = parse_description(text)->Ok_0.name;
            let events = opening(text, container, entries) + successes(k) + seq![
                EventModel::FileUploaded(false),
            ] + later;
            let acts = actions(initial_model(), events);
            &&& acts.len() == events.len()
            &&& acts[0] == ActionModel::CreateContainer(name)
            &&& run(initial_model(), events).phase == Phase::Failed(UploadError::Remote)
            &&& forall|i: int|
                k + 3 <= i < acts.len() ==> acts[i] == ActionModel::Fail(UploadError::Remote)
        }),
{
    let open = opening(text, container, entries);
    let refusal = seq![EventModel::FileUploaded(false)];
    lemma_opening(text, container, entries);
    let m3 = run(initial_model(), open);
    lemma_successes(m3, k);
    let m4 = run(m3, successes(k));
    let f = next_state(m4, EventModel::FileUploaded(false));
    assert(refusal.drop_first() =~= Seq::<EventModel>::empty());
    assert(refusal[0] == EventModel::FileUploaded(false));
    assert(run(f, Seq::<EventModel>::empty()) == f);
    assert(actions(f, Seq::<EventModel>::empty()) =~= Seq::<ActionModel>::empty());
    assert(run(m4, refusal) == f);
    assert(actions(m4, refusal) =~= seq![pending(f)]);
    lemma_failed_is_final(f, later);
    lemma_run_concat(initial_model(), open, successes(k));
    lemma_run_concat(initial_model(), open + successes(k), refusal);
    lemma_run_concat(initial_model(), open + successes(k) + refusal, later);
    let events = open + successes(k) + refusal + later;
    lemma_actions_len(initial_model(), events);
    lemma_actions_len(initial_model(), open + successes(k));
    let acts = actions(initial_model(), events);
    assert(acts[0] == ActionModel::CreateContainer(parse_description(text)->Ok_0.name));
    assert forall|i: int| k + 3 <= i < acts.len() implies acts[i] == ActionModel::Fail(
        UploadError::Remote,
    ) by {
        if i == k + 3 {
            assert(acts[i] == pending(f));
        } else {
            assert(acts[i] == actions(f, later)[i - k - 4]);
        }
    }
}

/// The upload of one document folder.
pub struct DocumentUpload {
    phase: Phase,
    name: String,
    container: String,
    files: Vec<String>,
    uploaded: usize,
}

impl View for DocumentUpload {
    type V = UploadModel;

    closed spec fn view(&self) -> UploadModel {
        UploadModel {
            phase: self.phase,
            name: self.name@,
            container: self.container@,
            files: self.files.deep_view(),
            uploaded: self.uploaded as nat,
        }
    }
}

/// The entries of a listing that are uploaded.
fn uploadable_files(entries: &Vec<String>) -> (r: Vec<String>)
    ensures
        r.deep_view() == uploadable(entries.deep_view()),
{
    let description = String::from_str(DESCRIPTION_FILE);
    let mut files: Vec<String> = Vec::new();
    let mut i: usize = 0;
    while i < entries.len()
        invariant
            i <= entries.len(),
            description@ == DESCRIPTION_FILE@,
            files.deep_view() == uploadable(entries.deep_view().take(i as int)),
        decreases entries.len() - i,
    {
        let entry = &entries[i];
        let ghost before = files.deep_view();
        if !entry.eq(&description) {
            files.push(entry.clone());
            proof {
                assert(files.deep_view() =~= before.push(entry@));
            }
        }
        proof {
            reveal(Seq::filter);
            let prefix = entries.deep_view().take(i + 1);
            assert(prefix.drop_last() =~= entries.deep_view().take(i as int));
            assert(prefix.last() == entry@);
        }
        i = i + 1;
    }
    proof {
        assert(entries.deep_view().take(i as int) =~= entries.deep_view());
    }
    files
}

impl DocumentUpload {
    /// A folder's upload, before anything is read.
    pub fn new() -> (r: DocumentUpload)
        ensures
            r@ == initial_model(),
    {
        let r = DocumentUpload {
            phase: Phase::ReadingDescription,
            name: String::new(),
            container: String::new(),
            files: Vec::new(),
            uploaded: 0,
        };
        proof {
            assert(r@.files =~= Seq::<Seq<char>>::empty());
        }
        r
    }

    /// Where the upload stands.
    pub fn phase(&self) -> (r: Phase)
        ensures
            r == self@.phase,
    {
        self.phase
    }

    /// The action that the upload asks for now.
    pub fn pending_action(&self) -> (r: UploadAction)
        requires
            self@.wf(),
        ensures
            r@ == pending(self@),
    {
        match self.phase {
            Phase::ReadingDescription => UploadAction::ReadDescription,
            Phase::CreatingContainer => UploadAction::CreateContainer { name: self.name.clone() },
            Phase::ListingFolder => UploadAction::ListFolder,
            Phase::UploadingFiles => UploadAction::UploadFile {
                file: self.files[self.uploaded].clone(),
                name: self.name.clone(),
                parent: self.container.clone(),
            },
            Phase::Done => UploadAction::Finish { container: self.container.clone() },
            Phase::Failed(e) => UploadAction::Fail { error: e },
        }
    }

    /// Takes in the outcome of the pending action and returns the next one.
    pub fn step(&mut self, event: UploadEvent) -> (r: UploadAction)
        requires
            old(self)@.wf(),
        ensures
            final(self)@ == next_state(old(self)@, event@),
            final(self)@.wf(),
            r@ == pending(final(self)@),
    {
        match event {
            UploadEvent::DescriptionRead(text) => {
                if self.phase == Phase::ReadingDescription {
                    match Description::parse(text.as_str()) {
                        Ok(d) => {
                            self.name = d.name;
                            self.phase = Phase::CreatingContainer;
                        },
                        Err(f) => {
                            self.phase = Phase::Failed(UploadError::Format(f));
                        },
                    }
                }
            },
            UploadEvent::DescriptionUnreadable => {
                if self.phase == Phase::ReadingDescription {
                    self.phase = Phase::Failed(UploadError::Io);
                }
            },
            UploadEvent::ContainerCreated(id) => {
                if self.phase == Phase::CreatingContainer {
                    self.container = id;
                    self.phase = Phase::ListingFolder;
                }
            },
            UploadEvent::ContainerRefused => {
                if self.phase == Phase::CreatingContainer {
                    self.phase = Phase::Failed(UploadError::Remote);
                }
            },
            UploadEvent::FolderListed(entries) => {
                if self.phase == Phase::ListingFolder {
                    self.files = uploadable_files(&entries);
                    self.uploaded = 0;
                    self.phase = if self.files.len() == 0 {
                        Phase::Done
                    } else {
                        Phase::UploadingFiles
                    };
                }
            },
            UploadEvent::FolderUnreadable => {
                if self.phase == Phase::ListingFolder {
                    self.phase = Phase::Failed(UploadError::Io);
                }
            },
            UploadEvent::FileUploaded(ok) => {
                if self.phase == Phase::UploadingFiles {
                    if ok {
                        assert(self.files.deep_view().len() == self.files.len());
                        self.uploaded = self.uploaded + 1;
                        if self.uploaded == self.files.len() {
                            self.phase = Phase::Done;
                        }
                    } else {
                        self.phase = Phase::Failed(UploadError::Remote);
                    }
                }
            },
            UploadEvent::FileUnreadable => {
                if self.phase == Phase::UploadingFiles {
                    self.phase = Phase::Failed(UploadError::Io);
                }
            },
        }
        self.pending_action()
    }
}

} // verus!
