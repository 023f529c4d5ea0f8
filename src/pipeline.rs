//! The ingestion pipeline as a state machine. The host reads the multipart
//! stream and performs the file writes; the machine takes each outcome as an
//! event and answers with the next thing to do.
use vstd::prelude::*;
use crate::naming::{fresh_identifier, is_hyphenated_uuid, is_plain_component, joined, lemma_uuid_is_plain_component};
use crate::upload::{
    classify_with, needs_identifier, record_of, stored_name_of, MultipartResponse, Part, PartModel,
    RecordModel, WriteRequest,
};

verus! {

#[derive(Debug, Clone, Copy, PartialEq, Eq, Structural)]
pub enum Phase {
    /// Waiting for the next complete part, or for the end of the stream.
    AwaitingPart,
    /// Waiting for the outcome of the file write the last part asked for.
    Writing,
    /// The stream ended and the records were handed out.
    Ended,
    /// The ingestion was aborted.
    Failed,
}

/// Why an ingestion was aborted.
#[derive(Debug, Clone)]
pub enum UploadError {
    /// Reading or decoding the multipart stream failed.
    Stream(String),
    /// Creating or writing a file failed.
    Persistence(String),
    /// An event came that the current phase does not expect.
    Malformed,
}

pub enum ErrorModel {
    Stream(Seq<char>),
    Persistence(Seq<char>),
    Malformed,
}

impl View for UploadError {
    type V = ErrorModel;

    open spec fn view(&self) -> ErrorModel {
        match self {
            UploadError::Stream(m) => ErrorModel::Stream(m@),
            UploadError::Persistence(m) => ErrorModel::Persistence(m@),
            UploadError::Malformed => ErrorModel::Malformed,
        }
    }
}

impl UploadError {
    /// A human-readable description of the error.
    pub fn message(&self) -> (r: String)
        ensures
            self matches UploadError::Stream(m) ==> r@ == m@,
            self matches UploadError::Persistence(m) ==> r@ == m@,
            self matches UploadError::Malformed ==> r@ == "malformed multipart stream"@,
    {
        match self {
            UploadError::Stream(m) => m.clone(),
            UploadError::Persistence(m) => m.clone(),
            UploadError::Malformed => String::from_str("malformed multipart stream"),
        }
    }
}

/// What the host reports to the machine.
pub enum Event {
    /// A part was read whole.
    Part(Part),
    /// The stream ended cleanly.
    StreamEnded,
    /// Reading the stream failed.
    StreamFailed(String),
    /// The requested file write succeeded.
    Written,
    /// The requested file write failed.
    WriteFailed(String),
}

pub enum EventModel {
    Part(PartModel),
    StreamEnded,
    StreamFailed(Seq<char>),
    Written,
    WriteFailed(Seq<char>),
}

impl View for Event {
    type V = EventModel;

    open spec fn view(&self) -> EventModel {
        match self {
            Event::Part(p) => EventModel::Part(p@),
            Event::StreamEnded => EventModel::StreamEnded,
            Event::StreamFailed(m) => EventModel::StreamFailed(m@),
            Event::Written => EventModel::Written,
            Event::WriteFailed(m) => EventModel::WriteFailed(m@),
        }
    }
}

/// What the machine asks the host to do next.
pub enum Action {
    /// Read the next part from the stream.
    ReadNext,
    /// Create the file and write the bytes, off the request's own task.
    Write(WriteRequest),
    /// Ingestion succeeded with these records, in arrival order.
    Finish(Vec<MultipartResponse>),
    /// Ingestion failed; nothing is returned but the error.
    Abort(UploadError),
}

pub enum ActionModel {
    ReadNext,
    Write { path: Seq<char>, bytes: Seq<u8> },
    Finish(Seq<RecordModel>),
    Abort(ErrorModel),
}

pub open spec fn records_view(v: Seq<MultipartResponse>) -> Seq<RecordModel> {
    v.map_values(|r: MultipartResponse| r@)
}

impl View for Action {
    type V = ActionModel;

    open spec fn view(&self) -> ActionModel {
        match self {
            Action::ReadNext => ActionModel::ReadNext,
            Action::Write(w) => ActionModel::Write { path: w.path@, bytes: w.bytes@ },
            Action::Finish(v) => ActionModel::Finish(records_view(v@)),
            Action::Abort(e) => ActionModel::Abort(e@),
        }
    }
}

/// One request's ingestion: the destination directory, the records so far in
/// arrival order, and the phase.
pub struct Ingestion {
    pub destination_dir: String,
    pub records: Vec<MultipartResponse>,
    pub phase: Phase,
}

pub struct IngestionModel {
    pub dir: Seq<char>,
    pub records: Seq<RecordModel>,
    pub phase: Phase,
}

impl View for Ingestion {
    type V = IngestionModel;

    open spec fn view(&self) -> IngestionModel {
        IngestionModel {
            dir: self.destination_dir@,
            records: records_view(self.records@),
            phase: self.phase,
        }
    }
}

pub open spec fn with_phase(s: IngestionModel, phase: Phase) -> IngestionModel {
    IngestionModel { dir: s.dir, records: s.records, phase }
}

/// The machine's answer to one event; `fresh` is the identifier a file part
/// without a declared filename is stored under.
pub open spec fn step_spec(s: IngestionModel, e: EventModel, fresh: Seq<char>) -> (IngestionModel, ActionModel) {
    let malformed = (with_phase(s, Phase::Failed), ActionModel::Abort(ErrorModel::Malformed));
    match e {
        EventModel::Part(p) => if s.phase == Phase::AwaitingPart {
            let records = s.records.push(record_of(p, fresh));
            if p.content_type.is_some() {
                (
                    IngestionModel { dir: s.dir, records, phase: Phase::Writing },
                    ActionModel::Write {
                        path: joined(s.dir, stored_name_of(p.filename, fresh)),
                        bytes: p.bytes,
                    },
                )
            } else {
                (IngestionModel { dir: s.dir, records, phase: Phase::AwaitingPart }, ActionModel::ReadNext)
            }
        } else {
            malformed
        },
        EventModel::StreamEnded => if s.phase == Phase::AwaitingPart {
            (
                IngestionModel { dir: s.dir, records: Seq::empty(), phase: Phase::Ended },
                ActionModel::Finish(s.records),
            )
        } else {
            malformed
        },
        EventModel::StreamFailed(m) => if s.phase == Phase::AwaitingPart || s.phase == Phase::Writing {
            (with_phase(s, Phase::Failed), ActionModel::Abort(ErrorModel::Stream(m)))
        } else {
            malformed
        },
        EventModel::Written => if s.phase == Phase::Writing {
            (with_phase(s, Phase::AwaitingPart), ActionModel::ReadNext)
        } else {
            malformed
        },
        EventModel::WriteFailed(m) => if s.phase == Phase::Writing {
            (with_phase(s, Phase::Failed), ActionModel::Abort(ErrorModel::Persistence(m)))
        } else {
            malformed
        },
    }
}

/// Whether answering the event takes a generated identifier.
pub open spec fn needs_fresh(s: IngestionModel, e: EventModel) -> bool {
    s.phase == Phase::AwaitingPart && (e matches EventModel::Part(p) && p.content_type.is_some() && p.filename.is_none())
}

/// Where the event is a file part to store, and it declared a filename or
/// `fresh` is a generated identifier, the name it is stored under is a plain
/// entry of the destination directory.
pub open spec fn stores_plainly(s: IngestionModel, e: EventModel, fresh: Seq<char>) -> bool {
    match e {
        EventModel::Part(p) => (s.phase == Phase::AwaitingPart && p.content_type.is_some() && (
        p.filename.is_some() || is_hyphenated_uuid(fresh))) ==> is_plain_component(
            stored_name_of(p.filename, fresh),
        ),
        _ => true,
    }
}

/// A fixed text in the shape of a generated identifier.
pub open spec fn sample_uuid() -> Seq<char> {
    Seq::new(36, |i: int| if i == 8 || i == 13 || i == 18 || i == 23 { '-' } else { '0' })
}

proof fn lemma_sample_uuid()
    ensures
        is_hyphenated_uuid(sample_uuid()),
{
}

/// Where no identifier is generated, the answer does not depend on it.
proof fn lemma_step_ignores_fresh(s: IngestionModel, e: EventModel, f1: Seq<char>, f2: Seq<char>)
    requires
        !needs_fresh(s, e),
    ensures
        step_spec(s, e, f1) == step_spec(s, e, f2),
{
}

impl Ingestion {
    /// A new ingestion into `destination_dir`, waiting for the first part.
    pub fn new(destination_dir: String) -> (r: Ingestion)
        ensures
            r@.dir == destination_dir@,
            r@.records == Seq::<RecordModel>::empty(),
            r@.phase == Phase::AwaitingPart,
    {
        let r = Ingestion { destination_dir, records: Vec::new(), phase: Phase::AwaitingPart };
        assert(r@.records =~= Seq::<RecordModel>::empty());
        r
    }

    /// Answers one event, with `fresh` as the name for a file part that
    /// declared no filename.
    pub fn step_with(&mut self, ev: Event, fresh: String) -> (r: Action)
        ensures
            (final(self)@, r@) == step_spec(old(self)@, ev@, fresh@),
            stores_plainly(old(self)@, ev@, fresh@),
    {
        match ev {
            Event::Part(p) => {
                if self.phase == Phase::AwaitingPart {
                    let ghost pm = p@;
                    proof {
                        if pm.filename.is_none() && is_hyphenated_uuid(fresh@) {
                            lemma_uuid_is_plain_component(fresh@);
                        }
                    }
                    let is_file = p.is_file();
                    let (rec, write) = classify_with(p, &self.destination_dir, fresh);
                    let ghost before = self.records@;
                    self.records.push(rec);
                    assert(records_view(self.records@) =~= records_view(before).push(record_of(pm, fresh@)));
                    if is_file {
                        self.phase = Phase::Writing;
                        match write {
                            Some(w) => Action::Write(w),
                            None => Action::ReadNext,
                        }
                    } else {
                        Action::ReadNext
                    }
                } else {
                    self.phase = Phase::Failed;
                    Action::Abort(UploadError::Malformed)
                }
            },
            Event::StreamEnded => {
                if self.phase == Phase::AwaitingPart {
                    let mut out: Vec<MultipartResponse> = Vec::new();
                    std::mem::swap(&mut self.records, &mut out);
                    self.phase = Phase::Ended;
                    assert(records_view(self.records@) =~= Seq::<RecordModel>::empty());
                    Action::Finish(out)
                } else {
                    self.phase = Phase::Failed;
                    Action::Abort(UploadError::Malformed)
                }
            },
            Event::StreamFailed(m) => {
                if self.phase == Phase::AwaitingPart || self.phase == Phase::Writing {
                    self.phase = Phase::Failed;
                    Action::Abort(UploadError::Stream(m))
                } else {
                    self.phase = Phase::Failed;
                    Action::Abort(UploadError::Malformed)
                }
            },
            Event::Written => {
                if self.phase == Phase::Writing {
                    self.phase = Phase::AwaitingPart;
                    Action::ReadNext
                } else {
                    self.phase = Phase::Failed;
                    Action::Abort(UploadError::Malformed)
                }
            },
            Event::WriteFailed(m) => {
                if self.phase == Phase::Writing {
                    self.phase = Phase::Failed;
                    Action::Abort(UploadError::Persistence(m))
                } else {
                    self.phase = Phase::Failed;
                    Action::Abort(UploadError::Malformed)
                }
            },
        }
    }

    /// Answers one event, generating a fresh identifier for a file part that
    /// declared no filename. Every file it asks to write lies directly in the
    /// destination directory.
    pub fn step(&mut self, ev: Event) -> (r: Action)
        ensures
            exists|fresh: Seq<char>|
                is_hyphenated_uuid(fresh) && (final(self)@, r@) == #[trigger] step_spec(old(self)@, ev@, fresh),
            r@ is Write ==> exists|n: Seq<char>|
                is_plain_component(n) && r@->Write_path == #[trigger] joined(old(self)@.dir, n),
    {
        let needs = match &ev {
            Event::Part(p) => self.phase == Phase::AwaitingPart && needs_identifier(p),
            _ => false,
        };
        let fresh = if needs {
            fresh_identifier()
        } else {
            String::new()
        };
        let ghost s0 = self@;
        let ghost e = ev@;
        let ghost f = fresh@;
        let r = self.step_with(ev, fresh);
        proof {
            let w = if needs { f } else { sample_uuid() };
            lemma_sample_uuid();
            if !needs {
                lemma_step_ignores_fresh(s0, e, f, w);
            }
            if r@ is Write {
                let p = e->Part_0;
                assert(r@->Write_path == joined(s0.dir, stored_name_of(p.filename, f)));
            }
        }
        r
    }
}

} // verus!
