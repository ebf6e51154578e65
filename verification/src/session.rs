//! The print job of a printer session, as a state machine over whole requests.
//!
//! A job is a fixed script of requests: label type, density, start of print, start
//! of page, page size, one request per bitmap row, end of page. When the script is
//! through, the status of the printer is polled until it reports as many finished
//! pages as copies were asked for. The machine says which operation is pending; the
//! caller carries it out and reports the outcome.

use vstd::prelude::*;
use crate::bitmap::{holds_rows, prepare_image, row_fits_frame, row_payloads, ROW_HEADER};
use crate::exchange::SessionError;
use crate::packet::{copy_bytes, Frame, NiimbotPacket, MAX_PAYLOAD};
use crate::request::{from_be16, Request, RequestModel};

verus! {

/// Pause between two status polls, in milliseconds.
pub const STATUS_PAUSE_MILLIS: u64 = 100;

/// Requests of a job's script that do not carry a bitmap row.
pub const SCRIPT_FRAME: usize = 6;

/// Requests of a job's script in front of the first bitmap row.
pub const SCRIPT_HEAD: usize = 5;

/// Fewest payload bytes of a status response.
pub const STATUS_LENGTH: usize = 4;

/// Where a printer session stands.
#[derive(Debug, Clone, Copy, PartialEq, Eq, Structural)]
pub enum SessionState {
    /// No job under way.
    Idle,
    /// The printer has accepted the start of a job.
    Printing,
    /// The printer has accepted the start of a page.
    PagePrinting,
    /// The page is closed and the printer is asked how far it is.
    AwaitingCompletion,
}

/// What the printer reports of a job under way.
#[derive(Debug, Clone, Copy, PartialEq, Eq, Structural)]
pub struct PrintStatus {
    /// Pages finished so far.
    pub page: usize,
    pub progress1: usize,
    pub progress2: usize,
}

/// The status that the payload of a status response carries: the page count as a
/// big-endian 16-bit number, then two progress bytes.
pub open spec fn status_in(payload: Seq<u8>) -> Result<PrintStatus, SessionError> {
    if payload.len() < STATUS_LENGTH {
        Err(SessionError::InvalidResponse)
    } else {
        Ok(
            PrintStatus {
                page: from_be16(payload[0], payload[1]) as usize,
                progress1: payload[2] as usize,
                progress2: payload[3] as usize,
            },
        )
    }
}

/// What a status poll gives: the status that the response carries, or the error
/// that the poll ended with, unchanged.
pub open spec fn status_of(reply: Result<Frame, SessionError>) -> Result<
    PrintStatus,
    SessionError,
> {
    match reply {
        Ok(frame) => status_in(frame.payload),
        Err(error) => Err(error),
    }
}

/// Reads the status that a status response carries.
pub fn parse_print_status(payload: &Vec<u8>) -> (status: Result<PrintStatus, SessionError>)
    ensures
        status == status_in(payload@),
{
    if payload.len() < STATUS_LENGTH {
        return Err(SessionError::InvalidResponse);
    }
    let page: u16 = payload[0] as u16 * 256 + payload[1] as u16;
    Ok(
        PrintStatus {
            page: page as usize,
            progress1: payload[2] as usize,
            progress2: payload[3] as usize,
        },
    )
}

/// The status of the printer after a poll that ended with `reply`. A poll that
/// failed hands its error on; what a silent printer means for a job under way is
/// for the job to say.
pub fn get_print_status(reply: Result<NiimbotPacket, SessionError>) -> (status: Result<
    PrintStatus,
    SessionError,
>)
    ensures
        status == status_of(
            match reply {
                Ok(packet) => Ok(packet@),
                Err(error) => Err(error),
            },
        ),
{
    match reply {
        Ok(packet) => parse_print_status(&packet.data),
        Err(error) => Err(error),
    }
}

/// Mathematical model of a print job.
pub struct JobModel {
    pub rows: Seq<Seq<u8>>,
    pub width: u16,
    pub height: u16,
    pub quantity: u8,
    pub density: u8,
    pub label_type: u8,
}

/// A label to print: the encoded rows of its bitmap and the settings of the job.
#[derive(Debug)]
pub struct PrintJob {
    rows: Vec<Vec<u8>>,
    width: u16,
    height: u16,
    quantity: u8,
    density: u8,
    label_type: u8,
}

/// An image of these measures can be printed: it holds all its rows, its measures
/// fit 16 bits and one encoded row fits a frame.
pub open spec fn printable(image: Seq<u32>, width: int, height: int) -> bool {
    &&& holds_rows(image, width, height)
    &&& width <= u16::MAX
    &&& height <= u16::MAX
    &&& row_fits_frame(width)
}

/// The job of printing an image.
pub open spec fn job_of(
    image: Seq<u32>,
    width: int,
    height: int,
    quantity: u8,
    label_type: u8,
    density: u8,
) -> JobModel {
    JobModel {
        rows: row_payloads(image, width, height),
        width: width as u16,
        height: height as u16,
        quantity,
        density,
        label_type,
    }
}

/// The rows of a job are as many as its height says and each fits a frame.
pub open spec fn job_consistent(job: JobModel) -> bool {
    &&& job.rows.len() == job.height
    &&& forall|r: int| 0 <= r < job.rows.len() ==> (#[trigger] job.rows[r]).len() <= MAX_PAYLOAD
}

/// The requests of a job, in the order in which they are sent.
pub open spec fn script(job: JobModel) -> Seq<RequestModel> {
    seq![
        Request::spec_set_label_type(job.label_type),
        Request::spec_set_label_density(job.density),
        Request::spec_start_print(),
        Request::spec_start_page_print(),
        Request::spec_set_page_size_v3(job.height, job.width, job.quantity as u16),
    ] + job.rows.map_values(|row: Seq<u8>| Request::spec_bitmap_row(row)) + seq![
        Request::spec_end_page_print(),
    ]
}

impl View for PrintJob {
    type V = JobModel;

    closed spec fn view(&self) -> JobModel {
        JobModel {
            rows: self.rows.deep_view(),
            width: self.width,
            height: self.height,
            quantity: self.quantity,
            density: self.density,
            label_type: self.label_type,
        }
    }
}

impl PrintJob {
    #[verifier::type_invariant]
    spec fn well_formed(&self) -> bool {
        job_consistent(self@)
    }

    /// Prepares the job of printing `label_qty` copies of an image, or nothing when
    /// the image cannot be printed.
    pub fn new(
        image: &[u32],
        width: usize,
        height: usize,
        label_qty: u8,
        label_type: u8,
        label_density: u8,
    ) -> (job: Option<PrintJob>)
        ensures
            job is Some <==> printable(image@, width as int, height as int),
            job is Some ==> job->Some_0@ == job_of(
                image@,
                width as int,
                height as int,
                label_qty,
                label_type,
                label_density,
            ),
    {
        if width > u16::MAX as usize || height > u16::MAX as usize {
            return None;
        }
        if ROW_HEADER + width / 8 > MAX_PAYLOAD {
            return None;
        }
        proof {
            assert(width * height <= 65535 * 65535) by (nonlinear_arith)
                requires
                    0 <= width <= 65535,
                    0 <= height <= 65535,
            ;
        }
        let needed: u64 = width as u64 * height as u64;
        if needed > image.len() as u64 {
            return None;
        }
        let rows = prepare_image(image, width, height);
        proof {
            let model = row_payloads(image@, width as int, height as int);
            assert forall|r: int| 0 <= r < model.len() implies (#[trigger] model[r]).len()
                <= MAX_PAYLOAD by {
                crate::bitmap::lemma_row_payload_len(image@, width as int, height as int, r);
            }
        }
        Some(
            PrintJob {
                rows,
                width: width as u16,
                height: height as u16,
                quantity: label_qty,
                density: label_density,
                label_type,
            },
        )
    }

    /// Rows of the label.
    pub fn height(&self) -> (height: u16)
        ensures
            height == self@.height,
    {
        self.height
    }

    /// Pixels in a row of the label.
    pub fn width(&self) -> (width: u16)
        ensures
            width == self@.width,
    {
        self.width
    }

    /// Copies to print.
    pub fn quantity(&self) -> (quantity: u8)
        ensures
            quantity == self@.quantity,
    {
        self.quantity
    }

    /// How many requests the script of the job has.
    pub fn script_len(&self) -> (len: usize)
        ensures
            len == script(self@).len(),
            len == self@.height + SCRIPT_FRAME,
            job_consistent(self@),
    {
        proof {
            use_type_invariant(self);
        }
        self.height as usize + SCRIPT_FRAME
    }

    /// The request at one place of the script.
    pub fn request_at(&self, index: usize) -> (request: Request)
        requires
            index < script(self@).len(),
        ensures
            request@ == script(self@)[index as int],
            request.sendable(),
    {
        proof {
            use_type_invariant(self);
        }
        if index == 0 {
            Request::set_label_type(self.label_type)
        } else if index == 1 {
            Request::set_label_density(self.density)
        } else if index == 2 {
            Request::start_print()
        } else if index == 3 {
            Request::start_page_print()
        } else if index == 4 {
            Request::set_page_size_v3(self.height, self.width, self.quantity as u16)
        } else if index - SCRIPT_HEAD < self.rows.len() {
            let row = index - SCRIPT_HEAD;
            proof {
                assert(self.rows.deep_view()[row as int] == self.rows@[row as int].deep_view());
                assert(self.rows@[row as int].deep_view() =~= self.rows@[row as int]@);
            }
            Request::bitmap_row(copy_bytes(&self.rows[row]))
        } else {
            Request::end_page_print()
        }
    }
}

/// What the caller is asked to do next for a job.
#[derive(Debug)]
pub enum Operation {
    /// Send this request and, where it has a response, wait for it.
    Exchange(Request),
    /// Sleep for this many milliseconds.
    Pause(u64),
    /// Nothing more: the job is over.
    Complete(Result<(), SessionError>),
}

/// Mathematical model of an operation.
pub enum OperationModel {
    Exchange(RequestModel),
    Pause(u64),
    Complete(Result<(), SessionError>),
}

/// How the pending operation went.
#[derive(Debug)]
pub enum Outcome {
    /// The request is over, with its response if it was waited for.
    Exchanged(Result<Option<NiimbotPacket>, SessionError>),
    /// The sleep is over.
    Paused,
}

/// Mathematical model of an outcome.
pub enum OutcomeModel {
    Exchanged(Result<Option<Frame>, SessionError>),
    Paused,
}

impl View for Operation {
    type V = OperationModel;

    open spec fn view(&self) -> OperationModel {
        match *self {
            Operation::Exchange(request) => OperationModel::Exchange(request@),
            Operation::Pause(millis) => OperationModel::Pause(millis),
            Operation::Complete(result) => OperationModel::Complete(result),
        }
    }
}

impl View for Outcome {
    type V = OutcomeModel;

    open spec fn view(&self) -> OutcomeModel {
        match *self {
            Outcome::Exchanged(Ok(Some(packet))) => OutcomeModel::Exchanged(Ok(Some(packet@))),
            Outcome::Exchanged(Ok(None)) => OutcomeModel::Exchanged(Ok(None)),
            Outcome::Exchanged(Err(error)) => OutcomeModel::Exchanged(Err(error)),
            Outcome::Paused => OutcomeModel::Paused,
        }
    }
}

/// How far a job has come.
#[derive(Debug, Clone, Copy, PartialEq, Eq, Structural)]
pub enum Stage {
    /// The request at this place of the script is pending.
    Stepping(usize),
    /// A status poll is pending.
    Polling,
    /// A pause between two status polls is pending.
    Resting,
    /// The job is over and the label printed.
    Finished,
    /// The job is over and failed.
    Failed(SessionError),
}

impl Stage {
    /// The result of the job, once it is over.
    pub open spec fn spec_result(self) -> Option<Result<(), SessionError>> {
        match self {
            Stage::Finished => Some(Ok(())),
            Stage::Failed(error) => Some(Err(error)),
            _ => None,
        }
    }

    /// The result of the job, once it is over.
    #[verifier::when_used_as_spec(spec_result)]
    pub fn result(self) -> (result: Option<Result<(), SessionError>>)
        ensures
            result == self.spec_result(),
    {
        match self {
            Stage::Finished => Some(Ok(())),
            Stage::Failed(error) => Some(Err(error)),
            _ => None,
        }
    }
}

/// Mathematical model of a job under way.
pub struct RunModel {
    pub job: JobModel,
    pub stage: Stage,
}

/// A job at its start.
pub open spec fn run_start(job: JobModel) -> RunModel {
    RunModel { job, stage: Stage::Stepping(0) }
}

/// The operation that a job waits for.
pub open spec fn pending_operation(run: RunModel) -> OperationModel {
    match run.stage {
        Stage::Stepping(place) => OperationModel::Exchange(script(run.job)[place as int]),
        Stage::Polling => OperationModel::Exchange(Request::spec_get_print_status()),
        Stage::Resting => OperationModel::Pause(STATUS_PAUSE_MILLIS),
        Stage::Finished => OperationModel::Complete(Ok(())),
        Stage::Failed(error) => OperationModel::Complete(Err(error)),
    }
}

/// Where a job goes after a status poll.
pub open spec fn stage_after_poll(reply: Result<Option<Frame>, SessionError>, quantity: u8)
    -> Stage {
    match reply {
        Err(_) => Stage::Finished,
        Ok(None) => Stage::Failed(SessionError::InvalidResponse),
        Ok(Some(frame)) => match status_in(frame.payload) {
            Err(error) => Stage::Failed(error),
            Ok(status) => if status.page == quantity {
                Stage::Finished
            } else {
                Stage::Resting
            },
        },
    }
}

/// The job after an outcome. A request of the script that fails ends the job at
/// once with its error; an outcome that does not report on the pending operation
/// changes nothing.
pub open spec fn run_after(run: RunModel, outcome: OutcomeModel) -> RunModel {
    match (run.stage, outcome) {
        (Stage::Stepping(place), OutcomeModel::Exchanged(Ok(_))) => if place + 1 < script(
            run.job,
        ).len() {
            RunModel { stage: Stage::Stepping((place + 1) as usize), ..run }
        } else {
            RunModel { stage: Stage::Polling, ..run }
        },
        (Stage::Stepping(_), OutcomeModel::Exchanged(Err(error))) => RunModel {
            stage: Stage::Failed(error),
            ..run
        },
        (Stage::Polling, OutcomeModel::Exchanged(reply)) => RunModel {
            stage: stage_after_poll(reply, run.job.quantity),
            ..run
        },
        (Stage::Resting, OutcomeModel::Paused) => RunModel { stage: Stage::Polling, ..run },
        _ => run,
    }
}

/// The state of the session while a job stands at a stage: idle until the printer
/// has accepted the start of the job, printing until it has accepted the start of
/// the page, page printing until the page is closed, then waiting for completion,
/// and idle again when the job is over.
pub open spec fn session_state(run: RunModel) -> SessionState {
    match run.stage {
        Stage::Stepping(place) => if place <= 2 {
            SessionState::Idle
        } else if place == 3 {
            SessionState::Printing
        } else {
            SessionState::PagePrinting
        },
        Stage::Polling => SessionState::AwaitingCompletion,
        Stage::Resting => SessionState::AwaitingCompletion,
        Stage::Finished => SessionState::Idle,
        Stage::Failed(_) => SessionState::Idle,
    }
}

/// The pending request of a job under way lies within its script.
pub open spec fn run_consistent(run: RunModel) -> bool {
    &&& job_consistent(run.job)
    &&& run.stage is Stepping ==> run.stage->Stepping_0 < script(run.job).len()
}

/// The job after the first `count` requests of its script have gone well.
pub open spec fn run_after_successes(job: JobModel, count: nat) -> RunModel
    decreases count,
{
    if count == 0 {
        run_start(job)
    } else {
        run_after(
            run_after_successes(job, (count - 1) as nat),
            OutcomeModel::Exchanged(Ok(None)),
        )
    }
}

/// The script of a job is the five opening requests, one request for each row of
/// the bitmap in order, and the request that closes the page.
pub proof fn lemma_script_layout(job: JobModel)
    ensures
        script(job).len() == job.rows.len() + SCRIPT_FRAME,
        script(job)[0] == Request::spec_set_label_type(job.label_type),
        script(job)[1] == Request::spec_set_label_density(job.density),
        script(job)[2] == Request::spec_start_print(),
        script(job)[3] == Request::spec_start_page_print(),
        script(job)[4] == Request::spec_set_page_size_v3(
            job.height,
            job.width,
            job.quantity as u16,
        ),
        forall|r: int|
            0 <= r < job.rows.len() ==> #[trigger] script(job)[SCRIPT_HEAD + r]
                == Request::spec_bitmap_row(job.rows[r]),
        script(job)[SCRIPT_HEAD + job.rows.len()] == Request::spec_end_page_print(),
{
}

/// A job runs strictly in the order of its script: while every request goes well,
/// the request pending after `count` of them is the one at place `count`, and when
/// the script is through the status of the printer is polled.
pub proof fn lemma_run_follows_script(job: JobModel, count: nat)
    requires
        count <= script(job).len(),
        script(job).len() <= usize::MAX,
    ensures
        count < script(job).len() ==> run_after_successes(job, count).stage == Stage::Stepping(
            count as usize,
        ) && pending_operation(run_after_successes(job, count)) == OperationModel::Exchange(
            script(job)[count as int],
        ),
        count == script(job).len() ==> run_after_successes(job, count).stage == Stage::Polling
            && pending_operation(run_after_successes(job, count)) == OperationModel::Exchange(
            Request::spec_get_print_status(),
        ),
        run_after_successes(job, count).job == job,
    decreases count,
{
    if count > 0 {
        lemma_run_follows_script(job, (count - 1) as nat);
    }
}

/// A print job under way.
#[derive(Debug)]
pub struct PrintRun {
    job: PrintJob,
    stage: Stage,
}

impl View for PrintRun {
    type V = RunModel;

    closed spec fn view(&self) -> RunModel {
        RunModel { job: self.job@, stage: self.stage }
    }
}

impl PrintRun {
    #[verifier::type_invariant]
    spec fn well_formed(&self) -> bool {
        run_consistent(self@)
    }

    /// Starts a job.
    pub fn new(job: PrintJob) -> (run: PrintRun)
        ensures
            run@ == run_start(job@),
    {
        let _ = job.script_len();
        PrintRun { job, stage: Stage::Stepping(0) }
    }

    /// How far the job has come.
    pub fn stage(&self) -> (stage: Stage)
        ensures
            stage == self@.stage,
            run_consistent(self@),
    {
        proof {
            use_type_invariant(self);
        }
        self.stage
    }

    /// The state of the session.
    pub fn state(&self) -> (state: SessionState)
        ensures
            state == session_state(self@),
    {
        match self.stage {
            Stage::Stepping(place) => if place <= 2 {
                SessionState::Idle
            } else if place == 3 {
                SessionState::Printing
            } else {
                SessionState::PagePrinting
            },
            Stage::Polling => SessionState::AwaitingCompletion,
            Stage::Resting => SessionState::AwaitingCompletion,
            Stage::Finished => SessionState::Idle,
            Stage::Failed(_) => SessionState::Idle,
        }
    }

    /// The operation that the caller is to carry out next.
    pub fn pending(&self) -> (operation: Operation)
        ensures
            operation@ == pending_operation(self@),
            operation matches Operation::Exchange(request) ==> request.sendable(),
    {
        proof {
            use_type_invariant(self);
        }
        match self.stage {
            Stage::Stepping(place) => Operation::Exchange(self.job.request_at(place)),
            Stage::Polling => Operation::Exchange(Request::get_print_status()),
            Stage::Resting => Operation::Pause(STATUS_PAUSE_MILLIS),
            Stage::Finished => Operation::Complete(Ok(())),
            Stage::Failed(error) => Operation::Complete(Err(error)),
        }
    }

    /// Takes note of how the pending operation went.
    pub fn record(&mut self, outcome: Outcome)
        ensures
            final(self)@ == run_after(old(self)@, outcome@),
            run_consistent(final(self)@),
    {
        proof {
            use_type_invariant(&*self);
        }
        let quantity = self.job.quantity();
        match (self.stage, outcome) {
            (Stage::Stepping(place), Outcome::Exchanged(Ok(_))) => {
                if place + 1 < self.job.script_len() {
                    self.stage = Stage::Stepping(place + 1);
                } else {
                    self.stage = Stage::Polling;
                }
            },
            (Stage::Stepping(_), Outcome::Exchanged(Err(error))) => {
                self.stage = Stage::Failed(error);
            },
            (Stage::Polling, Outcome::Exchanged(reply)) => {
                self.stage = poll_verdict(reply, quantity);
            },
            (Stage::Resting, Outcome::Paused) => {
                self.stage = Stage::Polling;
            },
            _ => {},
        }
    }
}

/// Where a job of `quantity` copies goes after a status poll that ended with
/// `reply`: it is over when the poll failed or the printer reports `quantity`
/// finished pages, it fails on a response that carries no status, and it rests
/// before the next poll otherwise.
pub fn poll_verdict(reply: Result<Option<NiimbotPacket>, SessionError>, quantity: u8) -> (stage:
    Stage)
    ensures
        stage == stage_after_poll(
            match reply {
                Ok(Some(packet)) => Ok(Some(packet@)),
                Ok(None) => Ok(None),
                Err(error) => Err(error),
            },
            quantity,
        ),
{
    match reply {
        Err(_) => Stage::Finished,
        Ok(None) => Stage::Failed(SessionError::InvalidResponse),
        Ok(Some(packet)) => match parse_print_status(&packet.data) {
            Err(error) => Stage::Failed(error),
            Ok(status) => if status.page == quantity as usize {
                Stage::Finished
            } else {
                Stage::Resting
            },
        },
    }
}

} // verus!
