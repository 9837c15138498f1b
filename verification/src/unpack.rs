//! The unpacking of a packed crate into a vendor directory, as a machine
//! that is driven from outside.
//!
//! The machine reads no archive and writes no file. It says which operation
//! comes next and which lines are to be printed before it (a [`Step`]); the
//! caller performs the operation and reports what came of it (an [`Event`]).
//! The request that is pending is the whole state of the machine.

use crate::bytes::{catenate, copy, same_bytes, text};
use crate::error::{Error, ErrorView};
use crate::path::{
    file_name, file_name_of, is_plain_name, join, join_paths, parent, parent_of,
};
use vstd::prelude::*;
use vstd::string::{is_ascii_spec_bytes, StringSliceAdditionalSpecFns};

verus! {

/// The name of the file that describes a package.
pub const MANIFEST_NAME: &'static str = "Cargo.toml";

/// The name of the file that holds the checksums of a vendored package.
pub const SIDECAR_NAME: &'static str = ".cargo-checksum.json";

/// What a generated checksum file holds: no files, no package checksum.
pub const SIDECAR_CONTENT: &'static str = "{\"files\":{},\"package\":\"\"}";

/// The manifest name and the name of the checksum file are plain names.
pub proof fn lemma_names_are_plain()
    ensures
        is_plain_name(MANIFEST_NAME.spec_bytes()),
        is_plain_name(SIDECAR_NAME.spec_bytes()),
{
    reveal_strlit("Cargo.toml");
    reveal_strlit(".cargo-checksum.json");
    is_ascii_spec_bytes(MANIFEST_NAME);
    is_ascii_spec_bytes(SIDECAR_NAME);
}

/// The directory of the manifest that the entry at `entry` is, if it is one:
/// the parent of `entry` where its last component is the manifest name.
pub open spec fn manifest_dir(entry: Seq<u8>) -> Option<Seq<u8>> {
    if file_name(entry) == Some(MANIFEST_NAME.spec_bytes()) {
        parent(entry)
    } else {
        None
    }
}

/// Where the checksum file of the manifest entry in directory `dir` goes
/// under `vendor_path`.
pub open spec fn sidecar_path(vendor_path: Seq<u8>, dir: Seq<u8>) -> Seq<u8> {
    join(vendor_path, join(dir, SIDECAR_NAME.spec_bytes()))
}

/// The line printed before the crate file is opened.
pub open spec fn reading_line(crate_: Seq<u8>) -> Seq<u8> {
    "reading: ".spec_bytes() + crate_
}

/// The line printed before something is written at `path`.
pub open spec fn writing_line(path: Seq<u8>) -> Seq<u8> {
    "writing: ".spec_bytes() + path
}

/// The line printed before a checksum file is generated at `path`.
pub open spec fn generated_line(path: Seq<u8>) -> Seq<u8> {
    "writing: ".spec_bytes() + path + " (generated)".spec_bytes()
}

/// The views of the byte strings in `lines`.
pub open spec fn texts(lines: Seq<Vec<u8>>) -> Seq<Seq<u8>> {
    lines.map_values(|line: Vec<u8>| line@)
}

/// What to unpack, and where to.
#[derive(Debug, PartialEq, Eq)]
pub struct VendorAddCmd {
    /// Crate file path
    pub crate_: Vec<u8>,
    /// Vendor directory path
    pub vendor_path: Vec<u8>,
}

/// A `VendorAddCmd` as a mathematical value.
pub struct VendorAddCmdView {
    pub crate_: Seq<u8>,
    pub vendor_path: Seq<u8>,
}

impl View for VendorAddCmd {
    type V = VendorAddCmdView;

    open spec fn view(&self) -> VendorAddCmdView {
        VendorAddCmdView { crate_: self.crate_@, vendor_path: self.vendor_path@ }
    }
}

impl Clone for VendorAddCmd {
    fn clone(&self) -> (out: VendorAddCmd)
        ensures
            out@ == self@,
    {
        VendorAddCmd {
            crate_: copy(self.crate_.as_slice()),
            vendor_path: copy(self.vendor_path.as_slice()),
        }
    }
}

/// What came of the operation that was requested.
#[derive(Debug, PartialEq, Eq)]
pub enum Event {
    /// The operation succeeded.
    Done,
    /// The operation failed; the text of the failure.
    Failed(Vec<u8>),
    /// The archive gave its next entry; the entry's path.
    Entry(Vec<u8>),
    /// The archive gave an entry that could not be parsed.
    Damaged,
    /// The archive has no further entry.
    End,
}

/// An `Event` as a mathematical value.
pub enum EventView {
    Done,
    Failed(Seq<u8>),
    Entry(Seq<u8>),
    Damaged,
    End,
}

impl View for Event {
    type V = EventView;

    open spec fn view(&self) -> EventView {
        match self {
            Event::Done => EventView::Done,
            Event::Failed(cause) => EventView::Failed(cause@),
            Event::Entry(path) => EventView::Entry(path@),
            Event::Damaged => EventView::Damaged,
            Event::End => EventView::End,
        }
    }
}

impl Clone for Event {
    fn clone(&self) -> (out: Event)
        ensures
            out@ == self@,
    {
        match self {
            Event::Done => Event::Done,
            Event::Failed(cause) => Event::Failed(copy(cause.as_slice())),
            Event::Entry(path) => Event::Entry(copy(path.as_slice())),
            Event::Damaged => Event::Damaged,
            Event::End => Event::End,
        }
    }
}

/// The operation that the caller is to perform next.
#[derive(Debug, PartialEq, Eq)]
pub enum Request {
    /// Open the crate file at `path` for reading.
    OpenArchive { path: Vec<u8> },
    /// Begin to read the entries of the opened archive.
    ListEntries,
    /// Read the next entry of the archive. The answer is `Entry`, `Damaged`
    /// or `End`.
    NextEntry,
    /// Open the file at `path` for writing: create it where there is none,
    /// empty it where there is one. `entry` is the manifest entry that the
    /// file goes with.
    CreateSidecar { path: Vec<u8>, entry: Vec<u8> },
    /// Write `content` to the file just opened.
    WriteSidecar { content: Vec<u8>, entry: Vec<u8> },
    /// Unpack the entry last read, whose path is `entry`, under `root`.
    UnpackEntry { root: Vec<u8>, entry: Vec<u8> },
    /// Stop, with this outcome. Nothing is pending any more.
    Finish(Result<(), Error>),
}

/// A `Request` as a mathematical value.
pub enum RequestView {
    OpenArchive { path: Seq<u8> },
    ListEntries,
    NextEntry,
    CreateSidecar { path: Seq<u8>, entry: Seq<u8> },
    WriteSidecar { content: Seq<u8>, entry: Seq<u8> },
    UnpackEntry { root: Seq<u8>, entry: Seq<u8> },
    Finish(Result<(), ErrorView>),
}

impl View for Request {
    type V = RequestView;

    open spec fn view(&self) -> RequestView {
        match self {
            Request::OpenArchive { path } => RequestView::OpenArchive { path: path@ },
            Request::ListEntries => RequestView::ListEntries,
            Request::NextEntry => RequestView::NextEntry,
            Request::CreateSidecar { path, entry } => RequestView::CreateSidecar {
                path: path@,
                entry: entry@,
            },
            Request::WriteSidecar { content, entry } => RequestView::WriteSidecar {
                content: content@,
                entry: entry@,
            },
            Request::UnpackEntry { root, entry } => RequestView::UnpackEntry {
                root: root@,
                entry: entry@,
            },
            Request::Finish(outcome) => RequestView::Finish(
                match outcome {
                    Ok(_) => Ok(()),
                    Err(error) => Err(error@),
                },
            ),
        }
    }
}

impl Clone for Request {
    fn clone(&self) -> (out: Request)
        ensures
            out@ == self@,
    {
        match self {
            Request::OpenArchive { path } => Request::OpenArchive { path: copy(path.as_slice()) },
            Request::ListEntries => Request::ListEntries,
            Request::NextEntry => Request::NextEntry,
            Request::CreateSidecar { path, entry } => Request::CreateSidecar {
                path: copy(path.as_slice()),
                entry: copy(entry.as_slice()),
            },
            Request::WriteSidecar { content, entry } => Request::WriteSidecar {
                content: copy(content.as_slice()),
                entry: copy(entry.as_slice()),
            },
            Request::UnpackEntry { root, entry } => Request::UnpackEntry {
                root: copy(root.as_slice()),
                entry: copy(entry.as_slice()),
            },
            Request::Finish(outcome) => match outcome {
                Ok(_) => Request::Finish(Ok(())),
                Err(error) => Request::Finish(Err(error.clone())),
            },
        }
    }
}

/// One move of the machine: the lines to print, in order, and then the
/// operation to perform.
#[derive(Debug, PartialEq, Eq)]
pub struct Step {
    pub lines: Vec<Vec<u8>>,
    pub request: Request,
}

/// A `Step` as a mathematical value.
pub struct StepView {
    pub lines: Seq<Seq<u8>>,
    pub request: RequestView,
}

impl View for Step {
    type V = StepView;

    open spec fn view(&self) -> StepView {
        StepView { lines: texts(self.lines@), request: self.request@ }
    }
}

/// A run of the machine so far: every line printed and every request made,
/// in order. The last request is the pending one.
#[derive(Debug, PartialEq, Eq)]
pub struct Transcript {
    pub lines: Vec<Vec<u8>>,
    pub requests: Vec<Request>,
}

/// A `Transcript` as a mathematical value.
pub struct TranscriptView {
    pub lines: Seq<Seq<u8>>,
    pub requests: Seq<RequestView>,
}

impl View for Transcript {
    type V = TranscriptView;

    open spec fn view(&self) -> TranscriptView {
        TranscriptView {
            lines: texts(self.lines@),
            requests: self.requests@.map_values(|request: Request| request@),
        }
    }
}

/// A step that prints nothing.
pub open spec fn quiet(request: RequestView) -> StepView {
    StepView { lines: Seq::empty(), request }
}

/// The step that ends the run with `error`.
pub open spec fn fail(error: ErrorView) -> StepView {
    quiet(RequestView::Finish(Err(error)))
}

impl VendorAddCmdView {
    /// The step that unpacks the entry at `entry`.
    pub open spec fn unpack(self, entry: Seq<u8>) -> StepView {
        StepView {
            lines: seq![writing_line(join(self.vendor_path, entry))],
            request: RequestView::UnpackEntry { root: self.vendor_path, entry },
        }
    }

    /// The step taken when the archive gives the entry at `entry`: for a
    /// manifest the checksum file comes first, any other entry is unpacked
    /// at once.
    pub open spec fn on_entry(self, entry: Seq<u8>) -> StepView {
        match manifest_dir(entry) {
            Some(dir) => StepView {
                lines: seq![generated_line(sidecar_path(self.vendor_path, dir))],
                request: RequestView::CreateSidecar {
                    path: sidecar_path(self.vendor_path, dir),
                    entry,
                },
            },
            None => self.unpack(entry),
        }
    }

    /// The first step of every run.
    pub open spec fn start(self) -> StepView {
        StepView {
            lines: seq![reading_line(self.crate_)],
            request: RequestView::OpenArchive { path: self.crate_ },
        }
    }

    /// The step that follows when `event` answers `pending`; `None` where
    /// `event` is no answer to `pending`.
    pub open spec fn step(self, pending: RequestView, event: EventView) -> Option<StepView> {
        match (pending, event) {
            (RequestView::OpenArchive { .. }, EventView::Done) => Some(
                quiet(RequestView::ListEntries),
            ),
            (RequestView::OpenArchive { .. }, EventView::Failed(cause)) => Some(
                fail(ErrorView::OpeningCrate(cause)),
            ),
            (RequestView::ListEntries, EventView::Done) => Some(quiet(RequestView::NextEntry)),
            (RequestView::ListEntries, EventView::Failed(cause)) => Some(
                fail(ErrorView::ReadingCrate(cause)),
            ),
            (RequestView::NextEntry, EventView::Entry(entry)) => Some(self.on_entry(entry)),
            (RequestView::NextEntry, EventView::Damaged) => Some(quiet(RequestView::NextEntry)),
            (RequestView::NextEntry, EventView::End) => Some(quiet(RequestView::Finish(Ok(())))),
            (RequestView::CreateSidecar { entry, .. }, EventView::Done) => Some(
                quiet(
                    RequestView::WriteSidecar { content: SIDECAR_CONTENT.spec_bytes(), entry },
                ),
            ),
            (RequestView::CreateSidecar { .. }, EventView::Failed(cause)) => Some(
                fail(ErrorView::OpeningChecksumFile(cause)),
            ),
            (RequestView::WriteSidecar { entry, .. }, EventView::Done) => Some(self.unpack(entry)),
            (RequestView::WriteSidecar { .. }, EventView::Failed(cause)) => Some(
                fail(ErrorView::WritingChecksumFile(cause)),
            ),
            (RequestView::UnpackEntry { .. }, EventView::Done) => Some(
                quiet(RequestView::NextEntry),
            ),
            (RequestView::UnpackEntry { .. }, EventView::Failed(cause)) => Some(
                fail(ErrorView::WritingToVendor(cause)),
            ),
            _ => None,
        }
    }

    /// The transcript of the run in which `events` answer the requests, one
    /// after the other; `None` where one of them is no answer to the request
    /// that is pending when it comes.
    pub open spec fn run(self, events: Seq<EventView>) -> Option<TranscriptView>
        decreases events.len(),
    {
        if events.len() == 0 {
            Some(TranscriptView { lines: self.start().lines, requests: seq![self.start().request] })
        } else {
            match self.run(events.drop_last()) {
                None => None,
                Some(before) => match self.step(before.requests.last(), events.last()) {
                    None => None,
                    Some(step) => Some(
                        TranscriptView {
                            lines: before.lines + step.lines,
                            requests: before.requests.push(step.request),
                        },
                    ),
                },
            }
        }
    }
}

/// The directory of the manifest that the entry at `entry` is; `None` where
/// the last component of `entry` is not the manifest name.
pub fn manifest_dir_of(entry: &[u8]) -> (out: Option<Vec<u8>>)
    ensures
        out is Some <==> manifest_dir(entry@) is Some,
        out is Some ==> out->0@ == manifest_dir(entry@)->0,
        out is Some <==> file_name(entry@) == Some(MANIFEST_NAME.spec_bytes()),
{
    match file_name_of(entry) {
        Some(name) => {
            if same_bytes(name.as_slice(), MANIFEST_NAME.as_bytes()) {
                parent_of(entry)
            } else {
                None
            }
        },
        None => None,
    }
}

/// A step that prints nothing.
fn quiet_step(request: Request) -> (out: Step)
    ensures
        out@ == quiet(request@),
{
    let out = Step { lines: Vec::new(), request };
    proof {
        assert(texts(out.lines@) =~= Seq::<Seq<u8>>::empty());
    }
    out
}

/// A step that prints `line`.
fn loud_step(line: Vec<u8>, request: Request) -> (out: Step)
    ensures
        out@ == (StepView { lines: seq![line@], request: request@ }),
{
    let mut lines: Vec<Vec<u8>> = Vec::new();
    lines.push(line);
    let out = Step { lines, request };
    proof {
        assert(texts(out.lines@) =~= seq![line@]);
    }
    out
}

impl VendorAddCmd {
    /// The command that unpacks the crate file at `crate_` under
    /// `vendor_path`.
    pub fn new(crate_: Vec<u8>, vendor_path: Vec<u8>) -> (out: VendorAddCmd)
        ensures
            out@ == (VendorAddCmdView { crate_: crate_@, vendor_path: vendor_path@ }),
    {
        VendorAddCmd { crate_, vendor_path }
    }

    /// The step that unpacks the entry at `entry`.
    fn unpack(&self, entry: &[u8]) -> (out: Step)
        ensures
            out@ == self@.unpack(entry@),
    {
        let target = join_paths(self.vendor_path.as_slice(), entry);
        loud_step(
            catenate(text("writing: ").as_slice(), target.as_slice()),
            Request::UnpackEntry { root: copy(self.vendor_path.as_slice()), entry: copy(entry) },
        )
    }

    /// The step taken when the archive gives the entry at `entry`.
    fn on_entry(&self, entry: &[u8]) -> (out: Step)
        ensures
            out@ == self@.on_entry(entry@),
    {
        match manifest_dir_of(entry) {
            Some(dir) => {
                let beside = join_paths(dir.as_slice(), SIDECAR_NAME.as_bytes());
                let path = join_paths(self.vendor_path.as_slice(), beside.as_slice());
                let line = catenate(
                    catenate(text("writing: ").as_slice(), path.as_slice()).as_slice(),
                    text(" (generated)").as_slice(),
                );
                loud_step(line, Request::CreateSidecar { path, entry: copy(entry) })
            },
            None => self.unpack(entry),
        }
    }

    /// The first step of every run: the line that names the crate file, and
    /// the request to open it.
    pub fn start(&self) -> (out: Step)
        ensures
            out@ == self@.start(),
    {
        loud_step(
            catenate(text("reading: ").as_slice(), self.crate_.as_slice()),
            Request::OpenArchive { path: copy(self.crate_.as_slice()) },
        )
    }

    /// The step that follows when `event` answers `pending`; `None` where
    /// `event` is no answer to `pending`, as every event is once the run has
    /// finished.
    pub fn step(&self, pending: &Request, event: &Event) -> (out: Option<Step>)
        ensures
            out is Some <==> self@.step(pending@, event@) is Some,
            out is Some ==> out->0@ == self@.step(pending@, event@)->0,
    {
        match pending {
            Request::OpenArchive { .. } => match event {
                Event::Done => Some(quiet_step(Request::ListEntries)),
                Event::Failed(cause) => Some(
                    quiet_step(Request::Finish(Err(Error::OpeningCrate(copy(cause.as_slice()))))),
                ),
                _ => None,
            },
            Request::ListEntries => match event {
                Event::Done => Some(quiet_step(Request::NextEntry)),
                Event::Failed(cause) => Some(
                    quiet_step(Request::Finish(Err(Error::ReadingCrate(copy(cause.as_slice()))))),
                ),
                _ => None,
            },
            Request::NextEntry => match event {
                Event::Entry(entry) => Some(self.on_entry(entry.as_slice())),
                Event::Damaged => Some(quiet_step(Request::NextEntry)),
                Event::End => Some(quiet_step(Request::Finish(Ok(())))),
                _ => None,
            },
            Request::CreateSidecar { entry, .. } => match event {
                Event::Done => Some(
                    quiet_step(
                        Request::WriteSidecar {
                            content: text(SIDECAR_CONTENT),
                            entry: copy(entry.as_slice()),
                        },
                    ),
                ),
                Event::Failed(cause) => Some(
                    quiet_step(
                        Request::Finish(Err(Error::OpeningChecksumFile(copy(cause.as_slice())))),
                    ),
                ),
                _ => None,
            },
            Request::WriteSidecar { entry, .. } => match event {
                Event::Done => Some(self.unpack(entry.as_slice())),
                Event::Failed(cause) => Some(
                    quiet_step(
                        Request::Finish(Err(Error::WritingChecksumFile(copy(cause.as_slice())))),
                    ),
                ),
                _ => None,
            },
            Request::UnpackEntry { .. } => match event {
                Event::Done => Some(quiet_step(Request::NextEntry)),
                Event::Failed(cause) => Some(
                    quiet_step(Request::Finish(Err(Error::WritingToVendor(copy(cause.as_slice()))))),
                ),
                _ => None,
            },
            Request::Finish(_) => None,
        }
    }

    /// The transcript of the run in which `events` answer the requests, one
    /// after the other; `None` where one of them is no answer to the request
    /// that is pending when it comes.
    pub fn run(&self, events: &Vec<Event>) -> (out: Option<Transcript>)
        ensures
            out is Some <==> self@.run(events@.map_values(|event: Event| event@)) is Some,
            out is Some ==> out->0@ == self@.run(events@.map_values(|event: Event| event@))->0,
    {
        let ghost script = events@.map_values(|event: Event| event@);
        let Step { lines, request } = self.start();
        let mut lines = lines;
        let mut requests: Vec<Request> = Vec::new();
        requests.push(request);
        proof {
            assert(requests@.map_values(|request: Request| request@) =~= seq![
                self@.start().request,
            ]);
        }
        let mut i: usize = 0;
        while i < events.len()
            invariant
                i <= events.len(),
                script == events@.map_values(|event: Event| event@),
                requests.len() > 0,
                self@.run(script.take(i as int)) == Some(
                    TranscriptView {
                        lines: texts(lines@),
                        requests: requests@.map_values(|request: Request| request@),
                    },
                ),
            decreases events.len() - i,
        {
            let ghost before = TranscriptView {
                lines: texts(lines@),
                requests: requests@.map_values(|request: Request| request@),
            };
            proof {
                assert(script.take(i + 1).drop_last() =~= script.take(i as int));
            }
            match self.step(&requests[requests.len() - 1], &events[i]) {
                None => {
                    proof {
                        lemma_run_stays_refused(self@, script, i + 1);
                    }
                    return None;
                },
                Some(step) => {
                    let Step { lines: more, request } = step;
                    let mut more = more;
                    let ghost printed = texts(more@);
                    lines.append(&mut more);
                    requests.push(request);
                    proof {
                        assert(texts(lines@) =~= before.lines + printed);
                        assert(requests@.map_values(|request: Request| request@)
                            =~= before.requests.push(request@));
                    }
                },
            }
            i = i + 1;
        }
        proof {
            assert(script.take(i as int) =~= script);
        }
        Some(Transcript { lines, requests })
    }
}

/// Once a run has been refused, no further event is accepted: where the
/// first `n` events have no transcript, the whole of `events` has none.
pub proof fn lemma_run_stays_refused(cmd: VendorAddCmdView, events: Seq<EventView>, n: int)
    requires
        0 <= n <= events.len(),
        cmd.run(events.take(n)) is None,
    ensures
        cmd.run(events) is None,
    decreases events.len(),
{
    if n < events.len() {
        assert(events.drop_last().take(n) =~= events.take(n));
        lemma_run_stays_refused(cmd, events.drop_last(), n);
    } else {
        assert(events.take(n) =~= events);
    }
}

} // verus!
