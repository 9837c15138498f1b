//! What holds of every run of the unpacking.

use crate::error::ErrorView;
use crate::path::{
    dir_prefix, file_name, is_absolute, join, lemma_name_after_front, lemma_name_start,
    lemma_trimmed, lemma_trimmed_absorbs, name_start, parent, trimmed, SEPARATOR,
};
use crate::unpack::{
    generated_line, lemma_names_are_plain, manifest_dir, reading_line, sidecar_path,
    writing_line, EventView, RequestView, TranscriptView, VendorAddCmdView, MANIFEST_NAME,
    SIDECAR_CONTENT, SIDECAR_NAME,
};
use vstd::prelude::*;
use vstd::string::{is_ascii_spec_bytes, StringSliceAdditionalSpecFns};

verus! {

/// A run that `events` continues by `event` is the run of `events`, then one
/// step.
pub proof fn lemma_run_push(cmd: VendorAddCmdView, events: Seq<EventView>, event: EventView)
    ensures
        cmd.run(events.push(event)) == match cmd.run(events) {
            None => None,
            Some(before) => match cmd.step(before.requests.last(), event) {
                None => None,
                Some(step) => Some(
                    TranscriptView {
                        lines: before.lines + step.lines,
                        requests: before.requests.push(step.request),
                    },
                ),
            },
        },
{
    assert(events.push(event).drop_last() =~= events);
}

/// Every request but the first answers an event: a run of `n` events has
/// made `n + 1` requests, each beginning of it is a run of its own, and
/// request `k + 1` is the one that the step from request `k` and event `k`
/// gives.
pub proof fn law_requests_follow_events(cmd: VendorAddCmdView, events: Seq<EventView>, k: int)
    requires
        cmd.run(events) is Some,
        0 <= k < events.len(),
    ensures
        cmd.run(events)->0.requests.len() == events.len() + 1,
        cmd.run(events)->0.requests[0] == cmd.start().request,
        cmd.run(events.take(k)) is Some,
        cmd.run(events.take(k))->0.requests == cmd.run(events)->0.requests.take(k + 1),
        cmd.step(cmd.run(events)->0.requests[k], events[k]) is Some,
        cmd.step(cmd.run(events)->0.requests[k], events[k])->0.request == cmd.run(
            events,
        )->0.requests[k + 1],
    decreases events.len(),
{
    let shorter = events.drop_last();
    let before = cmd.run(shorter)->0;
    let whole = cmd.run(events)->0;
    lemma_run_len(cmd, shorter);
    if k == events.len() - 1 {
    } else {
        law_requests_follow_events(cmd, shorter, k);
        assert(shorter.take(k) =~= events.take(k));
    }
}

/// A run of `n` events has made `n + 1` requests, the first of which opens
/// the crate file.
pub proof fn lemma_run_len(cmd: VendorAddCmdView, events: Seq<EventView>)
    requires
        cmd.run(events) is Some,
    ensures
        cmd.run(events)->0.requests.len() == events.len() + 1,
        cmd.run(events)->0.requests[0] == cmd.start().request,
    decreases events.len(),
{
    if events.len() > 0 {
        lemma_run_len(cmd, events.drop_last());
    }
}

/// The first failure halts the run. An event that reports a failure is the
/// last of its run; the run then ends with an error that carries the text of
/// that failure and names the operation that failed.
pub proof fn law_first_failure_halts(
    cmd: VendorAddCmdView,
    events: Seq<EventView>,
    k: int,
    cause: Seq<u8>,
)
    requires
        cmd.run(events) is Some,
        0 <= k < events.len(),
        events[k] == EventView::Failed(cause),
    ensures
        k == events.len() - 1,
        cmd.run(events)->0.requests.last() == RequestView::Finish(
            Err(
                match cmd.run(events)->0.requests[k] {
                    RequestView::OpenArchive { .. } => ErrorView::OpeningCrate(cause),
                    RequestView::ListEntries => ErrorView::ReadingCrate(cause),
                    RequestView::CreateSidecar { .. } => ErrorView::OpeningChecksumFile(cause),
                    RequestView::WriteSidecar { .. } => ErrorView::WritingChecksumFile(cause),
                    _ => ErrorView::WritingToVendor(cause),
                },
            ),
        ),
        cmd.run(events)->0.requests[k] !is NextEntry,
        cmd.run(events)->0.requests[k] !is Finish,
{
    law_requests_follow_events(cmd, events, k);
    if k + 1 < events.len() {
        law_requests_follow_events(cmd, events, k + 1);
    }
}

/// Nothing follows the end of a run: a request to finish is the last
/// request.
pub proof fn law_finish_is_last(cmd: VendorAddCmdView, events: Seq<EventView>, i: int)
    requires
        cmd.run(events) is Some,
        0 <= i <= events.len(),
        cmd.run(events)->0.requests[i] is Finish,
    ensures
        i == events.len(),
{
    if i < events.len() {
        law_requests_follow_events(cmd, events, i);
    }
}

/// A checksum file is generated for manifests only. Where a run asks to
/// create one, the event just before was an entry whose last component is
/// the manifest name, and the file lies in that entry's directory under the
/// vendor path.
pub proof fn law_sidecar_only_for_manifest(cmd: VendorAddCmdView, events: Seq<EventView>, i: int)
    requires
        cmd.run(events) is Some,
        0 <= i <= events.len(),
        cmd.run(events)->0.requests[i] is CreateSidecar,
    ensures
        i >= 1,
        cmd.run(events)->0.requests[i - 1] == RequestView::NextEntry,
        events[i - 1] == EventView::Entry(cmd.run(events)->0.requests[i]->CreateSidecar_entry),
        file_name(cmd.run(events)->0.requests[i]->CreateSidecar_entry) == Some(
            MANIFEST_NAME.spec_bytes(),
        ),
        manifest_dir(cmd.run(events)->0.requests[i]->CreateSidecar_entry) is Some,
        cmd.run(events)->0.requests[i]->CreateSidecar_path == sidecar_path(
            cmd.vendor_path,
            manifest_dir(cmd.run(events)->0.requests[i]->CreateSidecar_entry)->0,
        ),
{
    lemma_run_len(cmd, events);
    law_requests_follow_events(cmd, events, i - 1);
}

/// An entry that is no manifest is unpacked at once: where the archive gives
/// an entry whose last component is not the manifest name, the next request
/// unpacks that entry under the vendor path, whatever directory it lies in.
pub proof fn law_other_entries_get_no_sidecar(
    cmd: VendorAddCmdView,
    events: Seq<EventView>,
    k: int,
    entry: Seq<u8>,
)
    requires
        cmd.run(events) is Some,
        0 <= k < events.len(),
        events[k] == EventView::Entry(entry),
        file_name(entry) != Some(MANIFEST_NAME.spec_bytes()),
    ensures
        cmd.run(events)->0.requests[k + 1] == (RequestView::UnpackEntry {
            root: cmd.vendor_path,
            entry,
        }),
{
    law_requests_follow_events(cmd, events, k);
}

/// A manifest is unpacked only after its checksum file has been written.
/// Where a run asks to unpack an entry whose last component is the manifest
/// name, the two requests before created the checksum file in that entry's
/// directory under the vendor path and wrote the fixed content to it, and
/// both succeeded.
pub proof fn law_sidecar_before_manifest(cmd: VendorAddCmdView, events: Seq<EventView>, i: int)
    requires
        cmd.run(events) is Some,
        0 <= i <= events.len(),
        cmd.run(events)->0.requests[i] is UnpackEntry,
        file_name(cmd.run(events)->0.requests[i]->UnpackEntry_entry) == Some(
            MANIFEST_NAME.spec_bytes(),
        ),
    ensures
        i >= 3,
        manifest_dir(cmd.run(events)->0.requests[i]->UnpackEntry_entry) is Some,
        cmd.run(events)->0.requests[i - 2] == (RequestView::CreateSidecar {
            path: sidecar_path(
                cmd.vendor_path,
                manifest_dir(cmd.run(events)->0.requests[i]->UnpackEntry_entry)->0,
            ),
            entry: cmd.run(events)->0.requests[i]->UnpackEntry_entry,
        }),
        events[i - 2] == EventView::Done,
        cmd.run(events)->0.requests[i - 1] == (RequestView::WriteSidecar {
            content: SIDECAR_CONTENT.spec_bytes(),
            entry: cmd.run(events)->0.requests[i]->UnpackEntry_entry,
        }),
        events[i - 1] == EventView::Done,
        cmd.run(events)->0.requests[i]->UnpackEntry_root == cmd.vendor_path,
{
    lemma_run_len(cmd, events);
    law_requests_follow_events(cmd, events, i - 1);
    let requests = cmd.run(events)->0.requests;
    law_requests_follow_events(cmd, events, i - 2);
    law_sidecar_only_for_manifest(cmd, events, i - 2);
}

/// Every manifest gets its checksum file. Where the archive gives an entry
/// whose last component is the manifest name, the next request creates the
/// checksum file in that entry's directory under the vendor path; once that
/// has succeeded, the fixed content is written to it; and once that has
/// succeeded, the entry itself is unpacked under the vendor path.
pub proof fn law_manifest_gets_sidecar(
    cmd: VendorAddCmdView,
    events: Seq<EventView>,
    k: int,
    entry: Seq<u8>,
)
    requires
        cmd.run(events) is Some,
        0 <= k < events.len(),
        events[k] == EventView::Entry(entry),
        file_name(entry) == Some(MANIFEST_NAME.spec_bytes()),
    ensures
        manifest_dir(entry) is Some,
        cmd.run(events)->0.requests[k + 1] == (RequestView::CreateSidecar {
            path: sidecar_path(cmd.vendor_path, manifest_dir(entry)->0),
            entry,
        }),
        k + 1 < events.len() && events[k + 1] == EventView::Done ==> cmd.run(
            events,
        )->0.requests[k + 2] == (RequestView::WriteSidecar {
            content: SIDECAR_CONTENT.spec_bytes(),
            entry,
        }),
        k + 2 < events.len() && events[k + 1] == EventView::Done && events[k + 2]
            == EventView::Done ==> cmd.run(events)->0.requests[k + 3]
            == (RequestView::UnpackEntry { root: cmd.vendor_path, entry }),
{
    law_requests_follow_events(cmd, events, k);
    if k + 1 < events.len() {
        law_requests_follow_events(cmd, events, k + 1);
    }
    if k + 2 < events.len() {
        law_requests_follow_events(cmd, events, k + 2);
    }
}

/// When the crate file cannot be opened, the run prints the line that names
/// it and ends with the error for that; it has asked for nothing to be
/// written. The line that reports the error begins with
/// `error: opening crate file: ` and goes on with the text of the failure.
pub proof fn law_open_failure(cmd: VendorAddCmdView, cause: Seq<u8>)
    ensures
        cmd.run(seq![EventView::Failed(cause)]) == Some(
            TranscriptView {
                lines: seq![reading_line(cmd.crate_)],
                requests: seq![
                    RequestView::OpenArchive { path: cmd.crate_ },
                    RequestView::Finish(Err(ErrorView::OpeningCrate(cause))),
                ],
            },
        ),
        ErrorView::OpeningCrate(cause).report() == "error: opening crate file: ".spec_bytes()
            + cause,
{
    let nothing = Seq::<EventView>::empty();
    lemma_run_push(cmd, nothing, EventView::Failed(cause));
    let ran = cmd.run(seq![EventView::Failed(cause)])->0;
    assert(ran.requests =~= seq![
        RequestView::OpenArchive { path: cmd.crate_ },
        RequestView::Finish(Err(ErrorView::OpeningCrate(cause))),
    ]);
    assert("error: ".spec_bytes() + "opening crate file: ".spec_bytes()
        =~= "error: opening crate file: ".spec_bytes()) by {
        reveal_strlit("error: ");
        reveal_strlit("opening crate file: ");
        reveal_strlit("error: opening crate file: ");
        is_ascii_spec_bytes("error: ");
        is_ascii_spec_bytes("opening crate file: ");
        is_ascii_spec_bytes("error: opening crate file: ");
    }
    assert(ErrorView::OpeningCrate(cause).report() =~= "error: opening crate file: ".spec_bytes()
        + cause);
}

/// The checksum file lies beside the manifest. For an entry whose last
/// component is the manifest name, the path of the checksum file and the
/// path at which the entry is written have the same parent, and the file
/// name of the first is the name of the checksum file.
pub proof fn law_sidecar_beside_manifest(vendor_path: Seq<u8>, entry: Seq<u8>)
    requires
        file_name(entry) == Some(MANIFEST_NAME.spec_bytes()),
    ensures
        manifest_dir(entry) is Some,
        file_name(join(vendor_path, entry)) == Some(MANIFEST_NAME.spec_bytes()),
        file_name(sidecar_path(vendor_path, manifest_dir(entry)->0)) == Some(
            SIDECAR_NAME.spec_bytes(),
        ),
        parent(sidecar_path(vendor_path, manifest_dir(entry)->0)) == parent(
            join(vendor_path, entry),
        ),
{
    lemma_names_are_plain();
    let manifest = MANIFEST_NAME.spec_bytes();
    let sidecar = SIDECAR_NAME.spec_bytes();
    let t = trimmed(entry);
    let s = name_start(t);
    let head = t.take(s);
    let dir = trimmed(head);
    lemma_trimmed(entry);
    lemma_name_start(t);
    lemma_trimmed(head);
    // The checksum file, relative to the vendor path.
    let beside = join(dir, sidecar);
    assert(trimmed(dir_prefix(dir)) == dir) by {
        if dir_prefix(dir) != dir {
            assert(dir_prefix(dir).drop_last() =~= dir);
        }
    }
    if is_absolute(entry) {
        assert(s > 0) by {
            if s == 0 {
                assert(t[0] == manifest[0]);
            }
        }
        lemma_name_after_front(dir_prefix(dir), sidecar);
    } else {
        let front = dir_prefix(vendor_path);
        // Where the entry is written.
        lemma_trimmed_absorbs(front, entry);
        assert(front + t =~= (front + head) + manifest);
        assert(front + head == front || (front + head).last() == SEPARATOR) by {
            if s > 0 {
                assert((front + head).last() == t[s - 1]);
            }
        }
        lemma_name_after_front(front + head, manifest);
        lemma_trimmed_absorbs(front, head);
        // Where the checksum file is written.
        assert(!is_absolute(beside));
        assert(front + beside =~= (front + dir_prefix(dir)) + sidecar);
        lemma_name_after_front(front + dir_prefix(dir), sidecar);
        assert(trimmed(front + dir_prefix(dir)) == trimmed(front + dir)) by {
            if dir_prefix(dir) != dir {
                assert((front + dir_prefix(dir)).drop_last() =~= front + dir);
            }
        }
    }
}

/// The events of an entry that is unpacked without a failure: the entry
/// itself, the two successes of its checksum file where it is a manifest,
/// and the success of its unpacking.
pub open spec fn entry_events(entry: Seq<u8>) -> Seq<EventView> {
    if manifest_dir(entry) is Some {
        seq![EventView::Entry(entry), EventView::Done, EventView::Done, EventView::Done]
    } else {
        seq![EventView::Entry(entry), EventView::Done]
    }
}

/// The lines that are printed for an entry that is unpacked without a
/// failure: for a manifest the line of its checksum file, and for every
/// entry the line of the entry itself.
pub open spec fn entry_lines(cmd: VendorAddCmdView, entry: Seq<u8>) -> Seq<Seq<u8>> {
    match manifest_dir(entry) {
        Some(dir) => seq![
            generated_line(sidecar_path(cmd.vendor_path, dir)),
            writing_line(join(cmd.vendor_path, entry)),
        ],
        None => seq![writing_line(join(cmd.vendor_path, entry))],
    }
}

/// The events of a run in which the archive opens, gives `entries` in this
/// order and nothing fails, up to the unpacking of the last of them.
pub open spec fn clean_events(entries: Seq<Seq<u8>>) -> Seq<EventView>
    decreases entries.len(),
{
    if entries.len() == 0 {
        seq![EventView::Done, EventView::Done]
    } else {
        clean_events(entries.drop_last()) + entry_events(entries.last())
    }
}

/// The lines of such a run: the line that names the crate file, then the
/// lines of each entry, in the order of the archive.
pub open spec fn clean_lines(cmd: VendorAddCmdView, entries: Seq<Seq<u8>>) -> Seq<Seq<u8>>
    decreases entries.len(),
{
    if entries.len() == 0 {
        seq![reading_line(cmd.crate_)]
    } else {
        clean_lines(cmd, entries.drop_last()) + entry_lines(cmd, entries.last())
    }
}

/// A run in which nothing fails prints the line that names the crate file
/// and then the lines of each entry in the order of the archive, and after
/// the last entry it asks for the next one.
pub proof fn lemma_clean_run(cmd: VendorAddCmdView, entries: Seq<Seq<u8>>)
    ensures
        cmd.run(clean_events(entries)) is Some,
        cmd.run(clean_events(entries))->0.lines == clean_lines(cmd, entries),
        cmd.run(clean_events(entries))->0.requests.last() == RequestView::NextEntry,
    decreases entries.len(),
{
    if entries.len() == 0 {
        let none = Seq::<EventView>::empty();
        lemma_run_push(cmd, none, EventView::Done);
        lemma_run_push(cmd, none.push(EventView::Done), EventView::Done);
        assert(clean_events(entries) =~= none.push(EventView::Done).push(EventView::Done));
    } else {
        let entry = entries.last();
        let e0 = clean_events(entries.drop_last());
        lemma_clean_run(cmd, entries.drop_last());
        let e1 = e0.push(EventView::Entry(entry));
        let e2 = e1.push(EventView::Done);
        lemma_run_push(cmd, e0, EventView::Entry(entry));
        lemma_run_push(cmd, e1, EventView::Done);
        if manifest_dir(entry) is Some {
            let e3 = e2.push(EventView::Done);
            let e4 = e3.push(EventView::Done);
            lemma_run_push(cmd, e2, EventView::Done);
            lemma_run_push(cmd, e3, EventView::Done);
            assert(clean_events(entries) =~= e4);
        } else {
            assert(clean_events(entries) =~= e2);
        }
    }
}

/// The lines of a run are printed in the order of the archive. Where the
/// archive opens, gives `entries` in this order and then ends, and nothing
/// fails, the run prints the line that names the crate file, then for each
/// entry in turn the line of its checksum file, if it is a manifest, and the
/// line of the entry; and it ends well.
pub proof fn law_lines_follow_archive(cmd: VendorAddCmdView, entries: Seq<Seq<u8>>)
    ensures
        cmd.run(clean_events(entries).push(EventView::End)) is Some,
        cmd.run(clean_events(entries).push(EventView::End))->0.lines == clean_lines(cmd, entries),
        cmd.run(clean_events(entries).push(EventView::End))->0.requests.last()
            == RequestView::Finish(Ok(())),
{
    lemma_clean_run(cmd, entries);
    lemma_run_push(cmd, clean_events(entries), EventView::End);
    assert(cmd.run(clean_events(entries).push(EventView::End))->0.lines =~= clean_lines(
        cmd,
        entries,
    ));
}

/// An entry that cannot be parsed is passed over in silence. Where the next
/// entry is awaited after `before`, a run in which a damaged entry comes at
/// that point is accepted exactly when the run without it is; it prints the
/// same lines and makes the same requests, but for the one that asks again
/// for the next entry.
pub proof fn law_damaged_entry_is_skipped(
    cmd: VendorAddCmdView,
    before: Seq<EventView>,
    after: Seq<EventView>,
)
    requires
        cmd.run(before) is Some,
        cmd.run(before)->0.requests.last() == RequestView::NextEntry,
    ensures
        cmd.run(before.push(EventView::Damaged) + after) is Some <==> cmd.run(before + after)
            is Some,
        cmd.run(before + after) is Some ==> {
            &&& cmd.run(before.push(EventView::Damaged) + after)->0.lines == cmd.run(
                before + after,
            )->0.lines
            &&& cmd.run(before.push(EventView::Damaged) + after)->0.requests == cmd.run(
                before + after,
            )->0.requests.insert(before.len() as int + 1, RequestView::NextEntry)
        },
    decreases after.len(),
{
    let with = before.push(EventView::Damaged);
    lemma_run_len(cmd, before);
    if after.len() == 0 {
        lemma_run_push(cmd, before, EventView::Damaged);
        let ran = cmd.run(before)->0;
        assert(cmd.run(with)->0.requests =~= ran.requests.insert(
            before.len() as int + 1,
            RequestView::NextEntry,
        ));
    } else {
        let shorter = after.drop_last();
        let event = after.last();
        law_damaged_entry_is_skipped(cmd, before, shorter);
        assert(before + after =~= (before + shorter).push(event));
        assert(with + after =~= (with + shorter).push(event));
        lemma_run_push(cmd, before + shorter, event);
        lemma_run_push(cmd, with + shorter, event);
        if cmd.run(before + shorter) is Some {
            let plain = cmd.run(before + shorter)->0;
            let other = cmd.run(with + shorter)->0;
            lemma_run_len(cmd, before + shorter);
            if cmd.run(before + after) is Some {
                let step = cmd.step(plain.requests.last(), event)->0;
                assert(other.requests.push(step.request) =~= plain.requests.push(
                    step.request,
                ).insert(before.len() as int + 1, RequestView::NextEntry));
            }
        }
    }
}

} // verus!
