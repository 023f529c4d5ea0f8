//! Whole runs of the ingestion machine, and what holds of them.
use vstd::prelude::*;
use crate::naming::{joined, sanitized};
use crate::pipeline::{step_spec, ActionModel, ErrorModel, EventModel, IngestionModel, Phase};
use crate::upload::{lossy_text, record_of, stored_name_of, PartModel, RecordModel};

verus! {

/// The state and the answers after feeding `evs` one by one from `s`; the
/// `i`-th event is answered with `fresh[i]` as its generated identifier.
pub open spec fn run(s: IngestionModel, evs: Seq<EventModel>, fresh: Seq<Seq<char>>) -> (IngestionModel, Seq<ActionModel>)
    decreases evs.len(),
{
    if evs.len() == 0 {
        (s, Seq::empty())
    } else {
        let (s1, a) = step_spec(s, evs[0], fresh[0]);
        let (s2, rest) = run(s1, evs.drop_first(), fresh.drop_first());
        (s2, seq![a] + rest)
    }
}

/// A new ingestion into `dir`.
pub open spec fn start(dir: Seq<char>) -> IngestionModel {
    IngestionModel { dir, records: Seq::empty(), phase: Phase::AwaitingPart }
}

/// The events of a stream whose parts arrive whole, in this order.
pub open spec fn part_events(parts: Seq<PartModel>) -> Seq<EventModel> {
    parts.map_values(|p: PartModel| EventModel::Part(p))
}

pub open spec fn text_record_of(p: PartModel) -> RecordModel {
    RecordModel::Text { field: p.name, value: lossy_text(p.bytes) }
}

proof fn lemma_text_parts_then_end(s: IngestionModel, parts: Seq<PartModel>, fresh: Seq<Seq<char>>)
    requires
        s.phase == Phase::AwaitingPart,
        forall|i: int| 0 <= i < parts.len() ==> (#[trigger] parts[i]).content_type.is_none(),
    ensures
        ({
            let (t, acts) = run(s, part_events(parts).push(EventModel::StreamEnded), fresh);
            &&& acts.len() == parts.len() + 1
            &&& forall|i: int| 0 <= i < parts.len() ==> acts[i] == ActionModel::ReadNext
            &&& acts[parts.len() as int] == ActionModel::Finish(
                s.records + parts.map_values(|p: PartModel| text_record_of(p)),
            )
            &&& t.phase == Phase::Ended
        }),
    decreases parts.len(),
{
    let evs = part_events(parts).push(EventModel::StreamEnded);
    if parts.len() == 0 {
        assert(evs.drop_first() =~= Seq::<EventModel>::empty());
        assert(evs[0] == EventModel::StreamEnded);
        assert(s.records + parts.map_values(|p: PartModel| text_record_of(p)) =~= s.records);
        let (s1, a) = step_spec(s, evs[0], fresh[0]);
        assert(a == ActionModel::Finish(s.records));
        let (t1, acts1) = run(s1, evs.drop_first(), fresh.drop_first());
        assert(acts1.len() == 0);
        let (t, acts) = run(s, evs, fresh);
        assert(acts =~= seq![a]);
    } else {
        let rest = parts.drop_first();
        assert(evs.drop_first() =~= part_events(rest).push(EventModel::StreamEnded));
        assert(evs[0] == EventModel::Part(parts[0]));
        let (s1, a) = step_spec(s, evs[0], fresh[0]);
        assert(parts[0].content_type.is_none());
        assert(s1.records == s.records.push(text_record_of(parts[0])));
        assert forall|i: int| 0 <= i < rest.len() implies (#[trigger] rest[i]).content_type.is_none() by {
            assert(rest[i] == parts[i + 1]);
        }
        lemma_text_parts_then_end(s1, rest, fresh.drop_first());
        assert(s1.records + rest.map_values(|p: PartModel| text_record_of(p)) =~= s.records
            + parts.map_values(|p: PartModel| text_record_of(p)));
        let (t, acts) = run(s, evs, fresh);
        let (t1, acts1) = run(s1, evs.drop_first(), fresh.drop_first());
        assert(acts == seq![a] + acts1);
        assert forall|i: int| 0 <= i < parts.len() implies acts[i] == ActionModel::ReadNext by {
            if i > 0 {
                assert(acts[i] == acts1[i - 1]);
            }
        }
        assert(acts[parts.len() as int] == acts1[rest.len() as int]);
    }
}

/// A stream of parts none of which carries content-type metadata yields one
/// text record per part, in arrival order, and asks for no file to be written.
pub proof fn lemma_text_only_stream(dir: Seq<char>, parts: Seq<PartModel>, fresh: Seq<Seq<char>>)
    requires
        forall|i: int| 0 <= i < parts.len() ==> (#[trigger] parts[i]).content_type.is_none(),
    ensures
        ({
            let (t, acts) = run(start(dir), part_events(parts).push(EventModel::StreamEnded), fresh);
            &&& acts.len() == parts.len() + 1
            &&& forall|i: int| 0 <= i < parts.len() ==> acts[i] == ActionModel::ReadNext
            &&& acts[parts.len() as int] == ActionModel::Finish(
                parts.map_values(|p: PartModel| text_record_of(p)),
            )
        }),
{
    lemma_text_parts_then_end(start(dir), parts, fresh);
    assert(start(dir).records + parts.map_values(|p: PartModel| text_record_of(p)) =~= parts.map_values(
        |p: PartModel| text_record_of(p),
    ));
}

proof fn lemma_failed_absorbs(s: IngestionModel, evs: Seq<EventModel>, fresh: Seq<Seq<char>>)
    requires
        s.phase == Phase::Failed,
    ensures
        ({
            let (t, acts) = run(s, evs, fresh);
            &&& t.phase == Phase::Failed
            &&& acts.len() == evs.len()
            &&& forall|i: int| 0 <= i < acts.len() ==> acts[i] == ActionModel::Abort(ErrorModel::Malformed)
        }),
    decreases evs.len(),
{
    if evs.len() > 0 {
        let (s1, a) = step_spec(s, evs[0], fresh[0]);
        lemma_failed_absorbs(s1, evs.drop_first(), fresh.drop_first());
        let (t, acts) = run(s, evs, fresh);
        let (t1, acts1) = run(s1, evs.drop_first(), fresh.drop_first());
        assert forall|i: int| 0 <= i < acts.len() implies acts[i] == ActionModel::Abort(ErrorModel::Malformed) by {
            if i > 0 {
                assert(acts[i] == acts1[i - 1]);
            }
        }
    }
}

/// When the write a file part asked for fails, the ingestion aborts with that
/// failure, and whatever events follow, it never hands out records.
pub proof fn lemma_write_failure_aborts(s: IngestionModel, msg: Seq<char>, evs: Seq<EventModel>, fresh: Seq<Seq<char>>)
    requires
        s.phase == Phase::Writing,
    ensures
        ({
            let (t, acts) = run(s, seq![EventModel::WriteFailed(msg)] + evs, fresh);
            &&& acts[0] == ActionModel::Abort(ErrorModel::Persistence(msg))
            &&& t.phase == Phase::Failed
            &&& forall|i: int| 0 <= i < acts.len() ==> !(#[trigger] acts[i] is Finish)
        }),
{
    let all = seq![EventModel::WriteFailed(msg)] + evs;
    assert(all.drop_first() =~= evs);
    let (s1, a) = step_spec(s, all[0], fresh[0]);
    lemma_failed_absorbs(s1, evs, fresh.drop_first());
    let (t, acts) = run(s, all, fresh);
    let (t1, acts1) = run(s1, evs, fresh.drop_first());
    assert forall|i: int| 0 <= i < acts.len() implies !(#[trigger] acts[i] is Finish) by {
        if i > 0 {
            assert(acts[i] == acts1[i - 1]);
        }
    }
}

/// A file part is written under its sanitized declared filename (or the
/// generated identifier) directly in the destination directory, with exactly
/// its own bytes, and its record names that file.
pub proof fn lemma_file_part_written_verbatim(s: IngestionModel, p: PartModel, fresh: Seq<char>)
    requires
        s.phase == Phase::AwaitingPart,
        p.content_type.is_some(),
    ensures
        ({
            let (t, a) = step_spec(s, EventModel::Part(p), fresh);
            &&& a == ActionModel::Write { path: joined(s.dir, stored_name_of(p.filename, fresh)), bytes: p.bytes }
            &&& t.records.last() == record_of(p, fresh)
            &&& t.records.last() is File && t.records.last()->File_bytes == p.bytes
            &&& t.phase == Phase::Writing
        }),
        p.filename is Some ==> stored_name_of(p.filename, fresh) == sanitized(p.filename->0),
{
}

/// The events of a stream whose parts all succeed: each part arrives whole,
/// and each file part's write is reported done before the next part.
pub open spec fn accepted_events(parts: Seq<PartModel>) -> Seq<EventModel>
    decreases parts.len(),
{
    if parts.len() == 0 {
        Seq::empty()
    } else if parts[0].content_type.is_some() {
        seq![EventModel::Part(parts[0]), EventModel::Written] + accepted_events(parts.drop_first())
    } else {
        seq![EventModel::Part(parts[0])] + accepted_events(parts.drop_first())
    }
}

/// The identifiers of `accepted_events(parts)`, one for each event: part
/// `i` is answered with `names[i]`.
pub open spec fn aligned_names(parts: Seq<PartModel>, names: Seq<Seq<char>>) -> Seq<Seq<char>>
    decreases parts.len(),
{
    if parts.len() == 0 {
        Seq::empty()
    } else if parts[0].content_type.is_some() {
        seq![names[0], Seq::empty()] + aligned_names(parts.drop_first(), names.drop_first())
    } else {
        seq![names[0]] + aligned_names(parts.drop_first(), names.drop_first())
    }
}

pub open spec fn records_for(parts: Seq<PartModel>, names: Seq<Seq<char>>) -> Seq<RecordModel> {
    Seq::new(parts.len(), |i: int| record_of(parts[i], names[i]))
}

proof fn lemma_accepted_then_end(s: IngestionModel, parts: Seq<PartModel>, names: Seq<Seq<char>>)
    requires
        s.phase == Phase::AwaitingPart,
        names.len() == parts.len(),
    ensures
        ({
            let (t, acts) = run(
                s,
                accepted_events(parts).push(EventModel::StreamEnded),
                aligned_names(parts, names).push(Seq::empty()),
            );
            &&& acts.last() == ActionModel::Finish(s.records + records_for(parts, names))
            &&& forall|i: int| 0 <= i < acts.len() - 1 ==> !(#[trigger] acts[i] is Finish) && !(acts[i] is Abort)
        }),
    decreases parts.len(),
{
    let evs = accepted_events(parts).push(EventModel::StreamEnded);
    let fr = aligned_names(parts, names).push(Seq::empty());
    if parts.len() == 0 {
        assert(evs =~= seq![EventModel::StreamEnded]);
        assert(s.records + records_for(parts, names) =~= s.records);
        let (s1, a) = step_spec(s, evs[0], fr[0]);
        let (t1, acts1) = run(s1, evs.drop_first(), fr.drop_first());
        assert(acts1.len() == 0);
        let (t, acts) = run(s, evs, fr);
        assert(acts =~= seq![a]);
    } else {
        let p = parts[0];
        let rest = parts.drop_first();
        let rnames = names.drop_first();
        let tail = accepted_events(rest).push(EventModel::StreamEnded);
        let ftail = aligned_names(rest, rnames).push(Seq::empty());
        let s1 = step_spec(s, EventModel::Part(p), names[0]).0;
        assert(s1.records == s.records.push(record_of(p, names[0])));
        lemma_accepted_then_end(
            IngestionModel { dir: s.dir, records: s1.records, phase: Phase::AwaitingPart },
            rest,
            rnames,
        );
        assert(s.records + records_for(parts, names) =~= s1.records + records_for(rest, rnames));
        let (t, acts) = run(s, evs, fr);
        if p.content_type.is_some() {
            assert(evs =~= seq![EventModel::Part(p), EventModel::Written] + tail);
            assert(fr =~= seq![names[0], Seq::<char>::empty()] + ftail);
            assert(evs.drop_first() =~= seq![EventModel::Written] + tail);
            assert(evs.drop_first().drop_first() =~= tail);
            assert(fr.drop_first().drop_first() =~= ftail);
            let (s2, a2) = step_spec(s1, EventModel::Written, Seq::empty());
            assert(s2 == IngestionModel { dir: s.dir, records: s1.records, phase: Phase::AwaitingPart });
            let (t1, acts1) = run(s1, evs.drop_first(), fr.drop_first());
            let (t2, acts2) = run(s2, tail, ftail);
            assert(acts1 == seq![a2] + acts2);
            assert(acts =~= seq![step_spec(s, EventModel::Part(p), names[0]).1, a2] + acts2);
            assert forall|i: int| 0 <= i < acts.len() - 1 implies !(#[trigger] acts[i] is Finish) && !(acts[i] is Abort) by {
                if i >= 2 {
                    assert(acts[i] == acts2[i - 2]);
                }
            }
        } else {
            assert(evs =~= seq![EventModel::Part(p)] + tail);
            assert(fr =~= seq![names[0]] + ftail);
            assert(evs.drop_first() =~= tail);
            assert(fr.drop_first() =~= ftail);
            let (t1, acts1) = run(s1, tail, ftail);
            assert(acts =~= seq![step_spec(s, EventModel::Part(p), names[0]).1] + acts1);
            assert forall|i: int| 0 <= i < acts.len() - 1 implies !(#[trigger] acts[i] is Finish) && !(acts[i] is Abort) by {
                if i >= 1 {
                    assert(acts[i] == acts1[i - 1]);
                }
            }
        }
    }
}

/// Every part yields exactly one record, in arrival order: when all parts are
/// read and every write succeeds, the ingestion hands out the record of each
/// part, and neither finishes nor aborts before the stream ends.
pub proof fn lemma_records_follow_parts(dir: Seq<char>, parts: Seq<PartModel>, names: Seq<Seq<char>>)
    requires
        names.len() == parts.len(),
    ensures
        ({
            let (t, acts) = run(
                start(dir),
                accepted_events(parts).push(EventModel::StreamEnded),
                aligned_names(parts, names).push(Seq::empty()),
            );
            &&& acts.last() == ActionModel::Finish(records_for(parts, names))
            &&& forall|i: int| 0 <= i < acts.len() - 1 ==> !(#[trigger] acts[i] is Finish) && !(acts[i] is Abort)
        }),
{
    lemma_accepted_then_end(start(dir), parts, names);
    assert(start(dir).records + records_for(parts, names) =~= records_for(parts, names));
}

} // verus!
