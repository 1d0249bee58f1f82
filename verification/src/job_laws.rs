//! Laws of conversions and merges, step by step.
//!
//! A run is a sequence of points, each with a job and its thing to do, and of the events that
//! lead from one point to the next.

use crate::converter::{anim_exts, frame_file, office_exts, Arg, ArgView, ConvertError, ErrorView};
use crate::converter_laws::{
    law_a_frame_is_decoded_by_its_extension, law_pictures_have_formats,
    law_the_list_names_all_frames, law_what_becomes_what, names_animation, names_document,
    names_picture, names_video,
};
use crate::job::{
    frame_step, job_next, job_start, office_output, page_step, Job, JobAction, JobActionView,
    JobEvent, JobOutput, JobOutputView, JobStage, JobStageView, JobView,
};
use crate::merge_job::{
    merge_job_goes_on, reads_on, same_merge_job, video_args, MergeJob, MergeJobAction,
    MergeJobActionView, MergeJobEvent, MergeJobStage,
};
use crate::pictures::{
    converted, gif_decoded, gif_encoded, known_format, raster_views, rgb_encoded, rgba_decoded,
    rgba_encoded, EncodedView, FrameFile, Raster, RasterView,
};
use vstd::prelude::*;

verus! {

/// A point of the run of a conversion.
pub struct JobPoint {
    pub job: JobView,
    pub action: JobActionView,
}

/// Whether the points follow one another with the given events.
pub open spec fn is_job_run(points: Seq<JobPoint>, events: Seq<JobEvent>) -> bool {
    &&& points.len() == events.len() + 1
    &&& forall|i: int|
        0 <= i < events.len() ==> job_follows(#[trigger] points[i], events[i], points[i + 1])
}

/// Whether the point `q` follows the point `p` after the event `e`.
pub open spec fn job_follows(p: JobPoint, e: JobEvent, q: JobPoint) -> bool {
    &&& q.job.to_ext == p.job.to_ext
    &&& q.job.stem == p.job.stem
    &&& (q.job.stage, q.action) == job_next(p.job, e)
}

/// The end with frames in the directory.
pub open spec fn frames_made() -> JobActionView {
    JobActionView::Finish { result: Ok(JobOutputView::FrameDir) }
}

/// Whether the frame of index `k` is saved under its name.
pub open spec fn saves_frame(
    a: JobActionView,
    frames: Seq<RasterView>,
    ext: Seq<char>,
    k: int,
) -> bool {
    a matches JobActionView::Save { name, bytes } && name == frame_file((k + 1) as nat, ext)
        && rgba_encoded(frames[k], ext) == (EncodedView { bytes, whole: true })
}

/// Where the conversion of a GIF ends well, every frame has been saved, once, in order and
/// under its own name: the first point of the run stands right after the frames were decoded,
/// and the last one is the first at which the end is reached.
pub proof fn law_every_frame_is_saved(
    points: Seq<JobPoint>,
    events: Seq<JobEvent>,
    frames: Seq<RasterView>,
)
    requires
        is_job_run(points, events),
        (points[0].job.stage, points[0].action) == frame_step(frames, 0, points[0].job.to_ext),
        points.last().action == frames_made(),
        forall|i: int| 0 <= i < events.len() ==> !((#[trigger] points[i]).action is Finish),
    ensures
        events.len() == frames.len(),
        forall|k: int|
            #![trigger points[k]]
            0 <= k < frames.len() ==> saves_frame(
                points[k].action,
                frames,
                points[0].job.to_ext,
                k,
            ) && events[k] is Done,
{
    let n = events.len() as int;
    assert forall|k: int| #![trigger points[k]] 0 <= k < n implies saves_frame(
        points[k].action,
        frames,
        points[0].job.to_ext,
        k,
    ) && events[k] is Done && k < frames.len() by {
        lemma_frame_point(points, events, frames, k);
        lemma_frame_point(points, events, frames, k + 1);
        assert(job_follows(points[k], events[k], points[k + 1]));
        assert(!(points[k].action is Finish));
        if k + 1 < n {
            assert(!(points[k + 1].action is Finish));
        }
    }
    lemma_frame_point(points, events, frames, n);
    if n > 0 {
        assert(points[n - 1].action is Save);
    }
}

proof fn lemma_frame_point(
    points: Seq<JobPoint>,
    events: Seq<JobEvent>,
    frames: Seq<RasterView>,
    i: int,
)
    requires
        is_job_run(points, events),
        (points[0].job.stage, points[0].action) == frame_step(frames, 0, points[0].job.to_ext),
        points.last().action == frames_made(),
        forall|i: int| 0 <= i < events.len() ==> !((#[trigger] points[i]).action is Finish),
        0 <= i < points.len(),
    ensures
        points[i].job.to_ext == points[0].job.to_ext,
        (points[i].job.stage, points[i].action) == frame_step(
            frames,
            i as nat,
            points[0].job.to_ext,
        ),
    decreases i,
{
    if i > 0 {
        lemma_frame_point(points, events, frames, i - 1);
        assert(job_follows(points[i - 1], events[i - 1], points[i]));
        assert(!(points[i - 1].action is Finish));
        if i < events.len() {
            assert(!(points[i].action is Finish));
        }
    }
}

/// Whether the page of index `k` is saved under its name, as `r` shows it.
pub open spec fn saves_page(a: JobActionView, r: RasterView, ext: Seq<char>, k: int) -> bool {
    a matches JobActionView::Save { name, bytes } && name == frame_file((k + 1) as nat, ext)
        && rgb_encoded(r, ext) == (EncodedView { bytes, whole: true })
}

/// Where the conversion of a PDF document ends well, every page has been drawn and then saved,
/// once, in order and under its own name: the first point of the run stands right after the
/// pages were counted, and the last one is the first at which the end is reached.
pub proof fn law_every_page_is_saved(
    points: Seq<JobPoint>,
    events: Seq<JobEvent>,
    pages: i32,
)
    requires
        is_job_run(points, events),
        0 <= pages,
        (points[0].job.stage, points[0].action) == page_step(0, pages),
        points.last().action == frames_made(),
        forall|i: int| 0 <= i < events.len() ==> !((#[trigger] points[i]).action is Finish),
    ensures
        events.len() == 2 * pages,
        forall|k: int|
            #![trigger points[2 * k]]
            0 <= k < pages ==> {
                &&& points[2 * k].action == (JobActionView::DrawPage { page: k as i32 })
                &&& events[2 * k] matches JobEvent::Page(r) && saves_page(
                    points[2 * k + 1].action,
                    r@,
                    points[0].job.to_ext,
                    k,
                )
                &&& events[2 * k + 1] is Done
            },
{
    let n = events.len() as int;
    assert forall|k: int| #![trigger points[2 * k]] 0 <= k && 2 * k < n implies {
        &&& points[2 * k].action == (JobActionView::DrawPage { page: k as i32 })
        &&& events[2 * k] matches JobEvent::Page(r) && saves_page(
            points[2 * k + 1].action,
            r@,
            points[0].job.to_ext,
            k,
        )
        &&& events[2 * k + 1] is Done
    } by {
        lemma_page_point(points, events, pages, k);
        lemma_next_page(points, events, pages, k);
    }
    lemma_page_point(points, events, pages, n / 2);
    if n % 2 == 1 {
        lemma_next_page(points, events, pages, n / 2);
    }
}

proof fn lemma_rest_ends(p: JobPoint, e: JobEvent, q: JobPoint)
    requires
        p.job.stage is SavingRest,
        job_follows(p, e, q),
    ensures
        q.action is Finish,
        q.action != frames_made(),
{
}

proof fn lemma_page_drawn(p: JobPoint, e: JobEvent, q: JobPoint, page: int, pages: i32)
    requires
        0 <= page <= pages,
        (p.job.stage, p.action) == page_step(page, pages),
        !(p.action is Finish),
        job_follows(p, e, q),
    ensures
        page < pages,
        q.action is Finish ==> q.action != frames_made(),
        !(q.action is Finish) && !(q.job.stage is SavingRest) ==> {
            &&& q.job.stage == (JobStageView::SavingPage { page: page as i32, pages })
            &&& e matches JobEvent::Page(r) && saves_page(q.action, r@, p.job.to_ext, page)
        },
{
}

proof fn lemma_page_saved(p: JobPoint, e: JobEvent, q: JobPoint, page: int, pages: i32)
    requires
        0 <= page < pages,
        p.job.stage == (JobStageView::SavingPage { page: page as i32, pages }),
        job_follows(p, e, q),
        q.action is Finish ==> q.action == frames_made(),
    ensures
        e is Done,
        (q.job.stage, q.action) == page_step(page + 1, pages),
{
}

/// Whether the page of index `k` was drawn, is saved at `q`, and that went well.
spec fn page_done(q: JobPoint, e: JobEvent, f: JobEvent, ext: Seq<char>, k: int) -> bool {
    &&& e matches JobEvent::Page(page) && saves_page(q.action, page@, ext, k)
    &&& f is Done
}

proof fn lemma_page_pair(
    p: JobPoint,
    e: JobEvent,
    q: JobPoint,
    f: JobEvent,
    r: JobPoint,
    page: int,
    pages: i32,
)
    requires
        0 <= page <= pages,
        (p.job.stage, p.action) == page_step(page, pages),
        !(p.action is Finish),
        !(q.action is Finish),
        job_follows(p, e, q),
        job_follows(q, f, r),
        r.action is Finish ==> r.action == frames_made(),
    ensures
        page < pages,
        page_done(q, e, f, p.job.to_ext, page),
        r.job.to_ext == p.job.to_ext,
        (r.job.stage, r.action) == page_step(page + 1, pages),
{
    lemma_page_drawn(p, e, q, page, pages);
    if q.job.stage is SavingRest {
        lemma_rest_ends(q, f, r);
    }
    lemma_page_saved(q, f, r, page, pages);
}

proof fn lemma_page_point(points: Seq<JobPoint>, events: Seq<JobEvent>, pages: i32, k: int)
    requires
        is_job_run(points, events),
        0 <= pages,
        (points[0].job.stage, points[0].action) == page_step(0, pages),
        points.last().action == frames_made(),
        forall|i: int| 0 <= i < events.len() ==> !((#[trigger] points[i]).action is Finish),
        0 <= k,
        2 * k <= events.len(),
    ensures
        k <= pages,
        points[2 * k].job.to_ext == points[0].job.to_ext,
        (points[2 * k].job.stage, points[2 * k].action) == page_step(k, pages),
    decreases k,
{
    if k > 0 {
        lemma_page_point(points, events, pages, k - 1);
        lemma_next_page(points, events, pages, k - 1);
    }
}

proof fn lemma_next_page(points: Seq<JobPoint>, events: Seq<JobEvent>, pages: i32, k: int)
    requires
        is_job_run(points, events),
        points.last().action == frames_made(),
        forall|i: int| 0 <= i < events.len() ==> !((#[trigger] points[i]).action is Finish),
        0 <= k <= pages,
        (points[2 * k].job.stage, points[2 * k].action) == page_step(k, pages),
        2 * k < events.len(),
    ensures
        k < pages,
        2 * k + 1 < events.len(),
        page_done(
            points[2 * k + 1],
            events[2 * k],
            events[2 * k + 1],
            points[2 * k].job.to_ext,
            k,
        ),
        points[2 * k + 2].job.to_ext == points[2 * k].job.to_ext,
        (points[2 * k + 2].job.stage, points[2 * k + 2].action) == page_step(k + 1, pages),
{
    let n = events.len() as int;
    let i = 2 * k;
    let p = points[i];
    let q = points[i + 1];
    assert(!(p.action is Finish));
    assert(job_follows(p, events[i], q));
    lemma_page_drawn(p, events[i], q, k, pages);
    assert(i + 1 < n);
    assert(!(q.action is Finish));
    let r = points[i + 2];
    assert(job_follows(q, events[i + 1], r));
    if i + 2 < n {
        assert(!(r.action is Finish));
    }
    lemma_page_pair(p, events[i], q, events[i + 1], r, k, pages);
}

/// That a program is missing is reported only where it was looked for and not found.
pub proof fn law_a_missing_tool_was_looked_for(
    points: Seq<JobPoint>,
    events: Seq<JobEvent>,
    i: int,
    tool: &'static str,
)
    requires
        is_job_run(points, events),
        0 < i < points.len(),
        points[i].action == (JobActionView::Finish { result: Err(ErrorView::ToolNotFound(tool)) }),
    ensures
        events[i - 1] == (JobEvent::Tool { found: false }),
        points[i - 1].job.stage is FindingFfmpeg || points[i - 1].job.stage is FindingOffice,
{
    assert(job_follows(points[i - 1], events[i - 1], points[i]));
}

/// A document that the office program converts goes through four points: the program is found,
/// the directory is created, the program is run, and the file that it made is reported.
pub proof fn law_documents_are_converted(points: Seq<JobPoint>, events: Seq<JobEvent>, f: Seq<char>)
    requires
        is_job_run(points, events),
        events.len() >= 3,
        office_exts().contains(f),
        office_exts().contains(points[0].job.to_ext),
        (points[0].job.stage, points[0].action) == job_start(f, points[0].job.to_ext),
        events[0] == (JobEvent::Tool { found: true }),
        events[1] is Done,
        events[2] matches JobEvent::Ran { success, .. } && success,
    ensures
        points[3].action == (JobActionView::Finish {
            result: Ok(
                JobOutputView::ExternalFile(
                    office_output(points[0].job.stem, points[0].job.to_ext),
                ),
            ),
        }),
{
    crate::converter_laws::law_documents_convert_both_ways(f, points[0].job.to_ext);
    assert(job_follows(points[0], events[0], points[1]));
    assert(job_follows(points[1], events[1], points[2]));
    assert(job_follows(points[2], events[2], points[3]));
}

/// A point of the run of a merge.
pub struct MergeJobPoint {
    pub job: MergeJob,
    pub action: MergeJobActionView,
}

/// Whether the points follow one another with the given events.
pub open spec fn is_merge_job_run(points: Seq<MergeJobPoint>, events: Seq<MergeJobEvent>) -> bool {
    &&& points.len() == events.len() + 1
    &&& forall|i: int|
        0 <= i < events.len() ==> merge_job_follows(
            #[trigger] points[i],
            events[i],
            points[i + 1],
        )
}

/// Whether the point `q` follows the point `p` after the event `e`.
pub open spec fn merge_job_follows(p: MergeJobPoint, e: MergeJobEvent, q: MergeJobPoint) -> bool {
    same_merge_job(q.job, p.job) && merge_job_goes_on(p.job, e, q.job, q.action)
}

/// Whether the job is at its start.
pub open spec fn merge_job_starts(p: MergeJobPoint) -> bool {
    ||| p.job.stage is CreatingDest
    ||| p.job.stage is ReadingFirst
    ||| p.job.stage is FindingFfmpeg
}

/// A merge ends well only where its result is there: the bytes were written, or the program
/// that makes it has succeeded.
pub proof fn law_a_merge_ends_well_with_a_result(
    points: Seq<MergeJobPoint>,
    events: Seq<MergeJobEvent>,
    i: int,
)
    requires
        is_merge_job_run(points, events),
        merge_job_starts(points[0]),
        0 < i < points.len(),
        points[i].action == (MergeJobActionView::Finish { result: None }),
    ensures
        ({
            ||| points[i - 1].action is WriteDest && events[i - 1] is Done
            ||| i >= 2 && points[i - 2].action is RunTool && (events[i - 2] matches MergeJobEvent::Ran {
                success,
                ..
            } && success)
        }),
{
    lemma_merge_job_fits(points, events, i - 1);
    assert(merge_job_follows(points[i - 1], events[i - 1], points[i]));
    if points[i - 1].job.stage is RemovingList {
        lemma_merge_job_fits(points, events, i - 2);
        assert(merge_job_follows(points[i - 2], events[i - 2], points[i - 1]));
    }
}

proof fn lemma_merge_job_fits(points: Seq<MergeJobPoint>, events: Seq<MergeJobEvent>, i: int)
    requires
        is_merge_job_run(points, events),
        merge_job_starts(points[0]),
        0 <= i < points.len(),
    ensures
        match points[i].job.stage {
            MergeJobStage::WritingAnimation { result } => points[i].action is WriteDest,
            MergeJobStage::WritingFirst => points[i].action is WriteDest,
            MergeJobStage::RunningFfmpeg => points[i].action is RunTool,
            MergeJobStage::RemovingList { result } => i > 0,
            _ => true,
        },
    decreases i,
{
    if i > 0 {
        lemma_merge_job_fits(points, events, i - 1);
        assert(merge_job_follows(points[i - 1], events[i - 1], points[i]));
    }
}

/// The list file that a video is made of is removed again, however the program ended.
pub proof fn law_the_list_file_is_removed(
    points: Seq<MergeJobPoint>,
    events: Seq<MergeJobEvent>,
    i: int,
)
    requires
        is_merge_job_run(points, events),
        0 <= i < events.len(),
        points[i].job.stage is RunningFfmpeg,
        events[i] is Ran,
    ensures
        points[i + 1].action is RemoveList,
{
    assert(merge_job_follows(points[i], events[i], points[i + 1]));
}

// ---------------------------------------------------------------------------
// Conversions from their start
// ---------------------------------------------------------------------------

/// Whether a point is the start of the conversion of a file from extension `f` to extension `t`,
/// both in lower case.
pub open spec fn job_starts(p: JobPoint, f: Seq<char>, t: Seq<char>) -> bool {
    p.job.to_ext == t && (p.job.stage, p.action) == job_start(f, t)
}

/// Whether the thing to do is the end of a conversion that made this.
pub open spec fn job_made(a: JobActionView, out: JobOutputView) -> bool {
    a == (JobActionView::Finish { result: Ok(out) })
}

/// Whether the thing to do is the end of a conversion that failed for this reason.
pub open spec fn job_failed(a: JobActionView, e: ErrorView) -> bool {
    a == (JobActionView::Finish { result: Err(e) })
}

/// A picture is read and comes out encoded in the format of its new extension, as the image library
/// decodes it by its old one; where that fails, so does the conversion.
pub proof fn law_a_picture_becomes_one_of_its_new_extension(
    points: Seq<JobPoint>,
    events: Seq<JobEvent>,
    f: Seq<char>,
    t: Seq<char>,
    bytes: Vec<u8>,
)
    requires
        is_job_run(points, events),
        job_starts(points[0], f, t),
        names_picture(f),
        names_picture(t) || names_animation(t),
        events.len() >= 1,
        events[0] == JobEvent::Bytes(bytes),
    ensures
        points[0].action == JobActionView::Read,
        match converted(bytes@, f, t) {
            Some(out) => job_made(points[1].action, JobOutputView::SingleFile(out)),
            None => job_failed(points[1].action, ErrorView::ImageError),
        },
{
    law_what_becomes_what(f, t);
    assert(job_follows(points[0], events[0], points[1]));
}

proof fn lemma_reads_picture_first(points: Seq<JobPoint>, events: Seq<JobEvent>, i: int)
    requires
        is_job_run(points, events),
        0 < i < points.len(),
    ensures
        !(points[i].job.stage is ReadingPicture),
{
    assert(job_follows(points[i - 1], events[i - 1], points[i]));
}

/// Whatever a conversion gives out as a single file is the picture that was read, in the format of
/// the new extension; no other conversion gives out a single file.
pub proof fn law_a_single_file_is_the_converted_picture(
    points: Seq<JobPoint>,
    events: Seq<JobEvent>,
    f: Seq<char>,
    t: Seq<char>,
    i: int,
    out: Seq<u8>,
)
    requires
        is_job_run(points, events),
        job_starts(points[0], f, t),
        0 <= i < points.len(),
        job_made(points[i].action, JobOutputView::SingleFile(out)),
    ensures
        i == 1,
        names_picture(f),
        names_picture(t) || names_animation(t),
        events[0] matches JobEvent::Bytes(bytes) && converted(bytes@, f, t) == Some(out),
{
    law_what_becomes_what(f, t);
    if i > 1 {
        lemma_reads_picture_first(points, events, i - 1);
    }
    if i > 0 {
        assert(job_follows(points[i - 1], events[i - 1], points[i]));
    }
}

/// The frames of a GIF all come out: where each can be encoded and saved, the file is read, every
/// frame that it decodes to is saved in the format of the new extension, in order and under the
/// name of its number from 1 on, and the conversion ends with that.
pub proof fn law_all_frames_of_a_gif_come_out(
    points: Seq<JobPoint>,
    events: Seq<JobEvent>,
    t: Seq<char>,
    bytes: Vec<u8>,
    frames: Seq<RasterView>,
)
    requires
        is_job_run(points, events),
        job_starts(points[0], "gif"@, t),
        names_picture(t),
        events.len() == 2 + frames.len(),
        events[0] is Done,
        events[1] == JobEvent::Bytes(bytes),
        gif_decoded(bytes@) == Some(frames),
        forall|k: int| 0 <= k < frames.len() ==> rgba_encoded(#[trigger] frames[k], t).whole,
        forall|i: int| 2 <= i < events.len() ==> (#[trigger] events[i]) is Done,
    ensures
        points[0].action == JobActionView::CreateDir,
        points[1].action == JobActionView::Read,
        forall|k: int|
            #![trigger frames[k]]
            0 <= k < frames.len() ==> points[2 + k].action == (JobActionView::Save {
                name: frame_file((k + 1) as nat, t),
                bytes: rgba_encoded(frames[k], t).bytes,
            }),
        job_made(points.last().action, JobOutputView::FrameDir),
{
    law_what_becomes_what("gif"@, t);
    law_pictures_have_formats(t);
    assert(job_follows(points[0], events[0], points[1]));
    assert(job_follows(points[1], events[1], points[2]));
    assert forall|k: int| #![trigger frames[k]] 0 <= k < frames.len() implies points[2 + k].action
        == (JobActionView::Save {
        name: frame_file((k + 1) as nat, t),
        bytes: rgba_encoded(frames[k], t).bytes,
    }) by {
        lemma_gif_point(points, events, t, frames, k);
        assert(rgba_encoded(frames[k], t).whole);
    }
    lemma_gif_point(points, events, t, frames, frames.len() as int);
}

proof fn lemma_gif_point(
    points: Seq<JobPoint>,
    events: Seq<JobEvent>,
    t: Seq<char>,
    frames: Seq<RasterView>,
    k: int,
)
    requires
        is_job_run(points, events),
        2 + k <= events.len(),
        points[2].job.to_ext == t,
        (points[2].job.stage, points[2].action) == frame_step(frames, 0, t),
        known_format(t),
        forall|j: int| 0 <= j < k ==> rgba_encoded(#[trigger] frames[j], t).whole,
        forall|i: int| 2 <= i < 2 + k ==> (#[trigger] events[i]) is Done,
        0 <= k <= frames.len(),
    ensures
        points[2 + k].job.to_ext == t,
        (points[2 + k].job.stage, points[2 + k].action) == frame_step(frames, k as nat, t),
    decreases k,
{
    if k > 0 {
        lemma_gif_point(points, events, t, frames, k - 1);
        assert(rgba_encoded(frames[k - 1], t).whole);
        assert(events[1 + k] is Done);
        assert(job_follows(points[1 + k], events[1 + k], points[2 + k]));
    }
}

proof fn lemma_gif_opened(points: Seq<JobPoint>, events: Seq<JobEvent>, t: Seq<char>)
    requires
        is_job_run(points, events),
        job_starts(points[0], "gif"@, t),
        names_picture(t),
        job_made(points.last().action, JobOutputView::FrameDir),
        forall|i: int| 0 <= i < events.len() ==> !((#[trigger] points[i]).action is Finish),
    ensures
        events.len() >= 2,
        points[2].job.to_ext == t,
        events[1] matches JobEvent::Bytes(bytes) && (gif_decoded(bytes@) matches Some(frames) && (
        points[2].job.stage, points[2].action) == frame_step(frames, 0, t)),
{
    law_what_becomes_what("gif"@, t);
    assert(events.len() > 0);
    assert(!(points[0].action is Finish));
    assert(job_follows(points[0], events[0], points[1]));
    assert(events.len() > 1);
    assert(!(points[1].action is Finish));
    assert(job_follows(points[1], events[1], points[2]));
    if events.len() > 2 {
        assert(!(points[2].action is Finish));
    }
}

/// Whether the frame of index `k` of a GIF is saved, `k` points after the file was read, and that
/// went well.
pub open spec fn gif_frame_saved(
    points: Seq<JobPoint>,
    events: Seq<JobEvent>,
    frames: Seq<RasterView>,
    t: Seq<char>,
    k: int,
) -> bool {
    saves_frame(points[2 + k].action, frames, t, k) && events[2 + k] is Done
}

proof fn lemma_job_suffix(points: Seq<JobPoint>, events: Seq<JobEvent>, n: int)
    requires
        is_job_run(points, events),
        0 <= n <= events.len(),
    ensures
        is_job_run(points.skip(n), events.skip(n)),
{
    let rest = points.skip(n);
    let later = events.skip(n);
    assert forall|i: int| 0 <= i < later.len() implies job_follows(
        #[trigger] rest[i],
        later[i],
        rest[i + 1],
    ) by {
        assert(job_follows(points[i + n], events[i + n], points[i + n + 1]));
    }
}

proof fn lemma_gif_frames_saved(
    points: Seq<JobPoint>,
    events: Seq<JobEvent>,
    t: Seq<char>,
    frames: Seq<RasterView>,
)
    requires
        is_job_run(points, events),
        events.len() >= 2,
        points[2].job.to_ext == t,
        (points[2].job.stage, points[2].action) == frame_step(frames, 0, t),
        points.last().action == frames_made(),
        forall|i: int| 0 <= i < events.len() ==> !((#[trigger] points[i]).action is Finish),
    ensures
        events.len() == 2 + frames.len(),
        forall|k: int|
            0 <= k < frames.len() ==> #[trigger] gif_frame_saved(points, events, frames, t, k),
{
    let rest = points.skip(2);
    let later = events.skip(2);
    lemma_job_suffix(points, events, 2);
    assert forall|i: int| 0 <= i < later.len() implies !((#[trigger] rest[i]).action is Finish) by {
        assert(!(points[i + 2].action is Finish));
    }
    law_every_frame_is_saved(rest, later, frames);
    assert forall|k: int| 0 <= k < frames.len() implies #[trigger] gif_frame_saved(
        points,
        events,
        frames,
        t,
        k,
    ) by {
        assert(rest[k] == points[2 + k]);
        assert(later[k] == events[2 + k]);
    }
}

/// Where the conversion of a GIF ends well, the file was read, and every frame that it decodes to
/// has been saved: the last point is the first at which the end is reached.
pub proof fn law_a_gif_ends_well_with_all_frames(
    points: Seq<JobPoint>,
    events: Seq<JobEvent>,
    t: Seq<char>,
)
    requires
        is_job_run(points, events),
        job_starts(points[0], "gif"@, t),
        names_picture(t),
        job_made(points.last().action, JobOutputView::FrameDir),
        forall|i: int| 0 <= i < events.len() ==> !((#[trigger] points[i]).action is Finish),
    ensures
        events.len() >= 2,
        events[1] matches JobEvent::Bytes(bytes) && (gif_decoded(bytes@) matches Some(frames)
            && events.len() == 2 + frames.len() && forall|k: int|
            0 <= k < frames.len() ==> #[trigger] gif_frame_saved(points, events, frames, t, k)),
{
    lemma_gif_opened(points, events, t);
    let bytes = events[1]->Bytes_0;
    lemma_gif_frames_saved(points, events, t, gif_decoded(bytes@)->0);
}

/// Whether the page of index `k` is drawn, and what was drawn of it is saved in the format of an
/// extension under the name of its number from 1 on.
pub open spec fn page_comes_out(points: Seq<JobPoint>, t: Seq<char>, r: Raster, k: int) -> bool {
    &&& points[2 + 2 * k].action == (JobActionView::DrawPage { page: k as i32 })
    &&& points[3 + 2 * k].action == (JobActionView::Save {
        name: frame_file((k + 1) as nat, t),
        bytes: rgb_encoded(r@, t).bytes,
    })
}

/// The pages of a PDF document all come out: where each of those that were counted can be drawn,
/// encoded and saved, the pages are drawn from the first to the last, each is saved in the format
/// of the new extension under the name of its number from 1 on, and the conversion ends with that.
pub proof fn law_all_pages_of_a_document_come_out(
    points: Seq<JobPoint>,
    events: Seq<JobEvent>,
    t: Seq<char>,
    pages: i32,
    drawn: Seq<Raster>,
)
    requires
        is_job_run(points, events),
        job_starts(points[0], "pdf"@, t),
        names_picture(t),
        0 <= pages,
        drawn.len() == pages,
        events.len() == 2 + 2 * pages,
        events[0] is Done,
        events[1] == (JobEvent::Pages { pages }),
        forall|k: int|
            #![trigger drawn[k]]
            0 <= k < pages ==> {
                &&& 3 * drawn[k].width <= usize::MAX
                &&& 3 * drawn[k].width * drawn[k].height <= drawn[k].data@.len()
                &&& rgb_encoded(drawn[k]@, t).whole
                &&& events[2 + 2 * k] == JobEvent::Page(drawn[k])
                &&& events[3 + 2 * k] is Done
            },
    ensures
        points[0].action == JobActionView::CreateDir,
        points[1].action == JobActionView::OpenPdf,
        forall|k: int| 0 <= k < pages ==> #[trigger] page_comes_out(points, t, drawn[k], k),
        job_made(points.last().action, JobOutputView::FrameDir),
{
    law_pictures_have_formats(t);
    assert(job_follows(points[0], events[0], points[1]));
    assert(job_follows(points[1], events[1], points[2]));
    lemma_pdf_opened(points[0], events[0], points[1], events[1], points[2], t);
    assert forall|k: int| 0 <= k < pages implies #[trigger] page_comes_out(
        points,
        t,
        drawn[k],
        k,
    ) by {
        lemma_pdf_point(points, events, t, pages, drawn, k);
        lemma_pdf_pair(points, events, t, pages, drawn[k], k);
    }
    lemma_pdf_point(points, events, t, pages, drawn, pages as int);
}

proof fn lemma_pdf_opened(
    p: JobPoint,
    e: JobEvent,
    q: JobPoint,
    g: JobEvent,
    r: JobPoint,
    t: Seq<char>,
)
    requires
        job_starts(p, "pdf"@, t),
        names_picture(t),
        job_follows(p, e, q),
        job_follows(q, g, r),
    ensures
        p.action == JobActionView::CreateDir,
        e is Done ==> q.action == JobActionView::OpenPdf,
        r.job.to_ext == t,
        e is Done && g is Pages ==> (r.job.stage, r.action) == page_step(0, g->pages),
        !(q.action is Finish) ==> e is Done,
        !(q.action is Finish) && !(g is Pages) ==> r.action is Finish && r.action != frames_made(),
        q.action is Finish ==> q.action != frames_made(),
{
    law_what_becomes_what("pdf"@, t);
}

proof fn lemma_pdf_pair(
    points: Seq<JobPoint>,
    events: Seq<JobEvent>,
    t: Seq<char>,
    pages: i32,
    r: Raster,
    k: int,
)
    requires
        is_job_run(points, events),
        known_format(t),
        0 <= k < pages,
        4 + 2 * k <= events.len(),
        points[2 + 2 * k].job.to_ext == t,
        (points[2 + 2 * k].job.stage, points[2 + 2 * k].action) == page_step(k, pages),
        3 * r.width <= usize::MAX,
        3 * r.width * r.height <= r.data@.len(),
        rgb_encoded(r@, t).whole,
        events[2 + 2 * k] == JobEvent::Page(r),
        events[3 + 2 * k] is Done,
    ensures
        page_comes_out(points, t, r, k),
        points[4 + 2 * k].job.to_ext == t,
        (points[4 + 2 * k].job.stage, points[4 + 2 * k].action) == page_step(k + 1, pages),
{
    let i = 2 + 2 * k;
    assert(job_follows(points[i], events[i], points[i + 1]));
    assert(job_follows(points[i + 1], events[i + 1], points[i + 2]));
    assert(r@.fits(3));
}

proof fn lemma_pdf_point(
    points: Seq<JobPoint>,
    events: Seq<JobEvent>,
    t: Seq<char>,
    pages: i32,
    drawn: Seq<Raster>,
    k: int,
)
    requires
        is_job_run(points, events),
        known_format(t),
        k <= drawn.len(),
        2 + 2 * k <= events.len(),
        points[2].job.to_ext == t,
        (points[2].job.stage, points[2].action) == page_step(0, pages),
        forall|j: int|
            #![trigger drawn[j]]
            0 <= j < k ==> {
                &&& 3 * drawn[j].width <= usize::MAX
                &&& 3 * drawn[j].width * drawn[j].height <= drawn[j].data@.len()
                &&& rgb_encoded(drawn[j]@, t).whole
                &&& events[2 + 2 * j] == JobEvent::Page(drawn[j])
                &&& events[3 + 2 * j] is Done
            },
        0 <= k <= pages,
    ensures
        points[2 + 2 * k].job.to_ext == t,
        (points[2 + 2 * k].job.stage, points[2 + 2 * k].action) == page_step(k, pages),
    decreases k,
{
    if k > 0 {
        lemma_pdf_point(points, events, t, pages, drawn, k - 1);
        lemma_pdf_pair(points, events, t, pages, drawn[k - 1], k - 1);
    }
}

proof fn lemma_pdf_counted(points: Seq<JobPoint>, events: Seq<JobEvent>, t: Seq<char>)
    requires
        is_job_run(points, events),
        job_starts(points[0], "pdf"@, t),
        names_picture(t),
        job_made(points.last().action, JobOutputView::FrameDir),
        forall|i: int| 0 <= i < events.len() ==> !((#[trigger] points[i]).action is Finish),
    ensures
        events.len() >= 2,
        points[1].action == JobActionView::OpenPdf,
        events[1] is Pages,
        points[2].job.to_ext == t,
        (points[2].job.stage, points[2].action) == page_step(0, events[1]->pages),
        events[1]->pages < 0 ==> events.len() == 2,
{
    law_what_becomes_what("pdf"@, t);
    assert(events.len() > 0);
    assert(job_follows(points[0], events[0], points[1]));
    assert(events.len() > 1);
    assert(!(points[1].action is Finish));
    assert(job_follows(points[1], events[1], points[2]));
    lemma_pdf_opened(points[0], events[0], points[1], events[1], points[2], t);
    if events.len() > 2 {
        assert(!(points[2].action is Finish));
    }
}

/// Where the conversion of a PDF document ends well, just the pages that were counted when it was
/// opened have been drawn and saved, each of them, in order and under its own name: the last point
/// is the first at which the end is reached.
pub proof fn law_a_document_ends_well_with_all_pages(
    points: Seq<JobPoint>,
    events: Seq<JobEvent>,
    t: Seq<char>,
)
    requires
        is_job_run(points, events),
        job_starts(points[0], "pdf"@, t),
        names_picture(t),
        job_made(points.last().action, JobOutputView::FrameDir),
        forall|i: int| 0 <= i < events.len() ==> !((#[trigger] points[i]).action is Finish),
    ensures
        events.len() >= 2,
        points[1].action == JobActionView::OpenPdf,
        events[1] matches JobEvent::Pages { pages } && events.len() == 2 + if pages < 0 {
            0
        } else {
            2 * pages
        } && forall|k: int|
            #![trigger points[2 + 2 * k]]
            0 <= k < pages ==> {
                &&& points[2 + 2 * k].action == (JobActionView::DrawPage { page: k as i32 })
                &&& events[2 + 2 * k] matches JobEvent::Page(r) && saves_page(
                    points[3 + 2 * k].action,
                    r@,
                    t,
                    k,
                )
                &&& events[3 + 2 * k] is Done
            },
{
    lemma_pdf_counted(points, events, t);
    let pages = events[1]->pages;
    let rest = points.skip(2);
    let later = events.skip(2);
    lemma_job_suffix(points, events, 2);
    assert forall|i: int| 0 <= i < later.len() implies !((#[trigger] rest[i]).action is Finish) by {
        assert(!(points[i + 2].action is Finish));
    }
    if pages >= 0 {
        law_every_page_is_saved(rest, later, pages);
        assert forall|k: int| #![trigger points[2 + 2 * k]] 0 <= k < pages implies {
            &&& points[2 + 2 * k].action == (JobActionView::DrawPage { page: k as i32 })
            &&& events[2 + 2 * k] matches JobEvent::Page(r) && saves_page(
                points[3 + 2 * k].action,
                r@,
                t,
                k,
            )
            &&& events[3 + 2 * k] is Done
        } by {
            assert(rest[2 * k] == points[2 + 2 * k]);
            assert(rest[2 * k + 1] == points[3 + 2 * k]);
            assert(later[2 * k] == events[2 + 2 * k]);
            assert(later[2 * k + 1] == events[3 + 2 * k]);
        }
    }
}

/// Where a frame of a GIF cannot be encoded as a whole, what there is of it is saved under its name,
/// after all the frames before it, and the conversion fails.
pub proof fn law_a_gif_fails_at_a_frame_that_is_not_whole(
    points: Seq<JobPoint>,
    events: Seq<JobEvent>,
    t: Seq<char>,
    bytes: Vec<u8>,
    frames: Seq<RasterView>,
    k: int,
)
    requires
        is_job_run(points, events),
        job_starts(points[0], "gif"@, t),
        names_picture(t),
        0 <= k < frames.len(),
        events.len() > 2 + k,
        events[0] is Done,
        events[1] == JobEvent::Bytes(bytes),
        gif_decoded(bytes@) == Some(frames),
        forall|j: int| 0 <= j < k ==> rgba_encoded(#[trigger] frames[j], t).whole,
        forall|i: int| 2 <= i < 2 + k ==> (#[trigger] events[i]) is Done,
        !rgba_encoded(frames[k], t).whole,
        events[2 + k] is Done || events[2 + k] is Failed,
    ensures
        points[2 + k].action == (JobActionView::Save {
            name: frame_file((k + 1) as nat, t),
            bytes: rgba_encoded(frames[k], t).bytes,
        }),
        job_failed(points[3 + k].action, ErrorView::ImageError),
{
    law_what_becomes_what("gif"@, t);
    law_pictures_have_formats(t);
    assert(job_follows(points[0], events[0], points[1]));
    assert(job_follows(points[1], events[1], points[2]));
    lemma_gif_point(points, events, t, frames, k);
    assert(job_follows(points[2 + k], events[2 + k], points[3 + k]));
}

/// Where a page of a PDF document cannot be encoded as a whole, what there is of it is saved under
/// its name, after all the pages before it, and the conversion fails.
pub proof fn law_a_document_fails_at_a_page_that_is_not_whole(
    points: Seq<JobPoint>,
    events: Seq<JobEvent>,
    t: Seq<char>,
    pages: i32,
    drawn: Seq<Raster>,
    r: Raster,
)
    requires
        is_job_run(points, events),
        job_starts(points[0], "pdf"@, t),
        names_picture(t),
        drawn.len() < pages,
        events.len() > 3 + 2 * drawn.len(),
        events[0] is Done,
        events[1] == (JobEvent::Pages { pages }),
        forall|j: int|
            #![trigger drawn[j]]
            0 <= j < drawn.len() ==> {
                &&& 3 * drawn[j].width <= usize::MAX
                &&& 3 * drawn[j].width * drawn[j].height <= drawn[j].data@.len()
                &&& rgb_encoded(drawn[j]@, t).whole
                &&& events[2 + 2 * j] == JobEvent::Page(drawn[j])
                &&& events[3 + 2 * j] is Done
            },
        3 * r.width <= usize::MAX,
        3 * r.width * r.height <= r.data@.len(),
        !rgb_encoded(r@, t).whole,
        events[2 + 2 * drawn.len() as int] == JobEvent::Page(r),
        events[3 + 2 * drawn.len() as int] is Done || events[3 + 2 * drawn.len() as int] is Failed,
    ensures
        page_comes_out(points, t, r, drawn.len() as int),
        job_failed(points[4 + 2 * drawn.len() as int].action, ErrorView::ImageError),
{
    let k = drawn.len() as int;
    let i = 2 + 2 * k;
    law_pictures_have_formats(t);
    assert(job_follows(points[0], events[0], points[1]));
    assert(job_follows(points[1], events[1], points[2]));
    lemma_pdf_opened(points[0], events[0], points[1], events[1], points[2], t);
    lemma_pdf_point(points, events, t, pages, drawn, k);
    lemma_not_whole(points[i], events[i], points[i + 1], events[i + 1], points[i + 2], t, pages, r, k);
    assert(job_follows(points[i], events[i], points[i + 1]));
    assert(job_follows(points[i + 1], events[i + 1], points[i + 2]));
}

proof fn lemma_not_whole(
    p: JobPoint,
    e: JobEvent,
    q: JobPoint,
    g: JobEvent,
    s: JobPoint,
    t: Seq<char>,
    pages: i32,
    r: Raster,
    k: int,
)
    requires
        job_follows(p, e, q),
        job_follows(q, g, s),
        p.job.to_ext == t,
        known_format(t),
        0 <= k < pages,
        (p.job.stage, p.action) == page_step(k, pages),
        3 * r.width <= usize::MAX,
        3 * r.width * r.height <= r.data@.len(),
        !rgb_encoded(r@, t).whole,
        e == JobEvent::Page(r),
        g is Done || g is Failed,
    ensures
        p.action == (JobActionView::DrawPage { page: k as i32 }),
        q.action == (JobActionView::Save {
            name: frame_file((k + 1) as nat, t),
            bytes: rgb_encoded(r@, t).bytes,
        }),
        job_failed(s.action, ErrorView::ImageError),
{
    assert(r@.fits(3));
}

/// The frames of a video are taken out by `ffmpeg`, which reads the file and writes numbered files
/// of the new extension into the directory that was created for them. How it ends is how the
/// conversion ends.
pub proof fn law_the_frames_of_a_video_are_taken_out(
    points: Seq<JobPoint>,
    events: Seq<JobEvent>,
    f: Seq<char>,
    t: Seq<char>,
)
    requires
        is_job_run(points, events),
        job_starts(points[0], f, t),
        names_video(f),
        names_picture(t),
        events.len() >= 3,
        events[0] is Done,
        events[1] is Tool,
    ensures
        points[0].action == JobActionView::CreateDir,
        points[1].action == (JobActionView::FindTool { tool: "ffmpeg"@ }),
        !events[1]->found ==> job_failed(points[2].action, ErrorView::ToolNotFound("ffmpeg")),
        events[1]->found ==> points[2].action == (JobActionView::RunTool {
            args: seq![
                ArgView::Text("-y"@),
                ArgView::Text("-i"@),
                ArgView::Input,
                ArgView::InDir("frame_%04d."@ + t),
            ],
        }),
        events[1]->found ==> (events[2] matches JobEvent::Ran { success, stderr } ==> if success {
            job_made(points[3].action, JobOutputView::FrameDir)
        } else {
            job_failed(points[3].action, ErrorView::ToolFailed(stderr))
        }),
{
    law_what_becomes_what(f, t);
    crate::converter_laws::law_classes_are_disjoint(f);
    lemma_not_gif(f);
    assert(job_follows(points[0], events[0], points[1]));
    assert(job_follows(points[1], events[1], points[2]));
    assert(job_follows(points[2], events[2], points[3]));
}

proof fn lemma_not_gif(f: Seq<char>)
    ensures
        names_video(f) ==> f != "gif"@ && !anim_exts().contains(f),
        f == "webp"@ ==> f != "gif"@ && anim_exts().contains(f),
        f == "gif"@ ==> anim_exts().contains(f),
{
    reveal_strlit("gif");
    reveal_strlit("webp");
    assert("gif"@.len() != "webp"@.len());
    assert(anim_exts()[0] == "gif"@ && anim_exts()[1] == "webp"@);
    law_what_becomes_what(f, "png"@);
    crate::converter_laws::law_classes_are_disjoint(f);
    assert(crate::converter::image_exts()[0] == "png"@);
}

/// A WebP file is read first, and its frames are then taken out by `ffmpeg` like those of a video.
pub proof fn law_the_frames_of_a_webp_are_taken_out(
    points: Seq<JobPoint>,
    events: Seq<JobEvent>,
    t: Seq<char>,
)
    requires
        is_job_run(points, events),
        job_starts(points[0], "webp"@, t),
        names_picture(t),
        events.len() >= 4,
        events[0] is Done,
        events[1] is Bytes,
        events[2] == (JobEvent::Tool { found: true }),
    ensures
        points[0].action == JobActionView::CreateDir,
        points[1].action == JobActionView::Read,
        points[2].action == (JobActionView::FindTool { tool: "ffmpeg"@ }),
        points[3].action == (JobActionView::RunTool {
            args: seq![
                ArgView::Text("-y"@),
                ArgView::Text("-i"@),
                ArgView::Input,
                ArgView::InDir("frame_%04d."@ + t),
            ],
        }),
        events[3] matches JobEvent::Ran { success, stderr } ==> if success {
            job_made(points[4].action, JobOutputView::FrameDir)
        } else {
            job_failed(points[4].action, ErrorView::ToolFailed(stderr))
        },
{
    law_what_becomes_what("webp"@, t);
    lemma_not_gif("webp"@);
    assert(job_follows(points[0], events[0], points[1]));
    assert(job_follows(points[1], events[1], points[2]));
    assert(job_follows(points[2], events[2], points[3]));
    assert(job_follows(points[3], events[3], points[4]));
}

/// A document is handed to the office program with the new extension as the format, and the file
/// that comes out has the stem of the document and the new extension.
pub proof fn law_a_document_becomes_one_of_its_new_extension(
    points: Seq<JobPoint>,
    events: Seq<JobEvent>,
    f: Seq<char>,
    t: Seq<char>,
)
    requires
        is_job_run(points, events),
        job_starts(points[0], f, t),
        names_document(f),
        names_document(t),
        events.len() >= 3,
        events[0] == (JobEvent::Tool { found: true }),
        events[1] is Done,
        events[2] is Ran,
    ensures
        points[0].action == (JobActionView::FindTool { tool: "soffice"@ }),
        points[1].action == JobActionView::CreateDir,
        points[2].action == (JobActionView::RunTool {
            args: seq![
                ArgView::Text("--headless"@),
                ArgView::Text("--convert-to"@),
                ArgView::Text(t),
                ArgView::Text("--outdir"@),
                ArgView::Dir,
                ArgView::Input,
            ],
        }),
        events[2]->success ==> job_made(
            points[3].action,
            JobOutputView::ExternalFile(
                match points[0].job.stem {
                    Some(stem) => stem + "."@ + t,
                    None => "output"@ + "."@ + t,
                },
            ),
        ),
        !events[2]->success ==> job_failed(points[3].action, ErrorView::ToolFailed(events[2]->stderr)),
{
    law_what_becomes_what(f, t);
    assert(job_follows(points[0], events[0], points[1]));
    assert(job_follows(points[1], events[1], points[2]));
    assert(job_follows(points[2], events[2], points[3]));
}

/// Whether the thing to do belongs to the stage.
spec fn job_fitting(stage: JobStageView, a: JobActionView) -> bool {
    match stage {
        JobStageView::ReadingPicture { from_ext } => a is Read,
        JobStageView::MakingFrameDir { source } => a is CreateDir,
        JobStageView::ReadingGif => a is Read,
        JobStageView::ReadingOther => a is Read,
        JobStageView::SavingFrame { frames, index } => a is Save,
        JobStageView::FindingFfmpeg => a is FindTool,
        JobStageView::RunningFfmpeg => a is RunTool,
        JobStageView::MakingPageDir => a is CreateDir,
        JobStageView::OpeningPdf => a is OpenPdf,
        JobStageView::DrawingPage { page, pages } => a is DrawPage,
        JobStageView::SavingPage { page, pages } => a is Save,
        JobStageView::SavingRest => a is Save,
        JobStageView::FindingOffice => a is FindTool,
        JobStageView::MakingOfficeDir => a is CreateDir,
        JobStageView::RunningOffice => a is RunTool,
        JobStageView::Ended => a is Finish,
    }
}

proof fn lemma_job_fitting(
    points: Seq<JobPoint>,
    events: Seq<JobEvent>,
    f: Seq<char>,
    t: Seq<char>,
    i: int,
)
    requires
        is_job_run(points, events),
        job_starts(points[0], f, t),
        0 <= i < points.len(),
    ensures
        job_fitting(points[i].job.stage, points[i].action),
    decreases i,
{
    if i > 0 {
        lemma_job_fitting(points, events, f, t, i - 1);
        assert(job_follows(points[i - 1], events[i - 1], points[i]));
    }
}

/// Whatever fails ends the conversion, and is the reason that is given: a failure of the file
/// system, the words of a program or of the PDF library, or that of the image library where a frame
/// could not be saved.
pub proof fn law_failures_are_reported(
    points: Seq<JobPoint>,
    events: Seq<JobEvent>,
    f: Seq<char>,
    t: Seq<char>,
    i: int,
)
    requires
        is_job_run(points, events),
        job_starts(points[0], f, t),
        0 <= i < events.len(),
    ensures
        match (points[i].action, events[i]) {
            (JobActionView::Read, JobEvent::Failed(e)) => job_failed(
                points[i + 1].action,
                ErrorView::IoError(e),
            ),
            (JobActionView::CreateDir, JobEvent::Failed(e)) => job_failed(
                points[i + 1].action,
                ErrorView::IoError(e),
            ),
            (JobActionView::RunTool { .. }, JobEvent::Failed(e)) => job_failed(
                points[i + 1].action,
                ErrorView::IoError(e),
            ),
            (JobActionView::RunTool { .. }, JobEvent::Ran { success, stderr }) => !success
                ==> job_failed(points[i + 1].action, ErrorView::ToolFailed(stderr)),
            (JobActionView::Save { .. }, JobEvent::Failed(_)) => job_failed(
                points[i + 1].action,
                ErrorView::ImageError,
            ),
            (JobActionView::OpenPdf, JobEvent::PdfFailed(s)) => job_failed(
                points[i + 1].action,
                ErrorView::ToolFailed(s),
            ),
            (JobActionView::OpenPdf, JobEvent::NotUnicode) => job_failed(
                points[i + 1].action,
                ErrorView::UnsupportedPair,
            ),
            (JobActionView::DrawPage { .. }, JobEvent::PdfFailed(s)) => job_failed(
                points[i + 1].action,
                ErrorView::ToolFailed(s),
            ),
            (JobActionView::DrawPage { .. }, JobEvent::Page(r)) => 3 * r.width * r.height
                > r.data@.len() ==> job_failed(points[i + 1].action, ErrorView::UnsupportedPair),
            (JobActionView::FindTool { tool }, JobEvent::Tool { found }) => !found ==> exists|
                name: &'static str,
            |
                name@ == tool && #[trigger] job_failed(
                    points[i + 1].action,
                    ErrorView::ToolNotFound(name),
                ),
            _ => true,
        },
{
    lemma_job_fitting(points, events, f, t, i);
    lemma_tools(points, events, f, t, i);
    let p = points[i];
    let q = points[i + 1];
    assert(job_follows(p, events[i], q));
    if p.action is FindTool && events[i] is Tool && !events[i]->found {
        if p.job.stage is FindingFfmpeg {
            assert(job_failed(q.action, ErrorView::ToolNotFound("ffmpeg")));
        } else {
            assert(job_failed(q.action, ErrorView::ToolNotFound("soffice")));
        }
    }
}

proof fn lemma_tools(
    points: Seq<JobPoint>,
    events: Seq<JobEvent>,
    f: Seq<char>,
    t: Seq<char>,
    i: int,
)
    requires
        is_job_run(points, events),
        job_starts(points[0], f, t),
        0 <= i < points.len(),
    ensures
        points[i].job.stage is FindingFfmpeg ==> points[i].action == (JobActionView::FindTool {
            tool: "ffmpeg"@,
        }),
        points[i].job.stage is FindingOffice ==> points[i].action == (JobActionView::FindTool {
            tool: "soffice"@,
        }),
    decreases i,
{
    if i > 0 {
        lemma_tools(points, events, f, t, i - 1);
        assert(job_follows(points[i - 1], events[i - 1], points[i]));
    }
}

/// A pair of extensions between which there is no conversion is turned down at once.
pub proof fn law_other_pairs_are_turned_down(p: JobPoint, f: Seq<char>, t: Seq<char>)
    requires
        job_starts(p, f, t),
        !(names_picture(f) && (names_picture(t) || names_animation(t))),
        !((names_animation(f) || names_video(f) || f == "pdf"@) && names_picture(t)),
        !(names_document(f) && names_document(t)),
    ensures
        job_failed(p.action, ErrorView::UnsupportedPair),
{
    law_what_becomes_what(f, t);
}

// ---------------------------------------------------------------------------
// Merges from their start
// ---------------------------------------------------------------------------

proof fn lemma_gif_frame_read(
    points: Seq<MergeJobPoint>,
    events: Seq<MergeJobEvent>,
    files: Seq<Vec<u8>>,
    frames: Seq<RasterView>,
    k: int,
)
    requires
        is_merge_job_run(points, events),
        points[0].job.stage is CreatingDest,
        events.len() > frames.len(),
        frames.len() <= points[0].job.exts@.len(),
        files.len() == frames.len(),
        events[0] is Done,
        forall|j: int|
            #![trigger files[j]]
            0 <= j < files.len() ==> {
                &&& events[1 + j] == MergeJobEvent::Bytes(files[j])
                &&& points[0].job.exts@[j] matches Some(e) && known_format(e@) && rgba_decoded(
                    files[j]@,
                    e@,
                ) == Some(frames[j])
            },
        0 <= k <= frames.len(),
    ensures
        same_merge_job(points[1 + k].job, points[0].job),
        reads_on(points[1 + k].job, points[1 + k].action, frames.take(k), false),
    decreases k,
{
    if k == 0 {
        assert(frames.take(0) =~= Seq::<RasterView>::empty());
        assert(merge_job_follows(points[0], events[0], points[1]));
    } else {
        lemma_gif_frame_read(points, events, files, frames, k - 1);
        let p = points[k];
        let e = points[0].job.exts@[k - 1]->0;
        assert(files[k - 1] == files[k - 1]);
        assert(merge_job_follows(p, events[k], points[1 + k]));
        assert(frames.take(k) =~= frames.take(k - 1).push(frames[k - 1]));
        let read = p.job.stage->ReadingFrame_frames;
        assert(raster_views(read@).len() == read@.len());
        law_a_frame_is_decoded_by_its_extension(
            FrameFile { ext: points[0].job.exts@[k - 1], bytes: files[k - 1] },
        );
    }
}

/// A GIF is made of all the frames of a sequence, in order: the file is created, each of the frames
/// is read and decoded by its own extension, and what the image library makes of all of them is
/// written. The merge is done where that is whole.
pub proof fn law_a_gif_is_made_of_all_frames(
    points: Seq<MergeJobPoint>,
    events: Seq<MergeJobEvent>,
    files: Seq<Vec<u8>>,
    frames: Seq<RasterView>,
)
    requires
        is_merge_job_run(points, events),
        points[0].job.stage is CreatingDest,
        frames.len() == points[0].job.exts@.len(),
        files.len() == frames.len(),
        events.len() == 2 + frames.len(),
        events[0] is Done,
        events[1 + frames.len() as int] is Done,
        forall|j: int|
            #![trigger files[j]]
            0 <= j < files.len() ==> {
                &&& events[1 + j] == MergeJobEvent::Bytes(files[j])
                &&& points[0].job.exts@[j] matches Some(e) && known_format(e@) && rgba_decoded(
                    files[j]@,
                    e@,
                ) == Some(frames[j])
            },
    ensures
        forall|k: int|
            0 <= k < frames.len() ==> (#[trigger] points[1 + k]).action == (
            MergeJobActionView::ReadFrame { frame: k as nat }),
        points[1 + frames.len() as int].action == (MergeJobActionView::WriteDest {
            bytes: gif_encoded(frames).bytes,
        }),
        points[2 + frames.len() as int].action == (MergeJobActionView::Finish {
            result: if gif_encoded(frames).whole {
                None
            } else {
                Some(ErrorView::ImageError)
            },
        }),
{
    let n = frames.len() as int;
    assert forall|k: int| 0 <= k < frames.len() implies (#[trigger] points[1 + k]).action == (
    MergeJobActionView::ReadFrame { frame: k as nat }) by {
        lemma_gif_frame_read(points, events, files, frames, k);
    }
    lemma_gif_frame_read(points, events, files, frames, n);
    assert(frames.take(n) =~= frames);
    assert(merge_job_follows(points[1 + n], events[1 + n], points[2 + n]));
}

/// Where a frame of a GIF cannot be read or decoded, the frames before it are written all the same,
/// and the merge fails.
pub proof fn law_a_gif_stops_at_a_frame_that_fails(
    points: Seq<MergeJobPoint>,
    events: Seq<MergeJobEvent>,
    files: Seq<Vec<u8>>,
    frames: Seq<RasterView>,
)
    requires
        is_merge_job_run(points, events),
        points[0].job.stage is CreatingDest,
        frames.len() < points[0].job.exts@.len(),
        files.len() == frames.len(),
        events.len() == 3 + frames.len(),
        events[0] is Done,
        events[2 + frames.len() as int] is Done,
        forall|j: int|
            #![trigger files[j]]
            0 <= j < files.len() ==> {
                &&& events[1 + j] == MergeJobEvent::Bytes(files[j])
                &&& points[0].job.exts@[j] matches Some(e) && known_format(e@) && rgba_decoded(
                    files[j]@,
                    e@,
                ) == Some(frames[j])
            },
        match events[1 + frames.len() as int] {
            MergeJobEvent::Failed(_) => true,
            MergeJobEvent::Bytes(bytes) => match points[0].job.exts@[frames.len() as int] {
                Some(e) => !known_format(e@) || rgba_decoded(bytes@, e@) is None,
                None => true,
            },
            _ => false,
        },
    ensures
        points[2 + frames.len() as int].action == (MergeJobActionView::WriteDest {
            bytes: gif_encoded(frames).bytes,
        }),
        points[3 + frames.len() as int].action == (MergeJobActionView::Finish {
            result: Some(ErrorView::ImageError),
        }),
{
    let n = frames.len() as int;
    lemma_gif_frame_read(points, events, files, frames, n);
    assert(frames.take(n) =~= frames);
    let p = points[1 + n];
    let read = p.job.stage->ReadingFrame_frames;
    assert(raster_views(read@).len() == read@.len());
    if let MergeJobEvent::Bytes(bytes) = events[1 + n] {
        law_a_frame_is_decoded_by_its_extension(
            FrameFile { ext: points[0].job.exts@[n], bytes },
        );
    }
    assert(merge_job_follows(p, events[1 + n], points[2 + n]));
    assert(merge_job_follows(points[2 + n], events[2 + n], points[3 + n]));
}

/// A WebP file is made of the first frame, as the image library converts it from its own format.
pub proof fn law_a_webp_is_made_of_the_first_frame(
    points: Seq<MergeJobPoint>,
    events: Seq<MergeJobEvent>,
    bytes: Vec<u8>,
)
    requires
        is_merge_job_run(points, events),
        points[0].job.stage is ReadingFirst,
        points[0].job.exts@.len() > 0,
        events.len() >= 2,
        events[0] == MergeJobEvent::Bytes(bytes),
        events[1] is Done,
    ensures
        ({
            let ext = match points[0].job.exts@[0] {
                Some(e) => e@,
                None => "png"@,
            };
            match converted(bytes@, ext, "webp"@) {
                Some(out) => {
                    &&& points[1].action == (MergeJobActionView::WriteDest { bytes: out })
                    &&& points[2].action == (MergeJobActionView::Finish { result: None })
                },
                None => points[1].action == (MergeJobActionView::Finish {
                    result: Some(ErrorView::ImageError),
                }),
            }
        }),
{
    assert(merge_job_follows(points[0], events[0], points[1]));
    assert(merge_job_follows(points[1], events[1], points[2]));
}

/// The arguments with which `ffmpeg` makes a video of a list, apart from the codec.
pub open spec fn from_list_with(codec: Seq<ArgView>) -> Seq<ArgView> {
    seq![
        ArgView::Text("-y"@),
        ArgView::Text("-f"@),
        ArgView::Text("concat"@),
        ArgView::Text("-safe"@),
        ArgView::Text("0"@),
        ArgView::Text("-i"@),
        ArgView::Input,
    ] + codec + seq![ArgView::Output]
}

proof fn lemma_video_args(ext: Seq<char>)
    ensures
        ext == "webm"@ ==> video_args(ext) == from_list_with(
            seq![
                ArgView::Text("-c:v"@),
                ArgView::Text("libvpx-vp9"@),
                ArgView::Text("-b:v"@),
                ArgView::Text("0"@),
                ArgView::Text("-crf"@),
                ArgView::Text("30"@),
            ],
        ),
        ext == "avi"@ ==> video_args(ext) == from_list_with(
            seq![ArgView::Text("-c:v"@), ArgView::Text("mpeg4"@)],
        ),
        ext != "webm"@ && ext != "avi"@ ==> video_args(ext) == from_list_with(
            seq![
                ArgView::Text("-c:v"@),
                ArgView::Text("libx264"@),
                ArgView::Text("-pix_fmt"@),
                ArgView::Text("yuv420p"@),
            ],
        ),
{
    reveal_strlit("webm");
    reveal_strlit("avi");
    assert("webm"@.len() != "avi"@.len());
    if ext == "webm"@ {
        assert(video_args(ext) =~= from_list_with(
            seq![
                ArgView::Text("-c:v"@),
                ArgView::Text("libvpx-vp9"@),
                ArgView::Text("-b:v"@),
                ArgView::Text("0"@),
                ArgView::Text("-crf"@),
                ArgView::Text("30"@),
            ],
        ));
    } else if ext == "avi"@ {
        assert(video_args(ext) =~= from_list_with(
            seq![ArgView::Text("-c:v"@), ArgView::Text("mpeg4"@)],
        ));
    } else {
        assert(video_args(ext) =~= from_list_with(
            seq![
                ArgView::Text("-c:v"@),
                ArgView::Text("libx264"@),
                ArgView::Text("-pix_fmt"@),
                ArgView::Text("yuv420p"@),
            ],
        ));
    }
}

/// A video is made of all the frames of a sequence, in order: a list that has one line for each of
/// them is written, `ffmpeg` is run with that list as its input and the codec of the container, the
/// list is removed, and the merge ends as the program did.
pub proof fn law_a_video_is_made_of_all_frames(
    points: Seq<MergeJobPoint>,
    events: Seq<MergeJobEvent>,
    success: bool,
    stderr: String,
)
    requires
        is_merge_job_run(points, events),
        points[0].job.stage is FindingFfmpeg,
        events.len() >= 4,
        events[0] == (MergeJobEvent::Tool { found: true }),
        events[1] is Done,
        events[2] == (MergeJobEvent::Ran { success, stderr }),
    ensures
        ({
            let paths = points[0].job.paths@;
            let ext = points[0].job.to_ext@;
            &&& points[1].action == (MergeJobActionView::WriteList {
                text: Seq::new(
                    paths.len(),
                    |i: int| "file '"@ + paths[i]@ + "'\n"@,
                ).flatten(),
            })
            &&& points[2].action == (MergeJobActionView::RunTool {
                args: from_list_with(
                    if ext == "webm"@ {
                        seq![
                            ArgView::Text("-c:v"@),
                            ArgView::Text("libvpx-vp9"@),
                            ArgView::Text("-b:v"@),
                            ArgView::Text("0"@),
                            ArgView::Text("-crf"@),
                            ArgView::Text("30"@),
                        ]
                    } else if ext == "avi"@ {
                        seq![ArgView::Text("-c:v"@), ArgView::Text("mpeg4"@)]
                    } else {
                        seq![
                            ArgView::Text("-c:v"@),
                            ArgView::Text("libx264"@),
                            ArgView::Text("-pix_fmt"@),
                            ArgView::Text("yuv420p"@),
                        ]
                    },
                ),
            })
            &&& points[3].action == MergeJobActionView::RemoveList
            &&& points[4].action == (MergeJobActionView::Finish {
                result: if success {
                    None
                } else {
                    Some(ErrorView::ToolFailed(stderr))
                },
            })
        }),
{
    law_the_list_names_all_frames(points[0].job.paths@);
    lemma_video_args(points[0].job.to_ext@);
    assert(merge_job_follows(points[0], events[0], points[1]));
    assert(merge_job_follows(points[1], events[1], points[2]));
    assert(merge_job_follows(points[2], events[2], points[3]));
    assert(merge_job_follows(points[3], events[3], points[4]));
}

/// A merge that fails says why: that the program is missing, or what the file system reported.
pub proof fn law_failed_merges_say_why(p: MergeJobPoint, e: MergeJobEvent, q: MergeJobPoint)
    requires
        merge_job_follows(p, e, q),
    ensures
        p.job.stage is FindingFfmpeg && e == (MergeJobEvent::Tool { found: false }) ==> q.action == (
        MergeJobActionView::Finish { result: Some(ErrorView::ToolNotFound("ffmpeg")) }),
        p.job.stage is CreatingDest || p.job.stage is ReadingFirst || p.job.stage is WritingFirst
            || p.job.stage is WritingList || p.job.stage is RunningFfmpeg ==> (
        e matches MergeJobEvent::Failed(err) ==> q.action == (MergeJobActionView::Finish {
            result: Some(ErrorView::IoError(err)),
        })),
        p.job.stage is WritingAnimation && e is Failed ==> q.action == (MergeJobActionView::Finish {
            result: Some(ErrorView::ImageError),
        }),
{
}

// ---------------------------------------------------------------------------
// Contents
// ---------------------------------------------------------------------------

/// What a thing to do says of itself is what it holds: every name, every argument, all the bytes,
/// and at the end what was made or what went wrong.
pub proof fn law_the_contents_of_a_job_action(a: JobAction)
    ensures
        match a {
            JobAction::Read => a@ is Read,
            JobAction::CreateDir => a@ is CreateDir,
            JobAction::OpenPdf => a@ is OpenPdf,
            JobAction::FindTool { tool } => a@ == (JobActionView::FindTool { tool: tool@ }),
            JobAction::RunTool { args } => a@ matches JobActionView::RunTool { args: said }
                && said_of(args@, said),
            JobAction::Save { name, bytes } => a@ == (JobActionView::Save {
                name: name@,
                bytes: bytes@,
            }),
            JobAction::DrawPage { page } => a@ == (JobActionView::DrawPage { page }),
            JobAction::Finish { result: Ok(JobOutput::SingleFile(bytes)) } => job_made(
                a@,
                JobOutputView::SingleFile(bytes@),
            ),
            JobAction::Finish { result: Ok(JobOutput::FrameDir) } => job_made(
                a@,
                JobOutputView::FrameDir,
            ),
            JobAction::Finish { result: Ok(JobOutput::ExternalFile(name)) } => job_made(
                a@,
                JobOutputView::ExternalFile(name@),
            ),
            JobAction::Finish { result: Err(e) } => job_failed(a@, e@),
        },
{
}

/// Whether the arguments are said as they are, in order.
pub open spec fn said_of(args: Seq<Arg>, said: Seq<ArgView>) -> bool {
    &&& said.len() == args.len()
    &&& forall|i: int|
        0 <= i < args.len() ==> match #[trigger] args[i] {
            Arg::Text(s) => said[i] == ArgView::Text(s@),
            Arg::Input => said[i] == ArgView::Input,
            Arg::Output => said[i] == ArgView::Output,
            Arg::Dir => said[i] == ArgView::Dir,
            Arg::InDir(s) => said[i] == ArgView::InDir(s@),
        }
}

/// What a thing to do says of itself is what it holds.
pub proof fn law_the_contents_of_a_merge_job_action(a: MergeJobAction)
    ensures
        match a {
            MergeJobAction::CreateDest => a@ is CreateDest,
            MergeJobAction::ReadFrame { frame } => a@ == (MergeJobActionView::ReadFrame {
                frame: frame as nat,
            }),
            MergeJobAction::WriteDest { bytes } => a@ == (MergeJobActionView::WriteDest {
                bytes: bytes@,
            }),
            MergeJobAction::FindTool { tool } => a@ == (MergeJobActionView::FindTool {
                tool: tool@,
            }),
            MergeJobAction::WriteList { text } => a@ == (MergeJobActionView::WriteList {
                text: text@,
            }),
            MergeJobAction::RunTool { args } => a@ matches MergeJobActionView::RunTool { args: said }
                && said_of(args@, said),
            MergeJobAction::RemoveList => a@ is RemoveList,
            MergeJobAction::Finish { result: Ok(_) } => a@ == (MergeJobActionView::Finish {
                result: None,
            }),
            MergeJobAction::Finish { result: Err(e) } => a@ == (MergeJobActionView::Finish {
                result: Some(e@),
            }),
        },
{
}

/// An error keeps its kind, and what it says where it says something in words.
pub proof fn law_the_contents_of_an_error(e: ConvertError)
    ensures
        match e {
            ConvertError::UnsupportedPair => e@ == ErrorView::UnsupportedPair,
            ConvertError::ImageError(_) => e@ == ErrorView::ImageError,
            ConvertError::ToolNotFound(t) => e@ == ErrorView::ToolNotFound(t),
            ConvertError::ToolFailed(s) => e@ == ErrorView::ToolFailed(s),
            ConvertError::IoError(err) => e@ == ErrorView::IoError(err),
        },
{
}

/// What a conversion says of itself is what it holds: the new extension, and the stem of the file
/// where there is one that is Unicode.
pub proof fn law_the_contents_of_a_job(j: Job)
    ensures
        j@.to_ext == j.to_ext@,
        j@.stem == match j.stem {
            Some(s) => Some(s@),
            None => None,
        },
        match j.stage {
            JobStage::ReadingPicture { from_ext } => j@.stage == (JobStageView::ReadingPicture {
                from_ext: from_ext@,
            }),
            JobStage::SavingFrame { frames, index } => j@.stage == (JobStageView::SavingFrame {
                frames: raster_views(frames@),
                index: index as nat,
            }),
            JobStage::DrawingPage { page, pages } => j@.stage == (JobStageView::DrawingPage {
                page,
                pages,
            }),
            JobStage::SavingPage { page, pages } => j@.stage == (JobStageView::SavingPage {
                page,
                pages,
            }),
            _ => true,
        },
{
}

} // verus!
