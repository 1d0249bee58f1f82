//! Laws of the converter.

use crate::converter::{
    anim_exts, codec_args, frame_file, image_exts, is_gif, is_outcome, list_file, office_exts, route,
    video_exts, Animation, ConvertError, Route,
};
use crate::pictures::{
    frame_decoded, frames_decoded, gif_encoded, known_format, rgba_decoded, FrameFile, RasterView,
};
use crate::text::{decimal, lowered, number, padded};
use crate::text_laws::{all_digits, law_a_padded_number};
use vstd::prelude::*;

verus! {

/// Lower case is not changed by making it lower case.
pub proof fn law_lower_case_is_kept(s: Seq<char>)
    ensures
        lowered(lowered(s)) == lowered(s),
{
    assert(lowered(lowered(s)) =~= lowered(s));
}

/// Where a route runs through the image library, there is a picture format for every extension
/// that is handed to it. So a routed conversion is never turned down for want of a format.
pub proof fn law_routed_formats_are_known(from_ext: Seq<char>, to_ext: Seq<char>)
    ensures
        match route(lowered(from_ext), lowered(to_ext)) {
            Some(Route::Picture) => known_format(lowered(from_ext)) && known_format(
                lowered(to_ext),
            ),
            Some(Route::Office) => true,
            Some(_) => known_format(lowered(to_ext)),
            None => true,
        },
{
    law_lower_case_is_kept(from_ext);
    law_lower_case_is_kept(to_ext);
    lemma_formats(lowered(from_ext));
    lemma_formats(lowered(to_ext));
}

proof fn lemma_formats(ext: Seq<char>)
    requires
        lowered(ext) == ext,
    ensures
        image_exts().contains(ext) || anim_exts().contains(ext) ==> known_format(ext),
{
    let all = crate::pictures::format_exts();
    assert(all[1] == "jpg"@ && all[2] == "jpeg"@ && all[4] == "png"@ && all[6] == "gif"@ && all[7]
        == "webp"@ && all[8] == "tif"@ && all[9] == "tiff"@ && all[12] == "bmp"@ && all[13]
        == "ico"@ && all[22] == "qoi"@);
}

/// Documents are converted into one another in both directions.
pub proof fn law_documents_convert_both_ways(f: Seq<char>, t: Seq<char>)
    ensures
        route(f, t) == Some(Route::Office) <==> route(t, f) == Some(Route::Office),
        office_exts().contains(f) && office_exts().contains(t) ==> route(f, t) == Some(
            Route::Office,
        ),
{
    law_classes_are_disjoint(f);
    law_classes_are_disjoint(t);
}

/// What tells the extensions apart: the length, the first two characters and the last.
spec fn mark(ext: Seq<char>) -> (nat, char, char, char) {
    (ext.len(), ext[0], ext[1], ext.last())
}

proof fn lemma_video_exts(ext: Seq<char>)
    requires
        video_exts().contains(ext),
    ensures
        mark(ext) == (3nat, 'm', 'p', '4')
            || mark(ext) == (4nat, 'w', 'e', 'm')
            || mark(ext) == (3nat, 'a', 'v', 'i')
            || mark(ext) == (3nat, 'm', 'o', 'v')
            || mark(ext) == (3nat, 'm', 'k', 'v')
            || mark(ext) == (3nat, 'f', 'l', 'v'),
{
    reveal_strlit("mp4");
    reveal_strlit("webm");
    reveal_strlit("avi");
    reveal_strlit("mov");
    reveal_strlit("mkv");
    reveal_strlit("flv");
    let i = choose|i: int| 0 <= i < video_exts().len() && video_exts()[i] == ext;
    assert(i == 0 || i == 1 || i == 2 || i == 3 || i == 4 || i == 5);
}

proof fn lemma_image_exts(ext: Seq<char>)
    requires
        image_exts().contains(ext),
    ensures
        mark(ext) == (3nat, 'p', 'n', 'g')
            || mark(ext) == (3nat, 'j', 'p', 'g')
            || mark(ext) == (4nat, 'j', 'p', 'g')
            || mark(ext) == (3nat, 'b', 'm', 'p')
            || mark(ext) == (4nat, 't', 'i', 'f')
            || mark(ext) == (3nat, 't', 'i', 'f')
            || mark(ext) == (3nat, 'i', 'c', 'o')
            || mark(ext) == (3nat, 'q', 'o', 'i'),
{
    reveal_strlit("png");
    reveal_strlit("jpg");
    reveal_strlit("jpeg");
    reveal_strlit("bmp");
    reveal_strlit("tiff");
    reveal_strlit("tif");
    reveal_strlit("ico");
    reveal_strlit("qoi");
    let i = choose|i: int| 0 <= i < image_exts().len() && image_exts()[i] == ext;
    assert(i == 0 || i == 1 || i == 2 || i == 3 || i == 4 || i == 5 || i == 6 || i == 7);
}

proof fn lemma_anim_exts(ext: Seq<char>)
    requires
        anim_exts().contains(ext),
    ensures
        mark(ext) == (3nat, 'g', 'i', 'f')
            || mark(ext) == (4nat, 'w', 'e', 'p'),
{
    reveal_strlit("gif");
    reveal_strlit("webp");
    let i = choose|i: int| 0 <= i < anim_exts().len() && anim_exts()[i] == ext;
    assert(i == 0 || i == 1);
}

proof fn lemma_office_exts(ext: Seq<char>)
    requires
        office_exts().contains(ext),
    ensures
        mark(ext) == (4nat, 'd', 'o', 'x')
            || mark(ext) == (3nat, 'd', 'o', 'c')
            || mark(ext) == (3nat, 'o', 'd', 't')
            || mark(ext) == (4nat, 'p', 'p', 'x')
            || mark(ext) == (3nat, 'p', 'p', 't')
            || mark(ext) == (3nat, 'o', 'd', 'p')
            || mark(ext) == (4nat, 'x', 'l', 'x')
            || mark(ext) == (3nat, 'x', 'l', 's')
            || mark(ext) == (3nat, 'o', 'd', 's')
            || mark(ext) == (2nat, 'm', 'd', 'd')
            || mark(ext) == (3nat, 'r', 't', 'f')
            || mark(ext) == (3nat, 't', 'x', 't')
            || mark(ext) == (3nat, 'p', 'd', 'f'),
{
    reveal_strlit("docx");
    reveal_strlit("doc");
    reveal_strlit("odt");
    reveal_strlit("pptx");
    reveal_strlit("ppt");
    reveal_strlit("odp");
    reveal_strlit("xlsx");
    reveal_strlit("xls");
    reveal_strlit("ods");
    reveal_strlit("md");
    reveal_strlit("rtf");
    reveal_strlit("txt");
    reveal_strlit("pdf");
    let i = choose|i: int| 0 <= i < office_exts().len() && office_exts()[i] == ext;
    assert(i == 0 || i == 1 || i == 2 || i == 3 || i == 4 || i == 5 || i == 6 || i == 7 || i == 8 || i == 9 || i == 10 || i == 11 || i == 12);
}

/// No extension belongs to two of the classes of videos, pictures, animations and documents, so
/// the order in which the routes are tried does not matter.
pub proof fn law_classes_are_disjoint(ext: Seq<char>)
    ensures
        !(video_exts().contains(ext) && image_exts().contains(ext)),
        !(video_exts().contains(ext) && anim_exts().contains(ext)),
        !(video_exts().contains(ext) && office_exts().contains(ext)),
        !(image_exts().contains(ext) && anim_exts().contains(ext)),
        !(image_exts().contains(ext) && office_exts().contains(ext)),
        !(anim_exts().contains(ext) && office_exts().contains(ext)),
{
    if video_exts().contains(ext) {
        lemma_video_exts(ext);
        if image_exts().contains(ext) {
            lemma_image_exts(ext);
        }
        if anim_exts().contains(ext) {
            lemma_anim_exts(ext);
        }
        if office_exts().contains(ext) {
            lemma_office_exts(ext);
        }
    } else if image_exts().contains(ext) {
        lemma_image_exts(ext);
        if anim_exts().contains(ext) {
            lemma_anim_exts(ext);
        }
        if office_exts().contains(ext) {
            lemma_office_exts(ext);
        }
    } else if anim_exts().contains(ext) && office_exts().contains(ext) {
        lemma_anim_exts(ext);
        lemma_office_exts(ext);
    }
}

/// Every conversion ends in a picture, an animation or a document; none ends in a video.
pub proof fn law_nothing_becomes_a_video(f: Seq<char>, t: Seq<char>)
    ensures
        video_exts().contains(t) ==> route(f, t) is None,
{
    law_classes_are_disjoint(t);
}

proof fn lemma_decimal_number(n: nat)
    ensures
        number(decimal(n)) == n,
        decimal(n).len() > 0,
    decreases n,
{
    if n < 10 {
        assert(decimal(n).drop_last() =~= Seq::<char>::empty());
        assert(number(Seq::<char>::empty()) == 0);
        assert(decimal(n).last() as u32 == '0' as u32 + n);
    } else {
        lemma_decimal_number(n / 10);
        assert(decimal(n).drop_last() =~= decimal(n / 10));
        assert(decimal(n).last() as u32 == '0' as u32 + n % 10);
    }
}

proof fn lemma_leading_zeros(k: nat, s: Seq<char>)
    ensures
        number(Seq::new(k, |i: int| '0') + s) == number(s),
    decreases k + s.len(),
{
    let z = Seq::new(k, |i: int| '0');
    if s.len() > 0 {
        lemma_leading_zeros(k, s.drop_last());
        assert((z + s).drop_last() =~= z + s.drop_last());
    } else if k > 0 {
        let y = Seq::new((k - 1) as nat, |i: int| '0');
        lemma_leading_zeros((k - 1) as nat, s);
        assert((z + s).drop_last() =~= y + s);
    } else {
        assert(z + s =~= s);
    }
}

/// The digits of a padded number stand for that number.
pub proof fn law_padded_numbers_read_back(n: nat, width: nat)
    ensures
        number(padded(n, width)) == n,
{
    lemma_decimal_number(n);
    if decimal(n).len() < width {
        lemma_leading_zeros((width - decimal(n).len()) as nat, decimal(n));
    }
}

/// Frames of different numbers are saved under different names.
pub proof fn law_frame_names_are_distinct(m: nat, n: nat, ext: Seq<char>)
    requires
        m != n,
    ensures
        frame_file(m, ext) != frame_file(n, ext),
{
    if frame_file(m, ext) == frame_file(n, ext) {
        let head = "frame_"@;
        let tail = "."@ + ext;
        let a = frame_file(m, ext);
        assert(a =~= head + padded(m, 4) + tail);
        assert(a =~= head + padded(n, 4) + tail);
        let end = a.len() - tail.len();
        assert(a.subrange(head.len() as int, end) =~= padded(m, 4));
        assert(a.subrange(head.len() as int, end) =~= padded(n, 4));
        law_padded_numbers_read_back(m, 4);
        law_padded_numbers_read_back(n, 4);
    }
}

// ---------------------------------------------------------------------------
// Routes
// ---------------------------------------------------------------------------

/// Whether an extension, in lower case, is one of a picture of one frame.
pub open spec fn names_picture(e: Seq<char>) -> bool {
    e == "png"@ || e == "jpg"@ || e == "jpeg"@ || e == "bmp"@ || e == "tiff"@ || e == "tif"@ || e
        == "ico"@ || e == "qoi"@
}

/// Whether an extension, in lower case, is one of a picture that may be animated.
pub open spec fn names_animation(e: Seq<char>) -> bool {
    e == "gif"@ || e == "webp"@
}

/// Whether an extension, in lower case, is one of a video.
pub open spec fn names_video(e: Seq<char>) -> bool {
    e == "mp4"@ || e == "webm"@ || e == "avi"@ || e == "mov"@ || e == "mkv"@ || e == "flv"@
}

/// Whether an extension, in lower case, is one of a document.
pub open spec fn names_document(e: Seq<char>) -> bool {
    e == "docx"@ || e == "doc"@ || e == "odt"@ || e == "pptx"@ || e == "ppt"@ || e == "odp"@ || e
        == "xlsx"@ || e == "xls"@ || e == "ods"@ || e == "md"@ || e == "rtf"@ || e == "txt"@ || e
        == "pdf"@
}

proof fn lemma_named(e: Seq<char>)
    ensures
        image_exts().contains(e) <==> names_picture(e),
        anim_exts().contains(e) <==> names_animation(e),
        video_exts().contains(e) <==> names_video(e),
        office_exts().contains(e) <==> names_document(e),
{
    let i = image_exts();
    let a = anim_exts();
    let v = video_exts();
    let o = office_exts();
    assert(i[0] == "png"@ && i[1] == "jpg"@ && i[2] == "jpeg"@ && i[3] == "bmp"@ && i[4] == "tiff"@
        && i[5] == "tif"@ && i[6] == "ico"@ && i[7] == "qoi"@);
    assert(a[0] == "gif"@ && a[1] == "webp"@);
    assert(v[0] == "mp4"@ && v[1] == "webm"@ && v[2] == "avi"@ && v[3] == "mov"@ && v[4] == "mkv"@
        && v[5] == "flv"@);
    assert(o[0] == "docx"@ && o[1] == "doc"@ && o[2] == "odt"@ && o[3] == "pptx"@ && o[4] == "ppt"@
        && o[5] == "odp"@ && o[6] == "xlsx"@ && o[7] == "xls"@ && o[8] == "ods"@ && o[9] == "md"@
        && o[10] == "rtf"@ && o[11] == "txt"@ && o[12] == "pdf"@);
}

/// A picture becomes a picture or an animation in one step; the frames of an animation or a video
/// and the pages of a PDF document become pictures; documents become documents; and nothing else
/// becomes anything.
pub proof fn law_what_becomes_what(f: Seq<char>, t: Seq<char>)
    ensures
        route(f, t) == Some(Route::Picture) <==> names_picture(f) && (names_picture(t)
            || names_animation(t)),
        route(f, t) == Some(Route::AnimationFrames) <==> names_animation(f) && names_picture(t),
        route(f, t) == Some(Route::VideoFrames) <==> names_video(f) && names_picture(t),
        route(f, t) == Some(Route::PdfFrames) <==> f == "pdf"@ && names_picture(t),
        route(f, t) == Some(Route::Office) <==> names_document(f) && names_document(t),
        route(f, t) is None <==> !(names_picture(f) && (names_picture(t) || names_animation(t)))
            && !((names_animation(f) || names_video(f) || f == "pdf"@) && names_picture(t)) && !(
        names_document(f) && names_document(t)),
{
    lemma_named(f);
    lemma_named(t);
    law_classes_are_disjoint(f);
    law_classes_are_disjoint(t);
    assert(names_document("pdf"@));
}

/// Whether two characters are the same, but for the case of a letter from `A` to `Z`.
pub open spec fn same_letter(a: char, b: char) -> bool {
    ||| a == b
    ||| 'A' <= a <= 'Z' && b as u32 == a as u32 + 32
    ||| 'A' <= b <= 'Z' && a as u32 == b as u32 + 32
}

/// It does not matter in which case the extensions are written: those that are the same but for the
/// case of their letters go the same way.
pub proof fn law_case_does_not_matter(f: Seq<char>, g: Seq<char>, t: Seq<char>, u: Seq<char>)
    requires
        f.len() == g.len(),
        forall|i: int| 0 <= i < f.len() ==> same_letter(#[trigger] f[i], g[i]),
        t.len() == u.len(),
        forall|i: int| 0 <= i < t.len() ==> same_letter(#[trigger] t[i], u[i]),
    ensures
        lowered(f) == lowered(g),
        lowered(t) == lowered(u),
        route(lowered(f), lowered(t)) == route(lowered(g), lowered(u)),
{
    assert forall|i: int| 0 <= i < f.len() implies lowered(f)[i] == lowered(g)[i] by {
        assert(same_letter(f[i], g[i]));
    }
    assert(lowered(f) =~= lowered(g));
    assert forall|i: int| 0 <= i < t.len() implies lowered(t)[i] == lowered(u)[i] by {
        assert(same_letter(t[i], u[i]));
    }
    assert(lowered(t) =~= lowered(u));
}

// ---------------------------------------------------------------------------
// Lists of frames
// ---------------------------------------------------------------------------

/// The list of no frames is empty, and one more frame puts one more line at the end, which names
/// it, whatever is on the list already.
pub proof fn law_every_frame_has_a_line(paths: Seq<String>, p: String)
    ensures
        list_file(Seq::<String>::empty()) == Seq::<char>::empty(),
        list_file(paths.push(p)) == list_file(paths) + "file '"@ + p@ + "'\n"@,
{
    assert(paths.push(p).drop_last() =~= paths);
    assert(list_file(paths.push(p)) =~= list_file(paths) + "file '"@ + p@ + "'\n"@);
}

/// The list is made of one line for each of the frames, in order, and of nothing else.
pub proof fn law_the_list_names_all_frames(paths: Seq<String>)
    ensures
        list_file(paths) == Seq::new(
            paths.len(),
            |i: int| "file '"@ + paths[i]@ + "'\n"@,
        ).flatten(),
    decreases paths.len(),
{
    let line = |i: int| "file '"@ + paths[i]@ + "'\n"@;
    let lines = Seq::new(paths.len(), line);
    if paths.len() == 0 {
        assert(lines =~= Seq::<Seq<char>>::empty());
        assert(paths =~= Seq::<String>::empty());
    } else {
        let before = paths.drop_last();
        law_the_list_names_all_frames(before);
        let head = Seq::new(before.len(), |i: int| "file '"@ + before[i]@ + "'\n"@);
        assert(paths =~= before.push(paths.last()));
        law_every_frame_has_a_line(before, paths.last());
        assert(lines =~= head.push(lines.last()));
        head.lemma_flatten_push(lines.last());
        assert(list_file(before) + "file '"@ + paths.last()@ + "'\n"@ =~= list_file(before) + (
        "file '"@ + paths.last()@ + "'\n"@));
    }
}

/// The line of a frame stands on the list after the lines of the frames before it and before the
/// lines of those after it; so no frame that there is a path for is left out.
pub proof fn law_the_place_of_a_frame_on_the_list(paths: Seq<String>, i: int) -> (rest: Seq<char>)
    requires
        0 <= i < paths.len(),
    ensures
        list_file(paths) == list_file(paths.take(i)) + "file '"@ + paths[i]@ + "'\n"@ + rest,
    decreases paths.len(),
{
    let before = paths.drop_last();
    let last = paths.last();
    assert(paths =~= before.push(last));
    law_every_frame_has_a_line(before, last);
    if i == paths.len() - 1 {
        assert(paths.take(i) =~= before);
        assert(list_file(paths) =~= list_file(paths.take(i)) + "file '"@ + paths[i]@ + "'\n"@
            + Seq::<char>::empty());
        Seq::empty()
    } else {
        let rest = law_the_place_of_a_frame_on_the_list(before, i);
        assert(before.take(i) =~= paths.take(i));
        let more = rest + ("file '"@ + last@ + "'\n"@);
        assert(list_file(paths) =~= list_file(paths.take(i)) + "file '"@ + paths[i]@ + "'\n"@
            + more);
        more
    }
}

/// A video is encoded by the codec of its container: VP9 for WebM, MPEG-4 for AVI, and H.264 with
/// pixels that every player shows for any other.
pub proof fn law_the_codec_of_a_video(ext: Seq<char>)
    ensures
        codec_args(ext)[0] == "-c:v"@,
        ext == "webm"@ ==> codec_args(ext).skip(1) == seq!["libvpx-vp9"@, "-b:v"@, "0"@, "-crf"@, "30"@],
        ext == "avi"@ ==> codec_args(ext).skip(1) == seq!["mpeg4"@],
        ext != "webm"@ && ext != "avi"@ ==> codec_args(ext).skip(1) == seq![
            "libx264"@,
            "-pix_fmt"@,
            "yuv420p"@,
        ],
{
    reveal_strlit("webm");
    reveal_strlit("avi");
    assert("webm"@.len() != "avi"@.len());
    let rest = codec_args(ext).skip(1);
    if ext == "webm"@ {
        assert(rest =~= seq!["libvpx-vp9"@, "-b:v"@, "0"@, "-crf"@, "30"@]);
    } else if ext == "avi"@ {
        assert(rest =~= seq!["mpeg4"@]);
    } else {
        assert(rest =~= seq!["libx264"@, "-pix_fmt"@, "yuv420p"@]);
    }
}

/// The name of a frame: `frame_`, digits that stand for its number, a dot and the extension. There
/// are four digits, and more only for numbers that need them.
pub proof fn law_the_name_of_a_frame(n: nat, ext: Seq<char>) -> (digits: Seq<char>)
    ensures
        frame_file(n, ext) == "frame_"@ + digits + "."@ + ext,
        all_digits(digits),
        number(digits) == n,
        digits.len() >= 4,
        digits.len() > 4 ==> digits[0] != '0',
{
    law_a_padded_number(n, 4);
    padded(n, 4)
}

// ---------------------------------------------------------------------------
// Animations
// ---------------------------------------------------------------------------

/// The frames of an animation are decoded one by one, in order and each by its own extension, up to
/// the first that cannot be; where each of them can be, none is left out.
pub proof fn law_frames_are_decoded_in_order(files: Seq<FrameFile>)
    ensures
        frames_decoded(files).len() <= files.len(),
        forall|i: int|
            0 <= i < frames_decoded(files).len() ==> frame_decoded(files[i]) == Some(
                #[trigger] frames_decoded(files)[i],
            ),
        frames_decoded(files).len() < files.len() ==> frame_decoded(
            files[frames_decoded(files).len() as int],
        ) is None,
    decreases files.len(),
{
    if files.len() > 0 {
        let before = files.drop_last();
        law_frames_are_decoded_in_order(before);
        let done = frames_decoded(before);
        assert forall|i: int| 0 <= i < frames_decoded(files).len() implies frame_decoded(files[i])
            == Some(#[trigger] frames_decoded(files)[i]) by {
            if i < done.len() {
                assert(before[i] == files[i]);
                assert(frames_decoded(files)[i] == done[i]);
            }
        }
        if done.len() < before.len() {
            assert(before[done.len() as int] == files[done.len() as int]);
        }
    }
}

/// A frame is decoded in the format of its extension; without one, or without a format for it,
/// there is nothing to decode it by.
pub proof fn law_a_frame_is_decoded_by_its_extension(f: FrameFile)
    ensures
        frame_decoded(f) matches Some(r) ==> (f.ext matches Some(e) && known_format(e@)
            && rgba_decoded(f.bytes@, e@) == Some(r)),
        f.ext matches Some(e) ==> known_format(e@) ==> frame_decoded(f) == rgba_decoded(
            f.bytes@,
            e@,
        ),
        f.ext is None ==> frame_decoded(f) is None,
        f.ext matches Some(e) ==> !known_format(e@) ==> frame_decoded(f) is None,
{
}

/// An animation holds all that was encoded of its frames, and is reported as made just where that is
/// the whole of them.
pub proof fn law_an_animation_holds_its_frames(
    res: Animation,
    frames: Seq<RasterView>,
    stopped: bool,
)
    requires
        is_gif(res, frames, stopped),
    ensures
        res.written matches Some(bytes) && bytes@ == gif_encoded(frames).bytes,
        res.result is Ok <==> gif_encoded(frames).whole && !stopped,
        res.result matches Err(e) ==> e is ImageError,
{
}

/// An operation on pictures is reported with the bytes that it made, all of them, or as an error of
/// the image library where it made none.
pub proof fn law_an_outcome_has_the_bytes(
    res: Result<Vec<u8>, ConvertError>,
    bytes: Option<Seq<u8>>,
)
    requires
        is_outcome(res, bytes),
    ensures
        res is Ok <==> bytes is Some,
        res matches Ok(out) ==> bytes == Some(out@),
        res matches Err(e) ==> e is ImageError,
{
}

/// The extensions of pictures and animations are in lower case, and there is a format for each.
pub proof fn law_pictures_have_formats(e: Seq<char>)
    requires
        names_picture(e) || names_animation(e),
    ensures
        lowered(e) == e,
        known_format(e),
{
    reveal_strlit("png");
    reveal_strlit("jpg");
    reveal_strlit("jpeg");
    reveal_strlit("bmp");
    reveal_strlit("tiff");
    reveal_strlit("tif");
    reveal_strlit("ico");
    reveal_strlit("qoi");
    reveal_strlit("gif");
    reveal_strlit("webp");
    assert(lowered(e) =~= e);
    lemma_named(e);
    lemma_formats(e);
}

} // verus!
