//! Which files get thumbnails.
use vstd::prelude::*;

use crate::entries::{ascii_lower, ascii_lowercase};
use crate::paths::{extension_of, path_extension};
use crate::text::{chars_of, string_from_chars};

verus! {

#[derive(Clone, Copy, Debug, PartialEq, Eq, Structural)]
pub enum MediaKind {
    Image,
    Video,
}

pub open spec fn image_extensions() -> Seq<Seq<char>> {
    seq![
        "jpg"@, "jpeg"@, "png"@, "gif"@, "webp"@, "bmp"@, "tif"@, "tiff"@, "ico"@, "avif"@,
        "heic"@, "heif"@,
    ]
}

pub open spec fn video_extensions() -> Seq<Seq<char>> {
    seq![
        "mp4"@, "mkv"@, "webm"@, "mov"@, "avi"@, "m4v"@, "flv"@, "wmv"@, "mpg"@, "mpeg"@,
        "ogv"@, "3gp"@,
    ]
}

/// Kind of media a path names, by its ASCII-lowercased extension.
pub open spec fn media_kind_of(path: Seq<char>) -> Option<MediaKind> {
    match extension_of(path) {
        Some(ext) => if image_extensions().contains(ascii_lower(ext)) {
            Some(MediaKind::Image)
        } else if video_extensions().contains(ascii_lower(ext)) {
            Some(MediaKind::Video)
        } else {
            None
        },
        None => None,
    }
}

fn image_list() -> (r: Vec<&'static str>)
    ensures
        r@.map_values(|s: &str| s@) == image_extensions(),
{
    let v = vec![
        "jpg", "jpeg", "png", "gif", "webp", "bmp", "tif", "tiff", "ico", "avif", "heic", "heif",
    ];
    assert(v@.map_values(|s: &str| s@) =~= image_extensions());
    v
}

fn video_list() -> (r: Vec<&'static str>)
    ensures
        r@.map_values(|s: &str| s@) == video_extensions(),
{
    let v = vec![
        "mp4", "mkv", "webm", "mov", "avi", "m4v", "flv", "wmv", "mpg", "mpeg", "ogv", "3gp",
    ];
    assert(v@.map_values(|s: &str| s@) =~= video_extensions());
    v
}

fn listed(list: &Vec<&'static str>, ext: &Vec<char>) -> (r: bool)
    ensures
        r == list@.map_values(|s: &str| s@).contains(ext@),
{
    let ghost names = list@.map_values(|s: &str| s@);
    let mut i: usize = 0;
    while i < list.len()
        invariant
            i <= list.len(),
            names == list@.map_values(|s: &str| s@),
            forall|k: int| 0 <= k < i ==> names[k] != ext@,
        decreases list.len() - i,
    {
        let candidate = chars_of(list[i]);
        if crate::text::chars_eq(&candidate, ext) {
            assert(names[i as int] == ext@);
            return true;
        }
        i = i + 1;
    }
    false
}

/// Kind of media `path` names, by its extension in any letter case.
pub fn media_kind(path: &str) -> (r: Option<MediaKind>)
    ensures
        r == media_kind_of(path@),
{
    let ext = match path_extension(path) {
        Some(e) => ascii_lowercase(&chars_of(e.as_str())),
        None => {
            return None;
        },
    };
    if listed(&image_list(), &ext) {
        Some(MediaKind::Image)
    } else if listed(&video_list(), &ext) {
        Some(MediaKind::Video)
    } else {
        None
    }
}

/// Files (not directories) that are images or videos get thumbnails.
pub fn is_thumbnail_candidate(path: &str, is_dir: bool) -> (r: bool)
    ensures
        r == (!is_dir && media_kind_of(path@) is Some),
{
    !is_dir && media_kind(path).is_some()
}

/// Options every ffmpeg run starts with: no banner, errors only.
pub open spec fn ffmpeg_base() -> Seq<Seq<char>> {
    seq!["-hide_banner"@, "-loglevel"@, "error"@]
}

/// Arguments that make ffmpeg write one PNG frame of the video at `path` to its output,
/// `seek` half a second in.
pub open spec fn frame_args(path: Seq<char>, seek: bool) -> Seq<Seq<char>> {
    seq!["-nostdin"@] + (if seek {
        seq!["-ss"@, "0.5"@]
    } else {
        Seq::empty()
    }) + seq![
        "-i"@,
        path,
        "-map"@,
        "0:v:0"@,
        "-frames:v"@,
        "1"@,
        "-an"@,
        "-f"@,
        "image2pipe"@,
        "-vcodec"@,
        "png"@,
        "pipe:1"@,
    ]
}

fn owned(s: &str) -> (r: String)
    ensures
        r@ == s@,
{
    string_from_chars(&chars_of(s))
}

fn push_owned(out: &mut Vec<String>, s: &str)
    ensures
        final(out).deep_view() == old(out).deep_view().push(s@),
{
    let ghost before = out.deep_view();
    out.push(owned(s));
    assert(out.deep_view() =~= before.push(s@));
}

/// Options every ffmpeg run starts with.
pub fn ffmpeg_base_args() -> (r: Vec<String>)
    ensures
        r.deep_view() == ffmpeg_base(),
{
    let mut out: Vec<String> = Vec::new();
    push_owned(&mut out, "-hide_banner");
    push_owned(&mut out, "-loglevel");
    push_owned(&mut out, "error");
    assert(out.deep_view() =~= ffmpeg_base());
    out
}

fn frame_arg_list(path: &str, seek: bool) -> (r: Vec<String>)
    ensures
        r.deep_view() == frame_args(path@, seek),
{
    let mut out: Vec<String> = Vec::new();
    push_owned(&mut out, "-nostdin");
    if seek {
        push_owned(&mut out, "-ss");
        push_owned(&mut out, "0.5");
    }
    push_owned(&mut out, "-i");
    push_owned(&mut out, path);
    push_owned(&mut out, "-map");
    push_owned(&mut out, "0:v:0");
    push_owned(&mut out, "-frames:v");
    push_owned(&mut out, "1");
    push_owned(&mut out, "-an");
    push_owned(&mut out, "-f");
    push_owned(&mut out, "image2pipe");
    push_owned(&mut out, "-vcodec");
    push_owned(&mut out, "png");
    push_owned(&mut out, "pipe:1");
    assert(out.deep_view() =~= frame_args(path@, seek));
    out
}

/// The ffmpeg argument lists tried in turn to take a thumbnail frame of the video at `path`:
/// its first frame, then the frame half a second in.
pub fn video_frame_attempts(path: &str) -> (r: Vec<Vec<String>>)
    ensures
        r@.len() == 2,
        r@[0].deep_view() == frame_args(path@, false),
        r@[1].deep_view() == frame_args(path@, true),
{
    let mut out: Vec<Vec<String>> = Vec::new();
    out.push(frame_arg_list(path, false));
    out.push(frame_arg_list(path, true));
    out
}

} // verus!
