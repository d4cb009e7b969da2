//! Saving a glyph: where the file goes and how the picture is laid out.

use vstd::prelude::*;
use vstd::string::StringExecFns;
use std::fmt::Write;
use crate::chars::chars_of;
use crate::normalize::is_alphanumeric;

verus! {

/// How the moment of saving is written into the file name: year, month,
/// day, an underscore, hour, minute, second.
pub const TIMESTAMP_FORMAT: &'static str = "%Y%m%d_%H%M%S";

/// The directory that saved glyphs go to.
pub const EXPORT_DIR: &'static str = "sigils";

/// Width and height of the saved picture, in pixels.
pub const IMAGE_SIZE: u32 = 600;

/// The centre of the saved picture, on either axis.
pub const IMAGE_CENTER: i32 = 300;

/// The radius of the circle on which the points lie, in pixels.
pub const CIRCLE_RADIUS: i32 = 250;

/// The radius of the mark that shows a point, in pixels.
pub const MARK_RADIUS: i32 = 10;

/// The phrase as it enters a file name: its ASCII letters and digits.
pub open spec fn sanitized(intention: Seq<char>) -> Seq<char> {
    intention.filter(|c: char| is_alphanumeric(c))
}

/// The path of the file for a glyph of `intention` saved at the moment
/// that `stamp` names.
pub open spec fn export_path_of(stamp: Seq<char>, intention: Seq<char>) -> Seq<char> {
    EXPORT_DIR@ + "/sigil_"@ + stamp + "_"@ + sanitized(intention) + ".png"@
}

/// Whether `path` is the path of a glyph of `intention`, saved at
/// whatever moment.
pub open spec fn is_export_path(path: Seq<char>, intention: Seq<char>) -> bool {
    exists|stamp: Seq<char>| path == #[trigger] export_path_of(stamp, intention)
}

/// The pixel, on either axis, of a place that lies `offset` pixels from
/// the centre: places beyond the picture go to its edge.
pub open spec fn pixel_at(offset: i32) -> u32 {
    if IMAGE_CENTER + offset < 0 {
        0
    } else if IMAGE_CENTER + offset > IMAGE_SIZE - 1 {
        (IMAGE_SIZE - 1) as u32
    } else {
        (IMAGE_CENTER + offset) as u32
    }
}

/// Reads the local time with chrono's `Local::now` and writes it out as
/// `DateTime::format` does for the given format. Nothing is claimed of
/// what comes back: it depends on the clock and the time zone, and there
/// is none where chrono cannot write the time in that format.
#[verifier::external_body]
pub(crate) fn local_time_as(format: &str) -> (stamp: Option<String>) {
    let mut out = String::new();
    match write!(out, "{}", chrono::Local::now().format(format)) {
        Ok(()) => Some(out),
        Err(_) => None,
    }
}

/// The phrase as it enters a file name.
pub fn sanitize(intention: &str) -> (out: String)
    ensures
        out@ == sanitized(intention@),
{
    let all = chars_of(intention);
    let ghost keep = |c: char| is_alphanumeric(c);
    let mut out = String::new();
    let mut i: usize = 0;
    proof {
        reveal(Seq::filter);
        assert(all@.take(0) =~= Seq::<char>::empty());
    }
    while i < all.len()
        invariant
            i <= all.len(),
            keep == (|c: char| is_alphanumeric(c)),
            out@ == all@.take(i as int).filter(keep),
        decreases all.len() - i,
    {
        let c = all[i];
        proof {
            reveal(Seq::filter);
            assert(all@.take(i + 1).drop_last() =~= all@.take(i as int));
            assert(all@.take(i + 1).last() == c);
        }
        if ('a' <= c && c <= 'z') || ('A' <= c && c <= 'Z') || ('0' <= c && c <= '9') {
            out.push(c);
        }
        i += 1;
    }
    assert(all@.take(all.len() as int) =~= all@);
    out
}

/// The path of the file for a glyph of `intention` saved at the moment
/// that `stamp` names.
pub fn export_path(stamp: &str, intention: &str) -> (path: String)
    ensures
        path@ == export_path_of(stamp@, intention@),
{
    let mut path = EXPORT_DIR.to_owned();
    path.append("/sigil_");
    path.append(stamp);
    path.append("_");
    let name = sanitize(intention);
    path.append(name.as_str());
    path.append(".png");
    path
}

/// The path of the file for a glyph of `intention`, given what reading
/// the clock brought: the path that the stamp names, and none without a
/// stamp.
pub fn stamped_export_path(stamp: Option<String>, intention: &str) -> (path: Option<String>)
    ensures
        path is Some <==> stamp is Some,
        stamp matches Some(s) ==> path matches Some(p) && p@ == export_path_of(s@, intention@),
{
    match stamp {
        Some(s) => Some(export_path(s.as_str(), intention)),
        None => None,
    }
}

/// The path of the file for a glyph of `intention` saved now; none where
/// the local time could not be written.
pub fn timestamped_export_path(intention: &str) -> (path: Option<String>)
    ensures
        path matches Some(p) ==> is_export_path(p@, intention@),
{
    let stamp = local_time_as(TIMESTAMP_FORMAT);
    let ghost read = stamp;
    let path = stamped_export_path(stamp, intention);
    proof {
        if let Some(s) = read {
            assert(path->0@ == export_path_of(s@, intention@));
        }
    }
    path
}

/// The pixel, on either axis, of a place that lies `offset` pixels from
/// the centre.
pub fn to_pixel(offset: i32) -> (pixel: u32)
    ensures
        pixel == pixel_at(offset),
        pixel < IMAGE_SIZE,
{
    let place: i64 = IMAGE_CENTER as i64 + offset as i64;
    if place < 0 {
        0
    } else if place > (IMAGE_SIZE - 1) as i64 {
        IMAGE_SIZE - 1
    } else {
        place as u32
    }
}

} // verus!
