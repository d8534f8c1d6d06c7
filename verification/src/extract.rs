//! Planning the extraction of loaded media into a staging directory.
//!
//! The library does not touch the file system: it computes, for every media
//! blob read from a container, the exact staging path `<dir>/<id>.<ext>` the
//! blob belongs at.  The caller performs the writes, overwriting whatever a
//! previous extraction left there, so re-extracting the same archive into
//! the same staging directory is idempotent.

use vstd::prelude::*;
use crate::archive::RawMedia;

verus! {

/// One media blob as handed back to the caller: the recovered id and the
/// staging file that holds its bytes.
pub struct LoadedMedia {
    pub id: String,
    pub temp_path: String,
}

/// Everything a load yields: the board's JSON text and the loaded media.
pub struct LoadBoardResult {
    pub json: String,
    pub media: Vec<LoadedMedia>,
}

/// One file the caller must write to complete an extraction.
pub struct PlannedWrite {
    pub path: String,
    pub data: Vec<u8>,
}

/// Where a media file lands in the staging directory.
pub open spec fn spec_staging_path(dir: Seq<char>, file_name: Seq<char>) -> Seq<char> {
    dir + "/"@ + file_name
}

/// Lay out the recovered media in the staging directory: one staging file
/// per blob, named after its archive file name, in archive order.  The first
/// list reports id and path per blob; the second carries the bytes to put at
/// each path.
pub fn plan_extraction(staging_dir: &str, raw: Vec<RawMedia>) -> (r: (
    Vec<LoadedMedia>,
    Vec<PlannedWrite>,
))
    ensures
        r.0@.len() == raw@.len(),
        r.1@.len() == raw@.len(),
        forall|k: int| 0 <= k < raw@.len() ==> (#[trigger] r.0@[k]).id@ == raw@[k].id@,
        forall|k: int|
            0 <= k < raw@.len() ==> (#[trigger] r.0@[k]).temp_path@ == spec_staging_path(
                staging_dir@,
                raw@[k].file_name@,
            ),
        forall|k: int|
            0 <= k < raw@.len() ==> (#[trigger] r.1@[k]).path@ == spec_staging_path(
                staging_dir@,
                raw@[k].file_name@,
            ),
        forall|k: int| 0 <= k < raw@.len() ==> (#[trigger] r.1@[k]).data@ == raw@[k].data@,
{
    let ghost orig = raw@;
    let mut rest = raw;
    let mut media: Vec<LoadedMedia> = Vec::new();
    let mut writes: Vec<PlannedWrite> = Vec::new();
    proof {
        assert(orig.skip(0) =~= orig);
    }
    while rest.len() > 0
        invariant
            media@.len() == writes@.len(),
            media@.len() + rest@.len() == orig.len(),
            rest@ == orig.skip(media@.len() as int),
            forall|k: int| 0 <= k < media@.len() ==> (#[trigger] media@[k]).id@ == orig[k].id@,
            forall|k: int|
                0 <= k < media@.len() ==> (#[trigger] media@[k]).temp_path@ == spec_staging_path(
                    staging_dir@,
                    orig[k].file_name@,
                ),
            forall|k: int|
                0 <= k < media@.len() ==> (#[trigger] writes@[k]).path@ == spec_staging_path(
                    staging_dir@,
                    orig[k].file_name@,
                ),
            forall|k: int|
                0 <= k < media@.len() ==> (#[trigger] writes@[k]).data@ == orig[k].data@,
        decreases rest@.len(),
    {
        let ghost done = media@.len() as int;
        let m = rest.remove(0);
        proof {
            assert(m == orig[done]);
            assert(rest@ =~= orig.skip(done + 1));
        }
        let mut path = String::from_str(staging_dir);
        path.append("/");
        path.append(m.file_name.as_str());
        let path_copy = path.clone();
        let ghost prev_media = media@;
        let ghost prev_writes = writes@;
        proof {
            assert(m.id@ == orig[done].id@);
            assert(m.file_name@ == orig[done].file_name@);
            assert(path@ == spec_staging_path(staging_dir@, orig[done].file_name@));
        }
        media.push(LoadedMedia { id: m.id, temp_path: path });
        writes.push(PlannedWrite { path: path_copy, data: m.data });
        proof {
            assert forall|k: int| 0 <= k < media@.len() implies (#[trigger] media@[k]).id@
                == orig[k].id@ && media@[k].temp_path@ == spec_staging_path(
                staging_dir@,
                orig[k].file_name@,
            ) && (#[trigger] writes@[k]).path@ == spec_staging_path(
                staging_dir@,
                orig[k].file_name@,
            ) && writes@[k].data@ == orig[k].data@ by {
                if k < done {
                    assert(media@[k] == prev_media[k]);
                    assert(writes@[k] == prev_writes[k]);
                } else {
                    assert(media@[k] == media@.last());
                    assert(writes@[k] == writes@.last());
                }
            }
        }
    }
    (media, writes)
}

/// Put a load's pieces together, exactly as read: the JSON text unchanged
/// and the media list in archive order.
pub fn assemble_load_result(json: String, media: Vec<LoadedMedia>) -> (r: LoadBoardResult)
    ensures
        r.json == json,
        r.media == media,
{
    LoadBoardResult { json, media }
}

} // verus!
