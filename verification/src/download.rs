//! The one decision the video-download command makes before shelling out.

use vstd::prelude::*;

verus! {

/// Whether a URL may be handed to the downloader process: one that begins
/// with a dash is refused, so it can never be mistaken for an option.
pub fn download_url_is_safe(url: &str) -> (r: bool)
    ensures
        r <==> !(url@.len() > 0 && url@[0] == '-'),
{
    if url.unicode_len() == 0 {
        true
    } else {
        url.get_char(0) != '-'
    }
}

} // verus!
