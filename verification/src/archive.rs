//! Building and decoding the board container.
//!
//! A container holds one entry named `board.json` with the exact bytes of
//! the board's JSON payload, followed by one `media/<id>.<ext>` entry per
//! media source that could be read.  Reading requires the `board.json`
//! entry, ignores everything else outside `media/`, and recovers each media
//! id by splitting the file name on its last dot.

use vstd::prelude::*;
use vstd::utf8::{decode_utf8, encode_utf8, encode_utf8_decode_utf8, encode_utf8_valid_utf8,
    valid_utf8};
use crate::errors::ArchiveError;
use crate::media_name::{lemma_media_ext_has_no_dot, lemma_media_name_round_trip, media_entry_name,
    media_id_of, parse_media_name, spec_id_of, spec_is_media_name, spec_media_entry_name,
    spec_media_ext};
use crate::strutil::{str_eq, string_from_utf8};
use crate::zipio::{archive_entries, archive_ok, zip_archive_len, zip_archive_open, zip_bytes,
    zip_entry_name, zip_parsed,
    zip_read_entry, zip_wf_entries, zip_writer_add, zip_writer_finish, zip_writer_new,
    writer_entries};

verus! {

/// One media source to archive: a caller-assigned id, unique per save, and
/// the path the media bytes come from.
pub struct MediaEntry {
    pub id: String,
    pub source_path: String,
}

/// One media blob read back from a container: the recovered id, the file
/// name it had under `media/` and its full bytes.
#[derive(Debug)]
pub struct RawMedia {
    pub id: String,
    pub file_name: String,
    pub data: Vec<u8>,
}

/// A successfully built container: its bytes, and the ids of the media
/// entries that were skipped because their source could not be found.
#[derive(Debug)]
pub struct WrittenArchive {
    pub bytes: Vec<u8>,
    pub skipped_ids: Vec<String>,
}

/// The archive name a media entry is stored under.
pub open spec fn spec_media_archive_name(m: MediaEntry) -> Seq<char> {
    spec_media_entry_name(m.id@, spec_media_ext(m.source_path@))
}

/// The (name, data) entries contributed by the media list: sources whose
/// bytes are present, in input order; missing sources contribute nothing.
pub open spec fn spec_media_entries(media: Seq<MediaEntry>, data: Seq<Option<Vec<u8>>>) -> Seq<
    (Seq<char>, Seq<u8>),
>
    decreases media.len(),
{
    if media.len() == 0 {
        Seq::empty()
    } else {
        spec_media_entries(media.drop_last(), data.drop_last()) + match data.last() {
            Option::Some(d) => seq![(spec_media_archive_name(media.last()), d@)],
            Option::None => Seq::empty(),
        }
    }
}

/// The full entry list of a save: `board.json` with the exact JSON bytes,
/// then the media entries in input order.
pub open spec fn spec_build_entries(
    json: Seq<char>,
    media: Seq<MediaEntry>,
    data: Seq<Option<Vec<u8>>>,
) -> Seq<(Seq<char>, Seq<u8>)> {
    seq![("board.json"@, encode_utf8(json))] + spec_media_entries(media, data)
}

/// The ids whose sources were missing, in input order.
pub open spec fn spec_skipped_ids(media: Seq<MediaEntry>, data: Seq<Option<Vec<u8>>>) -> Seq<
    Seq<char>,
>
    decreases media.len(),
{
    if media.len() == 0 {
        Seq::empty()
    } else {
        spec_skipped_ids(media.drop_last(), data.drop_last()) + match data.last() {
            Option::Some(d) => Seq::empty(),
            Option::None => seq![media.last().id@],
        }
    }
}

/// The data of the first entry named `board.json`, if any.
pub open spec fn spec_board_data(es: Seq<(Seq<char>, Seq<u8>)>) -> Option<Seq<u8>>
    decreases es.len(),
{
    if es.len() == 0 {
        Option::None
    } else if es[0].0 == "board.json"@ {
        Option::Some(es[0].1)
    } else {
        spec_board_data(es.skip(1))
    }
}

/// The media triples (id, file name, data) recovered from an entry list, in
/// entry order: one per entry under `media/`, everything else ignored.
pub open spec fn spec_raw_media(es: Seq<(Seq<char>, Seq<u8>)>) -> Seq<
    (Seq<char>, Seq<char>, Seq<u8>),
>
    decreases es.len(),
{
    if es.len() == 0 {
        Seq::empty()
    } else {
        spec_raw_media(es.drop_last()) + if spec_is_media_name(es.last().0) {
            seq![
                (spec_id_of(es.last().0.skip(6)), es.last().0.skip(6), es.last().1),
            ]
        } else {
            Seq::empty()
        }
    }
}

/// What reading an entry list yields: the decoded JSON text and the media
/// triples, or nothing when `board.json` is missing or not UTF-8.
pub open spec fn spec_decode(es: Seq<(Seq<char>, Seq<u8>)>) -> Option<
    (Seq<char>, Seq<(Seq<char>, Seq<char>, Seq<u8>)>),
> {
    match spec_board_data(es) {
        Option::Some(b) => if valid_utf8(b) {
            Option::Some((decode_utf8(b), spec_raw_media(es)))
        } else {
            Option::None
        },
        Option::None => Option::None,
    }
}

/// The views of a list of strings.
pub open spec fn spec_string_views(v: Seq<String>) -> Seq<Seq<char>> {
    v.map_values(|s: String| s@)
}

/// The views of a list of recovered media blobs.
pub open spec fn spec_raw_views(v: Seq<RawMedia>) -> Seq<(Seq<char>, Seq<char>, Seq<u8>)> {
    v.map_values(|m: RawMedia| (m.id@, m.file_name@, m.data@))
}

/// The entries built from a prefix of the media list form a prefix of the
/// entries built from the whole list.
proof fn lemma_media_entries_take_prefix(
    media: Seq<MediaEntry>,
    data: Seq<Option<Vec<u8>>>,
    i: int,
)
    requires
        media.len() == data.len(),
        0 <= i <= media.len(),
    ensures
        spec_media_entries(media.take(i), data.take(i)).len() <= spec_media_entries(
            media,
            data,
        ).len(),
        spec_media_entries(media, data).take(
            spec_media_entries(media.take(i), data.take(i)).len() as int,
        ) == spec_media_entries(media.take(i), data.take(i)),
    decreases media.len() - i,
{
    let full = spec_media_entries(media, data);
    let pi = spec_media_entries(media.take(i), data.take(i));
    if i == media.len() {
        assert(media.take(i) =~= media);
        assert(data.take(i) =~= data);
        assert(full.take(pi.len() as int) =~= full);
    } else {
        lemma_media_entries_take_prefix(media, data, i + 1);
        let pj = spec_media_entries(media.take(i + 1), data.take(i + 1));
        assert(media.take(i + 1).drop_last() =~= media.take(i));
        assert(data.take(i + 1).drop_last() =~= data.take(i));
        assert(media.take(i + 1).last() == media[i]);
        assert(data.take(i + 1).last() == data[i]);
        match data[i] {
            Option::Some(d) => {
                assert(pj =~= pi.push((spec_media_archive_name(media[i]), d@)));
                assert(pj.take(pi.len() as int) =~= pi);
            },
            Option::None => {
                assert(pj =~= pi);
            },
        }
        assert(full.take(pj.len() as int).take(pi.len() as int) =~= full.take(pi.len() as int));
        assert(full.take(pi.len() as int) =~= pi);
    }
}

/// Build the container for a board: the JSON bytes as `board.json`, then one
/// store-mode entry per media source whose bytes are present.  Missing
/// sources are skipped — their ids are reported, and the save still
/// succeeds.  The media list is paired index by index with the bytes read
/// for each source, `None` standing for a source that does not exist; its
/// length is bounded because a container holds at most 32-bit-many entries,
/// one of which is the board's.  A save fails only when the derived entry
/// list is not representable in the container format — above all, when two
/// media entries collide on one archive name: a representable list is always
/// written.
pub fn write_board_zip(
    board_json: &str,
    media: &Vec<MediaEntry>,
    media_data: &Vec<Option<Vec<u8>>>,
) -> (r: Result<WrittenArchive, ArchiveError>)
    requires
        media@.len() == media_data@.len(),
        media@.len() <= 0xFFFF_FFFE,
    ensures
        zip_wf_entries(spec_build_entries(board_json@, media@, media_data@)) ==> r is Ok,
        r matches Ok(w) ==> ({
            let es = spec_build_entries(board_json@, media@, media_data@);
            &&& w.bytes@ == zip_bytes(es)
            &&& zip_wf_entries(es)
            &&& spec_string_views(w.skipped_ids@) == spec_skipped_ids(media@, media_data@)
        }),
        r matches Err(e) ==> e is IoError,
{
    let mut w = zip_writer_new();
    let board_bytes = board_json.as_bytes_vec();
    match zip_writer_add(&mut w, "board.json", &board_bytes) {
        Ok(()) => {},
        Err(e) => {
            proof {
                let es = spec_build_entries(board_json@, media@, media_data@);
                if zip_wf_entries(es) {
                    assert(es.len() >= 1);
                    assert(es[0] == ("board.json"@, encode_utf8(board_json@)));
                    assert(encode_utf8(es[0].0).len() <= 0xFFFF);
                    assert(es[0].1.len() <= 0xFFFF_FFFF);
                    assert(false);
                }
            }
            return Err(ArchiveError::IoError(e));
        },
    }
    let mut skipped: Vec<String> = Vec::new();
    let mut i: usize = 0;
    proof {
        assert(media@.take(0) =~= Seq::<MediaEntry>::empty());
        assert(media_data@.take(0) =~= Seq::<Option<Vec<u8>>>::empty());
        assert(writer_entries(w) =~= spec_build_entries(
            board_json@,
            media@.take(0),
            media_data@.take(0),
        ));
        assert(spec_string_views(skipped@) =~= spec_skipped_ids(
            media@.take(0),
            media_data@.take(0),
        ));
    }
    while i < media.len()
        invariant
            i <= media@.len(),
            media@.len() == media_data@.len(),
            media@.len() <= 0xFFFF_FFFE,
            writer_entries(w) == spec_build_entries(
                board_json@,
                media@.take(i as int),
                media_data@.take(i as int),
            ),
            writer_entries(w).len() <= i + 1,
            zip_wf_entries(writer_entries(w)),
            spec_string_views(skipped@) == spec_skipped_ids(
                media@.take(i as int),
                media_data@.take(i as int),
            ),
        decreases media@.len() - i,
    {
        proof {
            assert(media@.take(i + 1).drop_last() =~= media@.take(i as int));
            assert(media_data@.take(i + 1).drop_last() =~= media_data@.take(i as int));
        }
        match &media_data[i] {
            Option::Some(d) => {
                let m = &media[i];
                let name = media_entry_name(m.id.as_str(), m.source_path.as_str());
                let ghost before = writer_entries(w);
                match zip_writer_add(&mut w, name.as_str(), d) {
                    Ok(()) => {},
                    Err(e) => {
                        proof {
                            let es = spec_build_entries(board_json@, media@, media_data@);
                            if zip_wf_entries(es) {
                                lemma_media_entries_take_prefix(media@, media_data@, i as int);
                                let pi = spec_media_entries(
                                    media@.take(i as int),
                                    media_data@.take(i as int),
                                );
                                let fullm = spec_media_entries(media@, media_data@);
                                lemma_media_entries_take_prefix(media@, media_data@, i + 1);
                                let pj = spec_media_entries(
                                    media@.take(i + 1),
                                    media_data@.take(i + 1),
                                );
                                assert(media@.take(i + 1).last() == media@[i as int]);
                                assert(media_data@.take(i + 1).last() == media_data@[i as int]);
                                let np = (spec_media_archive_name(media@[i as int]), d@);
                                assert(pj =~= pi.push(np));
                                let k = before.len() as int;
                                assert(before =~= seq![
                                    ("board.json"@, encode_utf8(board_json@)),
                                ] + pi);
                                assert(k == 1 + pi.len());
                                assert(es =~= seq![
                                    ("board.json"@, encode_utf8(board_json@)),
                                ] + fullm);
                                assert(k < es.len());
                                assert(before =~= es.take(k));
                                assert(pj == fullm.take(pj.len() as int));
                                assert(fullm.take(pj.len() as int).last() == fullm[pj.len() - 1]);
                                assert(es[k] == np);
                                assert(name@ == es[k].0);
                                assert(d@ == es[k].1);
                                assert forall|a: int| 0 <= a < before.len() implies (
                                #[trigger] before[a]).0 != name@ by {
                                    assert(before[a] == es[a]);
                                    assert(es[a].0 != es[k].0);
                                }
                                assert(encode_utf8(es[k].0).len() <= 0xFFFF);
                                assert(es[k].1.len() <= 0xFFFF_FFFF);
                                assert(false);
                            }
                        }
                        return Err(ArchiveError::IoError(e));
                    },
                }
                proof {
                    assert(writer_entries(w) =~= spec_build_entries(
                        board_json@,
                        media@.take(i + 1),
                        media_data@.take(i + 1),
                    ));
                    assert forall|a: int, b: int|
                        0 <= a < b < writer_entries(w).len() implies (writer_entries(w)[a]).0 != (
                    writer_entries(w)[b]).0 by {
                        if b < before.len() {
                            assert(writer_entries(w)[a] == before[a]);
                            assert(writer_entries(w)[b] == before[b]);
                        } else {
                            assert(writer_entries(w)[a] == before[a]);
                        }
                    }
                    assert(spec_string_views(skipped@) =~= spec_skipped_ids(
                        media@.take(i + 1),
                        media_data@.take(i + 1),
                    ));
                }
            },
            Option::None => {
                let m = &media[i];
                skipped.push(m.id.clone());
                proof {
                    assert(writer_entries(w) =~= spec_build_entries(
                        board_json@,
                        media@.take(i + 1),
                        media_data@.take(i + 1),
                    ));
                    assert(spec_string_views(skipped@) =~= spec_string_views(
                        skipped@.drop_last(),
                    ).push(media@[i as int].id@));
                    assert(spec_string_views(skipped@) =~= spec_skipped_ids(
                        media@.take(i + 1),
                        media_data@.take(i + 1),
                    ));
                }
            },
        }
        i = i + 1;
    }
    proof {
        assert(media@.take(media@.len() as int) =~= media@);
        assert(media_data@.take(media_data@.len() as int) =~= media_data@);
    }
    match zip_writer_finish(w) {
        Ok(bytes) => Ok(WrittenArchive { bytes, skipped_ids: skipped }),
        Err(e) => Err(ArchiveError::IoError(e)),
    }
}

/// Finding the first `board.json` after one more entry: an already found
/// board entry stays found, otherwise the new entry decides.
proof fn lemma_board_data_snoc(es: Seq<(Seq<char>, Seq<u8>)>, x: (Seq<char>, Seq<u8>))
    ensures
        spec_board_data(es.push(x)) == (if spec_board_data(es) is Some {
            spec_board_data(es)
        } else if x.0 == "board.json"@ {
            Option::Some(x.1)
        } else {
            Option::<Seq<u8>>::None
        }),
    decreases es.len(),
{
    if es.len() == 0 {
        assert(es.push(x)[0] == x);
        assert(es.push(x).skip(1) =~= Seq::<(Seq<char>, Seq<u8>)>::empty());
        assert(spec_board_data(Seq::<(Seq<char>, Seq<u8>)>::empty()) is None);
    } else {
        assert(es.push(x)[0] == es[0]);
        assert(es.push(x).skip(1) =~= es.skip(1).push(x));
        lemma_board_data_snoc(es.skip(1), x);
    }
}

/// `board.json` is not a media entry name.
proof fn lemma_board_name_is_not_media()
    ensures
        !spec_is_media_name("board.json"@),
{
    reveal_strlit("board.json");
    reveal_strlit("media/");
    assert("board.json"@.take(6)[0] == 'b');
    assert("media/"@[0] == 'm');
    assert("board.json"@.take(6) != "media/"@);
}

/// Read a container back: the exact JSON text and one media blob per entry
/// under `media/`, in entry order.  Bytes that do not parse as a container,
/// a container without a `board.json` entry, and board text that is not
/// UTF-8 are format errors; a failed entry read is an I/O error.  On the
/// exact bytes of a successfully written container the result is precisely
/// what `spec_decode` says of the written entry list.  A container written
/// by another producer also loads whenever its entries read back cleanly,
/// but the contract promises success only for this library's own bytes: for
/// foreign bytes, whether every entry is readable is not a fact this
/// module's trusted names tie to the bytes alone.
pub fn read_board_zip(bytes: Vec<u8>) -> (r: Result<(String, Vec<RawMedia>), ArchiveError>)
    ensures
        zip_parsed(bytes@) is None ==> (r matches Err(e) && e is FormatError),
        (zip_parsed(bytes@) matches Some(es) && spec_board_data(es) is None) ==> (r matches Err(
            e,
        ) && e is FormatError),
        zip_parsed(bytes@) matches Some(es) ==> (match spec_decode(es) {
            Option::Some(d) => r matches Ok(p) ==> p.0@ == d.0 && spec_raw_views(p.1@) == d.1,
            Option::None => r is Err,
        }),
        forall|es: Seq<(Seq<char>, Seq<u8>)>|
            zip_wf_entries(es) && bytes@ == #[trigger] zip_bytes(es) ==> (match spec_decode(es) {
                Option::Some(d) => r matches Ok(p) && p.0@ == d.0 && spec_raw_views(p.1@) == d.1,
                Option::None => r matches Err(e) && e is FormatError,
            }),
        r matches Err(e) ==> e is FormatError || e is IoError,
{
    let ghost bv = bytes@;
    let mut archive = match zip_archive_open(bytes) {
        Ok(a) => a,
        Err(e) => {
            return Err(ArchiveError::FormatError(e));
        },
    };
    let ghost ents = archive_entries(archive);
    let ghost ok0 = archive_ok(archive);
    proof {
        assert(zip_parsed(bv) == Option::Some(ents));
        assert forall|es: Seq<(Seq<char>, Seq<u8>)>|
            zip_wf_entries(es) && bv == #[trigger] zip_bytes(es) implies ents == es && ok0 by {}
    }
    let n = zip_archive_len(&archive);

    // A pass over the names alone, before any entry data is touched: the
    // container must hold a board.json entry at all.
    let mut has_board = false;
    let mut i: usize = 0;
    proof {
        assert(ents.take(0) =~= Seq::<(Seq<char>, Seq<u8>)>::empty());
    }
    while i < n
        invariant
            i <= n,
            n == ents.len(),
            archive_entries(archive) == ents,
            archive_ok(archive) == ok0,
            has_board <==> spec_board_data(ents.take(i as int)) is Some,
        decreases n - i,
    {
        let name = zip_entry_name(&archive, i);
        proof {
            assert(ents.take(i + 1) =~= ents.take(i as int).push(ents[i as int]));
            lemma_board_data_snoc(ents.take(i as int), ents[i as int]);
        }
        if str_eq(name.as_str(), "board.json") {
            has_board = true;
        }
        i = i + 1;
    }
    proof {
        assert(ents.take(n as int) =~= ents);
    }
    if !has_board {
        return Err(ArchiveError::FormatError(String::from_str(
            "no board.json entry in container",
        )));
    }

    let mut board: Option<Vec<u8>> = Option::None;
    let mut raw: Vec<RawMedia> = Vec::new();
    let mut i: usize = 0;
    proof {
        assert(spec_raw_views(raw@) =~= spec_raw_media(ents.take(0)));
    }
    while i < n
        invariant
            i <= n,
            n == ents.len(),
            bv == bytes@,
            zip_parsed(bv) == Option::Some(ents),
            spec_board_data(ents) is Some,
            forall|es: Seq<(Seq<char>, Seq<u8>)>|
                zip_wf_entries(es) && bv == #[trigger] zip_bytes(es) ==> ents == es && ok0,
            archive_entries(archive) == ents,
            archive_ok(archive) == ok0,
            spec_opt_bytes(board) == spec_board_data(ents.take(i as int)),
            spec_raw_views(raw@) == spec_raw_media(ents.take(i as int)),
        decreases n - i,
    {
        let entry = match zip_read_entry(&mut archive, i) {
            Ok(p) => p,
            Err(e) => {
                return Err(ArchiveError::IoError(e));
            },
        };
        proof {
            assert(ents.take(i + 1) =~= ents.take(i as int).push(ents[i as int]));
            assert(ents.take(i + 1).drop_last() =~= ents.take(i as int));
            assert(ents.take(i + 1).last() == ents[i as int]);
            assert(entry.0@ == ents[i as int].0);
            assert(entry.1@ == ents[i as int].1);
            lemma_board_data_snoc(ents.take(i as int), ents[i as int]);
            lemma_board_name_is_not_media();
        }
        let is_board_entry = str_eq(entry.0.as_str(), "board.json");
        if board.is_none() && is_board_entry {
            board = Option::Some(entry.1);
            proof {
                assert(spec_raw_views(raw@) =~= spec_raw_media(ents.take(i + 1)));
            }
        } else {
            match parse_media_name(entry.0.as_str()) {
                Option::Some(fname) => {
                    let id = media_id_of(fname.as_str());
                    let ghost prev = raw@;
                    raw.push(RawMedia { id, file_name: fname, data: entry.1 });
                    proof {
                        assert(spec_raw_views(raw@) =~= spec_raw_views(prev).push(
                            (
                                spec_id_of(ents[i as int].0.skip(6)),
                                ents[i as int].0.skip(6),
                                ents[i as int].1,
                            ),
                        ));
                        assert(spec_raw_views(raw@) =~= spec_raw_media(ents.take(i + 1)));
                    }
                },
                Option::None => {
                    proof {
                        assert(spec_raw_views(raw@) =~= spec_raw_media(ents.take(i + 1)));
                    }
                },
            }
        }
        i = i + 1;
    }
    proof {
        assert(ents.take(n as int) =~= ents);
    }
    let board_bytes = match board {
        Option::Some(b) => b,
        Option::None => {
            return Err(ArchiveError::FormatError(String::from_str(
                "no board.json entry in container",
            )));
        },
    };
    match string_from_utf8(board_bytes) {
        Option::Some(text) => Ok((text, raw)),
        Option::None => Err(ArchiveError::FormatError(String::from_str(
            "board.json is not valid UTF-8",
        ))),
    }
}

/// An optional byte buffer, as a mathematical value.
pub open spec fn spec_opt_bytes(o: Option<Vec<u8>>) -> Option<Seq<u8>> {
    match o {
        Option::Some(v) => Option::Some(v@),
        Option::None => Option::None,
    }
}

/// The media triples a read is expected to recover from a save: for every
/// media source whose bytes were present, its id, its file name
/// `<id>.<ext>`, and its exact bytes, in input order.
pub open spec fn spec_expected_media(media: Seq<MediaEntry>, data: Seq<Option<Vec<u8>>>) -> Seq<
    (Seq<char>, Seq<char>, Seq<u8>),
>
    decreases media.len(),
{
    if media.len() == 0 {
        Seq::empty()
    } else {
        spec_expected_media(media.drop_last(), data.drop_last()) + match data.last() {
            Option::Some(d) => seq![
                (
                    media.last().id@,
                    media.last().id@ + "."@ + spec_media_ext(media.last().source_path@),
                    d@,
                ),
            ],
            Option::None => Seq::empty(),
        }
    }
}

/// The media entries of a save decode back exactly: after any one leading
/// entry that is not a media name, every written media entry is recovered
/// with its id, file name and bytes, and nothing else is recovered.
proof fn lemma_media_entries_decode(
    b: (Seq<char>, Seq<u8>),
    media: Seq<MediaEntry>,
    data: Seq<Option<Vec<u8>>>,
)
    requires
        media.len() == data.len(),
        !spec_is_media_name(b.0),
    ensures
        spec_raw_media(seq![b] + spec_media_entries(media, data)) == spec_expected_media(
            media,
            data,
        ),
    decreases media.len(),
{
    if media.len() == 0 {
        assert(seq![b] + spec_media_entries(media, data) =~= seq![b]);
        assert(seq![b].drop_last() =~= Seq::<(Seq<char>, Seq<u8>)>::empty());
        assert(spec_raw_media(Seq::<(Seq<char>, Seq<u8>)>::empty()) =~= Seq::<
            (Seq<char>, Seq<char>, Seq<u8>),
        >::empty());
        assert(seq![b].last() == b);
        assert(spec_raw_media(seq![b]) =~= Seq::<(Seq<char>, Seq<char>, Seq<u8>)>::empty());
    } else {
        let prefix = seq![b] + spec_media_entries(media.drop_last(), data.drop_last());
        lemma_media_entries_decode(b, media.drop_last(), data.drop_last());
        let full = seq![b] + spec_media_entries(media, data);
        match data.last() {
            Option::Some(d) => {
                let m = media.last();
                let ext = spec_media_ext(m.source_path@);
                lemma_media_ext_has_no_dot(m.source_path@);
                lemma_media_name_round_trip(m.id@, ext);
                assert(full =~= prefix.push((spec_media_archive_name(m), d@)));
                assert(full.drop_last() =~= prefix);
                assert(full.last() == (spec_media_archive_name(m), d@));
                assert(spec_raw_media(full) =~= spec_expected_media(media, data));
            },
            Option::None => {
                assert(full =~= prefix);
                assert(spec_expected_media(media, data) =~= spec_expected_media(
                    media.drop_last(),
                    data.drop_last(),
                ));
            },
        }
    }
}

/// Round trip: decoding the entry list of any save recovers the exact JSON
/// text, and one media triple per media source whose bytes were present, in
/// input order, each carrying its original id, its `<id>.<ext>` file name
/// and its exact bytes.
pub proof fn lemma_save_decode_round_trip(
    json: Seq<char>,
    media: Seq<MediaEntry>,
    data: Seq<Option<Vec<u8>>>,
)
    requires
        media.len() == data.len(),
    ensures
        spec_decode(spec_build_entries(json, media, data)) == Option::Some(
            (json, spec_expected_media(media, data)),
        ),
{
    let b = ("board.json"@, encode_utf8(json));
    let es = spec_build_entries(json, media, data);
    assert(es =~= seq![b] + spec_media_entries(media, data));
    assert(es[0] == b);
    assert(spec_board_data(es) == Option::Some(encode_utf8(json)));
    encode_utf8_valid_utf8(json);
    encode_utf8_decode_utf8(json);
    lemma_board_name_is_not_media();
    lemma_media_entries_decode(b, media, data);
}

/// An entry literally named `media/` — a bare directory marker, with no
/// further path segment — contributes no recovered media, wherever it stands
/// in the container.
pub proof fn lemma_directory_marker_skipped(
    es: Seq<(Seq<char>, Seq<u8>)>,
    i: int,
    marker: (Seq<char>, Seq<u8>),
)
    requires
        0 <= i <= es.len(),
        marker.0 == "media/"@,
    ensures
        spec_raw_media(es.insert(i, marker)) == spec_raw_media(es),
    decreases es.len(),
{
    crate::media_name::lemma_directory_marker_is_not_media(marker.0);
    if i == es.len() {
        assert(es.insert(i, marker) =~= es.push(marker));
        assert(es.push(marker).drop_last() =~= es);
        assert(es.push(marker).last() == marker);
        assert(spec_raw_media(es.push(marker)) =~= spec_raw_media(es));
    } else {
        assert(es.insert(i, marker).drop_last() =~= es.drop_last().insert(i, marker));
        assert(es.insert(i, marker).last() == es.last());
        lemma_directory_marker_skipped(es.drop_last(), i, marker);
        assert(spec_raw_media(es.insert(i, marker)) =~= spec_raw_media(es));
    }
}

/// How many media sources were present.
pub open spec fn spec_present_count(data: Seq<Option<Vec<u8>>>) -> int
    decreases data.len(),
{
    if data.len() == 0 {
        0
    } else {
        spec_present_count(data.drop_last()) + if data.last() is Some {
            1int
        } else {
            0int
        }
    }
}

/// A save writes exactly the media whose sources exist and skips exactly the
/// others: beside `board.json`, one container entry per present source, and
/// one reported id per missing source.
pub proof fn lemma_missing_sources_are_skipped(
    json: Seq<char>,
    media: Seq<MediaEntry>,
    data: Seq<Option<Vec<u8>>>,
)
    requires
        media.len() == data.len(),
    ensures
        spec_media_entries(media, data).len() == spec_present_count(data),
        spec_skipped_ids(media, data).len() == media.len() - spec_present_count(data),
        spec_build_entries(json, media, data).len() == 1 + spec_present_count(data),
    decreases media.len(),
{
    if media.len() > 0 {
        lemma_missing_sources_are_skipped(json, media.drop_last(), data.drop_last());
    }
}

} // verus!


