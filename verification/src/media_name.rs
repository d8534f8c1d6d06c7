//! Archive-internal names for media entries.
//!
//! A media entry is stored as `media/<id>.<ext>`, where `<id>` is the
//! caller-assigned id and `<ext>` is the lower-cased extension of the
//! original source path, or `bin` when the source has none.  Reading splits
//! the name on its *last* dot, so ids that themselves contain dots are
//! recovered exactly.
//!
//! Source paths are taken with `/` as the directory separator, the same
//! convention the archive-internal names use.  On a host whose paths use
//! another separator the caller normalizes before handing a path in;
//! otherwise a directory name containing a dot could be mistaken for the
//! extension of an extensionless file.

use vstd::prelude::*;

verus! {

/// The index of the last occurrence of `c` in `s`, or `-1` if there is none.
pub open spec fn spec_last_index_of(s: Seq<char>, c: char) -> int
    decreases s.len(),
{
    if s.len() == 0 {
        -1
    } else if s.last() == c {
        s.len() - 1
    } else {
        spec_last_index_of(s.drop_last(), c)
    }
}

/// What `spec_last_index_of` returns: a position of `c` with nothing but
/// other characters after it, or `-1` when `c` does not occur at all.
pub proof fn lemma_last_index_of(s: Seq<char>, c: char)
    ensures
        -1 <= spec_last_index_of(s, c) < s.len(),
        spec_last_index_of(s, c) >= 0 ==> s[spec_last_index_of(s, c)] == c,
        forall|j: int| spec_last_index_of(s, c) < j < s.len() ==> s[j] != c,
    decreases s.len(),
{
    if s.len() > 0 && s.last() != c {
        lemma_last_index_of(s.drop_last(), c);
        assert forall|j: int| spec_last_index_of(s, c) < j < s.len() implies s[j] != c by {
            if j < s.len() - 1 {
                assert(s.drop_last()[j] == s[j]);
            }
        }
    }
}

/// Appending characters other than `c` does not move the last index of `c`.
pub proof fn lemma_last_index_of_append_free(s: Seq<char>, tail: Seq<char>, c: char)
    requires
        forall|j: int| 0 <= j < tail.len() ==> tail[j] != c,
    ensures
        spec_last_index_of(s + tail, c) == spec_last_index_of(s, c),
    decreases tail.len(),
{
    if tail.len() == 0 {
        assert(s + tail =~= s);
    } else {
        assert((s + tail).last() == tail.last());
        assert((s + tail).drop_last() =~= s + tail.drop_last());
        lemma_last_index_of_append_free(s, tail.drop_last(), c);
    }
}

/// The final path component: everything after the last `/`, the one
/// directory separator this library recognizes.
pub open spec fn spec_file_name(path: Seq<char>) -> Seq<char> {
    path.skip(spec_last_index_of(path, '/') + 1)
}

/// The extension of a path, as the platform derives it: the part of the file
/// name after its last dot, unless there is no dot or the file name starts
/// with its only dot.
pub open spec fn spec_extension(path: Seq<char>) -> Option<Seq<char>> {
    let f = spec_file_name(path);
    let d = spec_last_index_of(f, '.');
    if d <= 0 {
        Option::None
    } else {
        Option::Some(f.skip(d + 1))
    }
}

/// One character, lower-cased over the ASCII range.
pub open spec fn spec_lower_char(c: char) -> char {
    if 'A' <= c && c <= 'Z' {
        (((c as u8) + 32) as char)
    } else {
        c
    }
}

/// A string, lower-cased over the ASCII range.
pub open spec fn spec_lower(s: Seq<char>) -> Seq<char> {
    s.map_values(|c: char| spec_lower_char(c))
}

/// The extension under which a media source is archived: its lower-cased
/// extension, or `bin` when it has none.
pub open spec fn spec_media_ext(path: Seq<char>) -> Seq<char> {
    match spec_extension(path) {
        Option::Some(e) => spec_lower(e),
        Option::None => "bin"@,
    }
}

/// The full archive entry name of a media entry.
pub open spec fn spec_media_entry_name(id: Seq<char>, ext: Seq<char>) -> Seq<char> {
    "media/"@ + id + "."@ + ext
}

/// Whether an entry name denotes a stored media blob: it starts with
/// `media/` and carries at least one further character.  The bare directory
/// marker `media/` itself does not qualify.
pub open spec fn spec_is_media_name(name: Seq<char>) -> bool {
    name.len() > 6 && name.take(6) == "media/"@
}

/// The id recovered from a media file name: everything before the last dot,
/// or the whole name when there is no dot.
pub open spec fn spec_id_of(file_name: Seq<char>) -> Seq<char> {
    let d = spec_last_index_of(file_name, '.');
    if d < 0 {
        file_name
    } else {
        file_name.take(d)
    }
}

/// The index of the last occurrence of `c`, scanning from the end.
pub fn last_index_of(s: &str, c: char) -> (r: Option<usize>)
    ensures
        r matches Some(i) ==> i < s@.len() && spec_last_index_of(s@, c) == i as int,
        r is None ==> spec_last_index_of(s@, c) == -1,
{
    let n = s.unicode_len();
    let mut i: usize = n;
    proof {
        assert(s@.take(n as int) =~= s@);
    }
    while i > 0
        invariant
            i <= n,
            n == s@.len(),
            spec_last_index_of(s@, c) == spec_last_index_of(s@.take(i as int), c),
        decreases i,
    {
        i = i - 1;
        let ch = s.get_char(i);
        proof {
            assert(s@.take(i + 1).last() == s@[i as int]);
            assert(s@.take(i + 1).drop_last() =~= s@.take(i as int));
        }
        if ch == c {
            return Option::Some(i);
        }
    }
    proof {
        assert(s@.take(0) =~= Seq::<char>::empty());
    }
    Option::None
}

/// One character, lower-cased over the ASCII range.
pub fn lower_char(c: char) -> (r: char)
    ensures
        r == spec_lower_char(c),
{
    if 'A' <= c && c <= 'Z' {
        ((c as u8) + 32) as char
    } else {
        c
    }
}

/// A copy of `s`, lower-cased over the ASCII range.
pub fn lower(s: &str) -> (r: String)
    ensures
        r@ == spec_lower(s@),
{
    let n = s.unicode_len();
    let mut r = String::new();
    let mut i: usize = 0;
    while i < n
        invariant
            i <= n,
            n == s@.len(),
            r@ == spec_lower(s@.take(i as int)),
        decreases n - i,
    {
        let c = lower_char(s.get_char(i));
        crate::strutil::push_char(&mut r, c);
        proof {
            assert(spec_lower(s@.take(i + 1)) =~= spec_lower(s@.take(i as int)).push(
                spec_lower_char(s@[i as int]),
            ));
        }
        i = i + 1;
    }
    proof {
        assert(s@.take(n as int) =~= s@);
    }
    r
}

/// The extension under which a media source is archived.
pub fn media_ext(source_path: &str) -> (r: String)
    ensures
        r@ == spec_media_ext(source_path@),
{
    let n = source_path.unicode_len();
    let file_name: &str = match last_index_of(source_path, '/') {
        Option::Some(sl) => source_path.substring_char(sl + 1, n),
        Option::None => {
            proof {
                assert(source_path@.skip(0) =~= source_path@);
            }
            source_path
        },
    };
    match last_index_of(file_name, '.') {
        Option::Some(d) => {
            if d == 0 {
                String::from_str("bin")
            } else {
                let fl = file_name.unicode_len();
                lower(file_name.substring_char(d + 1, fl))
            }
        },
        Option::None => String::from_str("bin"),
    }
}

/// The archive entry name for a media entry: `media/<id>.<ext>`, with the
/// extension derived from the source path.
pub fn media_entry_name(id: &str, source_path: &str) -> (r: String)
    ensures
        r@ == spec_media_entry_name(id@, spec_media_ext(source_path@)),
{
    let mut r = String::from_str("media/");
    r.append(id);
    r.append(".");
    let e = media_ext(source_path);
    r.append(e.as_str());
    r
}

/// If `name` denotes a stored media blob, the file name under `media/`;
/// `None` for the bare directory marker and for every other entry.
pub fn parse_media_name(name: &str) -> (r: Option<String>)
    ensures
        r matches Some(f) ==> spec_is_media_name(name@) && f@ == name@.skip(6),
        r is None ==> !spec_is_media_name(name@),
{
    let n = name.unicode_len();
    proof {
        reveal_strlit("media/");
    }
    if n <= 6 {
        return Option::None;
    }
    let head = name.substring_char(0, 6);
    if crate::strutil::str_eq(head, "media/") {
        proof {
            assert(name@.take(6) =~= name@.subrange(0, 6));
        }
        let rest = name.substring_char(6, n);
        Option::Some(rest.to_owned())
    } else {
        proof {
            assert(name@.take(6) =~= name@.subrange(0, 6));
        }
        Option::None
    }
}

/// The id recovered from a media file name: everything before the last dot.
pub fn media_id_of(file_name: &str) -> (r: String)
    ensures
        r@ == spec_id_of(file_name@),
{
    match last_index_of(file_name, '.') {
        Option::Some(d) => {
            let head = file_name.substring_char(0, d);
            proof {
                assert(file_name@.take(d as int) =~= file_name@.subrange(0, d as int));
            }
            head.to_owned()
        },
        Option::None => file_name.to_owned(),
    }
}

/// A derived media extension never contains a dot: it is either the
/// lower-casing of what already stood after the last dot, or `bin`.
pub proof fn lemma_media_ext_has_no_dot(path: Seq<char>)
    ensures
        forall|j: int| 0 <= j < spec_media_ext(path).len() ==> spec_media_ext(path)[j] != '.',
{
    match spec_extension(path) {
        Option::Some(e) => {
            let f = spec_file_name(path);
            let d = spec_last_index_of(f, '.');
            lemma_last_index_of(f, '.');
            assert forall|j: int| 0 <= j < spec_lower(e).len() implies spec_lower(e)[j]
                != '.' by {
                assert(e[j] == f[d + 1 + j]);
                assert(f[d + 1 + j] != '.');
            }
        },
        Option::None => {
            reveal_strlit("bin");
        },
    }
}

/// Writing then reading is exact: the archive name derived from an id and a
/// dot-free extension splits back into that id (before the last dot), that
/// extension (after it), and always qualifies as a media entry name.
pub proof fn lemma_media_name_round_trip(id: Seq<char>, ext: Seq<char>)
    requires
        forall|j: int| 0 <= j < ext.len() ==> ext[j] != '.',
    ensures
        spec_is_media_name(spec_media_entry_name(id, ext)),
        spec_media_entry_name(id, ext).skip(6) == id + "."@ + ext,
        spec_id_of(id + "."@ + ext) == id,
        (id + "."@ + ext).skip(spec_last_index_of(id + "."@ + ext, '.') + 1) == ext,
{
    reveal_strlit("media/");
    reveal_strlit(".");
    let name = spec_media_entry_name(id, ext);
    assert(name.take(6) =~= "media/"@);
    assert(name.skip(6) =~= id + "."@ + ext);
    let fname = id + "."@ + ext;
    lemma_last_index_of_append_free(id + "."@, ext, '.');
    assert((id + "."@).last() == '.');
    assert(spec_last_index_of(id + "."@, '.') == id.len());
    assert(fname.take(id.len() as int) =~= id);
    assert(fname.skip(id.len() as int + 1) =~= ext);
}

/// The bare directory marker `media/` is not a media entry name.
pub proof fn lemma_directory_marker_is_not_media(name: Seq<char>)
    requires
        name == "media/"@,
    ensures
        !spec_is_media_name(name),
{
    reveal_strlit("media/");
}

} // verus!
