//! Where entries live on disk, below the data directory.  Paths are plain
//! strings joined with the rules of `Path::join` on Unix.

use vstd::prelude::*;
use vstd::utf8::{decode_utf8, encode_utf8, is_char_boundary};
use crate::text::{concat, str_eq, str_starts_with};

verus! {

broadcast use vstd::utf8::encode_utf8_decode_utf8, vstd::utf8::encode_utf8_valid_utf8;

/// `base.join(part)` on Unix: an absolute `part` replaces `base`; otherwise a
/// separator is added when `base` is non-empty and does not already end in
/// one.
pub open spec fn join_spec(base: Seq<char>, part: Seq<char>) -> Seq<char> {
    if part.len() > 0 && part[0] == '/' {
        part
    } else if base.len() > 0 && base.last() != '/' {
        base + seq!['/'] + part
    } else {
        base + part
    }
}

/// `base.join(part)`.
pub fn join(base: &str, part: &str) -> (r: String)
    ensures
        r@ == join_spec(base@, part@),
{
    proof {
        reveal_strlit("/");
        assert("/"@ =~= seq!['/']);
    }
    if str_starts_with(part, "/") {
        assert(part@.take(1) =~= seq!['/']);
        assert(part@[0] == part@.take(1)[0]);
        return crate::text::owned(part);
    }
    proof {
        if part@.len() > 0 && part@[0] == '/' {
            assert(part@.take(1) =~= seq!['/']);
        }
    }
    let base_chars = crate::text::chars_of(base);
    if base_chars.len() > 0 && base_chars[base_chars.len() - 1] != '/' {
        let with_sep = concat(base, "/");
        concat(with_sep.as_str(), part)
    } else {
        concat(base, part)
    }
}

/// The characters encoded by bytes `lo..hi` of the UTF-8 encoding of `s`
/// (`&s[lo..hi]`).
pub open spec fn byte_range(s: Seq<char>, lo: int, hi: int) -> Seq<char> {
    decode_utf8(encode_utf8(s).subrange(lo, hi))
}

/// `&hash[..2]` and `&hash[2..4]` are both defined: bytes 2 and 4 of the
/// UTF-8 encoding start characters (or end the string).
pub open spec fn hash_splittable(hash: Seq<char>) -> bool {
    is_char_boundary(encode_utf8(hash), 2) && is_char_boundary(encode_utf8(hash), 4)
}

/// The two directory levels under which an entry is filed: the first two
/// bytes of its hash and the next two.
pub fn hash_prefixes(hash: &str) -> (r: (&str, &str))
    requires
        hash_splittable(hash@),
    ensures
        r.0@ == byte_range(hash@, 0, 2),
        r.1@ == byte_range(hash@, 2, 4),
{
    let ghost bytes = encode_utf8(hash@);
    proof {
        vstd::utf8::valid_utf8_split(bytes, 4);
        vstd::utf8::is_char_boundary_iff_not_is_continuation_byte(bytes, 2);
    }
    let (first4, _rest) = hash.split_at(4);
    let ghost b4 = encode_utf8(first4@);
    assert(b4 =~= bytes.subrange(0, 4));
    proof {
        vstd::utf8::is_char_boundary_iff_not_is_continuation_byte(b4, 2);
    }
    let (a, b) = first4.split_at(2);
    assert(encode_utf8(a@) =~= bytes.subrange(0, 2));
    assert(encode_utf8(b@) =~= bytes.subrange(2, 4));
    (a, b)
}

/// `data_dir/objects`.
pub fn objects_dir(data_dir: &str) -> (r: String)
    ensures
        r@ == join_spec(data_dir@, "objects"@),
{
    join(data_dir, "objects")
}

/// `data_dir/objects/<hash[..2]>/<hash[2..4]>/<hash>` as a spec.
pub open spec fn item_dir_spec(data_dir: Seq<char>, hash: Seq<char>) -> Seq<char> {
    join_spec(
        join_spec(
            join_spec(join_spec(data_dir, "objects"@), byte_range(hash, 0, 2)),
            byte_range(hash, 2, 4),
        ),
        hash,
    )
}

/// The directory that holds the entry with this hash.
pub fn item_dir(data_dir: &str, hash: &str) -> (r: String)
    requires
        hash_splittable(hash@),
    ensures
        r@ == item_dir_spec(data_dir@, hash@),
{
    let (a, b) = hash_prefixes(hash);
    let objects = objects_dir(data_dir);
    let level1 = join(objects.as_str(), a);
    let level2 = join(level1.as_str(), b);
    join(level2.as_str(), hash)
}

/// The metadata file of the entry with this hash.
pub fn metadata_path(data_dir: &str, hash: &str) -> (r: String)
    requires
        hash_splittable(hash@),
    ensures
        r@ == join_spec(item_dir_spec(data_dir@, hash@), "metadata.json"@),
{
    let dir = item_dir(data_dir, hash);
    join(dir.as_str(), "metadata.json")
}

/// `objects/<hash[..2]>/<hash[2..4]>/<hash>`, relative to the data directory.
pub open spec fn relative_path_spec(hash: Seq<char>) -> Seq<char> {
    "objects/"@ + byte_range(hash, 0, 2) + "/"@ + byte_range(hash, 2, 4) + "/"@ + hash
}

/// The entry's directory relative to the data directory.
pub fn relative_path_for_hash(hash: &str) -> (r: String)
    requires
        hash_splittable(hash@),
    ensures
        r@ == relative_path_spec(hash@),
{
    let (a, b) = hash_prefixes(hash);
    let s1 = concat("objects/", a);
    let s2 = concat(s1.as_str(), "/");
    let s3 = concat(s2.as_str(), b);
    let s4 = concat(s3.as_str(), "/");
    concat(s4.as_str(), hash)
}

/// A splittable hash is its first two bytes' characters, the next two
/// bytes' characters, then the rest; neither of the two parts is empty.
pub proof fn lemma_hash_parts(hash: Seq<char>)
    requires
        hash_splittable(hash),
    ensures
        hash == byte_range(hash, 0, 2) + byte_range(hash, 2, 4) + byte_range(
            hash,
            4,
            encode_utf8(hash).len() as int,
        ),
        byte_range(hash, 0, 2).len() > 0,
        byte_range(hash, 2, 4).len() > 0,
{
    let b = encode_utf8(hash);
    vstd::utf8::encode_utf8_valid_utf8(hash);
    vstd::utf8::encode_utf8_decode_utf8(hash);
    assert(b.len() >= 4) by {
        if b.len() < 4 {
            assert(!is_char_boundary(b, 4));
        }
    }
    vstd::utf8::valid_utf8_split(b, 4);
    vstd::utf8::decode_utf8_split(b, 4);
    let b4 = b.subrange(0, 4);
    vstd::utf8::is_char_boundary_iff_not_is_continuation_byte(b, 2);
    vstd::utf8::is_char_boundary_iff_not_is_continuation_byte(b4, 2);
    assert(b4[2] == b[2]);
    vstd::utf8::valid_utf8_split(b4, 2);
    vstd::utf8::decode_utf8_split(b4, 2);
    assert(b4.subrange(0, 2) =~= b.subrange(0, 2));
    assert(b4.subrange(2, 4) =~= b.subrange(2, 4));
    assert(b4.subrange(2, b4.len() as int) =~= b.subrange(2, 4));
    let p1 = b.subrange(0, 2);
    let p2 = b.subrange(2, 4);
    assert(decode_utf8(p1).len() > 0) by {
        assert(p1.len() != 0);
    }
    assert(decode_utf8(p2).len() > 0) by {
        assert(p2.len() != 0);
    }
}

/// An ASCII hash of at least four characters is splittable.
pub proof fn lemma_ascii_splittable(hash: Seq<char>)
    requires
        vstd::utf8::is_ascii_chars(hash),
        hash.len() >= 4,
    ensures
        hash_splittable(hash),
{
    let b = encode_utf8(hash);
    vstd::utf8::encode_utf8_valid_utf8(hash);
    vstd::utf8::is_ascii_chars_encode_utf8(hash);
    vstd::utf8::is_ascii_chars_nat_bound(hash);
    assert(hash[2] as u8 == b[2]);
    assert((hash[2] as nat) < 128);
    vstd::utf8::is_char_boundary_iff_not_is_continuation_byte(b, 2);
    if b.len() == 4 {
        vstd::utf8::is_char_boundary_start_end_of_seq(b);
    } else {
        assert(hash[4] as u8 == b[4]);
        assert((hash[4] as nat) < 128);
        vstd::utf8::is_char_boundary_iff_not_is_continuation_byte(b, 4);
    }
}

/// Law: the entry's path relative to the data directory, joined to any
/// data directory, is the entry's directory there, for every splittable
/// hash without a `/` (every ASCII hash of four or more characters
/// without one, by `lemma_ascii_splittable`).
pub proof fn law_relative_path_under_data_dir(data_dir: Seq<char>, hash: Seq<char>)
    requires
        hash_splittable(hash),
        forall|i: int| 0 <= i < hash.len() ==> hash[i] != '/',
    ensures
        join_spec(data_dir, relative_path_spec(hash)) == item_dir_spec(data_dir, hash),
{
    lemma_hash_parts(hash);
    let a = byte_range(hash, 0, 2);
    let b = byte_range(hash, 2, 4);
    let c = byte_range(hash, 4, encode_utf8(hash).len() as int);
    assert(hash == a + (b + c)) by {
        assert(a + b + c =~= a + (b + c));
    }
    assert(hash[0] == a[0]);
    assert(hash[a.len() - 1] == a[a.len() - 1]);
    assert(hash[a.len() as int] == (b + c)[0]);
    assert(hash[a.len() + b.len() - 1] == (b + c)[b.len() - 1]);
    assert(a[0] != '/' && a.last() != '/');
    assert(b[0] != '/' && b.last() != '/');
    assert(hash.len() > 0 && hash[0] != '/');
    reveal_strlit("objects");
    reveal_strlit("objects/");
    reveal_strlit("/");
    let slash = seq!['/'];
    assert("/"@ =~= slash);
    assert("objects/"@ =~= "objects"@ + slash);
    let objects = join_spec(data_dir, "objects"@);
    assert(objects.len() > 0 && objects.last() == 's');
    let l1 = join_spec(objects, a);
    assert(l1 == objects + slash + a);
    let l2 = join_spec(l1, b);
    assert(l2 == l1 + slash + b);
    let l3 = join_spec(l2, hash);
    assert(l3 == l2 + slash + hash);
    let rel = relative_path_spec(hash);
    assert(rel =~= "objects"@ + slash + a + slash + b + slash + hash);
    assert(rel[0] == 'o');
    if data_dir.len() > 0 && data_dir.last() != '/' {
        assert(join_spec(data_dir, rel) =~= l3);
    } else {
        assert(join_spec(data_dir, rel) =~= l3);
    }
}

/// The append-only journal of index changes.
pub fn journal_path(data_dir: &str) -> (r: String)
    ensures
        r@ == join_spec(data_dir@, "journal.jsonl"@),
{
    join(data_dir, "journal.jsonl")
}

/// The compacted snapshot of the index.
pub fn snapshot_path(data_dir: &str) -> (r: String)
    ensures
        r@ == join_spec(data_dir@, "journal.snapshot"@),
{
    join(data_dir, "journal.snapshot")
}

/// The index file of the storage format that predates the journal.
pub fn legacy_index_path(data_dir: &str) -> (r: String)
    ensures
        r@ == join_spec(data_dir@, "index.json"@),
{
    join(data_dir, "index.json")
}

/// The files that make up one stored entry.
pub struct EntryPaths {
    pub base_dir: String,
    pub item_dir: String,
    pub metadata: String,
    pub content: String,
}

/// The paths of the entry with this hash whose content is `content_filename`.
pub fn entry_paths_for_hash(data_dir: &str, hash: &str, content_filename: &str) -> (r: EntryPaths)
    requires
        hash_splittable(hash@),
    ensures
        r.base_dir@ == data_dir@,
        r.item_dir@ == item_dir_spec(data_dir@, hash@),
        r.metadata@ == join_spec(item_dir_spec(data_dir@, hash@), "metadata.json"@),
        r.content@ == join_spec(item_dir_spec(data_dir@, hash@), content_filename@),
{
    let dir = item_dir(data_dir, hash);
    let metadata = join(dir.as_str(), "metadata.json");
    let content = join(dir.as_str(), content_filename);
    EntryPaths { base_dir: data_dir.to_string(), item_dir: dir, metadata, content }
}

/// The file extension stored for a content type.
pub open spec fn extension_spec(content_type: Seq<char>) -> Option<Seq<char>> {
    if content_type == "text/plain"@ {
        Some("txt"@)
    } else if content_type == "text/html"@ {
        Some("html"@)
    } else if content_type == "text/rtf"@ {
        Some("rtf"@)
    } else if content_type == "image/png"@ {
        Some("png"@)
    } else if content_type == "image/jpeg"@ {
        Some("jpg"@)
    } else if content_type == "image/gif"@ {
        Some("gif"@)
    } else if content_type == "image/tiff"@ {
        Some("tiff"@)
    } else {
        None
    }
}

/// The file extension for a content type, if it is one the store knows.
pub fn determine_extension(content_type: &str) -> (r: Option<&'static str>)
    ensures
        r matches Some(e) ==> extension_spec(content_type@) == Some(e@),
        r is None ==> extension_spec(content_type@) is None,
{
    if str_eq(content_type, "text/plain") {
        Some("txt")
    } else if str_eq(content_type, "text/html") {
        Some("html")
    } else if str_eq(content_type, "text/rtf") {
        Some("rtf")
    } else if str_eq(content_type, "image/png") {
        Some("png")
    } else if str_eq(content_type, "image/jpeg") {
        Some("jpg")
    } else if str_eq(content_type, "image/gif") {
        Some("gif")
    } else if str_eq(content_type, "image/tiff") {
        Some("tiff")
    } else {
        None
    }
}

} // verus!
