//! Clipboard items as the desktop application exchanges them, and the
//! content hash that identifies equal content however and whenever it was
//! copied.

use vstd::prelude::*;
use vstd::utf8::encode_utf8;
use crate::digest::{base64_decode, base64_standard_decoded, hex_encode, hex_lower, sha256, sha256_of};
use crate::model::{opt_str, strs};
use crate::strsort::{sort_strings, sorted_strs};
use crate::text::{str_eq, str_starts_with, starts_with_seq};

verus! {

/// The formats of one clipboard item.  `custom_formats` holds other formats
/// by name, each name once.
pub struct ClipboardFormats {
    pub txt: Option<String>,
    pub html: Option<String>,
    pub rtf: Option<String>,
    /// A `data:image/png;base64,` URI of the full image.
    pub image_data: Option<String>,
    /// A `data:image/png;base64,` URI of a small preview.
    pub image_preview: Option<String>,
    pub files: Option<Vec<String>>,
    pub custom_formats: Option<Vec<(String, String)>>,
}

impl Default for ClipboardFormats {
    fn default() -> (r: Self)
        ensures
            r.txt is None && r.html is None && r.rtf is None && r.image_data is None
                && r.image_preview is None && r.files is None && r.custom_formats is None,
    {
        ClipboardFormats {
            txt: None,
            html: None,
            rtf: None,
            image_data: None,
            image_preview: None,
            files: None,
            custom_formats: None,
        }
    }
}

/// A clipboard item of the desktop application.
pub struct ClipboardItem {
    pub id: u64,
    pub text: Option<String>,
    pub timestamp: u64,
    pub first_copied: u64,
    pub copies: u64,
    pub byte_size: u64,
    pub content_hash: String,
    pub formats: ClipboardFormats,
}

/// The event sent when the clipboard changes.
pub struct ClipboardChangeEvent {
    pub item: ClipboardItem,
}

/// A clipboard item as stored by the desktop application's database.
pub struct DatabaseItem {
    pub id: u64,
    pub text: Option<String>,
    pub timestamp: u64,
    pub first_copied: u64,
    pub copies: u64,
    pub byte_size: u64,
    pub content_hash: String,
    pub formats: ClipboardFormats,
}

/// The outcome of saving an item.
pub struct SaveResult {
    pub success: bool,
    pub id: Option<u64>,
    pub error: Option<String>,
}

impl From<ClipboardItem> for DatabaseItem {
    fn from(item: ClipboardItem) -> (r: Self) {
        DatabaseItem {
            id: item.id,
            text: item.text,
            timestamp: item.timestamp,
            first_copied: item.first_copied,
            copies: item.copies,
            byte_size: item.byte_size,
            content_hash: item.content_hash,
            formats: item.formats,
        }
    }
}

impl vstd::std_specs::convert::FromSpecImpl<ClipboardItem> for DatabaseItem {
    open spec fn obeys_from_spec() -> bool {
        true
    }

    open spec fn from_spec(item: ClipboardItem) -> Self {
        DatabaseItem {
            id: item.id,
            text: item.text,
            timestamp: item.timestamp,
            first_copied: item.first_copied,
            copies: item.copies,
            byte_size: item.byte_size,
            content_hash: item.content_hash,
            formats: item.formats,
        }
    }
}

impl From<DatabaseItem> for ClipboardItem {
    fn from(item: DatabaseItem) -> (r: Self) {
        ClipboardItem {
            id: item.id,
            text: item.text,
            timestamp: item.timestamp,
            first_copied: item.first_copied,
            copies: item.copies,
            byte_size: item.byte_size,
            content_hash: item.content_hash,
            formats: item.formats,
        }
    }
}

impl vstd::std_specs::convert::FromSpecImpl<DatabaseItem> for ClipboardItem {
    open spec fn obeys_from_spec() -> bool {
        true
    }

    open spec fn from_spec(item: DatabaseItem) -> Self {
        ClipboardItem {
            id: item.id,
            text: item.text,
            timestamp: item.timestamp,
            first_copied: item.first_copied,
            copies: item.copies,
            byte_size: item.byte_size,
            content_hash: item.content_hash,
            formats: item.formats,
        }
    }
}

/// The UTF-8 bytes of an optional string; none for `None`.
pub open spec fn opt_bytes(o: Option<Seq<char>>) -> Seq<u8> {
    match o {
        Some(s) => encode_utf8(s),
        None => Seq::empty(),
    }
}

/// The bytes that stand for the image: the decoded PNG of a
/// `data:image/png;base64,` URI, else the URI's own bytes.
pub open spec fn image_bytes(uri: Seq<char>) -> Seq<u8> {
    let prefix = "data:image/png;base64,"@;
    if starts_with_seq(uri, prefix) {
        match base64_standard_decoded(uri.skip(prefix.len() as int)) {
            Some(b) => b,
            None => encode_utf8(uri),
        }
    } else {
        encode_utf8(uri)
    }
}

/// The bytes of a list of strings, one after the other.
pub open spec fn joined_bytes(s: Seq<Seq<char>>) -> Seq<u8>
    decreases s.len(),
{
    if s.len() == 0 {
        Seq::empty()
    } else {
        joined_bytes(s.drop_last()) + encode_utf8(s.last())
    }
}

/// The value of the first pair named `k`.
pub open spec fn pair_value(pairs: Seq<(Seq<char>, Seq<char>)>, k: Seq<char>) -> Option<Seq<char>>
    decreases pairs.len(),
{
    if pairs.len() == 0 {
        None
    } else if pairs[0].0 == k {
        Some(pairs[0].1)
    } else {
        pair_value(pairs.drop_first(), k)
    }
}

/// For each key in order, its bytes followed by its value's bytes (keys
/// without a value are skipped).
pub open spec fn keyed_bytes(keys: Seq<Seq<char>>, pairs: Seq<(Seq<char>, Seq<char>)>) -> Seq<u8>
    decreases keys.len(),
{
    if keys.len() == 0 {
        Seq::empty()
    } else {
        let rest = keyed_bytes(keys.drop_last(), pairs);
        match pair_value(pairs, keys.last()) {
            Some(v) => rest + encode_utf8(keys.last()) + encode_utf8(v),
            None => rest,
        }
    }
}

/// The views of name/value pairs.
pub open spec fn pair_views(p: Seq<(String, String)>) -> Seq<(Seq<char>, Seq<char>)> {
    Seq::new(p.len(), |i: int| (p[i].0@, p[i].1@))
}

/// The names of name/value pairs.
pub open spec fn pair_keys(p: Seq<(String, String)>) -> Seq<Seq<char>> {
    Seq::new(p.len(), |i: int| p[i].0@)
}

/// The bytes that the content hash digests: text, HTML, RTF, the image, the
/// file paths in sorted order, then each custom format's name and value in
/// name order.
pub open spec fn content_bytes(f: ClipboardFormats) -> Seq<u8> {
    let image = match f.image_data {
        Some(u) => image_bytes(u@),
        None => Seq::empty(),
    };
    let files = match f.files {
        Some(v) => joined_bytes(sorted_strs(strs(v@))),
        None => Seq::empty(),
    };
    let custom = match f.custom_formats {
        Some(p) => keyed_bytes(sorted_strs(pair_keys(p@)), pair_views(p@)),
        None => Seq::empty(),
    };
    opt_bytes(opt_str(f.txt)) + opt_bytes(opt_str(f.html)) + opt_bytes(opt_str(f.rtf)) + image
        + files + custom
}

/// Appends the bytes `b` to `v`.
pub fn append_bytes(v: &mut Vec<u8>, b: &[u8])
    ensures
        final(v)@ == old(v)@ + b@,
{
    let mut i: usize = 0;
    while i < b.len()
        invariant
            i <= b.len(),
            v@ == old(v)@ + b@.take(i as int),
        decreases b.len() - i,
    {
        v.push(b[i]);
        i = i + 1;
        assert(v@ =~= old(v)@ + b@.take(i as int));
    }
    assert(b@.take(b.len() as int) =~= b@);
}

/// The value of the first pair named `key`.
fn lookup_pair<'a>(pairs: &'a Vec<(String, String)>, key: &str) -> (r: Option<&'a String>)
    ensures
        r matches Some(v) ==> pair_value(pair_views(pairs@), key@) == Some(v@),
        r is None ==> pair_value(pair_views(pairs@), key@) is None,
{
    let ghost pv = pair_views(pairs@);
    let mut i: usize = 0;
    assert(pv.skip(0) =~= pv);
    while i < pairs.len()
        invariant
            i <= pairs.len(),
            pv == pair_views(pairs@),
            pair_value(pv, key@) == pair_value(pv.skip(i as int), key@),
        decreases pairs.len() - i,
    {
        assert(pv.skip(i as int)[0] == (pairs@[i as int].0@, pairs@[i as int].1@));
        assert(pv.skip(i as int).drop_first() =~= pv.skip(i + 1));
        if str_eq(pairs[i].0.as_str(), key) {
            return Some(&pairs[i].1);
        }
        i = i + 1;
    }
    None
}

/// The names of the pairs.
fn keys_of_pairs(pairs: &Vec<(String, String)>) -> (r: Vec<String>)
    ensures
        strs(r@) == pair_keys(pairs@),
{
    let mut r: Vec<String> = Vec::new();
    let mut i: usize = 0;
    while i < pairs.len()
        invariant
            i <= pairs.len(),
            r@.len() == i,
            forall|j: int| 0 <= j < i ==> #[trigger] r@[j]@ == pairs@[j].0@,
        decreases pairs.len() - i,
    {
        r.push(pairs[i].0.clone());
        i = i + 1;
    }
    assert(strs(r@) =~= pair_keys(pairs@));
    r
}

/// The bytes that the content hash digests.
pub fn content_bytes_of(formats: &ClipboardFormats) -> (r: Vec<u8>)
    ensures
        r@ == content_bytes(*formats),
{
    let mut buf: Vec<u8> = Vec::new();
    if let Some(txt) = &formats.txt {
        append_bytes(&mut buf, txt.as_str().as_bytes());
    }
    if let Some(html) = &formats.html {
        append_bytes(&mut buf, html.as_str().as_bytes());
    }
    if let Some(rtf) = &formats.rtf {
        append_bytes(&mut buf, rtf.as_str().as_bytes());
    }
    let ghost after_text = buf@;
    if let Some(image_data) = &formats.image_data {
        let prefix = "data:image/png;base64,";
        if str_starts_with(image_data.as_str(), prefix) {
            let cs = crate::text::chars_of(image_data.as_str());
            proof {
                reveal_strlit("data:image/png;base64,");
            }
            let rest = crate::text::string_from_chars(&cs[22..cs.len()]);
            assert(rest@ == image_data@.skip(22));
            match base64_decode(rest.as_str()) {
                Some(bytes) => append_bytes(&mut buf, bytes.as_slice()),
                None => append_bytes(&mut buf, image_data.as_str().as_bytes()),
            }
        } else {
            append_bytes(&mut buf, image_data.as_str().as_bytes());
        }
    }
    let ghost after_image = buf@;
    if let Some(files) = &formats.files {
        let sorted = sort_strings(files);
        let ghost ss = strs(sorted@);
        let mut i: usize = 0;
        while i < sorted.len()
            invariant
                i <= sorted.len(),
                ss == strs(sorted@),
                buf@ == after_image + joined_bytes(ss.take(i as int)),
            decreases sorted.len() - i,
        {
            assert(ss.take(i + 1).drop_last() =~= ss.take(i as int));
            append_bytes(&mut buf, sorted[i].as_str().as_bytes());
            i = i + 1;
            assert(buf@ =~= after_image + joined_bytes(ss.take(i as int)));
        }
        assert(ss.take(sorted.len() as int) =~= ss);
    }
    let ghost after_files = buf@;
    if let Some(custom) = &formats.custom_formats {
        let keys = keys_of_pairs(custom);
        let sorted = sort_strings(&keys);
        let ghost ks = strs(sorted@);
        let mut i: usize = 0;
        while i < sorted.len()
            invariant
                i <= sorted.len(),
                ks == strs(sorted@),
                buf@ == after_files + keyed_bytes(ks.take(i as int), pair_views(custom@)),
            decreases sorted.len() - i,
        {
            assert(ks.take(i + 1).drop_last() =~= ks.take(i as int));
            match lookup_pair(custom, sorted[i].as_str()) {
                Some(value) => {
                    append_bytes(&mut buf, sorted[i].as_str().as_bytes());
                    append_bytes(&mut buf, value.as_str().as_bytes());
                },
                None => {},
            }
            i = i + 1;
            assert(buf@ =~= after_files + keyed_bytes(ks.take(i as int), pair_views(custom@)));
        }
        assert(ks.take(sorted.len() as int) =~= ks);
    }
    buf
}

/// The hex SHA-256 digest of an item's content, the same for identical
/// content wherever and whenever it was copied.
pub fn hash_content(formats: &ClipboardFormats) -> (r: Result<String, String>)
    ensures
        r matches Ok(h) && h@ == hex_lower(sha256_of(content_bytes(*formats))),
        r matches Ok(h) && h@.len() == 64,
{
    let bytes = content_bytes_of(formats);
    let digest = sha256(bytes.as_slice());
    Ok(hex_encode(digest.as_slice()))
}

/// Items that differ only in the order of their files have the same
/// content, and so the same hash: the file paths are sorted before they
/// are digested.
pub proof fn law_hash_ignores_file_order(f1: ClipboardFormats, f2: ClipboardFormats)
    requires
        opt_str(f1.txt) == opt_str(f2.txt),
        opt_str(f1.html) == opt_str(f2.html),
        opt_str(f1.rtf) == opt_str(f2.rtf),
        opt_str(f1.image_data) == opt_str(f2.image_data),
        match (f1.files, f2.files) {
            (Some(a), Some(b)) => strs(a@).to_multiset() == strs(b@).to_multiset(),
            (None, None) => true,
            _ => false,
        },
        match (f1.custom_formats, f2.custom_formats) {
            (Some(p), Some(q)) => pair_views(p@) == pair_views(q@) && pair_keys(p@) == pair_keys(q@),
            (None, None) => true,
            _ => false,
        },
    ensures
        content_bytes(f1) == content_bytes(f2),
        hex_lower(sha256_of(content_bytes(f1))) == hex_lower(sha256_of(content_bytes(f2))),
{
    match (f1.files, f2.files) {
        (Some(a), Some(b)) => {
            crate::strsort::law_sort_ignores_order(strs(a@), strs(b@));
        },
        _ => {},
    }
    assert(match f1.image_data {
        Some(u) => image_bytes(u@),
        None => Seq::<u8>::empty(),
    } == match f2.image_data {
        Some(u) => image_bytes(u@),
        None => Seq::<u8>::empty(),
    });
}

} // verus!
