//! Link previews: the title, description, icon and image that a page's
//! `<title>`, `<meta>` and `<link>` tags give.  Fetching the page and
//! finding its tags are left to the caller.

use vstd::prelude::*;
use crate::model::opt_str;
use crate::text::{owned, str_eq};

verus! {

/// What a link preview shows.
pub struct WebsiteData {
    pub title: String,
    pub description: String,
    pub favicon: String,
    pub og_image: String,
    pub color: Option<String>,
    pub image_alt: Option<String>,
}

/// The tags gathered from a page.  Each table keeps every assignment in
/// order; a lookup gives the last value assigned to the key.
pub struct RawMeta {
    pub title: Option<String>,
    pub description: Option<String>,
    pub theme_color: Option<String>,
    pub og: Vec<(String, String)>,
    pub twitter: Vec<(String, String)>,
    pub links: Vec<(String, String)>,
    pub other: Vec<(String, String)>,
}

impl Default for RawMeta {
    /// Nothing gathered.
    fn default() -> (r: RawMeta)
        ensures
            r.title is None && r.description is None && r.theme_color is None,
            r.og@.len() == 0 && r.twitter@.len() == 0 && r.links@.len() == 0 && r.other@.len() == 0,
    {
        RawMeta {
            title: None,
            description: None,
            theme_color: None,
            og: Vec::new(),
            twitter: Vec::new(),
            links: Vec::new(),
            other: Vec::new(),
        }
    }
}

/// The value last assigned to `key`.
pub open spec fn lookup(t: Seq<(String, String)>, key: Seq<char>) -> Option<Seq<char>>
    decreases t.len(),
{
    if t.len() == 0 {
        None
    } else if t.last().0@ == key {
        Some(t.last().1@)
    } else {
        lookup(t.drop_last(), key)
    }
}

/// The value last assigned to `key`.
pub fn lookup_in(t: &Vec<(String, String)>, key: &str) -> (r: Option<String>)
    ensures
        opt_str(r) == lookup(t@, key@),
{
    let mut i: usize = t.len();
    assert(t@.take(i as int) =~= t@);
    while i > 0
        invariant
            i <= t.len(),
            lookup(t@, key@) == lookup(t@.take(i as int), key@),
        decreases i,
    {
        assert(t@.take(i as int).drop_last() =~= t@.take(i - 1));
        assert(t@.take(i as int).last() == t@[i - 1]);
        if str_eq(t[i - 1].0.as_str(), key) {
            return Some(t[i - 1].1.clone());
        }
        i = i - 1;
    }
    None
}

/// Where a `<meta>` tag goes: an `og:` or `twitter:` property under its
/// suffix, another prefixed property and unknown names under their whole
/// name, and `description` and `theme-color` in their own places.
pub fn add_meta(meta: &mut RawMeta, prop: &str, content: &str)
    ensures
        ({
            let p = prop@;
            let c = content@;
            match p.index_of_first(':') {
                Some(i) => {
                    let prefix = p.take(i);
                    let suffix = p.skip(i + 1);
                    if prefix == "og"@ {
                        final(meta).og@.len() == old(meta).og@.len() + 1 && final(meta).og@.last().0@ == suffix
                            && final(meta).og@.last().1@ == c
                    } else if prefix == "twitter"@ {
                        final(meta).twitter@.len() == old(meta).twitter@.len() + 1
                            && final(meta).twitter@.last().0@ == suffix && final(meta).twitter@.last().1@ == c
                    } else {
                        final(meta).other@.len() == old(meta).other@.len() + 1 && final(meta).other@.last().0@ == p
                            && final(meta).other@.last().1@ == c
                    }
                },
                None => if p == "description"@ {
                    opt_str(final(meta).description) == Some(c)
                } else if p == "theme-color"@ {
                    opt_str(final(meta).theme_color) == Some(c)
                } else {
                    final(meta).other@.len() == old(meta).other@.len() + 1 && final(meta).other@.last().0@ == p
                        && final(meta).other@.last().1@ == c
                },
            }
        }),
{
    let cs = crate::text::chars_of(prop);
    let mut i: usize = 0;
    while i < cs.len() && cs[i] != ':'
        invariant
            i <= cs.len(),
            cs@ == prop@,
            forall|j: int| 0 <= j < i ==> cs@[j] != ':',
        decreases cs.len() - i,
    {
        i = i + 1;
    }
    if i < cs.len() {
        assert(prop@.index_of_first(':') == Some(i as int)) by {
            prop@.index_of_first_ensures(':');
        }
        let prefix = crate::text::string_from_chars(&cs[0..i]);
        let suffix = crate::text::string_from_chars(&cs[i + 1..cs.len()]);
        assert(cs@.subrange(0, i as int) =~= prop@.take(i as int));
        assert(cs@.subrange(i + 1, cs.len() as int) =~= prop@.skip(i + 1));
        if str_eq(prefix.as_str(), "og") {
            meta.og.push((suffix, owned(content)));
        } else if str_eq(prefix.as_str(), "twitter") {
            meta.twitter.push((suffix, owned(content)));
        } else {
            meta.other.push((owned(prop), owned(content)));
        }
    } else {
        assert(prop@.index_of_first(':') is None) by {
            prop@.index_of_first_ensures(':');
            if prop@.contains(':') {
                let k = choose|k: int| 0 <= k < prop@.len() && prop@[k] == ':';
                assert(cs@[k] != ':');
            }
        }
        if str_eq(prop, "description") {
            meta.description = Some(owned(content));
        } else if str_eq(prop, "theme-color") {
            meta.theme_color = Some(owned(content));
        } else {
            meta.other.push((owned(prop), owned(content)));
        }
    }
}

/// The first of the keys that the table has a value for.
pub open spec fn first_of(t: Seq<(String, String)>, keys: Seq<Seq<char>>) -> Option<Seq<char>>
    decreases keys.len(),
{
    if keys.len() == 0 {
        None
    } else {
        match lookup(t, keys[0]) {
            Some(v) => Some(v),
            None => first_of(t, keys.drop_first()),
        }
    }
}

/// The preview that the gathered tags give, with fixed texts for what is
/// missing.
pub open spec fn parse_meta_spec(m: RawMeta) -> (Seq<char>, Seq<char>, Seq<char>, Seq<char>) {
    let image = match lookup(m.og@, "image"@) {
        Some(v) => v,
        None => match lookup(m.twitter@, "image:src"@) {
            Some(v) => v,
            None => match lookup(m.twitter@, "image"@) {
                Some(v) => v,
                None => match lookup(m.other@, "image"@) {
                    Some(v) => v,
                    None => Seq::empty(),
                },
            },
        },
    };
    let title = match opt_str(m.title) {
        Some(t) => t,
        None => match lookup(m.twitter@, "title"@) {
            Some(v) => v,
            None => match lookup(m.og@, "title"@) {
                Some(v) => v,
                None => match lookup(m.og@, "site_name"@) {
                    Some(v) => v,
                    None => "Title not found"@,
                },
            },
        },
    };
    let description = match opt_str(m.description) {
        Some(d) => d,
        None => match lookup(m.og@, "description"@) {
            Some(v) => v,
            None => match lookup(m.twitter@, "description"@) {
                Some(v) => v,
                None => "Description not found"@,
            },
        },
    };
    let favicon = match first_of(
        m.links@,
        seq![
            "icon"@,
            "favicon"@,
            "alternate icon"@,
            "shortcut icon"@,
            "apple-touch-icon"@,
            "fluid-icon"@,
        ],
    ) {
        Some(v) => v,
        None => "Favicon not found"@,
    };
    (title, description, favicon, image)
}

fn or_lookup(found: Option<String>, t: &Vec<(String, String)>, key: &str) -> (r: Option<String>)
    ensures
        opt_str(r) == (match opt_str(found) {
            Some(v) => Some(v),
            None => lookup(t@, key@),
        }),
{
    match found {
        Some(v) => Some(v),
        None => lookup_in(t, key),
    }
}

/// The preview that the gathered tags give.
pub fn parse_meta(meta: RawMeta) -> (r: WebsiteData)
    ensures
        (r.title@, r.description@, r.favicon@, r.og_image@) == parse_meta_spec(meta),
        opt_str(r.image_alt) == lookup(meta.og@, "image:alt"@),
        r.color == meta.theme_color,
{
    let ghost m = meta;
    let image = lookup_in(&meta.og, "image");
    let image = or_lookup(image, &meta.twitter, "image:src");
    let image = or_lookup(image, &meta.twitter, "image");
    let image = or_lookup(image, &meta.other, "image");
    let image = match image {
        Some(v) => v,
        None => String::new(),
    };
    let title = or_lookup(meta.title, &meta.twitter, "title");
    let title = or_lookup(title, &meta.og, "title");
    let title = or_lookup(title, &meta.og, "site_name");
    let title = match title {
        Some(t) => t,
        None => "Title not found".to_string(),
    };
    let description = or_lookup(meta.description, &meta.og, "description");
    let description = or_lookup(description, &meta.twitter, "description");
    let description = match description {
        Some(d) => d,
        None => "Description not found".to_string(),
    };
    let image_alt = lookup_in(&meta.og, "image:alt");
    let favicon = lookup_in(&meta.links, "icon");
    let favicon = or_lookup(favicon, &meta.links, "favicon");
    let favicon = or_lookup(favicon, &meta.links, "alternate icon");
    let favicon = or_lookup(favicon, &meta.links, "shortcut icon");
    let favicon = or_lookup(favicon, &meta.links, "apple-touch-icon");
    let favicon = or_lookup(favicon, &meta.links, "fluid-icon");
    proof {
        let keys = seq![
            "icon"@,
            "favicon"@,
            "alternate icon"@,
            "shortcut icon"@,
            "apple-touch-icon"@,
            "fluid-icon"@,
        ];
        reveal_with_fuel(first_of, 7);
        assert(keys.drop_first() =~= seq!["favicon"@, "alternate icon"@, "shortcut icon"@, "apple-touch-icon"@, "fluid-icon"@]);
        assert(keys.drop_first().drop_first() =~= seq!["alternate icon"@, "shortcut icon"@, "apple-touch-icon"@, "fluid-icon"@]);
        assert(keys.drop_first().drop_first().drop_first() =~= seq!["shortcut icon"@, "apple-touch-icon"@, "fluid-icon"@]);
        assert(keys.drop_first().drop_first().drop_first().drop_first() =~= seq!["apple-touch-icon"@, "fluid-icon"@]);
        assert(keys.drop_first().drop_first().drop_first().drop_first().drop_first() =~= seq!["fluid-icon"@]);
        assert(keys.drop_first().drop_first().drop_first().drop_first().drop_first().drop_first() =~= Seq::<Seq<char>>::empty());
    }
    let favicon = match favicon {
        Some(f) => f,
        None => "Favicon not found".to_string(),
    };
    WebsiteData { title, description, favicon, og_image: image, color: meta.theme_color, image_alt }
}

/// What `Url::join` makes of a link's `href` against the page's address,
/// when it can.
pub uninterp spec fn joined_url(base: Seq<char>, href: Seq<char>) -> Option<Seq<char>>;

/// `Url::parse(base)` then `join(href)`, as text; named `joined_url`.
#[verifier::external_body]
fn join_url(base: &str, href: &str) -> (r: Option<String>)
    ensures
        opt_str(r) == joined_url(base@, href@),
{
    url::Url::parse(base).ok()?.join(href).ok().map(|u| u.to_string())
}

/// Records a `<link>` tag: its `href` resolved against the page's address
/// (kept as written when it cannot be), under its `rel`.
pub fn add_link(meta: &mut RawMeta, base_url: &str, rel: &str, href: &str)
    ensures
        final(meta).links@.len() == old(meta).links@.len() + 1,
        final(meta).links@.drop_last() == old(meta).links@,
        final(meta).links@.last().0@ == rel@,
        final(meta).links@.last().1@ == (match joined_url(base_url@, href@) {
            Some(u) => u,
            None => href@,
        }),
        final(meta).og == old(meta).og,
        final(meta).twitter == old(meta).twitter,
        final(meta).other == old(meta).other,
        final(meta).title == old(meta).title,
        final(meta).description == old(meta).description,
        final(meta).theme_color == old(meta).theme_color,
{
    let resolved = match join_url(base_url, href) {
        Some(u) => u,
        None => owned(href),
    };
    meta.links.push((owned(rel), resolved));
}

} // verus!
