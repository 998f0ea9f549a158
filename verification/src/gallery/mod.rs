//! Gallery resolution: locating the embedded JSON payload in a gallery
//! page, repairing and decoding it, and building gallery and page-image
//! URLs. Fetching the page itself is the caller's work; everything from the
//! fetched text to the metadata record is verified here.

pub mod format;

use vstd::prelude::*;
use vstd::string::StringExecFns;
use crate::escape::{spec_repair, repair_chars};
use crate::json::{json_of, parse_json};
use crate::markup::{script_texts_of, body_script_texts};
use crate::strutil::{
    str_chars, chars_to_string, copy_range, trim_ws_vec, spec_trim_ws, spec_dec, u64_to_dec,
};
use crate::gallery::format::{
    Gallery, GalleryView, DecodeError, ImageType, spec_decode_gallery, spec_extension,
};

verus! {

/// Why resolving a gallery page failed.
#[derive(Debug, Clone, Copy, PartialEq, Eq, Structural)]
pub enum GalleryError {
    /// No script on the page carries the gallery payload.
    JsonNotFound,
    /// The extracted payload is not well-formed JSON.
    JsonInvalid,
    /// The payload decoded, but not into a metadata record.
    Decode(DecodeError),
}

/// The fixed literal that opens the script line wrapping the JSON payload.
pub open spec fn spec_gallery_prefix() -> Seq<char> {
    "window._gallery = JSON.parse(\""@
}

/// Whether `p` is a prefix of `s`.
pub open spec fn spec_starts_with(s: Seq<char>, p: Seq<char>) -> bool {
    p.len() <= s.len() && s.take(p.len() as int) == p
}

fn starts_with_chars(s: &Vec<char>, p: &Vec<char>) -> (r: bool)
    ensures
        r == spec_starts_with(s@, p@),
{
    if p.len() > s.len() {
        return false;
    }
    let mut i: usize = 0;
    while i < p.len()
        invariant
            i <= p@.len() <= s@.len(),
            forall|j: int| 0 <= j < i ==> s@[j] == p@[j],
        decreases p@.len() - i,
    {
        if s[i] != p[i] {
            proof {
                assert(s@.take(p@.len() as int)[i as int] != p@[i as int]);
            }
            return false;
        }
        i = i + 1;
    }
    proof {
        assert(s@.take(p@.len() as int) =~= p@);
    }
    true
}

/// The number of consecutive backslashes immediately before position `i`.
pub open spec fn spec_backslash_run(s: Seq<char>, i: int) -> nat
    recommends
        0 <= i <= s.len(),
    decreases i,
{
    if i <= 0 || s[i - 1] != '\\' {
        0
    } else {
        spec_backslash_run(s, i - 1) + 1
    }
}

/// The first position at or after `i` holding a quote that is not escaped,
/// i.e. one preceded by an even run of backslashes.
pub open spec fn spec_find_quote_from(s: Seq<char>, i: int) -> Option<int>
    recommends
        0 <= i <= s.len(),
    decreases s.len() - i,
{
    if i >= s.len() {
        None
    } else if s[i] == '"' && spec_backslash_run(s, i) % 2 == 0 {
        Some(i)
    } else {
        spec_find_quote_from(s, i + 1)
    }
}

fn find_unescaped_quote(s: &Vec<char>) -> (r: Option<usize>)
    ensures
        match r {
            Some(q) => spec_find_quote_from(s@, 0) == Some(q as int) && q < s@.len(),
            None => spec_find_quote_from(s@, 0) is None,
        },
{
    let mut i: usize = 0;
    let mut run: usize = 0;
    while i < s.len()
        invariant
            i <= s@.len(),
            run <= i,
            run == spec_backslash_run(s@, i as int),
            spec_find_quote_from(s@, 0) == spec_find_quote_from(s@, i as int),
        decreases s@.len() - i,
    {
        let c = s[i];
        if c == '"' && run % 2 == 0 {
            return Some(i);
        }
        if c == '\\' {
            run = run + 1;
        } else {
            run = 0;
        }
        i = i + 1;
    }
    None
}

/// The payload one script carries: its content trimmed of whitespace must
/// begin with the fixed prefix, and the payload runs from there to the
/// first unescaped quote; a script without both yields nothing.
pub open spec fn spec_payload_of_script(s: Seq<char>) -> Option<Seq<char>> {
    let t = spec_trim_ws(s);
    let p = spec_gallery_prefix();
    if !spec_starts_with(t, p) {
        None
    } else {
        let rest = t.skip(p.len() as int);
        match spec_find_quote_from(rest, 0) {
            Some(q) => Some(rest.take(q)),
            None => None,
        }
    }
}

fn script_payload(s: &String) -> (r: Option<Vec<char>>)
    ensures
        match r {
            Some(p) => spec_payload_of_script(s@) == Some(p@),
            None => spec_payload_of_script(s@) is None,
        },
{
    let chars = str_chars(s.as_str());
    let trimmed = trim_ws_vec(&chars);
    let prefix = str_chars("window._gallery = JSON.parse(\"");
    if !starts_with_chars(&trimmed, &prefix) {
        return None;
    }
    let rest = copy_range(&trimmed, prefix.len(), trimmed.len());
    proof {
        assert(rest@ =~= trimmed@.skip(prefix@.len() as int));
    }
    match find_unescaped_quote(&rest) {
        Some(q) => {
            let payload = copy_range(&rest, 0, q);
            proof {
                assert(payload@ =~= rest@.take(q as int));
            }
            Some(payload)
        },
        None => None,
    }
}

/// The payload of the first script that carries one.
pub open spec fn spec_payload_of_scripts(scripts: Seq<Seq<char>>) -> Option<Seq<char>>
    decreases scripts.len(),
{
    if scripts.len() == 0 {
        None
    } else {
        match spec_payload_of_script(scripts[0]) {
            Some(p) => Some(p),
            None => spec_payload_of_scripts(scripts.drop_first()),
        }
    }
}

proof fn lemma_payload_skip(scripts: Seq<Seq<char>>, i: int)
    requires
        0 <= i <= scripts.len(),
        forall|j: int| 0 <= j < i ==> spec_payload_of_script(#[trigger] scripts[j]) is None,
    ensures
        spec_payload_of_scripts(scripts) == spec_payload_of_scripts(scripts.skip(i)),
    decreases i,
{
    if i > 0 {
        assert(spec_payload_of_script(scripts[0]) is None);
        lemma_payload_skip(scripts.drop_first(), i - 1);
        assert(scripts.drop_first().skip(i - 1) =~= scripts.skip(i));
    } else {
        assert(scripts.skip(0) =~= scripts);
    }
}

fn extract_payload(scripts: &Vec<String>) -> (r: Option<Vec<char>>)
    ensures
        match r {
            Some(p) => spec_payload_of_scripts(scripts.deep_view()) == Some(p@),
            None => spec_payload_of_scripts(scripts.deep_view()) is None,
        },
{
    let ghost sv = scripts.deep_view();
    let mut i: usize = 0;
    while i < scripts.len()
        invariant
            i <= scripts@.len(),
            sv == scripts.deep_view(),
            sv.len() == scripts@.len(),
            forall|j: int| 0 <= j < sv.len() ==> #[trigger] sv[j] == scripts@[j]@,
            forall|j: int| 0 <= j < i ==> spec_payload_of_script(#[trigger] sv[j]) is None,
        decreases scripts@.len() - i,
    {
        match script_payload(&scripts[i]) {
            Some(p) => {
                proof {
                    lemma_payload_skip(sv, i as int);
                    assert(sv.skip(i as int)[0] == sv[i as int]);
                }
                return Some(p);
            },
            None => {
                i = i + 1;
            },
        }
    }
    proof {
        lemma_payload_skip(sv, i as int);
    }
    None
}

/// What resolving a fetched gallery page yields: the payload of the first
/// carrying script, escape-repaired, parsed as JSON and decoded by the
/// whole-document rule; each stage's failure is its own error.
pub open spec fn spec_gallery_from_page(h: Seq<char>) -> Result<GalleryView, GalleryError> {
    match spec_payload_of_scripts(script_texts_of(h)) {
        None => Err(GalleryError::JsonNotFound),
        Some(raw) => match json_of(spec_repair(raw)) {
            None => Err(GalleryError::JsonInvalid),
            Some(v) => match spec_decode_gallery(v) {
                Ok(g) => Ok(g),
                Err(e) => Err(GalleryError::Decode(e)),
            },
        },
    }
}

impl Gallery {
    /// Resolves a fetched gallery page into its metadata record: locates
    /// the embedded payload, repairs its escapes, parses and decodes it.
    pub fn from_page(html: &str) -> (r: Result<Gallery, GalleryError>)
        ensures
            match r {
                Ok(g) => spec_gallery_from_page(html@) == Ok::<GalleryView, GalleryError>(g@),
                Err(e) => spec_gallery_from_page(html@) == Err::<GalleryView, GalleryError>(e),
            },
    {
        let scripts = body_script_texts(html);
        let raw = match extract_payload(&scripts) {
            Some(raw) => raw,
            None => {
                return Err(GalleryError::JsonNotFound);
            },
        };
        let repaired = repair_chars(&raw);
        let text = chars_to_string(&repaired);
        let v = match parse_json(text.as_str()) {
            Some(v) => v,
            None => {
                return Err(GalleryError::JsonInvalid);
            },
        };
        match Gallery::from_json(&v) {
            Ok(g) => Ok(g),
            Err(e) => Err(GalleryError::Decode(e)),
        }
    }

    /// The URL of the page image `index` (1-based) on CDN server `server`.
    pub fn page_url(&self, index: usize, server: u32) -> (r: String)
        requires
            1 <= server <= 4,
            1 <= index <= self@.images.pages.len(),
        ensures
            r@ == spec_page_url(self@, index as int, server),
    {
        let mut s = String::from_str("https://i");
        let sd = u64_to_dec(server as u64);
        s.append(sd.as_str());
        s.append(".nhentai.net/galleries/");
        s.append(self.media_id.as_str());
        s.append("/");
        let fname = page_filename(index, self.images.pages[index - 1]);
        s.append(fname.as_str());
        proof {
            assert(s@ =~= spec_page_url(self@, index as int, server));
        }
        s
    }
}

/// The URL of the page that presents gallery `id`.
pub open spec fn spec_gallery_url(id: u32) -> Seq<char> {
    "https://nhentai.net/g/"@ + spec_dec(id as nat)
}

/// The URL of the page that presents gallery `id`.
pub fn gallery_url(id: u32) -> (r: String)
    ensures
        r@ == spec_gallery_url(id),
{
    let mut s = String::from_str("https://nhentai.net/g/");
    let d = u64_to_dec(id as u64);
    s.append(d.as_str());
    s
}

/// The file name a page image is stored under: its 1-based index and the
/// extension of its format.
pub open spec fn spec_page_filename(index: int, t: ImageType) -> Seq<char> {
    spec_dec(index as nat) + "."@ + spec_extension(t)
}

/// The URL of one page image: the CDN server, the media id, and the page's
/// file name.
pub open spec fn spec_page_url(g: GalleryView, index: int, server: u32) -> Seq<char> {
    "https://i"@ + spec_dec(server as nat) + ".nhentai.net/galleries/"@ + g.media_id + "/"@
        + spec_page_filename(index, g.images.pages[index - 1])
}

/// The file name a page image is stored under.
pub fn page_filename(index: usize, t: ImageType) -> (r: String)
    ensures
        r@ == spec_page_filename(index as int, t),
{
    let mut s = u64_to_dec(index as u64);
    s.append(".");
    s.append(t.extension());
    proof {
        assert(s@ =~= spec_page_filename(index as int, t));
    }
    s
}

} // verus!
