//! The media cache: where a fetched image is kept, and whether a fetch has
//! to go to the network at all.

use vstd::prelude::*;
use crate::text::str_eq;

verus! {

/// What `md5::compute` gives for the UTF-8 bytes of `s`, as 32 lower-case
/// hex digits.
pub uninterp spec fn md5_hex_of(s: Seq<char>) -> Seq<char>;

/// Whether `s` parses as a media type.
pub uninterp spec fn mime_parses(s: Seq<char>) -> bool;

/// Relies on `md5::compute` over the text's bytes and the digest's
/// `LowerHex` form: two lower-case hex digits for each of its 16 bytes.
#[verifier::external_body]
fn md5_hex(s: &str) -> (r: String)
    ensures
        r@ == md5_hex_of(s@),
        r@.len() == 32,
{
    format!("{:x}", md5::compute(s.as_bytes()))
}

/// The file extensions that `mime_guess` knows for media type `s`, when
/// it parses.
pub uninterp spec fn mime_exts_of(s: Seq<char>) -> Option<Seq<Seq<char>>>;

/// The subtype of media type `s`, when it parses.
pub uninterp spec fn mime_subtype_of(s: Seq<char>) -> Seq<char>;

/// The known file extensions of media type `s`. Relies on
/// `mime_guess::get_mime_extensions`, given `s` as parsed by
/// `<mime::Mime as FromStr>::from_str`: the answer depends on the text
/// alone, and a text that does not parse has none.
#[verifier::external_body]
fn mime_extensions(s: &str) -> (r: Option<Vec<String>>)
    ensures
        opt_strings(r) == mime_exts_of(s@),
        !mime_parses(s@) ==> r is None,
{
    s.parse::<mime::Mime>()
        .ok()
        .and_then(|m| mime_guess::get_mime_extensions(&m))
        .map(|exts| exts.iter().map(|e| e.to_string()).collect())
}

/// The subtype of media type `s`, none when it does not parse. Relies on
/// `mime::Mime::subtype`, given `s` as parsed by
/// `<mime::Mime as FromStr>::from_str`: both depend on the text alone.
#[verifier::external_body]
fn mime_subtype(s: &str) -> (r: Option<String>)
    ensures
        r is Some == mime_parses(s@),
        r matches Some(x) ==> x@ == mime_subtype_of(s@),
{
    s.parse::<mime::Mime>().ok().map(|m| m.subtype().as_str().to_string())
}

/// The extension chosen from the known extensions of a media type and its
/// subtype: the first known extension, else the subtype.
pub open spec fn pick_extension_spec(exts: Option<Seq<Seq<char>>>, subtype: Seq<char>) -> Seq<char> {
    match exts {
        Some(v) => if v.len() > 0 {
            seq!['.'] + v[0]
        } else {
            seq!['.'] + subtype
        },
        None => seq!['.'] + subtype,
    }
}

/// The views of an optional list of strings.
pub open spec fn opt_strings(o: Option<Vec<String>>) -> Option<Seq<Seq<char>>> {
    match o {
        Some(v) => Some(Seq::new(v@.len(), |i: int| v@[i]@)),
        None => None,
    }
}

/// The extension for a media type, from its known extensions and its
/// subtype.
pub fn pick_extension(exts: Option<Vec<String>>, subtype: String) -> (r: String)
    ensures
        r@ == pick_extension_spec(opt_strings(exts), subtype@),
{
    let mut r = String::from_str(".");
    proof {
        reveal_strlit(".");
        assert("."@ =~= seq!['.']);
    }
    match &exts {
        Some(v) => {
            if v.len() > 0 {
                r.append(v[0].as_str());
                return r;
            }
        },
        None => {},
    }
    r.append(subtype.as_str());
    r
}

/// The file extension for a response's content type: `.jpg` for JPEG,
/// else the first known extension or, for a type missing from the table,
/// the subtype; none when the type does not parse.
pub fn get_mine_type_ext(mime_type: &str) -> (r: String)
    ensures
        mime_type@ == "image/jpeg"@ ==> r@ == ".jpg"@,
        mime_type@ != "image/jpeg"@ && !mime_parses(mime_type@) ==> r@.len() == 0,
        mime_type@ != "image/jpeg"@ && mime_parses(mime_type@) ==> r@ == pick_extension_spec(
            mime_exts_of(mime_type@),
            mime_subtype_of(mime_type@),
        ),
{
    if str_eq(mime_type, &String::from_str("image/jpeg")) {
        return String::from_str(".jpg");
    }
    match mime_subtype(mime_type) {
        Some(sub) => pick_extension(mime_extensions(mime_type), sub),
        None => String::new(),
    }
}

/// The cache file for `url` with extension `ext`: `cache/`, the MD5 of the
/// address in hex, and the extension.
pub fn cache_file_name(url: &str, ext: &str) -> (r: String)
    ensures
        r@ == "cache/"@ + md5_hex_of(url@) + ext@,
{
    let mut r = String::from_str("cache/");
    let h = md5_hex(url);
    r.append(h.as_str());
    r.append(ext);
    r
}

/// What a fetch of a media address has to do.
pub enum FetchPlan {
    /// The file is cached here already: no network round trip.
    Cached(String),
    /// The file must be downloaded.
    Download,
}

/// A fetched address and the file it was cached in.
pub struct CacheEntry {
    pub url: String,
    pub path: String,
}

/// The cache file for `url` in `s`, if it was fetched.
pub open spec fn cached_path(s: Seq<(Seq<char>, Seq<char>)>, url: Seq<char>) -> Option<Seq<char>>
    decreases s.len(),
{
    if s.len() == 0 {
        None
    } else if s[0].0 == url {
        Some(s[0].1)
    } else {
        cached_path(s.drop_first(), url)
    }
}

/// The cache after a successful download of `url` into `path`: a first
/// download is remembered, a repeated one changes nothing.
pub open spec fn record_spec(s: Seq<(Seq<char>, Seq<char>)>, url: Seq<char>, path: Seq<char>) -> Seq<
    (Seq<char>, Seq<char>),
> {
    if cached_path(s, url) is Some {
        s
    } else {
        s.push((url, path))
    }
}

/// The fetched addresses and their files.
pub struct MediaCache {
    entries: Vec<CacheEntry>,
}

impl View for MediaCache {
    type V = Seq<(Seq<char>, Seq<char>)>;

    closed spec fn view(&self) -> Seq<(Seq<char>, Seq<char>)> {
        Seq::new(self.entries@.len(), |i: int| (self.entries@[i].url@, self.entries@[i].path@))
    }
}

/// A scan past `i` entries for other addresses finds the address at `i`,
/// or nothing at the end.
proof fn lemma_cached_path(s: Seq<(Seq<char>, Seq<char>)>, url: Seq<char>, i: int)
    requires
        0 <= i <= s.len(),
        forall|k: int| 0 <= k < i ==> (#[trigger] s[k]).0 != url,
    ensures
        i < s.len() && s[i].0 == url ==> cached_path(s, url) == Some(s[i].1),
        i == s.len() ==> cached_path(s, url) is None,
    decreases i,
{
    if i > 0 {
        let t = s.drop_first();
        assert forall|k: int| 0 <= k < i - 1 implies (#[trigger] t[k]).0 != url by {
            assert(t[k] == s[k + 1]);
        }
        lemma_cached_path(t, url, i - 1);
        if i < s.len() {
            assert(t[i - 1] == s[i]);
        }
    }
}

/// An address found in a cache is found, with the same file, in the cache
/// with one more entry.
proof fn lemma_cached_path_push(
    s: Seq<(Seq<char>, Seq<char>)>,
    url: Seq<char>,
    e: (Seq<char>, Seq<char>),
)
    requires
        cached_path(s, url) is Some,
    ensures
        cached_path(s.push(e), url) == cached_path(s, url),
    decreases s.len(),
{
    if s[0].0 != url {
        assert(s.push(e).drop_first() =~= s.drop_first().push(e));
        lemma_cached_path_push(s.drop_first(), url, e);
    }
}

impl MediaCache {
    /// An empty cache.
    pub fn new() -> (r: MediaCache)
        ensures
            r@ == Seq::<(Seq<char>, Seq<char>)>::empty(),
    {
        let r = MediaCache { entries: Vec::new() };
        assert(r@ =~= Seq::<(Seq<char>, Seq<char>)>::empty());
        r
    }

    /// What fetching `url` has to do: use the file of an earlier successful
    /// fetch, or download.
    pub fn plan(&self, url: &str) -> (r: FetchPlan)
        ensures
            match r {
                FetchPlan::Cached(p) => cached_path(self@, url@) == Some(p@),
                FetchPlan::Download => cached_path(self@, url@) is None,
            },
    {
        let n = self.entries.len();
        for i in 0..n
            invariant
                n == self@.len(),
                forall|k: int| 0 <= k < i ==> (#[trigger] self@[k]).0 != url@,
        {
            if str_eq(url, &self.entries[i].url) {
                proof {
                    lemma_cached_path(self@, url@, i as int);
                }
                return FetchPlan::Cached(self.entries[i].path.clone());
            }
        }
        proof {
            lemma_cached_path(self@, url@, n as int);
        }
        FetchPlan::Download
    }

    /// Remembers that `url` was downloaded into `path`.
    pub fn record(&mut self, url: &str, path: String)
        ensures
            final(self)@ == record_spec(old(self)@, url@, path@),
    {
        match self.plan(url) {
            FetchPlan::Cached(_) => {},
            FetchPlan::Download => {
                let ghost s = self@;
                let e = CacheEntry { url: String::from_str(url), path };
                self.entries.push(e);
                assert(self@ =~= s.push((url@, path@)));
            },
        }
    }
}

/// Once a fetch of `url` has succeeded, every later fetch of it uses the
/// cached file, whatever else is downloaded meanwhile: at most one
/// successful network round trip per address.
pub proof fn lemma_fetch_idempotent(
    s: Seq<(Seq<char>, Seq<char>)>,
    url: Seq<char>,
    path: Seq<char>,
    other: Seq<char>,
    other_path: Seq<char>,
)
    ensures
        cached_path(record_spec(s, url, path), url) is Some,
        cached_path(record_spec(record_spec(s, url, path), other, other_path), url) == cached_path(
            record_spec(s, url, path),
            url,
        ),
{
    let t = record_spec(s, url, path);
    if cached_path(s, url) is None {
        assert forall|k: int| 0 <= k < s.len() implies (#[trigger] s[k]).0 != url by {
            if s[k].0 == url {
                lemma_cached_path_first(s, url, k);
            }
        }
        lemma_cached_path(t, url, s.len() as int);
    }
    if cached_path(t, other) is None {
        lemma_cached_path_push(t, url, (other, other_path));
    }
}

/// An address held at some entry is found.
proof fn lemma_cached_path_first(s: Seq<(Seq<char>, Seq<char>)>, url: Seq<char>, k: int)
    requires
        0 <= k < s.len(),
        s[k].0 == url,
    ensures
        cached_path(s, url) is Some,
    decreases k,
{
    if s[0].0 != url {
        assert(s.drop_first()[k - 1] == s[k]);
        lemma_cached_path_first(s.drop_first(), url, k - 1);
    }
}

} // verus!
