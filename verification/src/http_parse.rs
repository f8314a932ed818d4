//! The request scan of `httparse`, the std text conversions that the proxy
//! applies to header names and values, and white-space trimming.

use vstd::prelude::*;
use vstd::utf8::{decode_utf8, valid_utf8};
use crate::text::{chars_of, string_of};

verus! {

/// Most headers a request may carry.
pub const MAX_HEADERS: usize = 64;

/// One header as it appears in the request: name text and raw value bytes.
#[derive(Debug)]
pub struct RawHeader {
    pub name: String,
    pub value: Vec<u8>,
}

pub struct RawHeaderView {
    pub name: Seq<char>,
    pub value: Seq<u8>,
}

impl View for RawHeader {
    type V = RawHeaderView;

    open spec fn view(&self) -> RawHeaderView {
        RawHeaderView { name: self.name@, value: self.value@ }
    }
}

/// The parts of a request line and its headers, as the scanner found them.
#[derive(Debug)]
pub struct RawRequest {
    pub method: Option<String>,
    pub path: Option<String>,
    pub version: Option<u8>,
    pub headers: Vec<RawHeader>,
}

pub struct RawRequestView {
    pub method: Option<Seq<char>>,
    pub path: Option<Seq<char>>,
    pub version: Option<u8>,
    pub headers: Seq<RawHeaderView>,
}

pub open spec fn text_option_view(o: Option<String>) -> Option<Seq<char>> {
    match o {
        Some(s) => Some(s@),
        None => None,
    }
}

impl View for RawRequest {
    type V = RawRequestView;

    open spec fn view(&self) -> RawRequestView {
        RawRequestView {
            method: text_option_view(self.method),
            path: text_option_view(self.path),
            version: self.version,
            headers: self.headers@.map_values(|h: RawHeader| h@),
        }
    }
}

/// The outcome of scanning a buffer that is not malformed.
#[derive(Debug)]
pub enum RequestScan {
    /// The buffer holds the whole request head.
    Complete(RawRequest),
    /// The buffer ends before the request head does.
    Partial,
}

pub enum RequestScanView {
    Complete(RawRequestView),
    Partial,
}

pub open spec fn scan_view(r: Result<RequestScan, String>) -> Result<RequestScanView, Seq<char>> {
    match r {
        Ok(RequestScan::Complete(raw)) => Ok(RequestScanView::Complete(raw@)),
        Ok(RequestScan::Partial) => Ok(RequestScanView::Partial),
        Err(e) => Err(e@),
    }
}

/// What `httparse::Request::parse` makes of a buffer, with room for
/// [`MAX_HEADERS`] headers; an error is given by its description.
pub uninterp spec fn httparse_request(buf: Seq<u8>) -> Result<RequestScanView, Seq<char>>;

/// Scans a request head with `httparse::Request::parse`.
///
/// The contract names the scanner's result and says nothing of its content:
/// that is the crate's HTTP/1.x grammar.
#[verifier::external_body]
pub(crate) fn scan_request(buf: &[u8]) -> (r: Result<RequestScan, String>)
    ensures
        scan_view(r) == httparse_request(buf@),
{
    let mut headers = [httparse::EMPTY_HEADER; MAX_HEADERS];
    let mut req = httparse::Request::new(&mut headers);
    match req.parse(buf) {
        Ok(httparse::Status::Partial) => Ok(RequestScan::Partial),
        Ok(httparse::Status::Complete(_)) => Ok(RequestScan::Complete(RawRequest {
            method: req.method.map(|m| m.to_string()),
            path: req.path.map(|p| p.to_string()),
            version: req.version,
            headers: req.headers.iter().map(|h| RawHeader { name: h.name.to_string(), value: h.value.to_vec() }).collect(),
        })),
        Err(e) => Err(e.to_string()),
    }
}

/// What `String::from_utf8_lossy` makes of a byte sequence.
pub uninterp spec fn lossy_utf8(bytes: Seq<u8>) -> Seq<char>;

/// Decodes bytes as UTF-8 with `String::from_utf8_lossy`, which replaces
/// invalid sequences by U+FFFD. Stated: valid UTF-8 decodes unchanged.
#[verifier::external_body]
pub(crate) fn from_utf8_lossy(bytes: &[u8]) -> (r: String)
    ensures
        r@ == lossy_utf8(bytes@),
        valid_utf8(bytes@) ==> r@ == decode_utf8(bytes@),
{
    String::from_utf8_lossy(bytes).to_string()
}

/// What `str::to_lowercase` makes of a text (Unicode lower case).
pub uninterp spec fn to_lower(s: Seq<char>) -> Seq<char>;

/// Whether every character of `s` is ASCII.
pub open spec fn all_ascii(s: Seq<char>) -> bool {
    forall|i: int| 0 <= i < s.len() ==> (#[trigger] s[i] as u32) < 128
}

/// The ASCII lower case of a character: `A`..`Z` become `a`..`z`.
pub open spec fn ascii_lower_char(c: char) -> char {
    if 'A' <= c && c <= 'Z' {
        ((c as u32) + 32) as char
    } else {
        c
    }
}

/// A text with each character put in ASCII lower case.
pub open spec fn ascii_lower(s: Seq<char>) -> Seq<char> {
    s.map_values(|c: char| ascii_lower_char(c))
}

/// Lower-cases a text with `str::to_lowercase`. Stated besides its name:
/// on ASCII text it maps exactly `A`..`Z` to `a`..`z`.
#[verifier::external_body]
pub(crate) fn lowercase(s: &str) -> (r: String)
    ensures
        r@ == to_lower(s@),
        all_ascii(s@) ==> r@ == ascii_lower(s@),
{
    s.to_lowercase()
}

/// Whether `c` has the Unicode White_Space property, which `str::trim`
/// uses: U+0009..U+000D, U+0020, U+0085, U+00A0, U+1680, U+2000..U+200A,
/// U+2028, U+2029, U+202F, U+205F and U+3000.
pub open spec fn is_white_space(c: char) -> bool {
    let n = c as u32;
    ||| 9 <= n <= 13
    ||| n == 32
    ||| n == 0x85
    ||| n == 0xa0
    ||| n == 0x1680
    ||| 0x2000 <= n <= 0x200a
    ||| n == 0x2028
    ||| n == 0x2029
    ||| n == 0x202f
    ||| n == 0x205f
    ||| n == 0x3000
}

/// `s` without its leading white space.
pub open spec fn trim_start_ws(s: Seq<char>) -> Seq<char>
    decreases s.len(),
{
    if s.len() > 0 && is_white_space(s[0]) {
        trim_start_ws(s.drop_first())
    } else {
        s
    }
}

/// `s` without its trailing white space.
pub open spec fn trim_end_ws(s: Seq<char>) -> Seq<char>
    decreases s.len(),
{
    if s.len() > 0 && is_white_space(s.last()) {
        trim_end_ws(s.drop_last())
    } else {
        s
    }
}

/// What `str::trim` keeps of a text: white space cut at both ends.
pub open spec fn trim_whitespace(s: Seq<char>) -> Seq<char> {
    trim_end_ws(trim_start_ws(s))
}

/// Leading white space ends where the first other character stands.
proof fn lemma_trim_start(s: Seq<char>, i: int)
    requires
        0 <= i <= s.len(),
        forall|k: int| 0 <= k < i ==> is_white_space(#[trigger] s[k]),
        i == s.len() || !is_white_space(s[i]),
    ensures
        trim_start_ws(s) == s.skip(i),
    decreases i,
{
    if i == 0 {
        assert(s.skip(0) =~= s);
    } else {
        let t = s.drop_first();
        assert forall|k: int| 0 <= k < i - 1 implies is_white_space(#[trigger] t[k]) by {
            assert(t[k] == s[k + 1]);
        }
        if i < s.len() {
            assert(t[i - 1] == s[i]);
        }
        lemma_trim_start(t, i - 1);
        assert(t.skip(i - 1) =~= s.skip(i));
    }
}

/// Trailing white space starts after the last other character.
proof fn lemma_trim_end(t: Seq<char>, j: int)
    requires
        0 <= j <= t.len(),
        forall|k: int| j <= k < t.len() ==> is_white_space(#[trigger] t[k]),
        j == 0 || !is_white_space(t[j - 1]),
    ensures
        trim_end_ws(t) == t.take(j),
    decreases t.len() - j,
{
    if j == t.len() {
        assert(t.take(j) =~= t);
    } else {
        let u = t.drop_last();
        assert(is_white_space(t[t.len() - 1]));
        assert forall|k: int| j <= k < u.len() implies is_white_space(#[trigger] u[k]) by {
            assert(u[k] == t[k]);
        }
        if j > 0 {
            assert(u[j - 1] == t[j - 1]);
        }
        lemma_trim_end(u, j);
        assert(u.take(j) =~= t.take(j));
    }
}

/// Whether `c` has the White_Space property.
fn white_space(c: char) -> (r: bool)
    ensures
        r == is_white_space(c),
{
    let n = c as u32;
    (9 <= n && n <= 13) || n == 32 || n == 0x85 || n == 0xa0 || n == 0x1680 || (0x2000 <= n && n
        <= 0x200a) || n == 0x2028 || n == 0x2029 || n == 0x202f || n == 0x205f || n == 0x3000
}

/// Cuts leading and trailing white space, as `str::trim` does: the
/// characters with the White_Space property at both ends.
pub(crate) fn trim(s: &str) -> (r: String)
    ensures
        r@ == trim_whitespace(s@),
{
    let v = chars_of(s);
    let n = v.len();
    let mut i: usize = 0;
    while i < n && white_space(v[i])
        invariant
            n == v@.len(),
            v@ == s@,
            i <= n,
            forall|k: int| 0 <= k < i ==> is_white_space(#[trigger] v@[k]),
        decreases n - i,
    {
        i = i + 1;
    }
    proof {
        lemma_trim_start(s@, i as int);
    }
    let mut j: usize = n;
    while j > i && white_space(v[j - 1])
        invariant
            n == v@.len(),
            v@ == s@,
            i <= j <= n,
            forall|k: int| j <= k < n ==> is_white_space(#[trigger] v@[k]),
        decreases j - i,
    {
        j = j - 1;
    }
    proof {
        let t = s@.skip(i as int);
        assert forall|k: int| j - i <= k < t.len() implies is_white_space(#[trigger] t[k]) by {
            assert(t[k] == v@[k + i]);
        }
        if j > i {
            assert(t[j - i - 1] == v@[j - 1]);
        } else if i < n {
            assert(!is_white_space(v@[i as int]));
        }
        lemma_trim_end(t, j - i);
        assert(t.take(j - i) =~= v@.subrange(i as int, j as int));
    }
    string_of(&v, i, j)
}

} // verus!
