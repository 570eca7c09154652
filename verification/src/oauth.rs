//! Connecting a Google account: the PKCE authorization request, reading the browser's redirect
//! back to the local callback, and the account that results.
//!
//! Opening the browser, the callback's socket and the token and profile requests belong to the
//! shell; what is sent and what is made of each answer is decided here.
use vstd::prelude::*;
use vstd::string::*;

use base64::Engine;
use sha2::Digest;

use crate::text::{chars_of, concat, eq_str, string_of};

verus! {

broadcast use vstd::string::group_string_axioms;

// ------------------------------------------------------------------ comparing secrets

/// Whether two byte strings are equal, looking at every byte whatever the others are, so that
/// how long the comparison takes says nothing about where they first differ.
pub fn constant_time_eq(a: &[u8], b: &[u8]) -> (r: bool)
    ensures
        r == (a@ == b@),
{
    if a.len() != b.len() {
        return false;
    }
    let mut acc: u8 = 0;
    let mut i: usize = 0;
    while i < a.len()
        invariant
            a@.len() == b@.len(),
            i <= a@.len(),
            (acc == 0) == (forall|j: int| 0 <= j < i ==> a@[j] == b@[j]),
        decreases a@.len() - i,
    {
        let x = a[i];
        let y = b[i];
        let d = x ^ y;
        assert((d == 0) == (x == y)) by (bit_vector)
            requires
                d == x ^ y,
        ;
        let next = acc | d;
        assert((next == 0) == (acc == 0 && d == 0)) by (bit_vector)
            requires
                next == acc | d,
        ;
        proof {
            if next == 0 {
                assert forall|j: int| 0 <= j < i + 1 implies a@[j] == b@[j] by {
                    if j < i {
                    } else {
                        assert(a@[j] == x && b@[j] == y);
                    }
                }
            }
        }
        acc = next;
        i = i + 1;
    }
    proof {
        if acc == 0 {
            assert(a@ =~= b@);
        }
    }
    acc == 0
}

// ------------------------------------------------------------------ percent-encoding

/// The bytes a URL carries as they are.
pub open spec fn is_unreserved(b: u8) -> bool {
    (65 <= b <= 90) || (97 <= b <= 122) || (48 <= b <= 57) || b == 45 || b == 95 || b == 46 || b == 126
}

/// The upper-case hexadecimal digit for `d` (below 16).
pub open spec fn hex_upper(d: u8) -> char {
    if d < 10 {
        ((48 + d) as u32) as char
    } else {
        ((55 + d) as u32) as char
    }
}

/// How one byte is written in a URL: as itself when unreserved, else `%` and two upper-case
/// hexadecimal digits.
pub open spec fn encode_byte(b: u8) -> Seq<char> {
    if is_unreserved(b) {
        seq![(b as u32) as char]
    } else {
        seq!['%', hex_upper(b / 16), hex_upper(b % 16)]
    }
}

/// The bytes written for a URL, byte by byte.
pub open spec fn url_encoded(bytes: Seq<u8>) -> Seq<char>
    decreases bytes.len(),
{
    if bytes.len() == 0 {
        Seq::empty()
    } else {
        url_encoded(bytes.drop_last()) + encode_byte(bytes.last())
    }
}

/// The character with code point `n`, below the surrogates.
fn ascii_char(n: u32) -> (c: char)
    requires
        n < 0xD800,
    ensures
        c == n as char,
{
    crate::text::char_from_ascii(n)
}

fn hex_upper_of(d: u8) -> (c: char)
    requires
        d < 16,
    ensures
        c == hex_upper(d),
{
    if d < 10 {
        ascii_char(48 + d as u32)
    } else {
        ascii_char(55 + d as u32)
    }
}

/// `s` made safe for a URL query: its UTF-8 bytes, each unreserved one as itself and every other
/// as `%XX`.
pub fn urlencoded(s: &str) -> (r: String)
    ensures
        r@ == url_encoded(s.spec_bytes()),
{
    let bytes = s.as_bytes();
    let mut out: Vec<char> = Vec::new();
    let mut i: usize = 0;
    while i < bytes.len()
        invariant
            i <= bytes@.len(),
            bytes@ == s.spec_bytes(),
            out@ == url_encoded(bytes@.take(i as int)),
        decreases bytes@.len() - i,
    {
        let b = bytes[i];
        assert(bytes@.take(i + 1).drop_last() =~= bytes@.take(i as int));
        if (65 <= b && b <= 90) || (97 <= b && b <= 122) || (48 <= b && b <= 57) || b == 45 || b == 95
            || b == 46 || b == 126 {
            out.push(ascii_char(b as u32));
        } else {
            out.push('%');
            out.push(hex_upper_of(b / 16));
            out.push(hex_upper_of(b % 16));
        }
        assert(out@ =~= url_encoded(bytes@.take(i as int)) + encode_byte(b));
        i = i + 1;
    }
    assert(bytes@.take(i as int) =~= bytes@);
    string_of(out.as_slice())
}

/// The value of a hexadecimal digit byte (either case), if it is one.
pub open spec fn hex_value(b: u8) -> Option<u8> {
    if 48 <= b <= 57 {
        Some((b - 48) as u8)
    } else if 65 <= b <= 70 {
        Some((b - 55) as u8)
    } else if 97 <= b <= 102 {
        Some((b - 87) as u8)
    } else {
        None
    }
}

/// The byte two characters after a `%` stand for, read as `u8::from_str_radix(_, 16)` reads them:
/// two hexadecimal digits, or a `+` sign and one.
pub open spec fn hex_pair(x: u8, y: u8) -> Option<u8> {
    match (hex_value(x), hex_value(y)) {
        (Some(h), Some(l)) => Some((h * 16 + l) as u8),
        (None, Some(l)) => if x == 43 {
            Some(l)
        } else {
            None
        },
        _ => None,
    }
}

/// The bytes after percent-decoding from index `i` on: a `%` with the byte its next two
/// characters stand for becomes that byte; every other byte stays.
pub open spec fn percent_decoded(b: Seq<u8>, i: int) -> Seq<u8>
    decreases b.len() - i,
{
    if i < 0 || i >= b.len() {
        Seq::empty()
    } else if b[i] == 37 && i + 2 < b.len() && hex_pair(b[i + 1], b[i + 2]) is Some {
        seq![hex_pair(b[i + 1], b[i + 2])->0] + percent_decoded(b, i + 3)
    } else {
        seq![b[i]] + percent_decoded(b, i + 1)
    }
}

fn hex_value_of(b: u8) -> (r: Option<u8>)
    ensures
        r == hex_value(b),
{
    if 48 <= b && b <= 57 {
        Some(b - 48)
    } else if 65 <= b && b <= 70 {
        Some(b - 55)
    } else if 97 <= b && b <= 102 {
        Some(b - 87)
    } else {
        None
    }
}

fn hex_pair_of(x: u8, y: u8) -> (r: Option<u8>)
    ensures
        r == hex_pair(x, y),
{
    match (hex_value_of(x), hex_value_of(y)) {
        (Some(h), Some(l)) => {
            assert(h < 16 && l < 16);
            Some(h * 16 + l)
        },
        (None, Some(l)) => if x == 43 {
            Some(l)
        } else {
            None
        },
        _ => None,
    }
}

/// The text `String::from_utf8_lossy` makes of some bytes.
pub uninterp spec fn lossy_text(bytes: Seq<u8>) -> Seq<char>;

/// `String::from_utf8_lossy`: valid UTF-8 is decoded as it is; an invalid sequence becomes the
/// replacement character.
#[verifier::external_body]
pub(crate) fn utf8_lossy(bytes: &[u8]) -> (r: String)
    ensures
        r@ == lossy_text(bytes@),
        vstd::utf8::valid_utf8(bytes@) ==> r@ == vstd::utf8::decode_utf8(bytes@),
{
    String::from_utf8_lossy(bytes).into_owned()
}

/// `s` with each `%XX` decoded to the byte it stands for, the result read as UTF-8 (an invalid
/// sequence becoming the replacement character).
pub fn percent_decode_simple(s: &str) -> (r: String)
    ensures
        r@ == lossy_text(percent_decoded(s.spec_bytes(), 0)),
{
    let bytes = s.as_bytes();
    let mut out: Vec<u8> = Vec::new();
    let mut i: usize = 0;
    while i < bytes.len()
        invariant
            i <= bytes@.len(),
            bytes@ == s.spec_bytes(),
            percent_decoded(bytes@, 0) == out@ + percent_decoded(bytes@, i as int),
        decreases bytes@.len() - i,
    {
        let ghost before = out@;
        if bytes[i] == 37 && bytes.len() - i > 2 {
            if let Some(v) = hex_pair_of(bytes[i + 1], bytes[i + 2]) {
                out.push(v);
                assert(before + percent_decoded(bytes@, i as int) =~= out@ + percent_decoded(
                    bytes@,
                    i + 3,
                ));
                i = i + 3;
                continue;
            }
        }
        out.push(bytes[i]);
        assert(before + percent_decoded(bytes@, i as int) =~= out@ + percent_decoded(bytes@, i + 1));
        i = i + 1;
    }
    assert(out@ + percent_decoded(bytes@, i as int) =~= out@);
    utf8_lossy(out.as_slice())
}

// ------------------------------------------------------------------ the redirect back

/// The first index at or after `i` that is not whitespace, or the length.
pub open spec fn skip_ws(s: Seq<char>, i: int) -> int
    decreases s.len() - i,
{
    if i < 0 {
        0
    } else if i >= s.len() {
        s.len() as int
    } else if crate::text::is_ws(s[i]) {
        skip_ws(s, i + 1)
    } else {
        i
    }
}

/// The first index at or after `i` that is whitespace, or the length.
pub open spec fn to_ws(s: Seq<char>, i: int) -> int
    decreases s.len() - i,
{
    if i < 0 {
        0
    } else if i >= s.len() {
        s.len() as int
    } else if crate::text::is_ws(s[i]) {
        i
    } else {
        to_ws(s, i + 1)
    }
}

pub proof fn lemma_skip_ws(s: Seq<char>, i: int)
    requires
        0 <= i <= s.len(),
    ensures
        i <= skip_ws(s, i) <= s.len(),
        skip_ws(s, i) < s.len() ==> !crate::text::is_ws(s[skip_ws(s, i)]),
        forall|k: int| i <= k < skip_ws(s, i) ==> crate::text::is_ws(#[trigger] s[k]),
    decreases s.len() - i,
{
    if i < s.len() && crate::text::is_ws(s[i]) {
        lemma_skip_ws(s, i + 1);
    }
}

pub proof fn lemma_to_ws(s: Seq<char>, i: int)
    requires
        0 <= i <= s.len(),
    ensures
        i <= to_ws(s, i) <= s.len(),
        to_ws(s, i) < s.len() ==> crate::text::is_ws(s[to_ws(s, i)]),
        forall|k: int| i <= k < to_ws(s, i) ==> !crate::text::is_ws(#[trigger] s[k]),
    decreases s.len() - i,
{
    if i < s.len() && !crate::text::is_ws(s[i]) {
        lemma_to_ws(s, i + 1);
    }
}

/// The whitespace-separated words of `s` from index `i` on (`str::split_whitespace`).
pub open spec fn words_from(s: Seq<char>, i: int) -> Seq<Seq<char>>
    decreases s.len() - i,
{
    if i < 0 || i >= s.len() {
        Seq::empty()
    } else {
        let j = skip_ws(s, i);
        proof {
            lemma_skip_ws(s, i);
        }
        if j >= s.len() {
            Seq::empty()
        } else {
            let e = to_ws(s, j + 1);
            proof {
                lemma_to_ws(s, j + 1);
            }
            seq![s.subrange(j, e)] + words_from(s, e)
        }
    }
}

/// The value of the first `param=value` pair among `pairs`.
pub open spec fn first_param(pairs: Seq<Seq<char>>, param: Seq<char>) -> Option<Seq<char>>
    decreases pairs.len(),
{
    if pairs.len() == 0 {
        None
    } else {
        let p = pairs[0];
        let k = crate::text::find(p, seq!['=']);
        if k >= 0 && p.take(k) == param {
            Some(p.skip(k + 1))
        } else {
            first_param(pairs.drop_first(), param)
        }
    }
}

/// The raw value of a query parameter in an HTTP request: the request line's second word is the
/// path, its query the part after the first `?`, split at `&` into `name=value` pairs.
pub open spec fn query_param(request: Seq<char>, param: Seq<char>) -> Option<Seq<char>> {
    let line = crate::text::head_before(request, seq!['\n']);
    let words = words_from(line, 0);
    if words.len() < 2 {
        None
    } else {
        let path = words[1];
        let q = crate::text::find(path, seq!['?']);
        if q < 0 {
            None
        } else {
            first_param(crate::text::split_char(path.skip(q + 1), '&'), param)
        }
    }
}

/// The whitespace-separated words of `s`.
fn words(s: &[char]) -> (r: Vec<Vec<char>>)
    ensures
        r.deep_view() == words_from(s@, 0),
{
    let mut out: Vec<Vec<char>> = Vec::new();
    let mut i: usize = 0;
    assert(out.deep_view() + words_from(s@, 0) =~= words_from(s@, 0));
    while i < s.len()
        invariant
            i <= s@.len(),
            out.deep_view() + words_from(s@, i as int) == words_from(s@, 0),
        decreases s@.len() - i,
    {
        proof {
            lemma_skip_ws(s@, i as int);
        }
        let ghost i0 = i as int;
        let mut j = i;
        while j < s.len() && crate::text::is_whitespace(s[j])
            invariant
                i0 <= j <= s@.len(),
                skip_ws(s@, i0) == skip_ws(s@, j as int),
            decreases s@.len() - j,
        {
            j = j + 1;
        }
        if j >= s.len() {
            assert(words_from(s@, i0) =~= Seq::<Seq<char>>::empty());
            assert(out.deep_view() =~= words_from(s@, 0));
            return out;
        }
        proof {
            lemma_to_ws(s@, j + 1);
        }
        let mut e = j + 1;
        while e < s.len() && !crate::text::is_whitespace(s[e])
            invariant
                j + 1 <= e <= s@.len(),
                to_ws(s@, j + 1) == to_ws(s@, e as int),
            decreases s@.len() - e,
        {
            e = e + 1;
        }
        let w = crate::text::slice_to_vec_range(s, j, e);
        assert(w.deep_view() =~= w@);
        let ghost before = out.deep_view();
        out.push(w);
        assert(out.deep_view() =~= before.push(s@.subrange(j as int, e as int)));
        assert(before + words_from(s@, i0) =~= out.deep_view() + words_from(s@, e as int));
        i = e;
    }
    assert(words_from(s@, i as int) =~= Seq::<Seq<char>>::empty());
    assert(out.deep_view() =~= words_from(s@, 0));
    out
}

/// The value of a query parameter in the HTTP request the browser sent to the callback, decoded;
/// `None` where the request line has no such parameter.
pub fn extract_query_param(request: &str, param: &str) -> (r: Option<String>)
    ensures
        match query_param(request@, param@) {
            None => r is None,
            Some(v) => r is Some && r->0@ == lossy_text(percent_decoded(vstd::utf8::encode_utf8(v), 0)),
        },
{
    let cs = chars_of(request);
    let nl = ['\n'];
    assert(nl@ =~= seq!['\n']);
    let line = crate::text::head_before_chars(cs.as_slice(), nl.as_slice());
    let ws = words(line.as_slice());
    if ws.len() < 2 {
        return None;
    }
    let path = &ws[1];
    assert(ws.deep_view()[1] == path@);
    let qm = ['?'];
    assert(qm@ =~= seq!['?']);
    let q = match find_chars_opt(path.as_slice(), qm.as_slice()) {
        Some(q) => q,
        None => return None,
    };
    proof {
        crate::text::lemma_find_range(path@, seq!['?'], 0);
        assert(crate::text::occurs_at(path@, seq!['?'], q as int));
    }
    let n = path.len();
    assert(q < n);
    let query = crate::text::slice_to_vec_range(path.as_slice(), q + 1, n);
    assert(query@ =~= path@.skip(q + 1));
    let pairs = crate::text::split_chars(query.as_slice(), '&');
    let ghost pv = pairs.deep_view();
    let pc = chars_of(param);
    let eq = ['='];
    assert(eq@ =~= seq!['=']);
    let mut i: usize = 0;
    assert(pv.skip(0) =~= pv);
    assert(query_param(request@, param@) == first_param(pv, param@));
    while i < pairs.len()
        invariant
            i <= pairs@.len(),
            query_param(request@, param@) == first_param(pv, param@),
            pv == pairs.deep_view(),
            pc@ == param@,
            eq@ == seq!['='],
            first_param(pv, param@) == first_param(pv.skip(i as int), param@),
        decreases pairs@.len() - i,
    {
        let p = &pairs[i];
        assert(pv[i as int] == p@);
        assert(pv.skip(i as int)[0] == p@);
        assert(pv.skip(i as int).drop_first() =~= pv.skip(i + 1));
        if let Some(k) = find_chars_opt(p.as_slice(), eq.as_slice()) {
            proof {
                crate::text::lemma_find_range(p@, seq!['='], 0);
                assert(crate::text::occurs_at(p@, seq!['='], k as int));
            }
            let m = p.len();
            assert(k < m);
            let key = crate::text::slice_to_vec_range(p.as_slice(), 0, k);
            assert(key@ =~= p@.take(k as int));
            if crate::text::chars_eq(key.as_slice(), pc.as_slice()) {
                let value = crate::text::slice_to_vec_range(p.as_slice(), k + 1, m);
                assert(value@ =~= p@.skip(k + 1));
                let text = string_of(value.as_slice());
                return Some(percent_decode_simple(text.as_str()));
            }
        }
        i = i + 1;
    }
    assert(pv.skip(i as int) =~= Seq::<Seq<char>>::empty());
    None
}

/// The first index of `p` in `s`.
fn find_chars_opt(s: &[char], p: &[char]) -> (r: Option<usize>)
    ensures
        match r {
            Some(k) => k as int == crate::text::find(s@, p@),
            None => crate::text::find(s@, p@) == -1,
        },
{
    crate::text::find_chars(s, p)
}

// ------------------------------------------------------------------ the authorization request

/// What `base64`'s URL-safe engine without padding writes for some bytes.
pub uninterp spec fn base64_url_nopad(bytes: Seq<u8>) -> Seq<char>;

/// What `base64`'s standard engine (with padding) writes for some bytes.
pub uninterp spec fn base64_standard(bytes: Seq<u8>) -> Seq<char>;

/// The SHA-256 digest of some bytes.
pub uninterp spec fn sha256_of(bytes: Seq<u8>) -> Seq<u8>;

/// `base64::engine::general_purpose::URL_SAFE_NO_PAD.encode`.
#[verifier::external_body]
fn encode_url_nopad(bytes: &[u8]) -> (r: String)
    ensures
        r@ == base64_url_nopad(bytes@),
{
    base64::engine::general_purpose::URL_SAFE_NO_PAD.encode(bytes)
}

/// `base64::engine::general_purpose::STANDARD.encode`.
#[verifier::external_body]
fn encode_standard(bytes: &[u8]) -> (r: String)
    ensures
        r@ == base64_standard(bytes@),
{
    base64::engine::general_purpose::STANDARD.encode(bytes)
}

/// `sha2::Sha256::digest`: 32 bytes.
#[verifier::external_body]
fn sha256_digest(bytes: &[u8]) -> (r: Vec<u8>)
    ensures
        r@ == sha256_of(bytes@),
        r@.len() == 32,
{
    sha2::Sha256::digest(bytes).to_vec()
}

/// `getrandom::getrandom` into `n` fresh bytes from the system's secure generator; the error's
/// text where it fails.
#[verifier::external_body]
pub(crate) fn random_bytes(n: usize) -> (r: Result<Vec<u8>, String>)
    ensures
        r matches Ok(v) ==> v@.len() == n,
{
    let mut buf = vec![0u8; n];
    match getrandom::getrandom(&mut buf) {
        Ok(()) => Ok(buf),
        Err(e) => Err(e.to_string()),
    }
}

/// The lower-case hexadecimal digit for `d` (below 16).
pub open spec fn hex_lower(d: u8) -> char {
    if d < 10 {
        ((48 + d) as u32) as char
    } else {
        ((87 + d) as u32) as char
    }
}

/// Bytes as lower-case hexadecimal, two digits each.
pub open spec fn hex_text(bytes: Seq<u8>) -> Seq<char>
    decreases bytes.len(),
{
    if bytes.len() == 0 {
        Seq::empty()
    } else {
        hex_text(bytes.drop_last()) + seq![hex_lower(bytes.last() / 16), hex_lower(bytes.last() % 16)]
    }
}

fn hex_lower_of(d: u8) -> (c: char)
    requires
        d < 16,
    ensures
        c == hex_lower(d),
{
    if d < 10 {
        ascii_char(48 + d as u32)
    } else {
        ascii_char(87 + d as u32)
    }
}

/// Bytes as lower-case hexadecimal.
pub fn hex_string(bytes: &[u8]) -> (r: String)
    ensures
        r@ == hex_text(bytes@),
{
    let mut out: Vec<char> = Vec::new();
    let mut i: usize = 0;
    while i < bytes.len()
        invariant
            i <= bytes@.len(),
            out@ == hex_text(bytes@.take(i as int)),
        decreases bytes@.len() - i,
    {
        let b = bytes[i];
        assert(bytes@.take(i + 1).drop_last() =~= bytes@.take(i as int));
        out.push(hex_lower_of(b / 16));
        out.push(hex_lower_of(b % 16));
        assert(out@ =~= hex_text(bytes@.take(i + 1)));
        i = i + 1;
    }
    assert(bytes@.take(i as int) =~= bytes@);
    string_of(out.as_slice())
}

/// The scopes Demido asks for: identity, mail, calendar (read) and contacts.
pub const SCOPES: &'static str = "openid email profile https://www.googleapis.com/auth/gmail.modify https://www.googleapis.com/auth/calendar.readonly https://www.googleapis.com/auth/contacts";

/// How many random bytes make the PKCE code verifier.
pub const VERIFIER_BYTES: usize = 64;

/// How many random bytes make the anti-forgery state.
pub const STATE_BYTES: usize = 16;

/// The local address the browser is sent back to.
pub open spec fn spec_redirect_uri(port: u16) -> Seq<char> {
    "http://127.0.0.1:"@ + crate::text::decimal(port as nat)
}

/// The local address the browser is sent back to, on the callback's port.
pub fn redirect_uri(port: u16) -> (r: String)
    ensures
        r@ == spec_redirect_uri(port),
{
    let p = crate::text::decimal_string(port as u64);
    concat("http://127.0.0.1:", p.as_str())
}

/// The PKCE challenge for a verifier: the URL-safe unpadded Base64 of the SHA-256 of its bytes.
pub open spec fn spec_challenge(verifier: Seq<char>) -> Seq<char> {
    base64_url_nopad(sha256_of(vstd::utf8::encode_utf8(verifier)))
}

/// The PKCE challenge for a code verifier.
pub fn code_challenge(verifier: &str) -> (r: String)
    ensures
        r@ == spec_challenge(verifier@),
{
    let digest = sha256_digest(verifier.as_bytes());
    encode_url_nopad(digest.as_slice())
}

/// Google's authorization page, asked for a code for this client, sent back to the callback,
/// with the PKCE challenge and the anti-forgery state, for offline access with a consent prompt.
pub open spec fn spec_auth_url(
    client_id: Seq<char>,
    redirect: Seq<char>,
    challenge: Seq<char>,
    state: Seq<char>,
) -> Seq<char> {
    "https://accounts.google.com/o/oauth2/v2/auth?client_id="@ + url_encoded(
        vstd::utf8::encode_utf8(client_id),
    ) + "&redirect_uri="@ + url_encoded(vstd::utf8::encode_utf8(redirect))
        + "&response_type=code&scope="@ + url_encoded(vstd::utf8::encode_utf8(SCOPES@))
        + "&code_challenge="@ + challenge + "&code_challenge_method=S256&state="@ + state
        + "&access_type=offline&prompt=consent"@
}

/// The authorization page's address.
pub fn auth_url(client_id: &str, redirect: &str, challenge: &str, state: &str) -> (r: String)
    ensures
        r@ == spec_auth_url(client_id@, redirect@, challenge@, state@),
{
    let mut u = concat("https://accounts.google.com/o/oauth2/v2/auth?client_id=", urlencoded(client_id).as_str());
    u = concat(u.as_str(), "&redirect_uri=");
    u = concat(u.as_str(), urlencoded(redirect).as_str());
    u = concat(u.as_str(), "&response_type=code&scope=");
    u = concat(u.as_str(), urlencoded(SCOPES).as_str());
    u = concat(u.as_str(), "&code_challenge=");
    u = concat(u.as_str(), challenge);
    u = concat(u.as_str(), "&code_challenge_method=S256&state=");
    u = concat(u.as_str(), state);
    concat(u.as_str(), "&access_type=offline&prompt=consent")
}

/// A started authorization: where the browser goes, where it comes back, and the secrets the
/// callback and the token exchange are checked against.
#[derive(Debug)]
pub struct Authorization {
    pub url: String,
    pub redirect_uri: String,
    pub code_verifier: String,
    pub state: String,
}

/// The authorization made of the drawn bytes: the code verifier is the URL-safe Base64 of
/// `verifier_bytes`, the challenge is the verifier's, and the state is the hexadecimal text of
/// `state_bytes`; the callback listens on `port`.
pub fn authorization_from(client_id: &str, port: u16, verifier_bytes: &[u8], state_bytes: &[u8]) -> (a: Authorization)
    ensures
        a.redirect_uri@ == spec_redirect_uri(port),
        a.code_verifier@ == base64_url_nopad(verifier_bytes@),
        a.state@ == hex_text(state_bytes@),
        a.url@ == spec_auth_url(client_id@, spec_redirect_uri(port), spec_challenge(base64_url_nopad(verifier_bytes@)), hex_text(state_bytes@)),
{
    let redirect = redirect_uri(port);
    let verifier = encode_url_nopad(verifier_bytes);
    let challenge = code_challenge(verifier.as_str());
    let state = hex_string(state_bytes);
    let url = auth_url(client_id, redirect.as_str(), challenge.as_str(), state.as_str());
    Authorization { url, redirect_uri: redirect, code_verifier: verifier, state }
}

/// Start an authorization for `client_id` with the callback listening on `port`: a fresh code
/// verifier (the URL-safe Base64 of 64 random bytes) and its challenge, and a fresh state (32
/// hexadecimal digits of 16 random bytes), put together by [`authorization_from`]. It fails only
/// where a draw from the secure generator fails, with that error after `CSPRNG error: `.
pub fn begin_authorization(client_id: &str, port: u16) -> (r: Result<Authorization, String>)
    ensures
        match r {
            Ok(a) => exists|v: Seq<u8>, s: Seq<u8>|
                #![trigger base64_url_nopad(v), hex_text(s)]
                {
                    &&& v.len() == VERIFIER_BYTES
                    &&& s.len() == STATE_BYTES
                    &&& a.redirect_uri@ == spec_redirect_uri(port)
                    &&& a.code_verifier@ == base64_url_nopad(v)
                    &&& a.state@ == hex_text(s)
                    &&& a.url@ == spec_auth_url(client_id@, spec_redirect_uri(port), spec_challenge(base64_url_nopad(v)), hex_text(s))
                },
            Err(e) => exists|m: Seq<char>| e@ == "CSPRNG error: "@ + m,
        },
{
    let verifier_bytes = match random_bytes(VERIFIER_BYTES) {
        Ok(v) => v,
        Err(e) => return Err(concat("CSPRNG error: ", e.as_str())),
    };
    let state_bytes = match random_bytes(STATE_BYTES) {
        Ok(v) => v,
        Err(e) => return Err(concat("CSPRNG error: ", e.as_str())),
    };
    let a = authorization_from(client_id, port, verifier_bytes.as_slice(), state_bytes.as_slice());
    assert(base64_url_nopad(verifier_bytes@) == a.code_verifier@ && hex_text(state_bytes@) == a.state@);
    Ok(a)
}

/// What the callback answers a redirect whose state does not match.
pub const BAD_STATE_REPLY: &'static str = "HTTP/1.1 400 Bad Request\r\n\r\nState mismatch";

/// What the callback answers a redirect it accepted.
pub const SUCCESS_REPLY: &'static str = "HTTP/1.1 200 OK\r\nContent-Type: text/html; charset=utf-8\r\n\r\n<html><body style='font-family:sans-serif;text-align:center;padding:40px'><h2>Authentication successful!</h2><p>You can close this tab and return to Demido Studio.</p></body></html>";

/// The view of an optional decoded parameter.
pub open spec fn decoded_param(request: Seq<char>, name: Seq<char>) -> Option<Seq<char>> {
    match query_param(request, name) {
        Some(v) => Some(lossy_text(percent_decoded(vstd::utf8::encode_utf8(v), 0))),
        None => None,
    }
}

/// The code the browser's redirect carries, once its state matches the one sent (a missing state
/// counting as empty); else why it is refused.
pub open spec fn spec_callback(request: Seq<char>, expected_state: Seq<char>) -> Result<Seq<char>, Seq<char>> {
    let returned = match decoded_param(request, "state"@) {
        Some(s) => s,
        None => Seq::empty(),
    };
    if vstd::utf8::encode_utf8(returned) != vstd::utf8::encode_utf8(expected_state) {
        Err("OAuth state mismatch \u{2014} possible CSRF attack"@)
    } else {
        match decoded_param(request, "code"@) {
            Some(c) => Ok(c),
            None => Err("No code in OAuth callback"@),
        }
    }
}

/// Read the browser's redirect to the callback: the authorization code, after checking (in
/// constant time) that the state it carries is the one sent.
pub fn oauth_callback(request: &str, expected_state: &str) -> (r: Result<String, String>)
    ensures
        match r {
            Ok(c) => spec_callback(request@, expected_state@) == Ok::<Seq<char>, Seq<char>>(c@),
            Err(e) => spec_callback(request@, expected_state@) == Err::<Seq<char>, Seq<char>>(e@),
        },
{
    proof {
        reveal_strlit("");
    }
    let returned = match extract_query_param(request, "state") {
        Some(s) => s,
        None => String::new(),
    };
    if !constant_time_eq(returned.as_str().as_bytes(), expected_state.as_bytes()) {
        return Err("OAuth state mismatch \u{2014} possible CSRF attack".to_string());
    }
    match extract_query_param(request, "code") {
        Some(c) => Ok(c),
        None => Err("No code in OAuth callback".to_string()),
    }
}

// ------------------------------------------------------------------ the account

/// What the token exchange granted.
#[derive(Debug)]
pub struct TokenGrant {
    pub access_token: String,
    pub refresh_token: Option<String>,
    /// Seconds since the epoch.
    pub token_expiry: i64,
}

/// How long a token lasts where the answer does not say.
pub const DEFAULT_EXPIRES_IN: i64 = 3600;

/// The grant in a token answer's fields: an `error` field (its text, or `unknown` where it is not
/// a string) refuses it with the description; a missing access token refuses it; the expiry is
/// `now` plus `expires_in` (an hour where absent).
pub fn token_grant(
    error: Option<Option<String>>,
    error_description: Option<String>,
    access_token: Option<String>,
    refresh_token: Option<String>,
    expires_in: Option<i64>,
    now: i64,
) -> (r: Result<TokenGrant, String>)
    requires
        error is None && access_token is Some ==> i64::MIN <= now + match expires_in {
            Some(n) => n,
            None => DEFAULT_EXPIRES_IN,
        } <= i64::MAX,
    ensures
        match error {
            Some(e) => r matches Err(m) && m@ == "OAuth error: "@ + match e {
                Some(t) => t@,
                None => "unknown"@,
            } + " \u{2014} "@ + match error_description {
                Some(d) => d@,
                None => Seq::empty(),
            },
            None => match access_token {
                None => r matches Err(m) && m@ == "Missing access_token"@,
                Some(a) => r matches Ok(g) && g.access_token@ == a@ && crate::text::opt_string(g.refresh_token)
                    == crate::text::opt_string(refresh_token) && g.token_expiry == now + match expires_in {
                    Some(n) => n,
                    None => DEFAULT_EXPIRES_IN,
                },
            },
        },
{
    proof {
        reveal_strlit("");
    }
    if let Some(e) = error {
        let what = match e {
            Some(t) => t,
            None => "unknown".to_string(),
        };
        let mut m = concat("OAuth error: ", what.as_str());
        m = concat(m.as_str(), " \u{2014} ");
        let d = match error_description {
            Some(d) => d,
            None => String::new(),
        };
        return Err(concat(m.as_str(), d.as_str()));
    }
    let access = match access_token {
        Some(a) => a,
        None => return Err("Missing access_token".to_string()),
    };
    let secs = match expires_in {
        Some(n) => n,
        None => DEFAULT_EXPIRES_IN,
    };
    Ok(TokenGrant { access_token: access, refresh_token, token_expiry: now + secs })
}

/// The services a new Google account is connected for.
pub open spec fn google_services() -> Seq<Seq<char>> {
    seq!["email"@, "calendar"@, "contacts"@]
}

/// The account a grant and a profile make: known as `google:` and the profile's subject (its email
/// where there is none), connected for mail, calendar and contacts.
pub fn google_account(
    email: Option<String>,
    name: Option<String>,
    sub: Option<String>,
    picture: Option<String>,
    grant: TokenGrant,
) -> (r: crate::db::Account)
    ensures
        ({
            let mail = match email {
                Some(e) => e@,
                None => Seq::empty(),
            };
            &&& r.email@ == mail
            &&& r.name@ == match name {
                Some(n) => n@,
                None => Seq::empty(),
            }
            &&& r.id@ == "google:"@ + match sub {
                Some(s) => s@,
                None => mail,
            }
            &&& r.provider@ == "google"@
            &&& crate::text::opt_string(r.picture) == crate::text::opt_string(picture)
            &&& r.access_token@ == grant.access_token@
            &&& crate::text::opt_string(r.refresh_token) == crate::text::opt_string(grant.refresh_token)
            &&& r.token_expiry == Some(grant.token_expiry)
            &&& r.services.deep_view() == google_services()
        }),
{
    proof {
        reveal_strlit("");
    }
    let mail = match email {
        Some(e) => e,
        None => String::new(),
    };
    let who = match name {
        Some(n) => n,
        None => String::new(),
    };
    let subject = match sub {
        Some(s) => s,
        None => mail.clone(),
    };
    let mut services: Vec<String> = Vec::new();
    services.push("email".to_string());
    services.push("calendar".to_string());
    services.push("contacts".to_string());
    assert(services.deep_view() =~= google_services());
    crate::db::Account {
        id: concat("google:", subject.as_str()),
        provider: "google".to_string(),
        email: mail,
        name: who,
        picture,
        access_token: grant.access_token,
        refresh_token: grant.refresh_token,
        token_expiry: Some(grant.token_expiry),
        services,
    }
}

/// A profile picture as a data URL, so the window needs no outside request to show it: the MIME
/// type of the answer (its content type up to any `;`, `image/jpeg` where there is none) and the
/// standard Base64 of its bytes.
pub fn avatar_data_url(content_type: Option<&str>, bytes: &[u8]) -> (r: String)
    ensures
        r@ == "data:"@ + crate::text::head_before(
            match content_type {
                Some(c) => c@,
                None => "image/jpeg"@,
            },
            seq![';'],
        ) + ";base64,"@ + base64_standard(bytes@),
{
    let ct = match content_type {
        Some(c) => c,
        None => "image/jpeg",
    };
    let cs = chars_of(ct);
    let semi = [';'];
    assert(semi@ =~= seq![';']);
    let mime = crate::text::head_before_chars(cs.as_slice(), semi.as_slice());
    let mime_text = string_of(mime.as_slice());
    let mut out = concat("data:", mime_text.as_str());
    out = concat(out.as_str(), ";base64,");
    concat(out.as_str(), encode_standard(bytes).as_str())
}

} // verus!
