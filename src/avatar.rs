//! Avatar resolution: the cache key of an email, the order in which avatar
//! services are tried, and the answer handed back as a data URL.
use vstd::prelude::*;
use crate::refs::opt_view;
use crate::text::{contains, contains_seq, trim, trim_spec, views};

verus! {

/// The MD5 digest of the UTF-8 bytes of a text, in lowercase hexadecimal.
pub uninterp spec fn md5_hex(s: Seq<char>) -> Seq<char>;

/// The character of the standard base64 alphabet for a six-bit value.
pub open spec fn base64_digit(v: int) -> char {
    "ABCDEFGHIJKLMNOPQRSTUVWXYZabcdefghijklmnopqrstuvwxyz0123456789+/"@[v]
}

/// The standard, padded base64 encoding of some bytes: each group of three
/// bytes becomes four characters of six bits each, and a final group of one
/// or two bytes is padded with `=` to four characters.
pub open spec fn base64_of(b: Seq<u8>) -> Seq<char>
    decreases b.len(),
{
    if b.len() == 0 {
        Seq::empty()
    } else if b.len() == 1 {
        let x = b[0] as int;
        seq![base64_digit(x / 4), base64_digit((x % 4) * 16), '=', '=']
    } else if b.len() == 2 {
        let x = b[0] as int;
        let y = b[1] as int;
        seq![base64_digit(x / 4), base64_digit((x % 4) * 16 + y / 16), base64_digit((y % 16) * 4), '=']
    } else {
        let x = b[0] as int;
        let y = b[1] as int;
        let z = b[2] as int;
        seq![
            base64_digit(x / 4),
            base64_digit((x % 4) * 16 + y / 16),
            base64_digit((y % 16) * 4 + z / 64),
            base64_digit(z % 64),
        ] + base64_of(b.subrange(3, b.len() as int))
    }
}

/// A text with every character mapped to lowercase.
pub uninterp spec fn lower_of(s: Seq<char>) -> Seq<char>;

/// Relies on md5::compute and the `LowerHex` formatting of its digest, which
/// writes each of the sixteen bytes as two lowercase hex digits.
#[verifier::external_body]
fn md5_hex_digest(s: &str) -> (r: String)
    ensures
        r@ == md5_hex(s@),
        r@.len() == 32,
{
    format!("{:x}", md5::compute(s))
}

/// Relies on base64's `general_purpose::STANDARD` engine and `Engine::encode`:
/// the standard alphabet, with padding.
#[verifier::external_body]
fn base64_standard(bytes: &Vec<u8>) -> (r: String)
    ensures
        r@ == base64_of(bytes@),
{
    base64::Engine::encode(&base64::engine::general_purpose::STANDARD, bytes)
}

/// Relies on str::to_lowercase; the result depends on the characters alone.
#[verifier::external_body]
fn to_lowercase(s: &str) -> (r: String)
    ensures
        r@ == lower_of(s@),
        s@.len() == 0 ==> r@.len() == 0,
{
    s.to_lowercase()
}

/// The form of an email that the cache key is taken from: trimmed, then
/// lowercased.
pub open spec fn normalized_email(email: Seq<char>) -> Seq<char> {
    lower_of(trim_spec(email))
}

pub fn normalize_email(email: &str) -> (r: String)
    ensures
        r@ == normalized_email(email@),
{
    let t = trim(email);
    to_lowercase(t.as_str())
}

/// The cache key of an email: the MD5 digest of its normalized form.
pub fn avatar_hash(email: &str) -> (r: String)
    ensures
        r@ == md5_hex(normalized_email(email@)),
        r@.len() == 32,
{
    let e = normalize_email(email);
    md5_hex_digest(e.as_str())
}

/// The file name under which the avatar with cache key `hash` is kept.
pub fn cache_file_name(hash: &str) -> (r: String)
    ensures
        r@ == hash@ + ".png"@,
{
    let mut r = String::from_str(hash);
    r.append(".png");
    r
}

/// The data URL of a PNG image whose base64 encoding is `encoded`.
pub fn data_url_from_encoded(encoded: &str) -> (r: String)
    ensures
        r@ == "data:image/png;base64,"@ + encoded@,
{
    let mut r = String::from_str("data:image/png;base64,");
    r.append(encoded);
    r
}

/// The data URL of a PNG image.
pub fn data_url(bytes: &Vec<u8>) -> (r: String)
    ensures
        r@ == "data:image/png;base64,"@ + base64_of(bytes@),
{
    let encoded = base64_standard(bytes);
    data_url_from_encoded(encoded.as_str())
}

/// On a cache hit the answer is the cached image and nothing is fetched; on
/// a miss there is no answer yet.
pub fn avatar_from_cache(cached: &Option<Vec<u8>>) -> (r: Option<String>)
    ensures
        r is Some <==> cached is Some,
        cached matches Some(b) ==> r.unwrap()@ == "data:image/png;base64,"@ + base64_of(b@),
{
    match cached {
        Some(b) => Some(data_url(b)),
        None => None,
    }
}

/// Whether the output of `git remote -v` names a GitHub remote.
pub fn mentions_github(remote_info: &str) -> (r: bool)
    ensures
        r == contains_seq(remote_info@, "github.com"@),
{
    contains(remote_info, "github.com")
}

pub open spec fn github_avatar_url(user: Seq<char>) -> Seq<char> {
    "https://unavatar.io/github/"@ + user + "?fallback=false"@
}

pub open spec fn email_avatar_url(email: Seq<char>) -> Seq<char> {
    "https://unavatar.io/"@ + email + "?fallback=false"@
}

pub open spec fn identicon_url(hash: Seq<char>) -> Seq<char> {
    "https://www.gravatar.com/avatar/"@ + hash + "?d=identicon&s=128"@
}

/// Whether a display name can stand for a username: not empty, no space.
pub open spec fn looks_like_username(name: Seq<char>) -> bool {
    name.len() > 0 && !name.contains(' ')
}

/// The URLs to try, in order. For a GitHub repository: the user that the
/// GitHub CLI reports, if any, then the name when it looks like a username,
/// then the email; always last the identicon of the cache key.
pub open spec fn avatar_candidates(
    on_github: bool,
    cli_user: Option<Seq<char>>,
    name: Seq<char>,
    email: Seq<char>,
    hash: Seq<char>,
) -> Seq<Seq<char>> {
    let by_user: Seq<Seq<char>> = match cli_user {
        Some(u) => seq![github_avatar_url(u)],
        None => Seq::empty(),
    };
    let by_name: Seq<Seq<char>> = if looks_like_username(trim_spec(name)) {
        seq![github_avatar_url(trim_spec(name))]
    } else {
        Seq::empty()
    };
    let hosted: Seq<Seq<char>> = if on_github {
        by_user + by_name + seq![email_avatar_url(email)]
    } else {
        Seq::empty()
    };
    hosted.push(identicon_url(hash))
}

fn wrap_url(front: &str, middle: &str, back: &str) -> (r: String)
    ensures
        r@ == front@ + middle@ + back@,
{
    let mut r = String::from_str(front);
    r.append(middle);
    r.append(back);
    r
}

fn has_space(s: &str) -> (r: bool)
    ensures
        r == s@.contains(' '),
{
    let n = s.unicode_len();
    let mut i: usize = 0;
    while i < n && s.get_char(i) != ' '
        invariant
            n == s@.len(),
            i <= n,
            forall|k: int| 0 <= k < i ==> s@[k] != ' ',
        decreases n - i,
    {
        i += 1;
    }
    if i < n {
        assert(s@[i as int] == ' ');
        true
    } else {
        false
    }
}

/// `email` is the normalized email and `hash` its cache key.
pub fn avatar_urls(on_github: bool, cli_user: &Option<String>, name: &str, email: &str, hash: &str) -> (r: Vec<String>)
    ensures
        views(r@) == avatar_candidates(
            on_github,
            opt_view(*cli_user),
            name@,
            email@,
            hash@,
        ),
{
    let mut r: Vec<String> = Vec::new();
    let user_name = trim(name);
    let ghost cu = opt_view(*cli_user);
    let ghost by_user: Seq<Seq<char>> = match cu {
        Some(u) => seq![github_avatar_url(u)],
        None => Seq::empty(),
    };
    let ghost by_name: Seq<Seq<char>> = if looks_like_username(trim_spec(name@)) {
        seq![github_avatar_url(trim_spec(name@))]
    } else {
        Seq::empty()
    };
    if on_github {
        match cli_user {
            Some(u) => {
                r.push(wrap_url("https://unavatar.io/github/", u.as_str(), "?fallback=false"));
            },
            None => {},
        }
        assert(views(r@) =~= by_user);
        let ghost r1 = r@;
        if user_name.as_str().unicode_len() > 0 && !has_space(user_name.as_str()) {
            r.push(wrap_url("https://unavatar.io/github/", user_name.as_str(), "?fallback=false"));
            assert(views(r@) =~= views(r1).push(github_avatar_url(user_name@)));
        } else {
            assert(views(r@) =~= views(r1));
        }
        assert(views(r@) =~= by_user + by_name);
        let ghost r2 = r@;
        r.push(wrap_url("https://unavatar.io/", email, "?fallback=false"));
        assert(views(r@) =~= views(r2).push(email_avatar_url(email@)));
        assert(views(r@) =~= by_user + by_name + seq![email_avatar_url(email@)]);
    } else {
        assert(views(r@) =~= Seq::<Seq<char>>::empty());
    }
    let ghost r3 = r@;
    r.push(wrap_url("https://www.gravatar.com/avatar/", hash, "?d=identicon&s=128"));
    assert(views(r@) =~= views(r3).push(identicon_url(hash@)));
    assert(views(r@) =~= avatar_candidates(on_github, cu, name@, email@, hash@));
    r
}

/// What to do after a candidate URL was fetched.
pub enum AvatarNext {
    /// Store these bytes in the cache and answer with the data URL.
    Save(Vec<u8>, String),
    /// Fetch the candidate at this position.
    Fetch(usize),
    /// Every candidate failed.
    Fail(String),
}

/// Whether a fetch brought an image: it succeeded with a body that is not
/// empty.
pub open spec fn accepted(response: Option<Vec<u8>>) -> bool {
    response matches Some(b) && b@.len() > 0
}

/// A fetch of one of the hosted candidates counts when it succeeded with a
/// body that is not empty; else the next candidate is tried. The last
/// candidate, the identicon fallback, counts whenever it succeeded; when it
/// failed the resolution fails.
pub fn after_avatar_fetch(attempt: usize, n_candidates: usize, response: Option<Vec<u8>>) -> (r: AvatarNext)
    requires
        attempt < n_candidates,
    ensures
        attempt + 1 < n_candidates && accepted(response) ==> (r matches AvatarNext::Save(c, u)
            && c@ == response.unwrap()@ && u@ == "data:image/png;base64,"@ + base64_of(response.unwrap()@)),
        attempt + 1 < n_candidates && !accepted(response) ==> (r matches AvatarNext::Fetch(k) && k == attempt + 1),
        attempt + 1 == n_candidates && response is Some ==> (r matches AvatarNext::Save(c, u)
            && c@ == response.unwrap()@ && u@ == "data:image/png;base64,"@ + base64_of(response.unwrap()@)),
        attempt + 1 == n_candidates && response is None ==> (r matches AvatarNext::Fail(m)
            && m@ == "Failed to fetch avatar"@),
{
    let last = attempt + 1 == n_candidates;
    match response {
        Some(b) => {
            if last || b.len() > 0 {
                let u = data_url(&b);
                return AvatarNext::Save(b, u);
            }
        },
        None => {},
    }
    if !last {
        AvatarNext::Fetch(attempt + 1)
    } else {
        AvatarNext::Fail(String::from_str("Failed to fetch avatar"))
    }
}

} // verus!
