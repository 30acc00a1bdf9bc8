//! The verification cookie: reading it off the cookies of a request, and
//! issuing it.

use crate::page::ValidationState;
use crate::text::{
    first_index_of, from_chars, split_chars, split_on, to_chars, trim_bounds, trimmed,
};
use vstd::prelude::*;
use vstd::string::StringSliceAdditionalSpecFns;

verus! {

/// Name of the cookie that marks a verified visitor.
pub const VALIDATION_COOKIE: &'static str = "turnstile_validated";

/// Least length of the secret that signs the cookie, in bytes.
pub const MIN_SECRET_LEN: usize = 32;

/// Seconds for which the cookie is valid: seven days.
pub const VALIDATION_MAX_AGE: i64 = 604_800;

/// The secret is too short to derive a signing key from.
#[derive(Debug, PartialEq, Eq, Clone, Copy)]
pub struct SecretTooShort;

#[verifier::external_type_specification]
#[verifier::external_body]
pub struct ExCookieJar(cookie::CookieJar);

#[verifier::external_type_specification]
#[verifier::external_body]
pub struct ExKey(cookie::Key);

/// The secret that a key was derived from.
pub uninterp spec fn key_secret(key: cookie::Key) -> Seq<char>;

/// What a jar holds for a reader with the key derived from `secret`: for
/// each name of a cookie whose signature that key verifies, the value that
/// was signed.
pub uninterp spec fn signed_contents(jar: cookie::CookieJar, secret: Seq<char>) -> Map<
    Seq<char>,
    Seq<char>,
>;

/// Derives the signing key from a secret. Trusted: calls
/// `cookie::Key::derive_from`, which panics on a secret of less than 32
/// bytes; that case is excluded here. The key depends on the secret alone.
#[verifier::external_body]
fn derive_key(secret: &str) -> (key: cookie::Key)
    requires
        secret.spec_bytes().len() >= MIN_SECRET_LEN,
    ensures
        key_secret(key) == secret@,
{
    cookie::Key::derive_from(secret.as_bytes())
}

/// No cookies.
pub open spec fn no_cookies() -> Map<Seq<char>, Seq<char>> {
    Map::empty()
}

/// A jar without cookies. Trusted: calls `cookie::CookieJar::new`; no
/// reader finds anything in the jar it returns.
#[verifier::external_body]
fn empty_jar() -> (jar: cookie::CookieJar)
    ensures
        forall|secret: Seq<char>| #[trigger] signed_contents(jar, secret) == no_cookies(),
{
    cookie::CookieJar::new()
}

/// Name and value of the cookie that a text spells, as `Cookie::parse` of
/// the `cookie` crate reads them: of the part in front of the first
/// semicolon, what stands before and behind the first equals sign, each
/// without surrounding white space. A text without equals sign there, and
/// one without a name, spells no cookie.
pub open spec fn cookie_pair(text: Seq<char>) -> Option<(Seq<char>, Seq<char>)> {
    let head = split_on(text, ';')[0];
    let k = first_index_of(head, '=');
    if 0 <= k < head.len() && trimmed(head.take(k)).len() > 0 {
        Some((trimmed(head.take(k)), trimmed(head.skip(k + 1))))
    } else {
        None
    }
}

/// Parses one cookie text and, if it spells a cookie, signs the cookie and
/// puts it into the jar. Trusted: calls `cookie::Cookie::parse` and, on
/// success, `add` on `CookieJar::signed_mut`. The cookie takes the place of
/// one of the same name; a reader with the same key then finds the value as
/// it was parsed, since a signature always verifies under the key that
/// made it. A text that does not parse leaves the jar as it is.
#[verifier::external_body]
fn add_signed(jar: &mut cookie::CookieJar, key: &cookie::Key, text: &str)
    ensures
        signed_contents(*final(jar), key_secret(*key)) == match cookie_pair(text@) {
            Some((name, value)) => signed_contents(*old(jar), key_secret(*key)).insert(name, value),
            None => signed_contents(*old(jar), key_secret(*key)),
        },
{
    if let Ok(parsed) = cookie::Cookie::parse(text.to_string()) {
        jar.signed_mut(key).add(parsed);
    }
}

/// Reads the cookie `name` and verifies its signature. Trusted: calls `get`
/// on `CookieJar::signed`, which returns the value that was signed if the
/// jar holds the cookie and the key verifies its signature.
#[verifier::external_body]
fn get_signed(jar: &cookie::CookieJar, key: &cookie::Key, name: &str) -> (value: Option<String>)
    ensures
        value.deep_view() == if signed_contents(*jar, key_secret(*key)).dom().contains(name@) {
            Some(signed_contents(*jar, key_secret(*key))[name@])
        } else {
            None
        },
{
    jar.signed(key).get(name).map(|found| found.value().to_string())
}

/// What the jar holds after the first `n` cookie texts were put into it in
/// order: the cookies that the texts spell, a later one taking the place of
/// an earlier one of the same name.
pub open spec fn jar_after(texts: Seq<Seq<char>>, n: nat) -> Map<Seq<char>, Seq<char>>
    recommends
        n <= texts.len(),
    decreases n,
{
    if n == 0 {
        no_cookies()
    } else {
        let before = jar_after(texts, (n - 1) as nat);
        match cookie_pair(texts[n - 1]) {
            Some((name, value)) => before.insert(name, value),
            None => before,
        }
    }
}

/// The value of the cookie `name` among the cookie texts: that of the last
/// text that spells a cookie of this name, if there is one.
pub open spec fn cookie_value(texts: Seq<Seq<char>>, name: Seq<char>) -> Option<Seq<char>> {
    let jar = jar_after(texts, texts.len());
    if jar.dom().contains(name) {
        Some(jar[name])
    } else {
        None
    }
}

/// Signs the cookies of a request into a jar and reads one of them back
/// with its signature verified.
pub fn read_signed_cookie(cookies: &Vec<String>, secret: &str, name: &str) -> (value: Option<
    String,
>)
    requires
        secret.spec_bytes().len() >= MIN_SECRET_LEN,
    ensures
        value.deep_view() == cookie_value(cookies.deep_view(), name@),
{
    let key = derive_key(secret);
    let mut jar = empty_jar();
    let ghost texts = cookies.deep_view();
    let mut i: usize = 0;
    while i < cookies.len()
        invariant
            i <= cookies.len(),
            texts == cookies.deep_view(),
            signed_contents(jar, key_secret(key)) == jar_after(texts, i as nat),
        decreases cookies.len() - i,
    {
        assert(texts[i as int] == cookies[i as int]@);
        add_signed(&mut jar, &key, cookies[i].as_str());
        i = i + 1;
    }
    get_signed(&jar, &key, name)
}

/// The cookie texts of a `Cookie` header: its pieces between semicolons,
/// each without surrounding white space.
pub open spec fn cookie_texts(header: Seq<char>) -> Seq<Seq<char>> {
    let pieces = split_on(header, ';');
    Seq::new(pieces.len(), |i: int| trimmed(pieces[i]))
}

/// The cookie texts of a `Cookie` header.
pub fn split_cookie_header(header: &str) -> (cookies: Vec<String>)
    ensures
        cookies.deep_view() == cookie_texts(header@),
{
    let chars = to_chars(header);
    let pieces = split_chars(&chars, ';');
    let ghost expected = cookie_texts(header@);
    let mut cookies: Vec<String> = Vec::new();
    let mut i: usize = 0;
    while i < pieces.len()
        invariant
            i <= pieces.len(),
            chars@ == header@,
            expected == cookie_texts(header@),
            pieces.len() == split_on(header@, ';').len(),
            forall|j: int| 0 <= j < pieces.len() ==> (#[trigger] pieces[j])@ == split_on(header@, ';')[j],
            cookies.len() == i,
            forall|j: int| 0 <= j < i ==> (#[trigger] cookies[j])@ == expected[j],
        decreases pieces.len() - i,
    {
        let (from, to) = trim_bounds(&pieces[i]);
        cookies.push(from_chars(&pieces[i], from, to));
        i = i + 1;
    }
    assert(cookies.deep_view() =~= expected);
    cookies
}

/// Decides whether the visitor of a request is verified.
///
/// `header` is the `Cookie` header of the request, if it has one. The
/// visitor is verified when the header holds the verification cookie; the
/// message is then the value of the cookie, of the last one where there
/// are several. Fails only on a secret that is too short.
pub fn validate_cookies(header: Option<&str>, secret: &str) -> (outcome: Result<
    ValidationState,
    SecretTooShort,
>)
    ensures
        outcome is Err <==> header is Some && secret.spec_bytes().len() < MIN_SECRET_LEN,
        outcome matches Ok(state) ==> match header {
            None => !state.is_validated && state.validation_message@ == "Cookie header not found"@,
            Some(h) => match cookie_value(cookie_texts(h@), VALIDATION_COOKIE@) {
                Some(value) => state.is_validated && state.validation_message@ == value,
                None => !state.is_validated && state.validation_message@ == "Invalid Turnstile"@,
            },
        },
{
    match header {
        None => Ok(ValidationState::from_cookie(false, None)),
        Some(h) => {
            if secret.as_bytes().len() < MIN_SECRET_LEN {
                return Err(SecretTooShort);
            }
            let cookies = split_cookie_header(h);
            let value = read_signed_cookie(&cookies, secret, VALIDATION_COOKIE);
            Ok(ValidationState::from_cookie(true, value))
        },
    }
}

/// Where a browser may send a cookie from.
#[derive(Debug, PartialEq, Eq, Clone, Copy)]
pub enum SameSite {
    Strict,
    Lax,
    Unrestricted,
}

/// The attributes of a cookie, besides its name and value.
#[derive(Debug, PartialEq, Eq, Clone, Copy)]
pub struct CookiePolicy {
    /// Seconds for which the cookie is valid.
    pub max_age_seconds: i64,
    /// Whether scripts are kept from reading the cookie.
    pub http_only: bool,
    /// Whether the cookie is sent over secure connections only.
    pub secure: bool,
    /// Where the cookie may be sent from.
    pub same_site: SameSite,
}

/// The `Set-Cookie` header texts for a cookie that is signed with the key
/// derived from `secret` and carries these attributes: what the `cookie`
/// crate writes for the jar that holds it.
pub uninterp spec fn signed_set_cookie(
    name: Seq<char>,
    value: Seq<char>,
    path: Seq<char>,
    policy: CookiePolicy,
    secret: Seq<char>,
) -> Seq<Seq<char>>;

/// Builds, signs and writes out one cookie. Trusted: builds the cookie
/// with `cookie::Cookie::build`, signs it by `add` on
/// `CookieJar::signed_mut`, and writes each cookie of `CookieJar::delta`
/// as text. All of it depends on the arguments and the key alone.
#[verifier::external_body]
fn write_signed_cookie(name: &str, value: &str, path: &str, policy: CookiePolicy, key: &cookie::Key) -> (headers:
    Vec<String>)
    ensures
        headers.deep_view() == signed_set_cookie(name@, value@, path@, policy, key_secret(*key)),
{
    let site = match policy.same_site {
        SameSite::Strict => cookie::SameSite::Strict,
        SameSite::Lax => cookie::SameSite::Lax,
        SameSite::Unrestricted => cookie::SameSite::None,
    };
    let age = cookie::time::Duration::seconds(policy.max_age_seconds);
    let pair = (name.to_string(), value.to_string());
    let builder = cookie::Cookie::build(pair).path(path.to_string()).max_age(age);
    let built = builder.http_only(policy.http_only).secure(policy.secure).same_site(site).build();
    let mut jar = cookie::CookieJar::new();
    jar.signed_mut(key).add(built);
    jar.delta().map(|c| c.to_string()).collect()
}

/// The attributes of the verification cookie: valid for seven days, kept
/// from scripts, for secure connections only, and never sent across sites.
pub open spec fn verification_policy() -> CookiePolicy {
    CookiePolicy {
        max_age_seconds: VALIDATION_MAX_AGE,
        http_only: true,
        secure: true,
        same_site: SameSite::Strict,
    }
}

/// The `Set-Cookie` header texts that mark a visitor as verified: the
/// verification cookie with the value `true`, for the whole site, for
/// seven days, for HTTP only, for secure connections only, and never sent
/// across sites. Fails only on a secret that is too short.
pub fn verification_cookies(secret: &str) -> (headers: Result<Vec<String>, SecretTooShort>)
    ensures
        headers is Err <==> secret.spec_bytes().len() < MIN_SECRET_LEN,
        headers matches Ok(texts) ==> texts.deep_view() == signed_set_cookie(
            VALIDATION_COOKIE@,
            "true"@,
            "/"@,
            verification_policy(),
            secret@,
        ),
{
    if secret.as_bytes().len() < MIN_SECRET_LEN {
        return Err(SecretTooShort);
    }
    let policy = CookiePolicy {
        max_age_seconds: VALIDATION_MAX_AGE,
        http_only: true,
        secure: true,
        same_site: SameSite::Strict,
    };
    let key = derive_key(secret);
    Ok(write_signed_cookie(VALIDATION_COOKIE, "true", "/", policy, &key))
}

} // verus!
