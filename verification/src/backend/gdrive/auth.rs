//! Authorization for Google Drive: the OAuth2 flow of an installed app, and service accounts.
//!
//! The tokens of the OAuth2 flow are kept in a file for each account, and are refreshed where
//! they have expired. The tokens of a service account are not kept: a fresh assertion is
//! signed on every mount, and whenever the access token has expired.

use vstd::prelude::*;

use crate::backend::gdrive::client::{pairs, Text};
use crate::clock::now_secs;
use crate::json::{json_member, json_string, quote, string_member};
use crate::number::{decimal, to_decimal};
use crate::path::{join, joined, lemma_joined_injective};
use crate::text::{after, cat2, cat3, contains_text, cut, holds, law_cut_parts, law_holds};
use crate::text::{law_prefix_and_rest, opt_string, opt_text, pieces, same, split, split_once};
use crate::text::{split_words, starts, strip_prefix, views, words};

verus! {

// ---------------------------------------------------------------------------
// Credentials
// ---------------------------------------------------------------------------

/// A `credentials.json` file for an installed app, from the Google Cloud Console.
pub struct CredentialsFile {
    pub installed: OAuthClient,
}

pub struct OAuthClient {
    pub client_id: String,
    pub client_secret: String,
    pub auth_uri: String,
    pub token_uri: String,
}

/// The key file of a service account, from the Google Cloud Console.
pub struct ServiceAccountKey {
    pub client_email: String,
    pub private_key: String,
    pub token_uri: String,
}

/// What is known before the connection is made: data only, no threads.
pub enum PreAuth {
    OAuth2(Token),
    ServiceAccount(ServiceAccountKey),
}

/// What can go wrong with an authorization.
#[derive(Clone, Copy, Debug, PartialEq, Eq, Structural)]
pub enum AuthError {
    /// There is no refresh token; the user has to authorize again.
    NoRefreshToken,
    /// The address of the authorization server is no URL.
    BadAuthUri,
    /// The private key is none, or the assertion could not be signed.
    BadKey,
    /// The redirect is no HTTP request.
    MalformedRedirect,
    /// The user refused.
    Denied,
    /// The redirect carries no authorization code.
    NoCode,
}

/// Tells whether a JSON text is the key file of a service account.
pub fn is_service_account(text: &str) -> (r: bool)
    ensures
        r == (json_member(text@, "type"@) == Some("service_account"@)),
{
    match string_member(text, "type") {
        Some(t) => is_service_account_type(Some(t.as_str())),
        None => is_service_account_type(None),
    }
}

/// Tells whether the type that a key file states is that of a service account.
pub fn is_service_account_type(stated: Option<&str>) -> (r: bool)
    ensures
        r == (opt_text(stated) == Some("service_account"@)),
{
    match stated {
        Some(t) => same(t, "service_account"),
        None => false,
    }
}

// ---------------------------------------------------------------------------
// Tokens
// ---------------------------------------------------------------------------

/// An access token, and what it takes to renew it.
pub struct Token {
    pub access_token: String,
    pub refresh_token: Option<String>,
    /// When the access token expires, in seconds after the Unix epoch.
    pub expires_at: u64,
    pub token_uri: String,
    pub client_id: String,
    pub client_secret: String,
    /// The account's email address, by which the token file is named; empty where it is not
    /// known.
    pub email: String,
}

/// What contracts say of a token.
pub struct TokenModel {
    pub access_token: Text,
    pub refresh_token: Option<Text>,
    pub expires_at: u64,
    pub token_uri: Text,
    pub client_id: Text,
    pub client_secret: Text,
    pub email: Text,
}

impl View for Token {
    type V = TokenModel;

    open spec fn view(&self) -> TokenModel {
        TokenModel {
            access_token: self.access_token@,
            refresh_token: opt_string(self.refresh_token),
            expires_at: self.expires_at,
            token_uri: self.token_uri@,
            client_id: self.client_id@,
            client_secret: self.client_secret@,
            email: self.email@,
        }
    }
}

/// What the token server answers.
pub struct TokenResponse {
    pub access_token: String,
    pub refresh_token: Option<String>,
    /// How long the access token is good, in seconds; an hour where it is missing.
    pub expires_in: Option<u64>,
}

/// An access token counts as expired from 60 seconds before it expires.
pub open spec fn expired(now: u64, expires_at: u64) -> bool {
    now + 60 >= expires_at
}

/// How long the token of an answer is good.
pub open spec fn lifetime(r: TokenResponse) -> u64 {
    match r.expires_in {
        Some(n) => n,
        None => 3600,
    }
}

/// When the token of an answer expires can be counted.
pub open spec fn countable_expiry(r: TokenResponse, now: u64) -> bool {
    now + lifetime(r) <= u64::MAX
}

impl TokenResponse {
    /// Tells whether the token's expiry can be counted.
    pub fn has_countable_expiry(&self, now: u64) -> (r: bool)
        ensures
            r == countable_expiry(*self, now),
    {
        match self.expires_in {
            Some(n) => n <= u64::MAX - now,
            None => 3600 <= u64::MAX - now,
        }
    }

    /// When the token of an answer at `now` expires.
    fn expires_at(&self, now: u64) -> (t: u64)
        requires
            countable_expiry(*self, now),
        ensures
            t == now + lifetime(*self),
    {
        match self.expires_in {
            Some(n) => now + n,
            None => now + 3600,
        }
    }
}

impl Token {
    /// Tells whether the access token counts as expired at `now`.
    pub fn is_expired_at(&self, now: u64) -> (r: bool)
        ensures
            r == expired(now, self.expires_at),
    {
        self.expires_at <= 60 || now >= self.expires_at - 60
    }

    /// Tells whether the access token counts as expired now.
    pub fn is_expired(&self) -> (r: bool)
        ensures
            exists|now: u64| #[trigger]
                call_ensures(now_secs, (), now) && r == expired(now, self.expires_at),
    {
        let now = now_secs();
        self.is_expired_at(now)
    }

    /// The form that asks for a new access token.
    pub fn refresh_form(&self) -> (r: Result<Vec<(String, String)>, AuthError>)
        ensures
            match (r, self@.refresh_token) {
                (Ok(f), Some(t)) => pairs(f@) == seq![
                    ("client_id"@, self.client_id@),
                    ("client_secret"@, self.client_secret@),
                    ("refresh_token"@, t),
                    ("grant_type"@, "refresh_token"@),
                ],
                (Err(e), None) => e == AuthError::NoRefreshToken,
                _ => false,
            },
    {
        match &self.refresh_token {
            Some(t) => {
                let mut f: Vec<(String, String)> = Vec::new();
                f.push(("client_id".to_owned(), self.client_id.clone()));
                f.push(("client_secret".to_owned(), self.client_secret.clone()));
                f.push(("refresh_token".to_owned(), t.clone()));
                f.push(("grant_type".to_owned(), "refresh_token".to_owned()));
                assert(pairs(f@) =~= seq![
                    ("client_id"@, self.client_id@),
                    ("client_secret"@, self.client_secret@),
                    ("refresh_token"@, t@),
                    ("grant_type"@, "refresh_token"@),
                ]);
                Ok(f)
            },
            None => Err(AuthError::NoRefreshToken),
        }
    }

    /// Takes the answer to a refresh at `now` in. The refresh token stays where the answer
    /// brings none.
    pub fn refresh(&mut self, response: TokenResponse, now: u64)
        requires
            countable_expiry(response, now),
        ensures
            final(self)@ == (TokenModel {
                access_token: response.access_token@,
                refresh_token: match opt_string(response.refresh_token) {
                    Some(t) => Some(t),
                    None => old(self)@.refresh_token,
                },
                expires_at: (now + lifetime(response)) as u64,
                ..old(self)@
            }),
    {
        self.expires_at = response.expires_at(now);
        self.access_token = response.access_token;
        match response.refresh_token {
            Some(t) => {
                self.refresh_token = Some(t);
            },
            None => {},
        }
    }

    /// Takes the renewed token of a service account in.
    pub fn renew(&mut self, fresh: Token)
        ensures
            final(self)@ == (TokenModel {
                access_token: fresh@.access_token,
                expires_at: fresh@.expires_at,
                ..old(self)@
            }),
    {
        self.access_token = fresh.access_token;
        self.expires_at = fresh.expires_at;
    }

    /// Sets the account's email address. Returns whether the token has to be saved: where the
    /// address changed, unless it is a service account's.
    pub fn set_email(&mut self, email: &str, service_account: bool) -> (save: bool)
        ensures
            final(self)@ == (TokenModel { email: email@, ..old(self)@ }),
            save == (old(self)@.email != email@ && !service_account),
    {
        if same(self.email.as_str(), email) {
            false
        } else {
            self.email = email.to_owned();
            !service_account
        }
    }
}

// ---------------------------------------------------------------------------
// Service accounts
// ---------------------------------------------------------------------------

/// The scope that is asked for.
pub open spec fn drive_scope() -> Text {
    "https://www.googleapis.com/auth/drive"@
}

/// The claims of a service account at `now`: it asks for the scope for an hour.
pub open spec fn claims(email: Text, token_uri: Text, now: u64) -> Text {
    "{\"iss\":"@ + json_string(email) + ",\"scope\":"@ + json_string(drive_scope()) + ",\"aud\":"@
        + json_string(token_uri) + ",\"iat\":"@ + decimal(now as int) + ",\"exp\":"@ + decimal(
        now + 3600,
    ) + "}"@
}

#[verifier::external_type_specification]
#[verifier::external_body]
pub struct ExJwtError(jsonwebtoken::errors::Error);

/// The JSON Web Token that `jsonwebtoken::encode` makes of a JSON text of claims with an RSA
/// key in PEM, by the algorithm RS256; none where it cannot sign them with that key.
pub uninterp spec fn rs256_token(claims: Text, private_key: Text) -> Option<Text>;

/// The longest text of a private key that is read, in characters. The largest RSA key that can
/// sign, one of 4096 bits, takes fewer than 3400.
pub const MAX_KEY_CHARS: usize = 0x1000;

/// `jsonwebtoken::encode`, with the header of RS256 and the key that
/// `jsonwebtoken::EncodingKey::from_rsa_pem` reads: the token, or that there is none, is a
/// function of the claims, which are taken as they stand, and the key. Signatures by RS256 are
/// made without random numbers. Which keys and claims can be signed is not stated beyond the
/// name. The key's reader calls itself for every sequence in a sequence, so the length of the
/// key is bounded: in a text of that length they nest fewer than 900 deep, for which a stack of
/// 8 MiB has room.
#[verifier::external_body]
fn encode_rs256(claims: &str, private_key: &str) -> (r: Result<
    String,
    jsonwebtoken::errors::Error,
>)
    requires
        private_key@.len() <= MAX_KEY_CHARS,
    ensures
        match r {
            Ok(t) => rs256_token(claims@, private_key@) == Some(t@),
            Err(_) => rs256_token(claims@, private_key@) is None,
        },
{
    let claims: Box<serde_json::value::RawValue> = serde_json::from_str(claims)?;
    let key = jsonwebtoken::EncodingKey::from_rsa_pem(private_key.as_bytes())?;
    jsonwebtoken::encode(
        &jsonwebtoken::Header::new(jsonwebtoken::Algorithm::RS256),
        &claims,
        &key,
    )
}

/// The claims that a service account signs at `now`.
pub fn service_account_claims(key: &ServiceAccountKey, now: u64) -> (c: String)
    requires
        now + 3600 <= u64::MAX,
    ensures
        c@ == claims(key.client_email@, key.token_uri@, now),
{
    "{\"iss\":".to_owned().concat(quote(key.client_email.as_str()).as_str()).concat(
        ",\"scope\":",
    ).concat(quote("https://www.googleapis.com/auth/drive").as_str()).concat(",\"aud\":").concat(
        quote(key.token_uri.as_str()).as_str(),
    ).concat(",\"iat\":").concat(to_decimal(now).as_str()).concat(",\"exp\":").concat(
        to_decimal(now + 3600).as_str(),
    ).concat("}")
}

/// Signs the assertion of a service account at `now`.
pub fn make_service_account_jwt(key: &ServiceAccountKey, now: u64) -> (r: Result<String, AuthError>)
    requires
        now + 3600 <= u64::MAX,
        key.private_key@.len() <= MAX_KEY_CHARS,
    ensures
        match (
            r,
            rs256_token(claims(key.client_email@, key.token_uri@, now), key.private_key@),
        ) {
            (Ok(t), Some(u)) => t@ == u,
            (Err(e), None) => e == AuthError::BadKey,
            _ => false,
        },
{
    let claims = service_account_claims(key, now);
    match encode_rs256(claims.as_str(), key.private_key.as_str()) {
        Ok(t) => Ok(t),
        Err(_) => Err(AuthError::BadKey),
    }
}

/// The form that asks for the access token of a service account.
pub fn assertion_form(jwt: &str) -> (f: Vec<(String, String)>)
    ensures
        pairs(f@) == seq![
            ("grant_type"@, "urn:ietf:params:oauth:grant-type:jwt-bearer"@),
            ("assertion"@, jwt@),
        ],
{
    let mut f: Vec<(String, String)> = Vec::new();
    f.push(
        ("grant_type".to_owned(), "urn:ietf:params:oauth:grant-type:jwt-bearer".to_owned()),
    );
    f.push(("assertion".to_owned(), jwt.to_owned()));
    assert(pairs(f@) =~= seq![
        ("grant_type"@, "urn:ietf:params:oauth:grant-type:jwt-bearer"@),
        ("assertion"@, jwt@),
    ]);
    f
}

/// The token of a service account, from an answer at `now`.
pub fn service_account_token(key: &ServiceAccountKey, response: TokenResponse, now: u64) -> (t:
    Token)
    requires
        countable_expiry(response, now),
    ensures
        t@ == (TokenModel {
            access_token: response.access_token@,
            refresh_token: None,
            expires_at: (now + lifetime(response)) as u64,
            token_uri: key.token_uri@,
            client_id: Seq::empty(),
            client_secret: Seq::empty(),
            email: key.client_email@,
        }),
{
    let t = Token {
        expires_at: response.expires_at(now),
        access_token: response.access_token,
        refresh_token: None,
        token_uri: key.token_uri.clone(),
        client_id: String::new(),
        client_secret: String::new(),
        email: key.client_email.clone(),
    };
    assert(t.client_id@ =~= Seq::<char>::empty());
    assert(t.client_secret@ =~= Seq::<char>::empty());
    t
}

// ---------------------------------------------------------------------------
// What to do about a token
// ---------------------------------------------------------------------------

/// What to do about the access token of a connection.
#[derive(Clone, Copy, Debug, PartialEq, Eq, Structural)]
pub enum TokenAction {
    /// It is good.
    Use,
    /// A fresh assertion is to be signed.
    Sign,
    /// The refresh token is to be exchanged, and the token saved.
    Refresh,
}

/// Decides what to do about an access token: one that has expired is renewed, by signing
/// for a service account, else by the refresh token.
pub fn token_action(expired: bool, service_account: bool) -> (a: TokenAction)
    ensures
        a == (if !expired {
            TokenAction::Use
        } else if service_account {
            TokenAction::Sign
        } else {
            TokenAction::Refresh
        }),
{
    if !expired {
        TokenAction::Use
    } else if service_account {
        TokenAction::Sign
    } else {
        TokenAction::Refresh
    }
}

/// What to do about a stored token.
#[derive(Clone, Copy, Debug, PartialEq, Eq, Structural)]
pub enum StoredAction {
    /// Use it.
    Use,
    /// Refresh it.
    Refresh,
    /// Save it and use it.
    SaveAndUse,
    /// Have the user authorize in the browser.
    Authorize,
}

/// Decides what to do about a stored token, if there is one that can be read: one that has
/// expired is refreshed. `refreshed` says how the refresh went, once it was tried; where it
/// failed, the user authorizes again.
pub fn load_or_authorize(expired: Option<bool>, refreshed: Option<bool>) -> (a: StoredAction)
    ensures
        a == (match (expired, refreshed) {
            (None, _) => StoredAction::Authorize,
            (Some(false), _) => StoredAction::Use,
            (Some(true), None) => StoredAction::Refresh,
            (Some(true), Some(true)) => StoredAction::SaveAndUse,
            (Some(true), Some(false)) => StoredAction::Authorize,
        }),
{
    match (expired, refreshed) {
        (None, _) => StoredAction::Authorize,
        (Some(false), _) => StoredAction::Use,
        (Some(true), None) => StoredAction::Refresh,
        (Some(true), Some(true)) => StoredAction::SaveAndUse,
        (Some(true), Some(false)) => StoredAction::Authorize,
    }
}

/// What is said where the account is another than the one that was asked for.
pub open spec fn mismatch_text(expected: Text, actual: Text) -> Text {
    "expected account "@ + expected + " but authenticated as "@ + actual
        + "\nDelete ~/.config/remotefs/"@ + token_name(expected) + " to re-authorize"@
}

/// Checks that the account is the one that was asked for. Returns what to say where it is
/// not.
pub fn check_account(expected: &str, actual: &str) -> (r: Option<String>)
    ensures
        match r {
            Some(m) => expected@ != actual@ && m@ == mismatch_text(expected@, actual@),
            None => expected@ == actual@,
        },
{
    if same(expected, actual) {
        return None;
    }
    Some(
        "expected account ".to_owned().concat(expected).concat(" but authenticated as ").concat(
            actual,
        ).concat("\nDelete ~/.config/remotefs/").concat(token_file_name(expected).as_str()).concat(
            " to re-authorize",
        ),
    )
}

// ---------------------------------------------------------------------------
// The browser flow
// ---------------------------------------------------------------------------

#[verifier::external_type_specification]
#[verifier::external_body]
pub struct ExUrlError(url::ParseError);

/// The URL that `url::Url` makes of an address and further query parameters; none where the
/// address is no absolute URL.
pub uninterp spec fn url_with_query(uri: Text, query: Seq<(Text, Text)>) -> Option<Text>;

/// The longest text that goes into a URL, in characters. A URL has to take fewer than 2^32
/// bytes: a character of the address takes fewer than 200, one of a parameter at most 12.
pub const MAX_URL_CHARS: usize = 0x10_0000;

/// The most parameters that are appended to a URL.
pub const MAX_URL_PARAMS: usize = 16;

/// Parameters that a URL has room for.
pub open spec fn fits_url(query: Seq<(Text, Text)>) -> bool {
    &&& query.len() <= MAX_URL_PARAMS
    &&& forall|i: int|
        0 <= i < query.len() ==> (#[trigger] query[i]).0.len() <= MAX_URL_CHARS
            && query[i].1.len() <= MAX_URL_CHARS
}

/// `url::Url::parse`, then `query_pairs_mut` and `extend_pairs`: the address with the
/// parameters appended to its query, a function of the two; an error where the address cannot
/// be read. How parameters are encoded is not stated beyond the name. It panics where the URL
/// grows past what 32 bits can count, so the lengths are bounded.
#[verifier::external_body]
fn extend_query(uri: &str, query: &Vec<(String, String)>) -> (r: Result<String, url::ParseError>)
    requires
        uri@.len() <= MAX_URL_CHARS,
        fits_url(pairs(query@)),
    ensures
        match r {
            Ok(u) => url_with_query(uri@, pairs(query@)) == Some(u@),
            Err(_) => url_with_query(uri@, pairs(query@)) is None,
        },
{
    let mut u = url::Url::parse(uri)?;
    u.query_pairs_mut().extend_pairs(query);
    Ok(u.to_string())
}

/// What the authorization server is asked.
pub open spec fn auth_query(client_id: Text, redirect_uri: Text) -> Seq<(Text, Text)> {
    seq![
        ("client_id"@, client_id),
        ("redirect_uri"@, redirect_uri),
        ("response_type"@, "code"@),
        ("scope"@, drive_scope()),
        ("access_type"@, "offline"@),
        ("prompt"@, "consent"@),
    ]
}

/// The parameters of the page where the user authorizes.
pub fn auth_params(client_id: &str, redirect_uri: &str) -> (q: Vec<(String, String)>)
    ensures
        pairs(q@) == auth_query(client_id@, redirect_uri@),
{
    let mut q: Vec<(String, String)> = Vec::new();
    q.push(("client_id".to_owned(), client_id.to_owned()));
    q.push(("redirect_uri".to_owned(), redirect_uri.to_owned()));
    q.push(("response_type".to_owned(), "code".to_owned()));
    q.push(("scope".to_owned(), "https://www.googleapis.com/auth/drive".to_owned()));
    q.push(("access_type".to_owned(), "offline".to_owned()));
    q.push(("prompt".to_owned(), "consent".to_owned()));
    assert(pairs(q@) =~= auth_query(client_id@, redirect_uri@));
    q
}

/// The address of the page where the user authorizes.
pub fn build_auth_url(auth_uri: &str, client_id: &str, redirect_uri: &str) -> (r: Result<
    String,
    AuthError,
>)
    requires
        auth_uri@.len() <= MAX_URL_CHARS,
        client_id@.len() <= MAX_URL_CHARS,
        redirect_uri@.len() <= MAX_URL_CHARS,
    ensures
        match (r, url_with_query(auth_uri@, auth_query(client_id@, redirect_uri@))) {
            (Ok(u), Some(t)) => u@ == t,
            (Err(e), None) => e == AuthError::BadAuthUri,
            _ => false,
        },
{
    let q = auth_params(client_id, redirect_uri);
    proof {
        reveal_strlit("client_id");
        reveal_strlit("redirect_uri");
        reveal_strlit("response_type");
        reveal_strlit("code");
        reveal_strlit("scope");
        reveal_strlit("https://www.googleapis.com/auth/drive");
        reveal_strlit("access_type");
        reveal_strlit("offline");
        reveal_strlit("prompt");
        reveal_strlit("consent");
    }
    assert(fits_url(auth_query(client_id@, redirect_uri@)));
    match extend_query(auth_uri, &q) {
        Ok(u) => Ok(u),
        Err(_) => Err(AuthError::BadAuthUri),
    }
}

/// Where the browser is redirected to.
pub fn redirect_uri(port: u16) -> (r: String)
    ensures
        r@ == "http://localhost:"@ + decimal(port as int),
{
    cat2("http://localhost:", to_decimal(port as u64).as_str())
}

/// The first parameter that starts with `code=`, without that.
pub open spec fn first_code(params: Seq<Text>) -> Option<Text>
    decreases params.len(),
{
    if params.len() == 0 {
        None
    } else {
        match after(params[0], "code="@) {
            Some(c) => Some(c),
            None => first_code(params.drop_first()),
        }
    }
}

/// The query of a path.
pub open spec fn query_of(path: Text) -> Text {
    match cut(path, '?') {
        Some((_, q)) => q,
        None => Seq::empty(),
    }
}

/// What the first line of a redirect says: the authorization code in the query of its path.
pub open spec fn redirect_code(line: Text) -> Result<Text, AuthError> {
    if words(line).len() < 2 {
        Err(AuthError::MalformedRedirect)
    } else {
        let path = words(line)[1];
        match first_code(pieces(query_of(path), '&')) {
            Some(c) => Ok(c),
            None => if holds(path, "error=access_denied"@) {
                Err(AuthError::Denied)
            } else {
                Err(AuthError::NoCode)
            },
        }
    }
}

/// Reads the authorization code out of the first line of a redirect.
pub fn extract_code(line: &str) -> (r: Result<String, AuthError>)
    ensures
        match (r, redirect_code(line@)) {
            (Ok(c), Ok(t)) => c@ == t,
            (Err(e), Err(f)) => e == f,
            _ => false,
        },
{
    let all = split_words(line);
    assert(views(all@).len() == all@.len());
    if all.len() < 2 {
        return Err(AuthError::MalformedRedirect);
    }
    let path = all[1].as_str();
    assert(views(all@)[1] == path@);
    let query = match split_once(path, '?') {
        Some((_, q)) => q,
        None => String::new(),
    };
    assert(cut(path@, '?') is None ==> query@ =~= Seq::<char>::empty());
    let params = split(query.as_str(), '&');
    let ghost p = views(params@);
    let mut i: usize = 0;
    assert(p.skip(0) =~= p);
    while i < params.len()
        invariant
            p == views(params@),
            i <= params@.len(),
            words(line@).len() >= 2,
            path@ == words(line@)[1],
            p == pieces(query_of(path@), '&'),
            first_code(p) == first_code(p.skip(i as int)),
        decreases params@.len() - i,
    {
        let ghost rest = p.skip(i as int);
        assert(rest[0] == params@[i as int]@);
        match strip_prefix(params[i].as_str(), "code=") {
            Some(c) => {
                return Ok(c);
            },
            None => {},
        }
        assert(rest.drop_first() =~= p.skip(i + 1));
        i = i + 1;
    }
    assert(p.skip(i as int).len() == 0);
    if contains_text(path, "error=access_denied") {
        Err(AuthError::Denied)
    } else {
        Err(AuthError::NoCode)
    }
}

/// The form that exchanges an authorization code for a token.
pub fn exchange_form(client: &OAuthClient, code: &str, redirect_uri: &str) -> (f: Vec<
    (String, String),
>)
    ensures
        pairs(f@) == seq![
            ("code"@, code@),
            ("client_id"@, client.client_id@),
            ("client_secret"@, client.client_secret@),
            ("redirect_uri"@, redirect_uri@),
            ("grant_type"@, "authorization_code"@),
        ],
{
    let mut f: Vec<(String, String)> = Vec::new();
    f.push(("code".to_owned(), code.to_owned()));
    f.push(("client_id".to_owned(), client.client_id.clone()));
    f.push(("client_secret".to_owned(), client.client_secret.clone()));
    f.push(("redirect_uri".to_owned(), redirect_uri.to_owned()));
    f.push(("grant_type".to_owned(), "authorization_code".to_owned()));
    assert(pairs(f@) =~= seq![
        ("code"@, code@),
        ("client_id"@, client.client_id@),
        ("client_secret"@, client.client_secret@),
        ("redirect_uri"@, redirect_uri@),
        ("grant_type"@, "authorization_code"@),
    ]);
    f
}

/// The token of an exchanged authorization code, from an answer at `now`.
pub fn exchanged_token(client: &OAuthClient, response: TokenResponse, now: u64) -> (t: Token)
    requires
        countable_expiry(response, now),
    ensures
        t@ == (TokenModel {
            access_token: response.access_token@,
            refresh_token: opt_string(response.refresh_token),
            expires_at: (now + lifetime(response)) as u64,
            token_uri: client.token_uri@,
            client_id: client.client_id@,
            client_secret: client.client_secret@,
            email: Seq::empty(),
        }),
{
    let t = Token {
        expires_at: response.expires_at(now),
        access_token: response.access_token,
        refresh_token: response.refresh_token,
        token_uri: client.token_uri.clone(),
        client_id: client.client_id.clone(),
        client_secret: client.client_secret.clone(),
        email: String::new(),
    };
    assert(t.email@ =~= Seq::<char>::empty());
    t
}

// ---------------------------------------------------------------------------
// Token files
// ---------------------------------------------------------------------------

/// The name of an account's token file: the account's email address is in it.
pub open spec fn token_name(email: Text) -> Text {
    let account = if email.len() == 0 {
        "default"@
    } else {
        email
    };
    "gdrive_token_"@ + account + ".json"@
}

/// The name of an account's token file.
pub fn token_file_name(email: &str) -> (r: String)
    ensures
        r@ == token_name(email@),
{
    let account = if email.is_empty() {
        "default"
    } else {
        email
    };
    cat3("gdrive_token_", account, ".json")
}

/// The token file of an account; `home` is the user's home directory, where it is known.
pub open spec fn token_file(home: Option<Text>, email: Text) -> Text {
    let dir = joined(
        match home {
            Some(h) => h,
            None => "."@,
        },
        ".config/remotefs"@,
    );
    joined(dir, token_name(email))
}

/// The token file of an account.
pub fn token_path(home: Option<&str>, email: &str) -> (r: String)
    ensures
        r@ == token_file(opt_text(home), email@),
{
    let dir = join(
        match home {
            Some(h) => h,
            None => ".",
        },
        ".config/remotefs",
    );
    join(dir.as_str(), token_file_name(email).as_str())
}

// ---------------------------------------------------------------------------
// Laws
// ---------------------------------------------------------------------------

/// A token that was just obtained does not count as expired, where it is good for more than
/// a minute.
pub proof fn law_fresh_token_is_good(r: TokenResponse, now: u64)
    requires
        countable_expiry(r, now),
        lifetime(r) > 60,
    ensures
        !expired(now, (now + lifetime(r)) as u64),
{
}

/// A token that has expired stays so.
pub proof fn law_expiry_is_final(now: u64, later: u64, expires_at: u64)
    requires
        now <= later,
        expired(now, expires_at),
    ensures
        expired(later, expires_at),
{
}

/// Each account has its own token file. The word `default`, which is no address, stands for an
/// account whose address is not known.
pub proof fn law_accounts_have_own_tokens(home: Option<Text>, a: Text, b: Text)
    requires
        a != b,
        a.len() == 0 ==> b != "default"@,
        b.len() == 0 ==> a != "default"@,
    ensures
        token_file(home, a) != token_file(home, b),
{
    if token_file(home, a) == token_file(home, b) {
        let h = match home {
            Some(h) => h,
            None => "."@,
        };
        let m = token_name(a);
        let n = token_name(b);
        lemma_joined_injective(joined(h, ".config/remotefs"@), m, n);
        let k = "gdrive_token_"@.len() as int;
        let e = ".json"@.len() as int;
        let x = m.subrange(k, m.len() - e);
        assert(x == n.subrange(k, n.len() - e));
        assert(x =~= if a.len() == 0 {
            "default"@
        } else {
            a
        });
        assert(x =~= if b.len() == 0 {
            "default"@
        } else {
            b
        });
        assert(a =~= b);
    }
}

/// The code in the query of a redirect is found, whatever comes after it.
pub proof fn law_leading_code_is_found(code: Text, rest: Seq<Text>)
    ensures
        first_code(seq!["code="@ + code] + rest) == Some(code),
{
    let s = "code="@ + code;
    let all = seq![s] + rest;
    assert(all[0] == s);
    assert(starts(s, "code="@)) by {
        assert(s.subrange(0, "code="@.len() as int) =~= "code="@);
    }
    assert(s.skip("code="@.len() as int) =~= code);
}

/// A token is good until a minute before it expires, and from then on it is not; it lives as long
/// as the answer says, or an hour where that is not said.
pub proof fn law_tokens_expire_a_minute_early(r: TokenResponse, now: u64, expires_at: u64)
    ensures
        now + 60 < expires_at ==> !expired(now, expires_at),
        now + 60 >= expires_at ==> expired(now, expires_at),
        r.expires_in matches Some(n) ==> lifetime(r) == n,
        r.expires_in is None ==> lifetime(r) == 3600,
{
}

/// The claims say who asks, for what, of whom, from when, and until an hour later.
pub proof fn law_claims(email: Text, token_uri: Text, now: u64)
    ensures
        ({
            let who = "{\"iss\":"@ + json_string(email);
            let what = ",\"scope\":"@ + json_string("https://www.googleapis.com/auth/drive"@);
            let whom = ",\"aud\":"@ + json_string(token_uri);
            let from = ",\"iat\":"@ + decimal(now as int);
            let until = ",\"exp\":"@ + decimal(now + 3600) + "}"@;
            claims(email, token_uri, now) == who + what + whom + from + until
        }),
{
    let who = "{\"iss\":"@ + json_string(email);
    let what = ",\"scope\":"@ + json_string("https://www.googleapis.com/auth/drive"@);
    let whom = ",\"aud\":"@ + json_string(token_uri);
    let from = ",\"iat\":"@ + decimal(now as int);
    let until = ",\"exp\":"@ + decimal(now + 3600) + "}"@;
    assert(claims(email, token_uri, now) =~= who + what + whom + from + until);
}

/// The authorization page is asked for a code for this client, for the whole Drive, to be sent to
/// the redirect address, with a refresh token and the user's consent.
pub proof fn law_authorization_query(client_id: Text, redirect: Text)
    ensures
        ({
            let q = auth_query(client_id, redirect);
            &&& q.len() == 6
            &&& q.contains(("client_id"@, client_id))
            &&& q.contains(("redirect_uri"@, redirect))
            &&& q.contains(("response_type"@, "code"@))
            &&& q.contains(("scope"@, "https://www.googleapis.com/auth/drive"@))
            &&& q.contains(("access_type"@, "offline"@))
            &&& q.contains(("prompt"@, "consent"@))
        }),
{
    let q = auth_query(client_id, redirect);
    assert(q[0] == ("client_id"@, client_id));
    assert(q[1] == ("redirect_uri"@, redirect));
    assert(q[2] == ("response_type"@, "code"@));
    assert(q[3] == ("scope"@, "https://www.googleapis.com/auth/drive"@));
    assert(q[4] == ("access_type"@, "offline"@));
    assert(q[5] == ("prompt"@, "consent"@));
}

/// The code of a redirect is the first parameter of that name in the query of the path that the
/// browser asks for, whatever parameters stand before and after it.
pub proof fn law_redirect_brings_code(line: Text, params: Seq<Text>, code: Text, i: int)
    requires
        words(line).len() >= 2,
        pieces(query_of(words(line)[1]), '&') == params,
        0 <= i < params.len(),
        params[i] == "code="@ + code,
        forall|j: int| 0 <= j < i ==> !starts(#[trigger] params[j], "code="@),
    ensures
        redirect_code(line) == Ok::<Text, AuthError>(code),
{
    lemma_first_code(params, code, i);
}

proof fn lemma_first_code(params: Seq<Text>, code: Text, i: int)
    requires
        0 <= i < params.len(),
        params[i] == "code="@ + code,
        forall|j: int| 0 <= j < i ==> !starts(#[trigger] params[j], "code="@),
    ensures
        first_code(params) == Some(code),
    decreases i,
{
    law_prefix_and_rest("code="@, code, params[0]);
    if i > 0 {
        assert(!starts(params[0], "code="@));
        let rest = params.drop_first();
        assert forall|j: int| 0 <= j < i - 1 implies !starts(#[trigger] rest[j], "code="@) by {
            assert(rest[j] == params[j + 1]);
        }
        lemma_first_code(rest, code, i - 1);
    }
}

/// A redirect without a code is an error: a denial where it says so, else one that carries no
/// code; a line that names no path is malformed.
pub proof fn law_redirect_without_code(line: Text)
    requires
        words(line).len() >= 2 ==> forall|j: int|
            0 <= j < pieces(query_of(words(line)[1]), '&').len() ==> !starts(
                #[trigger] pieces(query_of(words(line)[1]), '&')[j],
                "code="@,
            ),
    ensures
        words(line).len() < 2 ==> redirect_code(line) == Err::<Text, AuthError>(
            AuthError::MalformedRedirect,
        ),
        words(line).len() >= 2 && holds(words(line)[1], "error=access_denied"@) ==> redirect_code(
            line,
        ) == Err::<Text, AuthError>(AuthError::Denied),
        words(line).len() >= 2 && !holds(words(line)[1], "error=access_denied"@) ==> redirect_code(
            line,
        ) == Err::<Text, AuthError>(AuthError::NoCode),
{
    if words(line).len() >= 2 {
        lemma_no_code(pieces(query_of(words(line)[1]), '&'));
    }
}

proof fn lemma_no_code(params: Seq<Text>)
    requires
        forall|j: int| 0 <= j < params.len() ==> !starts(#[trigger] params[j], "code="@),
    ensures
        first_code(params) is None,
    decreases params.len(),
{
    if params.len() > 0 {
        assert(!starts(params[0], "code="@));
        let rest = params.drop_first();
        assert forall|j: int| 0 <= j < rest.len() implies !starts(#[trigger] rest[j], "code="@) by {
            assert(rest[j] == params[j + 1]);
        }
        lemma_no_code(rest);
    }
}

/// The query of a path is what follows its first question mark; a path without one has none.
pub proof fn law_query_of_path(page: Text, query: Text)
    requires
        !page.contains('?'),
    ensures
        query_of(page.push('?') + query) == query,
        query_of(page) == Seq::<char>::empty(),
{
    law_cut_parts(page, '?', query);
}

/// A token file is called after its account, in the user's directory for such files, or in the
/// working directory where no home is known.
pub proof fn law_token_files_are_named(home: Text, email: Text)
    requires
        email.len() > 0,
    ensures
        token_name(email) == "gdrive_token_"@ + email + ".json"@,
        token_name(Seq::empty()) == "gdrive_token_"@ + "default"@ + ".json"@,
        token_file(Some(home), email) == joined(
            joined(home, ".config/remotefs"@),
            token_name(email),
        ),
        token_file(None, email) == joined(joined("."@, ".config/remotefs"@), token_name(email)),
{
}

/// Where the account is another one, the user is told both, and the file to delete.
pub proof fn law_mismatch_names_both(expected: Text, actual: Text)
    ensures
        starts(
            mismatch_text(expected, actual),
            "expected account "@ + expected + " but authenticated as "@ + actual,
        ),
        holds(mismatch_text(expected, actual), token_name(expected)),
{
    let head = "expected account "@ + expected + " but authenticated as "@ + actual;
    let note = "\nDelete ~/.config/remotefs/"@;
    let tail = " to re-authorize"@;
    law_prefix_and_rest(head, note + token_name(expected) + tail, head);
    assert(mismatch_text(expected, actual) =~= head + (note + token_name(expected) + tail));
    law_holds(head + note, token_name(expected), tail);
    assert(mismatch_text(expected, actual) =~= (head + note) + token_name(expected) + tail);
}

} // verus!
