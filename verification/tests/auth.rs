//! Authorization.

use jsonwebtoken::{decode, Algorithm, DecodingKey, Validation};
use remotefs::backend::gdrive::auth::{
    assertion_form, auth_params, build_auth_url, check_account, exchange_form, exchanged_token,
    extract_code, is_service_account, is_service_account_type, load_or_authorize, make_service_account_jwt, redirect_uri,
    service_account_claims, service_account_token, token_action, token_path, AuthError, OAuthClient,
    ServiceAccountKey, StoredAction, Token, TokenAction, TokenResponse, MAX_KEY_CHARS,
};
use remotefs::clock::now_secs;

// A key pair that was made for these tests alone.
const SIGNING_BODY: &[&str] = &[
    "MIIEpAIBAAKCAQEA9VWc01vOXDFkf6FA01F1Hg7K2y90XOTtfbeKwAjFaajiSW01",
    "kS8C2ZTYw06BEWkqs/tk/gjYkyJ2lyTKDDPyS7w4Yuy4UIIuZ3zUnDU1AruwRN8v",
    "YsBV6bUbePBnV3trx1wdG7mXZkQnf0gER8u805FLvpdH0W5sW3tSRlN4lh2dVvgy",
    "BeIBBAMi/GQPKPTZH/EIGEXZnbCkkFsa8VuEqsJLs4gN22oF9G93sP8ZMhaCSEOn",
    "4A+v0s337o16qDE6BalhqpQC2IaPMSgAzG9/AWIzkrEfM/2SaRA1aqIsG+l3q/T2",
    "DssbMQC4HksmEemhuDWr56WdtWQosGRM6K/hBQIDAQABAoIBAGmSJTGYhHUMtiPr",
    "1pL4rw63q9hlE8wzoPTjyfu36od8qp+RNKdclPvfPuXQft7oo/0eNYfRc6zg/Cov",
    "JRjaM64eeR8soWXXlzNmNrFffgfGj2QbrG7wuCehDQjeXoH5NNhtjYMUOo/BzUNK",
    "0Li6de+OywrhW4DGZS96ol1r5uylSxLZPUtBPL4etYQWFuRUtoCKJYxj62roB9Pa",
    "85t9IQL6ZADofM2iZvvCJI1WUfA26JbyXYfatCsgxUApsU4unKcy7GDdxqrDwyvL",
    "8Et2xWLq3veTrDfBnWNep6Ozw8Nj24FtdBNx+xINmFHQAjiyFQRbCsvU2GoMtwo6",
    "V5PNHbMCgYEA+9qEv32IIY1JRO6bx21o25QGcy4jGqyGHgpLFStycDljhfPiMOjR",
    "PHz4b+Oo1vIMuRKS11UTaPcbdytrG9cH7RYhOGyWjB0nIlM5m8KVOaNvoJsqkUyC",
    "ESqhY9su7dM4fH8+nF/y8jsOOGsWbtm3ec180SMWgfnHqYWCY15eoVsCgYEA+V+e",
    "LbdFxU7jxchJ0RgzQ3tqpGVfYYgDML8gPpOHLJQ7vOZdGH2YO3AqXQWrMdsWoL95",
    "ckjMjlYRRy31i7qwzo9b+bt1VRFJphrRWayfCXHJ6GVhcCq4otzXB1ByzH7ljyUY",
    "vLOdNdrlDA2Y1Nw/MaFiWU4h26ambmkxFEV/tR8CgYAxQDpVeCb26Lo7UK4GAc9P",
    "oVLhk1QqEzLnDPxB1405hP+BYoAJMH46ZfXva4XJAuyaBJfSpEB3dltYopT/jL1w",
    "D7PPZOzL2aedfsj1PMgRzXQ25CEe6OdGlB+bd3Fl8LhLIFcOHXVVCVdukQKCCvFm",
    "UFjoTQRJxp7U99bXt8ypoQKBgQDzUsxaGSkYFBkF5J+6SZ3Dq8nrrQp7dSZ/yw4g",
    "YP0Vj3IWqMSP4ATJgnGjoKNhm0AiC5Lp44TNIcfsJzkfZUOd2Z5KOBKNtbeiPyql",
    "EF2B7qivfTStKNJN/6RE+8d4KB3AJddUUQIGCZdSwnWsxVdYCvuW3jkFRT/CHhwI",
    "hqPMywKBgQD0BOJSjcYi+eUN5frtYEuhj+C218UhU6GG8Rod2g6PvI0gMkuIzv+F",
    "kKQwYFQH1ktHJXH9QhEqAXHxY8nGWivOJW3EN6lJHS/FKS/TxUNtQ7gfbrnEovWn",
    "PNprO2JtQHOxZumuwBySNO4tRRXPhM8dGAgmD/DZhqlG9CVoG5ckeQ==",
];

const VERIFYING_BODY: &[&str] = &[
    "MIIBIjANBgkqhkiG9w0BAQEFAAOCAQ8AMIIBCgKCAQEA9VWc01vOXDFkf6FA01F1",
    "Hg7K2y90XOTtfbeKwAjFaajiSW01kS8C2ZTYw06BEWkqs/tk/gjYkyJ2lyTKDDPy",
    "S7w4Yuy4UIIuZ3zUnDU1AruwRN8vYsBV6bUbePBnV3trx1wdG7mXZkQnf0gER8u8",
    "05FLvpdH0W5sW3tSRlN4lh2dVvgyBeIBBAMi/GQPKPTZH/EIGEXZnbCkkFsa8VuE",
    "qsJLs4gN22oF9G93sP8ZMhaCSEOn4A+v0s337o16qDE6BalhqpQC2IaPMSgAzG9/",
    "AWIzkrEfM/2SaRA1aqIsG+l3q/T2DssbMQC4HksmEemhuDWr56WdtWQosGRM6K/h",
    "BQIDAQAB",
];

fn pem(kind: &str, body: &[&str]) -> String {
    format!("-----BEGIN {kind} KEY-----\n{}\n-----END {kind} KEY-----\n", body.join("\n"))
}

fn key(private_key: String) -> ServiceAccountKey {
    ServiceAccountKey {
        client_email: "robot@x.iam".to_string(),
        private_key,
        token_uri: "https://t/token".to_string(),
    }
}

fn token(expires_at: u64, refresh: Option<&str>) -> Token {
    Token {
        access_token: "at".to_string(),
        refresh_token: refresh.map(str::to_string),
        expires_at,
        token_uri: "tu".to_string(),
        client_id: "ci".to_string(),
        client_secret: "cs".to_string(),
        email: "".to_string(),
    }
}

fn client() -> OAuthClient {
    OAuthClient {
        client_id: "ci".to_string(),
        client_secret: "cs".to_string(),
        auth_uri: "https://a/auth?x=1".to_string(),
        token_uri: "tu".to_string(),
    }
}

fn response(expires_in: Option<u64>, refresh: Option<&str>) -> TokenResponse {
    TokenResponse {
        access_token: "new".to_string(),
        refresh_token: refresh.map(str::to_string),
        expires_in,
    }
}

fn p(v: &[(&str, &str)]) -> Vec<(String, String)> {
    v.iter().map(|(a, b)| (a.to_string(), b.to_string())).collect()
}

#[test]
fn service_account_files() {
    assert!(is_service_account("{\"type\": \"service_account\"}"));
    assert!(!is_service_account("{\"type\": \"authorized_user\"}"));
    assert!(!is_service_account("{\"installed\": {\"type\": \"service_account\"}}"));
    assert!(!is_service_account("{\"type\": 1}"));
    assert!(!is_service_account("[1]"));
    assert!(!is_service_account("not json"));
    assert!(is_service_account_type(Some("service_account")));
    assert!(!is_service_account_type(Some("authorized_user")));
    assert!(!is_service_account_type(None));
}

#[test]
fn expiry() {
    let t = token(1000, None);
    assert!(!t.is_expired_at(939));
    assert!(t.is_expired_at(940));
    assert!(t.is_expired_at(u64::MAX));
    assert!(token(60, None).is_expired());
    assert!(token(0, None).is_expired());
    assert!(!token(u64::MAX, None).is_expired());
    assert!(now_secs() > 1_700_000_000);
}

#[test]
fn refresh_keeps_the_refresh_token() {
    let mut t = token(0, Some("rt"));
    assert_eq!(
        t.refresh_form().ok(),
        Some(p(&[
            ("client_id", "ci"),
            ("client_secret", "cs"),
            ("refresh_token", "rt"),
            ("grant_type", "refresh_token"),
        ]))
    );
    t.refresh(response(None, None), 100);
    assert_eq!((t.access_token.as_str(), t.expires_at), ("new", 3700));
    assert_eq!(t.refresh_token.as_deref(), Some("rt"));
    t.refresh(response(Some(10), Some("rt2")), 100);
    assert_eq!(t.expires_at, 110);
    assert_eq!(t.refresh_token.as_deref(), Some("rt2"));
    assert_eq!(token(0, None).refresh_form(), Err(AuthError::NoRefreshToken));
}

#[test]
fn expiry_that_cannot_be_counted() {
    assert!(response(Some(5), None).has_countable_expiry(u64::MAX - 5));
    assert!(!response(Some(6), None).has_countable_expiry(u64::MAX - 5));
    assert!(!response(None, None).has_countable_expiry(u64::MAX - 3599));
}

#[test]
fn renewal_and_email() {
    let mut t = token(0, Some("rt"));
    t.renew(token(99, None));
    assert_eq!((t.expires_at, t.refresh_token.as_deref()), (99, Some("rt")));
    assert!(t.set_email("a@b", false));
    assert_eq!(t.email, "a@b");
    assert!(!t.set_email("a@b", false));
    assert!(!t.set_email("c@d", true));
    assert_eq!(t.email, "c@d");
}

#[test]
fn claims_of_a_service_account() {
    assert_eq!(
        service_account_claims(&key("".to_string()), 100),
        "{\"iss\":\"robot@x.iam\",\"scope\":\"https://www.googleapis.com/auth/drive\",\
         \"aud\":\"https://t/token\",\"iat\":100,\"exp\":3700}"
    );
}

#[test]
fn assertion_is_signed() {
    let now = 4_000_000_000;
    let jwt = make_service_account_jwt(&key(pem("RSA PRIVATE", SIGNING_BODY)), now).ok();
    let jwt = match jwt {
        Some(j) => j,
        None => panic!("not signed"),
    };
    assert!(jwt.starts_with("eyJ0eXAiOiJKV1QiLCJhbGciOiJSUzI1NiJ9."));
    let public = match DecodingKey::from_rsa_pem(pem("PUBLIC", VERIFYING_BODY).as_bytes()) {
        Ok(k) => k,
        Err(_) => panic!("no public key"),
    };
    let mut how = Validation::new(Algorithm::RS256);
    how.set_audience(&["https://t/token"]);
    let claims = match decode::<serde_json::Value>(&jwt, &public, &how) {
        Ok(d) => d.claims,
        Err(e) => panic!("not verified: {e}"),
    };
    assert_eq!(claims["iss"].as_str(), Some("robot@x.iam"));
    assert_eq!(claims["scope"].as_str(), Some("https://www.googleapis.com/auth/drive"));
    assert_eq!(claims["iat"].as_u64(), Some(now));
    assert_eq!(claims["exp"].as_u64(), Some(now + 3600));
}

#[test]
fn claims_are_signed_as_they_stand() {
    let jwt = match make_service_account_jwt(&key(pem("RSA PRIVATE", SIGNING_BODY)), 0) {
        Ok(j) => j,
        Err(_) => panic!("not signed"),
    };
    assert_eq!(
        jwt.split('.').nth(1),
        Some(
            "eyJpc3MiOiJyb2JvdEB4LmlhbSIsInNjb3BlIjoiaHR0cHM6Ly93d3cuZ29vZ2xlYXBpcy5jb20v\
             YXV0aC9kcml2ZSIsImF1ZCI6Imh0dHBzOi8vdC90b2tlbiIsImlhdCI6MCwiZXhwIjozNjAwfQ"
        )
    );
}

#[test]
fn bad_keys_are_refused() {
    assert_eq!(
        make_service_account_jwt(&key("no key".to_string()), 0),
        Err(AuthError::BadKey)
    );
}

/// A key text of a length that holds sequences in sequences, as deep as they go.
fn nested_key(tag: &str, chars: usize) -> String {
    let frame = format!("-----BEGIN {tag}-----\n\n-----END {tag}-----").len();
    let mut der: Vec<u8> = vec![5, 0];
    loop {
        let n = der.len();
        let mut outer: Vec<u8> = vec![0x30];
        if n < 0x80 {
            outer.push(n as u8);
        } else if n < 0x100 {
            outer.extend([0x81, n as u8]);
        } else {
            outer.extend([0x82, (n >> 8) as u8, n as u8]);
        }
        if (n + outer.len()).div_ceil(3) * 4 + frame > chars {
            break;
        }
        outer.extend(der);
        der = outer;
    }
    let digits = b"ABCDEFGHIJKLMNOPQRSTUVWXYZabcdefghijklmnopqrstuvwxyz0123456789+/";
    let mut body = String::new();
    for c in der.chunks(3) {
        let n = c.iter().fold(0u32, |n, b| n << 8 | *b as u32) << (8 * (3 - c.len()));
        for i in 0..4 {
            let digit = digits[(n >> (18 - 6 * i)) as usize & 63] as char;
            body.push(if i <= c.len() { digit } else { '=' });
        }
    }
    format!("-----BEGIN {tag}-----\n{body}\n-----END {tag}-----")
}

#[test]
fn nested_keys_are_refused() {
    for tag in ["PRIVATE KEY", "RSA PRIVATE KEY", "OTHER"] {
        let k = nested_key(tag, 0x400);
        assert!(k.len() <= MAX_KEY_CHARS);
        assert_eq!(make_service_account_jwt(&key(k), 0), Err(AuthError::BadKey));
    }
}

#[test]
fn signatures_are_a_function_of_claims_and_key() {
    let k = key(pem("RSA PRIVATE", SIGNING_BODY));
    assert!(k.private_key.len() <= MAX_KEY_CHARS);
    let first = make_service_account_jwt(&k, 12);
    assert!(first.is_ok());
    assert_eq!(first, make_service_account_jwt(&k, 12));
    assert_ne!(first, make_service_account_jwt(&k, 13));
}

#[test]
fn service_account_tokens() {
    assert_eq!(
        assertion_form("j"),
        p(&[("grant_type", "urn:ietf:params:oauth:grant-type:jwt-bearer"), ("assertion", "j")])
    );
    let t = service_account_token(&key("".to_string()), response(Some(7), Some("x")), 10);
    assert_eq!((t.expires_at, t.email.as_str()), (17, "robot@x.iam"));
    assert_eq!(t.refresh_token, None);
}

#[test]
fn token_actions() {
    assert_eq!(token_action(false, true), TokenAction::Use);
    assert_eq!(token_action(true, true), TokenAction::Sign);
    assert_eq!(token_action(true, false), TokenAction::Refresh);
}

#[test]
fn stored_tokens() {
    assert_eq!(load_or_authorize(None, None), StoredAction::Authorize);
    assert_eq!(load_or_authorize(Some(false), None), StoredAction::Use);
    assert_eq!(load_or_authorize(Some(true), None), StoredAction::Refresh);
    assert_eq!(load_or_authorize(Some(true), Some(true)), StoredAction::SaveAndUse);
    assert_eq!(load_or_authorize(Some(true), Some(false)), StoredAction::Authorize);
}

#[test]
fn accounts_have_to_match() {
    assert_eq!(check_account("a@b.c", "a@b.c"), None);
    assert_eq!(
        check_account("a@b.c", "x@y"),
        Some(
            "expected account a@b.c but authenticated as x@y\n\
             Delete ~/.config/remotefs/gdrive_token_a@b.c.json to re-authorize"
                .to_string()
        )
    );
}

#[test]
fn authorization_url() {
    let u = build_auth_url("https://a/auth?x=1", "id&", "http://localhost:80");
    assert_eq!(
        u.ok(),
        Some(
            "https://a/auth?x=1&client_id=id%26&redirect_uri=http%3A%2F%2Flocalhost%3A80\
             &response_type=code&scope=https%3A%2F%2Fwww.googleapis.com%2Fauth%2Fdrive\
             &access_type=offline&prompt=consent"
                .to_string()
        )
    );
    assert_eq!(build_auth_url("no url", "i", "r"), Err(AuthError::BadAuthUri));
    assert_eq!(auth_params("i", "r").len(), 6);
    assert_eq!(redirect_uri(8080), "http://localhost:8080");
}

#[test]
fn redirects() {
    assert_eq!(
        extract_code("GET /?state=s&code=4/abc&scope=x HTTP/1.1\r\n"),
        Ok("4/abc".to_string())
    );
    assert_eq!(extract_code("GET /?code= HTTP/1.1"), Ok("".to_string()));
    assert_eq!(extract_code("GET"), Err(AuthError::MalformedRedirect));
    assert_eq!(extract_code(""), Err(AuthError::MalformedRedirect));
    assert_eq!(extract_code("GET /?error=access_denied HTTP/1.1"), Err(AuthError::Denied));
    assert_eq!(extract_code("GET / HTTP/1.1"), Err(AuthError::NoCode));
    assert_eq!(extract_code("GET /code=1 HTTP/1.1"), Err(AuthError::NoCode));
}

#[test]
fn exchanged_codes() {
    assert_eq!(
        exchange_form(&client(), "c", "r"),
        p(&[
            ("code", "c"),
            ("client_id", "ci"),
            ("client_secret", "cs"),
            ("redirect_uri", "r"),
            ("grant_type", "authorization_code"),
        ])
    );
    let t = exchanged_token(&client(), response(None, Some("rt")), 5);
    assert_eq!((t.expires_at, t.email.as_str()), (3605, ""));
    assert_eq!(t.refresh_token.as_deref(), Some("rt"));
}

#[test]
fn token_files() {
    assert_eq!(
        token_path(Some("/home/al"), "a.b@c.com"),
        "/home/al/.config/remotefs/gdrive_token_a.b@c.com.json"
    );
    assert_eq!(token_path(None, ""), "./.config/remotefs/gdrive_token_default.json");
    assert_ne!(token_path(None, "alice@c.com"), token_path(None, "bob@c.com"));
    assert_ne!(token_path(None, "a.b@c.com"), token_path(None, "a_b@c.com"));
}
