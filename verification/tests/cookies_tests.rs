use cloudflare_showcase::cookies::{
    read_signed_cookie, split_cookie_header, validate_cookies, verification_cookies, SecretTooShort,
    MIN_SECRET_LEN, VALIDATION_COOKIE, VALIDATION_MAX_AGE,
};
use cloudflare_showcase::page::ValidationState;

const SECRET: &str = "0123456789abcdef0123456789abcdef";

#[test]
fn header_is_cut_at_semicolons() {
    assert_eq!(split_cookie_header("a=b; c=d ;e"), vec!["a=b", "c=d", "e"]);
    assert_eq!(split_cookie_header(""), vec![""]);
    assert_eq!(split_cookie_header(" ; "), vec!["", ""]);
    assert_eq!(split_cookie_header("one"), vec!["one"]);
}

#[test]
fn request_without_cookies_is_not_validated() {
    assert_eq!(
        validate_cookies(None, SECRET),
        Ok(ValidationState {
            is_validated: false,
            validation_message: "Cookie header not found".to_string()
        })
    );
    assert_eq!(
        validate_cookies(None, "short"),
        Ok(ValidationState {
            is_validated: false,
            validation_message: "Cookie header not found".to_string()
        })
    );
}

#[test]
fn request_without_the_cookie_is_not_validated() {
    let expected = Ok(ValidationState {
        is_validated: false,
        validation_message: "Invalid Turnstile".to_string(),
    });
    assert_eq!(validate_cookies(Some("session=abc; theme=dark"), SECRET), expected);
    assert_eq!(validate_cookies(Some(""), SECRET), expected);
    assert_eq!(validate_cookies(Some("turnstile_validated"), SECRET), expected);
}

#[test]
fn request_with_the_cookie_is_validated() {
    assert_eq!(
        validate_cookies(Some("session=abc; turnstile_validated=true; theme=dark"), SECRET),
        Ok(ValidationState { is_validated: true, validation_message: "true".to_string() })
    );
    assert_eq!(
        validate_cookies(Some("turnstile_validated=yes"), SECRET),
        Ok(ValidationState { is_validated: true, validation_message: "yes".to_string() })
    );
}

#[test]
fn short_secret_is_refused() {
    assert_eq!(MIN_SECRET_LEN, 32);
    assert_eq!(validate_cookies(Some("turnstile_validated=true"), &SECRET[..31]), Err(SecretTooShort));
    assert_eq!(verification_cookies(&SECRET[..31]), Err(SecretTooShort));
    assert_eq!(verification_cookies(""), Err(SecretTooShort));
}

#[test]
fn verification_cookie_is_signed_and_restricted() {
    let headers = verification_cookies(SECRET).unwrap();
    assert_eq!(headers.len(), 1);
    let header = &headers[0];
    let (pair, attributes) = header.split_once("; ").unwrap();
    let (name, value) = pair.split_once('=').unwrap();
    assert_eq!(name, VALIDATION_COOKIE);
    assert!(value.ends_with("true"));
    assert_eq!(value.len(), 44 + 4);
    assert_ne!(value, "true");
    for attribute in ["HttpOnly", "SameSite=Strict", "Secure", "Path=/", "Max-Age=604800"] {
        assert!(attributes.split("; ").any(|a| a == attribute), "{} in {}", attribute, header);
    }
    assert_eq!(VALIDATION_MAX_AGE, 7 * 24 * 60 * 60);
}

#[test]
fn signature_depends_on_the_secret_alone() {
    let first = verification_cookies(SECRET).unwrap();
    assert_eq!(verification_cookies(SECRET).unwrap(), first);
    let other = verification_cookies("fedcba9876543210fedcba9876543210").unwrap();
    assert_ne!(other, first);
}

#[test]
fn last_cookie_of_a_name_counts() {
    assert_eq!(
        validate_cookies(Some("turnstile_validated=first; turnstile_validated=second"), SECRET),
        Ok(ValidationState { is_validated: true, validation_message: "second".to_string() })
    );
}

#[test]
fn cookie_is_cut_at_its_first_equals_sign() {
    let read = |texts: &[&str], name: &str| {
        let cookies: Vec<String> = texts.iter().map(|t| t.to_string()).collect();
        read_signed_cookie(&cookies, SECRET, name)
    };
    assert_eq!(read(&["a=b=c"], "a"), Some("b=c".to_string()));
    assert_eq!(read(&[" a = b "], "a"), Some("b".to_string()));
    assert_eq!(read(&["a="], "a"), Some(String::new()));
    assert_eq!(read(&["a=1; Path=/x", "b=2"], "a"), Some("1".to_string()));
    assert_eq!(read(&["a=1; b=2"], "b"), None);
    assert_eq!(read(&["a"], "a"), None);
    assert_eq!(read(&["=v"], ""), None);
    assert_eq!(read(&[" =v"], ""), None);
    assert_eq!(read(&["a=1", "junk", "a=2", "b=3"], "a"), Some("2".to_string()));
    assert_eq!(read(&[], "a"), None);
}
