use linkman::admin::{create_api_key, new_secret, secret_or};
use linkman::headers::{extra_headers, header_pairs, valid_headers};
use linkman::store::{Store, StoreFailure};

fn pair(name: &str, value: &str) -> (String, String) {
    (name.to_string(), value.to_string())
}

#[test]
fn pairs_are_cut_at_commas_and_first_colons() {
    assert_eq!(
        header_pairs("X-Api-Key: abc, X-Org : my org ,Authorization:Basic a:b"),
        vec![pair("X-Api-Key", "abc"), pair("X-Org", "my org"), pair("Authorization", "Basic a:b")]
    );
}

#[test]
fn pieces_without_a_colon_are_passed_over() {
    assert_eq!(header_pairs(""), Vec::new());
    assert_eq!(header_pairs("no colon here"), Vec::new());
    assert_eq!(header_pairs("a:1,,b,c:3"), vec![pair("a", "1"), pair("c", "3")]);
    assert_eq!(header_pairs(":"), vec![pair("", "")]);
}

#[test]
fn valid_pairs_become_headers() {
    let headers = extra_headers("X-Api-Key: s3cret, X-Org: my org");
    assert_eq!(headers.len(), 2);
    assert_eq!(headers[0].0.as_str(), "x-api-key");
    assert_eq!(headers[0].1.to_str().unwrap(), "s3cret");
    assert_eq!(headers[1].0.as_str(), "x-org");
    assert_eq!(headers[1].1.as_bytes(), b"my org");
}

#[test]
fn pairs_with_an_invalid_name_or_value_are_passed_over() {
    let headers = extra_headers("bad name: v, : empty, ok: fine, x-ctl: a\u{7f}b, last: \u{e9}");
    let names: Vec<&str> = headers.iter().map(|h| h.0.as_str()).collect();
    assert_eq!(names, vec!["ok", "last"]);
    assert_eq!(headers[1].1.as_bytes(), "\u{e9}".as_bytes());
    assert_eq!(valid_headers(&vec![pair("a b", "v"), pair("a", "line\nbreak")]).len(), 0);
    assert_eq!(valid_headers(&vec![pair("tab", "a\tb")]).len(), 1);
}

#[test]
fn the_secret_asked_for_is_the_secret() {
    assert_eq!(secret_or(Some("mine".to_string()), "generated".to_string()), "mine");
    assert_eq!(secret_or(None, "generated".to_string()), "generated");
    assert_eq!(new_secret(Some("mine".to_string())), "mine");
}

#[test]
fn a_generated_secret_is_new_each_time() {
    let one = new_secret(None);
    let two = new_secret(None);
    assert_ne!(one, two);
    assert_eq!(one.len(), 36);
    assert!(one.chars().all(|c| c == '-' || c.is_ascii_hexdigit()));
}

#[test]
fn issuing_a_credential_stores_its_secret() {
    let mut store = Store::new();
    let secret = create_api_key(&mut store, 1, "laptop", Some("chosen".to_string())).unwrap();
    assert_eq!(secret, "chosen");
    assert_eq!(store.resolve_credential("chosen"), Some(1));
    let random = create_api_key(&mut store, 2, "phone", None).unwrap();
    assert_eq!(store.resolve_credential(&random), Some(2));
    assert_eq!(
        create_api_key(&mut store, 3, "tablet", Some("chosen".to_string())),
        Err(StoreFailure::Constraint)
    );
    assert_eq!(store.resolve_credential("chosen"), Some(1));
}

#[test]
fn header_names_take_letters_digits_and_fifteen_signs() {
    let all = "!#$%&'*+-.^_`|~0123456789abcdefghijklmnopqrstuvwxyzABCDEFGHIJKLMNOPQRSTUVWXYZ";
    let headers = valid_headers(&vec![pair(all, "v")]);
    assert_eq!(headers.len(), 1);
    assert_eq!(headers[0].0.as_str(), all.to_ascii_lowercase());
    for bad in ["", "a b", "a:b", "a(b", "a/b", "a@b", "a\u{e9}", "a\"b", "a,b", "a=b", "a{b"] {
        assert_eq!(valid_headers(&vec![pair(bad, "v")]).len(), 0, "{:?}", bad);
    }
    let long = "a".repeat(65535);
    assert_eq!(valid_headers(&vec![pair(&long, "v")]).len(), 1);
    let too_long = "a".repeat(65536);
    assert_eq!(valid_headers(&vec![pair(&too_long, "v")]).len(), 0);
    assert_eq!(valid_headers(&vec![pair("Content-Type", "text/plain")])[0].0.as_str(), "content-type");
}

#[test]
fn header_values_take_tabs_and_all_from_the_space_up_but_delete() {
    for good in ["", " ", "a\tb", "~", "\u{80}", "\u{ff}", "caf\u{e9}"] {
        let headers = valid_headers(&vec![pair("x", good)]);
        assert_eq!(headers.len(), 1, "{:?}", good);
        assert_eq!(headers[0].1.as_bytes(), good.as_bytes());
    }
    for bad in ["\u{0}", "\u{1f}", "a\nb", "a\rb", "\u{7f}"] {
        assert_eq!(valid_headers(&vec![pair("x", bad)]).len(), 0, "{:?}", bad);
    }
}

#[test]
fn issuing_without_a_key_succeeds_where_nothing_is_taken() {
    let mut store = Store::new();
    let secret = create_api_key(&mut store, 7, "first", None).expect("nothing can collide");
    assert_eq!(secret.len(), 36);
    assert_eq!(store.resolve_credential(&secret), Some(7));
    assert_eq!(create_api_key(&mut store, 7, "same identity", None), Err(StoreFailure::Constraint));
    assert_eq!(store.resolve_credential(&secret), Some(7));
}
