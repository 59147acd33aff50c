use bun_support::postgres::{FROM, TO};
use bun_support::shell::{Fd, OutKind};

#[test]
fn out_kinds_map_to_standard_streams() {
    assert_eq!(OutKind::Stdout.to_fd(), Fd { value: 1 });
    assert_eq!(OutKind::Stderr.to_fd(), Fd { value: 2 });
    assert_eq!(Fd::stdout().value, 1);
    assert_eq!(Fd::stderr().value, 2);
}

#[test]
fn bytea_type_identifiers() {
    assert_eq!(TO, 17);
    assert_eq!(FROM, [17]);
}

use bun_support::url::{url_from_href, url_from_js_href, BunString, Tag, UrlError};

#[test]
fn urls_from_live_strings_are_copied() {
    let s = BunString { tag: Tag::Borrowed, bytes: b"https://bun.sh/".to_vec() };
    assert_eq!(url_from_href(&s).ok().unwrap().href, b"https://bun.sh/");
}

#[test]
fn released_strings_are_invalid_urls() {
    let s = BunString { tag: Tag::Dead, bytes: vec![] };
    assert_eq!(url_from_href(&s).err(), Some(UrlError::InvalidUrl));
    assert_eq!(url_from_js_href(Ok(s)).err(), Some(UrlError::InvalidUrl));
    assert_eq!(url_from_js_href(Err(UrlError::JsError)).err(), Some(UrlError::JsError));
}
