use std::collections::HashMap;

use golink::apex::{apex_of, root_redirect_target};
use golink::auth::{authorize, AuthError};
use golink::codec::{decode, encode, DecodeError, LinkRecord};
use golink::keyspace::{host_key_prefix, is_reserved, key, normalize_slug, slug_from_key};
use golink::manager::{
    authorized_key, authorized_prefix, finish_create, finish_delete, finish_list, finish_stats,
    plan_create, ManageError,
};
use golink::resolver::{Resolver, Step};

const SECRET: &str = "s3cret";
const GOOD: &str = "Bearer s3cret";

fn record(url: &str, hits: u64) -> LinkRecord {
    LinkRecord { redirect_url: url.to_string(), hits }
}

/// Runs a resolution against `store`, performing each step as the service would.
fn resolve(store: &mut HashMap<String, String>, host: &str, path: &str) -> Result<String, Step> {
    let (mut resolver, mut step) = Resolver::start(host, path);
    loop {
        match step {
            Step::Lookup(k) => {
                let found = store.get(&k).cloned();
                step = resolver.on_lookup(found);
            }
            Step::Store { key, value, target } => {
                store.insert(key, value);
                return Ok(target);
            }
            other => return Err(other),
        }
    }
}

fn create(store: &mut HashMap<String, String>, host: &str, slug: &str, url: &str) -> Result<String, ManageError> {
    let plan = plan_create(GOOD, SECRET, host, slug, url)?;
    finish_create(&store.get(&plan.key).cloned())?;
    store.insert(plan.key, plan.value);
    Ok(plan.short_url)
}

fn stats(store: &HashMap<String, String>, host: &str, slug: &str) -> Result<(String, u64), ManageError> {
    let k = authorized_key(GOOD, SECRET, host, slug)?;
    let info = finish_stats(host, slug, store.get(&k).cloned())?;
    Ok((info.redirect_url, info.hits))
}

fn hits_of(store: &HashMap<String, String>, k: &str) -> u64 {
    decode(store.get(k).unwrap()).unwrap().hits
}

#[test]
fn encode_writes_the_stored_form() {
    let t = encode(&record("https://a.test/x", 7));
    assert_eq!(t, r#"{"redirect_url":"https://a.test/x","hits":7}"#);
    let t = encode(&record("a\"b\\c", 0));
    assert_eq!(t, r#"{"redirect_url":"a\"b\\c","hits":0}"#);
    let t = encode(&record("u", u64::MAX));
    assert_eq!(t, r#"{"redirect_url":"u","hits":18446744073709551615}"#);
}

#[test]
fn decode_reads_the_stored_form() {
    let r = decode(r#"{"redirect_url":"https://a.test/x","hits":42}"#).unwrap();
    assert_eq!(r.redirect_url, "https://a.test/x");
    assert_eq!(r.hits, 42);
}

#[test]
fn round_trip_keeps_every_record() {
    for (url, hits) in [("https://vendor.test/deal", 0u64), ("a\"b\\c\"", 5), ("", 10), ("ünïcødé/ß", u64::MAX), ("\\", 1)] {
        let back = decode(&encode(&record(url, hits))).unwrap();
        assert_eq!(back.redirect_url, url);
        assert_eq!(back.hits, hits);
    }
}

#[test]
fn decode_rejects_what_is_not_a_record() {
    for t in [
        "",
        "not json",
        r#"{"hits":3}"#,
        r#"{"redirect_url":5,"hits":3}"#,
        r#"{"redirect_url":"x","hits":}"#,
        r#"{"redirect_url":"x","hits":18446744073709551616}"#,
        r#"{"redirect_url":"x","hits":007}"#,
        r#"{"redirect_url":"x","hits":-1}"#,
        r#"{"redirect_url":"x","hits":1.5}"#,
        r#"{"redirect_url":null,"hits":1}"#,
        r#"["x",1]"#,
        r#"{"redirect_url":"x\q","hits":1}"#,
        r#"{"redirect_url":"x","hits":1"#,
    ] {
        assert_eq!(decode(t).err(), Some(DecodeError::Malformed), "{}", t);
    }
}

#[test]
fn keys_join_host_and_slug() {
    assert_eq!(key("go.example.com", "docs/api"), "go.example.com:docs/api");
    assert_eq!(host_key_prefix("go.example.com"), "go.example.com:");
    assert_eq!(slug_from_key("h", "h:abc"), "abc");
    assert_eq!(slug_from_key("h", "g:abc"), "");
    assert_eq!(slug_from_key("host", "ho"), "");
}

#[test]
fn reserved_slugs() {
    assert!(is_reserved("create"));
    assert!(is_reserved("stats"));
    assert!(is_reserved("list"));
    assert!(!is_reserved("creates"));
    assert!(!is_reserved(""));
    assert!(!is_reserved("promo"));
}

#[test]
fn normalize_trims_slashes_only_at_the_ends() {
    assert_eq!(normalize_slug("/a/b/"), "a/b");
    assert_eq!(normalize_slug("///x//"), "x");
    assert_eq!(normalize_slug("///"), "");
    assert_eq!(normalize_slug("plain"), "plain");
}

#[test]
fn auth_gate() {
    assert_eq!(authorize(GOOD, SECRET), Ok(()));
    assert_eq!(authorize("", SECRET), Err(AuthError::Unauthorized));
    assert_eq!(authorize("bearer s3cret", SECRET), Err(AuthError::Unauthorized));
    assert_eq!(authorize("Bearer s3cret ", SECRET), Err(AuthError::Unauthorized));
    assert_eq!(authorize("s3cret", SECRET), Err(AuthError::Unauthorized));
    assert_eq!(authorize(GOOD, ""), Err(AuthError::ServerMisconfigured));
    assert_eq!(authorize("Bearer ", ""), Err(AuthError::ServerMisconfigured));
    assert_eq!(authorize("", ""), Err(AuthError::ServerMisconfigured));
}

#[test]
fn apex_derivation() {
    assert_eq!(apex_of("sub.example.com"), "example.com");
    assert_eq!(apex_of("example.com"), "com");
    assert_eq!(apex_of("a.b.c.d"), "b.c.d");
    assert_eq!(apex_of("localhost"), "localhost");
    assert_eq!(apex_of(".example.com"), ".example.com");
    assert_eq!(apex_of("trailing."), "trailing.");
    assert_eq!(root_redirect_target("go.example.com"), "https://example.com/");
    assert_eq!(root_redirect_target("localhost"), "https://localhost/");
}

#[test]
fn exact_key_resolves_and_counts() {
    let mut store = HashMap::new();
    store.insert("h:promo".to_string(), encode(&record("https://t.test/p", 4)));
    assert_eq!(resolve(&mut store, "h", "promo"), Ok("https://t.test/p".to_string()));
    assert_eq!(hits_of(&store, "h:promo"), 5);
    assert_eq!(resolve(&mut store, "h", "/promo"), Ok("https://t.test/p".to_string()));
    assert_eq!(hits_of(&store, "h:promo"), 6);
}

#[test]
fn longest_prefix_wins() {
    let mut store = HashMap::new();
    store.insert("h:a".to_string(), encode(&record("https://short.test", 0)));
    store.insert("h:a/b".to_string(), encode(&record("https://long.test", 0)));
    assert_eq!(resolve(&mut store, "h", "a/b/c"), Ok("https://long.test".to_string()));
    assert_eq!(hits_of(&store, "h:a/b"), 1);
    assert_eq!(hits_of(&store, "h:a"), 0);
    assert_eq!(resolve(&mut store, "h", "a/x/y"), Ok("https://short.test".to_string()));
    assert_eq!(hits_of(&store, "h:a"), 1);
}

#[test]
fn no_stored_prefix_is_not_found() {
    let mut store = HashMap::new();
    store.insert("h:a".to_string(), encode(&record("https://short.test", 0)));
    store.insert("other:z".to_string(), encode(&record("https://o.test", 0)));
    assert!(matches!(resolve(&mut store, "h", "z/y/x"), Err(Step::NotFound)));
    assert!(matches!(resolve(&mut store, "h", ""), Err(Step::NotFound)));
}

#[test]
fn reserved_slug_never_resolves() {
    let mut store = HashMap::new();
    store.insert("h:create".to_string(), encode(&record("https://x.test", 0)));
    store.insert("h:list".to_string(), encode(&record("https://x.test", 0)));
    assert!(matches!(resolve(&mut store, "h", "create"), Err(Step::NotFound)));
    assert!(matches!(resolve(&mut store, "h", "/list"), Err(Step::NotFound)));
    assert_eq!(hits_of(&store, "h:create"), 0);
}

#[test]
fn corrupt_record_stops_resolution() {
    let mut store = HashMap::new();
    store.insert("h:a/b".to_string(), "garbage".to_string());
    store.insert("h:a".to_string(), encode(&record("https://short.test", 0)));
    assert!(matches!(resolve(&mut store, "h", "a/b"), Err(Step::Corrupt)));
}

#[test]
fn hit_count_stays_at_its_largest_value() {
    let mut store = HashMap::new();
    store.insert("h:m".to_string(), encode(&record("https://m.test", u64::MAX)));
    assert_eq!(resolve(&mut store, "h", "m"), Ok("https://m.test".to_string()));
    assert_eq!(hits_of(&store, "h:m"), u64::MAX);
}

#[test]
fn create_twice_conflicts() {
    let mut store = HashMap::new();
    assert_eq!(create(&mut store, "h", "s", "https://u.test"), Ok("https://h/s".to_string()));
    assert_eq!(create(&mut store, "h", "s", "https://other.test"), Err(ManageError::Conflict));
    assert_eq!(create(&mut store, "h", "/s/", "https://other.test"), Err(ManageError::Conflict));
    assert_eq!(create(&mut store, "g", "s", "https://other.test"), Ok("https://g/s".to_string()));
}

#[test]
fn create_checks_credential_then_input() {
    assert_eq!(plan_create("", SECRET, "h", "s", "u").err(), Some(ManageError::Unauthorized));
    assert_eq!(plan_create(GOOD, "", "h", "s", "u").err(), Some(ManageError::ServerMisconfigured));
    assert_eq!(plan_create(GOOD, SECRET, "h", "", "u").err(), Some(ManageError::InvalidInput));
    assert_eq!(plan_create(GOOD, SECRET, "h", "//", "u").err(), Some(ManageError::InvalidInput));
    assert_eq!(plan_create(GOOD, SECRET, "h", "s", "").err(), Some(ManageError::InvalidInput));
    let plan = plan_create(GOOD, SECRET, "go.example.com", "/docs/", "https://d.test").unwrap();
    assert_eq!(plan.key, "go.example.com:docs");
    assert_eq!(plan.value, r#"{"redirect_url":"https://d.test","hits":0}"#);
    assert_eq!(plan.short_url, "https://go.example.com/docs");
}

#[test]
fn key_requests_check_credential() {
    assert_eq!(authorized_key(GOOD, SECRET, "h", "s"), Ok("h:s".to_string()));
    assert_eq!(authorized_key("Bearer x", SECRET, "h", "s"), Err(ManageError::Unauthorized));
    assert_eq!(authorized_key(GOOD, "", "h", "s"), Err(ManageError::ServerMisconfigured));
    assert_eq!(authorized_prefix(GOOD, SECRET, "h"), Ok("h:".to_string()));
    assert_eq!(authorized_prefix("", SECRET, "h"), Err(ManageError::Unauthorized));
}

#[test]
fn delete_and_stats_outcomes() {
    assert_eq!(finish_delete(true), Ok(()));
    assert_eq!(finish_delete(false), Err(ManageError::NotFound));
    assert_eq!(finish_stats("h", "s", None).err(), Some(ManageError::NotFound));
    assert_eq!(finish_stats("h", "s", Some("{}".to_string())).err(), Some(ManageError::Corrupt));
    let info = finish_stats("h", "s", Some(encode(&record("https://u.test", 3)))).ok().unwrap();
    assert_eq!((info.host.as_str(), info.slug.as_str(), info.redirect_url.as_str(), info.hits), ("h", "s", "https://u.test", 3));
}

#[test]
fn list_skips_entries_without_a_record() {
    let entries = vec![
        ("h:a".to_string(), Some(encode(&record("https://a.test", 1)))),
        ("h:bad".to_string(), Some("oops".to_string())),
        ("h:gone".to_string(), None),
        ("h:b/c".to_string(), Some(encode(&record("https://b.test", 2)))),
    ];
    let links = finish_list("h", entries);
    assert_eq!(links.len(), 2);
    assert_eq!((links[0].host.as_str(), links[0].slug.as_str(), links[0].redirect_url.as_str(), links[0].hits), ("h", "a", "https://a.test", 1));
    assert_eq!((links[1].host.as_str(), links[1].slug.as_str(), links[1].redirect_url.as_str(), links[1].hits), ("h", "b/c", "https://b.test", 2));
    assert!(finish_list("h", Vec::new()).is_empty());
}

#[test]
fn create_stats_resolve_delete_scenario() {
    let mut store = HashMap::new();
    let host = "shop.example.com";
    assert_eq!(create(&mut store, host, "promo", "https://vendor.test/deal"), Ok("https://shop.example.com/promo".to_string()));
    assert_eq!(stats(&store, host, "promo"), Ok(("https://vendor.test/deal".to_string(), 0)));
    assert_eq!(resolve(&mut store, host, "promo"), Ok("https://vendor.test/deal".to_string()));
    assert_eq!(stats(&store, host, "promo"), Ok(("https://vendor.test/deal".to_string(), 1)));
    let k = authorized_key(GOOD, SECRET, host, "promo").unwrap();
    let deleted = store.remove(&k).is_some();
    assert_eq!(finish_delete(deleted), Ok(()));
    assert_eq!(stats(&store, host, "promo"), Err(ManageError::NotFound));
}

#[test]
fn control_characters_are_escaped() {
    let t = encode(&record("a\nb\tc\r\u{8}\u{c}\u{1}\u{1f}\u{7f}", 2));
    assert_eq!(t, "{\"redirect_url\":\"a\\nb\\tc\\r\\b\\f\\u0001\\u001f\u{7f}\",\"hits\":2}");
    let back = decode(&t).unwrap();
    assert_eq!(back.redirect_url, "a\nb\tc\r\u{8}\u{c}\u{1}\u{1f}\u{7f}");
    assert_eq!(back.hits, 2);
    assert_eq!(decode("{\"redirect_url\":\"\u{1}\",\"hits\":1}").err(), Some(DecodeError::Malformed));
    let lf = decode(r#"{"redirect_url":"\u000a","hits":1}"#).unwrap();
    assert_eq!(lf.redirect_url, "\n");
    assert_eq!(lf.hits, 1);
}

#[test]
fn stored_form_is_what_serde_json_writes() {
    for (url, hits) in [("https://vendor.test/deal", 0u64), ("q\"b\\s/é", 9), ("ctl\u{0}\n\u{1b}", 77), ("", u64::MAX)] {
        let expected = format!("{{\"redirect_url\":{},\"hits\":{}}}", serde_json::to_string(url).unwrap(), hits);
        let t = encode(&record(url, hits));
        assert_eq!(t, expected);
        let v: serde_json::Value = serde_json::from_str(&t).unwrap();
        assert_eq!(v["redirect_url"].as_str(), Some(url));
        assert_eq!(v["hits"].as_u64(), Some(hits));
    }
}

#[test]
fn decode_reads_any_json_layout() {
    for t in [
        r#"{"hits":3,"redirect_url":"https://a.test/x"}"#,
        "{ \"redirect_url\" : \"https://a.test/x\" ,\n \"hits\" : 3 }",
        r#"{"redirect_url":"https:\/\/a.test\/x","hits":3,"owner":"me"}"#,
        r#"{"redirect_url":"https://a.test/\u0078","hits":3}"#,
    ] {
        let r = decode(t).unwrap();
        assert_eq!(r.redirect_url, "https://a.test/x", "{}", t);
        assert_eq!(r.hits, 3, "{}", t);
    }
}

#[test]
fn reordered_record_resolves_and_lists() {
    let mut store = HashMap::new();
    store.insert("h:a".to_string(), r#"{"hits":4,"redirect_url":"https://r.test"}"#.to_string());
    assert_eq!(resolve(&mut store, "h", "a/b"), Ok("https://r.test".to_string()));
    assert_eq!(hits_of(&store, "h:a"), 5);
    assert_eq!(store.get("h:a").unwrap(), r#"{"redirect_url":"https://r.test","hits":5}"#);
    let links = finish_list("h", vec![("h:z".to_string(), Some(r#"{ "hits": 2, "redirect_url": "https://z.test" }"#.to_string()))]);
    assert_eq!(links.len(), 1);
    assert_eq!((links[0].slug.as_str(), links[0].redirect_url.as_str(), links[0].hits), ("z", "https://z.test", 2));
    assert_eq!(stats(&store, "h", "a"), Ok(("https://r.test".to_string(), 5)));
}
