use ipwall::net::NetworkPrefix;
use ipwall::provider::{extract_comment, parse_body, Provider, Source};
use ipwall::text::trim_str;
use ipwall::timestamp::Timestamp;
use ipwall::Error;

fn v4(a: u32, b: u32, c: u32, d: u32, prefix: u8) -> NetworkPrefix {
    NetworkPrefix::V4 { addr: (a << 24) | (b << 16) | (c << 8) | d, prefix }
}

#[test]
fn comment() {
    assert_eq!(
        "2.56.255.0/24 ",
        extract_comment("2.56.255.0/24 ; SBL444288")
    );
}

#[test]
fn comment_hash_marker() {
    assert_eq!("1.2.3.0/24 ", extract_comment("1.2.3.0/24 # whole range"));
    assert_eq!("", extract_comment("# a full-line comment"));
    assert_eq!("a", extract_comment("a#b;c"));
    assert_eq!("no marker here", extract_comment("no marker here"));
}

#[test]
fn trim_both_ends() {
    assert_eq!("1.2.3.0/24", trim_str("\t 1.2.3.0/24 \r"));
    assert_eq!("", trim_str("   "));
    assert_eq!("a b", trim_str("a b"));
}

#[test]
fn parse_body_collects_prefixes() {
    let set = parse_body("198.51.100.0/24\n203.0.113.5/32 ; test\n\n").unwrap();
    assert_eq!(set.len(), 2);
    assert!(set.contains(&v4(198, 51, 100, 0, 24)));
    assert!(set.contains(&v4(203, 0, 113, 5, 32)));
}

#[test]
fn parse_body_collapses_duplicates() {
    let set = parse_body("1.2.3.0/24\n1.2.3.0/24 ; again\n1.2.3.0/24\n").unwrap();
    assert_eq!(set.len(), 1);
    assert!(set.contains(&v4(1, 2, 3, 0, 24)));
}

#[test]
fn parse_body_twice_yields_same_membership() {
    let body = "10.0.0.0/8\n192.0.2.1/32\n172.16.0.0/12 ; private\n";
    let a = parse_body(body).unwrap();
    let b = parse_body(body).unwrap();
    assert_eq!(a.len(), b.len());
    assert!(a.contains(&v4(10, 0, 0, 0, 8)));
    assert!(b.contains(&v4(10, 0, 0, 0, 8)));
    assert!(a.contains(&v4(192, 0, 2, 1, 32)));
    assert!(b.contains(&v4(192, 0, 2, 1, 32)));
    assert!(a.contains(&v4(172, 16, 0, 0, 12)));
    assert!(b.contains(&v4(172, 16, 0, 0, 12)));
}

#[test]
fn parse_body_rejects_bad_prefix() {
    assert_eq!(parse_body("1.2.3.0/24\nnot-a-prefix\n").map(|_| ()), Err(Error::PrefixParse));
    assert_eq!(parse_body("1.2.3.4/40\n").map(|_| ()), Err(Error::PrefixParse));
}

#[test]
fn parse_body_accepts_ipv6() {
    let set = parse_body("2001:db8::/32\n").unwrap();
    assert_eq!(set.len(), 1);
    assert!(set.contains(&NetworkPrefix::V6 { addr: 0x20010db8 << 96, prefix: 32 }));
}

#[test]
fn get_parses_header_and_body() {
    let source = Source::FireHolLevel2;
    let provider = Provider::new(&source);
    let (set, wm) = provider
        .get(
            None,
            Some("Wed, 01 Jan 2020 00:00:00 +0000"),
            "198.51.100.0/24\n203.0.113.5/32 ; test\n\n",
        )
        .unwrap();
    assert_eq!(set.len(), 2);
    assert!(set.contains(&v4(198, 51, 100, 0, 24)));
    assert!(set.contains(&v4(203, 0, 113, 5, 32)));
    assert_eq!(wm, Some(Timestamp { secs: 1577836800, offset_secs: 0 }));

    // A second run with the identical header and that watermark stored still
    // parses the body in full: the header is not strictly older, so there is
    // no short circuit.
    let (set2, wm2) = provider
        .get(
            wm,
            Some("Wed, 01 Jan 2020 00:00:00 +0000"),
            "198.51.100.0/24\n203.0.113.5/32 ; test\n\n",
        )
        .unwrap();
    assert_eq!(set2.len(), 2);
    assert_eq!(wm2, Some(Timestamp { secs: 1577836800, offset_secs: 0 }));
}

#[test]
fn get_staleness_guard() {
    let source = Source::FireHolLevel3;
    let provider = Provider::new(&source);
    let t1 = Timestamp { secs: 1577836800, offset_secs: 0 };
    let (set, wm) = provider
        .get(
            Some(t1),
            Some("Tue, 31 Dec 2019 23:59:59 +0000"),
            "198.51.100.0/24\n",
        )
        .unwrap();
    // The set is empty and the watermark is the previous one, never the
    // older reported timestamp.
    assert!(set.is_empty());
    assert_eq!(wm, Some(t1));
    assert_ne!(wm, Some(Timestamp { secs: 1577836799, offset_secs: 0 }));
}

#[test]
fn get_without_header_carries_watermark() {
    let source = Source::FireHolLevel1;
    let provider = Provider::new(&source);
    let t1 = Timestamp { secs: 4242, offset_secs: 3600 };
    let (set, wm) = provider.get(Some(t1), None, "1.2.3.0/24\n").unwrap();
    assert_eq!(set.len(), 1);
    assert_eq!(wm, Some(t1));
    let (set2, wm2) = provider.get(None, None, "").unwrap();
    assert!(set2.is_empty());
    assert_eq!(wm2, None);
}

#[test]
fn get_rejects_bad_header() {
    let source = Source::FireHolLevel2;
    let provider = Provider::new(&source);
    let r = provider.get(None, Some("not a date"), "1.2.3.0/24\n");
    assert_eq!(r.map(|_| ()), Err(Error::TimestampParse));
}

#[test]
fn get_rejects_bad_body_after_good_header() {
    let source = Source::FireHolLevel2;
    let provider = Provider::new(&source);
    let r = provider.get(None, Some("Wed, 01 Jan 2020 00:00:00 +0000"), "bogus\n");
    assert_eq!(r.map(|_| ()), Err(Error::PrefixParse));
}

#[test]
fn source_names_and_urls() {
    assert_eq!(Source::FireHolLevel1.name(), "firehol-level1");
    assert_eq!(Source::FireHolLevel2.name(), "firehol-level2");
    assert_eq!(Source::FireHolLevel3.name(), "firehol-level3");
    assert_eq!(
        Source::FireHolLevel1.url(),
        "https://iplists.firehol.org/files/firehol_level1.netset"
    );
    assert_eq!(
        Source::FireHolLevel2.url(),
        "https://iplists.firehol.org/files/firehol_level2.netset"
    );
    assert_eq!(
        Source::FireHolLevel3.url(),
        "https://iplists.firehol.org/files/firehol_level3.netset"
    );
    let custom = Source::Custom { name: "mylist".to_string(), url: "http://example.com/list".to_string() };
    assert_eq!(custom.name(), "mylist");
    assert_eq!(custom.url(), "http://example.com/list");
}

#[test]
fn plan_after_fetch_skips_empty_sets() {
    let empty = parse_body("").unwrap();
    let wm = Some(Timestamp { secs: 7, offset_secs: 0 });
    let (do_block, persist) = ipwall::plan_after_fetch(&empty, wm);
    assert!(!do_block);
    assert_eq!(persist, wm);

    let full = parse_body("1.2.3.0/24\n").unwrap();
    let (do_block2, persist2) = ipwall::plan_after_fetch(&full, None);
    assert!(do_block2);
    assert_eq!(persist2, None);
}

#[test]
fn timestamp_order_is_by_instant() {
    let a = Timestamp { secs: 100, offset_secs: 7200 };
    let b = Timestamp { secs: 200, offset_secs: -3600 };
    assert!(a.is_before(&b));
    assert!(!b.is_before(&a));
    assert!(!a.is_before(&a));
}
