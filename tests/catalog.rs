use mirro_rs::archlinux::external::{ArchLinuxMirrors, Url};
use mirro_rs::archlinux::internal::ArchMirrors;

fn record(country: &str, code: &str, url: &str) -> Url {
    Url {
        url: url.to_string(),
        protocol: "https".to_string(),
        country: country.to_string(),
        country_code: code.to_string(),
        active: true,
        ..Default::default()
    }
}

fn feed(urls: Vec<Url>) -> ArchLinuxMirrors {
    ArchLinuxMirrors {
        cutoff: 3600,
        last_check: "2022-01-01T00:00:00Z".to_string(),
        num_checks: 4,
        check_frequency: 900,
        urls,
        version: 3,
    }
}

#[test]
fn groups_by_exact_country_name() {
    let catalog = ArchMirrors::from_feed(feed(vec![
        record("FR", "FR", "a"),
        record("FR", "FR", "b"),
        record("", "", "c"),
    ]));
    assert_eq!(catalog.countries.len(), 2);
    assert_eq!(catalog.countries[0].country, "FR");
    assert_eq!(catalog.countries[0].mirrors.len(), 2);
    assert_eq!(catalog.countries[0].mirrors[0].url, "a");
    assert_eq!(catalog.countries[0].mirrors[1].url, "b");
    assert_eq!(catalog.countries[1].country, "");
    assert_eq!(catalog.countries[1].mirrors.len(), 1);
    assert_eq!(catalog.countries[1].mirrors[0].url, "c");
}

#[test]
fn names_differing_in_case_stay_apart_and_first_code_wins() {
    let catalog = ArchMirrors::from_feed(feed(vec![
        record("Germany", "DE", "x"),
        record("germany", "de", "y"),
        record("Germany", "XX", "z"),
    ]));
    assert_eq!(catalog.countries.len(), 2);
    assert_eq!(catalog.countries[0].country, "Germany");
    assert_eq!(catalog.countries[0].country_code, "DE");
    assert_eq!(catalog.countries[0].mirrors.len(), 2);
    assert_eq!(catalog.countries[0].mirrors[1].url, "z");
    assert_eq!(catalog.countries[1].country_code, "de");
}

#[test]
fn header_fields_are_kept_and_empty_feed_gives_no_country() {
    let catalog = ArchMirrors::from_feed(feed(vec![]));
    assert!(catalog.countries.is_empty());
    assert_eq!(catalog.cutoff, 3600);
    assert_eq!(catalog.last_check, "2022-01-01T00:00:00Z");
    assert_eq!(catalog.num_checks, 4);
    assert_eq!(catalog.check_frequency, 900);
    assert_eq!(catalog.version, 3);
}

#[test]
fn mirror_fields_are_carried_over() {
    let mut r = record("SE", "SE", "https://m.example/");
    r.last_sync = Some("2022-01-01".to_string());
    r.score = Some(1.5f64.to_bits());
    r.delay = Some(42);
    r.ipv6 = true;
    r.details = "d".to_string();
    let catalog = ArchMirrors::from_feed(feed(vec![r]));
    let m = &catalog.countries[0].mirrors[0];
    assert_eq!(m.url, "https://m.example/");
    assert_eq!(m.protocol, "https");
    assert_eq!(m.last_sync.as_deref(), Some("2022-01-01"));
    assert_eq!(m.score.map(f64::from_bits), Some(1.5));
    assert_eq!(m.delay, Some(42));
    assert!(m.active && m.ipv6 && !m.ipv4);
    assert_eq!(m.details, "d");
}
