use locale_provider::codec::encode_plural_rules;
use locale_provider::domain::{DataError, Domain, Payload};
use locale_provider::entries::{DomainSource, RawEntry};
use locale_provider::lazy::LazyProvider;
use locale_provider::plurals::{cardinal_v1, ordinal_v1, PluralRuleStringsV1};
use locale_provider::resource::{DataRequest, ResourceKey, ResourceOptions};
use locale_provider::router::{CldrJsonDataProvider, SourceSet};

fn key(category: &str, sub_category: &str, version: u32) -> ResourceKey {
    ResourceKey {
        category: category.to_string(),
        sub_category: sub_category.to_string(),
        version,
    }
}

fn opts(language: &str) -> ResourceOptions {
    ResourceOptions { language: language.to_string(), variant: None }
}

fn request(k: ResourceKey, language: &str) -> DataRequest {
    DataRequest { key: k, options: opts(language) }
}

fn one_rule(text: &str) -> PluralRuleStringsV1 {
    PluralRuleStringsV1 {
        zero: None,
        one: Some(text.to_string()),
        two: None,
        few: None,
        many: None,
    }
}

fn plural_raw(sub_category: &str, language: &str, rec: &PluralRuleStringsV1) -> RawEntry {
    RawEntry {
        key: key("plurals", sub_category, 1),
        options: opts(language),
        bytes: encode_plural_rules(rec),
    }
}

fn empty_sources() -> SourceSet {
    SourceSet {
        dates: DomainSource::Available(vec![]),
        likelysubtags: DomainSource::Available(vec![]),
        numbers: DomainSource::Available(vec![]),
        plurals: DomainSource::Available(vec![]),
        timezones: DomainSource::Available(vec![]),
    }
}

#[test]
fn routes_to_owning_domain() {
    let mut provider = CldrJsonDataProvider::new();
    let mut sources = empty_sources();
    sources.plurals = DomainSource::Available(vec![plural_raw("cardinal", "en", &one_rule("n = 1"))]);
    sources.numbers = DomainSource::Available(vec![RawEntry {
        key: key("numbers", "symbols", 1),
        options: opts("en"),
        bytes: vec![42, 43],
    }]);

    let resp = provider
        .load_payload(&request(cardinal_v1(), "en"), &sources)
        .expect("the plurals domain owns this key");
    assert_eq!(resp.payload, Payload::PluralRules(one_rule("n = 1")));
    assert_eq!(resp.options, opts("en"));
    assert!(provider.plurals.is_built());
    assert!(!provider.numbers.is_built());
    assert!(!provider.dates.is_built());

    let resp = provider
        .load_payload(&request(key("numbers", "symbols", 1), "en"), &sources)
        .expect("the numbers domain owns this key");
    assert_eq!(resp.payload, Payload::Opaque(vec![42, 43]));
    assert!(provider.numbers.is_built());
    assert!(!provider.timezones.is_built());
}

#[test]
fn unsupported_key_carries_the_exact_key() {
    let mut provider = CldrJsonDataProvider::new();
    let sources = empty_sources();
    let k = key("currencies", "symbols", 3);
    let err = provider
        .load_payload(&request(k.clone(), "en"), &sources)
        .expect_err("no domain claims the currencies category");
    assert_eq!(err, DataError::UnsupportedResourceKey(k));
    assert!(!provider.dates.is_built());
    assert!(!provider.plurals.is_built());
}

#[test]
fn supports_key_is_static() {
    assert!(CldrJsonDataProvider::supports_key(&cardinal_v1()).is_ok());
    assert!(CldrJsonDataProvider::supports_key(&ordinal_v1()).is_ok());
    assert!(CldrJsonDataProvider::supports_key(&key("dates", "gregory", 1)).is_ok());
    assert!(CldrJsonDataProvider::supports_key(&key("likelysubtags", "all", 1)).is_ok());
    assert!(CldrJsonDataProvider::supports_key(&key("time_zones", "all", 1)).is_ok());
    let k = key("collation", "standard", 1);
    assert_eq!(
        CldrJsonDataProvider::supports_key(&k),
        Err(DataError::UnsupportedResourceKey(k))
    );
}

#[test]
fn owned_failure_does_not_fall_through() {
    let mut provider = CldrJsonDataProvider::new();
    let mut sources = empty_sources();
    // Malformed plurals source; a healthy timezones domain sits later in the
    // dispatch order and must never be asked.
    sources.plurals = DomainSource::Available(vec![RawEntry {
        key: key("plurals", "cardinal", 1),
        options: opts("en"),
        bytes: vec![9, 9, 9],
    }]);
    sources.timezones = DomainSource::Available(vec![RawEntry {
        key: key("time_zones", "all", 1),
        options: opts("en"),
        bytes: vec![1],
    }]);
    let k = cardinal_v1();
    let err = provider
        .load_payload(&request(k.clone(), "en"), &sources)
        .expect_err("the plurals domain owns the key and fails");
    assert_eq!(err, DataError::DomainLoadFailure(Domain::Plurals, k));
    assert!(!provider.timezones.is_built());
    assert!(!provider.plurals.is_built());
}

#[test]
fn missing_source_is_misconfiguration() {
    let mut provider = CldrJsonDataProvider::new();
    let mut sources = empty_sources();
    sources.plurals = DomainSource::Missing;
    let err = provider
        .load_payload(&request(cardinal_v1(), "en"), &sources)
        .expect_err("the data root is absent");
    assert_eq!(err, DataError::MisconfiguredEnvironment(Domain::Plurals));
}

#[test]
fn option_not_found_is_the_domains_failure() {
    let mut provider = CldrJsonDataProvider::new();
    let mut sources = empty_sources();
    sources.plurals = DomainSource::Available(vec![plural_raw("cardinal", "en", &one_rule("n = 1"))]);
    let k = cardinal_v1();
    let err = provider
        .load_payload(&request(k.clone(), "fr"), &sources)
        .expect_err("no entry for this language");
    assert_eq!(err, DataError::DomainLoadFailure(Domain::Plurals, k));
}

#[test]
fn duplicate_address_is_a_malformed_source() {
    let mut provider = CldrJsonDataProvider::new();
    let mut sources = empty_sources();
    sources.plurals = DomainSource::Available(vec![
        plural_raw("cardinal", "en", &one_rule("n = 1")),
        plural_raw("cardinal", "en", &one_rule("n = 2")),
    ]);
    let k = cardinal_v1();
    let err = provider
        .load_payload(&request(k.clone(), "en"), &sources)
        .expect_err("two entries share one address");
    assert_eq!(err, DataError::DomainLoadFailure(Domain::Plurals, k));
}

#[test]
fn foreign_entry_is_a_malformed_source() {
    let mut provider = CldrJsonDataProvider::new();
    let mut sources = empty_sources();
    sources.plurals = DomainSource::Available(vec![RawEntry {
        key: key("numbers", "symbols", 1),
        options: opts("en"),
        bytes: vec![1],
    }]);
    let k = cardinal_v1();
    let err = provider
        .load_payload(&request(k.clone(), "en"), &sources)
        .expect_err("the entry's key is not the domain's own");
    assert_eq!(err, DataError::DomainLoadFailure(Domain::Plurals, k));
}

#[test]
fn failed_build_is_not_cached() {
    let mut slot = LazyProvider::new(Domain::Plurals);
    let bad = DomainSource::Available(vec![RawEntry {
        key: key("plurals", "cardinal", 1),
        options: opts("en"),
        bytes: vec![255],
    }]);
    let good = DomainSource::Available(vec![plural_raw("cardinal", "en", &one_rule("n = 1"))]);
    let k = cardinal_v1();

    assert!(slot.with_built(&bad, &k).is_err());
    assert!(!slot.is_built());
    assert!(slot.with_built(&bad, &k).is_err());
    assert!(!slot.is_built());
    // The build is attempted afresh: a fixed source now succeeds.
    assert!(slot.with_built(&good, &k).is_ok());
    assert!(slot.is_built());
}

#[test]
fn successful_build_happens_exactly_once() {
    let mut slot = LazyProvider::new(Domain::Plurals);
    let first = DomainSource::Available(vec![plural_raw("cardinal", "en", &one_rule("n = 1"))]);
    let second = DomainSource::Available(vec![plural_raw("cardinal", "en", &one_rule("n = 9"))]);
    let k = cardinal_v1();

    assert!(slot.with_built(&first, &k).is_ok());
    // Later calls return the cached value and never re-run the build: the
    // entries stay those of the first source, whatever is handed in now.
    assert!(slot.with_built(&second, &k).is_ok());
    assert!(slot.with_built(&DomainSource::Missing, &k).is_ok());
    let resp = slot
        .load(&request(cardinal_v1(), "en"), &second)
        .expect("the slot is built");
    assert_eq!(resp.payload, Payload::PluralRules(one_rule("n = 1")));
}

#[test]
fn retry_after_fix_through_the_router() {
    let mut provider = CldrJsonDataProvider::new();
    let mut sources = empty_sources();
    sources.plurals = DomainSource::Missing;
    let req = request(cardinal_v1(), "en");
    assert!(provider.load_payload(&req, &sources).is_err());
    // The environment is fixed between the calls; the next request succeeds.
    sources.plurals = DomainSource::Available(vec![plural_raw("cardinal", "en", &one_rule("n = 1"))]);
    let resp = provider.load_payload(&req, &sources).expect("the source is fixed now");
    assert_eq!(resp.payload, Payload::PluralRules(one_rule("n = 1")));
}

#[test]
fn enumeration_is_exhaustive_and_single_pass() {
    let mut provider = CldrJsonDataProvider::new();
    let mut sources = empty_sources();
    sources.plurals = DomainSource::Available(vec![
        plural_raw("cardinal", "en", &one_rule("n = 1")),
        plural_raw("cardinal", "fr", &one_rule("n = 0..1")),
        plural_raw("cardinal", "ar", &one_rule("n = 1")),
    ]);
    let mut cursor = provider
        .supported_options_for_key(&cardinal_v1(), &sources)
        .expect("the plurals domain owns the key");
    // Exactly en, fr, ar, each once, in entry order; then the pass is over
    // and stays over.
    assert_eq!(cursor.next(), Some(opts("en")));
    assert_eq!(cursor.next(), Some(opts("fr")));
    assert_eq!(cursor.next(), Some(opts("ar")));
    assert_eq!(cursor.next(), None);
    assert_eq!(cursor.next(), None);
}

#[test]
fn enumeration_filters_by_key() {
    let mut provider = CldrJsonDataProvider::new();
    let mut sources = empty_sources();
    sources.plurals = DomainSource::Available(vec![
        plural_raw("cardinal", "en", &one_rule("n = 1")),
        plural_raw("ordinal", "fr", &one_rule("n = 1")),
        plural_raw("cardinal", "ar", &one_rule("n = 1")),
    ]);
    let mut cursor = provider
        .supported_options_for_key(&ordinal_v1(), &sources)
        .expect("the plurals domain owns the key");
    assert_eq!(cursor.next(), Some(opts("fr")));
    assert_eq!(cursor.next(), None);
}

#[test]
fn enumeration_of_empty_domain_is_empty() {
    let mut provider = CldrJsonDataProvider::new();
    let sources = empty_sources();
    let mut cursor = provider
        .supported_options_for_key(&cardinal_v1(), &sources)
        .expect("an empty source still builds");
    assert_eq!(cursor.next(), None);
    assert!(provider.plurals.is_built());
}

#[test]
fn enumeration_of_unsupported_key_fails() {
    let mut provider = CldrJsonDataProvider::new();
    let sources = empty_sources();
    let k = key("collation", "standard", 1);
    assert_eq!(
        provider.supported_options_for_key(&k, &sources).err(),
        Some(DataError::UnsupportedResourceKey(k))
    );
}

#[test]
fn variant_dimension_distinguishes_options() {
    let mut provider = CldrJsonDataProvider::new();
    let mut sources = empty_sources();
    let with_variant = ResourceOptions {
        language: "en".to_string(),
        variant: Some("buddhist".to_string()),
    };
    sources.dates = DomainSource::Available(vec![
        RawEntry { key: key("dates", "gregory", 1), options: opts("en"), bytes: vec![1] },
        RawEntry {
            key: key("dates", "gregory", 1),
            options: with_variant.clone(),
            bytes: vec![2],
        },
    ]);
    let resp = provider
        .load_payload(
            &DataRequest { key: key("dates", "gregory", 1), options: with_variant.clone() },
            &sources,
        )
        .expect("the variant-carrying entry exists");
    assert_eq!(resp.payload, Payload::Opaque(vec![2]));
    assert_eq!(resp.options, with_variant);
}
