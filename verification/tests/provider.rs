use blockchain_data::{provider_url, ProviderUpdateError};

#[test]
fn provider_url_needs_a_configured_provider() {
    assert_eq!(
        provider_url(false, "http://localhost:8545").err(),
        Some(ProviderUpdateError::NotConfigured)
    );
    assert_eq!(provider_url(false, "not a url").err(), Some(ProviderUpdateError::NotConfigured));
}

#[test]
fn provider_url_parses_the_text() {
    let u = provider_url(true, "http://localhost:8545").unwrap();
    assert_eq!(u.as_str(), "http://localhost:8545/");
    assert_eq!(u.scheme(), "http");
}

#[test]
fn provider_url_refuses_what_is_not_a_url() {
    assert_eq!(
        provider_url(true, "not a url").err(),
        Some(ProviderUpdateError::InvalidUrl(url::ParseError::RelativeUrlWithoutBase))
    );
    assert!(matches!(provider_url(true, "").err(), Some(ProviderUpdateError::InvalidUrl(_))));
}
