use bombadil::options::{parse_header, parse_instrumentation_config, InstrumentationConfig};

#[test]
fn header_splits_at_the_first_equals_sign() {
    assert_eq!(parse_header("Authorization=Bearer a=b").unwrap(), ("Authorization".to_string(), "Bearer a=b".to_string()));
    assert_eq!(parse_header("X-Empty=").unwrap(), ("X-Empty".to_string(), "".to_string()));
    assert_eq!(parse_header("no-equals").unwrap_err(), "invalid header \"no-equals\", expected KEY=VALUE");
}

#[test]
fn instrumentation_targets() {
    assert_eq!(parse_instrumentation_config("").unwrap(), InstrumentationConfig::none());
    assert_eq!(parse_instrumentation_config("files").unwrap(), InstrumentationConfig { instrument_files: true, instrument_inline: false });
    assert_eq!(parse_instrumentation_config(" inline , files ").unwrap(), InstrumentationConfig::all());
    assert_eq!(parse_instrumentation_config(",,inline,").unwrap(), InstrumentationConfig { instrument_files: false, instrument_inline: true });
    assert_eq!(
        parse_instrumentation_config("files, scripts").unwrap_err(),
        "unknown instrumentation target 'scripts', valid options are: files, inline"
    );
}

#[test]
fn instrument_everything_by_default() {
    assert_eq!(InstrumentationConfig::default(), InstrumentationConfig::all());
    assert!(InstrumentationConfig::all().instrument_files && InstrumentationConfig::all().instrument_inline);
}

use bombadil::options::parse_permissions;

#[test]
fn permissions_are_trimmed_and_nonempty() {
    assert_eq!(
        parse_permissions("local-network-access,local-network,loopback-network"),
        vec!["local-network-access".to_string(), "local-network".to_string(), "loopback-network".to_string()]
    );
    assert_eq!(parse_permissions(" geolocation, ,notifications ,"), vec!["geolocation".to_string(), "notifications".to_string()]);
    assert!(parse_permissions("").is_empty());
}
