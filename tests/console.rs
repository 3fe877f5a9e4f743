use vrl_core::console::{AcknowledgementsConfig, Codec, ConsoleSinkConfig, Target};

#[test]
fn generate_config() {
    let config = ConsoleSinkConfig::generate_config();
    assert_eq!(config.target, Target::Stdout);
    assert_eq!(config.encoding.codec, Codec::Json);
    assert_eq!(config.encoding.framing, None);
    assert_eq!(config.acknowledgements().enabled, None);
}

#[test]
fn target_defaults_to_stdout() {
    assert_eq!(Target::default(), Target::Stdout);
    assert_eq!(AcknowledgementsConfig::default().enabled, None);
}
