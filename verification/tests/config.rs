use sweep_core::stash::{
    Config, ConfigError, Hand, RawConfig, CONFIG_MAGIC, RESERVED_WORDS,
};

#[test]
fn default_config_is_left_handed() {
    assert_eq!(Config::default().hand, Hand::Left);
}

#[test]
fn config_round_trips_through_the_record() {
    for hand in [Hand::Left, Hand::Right] {
        let config = Config { hand };
        let raw = RawConfig::from_config(config);
        assert_eq!(Config::from_raw(&raw), Ok(config));
    }
}

#[test]
fn record_without_magic_is_rejected() {
    let raw = RawConfig { magic: 0, hand: 0, reserved: [0; RESERVED_WORDS] };
    assert_eq!(Config::from_raw(&raw), Err(ConfigError::InvalidMagic));
    assert_eq!(ConfigError::InvalidMagic.describe(), "Invalid magic");
}

#[test]
fn record_with_unknown_hand_is_rejected() {
    let raw = RawConfig { magic: CONFIG_MAGIC, hand: 7, reserved: [0; RESERVED_WORDS] };
    assert_eq!(Config::from_raw(&raw), Err(ConfigError::InvalidHand));
    assert_eq!(ConfigError::InvalidHand.describe(), "Invalid hand");
}

#[test]
fn record_hand_codes() {
    assert_eq!(RawConfig::from_config(Config { hand: Hand::Left }).hand, 0);
    assert_eq!(RawConfig::from_config(Config { hand: Hand::Right }).hand, 1);
    let raw = RawConfig { magic: CONFIG_MAGIC, hand: 1, reserved: [0; RESERVED_WORDS] };
    assert_eq!(Config::from_raw(&raw), Ok(Config { hand: Hand::Right }));
}

#[test]
fn record_fills_its_flash_sector() {
    assert_eq!(RawConfig::size(), 4096);
}
