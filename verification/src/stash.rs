//! Persistent handedness configuration and its raw flash record.
//!
//! The configuration lives in one flash sector as a fixed-size record: a
//! magic word, a hand word, and reserved padding out to the sector. This
//! module holds the record layout and the checked conversions in both
//! directions; reading and writing the flash itself is hardware work and
//! happens outside this crate.

use vstd::prelude::*;

verus! {

/// Magic word marking a valid configuration record.
pub const CONFIG_MAGIC: u32 = 0x1113_0001;

/// Number of reserved padding words in the record.
pub const RESERVED_WORDS: usize = 1022;

/// Which half of the keyboard this firmware drives.
#[derive(Debug, Clone, Copy, PartialEq, Eq, Structural)]
pub enum Hand {
    Left,
    Right,
}

/// The persisted configuration.
#[derive(Debug, Clone, Copy, PartialEq, Eq, Structural)]
pub struct Config {
    pub hand: Hand,
}

impl Default for Config {
    /// Falling back to the left half when no valid record is stored.
    fn default() -> (r: Self)
        ensures
            r.hand == Hand::Left,
    {
        Config { hand: Hand::Left }
    }
}

/// Why a raw record does not describe a configuration.
#[derive(Debug, Clone, Copy, PartialEq, Eq, Structural)]
pub enum ConfigError {
    /// The magic word is absent: the sector holds no record.
    InvalidMagic,
    /// The hand word encodes neither half.
    InvalidHand,
}

impl ConfigError {
    /// A short description for logging.
    pub fn describe(self) -> (r: &'static str)
        ensures
            self is InvalidMagic ==> r@ == "Invalid magic"@,
            self is InvalidHand ==> r@ == "Invalid hand"@,
    {
        match self {
            ConfigError::InvalidMagic => "Invalid magic",
            ConfigError::InvalidHand => "Invalid hand",
        }
    }
}

/// The flash record: exactly the bytes of one configuration sector.
pub struct RawConfig {
    pub magic: u32,
    pub hand: u32,
    pub reserved: [u32; RESERVED_WORDS],
}

/// The word encoding each hand.
pub open spec fn spec_hand_code(h: Hand) -> u32 {
    match h {
        Hand::Left => 0u32,
        Hand::Right => 1u32,
    }
}

/// What a raw record describes: a configuration when the magic word is
/// present and the hand word encodes a half, the exact error otherwise.
pub open spec fn spec_config_of_raw(magic: u32, hand: u32) -> Result<Config, ConfigError> {
    if magic != CONFIG_MAGIC {
        Err(ConfigError::InvalidMagic)
    } else if hand == 0 {
        Ok(Config { hand: Hand::Left })
    } else if hand == 1 {
        Ok(Config { hand: Hand::Right })
    } else {
        Err(ConfigError::InvalidHand)
    }
}

impl RawConfig {
    /// Byte footprint of the record on flash: the magic word, the hand
    /// word and the reserved padding, four bytes each.
    pub fn size() -> (r: usize)
        ensures
            r == 4 * (2 + RESERVED_WORDS),
    {
        4 * (2 + RESERVED_WORDS)
    }

    /// The record that persists a configuration: magic word set, hand
    /// word encoding the half, padding zeroed.
    pub fn from_config(config: Config) -> (r: Self)
        ensures
            r.magic == CONFIG_MAGIC,
            r.hand == spec_hand_code(config.hand),
            spec_config_of_raw(r.magic, r.hand) == Ok::<Config, ConfigError>(config),
    {
        let hand: u32 = match config.hand {
            Hand::Left => 0,
            Hand::Right => 1,
        };
        RawConfig { magic: CONFIG_MAGIC, hand, reserved: [0u32; RESERVED_WORDS] }
    }
}

impl Config {
    /// Checks a raw record: the magic word must be present and the hand
    /// word must encode a half; each failure names its reason.
    pub fn from_raw(raw: &RawConfig) -> (r: Result<Config, ConfigError>)
        ensures
            r == spec_config_of_raw(raw.magic, raw.hand),
    {
        if raw.magic != CONFIG_MAGIC {
            return Err(ConfigError::InvalidMagic);
        }
        match raw.hand {
            0 => Ok(Config { hand: Hand::Left }),
            1 => Ok(Config { hand: Hand::Right }),
            _ => Err(ConfigError::InvalidHand),
        }
    }
}

/// A persisted configuration reads back unchanged: the record written for
/// any configuration passes both checks and yields that configuration.
pub proof fn lemma_config_round_trip(config: Config)
    ensures
        spec_config_of_raw(CONFIG_MAGIC, spec_hand_code(config.hand)) == Ok::<
            Config,
            ConfigError,
        >(config),
{
}

} // verus!
