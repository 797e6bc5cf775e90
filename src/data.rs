//! The normalized record of one device at one point in time.
//!
//! Every optional value is unset when the device did not supply it; none is
//! guessed or defaulted.
use vstd::prelude::*;
use crate::decimal::{Decimal, Ratio, scaled_quotient};
use std::str::FromStr;

verus! {

/// Units of hashrate, each a thousand times the one before.
#[derive(Debug, Clone, Copy, PartialEq, Eq, Structural)]
pub enum HashRateUnit {
    Hash,
    KiloHash,
    MegaHash,
    GigaHash,
    TeraHash,
    PetaHash,
    ExaHash,
    ZettaHash,
    YottaHash,
}

/// Hash algorithms a device may compute.
#[derive(Debug, Clone, Copy, PartialEq, Eq, Structural)]
pub enum HashAlgorithm {
    SHA256,
}

/// An amount of hashes computed per second.
#[derive(Debug, Clone, Copy, PartialEq, Eq)]
pub struct HashRate {
    /// The amount, in `unit`.
    pub value: Decimal,
    /// The unit of `value`.
    pub unit: HashRateUnit,
    /// The algorithm of the computed hashes.
    pub algo: HashAlgorithm,
}

/// Electrical power.
#[derive(Debug, Clone, Copy, PartialEq, Eq)]
pub struct Power {
    pub watts: Decimal,
}

/// A temperature.
#[derive(Debug, Clone, Copy, PartialEq, Eq)]
pub struct Temperature {
    pub celsius: Decimal,
}

/// An electrical potential.
#[derive(Debug, Clone, Copy, PartialEq, Eq)]
pub struct Voltage {
    pub millivolts: Decimal,
}

/// A clock frequency.
#[derive(Debug, Clone, Copy, PartialEq, Eq)]
pub struct Frequency {
    pub megahertz: Decimal,
}

/// A rotation speed.
#[derive(Debug, Clone, Copy, PartialEq, Eq)]
pub struct AngularVelocity {
    pub rpm: Decimal,
}

/// The power of ten that turns an amount in `unit` into terahashes.
pub open spec fn terahash_exponent(unit: HashRateUnit) -> int {
    match unit {
        HashRateUnit::Hash => -12,
        HashRateUnit::KiloHash => -9,
        HashRateUnit::MegaHash => -6,
        HashRateUnit::GigaHash => -3,
        HashRateUnit::TeraHash => 0,
        HashRateUnit::PetaHash => 3,
        HashRateUnit::ExaHash => 6,
        HashRateUnit::ZettaHash => 9,
        HashRateUnit::YottaHash => 12,
    }
}

impl Power {
    /// Power per unit of hashrate, in watts per terahash per second: the
    /// watts divided by the hashrate converted to terahashes per second.
    /// Absent when the hashrate is zero.
    pub fn div(self, hash_rate: HashRate) -> (r: Option<Ratio>)
        ensures
            r == scaled_quotient(self.watts, hash_rate.value, -terahash_exponent(hash_rate.unit)),
    {
        let to_tera: i64 = match hash_rate.unit {
            HashRateUnit::Hash => -12,
            HashRateUnit::KiloHash => -9,
            HashRateUnit::MegaHash => -6,
            HashRateUnit::GigaHash => -3,
            HashRateUnit::TeraHash => 0,
            HashRateUnit::PetaHash => 3,
            HashRateUnit::ExaHash => 6,
            HashRateUnit::ZettaHash => 9,
            HashRateUnit::YottaHash => 12,
        };
        crate::decimal::quotient(self.watts, hash_rate.value, -to_tera)
    }
}

/// One chip of a hashboard.
#[derive(Debug, Clone, Copy, PartialEq, Eq)]
pub struct ChipData {
    /// The position of the chip on the board, from 0.
    pub position: u16,
    /// The current hashrate of the chip.
    pub hashrate: Option<HashRate>,
    /// The current chip temperature.
    pub temperature: Option<Temperature>,
    /// The voltage set point of the chip.
    pub voltage: Option<Voltage>,
    /// The frequency set point of the chip.
    pub frequency: Option<Frequency>,
    /// Whether the chip's tuning has completed.
    pub tuned: Option<bool>,
    /// Whether the chip is working.
    pub working: Option<bool>,
}

/// One hashboard.
#[derive(Debug, Clone, PartialEq, Eq)]
pub struct BoardData {
    /// The board position, from 0.
    pub position: u8,
    /// The current hashrate of the board.
    pub hashrate: Option<HashRate>,
    /// The expected or factory hashrate of the board.
    pub expected_hashrate: Option<HashRate>,
    /// The board (PCB) temperature.
    pub board_temperature: Option<Temperature>,
    /// The chip temperature at the intake.
    pub intake_temperature: Option<Temperature>,
    /// The chip temperature at the outlet.
    pub outlet_temperature: Option<Temperature>,
    /// The expected number of chips on the board.
    pub expected_chips: Option<u16>,
    /// The number of working chips on the board.
    pub working_chips: Option<u16>,
    /// The serial number of the board.
    pub serial_number: Option<String>,
    /// Per-chip details; often empty.
    pub chips: Vec<ChipData>,
    /// The average voltage or voltage set point of the board.
    pub voltage: Option<Voltage>,
    /// The average frequency or frequency set point of the board.
    pub frequency: Option<Frequency>,
    /// Whether the board's tuning has completed.
    pub tuned: Option<bool>,
    /// Whether the board is enabled and hashing.
    pub active: Option<bool>,
}

/// One fan.
#[derive(Debug, Clone, Copy, PartialEq, Eq)]
pub struct FanData {
    /// The fan's position as the device numbers it.
    pub position: i16,
    /// The fan speed.
    pub rpm: AngularVelocity,
}

/// How serious a device message is.
#[derive(Debug, Clone, Copy, PartialEq, Eq, Structural)]
pub enum MessageSeverity {
    Error,
    Warning,
    Info,
}

/// A message a device reports.
#[derive(Debug, Clone, PartialEq, Eq)]
pub struct MinerMessage {
    /// When the message occurred.
    pub timestamp: u32,
    /// The message code; 0 when the device sets none.
    pub code: u64,
    /// The human-readable text.
    pub message: String,
    /// The severity.
    pub severity: MessageSeverity,
}

/// The protocol of a pool connection.
#[derive(Debug, Clone, Copy, PartialEq, Eq, Structural)]
pub enum PoolScheme {
    StratumV1,
    StratumV1Ssl,
    StratumV2,
}

/// Where a pool is reached.
#[derive(Debug, Clone, PartialEq, Eq)]
pub struct PoolURL {
    pub scheme: PoolScheme,
    pub host: String,
    pub port: u16,
    pub pubkey: Option<String>,
}

/// One configured pool.
#[derive(Debug, Clone, PartialEq, Eq)]
pub struct PoolData {
    /// The pool's position in the configuration, from 0.
    pub position: Option<u16>,
    /// Where the pool is reached.
    pub url: Option<PoolURL>,
    /// Shares the pool accepted.
    pub accepted_shares: Option<u64>,
    /// Shares the pool rejected.
    pub rejected_shares: Option<u64>,
    /// Whether the device is mining on this pool.
    pub active: Option<bool>,
    /// Whether the pool is reachable.
    pub alive: Option<bool>,
    /// The worker name used on the pool.
    pub user: Option<String>,
}

/// Models of the BitAxe family.
#[derive(Debug, Clone, Copy, PartialEq, Eq, Structural)]
pub enum BitaxeModel {
    /// BM1368 chip.
    Supra,
    /// BM1370 chip.
    Gamma,
    /// BM1397 chip.
    Max,
    /// BM1366 chip.
    Ultra,
}

/// Device makers.
#[derive(Debug, Clone, Copy, PartialEq, Eq, Structural)]
pub enum MinerMake {
    BitAxe,
}

/// Firmware families.
#[derive(Debug, Clone, Copy, PartialEq, Eq, Structural)]
pub enum MinerFirmware {
    /// The maker's own firmware.
    Stock,
}

/// What a device is.
#[derive(Debug, Clone, Copy, PartialEq, Eq)]
pub struct DeviceInfo {
    pub make: MinerMake,
    pub model: BitaxeModel,
    pub firmware: MinerFirmware,
    pub algo: HashAlgorithm,
}

/// The fixed hardware layout of a model.
#[derive(Debug, Clone, Copy, PartialEq, Eq)]
pub struct MinerHardware {
    pub chips: Option<u16>,
    pub fans: Option<u8>,
    pub boards: Option<u8>,
}

/// The hardware layout of each BitAxe model: each (Supra, Gamma, Max and
/// Ultra) is a single board carrying one chip and one fan.
pub open spec fn bitaxe_hardware(model: BitaxeModel) -> MinerHardware {
    MinerHardware { chips: Some(1), fans: Some(1), boards: Some(1) }
}

impl BitaxeModel {
    /// The hardware layout of this model.
    pub fn hardware(&self) -> (r: MinerHardware)
        ensures
            r == bitaxe_hardware(*self),
    {
        MinerHardware { chips: Some(1), fans: Some(1), boards: Some(1) }
    }
}

/// A network address.
#[derive(Debug, Clone, Copy, PartialEq, Eq)]
pub enum IpAddress {
    V4([u8; 4]),
    V6([u16; 8]),
}

/// A hardware address: six or eight bytes.
#[derive(Debug, Clone, PartialEq, Eq)]
pub struct MacAddress {
    pub bytes: Vec<u8>,
}

/// The address a text writes, as macaddr reads it: six bytes, else eight, else none.
pub uninterp spec fn parsed_mac(s: Seq<char>) -> Option<Seq<u8>>;

/// Relies on macaddr's `MacAddr::from_str`: reads six (else eight) pairs of hex
/// digits, optionally separated by one kind of delimiter, and nothing else.
#[verifier::external_body]
fn parse_mac_bytes(s: &str) -> (r: Option<Vec<u8>>)
    ensures
        match r {
            Some(b) => parsed_mac(s@) == Some(b@) && (b@.len() == 6 || b@.len() == 8),
            None => parsed_mac(s@) is None,
        },
{
    match macaddr::MacAddr::from_str(s) {
        Ok(addr) => Some(addr.as_bytes().to_vec()),
        Err(_) => None,
    }
}

impl MacAddress {
    /// Reads a hardware address from its text form.
    pub fn parse(s: &str) -> (r: Option<MacAddress>)
        ensures
            match r {
                Some(m) => parsed_mac(s@) == Some(m.bytes@) && (m.bytes@.len() == 6 || m.bytes@.len() == 8),
                None => parsed_mac(s@) is None,
            },
    {
        match parse_mac_bytes(s) {
            Some(bytes) => Some(MacAddress { bytes }),
            None => None,
        }
    }
}

/// The schema version of [`MinerData`] records this library produces. The
/// record's layout is this library's own (exact decimal quantities, values
/// left unset rather than defaulted), so it carries its own version.
pub const SCHEMA_VERSION: &'static str = "1.0.0";

/// The normalized record of one device at one point in time.
#[derive(Debug, Clone, PartialEq, Eq)]
pub struct MinerData {
    /// The schema version of this record.
    pub schema_version: String,
    /// When the data was gathered, in seconds since the Unix epoch.
    pub timestamp: u64,
    /// The network address of the device.
    pub ip: IpAddress,
    /// The hardware address of the device.
    pub mac: Option<MacAddress>,
    /// What the device is.
    pub device_info: DeviceInfo,
    /// The serial number of the device.
    pub serial_number: Option<String>,
    /// The network hostname of the device.
    pub hostname: Option<String>,
    /// The API version of the device.
    pub api_version: Option<String>,
    /// The firmware version of the device.
    pub firmware_version: Option<String>,
    /// The control board version of the device.
    pub control_board_version: Option<String>,
    /// The expected number of hashboards.
    pub expected_hashboards: Option<u8>,
    /// Per-hashboard data.
    pub hashboards: Vec<BoardData>,
    /// The current hashrate.
    pub hashrate: Option<HashRate>,
    /// The expected number of chips over all boards.
    pub expected_chips: Option<u16>,
    /// The number of working chips over all boards.
    pub total_chips: Option<u16>,
    /// The expected number of fans.
    pub expected_fans: Option<u8>,
    /// The fans.
    pub fans: Vec<FanData>,
    /// The power supply fans.
    pub psu_fans: Vec<FanData>,
    /// The average chip temperature.
    pub average_temperature: Option<Temperature>,
    /// The environment or immersion fluid temperature.
    pub fluid_temperature: Option<Temperature>,
    /// The current power draw.
    pub wattage: Option<Power>,
    /// The power limit or target.
    pub wattage_limit: Option<Power>,
    /// Watts per terahash per second.
    pub efficiency: Option<Ratio>,
    /// Whether the fault light is on.
    pub light_flashing: Option<bool>,
    /// Messages on the device, errors included.
    pub messages: Vec<MinerMessage>,
    /// Uptime in seconds.
    pub uptime: Option<u64>,
    /// Whether the device is hashing.
    pub is_mining: bool,
    /// The configured pools.
    pub pools: Vec<PoolData>,
}

} // verus!
