//! The backend for devices running ESP-Miner firmware (the BitAxe family),
//! which answer on a web API.
use vstd::prelude::*;
use crate::collector::{
    CollectedData, DataCollector, DataExtractor, DataField, DataLocation, ExtractorFn, GetMinerData,
    collected, lemma_collect_idempotent, mapping_get,
};
use crate::data::{
    AngularVelocity, BitaxeModel, BoardData, ChipData, DeviceInfo, FanData, Frequency, HashAlgorithm,
    HashRate, HashRateUnit, IpAddress, MacAddress, MinerData, MinerFirmware, MinerHardware, MinerMake,
    PoolData, PoolScheme, PoolURL, Power, SCHEMA_VERSION, Temperature, Voltage, bitaxe_hardware,
    parsed_mac,
};
use crate::decimal::{Decimal, Ratio, scaled_quotient};
use crate::extract::{
    as_bool, as_count, as_decimal, as_string, bool_value, count_value, decimal_value,
    nested, nested_value, opt_view, string_value,
};
use crate::json::JsonValue;

verus! {

/// The command that reports system state.
pub const SYSTEM_INFO_CMD: &'static str = "system/info";

/// The command that reports the chip configuration.
pub const ASIC_INFO_CMD: &'static str = "system/asic";

/// A device running ESP-Miner firmware.
pub struct ESPMiner {
    model: BitaxeModel,
    ip: IpAddress,
    firmware: MinerFirmware,
}

/// An extractor that looks up one entry by name.
pub open spec fn by_key(key: &'static str) -> DataExtractor {
    DataExtractor { func: ExtractorFn::ByKey, key: Some(key) }
}

/// An extractor that follows a path.
pub open spec fn by_pointer(path: &'static str) -> DataExtractor {
    DataExtractor { func: ExtractorFn::ByPointer, key: Some(path) }
}

/// Where ESP-Miner firmware reports each field.
pub open spec fn esp_locations(field: DataField) -> Seq<DataLocation> {
    match field {
        DataField::Mac => seq![(SYSTEM_INFO_CMD, by_key("macAddr"))],
        DataField::Hostname => seq![(SYSTEM_INFO_CMD, by_key("hostname"))],
        DataField::FirmwareVersion => seq![(SYSTEM_INFO_CMD, by_key("version"))],
        DataField::ControlBoardVersion => seq![(SYSTEM_INFO_CMD, by_key("boardVersion"))],
        DataField::Hashboards => seq![(SYSTEM_INFO_CMD, by_pointer(""))],
        DataField::Hashrate => seq![(SYSTEM_INFO_CMD, by_key("hashRate"))],
        DataField::TotalChips => seq![
            (SYSTEM_INFO_CMD, by_key("asicCount")),
            (ASIC_INFO_CMD, by_key("asicCount")),
        ],
        DataField::Fans => seq![(SYSTEM_INFO_CMD, by_key("fanrpm"))],
        DataField::AverageTemperature => seq![(SYSTEM_INFO_CMD, by_key("temp"))],
        DataField::Wattage => seq![(SYSTEM_INFO_CMD, by_key("power"))],
        DataField::Uptime => seq![(SYSTEM_INFO_CMD, by_key("uptimeSeconds"))],
        DataField::Pools => seq![(SYSTEM_INFO_CMD, by_pointer(""))],
        _ => Seq::<DataLocation>::empty(),
    }
}

/// One location that looks up an entry of the system report by name.
fn system_key(key: &'static str) -> (r: Vec<DataLocation>)
    ensures
        r@ == seq![(SYSTEM_INFO_CMD, by_key(key))],
{
    let mut r: Vec<DataLocation> = Vec::new();
    r.push((SYSTEM_INFO_CMD, DataExtractor { func: ExtractorFn::ByKey, key: Some(key) }));
    assert(r@ =~= seq![(SYSTEM_INFO_CMD, by_key(key))]);
    r
}

impl ESPMiner {
    pub closed spec fn spec_model(&self) -> BitaxeModel {
        self.model
    }

    pub closed spec fn spec_ip(&self) -> IpAddress {
        self.ip
    }

    pub closed spec fn spec_firmware(&self) -> MinerFirmware {
        self.firmware
    }

    /// A backend for the device at `ip`.
    pub fn new(ip: IpAddress, model: BitaxeModel, miner_firmware: MinerFirmware) -> (r: Self)
        ensures
            r.spec_ip() == ip,
            r.spec_model() == model,
            r.spec_firmware() == miner_firmware,
    {
        ESPMiner { model, ip, firmware: miner_firmware }
    }

    /// The network address of the device.
    pub fn ip(&self) -> (r: IpAddress)
        ensures
            r == self.spec_ip(),
    {
        self.ip
    }
}

impl GetMinerData for ESPMiner {
    open spec fn locations(&self, data_field: DataField) -> Seq<DataLocation> {
        esp_locations(data_field)
    }

    fn get_locations(&self, data_field: DataField) -> (r: Vec<DataLocation>) {
        match data_field {
            DataField::Mac => system_key("macAddr"),
            DataField::Hostname => system_key("hostname"),
            DataField::FirmwareVersion => system_key("version"),
            DataField::ControlBoardVersion => system_key("boardVersion"),
            DataField::Hashboards | DataField::Pools => {
                let mut r: Vec<DataLocation> = Vec::new();
                r.push((SYSTEM_INFO_CMD, DataExtractor { func: ExtractorFn::ByPointer, key: Some("") }));
                assert(r@ =~= esp_locations(data_field));
                r
            },
            DataField::Hashrate => system_key("hashRate"),
            DataField::TotalChips => {
                let mut r: Vec<DataLocation> = Vec::new();
                r.push((SYSTEM_INFO_CMD, DataExtractor { func: ExtractorFn::ByKey, key: Some("asicCount") }));
                r.push((ASIC_INFO_CMD, DataExtractor { func: ExtractorFn::ByKey, key: Some("asicCount") }));
                assert(r@ =~= esp_locations(data_field));
                r
            },
            DataField::Fans => system_key("fanrpm"),
            DataField::AverageTemperature => system_key("temp"),
            DataField::Wattage => system_key("power"),
            DataField::Uptime => system_key("uptimeSeconds"),
            _ => {
                let r: Vec<DataLocation> = Vec::new();
                assert(r@ =~= esp_locations(data_field));
                r
            },
        }
    }
}

/// A hashrate this firmware reports, in gigahashes per second.
pub open spec fn gigahash(v: Option<Decimal>) -> Option<HashRate> {
    match v {
        Some(d) => Some(HashRate { value: d, unit: HashRateUnit::GigaHash, algo: HashAlgorithm::SHA256 }),
        None => None,
    }
}

pub open spec fn celsius(v: Option<Decimal>) -> Option<Temperature> {
    match v {
        Some(d) => Some(Temperature { celsius: d }),
        None => None,
    }
}

pub open spec fn millivolts(v: Option<Decimal>) -> Option<Voltage> {
    match v {
        Some(d) => Some(Voltage { millivolts: d }),
        None => None,
    }
}

pub open spec fn megahertz(v: Option<Decimal>) -> Option<Frequency> {
    match v {
        Some(d) => Some(Frequency { megahertz: d }),
        None => None,
    }
}

pub open spec fn watts(v: Option<Decimal>) -> Option<Power> {
    match v {
        Some(d) => Some(Power { watts: d }),
        None => None,
    }
}

/// A chip count, kept to its low 16 bits.
pub open spec fn chip_count(v: Option<u64>) -> Option<u16> {
    match v {
        Some(n) => Some(n as u16),
        None => None,
    }
}

/// Watts per terahash per second, from watts and gigahashes per second; only
/// when both are known.
pub open spec fn efficiency_of(hashrate: Option<Decimal>, power: Option<Decimal>) -> Option<Ratio> {
    match (hashrate, power) {
        (Some(h), Some(w)) => scaled_quotient(w, h, 3),
        _ => None,
    }
}

/// The one fan the firmware reports, when its speed is known.
pub open spec fn fans_from(rpm: Option<Decimal>) -> Seq<FanData> {
    match rpm {
        Some(d) => seq![FanData { position: 0, rpm: AngularVelocity { rpm: d } }],
        None => Seq::<FanData>::empty(),
    }
}

/// A hardware address read from its text, when the text was collected.
pub open spec fn mac_matches(m: Option<MacAddress>, text: Option<Seq<char>>) -> bool {
    match text {
        Some(t) => match m {
            Some(x) => parsed_mac(t) == Some(x.bytes@),
            None => parsed_mac(t) is None,
        },
        None => m is None,
    }
}

/// The board the firmware reports, from the system report `src`.
pub open spec fn board_matches(b: BoardData, hashrate: Option<HashRate>, src: Option<JsonValue>, working: Option<u16>, hw: MinerHardware) -> bool {
    let temp = celsius(decimal_value(nested_value(src, "vrTemp"@)));
    let volt = millivolts(decimal_value(nested_value(src, "voltage"@)));
    let freq = megahertz(decimal_value(nested_value(src, "frequency"@)));
    &&& b.position == 0
    &&& b.hashrate == hashrate
    &&& b.expected_hashrate == gigahash(decimal_value(nested_value(src, "expectedHashrate"@)))
    &&& b.board_temperature == temp
    &&& b.intake_temperature == temp
    &&& b.outlet_temperature == temp
    &&& b.expected_chips == hw.chips
    &&& b.working_chips == working
    &&& b.serial_number is None
    &&& b.chips@ == seq![
        ChipData {
            position: 0,
            hashrate: hashrate,
            temperature: celsius(decimal_value(nested_value(src, "temp"@))),
            voltage: volt,
            frequency: freq,
            tuned: None,
            working: None,
        },
    ]
    &&& b.voltage == volt
    &&& b.frequency == freq
    &&& b.tuned is None
    &&& b.active is None
}

/// A pool entry: its address only when both host and port are known.
pub open spec fn pool_matches(
    p: PoolData,
    position: u16,
    host: Option<Seq<char>>,
    port: Option<u64>,
    accepted: Option<u64>,
    rejected: Option<u64>,
    active: Option<bool>,
    user: Option<Seq<char>>,
) -> bool {
    &&& p.position == Some(position)
    &&& match p.url {
        Some(u) => host == Some(u.host@) && port is Some && u.port == (port->Some_0 as u16)
            && u.scheme == PoolScheme::StratumV1 && u.pubkey is None,
        None => host is None || port is None,
    }
    &&& p.accepted_shares == accepted
    &&& p.rejected_shares == rejected
    &&& p.active == active
    &&& p.alive is None
    &&& opt_view(p.user) == user
}

pub open spec fn negated(b: Option<bool>) -> Option<bool> {
    match b {
        Some(x) => Some(!x),
        None => None,
    }
}

impl ESPMiner {
    /// What the record of this device holds, given the collected mapping `d`
    /// and the collection time.
    pub open spec fn record_matches(&self, d: Seq<(DataField, JsonValue)>, timestamp: u64, r: MinerData) -> bool {
        let hr = decimal_value(mapping_get(d, DataField::Hashrate));
        let power = decimal_value(mapping_get(d, DataField::Wattage));
        let hashrate = gigahash(hr);
        let hw = bitaxe_hardware(self.spec_model());
        let total = chip_count(count_value(mapping_get(d, DataField::TotalChips)));
        let pools = mapping_get(d, DataField::Pools);
        let accepted = count_value(nested_value(pools, "sharesAccepted"@));
        let rejected = count_value(nested_value(pools, "sharesRejected"@));
        let fallback = bool_value(nested_value(pools, "isUsingFallbackStratum"@));
        let reached = d.len() > 0;
        &&& r.schema_version@ == SCHEMA_VERSION@
        &&& r.timestamp == timestamp
        &&& r.ip == self.spec_ip()
        &&& mac_matches(r.mac, string_value(mapping_get(d, DataField::Mac)))
        &&& r.device_info == DeviceInfo {
            make: MinerMake::BitAxe,
            model: self.spec_model(),
            firmware: self.spec_firmware(),
            algo: HashAlgorithm::SHA256,
        }
        &&& r.serial_number is None
        &&& opt_view(r.hostname) == string_value(mapping_get(d, DataField::Hostname))
        &&& opt_view(r.api_version) == string_value(mapping_get(d, DataField::ApiVersion))
        &&& opt_view(r.firmware_version) == string_value(mapping_get(d, DataField::FirmwareVersion))
        &&& opt_view(r.control_board_version) == string_value(mapping_get(d, DataField::ControlBoardVersion))
        &&& r.expected_hashboards == (if reached {
            hw.boards
        } else {
            None
        })
        &&& match mapping_get(d, DataField::Hashboards) {
            Some(_) => r.hashboards@.len() == 1 && board_matches(
                r.hashboards@[0],
                hashrate,
                mapping_get(d, DataField::Hashboards),
                total,
                hw,
            ),
            None => r.hashboards@.len() == 0,
        }
        &&& r.hashrate == hashrate
        &&& r.expected_chips == (if reached {
            hw.chips
        } else {
            None
        })
        &&& r.total_chips == total
        &&& r.expected_fans == (if reached {
            hw.fans
        } else {
            None
        })
        &&& r.fans@ == fans_from(decimal_value(mapping_get(d, DataField::Fans)))
        &&& r.psu_fans@.len() == 0
        &&& r.average_temperature == celsius(decimal_value(mapping_get(d, DataField::AverageTemperature)))
        &&& r.fluid_temperature is None
        &&& r.wattage == watts(power)
        &&& r.wattage_limit is None
        &&& r.efficiency == efficiency_of(hr, power)
        &&& r.light_flashing is None
        &&& r.messages@.len() == 0
        &&& r.uptime == count_value(mapping_get(d, DataField::Uptime))
        &&& r.is_mining == (match hr {
            Some(h) => h.mantissa > 0,
            None => false,
        })
        &&& pools is None ==> r.pools@.len() == 0
        &&& pools is Some ==> r.pools@.len() == 2
        &&& pools is Some ==> pool_matches(
            r.pools@[0],
            0,
            string_value(nested_value(pools, "stratumUrl"@)),
            count_value(nested_value(pools, "stratumPort"@)),
            accepted,
            rejected,
            negated(fallback),
            string_value(nested_value(pools, "stratumUser"@)),
        )
        &&& pools is Some ==> pool_matches(
            r.pools@[1],
            1,
            string_value(nested_value(pools, "fallbackStratumURL"@)),
            count_value(nested_value(pools, "fallbackStratumPort"@)),
            accepted,
            rejected,
            fallback,
            string_value(nested_value(pools, "fallbackStratumUser"@)),
        )
    }

    /// Builds the record of this device from the values collected for it at
    /// `timestamp`. Each telemetry value is set only when it was collected and
    /// reads as the expected kind of value; derived values (efficiency,
    /// whether the device is mining) follow from those alone. The board and
    /// the two pool entries stand only when the report holding them was
    /// collected, and the model's expected counts only when anything was: a
    /// device that answered nothing has only its intrinsic fields set.
    pub fn normalize(&self, data: &CollectedData, timestamp: u64) -> (r: MinerData)
        ensures
            self.record_matches(data@, timestamp, r),
    {
        let mac = match as_string(data.get(DataField::Mac)) {
            Some(s) => MacAddress::parse(s.as_str()),
            None => None,
        };
        let hostname = as_string(data.get(DataField::Hostname));
        let api_version = as_string(data.get(DataField::ApiVersion));
        let firmware_version = as_string(data.get(DataField::FirmwareVersion));
        let control_board_version = as_string(data.get(DataField::ControlBoardVersion));

        let hr = as_decimal(data.get(DataField::Hashrate));
        let hashrate = match hr {
            Some(d) => Some(HashRate { value: d, unit: HashRateUnit::GigaHash, algo: HashAlgorithm::SHA256 }),
            None => None,
        };
        let total_chips = match as_count(data.get(DataField::TotalChips)) {
            Some(n) => Some(#[verifier::truncate] (n as u16)),
            None => None,
        };
        let power = as_decimal(data.get(DataField::Wattage));
        let wattage = match power {
            Some(d) => Some(Power { watts: d }),
            None => None,
        };
        let average_temperature = match as_decimal(data.get(DataField::AverageTemperature)) {
            Some(d) => Some(Temperature { celsius: d }),
            None => None,
        };
        let efficiency = match (hashrate, wattage) {
            (Some(h), Some(w)) => w.div(h),
            _ => None,
        };
        let mut fans: Vec<FanData> = Vec::new();
        match as_decimal(data.get(DataField::Fans)) {
            Some(d) => {
                fans.push(FanData { position: 0, rpm: AngularVelocity { rpm: d } });
            },
            None => {},
        }
        assert(fans@ =~= fans_from(decimal_value(mapping_get(data@, DataField::Fans))));
        let uptime = as_count(data.get(DataField::Uptime));
        let is_mining = match hr {
            Some(h) => h.mantissa > 0,
            None => false,
        };
        let hardware = self.model.hardware();
        let reached = data.len() > 0;
        let (expected_hashboards, expected_chips, expected_fans) = if reached {
            (hardware.boards, hardware.chips, hardware.fans)
        } else {
            (None, None, None)
        };

        let board_src = data.get(DataField::Hashboards);
        let mut hashboards: Vec<BoardData> = Vec::new();
        if board_src.is_some() {
            let voltage = match as_decimal(nested(board_src, "voltage")) {
                Some(d) => Some(Voltage { millivolts: d }),
                None => None,
            };
            let board_temperature = match as_decimal(nested(board_src, "vrTemp")) {
                Some(d) => Some(Temperature { celsius: d }),
                None => None,
            };
            let frequency = match as_decimal(nested(board_src, "frequency")) {
                Some(d) => Some(Frequency { megahertz: d }),
                None => None,
            };
            let chip_temperature = match as_decimal(nested(board_src, "temp")) {
                Some(d) => Some(Temperature { celsius: d }),
                None => None,
            };
            let expected_hashrate = match as_decimal(nested(board_src, "expectedHashrate")) {
                Some(d) => Some(HashRate { value: d, unit: HashRateUnit::GigaHash, algo: HashAlgorithm::SHA256 }),
                None => None,
            };
            let chip = ChipData {
                position: 0,
                hashrate,
                temperature: chip_temperature,
                voltage,
                frequency,
                tuned: None,
                working: None,
            };
            let mut chips: Vec<ChipData> = Vec::new();
            chips.push(chip);
            let board = BoardData {
                position: 0,
                hashrate,
                expected_hashrate,
                board_temperature,
                intake_temperature: board_temperature,
                outlet_temperature: board_temperature,
                expected_chips: hardware.chips,
                working_chips: total_chips,
                serial_number: None,
                chips,
                voltage,
                frequency,
                tuned: None,
                active: None,
            };
            hashboards.push(board);
        }

        let pool_src = data.get(DataField::Pools);
        let mut pools: Vec<PoolData> = Vec::new();
        if pool_src.is_some() {
            let accepted = as_count(nested(pool_src, "sharesAccepted"));
            let rejected = as_count(nested(pool_src, "sharesRejected"));
            let fallback = as_bool(nested(pool_src, "isUsingFallbackStratum"));
            let main_pool = PoolData {
                position: Some(0),
                url: pool_url(as_string(nested(pool_src, "stratumUrl")), as_count(nested(pool_src, "stratumPort"))),
                accepted_shares: accepted,
                rejected_shares: rejected,
                active: match fallback {
                    Some(b) => Some(!b),
                    None => None,
                },
                alive: None,
                user: as_string(nested(pool_src, "stratumUser")),
            };
            let fallback_pool = PoolData {
                position: Some(1),
                url: pool_url(
                    as_string(nested(pool_src, "fallbackStratumURL")),
                    as_count(nested(pool_src, "fallbackStratumPort")),
                ),
                accepted_shares: accepted,
                rejected_shares: rejected,
                active: fallback,
                alive: None,
                user: as_string(nested(pool_src, "fallbackStratumUser")),
            };
            pools.push(main_pool);
            pools.push(fallback_pool);
        }

        MinerData {
            schema_version: String::from_str(SCHEMA_VERSION),
            timestamp,
            ip: self.ip,
            mac,
            device_info: DeviceInfo {
                make: MinerMake::BitAxe,
                model: self.model,
                firmware: self.firmware,
                algo: HashAlgorithm::SHA256,
            },
            serial_number: None,
            hostname,
            api_version,
            firmware_version,
            control_board_version,
            expected_hashboards,
            hashboards,
            hashrate,
            expected_chips,
            total_chips,
            expected_fans,
            fans,
            psu_fans: Vec::new(),
            average_temperature,
            fluid_temperature: None,
            wattage,
            wattage_limit: None,
            efficiency,
            light_flashing: None,
            messages: Vec::new(),
            uptime,
            is_mining,
            pools,
        }
    }
}

/// A pool address, when both its host and its port are known.
fn pool_url(host: Option<String>, port: Option<u64>) -> (r: Option<PoolURL>)
    ensures
        match r {
            Some(u) => opt_view(host) == Some(u.host@) && port is Some && u.port == (port->Some_0 as u16)
                && u.scheme == PoolScheme::StratumV1 && u.pubkey is None,
            None => host is None || port is None,
        },
{
    match (host, port) {
        (Some(h), Some(p)) => Some(
            PoolURL { scheme: PoolScheme::StratumV1, host: h, port: #[verifier::truncate] (p as u16), pubkey: None },
        ),
        _ => None,
    }
}

/// Efficiency is derived only from a known hashrate and a known power draw;
/// with either missing it is absent, never zero.
pub proof fn lemma_efficiency_needs_both(hashrate: Option<Decimal>, power: Option<Decimal>)
    ensures
        hashrate is None ==> efficiency_of(hashrate, power) is None,
        power is None ==> efficiency_of(hashrate, power) is None,
{
}

/// Two optional hardware addresses hold the same bytes.
pub open spec fn same_mac(a: Option<MacAddress>, b: Option<MacAddress>) -> bool {
    match (a, b) {
        (Some(x), Some(y)) => x.bytes@ == y.bytes@,
        (None, None) => true,
        _ => false,
    }
}

/// Two boards hold the same values.
pub open spec fn same_board(a: BoardData, b: BoardData) -> bool {
    &&& a.position == b.position
    &&& a.hashrate == b.hashrate
    &&& a.expected_hashrate == b.expected_hashrate
    &&& a.board_temperature == b.board_temperature
    &&& a.intake_temperature == b.intake_temperature
    &&& a.outlet_temperature == b.outlet_temperature
    &&& a.expected_chips == b.expected_chips
    &&& a.working_chips == b.working_chips
    &&& opt_view(a.serial_number) == opt_view(b.serial_number)
    &&& a.chips@ == b.chips@
    &&& a.voltage == b.voltage
    &&& a.frequency == b.frequency
    &&& a.tuned == b.tuned
    &&& a.active == b.active
}

/// Two pool entries hold the same values.
pub open spec fn same_pool(a: PoolData, b: PoolData) -> bool {
    &&& a.position == b.position
    &&& match (a.url, b.url) {
        (Some(x), Some(y)) => x.scheme == y.scheme && x.host@ == y.host@ && x.port == y.port && opt_view(x.pubkey)
            == opt_view(y.pubkey),
        (None, None) => true,
        _ => false,
    }
    &&& a.accepted_shares == b.accepted_shares
    &&& a.rejected_shares == b.rejected_shares
    &&& a.active == b.active
    &&& a.alive == b.alive
    &&& opt_view(a.user) == opt_view(b.user)
}

/// Two records hold the same values in every field.
pub open spec fn same_record(a: MinerData, b: MinerData) -> bool {
    &&& a.schema_version@ == b.schema_version@
    &&& a.timestamp == b.timestamp
    &&& a.ip == b.ip
    &&& same_mac(a.mac, b.mac)
    &&& a.device_info == b.device_info
    &&& opt_view(a.serial_number) == opt_view(b.serial_number)
    &&& opt_view(a.hostname) == opt_view(b.hostname)
    &&& opt_view(a.api_version) == opt_view(b.api_version)
    &&& opt_view(a.firmware_version) == opt_view(b.firmware_version)
    &&& opt_view(a.control_board_version) == opt_view(b.control_board_version)
    &&& a.expected_hashboards == b.expected_hashboards
    &&& a.hashboards@.len() == b.hashboards@.len()
    &&& forall|i: int| 0 <= i < a.hashboards@.len() ==> same_board(#[trigger] a.hashboards@[i], b.hashboards@[i])
    &&& a.hashrate == b.hashrate
    &&& a.expected_chips == b.expected_chips
    &&& a.total_chips == b.total_chips
    &&& a.expected_fans == b.expected_fans
    &&& a.fans@ == b.fans@
    &&& a.psu_fans@ == b.psu_fans@
    &&& a.average_temperature == b.average_temperature
    &&& a.fluid_temperature == b.fluid_temperature
    &&& a.wattage == b.wattage
    &&& a.wattage_limit == b.wattage_limit
    &&& a.efficiency == b.efficiency
    &&& a.light_flashing == b.light_flashing
    &&& a.messages@.len() == 0 && b.messages@.len() == 0
    &&& a.uptime == b.uptime
    &&& a.is_mining == b.is_mining
    &&& a.pools@.len() == b.pools@.len()
    &&& forall|i: int| 0 <= i < a.pools@.len() ==> same_pool(#[trigger] a.pools@[i], b.pools@[i])
}

/// Two records built from the same collected mapping at the same time hold
/// the same values in every field.
pub proof fn lemma_record_determined(miner: &ESPMiner, d: Seq<(DataField, JsonValue)>, timestamp: u64, r1: MinerData, r2: MinerData)
    requires
        miner.record_matches(d, timestamp, r1),
        miner.record_matches(d, timestamp, r2),
    ensures
        same_record(r1, r2),
{
    assert(r1.psu_fans@ =~= r2.psu_fans@);
    assert forall|i: int| 0 <= i < r1.hashboards@.len() implies same_board(#[trigger] r1.hashboards@[i], r2.hashboards@[i]) by {
        assert(i == 0);
    }
    assert forall|i: int| 0 <= i < r1.pools@.len() implies same_pool(#[trigger] r1.pools@[i], r2.pools@[i]) by {
        assert(i == 0 || i == 1);
    }
}

/// Two complete collection rounds of this backend for the same fields,
/// against a device that answers each command the same way both times, lead
/// at the same time to records with the same values in every field.
pub proof fn lemma_records_idempotent<'a>(
    miner: &'a ESPMiner,
    c1: DataCollector<'a, ESPMiner>,
    c2: DataCollector<'a, ESPMiner>,
    device: spec_fn(Seq<char>) -> Option<JsonValue>,
    timestamp: u64,
    r1: MinerData,
    r2: MinerData,
)
    requires
        c1.wf(),
        c2.wf(),
        c1.complete(),
        c2.complete(),
        c1.spec_miner() == miner,
        c2.spec_miner() == miner,
        c1.spec_fields() == c2.spec_fields(),
        forall|k: int| 0 <= k < c1.spec_attempted() ==> c1.spec_outcomes()[k] == device(#[trigger] c1.spec_commands()[k]@),
        forall|k: int| 0 <= k < c2.spec_attempted() ==> c2.spec_outcomes()[k] == device(#[trigger] c2.spec_commands()[k]@),
        miner.record_matches(collected(miner, c1.spec_fields(), c1.spec_cache()), timestamp, r1),
        miner.record_matches(collected(miner, c2.spec_fields(), c2.spec_cache()), timestamp, r2),
    ensures
        same_record(r1, r2),
{
    lemma_collect_idempotent(c1, c2, device);
    lemma_record_determined(miner, collected(miner, c1.spec_fields(), c1.spec_cache()), timestamp, r1, r2);
}

} // verus!
