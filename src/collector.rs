//! Resolving requested fields to device commands, and extracting each field
//! from the cached command responses.
use vstd::prelude::*;
use crate::json::{JsonValue, key_lookup, pointer_lookup, get_by_key, get_by_pointer};
use crate::text::str_equals;

verus! {

/// One logical telemetry attribute of the normalized record.
#[derive(Debug, Clone, Copy, PartialEq, Eq, Hash, Structural)]
pub enum DataField {
    /// Schema version of the record.
    SchemaVersion,
    /// When the data was collected.
    Timestamp,
    /// Network address of the device.
    Ip,
    /// Hardware address of the device.
    Mac,
    /// Make, model and firmware of the device.
    DeviceInfo,
    /// Serial number of the device.
    SerialNumber,
    /// Network hostname of the device.
    Hostname,
    /// Version of the device's API.
    ApiVersion,
    /// Firmware version of the device.
    FirmwareVersion,
    /// Control board version of the device.
    ControlBoardVersion,
    /// Expected number of hashboards.
    ExpectedHashboards,
    /// Per-hashboard details.
    Hashboards,
    /// Current hashrate.
    Hashrate,
    /// Expected number of chips over all boards.
    ExpectedChips,
    /// Number of chips detected.
    TotalChips,
    /// Expected number of fans.
    ExpectedFans,
    /// Fan speeds.
    Fans,
    /// Power supply fan speeds.
    PsuFans,
    /// Average temperature.
    AverageTemperature,
    /// Environment or fluid temperature.
    FluidTemperature,
    /// Current power draw.
    Wattage,
    /// Configured power limit.
    WattageLimit,
    /// Power per unit of hashrate.
    Efficiency,
    /// Whether the fault light is flashing.
    LightFlashing,
    /// Messages the device reports.
    Messages,
    /// Uptime.
    Uptime,
    /// Whether the device is hashing.
    IsMining,
    /// Pool configuration.
    Pools,
}

/// Every field, each once, in declaration order.
pub open spec fn all_fields() -> Seq<DataField> {
    seq![
        DataField::SchemaVersion,
        DataField::Timestamp,
        DataField::Ip,
        DataField::Mac,
        DataField::DeviceInfo,
        DataField::SerialNumber,
        DataField::Hostname,
        DataField::ApiVersion,
        DataField::FirmwareVersion,
        DataField::ControlBoardVersion,
        DataField::ExpectedHashboards,
        DataField::Hashboards,
        DataField::Hashrate,
        DataField::ExpectedChips,
        DataField::TotalChips,
        DataField::ExpectedFans,
        DataField::Fans,
        DataField::PsuFans,
        DataField::AverageTemperature,
        DataField::FluidTemperature,
        DataField::Wattage,
        DataField::WattageLimit,
        DataField::Efficiency,
        DataField::LightFlashing,
        DataField::Messages,
        DataField::Uptime,
        DataField::IsMining,
        DataField::Pools,
    ]
}

impl DataField {
    /// Every field, each once, in declaration order.
    pub fn all() -> (r: Vec<DataField>)
        ensures
            r@ == all_fields(),
            forall|f: DataField| r@.contains(f),
            r@.no_duplicates(),
    {
        let r = vec![
            DataField::SchemaVersion,
            DataField::Timestamp,
            DataField::Ip,
            DataField::Mac,
            DataField::DeviceInfo,
            DataField::SerialNumber,
            DataField::Hostname,
            DataField::ApiVersion,
            DataField::FirmwareVersion,
            DataField::ControlBoardVersion,
            DataField::ExpectedHashboards,
            DataField::Hashboards,
            DataField::Hashrate,
            DataField::ExpectedChips,
            DataField::TotalChips,
            DataField::ExpectedFans,
            DataField::Fans,
            DataField::PsuFans,
            DataField::AverageTemperature,
            DataField::FluidTemperature,
            DataField::Wattage,
            DataField::WattageLimit,
            DataField::Efficiency,
            DataField::LightFlashing,
            DataField::Messages,
            DataField::Uptime,
            DataField::IsMining,
            DataField::Pools,
        ];
        assert forall|f: DataField| r@.contains(f) by {
            let i: int = match f {
                DataField::SchemaVersion => 0,
                DataField::Timestamp => 1,
                DataField::Ip => 2,
                DataField::Mac => 3,
                DataField::DeviceInfo => 4,
                DataField::SerialNumber => 5,
                DataField::Hostname => 6,
                DataField::ApiVersion => 7,
                DataField::FirmwareVersion => 8,
                DataField::ControlBoardVersion => 9,
                DataField::ExpectedHashboards => 10,
                DataField::Hashboards => 11,
                DataField::Hashrate => 12,
                DataField::ExpectedChips => 13,
                DataField::TotalChips => 14,
                DataField::ExpectedFans => 15,
                DataField::Fans => 16,
                DataField::PsuFans => 17,
                DataField::AverageTemperature => 18,
                DataField::FluidTemperature => 19,
                DataField::Wattage => 20,
                DataField::WattageLimit => 21,
                DataField::Efficiency => 22,
                DataField::LightFlashing => 23,
                DataField::Messages => 24,
                DataField::Uptime => 25,
                DataField::IsMining => 26,
                DataField::Pools => 27,
            };
            assert(r@[i] == f);
        }
        assert(r@ =~= all_fields());
        r
    }
}

/// How an extractor reads its key: as one entry name, or as a slash-separated path.
#[derive(Debug, Clone, Copy, PartialEq, Eq)]
pub enum ExtractorFn {
    /// Shallow lookup of one entry by name.
    ByKey,
    /// Lookup along a path of entry names and sequence indices.
    ByPointer,
}

/// Describes how to read one value out of a command's response.
#[derive(Debug, Clone, Copy)]
pub struct DataExtractor {
    /// The kind of lookup.
    pub func: ExtractorFn,
    /// The entry name or path the lookup uses; with none, nothing is found.
    pub key: Option<&'static str>,
}

/// A command together with the extractor that finds a field in its response.
pub type DataLocation = (&'static str, DataExtractor);

/// What an extractor finds in a response.
pub open spec fn extractor_result(e: DataExtractor, v: JsonValue) -> Option<JsonValue> {
    match e.key {
        None => None,
        Some(k) => match e.func {
            ExtractorFn::ByKey => key_lookup(v, k@),
            ExtractorFn::ByPointer => pointer_lookup(v, k@),
        },
    }
}

impl DataExtractor {
    /// Applies this extractor to a response.
    pub fn extract<'a>(&self, data: &'a JsonValue) -> (r: Option<&'a JsonValue>)
        ensures
            match r {
                Some(x) => extractor_result(*self, *data) == Some(*x),
                None => extractor_result(*self, *data) is None,
            },
    {
        match self.func {
            ExtractorFn::ByKey => get_by_key(data, self.key),
            ExtractorFn::ByPointer => get_by_pointer(data, self.key),
        }
    }
}

/// The location table of a device family: for each field, the places its
/// value may be found, in the order they are tried.
pub trait GetMinerData {
    /// The locations of a field, in order.
    spec fn locations(&self, data_field: DataField) -> Seq<DataLocation>;

    /// Returns the locations of a field, in order; empty for a field this
    /// backend cannot supply.
    fn get_locations(&self, data_field: DataField) -> (r: Vec<DataLocation>)
        ensures
            r@ == self.locations(data_field),
    ;
}

/// The locations a table lists for a field (its latest entry), or none.
pub open spec fn table_get(entries: Seq<(DataField, Vec<DataLocation>)>, field: DataField) -> Seq<DataLocation>
    decreases entries.len(),
{
    if entries.len() == 0 {
        Seq::<DataLocation>::empty()
    } else if entries.last().0 == field {
        entries.last().1@
    } else {
        table_get(entries.drop_last(), field)
    }
}

/// A backend given by its location table: each field listed in it has the
/// locations given for it, in order; any other field has none.
pub struct LocationTable {
    entries: Vec<(DataField, Vec<DataLocation>)>,
}

impl LocationTable {
    /// The locations of a field in this table.
    pub closed spec fn spec_locations(&self, field: DataField) -> Seq<DataLocation> {
        table_get(self.entries@, field)
    }

    /// A table in which no field has a location.
    pub fn new() -> (r: Self)
        ensures
            forall|f: DataField| r.spec_locations(f).len() == 0,
    {
        LocationTable { entries: Vec::new() }
    }

    /// Gives `field` the locations `locations`, in order, in place of any it had.
    pub fn set_locations(&mut self, field: DataField, locations: Vec<DataLocation>)
        ensures
            final(self).spec_locations(field) == locations@,
            forall|f: DataField| f != field ==> final(self).spec_locations(f) == old(self).spec_locations(f),
    {
        let ghost before = self.entries@;
        self.entries.push((field, locations));
        assert(self.entries@.drop_last() =~= before);
        assert(self.entries@.last() == (field, locations));
    }
}

impl GetMinerData for LocationTable {
    open spec fn locations(&self, data_field: DataField) -> Seq<DataLocation> {
        self.spec_locations(data_field)
    }

    fn get_locations(&self, data_field: DataField) -> (r: Vec<DataLocation>) {
        let mut i: usize = self.entries.len();
        assert(self.entries@.take(self.entries@.len() as int) =~= self.entries@);
        while i > 0
            invariant
                0 <= i <= self.entries@.len(),
                table_get(self.entries@, data_field) == table_get(self.entries@.take(i as int), data_field),
            decreases i,
        {
            assert(self.entries@.take(i as int).drop_last() =~= self.entries@.take(i - 1));
            assert(self.entries@.take(i as int).last() == self.entries@[i - 1]);
            if self.entries[i - 1].0 == data_field {
                let found = &self.entries[i - 1].1;
                let mut r: Vec<DataLocation> = Vec::new();
                let mut j: usize = 0;
                while j < found.len()
                    invariant
                        0 <= j <= found@.len(),
                        r@ == found@.take(j as int),
                    decreases found.len() - j,
                {
                    r.push(found[j]);
                    j = j + 1;
                    assert(r@ =~= found@.take(j as int));
                }
                assert(found@.take(found@.len() as int) =~= found@);
                return r;
            }
            i = i - 1;
        }
        Vec::new()
    }
}

/// The response cached for a command (the latest one stored).
pub open spec fn cache_get(cache: Seq<(&'static str, JsonValue)>, command: Seq<char>) -> Option<JsonValue>
    decreases cache.len(),
{
    if cache.len() == 0 {
        None
    } else if cache.last().0@ == command {
        Some(cache.last().1)
    } else {
        cache_get(cache.drop_last(), command)
    }
}

/// The value of a field: the first location, in order, whose command has a
/// cached response in which its extractor finds something.
pub open spec fn extract_from(locs: Seq<DataLocation>, cache: Seq<(&'static str, JsonValue)>) -> Option<JsonValue>
    decreases locs.len(),
{
    if locs.len() == 0 {
        None
    } else {
        let found = match cache_get(cache, locs[0].0@) {
            Some(resp) => extractor_result(locs[0].1, resp),
            None => None,
        };
        match found {
            Some(v) => Some(v),
            None => extract_from(locs.drop_first(), cache),
        }
    }
}

/// Whether a command is named by some location of some of the fields.
pub open spec fn referenced<B: GetMinerData>(miner: &B, fields: Seq<DataField>, command: Seq<char>) -> bool {
    exists|i: int, j: int|
        0 <= i < fields.len() && 0 <= j < miner.locations(fields[i]).len()
            && (#[trigger] miner.locations(fields[i])[j]).0@ == command
}

/// Whether a sequence of commands holds each command at most once.
pub open spec fn distinct_commands(cmds: Seq<&'static str>) -> bool {
    forall|a: int, b: int| 0 <= a < b < cmds.len() ==> cmds[a]@ != cmds[b]@
}

/// Whether `command` is among the commands.
pub open spec fn has_command(cmds: Seq<&'static str>, command: Seq<char>) -> bool {
    exists|k: int| 0 <= k < cmds.len() && #[trigger] cmds[k]@ == command
}

/// Whether `cmds` names exactly the commands the fields' locations reference, each once.
pub open spec fn is_command_plan<B: GetMinerData>(miner: &B, fields: Seq<DataField>, cmds: Seq<&'static str>) -> bool {
    &&& distinct_commands(cmds)
    &&& forall|c: Seq<char>| #[trigger] has_command(cmds, c) <==> referenced(miner, fields, c)
}

proof fn lemma_has_command_push(cmds: Seq<&'static str>, x: &'static str, c: Seq<char>)
    ensures
        has_command(cmds.push(x), c) <==> (has_command(cmds, c) || x@ == c),
{
    if has_command(cmds, c) {
        let k = choose|k: int| 0 <= k < cmds.len() && #[trigger] cmds[k]@ == c;
        assert(cmds.push(x)[k]@ == c);
    }
    if x@ == c {
        assert(cmds.push(x)[cmds.len() as int]@ == c);
    }
    if has_command(cmds.push(x), c) {
        let k = choose|k: int| 0 <= k < cmds.len() + 1 && #[trigger] cmds.push(x)[k]@ == c;
        if k < cmds.len() {
            assert(cmds[k]@ == c);
        }
    }
}

/// Whether `c` is among the commands.
fn contains_command(cmds: &Vec<&'static str>, c: &str) -> (r: bool)
    ensures
        r == has_command(cmds@, c@),
{
    let mut i: usize = 0;
    while i < cmds.len()
        invariant
            0 <= i <= cmds@.len(),
            forall|k: int| 0 <= k < i ==> #[trigger] cmds@[k]@ != c@,
        decreases cmds.len() - i,
    {
        if str_equals(cmds[i], c) {
            assert(cmds@[i as int]@ == c@);
            return true;
        }
        i = i + 1;
    }
    false
}

/// The distinct commands that the locations of the given fields reference,
/// each once.
pub fn required_commands<B: GetMinerData>(miner: &B, fields: &[DataField]) -> (r: Vec<&'static str>)
    ensures
        is_command_plan(miner, fields@, r@),
{
    let mut cmds: Vec<&'static str> = Vec::new();
    let mut i: usize = 0;
    while i < fields.len()
        invariant
            0 <= i <= fields@.len(),
            distinct_commands(cmds@),
            forall|c: Seq<char>| #[trigger] has_command(cmds@, c) ==> referenced(miner, fields@, c),
            forall|a: int, b: int| 0 <= a < i && 0 <= b < miner.locations(fields@[a]).len()
                ==> has_command(cmds@, (#[trigger] miner.locations(fields@[a])[b]).0@),
        decreases fields.len() - i,
    {
        let locs = miner.get_locations(fields[i]);
        let mut j: usize = 0;
        while j < locs.len()
            invariant
                0 <= i < fields@.len(),
                0 <= j <= locs@.len(),
                locs@ == miner.locations(fields@[i as int]),
                distinct_commands(cmds@),
                forall|c: Seq<char>| #[trigger] has_command(cmds@, c) ==> referenced(miner, fields@, c),
                forall|a: int, b: int| 0 <= a < i && 0 <= b < miner.locations(fields@[a]).len()
                    ==> has_command(cmds@, (#[trigger] miner.locations(fields@[a])[b]).0@),
                forall|b: int| 0 <= b < j ==> has_command(cmds@, (#[trigger] locs@[b]).0@),
            decreases locs.len() - j,
        {
            let c = locs[j].0;
            assert(referenced(miner, fields@, c@)) by {
                assert(miner.locations(fields@[i as int])[j as int].0@ == c@);
            }
            if !contains_command(&cmds, c) {
                let ghost before = cmds@;
                cmds.push(c);
                proof {
                    assert forall|a: int, b: int| 0 <= a < before.len() && 0 <= b < before.len() && a < b
                        implies cmds@[a]@ != cmds@[b]@ by {
                        assert(cmds@[a] == before[a]);
                        assert(cmds@[b] == before[b]);
                    }
                    assert forall|a: int| 0 <= a < before.len() implies (#[trigger] cmds@[a])@ != cmds@[before.len() as int]@ by {
                        assert(cmds@[a] == before[a]);
                        if before[a]@ == c@ {
                            assert(has_command(before, c@));
                        }
                    }
                    assert forall|x: Seq<char>| #[trigger] has_command(cmds@, x) <==> (has_command(before, x) || c@ == x) by {
                        lemma_has_command_push(before, c, x);
                    }
                }
            }
            proof {
                assert(has_command(cmds@, c@));
            }
            j = j + 1;
        }
        proof {
            assert forall|a: int, b: int| 0 <= a < i + 1 && 0 <= b < miner.locations(fields@[a]).len()
                implies has_command(cmds@, (#[trigger] miner.locations(fields@[a])[b]).0@) by {
                if a == i {
                    assert(miner.locations(fields@[a])[b] == locs@[b]);
                }
            }
        }
        i = i + 1;
    }
    assert forall|c: Seq<char>| referenced(miner, fields@, c) implies #[trigger] has_command(cmds@, c) by {
        let (a, b) = choose|a: int, b: int|
            0 <= a < fields@.len() && 0 <= b < miner.locations(fields@[a]).len()
                && (#[trigger] miner.locations(fields@[a])[b]).0@ == c;
        assert(has_command(cmds@, miner.locations(fields@[a])[b].0@));
    }
    cmds
}

/// Finds the response cached for a command.
fn cached<'b>(cache: &'b Vec<(&'static str, JsonValue)>, command: &str) -> (r: Option<&'b JsonValue>)
    ensures
        match r {
            Some(x) => cache_get(cache@, command@) == Some(*x),
            None => cache_get(cache@, command@) is None,
        },
{
    let mut i: usize = cache.len();
    assert(cache@.take(cache@.len() as int) =~= cache@);
    while i > 0
        invariant
            0 <= i <= cache@.len(),
            cache_get(cache@, command@) == cache_get(cache@.take(i as int), command@),
        decreases i,
    {
        assert(cache@.take(i as int).drop_last() =~= cache@.take(i - 1));
        assert(cache@.take(i as int).last() == cache@[i - 1]);
        if str_equals(cache[i - 1].0, command) {
            return Some(&cache[i - 1].1);
        }
        i = i - 1;
    }
    None
}

/// The collected mapping: each requested field once, in order of first
/// request, with its value, for the fields that some location supplies.
pub open spec fn collected<B: GetMinerData>(miner: &B, fields: Seq<DataField>, cache: Seq<(&'static str, JsonValue)>) -> Seq<(DataField, JsonValue)>
    decreases fields.len(),
{
    if fields.len() == 0 {
        Seq::<(DataField, JsonValue)>::empty()
    } else {
        let prev = collected(miner, fields.drop_last(), cache);
        let f = fields.last();
        if fields.drop_last().contains(f) {
            prev
        } else {
            match extract_from(miner.locations(f), cache) {
                Some(v) => prev.push((f, v)),
                None => prev,
            }
        }
    }
}

/// The value a mapping holds for a field (its latest entry for it).
pub open spec fn mapping_get(m: Seq<(DataField, JsonValue)>, field: DataField) -> Option<JsonValue>
    decreases m.len(),
{
    if m.len() == 0 {
        None
    } else if m.last().0 == field {
        Some(m.last().1)
    } else {
        mapping_get(m.drop_last(), field)
    }
}

/// A field is in the collected mapping exactly when it was requested and one
/// of its locations supplied it, and then with that value.
pub proof fn lemma_collected_get<B: GetMinerData>(miner: &B, fields: Seq<DataField>, cache: Seq<(&'static str, JsonValue)>, field: DataField)
    ensures
        mapping_get(collected(miner, fields, cache), field) == if fields.contains(field) {
            extract_from(miner.locations(field), cache)
        } else {
            None
        },
    decreases fields.len(),
{
    if fields.len() > 0 {
        let init = fields.drop_last();
        lemma_collected_get(miner, init, cache, field);
        assert(fields =~= init.push(fields.last()));
        if fields.contains(field) && !init.contains(field) {
            let k = choose|k: int| 0 <= k < fields.len() && fields[k] == field;
            if k < init.len() {
                assert(init[k] == field);
            }
        }
        if init.contains(field) {
            let k = choose|k: int| 0 <= k < init.len() && init[k] == field;
            assert(fields[k] == field);
        }
        let prev = collected(miner, init, cache);
        if !init.contains(fields.last()) {
            match extract_from(miner.locations(fields.last()), cache) {
                Some(v) => {
                    assert(prev.push((fields.last(), v)).drop_last() =~= prev);
                },
                None => {},
            }
        }
    } else {
        assert(!fields.contains(field));
    }
}

/// The values collected for the requested fields, one entry per field found.
pub struct CollectedData<'a> {
    entries: Vec<(DataField, &'a JsonValue)>,
}

impl<'a> View for CollectedData<'a> {
    type V = Seq<(DataField, JsonValue)>;

    closed spec fn view(&self) -> Seq<(DataField, JsonValue)> {
        self.entries@.map_values(|e: (DataField, &'a JsonValue)| (e.0, *e.1))
    }
}

impl<'a> CollectedData<'a> {
    /// The value collected for a field, if any.
    pub fn get(&self, field: DataField) -> (r: Option<&'a JsonValue>)
        ensures
            match r {
                Some(x) => mapping_get(self@, field) == Some(*x),
                None => mapping_get(self@, field) is None,
            },
    {
        let mut i: usize = self.entries.len();
        assert(self@.take(self@.len() as int) =~= self@);
        while i > 0
            invariant
                0 <= i <= self.entries@.len(),
                self@.len() == self.entries@.len(),
                mapping_get(self@, field) == mapping_get(self@.take(i as int), field),
            decreases i,
        {
            assert(self@.take(i as int).drop_last() =~= self@.take(i - 1));
            assert(self@.take(i as int).last() == self@[i - 1]);
            if self.entries[i - 1].0 == field {
                return Some(self.entries[i - 1].1);
            }
            i = i - 1;
        }
        None
    }

    /// The number of fields found.
    pub fn len(&self) -> (r: usize)
        ensures
            r == self@.len(),
    {
        self.entries.len()
    }
}

/// What a command's outcome leaves in the cache: its response, or nothing on failure.
pub open spec fn response_outcome(response: Result<JsonValue, String>) -> Option<JsonValue> {
    match response {
        Ok(v) => Some(v),
        Err(_) => None,
    }
}

/// Collects fields of one device through one backend's location table.
///
/// A collection round starts with [`DataCollector::collect`] (or
/// [`DataCollector::collect_all`]), which fixes the fields and the distinct
/// commands they need. The caller then executes each command that
/// [`DataCollector::next_command`] names and hands the outcome to
/// [`DataCollector::record`]; a failed command is simply not cached. Once every
/// command was attempted, [`DataCollector::results`] extracts the fields.
pub struct DataCollector<'a, B: GetMinerData> {
    miner: &'a B,
    fields: Vec<DataField>,
    commands: Vec<&'static str>,
    attempted: usize,
    cache: Vec<(&'static str, JsonValue)>,
    outcomes: Ghost<Seq<Option<JsonValue>>>,
}

impl<'a, B: GetMinerData> DataCollector<'a, B> {
    /// The backend whose locations are used.
    pub closed spec fn spec_miner(&self) -> &'a B {
        self.miner
    }

    /// The fields of the current round.
    pub closed spec fn spec_fields(&self) -> Seq<DataField> {
        self.fields@
    }

    /// The commands of the current round, in the order they are handed out.
    pub closed spec fn spec_commands(&self) -> Seq<&'static str> {
        self.commands@
    }

    /// How many commands of the round were attempted.
    pub closed spec fn spec_attempted(&self) -> nat {
        self.attempted as nat
    }

    /// The outcome recorded for each attempted command, in order.
    pub closed spec fn spec_outcomes(&self) -> Seq<Option<JsonValue>> {
        self.outcomes@
    }

    /// The responses cached in the current round.
    pub closed spec fn spec_cache(&self) -> Seq<(&'static str, JsonValue)> {
        self.cache@
    }

    /// The round's commands are its fields' plan; the cache holds exactly the
    /// successful outcomes of the attempted commands.
    pub closed spec fn wf(&self) -> bool {
        &&& is_command_plan(self.miner, self.fields@, self.commands@)
        &&& self.attempted <= self.commands@.len()
        &&& self.outcomes@.len() == self.attempted
        &&& forall|k: int| 0 <= k < self.attempted ==> cache_get(self.cache@, #[trigger] self.commands@[k]@) == self.outcomes@[k]
        &&& forall|c: Seq<char>| !has_command(self.commands@.take(self.attempted as int), c) ==> #[trigger] cache_get(self.cache@, c) is None
    }

    /// Whether every command of the round was attempted.
    pub open spec fn complete(&self) -> bool {
        self.spec_attempted() == self.spec_commands().len()
    }

    /// The response a command gave in this round, if it succeeded.
    pub open spec fn response_of(&self, command: Seq<char>) -> Option<JsonValue> {
        cache_get(self.spec_cache(), command)
    }

    /// A collector for a backend, with no round started.
    pub fn new(miner: &'a B) -> (r: Self)
        ensures
            r.wf(),
            r.spec_miner() == miner,
            r.spec_fields().len() == 0,
            r.spec_commands().len() == 0,
            r.complete(),
    {
        let r = DataCollector {
            miner,
            fields: Vec::new(),
            commands: Vec::new(),
            attempted: 0,
            cache: Vec::new(),
            outcomes: Ghost(Seq::empty()),
        };
        proof {
            assert forall|c: Seq<char>| #[trigger] has_command(r.commands@, c) <==> referenced(miner, r.fields@, c) by {}
        }
        r
    }

    /// Starts a round for the given fields: fixes the distinct commands their
    /// locations reference and empties the cache.
    pub fn collect(&mut self, fields: &[DataField])
        requires
            old(self).wf(),
        ensures
            final(self).wf(),
            final(self).spec_miner() == old(self).spec_miner(),
            final(self).spec_fields() == fields@,
            is_command_plan(final(self).spec_miner(), fields@, final(self).spec_commands()),
            final(self).spec_attempted() == 0,
            final(self).spec_cache().len() == 0,
    {
        let commands = required_commands(self.miner, fields);
        let mut fs: Vec<DataField> = Vec::new();
        let mut i: usize = 0;
        while i < fields.len()
            invariant
                0 <= i <= fields@.len(),
                fs@ == fields@.take(i as int),
            decreases fields.len() - i,
        {
            fs.push(fields[i]);
            i = i + 1;
            assert(fs@ =~= fields@.take(i as int));
        }
        assert(fields@.take(fields@.len() as int) =~= fields@);
        self.fields = fs;
        self.commands = commands;
        self.attempted = 0;
        self.cache = Vec::new();
        self.outcomes = Ghost(Seq::empty());
        proof {
            assert forall|c: Seq<char>| !has_command(self.commands@.take(0), c) implies #[trigger] cache_get(self.cache@, c) is None by {}
        }
    }

    /// Starts a round for every field.
    pub fn collect_all(&mut self)
        requires
            old(self).wf(),
        ensures
            final(self).wf(),
            final(self).spec_miner() == old(self).spec_miner(),
            forall|f: DataField| final(self).spec_fields().contains(f),
            final(self).spec_attempted() == 0,
            final(self).spec_cache().len() == 0,
    {
        let all = DataField::all();
        self.collect(all.as_slice());
    }

    /// Whether every command of the round was attempted.
    pub fn is_complete(&self) -> (r: bool)
        requires
            self.wf(),
        ensures
            r == self.complete(),
    {
        self.attempted == self.commands.len()
    }

    /// The command to execute next, or none once all were attempted.
    pub fn next_command(&self) -> (r: Option<&'static str>)
        requires
            self.wf(),
        ensures
            self.complete() ==> r is None,
            !self.complete() ==> r == Some(self.spec_commands()[self.spec_attempted() as int]),
    {
        if self.attempted < self.commands.len() {
            Some(self.commands[self.attempted])
        } else {
            None
        }
    }

    /// Records the outcome of the command [`DataCollector::next_command`]
    /// named: a response is cached under that command, a failure is not.
    pub fn record(&mut self, response: Result<JsonValue, String>)
        requires
            old(self).wf(),
            !old(self).complete(),
        ensures
            final(self).wf(),
            final(self).spec_miner() == old(self).spec_miner(),
            final(self).spec_fields() == old(self).spec_fields(),
            final(self).spec_commands() == old(self).spec_commands(),
            final(self).spec_attempted() == old(self).spec_attempted() + 1,
            final(self).spec_outcomes() == old(self).spec_outcomes().push(response_outcome(response)),
    {
        let next = self.attempted;
        let total = self.commands.len();
        assert(next < total);
        let cmd = self.commands[next];
        let ghost old_cache = self.cache@;
        let ghost a = self.attempted as int;
        let ghost cmds = self.commands@;
        let ghost outcome = response_outcome(response);
        proof {
            assert forall|k: int| 0 <= k < a implies cmds[k]@ != cmd@ by {}
            assert(!has_command(cmds.take(a), cmd@)) by {
                if has_command(cmds.take(a), cmd@) {
                    let k = choose|k: int| 0 <= k < a && #[trigger] cmds.take(a)[k]@ == cmd@;
                    assert(cmds[k]@ == cmd@);
                }
            }
        }
        match response {
            Ok(v) => {
                self.cache.push((cmd, v));
                proof {
                    assert forall|c: Seq<char>| c != cmd@ implies #[trigger] cache_get(self.cache@, c) == cache_get(old_cache, c) by {
                        assert(self.cache@.drop_last() =~= old_cache);
                    }
                    assert(self.cache@.drop_last() =~= old_cache);
                }
            },
            Err(_) => {},
        }
        self.attempted = next + 1;
        self.outcomes = Ghost(self.outcomes@.push(outcome));
        proof {
            assert forall|k: int| 0 <= k < self.attempted implies cache_get(self.cache@, #[trigger] self.commands@[k]@) == self.outcomes@[k] by {
                if k < a {
                    assert(cmds[k]@ != cmd@);
                }
            }
            assert forall|c: Seq<char>| !has_command(self.commands@.take(self.attempted as int), c) implies #[trigger] cache_get(self.cache@, c) is None by {
                assert(cmds.take(a + 1) =~= cmds.take(a).push(cmd));
                lemma_has_command_push(cmds.take(a), cmd, c);
            }
        }
    }

    /// The value of a field in this round: the first of its locations, in
    /// order, whose command has a cached response in which its extractor
    /// finds something.
    fn extract_field(&self, field: DataField) -> (r: Option<&JsonValue>)
        ensures
            match r {
                Some(x) => extract_from(self.miner.locations(field), self.cache@) == Some(*x),
                None => extract_from(self.miner.locations(field), self.cache@) is None,
            },
    {
        let locs = self.miner.get_locations(field);
        let mut i: usize = 0;
        assert(locs@.subrange(0, locs@.len() as int) =~= locs@);
        while i < locs.len()
            invariant
                0 <= i <= locs@.len(),
                locs@ == self.miner.locations(field),
                extract_from(locs@, self.cache@) == extract_from(locs@.subrange(i as int, locs@.len() as int), self.cache@),
            decreases locs.len() - i,
        {
            let ghost rest = locs@.subrange(i as int, locs@.len() as int);
            assert(rest.drop_first() =~= locs@.subrange(i + 1, locs@.len() as int));
            assert(rest[0] == locs@[i as int]);
            let (command, extractor) = locs[i];
            match cached(&self.cache, command) {
                Some(response) => match extractor.extract(response) {
                    Some(value) => {
                        return Some(value);
                    },
                    None => {},
                },
                None => {},
            }
            i = i + 1;
        }
        None
    }

    /// The collected mapping of the round: each requested field whose value
    /// some location supplies, once, in order of first request.
    pub fn results(&self) -> (r: CollectedData<'_>)
        requires
            self.wf(),
            self.complete(),
        ensures
            r@ == collected(self.spec_miner(), self.spec_fields(), self.spec_cache()),
    {
        let mut entries: Vec<(DataField, &JsonValue)> = Vec::new();
        let mut i: usize = 0;
        while i < self.fields.len()
            invariant
                0 <= i <= self.fields@.len(),
                entries@.map_values(|e: (DataField, &JsonValue)| (e.0, *e.1))
                    == collected(self.miner, self.fields@.take(i as int), self.cache@),
            decreases self.fields.len() - i,
        {
            let f = self.fields[i];
            let ghost prefix = self.fields@.take(i + 1);
            assert(prefix.drop_last() =~= self.fields@.take(i as int));
            assert(prefix.last() == f);
            let mut seen = false;
            let mut j: usize = 0;
            while j < i
                invariant
                    0 <= j <= i < self.fields@.len(),
                    f == self.fields@[i as int],
                    seen == exists|k: int| 0 <= k < j && self.fields@[k] == f,
                decreases i - j,
            {
                if self.fields[j] == f {
                    seen = true;
                }
                j = j + 1;
            }
            proof {
                if seen {
                    let k = choose|k: int| 0 <= k < i && self.fields@[k] == f;
                    assert(self.fields@.take(i as int)[k] == f);
                }
                if self.fields@.take(i as int).contains(f) {
                    let k = choose|k: int| 0 <= k < i && self.fields@.take(i as int)[k] == f;
                    assert(self.fields@[k] == f);
                }
            }
            if !seen {
                match self.extract_field(f) {
                    Some(v) => {
                        let ghost before = entries@;
                        entries.push((f, v));
                        assert(entries@.map_values(|e: (DataField, &JsonValue)| (e.0, *e.1)) =~= before.map_values(
                            |e: (DataField, &JsonValue)| (e.0, *e.1),
                        ).push((f, *v)));
                    },
                    None => {},
                }
            }
            i = i + 1;
        }
        assert(self.fields@.take(self.fields@.len() as int) =~= self.fields@);
        CollectedData { entries }
    }
}

/// A field with no declared location needs no command and is never in the
/// collected mapping.
pub proof fn lemma_field_without_locations<B: GetMinerData>(miner: &B, field: DataField, cmds: Seq<&'static str>, cache: Seq<(&'static str, JsonValue)>)
    requires
        miner.locations(field).len() == 0,
        is_command_plan(miner, seq![field], cmds),
    ensures
        cmds.len() == 0,
        mapping_get(collected(miner, seq![field], cache), field) is None,
{
    if cmds.len() > 0 {
        assert(has_command(cmds, cmds[0]@));
        let (a, b) = choose|a: int, b: int|
            0 <= a < seq![field].len() && 0 <= b < miner.locations(seq![field][a]).len()
                && (#[trigger] miner.locations(seq![field][a])[b]).0@ == cmds[0]@;
        assert(seq![field][a] == field);
    }
    lemma_collected_get(miner, seq![field], cache, field);
    assert(seq![field][0] == field);
}

/// The commands of a round are exactly those its fields' locations reference,
/// each once, handed out in order, each attempted once.
pub proof fn lemma_round_commands<'a, B: GetMinerData>(c: DataCollector<'a, B>)
    requires
        c.wf(),
    ensures
        distinct_commands(c.spec_commands()),
        forall|cmd: Seq<char>| #[trigger] has_command(c.spec_commands(), cmd) <==> referenced(c.spec_miner(), c.spec_fields(), cmd),
        c.spec_outcomes().len() == c.spec_attempted(),
        c.spec_attempted() <= c.spec_commands().len(),
{
}

/// In a round, every attempted command holds what its outcome left, and a
/// command not attempted holds nothing.
pub proof fn lemma_round_cache<'a, B: GetMinerData>(c: DataCollector<'a, B>, cmd: Seq<char>)
    requires
        c.wf(),
    ensures
        forall|k: int| 0 <= k < c.spec_attempted() ==> c.response_of(#[trigger] c.spec_commands()[k]@) == c.spec_outcomes()[k],
        !has_command(c.spec_commands().take(c.spec_attempted() as int), cmd) ==> c.response_of(cmd) is None,
{
}

/// When the first location's command answered without the key its extractor
/// asks for, the field is looked for in the remaining locations.
pub proof fn lemma_key_miss_tries_next(locs: Seq<DataLocation>, cache: Seq<(&'static str, JsonValue)>, resp: JsonValue)
    requires
        locs.len() > 0,
        locs[0].1.func == ExtractorFn::ByKey,
        locs[0].1.key is Some,
        cache_get(cache, locs[0].0@) == Some(resp),
        key_lookup(resp, locs[0].1.key->Some_0@) is None,
    ensures
        extract_from(locs, cache) == extract_from(locs.drop_first(), cache),
{
}

/// A location whose command has no cached response (it failed) is passed over.
pub proof fn lemma_failed_command_tries_next(locs: Seq<DataLocation>, cache: Seq<(&'static str, JsonValue)>)
    requires
        locs.len() > 0,
        cache_get(cache, locs[0].0@) is None,
    ensures
        extract_from(locs, cache) == extract_from(locs.drop_first(), cache),
{
}

proof fn lemma_extract_same_cache(locs: Seq<DataLocation>, c1: Seq<(&'static str, JsonValue)>, c2: Seq<(&'static str, JsonValue)>)
    requires
        forall|j: int| 0 <= j < locs.len() ==> cache_get(c1, (#[trigger] locs[j]).0@) == cache_get(c2, locs[j].0@),
    ensures
        extract_from(locs, c1) == extract_from(locs, c2),
    decreases locs.len(),
{
    if locs.len() > 0 {
        assert(cache_get(c1, locs[0].0@) == cache_get(c2, locs[0].0@));
        assert forall|j: int| 0 <= j < locs.drop_first().len() implies cache_get(c1, (#[trigger] locs.drop_first()[j]).0@)
            == cache_get(c2, locs.drop_first()[j].0@) by {
            assert(locs.drop_first()[j] == locs[j + 1]);
        }
        lemma_extract_same_cache(locs.drop_first(), c1, c2);
    }
}

proof fn lemma_collected_same_cache<B: GetMinerData>(miner: &B, fields: Seq<DataField>, c1: Seq<(&'static str, JsonValue)>, c2: Seq<(&'static str, JsonValue)>)
    requires
        forall|cmd: Seq<char>| #[trigger] referenced(miner, fields, cmd) ==> cache_get(c1, cmd) == cache_get(c2, cmd),
    ensures
        collected(miner, fields, c1) == collected(miner, fields, c2),
    decreases fields.len(),
{
    if fields.len() > 0 {
        let init = fields.drop_last();
        assert forall|cmd: Seq<char>| #[trigger] referenced(miner, init, cmd) implies cache_get(c1, cmd) == cache_get(c2, cmd) by {
            let (a, b) = choose|a: int, b: int|
                0 <= a < init.len() && 0 <= b < miner.locations(init[a]).len()
                    && (#[trigger] miner.locations(init[a])[b]).0@ == cmd;
            assert(init[a] == fields[a]);
            assert(referenced(miner, fields, cmd));
        }
        lemma_collected_same_cache(miner, init, c1, c2);
        let f = fields.last();
        let locs = miner.locations(f);
        assert forall|j: int| 0 <= j < locs.len() implies cache_get(c1, (#[trigger] locs[j]).0@) == cache_get(c2, locs[j].0@) by {
            assert(fields[fields.len() - 1] == f);
            assert(miner.locations(fields[fields.len() - 1])[j] == locs[j]);
            assert(referenced(miner, fields, locs[j].0@));
        }
        lemma_extract_same_cache(locs, c1, c2);
    }
}

/// Two complete rounds of one backend, for the same fields, against a device
/// that answers each command the same way both times (`device` gives the
/// response, or nothing for a failure), collect the same mapping.
pub proof fn lemma_collect_idempotent<'a, B: GetMinerData>(
    c1: DataCollector<'a, B>,
    c2: DataCollector<'a, B>,
    device: spec_fn(Seq<char>) -> Option<JsonValue>,
)
    requires
        c1.wf(),
        c2.wf(),
        c1.complete(),
        c2.complete(),
        c1.spec_miner() == c2.spec_miner(),
        c1.spec_fields() == c2.spec_fields(),
        forall|k: int| 0 <= k < c1.spec_attempted() ==> c1.spec_outcomes()[k] == device(#[trigger] c1.spec_commands()[k]@),
        forall|k: int| 0 <= k < c2.spec_attempted() ==> c2.spec_outcomes()[k] == device(#[trigger] c2.spec_commands()[k]@),
    ensures
        collected(c1.spec_miner(), c1.spec_fields(), c1.spec_cache()) == collected(c2.spec_miner(), c2.spec_fields(), c2.spec_cache()),
{
    let miner = c1.spec_miner();
    let fields = c1.spec_fields();
    assert forall|cmd: Seq<char>| #[trigger] referenced(miner, fields, cmd) implies cache_get(c1.spec_cache(), cmd) == cache_get(c2.spec_cache(), cmd) by {
        assert(has_command(c1.spec_commands(), cmd));
        assert(has_command(c2.spec_commands(), cmd));
        let k1 = choose|k: int| 0 <= k < c1.spec_commands().len() && #[trigger] c1.spec_commands()[k]@ == cmd;
        let k2 = choose|k: int| 0 <= k < c2.spec_commands().len() && #[trigger] c2.spec_commands()[k]@ == cmd;
        assert(c1.response_of(c1.spec_commands()[k1]@) == c1.spec_outcomes()[k1]);
        assert(c2.response_of(c2.spec_commands()[k2]@) == c2.spec_outcomes()[k2]);
    }
    lemma_collected_same_cache(miner, fields, c1.spec_cache(), c2.spec_cache());
}

} // verus!
