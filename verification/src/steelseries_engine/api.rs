use vstd::prelude::*;

use crate::script_handler::script_data_types::Size;
use crate::text::{concat, concat3, decimal, decimal_string, option_view};

verus! {

/// The platform the program runs on, where a default depends on it.
#[derive(Debug, Clone, Copy, PartialEq, Eq, Structural)]
pub enum TargetOs {
    Linux,
    MacOs,
    Windows,
}

/// Settings of the SteelSeries Engine connection. Durations are in nanoseconds.
#[derive(Debug, Clone)]
pub struct ApiSettings {
    pub config_path: Option<String>,
    pub enabled: bool,
    pub register_heartbeat: bool,
    pub deinitialize_timeout: u64,
}

/// One second, in nanoseconds.
pub const SECOND: u64 = 1_000_000_000;

/// One millisecond, in nanoseconds.
pub const MILLISECOND: u64 = 1_000_000;

/// Why settings were refused.
#[derive(Debug, Clone, Copy, PartialEq, Eq, Structural)]
pub enum SettingsError {
    /// The deinitialize timeout is outside [1 s, 60 s].
    TimeoutOutOfRange(u64),
}

impl ApiSettings {
    /// The settings used when the configuration names none.
    pub fn default(os: TargetOs, program_data: Option<&str>) -> (r: Self)
        ensures
            option_view(r.config_path) == Self::spec_default_config_path(os, program_data),
            r.enabled == (os != TargetOs::Linux),
            r.register_heartbeat,
            r.deinitialize_timeout == 15 * SECOND,
    {
        ApiSettings {
            config_path: Self::default_config_path(os, program_data),
            enabled: match os {
                TargetOs::Linux => false,
                _ => true,
            },
            register_heartbeat: true,
            deinitialize_timeout: 15 * SECOND,
        }
    }

    /// Accepts a deinitialize timeout from 1 to 60 seconds inclusive.
    pub fn validate(settings: &Self) -> (r: Result<(), SettingsError>)
        ensures
            r is Ok <==> (SECOND <= settings.deinitialize_timeout <= 60 * SECOND),
            r is Err ==> r == Err::<(), SettingsError>(
                SettingsError::TimeoutOutOfRange(settings.deinitialize_timeout),
            ),
    {
        if settings.deinitialize_timeout >= SECOND && settings.deinitialize_timeout <= 60 * SECOND {
            Ok(())
        } else {
            Err(SettingsError::TimeoutOutOfRange(settings.deinitialize_timeout))
        }
    }

    pub open spec fn spec_default_config_path(os: TargetOs, program_data: Option<&str>) -> Option<
        Seq<char>,
    > {
        match os {
            TargetOs::Linux => None,
            TargetOs::MacOs => Some(
                "/Library/Application Support/SteelSeries Engine 3/coreProps.json"@,
            ),
            TargetOs::Windows => match program_data {
                Some(p) => Some(p@ + "/SteelSeries/SteelSeries Engine 3/coreProps.json"@),
                None => None,
            },
        }
    }

    /// Where SteelSeries Engine keeps its properties: none on Linux, a fixed path on
    /// macOS, and under `PROGRAMDATA` on Windows (none when that variable is missing).
    pub fn default_config_path(os: TargetOs, program_data: Option<&str>) -> (r: Option<String>)
        ensures
            option_view(r) == Self::spec_default_config_path(os, program_data),
    {
        match os {
            TargetOs::Linux => None,
            TargetOs::MacOs => Some(
                String::from_str("/Library/Application Support/SteelSeries Engine 3/coreProps.json"),
            ),
            TargetOs::Windows => match program_data {
                Some(p) => Some(concat(p, "/SteelSeries/SteelSeries Engine 3/coreProps.json")),
                None => None,
            },
        }
    }
}

/// What loading the API does with given settings.
#[derive(Debug, Clone, Copy, PartialEq, Eq, Structural)]
pub enum LoadPlan {
    /// The API is disabled; nothing is loaded.
    Disabled,
    /// There is no config path; the API is not available.
    NoConfigPath,
    /// The API is loaded; with a heartbeat threshold, a heartbeat is sent on updates
    /// once that long has passed since the last request.
    Start { heartbeat_threshold: Option<u64> },
}

/// Four fifths of `timeout`, rounded down, the way `Duration` arithmetic gives it.
pub open spec fn spec_heartbeat_threshold(timeout: u64) -> int {
    (timeout * 8) / 10
}

pub fn heartbeat_threshold(timeout: u64) -> (r: u64)
    ensures
        r == spec_heartbeat_threshold(timeout),
{
    let wide: u128 = (timeout as u128) * 8 / 10;
    assert(wide <= timeout) by (nonlinear_arith)
        requires
            wide == (timeout as u128) * 8 / 10,
    ;
    wide as u64
}

/// Decides how to load the API from its settings.
pub fn load_plan(settings: &ApiSettings) -> (r: LoadPlan)
    ensures
        r == if !settings.enabled {
            LoadPlan::Disabled
        } else if settings.config_path is None {
            LoadPlan::NoConfigPath
        } else if settings.register_heartbeat {
            LoadPlan::Start {
                heartbeat_threshold: Some(
                    spec_heartbeat_threshold(settings.deinitialize_timeout) as u64,
                ),
            }
        } else {
            LoadPlan::Start { heartbeat_threshold: None }
        },
{
    if !settings.enabled {
        return LoadPlan::Disabled;
    }
    match &settings.config_path {
        None => LoadPlan::NoConfigPath,
        Some(_) => {
            if settings.register_heartbeat {
                LoadPlan::Start {
                    heartbeat_threshold: Some(heartbeat_threshold(settings.deinitialize_timeout)),
                }
            } else {
                LoadPlan::Start { heartbeat_threshold: None }
            }
        },
    }
}

/// A heartbeat is sent only while connected and once more than `threshold` has passed
/// since the last request.
pub fn should_send_heartbeat(connected: bool, elapsed: u64, threshold: u64) -> (r: bool)
    ensures
        r == (connected && elapsed > threshold),
{
    connected && elapsed > threshold
}

/// How long to wait after `error_count` failed requests in a row, in nanoseconds.
pub open spec fn spec_backoff(error_count: nat) -> int {
    if error_count <= 1 {
        500 * MILLISECOND
    } else if error_count == 2 {
        1000 * MILLISECOND
    } else if error_count == 3 {
        2000 * MILLISECOND
    } else if error_count == 4 {
        4000 * MILLISECOND
    } else {
        8000 * MILLISECOND
    }
}

/// The answer of the SteelSeries Engine to one request.
#[derive(Debug, Clone, Copy, PartialEq, Eq, Structural)]
pub enum CallOutcome {
    /// Status 200.
    Success,
    /// Another status.
    BadStatus(u16),
    /// The host was not found or the connection failed.
    Disconnected,
    /// Any other transport error.
    Failed,
}

/// The connection state of the SteelSeries Engine API.
#[derive(Debug)]
pub struct Api {
    address: Option<String>,
    counter: usize,
    sizes: Vec<Size>,
    deinitialize_timeout: u64,
    config_path: String,
    error_count: usize,
}

impl Api {
    pub closed spec fn address(&self) -> Option<Seq<char>> {
        match self.address {
            Some(a) => Some(a@),
            None => None,
        }
    }

    pub closed spec fn counter(&self) -> usize {
        self.counter
    }

    pub closed spec fn sizes(&self) -> Seq<Size> {
        self.sizes@
    }

    pub closed spec fn error_count(&self) -> usize {
        self.error_count
    }

    pub closed spec fn deinitialize_timeout(&self) -> u64 {
        self.deinitialize_timeout
    }

    pub closed spec fn config_path(&self) -> Seq<char> {
        self.config_path@
    }

    pub fn new(deinitialize_timeout: u64, config_path: String) -> (r: Self)
        ensures
            r.address() is None,
            r.counter() == 0,
            r.sizes() == Seq::<Size>::empty(),
            r.error_count() == 0,
            r.deinitialize_timeout() == deinitialize_timeout,
            r.config_path() == config_path@,
    {
        Api {
            address: None,
            counter: 0,
            sizes: Vec::new(),
            deinitialize_timeout,
            config_path,
            error_count: 0,
        }
    }

    pub fn config_path_str(&self) -> (r: &str)
        ensures
            r@ == self.config_path(),
    {
        self.config_path.as_str()
    }

    /// The value the next frame update carries.
    pub fn current_counter(&self) -> (r: usize)
        ensures
            r == self.counter(),
    {
        self.counter
    }

    /// How many requests failed in a row.
    pub fn current_error_count(&self) -> (r: usize)
        ensures
            r == self.error_count(),
    {
        self.error_count
    }

    /// The deinitialize timer the game is registered with, in whole milliseconds.
    pub fn deinitialize_timer_length_ms(&self) -> (r: u64)
        ensures
            r == self.deinitialize_timeout() / MILLISECOND,
    {
        self.deinitialize_timeout / MILLISECOND
    }



    pub fn is_connected(&self) -> (r: bool)
        ensures
            r == self.address() is Some,
    {
        self.address.is_some()
    }

    /// Remembers a screen size to bind a handler for when connecting; a size is kept once.
    pub fn register_size(&mut self, size: Size)
        ensures
            final(self).sizes() == if old(self).sizes().contains(size) {
                old(self).sizes()
            } else {
                old(self).sizes().push(size)
            },
            final(self).address() == old(self).address(),
            final(self).counter() == old(self).counter(),
            final(self).error_count() == old(self).error_count(),
            final(self).deinitialize_timeout() == old(self).deinitialize_timeout(),
            final(self).config_path() == old(self).config_path(),
    {
        let mut i: usize = 0;
        while i < self.sizes.len()
            invariant
                i <= self.sizes@.len(),
                self.sizes@ == old(self).sizes@,
                forall|j: int| 0 <= j < i ==> self.sizes@[j] != size,
            decreases self.sizes@.len() - i,
        {
            if self.sizes[i] == size {
                assert(self.sizes@.contains(size));
                return ;
            }
            i = i + 1;
        }
        self.sizes.push(size);
    }

    /// The screen sizes to bind handlers for.
    pub fn registered_sizes(&self) -> (r: &Vec<Size>)
        ensures
            r@ == self.sizes(),
    {
        &self.sizes
    }

    /// The value of the next frame update; each update gets the next number.
    pub fn next_update_value(&mut self) -> (r: usize)
        requires
            old(self).counter() < usize::MAX,
        ensures
            r == old(self).counter(),
            final(self).counter() == old(self).counter() + 1,
            final(self).sizes() == old(self).sizes(),
            final(self).address() == old(self).address(),
            final(self).error_count() == old(self).error_count(),
            final(self).deinitialize_timeout() == old(self).deinitialize_timeout(),
            final(self).config_path() == old(self).config_path(),
    {
        let value = self.counter;
        self.counter = self.counter + 1;
        value
    }

    /// When requests failed lately, how long a new request still has to wait, given the
    /// time since the last request; `None` when it may go ahead.
    pub fn backoff_remaining(&self, elapsed: u64) -> (r: Option<u64>)
        ensures
            r == if self.error_count() != 0 && elapsed < spec_backoff(self.error_count() as nat) {
                Some((spec_backoff(self.error_count() as nat) - elapsed) as u64)
            } else {
                None::<u64>
            },
    {
        if self.error_count != 0 {
            let backoff: u64 = if self.error_count <= 1 {
                500 * MILLISECOND
            } else if self.error_count == 2 {
                1000 * MILLISECOND
            } else if self.error_count == 3 {
                2000 * MILLISECOND
            } else if self.error_count == 4 {
                4000 * MILLISECOND
            } else {
                8000 * MILLISECOND
            };
            if elapsed < backoff {
                return Some(backoff - elapsed);
            }
        }
        None
    }

    /// Records the connection address read from the properties file.
    pub fn connect(&mut self, address: String)
        ensures
            final(self).address() == Some(address@),
            final(self).sizes() == old(self).sizes(),
            final(self).counter() == old(self).counter(),
            final(self).error_count() == old(self).error_count(),
            final(self).deinitialize_timeout() == old(self).deinitialize_timeout(),
            final(self).config_path() == old(self).config_path(),
    {
        self.address = Some(address);
    }

    /// The URL of `endpoint` on the connected engine.
    pub fn endpoint_url(&self, endpoint: &str) -> (r: Option<String>)
        ensures
            match r {
                Some(u) => self.address() matches Some(a) && u@ == "http://"@ + a + endpoint@,
                None => self.address() is None,
            },
    {
        match &self.address {
            Some(address) => Some(concat3("http://", address.as_str(), endpoint)),
            None => None,
        }
    }

    /// Takes in the answer to a request: success clears the error count, a failure adds
    /// one, and a lost connection forgets the address so that the next request reconnects.
    pub fn record_outcome(&mut self, outcome: CallOutcome) -> (r: bool)
        requires
            old(self).error_count() < usize::MAX,
        ensures
            r == (outcome == CallOutcome::Success),
            final(self).error_count() == if r {
                0
            } else {
                old(self).error_count() + 1
            },
            final(self).address() == if outcome == CallOutcome::Disconnected {
                None
            } else {
                old(self).address()
            },
            final(self).sizes() == old(self).sizes(),
            final(self).counter() == old(self).counter(),
            final(self).deinitialize_timeout() == old(self).deinitialize_timeout(),
            final(self).config_path() == old(self).config_path(),
    {
        match outcome {
            CallOutcome::Success => {
                self.error_count = 0;
                true
            },
            CallOutcome::Disconnected => {
                self.address = None;
                self.error_count = self.error_count + 1;
                false
            },
            _ => {
                self.error_count = self.error_count + 1;
                false
            },
        }
    }
}

/// The game event name for frames of `size`: `UPDATE-<width>X<height>`.
pub open spec fn spec_event_name(size: Size) -> Seq<char> {
    "UPDATE-"@ + decimal(size.width as nat) + "X"@ + decimal(size.height as nat)
}

/// The data field carrying frames of `size`: `image-data-<width>x<height>`.
pub open spec fn spec_data_field(size: Size) -> Seq<char> {
    "image-data-"@ + decimal(size.width as nat) + "x"@ + decimal(size.height as nat)
}

/// The device type of screens of `size`: `screened-<width>x<height>`.
pub open spec fn spec_device_type(size: Size) -> Seq<char> {
    "screened-"@ + decimal(size.width as nat) + "x"@ + decimal(size.height as nat)
}

fn sized_name(prefix: &str, sep: &str, size: Size) -> (r: String)
    ensures
        r@ == prefix@ + decimal(size.width as nat) + sep@ + decimal(size.height as nat),
{
    let mut r = String::from_str(prefix);
    let w = decimal_string(size.width as u64);
    let h = decimal_string(size.height as u64);
    r.append(w.as_str());
    r.append(sep);
    r.append(h.as_str());
    r
}

pub fn event_name_for_size(size: Size) -> (r: String)
    ensures
        r@ == spec_event_name(size),
{
    sized_name("UPDATE-", "X", size)
}

pub fn data_field_for_size(size: Size) -> (r: String)
    ensures
        r@ == spec_data_field(size),
{
    sized_name("image-data-", "x", size)
}

pub fn device_type_for_size(size: Size) -> (r: String)
    ensures
        r@ == spec_device_type(size),
{
    sized_name("screened-", "x", size)
}

/// The blank frame a screen of `size` is registered with: one bit per pixel, each row
/// padded to whole bytes.
pub fn empty_frame(size: Size) -> (r: Vec<u8>)
    requires
        (size.width + 7) / 8 * size.height <= usize::MAX,
    ensures
        r@ == Seq::new(((size.width + 7) / 8 * size.height) as nat, |i: int| 0u8),
{
    let row: usize = size.width / 8 + if size.width % 8 == 0 { 0 } else { 1 };
    assert(row == (size.width + 7) / 8);
    let n: usize = row * size.height;
    let mut r: Vec<u8> = Vec::new();
    let mut i: usize = 0;
    while i < n
        invariant
            i <= n,
            r@ == Seq::new(i as nat, |j: int| 0u8),
        decreases n - i,
    {
        r.push(0);
        i = i + 1;
    }
    r
}

/// A frame update as sent to the engine: game, event, value and the frame under its
/// data field.
#[derive(Debug)]
pub struct FrameUpdate {
    pub game: String,
    pub event: String,
    pub value: usize,
    pub data_field: String,
    pub data: Vec<u8>,
}

/// The name the program registers with the engine.
pub open spec fn spec_game() -> Seq<char> {
    "MBQ_OMNI_LED"@
}

/// Remembers a screen size on `api`.
pub fn register_size(api: &mut Api, size: Size)
    ensures
        final(api).sizes() == if old(api).sizes().contains(size) {
            old(api).sizes()
        } else {
            old(api).sizes().push(size)
        },
        final(api).counter() == old(api).counter(),
        final(api).address() == old(api).address(),
        final(api).error_count() == old(api).error_count(),
        final(api).deinitialize_timeout() == old(api).deinitialize_timeout(),
        final(api).config_path() == old(api).config_path(),
{
    api.register_size(size)
}

/// The update that shows `data` on the screen of `size`; each update carries the next
/// value of the counter.
pub fn update(api: &mut Api, size: &Size, data: &[u8]) -> (r: FrameUpdate)
    requires
        old(api).counter() < usize::MAX,
    ensures
        r.game@ == spec_game(),
        r.event@ == spec_event_name(*size),
        r.value == old(api).counter(),
        r.data_field@ == spec_data_field(*size),
        r.data@ == data@,
        final(api).counter() == old(api).counter() + 1,
        final(api).sizes() == old(api).sizes(),
        final(api).address() == old(api).address(),
        final(api).error_count() == old(api).error_count(),
        final(api).deinitialize_timeout() == old(api).deinitialize_timeout(),
        final(api).config_path() == old(api).config_path(),
{
    let value = api.next_update_value();
    FrameUpdate {
        game: String::from_str("MBQ_OMNI_LED"),
        event: event_name_for_size(*size),
        value,
        data_field: data_field_for_size(*size),
        data: vstd::slice::slice_to_vec(data),
    }
}

/// Whether `text` is a JSON document, as `serde_json` parses one.
pub uninterp spec fn json_parses(text: Seq<char>) -> bool;

/// The string held under `key` at the top of the JSON document `text`: none when the
/// document is not an object, lacks the key, or holds something else than a string
/// there.
pub uninterp spec fn json_string_field(text: Seq<char>, key: Seq<char>) -> Option<Seq<char>>;

/// The message `serde_json` gives for why `text` is not a JSON document.
pub uninterp spec fn json_error_text(text: Seq<char>) -> Seq<char>;

/// Parses `text` as JSON and reads the string under `key` at its top.
///
/// Trusted: `serde_json::from_str::<serde_json::Value>`, then indexing the value by
/// `key` (which gives `Null` for a missing key or a value that is not an object) and
/// `Value::as_str` (which gives the string of a `String` value and nothing otherwise);
/// a parse error is handed back as its `Display` text. All three depend on `text` and
/// `key` alone; the contract names their results and says nothing more of them.
#[verifier::external_body]
fn json_string_field_of(text: &str, key: &str) -> (r: Result<Option<String>, String>)
    ensures
        match r {
            Ok(field) => json_parses(text@) && option_view(field) == json_string_field(text@, key@),
            Err(message) => !json_parses(text@) && message@ == json_error_text(text@),
        },
{
    match serde_json::from_str::<serde_json::Value>(text) {
        Ok(value) => Ok(value[key].as_str().map(String::from)),
        Err(error) => Err(format!("{}", error)),
    }
}

/// The address the engine listens on, from what reading its properties gave: the
/// `address` string, or the error to report when the properties are not JSON or hold no
/// address.
pub fn address_from_parsed(parsed: Result<Option<String>, String>) -> (r: Result<String, String>)
    ensures
        match parsed {
            Ok(Some(a)) => r matches Ok(b) && b@ == a@,
            Ok(None) => r matches Err(m) && m@
                == "Couldn't parse properties json: missing 'address' field"@,
            Err(e) => r matches Err(m) && m@ == "Couldn't parse properties json: "@ + e@,
        },
{
    match parsed {
        Ok(Some(address)) => Ok(address),
        Ok(None) => Err(String::from_str("Couldn't parse properties json: missing 'address' field")),
        Err(error) => Err(concat("Couldn't parse properties json: ", error.as_str())),
    }
}

/// The address the engine listens on, read from the text of its properties file.
pub fn read_address(properties: &str) -> (r: Result<String, String>)
    ensures
        json_parses(properties@) && json_string_field(properties@, "address"@) is Some ==> (r matches Ok(
            a,
        ) && Some(a@) == json_string_field(properties@, "address"@)),
        json_parses(properties@) && json_string_field(properties@, "address"@) is None ==> (r matches Err(
            m,
        ) && m@ == "Couldn't parse properties json: missing 'address' field"@),
        !json_parses(properties@) ==> (r matches Err(m) && m@ == "Couldn't parse properties json: "@
            + json_error_text(properties@)),
{
    let parsed = json_string_field_of(properties, "address");
    address_from_parsed(parsed)
}

/// The message reported when the properties file cannot be opened.
pub fn open_error_message(path: &str, error: &str) -> (r: String)
    ensures
        r@ == "Couldn't open '"@ + path@ + "': "@ + error@,
{
    let head = concat3("Couldn't open '", path, "': ");
    concat(head.as_str(), error)
}

} // verus!
