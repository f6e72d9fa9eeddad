//! Audio output configuration: parsing the sink listing of the audio
//! mixer, resolving a device, reading the current configuration, and the
//! apply / verify / roll back workflow that switches the default sink.
//!
//! The commands themselves are run by the caller; this module takes their
//! outcomes as `CommandReport` values and decides everything else.
use vstd::prelude::*;
use crate::text::{
    chars_of, copy_range, field_of, field_value, find_char, find_in, first_token, first_token_of,
    last_token, last_token_of, line_at, parse_i32, parse_i32_of, push_str, split, split_by,
    string_of, trim, trimmed, views,
};

verus! {

/// One audio output endpoint of a detection.
#[derive(Debug, Clone, PartialEq, Eq)]
pub struct AudioDevice {
    pub id: String,
    pub name: String,
    pub description: String,
    pub is_default: bool,
}

/// The active output configuration.
#[derive(Debug, Clone, PartialEq, Eq)]
pub struct SpeakerConfig {
    pub device_id: String,
    pub volume: i32,
    pub muted: bool,
}

/// The failures of the audio workflow.
#[derive(Debug, Clone, PartialEq, Eq)]
pub enum ConfigError {
    DeviceNotFound(String),
    CommandFailed(String),
    InvalidState(String),
    PermissionDenied,
}

/// What came of running one external command.
#[derive(Debug, Clone, PartialEq, Eq)]
pub enum CommandReport {
    /// The process ran and exited.
    Exited { success: bool, stdout: String, stderr: String },
    /// The process could not be started; the text says why.
    SpawnFailed(String),
}

/// Mathematical model of an `AudioDevice`.
pub struct DeviceView {
    pub id: Seq<char>,
    pub name: Seq<char>,
    pub description: Seq<char>,
    pub is_default: bool,
}

/// Mathematical model of a `SpeakerConfig`.
pub struct ConfigView {
    pub device_id: Seq<char>,
    pub volume: int,
    pub muted: bool,
}

/// Mathematical model of a `ConfigError`.
pub enum ErrorView {
    DeviceNotFound(Seq<char>),
    CommandFailed(Seq<char>),
    InvalidState(Seq<char>),
    PermissionDenied,
}

/// Mathematical model of a `CommandReport`.
pub enum ReportView {
    Exited { success: bool, stdout: Seq<char>, stderr: Seq<char> },
    SpawnFailed(Seq<char>),
}

impl View for AudioDevice {
    type V = DeviceView;

    open spec fn view(&self) -> DeviceView {
        DeviceView {
            id: self.id@,
            name: self.name@,
            description: self.description@,
            is_default: self.is_default,
        }
    }
}

impl View for SpeakerConfig {
    type V = ConfigView;

    open spec fn view(&self) -> ConfigView {
        ConfigView { device_id: self.device_id@, volume: self.volume as int, muted: self.muted }
    }
}

impl View for ConfigError {
    type V = ErrorView;

    open spec fn view(&self) -> ErrorView {
        match self {
            ConfigError::DeviceNotFound(s) => ErrorView::DeviceNotFound(s@),
            ConfigError::CommandFailed(s) => ErrorView::CommandFailed(s@),
            ConfigError::InvalidState(s) => ErrorView::InvalidState(s@),
            ConfigError::PermissionDenied => ErrorView::PermissionDenied,
        }
    }
}

impl View for CommandReport {
    type V = ReportView;

    open spec fn view(&self) -> ReportView {
        match self {
            CommandReport::Exited { success, stdout, stderr } => ReportView::Exited {
                success: *success,
                stdout: stdout@,
                stderr: stderr@,
            },
            CommandReport::SpawnFailed(s) => ReportView::SpawnFailed(s@),
        }
    }
}

/// The text that describes an error to a person.
pub open spec fn error_text(e: ErrorView) -> Seq<char> {
    match e {
        ErrorView::DeviceNotFound(id) => "Device not found: "@ + id,
        ErrorView::CommandFailed(msg) => "Command failed: "@ + msg,
        ErrorView::InvalidState(msg) => "Invalid state: "@ + msg,
        ErrorView::PermissionDenied => "Permission denied"@,
    }
}

impl ConfigError {
    /// Describes the error: `Device not found: <id>`, `Command failed: <text>`,
    /// `Invalid state: <text>` or `Permission denied`.
    pub fn message(&self) -> (r: String)
        ensures
            r@ == error_text(self@),
    {
        let (prefix, detail) = match self {
            ConfigError::DeviceNotFound(id) => ("Device not found: ", id.as_str()),
            ConfigError::CommandFailed(msg) => ("Command failed: ", msg.as_str()),
            ConfigError::InvalidState(msg) => ("Invalid state: ", msg.as_str()),
            ConfigError::PermissionDenied => ("Permission denied", ""),
        };
        let mut text = String::from_str(prefix);
        push_str(&mut text, detail);
        proof {
            if self is PermissionDenied {
                reveal_strlit("");
                assert(text@ =~= "Permission denied"@);
            }
        }
        text
    }
}

/// The views of a sequence of devices.
pub open spec fn device_views(ds: Seq<AudioDevice>) -> Seq<DeviceView> {
    ds.map_values(|d: AudioDevice| d@)
}

/// The view of the result of a detection.
pub open spec fn devices_result_view(r: Result<Vec<AudioDevice>, ConfigError>) -> Result<
    Seq<DeviceView>,
    ErrorView,
> {
    match r {
        Ok(ds) => Ok(device_views(ds@)),
        Err(e) => Err(e@),
    }
}

/// The view of the result of a configuration read.
pub open spec fn config_result_view(r: Result<SpeakerConfig, ConfigError>) -> Result<
    ConfigView,
    ErrorView,
> {
    match r {
        Ok(c) => Ok(c@),
        Err(e) => Err(e@),
    }
}

// ---------------------------------------------------------------------------
// Identifier validation
// ---------------------------------------------------------------------------

/// `s` holds two consecutive dots.
pub open spec fn has_double_dot(s: Seq<char>) -> bool {
    exists|i: int| 0 <= i < s.len() - 1 && s[i] == '.' && #[trigger] s[i + 1] == '.'
}

/// The identifier policy. Both modes refuse the empty string, a null
/// character and `..`; the strict mode also refuses `/`, `\` and spaces.
pub open spec fn id_allowed(s: Seq<char>, strict: bool) -> bool {
    &&& s.len() > 0
    &&& !s.contains('\0')
    &&& !has_double_dot(s)
    &&& strict ==> !s.contains('/') && !s.contains('\\') && !s.contains(' ')
}

/// Applies the identifier policy, in strict or permissive mode.
pub fn check_identifier(id: &str, strict: bool) -> (r: bool)
    ensures
        r == id_allowed(id@, strict),
{
    let v = chars_of(id);
    let n = v.len();
    if n == 0 {
        return false;
    }
    let mut i: usize = 0;
    while i < n
        invariant
            n == v.len(),
            v@ == id@,
            i <= n,
            forall|j: int| 0 <= j < i ==> #[trigger] v@[j] != '\0',
            forall|j: int| 0 <= j < i ==> (#[trigger] v@[j] == '.' ==> j + 1 >= n || v@[j + 1] != '.'),
            strict ==> forall|j: int| 0 <= j < i ==> #[trigger] v@[j] != '/' && v@[j] != '\\' && v@[j] != ' ',
        decreases n - i,
    {
        let c = v[i];
        if c == '\0' {
            assert(v@[i as int] == '\0');
            return false;
        }
        if c == '.' && i + 1 < n && v[i + 1] == '.' {
            assert(v@[i as int] == '.' && v@[i + 1] == '.');
            return false;
        }
        if strict && (c == '/' || c == '\\' || c == ' ') {
            assert(v@[i as int] == c);
            return false;
        }
        i += 1;
    }
    assert(!has_double_dot(v@)) by {
        assert forall|j: int| 0 <= j < v@.len() - 1 && v@[j] == '.' implies #[trigger] v@[j + 1] != '.' by {
        }
    }
    true
}

/// Whether `device_id` is acceptable as an identifier: not empty, and free
/// of null characters, `..`, `/`, `\` and spaces. Depends on its argument
/// alone.
pub fn validate_device_id(device_id: &str) -> (r: bool)
    ensures
        r == id_allowed(device_id@, true),
{
    check_identifier(device_id, true)
}

/// The value of the first line of `text` that, with its leading white space
/// removed, starts with `field`: the text after that line's first `:`,
/// trimmed. `None` when no line starts with `field`.
pub fn extract_field(text: &str, field: &str) -> (r: Option<String>)
    ensures
        match r {
            Some(v) => field_value(text@, field@) == Some(v@),
            None => field_value(text@, field@) is None,
        },
{
    match field_of(&chars_of(text), &chars_of(field)) {
        Some(v) => Some(string_of(&v)),
        None => None,
    }
}

// ---------------------------------------------------------------------------
// Sink directory parser
// ---------------------------------------------------------------------------

/// The token that opens each block of the sink listing.
pub open spec fn sink_marker() -> Seq<char> {
    seq!['S', 'i', 'n', 'k', ' ', '#']
}

/// The label of a sink's durable name.
pub open spec fn name_label() -> Seq<char> {
    seq!['N', 'a', 'm', 'e', ':']
}

/// The label of a sink's human-readable description.
pub open spec fn description_label() -> Seq<char> {
    seq!['D', 'e', 's', 'c', 'r', 'i', 'p', 't', 'i', 'o', 'n', ':']
}

/// The label of a sink's volume.
pub open spec fn volume_label() -> Seq<char> {
    seq!['V', 'o', 'l', 'u', 'm', 'e', ':']
}

/// The label of a sink's mute state.
pub open spec fn mute_label() -> Seq<char> {
    seq!['M', 'u', 't', 'e', ':']
}

/// The prefix of the name given to a sink that reports none.
pub open spec fn sink_prefix() -> Seq<char> {
    seq!['s', 'i', 'n', 'k', '-']
}

/// The device that one block of the listing describes, if any: blank
/// blocks and blocks whose first line holds no token give none.
pub open spec fn block_device(b: Seq<char>, default_name: Seq<char>) -> Option<DeviceView> {
    let id = first_token(line_at(b, 0));
    if trim(b).len() == 0 || id.len() == 0 {
        None
    } else {
        let name = match field_value(b, name_label()) {
            Some(n) => n,
            None => sink_prefix() + id,
        };
        let description = match field_value(b, description_label()) {
            Some(d) => d,
            None => name,
        };
        Some(DeviceView { id, name, description, is_default: name == default_name })
    }
}

/// The devices of a sequence of blocks, in block order.
pub open spec fn devices_of_blocks(bs: Seq<Seq<char>>, default_name: Seq<char>) -> Seq<DeviceView>
    decreases bs.len(),
{
    if bs.len() == 0 {
        seq![]
    } else {
        let rest = devices_of_blocks(bs.drop_last(), default_name);
        match block_device(bs.last(), default_name) {
            Some(d) => rest.push(d),
            None => rest,
        }
    }
}

/// The devices that a sink listing describes, where `default_name` is the
/// name of the default sink.
pub open spec fn parse_devices(listing: Seq<char>, default_name: Seq<char>) -> Seq<DeviceView> {
    devices_of_blocks(split(listing, sink_marker()), default_name)
}

fn marker_chars() -> (r: Vec<char>)
    ensures
        r@ == sink_marker(),
{
    let r = vec!['S', 'i', 'n', 'k', ' ', '#'];
    assert(r@ =~= sink_marker());
    r
}

fn name_label_chars() -> (r: Vec<char>)
    ensures
        r@ == name_label(),
{
    let r = vec!['N', 'a', 'm', 'e', ':'];
    assert(r@ =~= name_label());
    r
}

fn description_label_chars() -> (r: Vec<char>)
    ensures
        r@ == description_label(),
{
    let r = vec!['D', 'e', 's', 'c', 'r', 'i', 'p', 't', 'i', 'o', 'n', ':'];
    assert(r@ =~= description_label());
    r
}

fn volume_label_chars() -> (r: Vec<char>)
    ensures
        r@ == volume_label(),
{
    let r = vec!['V', 'o', 'l', 'u', 'm', 'e', ':'];
    assert(r@ =~= volume_label());
    r
}

fn mute_label_chars() -> (r: Vec<char>)
    ensures
        r@ == mute_label(),
{
    let r = vec!['M', 'u', 't', 'e', ':'];
    assert(r@ =~= mute_label());
    r
}

/// The device described by one block (see `block_device`).
fn device_of_block(b: &Vec<char>, default_name: &String) -> (r: Option<AudioDevice>)
    ensures
        match r {
            Some(d) => block_device(b@, default_name@) == Some(d@),
            None => block_device(b@, default_name@) is None,
        },
{
    let t = trimmed(b);
    if t.len() == 0 {
        return None;
    }
    let n = b.len();
    let e = find_char(b, 0, n, '\n');
    let le = if 0 < e && e < n && b[e - 1] == '\r' {
        e - 1
    } else {
        e
    };
    let first = copy_range(b, 0, le);
    assert(first@ == line_at(b@, 0));
    let id_chars = first_token_of(&first);
    if id_chars.len() == 0 {
        return None;
    }
    let id = string_of(&id_chars);
    let name = match field_of(b, &name_label_chars()) {
        Some(n) => string_of(&n),
        None => {
            proof {
                reveal_strlit("sink-");
            }
            let mut p = String::from_str("sink-");
            push_str(&mut p, id.as_str());
            assert(p@ =~= sink_prefix() + id@);
            p
        },
    };
    let description = match field_of(b, &description_label_chars()) {
        Some(d) => string_of(&d),
        None => name.clone(),
    };
    let is_default = name == *default_name;
    Some(AudioDevice { id, name, description, is_default })
}

/// Parses a sink listing into devices, in block order; `default_name` is
/// the name of the current default sink.
pub fn parse_sink_listing(listing: &str, default_name: &str) -> (r: Vec<AudioDevice>)
    ensures
        device_views(r@) == parse_devices(listing@, default_name@),
{
    let text = chars_of(listing);
    let marker = marker_chars();
    let blocks = split_by(&text, &marker);
    let default_name = String::from_str(default_name);
    let mut out: Vec<AudioDevice> = Vec::new();
    let nb = blocks.len();
    for i in 0..nb
        invariant
            nb == blocks.len(),
            views(blocks@) == split(listing@, sink_marker()),
            device_views(out@) == devices_of_blocks(views(blocks@).subrange(0, i as int), default_name@),
    {
        let ghost before = out@;
        let ghost bs = views(blocks@).subrange(0, i + 1);
        assert(bs.drop_last() =~= views(blocks@).subrange(0, i as int));
        assert(bs.last() == blocks@[i as int]@);
        match device_of_block(&blocks[i], &default_name) {
            Some(d) => {
                out.push(d);
                assert(device_views(out@) =~= device_views(before).push(d@));
            },
            None => {},
        }
    }
    assert(views(blocks@).subrange(0, nb as int) =~= views(blocks@));
    out
}

/// What a detection gives for the outcome of the listing command and of
/// the default-sink query.
pub open spec fn detect_spec(listing: ReportView, default_query: ReportView) -> Result<
    Seq<DeviceView>,
    ErrorView,
> {
    match listing {
        ReportView::SpawnFailed(e) => Err(ErrorView::CommandFailed(e)),
        ReportView::Exited { success, stdout, stderr } => {
            if !success {
                Err(ErrorView::CommandFailed(stderr))
            } else {
                match default_query {
                    ReportView::SpawnFailed(e) => Err(ErrorView::CommandFailed(e)),
                    ReportView::Exited { success: found, stdout: name, .. } => Ok(
                        parse_devices(
                            stdout,
                            if found {
                                trim(name)
                            } else {
                                seq![]
                            },
                        ),
                    ),
                }
            }
        },
    }
}

/// Detects the output devices from the outcome of the listing command and
/// of the default-sink query. The result depends on these two alone.
pub fn detect_audio_devices(listing: &CommandReport, default_query: &CommandReport) -> (r: Result<
    Vec<AudioDevice>,
    ConfigError,
>)
    ensures
        devices_result_view(r) == detect_spec(listing@, default_query@),
{
    match listing {
        CommandReport::SpawnFailed(e) => Err(ConfigError::CommandFailed(e.clone())),
        CommandReport::Exited { success, stdout, stderr } => {
            if !*success {
                return Err(ConfigError::CommandFailed(stderr.clone()));
            }
            match default_query {
                CommandReport::SpawnFailed(e) => Err(ConfigError::CommandFailed(e.clone())),
                CommandReport::Exited { success: found, stdout: name, .. } => {
                    let default_name = if *found {
                        string_of(&trimmed(&chars_of(name.as_str())))
                    } else {
                        String::new()
                    };
                    proof {
                        if !*found {
                            assert(default_name@ =~= seq![]);
                        }
                    }
                    let ds = parse_sink_listing(stdout.as_str(), default_name.as_str());
                    Ok(ds)
                },
            }
        },
    }
}

// ---------------------------------------------------------------------------
// Device resolver
// ---------------------------------------------------------------------------

/// The first index at or after `i` of a device named `s`, or `ds.len()`.
pub open spec fn name_index_from(ds: Seq<DeviceView>, i: int, s: Seq<char>) -> int
    decreases ds.len() - i,
{
    if i < 0 || i >= ds.len() {
        ds.len() as int
    } else if ds[i].name == s {
        i
    } else {
        name_index_from(ds, i + 1, s)
    }
}

/// The first index at or after `i` of a device whose id is `s`, or `ds.len()`.
pub open spec fn id_index_from(ds: Seq<DeviceView>, i: int, s: Seq<char>) -> int
    decreases ds.len() - i,
{
    if i < 0 || i >= ds.len() {
        ds.len() as int
    } else if ds[i].id == s {
        i
    } else {
        id_index_from(ds, i + 1, s)
    }
}

/// The device that identifier `s` selects: the first one named `s`, else
/// the first one whose id is `s`; `ds.len()` when there is none.
pub open spec fn resolve_index(ds: Seq<DeviceView>, s: Seq<char>) -> int {
    let k = name_index_from(ds, 0, s);
    if k < ds.len() {
        k
    } else {
        id_index_from(ds, 0, s)
    }
}

/// Finds the device that `identifier` selects (see `resolve_index`): an
/// exact name match wins over an id match.
pub fn resolve_device(devices: &Vec<AudioDevice>, identifier: &str) -> (r: Result<usize, ConfigError>)
    ensures
        match r {
            Ok(k) => k == resolve_index(device_views(devices@), identifier@) && k < devices.len(),
            Err(e) => resolve_index(device_views(devices@), identifier@) == devices.len() && e@
                == ErrorView::DeviceNotFound(identifier@),
        },
{
    let wanted = String::from_str(identifier);
    let ghost ds = device_views(devices@);
    let n = devices.len();
    let mut k: usize = 0;
    while k < n && !(devices[k].name == wanted)
        invariant
            n == devices.len(),
            ds == device_views(devices@),
            wanted@ == identifier@,
            k <= n,
            name_index_from(ds, 0, identifier@) == name_index_from(ds, k as int, identifier@),
        decreases n - k,
    {
        k += 1;
    }
    if k < n {
        return Ok(k);
    }
    let mut j: usize = 0;
    while j < n && !(devices[j].id == wanted)
        invariant
            n == devices.len(),
            ds == device_views(devices@),
            wanted@ == identifier@,
            j <= n,
            id_index_from(ds, 0, identifier@) == id_index_from(ds, j as int, identifier@),
        decreases n - j,
    {
        j += 1;
    }
    if j < n {
        Ok(j)
    } else {
        Err(ConfigError::DeviceNotFound(wanted))
    }
}

// ---------------------------------------------------------------------------
// Configuration reader
// ---------------------------------------------------------------------------

/// `n` clamped into `[0, 100]`.
pub open spec fn clamp_percent(n: int) -> int {
    if n < 0 {
        0
    } else if n > 100 {
        100
    } else {
        n
    }
}

/// The volume that a block reports: the last token before the first `%`
/// of its `Volume:` value, read as an `i32` and clamped into `[0, 100]`;
/// 100 when there is no such field or the token does not read.
pub open spec fn volume_of(b: Seq<char>) -> int {
    match field_value(b, volume_label()) {
        Some(v) => match parse_i32(last_token(v.subrange(0, find_in(v, 0, v.len() as int, '%')))) {
            Some(n) => clamp_percent(n),
            None => 100,
        },
        None => 100,
    }
}

/// Whether a block reports its sink as muted: its `Mute:` value is `yes`.
pub open spec fn muted_of(b: Seq<char>) -> bool {
    match field_value(b, mute_label()) {
        Some(m) => trim(m) == seq!['y', 'e', 's'],
        None => false,
    }
}

/// The first index at or after `i` of a block whose `Name:` value is
/// `name`, or `bs.len()`.
pub open spec fn block_index_from(bs: Seq<Seq<char>>, i: int, name: Seq<char>) -> int
    decreases bs.len() - i,
{
    if i < 0 || i >= bs.len() {
        bs.len() as int
    } else if field_value(bs[i], name_label()) == Some(name) {
        i
    } else {
        block_index_from(bs, i + 1, name)
    }
}

/// What a configuration read gives for the outcome of the default-sink
/// query and of the listing command.
pub open spec fn current_spec(default_query: ReportView, listing: ReportView) -> Result<
    ConfigView,
    ErrorView,
> {
    match default_query {
        ReportView::SpawnFailed(e) => Err(ErrorView::CommandFailed(e)),
        ReportView::Exited { success, stdout, .. } => {
            if !success {
                Err(ErrorView::InvalidState("No default sink configured"@))
            } else {
                let id = trim(stdout);
                match listing {
                    ReportView::SpawnFailed(e) => Err(ErrorView::CommandFailed(e)),
                    ReportView::Exited { stdout: text, .. } => {
                        let bs = split(text, sink_marker());
                        let k = block_index_from(bs, 0, id);
                        if k < bs.len() {
                            Ok(ConfigView { device_id: id, volume: volume_of(bs[k]), muted: muted_of(bs[k]) })
                        } else {
                            Err(ErrorView::DeviceNotFound(id))
                        }
                    },
                }
            }
        },
    }
}

fn volume_of_block(b: &Vec<char>) -> (r: i32)
    ensures
        r as int == volume_of(b@),
        0 <= r <= 100,
{
    match field_of(b, &volume_label_chars()) {
        Some(v) => {
            let k = find_char(&v, 0, v.len(), '%');
            let before = copy_range(&v, 0, k);
            let token = last_token_of(&before);
            match parse_i32_of(&token) {
                Some(n) => {
                    if n < 0 {
                        0
                    } else if n > 100 {
                        100
                    } else {
                        n
                    }
                },
                None => 100,
            }
        },
        None => 100,
    }
}

fn muted_of_block(b: &Vec<char>) -> (r: bool)
    ensures
        r == muted_of(b@),
{
    match field_of(b, &mute_label_chars()) {
        Some(m) => {
            let t = trimmed(&m);
            let r = t.len() == 3 && t[0] == 'y' && t[1] == 'e' && t[2] == 's';
            assert(r ==> t@ =~= seq!['y', 'e', 's']);
            r
        },
        None => false,
    }
}

/// Reads the current configuration from the outcome of the default-sink
/// query and of the listing command. The volume is always within
/// `[0, 100]`.
pub fn get_current_speaker_config(default_query: &CommandReport, listing: &CommandReport) -> (r:
    Result<SpeakerConfig, ConfigError>)
    ensures
        config_result_view(r) == current_spec(default_query@, listing@),
        r matches Ok(c) ==> 0 <= c.volume <= 100,
{
    match default_query {
        CommandReport::SpawnFailed(e) => Err(ConfigError::CommandFailed(e.clone())),
        CommandReport::Exited { success, stdout, .. } => {
            if !*success {
                return Err(ConfigError::InvalidState(String::from_str("No default sink configured")));
            }
            let id = trimmed(&chars_of(stdout.as_str()));
            let device_id = string_of(&id);
            match listing {
                CommandReport::SpawnFailed(e) => Err(ConfigError::CommandFailed(e.clone())),
                CommandReport::Exited { stdout: text, .. } => {
                    let blocks = split_by(&chars_of(text.as_str()), &marker_chars());
                    let ghost bs = views(blocks@);
                    let label = name_label_chars();
                    let n = blocks.len();
                    let mut k: usize = 0;
                    while k < n && !matches_name(&blocks[k], &label, &id)
                        invariant
                            n == blocks.len(),
                            bs == views(blocks@),
                            label@ == name_label(),
                            k <= n,
                            block_index_from(bs, 0, id@) == block_index_from(bs, k as int, id@),
                        decreases n - k,
                    {
                        k += 1;
                    }
                    if k < n {
                        let volume = volume_of_block(&blocks[k]);
                        let muted = muted_of_block(&blocks[k]);
                        Ok(SpeakerConfig { device_id, volume, muted })
                    } else {
                        Err(ConfigError::DeviceNotFound(device_id))
                    }
                },
            }
        },
    }
}

/// Whether block `b`'s field `label` has the value `name`.
fn matches_name(b: &Vec<char>, label: &Vec<char>, name: &Vec<char>) -> (r: bool)
    ensures
        r == (field_value(b@, label@) == Some(name@)),
{
    match field_of(b, label) {
        Some(v) => {
            let mut same = v.len() == name.len();
            let mut i: usize = 0;
            while same && i < v.len()
                invariant
                    same ==> v.len() == name.len(),
                    i <= v.len(),
                    same ==> forall|j: int| 0 <= j < i ==> v@[j] == name@[j],
                    !same ==> v@ != name@,
                decreases v.len() - i,
            {
                if v[i] != name[i] {
                    same = false;
                    assert(v@[i as int] != name@[i as int]);
                }
                i += 1;
            }
            if same {
                assert(v@ =~= name@);
            }
            same
        },
        None => false,
    }
}

// ---------------------------------------------------------------------------
// Configuration applier: apply, verify, roll back
// ---------------------------------------------------------------------------

/// Where a configuration session stands.
#[derive(Debug, Clone, Copy, PartialEq, Eq, Structural)]
pub enum ConfigurePhase {
    /// Waiting for the configuration read that serves as the rollback target.
    Snapshot,
    /// Waiting for the detection in which the identifier is resolved.
    Resolve,
    /// Waiting for the outcome of the command that sets the default sink.
    Apply,
    /// Waiting for the configuration read that verifies the change.
    Verify,
    /// Finished; no further event is expected.
    Done,
}

/// A session that switches the default output device. The caller performs
/// each action that the session asks for and hands back what came of it.
#[derive(Debug, Clone)]
pub struct ConfigureSession {
    /// The identifier given by the caller.
    pub identifier: String,
    pub phase: ConfigurePhase,
    /// The default device's name before any change: the rollback target.
    pub previous: String,
    /// The name of the device being switched to.
    pub target: String,
}

/// What the session asks its caller to do next.
#[derive(Debug, PartialEq, Eq)]
pub enum ConfigureAction {
    /// Read the current configuration and report it as `ConfigureEvent::Current`.
    ReadCurrent,
    /// Detect the devices and report them as `ConfigureEvent::Devices`.
    DetectDevices,
    /// Set the default sink to this name and report the command's outcome
    /// as `ConfigureEvent::SetDefaultDone`.
    SetDefault(String),
    /// Set the default sink back to this name, whatever comes of it, and
    /// end with this error.
    RollbackAndFail(String, ConfigError),
    /// End with this outcome.
    Finish(Result<(), ConfigError>),
}

/// What came of the action that the session asked for.
#[derive(Debug, PartialEq, Eq)]
pub enum ConfigureEvent {
    Current(Result<SpeakerConfig, ConfigError>),
    Devices(Result<Vec<AudioDevice>, ConfigError>),
    SetDefaultDone(CommandReport),
}

/// Mathematical model of a `ConfigureSession`.
pub struct SessionView {
    pub identifier: Seq<char>,
    pub phase: ConfigurePhase,
    pub previous: Seq<char>,
    pub target: Seq<char>,
}

/// Mathematical model of a `ConfigureAction`.
pub enum ActionView {
    ReadCurrent,
    DetectDevices,
    SetDefault(Seq<char>),
    RollbackAndFail(Seq<char>, ErrorView),
    Finish(Result<(), ErrorView>),
}

/// Mathematical model of a `ConfigureEvent`.
pub enum EventView {
    Current(Result<ConfigView, ErrorView>),
    Devices(Result<Seq<DeviceView>, ErrorView>),
    SetDefaultDone(ReportView),
}

impl View for ConfigureSession {
    type V = SessionView;

    open spec fn view(&self) -> SessionView {
        SessionView {
            identifier: self.identifier@,
            phase: self.phase,
            previous: self.previous@,
            target: self.target@,
        }
    }
}

impl View for ConfigureAction {
    type V = ActionView;

    open spec fn view(&self) -> ActionView {
        match self {
            ConfigureAction::ReadCurrent => ActionView::ReadCurrent,
            ConfigureAction::DetectDevices => ActionView::DetectDevices,
            ConfigureAction::SetDefault(n) => ActionView::SetDefault(n@),
            ConfigureAction::RollbackAndFail(n, e) => ActionView::RollbackAndFail(n@, e@),
            ConfigureAction::Finish(Ok(())) => ActionView::Finish(Ok(())),
            ConfigureAction::Finish(Err(e)) => ActionView::Finish(Err(e@)),
        }
    }
}

impl View for ConfigureEvent {
    type V = EventView;

    open spec fn view(&self) -> EventView {
        match self {
            ConfigureEvent::Current(r) => EventView::Current(config_result_view(*r)),
            ConfigureEvent::Devices(r) => EventView::Devices(devices_result_view(*r)),
            ConfigureEvent::SetDefaultDone(c) => EventView::SetDefaultDone(c@),
        }
    }
}

/// The session's state and first action for identifier `id`. Identifiers
/// that the permissive policy refuses end the session at once.
pub open spec fn start_spec(id: Seq<char>) -> (SessionView, ActionView) {
    let done = SessionView { identifier: id, phase: ConfigurePhase::Done, previous: seq![], target: seq![] };
    if id.len() == 0 {
        (done, ActionView::Finish(Err(ErrorView::InvalidState("Device ID cannot be empty"@))))
    } else if !id_allowed(id, false) {
        (
            done,
            ActionView::Finish(
                Err(ErrorView::InvalidState("Invalid device ID format: "@ + id)),
            ),
        )
    } else {
        (SessionView { phase: ConfigurePhase::Snapshot, ..done }, ActionView::ReadCurrent)
    }
}

/// The event that a session in `phase` waits for is of `e`'s kind.
pub open spec fn expects(phase: ConfigurePhase, e: EventView) -> bool {
    match e {
        EventView::Current(_) => phase == ConfigurePhase::Snapshot || phase
            == ConfigurePhase::Verify,
        EventView::Devices(_) => phase == ConfigurePhase::Resolve,
        EventView::SetDefaultDone(_) => phase == ConfigurePhase::Apply,
    }
}

/// The session's next state and action after event `e`. Before the set
/// command runs, failures end the session; once it has run, every failure
/// (the command's, a failed read-back, a read-back that disagrees) sets the
/// previous default again.
pub open spec fn step_spec(s: SessionView, e: EventView) -> (SessionView, ActionView) {
    let done = SessionView { phase: ConfigurePhase::Done, ..s };
    match e {
        EventView::Current(Err(x)) => if s.phase == ConfigurePhase::Verify {
            (done, ActionView::RollbackAndFail(s.previous, x))
        } else {
            (done, ActionView::Finish(Err(x)))
        },
        EventView::Current(Ok(c)) => if s.phase == ConfigurePhase::Snapshot {
            (
                SessionView { phase: ConfigurePhase::Resolve, previous: c.device_id, ..s },
                ActionView::DetectDevices,
            )
        } else if c.device_id == s.target {
            (done, ActionView::Finish(Ok(())))
        } else {
            (
                done,
                ActionView::RollbackAndFail(
                    s.previous,
                    ErrorView::InvalidState("Configuration not applied correctly"@),
                ),
            )
        },
        EventView::Devices(Err(x)) => (done, ActionView::Finish(Err(x))),
        EventView::Devices(Ok(ds)) => {
            let k = resolve_index(ds, s.identifier);
            if k < ds.len() {
                (
                    SessionView { phase: ConfigurePhase::Apply, target: ds[k].name, ..s },
                    ActionView::SetDefault(ds[k].name),
                )
            } else {
                (done, ActionView::Finish(Err(ErrorView::DeviceNotFound(s.identifier))))
            }
        },
        EventView::SetDefaultDone(ReportView::SpawnFailed(x)) => (
            done,
            ActionView::RollbackAndFail(s.previous, ErrorView::CommandFailed(x)),
        ),
        EventView::SetDefaultDone(ReportView::Exited { success, stderr, .. }) => if success {
            (SessionView { phase: ConfigurePhase::Verify, ..s }, ActionView::ReadCurrent)
        } else {
            (done, ActionView::RollbackAndFail(s.previous, ErrorView::CommandFailed(stderr)))
        },
    }
}

impl ConfigureSession {
    /// Starts switching the default output to the device that `identifier`
    /// selects, and gives the first action.
    pub fn start(identifier: &str) -> (r: (ConfigureSession, ConfigureAction))
        ensures
            (r.0@, r.1@) == start_spec(identifier@),
    {
        let done = ConfigureSession {
            identifier: String::from_str(identifier),
            phase: ConfigurePhase::Done,
            previous: String::new(),
            target: String::new(),
        };
        if identifier.is_empty() {
            let e = ConfigError::InvalidState(String::from_str("Device ID cannot be empty"));
            return (done, ConfigureAction::Finish(Err(e)));
        }
        if !check_identifier(identifier, false) {
            let msg = String::from_str("Invalid device ID format: ").concat(identifier);
            return (done, ConfigureAction::Finish(Err(ConfigError::InvalidState(msg))));
        }
        (ConfigureSession { phase: ConfigurePhase::Snapshot, ..done }, ConfigureAction::ReadCurrent)
    }

    /// Whether the session waits for an event of `event`'s kind.
    pub fn accepts(&self, event: &ConfigureEvent) -> (r: bool)
        ensures
            r == expects(self.phase, event@),
    {
        match event {
            ConfigureEvent::Current(_) => self.phase == ConfigurePhase::Snapshot || self.phase
                == ConfigurePhase::Verify,
            ConfigureEvent::Devices(_) => self.phase == ConfigurePhase::Resolve,
            ConfigureEvent::SetDefaultDone(_) => self.phase == ConfigurePhase::Apply,
        }
    }

    /// Takes what came of the last action and gives the next one.
    pub fn step(&mut self, event: ConfigureEvent) -> (r: ConfigureAction)
        requires
            expects(old(self).phase, event@),
        ensures
            (final(self)@, r@) == step_spec(old(self)@, event@),
    {
        match event {
            ConfigureEvent::Current(Err(x)) => {
                let verifying = self.phase == ConfigurePhase::Verify;
                self.phase = ConfigurePhase::Done;
                if verifying {
                    ConfigureAction::RollbackAndFail(self.previous.clone(), x)
                } else {
                    ConfigureAction::Finish(Err(x))
                }
            },
            ConfigureEvent::Current(Ok(c)) => {
                if self.phase == ConfigurePhase::Snapshot {
                    self.phase = ConfigurePhase::Resolve;
                    self.previous = c.device_id;
                    ConfigureAction::DetectDevices
                } else {
                    self.phase = ConfigurePhase::Done;
                    if c.device_id == self.target {
                        ConfigureAction::Finish(Ok(()))
                    } else {
                        let msg = String::from_str("Configuration not applied correctly");
                        ConfigureAction::RollbackAndFail(
                            self.previous.clone(),
                            ConfigError::InvalidState(msg),
                        )
                    }
                }
            },
            ConfigureEvent::Devices(Err(x)) => {
                self.phase = ConfigurePhase::Done;
                ConfigureAction::Finish(Err(x))
            },
            ConfigureEvent::Devices(Ok(ds)) => {
                match resolve_device(&ds, self.identifier.as_str()) {
                    Ok(k) => {
                        let name = ds[k].name.clone();
                        self.phase = ConfigurePhase::Apply;
                        self.target = name.clone();
                        ConfigureAction::SetDefault(name)
                    },
                    Err(_) => {
                        self.phase = ConfigurePhase::Done;
                        let id = self.identifier.clone();
                        ConfigureAction::Finish(Err(ConfigError::DeviceNotFound(id)))
                    },
                }
            },
            ConfigureEvent::SetDefaultDone(CommandReport::SpawnFailed(x)) => {
                self.phase = ConfigurePhase::Done;
                ConfigureAction::RollbackAndFail(self.previous.clone(), ConfigError::CommandFailed(x))
            },
            ConfigureEvent::SetDefaultDone(CommandReport::Exited { success, stderr, .. }) => {
                if success {
                    self.phase = ConfigurePhase::Verify;
                    ConfigureAction::ReadCurrent
                } else {
                    self.phase = ConfigurePhase::Done;
                    ConfigureAction::RollbackAndFail(
                        self.previous.clone(),
                        ConfigError::CommandFailed(stderr),
                    )
                }
            },
        }
    }
}

// ---------------------------------------------------------------------------
// Laws
// ---------------------------------------------------------------------------

proof fn lemma_name_index_reaches(ds: Seq<DeviceView>, j: int, i: int, s: Seq<char>)
    requires
        0 <= j <= i < ds.len(),
        ds[i].name == s,
    ensures
        j <= name_index_from(ds, j, s) <= i,
        ds[name_index_from(ds, j, s)].name == s,
    decreases i - j,
{
    if ds[j].name != s {
        lemma_name_index_reaches(ds, j + 1, i, s);
    }
}

proof fn lemma_name_index_absent(ds: Seq<DeviceView>, j: int, s: Seq<char>)
    requires
        0 <= j <= ds.len(),
        forall|i: int| j <= i < ds.len() ==> (#[trigger] ds[i]).name != s,
    ensures
        name_index_from(ds, j, s) == ds.len(),
    decreases ds.len() - j,
{
    if j < ds.len() {
        lemma_name_index_absent(ds, j + 1, s);
    }
}

proof fn lemma_id_index_absent(ds: Seq<DeviceView>, j: int, s: Seq<char>)
    requires
        0 <= j <= ds.len(),
        forall|i: int| j <= i < ds.len() ==> (#[trigger] ds[i]).id != s,
    ensures
        id_index_from(ds, j, s) == ds.len(),
    decreases ds.len() - j,
{
    if j < ds.len() {
        lemma_id_index_absent(ds, j + 1, s);
    }
}

proof fn lemma_blocks_give_complete_devices(bs: Seq<Seq<char>>, default_name: Seq<char>)
    ensures
        forall|i: int|
            0 <= i < devices_of_blocks(bs, default_name).len() ==> {
                let d = #[trigger] devices_of_blocks(bs, default_name)[i];
                d.id.len() > 0 && d.is_default == (d.name == default_name)
            },
    decreases bs.len(),
{
    if bs.len() > 0 {
        lemma_blocks_give_complete_devices(bs.drop_last(), default_name);
        let rest = devices_of_blocks(bs.drop_last(), default_name);
        match block_device(bs.last(), default_name) {
            Some(d) => {
                assert(devices_of_blocks(bs, default_name) == rest.push(d));
                assert forall|i: int| 0 <= i < rest.len() implies #[trigger] rest.push(d)[i]
                    == rest[i] by {}
            },
            None => {},
        }
    }
}

/// Every device of a listing has a non-empty id, and is the default
/// exactly when its name is the default sink's name.
pub proof fn lemma_parsed_devices_complete(listing: Seq<char>, default_name: Seq<char>)
    ensures
        forall|i: int|
            0 <= i < parse_devices(listing, default_name).len() ==> {
                let d = #[trigger] parse_devices(listing, default_name)[i];
                d.id.len() > 0 && d.is_default == (d.name == default_name)
            },
{
    lemma_blocks_give_complete_devices(split(listing, sink_marker()), default_name);
}

/// Detection is idempotent: two detections made on the same command
/// outcomes (no change in between) give equal device lists.
pub proof fn lemma_detect_idempotent(
    listing1: ReportView,
    default1: ReportView,
    listing2: ReportView,
    default2: ReportView,
)
    requires
        listing1 == listing2,
        default1 == default2,
    ensures
        detect_spec(listing1, default1) == detect_spec(listing2, default2),
{
}

/// Round trip: configuring a detected device by its name sets the default
/// sink to exactly that name, and the session succeeds if and only if the
/// configuration read afterwards reports that name.
pub proof fn lemma_configure_by_name_round_trip(
    s: SessionView,
    ds: Seq<DeviceView>,
    i: int,
    report: ReportView,
    c: ConfigView,
)
    requires
        s.phase == ConfigurePhase::Resolve,
        0 <= i < ds.len(),
        s.identifier == ds[i].name,
        report matches ReportView::Exited { success: true, .. },
    ensures
        ({
            let (s1, a1) = step_spec(s, EventView::Devices(Ok(ds)));
            let (s2, a2) = step_spec(s1, EventView::SetDefaultDone(report));
            let (s3, a3) = step_spec(s2, EventView::Current(Ok(c)));
            &&& a1 == ActionView::SetDefault(ds[i].name)
            &&& s1.phase == ConfigurePhase::Apply
            &&& a2 == ActionView::ReadCurrent
            &&& s2.phase == ConfigurePhase::Verify
            &&& (a3 == ActionView::Finish(Ok(())) <==> c.device_id == ds[i].name)
        }),
{
    lemma_name_index_reaches(ds, 0, i, ds[i].name);
}

/// Reversibility: configuring `A`, then `B`, then `A` again (each a device
/// name of the detection at hand) sets the default sink to `A`, `B`, `A`;
/// the last session succeeds if and only if the final read reports `A`.
pub proof fn lemma_configure_reversible(
    sa: SessionView,
    sb: SessionView,
    sa2: SessionView,
    ds: Seq<DeviceView>,
    a: int,
    b: int,
    report: ReportView,
    c: ConfigView,
)
    requires
        sa.phase == ConfigurePhase::Resolve,
        sb.phase == ConfigurePhase::Resolve,
        sa2.phase == ConfigurePhase::Resolve,
        0 <= a < ds.len(),
        0 <= b < ds.len(),
        sa.identifier == ds[a].name,
        sb.identifier == ds[b].name,
        sa2.identifier == ds[a].name,
        report matches ReportView::Exited { success: true, .. },
    ensures
        step_spec(sa, EventView::Devices(Ok(ds))).1 == ActionView::SetDefault(ds[a].name),
        step_spec(sb, EventView::Devices(Ok(ds))).1 == ActionView::SetDefault(ds[b].name),
        ({
            let (s1, _) = step_spec(sa2, EventView::Devices(Ok(ds)));
            let (s2, _) = step_spec(s1, EventView::SetDefaultDone(report));
            step_spec(s2, EventView::Current(Ok(c))).1 == ActionView::Finish(Ok(()))
                <==> c.device_id == ds[a].name
        }),
{
    lemma_configure_by_name_round_trip(sa, ds, a, report, c);
    lemma_configure_by_name_round_trip(sb, ds, b, report, c);
    lemma_configure_by_name_round_trip(sa2, ds, a, report, c);
}

/// All-or-nothing: once the set command has been issued, a session never
/// ends in failure without setting the previous default sink again.
pub proof fn lemma_failure_after_set_rolls_back(s: SessionView, e: EventView)
    requires
        s.phase == ConfigurePhase::Apply || s.phase == ConfigurePhase::Verify,
        expects(s.phase, e),
    ensures
        !(step_spec(s, e).1 is Finish) || step_spec(s, e).1 == ActionView::Finish(Ok(())),
        step_spec(s, e).1 matches ActionView::RollbackAndFail(n, _) ==> n == s.previous,
{
}

/// A session run against a model of an audio subsystem that honours every
/// command: a read reports `default` as the current sink, a detection
/// gives `ds`, and every set command (rollback included) makes its
/// argument the default. Gives the session's outcome and the default
/// sink afterwards; `fuel` bounds the number of steps.
pub open spec fn honest_run(
    s: SessionView,
    a: ActionView,
    default: Seq<char>,
    ds: Seq<DeviceView>,
    fuel: nat,
) -> (Result<(), ErrorView>, Seq<char>)
    decreases fuel,
{
    if fuel == 0 {
        (Err(ErrorView::InvalidState("session did not finish"@)), default)
    } else {
        match a {
            ActionView::Finish(r) => (r, default),
            ActionView::RollbackAndFail(n, e) => (Err(e), n),
            ActionView::ReadCurrent => {
                let read = ConfigView { device_id: default, volume: 100, muted: false };
                let (s2, a2) = step_spec(s, EventView::Current(Ok(read)));
                honest_run(s2, a2, default, ds, (fuel - 1) as nat)
            },
            ActionView::DetectDevices => {
                let (s2, a2) = step_spec(s, EventView::Devices(Ok(ds)));
                honest_run(s2, a2, default, ds, (fuel - 1) as nat)
            },
            ActionView::SetDefault(n) => {
                let done = ReportView::Exited { success: true, stdout: seq![], stderr: seq![] };
                let (s2, a2) = step_spec(s, EventView::SetDefaultDone(done));
                honest_run(s2, a2, n, ds, (fuel - 1) as nat)
            },
        }
    }
}

/// `configure(id)` against the honouring subsystem of `honest_run`, whose
/// default sink is `default` before the call.
pub open spec fn configure_honestly(id: Seq<char>, default: Seq<char>, ds: Seq<DeviceView>) -> (
    Result<(), ErrorView>,
    Seq<char>,
) {
    let (s, a) = start_spec(id);
    honest_run(s, a, default, ds, 5)
}

/// Round trip, end to end: against a subsystem that honours its commands,
/// configuring a detected device by its name succeeds, and the default
/// sink that a read reports afterwards is that name. Names that the
/// identifier policy refuses (empty, or holding a null character or `..`)
/// are left out: configuring them fails before any command runs.
pub proof fn lemma_round_trip_on_honest_subsystem(ds: Seq<DeviceView>, i: int, default: Seq<char>)
    requires
        0 <= i < ds.len(),
        id_allowed(ds[i].name, false),
    ensures
        configure_honestly(ds[i].name, default, ds) == (Ok::<(), ErrorView>(()), ds[i].name),
{
    reveal_with_fuel(honest_run, 6);
    lemma_name_index_reaches(ds, 0, i, ds[i].name);
}

/// Reversibility, end to end: against a subsystem that honours its
/// commands, configuring `A`, then `B`, then `A` (names of detected
/// devices that the identifier policy accepts) succeeds each time and
/// leaves `A` as the default sink.
pub proof fn lemma_reversible_on_honest_subsystem(
    ds: Seq<DeviceView>,
    a: int,
    b: int,
    default: Seq<char>,
)
    requires
        0 <= a < ds.len(),
        0 <= b < ds.len(),
        id_allowed(ds[a].name, false),
        id_allowed(ds[b].name, false),
    ensures
        ({
            let (r1, d1) = configure_honestly(ds[a].name, default, ds);
            let (r2, d2) = configure_honestly(ds[b].name, d1, ds);
            let (r3, d3) = configure_honestly(ds[a].name, d2, ds);
            r1 is Ok && r2 is Ok && r3 is Ok && d3 == ds[a].name
        }),
{
    lemma_round_trip_on_honest_subsystem(ds, a, default);
    lemma_round_trip_on_honest_subsystem(ds, b, ds[a].name);
    lemma_round_trip_on_honest_subsystem(ds, a, ds[b].name);
}

/// Graceful failure, malformed identifiers: an identifier that is empty,
/// holds a null character or holds `..` ends the session with
/// `InvalidState` before any command runs.
pub proof fn lemma_malformed_identifier_rejected(id: Seq<char>)
    requires
        !id_allowed(id, false),
    ensures
        start_spec(id).0.phase == ConfigurePhase::Done,
        start_spec(id).1 matches ActionView::Finish(Err(ErrorView::InvalidState(_))),
{
}

/// Graceful failure, unknown identifiers: when no detected device has the
/// identifier as its name or id, the session ends with `DeviceNotFound`
/// before the default sink is touched.
pub proof fn lemma_unknown_identifier_rejected(s: SessionView, ds: Seq<DeviceView>)
    requires
        s.phase == ConfigurePhase::Resolve,
        forall|i: int| 0 <= i < ds.len() ==> (#[trigger] ds[i]).name != s.identifier && ds[i].id
            != s.identifier,
    ensures
        step_spec(s, EventView::Devices(Ok(ds))).0.phase == ConfigurePhase::Done,
        step_spec(s, EventView::Devices(Ok(ds))).1 == ActionView::Finish(
            Err(ErrorView::DeviceNotFound(s.identifier)),
        ),
{
    lemma_name_index_absent(ds, 0, s.identifier);
    lemma_id_index_absent(ds, 0, s.identifier);
}

} // verus!
