//! Configuration records and validation helpers.
use vstd::prelude::*;
use std::collections::HashMap;
use crate::common::ArgMap;
use crate::text::{decimal, push_decimal, push_str};
use vstd::utf8::encode_utf8;

pub mod command;
pub mod json;
pub mod path;

verus! {

/// `anyhow::Error`, the error type of the configuration checks, carried
/// through unopened.
#[verifier::external_type_specification]
#[verifier::external_body]
pub struct ExAnyhowError(anyhow::Error);

/// `serde_json::Value`, carried through unopened.
#[verifier::external_type_specification]
#[verifier::external_body]
pub struct ExJsonValue(serde_json::Value);

/// `regex::Regex`, a compiled pattern, carried through unopened.
#[verifier::external_type_specification]
#[verifier::external_body]
pub struct ExRegex(regex::Regex);

/// Relies on `anyhow::Error::msg`: an error whose message is `text`.
#[verifier::external_body]
pub(crate) fn error_msg(text: String) -> (r: anyhow::Error) {
    anyhow::Error::msg(text)
}

/// Settings of the system scripts.
#[derive(Debug, Clone)]
pub struct SystemConfig {
    pub auto_update: bool,
    pub backup_enabled: bool,
    pub log_level: String,
    pub temp_dir: Option<String>,
}

impl Default for SystemConfig {
    fn default() -> (r: SystemConfig)
        ensures
            r.auto_update && r.backup_enabled,
            r.log_level@ == "info"@,
            r.temp_dir is None,
    {
        SystemConfig {
            auto_update: true,
            backup_enabled: true,
            log_level: String::from_str("info"),
            temp_dir: None,
        }
    }
}

/// Settings of the audio scripts.
#[derive(Debug, Clone)]
pub struct AudioConfig {
    pub default_sink: Option<String>,
    pub default_source: Option<String>,
    pub volume_level: Option<u8>,
    pub enable_echo_cancellation: bool,
}

impl Default for AudioConfig {
    fn default() -> (r: AudioConfig)
        ensures
            r.default_sink is None,
            r.default_source is None,
            r.volume_level == Some(70u8),
            r.enable_echo_cancellation,
    {
        AudioConfig {
            default_sink: None,
            default_source: None,
            volume_level: Some(70),
            enable_echo_cancellation: true,
        }
    }
}

/// Settings of the development scripts.
#[derive(Debug, Clone)]
pub struct DevConfig {
    pub build_mode: String,
    pub target_arch: Vec<String>,
    pub optimization_level: u8,
    pub include_debug_symbols: bool,
}

impl Default for DevConfig {
    fn default() -> (r: DevConfig)
        ensures
            r.build_mode@ == "release"@,
            r.target_arch@.len() == 1 && r.target_arch@[0]@ == "x86_64"@,
            r.optimization_level == 3,
            !r.include_debug_symbols,
    {
        DevConfig {
            build_mode: String::from_str("release"),
            target_arch: vec![String::from_str("x86_64")],
            optimization_level: 3,
            include_debug_symbols: false,
        }
    }
}

/// A type that can check its own values.
pub trait Validate {
    type Error;

    fn validate(&self) -> Result<(), Self::Error>;
}

/// The outcome of a validation: the accepted value, or why it was refused.
#[derive(Debug, Clone)]
pub enum ValidationResult<T> {
    Success(T),
    Failure(String),
}

impl<T> ValidationResult<T> {
    /// Whether the value was accepted.
    pub fn is_success(&self) -> (r: bool)
        ensures
            r == (self is Success),
    {
        match self {
            ValidationResult::Success(_) => true,
            ValidationResult::Failure(_) => false,
        }
    }

    /// The accepted value as `Ok`, or the reason as an error.
    pub fn to_result(self) -> (r: Result<T, anyhow::Error>)
        ensures
            self is Success <==> r is Ok,
            r matches Ok(v) ==> self == ValidationResult::<T>::Success(v),
    {
        match self {
            ValidationResult::Success(data) => Ok(data),
            ValidationResult::Failure(err) => Err(error_msg(err)),
        }
    }
}

/// The log level names that the scripts accept.
pub open spec fn known_log_level(s: Seq<char>) -> bool {
    s == "debug"@ || s == "info"@ || s == "warn"@ || s == "error"@
}

/// Whether `s` is one of `debug`, `info`, `warn`, `error`.
pub fn is_known_log_level(s: &String) -> (r: bool)
    ensures
        r == known_log_level(s@),
{
    *s == String::from_str("debug") || *s == String::from_str("info") || *s == String::from_str(
        "warn",
    ) || *s == String::from_str("error")
}

/// The message of a length bound that a value breaks.
pub open spec fn bound_message(what: Seq<char>, bound: nat, unit: Seq<char>) -> Seq<char> {
    what + decimal(bound) + unit
}

fn bound_text(what: &str, bound: usize, unit: &str) -> (r: String)
    ensures
        r@ == bound_message(what@, bound as nat, unit@),
{
    let mut text = String::from_str(what);
    push_decimal(&mut text, bound as u64);
    push_str(&mut text, unit);
    text
}

/// Checks arrays: bounds on their length, and a validator for each item.
pub struct ArrayValidator<F> {
    pub min_length: Option<usize>,
    pub max_length: Option<usize>,
    pub item_validator: F,
}

impl<F> ArrayValidator<F> {
    /// A validator with no length bounds.
    pub fn new(item_validator: F) -> (r: ArrayValidator<F>)
        ensures
            r.min_length is None,
            r.max_length is None,
            r.item_validator == item_validator,
    {
        ArrayValidator { min_length: None, max_length: None, item_validator }
    }

    /// The same validator, asking for at least `length` items.
    pub fn min(self, length: usize) -> (r: ArrayValidator<F>)
        ensures
            r.min_length == Some(length),
            r.max_length == self.max_length,
            r.item_validator == self.item_validator,
    {
        ArrayValidator { min_length: Some(length), ..self }
    }

    /// The same validator, allowing at most `length` items.
    pub fn max(self, length: usize) -> (r: ArrayValidator<F>)
        ensures
            r.max_length == Some(length),
            r.min_length == self.min_length,
            r.item_validator == self.item_validator,
    {
        ArrayValidator { max_length: Some(length), ..self }
    }

    /// Checks `values`: first the length bounds (the item validator is not
    /// called when one fails), then each item in order. The first item that
    /// its validator refuses gives `Invalid item at index <i>: <reason>`:
    /// every item before it passed. When all pass, the result holds what the
    /// validator gave for each item, in order.
    pub fn validate<T: Clone>(&self, values: &[T]) -> (r: ValidationResult<Vec<T>>)
        where
            F: Fn(&T) -> ValidationResult<T>,
        requires
            forall|i: int| 0 <= i < values@.len() ==> self.item_validator.requires((&values@[i],)),
        ensures
            too_short(self.min_length, values@.len()) ==> r is Failure && r->Failure_0@
                == bound_message("Array must have at least "@, self.min_length->Some_0 as nat, " items"@),
            !too_short(self.min_length, values@.len()) && too_long(self.max_length, values@.len())
                ==> r is Failure && r->Failure_0@ == bound_message(
                "Array must have at most "@,
                self.max_length->Some_0 as nat,
                " items"@,
            ),
            r is Success ==> !too_short(self.min_length, values@.len()) && !too_long(
                self.max_length,
                values@.len(),
            ) && r->Success_0@.len() == values@.len() && forall|i: int|
                0 <= i < values@.len() ==> self.item_validator.ensures(
                    (&values@[i],),
                    ValidationResult::<T>::Success(#[trigger] r->Success_0@[i]),
                ),
            !too_short(self.min_length, values@.len()) && !too_long(self.max_length, values@.len())
                && r is Failure ==> exists|i: int, why: String|
                0 <= i < values@.len() && self.item_validator.ensures(
                    (&values@[i],),
                    ValidationResult::<T>::Failure(why),
                ) && r->Failure_0@ == #[trigger] item_message(i as nat, why@) && forall|j: int|
                    0 <= j < i ==> #[trigger] item_passes(self.item_validator, &values@[j]),
            !too_short(self.min_length, values@.len()) && !too_long(self.max_length, values@.len())
                && (forall|i: int, o: ValidationResult<T>|
                0 <= i < values@.len() && #[trigger] self.item_validator.ensures((&values@[i],), o)
                    ==> o is Success) ==> r is Success,
    {
        if let Some(min) = self.min_length {
            if values.len() < min {
                return ValidationResult::Failure(
                    bound_text("Array must have at least ", min, " items"),
                );
            }
        }
        if let Some(max) = self.max_length {
            if values.len() > max {
                return ValidationResult::Failure(
                    bound_text("Array must have at most ", max, " items"),
                );
            }
        }
        let mut results: Vec<T> = Vec::new();
        let n = values.len();
        for i in 0..n
            invariant
                n == values@.len(),
                !too_short(self.min_length, values@.len()),
                !too_long(self.max_length, values@.len()),
                forall|k: int| 0 <= k < n ==> self.item_validator.requires((&values@[k],)),
                results@.len() == i,
                forall|k: int|
                    0 <= k < i ==> self.item_validator.ensures(
                        (&values@[k],),
                        ValidationResult::<T>::Success(#[trigger] results@[k]),
                    ),
        {
            let outcome = (self.item_validator)(&values[i]);
            let ghost seen = outcome;
            assert(self.item_validator.ensures((&values@[i as int],), seen));
            match outcome {
                ValidationResult::Success(data) => results.push(data),
                ValidationResult::Failure(err) => {
                    assert(seen == ValidationResult::<T>::Failure(err));
                    let mut text = String::from_str("Invalid item at index ");
                    push_decimal(&mut text, i as u64);
                    push_str(&mut text, ": ");
                    push_str(&mut text, err.as_str());
                    let ghost j: int = i as int;
                    assert(text@ == item_message(j as nat, err@));
                    assert forall|k: int| 0 <= k < j implies #[trigger] item_passes(
                        self.item_validator,
                        &values@[k],
                    ) by {
                        assert(self.item_validator.ensures(
                            (&values@[k],),
                            ValidationResult::<T>::Success(results@[k]),
                        ));
                    }
                    assert(self.item_validator.ensures(
                        (&values@[j],),
                        ValidationResult::<T>::Failure(err),
                    ));
                    return ValidationResult::Failure(text);
                },
            }
        }
        ValidationResult::Success(results)
    }
}

/// `f` can accept `v`: some run of it on `v` gives `Success`.
pub open spec fn item_passes<T, F: Fn(&T) -> ValidationResult<T>>(f: F, v: &T) -> bool {
    exists|x: T| #[trigger] f.ensures((v,), ValidationResult::<T>::Success(x))
}

/// A length under the lower bound, if any.
pub open spec fn too_short(min: Option<usize>, len: nat) -> bool {
    min matches Some(m) && len < m
}

/// A length over the upper bound, if any.
pub open spec fn too_long(max: Option<usize>, len: nat) -> bool {
    max matches Some(m) && len > m
}

/// The message for an item that its validator refused.
pub open spec fn item_message(i: nat, why: Seq<char>) -> Seq<char> {
    "Invalid item at index "@ + decimal(i) + ": "@ + why
}

/// The whole configuration: the three sections, and any other top-level
/// entries kept as they were read.
#[derive(Debug, Clone)]
pub struct Config {
    pub system: SystemConfig,
    pub audio: AudioConfig,
    pub dev: DevConfig,
    pub extra: HashMap<String, serde_json::Value>,
}

impl Default for Config {
    fn default() -> (r: Config)
        ensures
            r.system.log_level@ == "info"@,
            r.audio.volume_level == Some(70u8),
            r.dev.build_mode@ == "release"@,
            r.dev.optimization_level == 3,
    {
        Config {
            system: SystemConfig::default(),
            audio: AudioConfig::default(),
            dev: DevConfig::default(),
            extra: HashMap::new(),
        }
    }
}

/// The build modes that the development scripts accept.
pub open spec fn known_build_mode(s: Seq<char>) -> bool {
    s == "debug"@ || s == "release"@
}

/// The first problem of a configuration, if any, in the order the checks
/// run: the log level, the volume, the build mode, the optimization level.
pub open spec fn config_problem(c: Config) -> Option<Seq<char>> {
    if !known_log_level(c.system.log_level@) {
        Some("Invalid log level: "@ + c.system.log_level@)
    } else if c.audio.volume_level matches Some(v) && v > 100 {
        Some("Volume level cannot exceed 100: "@ + decimal(c.audio.volume_level->Some_0 as nat))
    } else if !known_build_mode(c.dev.build_mode@) {
        Some("Invalid build mode: "@ + c.dev.build_mode@)
    } else if c.dev.optimization_level > 3 {
        Some("Optimization level cannot exceed 3: "@ + decimal(c.dev.optimization_level as nat))
    } else {
        None
    }
}

fn message_with(prefix: &str, subject: &str) -> (r: String)
    ensures
        r@ == prefix@ + subject@,
{
    let mut text = String::from_str(prefix);
    push_str(&mut text, subject);
    text
}

fn message_with_number(prefix: &str, n: u8) -> (r: String)
    ensures
        r@ == prefix@ + decimal(n as nat),
{
    let mut text = String::from_str(prefix);
    push_decimal(&mut text, n as u64);
    text
}

impl Config {
    /// Checks the values: a known log level, a volume of at most 100, a
    /// known build mode and an optimization level of at most 3. The first
    /// check that fails gives the error (see `config_problem`).
    pub fn validate(&self) -> (r: Result<(), anyhow::Error>)
        ensures
            r is Ok <==> config_problem(*self) is None,
    {
        match self.problem() {
            None => Ok(()),
            Some(text) => Err(error_msg(text)),
        }
    }

    /// The text of the first problem of the configuration, if any.
    pub fn problem(&self) -> (r: Option<String>)
        ensures
            match r {
                Some(m) => config_problem(*self) == Some(m@),
                None => config_problem(*self) is None,
            },
    {
        if !is_known_log_level(&self.system.log_level) {
            return Some(message_with("Invalid log level: ", self.system.log_level.as_str()));
        }
        if let Some(volume) = self.audio.volume_level {
            if volume > 100 {
                return Some(message_with_number("Volume level cannot exceed 100: ", volume));
            }
        }
        if !(self.dev.build_mode == String::from_str("debug") || self.dev.build_mode
            == String::from_str("release")) {
            return Some(message_with("Invalid build mode: ", self.dev.build_mode.as_str()));
        }
        if self.dev.optimization_level > 3 {
            return Some(
                message_with_number(
                    "Optimization level cannot exceed 3: ",
                    self.dev.optimization_level,
                ),
            );
        }
        None
    }
}

/// Command-line options of the scripts.
#[derive(Debug, Clone)]
pub struct Args {
    pub verbose: bool,
    pub dry_run: bool,
    pub config_file: Option<String>,
    pub log_level: Option<String>,
    pub extra: ArgMap,
}

/// Option `name` is set to `true`.
pub open spec fn flag_set(m: Map<Seq<char>, Seq<char>>, name: Seq<char>) -> bool {
    m.contains_key(name) && m[name] == "true"@
}

/// The value of option `name`, if set.
pub open spec fn option_value(m: Map<Seq<char>, Seq<char>>, name: Seq<char>) -> Option<Seq<char>> {
    if m.contains_key(name) {
        Some(m[name])
    } else {
        None
    }
}

/// The view of an optional string.
pub open spec fn opt_string_view(o: Option<String>) -> Option<Seq<char>> {
    match o {
        Some(s) => Some(s@),
        None => None,
    }
}

fn is_true(v: Option<&String>) -> (r: bool)
    ensures
        r == (v matches Some(s) && s@ == "true"@),
{
    match v {
        Some(s) => *s == String::from_str("true"),
        None => false,
    }
}

fn cloned(v: Option<&String>) -> (r: Option<String>)
    ensures
        opt_string_view(r) == match v {
            Some(s) => Some(s@),
            None => None::<Seq<char>>,
        },
{
    match v {
        Some(s) => Some(s.clone()),
        None => None,
    }
}

impl Args {
    /// The options of a parsed command line: `verbose` and `dry-run` are on
    /// when set to `true`; `config` and `log-level` are taken as given;
    /// every option is kept in `extra`.
    pub fn from_hashmap(args: ArgMap) -> (r: Args)
        requires
            args.wf(),
        ensures
            r.verbose == flag_set(args@, "verbose"@),
            r.dry_run == flag_set(args@, "dry-run"@),
            opt_string_view(r.config_file) == option_value(args@, "config"@),
            opt_string_view(r.log_level) == option_value(args@, "log-level"@),
            r.extra == args,
    {
        let verbose = is_true(args.get("verbose"));
        let dry_run = is_true(args.get("dry-run"));
        let config_file = cloned(args.get("config"));
        let log_level = cloned(args.get("log-level"));
        Args { verbose, dry_run, config_file, log_level, extra: args }
    }

    /// Checks that the log level, when given, is `debug`, `info`, `warn`
    /// or `error`; else `Invalid log level: <level>`.
    pub fn validate(&self) -> (r: Result<(), anyhow::Error>)
        ensures
            r is Ok <==> (self.log_level matches Some(l) ==> known_log_level(l@)),
    {
        if let Some(level) = &self.log_level {
            if !is_known_log_level(level) {
                return Err(error_msg(message_with("Invalid log level: ", level.as_str())));
            }
        }
        Ok(())
    }
}

/// Relies on `regex::Regex::new`, its error turned into an `anyhow::Error`
/// by `From`: compiles `pattern`.
#[verifier::external_body]
fn compile_pattern(pattern: &str) -> (r: Result<regex::Regex, anyhow::Error>) {
    regex::Regex::new(pattern).map_err(anyhow::Error::from)
}

/// Relies on `regex::Regex::is_match`: whether `value` holds a match of `re`.
#[verifier::external_body]
fn pattern_matches(re: &regex::Regex, value: &str) -> (r: bool) {
    re.is_match(value)
}

/// Checks strings: bounds on their length in bytes, and a pattern.
pub struct StringValidator {
    min_length: Option<usize>,
    max_length: Option<usize>,
    pattern: Option<regex::Regex>,
}

/// The length of `s` in bytes, as `str::len` gives it.
pub open spec fn bytes_of(s: Seq<char>) -> nat {
    encode_utf8(s).len()
}

impl StringValidator {
    /// The lower bound on the length, if any.
    pub closed spec fn min_view(&self) -> Option<usize> {
        self.min_length
    }

    /// The upper bound on the length, if any.
    pub closed spec fn max_view(&self) -> Option<usize> {
        self.max_length
    }

    /// Whether a pattern is set.
    pub closed spec fn has_pattern(&self) -> bool {
        self.pattern is Some
    }

    /// A validator that accepts every string.
    pub fn new() -> (r: StringValidator)
        ensures
            r.min_view() is None && r.max_view() is None && !r.has_pattern(),
    {
        StringValidator { min_length: None, max_length: None, pattern: None }
    }

    /// The same validator, asking for at least `length` bytes.
    pub fn min(self, length: usize) -> (r: StringValidator)
        ensures
            r.min_view() == Some(length),
            r.max_view() == self.max_view(),
            r.has_pattern() == self.has_pattern(),
    {
        StringValidator { min_length: Some(length), ..self }
    }

    /// The same validator, allowing at most `length` bytes.
    pub fn max(self, length: usize) -> (r: StringValidator)
        ensures
            r.max_view() == Some(length),
            r.min_view() == self.min_view(),
            r.has_pattern() == self.has_pattern(),
    {
        StringValidator { max_length: Some(length), ..self }
    }

    /// The same validator, also asking for a match of `pattern`; an error
    /// when the pattern does not compile.
    pub fn pattern(self, pattern: &str) -> (r: Result<StringValidator, anyhow::Error>)
        ensures
            r matches Ok(v) ==> v.has_pattern() && v.min_view() == self.min_view() && v.max_view()
                == self.max_view(),
    {
        match compile_pattern(pattern) {
            Ok(re) => Ok(StringValidator { pattern: Some(re), ..self }),
            Err(e) => Err(e),
        }
    }

    /// Checks `value`: the lower bound, then the upper bound, then the
    /// pattern; the first that fails gives the reason.
    pub fn validate(&self, value: &str) -> (r: ValidationResult<String>)
        requires
            bytes_of(value@) <= usize::MAX,
        ensures
            too_short(self.min_view(), bytes_of(value@)) ==> r is Failure && r->Failure_0@
                == bound_message(
                "String must be at least "@,
                self.min_view()->Some_0 as nat,
                " characters"@,
            ),
            !too_short(self.min_view(), bytes_of(value@)) && too_long(
                self.max_view(),
                bytes_of(value@),
            ) ==> r is Failure && r->Failure_0@ == bound_message(
                "String must be at most "@,
                self.max_view()->Some_0 as nat,
                " characters"@,
            ),
            !too_short(self.min_view(), bytes_of(value@)) && !too_long(
                self.max_view(),
                bytes_of(value@),
            ) ==> match r {
                ValidationResult::Success(s) => s@ == value@,
                ValidationResult::Failure(m) => self.has_pattern() && m@
                    == "String does not match required pattern"@,
            },
    {
        let len = value.len();
        if let Some(min) = self.min_length {
            if len < min {
                return ValidationResult::Failure(
                    bound_text("String must be at least ", min, " characters"),
                );
            }
        }
        if let Some(max) = self.max_length {
            if len > max {
                return ValidationResult::Failure(
                    bound_text("String must be at most ", max, " characters"),
                );
            }
        }
        if let Some(re) = &self.pattern {
            if !pattern_matches(re, value) {
                return ValidationResult::Failure(
                    String::from_str("String does not match required pattern"),
                );
            }
        }
        ValidationResult::Success(String::from_str(value))
    }
}

} // verus!
