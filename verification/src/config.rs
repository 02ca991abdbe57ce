//! The configuration of a run, and the validation of what the user asked for.

use crate::decimal::{parse_unsigned, parsed_unsigned};
use crate::outcome::texts;
use vstd::prelude::*;
use vstd::string::StringExecFns;

verus! {

/// How a successful upload is shown.
#[derive(Debug, Clone, Copy, PartialEq, Eq, Structural)]
pub enum OutputMode {
    /// The reply of the server as it came.
    Json,
    /// The path of the file, a colon and the URL.
    NameAndUrl,
    /// The URL alone.
    UrlOnly,
}

/// Why a run cannot be configured as asked.
#[derive(Debug, Clone, Copy, PartialEq, Eq, Structural)]
pub enum ConfigError {
    /// The number of concurrent uploads was given as zero.
    ZeroConcurrency,
    /// The number of concurrent uploads is no number that a `usize` holds.
    InvalidConcurrency,
    /// Both the raw reply and the bare URL were asked for.
    ConflictingOutputModes,
}

impl ConfigError {
    /// The text that describes the error to the user.
    pub open spec fn message_text(self) -> Seq<char> {
        match self {
            ConfigError::ZeroConcurrency => "CONCURRENT UPLOADS cannot be zero"@,
            ConfigError::InvalidConcurrency => "CONCURRENT UPLOADS must be a positive integer"@,
            ConfigError::ConflictingOutputModes => "--json and --url cannot be used together"@,
        }
    }

    /// Describes the error to the user.
    pub fn message(&self) -> (text: String)
        ensures
            text@ == self.message_text(),
    {
        match self {
            ConfigError::ZeroConcurrency => String::from_str("CONCURRENT UPLOADS cannot be zero"),
            ConfigError::InvalidConcurrency => String::from_str(
                "CONCURRENT UPLOADS must be a positive integer",
            ),
            ConfigError::ConflictingOutputModes => String::from_str(
                "--json and --url cannot be used together",
            ),
        }
    }
}

/// The number of concurrent uploads that `text` asks for: the positive
/// number it denotes, or the reason why it is refused.
pub open spec fn requested_concurrency(text: Seq<char>) -> Result<nat, ConfigError> {
    match parsed_unsigned(text) {
        Some(n) => if n == 0 {
            Err(ConfigError::ZeroConcurrency)
        } else {
            Ok(n)
        },
        None => Err(ConfigError::InvalidConcurrency),
    }
}

/// Reads a number of concurrent uploads: a positive integer in decimal
/// notation. Zero and anything that is no number are refused.
pub fn parse_concurrency(text: &str) -> (parsed: Result<usize, ConfigError>)
    ensures
        match parsed {
            Ok(n) => requested_concurrency(text@) == Ok::<nat, ConfigError>(n as nat),
            Err(error) => requested_concurrency(text@) == Err::<nat, ConfigError>(error),
        },
{
    match parse_unsigned(text) {
        Some(n) => if n == 0 {
            Err(ConfigError::ZeroConcurrency)
        } else {
            Ok(n)
        },
        None => Err(ConfigError::InvalidConcurrency),
    }
}

/// Accepts `n` where it is a positive integer, and says what is wrong
/// with it where it is not.
pub fn is_positive_int(n: String) -> (verdict: Result<(), String>)
    ensures
        match verdict {
            Ok(_) => requested_concurrency(n@) is Ok,
            Err(message) => requested_concurrency(n@) matches Err(error) && message@
                == error.message_text(),
        },
{
    match parse_concurrency(n.as_str()) {
        Ok(_) => Ok(()),
        Err(error) => Err(error.message()),
    }
}

/// The output mode that the two flags of the command line select: the raw
/// reply for `json`, the bare URL for `url`, path and URL for neither. The
/// two flags exclude each other.
pub open spec fn selected_mode(json: bool, url: bool) -> Result<OutputMode, ConfigError> {
    if json && url {
        Err(ConfigError::ConflictingOutputModes)
    } else if url {
        Ok(OutputMode::UrlOnly)
    } else if json {
        Ok(OutputMode::Json)
    } else {
        Ok(OutputMode::NameAndUrl)
    }
}

/// Selects the output mode from the two flags of the command line.
pub fn output_mode_from_flags(json: bool, url: bool) -> (mode: Result<OutputMode, ConfigError>)
    ensures
        mode == selected_mode(json, url),
{
    if json && url {
        Err(ConfigError::ConflictingOutputModes)
    } else if url {
        Ok(OutputMode::UrlOnly)
    } else if json {
        Ok(OutputMode::Json)
    } else {
        Ok(OutputMode::NameAndUrl)
    }
}

/// `num_cpus::get` counts the processors that this process may use. Its
/// documentation promises that the count is at least one; which count it
/// is depends on the machine, and nothing is claimed of that.
pub assume_specification[ num_cpus::get ]() -> (count: usize)
    ensures
        count >= 1,
;

/// What a run is configured with. Built once, read-only afterwards. The
/// number of concurrent uploads of a configuration is never zero.
#[derive(Debug)]
pub struct Configuration {
    files: Vec<String>,
    concurrency: usize,
    verbose: bool,
    output_mode: OutputMode,
}

/// Model of a [`Configuration`].
pub struct ConfigurationModel {
    /// The files to upload, in the order given.
    pub files: Seq<Seq<char>>,
    /// How many uploads may run at once.
    pub concurrency: nat,
    /// Whether progress is reported.
    pub verbose: bool,
    /// How successes are shown.
    pub output_mode: OutputMode,
}

impl View for Configuration {
    type V = ConfigurationModel;

    closed spec fn view(&self) -> ConfigurationModel {
        ConfigurationModel {
            files: texts(self.files@),
            concurrency: self.concurrency as nat,
            verbose: self.verbose,
            output_mode: self.output_mode,
        }
    }
}

/// The configuration that the arguments of a command line describe, on a
/// machine with `processors` processors: `concurrent` where it is given
/// and valid, else the number of processors; the mode that the flags
/// select. A wrong number is reported before a conflict of the flags.
pub open spec fn resolved(
    files: Seq<Seq<char>>,
    concurrent: Option<Seq<char>>,
    processors: nat,
    verbose: bool,
    json: bool,
    url: bool,
) -> Result<ConfigurationModel, ConfigError> {
    let concurrency = match concurrent {
        Some(text) => requested_concurrency(text),
        None => if processors == 0 {
            Err(ConfigError::ZeroConcurrency)
        } else {
            Ok(processors)
        },
    };
    match concurrency {
        Err(error) => Err(error),
        Ok(concurrency) => match selected_mode(json, url) {
            Err(error) => Err(error),
            Ok(output_mode) => Ok(ConfigurationModel { files, concurrency, verbose, output_mode }),
        },
    }
}

impl Configuration {
    /// The invariant of every configuration: its limit is at least one.
    #[verifier::type_invariant]
    pub open spec fn has_positive_limit(self) -> bool {
        self@.concurrency >= 1
    }

    /// A configuration of these values. A limit of zero is refused.
    pub fn new(
        files: Vec<String>,
        concurrency: usize,
        verbose: bool,
        output_mode: OutputMode,
    ) -> (built: Result<Configuration, ConfigError>)
        ensures
            match built {
                Ok(configuration) => concurrency >= 1 && configuration@ == (ConfigurationModel {
                    files: texts(files@),
                    concurrency: concurrency as nat,
                    verbose,
                    output_mode,
                }),
                Err(error) => concurrency == 0 && error == ConfigError::ZeroConcurrency,
            },
    {
        if concurrency == 0 {
            Err(ConfigError::ZeroConcurrency)
        } else {
            Ok(Configuration { files, concurrency, verbose, output_mode })
        }
    }

    /// The configuration that the arguments of a command line describe, on
    /// a machine with `processors` processors.
    pub fn resolve(
        files: Vec<String>,
        concurrent: Option<String>,
        processors: usize,
        verbose: bool,
        json: bool,
        url: bool,
    ) -> (built: Result<Configuration, ConfigError>)
        ensures
            built_model(built) == resolved(
                texts(files@),
                option_text(concurrent),
                processors as nat,
                verbose,
                json,
                url,
            ),
    {
        let concurrency: usize = match &concurrent {
            Some(text) => match parse_concurrency(text.as_str()) {
                Ok(n) => n,
                Err(error) => {
                    return Err(error);
                },
            },
            None => if processors == 0 {
                return Err(ConfigError::ZeroConcurrency);
            } else {
                processors
            },
        };
        let output_mode: OutputMode = match output_mode_from_flags(json, url) {
            Ok(mode) => mode,
            Err(error) => {
                return Err(error);
            },
        };
        Configuration::new(files, concurrency, verbose, output_mode)
    }

    /// The configuration that the arguments of a command line describe on
    /// this machine. Where `concurrent` is given, the result is that of
    /// [`Configuration::resolve`] whatever the machine; where it is not,
    /// the limit is the number of processors that the machine reports.
    pub fn from_arguments(
        files: Vec<String>,
        concurrent: Option<String>,
        verbose: bool,
        json: bool,
        url: bool,
    ) -> (built: Result<Configuration, ConfigError>)
        ensures
            exists|processors: nat|
                processors >= 1 && built_model(built) == #[trigger] resolved(
                    texts(files@),
                    option_text(concurrent),
                    processors,
                    verbose,
                    json,
                    url,
                ),
    {
        let processors: usize = num_cpus::get();
        let built = Configuration::resolve(files, concurrent, processors, verbose, json, url);
        assert(built_model(built) == resolved(
            texts(files@),
            option_text(concurrent),
            processors as nat,
            verbose,
            json,
            url,
        ));
        built
    }

    /// The files to upload, in the order given.
    pub fn files(&self) -> (files: &Vec<String>)
        ensures
            texts(files@) == self@.files,
    {
        &self.files
    }

    /// How many uploads may run at once: at least one.
    pub fn concurrency(&self) -> (limit: usize)
        ensures
            limit == self@.concurrency,
            limit >= 1,
    {
        proof {
            use_type_invariant(self);
        }
        self.concurrency
    }

    /// Whether progress is reported.
    pub fn verbose(&self) -> (verbose: bool)
        ensures
            verbose == self@.verbose,
    {
        self.verbose
    }

    /// How successes are shown.
    pub fn output_mode(&self) -> (mode: OutputMode)
        ensures
            mode == self@.output_mode,
    {
        self.output_mode
    }
}

/// The model of a configuration or an error: the model of the
/// configuration, or the error as it is.
pub open spec fn built_model(built: Result<Configuration, ConfigError>) -> Result<
    ConfigurationModel,
    ConfigError,
> {
    match built {
        Ok(configuration) => Ok(configuration@),
        Err(error) => Err(error),
    }
}

/// The characters of an optional string.
pub open spec fn option_text(text: Option<String>) -> Option<Seq<char>> {
    match text {
        Some(string) => Some(string@),
        None => None,
    }
}

} // verus!
