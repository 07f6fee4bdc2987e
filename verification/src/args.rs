//! What the node is started with.
use crate::config;
use crate::config::{ConfigError, NodeConfig};
use crate::logging;
use crate::logging::{print_line, Message, MessageView};
use crate::runtime_config::LdkUserInfo;
use vstd::prelude::*;

verus! {

/// Why the node was not started.
pub enum StartupArgsError {
    /// No directory was given.
    MissingStorageDirectory,
    /// The data directory could not be created.
    CreateDataDir {
        /// The data directory.
        path: String,
        /// What went wrong.
        source: String,
    },
    /// The configuration cannot be used.
    Config(ConfigError),
}

/// The data directory that belongs to a storage directory.
pub fn ldk_data_dir(storage_dir: &str) -> (r: String)
    ensures
        r@ == storage_dir@ + "/.ldk"@,
{
    let mut t = storage_dir.to_owned();
    t.append("/.ldk");
    t
}

/// The storage directory: the first argument after the name of the program.
pub fn parse_startup_args(args: &Vec<String>) -> (r: Result<String, StartupArgsError>)
    ensures
        match r {
            Ok(dir) => args@.len() >= 2 && dir@ == args@[1]@,
            Err(e) => args@.len() < 2 && e is MissingStorageDirectory,
        },
{
    if args.len() < 2 {
        Err(StartupArgsError::MissingStorageDirectory)
    } else {
        Ok(args[1].clone())
    }
}

/// The settings that the node is started with: those of the configuration in the data directory,
/// with the storage directory `dir`. `created` says whether the data directory is there; without it
/// there is no configuration.
pub fn startup_settings(
    dir: String,
    created: Result<(), String>,
    config: Result<NodeConfig, ConfigError>,
) -> (r: Result<LdkUserInfo, StartupArgsError>)
    ensures
        match (created, config) {
            (Err(e), _) => r matches Err(StartupArgsError::CreateDataDir { path, source }) && path@
                == dir@ + "/.ldk"@ && source == e,
            (Ok(()), Err(e)) => r == Err::<LdkUserInfo, StartupArgsError>(
                StartupArgsError::Config(e),
            ),
            (Ok(()), Ok(c)) => r matches Ok(u) && config::settles(c, dir, u),
        },
{
    match created {
        Err(source) => Err(
            StartupArgsError::CreateDataDir { path: ldk_data_dir(dir.as_str()), source },
        ),
        Ok(()) => match config {
            Err(e) => Err(StartupArgsError::Config(e)),
            Ok(c) => Ok(c.into_ldk_user_info(dir)),
        },
    }
}

/// What is said of how the program is called.
pub open spec fn usage_of(args: Seq<String>) -> Seq<MessageView> {
    seq![
        logging::print(
            "Usage: "@ + (if args.len() > 0 {
                args[0]@
            } else {
                "ldk-sample"@
            }) + " <ldk_storage_directory_path>"@,
        ),
        logging::print(""@),
        logging::print(
            "The config.toml file should be located at <ldk_storage_directory_path>/.ldk/config.toml"@,
        ),
    ]
}

/// Says how the program is called.
pub fn usage(args: &Vec<String>) -> (r: Vec<Message>)
    ensures
        logging::message_views(r@) == usage_of(args@),
{
    let mut t = "Usage: ".to_owned();
    if args.len() > 0 {
        t.append(args[0].as_str());
    } else {
        t.append("ldk-sample");
    }
    t.append(" <ldk_storage_directory_path>");
    let mut r: Vec<Message> = Vec::new();
    r.push(print_line(t));
    r.push(print_line("".to_owned()));
    r.push(
        print_line(
            "The config.toml file should be located at <ldk_storage_directory_path>/.ldk/config.toml".to_owned(),
        ),
    );
    assert(logging::message_views(r@) =~= usage_of(args@));
    r
}

/// Whether the help on the configuration is shown with an error.
pub open spec fn help_follows(e: StartupArgsError) -> bool {
    match e {
        StartupArgsError::MissingStorageDirectory => true,
        StartupArgsError::CreateDataDir { .. } => false,
        StartupArgsError::Config(c) => c is FileNotFound || c is ParseError,
    }
}

/// Whether the help on the configuration is shown with an error.
pub fn shows_config_help(e: &StartupArgsError) -> (r: bool)
    ensures
        r == help_follows(*e),
{
    match e {
        StartupArgsError::MissingStorageDirectory => true,
        StartupArgsError::CreateDataDir { .. } => false,
        StartupArgsError::Config(c) => match c {
            ConfigError::FileNotFound(_) => true,
            ConfigError::ParseError(_) => true,
            _ => false,
        },
    }
}

impl StartupArgsError {
    /// The reason as it is shown.
    pub open spec fn shown(self) -> Seq<char> {
        match self {
            StartupArgsError::MissingStorageDirectory => "missing storage directory argument"@,
            StartupArgsError::CreateDataDir { path, source } =>
                "failed to create LDK data directory "@ + path@ + ": "@ + source@,
            StartupArgsError::Config(ConfigError::FileNotFound(m)) => m@,
            StartupArgsError::Config(ConfigError::ParseError(m)) => m@,
            StartupArgsError::Config(ConfigError::ValidationError(m)) => m@,
        }
    }

    /// The reason as text.
    pub fn to_text(&self) -> (r: String)
        ensures
            r@ == self.shown(),
    {
        match self {
            StartupArgsError::MissingStorageDirectory =>
                "missing storage directory argument".to_owned(),
            StartupArgsError::CreateDataDir { path, source } => {
                let mut t = "failed to create LDK data directory ".to_owned();
                t.append(path.as_str());
                t.append(": ");
                t.append(source.as_str());
                t
            },
            StartupArgsError::Config(ConfigError::FileNotFound(m)) => m.clone(),
            StartupArgsError::Config(ConfigError::ParseError(m)) => m.clone(),
            StartupArgsError::Config(ConfigError::ValidationError(m)) => m.clone(),
        }
    }
}

/// What is said if the node was not started, before the help on the configuration if that is shown.
pub open spec fn failure_of(e: StartupArgsError, args: Seq<String>) -> Seq<MessageView> {
    match e {
        StartupArgsError::MissingStorageDirectory => usage_of(args),
        _ => {
            let line = logging::print("ERROR: "@ + e.shown());
            if help_follows(e) {
                seq![line, logging::print(""@)]
            } else {
                seq![line]
            }
        },
    }
}

/// Says why the node was not started.
pub fn failure_messages(e: &StartupArgsError, args: &Vec<String>) -> (r: Vec<Message>)
    ensures
        logging::message_views(r@) == failure_of(*e, args@),
{
    match e {
        StartupArgsError::MissingStorageDirectory => usage(args),
        _ => {
            let mut t = "ERROR: ".to_owned();
            t.append(e.to_text().as_str());
            let mut r: Vec<Message> = Vec::new();
            r.push(print_line(t));
            if shows_config_help(e) {
                r.push(print_line("".to_owned()));
            }
            assert(logging::message_views(r@) =~= failure_of(*e, args@));
            r
        },
    }
}

/// How to write a configuration is shown where none was found or it is not understood, or where no
/// directory was given, but not where a value of it is wrong or the directory cannot be made.
pub proof fn law_help_is_shown_where_it_helps(e: StartupArgsError, args: Seq<String>)
    ensures
        e is MissingStorageDirectory ==> help_follows(e),
        e is CreateDataDir ==> !help_follows(e),
        e matches StartupArgsError::Config(c) ==> (help_follows(e) <==> c is FileNotFound
            || c is ParseError) && (c is ValidationError ==> !help_follows(e)),
        failure_of(e, args).len() > 0,
        forall|i: int|
            0 <= i < failure_of(e, args).len() ==> (#[trigger] failure_of(e, args)[i]).shown
                && !failure_of(e, args)[i].logged,
        !(e is MissingStorageDirectory) ==> failure_of(e, args)[0].text == "ERROR: "@ + e.shown(),
{
}

} // verus!
