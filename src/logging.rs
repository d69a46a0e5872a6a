use vstd::prelude::*;

verus! {

pub enum ConsoleStream {
    Stderr,
    Stdout,
}

/// Where log records go.
pub enum LoggingOutput {
    Console(ConsoleStream),
    /// A file at the given path.
    Disk(String),
    Syslog,
}

/// How log records are written.
#[derive(PartialEq, Eq, Structural)]
pub enum LoggingFormat {
    Json,
    Plain,
    Verbose,
}

/// Which records are kept: `Verbose` keeps debug records, `Normal` starts at info.
#[derive(PartialEq, Eq, Structural)]
pub enum LoggingLevel {
    Verbose,
    Normal,
}

/// The logging that the command-line flags ask for: syslog or standard error; JSON, then
/// verbose, then plain lines; debug records only with `debug`.
pub fn settings(debug: bool, verbose: bool, syslog: bool, json: bool) -> (r: (
    LoggingOutput,
    LoggingFormat,
    LoggingLevel,
))
    ensures
        (r.0 is Syslog) == syslog,
        !syslog ==> r.0 == LoggingOutput::Console(ConsoleStream::Stderr),
        r.1 == if json {
            LoggingFormat::Json
        } else if verbose {
            LoggingFormat::Verbose
        } else {
            LoggingFormat::Plain
        },
        r.2 == if debug {
            LoggingLevel::Verbose
        } else {
            LoggingLevel::Normal
        },
{
    let output = if syslog {
        LoggingOutput::Syslog
    } else {
        LoggingOutput::Console(ConsoleStream::Stderr)
    };
    let format = if json {
        LoggingFormat::Json
    } else if verbose {
        LoggingFormat::Verbose
    } else {
        LoggingFormat::Plain
    };
    let level = if debug {
        LoggingLevel::Verbose
    } else {
        LoggingLevel::Normal
    };
    (output, format, level)
}

/// The name under which the appender for `output` is registered.
pub fn appender_name(output: &LoggingOutput) -> (r: &'static str)
    ensures
        r@ == match output {
            LoggingOutput::Console(ConsoleStream::Stderr) => "stderr"@,
            LoggingOutput::Console(ConsoleStream::Stdout) => "stdout"@,
            LoggingOutput::Syslog => "syslog"@,
            LoggingOutput::Disk(_) => "disk"@,
        },
{
    match output {
        LoggingOutput::Console(ConsoleStream::Stderr) => "stderr",
        LoggingOutput::Console(ConsoleStream::Stdout) => "stdout",
        LoggingOutput::Syslog => "syslog",
        LoggingOutput::Disk(_) => "disk",
    }
}

} // verus!
