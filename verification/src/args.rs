//! The settings of a run, and the rules they must meet.

use crate::request::Target;
use vstd::prelude::*;
use vstd::string::StringExecFns;

verus! {

/// The settings of a run.
#[derive(Debug, PartialEq, Eq)]
pub struct Args {
    /// Host of the store, without scheme.
    pub host: String,
    /// Port of the store; never 0 in a valid configuration.
    pub port: u16,
    /// Namespace that the statements are run in.
    pub ns: String,
    /// Database that the statements are run in.
    pub db: String,
    /// Table that the items are inserted into.
    pub table: String,
    /// Path of the file that holds the JSON array of items.
    pub data_path: String,
    /// Number of items per batch, at least 1.
    pub batch: usize,
    /// Number of batches that may be in flight at once, at least 1.
    pub threads: usize,
    /// Verbosity, from 0 to 2.
    pub verbosity: u8,
    /// Whether statements are built but never submitted.
    pub dry_run: bool,
}

/// The rule that a configuration breaks.
#[derive(Debug, Clone, Copy, PartialEq, Eq)]
pub enum ArgsError {
    /// The port is 0.
    Port,
    /// The batch size is 0.
    Batch,
    /// The number of workers is 0.
    Threads,
    /// The verbosity is above 2.
    Verbosity,
}

/// The first rule, in the order port, batch size, workers, verbosity, that
/// these settings break, or `None` where they break none.
pub open spec fn first_violation(port: u16, batch: usize, threads: usize, verbosity: u8) -> Option<
    ArgsError,
> {
    if port == 0 {
        Some(ArgsError::Port)
    } else if batch == 0 {
        Some(ArgsError::Batch)
    } else if threads == 0 {
        Some(ArgsError::Threads)
    } else if verbosity > 2 {
        Some(ArgsError::Verbosity)
    } else {
        None
    }
}

/// The text that tells a user which rule was broken.
pub open spec fn violation_text(e: ArgsError) -> Seq<char> {
    match e {
        ArgsError::Port => "--port must be > 0"@,
        ArgsError::Batch => "--batch must be > 0"@,
        ArgsError::Threads => "--thread must be > 0"@,
        ArgsError::Verbosity => "--verbosity must be in 0..=2"@,
    }
}

/// The character of the decimal digit `d`.
pub open spec fn digit_char(d: nat) -> char
    recommends
        d < 10,
{
    if d == 0 {
        '0'
    } else if d == 1 {
        '1'
    } else if d == 2 {
        '2'
    } else if d == 3 {
        '3'
    } else if d == 4 {
        '4'
    } else if d == 5 {
        '5'
    } else if d == 6 {
        '6'
    } else if d == 7 {
        '7'
    } else if d == 8 {
        '8'
    } else {
        '9'
    }
}

/// The decimal numeral of `n`, without leading zeros.
pub open spec fn decimal(n: nat) -> Seq<char>
    decreases n,
{
    if n < 10 {
        seq![digit_char(n)]
    } else {
        decimal(n / 10).push(digit_char(n % 10))
    }
}

/// The address of the query endpoint of the store at `host` and `port`.
pub open spec fn endpoint_text(host: Seq<char>, port: u16) -> Seq<char> {
    "http://"@ + host + ":"@ + decimal(port as nat) + "/sql"@
}

fn digit_str(d: u8) -> (text: &'static str)
    requires
        d < 10,
    ensures
        text@ == seq![digit_char(d as nat)],
{
    let text = match d {
        0 => "0",
        1 => "1",
        2 => "2",
        3 => "3",
        4 => "4",
        5 => "5",
        6 => "6",
        7 => "7",
        8 => "8",
        _ => "9",
    };
    proof {
        reveal_strlit("0");
        reveal_strlit("1");
        reveal_strlit("2");
        reveal_strlit("3");
        reveal_strlit("4");
        reveal_strlit("5");
        reveal_strlit("6");
        reveal_strlit("7");
        reveal_strlit("8");
        reveal_strlit("9");
        assert(text@ =~= seq![digit_char(d as nat)]);
    }
    text
}

fn append_decimal(text: &mut String, n: u16)
    ensures
        final(text)@ == old(text)@ + decimal(n as nat),
    decreases n,
{
    if n >= 10 {
        append_decimal(text, n / 10);
    }
    text.append(digit_str((n % 10) as u8));
    proof {
        if n >= 10 {
            assert((old(text)@ + decimal((n / 10) as nat)) + seq![digit_char((n % 10) as nat)]
                =~= old(text)@ + decimal((n / 10) as nat).push(digit_char((n % 10) as nat)));
        }
    }
}

impl ArgsError {
    /// The text that tells a user which rule was broken.
    pub fn message(&self) -> (text: &'static str)
        ensures
            text@ == violation_text(*self),
    {
        match self {
            ArgsError::Port => "--port must be > 0",
            ArgsError::Batch => "--batch must be > 0",
            ArgsError::Threads => "--thread must be > 0",
            ArgsError::Verbosity => "--verbosity must be in 0..=2",
        }
    }
}

impl Args {
    /// The first rule that these settings break, if any.
    pub open spec fn violation(&self) -> Option<ArgsError> {
        first_violation(self.port, self.batch, self.threads, self.verbosity)
    }

    /// Checks the numeric settings: port, batch size and number of workers
    /// must not be 0, and the verbosity must not exceed 2. Reports the first
    /// rule that is broken.
    pub fn validate(&self) -> (checked: Result<(), ArgsError>)
        ensures
            match checked {
                Ok(_) => self.violation() is None,
                Err(e) => self.violation() == Some(e),
            },
    {
        if self.port == 0 {
            return Err(ArgsError::Port);
        }
        if self.batch == 0 {
            return Err(ArgsError::Batch);
        }
        if self.threads == 0 {
            return Err(ArgsError::Threads);
        }
        if self.verbosity > 2 {
            return Err(ArgsError::Verbosity);
        }
        Ok(())
    }

    /// The address of the store's query endpoint, from host and port.
    pub fn sql_endpoint(&self) -> (endpoint: String)
        ensures
            endpoint@ == endpoint_text(self.host@, self.port),
    {
        let mut endpoint = String::from_str("http://");
        endpoint.append(self.host.as_str());
        endpoint.append(":");
        append_decimal(&mut endpoint, self.port);
        endpoint.append("/sql");
        endpoint
    }

    /// Where the statements of a run with these settings go.
    pub fn target(&self) -> (target: Target)
        ensures
            target.endpoint@ == endpoint_text(self.host@, self.port),
            target.ns@ == self.ns@,
            target.db@ == self.db@,
            target.table@ == self.table@,
    {
        Target {
            endpoint: self.sql_endpoint(),
            ns: self.ns.clone(),
            db: self.db.clone(),
            table: self.table.clone(),
        }
    }
}

} // verus!
