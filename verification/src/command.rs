//! The commands that the engine carries out, and how the words of a command
//! line make one.

use vstd::prelude::*;
use crate::error::Error;
use crate::events::{text_of, slice_text_of};
use crate::names::same_text;
use crate::parse::{parse_weight, weight_in_text};
use crate::weights::OptionWeight;

verus! {

/// One command.
#[derive(Debug, Clone, PartialEq, Eq)]
pub enum Command {
    /// Add an option with the default weight.
    Add { name: String },
    /// Take an option out of the active options.
    Kill { name: String },
    /// Change the weight that new options get.
    Default { weight: u32 },
    /// Bring every active option to one weight: the given one, or the default weight.
    Reset { target: Option<u32> },
    /// List the active options.
    List,
    /// Draw one active option.
    Choose,
    /// Record a message for an option.
    Log { name: String, text: String },
    /// Raise an option's weight by one.
    Like { name: String, message: Option<String> },
    /// Lower an option's weight by one.
    Hate { name: String, message: Option<String> },
    /// Bring an active option to a weight.
    Assign { name: String, weight: u32, message: Option<String> },
}

/// The mathematical content of a [`Command`].
pub enum Request {
    Add { name: Seq<char> },
    Kill { name: Seq<char> },
    Default { weight: u32 },
    Reset { target: Option<u32> },
    List,
    Choose,
    Log { name: Seq<char>, text: Seq<char> },
    Like { name: Seq<char>, message: Option<Seq<char>> },
    Hate { name: Seq<char>, message: Option<Seq<char>> },
    Assign { name: Seq<char>, weight: u32, message: Option<Seq<char>> },
}

impl View for Command {
    type V = Request;

    open spec fn view(&self) -> Request {
        match *self {
            Command::Add { name } => Request::Add { name: name@ },
            Command::Kill { name } => Request::Kill { name: name@ },
            Command::Default { weight } => Request::Default { weight },
            Command::Reset { target } => Request::Reset { target },
            Command::List => Request::List,
            Command::Choose => Request::Choose,
            Command::Log { name, text } => Request::Log { name: name@, text: text@ },
            Command::Like { name, message } => Request::Like {
                name: name@,
                message: text_of(message),
            },
            Command::Hate { name, message } => Request::Hate {
                name: name@,
                message: text_of(message),
            },
            Command::Assign { name, weight, message } => Request::Assign {
                name: name@,
                weight,
                message: text_of(message),
            },
        }
    }
}

/// What a command has done.
#[derive(Debug, Clone, PartialEq, Eq)]
pub enum Outcome {
    /// The command has changed the store, or found nothing to change.
    Done,
    /// The active options, by ascending name.
    Listed(Vec<OptionWeight>),
    /// The name of the option that was drawn.
    Chosen(String),
}

/// The request that the words of a command line make: the subcommand, then
/// the name, the weight and the message where they were given. Words that the
/// subcommand has no use for are passed over. There is no request where the
/// subcommand is unknown, where a word that it needs is missing, or where the
/// weight is not a non-negative integer.
pub open spec fn requested(
    subcommand: Seq<char>,
    name: Option<Seq<char>>,
    weight: Option<Seq<char>>,
    message: Option<Seq<char>>,
) -> Option<Request> {
    let target = match weight {
        Some(text) => weight_in_text(text),
        None => None,
    };
    if subcommand == "add"@ {
        match name {
            Some(name) => Some(Request::Add { name }),
            None => None,
        }
    } else if subcommand == "kill"@ {
        match name {
            Some(name) => Some(Request::Kill { name }),
            None => None,
        }
    } else if subcommand == "default"@ {
        match target {
            Some(weight) => Some(Request::Default { weight }),
            None => None,
        }
    } else if subcommand == "reset"@ {
        if weight is None {
            Some(Request::Reset { target: None })
        } else {
            match target {
                Some(weight) => Some(Request::Reset { target: Some(weight) }),
                None => None,
            }
        }
    } else if subcommand == "list"@ {
        Some(Request::List)
    } else if subcommand == "choose"@ {
        Some(Request::Choose)
    } else if subcommand == "log"@ {
        match (name, message) {
            (Some(name), Some(text)) => Some(Request::Log { name, text }),
            _ => None,
        }
    } else if subcommand == "like"@ {
        match name {
            Some(name) => Some(Request::Like { name, message }),
            None => None,
        }
    } else if subcommand == "hate"@ {
        match name {
            Some(name) => Some(Request::Hate { name, message }),
            None => None,
        }
    } else if subcommand == "set"@ {
        match (name, target) {
            (Some(name), Some(weight)) => Some(Request::Assign { name, weight, message }),
            _ => None,
        }
    } else {
        None
    }
}

/// An owned copy of an optional text.
fn owned(text: Option<&str>) -> (r: Option<String>)
    ensures
        text_of(r) == slice_text_of(text),
{
    match text {
        Some(text) => Some(text.to_owned()),
        None => None,
    }
}

impl Command {
    /// Makes a command of the words of a command line.
    ///
    /// It fails with `InvalidArgument` where the words make no request.
    pub fn parse(
        subcommand: &str,
        name: Option<&str>,
        weight: Option<&str>,
        message: Option<&str>,
    ) -> (r: Result<Command, Error>)
        ensures
            match requested(
                subcommand@,
                slice_text_of(name),
                slice_text_of(weight),
                slice_text_of(message),
            ) {
                Some(request) => r matches Ok(command) && command@ == request,
                None => r == Err::<Command, Error>(Error::InvalidArgument),
            },
    {
        let target: Option<u32> = match weight {
            Some(text) => match parse_weight(text) {
                Ok(value) => Some(value),
                Err(_) => None,
            },
            None => None,
        };
        if same_text(subcommand, "add") {
            match name {
                Some(name) => Ok(Command::Add { name: name.to_owned() }),
                None => Err(Error::InvalidArgument),
            }
        } else if same_text(subcommand, "kill") {
            match name {
                Some(name) => Ok(Command::Kill { name: name.to_owned() }),
                None => Err(Error::InvalidArgument),
            }
        } else if same_text(subcommand, "default") {
            match target {
                Some(weight) => Ok(Command::Default { weight }),
                None => Err(Error::InvalidArgument),
            }
        } else if same_text(subcommand, "reset") {
            if weight.is_none() {
                Ok(Command::Reset { target: None })
            } else {
                match target {
                    Some(weight) => Ok(Command::Reset { target: Some(weight) }),
                    None => Err(Error::InvalidArgument),
                }
            }
        } else if same_text(subcommand, "list") {
            Ok(Command::List)
        } else if same_text(subcommand, "choose") {
            Ok(Command::Choose)
        } else if same_text(subcommand, "log") {
            match (name, message) {
                (Some(name), Some(message)) => Ok(
                    Command::Log { name: name.to_owned(), text: message.to_owned() },
                ),
                _ => Err(Error::InvalidArgument),
            }
        } else if same_text(subcommand, "like") {
            match name {
                Some(name) => Ok(Command::Like { name: name.to_owned(), message: owned(message) }),
                None => Err(Error::InvalidArgument),
            }
        } else if same_text(subcommand, "hate") {
            match name {
                Some(name) => Ok(Command::Hate { name: name.to_owned(), message: owned(message) }),
                None => Err(Error::InvalidArgument),
            }
        } else if same_text(subcommand, "set") {
            match (name, target) {
                (Some(name), Some(weight)) => Ok(
                    Command::Assign { name: name.to_owned(), weight, message: owned(message) },
                ),
                _ => Err(Error::InvalidArgument),
            }
        } else {
            Err(Error::InvalidArgument)
        }
    }
}

} // verus!
