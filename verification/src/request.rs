//! The command request: what the arguments of one invocation ask for, settled
//! before anything is done.

use vstd::prelude::*;
use vstd::string::*;

verus! {

/// What an invocation does.
#[derive(Debug, Clone, Copy, PartialEq, Eq, Structural)]
pub enum Action {
    /// Print the usage and stop.
    Usage,
    /// List the attached devices of the supported family.
    List,
    /// Show the security attributes of the target device.
    Info,
    /// Dump the secure element's state: a privileged operation.
    Dump,
    /// Bypass verified boot: a privileged operation.
    Bypass,
}

/// One invocation: the action, the serial that was named, and the key that
/// was supplied.
#[derive(Debug)]
pub struct CommandRequest {
    pub action: Action,
    pub serial: Option<String>,
    pub key: Option<String>,
}

/// What the arguments read so far have set.
pub struct Flags {
    pub help: bool,
    pub list: bool,
    pub info: bool,
    pub dump: bool,
    pub bypass: bool,
    pub serial: Option<Seq<char>>,
    pub key: Option<Seq<char>>,
}

/// What a `CommandRequest` holds, as plain values.
pub struct RequestView {
    pub action: Action,
    pub serial: Option<Seq<char>>,
    pub key: Option<Seq<char>>,
}

/// The text that an optional string holds.
pub open spec fn text_of(value: Option<String>) -> Option<Seq<char>> {
    match value {
        Some(text) => Some(text@),
        None => None,
    }
}

impl View for CommandRequest {
    type V = RequestView;

    open spec fn view(&self) -> RequestView {
        RequestView { action: self.action, serial: text_of(self.serial), key: text_of(self.key) }
    }
}

/// Nothing set.
pub open spec fn no_flags() -> Flags {
    Flags {
        help: false,
        list: false,
        info: false,
        dump: false,
        bypass: false,
        serial: None,
        key: None,
    }
}

/// `flags` after the arguments from index `from` on were read, from left to
/// right. A value flag takes the argument that follows it, whatever that is,
/// and is passed over where nothing follows; a later value replaces an
/// earlier one. An argument that is no flag is passed over.
pub open spec fn read_flags(arguments: Seq<Seq<char>>, from: int, flags: Flags) -> Flags
    decreases arguments.len() - from,
{
    if from < 0 || from >= arguments.len() {
        flags
    } else {
        let word = arguments[from];
        if word == "-l"@ || word == "--list"@ {
            read_flags(arguments, from + 1, Flags { list: true, ..flags })
        } else if word == "-i"@ || word == "--info"@ {
            read_flags(arguments, from + 1, Flags { info: true, ..flags })
        } else if word == "-d"@ || word == "--dump"@ {
            read_flags(arguments, from + 1, Flags { dump: true, ..flags })
        } else if word == "-b"@ || word == "--bypass"@ {
            read_flags(arguments, from + 1, Flags { bypass: true, ..flags })
        } else if word == "-h"@ || word == "--help"@ {
            read_flags(arguments, from + 1, Flags { help: true, ..flags })
        } else if (word == "-s"@ || word == "--serial"@) && from + 1 < arguments.len() {
            read_flags(arguments, from + 2, Flags { serial: Some(arguments[from + 1]), ..flags })
        } else if (word == "-k"@ || word == "--key"@) && from + 1 < arguments.len() {
            read_flags(arguments, from + 2, Flags { key: Some(arguments[from + 1]), ..flags })
        } else {
            read_flags(arguments, from + 1, flags)
        }
    }
}

/// The action that a set of flags selects. Help goes before everything, then
/// the listing, the status, the dump and the bypass; with none of them the
/// status is shown.
pub open spec fn action_of(flags: Flags) -> Action {
    if flags.help {
        Action::Usage
    } else if flags.list {
        Action::List
    } else if flags.info {
        Action::Info
    } else if flags.dump {
        Action::Dump
    } else if flags.bypass {
        Action::Bypass
    } else {
        Action::Info
    }
}

/// The request that a run of arguments makes.
pub open spec fn request_of(arguments: Seq<Seq<char>>) -> RequestView {
    let flags = read_flags(arguments, 0, no_flags());
    RequestView { action: action_of(flags), serial: flags.serial, key: flags.key }
}

/// The views of a run of arguments, in order.
pub open spec fn words_of(arguments: Seq<String>) -> Seq<Seq<char>> {
    Seq::new(arguments.len(), |i: int| arguments[i]@)
}

fn is_word(argument: &String, short: &str, long: &str) -> (same: bool)
    ensures
        same == (argument@ == short@ || argument@ == long@),
{
    *argument == short.to_owned() || *argument == long.to_owned()
}

/// Reads the arguments of an invocation, the program's name left out.
pub fn parse_args(arguments: &Vec<String>) -> (request: CommandRequest)
    ensures
        request@ == request_of(words_of(arguments@)),
{
    let mut help = false;
    let mut list = false;
    let mut info = false;
    let mut dump = false;
    let mut bypass = false;
    let mut serial: Option<String> = None;
    let mut key: Option<String> = None;
    let ghost words = words_of(arguments@);
    let count: usize = arguments.len();
    let mut at: usize = 0;
    while at < count
        invariant
            at <= count,
            count == arguments@.len(),
            words == words_of(arguments@),
            read_flags(words, 0, no_flags()) == read_flags(
                words,
                at as int,
                (Flags {
                    help,
                    list,
                    info,
                    dump,
                    bypass,
                    serial: text_of(serial),
                    key: text_of(key),
                }),
            ),
        decreases count - at,
    {
        let word = &arguments[at];
        if is_word(word, "-l", "--list") {
            list = true;
        } else if is_word(word, "-i", "--info") {
            info = true;
        } else if is_word(word, "-d", "--dump") {
            dump = true;
        } else if is_word(word, "-b", "--bypass") {
            bypass = true;
        } else if is_word(word, "-h", "--help") {
            help = true;
        } else if is_word(word, "-s", "--serial") && at + 1 < count {
            serial = Some(arguments[at + 1].clone());
            at = at + 1;
        } else if is_word(word, "-k", "--key") && at + 1 < count {
            key = Some(arguments[at + 1].clone());
            at = at + 1;
        }
        at = at + 1;
    }
    let action = if help {
        Action::Usage
    } else if list {
        Action::List
    } else if info {
        Action::Info
    } else if dump {
        Action::Dump
    } else if bypass {
        Action::Bypass
    } else {
        Action::Info
    };
    CommandRequest { action, serial, key }
}

impl Action {
    /// Whether the action works on one target device.
    pub open spec fn spec_needs_target(self) -> bool {
        self == Action::Info || self == Action::Dump || self == Action::Bypass
    }

    /// Whether the action stands behind the authorization gate.
    pub open spec fn spec_is_privileged(self) -> bool {
        self == Action::Dump || self == Action::Bypass
    }

    /// Whether the action works on one target device.
    #[verifier::when_used_as_spec(spec_needs_target)]
    pub fn needs_target(self) -> (needed: bool)
        ensures
            needed == self.spec_needs_target(),
    {
        match self {
            Action::Info | Action::Dump | Action::Bypass => true,
            Action::Usage | Action::List => false,
        }
    }

    /// Whether the action stands behind the authorization gate.
    #[verifier::when_used_as_spec(spec_is_privileged)]
    pub fn is_privileged(self) -> (privileged: bool)
        ensures
            privileged == self.spec_is_privileged(),
    {
        match self {
            Action::Dump | Action::Bypass => true,
            Action::Usage | Action::List | Action::Info => false,
        }
    }
}

} // verus!
