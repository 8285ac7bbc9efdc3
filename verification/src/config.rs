//! The configuration file: a JSON object whose members `listen` and
//! `docroot` are strings.
//!
//! The JSON text is read by the `rustc_serialize` crate. What that crate
//! returns is taken on trust and stands in the contracts under a name of its
//! own; everything that is decided from it is verified. A text is handed to
//! the crate only if it is [`readable`].

use crate::limits::{is_readable, readable};
use crate::server::{Server, ServerView};
use rustc_serialize::json::{Json, ParserError};
use vstd::pervasive::unreached;
use vstd::prelude::*;

verus! {

/// `rustc_serialize::json::Json`, a JSON value. It is only handed from one
/// call of the crate to the next.
#[verifier::external_type_specification]
#[verifier::external_body]
pub struct ExJson(Json);

/// `rustc_serialize::json::ParserError`, which says where a text stops being
/// JSON. Nothing is read from it.
#[verifier::external_type_specification]
#[verifier::external_body]
pub struct ExParserError(ParserError);

/// The JSON value that `text` spells according to `Json::from_str`, if it
/// spells one.
pub uninterp spec fn json_value(text: Seq<char>) -> Option<Json>;

/// Whether `Json::is_object` finds `value` to be an object.
pub uninterp spec fn json_is_object(value: Json) -> bool;

/// The member of `value` that `Json::find` gives for `key`.
pub uninterp spec fn json_member(value: Json, key: Seq<char>) -> Option<Json>;

/// The text that `Json::as_string` gives for `value`.
pub uninterp spec fn json_string(value: Json) -> Option<Seq<char>>;

/// `Json::from_str` builds a JSON value from the characters of a text, or
/// reports where the text stops being JSON. The value depends on the text
/// alone. Nothing is claimed of what the value is or of the error. On a
/// readable text the call returns: the reader nests no deeper than
/// `MAX_DEPTH` calls, its 16-bit offsets into the buffer of keys, its sum of
/// exponent digits and its 32-bit count of array items stay in range, and it
/// meets no comma right before the closing brace of a nested object, the one
/// place where it loses track of the keys.
pub assume_specification[ Json::from_str ](s: &str) -> (r: Result<Json, ParserError>)
    requires
        readable(s@),
    ensures
        match r {
            Ok(value) => json_value(s@) == Some(value),
            Err(_) => json_value(s@).is_none(),
        },
;

/// `Json::is_object` tells whether a value is a JSON object.
pub assume_specification<'a>[ Json::is_object ](value: &'a Json) -> (b: bool)
    ensures
        b == json_is_object(*value),
;

/// `Json::find` gives the member of an object that is stored under a key,
/// and nothing for a missing key or for a value that is no object.
pub assume_specification<'a>[ Json::find ](value: &'a Json, key: &str) -> (r: Option<&'a Json>)
    ensures
        match r {
            Some(member) => json_member(*value, key@) == Some(*member),
            None => json_member(*value, key@).is_none(),
        },
;

/// `Json::as_string` gives the text of a JSON string, and nothing for any
/// other value.
pub assume_specification<'a>[ Json::as_string ](value: &'a Json) -> (r: Option<&'a str>)
    ensures
        match r {
            Some(text) => json_string(*value) == Some(text@),
            None => json_string(*value).is_none(),
        },
;

/// Why a configuration was refused.
#[derive(Clone, Copy, Debug, PartialEq, Eq, Structural)]
pub enum ConfigError {
    /// The text is not handed to the JSON reader, which might not return.
    Unreadable,
    /// The text is not JSON.
    Syntax,
    /// The JSON value is not an object.
    NotAnObject,
    /// The member `listen` is missing or is not a string.
    Listen,
    /// The member `docroot` is missing or is not a string.
    Docroot,
}

/// The server that a configuration describes, from what was found in it:
/// whether it is an object, and the texts of its members `listen` and
/// `docroot` where they are strings. The first thing that is wrong decides
/// the error.
pub open spec fn settings(
    is_object: bool,
    listen: Option<Seq<char>>,
    docroot: Option<Seq<char>>,
) -> Result<ServerView, ConfigError> {
    if !is_object {
        Err(ConfigError::NotAnObject)
    } else if listen.is_none() {
        Err(ConfigError::Listen)
    } else if docroot.is_none() {
        Err(ConfigError::Docroot)
    } else {
        Ok(ServerView { listen: listen.unwrap(), docroot: docroot.unwrap() })
    }
}

/// The text of the member of `value` under `key`, if there is such a member
/// and it is a string.
pub open spec fn string_member(value: Json, key: Seq<char>) -> Option<Seq<char>> {
    match json_member(value, key) {
        Some(member) => json_string(member),
        None => None,
    }
}

/// The server that the configuration `text` describes.
pub open spec fn configured(text: Seq<char>) -> Result<ServerView, ConfigError> {
    if !readable(text) {
        Err(ConfigError::Unreadable)
    } else {
        match json_value(text) {
            Some(value) => settings(
                json_is_object(value),
                string_member(value, "listen"@),
                string_member(value, "docroot"@),
            ),
            None => Err(ConfigError::Syntax),
        }
    }
}

/// The characters of a text that may be missing.
pub open spec fn text_of(text: Option<String>) -> Option<Seq<char>> {
    match text {
        Some(t) => Some(t@),
        None => None,
    }
}

/// What making a server gave, as mathematics.
pub open spec fn made(r: Result<Server, ConfigError>) -> Result<ServerView, ConfigError> {
    match r {
        Ok(server) => Ok(server@),
        Err(e) => Err(e),
    }
}

/// The error of a result, if it is one.
pub open spec fn refused(r: Result<ServerView, ConfigError>) -> Option<ConfigError> {
    match r {
        Ok(_) => None,
        Err(e) => Some(e),
    }
}

/// The sentence that says what is wrong.
pub open spec fn message_of(error: ConfigError) -> Seq<char> {
    match error {
        ConfigError::Unreadable => "Config is beyond the limits of the JSON reader."@,
        ConfigError::Syntax => "Config is not valid JSON."@,
        ConfigError::NotAnObject => "Config is not a valid JSON file."@,
        ConfigError::Listen => "'config.listen' was missing or is not a valid string"@,
        ConfigError::Docroot => "'config.docroot' was missing or is not a valid string"@,
    }
}

impl ConfigError {
    /// A sentence that says what is wrong.
    pub fn message(&self) -> (text: &'static str)
        ensures
            text@ == message_of(*self),
    {
        match self {
            ConfigError::Unreadable => "Config is beyond the limits of the JSON reader.",
            ConfigError::Syntax => "Config is not valid JSON.",
            ConfigError::NotAnObject => "Config is not a valid JSON file.",
            ConfigError::Listen => "'config.listen' was missing or is not a valid string",
            ConfigError::Docroot => "'config.docroot' was missing or is not a valid string",
        }
    }
}

/// The text of the member of `value` under `key`.
fn find_string(value: &Json, key: &str) -> (found: Option<String>)
    ensures
        text_of(found) == string_member(*value, key@),
{
    match value.find(key) {
        Some(member) => match member.as_string() {
            Some(text) => Some(text.to_owned()),
            None => None,
        },
        None => None,
    }
}

impl Server {
    /// The server that a configuration describes, from what was found in
    /// the configuration.
    pub fn from_settings(is_object: bool, listen: Option<String>, docroot: Option<String>) -> (r:
        Result<Server, ConfigError>)
        ensures
            made(r) == settings(is_object, text_of(listen), text_of(docroot)),
    {
        if !is_object {
            return Err(ConfigError::NotAnObject);
        }
        match listen {
            None => Err(ConfigError::Listen),
            Some(l) => match docroot {
                None => Err(ConfigError::Docroot),
                Some(d) => Ok(Server::with(l, d)),
            },
        }
    }

    /// Reads the configuration `config`.
    fn read(config: &str) -> (r: Result<Server, ConfigError>)
        ensures
            made(r) == configured(config@),
    {
        if !is_readable(config) {
            return Err(ConfigError::Unreadable);
        }
        match Json::from_str(config) {
            Err(_) => Err(ConfigError::Syntax),
            Ok(value) => {
                let is_object = value.is_object();
                let listen = find_string(&value, "listen");
                let docroot = find_string(&value, "docroot");
                Server::from_settings(is_object, listen, docroot)
            },
        }
    }

    /// What is wrong with the configuration `config`, if anything is.
    pub fn refusal(config: &str) -> (e: Option<ConfigError>)
        ensures
            e == refused(configured(config@)),
    {
        match Server::read(config) {
            Ok(_) => None,
            Err(e) => Some(e),
        }
    }

    /// The server that the configuration `config` describes. The
    /// configuration must describe one: `load` is for a text of which that
    /// is not known.
    pub fn new(config: &str) -> (server: Server)
        requires
            configured(config@).is_ok(),
        ensures
            configured(config@) == Ok::<ServerView, ConfigError>(server@),
    {
        match Server::read(config) {
            Ok(server) => server,
            Err(_) => unreached(),
        }
    }

    /// The server that the configuration `config` describes, or what is
    /// wrong with the configuration.
    pub fn load(config: &str) -> (r: Result<Server, ConfigError>)
        ensures
            made(r) == configured(config@),
    {
        match Server::refusal(config) {
            Some(e) => Err(e),
            None => Ok(Server::new(config)),
        }
    }
}

} // verus!
