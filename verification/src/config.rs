//! The configuration of the proxy and the rules of its reload.

use crate::uri::{parse_authority, parsed_authority};
use vstd::prelude::*;
use vstd::std_specs::cmp::PartialEqSpecImpl;
use vstd::string::StringExecFns;

verus! {

/// Where the proxy listens and where it forwards to. A configuration is
/// never changed, only replaced by another.
#[derive(Debug)]
pub struct Config {
    /// A free note that travels with the configuration.
    pub message: String,
    pub listen_host: String,
    pub listen_port: u16,
    pub target_host: String,
    pub target_port: u16,
}

/// What a configuration holds.
pub struct ConfigView {
    pub message: Seq<char>,
    pub listen_host: Seq<char>,
    pub listen_port: u16,
    pub target_host: Seq<char>,
    pub target_port: u16,
}

impl View for Config {
    type V = ConfigView;

    open spec fn view(&self) -> ConfigView {
        ConfigView {
            message: self.message@,
            listen_host: self.listen_host@,
            listen_port: self.listen_port,
            target_host: self.target_host@,
            target_port: self.target_port,
        }
    }
}

/// The two ends of a listener: where it is bound and where it forwards to.
#[derive(Debug)]
pub struct Endpoints {
    /// The address to bind.
    pub listen_address: String,
    /// The authority of the upstream.
    pub target: http::uri::Authority,
}

/// The configuration that is in force where nothing else is given.
pub open spec fn default_config() -> ConfigView {
    ConfigView {
        message: Seq::empty(),
        listen_host: "127.0.0.1"@,
        listen_port: 8080,
        target_host: "127.0.0.1"@,
        target_port: 3000,
    }
}

impl Default for Config {
    fn default() -> (config: Config)
        ensures
            config@ == default_config(),
    {
        Config {
            message: String::new(),
            listen_host: "127.0.0.1".to_owned(),
            listen_port: 8080,
            target_host: "127.0.0.1".to_owned(),
            target_port: 3000,
        }
    }
}

impl Clone for Config {
    fn clone(&self) -> (copy: Config)
        ensures
            copy@ == self@,
    {
        Config {
            message: self.message.clone(),
            listen_host: self.listen_host.clone(),
            listen_port: self.listen_port,
            target_host: self.target_host.clone(),
            target_port: self.target_port,
        }
    }
}

impl PartialEq for Config {
    fn eq(&self, other: &Config) -> (same: bool) {
        self.message == other.message && self.listen_host == other.listen_host
            && self.listen_port == other.listen_port && self.target_host == other.target_host
            && self.target_port == other.target_port
    }
}

impl PartialEqSpecImpl for Config {
    open spec fn obeys_eq_spec() -> bool {
        true
    }

    open spec fn eq_spec(&self, other: &Config) -> bool {
        self.message@ == other.message@ && self.listen_host@ == other.listen_host@
            && self.listen_port == other.listen_port && self.target_host@ == other.target_host@
            && self.target_port == other.target_port
    }
}

/// The digit `d` as a character.
pub open spec fn digit_char(d: nat) -> char {
    if d == 0 {
        '0'
    } else if d == 1 {
        '1'
    } else if d == 2 {
        '2'
    } else if d == 3 {
        '3'
    } else if d == 4 {
        '4'
    } else if d == 5 {
        '5'
    } else if d == 6 {
        '6'
    } else if d == 7 {
        '7'
    } else if d == 8 {
        '8'
    } else {
        '9'
    }
}

/// A number in decimal, without leading zeros.
pub open spec fn decimal(n: nat) -> Seq<char>
    decreases n,
{
    if n < 10 {
        seq![digit_char(n)]
    } else {
        decimal(n / 10).push(digit_char(n % 10))
    }
}

/// A host and a port as one address: the host, a colon, the port in
/// decimal.
pub open spec fn address(host: Seq<char>, port: u16) -> Seq<char> {
    host + seq![':'] + decimal(port as nat)
}

fn digit_text(d: u16) -> (text: &'static str)
    requires
        d < 10,
    ensures
        text@ == seq![digit_char(d as nat)],
{
    proof {
        reveal_strlit("0");
        reveal_strlit("1");
        reveal_strlit("2");
        reveal_strlit("3");
        reveal_strlit("4");
        reveal_strlit("5");
        reveal_strlit("6");
        reveal_strlit("7");
        reveal_strlit("8");
        reveal_strlit("9");
    }
    let text = if d == 0 {
        "0"
    } else if d == 1 {
        "1"
    } else if d == 2 {
        "2"
    } else if d == 3 {
        "3"
    } else if d == 4 {
        "4"
    } else if d == 5 {
        "5"
    } else if d == 6 {
        "6"
    } else if d == 7 {
        "7"
    } else if d == 8 {
        "8"
    } else {
        "9"
    };
    assert(text@ =~= seq![digit_char(d as nat)]);
    text
}

fn push_decimal(out: &mut String, n: u16)
    ensures
        final(out)@ == old(out)@ + decimal(n as nat),
    decreases n,
{
    if n >= 10 {
        push_decimal(out, n / 10);
    }
    out.append(digit_text(n % 10));
    assert(out@ =~= old(out)@ + decimal(n as nat));
}

fn join_address(host: &String, port: u16) -> (text: String)
    ensures
        text@ == address(host@, port),
{
    proof {
        reveal_strlit(":");
    }
    let mut text = host.clone();
    text.append(":");
    push_decimal(&mut text, port);
    assert(text@ =~= address(host@, port));
    text
}

impl Config {
    /// The default configuration with a note of its own.
    pub fn with_message(message: String) -> (config: Config)
        ensures
            config@ == (ConfigView { message: message@, ..default_config() }),
    {
        Config {
            message,
            listen_host: "127.0.0.1".to_owned(),
            listen_port: 8080,
            target_host: "127.0.0.1".to_owned(),
            target_port: 3000,
        }
    }

    /// The address on which the proxy listens.
    pub fn listen_address(&self) -> (text: String)
        ensures
            text@ == address(self@.listen_host, self@.listen_port),
    {
        join_address(&self.listen_host, self.listen_port)
    }

    /// The authority of the upstream.
    pub fn target_authority(&self) -> (text: String)
        ensures
            text@ == address(self@.target_host, self@.target_port),
    {
        join_address(&self.target_host, self.target_port)
    }

    /// The two ends of the listener that this configuration asks for, or
    /// `None` where its target is no authority.
    pub fn endpoints(&self) -> (ends: Option<Endpoints>)
        ensures
            ends.is_some() == parsed_authority(
                address(self@.target_host, self@.target_port),
            ).is_some(),
            ends matches Some(e) ==> e.listen_address@ == address(
                self@.listen_host,
                self@.listen_port,
            ) && Some(e.target) == parsed_authority(
                address(self@.target_host, self@.target_port),
            ),
    {
        let target = self.target_authority();
        match parse_authority(target.as_str()) {
            None => None,
            Some(target) => Some(Endpoints { listen_address: self.listen_address(), target }),
        }
    }
}

/// Keeps the configuration that is in force and decides, for each file that
/// was read anew, whether it replaces that configuration.
pub struct ConfigController {
    current: Config,
}

impl View for ConfigController {
    type V = ConfigView;

    closed spec fn view(&self) -> ConfigView {
        self.current@
    }
}

impl ConfigController {
    /// A controller with `initial` in force.
    pub fn new(initial: Config) -> (controller: ConfigController)
        ensures
            controller@ == initial@,
    {
        ConfigController { current: initial }
    }

    /// The configuration in force.
    pub fn current(&self) -> (config: &Config)
        ensures
            config@ == self@,
    {
        &self.current
    }

    /// Takes what a fresh read of the file gave: a configuration, or `None`
    /// where the file could not be parsed. Returns whether the listener is
    /// to be reloaded: only where the file gave a configuration that differs
    /// from the one in force, which it then replaces. In every other case
    /// the configuration in force stays.
    pub fn reload(&mut self, loaded: Option<Config>) -> (signal: bool)
        ensures
            signal == (loaded matches Some(c) && c@ != old(self)@),
            final(self)@ == match loaded {
                Some(c) => c@,
                None => old(self)@,
            },
    {
        match loaded {
            None => false,
            Some(config) => {
                if config == self.current {
                    false
                } else {
                    self.current = config;
                    true
                }
            },
        }
    }
}

/// What happened to a watched file.
#[derive(Clone, Copy, Debug, PartialEq, Eq, Structural)]
pub enum FileEvent {
    /// The file was read or opened.
    Access,
    /// The file came into being.
    Create,
    /// The content of the file changed.
    ModifyData,
    /// The file changed otherwise: its name, its metadata, or in a way that
    /// is not known.
    ModifyOther,
    /// The file went.
    Remove,
    /// Anything else.
    Other,
}

/// Tells the file events apart that ask for a fresh read of the
/// configuration.
pub struct ConfigWatcher;

impl ConfigWatcher {
    /// Whether a report of the watcher asks for a fresh read: only a change
    /// of the file's content does; a failure of the watcher (`None`) does
    /// not.
    pub fn asks_reload(report: Option<FileEvent>) -> (yes: bool)
        ensures
            yes == (report == Some(FileEvent::ModifyData)),
    {
        match report {
            Some(FileEvent::ModifyData) => true,
            _ => false,
        }
    }
}

} // verus!
