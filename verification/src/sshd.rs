//! Login attempts in the messages of `sshd`.
//!
//! A message is searched for the login pattern. What the pattern captured is
//! then read as a login: who tried, from which address, and whether the
//! attempt failed or was accepted.

use crate::address::{host_of_text, Host, SocketAddress};
use crate::error::{Error, ErrorView};
use crate::text::{chars_of, parse_unsigned, same_text, unsigned_of_text};
use vstd::prelude::*;

verus! {

/// A compiled regular expression of the `regex` crate.
#[verifier::external_type_specification]
#[verifier::external_body]
pub struct ExRegex(regex::Regex);

/// Whether the `regex` crate accepts `pattern` as a regular expression.
pub uninterp spec fn pattern_compiles(pattern: Seq<char>) -> bool;

/// The pattern that a compiled regular expression was made from.
pub uninterp spec fn regex_source(re: regex::Regex) -> Seq<char>;

/// What the leftmost match of `pattern` in `haystack` captured, `None` if
/// there is no match. Entry 0 is the text of the whole match and entry `i`
/// the text of the group with the `i`-th opening parenthesis, `None` where
/// that group took no part in the match.
pub uninterp spec fn regex_captures(pattern: Seq<char>, haystack: Seq<char>) -> Option<
    Seq<Option<Seq<char>>>,
>;

/// The mathematical content of the texts of capture groups.
pub open spec fn groups_view(groups: Seq<Option<String>>) -> Seq<Option<Seq<char>>> {
    groups.map_values(
        |g: Option<String>|
            match g {
                Some(text) => Some(text@),
                None => None,
            },
    )
}

/// Compiles `pattern` with `regex::Regex::new`. The call fails for a
/// pattern that is not valid or that compiles to more than the size limit;
/// a regular expression that it returns reports `pattern` as its source.
#[verifier::external_body]
fn compile(pattern: &str) -> (re: Option<regex::Regex>)
    ensures
        re is Some <==> pattern_compiles(pattern@),
        re matches Some(r) ==> regex_source(r) == pattern@,
{
    regex::Regex::new(pattern).ok()
}

/// Searches `haystack` with `regex::Regex::captures`, which returns the
/// capture groups of the leftmost match, and copies the text of each group.
#[verifier::external_body]
fn captures(re: &regex::Regex, haystack: &str) -> (groups: Option<Vec<Option<String>>>)
    ensures
        groups is Some <==> regex_captures(regex_source(*re), haystack@) is Some,
        groups matches Some(g) ==> regex_captures(regex_source(*re), haystack@) == Some(
            groups_view(g@),
        ),
{
    let found = re.captures(haystack)?;
    Some(found.iter().map(|group| group.map(|m| m.as_str().to_string())).collect())
}

/// The pattern of a login attempt as `sshd` logs it: the outcome, the
/// method, the user, and the address and port the attempt came from. It may
/// match anywhere in a message.
pub const SSHD_LOGIN: &'static str =
    "(Failed|Accepted) (password|publickey|none) for (invalid user )?(\\w+) from ([0-9a-fA-F:.]+) port (\\d+)";

/// The number of entries that a match of [`SSHD_LOGIN`] captures: the whole
/// match and six groups.
pub const GROUP_COUNT: usize = 7;

/// The entry that holds the outcome, `Failed` or `Accepted`.
pub const ACTION_GROUP: usize = 1;

/// The entry that holds the method, `password`, `publickey` or `none`.
pub const METHOD_GROUP: usize = 2;

/// The entry that holds the user name.
pub const USER_GROUP: usize = 4;

/// The entry that holds the address literal.
pub const HOST_GROUP: usize = 5;

/// The entry that holds the port.
pub const PORT_GROUP: usize = 6;

/// The facts of one authentication attempt that do not depend on its
/// outcome: where it came from, and as whom.
#[derive(Debug, PartialEq, Eq)]
pub struct Login {
    host: SocketAddress,
    user: String,
}

/// The mathematical content of a [`Login`].
pub struct LoginView {
    pub host: SocketAddress,
    pub user: Seq<char>,
}

impl View for Login {
    type V = LoginView;

    closed spec fn view(&self) -> LoginView {
        LoginView { host: self.host, user: self.user@ }
    }
}

impl Login {
    /// A login names its user.
    #[verifier::type_invariant]
    spec fn names_user(self) -> bool {
        self.user@.len() > 0
    }

    /// The login of `user` from `host`, if `user` is not empty.
    pub fn new(host: SocketAddress, user: String) -> (login: Option<Login>)
        ensures
            login is Some <==> user@.len() > 0,
            login matches Some(l) ==> l@ == (LoginView { host, user: user@ }),
    {
        if user.as_str().is_empty() {
            None
        } else {
            Some(Login { host, user })
        }
    }

    /// The address and port that the attempt came from.
    pub fn host(&self) -> (host: SocketAddress)
        ensures
            host == self@.host,
    {
        self.host
    }

    /// The user that the attempt was made as; never empty.
    pub fn user(&self) -> (user: &str)
        ensures
            user@ == self@.user,
            user@.len() > 0,
    {
        proof {
            use_type_invariant(self);
        }
        self.user.as_str()
    }
}

/// What a message of `sshd` reports.
#[derive(Debug, PartialEq, Eq)]
pub enum SshdEventKind {
    /// An attempt to log in that was refused.
    FailedLogin(Login),
    /// An attempt to log in that was accepted.
    SuccessfulLogin(Login),
}

/// The mathematical content of an [`SshdEventKind`].
pub enum SshdEventKindView {
    FailedLogin(LoginView),
    SuccessfulLogin(LoginView),
}

impl View for SshdEventKind {
    type V = SshdEventKindView;

    open spec fn view(&self) -> SshdEventKindView {
        match self {
            SshdEventKind::FailedLogin(login) => SshdEventKindView::FailedLogin(login@),
            SshdEventKind::SuccessfulLogin(login) => SshdEventKindView::SuccessfulLogin(login@),
        }
    }
}

impl SshdEventKindView {
    /// The login that the message reports.
    pub open spec fn login(self) -> LoginView {
        match self {
            SshdEventKindView::FailedLogin(login) => login,
            SshdEventKindView::SuccessfulLogin(login) => login,
        }
    }
}

/// Whether captured texts have the shape of a login: all entries of the
/// pattern are there, the outcome is one of the two words and the method one
/// of the three, and a user, an address and a port were captured, the user
/// not empty.
pub open spec fn has_login_shape(groups: Seq<Option<Seq<char>>>) -> bool {
    &&& groups.len() == GROUP_COUNT
    &&& groups[ACTION_GROUP as int] matches Some(action) && (action == "Failed"@ || action
        == "Accepted"@)
    &&& groups[METHOD_GROUP as int] matches Some(method) && (method == "password"@ || method
        == "publickey"@ || method == "none"@)
    &&& groups[USER_GROUP as int] matches Some(user) && user.len() > 0
    &&& groups[HOST_GROUP as int] is Some
    &&& groups[PORT_GROUP as int] is Some
}

/// The login that captured texts describe.
///
/// Texts without the shape of a login are a malformed record. An address
/// that is not an IP address literal, and a port that is not a number of 16
/// bits, are an invalid network address, reported with the text at fault.
pub open spec fn login_of_groups(groups: Seq<Option<Seq<char>>>) -> Result<
    SshdEventKindView,
    ErrorView,
> {
    if !has_login_shape(groups) {
        Err(ErrorView::MalformedRecord("captured text does not describe a login"@))
    } else {
        let action = groups[ACTION_GROUP as int].unwrap();
        let user = groups[USER_GROUP as int].unwrap();
        let host_text = groups[HOST_GROUP as int].unwrap();
        let port_text = groups[PORT_GROUP as int].unwrap();
        match host_of_text(host_text) {
            None => Err(ErrorView::InvalidNetworkAddress(host_text)),
            Some(host) => match unsigned_of_text(port_text, u16::MAX as nat) {
                None => Err(ErrorView::InvalidNetworkAddress(port_text)),
                Some(port) => {
                    let login = LoginView {
                        host: SocketAddress { host, port: port as u16 },
                        user,
                    };
                    if action == "Failed"@ {
                        Ok(SshdEventKindView::FailedLogin(login))
                    } else {
                        Ok(SshdEventKindView::SuccessfulLogin(login))
                    }
                },
            },
        }
    }
}

/// What a message of `sshd` reports, given what the login pattern captured
/// in it: the login that the captured texts describe, or, where the pattern
/// did not match, a malformed record that quotes the message.
pub open spec fn login_of_captures(
    message: Seq<char>,
    captured: Option<Seq<Option<Seq<char>>>>,
) -> Result<SshdEventKindView, ErrorView> {
    match captured {
        None => Err(ErrorView::MalformedRecord(message + " did not match regex"@)),
        Some(groups) => login_of_groups(groups),
    }
}

/// What a message of `sshd` reports: what the leftmost match of
/// [`SSHD_LOGIN`] in it captured, read as a login.
pub open spec fn login_of_message(message: Seq<char>) -> Result<SshdEventKindView, ErrorView> {
    login_of_captures(message, regex_captures(SSHD_LOGIN@, message))
}

/// Whether a result holds what `expected` describes.
pub open spec fn kind_matches(
    found: Result<SshdEventKind, Error>,
    expected: Result<SshdEventKindView, ErrorView>,
) -> bool {
    match found {
        Ok(kind) => expected == Ok::<SshdEventKindView, ErrorView>(kind@),
        Err(e) => expected == Err::<SshdEventKindView, ErrorView>(e@),
    }
}

/// Reads captured texts as a login, as [`login_of_groups`] defines it.
pub fn login_from_groups(groups: &Vec<Option<String>>) -> (kind: Result<SshdEventKind, Error>)
    ensures
        kind_matches(kind, login_of_groups(groups_view(groups@))),
{
    let ghost texts = groups_view(groups@);
    if groups.len() != GROUP_COUNT {
        return Err(malformed_login());
    }
    assert forall|i: int| 0 <= i < groups@.len() implies #[trigger] texts[i] == match groups@[i] {
        Some(text) => Some(text@),
        None => None,
    } by {}
    let failed: bool = match &groups[ACTION_GROUP] {
        Some(action) => {
            if same_text(action.as_str(), "Failed") {
                true
            } else if same_text(action.as_str(), "Accepted") {
                false
            } else {
                return Err(malformed_login());
            }
        },
        None => {
            return Err(malformed_login());
        },
    };
    match &groups[METHOD_GROUP] {
        Some(method) => {
            if !(same_text(method.as_str(), "password") || same_text(method.as_str(), "publickey")
                || same_text(method.as_str(), "none")) {
                return Err(malformed_login());
            }
        },
        None => {
            return Err(malformed_login());
        },
    }
    let user: String = match &groups[USER_GROUP] {
        Some(user) => user.clone(),
        None => {
            return Err(malformed_login());
        },
    };
    let host_text: &String = match &groups[HOST_GROUP] {
        Some(text) => text,
        None => {
            return Err(malformed_login());
        },
    };
    let port_text: &String = match &groups[PORT_GROUP] {
        Some(text) => text,
        None => {
            return Err(malformed_login());
        },
    };
    if user.as_str().is_empty() {
        return Err(malformed_login());
    }
    assert(has_login_shape(texts));
    let host = match Host::parse(host_text.as_str()) {
        Some(host) => host,
        None => {
            return Err(Error::InvalidNetworkAddress(host_text.clone()));
        },
    };
    let port: u16 = match parse_unsigned(&chars_of(port_text.as_str()), 65535) {
        Some(port) => port as u16,
        None => {
            return Err(Error::InvalidNetworkAddress(port_text.clone()));
        },
    };
    match Login::new(SocketAddress { host, port }, user) {
        Some(login) => if failed {
            Ok(SshdEventKind::FailedLogin(login))
        } else {
            Ok(SshdEventKind::SuccessfulLogin(login))
        },
        None => Err(malformed_login()),
    }
}

/// The failure for captured text without the shape of a login.
fn malformed_login() -> (e: Error)
    ensures
        e@ == ErrorView::MalformedRecord("captured text does not describe a login"@),
{
    Error::MalformedRecord(String::from_str("captured text does not describe a login"))
}

/// Reads what the pattern captured in `message` as a login, as
/// [`login_of_captures`] defines it.
pub fn login_from_captures(message: &str, captured: &Option<Vec<Option<String>>>) -> (kind: Result<
    SshdEventKind,
    Error,
>)
    ensures
        kind_matches(
            kind,
            login_of_captures(
                message@,
                match captured {
                    Some(groups) => Some(groups_view(groups@)),
                    None => None,
                },
            ),
        ),
{
    match captured {
        None => Err(
            Error::MalformedRecord(String::from_str(message).concat(" did not match regex")),
        ),
        Some(groups) => login_from_groups(groups),
    }
}

/// Finds login attempts in the messages of `sshd`. It holds the compiled
/// login pattern: make one and use it for every message.
pub struct SshdLineParser {
    pattern: regex::Regex,
}

impl SshdLineParser {
    /// The parser searches for [`SSHD_LOGIN`].
    #[verifier::type_invariant]
    spec fn searches_for_logins(self) -> bool {
        regex_source(self.pattern) == SSHD_LOGIN@
    }

    /// Compiles the login pattern.
    pub fn new() -> (parser: Option<SshdLineParser>)
        ensures
            parser is Some <==> pattern_compiles(SSHD_LOGIN@),
    {
        match compile(SSHD_LOGIN) {
            Some(pattern) => Some(SshdLineParser { pattern }),
            None => None,
        }
    }

    /// What `message` reports, as [`login_of_message`] defines it.
    pub fn parse(&self, message: &str) -> (kind: Result<SshdEventKind, Error>)
        ensures
            kind_matches(kind, login_of_message(message@)),
    {
        proof {
            use_type_invariant(self);
        }
        let captured = captures(&self.pattern, message);
        login_from_captures(message, &captured)
    }
}

impl SshdEventKind {
    /// What a message of `sshd` reports, as [`login_of_message`] defines it.
    pub fn from_str(parser: &SshdLineParser, s: &str) -> (kind: Result<SshdEventKind, Error>)
        ensures
            kind_matches(kind, login_of_message(s@)),
    {
        parser.parse(s)
    }

    /// The login that the message reports.
    pub fn login(&self) -> (login: &Login)
        ensures
            login@ == self@.login(),
    {
        match self {
            SshdEventKind::FailedLogin(login) => login,
            SshdEventKind::SuccessfulLogin(login) => login,
        }
    }
}

/// A message in which the login pattern matches with the outcome `Failed`,
/// an address literal that is an IP address and a port of 16 bits is
/// reported as a failed login of the captured user from that address and
/// port.
pub proof fn lemma_failed_login_is_reported(
    message: Seq<char>,
    groups: Seq<Option<Seq<char>>>,
    host: Host,
    port: nat,
)
    requires
        regex_captures(SSHD_LOGIN@, message) == Some(groups),
        has_login_shape(groups),
        groups[ACTION_GROUP as int] == Some("Failed"@),
        host_of_text(groups[HOST_GROUP as int].unwrap()) == Some(host),
        unsigned_of_text(groups[PORT_GROUP as int].unwrap(), u16::MAX as nat) == Some(port),
    ensures
        login_of_message(message) == Ok::<SshdEventKindView, ErrorView>(
            SshdEventKindView::FailedLogin(
                LoginView {
                    host: SocketAddress { host, port: port as u16 },
                    user: groups[USER_GROUP as int].unwrap(),
                },
            ),
        ),
{
}

} // verus!
