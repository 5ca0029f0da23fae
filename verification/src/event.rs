//! Events: journal records classified by their source.

use crate::address::{host_of_text, Host, SocketAddress};
use crate::error::{Error, ErrorView};
use crate::record::{
    document_of_line, json_decoded, json_is_object, json_members, text_field, text_field_of,
    IDENTIFIER_FIELD, MESSAGE_FIELD, TIMESTAMP_FIELD,
};
use crate::sshd::{
    has_login_shape, lemma_failed_login_is_reported, login_of_message, regex_captures, Login,
    LoginView, SshdEventKind, SshdEventKindView, SshdLineParser, ACTION_GROUP, HOST_GROUP,
    PORT_GROUP, SSHD_LOGIN, USER_GROUP,
};
use crate::text::{same_text, unsigned_of_text};
use crate::timestamp::{decoded_timestamp, realtime_timestamp_to_datetime, UtcInstant};
use vstd::prelude::*;

verus! {

/// What an event reports, by the source of its record.
#[derive(Debug, PartialEq, Eq)]
pub enum EventKind {
    /// A record of `sshd`: the login that its message reports, or `None`
    /// for a message that reports none.
    Sshd(Option<SshdEventKind>),
}

/// The mathematical content of an [`EventKind`].
pub enum EventKindView {
    Sshd(Option<SshdEventKindView>),
}

impl View for EventKind {
    type V = EventKindView;

    open spec fn view(&self) -> EventKindView {
        match self {
            EventKind::Sshd(Some(kind)) => EventKindView::Sshd(Some(kind@)),
            EventKind::Sshd(None) => EventKindView::Sshd(None),
        }
    }
}

impl EventKindView {
    /// The login that the event reports, if it reports one.
    pub open spec fn login(self) -> Option<LoginView> {
        match self {
            EventKindView::Sshd(Some(kind)) => Some(kind.login()),
            EventKindView::Sshd(None) => None,
        }
    }
}

/// One classified journal record.
#[derive(Debug, PartialEq)]
pub struct Event {
    ident: String,
    kind: EventKind,
    raw: serde_json::Value,
    time: UtcInstant,
}

/// The mathematical content of an [`Event`].
pub struct EventView {
    /// The source of the record.
    pub identifier: Seq<char>,
    /// What the record reports.
    pub kind: EventKindView,
    /// The record itself.
    pub raw: serde_json::Value,
    /// When the record was made: whole seconds since the Unix epoch, and
    /// nanoseconds after them.
    pub time: (int, int),
}

impl View for Event {
    type V = EventView;

    closed spec fn view(&self) -> EventView {
        EventView {
            identifier: self.ident@,
            kind: self.kind@,
            raw: self.raw,
            time: (self.time.seconds(), self.time.subsec_nanos()),
        }
    }
}

/// The identifier of the records of `sshd`.
pub const SSHD: &'static str = "sshd";

/// What a record of `sshd` is classified as, given what its message was
/// read as: the login it reports, and nothing where reading it failed.
pub open spec fn kind_of_outcome(outcome: Result<SshdEventKindView, ErrorView>) -> EventKindView {
    match outcome {
        Ok(kind) => EventKindView::Sshd(Some(kind)),
        Err(_) => EventKindView::Sshd(None),
    }
}

/// What a message of `sshd` is classified as.
pub open spec fn kind_of_message(message: Seq<char>) -> EventKindView {
    kind_of_outcome(login_of_message(message))
}

impl EventKind {
    /// The kind of a record of `sshd` whose message was read as `outcome`,
    /// as [`kind_of_outcome`] defines it.
    pub fn of_sshd(outcome: Result<SshdEventKind, Error>) -> (kind: EventKind)
        ensures
            kind@ == kind_of_outcome(
                match outcome {
                    Ok(k) => Ok(k@),
                    Err(e) => Err(e@),
                },
            ),
    {
        match outcome {
            Ok(kind) => EventKind::Sshd(Some(kind)),
            Err(_) => EventKind::Sshd(None),
        }
    }
}

/// The event that a record is classified as.
///
/// The record must be an object with a timestamp that denotes an instant
/// and an identifier, both strings. The identifier must be `sshd`, and the
/// record must then have a message that is a string. The first of these that
/// fails decides the failure.
pub open spec fn classify(doc: serde_json::Value) -> Result<EventView, ErrorView> {
    let members = json_members(doc);
    if !json_is_object(doc) {
        Err(ErrorView::MalformedRecord("record is not an object"@))
    } else {
        match text_field_of(members, TIMESTAMP_FIELD@, "timestamp"@) {
            Err(e) => Err(e),
            Ok(timestamp) => match decoded_timestamp(timestamp) {
                Err(e) => Err(e),
                Ok(time) => match text_field_of(members, IDENTIFIER_FIELD@, "syslog identifier"@) {
                    Err(e) => Err(e),
                    Ok(identifier) => if identifier != SSHD@ {
                        Err(ErrorView::UnsupportedIdentifier(identifier))
                    } else {
                        match text_field_of(members, MESSAGE_FIELD@, "message field"@) {
                            Err(e) => Err(e),
                            Ok(message) => Ok(
                                EventView {
                                    identifier,
                                    kind: kind_of_message(message),
                                    raw: doc,
                                    time,
                                },
                            ),
                        }
                    },
                },
            },
        }
    }
}

/// The event that a line of input is classified as: that of the record
/// which the line writes. A line that is not one JSON document fails with
/// what the decoder says of it.
pub open spec fn classify_line(line: Seq<char>) -> Result<EventView, ErrorView> {
    match json_decoded(line) {
        Ok(doc) => classify(doc),
        Err(fault) => Err(ErrorView::Json(fault)),
    }
}

/// Whether a result holds the event or the failure that `expected`
/// describes.
pub open spec fn event_matches(
    found: Result<Event, Error>,
    expected: Result<EventView, ErrorView>,
) -> bool {
    match found {
        Ok(event) => expected == Ok::<EventView, ErrorView>(event@),
        Err(e) => expected == Err::<EventView, ErrorView>(e@),
    }
}

impl Event {
    /// The kind of an event goes with its identifier: every event is a
    /// record of `sshd`.
    #[verifier::type_invariant]
    spec fn kind_goes_with_identifier(self) -> bool {
        self.ident@ == SSHD@
    }

    /// Classifies a record, as [`classify`] defines it. The record is kept
    /// in the event.
    pub fn try_from(parser: &SshdLineParser, raw: serde_json::Value) -> (event: Result<
        Event,
        Error,
    >)
        ensures
            event_matches(event, classify(raw)),
    {
        if !raw.is_object() {
            return Err(Error::MalformedRecord(String::from_str("record is not an object")));
        }
        let timestamp = match text_field(&raw, TIMESTAMP_FIELD, "timestamp") {
            Ok(text) => text,
            Err(e) => {
                return Err(e);
            },
        };
        let time = match realtime_timestamp_to_datetime(timestamp.as_str()) {
            Ok(time) => time,
            Err(e) => {
                return Err(e);
            },
        };
        let ident = match text_field(&raw, IDENTIFIER_FIELD, "syslog identifier") {
            Ok(text) => text,
            Err(e) => {
                return Err(e);
            },
        };
        if !same_text(ident.as_str(), SSHD) {
            return Err(Error::UnsupportedIdentifier(ident));
        }
        let message = match text_field(&raw, MESSAGE_FIELD, "message field") {
            Ok(text) => text,
            Err(e) => {
                return Err(e);
            },
        };
        let kind = EventKind::of_sshd(parser.parse(message.as_str()));
        Ok(Event { ident, kind, raw, time })
    }

    /// Classifies a line of input, as [`classify_line`] defines it.
    pub fn from_line(parser: &SshdLineParser, line: &str) -> (event: Result<Event, Error>)
        ensures
            event_matches(event, classify_line(line@)),
    {
        match document_of_line(line) {
            Ok(raw) => Event::try_from(parser, raw),
            Err(e) => Err(e),
        }
    }

    /// What the event reports.
    pub fn kind(&self) -> (kind: &EventKind)
        ensures
            kind@ == self@.kind,
    {
        &self.kind
    }

    /// The source of the record; always `sshd`.
    pub fn identifier(&self) -> (identifier: &str)
        ensures
            identifier@ == self@.identifier,
            identifier@ == SSHD@,
    {
        proof {
            use_type_invariant(self);
        }
        self.ident.as_str()
    }

    /// When the record was made.
    pub fn time(&self) -> (time: UtcInstant)
        ensures
            (time.seconds(), time.subsec_nanos()) == self@.time,
    {
        self.time
    }

    /// The record that the event was made from.
    pub fn raw(&self) -> (raw: &serde_json::Value)
        ensures
            *raw == self@.raw,
    {
        &self.raw
    }

    /// The login that the event reports, if it reports one.
    pub fn login(&self) -> (login: Option<&Login>)
        ensures
            match login {
                Some(l) => self@.kind.login() == Some(l@),
                None => self@.kind.login() is None,
            },
    {
        match &self.kind {
            EventKind::Sshd(Some(kind)) => Some(kind.login()),
            EventKind::Sshd(None) => None,
        }
    }

    /// The host that the event concerns: that of its login, without the
    /// port.
    pub open spec fn spec_host(self) -> Option<Host> {
        match self@.kind.login() {
            Some(login) => Some(login.host.host),
            None => None,
        }
    }

    /// The host that the event concerns, if it reports a login.
    pub fn host(&self) -> (host: Option<Host>)
        ensures
            host == self.spec_host(),
    {
        match self.login() {
            Some(login) => Some(login.host().host),
            None => None,
        }
    }
}

/// Whether `doc` is a record of `sshd` with the message `message`: an
/// object whose timestamp denotes an instant, whose identifier is `sshd`,
/// and whose message field holds that text.
pub open spec fn is_sshd_record(doc: serde_json::Value, message: Seq<char>) -> bool {
    let members = json_members(doc);
    &&& json_is_object(doc)
    &&& text_field_of(members, TIMESTAMP_FIELD@, "timestamp"@) matches Ok(timestamp)
        && decoded_timestamp(timestamp) is Ok
    &&& text_field_of(members, IDENTIFIER_FIELD@, "syslog identifier"@) == Ok::<
        Seq<char>,
        ErrorView,
    >(SSHD@)
    &&& text_field_of(members, MESSAGE_FIELD@, "message field"@) == Ok::<Seq<char>, ErrorView>(
        message,
    )
}

/// A record of `sshd` is always classified, as what its message reports.
pub proof fn lemma_sshd_record_is_classified(doc: serde_json::Value, message: Seq<char>)
    requires
        is_sshd_record(doc, message),
    ensures
        classify(doc) matches Ok(event) && event.identifier == SSHD@ && event.raw == doc
            && event.kind == kind_of_message(message),
{
}

/// A record of `sshd` in whose message the login pattern matches with the
/// outcome `Failed`, an address literal that is an IP address and a port of
/// 16 bits is classified as a failed login of the captured user from that
/// address and port.
pub proof fn lemma_failed_login_is_classified(
    doc: serde_json::Value,
    message: Seq<char>,
    groups: Seq<Option<Seq<char>>>,
    host: Host,
    port: nat,
)
    requires
        is_sshd_record(doc, message),
        regex_captures(SSHD_LOGIN@, message) == Some(groups),
        has_login_shape(groups),
        groups[ACTION_GROUP as int] == Some("Failed"@),
        host_of_text(groups[HOST_GROUP as int].unwrap()) == Some(host),
        unsigned_of_text(groups[PORT_GROUP as int].unwrap(), u16::MAX as nat) == Some(port),
    ensures
        classify(doc) matches Ok(event) && event.kind == EventKindView::Sshd(
            Some(
                SshdEventKindView::FailedLogin(
                    LoginView {
                        host: SocketAddress { host, port: port as u16 },
                        user: groups[USER_GROUP as int].unwrap(),
                    },
                ),
            ),
        ),
{
    lemma_failed_login_is_reported(message, groups, host, port);
}

/// A record of `sshd` in whose message the login pattern does not match is
/// classified, never refused, and reports no login.
pub proof fn lemma_unmatched_message_reports_nothing(doc: serde_json::Value, message: Seq<char>)
    requires
        is_sshd_record(doc, message),
        regex_captures(SSHD_LOGIN@, message) is None,
    ensures
        classify(doc) matches Ok(event) && event.kind == EventKindView::Sshd(None),
{
}

} // verus!
