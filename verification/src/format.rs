//! The two formatters and the contract they share.

use vstd::prelude::*;
use crate::priority::{encode_priority, priority_of, Facility, Severity};
use crate::structured_data::{structured_data_text, StructuredData};
use crate::text::{
    decimal, decimal_string, lemma_decimal_is_message_id, message_id_field, normalize_message_id,
    push_decimal,
};
use crate::timestamp::{rfc3164_stamp_text, rfc3339_stamp_text, utc_now, Timestamp};

verus! {

/// The PRI part of a line: the priority in decimal between angle brackets.
pub open spec fn pri_text(severity: Severity, facility: Facility) -> Seq<char> {
    seq!['<'] + decimal(priority_of(severity, facility) as nat) + seq!['>']
}

/// What a BSD line holds before the host name: PRI part, time stamp and a
/// space.
pub open spec fn rfc3164_head(facility: Facility, severity: Severity, now: Timestamp) -> Seq<char> {
    pri_text(severity, facility) + rfc3164_stamp_text(now) + seq![' ']
}

/// What a BSD line holds after the host name: `process[pid]: message`.
pub open spec fn rfc3164_tail(process: Seq<char>, pid: u32, message: Seq<char>) -> Seq<char> {
    process + seq!['['] + decimal(pid as nat) + seq![']', ':', ' '] + message
}

/// The BSD line: `<pri>stamp host process[pid]: message`, and without a
/// host name `<pri>stamp process[pid]: message`.
pub open spec fn rfc3164_line(
    facility: Facility,
    hostname: Option<Seq<char>>,
    process: Seq<char>,
    pid: u32,
    severity: Severity,
    now: Timestamp,
    message: Seq<char>,
) -> Seq<char> {
    match hostname {
        Some(host) => pri_text(severity, facility) + rfc3164_stamp_text(now) + seq![' '] + host
            + seq![' '] + process + seq!['['] + decimal(pid as nat) + seq![']', ':', ' ']
            + message,
        None => pri_text(severity, facility) + rfc3164_stamp_text(now) + seq![' '] + process
            + seq!['['] + decimal(pid as nat) + seq![']', ':', ' '] + message,
    }
}

/// The HOSTNAME field of an RFC 5424 line: the host name, or `localhost`
/// where there is none.
pub open spec fn host_field(hostname: Option<Seq<char>>) -> Seq<char> {
    match hostname {
        Some(host) => host,
        None => seq!['l', 'o', 'c', 'a', 'l', 'h', 'o', 's', 't'],
    }
}

/// The RFC 5424 line: PRI part and version 1, then the time stamp of the
/// reading rounded down to microseconds, host, process, pid, message
/// identifier, structured data and message, with one space between each.
pub open spec fn rfc5424_line(
    facility: Facility,
    hostname: Option<Seq<char>>,
    process: Seq<char>,
    pid: u32,
    severity: Severity,
    now: Timestamp,
    message_id: Option<Seq<char>>,
    data: Seq<(Seq<char>, Seq<(Seq<char>, Seq<char>)>)>,
    message: Seq<char>,
) -> Seq<char> {
    pri_text(severity, facility) + seq!['1', ' '] + rfc3339_stamp_text(now.floor_to_micros())
        + seq![' '] + host_field(hostname) + seq![' '] + process + seq![' '] + decimal(pid as nat)
        + seq![' '] + message_id_field(message_id) + seq![' '] + structured_data_text(data)
        + seq![' '] + message
}

/// The view of an optional string.
pub open spec fn text_of(s: Option<String>) -> Option<Seq<char>> {
    match s {
        Some(t) => Some(t@),
        None => None,
    }
}

/// A formatter of the BSD format (RFC 3164).
#[derive(Clone, Debug)]
pub struct Formatter3164 {
    pub facility: Facility,
    pub hostname: Option<String>,
    pub process: String,
    pub pid: u32,
}

/// A formatter of the structured format (RFC 5424).
#[derive(Clone, Debug)]
pub struct Formatter5424 {
    pub facility: Facility,
    pub hostname: Option<String>,
    /// Called APP-NAME in RFC 5424.
    pub process: String,
    pub pid: u32,
}

/// Appends the PRI part for `severity` and `facility` to `out`.
fn push_pri(out: &mut String, severity: Severity, facility: Facility)
    ensures
        final(out)@ == old(out)@ + pri_text(severity, facility),
{
    proof {
        reveal_strlit("<");
        reveal_strlit(">");
    }
    out.append("<");
    push_decimal(out, encode_priority(severity, facility) as u64);
    out.append(">");
}

impl Formatter3164 {
    /// The line of this formatter for a severity, a clock reading and a
    /// message.
    pub open spec fn line(&self, severity: Severity, now: Timestamp, message: Seq<char>) -> Seq<
        char,
    > {
        rfc3164_line(
            self.facility,
            text_of(self.hostname),
            self.process@,
            self.pid,
            severity,
            now,
            message,
        )
    }

    /// A formatter for the facility `LOG_USER` from what was found out
    /// about host and process. A host name that could not be found stays
    /// absent. Where name and id of the process could not be found, the
    /// name is empty and the id is `fallback_pid`.
    pub fn with_identity(
        hostname: Option<String>,
        process_info: Option<(String, u32)>,
        fallback_pid: u32,
    ) -> (f: Self)
        ensures
            f.facility == Facility::LOG_USER,
            f.hostname == hostname,
            match process_info {
                Some((name, id)) => f.process == name && f.pid == id,
                None => f.process@ == Seq::<char>::empty() && f.pid == fallback_pid,
            },
    {
        let (process, pid) = match process_info {
            Some((name, id)) => (name, id),
            None => (String::new(), fallback_pid),
        };
        Formatter3164 { facility: Facility::default(), hostname, process, pid }
    }

    /// Renders the line for the clock reading `now`.
    pub fn format_at(&self, now: &Timestamp, severity: Severity, message: &str) -> (out: String)
        requires
            now.is_valid(),
        ensures
            out@ == self.line(severity, *now, message@),
    {
        proof {
            reveal_strlit(" ");
            reveal_strlit("[");
            reveal_strlit("]: ");
            assert(" "@ =~= seq![' ']);
            assert("["@ =~= seq!['[']);
            assert("]: "@ =~= seq![']', ':', ' ']);
        }
        let stamp = now.rfc3164_stamp();
        let mut out = String::new();
        push_pri(&mut out, severity, self.facility);
        assert(out@ =~= pri_text(severity, self.facility));
        out.append(stamp.as_str());
        out.append(" ");
        match &self.hostname {
            Some(host) => {
                out.append(host.as_str());
                out.append(" ");
            },
            None => {},
        }
        out.append(self.process.as_str());
        out.append("[");
        push_decimal(&mut out, self.pid as u64);
        out.append("]: ");
        out.append(message);
        out
    }
}

/// What every formatter offers: one operation that renders a message at a
/// given severity, and one shorthand for each severity.
///
/// `T` is what the format takes as a message: plain text for the BSD
/// format; message identifier, structured data and text for RFC 5424.
pub trait LogFormat<T>: Sized {
    /// Whether the format can write the clock reading `now`.
    spec fn admits(&self, now: Timestamp) -> bool;

    /// The line for a severity, a clock reading and a message.
    spec fn rendered(&self, severity: Severity, now: Timestamp, message: T) -> Seq<char>;

    /// What comes of the clock reading `now`: the line for it, where the
    /// format can write the reading; nothing, where it cannot.
    open spec fn outcome(&self, severity: Severity, now: Timestamp, message: T) -> Option<
        Seq<char>,
    > {
        if self.admits(now) {
            Some(self.rendered(severity, now, message))
        } else {
            None
        }
    }

    /// What `format` owes: its result is what comes of some valid clock
    /// reading. So a line is the line for a reading that the format can
    /// write, and no line means a reading that it cannot write.
    open spec fn is_line(&self, severity: Severity, message: T, out: Option<String>) -> bool {
        exists|now: Timestamp|
            now.is_valid() && text_of(out) == #[trigger] self.outcome(severity, now, message)
    }

    /// Renders the line for the clock reading `now`.
    fn format_at(&self, now: &Timestamp, severity: Severity, message: T) -> (out: String)
        requires
            self.admits(*now),
        ensures
            out@ == self.rendered(severity, *now, message),
    ;

    /// Reads the clock and renders the line for that reading. `None` where
    /// the format cannot write the reading.
    fn format(&self, severity: Severity, message: T) -> (out: Option<String>)
        ensures
            self.is_line(severity, message, out),
    ;

    fn emerg(&mut self, message: T) -> (out: Option<String>)
        ensures
            *final(self) == *old(self),
            old(self).is_line(Severity::LOG_EMERG, message, out),
    {
        self.format(Severity::LOG_EMERG, message)
    }

    fn alert(&mut self, message: T) -> (out: Option<String>)
        ensures
            *final(self) == *old(self),
            old(self).is_line(Severity::LOG_ALERT, message, out),
    {
        self.format(Severity::LOG_ALERT, message)
    }

    fn crit(&mut self, message: T) -> (out: Option<String>)
        ensures
            *final(self) == *old(self),
            old(self).is_line(Severity::LOG_CRIT, message, out),
    {
        self.format(Severity::LOG_CRIT, message)
    }

    fn err(&mut self, message: T) -> (out: Option<String>)
        ensures
            *final(self) == *old(self),
            old(self).is_line(Severity::LOG_ERR, message, out),
    {
        self.format(Severity::LOG_ERR, message)
    }

    fn warning(&mut self, message: T) -> (out: Option<String>)
        ensures
            *final(self) == *old(self),
            old(self).is_line(Severity::LOG_WARNING, message, out),
    {
        self.format(Severity::LOG_WARNING, message)
    }

    fn notice(&mut self, message: T) -> (out: Option<String>)
        ensures
            *final(self) == *old(self),
            old(self).is_line(Severity::LOG_NOTICE, message, out),
    {
        self.format(Severity::LOG_NOTICE, message)
    }

    fn info(&mut self, message: T) -> (out: Option<String>)
        ensures
            *final(self) == *old(self),
            old(self).is_line(Severity::LOG_INFO, message, out),
    {
        self.format(Severity::LOG_INFO, message)
    }

    fn debug(&mut self, message: T) -> (out: Option<String>)
        ensures
            *final(self) == *old(self),
            old(self).is_line(Severity::LOG_DEBUG, message, out),
    {
        self.format(Severity::LOG_DEBUG, message)
    }
}

impl<'a> LogFormat<&'a str> for Formatter3164 {
    open spec fn admits(&self, now: Timestamp) -> bool {
        now.is_valid()
    }

    open spec fn rendered(&self, severity: Severity, now: Timestamp, message: &'a str) -> Seq<
        char,
    > {
        self.line(severity, now, message@)
    }

    fn format_at(&self, now: &Timestamp, severity: Severity, message: &'a str) -> (out: String) {
        Formatter3164::format_at(self, now, severity, message)
    }

    /// Renders the line for the wall clock. Every reading of it can be
    /// written, so there is always a line.
    fn format(&self, severity: Severity, message: &'a str) -> (out: Option<String>)
        ensures
            out is Some,
    {
        let now = Timestamp::wall_clock();
        let text = Formatter3164::format_at(self, &now, severity, message);
        assert(now.is_valid() && text_of(Some(text)) == self.outcome(severity, now, message));
        Some(text)
    }
}

impl Formatter5424 {
    /// The line of this formatter for a severity, a clock reading, a
    /// message identifier, structured data and a message.
    pub open spec fn line(
        &self,
        severity: Severity,
        now: Timestamp,
        message_id: Option<Seq<char>>,
        data: Seq<(Seq<char>, Seq<(Seq<char>, Seq<char>)>)>,
        message: Seq<char>,
    ) -> Seq<char> {
        rfc5424_line(
            self.facility,
            text_of(self.hostname),
            self.process@,
            self.pid,
            severity,
            now,
            message_id,
            data,
            message,
        )
    }

    /// A formatter for the facility `LOG_USER` from what was found out
    /// about host and process, by the rules of
    /// `Formatter3164::with_identity`.
    pub fn with_identity(
        hostname: Option<String>,
        process_info: Option<(String, u32)>,
        fallback_pid: u32,
    ) -> (f: Self)
        ensures
            f.facility == Facility::LOG_USER,
            f.hostname == hostname,
            match process_info {
                Some((name, id)) => f.process == name && f.pid == id,
                None => f.process@ == Seq::<char>::empty() && f.pid == fallback_pid,
            },
    {
        let Formatter3164 { facility, hostname, process, pid } = Formatter3164::with_identity(
            hostname,
            process_info,
            fallback_pid,
        );
        Formatter5424 { facility, hostname, process, pid }
    }

    /// The STRUCTURED-DATA field for `data`: a single hyphen where there
    /// is no element, else each element as `[id name="value" ...]`, one
    /// after the other. Values are written as they are, without escapes.
    pub fn format_5424_structured_data(&self, data: StructuredData) -> (out: String)
        ensures
            out@ == structured_data_text(data@),
    {
        data.encode()
    }

    /// Renders the line for the clock reading `now`, taken as UTC.
    pub fn format_at(
        &self,
        now: &Timestamp,
        severity: Severity,
        message_id: Option<String>,
        data: StructuredData,
        message: &str,
    ) -> (out: String)
        requires
            now.fits_rfc3339(),
        ensures
            out@ == self.line(severity, *now, text_of(message_id), data@, message@),
    {
        let id = match &message_id {
            Some(given) => normalize_message_id(given.as_str()),
            None => {
                proof {
                    reveal_strlit("-");
                }
                let mut nil = String::new();
                nil.append("-");
                nil
            },
        };
        proof {
            reveal_strlit("1 ");
            reveal_strlit(" ");
            reveal_strlit("localhost");
            assert("1 "@ =~= seq!['1', ' ']);
            assert(" "@ =~= seq![' ']);
            assert("localhost"@ =~= host_field(None));
        }
        let stamp = now.rfc5424_stamp();
        let fields = self.format_5424_structured_data(data);
        let mut out = String::new();
        push_pri(&mut out, severity, self.facility);
        assert(out@ =~= pri_text(severity, self.facility));
        out.append("1 ");
        out.append(stamp.as_str());
        out.append(" ");
        match &self.hostname {
            Some(host) => {
                out.append(host.as_str());
            },
            None => {
                out.append("localhost");
            },
        }
        out.append(" ");
        out.append(self.process.as_str());
        out.append(" ");
        push_decimal(&mut out, self.pid as u64);
        out.append(" ");
        out.append(id.as_str());
        out.append(" ");
        out.append(fields.as_str());
        out.append(" ");
        out.append(message);
        out
    }

    /// What comes of the clock reading `now`: the line for it, where it is
    /// a valid reading of a year from 0 to 9999; nothing, where it is not.
    pub open spec fn line_if_writable(
        &self,
        severity: Severity,
        now: Timestamp,
        message_id: Option<Seq<char>>,
        data: Seq<(Seq<char>, Seq<(Seq<char>, Seq<char>)>)>,
        message: Seq<char>,
    ) -> Option<Seq<char>> {
        if now.fits_rfc3339() {
            Some(self.line(severity, now, message_id, data, message))
        } else {
            None
        }
    }

    /// Renders the line for the clock reading `now`, taken as UTC, if
    /// RFC 3339 can write it: `Some` of the line for a valid reading of a
    /// year from 0 to 9999, `None` for every other.
    pub fn format_reading(
        &self,
        now: &Timestamp,
        severity: Severity,
        message_id: Option<String>,
        data: StructuredData,
        message: &str,
    ) -> (out: Option<String>)
        ensures
            text_of(out) == self.line_if_writable(
                severity,
                *now,
                text_of(message_id),
                data@,
                message@,
            ),
            out is Some <==> now.fits_rfc3339(),
    {
        if now.check() && now.year >= 0 {
            let text = self.format_at(now, severity, message_id, data, message);
            Some(text)
        } else {
            None
        }
    }

    /// Reads the clock in UTC and gives what `format_reading` gives for
    /// that reading: the line, or `None` where the reading lies before the
    /// year 0, which RFC 3339 cannot write.
    pub fn format_now(
        &self,
        severity: Severity,
        message_id: Option<String>,
        data: StructuredData,
        message: &str,
    ) -> (out: Option<String>)
        ensures
            exists|now: Timestamp|
                now.is_valid() && text_of(out) == #[trigger] self.line_if_writable(
                    severity,
                    now,
                    text_of(message_id),
                    data@,
                    message@,
                ),
    {
        let now = utc_now();
        self.format_reading(&now, severity, message_id, data, message)
    }
}

impl<'a> LogFormat<(Option<String>, StructuredData, &'a str)> for Formatter5424 {
    open spec fn admits(&self, now: Timestamp) -> bool {
        now.fits_rfc3339()
    }

    open spec fn rendered(
        &self,
        severity: Severity,
        now: Timestamp,
        message: (Option<String>, StructuredData, &'a str),
    ) -> Seq<char> {
        self.line(severity, now, text_of(message.0), message.1@, message.2@)
    }

    fn format_at(
        &self,
        now: &Timestamp,
        severity: Severity,
        message: (Option<String>, StructuredData, &'a str),
    ) -> (out: String) {
        let (message_id, data, text) = message;
        Formatter5424::format_at(self, now, severity, message_id, data, text)
    }

    fn format(
        &self,
        severity: Severity,
        message: (Option<String>, StructuredData, &'a str),
    ) -> (out: Option<String>) {
        let ghost given = message;
        let (message_id, data, text) = message;
        let out = self.format_now(severity, message_id, data, text);
        proof {
            let now = choose|now: Timestamp|
                now.is_valid() && text_of(out) == #[trigger] self.line_if_writable(
                    severity,
                    now,
                    text_of(given.0),
                    given.1@,
                    given.2@,
                );
            assert(now.is_valid() && text_of(out) == self.outcome(severity, now, given));
        }
        out
    }
}

impl<'a> LogFormat<(u32, StructuredData, &'a str)> for Formatter5424 {
    open spec fn admits(&self, now: Timestamp) -> bool {
        now.fits_rfc3339()
    }

    /// A number as message identifier stands for its decimal numeral.
    open spec fn rendered(
        &self,
        severity: Severity,
        now: Timestamp,
        message: (u32, StructuredData, &'a str),
    ) -> Seq<char> {
        self.line(severity, now, Some(decimal(message.0 as nat)), message.1@, message.2@)
    }

    fn format_at(
        &self,
        now: &Timestamp,
        severity: Severity,
        message: (u32, StructuredData, &'a str),
    ) -> (out: String) {
        let (number, data, text) = message;
        Formatter5424::format_at(
            self,
            now,
            severity,
            Some(decimal_string(number as u64)),
            data,
            text,
        )
    }

    fn format(&self, severity: Severity, message: (u32, StructuredData, &'a str)) -> (out: Option<
        String,
    >) {
        let ghost given = message;
        let (number, data, text) = message;
        let out = self.format_now(severity, Some(decimal_string(number as u64)), data, text);
        proof {
            let now = choose|now: Timestamp|
                now.is_valid() && text_of(out) == #[trigger] self.line_if_writable(
                    severity,
                    now,
                    Some(decimal(given.0 as nat)),
                    given.1@,
                    given.2@,
                );
            assert(now.is_valid() && text_of(out) == self.outcome(severity, now, given));
        }
        out
    }
}

/// A BSD line without a host name is the line with one, less the host name
/// and the space after it. Everything before and after is the same.
pub proof fn lemma_hostname_absent(
    with_host: Formatter3164,
    without_host: Formatter3164,
    severity: Severity,
    now: Timestamp,
    message: Seq<char>,
)
    requires
        with_host.hostname is Some,
        without_host.hostname is None,
        with_host.facility == without_host.facility,
        with_host.process@ == without_host.process@,
        with_host.pid == without_host.pid,
    ensures
        with_host.line(severity, now, message) == rfc3164_head(
            with_host.facility,
            severity,
            now,
        ) + with_host.hostname->0@ + seq![' '] + rfc3164_tail(
            with_host.process@,
            with_host.pid,
            message,
        ),
        without_host.line(severity, now, message) == rfc3164_head(
            with_host.facility,
            severity,
            now,
        ) + rfc3164_tail(with_host.process@, with_host.pid, message),
        with_host.line(severity, now, message).len() == without_host.line(
            severity,
            now,
            message,
        ).len() + with_host.hostname->0@.len() + 1,
{
    let head = rfc3164_head(with_host.facility, severity, now);
    let tail = rfc3164_tail(with_host.process@, with_host.pid, message);
    assert(with_host.line(severity, now, message) =~= head + with_host.hostname->0@ + seq![' ']
        + tail);
    assert(without_host.line(severity, now, message) =~= head + tail);
}

/// A number as message identifier gives the line that its decimal numeral
/// gives as text, and the numeral stands in the line as it is.
pub proof fn lemma_numeric_message_id(
    formatter: Formatter5424,
    severity: Severity,
    now: Timestamp,
    number: u32,
    numeral: String,
    data: StructuredData,
    message: &str,
)
    requires
        numeral@ == decimal(number as nat),
    ensures
        formatter.rendered(severity, now, (number, data, message)) == formatter.rendered(
            severity,
            now,
            (Some(numeral), data, message),
        ),
        message_id_field(Some(numeral@)) == decimal(number as nat),
{
    lemma_decimal_is_message_id(number);
}

/// What begins a text still begins it when more is added at its end.
proof fn lemma_prefix_grows(head: Seq<char>, text: Seq<char>, more: Seq<char>)
    requires
        head.is_prefix_of(text),
    ensures
        head.is_prefix_of(text + more),
{
    assert(head =~= (text + more).subrange(0, head.len() as int));
}

/// Every RFC 5424 line begins with the PRI part, the version `1` and a
/// space; every BSD line begins with the PRI part.
pub proof fn lemma_lines_begin_with_priority(
    bsd: Formatter3164,
    structured: Formatter5424,
    severity: Severity,
    now: Timestamp,
    message_id: Option<Seq<char>>,
    data: Seq<(Seq<char>, Seq<(Seq<char>, Seq<char>)>)>,
    message: Seq<char>,
)
    ensures
        pri_text(severity, bsd.facility).is_prefix_of(bsd.line(severity, now, message)),
        (pri_text(severity, structured.facility) + seq!['1', ' ']).is_prefix_of(
            structured.line(severity, now, message_id, data, message),
        ),
{
    let pri = pri_text(severity, bsd.facility);
    assert(pri.is_prefix_of(pri)) by {
        assert(pri =~= pri.subrange(0, pri.len() as int));
    }
    let b1 = pri + rfc3164_stamp_text(now);
    lemma_prefix_grows(pri, pri, rfc3164_stamp_text(now));
    let b2 = b1 + seq![' '];
    lemma_prefix_grows(pri, b1, seq![' ']);
    let b3 = match bsd.hostname {
        Some(host) => {
            lemma_prefix_grows(pri, b2, host@);
            lemma_prefix_grows(pri, b2 + host@, seq![' ']);
            b2 + host@ + seq![' ']
        },
        None => b2,
    };
    let b4 = b3 + bsd.process@;
    lemma_prefix_grows(pri, b3, bsd.process@);
    let b5 = b4 + seq!['['];
    lemma_prefix_grows(pri, b4, seq!['[']);
    let b6 = b5 + decimal(bsd.pid as nat);
    lemma_prefix_grows(pri, b5, decimal(bsd.pid as nat));
    let b7 = b6 + seq![']', ':', ' '];
    lemma_prefix_grows(pri, b6, seq![']', ':', ' ']);
    lemma_prefix_grows(pri, b7, message);
    assert(bsd.line(severity, now, message) == b7 + message);

    let head = pri_text(severity, structured.facility) + seq!['1', ' '];
    assert(head.is_prefix_of(head)) by {
        assert(head =~= head.subrange(0, head.len() as int));
    }
    let s1 = head + rfc3339_stamp_text(now.floor_to_micros());
    lemma_prefix_grows(head, head, rfc3339_stamp_text(now.floor_to_micros()));
    let s2 = s1 + seq![' '];
    lemma_prefix_grows(head, s1, seq![' ']);
    let s3 = s2 + host_field(text_of(structured.hostname));
    lemma_prefix_grows(head, s2, host_field(text_of(structured.hostname)));
    let s4 = s3 + seq![' '];
    lemma_prefix_grows(head, s3, seq![' ']);
    let s5 = s4 + structured.process@;
    lemma_prefix_grows(head, s4, structured.process@);
    let s6 = s5 + seq![' '];
    lemma_prefix_grows(head, s5, seq![' ']);
    let s7 = s6 + decimal(structured.pid as nat);
    lemma_prefix_grows(head, s6, decimal(structured.pid as nat));
    let s8 = s7 + seq![' '];
    lemma_prefix_grows(head, s7, seq![' ']);
    let s9 = s8 + message_id_field(message_id);
    lemma_prefix_grows(head, s8, message_id_field(message_id));
    let s10 = s9 + seq![' '];
    lemma_prefix_grows(head, s9, seq![' ']);
    let s11 = s10 + structured_data_text(data);
    lemma_prefix_grows(head, s10, structured_data_text(data));
    let s12 = s11 + seq![' '];
    lemma_prefix_grows(head, s11, seq![' ']);
    lemma_prefix_grows(head, s12, message);
    assert(structured.line(severity, now, message_id, data, message) == s12 + message);
}

} // verus!
