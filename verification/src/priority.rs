//! Severity levels, facility codes, and the PRI value that combines them.

use vstd::prelude::*;

verus! {

/// The PRI value of a syslog message: facility code and severity code in
/// one byte.
pub type Priority = u8;

/// The eight severity levels, from most to least urgent.
#[allow(non_camel_case_types)]
#[derive(Copy, Clone, Debug, PartialEq, Eq, Structural)]
pub enum Severity {
    LOG_EMERG,
    LOG_ALERT,
    LOG_CRIT,
    LOG_ERR,
    LOG_WARNING,
    LOG_NOTICE,
    LOG_INFO,
    LOG_DEBUG,
}

/// The syslog facilities. Each code is the facility number already shifted
/// left by three bits, so that the low three bits are free for a severity.
#[allow(non_camel_case_types)]
#[derive(Copy, Clone, Debug, PartialEq, Eq, Structural)]
pub enum Facility {
    LOG_KERN,
    LOG_USER,
    LOG_MAIL,
    LOG_DAEMON,
    LOG_AUTH,
    LOG_SYSLOG,
    LOG_LPR,
    LOG_NEWS,
    LOG_UUCP,
    LOG_CRON,
    LOG_AUTHPRIV,
    LOG_FTP,
    LOG_LOCAL0,
    LOG_LOCAL1,
    LOG_LOCAL2,
    LOG_LOCAL3,
    LOG_LOCAL4,
    LOG_LOCAL5,
    LOG_LOCAL6,
    LOG_LOCAL7,
}

impl Severity {
    /// The numeric code of the level, 0 (emergency) to 7 (debug).
    pub open spec fn spec_code(self) -> u8 {
        match self {
            Severity::LOG_EMERG => 0,
            Severity::LOG_ALERT => 1,
            Severity::LOG_CRIT => 2,
            Severity::LOG_ERR => 3,
            Severity::LOG_WARNING => 4,
            Severity::LOG_NOTICE => 5,
            Severity::LOG_INFO => 6,
            Severity::LOG_DEBUG => 7,
        }
    }

    #[verifier::when_used_as_spec(spec_code)]
    pub fn code(self) -> (c: u8)
        ensures
            c == self.spec_code(),
            c <= 7,
    {
        match self {
            Severity::LOG_EMERG => 0,
            Severity::LOG_ALERT => 1,
            Severity::LOG_CRIT => 2,
            Severity::LOG_ERR => 3,
            Severity::LOG_WARNING => 4,
            Severity::LOG_NOTICE => 5,
            Severity::LOG_INFO => 6,
            Severity::LOG_DEBUG => 7,
        }
    }
}

impl Facility {
    /// The facility number, 0 to 11 for the system facilities and 16 to 23
    /// for the local ones.
    pub open spec fn number(self) -> u8 {
        match self {
            Facility::LOG_KERN => 0,
            Facility::LOG_USER => 1,
            Facility::LOG_MAIL => 2,
            Facility::LOG_DAEMON => 3,
            Facility::LOG_AUTH => 4,
            Facility::LOG_SYSLOG => 5,
            Facility::LOG_LPR => 6,
            Facility::LOG_NEWS => 7,
            Facility::LOG_UUCP => 8,
            Facility::LOG_CRON => 9,
            Facility::LOG_AUTHPRIV => 10,
            Facility::LOG_FTP => 11,
            Facility::LOG_LOCAL0 => 16,
            Facility::LOG_LOCAL1 => 17,
            Facility::LOG_LOCAL2 => 18,
            Facility::LOG_LOCAL3 => 19,
            Facility::LOG_LOCAL4 => 20,
            Facility::LOG_LOCAL5 => 21,
            Facility::LOG_LOCAL6 => 22,
            Facility::LOG_LOCAL7 => 23,
        }
    }

    /// The code as it enters the PRI value: eight times the facility number.
    pub open spec fn spec_code(self) -> u8 {
        (8 * self.number()) as u8
    }

    #[verifier::when_used_as_spec(spec_code)]
    pub fn code(self) -> (c: u8)
        ensures
            c == self.spec_code(),
            c == 8 * self.number(),
            c <= 184,
    {
        match self {
            Facility::LOG_KERN => 0,
            Facility::LOG_USER => 8,
            Facility::LOG_MAIL => 16,
            Facility::LOG_DAEMON => 24,
            Facility::LOG_AUTH => 32,
            Facility::LOG_SYSLOG => 40,
            Facility::LOG_LPR => 48,
            Facility::LOG_NEWS => 56,
            Facility::LOG_UUCP => 64,
            Facility::LOG_CRON => 72,
            Facility::LOG_AUTHPRIV => 80,
            Facility::LOG_FTP => 88,
            Facility::LOG_LOCAL0 => 128,
            Facility::LOG_LOCAL1 => 136,
            Facility::LOG_LOCAL2 => 144,
            Facility::LOG_LOCAL3 => 152,
            Facility::LOG_LOCAL4 => 160,
            Facility::LOG_LOCAL5 => 168,
            Facility::LOG_LOCAL6 => 176,
            Facility::LOG_LOCAL7 => 184,
        }
    }
}

impl Default for Facility {
    /// The facility of a program that names none: `LOG_USER`.
    fn default() -> (f: Self)
        ensures
            f == Facility::LOG_USER,
    {
        Facility::LOG_USER
    }
}

/// The PRI value of a severity and a facility: the bitwise OR of their
/// codes.
pub open spec fn priority_of(severity: Severity, facility: Facility) -> u8 {
    facility.spec_code() | severity.spec_code()
}

/// A multiple of eight below 256 shares no bit with a number below eight, so
/// OR-ing the two adds them.
pub proof fn lemma_or_is_sum(high: u8, low: u8)
    requires
        high % 8 == 0,
        low < 8,
    ensures
        high | low == high + low,
{
    assert(high % 8 == 0 && low < 8 ==> (high | low) == high + low) by (bit_vector);
}

/// The PRI value is the facility code plus the severity code, and lies
/// between 0 and 191. Facility and severity can both be read back from it.
pub proof fn lemma_priority_bounds(severity: Severity, facility: Facility)
    ensures
        priority_of(severity, facility) == 8 * facility.number() + severity.spec_code(),
        0 <= priority_of(severity, facility) <= 191,
        priority_of(severity, facility) / 8 == facility.number(),
        priority_of(severity, facility) % 8 == severity.spec_code(),
{
    lemma_or_is_sum(facility.spec_code(), severity.spec_code());
}

/// Two pairs with the same PRI value are the same pair.
pub proof fn lemma_priority_injective(s1: Severity, f1: Facility, s2: Severity, f2: Facility)
    requires
        priority_of(s1, f1) == priority_of(s2, f2),
    ensures
        s1 == s2,
        f1 == f2,
{
    lemma_priority_bounds(s1, f1);
    lemma_priority_bounds(s2, f2);
}

/// Combines a severity and a facility into the PRI value.
pub fn encode_priority(severity: Severity, facility: Facility) -> (p: Priority)
    ensures
        p == priority_of(severity, facility),
        p == facility.spec_code() | severity.spec_code(),
        p <= 191,
{
    proof {
        lemma_priority_bounds(severity, facility);
    }
    facility.code() | severity.code()
}

} // verus!
