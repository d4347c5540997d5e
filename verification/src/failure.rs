//! The ways in which a run can fail.

use vstd::prelude::*;

verus! {

/// Why a run stopped without a report.
#[derive(Clone, Copy, Debug, PartialEq, Eq, Structural)]
pub enum Failure {
    /// There is no configuration file where one was expected.
    ConfigMissing,
    /// The configuration file or its directory could not be read, written or created.
    ConfigIo,
    /// The configuration file is not a well-formed document of the expected shape.
    ConfigParse,
    /// A currency code or name that the registry does not hold.
    InvalidCurrencyCode,
    /// No exchange rate could be had: no credential, no answer, or no rate in the answer.
    RateUnavailable,
    /// The user aborted a prompt.
    UserCancelled,
    /// An amount does not fit the machine's integers.
    AmountOutOfRange,
    /// What was typed for an amount is no decimal number.
    InvalidAmount,
}

/// What a failure is reported as.
pub open spec fn message_of(failure: Failure) -> Seq<char> {
    match failure {
        Failure::ConfigMissing => "the config file does not exist yet: run the config subcommand first"@,
        Failure::ConfigIo => "the config file or its directory could not be read or written"@,
        Failure::ConfigParse => "the config file is malformed"@,
        Failure::InvalidCurrencyCode => "the currency is not supported"@,
        Failure::RateUnavailable => "the exchange rate is not available"@,
        Failure::UserCancelled => "cancelled"@,
        Failure::AmountOutOfRange => "the amount is out of range"@,
        Failure::InvalidAmount => "the amount is not a decimal number"@,
    }
}

impl Failure {
    /// The text to report this failure with.
    pub fn message(&self) -> (text: &'static str)
        ensures
            text@ == message_of(*self),
    {
        match self {
            Failure::ConfigMissing => "the config file does not exist yet: run the config subcommand first",
            Failure::ConfigIo => "the config file or its directory could not be read or written",
            Failure::ConfigParse => "the config file is malformed",
            Failure::InvalidCurrencyCode => "the currency is not supported",
            Failure::RateUnavailable => "the exchange rate is not available",
            Failure::UserCancelled => "cancelled",
            Failure::AmountOutOfRange => "the amount is out of range",
            Failure::InvalidAmount => "the amount is not a decimal number",
        }
    }

    /// The process exit status for this failure: never zero.
    pub fn exit_status(&self) -> (status: u8)
        ensures
            status != 0,
            status == 1,
    {
        1
    }
}

} // verus!
