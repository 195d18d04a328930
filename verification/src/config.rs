//! Configuration read from a file: the account and sub-account to use, and
//! the settings of the bot that runs.
use vstd::prelude::*;

verus! {

/// A bot's configuration: the numbers of the account and sub-account it
/// trades with, and its own settings.
#[derive(Debug)]
pub struct Config<T> {
    pub account_number: u8,
    pub sub_account_number: u8,
    pub inner: T,
}

impl<T: Default> Default for Config<T> {
    /// The first account and sub-account, with the default settings.
    fn default() -> (r: Self)
        ensures
            r.account_number == 0,
            r.sub_account_number == 0,
    {
        Config { account_number: 0, sub_account_number: 0, inner: T::default() }
    }
}

} // verus!
