//! The settings that the ledger reads from its configuration: whether the
//! ledger was initialized, and the active currency.

use vstd::prelude::*;

verus! {

/// Version of the configuration's layout.
pub const CONFIG_VERSION: u64 = 1;

#[derive(Clone, Copy, Debug, PartialEq, Eq, Structural)]
pub struct Config {
    pub is_user_initialized: bool,
    pub currency_id: i32,
}

impl Default for Config {
    /// Not initialized, with currency 1 active.
    fn default() -> (r: Config)
        ensures
            r == (Config { is_user_initialized: false, currency_id: 1 }),
    {
        Config { is_user_initialized: false, currency_id: 1 }
    }
}

} // verus!
