//! Process-wide configuration: loaded once at startup by the shell around
//! this library, validated and assembled here, and passed by reference into
//! the components that need it, never re-read or mutated.
use vstd::prelude::*;
use vstd::string::StrSliceExecFns;

verus! {

/// The settings this core reads: the developer's conversation identifier,
/// the administrators' identifiers, and the bot identity used to build
/// shareable deep links.
pub struct Config {
    pub dev: u64,
    pub admins: Vec<u64>,
    pub bot_username: String,
}

impl Config {
    /// A valid bot username never opens with '@'.
    pub open spec fn wf(self) -> bool {
        !(self.bot_username@.len() > 0 && self.bot_username@[0] == '@')
    }

    /// Assembles validated configuration from raw settings: the developer
    /// joins the administrator list, and a bot username opening with '@'
    /// is rejected.
    pub fn assemble(dev: u64, admins: Vec<u64>, bot_username: String) -> (r: Option<Config>)
        ensures
            match r {
                Some(c) => {
                    &&& c.dev == dev
                    &&& c.admins@ == admins@.push(dev)
                    &&& c.bot_username@ == bot_username@
                    &&& c.wf()
                },
                None => bot_username@.len() > 0 && bot_username@[0] == '@',
            },
    {
        let n = bot_username.as_str().unicode_len();
        if n > 0 && bot_username.as_str().get_char(0) == '@' {
            return None;
        }
        let mut admins = admins;
        admins.push(dev);
        Some(Config { dev, admins, bot_username })
    }
}

} // verus!
