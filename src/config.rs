use vstd::prelude::*;

verus! {

/// Where forwarded events are sent.
pub struct DiscordConfig {
    pub webhook_url: String,
}

impl DiscordConfig {
    pub fn new(webhook_url: String) -> (r: Self)
        ensures
            r.webhook_url == webhook_url,
    {
        DiscordConfig { webhook_url }
    }
}

} // verus!
