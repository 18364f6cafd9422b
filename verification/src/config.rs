use vstd::prelude::*;

verus! {

/// Settings of the delayed auto-invite consumer.  The delay is drawn
/// between the two bounds for every join.
pub struct AutoInvite {
    pub enabled: bool,
    pub delay_min: u64,
    pub delay_max: u64,
}

impl Default for AutoInvite {
    fn default() -> (r: AutoInvite)
        ensures
            r.enabled == false,
            r.delay_min == 0,
            r.delay_max == 0,
    {
        AutoInvite { enabled: false, delay_min: 0, delay_max: 0 }
    }
}

/// Settings of the auto-ban consumer.
pub struct AutoBan {
    pub enabled: bool,
    pub log_avatar_id: bool,
}

impl Default for AutoBan {
    fn default() -> (r: AutoBan)
        ensures
            r.enabled == false,
            r.log_avatar_id == false,
    {
        AutoBan { enabled: false, log_avatar_id: false }
    }
}

/// The whole configuration; every field falls back to its default when the
/// configuration file is absent or unreadable.
pub struct Config {
    pub auto_invite: AutoInvite,
    pub auto_ban: AutoBan,
    pub group_id: Option<String>,
    pub avatars_file: Option<String>,
    pub custom_log_dir: Option<String>,
}

impl Default for Config {
    fn default() -> (r: Config)
        ensures
            r.auto_invite.enabled == false,
            r.auto_invite.delay_min == 0,
            r.auto_invite.delay_max == 0,
            r.auto_ban.enabled == false,
            r.auto_ban.log_avatar_id == false,
            r.group_id is None,
            r.avatars_file is None,
            r.custom_log_dir is None,
    {
        Config {
            auto_invite: AutoInvite { enabled: false, delay_min: 0, delay_max: 0 },
            auto_ban: AutoBan { enabled: false, log_avatar_id: false },
            group_id: None,
            avatars_file: None,
            custom_log_dir: None,
        }
    }
}

} // verus!
