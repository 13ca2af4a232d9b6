//! Configuration changes that the server orders.
use vstd::prelude::*;

use crate::config_store::{RunnerSettings, SettingsView};
use crate::text;

verus! {

/// An order to change the configuration.
#[derive(Debug)]
pub struct RunnerRefreshConfigMessage {
    pub runner_id: u64,
    pub labels: Option<Vec<String>>,
    pub runner_group: Option<String>,
    pub runner_group_id: Option<i32>,
}

/// The settings once the order is carried out: only the runner group can change.
pub open spec fn refreshed(
    settings: SettingsView,
    group: Option<Seq<char>>,
    group_id: Option<i32>,
) -> SettingsView {
    SettingsView {
        pool_name: match group {
            Some(name) => name,
            None => settings.pool_name,
        },
        pool_id: match group_id {
            Some(id) => id,
            None => settings.pool_id,
        },
        ..settings
    }
}

/// The order changes something.
pub open spec fn changes(
    settings: SettingsView,
    group: Option<Seq<char>>,
    group_id: Option<i32>,
) -> bool {
    ||| group is Some && group->0 != settings.pool_name
    ||| group_id is Some && group_id->0 != settings.pool_id
}

/// Carries out configuration changes.
pub struct RunnerConfigUpdater;

impl RunnerConfigUpdater {
    /// The new settings, to be saved, after which the runner is to restart. `None` if nothing
    /// changes; a runner that is not configured has no settings to change.
    pub fn process_config_refresh(
        settings: &Option<RunnerSettings>,
        message: &RunnerRefreshConfigMessage,
    ) -> (r: Option<RunnerSettings>)
        ensures
            match (*settings, r) {
                (None, updated) => updated is None,
                (Some(current), None) => !changes(
                    current@,
                    text::view_option(message.runner_group),
                    message.runner_group_id,
                ),
                (Some(current), Some(updated)) => {
                    &&& changes(
                        current@,
                        text::view_option(message.runner_group),
                        message.runner_group_id,
                    )
                    &&& updated@ == refreshed(
                        current@,
                        text::view_option(message.runner_group),
                        message.runner_group_id,
                    )
                },
            },
    {
        let current = match settings {
            Some(current) => current,
            None => return None,
        };
        let mut next = current.duplicate();
        let mut updated = false;
        if let Some(group) = &message.runner_group {
            if !text::same(next.pool_name.as_str(), group.as_str()) {
                next.pool_name = group.clone();
                updated = true;
            }
        }
        if let Some(id) = message.runner_group_id {
            if next.pool_id != id {
                next.pool_id = id;
                updated = true;
            }
        }
        if updated {
            Some(next)
        } else {
            None
        }
    }
}

/// An order that is carried out changes nothing when it is carried out again, and it changes
/// the settings if and only if it is said to.
pub proof fn law_refresh_settles(
    settings: SettingsView,
    group: Option<Seq<char>>,
    group_id: Option<i32>,
)
    ensures
        !changes(refreshed(settings, group, group_id), group, group_id),
        changes(settings, group, group_id) <==> refreshed(settings, group, group_id) != settings,
{
}

/// An order sets the group's name and id to what it names, leaves what it does not name, and
/// changes no other setting.
pub proof fn law_refresh_sets_what_is_named(
    settings: SettingsView,
    group: Option<Seq<char>>,
    group_id: Option<i32>,
    name: Seq<char>,
    id: i32,
)
    ensures
        ({
            let after = refreshed(settings, group, group_id);
            &&& group == Some(name) ==> after.pool_name == name
            &&& group is None ==> after.pool_name == settings.pool_name
            &&& group_id == Some(id) ==> after.pool_id == id
            &&& group_id is None ==> after.pool_id == settings.pool_id
            &&& after.agent_id == settings.agent_id
            &&& after.agent_name == settings.agent_name
            &&& after.skip_session_recover == settings.skip_session_recover
            &&& after.disable_update == settings.disable_update
            &&& after.is_ephemeral == settings.is_ephemeral
            &&& after.server_url == settings.server_url
            &&& after.git_hub_url == settings.git_hub_url
            &&& after.work_folder == settings.work_folder
            &&& after.monitor_socket_address == settings.monitor_socket_address
            &&& after.use_v2_flow == settings.use_v2_flow
            &&& after.use_runner_admin_flow == settings.use_runner_admin_flow
            &&& after.server_url_v2 == settings.server_url_v2
            &&& after.is_hosted_server == settings.is_hosted_server
        }),
{
}

} // verus!
