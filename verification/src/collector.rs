//! The periodic maintenance of the active-user list, as a state machine.
//!
//! The driver starts it once, then feeds it timer ticks, the results of the
//! repository calls it asks for, and finally the cancellation; after each
//! event it performs the returned action.

use vstd::prelude::*;
use crate::config::{AppConfig, days_before_cleanup, minutes_before_deactivation};

verus! {

/// Something that happened to the collector.
#[derive(Debug)]
pub enum CollectorEvent {
    /// The collector was started.
    Started,
    /// The update interval elapsed.
    UpdateTick,
    /// The cleanup interval elapsed.
    CleanupTick,
    /// Shutdown was requested.
    Cancelled,
    /// The repository answered a request for the active chat ids
    /// (`None`: the request failed).
    ActiveIdsFetched(Option<Vec<String>>),
    /// The repository deactivated silent users (`None`: the request failed).
    OldUsersDeactivated(Option<u64>),
    /// The repository deleted old inactive users (`None`: the request failed).
    OldUsersCleanedUp(Option<u64>),
}

/// What the driver does next.
#[derive(Clone, Copy, PartialEq, Eq, Structural, Debug)]
pub enum CollectorAction {
    /// Ask the repository for the active chat ids.
    FetchActiveIds,
    /// Ask the repository to deactivate users silent for this many minutes.
    DeactivateOldUsers { timeout_minutes: i64 },
    /// Ask the repository to delete users inactive for this many days.
    CleanupOldUsers { days: i64 },
    /// Wait for the next event.
    Wait,
    /// Stop the collector.
    Stop,
}

/// Keeps the list of active chat ids up to date. Its view is that list.
pub struct UserCollector {
    cfg: AppConfig,
    active_users: Vec<String>,
}

impl View for UserCollector {
    type V = Seq<String>;

    closed spec fn view(&self) -> Seq<String> {
        self.active_users@
    }
}

impl UserCollector {
    /// The configuration the collector runs with.
    pub closed spec fn config(&self) -> AppConfig {
        self.cfg
    }

    /// A collector with no active users yet.
    pub fn new(cfg: AppConfig) -> (r: UserCollector)
        ensures
            r@ == Seq::<String>::empty(),
            r.config() == cfg,
    {
        UserCollector { cfg, active_users: Vec::new() }
    }

    /// The current list of active chat ids.
    pub fn get_active_ids(&self) -> (r: Vec<String>)
        ensures
            r@ == self@,
    {
        let n = self.active_users.len();
        let mut out: Vec<String> = Vec::with_capacity(n);
        let mut i: usize = 0;
        while i < n
            invariant
                n == self.active_users@.len(),
                i <= n,
                out@ == self.active_users@.subrange(0, i as int),
            decreases n - i,
        {
            out.push(self.active_users[i].clone());
            i = i + 1;
            assert(out@ =~= self.active_users@.subrange(0, i as int));
        }
        assert(self.active_users@.subrange(0, n as int) =~= self.active_users@);
        out
    }

    /// Handles one event and returns the next action. The list of active ids
    /// changes only when a fetch of the active ids succeeds, and then becomes
    /// exactly the fetched list.
    pub fn handle_event(&mut self, event: CollectorEvent) -> (action: CollectorAction)
        ensures
            final(self).config() == old(self).config(),
            match event {
                CollectorEvent::ActiveIdsFetched(Some(ids)) => final(self)@ == ids@,
                _ => final(self)@ == old(self)@,
            },
            match event {
                CollectorEvent::Started => action == CollectorAction::FetchActiveIds,
                CollectorEvent::UpdateTick => action == (CollectorAction::DeactivateOldUsers {
                    timeout_minutes: minutes_before_deactivation(old(self).config().user_collector) as i64,
                }),
                CollectorEvent::OldUsersDeactivated(_) => action == CollectorAction::FetchActiveIds,
                CollectorEvent::ActiveIdsFetched(_) => action == CollectorAction::Wait,
                CollectorEvent::CleanupTick => action == (CollectorAction::CleanupOldUsers {
                    days: days_before_cleanup(old(self).config().user_collector) as i64,
                }),
                CollectorEvent::OldUsersCleanedUp(_) => action == CollectorAction::Wait,
                CollectorEvent::Cancelled => action == CollectorAction::Stop,
            },
            event is UpdateTick ==> (action matches CollectorAction::DeactivateOldUsers {
                timeout_minutes,
            } && timeout_minutes >= 0 && timeout_minutes * 60
                <= old(self).config().user_collector.deactivate_after@ / 1_000_000_000
                < (timeout_minutes + 1) * 60),
            event is CleanupTick ==> (action matches CollectorAction::CleanupOldUsers { days } && days
                >= 0 && days * 86400 <= old(self).config().user_collector.cleanup_after@
                / 1_000_000_000 < (days + 1) * 86400),
    {
        match event {
            CollectorEvent::Started => CollectorAction::FetchActiveIds,
            CollectorEvent::UpdateTick => {
                let timeout_minutes = self.cfg.deactivate_after_minutes();
                CollectorAction::DeactivateOldUsers { timeout_minutes }
            },
            CollectorEvent::OldUsersDeactivated(_) => CollectorAction::FetchActiveIds,
            CollectorEvent::ActiveIdsFetched(fetched) => {
                match fetched {
                    Some(ids) => {
                        self.active_users = ids;
                    },
                    None => {},
                }
                CollectorAction::Wait
            },
            CollectorEvent::CleanupTick => {
                let days = self.cfg.cleanup_after_days();
                CollectorAction::CleanupOldUsers { days }
            },
            CollectorEvent::OldUsersCleanedUp(_) => CollectorAction::Wait,
            CollectorEvent::Cancelled => CollectorAction::Stop,
        }
    }
}

/// Whether a chat counts as active after a status lookup: a failed lookup
/// (`None`) counts as inactive.
pub fn active_status(lookup: Option<bool>) -> (r: bool)
    ensures
        r == (lookup == Some(true)),
{
    match lookup {
        Some(b) => b,
        None => false,
    }
}

} // verus!
