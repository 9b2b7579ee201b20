//! The state of the extensions panel and how it takes in the progress that
//! running install jobs report.
use vstd::prelude::*;

use super::installer::{status_log_line, workspace_status_to_log, InstallStatus, WorkspaceStatus};
use crate::text::texts;

verus! {

pub struct ExtensionsPanel {
    pub search_query: String,
    pub install_url: String,
    /// An install from a URL is running.
    pub install_running: bool,
    pub install_status: InstallStatus,
    pub local_install_running: bool,
    pub local_install_status: InstallStatus,
    pub generate_name: String,
    pub generate_path: String,
    pub template_message: Option<Result<String, String>>,
    pub workspace_path: String,
    /// A workspace install is running.
    pub workspace_running: bool,
    pub workspace_status: WorkspaceStatus,
    pub workspace_log: Vec<String>,
    pub git_group_url: String,
    /// A git-group install is running.
    pub git_group_running: bool,
    pub git_group_status: WorkspaceStatus,
    pub git_group_log: Vec<String>,
    /// The last status reported for each extension being updated.
    pub update_statuses: Vec<(String, InstallStatus)>,
    /// Set when an installation completed; the app then reloads its plugins.
    pub plugins_changed: bool,
}

/// A status that ends a job.
pub open spec fn install_finished(s: InstallStatus) -> bool {
    s is Done || s is Failed
}

/// A status that ends a workspace job.
pub open spec fn workspace_finished(s: WorkspaceStatus) -> bool {
    s is Done || s is Failed
}

/// Every status of a batch can be logged.
pub open spec fn loggable(statuses: Seq<WorkspaceStatus>) -> bool {
    forall|i: int|
        0 <= i < statuses.len() ==> ((#[trigger] statuses[i]) matches WorkspaceStatus::Installing { done, .. } ==> done
            < usize::MAX)
}

/// The log after a batch of statuses: each non-empty log line, in order.
pub open spec fn logged(log: Seq<Seq<char>>, statuses: Seq<WorkspaceStatus>) -> Seq<Seq<char>>
    decreases statuses.len(),
{
    if statuses.len() == 0 {
        log
    } else {
        let before = logged(log, statuses.drop_last());
        let line = status_log_line(statuses.last());
        if line.len() > 0 {
            before.push(line)
        } else {
            before
        }
    }
}

/// How the last ending status of a batch ended it: `Some(true)` when done,
/// `Some(false)` when failed, `None` when no status ended it.
pub open spec fn batch_outcome(statuses: Seq<WorkspaceStatus>) -> Option<bool>
    decreases statuses.len(),
{
    if statuses.len() == 0 {
        None
    } else if workspace_finished(statuses.last()) {
        Some(statuses.last() is Done)
    } else {
        batch_outcome(statuses.drop_last())
    }
}

/// The texts of the update statuses' ids.
pub open spec fn update_ids(v: Seq<(String, InstallStatus)>) -> Seq<Seq<char>> {
    v.map_values(|p: (String, InstallStatus)| p.0@)
}

/// Takes a batch of statuses into a log and the current status; returns how
/// the batch ended the job, if it did.
fn take_workspace_batch(log: &mut Vec<String>, status: &mut WorkspaceStatus, statuses: Vec<WorkspaceStatus>) -> (r: Option<bool>)
    requires
        loggable(statuses@),
    ensures
        texts(final(log)@) == logged(texts(old(log)@), statuses@),
        statuses@.len() > 0 ==> *final(status) == statuses@.last(),
        statuses@.len() == 0 ==> *final(status) == *old(status),
        r == batch_outcome(statuses@),
{
    let mut outcome: Option<bool> = None;
    let mut i: usize = 0;
    let n = statuses.len();
    let mut rest = statuses;
    let mut taken: Vec<WorkspaceStatus> = Vec::new();
    let ghost all = rest@;
    while i < n
        invariant
            n == all.len(),
            i <= n,
            loggable(all),
            rest@ == all.skip(i as int),
            texts(log@) == logged(texts(old(log)@), all.take(i as int)),
            i > 0 ==> *status == all[i - 1],
            i == 0 ==> *status == *old(status),
            outcome == batch_outcome(all.take(i as int)),
        decreases n - i,
    {
        let s = rest.remove(0);
        proof {
            assert(s == all[i as int]);
            assert(rest@ =~= all.skip(i + 1));
            assert(all.take(i + 1).drop_last() =~= all.take(i as int));
            assert(all.take(i + 1).last() == all[i as int]);
        }
        let line = workspace_status_to_log(&s);
        if crate::text::str_chars(line.as_str()).len() > 0 {
            let ghost before = log@;
            log.push(line);
            proof {
                assert(texts(log@) =~= texts(before).push(line@));
            }
        }
        let finished = match &s {
            WorkspaceStatus::Done { .. } => true,
            WorkspaceStatus::Failed(_) => true,
            _ => false,
        };
        if finished {
            outcome = Some(
                match &s {
                    WorkspaceStatus::Done { .. } => true,
                    _ => false,
                },
            );
        }
        *status = s;
        i += 1;
    }
    proof {
        assert(all.take(n as int) =~= all);
    }
    outcome
}

impl ExtensionsPanel {
    /// A fresh panel; new extensions are generated under `generate_path`.
    pub fn new(generate_path: String) -> (p: Self)
        ensures
            p.generate_path == generate_path,
            p.search_query@.len() == 0 && p.install_url@.len() == 0 && p.generate_name@.len() == 0,
            p.workspace_path@.len() == 0 && p.git_group_url@.len() == 0,
            !p.install_running && !p.local_install_running && !p.workspace_running && !p.git_group_running,
            p.install_status is Idle && p.local_install_status is Idle,
            p.workspace_status is Idle && p.git_group_status is Idle,
            p.template_message is None,
            p.workspace_log@.len() == 0 && p.git_group_log@.len() == 0 && p.update_statuses@.len() == 0,
            !p.plugins_changed,
    {
        ExtensionsPanel {
            search_query: String::new(),
            install_url: String::new(),
            install_running: false,
            install_status: InstallStatus::Idle,
            local_install_running: false,
            local_install_status: InstallStatus::Idle,
            generate_name: String::new(),
            generate_path,
            template_message: None,
            workspace_path: String::new(),
            workspace_running: false,
            workspace_status: WorkspaceStatus::Idle,
            workspace_log: Vec::new(),
            git_group_url: String::new(),
            git_group_running: false,
            git_group_status: WorkspaceStatus::Idle,
            git_group_log: Vec::new(),
            update_statuses: Vec::new(),
            plugins_changed: false,
        }
    }

    /// Takes a status of the install from a URL. A finished job stops; a
    /// successful one clears the URL and marks the plugins changed. Returns
    /// whether the installed extensions are to be loaded again.
    pub fn on_install_status(&mut self, status: InstallStatus) -> (reload: bool)
        ensures
            reload == (status is Done),
            final(self).install_status == status,
            final(self).install_running == (old(self).install_running && !install_finished(status)),
            reload ==> final(self).install_url@.len() == 0,
            !reload ==> final(self).install_url == old(self).install_url,
            final(self).plugins_changed == (old(self).plugins_changed || reload),
            final(self).workspace_log == old(self).workspace_log,
            final(self).git_group_log == old(self).git_group_log,
            final(self).update_statuses == old(self).update_statuses,
            *final(self) == (ExtensionsPanel {
                install_status: final(self).install_status,
                install_running: final(self).install_running,
                install_url: final(self).install_url,
                plugins_changed: final(self).plugins_changed,
                ..*old(self)
            }),
    {
        let done = match &status {
            InstallStatus::Done => true,
            InstallStatus::Failed(_) => true,
            _ => false,
        };
        let success = match &status {
            InstallStatus::Done => true,
            _ => false,
        };
        if success {
            self.install_url = String::new();
        }
        self.install_status = status;
        if done {
            self.install_running = false;
            if success {
                self.plugins_changed = true;
            }
        }
        success
    }

    /// Takes the statuses a workspace install reported since the last look:
    /// their log lines are kept, the last becomes the current status, and a
    /// batch that ends the job stops it (marking the plugins changed when it
    /// succeeded). Returns whether the installed extensions are to be loaded again.
    pub fn on_workspace_statuses(&mut self, statuses: Vec<WorkspaceStatus>) -> (reload: bool)
        requires
            loggable(statuses@),
        ensures
            texts(final(self).workspace_log@) == logged(texts(old(self).workspace_log@), statuses@),
            statuses@.len() > 0 ==> final(self).workspace_status == statuses@.last(),
            statuses@.len() == 0 ==> final(self).workspace_status == old(self).workspace_status,
            reload == (batch_outcome(statuses@) == Some(true)),
            final(self).workspace_running == (old(self).workspace_running && batch_outcome(statuses@) is None),
            final(self).plugins_changed == (old(self).plugins_changed || reload),
            final(self).git_group_log == old(self).git_group_log,
            *final(self) == (ExtensionsPanel {
                workspace_log: final(self).workspace_log,
                workspace_status: final(self).workspace_status,
                workspace_running: final(self).workspace_running,
                plugins_changed: final(self).plugins_changed,
                ..*old(self)
            }),
    {
        let outcome = take_workspace_batch(&mut self.workspace_log, &mut self.workspace_status, statuses);
        match outcome {
            Some(ok) => {
                self.workspace_running = false;
                if ok {
                    self.plugins_changed = true;
                }
                ok
            },
            None => false,
        }
    }

    /// As `on_workspace_statuses`, for the install of a group of extensions
    /// from a git repository.
    pub fn on_git_group_statuses(&mut self, statuses: Vec<WorkspaceStatus>) -> (reload: bool)
        requires
            loggable(statuses@),
        ensures
            texts(final(self).git_group_log@) == logged(texts(old(self).git_group_log@), statuses@),
            statuses@.len() > 0 ==> final(self).git_group_status == statuses@.last(),
            statuses@.len() == 0 ==> final(self).git_group_status == old(self).git_group_status,
            reload == (batch_outcome(statuses@) == Some(true)),
            final(self).git_group_running == (old(self).git_group_running && batch_outcome(statuses@) is None),
            final(self).plugins_changed == (old(self).plugins_changed || reload),
            final(self).workspace_log == old(self).workspace_log,
            *final(self) == (ExtensionsPanel {
                git_group_log: final(self).git_group_log,
                git_group_status: final(self).git_group_status,
                git_group_running: final(self).git_group_running,
                plugins_changed: final(self).plugins_changed,
                ..*old(self)
            }),
    {
        let outcome = take_workspace_batch(&mut self.git_group_log, &mut self.git_group_status, statuses);
        match outcome {
            Some(ok) => {
                self.git_group_running = false;
                if ok {
                    self.plugins_changed = true;
                }
                ok
            },
            None => false,
        }
    }

    /// Records the status an update of extension `id` reported. Returns
    /// whether the update finished, and whether it succeeded (the installed
    /// extensions are then loaded again and checked for updates).
    pub fn on_update_status(&mut self, id: String, status: InstallStatus) -> (r: (bool, bool))
        ensures
            r.0 == install_finished(status),
            r.1 == (status is Done),
            final(self).plugins_changed == (old(self).plugins_changed || r.1),
            update_ids(final(self).update_statuses@).contains(id@),
            forall|k: int|
                0 <= k < final(self).update_statuses@.len() && (#[trigger] final(self).update_statuses@[k]).0@ == id@
                    ==> final(self).update_statuses@[k].1 == status,
            forall|x: Seq<char>| x != id@ ==> (update_ids(final(self).update_statuses@).contains(x) <==> update_ids(
                old(self).update_statuses@,
            ).contains(x)),
            final(self).update_statuses@ == old(self).update_statuses@.filter(|e: (String, InstallStatus)| e.0@ != id@).push(
                (id, status),
            ),
            *final(self) == (ExtensionsPanel {
                update_statuses: final(self).update_statuses,
                plugins_changed: final(self).plugins_changed,
                ..*old(self)
            }),
    {
        let finished = match &status {
            InstallStatus::Done => true,
            InstallStatus::Failed(_) => true,
            _ => false,
        };
        let success = match &status {
            InstallStatus::Done => true,
            _ => false,
        };
        let mut kept: Vec<(String, InstallStatus)> = Vec::new();
        let mut old_list: Vec<(String, InstallStatus)> = Vec::new();
        std::mem::swap(&mut old_list, &mut self.update_statuses);
        let ghost all = old_list@;
        let ghost pred = |e: (String, InstallStatus)| e.0@ != id@;
        let n = old_list.len();
        let mut i: usize = 0;
        while i < n
            invariant
                n == all.len(),
                i <= n,
                old_list@ == all.skip(i as int),
                all == old(self).update_statuses@,
                forall|k: int| 0 <= k < kept@.len() ==> (#[trigger] kept@[k]).0@ != id@,
                forall|x: Seq<char>| x != id@ ==> (update_ids(kept@).contains(x) <==> update_ids(all.take(i as int)).contains(x)),
                pred == (|e: (String, InstallStatus)| e.0@ != id@),
                kept@ == all.take(i as int).filter(pred),
                self.update_statuses@.len() == 0,
                *self == (ExtensionsPanel { update_statuses: self.update_statuses, ..*old(self) }),
            decreases n - i,
        {
            let e = old_list.remove(0);
            proof {
                assert(e == all[i as int]);
                assert(old_list@ =~= all.skip(i + 1));
                assert(all.take(i + 1) =~= all.take(i as int).push(e));
                assert(update_ids(all.take(i + 1)) =~= update_ids(all.take(i as int)).push(e.0@));
                assert forall|x: Seq<char>| #[trigger] update_ids(all.take(i + 1)).contains(x) == (update_ids(all.take(i as int)).contains(x) || x == e.0@) by {
                    vstd::seq_lib::lemma_seq_contains_after_push(update_ids(all.take(i as int)), e.0@, x);
                }
            }
            let ghost before_kept = kept@;
            let same = crate::text::chars_eq(&crate::text::str_chars(e.0.as_str()), &crate::text::str_chars(id.as_str()));
            if same {
            } else {
                let ghost before = kept@;
                kept.push(e);
                proof {
                    assert(update_ids(kept@) =~= update_ids(before).push(e.0@));
                    assert forall|x: Seq<char>| #[trigger] update_ids(kept@).contains(x) == (update_ids(before).contains(x) || x == e.0@) by {
                        vstd::seq_lib::lemma_seq_contains_after_push(update_ids(before), e.0@, x);
                    }
                }
            }
            proof {
                reveal(Seq::filter);
                assert(all.take(i + 1).drop_last() =~= all.take(i as int));
                assert(all.take(i + 1).last() == e);
                assert(pred(e) == !same);
                if !same {
                    assert(kept@ == before_kept.push(e));
                }
                assert(kept@ == all.take(i + 1).filter(pred));
            }
            i += 1;
        }
        proof {
            assert(all.take(n as int) =~= all);
        }
        let ghost before = kept@;
        kept.push((id, status));
        proof {
            assert(update_ids(kept@) =~= update_ids(before).push(id@));
            assert(update_ids(kept@)[before.len() as int] == id@);
            assert forall|x: Seq<char>| #[trigger] update_ids(kept@).contains(x) == (update_ids(before).contains(x) || x == id@) by {
                vstd::seq_lib::lemma_seq_contains_after_push(update_ids(before), id@, x);
            }
        }
        self.update_statuses = kept;
        if success {
            self.plugins_changed = true;
        }
        (finished, success)
    }
}

} // verus!
