//! Discovery of the live process that belongs to a just-started launch.
//!
//! When the launch itself yielded a child process id, discovery is already
//! done. Otherwise the engine is polled with snapshots of the process table:
//! each poll advances its elapsed clock by the search interval, scores every
//! process, and selects the best candidate with a positive score. A poll that
//! starts past the timeout gives up; timing out is not an error — the session
//! simply proceeds unmonitored.

use vstd::prelude::*;

use crate::launcher::spec_is_lnk;
use crate::scorer::{
    is_chosen, score_process_candidate, score_spec, select_best_process, ProcessInfo,
    ProcessSearchConfig,
};

verus! {

/// What one poll of the engine decided.
#[derive(Debug, Clone, Copy, PartialEq, Eq, Structural)]
pub enum DiscoveryStep {
    /// The best-scoring live process: the session will monitor this pid.
    Found(u32),
    /// The timeout elapsed with no candidate in sight.
    TimedOut,
    /// Nothing yet: poll again after the search interval.
    Continue,
}

/// The search path once shortcut resolution has been attempted: a shortcut
/// path is replaced by its resolved target when resolution succeeded and
/// kept as-is when it failed; a plain path is never replaced.
pub open spec fn spec_resolved_target(path: Seq<u8>, resolved: Option<Seq<u8>>) -> Seq<u8> {
    if spec_is_lnk(path) {
        match resolved {
            Some(r) => r,
            None => path,
        }
    } else {
        path
    }
}

/// Fix the executable path the search will compare against: the resolved
/// shortcut target when there is one, the stored path otherwise. Resolution
/// failure never fails discovery.
pub fn resolve_target_path(path: Vec<u8>, resolved: Option<Vec<u8>>) -> (r: Vec<u8>)
    ensures
        r@ == spec_resolved_target(path@, resolved.deep_view()),
{
    if crate::launcher::is_lnk_path(&path) {
        match resolved {
            Some(r) => r,
            None => path,
        }
    } else {
        path
    }
}

/// The scored candidates among the processes from index `i` on, in process
/// order: every process with a positive score, with its pid.
pub open spec fn candidates_from(
    processes: Seq<ProcessInfo>,
    final_exe_path: Seq<u8>,
    game_name: Seq<u8>,
    system_folders: Seq<Seq<u8>>,
    game_folders: Seq<Seq<u8>>,
    i: int,
) -> Seq<(u32, i32)>
    decreases processes.len() - i,
{
    if i < 0 || i >= processes.len() {
        Seq::empty()
    } else {
        let s = score_spec(
            processes[i].exe_path@,
            processes[i].name@,
            final_exe_path,
            game_name,
            system_folders,
            game_folders,
        );
        let rest = candidates_from(
            processes,
            final_exe_path,
            game_name,
            system_folders,
            game_folders,
            i + 1,
        );
        if s > 0 {
            seq![(processes[i].pid, s as i32)] + rest
        } else {
            rest
        }
    }
}

/// The name table for the same candidates: pid and process name of every
/// positively scored process, in process order.
pub open spec fn names_from(
    processes: Seq<ProcessInfo>,
    final_exe_path: Seq<u8>,
    game_name: Seq<u8>,
    system_folders: Seq<Seq<u8>>,
    game_folders: Seq<Seq<u8>>,
    i: int,
) -> Seq<(u32, Seq<u8>)>
    decreases processes.len() - i,
{
    if i < 0 || i >= processes.len() {
        Seq::empty()
    } else {
        let s = score_spec(
            processes[i].exe_path@,
            processes[i].name@,
            final_exe_path,
            game_name,
            system_folders,
            game_folders,
        );
        let rest = names_from(
            processes,
            final_exe_path,
            game_name,
            system_folders,
            game_folders,
            i + 1,
        );
        if s > 0 {
            seq![(processes[i].pid, processes[i].name@)] + rest
        } else {
            rest
        }
    }
}

/// The elapsed clock after one more interval, saturating at the top.
pub open spec fn spec_advance(elapsed: u64, interval: u64) -> u64 {
    if elapsed + interval <= u64::MAX {
        (elapsed + interval) as u64
    } else {
        u64::MAX
    }
}

/// The engine gives up at the start of a poll exactly when its elapsed clock
/// has passed the timeout.
pub open spec fn spec_times_out(elapsed: u64, timeout: u64) -> bool {
    elapsed > timeout
}

/// One discovery search in progress: the pid the launch itself may already
/// have yielded, the path and name to match, the search settings, and how
/// much wall time the polls have consumed so far.
pub struct DiscoveryEngine {
    pub spawned_pid: Option<u32>,
    pub final_exe_path: Vec<u8>,
    pub game_name: Vec<u8>,
    pub config: ProcessSearchConfig,
    pub elapsed_secs: u64,
}

impl DiscoveryEngine {
    /// Start a search for the given resolved path and display name. A
    /// directly spawned launch hands its child pid in, and the search
    /// short-circuits to it.
    pub fn new(
        spawned_pid: Option<u32>,
        final_exe_path: Vec<u8>,
        game_name: Vec<u8>,
        config: ProcessSearchConfig,
    ) -> (r: Self)
        ensures
            r.spawned_pid == spawned_pid,
            r.final_exe_path == final_exe_path,
            r.game_name == game_name,
            r.config == config,
            r.elapsed_secs == 0,
    {
        DiscoveryEngine { spawned_pid, final_exe_path, game_name, config, elapsed_secs: 0 }
    }

    /// One poll: short-circuit to the pid the launch already yielded; give
    /// up when the clock has already passed the timeout; otherwise account
    /// one interval of waiting, score the snapshot, and either report the
    /// selected best candidate or ask to be polled again.
    pub fn poll(&mut self, processes: &Vec<ProcessInfo>) -> (step: DiscoveryStep)
        ensures
            final(self).spawned_pid == old(self).spawned_pid,
            final(self).final_exe_path == old(self).final_exe_path,
            final(self).game_name == old(self).game_name,
            final(self).config == old(self).config,
            match old(self).spawned_pid {
                Some(pid) => step == DiscoveryStep::Found(pid) && final(self).elapsed_secs == old(
                    self,
                ).elapsed_secs,
                None => true,
            },
            old(self).spawned_pid is None && spec_times_out(
                old(self).elapsed_secs,
                old(self).config.search_timeout_secs,
            ) ==> {
                &&& step == DiscoveryStep::TimedOut
                &&& final(self).elapsed_secs == old(self).elapsed_secs
            },
            old(self).spawned_pid is None && !spec_times_out(
                old(self).elapsed_secs,
                old(self).config.search_timeout_secs,
            ) ==> {
                &&& final(self).elapsed_secs == spec_advance(
                    old(self).elapsed_secs,
                    old(self).config.search_interval_secs,
                )
                &&& {
                    let cands = candidates_from(
                        processes@,
                        old(self).final_exe_path@,
                        old(self).game_name@,
                        old(self).config.system_folders.deep_view(),
                        old(self).config.game_folders.deep_view(),
                        0,
                    );
                    let names = names_from(
                        processes@,
                        old(self).final_exe_path@,
                        old(self).game_name@,
                        old(self).config.system_folders.deep_view(),
                        old(self).config.game_folders.deep_view(),
                        0,
                    );
                    if cands.len() == 0 {
                        step == DiscoveryStep::Continue
                    } else {
                        exists|i: int|
                            #[trigger] is_chosen(cands, names, old(self).game_name@.len(), i)
                                && step == DiscoveryStep::Found(cands[i].0)
                    }
                }
            },
    {
        match self.spawned_pid {
            Some(pid) => {
                return DiscoveryStep::Found(pid);
            },
            None => {},
        }
        if self.elapsed_secs > self.config.search_timeout_secs {
            return DiscoveryStep::TimedOut;
        }
        if self.elapsed_secs <= u64::MAX - self.config.search_interval_secs {
            self.elapsed_secs = self.elapsed_secs + self.config.search_interval_secs;
        } else {
            self.elapsed_secs = u64::MAX;
        }

        let ghost sys = self.config.system_folders.deep_view();
        let ghost gf = self.config.game_folders.deep_view();
        let mut candidates: Vec<(u32, i32)> = Vec::new();
        let mut names: Vec<(u32, Vec<u8>)> = Vec::new();
        let mut i: usize = 0;
        while i < processes.len()
            invariant
                i <= processes@.len(),
                candidates@ + candidates_from(
                    processes@,
                    self.final_exe_path@,
                    self.game_name@,
                    sys,
                    gf,
                    i as int,
                ) == candidates_from(
                    processes@,
                    self.final_exe_path@,
                    self.game_name@,
                    sys,
                    gf,
                    0,
                ),
                names.deep_view() + names_from(
                    processes@,
                    self.final_exe_path@,
                    self.game_name@,
                    sys,
                    gf,
                    i as int,
                ) == names_from(processes@, self.final_exe_path@, self.game_name@, sys, gf, 0),
                sys == self.config.system_folders.deep_view(),
                gf == self.config.game_folders.deep_view(),
            decreases processes.len() - i,
        {
            let ghost pre_cands = candidates@;
            let ghost pre_names = names.deep_view();
            let p = &processes[i];
            let score = score_process_candidate(p, &self.final_exe_path, &self.game_name,
                &self.config);
            if score > 0 {
                candidates.push((p.pid, score));
                let name_copy = crate::bytes::clone_bytes(&p.name);
                names.push((p.pid, name_copy));
                proof {
                    assert(candidates@ =~= pre_cands + seq![(processes@[i as int].pid, score)]);
                    assert(names.deep_view() =~~= pre_names + seq![
                        (processes@[i as int].pid, processes@[i as int].name@),
                    ]);
                    assert(candidates@ + candidates_from(
                        processes@,
                        self.final_exe_path@,
                        self.game_name@,
                        sys,
                        gf,
                        i as int + 1,
                    ) =~= pre_cands + candidates_from(
                        processes@,
                        self.final_exe_path@,
                        self.game_name@,
                        sys,
                        gf,
                        i as int,
                    ));
                    assert(names.deep_view() + names_from(
                        processes@,
                        self.final_exe_path@,
                        self.game_name@,
                        sys,
                        gf,
                        i as int + 1,
                    ) =~= pre_names + names_from(
                        processes@,
                        self.final_exe_path@,
                        self.game_name@,
                        sys,
                        gf,
                        i as int,
                    ));
                }
            }
            i = i + 1;
        }
        proof {
            assert(candidates@ + Seq::<(u32, i32)>::empty() =~= candidates@);
            assert(names.deep_view() + Seq::<(u32, Seq<u8>)>::empty() =~= names.deep_view());
        }
        match select_best_process(&candidates, &self.game_name, &names) {
            Some(pid) => DiscoveryStep::Found(pid),
            None => DiscoveryStep::Continue,
        }
    }
}

/// The elapsed clock after `k` polls that each advanced one interval.
pub open spec fn elapsed_after_polls(k: nat, interval: u64) -> u64
    decreases k,
{
    if k == 0 {
        0u64
    } else {
        spec_advance(elapsed_after_polls((k - 1) as nat, interval), interval)
    }
}

/// Law: the discovery timeout is exact. While no poll yields a candidate,
/// the elapsed clock after `k` polls reads `k * interval`, and the engine
/// reports a timeout on the next poll exactly when that clock has passed the
/// timeout — never earlier, never later.
pub proof fn lemma_timeout_exact(k: nat, interval: u64, timeout: u64)
    requires
        k * interval <= u64::MAX,
    ensures
        elapsed_after_polls(k, interval) == k * interval,
        spec_times_out(elapsed_after_polls(k, interval), timeout) <==> k * interval > timeout,
    decreases k,
{
    if k == 0 {
        assert(k * interval == 0) by (nonlinear_arith)
            requires
                k == 0,
        ;
    } else {
        assert((k - 1) * interval + interval == k * interval) by (nonlinear_arith)
            requires
                k >= 1,
        ;
        assert((k - 1) * interval <= k * interval);
        lemma_timeout_exact((k - 1) as nat, interval, timeout);
    }
}

} // verus!
