//! Registry of asynchronously spawned child processes.
//!
//! The host refers to a child through an opaque handle drawn from a
//! monotonically increasing counter.  The OS itself is driven outside this
//! library; every OS observation (a liveness poll, a blocking wait) is handed
//! in as a plain value, and the registry decides what to record and what to
//! answer.  Output and exit status are captured exactly once, the first time
//! completion is observed, and cached thereafter.

use vstd::prelude::*;
use std::collections::HashMap;

verus! {

broadcast use vstd::std_specs::hash::group_hash_axioms;

/// Output and exit status captured from a finished child.
pub struct Capture {
    pub stdout: String,
    pub stderr: String,
    pub code: i32,
}

/// What a single non-blocking liveness check of the OS child reported.
pub enum ProcPoll {
    /// The child has exited; its pipes were read to the end.
    Exited(Capture),
    /// The child is still running.
    StillRunning,
    /// The liveness check itself failed.
    PollFailed,
}

/// What a blocking OS wait on the child reported.
pub enum ProcWait {
    /// The child has exited; its pipes were read to the end.
    Exited(Capture),
    /// The OS wait failed.
    WaitFailed,
}

/// How a synchronous, fully buffered run of a command ended.
pub enum RunOutcome {
    /// The command ran to completion; `code` is `None` when the OS reported
    /// no exit code (for example, termination by a signal).
    Finished { stdout: String, stderr: String, code: Option<i32>, success: bool },
    /// The command could not be launched at all.
    LaunchFailed { message: String },
}

/// Exit-code sentinel: the code itself, or `-1` when the OS reported none.
pub open spec fn code_sentinel_spec(code: Option<i32>) -> i32 {
    match code {
        Some(c) => c,
        None => -1 as i32,
    }
}

/// Registry of spawned children plus the results of the most recent
/// synchronous run, as the host sees them.
pub struct Shell {
    last_stdout: String,
    last_stderr: String,
    last_exit_code: i32,
    last_success: bool,
    next_handle: u64,
    procs: HashMap<u64, Option<Capture>>,
}

impl Shell {
    /// The entries: a handle maps to `None` while its child runs, and to the
    /// cached capture once completion has been observed.
    pub closed spec fn procs_map(&self) -> Map<u64, Option<Capture>> {
        self.procs@
    }

    /// The next handle to be issued.
    pub closed spec fn spec_next(&self) -> u64 {
        self.next_handle
    }

    pub closed spec fn spec_last_stdout(&self) -> Seq<char> {
        self.last_stdout@
    }

    pub closed spec fn spec_last_stderr(&self) -> Seq<char> {
        self.last_stderr@
    }

    pub closed spec fn spec_last_exit_code(&self) -> i32 {
        self.last_exit_code
    }

    pub closed spec fn spec_last_success(&self) -> bool {
        self.last_success
    }

    /// Handles are positive and below the allocation counter, so no live
    /// handle can ever be issued again.
    pub open spec fn wf(&self) -> bool {
        &&& 1 <= self.spec_next()
        &&& forall|h: u64| #[trigger]
            self.procs_map().dom().contains(h) ==> 1 <= h < self.spec_next()
    }

    /// The `last_*` results are untouched between `pre` and `post`.
    pub open spec fn last_unchanged(pre: Shell, post: Shell) -> bool {
        &&& post.spec_last_stdout() == pre.spec_last_stdout()
        &&& post.spec_last_stderr() == pre.spec_last_stderr()
        &&& post.spec_last_exit_code() == pre.spec_last_exit_code()
        &&& post.spec_last_success() == pre.spec_last_success()
    }

    pub fn new() -> (s: Shell)
        ensures
            s.wf(),
            s.spec_next() == 1,
            s.procs_map() == Map::<u64, Option<Capture>>::empty(),
            s.spec_last_stdout() == Seq::<char>::empty(),
            s.spec_last_stderr() == Seq::<char>::empty(),
            s.spec_last_exit_code() == 0,
            !s.spec_last_success(),
    {
        Shell {
            last_stdout: String::new(),
            last_stderr: String::new(),
            last_exit_code: 0,
            last_success: false,
            next_handle: 1,
            procs: HashMap::new(),
        }
    }

    /// Whether an OS observation is still owed for this handle: its entry
    /// exists and completion has not yet been captured.
    pub open spec fn needs_poll_spec(self, h: u64) -> bool {
        self.procs_map().dom().contains(h) && self.procs_map()[h] is None
    }

    /// Exec mirror of [`Self::needs_poll_spec`]; the driver calls it to decide
    /// whether `isDone`/`wait` must be given a fresh OS observation.
    pub fn needs_poll(&self, handle: u64) -> (r: bool)
        ensures
            r == self.needs_poll_spec(handle),
    {
        match self.procs.get(&handle) {
            Some(slot) => slot.is_none(),
            None => false,
        }
    }

    /// Relation between the registry before and after `spawnAsync`.
    pub open spec fn spawn_post(pre: Shell, post: Shell, launched: bool, h: u64) -> bool {
        if launched {
            &&& h == pre.spec_next()
            &&& post.spec_next() == pre.spec_next() + 1
            &&& post.procs_map() == pre.procs_map().insert(h, None::<Capture>)
            &&& Self::last_unchanged(pre, post)
        } else {
            &&& h == 0
            &&& post == pre
        }
    }

    /// Registers a spawn attempt.  When the OS launch succeeded (`launched`),
    /// a fresh handle is issued and a running entry inserted; when it failed,
    /// the sentinel handle `0` is returned and nothing changes.
    #[allow(non_snake_case)]
    pub fn spawnAsync(&mut self, launched: bool) -> (h: u64)
        requires
            old(self).wf(),
            old(self).spec_next() < u64::MAX,
        ensures
            final(self).wf(),
            Self::spawn_post(*old(self), *final(self), launched, h),
    {
        if launched {
            let h = self.next_handle;
            self.next_handle = self.next_handle + 1;
            self.procs.insert(h, None);
            proof {
                assert forall|h0: u64| #[trigger]
                    self.procs_map().dom().contains(h0) implies 1 <= h0 < self.spec_next() by {
                    if h0 != h {
                        assert(old(self).procs_map().dom().contains(h0));
                    }
                }
            }
            h
        } else {
            0
        }
    }

    /// Relation between the registry before and after `isDone`, given the OS
    /// observation (`None` when none was owed) and the answer `r`.
    pub open spec fn is_done_post(
        pre: Shell,
        post: Shell,
        h: u64,
        poll: Option<ProcPoll>,
        r: bool,
    ) -> bool {
        if !pre.procs_map().dom().contains(h) {
            r && post == pre
        } else {
            match pre.procs_map()[h] {
                Some(_) => r && post == pre,
                None => match poll {
                    Some(ProcPoll::Exited(c)) => {
                        &&& r
                        &&& post.procs_map() == pre.procs_map().insert(h, Some(c))
                        &&& post.spec_next() == pre.spec_next()
                        &&& Self::last_unchanged(pre, post)
                    },
                    Some(ProcPoll::StillRunning) => !r && post == pre,
                    Some(ProcPoll::PollFailed) => r && post == pre,
                    None => false,
                },
            }
        }
    }

    /// Non-blocking completion check.  An unknown handle is vacuously done; a
    /// cached entry stays done with no side effect; otherwise the given OS
    /// poll decides, and an exit is captured exactly here, exactly once.
    #[allow(non_snake_case)]
    pub fn isDone(&mut self, handle: u64, poll: Option<ProcPoll>) -> (r: bool)
        requires
            old(self).wf(),
            poll is Some <==> old(self).needs_poll_spec(handle),
        ensures
            final(self).wf(),
            Self::is_done_post(*old(self), *final(self), handle, poll, r),
    {
        let known_running = match self.procs.get(&handle) {
            Some(slot) => slot.is_none(),
            None => {
                return true;
            },
        };
        if !known_running {
            return true;
        }
        match poll {
            Some(ProcPoll::Exited(c)) => {
                self.procs.insert(handle, Some(c));
                true
            },
            Some(ProcPoll::StillRunning) => false,
            Some(ProcPoll::PollFailed) => true,
            None => {
                // unreachable: a running entry owes a poll
                proof {
                    assert(false);
                }
                true
            },
        }
    }

    /// Relation between the registry before and after `wait`.
    pub open spec fn wait_post(
        pre: Shell,
        post: Shell,
        h: u64,
        outcome: Option<ProcWait>,
        code: i32,
    ) -> bool {
        if !pre.procs_map().dom().contains(h) {
            code == -1 && post == pre
        } else {
            match pre.procs_map()[h] {
                Some(c) => {
                    &&& code == c.code
                    &&& post.procs_map() == pre.procs_map()
                    &&& post.spec_next() == pre.spec_next()
                    &&& post.spec_last_stdout() == c.stdout@
                    &&& post.spec_last_stderr() == c.stderr@
                    &&& post.spec_last_exit_code() == c.code
                    &&& post.spec_last_success() == (c.code == 0)
                },
                None => match outcome {
                    Some(ProcWait::Exited(c)) => {
                        &&& code == c.code
                        &&& post.procs_map() == pre.procs_map().insert(h, Some(c))
                        &&& post.spec_next() == pre.spec_next()
                        &&& post.spec_last_stdout() == c.stdout@
                        &&& post.spec_last_stderr() == c.stderr@
                        &&& post.spec_last_exit_code() == c.code
                        &&& post.spec_last_success() == (c.code == 0)
                    },
                    Some(ProcWait::WaitFailed) => {
                        &&& code == -1
                        &&& post.procs_map() == pre.procs_map()
                        &&& post.spec_next() == pre.spec_next()
                        &&& post.spec_last_stdout() == pre.spec_last_stdout()
                        &&& post.spec_last_stderr() == pre.spec_last_stderr()
                        &&& post.spec_last_exit_code() == -1
                        &&& !post.spec_last_success()
                    },
                    None => false,
                },
            }
        }
    }

    /// Blocking wait.  A cached entry answers from the cache; otherwise the
    /// given OS wait outcome is captured once; an unknown handle or a failed
    /// wait answers the sentinel `-1`.
    pub fn wait(&mut self, handle: u64, outcome: Option<ProcWait>) -> (code: i32)
        requires
            old(self).wf(),
            outcome is Some <==> old(self).needs_poll_spec(handle),
        ensures
            final(self).wf(),
            Self::wait_post(*old(self), *final(self), handle, outcome, code),
    {
        let cached: Option<Capture> = match self.procs.get(&handle) {
            Some(slot) => match slot {
                Some(c) => Some(
                    Capture { stdout: c.stdout.clone(), stderr: c.stderr.clone(), code: c.code },
                ),
                None => None,
            },
            None => {
                return -1;
            },
        };
        if let Some(c) = cached {
            self.last_stdout = c.stdout;
            self.last_stderr = c.stderr;
            self.last_exit_code = c.code;
            self.last_success = c.code == 0;
            return self.last_exit_code;
        }
        match outcome {
            Some(ProcWait::Exited(c)) => {
                let code = c.code;
                self.last_stdout = c.stdout.clone();
                self.last_stderr = c.stderr.clone();
                self.last_exit_code = code;
                self.last_success = code == 0;
                self.procs.insert(handle, Some(c));
                code
            },
            Some(ProcWait::WaitFailed) => {
                self.last_exit_code = -1;
                self.last_success = false;
                -1
            },
            None => {
                // unreachable: a running entry owes a wait
                proof {
                    assert(false);
                }
                -1
            },
        }
    }

    /// The stdout a read of `h` answers: the cached capture, or empty.
    pub open spec fn spec_stdout_of(self, h: u64) -> Seq<char> {
        if self.procs_map().dom().contains(h) {
            match self.procs_map()[h] {
                Some(c) => c.stdout@,
                None => Seq::<char>::empty(),
            }
        } else {
            Seq::<char>::empty()
        }
    }

    /// The stderr a read of `h` answers: the cached capture, or empty.
    pub open spec fn spec_stderr_of(self, h: u64) -> Seq<char> {
        if self.procs_map().dom().contains(h) {
            match self.procs_map()[h] {
                Some(c) => c.stderr@,
                None => Seq::<char>::empty(),
            }
        } else {
            Seq::<char>::empty()
        }
    }

    /// The exit code a read of `h` answers: the cached code, or `-1`.
    pub open spec fn spec_exit_code_of(self, h: u64) -> i32 {
        if self.procs_map().dom().contains(h) {
            match self.procs_map()[h] {
                Some(c) => c.code,
                None => -1 as i32,
            }
        } else {
            -1 as i32
        }
    }

    /// Cached stdout of a completed child; empty for an unknown or still
    /// uncaptured handle.  Never triggers a capture itself.
    #[allow(non_snake_case)]
    pub fn getStdout(&self, handle: u64) -> (r: String)
        ensures
            r@ == self.spec_stdout_of(handle),
    {
        match self.procs.get(&handle) {
            Some(slot) => match slot {
                Some(c) => c.stdout.clone(),
                None => String::new(),
            },
            None => String::new(),
        }
    }

    /// Cached stderr of a completed child; empty for an unknown or still
    /// uncaptured handle.  Never triggers a capture itself.
    #[allow(non_snake_case)]
    pub fn getStderr(&self, handle: u64) -> (r: String)
        ensures
            r@ == self.spec_stderr_of(handle),
    {
        match self.procs.get(&handle) {
            Some(slot) => match slot {
                Some(c) => c.stderr.clone(),
                None => String::new(),
            },
            None => String::new(),
        }
    }

    /// Cached exit code of a completed child; `-1` for an unknown or still
    /// uncaptured handle.  Never triggers a capture itself.
    #[allow(non_snake_case)]
    pub fn getExitCode(&self, handle: u64) -> (r: i32)
        ensures
            r == self.spec_exit_code_of(handle),
    {
        match self.procs.get(&handle) {
            Some(slot) => match slot {
                Some(c) => c.code,
                None => -1,
            },
            None => -1,
        }
    }

    /// Relation between the registry before and after `cleanup`.
    pub open spec fn cleanup_post(pre: Shell, post: Shell, h: u64, removed: bool) -> bool {
        &&& removed == pre.procs_map().dom().contains(h)
        &&& post.procs_map() == pre.procs_map().remove(h)
        &&& post.spec_next() == pre.spec_next()
        &&& Self::last_unchanged(pre, post)
    }

    /// Drops the entry (and with it the process resources its driver holds);
    /// `true` iff an entry existed.  The handle is never issued again.
    pub fn cleanup(&mut self, handle: u64) -> (removed: bool)
        requires
            old(self).wf(),
        ensures
            final(self).wf(),
            Self::cleanup_post(*old(self), *final(self), handle, removed),
    {
        self.procs.remove(&handle).is_some()
    }

    /// Records the end of a synchronous, fully buffered run, exactly as the
    /// host observes it afterwards; answers whether the run succeeded.
    pub fn record_run(&mut self, outcome: RunOutcome) -> (ok: bool)
        ensures
            final(self).procs_map() == old(self).procs_map(),
            final(self).spec_next() == old(self).spec_next(),
            match outcome {
                RunOutcome::Finished { stdout, stderr, code, success } => {
                    &&& final(self).spec_last_stdout() == stdout@
                    &&& final(self).spec_last_stderr() == stderr@
                    &&& final(self).spec_last_exit_code() == code_sentinel_spec(code)
                    &&& final(self).spec_last_success() == success
                    &&& ok == success
                },
                RunOutcome::LaunchFailed { message } => {
                    &&& final(self).spec_last_stdout() == Seq::<char>::empty()
                    &&& final(self).spec_last_stderr() == message@
                    &&& final(self).spec_last_exit_code() == -1
                    &&& !final(self).spec_last_success()
                    &&& !ok
                },
            },
    {
        match outcome {
            RunOutcome::Finished { stdout, stderr, code, success } => {
                self.last_stdout = stdout;
                self.last_stderr = stderr;
                self.last_exit_code = match code {
                    Some(c) => c,
                    None => -1,
                };
                self.last_success = success;
                success
            },
            RunOutcome::LaunchFailed { message } => {
                self.last_stdout = String::new();
                self.last_stderr = message;
                self.last_exit_code = -1;
                self.last_success = false;
                false
            },
        }
    }

    /// Records the status of an interactive (inherited-stdio) run: the exit
    /// code with its `-1` sentinel, and whether the OS called it a success;
    /// `None` when the command could not run.  Answers the recorded code.
    pub fn record_interactive(&mut self, status: Option<(Option<i32>, bool)>) -> (code: i32)
        ensures
            final(self).procs_map() == old(self).procs_map(),
            final(self).spec_next() == old(self).spec_next(),
            final(self).spec_last_stdout() == old(self).spec_last_stdout(),
            final(self).spec_last_stderr() == old(self).spec_last_stderr(),
            match status {
                Some((c, success)) => {
                    &&& final(self).spec_last_exit_code() == code_sentinel_spec(c)
                    &&& final(self).spec_last_success() == success
                },
                None => final(self).spec_last_exit_code() == -1 && !final(self).spec_last_success(),
            },
            code == final(self).spec_last_exit_code(),
    {
        match status {
            Some((c, success)) => {
                self.last_exit_code = match c {
                    Some(v) => v,
                    None => -1,
                };
                self.last_success = success;
            },
            None => {
                self.last_exit_code = -1;
                self.last_success = false;
            },
        }
        self.last_exit_code
    }

    /// Once completion has been captured for a handle, a further `isDone`
    /// answers `true` and leaves the whole registry untouched: the pipes
    /// behind the cache are never read a second time.
    pub proof fn lemma_capture_once(pre: Shell, post: Shell, h: u64, poll: Option<ProcPoll>, r: bool)
        requires
            pre.procs_map().dom().contains(h),
            pre.procs_map()[h] is Some,
            Self::is_done_post(pre, post, h, poll, r),
        ensures
            r,
            post == pre,
    {
    }

    /// Once completion has been captured for a handle, a further `wait`
    /// answers the cached exit code and leaves the entries untouched.
    pub proof fn lemma_wait_answers_cache(
        pre: Shell,
        post: Shell,
        h: u64,
        outcome: Option<ProcWait>,
        code: i32,
    )
        requires
            pre.procs_map().dom().contains(h),
            pre.procs_map()[h] is Some,
            Self::wait_post(pre, post, h, outcome, code),
        ensures
            code == pre.spec_exit_code_of(h),
            post.procs_map() == pre.procs_map(),
            post.spec_last_exit_code() == code,
    {
    }

    /// After `cleanup`, the handle behaves as unknown: `isDone` answers a
    /// vacuous `true` without touching anything, and the accessors answer
    /// their sentinels.
    pub proof fn lemma_cleanup_vacuous(
        pre: Shell,
        mid: Shell,
        post: Shell,
        h: u64,
        removed: bool,
        r: bool,
    )
        requires
            Self::cleanup_post(pre, mid, h, removed),
            Self::is_done_post(mid, post, h, None, r),
        ensures
            !mid.procs_map().dom().contains(h),
            r,
            post == mid,
            mid.spec_exit_code_of(h) == -1,
            mid.spec_stdout_of(h) == Seq::<char>::empty(),
            mid.spec_stderr_of(h) == Seq::<char>::empty(),
    {
    }

    /// Two successful spawns issue strictly increasing handles, however the
    /// registry evolved in between, as long as each step kept the allocation
    /// counter from shrinking — which every operation does.
    pub proof fn lemma_handles_strictly_increase(
        s0: Shell,
        s1: Shell,
        h1: u64,
        s2: Shell,
        s3: Shell,
        h2: u64,
    )
        requires
            Self::spawn_post(s0, s1, true, h1),
            s2.spec_next() >= s1.spec_next(),
            Self::spawn_post(s2, s3, true, h2),
        ensures
            h2 > h1,
    {
    }

    /// A handle that is (or ever was) live is never issued again: any later
    /// spawn, after any counter-preserving evolution, returns a different —
    /// strictly larger — handle.
    pub proof fn lemma_no_reissue(s: Shell, h: u64, s2: Shell, s3: Shell, h2: u64)
        requires
            s.wf(),
            s.procs_map().dom().contains(h),
            s2.spec_next() >= s.spec_next(),
            Self::spawn_post(s2, s3, true, h2),
        ensures
            h2 > h,
    {
    }

    /// Stdout recorded by the most recent synchronous run or wait.
    pub fn stdout(&self) -> (r: String)
        ensures
            r@ == self.spec_last_stdout(),
    {
        self.last_stdout.clone()
    }

    /// Stderr recorded by the most recent synchronous run or wait.
    pub fn stderr(&self) -> (r: String)
        ensures
            r@ == self.spec_last_stderr(),
    {
        self.last_stderr.clone()
    }

    /// Exit code recorded by the most recent synchronous run or wait.
    #[allow(non_snake_case)]
    pub fn exitCode(&self) -> (r: i32)
        ensures
            r == self.spec_last_exit_code(),
    {
        self.last_exit_code
    }

    /// Whether the most recent synchronous run or wait succeeded.
    pub fn success(&self) -> (r: bool)
        ensures
            r == self.spec_last_success(),
    {
        self.last_success
    }
}

} // verus!
