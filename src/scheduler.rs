//! The fixed-step lifecycle protocol: which optional hook to invoke next, and the
//! count of invocations made. The caller performs each invocation and stops at
//! the first one that fails.
use vstd::prelude::*;

verus! {

/// Which lifecycle hooks the loaded entry script defines.
#[derive(Debug, Clone, Copy, PartialEq, Eq)]
pub struct HookSet {
    pub on_boot: bool,
    pub on_update: bool,
    pub on_render: bool,
    pub on_shutdown: bool,
}

/// One invocation of a lifecycle hook. `Update` carries the fixed time step and
/// `Render` the interpolation factor; both values are the caller's.
#[derive(Debug, Clone, Copy, PartialEq, Eq)]
pub enum LifecycleCall {
    Boot,
    Update,
    Render,
    Shutdown,
}

/// How many lifecycle invocations a run made.
#[derive(Debug, Clone, Copy, PartialEq, Eq)]
pub struct RuntimeInvocationReport {
    pub on_boot_called: bool,
    pub on_update_calls: u32,
    pub on_render_calls: u32,
    pub on_shutdown_called: bool,
}

pub open spec fn boot_part(h: HookSet) -> Seq<LifecycleCall> {
    if h.on_boot {
        seq![LifecycleCall::Boot]
    } else {
        seq![]
    }
}

pub open spec fn shutdown_part(h: HookSet) -> Seq<LifecycleCall> {
    if h.on_shutdown {
        seq![LifecycleCall::Shutdown]
    } else {
        seq![]
    }
}

/// The invocations of one frame: `Update`, then `Render`, each when defined.
pub open spec fn frame_calls(h: HookSet) -> Seq<LifecycleCall> {
    (if h.on_update {
        seq![LifecycleCall::Update]
    } else {
        seq![]
    }) + (if h.on_render {
        seq![LifecycleCall::Render]
    } else {
        seq![]
    })
}

/// The invocations of `n` frames.
pub open spec fn frames_calls(h: HookSet, n: nat) -> Seq<LifecycleCall>
    decreases n,
{
    if n == 0 {
        seq![]
    } else {
        frames_calls(h, (n - 1) as nat) + frame_calls(h)
    }
}

/// Every invocation of a run of `n` frames, in order: `Boot`, the frames,
/// `Shutdown`, each hook only when it is defined.
pub open spec fn lifecycle_calls(h: HookSet, n: nat) -> Seq<LifecycleCall> {
    boot_part(h) + frames_calls(h, n) + shutdown_part(h)
}

pub open spec fn count_calls(s: Seq<LifecycleCall>, c: LifecycleCall) -> nat
    decreases s.len(),
{
    if s.len() == 0 {
        0
    } else {
        count_calls(s.drop_last(), c) + if s.last() == c {
            1nat
        } else {
            0nat
        }
    }
}

/// The report of a run that made the invocations `s`.
pub open spec fn report_of(s: Seq<LifecycleCall>) -> RuntimeInvocationReport {
    RuntimeInvocationReport {
        on_boot_called: count_calls(s, LifecycleCall::Boot) > 0,
        on_update_calls: count_calls(s, LifecycleCall::Update) as u32,
        on_render_calls: count_calls(s, LifecycleCall::Render) as u32,
        on_shutdown_called: count_calls(s, LifecycleCall::Shutdown) > 0,
    }
}

pub proof fn lemma_count_concat(a: Seq<LifecycleCall>, b: Seq<LifecycleCall>, c: LifecycleCall)
    ensures
        count_calls(a + b, c) == count_calls(a, c) + count_calls(b, c),
    decreases b.len(),
{
    if b.len() == 0 {
        assert(a + b =~= a);
    } else {
        assert((a + b).drop_last() =~= a + b.drop_last());
        lemma_count_concat(a, b.drop_last(), c);
    }
}

proof fn lemma_count_single(x: LifecycleCall, c: LifecycleCall)
    ensures
        count_calls(seq![x], c) == if x == c {
            1nat
        } else {
            0nat
        },
{
    let s = seq![x];
    assert(s.drop_last() =~= Seq::<LifecycleCall>::empty());
    assert(count_calls(s.drop_last(), c) == 0);
    assert(s.last() == x);
}

proof fn lemma_count_frame(h: HookSet, c: LifecycleCall)
    ensures
        count_calls(frame_calls(h), c) == (if h.on_update && c == LifecycleCall::Update {
            1nat
        } else {
            0nat
        }) + (if h.on_render && c == LifecycleCall::Render {
            1nat
        } else {
            0nat
        }),
{
    let u: Seq<LifecycleCall> = if h.on_update {
        seq![LifecycleCall::Update]
    } else {
        seq![]
    };
    let r: Seq<LifecycleCall> = if h.on_render {
        seq![LifecycleCall::Render]
    } else {
        seq![]
    };
    lemma_count_concat(u, r, c);
    lemma_count_single(LifecycleCall::Update, c);
    lemma_count_single(LifecycleCall::Render, c);
}

proof fn lemma_count_frames(h: HookSet, n: nat, c: LifecycleCall)
    ensures
        count_calls(frames_calls(h, n), c) == (if h.on_update && c == LifecycleCall::Update {
            n
        } else {
            0nat
        }) + (if h.on_render && c == LifecycleCall::Render {
            n
        } else {
            0nat
        }),
    decreases n,
{
    if n > 0 {
        lemma_count_frames(h, (n - 1) as nat, c);
        lemma_count_concat(frames_calls(h, (n - 1) as nat), frame_calls(h), c);
        lemma_count_frame(h, c);
    }
}

proof fn lemma_frames_split(h: HookSet, a: nat, b: nat)
    requires
        a <= b,
    ensures
        frames_calls(h, b) == frames_calls(h, a) + frames_calls(h, (b - a) as nat),
    decreases b,
{
    if a == b {
        assert(frames_calls(h, a) + frames_calls(h, 0) =~= frames_calls(h, a));
    } else {
        lemma_frames_split(h, a, (b - 1) as nat);
        assert(frames_calls(h, b) =~= frames_calls(h, a) + frames_calls(h, (b - a) as nat));
    }
}

proof fn lemma_frames_empty(h: HookSet, n: nat)
    requires
        !h.on_update,
        !h.on_render,
    ensures
        frames_calls(h, n) == Seq::<LifecycleCall>::empty(),
    decreases n,
{
    if n > 0 {
        lemma_frames_empty(h, (n - 1) as nat);
        assert(frames_calls(h, n) =~= Seq::<LifecycleCall>::empty());
    }
}

/// A run of `frame_count` frames invokes `on_boot` and `on_shutdown` once each
/// when defined, and `on_update` and `on_render` once per frame when defined,
/// none when not.
pub proof fn lemma_run_counts(h: HookSet, frame_count: u32)
    ensures
        report_of(lifecycle_calls(h, frame_count as nat)) == (RuntimeInvocationReport {
            on_boot_called: h.on_boot,
            on_update_calls: if h.on_update {
                frame_count
            } else {
                0
            },
            on_render_calls: if h.on_render {
                frame_count
            } else {
                0
            },
            on_shutdown_called: h.on_shutdown,
        }),
{
    let n = frame_count as nat;
    let b = boot_part(h);
    let f = frames_calls(h, n);
    let s = shutdown_part(h);
    assert forall|c: LifecycleCall| #[trigger]
        count_calls(lifecycle_calls(h, n), c) == count_calls(b, c) + count_calls(f, c)
            + count_calls(s, c) by {
        lemma_count_concat(b + f, s, c);
        lemma_count_concat(b, f, c);
    }
    assert forall|c: LifecycleCall|
        #![trigger count_calls(b, c)]
        #![trigger count_calls(s, c)]
        count_calls(b, c) == (if h.on_boot && c == LifecycleCall::Boot {
            1nat
        } else {
            0nat
        }) && count_calls(s, c) == (if h.on_shutdown && c == LifecycleCall::Shutdown {
            1nat
        } else {
            0nat
        }) by {
        lemma_count_single(LifecycleCall::Boot, c);
        lemma_count_single(LifecycleCall::Shutdown, c);
    }
    lemma_count_frames(h, n, LifecycleCall::Boot);
    lemma_count_frames(h, n, LifecycleCall::Update);
    lemma_count_frames(h, n, LifecycleCall::Render);
    lemma_count_frames(h, n, LifecycleCall::Shutdown);
}

#[derive(Debug, Clone, Copy, PartialEq, Eq)]
enum Stage {
    Boot,
    Frames,
    Shutdown,
    Finished,
}

/// Drives one run: hands out the lifecycle invocations in their fixed order and
/// counts them.
pub struct LifecycleScheduler {
    hooks: HookSet,
    frame_count: u32,
    stage: Stage,
    frame: u32,
    render_pending: bool,
    report: RuntimeInvocationReport,
    issued: Ghost<Seq<LifecycleCall>>,
}

impl LifecycleScheduler {
    pub closed spec fn hooks(&self) -> HookSet {
        self.hooks
    }

    pub closed spec fn frame_count(&self) -> nat {
        self.frame_count as nat
    }

    /// The invocations handed out so far.
    pub closed spec fn calls_made(&self) -> Seq<LifecycleCall> {
        self.issued@
    }

    /// All invocations of this run.
    pub open spec fn all_calls(&self) -> Seq<LifecycleCall> {
        lifecycle_calls(self.hooks(), self.frame_count())
    }

    pub closed spec fn wf(&self) -> bool {
        let h = self.hooks;
        let n = self.frame_count as nat;
        &&& self.report == report_of(self.issued@)
        &&& self.frame <= self.frame_count
        &&& self.render_pending ==> (self.stage == Stage::Frames && h.on_update && h.on_render
            && self.frame < self.frame_count)
        &&& match self.stage {
            Stage::Boot => self.issued@ == Seq::<LifecycleCall>::empty() && self.frame == 0,
            Stage::Frames => self.issued@ == boot_part(h) + frames_calls(h, self.frame as nat) + (
            if self.render_pending {
                seq![LifecycleCall::Update]
            } else {
                seq![]
            }),
            Stage::Shutdown => self.issued@ == boot_part(h) + frames_calls(h, n),
            Stage::Finished => self.issued@ == lifecycle_calls(h, n),
        }
        &&& self.issued@.is_prefix_of(lifecycle_calls(h, n))
    }

    /// A scheduler for a run of `frame_count` frames over the hooks `hooks`.
    pub fn new(hooks: HookSet, frame_count: u32) -> (s: Self)
        ensures
            s.wf(),
            s.hooks() == hooks,
            s.frame_count() == frame_count as nat,
            s.calls_made() == Seq::<LifecycleCall>::empty(),
    {
        let s = LifecycleScheduler {
            hooks,
            frame_count,
            stage: Stage::Boot,
            frame: 0,
            render_pending: false,
            report: RuntimeInvocationReport {
                on_boot_called: false,
                on_update_calls: 0,
                on_render_calls: 0,
                on_shutdown_called: false,
            },
            issued: Ghost(Seq::empty()),
        };
        proof {
            reveal_with_fuel(count_calls, 1);
        }
        s
    }

    /// The counts of the invocations handed out so far.
    pub fn report(&self) -> (r: RuntimeInvocationReport)
        requires
            self.wf(),
        ensures
            r == report_of(self.calls_made()),
    {
        self.report
    }

    fn issue(&mut self, c: LifecycleCall)
        requires
            old(self).report == report_of(old(self).issued@),
            c == LifecycleCall::Update ==> count_calls(old(self).issued@, c) < u32::MAX,
            c == LifecycleCall::Render ==> count_calls(old(self).issued@, c) < u32::MAX,
        ensures
            final(self).issued@ == old(self).issued@.push(c),
            final(self).report == report_of(final(self).issued@),
            final(self).hooks == old(self).hooks,
            final(self).frame_count == old(self).frame_count,
            final(self).stage == old(self).stage,
            final(self).frame == old(self).frame,
            final(self).render_pending == old(self).render_pending,
    {
        let ghost before = self.issued@;
        proof {
            assert(before.push(c).drop_last() =~= before);
        }
        match c {
            LifecycleCall::Boot => {
                self.report.on_boot_called = true;
            },
            LifecycleCall::Update => {
                self.report.on_update_calls = self.report.on_update_calls + 1;
            },
            LifecycleCall::Render => {
                self.report.on_render_calls = self.report.on_render_calls + 1;
            },
            LifecycleCall::Shutdown => {
                self.report.on_shutdown_called = true;
            },
        }
        self.issued = Ghost(before.push(c));
    }

    /// One step of the frame stage: the next `Update` or `Render` invocation, or
    /// `None` once every frame is done, the stage then moving on to shutdown.
    #[verifier::rlimit(40)]
    fn step_frames(&mut self) -> (r: Option<LifecycleCall>)
        requires
            old(self).wf(),
            old(self).stage == Stage::Frames,
        ensures
            final(self).wf(),
            final(self).hooks == old(self).hooks,
            final(self).frame_count == old(self).frame_count,
            r matches Some(c) ==> final(self).issued@ == old(self).issued@.push(c),
            r is None ==> final(self).issued@ == old(self).issued@ && final(self).stage
                == Stage::Shutdown,
    {
        let ghost h = self.hooks;
        let ghost n = self.frame_count as nat;
        proof {
            lemma_prefix_frames(h, n, self.frame as nat);
        }
        if self.frame >= self.frame_count {
            self.stage = Stage::Shutdown;
            proof {
                assert(self.issued@ =~= boot_part(h) + frames_calls(h, n));
            }
            None
        } else if self.render_pending {
            proof {
                lemma_count_frames(h, self.frame as nat, LifecycleCall::Render);
                lemma_count_concat(
                    boot_part(h) + frames_calls(h, self.frame as nat),
                    seq![LifecycleCall::Update],
                    LifecycleCall::Render,
                );
                lemma_count_concat(
                    boot_part(h),
                    frames_calls(h, self.frame as nat),
                    LifecycleCall::Render,
                );
                lemma_count_single(LifecycleCall::Update, LifecycleCall::Render);
                lemma_count_single(LifecycleCall::Boot, LifecycleCall::Render);
            }
            self.issue(LifecycleCall::Render);
            self.render_pending = false;
            self.frame = self.frame + 1;
            proof {
                assert(self.issued@ =~= boot_part(h) + frames_calls(h, self.frame as nat)
                    + seq![]);
                lemma_prefix_frames(h, n, self.frame as nat);
            }
            Some(LifecycleCall::Render)
        } else if self.hooks.on_update {
            proof {
                lemma_count_frames(h, self.frame as nat, LifecycleCall::Update);
                lemma_count_concat(
                    boot_part(h),
                    frames_calls(h, self.frame as nat),
                    LifecycleCall::Update,
                );
                lemma_count_single(LifecycleCall::Boot, LifecycleCall::Update);
                lemma_prefix_frames(h, n, (self.frame + 1) as nat);
            }
            self.issue(LifecycleCall::Update);
            if self.hooks.on_render {
                self.render_pending = true;
                proof {
                    assert(self.issued@ =~= boot_part(h) + frames_calls(
                        h,
                        self.frame as nat,
                    ) + seq![LifecycleCall::Update]);
                    assert(self.issued@.is_prefix_of(
                        boot_part(h) + frames_calls(h, (self.frame + 1) as nat),
                    ));
                }
            } else {
                self.frame = self.frame + 1;
                proof {
                    assert(self.issued@ =~= boot_part(h) + frames_calls(
                        h,
                        self.frame as nat,
                    ) + seq![]);
                }
            }
            Some(LifecycleCall::Update)
        } else if self.hooks.on_render {
            proof {
                lemma_count_frames(h, self.frame as nat, LifecycleCall::Render);
                lemma_count_concat(
                    boot_part(h),
                    frames_calls(h, self.frame as nat),
                    LifecycleCall::Render,
                );
                lemma_count_single(LifecycleCall::Boot, LifecycleCall::Render);
            }
            self.issue(LifecycleCall::Render);
            self.frame = self.frame + 1;
            proof {
                assert(self.issued@ =~= boot_part(h) + frames_calls(h, self.frame as nat)
                    + seq![]);
                lemma_prefix_frames(h, n, self.frame as nat);
            }
            Some(LifecycleCall::Render)
        } else {
            proof {
                lemma_frames_empty(h, self.frame as nat);
                lemma_frames_empty(h, n);
            }
            self.frame = self.frame_count;
            self.stage = Stage::Shutdown;
            proof {
                assert(self.issued@ =~= boot_part(h) + frames_calls(h, n));
            }
            None
        }
    }

    /// The next invocation to make, which then counts as made; `None` once the
    /// run is complete.
    pub fn next_call(&mut self) -> (r: Option<LifecycleCall>)
        requires
            old(self).wf(),
        ensures
            final(self).wf(),
            final(self).hooks() == old(self).hooks(),
            final(self).frame_count() == old(self).frame_count(),
            old(self).calls_made().len() < old(self).all_calls().len() ==> r == Some(
                old(self).all_calls()[old(self).calls_made().len() as int],
            ) && final(self).calls_made() == old(self).calls_made().push(r->0),
            old(self).calls_made().len() >= old(self).all_calls().len() ==> r is None
                && final(self).calls_made() == old(self).calls_made(),
            r is None ==> final(self).calls_made() == final(self).all_calls(),
    {
        let ghost h = self.hooks;
        let ghost n = self.frame_count as nat;
        let ghost all = lifecycle_calls(h, n);
        let ghost start = self.issued@;
        loop
            invariant
                self.wf(),
                self.hooks == h,
                self.frame_count as nat == n,
                self.issued@ == start,
                all == lifecycle_calls(h, n),
                h == old(self).hooks,
                n == old(self).frame_count as nat,
                start == old(self).issued@,
            decreases stage_rank(self.stage),
        {
            proof {
                lemma_prefix_frames(h, n, self.frame as nat);
            }
            match self.stage {
                Stage::Boot => {
                    self.stage = Stage::Frames;
                    if self.hooks.on_boot {
                        self.issue(LifecycleCall::Boot);
                        proof {
                            lemma_push_prefix(start, LifecycleCall::Boot, all);
                            assert(self.issued@ =~= boot_part(h) + frames_calls(h, 0) + seq![]);
                        }
                        return Some(LifecycleCall::Boot);
                    }
                    assert(self.issued@ =~= boot_part(h) + frames_calls(h, 0) + seq![]);
                },
                Stage::Frames => {
                    let r = self.step_frames();
                    if r.is_some() {
                        proof {
                            lemma_push_prefix(start, r->0, all);
                        }
                        return r;
                    }
                },
                Stage::Shutdown => {
                    self.stage = Stage::Finished;
                    if self.hooks.on_shutdown {
                        self.issue(LifecycleCall::Shutdown);
                        assert(self.issued@ =~= lifecycle_calls(h, n));
                        return Some(LifecycleCall::Shutdown);
                    }
                    assert(self.issued@ =~= lifecycle_calls(h, n));
                },
                Stage::Finished => {
                    return None;
                },
            }
        }
    }
}

proof fn lemma_push_prefix(s: Seq<LifecycleCall>, c: LifecycleCall, all: Seq<LifecycleCall>)
    requires
        s.push(c).is_prefix_of(all),
    ensures
        s.len() < all.len(),
        all[s.len() as int] == c,
{
    assert(s.push(c)[s.len() as int] == c);
}

spec fn stage_rank(s: Stage) -> nat {
    match s {
        Stage::Boot => 3,
        Stage::Frames => 2,
        Stage::Shutdown => 1,
        Stage::Finished => 0,
    }
}

proof fn lemma_prefix_frames(h: HookSet, n: nat, k: nat)
    ensures
        k <= n ==> (boot_part(h) + frames_calls(h, k)).is_prefix_of(lifecycle_calls(h, n)),
{
    if k <= n {
        lemma_frames_split(h, k, n);
        assert(lifecycle_calls(h, n) =~= (boot_part(h) + frames_calls(h, k)) + (frames_calls(
            h,
            (n - k) as nat,
        ) + shutdown_part(h)));
    }
}

} // verus!
