use vstd::prelude::*;

use crate::binder::Extent;
use crate::binder::SwapchainStatus;
use crate::binder::WindowView;
use crate::device::Device;
use crate::errors::VulkanError;
use crate::extensions::all_names_valid;
use crate::extensions::merged;
use crate::extensions::negotiate_device_extensions;
use crate::extensions::negotiate_instance_extensions;
use crate::queue::QueueFamilyInfo;
use crate::queue::family_usable;
use crate::queue::find_queue_family_index;
use crate::queue::is_first_usable_family;
use crate::select::DeviceType;
use crate::select::is_candidate;
use crate::select::is_selected;
use crate::select::pick_physical;

verus! {

/// Where the application lifecycle stands. Bring-up runs the first six
/// phases in order; the running loop then moves between the window
/// phases until it exits. `Failed` is the terminal phase of a fatal
/// bring-up error.
#[derive(Clone, Copy, Debug, PartialEq, Eq, Structural)]
pub enum Phase {
    Uninitialized,
    QueryingPlatformExtensions,
    CreatingInstance,
    EnumeratingDevices,
    QueryingQueueFamilies,
    CreatingLogicalDevice,
    DeviceReady,
    CreatingWindow,
    CreatingSurface,
    CreatingSwapchain,
    WindowBound,
    RecreatingSwapchain,
    Presenting,
    WindowUnbound,
    Exiting,
    Failed,
}

/// What the loop asks its host to perform next. The host carries each
/// action out against the real windowing and graphics APIs and hands the
/// outcome back as the matching `LoopEvent`. Creation actions carry the
/// handles and sizes the call needs; the extension lists for
/// `CreateInstance` and `CreateLogicalDevice` stand in the `App` value
/// that emitted the action.
#[derive(Clone, Copy, Debug, PartialEq, Eq)]
pub enum Action {
    QueryPlatformExtensions,
    CreateInstance,
    EnumerateDevices,
    QueryQueueFamilies(usize),
    CreateLogicalDevice(usize, u32),
    CreateWindow,
    CreateSurface(u64),
    CreateSwapchain(u64, Extent),
    DestroySwapchain(u64),
    DestroySurface(u64),
    DestroyWindow(u64),
    DestroyDevice(u64),
    DestroyInstance(u64),
    AcquireAndPresent(u64),
    ReportFatal(VulkanError),
    ReportRecoverable(VulkanError),
    StopLoop,
}

/// How a redraw's acquire-and-present attempt ended. `OutOfDate` carries
/// the API's result code reporting the swapchain as stale against its
/// surface.
#[derive(Clone, Copy, Debug, PartialEq, Eq)]
pub enum PresentOutcome {
    Success,
    OutOfDate(i32),
}

/// One event delivered to the running loop: a platform lifecycle or
/// window event, or the outcome of an action the loop asked for.
#[derive(Clone, Copy, Debug, PartialEq, Eq)]
pub enum LoopEvent {
    Resumed,
    WindowCreated(u64, Extent),
    WindowRefused,
    SurfaceCreated(Result<u64, i32>),
    SwapchainCreated(Result<u64, i32>),
    Resized(Extent),
    SwapchainRecreated(Result<u64, i32>),
    RedrawRequested,
    Presented(PresentOutcome),
    Suspended,
    CloseRequested,
}

/// The running loop's whole state but the extension lists: the phase, the
/// device once built, the window binding once bound, and the partial
/// handles of a binding under construction.
#[derive(Clone, Copy, Debug)]
pub struct LoopCore {
    pub phase: Phase,
    pub device: Option<Device>,
    pub view: Option<WindowView>,
    pub pending_window: u64,
    pub pending_extent: Extent,
    pub pending_surface: u64,
    pub instance_handle: u64,
    pub physical_index: usize,
    pub queue_family_index: u32,
    pub redraw_retried: bool,
}

/// The phases the running loop can stand in once bring-up has succeeded.
pub open spec fn is_run_phase(p: Phase) -> bool {
    ||| p == Phase::DeviceReady
    ||| p == Phase::CreatingWindow
    ||| p == Phase::CreatingSurface
    ||| p == Phase::CreatingSwapchain
    ||| p == Phase::WindowBound
    ||| p == Phase::RecreatingSwapchain
    ||| p == Phase::Presenting
    ||| p == Phase::WindowUnbound
    ||| p == Phase::Exiting
}

/// What the running loop maintains: a device in every run phase until the
/// loop exits (the exit destroys it), and a window binding in every bound
/// phase.
pub open spec fn core_inv(c: LoopCore) -> bool {
    &&& ((is_run_phase(c.phase) && c.phase != Phase::Exiting) ==> c.device is Some)
    &&& ((c.phase == Phase::WindowBound || c.phase == Phase::RecreatingSwapchain || c.phase
        == Phase::Presenting) ==> c.view is Some)
    &&& (c.phase == Phase::RecreatingSwapchain ==> (c.view matches Some(v) && v.status
        == SwapchainStatus::Absent))
}

/// The destroy calls that release a live window binding, in reverse
/// dependency order: swapchain (where one exists), then surface, then
/// window.
pub open spec fn view_teardown(v: WindowView) -> Seq<Action> {
    if v.status == SwapchainStatus::Absent {
        seq![Action::DestroySurface(v.surface), Action::DestroyWindow(v.window)]
    } else {
        seq![
            Action::DestroySwapchain(v.swapchain),
            Action::DestroySurface(v.surface),
            Action::DestroyWindow(v.window),
        ]
    }
}

/// The destroy calls that release whatever part of a window binding
/// exists, a finished binding or the partial handles of one still being
/// constructed.
pub open spec fn binder_teardown(c: LoopCore) -> Seq<Action> {
    match c.view {
        Some(v) => view_teardown(v),
        None => match c.phase {
            Phase::CreatingSurface => seq![Action::DestroyWindow(c.pending_window)],
            Phase::CreatingSwapchain => seq![
                Action::DestroySurface(c.pending_surface),
                Action::DestroyWindow(c.pending_window),
            ],
            _ => seq![],
        },
    }
}

/// The bring-up phases in which the instance handle exists but the device
/// record does not yet: a shutdown there must still release the instance.
pub open spec fn holds_bare_instance(p: Phase) -> bool {
    ||| p == Phase::EnumeratingDevices
    ||| p == Phase::QueryingQueueFamilies
    ||| p == Phase::CreatingLogicalDevice
}

/// The destroy calls that release the device: logical device first, then
/// the instance — or the instance alone, where bring-up created it but
/// never reached a logical device.
pub open spec fn device_teardown(c: LoopCore) -> Seq<Action> {
    match c.device {
        Some(d) => seq![Action::DestroyDevice(d.logical), Action::DestroyInstance(d.instance)],
        None => if holds_bare_instance(c.phase) {
            seq![Action::DestroyInstance(c.instance_handle)]
        } else {
            seq![]
        },
    }
}

/// The loop's transition function: from a state and one event to the next
/// state and the actions the host must perform, in order. Events that a
/// phase does not expect change nothing.
pub open spec fn loop_step(c: LoopCore, ev: LoopEvent) -> (LoopCore, Seq<Action>) {
    match ev {
        LoopEvent::Resumed => {
            if c.phase == Phase::DeviceReady || c.phase == Phase::WindowUnbound {
                (LoopCore { phase: Phase::CreatingWindow, ..c }, seq![Action::CreateWindow])
            } else {
                (c, seq![])
            }
        },
        LoopEvent::WindowCreated(w, e) => {
            if c.phase == Phase::CreatingWindow {
                (
                    LoopCore { phase: Phase::CreatingSurface, pending_window: w, pending_extent: e, ..c },
                    seq![Action::CreateSurface(w)],
                )
            } else {
                (c, seq![])
            }
        },
        LoopEvent::WindowRefused => {
            if c.phase == Phase::CreatingWindow {
                (
                    LoopCore { phase: Phase::WindowUnbound, ..c },
                    seq![Action::ReportRecoverable(VulkanError::WindowCreationFailed)],
                )
            } else {
                (c, seq![])
            }
        },
        LoopEvent::SurfaceCreated(r) => {
            if c.phase == Phase::CreatingSurface {
                match r {
                    Ok(s) => (
                        LoopCore { phase: Phase::CreatingSwapchain, pending_surface: s, ..c },
                        seq![Action::CreateSwapchain(s, c.pending_extent)],
                    ),
                    Err(code) => (
                        LoopCore { phase: Phase::WindowUnbound, ..c },
                        seq![
                            Action::DestroyWindow(c.pending_window),
                            Action::ReportRecoverable(VulkanError::SurfaceCreationFailed(code)),
                        ],
                    ),
                }
            } else {
                (c, seq![])
            }
        },
        LoopEvent::SwapchainCreated(r) => {
            if c.phase == Phase::CreatingSwapchain {
                match r {
                    Ok(sc) => (
                        LoopCore {
                            phase: Phase::WindowBound,
                            view: Some(
                                WindowView {
                                    window: c.pending_window,
                                    surface: c.pending_surface,
                                    swapchain: sc,
                                    extent: c.pending_extent,
                                    status: SwapchainStatus::Healthy,
                                },
                            ),
                            ..c
                        },
                        seq![],
                    ),
                    Err(code) => (
                        LoopCore { phase: Phase::WindowUnbound, ..c },
                        seq![
                            Action::DestroySurface(c.pending_surface),
                            Action::DestroyWindow(c.pending_window),
                            Action::ReportRecoverable(VulkanError::SwapchainCreationFailed(code)),
                        ],
                    ),
                }
            } else {
                (c, seq![])
            }
        },
        LoopEvent::Resized(e) => {
            if c.phase == Phase::WindowBound && c.view is Some {
                let v = c.view->0;
                if e.is_zero() {
                    // A zero-area window cannot back a swapchain: defer
                    // recreation until a usable size arrives.
                    let status = if v.status == SwapchainStatus::Absent {
                        SwapchainStatus::Absent
                    } else {
                        SwapchainStatus::Stale
                    };
                    (LoopCore { view: Some(WindowView { extent: e, status, ..v }), ..c }, seq![])
                } else if v.status == SwapchainStatus::Absent {
                    (
                        LoopCore {
                            phase: Phase::RecreatingSwapchain,
                            view: Some(WindowView { extent: e, ..v }),
                            ..c
                        },
                        seq![Action::CreateSwapchain(v.surface, e)],
                    )
                } else {
                    (
                        LoopCore {
                            phase: Phase::RecreatingSwapchain,
                            view: Some(
                                WindowView { extent: e, status: SwapchainStatus::Absent, ..v },
                            ),
                            ..c
                        },
                        seq![
                            Action::DestroySwapchain(v.swapchain),
                            Action::CreateSwapchain(v.surface, e),
                        ],
                    )
                }
            } else {
                (c, seq![])
            }
        },
        LoopEvent::SwapchainRecreated(r) => {
            if c.phase == Phase::RecreatingSwapchain && c.view is Some {
                let v = c.view->0;
                match r {
                    Ok(sc) => {
                        let bound = WindowView {
                            swapchain: sc,
                            status: SwapchainStatus::Healthy,
                            ..v
                        };
                        if c.redraw_retried {
                            (
                                LoopCore { phase: Phase::Presenting, view: Some(bound), ..c },
                                seq![Action::AcquireAndPresent(sc)],
                            )
                        } else {
                            (LoopCore { phase: Phase::WindowBound, view: Some(bound), ..c }, seq![])
                        }
                    },
                    Err(code) => {
                        if c.redraw_retried {
                            // The recreation that a failed redraw forced has
                            // failed as well: give the binding up.
                            (
                                LoopCore {
                                    phase: Phase::WindowUnbound,
                                    view: None,
                                    redraw_retried: false,
                                    ..c
                                },
                                seq![
                                    Action::DestroySurface(v.surface),
                                    Action::DestroyWindow(v.window),
                                    Action::ReportRecoverable(
                                        VulkanError::SwapchainCreationFailed(code),
                                    ),
                                ],
                            )
                        } else {
                            // Stay bound without a swapchain: presentation
                            // waits for the next resize.
                            (
                                LoopCore {
                                    phase: Phase::WindowBound,
                                    view: Some(
                                        WindowView { status: SwapchainStatus::Absent, ..v },
                                    ),
                                    ..c
                                },
                                seq![
                                    Action::ReportRecoverable(
                                        VulkanError::SwapchainCreationFailed(code),
                                    ),
                                ],
                            )
                        }
                    },
                }
            } else {
                (c, seq![])
            }
        },
        LoopEvent::RedrawRequested => {
            if c.phase == Phase::WindowBound && c.view is Some {
                let v = c.view->0;
                if v.status == SwapchainStatus::Healthy {
                    (
                        LoopCore { phase: Phase::Presenting, ..c },
                        seq![Action::AcquireAndPresent(v.swapchain)],
                    )
                } else {
                    (c, seq![])
                }
            } else {
                (c, seq![])
            }
        },
        LoopEvent::Presented(out) => {
            if c.phase == Phase::Presenting && c.view is Some {
                let v = c.view->0;
                match out {
                    PresentOutcome::Success => (
                        LoopCore { phase: Phase::WindowBound, redraw_retried: false, ..c },
                        seq![],
                    ),
                    PresentOutcome::OutOfDate(code) => {
                        if !c.redraw_retried {
                            // Implicit resize: recreate at the current extent
                            // and retry the presentation once.
                            (
                                LoopCore {
                                    phase: Phase::RecreatingSwapchain,
                                    redraw_retried: true,
                                    view: Some(
                                        WindowView { status: SwapchainStatus::Absent, ..v },
                                    ),
                                    ..c
                                },
                                seq![
                                    Action::DestroySwapchain(v.swapchain),
                                    Action::CreateSwapchain(v.surface, v.extent),
                                ],
                            )
                        } else {
                            // Failed twice in a row: give the binding up and
                            // await the next resume.
                            (
                                LoopCore {
                                    phase: Phase::WindowUnbound,
                                    view: None,
                                    redraw_retried: false,
                                    ..c
                                },
                                seq![
                                    Action::DestroySwapchain(v.swapchain),
                                    Action::DestroySurface(v.surface),
                                    Action::DestroyWindow(v.window),
                                    Action::ReportRecoverable(
                                        VulkanError::SwapchainCreationFailed(code),
                                    ),
                                ],
                            )
                        }
                    },
                }
            } else {
                (c, seq![])
            }
        },
        LoopEvent::Suspended => {
            if c.phase == Phase::WindowBound && c.view is Some {
                (
                    LoopCore {
                        phase: Phase::WindowUnbound,
                        view: None,
                        redraw_retried: false,
                        ..c
                    },
                    view_teardown(c.view->0),
                )
            } else {
                (c, seq![])
            }
        },
        LoopEvent::CloseRequested => {
            if c.phase != Phase::Exiting {
                (
                    LoopCore { phase: Phase::Exiting, view: None, ..c },
                    binder_teardown(c) + device_teardown(c) + seq![Action::StopLoop],
                )
            } else {
                (c, seq![])
            }
        },
    }
}

/// Folds `loop_step` over a sequence of events, collecting every emitted
/// action in delivery order.
pub open spec fn run_steps(c: LoopCore, evs: Seq<LoopEvent>) -> (LoopCore, Seq<Action>)
    decreases evs.len(),
{
    if evs.len() == 0 {
        (c, Seq::empty())
    } else {
        let first = loop_step(c, evs[0]);
        let rest = run_steps(first.0, evs.subrange(1, evs.len() as int));
        (rest.0, first.1 + rest.1)
    }
}

/// Running two event sequences one after the other is running their
/// concatenation.
pub proof fn lemma_run_steps_concat(c: LoopCore, evs1: Seq<LoopEvent>, evs2: Seq<LoopEvent>)
    ensures
        run_steps(c, evs1 + evs2).0 == run_steps(run_steps(c, evs1).0, evs2).0,
        run_steps(c, evs1 + evs2).1 == run_steps(c, evs1).1 + run_steps(
            run_steps(c, evs1).0,
            evs2,
        ).1,
    decreases evs1.len(),
{
    if evs1.len() == 0 {
        assert(evs1 + evs2 =~= evs2);
        assert(run_steps(c, evs1).1 + run_steps(run_steps(c, evs1).0, evs2).1 =~= run_steps(
            c,
            evs2,
        ).1);
    } else {
        let first = loop_step(c, evs1[0]);
        let tail1 = evs1.subrange(1, evs1.len() as int);
        assert((evs1 + evs2)[0] == evs1[0]);
        assert((evs1 + evs2).subrange(1, (evs1 + evs2).len() as int) =~= tail1 + evs2);
        lemma_run_steps_concat(first.0, tail1, evs2);
        assert(first.1 + (run_steps(first.0, tail1).1 + run_steps(run_steps(c, evs1).0, evs2).1)
            =~= (first.1 + run_steps(first.0, tail1).1) + run_steps(run_steps(c, evs1).0, evs2).1);
    }
}

/// Law: a close request while a window is bound exits the loop and tears
/// everything down in reverse dependency order — swapchain, surface,
/// window, logical device, instance, each exactly once — then stops.
pub proof fn lemma_close_teardown_order(c: LoopCore)
    requires
        c.phase == Phase::WindowBound,
        c.view matches Some(v) && v.status != SwapchainStatus::Absent,
        c.device is Some,
    ensures
        loop_step(c, LoopEvent::CloseRequested).0.phase == Phase::Exiting,
        loop_step(c, LoopEvent::CloseRequested).1 == seq![
            Action::DestroySwapchain(c.view->0.swapchain),
            Action::DestroySurface(c.view->0.surface),
            Action::DestroyWindow(c.view->0.window),
            Action::DestroyDevice(c.device->0.logical),
            Action::DestroyInstance(c.device->0.instance),
            Action::StopLoop,
        ],
{
    assert(loop_step(c, LoopEvent::CloseRequested).1 =~= seq![
        Action::DestroySwapchain(c.view->0.swapchain),
        Action::DestroySurface(c.view->0.surface),
        Action::DestroyWindow(c.view->0.window),
        Action::DestroyDevice(c.device->0.logical),
        Action::DestroyInstance(c.device->0.instance),
        Action::StopLoop,
    ]);
}

/// Law: a zero-extent resize while bound is deferred — no destroy or
/// create call is made and the loop stays bound — and a following
/// usable-size resize recreates the swapchain and returns the binding to
/// a presentable state.
pub proof fn lemma_zero_resize_deferred(c: LoopCore, e0: Extent, e1: Extent, h: u64)
    requires
        c.phase == Phase::WindowBound,
        c.view matches Some(v) && v.status == SwapchainStatus::Healthy,
        c.redraw_retried == false,
        e0.is_zero(),
        !e1.is_zero(),
    ensures
        ({
            let (c1, tr1) = loop_step(c, LoopEvent::Resized(e0));
            &&& c1.phase == Phase::WindowBound
            &&& tr1 == Seq::<Action>::empty()
            &&& ({
                let (c2, tr2) = loop_step(c1, LoopEvent::Resized(e1));
                &&& tr2 == seq![
                    Action::DestroySwapchain(c.view->0.swapchain),
                    Action::CreateSwapchain(c.view->0.surface, e1),
                ]
                &&& ({
                    let (c3, tr3) = loop_step(c2, LoopEvent::SwapchainRecreated(Ok(h)));
                    &&& c3.phase == Phase::WindowBound
                    &&& c3.view matches Some(v3) && (v3.status == SwapchainStatus::Healthy
                        && v3.swapchain == h && v3.extent == e1)
                    &&& tr3 == Seq::<Action>::empty()
                })
            })
        }),
{
}

/// Law: events apply strictly in delivery order. A resize delivered
/// before a redraw has its swapchain recreation applied first: the
/// redraw's acquisition runs against the recreated swapchain, never the
/// destroyed one.
pub proof fn lemma_resize_applies_before_redraw(c: LoopCore, e: Extent, h: u64)
    requires
        c.phase == Phase::WindowBound,
        c.view matches Some(v) && v.status == SwapchainStatus::Healthy,
        c.redraw_retried == false,
        !e.is_zero(),
    ensures
        ({
            let c1 = loop_step(c, LoopEvent::Resized(e)).0;
            let c2 = loop_step(c1, LoopEvent::SwapchainRecreated(Ok(h))).0;
            let (c3, tr3) = loop_step(c2, LoopEvent::RedrawRequested);
            &&& tr3 == seq![Action::AcquireAndPresent(h)]
            &&& c3.phase == Phase::Presenting
        }),
{
}

/// Law: every step of the running loop keeps the loop's invariant — a
/// device in every run phase, and a window binding (with no swapchain
/// while one is being recreated) in every bound phase.
pub proof fn lemma_loop_step_preserves_inv(c: LoopCore, ev: LoopEvent)
    requires
        core_inv(c),
    ensures
        core_inv(loop_step(c, ev).0),
{
}

proof fn lemma_run_one(c: LoopCore, ev: LoopEvent)
    ensures
        run_steps(c, seq![ev]).0 == loop_step(c, ev).0,
        run_steps(c, seq![ev]).1 == loop_step(c, ev).1,
{
    let s = seq![ev];
    let first = loop_step(c, ev);
    let tail = s.subrange(1, 1);
    assert(tail =~= Seq::<LoopEvent>::empty());
    assert(run_steps(first.0, tail) == (first.0, Seq::<Action>::empty()));
    assert(run_steps(c, s).0 == first.0);
    assert(run_steps(c, s).1 == first.1 + run_steps(first.0, tail).1);
    assert(first.1 + Seq::<Action>::empty() =~= first.1);
}

proof fn lemma_run_snoc(c: LoopCore, evs: Seq<LoopEvent>, ev: LoopEvent)
    ensures
        run_steps(c, evs.push(ev)).0 == loop_step(run_steps(c, evs).0, ev).0,
        run_steps(c, evs.push(ev)).1 == run_steps(c, evs).1 + loop_step(
            run_steps(c, evs).0,
            ev,
        ).1,
{
    assert(evs.push(ev) =~= evs + seq![ev]);
    lemma_run_steps_concat(c, evs, seq![ev]);
    lemma_run_one(run_steps(c, evs).0, ev);
}

/// The events of one successful window binding: a resume, then the
/// window, the surface and the initial swapchain each created in turn.
pub open spec fn bind_events(w: u64, e0: Extent, su: u64, sc0: u64) -> Seq<LoopEvent> {
    seq![
        LoopEvent::Resumed,
        LoopEvent::WindowCreated(w, e0),
        LoopEvent::SurfaceCreated(Ok(su)),
        LoopEvent::SwapchainCreated(Ok(sc0)),
    ]
}

/// The events of a run of resizes: each usable extent is followed by the
/// successful swapchain recreation the loop asked for; a zero extent is
/// deferred, so no recreation outcome follows it (its entry in `handles`
/// is unused).
pub open spec fn resize_events(extents: Seq<Extent>, handles: Seq<u64>) -> Seq<LoopEvent>
    decreases extents.len(),
{
    if extents.len() == 0 {
        Seq::empty()
    } else if extents[0].is_zero() {
        seq![LoopEvent::Resized(extents[0])] + resize_events(
            extents.subrange(1, extents.len() as int),
            handles.subrange(1, handles.len() as int),
        )
    } else {
        seq![LoopEvent::Resized(extents[0]), LoopEvent::SwapchainRecreated(Ok(handles[0]))]
            + resize_events(
            extents.subrange(1, extents.len() as int),
            handles.subrange(1, handles.len() as int),
        )
    }
}

/// The calls such a resize run makes: each usable resize destroys the
/// swapchain it found and creates one at the new extent, against the same
/// surface; a zero-extent resize makes no call at all.
pub open spec fn resize_trace(
    surface: u64,
    sc: u64,
    extents: Seq<Extent>,
    handles: Seq<u64>,
) -> Seq<Action>
    decreases extents.len(),
{
    if extents.len() == 0 {
        Seq::empty()
    } else if extents[0].is_zero() {
        resize_trace(
            surface,
            sc,
            extents.subrange(1, extents.len() as int),
            handles.subrange(1, handles.len() as int),
        )
    } else {
        seq![Action::DestroySwapchain(sc), Action::CreateSwapchain(surface, extents[0])]
            + resize_trace(
            surface,
            handles[0],
            extents.subrange(1, extents.len() as int),
            handles.subrange(1, handles.len() as int),
        )
    }
}

/// The swapchain handle left live after the resize run: the handle of the
/// last usable resize, or the starting one where every resize was
/// deferred.
pub open spec fn live_swapchain(sc: u64, extents: Seq<Extent>, handles: Seq<u64>) -> u64
    decreases extents.len(),
{
    if extents.len() == 0 {
        sc
    } else if extents[0].is_zero() {
        live_swapchain(
            sc,
            extents.subrange(1, extents.len() as int),
            handles.subrange(1, handles.len() as int),
        )
    } else {
        live_swapchain(
            handles[0],
            extents.subrange(1, extents.len() as int),
            handles.subrange(1, handles.len() as int),
        )
    }
}

/// The swapchain status after the resize run: stale after a deferred
/// (zero-extent) resize, healthy after a successful one, unchanged with
/// no resizes at all.
pub open spec fn final_status(s: SwapchainStatus, extents: Seq<Extent>) -> SwapchainStatus
    decreases extents.len(),
{
    if extents.len() == 0 {
        s
    } else {
        final_status(
            if extents[0].is_zero() {
                SwapchainStatus::Stale
            } else {
                SwapchainStatus::Healthy
            },
            extents.subrange(1, extents.len() as int),
        )
    }
}

/// How many of the extents have usable (nonzero) area.
pub open spec fn usable_count(extents: Seq<Extent>) -> nat
    decreases extents.len(),
{
    if extents.len() == 0 {
        0
    } else {
        (if extents[0].is_zero() {
            0nat
        } else {
            1nat
        }) + usable_count(extents.subrange(1, extents.len() as int))
    }
}

proof fn lemma_final_status_live(s: SwapchainStatus, extents: Seq<Extent>)
    requires
        s != SwapchainStatus::Absent,
    ensures
        final_status(s, extents) != SwapchainStatus::Absent,
    decreases extents.len(),
{
    if extents.len() == 0 {
    } else {
        lemma_final_status_live(
            if extents[0].is_zero() {
                SwapchainStatus::Stale
            } else {
                SwapchainStatus::Healthy
            },
            extents.subrange(1, extents.len() as int),
        );
    }
}

proof fn lemma_resize_run(c: LoopCore, extents: Seq<Extent>, handles: Seq<u64>)
    requires
        c.phase == Phase::WindowBound,
        c.view matches Some(v) && (v.status == SwapchainStatus::Healthy || v.status
            == SwapchainStatus::Stale),
        c.redraw_retried == false,
        extents.len() == handles.len(),
    ensures
        ({
            let (c2, tr) = run_steps(c, resize_events(extents, handles));
            &&& tr == resize_trace(c.view->0.surface, c.view->0.swapchain, extents, handles)
            &&& c2 == (LoopCore {
                view: Some(
                    WindowView {
                        swapchain: live_swapchain(c.view->0.swapchain, extents, handles),
                        extent: if extents.len() == 0 {
                            c.view->0.extent
                        } else {
                            extents.last()
                        },
                        status: final_status(c.view->0.status, extents),
                        ..c.view->0
                    },
                ),
                ..c
            })
        }),
    decreases extents.len(),
{
    let v = c.view->0;
    if extents.len() == 0 {
        assert(run_steps(c, resize_events(extents, handles)).0 == c);
        assert(c == (LoopCore {
            view: Some(
                WindowView { swapchain: v.swapchain, extent: v.extent, status: v.status, ..v },
            ),
            ..c
        }));
    } else if extents[0].is_zero() {
        let head: Seq<LoopEvent> = seq![LoopEvent::Resized(extents[0])];
        let tail_extents = extents.subrange(1, extents.len() as int);
        let tail_handles = handles.subrange(1, handles.len() as int);
        let rest = resize_events(tail_extents, tail_handles);
        lemma_run_steps_concat(c, head, rest);
        // The deferred resize changes the extent and marks the swapchain
        // stale; it makes no call.
        let s1 = loop_step(c, LoopEvent::Resized(extents[0]));
        lemma_run_one(c, LoopEvent::Resized(extents[0]));
        assert(run_steps(c, head).0 == s1.0);
        assert(run_steps(c, head).1 == s1.1);
        let mid = s1.0;
        assert(mid.phase == Phase::WindowBound);
        assert(mid.view->0.status == SwapchainStatus::Stale);
        assert(mid.redraw_retried == false);
        lemma_resize_run(mid, tail_extents, tail_handles);
        assert(run_steps(c, resize_events(extents, handles)).1 =~= resize_trace(
            v.surface,
            v.swapchain,
            extents,
            handles,
        ));
        if tail_extents.len() == 0 {
            assert(extents.last() == extents[0]);
        } else {
            assert(tail_extents.last() == extents.last());
        }
    } else {
        let head: Seq<LoopEvent> = seq![
            LoopEvent::Resized(extents[0]),
            LoopEvent::SwapchainRecreated(Ok(handles[0])),
        ];
        let tail_extents = extents.subrange(1, extents.len() as int);
        let tail_handles = handles.subrange(1, handles.len() as int);
        let rest = resize_events(tail_extents, tail_handles);
        lemma_run_steps_concat(c, head, rest);
        // Work the two head steps out by hand.
        let s1 = loop_step(c, LoopEvent::Resized(extents[0]));
        let s2 = loop_step(s1.0, LoopEvent::SwapchainRecreated(Ok(handles[0])));
        assert(!extents[0].is_zero());
        assert(head.subrange(1, 2) =~= seq![LoopEvent::SwapchainRecreated(Ok(handles[0]))]);
        lemma_run_one(s1.0, LoopEvent::SwapchainRecreated(Ok(handles[0])));
        assert(run_steps(c, head).0 == s2.0);
        assert(run_steps(c, head).1 =~= s1.1 + s2.1);
        let mid = s2.0;
        assert(mid.phase == Phase::WindowBound);
        assert(mid.view->0.status == SwapchainStatus::Healthy);
        assert(mid.redraw_retried == false);
        lemma_resize_run(mid, tail_extents, tail_handles);
        // The traces line up with the recursive definition of resize_trace.
        assert(resize_trace(v.surface, v.swapchain, extents, handles) == seq![
            Action::DestroySwapchain(v.swapchain),
            Action::CreateSwapchain(v.surface, extents[0]),
        ] + resize_trace(v.surface, handles[0], tail_extents, tail_handles));
        assert(s1.1 + s2.1 =~= seq![
            Action::DestroySwapchain(v.swapchain),
            Action::CreateSwapchain(v.surface, extents[0]),
        ]);
        assert(run_steps(c, resize_events(extents, handles)).1 =~= resize_trace(
            v.surface,
            v.swapchain,
            extents,
            handles,
        ));
        // The final state carries the last live handle and the last extent.
        if tail_extents.len() == 0 {
            assert(extents.last() == extents[0]);
        } else {
            assert(tail_extents.last() == extents.last());
        }
    }
}

/// Law: the full round trip — binding a window, resizing it any number of
/// times (usable resizes recreating successfully, zero-extent resizes
/// deferred), then suspending — makes exactly the expected calls: one
/// create per live handle, one matching destroy for each, each resize
/// destroying before creating, and the final teardown in reverse
/// dependency order (swapchain, surface, window). The loop ends unbound
/// with no binding left.
pub proof fn lemma_binder_round_trip(
    c: LoopCore,
    w: u64,
    e0: Extent,
    su: u64,
    sc0: u64,
    extents: Seq<Extent>,
    handles: Seq<u64>,
)
    requires
        c.phase == Phase::DeviceReady || c.phase == Phase::WindowUnbound,
        c.redraw_retried == false,
        extents.len() == handles.len(),
    ensures
        ({
            let evs = bind_events(w, e0, su, sc0) + resize_events(extents, handles) + seq![
                LoopEvent::Suspended,
            ];
            let (c2, tr) = run_steps(c, evs);
            &&& c2.phase == Phase::WindowUnbound
            &&& c2.view is None
            &&& tr == seq![
                Action::CreateWindow,
                Action::CreateSurface(w),
                Action::CreateSwapchain(su, e0),
            ] + resize_trace(su, sc0, extents, handles) + seq![
                Action::DestroySwapchain(live_swapchain(sc0, extents, handles)),
                Action::DestroySurface(su),
                Action::DestroyWindow(w),
            ]
        }),
{
    let bs = bind_events(w, e0, su, sc0);
    // Run the four bind events one at a time.
    let s1 = loop_step(c, LoopEvent::Resumed);
    let s2 = loop_step(s1.0, LoopEvent::WindowCreated(w, e0));
    let s3 = loop_step(s2.0, LoopEvent::SurfaceCreated(Ok(su)));
    let s4 = loop_step(s3.0, LoopEvent::SwapchainCreated(Ok(sc0)));
    let b0 = Seq::<LoopEvent>::empty();
    let b1 = b0.push(LoopEvent::Resumed);
    let b2 = b1.push(LoopEvent::WindowCreated(w, e0));
    let b3 = b2.push(LoopEvent::SurfaceCreated(Ok(su)));
    let b4 = b3.push(LoopEvent::SwapchainCreated(Ok(sc0)));
    assert(bs =~= b4);
    lemma_run_snoc(c, b0, LoopEvent::Resumed);
    lemma_run_snoc(c, b1, LoopEvent::WindowCreated(w, e0));
    lemma_run_snoc(c, b2, LoopEvent::SurfaceCreated(Ok(su)));
    lemma_run_snoc(c, b3, LoopEvent::SwapchainCreated(Ok(sc0)));
    assert(run_steps(c, bs).0 == s4.0);
    assert(run_steps(c, bs).1 =~= seq![
        Action::CreateWindow,
        Action::CreateSurface(w),
        Action::CreateSwapchain(su, e0),
    ]);
    // The bound state then absorbs the resize run.
    let bound = s4.0;
    assert(bound.phase == Phase::WindowBound);
    assert(bound.view->0 == (WindowView {
        window: w,
        surface: su,
        swapchain: sc0,
        extent: e0,
        status: SwapchainStatus::Healthy,
    }));
    lemma_resize_run(bound, extents, handles);
    let re = resize_events(extents, handles);
    let mid = run_steps(bound, re).0;
    lemma_run_steps_concat(c, bs, re);
    assert(run_steps(c, bs + re).0 == mid);
    // One suspend tears the binding down: the swapchain is live (healthy
    // or stale), so all three destroy calls run.
    let s5 = loop_step(mid, LoopEvent::Suspended);
    lemma_final_status_live(SwapchainStatus::Healthy, extents);
    assert(mid.view->0.status != SwapchainStatus::Absent);
    assert(mid.view->0.swapchain == live_swapchain(sc0, extents, handles));
    assert(s5.1 =~= seq![
        Action::DestroySwapchain(live_swapchain(sc0, extents, handles)),
        Action::DestroySurface(su),
        Action::DestroyWindow(w),
    ]);
    let evs = bs + re + seq![LoopEvent::Suspended];
    assert(evs =~= (bs + re).push(LoopEvent::Suspended));
    lemma_run_snoc(c, bs + re, LoopEvent::Suspended);
    assert(run_steps(c, evs).0 == s5.0);
    assert(run_steps(c, evs).1 =~= (run_steps(c, bs).1 + run_steps(bound, re).1) + s5.1);
    assert(run_steps(c, evs).1 =~= seq![
        Action::CreateWindow,
        Action::CreateSurface(w),
        Action::CreateSwapchain(su, e0),
    ] + resize_trace(su, sc0, extents, handles) + seq![
        Action::DestroySwapchain(live_swapchain(sc0, extents, handles)),
        Action::DestroySurface(su),
        Action::DestroyWindow(w),
    ]);
}

/// One kind of handle the binder owns.
#[derive(Clone, Copy, Debug, PartialEq, Eq, Structural)]
pub enum HandleKind {
    Window,
    Surface,
    Swapchain,
}

/// Whether the action creates a handle of kind `k`.
pub open spec fn is_create_of(a: Action, k: HandleKind) -> bool {
    match k {
        HandleKind::Window => a is CreateWindow,
        HandleKind::Surface => a is CreateSurface,
        HandleKind::Swapchain => a is CreateSwapchain,
    }
}

/// Whether the action destroys a handle of kind `k`.
pub open spec fn is_destroy_of(a: Action, k: HandleKind) -> bool {
    match k {
        HandleKind::Window => a is DestroyWindow,
        HandleKind::Surface => a is DestroySurface,
        HandleKind::Swapchain => a is DestroySwapchain,
    }
}

/// How many actions of the trace create a handle of kind `k`.
pub open spec fn count_creates(tr: Seq<Action>, k: HandleKind) -> nat
    decreases tr.len(),
{
    if tr.len() == 0 {
        0
    } else {
        count_creates(tr.drop_last(), k) + if is_create_of(tr.last(), k) {
            1nat
        } else {
            0nat
        }
    }
}

/// How many actions of the trace destroy a handle of kind `k`.
pub open spec fn count_destroys(tr: Seq<Action>, k: HandleKind) -> nat
    decreases tr.len(),
{
    if tr.len() == 0 {
        0
    } else {
        count_destroys(tr.drop_last(), k) + if is_destroy_of(tr.last(), k) {
            1nat
        } else {
            0nat
        }
    }
}

proof fn lemma_counts_concat(a: Seq<Action>, b: Seq<Action>, k: HandleKind)
    ensures
        count_creates(a + b, k) == count_creates(a, k) + count_creates(b, k),
        count_destroys(a + b, k) == count_destroys(a, k) + count_destroys(b, k),
    decreases b.len(),
{
    if b.len() == 0 {
        assert(a + b =~= a);
    } else {
        assert((a + b).drop_last() =~= a + b.drop_last());
        assert((a + b).last() == b.last());
        lemma_counts_concat(a, b.drop_last(), k);
    }
}

proof fn lemma_counts_2(a: Action, b: Action, k: HandleKind)
    ensures
        count_creates(seq![a, b], k) == (if is_create_of(a, k) {
            1nat
        } else {
            0nat
        }) + (if is_create_of(b, k) {
            1nat
        } else {
            0nat
        }),
        count_destroys(seq![a, b], k) == (if is_destroy_of(a, k) {
            1nat
        } else {
            0nat
        }) + (if is_destroy_of(b, k) {
            1nat
        } else {
            0nat
        }),
{
    let s2 = seq![a, b];
    let s1 = seq![a];
    let s0 = Seq::<Action>::empty();
    assert(s2.drop_last() =~= s1);
    assert(s1.drop_last() =~= s0);
    assert(s2.last() == b);
    assert(s1.last() == a);
    assert(count_creates(s0, k) == 0);
    assert(count_destroys(s0, k) == 0);
    assert(count_creates(s1, k) == (if is_create_of(a, k) {
        1nat
    } else {
        0nat
    }));
    assert(count_destroys(s1, k) == (if is_destroy_of(a, k) {
        1nat
    } else {
        0nat
    }));
}

proof fn lemma_counts_3(a: Action, b: Action, c: Action, k: HandleKind)
    ensures
        count_creates(seq![a, b, c], k) == (if is_create_of(a, k) {
            1nat
        } else {
            0nat
        }) + (if is_create_of(b, k) {
            1nat
        } else {
            0nat
        }) + (if is_create_of(c, k) {
            1nat
        } else {
            0nat
        }),
        count_destroys(seq![a, b, c], k) == (if is_destroy_of(a, k) {
            1nat
        } else {
            0nat
        }) + (if is_destroy_of(b, k) {
            1nat
        } else {
            0nat
        }) + (if is_destroy_of(c, k) {
            1nat
        } else {
            0nat
        }),
{
    let s3 = seq![a, b, c];
    let s2 = seq![a, b];
    assert(s3.drop_last() =~= s2);
    assert(s3.last() == c);
    lemma_counts_2(a, b, k);
}

proof fn lemma_resize_trace_counts(
    surface: u64,
    sc: u64,
    extents: Seq<Extent>,
    handles: Seq<u64>,
    k: HandleKind,
)
    requires
        extents.len() == handles.len(),
    ensures
        count_creates(resize_trace(surface, sc, extents, handles), k) == if k
            == HandleKind::Swapchain {
            usable_count(extents)
        } else {
            0
        },
        count_destroys(resize_trace(surface, sc, extents, handles), k) == if k
            == HandleKind::Swapchain {
            usable_count(extents)
        } else {
            0
        },
    decreases extents.len(),
{
    if extents.len() == 0 {
    } else if extents[0].is_zero() {
        lemma_resize_trace_counts(
            surface,
            sc,
            extents.subrange(1, extents.len() as int),
            handles.subrange(1, handles.len() as int),
            k,
        );
    } else {
        let head: Seq<Action> = seq![
            Action::DestroySwapchain(sc),
            Action::CreateSwapchain(surface, extents[0]),
        ];
        let tail_extents = extents.subrange(1, extents.len() as int);
        let tail_handles = handles.subrange(1, handles.len() as int);
        let rest = resize_trace(surface, handles[0], tail_extents, tail_handles);
        assert(resize_trace(surface, sc, extents, handles) == head + rest);
        lemma_counts_concat(head, rest, k);
        lemma_counts_2(
            Action::DestroySwapchain(sc),
            Action::CreateSwapchain(surface, extents[0]),
            k,
        );
        lemma_resize_trace_counts(surface, handles[0], tail_extents, tail_handles, k);
    }
}

/// Law: over the whole round trip of `lemma_binder_round_trip`, each kind
/// of handle sees exactly as many destroy calls as create calls: the run
/// leaks nothing and frees nothing twice.
pub proof fn lemma_round_trip_balanced(
    c: LoopCore,
    w: u64,
    e0: Extent,
    su: u64,
    sc0: u64,
    extents: Seq<Extent>,
    handles: Seq<u64>,
    k: HandleKind,
)
    requires
        c.phase == Phase::DeviceReady || c.phase == Phase::WindowUnbound,
        c.redraw_retried == false,
        extents.len() == handles.len(),
    ensures
        ({
            let evs = bind_events(w, e0, su, sc0) + resize_events(extents, handles) + seq![
                LoopEvent::Suspended,
            ];
            let tr = run_steps(c, evs).1;
            &&& count_creates(tr, k) == count_destroys(tr, k)
            &&& count_creates(tr, k) == (if k == HandleKind::Swapchain {
                usable_count(extents) + 1
            } else {
                1nat
            })
        }),
{
    lemma_binder_round_trip(c, w, e0, su, sc0, extents, handles);
    let front: Seq<Action> = seq![
        Action::CreateWindow,
        Action::CreateSurface(w),
        Action::CreateSwapchain(su, e0),
    ];
    let middle = resize_trace(su, sc0, extents, handles);
    let last_sc = live_swapchain(sc0, extents, handles);
    let back: Seq<Action> = seq![
        Action::DestroySwapchain(last_sc),
        Action::DestroySurface(su),
        Action::DestroyWindow(w),
    ];
    lemma_counts_concat(front, middle, k);
    lemma_counts_concat(front + middle, back, k);
    lemma_resize_trace_counts(su, sc0, extents, handles, k);
    lemma_counts_3(Action::CreateWindow, Action::CreateSurface(w), Action::CreateSwapchain(su, e0), k);
    lemma_counts_3(
        Action::DestroySwapchain(last_sc),
        Action::DestroySurface(su),
        Action::DestroyWindow(w),
        k,
    );
}

fn no_actions() -> (r: Vec<Action>)
    ensures
        r@ == Seq::<Action>::empty(),
{
    Vec::new()
}

fn one_action(a: Action) -> (r: Vec<Action>)
    ensures
        r@ == seq![a],
{
    let mut v: Vec<Action> = Vec::new();
    v.push(a);
    proof {
        assert(v@ =~= seq![a]);
    }
    v
}

fn two_actions(a: Action, b: Action) -> (r: Vec<Action>)
    ensures
        r@ == seq![a, b],
{
    let mut v: Vec<Action> = Vec::new();
    v.push(a);
    v.push(b);
    proof {
        assert(v@ =~= seq![a, b]);
    }
    v
}

fn three_actions(a: Action, b: Action, c: Action) -> (r: Vec<Action>)
    ensures
        r@ == seq![a, b, c],
{
    let mut v: Vec<Action> = Vec::new();
    v.push(a);
    v.push(b);
    v.push(c);
    proof {
        assert(v@ =~= seq![a, b, c]);
    }
    v
}

fn four_actions(a: Action, b: Action, c: Action, d: Action) -> (r: Vec<Action>)
    ensures
        r@ == seq![a, b, c, d],
{
    let mut v: Vec<Action> = Vec::new();
    v.push(a);
    v.push(b);
    v.push(c);
    v.push(d);
    proof {
        assert(v@ =~= seq![a, b, c, d]);
    }
    v
}

/// The application lifecycle machine: the loop state together with the
/// extension lists negotiated during bring-up. The host constructs one,
/// drives bring-up with the `on_*` methods, then feeds every platform and
/// window event through `handle_event`, performing the returned actions
/// after each call.
pub struct App {
    pub core: LoopCore,
    pub caller_instance_extensions: Vec<Vec<u8>>,
    pub caller_device_extensions: Vec<Vec<u8>>,
    pub presentation_extension: Vec<u8>,
    pub instance_extensions: Vec<Vec<u8>>,
    pub device_extensions: Vec<Vec<u8>>,
}

impl App {
    /// A machine that has not started yet, holding the caller's desired
    /// extension names and the name of the presentation extension.
    pub fn new(
        caller_instance_extensions: Vec<Vec<u8>>,
        caller_device_extensions: Vec<Vec<u8>>,
        presentation_extension: Vec<u8>,
    ) -> (app: App)
        ensures
            app.core.phase == Phase::Uninitialized,
            app.core.device is None,
            app.core.view is None,
            app.core.redraw_retried == false,
            app.caller_instance_extensions == caller_instance_extensions,
            app.caller_device_extensions == caller_device_extensions,
            app.presentation_extension == presentation_extension,
    {
        App {
            core: LoopCore {
                phase: Phase::Uninitialized,
                device: None,
                view: None,
                pending_window: 0,
                pending_extent: Extent { width: 0, height: 0 },
                pending_surface: 0,
                instance_handle: 0,
                physical_index: 0,
                queue_family_index: 0,
                redraw_retried: false,
            },
            caller_instance_extensions,
            caller_device_extensions,
            presentation_extension,
            instance_extensions: Vec::new(),
            device_extensions: Vec::new(),
        }
    }

    /// Begins bring-up by asking the host for the platform's mandatory
    /// instance extensions.
    pub fn start(&mut self) -> (actions: Vec<Action>)
        requires
            old(self).core.phase == Phase::Uninitialized,
        ensures
            *final(self) == (App {
                core: LoopCore { phase: Phase::QueryingPlatformExtensions, ..old(self).core },
                ..*old(self)
            }),
            actions@ == seq![Action::QueryPlatformExtensions],
    {
        self.core.phase = Phase::QueryingPlatformExtensions;
        one_action(Action::QueryPlatformExtensions)
    }

    /// Takes the platform's answer, negotiates both final extension lists,
    /// and asks for instance creation. A missing answer is the fatal
    /// `PlatformQueryFailed`; a caller name with an interior NUL byte is
    /// the fatal `InvalidExtensionName`.
    pub fn on_platform_extensions(&mut self, platform: Option<Vec<Vec<u8>>>) -> (actions: Vec<
        Action,
    >)
        requires
            old(self).core.phase == Phase::QueryingPlatformExtensions,
        ensures
            final(self).caller_instance_extensions == old(self).caller_instance_extensions,
            final(self).caller_device_extensions == old(self).caller_device_extensions,
            final(self).presentation_extension == old(self).presentation_extension,
            platform is None ==> {
                &&& *final(self) == (App {
                    core: LoopCore { phase: Phase::Failed, ..old(self).core },
                    ..*old(self)
                })
                &&& actions@ == seq![
                    Action::ReportFatal(VulkanError::PlatformQueryFailed),
                    Action::StopLoop,
                ]
            },
            (platform is Some && !(all_names_valid(old(self).caller_instance_extensions.deep_view())
                && all_names_valid(old(self).caller_device_extensions.deep_view()))) ==> {
                &&& *final(self) == (App {
                    core: LoopCore { phase: Phase::Failed, ..old(self).core },
                    ..*old(self)
                })
                &&& actions@ == seq![
                    Action::ReportFatal(VulkanError::InvalidExtensionName),
                    Action::StopLoop,
                ]
            },
            platform matches Some(p) ==> (all_names_valid(
                old(self).caller_instance_extensions.deep_view(),
            ) && all_names_valid(old(self).caller_device_extensions.deep_view())) ==> {
                &&& final(self).core == (LoopCore {
                    phase: Phase::CreatingInstance,
                    ..old(self).core
                })
                &&& final(self).instance_extensions.deep_view() == merged(
                    old(self).caller_instance_extensions.deep_view(),
                    p.deep_view(),
                )
                &&& final(self).device_extensions.deep_view() == merged(
                    old(self).caller_device_extensions.deep_view(),
                    seq![old(self).presentation_extension@],
                )
                &&& actions@ == seq![Action::CreateInstance]
            },
    {
        let negotiated_instance = match negotiate_instance_extensions(
            &self.caller_instance_extensions,
            &platform,
        ) {
            Ok(m) => m,
            Err(e) => {
                self.core.phase = Phase::Failed;
                return two_actions(Action::ReportFatal(e), Action::StopLoop);
            },
        };
        let negotiated_device = match negotiate_device_extensions(
            &self.caller_device_extensions,
            &self.presentation_extension,
        ) {
            Ok(m) => m,
            Err(e) => {
                self.core.phase = Phase::Failed;
                return two_actions(Action::ReportFatal(e), Action::StopLoop);
            },
        };
        self.instance_extensions = negotiated_instance;
        self.device_extensions = negotiated_device;
        self.core.phase = Phase::CreatingInstance;
        one_action(Action::CreateInstance)
    }

    /// Takes the outcome of instance creation and asks for device
    /// enumeration; an API refusal is fatal and carries the API's code.
    pub fn on_instance_created(&mut self, result: Result<u64, i32>) -> (actions: Vec<Action>)
        requires
            old(self).core.phase == Phase::CreatingInstance,
        ensures
            match result {
                Ok(h) => {
                    &&& *final(self) == (App {
                        core: LoopCore {
                            phase: Phase::EnumeratingDevices,
                            instance_handle: h,
                            ..old(self).core
                        },
                        ..*old(self)
                    })
                    &&& actions@ == seq![Action::EnumerateDevices]
                },
                Err(code) => {
                    &&& *final(self) == (App {
                        core: LoopCore { phase: Phase::Failed, ..old(self).core },
                        ..*old(self)
                    })
                    &&& actions@ == seq![
                        Action::ReportFatal(VulkanError::DeviceCreationFailed(code)),
                        Action::StopLoop,
                    ]
                },
            },
    {
        match result {
            Ok(h) => {
                self.core.instance_handle = h;
                self.core.phase = Phase::EnumeratingDevices;
                one_action(Action::EnumerateDevices)
            },
            Err(code) => {
                self.core.phase = Phase::Failed;
                two_actions(
                    Action::ReportFatal(VulkanError::DeviceCreationFailed(code)),
                    Action::StopLoop,
                )
            },
        }
    }

    /// Takes the enumerated device types, in enumeration order, and runs
    /// the selector over them; with no suitable device the bring-up fails
    /// with `NoSuitableDevice` and releases the instance it created, else
    /// the host is asked for the selected device's queue families.
    pub fn on_devices_enumerated(&mut self, types: &Vec<DeviceType>) -> (actions: Vec<Action>)
        requires
            old(self).core.phase == Phase::EnumeratingDevices,
        ensures
            (exists|j: int| 0 <= j < types@.len() && is_candidate(#[trigger] types@[j])) ==> {
                &&& is_selected(types@, final(self).core.physical_index as int)
                &&& *final(self) == (App {
                    core: LoopCore {
                        phase: Phase::QueryingQueueFamilies,
                        physical_index: final(self).core.physical_index,
                        ..old(self).core
                    },
                    ..*old(self)
                })
                &&& actions@ == seq![Action::QueryQueueFamilies(final(self).core.physical_index)]
            },
            !(exists|j: int| 0 <= j < types@.len() && is_candidate(#[trigger] types@[j])) ==> {
                &&& *final(self) == (App {
                    core: LoopCore { phase: Phase::Failed, ..old(self).core },
                    ..*old(self)
                })
                &&& actions@ == seq![
                    Action::ReportFatal(VulkanError::NoSuitableDevice),
                    Action::DestroyInstance(old(self).core.instance_handle),
                    Action::StopLoop,
                ]
            },
    {
        match pick_physical(types) {
            Ok(i) => {
                assert(is_candidate(types@[i as int]));
                self.core.physical_index = i;
                self.core.phase = Phase::QueryingQueueFamilies;
                one_action(Action::QueryQueueFamilies(i))
            },
            Err(e) => {
                self.core.phase = Phase::Failed;
                three_actions(
                    Action::ReportFatal(e),
                    Action::DestroyInstance(self.core.instance_handle),
                    Action::StopLoop,
                )
            },
        }
    }

    /// Takes the selected device's queue family properties, in enumeration
    /// order, and locates the first family that is graphics-capable and
    /// can present; with none the bring-up fails with
    /// `UnableToFindQueueFamily` and releases the instance it created,
    /// else the host is asked to create the logical device with one queue
    /// of that family.
    pub fn on_queue_families(&mut self, families: &Vec<QueueFamilyInfo>) -> (actions: Vec<Action>)
        requires
            old(self).core.phase == Phase::QueryingQueueFamilies,
            families@.len() <= u32::MAX,
        ensures
            (exists|j: int|
                0 <= j < families@.len() && family_usable(#[trigger] families@[j])) ==> {
                &&& is_first_usable_family(families@, final(self).core.queue_family_index as int)
                &&& *final(self) == (App {
                    core: LoopCore {
                        phase: Phase::CreatingLogicalDevice,
                        queue_family_index: final(self).core.queue_family_index,
                        ..old(self).core
                    },
                    ..*old(self)
                })
                &&& actions@ == seq![
                    Action::CreateLogicalDevice(
                        old(self).core.physical_index,
                        final(self).core.queue_family_index,
                    ),
                ]
            },
            !(exists|j: int|
                0 <= j < families@.len() && family_usable(#[trigger] families@[j])) ==> {
                &&& *final(self) == (App {
                    core: LoopCore { phase: Phase::Failed, ..old(self).core },
                    ..*old(self)
                })
                &&& actions@ == seq![
                    Action::ReportFatal(VulkanError::UnableToFindQueueFamily),
                    Action::DestroyInstance(old(self).core.instance_handle),
                    Action::StopLoop,
                ]
            },
    {
        match find_queue_family_index(families) {
            Some(q) => {
                assert(family_usable(families@[q as int]));
                self.core.queue_family_index = q;
                self.core.phase = Phase::CreatingLogicalDevice;
                one_action(Action::CreateLogicalDevice(self.core.physical_index, q))
            },
            None => {
                self.core.phase = Phase::Failed;
                three_actions(
                    Action::ReportFatal(VulkanError::UnableToFindQueueFamily),
                    Action::DestroyInstance(self.core.instance_handle),
                    Action::StopLoop,
                )
            },
        }
    }

    /// Takes the outcome of logical-device creation and completes
    /// bring-up: on success the device context stands, ready for the
    /// running loop; an API refusal is fatal, carries the API's code, and
    /// releases the instance the bring-up created.
    pub fn on_logical_device_created(&mut self, result: Result<u64, i32>) -> (actions: Vec<Action>)
        requires
            old(self).core.phase == Phase::CreatingLogicalDevice,
        ensures
            match result {
                Ok(h) => {
                    &&& *final(self) == (App {
                        core: LoopCore {
                            phase: Phase::DeviceReady,
                            device: Some(
                                Device {
                                    instance: old(self).core.instance_handle,
                                    physical_index: old(self).core.physical_index,
                                    queue_family_index: old(self).core.queue_family_index,
                                    logical: h,
                                },
                            ),
                            ..old(self).core
                        },
                        ..*old(self)
                    })
                    &&& actions@ == Seq::<Action>::empty()
                },
                Err(code) => {
                    &&& *final(self) == (App {
                        core: LoopCore { phase: Phase::Failed, ..old(self).core },
                        ..*old(self)
                    })
                    &&& actions@ == seq![
                        Action::ReportFatal(VulkanError::DeviceCreationFailed(code)),
                        Action::DestroyInstance(old(self).core.instance_handle),
                        Action::StopLoop,
                    ]
                },
            },
    {
        match result {
            Ok(h) => {
                self.core.device = Some(
                    Device::new(
                        self.core.instance_handle,
                        self.core.physical_index,
                        self.core.queue_family_index,
                        h,
                    ),
                );
                self.core.phase = Phase::DeviceReady;
                no_actions()
            },
            Err(code) => {
                self.core.phase = Phase::Failed;
                three_actions(
                    Action::ReportFatal(VulkanError::DeviceCreationFailed(code)),
                    Action::DestroyInstance(self.core.instance_handle),
                    Action::StopLoop,
                )
            },
        }
    }

    /// Feeds one event of the running loop through the transition
    /// function `loop_step` and returns the actions the host must now
    /// perform, in order.
    pub fn handle_event(&mut self, ev: LoopEvent) -> (actions: Vec<Action>)
        ensures
            *final(self) == (App { core: loop_step(old(self).core, ev).0, ..*old(self) }),
            actions@ == loop_step(old(self).core, ev).1,
    {
        let c = self.core;
        match ev {
            LoopEvent::Resumed => {
                if c.phase == Phase::DeviceReady || c.phase == Phase::WindowUnbound {
                    self.core.phase = Phase::CreatingWindow;
                    one_action(Action::CreateWindow)
                } else {
                    no_actions()
                }
            },
            LoopEvent::WindowCreated(w, e) => {
                if c.phase == Phase::CreatingWindow {
                    self.core.phase = Phase::CreatingSurface;
                    self.core.pending_window = w;
                    self.core.pending_extent = e;
                    one_action(Action::CreateSurface(w))
                } else {
                    no_actions()
                }
            },
            LoopEvent::WindowRefused => {
                if c.phase == Phase::CreatingWindow {
                    self.core.phase = Phase::WindowUnbound;
                    one_action(Action::ReportRecoverable(VulkanError::WindowCreationFailed))
                } else {
                    no_actions()
                }
            },
            LoopEvent::SurfaceCreated(r) => {
                if c.phase == Phase::CreatingSurface {
                    match r {
                        Ok(s) => {
                            self.core.phase = Phase::CreatingSwapchain;
                            self.core.pending_surface = s;
                            one_action(Action::CreateSwapchain(s, c.pending_extent))
                        },
                        Err(code) => {
                            self.core.phase = Phase::WindowUnbound;
                            two_actions(
                                Action::DestroyWindow(c.pending_window),
                                Action::ReportRecoverable(
                                    VulkanError::SurfaceCreationFailed(code),
                                ),
                            )
                        },
                    }
                } else {
                    no_actions()
                }
            },
            LoopEvent::SwapchainCreated(r) => {
                if c.phase == Phase::CreatingSwapchain {
                    match r {
                        Ok(sc) => {
                            self.core.phase = Phase::WindowBound;
                            self.core.view = Some(
                                WindowView {
                                    window: c.pending_window,
                                    surface: c.pending_surface,
                                    swapchain: sc,
                                    extent: c.pending_extent,
                                    status: SwapchainStatus::Healthy,
                                },
                            );
                            no_actions()
                        },
                        Err(code) => {
                            self.core.phase = Phase::WindowUnbound;
                            three_actions(
                                Action::DestroySurface(c.pending_surface),
                                Action::DestroyWindow(c.pending_window),
                                Action::ReportRecoverable(
                                    VulkanError::SwapchainCreationFailed(code),
                                ),
                            )
                        },
                    }
                } else {
                    no_actions()
                }
            },
            LoopEvent::Resized(e) => {
                if c.phase == Phase::WindowBound && c.view.is_some() {
                    let v = c.view.unwrap();
                    if e.is_zero() {
                        let status = if v.status == SwapchainStatus::Absent {
                            SwapchainStatus::Absent
                        } else {
                            SwapchainStatus::Stale
                        };
                        self.core.view = Some(WindowView { extent: e, status, ..v });
                        no_actions()
                    } else if v.status == SwapchainStatus::Absent {
                        self.core.phase = Phase::RecreatingSwapchain;
                        self.core.view = Some(WindowView { extent: e, ..v });
                        one_action(Action::CreateSwapchain(v.surface, e))
                    } else {
                        self.core.phase = Phase::RecreatingSwapchain;
                        self.core.view = Some(
                            WindowView { extent: e, status: SwapchainStatus::Absent, ..v },
                        );
                        two_actions(
                            Action::DestroySwapchain(v.swapchain),
                            Action::CreateSwapchain(v.surface, e),
                        )
                    }
                } else {
                    no_actions()
                }
            },
            LoopEvent::SwapchainRecreated(r) => {
                if c.phase == Phase::RecreatingSwapchain && c.view.is_some() {
                    let v = c.view.unwrap();
                    match r {
                        Ok(sc) => {
                            let bound = WindowView {
                                swapchain: sc,
                                status: SwapchainStatus::Healthy,
                                ..v
                            };
                            if c.redraw_retried {
                                self.core.phase = Phase::Presenting;
                                self.core.view = Some(bound);
                                one_action(Action::AcquireAndPresent(sc))
                            } else {
                                self.core.phase = Phase::WindowBound;
                                self.core.view = Some(bound);
                                no_actions()
                            }
                        },
                        Err(code) => {
                            if c.redraw_retried {
                                self.core.phase = Phase::WindowUnbound;
                                self.core.view = None;
                                self.core.redraw_retried = false;
                                three_actions(
                                    Action::DestroySurface(v.surface),
                                    Action::DestroyWindow(v.window),
                                    Action::ReportRecoverable(
                                        VulkanError::SwapchainCreationFailed(code),
                                    ),
                                )
                            } else {
                                self.core.phase = Phase::WindowBound;
                                self.core.view = Some(
                                    WindowView { status: SwapchainStatus::Absent, ..v },
                                );
                                one_action(
                                    Action::ReportRecoverable(
                                        VulkanError::SwapchainCreationFailed(code),
                                    ),
                                )
                            }
                        },
                    }
                } else {
                    no_actions()
                }
            },
            LoopEvent::RedrawRequested => {
                if c.phase == Phase::WindowBound && c.view.is_some() {
                    let v = c.view.unwrap();
                    if v.status == SwapchainStatus::Healthy {
                        self.core.phase = Phase::Presenting;
                        one_action(Action::AcquireAndPresent(v.swapchain))
                    } else {
                        no_actions()
                    }
                } else {
                    no_actions()
                }
            },
            LoopEvent::Presented(out) => {
                if c.phase == Phase::Presenting && c.view.is_some() {
                    let v = c.view.unwrap();
                    match out {
                        PresentOutcome::Success => {
                            self.core.phase = Phase::WindowBound;
                            self.core.redraw_retried = false;
                            no_actions()
                        },
                        PresentOutcome::OutOfDate(code) => {
                            if !c.redraw_retried {
                                self.core.phase = Phase::RecreatingSwapchain;
                                self.core.redraw_retried = true;
                                self.core.view = Some(
                                    WindowView { status: SwapchainStatus::Absent, ..v },
                                );
                                two_actions(
                                    Action::DestroySwapchain(v.swapchain),
                                    Action::CreateSwapchain(v.surface, v.extent),
                                )
                            } else {
                                self.core.phase = Phase::WindowUnbound;
                                self.core.view = None;
                                self.core.redraw_retried = false;
                                four_actions(
                                    Action::DestroySwapchain(v.swapchain),
                                    Action::DestroySurface(v.surface),
                                    Action::DestroyWindow(v.window),
                                    Action::ReportRecoverable(
                                        VulkanError::SwapchainCreationFailed(code),
                                    ),
                                )
                            }
                        },
                    }
                } else {
                    no_actions()
                }
            },
            LoopEvent::Suspended => {
                if c.phase == Phase::WindowBound && c.view.is_some() {
                    let v = c.view.unwrap();
                    self.core.phase = Phase::WindowUnbound;
                    self.core.view = None;
                    self.core.redraw_retried = false;
                    if v.status == SwapchainStatus::Absent {
                        two_actions(
                            Action::DestroySurface(v.surface),
                            Action::DestroyWindow(v.window),
                        )
                    } else {
                        three_actions(
                            Action::DestroySwapchain(v.swapchain),
                            Action::DestroySurface(v.surface),
                            Action::DestroyWindow(v.window),
                        )
                    }
                } else {
                    no_actions()
                }
            },
            LoopEvent::CloseRequested => {
                if c.phase == Phase::Exiting {
                    return no_actions();
                }
                self.core.phase = Phase::Exiting;
                self.core.view = None;
                let mut acts: Vec<Action> = Vec::new();
                match c.view {
                    Some(v) => {
                        if v.status != SwapchainStatus::Absent {
                            acts.push(Action::DestroySwapchain(v.swapchain));
                        }
                        acts.push(Action::DestroySurface(v.surface));
                        acts.push(Action::DestroyWindow(v.window));
                    },
                    None => {
                        if c.phase == Phase::CreatingSurface {
                            acts.push(Action::DestroyWindow(c.pending_window));
                        } else if c.phase == Phase::CreatingSwapchain {
                            acts.push(Action::DestroySurface(c.pending_surface));
                            acts.push(Action::DestroyWindow(c.pending_window));
                        }
                    },
                }
                proof {
                    assert(acts@ =~= binder_teardown(c));
                }
                match c.device {
                    Some(d) => {
                        acts.push(Action::DestroyDevice(d.logical));
                        acts.push(Action::DestroyInstance(d.instance));
                    },
                    None => {
                        if c.phase == Phase::EnumeratingDevices || c.phase
                            == Phase::QueryingQueueFamilies || c.phase
                            == Phase::CreatingLogicalDevice {
                            acts.push(Action::DestroyInstance(c.instance_handle));
                        }
                    },
                }
                proof {
                    assert(acts@ =~= binder_teardown(c) + device_teardown(c));
                }
                acts.push(Action::StopLoop);
                proof {
                    assert(acts@ =~= binder_teardown(c) + device_teardown(c) + seq![
                        Action::StopLoop,
                    ]);
                }
                acts
            },
        }
    }
}

} // verus!
