use replay_viewer::Action;
use replay_viewer::App;
use replay_viewer::Device;
use replay_viewer::DeviceType;
use replay_viewer::Extent;
use replay_viewer::LoopEvent;
use replay_viewer::Phase;
use replay_viewer::PresentOutcome;
use replay_viewer::QueueFamilyInfo;
use replay_viewer::SwapchainStatus;
use replay_viewer::VulkanError;

fn name(s: &str) -> Vec<u8> {
    s.as_bytes().to_vec()
}

fn swapchain_name() -> Vec<u8> {
    name("VK_KHR_swapchain")
}

/// Runs the whole bring-up with the given enumeration answers and leaves
/// the machine in `DeviceReady`.
fn ready_app() -> App {
    let mut app = App::new(vec![name("ext_a")], vec![], swapchain_name());
    assert_eq!(app.core.phase, Phase::Uninitialized);
    let acts = app.start();
    assert_eq!(acts, vec![Action::QueryPlatformExtensions]);
    assert_eq!(app.core.phase, Phase::QueryingPlatformExtensions);
    let acts = app.on_platform_extensions(Some(vec![name("ext_b"), name("ext_c")]));
    assert_eq!(acts, vec![Action::CreateInstance]);
    assert_eq!(app.core.phase, Phase::CreatingInstance);
    assert_eq!(
        app.instance_extensions,
        vec![name("ext_a"), name("ext_b"), name("ext_c")]
    );
    assert_eq!(app.device_extensions, vec![swapchain_name()]);
    let acts = app.on_instance_created(Ok(11));
    assert_eq!(acts, vec![Action::EnumerateDevices]);
    let acts = app.on_devices_enumerated(&vec![
        DeviceType::Integrated,
        DeviceType::Discrete,
        DeviceType::Virtual,
    ]);
    assert_eq!(acts, vec![Action::QueryQueueFamilies(1)]);
    let acts = app.on_queue_families(&vec![
        QueueFamilyInfo { supports_graphics: false, supports_present: true },
        QueueFamilyInfo { supports_graphics: true, supports_present: true },
    ]);
    assert_eq!(acts, vec![Action::CreateLogicalDevice(1, 1)]);
    let acts = app.on_logical_device_created(Ok(22));
    assert_eq!(acts, vec![]);
    assert_eq!(app.core.phase, Phase::DeviceReady);
    assert_eq!(
        app.core.device,
        Some(Device { instance: 11, physical_index: 1, queue_family_index: 1, logical: 22 })
    );
    app
}

/// Binds a window with the given handles and leaves the machine in
/// `WindowBound` with a healthy swapchain.
fn bind(app: &mut App, w: u64, su: u64, sc: u64, extent: Extent) {
    let acts = app.handle_event(LoopEvent::Resumed);
    assert_eq!(acts, vec![Action::CreateWindow]);
    let acts = app.handle_event(LoopEvent::WindowCreated(w, extent));
    assert_eq!(acts, vec![Action::CreateSurface(w)]);
    let acts = app.handle_event(LoopEvent::SurfaceCreated(Ok(su)));
    assert_eq!(acts, vec![Action::CreateSwapchain(su, extent)]);
    let acts = app.handle_event(LoopEvent::SwapchainCreated(Ok(sc)));
    assert_eq!(acts, vec![]);
    assert_eq!(app.core.phase, Phase::WindowBound);
    let view = app.core.view.unwrap();
    assert_eq!(view.window, w);
    assert_eq!(view.surface, su);
    assert_eq!(view.swapchain, sc);
    assert_eq!(view.extent, extent);
    assert_eq!(view.status, SwapchainStatus::Healthy);
}

#[test]
fn bring_up_and_bind_succeed() {
    let mut app = ready_app();
    bind(&mut app, 1, 2, 3, Extent { width: 800, height: 600 });
}

#[test]
fn missing_platform_answer_is_fatal() {
    let mut app = App::new(vec![], vec![], swapchain_name());
    app.start();
    let acts = app.on_platform_extensions(None);
    assert_eq!(
        acts,
        vec![Action::ReportFatal(VulkanError::PlatformQueryFailed), Action::StopLoop]
    );
    assert_eq!(app.core.phase, Phase::Failed);
}

#[test]
fn bad_extension_name_is_fatal() {
    let mut app = App::new(vec![vec![b'a', 0u8]], vec![], swapchain_name());
    app.start();
    let acts = app.on_platform_extensions(Some(vec![]));
    assert_eq!(
        acts,
        vec![Action::ReportFatal(VulkanError::InvalidExtensionName), Action::StopLoop]
    );
    assert_eq!(app.core.phase, Phase::Failed);
}

#[test]
fn instance_refusal_is_fatal_with_code() {
    let mut app = App::new(vec![], vec![], swapchain_name());
    app.start();
    app.on_platform_extensions(Some(vec![]));
    let acts = app.on_instance_created(Err(-1));
    assert_eq!(
        acts,
        vec![Action::ReportFatal(VulkanError::DeviceCreationFailed(-1)), Action::StopLoop]
    );
    assert_eq!(app.core.phase, Phase::Failed);
}

#[test]
fn enumeration_without_candidates_is_fatal() {
    let mut app = App::new(vec![], vec![], swapchain_name());
    app.start();
    app.on_platform_extensions(Some(vec![]));
    app.on_instance_created(Ok(11));
    let acts = app.on_devices_enumerated(&vec![DeviceType::Cpu, DeviceType::Other]);
    assert_eq!(
        acts,
        vec![
            Action::ReportFatal(VulkanError::NoSuitableDevice),
            Action::DestroyInstance(11),
            Action::StopLoop,
        ]
    );
    assert_eq!(app.core.phase, Phase::Failed);
    // The instance was already released: a later close frees nothing twice.
    let acts = app.handle_event(LoopEvent::CloseRequested);
    assert_eq!(acts, vec![Action::StopLoop]);
}

#[test]
fn missing_graphics_family_is_fatal() {
    let mut app = App::new(vec![], vec![], swapchain_name());
    app.start();
    app.on_platform_extensions(Some(vec![]));
    app.on_instance_created(Ok(11));
    app.on_devices_enumerated(&vec![DeviceType::Discrete]);
    let acts = app.on_queue_families(&vec![
        QueueFamilyInfo { supports_graphics: false, supports_present: true },
    ]);
    assert_eq!(
        acts,
        vec![
            Action::ReportFatal(VulkanError::UnableToFindQueueFamily),
            Action::DestroyInstance(11),
            Action::StopLoop,
        ]
    );
    assert_eq!(app.core.phase, Phase::Failed);
}

#[test]
fn graphics_family_without_present_support_is_fatal() {
    let mut app = App::new(vec![], vec![], swapchain_name());
    app.start();
    app.on_platform_extensions(Some(vec![]));
    app.on_instance_created(Ok(11));
    app.on_devices_enumerated(&vec![DeviceType::Discrete]);
    let acts = app.on_queue_families(&vec![
        QueueFamilyInfo { supports_graphics: true, supports_present: false },
    ]);
    assert_eq!(
        acts,
        vec![
            Action::ReportFatal(VulkanError::UnableToFindQueueFamily),
            Action::DestroyInstance(11),
            Action::StopLoop,
        ]
    );
    assert_eq!(app.core.phase, Phase::Failed);
}

#[test]
fn logical_device_refusal_is_fatal_with_code() {
    let mut app = App::new(vec![], vec![], swapchain_name());
    app.start();
    app.on_platform_extensions(Some(vec![]));
    app.on_instance_created(Ok(11));
    app.on_devices_enumerated(&vec![DeviceType::Discrete]);
    app.on_queue_families(&vec![
        QueueFamilyInfo { supports_graphics: true, supports_present: true },
    ]);
    let acts = app.on_logical_device_created(Err(-2));
    assert_eq!(
        acts,
        vec![
            Action::ReportFatal(VulkanError::DeviceCreationFailed(-2)),
            Action::DestroyInstance(11),
            Action::StopLoop,
        ]
    );
    assert_eq!(app.core.phase, Phase::Failed);
}

#[test]
fn close_during_bring_up_releases_the_bare_instance() {
    let mut app = App::new(vec![], vec![], swapchain_name());
    app.start();
    app.on_platform_extensions(Some(vec![]));
    app.on_instance_created(Ok(11));
    // The instance exists but no device record does yet: shutdown here
    // must still release the instance, exactly once.
    let acts = app.handle_event(LoopEvent::CloseRequested);
    assert_eq!(acts, vec![Action::DestroyInstance(11), Action::StopLoop]);
    assert_eq!(app.core.phase, Phase::Exiting);
    let acts = app.handle_event(LoopEvent::CloseRequested);
    assert_eq!(acts, vec![]);
}

#[test]
fn zero_extent_resize_is_deferred_and_next_resize_recovers() {
    let mut app = ready_app();
    bind(&mut app, 1, 2, 3, Extent { width: 800, height: 600 });
    // Zero extent: no destroy, no create, still bound.
    let acts = app.handle_event(LoopEvent::Resized(Extent { width: 0, height: 0 }));
    assert_eq!(acts, vec![]);
    assert_eq!(app.core.phase, Phase::WindowBound);
    assert_eq!(app.core.view.unwrap().status, SwapchainStatus::Stale);
    // Presenting waits while the swapchain is stale.
    let acts = app.handle_event(LoopEvent::RedrawRequested);
    assert_eq!(acts, vec![]);
    assert_eq!(app.core.phase, Phase::WindowBound);
    // A usable size recreates the swapchain.
    let acts = app.handle_event(LoopEvent::Resized(Extent { width: 640, height: 480 }));
    assert_eq!(
        acts,
        vec![
            Action::DestroySwapchain(3),
            Action::CreateSwapchain(2, Extent { width: 640, height: 480 }),
        ]
    );
    let acts = app.handle_event(LoopEvent::SwapchainRecreated(Ok(4)));
    assert_eq!(acts, vec![]);
    assert_eq!(app.core.phase, Phase::WindowBound);
    let view = app.core.view.unwrap();
    assert_eq!(view.status, SwapchainStatus::Healthy);
    assert_eq!(view.swapchain, 4);
    assert_eq!(view.extent, Extent { width: 640, height: 480 });
}

#[test]
fn close_while_bound_tears_down_in_order() {
    let mut app = ready_app();
    bind(&mut app, 1, 2, 3, Extent { width: 800, height: 600 });
    let acts = app.handle_event(LoopEvent::CloseRequested);
    assert_eq!(
        acts,
        vec![
            Action::DestroySwapchain(3),
            Action::DestroySurface(2),
            Action::DestroyWindow(1),
            Action::DestroyDevice(22),
            Action::DestroyInstance(11),
            Action::StopLoop,
        ]
    );
    assert_eq!(app.core.phase, Phase::Exiting);
    assert!(app.core.view.is_none());
}

#[test]
fn resize_then_close_destroys_each_handle_once() {
    let mut app = ready_app();
    bind(&mut app, 1, 2, 3, Extent { width: 800, height: 600 });
    app.handle_event(LoopEvent::Resized(Extent { width: 100, height: 100 }));
    app.handle_event(LoopEvent::SwapchainRecreated(Ok(4)));
    let acts = app.handle_event(LoopEvent::CloseRequested);
    assert_eq!(
        acts,
        vec![
            Action::DestroySwapchain(4),
            Action::DestroySurface(2),
            Action::DestroyWindow(1),
            Action::DestroyDevice(22),
            Action::DestroyInstance(11),
            Action::StopLoop,
        ]
    );
}

#[test]
fn suspend_destroys_binder_and_keeps_device() {
    let mut app = ready_app();
    bind(&mut app, 1, 2, 3, Extent { width: 800, height: 600 });
    let acts = app.handle_event(LoopEvent::Suspended);
    assert_eq!(
        acts,
        vec![Action::DestroySwapchain(3), Action::DestroySurface(2), Action::DestroyWindow(1)]
    );
    assert_eq!(app.core.phase, Phase::WindowUnbound);
    assert!(app.core.view.is_none());
    assert!(app.core.device.is_some());
    // A later resume binds a fresh window.
    bind(&mut app, 5, 6, 7, Extent { width: 320, height: 200 });
}

#[test]
fn resumed_while_bound_changes_nothing() {
    let mut app = ready_app();
    bind(&mut app, 1, 2, 3, Extent { width: 800, height: 600 });
    let acts = app.handle_event(LoopEvent::Resumed);
    assert_eq!(acts, vec![]);
    assert_eq!(app.core.phase, Phase::WindowBound);
}

#[test]
fn window_refusal_is_recoverable() {
    let mut app = ready_app();
    let acts = app.handle_event(LoopEvent::Resumed);
    assert_eq!(acts, vec![Action::CreateWindow]);
    let acts = app.handle_event(LoopEvent::WindowRefused);
    assert_eq!(
        acts,
        vec![Action::ReportRecoverable(VulkanError::WindowCreationFailed)]
    );
    assert_eq!(app.core.phase, Phase::WindowUnbound);
    assert!(app.core.device.is_some());
}

#[test]
fn surface_refusal_releases_the_window() {
    let mut app = ready_app();
    app.handle_event(LoopEvent::Resumed);
    app.handle_event(LoopEvent::WindowCreated(1, Extent { width: 800, height: 600 }));
    let acts = app.handle_event(LoopEvent::SurfaceCreated(Err(-3)));
    assert_eq!(
        acts,
        vec![
            Action::DestroyWindow(1),
            Action::ReportRecoverable(VulkanError::SurfaceCreationFailed(-3)),
        ]
    );
    assert_eq!(app.core.phase, Phase::WindowUnbound);
}

#[test]
fn initial_swapchain_refusal_releases_surface_and_window() {
    let mut app = ready_app();
    app.handle_event(LoopEvent::Resumed);
    app.handle_event(LoopEvent::WindowCreated(1, Extent { width: 800, height: 600 }));
    app.handle_event(LoopEvent::SurfaceCreated(Ok(2)));
    let acts = app.handle_event(LoopEvent::SwapchainCreated(Err(-4)));
    assert_eq!(
        acts,
        vec![
            Action::DestroySurface(2),
            Action::DestroyWindow(1),
            Action::ReportRecoverable(VulkanError::SwapchainCreationFailed(-4)),
        ]
    );
    assert_eq!(app.core.phase, Phase::WindowUnbound);
}

#[test]
fn redraw_presents_and_succeeds() {
    let mut app = ready_app();
    bind(&mut app, 1, 2, 3, Extent { width: 800, height: 600 });
    let acts = app.handle_event(LoopEvent::RedrawRequested);
    assert_eq!(acts, vec![Action::AcquireAndPresent(3)]);
    assert_eq!(app.core.phase, Phase::Presenting);
    let acts = app.handle_event(LoopEvent::Presented(PresentOutcome::Success));
    assert_eq!(acts, vec![]);
    assert_eq!(app.core.phase, Phase::WindowBound);
}

#[test]
fn out_of_date_present_recreates_and_retries_once() {
    let mut app = ready_app();
    bind(&mut app, 1, 2, 3, Extent { width: 800, height: 600 });
    app.handle_event(LoopEvent::RedrawRequested);
    let acts = app.handle_event(LoopEvent::Presented(PresentOutcome::OutOfDate(-7)));
    assert_eq!(
        acts,
        vec![
            Action::DestroySwapchain(3),
            Action::CreateSwapchain(2, Extent { width: 800, height: 600 }),
        ]
    );
    let acts = app.handle_event(LoopEvent::SwapchainRecreated(Ok(4)));
    assert_eq!(acts, vec![Action::AcquireAndPresent(4)]);
    // The retry succeeds and the loop is bound again.
    let acts = app.handle_event(LoopEvent::Presented(PresentOutcome::Success));
    assert_eq!(acts, vec![]);
    assert_eq!(app.core.phase, Phase::WindowBound);
    assert_eq!(app.core.view.unwrap().swapchain, 4);
}

#[test]
fn failing_twice_unbinds_the_window() {
    let mut app = ready_app();
    bind(&mut app, 1, 2, 3, Extent { width: 800, height: 600 });
    app.handle_event(LoopEvent::RedrawRequested);
    app.handle_event(LoopEvent::Presented(PresentOutcome::OutOfDate(-7)));
    app.handle_event(LoopEvent::SwapchainRecreated(Ok(4)));
    let acts = app.handle_event(LoopEvent::Presented(PresentOutcome::OutOfDate(-7)));
    assert_eq!(
        acts,
        vec![
            Action::DestroySwapchain(4),
            Action::DestroySurface(2),
            Action::DestroyWindow(1),
            Action::ReportRecoverable(VulkanError::SwapchainCreationFailed(-7)),
        ]
    );
    assert_eq!(app.core.phase, Phase::WindowUnbound);
    assert!(app.core.device.is_some());
}

#[test]
fn failed_recreation_degrades_to_waiting() {
    let mut app = ready_app();
    bind(&mut app, 1, 2, 3, Extent { width: 800, height: 600 });
    app.handle_event(LoopEvent::Resized(Extent { width: 640, height: 480 }));
    let acts = app.handle_event(LoopEvent::SwapchainRecreated(Err(-9)));
    assert_eq!(
        acts,
        vec![Action::ReportRecoverable(VulkanError::SwapchainCreationFailed(-9))]
    );
    assert_eq!(app.core.phase, Phase::WindowBound);
    assert_eq!(app.core.view.unwrap().status, SwapchainStatus::Absent);
    // Presentation waits; the next resize creates without destroying.
    let acts = app.handle_event(LoopEvent::RedrawRequested);
    assert_eq!(acts, vec![]);
    let acts = app.handle_event(LoopEvent::Resized(Extent { width: 320, height: 200 }));
    assert_eq!(
        acts,
        vec![Action::CreateSwapchain(2, Extent { width: 320, height: 200 })]
    );
    let acts = app.handle_event(LoopEvent::SwapchainRecreated(Ok(5)));
    assert_eq!(acts, vec![]);
    assert_eq!(app.core.view.unwrap().status, SwapchainStatus::Healthy);
}

#[test]
fn round_trip_pairs_every_create_with_one_destroy() {
    let mut app = ready_app();
    let mut trace: Vec<Action> = Vec::new();
    trace.extend(app.handle_event(LoopEvent::Resumed));
    trace.extend(app.handle_event(LoopEvent::WindowCreated(1, Extent { width: 800, height: 600 })));
    trace.extend(app.handle_event(LoopEvent::SurfaceCreated(Ok(2))));
    trace.extend(app.handle_event(LoopEvent::SwapchainCreated(Ok(3))));
    let resizes = [(100u32, 100u32, 4u64), (200, 150, 5), (320, 240, 6)];
    for &(w, h, handle) in resizes.iter() {
        trace.extend(app.handle_event(LoopEvent::Resized(Extent { width: w, height: h })));
        trace.extend(app.handle_event(LoopEvent::SwapchainRecreated(Ok(handle))));
    }
    trace.extend(app.handle_event(LoopEvent::Suspended));
    // Every created handle of each kind is destroyed exactly once.
    let mut created: Vec<u64> = vec![1, 2, 3, 4, 5, 6];
    let mut destroyed: Vec<u64> = trace
        .iter()
        .filter_map(|a| match a {
            Action::DestroyWindow(h) | Action::DestroySurface(h) | Action::DestroySwapchain(h) => {
                Some(*h)
            }
            _ => None,
        })
        .collect();
    created.sort();
    destroyed.sort();
    assert_eq!(created, destroyed);
    // The final teardown runs in reverse dependency order.
    let n = trace.len();
    assert_eq!(
        &trace[n - 3..],
        &[Action::DestroySwapchain(6), Action::DestroySurface(2), Action::DestroyWindow(1)]
    );
    assert_eq!(app.core.phase, Phase::WindowUnbound);
}

#[test]
fn round_trip_with_deferred_resizes_stays_balanced() {
    let mut app = ready_app();
    let mut trace: Vec<Action> = Vec::new();
    trace.extend(app.handle_event(LoopEvent::Resumed));
    trace.extend(app.handle_event(LoopEvent::WindowCreated(1, Extent { width: 800, height: 600 })));
    trace.extend(app.handle_event(LoopEvent::SurfaceCreated(Ok(2))));
    trace.extend(app.handle_event(LoopEvent::SwapchainCreated(Ok(3))));
    // A zero-extent resize is deferred: no call, no recreation outcome.
    trace.extend(app.handle_event(LoopEvent::Resized(Extent { width: 0, height: 0 })));
    trace.extend(app.handle_event(LoopEvent::Resized(Extent { width: 200, height: 150 })));
    trace.extend(app.handle_event(LoopEvent::SwapchainRecreated(Ok(4))));
    trace.extend(app.handle_event(LoopEvent::Resized(Extent { width: 0, height: 99 })));
    trace.extend(app.handle_event(LoopEvent::Suspended));
    let mut created: Vec<u64> = vec![1, 2, 3, 4];
    let mut destroyed: Vec<u64> = trace
        .iter()
        .filter_map(|a| match a {
            Action::DestroyWindow(h) | Action::DestroySurface(h) | Action::DestroySwapchain(h) => {
                Some(*h)
            }
            _ => None,
        })
        .collect();
    created.sort();
    destroyed.sort();
    assert_eq!(created, destroyed);
    assert_eq!(app.core.phase, Phase::WindowUnbound);
}

#[test]
fn close_while_unbound_destroys_only_the_device() {
    let mut app = ready_app();
    let acts = app.handle_event(LoopEvent::CloseRequested);
    assert_eq!(
        acts,
        vec![Action::DestroyDevice(22), Action::DestroyInstance(11), Action::StopLoop]
    );
    assert_eq!(app.core.phase, Phase::Exiting);
}

#[test]
fn events_after_exit_change_nothing() {
    let mut app = ready_app();
    app.handle_event(LoopEvent::CloseRequested);
    let acts = app.handle_event(LoopEvent::Resumed);
    assert_eq!(acts, vec![]);
    let acts = app.handle_event(LoopEvent::CloseRequested);
    assert_eq!(acts, vec![]);
    assert_eq!(app.core.phase, Phase::Exiting);
}
