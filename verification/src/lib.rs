mod binder;
mod device;
mod errors;
mod extensions;
mod lifecycle;
mod queue;
mod select;

pub use binder::Extent;
pub use binder::SwapchainStatus;
pub use binder::WindowView;
pub use device::Device;
pub use errors::VulkanError;
pub use extensions::all_names_valid;
pub use extensions::all_valid;
pub use extensions::bytes_eq;
pub use extensions::contains_name;
pub use extensions::copy_name;
pub use extensions::count_of;
pub use extensions::dedup_first;
pub use extensions::lemma_merged_exactly_once;
pub use extensions::lemma_merged_idempotent;
pub use extensions::lemma_merged_order_insensitive;
pub use extensions::merge_extension_names;
pub use extensions::merged;
pub use extensions::negotiate_device_extensions;
pub use extensions::negotiate_instance_extensions;
pub use extensions::no_duplicates;
pub use extensions::valid_ext_name;
pub use lifecycle::Action;
pub use lifecycle::App;
pub use lifecycle::HandleKind;
pub use lifecycle::holds_bare_instance;
pub use lifecycle::LoopCore;
pub use lifecycle::LoopEvent;
pub use lifecycle::Phase;
pub use lifecycle::PresentOutcome;
pub use lifecycle::bind_events;
pub use lifecycle::binder_teardown;
pub use lifecycle::core_inv;
pub use lifecycle::count_creates;
pub use lifecycle::count_destroys;
pub use lifecycle::device_teardown;
pub use lifecycle::is_create_of;
pub use lifecycle::is_destroy_of;
pub use lifecycle::final_status;
pub use lifecycle::is_run_phase;
pub use lifecycle::lemma_binder_round_trip;
pub use lifecycle::lemma_close_teardown_order;
pub use lifecycle::lemma_loop_step_preserves_inv;
pub use lifecycle::lemma_resize_applies_before_redraw;
pub use lifecycle::lemma_round_trip_balanced;
pub use lifecycle::lemma_run_steps_concat;
pub use lifecycle::lemma_zero_resize_deferred;
pub use lifecycle::live_swapchain;
pub use lifecycle::loop_step;
pub use lifecycle::resize_events;
pub use lifecycle::resize_trace;
pub use lifecycle::run_steps;
pub use lifecycle::usable_count;
pub use lifecycle::view_teardown;
pub use queue::QueueFamilyInfo;
pub use queue::family_usable;
pub use queue::find_queue_family_index;
pub use queue::is_first_usable_family;
pub use select::DeviceType;
pub use select::beats;
pub use select::is_candidate;
pub use select::is_selected;
pub use select::lemma_discrete_wins;
pub use select::lemma_first_of_best_type;
pub use select::lemma_integrated_beats_virtual;
pub use select::lemma_selected_unique;
pub use select::pick_between;
pub use select::pick_physical;
pub use select::rank;
