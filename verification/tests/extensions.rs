use replay_viewer::VulkanError;
use replay_viewer::all_valid;
use replay_viewer::bytes_eq;
use replay_viewer::contains_name;
use replay_viewer::copy_name;
use replay_viewer::merge_extension_names;
use replay_viewer::negotiate_device_extensions;
use replay_viewer::negotiate_instance_extensions;

fn name(s: &str) -> Vec<u8> {
    s.as_bytes().to_vec()
}

#[test]
fn caller_and_platform_names_merge_without_duplicates() {
    let caller = vec![name("ext_a")];
    let platform = vec![name("ext_b"), name("ext_c")];
    let merged = merge_extension_names(&caller, &platform);
    assert_eq!(merged, vec![name("ext_a"), name("ext_b"), name("ext_c")]);
    assert_eq!(merged.len(), 3);
    for i in 0..merged.len() {
        for j in 0..merged.len() {
            if i != j {
                assert_ne!(merged[i], merged[j]);
            }
        }
    }
}

#[test]
fn duplicate_names_are_kept_once_at_first_occurrence() {
    let caller = vec![name("a"), name("b"), name("a")];
    let platform = vec![name("b"), name("c"), name("a")];
    let merged = merge_extension_names(&caller, &platform);
    assert_eq!(merged, vec![name("a"), name("b"), name("c")]);
}

#[test]
fn merged_set_ignores_input_order() {
    let caller1 = vec![name("x"), name("y")];
    let caller2 = vec![name("y"), name("x")];
    let platform = vec![name("z")];
    let mut m1 = merge_extension_names(&caller1, &platform);
    let mut m2 = merge_extension_names(&caller2, &platform);
    m1.sort();
    m2.sort();
    assert_eq!(m1, m2);
}

#[test]
fn merging_is_idempotent() {
    let caller = vec![name("a"), name("b")];
    let platform = vec![name("b"), name("c")];
    let once = merge_extension_names(&caller, &platform);
    let twice = merge_extension_names(&once, &platform);
    assert_eq!(once, twice);
}

#[test]
fn instance_negotiation_needs_a_platform_answer() {
    let caller = vec![name("ext_a")];
    let r = negotiate_instance_extensions(&caller, &None);
    assert_eq!(r, Err(VulkanError::PlatformQueryFailed));
}

#[test]
fn instance_negotiation_rejects_interior_nul() {
    let caller = vec![vec![b'a', 0u8, b'b']];
    let platform = Some(vec![name("ext_b")]);
    let r = negotiate_instance_extensions(&caller, &platform);
    assert_eq!(r, Err(VulkanError::InvalidExtensionName));
}

#[test]
fn platform_failure_wins_over_bad_name() {
    let caller = vec![vec![0u8]];
    let r = negotiate_instance_extensions(&caller, &None);
    assert_eq!(r, Err(VulkanError::PlatformQueryFailed));
}

#[test]
fn instance_negotiation_merges_both_sides() {
    let caller = vec![name("ext_a"), name("ext_b")];
    let platform = Some(vec![name("ext_b"), name("ext_c")]);
    let r = negotiate_instance_extensions(&caller, &platform).unwrap();
    assert_eq!(r, vec![name("ext_a"), name("ext_b"), name("ext_c")]);
}

#[test]
fn device_negotiation_appends_presentation_extension() {
    let caller = vec![name("ext_d")];
    let r = negotiate_device_extensions(&caller, &name("VK_KHR_swapchain")).unwrap();
    assert_eq!(r, vec![name("ext_d"), name("VK_KHR_swapchain")]);
}

#[test]
fn device_negotiation_keeps_presentation_extension_once() {
    let caller = vec![name("VK_KHR_swapchain"), name("ext_d")];
    let r = negotiate_device_extensions(&caller, &name("VK_KHR_swapchain")).unwrap();
    assert_eq!(r, vec![name("VK_KHR_swapchain"), name("ext_d")]);
}

#[test]
fn device_negotiation_rejects_interior_nul() {
    let caller = vec![vec![b'x', 0u8]];
    let r = negotiate_device_extensions(&caller, &name("VK_KHR_swapchain"));
    assert_eq!(r, Err(VulkanError::InvalidExtensionName));
}

#[test]
fn empty_caller_lists_still_carry_mandated_names() {
    let caller: Vec<Vec<u8>> = vec![];
    let platform = Some(vec![name("ext_p")]);
    let inst = negotiate_instance_extensions(&caller, &platform).unwrap();
    assert_eq!(inst, vec![name("ext_p")]);
    let dev = negotiate_device_extensions(&caller, &name("VK_KHR_swapchain")).unwrap();
    assert_eq!(dev, vec![name("VK_KHR_swapchain")]);
}

#[test]
fn bytes_eq_compares_contents() {
    assert!(bytes_eq(&name("abc"), &name("abc")));
    assert!(!bytes_eq(&name("abc"), &name("abd")));
    assert!(!bytes_eq(&name("abc"), &name("ab")));
    assert!(bytes_eq(&name(""), &name("")));
}

#[test]
fn copy_name_copies_contents() {
    let n = name("ext_a");
    assert_eq!(copy_name(&n), n);
}

#[test]
fn contains_name_finds_names() {
    let names = vec![name("a"), name("b")];
    assert!(contains_name(&names, &name("b")));
    assert!(!contains_name(&names, &name("c")));
}

#[test]
fn all_valid_checks_every_name() {
    assert!(all_valid(&vec![name("a"), name("b")]));
    assert!(all_valid(&vec![]));
    assert!(!all_valid(&vec![name("a"), vec![0u8]]));
}
