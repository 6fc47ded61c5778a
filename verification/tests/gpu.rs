use scribe::gpu::{parse_vulkan_devices, probe_from_stderr};

const REAL_7800XT: &str = "\
whisper_init_with_params_no_state: use gpu    = 1
ggml_vulkan: Found 2 Vulkan devices:
ggml_vulkan: 0 = AMD  Radeon RX 7800 XT (AMD proprietary driver) | uma: 0 | fp16: 1 | bf16: 1 | warp size: 64 | matrix cores: KHR_coopmat
ggml_vulkan: 1 = AMD Radeon(TM) Graphics (AMD proprietary driver) | uma: 1 | fp16: 1 | bf16: 0 | warp size: 32 | matrix cores: none
whisper_backend_init_gpu: using Vulkan0 backend";

#[test]
fn parses_the_real_7800xt_listing() {
    let devices = parse_vulkan_devices(REAL_7800XT);
    assert_eq!(devices.len(), 2);
    assert_eq!(devices[0].index, 0);
    assert_eq!(devices[0].name, "AMD Radeon RX 7800 XT");
    assert!(!devices[0].integrated);
    assert_eq!(devices[1].index, 1);
    assert_eq!(devices[1].name, "AMD Radeon(TM) Graphics");
    assert!(devices[1].integrated);
}

#[test]
fn recommends_the_discrete_card_over_the_igpu() {
    let probe = probe_from_stderr(REAL_7800XT, true);
    assert!(probe.available);
    assert!(probe.probed);
    assert_eq!(probe.recommended_index, Some(0));
}

#[test]
fn recommends_discrete_even_when_igpu_enumerates_first() {
    let stderr = "\
ggml_vulkan: 0 = Intel Integrated (foo) | uma: 1 | fp16: 1
ggml_vulkan: 1 = NVIDIA GeForce RTX 4080 (bar) | uma: 0 | fp16: 1";
    let probe = probe_from_stderr(stderr, true);
    assert_eq!(probe.recommended_index, Some(1));
}

#[test]
fn no_devices_found_is_available_false_but_probed_true() {
    let probe = probe_from_stderr("ggml_vulkan: No devices found.", true);
    assert!(!probe.available);
    assert!(probe.probed);
    assert!(probe.devices.is_empty());
    assert_eq!(probe.recommended_index, None);
}

#[test]
fn header_line_and_noise_are_ignored() {
    let stderr = "\
ggml_vulkan: Found 1 Vulkan devices:
some other log line
ggml_vulkan: 0 = Test GPU (drv) | uma: 0";
    let devices = parse_vulkan_devices(stderr);
    assert_eq!(devices.len(), 1);
    assert_eq!(devices[0].name, "Test GPU");
}

#[test]
fn name_without_driver_paren_is_kept_whole() {
    let devices = parse_vulkan_devices("ggml_vulkan: 0 = Bare Name | uma: 0");
    assert_eq!(devices[0].name, "Bare Name");
}

#[test]
fn all_integrated_devices_recommend_the_first() {
    let probe = probe_from_stderr("ggml_vulkan: 3 = A (x) | uma:1\r\nggml_vulkan: 4 = B | uma: 1", false);
    assert_eq!(probe.devices.len(), 2);
    assert!(probe.devices[0].integrated);
    assert_eq!(probe.devices[0].name, "A");
    assert_eq!(probe.recommended_index, Some(3));
    assert!(!probe.probed);
}

#[test]
fn out_of_range_index_is_not_a_device() {
    assert!(parse_vulkan_devices("ggml_vulkan: 4294967296 = Big | uma: 0").is_empty());
    assert_eq!(parse_vulkan_devices("ggml_vulkan: +7 = Plus | uma: 0")[0].index, 7);
}
