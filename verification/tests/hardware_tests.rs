use voicy::hardware::HardwareInfo;

#[test]
fn cuda_detected_from_nvidia_listing() {
    assert!(HardwareInfo::detect_cuda(Some("GPU 0: NVIDIA GeForce RTX 3080 (UUID: GPU-1)\n")));
    assert!(!HardwareInfo::detect_cuda(Some("")));
    assert!(!HardwareInfo::detect_cuda(None));
}

#[test]
fn gpu_info_from_csv_line() {
    let (name, vram) = HardwareInfo::get_gpu_info(Some("NVIDIA GeForce RTX 3080, 10240 MiB\r\n"));
    assert_eq!(name.as_deref(), Some("NVIDIA GeForce RTX 3080"));
    assert_eq!(vram, Some(10));
    let (name, vram) = HardwareInfo::get_gpu_info(Some("Tesla T4, 15360 MiB"));
    assert_eq!(name.as_deref(), Some("Tesla T4"));
    assert_eq!(vram, Some(15));
}

#[test]
fn gpu_info_needs_two_fields() {
    assert_eq!(HardwareInfo::get_gpu_info(Some("NVIDIA GeForce")), (None, None));
    assert_eq!(HardwareInfo::get_gpu_info(None), (None, None));
}

#[test]
fn gpu_memory_that_is_no_number() {
    let (name, vram) = HardwareInfo::get_gpu_info(Some("Card, [N/A]"));
    assert_eq!(name.as_deref(), Some("Card"));
    assert_eq!(vram, None);
    let (_, vram) = HardwareInfo::get_gpu_info(Some("Card,   "));
    assert_eq!(vram, None);
}

#[test]
fn cpu_name_from_wmic_output() {
    let out = "\r\r\n\r\r\nName=Intel(R) Core(TM) i7-9700K CPU @ 3.60GHz\r\r\n\r\r\n";
    assert_eq!(HardwareInfo::detect_cpu_name(Some(out)), "Intel(R) Core(TM) i7-9700K CPU @ 3.60GHz");
    assert_eq!(HardwareInfo::detect_cpu_name(Some("Name=\r\nName= AMD Ryzen \r\n")), "AMD Ryzen");
    assert_eq!(HardwareInfo::detect_cpu_name(Some("nothing here")), "Unknown CPU");
    assert_eq!(HardwareInfo::detect_cpu_name(None), "Unknown CPU");
}

#[test]
fn ram_from_wmic_output() {
    let out = "\r\r\n\r\r\nTotalVisibleMemorySize=16677224\r\r\n\r\r\n";
    assert_eq!(HardwareInfo::get_ram_gb(Some(out)), 15);
    assert_eq!(HardwareInfo::get_ram_gb(Some("TotalVisibleMemorySize=abc\r\n")), 0);
    assert_eq!(HardwareInfo::get_ram_gb(Some("Other=1\n")), 16);
    assert_eq!(HardwareInfo::get_ram_gb(None), 16);
}

#[test]
fn active_device_labels() {
    assert_eq!(HardwareInfo::active_device_label(true, &Some("RTX".to_string()), "cpu"), "GPU: RTX");
    assert_eq!(HardwareInfo::active_device_label(true, &None, "cpu"), "GPU: NVIDIA (unknown)");
    assert_eq!(HardwareInfo::active_device_label(false, &Some("RTX".to_string()), "i7"), "CPU: i7");
}

#[test]
fn detection_without_probes() {
    let hw = HardwareInfo::detect_from(None, None, None, None, None);
    assert!(!hw.has_cuda);
    assert_eq!(hw.gpu_name, None);
    assert_eq!(hw.vram_gb, None);
    assert_eq!(hw.cpu_cores, 4);
    assert_eq!(hw.ram_gb, 16);
    assert_eq!(hw.cpu_name, "Unknown CPU");
    assert_eq!(hw.active_device, "CPU: Unknown CPU");
}

#[test]
fn detection_with_gpu() {
    let hw = HardwareInfo::detect_from(
        Some("GPU 0: NVIDIA RTX 4090"),
        Some("NVIDIA RTX 4090, 24564 MiB"),
        Some(16),
        Some("TotalVisibleMemorySize=33554432"),
        Some("Name=AMD Ryzen 9"),
    );
    assert!(hw.has_cuda);
    assert_eq!(hw.gpu_name.as_deref(), Some("NVIDIA RTX 4090"));
    assert_eq!(hw.vram_gb, Some(23));
    assert_eq!(hw.cpu_cores, 16);
    assert_eq!(hw.ram_gb, 32);
    assert_eq!(hw.cpu_name, "AMD Ryzen 9");
    assert_eq!(hw.active_device, "GPU: NVIDIA RTX 4090");
}

#[test]
fn gpu_query_ignored_without_cuda() {
    let hw = HardwareInfo::detect_from(None, Some("Card, 8192 MiB"), Some(8), None, None);
    assert!(!hw.has_cuda);
    assert_eq!(hw.gpu_name, None);
    assert_eq!(hw.vram_gb, None);
}
