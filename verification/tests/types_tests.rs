use jxpoolminer::config::Config;
use jxpoolminer::devices::{
    classify_gpu_vendor, estimate_asic_hashrate, estimate_gpu_hashrate, estimate_gpu_memory,
    extract_asic_name, extract_gpu_name, text_contains_ci,
};
use jxpoolminer::error::{JxError, MinerError};
use jxpoolminer::types::{Algorithm, Device, DeviceStatus, DeviceType, GPUVendor, MiningJob, Share};

#[test]
fn test_config_defaults() {
    let config = Config::default();
    assert_eq!(config.app.theme, "dark");
    assert_eq!(config.app.language, "en");
    assert!(config.mining.auto_detect_devices);
    assert!(config.mining.auto_assign_algorithms);
    assert_eq!(config.pool.primary, "stratum+tcp://pool.jxminer.com:3333");
    assert_eq!(config.pool.wallet_address, "test_wallet");
    assert_eq!(config.pool.worker_name, "worker1");
    assert!(!config.pool.use_tls);
}

#[test]
fn test_device_new_starts_idle() {
    let device = Device::new("cpu-0".to_string(), "CPU".to_string(), DeviceType::CPU { cores: 2 });
    assert_eq!(device.id, "cpu-0");
    assert!(matches!(device.status, DeviceStatus::Idle));
    assert_eq!(device.capabilities.max_hashrate, 0);
    assert!(device.capabilities.supported_algorithms.is_empty());
}

#[test]
fn test_job_new_default_target() {
    let job = MiningJob::new("j1".to_string(), Algorithm::Ethash, 5);
    assert_eq!(job.id, "j1");
    assert!(job.header.is_empty());
    assert_eq!(job.target, vec![0xFF; 32]);
    assert_eq!(job.difficulty, 5);
}

#[test]
fn test_share_new_keeps_fields() {
    let share = Share::new("j1".to_string(), 42, vec![1, 2], "cpu-0".to_string());
    assert_eq!(share.job_id, "j1");
    assert_eq!(share.nonce, 42);
    assert_eq!(share.hash, vec![1, 2]);
    assert_eq!(share.device_id, "cpu-0");
}

#[test]
fn test_error_messages() {
    assert_eq!(JxError::Device("gone".to_string()).message(), "Device error: gone");
    assert_eq!(JxError::Pool("down".to_string()).message(), "Pool error: down");
    assert_eq!(JxError::Io("broken pipe".to_string()).message(), "IO error: broken pipe");
    assert_eq!(JxError::Mining("stalled".to_string()).message(), "Mining error: stalled");
    assert_eq!(JxError::Config("bad toml".to_string()).message(), "Configuration error: bad toml");
    assert_eq!(JxError::Other("misc".to_string()).message(), "Other error: misc");
    assert!(MinerError::DeviceNotFound.is_device_not_found());
    assert!(!MinerError::CancelledSearch.is_device_not_found());
}

#[test]
fn test_extract_asic_name_from_probe_line() {
    let line = "Bus 001 Device 004: ID 4254:3138 Bitmain Antminer S19";
    assert_eq!(extract_asic_name(line), "ID 4254:3138 Bitmain Antminer S19");
    assert_eq!(extract_asic_name("nothing to see"), "ASIC Miner");
    assert_eq!(extract_asic_name("marker ID 1234   "), "ID 1234");
}

#[test]
fn test_extract_gpu_name_from_probe_line() {
    let line = "01:00.0 VGA compatible controller: NVIDIA Corporation GA102 [GeForce RTX 3090]";
    assert_eq!(extract_gpu_name(line, "NVIDIA"), "NVIDIA Corporation GA102");
    assert_eq!(extract_gpu_name("no vendor here", "AMD"), "AMD GPU");
}

#[test]
fn test_contains_ci_is_ascii_case_insensitive() {
    assert!(text_contains_ci("Antminer S19 Pro", "s19"));
    assert!(text_contains_ci("WHATSMINER", "whatsminer"));
    assert!(!text_contains_ci("Antminer S17", "s19"));
    assert!(text_contains_ci("anything", ""));
}

#[test]
fn test_estimate_asic_hashrate_by_model() {
    assert_eq!(estimate_asic_hashrate("Antminer S19"), 110_000_000_000_000);
    assert_eq!(estimate_asic_hashrate("Antminer S17"), 56_000_000_000_000);
    assert_eq!(estimate_asic_hashrate("antminer s9"), 14_000_000_000_000);
    assert_eq!(estimate_asic_hashrate("WhatsMiner M30"), 100_000_000_000_000);
    assert_eq!(estimate_asic_hashrate("Avalon 1246"), 50_000_000_000_000);
    assert_eq!(estimate_asic_hashrate("mystery box"), 50_000_000_000_000);
}

#[test]
fn test_classify_gpu_vendor_by_name() {
    assert_eq!(classify_gpu_vendor("NVIDIA GeForce RTX"), GPUVendor::NVIDIA);
    assert_eq!(classify_gpu_vendor("AMD Radeon RX"), GPUVendor::AMD);
    assert_eq!(classify_gpu_vendor("Radeon Pro"), GPUVendor::AMD);
    assert_eq!(classify_gpu_vendor("Intel UHD Graphics"), GPUVendor::Intel);
}

#[test]
fn test_gpu_estimates_by_vendor() {
    assert_eq!(estimate_gpu_memory(&GPUVendor::NVIDIA), 8 * 1024 * 1024 * 1024);
    assert_eq!(estimate_gpu_memory(&GPUVendor::Intel), 4 * 1024 * 1024 * 1024);
    assert_eq!(estimate_gpu_hashrate(&GPUVendor::NVIDIA), 100_000_000);
    assert_eq!(estimate_gpu_hashrate(&GPUVendor::AMD), 80_000_000);
    assert_eq!(estimate_gpu_hashrate(&GPUVendor::Intel), 20_000_000);
}
