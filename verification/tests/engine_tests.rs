use jxpoolminer::engine::{Engine, PollOutcome};
use jxpoolminer::error::MinerError;
use jxpoolminer::types::{Algorithm, Device, DeviceStatus, DeviceType, MiningJob};

fn cpu_device(id: &str) -> Device {
    Device::new(id.to_string(), "Test CPU".to_string(), DeviceType::CPU { cores: 4 })
}

fn permissive_job(id: &str) -> MiningJob {
    // MiningJob::new gives an empty header and a 32-byte all-ones target,
    // which accepts the very first attempt
    MiningJob::new(id.to_string(), Algorithm::SHA256, 1)
}

#[test]
fn test_engine_starts_and_stops_device() {
    let mut engine = Engine::new(vec![cpu_device("cpu-0")]).unwrap();
    assert!(engine.start_mining("cpu-0", permissive_job("job1")).is_ok());
    let devices = engine.devices();
    assert!(matches!(devices[0].status, DeviceStatus::Mining));

    assert!(engine.stop_mining("cpu-0").is_ok());
    let devices = engine.devices();
    assert!(matches!(devices[0].status, DeviceStatus::Idle));
}

#[test]
fn test_stop_twice_equals_stop_once() {
    let mut engine = Engine::new(vec![cpu_device("cpu-0")]).unwrap();
    engine.start_mining("cpu-0", permissive_job("job1")).unwrap();

    assert!(engine.stop_mining("cpu-0").is_ok());
    assert!(engine.stop_mining("cpu-0").is_ok());

    let devices = engine.devices();
    assert!(matches!(devices[0].status, DeviceStatus::Idle));
    assert!(engine.get_share("cpu-0").is_none());
    assert!(matches!(engine.poll_device("cpu-0"), PollOutcome::NoTask));
}

#[test]
fn test_second_start_supersedes_first() {
    let mut engine = Engine::new(vec![cpu_device("cpu-0")]).unwrap();
    engine.start_mining("cpu-0", permissive_job("job1")).unwrap();
    engine.start_mining("cpu-0", permissive_job("job2")).unwrap();

    // exactly one task is active, and it operates on the second job:
    // every share it yields names job2
    assert!(matches!(engine.poll_device("cpu-0"), PollOutcome::Found));
    let share = engine.get_share("cpu-0").expect("a share was queued");
    assert_eq!(share.job_id, "job2");
    assert!(engine.get_share("cpu-0").is_none());
}

#[test]
fn test_stop_unknown_device_reports_and_changes_nothing() {
    let mut engine = Engine::new(vec![cpu_device("cpu-0")]).unwrap();
    engine.start_mining("cpu-0", permissive_job("job1")).unwrap();

    let before: Vec<(String, bool)> = engine
        .devices()
        .iter()
        .map(|d| (d.id.clone(), matches!(d.status, DeviceStatus::Mining)))
        .collect();

    let r = engine.stop_mining("unknown-device");
    assert!(matches!(r, Err(MinerError::DeviceNotFound)));

    let after: Vec<(String, bool)> = engine
        .devices()
        .iter()
        .map(|d| (d.id.clone(), matches!(d.status, DeviceStatus::Mining)))
        .collect();
    assert_eq!(before, after);
    assert!(matches!(engine.poll_device("cpu-0"), PollOutcome::Found));
}

#[test]
fn test_start_unknown_device_fails() {
    let mut engine = Engine::new(vec![cpu_device("cpu-0")]).unwrap();
    let r = engine.start_mining("gpu-9", permissive_job("job1"));
    assert!(matches!(r, Err(MinerError::DeviceNotFound)));
    assert!(matches!(engine.poll_device("gpu-9"), PollOutcome::NoTask));
}

#[test]
fn test_share_found_with_expected_first_nonce() {
    // fixed deterministic header, target bytes all 0xFF: the documented
    // expected first passing nonce for this fixture is zero
    let mut engine = Engine::new(vec![cpu_device("cpu-0")]).unwrap();
    let mut job = permissive_job("job1");
    job.header = vec![1, 2, 3, 4];
    engine.start_mining("cpu-0", job).unwrap();

    assert!(matches!(engine.poll_device("cpu-0"), PollOutcome::Found));
    let share = engine.get_share("cpu-0").expect("a share was queued");
    assert_eq!(share.nonce, 0);
    assert_eq!(share.device_id, "cpu-0");
    assert_eq!(share.job_id, "job1");
    assert_eq!(share.hash.len(), 32);
}

#[test]
fn test_poll_without_task_is_no_task() {
    let mut engine = Engine::new(vec![cpu_device("cpu-0")]).unwrap();
    assert!(matches!(engine.poll_device("cpu-0"), PollOutcome::NoTask));
    assert!(engine.get_share("cpu-0").is_none());
}

#[test]
fn test_exhausted_batch_advances_and_continues() {
    // an impossible target (empty, so a two-zero-byte prefix is required)
    // usually exhausts the first batch; either way the task stays running
    let mut engine = Engine::new(vec![cpu_device("cpu-0")]).unwrap();
    let mut job = permissive_job("job1");
    job.target = Vec::new();
    engine.start_mining("cpu-0", job).unwrap();
    let outcome = engine.poll_device("cpu-0");
    assert!(matches!(outcome, PollOutcome::Found | PollOutcome::Exhausted));
    let devices = engine.devices();
    assert!(matches!(devices[0].status, DeviceStatus::Mining));
}

#[test]
fn test_update_device_status() {
    let mut engine = Engine::new(vec![cpu_device("cpu-0")]).unwrap();
    engine.update_device_status("cpu-0", DeviceStatus::Error("overheated".to_string()));
    let devices = engine.devices();
    match &devices[0].status {
        DeviceStatus::Error(reason) => assert_eq!(reason, "overheated"),
        _ => panic!("status was not set"),
    }
    // unknown ids are a no-op
    engine.update_device_status("nope", DeviceStatus::Mining);
    assert_eq!(engine.devices().len(), 1);
}

#[test]
fn test_devices_snapshot_matches_input() {
    let engine = Engine::new(vec![cpu_device("cpu-0"), cpu_device("cpu-1")]).unwrap();
    let devices = engine.devices();
    assert_eq!(devices.len(), 2);
    assert_eq!(devices[0].id, "cpu-0");
    assert_eq!(devices[1].id, "cpu-1");
    assert!(matches!(devices[0].status, DeviceStatus::Idle));
}

#[test]
fn test_mining_engine() {
    let devices = vec![cpu_device("cpu-0")];
    let engine = Engine::new(devices);
    assert!(engine.is_ok());
}
