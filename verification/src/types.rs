//! Core data types: algorithms, devices, jobs and shares.
//!
//! Hashrates are measured in whole hashes per second, memory in bytes,
//! difficulty as an integer scale factor, and timestamps as milliseconds
//! since the Unix epoch.

use vstd::prelude::*;

verus! {

/// The closed set of supported hash-search algorithm families.
#[derive(Clone, Copy, Debug, PartialEq, Eq, Structural)]
pub enum Algorithm {
    SHA256,
    Ethash,
    GXHash,
}

impl Algorithm {
    /// The display name of the algorithm.
    pub open spec fn spec_name(self) -> Seq<char> {
        match self {
            Algorithm::SHA256 => "SHA-256"@,
            Algorithm::Ethash => "Ethash"@,
            Algorithm::GXHash => "GXHash"@,
        }
    }

    pub fn name(&self) -> (r: &'static str)
        ensures
            r@ == self.spec_name(),
    {
        match self {
            Algorithm::SHA256 => "SHA-256",
            Algorithm::Ethash => "Ethash",
            Algorithm::GXHash => "GXHash",
        }
    }

    /// The algorithm a device of the given type mines by default.
    pub open spec fn spec_for_device(device_type: DeviceType) -> Algorithm {
        match device_type {
            DeviceType::ASIC => Algorithm::SHA256,
            DeviceType::GPU { .. } => Algorithm::Ethash,
            DeviceType::CPU { .. } => Algorithm::GXHash,
        }
    }

    pub fn for_device(device_type: &DeviceType) -> (r: Self)
        ensures
            r == Self::spec_for_device(*device_type),
    {
        match device_type {
            DeviceType::ASIC => Algorithm::SHA256,
            DeviceType::GPU { .. } => Algorithm::Ethash,
            DeviceType::CPU { .. } => Algorithm::GXHash,
        }
    }
}

#[derive(Clone, Copy, Debug, PartialEq, Eq, Structural)]
pub enum GPUVendor {
    NVIDIA,
    AMD,
    Intel,
}

#[derive(Clone, Copy, Debug, PartialEq, Eq, Structural)]
pub enum DeviceType {
    ASIC,
    GPU { vendor: GPUVendor },
    CPU { cores: usize },
}

pub enum DeviceStatus {
    Idle,
    Mining,
    Error(String),
}

impl DeviceStatus {
    pub fn duplicate(&self) -> (r: Self)
        ensures
            r == *self,
    {
        match self {
            DeviceStatus::Idle => DeviceStatus::Idle,
            DeviceStatus::Mining => DeviceStatus::Mining,
            DeviceStatus::Error(reason) => DeviceStatus::Error(reason.clone()),
        }
    }

    pub fn is_mining(&self) -> (r: bool)
        ensures
            r == (*self is Mining),
    {
        match self {
            DeviceStatus::Mining => true,
            _ => false,
        }
    }
}

/// Static capabilities of a compute device.
pub struct DeviceCapabilities {
    /// Peak hashrate estimate, in hashes per second.
    pub max_hashrate: u64,
    /// Device memory in bytes.
    pub memory: u64,
    pub supported_algorithms: Vec<Algorithm>,
}

impl DeviceCapabilities {
    pub fn duplicate(&self) -> (r: Self)
        ensures
            r.max_hashrate == self.max_hashrate,
            r.memory == self.memory,
            r.supported_algorithms@ == self.supported_algorithms@,
    {
        let mut algos: Vec<Algorithm> = Vec::new();
        let mut i: usize = 0;
        while i < self.supported_algorithms.len()
            invariant
                i <= self.supported_algorithms.len(),
                algos@ == self.supported_algorithms@.subrange(0, i as int),
            decreases self.supported_algorithms.len() - i,
        {
            algos.push(self.supported_algorithms[i]);
            i += 1;
        }
        proof {
            assert(algos@ == self.supported_algorithms@);
        }
        DeviceCapabilities { max_hashrate: self.max_hashrate, memory: self.memory, supported_algorithms: algos }
    }
}

/// A compute device known to the scheduler. Device ids are unique keys.
pub struct Device {
    pub id: String,
    pub name: String,
    pub device_type: DeviceType,
    pub capabilities: DeviceCapabilities,
    pub status: DeviceStatus,
}

impl Device {
    /// A fresh device starts idle, with empty capabilities.
    pub fn new(id: String, name: String, device_type: DeviceType) -> (r: Self)
        ensures
            r.id@ == id@,
            r.name@ == name@,
            r.device_type == device_type,
            r.capabilities.max_hashrate == 0,
            r.capabilities.memory == 0,
            r.capabilities.supported_algorithms@.len() == 0,
            r.status is Idle,
    {
        Device {
            id,
            name,
            device_type,
            capabilities: DeviceCapabilities {
                max_hashrate: 0,
                memory: 0,
                supported_algorithms: Vec::new(),
            },
            status: DeviceStatus::Idle,
        }
    }

    pub fn duplicate(&self) -> (r: Self)
        ensures
            r.id@ == self.id@,
            r.name@ == self.name@,
            r.device_type == self.device_type,
            r.capabilities.max_hashrate == self.capabilities.max_hashrate,
            r.capabilities.memory == self.capabilities.memory,
            r.capabilities.supported_algorithms@ == self.capabilities.supported_algorithms@,
            r.status == self.status,
    {
        Device {
            id: self.id.clone(),
            name: self.name.clone(),
            device_type: self.device_type,
            capabilities: self.capabilities.duplicate(),
            status: self.status.duplicate(),
        }
    }
}

/// A unit of search work. Immutable once constructed; a later job supersedes
/// an earlier one rather than mutating it.
pub struct MiningJob {
    pub id: String,
    pub algorithm: Algorithm,
    pub header: Vec<u8>,
    pub target: Vec<u8>,
    /// Integer difficulty scale reported by the pool.
    pub difficulty: u64,
    /// Creation time, milliseconds since the Unix epoch.
    pub timestamp: i64,
}

impl MiningJob {
    /// A job with an empty header and a 32-byte all-ones target, stamped with
    /// the current time.
    pub fn new(id: String, algorithm: Algorithm, difficulty: u64) -> (r: Self)
        ensures
            r.id@ == id@,
            r.algorithm == algorithm,
            r.header@ == Seq::<u8>::empty(),
            r.target@ == Seq::new(32, |i: int| 0xffu8),
            r.difficulty == difficulty,
    {
        let timestamp = crate::clock::now_millis();
        let mut target: Vec<u8> = Vec::new();
        let mut i: usize = 0;
        while i < 32
            invariant
                i <= 32,
                target@ == Seq::new(i as nat, |j: int| 0xffu8),
            decreases 32 - i,
        {
            target.push(0xff);
            proof {
                assert(target@ =~= Seq::new((i + 1) as nat, |j: int| 0xffu8));
            }
            i += 1;
        }
        MiningJob { id, algorithm, header: Vec::new(), target, difficulty, timestamp }
    }

    pub fn duplicate(&self) -> (r: Self)
        ensures
            r.id@ == self.id@,
            r.algorithm == self.algorithm,
            r.header@ == self.header@,
            r.target@ == self.target@,
            r.difficulty == self.difficulty,
            r.timestamp == self.timestamp,
    {
        MiningJob {
            id: self.id.clone(),
            algorithm: self.algorithm,
            header: self.header.clone(),
            target: self.target.clone(),
            difficulty: self.difficulty,
            timestamp: self.timestamp,
        }
    }
}

/// A nonce/hash pair believed to satisfy a job's target. Created by the
/// search routines, consumed once by submission.
pub struct Share {
    pub job_id: String,
    pub nonce: u64,
    pub hash: Vec<u8>,
    pub device_id: String,
    /// Creation time, milliseconds since the Unix epoch.
    pub timestamp: i64,
}

impl Share {
    /// A share stamped with the current time.
    pub fn new(job_id: String, nonce: u64, hash: Vec<u8>, device_id: String) -> (r: Self)
        ensures
            r.job_id@ == job_id@,
            r.nonce == nonce,
            r.hash@ == hash@,
            r.device_id@ == device_id@,
    {
        let timestamp = crate::clock::now_millis();
        Share { job_id, nonce, hash, device_id, timestamp }
    }

    pub fn duplicate(&self) -> (r: Self)
        ensures
            r.job_id@ == self.job_id@,
            r.nonce == self.nonce,
            r.hash@ == self.hash@,
            r.device_id@ == self.device_id@,
            r.timestamp == self.timestamp,
    {
        Share {
            job_id: self.job_id.clone(),
            nonce: self.nonce,
            hash: self.hash.clone(),
            device_id: self.device_id.clone(),
            timestamp: self.timestamp,
        }
    }
}

/// Ghost image of a device status.
#[verifier::ext_equal]
pub enum StatusView {
    Idle,
    Mining,
    Error(Seq<char>),
}

impl View for DeviceStatus {
    type V = StatusView;

    open spec fn view(&self) -> StatusView {
        match self {
            DeviceStatus::Idle => StatusView::Idle,
            DeviceStatus::Mining => StatusView::Mining,
            DeviceStatus::Error(reason) => StatusView::Error(reason@),
        }
    }
}

/// Ghost image of a device.
#[verifier::ext_equal]
pub struct DeviceView {
    pub id: Seq<char>,
    pub name: Seq<char>,
    pub device_type: DeviceType,
    pub max_hashrate: u64,
    pub memory: u64,
    pub supported_algorithms: Seq<Algorithm>,
    pub status: StatusView,
}

impl View for Device {
    type V = DeviceView;

    open spec fn view(&self) -> DeviceView {
        DeviceView {
            id: self.id@,
            name: self.name@,
            device_type: self.device_type,
            max_hashrate: self.capabilities.max_hashrate,
            memory: self.capabilities.memory,
            supported_algorithms: self.capabilities.supported_algorithms@,
            status: self.status@,
        }
    }
}

/// Ghost image of a mining job.
#[verifier::ext_equal]
pub struct JobView {
    pub id: Seq<char>,
    pub algorithm: Algorithm,
    pub header: Seq<u8>,
    pub target: Seq<u8>,
    pub difficulty: u64,
    pub timestamp: i64,
}

impl View for MiningJob {
    type V = JobView;

    open spec fn view(&self) -> JobView {
        JobView {
            id: self.id@,
            algorithm: self.algorithm,
            header: self.header@,
            target: self.target@,
            difficulty: self.difficulty,
            timestamp: self.timestamp,
        }
    }
}

/// Ghost image of a share.
#[verifier::ext_equal]
pub struct ShareView {
    pub job_id: Seq<char>,
    pub nonce: u64,
    pub hash: Seq<u8>,
    pub device_id: Seq<char>,
    pub timestamp: i64,
}

impl View for Share {
    type V = ShareView;

    open spec fn view(&self) -> ShareView {
        ShareView {
            job_id: self.job_id@,
            nonce: self.nonce,
            hash: self.hash@,
            device_id: self.device_id@,
            timestamp: self.timestamp,
        }
    }
}

} // verus!
