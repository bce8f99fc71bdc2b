//! Persisted configuration values. Reading and writing the configuration
//! file is the surrounding program's job; this module holds the values and
//! their defaults.

use vstd::prelude::*;

verus! {

pub struct AppConfig {
    pub theme: String,
    pub language: String,
}

pub struct MiningConfig {
    pub auto_detect_devices: bool,
    pub auto_assign_algorithms: bool,
}

pub struct PoolConfig {
    pub primary: String,
    pub fallback: Option<String>,
    pub wallet_address: String,
    pub worker_name: String,
    pub use_tls: bool,
}

pub struct Config {
    pub app: AppConfig,
    pub mining: MiningConfig,
    pub pool: PoolConfig,
}

impl Default for Config {
    fn default() -> (r: Self)
        ensures
            r.app.theme@ == "dark"@,
            r.app.language@ == "en"@,
            r.mining.auto_detect_devices == true,
            r.mining.auto_assign_algorithms == true,
            r.pool.primary@ == "stratum+tcp://pool.jxminer.com:3333"@,
            r.pool.fallback matches Some(f) && f@ == "stratum+tcp://backup.jxminer.com:3333"@,
            r.pool.wallet_address@ == "test_wallet"@,
            r.pool.worker_name@ == "worker1"@,
            r.pool.use_tls == false,
    {
        Config {
            app: AppConfig {
                theme: "dark".to_owned(),
                language: "en".to_owned(),
            },
            mining: MiningConfig {
                auto_detect_devices: true,
                auto_assign_algorithms: true,
            },
            pool: PoolConfig {
                primary: "stratum+tcp://pool.jxminer.com:3333".to_owned(),
                fallback: Some("stratum+tcp://backup.jxminer.com:3333".to_owned()),
                wallet_address: "test_wallet".to_owned(),
                worker_name: "worker1".to_owned(),
                use_tls: false,
            },
        }
    }
}

} // verus!
