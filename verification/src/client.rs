//! PoolSession: subscribe/authorize/submit operations and the single-slot
//! current-job register updated from server notifications.
//!
//! The session owns the framing layer and the job slot; a transport in the
//! surrounding program opens the stream, writes the lines this module
//! produces, and feeds every received line through `parse_response` and
//! `on_message`. Replies to subscribe/authorize/submit are not correlated
//! back: only connectivity errors matter to the caller, and a submitted
//! share is a tentative success once its line is written.

use vstd::prelude::*;
use crate::types::{Algorithm, MiningJob};
use crate::stratum::{StratumClient, StratumResponse, spec_frame_request};
use crate::json::JsonParam;
use crate::encoding::{str_eq, nonce_hex8, hex_encode, spec_nonce_hex8, spec_hex_chars};

verus! {

/// Where and as whom to mine.
pub struct PoolConfig {
    pub primary: String,
    pub fallback: Option<String>,
    pub wallet_address: String,
    pub worker_name: String,
    pub use_tls: bool,
}

impl PoolConfig {
    pub fn duplicate(&self) -> (r: Self)
        ensures
            r.primary@ == self.primary@,
            match (&r.fallback, &self.fallback) {
                (Some(a), Some(b)) => a@ == b@,
                (None, None) => true,
                _ => false,
            },
            r.wallet_address@ == self.wallet_address@,
            r.worker_name@ == self.worker_name@,
            r.use_tls == self.use_tls,
    {
        PoolConfig {
            primary: self.primary.clone(),
            fallback: match &self.fallback {
                Some(f) => Some(f.clone()),
                None => None,
            },
            wallet_address: self.wallet_address.clone(),
            worker_name: self.worker_name.clone(),
            use_tls: self.use_tls,
        }
    }
}

impl Default for PoolConfig {
    fn default() -> (r: Self)
        ensures
            r.primary@ == "stratum+tcp://gxc-pool.example.com:3333"@,
            r.fallback matches Some(f) && f@ == "stratum+tcp://gxc-pool-backup.example.com:3333"@,
            r.wallet_address@ == "GXC_YOUR_WALLET_ADDRESS_HERE"@,
            r.worker_name@ == "worker1"@,
            r.use_tls == false,
    {
        PoolConfig {
            primary: "stratum+tcp://gxc-pool.example.com:3333".to_owned(),
            fallback: Some("stratum+tcp://gxc-pool-backup.example.com:3333".to_owned()),
            wallet_address: "GXC_YOUR_WALLET_ADDRESS_HERE".to_owned(),
            worker_name: "worker1".to_owned(),
            use_tls: false,
        }
    }
}

/// Reads a `mining.notify` parameter list into a job: the first parameter
/// is the job id; the job starts with this crate's default header, target
/// and difficulty. At least two positional parameters are required.
pub fn parse_job(params: &Vec<JsonParam>) -> (r: Option<MiningJob>)
    ensures
        match r {
            Some(job) => {
                &&& params@.len() >= 2
                &&& params@[0]@ matches crate::json::ParamView::Str(id) && job.id@ == id
                &&& job.algorithm == Algorithm::SHA256
                &&& job.header@.len() == 0
                &&& job.target@ == Seq::new(32, |i: int| 0xffu8)
                &&& job.difficulty == 1
            },
            None => params@.len() < 2 || !(params@[0]@ is Str),
        },
{
    if params.len() < 2 {
        return None;
    }
    match &params[0] {
        JsonParam::Str(job_id) => Some(MiningJob::new(job_id.clone(), Algorithm::SHA256, 1)),
        _ => None,
    }
}

/// The session: configuration, the framing layer, the connection flag and
/// the current-job slot (last write wins; readers see the latest).
pub struct Client {
    pub config: PoolConfig,
    pub stratum: StratumClient,
    pub connected: bool,
    pub current_job: Option<MiningJob>,
}

impl Client {
    /// A fresh session for this configuration, considered connected once
    /// the transport is up; no job is known yet.
    pub fn new(config: &PoolConfig) -> (r: Client)
        ensures
            r.config.primary@ == config.primary@,
            match (&r.config.fallback, &config.fallback) {
                (Some(a), Some(b)) => a@ == b@,
                (None, None) => true,
                _ => false,
            },
            r.config.wallet_address@ == config.wallet_address@,
            r.config.worker_name@ == config.worker_name@,
            r.config.use_tls == config.use_tls,
            r.stratum.request_id == 1,
            r.connected == true,
            r.current_job is None,
    {
        Client {
            config: config.duplicate(),
            stratum: StratumClient::new(),
            connected: true,
            current_job: None,
        }
    }

    /// The subscribe and authorize lines sent right after connecting,
    /// fire-and-forget: the worker identity is `wallet:worker`, the
    /// password a placeholder.
    pub fn login_frames(&mut self) -> (r: (Vec<u8>, Vec<u8>))
        requires
            old(self).stratum.request_id + 1 < u64::MAX,
        ensures
            final(self).stratum.request_id == old(self).stratum.request_id + 2,
            final(self).config == old(self).config,
            final(self).connected == old(self).connected,
            final(self).current_job == old(self).current_job,
            r.0@ == spec_frame_request(old(self).stratum.request_id, "mining.subscribe"@, seq!["JxPoolMiner/1.0.0"@]),
            r.1@ == spec_frame_request((old(self).stratum.request_id + 1) as u64, "mining.authorize"@,
                seq![old(self).config.wallet_address@ + ":"@ + old(self).config.worker_name@, "x"@]),
    {
        let (_sid, sub_line) = self.stratum.subscribe("JxPoolMiner/1.0.0");
        let mut worker = self.config.wallet_address.clone();
        worker.append(":");
        worker.append(self.config.worker_name.as_str());
        let (_aid, auth_line) = self.stratum.authorize(worker.as_str(), "x");
        (sub_line, auth_line)
    }

    /// Applies one received message to the session: a `mining.notify` with
    /// a readable parameter list replaces the current job (last write
    /// wins); every other message leaves the session unchanged.
    pub fn on_message(&mut self, resp: &StratumResponse)
        ensures
            final(self).config == old(self).config,
            final(self).stratum == old(self).stratum,
            final(self).connected == old(self).connected,
            ({
                let notify = resp@.method == Some("mining.notify"@);
                match resp@.params {
                    Some(list) => {
                        if notify && list.len() >= 2 && list[0] is Str {
                            final(self).current_job matches Some(job)
                                && job.id@ == list[0]->Str_0
                                && job.algorithm == Algorithm::SHA256
                                && job.header@.len() == 0
                                && job.target@ == Seq::new(32, |i: int| 0xffu8)
                                && job.difficulty == 1
                        } else {
                            final(self).current_job == old(self).current_job
                        }
                    },
                    None => final(self).current_job == old(self).current_job,
                }
            }),
    {
        match &resp.method {
            Some(m) => {
                if str_eq(m.as_str(), "mining.notify") {
                    match &resp.params {
                        Some(params) => {
                            match parse_job(params) {
                                Some(job) => {
                                    self.current_job = Some(job);
                                },
                                None => {},
                            }
                        },
                        None => {},
                    }
                }
            },
            None => {},
        }
    }

    /// A copy of the current job, if a notification has arrived yet; a
    /// driving loop polls this until it is populated.
    pub fn receive_job(&self) -> (r: Option<MiningJob>)
        ensures
            match r {
                Some(job) => self.current_job matches Some(j)
                    && job.id@ == j.id@
                    && job.algorithm == j.algorithm
                    && job.header@ == j.header@
                    && job.target@ == j.target@
                    && job.difficulty == j.difficulty
                    && job.timestamp == j.timestamp,
                None => self.current_job is None,
            },
    {
        match &self.current_job {
            Some(job) => Some(job.duplicate()),
            None => None,
        }
    }

    /// The `mining.submit` line for one discovered share: the worker name,
    /// the job id, the nonce as eight lowercase hex digits and the hash as
    /// lowercase hex of its raw bytes. Writing the line without a
    /// transport error is tentative success; the pool's verdict is not
    /// awaited.
    pub fn submit_share(&mut self, share: &crate::types::Share) -> (r: Vec<u8>)
        requires
            old(self).stratum.request_id < u64::MAX,
        ensures
            final(self).stratum.request_id == old(self).stratum.request_id + 1,
            final(self).config == old(self).config,
            final(self).connected == old(self).connected,
            final(self).current_job == old(self).current_job,
            r@ == spec_frame_request(old(self).stratum.request_id, "mining.submit"@,
                seq![old(self).config.worker_name@, share.job_id@, spec_nonce_hex8(share.nonce), spec_hex_chars(share.hash@)]),
    {
        let nonce_hex = nonce_hex8(share.nonce);
        let result_hex = hex_encode(share.hash.as_slice());
        let (_id, line) = self.stratum.submit(
            self.config.worker_name.as_str(),
            share.job_id.as_str(),
            nonce_hex.as_str(),
            result_hex.as_str(),
        );
        line
    }

    pub fn is_connected(&self) -> (r: bool)
        ensures
            r == self.connected,
    {
        self.connected
    }
}

} // verus!
