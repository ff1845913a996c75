//! Observation of a V1 passthrough connection: both sides speak V1 and
//! every line crosses unmodified, but the proxy watches the stream to
//! learn the session's wallet and worker, to track the jobs the upstream
//! announces, and to report submitted shares.

use crate::difficulty::Difficulty;
use crate::job_tracker::{has_key, key_index, spec_add, JobTracker, JobView};
use crate::json::JsonV;
use crate::sv1::{method_of, MethodView, MsgView, Sv1Message};
use crate::translator::{
    split_login, str_or_empty, wallet_of, worker_of, ShareSubmission,
};
use vstd::prelude::*;

verus! {

/// The observed state of one V1 passthrough connection.
pub struct PassthroughSession {
    wallet_address: Option<String>,
    worker_name: String,
    tracker: JobTracker,
}

/// The mathematical content of a [`PassthroughSession`].
pub ghost struct PassthroughView {
    pub wallet_address: Option<Seq<char>>,
    pub worker_name: Seq<char>,
    pub jobs: Seq<JobView>,
}

impl View for PassthroughSession {
    type V = PassthroughView;

    closed spec fn view(&self) -> PassthroughView {
        PassthroughView {
            wallet_address: match self.wallet_address {
                Some(ref s) => Some(s@),
                None => None,
            },
            worker_name: self.worker_name@,
            jobs: self.tracker@,
        }
    }
}

/// Whether a message is a login request carrying a string first
/// parameter.
pub open spec fn is_login_with_account(m: MsgView) -> bool {
    &&& m.method is Some
    &&& method_of(m.method->0) == MethodView::Login
    &&& m.params is Some
    &&& m.params->0.len() > 0
    &&& m.params->0[0] is Str
}

/// Whether a message is a submit request with at least one parameter.
pub open spec fn is_submit(m: MsgView) -> bool {
    m.method is Some && method_of(m.method->0) == MethodView::Submit
}

/// Whether a message is a job notification with the three parameters the
/// tracker needs: job id, target and height.
pub open spec fn is_job_notification(m: MsgView) -> bool {
    &&& m.method is Some
    &&& method_of(m.method->0) == MethodView::Unknown("job"@)
    &&& m.params is Some
    &&& m.params->0.len() >= 4
    &&& m.params->0[0] is Str
    &&& m.params->0[2] is Str
    &&& m.params->0[3] matches JsonV::Num { neg: false, mag: _ }
}

impl PassthroughSession {
    /// Well-formedness of the inner tracker.
    pub closed spec fn wf(self) -> bool {
        self.tracker.wf()
    }

    /// Opens a session: the wallet defaults to the configured one until a
    /// login names another, the worker to `worker1`.
    pub fn new(default_wallet: Option<String>, max_jobs: usize) -> (r: PassthroughSession)
        ensures
            r.wf(),
            r@.wallet_address == (match default_wallet {
                Some(w) => Some(w@),
                None => None::<Seq<char>>,
            }),
            r@.worker_name == "worker1"@,
            r@.jobs =~= Seq::<JobView>::empty(),
    {
        PassthroughSession {
            wallet_address: default_wallet,
            worker_name: String::from_str("worker1"),
            tracker: JobTracker::new(max_jobs),
        }
    }

    /// Observes one line from the miner on its way upstream: a login
    /// stores the wallet and worker it names, a submit is reported as a
    /// share at the difficulty tracked for its job id. The line itself is
    /// forwarded by the caller unmodified, whatever this returns.
    pub fn observe_miner_line(&mut self, msg: &Sv1Message, target_name: &str) -> (r: Option<
        ShareSubmission,
    >)
        requires
            old(self).wf(),
        ensures
            final(self).wf(),
            final(self)@.jobs == old(self)@.jobs,
            ({
                let m = msg@;
                if is_login_with_account(m) {
                    let account = m.params->0[0]->Str_0;
                    &&& r is None
                    &&& final(self)@.wallet_address == Some(wallet_of(account))
                    &&& final(self)@.worker_name == (match worker_of(account) {
                        Some(w) => w,
                        None => "worker1"@,
                    })
                } else {
                    &&& final(self)@.wallet_address == old(self)@.wallet_address
                    &&& final(self)@.worker_name == old(self)@.worker_name
                    &&& if is_submit(m) {
                        let job_id = (match m.params {
                            Some(p) => if p.len() > 0 {
                                str_or_empty(p[0])
                            } else {
                                Seq::empty()
                            },
                            None => Seq::empty(),
                        });
                        &&& r is Some
                        &&& r->0@.wallet_address == (match old(self)@.wallet_address {
                            Some(w) => w,
                            None => "unknown"@,
                        })
                        &&& r->0@.worker_name == old(self)@.worker_name
                        &&& r->0@.target_name == target_name@
                        &&& r->0@.difficulty == (if has_key(old(self)@.jobs, job_id) {
                            old(self)@.jobs[key_index(old(self)@.jobs, job_id)].difficulty
                        } else {
                            Difficulty::spec_default()
                        })
                        &&& r->0@.valid == true
                    } else {
                        r is None
                    }
                }
            }),
    {
        let method = match &msg.method {
            Some(m) => m,
            None => {
                return None;
            },
        };
        match crate::sv1::Sv1Method::from_str(method.as_str()) {
            crate::sv1::Sv1Method::Login => {
                match &msg.params {
                    Some(params) => {
                        if params.len() > 0 {
                            proof {
                                assert(msg@.params->0[0] == crate::json::jview(
                                    msg.params->0@[0],
                                ));
                            }
                            match &params[0] {
                                crate::json::JsonValue::Str(account) => {
                                    let (wallet, worker) = split_login(account.as_str());
                                    self.wallet_address = Some(wallet);
                                    self.worker_name = match worker {
                                        Some(w) => w,
                                        None => String::from_str("worker1"),
                                    };
                                },
                                _ => {},
                            }
                        }
                    },
                    None => {},
                }
                None
            },
            crate::sv1::Sv1Method::Submit => {
                let job_id = match &msg.params {
                    Some(params) => {
                        if params.len() > 0 {
                            proof {
                                assert(msg@.params->0[0] == crate::json::jview(
                                    msg.params->0@[0],
                                ));
                            }
                            match &params[0] {
                                crate::json::JsonValue::Str(s) => s.clone(),
                                _ => String::new(),
                            }
                        } else {
                            String::new()
                        }
                    },
                    None => String::new(),
                };
                let difficulty = self.tracker.get_difficulty(job_id.as_str());
                let wallet = match &self.wallet_address {
                    Some(w) => w.clone(),
                    None => String::from_str("unknown"),
                };
                Some(
                    ShareSubmission {
                        wallet_address: wallet,
                        worker_name: self.worker_name.clone(),
                        target_name: String::from_str(target_name),
                        difficulty,
                        valid: true,
                    },
                )
            },
            _ => None,
        }
    }

    /// Observes one line from the pool on its way to the miner: a job
    /// notification records its job id, target and height, so a later
    /// submit can be reported at the right difficulty. Anything else
    /// changes nothing.
    pub fn observe_pool_line(&mut self, msg: &Sv1Message)
        requires
            old(self).wf(),
        ensures
            final(self).wf(),
            final(self)@.wallet_address == old(self)@.wallet_address,
            final(self)@.worker_name == old(self)@.worker_name,
            ({
                let m = msg@;
                if is_job_notification(m) {
                    final(self)@.jobs =~= spec_add(
                        old(self)@.jobs,
                        old(self).jobs_capacity(),
                        JobView {
                            job_id: m.params->0[0]->Str_0,
                            target: m.params->0[2]->Str_0,
                            difficulty: crate::difficulty::target_difficulty(
                                m.params->0[2]->Str_0,
                            ),
                            height: (match m.params->0[3] {
                                JsonV::Num { mag, .. } => mag,
                                _ => 0,
                            }),
                        },
                    )
                } else {
                    final(self)@.jobs == old(self)@.jobs
                }
            }),
    {
        let method = match &msg.method {
            Some(m) => m,
            None => {
                return ;
            },
        };
        proof {
            reveal_strlit("job");
            reveal_strlit("login");
            reveal_strlit("getjob");
            reveal_strlit("submit");
            reveal_strlit("keepalived");
        }
        if !crate::strings::str_eq(method.as_str(), "job") {
            proof {
                assert(msg@.method == Some(method@));
                assert(method@ != "job"@);
                assert(method_of(method@) != MethodView::Unknown("job"@));
                assert(!is_job_notification(msg@));
            }
            return ;
        }
        proof {
            reveal_strlit("job");
            reveal_strlit("login");
            reveal_strlit("getjob");
            reveal_strlit("submit");
            reveal_strlit("keepalived");
            assert("job"@.len() == 3 && "login"@.len() == 5 && "getjob"@.len() == 6
                && "submit"@.len() == 6 && "keepalived"@.len() == 10);
            assert(method_of(method@) == MethodView::Unknown("job"@));
        }
        let params = match &msg.params {
            Some(p) => p,
            None => {
                return ;
            },
        };
        if params.len() < 4 {
            return ;
        }
        proof {
            assert(msg@.params->0[0] == crate::json::jview(msg.params->0@[0]));
            assert(msg@.params->0[2] == crate::json::jview(msg.params->0@[2]));
            assert(msg@.params->0[3] == crate::json::jview(msg.params->0@[3]));
        }
        let job_id = match &params[0] {
            crate::json::JsonValue::Str(s) => s.clone(),
            _ => {
                return ;
            },
        };
        let target = match &params[2] {
            crate::json::JsonValue::Str(s) => s.clone(),
            _ => {
                return ;
            },
        };
        let height = match &params[3] {
            crate::json::JsonValue::Num(n) => {
                if n.neg {
                    return ;
                }
                n.mag
            },
            _ => {
                return ;
            },
        };
        self.tracker.add_job(job_id, target, height);
    }

    /// The capacity of the inner job tracker.
    pub closed spec fn jobs_capacity(self) -> nat {
        self.tracker.capacity()
    }

    /// Number of jobs currently tracked.
    pub fn job_count(&self) -> (r: usize)
        ensures
            r == self@.jobs.len(),
    {
        self.tracker.count()
    }
}

} // verus!
