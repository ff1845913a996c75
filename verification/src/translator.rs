//! Translation between the V1 JSON-RPC message shape and the proxy's own
//! session state: login and submit handling, keep-alives, job-id mapping,
//! and the share submissions reported to the accounting collaborator.

use crate::difficulty::Difficulty;
use crate::job_tracker::{has_key, key_index, JobTracker};
use crate::numeric::dec_str;
use crate::strings::str_eq;
use crate::sv1::{
    error_response_msg, field_json, job_msg, method_of, MethodView, MsgView, Sv1Message, Sv1Method,
    ok_response_msg,
};
use crate::json::{JsonV, JsonValue};
use vstd::prelude::*;

verus! {

/// A completed share, as reported to the accounting collaborator.
pub struct ShareSubmission {
    pub wallet_address: String,
    pub worker_name: String,
    pub target_name: String,
    pub difficulty: Difficulty,
    pub valid: bool,
}

/// The mathematical content of a [`ShareSubmission`].
pub ghost struct ShareView {
    pub wallet_address: Seq<char>,
    pub worker_name: Seq<char>,
    pub target_name: Seq<char>,
    pub difficulty: Difficulty,
    pub valid: bool,
}

impl View for ShareSubmission {
    type V = ShareView;

    open spec fn view(&self) -> ShareView {
        ShareView {
            wallet_address: self.wallet_address@,
            worker_name: self.worker_name@,
            target_name: self.target_name@,
            difficulty: self.difficulty,
            valid: self.valid,
        }
    }
}

/// Index of the first colon at or after `i`.
pub open spec fn find_colon(s: Seq<char>, i: nat) -> Option<nat>
    decreases s.len() - i,
    when i <= s.len()
{
    if i >= s.len() {
        None
    } else if s[i as int] == ':' {
        Some(i)
    } else {
        find_colon(s, (i + 1) as nat)
    }
}

/// The wallet half of a `wallet:worker` login: everything before the
/// first colon, or the whole string if there is none.
pub open spec fn wallet_of(s: Seq<char>) -> Seq<char> {
    match find_colon(s, 0) {
        Some(p) => s.subrange(0, p as int),
        None => s,
    }
}

/// The worker half of a `wallet:worker` login: between the first and
/// second colons, absent if there is no colon at all.
pub open spec fn worker_of(s: Seq<char>) -> Option<Seq<char>> {
    match find_colon(s, 0) {
        None => None,
        Some(p) => match find_colon(s, (p + 1) as nat) {
            Some(q) => Some(s.subrange(p as int + 1, q as int)),
            None => Some(s.subrange(p as int + 1, s.len() as int)),
        },
    }
}

/// Where the colon scan stops.
proof fn lemma_find_colon(s: Seq<char>, i: nat)
    requires
        i <= s.len(),
    ensures
        match find_colon(s, i) {
            Some(p) => i <= p < s.len() && s[p as int] == ':' && (forall|k: int|
                i <= k < p ==> s[k] != ':'),
            None => forall|k: int| i <= k < s.len() ==> s[k] != ':',
        },
    decreases s.len() - i,
{
    if i < s.len() && s[i as int] != ':' {
        lemma_find_colon(s, (i + 1) as nat);
    }
}

/// Index of the first colon at or after `i`, scanning forward.
fn scan_colon(s: &str, i: usize) -> (r: Option<usize>)
    requires
        i <= s@.len(),
    ensures
        match r {
            Some(p) => find_colon(s@, i as nat) == Some(p as nat) && i <= p < s@.len(),
            None => find_colon(s@, i as nat) is None,
        },
{
    let n = s.unicode_len();
    let mut j: usize = i;
    while j < n
        invariant
            i <= j <= n == s@.len(),
            find_colon(s@, i as nat) == find_colon(s@, j as nat),
        decreases n - j,
    {
        if s.get_char(j) == ':' {
            return Some(j);
        }
        j = j + 1;
    }
    None
}

/// Splits a login of the shape `wallet:worker`.
pub fn split_login(s: &str) -> (r: (String, Option<String>))
    ensures
        r.0@ == wallet_of(s@),
        match r.1 {
            Some(w) => worker_of(s@) == Some(w@),
            None => worker_of(s@) is None,
        },
{
    let n = s.unicode_len();
    match scan_colon(s, 0) {
        None => (String::from_str(s), None),
        Some(p) => {
            let wallet = String::from_str(s.substring_char(0, p));
            let worker = match scan_colon(s, p + 1) {
                Some(q) => String::from_str(s.substring_char(p + 1, q)),
                None => String::from_str(s.substring_char(p + 1, n)),
            };
            (wallet, Some(worker))
        },
    }
}

/// The placeholder result of a successful login: a connection id, an
/// initial empty job, and an OK status.
pub open spec fn login_result_json() -> JsonV {
    JsonV::Obj(
        seq![
            ("id"@, JsonV::Str("proxy_connection"@)),
            (
                "job"@,
                JsonV::Obj(
                    seq![
                        ("job_id"@, JsonV::Str("initial"@)),
                        ("blob"@, JsonV::Str(""@)),
                        ("target"@, JsonV::Str("00000000"@)),
                    ],
                ),
            ),
            ("status"@, JsonV::Str("OK"@)),
        ],
    )
}

/// The result of an accepted share or keep-alive: a status object.
pub open spec fn status_json(status: Seq<char>) -> JsonV {
    JsonV::Obj(seq![("status"@, JsonV::Str(status))])
}

/// A submit request is structurally valid when it carries at least three
/// parameters.
pub open spec fn submit_params_ok(m: MsgView) -> bool {
    m.params is Some && m.params->0.len() >= 3
}

/// A login request is structurally valid when its first parameter is a
/// string, the `wallet:worker` account.
pub open spec fn login_params_ok(m: MsgView) -> bool {
    m.params is Some && m.params->0.len() > 0 && m.params->0[0] is Str
}

/// A login whose account cannot be extracted. A malformed message during
/// the initial login is terminal for the connection, unlike a malformed
/// submit, which only draws an error response.
#[derive(Clone, Copy, Debug, PartialEq, Eq, Structural)]
pub struct MalformedLogin;

/// A parameter read as a string, an empty string when it is not one.
pub open spec fn str_or_empty(v: JsonV) -> Seq<char> {
    match v {
        JsonV::Str(s) => s,
        _ => Seq::empty(),
    }
}

/// Translator between the V1 and V2 stratum protocol families: the
/// per-connection session state and the message reshaping rules.
pub struct StratumTranslator {
    job_id_map: Vec<(String, String)>,
    job_counter: u64,
    wallet_address: Option<String>,
    worker_name: Option<String>,
}

/// The mathematical content of a [`StratumTranslator`].
pub ghost struct TranslatorView {
    pub job_id_map: Seq<(Seq<char>, Seq<char>)>,
    pub job_counter: u64,
    pub wallet_address: Option<Seq<char>>,
    pub worker_name: Option<Seq<char>>,
}

impl View for StratumTranslator {
    type V = TranslatorView;

    closed spec fn view(&self) -> TranslatorView {
        TranslatorView {
            job_id_map: self.job_id_map@.map_values(|p: (String, String)| (p.0@, p.1@)),
            job_counter: self.job_counter,
            wallet_address: match self.wallet_address {
                Some(ref s) => Some(s@),
                None => None,
            },
            worker_name: match self.worker_name {
                Some(ref s) => Some(s@),
                None => None,
            },
        }
    }
}

/// Whether a job-id mapping carries the V1 id `id`.
pub open spec fn map_has(m: Seq<(Seq<char>, Seq<char>)>, id: Seq<char>) -> bool {
    exists|i: int| 0 <= i < m.len() && #[trigger] m[i].0 == id
}

/// Index of the entry for the V1 id `id`.
pub open spec fn map_index(m: Seq<(Seq<char>, Seq<char>)>, id: Seq<char>) -> int {
    choose|i: int| 0 <= i < m.len() && #[trigger] m[i].0 == id
}

impl StratumTranslator {
    /// Well-formedness: each V1 job id is mapped at most once.
    pub open spec fn wf(self) -> bool {
        forall|i: int, j: int|
            0 <= i < j < self@.job_id_map.len() ==> (#[trigger] self@.job_id_map[i].0)
                != (#[trigger] self@.job_id_map[j].0)
    }

    /// Creates a translator with no session state.
    pub fn new() -> (r: StratumTranslator)
        ensures
            r.wf(),
            r@.job_id_map =~= Seq::<(Seq<char>, Seq<char>)>::empty(),
            r@.job_counter == 0,
            r@.wallet_address is None,
            r@.worker_name is None,
    {
        StratumTranslator {
            job_id_map: Vec::new(),
            job_counter: 0,
            wallet_address: None,
            worker_name: None,
        }
    }

    /// Handles a V1 login. A well-formed login stores the wallet and
    /// worker halves of its first parameter and draws a success response
    /// carrying the placeholder job; a login whose account cannot be
    /// extracted is refused, leaving the session unchanged — a malformed
    /// initial login is terminal for the connection.
    pub fn handle_sv1_login(&mut self, msg: &Sv1Message) -> (r: Result<Sv1Message, MalformedLogin>)
        requires
            old(self).wf(),
        ensures
            final(self).wf(),
            final(self)@.job_id_map == old(self)@.job_id_map,
            final(self)@.job_counter == old(self)@.job_counter,
            r is Ok <==> login_params_ok(msg@),
            match r {
                Ok(resp) => {
                    let login = msg@.params->0[0]->Str_0;
                    &&& resp@ == ok_response_msg(field_json(msg@.id), login_result_json())
                    &&& final(self)@.wallet_address == Some(wallet_of(login))
                    &&& final(self)@.worker_name == worker_of(login)
                },
                Err(_) => {
                    &&& final(self)@.wallet_address == old(self)@.wallet_address
                    &&& final(self)@.worker_name == old(self)@.worker_name
                },
            },
    {
        let account: &String = match &msg.params {
            Some(params) => {
                if params.len() > 0 {
                    proof {
                        assert(msg@.params->0[0] == crate::json::jview(msg.params->0@[0]));
                    }
                    match &params[0] {
                        JsonValue::Str(login) => login,
                        _ => {
                            return Err(MalformedLogin);
                        },
                    }
                } else {
                    return Err(MalformedLogin);
                }
            },
            None => {
                return Err(MalformedLogin);
            },
        };
        let (wallet, worker) = split_login(account.as_str());
        self.wallet_address = Some(wallet);
        self.worker_name = worker;
        proof {
            assert(self@.job_id_map == old(self)@.job_id_map);
            assert forall|a: int, b: int|
                0 <= a < b < self@.job_id_map.len() implies (#[trigger] self@.job_id_map[a].0) != (
            #[trigger] self@.job_id_map[b].0) by {
                assert(old(self)@.job_id_map[a].0 != old(self)@.job_id_map[b].0);
            }
            assert(self.wf());
        }
        Ok(Sv1Message::ok_response(id_or_null(&msg.id), login_result_value()))
    }

    /// Handles a V1 submit: a request with at least three parameters is
    /// acknowledged and reported as a share whose difficulty is the one
    /// the tracker recorded for its job id; anything else draws an error
    /// response and no share.
    pub fn handle_sv1_submit(
        &self,
        msg: &Sv1Message,
        tracker: &JobTracker,
        target_name: &str,
    ) -> (r: (Sv1Message, Option<ShareSubmission>))
        requires
            tracker.wf(),
        ensures
            ({
                let m = msg@;
                if submit_params_ok(m) {
                    let job_id = str_or_empty(m.params->0[0]);
                    &&& r.0@ == ok_response_msg(field_json(m.id), status_json("OK"@))
                    &&& r.1 is Some
                    &&& r.1->0@.wallet_address == (match self@.wallet_address {
                        Some(w) => w,
                        None => "unknown"@,
                    })
                    &&& r.1->0@.worker_name == (match self@.worker_name {
                        Some(w) => w,
                        None => "worker1"@,
                    })
                    &&& r.1->0@.target_name == target_name@
                    &&& r.1->0@.difficulty == (if has_key(tracker@, job_id) {
                        tracker@[key_index(tracker@, job_id)].difficulty
                    } else {
                        Difficulty::spec_default()
                    })
                    &&& r.1->0@.valid == true
                } else {
                    &&& r.0@ == error_response_msg(
                        field_json(m.id),
                        -1i32,
                        "Invalid submit parameters"@,
                    )
                    &&& r.1 is None
                }
            }),
    {
        match &self.submit_job_id(msg) {
            Some(job_id) => {
                let difficulty = tracker.get_difficulty(job_id.as_str());
                let wallet = match &self.wallet_address {
                    Some(w) => w.clone(),
                    None => String::from_str("unknown"),
                };
                let worker = match &self.worker_name {
                    Some(w) => w.clone(),
                    None => String::from_str("worker1"),
                };
                let share = ShareSubmission {
                    wallet_address: wallet,
                    worker_name: worker,
                    target_name: String::from_str(target_name),
                    difficulty,
                    valid: true,
                };
                let response = Sv1Message::ok_response(id_or_null(&msg.id), status_value("OK"));
                (response, Some(share))
            },
            None => {
                (
                    Sv1Message::error_response(
                        id_or_null(&msg.id),
                        -1,
                        "Invalid submit parameters",
                    ),
                    None,
                )
            },
        }
    }

    /// The job id of a structurally valid submit, read from the first
    /// parameter; an empty string when that parameter is not a string.
    fn submit_job_id(&self, msg: &Sv1Message) -> (r: Option<String>)
        ensures
            match r {
                Some(job_id) => submit_params_ok(msg@) && job_id@ == str_or_empty(
                    msg@.params->0[0],
                ),
                None => !submit_params_ok(msg@),
            },
    {
        match &msg.params {
            Some(params) => {
                if params.len() >= 3 {
                    proof {
                        assert(msg@.params->0[0] == crate::json::jview(msg.params->0@[0]));
                    }
                    match &params[0] {
                        JsonValue::Str(s) => Some(s.clone()),
                        _ => Some(String::new()),
                    }
                } else {
                    None
                }
            },
            None => None,
        }
    }

    /// Generates a fresh V1 job id from the monotone counter.
    pub fn generate_job_id(&mut self) -> (r: String)
        requires
            old(self).wf(),
            old(self)@.job_counter < u64::MAX,
        ensures
            final(self).wf(),
            final(self)@.job_counter == old(self)@.job_counter + 1,
            final(self)@.job_id_map == old(self)@.job_id_map,
            final(self)@.wallet_address == old(self)@.wallet_address,
            final(self)@.worker_name == old(self)@.worker_name,
            r@ == "job_"@ + dec_str((old(self)@.job_counter + 1) as nat),
    {
        self.job_counter = self.job_counter + 1;
        let digits = crate::numeric::format_u64_dec(self.job_counter);
        let tail = crate::strings::chars_to_string(&digits);
        let mut id = String::from_str("job_");
        id.append(tail.as_str());
        proof {
            assert(self@.job_id_map == old(self)@.job_id_map);
            assert forall|a: int, b: int|
                0 <= a < b < self@.job_id_map.len() implies (#[trigger] self@.job_id_map[a].0) != (
            #[trigger] self@.job_id_map[b].0) by {
                assert(old(self)@.job_id_map[a].0 != old(self)@.job_id_map[b].0);
            }
            assert(self.wf());
        }
        id
    }

    /// Records that the V1 job id stands for the V2 job id; an existing
    /// entry for the same V1 id is replaced.
    #[verifier::loop_isolation(false)]
    pub fn map_job(&mut self, sv2_job_id: String, sv1_job_id: String)
        requires
            old(self).wf(),
        ensures
            final(self).wf(),
            final(self)@.job_counter == old(self)@.job_counter,
            final(self)@.wallet_address == old(self)@.wallet_address,
            final(self)@.worker_name == old(self)@.worker_name,
            map_has(final(self)@.job_id_map, sv1_job_id@),
            final(self)@.job_id_map[map_index(final(self)@.job_id_map, sv1_job_id@)].1
                == sv2_job_id@,
            ({
                let m = old(self)@.job_id_map;
                if map_has(m, sv1_job_id@) {
                    final(self)@.job_id_map =~= m.update(
                        map_index(m, sv1_job_id@),
                        (sv1_job_id@, sv2_job_id@),
                    )
                } else {
                    final(self)@.job_id_map =~= m.push((sv1_job_id@, sv2_job_id@))
                }
            }),
    {
        let n = self.job_id_map.len();
        let mut i: usize = 0;
        while i < n
            invariant
                self == old(self),
                0 <= i <= n == self@.job_id_map.len(),
                forall|k: int| 0 <= k < i ==> (#[trigger] self@.job_id_map[k].0) != sv1_job_id@,
            decreases n - i,
        {
            if str_eq(self.job_id_map[i].0.as_str(), sv1_job_id.as_str()) {
                proof {
                    let ghost m = self@.job_id_map;
                    assert(m[i as int].0 == sv1_job_id@);
                    assert(map_index(m, sv1_job_id@) == i);
                }
                self.job_id_map.set(i, (sv1_job_id, sv2_job_id));
                proof {
                    assert(self@.job_id_map =~= old(self)@.job_id_map.update(
                        i as int,
                        (sv1_job_id@, sv2_job_id@),
                    ));
                    let ghost m2 = self@.job_id_map;
                    assert(m2[i as int].0 == sv1_job_id@);
                    assert(map_index(m2, sv1_job_id@) == i);
                }
                return ;
            }
            i = i + 1;
        }
        self.job_id_map.push((sv1_job_id, sv2_job_id));
        proof {
            assert(self@.job_id_map =~= old(self)@.job_id_map.push((sv1_job_id@, sv2_job_id@)));
            let ghost m2 = self@.job_id_map;
            assert(m2[m2.len() - 1].0 == sv1_job_id@);
            assert(map_index(m2, sv1_job_id@) == m2.len() - 1);
        }
    }

    /// Looks up the V2 job id a V1 job id stands for.
    #[verifier::loop_isolation(false)]
    pub fn get_sv2_job_id(&self, sv1_job_id: &str) -> (r: Option<String>)
        requires
            self.wf(),
        ensures
            match r {
                Some(id) => map_has(self@.job_id_map, sv1_job_id@) && id@ == self@.job_id_map[
                    map_index(self@.job_id_map, sv1_job_id@)
                ].1,
                None => !map_has(self@.job_id_map, sv1_job_id@),
            },
    {
        let n = self.job_id_map.len();
        let mut i: usize = 0;
        while i < n
            invariant
                0 <= i <= n == self@.job_id_map.len(),
                forall|k: int| 0 <= k < i ==> (#[trigger] self@.job_id_map[k].0) != sv1_job_id@,
            decreases n - i,
        {
            if str_eq(self.job_id_map[i].0.as_str(), sv1_job_id) {
                proof {
                    let ghost m = self@.job_id_map;
                    assert(m[i as int].0 == sv1_job_id@);
                    assert(map_index(m, sv1_job_id@) == i);
                }
                return Some(self.job_id_map[i].1.clone());
            }
            i = i + 1;
        }
        None
    }

    /// The wallet address stored at login, if one has been seen.
    pub fn wallet_address(&self) -> (r: Option<&str>)
        ensures
            match r {
                Some(s) => self@.wallet_address == Some(s@),
                None => self@.wallet_address is None,
            },
    {
        match &self.wallet_address {
            Some(s) => Some(s.as_str()),
            None => None,
        }
    }

    /// The worker name stored at login, if one has been seen.
    pub fn worker_name(&self) -> (r: Option<&str>)
        ensures
            match r {
                Some(s) => self@.worker_name == Some(s@),
                None => self@.worker_name is None,
            },
    {
        match &self.worker_name {
            Some(s) => Some(s.as_str()),
            None => None,
        }
    }

    /// Processes one V1 message from the miner: requests draw the
    /// response the protocol owes them (and a share report for an
    /// accepted submit); responses and job requests draw nothing. A
    /// malformed login is refused outright — it is terminal for the
    /// connection, so no response is synthesized for it.
    pub fn process_sv1_message(
        &mut self,
        msg: &Sv1Message,
        tracker: &JobTracker,
        target_name: &str,
    ) -> (r: Result<(Option<Sv1Message>, Option<ShareSubmission>), MalformedLogin>)
        requires
            old(self).wf(),
            tracker.wf(),
        ensures
            final(self).wf(),
            final(self)@.job_id_map == old(self)@.job_id_map,
            final(self)@.job_counter == old(self)@.job_counter,
            r is Err <==> (msg@.method is Some && method_of(msg@.method->0) == MethodView::Login
                && !login_params_ok(msg@)),
            r is Err ==> final(self)@.wallet_address == old(self)@.wallet_address,
            r is Err ==> final(self)@.worker_name == old(self)@.worker_name,
            ({
                let m = msg@;
                match r {
                    Err(_) => true,
                    Ok(out) => match m.method {
                        Some(name) => {
                            match method_of(name) {
                                MethodView::Login => out.0 is Some && out.0->0@ == ok_response_msg(
                                    field_json(m.id),
                                    login_result_json(),
                                ) && out.1 is None,
                                MethodView::Submit => {
                                    &&& out.0 is Some
                                    &&& (if submit_params_ok(m) {
                                        out.0->0@ == ok_response_msg(
                                            field_json(m.id),
                                            status_json("OK"@),
                                        ) && out.1 is Some
                                    } else {
                                        out.0->0@ == error_response_msg(
                                            field_json(m.id),
                                            -1i32,
                                            "Invalid submit parameters"@,
                                        ) && out.1 is None
                                    })
                                },
                                MethodView::KeepAlive => out.0 is Some && out.0->0@
                                    == ok_response_msg(
                                    field_json(m.id),
                                    status_json("KEEPALIVED"@),
                                ) && out.1 is None,
                                MethodView::GetJob => out.0 is None && out.1 is None,
                                MethodView::Unknown(name) => out.0 is Some && out.0->0@
                                    == error_response_msg(
                                    field_json(m.id),
                                    -1i32,
                                    "Unknown method: "@ + name,
                                ) && out.1 is None,
                            }
                        },
                        None => out.0 is None && out.1 is None,
                    },
                }
            }),
    {
        match msg.get_method() {
            Some(Sv1Method::Login) => {
                match self.handle_sv1_login(msg) {
                    Ok(response) => Ok((Some(response), None)),
                    Err(e) => Err(e),
                }
            },
            Some(Sv1Method::Submit) => {
                let (response, share) = self.handle_sv1_submit(msg, tracker, target_name);
                Ok((Some(response), share))
            },
            Some(Sv1Method::KeepAlive) => {
                Ok(
                    (
                        Some(
                            Sv1Message::ok_response(
                                id_or_null(&msg.id),
                                status_value("KEEPALIVED"),
                            ),
                        ),
                        None,
                    ),
                )
            },
            Some(Sv1Method::GetJob) => Ok((None, None)),
            Some(Sv1Method::Unknown(name)) => {
                let mut text = String::from_str("Unknown method: ");
                text.append(name.as_str());
                Ok(
                    (
                        Some(Sv1Message::error_response(id_or_null(&msg.id), -1, text.as_str())),
                        None,
                    ),
                )
            },
            None => Ok((None, None)),
        }
    }

    /// Creates a V1 job notification under a freshly generated job id.
    pub fn create_sv1_job(&mut self, blob: &str, target: &str, height: u64) -> (r: Sv1Message)
        requires
            old(self).wf(),
            old(self)@.job_counter < u64::MAX,
        ensures
            final(self).wf(),
            final(self)@.job_counter == old(self)@.job_counter + 1,
            final(self)@.job_id_map == old(self)@.job_id_map,
            r@ == job_msg(
                "job_"@ + dec_str((old(self)@.job_counter + 1) as nat),
                blob@,
                target@,
                height,
            ),
    {
        let job_id = self.generate_job_id();
        Sv1Message::job(job_id.as_str(), blob, target, height)
    }
}

/// The message id to answer with: the request's own id, or `null`.
fn id_or_null(id: &Option<JsonValue>) -> (r: JsonValue)
    ensures
        r@ == field_json(
            match id {
                Some(v) => Some(v@),
                None => None,
            },
        ),
{
    match id {
        Some(v) => crate::sv1::clone_json(v),
        None => JsonValue::Null,
    }
}

/// Builds the placeholder login result.
fn login_result_value() -> (r: JsonValue)
    ensures
        r@ == login_result_json(),
{
    let mut job: Vec<(String, JsonValue)> = Vec::new();
    job.push((String::from_str("job_id"), JsonValue::Str(String::from_str("initial"))));
    job.push((String::from_str("blob"), JsonValue::Str(String::from_str(""))));
    job.push((String::from_str("target"), JsonValue::Str(String::from_str("00000000"))));
    let mut members: Vec<(String, JsonValue)> = Vec::new();
    members.push((String::from_str("id"), JsonValue::Str(String::from_str("proxy_connection"))));
    members.push((String::from_str("job"), JsonValue::Obj(job)));
    members.push((String::from_str("status"), JsonValue::Str(String::from_str("OK"))));
    let r = JsonValue::Obj(members);
    proof {
        assert(crate::json::mviews(r->Obj_0@[1].1->Obj_0@) =~= login_result_json()->Obj_0[1].1->Obj_0);
        assert(crate::json::mviews(r->Obj_0@) =~= login_result_json()->Obj_0);
        assert(r@ == login_result_json());
    }
    r
}

/// Builds a status object.
fn status_value(status: &str) -> (r: JsonValue)
    ensures
        r@ == status_json(status@),
{
    let mut members: Vec<(String, JsonValue)> = Vec::new();
    members.push((String::from_str("status"), JsonValue::Str(String::from_str(status))));
    let r = JsonValue::Obj(members);
    proof {
        assert(crate::json::mviews(r->Obj_0@) =~= status_json(status@)->Obj_0);
        assert(r@ == status_json(status@));
    }
    r
}

} // verus!
