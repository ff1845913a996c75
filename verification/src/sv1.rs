//! The V1 stratum message envelope: a JSON-RPC-shaped record with optional
//! id, method, params, result and error fields, and its wire text.

use crate::json::{
    enc, jview, jviews, mviews, parse_json, JsonNum, JsonV, JsonValue,
};
use crate::strings::str_eq;
use vstd::prelude::*;

verus! {

/// A V1 method name, classified.
pub enum Sv1Method {
    Login,
    GetJob,
    Submit,
    KeepAlive,
    Unknown(String),
}

/// The mathematical content of a [`Sv1Method`].
pub ghost enum MethodView {
    Login,
    GetJob,
    Submit,
    KeepAlive,
    Unknown(Seq<char>),
}

impl View for Sv1Method {
    type V = MethodView;

    open spec fn view(&self) -> MethodView {
        match self {
            Sv1Method::Login => MethodView::Login,
            Sv1Method::GetJob => MethodView::GetJob,
            Sv1Method::Submit => MethodView::Submit,
            Sv1Method::KeepAlive => MethodView::KeepAlive,
            Sv1Method::Unknown(s) => MethodView::Unknown(s@),
        }
    }
}

/// Which method a name denotes: the four known names, or `Unknown`
/// carrying the name itself.
pub open spec fn method_of(s: Seq<char>) -> MethodView {
    if s == "login"@ {
        MethodView::Login
    } else if s == "getjob"@ {
        MethodView::GetJob
    } else if s == "submit"@ {
        MethodView::Submit
    } else if s == "keepalived"@ {
        MethodView::KeepAlive
    } else {
        MethodView::Unknown(s)
    }
}

/// The wire name of a method.
pub open spec fn method_name(m: MethodView) -> Seq<char> {
    match m {
        MethodView::Login => "login"@,
        MethodView::GetJob => "getjob"@,
        MethodView::Submit => "submit"@,
        MethodView::KeepAlive => "keepalived"@,
        MethodView::Unknown(s) => s,
    }
}

impl Sv1Method {
    /// Classifies a method name.
    pub fn from_str(s: &str) -> (r: Sv1Method)
        ensures
            r@ == method_of(s@),
    {
        if str_eq(s, "login") {
            Sv1Method::Login
        } else if str_eq(s, "getjob") {
            Sv1Method::GetJob
        } else if str_eq(s, "submit") {
            Sv1Method::Submit
        } else if str_eq(s, "keepalived") {
            Sv1Method::KeepAlive
        } else {
            Sv1Method::Unknown(String::from_str(s))
        }
    }

    /// The wire name of this method.
    pub fn as_str(&self) -> (r: &str)
        ensures
            r@ == method_name(self@),
    {
        match self {
            Sv1Method::Login => "login",
            Sv1Method::GetJob => "getjob",
            Sv1Method::Submit => "submit",
            Sv1Method::KeepAlive => "keepalived",
            Sv1Method::Unknown(s) => s.as_str(),
        }
    }
}

/// A V1 message.
pub struct Sv1Message {
    pub id: Option<JsonValue>,
    pub method: Option<String>,
    pub params: Option<Vec<JsonValue>>,
    pub result: Option<JsonValue>,
    pub error: Option<JsonValue>,
}

/// The mathematical content of a [`Sv1Message`].
pub ghost struct MsgView {
    pub id: Option<JsonV>,
    pub method: Option<Seq<char>>,
    pub params: Option<Seq<JsonV>>,
    pub result: Option<JsonV>,
    pub error: Option<JsonV>,
}

impl View for Sv1Message {
    type V = MsgView;

    open spec fn view(&self) -> MsgView {
        MsgView {
            id: match self.id {
                Some(v) => Some(jview(v)),
                None => None,
            },
            method: match self.method {
                Some(ref s) => Some(s@),
                None => None,
            },
            params: match self.params {
                Some(ref p) => Some(jviews(p@)),
                None => None,
            },
            result: match self.result {
                Some(v) => Some(jview(v)),
                None => None,
            },
            error: match self.error {
                Some(v) => Some(jview(v)),
                None => None,
            },
        }
    }
}

/// An optional field as the JSON value it is written as: `null` when
/// absent.
pub open spec fn field_json(f: Option<JsonV>) -> JsonV {
    match f {
        Some(v) => v,
        None => JsonV::Null,
    }
}

/// The JSON object a message is written as: its five fields in a fixed
/// order, absent ones as `null`.
pub open spec fn msg_json(m: MsgView) -> JsonV {
    JsonV::Obj(
        seq![
            ("id"@, field_json(m.id)),
            (
                "method"@,
                match m.method {
                    Some(s) => JsonV::Str(s),
                    None => JsonV::Null,
                },
            ),
            (
                "params"@,
                match m.params {
                    Some(p) => JsonV::Arr(p),
                    None => JsonV::Null,
                },
            ),
            ("result"@, field_json(m.result)),
            ("error"@, field_json(m.error)),
        ],
    )
}

/// The empty message: every field absent.
pub open spec fn empty_msg() -> MsgView {
    MsgView { id: None, method: None, params: None, result: None, error: None }
}

/// One member of a message object applied to the record read so far: the
/// known keys set their field (`null` clears it), an unknown key changes
/// nothing, and a known key with a value of the wrong shape is an error.
pub open spec fn apply_member(m: MsgView, kv: (Seq<char>, JsonV)) -> Option<MsgView> {
    if kv.0 == "id"@ {
        Some(
            MsgView {
                id: match kv.1 {
                    JsonV::Null => None,
                    v => Some(v),
                },
                ..m
            },
        )
    } else if kv.0 == "method"@ {
        match kv.1 {
            JsonV::Null => Some(MsgView { method: None, ..m }),
            JsonV::Str(s) => Some(MsgView { method: Some(s), ..m }),
            _ => None,
        }
    } else if kv.0 == "params"@ {
        match kv.1 {
            JsonV::Null => Some(MsgView { params: None, ..m }),
            JsonV::Arr(a) => Some(MsgView { params: Some(a), ..m }),
            _ => None,
        }
    } else if kv.0 == "result"@ {
        Some(
            MsgView {
                result: match kv.1 {
                    JsonV::Null => None,
                    v => Some(v),
                },
                ..m
            },
        )
    } else if kv.0 == "error"@ {
        Some(
            MsgView {
                error: match kv.1 {
                    JsonV::Null => None,
                    v => Some(v),
                },
                ..m
            },
        )
    } else {
        Some(m)
    }
}

/// All members of a message object applied in order; a later duplicate
/// key overrides an earlier one.
pub open spec fn apply_members(m: MsgView, o: Seq<(Seq<char>, JsonV)>) -> Option<MsgView>
    decreases o.len(),
{
    if o.len() == 0 {
        Some(m)
    } else {
        match apply_member(m, o[0]) {
            Some(m2) => apply_members(m2, o.drop_first()),
            None => None,
        }
    }
}

/// The message a JSON value denotes, if it is an object of the right
/// shape.
pub open spec fn msg_of_json(v: JsonV) -> Option<MsgView> {
    match v {
        JsonV::Obj(o) => apply_members(empty_msg(), o),
        _ => None,
    }
}

/// The message a wire text denotes, read with insignificant whitespace
/// between its tokens dropped.
pub open spec fn msg_of_text(s: Seq<char>) -> Option<MsgView> {
    match parse_json(crate::json::strip_ws(s)) {
        Some(v) => msg_of_json(v),
        None => None,
    }
}

/// Parsing failed: the text is not a well-shaped message.
#[derive(Clone, Copy, Debug, PartialEq, Eq, Structural)]
pub struct JsonError;

impl Sv1Message {
    /// Parses one line of wire text as a message.
    #[verifier::loop_isolation(false)]
    pub fn from_json(json: &str) -> (r: Result<Sv1Message, JsonError>)
        ensures
            match r {
                Ok(m) => msg_of_text(json@) == Some(m@),
                Err(_) => msg_of_text(json@) is None,
            },
    {
        let parsed = match crate::json::json_from_text(json) {
            Some(v) => v,
            None => {
                proof {
                    assert(msg_of_text(json@) is None);
                }
                return Err(JsonError);
            },
        };
        let members = match parsed {
            JsonValue::Obj(o) => o,
            _ => {
                proof {
                    assert(msg_of_json(parsed@) is None);
                    assert(msg_of_text(json@) is None);
                }
                return Err(JsonError);
            },
        };
        let ghost all = mviews(members@);
        let mut msg = Sv1Message { id: None, method: None, params: None, result: None, error: None };
        proof {
            assert(msg@ == empty_msg());
        }
        proof {
            assert(all.skip(0) =~= all);
        }
        let n = members.len();
        let mut i: usize = 0;
        while i < n
            invariant
                0 <= i <= n == members@.len(),
                all == mviews(members@),
                apply_members(empty_msg(), all) == apply_members(msg@, all.skip(i as int)),
            decreases n - i,
        {
            let ghost before = msg@;
            let (key, value) = &members[i];
            proof {
                assert(all.skip(i as int)[0] == (key@, jview(*value)));
                assert(all.skip(i as int).drop_first() =~= all.skip(i + 1));
            }
            if str_eq(key.as_str(), "id") {
                msg.id = match value {
                    JsonValue::Null => None,
                    v => Some(clone_json(v)),
                };
            } else if str_eq(key.as_str(), "method") {
                match value {
                    JsonValue::Null => {
                        msg.method = None;
                    },
                    JsonValue::Str(s) => {
                        msg.method = Some(s.clone());
                    },
                    _ => {
                        return Err(JsonError);
                    },
                }
            } else if str_eq(key.as_str(), "params") {
                match value {
                    JsonValue::Null => {
                        msg.params = None;
                    },
                    JsonValue::Arr(a) => {
                        msg.params = Some(clone_json_vec(a));
                    },
                    _ => {
                        return Err(JsonError);
                    },
                }
            } else if str_eq(key.as_str(), "result") {
                msg.result = match value {
                    JsonValue::Null => None,
                    v => Some(clone_json(v)),
                };
            } else if str_eq(key.as_str(), "error") {
                msg.error = match value {
                    JsonValue::Null => None,
                    v => Some(clone_json(v)),
                };
            }
            proof {
                assert(apply_member(before, all.skip(i as int)[0]) == Some(msg@));
            }
            i = i + 1;
        }
        proof {
            assert(all.skip(n as int) =~= Seq::<(Seq<char>, JsonV)>::empty());
        }
        Ok(msg)
    }

    /// Writes the message as one line of wire text.
    pub fn to_json(&self) -> (r: String)
        ensures
            r@ == enc(msg_json(self@)),
    {
        let mut members: Vec<(String, JsonValue)> = Vec::new();
        members.push(
            (
                String::from_str("id"),
                match &self.id {
                    Some(v) => clone_json(v),
                    None => JsonValue::Null,
                },
            ),
        );
        members.push(
            (
                String::from_str("method"),
                match &self.method {
                    Some(s) => JsonValue::Str(s.clone()),
                    None => JsonValue::Null,
                },
            ),
        );
        members.push(
            (
                String::from_str("params"),
                match &self.params {
                    Some(p) => JsonValue::Arr(clone_json_vec(p)),
                    None => JsonValue::Null,
                },
            ),
        );
        members.push(
            (
                String::from_str("result"),
                match &self.result {
                    Some(v) => clone_json(v),
                    None => JsonValue::Null,
                },
            ),
        );
        members.push(
            (
                String::from_str("error"),
                match &self.error {
                    Some(v) => clone_json(v),
                    None => JsonValue::Null,
                },
            ),
        );
        let obj = JsonValue::Obj(members);
        proof {
            assert(mviews(obj->Obj_0@) =~= msg_json(self@)->Obj_0);
            assert(obj@ == msg_json(self@));
        }
        crate::json::to_json_text(&obj)
    }

    /// The method this message carries, classified, if it is a request.
    pub fn get_method(&self) -> (r: Option<Sv1Method>)
        ensures
            match r {
                Some(m) => self@.method is Some && m@ == method_of(self@.method->0),
                None => self@.method is None,
            },
    {
        match &self.method {
            Some(m) => Some(Sv1Method::from_str(m.as_str())),
            None => None,
        }
    }

    /// Whether this message is a response: it carries a result or an
    /// error rather than a method.
    pub fn is_response(&self) -> (r: bool)
        ensures
            r == (self@.result is Some || self@.error is Some),
    {
        self.result.is_some() || self.error.is_some()
    }
}

/// The login request a miner opens a session with: one parameter,
/// `wallet:worker`.
pub open spec fn login_msg(id: u64, wallet: Seq<char>, worker: Seq<char>) -> MsgView {
    MsgView {
        id: Some(JsonV::Num { neg: false, mag: id }),
        method: Some("login"@),
        params: Some(seq![JsonV::Str(wallet + ":"@ + worker)]),
        result: None,
        error: None,
    }
}

/// The submit request: job id, nonce and result hash as parameters.
pub open spec fn submit_msg(id: u64, job_id: Seq<char>, nonce: Seq<char>, result: Seq<char>) -> MsgView {
    MsgView {
        id: Some(JsonV::Num { neg: false, mag: id }),
        method: Some("submit"@),
        params: Some(seq![JsonV::Str(job_id), JsonV::Str(nonce), JsonV::Str(result)]),
        result: None,
        error: None,
    }
}

/// The job notification: job id, blob, target and height as parameters.
pub open spec fn job_msg(job_id: Seq<char>, blob: Seq<char>, target: Seq<char>, height: u64) -> MsgView {
    MsgView {
        id: None,
        method: Some("job"@),
        params: Some(
            seq![
                JsonV::Str(job_id),
                JsonV::Str(blob),
                JsonV::Str(target),
                JsonV::Num { neg: false, mag: height },
            ],
        ),
        result: None,
        error: None,
    }
}

/// A success response carrying a result.
pub open spec fn ok_response_msg(id: JsonV, result: JsonV) -> MsgView {
    MsgView { id: Some(id), method: None, params: None, result: Some(result), error: None }
}

/// A signed JSON integer for an error code.
pub open spec fn code_num(code: i32) -> JsonV {
    JsonV::Num {
        neg: code < 0,
        mag: (if code < 0 {
            -(code as int)
        } else {
            code as int
        }) as u64,
    }
}

/// An error response: an object with the code and the message.
pub open spec fn error_response_msg(id: JsonV, code: i32, message: Seq<char>) -> MsgView {
    MsgView {
        id: Some(id),
        method: None,
        params: None,
        result: None,
        error: Some(JsonV::Obj(seq![("code"@, code_num(code)), ("message"@, JsonV::Str(message))])),
    }
}

/// A string parameter.
fn str_value(s: &str) -> (r: JsonValue)
    ensures
        r@ == JsonV::Str(s@),
{
    JsonValue::Str(String::from_str(s))
}

impl Sv1Message {
    /// Creates a login request.
    pub fn login(id: u64, wallet: &str, worker: &str) -> (r: Sv1Message)
        ensures
            r@ == login_msg(id, wallet@, worker@),
    {
        let mut account = String::from_str(wallet);
        account.append(":");
        account.append(worker);
        let mut params: Vec<JsonValue> = Vec::new();
        params.push(JsonValue::Str(account));
        proof {
            assert(jviews(params@) =~= login_msg(id, wallet@, worker@).params->0);
        }
        Sv1Message {
            id: Some(JsonValue::Num(JsonNum { neg: false, mag: id })),
            method: Some(String::from_str("login")),
            params: Some(params),
            result: None,
            error: None,
        }
    }

    /// Creates a submit request.
    pub fn submit(id: u64, job_id: &str, nonce: &str, result: &str) -> (r: Sv1Message)
        ensures
            r@ == submit_msg(id, job_id@, nonce@, result@),
    {
        let mut params: Vec<JsonValue> = Vec::new();
        params.push(str_value(job_id));
        params.push(str_value(nonce));
        params.push(str_value(result));
        proof {
            assert(jviews(params@) =~= submit_msg(id, job_id@, nonce@, result@).params->0);
        }
        Sv1Message {
            id: Some(JsonValue::Num(JsonNum { neg: false, mag: id })),
            method: Some(String::from_str("submit")),
            params: Some(params),
            result: None,
            error: None,
        }
    }

    /// Creates a job notification.
    pub fn job(job_id: &str, blob: &str, target: &str, height: u64) -> (r: Sv1Message)
        ensures
            r@ == job_msg(job_id@, blob@, target@, height),
    {
        let mut params: Vec<JsonValue> = Vec::new();
        params.push(str_value(job_id));
        params.push(str_value(blob));
        params.push(str_value(target));
        params.push(JsonValue::Num(JsonNum { neg: false, mag: height }));
        proof {
            assert(jviews(params@) =~= job_msg(job_id@, blob@, target@, height).params->0);
        }
        Sv1Message {
            id: None,
            method: Some(String::from_str("job")),
            params: Some(params),
            result: None,
            error: None,
        }
    }

    /// Creates a success response.
    pub fn ok_response(id: JsonValue, result: JsonValue) -> (r: Sv1Message)
        ensures
            r@ == ok_response_msg(id@, result@),
    {
        Sv1Message { id: Some(id), method: None, params: None, result: Some(result), error: None }
    }

    /// Creates an error response.
    pub fn error_response(id: JsonValue, code: i32, message: &str) -> (r: Sv1Message)
        ensures
            r@ == error_response_msg(id@, code, message@),
    {
        let mag: u64 = if code < 0 {
            (-(code as i64)) as u64
        } else {
            code as u64
        };
        let mut members: Vec<(String, JsonValue)> = Vec::new();
        members.push((String::from_str("code"), JsonValue::Num(JsonNum { neg: code < 0, mag })));
        members.push((String::from_str("message"), str_value(message)));
        proof {
            assert(mviews(members@) =~= error_response_msg(id@, code, message@).error->0->Obj_0);
        }
        Sv1Message {
            id: Some(id),
            method: None,
            params: None,
            result: None,
            error: Some(JsonValue::Obj(members)),
        }
    }
}

/// Deep copy of a JSON value.
#[verifier::loop_isolation(false)]
pub fn clone_json(v: &JsonValue) -> (r: JsonValue)
    ensures
        r@ == v@,
    decreases *v, 0nat,
{
    match v {
        JsonValue::Null => JsonValue::Null,
        JsonValue::Bool(b) => JsonValue::Bool(*b),
        JsonValue::Num(n) => JsonValue::Num(JsonNum { neg: n.neg, mag: n.mag }),
        JsonValue::Str(s) => JsonValue::Str(s.clone()),
        JsonValue::Arr(a) => JsonValue::Arr(clone_json_vec(a)),
        JsonValue::Obj(o) => {
            let n = o.len();
            let mut out: Vec<(String, JsonValue)> = Vec::new();
            let mut i: usize = 0;
            while i < n
                invariant
                    0 <= i <= n == o@.len(),
                    out@.len() == i,
                    forall|k: int|
                        0 <= k < i ==> (#[trigger] out@[k]).0@ == o@[k].0@ && out@[k].1@ == o@[k].1@,
                decreases n - i,
            {
                proof {
                    assert(decreases_to!(o@ => o@[i as int]));
                    assert(decreases_to!(o@[i as int] => o@[i as int].1));
                }
                let (k, val) = &o[i];
                out.push((k.clone(), clone_json(val)));
                i = i + 1;
            }
            proof {
                assert(mviews(out@) =~= mviews(o@));
            }
            JsonValue::Obj(out)
        },
    }
}

/// Deep copy of a sequence of JSON values.
pub fn clone_json_vec(a: &Vec<JsonValue>) -> (r: Vec<JsonValue>)
    ensures
        jviews(r@) == jviews(a@),
        r@.len() == a@.len(),
    decreases a@, 1nat,
{
    let n = a.len();
    let mut out: Vec<JsonValue> = Vec::new();
    let mut i: usize = 0;
    while i < n
        invariant
            0 <= i <= n == a@.len(),
            out@.len() == i,
            forall|k: int| 0 <= k < i ==> (#[trigger] out@[k])@ == a@[k]@,
        decreases n - i,
    {
        proof {
            assert(decreases_to!(a@ => a@[i as int]));
        }
        out.push(clone_json(&a[i]));
        i = i + 1;
    }
    proof {
        assert(jviews(out@) =~= jviews(a@));
    }
    out
}

// ------------------------------------------------------------------
// The message round trip: writing a message and parsing the text back
// yields the same message.
// ------------------------------------------------------------------

/// Well-formedness of a message for the round trip: present fields are
/// well-formed values, and none of the free-shaped fields is a bare
/// `null`, since an absent field is written as `null`.
pub open spec fn wf_msg(m: MsgView) -> bool {
    &&& match m.id {
        Some(v) => v != JsonV::Null && crate::json::wf_json(v),
        None => true,
    }
    &&& match m.params {
        Some(p) => forall|k: int| 0 <= k < p.len() ==> crate::json::wf_json(#[trigger] p[k]),
        None => true,
    }
    &&& match m.result {
        Some(v) => v != JsonV::Null && crate::json::wf_json(v),
        None => true,
    }
    &&& match m.error {
        Some(v) => v != JsonV::Null && crate::json::wf_json(v),
        None => true,
    }
}

/// The object a well-formed message is written as is itself well-formed.
proof fn lemma_wf_msg_json(m: MsgView)
    requires
        wf_msg(m),
    ensures
        crate::json::wf_json(msg_json(m)),
{
    let o = msg_json(m)->Obj_0;
    assert forall|k: int| 0 <= k < o.len() implies crate::json::wf_json((#[trigger] o[k]).1) by {
        if k == 0 {
            assert(o[0].1 == field_json(m.id));
        } else if k == 1 {
        } else if k == 2 {
        } else if k == 3 {
            assert(o[3].1 == field_json(m.result));
        } else {
            assert(o[4].1 == field_json(m.error));
        }
    }
}

/// Reading the five members a message is written as back off yields the
/// message.
proof fn lemma_msg_extract(m: MsgView)
    requires
        wf_msg(m),
    ensures
        msg_of_json(msg_json(m)) == Some(m),
{
    reveal_strlit("id");
    reveal_strlit("method");
    reveal_strlit("params");
    reveal_strlit("result");
    reveal_strlit("error");
    let o = msg_json(m)->Obj_0;
    let kv0 = ("id"@, field_json(m.id));
    let kv1 = (
        "method"@,
        match m.method {
            Some(s) => JsonV::Str(s),
            None => JsonV::Null,
        },
    );
    let kv2 = (
        "params"@,
        match m.params {
            Some(p) => JsonV::Arr(p),
            None => JsonV::Null,
        },
    );
    let kv3 = ("result"@, field_json(m.result));
    let kv4 = ("error"@, field_json(m.error));
    assert("id"@.len() == 2 && "method"@.len() == 6 && "params"@.len() == 6 && "result"@.len()
        == 6 && "error"@.len() == 5);
    assert("method"@[0] == 'm' && "params"@[0] == 'p' && "result"@[0] == 'r');
    assert("method"@ != "id"@);
    assert("params"@ != "id"@ && "params"@ != "method"@);
    assert("result"@ != "id"@ && "result"@ != "method"@ && "result"@ != "params"@);
    assert("error"@ != "id"@ && "error"@ != "method"@ && "error"@ != "params"@ && "error"@
        != "result"@);
    let m0 = empty_msg();
    let m1 = apply_member(m0, kv0)->0;
    let m2 = apply_member(m1, kv1)->0;
    let m3 = apply_member(m2, kv2)->0;
    let m4 = apply_member(m3, kv3)->0;
    let m5 = apply_member(m4, kv4)->0;
    assert(m1.id == m.id);
    assert(m2.method == m.method && m2.id == m.id);
    assert(m3.params == m.params && m3.method == m.method && m3.id == m.id);
    assert(m5 == m);
    let o1 = o.drop_first();
    let o2 = o1.drop_first();
    let o3 = o2.drop_first();
    let o4 = o3.drop_first();
    let o5 = o4.drop_first();
    assert(o[0] == kv0 && o1[0] == kv1 && o2[0] == kv2 && o3[0] == kv3 && o4[0] == kv4);
    assert(o5.len() == 0);
    assert(apply_members(m5, o5) == Some(m5));
    assert(apply_members(m4, o4) == Some(m5));
    assert(apply_members(m3, o3) == Some(m5));
    assert(apply_members(m2, o2) == Some(m5));
    assert(apply_members(m1, o1) == Some(m5));
    assert(apply_members(m0, o) == Some(m5));
}

/// The round trip: the wire text of any well-formed message parses back
/// to exactly that message.
pub proof fn lemma_message_round_trip(m: MsgView)
    requires
        wf_msg(m),
    ensures
        msg_of_text(enc(msg_json(m))) == Some(m),
{
    lemma_wf_msg_json(m);
    crate::json::lemma_json_round_trip(msg_json(m));
    lemma_msg_extract(m);
}

/// The round trip holds of every login request the constructor builds.
pub proof fn lemma_login_round_trip(id: u64, wallet: Seq<char>, worker: Seq<char>)
    ensures
        msg_of_text(enc(msg_json(login_msg(id, wallet, worker)))) == Some(
            login_msg(id, wallet, worker),
        ),
{
    lemma_message_round_trip(login_msg(id, wallet, worker));
}

/// The round trip holds of every submit request the constructor builds.
pub proof fn lemma_submit_round_trip(id: u64, job_id: Seq<char>, nonce: Seq<char>, result: Seq<char>)
    ensures
        msg_of_text(enc(msg_json(submit_msg(id, job_id, nonce, result)))) == Some(
            submit_msg(id, job_id, nonce, result),
        ),
{
    lemma_message_round_trip(submit_msg(id, job_id, nonce, result));
}

/// The round trip holds of every job notification the constructor builds.
pub proof fn lemma_job_round_trip(job_id: Seq<char>, blob: Seq<char>, target: Seq<char>, height: u64)
    ensures
        msg_of_text(enc(msg_json(job_msg(job_id, blob, target, height)))) == Some(
            job_msg(job_id, blob, target, height),
        ),
{
    lemma_message_round_trip(job_msg(job_id, blob, target, height));
}

/// The round trip holds of every success response whose id and result are
/// well-formed values (an absent field is written as `null`, so a bare
/// `null` id or result would read back as absent).
pub proof fn lemma_ok_response_round_trip(id: JsonV, result: JsonV)
    requires
        id != JsonV::Null && crate::json::wf_json(id),
        result != JsonV::Null && crate::json::wf_json(result),
    ensures
        msg_of_text(enc(msg_json(ok_response_msg(id, result)))) == Some(ok_response_msg(id, result)),
{
    lemma_message_round_trip(ok_response_msg(id, result));
}

/// The round trip holds of every error response whose id is a well-formed
/// value other than a bare `null`.
pub proof fn lemma_error_response_round_trip(id: JsonV, code: i32, message: Seq<char>)
    requires
        id != JsonV::Null && crate::json::wf_json(id),
    ensures
        msg_of_text(enc(msg_json(error_response_msg(id, code, message)))) == Some(
            error_response_msg(id, code, message),
        ),
{
    let e = error_response_msg(id, code, message);
    let o = e.error->0->Obj_0;
    assert forall|k: int| 0 <= k < o.len() implies crate::json::wf_json((#[trigger] o[k]).1) by {
        if k == 0 {
            assert(o[0].1 == code_num(code));
        } else {
            assert(o[1].1 == JsonV::Str(message));
        }
    }
    assert(crate::json::wf_json(e.error->0));
    lemma_message_round_trip(e);
}

} // verus!
