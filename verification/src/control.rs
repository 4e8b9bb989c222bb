//! The control-plane protocol: the ASCII request grammar spoken over the
//! external control endpoint, the advertisement messages with which
//! supervisors register themselves, the supervisor inbox messages, and
//! the decisions the control plane takes for each request.

use vstd::prelude::*;
use crate::registry::SvcStatus;
use crate::strutil::{dec_numeral, starts_with, str_eq, tail_of, u64_to_string};

verus! {

/// A request received on the external control endpoint.
#[derive(Debug, PartialEq)]
pub enum Request {
    SvcStart(String),
    SvcStop(String),
    SvcRestart(String),
    SvcStatus(String),
    SystemPoweroff,
    SystemRestart,
    SystemCtrlAltDel,
}

/// The mathematical shape of a request: each service command carries the
/// characters of its service id.
pub enum ReqV {
    SvcStart(Seq<char>),
    SvcStop(Seq<char>),
    SvcRestart(Seq<char>),
    SvcStatus(Seq<char>),
    SystemPoweroff,
    SystemRestart,
    SystemCtrlAltDel,
}

impl View for Request {
    type V = ReqV;

    open spec fn view(&self) -> ReqV {
        match self {
            Request::SvcStart(id) => ReqV::SvcStart(id@),
            Request::SvcStop(id) => ReqV::SvcStop(id@),
            Request::SvcRestart(id) => ReqV::SvcRestart(id@),
            Request::SvcStatus(id) => ReqV::SvcStatus(id@),
            Request::SystemPoweroff => ReqV::SystemPoweroff,
            Request::SystemRestart => ReqV::SystemRestart,
            Request::SystemCtrlAltDel => ReqV::SystemCtrlAltDel,
        }
    }
}

/// The wire text of a request.
pub open spec fn req_text(v: ReqV) -> Seq<char> {
    match v {
        ReqV::SvcStart(id) => "svc start "@ + id,
        ReqV::SvcStop(id) => "svc stop "@ + id,
        ReqV::SvcRestart(id) => "svc restart "@ + id,
        ReqV::SvcStatus(id) => "svc status "@ + id,
        ReqV::SystemPoweroff => "system poweroff"@,
        ReqV::SystemRestart => "system restart"@,
        ReqV::SystemCtrlAltDel => "system ctrlaltdel"@,
    }
}

/// A prefix stays a prefix of any extension.
proof fn lemma_prefix_of_concat(a: Seq<char>, b: Seq<char>)
    ensures
        a.is_prefix_of(a + b),
{
    assert((a + b).take(a.len() as int) =~= a);
}

/// Reads a request from its wire text.  Returns the request whose text
/// `msg` is, and nothing on any other text.
pub fn parse_request(msg: &str) -> (r: Option<Request>)
    ensures
        match r {
            Some(q) => msg@ == req_text(q@),
            None => forall|v: ReqV| msg@ != req_text(v),
        },
{
    if starts_with(msg, "svc start ") {
        let id = tail_of(msg, "svc start ".unicode_len());
        proof {
            assert(msg@ =~= "svc start "@ + id@);
        }
        Some(Request::SvcStart(id))
    } else if starts_with(msg, "svc stop ") {
        let id = tail_of(msg, "svc stop ".unicode_len());
        proof {
            assert(msg@ =~= "svc stop "@ + id@);
        }
        Some(Request::SvcStop(id))
    } else if starts_with(msg, "svc restart ") {
        let id = tail_of(msg, "svc restart ".unicode_len());
        proof {
            assert(msg@ =~= "svc restart "@ + id@);
        }
        Some(Request::SvcRestart(id))
    } else if starts_with(msg, "svc status ") {
        let id = tail_of(msg, "svc status ".unicode_len());
        proof {
            assert(msg@ =~= "svc status "@ + id@);
        }
        Some(Request::SvcStatus(id))
    } else if str_eq(msg, "system poweroff") {
        Some(Request::SystemPoweroff)
    } else if str_eq(msg, "system restart") {
        Some(Request::SystemRestart)
    } else if str_eq(msg, "system ctrlaltdel") {
        Some(Request::SystemCtrlAltDel)
    } else {
        proof {
            assert forall|v: ReqV| msg@ != req_text(v) by {
                match v {
                    ReqV::SvcStart(id) => {
                        lemma_prefix_of_concat("svc start "@, id);
                    },
                    ReqV::SvcStop(id) => {
                        lemma_prefix_of_concat("svc stop "@, id);
                    },
                    ReqV::SvcRestart(id) => {
                        lemma_prefix_of_concat("svc restart "@, id);
                    },
                    ReqV::SvcStatus(id) => {
                        lemma_prefix_of_concat("svc status "@, id);
                    },
                    ReqV::SystemPoweroff => {},
                    ReqV::SystemRestart => {},
                    ReqV::SystemCtrlAltDel => {},
                }
            }
        }
        None
    }
}

/// Writes a request as its wire text, the inverse of `parse_request`.
pub fn format_request(q: &Request) -> (r: String)
    ensures
        r@ == req_text(q@),
{
    match q {
        Request::SvcStart(id) => {
            let mut r = "svc start ".to_owned();
            r.append(id.as_str());
            r
        },
        Request::SvcStop(id) => {
            let mut r = "svc stop ".to_owned();
            r.append(id.as_str());
            r
        },
        Request::SvcRestart(id) => {
            let mut r = "svc restart ".to_owned();
            r.append(id.as_str());
            r
        },
        Request::SvcStatus(id) => {
            let mut r = "svc status ".to_owned();
            r.append(id.as_str());
            r
        },
        Request::SystemPoweroff => "system poweroff".to_owned(),
        Request::SystemRestart => "system restart".to_owned(),
        Request::SystemCtrlAltDel => "system ctrlaltdel".to_owned(),
    }
}

/// The wire text determines the request: two requests with the same text
/// are the same request.  Together with the contracts of `parse_request`
/// and `format_request` this gives the protocol round trip: parsing the
/// formatted text of a request yields that request back.
pub proof fn lemma_req_text_injective(v1: ReqV, v2: ReqV)
    requires
        req_text(v1) == req_text(v2),
    ensures
        v1 == v2,
{
    reveal_strlit("svc start ");
    reveal_strlit("svc stop ");
    reveal_strlit("svc restart ");
    reveal_strlit("svc status ");
    reveal_strlit("system poweroff");
    reveal_strlit("system restart");
    reveal_strlit("system ctrlaltdel");
    lemma_req_text_head(v1);
    lemma_req_text_head(v2);
    lemma_req_text_chars(v1);
    lemma_req_text_chars(v2);
    match (v1, v2) {
        (ReqV::SvcStart(a), ReqV::SvcStart(b)) => {
            assert(a =~= b) by {
                assert(forall|i: int|
                    0 <= i < a.len() ==> a[i] == req_text(ReqV::SvcStart(a))[i + 10]);
            }
        },
        (ReqV::SvcStop(a), ReqV::SvcStop(b)) => {
            assert(a =~= b) by {
                assert(forall|i: int|
                    0 <= i < a.len() ==> a[i] == req_text(ReqV::SvcStop(a))[i + 9]);
            }
        },
        (ReqV::SvcRestart(a), ReqV::SvcRestart(b)) => {
            assert(a =~= b) by {
                assert(forall|i: int|
                    0 <= i < a.len() ==> a[i] == req_text(ReqV::SvcRestart(a))[i + 12]);
            }
        },
        (ReqV::SvcStatus(a), ReqV::SvcStatus(b)) => {
            assert(a =~= b) by {
                assert(forall|i: int|
                    0 <= i < a.len() ==> a[i] == req_text(ReqV::SvcStatus(a))[i + 11]);
            }
        },
        _ => {},
    }
}

/// Characters that tell the variants of the wire text apart.
proof fn lemma_req_text_chars(v: ReqV)
    ensures
        req_text(v).len() >= 9,
        match v {
            ReqV::SvcStart(id) => req_text(v)[1] == 'v' && req_text(v)[4] == 's' && req_text(v)[6]
                == 'a' && req_text(v)[7] == 'r',
            ReqV::SvcStop(id) => req_text(v)[1] == 'v' && req_text(v)[4] == 's' && req_text(v)[6]
                == 'o',
            ReqV::SvcRestart(id) => req_text(v)[1] == 'v' && req_text(v)[4] == 'r',
            ReqV::SvcStatus(id) => req_text(v)[1] == 'v' && req_text(v)[4] == 's' && req_text(v)[6]
                == 'a' && req_text(v)[7] == 't',
            ReqV::SystemPoweroff => req_text(v)[1] == 'y' && req_text(v)[7] == 'p',
            ReqV::SystemRestart => req_text(v)[1] == 'y' && req_text(v)[7] == 'r',
            ReqV::SystemCtrlAltDel => req_text(v)[1] == 'y' && req_text(v)[7] == 'c',
        },
{
    reveal_strlit("svc start ");
    reveal_strlit("svc stop ");
    reveal_strlit("svc restart ");
    reveal_strlit("svc status ");
    reveal_strlit("system poweroff");
    reveal_strlit("system restart");
    reveal_strlit("system ctrlaltdel");
}

/// An advertisement on the internal registration endpoint: a supervisor
/// announcing that its inbox opened or closed.
#[derive(Debug, PartialEq)]
pub enum RegMsg {
    Up(String),
    Down(String),
}

/// The shape of an advertisement: the characters of the service id.
pub enum RegV {
    Up(Seq<char>),
    Down(Seq<char>),
}

impl View for RegMsg {
    type V = RegV;

    open spec fn view(&self) -> RegV {
        match self {
            RegMsg::Up(id) => RegV::Up(id@),
            RegMsg::Down(id) => RegV::Down(id@),
        }
    }
}

/// The wire text of an advertisement.
pub open spec fn reg_text(v: RegV) -> Seq<char> {
    match v {
        RegV::Up(id) => "up "@ + id,
        RegV::Down(id) => "down "@ + id,
    }
}

/// Reads an advertisement from its wire text: the advertisement whose
/// text `msg` is, and nothing on any other text.
pub fn parse_reg_msg(msg: &str) -> (r: Option<RegMsg>)
    ensures
        match r {
            Some(q) => msg@ == reg_text(q@),
            None => forall|v: RegV| msg@ != reg_text(v),
        },
{
    if starts_with(msg, "up ") {
        let id = tail_of(msg, "up ".unicode_len());
        proof {
            assert(msg@ =~= "up "@ + id@);
        }
        Some(RegMsg::Up(id))
    } else if starts_with(msg, "down ") {
        let id = tail_of(msg, "down ".unicode_len());
        proof {
            assert(msg@ =~= "down "@ + id@);
        }
        Some(RegMsg::Down(id))
    } else {
        proof {
            assert forall|v: RegV| msg@ != reg_text(v) by {
                match v {
                    RegV::Up(id) => {
                        lemma_prefix_of_concat("up "@, id);
                    },
                    RegV::Down(id) => {
                        lemma_prefix_of_concat("down "@, id);
                    },
                }
            }
        }
        None
    }
}

/// Writes an advertisement as its wire text, the inverse of
/// `parse_reg_msg`.  A supervisor sends the `Up` form right after it
/// opens its inbox and the `Down` form when it retires.
pub fn format_reg_msg(q: &RegMsg) -> (r: String)
    ensures
        r@ == reg_text(q@),
{
    match q {
        RegMsg::Up(id) => {
            let mut r = "up ".to_owned();
            r.append(id.as_str());
            r
        },
        RegMsg::Down(id) => {
            let mut r = "down ".to_owned();
            r.append(id.as_str());
            r
        },
    }
}

/// The advertisement text determines the advertisement.
pub proof fn lemma_reg_text_injective(v1: RegV, v2: RegV)
    requires
        reg_text(v1) == reg_text(v2),
    ensures
        v1 == v2,
{
    reveal_strlit("up ");
    reveal_strlit("down ");
    match (v1, v2) {
        (RegV::Up(a), RegV::Up(b)) => {
            assert(("up "@ + a).len() == 3 + a.len());
            assert(("up "@ + b).len() == 3 + b.len());
            assert(a.len() == b.len());
            assert(a =~= b) by {
                assert(forall|i: int| 0 <= i < a.len() ==> a[i] == reg_text(RegV::Up(a))[i + 3]);
                assert(forall|i: int| 0 <= i < b.len() ==> b[i] == reg_text(RegV::Up(b))[i + 3]);
            }
        },
        (RegV::Down(a), RegV::Down(b)) => {
            assert(("down "@ + a).len() == 5 + a.len());
            assert(("down "@ + b).len() == 5 + b.len());
            assert(a.len() == b.len());
            assert(a =~= b) by {
                assert(forall|i: int| 0 <= i < a.len() ==> a[i] == reg_text(RegV::Down(a))[i + 5]);
                assert(forall|i: int| 0 <= i < b.len() ==> b[i] == reg_text(RegV::Down(b))[i + 5]);
            }
        },
        (RegV::Up(a), RegV::Down(b)) => {
            assert(reg_text(v1)[0] == 'u');
            assert(reg_text(v2)[0] == 'd');
        },
        (RegV::Down(a), RegV::Up(b)) => {
            assert(reg_text(v1)[0] == 'd');
            assert(reg_text(v2)[0] == 'u');
        },
    }
}

/// A message on a supervisor's inbox.
#[derive(PartialEq, Eq, Structural, Clone, Copy, Debug)]
pub enum InboxMsg {
    Down,
    Up,
    Pid,
}

/// The wire text of an inbox message.
pub open spec fn inbox_text(m: InboxMsg) -> Seq<char> {
    match m {
        InboxMsg::Down => "down"@,
        InboxMsg::Up => "up"@,
        InboxMsg::Pid => "pid"@,
    }
}

/// Reads an inbox message from its wire text.
pub fn parse_inbox_msg(msg: &str) -> (r: Option<InboxMsg>)
    ensures
        match r {
            Some(m) => msg@ == inbox_text(m),
            None => forall|m: InboxMsg| msg@ != inbox_text(m),
        },
{
    if str_eq(msg, "down") {
        Some(InboxMsg::Down)
    } else if str_eq(msg, "up") {
        Some(InboxMsg::Up)
    } else if str_eq(msg, "pid") {
        Some(InboxMsg::Pid)
    } else {
        None
    }
}

/// Writes an inbox message as its wire text.
pub fn format_inbox_msg(m: InboxMsg) -> (r: String)
    ensures
        r@ == inbox_text(m),
{
    match m {
        InboxMsg::Down => "down".to_owned(),
        InboxMsg::Up => "up".to_owned(),
        InboxMsg::Pid => "pid".to_owned(),
    }
}

/// The name under which a status is reported on the control endpoint.
pub open spec fn status_text(st: SvcStatus) -> Seq<char> {
    match st {
        SvcStatus::Readying => "Readying"@,
        SvcStatus::Running => "Running"@,
        SvcStatus::Working => "Working"@,
        SvcStatus::Stopped => "Stopped"@,
        SvcStatus::Unmentioned => "SvcNotRunning"@,
    }
}

/// The reply to a status request: the status name, a space, and the pid
/// in decimal.  A service that is not running reports pid 0.
pub fn status_reply(st: SvcStatus, pid: u64) -> (r: String)
    ensures
        r@ == status_text(st) + " "@ + dec_numeral(pid as nat),
{
    let mut r = match st {
        SvcStatus::Readying => "Readying".to_owned(),
        SvcStatus::Running => "Running".to_owned(),
        SvcStatus::Working => "Working".to_owned(),
        SvcStatus::Stopped => "Stopped".to_owned(),
        SvcStatus::Unmentioned => "SvcNotRunning".to_owned(),
    };
    r.append(" ");
    let digits = u64_to_string(pid);
    r.append(digits.as_str());
    r
}

/// What the control plane does with a `svc stop` or `svc restart`
/// request: it routes the command to the supervisor's inbox only when
/// the registry mentions the service; otherwise it replies that the
/// service is not running.
pub fn route_to_supervisor(st: SvcStatus) -> (r: bool)
    ensures
        r <==> st != SvcStatus::Unmentioned,
{
    match st {
        SvcStatus::Unmentioned => false,
        _ => true,
    }
}

/// Whether a status request must ask the supervisor for the child pid:
/// only a Running service reports one; every other status reports 0.
pub fn status_needs_pid(st: SvcStatus) -> (r: bool)
    ensures
        r <==> st == SvcStatus::Running,
{
    match st {
        SvcStatus::Running => true,
        _ => false,
    }
}

/// What a `svc start` request leads to.
#[derive(PartialEq, Eq, Structural, Clone, Copy, Debug)]
pub enum StartDecision {
    /// Spawn a fresh supervisor and reply Ok.
    Launch,
    /// A supervisor already owns this id; reply Ok without spawning.
    AlreadyActive,
    /// No descriptor file exists; reply SvcNotExist.
    NotExist,
}

/// Decides a `svc start` request from the registry status and from
/// whether the service descriptor file exists.  A supervisor is spawned
/// exactly for an unmentioned service whose descriptor exists.
pub fn start_decision(st: SvcStatus, descriptor_exists: bool) -> (r: StartDecision)
    ensures
        r == StartDecision::NotExist <==> !descriptor_exists,
        r == StartDecision::Launch <==> descriptor_exists && st == SvcStatus::Unmentioned,
        r == StartDecision::AlreadyActive <==> descriptor_exists && st != SvcStatus::Unmentioned,
{
    if !descriptor_exists {
        StartDecision::NotExist
    } else {
        match st {
            SvcStatus::Unmentioned => StartDecision::Launch,
            _ => StartDecision::AlreadyActive,
        }
    }
}

/// The reply to a request the grammar rejects.
pub fn failed_reply() -> (r: String)
    ensures
        r@ == "Failed"@,
{
    "Failed".to_owned()
}

/// The reply to a `svc start` request, given the decision taken and,
/// for a fresh launch, whether the supervisor could be brought up.
pub fn start_reply(d: StartDecision, launch_ok: bool) -> (r: String)
    ensures
        d == StartDecision::NotExist ==> r@ == "SvcNotExist"@,
        d == StartDecision::AlreadyActive ==> r@ == "Ok"@,
        d == StartDecision::Launch && launch_ok ==> r@ == "Ok"@,
        d == StartDecision::Launch && !launch_ok ==> r@ == "Failed"@,
{
    match d {
        StartDecision::NotExist => "SvcNotExist".to_owned(),
        StartDecision::AlreadyActive => "Ok".to_owned(),
        StartDecision::Launch => if launch_ok {
            "Ok".to_owned()
        } else {
            "Failed".to_owned()
        },
    }
}

/// The reply to a `svc stop` or `svc restart` request: Ok exactly when
/// the command could be routed to a supervisor.
pub fn route_reply(routed: bool) -> (r: String)
    ensures
        routed ==> r@ == "Ok"@,
        !routed ==> r@ == "SvcNotRunning"@,
{
    if routed {
        "Ok".to_owned()
    } else {
        "SvcNotRunning".to_owned()
    }
}

/// The first characters of a request's wire text identify its variant.
proof fn lemma_req_text_head(v: ReqV)
    ensures
        req_text(v).len() >= 9,
        match v {
            ReqV::SvcStart(id) => req_text(v).take(10) == "svc start "@,
            ReqV::SvcStop(id) => req_text(v).take(9) == "svc stop "@,
            ReqV::SvcRestart(id) => req_text(v).take(12) == "svc restart "@,
            ReqV::SvcStatus(id) => req_text(v).take(11) == "svc status "@,
            ReqV::SystemPoweroff => req_text(v) == "system poweroff"@,
            ReqV::SystemRestart => req_text(v) == "system restart"@,
            ReqV::SystemCtrlAltDel => req_text(v) == "system ctrlaltdel"@,
        },
{
    reveal_strlit("svc start ");
    reveal_strlit("svc stop ");
    reveal_strlit("svc restart ");
    reveal_strlit("svc status ");
    reveal_strlit("system poweroff");
    reveal_strlit("system restart");
    reveal_strlit("system ctrlaltdel");
    match v {
        ReqV::SvcStart(id) => {
            assert(req_text(v).take(10) =~= "svc start "@);
        },
        ReqV::SvcStop(id) => {
            assert(req_text(v).take(9) =~= "svc stop "@);
        },
        ReqV::SvcRestart(id) => {
            assert(req_text(v).take(12) =~= "svc restart "@);
        },
        ReqV::SvcStatus(id) => {
            assert(req_text(v).take(11) =~= "svc status "@);
        },
        _ => {},
    }
}

} // verus!
