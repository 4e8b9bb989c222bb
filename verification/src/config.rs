//! The defaulted configuration accessors.  Each reads one key of a
//! parsed document and falls back to the statically registered default
//! of its section and key; a value of the wrong type counts as absent.
//! The registered defaults are the authoritative schema.

use vstd::prelude::*;
use crate::value::{Document, Item, spec_doc_get, doc_get};

verus! {

/// The string bound to `ns.key`, when one is bound and is a string.
pub open spec fn spec_str_at(doc: Document, ns: Seq<char>, key: Seq<char>) -> Option<Seq<char>> {
    match spec_doc_get(doc, ns, key) {
        Option::Some(Item::Str(s)) => Option::Some(s@),
        _ => Option::None,
    }
}

/// The integer bound to `ns.key`, when one is bound and is an integer.
pub open spec fn spec_int_at(doc: Document, ns: Seq<char>, key: Seq<char>) -> Option<i64> {
    match spec_doc_get(doc, ns, key) {
        Option::Some(Item::Int(v)) => Option::Some(v),
        _ => Option::None,
    }
}

/// The boolean bound to `ns.key`, when one is bound and is a boolean.
pub open spec fn spec_bool_at(doc: Document, ns: Seq<char>, key: Seq<char>) -> Option<bool> {
    match spec_doc_get(doc, ns, key) {
        Option::Some(Item::Bool(v)) => Option::Some(v),
        _ => Option::None,
    }
}

/// Reads a string-typed key; anything else counts as absent.
pub fn get_str(doc: &Document, ns: &str, key: &str) -> (r: Option<String>)
    ensures
        match r {
            Some(s) => spec_str_at(*doc, ns@, key@) == Option::Some(s@),
            None => spec_str_at(*doc, ns@, key@) is None,
        },
{
    match doc_get(doc, ns, key) {
        Some(Item::Str(s)) => Some(s.clone()),
        _ => None,
    }
}

/// Reads an integer-typed key; anything else counts as absent.
pub fn get_int(doc: &Document, ns: &str, key: &str) -> (r: Option<i64>)
    ensures
        r == spec_int_at(*doc, ns@, key@),
{
    match doc_get(doc, ns, key) {
        Some(Item::Int(v)) => Some(*v),
        _ => None,
    }
}

/// Reads a boolean-typed key; anything else counts as absent.
pub fn get_bool(doc: &Document, ns: &str, key: &str) -> (r: Option<bool>)
    ensures
        r == spec_bool_at(*doc, ns@, key@),
{
    match doc_get(doc, ns, key) {
        Some(Item::Bool(v)) => Some(*v),
        _ => None,
    }
}

/// The strings among `items`, in order; other items are passed over.
pub open spec fn spec_str_items(items: Seq<Item>) -> Seq<Seq<char>>
    decreases items.len(),
{
    if items.len() == 0 {
        Seq::empty()
    } else {
        match items[0] {
            Item::Str(s) => seq![s@] + spec_str_items(items.skip(1)),
            _ => spec_str_items(items.skip(1)),
        }
    }
}

/// The views of the strings in `v`.
pub open spec fn views_of(v: Seq<String>) -> Seq<Seq<char>> {
    v.map_values(|s: String| s@)
}

/// Keeps the strings of an item array, in order: how a `dependencies`
/// array is read, every non-string entry passed over.
pub fn str_items(items: &Vec<Item>) -> (r: Vec<String>)
    ensures
        views_of(r@) == spec_str_items(items@),
{
    let mut r: Vec<String> = Vec::new();
    let mut i: usize = 0;
    let n = items.len();
    proof {
        assert(items@.skip(0) =~= items@);
        assert(views_of(r@) =~= Seq::<Seq<char>>::empty());
    }
    while i < n
        invariant
            i <= n,
            n == items@.len(),
            views_of(r@) + spec_str_items(items@.skip(i as int)) =~= spec_str_items(items@),
        decreases n - i,
    {
        let ghost pre = items@.skip(i as int);
        proof {
            assert(pre[0] == items@[i as int]);
            assert(pre.skip(1) =~= items@.skip(i as int + 1));
        }
        match &items[i] {
            Item::Str(s) => {
                let ghost rpre = r@;
                r.push(s.clone());
                proof {
                    assert(views_of(r@) =~= views_of(rpre).push(items@[i as int]->Str_0@));
                    assert(views_of(rpre).push(items@[i as int]->Str_0@)
                        + spec_str_items(items@.skip(i as int + 1)) =~= views_of(rpre) + (seq![
                        items@[i as int]->Str_0@,
                    ] + spec_str_items(items@.skip(i as int + 1))));
                }
            },
            _ => {},
        }
        i += 1;
    }
    proof {
        assert(items@.skip(n as int).len() == 0);
        assert(views_of(r@) + Seq::<Seq<char>>::empty() =~= views_of(r@));
    }
    r
}

/// The string-valued bindings of a table, in order: how an `env_list`
/// table is read, every non-string value passed over.
pub open spec fn spec_str_pairs(entries: Seq<(String, Item)>) -> Seq<(Seq<char>, Seq<char>)>
    decreases entries.len(),
{
    if entries.len() == 0 {
        Seq::empty()
    } else {
        match entries[0].1 {
            Item::Str(s) => seq![(entries[0].0@, s@)] + spec_str_pairs(entries.skip(1)),
            _ => spec_str_pairs(entries.skip(1)),
        }
    }
}

/// The views of a pair vector.
pub open spec fn pair_views(v: Seq<(String, String)>) -> Seq<(Seq<char>, Seq<char>)> {
    v.map_values(|p: (String, String)| (p.0@, p.1@))
}

/// Keeps the string-valued bindings of a table, in order.
pub fn str_pairs(entries: &Vec<(String, Item)>) -> (r: Vec<(String, String)>)
    ensures
        pair_views(r@) == spec_str_pairs(entries@),
{
    let mut r: Vec<(String, String)> = Vec::new();
    let mut i: usize = 0;
    let n = entries.len();
    proof {
        assert(entries@.skip(0) =~= entries@);
        assert(pair_views(r@) =~= Seq::<(Seq<char>, Seq<char>)>::empty());
    }
    while i < n
        invariant
            i <= n,
            n == entries@.len(),
            pair_views(r@) + spec_str_pairs(entries@.skip(i as int)) =~= spec_str_pairs(entries@),
        decreases n - i,
    {
        let ghost pre = entries@.skip(i as int);
        proof {
            assert(pre[0] == entries@[i as int]);
            assert(pre.skip(1) =~= entries@.skip(i as int + 1));
        }
        match &entries[i].1 {
            Item::Str(s) => {
                let ghost rpre = r@;
                let key = entries[i].0.clone();
                r.push((key, s.clone()));
                proof {
                    let p = (entries@[i as int].0@, entries@[i as int].1->Str_0@);
                    assert(pair_views(r@) =~= pair_views(rpre).push(p));
                    assert(pair_views(rpre).push(p) + spec_str_pairs(entries@.skip(i as int + 1))
                        =~= pair_views(rpre) + (seq![p] + spec_str_pairs(
                        entries@.skip(i as int + 1),
                    )));
                }
            },
            _ => {},
        }
        i += 1;
    }
    proof {
        assert(entries@.skip(n as int).len() == 0);
        assert(pair_views(r@) + Seq::<(Seq<char>, Seq<char>)>::empty() =~= pair_views(r@));
    }
    r
}

/// A string key read with a default: the bound string, else `dflt`.
pub open spec fn spec_str_or(doc: Document, ns: Seq<char>, key: Seq<char>, dflt: Seq<char>) -> Seq<
    char,
> {
    match spec_str_at(doc, ns, key) {
        Option::Some(s) => s,
        Option::None => dflt,
    }
}

/// A boolean key read with a default.
pub open spec fn spec_bool_or(doc: Document, ns: Seq<char>, key: Seq<char>, dflt: bool) -> bool {
    match spec_bool_at(doc, ns, key) {
        Option::Some(b) => b,
        Option::None => dflt,
    }
}

/// An integer key read with a default.
pub open spec fn spec_int_or(doc: Document, ns: Seq<char>, key: Seq<char>, dflt: i64) -> i64 {
    match spec_int_at(doc, ns, key) {
        Option::Some(v) => v,
        Option::None => dflt,
    }
}

fn get_str_or(doc: &Document, ns: &str, key: &str, dflt: &str) -> (r: String)
    ensures
        r@ == spec_str_or(*doc, ns@, key@, dflt@),
{
    match get_str(doc, ns, key) {
        Some(s) => s,
        None => dflt.to_owned(),
    }
}

fn get_bool_or(doc: &Document, ns: &str, key: &str, dflt: bool) -> (r: bool)
    ensures
        r == spec_bool_or(*doc, ns@, key@, dflt),
{
    match get_bool(doc, ns, key) {
        Some(b) => b,
        None => dflt,
    }
}

fn get_int_or(doc: &Document, ns: &str, key: &str, dflt: i64) -> (r: i64)
    ensures
        r == spec_int_or(*doc, ns@, key@, dflt),
{
    match get_int(doc, ns, key) {
        Some(v) => v,
        None => dflt,
    }
}

/// The operating system name the main config announces.
pub fn airup_osname(doc: &Document) -> (r: String)
    ensures
        r@ == spec_str_or(*doc, "airup"@, "osname"@, "Unknown OS"@),
{
    get_str_or(doc, "airup", "osname", "Unknown OS")
}

/// The home directory under which services and milestones live.
pub fn airup_home(doc: &Document) -> (r: String)
    ensures
        r@ == spec_str_or(*doc, "airup"@, "airup_home"@, "/etc/airup.d"@),
{
    get_str_or(doc, "airup", "airup_home", "/etc/airup.d")
}

/// The PATH the boot exports; the sentinel "DONT_SETUP" leaves PATH
/// untouched.
pub fn airup_env_path(doc: &Document) -> (r: String)
    ensures
        r@ == spec_str_or(*doc, "airup"@, "env_path"@, "DONT_SETUP"@),
{
    get_str_or(doc, "airup", "env_path", "DONT_SETUP")
}

/// Whether prestart objects run in parallel.
pub fn airup_prestart_paral(doc: &Document) -> (r: bool)
    ensures
        r == spec_bool_or(*doc, "airup"@, "prestart_paral"@, false),
{
    get_bool_or(doc, "airup", "prestart_paral", false)
}

/// The human label of a service, when its descriptor names one.
pub fn svc_prompt(doc: &Document) -> (r: Option<String>)
    ensures
        match r {
            Some(s) => spec_str_at(*doc, "svc"@, "prompt"@) == Option::Some(s@),
            None => spec_str_at(*doc, "svc"@, "prompt"@) is None,
        },
{
    get_str(doc, "svc", "prompt")
}

/// The description of a service.
pub fn svc_description(doc: &Document) -> (r: String)
    ensures
        r@ == spec_str_or(*doc, "svc"@, "description"@, "An airup service"@),
{
    get_str_or(doc, "svc", "description", "An airup service")
}

/// The shell line of a service; a descriptor without one cannot launch.
pub fn svc_exec(doc: &Document) -> (r: Option<String>)
    ensures
        match r {
            Some(s) => spec_str_at(*doc, "svc"@, "exec"@) == Option::Some(s@),
            None => spec_str_at(*doc, "svc"@, "exec"@) is None,
        },
{
    get_str(doc, "svc", "exec")
}

/// The pid file to poll after the spawn, when one is configured.
pub fn svc_pid_file(doc: &Document) -> (r: Option<String>)
    ensures
        match r {
            Some(s) => spec_str_at(*doc, "svc"@, "pid_file"@) == Option::Some(s@),
            None => spec_str_at(*doc, "svc"@, "pid_file"@) is None,
        },
{
    get_str(doc, "svc", "pid_file")
}

/// A hook command of a service, when one is configured: `pre_exec`,
/// `pre_stop`, `pre_restart` or `cleanup`.
pub fn svc_hook(doc: &Document, key: &str) -> (r: Option<String>)
    ensures
        match r {
            Some(s) => spec_str_at(*doc, "svc"@, key@) == Option::Some(s@),
            None => spec_str_at(*doc, "svc"@, key@) is None,
        },
{
    get_str(doc, "svc", key)
}

/// Whether the service inherits stdio.
pub fn svc_take_io(doc: &Document) -> (r: bool)
    ensures
        r == spec_bool_or(*doc, "svc"@, "take_io"@, true),
{
    get_bool_or(doc, "svc", "take_io", true)
}

/// Whether the cleanup hook also runs on restart.
pub fn svc_cleanup_on_restart(doc: &Document) -> (r: bool)
    ensures
        r == spec_bool_or(*doc, "svc"@, "cleanup_on_restart"@, true),
{
    get_bool_or(doc, "svc", "cleanup_on_restart", true)
}

/// The retry budget of a service.
pub fn svc_retry_time(doc: &Document) -> (r: i64)
    ensures
        r == spec_int_or(*doc, "svc"@, "retry_time"@, 3),
{
    get_int_or(doc, "svc", "retry_time", 3)
}

/// The grace in milliseconds before SIGKILL after a polite stop.
pub fn svc_kill_timeout(doc: &Document) -> (r: i64)
    ensures
        r == spec_int_or(*doc, "svc"@, "kill_timeout"@, 5000),
{
    get_int_or(doc, "svc", "kill_timeout", 5000)
}

/// The delay after a spawn before the service counts as Running, when
/// one is configured.
pub fn svc_ready_timeout(doc: &Document) -> (r: Option<i64>)
    ensures
        r == spec_int_at(*doc, "svc"@, "ready_timeout"@),
{
    get_int(doc, "svc", "ready_timeout")
}

/// The dependency ids declared in `ns.key`: the strings of the bound
/// array, in order; absent or not an array means none.
pub open spec fn spec_dep_list(doc: Document, ns: Seq<char>, key: Seq<char>) -> Seq<Seq<char>> {
    match spec_doc_get(doc, ns, key) {
        Option::Some(Item::Arr(items)) => spec_str_items(items@),
        _ => Seq::empty(),
    }
}

/// The dependencies of a service, in declaration order.
pub fn svc_dependencies(doc: &Document) -> (r: Vec<String>)
    ensures
        views_of(r@) == spec_dep_list(*doc, "svc"@, "dependencies"@),
{
    match doc_get(doc, "svc", "dependencies") {
        Some(Item::Arr(items)) => str_items(items),
        _ => Vec::new(),
    }
}

/// The environment table of `ns.env_list`: its string-valued bindings
/// in order; absent or not a table means none.
pub open spec fn spec_env_pairs(doc: Document, ns: Seq<char>) -> Seq<(Seq<char>, Seq<char>)> {
    match spec_doc_get(doc, ns, "env_list"@) {
        Option::Some(Item::Table(entries)) => spec_str_pairs(entries@),
        _ => Seq::empty(),
    }
}

/// The environment bindings a service exports.
pub fn svc_env_pairs(doc: &Document) -> (r: Vec<(String, String)>)
    ensures
        pair_views(r@) == spec_env_pairs(*doc, "svc"@),
{
    match doc_get(doc, "svc", "env_list") {
        Some(Item::Table(entries)) => str_pairs(entries),
        _ => Vec::new(),
    }
}

/// The user a command runs as: a uid or a user name.
#[derive(Debug, PartialEq)]
pub enum UserRef {
    Id(u32),
    Name(String),
}

/// The shape of a user reference.
pub enum UserV {
    Id(u32),
    Name(Seq<char>),
}

impl View for UserRef {
    type V = UserV;

    open spec fn view(&self) -> UserV {
        match self {
            UserRef::Id(u) => UserV::Id(*u),
            UserRef::Name(n) => UserV::Name(n@),
        }
    }
}

/// The user `ns.key` names: an integer in uid range is that uid, a
/// string is that user name, and anything else (a missing key, a
/// negative or oversized integer, another type) is uid 0.
pub open spec fn spec_user_at(doc: Document, ns: Seq<char>, key: Seq<char>) -> UserV {
    match spec_doc_get(doc, ns, key) {
        Option::Some(Item::Int(a)) => if 0 <= a <= u32::MAX {
            UserV::Id(a as u32)
        } else {
            UserV::Id(0)
        },
        Option::Some(Item::Str(b)) => UserV::Name(b@),
        _ => UserV::Id(0),
    }
}

/// Reads the user of `ns.key`: `user` or `action_user`.
pub fn user_at(doc: &Document, ns: &str, key: &str) -> (r: UserRef)
    ensures
        r@ == spec_user_at(*doc, ns@, key@),
{
    match doc_get(doc, ns, key) {
        Some(Item::Int(a)) => {
            if 0 <= *a && *a <= u32::MAX as i64 {
                UserRef::Id(*a as u32)
            } else {
                UserRef::Id(0)
            }
        },
        Some(Item::Str(b)) => UserRef::Name(b.clone()),
        _ => UserRef::Id(0),
    }
}

/// How a service is stopped: a signal number, or a shell line run with
/// the child's pid substituted in.
#[derive(Debug, PartialEq)]
pub enum StopWay {
    Signal(i64),
    Command(String),
}

/// The shape of a stop way.
pub enum StopWayV {
    Signal(i64),
    Command(Seq<char>),
}

impl View for StopWay {
    type V = StopWayV;

    open spec fn view(&self) -> StopWayV {
        match self {
            StopWay::Signal(n) => StopWayV::Signal(*n),
            StopWay::Command(c) => StopWayV::Command(c@),
        }
    }
}

/// The stop way of a service: an integer is a signal, a string is a
/// command; anything else is the default, signal 15.
pub open spec fn spec_stop_way(doc: Document) -> StopWayV {
    match spec_doc_get(doc, "svc"@, "stop_way"@) {
        Option::Some(Item::Int(n)) => StopWayV::Signal(n),
        Option::Some(Item::Str(c)) => StopWayV::Command(c@),
        _ => StopWayV::Signal(15),
    }
}

/// Reads the stop way of a service.
pub fn svc_stop_way(doc: &Document) -> (r: StopWay)
    ensures
        r@ == spec_stop_way(*doc),
{
    match doc_get(doc, "svc", "stop_way") {
        Some(Item::Int(n)) => StopWay::Signal(*n),
        Some(Item::Str(c)) => StopWay::Command(c.clone()),
        _ => StopWay::Signal(15),
    }
}

/// The restart way of a service: its own key when set, else the stop
/// way.
pub open spec fn spec_restart_way(doc: Document) -> StopWayV {
    match spec_doc_get(doc, "svc"@, "restart_way"@) {
        Option::Some(Item::Int(n)) => StopWayV::Signal(n),
        Option::Some(Item::Str(c)) => StopWayV::Command(c@),
        _ => spec_stop_way(doc),
    }
}

/// Reads the restart way of a service.
pub fn svc_restart_way(doc: &Document) -> (r: StopWay)
    ensures
        r@ == spec_restart_way(*doc),
{
    match doc_get(doc, "svc", "restart_way") {
        Some(Item::Int(n)) => StopWay::Signal(*n),
        Some(Item::Str(c)) => StopWay::Command(c.clone()),
        _ => svc_stop_way(doc),
    }
}

/// The label of a milestone, when its descriptor names one.
pub fn milestone_prompt(doc: &Document) -> (r: Option<String>)
    ensures
        match r {
            Some(s) => spec_str_at(*doc, "milestone"@, "prompt"@) == Option::Some(s@),
            None => spec_str_at(*doc, "milestone"@, "prompt"@) is None,
        },
{
    get_str(doc, "milestone", "prompt")
}

/// The description of a milestone.
pub fn milestone_description(doc: &Document) -> (r: String)
    ensures
        r@ == spec_str_or(*doc, "milestone"@, "description"@, "An airup milestone"@),
{
    get_str_or(doc, "milestone", "description", "An airup milestone")
}

/// Whether the milestone's member services start in parallel.
pub fn milestone_paral(doc: &Document) -> (r: bool)
    ensures
        r == spec_bool_or(*doc, "milestone"@, "paral"@, true),
{
    get_bool_or(doc, "milestone", "paral", true)
}

/// The pre_exec hook of a milestone, when one is configured.
pub fn milestone_pre_exec(doc: &Document) -> (r: Option<String>)
    ensures
        match r {
            Some(s) => spec_str_at(*doc, "milestone"@, "pre_exec"@) == Option::Some(s@),
            None => spec_str_at(*doc, "milestone"@, "pre_exec"@) is None,
        },
{
    get_str(doc, "milestone", "pre_exec")
}

/// The dependency milestones, in declaration order.
pub fn milestone_dependencies(doc: &Document) -> (r: Vec<String>)
    ensures
        views_of(r@) == spec_dep_list(*doc, "milestone"@, "dependencies"@),
{
    match doc_get(doc, "milestone", "dependencies") {
        Some(Item::Arr(items)) => str_items(items),
        _ => Vec::new(),
    }
}

/// The environment bindings a milestone exports.
pub fn milestone_env_pairs(doc: &Document) -> (r: Vec<(String, String)>)
    ensures
        pair_views(r@) == spec_env_pairs(*doc, "milestone"@),
{
    match doc_get(doc, "milestone", "env_list") {
        Some(Item::Table(entries)) => str_pairs(entries),
        _ => Vec::new(),
    }
}

} // verus!
