//! Shell-line composition and the small string computations around
//! launching and stopping services: the `{env} exec {cmd}` line, the
//! user-switch helper arguments, pid substitution in stop commands,
//! service ids from file names, and paths under the home directory.

use vstd::prelude::*;
use crate::config::{StopWay, UserRef, UserV};
use crate::strutil::{
    dec_numeral,
    is_signed_numeral,
    parse_i64,
    signed_numeral_val,
    slice_of,
    str_eq,
    u64_to_string,
};

verus! {

/// `s` with every occurrence of `pat` replaced by `rep`, scanning left
/// to right; an empty pattern replaces nothing.
pub open spec fn spec_replace(s: Seq<char>, pat: Seq<char>, rep: Seq<char>) -> Seq<char>
    decreases s.len(),
{
    if pat.len() == 0 {
        s
    } else if s.len() < pat.len() {
        s
    } else if pat.is_prefix_of(s) {
        rep + spec_replace(s.skip(pat.len() as int), pat, rep)
    } else {
        seq![s[0]] + spec_replace(s.skip(1), pat, rep)
    }
}

/// An occurrence of `pat` begins at position `k` of `s`.
pub open spec fn occ_at(s: Seq<char>, pat: Seq<char>, k: int) -> bool {
    pat.is_prefix_of(s.skip(k))
}

/// Over a stretch with no occurrence, replacement copies the text.
proof fn lemma_replace_chunk(s: Seq<char>, pat: Seq<char>, rep: Seq<char>, i: int, j: int)
    requires
        pat.len() >= 1,
        0 <= i <= j <= s.len(),
        forall|k: int| i <= k < j ==> !occ_at(s, pat, k),
    ensures
        spec_replace(s.skip(i), pat, rep) == s.subrange(i, j) + spec_replace(s.skip(j), pat, rep),
    decreases j - i,
{
    if i == j {
        assert(s.subrange(i, j) + spec_replace(s.skip(j), pat, rep) =~= spec_replace(
            s.skip(i),
            pat,
            rep,
        ));
    } else if s.len() - i < pat.len() {
        assert(spec_replace(s.skip(i), pat, rep) == s.skip(i));
        assert(s.len() - j < pat.len());
        assert(spec_replace(s.skip(j), pat, rep) == s.skip(j));
        assert(s.skip(i) =~= s.subrange(i, j) + s.skip(j));
    } else {
        assert(!occ_at(s, pat, i));
        assert(!pat.is_prefix_of(s.skip(i)));
        assert(spec_replace(s.skip(i), pat, rep) == seq![s.skip(i)[0]] + spec_replace(
            s.skip(i).skip(1),
            pat,
            rep,
        ));
        assert(s.skip(i).skip(1) =~= s.skip(i + 1));
        lemma_replace_chunk(s, pat, rep, i + 1, j);
        assert(seq![s[i]] + (s.subrange(i + 1, j) + spec_replace(s.skip(j), pat, rep)) =~= s
            .subrange(i, j) + spec_replace(s.skip(j), pat, rep));
    }
}

/// Finds the first position at or after `from` where `pat` occurs in
/// `s`, or the length of `s` when it occurs nowhere there.
fn find_occurrence(s: &str, pat: &str, from: usize) -> (r: usize)
    requires
        pat@.len() >= 1,
        from <= s@.len(),
    ensures
        from <= r <= s@.len(),
        forall|k: int| from <= k < r ==> !occ_at(s@, pat@, k),
        r < s@.len() ==> occ_at(s@, pat@, r as int) && r + pat@.len() <= s@.len(),
{
    let len = s.unicode_len();
    let plen = pat.unicode_len();
    let mut j = from;
    while j < len
        invariant
            from <= j <= len,
            len == s@.len(),
            plen == pat@.len(),
            plen >= 1,
            forall|k: int| from <= k < j ==> !occ_at(s@, pat@, k),
        decreases len - j,
    {
        if plen <= len - j {
            let piece = slice_of(s, j, j + plen);
            if str_eq(piece.as_str(), pat) {
                proof {
                    assert(s@.skip(j as int).take(plen as int) =~= s@.subrange(
                        j as int,
                        j as int + plen as int,
                    ));
                }
                return j;
            }
            proof {
                assert(!occ_at(s@, pat@, j as int)) by {
                    if occ_at(s@, pat@, j as int) {
                        assert(s@.skip(j as int).take(plen as int) =~= s@.subrange(
                            j as int,
                            j as int + plen as int,
                        ));
                    }
                }
            }
        } else {
            proof {
                assert(!occ_at(s@, pat@, j as int)) by {
                    if occ_at(s@, pat@, j as int) {
                        assert(pat@.len() <= s@.skip(j as int).len());
                    }
                }
            }
        }
        j += 1;
    }
    len
}

/// `s` with every occurrence of `pat` replaced by `rep`.
pub fn replace_all(s: &str, pat: &str, rep: &str) -> (r: String)
    requires
        pat@.len() >= 1,
    ensures
        r@ == spec_replace(s@, pat@, rep@),
{
    let len = s.unicode_len();
    let plen = pat.unicode_len();
    let mut out = String::new();
    let mut i: usize = 0;
    proof {
        assert(s@.skip(0) =~= s@);
    }
    while i < len
        invariant
            i <= len,
            len == s@.len(),
            plen == pat@.len(),
            plen >= 1,
            out@ + spec_replace(s@.skip(i as int), pat@, rep@) == spec_replace(s@, pat@, rep@),
        decreases len - i,
    {
        let j = find_occurrence(s, pat, i);
        let chunk = slice_of(s, i, j);
        proof {
            lemma_replace_chunk(s@, pat@, rep@, i as int, j as int);
        }
        out.append(chunk.as_str());
        if j < len {
            out.append(rep);
            proof {
                assert(pat@.is_prefix_of(s@.skip(j as int)));
                assert(s@.skip(j as int).len() >= pat@.len());
                assert(spec_replace(s@.skip(j as int), pat@, rep@) == rep@ + spec_replace(
                    s@.skip(j as int).skip(plen as int),
                    pat@,
                    rep@,
                ));
                assert(s@.skip(j as int).skip(plen as int) =~= s@.skip(j as int + plen as int));
            }
            i = j + plen;
        } else {
            proof {
                assert(s@.skip(len as int).len() == 0);
                assert(spec_replace(s@.skip(len as int), pat@, rep@) =~= Seq::<char>::empty());
            }
            i = len;
        }
    }
    proof {
        assert(s@.skip(len as int).len() == 0);
        assert(spec_replace(s@.skip(len as int), pat@, rep@) =~= Seq::<char>::empty());
        assert(out@ + Seq::<char>::empty() =~= out@);
    }
    out
}

/// The text of one environment binding on the shell line.
pub open spec fn kv_text(k: Seq<char>, v: Seq<char>) -> Seq<char> {
    k + seq!['=', '"'] + v + seq!['"']
}

/// The environment literal prepended to a service's shell line: each
/// binding as `KEY="VAL"`, space-separated.
pub open spec fn spec_env_literal(pairs: Seq<(Seq<char>, Seq<char>)>) -> Seq<char>
    decreases pairs.len(),
{
    if pairs.len() == 0 {
        Seq::empty()
    } else if pairs.len() == 1 {
        kv_text(pairs[0].0, pairs[0].1)
    } else {
        kv_text(pairs[0].0, pairs[0].1) + seq![' '] + spec_env_literal(pairs.skip(1))
    }
}

/// Appending one more binding extends the literal at its end.
proof fn lemma_env_literal_snoc(pairs: Seq<(Seq<char>, Seq<char>)>, p: (Seq<char>, Seq<char>))
    ensures
        spec_env_literal(pairs.push(p)) == if pairs.len() == 0 {
            kv_text(p.0, p.1)
        } else {
            spec_env_literal(pairs) + seq![' '] + kv_text(p.0, p.1)
        },
    decreases pairs.len(),
{
    if pairs.len() == 0 {
        assert(pairs.push(p)[0] == p);
        assert(spec_env_literal(pairs.push(p)) == kv_text(p.0, p.1));
    } else {
        assert(pairs.push(p)[0] == pairs[0]);
        assert(pairs.push(p).skip(1) =~= pairs.skip(1).push(p));
        lemma_env_literal_snoc(pairs.skip(1), p);
        if pairs.len() == 1 {
            assert(pairs.skip(1).len() == 0);
            assert(spec_env_literal(pairs.push(p)) =~= kv_text(pairs[0].0, pairs[0].1) + seq![' ']
                + kv_text(p.0, p.1));
        } else {
            assert(spec_env_literal(pairs.push(p)) =~= spec_env_literal(pairs) + seq![' ']
                + kv_text(p.0, p.1));
        }
    }
}

/// Writes the environment literal of a binding list.
pub fn env_literal(pairs: &Vec<(String, String)>) -> (r: String)
    ensures
        r@ == spec_env_literal(crate::config::pair_views(pairs@)),
{
    let mut r = String::new();
    let mut i: usize = 0;
    let n = pairs.len();
    let ghost pv = crate::config::pair_views(pairs@);
    proof {
        assert(pv.take(0) =~= Seq::<(Seq<char>, Seq<char>)>::empty());
        reveal_strlit(" ");
        reveal_strlit("=\"");
        reveal_strlit("\"");
    }
    while i < n
        invariant
            i <= n,
            n == pairs@.len(),
            pv == crate::config::pair_views(pairs@),
            r@ == spec_env_literal(pv.take(i as int)),
        decreases n - i,
    {
        proof {
            reveal_strlit(" ");
            reveal_strlit("=\"");
            reveal_strlit("\"");
            assert(pv[i as int] == (pairs@[i as int].0@, pairs@[i as int].1@));
        }
        if i > 0 {
            r.append(" ");
        }
        r.append(pairs[i].0.as_str());
        r.append("=\"");
        r.append(pairs[i].1.as_str());
        r.append("\"");
        proof {
            let p = pv[i as int];
            lemma_env_literal_snoc(pv.take(i as int), p);
            assert(pv.take(i as int + 1) =~= pv.take(i as int).push(p));
            assert(" "@ =~= seq![' ']);
            assert("=\""@ =~= seq!['=', '"']);
            assert("\""@ =~= seq!['"']);
            assert(r@ =~= spec_env_literal(pv.take(i as int + 1)));
        }
        i += 1;
    }
    proof {
        assert(pv.take(n as int) =~= pv);
    }
    r
}

/// The shell line actually spawned for a service: the environment
/// literal, the word exec, and the command.
pub fn compose_command(env_literal: &str, cmd: &str) -> (r: String)
    ensures
        r@ == env_literal@ + " exec "@ + cmd@,
{
    let mut r = env_literal.to_owned();
    r.append(" exec ");
    r.append(cmd);
    r
}

/// The two arguments that pick the user for the setuid helper: a uid
/// goes as `--uid <n>`, a name as `-u <name>`.
pub fn su_user_args(user: &UserRef) -> (r: (String, String))
    ensures
        match user@ {
            UserV::Id(u) => r.0@ == "--uid"@ && r.1@ == dec_numeral(u as nat),
            UserV::Name(n) => r.0@ == "-u"@ && r.1@ == n,
        },
{
    match user {
        UserRef::Id(u) => ("--uid".to_owned(), u64_to_string(*u as u64)),
        UserRef::Name(n) => ("-u".to_owned(), n.clone()),
    }
}

/// What a stop order performs once the pid is known.
#[derive(Debug, PartialEq)]
pub enum StopAction {
    /// Send this signal number to the child.
    SendSignal(i64),
    /// Run this shell line, synchronously, as the action user.
    RunCommand(String),
}

/// The shape of a stop action.
pub enum StopActionV {
    SendSignal(i64),
    RunCommand(Seq<char>),
}

impl View for StopAction {
    type V = StopActionV;

    open spec fn view(&self) -> StopActionV {
        match self {
            StopAction::SendSignal(n) => StopActionV::SendSignal(*n),
            StopAction::RunCommand(c) => StopActionV::RunCommand(c@),
        }
    }
}

/// Evaluates a stop way against the child's pid: a signal number stands
/// as it is; a command has every `${PID}` replaced by the pid in
/// decimal.
pub fn stop_action(way: &StopWay, pid: u64) -> (r: StopAction)
    ensures
        match way@ {
            crate::config::StopWayV::Signal(n) => r@ == StopActionV::SendSignal(n),
            crate::config::StopWayV::Command(c) => r@ == StopActionV::RunCommand(
                spec_replace(c, "${PID}"@, dec_numeral(pid as nat)),
            ),
        },
{
    match way {
        StopWay::Signal(n) => StopAction::SendSignal(*n),
        StopWay::Command(c) => {
            let digits = u64_to_string(pid);
            proof {
                reveal_strlit("${PID}");
            }
            StopAction::RunCommand(replace_all(c.as_str(), "${PID}", digits.as_str()))
        },
    }
}

/// A signal number fit for the kill call: an out-of-range stop signal
/// falls back to 15.
pub fn signal_number(n: i64) -> (r: i32)
    ensures
        r == if i32::MIN <= n <= i32::MAX {
            n as i32
        } else {
            15
        },
{
    if i32::MIN as i64 <= n && n <= i32::MAX as i64 {
        n as i32
    } else {
        15
    }
}

/// The service id a descriptor file name carries: the name with every
/// `.svc` removed.
pub fn svc_id_of_name(name: &str) -> (r: String)
    ensures
        r@ == spec_replace(name@, ".svc"@, Seq::<char>::empty()),
{
    proof {
        reveal_strlit(".svc");
        reveal_strlit("");
        assert(""@ =~= Seq::<char>::empty());
    }
    replace_all(name, ".svc", "")
}

/// The characters of `s` after its last `/`; all of `s` when it has
/// none.
pub open spec fn spec_file_name(s: Seq<char>) -> Seq<char>
    decreases s.len(),
{
    if s.len() == 0 {
        s
    } else if s.last() == '/' {
        Seq::empty()
    } else {
        spec_file_name(s.drop_last()).push(s.last())
    }
}

/// The file name of a path: what follows the last slash.
pub fn file_name_of(path: &str) -> (r: String)
    ensures
        r@ == spec_file_name(path@),
{
    let len = path.unicode_len();
    let mut cut = len;
    proof {
        assert(path@.skip(len as int) =~= Seq::<char>::empty());
    }
    while cut > 0
        invariant
            cut <= len,
            len == path@.len(),
            forall|k: int| cut <= k < len ==> path@[k] != '/',
        decreases cut,
    {
        if path.get_char(cut - 1) == '/' {
            let r = slice_of(path, cut, len);
            proof {
                lemma_file_name_suffix(path@, cut as int);
            }
            return r;
        }
        cut -= 1;
    }
    let r = slice_of(path, 0, len);
    proof {
        lemma_file_name_suffix(path@, 0);
        assert(path@.subrange(0, len as int) =~= path@);
    }
    r
}

/// When no slash stands at or after `cut`, and a slash stands just
/// before `cut` or `cut` is 0, the file name is the suffix from `cut`.
proof fn lemma_file_name_suffix(s: Seq<char>, cut: int)
    requires
        0 <= cut <= s.len(),
        forall|k: int| cut <= k < s.len() ==> s[k] != '/',
        cut > 0 ==> s[cut - 1] == '/',
    ensures
        spec_file_name(s) == s.subrange(cut, s.len() as int),
    decreases s.len() - cut,
{
    if cut == s.len() {
        if cut > 0 {
            assert(s.last() == '/');
            assert(spec_file_name(s) == Seq::<char>::empty());
        } else {
            assert(s.len() == 0);
        }
        assert(s.subrange(cut, s.len() as int) =~= Seq::<char>::empty());
    } else {
        assert(s.last() != '/');
        lemma_file_name_suffix(s.drop_last(), cut);
        assert(spec_file_name(s) == spec_file_name(s.drop_last()).push(s.last()));
        assert(s.drop_last().subrange(cut, s.drop_last().len() as int).push(s.last()) =~= s
            .subrange(cut, s.len() as int));
    }
}

/// The descriptor path of a service id under the home directory.
pub fn svc_descriptor_path(home: &str, id: &str) -> (r: String)
    ensures
        r@ == home@ + "/svc/"@ + id@ + ".svc"@,
{
    let mut r = home.to_owned();
    r.append("/svc/");
    r.append(id);
    r.append(".svc");
    r
}

/// The directory of a milestone resolved beside its parent directory.
pub fn milestone_dir_path(parent: &str, name: &str) -> (r: String)
    ensures
        r@ == parent@ + "/"@ + name@,
{
    let mut r = parent.to_owned();
    r.append("/");
    r.append(name);
    r
}

/// The descriptor file inside a milestone directory.
pub fn milestone_toml_path(dir: &str) -> (r: String)
    ensures
        r@ == dir@ + "/milestone.toml"@,
{
    let mut r = dir.to_owned();
    r.append("/milestone.toml");
    r
}

/// The milestones directory under the home directory.
pub fn milestones_dir(home: &str) -> (r: String)
    ensures
        r@ == home@ + "/milestones"@,
{
    let mut r = home.to_owned();
    r.append("/milestones");
    r
}

/// The prestart directory under the home directory.
pub fn prestart_dir(home: &str) -> (r: String)
    ensures
        r@ == home@ + "/prestart"@,
{
    let mut r = home.to_owned();
    r.append("/prestart");
    r
}

/// The boot milestone the kernel command line picks: the last argument
/// of the form `milestone=<name>` wins; with none, it is `default`.
pub open spec fn spec_milestone_of(args: Seq<Seq<char>>) -> Seq<char>
    decreases args.len(),
{
    if args.len() == 0 {
        "default"@
    } else if "milestone="@.is_prefix_of(args.last()) {
        args.last().skip(10)
    } else {
        spec_milestone_of(args.drop_last())
    }
}

/// Reads the boot milestone from the kernel command line arguments.
pub fn milestone_from_args(args: &Vec<String>) -> (r: String)
    ensures
        r@ == spec_milestone_of(args@.map_values(|s: String| s@)),
{
    let mut r = "default".to_owned();
    let mut i: usize = 0;
    let n = args.len();
    let ghost argviews = args@.map_values(|s: String| s@);
    proof {
        assert(argviews.take(0) =~= Seq::<Seq<char>>::empty());
    }
    while i < n
        invariant
            i <= n,
            n == args@.len(),
            argviews == args@.map_values(|s: String| s@),
            r@ == spec_milestone_of(argviews.take(i as int)),
        decreases n - i,
    {
        proof {
            reveal_strlit("milestone=");
            assert(argviews[i as int] == args@[i as int]@);
        }
        if crate::strutil::starts_with(args[i].as_str(), "milestone=") {
            let tail = crate::strutil::tail_of(args[i].as_str(), "milestone=".unicode_len());
            proof {
                let a = args@[i as int]@;
                assert("milestone="@.len() == 10);
                assert(a.subrange(10, a.len() as int) =~= a.skip(10));
            }
            r = tail;
        }
        proof {
            let upto = argviews.take(i as int + 1);
            assert(upto.last() == argviews[i as int]);
            assert(upto.drop_last() =~= argviews.take(i as int));
        }
        i += 1;
    }
    proof {
        assert(argviews.take(n as int) =~= argviews);
    }
    r
}

/// The environment every child inherits from the boot: the target
/// milestone, the home directory, and whether prestart ran in parallel.
pub fn boot_env_pairs(milestone: &str, home: &str, prestart_paral: bool) -> (r: Vec<
    (String, String),
>)
    ensures
        crate::config::pair_views(r@) == seq![
            ("AIRUP_TARGET_MILESTONE"@, milestone@),
            ("AIRUP_HOME_DIR"@, home@),
            ("AIRUP_PARAL_PRESTART"@, if prestart_paral {
                "true"@
            } else {
                "false"@
            }),
        ],
{
    let mut r: Vec<(String, String)> = Vec::new();
    r.push(("AIRUP_TARGET_MILESTONE".to_owned(), milestone.to_owned()));
    r.push(("AIRUP_HOME_DIR".to_owned(), home.to_owned()));
    let flag = if prestart_paral {
        "true".to_owned()
    } else {
        "false".to_owned()
    };
    r.push(("AIRUP_PARAL_PRESTART".to_owned(), flag));
    proof {
        assert(crate::config::pair_views(r@) =~= seq![
            ("AIRUP_TARGET_MILESTONE"@, milestone@),
            ("AIRUP_HOME_DIR"@, home@),
            ("AIRUP_PARAL_PRESTART"@, if prestart_paral {
                "true"@
            } else {
                "false"@
            }),
        ]);
    }
    r
}

/// What the boot does with the configured PATH: the sentinel leaves the
/// environment untouched; any other value is exported as PATH.
pub fn path_env_value(val: &str) -> (r: Option<String>)
    ensures
        match r {
            Some(v) => v@ == val@ && val@ != "DONT_SETUP"@,
            None => val@ == "DONT_SETUP"@,
        },
{
    if str_eq(val, "DONT_SETUP") {
        None
    } else {
        Some(val.to_owned())
    }
}

/// The pid a spawn settles on when a pid file is configured: the pid
/// the file holds, or the directly observed pid when the file's text is
/// not a pid.
pub fn pid_after_spawn(direct: i32, pid_file_content: &str) -> (r: i32)
    ensures
        r == if is_signed_numeral(pid_file_content@) && i32::MIN <= signed_numeral_val(
            pid_file_content@,
        ) <= i32::MAX {
            signed_numeral_val(pid_file_content@) as i32
        } else {
            direct
        },
{
    match pid_from_file(pid_file_content) {
        Some(p) => p,
        None => direct,
    }
}

/// Reads a child pid from the contents of a pid file: the whole text
/// must be a decimal pid in range; otherwise the caller falls back to
/// the directly observed pid.
pub fn pid_from_file(content: &str) -> (r: Option<i32>)
    ensures
        match r {
            Some(p) => is_signed_numeral(content@) && p == signed_numeral_val(content@)
                && i32::MIN <= signed_numeral_val(content@) <= i32::MAX,
            None => !is_signed_numeral(content@) || !(i32::MIN <= signed_numeral_val(content@)
                <= i32::MAX),
        },
{
    match parse_i64(content) {
        Some(v) => {
            if i32::MIN as i64 <= v && v <= i32::MAX as i64 {
                Some(v as i32)
            } else {
                None
            }
        },
        None => None,
    }
}

} // verus!
