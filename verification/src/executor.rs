//! The request executor's decision logic: building the external client's
//! argument list (with the reserved flags protected from being overridden)
//! and classifying how the launched process ended.
//!
//! Launching the process and waiting for it are I/O and live outside this
//! library; they feed an [`ExecEvent`] back into [`executor_outcome`].

use crate::errors::Error;
use crate::text::{str_eq, views_of};
use vstd::prelude::*;
use vstd::string::*;

verus! {

/// The structured-output template injected into the external HTTP client: it
/// makes the client print on its standard output exactly the timing report
/// that [`crate::timing::parse_timing_report`] reads.
pub open spec fn curl_format_spec() -> Seq<char> {
    r#"
        {
            "time_namelookup":    %{time_namelookup},
            "time_connect":       %{time_connect},
            "time_pretransfer":   %{time_pretransfer},
            "time_redirect":      %{time_redirect},
            "time_starttransfer": %{time_starttransfer},
            "time_total":         %{time_total},
            "speed_download":     %{speed_download},
            "speed_upload":       %{speed_upload},
            "remote_ip":          "%{remote_ip}",
            "remote_port":        "%{remote_port}",
            "local_ip":           "%{local_ip}",
            "local_port":         "%{local_port}"
        }"#@
}

/// The timing-report template handed to the external client.
pub fn curl_format() -> (r: &'static str)
    ensures
        r@ == curl_format_spec(),
{
    r#"
        {
            "time_namelookup":    %{time_namelookup},
            "time_connect":       %{time_connect},
            "time_pretransfer":   %{time_pretransfer},
            "time_redirect":      %{time_redirect},
            "time_starttransfer": %{time_starttransfer},
            "time_total":         %{time_total},
            "speed_download":     %{speed_download},
            "speed_upload":       %{speed_upload},
            "remote_ip":          "%{remote_ip}",
            "remote_port":        "%{remote_port}",
            "local_ip":           "%{local_ip}",
            "local_port":         "%{local_port}"
        }"#
}

/// The five flags the executor itself needs; callers may not override them.
pub open spec fn is_reserved_flag(f: Seq<char>) -> bool {
    f == "-w"@ || f == "-D"@ || f == "-o"@ || f == "-s"@ || f == "-S"@
}

/// Whether `f` is one of the reserved executor flags.
pub fn flag_is_reserved(f: &str) -> (r: bool)
    ensures
        r == is_reserved_flag(f@),
{
    str_eq(f, "-w") || str_eq(f, "-D") || str_eq(f, "-o") || str_eq(f, "-s") || str_eq(f, "-S")
}

/// Index of the first reserved flag at or after `j`, or the length if none.
pub open spec fn first_reserved_idx(vs: Seq<Seq<char>>, j: int) -> int
    decreases vs.len() - j,
{
    if j >= vs.len() || j < 0 {
        vs.len() as int
    } else if is_reserved_flag(vs[j]) {
        j
    } else {
        first_reserved_idx(vs, j + 1)
    }
}

/// The validation message for a caller-supplied flag that collides with a
/// reserved one.
pub open spec fn flag_conflict_msg_spec(f: Seq<char>) -> Seq<char> {
    "Error: "@ + f + " is not allowed in extra curl args"@
}

/// The full argument list for one invocation of the external client: the
/// five reserved flags with the template and the two capture-sink paths,
/// then the caller's extra flags verbatim, then the URL.
pub open spec fn curl_args_spec(
    url: Seq<char>,
    extra: Seq<Seq<char>>,
    header_path: Seq<char>,
    body_path: Seq<char>,
) -> Seq<Seq<char>> {
    seq![
        "-w"@,
        curl_format_spec(),
        "-D"@,
        header_path,
        "-o"@,
        body_path,
        "-s"@,
        "-S"@,
    ] + extra + seq![url]
}

/// Builds the external client's argument list, validating the caller's extra
/// flags first: a caller-supplied flag equal to a reserved one is rejected
/// before any process is spawned, with a message naming the flag.
pub fn build_curl_args(
    url: &str,
    extra: &Vec<String>,
    header_path: &str,
    body_path: &str,
) -> (r: Result<Vec<String>, String>)
    ensures
        ({
            let vs = views_of(extra@);
            match r {
                Ok(args) => first_reserved_idx(vs, 0) == vs.len() && views_of(args@)
                    == curl_args_spec(url@, vs, header_path@, body_path@),
                Err(m) => first_reserved_idx(vs, 0) < vs.len() && m@ == flag_conflict_msg_spec(
                    vs[first_reserved_idx(vs, 0)],
                ),
            }
        }),
{
    let ghost vs = views_of(extra@);
    let mut i: usize = 0;
    while i < extra.len()
        invariant
            i <= extra@.len(),
            vs == views_of(extra@),
            first_reserved_idx(vs, 0) == first_reserved_idx(vs, i as int),
        decreases extra@.len() - i,
    {
        if flag_is_reserved(extra[i].as_str()) {
            let mut m = String::from_str("Error: ");
            m.append(extra[i].as_str());
            m.append(" is not allowed in extra curl args");
            proof {
                assert(vs[i as int] == extra@[i as int]@);
                assert(m@ =~= flag_conflict_msg_spec(vs[first_reserved_idx(vs, 0)]));
            }
            return Err(m);
        }
        proof {
            assert(vs[i as int] == extra@[i as int]@);
        }
        i = i + 1;
    }
    let mut args: Vec<String> = Vec::new();
    args.push(String::from_str("-w"));
    args.push(String::from_str(curl_format()));
    args.push(String::from_str("-D"));
    args.push(String::from_str(header_path));
    args.push(String::from_str("-o"));
    args.push(String::from_str(body_path));
    args.push(String::from_str("-s"));
    args.push(String::from_str("-S"));
    let mut k: usize = 0;
    while k < extra.len()
        invariant
            k <= extra@.len(),
            vs == views_of(extra@),
            views_of(args@) =~= seq![
                "-w"@,
                curl_format_spec(),
                "-D"@,
                header_path@,
                "-o"@,
                body_path@,
                "-s"@,
                "-S"@,
            ] + vs.subrange(0, k as int),
        decreases extra@.len() - k,
    {
        let ghost old_args = args@;
        args.push(extra[k].clone());
        proof {
            assert(views_of(args@) =~= views_of(old_args).push(extra@[k as int]@));
            assert(vs.subrange(0, k as int).push(vs[k as int]) =~= vs.subrange(0, k as int + 1));
        }
        k = k + 1;
    }
    let ghost old_args = args@;
    args.push(String::from_str(url));
    proof {
        assert(views_of(args@) =~= views_of(old_args).push(url@));
        assert(vs.subrange(0, vs.len() as int) =~= vs);
        assert(views_of(args@) =~= curl_args_spec(url@, vs, header_path@, body_path@));
    }
    Ok(args)
}

/// How one launch of the external client ended, as seen by the caller that
/// performed the I/O.
pub enum ExecEvent {
    /// The process ran to completion; `ok` is whether it exited with status
    /// zero, `stdout` its standard output, `stderr` its diagnostic output.
    Exited { ok: bool, stdout: String, stderr: String },
    /// The process did not exit within the caller's deadline.
    TimedOut,
    /// The process could not be started at all.
    LaunchFailed,
}

/// Classifies how a launch ended: a clean exit yields the timing report text
/// (the process's standard output); a non-zero exit yields
/// [`Error::RequestFailed`] carrying the diagnostic text, so that no capture
/// read-back is attempted; a timeout or a failed launch yield their own
/// errors.
pub fn executor_outcome(ev: ExecEvent) -> (r: Result<String, Error>)
    ensures
        ({
            match ev {
                ExecEvent::Exited { ok, stdout, stderr } => {
                    if ok {
                        r == Ok::<String, Error>(stdout)
                    } else {
                        r == Err::<String, Error>(Error::RequestFailed(stderr))
                    }
                },
                ExecEvent::TimedOut => r == Err::<String, Error>(Error::RequestTimedOut),
                ExecEvent::LaunchFailed => r == Err::<String, Error>(Error::ExecutorLaunchFailed),
            }
        }),
{
    match ev {
        ExecEvent::Exited { ok, stdout, stderr } => {
            if ok {
                Ok(stdout)
            } else {
                Err(Error::RequestFailed(stderr))
            }
        },
        ExecEvent::TimedOut => Err(Error::RequestTimedOut),
        ExecEvent::LaunchFailed => Err(Error::ExecutorLaunchFailed),
    }
}

} // verus!
