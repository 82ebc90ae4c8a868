//! Turning a resolved plan into the ssh client's arguments, choosing the
//! hop whose stored password is used, and reading how a session ended.

use vstd::prelude::*;
use crate::entity::profiles::AuthMode;
use crate::text::{decimal, decimal_string, join_strings, join_with, push_decimal, views};
use crate::usecase::{ConnectHop, ConnectPlan};

verus! {

/// `user@host:port`, how a bastion is written in a ProxyJump list.
pub open spec fn endpoint(h: ConnectHop) -> Seq<char> {
    h.user@ + "@"@ + h.host@ + ":"@ + decimal(h.port as nat)
}

/// `user@host`, how the destination is written.
pub open spec fn destination(h: ConnectHop) -> Seq<char> {
    h.user@ + "@"@ + h.host@
}

/// The ProxyJump value: the endpoints of every hop but the last, joined by
/// commas.
pub open spec fn jump_value(hops: Seq<ConnectHop>) -> Seq<char> {
    join_with(hops.drop_last().map_values(|h: ConnectHop| endpoint(h)), ","@)
}

/// The client's arguments for a non-empty chain, in their fixed order:
/// `-J <jumps>` when there is more than one hop, `-p <port>` when the
/// destination's port is not 22, `-i <path>` when the destination uses a
/// recorded key, then `user@host` of the destination.
pub open spec fn ssh_args_of(hops: Seq<ConnectHop>) -> Seq<Seq<char>> {
    let t = hops.last();
    (if hops.len() > 1 {
        seq!["-J"@, jump_value(hops)]
    } else {
        Seq::empty()
    }) + (if t.port != 22 {
        seq!["-p"@, decimal(t.port as nat)]
    } else {
        Seq::empty()
    }) + (if t.auth_mode == AuthMode::Key && t.key_path_local is Some {
        seq!["-i"@, t.key_path_local.unwrap()@]
    } else {
        Seq::empty()
    }) + seq![destination(t)]
}

/// The id of the profile whose stored password is looked up: the first hop
/// of the chain (the only one, for a single hop), and only when it
/// authenticates by password.
pub open spec fn password_hop(hops: Seq<ConnectHop>) -> Option<u32> {
    if hops.len() > 0 && hops[0].auth_mode == AuthMode::Password {
        Some(hops[0].id)
    } else {
        None
    }
}

fn endpoint_string(h: &ConnectHop) -> (r: String)
    ensures
        r@ == endpoint(*h),
{
    let mut out = h.user.clone();
    out.append("@");
    out.append(h.host.as_str());
    out.append(":");
    push_decimal(&mut out, h.port as u32);
    out
}

fn destination_string(h: &ConnectHop) -> (r: String)
    ensures
        r@ == destination(*h),
{
    let mut out = h.user.clone();
    out.append("@");
    out.append(h.host.as_str());
    out
}

/// The arguments for the ssh client, or `None` for a plan without hops,
/// which has no destination to connect to.
pub fn assemble_ssh_args(plan: &ConnectPlan) -> (r: Option<Vec<String>>)
    ensures
        plan.hops.len() == 0 <==> r is None,
        r matches Some(v) ==> views(v@) == ssh_args_of(plan.hops@),
{
    let n = plan.hops.len();
    if n == 0 {
        return None;
    }
    let ghost hops = plan.hops@;
    let mut args: Vec<String> = Vec::new();
    if n > 1 {
        let mut ends: Vec<String> = Vec::new();
        let mut k: usize = 0;
        while k < n - 1
            invariant
                n == plan.hops.len(),
                hops == plan.hops@,
                k <= n - 1,
                views(ends@) == hops.take(k as int).map_values(|h: ConnectHop| endpoint(h)),
            decreases n - 1 - k,
        {
            let e = endpoint_string(&plan.hops[k]);
            let ghost prev = ends@;
            ends.push(e);
            assert(ends@ =~= prev.push(e));
            assert(views(ends@) =~= views(prev).push(e@));
            assert(views(ends@) =~= hops.take(k + 1).map_values(|h: ConnectHop| endpoint(h)));
            k = k + 1;
        }
        assert(hops.take(k as int) =~= hops.drop_last());
        args.push(String::from_str("-J"));
        args.push(join_strings(&ends, ","));
    }
    let ghost jumps = views(args@);
    let t = &plan.hops[n - 1];
    if t.port != 22 {
        args.push(String::from_str("-p"));
        args.push(decimal_string(t.port as u32));
    }
    match (&t.auth_mode, &t.key_path_local) {
        (AuthMode::Key, Some(k)) => {
            args.push(String::from_str("-i"));
            args.push(k.clone());
        },
        _ => {},
    }
    let ghost keyed = views(args@);
    args.push(destination_string(t));
    proof {
        let s = ssh_args_of(hops);
        assert(jumps =~= (if hops.len() > 1 {
            seq!["-J"@, jump_value(hops)]
        } else {
            Seq::empty()
        }));
        assert(views(args@) =~= keyed.push(destination(hops.last())));
        assert(views(args@) =~= s);
    }
    Some(args)
}

/// The profile whose stored password the connection uses, if any.
pub fn password_profile_id(plan: &ConnectPlan) -> (r: Option<u32>)
    ensures
        r == password_hop(plan.hops@),
{
    if plan.hops.len() > 0 && plan.hops[0].auth_mode == AuthMode::Password {
        Some(plan.hops[0].id)
    } else {
        None
    }
}

/// The arguments for the password helper: `-p <password> ssh`, then the
/// client's own arguments.
pub fn sshpass_args(password: &str, args: &Vec<String>) -> (r: Vec<String>)
    ensures
        views(r@) == seq!["-p"@, password@, "ssh"@] + views(args@),
{
    let mut out: Vec<String> = Vec::new();
    out.push(String::from_str("-p"));
    out.push(String::from_str(password));
    out.push(String::from_str("ssh"));
    let mut k: usize = 0;
    while k < args.len()
        invariant
            k <= args.len(),
            views(out@) == seq!["-p"@, password@, "ssh"@] + views(args@.take(k as int)),
        decreases args.len() - k,
    {
        let a = args[k].clone();
        let ghost prev = out@;
        out.push(a);
        assert(out@ =~= prev.push(a));
        assert(views(out@) =~= views(prev).push(a@));
        assert(views(args@.take(k + 1)) =~= views(args@.take(k as int)).push(args@[k as int]@));
        assert(views(out@) =~= seq!["-p"@, password@, "ssh"@] + views(args@.take(k + 1)));
        k = k + 1;
    }
    assert(args@.take(k as int) =~= args@);
    out
}

/// How an ssh session ended, as told to the user.
#[derive(Debug, Clone, Copy, PartialEq, Eq, Structural)]
pub enum SessionEnd {
    /// The client exited with status zero.
    Finished,
    /// The client exited with this non-zero status.
    Failed(i32),
    /// The client was stopped by a signal and has no exit code.
    Signalled,
}

/// Reads a client's exit: `success` when it exited with zero, `code` its
/// exit code when it has one.
pub fn session_end(success: bool, code: Option<i32>) -> (r: SessionEnd)
    ensures
        success ==> r == SessionEnd::Finished,
        !success ==> (code matches Some(c) ==> r == SessionEnd::Failed(c)),
        !success ==> (code is None ==> r == SessionEnd::Signalled),
{
    if success {
        SessionEnd::Finished
    } else {
        match code {
            Some(c) => SessionEnd::Failed(c),
            None => SessionEnd::Signalled,
        }
    }
}

} // verus!
