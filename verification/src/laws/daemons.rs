//! Daemons: whom they serve, where they are, and when they stop.

use crate::socket::{claimed, lock_path_for, owned_by, socket_path_from, LockOutcome};
use crate::transport::daemon_state::{
    describe, idle_step, Admission, ConnState, Watch, WatchAction, WatchEvent,
};
use crate::types::McpError;
use vstd::prelude::*;
use vstd::string::*;
use vstd::utf8::*;

verus! {

/// A connection is served exactly where the daemon is not on its way out and has
/// a slot free; it takes one slot, and counts as one visit. One that is refused
/// changes nothing.
pub proof fn law_connections_take_slots(state: ConnState, max: usize)
    requires
        state.generation < u64::MAX,
    ensures
        ({
            let r = crate::transport::daemon_state::admission(state, max);
            let after = crate::transport::daemon_state::after_arrival(state, max);
            &&& r == Admission::Admitted <==> !state.shutdown && state.active < max
            &&& r == Admission::ShuttingDown <==> state.shutdown
            &&& r == Admission::Admitted ==> after.active == state.active + 1 && after.generation
                == state.generation + 1 && !after.shutdown
            &&& r != Admission::Admitted ==> after == state
        }),
{
}

/// A connection that leaves gives back the slot it took, and is still counted as
/// a visit.
pub proof fn law_slots_are_given_back(state: ConnState, max: usize)
    requires
        state.generation < u64::MAX,
        crate::transport::daemon_state::admission(state, max) == Admission::Admitted,
    ensures
        ({
            let after = crate::transport::daemon_state::after_leaving(
                crate::transport::daemon_state::after_arrival(state, max),
            );
            after.active == state.active && after.generation == state.generation + 1
                && after.shutdown == state.shutdown
        }),
        crate::transport::daemon_state::after_leaving(state).active <= state.active,
        crate::transport::daemon_state::after_leaving(state).generation == state.generation,
        crate::transport::daemon_state::after_leaving(state).shutdown == state.shutdown,
{
}

/// A daemon that nobody used for a whole window is stopped: at once where the
/// application has no say, and otherwise once it said that nothing is in hand.
/// Where somebody came, or something is in hand, the watching starts over.
pub proof fn law_an_idle_daemon_is_stopped(state: ConnState, since: u64, busy: bool)
    requires
        !state.shutdown,
    ensures
        ({
            let quiet = state.active == 0 && state.generation == since;
            let passed = |has_check: bool|
                crate::transport::daemon_state::watch_step(
                    state,
                    Watch::Window(since),
                    WatchEvent::WindowPassed,
                    has_check,
                );
            let told = crate::transport::daemon_state::watch_step(
                state,
                Watch::Asking(since),
                WatchEvent::Answered(busy),
                true,
            );
            let again = |r: (Watch, WatchAction)|
                if state.active > 0 {
                    r == (Watch::Busy, WatchAction::Wait)
                } else {
                    r == (Watch::Window(state.generation), WatchAction::WaitWindow)
                };
            &&& quiet ==> passed(false).1 == WatchAction::Stop
            &&& quiet ==> passed(true) == (Watch::Asking(since), WatchAction::Ask)
            &&& quiet && !busy ==> told.1 == WatchAction::Stop
            &&& quiet && busy ==> again(told)
            &&& !quiet ==> again(passed(false)) && again(passed(true)) && again(told)
        }),
{
}

/// Whatever the watcher waits for, it ends where the daemon is stopping already,
/// waits while somebody is served, and begins a window when nobody is.
pub proof fn law_the_watcher_looks_at_what_there_is(
    state: ConnState,
    watch: Watch,
    has_check: bool,
)
    ensures
        ({
            let r = crate::transport::daemon_state::watch_step(
                state,
                watch,
                WatchEvent::Woken,
                has_check,
            );
            &&& state.shutdown ==> r.1 == WatchAction::End
            &&& !state.shutdown && state.active > 0 ==> r == (Watch::Busy, WatchAction::Wait)
            &&& !state.shutdown && state.active == 0 ==> r == (
                Watch::Window(state.generation),
                WatchAction::WaitWindow,
            )
        }),
{
}

/// Parts of a path are put together with one slash between them; a part that
/// begins at the root stands alone.
pub proof fn law_paths_are_put_together(base: Seq<u8>, part: Seq<u8>)
    ensures
        part.len() > 0 && part[0] == 47 ==> crate::socket::path_with(base, part) == part,
        base.len() > 0 && base.last() != 47 && (part.len() == 0 || part[0] != 47)
            ==> crate::socket::path_with(base, part) == base + seq![47u8] + part,
        base.len() > 0 && base.last() == 47 && (part.len() == 0 || part[0] != 47)
            ==> crate::socket::path_with(base, part) == base + part,
        base.len() == 0 ==> crate::socket::path_with(base, part) == part,
{
    assert(base.push(47) + part =~= base + seq![47u8] + part);
    if base.len() == 0 {
        assert(base + part =~= part);
    }
}

/// Whether a text can be a part of a path.
pub open spec fn is_part(s: Seq<u8>) -> bool {
    s.len() > 0 && s[0] != 47 && s.last() != 47
}

/// A daemon's socket is in the directory that the system gives its user at run
/// time, where there is one; else in the state directory under the user's home;
/// else in a directory that is named for the user among the temporary ones. An
/// empty directory is none.
pub proof fn law_the_socket_is_where_its_user_is(
    runtime_dir: Option<Seq<u8>>,
    home: Option<Seq<u8>>,
    temp_dir: Seq<u8>,
    uid: u32,
    app: Seq<char>,
    file: Seq<char>,
)
    requires
        is_part(encode_utf8(app)),
        is_part(encode_utf8(file)),
        runtime_dir matches Some(d) ==> d.len() > 0 ==> d.last() != 47,
        home matches Some(d) ==> d.len() > 0 ==> d.last() != 47,
        temp_dir.len() > 0,
        temp_dir.last() != 47,
    ensures
        ({
            let path = crate::socket::socket_path(runtime_dir, home, temp_dir, uid, app, file);
            let a = encode_utf8(app);
            let f = encode_utf8(file);
            let own = encode_utf8(app + "-"@ + crate::text::decimal(uid as int));
            let state = encode_utf8(".local/state"@);
            if runtime_dir is Some && runtime_dir->0.len() > 0 {
                path == runtime_dir->0 + seq![47u8] + a + seq![47u8] + f
            } else if home is Some && home->0.len() > 0 {
                path == home->0 + seq![47u8] + state + seq![47u8] + a + seq![47u8] + f
            } else {
                own.len() > 0 && own[0] != 47 && own.last() != 47 ==> path == temp_dir + seq![47u8]
                    + own + seq![47u8] + f
            }
        }),
{
    let a = encode_utf8(app);
    let f = encode_utf8(file);
    let own = encode_utf8(app + "-"@ + crate::text::decimal(uid as int));
    let state = encode_utf8(".local/state"@);
    if runtime_dir is Some && runtime_dir->0.len() > 0 {
        let d = runtime_dir->0;
        law_paths_are_put_together(d, a);
        law_paths_are_put_together(d + seq![47u8] + a, f);
        assert((d + seq![47u8] + a).last() == a.last());
    } else if home is Some && home->0.len() > 0 {
        let d = home->0;
        reveal_strlit(".local/state");
        assert(is_ascii_chars(".local/state"@));
        is_ascii_chars_encode_utf8(".local/state"@);
        assert(state.len() == 12 && state[0] == 46 && state[11] == 101);
        law_paths_are_put_together(d, state);
        let s = d + seq![47u8] + state;
        assert(s.last() == state.last());
        law_paths_are_put_together(s, a);
        let t = s + seq![47u8] + a;
        assert(t.last() == a.last());
        law_paths_are_put_together(t, f);
    } else if own.len() > 0 && own[0] != 47 && own.last() != 47 {
        law_paths_are_put_together(temp_dir, own);
        let s = temp_dir + seq![47u8] + own;
        assert(s.last() == own.last());
        law_paths_are_put_together(s, f);
    }
}

/// The lock of a socket is the socket's path with another extension: in place of
/// the one it has, or beside its name where it has none. The directory of a path
/// is what comes before its last slash.
pub proof fn law_the_lock_has_the_sockets_name(dir: Seq<u8>, stem: Seq<u8>, ext: Seq<u8>)
    requires
        dir.len() > 0,
        dir.last() != 47,
        dir.len() > 1 ==> !(dir.last() == 46 && dir[dir.len() - 2] == 47),
        stem.len() > 0,
        !stem.contains(47),
        !stem.contains(46),
        !ext.contains(47),
        !ext.contains(46),
        ext.len() > 0,
    ensures
        crate::socket::lock_path(dir + seq![47u8] + stem + seq![46u8] + ext) == dir + seq![47u8]
            + stem + encode_utf8(".lock"@),
        crate::socket::lock_path(dir + seq![47u8] + stem) == dir + seq![47u8] + stem + encode_utf8(
            ".lock"@,
        ),
        crate::socket::parent(dir + seq![47u8] + stem) == Some(dir),
{
    let n = dir.len() as int;
    let k = stem.len() as int;
    let p = dir + seq![47u8] + stem;
    assert(forall|i: int| 0 <= i < k ==> p[n + 1 + i] == stem[i]);
    assert(stem.contains(stem[k - 1]));
    assert(p.last() == stem[k - 1]);
    assert(crate::socket::path_end(p, p.len() as int) == p.len());
    assert forall|i: int| n + 1 <= i < p.len() implies p[i] != 47 by {
        assert(p[i] == stem[i - n - 1]);
        assert(stem.contains(stem[i - n - 1]));
    }
    assert(p[n] == 47);
    crate::socket::lemma_is_after_last(p, 47, n + 1, p.len() as int);
    assert(p.subrange(n + 1, p.len() as int) =~= stem);
    assert forall|i: int| 0 <= i < k implies stem[i] != 46 by {
        assert(stem.contains(stem[i]));
    }
    crate::socket::lemma_is_after_last(stem, 46, 0, k);
    assert(stem != seq![46u8] && stem != seq![46u8, 46u8]) by {
        assert(stem[0] != 46);
    }
    assert(p.take(p.len() as int) =~= p);
    assert(crate::socket::lock_path(p) == p + encode_utf8(".lock"@));
    assert(p.take(n) =~= dir);
    assert(p[n - 1] == dir.last());
    assert(n > 1 ==> p[n - 2] == dir[n - 2]);
    reveal_with_fuel(crate::socket::path_end, 3);
    assert(crate::socket::path_end(p, n) == n);
    assert(crate::socket::path_end(p, n + 1) == n);
    let q = dir + seq![47u8] + stem + seq![46u8] + ext;
    let m = ext.len() as int;
    assert forall|i: int| 0 <= i < m implies ext[i] != 47 && ext[i] != 46 by {
        assert(ext.contains(ext[i]));
    }
    assert(q.last() == ext[m - 1]);
    assert(crate::socket::path_end(q, q.len() as int) == q.len());
    assert forall|i: int| n + 1 <= i < q.len() implies q[i] != 47 by {
        if i < n + 1 + k {
            assert(q[i] == stem[i - n - 1]);
            assert(stem.contains(stem[i - n - 1]));
        } else if i > n + 1 + k {
            assert(q[i] == ext[i - n - k - 2]);
        }
    }
    assert(q[n] == 47);
    crate::socket::lemma_is_after_last(q, 47, n + 1, q.len() as int);
    let name = q.subrange(n + 1, q.len() as int);
    assert(name =~= stem + seq![46u8] + ext);
    assert(name[k] == 46);
    assert forall|i: int| k + 1 <= i < name.len() implies name[i] != 46 by {
        assert(name[i] == ext[i - k - 1]);
    }
    crate::socket::lemma_is_after_last(name, 46, k + 1, name.len() as int);
    assert(name != seq![46u8] && name != seq![46u8, 46u8]) by {
        assert(name[0] == stem[0]);
        assert(stem[0] != 46);
    }
    assert(q.take(n + 1 + k) =~= p);
}

/// What is at a path is trusted exactly where the user owns it and what it leads
/// to; where that is not known, it is not said.
pub proof fn law_only_what_is_owned_is_trusted(
    uid: u32,
    link: Option<u32>,
    target: Option<u32>,
    r: Option<bool>,
)
    requires
        call_ensures(owned_by, (uid, link, target), r),
    ensures
        r == Some(true) <==> link == Some(uid) && target == Some(uid),
        link is Some && link != Some(uid) ==> r == Some(false),
        link == Some(uid) && target is Some && target != Some(uid) ==> r == Some(false),
        link is None || (link == Some(uid) && target is None) ==> r is None,
{
}

/// The right to touch a socket is had where its lock was taken, and is not had
/// where somebody else holds it. A lock that failed in another way says neither.
pub proof fn law_a_lock_is_the_right_to_touch(
    outcome: LockOutcome,
    path: &str,
    r: Result<bool, McpError>,
)
    requires
        call_ensures(claimed, (outcome, path), r),
    ensures
        outcome is Taken <==> r == Ok::<bool, McpError>(true),
        outcome is Held <==> r == Ok::<bool, McpError>(false),
        r is Err ==> r->Err_0@ is Internal,
{
}

/// A name beside a path is in the directory that the path is in.
pub proof fn law_a_sibling_is_in_the_same_directory(dir: Seq<u8>, stem: Seq<u8>, name: Seq<char>)
    requires
        dir.len() > 0,
        dir.last() != 47,
        dir.len() > 1 ==> !(dir.last() == 46 && dir[dir.len() - 2] == 47),
        stem.len() > 0,
        !stem.contains(47),
        !stem.contains(46),
        is_part(encode_utf8(name)),
    ensures
        crate::socket::sibling(dir + seq![47u8] + stem, name) == dir + seq![47u8] + encode_utf8(
            name,
        ),
{
    let ext = seq![108u8];
    assert(!ext.contains(47) && !ext.contains(46));
    law_the_lock_has_the_sockets_name(dir, stem, ext);
    law_paths_are_put_together(dir, encode_utf8(name));
}

/// Listeners are named in order, with commas between their names.
pub proof fn law_listeners_are_named_in_order(names: Vec<String>, r: String)
    requires
        call_ensures(describe, (&names,), r),
    ensures
        r@ == crate::text::joined(Seq::new(names@.len(), |k: int| names@[k]@), ", "@),
{
    assert(crate::text::texts(names@) =~= Seq::new(names@.len(), |k: int| names@[k]@));
}

/// What is decided about a daemon is what its rules say.
pub proof fn law_daemons_keep_to_their_rules(
    state: ConnState,
    watch: Watch,
    event: WatchEvent,
    has_check: bool,
    step: (Watch, WatchAction),
    runtime_dir: Option<Vec<u8>>,
    home: Option<Vec<u8>>,
    temp_dir: Vec<u8>,
    uid: u32,
    app: &str,
    file: &str,
    path: Vec<u8>,
    lock: Vec<u8>,
)
    requires
        call_ensures(idle_step, (&state, watch, event, has_check), step),
        call_ensures(
            socket_path_from,
            (&runtime_dir, &home, &temp_dir, uid, app, file),
            path,
        ),
        call_ensures(lock_path_for, (&path,), lock),
    ensures
        step == crate::transport::daemon_state::watch_step(state, watch, event, has_check),
        path@ == crate::socket::socket_path(
            match runtime_dir {
                Some(d) => Some(d@),
                None => None,
            },
            match home {
                Some(d) => Some(d@),
                None => None,
            },
            temp_dir@,
            uid,
            app@,
            file@,
        ),
        lock@ == crate::socket::lock_path(path@),
{
}

} // verus!
