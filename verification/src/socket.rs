//! Where a daemon's socket is, and who is allowed to be behind it.
//!
//! A socket in a directory that everybody can write to can be put there by
//! anybody. So it goes into a directory of the user's own, and one that is
//! there already is trusted only where the user owns it. Paths are bytes.

use crate::bytes::{append_between, bytes_between, encode};
use crate::tasks::{bytes_from, draw, hex_text};
use crate::text::{decimal_text, join, join3};
use crate::types::{McpError, McpErrorView};
use vstd::prelude::*;
use vstd::string::*;
use vstd::utf8::*;

verus! {

/// A path with another part at its end. A part that starts at the root stands
/// alone.
pub open spec fn path_with(base: Seq<u8>, part: Seq<u8>) -> Seq<u8> {
    if part.len() > 0 && part[0] == 47 {
        part
    } else if base.len() == 0 || base.last() == 47 {
        base + part
    } else {
        base.push(47) + part
    }
}

/// A path with another part at its end.
pub fn join_path(base: &Vec<u8>, part: &Vec<u8>) -> (r: Vec<u8>)
    ensures
        r@ == path_with(base@, part@),
{
    let mut out: Vec<u8> = Vec::new();
    if part.len() > 0 && part[0] == 47 {
        append_between(&mut out, part, 0, part.len());
        assert(out@ =~= part@);
        return out;
    }
    append_between(&mut out, base, 0, base.len());
    if base.len() > 0 && base[base.len() - 1] != 47 {
        out.push(47);
    }
    append_between(&mut out, part, 0, part.len());
    assert(out@ =~= path_with(base@, part@));
    out
}

/// The path of a user's socket. An empty directory counts as none.
pub open spec fn socket_path(
    runtime_dir: Option<Seq<u8>>,
    home: Option<Seq<u8>>,
    temp_dir: Seq<u8>,
    uid: u32,
    app: Seq<char>,
    file: Seq<char>,
) -> Seq<u8> {
    let app_part = encode_utf8(app);
    let file_part = encode_utf8(file);
    if runtime_dir is Some && runtime_dir->0.len() > 0 {
        path_with(path_with(runtime_dir->0, app_part), file_part)
    } else if home is Some && home->0.len() > 0 {
        path_with(
            path_with(path_with(home->0, encode_utf8(".local/state"@)), app_part),
            file_part,
        )
    } else {
        path_with(
            path_with(
                temp_dir,
                encode_utf8(app + "-"@ + crate::text::decimal(uid as int)),
            ),
            file_part,
        )
    }
}

/// The view of an optional path.
pub open spec fn optional_path(p: Option<Vec<u8>>) -> Option<Seq<u8>> {
    match p {
        Some(p) => Some(p@),
        None => None,
    }
}

/// The path of a user's socket: in the directory that the system gives the
/// user at run time, else under the user's home, else in a directory of the
/// user's own among the temporary ones.
pub fn socket_path_from(
    runtime_dir: &Option<Vec<u8>>,
    home: &Option<Vec<u8>>,
    temp_dir: &Vec<u8>,
    uid: u32,
    app: &str,
    file: &str,
) -> (r: Vec<u8>)
    ensures
        r@ == socket_path(
            optional_path(*runtime_dir),
            optional_path(*home),
            temp_dir@,
            uid,
            app@,
            file@,
        ),
{
    let file_part = encode(file);
    if let Some(dir) = runtime_dir {
        if dir.len() > 0 {
            return join_path(&join_path(dir, &encode(app)), &file_part);
        }
    }
    if let Some(dir) = home {
        if dir.len() > 0 {
            let state = join_path(dir, &encode(".local/state"));
            return join_path(&join_path(&state, &encode(app)), &file_part);
        }
    }
    let own = join3(app, "-", decimal_text(uid as u64).as_str());
    join_path(&join_path(temp_dir, &encode(own.as_str())), &file_part)
}

/// The socket's own name comes last in its path, wherever the directory is.
pub proof fn law_the_socket_has_the_name_it_was_given(
    runtime_dir: Option<Seq<u8>>,
    home: Option<Seq<u8>>,
    temp_dir: Seq<u8>,
    uid: u32,
    app: Seq<char>,
    file: Seq<char>,
)
    ensures
        ({
            let path = socket_path(runtime_dir, home, temp_dir, uid, app, file);
            let name = encode_utf8(file);
            path.len() >= name.len() && path.skip(path.len() - name.len()) == name
        }),
{
    let name = encode_utf8(file);
    let path = socket_path(runtime_dir, home, temp_dir, uid, app, file);
    if name.len() > 0 && name[0] == 47 {
        assert(path.skip(path.len() - name.len()) =~= name);
    } else {
        assert(path.skip(path.len() - name.len()) =~= name);
    }
}

/// Two users without a directory of their own do not meet: their sockets are
/// in different directories.
pub proof fn law_users_do_not_meet(
    temp_dir: Seq<u8>,
    a: u32,
    b: u32,
    app: Seq<char>,
)
    requires
        a != b,
    ensures
        encode_utf8(app + "-"@ + crate::text::decimal(a as int)) != encode_utf8(
            app + "-"@ + crate::text::decimal(b as int),
        ),
{
    let x = app + "-"@ + crate::text::decimal(a as int);
    let y = app + "-"@ + crate::text::decimal(b as int);
    encode_utf8_decode_utf8(x);
    encode_utf8_decode_utf8(y);
    crate::pagination::lemma_decimal_is_read_back(a as int);
    crate::pagination::lemma_decimal_is_read_back(b as int);
    let n = (app + "-"@).len() as int;
    assert(x.skip(n) =~= crate::text::decimal(a as int));
    assert(y.skip(n) =~= crate::text::decimal(b as int));
}

/// Whether what is at a path belongs to a user, by who owns what is there and
/// who owns what it leads to. Not knowing is not owning.
pub fn owned_by(uid: u32, link_owner: Option<u32>, target_owner: Option<u32>) -> (r: Option<bool>)
    ensures
        r == (match link_owner {
            None => None,
            Some(l) => if l != uid {
                Some(false)
            } else {
                match target_owner {
                    None => None,
                    Some(t) => Some(t == uid),
                }
            },
        }),
{
    match link_owner {
        None => None,
        Some(l) => {
            if l != uid {
                return Some(false);
            }
            match target_owner {
                None => None,
                Some(t) => Some(t == uid),
            }
        },
    }
}

/// Where a path ends that has slashes, and dots after slashes, at its end.
pub open spec fn path_end(p: Seq<u8>, to: int) -> int
    decreases to,
{
    if to > 1 && p[to - 1] == 47 {
        path_end(p, to - 1)
    } else if to > 1 && p[to - 1] == 46 && p[to - 2] == 47 {
        path_end(p, to - 1)
    } else {
        to
    }
}

/// The position after the last `b` before `to`, or the start.
pub open spec fn after_last(p: Seq<u8>, b: u8, to: int) -> int
    decreases to,
{
    if to <= 0 {
        0
    } else if p[to - 1] == b {
        to
    } else {
        after_last(p, b, to - 1)
    }
}

/// The path of the file whose lock is the right to touch a socket: the
/// socket's, with another extension. A path that names no file stays as it is.
pub open spec fn lock_path(p: Seq<u8>) -> Seq<u8> {
    let end = path_end(p, p.len() as int);
    let start = after_last(p, 47, end);
    let name = p.subrange(start, end);
    let dot = after_last(name, 46, name.len() as int);
    if name.len() == 0 || name == seq![46u8] || name == seq![46u8, 46u8] {
        p
    } else {
        p.take(
            if dot > 1 {
                start + dot - 1
            } else {
                end
            },
        ) + encode_utf8(".lock"@)
    }
}

fn find_path_end(p: &Vec<u8>, to: usize) -> (r: usize)
    requires
        to <= p@.len(),
    ensures
        r == path_end(p@, to as int),
        r <= to,
{
    let mut end: usize = to;
    while end > 1 && (p[end - 1] == 47 || (p[end - 1] == 46 && p[end - 2] == 47))
        invariant
            end <= to <= p@.len(),
            path_end(p@, to as int) == path_end(p@, end as int),
        decreases end,
    {
        end = end - 1;
    }
    end
}

fn find_after_last(p: &Vec<u8>, b: u8, to: usize) -> (r: usize)
    requires
        to <= p@.len(),
    ensures
        r == after_last(p@, b, to as int),
        r <= to,
{
    let mut i: usize = to;
    while i > 0 && p[i - 1] != b
        invariant
            i <= to <= p@.len(),
            after_last(p@, b, to as int) == after_last(p@, b, i as int),
        decreases i,
    {
        i = i - 1;
    }
    i
}

/// The path of the file whose lock is the right to touch a socket.
pub fn lock_path_for(socket_path: &Vec<u8>) -> (r: Vec<u8>)
    ensures
        r@ == lock_path(socket_path@),
{
    let end = find_path_end(socket_path, socket_path.len());
    let start = find_after_last(socket_path, 47, end);
    let name = bytes_between(socket_path, start, end);
    proof {
        if name@.len() == 1 && name@[0] == 46 {
            assert(name@ =~= seq![46u8]);
        }
        if name@.len() == 2 && name@[0] == 46 && name@[1] == 46 {
            assert(name@ =~= seq![46u8, 46u8]);
        }
    }
    if name.len() == 0 || (name.len() == 1 && name[0] == 46) || (name.len() == 2 && name[0] == 46
        && name[1] == 46) {
        let same = bytes_between(socket_path, 0, socket_path.len());
        assert(same@ =~= socket_path@);
        return same;
    }
    let dot = find_after_last(&name, 46, name.len());
    let cut: usize = if dot > 1 {
        start + (dot - 1)
    } else {
        end
    };
    let mut out = bytes_between(socket_path, 0, cut);
    let mut extension = encode(".lock");
    let ghost ext = extension@;
    out.append(&mut extension);
    assert(out@ =~= socket_path@.take(cut as int) + ext);
    out
}

/// The directory that a path names something in, where it says which.
pub open spec fn parent(p: Seq<u8>) -> Option<Seq<u8>> {
    let end = path_end(p, p.len() as int);
    let start = after_last(p, 47, end);
    let above = path_end(p, start);
    if start == end || above == 0 {
        None
    } else {
        Some(p.take(above))
    }
}

/// The directory that a path names something in, where it says which. The
/// working directory goes without saying.
pub fn parent_of(path: &Vec<u8>) -> (r: Option<Vec<u8>>)
    ensures
        optional_path(r) == parent(path@),
{
    let end = find_path_end(path, path.len());
    let start = find_after_last(path, 47, end);
    let above = find_path_end(path, start);
    if start == end || above == 0 {
        return None;
    }
    let dir = bytes_between(path, 0, above);
    assert(dir@ =~= path@.take(above as int));
    Some(dir)
}

/// What is found last is there, and nowhere after.
proof fn lemma_after_last(p: Seq<u8>, b: u8, to: int)
    requires
        0 <= to <= p.len(),
    ensures
        ({
            let r = after_last(p, b, to);
            &&& 0 <= r <= to
            &&& r > 0 ==> p[r - 1] == b
            &&& forall|k: int| r <= k < to ==> p[k] != b
        }),
    decreases to,
{
    if to > 0 && p[to - 1] != b {
        lemma_after_last(p, b, to - 1);
    }
}

/// What is there and nowhere after is found last.
pub proof fn lemma_is_after_last(p: Seq<u8>, b: u8, r: int, to: int)
    requires
        0 <= r <= to <= p.len(),
        r > 0 ==> p[r - 1] == b,
        forall|k: int| r <= k < to ==> p[k] != b,
    ensures
        after_last(p, b, to) == r,
    decreases to,
{
    if r < to {
        lemma_is_after_last(p, b, r, to - 1);
    }
}

/// Where a path ends is within it, and depends on what comes before alone.
proof fn lemma_path_end(p: Seq<u8>, q: Seq<u8>, to: int)
    requires
        0 <= to <= p.len(),
        to <= q.len(),
        p.take(to) == q.take(to),
    ensures
        path_end(p, to) == path_end(q, to),
        0 <= path_end(p, to) <= to,
    decreases to,
{
    if to > 1 {
        assert(p[to - 1] == p.take(to)[to - 1] && q[to - 1] == q.take(to)[to - 1]);
        assert(p[to - 2] == p.take(to)[to - 2] && q[to - 2] == q.take(to)[to - 2]);
        assert(p.take(to - 1) =~= p.take(to).take(to - 1));
        assert(q.take(to - 1) =~= q.take(to).take(to - 1));
        lemma_path_end(p, q, to - 1);
    }
}

/// The name that a path ends in.
pub open spec fn file_name(p: Seq<u8>) -> Seq<u8> {
    let end = path_end(p, p.len() as int);
    p.subrange(after_last(p, 47, end), end)
}

/// The lock is beside the socket, under a name that says what it is.
pub proof fn law_the_lock_is_beside_the_socket(p: Seq<u8>)
    requires
        file_name(p).len() > 0,
        file_name(p) != seq![46u8],
        file_name(p) != seq![46u8, 46u8],
    ensures
        parent(lock_path(p)) == parent(p),
        ({
            let name = file_name(lock_path(p));
            name.len() > 5 && name.skip(name.len() - 5) == encode_utf8(".lock"@)
        }),
{
    let end = path_end(p, p.len() as int);
    lemma_path_end(p, p, p.len() as int);
    let start = after_last(p, 47, end);
    lemma_after_last(p, 47, end);
    let name = file_name(p);
    let dot = after_last(name, 46, name.len() as int);
    lemma_after_last(name, 46, name.len() as int);
    let cut = if dot > 1 {
        start + dot - 1
    } else {
        end
    };
    let ext = encode_utf8(".lock"@);
    let q = lock_path(p);
    assert(q == p.take(cut) + ext);
    reveal_strlit(".lock");
    assert(is_ascii_chars(".lock"@));
    is_ascii_chars_encode_utf8(".lock"@);
    assert(ext.len() == 5);
    assert(ext[0] == 46 && ext[1] == 108 && ext[2] == 111 && ext[3] == 99 && ext[4] == 107);
    assert(q.len() == cut + 5);
    assert forall|k: int| start <= k < q.len() implies q[k] != 47 by {
        if k < cut {
            assert(q[k] == p[k]);
        } else {
            assert(q[k] == ext[k - cut]);
        }
    }
    assert(q[q.len() - 1] == ext[4]);
    assert(path_end(q, q.len() as int) == q.len());
    if start > 0 {
        assert(q[start - 1] == p[start - 1]);
    }
    lemma_is_after_last(q, 47, start, q.len() as int);
    assert(p.take(start) =~= q.take(start));
    lemma_path_end(p, q, start);
    assert(p.take(path_end(p, start)) =~= q.take(path_end(p, start)));
    assert(file_name(q).skip(file_name(q).len() - 5) =~= ext);
}

/// A path with a name in the directory that another path is in.
pub open spec fn sibling(path: Seq<u8>, name: Seq<char>) -> Seq<u8> {
    path_with(
        match parent(path) {
            Some(dir) => dir,
            None => encode_utf8("."@),
        },
        encode_utf8(name),
    )
}

/// A path with a name in the directory that another path is in.
pub fn beside(path: &Vec<u8>, name: &str) -> (r: Vec<u8>)
    ensures
        r@ == sibling(path@, name@),
{
    let dir = match parent_of(path) {
        Some(dir) => dir,
        None => encode("."),
    };
    join_path(&dir, &encode(name))
}

/// The refusal to go on without the socket's directory.
pub fn no_directory(dir: &str, why: &str) -> (r: McpError)
    ensures
        r@ == McpErrorView::Internal(
            "failed to create socket directory "@ + dir@ + ": "@ + why@,
        ),
{
    let mut m = join3("failed to create socket directory ", dir, ": ");
    m.append(why);
    McpError::Internal(m)
}

/// What trying to take a lock came to.
#[derive(Debug)]
pub enum LockOutcome {
    Taken,
    /// Somebody else has it.
    Held,
    /// The file could not be opened, in these words.
    CannotOpen(String),
    /// It failed, in these words.
    Failed(String),
}

/// Whether the right to touch a socket is had. A lock that fails for any other
/// reason than being held is an error: it must not be taken for one.
pub fn claimed(outcome: LockOutcome, path: &str) -> (r: Result<bool, McpError>)
    ensures
        match outcome {
            LockOutcome::Taken => r == Ok::<bool, McpError>(true),
            LockOutcome::Held => r == Ok::<bool, McpError>(false),
            LockOutcome::CannotOpen(why) => r matches Err(e) && e@ == McpErrorView::Internal(
                "could not open "@ + path@ + " to claim the socket path: "@ + why@,
            ),
            LockOutcome::Failed(why) => r matches Err(e) && e@ == McpErrorView::Internal(
                "could not lock "@ + path@ + ": "@ + why@,
            ),
        },
{
    match outcome {
        LockOutcome::Taken => Ok(true),
        LockOutcome::Held => Ok(false),
        LockOutcome::CannotOpen(why) => {
            let mut m = join3("could not open ", path, " to claim the socket path: ");
            m.append(why.as_str());
            Err(McpError::Internal(m))
        },
        LockOutcome::Failed(why) => {
            let mut m = join3("could not lock ", path, ": ");
            m.append(why.as_str());
            Err(McpError::Internal(m))
        },
    }
}

/// The name of a file in which a process id is written before it is put in
/// place, from sixteen bytes.
pub fn pid_temp_name(nonce: &Vec<u8>) -> (r: String)
    ensures
        r@ == ".sml-mcps-pid-"@ + crate::tasks::hex(nonce@),
{
    join(".sml-mcps-pid-", hex_text(nonce).as_str())
}

/// Such a name from what the source of chance gave: all sixteen bytes of it,
/// in order, or its words where it gave none.
pub fn pid_temp_name_from(entropy: Result<[u8; 16], String>) -> (r: Result<String, String>)
    ensures
        match entropy {
            Ok(bytes) => r matches Ok(name) && name@ == ".sml-mcps-pid-"@ + crate::tasks::hex(
                bytes@,
            ),
            Err(why) => r matches Err(e) && e@ == why@,
        },
{
    match entropy {
        Err(why) => Err(why),
        Ok(bytes) => Ok(pid_temp_name(&bytes_from(Some(bytes), 0, 0))),
    }
}

/// A new such name, or the words of the source of chance where it gave none.
pub fn new_pid_temp_name() -> (r: Result<String, String>)
    ensures
        match r {
            Ok(name) => exists|bytes: [u8; 16]| #[trigger]
                crate::tasks::given_by_system(Ok(bytes)) && name@ == ".sml-mcps-pid-"@
                    + crate::tasks::hex(bytes@),
            Err(e) => exists|why: String| #[trigger]
                crate::tasks::given_by_system(Err(why)) && e@ == why@,
        },
{
    pid_temp_name_from(draw())
}

} // verus!
