//! Where the control socket lives.

use vstd::prelude::*;

use crate::text::{cat2, cat3, chars_of, decimal, decimal_of};

verus! {

/// A path with one more name behind it.
pub open spec fn path_join(dir: Seq<char>, name: Seq<char>) -> Seq<char> {
    if dir.len() == 0 {
        name
    } else if dir.last() == '/' {
        dir + name
    } else {
        dir + "/"@ + name
    }
}

/// Joins a relative name to a path.
pub fn join(dir: &str, name: &str) -> (r: String)
    ensures
        r@ == path_join(dir@, name@),
{
    let v = chars_of(dir);
    if v.len() == 0 {
        name.to_owned()
    } else if v[v.len() - 1] == '/' {
        cat2(dir, name)
    } else {
        cat3(dir, "/", name)
    }
}

/// A setting that is there and not empty.
pub open spec fn given(value: Option<&str>) -> bool {
    value is Some && value->0@.len() > 0
}

/// The directory of the socket: the one that is set, else the user's own
/// runtime directory, else one per user among the temporary files.
pub open spec fn socket_dir_of(
    runtime_dir: Option<&str>,
    xdg_runtime_dir: Option<&str>,
    temp_dir: Seq<char>,
    uid: u32,
) -> Seq<char> {
    if given(runtime_dir) {
        runtime_dir->0@
    } else if given(xdg_runtime_dir) {
        path_join(xdg_runtime_dir->0@, "kovee"@)
    } else {
        path_join(temp_dir, "kovee-"@ + decimal_of(uid as nat))
    }
}

/// The directory of the socket.
pub fn socket_dir(
    runtime_dir: Option<&str>,
    xdg_runtime_dir: Option<&str>,
    temp_dir: &str,
    uid: u32,
) -> (r: String)
    ensures
        r@ == socket_dir_of(runtime_dir, xdg_runtime_dir, temp_dir@, uid),
{
    if let Some(dir) = runtime_dir {
        if !dir.is_empty() {
            return dir.to_owned();
        }
    }
    if let Some(dir) = xdg_runtime_dir {
        if !dir.is_empty() {
            return join(dir, "kovee");
        }
    }
    let n = decimal(uid as u64);
    let name = cat2("kovee-", n.as_str());
    join(temp_dir, name.as_str())
}

/// The path of the control socket.
pub fn socket_path(
    runtime_dir: Option<&str>,
    xdg_runtime_dir: Option<&str>,
    temp_dir: &str,
    uid: u32,
) -> (r: String)
    ensures
        r@ == path_join(
            socket_dir_of(runtime_dir, xdg_runtime_dir, temp_dir@, uid),
            "kovee.sock"@,
        ),
{
    let dir = socket_dir(runtime_dir, xdg_runtime_dir, temp_dir, uid);
    join(dir.as_str(), "kovee.sock")
}

/// Why the socket was not bound.
#[derive(Debug, PartialEq, Eq)]
pub enum BindError {
    Io(String),
}

impl BindError {
    /// The error in words.
    pub fn message(&self) -> (r: String)
        ensures
            match self {
                BindError::Io(e) => r@ == "socket io: "@ + e@,
            },
    {
        match self {
            BindError::Io(e) => cat2("socket io: ", e.as_str()),
        }
    }
}

/// Two daemons of two users never share a socket directory among the temporary
/// files: the names differ where the user does.
pub proof fn a_directory_per_user(temp_dir: Seq<char>, a: u32, b: u32)
    requires
        socket_dir_of(None, None, temp_dir, a) == socket_dir_of(None, None, temp_dir, b),
    ensures
        a == b,
{
    let x = "kovee-"@ + decimal_of(a as nat);
    let y = "kovee-"@ + decimal_of(b as nat);
    path_join_injective(temp_dir, x, y);
    assert(x.skip("kovee-"@.len() as int) =~= decimal_of(a as nat));
    assert(y.skip("kovee-"@.len() as int) =~= decimal_of(b as nat));
    decimal_injective(a as nat, b as nat);
}

proof fn path_join_injective(dir: Seq<char>, x: Seq<char>, y: Seq<char>)
    requires
        path_join(dir, x) == path_join(dir, y),
    ensures
        x == y,
{
    let p = path_join(dir, x);
    let q = path_join(dir, y);
    if dir.len() > 0 {
        if dir.last() == '/' {
            assert(p.skip(dir.len() as int) =~= x);
            assert(q.skip(dir.len() as int) =~= y);
        } else {
            let n = (dir + "/"@).len() as int;
            assert(p.skip(n) =~= x);
            assert(q.skip(n) =~= y);
        }
    }
}

proof fn decimal_injective(a: nat, b: nat)
    requires
        decimal_of(a) == decimal_of(b),
        a <= u64::MAX,
        b <= u64::MAX,
    ensures
        a == b,
    decreases a,
{
    decimal_nonempty(a);
    decimal_nonempty(b);
    let x = decimal_of(a);
    let y = decimal_of(b);
    assert(x.last() == y.last());
    assert(x.last() == crate::text::digit(a % 10));
    assert(y.last() == crate::text::digit(b % 10));
    assert(a % 10 == b % 10);
    if a < 10 {
        if b >= 10 {
            decimal_nonempty(b / 10);
        }
    } else if b < 10 {
        decimal_nonempty(a / 10);
    } else {
        assert(x.drop_last() =~= decimal_of(a / 10));
        assert(y.drop_last() =~= decimal_of(b / 10));
        decimal_injective(a / 10, b / 10);
    }
}

proof fn decimal_nonempty(n: nat)
    ensures
        decimal_of(n).len() > 0,
{
}

/// A path is joined by one slash where the directory does not end in one, and by
/// none where it does or is empty; it ends in the name.
pub proof fn a_path_is_joined_by_one_slash(dir: Seq<char>, name: Seq<char>)
    ensures
        dir.len() == 0 ==> path_join(dir, name) == name,
        dir.len() > 0 && dir.last() == '/' ==> path_join(dir, name) == dir + name,
        dir.len() > 0 && dir.last() != '/' ==> path_join(dir, name) == dir.push('/') + name,
        path_join(dir, name).skip(path_join(dir, name).len() - name.len()) == name,
        path_join(dir, name).take(dir.len() as int) == dir,
{
    reveal_strlit("/");
    assert("/"@ =~= seq!['/']);
    assert(dir + "/"@ =~= dir.push('/'));
    let p = path_join(dir, name);
    assert(p.skip(p.len() - name.len()) =~= name);
    assert(p.take(dir.len() as int) =~= dir);
}

/// The socket's directory is the daemon's own where that is set; else one in the
/// runtime directory; else one of the user's own in the temporary directory. An
/// empty setting counts as none.
pub proof fn a_socket_dir_is_the_first_that_is_given(
    own: Option<&str>,
    xdg: Option<&str>,
    temp: Seq<char>,
    uid: u32,
)
    ensures
        own is Some && own->0@.len() > 0 ==> socket_dir_of(own, xdg, temp, uid) == own->0@,
        (own is None || own->0@.len() == 0) && xdg is Some && xdg->0@.len() > 0 ==> socket_dir_of(
            own,
            xdg,
            temp,
            uid,
        ) == path_join(xdg->0@, "kovee"@),
        (own is None || own->0@.len() == 0) && (xdg is None || xdg->0@.len() == 0)
            ==> socket_dir_of(own, xdg, temp, uid) == path_join(
            temp,
            "kovee-"@ + decimal_of(uid as nat),
        ),
{
}

} // verus!
