//! Where Discord listens.
use crate::text;
use vstd::prelude::*;
use vstd::string::*;

verus! {

broadcast use vstd::string::group_string_axioms;

/// A path with one more part.
pub open spec fn path_join(base: Seq<char>, part: Seq<char>) -> Seq<char> {
    if base.len() == 0 || base.last() == '/' {
        base + part
    } else {
        base.push('/') + part
    }
}

/// A path with one more part. The part is relative.
pub fn join_path(base: &str, part: &str) -> (r: String)
    ensures
        r@ == path_join(base@, part@),
{
    let chars = text::chars_of(base);
    let mut r = base.to_string();
    if chars.len() > 0 && chars[chars.len() - 1] != '/' {
        r.push('/');
    }
    r.append(part);
    r
}

/// The three directories that the socket may stand in.
pub open spec fn socket_dirs(runtime_dir: Seq<char>) -> Seq<Seq<char>> {
    seq![runtime_dir, path_join(runtime_dir, "app/com.discordapp.Discord"@), "/tmp"@]
}

/// The socket with the number `i` in a directory.
pub open spec fn socket_path(dir: Seq<char>, i: nat) -> Seq<char> {
    path_join(dir, "discord-ipc-"@ + text::decimal(i))
}

/// The runtime directory of a user who has none set.
pub fn default_runtime_dir(uid: u32) -> (r: String)
    ensures
        r@ == "/run/user/"@ + text::decimal(uid as nat),
{
    let mut r = "/run/user/".to_string();
    let id = text::decimal_text(uid as u64);
    r.append(id.as_str());
    r
}

/// The paths to look for the socket at, in order: ten numbers in each of the three directories.
pub fn socket_candidates(runtime_dir: &str) -> (r: Vec<String>)
    ensures
        r@.len() == 30,
        forall|k: int|
            0 <= k < 30 ==> (#[trigger] r@[k])@ == socket_path(
                socket_dirs(runtime_dir@)[k / 10],
                (k % 10) as nat,
            ),
{
    let mut dirs: Vec<String> = Vec::new();
    dirs.push(runtime_dir.to_string());
    dirs.push(join_path(runtime_dir, "app/com.discordapp.Discord"));
    dirs.push("/tmp".to_string());
    let mut r: Vec<String> = Vec::new();
    let mut k: usize = 0;
    while k < 30
        invariant
            k <= 30,
            r@.len() == k,
            dirs@.len() == 3,
            dirs@[0]@ == socket_dirs(runtime_dir@)[0],
            dirs@[1]@ == socket_dirs(runtime_dir@)[1],
            dirs@[2]@ == socket_dirs(runtime_dir@)[2],
            forall|j: int|
                0 <= j < k ==> (#[trigger] r@[j])@ == socket_path(
                    socket_dirs(runtime_dir@)[j / 10],
                    (j % 10) as nat,
                ),
        decreases 30 - k,
    {
        let mut name = "discord-ipc-".to_string();
        let number = text::decimal_text((k % 10) as u64);
        name.append(number.as_str());
        let path = join_path(dirs[k / 10].as_str(), name.as_str());
        r.push(path);
        k += 1;
    }
    r
}

/// The socket is looked for in the runtime directory, then in that of the sandboxed client, then in
/// `/tmp`, as `discord-ipc-` with a number.
pub proof fn sockets_are_looked_for_in_three_places(dir: Seq<char>, i: nat)
    requires
        dir.len() > 0,
        dir.last() != '/',
    ensures
        socket_dirs(dir).len() == 3,
        socket_path(socket_dirs(dir)[0], i) == dir + "/discord-ipc-"@ + text::decimal(i),
        socket_path(socket_dirs(dir)[1], i) == dir + "/app/com.discordapp.Discord/discord-ipc-"@
            + text::decimal(i),
        socket_path(socket_dirs(dir)[2], i) == "/tmp/discord-ipc-"@ + text::decimal(i),
{
    reveal_strlit("/tmp");
    reveal_strlit("app/com.discordapp.Discord");
    reveal_strlit("discord-ipc-");
    reveal_strlit("/discord-ipc-");
    reveal_strlit("/app/com.discordapp.Discord/discord-ipc-");
    reveal_strlit("/tmp/discord-ipc-");
    let n = text::decimal(i);
    assert(socket_path(dir, i) =~= dir + "/discord-ipc-"@ + n);
    let inner = path_join(dir, "app/com.discordapp.Discord"@);
    assert(inner.last() == "app/com.discordapp.Discord"@[25]);
    assert("/app/com.discordapp.Discord/discord-ipc-"@ =~= seq!['/'] + "app/com.discordapp.Discord"@
        + seq!['/'] + "discord-ipc-"@);
    assert(socket_path(inner, i) =~= dir + "/app/com.discordapp.Discord/discord-ipc-"@ + n);
    assert("/tmp"@.last() == "/tmp"@[3]);
    assert("/tmp/discord-ipc-"@ =~= "/tmp"@ + "/discord-ipc-"@);
    assert(socket_path("/tmp"@, i) =~= "/tmp/discord-ipc-"@ + n);
}

/// A directory that ends with a slash gets no second one.
pub proof fn slashes_are_not_doubled(dir: Seq<char>, part: Seq<char>)
    ensures
        dir.len() > 0 && dir.last() == '/' ==> path_join(dir, part) == dir + part,
        dir.len() > 0 && dir.last() != '/' ==> path_join(dir, part) == dir + seq!['/'] + part,
        path_join(Seq::empty(), part) == part,
{
    assert(Seq::<char>::empty() + part =~= part);
    assert(dir.push('/') =~= dir + seq!['/']);
}

} // verus!
