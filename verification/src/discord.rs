//! Where the Discord client's IPC sockets are looked for.
use vstd::prelude::*;
use crate::cover::cache::strs;
use crate::text::{concat_str, decimal, decimal_string};

verus! {

broadcast use vstd::string::group_string_axioms;

/// The directory searched when `XDG_RUNTIME_DIR` is not set.
pub const FALLBACK_RUNTIME_DIR: &'static str = "/tmp";

/// Directory of the Flatpak client's sockets, relative to the runtime
/// directory.
pub const FLATPAK_SOCKET_DIR: &'static str = "app/com.discordapp.Discord/";

/// The runtime directory the sockets live in: `XDG_RUNTIME_DIR` when set.
pub fn runtime_dir(xdg_runtime_dir: Option<String>) -> (r: String)
    ensures
        r@ == match xdg_runtime_dir { Some(d) => d@, None => FALLBACK_RUNTIME_DIR@ },
{
    match xdg_runtime_dir {
        Some(d) => d,
        None => FALLBACK_RUNTIME_DIR.to_string(),
    }
}

/// The socket paths, relative to the runtime directory, in the order they
/// are tried: `discord-ipc-0` to `discord-ipc-9`, then the same names in
/// the Flatpak client's directory.
pub open spec fn socket_names_spec() -> Seq<Seq<char>> {
    Seq::new(20, |i: int| if i < 10 {
        "discord-ipc-"@ + decimal(i as nat)
    } else {
        FLATPAK_SOCKET_DIR@ + "discord-ipc-"@ + decimal((i - 10) as nat)
    })
}

/// The socket paths to try, relative to the runtime directory; Discord is
/// taken to be running when one of them exists.
pub fn discord_socket_names() -> (r: Vec<String>)
    ensures
        strs(r@) == socket_names_spec(),
{
    let mut out: Vec<String> = Vec::new();
    let mut i: u64 = 0;
    while i < 20
        invariant
            i <= 20,
            out@.len() == i,
            forall|k: int| 0 <= k < i ==> #[trigger] strs(out@)[k] == socket_names_spec()[k],
        decreases 20 - i,
    {
        let name = if i < 10 {
            concat_str("discord-ipc-", decimal_string(i).as_str())
        } else {
            let base = concat_str(FLATPAK_SOCKET_DIR, "discord-ipc-");
            concat_str(base.as_str(), decimal_string(i - 10).as_str())
        };
        let ghost before = out@;
        out.push(name);
        assert(name@ == socket_names_spec()[i as int]);
        assert forall|k: int| 0 <= k < i + 1 implies #[trigger] strs(out@)[k] == socket_names_spec()[k] by {
            if k < i {
                assert(strs(before)[k] == socket_names_spec()[k]);
                assert(out@[k] == before[k]);
            } else {
                assert(out@[k] == name);
            }
        }
        i += 1;
    }
    assert(strs(out@) =~= socket_names_spec());
    out
}

} // verus!
