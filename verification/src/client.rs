//! Rules about the client application: which path text the user gave, which
//! names a client executable may have, how it is started for the skin, and
//! what the launcher reports.

use vstd::prelude::*;
use vstd::string::*;
use crate::text::{decimal, push_decimal, same_text, str_chars, trim, trim_bounds};

verus! {

/// The desktop platform whose conventions a message or rule follows.
#[derive(PartialEq, Eq, Structural, Clone, Copy, Debug)]
pub enum Platform {
    MacOs,
    Windows,
}

/// Whether the configured executable is blank, so that the client has to be
/// looked for.
pub fn needs_discovery(executable: &str) -> (res: bool)
    ensures
        res == (trim(executable@).len() == 0),
{
    let cs = str_chars(executable);
    let (a, b) = trim_bounds(&cs, 0, cs.len());
    assert(cs@.subrange(0, cs@.len() as int) =~= cs@);
    a == b
}

/// `s` without leading double quotes.
pub open spec fn trim_quotes_start(s: Seq<char>) -> Seq<char>
    decreases s.len(),
{
    if s.len() > 0 && s[0] == '"' {
        trim_quotes_start(s.drop_first())
    } else {
        s
    }
}

/// `s` without trailing double quotes.
pub open spec fn trim_quotes_end(s: Seq<char>) -> Seq<char>
    decreases s.len(),
{
    if s.len() > 0 && s.last() == '"' {
        trim_quotes_end(s.drop_last())
    } else {
        s
    }
}

/// A path as the user typed or pasted it, cleaned: surrounding white space
/// removed, then surrounding double quotes.
pub open spec fn clean_path(s: Seq<char>) -> Seq<char> {
    trim_quotes_end(trim_quotes_start(trim(s)))
}

proof fn lemma_quotes_start(s: Seq<char>, a: int, b: int, i: int)
    requires
        0 <= a <= i <= b <= s.len(),
        forall|j: int| a <= j < i ==> s[j] == '"',
    ensures
        trim_quotes_start(s.subrange(a, b)) == trim_quotes_start(s.subrange(i, b)),
    decreases i - a,
{
    if a < i {
        assert(s.subrange(a, b).drop_first() =~= s.subrange(a + 1, b));
        lemma_quotes_start(s, a + 1, b, i);
    }
}

proof fn lemma_quotes_end(s: Seq<char>, a: int, b: int, i: int)
    requires
        0 <= a <= i <= b <= s.len(),
        forall|j: int| i <= j < b ==> s[j] == '"',
    ensures
        trim_quotes_end(s.subrange(a, b)) == trim_quotes_end(s.subrange(a, i)),
    decreases b - i,
{
    if i < b {
        assert(s.subrange(a, b).drop_last() =~= s.subrange(a, b - 1));
        lemma_quotes_end(s, a, b - 1, i);
    }
}

/// The path text with surrounding white space and double quotes removed.
pub fn clean_path_text(path: &str) -> (res: &str)
    ensures
        res@ == clean_path(path@),
{
    let cs = str_chars(path);
    let (a, b) = trim_bounds(&cs, 0, cs.len());
    assert(cs@.subrange(0, cs@.len() as int) =~= cs@);
    let mut i: usize = a;
    while i < b && cs[i] == '"'
        invariant
            a <= i <= b <= cs.len(),
            forall|j: int| a <= j < i ==> cs@[j] == '"',
        decreases b - i,
    {
        i = i + 1;
    }
    proof {
        lemma_quotes_start(cs@, a as int, b as int, i as int);
        if i < b {
            assert(cs@.subrange(i as int, b as int)[0] != '"');
        }
    }
    let mut k: usize = b;
    while k > i && cs[k - 1] == '"'
        invariant
            i <= k <= b <= cs.len(),
            forall|j: int| k <= j < b ==> cs@[j] == '"',
        decreases k - i,
    {
        k = k - 1;
    }
    proof {
        lemma_quotes_end(cs@, i as int, b as int, k as int);
        if k > i {
            assert(cs@.subrange(i as int, k as int).last() != '"');
        }
    }
    path.substring_char(i, k)
}

/// The bundle identifier of the desktop client.
pub open spec fn client_bundle_id() -> Seq<char> {
    "com.openai.codex"@
}

/// Whether a macOS bundle identifier is the desktop client's.
pub fn is_client_bundle_id(id: &str) -> (res: bool)
    ensures
        res == (id@ == client_bundle_id()),
{
    same_text(id, "com.openai.codex")
}

/// Whether a bundle's executable name is usable: not empty, no `/`, and not
/// `.` or `..`.
pub open spec fn valid_bundle_executable(name: Seq<char>) -> bool {
    &&& name.len() > 0
    &&& !name.contains('/')
    &&& name != "."@
    &&& name != ".."@
}

/// Whether the executable name read from a bundle's `Info.plist` may be used.
pub fn bundle_executable_ok(name: &str) -> (res: bool)
    ensures
        res == valid_bundle_executable(name@),
{
    let cs = str_chars(name);
    if cs.len() == 0 {
        return false;
    }
    let mut i: usize = 0;
    while i < cs.len()
        invariant
            i <= cs.len(),
            cs@ == name@,
            forall|j: int| 0 <= j < i ==> cs@[j] != '/',
        decreases cs.len() - i,
    {
        if cs[i] == '/' {
            return false;
        }
        i = i + 1;
    }
    !same_text(name, ".") && !same_text(name, "..")
}

/// Whether a Windows file name is one of the client's executables,
/// `codex.exe` or `chatgpt.exe` once lowercased.
pub open spec fn is_client_exe_name(name: Seq<char>) -> bool {
    lowercase(name) == "codex.exe"@ || lowercase(name) == "chatgpt.exe"@
}

/// Whether `name` names a client executable on Windows.
pub fn client_exe_name_ok(name: &str) -> (res: bool)
    ensures
        res == is_client_exe_name(name@),
{
    let lower = to_lowercase(name);
    same_text(lower.as_str(), "codex.exe") || same_text(lower.as_str(), "chatgpt.exe")
}

/// The lowercase form of `s`, as `str::to_lowercase` gives it.
pub uninterp spec fn lowercase(s: Seq<char>) -> Seq<char>;

/// Calls `str::to_lowercase`. Claimed: the result is `lowercase` of the
/// argument's characters, a function of them alone; the Unicode case
/// mapping itself is left to std.
#[verifier::external_body]
pub(crate) fn to_lowercase(s: &str) -> (res: String)
    ensures
        res@ == lowercase(s@),
{
    s.to_lowercase()
}

/// `s` without any number of leading copies of `prefix`.
pub open spec fn trim_prefix_copies(s: Seq<char>, prefix: Seq<char>) -> Seq<char>
    decreases s.len(),
{
    if prefix.len() > 0 && prefix.len() <= s.len() && s.take(prefix.len() as int) == prefix {
        trim_prefix_copies(s.skip(prefix.len() as int), prefix)
    } else {
        s
    }
}

/// The form in which two Windows paths are compared: without the `\\?\`
/// prefixes of verbatim paths, lowercased.
pub open spec fn windows_path_key(path: Seq<char>) -> Seq<char> {
    lowercase(trim_prefix_copies(path, "\\\\?\\"@))
}

fn verbatim_prefix_end(cs: &Vec<char>) -> (res: usize)
    ensures
        res <= cs@.len(),
        cs@.skip(res as int) == trim_prefix_copies(cs@, "\\\\?\\"@),
{
    proof {
        reveal_strlit("\\\\?\\");
    }
    let mut i: usize = 0;
    assert(cs@.skip(0) =~= cs@);
    while cs.len() - i >= 4 && cs[i] == '\\' && cs[i + 1] == '\\' && cs[i + 2] == '?' && cs[i + 3] == '\\'
        invariant
            i <= cs@.len(),
            "\\\\?\\"@ == seq!['\\', '\\', '?', '\\'],
            trim_prefix_copies(cs@, "\\\\?\\"@) == trim_prefix_copies(cs@.skip(i as int), "\\\\?\\"@),
        decreases cs.len() - i,
    {
        assert(cs@.skip(i as int).take(4) =~= "\\\\?\\"@);
        assert(cs@.skip(i as int).skip(4) =~= cs@.skip(i + 4));
        i = i + 4;
    }
    assert(!(4 <= cs@.skip(i as int).len() && cs@.skip(i as int).take(4) == "\\\\?\\"@)) by {
        if 4 <= cs@.skip(i as int).len() && cs@.skip(i as int).take(4) == "\\\\?\\"@ {
            assert(cs@.skip(i as int).take(4)[0] == cs@[i as int]);
            assert(cs@.skip(i as int).take(4)[1] == cs@[i + 1]);
            assert(cs@.skip(i as int).take(4)[2] == cs@[i + 2]);
            assert(cs@.skip(i as int).take(4)[3] == cs@[i + 3]);
        }
    }
    i
}

/// Whether two Windows paths (already made canonical where possible) name
/// the same file: equal after dropping verbatim prefixes and lowercasing.
pub fn same_windows_path(a: &str, b: &str) -> (res: bool)
    ensures
        res == (windows_path_key(a@) == windows_path_key(b@)),
{
    let ca = str_chars(a);
    let cb = str_chars(b);
    let ia = verbatim_prefix_end(&ca);
    let ib = verbatim_prefix_end(&cb);
    let la = to_lowercase(a.substring_char(ia, ca.len()));
    let lb = to_lowercase(b.substring_char(ib, cb.len()));
    assert(ca@.subrange(ia as int, ca@.len() as int) =~= ca@.skip(ia as int));
    assert(cb@.subrange(ib as int, cb@.len() as int) =~= cb@.skip(ib as int));
    la == lb
}

/// Whether one entry of the Windows process snapshot shows the client
/// running: its executable name is a client's, it runs in the launcher's
/// session, and either its image path could not be read (`None`; such a
/// process counts as running, to be safe) or that path is the same as `exe`.
pub open spec fn counts_as_running(name: Seq<char>, same_session: bool, image: Option<Seq<char>>, exe: Seq<char>) -> bool {
    &&& is_client_exe_name(name)
    &&& same_session
    &&& match image {
        None => true,
        Some(path) => windows_path_key(path) == windows_path_key(exe),
    }
}

/// Whether the snapshot entry named `name` shows the client `exe` running;
/// `image` is the entry's (canonical) image path, `None` when it could not
/// be read. Both paths are compared as `same_windows_path` compares them.
pub fn process_counts_as_running(name: &str, same_session: bool, image: Option<&str>, exe: &str) -> (res: bool)
    ensures
        res == counts_as_running(name@, same_session, match image {
            Some(p) => Some(p@),
            None => None,
        }, exe@),
{
    if !client_exe_name_ok(name) || !same_session {
        return false;
    }
    match image {
        None => true,
        Some(path) => same_windows_path(path, exe),
    }
}

/// `name` appended to the Unix path `base` as `PathBuf::push` appends a
/// relative name: with a `/` between them unless `base` is empty or already
/// ends with one.
pub open spec fn unix_join(base: Seq<char>, name: Seq<char>) -> Seq<char> {
    if base.len() == 0 || base.last() == '/' {
        base + name
    } else {
        base + "/"@ + name
    }
}

/// The relative name `name` appended to the Unix path `base`.
pub fn join_unix_path(base: &str, name: &str) -> (res: String)
    ensures
        res@ == unix_join(base@, name@),
{
    let cs = str_chars(base);
    let mut out = base.to_owned();
    if cs.len() > 0 && cs[cs.len() - 1] != '/' {
        out.append("/");
    }
    out.append(name);
    out
}

/// The bundles where the client is looked for first on macOS, in order:
/// `Codex.app`, then `ChatGPT.app`, in `/Applications`, then in the
/// `Applications` folder of the home folder `home` when it is known.
pub open spec fn discovery_candidates(home: Option<Seq<char>>) -> Seq<Seq<char>> {
    let system = seq![unix_join("/Applications"@, "Codex.app"@), unix_join("/Applications"@, "ChatGPT.app"@)];
    match home {
        Some(h) => system + seq![
            unix_join(unix_join(h, "Applications"@), "Codex.app"@),
            unix_join(unix_join(h, "Applications"@), "ChatGPT.app"@),
        ],
        None => system,
    }
}

/// The bundle paths tried, in order, before a search of the whole disk.
pub fn discovery_candidate_paths(home: Option<&str>) -> (res: Vec<String>)
    ensures
        res@.map_values(|p: String| p@) == discovery_candidates(match home {
            Some(h) => Some(h@),
            None => None,
        }),
{
    let mut out: Vec<String> = Vec::new();
    out.push(join_unix_path("/Applications", "Codex.app"));
    out.push(join_unix_path("/Applications", "ChatGPT.app"));
    match home {
        Some(h) => {
            let user = join_unix_path(h, "Applications");
            out.push(join_unix_path(user.as_str(), "Codex.app"));
            out.push(join_unix_path(user.as_str(), "ChatGPT.app"));
        },
        None => {},
    }
    assert(out@.map_values(|p: String| p@) =~= discovery_candidates(match home {
        Some(h) => Some(h@),
        None => None,
    }));
    out
}

/// The extra command-line arguments that open the client's debugging
/// endpoint on the loopback address at `port`, and, when given, put its
/// profile in `profile`.
pub open spec fn debugging_args(port: u16, profile: Option<Seq<char>>) -> Seq<Seq<char>> {
    let base = seq![
        "--remote-debugging-address=127.0.0.1"@,
        "--remote-debugging-port="@ + decimal(port as nat),
    ];
    match profile {
        Some(p) => base.push("--user-data-dir="@ + p),
        None => base,
    }
}

/// The arguments that start the client with its debugging endpoint on `port`.
pub fn debugging_arguments(port: u16, profile: Option<&str>) -> (res: Vec<String>)
    ensures
        res@.map_values(|a: String| a@) == debugging_args(port, match profile {
            Some(p) => Some(p@),
            None => None,
        }),
{
    let mut args: Vec<String> = Vec::new();
    args.push("--remote-debugging-address=127.0.0.1".to_owned());
    let mut port_arg = "--remote-debugging-port=".to_owned();
    push_decimal(&mut port_arg, port as u64);
    args.push(port_arg);
    match profile {
        Some(p) => {
            let mut dir = "--user-data-dir=".to_owned();
            dir.append(p);
            args.push(dir);
        },
        None => {},
    }
    assert(args@.map_values(|a: String| a@) =~= debugging_args(port, match profile {
        Some(p) => Some(p@),
        None => None,
    }));
    args
}

/// What the launcher reports after starting the client.
pub open spec fn launched_text(platform: Platform, dream_skin: bool) -> Seq<char> {
    if !dream_skin {
        "Codex 已按所选时区启动（Dream Skin 兼容启动未开启）。"@
    } else if platform == Platform::MacOs {
        "Codex 已按所选时区启动，Dream Skin 已验证应用。"@
    } else {
        "Codex 已按所选时区启动，Dream Skin 已应用皮肤。"@
    }
}

/// The report after the client was started (and, with skin compatibility,
/// the skin applied).
pub fn launched_message(platform: Platform, dream_skin: bool) -> (res: String)
    ensures
        res@ == launched_text(platform, dream_skin),
{
    if !dream_skin {
        "Codex 已按所选时区启动（Dream Skin 兼容启动未开启）。".to_owned()
    } else if platform == Platform::MacOs {
        "Codex 已按所选时区启动，Dream Skin 已验证应用。".to_owned()
    } else {
        "Codex 已按所选时区启动，Dream Skin 已应用皮肤。".to_owned()
    }
}

/// The refusal when the chosen client is already running.
pub open spec fn already_running_text(platform: Platform) -> Seq<char> {
    if platform == Platform::MacOs {
        "客户端正在运行，请保存工作并完全退出 Codex / ChatGPT 后重试。"@
    } else {
        "客户端正在运行，请保存工作并完全退出 Codex 后重试。"@
    }
}

/// The refusal when the chosen client is already running.
pub fn already_running_message(platform: Platform) -> (res: String)
    ensures
        res@ == already_running_text(platform),
{
    if platform == Platform::MacOs {
        "客户端正在运行，请保存工作并完全退出 Codex / ChatGPT 后重试。".to_owned()
    } else {
        "客户端正在运行，请保存工作并完全退出 Codex 后重试。".to_owned()
    }
}

} // verus!
