//! The skin tool's saved state, the debugging port it asks for, and which of
//! its installed script folders the launcher runs.

use vstd::prelude::*;
use crate::client::Platform;
use crate::json::{
    json_error_text, json_string_member, json_u64_member, json_parse_error, lookup_json_string,
    lookup_json_u64,
};
use crate::text::{str_chars, trim, trim_bounds};

verus! {

/// What the launcher reads from the skin tool's `state.json`.
#[derive(Debug)]
pub struct SkinState {
    /// The `port` member, when it is a non-negative integer.
    pub port: Option<u64>,
    /// The `injectorPath` member, when it is a string.
    pub injector_path: Option<String>,
    /// The `profilePath` member, when it is a string.
    pub profile_path: Option<String>,
}

/// The fields of a `SkinState`, by their plain values.
pub struct SkinStateView {
    pub port: Option<u64>,
    pub injector_path: Option<Seq<char>>,
    pub profile_path: Option<Seq<char>>,
}

impl View for SkinState {
    type V = SkinStateView;

    open spec fn view(&self) -> SkinStateView {
        SkinStateView {
            port: self.port,
            injector_path: self.injector_path.deep_view(),
            profile_path: self.profile_path.deep_view(),
        }
    }
}

impl SkinState {
    /// The state of a tool that has saved none: every member absent.
    pub fn empty() -> (res: SkinState)
        ensures
            res@.port is None,
            res@.injector_path is None,
            res@.profile_path is None,
    {
        SkinState { port: None, injector_path: None, profile_path: None }
    }
}

/// The state that the JSON document `doc` records, or the parser's error text.
pub open spec fn spec_skin_state(doc: Seq<u8>) -> Result<SkinStateView, Seq<char>> {
    match json_error_text(doc) {
        Some(e) => Err(e),
        None => Ok(SkinStateView {
            port: json_u64_member(doc, "port"@),
            injector_path: json_string_member(doc, "injectorPath"@),
            profile_path: json_string_member(doc, "profilePath"@),
        }),
    }
}

/// Reads the skin tool's state from the bytes of its `state.json`.
pub fn read_skin_state(doc: &[u8]) -> (res: Result<SkinState, String>)
    ensures
        match res {
            Ok(st) => spec_skin_state(doc@) == Ok::<SkinStateView, Seq<char>>(st@),
            Err(e) => spec_skin_state(doc@) == Err::<SkinStateView, Seq<char>>(e@),
        },
{
    match json_parse_error(doc) {
        Some(e) => Err(e),
        None => Ok(SkinState {
            port: lookup_json_u64(doc, "port"),
            injector_path: lookup_json_string(doc, "injectorPath"),
            profile_path: lookup_json_string(doc, "profilePath"),
        }),
    }
}

/// The port the skin tool uses when its state names none.
pub open spec fn default_skin_port(platform: Platform) -> u16 {
    if platform == Platform::MacOs {
        9341
    } else {
        9335
    }
}

/// The refusal of a port outside 1024..=65535.
pub open spec fn bad_port_text() -> Seq<char> {
    "Dream Skin 端口无效。"@
}

/// The debugging port that the skin tool expects: the saved one, or the
/// platform's default; refused outside 1024..=65535.
pub open spec fn spec_skin_port(port: Option<u64>, platform: Platform) -> Result<u16, Seq<char>> {
    let p: int = match port {
        Some(p) => p as int,
        None => default_skin_port(platform) as int,
    };
    if 1024 <= p <= 65535 {
        Ok(p as u16)
    } else {
        Err(bad_port_text())
    }
}

/// The debugging port for the skin tool whose state is `state`.
pub fn skin_port(state: &SkinState, platform: Platform) -> (res: Result<u16, String>)
    ensures
        match res {
            Ok(p) => spec_skin_port(state@.port, platform) == Ok::<u16, Seq<char>>(p),
            Err(e) => spec_skin_port(state@.port, platform) == Err::<u16, Seq<char>>(e@),
        },
{
    let port: u64 = match state.port {
        Some(p) => p,
        None => if platform == Platform::MacOs {
            9341
        } else {
            9335
        },
    };
    if 1024 <= port && port <= 65535 {
        Ok(port as u16)
    } else {
        Err("Dream Skin 端口无效。".to_owned())
    }
}

/// The profile folder that the state asks for, unless it is blank.
pub open spec fn spec_profile_setting(state: SkinStateView) -> Option<Seq<char>> {
    match state.profile_path {
        Some(p) => if trim(p).len() > 0 {
            Some(p)
        } else {
            None
        },
        None => None,
    }
}

/// The profile folder the state names, when it names a non-blank one; else
/// the caller uses the tool's own `cdp-profile` folder.
pub fn profile_setting(state: &SkinState) -> (res: Option<String>)
    ensures
        res.deep_view() == spec_profile_setting(state@),
{
    match &state.profile_path {
        Some(p) => {
            let cs = str_chars(p.as_str());
            let (a, b) = trim_bounds(&cs, 0, cs.len());
            assert(cs@.subrange(0, cs@.len() as int) =~= cs@);
            if a < b {
                Some(p.clone())
            } else {
                None
            }
        },
        None => None,
    }
}

/// The script files that a complete installation of the skin tool holds in
/// one folder; the first applies the skin, the second runs its tray tool.
pub open spec fn skin_script_file_names() -> Seq<Seq<char>> {
    seq![
        "start-dream-skin.ps1"@,
        "tray-dream-skin.ps1"@,
        "common-windows.ps1"@,
        "theme-windows.ps1"@,
        "localization-windows.ps1"@,
    ]
}

/// The script files of a complete installation, in the order of `skin_script_file_names`.
pub fn skin_script_files() -> (res: Vec<&'static str>)
    ensures
        res@.map_values(|s: &str| s@) == skin_script_file_names(),
{
    let v = vec![
        "start-dream-skin.ps1",
        "tray-dream-skin.ps1",
        "common-windows.ps1",
        "theme-windows.ps1",
        "localization-windows.ps1",
    ];
    assert(v@.map_values(|s: &str| s@) =~= skin_script_file_names());
    v
}

/// Whether every file of a folder was found.
pub open spec fn all_present(present: Seq<bool>) -> bool {
    forall|j: int| 0 <= j < present.len() ==> present[j]
}

/// The first folder, in the order tried, where every script file was found.
pub open spec fn first_complete(folders: Seq<Seq<bool>>) -> Option<int>
    decreases folders.len(),
{
    if folders.len() == 0 {
        None
    } else if all_present(folders[0]) {
        Some(0)
    } else {
        match first_complete(folders.drop_first()) {
            Some(i) => Some(i + 1),
            None => None,
        }
    }
}

proof fn lemma_first_complete(folders: Seq<Seq<bool>>, i: int)
    requires
        0 <= i <= folders.len(),
        forall|k: int| 0 <= k < i ==> !all_present(#[trigger] folders[k]),
    ensures
        i < folders.len() && all_present(folders[i]) ==> first_complete(folders) == Some(i),
        i == folders.len() ==> first_complete(folders) is None,
    decreases i,
{
    if i > 0 {
        assert forall|k: int| 0 <= k < i - 1 implies !all_present(#[trigger] folders.drop_first()[k]) by {
            assert(folders.drop_first()[k] == folders[k + 1]);
        }
        lemma_first_complete(folders.drop_first(), i - 1);
        assert(!all_present(folders[0]));
    } else {
        if folders.len() == 0 {
        }
    }
}

/// The folder of a complete installation, given for each candidate folder
/// (in the order tried) which of the script files it holds.
pub fn complete_script_folder(present: &Vec<Vec<bool>>) -> (res: Option<usize>)
    ensures
        match res {
            Some(i) => first_complete(present@.map_values(|v: Vec<bool>| v@)) == Some(i as int),
            None => first_complete(present@.map_values(|v: Vec<bool>| v@)) is None,
        },
{
    let ghost folders = present@.map_values(|v: Vec<bool>| v@);
    let mut i: usize = 0;
    while i < present.len()
        invariant
            i <= present.len(),
            folders == present@.map_values(|v: Vec<bool>| v@),
            forall|k: int| 0 <= k < i ==> !all_present(#[trigger] folders[k]),
        decreases present.len() - i,
    {
        let row = &present[i];
        let mut j: usize = 0;
        let mut complete = true;
        while j < row.len()
            invariant
                j <= row.len(),
                complete == (forall|m: int| 0 <= m < j ==> row@[m]),
            decreases row.len() - j,
        {
            if !row[j] {
                complete = false;
            }
            j = j + 1;
        }
        assert(folders[i as int] == row@);
        if complete {
            proof {
                lemma_first_complete(folders, i as int);
            }
            return Some(i);
        }
        i = i + 1;
    }
    proof {
        lemma_first_complete(folders, i as int);
    }
    None
}

} // verus!
