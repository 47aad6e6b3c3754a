//! The commands that the user interface sends to the launcher's back end.

use vstd::prelude::*;
use vstd::string::*;
use crate::text::same_text;

verus! {

/// A request from the user interface.
#[derive(PartialEq, Eq, Structural, Clone, Copy, Debug)]
pub enum BackendCommand {
    /// Look up the public addresses, through the proxy and directly.
    NetworkInfo,
    /// Load settings, zone catalog and the detected client for the first screen.
    Bootstrap,
    /// Look for an installed client.
    Discover,
    /// Check a client path the user chose.
    Validate,
    /// Store the settings.
    Save,
    /// Store the settings and start the client.
    Launch,
    /// Put a launcher shortcut on the desktop.
    CreateShortcut,
    /// Open the skin tool.
    LaunchDreamSkinApp,
}

/// The command that the name `name` selects.
pub open spec fn spec_command(name: Seq<char>) -> Option<BackendCommand> {
    if name == "network_info"@ {
        Some(BackendCommand::NetworkInfo)
    } else if name == "bootstrap"@ {
        Some(BackendCommand::Bootstrap)
    } else if name == "discover"@ {
        Some(BackendCommand::Discover)
    } else if name == "validate"@ {
        Some(BackendCommand::Validate)
    } else if name == "save"@ {
        Some(BackendCommand::Save)
    } else if name == "launch"@ {
        Some(BackendCommand::Launch)
    } else if name == "create_shortcut"@ {
        Some(BackendCommand::CreateShortcut)
    } else if name == "launch_dream_skin"@ || name == "launch_dream_skin_app"@ {
        Some(BackendCommand::LaunchDreamSkinApp)
    } else {
        None
    }
}

/// Each command name selects its own command: `launch` starts the client,
/// `save` only stores the settings, and so on; the two names of the skin
/// tool command are the only two that select the same command, and any
/// other name selects none.
pub proof fn law_command_names(name: Seq<char>)
    ensures
        spec_command("network_info"@) == Some(BackendCommand::NetworkInfo),
        spec_command("bootstrap"@) == Some(BackendCommand::Bootstrap),
        spec_command("discover"@) == Some(BackendCommand::Discover),
        spec_command("validate"@) == Some(BackendCommand::Validate),
        spec_command("save"@) == Some(BackendCommand::Save),
        spec_command("launch"@) == Some(BackendCommand::Launch),
        spec_command("create_shortcut"@) == Some(BackendCommand::CreateShortcut),
        spec_command("launch_dream_skin"@) == Some(BackendCommand::LaunchDreamSkinApp),
        spec_command("launch_dream_skin_app"@) == Some(BackendCommand::LaunchDreamSkinApp),
        spec_command(name) == Some(BackendCommand::Launch) ==> name == "launch"@,
        spec_command(name) == Some(BackendCommand::Save) ==> name == "save"@,
        spec_command(name) == Some(BackendCommand::NetworkInfo) ==> name == "network_info"@,
        spec_command(name) == Some(BackendCommand::Bootstrap) ==> name == "bootstrap"@,
        spec_command(name) == Some(BackendCommand::Discover) ==> name == "discover"@,
        spec_command(name) == Some(BackendCommand::Validate) ==> name == "validate"@,
        spec_command(name) == Some(BackendCommand::CreateShortcut) ==> name == "create_shortcut"@,
        spec_command(name) == Some(BackendCommand::LaunchDreamSkinApp) ==> name == "launch_dream_skin"@
            || name == "launch_dream_skin_app"@,
{
    reveal_strlit("network_info");
    reveal_strlit("bootstrap");
    reveal_strlit("discover");
    reveal_strlit("validate");
    reveal_strlit("save");
    reveal_strlit("launch");
    reveal_strlit("create_shortcut");
    reveal_strlit("launch_dream_skin");
    reveal_strlit("launch_dream_skin_app");
    assert("discover"@[0] != "validate"@[0]);
    assert("network_info"@.len() == 12);
    assert("bootstrap"@.len() == 9);
    assert("discover"@.len() == 8);
    assert("validate"@.len() == 8);
    assert("save"@.len() == 4);
    assert("launch"@.len() == 6);
    assert("create_shortcut"@.len() == 15);
    assert("launch_dream_skin"@.len() == 17);
    assert("launch_dream_skin_app"@.len() == 21);
    assert("bootstrap"@ != "network_info"@);
    assert("discover"@ != "network_info"@);
    assert("discover"@ != "bootstrap"@);
    assert("validate"@ != "network_info"@);
    assert("validate"@ != "bootstrap"@);
    assert("save"@ != "network_info"@);
    assert("save"@ != "bootstrap"@);
    assert("save"@ != "discover"@);
    assert("save"@ != "validate"@);
    assert("launch"@ != "network_info"@);
    assert("launch"@ != "bootstrap"@);
    assert("launch"@ != "discover"@);
    assert("launch"@ != "validate"@);
    assert("launch"@ != "save"@);
    assert("create_shortcut"@ != "network_info"@);
    assert("create_shortcut"@ != "bootstrap"@);
    assert("create_shortcut"@ != "discover"@);
    assert("create_shortcut"@ != "validate"@);
    assert("create_shortcut"@ != "save"@);
    assert("create_shortcut"@ != "launch"@);
    assert("launch_dream_skin"@ != "network_info"@);
    assert("launch_dream_skin"@ != "bootstrap"@);
    assert("launch_dream_skin"@ != "discover"@);
    assert("launch_dream_skin"@ != "validate"@);
    assert("launch_dream_skin"@ != "save"@);
    assert("launch_dream_skin"@ != "launch"@);
    assert("launch_dream_skin"@ != "create_shortcut"@);
    assert("launch_dream_skin_app"@ != "network_info"@);
    assert("launch_dream_skin_app"@ != "bootstrap"@);
    assert("launch_dream_skin_app"@ != "discover"@);
    assert("launch_dream_skin_app"@ != "validate"@);
    assert("launch_dream_skin_app"@ != "save"@);
    assert("launch_dream_skin_app"@ != "launch"@);
    assert("launch_dream_skin_app"@ != "create_shortcut"@);
    assert("launch_dream_skin_app"@ != "launch_dream_skin"@);
}

/// The command that the user interface names `name`, if it is one.
pub fn parse_command(name: &str) -> (res: Option<BackendCommand>)
    ensures
        res == spec_command(name@),
{
    if same_text(name, "network_info") {
        Some(BackendCommand::NetworkInfo)
    } else if same_text(name, "bootstrap") {
        Some(BackendCommand::Bootstrap)
    } else if same_text(name, "discover") {
        Some(BackendCommand::Discover)
    } else if same_text(name, "validate") {
        Some(BackendCommand::Validate)
    } else if same_text(name, "save") {
        Some(BackendCommand::Save)
    } else if same_text(name, "launch") {
        Some(BackendCommand::Launch)
    } else if same_text(name, "create_shortcut") {
        Some(BackendCommand::CreateShortcut)
    } else if same_text(name, "launch_dream_skin") || same_text(name, "launch_dream_skin_app") {
        Some(BackendCommand::LaunchDreamSkinApp)
    } else {
        None
    }
}

/// The refusal of a command name that names no command.
pub open spec fn unknown_command_text(name: Seq<char>) -> Seq<char> {
    "未知命令："@ + name
}

/// The refusal of the unknown command `name`.
pub fn unknown_command_message(name: &str) -> (res: String)
    ensures
        res@ == unknown_command_text(name@),
{
    let mut m = "未知命令：".to_owned();
    m.append(name);
    m
}

} // verus!
