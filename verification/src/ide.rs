//! Detection of installed editors: probes a fixed list of launcher
//! commands on the caller's PATH and lists the ones that resolve.

use vstd::prelude::*;
use vstd::string::*;

verus! {

/// One detected editor: its display name and the command that launches
/// it.
#[derive(Debug, Clone)]
pub struct IdeInfo {
    pub name: String,
    pub command: String,
    pub icon: Option<String>,
}

/// The mathematical image of an `IdeInfo`.
pub struct IdeView {
    pub name: Seq<char>,
    pub command: Seq<char>,
    pub icon: Option<Seq<char>>,
}

impl View for IdeInfo {
    type V = IdeView;

    open spec fn view(&self) -> IdeView {
        IdeView { name: self.name@, command: self.command@, icon: self.icon.deep_view() }
    }
}

impl DeepView for IdeInfo {
    type V = IdeView;

    open spec fn deep_view(&self) -> IdeView {
        self.view()
    }
}

/// Relies on `which::which`: resolves a command name against the
/// environment's PATH.  Whether it resolves depends on the machine, so
/// nothing more is stated.
#[verifier::external_body]
fn is_command_available(command: &str) -> bool {
    which::which(command).is_ok()
}

/// The entry listed for one known editor.
pub open spec fn ide_entry(name: Seq<char>, command: Seq<char>) -> IdeView {
    IdeView { name, command, icon: None }
}

/// The list reported for a given set of probe results, in the fixed
/// order the probes run.
pub open spec fn spec_ide_list(
    code: bool,
    cursor: bool,
    subl: bool,
    idea: bool,
    webstorm: bool,
) -> Seq<IdeView> {
    let a: Seq<IdeView> = if code {
        seq![ide_entry("VS Code"@, "code"@)]
    } else {
        Seq::empty()
    };
    let b: Seq<IdeView> = if cursor {
        seq![ide_entry("Cursor"@, "cursor"@)]
    } else {
        Seq::empty()
    };
    let c: Seq<IdeView> = if subl {
        seq![ide_entry("Sublime Text"@, "subl"@)]
    } else {
        Seq::empty()
    };
    let d: Seq<IdeView> = if idea {
        seq![ide_entry("IntelliJ IDEA"@, "idea"@)]
    } else {
        Seq::empty()
    };
    let e: Seq<IdeView> = if webstorm {
        seq![ide_entry("WebStorm"@, "webstorm"@)]
    } else {
        Seq::empty()
    };
    a + b + c + d + e
}

/// Builds the editor list from the five probe results.
pub fn build_ide_list(code: bool, cursor: bool, subl: bool, idea: bool, webstorm: bool) -> (r:
    Vec<IdeInfo>)
    ensures
        r.deep_view() == spec_ide_list(code, cursor, subl, idea, webstorm),
{
    let mut ides: Vec<IdeInfo> = Vec::new();
    if code {
        ides.push(
            IdeInfo {
                name: String::from_str("VS Code"),
                command: String::from_str("code"),
                icon: None,
            },
        );
    }
    if cursor {
        ides.push(
            IdeInfo {
                name: String::from_str("Cursor"),
                command: String::from_str("cursor"),
                icon: None,
            },
        );
    }
    if subl {
        ides.push(
            IdeInfo {
                name: String::from_str("Sublime Text"),
                command: String::from_str("subl"),
                icon: None,
            },
        );
    }
    if idea {
        ides.push(
            IdeInfo {
                name: String::from_str("IntelliJ IDEA"),
                command: String::from_str("idea"),
                icon: None,
            },
        );
    }
    if webstorm {
        ides.push(
            IdeInfo {
                name: String::from_str("WebStorm"),
                command: String::from_str("webstorm"),
                icon: None,
            },
        );
    }
    proof {
        assert(ides.deep_view() =~= spec_ide_list(code, cursor, subl, idea, webstorm));
    }
    ides
}

/// Probes the known launcher commands and lists the installed editors:
/// the result is the fixed candidate list narrowed to what the machine's
/// PATH resolves.
pub fn detect_installed_ides() -> (r: Vec<IdeInfo>)
    ensures
        exists|code: bool, cursor: bool, subl: bool, idea: bool, webstorm: bool|
            r.deep_view() == spec_ide_list(code, cursor, subl, idea, webstorm),
{
    let code = is_command_available("code");
    let cursor = is_command_available("cursor");
    let subl = is_command_available("subl");
    let idea = is_command_available("idea");
    let webstorm = is_command_available("webstorm");
    let r = build_ide_list(code, cursor, subl, idea, webstorm);
    proof {
        assert(r.deep_view() == spec_ide_list(code, cursor, subl, idea, webstorm));
    }
    r
}

} // verus!
