//! Starting the RStudio desktop with a chosen version of R.

use crate::error::ErrorView;
use crate::error::RigError;
use crate::paths::R_ROOT;
use crate::registry::check_installed;
use crate::registry::is_installed;
use crate::registry::RootEntry;
use crate::text::concat2;
use crate::text::concat3;
use crate::text::texts;
use vstd::prelude::*;
use vstd::string::StringExecFns;

verus! {

/// The program that opens a project file.
pub const OPENER: &'static str = "xdg-open";

/// The program that starts RStudio itself.
pub const RSTUDIO: &'static str = "rstudio";

/// The variable by which RStudio is told which R to run.
pub const WHICH_R: &'static str = "RSTUDIO_WHICH_R";

/// The variable that is set when no version was chosen; nothing reads it.
pub const NO_VARIABLE: &'static str = "dummy";

/// A program to start, detached from the terminal, with one variable added
/// to its environment.
#[derive(Debug)]
pub struct Launch {
    /// The program.
    pub program: String,
    /// Its arguments.
    pub args: Vec<String>,
    /// The name of the variable.
    pub env_name: String,
    /// The value of the variable.
    pub env_value: String,
}

/// A `Launch` with its texts as character sequences.
pub struct LaunchView {
    pub program: Seq<char>,
    pub args: Seq<Seq<char>>,
    pub env_name: Seq<char>,
    pub env_value: Seq<char>,
}

impl View for Launch {
    type V = LaunchView;

    open spec fn view(&self) -> LaunchView {
        LaunchView {
            program: self.program@,
            args: texts(self.args@),
            env_name: self.env_name@,
            env_value: self.env_value@,
        }
    }
}

/// One text, or none, as a list.
pub open spec fn listed(text: Option<Seq<char>>) -> Seq<Seq<char>> {
    match text {
        Some(t) => seq![t],
        None => Seq::<Seq<char>>::empty(),
    }
}

/// The R binary that RStudio is pointed to.
pub open spec fn chosen_binary(version: Seq<char>) -> Seq<char> {
    R_ROOT@ + "/"@ + version + "/bin/R"@
}

/// How RStudio is started. A project is opened by the desktop's opener,
/// which finds RStudio by the project file; without a project RStudio is
/// started by name. The argument, if any, comes last. With a version, the
/// environment names that version's R binary.
pub open spec fn launch(
    version: Option<Seq<char>>,
    project: Option<Seq<char>>,
    arg: Option<Seq<char>>,
) -> LaunchView {
    LaunchView {
        program: if project is Some {
            OPENER@
        } else {
            RSTUDIO@
        },
        args: listed(project) + listed(arg),
        env_name: if version is Some {
            WHICH_R@
        } else {
            NO_VARIABLE@
        },
        env_value: match version {
            Some(v) => chosen_binary(v),
            None => Seq::<char>::empty(),
        },
    }
}

/// Decides how RStudio is started; `root` is a scan of the installation
/// root. Fails with `NotInstalled` exactly if a version is named that is
/// not installed.
pub fn sc_rstudio_(
    version: Option<&str>,
    project: Option<&str>,
    arg: Option<&str>,
    root: &Vec<RootEntry>,
) -> (r: Result<Launch, RigError>)
    ensures
        match r {
            Ok(l) => l@ == launch(version.deep_view(), project.deep_view(), arg.deep_view()) && (
            version matches Some(v) ==> is_installed(root.deep_view(), v@)),
            Err(e) => version matches Some(v) && !is_installed(root.deep_view(), v@) && e@ == (
            ErrorView::NotInstalled { version: v@ }),
        },
{
    let mut args: Vec<String> = Vec::new();
    let program = match project {
        Some(p) => {
            args.push(String::from_str(p));
            String::from_str(OPENER)
        },
        None => String::from_str(RSTUDIO),
    };
    assert(texts(args@) =~= listed(project.deep_view()));
    let mut env_name = String::from_str(NO_VARIABLE);
    let mut env_value = String::new();
    match version {
        Some(ver) => {
            let ver = check_installed(ver, root)?;
            env_name = String::from_str(WHICH_R);
            let dir = concat3(R_ROOT, "/", ver.as_str());
            env_value = concat2(dir.as_str(), "/bin/R");
        },
        None => {},
    }
    match arg {
        Some(a) => {
            let ghost before = texts(args@);
            args.push(String::from_str(a));
            assert(texts(args@) =~= before + listed(arg.deep_view()));
        },
        None => {
            assert(texts(args@) =~= texts(args@) + listed(arg.deep_view()));
        },
    }
    Ok(Launch { program, args, env_name, env_value })
}

} // verus!
