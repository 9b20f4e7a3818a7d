//! Project setup: the parameters a project is created from, their defaults,
//! and their validation.

use vstd::prelude::*;

verus! {

use vstd::string::StringExecFns;
use crate::strings::is_blank;
use crate::strings::str_is_blank;

/// Which setup flag the next command-line token belongs to.
#[derive(Debug, PartialEq, Eq, Structural, Clone, Copy)]
pub enum InitParams {
    Unset,
    ProjName,
    DeadName,
    Days,
    Cameras,
    SoundSources,
}

/// Which query flag the next command-line token belongs to.
#[derive(Debug, PartialEq, Eq, Structural, Clone, Copy)]
pub enum QueryParams {
    Unset,
    OutputDir,
    Folder,
}

/// The operation named by the first command-line token.
#[derive(Debug, PartialEq, Eq, Structural, Clone, Copy)]
pub enum OperationType {
    Unset,
    New,
    Update,
    Query,
}

/// The parameters of one project: its name, an optional prior directory name
/// to adopt, the number of shooting days, cameras and sound sources, and
/// whether unmanaged empty directories are pruned.
#[derive(Debug, Clone)]
pub struct ProjectSetup {
    pub name: String,
    pub deadname: Option<String>,
    pub days: usize,
    pub cameras: usize,
    pub sound_sources: usize,
    pub clean_project: bool,
}

impl ProjectSetup {
    /// The setup is acceptable: a non-blank name and positive counts.
    pub open spec fn is_valid(self) -> bool {
        !is_blank(self.name@) && self.days >= 1 && self.cameras >= 1 && self.sound_sources >= 1
    }

    /// The fields every fresh setup starts from.
    pub open spec fn is_default(self) -> bool {
        self.name@ == "Untitled_Project"@ && self.deadname is None && self.days == 2 && self.cameras
            == 2 && self.sound_sources == 1 && !self.clean_project
    }

    /// A fresh setup with the default name and counts.
    pub fn new() -> (r: Self)
        ensures
            r.is_default(),
    {
        ProjectSetup {
            name: String::from_str("Untitled_Project"),
            deadname: None,
            days: 2,
            cameras: 2,
            sound_sources: 1,
            clean_project: false,
        }
    }

    /// Checks the setup, naming the first offending field: the name must not
    /// be blank, and each count must be at least one.
    pub fn validate(&self) -> (r: Result<(), String>)
        ensures
            is_blank(self.name@) ==> (r matches Err(m) && m@ == "Project name cannot be empty"@),
            !is_blank(self.name@) && self.days == 0 ==> (r matches Err(m) && m@
                == "Number of days must be greater than 0"@),
            !is_blank(self.name@) && self.days >= 1 && self.cameras == 0 ==> (r matches Err(m)
                && m@ == "Number of cameras must be greater than 0"@),
            !is_blank(self.name@) && self.days >= 1 && self.cameras >= 1 && self.sound_sources == 0
                ==> (r matches Err(m) && m@ == "Number of sound sources must be greater than 0"@),
            r is Ok <==> self.is_valid(),
    {
        if str_is_blank(self.name.as_str()) {
            return Err(String::from_str("Project name cannot be empty"));
        }
        if self.days == 0 {
            return Err(String::from_str("Number of days must be greater than 0"));
        }
        if self.cameras == 0 {
            return Err(String::from_str("Number of cameras must be greater than 0"));
        }
        if self.sound_sources == 0 {
            return Err(String::from_str("Number of sound sources must be greater than 0"));
        }
        Ok(())
    }
}

impl Default for ProjectSetup {
    /// The same fresh setup as [`ProjectSetup::new`].
    fn default() -> (r: Self)
        ensures
            r.is_default(),
    {
        ProjectSetup::new()
    }
}

/// A fresh setup with the default name and counts.
pub fn new_project_setup() -> (r: ProjectSetup)
    ensures
        r.is_default(),
{
    ProjectSetup::new()
}

/// The value kind a setup flag expects, as written in diagnostics.
pub open spec fn spec_required_type_init(operation: InitParams, readable: bool) -> Seq<char> {
    if readable {
        match operation {
            InitParams::ProjName => "a String"@,
            InitParams::DeadName => "a String"@,
            InitParams::Days => "a positive integer"@,
            InitParams::Cameras => "a positive integer"@,
            InitParams::SoundSources => "a positive integer"@,
            InitParams::Unset => "None"@,
        }
    } else {
        match operation {
            InitParams::ProjName => "String"@,
            InitParams::DeadName => "String"@,
            InitParams::Days => "usize"@,
            InitParams::Cameras => "usize"@,
            InitParams::SoundSources => "usize"@,
            InitParams::Unset => "None"@,
        }
    }
}

/// Names the value kind a setup flag expects, for diagnostics.
pub fn get_required_type_init(operation: InitParams, readable: bool) -> (r: String)
    ensures
        r@ == spec_required_type_init(operation, readable),
{
    if readable {
        match operation {
            InitParams::ProjName => String::from_str("a String"),
            InitParams::DeadName => String::from_str("a String"),
            InitParams::Days => String::from_str("a positive integer"),
            InitParams::Cameras => String::from_str("a positive integer"),
            InitParams::SoundSources => String::from_str("a positive integer"),
            InitParams::Unset => String::from_str("None"),
        }
    } else {
        match operation {
            InitParams::ProjName => String::from_str("String"),
            InitParams::DeadName => String::from_str("String"),
            InitParams::Days => String::from_str("usize"),
            InitParams::Cameras => String::from_str("usize"),
            InitParams::SoundSources => String::from_str("usize"),
            InitParams::Unset => String::from_str("None"),
        }
    }
}

/// The value kind a query flag expects, as written in diagnostics.
pub open spec fn spec_required_type_query(operation: QueryParams, readable: bool) -> Seq<char> {
    if readable {
        match operation {
            QueryParams::Folder => "a String"@,
            QueryParams::OutputDir => "a String"@,
            QueryParams::Unset => "None"@,
        }
    } else {
        match operation {
            QueryParams::Folder => "String"@,
            QueryParams::OutputDir => "String"@,
            QueryParams::Unset => "None"@,
        }
    }
}

/// Names the value kind a query flag expects, for diagnostics.
pub fn get_required_type_query(operation: QueryParams, readable: bool) -> (r: String)
    ensures
        r@ == spec_required_type_query(operation, readable),
{
    if readable {
        match operation {
            QueryParams::Folder => String::from_str("a String"),
            QueryParams::OutputDir => String::from_str("a String"),
            QueryParams::Unset => String::from_str("None"),
        }
    } else {
        match operation {
            QueryParams::Folder => String::from_str("String"),
            QueryParams::OutputDir => String::from_str("String"),
            QueryParams::Unset => String::from_str("None"),
        }
    }
}

impl InitParams {
    /// The variant's name as text.
    pub fn _to_string(&self) -> (r: String)
        ensures
            r@ == (match *self {
                InitParams::Unset => "None"@,
                InitParams::ProjName => "ProjName"@,
                InitParams::DeadName => "DeadName"@,
                InitParams::Days => "Days"@,
                InitParams::Cameras => "Cameras"@,
                InitParams::SoundSources => "SoundSources"@,
            }),
    {
        match self {
            InitParams::Unset => String::from_str("None"),
            InitParams::ProjName => String::from_str("ProjName"),
            InitParams::DeadName => String::from_str("DeadName"),
            InitParams::Days => String::from_str("Days"),
            InitParams::Cameras => String::from_str("Cameras"),
            InitParams::SoundSources => String::from_str("SoundSources"),
        }
    }
}

impl QueryParams {
    /// The variant's name as text.
    pub fn _to_string(&self) -> (r: String)
        ensures
            r@ == (match *self {
                QueryParams::Unset => "None"@,
                QueryParams::OutputDir => "Output Directory"@,
                QueryParams::Folder => "Folder"@,
            }),
    {
        match self {
            QueryParams::Unset => String::from_str("None"),
            QueryParams::OutputDir => String::from_str("Output Directory"),
            QueryParams::Folder => String::from_str("Folder"),
        }
    }
}

} // verus!
