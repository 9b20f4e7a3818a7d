//! The persisted configuration model: the folder template, the project
//! setup, query selection types, and their defaults and validation.

use vstd::prelude::*;

verus! {

use vstd::string::StringExecFns;
use crate::init::ProjectSetup;
use crate::init::new_project_setup;
use crate::strings::all_digit_chars;
use crate::strings::is_blank;
use crate::strings::is_digit_char;
use crate::strings::lemma_seq_nat_value_prefix;
use crate::strings::seq_nat_value;
use crate::strings::spec_strip_plus;
use crate::strings::str_is_blank;
use crate::util::get_version;

/// One entry of the folder template: a unique id, an optional reference to a
/// parent entry, and a segment name (or one of the repetition markers
/// `%days`, `%cams`, `%soundsources`).
#[derive(Debug, Clone)]
pub struct Folder {
    pub id: String,
    pub parent_id: Option<String>,
    pub name: String,
}

/// The mathematical content of a [`Folder`].
pub ghost struct FolderView {
    pub id: Seq<char>,
    pub parent_id: Option<Seq<char>>,
    pub name: Seq<char>,
}

impl View for Folder {
    type V = FolderView;

    open spec fn view(&self) -> FolderView {
        FolderView {
            id: self.id@,
            parent_id: match self.parent_id {
                Some(p) => Some(p@),
                None => None,
            },
            name: self.name@,
        }
    }
}

impl Folder {
    /// Builds a folder entry from borrowed parts.
    pub fn new(id: &str, parent_id: Option<&str>, name: &str) -> (r: Self)
        ensures
            r@.id == id@,
            r@.parent_id == (match parent_id {
                Some(p) => Some(p@),
                None => None::<Seq<char>>,
            }),
            r@.name == name@,
    {
        Folder {
            id: String::from_str(id),
            parent_id: match parent_id {
                Some(p) => Some(String::from_str(p)),
                None => None,
            },
            name: String::from_str(name),
        }
    }
}

/// The whole folder template: an ordered forest of entries that reference
/// their parents by id.
#[derive(Debug, Clone)]
pub struct FileStructure {
    pub folders_list: Vec<Folder>,
}

impl View for FileStructure {
    type V = Seq<FolderView>;

    open spec fn view(&self) -> Seq<FolderView> {
        self.folders_list@.map_values(|f: Folder| f@)
    }
}

/// A template entry as a spec value.
pub open spec fn fv(id: &str, parent_id: Option<&str>, name: &str) -> FolderView {
    FolderView {
        id: id@,
        parent_id: match parent_id {
            Some(p) => Some(p@),
            None => None,
        },
        name: name@,
    }
}

/// The template every new configuration starts from: documentation, rushes
/// split per day into video (per camera) and audio (per sound source),
/// external assets, pre-renders and finals.
pub open spec fn spec_default_structure() -> Seq<FolderView> {
    seq![
        fv("doc", None, "01_DOCUMENTATION"),
        fv("rushes", None, "02_RUSHES"),
        fv("external", None, "03_EXTERNAL"),
        fv("prerenders", None, "04_PRE-RENDERS"),
        fv("finals", None, "05_FINALS"),
        fv("prepro", Some("doc"), "01_PRE-PRO"),
        fv("production", Some("doc"), "02_PRODUCTION"),
        fv("days", Some("rushes"), "%days"),
        fv("video", Some("days"), "01_VIDEO"),
        fv("audio", Some("days"), "02_AUDIO"),
        fv("vo", Some("days"), "03_VO"),
        fv("cams", Some("video"), "%cams"),
        fv("soundsources", Some("audio"), "%soundsources"),
        fv("graphics", Some("external"), "01_GRAPHICS"),
        fv("images", Some("external"), "02_IMAGES"),
        fv("music", Some("external"), "03_MUSIC"),
        fv("sfx", Some("external"), "04_SFX"),
        fv("comps", Some("external"), "05_COMPS"),
    ]
}

impl FileStructure {
    /// The default folder template.
    pub fn get_default_structure() -> (r: Self)
        ensures
            r@ == spec_default_structure(),
    {
        let mut folders: Vec<Folder> = Vec::new();

        folders.push(Folder::new("doc", None, "01_DOCUMENTATION"));
        folders.push(Folder::new("rushes", None, "02_RUSHES"));
        folders.push(Folder::new("external", None, "03_EXTERNAL"));
        folders.push(Folder::new("prerenders", None, "04_PRE-RENDERS"));
        folders.push(Folder::new("finals", None, "05_FINALS"));

        folders.push(Folder::new("prepro", Some("doc"), "01_PRE-PRO"));
        folders.push(Folder::new("production", Some("doc"), "02_PRODUCTION"));

        folders.push(Folder::new("days", Some("rushes"), "%days"));
        folders.push(Folder::new("video", Some("days"), "01_VIDEO"));
        folders.push(Folder::new("audio", Some("days"), "02_AUDIO"));
        folders.push(Folder::new("vo", Some("days"), "03_VO"));
        folders.push(Folder::new("cams", Some("video"), "%cams"));
        folders.push(Folder::new("soundsources", Some("audio"), "%soundsources"));

        folders.push(Folder::new("graphics", Some("external"), "01_GRAPHICS"));
        folders.push(Folder::new("images", Some("external"), "02_IMAGES"));
        folders.push(Folder::new("music", Some("external"), "03_MUSIC"));
        folders.push(Folder::new("sfx", Some("external"), "04_SFX"));
        folders.push(Folder::new("comps", Some("external"), "05_COMPS"));

        let r = FileStructure { folders_list: folders };
        proof {
            assert(r@ =~~= spec_default_structure());
        }
        r
    }
}

/// How query results are ordered before rendering.
#[derive(Debug, PartialEq, Eq, Structural, Clone, Copy)]
pub enum SortType {
    Unset,
    BySize,
    ByDefaultOrder,
}

impl SortType {
    /// The order used when no sort flag is given.
    pub fn default_sort_type() -> (r: Self)
        ensures
            r == SortType::ByDefaultOrder,
    {
        SortType::ByDefaultOrder
    }

    /// The placeholder for "whatever order": no sorting requested.
    pub fn any() -> (r: Self)
        ensures
            r == SortType::Unset,
    {
        SortType::Unset
    }
}

/// One of the partial-query subjects.
#[derive(Debug, PartialEq, Eq, Structural, Clone, Copy)]
pub enum QueryType {
    Root,
    Days,
    Cams,
    Sound,
}

/// Which query runs, together with its sort order.
#[derive(Debug, Clone)]
pub enum Query {
    Unset,
    General(SortType),
    Partial(Vec<QueryType>, SortType),
    Folder(Vec<String>, SortType),
}

/// The sort order a query carries (default order when none is set).
pub open spec fn spec_sort_type_of(q: Query) -> SortType {
    match q {
        Query::General(s) => s,
        Query::Partial(_, s) => s,
        Query::Folder(_, s) => s,
        Query::Unset => SortType::ByDefaultOrder,
    }
}

impl Query {
    /// The sort order this query runs with.
    pub fn get_sort_type(&self) -> (r: &SortType)
        ensures
            *r == spec_sort_type_of(*self),
    {
        match self {
            Query::General(sort_type) => sort_type,
            Query::Partial(_, sort_type) => sort_type,
            Query::Folder(_, sort_type) => sort_type,
            Query::Unset => &SortType::ByDefaultOrder,
        }
    }

    /// The folder names a general query inspects by default.
    pub fn get_default_general_query() -> (r: Vec<String>)
        ensures
            r@.map_values(|s: String| s@) == spec_default_general_query(),
    {
        let mut v: Vec<String> = Vec::new();
        v.push(String::from_str("01_DOCUMENTATION"));
        v.push(String::from_str("01_VIDEO"));
        v.push(String::from_str("02_AUDIO"));
        v.push(String::from_str("03_VO"));
        v.push(String::from_str("01_GRAPHICS"));
        v.push(String::from_str("02_IMAGES"));
        v.push(String::from_str("03_MUSIC"));
        v.push(String::from_str("04_SFX"));
        v.push(String::from_str("05_COMPS"));
        v.push(String::from_str("04_PRE-RENDERS"));
        v.push(String::from_str("05_FINALS"));
        proof {
            assert(v@.map_values(|s: String| s@) =~~= spec_default_general_query());
        }
        v
    }
}

/// The default list of folder names a general query inspects.
pub open spec fn spec_default_general_query() -> Seq<Seq<char>> {
    seq![
        "01_DOCUMENTATION"@,
        "01_VIDEO"@,
        "02_AUDIO"@,
        "03_VO"@,
        "01_GRAPHICS"@,
        "02_IMAGES"@,
        "03_MUSIC"@,
        "04_SFX"@,
        "05_COMPS"@,
        "04_PRE-RENDERS"@,
        "05_FINALS"@,
    ]
}

/// Presentation switches of one query invocation.
#[derive(Debug, Clone)]
pub struct QuerySettings {
    pub write: bool,
    pub output_name: Option<String>,
    pub record_timestamp: bool,
    pub unique_entries: bool,
    pub quiet: bool,
    pub include_runtime: bool,
}

impl QuerySettings {
    /// Every switch off, no output name.
    pub fn default() -> (r: Self)
        ensures
            !r.write,
            r.output_name is None,
            !r.record_timestamp,
            !r.unique_entries,
            !r.quiet,
            !r.include_runtime,
    {
        QuerySettings {
            write: false,
            output_name: None,
            record_timestamp: false,
            unique_entries: false,
            quiet: false,
            include_runtime: false,
        }
    }
}

/// A fully persisted configuration: version tag, project setup, folder
/// template, and the general-query folder-name list.
#[derive(Debug, Clone)]
pub struct Config {
    pub version: String,
    pub setup: ProjectSetup,
    pub file_structure: FileStructure,
    pub general_query_params: Vec<String>,
}

impl Config {
    /// A fresh configuration: current version, default setup, default
    /// template, default general-query list.
    pub fn new_config() -> (r: Self)
        ensures
            r.version@ == "v2"@,
            r.setup.is_default(),
            r.file_structure@ == spec_default_structure(),
            r.general_query_params@.map_values(|s: String| s@) == spec_default_general_query(),
    {
        Config {
            version: get_version(),
            setup: new_project_setup(),
            file_structure: FileStructure::get_default_structure(),
            general_query_params: Query::get_default_general_query(),
        }
    }

    /// Checks the embedded setup, naming the first offending field.
    pub fn validate(&self) -> (r: Result<(), ConfigError>)
        ensures
            is_blank(self.setup.name@) ==> (r matches Err(ConfigError::ParseError(m)) && m@
                == "Project name cannot be empty"@),
            !is_blank(self.setup.name@) && self.setup.days == 0 ==> (r matches Err(
                ConfigError::ParseError(m),
            ) && m@ == "Number of days must be greater than 0"@),
            !is_blank(self.setup.name@) && self.setup.days >= 1 && self.setup.cameras == 0 ==> (
            r matches Err(ConfigError::ParseError(m)) && m@
                == "Number of cameras must be greater than 0"@),
            !is_blank(self.setup.name@) && self.setup.days >= 1 && self.setup.cameras >= 1
                && self.setup.sound_sources == 0 ==> (r matches Err(ConfigError::ParseError(m))
                && m@ == "Number of sound sources must be greater than 0"@),
            r is Ok <==> self.setup.is_valid(),
    {
        if str_is_blank(self.setup.name.as_str()) {
            return Err(ConfigError::ParseError(String::from_str("Project name cannot be empty")));
        }
        if self.setup.days == 0 {
            return Err(
                ConfigError::ParseError(String::from_str("Number of days must be greater than 0")),
            );
        }
        if self.setup.cameras == 0 {
            return Err(
                ConfigError::ParseError(
                    String::from_str("Number of cameras must be greater than 0"),
                ),
            );
        }
        if self.setup.sound_sources == 0 {
            return Err(
                ConfigError::ParseError(
                    String::from_str("Number of sound sources must be greater than 0"),
                ),
            );
        }
        Ok(())
    }
}

/// Reads a strictly positive count from a command-line token. The token may
/// carry a leading plus sign; anything else but decimal digits, an empty
/// digit string, a value of zero, or a value beyond `usize` is refused with
/// a message naming the parameter.
pub fn parse_positive_integer(arg: &str, param_name: &str) -> (r: Result<usize, String>)
    ensures
        ({
            let ds = spec_strip_plus(arg@);
            if ds.len() > 0 && all_digit_chars(ds) && seq_nat_value(ds) <= usize::MAX {
                if seq_nat_value(ds) == 0 {
                    r matches Err(m) && m@ == param_name@ + " must be greater than 0"@
                } else {
                    r matches Ok(v) && v == seq_nat_value(ds)
                }
            } else {
                r matches Err(m) && m@ == param_name@ + " must be a positive integer"@
            }
        }),
{
    let ghost ds = spec_strip_plus(arg@);
    let len = arg.unicode_len();
    let start: usize = if len > 0 && arg.get_char(0) == '+' {
        1
    } else {
        0
    };
    proof {
        assert(ds =~= arg@.subrange(start as int, len as int));
    }
    if start == len {
        let mut m = param_name.to_owned();
        m.append(" must be a positive integer");
        return Err(m);
    }
    let mut acc: usize = 0;
    let mut i: usize = start;
    while i < len
        invariant
            len == arg@.len(),
            start <= i <= len,
            start <= 1,
            ds == spec_strip_plus(arg@),
            ds == arg@.subrange(start as int, len as int),
            forall|j: int| start <= j < i ==> is_digit_char(arg@[j]),
            acc == seq_nat_value(arg@.subrange(start as int, i as int)),
        decreases len - i,
    {
        let c = arg.get_char(i);
        let cv = c as u32;
        if cv < 48 || cv > 57 {
            proof {
                assert(ds[i - start] == arg@[i as int]);
                assert(!all_digit_chars(ds));
            }
            let mut m = param_name.to_owned();
            m.append(" must be a positive integer");
            return Err(m);
        }
        let d = (cv - 48) as usize;
        proof {
            assert(arg@.subrange(start as int, i + 1 as int).drop_last() =~= arg@.subrange(
                start as int,
                i as int,
            ));
            assert(arg@.subrange(start as int, i + 1 as int).last() == arg@[i as int]);
        }
        if acc > (usize::MAX - d) / 10 {
            proof {
                assert(seq_nat_value(arg@.subrange(start as int, i + 1 as int)) == acc * 10 + d);
                assert(acc * 10 + d > usize::MAX);
                assert(arg@.subrange(start as int, i + 1 as int) =~= ds.subrange(
                    0,
                    i + 1 - start as int,
                ));
                lemma_seq_nat_value_prefix(ds, i + 1 - start as int);
                assert(seq_nat_value(ds) > usize::MAX);
            }
            let mut m = param_name.to_owned();
            m.append(" must be a positive integer");
            return Err(m);
        }
        acc = acc * 10 + d;
        i += 1;
    }
    proof {
        assert(arg@.subrange(start as int, len as int) =~= ds);
        assert(all_digit_chars(ds));
    }
    if acc == 0 {
        let mut m = param_name.to_owned();
        m.append(" must be greater than 0");
        Err(m)
    } else {
        Ok(acc)
    }
}

/// What configuration or query handling failed on: an underlying I/O error
/// (carried as rendered text) or a malformed value.
#[derive(Debug, Clone)]
pub enum ConfigError {
    IoError(String),
    ParseError(String),
}

impl ConfigError {
    /// Renders the error for diagnostics.
    pub fn to_string(&self) -> (r: String)
        ensures
            r@ == (match *self {
                ConfigError::IoError(e) => "IO error: "@ + e@,
                ConfigError::ParseError(m) => "Parsing error: "@ + m@,
            }),
    {
        match self {
            ConfigError::IoError(e) => {
                let mut s = String::from_str("IO error: ");
                s.append(e.as_str());
                s
            },
            ConfigError::ParseError(m) => {
                let mut s = String::from_str("Parsing error: ");
                s.append(m.as_str());
                s
            },
        }
    }
}

/// What argument parsing produced: a configuration for `new`/`update`, or a
/// query description for `query`.
#[derive(Debug)]
pub enum ParsedReturn {
    Unset,
    Config(Config),
    Query(QueryInfo),
}

/// Everything one query invocation needs: the query, its presentation
/// switches, and the configuration it runs against.
#[derive(Debug)]
pub struct QueryInfo {
    pub query: Query,
    pub settings: QuerySettings,
    pub config: Config,
}

impl QueryInfo {
    /// A placeholder query: nothing selected, default settings, fresh
    /// configuration.
    pub fn new_query_info() -> (r: Self)
        ensures
            r.query is Unset,
            !r.settings.write,
            r.settings.output_name is None,
            !r.settings.record_timestamp,
            !r.settings.unique_entries,
            !r.settings.quiet,
            !r.settings.include_runtime,
            r.config.version@ == "v2"@,
            r.config.setup.is_default(),
            r.config.file_structure@ == spec_default_structure(),
            r.config.general_query_params@.map_values(|s: String| s@)
                == spec_default_general_query(),
    {
        QueryInfo {
            query: Query::Unset,
            settings: QuerySettings::default(),
            config: Config::new_config(),
        }
    }
}

} // verus!
