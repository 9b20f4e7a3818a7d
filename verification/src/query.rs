//! The query and aggregation engine: locates directories by name suffix,
//! sums file counts and byte sizes over them, combines or separates
//! per-index results, and sorts them for the report.
//!
//! The only unverified step is the directory read itself (one trusted call
//! into the `fs_extra` crate); everything that decides, matches, combines
//! and renders is verified against the snapshot that read returns.

use vstd::prelude::*;

verus! {

use vstd::pervasive::unreached;
use vstd::string::StringExecFns;
use crate::config::ConfigError;
use crate::config::SortType;
use crate::strings::lemma_strings_view_push;
use crate::strings::normalize_separators;
use crate::strings::seq_contains;
use crate::strings::spec_normalize_char;
use crate::strings::str_contains;
use crate::strings::strings_view;
use crate::strings::spec_u64_string;
use crate::strings::usize_to_string;
use crate::config::Config;
use crate::config::Query;
use crate::config::QueryInfo;
use crate::config::QueryType;
use crate::resolve::cam_suffix;
use crate::resolve::day_suffix;
use crate::resolve::rec_suffix;
use crate::strings::pad2;
use crate::config::QuerySettings;
use crate::init::ProjectSetup;
use crate::report::spec_shorthand;
use crate::report::to_shorthand;
use crate::resolve::num_to_char;
use crate::resolve::spec_num_to_char;

/// What query handling failed on: an I/O error, a filesystem walk error
/// (both carried as rendered text), a configuration error, or a query that
/// names nothing to do.
#[derive(Debug)]
pub enum QueryError {
    IoError(String),
    FsExtraError(String),
    ConfigError(ConfigError),
    InvalidQuery(String),
}

impl QueryError {
    /// Renders the error for diagnostics.
    pub fn to_string(&self) -> (r: String)
        ensures
            r@ == (match *self {
                QueryError::IoError(e) => "IO error: "@ + e@,
                QueryError::FsExtraError(e) => "Filesystem error: "@ + e@,
                QueryError::ConfigError(e) => "Config error: "@ + (match e {
                    ConfigError::IoError(m) => "IO error: "@ + m@,
                    ConfigError::ParseError(m) => "Parsing error: "@ + m@,
                }),
                QueryError::InvalidQuery(m) => "Invalid query: "@ + m@,
            }),
    {
        match self {
            QueryError::IoError(e) => {
                let mut s = String::from_str("IO error: ");
                s.append(e.as_str());
                s
            },
            QueryError::FsExtraError(e) => {
                let mut s = String::from_str("Filesystem error: ");
                s.append(e.as_str());
                s
            },
            QueryError::ConfigError(e) => {
                let mut s = String::from_str("Config error: ");
                let inner = e.to_string();
                s.append(inner.as_str());
                s
            },
            QueryError::InvalidQuery(m) => {
                let mut s = String::from_str("Invalid query: ");
                s.append(m.as_str());
                s
            },
        }
    }
}

/// One matched folder of a general query: where it was found, which list
/// entry matched it, and its aggregate statistics.
#[derive(Debug, Clone)]
pub struct GeneralResult {
    pub path: String,
    pub folder_name: String,
    pub file_count: usize,
    pub total_size: String,
    pub total_size_u64: u64,
    pub runtime_ms: Option<u64>,
}

/// The whole project tree's statistics together with the configured counts.
#[derive(Debug, Clone)]
pub struct RootResult {
    pub project_name: String,
    pub file_count: usize,
    pub total_size: String,
    pub shoot_days: usize,
    pub camera_count: usize,
    pub sound_source_count: usize,
    pub runtime_ms: Option<u64>,
}

/// One shooting day's statistics.
#[derive(Debug, Clone)]
pub struct DayResult {
    pub path: Option<String>,
    pub day: String,
    pub file_count: usize,
    pub total_size: String,
    pub total_size_u64: u64,
    pub runtime_ms: Option<u64>,
}

/// One camera's statistics.
#[derive(Debug, Clone)]
pub struct CamResult {
    pub path: Option<String>,
    pub camera: String,
    pub file_count: usize,
    pub total_size: String,
    pub total_size_u64: u64,
    pub runtime_ms: Option<u64>,
}

/// One sound source's statistics.
#[derive(Debug, Clone)]
pub struct SoundResult {
    pub path: Option<String>,
    pub sound_source: String,
    pub file_count: usize,
    pub total_size: String,
    pub total_size_u64: u64,
    pub runtime_ms: Option<u64>,
}

/// One explicitly named folder's statistics.
#[derive(Debug, Clone)]
pub struct FolderResult {
    pub path: String,
    pub file_count: usize,
    pub total_size: String,
    pub total_size_u64: u64,
    pub runtime_ms: Option<u64>,
}

/// One line of a query report, tagged with the query kind it answers.
#[derive(Debug, Clone)]
pub enum QueryResult {
    GeneralResult(GeneralResult),
    RootResult(RootResult),
    DayResult(DayResult),
    CamResult(CamResult),
    SoundResult(SoundResult),
    FolderResult(FolderResult),
}

/// The key size-sorting orders by: the aggregate byte size, with root
/// results pinned at zero so they do not take part in the ordering.
pub open spec fn spec_sort_key(r: QueryResult) -> u64 {
    match r {
        QueryResult::GeneralResult(g) => g.total_size_u64,
        QueryResult::RootResult(_) => 0,
        QueryResult::DayResult(d) => d.total_size_u64,
        QueryResult::CamResult(c) => c.total_size_u64,
        QueryResult::SoundResult(s) => s.total_size_u64,
        QueryResult::FolderResult(f) => f.total_size_u64,
    }
}

impl QueryResult {
    /// The byte size this result sorts by (zero for a root result).
    pub fn get_size_for_sorting(&self) -> (r: u64)
        ensures
            r == spec_sort_key(*self),
    {
        match self {
            QueryResult::GeneralResult(g) => g.total_size_u64,
            QueryResult::RootResult(_) => 0,
            QueryResult::DayResult(d) => d.total_size_u64,
            QueryResult::CamResult(c) => c.total_size_u64,
            QueryResult::SoundResult(s) => s.total_size_u64,
            QueryResult::FolderResult(f) => f.total_size_u64,
        }
    }

    /// The general-result payload of a result known to be one.
    pub fn get_general_result(&self) -> (r: &GeneralResult)
        requires
            self matches QueryResult::GeneralResult(_),
        ensures
            *self == QueryResult::GeneralResult(*r),
    {
        match self {
            QueryResult::GeneralResult(g) => g,
            _ => unreached(),
        }
    }
}

/// Everything one query produced: the results in report order, and the
/// informational notices about names that matched nothing.
#[derive(Debug)]
pub struct QueryOutput {
    pub results: Vec<QueryResult>,
    pub notices: Vec<String>,
}

/// The subsequence of results carrying one particular sort key, in their
/// current order.
pub open spec fn spec_with_key(res: Seq<QueryResult>, k: u64) -> Seq<QueryResult> {
    res.filter(|r: QueryResult| spec_sort_key(r) == k)
}

/// Moving one element left, over neighbours whose keys are all strictly
/// smaller, never reorders elements of equal key: for every key, the
/// subsequence carrying it is unchanged.
proof fn lemma_move_left_stable(v0: Seq<QueryResult>, j: int, i: int)
    requires
        0 <= j <= i < v0.len(),
        forall|t: int| j <= t < i ==> spec_sort_key(#[trigger] v0[t]) < spec_sort_key(v0[i]),
    ensures
        forall|k: u64| #[trigger] spec_with_key(v0.remove(i).insert(j, v0[i]), k) == spec_with_key(
            v0,
            k,
        ),
{
    let x = v0[i];
    let a = v0.subrange(0, j);
    let b = v0.subrange(j, i);
    let c = v0.subrange(i + 1, v0.len() as int);
    let w = v0.remove(i).insert(j, x);
    assert(v0 =~= a + b + seq![x] + c);
    assert(w =~= a + seq![x] + b + c);
    assert forall|k: u64| #[trigger] spec_with_key(w, k) == spec_with_key(v0, k) by {
        let pred = |r: QueryResult| spec_sort_key(r) == k;
        Seq::<QueryResult>::filter_distributes_over_add(a + b + seq![x], c, pred);
        Seq::<QueryResult>::filter_distributes_over_add(a + b, seq![x], pred);
        Seq::<QueryResult>::filter_distributes_over_add(a, b, pred);
        Seq::<QueryResult>::filter_distributes_over_add(a + seq![x] + b, c, pred);
        Seq::<QueryResult>::filter_distributes_over_add(a + seq![x], b, pred);
        Seq::<QueryResult>::filter_distributes_over_add(a, seq![x], pred);
        if k == spec_sort_key(x) {
            assert(b.all(|r: QueryResult| !pred(r))) by {
                assert(forall|t: int| 0 <= t < b.len() ==> b[t] == v0[j + t]);
            }
            b.lemma_all_neg_filter_empty(pred);
            assert(b.filter(pred) =~= Seq::<QueryResult>::empty());
        } else {
            assert(seq![x].all(|r: QueryResult| !pred(r)));
            seq![x].lemma_all_neg_filter_empty(pred);
            assert(seq![x].filter(pred) =~= Seq::<QueryResult>::empty());
        }
        assert(spec_with_key(w, k) =~= spec_with_key(v0, k));
    }
}

/// Sorts the results largest byte size first when size sorting is chosen;
/// any other sort type leaves the produced order untouched. The size sort
/// reorders only (the multiset of results is unchanged), and it is stable:
/// for every key, the results carrying that key keep their produced order.
pub fn apply_sorting(query_results: &mut Vec<QueryResult>, sort_type: &SortType)
    ensures
        final(query_results)@.len() == old(query_results)@.len(),
        *sort_type is BySize ==> final(query_results)@.to_multiset() == old(
            query_results,
        )@.to_multiset(),
        *sort_type is BySize ==> (forall|a: int, b: int|
            0 <= a < b < final(query_results)@.len() ==> spec_sort_key(
                #[trigger] final(query_results)@[a],
            ) >= spec_sort_key(#[trigger] final(query_results)@[b])),
        *sort_type is BySize ==> (forall|k: u64|
            #[trigger] spec_with_key(final(query_results)@, k) == spec_with_key(
                old(query_results)@,
                k,
            )),
        !(*sort_type is BySize) ==> final(query_results)@ == old(query_results)@,
{
    match sort_type {
        SortType::BySize => {
            let n = query_results.len();
            let mut i: usize = 1;
            while i < n && n > 0
                invariant
                    n == query_results@.len(),
                    n > 0 ==> 1 <= i <= n,
                    query_results@.to_multiset() == old(query_results)@.to_multiset(),
                    forall|a: int, b: int|
                        0 <= a < b < i ==> spec_sort_key(#[trigger] query_results@[a])
                            >= spec_sort_key(#[trigger] query_results@[b]),
                    forall|k: u64|
                        #[trigger] spec_with_key(query_results@, k) == spec_with_key(
                            old(query_results)@,
                            k,
                        ),
                decreases n - i,
            {
                let key_i = query_results[i].get_size_for_sorting();
                let mut j: usize = i;
                while j > 0 && query_results[j - 1].get_size_for_sorting() < key_i
                    invariant
                        j <= i < n,
                        n == query_results@.len(),
                        key_i == spec_sort_key(query_results@[i as int]),
                        forall|t: int|
                            j <= t < i ==> spec_sort_key(#[trigger] query_results@[t]) < key_i,
                    decreases j,
                {
                    j -= 1;
                }
                let ghost v0 = query_results@;
                let x = query_results.remove(i);
                query_results.insert(j, x);
                proof {
                    broadcast use vstd::seq_lib::group_to_multiset_ensures;

                    lemma_move_left_stable(v0, j as int, i as int);
                    let w = query_results@;
                    assert(v0.contains(x)) by {
                        assert(v0[i as int] == x);
                    }
                    assert(v0.to_multiset().count(x) > 0);
                    assert(w.to_multiset() =~= v0.to_multiset());
                    assert forall|a: int, b: int|
                        0 <= a < b < i + 1 implies spec_sort_key(#[trigger] w[a]) >= spec_sort_key(
                        #[trigger] w[b],
                    ) by {
                        let u = v0.remove(i as int);
                        if b < j {
                            assert(w[a] == v0[a] && w[b] == v0[b]);
                        } else if b == j {
                            assert(w[b] == x);
                            assert(w[a] == v0[a]);
                            assert(spec_sort_key(v0[j - 1]) >= key_i);
                            if a < j - 1 {
                                assert(spec_sort_key(v0[a]) >= spec_sort_key(v0[j - 1]));
                            }
                        } else {
                            assert(w[b] == v0[b - 1]);
                            if a == j {
                                assert(w[a] == x);
                                assert(spec_sort_key(v0[b - 1]) < key_i);
                            } else if a < j {
                                assert(w[a] == v0[a]);
                                if j <= b - 1 && b - 1 < i {
                                    assert(spec_sort_key(v0[b - 1]) < key_i);
                                    assert(spec_sort_key(v0[a]) >= spec_sort_key(v0[j - 1]) || a
                                        == j - 1);
                                    assert(spec_sort_key(v0[j - 1]) >= key_i);
                                }
                            } else {
                                assert(w[a] == v0[a - 1]);
                            }
                        }
                    }
                }
                i += 1;
            }
        },
        _ => {
        },
    }
}

/// What one directory read returns: the total size in bytes of all files
/// under the directory, every file path, and every directory path under
/// (and including) the directory itself.
#[derive(Debug)]
pub struct DirContent {
    pub dir_size: u64,
    pub files: Vec<String>,
    pub directories: Vec<String>,
}

/// Relies on `fs_extra::dir::get_dir_content`: walks a directory and
/// reports its total byte size, its file paths and its directory paths.
/// What comes back depends on the disk, so nothing is promised of it; a
/// walk error is handed back as rendered text.
#[verifier::external_body]
fn read_dir_content(path: &str) -> (r: Result<DirContent, String>) {
    match fs_extra::dir::get_dir_content(path) {
        Ok(c) => Ok(
            DirContent { dir_size: c.dir_size, files: c.files, directories: c.directories },
        ),
        Err(e) => Err(e.to_string()),
    }
}

/// A directory path matches a folder name when `name%` occurs in `path%`:
/// the appended marker forces the name to end a path segment, so `02_AUDIO`
/// does not match a folder literally named `2_AUDIO`.
pub open spec fn spec_dir_matches(dir: Seq<char>, target: Seq<char>) -> bool {
    seq_contains(dir + "%"@, target + "%"@)
}

/// Whether a directory path matches a folder name, by the query engine's
/// end-marker convention.
pub fn dir_matches(dir: &str, target: &str) -> (r: bool)
    ensures
        r == spec_dir_matches(dir@, target@),
{
    let mut hay = dir.to_owned();
    hay.append("%");
    let mut needle = target.to_owned();
    needle.append("%");
    str_contains(hay.as_str(), needle.as_str())
}

/// The directory paths that match a folder name, in walk order.
pub open spec fn spec_matching(dirs: Seq<Seq<char>>, target: Seq<char>) -> Seq<Seq<char>>
    decreases dirs.len(),
{
    if dirs.len() == 0 {
        Seq::empty()
    } else {
        let rest = spec_matching(dirs.drop_last(), target);
        if spec_dir_matches(dirs.last(), target) {
            rest.push(dirs.last())
        } else {
            rest
        }
    }
}

/// Selects the directories matching a folder name, keeping walk order.
pub fn matching_dirs(directories: &Vec<String>, target: &str) -> (r: Vec<String>)
    ensures
        strings_view(r@) == spec_matching(strings_view(directories@), target@),
{
    let n = directories.len();
    let mut r: Vec<String> = Vec::new();
    let mut i: usize = 0;
    while i < n
        invariant
            n == directories@.len(),
            i <= n,
            strings_view(r@) == spec_matching(
                strings_view(directories@).subrange(0, i as int),
                target@,
            ),
        decreases n - i,
    {
        let d = &directories[i];
        proof {
            let dv = strings_view(directories@);
            assert(dv.subrange(0, i + 1 as int).drop_last() =~= dv.subrange(0, i as int));
            assert(dv.subrange(0, i + 1 as int).last() == d@);
        }
        if dir_matches(d.as_str(), target) {
            let ghost prev = r@;
            let dc = d.clone();
            r.push(dc);
            proof {
                lemma_strings_view_push(prev, dc);
            }
        }
        i += 1;
    }
    proof {
        assert(strings_view(directories@).subrange(0, n as int) =~= strings_view(directories@));
    }
    r
}

/// One matched directory with its aggregate statistics, the path already
/// normalized to forward slashes.
#[derive(Debug)]
pub struct MeasuredDir {
    pub path: String,
    pub file_count: usize,
    pub dir_size: u64,
}

/// The paths of a measured batch.
pub open spec fn measured_paths(v: Seq<MeasuredDir>) -> Seq<Seq<char>> {
    v.map_values(|m: MeasuredDir| m.path@)
}

proof fn lemma_measured_paths_push(s: Seq<MeasuredDir>, m: MeasuredDir)
    ensures
        measured_paths(s.push(m)) == measured_paths(s).push(m.path@),
{
    assert(measured_paths(s).len() == s.len());
    assert forall|k: int| 0 <= k < s.len() + 1 implies measured_paths(s.push(m))[k]
        == measured_paths(s).push(m.path@)[k] by {
        if k < s.len() {
            assert(s.push(m)[k] == s[k]);
        } else {
            assert(s.push(m)[k] == m);
        }
    }
    assert(measured_paths(s.push(m)) =~= measured_paths(s).push(m.path@));
}

/// Reads the aggregate statistics of each matched directory through the
/// trusted directory read. The counts and sizes depend on the disk; the
/// paths are the given ones with separators normalized.
pub fn measure_dirs(dirs: &Vec<String>) -> (r: Result<Vec<MeasuredDir>, QueryError>)
    ensures
        r matches Ok(v) ==> measured_paths(v@) == strings_view(dirs@).map_values(
            |d: Seq<char>| d.map_values(|c: char| spec_normalize_char(c)),
        ),
        r matches Err(e) ==> e is FsExtraError,
{
    let n = dirs.len();
    let mut out: Vec<MeasuredDir> = Vec::new();
    let mut i: usize = 0;
    while i < n
        invariant
            n == dirs@.len(),
            i <= n,
            measured_paths(out@) == strings_view(dirs@).subrange(0, i as int).map_values(
                |d: Seq<char>| d.map_values(|c: char| spec_normalize_char(c)),
            ),
        decreases n - i,
    {
        let d = &dirs[i];
        let content = match read_dir_content(d.as_str()) {
            Ok(c) => c,
            Err(e) => {
                return Err(QueryError::FsExtraError(e));
            },
        };
        let ghost prev = out@;
        let m = MeasuredDir {
            path: normalize_separators(d.as_str()),
            file_count: content.files.len(),
            dir_size: content.dir_size,
        };
        let ghost mpath = m.path@;
        out.push(m);
        proof {
            lemma_measured_paths_push(prev, m);
            let dv = strings_view(dirs@);
            let f = |d: Seq<char>| d.map_values(|c: char| spec_normalize_char(c));
            assert(dv.subrange(0, i + 1 as int).drop_last() =~= dv.subrange(0, i as int));
            assert(dv.subrange(0, i + 1 as int).last() == dv[i as int]);
            assert(mpath == f(dv[i as int]));
            assert(measured_paths(out@) =~= dv.subrange(0, i + 1 as int).map_values(f));
        }
        i += 1;
    }
    proof {
        assert(strings_view(dirs@).subrange(0, n as int) =~= strings_view(dirs@));
    }
    Ok(out)
}

/// The notice printed when a queried name matches no directory.
pub open spec fn spec_notice(name: Seq<char>) -> Seq<char> {
    "The non-existent folder \""@ + name + "\" was omitted from the query!"@
}

/// Renders the notice for a name that matched nothing.
pub fn notice_for(name: &str) -> (r: String)
    ensures
        r@ == spec_notice(name@),
{
    let mut s = String::from_str("The non-existent folder \"");
    s.append(name);
    s.append("\" was omitted from the query!");
    s
}

/// The label of a shooting day in a report.
pub open spec fn spec_day_label(index: nat) -> Seq<char> {
    "Day "@ + spec_u64_string(index)
}

/// The label of a camera in a report.
pub open spec fn spec_cam_label(index: nat) -> Seq<char> {
    seq![spec_num_to_char(index)] + " Cam ("@ + spec_u64_string(index) + ")"@
}

/// The label of a sound source in a report.
pub open spec fn spec_sound_label(index: nat) -> Seq<char> {
    seq![spec_num_to_char(index)] + " Rec ("@ + spec_u64_string(index) + ")"@
}

/// Builds the per-instance result of a day, camera or sound-source query:
/// the labelled statistics of one index, with the matched path when the
/// query reports physical directories separately.
pub fn create_query_result(
    query_type: QueryType,
    index: usize,
    path: Option<String>,
    file_count: usize,
    total_size: u64,
    settings: &QuerySettings,
) -> (r: QueryResult)
    requires
        query_type != QueryType::Root,
    ensures
        query_type == QueryType::Days ==> (r matches QueryResult::DayResult(d) && d.path == path
            && d.day@ == spec_day_label(index as nat) && d.file_count == file_count
            && d.total_size@ == spec_shorthand(total_size as nat) && d.total_size_u64 == total_size
            && d.runtime_ms == (if settings.include_runtime {
            Some(0u64)
        } else {
            None::<u64>
        })),
        query_type == QueryType::Cams ==> (r matches QueryResult::CamResult(c) && c.path == path
            && c.camera@ == spec_cam_label(index as nat) && c.file_count == file_count
            && c.total_size@ == spec_shorthand(total_size as nat) && c.total_size_u64 == total_size
            && c.runtime_ms == (if settings.include_runtime {
            Some(0u64)
        } else {
            None::<u64>
        })),
        query_type == QueryType::Sound ==> (r matches QueryResult::SoundResult(s) && s.path == path
            && s.sound_source@ == spec_sound_label(index as nat) && s.file_count == file_count
            && s.total_size@ == spec_shorthand(total_size as nat) && s.total_size_u64 == total_size
            && s.runtime_ms == (if settings.include_runtime {
            Some(0u64)
        } else {
            None::<u64>
        })),
{
    let runtime_ms: Option<u64> = if settings.include_runtime {
        Some(0)
    } else {
        None
    };
    match query_type {
        QueryType::Days => {
            let mut day = String::from_str("Day ");
            let num = usize_to_string(index);
            day.append(num.as_str());
            QueryResult::DayResult(
                DayResult {
                    path,
                    day,
                    file_count,
                    total_size: to_shorthand(total_size),
                    total_size_u64: total_size,
                    runtime_ms,
                },
            )
        },
        QueryType::Cams => {
            let mut camera = String::new();
            camera.push(num_to_char(index));
            camera.append(" Cam (");
            let num = usize_to_string(index);
            camera.append(num.as_str());
            camera.append(")");
            proof {
                assert(camera@ =~= spec_cam_label(index as nat));
            }
            QueryResult::CamResult(
                CamResult {
                    path,
                    camera,
                    file_count,
                    total_size: to_shorthand(total_size),
                    total_size_u64: total_size,
                    runtime_ms,
                },
            )
        },
        QueryType::Sound => {
            let mut sound_source = String::new();
            sound_source.push(num_to_char(index));
            sound_source.append(" Rec (");
            let num = usize_to_string(index);
            sound_source.append(num.as_str());
            sound_source.append(")");
            proof {
                assert(sound_source@ =~= spec_sound_label(index as nat));
            }
            QueryResult::SoundResult(
                SoundResult {
                    path,
                    sound_source,
                    file_count,
                    total_size: to_shorthand(total_size),
                    total_size_u64: total_size,
                    runtime_ms,
                },
            )
        },
        QueryType::Root => unreached(),
    }
}

/// The exact total of the file counts of a measured batch.
pub open spec fn spec_count_sum(v: Seq<MeasuredDir>) -> nat
    decreases v.len(),
{
    if v.len() == 0 {
        0
    } else {
        (spec_count_sum(v.drop_last()) + v.last().file_count) as nat
    }
}

/// The exact total of the byte sizes of a measured batch.
pub open spec fn spec_size_sum(v: Seq<MeasuredDir>) -> nat
    decreases v.len(),
{
    if v.len() == 0 {
        0
    } else {
        (spec_size_sum(v.drop_last()) + v.last().dir_size) as nat
    }
}

/// Adds up a measured batch: the exact file-count and byte-size totals,
/// clamped at the machine limits.
pub fn combine_measured(measured: &Vec<MeasuredDir>) -> (r: (usize, u64))
    ensures
        r.0 == (if spec_count_sum(measured@) <= usize::MAX {
            spec_count_sum(measured@)
        } else {
            usize::MAX as nat
        }),
        r.1 == (if spec_size_sum(measured@) <= u64::MAX {
            spec_size_sum(measured@)
        } else {
            u64::MAX as nat
        }),
{
    let n = measured.len();
    let mut count: usize = 0;
    let mut size: u64 = 0;
    let mut i: usize = 0;
    while i < n
        invariant
            n == measured@.len(),
            i <= n,
            count == (if spec_count_sum(measured@.subrange(0, i as int)) <= usize::MAX {
                spec_count_sum(measured@.subrange(0, i as int))
            } else {
                usize::MAX as nat
            }),
            size == (if spec_size_sum(measured@.subrange(0, i as int)) <= u64::MAX {
                spec_size_sum(measured@.subrange(0, i as int))
            } else {
                u64::MAX as nat
            }),
        decreases n - i,
    {
        proof {
            assert(measured@.subrange(0, i + 1 as int).drop_last() =~= measured@.subrange(
                0,
                i as int,
            ));
            assert(measured@.subrange(0, i + 1 as int).last() == measured@[i as int]);
        }
        let m = &measured[i];
        count = if count <= usize::MAX - m.file_count {
            count + m.file_count
        } else {
            usize::MAX
        };
        size = if size <= u64::MAX - m.dir_size {
            size + m.dir_size
        } else {
            u64::MAX
        };
        i += 1;
    }
    proof {
        assert(measured@.subrange(0, n as int) =~= measured@);
    }
    (count, size)
}

/// Turns the measured matches of one day, camera or sound-source index into
/// its report results. In unique mode every physical directory yields its
/// own result, carrying its path; in combined mode the whole batch yields
/// exactly one result (none when nothing matched) whose file count and byte
/// size are the totals over all matches.
pub fn combine_index_results(
    query_type: QueryType,
    index: usize,
    measured: &Vec<MeasuredDir>,
    unique: bool,
    settings: &QuerySettings,
) -> (r: Vec<QueryResult>)
    requires
        query_type != QueryType::Root,
    ensures
        unique ==> r@.len() == measured@.len(),
        unique ==> (forall|i: int|
            0 <= i < r@.len() ==> spec_iter_result(
                query_type,
                index as nat,
                #[trigger] r@[i],
                Some(measured@[i].path),
                measured@[i].file_count as nat,
                measured@[i].dir_size as nat,
                settings.include_runtime,
            )),
        !unique && measured@.len() == 0 ==> r@.len() == 0,
        !unique && measured@.len() > 0 ==> r@.len() == 1 && spec_iter_result(
            query_type,
            index as nat,
            r@[0],
            None,
            (if spec_count_sum(measured@) <= usize::MAX {
                spec_count_sum(measured@)
            } else {
                usize::MAX as nat
            }),
            (if spec_size_sum(measured@) <= u64::MAX {
                spec_size_sum(measured@)
            } else {
                u64::MAX as nat
            }),
            settings.include_runtime,
        ),
{
    let mut r: Vec<QueryResult> = Vec::new();
    if unique {
        let n = measured.len();
        let mut k: usize = 0;
        while k < n
            invariant
                n == measured@.len(),
                k <= n,
                r@.len() == k,
                query_type != QueryType::Root,
                forall|i: int|
                    0 <= i < k ==> spec_iter_result(
                        query_type,
                        index as nat,
                        #[trigger] r@[i],
                        Some(measured@[i].path),
                        measured@[i].file_count as nat,
                        measured@[i].dir_size as nat,
                        settings.include_runtime,
                    ),
            decreases n - k,
        {
            let m = &measured[k];
            let one = create_query_result(
                query_type,
                index,
                Some(m.path.clone()),
                m.file_count,
                m.dir_size,
                settings,
            );
            r.push(one);
            k += 1;
        }
        r
    } else {
        if measured.len() == 0 {
            return r;
        }
        let totals = combine_measured(measured);
        let one = create_query_result(query_type, index, None, totals.0, totals.1, settings);
        r.push(one);
        r
    }
}

/// Builds the general-query results of one folder name: one per measured
/// match, in match order, each carrying the matched path, the folder name,
/// that match's statistics, and the elapsed time when runtime reporting is
/// on.
pub fn general_results_from(
    folder: &String,
    measured: &Vec<MeasuredDir>,
    settings: &QuerySettings,
    elapsed_ms: u64,
) -> (r: Vec<QueryResult>)
    ensures
        r@.len() == measured@.len(),
        forall|i: int|
            0 <= i < r@.len() ==> (#[trigger] r@[i] matches QueryResult::GeneralResult(g)
                && g.path == measured@[i].path && g.folder_name == *folder && g.file_count
                == measured@[i].file_count && g.total_size@ == spec_shorthand(
                measured@[i].dir_size as nat,
            ) && g.total_size_u64 == measured@[i].dir_size && g.runtime_ms == (
            if settings.include_runtime {
                Some(elapsed_ms)
            } else {
                None::<u64>
            })),
{
    let n = measured.len();
    let mut r: Vec<QueryResult> = Vec::new();
    let mut k: usize = 0;
    while k < n
        invariant
            n == measured@.len(),
            k <= n,
            r@.len() == k,
            forall|i: int|
                0 <= i < k ==> (#[trigger] r@[i] matches QueryResult::GeneralResult(g) && g.path
                    == measured@[i].path && g.folder_name == *folder && g.file_count
                    == measured@[i].file_count && g.total_size@ == spec_shorthand(
                    measured@[i].dir_size as nat,
                ) && g.total_size_u64 == measured@[i].dir_size && g.runtime_ms == (
                if settings.include_runtime {
                    Some(elapsed_ms)
                } else {
                    None::<u64>
                })),
        decreases n - k,
    {
        let m = &measured[k];
        r.push(
            QueryResult::GeneralResult(
                GeneralResult {
                    path: m.path.clone(),
                    folder_name: folder.clone(),
                    file_count: m.file_count,
                    total_size: to_shorthand(m.dir_size),
                    total_size_u64: m.dir_size,
                    runtime_ms: if settings.include_runtime {
                        Some(elapsed_ms)
                    } else {
                        None
                    },
                },
            ),
        );
        k += 1;
    }
    r
}

/// Builds the folder-query results of one folder name, as
/// [`general_results_from`] does but without repeating the name.
pub fn folder_results_from(
    measured: &Vec<MeasuredDir>,
    settings: &QuerySettings,
    elapsed_ms: u64,
) -> (r: Vec<QueryResult>)
    ensures
        r@.len() == measured@.len(),
        forall|i: int|
            0 <= i < r@.len() ==> (#[trigger] r@[i] matches QueryResult::FolderResult(f) && f.path
                == measured@[i].path && f.file_count == measured@[i].file_count && f.total_size@
                == spec_shorthand(measured@[i].dir_size as nat) && f.total_size_u64
                == measured@[i].dir_size && f.runtime_ms == (if settings.include_runtime {
                Some(elapsed_ms)
            } else {
                None::<u64>
            })),
{
    let n = measured.len();
    let mut r: Vec<QueryResult> = Vec::new();
    let mut k: usize = 0;
    while k < n
        invariant
            n == measured@.len(),
            k <= n,
            r@.len() == k,
            forall|i: int|
                0 <= i < k ==> (#[trigger] r@[i] matches QueryResult::FolderResult(f) && f.path
                    == measured@[i].path && f.file_count == measured@[i].file_count
                    && f.total_size@ == spec_shorthand(measured@[i].dir_size as nat)
                    && f.total_size_u64 == measured@[i].dir_size && f.runtime_ms == (
                if settings.include_runtime {
                    Some(elapsed_ms)
                } else {
                    None::<u64>
                })),
        decreases n - k,
    {
        let m = &measured[k];
        r.push(
            QueryResult::FolderResult(
                FolderResult {
                    path: m.path.clone(),
                    file_count: m.file_count,
                    total_size: to_shorthand(m.dir_size),
                    total_size_u64: m.dir_size,
                    runtime_ms: if settings.include_runtime {
                        Some(elapsed_ms)
                    } else {
                        None
                    },
                },
            ),
        );
        k += 1;
    }
    r
}

fn root_result_from(config: &Config, settings: &QuerySettings, file_count: usize, dir_size: u64) -> (r:
    QueryResult)
    ensures
        r matches QueryResult::RootResult(t) && t.project_name@ == config.setup.name@
            && t.file_count == file_count && t.total_size@ == spec_shorthand(dir_size as nat)
            && t.shoot_days == config.setup.days && t.camera_count == config.setup.cameras
            && t.sound_source_count == config.setup.sound_sources && t.runtime_ms == (
        if settings.include_runtime {
            Some(0u64)
        } else {
            None::<u64>
        }),
{
    QueryResult::RootResult(
        RootResult {
            project_name: config.setup.name.clone(),
            file_count,
            total_size: to_shorthand(dir_size),
            shoot_days: config.setup.days,
            camera_count: config.setup.cameras,
            sound_source_count: config.setup.sound_sources,
            runtime_ms: if settings.include_runtime {
                Some(0)
            } else {
                None
            },
        },
    )
}

/// Measures the whole project tree and reports it together with the
/// configured day, camera and sound-source counts. The file count and byte
/// size come from the disk; everything else is pinned to the configuration.
pub fn query_root(config: &Config, settings: &QuerySettings) -> (r: Result<QueryResult, QueryError>)
    ensures
        r matches Ok(q) ==> (q matches QueryResult::RootResult(t) && t.project_name@
            == config.setup.name@ && t.shoot_days == config.setup.days && t.camera_count
            == config.setup.cameras && t.sound_source_count == config.setup.sound_sources
            && t.runtime_ms == (if settings.include_runtime {
            Some(0u64)
        } else {
            None::<u64>
        })),
        r matches Err(e) ==> e is FsExtraError,
{
    let mut root_path = String::from_str("./");
    root_path.append(config.setup.name.as_str());
    match read_dir_content(root_path.as_str()) {
        Ok(all) => Ok(root_result_from(config, settings, all.files.len(), all.dir_size)),
        Err(e) => Err(QueryError::FsExtraError(e)),
    }
}

/// The result of one day, camera or sound-source index carries the right
/// tag and label for its query kind, the given path, and the given totals.
pub open spec fn spec_iter_result(
    query_type: QueryType,
    index: nat,
    r: QueryResult,
    path: Option<String>,
    file_count: nat,
    total_size: nat,
    include_runtime: bool,
) -> bool {
    match query_type {
        QueryType::Days => r matches QueryResult::DayResult(d) && d.path == path && d.day@
            == spec_day_label(index) && d.file_count == file_count && d.total_size@
            == spec_shorthand(total_size) && d.total_size_u64 == total_size && d.runtime_ms == (
        if include_runtime {
            Some(0u64)
        } else {
            None::<u64>
        }),
        QueryType::Cams => r matches QueryResult::CamResult(c) && c.path == path && c.camera@
            == spec_cam_label(index) && c.file_count == file_count && c.total_size@
            == spec_shorthand(total_size) && c.total_size_u64 == total_size && c.runtime_ms == (
        if include_runtime {
            Some(0u64)
        } else {
            None::<u64>
        }),
        QueryType::Sound => r matches QueryResult::SoundResult(s) && s.path == path
            && s.sound_source@ == spec_sound_label(index) && s.file_count == file_count
            && s.total_size@ == spec_shorthand(total_size) && s.total_size_u64 == total_size
            && s.runtime_ms == (if include_runtime {
            Some(0u64)
        } else {
            None::<u64>
        }),
        QueryType::Root => false,
    }
}

/// The tag a per-index result carries for each query kind.
pub open spec fn spec_iter_variant(query_type: QueryType, r: QueryResult) -> bool {
    match query_type {
        QueryType::Days => r is DayResult,
        QueryType::Cams => r is CamResult,
        QueryType::Sound => r is SoundResult,
        QueryType::Root => false,
    }
}

/// How many indices a day, camera or sound-source query enumerates.
pub open spec fn spec_iter_count(query_type: QueryType, setup: ProjectSetup) -> nat {
    match query_type {
        QueryType::Days => setup.days as nat,
        QueryType::Cams => setup.cameras as nat,
        QueryType::Sound => setup.sound_sources as nat,
        QueryType::Root => 0,
    }
}

/// The result belongs to the query: it is a fully-formed per-index result
/// of the query's kind for some enumerated index and some path and totals.
pub open spec fn spec_iter_tagged(
    query_type: QueryType,
    setup: ProjectSetup,
    r: QueryResult,
    include_runtime: bool,
) -> bool {
    exists|idx: nat, p: Option<String>, fc: nat, ts: nat|
        1 <= idx <= spec_iter_count(query_type, setup) && #[trigger] spec_iter_result(
            query_type,
            idx,
            r,
            p,
            fc,
            ts,
            include_runtime,
        )
}

/// The whole-project result is pinned to the configuration: its name and
/// counts are the configured ones, and its elapsed-time field follows the
/// runtime switch.
pub open spec fn spec_root_pinned(r: QueryResult, config: Config, include_runtime: bool) -> bool {
    r matches QueryResult::RootResult(t) && t.project_name@ == config.setup.name@ && t.shoot_days
        == config.setup.days && t.camera_count == config.setup.cameras && t.sound_source_count
        == config.setup.sound_sources && t.runtime_ms == (if include_runtime {
        Some(0u64)
    } else {
        None::<u64>
    })
}

/// The results from `lo` on are in size order, largest first.
pub open spec fn spec_sorted_from(res: Seq<QueryResult>, lo: int) -> bool {
    forall|a: int, b: int|
        lo <= a < b < res.len() ==> spec_sort_key(#[trigger] res[a]) >= spec_sort_key(
            #[trigger] res[b],
        )
}

fn iterable_target(query_type: QueryType, idx: usize) -> (r: String)
    requires
        query_type != QueryType::Root,
    ensures
        r@ == (match query_type {
            QueryType::Days => day_suffix(idx as nat),
            QueryType::Cams => cam_suffix(idx as nat),
            QueryType::Sound => rec_suffix(idx as nat),
            QueryType::Root => Seq::<char>::empty(),
        }),
{
    match query_type {
        QueryType::Days => {
            let mut s = pad2(idx);
            s.append("_DAY");
            let num = pad2(idx);
            s.append(num.as_str());
            proof {
                assert(s@ =~= day_suffix(idx as nat));
            }
            s
        },
        QueryType::Cams => {
            let mut s = pad2(idx);
            s.append("_");
            s.push(num_to_char(idx));
            s.append("_CAM");
            proof {
                assert(s@ =~= cam_suffix(idx as nat));
            }
            s
        },
        QueryType::Sound => {
            let mut s = pad2(idx);
            s.append("_");
            s.push(num_to_char(idx));
            s.append("_REC");
            proof {
                assert(s@ =~= rec_suffix(idx as nat));
            }
            s
        },
        QueryType::Root => unreached(),
    }
}

/// Runs one day, camera or sound-source query: for each index up to the
/// configured count, finds the matching directories, measures them, and
/// combines them into one result per index (or one per physical directory
/// in unique mode). An index that matches nothing yields a notice instead
/// of a result, unless quiet mode suppresses notices.
pub fn query_iterable(config: &Config, settings: &QuerySettings, query_type: QueryType) -> (r:
    Result<QueryOutput, QueryError>)
    ensures
        query_type == QueryType::Root ==> (r matches Err(QueryError::InvalidQuery(m)) && m@
            == "Root query should not be handled here"@),
        settings.quiet ==> (r matches Ok(out) ==> out.notices@.len() == 0),
        r matches Ok(out) ==> (forall|i: int|
            0 <= i < out.results@.len() ==> spec_iter_variant(
                query_type,
                #[trigger] out.results@[i],
            )),
        r matches Ok(out) ==> (forall|i: int|
            0 <= i < out.results@.len() ==> spec_iter_tagged(
                query_type,
                config.setup,
                #[trigger] out.results@[i],
                settings.include_runtime,
            )),
        !settings.quiet ==> (r matches Ok(out) ==> out.results@.len() + out.notices@.len()
            >= spec_iter_count(query_type, config.setup)),
{
    match query_type {
        QueryType::Root => {
            return Err(
                QueryError::InvalidQuery(String::from_str("Root query should not be handled here")),
            );
        },
        _ => {
        },
    }
    let mut root_path = String::from_str("./");
    root_path.append(config.setup.name.as_str());
    let all = match read_dir_content(root_path.as_str()) {
        Ok(c) => c,
        Err(e) => {
            return Err(QueryError::FsExtraError(e));
        },
    };
    let count = match query_type {
        QueryType::Days => config.setup.days,
        QueryType::Cams => config.setup.cameras,
        QueryType::Sound => config.setup.sound_sources,
        QueryType::Root => unreached(),
    };
    let mut results: Vec<QueryResult> = Vec::new();
    let mut notices: Vec<String> = Vec::new();
    let mut i: usize = 0;
    while i < count
        invariant
            i <= count,
            query_type != QueryType::Root,
            count == spec_iter_count(query_type, config.setup),
            settings.quiet ==> notices@.len() == 0,
            !settings.quiet ==> results@.len() + notices@.len() >= i,
            forall|t: int|
                0 <= t < results@.len() ==> spec_iter_variant(query_type, #[trigger] results@[t]),
            forall|t: int|
                0 <= t < results@.len() ==> spec_iter_tagged(
                    query_type,
                    config.setup,
                    #[trigger] results@[t],
                    settings.include_runtime,
                ),
        decreases count - i,
    {
        let idx = i + 1;
        let target = iterable_target(query_type, idx);
        let matches = matching_dirs(&all.directories, target.as_str());
        if matches.len() == 0 {
            if !settings.quiet {
                notices.push(notice_for(target.as_str()));
            }
        } else {
            let measured = match measure_dirs(&matches) {
                Ok(m) => m,
                Err(e) => {
                    return Err(e);
                },
            };
            let mut batch = combine_index_results(
                query_type,
                idx,
                &measured,
                settings.unique_entries,
                settings,
            );
            proof {
                assert(forall|t: int|
                    0 <= t < batch@.len() ==> spec_iter_variant(query_type, #[trigger] batch@[t]));
                assert forall|t: int|
                    0 <= t < batch@.len() implies spec_iter_tagged(
                    query_type,
                    config.setup,
                    #[trigger] batch@[t],
                    settings.include_runtime,
                ) by {
                    if settings.unique_entries {
                        assert(spec_iter_result(
                            query_type,
                            idx as nat,
                            batch@[t],
                            Some(measured@[t].path),
                            measured@[t].file_count as nat,
                            measured@[t].dir_size as nat,
                            settings.include_runtime,
                        ));
                    } else {
                        assert(spec_iter_result(
                            query_type,
                            idx as nat,
                            batch@[t],
                            None::<String>,
                            (if spec_count_sum(measured@) <= usize::MAX {
                                spec_count_sum(measured@)
                            } else {
                                usize::MAX as nat
                            }),
                            (if spec_size_sum(measured@) <= u64::MAX {
                                spec_size_sum(measured@)
                            } else {
                                u64::MAX as nat
                            }),
                            settings.include_runtime,
                        ));
                    }
                }
                assert(measured_paths(measured@).len() == measured@.len());
                assert(strings_view(matches@).len() == matches@.len());
                assert(measured@.len() >= 1);
                assert(batch@.len() >= 1);
            }
            results.append(&mut batch);
        }
        i += 1;
    }
    Ok(QueryOutput { results, notices })
}

proof fn lemma_sorted_keeps_variants(
    pre: Seq<QueryResult>,
    post: Seq<QueryResult>,
    p: spec_fn(QueryResult) -> bool,
)
    requires
        post.to_multiset() == pre.to_multiset(),
        forall|j: int| 0 <= j < pre.len() ==> p(#[trigger] pre[j]),
    ensures
        forall|i: int| 0 <= i < post.len() ==> p(#[trigger] post[i]),
{
    broadcast use vstd::seq_lib::group_to_multiset_ensures;

    assert forall|i: int| 0 <= i < post.len() implies p(#[trigger] post[i]) by {
        assert(post.contains(post[i]));
        assert(post.to_multiset().count(post[i]) > 0);
        assert(pre.to_multiset().count(post[i]) > 0);
        assert(pre.contains(post[i]));
        let j = choose|j: int| 0 <= j < pre.len() && pre[j] == post[i];
        assert(p(pre[j]));
    }
}

/// The (name, matched path) pairs a name-list query produces over a
/// directory list: name-list order first, walk order within one name, the
/// matched paths with separators normalized.
pub open spec fn spec_match_pairs(folders: Seq<Seq<char>>, dirs: Seq<Seq<char>>) -> Seq<
    (Seq<char>, Seq<char>),
>
    decreases folders.len(),
{
    if folders.len() == 0 {
        Seq::empty()
    } else {
        spec_match_pairs(folders.drop_last(), dirs) + spec_matching(
            dirs,
            folders.last(),
        ).map_values(
            |d: Seq<char>| (folders.last(), d.map_values(|c: char| spec_normalize_char(c))),
        )
    }
}

/// The notices a name-list query produces over a directory list: one per
/// name that matches nothing, in list order, each naming its folder.
pub open spec fn spec_missing_notices(folders: Seq<Seq<char>>, dirs: Seq<Seq<char>>) -> Seq<
    Seq<char>,
>
    decreases folders.len(),
{
    if folders.len() == 0 {
        Seq::empty()
    } else {
        spec_missing_notices(folders.drop_last(), dirs) + (if spec_matching(
            dirs,
            folders.last(),
        ).len() == 0 {
            seq![spec_notice(folders.last())]
        } else {
            Seq::empty()
        })
    }
}

/// Every queried name is answered: it yields at least one matched pair or
/// exactly its one notice, so pairs and notices together cover the list.
pub proof fn lemma_each_name_answered(folders: Seq<Seq<char>>, dirs: Seq<Seq<char>>)
    ensures
        spec_match_pairs(folders, dirs).len() + spec_missing_notices(folders, dirs).len()
            >= folders.len(),
    decreases folders.len(),
{
    if folders.len() > 0 {
        lemma_each_name_answered(folders.drop_last(), dirs);
        let m = spec_matching(dirs, folders.last());
        assert(m.map_values(
            |d: Seq<char>| (folders.last(), d.map_values(|c: char| spec_normalize_char(c))),
        ).len() == m.len());
    }
}

fn collect_general(
    folders: &Vec<String>,
    directories: &Vec<String>,
    settings: &QuerySettings,
    elapsed_ms: u64,
) -> (r: Result<(Vec<QueryResult>, Vec<String>), QueryError>)
    ensures
        r matches Ok(out) ==> ({
            let pairs = spec_match_pairs(strings_view(folders@), strings_view(directories@));
            &&& out.0@.len() == pairs.len()
            &&& (forall|i: int|
                0 <= i < out.0@.len() ==> (#[trigger] out.0@[i] matches QueryResult::GeneralResult(
                    g,
                ) && g.folder_name@ == pairs[i].0 && g.path@ == pairs[i].1 && g.total_size@
                    == spec_shorthand(g.total_size_u64 as nat) && g.runtime_ms == (
                if settings.include_runtime {
                    Some(elapsed_ms)
                } else {
                    None::<u64>
                })))
            &&& strings_view(out.1@) == (if settings.quiet {
                Seq::<Seq<char>>::empty()
            } else {
                spec_missing_notices(strings_view(folders@), strings_view(directories@))
            })
        }),
        r matches Err(e) ==> e is FsExtraError,
{
    let ghost fv = strings_view(folders@);
    let ghost dv = strings_view(directories@);
    let mut results: Vec<QueryResult> = Vec::new();
    let mut notices: Vec<String> = Vec::new();
    let nf = folders.len();
    let mut fi: usize = 0;
    while fi < nf
        invariant
            nf == folders@.len(),
            fi <= nf,
            fv == strings_view(folders@),
            dv == strings_view(directories@),
            results@.len() == spec_match_pairs(fv.subrange(0, fi as int), dv).len(),
            forall|t: int|
                0 <= t < results@.len() ==> (#[trigger] results@[t] matches
                    QueryResult::GeneralResult(g) && g.folder_name@ == spec_match_pairs(
                    fv.subrange(0, fi as int),
                    dv,
                )[t].0 && g.path@ == spec_match_pairs(fv.subrange(0, fi as int), dv)[t].1
                    && g.total_size@ == spec_shorthand(g.total_size_u64 as nat) && g.runtime_ms
                    == (if settings.include_runtime {
                    Some(elapsed_ms)
                } else {
                    None::<u64>
                })),
            strings_view(notices@) == (if settings.quiet {
                Seq::<Seq<char>>::empty()
            } else {
                spec_missing_notices(fv.subrange(0, fi as int), dv)
            }),
        decreases nf - fi,
    {
        let folder = &folders[fi];
        let ghost fpre = fv.subrange(0, fi as int);
        let ghost fnext = fv.subrange(0, fi + 1 as int);
        proof {
            assert(fnext.drop_last() =~= fpre);
            assert(fnext.last() == folder@);
        }
        let matches = matching_dirs(directories, folder.as_str());
        proof {
            assert(strings_view(matches@).len() == matches@.len());
        }
        if matches.len() == 0 {
            proof {
                assert(spec_matching(dv, folder@).len() == 0);
                assert(spec_match_pairs(fnext, dv) =~= spec_match_pairs(fpre, dv));
                assert(spec_missing_notices(fnext, dv) =~= spec_missing_notices(fpre, dv).push(
                    spec_notice(folder@),
                ));
            }
            if !settings.quiet {
                let ghost prevn = notices@;
                let n = notice_for(folder.as_str());
                notices.push(n);
                proof {
                    lemma_strings_view_push(prevn, n);
                }
            }
        } else {
            let measured = match measure_dirs(&matches) {
                Ok(m) => m,
                Err(e) => {
                    return Err(e);
                },
            };
            let mut batch = general_results_from(folder, &measured, settings, elapsed_ms);
            let ghost prevr = results@;
            let ghost batchv = batch@;
            results.append(&mut batch);
            proof {
                let pairf = |d: Seq<char>|
                    (fnext.last(), d.map_values(|c: char| spec_normalize_char(c)));
                let m = spec_matching(dv, folder@);
                assert(spec_match_pairs(fnext, dv) == spec_match_pairs(fpre, dv) + m.map_values(
                    pairf,
                ));
                assert(m.map_values(pairf).len() == m.len());
                assert(measured_paths(measured@).len() == measured@.len());
                assert(measured@.len() == m.len());
                assert(batchv.len() == m.len());
                assert forall|t: int|
                    0 <= t < results@.len() implies (#[trigger] results@[t] matches
                    QueryResult::GeneralResult(g) && g.folder_name@ == spec_match_pairs(
                    fnext,
                    dv,
                )[t].0 && g.path@ == spec_match_pairs(fnext, dv)[t].1 && g.total_size@
                    == spec_shorthand(g.total_size_u64 as nat) && g.runtime_ms == (
                if settings.include_runtime {
                    Some(elapsed_ms)
                } else {
                    None::<u64>
                })) by {
                    if t < prevr.len() {
                        assert(results@[t] == prevr[t]);
                        assert(spec_match_pairs(fnext, dv)[t] == spec_match_pairs(fpre, dv)[t]);
                    } else {
                        let j = t - prevr.len();
                        assert(results@[t] == batchv[j]);
                        assert(spec_match_pairs(fnext, dv)[t] == m.map_values(pairf)[j]);
                        assert(m.map_values(pairf)[j] == pairf(m[j]));
                        assert(measured_paths(measured@)[j] == measured@[j].path@);
                        assert(measured_paths(measured@)[j] == strings_view(
                            matches@,
                        ).map_values(
                            |d: Seq<char>| d.map_values(|c: char| spec_normalize_char(c)),
                        )[j]);
                    }
                }
                assert(spec_missing_notices(fnext, dv) =~= spec_missing_notices(fpre, dv));
            }
        }
        fi += 1;
    }
    proof {
        assert(fv.subrange(0, nf as int) =~= fv);
    }
    Ok((results, notices))
}

fn collect_folders(
    folders: &Vec<String>,
    directories: &Vec<String>,
    settings: &QuerySettings,
    elapsed_ms: u64,
) -> (r: Result<(Vec<QueryResult>, Vec<String>), QueryError>)
    ensures
        r matches Ok(out) ==> ({
            let pairs = spec_match_pairs(strings_view(folders@), strings_view(directories@));
            &&& out.0@.len() == pairs.len()
            &&& (forall|i: int|
                0 <= i < out.0@.len() ==> (#[trigger] out.0@[i] matches QueryResult::FolderResult(
                    f,
                ) && f.path@ == pairs[i].1 && f.total_size@ == spec_shorthand(
                    f.total_size_u64 as nat,
                ) && f.runtime_ms == (if settings.include_runtime {
                    Some(elapsed_ms)
                } else {
                    None::<u64>
                })))
            &&& strings_view(out.1@) == (if settings.quiet {
                Seq::<Seq<char>>::empty()
            } else {
                spec_missing_notices(strings_view(folders@), strings_view(directories@))
            })
        }),
        r matches Err(e) ==> e is FsExtraError,
{
    let ghost fv = strings_view(folders@);
    let ghost dv = strings_view(directories@);
    let mut results: Vec<QueryResult> = Vec::new();
    let mut notices: Vec<String> = Vec::new();
    let nf = folders.len();
    let mut fi: usize = 0;
    while fi < nf
        invariant
            nf == folders@.len(),
            fi <= nf,
            fv == strings_view(folders@),
            dv == strings_view(directories@),
            results@.len() == spec_match_pairs(fv.subrange(0, fi as int), dv).len(),
            forall|t: int|
                0 <= t < results@.len() ==> (#[trigger] results@[t] matches
                    QueryResult::FolderResult(f) && f.path@ == spec_match_pairs(
                    fv.subrange(0, fi as int),
                    dv,
                )[t].1 && f.total_size@ == spec_shorthand(f.total_size_u64 as nat) && f.runtime_ms
                    == (if settings.include_runtime {
                    Some(elapsed_ms)
                } else {
                    None::<u64>
                })),
            strings_view(notices@) == (if settings.quiet {
                Seq::<Seq<char>>::empty()
            } else {
                spec_missing_notices(fv.subrange(0, fi as int), dv)
            }),
        decreases nf - fi,
    {
        let folder = &folders[fi];
        let ghost fpre = fv.subrange(0, fi as int);
        let ghost fnext = fv.subrange(0, fi + 1 as int);
        proof {
            assert(fnext.drop_last() =~= fpre);
            assert(fnext.last() == folder@);
        }
        let matches = matching_dirs(directories, folder.as_str());
        proof {
            assert(strings_view(matches@).len() == matches@.len());
        }
        if matches.len() == 0 {
            proof {
                assert(spec_matching(dv, folder@).len() == 0);
                assert(spec_match_pairs(fnext, dv) =~= spec_match_pairs(fpre, dv));
                assert(spec_missing_notices(fnext, dv) =~= spec_missing_notices(fpre, dv).push(
                    spec_notice(folder@),
                ));
            }
            if !settings.quiet {
                let ghost prevn = notices@;
                let n = notice_for(folder.as_str());
                notices.push(n);
                proof {
                    lemma_strings_view_push(prevn, n);
                }
            }
        } else {
            let measured = match measure_dirs(&matches) {
                Ok(m) => m,
                Err(e) => {
                    return Err(e);
                },
            };
            let mut batch = folder_results_from(&measured, settings, elapsed_ms);
            let ghost prevr = results@;
            let ghost batchv = batch@;
            results.append(&mut batch);
            proof {
                let pairf = |d: Seq<char>|
                    (fnext.last(), d.map_values(|c: char| spec_normalize_char(c)));
                let m = spec_matching(dv, folder@);
                assert(spec_match_pairs(fnext, dv) == spec_match_pairs(fpre, dv) + m.map_values(
                    pairf,
                ));
                assert(m.map_values(pairf).len() == m.len());
                assert(measured_paths(measured@).len() == measured@.len());
                assert(measured@.len() == m.len());
                assert(batchv.len() == m.len());
                assert forall|t: int|
                    0 <= t < results@.len() implies (#[trigger] results@[t] matches
                    QueryResult::FolderResult(f) && f.path@ == spec_match_pairs(fnext, dv)[t].1
                    && f.total_size@ == spec_shorthand(f.total_size_u64 as nat) && f.runtime_ms
                    == (if settings.include_runtime {
                    Some(elapsed_ms)
                } else {
                    None::<u64>
                })) by {
                    if t < prevr.len() {
                        assert(results@[t] == prevr[t]);
                        assert(spec_match_pairs(fnext, dv)[t] == spec_match_pairs(fpre, dv)[t]);
                    } else {
                        let j = t - prevr.len();
                        assert(results@[t] == batchv[j]);
                        assert(spec_match_pairs(fnext, dv)[t] == m.map_values(pairf)[j]);
                        assert(m.map_values(pairf)[j] == pairf(m[j]));
                        assert(measured_paths(measured@)[j] == measured@[j].path@);
                        assert(measured_paths(measured@)[j] == strings_view(
                            matches@,
                        ).map_values(
                            |d: Seq<char>| d.map_values(|c: char| spec_normalize_char(c)),
                        )[j]);
                    }
                }
                assert(spec_missing_notices(fnext, dv) =~= spec_missing_notices(fpre, dv));
            }
        }
        fi += 1;
    }
    proof {
        assert(fv.subrange(0, nf as int) =~= fv);
    }
    Ok((results, notices))
}

/// What a finished general query guarantees whatever the disk held: the
/// pinned whole-project result first, well-formed general results after
/// it, size order from index one on when size sorting was chosen, no
/// notices in quiet mode, and otherwise at least one result or notice per
/// queried name.
pub open spec fn spec_general_output(
    out: QueryOutput,
    config: Config,
    settings: QuerySettings,
    sort_type: SortType,
    elapsed_ms: u64,
) -> bool {
    &&& out.results@.len() >= 1
    &&& spec_root_pinned(out.results@[0], config, settings.include_runtime)
    &&& (forall|i: int|
        1 <= i < out.results@.len() ==> (#[trigger] out.results@[i] matches
            QueryResult::GeneralResult(g) && g.total_size@ == spec_shorthand(
            g.total_size_u64 as nat,
        ) && g.runtime_ms == (if settings.include_runtime {
            Some(elapsed_ms)
        } else {
            None::<u64>
        })))
    &&& (sort_type is BySize ==> spec_sorted_from(out.results@, 1))
    &&& (settings.quiet ==> out.notices@.len() == 0)
    &&& (!settings.quiet ==> out.results@.len() + out.notices@.len()
        >= config.general_query_params@.len() + 1)
}

/// Runs the general query: for each name on the configured list, measures
/// every directory whose path ends with that name, sorts the results as
/// requested, and puts the whole-project result first. A name that matches
/// nothing yields a notice instead of a result, unless quiet mode
/// suppresses notices; [`spec_match_pairs`] and [`spec_missing_notices`]
/// pin those outcomes exactly against the read directory list one call
/// down, in `collect_general`.
pub fn query_general(
    sort_type: SortType,
    config: Config,
    settings: QuerySettings,
    elapsed_ms: u64,
) -> (r: Result<QueryOutput, QueryError>)
    ensures
        r matches Ok(out) ==> spec_general_output(out, config, settings, sort_type, elapsed_ms),
{
    let mut root_path = String::from_str("./");
    root_path.append(config.setup.name.as_str());
    let all = match read_dir_content(root_path.as_str()) {
        Ok(c) => c,
        Err(e) => {
            return Err(QueryError::FsExtraError(e));
        },
    };
    let collected = match collect_general(
        &config.general_query_params,
        &all.directories,
        &settings,
        elapsed_ms,
    ) {
        Ok(c) => c,
        Err(e) => {
            return Err(e);
        },
    };
    let mut results = collected.0;
    let notices = collected.1;
    let ghost fv = strings_view(config.general_query_params@);
    let ghost dv = strings_view(all.directories@);
    proof {
        lemma_each_name_answered(fv, dv);
        assert(strings_view(notices@).len() == notices@.len());
        assert(fv.len() == config.general_query_params@.len());
        assert(!settings.quiet ==> results@.len() + notices@.len()
            >= config.general_query_params@.len());
    }
    let ghost wellformed = |r: QueryResult|
        {
            r matches QueryResult::GeneralResult(g) && g.total_size@ == spec_shorthand(
                g.total_size_u64 as nat,
            ) && g.runtime_ms == (if settings.include_runtime {
                Some(elapsed_ms)
            } else {
                None::<u64>
            })
        };
    let ghost pre_sort = results@;
    apply_sorting(&mut results, &sort_type);
    proof {
        if sort_type is BySize {
            lemma_sorted_keeps_variants(pre_sort, results@, wellformed);
        }
        assert(forall|t: int| 0 <= t < results@.len() ==> wellformed(#[trigger] results@[t]));
    }
    let root = match query_root(&config, &settings) {
        Ok(q) => q,
        Err(e) => {
            return Err(e);
        },
    };
    let ghost sorted = results@;
    results.insert(0, root);
    proof {
        assert(results@ =~= seq![root] + sorted);
        assert(results@[0] == root);
        assert(spec_root_pinned(root, config, settings.include_runtime));
        assert(forall|i: int| 1 <= i < results@.len() ==> results@[i] == sorted[i - 1]);
        if sort_type is BySize {
            assert(spec_sorted_from(results@, 1));
        }
    }
    Ok(QueryOutput { results, notices })
}

/// What a finished folder query guarantees whatever the disk held: only
/// well-formed folder results (no automatic whole-project result), size
/// order when size sorting was chosen, no notices in quiet mode, and
/// otherwise at least one result or notice per requested name.
pub open spec fn spec_folder_output(
    out: QueryOutput,
    folders: Seq<Seq<char>>,
    settings: QuerySettings,
    sort_type: SortType,
    elapsed_ms: u64,
) -> bool {
    &&& (forall|i: int|
        0 <= i < out.results@.len() ==> (#[trigger] out.results@[i] matches
            QueryResult::FolderResult(f) && f.total_size@ == spec_shorthand(
            f.total_size_u64 as nat,
        ) && f.runtime_ms == (if settings.include_runtime {
            Some(elapsed_ms)
        } else {
            None::<u64>
        })))
    &&& (sort_type is BySize ==> spec_sorted_from(out.results@, 0))
    &&& (settings.quiet ==> out.notices@.len() == 0)
    &&& (!settings.quiet ==> out.results@.len() + out.notices@.len() >= folders.len())
}

/// Runs the folder query: like the general query, but over caller-chosen
/// folder names and without the whole-project result. The exact per-name
/// matches and notices are pinned against the read directory list in
/// `collect_folders`.
pub fn query_folders(
    folders: Vec<String>,
    sort_type: SortType,
    config: Config,
    settings: QuerySettings,
    elapsed_ms: u64,
) -> (r: Result<QueryOutput, QueryError>)
    ensures
        r matches Ok(out) ==> spec_folder_output(
            out,
            strings_view(folders@),
            settings,
            sort_type,
            elapsed_ms,
        ),
{
    let mut root_path = String::from_str("./");
    root_path.append(config.setup.name.as_str());
    let all = match read_dir_content(root_path.as_str()) {
        Ok(c) => c,
        Err(e) => {
            return Err(QueryError::FsExtraError(e));
        },
    };
    let collected = match collect_folders(&folders, &all.directories, &settings, elapsed_ms) {
        Ok(c) => c,
        Err(e) => {
            return Err(e);
        },
    };
    let mut results = collected.0;
    let notices = collected.1;
    let ghost fv = strings_view(folders@);
    let ghost dv = strings_view(all.directories@);
    proof {
        lemma_each_name_answered(fv, dv);
        assert(strings_view(notices@).len() == notices@.len());
        assert(fv.len() == folders@.len());
        assert(!settings.quiet ==> results@.len() + notices@.len() >= folders@.len());
    }
    let ghost wellformed = |r: QueryResult|
        {
            r matches QueryResult::FolderResult(f) && f.total_size@ == spec_shorthand(
                f.total_size_u64 as nat,
            ) && f.runtime_ms == (if settings.include_runtime {
                Some(elapsed_ms)
            } else {
                None::<u64>
            })
        };
    let ghost pre_sort = results@;
    apply_sorting(&mut results, &sort_type);
    proof {
        if sort_type is BySize {
            lemma_sorted_keeps_variants(pre_sort, results@, wellformed);
        }
        assert(forall|t: int| 0 <= t < results@.len() ==> wellformed(#[trigger] results@[t]));
    }
    Ok(QueryOutput { results, notices })
}

/// A result of a partial query belongs to one of the requested subjects:
/// it is the pinned whole-project result for a requested root subject, or
/// a fully-formed per-index result of some requested day, camera or
/// sound-source subject.
pub open spec fn spec_partial_elem(
    r: QueryResult,
    types: Seq<QueryType>,
    config: Config,
    include_runtime: bool,
) -> bool {
    ||| (types.contains(QueryType::Root) && spec_root_pinned(r, config, include_runtime))
    ||| (exists|qt: QueryType|
        #[trigger] types.contains(qt) && qt != QueryType::Root && spec_iter_tagged(
            qt,
            config.setup,
            r,
            include_runtime,
        ))
}

/// Some result in the list is the pinned whole-project result.
pub open spec fn has_pinned_root(res: Seq<QueryResult>, config: Config, include_runtime: bool) -> bool {
    exists|i: int| 0 <= i < res.len() && spec_root_pinned(#[trigger] res[i], config, include_runtime)
}

/// What a finished partial query guarantees whatever the disk held: every
/// result belongs to a requested subject, a requested root subject puts its
/// pinned whole-project result in the list, under a valid setup every
/// request yields at least one result or notice (unless quiet suppresses
/// notices), size order holds when size sorting was chosen, and quiet mode
/// yields no notices.
pub open spec fn spec_partial_output(
    out: QueryOutput,
    types: Seq<QueryType>,
    config: Config,
    settings: QuerySettings,
    sort_type: SortType,
) -> bool {
    &&& (forall|i: int|
        0 <= i < out.results@.len() ==> spec_partial_elem(
            #[trigger] out.results@[i],
            types,
            config,
            settings.include_runtime,
        ))
    &&& (types.contains(QueryType::Root) ==> has_pinned_root(
        out.results@,
        config,
        settings.include_runtime,
    ))
    &&& (config.setup.is_valid() && !settings.quiet ==> out.results@.len() + out.notices@.len()
        >= types.len())
    &&& (sort_type is BySize ==> spec_sorted_from(out.results@, 0))
    &&& (settings.quiet ==> out.notices@.len() == 0)
}

/// Runs the partial query: each requested subject in request order (the
/// whole project, days, cameras, sound sources), sorted at the end as
/// requested.
pub fn query_partial(
    types_to_query: Vec<QueryType>,
    sort_type: SortType,
    config: Config,
    settings: QuerySettings,
) -> (r: Result<QueryOutput, QueryError>)
    ensures
        r matches Ok(out) ==> spec_partial_output(
            out,
            types_to_query@,
            config,
            settings,
            sort_type,
        ),
{
    let mut results: Vec<QueryResult> = Vec::new();
    let mut notices: Vec<String> = Vec::new();
    let nt = types_to_query.len();
    let mut ti: usize = 0;
    while ti < nt
        invariant
            nt == types_to_query@.len(),
            ti <= nt,
            settings.quiet ==> notices@.len() == 0,
            config.setup.is_valid() && !settings.quiet ==> results@.len() + notices@.len() >= ti,
            (exists|k: int| 0 <= k < ti && types_to_query@[k] == QueryType::Root)
                ==> has_pinned_root(results@, config, settings.include_runtime),
            forall|t: int|
                0 <= t < results@.len() ==> spec_partial_elem(
                    #[trigger] results@[t],
                    types_to_query@,
                    config,
                    settings.include_runtime,
                ),
        decreases nt - ti,
    {
        let query_type = types_to_query[ti];
        proof {
            assert(types_to_query@.contains(query_type)) by {
                assert(types_to_query@[ti as int] == query_type);
            }
        }
        match query_type {
            QueryType::Root => {
                let root = match query_root(&config, &settings) {
                    Ok(q) => q,
                    Err(e) => {
                        return Err(e);
                    },
                };
                let ghost prevr = results@;
                results.push(root);
                proof {
                    assert(results@[prevr.len() as int] == root);
                    assert(forall|i: int| 0 <= i < prevr.len() ==> results@[i] == prevr[i]);
                }
            },
            _ => {
                let mut out = match query_iterable(&config, &settings, query_type) {
                    Ok(o) => o,
                    Err(e) => {
                        return Err(e);
                    },
                };
                let ghost outv = out.results@;
                let ghost outn = out.notices@;
                let ghost prevr = results@;
                results.append(&mut out.results);
                notices.append(&mut out.notices);
                proof {
                    assert(forall|i: int| 0 <= i < prevr.len() ==> results@[i] == prevr[i]);
                    if config.setup.is_valid() && !settings.quiet {
                        assert(spec_iter_count(query_type, config.setup) >= 1);
                        assert(outv.len() + outn.len() >= 1) by {
                            assert(outv.len() + outn.len() >= spec_iter_count(
                                query_type,
                                config.setup,
                            ));
                        }
                    }
                    assert forall|t: int|
                        0 <= t < results@.len() implies spec_partial_elem(
                        #[trigger] results@[t],
                        types_to_query@,
                        config,
                        settings.include_runtime,
                    ) by {
                        if t >= results@.len() - outv.len() {
                            let j = t - (results@.len() - outv.len());
                            assert(results@[t] == outv[j]);
                            assert(spec_iter_tagged(
                                query_type,
                                config.setup,
                                outv[j],
                                settings.include_runtime,
                            ));
                        }
                    }
                }
            },
        }
        ti += 1;
    }
    proof {
        if types_to_query@.contains(QueryType::Root) {
            let kk = choose|k: int|
                0 <= k < types_to_query@.len() && types_to_query@[k] == QueryType::Root;
            assert(exists|k: int| 0 <= k < ti && types_to_query@[k] == QueryType::Root) by {
                assert(types_to_query@[kk] == QueryType::Root);
            }
        }
    }
    let ghost pre_sort = results@;
    apply_sorting(&mut results, &sort_type);
    proof {
        if !(sort_type is BySize) {
            assert(results@ == pre_sort);
        }
        if sort_type is BySize {
            lemma_sorted_keeps_variants(
                pre_sort,
                results@,
                |r: QueryResult|
                    spec_partial_elem(r, types_to_query@, config, settings.include_runtime),
            );
            broadcast use vstd::seq_lib::group_to_multiset_ensures;

            if types_to_query@.contains(QueryType::Root) {
                let w = choose|i: int|
                    0 <= i < pre_sort.len() && spec_root_pinned(
                        #[trigger] pre_sort[i],
                        config,
                        settings.include_runtime,
                    );
                assert(pre_sort.contains(pre_sort[w]));
                assert(pre_sort.to_multiset().count(pre_sort[w]) > 0);
                assert(results@.to_multiset().count(pre_sort[w]) > 0);
                assert(results@.contains(pre_sort[w]));
                let i2 = choose|i: int| 0 <= i < results@.len() && results@[i] == pre_sort[w];
                assert(spec_root_pinned(results@[i2], config, settings.include_runtime));
                assert(has_pinned_root(results@, config, settings.include_runtime));
            }
        }
    }
    Ok(QueryOutput { results, notices })
}

/// Runs whichever query the parsed invocation asks for, handing the
/// dispatched query's guarantees through; an invocation that names no
/// query is a fatal error.
pub fn query(query_info: QueryInfo, elapsed_ms: u64) -> (r: Result<QueryOutput, QueryError>)
    ensures
        query_info.query is Unset ==> (r matches Err(QueryError::InvalidQuery(m)) && m@
            == "No query type specified"@),
        query_info.settings.quiet ==> (r matches Ok(out) ==> out.notices@.len() == 0),
        (match query_info.query {
            Query::General(st) => r matches Ok(out) ==> spec_general_output(
                out,
                query_info.config,
                query_info.settings,
                st,
                elapsed_ms,
            ),
            Query::Partial(ts, st) => r matches Ok(out) ==> spec_partial_output(
                out,
                ts@,
                query_info.config,
                query_info.settings,
                st,
            ),
            Query::Folder(fs, st) => r matches Ok(out) ==> spec_folder_output(
                out,
                strings_view(fs@),
                query_info.settings,
                st,
                elapsed_ms,
            ),
            Query::Unset => true,
        }),
{
    match query_info.query {
        Query::General(sort_type) => query_general(
            sort_type,
            query_info.config,
            query_info.settings,
            elapsed_ms,
        ),
        Query::Partial(types, sort_type) => query_partial(
            types,
            sort_type,
            query_info.config,
            query_info.settings,
        ),
        Query::Folder(folders, sort_type) => query_folders(
            folders,
            sort_type,
            query_info.config,
            query_info.settings,
            elapsed_ms,
        ),
        Query::Unset => Err(QueryError::InvalidQuery(String::from_str("No query type specified"))),
    }
}

} // verus!
