//! The folder template resolver: expands the parent-referencing folder
//! template into the concrete, ordered set of paths a project implies.
//!
//! A template entry's paths are built by following `parent_id` links up to a
//! root entry and joining segment names with `/` under the project name.
//! Wherever a segment is one of the repetition markers it expands into one
//! sibling per day, camera or sound source, and every segment below it is
//! carried independently into each expansion (tree multiplication, not a
//! flat append). Ancestor lookup is bounded by a hard depth ceiling so that
//! a cyclic or over-deep template is reported as a fatal configuration
//! error instead of hanging the resolver.

use vstd::prelude::*;

verus! {

use vstd::string::StrSliceExecFns;
use vstd::string::StringExecFns;
use crate::config::Config;
use crate::config::ConfigError;
use crate::config::FileStructure;
use crate::config::Folder;
use crate::config::FolderView;
use crate::init::ProjectSetup;
use crate::strings::lemma_strings_view_append;
use crate::strings::lemma_strings_view_push;
use crate::strings::pad2;
use crate::strings::spec_pad2;
use crate::strings::spec_u64_string;
use crate::strings::str_eq;
use crate::strings::strings_view;
use crate::strings::vec_contains_str;

/// The hard ceiling on ancestor-chain length: beyond it the template is
/// treated as malformed or cyclic.
pub const MAX_ANCESTOR_DEPTH: usize = 100;

/// How resolving paths may end: concrete paths, a dangling parent reference
/// (carrying the offending id), or an ancestor chain beyond the depth
/// ceiling.
pub ghost enum Resolved<T> {
    Found(T),
    MissingParent(Seq<char>),
    TooDeep,
}

/// The first template entry with the given id, scanning in list order.
pub open spec fn find_folder(folders: Seq<FolderView>, id: Seq<char>) -> Option<FolderView>
    decreases folders.len(),
{
    if folders.len() == 0 {
        None
    } else if folders[0].id == id {
        Some(folders[0])
    } else {
        find_folder(folders.drop_first(), id)
    }
}

proof fn lemma_find_folder_hit(folders: Seq<FolderView>, id: Seq<char>, i: int)
    requires
        0 <= i < folders.len(),
        folders[i].id == id,
        forall|j: int| 0 <= j < i ==> folders[j].id != id,
    ensures
        find_folder(folders, id) == Some(folders[i]),
    decreases i,
{
    if i > 0 {
        lemma_find_folder_hit(folders.drop_first(), id, i - 1);
    }
}

proof fn lemma_find_folder_miss(folders: Seq<FolderView>, id: Seq<char>)
    requires
        forall|j: int| 0 <= j < folders.len() ==> folders[j].id != id,
    ensures
        find_folder(folders, id) is None,
    decreases folders.len(),
{
    if folders.len() > 0 {
        lemma_find_folder_miss(folders.drop_first(), id);
    }
}

fn find_folder_entry<'a>(structure: &'a FileStructure, id: &str) -> (r: Option<&'a Folder>)
    ensures
        (match r {
            Some(f) => find_folder(structure@, id@) == Some(f@),
            None => find_folder(structure@, id@) is None,
        }),
{
    let n = structure.folders_list.len();
    let mut j: usize = 0;
    while j < n
        invariant
            n == structure.folders_list.len(),
            j <= n,
            forall|k: int| 0 <= k < j ==> structure@[k].id != id@,
        decreases n - j,
    {
        let f = &structure.folders_list[j];
        if str_eq(f.id.as_str(), id) {
            proof {
                assert(structure@[j as int] == f@);
                lemma_find_folder_hit(structure@, id@, j as int);
            }
            return Some(f);
        }
        proof {
            assert(structure@[j as int] == f@);
        }
        j += 1;
    }
    proof {
        lemma_find_folder_miss(structure@, id@);
    }
    None
}

/// The one-indexed uppercase letter of a camera or sound source: `1` maps
/// to `A` and `26` to `Z`; anything outside that range maps to the
/// underscore sentinel.
pub open spec fn spec_num_to_char(num: nat) -> char {
    if 1 <= num <= 26 {
        ((num + 64) as u8) as char
    } else {
        '_'
    }
}

/// Maps a one-indexed count to its uppercase letter, with `_` as the
/// sentinel outside `1..=26`.
pub fn num_to_char(num: usize) -> (c: char)
    ensures
        c == spec_num_to_char(num as nat),
{
    if num >= 1 && num <= 26 {
        (num as u8 + 64) as char
    } else {
        '_'
    }
}

proof fn lemma_markers_distinct()
    ensures
        "%days"@ != "%cams"@,
        "%days"@ != "%soundsources"@,
        "%cams"@ != "%soundsources"@,
{
    reveal_strlit("%days");
    reveal_strlit("%cams");
    reveal_strlit("%soundsources");
    assert(("%days"@)[1] == 'd');
    assert(("%cams"@)[1] == 'c');
    assert(("%soundsources"@).len() == 13);
}

/// The directory name of shooting day `i`.
pub open spec fn day_suffix(i: nat) -> Seq<char> {
    spec_pad2(i) + "_DAY"@ + spec_pad2(i)
}

/// The directory name of camera `i`.
pub open spec fn cam_suffix(i: nat) -> Seq<char> {
    spec_pad2(i) + "_"@ + seq![spec_num_to_char(i)] + "_CAM"@
}

/// The directory name of sound source `i`.
pub open spec fn rec_suffix(i: nat) -> Seq<char> {
    spec_pad2(i) + "_"@ + seq![spec_num_to_char(i)] + "_REC"@
}

/// Into how many siblings one template segment expands: the configured
/// count for a repetition marker, and one for a literal name.
pub open spec fn expansion_factor(name: Seq<char>, setup: ProjectSetup) -> nat {
    if name == "%days"@ {
        setup.days as nat
    } else if name == "%cams"@ {
        setup.cameras as nat
    } else if name == "%soundsources"@ {
        setup.sound_sources as nat
    } else {
        1
    }
}

/// The paths one template segment contributes under a single base path:
/// one sibling per repetition index for a marker, ascending, and a single
/// joined path for a literal name.
pub open spec fn expand_one(base: Seq<char>, name: Seq<char>, setup: ProjectSetup) -> Seq<
    Seq<char>,
> {
    if name == "%days"@ {
        Seq::new(setup.days as nat, |k: int| base + "/"@ + day_suffix((k + 1) as nat))
    } else if name == "%cams"@ {
        Seq::new(setup.cameras as nat, |k: int| base + "/"@ + cam_suffix((k + 1) as nat))
    } else if name == "%soundsources"@ {
        Seq::new(setup.sound_sources as nat, |k: int| base + "/"@ + rec_suffix((k + 1) as nat))
    } else {
        seq![base + "/"@ + name]
    }
}

/// The paths one template segment contributes under every base path in
/// turn: the expansions of each base, base order first, index order within.
pub open spec fn expand_segment(bases: Seq<Seq<char>>, name: Seq<char>, setup: ProjectSetup) -> Seq<
    Seq<char>,
>
    decreases bases.len(),
{
    if bases.len() == 0 {
        Seq::empty()
    } else {
        expand_segment(bases.drop_last(), name, setup) + expand_one(bases.last(), name, setup)
    }
}

/// A repetition marker contributes exactly the corresponding count of
/// sibling paths under each base path (so its expansion is empty only if
/// the count were zero, which validation forbids), and a literal segment
/// contributes exactly one.
pub proof fn lemma_repeating_expansion_count(base: Seq<char>, name: Seq<char>, setup: ProjectSetup)
    ensures
        name == "%days"@ ==> expand_one(base, name, setup).len() == setup.days,
        name == "%cams"@ ==> expand_one(base, name, setup).len() == setup.cameras,
        name == "%soundsources"@ ==> expand_one(base, name, setup).len() == setup.sound_sources,
        name != "%days"@ && name != "%cams"@ && name != "%soundsources"@ ==> expand_one(
            base,
            name,
            setup,
        ).len() == 1,
{
    lemma_markers_distinct();
}

/// Expanding a segment under a list of bases multiplies: the whole
/// expansion holds one entry per base and expansion index.
pub proof fn lemma_expand_segment_len(bases: Seq<Seq<char>>, name: Seq<char>, setup: ProjectSetup)
    ensures
        expand_segment(bases, name, setup).len() == bases.len() * expansion_factor(name, setup),
    decreases bases.len(),
{
    if bases.len() == 0 {
    } else {
        lemma_expand_segment_len(bases.drop_last(), name, setup);
        let n = bases.len() as int;
        let f = expansion_factor(name, setup) as int;
        assert(expand_one(bases.last(), name, setup).len() == f);
        assert((n - 1) * f + f == n * f) by (nonlinear_arith);
    }
}

fn expand_one_exec(base: &str, name: &String, setup: &ProjectSetup) -> (r: Vec<String>)
    ensures
        strings_view(r@) == expand_one(base@, name@, *setup),
{
    let mut paths: Vec<String> = Vec::new();
    if str_eq(name.as_str(), "%days") {
        let count = setup.days;
        let mut i: usize = 0;
        while i < count
            invariant
                count == setup.days,
                i <= count,
                strings_view(paths@) == Seq::new(
                    i as nat,
                    |k: int| base@ + "/"@ + day_suffix((k + 1) as nat),
                ),
            decreases count - i,
        {
            let idx = i + 1;
            let mut p = base.to_owned();
            p.append("/");
            let num = pad2(idx);
            p.append(num.as_str());
            p.append("_DAY");
            let num2 = pad2(idx);
            p.append(num2.as_str());
            proof {
                assert(p@ =~= base@ + "/"@ + day_suffix((i + 1) as nat));
            }
            let ghost prev = paths@;
            paths.push(p);
            proof {
                lemma_strings_view_push(prev, p);
                assert(strings_view(paths@) =~~= Seq::new(
                    (i + 1) as nat,
                    |k: int| base@ + "/"@ + day_suffix((k + 1) as nat),
                ));
            }
            i += 1;
        }
        proof {
            lemma_markers_distinct();
            assert(strings_view(paths@) =~~= expand_one(base@, name@, *setup));
        }
        paths
    } else if str_eq(name.as_str(), "%cams") {
        let count = setup.cameras;
        let mut i: usize = 0;
        while i < count
            invariant
                count == setup.cameras,
                i <= count,
                strings_view(paths@) == Seq::new(
                    i as nat,
                    |k: int| base@ + "/"@ + cam_suffix((k + 1) as nat),
                ),
            decreases count - i,
        {
            let idx = i + 1;
            let mut p = base.to_owned();
            p.append("/");
            let num = pad2(idx);
            p.append(num.as_str());
            p.append("_");
            p.push(num_to_char(idx));
            p.append("_CAM");
            proof {
                assert(p@ =~= base@ + "/"@ + cam_suffix((i + 1) as nat));
            }
            let ghost prev = paths@;
            paths.push(p);
            proof {
                lemma_strings_view_push(prev, p);
                assert(strings_view(paths@) =~~= Seq::new(
                    (i + 1) as nat,
                    |k: int| base@ + "/"@ + cam_suffix((k + 1) as nat),
                ));
            }
            i += 1;
        }
        proof {
            lemma_markers_distinct();
            assert(strings_view(paths@) =~~= expand_one(base@, name@, *setup));
        }
        paths
    } else if str_eq(name.as_str(), "%soundsources") {
        let count = setup.sound_sources;
        let mut i: usize = 0;
        while i < count
            invariant
                count == setup.sound_sources,
                i <= count,
                strings_view(paths@) == Seq::new(
                    i as nat,
                    |k: int| base@ + "/"@ + rec_suffix((k + 1) as nat),
                ),
            decreases count - i,
        {
            let idx = i + 1;
            let mut p = base.to_owned();
            p.append("/");
            let num = pad2(idx);
            p.append(num.as_str());
            p.append("_");
            p.push(num_to_char(idx));
            p.append("_REC");
            proof {
                assert(p@ =~= base@ + "/"@ + rec_suffix((i + 1) as nat));
            }
            let ghost prev = paths@;
            paths.push(p);
            proof {
                lemma_strings_view_push(prev, p);
                assert(strings_view(paths@) =~~= Seq::new(
                    (i + 1) as nat,
                    |k: int| base@ + "/"@ + rec_suffix((k + 1) as nat),
                ));
            }
            i += 1;
        }
        proof {
            lemma_markers_distinct();
            assert(strings_view(paths@) =~~= expand_one(base@, name@, *setup));
        }
        paths
    } else {
        let mut p = base.to_owned();
        p.append("/");
        p.append(name.as_str());
        let ghost prev = paths@;
        paths.push(p);
        proof {
            lemma_strings_view_push(prev, p);
            assert(strings_view(paths@) =~~= expand_one(base@, name@, *setup));
        }
        paths
    }
}

fn expand_segment_exec(bases: &Vec<String>, name: &String, setup: &ProjectSetup) -> (r: Vec<String>)
    ensures
        strings_view(r@) == expand_segment(strings_view(bases@), name@, *setup),
{
    let n = bases.len();
    let mut out: Vec<String> = Vec::new();
    let mut i: usize = 0;
    while i < n
        invariant
            n == bases@.len(),
            i <= n,
            strings_view(out@) == expand_segment(
                strings_view(bases@).subrange(0, i as int),
                name@,
                *setup,
            ),
        decreases n - i,
    {
        let mut batch = expand_one_exec(bases[i].as_str(), name, setup);
        let ghost prev = out@;
        let ghost batchv = batch@;
        out.append(&mut batch);
        proof {
            let bv = strings_view(bases@);
            assert(bv.subrange(0, i + 1 as int).drop_last() =~= bv.subrange(0, i as int));
            assert(bv.subrange(0, i + 1 as int).last() == bv[i as int]);
            lemma_strings_view_append(prev, batchv);
        }
        i += 1;
    }
    proof {
        assert(strings_view(bases@).subrange(0, n as int) =~= strings_view(bases@));
    }
    out
}

/// The full set of base paths of the entry with id `parent_id`: every
/// combination of repetition indices along its ancestor chain, joined
/// root-to-leaf under the project name, with at most `depth` links
/// followed.
pub open spec fn spec_parent_paths(
    folders: Seq<FolderView>,
    parent_id: Seq<char>,
    project_name: Seq<char>,
    setup: ProjectSetup,
    depth: nat,
) -> Resolved<Seq<Seq<char>>>
    decreases depth,
{
    if depth == 0 {
        Resolved::TooDeep
    } else {
        match find_folder(folders, parent_id) {
            None => Resolved::MissingParent(parent_id),
            Some(f) => match f.parent_id {
                None => Resolved::Found(expand_one(project_name, f.name, setup)),
                Some(gp) => match spec_parent_paths(
                    folders,
                    gp,
                    project_name,
                    setup,
                    (depth - 1) as nat,
                ) {
                    Resolved::Found(bases) => Resolved::Found(expand_segment(bases, f.name, setup)),
                    e => e,
                },
            },
        }
    }
}

fn find_parent_path_depth(parent_id: &str, config: &Config, project_name: &str, depth: usize) -> (r:
    Result<Vec<String>, ConfigError>)
    ensures
        (match spec_parent_paths(
            config.file_structure@,
            parent_id@,
            project_name@,
            config.setup,
            depth as nat,
        ) {
            Resolved::Found(ps) => r matches Ok(v) && strings_view(v@) == ps,
            Resolved::MissingParent(id) => r matches Err(ConfigError::ParseError(m)) && m@
                == "Parent folder with ID '"@ + id + "' not found"@,
            Resolved::TooDeep => r matches Err(ConfigError::ParseError(m)) && m@
                == "Exceeded maximum ancestor depth"@,
        }),
    decreases depth,
{
    if depth == 0 {
        return Err(ConfigError::ParseError(String::from_str("Exceeded maximum ancestor depth")));
    }
    match find_folder_entry(&config.file_structure, parent_id) {
        None => {
            let mut m = String::from_str("Parent folder with ID '");
            m.append(parent_id);
            m.append("' not found");
            Err(ConfigError::ParseError(m))
        },
        Some(f) => match &f.parent_id {
            Some(gp) => match find_parent_path_depth(gp.as_str(), config, project_name, depth - 1) {
                Ok(bases) => Ok(expand_segment_exec(&bases, &f.name, &config.setup)),
                Err(e) => Err(e),
            },
            None => Ok(expand_one_exec(project_name, &f.name, &config.setup)),
        },
    }
}

/// Resolves every path of the template entry with the given id by following
/// parent links and expanding repetition markers along the way, joining
/// segment names under the project name. A dangling reference or an
/// ancestor chain longer than [`MAX_ANCESTOR_DEPTH`] is a fatal
/// configuration error.
pub fn find_parent_path(parent_id: &str, config: &Config, project_name: &str) -> (r: Result<
    Vec<String>,
    ConfigError,
>)
    ensures
        (match spec_parent_paths(
            config.file_structure@,
            parent_id@,
            project_name@,
            config.setup,
            MAX_ANCESTOR_DEPTH as nat,
        ) {
            Resolved::Found(ps) => r matches Ok(v) && strings_view(v@) == ps,
            Resolved::MissingParent(id) => r matches Err(ConfigError::ParseError(m)) && m@
                == "Parent folder with ID '"@ + id + "' not found"@,
            Resolved::TooDeep => r matches Err(ConfigError::ParseError(m)) && m@
                == "Exceeded maximum ancestor depth"@,
        }),
{
    find_parent_path_depth(parent_id, config, project_name, MAX_ANCESTOR_DEPTH)
}

/// Every path one template entry contributes: its parents' expanded paths,
/// each expanded once more by the entry's own segment.
pub open spec fn spec_node_paths(
    folders: Seq<FolderView>,
    folder: FolderView,
    project_name: Seq<char>,
    setup: ProjectSetup,
) -> Resolved<Seq<Seq<char>>> {
    match folder.parent_id {
        None => Resolved::Found(expand_one(project_name, folder.name, setup)),
        Some(pid) => match spec_parent_paths(
            folders,
            pid,
            project_name,
            setup,
            MAX_ANCESTOR_DEPTH as nat,
        ) {
            Resolved::Found(bases) => Resolved::Found(expand_segment(bases, folder.name, setup)),
            e => e,
        },
    }
}

/// Expands one template entry into its new_pathsution to the resolved path
/// set: under each of its parents' expanded base paths, `setup.days`,
/// `setup.cameras` or `setup.sound_sources` sibling paths for a repetition
/// marker, and exactly one path otherwise.
pub fn build_folder_path(folder: &Folder, config: &Config, project_name: &str) -> (r: Result<
    Vec<String>,
    ConfigError,
>)
    ensures
        (match spec_node_paths(config.file_structure@, folder@, project_name@, config.setup) {
            Resolved::Found(ps) => r matches Ok(v) && strings_view(v@) == ps,
            Resolved::MissingParent(id) => r matches Err(ConfigError::ParseError(m)) && m@
                == "Parent folder with ID '"@ + id + "' not found"@,
            Resolved::TooDeep => r matches Err(ConfigError::ParseError(m)) && m@
                == "Exceeded maximum ancestor depth"@,
        }),
{
    match &folder.parent_id {
        None => Ok(expand_one_exec(project_name, &folder.name, &config.setup)),
        Some(pid) => match find_parent_path(pid.as_str(), config, project_name) {
            Ok(bases) => Ok(expand_segment_exec(&bases, &folder.name, &config.setup)),
            Err(e) => Err(e),
        },
    }
}

/// An ordered list with later duplicates removed: the first occurrence of
/// each path wins.
pub open spec fn spec_dedup(s: Seq<Seq<char>>) -> Seq<Seq<char>>
    decreases s.len(),
{
    if s.len() == 0 {
        Seq::empty()
    } else {
        let rest = spec_dedup(s.drop_last());
        if s.drop_last().contains(s.last()) {
            rest
        } else {
            rest.push(s.last())
        }
    }
}

proof fn lemma_push_contains<A>(s: Seq<A>, x: A, y: A)
    ensures
        s.push(x).contains(y) <==> (s.contains(y) || x == y),
{
    if s.contains(y) {
        let i = choose|i: int| 0 <= i < s.len() && s[i] == y;
        assert(s.push(x)[i] == y);
    }
    if x == y {
        assert(s.push(x)[s.len() as int] == y);
    }
    if s.push(x).contains(y) {
        let i = choose|i: int| 0 <= i < s.push(x).len() && s.push(x)[i] == y;
        if i < s.len() {
            assert(s[i] == y);
        }
    }
}

/// One dedup step: a pushed element survives only if it is new.
proof fn lemma_dedup_push(s: Seq<Seq<char>>, x: Seq<char>)
    ensures
        spec_dedup(s.push(x)) == (if s.contains(x) {
            spec_dedup(s)
        } else {
            spec_dedup(s).push(x)
        }),
{
    assert(s.push(x).drop_last() =~= s);
    assert(s.push(x).last() == x);
}

/// De-duplication keeps exactly the members of the original list.
proof fn lemma_dedup_contains(s: Seq<Seq<char>>, x: Seq<char>)
    ensures
        spec_dedup(s).contains(x) <==> s.contains(x),
    decreases s.len(),
{
    if s.len() == 0 {
    } else {
        let d = s.drop_last();
        lemma_dedup_contains(d, x);
        if s.contains(x) {
            let i = choose|i: int| 0 <= i < s.len() && s[i] == x;
            if i < s.len() - 1 {
                assert(d[i] == x);
                assert(d.contains(x));
            } else {
                assert(s.last() == x);
            }
        }
        if d.contains(x) {
            let i = choose|i: int| 0 <= i < d.len() && d[i] == x;
            assert(s[i] == x);
            assert(s.contains(x));
        }
        if d.contains(s.last()) {
            if s.contains(x) {
                if s.last() == x {
                    assert(d.contains(x));
                }
            }
        } else {
            lemma_push_contains(spec_dedup(d), s.last(), x);
        }
    }
}

/// The flat, in-order concatenation of the new_pathsutions of the first `j`
/// template entries, or the first resolution error among them.
pub open spec fn spec_paths_upto(
    folders: Seq<FolderView>,
    j: int,
    setup: ProjectSetup,
    project: Seq<char>,
) -> Resolved<Seq<Seq<char>>>
    decreases j,
{
    if j <= 0 {
        Resolved::Found(Seq::empty())
    } else {
        match spec_paths_upto(folders, j - 1, setup, project) {
            Resolved::Found(acc) => match spec_node_paths(folders, folders[j - 1], project, setup) {
                Resolved::Found(ps) => Resolved::Found(acc + ps),
                Resolved::MissingParent(id) => Resolved::MissingParent(id),
                Resolved::TooDeep => Resolved::TooDeep,
            },
            e => e,
        }
    }
}

proof fn lemma_paths_upto_error(
    folders: Seq<FolderView>,
    j: int,
    m: int,
    setup: ProjectSetup,
    project: Seq<char>,
)
    requires
        0 <= j <= m,
        !(spec_paths_upto(folders, j, setup, project) is Found),
    ensures
        spec_paths_upto(folders, m, setup, project) == spec_paths_upto(folders, j, setup, project),
    decreases m - j,
{
    if m > j {
        lemma_paths_upto_error(folders, j, m - 1, setup, project);
    }
}

/// The whole resolved path set of a configuration: the project root first,
/// then each template entry's new_pathsution in template order, repetition
/// indices ascending, with duplicates removed.
pub open spec fn spec_resolved_paths(config: Config) -> Resolved<Seq<Seq<char>>> {
    match spec_paths_upto(
        config.file_structure@,
        config.file_structure@.len() as int,
        config.setup,
        config.setup.name@,
    ) {
        Resolved::Found(ps) => Resolved::Found(spec_dedup(seq![config.setup.name@] + ps)),
        e => e,
    }
}

/// The string holds no path separator, as a single segment name must.
pub open spec fn no_slash(s: Seq<char>) -> bool {
    forall|i: int| 0 <= i < s.len() ==> s[i] != '/'
}

proof fn lemma_u64_string_no_slash(n: nat)
    ensures
        no_slash(spec_u64_string(n)),
    decreases n,
{
    if n >= 10 {
        lemma_u64_string_no_slash(n / 10);
    }
}

proof fn lemma_suffixes_no_slash(i: nat)
    ensures
        no_slash(day_suffix(i)),
        no_slash(cam_suffix(i)),
        no_slash(rec_suffix(i)),
{
    lemma_u64_string_no_slash(i);
    reveal_strlit("0");
    reveal_strlit("_DAY");
    reveal_strlit("_");
    reveal_strlit("_CAM");
    reveal_strlit("_REC");
    assert(no_slash(spec_pad2(i)));
    assert(spec_num_to_char(i) != '/') by {
        if 1 <= i <= 26 {
            assert(((i + 64) as u8) as char as u32 == i + 64);
        } else {
            assert('_' as u32 != '/' as u32);
        }
    }
}

proof fn lemma_expand_one_shape(base: Seq<char>, name: Seq<char>, setup: ProjectSetup)
    requires
        no_slash(name),
    ensures
        forall|r: int|
            0 <= r < expand_one(base, name, setup).len() ==> exists|seg: Seq<char>|
                no_slash(seg) && #[trigger] expand_one(base, name, setup)[r] == base + "/"@ + seg,
{
    assert forall|r: int| 0 <= r < expand_one(base, name, setup).len() implies exists|
        seg: Seq<char>,
    | no_slash(seg) && #[trigger] expand_one(base, name, setup)[r] == base + "/"@ + seg by {
        lemma_suffixes_no_slash((r + 1) as nat);
        if name == "%days"@ {
            assert(no_slash(day_suffix((r + 1) as nat)) && expand_one(base, name, setup)[r] == base
                + "/"@ + day_suffix((r + 1) as nat));
        } else if name == "%cams"@ {
            assert(no_slash(cam_suffix((r + 1) as nat)) && expand_one(base, name, setup)[r] == base
                + "/"@ + cam_suffix((r + 1) as nat));
        } else if name == "%soundsources"@ {
            assert(no_slash(rec_suffix((r + 1) as nat)) && expand_one(base, name, setup)[r] == base
                + "/"@ + rec_suffix((r + 1) as nat));
        } else {
            assert(no_slash(name) && expand_one(base, name, setup)[r] == base + "/"@ + name);
        }
    }
}

proof fn lemma_expand_segment_shape(bases: Seq<Seq<char>>, name: Seq<char>, setup: ProjectSetup)
    requires
        no_slash(name),
    ensures
        forall|r: int|
            0 <= r < expand_segment(bases, name, setup).len() ==> exists|m: int, seg: Seq<char>|
                0 <= m < bases.len() && no_slash(seg) && #[trigger] expand_segment(
                    bases,
                    name,
                    setup,
                )[r] == bases[m] + "/"@ + seg,
    decreases bases.len(),
{
    if bases.len() > 0 {
        lemma_expand_segment_shape(bases.drop_last(), name, setup);
        lemma_expand_one_shape(bases.last(), name, setup);
        let whole = expand_segment(bases, name, setup);
        let front = expand_segment(bases.drop_last(), name, setup);
        let back = expand_one(bases.last(), name, setup);
        assert forall|r: int| 0 <= r < whole.len() implies exists|m: int, seg: Seq<char>|
            0 <= m < bases.len() && no_slash(seg) && #[trigger] whole[r] == bases[m] + "/"@
                + seg by {
            if r < front.len() {
                assert(whole[r] == front[r]);
                let (m, seg) = choose|m: int, seg: Seq<char>|
                    0 <= m < bases.drop_last().len() && no_slash(seg) && front[r] == bases.drop_last()[m]
                        + "/"@ + seg;
                assert(bases.drop_last()[m] == bases[m]);
                assert(whole[r] == bases[m] + "/"@ + seg);
            } else {
                assert(whole[r] == back[r - front.len()]);
                let seg = choose|seg: Seq<char>|
                    no_slash(seg) && back[r - front.len()] == bases.last() + "/"@ + seg;
                assert(whole[r] == bases[bases.len() - 1] + "/"@ + seg);
            }
        }
    }
}

/// The position of the first template entry with the given id.
pub open spec fn first_index(folders: Seq<FolderView>, id: Seq<char>) -> int
    decreases folders.len(),
{
    if folders.len() == 0 {
        0
    } else if folders[0].id == id {
        0
    } else {
        1 + first_index(folders.drop_first(), id)
    }
}

proof fn lemma_find_folder_first_index(folders: Seq<FolderView>, id: Seq<char>)
    requires
        exists|k: int| 0 <= k < folders.len() && (#[trigger] folders[k].id) == id,
    ensures
        0 <= first_index(folders, id) < folders.len(),
        folders[first_index(folders, id)].id == id,
        forall|k: int| 0 <= k < first_index(folders, id) ==> (#[trigger] folders[k].id) != id,
        find_folder(folders, id) == Some(folders[first_index(folders, id)]),
    decreases folders.len(),
{
    if folders[0].id == id {
    } else {
        let k = choose|k: int| 0 <= k < folders.len() && folders[k].id == id;
        assert(folders.drop_first()[k - 1].id == id);
        lemma_find_folder_first_index(folders.drop_first(), id);
        assert(forall|t: int|
            1 <= t < folders.len() ==> folders[t] == folders.drop_first()[t - 1]);
    }
}

/// Every parent reference points at an entry listed earlier: the template
/// lists parents before the children that reference them.
pub open spec fn parents_listed_first(folders: Seq<FolderView>) -> bool {
    forall|j: int|
        0 <= j < folders.len() ==> ((#[trigger] folders[j].parent_id) matches Some(pid)
            ==> exists|k: int| 0 <= k < j && (#[trigger] folders[k].id) == pid)
}

proof fn lemma_parent_paths_stable(
    folders: Seq<FolderView>,
    id: Seq<char>,
    project: Seq<char>,
    setup: ProjectSetup,
    d1: nat,
    d2: nat,
)
    requires
        parents_listed_first(folders),
        exists|k: int| 0 <= k < folders.len() && (#[trigger] folders[k].id) == id,
        d1 > first_index(folders, id),
        d2 > first_index(folders, id),
    ensures
        spec_parent_paths(folders, id, project, setup, d1) == spec_parent_paths(
            folders,
            id,
            project,
            setup,
            d2,
        ),
        spec_parent_paths(folders, id, project, setup, d1) is Found,
    decreases first_index(folders, id),
{
    lemma_find_folder_first_index(folders, id);
    let k0 = first_index(folders, id);
    let f = folders[k0];
    match f.parent_id {
        None => {
        },
        Some(gp) => {
            let kw = choose|k: int| 0 <= k < k0 && folders[k].id == gp;
            assert(exists|k: int| 0 <= k < folders.len() && (#[trigger] folders[k].id) == gp) by {
                assert(folders[kw].id == gp);
            }
            lemma_find_folder_first_index(folders, gp);
            assert(first_index(folders, gp) <= kw) by {
                if first_index(folders, gp) > kw {
                    assert(folders[kw].id != gp);
                }
            }
            lemma_parent_paths_stable(
                folders,
                gp,
                project,
                setup,
                (d1 - 1) as nat,
                (d2 - 1) as nat,
            );
        },
    }
}

/// The path at position `t` extends some earlier listed path by one
/// separator-joined, separator-free segment.
pub open spec fn extends_earlier(l: Seq<Seq<char>>, t: int) -> bool {
    exists|s: int, seg: Seq<char>| 0 <= s < t && no_slash(seg) && l[t] == l[s] + "/"@ + seg
}

/// Every path in the list after the first extends an earlier listed path by
/// one separator-joined, separator-free segment: parent directories always
/// precede their children.
pub open spec fn parents_precede(l: Seq<Seq<char>>) -> bool {
    forall|t: int| 1 <= t < l.len() ==> #[trigger] extends_earlier(l, t)
}

proof fn lemma_upto_parents_precede(
    folders: Seq<FolderView>,
    j: int,
    setup: ProjectSetup,
    project: Seq<char>,
)
    requires
        parents_listed_first(folders),
        forall|t: int| 0 <= t < folders.len() ==> no_slash(#[trigger] folders[t].name),
        folders.len() <= MAX_ANCESTOR_DEPTH,
        0 <= j <= folders.len(),
    ensures
        spec_paths_upto(folders, j, setup, project) matches Resolved::Found(flat) && parents_precede(
            seq![project] + flat,
        ) && (forall|k: int|
            0 <= k < j ==> (spec_parent_paths(
                folders,
                #[trigger] folders[k].id,
                project,
                setup,
                MAX_ANCESTOR_DEPTH as nat,
            ) matches Resolved::Found(bs) && (forall|m: int|
                0 <= m < bs.len() ==> (seq![project] + flat).contains(#[trigger] bs[m])))),
    decreases j,
{
    if j == 0 {
        assert(parents_precede(seq![project] + Seq::<Seq<char>>::empty()));
    } else {
        lemma_upto_parents_precede(folders, j - 1, setup, project);
        let flat0 = spec_paths_upto(folders, j - 1, setup, project)->Found_0;
        let l0 = seq![project] + flat0;
        let f = folders[j - 1];
        // the entry's base paths: the project root, or its parent's resolved
        // paths, which the induction places in the list already
        let bases: Seq<Seq<char>> = match f.parent_id {
            None => seq![project],
            Some(pid) => spec_parent_paths(
                folders,
                pid,
                project,
                setup,
                MAX_ANCESTOR_DEPTH as nat,
            )->Found_0,
        };
        match f.parent_id {
            None => {
                assert(l0.contains(project)) by {
                    assert(l0[0] == project);
                }
                assert(spec_node_paths(folders, f, project, setup) == Resolved::<
                    Seq<Seq<char>>,
                >::Found(expand_one(project, f.name, setup)));
                reveal_with_fuel(expand_segment, 3);
                assert(seq![project].drop_last() =~= Seq::<Seq<char>>::empty());
                assert(seq![project].last() == project);
                assert(expand_segment(seq![project], f.name, setup) =~= expand_one(
                    project,
                    f.name,
                    setup,
                ));
            },
            Some(pid) => {
                let kw = choose|k: int| 0 <= k < j - 1 && folders[k].id == pid;
                assert(folders[kw].id == pid);
                assert(spec_parent_paths(folders, folders[kw].id, project, setup, MAX_ANCESTOR_DEPTH as nat)
                    is Found);
                assert(spec_node_paths(folders, f, project, setup) == Resolved::<
                    Seq<Seq<char>>,
                >::Found(expand_segment(bases, f.name, setup)));
                assert(forall|m: int| 0 <= m < bases.len() ==> l0.contains(#[trigger] bases[m]));
            },
        }
        let new_paths = expand_segment(bases, f.name, setup);
        let flat = flat0 + new_paths;
        let l = seq![project] + flat;
        assert(spec_paths_upto(folders, j, setup, project) == Resolved::<Seq<Seq<char>>>::Found(
            flat,
        ));
        assert(l =~= l0 + new_paths);
        assert(forall|m: int| 0 <= m < bases.len() ==> l0.contains(#[trigger] bases[m])) by {
            if f.parent_id is None {
                assert(bases =~= seq![project]);
                assert(l0[0] == project);
            }
        }
        lemma_expand_segment_shape(bases, f.name, setup);
        assert forall|t: int| 1 <= t < l.len() implies #[trigger] extends_earlier(l, t) by {
            if t < l0.len() {
                assert(l[t] == l0[t]);
                assert(extends_earlier(l0, t));
                let (s, seg) = choose|s: int, seg: Seq<char>|
                    0 <= s < t && no_slash(seg) && l0[t] == l0[s] + "/"@ + seg;
                assert(l[s] == l0[s]);
                assert(l[t] == l[s] + "/"@ + seg);
            } else {
                let r = t - l0.len();
                assert(l[t] == new_paths[r]);
                let (m, seg) = choose|m: int, seg: Seq<char>|
                    0 <= m < bases.len() && no_slash(seg) && new_paths[r] == bases[m] + "/"@ + seg;
                let s = choose|s: int| 0 <= s < l0.len() && l0[s] == bases[m];
                assert(l[s] == l0[s]);
                assert(l[t] == l[s] + "/"@ + seg);
            }
        }
        // the new entry's own resolved paths are now all in the list
        assert forall|k: int| 0 <= k < j implies (spec_parent_paths(
            folders,
            #[trigger] folders[k].id,
            project,
            setup,
            MAX_ANCESTOR_DEPTH as nat,
        ) matches Resolved::Found(bs) && (forall|m: int|
            0 <= m < bs.len() ==> l.contains(#[trigger] bs[m]))) by {
            if k < j - 1 {
                let bs = spec_parent_paths(
                    folders,
                    folders[k].id,
                    project,
                    setup,
                    MAX_ANCESTOR_DEPTH as nat,
                )->Found_0;
                assert(forall|m: int| 0 <= m < bs.len() ==> l0.contains(#[trigger] bs[m]));
                assert forall|m: int| 0 <= m < bs.len() implies l.contains(#[trigger] bs[m]) by {
                    let s = choose|s: int| 0 <= s < l0.len() && l0[s] == bs[m];
                    assert(l[s] == bs[m]);
                }
            } else {
                assert(exists|k2: int|
                    0 <= k2 < folders.len() && (#[trigger] folders[k2].id) == folders[j - 1].id)
                    by {
                    assert(folders[j - 1].id == folders[j - 1].id);
                }
                lemma_find_folder_first_index(folders, folders[j - 1].id);
                let k0 = first_index(folders, folders[j - 1].id);
                if k0 < j - 1 {
                    assert(folders[k0].id == folders[j - 1].id);
                    let bs = spec_parent_paths(
                        folders,
                        folders[k0].id,
                        project,
                        setup,
                        MAX_ANCESTOR_DEPTH as nat,
                    )->Found_0;
                    assert(forall|m: int| 0 <= m < bs.len() ==> l0.contains(#[trigger] bs[m]));
                    assert forall|m: int| 0 <= m < bs.len() implies l.contains(#[trigger] bs[m])
                        by {
                        let s = choose|s: int| 0 <= s < l0.len() && l0[s] == bs[m];
                        assert(l[s] == bs[m]);
                    }
                } else {
                    // the entry itself is the first with its id: its parent
                    // chain resolves one link shorter, which the depth does
                    // not change
                    assert(k0 == j - 1);
                    let fres = spec_parent_paths(
                        folders,
                        folders[j - 1].id,
                        project,
                        setup,
                        MAX_ANCESTOR_DEPTH as nat,
                    );
                    match f.parent_id {
                        None => {
                            assert(fres == Resolved::<Seq<Seq<char>>>::Found(
                                expand_one(project, f.name, setup),
                            ));
                            assert(expand_one(project, f.name, setup) =~= new_paths);
                        },
                        Some(pid) => {
                            let kw = choose|k2: int| 0 <= k2 < j - 1 && folders[k2].id == pid;
                            assert(exists|k2: int|
                                0 <= k2 < folders.len() && (#[trigger] folders[k2].id) == pid) by {
                                assert(folders[kw].id == pid);
                            }
                            lemma_find_folder_first_index(folders, pid);
                            assert(first_index(folders, pid) <= kw) by {
                                if first_index(folders, pid) > kw {
                                    assert(folders[kw].id != pid);
                                }
                            }
                            lemma_parent_paths_stable(
                                folders,
                                pid,
                                project,
                                setup,
                                MAX_ANCESTOR_DEPTH as nat,
                                (MAX_ANCESTOR_DEPTH - 1) as nat,
                            );
                            assert(fres == Resolved::<Seq<Seq<char>>>::Found(new_paths));
                        },
                    }
                    let bs = fres->Found_0;
                    assert forall|m: int| 0 <= m < bs.len() implies l.contains(#[trigger] bs[m])
                        by {
                        assert(l[l0.len() + m] == new_paths[m]);
                    }
                }
            }
        }
        assert(spec_paths_upto(folders, j, setup, project) == Resolved::<Seq<Seq<char>>>::Found(
            flat,
        ));
        assert(parents_precede(seq![project] + flat));
        assert(forall|k: int|
            0 <= k < j ==> (spec_parent_paths(
                folders,
                #[trigger] folders[k].id,
                project,
                setup,
                MAX_ANCESTOR_DEPTH as nat,
            ) matches Resolved::Found(bs) && (forall|m: int|
                0 <= m < bs.len() ==> (seq![project] + flat).contains(#[trigger] bs[m]))));
    }
}

/// The position of the first occurrence of a path in the list.
pub open spec fn first_pos(l: Seq<Seq<char>>, x: Seq<char>) -> int
    decreases l.len(),
{
    if l.len() == 0 {
        0
    } else if l[0] == x {
        0
    } else {
        1 + first_pos(l.drop_first(), x)
    }
}

proof fn lemma_first_pos(l: Seq<Seq<char>>, x: Seq<char>)
    requires
        l.contains(x),
    ensures
        0 <= first_pos(l, x) < l.len(),
        l[first_pos(l, x)] == x,
        forall|i: int| 0 <= i < first_pos(l, x) ==> l[i] != x,
    decreases l.len(),
{
    if l[0] == x {
    } else {
        let k = choose|k: int| 0 <= k < l.len() && l[k] == x;
        assert(l.drop_first()[k - 1] == x);
        assert(l.drop_first().contains(x));
        lemma_first_pos(l.drop_first(), x);
        assert(forall|t: int| 1 <= t < l.len() ==> l[t] == l.drop_first()[t - 1]);
    }
}

/// One list is an initial run of the other.
pub open spec fn is_prefix_of(a: Seq<Seq<char>>, b: Seq<Seq<char>>) -> bool {
    a.len() <= b.len() && a == b.subrange(0, a.len() as int)
}

/// De-duplicating a prefix of the list yields a prefix of the
/// de-duplicated list: dedup keeps first occurrences in order.
proof fn lemma_dedup_prefix(l: Seq<Seq<char>>, q: int)
    requires
        0 <= q <= l.len(),
    ensures
        is_prefix_of(spec_dedup(l.subrange(0, q)), spec_dedup(l)),
    decreases l.len(),
{
    if q == l.len() {
        assert(l.subrange(0, q) =~= l);
        assert(spec_dedup(l).subrange(0, spec_dedup(l).len() as int) =~= spec_dedup(l));
    } else {
        let dl = l.drop_last();
        assert(dl.subrange(0, q) =~= l.subrange(0, q));
        lemma_dedup_prefix(dl, q);
        let a = spec_dedup(l.subrange(0, q));
        let b = spec_dedup(dl);
        let c = spec_dedup(l);
        assert(is_prefix_of(b, c)) by {
            if dl.contains(l.last()) {
                assert(b.subrange(0, b.len() as int) =~= b);
            } else {
                assert(c == b.push(l.last()));
                assert(c.subrange(0, b.len() as int) =~= b);
            }
        }
        assert(a =~= c.subrange(0, a.len() as int));
    }
}

proof fn lemma_dedup_head(l: Seq<Seq<char>>)
    requires
        l.len() > 0,
    ensures
        spec_dedup(l).len() > 0,
        spec_dedup(l)[0] == l[0],
    decreases l.len(),
{
    if l.len() == 1 {
        reveal_with_fuel(spec_dedup, 3);
        assert(l.drop_last() =~= Seq::<Seq<char>>::empty());
        assert(!l.drop_last().contains(l.last()));
        assert(spec_dedup(l)[0] == l[0]);
    } else {
        lemma_dedup_head(l.drop_last());
        assert(l.drop_last()[0] == l[0]);
    }
}

proof fn lemma_dedup_distinct(l: Seq<Seq<char>>)
    ensures
        forall|a: int, b: int|
            0 <= a < b < spec_dedup(l).len() ==> spec_dedup(l)[a] != spec_dedup(l)[b],
    decreases l.len(),
{
    if l.len() > 0 {
        lemma_dedup_distinct(l.drop_last());
        if !l.drop_last().contains(l.last()) {
            lemma_dedup_contains(l.drop_last(), l.last());
            assert(forall|idx: int|
                0 <= idx < spec_dedup(l.drop_last()).len() ==> spec_dedup(l.drop_last())[idx]
                    != l.last());
        }
    }
}

/// Under a template that lists parents before the children that reference
/// them, with separator-free segment names and no more entries than the
/// ancestor-depth ceiling, every resolved path after the project root
/// extends an earlier path of the resolved list by one separator-joined
/// segment: parent directories always appear before their children, so
/// creating the list in order never needs a missing intermediate.
pub proof fn lemma_resolved_paths_parents_first(config: Config, ps: Seq<Seq<char>>)
    requires
        spec_resolved_paths(config) == Resolved::<Seq<Seq<char>>>::Found(ps),
        parents_listed_first(config.file_structure@),
        forall|t: int|
            0 <= t < config.file_structure@.len() ==> no_slash(
                #[trigger] config.file_structure@[t].name,
            ),
        config.file_structure@.len() <= MAX_ANCESTOR_DEPTH,
    ensures
        parents_precede(ps),
{
    let folders = config.file_structure@;
    let project = config.setup.name@;
    let setup = config.setup;
    lemma_upto_parents_precede(folders, folders.len() as int, setup, project);
    let flat = spec_paths_upto(folders, folders.len() as int, setup, project)->Found_0;
    let l = seq![project] + flat;
    assert(ps == spec_dedup(l));
    lemma_dedup_distinct(l);
    lemma_dedup_head(l);
    assert forall|t: int| 1 <= t < ps.len() implies #[trigger] extends_earlier(ps, t) by {
        let w = ps[t];
        assert(spec_dedup(l).contains(w)) by {
            assert(spec_dedup(l)[t] == w);
        }
        lemma_dedup_contains(l, w);
        assert(l.contains(w));
        lemma_first_pos(l, w);
        let q = first_pos(l, w);
        assert(q >= 1) by {
            if q == 0 {
                assert(ps[0] == l[0]);
                assert(ps[t] == ps[0]);
            }
        }
        assert(extends_earlier(l, q));
        let (s, seg) = choose|s: int, seg: Seq<char>|
            0 <= s < q && no_slash(seg) && l[q] == l[s] + "/"@ + seg;
        let u = l[s];
        lemma_dedup_prefix(l, q);
        let dpre = spec_dedup(l.subrange(0, q));
        let m = dpre.len();
        assert(l.subrange(0, q).contains(u)) by {
            assert(l.subrange(0, q)[s] == u);
        }
        lemma_dedup_contains(l.subrange(0, q), u);
        let du = choose|d: int| 0 <= d < dpre.len() && dpre[d] == u;
        assert(ps[du] == u) by {
            assert(dpre[du] == ps.subrange(0, m as int)[du]);
        }
        assert(t >= m) by {
            if t < m {
                assert(ps[t] == ps.subrange(0, m as int)[t]);
                assert(dpre[t] == w);
                assert(dpre.contains(w)) by {
                    assert(dpre[t] == w);
                }
                lemma_dedup_contains(l.subrange(0, q), w);
                let wq = choose|i: int| 0 <= i < q && l.subrange(0, q)[i] == w;
                assert(l[wq] == w);
            }
        }
        assert(0 <= du < t && no_slash(seg) && ps[t] == ps[du] + "/"@ + seg);
        assert(extends_earlier(ps, t));
    }
}

/// Resolves the full ordered path set the configuration implies: the
/// project root itself, then one path per template entry and combination of
/// repetition indices, parents before children, without duplicates.
pub fn generate_folder_paths(config: &Config) -> (r: Result<Vec<String>, ConfigError>)
    ensures
        (match spec_resolved_paths(*config) {
            Resolved::Found(ps) => r matches Ok(v) && strings_view(v@) == ps,
            Resolved::MissingParent(id) => r matches Err(ConfigError::ParseError(m)) && m@
                == "Parent folder with ID '"@ + id + "' not found"@,
            Resolved::TooDeep => r matches Err(ConfigError::ParseError(m)) && m@
                == "Exceeded maximum ancestor depth"@,
        }),
{
    let mut paths: Vec<String> = Vec::new();
    let ghost mut flat: Seq<Seq<char>> = Seq::empty();
    let ghost root = config.setup.name@;
    paths.push(config.setup.name.clone());
    proof {
        reveal_with_fuel(spec_dedup, 3);
        assert(seq![root].drop_last() =~= Seq::<Seq<char>>::empty());
        assert(strings_view(paths@) =~= seq![root]);
        assert(spec_dedup(seq![root] + flat) =~= seq![root]) by {
            assert(seq![root] + flat =~= seq![root]);
        }
    }
    let n = config.file_structure.folders_list.len();
    let mut j: usize = 0;
    while j < n
        invariant
            n == config.file_structure.folders_list.len(),
            j <= n,
            root == config.setup.name@,
            spec_paths_upto(config.file_structure@, j as int, config.setup, root) == Resolved::<
                Seq<Seq<char>>,
            >::Found(flat),
            strings_view(paths@) == spec_dedup(seq![root] + flat),
        decreases n - j,
    {
        let folder = &config.file_structure.folders_list[j];
        proof {
            assert(config.file_structure@[j as int] == folder@);
        }
        match build_folder_path(folder, config, config.setup.name.as_str()) {
            Err(e) => {
                proof {
                    lemma_paths_upto_error(
                        config.file_structure@,
                        j + 1,
                        n as int,
                        config.setup,
                        root,
                    );
                }
                return Err(e);
            },
            Ok(folder_paths) => {
                let m = folder_paths.len();
                let mut k: usize = 0;
                while k < m
                    invariant
                        m == folder_paths@.len(),
                        k <= m,
                        root == config.setup.name@,
                        strings_view(paths@) == spec_dedup(
                            seq![root] + flat + strings_view(folder_paths@).subrange(0, k as int),
                        ),
                    decreases m - k,
                {
                    let fp = &folder_paths[k];
                    let ghost prefix = seq![root] + flat + strings_view(folder_paths@).subrange(
                        0,
                        k as int,
                    );
                    proof {
                        assert(strings_view(folder_paths@)[k as int] == fp@);
                        assert(prefix.push(fp@) =~= seq![root] + flat + strings_view(
                            folder_paths@,
                        ).subrange(0, k + 1 as int));
                    }
                    if !vec_contains_str(&paths, fp.as_str()) {
                        let ghost prev = paths@;
                        let fpc = fp.clone();
                        paths.push(fpc);
                        proof {
                            lemma_dedup_contains(prefix, fp@);
                            lemma_dedup_push(prefix, fp@);
                            lemma_strings_view_push(prev, fpc);
                        }
                    } else {
                        proof {
                            lemma_dedup_contains(prefix, fp@);
                            lemma_dedup_push(prefix, fp@);
                        }
                    }
                    k += 1;
                }
                proof {
                    let sv = strings_view(folder_paths@);
                    assert(sv.subrange(0, m as int) =~= sv);
                    let newflat = flat + sv;
                    assert(seq![root] + flat + sv =~= seq![root] + newflat);
                    flat = newflat;
                }
            },
        }
        j += 1;
    }
    proof {
        assert(j == n);
    }
    Ok(paths)
}

} // verus!
