//! Command-line token processing: the state machine that turns the tokens
//! after the operation word into either an updated configuration or a query
//! description. Reading the configuration file, printing and exiting stay
//! with the caller; this module only decides.

use vstd::prelude::*;

verus! {

use vstd::string::StringExecFns;
use crate::config::Config;
use crate::config::ConfigError;
use crate::config::ParsedReturn;
use crate::config::Query;
use crate::config::QueryInfo;
use crate::config::QuerySettings;
use crate::config::QueryType;
use crate::config::SortType;
use crate::config::parse_positive_integer;
use crate::init::InitParams;
use crate::init::OperationType;
use crate::init::ProjectSetup;
use crate::init::QueryParams;
use crate::init::get_required_type_init;
use crate::init::get_required_type_query;
use crate::init::spec_required_type_init;
use crate::init::spec_required_type_query;
use crate::util::get_version;
use crate::strings::all_digit_chars;
use crate::strings::seq_nat_value;
use crate::strings::spec_strip_plus;
use crate::strings::lemma_strings_view_push;
use crate::strings::str_eq;
use crate::strings::strings_view;
use vstd::pervasive::unreached;

/// Which query the tokens have selected so far, viewed mathematically.
pub ghost enum QuerySelView {
    Unset,
    General(SortType),
    Partial(Seq<QueryType>, SortType),
    Folder(Seq<Seq<char>>, SortType),
}

/// The sort order of the current selection (default order when nothing is
/// selected yet), as the selection itself reports it.
pub open spec fn sel_sort(q: QuerySelView) -> SortType {
    match q {
        QuerySelView::General(s) => s,
        QuerySelView::Partial(_, s) => s,
        QuerySelView::Folder(_, s) => s,
        QuerySelView::Unset => SortType::ByDefaultOrder,
    }
}

/// The parser's running state, viewed mathematically: the setup fields
/// gathered so far, the pending flag waiting for its value, the query
/// selection, the presentation switches, and the informational messages in
/// emission order.
pub ghost struct ParseState {
    pub name: Seq<char>,
    pub deadname: Option<Seq<char>>,
    pub days: int,
    pub cameras: int,
    pub sound_sources: int,
    pub clean_project: bool,
    pub pending_init: InitParams,
    pub pending_query: QueryParams,
    pub qsel: QuerySelView,
    pub write: bool,
    pub output_name: Option<Seq<char>>,
    pub record_timestamp: bool,
    pub unique_entries: bool,
    pub quiet: bool,
    pub include_runtime: bool,
    pub queries_to_run: Seq<QueryType>,
    pub folders_to_search: Seq<Seq<char>>,
    pub messages: Seq<Seq<char>>,
}

/// The state parsing starts from: the base configuration's setup, nothing
/// pending, nothing selected, every switch off.
pub open spec fn initial_state(base: Config) -> ParseState {
    ParseState {
        name: base.setup.name@,
        deadname: match base.setup.deadname {
            Some(d) => Some(d@),
            None => None,
        },
        days: base.setup.days as int,
        cameras: base.setup.cameras as int,
        sound_sources: base.setup.sound_sources as int,
        clean_project: base.setup.clean_project,
        pending_init: InitParams::Unset,
        pending_query: QueryParams::Unset,
        qsel: QuerySelView::Unset,
        write: false,
        output_name: None,
        record_timestamp: false,
        unique_entries: false,
        quiet: false,
        include_runtime: false,
        queries_to_run: Seq::empty(),
        folders_to_search: Seq::empty(),
        messages: Seq::empty(),
    }
}

/// The set/updated wording of the informational messages.
pub open spec fn spec_prefix_word(load: bool) -> Seq<char> {
    if load {
        "Updated"@
    } else {
        "Set"@
    }
}

/// The diagnostic for a token that is no known flag.
pub open spec fn bad_token_message(tok: Seq<char>) -> Seq<char> {
    "Error in parsing: \""@ + tok + "\" is not a valid CLI argument!"@
}

/// One `new`/`update` token: either the next flag, or the value of the
/// pending flag.
pub open spec fn init_step(s: ParseState, tok: Seq<char>, load: bool) -> Result<
    ParseState,
    Seq<char>,
> {
    if s.pending_init is Unset {
        if tok == "-n"@ || tok == "--name"@ {
            Ok(ParseState { pending_init: InitParams::ProjName, ..s })
        } else if tok == "-dn"@ || tok == "--deadname"@ {
            Ok(ParseState { pending_init: InitParams::DeadName, ..s })
        } else if tok == "-d"@ || tok == "--days"@ {
            Ok(ParseState { pending_init: InitParams::Days, ..s })
        } else if tok == "-c"@ || tok == "--cameras"@ {
            Ok(ParseState { pending_init: InitParams::Cameras, ..s })
        } else if tok == "-s"@ || tok == "--sound-sources"@ {
            Ok(ParseState { pending_init: InitParams::SoundSources, ..s })
        } else if tok == "-cl"@ || tok == "--clean"@ {
            Ok(
                ParseState {
                    clean_project: true,
                    messages: s.messages.push(
                        "Cleaning empty folders that are undefined!"@,
                    ),
                    ..s
                },
            )
        } else {
            Err(bad_token_message(tok))
        }
    } else {
        let px = spec_prefix_word(load);
        match s.pending_init {
            InitParams::ProjName => Ok(
                ParseState {
                    name: tok,
                    pending_init: InitParams::Unset,
                    messages: s.messages.push(px + " project name to "@ + tok),
                    ..s
                },
            ),
            InitParams::DeadName => Ok(
                ParseState {
                    deadname: Some(tok),
                    pending_init: InitParams::Unset,
                    messages: s.messages.push(px + " deadname to: "@ + tok),
                    ..s
                },
            ),
            InitParams::Days => {
                let ds = spec_strip_plus(tok);
                if ds.len() > 0 && all_digit_chars(ds) && seq_nat_value(ds) <= usize::MAX {
                    if seq_nat_value(ds) == 0 {
                        Err("days"@ + " must be greater than 0"@)
                    } else {
                        Ok(
                            ParseState {
                                days: seq_nat_value(ds) as int,
                                pending_init: InitParams::Unset,
                                messages: s.messages.push(px + " project days: "@ + tok),
                                ..s
                            },
                        )
                    }
                } else {
                    Err("days"@ + " must be a positive integer"@)
                }
            },
            InitParams::Cameras => {
                let ds = spec_strip_plus(tok);
                if ds.len() > 0 && all_digit_chars(ds) && seq_nat_value(ds) <= usize::MAX {
                    if seq_nat_value(ds) == 0 {
                        Err("cameras"@ + " must be greater than 0"@)
                    } else {
                        Ok(
                            ParseState {
                                cameras: seq_nat_value(ds) as int,
                                pending_init: InitParams::Unset,
                                messages: s.messages.push(px + " cameras to: "@ + tok),
                                ..s
                            },
                        )
                    }
                } else {
                    Err("cameras"@ + " must be a positive integer"@)
                }
            },
            InitParams::SoundSources => {
                let ds = spec_strip_plus(tok);
                if ds.len() > 0 && all_digit_chars(ds) && seq_nat_value(ds) <= usize::MAX {
                    if seq_nat_value(ds) == 0 {
                        Err("sound sources"@ + " must be greater than 0"@)
                    } else {
                        Ok(
                            ParseState {
                                sound_sources: seq_nat_value(ds) as int,
                                pending_init: InitParams::Unset,
                                messages: s.messages.push(px + " sound sources to: "@ + tok),
                                ..s
                            },
                        )
                    }
                } else {
                    Err("sound sources"@ + " must be a positive integer"@)
                }
            },
            InitParams::Unset => Ok(s),
        }
    }
}

/// The diagnostic for a second query type.
pub open spec fn second_query_message() -> Seq<char> {
    "Cannot have more than one query type!"@
}

/// The diagnostic for a sort flag before any query type.
pub open spec fn sort_first_message() -> Seq<char> {
    "Please specify a query type before specifying a sort type!"@
}

/// Adds one partial-query subject: allowed while nothing or another
/// partial query is selected.
pub open spec fn push_partial(s: ParseState, qt: QueryType) -> Result<ParseState, Seq<char>> {
    if s.qsel is Unset || s.qsel is Partial {
        let queries = s.queries_to_run.push(qt);
        Ok(
            ParseState {
                queries_to_run: queries,
                qsel: QuerySelView::Partial(queries, sel_sort(s.qsel)),
                ..s
            },
        )
    } else {
        Err(second_query_message())
    }
}

/// One `query` token: either the next flag, or the value of the pending
/// flag.
pub open spec fn query_step(s: ParseState, tok: Seq<char>) -> Result<ParseState, Seq<char>> {
    if s.pending_query is Unset {
        if tok == "-w"@ || tok == "--write"@ {
            Ok(ParseState { write: true, pending_query: QueryParams::OutputDir, ..s })
        } else if tok == "-t"@ || tok == "--timestamp"@ {
            Ok(ParseState { record_timestamp: true, ..s })
        } else if tok == "-u"@ || tok == "--unique"@ {
            Ok(ParseState { unique_entries: true, ..s })
        } else if tok == "-q"@ || tok == "--quiet"@ {
            Ok(ParseState { quiet: true, ..s })
        } else if tok == "-rt"@ || tok == "--runtime"@ {
            Ok(ParseState { include_runtime: true, ..s })
        } else if tok == "-g"@ || tok == "--general"@ {
            if s.qsel is Unset {
                Ok(ParseState { qsel: QuerySelView::General(SortType::ByDefaultOrder), ..s })
            } else {
                Err(second_query_message())
            }
        } else if tok == "-ss"@ || tok == "--sort-size"@ {
            match s.qsel {
                QuerySelView::General(_) => Ok(
                    ParseState { qsel: QuerySelView::General(SortType::BySize), ..s },
                ),
                QuerySelView::Partial(q, _) => Ok(
                    ParseState { qsel: QuerySelView::Partial(q, SortType::BySize), ..s },
                ),
                QuerySelView::Folder(f, _) => Ok(
                    ParseState { qsel: QuerySelView::Folder(f, SortType::BySize), ..s },
                ),
                QuerySelView::Unset => Err(sort_first_message()),
            }
        } else if tok == "-sd"@ || tok == "--sort-default"@ {
            match s.qsel {
                QuerySelView::General(_) => Ok(
                    ParseState { qsel: QuerySelView::General(SortType::ByDefaultOrder), ..s },
                ),
                QuerySelView::Partial(q, _) => Ok(
                    ParseState { qsel: QuerySelView::Partial(q, SortType::ByDefaultOrder), ..s },
                ),
                QuerySelView::Folder(f, _) => Ok(
                    ParseState { qsel: QuerySelView::Folder(f, SortType::ByDefaultOrder), ..s },
                ),
                QuerySelView::Unset => Err(sort_first_message()),
            }
        } else if tok == "-r"@ || tok == "--root"@ {
            push_partial(s, QueryType::Root)
        } else if tok == "-d"@ || tok == "--days"@ {
            push_partial(s, QueryType::Days)
        } else if tok == "-c"@ || tok == "--cameras"@ {
            push_partial(s, QueryType::Cams)
        } else if tok == "-s"@ || tok == "--sound-sources"@ {
            push_partial(s, QueryType::Sound)
        } else if tok == "-f"@ || tok == "--folder"@ {
            Ok(ParseState { pending_query: QueryParams::Folder, ..s })
        } else {
            Err(bad_token_message(tok))
        }
    } else {
        match s.pending_query {
            QueryParams::Folder => {
                if s.qsel is Unset || s.qsel is Folder {
                    let folders = s.folders_to_search.push(tok);
                    Ok(
                        ParseState {
                            folders_to_search: folders,
                            qsel: QuerySelView::Folder(folders, sel_sort(s.qsel)),
                            pending_query: QueryParams::Unset,
                            ..s
                        },
                    )
                } else {
                    Err(second_query_message())
                }
            },
            QueryParams::OutputDir => Ok(
                ParseState {
                    output_name: Some(tok),
                    pending_query: QueryParams::Unset,
                    ..s
                },
            ),
            QueryParams::Unset => Ok(s),
        }
    }
}

/// Folds the `new`/`update` steps over the tokens, left to right, stopping
/// at the first error.
pub open spec fn run_init_steps(s: ParseState, toks: Seq<Seq<char>>, load: bool) -> Result<
    ParseState,
    Seq<char>,
>
    decreases toks.len(),
{
    if toks.len() == 0 {
        Ok(s)
    } else {
        match run_init_steps(s, toks.drop_last(), load) {
            Ok(s2) => init_step(s2, toks.last(), load),
            Err(e) => Err(e),
        }
    }
}

/// Folds the `query` steps over the tokens, left to right, stopping at the
/// first error.
pub open spec fn run_query_steps(s: ParseState, toks: Seq<Seq<char>>) -> Result<
    ParseState,
    Seq<char>,
>
    decreases toks.len(),
{
    if toks.len() == 0 {
        Ok(s)
    } else {
        match run_query_steps(s, toks.drop_last()) {
            Ok(s2) => query_step(s2, toks.last()),
            Err(e) => Err(e),
        }
    }
}

proof fn lemma_run_init_error(s: ParseState, toks: Seq<Seq<char>>, j: int, load: bool)
    requires
        0 <= j <= toks.len(),
        !(run_init_steps(s, toks.subrange(0, j), load) is Ok),
    ensures
        run_init_steps(s, toks, load) == run_init_steps(s, toks.subrange(0, j), load),
    decreases toks.len(),
{
    if j == toks.len() {
        assert(toks.subrange(0, j) =~= toks);
    } else {
        assert(toks.drop_last().subrange(0, j) =~= toks.subrange(0, j));
        lemma_run_init_error(s, toks.drop_last(), j, load);
    }
}

proof fn lemma_run_query_error(s: ParseState, toks: Seq<Seq<char>>, j: int)
    requires
        0 <= j <= toks.len(),
        !(run_query_steps(s, toks.subrange(0, j)) is Ok),
    ensures
        run_query_steps(s, toks) == run_query_steps(s, toks.subrange(0, j)),
    decreases toks.len(),
{
    if j == toks.len() {
        assert(toks.subrange(0, j) =~= toks);
    } else {
        assert(toks.drop_last().subrange(0, j) =~= toks.subrange(0, j));
        lemma_run_query_error(s, toks.drop_last(), j);
    }
}

/// The whole parse: fold the steps fitting the operation over every token
/// after the operation word, then refuse a flag left waiting for its value
/// (a trailing `--write` may stand, falling back to a timestamp name), and
/// default a query invocation that chose nothing to the general query, with
/// a notice unless quiet mode is set.
pub open spec fn spec_parse_args(
    args: Seq<Seq<char>>,
    load: bool,
    op: OperationType,
    base: Config,
) -> Result<ParseState, Seq<char>> {
    let toks = if args.len() >= 2 {
        args.subrange(2, args.len() as int)
    } else {
        Seq::empty()
    };
    let s0 = initial_state(base);
    if !(op is Query) {
        match run_init_steps(s0, toks, load) {
            Ok(s) => if !(s.pending_init is Unset) {
                Err(
                    "Parameter \""@ + args.last() + "\" should be followed by "@
                        + spec_required_type_init(s.pending_init, true) + "!"@,
                )
            } else {
                Ok(s)
            },
            Err(e) => Err(e),
        }
    } else {
        match run_query_steps(s0, toks) {
            Ok(s) => if !(s.pending_query is Unset) && !(s.pending_query is OutputDir) {
                Err(
                    "Parameter \""@ + args.last() + "\" accepts values of "@
                        + spec_required_type_query(s.pending_query, true) + "!"@,
                )
            } else {
                if s.qsel is Unset {
                    Ok(
                        ParseState {
                            qsel: QuerySelView::General(SortType::ByDefaultOrder),
                            messages: if !s.quiet {
                                s.messages.push(
                                    "No query type specified, defaulting to general query."@,
                                )
                            } else {
                                s.messages
                            },
                            ..s
                        },
                    )
                } else {
                    Ok(s)
                }
            },
            Err(e) => Err(e),
        }
    }
}

/// The returned configuration carries the parsed setup over the base
/// configuration's template and general-query list, under the current
/// version tag.
pub open spec fn config_matches(c: Config, st: ParseState, base: Config) -> bool {
    &&& c.version@ == "v2"@
    &&& c.setup.name@ == st.name
    &&& (match c.setup.deadname {
        Some(d) => st.deadname matches Some(sd) && d@ == sd,
        None => st.deadname is None,
    })
    &&& c.setup.days == st.days
    &&& c.setup.cameras == st.cameras
    &&& c.setup.sound_sources == st.sound_sources
    &&& c.setup.clean_project == st.clean_project
    &&& c.file_structure@ == base.file_structure@
    &&& strings_view(c.general_query_params@) == strings_view(base.general_query_params@)
}

/// The returned settings mirror the parsed switches.
pub open spec fn settings_match(settings: QuerySettings, st: ParseState) -> bool {
    &&& settings.write == st.write
    &&& (match settings.output_name {
        Some(o) => st.output_name matches Some(so) && o@ == so,
        None => st.output_name is None,
    })
    &&& settings.record_timestamp == st.record_timestamp
    &&& settings.unique_entries == st.unique_entries
    &&& settings.quiet == st.quiet
    &&& settings.include_runtime == st.include_runtime
}

/// The returned query mirrors the parsed selection.
pub open spec fn query_matches(q: Query, st: ParseState) -> bool {
    match st.qsel {
        QuerySelView::Unset => q is Unset,
        QuerySelView::General(srt) => q matches Query::General(s) && s == srt,
        QuerySelView::Partial(ts, srt) => q matches Query::Partial(v, s) && v@ == ts && s == srt,
        QuerySelView::Folder(fs, srt) => q matches Query::Folder(v, s) && strings_view(v@) == fs
            && s == srt,
    }
}

/// The parser's whole state as the executable variables hold it.
pub open spec fn exec_view(
    project: ProjectSetup,
    pending_init: InitParams,
    pending_query: QueryParams,
    q: Query,
    settings: QuerySettings,
    queries_to_run: Seq<QueryType>,
    folders_to_search: Seq<Seq<char>>,
    messages: Seq<Seq<char>>,
) -> ParseState {
    ParseState {
        name: project.name@,
        deadname: match project.deadname {
            Some(d) => Some(d@),
            None => None,
        },
        days: project.days as int,
        cameras: project.cameras as int,
        sound_sources: project.sound_sources as int,
        clean_project: project.clean_project,
        pending_init,
        pending_query,
        qsel: match q {
            Query::Unset => QuerySelView::Unset,
            Query::General(s) => QuerySelView::General(s),
            Query::Partial(v, s) => QuerySelView::Partial(v@, s),
            Query::Folder(v, s) => QuerySelView::Folder(strings_view(v@), s),
        },
        write: settings.write,
        output_name: match settings.output_name {
            Some(o) => Some(o@),
            None => None,
        },
        record_timestamp: settings.record_timestamp,
        unique_entries: settings.unique_entries,
        quiet: settings.quiet,
        include_runtime: settings.include_runtime,
        queries_to_run,
        folders_to_search,
        messages,
    }
}

/// Processes every token after the operation word into either an updated
/// configuration (for `new`/`update`) or a query description (for
/// `query`), exactly as [`spec_parse_args`] folds the token steps. The
/// informational messages are returned in emission order for the caller to
/// print; the first offending token turns into a configuration error.
#[verifier::rlimit(100)]
pub fn parse_args(args: Vec<String>, load: bool, op_type: &OperationType, base: Config) -> (r:
    Result<(ParsedReturn, Vec<String>), ConfigError>)
    ensures
        (match spec_parse_args(strings_view(args@), load, *op_type, base) {
            Ok(st) => r matches Ok(pr) && strings_view(pr.1@) == st.messages && (
            if !(*op_type is Query) {
                pr.0 matches ParsedReturn::Config(c) && config_matches(c, st, base)
            } else {
                pr.0 matches ParsedReturn::Query(qi) && config_matches(qi.config, st, base)
                    && settings_match(qi.settings, st) && query_matches(qi.query, st)
            }),
            Err(m) => r matches Err(ConfigError::ParseError(e)) && e@ == m,
        }),
{
    let ghost base0 = base;
    let ghost argv = strings_view(args@);
    let ghost toks = if argv.len() >= 2 {
        argv.subrange(2, argv.len() as int)
    } else {
        Seq::<Seq<char>>::empty()
    };
    let ghost s0 = initial_state(base);

    let Config { version: _, setup: mut project, file_structure, general_query_params } = base;
    let mut next_init = InitParams::Unset;
    let mut next_query = QueryParams::Unset;
    let mut query_choice = Query::Unset;
    let mut settings = QuerySettings::default();
    let mut messages: Vec<String> = Vec::new();
    let ghost mut gqueries: Seq<QueryType> = Seq::empty();
    let ghost mut gfolders: Seq<Seq<char>> = Seq::empty();

    proof {
        assert(strings_view(messages@) =~= Seq::<Seq<char>>::empty());
        assert(exec_view(
            project,
            next_init,
            next_query,
            query_choice,
            settings,
            gqueries,
            gfolders,
            strings_view(messages@),
        ) == s0);
    }

    let n = args.len();
    proof {
        assert(argv.len() == n);
    }
    let is_query = match op_type {
        OperationType::Query => true,
        _ => false,
    };

    if !is_query {
        let mut i: usize = 2;
        while i < n
            invariant
                n == args@.len(),
                i >= 2,
                i <= n || i == 2,
                argv == strings_view(args@),
                argv.len() == n,
                !(*op_type is Query),
                toks == (if argv.len() >= 2 {
                    argv.subrange(2, argv.len() as int)
                } else {
                    Seq::<Seq<char>>::empty()
                }),
                base0 == base,
                s0 == initial_state(base0),
                run_init_steps(s0, toks.subrange(0, i - 2), load) == Ok::<ParseState, Seq<char>>(
                    exec_view(
                        project,
                        next_init,
                        next_query,
                        query_choice,
                        settings,
                        gqueries,
                        gfolders,
                        strings_view(messages@),
                    ),
                ),
            decreases n - i,
        {
            let current_arg = &args[i];
            let ghost pre = exec_view(
                project,
                next_init,
                next_query,
                query_choice,
                settings,
                gqueries,
                gfolders,
                strings_view(messages@),
            );
            let ghost tokv = current_arg@;
            proof {
                assert(toks.subrange(0, (i - 2) + 1).drop_last() =~= toks.subrange(0, i - 2));
                assert(toks.subrange(0, (i - 2) + 1).last() == toks[i - 2]);
                assert(toks[i - 2] == argv[i as int]);
            }
            if next_init == InitParams::Unset {
                if str_eq(current_arg.as_str(), "-n") || str_eq(current_arg.as_str(), "--name") {
                    next_init = InitParams::ProjName;
                } else if str_eq(current_arg.as_str(), "-dn") || str_eq(
                    current_arg.as_str(),
                    "--deadname",
                ) {
                    next_init = InitParams::DeadName;
                } else if str_eq(current_arg.as_str(), "-d") || str_eq(
                    current_arg.as_str(),
                    "--days",
                ) {
                    next_init = InitParams::Days;
                } else if str_eq(current_arg.as_str(), "-c") || str_eq(
                    current_arg.as_str(),
                    "--cameras",
                ) {
                    next_init = InitParams::Cameras;
                } else if str_eq(current_arg.as_str(), "-s") || str_eq(
                    current_arg.as_str(),
                    "--sound-sources",
                ) {
                    next_init = InitParams::SoundSources;
                } else if str_eq(current_arg.as_str(), "-cl") || str_eq(
                    current_arg.as_str(),
                    "--clean",
                ) {
                    project.clean_project = true;
                    let ghost prevm = strings_view(messages@);
                    messages.push(
                        String::from_str("Cleaning empty folders that are undefined!"),
                    );
                    proof {
                        assert(strings_view(messages@) =~= prevm.push(
                            "Cleaning empty folders that are undefined!"@,
                        ));
                    }
                } else {
                    let mut m = String::from_str("Error in parsing: \"");
                    m.append(current_arg.as_str());
                    m.append("\" is not a valid CLI argument!");
                    proof {
                        assert(m@ =~= bad_token_message(tokv));
                        assert(init_step(pre, tokv, load) == Err::<ParseState, Seq<char>>(
                            bad_token_message(tokv),
                        ));
                        assert(run_init_steps(s0, toks.subrange(0, (i - 2) + 1), load)
                            == Err::<ParseState, Seq<char>>(bad_token_message(tokv)));
                        lemma_run_init_error(s0, toks, (i - 2) + 1, load);
                        assert(run_init_steps(s0, toks, load) == Err::<ParseState, Seq<char>>(
                            bad_token_message(tokv),
                        ));
                        assert(!(*op_type is Query));
                        let toks2 = (if strings_view(args@).len() >= 2 {
                            strings_view(args@).subrange(2, strings_view(args@).len() as int)
                        } else {
                            Seq::<Seq<char>>::empty()
                        });
                        assert(toks2 == toks);
                        assert(run_init_steps(initial_state(base0), toks2, load)
                            == Err::<ParseState, Seq<char>>(bad_token_message(tokv)));
                        assert(spec_parse_args(strings_view(args@), load, *op_type, base0)
                            == Err::<ParseState, Seq<char>>(bad_token_message(tokv)));
                    }
                    return Err(ConfigError::ParseError(m));
                }
            } else {
                let px: &str = if load {
                    "Updated"
                } else {
                    "Set"
                };
                match next_init {
                    InitParams::ProjName => {
                        project.name = current_arg.clone();
                        let mut m = String::from_str(px);
                        m.append(" project name to ");
                        m.append(current_arg.as_str());
                        let ghost prevm = strings_view(messages@);
                        messages.push(m);
                        next_init = InitParams::Unset;
                        proof {
                            assert(strings_view(messages@) =~= prevm.push(
                                spec_prefix_word(load) + " project name to "@ + tokv,
                            ));
                        }
                    },
                    InitParams::DeadName => {
                        project.deadname = Some(current_arg.clone());
                        let mut m = String::from_str(px);
                        m.append(" deadname to: ");
                        m.append(current_arg.as_str());
                        let ghost prevm = strings_view(messages@);
                        messages.push(m);
                        next_init = InitParams::Unset;
                        proof {
                            assert(strings_view(messages@) =~= prevm.push(
                                spec_prefix_word(load) + " deadname to: "@ + tokv,
                            ));
                        }
                    },
                    InitParams::Days => {
                        match parse_positive_integer(current_arg.as_str(), "days") {
                            Ok(v) => {
                                project.days = v;
                                let mut m = String::from_str(px);
                                m.append(" project days: ");
                                m.append(current_arg.as_str());
                                let ghost prevm = strings_view(messages@);
                                messages.push(m);
                                next_init = InitParams::Unset;
                                proof {
                                    assert(strings_view(messages@) =~= prevm.push(
                                        spec_prefix_word(load) + " project days: "@ + tokv,
                                    ));
                                }
                            },
                            Err(e) => {
                                proof {
                                    assert(!(run_init_steps(
                                        s0,
                                        toks.subrange(0, (i - 2) + 1),
                                        load,
                                    ) is Ok));
                                    lemma_run_init_error(s0, toks, (i - 2) + 1, load);
                                }
                                return Err(ConfigError::ParseError(e));
                            },
                        }
                    },
                    InitParams::Cameras => {
                        match parse_positive_integer(current_arg.as_str(), "cameras") {
                            Ok(v) => {
                                project.cameras = v;
                                let mut m = String::from_str(px);
                                m.append(" cameras to: ");
                                m.append(current_arg.as_str());
                                let ghost prevm = strings_view(messages@);
                                messages.push(m);
                                next_init = InitParams::Unset;
                                proof {
                                    assert(strings_view(messages@) =~= prevm.push(
                                        spec_prefix_word(load) + " cameras to: "@ + tokv,
                                    ));
                                }
                            },
                            Err(e) => {
                                proof {
                                    assert(!(run_init_steps(
                                        s0,
                                        toks.subrange(0, (i - 2) + 1),
                                        load,
                                    ) is Ok));
                                    lemma_run_init_error(s0, toks, (i - 2) + 1, load);
                                }
                                return Err(ConfigError::ParseError(e));
                            },
                        }
                    },
                    InitParams::SoundSources => {
                        match parse_positive_integer(current_arg.as_str(), "sound sources") {
                            Ok(v) => {
                                project.sound_sources = v;
                                let mut m = String::from_str(px);
                                m.append(" sound sources to: ");
                                m.append(current_arg.as_str());
                                let ghost prevm = strings_view(messages@);
                                messages.push(m);
                                next_init = InitParams::Unset;
                                proof {
                                    assert(strings_view(messages@) =~= prevm.push(
                                        spec_prefix_word(load) + " sound sources to: "@ + tokv,
                                    ));
                                }
                            },
                            Err(e) => {
                                proof {
                                    assert(!(run_init_steps(
                                        s0,
                                        toks.subrange(0, (i - 2) + 1),
                                        load,
                                    ) is Ok));
                                    lemma_run_init_error(s0, toks, (i - 2) + 1, load);
                                }
                                return Err(ConfigError::ParseError(e));
                            },
                        }
                    },
                    InitParams::Unset => {
                    },
                }
            }
            proof {
                assert(run_init_steps(s0, toks.subrange(0, (i - 2) + 1), load) == Ok::<
                    ParseState,
                    Seq<char>,
                >(
                    exec_view(
                        project,
                        next_init,
                        next_query,
                        query_choice,
                        settings,
                        gqueries,
                        gfolders,
                        strings_view(messages@),
                    ),
                ));
            }
            i += 1;
        }
        proof {
            if n >= 2 {
                assert(toks.subrange(0, n - 2) =~= toks);
            } else {
                assert(toks.subrange(0, i - 2) =~= toks);
            }
        }
        if next_init != InitParams::Unset {
            proof {
                if n < 3 {
                    assert(toks =~= toks.subrange(0, i - 2));
                }
                assert(n >= 3);
                assert(argv.last() == args@[n - 1 as int]@);
            }
            let mut m = String::from_str("Parameter \"");
            m.append(args[n - 1].as_str());
            m.append("\" should be followed by ");
            let rt = get_required_type_init(next_init, true);
            m.append(rt.as_str());
            m.append("!");
            proof {
                assert(m@ =~= "Parameter \""@ + argv.last() + "\" should be followed by "@
                    + spec_required_type_init(next_init, true) + "!"@);
            }
            return Err(ConfigError::ParseError(m));
        }
        let c = Config {
            version: get_version(),
            setup: project,
            file_structure,
            general_query_params,
        };
        Ok((ParsedReturn::Config(c), messages))
    } else {
        let mut i: usize = 2;
        while i < n
            invariant
                n == args@.len(),
                i >= 2,
                i <= n || i == 2,
                argv == strings_view(args@),
                argv.len() == n,
                *op_type is Query,
                toks == (if argv.len() >= 2 {
                    argv.subrange(2, argv.len() as int)
                } else {
                    Seq::<Seq<char>>::empty()
                }),
                base0 == base,
                s0 == initial_state(base0),
                gqueries == (match query_choice {
                    Query::Partial(v, _) => v@,
                    _ => Seq::<QueryType>::empty(),
                }),
                gfolders == (match query_choice {
                    Query::Folder(v, _) => strings_view(v@),
                    _ => Seq::<Seq<char>>::empty(),
                }),
                run_query_steps(s0, toks.subrange(0, i - 2)) == Ok::<ParseState, Seq<char>>(
                    exec_view(
                        project,
                        next_init,
                        next_query,
                        query_choice,
                        settings,
                        gqueries,
                        gfolders,
                        strings_view(messages@),
                    ),
                ),
            decreases n - i,
        {
            let current_arg = &args[i];
            let ghost pre = exec_view(
                project,
                next_init,
                next_query,
                query_choice,
                settings,
                gqueries,
                gfolders,
                strings_view(messages@),
            );
            let ghost tokv = current_arg@;
            proof {
                assert(toks.subrange(0, (i - 2) + 1).drop_last() =~= toks.subrange(0, i - 2));
                assert(toks.subrange(0, (i - 2) + 1).last() == toks[i - 2]);
                assert(toks[i - 2] == argv[i as int]);
            }
            if next_query == QueryParams::Unset {
                if str_eq(current_arg.as_str(), "-w") || str_eq(current_arg.as_str(), "--write") {
                    settings.write = true;
                    next_query = QueryParams::OutputDir;
                } else if str_eq(current_arg.as_str(), "-t") || str_eq(
                    current_arg.as_str(),
                    "--timestamp",
                ) {
                    settings.record_timestamp = true;
                } else if str_eq(current_arg.as_str(), "-u") || str_eq(
                    current_arg.as_str(),
                    "--unique",
                ) {
                    settings.unique_entries = true;
                } else if str_eq(current_arg.as_str(), "-q") || str_eq(
                    current_arg.as_str(),
                    "--quiet",
                ) {
                    settings.quiet = true;
                } else if str_eq(current_arg.as_str(), "-rt") || str_eq(
                    current_arg.as_str(),
                    "--runtime",
                ) {
                    settings.include_runtime = true;
                } else if str_eq(current_arg.as_str(), "-g") || str_eq(
                    current_arg.as_str(),
                    "--general",
                ) {
                    if matches!(query_choice, Query::Unset) {
                        query_choice = Query::General(SortType::default_sort_type());
                    } else {
                        proof {
                            lemma_run_query_error(s0, toks, (i - 2) + 1);
                        }
                        return Err(
                            ConfigError::ParseError(
                                String::from_str("Cannot have more than one query type!"),
                            ),
                        );
                    }
                } else if str_eq(current_arg.as_str(), "-ss") || str_eq(
                    current_arg.as_str(),
                    "--sort-size",
                ) {
                    if matches!(query_choice, Query::Unset) {
                        proof {
                            lemma_run_query_error(s0, toks, (i - 2) + 1);
                        }
                        return Err(
                            ConfigError::ParseError(
                                String::from_str(
                                    "Please specify a query type before specifying a sort type!",
                                ),
                            ),
                        );
                    }
                    let qc = query_choice;
                    query_choice = match qc {
                        Query::General(_) => Query::General(SortType::BySize),
                        Query::Partial(v, _) => Query::Partial(v, SortType::BySize),
                        Query::Folder(v, _) => Query::Folder(v, SortType::BySize),
                        Query::Unset => unreached(),
                    };
                } else if str_eq(current_arg.as_str(), "-sd") || str_eq(
                    current_arg.as_str(),
                    "--sort-default",
                ) {
                    if matches!(query_choice, Query::Unset) {
                        proof {
                            lemma_run_query_error(s0, toks, (i - 2) + 1);
                        }
                        return Err(
                            ConfigError::ParseError(
                                String::from_str(
                                    "Please specify a query type before specifying a sort type!",
                                ),
                            ),
                        );
                    }
                    let qc = query_choice;
                    query_choice = match qc {
                        Query::General(_) => Query::General(SortType::ByDefaultOrder),
                        Query::Partial(v, _) => Query::Partial(v, SortType::ByDefaultOrder),
                        Query::Folder(v, _) => Query::Folder(v, SortType::ByDefaultOrder),
                        Query::Unset => unreached(),
                    };
                } else if str_eq(current_arg.as_str(), "-r") || str_eq(
                    current_arg.as_str(),
                    "--root",
                ) {
                    if !matches!(query_choice, Query::Unset | Query::Partial(_, _)) {
                        proof {
                            lemma_run_query_error(s0, toks, (i - 2) + 1);
                        }
                        return Err(
                            ConfigError::ParseError(
                                String::from_str("Cannot have more than one query type!"),
                            ),
                        );
                    }
                    let sort = *query_choice.get_sort_type();
                    let qc = query_choice;
                    query_choice = match qc {
                        Query::Partial(mut v, _) => {
                            v.push(QueryType::Root);
                            Query::Partial(v, sort)
                        },
                        Query::Unset => {
                            let mut v: Vec<QueryType> = Vec::new();
                            v.push(QueryType::Root);
                            Query::Partial(v, sort)
                        },
                        _ => unreached(),
                    };
                    proof {
                        gqueries = gqueries.push(QueryType::Root);
                    }
                } else if str_eq(current_arg.as_str(), "-d") || str_eq(
                    current_arg.as_str(),
                    "--days",
                ) {
                    if !matches!(query_choice, Query::Unset | Query::Partial(_, _)) {
                        proof {
                            lemma_run_query_error(s0, toks, (i - 2) + 1);
                        }
                        return Err(
                            ConfigError::ParseError(
                                String::from_str("Cannot have more than one query type!"),
                            ),
                        );
                    }
                    let sort = *query_choice.get_sort_type();
                    let qc = query_choice;
                    query_choice = match qc {
                        Query::Partial(mut v, _) => {
                            v.push(QueryType::Days);
                            Query::Partial(v, sort)
                        },
                        Query::Unset => {
                            let mut v: Vec<QueryType> = Vec::new();
                            v.push(QueryType::Days);
                            Query::Partial(v, sort)
                        },
                        _ => unreached(),
                    };
                    proof {
                        gqueries = gqueries.push(QueryType::Days);
                    }
                } else if str_eq(current_arg.as_str(), "-c") || str_eq(
                    current_arg.as_str(),
                    "--cameras",
                ) {
                    if !matches!(query_choice, Query::Unset | Query::Partial(_, _)) {
                        proof {
                            lemma_run_query_error(s0, toks, (i - 2) + 1);
                        }
                        return Err(
                            ConfigError::ParseError(
                                String::from_str("Cannot have more than one query type!"),
                            ),
                        );
                    }
                    let sort = *query_choice.get_sort_type();
                    let qc = query_choice;
                    query_choice = match qc {
                        Query::Partial(mut v, _) => {
                            v.push(QueryType::Cams);
                            Query::Partial(v, sort)
                        },
                        Query::Unset => {
                            let mut v: Vec<QueryType> = Vec::new();
                            v.push(QueryType::Cams);
                            Query::Partial(v, sort)
                        },
                        _ => unreached(),
                    };
                    proof {
                        gqueries = gqueries.push(QueryType::Cams);
                    }
                } else if str_eq(current_arg.as_str(), "-s") || str_eq(
                    current_arg.as_str(),
                    "--sound-sources",
                ) {
                    if !matches!(query_choice, Query::Unset | Query::Partial(_, _)) {
                        proof {
                            lemma_run_query_error(s0, toks, (i - 2) + 1);
                        }
                        return Err(
                            ConfigError::ParseError(
                                String::from_str("Cannot have more than one query type!"),
                            ),
                        );
                    }
                    let sort = *query_choice.get_sort_type();
                    let qc = query_choice;
                    query_choice = match qc {
                        Query::Partial(mut v, _) => {
                            v.push(QueryType::Sound);
                            Query::Partial(v, sort)
                        },
                        Query::Unset => {
                            let mut v: Vec<QueryType> = Vec::new();
                            v.push(QueryType::Sound);
                            Query::Partial(v, sort)
                        },
                        _ => unreached(),
                    };
                    proof {
                        gqueries = gqueries.push(QueryType::Sound);
                    }
                } else if str_eq(current_arg.as_str(), "-f") || str_eq(
                    current_arg.as_str(),
                    "--folder",
                ) {
                    next_query = QueryParams::Folder;
                } else {
                    let mut m = String::from_str("Error in parsing: \"");
                    m.append(current_arg.as_str());
                    m.append("\" is not a valid CLI argument!");
                    proof {
                        assert(m@ =~= bad_token_message(tokv));
                        lemma_run_query_error(s0, toks, (i - 2) + 1);
                    }
                    return Err(ConfigError::ParseError(m));
                }
            } else {
                match next_query {
                    QueryParams::Folder => {
                        if !matches!(query_choice, Query::Unset | Query::Folder(_, _)) {
                            proof {
                                lemma_run_query_error(s0, toks, (i - 2) + 1);
                            }
                            return Err(
                                ConfigError::ParseError(
                                    String::from_str("Cannot have more than one query type!"),
                                ),
                            );
                        }
                        let sort = *query_choice.get_sort_type();
                        let qc = query_choice;
                        query_choice = match qc {
                            Query::Folder(mut v, _) => {
                                let ghost pv = v@;
                                let ca = current_arg.clone();
                                v.push(ca);
                                proof {
                                    lemma_strings_view_push(pv, ca);
                                }
                                Query::Folder(v, sort)
                            },
                            Query::Unset => {
                                let mut v: Vec<String> = Vec::new();
                                let ca = current_arg.clone();
                                v.push(ca);
                                proof {
                                    assert(strings_view(v@) =~= seq![ca@]);
                                }
                                Query::Folder(v, sort)
                            },
                            _ => unreached(),
                        };
                        next_query = QueryParams::Unset;
                        proof {
                            gfolders = gfolders.push(tokv);
                        }
                    },
                    QueryParams::OutputDir => {
                        settings.output_name = Some(current_arg.clone());
                        next_query = QueryParams::Unset;
                    },
                    QueryParams::Unset => {
                    },
                }
            }
            proof {
                assert(run_query_steps(s0, toks.subrange(0, (i - 2) + 1)) == Ok::<
                    ParseState,
                    Seq<char>,
                >(
                    exec_view(
                        project,
                        next_init,
                        next_query,
                        query_choice,
                        settings,
                        gqueries,
                        gfolders,
                        strings_view(messages@),
                    ),
                ));
            }
            i += 1;
        }
        proof {
            if n >= 2 {
                assert(toks.subrange(0, n - 2) =~= toks);
            } else {
                assert(toks.subrange(0, i - 2) =~= toks);
            }
        }
        if next_query != QueryParams::Unset && next_query != QueryParams::OutputDir {
            proof {
                if n < 3 {
                    assert(toks =~= toks.subrange(0, i - 2));
                }
                assert(n >= 3);
                assert(argv.last() == args@[n - 1 as int]@);
            }
            let mut m = String::from_str("Parameter \"");
            m.append(args[n - 1].as_str());
            m.append("\" accepts values of ");
            let rt = get_required_type_query(next_query, true);
            m.append(rt.as_str());
            m.append("!");
            proof {
                assert(m@ =~= "Parameter \""@ + argv.last() + "\" accepts values of "@
                    + spec_required_type_query(next_query, true) + "!"@);
            }
            return Err(ConfigError::ParseError(m));
        }
        if matches!(query_choice, Query::Unset) {
            query_choice = Query::General(SortType::ByDefaultOrder);
            if !settings.quiet {
                let ghost prevm = strings_view(messages@);
                messages.push(
                    String::from_str("No query type specified, defaulting to general query."),
                );
                proof {
                    assert(strings_view(messages@) =~= prevm.push(
                        "No query type specified, defaulting to general query."@,
                    ));
                }
            }
        }
        let c = Config {
            version: get_version(),
            setup: project,
            file_structure,
            general_query_params,
        };
        Ok((ParsedReturn::Query(QueryInfo { query: query_choice, settings, config: c }), messages))
    }
}

} // verus!
