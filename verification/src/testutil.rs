//! Small helpers for exercising the library: canned configurations and
//! checks over query results.

use vstd::prelude::*;

verus! {

use vstd::string::StringExecFns;
use crate::config::Config;
use crate::config::Query;
use crate::config::QueryInfo;
use crate::config::QuerySettings;
use crate::query::QueryResult;
use crate::strings::seq_contains;
use crate::strings::str_contains;
use crate::strings::str_eq;

/// A fresh configuration with the given name and counts over the default
/// template.
pub fn create_test_project(name: &str, days: usize, cameras: usize, sound_sources: usize) -> (r:
    Config)
    ensures
        r.setup.name@ == name@,
        r.setup.days == days,
        r.setup.cameras == cameras,
        r.setup.sound_sources == sound_sources,
        r.version@ == "v2"@,
{
    let mut config = Config::new_config();
    config.setup.name = name.to_owned();
    config.setup.days = days;
    config.setup.cameras = cameras;
    config.setup.sound_sources = sound_sources;
    config
}

/// A query invocation over a fresh configuration with default settings.
pub fn create_mock_query_info(query: Query) -> (r: QueryInfo)
    ensures
        r.query == query,
        !r.settings.write,
        !r.settings.quiet,
        r.config.setup.is_default(),
{
    QueryInfo { query, settings: QuerySettings::default(), config: Config::new_config() }
}

/// Whether a result carries the expected name: the folder name of a general
/// result, the project name of a root result, a fragment of the label of a
/// per-instance result; a folder result carries no name to check.
pub fn validate_query_result(result: &QueryResult, expected_name: &str) -> (r: bool)
    ensures
        r == (match *result {
            QueryResult::GeneralResult(g) => g.folder_name@ == expected_name@,
            QueryResult::RootResult(t) => t.project_name@ == expected_name@,
            QueryResult::DayResult(d) => seq_contains(d.day@, expected_name@),
            QueryResult::CamResult(c) => seq_contains(c.camera@, expected_name@),
            QueryResult::SoundResult(s) => seq_contains(s.sound_source@, expected_name@),
            QueryResult::FolderResult(_) => true,
        }),
{
    match result {
        QueryResult::GeneralResult(g) => str_eq(g.folder_name.as_str(), expected_name),
        QueryResult::RootResult(t) => str_eq(t.project_name.as_str(), expected_name),
        QueryResult::DayResult(d) => str_contains(d.day.as_str(), expected_name),
        QueryResult::CamResult(c) => str_contains(c.camera.as_str(), expected_name),
        QueryResult::SoundResult(s) => str_contains(s.sound_source.as_str(), expected_name),
        QueryResult::FolderResult(_) => true,
    }
}

} // verus!
