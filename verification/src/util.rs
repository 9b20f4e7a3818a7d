//! Small shared utilities: version tag, duration formatting, and project-name
//! validation helpers.

use vstd::prelude::*;

verus! {

use vstd::string::StrSliceExecFns;
use vstd::string::StringExecFns;
use vstd::string::StringSliceAdditionalSpecFns;
use crate::strings::is_blank;
use crate::strings::pad2;
use crate::strings::spec_pad2;
use crate::strings::spec_u64_string;
use crate::strings::str_is_blank;
use crate::strings::u64_to_string;

/// The version tag written into persisted configurations.
pub fn get_version() -> (r: String)
    ensures
        r@ == "v2"@,
{
    let r: String = String::from_str("v2");
    r
}

/// The rendering of a duration in milliseconds: plain milliseconds below one
/// second, seconds with two decimals (rounded half up) below one minute, and
/// minutes with whole seconds from there on.
pub open spec fn spec_format_duration(millis: nat) -> Seq<char> {
    if millis < 1000 {
        spec_u64_string(millis) + "ms"@
    } else if millis < 60000 {
        let centis = (millis + 5) / 10;
        spec_u64_string(centis / 100) + "."@ + spec_pad2(centis % 100) + "s"@
    } else {
        let seconds = millis / 1000;
        spec_u64_string(seconds / 60) + "m "@ + spec_u64_string(seconds % 60) + "s"@
    }
}

/// Renders a duration in milliseconds for human eyes.
pub fn format_duration(millis: u64) -> (r: String)
    ensures
        r@ == spec_format_duration(millis as nat),
{
    if millis < 1000 {
        let mut s = u64_to_string(millis);
        s.append("ms");
        s
    } else if millis < 60000 {
        let centis = (millis + 5) / 10;
        let mut s = u64_to_string(centis / 100);
        s.append(".");
        let frac = pad2((centis % 100) as usize);
        s.append(frac.as_str());
        s.append("s");
        s
    } else {
        let seconds = millis / 1000;
        let minutes = seconds / 60;
        let remaining_seconds = seconds % 60;
        let mut s = u64_to_string(minutes);
        s.append("m ");
        let secs = u64_to_string(remaining_seconds);
        s.append(secs.as_str());
        s.append("s");
        s
    }
}

/// A character that file systems commonly refuse in file names.
pub open spec fn is_reserved_filename_char(c: char) -> bool {
    c == '<' || c == '>' || c == ':' || c == '"' || c == '/' || c == '\\' || c == '|' || c == '?'
        || c == '*'
}

/// The sanitized form of a character: reserved ones become underscores.
pub open spec fn spec_sanitize_char(c: char) -> char {
    if is_reserved_filename_char(c) {
        '_'
    } else {
        c
    }
}

/// Replaces characters that file systems refuse with underscores.
pub fn sanitize_filename(filename: &str) -> (r: String)
    ensures
        r@ == filename@.map_values(|c: char| spec_sanitize_char(c)),
{
    let len = filename.unicode_len();
    let mut r = String::new();
    let mut i: usize = 0;
    while i < len
        invariant
            len == filename@.len(),
            i <= len,
            r@ == filename@.subrange(0, i as int).map_values(|c: char| spec_sanitize_char(c)),
        decreases len - i,
    {
        let c = filename.get_char(i);
        if c == '<' || c == '>' || c == ':' || c == '"' || c == '/' || c == '\\' || c == '|' || c
            == '?' || c == '*' {
            r.push('_');
        } else {
            r.push(c);
        }
        proof {
            assert(r@ =~= filename@.subrange(0, i + 1 as int).map_values(
                |c: char| spec_sanitize_char(c),
            ));
        }
        i += 1;
    }
    proof {
        assert(filename@.subrange(0, len as int) =~= filename@);
    }
    r
}

/// A character that a project name must not contain (path separators are
/// allowed here, unlike in [`sanitize_filename`]).
pub open spec fn is_invalid_name_char(c: char) -> bool {
    c == '<' || c == '>' || c == ':' || c == '"' || c == '|' || c == '?' || c == '*'
}

/// Some character of the name is invalid.
pub open spec fn has_invalid_name_char(s: Seq<char>) -> bool {
    exists|i: int| 0 <= i < s.len() && is_invalid_name_char(s[i])
}

fn find_invalid_name_char(name: &str) -> (r: bool)
    ensures
        r == has_invalid_name_char(name@),
{
    let len = name.unicode_len();
    let mut i: usize = 0;
    while i < len
        invariant
            len == name@.len(),
            i <= len,
            forall|j: int| 0 <= j < i ==> !is_invalid_name_char(name@[j]),
        decreases len - i,
    {
        let c = name.get_char(i);
        if c == '<' || c == '>' || c == ':' || c == '"' || c == '|' || c == '?' || c == '*' {
            return true;
        }
        i += 1;
    }
    false
}

/// Checks a project name: it must not be blank, must be at most 255 bytes
/// long, and must not contain characters that file systems refuse.
pub fn validate_project_name(name: &str) -> (r: Result<(), String>)
    ensures
        is_blank(name@) ==> (r matches Err(m) && m@ == "Project name cannot be empty"@),
        !is_blank(name@) && name.spec_bytes().len() > 255 ==> (r matches Err(m) && m@
            == "Project name is too long (max 255 characters)"@),
        !is_blank(name@) && name.spec_bytes().len() <= 255 && has_invalid_name_char(name@) ==> (
        r matches Err(m) && m@ == "Project name contains invalid characters"@),
        !is_blank(name@) && name.spec_bytes().len() <= 255 && !has_invalid_name_char(name@) ==> r
            is Ok,
{
    if str_is_blank(name) {
        return Err(String::from_str("Project name cannot be empty"));
    }
    let name_bytes: &[u8] = name.as_bytes();
    if name_bytes.len() > 255 {
        return Err(String::from_str("Project name is too long (max 255 characters)"));
    }
    if find_invalid_name_char(name) {
        return Err(String::from_str("Project name contains invalid characters"));
    }
    Ok(())
}

} // verus!
