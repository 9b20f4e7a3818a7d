//! Report rendering: the human-readable size shorthand, the fixed textual
//! block each query result serializes to, and the header, timestamp and
//! export-path helpers around a report.

use vstd::prelude::*;

verus! {

use vstd::string::StrSliceExecFns;
use vstd::string::StringExecFns;
use crate::config::Query;
use crate::config::QuerySettings;
use crate::config::SortType;
use crate::query::CamResult;
use crate::query::DayResult;
use crate::query::FolderResult;
use crate::query::GeneralResult;
use crate::query::QueryResult;
use crate::query::RootResult;
use crate::query::SoundResult;
use crate::strings::dots_for_colons;
use crate::strings::spec_digit_char;
use crate::strings::spec_dot_for_colon;
use crate::strings::spec_u64_string;
use crate::strings::u64_to_string;

/// Powers of 1024, the binary size ladder.
pub open spec fn pow1024(k: nat) -> nat
    decreases k,
{
    if k == 0 {
        1
    } else {
        1024 * pow1024((k - 1) as nat)
    }
}

/// Powers of 1000, the decimal size ladder.
pub open spec fn pow1000(k: nat) -> nat
    decreases k,
{
    if k == 0 {
        1
    } else {
        1000 * pow1000((k - 1) as nat)
    }
}

/// How often a byte count divides by 1024 before dropping below 1024.
pub open spec fn shorthand_expo(bytes: nat) -> nat
    decreases bytes,
{
    if bytes < 1024 {
        0
    } else {
        1 + shorthand_expo(bytes / 1024)
    }
}

/// The magnitude prefix letter for each rung of the ladder.
pub open spec fn spec_prefix_str(k: nat) -> Seq<char> {
    if k == 1 {
        "K"@
    } else if k == 2 {
        "M"@
    } else if k == 3 {
        "G"@
    } else if k == 4 {
        "T"@
    } else if k == 5 {
        "P"@
    } else if k == 6 {
        "E"@
    } else if k == 7 {
        "Z"@
    } else if k == 8 {
        "Y"@
    } else {
        ""@
    }
}

/// How many decimal places the shorthand shows: none at byte or kilo
/// magnitude, none whenever the binary-scaled value reaches one hundred
/// (keeping the shorthand at three significant digits), and one otherwise.
pub open spec fn spec_shorthand_decimals(bytes: nat) -> nat {
    let k = shorthand_expo(bytes);
    if k <= 1 {
        0
    } else if bytes >= 100 * pow1024(k) {
        0
    } else {
        1
    }
}

/// Values of one hundred or more in binary-scaled form always render
/// without decimal places.
pub proof fn lemma_shorthand_no_decimals(bytes: nat)
    requires
        100 * pow1024(shorthand_expo(bytes)) <= bytes,
    ensures
        spec_shorthand_decimals(bytes) == 0,
{
}

/// The rendered size: zero bytes as `0B`, plain bytes below one kibibyte,
/// and otherwise a binary value with an `iB` suffix beside a decimal value
/// computed from the same byte count on the 1000 ladder, both rounded half
/// up to [`spec_shorthand_decimals`] places.
pub open spec fn spec_shorthand(bytes: nat) -> Seq<char> {
    if bytes == 0 {
        "0B"@
    } else {
        let k = shorthand_expo(bytes);
        if k == 0 || k > 8 {
            spec_u64_string(bytes) + "B"@
        } else {
            let p = pow1024(k);
            let q = pow1000(k);
            let pre = spec_prefix_str(k);
            if spec_shorthand_decimals(bytes) == 0 {
                spec_u64_string((bytes + p / 2) / p) + pre + "iB ("@ + spec_u64_string(
                    (bytes + q / 2) / q,
                ) + pre + "B)"@
            } else {
                let ib10 = (10 * bytes + p / 2) / p;
                let b10 = (10 * bytes + q / 2) / q;
                spec_u64_string(ib10 / 10) + "."@ + spec_u64_string(ib10 % 10) + pre + "iB ("@
                    + spec_u64_string(b10 / 10) + "."@ + spec_u64_string(b10 % 10) + pre + "B)"@
            }
        }
    }
}

fn u128_to_string(n: u128) -> (r: String)
    ensures
        r@ == spec_u64_string(n as nat),
    decreases n,
{
    if n < 10 {
        let d = n as u64;
        let mut s = String::new();
        s.push(
            if d == 0 {
                '0'
            } else if d == 1 {
                '1'
            } else if d == 2 {
                '2'
            } else if d == 3 {
                '3'
            } else if d == 4 {
                '4'
            } else if d == 5 {
                '5'
            } else if d == 6 {
                '6'
            } else if d == 7 {
                '7'
            } else if d == 8 {
                '8'
            } else {
                '9'
            },
        );
        proof {
            assert(s@ =~= spec_u64_string(n as nat));
        }
        s
    } else {
        let mut s = u128_to_string(n / 10);
        let d = (n % 10) as u64;
        s.push(
            if d == 0 {
                '0'
            } else if d == 1 {
                '1'
            } else if d == 2 {
                '2'
            } else if d == 3 {
                '3'
            } else if d == 4 {
                '4'
            } else if d == 5 {
                '5'
            } else if d == 6 {
                '6'
            } else if d == 7 {
                '7'
            } else if d == 8 {
                '8'
            } else {
                '9'
            },
        );
        s
    }
}

/// Renders a byte count as the report's size shorthand.
pub fn to_shorthand(bytes: u64) -> (r: String)
    ensures
        r@ == spec_shorthand(bytes as nat),
{
    if bytes == 0 {
        return String::from_str("0B");
    }
    let mut cur: u64 = bytes;
    let mut k: usize = 0;
    let mut p: u64 = 1;
    let mut q: u64 = 1;
    while cur >= 1024
        invariant
            bytes >= 1,
            cur >= 1,
            p >= 1,
            q >= 1,
            q <= p,
            k <= 6,
            p == pow1024(k as nat),
            q == pow1000(k as nat),
            shorthand_expo(bytes as nat) == k + shorthand_expo(cur as nat),
            (cur as int) * (p as int) <= bytes as int,
        decreases cur,
    {
        proof {
            assert(1024 * (p as int) <= (cur as int) * (p as int)) by (nonlinear_arith)
                requires
                    cur >= 1024,
                    p >= 1,
            ;
            if k == 6 {
                reveal_with_fuel(pow1024, 8);
                assert(pow1024(7) == 1024 * 1024 * 1024 * 1024 * 1024 * 1024 * 1024);
                assert(pow1024(7) > u64::MAX);
                assert(false);
            }
            assert((cur as int) / 1024 * ((p as int) * 1024) <= (cur as int) * (p as int))
                by (nonlinear_arith)
                requires
                    cur >= 1024,
                    p >= 1,
            ;
            assert(1000 * (q as int) <= 1024 * (p as int));
        }
        cur = cur / 1024;
        k = k + 1;
        p = p * 1024;
        q = q * 1000;
    }
    proof {
        assert(shorthand_expo(cur as nat) == 0);
        assert(shorthand_expo(bytes as nat) == k);
    }
    if k == 0 {
        let mut s = u64_to_string(bytes);
        s.append("B");
        return s;
    }
    let pre: &str = match k {
        1 => "K",
        2 => "M",
        3 => "G",
        4 => "T",
        5 => "P",
        6 => "E",
        7 => "Z",
        8 => "Y",
        _ => "",
    };
    proof {
        assert(pre@ == spec_prefix_str(k as nat));
    }
    let big = bytes as u128;
    let pb = p as u128;
    let qb = q as u128;
    let zero_dec = k == 1 || big >= 100 * pb;
    proof {
        assert(zero_dec == (spec_shorthand_decimals(bytes as nat) == 0));
    }
    if zero_dec {
        let ib = (big + pb / 2) / pb;
        let b = (big + qb / 2) / qb;
        let mut s = u128_to_string(ib);
        s.append(pre);
        s.append("iB (");
        let bs = u128_to_string(b);
        s.append(bs.as_str());
        s.append(pre);
        s.append("B)");
        s
    } else {
        let ib10 = (10 * big + pb / 2) / pb;
        let b10 = (10 * big + qb / 2) / qb;
        let mut s = u128_to_string(ib10 / 10);
        s.append(".");
        let f1 = u128_to_string(ib10 % 10);
        s.append(f1.as_str());
        s.append(pre);
        s.append("iB (");
        let b1 = u128_to_string(b10 / 10);
        s.append(b1.as_str());
        s.append(".");
        let f2 = u128_to_string(b10 % 10);
        s.append(f2.as_str());
        s.append(pre);
        s.append("B)");
        s
    }
}

/// A hexadecimal digit, upper case.
pub open spec fn spec_hex_digit(d: nat) -> char {
    if d < 10 {
        spec_digit_char(d)
    } else if d == 10 {
        'A'
    } else if d == 11 {
        'B'
    } else if d == 12 {
        'C'
    } else if d == 13 {
        'D'
    } else if d == 14 {
        'E'
    } else {
        'F'
    }
}

/// How one character appears inside a double-quoted string value: the
/// standard short escapes, `\u00XX` for other control characters, and the
/// character itself otherwise.
pub open spec fn spec_escape_char(c: char) -> Seq<char> {
    if c == '\u{8}' {
        "\\b"@
    } else if c == '\t' {
        "\\t"@
    } else if c == '\n' {
        "\\n"@
    } else if c == '\u{c}' {
        "\\f"@
    } else if c == '\r' {
        "\\r"@
    } else if c == '"' {
        "\\\""@
    } else if c == '\\' {
        "\\\\"@
    } else if (c as u32) < 32 || c as u32 == 127 {
        "\\u00"@ + seq![spec_hex_digit((c as u32 / 16) as nat)] + seq![
            spec_hex_digit((c as u32 % 16) as nat),
        ]
    } else {
        seq![c]
    }
}

/// A whole string value escaped character by character.
pub open spec fn spec_escape_string(s: Seq<char>) -> Seq<char>
    decreases s.len(),
{
    if s.len() == 0 {
        Seq::empty()
    } else {
        spec_escape_string(s.drop_last()) + spec_escape_char(s.last())
    }
}

fn hex_digit_char(d: u32) -> (c: char)
    requires
        d < 16,
    ensures
        c == spec_hex_digit(d as nat),
{
    if d == 0 {
        '0'
    } else if d == 1 {
        '1'
    } else if d == 2 {
        '2'
    } else if d == 3 {
        '3'
    } else if d == 4 {
        '4'
    } else if d == 5 {
        '5'
    } else if d == 6 {
        '6'
    } else if d == 7 {
        '7'
    } else if d == 8 {
        '8'
    } else if d == 9 {
        '9'
    } else if d == 10 {
        'A'
    } else if d == 11 {
        'B'
    } else if d == 12 {
        'C'
    } else if d == 13 {
        'D'
    } else if d == 14 {
        'E'
    } else {
        'F'
    }
}

fn escape_basic_string(s: &str) -> (r: String)
    ensures
        r@ == spec_escape_string(s@),
{
    let len = s.unicode_len();
    let mut r = String::new();
    let mut i: usize = 0;
    while i < len
        invariant
            len == s@.len(),
            i <= len,
            r@ == spec_escape_string(s@.subrange(0, i as int)),
        decreases len - i,
    {
        proof {
            assert(s@.subrange(0, i + 1 as int).drop_last() =~= s@.subrange(0, i as int));
            assert(s@.subrange(0, i + 1 as int).last() == s@[i as int]);
        }
        let c = s.get_char(i);
        if c == '\u{8}' {
            r.append("\\b");
        } else if c == '\t' {
            r.append("\\t");
        } else if c == '\n' {
            r.append("\\n");
        } else if c == '\u{c}' {
            r.append("\\f");
        } else if c == '\r' {
            r.append("\\r");
        } else if c == '"' {
            r.append("\\\"");
        } else if c == '\\' {
            r.append("\\\\");
        } else {
            let cv = c as u32;
            if cv < 32 || cv == 127 {
                r.append("\\u00");
                r.push(hex_digit_char(cv / 16));
                r.push(hex_digit_char(cv % 16));
            } else {
                r.push(c);
            }
        }
        proof {
            assert(r@ =~= spec_escape_string(s@.subrange(0, i + 1 as int)));
        }
        i += 1;
    }
    proof {
        assert(s@.subrange(0, len as int) =~= s@);
    }
    r
}

/// One `key = "value"` line of a result block.
pub open spec fn spec_str_field(key: Seq<char>, value: Seq<char>) -> Seq<char> {
    key + " = \""@ + spec_escape_string(value) + "\"\n"@
}

/// One `key = number` line of a result block.
pub open spec fn spec_int_field(key: Seq<char>, v: nat) -> Seq<char> {
    key + " = "@ + spec_u64_string(v) + "\n"@
}

/// The optional elapsed-time line of a result block.
pub open spec fn spec_runtime_field(o: Option<u64>) -> Seq<char> {
    match o {
        Some(ms) => spec_int_field("runtime_ms"@, ms as nat),
        None => Seq::empty(),
    }
}

/// The optional path line of a per-instance result block.
pub open spec fn spec_opt_path_field(o: Option<String>) -> Seq<char> {
    match o {
        Some(p) => spec_str_field("path"@, p@),
        None => Seq::empty(),
    }
}

fn append_str_field(out: &mut String, key: &str, value: &str)
    ensures
        final(out)@ == old(out)@ + spec_str_field(key@, value@),
{
    out.append(key);
    out.append(" = \"");
    let e = escape_basic_string(value);
    out.append(e.as_str());
    out.append("\"\n");
}

fn append_int_field(out: &mut String, key: &str, v: u64)
    ensures
        final(out)@ == old(out)@ + spec_int_field(key@, v as nat),
{
    out.append(key);
    out.append(" = ");
    let n = u64_to_string(v);
    out.append(n.as_str());
    out.append("\n");
}

fn append_runtime_field(out: &mut String, o: &Option<u64>)
    ensures
        final(out)@ == old(out)@ + spec_runtime_field(*o),
{
    match o {
        Some(ms) => append_int_field(out, "runtime_ms", *ms),
        None => (),
    }
}

fn append_opt_path_field(out: &mut String, o: &Option<String>)
    ensures
        final(out)@ == old(out)@ + spec_opt_path_field(*o),
{
    match o {
        Some(p) => append_str_field(out, "path", p.as_str()),
        None => (),
    }
}

/// The text block one result serializes to, tagged with its query kind and
/// listing its fields one per line in a fixed order.
pub open spec fn spec_result_block(r: QueryResult) -> Seq<char> {
    match r {
        QueryResult::GeneralResult(g) => "[General Query]\n"@ + spec_str_field("path"@, g.path@)
            + spec_str_field("folder_name"@, g.folder_name@) + spec_int_field(
            "file_count"@,
            g.file_count as nat,
        ) + spec_str_field("total_size"@, g.total_size@) + spec_runtime_field(g.runtime_ms),
        QueryResult::RootResult(t) => "[Root Query]\n"@ + spec_str_field(
            "project_name"@,
            t.project_name@,
        ) + spec_int_field("file_count"@, t.file_count as nat) + spec_str_field(
            "total_size"@,
            t.total_size@,
        ) + spec_int_field("shoot_days"@, t.shoot_days as nat) + spec_int_field(
            "camera_count"@,
            t.camera_count as nat,
        ) + spec_int_field("sound_source_count"@, t.sound_source_count as nat)
            + spec_runtime_field(t.runtime_ms),
        QueryResult::DayResult(d) => "[Day Query]\n"@ + spec_opt_path_field(d.path)
            + spec_str_field("day"@, d.day@) + spec_int_field("file_count"@, d.file_count as nat)
            + spec_str_field("total_size"@, d.total_size@) + spec_runtime_field(d.runtime_ms),
        QueryResult::CamResult(c) => "[Camera Query]\n"@ + spec_opt_path_field(c.path)
            + spec_str_field("camera"@, c.camera@) + spec_int_field(
            "file_count"@,
            c.file_count as nat,
        ) + spec_str_field("total_size"@, c.total_size@) + spec_runtime_field(c.runtime_ms),
        QueryResult::SoundResult(s) => "[Sound Source Query]\n"@ + spec_opt_path_field(s.path)
            + spec_str_field("sound_source"@, s.sound_source@) + spec_int_field(
            "file_count"@,
            s.file_count as nat,
        ) + spec_str_field("total_size"@, s.total_size@) + spec_runtime_field(s.runtime_ms),
        QueryResult::FolderResult(f) => "[Folder Query]\n"@ + spec_str_field("path"@, f.path@)
            + spec_int_field("file_count"@, f.file_count as nat) + spec_str_field(
            "total_size"@,
            f.total_size@,
        ) + spec_runtime_field(f.runtime_ms),
    }
}

fn result_block(r: &QueryResult) -> (out: String)
    ensures
        out@ == spec_result_block(*r),
{
    let mut s = String::new();
    match r {
        QueryResult::GeneralResult(g) => {
            s.append("[General Query]\n");
            append_str_field(&mut s, "path", g.path.as_str());
            append_str_field(&mut s, "folder_name", g.folder_name.as_str());
            append_int_field(&mut s, "file_count", g.file_count as u64);
            append_str_field(&mut s, "total_size", g.total_size.as_str());
            append_runtime_field(&mut s, &g.runtime_ms);
        },
        QueryResult::RootResult(t) => {
            s.append("[Root Query]\n");
            append_str_field(&mut s, "project_name", t.project_name.as_str());
            append_int_field(&mut s, "file_count", t.file_count as u64);
            append_str_field(&mut s, "total_size", t.total_size.as_str());
            append_int_field(&mut s, "shoot_days", t.shoot_days as u64);
            append_int_field(&mut s, "camera_count", t.camera_count as u64);
            append_int_field(&mut s, "sound_source_count", t.sound_source_count as u64);
            append_runtime_field(&mut s, &t.runtime_ms);
        },
        QueryResult::DayResult(d) => {
            s.append("[Day Query]\n");
            append_opt_path_field(&mut s, &d.path);
            append_str_field(&mut s, "day", d.day.as_str());
            append_int_field(&mut s, "file_count", d.file_count as u64);
            append_str_field(&mut s, "total_size", d.total_size.as_str());
            append_runtime_field(&mut s, &d.runtime_ms);
        },
        QueryResult::CamResult(c) => {
            s.append("[Camera Query]\n");
            append_opt_path_field(&mut s, &c.path);
            append_str_field(&mut s, "camera", c.camera.as_str());
            append_int_field(&mut s, "file_count", c.file_count as u64);
            append_str_field(&mut s, "total_size", c.total_size.as_str());
            append_runtime_field(&mut s, &c.runtime_ms);
        },
        QueryResult::SoundResult(sr) => {
            s.append("[Sound Source Query]\n");
            append_opt_path_field(&mut s, &sr.path);
            append_str_field(&mut s, "sound_source", sr.sound_source.as_str());
            append_int_field(&mut s, "file_count", sr.file_count as u64);
            append_str_field(&mut s, "total_size", sr.total_size.as_str());
            append_runtime_field(&mut s, &sr.runtime_ms);
        },
        QueryResult::FolderResult(f) => {
            s.append("[Folder Query]\n");
            append_str_field(&mut s, "path", f.path.as_str());
            append_int_field(&mut s, "file_count", f.file_count as u64);
            append_str_field(&mut s, "total_size", f.total_size.as_str());
            append_runtime_field(&mut s, &f.runtime_ms);
        },
    }
    s
}

impl QueryResult {
    /// Renders this result as its report block.
    pub fn get_result_string(self) -> (r: String)
        ensures
            r@ == spec_result_block(self),
    {
        result_block(&self)
    }
}

/// A whole report body: each result's block followed by a blank separator
/// line, in report order.
pub open spec fn spec_report(results: Seq<QueryResult>) -> Seq<char>
    decreases results.len(),
{
    if results.len() == 0 {
        Seq::empty()
    } else {
        spec_report(results.drop_last()) + spec_result_block(results.last()) + "\n"@
    }
}

/// Renders all results into one report body.
pub fn render_query_results(results: &Vec<QueryResult>) -> (r: String)
    ensures
        r@ == spec_report(results@),
{
    let n = results.len();
    let mut out = String::new();
    let mut i: usize = 0;
    while i < n
        invariant
            n == results@.len(),
            i <= n,
            out@ == spec_report(results@.subrange(0, i as int)),
        decreases n - i,
    {
        proof {
            assert(results@.subrange(0, i + 1 as int).drop_last() =~= results@.subrange(
                0,
                i as int,
            ));
            assert(results@.subrange(0, i + 1 as int).last() == results@[i as int]);
        }
        let block = result_block(&results[i]);
        out.append(block.as_str());
        out.append("\n");
        i += 1;
    }
    proof {
        assert(results@.subrange(0, n as int) =~= results@);
    }
    out
}

/// The header line naming which query ran and in which order its results
/// appear.
pub open spec fn spec_explanation(q: Query, settings: QuerySettings) -> Seq<char> {
    match q {
        Query::Partial(_, _) => if settings.unique_entries {
            "unique_entries = true # Entries from different days will be displayed separately.\n\n"@
        } else {
            "unique_entries = false # Entries from different days will be combined.\n\n"@
        },
        Query::General(st) => match st {
            SortType::ByDefaultOrder => "General Project Query - Sorted in Default Order\n\n"@,
            SortType::BySize => "General Project Query - Sorted by Size\n\n"@,
            SortType::Unset => "General Project Query\n\n"@,
        },
        Query::Folder(_, st) => match st {
            SortType::BySize => "Folder Query - Sorted by Size\n\n"@,
            SortType::ByDefaultOrder => "Folder Query - Default Order\n\n"@,
            SortType::Unset => "Folder Query\n\n"@,
        },
        Query::Unset => ""@,
    }
}

/// Names which query ran and which sort order applied, for the report head.
pub fn get_explanation_string(query_type: &Query, settings: &QuerySettings) -> (r: String)
    ensures
        r@ == spec_explanation(*query_type, *settings),
{
    match query_type {
        Query::Partial(_, _) => {
            if settings.unique_entries {
                String::from_str(
                    "unique_entries = true # Entries from different days will be displayed separately.\n\n",
                )
            } else {
                String::from_str(
                    "unique_entries = false # Entries from different days will be combined.\n\n",
                )
            }
        },
        Query::General(st) => match st {
            SortType::ByDefaultOrder => String::from_str(
                "General Project Query - Sorted in Default Order\n\n",
            ),
            SortType::BySize => String::from_str("General Project Query - Sorted by Size\n\n"),
            SortType::Unset => String::from_str("General Project Query\n\n"),
        },
        Query::Folder(_, st) => match st {
            SortType::BySize => String::from_str("Folder Query - Sorted by Size\n\n"),
            SortType::ByDefaultOrder => String::from_str("Folder Query - Default Order\n\n"),
            SortType::Unset => String::from_str("Folder Query\n\n"),
        },
        Query::Unset => String::from_str(""),
    }
}

/// The optional timestamp line of a written report: the caller's rendering
/// of the current time, or nothing when timestamps are off.
pub fn get_timestamp_string(settings: &QuerySettings, now: &str) -> (r: String)
    ensures
        settings.record_timestamp ==> r@ == now@ + "\n"@,
        !settings.record_timestamp ==> r@ == Seq::<char>::empty(),
{
    if settings.record_timestamp {
        let mut s = now.to_owned();
        s.append("\n");
        s
    } else {
        String::new()
    }
}

/// Where a written report goes: the requested output name with a `.txt`
/// extension, or a name derived from the caller's rendering of the current
/// time, with colons replaced by dots so the name stays filesystem-safe.
pub fn get_export_path(settings: &QuerySettings, now: &str) -> (r: String)
    ensures
        (match settings.output_name {
            Some(p) => r@ == p@ + ".txt"@,
            None => r@ == "Query_"@ + now@.map_values(|c: char| spec_dot_for_colon(c)) + ".txt"@,
        }),
{
    match &settings.output_name {
        Some(p) => {
            let mut s = p.clone();
            s.append(".txt");
            s
        },
        None => {
            let mut s = String::from_str("Query_");
            let stamped = dots_for_colons(now);
            s.append(stamped.as_str());
            s.append(".txt");
            s
        },
    }
}

} // verus!
