//! Power-state snapshot engine: parses key/value-style utility output into
//! numeric fields and derives a coarse thermal pressure classification, plus
//! low-power-mode detection and output-stream selection.

use vstd::prelude::*;
use vstd::string::*;
use crate::parse::{parse_i32_spec, parse_i32_chars};
use crate::text::{
    contains_chars, contains_seq, copy_range, first_nl, is_blank, is_blank_chars, is_digit_char,
    is_space_char, lemma_first_nl_at, lower_chars, lower_seq, strip_cr, to_chars,
};

verus! {

/// One scan step state over a line: the collected characters and whether a
/// digit has been seen yet. A digit is always collected; a minus sign is
/// collected only while the buffer is empty and no digit has been seen; any
/// other character ends the scan once a digit run has started.
pub open spec fn scan_digits_rec(line: Seq<char>, i: int, number: Seq<char>, seen: bool) -> Seq<
    char,
>
    decreases line.len() - i,
{
    if i < 0 || i >= line.len() {
        number
    } else {
        let c = line[i];
        if is_digit_char(c) || (c == '-' && !seen && number.len() == 0) {
            scan_digits_rec(line, i + 1, number.push(c), seen || is_digit_char(c))
        } else if seen {
            number
        } else {
            scan_digits_rec(line, i + 1, number, seen)
        }
    }
}

/// The candidate numeric text of a line: the first digit run, with a single
/// earlier minus sign kept in front if one was collected before any digit.
pub open spec fn scan_digits(line: Seq<char>) -> Seq<char> {
    scan_digits_rec(line, 0, Seq::<char>::empty(), false)
}

/// Collects the candidate numeric text of a line.
#[verifier::loop_isolation(false)]
fn scan_digits_exec(line: &Vec<char>) -> (r: Vec<char>)
    ensures
        r@ == scan_digits(line@),
{
    let mut number: Vec<char> = Vec::new();
    let mut seen: bool = false;
    let mut i: usize = 0;
    while i < line.len()
        invariant
            i <= line@.len(),
            scan_digits(line@) == scan_digits_rec(line@, i as int, number@, seen),
        decreases line@.len() - i,
    {
        let c = line[i];
        let u = c as u32;
        let dig = 48 <= u && u <= 57;
        if dig || (c == '-' && !seen && number.len() == 0) {
            number.push(c);
            seen = seen || dig;
        } else if seen {
            return number;
        }
        i += 1;
    }
    number
}

/// The integer a line yields: the scanned numeric text parsed as an `i32`.
pub open spec fn line_value(line: Seq<char>) -> Option<i32> {
    parse_i32_spec(scan_digits(line))
}

/// Key/value extraction over a whole output text, viewed from position 0 of
/// the remaining suffix: the first line whose ASCII-lowercase form contains
/// the ASCII-lowercase key whose scanned number parses yields the value.
pub open spec fn extract_rec(s: Seq<char>, key: Seq<char>) -> Option<i32>
    decreases s.len(),
    via extract_rec_decreases
{
    if s.len() == 0 {
        None
    } else {
        let i = first_nl(s);
        let line = if i == s.len() {
            s
        } else {
            strip_cr(s.take(i))
        };
        let here = if contains_seq(lower_seq(line), lower_seq(key)) {
            line_value(line)
        } else {
            None
        };
        if here is Some {
            here
        } else if i == s.len() {
            None
        } else {
            extract_rec(s.skip(i + 1), key)
        }
    }
}

#[via_fn]
proof fn extract_rec_decreases(s: Seq<char>, key: Seq<char>) {
    crate::text::lemma_first_nl_bounds(s);
}

/// What `extract_int_from_key` returns on a whole output text.
pub open spec fn extract_spec(output: Seq<char>, key: Seq<char>) -> Option<i32> {
    extract_rec(output, key)
}

#[verifier::loop_isolation(false)]
fn extract_from(s: &Vec<char>, key: &Vec<char>, pos: usize) -> (r: Option<i32>)
    requires
        pos <= s@.len(),
    ensures
        r == extract_rec(s@.skip(pos as int), key@),
    decreases s@.len() - pos,
{
    let ghost t = s@.skip(pos as int);
    if pos == s.len() {
        proof {
            assert(t =~= Seq::<char>::empty());
        }
        return None;
    }
    let mut j: usize = pos;
    while j < s.len() && s[j] != '\n'
        invariant
            pos <= j <= s@.len(),
            forall|k: int| pos <= k < j ==> s@[k] != '\n',
        decreases s@.len() - j,
    {
        j += 1;
    }
    proof {
        assert(forall|k: int| 0 <= k < j - pos ==> #[trigger] t[k] != '\n');
        lemma_first_nl_at(t, j - pos);
    }
    let line_end: usize = if j < s.len() && j > pos && s[j - 1] == '\r' {
        j - 1
    } else {
        j
    };
    let line = copy_range(s, pos, line_end);
    proof {
        let spec_line = if j == s@.len() {
            t
        } else {
            strip_cr(t.take(j - pos))
        };
        assert(t.take(j - pos) =~= s@.subrange(pos as int, j as int));
        if j < s@.len() && j > pos && s@[j - 1] == '\r' {
            assert(spec_line =~= s@.subrange(pos as int, j - 1));
        } else if j < s@.len() {
            assert(spec_line =~= s@.subrange(pos as int, j as int));
        } else {
            assert(spec_line =~= s@.subrange(pos as int, j as int));
        }
        assert(line@ == spec_line);
    }
    let lowered = lower_chars(&line);
    let key_low = lower_chars(key);
    if contains_chars(&lowered, &key_low) {
        let buf = scan_digits_exec(&line);
        let here = parse_i32_chars(&buf);
        if here.is_some() {
            return here;
        }
    }
    if j == s.len() {
        return None;
    }
    proof {
        assert(t.skip(j + 1 - pos) =~= s@.skip(j + 1));
    }
    extract_from(s, key, j + 1)
}

/// Finds the first line of `output` whose ASCII-lowercase form contains the
/// ASCII-lowercase `key`, scans it for a signed digit run, and returns the
/// first such run that parses as an `i32`; later lines are tried when a
/// matching line yields no parseable number.
pub fn extract_int_from_key(output: &str, key: &str) -> (r: Option<i32>)
    ensures
        r == extract_spec(output@, key@),
{
    let s = to_chars(output);
    let k = to_chars(key);
    proof {
        assert(s@.skip(0) =~= s@);
    }
    extract_from(&s, &k, 0)
}

/// Coarse thermal pressure classification.
#[derive(Clone, Copy, PartialEq, Eq, Structural, Debug)]
pub enum ThermalLevel {
    Nominal,
    Fair,
    Serious,
    Critical,
    Unknown,
}

/// The label a level carries at the reporting boundary.
pub open spec fn thermal_label_spec(level: ThermalLevel) -> Seq<char> {
    match level {
        ThermalLevel::Nominal => "nominal"@,
        ThermalLevel::Fair => "fair"@,
        ThermalLevel::Serious => "serious"@,
        ThermalLevel::Critical => "critical"@,
        ThermalLevel::Unknown => "unknown"@,
    }
}

impl ThermalLevel {
    /// The level's lowercase label.
    pub fn label(&self) -> (r: &'static str)
        ensures
            r@ == thermal_label_spec(*self),
    {
        match self {
            ThermalLevel::Nominal => "nominal",
            ThermalLevel::Fair => "fair",
            ThermalLevel::Serious => "serious",
            ThermalLevel::Critical => "critical",
            ThermalLevel::Unknown => "unknown",
        }
    }
}

/// Classification of a raw thermal level integer.
pub open spec fn classify_raw(level: int) -> ThermalLevel {
    if level >= 3 {
        ThermalLevel::Critical
    } else if level == 2 {
        ThermalLevel::Serious
    } else if level == 1 {
        ThermalLevel::Fair
    } else {
        ThermalLevel::Nominal
    }
}

/// Classification of a limit percentage.
pub open spec fn classify_limit(limit: int) -> ThermalLevel {
    if limit <= 50 {
        ThermalLevel::Critical
    } else if limit <= 75 {
        ThermalLevel::Serious
    } else if limit <= 90 {
        ThermalLevel::Fair
    } else {
        ThermalLevel::Nominal
    }
}

/// The lower of the two limit percentages, or whichever one is present.
pub open spec fn min_limit_spec(cpu: Option<i32>, sched: Option<i32>) -> Option<int> {
    match (cpu, sched) {
        (Some(c), Some(s)) => Some(
            if c < s {
                c as int
            } else {
                s as int
            },
        ),
        (Some(c), None) => Some(c as int),
        (None, Some(s)) => Some(s as int),
        (None, None) => None,
    }
}

/// Thermal level inference, in priority order: a raw level integer if one was
/// found; else the minimum available limit percentage; else `nominal` when the
/// output says there is no thermal warning; else `unknown`.
pub open spec fn infer_spec(
    raw: Option<i32>,
    cpu: Option<i32>,
    sched: Option<i32>,
    therm: Seq<char>,
) -> ThermalLevel {
    if raw is Some {
        classify_raw(raw.unwrap() as int)
    } else if min_limit_spec(cpu, sched) is Some {
        classify_limit(min_limit_spec(cpu, sched).unwrap())
    } else if contains_seq(lower_seq(therm), "no thermal warning"@) {
        ThermalLevel::Nominal
    } else {
        ThermalLevel::Unknown
    }
}

/// Derives the thermal pressure level from the extracted fields, falling back
/// to a textual scan of the raw thermal output.
pub fn infer_thermal_level(
    thermal_level_raw: Option<i32>,
    cpu_speed_limit: Option<i32>,
    scheduler_limit: Option<i32>,
    therm_output: &str,
) -> (r: ThermalLevel)
    ensures
        r == infer_spec(thermal_level_raw, cpu_speed_limit, scheduler_limit, therm_output@),
{
    if let Some(level) = thermal_level_raw {
        if level >= 3 {
            return ThermalLevel::Critical;
        }
        if level == 2 {
            return ThermalLevel::Serious;
        }
        if level == 1 {
            return ThermalLevel::Fair;
        }
        return ThermalLevel::Nominal;
    }
    let min_limit: Option<i32> = match (cpu_speed_limit, scheduler_limit) {
        (Some(c), Some(s)) => Some(
            if c < s {
                c
            } else {
                s
            },
        ),
        (Some(c), None) => Some(c),
        (None, Some(s)) => Some(s),
        (None, None) => None,
    };
    if let Some(limit) = min_limit {
        if limit <= 50 {
            return ThermalLevel::Critical;
        }
        if limit <= 75 {
            return ThermalLevel::Serious;
        }
        if limit <= 90 {
            return ThermalLevel::Fair;
        }
        return ThermalLevel::Nominal;
    }
    let t = to_chars(therm_output);
    let lt = lower_chars(&t);
    let needle = to_chars("no thermal warning");
    if contains_chars(&lt, &needle) {
        return ThermalLevel::Nominal;
    }
    ThermalLevel::Unknown
}

/// Token separator in power-settings output: ASCII whitespace or `'='`.
pub open spec fn is_sep_char(c: char) -> bool {
    is_space_char(c) || c == '='
}

/// Length of the prefix before the first separator, or the whole length.
pub open spec fn first_sep(s: Seq<char>) -> int
    decreases s.len(),
{
    if s.len() == 0 {
        0
    } else if is_sep_char(s[0]) {
        0
    } else {
        1 + first_sep(s.drop_first())
    }
}

/// `first_sep` always lies within the sequence's bounds.
proof fn lemma_first_sep_bounds(s: Seq<char>)
    ensures
        0 <= first_sep(s) <= s.len(),
    decreases s.len(),
{
    if s.len() > 0 && !is_sep_char(s[0]) {
        lemma_first_sep_bounds(s.drop_first());
    }
}

proof fn lemma_first_sep_at(s: Seq<char>, j: int)
    requires
        0 <= j <= s.len(),
        forall|k: int| 0 <= k < j ==> !is_sep_char(s[k]),
        j == s.len() || is_sep_char(s[j]),
    ensures
        first_sep(s) == j,
    decreases j,
{
    if s.len() == 0 {
    } else if j == 0 {
    } else {
        let t = s.drop_first();
        assert(forall|k: int| 0 <= k < j - 1 ==> !is_sep_char(#[trigger] t[k]));
        lemma_first_sep_at(t, j - 1);
    }
}

/// The last separator-delimited token of `s` that parses as an `i32`.
pub open spec fn last_int_token(s: Seq<char>) -> Option<i32>
    decreases s.len(),
    via last_int_token_decreases
{
    if s.len() == 0 {
        None
    } else {
        let i = first_sep(s);
        let tok = s.take(i);
        let rest = if i == s.len() {
            None
        } else {
            last_int_token(s.skip(i + 1))
        };
        if rest is Some {
            rest
        } else {
            parse_i32_spec(tok)
        }
    }
}

#[via_fn]
proof fn last_int_token_decreases(s: Seq<char>) {
    lemma_first_sep_bounds(s);
}

#[verifier::loop_isolation(false)]
fn last_int_token_exec(line: &Vec<char>, pos: usize) -> (r: Option<i32>)
    requires
        pos <= line@.len(),
    ensures
        r == last_int_token(line@.skip(pos as int)),
    decreases line@.len() - pos,
{
    let ghost t = line@.skip(pos as int);
    if pos == line.len() {
        proof {
            assert(t =~= Seq::<char>::empty());
        }
        return None;
    }
    let mut j: usize = pos;
    while j < line.len() && !is_sep_exec(line[j])
        invariant
            pos <= j <= line@.len(),
            forall|k: int| pos <= k < j ==> !is_sep_char(line@[k]),
        decreases line@.len() - j,
    {
        j += 1;
    }
    proof {
        assert(forall|k: int| 0 <= k < j - pos ==> !is_sep_char(#[trigger] t[k]));
        lemma_first_sep_at(t, j - pos);
    }
    let rest: Option<i32> = if j == line.len() {
        None
    } else {
        proof {
            assert(t.skip(j + 1 - pos) =~= line@.skip(j + 1));
        }
        last_int_token_exec(line, j + 1)
    };
    if rest.is_some() {
        return rest;
    }
    let tok = copy_range(line, pos, j);
    proof {
        assert(tok@ =~= t.take(j - pos));
    }
    parse_i32_chars(&tok)
}

/// Whether one character separates tokens in power-settings output.
fn is_sep_exec(c: char) -> (b: bool)
    ensures
        b == is_sep_char(c),
{
    let u = c as u32;
    c == ' ' || c == '\t' || c == '\n' || c == '\r' || u == 11 || u == 12 || c == '='
}

/// Low-power evidence carried by one ASCII-lowercased line that mentions the
/// low-power-mode setting: the last numeric token decides when present
/// (enabled iff at least 1); else `=1` / `= 1` means enabled and `=0` / `= 0`
/// disabled; else the line is inconclusive.
pub open spec fn low_power_of_line(ll: Seq<char>) -> Option<bool> {
    if last_int_token(ll) is Some {
        Some(last_int_token(ll).unwrap() >= 1)
    } else if contains_seq(ll, "=1"@) || contains_seq(ll, "= 1"@) {
        Some(true)
    } else if contains_seq(ll, "=0"@) || contains_seq(ll, "= 0"@) {
        Some(false)
    } else {
        None
    }
}

/// Scans the power-settings output line by line for low-power-mode evidence.
pub open spec fn low_power_rec(s: Seq<char>) -> Option<bool>
    decreases s.len(),
    via low_power_rec_decreases
{
    if s.len() == 0 {
        None
    } else {
        let i = first_nl(s);
        let line = if i == s.len() {
            s
        } else {
            strip_cr(s.take(i))
        };
        let ll = lower_seq(line);
        let here = if contains_seq(ll, "lowpowermode"@) {
            low_power_of_line(ll)
        } else {
            None
        };
        if here is Some {
            here
        } else if i == s.len() {
            None
        } else {
            low_power_rec(s.skip(i + 1))
        }
    }
}

#[via_fn]
proof fn low_power_rec_decreases(s: Seq<char>) {
    crate::text::lemma_first_nl_bounds(s);
}

/// What `detect_low_power_mode` returns on a whole output text.
pub open spec fn low_power_spec(output: Seq<char>) -> Option<bool> {
    low_power_rec(output)
}

#[verifier::loop_isolation(false)]
fn low_power_from(s: &Vec<char>, pos: usize) -> (r: Option<bool>)
    requires
        pos <= s@.len(),
    ensures
        r == low_power_rec(s@.skip(pos as int)),
    decreases s@.len() - pos,
{
    let ghost t = s@.skip(pos as int);
    if pos == s.len() {
        proof {
            assert(t =~= Seq::<char>::empty());
        }
        return None;
    }
    let mut j: usize = pos;
    while j < s.len() && s[j] != '\n'
        invariant
            pos <= j <= s@.len(),
            forall|k: int| pos <= k < j ==> s@[k] != '\n',
        decreases s@.len() - j,
    {
        j += 1;
    }
    proof {
        assert(forall|k: int| 0 <= k < j - pos ==> #[trigger] t[k] != '\n');
        lemma_first_nl_at(t, j - pos);
    }
    let line_end: usize = if j < s.len() && j > pos && s[j - 1] == '\r' {
        j - 1
    } else {
        j
    };
    let line = copy_range(s, pos, line_end);
    proof {
        let spec_line = if j == s@.len() {
            t
        } else {
            strip_cr(t.take(j - pos))
        };
        assert(t.take(j - pos) =~= s@.subrange(pos as int, j as int));
        if j < s@.len() && j > pos && s@[j - 1] == '\r' {
            assert(spec_line =~= s@.subrange(pos as int, j - 1));
        } else {
            assert(spec_line =~= s@.subrange(pos as int, j as int));
        }
        assert(line@ == spec_line);
    }
    let ll = lower_chars(&line);
    let mention = to_chars("lowpowermode");
    if contains_chars(&ll, &mention) {
        proof {
            assert(ll@.skip(0) =~= ll@);
        }
        let num = last_int_token_exec(&ll, 0);
        if let Some(v) = num {
            return Some(v >= 1);
        }
        let eq_one = to_chars("=1");
        let eq_sp_one = to_chars("= 1");
        if contains_chars(&ll, &eq_one) || contains_chars(&ll, &eq_sp_one) {
            return Some(true);
        }
        let eq_zero = to_chars("=0");
        let eq_sp_zero = to_chars("= 0");
        if contains_chars(&ll, &eq_zero) || contains_chars(&ll, &eq_sp_zero) {
            return Some(false);
        }
    }
    if j == s.len() {
        return None;
    }
    proof {
        assert(t.skip(j + 1 - pos) =~= s@.skip(j + 1));
    }
    low_power_from(s, j + 1)
}

/// Scans power-settings output for the low-power-mode state: the first line
/// mentioning it that carries evidence decides; absent evidence yields `None`
/// rather than a false negative.
pub fn detect_low_power_mode(output: &str) -> (r: Option<bool>)
    ensures
        r == low_power_spec(output@),
{
    let s = to_chars(output);
    proof {
        assert(s@.skip(0) =~= s@);
    }
    low_power_from(&s, 0)
}

/// Which of a command's two output streams counts, preferring standard
/// output, falling back to standard error, and yielding nothing when both
/// are blank.
pub open spec fn select_output_spec(out: Seq<char>, err: Seq<char>) -> Option<Seq<char>> {
    if !is_blank(out) {
        Some(out)
    } else if !is_blank(err) {
        Some(err)
    } else {
        None
    }
}

/// Selects a command's meaningful output stream.
pub fn select_command_output(stdout: String, stderr: String) -> (r: Option<String>)
    ensures
        (r is Some) == (select_output_spec(stdout@, stderr@) is Some),
        r is Some ==> r.unwrap()@ == select_output_spec(stdout@, stderr@).unwrap(),
{
    let so = to_chars(stdout.as_str());
    if !is_blank_chars(&so) {
        return Some(stdout);
    }
    let se = to_chars(stderr.as_str());
    if !is_blank_chars(&se) {
        return Some(stderr);
    }
    None
}

/// Structured power-state snapshot handed to the reporting boundary.
pub struct MacRuntimeStatePayload {
    pub platform: String,
    pub thermal_level: ThermalLevel,
    pub cpu_speed_limit: Option<i32>,
    pub scheduler_limit: Option<i32>,
    pub available_cpus: Option<i32>,
    pub low_power_mode: Option<bool>,
    pub perf_active_tokens: usize,
    pub caffeinate_active: bool,
    pub source: String,
    pub timestamp_ms: u128,
}

/// Builds the supported-platform snapshot from the two captured utility
/// outputs: extracts the numeric fields by key from the thermal output,
/// infers the thermal level, and reads low-power evidence from the
/// power-settings output.
pub fn snapshot_macos_runtime_state(
    therm_output: &str,
    settings_output: &str,
    perf_active_tokens: usize,
    caffeinate_active: bool,
) -> (r: MacRuntimeStatePayload)
    ensures
        r.platform@ == "macos"@,
        r.source@ == "pmset"@,
        r.cpu_speed_limit == extract_spec(therm_output@, "cpu_speed_limit"@),
        r.scheduler_limit == extract_spec(therm_output@, "scheduler_limit"@),
        r.available_cpus == extract_spec(therm_output@, "cpu_available_cpus"@),
        r.thermal_level == infer_spec(
            extract_spec(therm_output@, "thermal level"@),
            r.cpu_speed_limit,
            r.scheduler_limit,
            therm_output@,
        ),
        r.low_power_mode == low_power_spec(settings_output@),
        r.perf_active_tokens == perf_active_tokens,
        r.caffeinate_active == caffeinate_active,
{
    let cpu_speed_limit = extract_int_from_key(therm_output, "cpu_speed_limit");
    let scheduler_limit = extract_int_from_key(therm_output, "scheduler_limit");
    let available_cpus = extract_int_from_key(therm_output, "cpu_available_cpus");
    let thermal_level_raw = extract_int_from_key(therm_output, "thermal level");
    let thermal_level = infer_thermal_level(
        thermal_level_raw,
        cpu_speed_limit,
        scheduler_limit,
        therm_output,
    );
    let low_power_mode = detect_low_power_mode(settings_output);
    let timestamp_ms = now_unix_ms();
    MacRuntimeStatePayload {
        platform: String::from_str("macos"),
        thermal_level,
        cpu_speed_limit,
        scheduler_limit,
        available_cpus,
        low_power_mode,
        perf_active_tokens,
        caffeinate_active,
        source: String::from_str("pmset"),
        timestamp_ms,
    }
}

/// The degraded snapshot for platforms without a power-state utility: the
/// thermal level is unknown, every optional field absent, and the source
/// marked unsupported; it never fails.
pub fn unsupported_snapshot(
    platform: String,
    perf_active_tokens: usize,
    caffeinate_active: bool,
) -> (r: MacRuntimeStatePayload)
    ensures
        r.platform@ == platform@,
        r.source@ == "unsupported"@,
        r.thermal_level == ThermalLevel::Unknown,
        r.cpu_speed_limit is None,
        r.scheduler_limit is None,
        r.available_cpus is None,
        r.low_power_mode is None,
        r.perf_active_tokens == perf_active_tokens,
        r.caffeinate_active == caffeinate_active,
{
    let timestamp_ms = now_unix_ms();
    MacRuntimeStatePayload {
        platform,
        thermal_level: ThermalLevel::Unknown,
        cpu_speed_limit: None,
        scheduler_limit: None,
        available_cpus: None,
        low_power_mode: None,
        perf_active_tokens,
        caffeinate_active,
        source: String::from_str("unsupported"),
        timestamp_ms,
    }
}

/// Relies on std's `SystemTime::now` and `duration_since`: milliseconds since
/// the Unix epoch, or zero when the clock reads earlier than the epoch.
/// Nothing is promised of the value, which depends on the clock.
#[verifier::external_body]
pub fn now_unix_ms() -> u128 {
    match std::time::SystemTime::now().duration_since(std::time::UNIX_EPOCH) {
        Ok(duration) => duration.as_millis(),
        Err(_) => 0,
    }
}

} // verus!
