//! Benchmark logging decisions: the on/off switch, the per-scan CSV file name,
//! CSV field escaping, and the UTC calendar rendering of timestamps.

use vstd::prelude::*;
use crate::text::{lemma_contains_push, dec_padded, push_char, push_decimal_padded, push_str};

verus! {

broadcast use vstd::string::group_string_axioms;

/// The CSV header written at the top of every benchmark file.
pub const CSV_HEADER: &'static str = "timestamp,file,file_type,file_size_bytes,source_width,source_height,phase,decode_ms,decode_ms_per_kb,decode_ms_per_kpx,thumbnail_ms,thumbnail_ms_per_kpx,resize_ms,resize_ms_per_kpx,tensor_ms,inference_ms";

// ── Calendar ────────────────────────────────────────────────────────

/// Gregorian leap year.
pub open spec fn is_leap(y: int) -> bool {
    y % 4 == 0 && (y % 100 != 0 || y % 400 == 0)
}

/// Number of days in year `y`.
pub open spec fn days_in_year(y: int) -> int {
    if is_leap(y) { 366 } else { 365 }
}

/// Number of days in month `m` (0 = January) of a year that is or is not leap.
pub open spec fn month_len(m: int, leap: bool) -> int {
    if m == 1 {
        if leap { 29 } else { 28 }
    } else if m == 3 || m == 5 || m == 8 || m == 10 {
        30
    } else {
        31
    }
}

/// Law: month lengths are the Gregorian ones: February has 28 days, 29 in a
/// leap year; from January to July the odd-numbered months (January, March,
/// May, July) have 31 days and the others 30, and from August to December it is
/// the other way round (August, October, December have 31; September and
/// November 30).
pub proof fn law_month_lengths(m: int, leap: bool)
    requires
        0 <= m < 12,
    ensures
        m == 1 ==> month_len(m, leap) == (if leap { 29int } else { 28int }),
        m != 1 ==> (month_len(m, leap) == 31 <==> ((m <= 6) == (m % 2 == 0))),
        m != 1 ==> (month_len(m, leap) == 30 || month_len(m, leap) == 31),
{
}

/// Days from 1 January 1970 to 1 January of year `y` (for `y >= 1970`).
pub open spec fn days_before_year(y: int) -> int
    decreases y - 1970,
{
    if y <= 1970 { 0 } else { days_before_year(y - 1) + days_in_year(y - 1) }
}

/// Days from 1 January to the first day of month `m` (0 = January).
pub open spec fn days_before_month(m: int, leap: bool) -> int
    decreases m,
{
    if m <= 0 { 0 } else { days_before_month(m - 1, leap) + month_len(m - 1, leap) }
}

/// Walks whole years starting at year `y` with `rem` days left; ends in the year
/// that contains the day and the day's index within that year.
pub open spec fn year_walk(y: int, rem: int) -> (int, int)
    decreases rem,
{
    if rem < 0 || rem < days_in_year(y) {
        (y, rem)
    } else {
        year_walk(y + 1, rem - days_in_year(y))
    }
}

/// Walks whole months starting at month `m` with `rem` days left.
pub open spec fn month_walk(m: int, rem: int, leap: bool) -> (int, int)
    decreases 12 - m,
{
    if m >= 12 || rem < month_len(m, leap) {
        (m, rem)
    } else {
        month_walk(m + 1, rem - month_len(m, leap), leap)
    }
}

/// The UTC calendar date of day number `days` since 1970-01-01:
/// (year, month index 0..11, day index 0..30).
pub open spec fn civil_date(days: int) -> (int, int, int) {
    let (y, r) = year_walk(1970, days);
    let (m, d) = month_walk(0, r, is_leap(y));
    (y, m, d)
}

/// `YYYY-MM-DD HH:MM:SS` (UTC) for a count of seconds since the Unix epoch.
pub open spec fn iso_timestamp_text(secs: nat) -> Seq<char> {
    let (y, m, d) = civil_date((secs / 86400) as int);
    let tod = secs % 86400;
    dec_padded(y as nat, 4) + "-"@ + dec_padded((m + 1) as nat, 2) + "-"@ + dec_padded((d + 1) as nat, 2)
        + " "@ + dec_padded(tod / 3600, 2) + ":"@ + dec_padded((tod % 3600) / 60, 2) + ":"@
        + dec_padded(tod % 60, 2)
}

/// `YYYYMMDD-HHMMSS` (UTC) for a count of seconds since the Unix epoch.
pub open spec fn filename_timestamp_text(secs: nat) -> Seq<char> {
    let (y, m, d) = civil_date((secs / 86400) as int);
    let tod = secs % 86400;
    dec_padded(y as nat, 4) + dec_padded((m + 1) as nat, 2) + dec_padded((d + 1) as nat, 2) + "-"@
        + dec_padded(tod / 3600, 2) + dec_padded((tod % 3600) / 60, 2) + dec_padded(tod % 60, 2)
}

/// The walk over years keeps the day count: the day lies in the year reached.
pub proof fn lemma_year_walk(y: int, rem: int)
    requires
        y >= 1970,
        rem >= 0,
    ensures
        year_walk(y, rem).0 >= y,
        0 <= year_walk(y, rem).1 < days_in_year(year_walk(y, rem).0),
        days_before_year(year_walk(y, rem).0) + year_walk(y, rem).1 == days_before_year(y) + rem,
        year_walk(y, rem).0 - y <= rem / 365,
    decreases rem,
{
    if rem >= days_in_year(y) {
        lemma_year_walk(y + 1, rem - days_in_year(y));
        assert(days_before_year(y + 1) == days_before_year(y) + days_in_year(y));
        assert((rem - days_in_year(y)) / 365 + 1 <= rem / 365) by (nonlinear_arith)
            requires rem >= days_in_year(y), days_in_year(y) >= 365;
    }
}

/// The months of a year add up to the year's length.
pub proof fn lemma_months_total(leap: bool)
    ensures
        days_before_month(12, leap) == if leap { 366int } else { 365int },
{
    reveal_with_fuel(days_before_month, 13);
}

/// The walk over months keeps the day count: the day lies in the month reached.
pub proof fn lemma_month_walk(m: int, rem: int, leap: bool)
    requires
        0 <= m <= 12,
        0 <= rem,
        days_before_month(m, leap) + rem < days_before_month(12, leap),
    ensures
        m <= month_walk(m, rem, leap).0 < 12,
        0 <= month_walk(m, rem, leap).1 < month_len(month_walk(m, rem, leap).0, leap),
        days_before_month(month_walk(m, rem, leap).0, leap) + month_walk(m, rem, leap).1
            == days_before_month(m, leap) + rem,
    decreases 12 - m,
{
    if m == 12 {
        assert(false);
    }
    if rem >= month_len(m, leap) {
        assert(days_before_month(m + 1, leap) == days_before_month(m, leap) + month_len(m, leap));
        lemma_month_walk(m + 1, rem - month_len(m, leap), leap);
    }
}

/// Law: the calendar date of a day number is a valid date (month 1..12, day
/// within the month's length, year from 1970 on) and denotes exactly that day.
pub proof fn law_civil_date_exact(days: int)
    requires
        days >= 0,
    ensures
        civil_date(days).0 >= 1970,
        0 <= civil_date(days).1 < 12,
        0 <= civil_date(days).2 < month_len(civil_date(days).1, is_leap(civil_date(days).0)),
        days_before_year(civil_date(days).0) + days_before_month(
            civil_date(days).1,
            is_leap(civil_date(days).0),
        ) + civil_date(days).2 == days,
{
    lemma_year_walk(1970, days);
    let (y, r) = year_walk(1970, days);
    lemma_months_total(is_leap(y));
    lemma_month_walk(0, r, is_leap(y));
}

/// Month lengths, indexed from January.
fn month_length(m: u64, leap: bool) -> (r: u64)
    requires
        m < 12,
    ensures
        r == month_len(m as int, leap),
{
    if m == 1 {
        if leap { 29 } else { 28 }
    } else if m == 3 || m == 5 || m == 8 || m == 10 {
        30
    } else {
        31
    }
}

/// Number of days in year `y`.
fn year_length(y: u64) -> (r: u64)
    ensures
        r as int == days_in_year(y as int),
{
    if leap_year(y) { 366 } else { 365 }
}

/// Gregorian leap-year test.
fn leap_year(y: u64) -> (r: bool)
    ensures
        r == is_leap(y as int),
{
    y % 4 == 0 && (y % 100 != 0 || y % 400 == 0)
}

/// The calendar date of `days` since 1970-01-01: (year, month index, day index).
pub fn civil_from_days(days: u64) -> (r: (u64, u64, u64))
    requires
        days <= u64::MAX / 86400,
    ensures
        r.0 as int == civil_date(days as int).0,
        r.1 as int == civil_date(days as int).1,
        r.2 as int == civil_date(days as int).2,
        r.1 < 12,
        r.2 < 31,
{
    proof {
        law_civil_date_exact(days as int);
    }
    let mut y: u64 = 1970;
    let mut rem: u64 = days;
    let mut diy: u64 = year_length(y);
    while rem >= diy
        invariant
            y >= 1970,
            y - 1970 <= (days - rem) / 365,
            rem <= days,
            days <= u64::MAX / 86400,
            diy as int == days_in_year(y as int),
            year_walk(y as int, rem as int) == year_walk(1970, days as int),
        decreases rem,
    {
        assert((days - rem) / 365 + 1 <= (days - (rem - diy)) / 365) by (nonlinear_arith)
            requires diy >= 365, rem >= diy, rem <= days;
        rem = rem - diy;
        y = y + 1;
        diy = year_length(y);
    }
    let leap = leap_year(y);
    let ghost r0 = rem as int;
    proof {
        lemma_year_walk(1970, days as int);
        lemma_months_total(leap);
        lemma_month_walk(0, r0, leap);
    }
    let mut m: u64 = 0;
    while m < 12 && rem >= month_length(m, leap)
        invariant
            m <= 12,
            month_walk(m as int, rem as int, leap) == month_walk(0, r0, leap),
            month_walk(0, r0, leap).0 < 12,
        decreases 12 - m,
    {
        rem = rem - month_length(m, leap);
        m = m + 1;
    }
    (y, m, rem)
}

/// `YYYY-MM-DD HH:MM:SS` (UTC) for a count of seconds since the Unix epoch, the
/// timestamp column of a benchmark row.
pub fn now_iso(secs: u64) -> (r: String)
    ensures
        r@ == iso_timestamp_text(secs as nat),
{
    let days = secs / 86400;
    let tod = secs % 86400;
    let (y, m, d) = civil_from_days(days);
    let mut out = String::new();
    push_decimal_padded(&mut out, y, 4);
    push_str(&mut out, "-");
    push_decimal_padded(&mut out, m + 1, 2);
    push_str(&mut out, "-");
    push_decimal_padded(&mut out, d + 1, 2);
    push_str(&mut out, " ");
    push_decimal_padded(&mut out, tod / 3600, 2);
    push_str(&mut out, ":");
    push_decimal_padded(&mut out, (tod % 3600) / 60, 2);
    push_str(&mut out, ":");
    push_decimal_padded(&mut out, tod % 60, 2);
    assert(out@ =~= iso_timestamp_text(secs as nat));
    out
}

/// `YYYYMMDD-HHMMSS` (UTC) for a count of seconds since the Unix epoch, the
/// time part of a benchmark file name where local time is not available.
pub fn local_now_filename(secs: u64) -> (r: String)
    ensures
        r@ == filename_timestamp_text(secs as nat),
{
    let days = secs / 86400;
    let tod = secs % 86400;
    let (y, m, d) = civil_from_days(days);
    let mut out = String::new();
    push_decimal_padded(&mut out, y, 4);
    push_decimal_padded(&mut out, m + 1, 2);
    push_decimal_padded(&mut out, d + 1, 2);
    push_str(&mut out, "-");
    push_decimal_padded(&mut out, tod / 3600, 2);
    push_decimal_padded(&mut out, (tod % 3600) / 60, 2);
    push_decimal_padded(&mut out, tod % 60, 2);
    assert(out@ =~= filename_timestamp_text(secs as nat));
    out
}

// ── CSV fields ──────────────────────────────────────────────────────

/// A field must be quoted when it holds a comma, a double quote or a newline.
pub open spec fn needs_csv_quotes(s: Seq<char>) -> bool {
    s.contains(',') || s.contains('"') || s.contains('\n')
}

/// `s` with every double quote doubled.
pub open spec fn quotes_doubled(s: Seq<char>) -> Seq<char>
    decreases s.len(),
{
    if s.len() == 0 {
        Seq::empty()
    } else {
        quotes_doubled(s.drop_last()) + if s.last() == '"' { seq!['"', '"'] } else { seq![s.last()] }
    }
}

/// The CSV rendering of one field.
pub open spec fn csv_field(s: Seq<char>) -> Seq<char> {
    if needs_csv_quotes(s) {
        seq!['"'] + quotes_doubled(s) + seq!['"']
    } else {
        s
    }
}

/// Escapes one CSV field: fields holding a comma, double quote or newline are
/// wrapped in double quotes with inner quotes doubled; others are unchanged.
pub fn escape_csv(s: &str) -> (r: String)
    ensures
        r@ == csv_field(s@),
{
    let mut quote = false;
    for c in it: s.chars()
        invariant
            it.seq() == s@,
            quote == (s@.take(it.index() as int).contains(',') || s@.take(it.index() as int).contains('"')
                || s@.take(it.index() as int).contains('\n')),
    {
        let ghost k = it.index() as int;
        assert(s@.take(k + 1) == s@.take(k).push(c));
        proof {
            lemma_contains_push(s@.take(k), ',', c);
            lemma_contains_push(s@.take(k), '"', c);
            lemma_contains_push(s@.take(k), '\n', c);
        }
        if c == ',' || c == '"' || c == '\n' {
            quote = true;
        }
    }
    assert(s@.take(s@.len() as int) == s@);
    if !quote {
        return String::from_str(s);
    }
    let mut out = String::new();
    push_char(&mut out, '"');
    for c in it: s.chars()
        invariant
            it.seq() == s@,
            out@ == seq!['"'] + quotes_doubled(s@.take(it.index() as int)),
    {
        let ghost k = it.index() as int;
        assert(s@.take(k + 1).drop_last() == s@.take(k));
        if c == '"' {
            push_char(&mut out, '"');
        }
        push_char(&mut out, c);
        assert(out@ =~= seq!['"'] + quotes_doubled(s@.take(k + 1)));
    }
    push_char(&mut out, '"');
    assert(out@ =~= csv_field(s@));
    out
}

/// Reads a quoted CSV field's body (after the opening quote) the way an RFC 4180
/// reader does: `""` is one quote, a lone quote closes the field. Returns the value
/// and what follows the closing quote, or `None` if the field never closes.
pub open spec fn read_quoted(t: Seq<char>) -> Option<(Seq<char>, Seq<char>)>
    decreases t.len(),
{
    if t.len() == 0 {
        None
    } else if t[0] == '"' {
        if t.len() >= 2 && t[1] == '"' {
            match read_quoted(t.skip(2)) {
                Some((v, rest)) => Some((seq!['"'] + v, rest)),
                None => None,
            }
        } else {
            Some((Seq::empty(), t.skip(1)))
        }
    } else {
        match read_quoted(t.skip(1)) {
            Some((v, rest)) => Some((seq![t[0]] + v, rest)),
            None => None,
        }
    }
}

/// Doubling quotes distributes over concatenation.
pub proof fn lemma_quotes_doubled_concat(a: Seq<char>, b: Seq<char>)
    ensures
        quotes_doubled(a + b) == quotes_doubled(a) + quotes_doubled(b),
    decreases b.len(),
{
    if b.len() == 0 {
        assert(a + b =~= a);
        assert(quotes_doubled(a) + quotes_doubled(b) =~= quotes_doubled(a));
    } else {
        lemma_quotes_doubled_concat(a, b.drop_last());
        assert((a + b).drop_last() =~= a + b.drop_last());
        assert((a + b).last() == b.last());
        assert(quotes_doubled(a + b) =~= quotes_doubled(a) + quotes_doubled(b));
    }
}

/// A quoted body followed by the closing quote and a suffix that does not start
/// with a quote reads back as the value, leaving the suffix.
pub proof fn lemma_read_quoted(s: Seq<char>, suffix: Seq<char>)
    requires
        suffix.len() == 0 || suffix[0] != '"',
    ensures
        read_quoted(quotes_doubled(s) + seq!['"'] + suffix) == Some((s, suffix)),
    decreases s.len(),
{
    let t = quotes_doubled(s) + seq!['"'] + suffix;
    if s.len() == 0 {
        assert(quotes_doubled(s) =~= Seq::<char>::empty());
        assert(t =~= seq!['"'] + suffix);
        assert(t.skip(1) =~= suffix);
    } else {
        let c = s[0];
        let rest = s.drop_first();
        assert(seq![c] + rest =~= s);
        lemma_quotes_doubled_concat(seq![c], rest);
        assert(seq![c].drop_last() =~= Seq::<char>::empty());
        assert(quotes_doubled(Seq::<char>::empty()) == Seq::<char>::empty());
        assert(seq![c].last() == c);
        assert(quotes_doubled(s) == quotes_doubled(seq![c]) + quotes_doubled(rest));
        let head: Seq<char> = if c == '"' { seq!['"', '"'] } else { seq![c] };
        assert(quotes_doubled(seq![c]) =~= head);
        assert(t =~= head + (quotes_doubled(rest) + seq!['"'] + suffix));
        lemma_read_quoted(rest, suffix);
        if c == '"' {
            assert(t.skip(2) =~= quotes_doubled(rest) + seq!['"'] + suffix);
            assert(t[0] == '"' && t[1] == '"');
        } else {
            assert(t.skip(1) =~= quotes_doubled(rest) + seq!['"'] + suffix);
            assert(t[0] == c);
        }
    }
}

/// Law: an escaped field is either the unchanged value (which then holds no comma,
/// quote or newline, so a reader takes it whole) or a quoted field that an RFC 4180
/// reader turns back into exactly the value, ending at the field's end.
pub proof fn law_csv_field_round_trip(s: Seq<char>)
    ensures
        !needs_csv_quotes(s) ==> csv_field(s) == s,
        needs_csv_quotes(s) ==> csv_field(s)[0] == '"' && read_quoted(csv_field(s).skip(1)) == Some(
            (s, Seq::<char>::empty()),
        ),
{
    if needs_csv_quotes(s) {
        let f = csv_field(s);
        assert(f.skip(1) =~= quotes_doubled(s) + seq!['"'] + Seq::<char>::empty());
        lemma_read_quoted(s, Seq::<char>::empty());
    }
}

// ── Session state ───────────────────────────────────────────────────

/// The inference backend a build was made for.
#[derive(Clone, Copy, Debug, PartialEq, Eq, Structural)]
pub enum Backend {
    Cpu,
    Cuda,
    CoreMl,
}

/// The lowercase label of a backend, used in benchmark file names.
pub open spec fn backend_label(b: Backend) -> Seq<char> {
    match b {
        Backend::Cpu => "cpu"@,
        Backend::Cuda => "cuda"@,
        Backend::CoreMl => "coreml"@,
    }
}

/// The lowercase label of a backend.
pub fn backend_type(backend: Backend) -> (r: &'static str)
    ensures
        r@ == backend_label(backend),
{
    match backend {
        Backend::Cpu => "cpu",
        Backend::Cuda => "cuda",
        Backend::CoreMl => "coreml",
    }
}

/// The benchmark logger's state: the runtime switch, the output directory (set
/// once at start-up) and the CSV file of the current scan session.
pub struct BenchmarkState {
    pub enabled: bool,
    pub output_dir: Option<String>,
    /// File name (inside the output directory) of the current session's CSV.
    pub current_csv: Option<String>,
}

/// `benchmark_<backend>_<stamp>.csv`.
pub open spec fn session_file_name(backend: Backend, stamp: Seq<char>) -> Seq<char> {
    "benchmark_"@ + backend_label(backend) + "_"@ + stamp + ".csv"@
}

impl BenchmarkState {
    /// A disabled logger with no output directory.
    pub fn new() -> (r: BenchmarkState)
        ensures
            !r.enabled,
            r.output_dir is None,
            r.current_csv is None,
    {
        BenchmarkState { enabled: false, output_dir: None, current_csv: None }
    }

    /// Turns logging on or off.
    pub fn set_enabled(&mut self, enabled: bool)
        ensures
            final(self).enabled == enabled,
            final(self).output_dir == old(self).output_dir,
            final(self).current_csv == old(self).current_csv,
    {
        self.enabled = enabled;
    }

    /// Whether logging is on.
    pub fn is_enabled(&self) -> (r: bool)
        ensures
            r == self.enabled,
    {
        self.enabled
    }

    /// Sets the output directory; only the first call has an effect.
    pub fn init(&mut self, dir: String)
        ensures
            final(self).output_dir == if old(self).output_dir is None { Some(dir) } else { old(self).output_dir },
            final(self).enabled == old(self).enabled,
            final(self).current_csv == old(self).current_csv,
    {
        if self.output_dir.is_none() {
            self.output_dir = Some(dir);
        }
    }

    /// Flips the switch and returns the new setting.
    pub fn toggle(&mut self) -> (r: bool)
        ensures
            r == !old(self).enabled,
            *final(self) == toggled(*old(self)),
    {
        let new_value = !self.is_enabled();
        self.set_enabled(new_value);
        new_value
    }

    /// Starts a scan session: when logging is on and the output directory is set,
    /// names a fresh CSV file for the session, makes it current and returns its
    /// name (the caller creates it and writes `CSV_HEADER`); otherwise nothing
    /// changes.
    pub fn begin_scan_session(&mut self, backend: Backend, stamp: &str) -> (r: Option<String>)
        ensures
            (old(self).enabled && old(self).output_dir is Some) <==> r is Some,
            r matches Some(name) ==> name@ == session_file_name(backend, stamp@)
                && final(self).current_csv == Some(name),
            r is None ==> final(self).current_csv == old(self).current_csv,
            final(self).enabled == old(self).enabled,
            final(self).output_dir == old(self).output_dir,
    {
        if !self.enabled || self.output_dir.is_none() {
            return None;
        }
        let mut name = String::from_str("benchmark_");
        push_str(&mut name, backend_type(backend));
        push_str(&mut name, "_");
        push_str(&mut name, stamp);
        push_str(&mut name, ".csv");
        self.current_csv = Some(name.clone());
        Some(name)
    }

    /// The file a row should be appended to: the current session's CSV while
    /// logging is on.
    pub fn log_file(&self) -> (r: Option<String>)
        ensures
            r == if self.enabled { self.current_csv } else { None },
    {
        if !self.enabled {
            return None;
        }
        match &self.current_csv {
            Some(name) => Some(name.clone()),
            None => None,
        }
    }
}

/// The state after flipping the switch.
pub open spec fn toggled(s: BenchmarkState) -> BenchmarkState {
    BenchmarkState { enabled: !s.enabled, ..s }
}

/// Law: toggling the switch twice restores the logger's state.
pub proof fn law_toggle_twice(s: BenchmarkState)
    ensures
        toggled(toggled(s)) == s,
{
}

} // verus!
