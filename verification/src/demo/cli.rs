//! Command-line options of the demo.
//!
//! `--duration` takes seconds as a decimal fraction; the library keeps the
//! text as given and the program converts it to a time span.

use vstd::prelude::*;
use vstd::string::StrSliceExecFns;
use crate::text::same_chars;

verus! {

/// Frames per second when none is asked for.
pub const DEFAULT_FPS: u32 = 60;

/// Highest frame rate accepted.
pub const MAX_FPS: u32 = 240;

/// What a run is configured to do.
#[derive(Clone, Debug, PartialEq)]
pub struct DemoConfig {
    /// Target frames per second; zero for uncapped.
    pub fps: u32,
    /// How long to run, in seconds as written on the command line.
    pub duration: Option<String>,
    /// Whether to print the statistics report at exit.
    pub show_stats: bool,
}

impl Default for DemoConfig {
    fn default() -> (c: Self)
        ensures
            c.fps == DEFAULT_FPS,
            c.duration is None,
            c.show_stats,
    {
        DemoConfig { fps: DEFAULT_FPS, duration: None, show_stats: true }
    }
}

/// What the command line asks for.
#[derive(Clone, Debug, PartialEq)]
pub enum StartupAction {
    Run(DemoConfig),
    Help,
}

/// Why a command line was refused.
#[derive(Clone, Debug, PartialEq)]
pub enum CliError {
    MissingValue { option: &'static str },
    InvalidFps(String),
    FpsTooHigh { value: u32, max: u32 },
    InvalidDuration(String),
    UnknownOption(String),
    UnexpectedArgument(String),
}

/// A configuration, with text as characters.
pub struct ConfigView {
    pub fps: u32,
    pub duration: Option<Seq<char>>,
    pub show_stats: bool,
}

pub enum ActionView {
    Run(ConfigView),
    Help,
}

pub enum CliErrorView {
    MissingValue(Seq<char>),
    InvalidFps(Seq<char>),
    FpsTooHigh { value: u32, max: u32 },
    InvalidDuration(Seq<char>),
    UnknownOption(Seq<char>),
    UnexpectedArgument(Seq<char>),
}

impl DemoConfig {
    pub open spec fn view_config(self) -> ConfigView {
        ConfigView {
            fps: self.fps,
            duration: match self.duration {
                Some(d) => Some(d@),
                None => None,
            },
            show_stats: self.show_stats,
        }
    }
}

pub open spec fn error_view(e: CliError) -> CliErrorView {
    match e {
        CliError::MissingValue { option } => CliErrorView::MissingValue(option@),
        CliError::InvalidFps(v) => CliErrorView::InvalidFps(v@),
        CliError::FpsTooHigh { value, max } => CliErrorView::FpsTooHigh { value, max },
        CliError::InvalidDuration(v) => CliErrorView::InvalidDuration(v@),
        CliError::UnknownOption(v) => CliErrorView::UnknownOption(v@),
        CliError::UnexpectedArgument(v) => CliErrorView::UnexpectedArgument(v@),
    }
}

pub open spec fn action_result_view(r: Result<StartupAction, CliError>) -> Result<ActionView, CliErrorView> {
    match r {
        Ok(StartupAction::Run(c)) => Ok(ActionView::Run(c.view_config())),
        Ok(StartupAction::Help) => Ok(ActionView::Help),
        Err(e) => Err(error_view(e)),
    }
}

pub open spec fn opt_help() -> Seq<char> {
    seq!['-', '-', 'h', 'e', 'l', 'p']
}

pub open spec fn opt_h() -> Seq<char> {
    seq!['-', 'h']
}

pub open spec fn opt_no_stats() -> Seq<char> {
    seq!['-', '-', 'n', 'o', '-', 's', 't', 'a', 't', 's']
}

pub open spec fn opt_fps() -> Seq<char> {
    seq!['-', '-', 'f', 'p', 's']
}

pub open spec fn opt_duration() -> Seq<char> {
    seq!['-', '-', 'd', 'u', 'r', 'a', 't', 'i', 'o', 'n']
}

pub open spec fn is_digit_char(c: char) -> bool {
    '0' <= c && c <= '9'
}

/// Value of a run of decimal digits.
pub open spec fn digit_chars_value(s: Seq<char>) -> nat
    decreases s.len(),
{
    if s.len() == 0 {
        0
    } else {
        digit_chars_value(s.drop_last()) * 10 + ((s.last() as u32) - 48) as nat
    }
}

/// Every character is a decimal digit.
pub open spec fn all_digit_chars(s: Seq<char>) -> bool {
    forall|i: int| 0 <= i < s.len() ==> is_digit_char(#[trigger] s[i])
}

/// The characters after an optional leading sign.
pub open spec fn unsigned_part(s: Seq<char>) -> Seq<char> {
    if s.len() > 0 && (s[0] == '-' || s[0] == '+') { s.skip(1) } else { s }
}

/// What `str::parse::<i64>` gives: an optional `+` or `-` followed by at
/// least one decimal digit and nothing else, within the range of `i64`.
pub open spec fn spec_parse_i64(s: Seq<char>) -> Option<i64> {
    let digits = unsigned_part(s);
    if digits.len() == 0 || !all_digit_chars(digits) {
        None
    } else {
        let v: int = if s[0] == '-' { -digit_chars_value(digits) } else { digit_chars_value(digits) as int };
        if i64::MIN <= v <= i64::MAX {
            Some(v as i64)
        } else {
            None
        }
    }
}

/// The frame rate that `value` asks for: an integer from 0 to `MAX_FPS`.
/// A larger value that fits in `u32` is reported with its number; one
/// beyond `u32` is not an acceptable frame rate at all.
pub open spec fn spec_parse_fps(value: Seq<char>) -> Result<u32, CliErrorView> {
    match spec_parse_i64(value) {
        None => Err(CliErrorView::InvalidFps(value)),
        Some(n) => if n < 0 || n > u32::MAX {
            Err(CliErrorView::InvalidFps(value))
        } else if n > MAX_FPS {
            Err(CliErrorView::FpsTooHigh { value: n as u32, max: MAX_FPS })
        } else {
            Ok(n as u32)
        },
    }
}

/// The outcome of the options from position `i` on, with `cfg` so far.
pub open spec fn args_from(args: Seq<Seq<char>>, i: int, cfg: ConfigView) -> Result<ActionView, CliErrorView>
    decreases args.len() - i,
{
    if i < 0 || i >= args.len() {
        Ok(ActionView::Run(cfg))
    } else {
        let a = args[i];
        if a == opt_help() || a == opt_h() {
            Ok(ActionView::Help)
        } else if a == opt_no_stats() {
            args_from(args, i + 1, ConfigView { show_stats: false, ..cfg })
        } else if a == opt_fps() {
            if i + 1 >= args.len() {
                Err(CliErrorView::MissingValue(opt_fps()))
            } else {
                match spec_parse_fps(args[i + 1]) {
                    Err(e) => Err(e),
                    Ok(fps) => args_from(args, i + 2, ConfigView { fps, ..cfg }),
                }
            }
        } else if a == opt_duration() {
            if i + 1 >= args.len() {
                Err(CliErrorView::MissingValue(opt_duration()))
            } else {
                args_from(args, i + 2, ConfigView { duration: Some(args[i + 1]), ..cfg })
            }
        } else if a.len() >= 6 && a.take(6) == opt_fps().push('=') {
            match spec_parse_fps(a.skip(6)) {
                Err(e) => Err(e),
                Ok(fps) => args_from(args, i + 1, ConfigView { fps, ..cfg }),
            }
        } else if a.len() >= 11 && a.take(11) == opt_duration().push('=') {
            args_from(args, i + 1, ConfigView { duration: Some(a.skip(11)), ..cfg })
        } else if a.len() > 0 && a[0] == '-' {
            Err(CliErrorView::UnknownOption(a))
        } else {
            Err(CliErrorView::UnexpectedArgument(a))
        }
    }
}

/// The outcome of a whole command line, whose first entry is the program name.
pub open spec fn spec_parse_args(args: Seq<Seq<char>>) -> Result<ActionView, CliErrorView> {
    args_from(args, 1, ConfigView { fps: DEFAULT_FPS, duration: None, show_stats: true })
}

pub open spec fn strings_view(args: Seq<String>) -> Seq<Seq<char>> {
    args.map_values(|s: String| s@)
}

/// Whether `s` begins with the characters of `prefix`.
pub fn str_starts_with(s: &str, prefix: &str) -> (r: bool)
    ensures
        r == (prefix@.len() <= s@.len() && s@.take(prefix@.len() as int) == prefix@),
{
    let n = prefix.unicode_len();
    if n > s.unicode_len() {
        return false;
    }
    let mut i: usize = 0;
    while i < n
        invariant
            n == prefix@.len(),
            n <= s@.len(),
            i <= n,
            forall|j: int| 0 <= j < i ==> s@[j] == prefix@[j],
        decreases n - i,
    {
        if s.get_char(i) != prefix.get_char(i) {
            assert(s@.take(n as int)[i as int] != prefix@[i as int]);
            return false;
        }
        i = i + 1;
    }
    assert(s@.take(n as int) =~= prefix@);
    true
}

/// `str::parse::<i64>`.
pub fn parse_i64(s: &str) -> (r: Option<i64>)
    ensures
        r == spec_parse_i64(s@),
{
    let len = s.unicode_len();
    let mut start: usize = 0;
    let mut negative = false;
    if len > 0 {
        let c = s.get_char(0);
        if c == '-' {
            negative = true;
            start = 1;
        } else if c == '+' {
            start = 1;
        }
    }
    let ghost digits = unsigned_part(s@);
    assert(digits =~= s@.skip(start as int));
    if start >= len {
        return None;
    }
    // Accumulate the magnitude as a negative number, so that i64::MIN fits.
    let mut acc: i64 = 0;
    let mut i: usize = start;
    while i < len
        invariant
            len == s@.len(),
            start <= i <= len,
            digits == s@.skip(start as int),
            digits == unsigned_part(s@),
            negative == (s@.len() > 0 && s@[0] == '-'),
            forall|j: int| 0 <= j < i - start ==> is_digit_char(#[trigger] digits[j]),
            acc == -digit_chars_value(digits.take(i - start)),
        decreases len - i,
    {
        let c = s.get_char(i);
        if !('0' <= c && c <= '9') {
            assert(!is_digit_char(digits[i - start]));
            return None;
        }
        let d = (c as u32 - 48) as i64;
        assert(digits.take(i + 1 - start).drop_last() =~= digits.take(i - start));
        match acc.checked_mul(10) {
            None => {
                proof {
                    if all_digit_chars(digits) {
                        lemma_digit_prefix_monotone(digits, i + 1 - start, digits.len() as int);
                        assert(digits.take(digits.len() as int) =~= digits);
                    }
                }
                return None;
            },
            Some(t) => match t.checked_sub(d) {
                None => {
                    proof {
                        if all_digit_chars(digits) {
                            lemma_digit_prefix_monotone(digits, i + 1 - start, digits.len() as int);
                            assert(digits.take(digits.len() as int) =~= digits);
                        }
                    }
                    return None;
                },
                Some(v) => {
                    acc = v;
                },
            },
        }
        i = i + 1;
    }
    assert(digits.take(len - start) =~= digits);
    if negative {
        Some(acc)
    } else {
        if acc == i64::MIN {
            None
        } else {
            Some(-acc)
        }
    }
}

/// Longer digit runs are worth at least as much as their prefixes.
proof fn lemma_digit_prefix_monotone(s: Seq<char>, k: int, m: int)
    requires
        0 <= k <= m <= s.len(),
        forall|j: int| 0 <= j < s.len() ==> is_digit_char(#[trigger] s[j]),
    ensures
        digit_chars_value(s.take(k)) <= digit_chars_value(s.take(m)),
    decreases m - k,
{
    if k < m {
        lemma_digit_prefix_monotone(s, k, m - 1);
        assert(s.take(m).drop_last() =~= s.take(m - 1));
    }
}

/// Parse a frame rate option value.
fn parse_fps(value: &str) -> (r: Result<u32, CliError>)
    ensures
        match r {
            Ok(f) => spec_parse_fps(value@) == Ok::<u32, CliErrorView>(f),
            Err(e) => spec_parse_fps(value@) == Err::<u32, CliErrorView>(error_view(e)),
        },
{
    let fps = match parse_i64(value) {
        Some(v) => v,
        None => return Err(CliError::InvalidFps(value.to_owned())),
    };
    if fps < 0 || fps > 0xffff_ffff {
        return Err(CliError::InvalidFps(value.to_owned()));
    }
    let fps = fps as u32;
    if fps > MAX_FPS {
        return Err(CliError::FpsTooHigh { value: fps, max: MAX_FPS });
    }
    Ok(fps)
}

/// Read the command line (program name first).
pub fn parse_args(args: Vec<String>) -> (r: Result<StartupAction, CliError>)
    ensures
        action_result_view(r) == spec_parse_args(strings_view(args@)),
{
    let ghost a = strings_view(args@);
    let mut config = DemoConfig::default();
    let mut i: usize = 1;
    while i < args.len()
        invariant
            a == strings_view(args@),
            1 <= i,
            spec_parse_args(a) == args_from(a, i as int, config.view_config()),
        decreases args@.len() - i,
    {
        let arg = args[i].as_str();
        assert(arg@ == a[i as int]);
        let help = "--help";
        let h = "-h";
        let no_stats = "--no-stats";
        let fps = "--fps";
        let duration = "--duration";
        let fps_eq = "--fps=";
        let duration_eq = "--duration=";
        proof {
            reveal_strlit("--help");
            reveal_strlit("-h");
            reveal_strlit("--no-stats");
            reveal_strlit("--fps");
            reveal_strlit("--duration");
            reveal_strlit("--fps=");
            reveal_strlit("--duration=");
            assert(fps_eq@ =~= opt_fps().push('='));
            assert(duration_eq@ =~= opt_duration().push('='));
            assert(help@ == opt_help());
            assert(h@ == opt_h());
            assert(no_stats@ == opt_no_stats());
            assert(fps@ == opt_fps());
            assert(duration@ == opt_duration());
            assert(opt_no_stats()[2] != opt_duration()[2]);
        }
        if same_chars(arg, help) || same_chars(arg, h) {
            assert(help@ == opt_help());
            assert(arg@ == opt_help() || arg@ == opt_h());
            assert(args_from(a, i as int, config.view_config()) == Ok::<ActionView, CliErrorView>(ActionView::Help));
            return Ok(StartupAction::Help);
        } else if same_chars(arg, no_stats) {
            config.show_stats = false;
            i = i + 1;
        } else if same_chars(arg, fps) {
            if i + 1 >= args.len() {
                return Err(CliError::MissingValue { option: fps });
            }
            assert(args[i + 1 as int]@ == a[i + 1]);
            match parse_fps(args[i + 1].as_str()) {
                Ok(f) => config.fps = f,
                Err(e) => return Err(e),
            }
            i = i + 2;
        } else if same_chars(arg, duration) {
            if i + 1 >= args.len() {
                return Err(CliError::MissingValue { option: duration });
            }
            assert(args[i + 1 as int]@ == a[i + 1]);
            config.duration = Some(args[i + 1].clone());
            i = i + 2;
        } else if str_starts_with(arg, fps_eq) {
            let rest = arg.substring_char(6, arg.unicode_len());
            assert(rest@ =~= a[i as int].skip(6));
            match parse_fps(rest) {
                Ok(f) => config.fps = f,
                Err(e) => return Err(e),
            }
            i = i + 1;
        } else if str_starts_with(arg, duration_eq) {
            let rest = arg.substring_char(11, arg.unicode_len());
            assert(rest@ =~= a[i as int].skip(11));
            config.duration = Some(rest.to_owned());
            i = i + 1;
        } else if arg.unicode_len() > 0 && arg.get_char(0) == '-' {
            return Err(CliError::UnknownOption(arg.to_owned()));
        } else {
            return Err(CliError::UnexpectedArgument(arg.to_owned()));
        }
    }
    Ok(StartupAction::Run(config))
}

/// The help text.
pub const USAGE: &'static str = "Usage: knightty-demo [--fps <number>] [--duration <seconds>] [--no-stats]\n\
\n\
Options:\n\
  --fps <number>        Target FPS. Use 0 for uncapped. Default: 60. Max: 240.\n\
  --duration <seconds> Stop after the given number of seconds.\n\
  --no-stats           Do not print the performance report after exit.\n\
  -h, --help           Show this help text.\n\
\n\
Controls:\n\
  q or Escape          Exit the demo.\n\
  Space                Pause or resume.\n";

/// The help text.
pub fn usage() -> (r: &'static str)
    ensures
        r == USAGE,
{
    USAGE
}

/// Every accepted frame rate lies between 0 and `MAX_FPS`: a configuration
/// that a command line starts holds no larger frame rate.
pub proof fn lemma_accepted_fps_within_limit(args: Seq<Seq<char>>)
    ensures
        spec_parse_args(args) matches Ok(ActionView::Run(c)) ==> c.fps <= MAX_FPS,
{
    lemma_args_from_keeps_fps_bound(args, 1, ConfigView { fps: DEFAULT_FPS, duration: None, show_stats: true });
}

proof fn lemma_args_from_keeps_fps_bound(args: Seq<Seq<char>>, i: int, cfg: ConfigView)
    requires
        cfg.fps <= MAX_FPS,
    ensures
        args_from(args, i, cfg) matches Ok(ActionView::Run(c)) ==> c.fps <= MAX_FPS,
    decreases args.len() - i,
{
    if i < 0 || i >= args.len() {
    } else {
        let a = args[i];
        if a == opt_help() || a == opt_h() {
        } else if a == opt_no_stats() {
            lemma_args_from_keeps_fps_bound(args, i + 1, ConfigView { show_stats: false, ..cfg });
        } else if a == opt_fps() {
            if i + 1 < args.len() {
                if let Ok(fps) = spec_parse_fps(args[i + 1]) {
                    lemma_args_from_keeps_fps_bound(args, i + 2, ConfigView { fps, ..cfg });
                }
            }
        } else if a == opt_duration() {
            if i + 1 < args.len() {
                lemma_args_from_keeps_fps_bound(args, i + 2, ConfigView { duration: Some(args[i + 1]), ..cfg });
            }
        } else if a.len() >= 6 && a.take(6) == opt_fps().push('=') {
            if let Ok(fps) = spec_parse_fps(a.skip(6)) {
                lemma_args_from_keeps_fps_bound(args, i + 1, ConfigView { fps, ..cfg });
            }
        } else if a.len() >= 11 && a.take(11) == opt_duration().push('=') {
            lemma_args_from_keeps_fps_bound(args, i + 1, ConfigView { duration: Some(a.skip(11)), ..cfg });
        }
    }
}

} // verus!
