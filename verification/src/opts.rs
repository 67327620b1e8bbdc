//! engine options: logging levels, search features and the UCI options that
//! set them
use vstd::prelude::*;

verus! {

/// # `DebugLevel`
/// the different levels of debug output, from none to everything
#[derive(Clone, Copy, Debug, PartialEq, Eq, Structural)]
#[allow(non_camel_case_types)]
pub enum DebugLevel {
    /// no printing whatsoever
    off,
    /// only errors
    error,
    /// warnings that users should also see
    warn,
    /// informational prints that are also useful to the user
    info,
    /// debug prints, used to checkpoint positions or to ensure smooth operation
    debug,
    /// detailed output used for examining the exact runtime values of the code
    trace,
}

impl Default for DebugLevel {
    /// informational prints
    fn default() -> (r: DebugLevel)
        ensures
            r == DebugLevel::info,
    {
        DebugLevel::info
    }
}

impl DebugLevel {
    /// how verbose the level is: 0 for off up to 5 for trace
    pub open spec fn rank(self) -> int {
        match self {
            DebugLevel::off => 0,
            DebugLevel::error => 1,
            DebugLevel::warn => 2,
            DebugLevel::info => 3,
            DebugLevel::debug => 4,
            DebugLevel::trace => 5,
        }
    }

    /// This [`DebugLevel`] is TRACE
    pub fn trace(&self) -> (r: bool)
        ensures
            r == (self.rank() >= 5),
    {
        *self == DebugLevel::trace
    }

    /// This [`DebugLevel`] is DEBUG or higher (TRACE)
    pub fn debug(&self) -> (r: bool)
        ensures
            r == (self.rank() >= 4),
    {
        *self == DebugLevel::debug || self.trace()
    }

    /// This [`DebugLevel`] is INFO or higher (DEBUG, TRACE)
    pub fn info(&self) -> (r: bool)
        ensures
            r == (self.rank() >= 3),
    {
        *self == DebugLevel::info || self.debug()
    }

    /// This [`DebugLevel`] is WARN or higher (INFO, DEBUG, TRACE)
    pub fn warn(&self) -> (r: bool)
        ensures
            r == (self.rank() >= 2),
    {
        *self == DebugLevel::warn || self.info()
    }

    /// This [`DebugLevel`] is ERROR or higher (WARN, INFO, DEBUG, TRACE)
    pub fn error(&self) -> (r: bool)
        ensures
            r == (self.rank() >= 1),
    {
        *self == DebugLevel::error || self.warn()
    }

    /// This [`DebugLevel`] is OFF
    pub fn off(&self) -> (r: bool)
        ensures
            r == (self.rank() == 0),
    {
        *self == DebugLevel::off
    }

    /// the level of a verbosity from 0 (off) to 5 (trace)
    pub fn from_level(value: i64) -> (r: DebugLevel)
        requires
            0 <= value <= 5,
        ensures
            r.rank() == value,
    {
        match value {
            0 => DebugLevel::off,
            1 => DebugLevel::error,
            2 => DebugLevel::warn,
            3 => DebugLevel::info,
            4 => DebugLevel::debug,
            _ => DebugLevel::trace,
        }
    }
}

/// the levels nest: every level that shows trace output shows debug output,
/// and so on down to errors; a level is off exactly when it shows no errors
pub proof fn lemma_levels_nest(level: DebugLevel)
    ensures
        level.rank() >= 5 ==> level.rank() >= 4,
        level.rank() >= 4 ==> level.rank() >= 3,
        level.rank() >= 3 ==> level.rank() >= 2,
        level.rank() >= 2 ==> level.rank() >= 1,
        (level.rank() == 0) == !(level.rank() >= 1),
        0 <= level.rank() <= 5,
{
}

/// Options for the engine's execution
#[derive(Debug, Clone, Copy, PartialEq, Eq, Default, Structural)]
pub struct EngineOpts {
    /// should the search use alpha beta pruning?
    pub use_ab: bool,
    /// should the search use principal variation search?
    pub use_pv: bool,
    /// should the search use transposition tables?
    pub use_tt: bool,
    /// should the search use move ordering?
    pub use_mo: bool,
    /// should the engine ponder?
    pub ponder: bool,
    /// how big should the transposition table be? value in **bytes**
    pub hash_size: usize,
    /// how many threads should the search use?
    pub threads: usize,
}

/// Debug options for the engine
#[derive(Clone, Copy, Debug, PartialEq, Eq, Structural)]
pub struct Opts {
    pub search: DebugLevel,
    pub eval: DebugLevel,
    pub comm: DebugLevel,
    pub tt: DebugLevel,
    pub uci: DebugLevel,
    pub opts: DebugLevel,
    pub use_ab: bool,
    pub use_pv: bool,
    pub use_tt: bool,
    pub hash_size: usize,
}

impl Default for Opts {
    /// every debug level at info, no search improvement enabled, no table
    fn default() -> (r: Opts)
        ensures
            r == (Opts {
                search: DebugLevel::info,
                eval: DebugLevel::info,
                comm: DebugLevel::info,
                tt: DebugLevel::info,
                uci: DebugLevel::info,
                opts: DebugLevel::info,
                use_ab: false,
                use_pv: false,
                use_tt: false,
                hash_size: 0,
            }),
    {
        Opts {
            search: DebugLevel::info,
            eval: DebugLevel::info,
            comm: DebugLevel::info,
            tt: DebugLevel::info,
            uci: DebugLevel::info,
            opts: DebugLevel::info,
            use_ab: false,
            use_pv: false,
            use_tt: false,
            hash_size: 0,
        }
    }
}

impl Opts {
    /// all debug levels at info (options at debug), no search improvement
    /// enabled, a 16 MiB table
    pub open spec fn spec_initial() -> Opts {
        Opts {
            search: DebugLevel::info,
            eval: DebugLevel::info,
            comm: DebugLevel::info,
            tt: DebugLevel::info,
            uci: DebugLevel::info,
            opts: DebugLevel::debug,
            use_ab: false,
            use_pv: false,
            use_tt: false,
            hash_size: 16384,
        }
    }

    /// By default, all debug levels are set to [`DebugLevel::info`],
    /// and all improvement options are enabled:
    /// * alpha-beta: true
    /// * use_pv: true
    /// * use_tt: true
    ///
    /// [`Opts::default()`] will not enable any performance improvement options!
    pub fn new() -> (r: Opts)
        ensures
            r == (Opts {
                opts: DebugLevel::info,
                use_ab: true,
                use_pv: true,
                use_tt: true,
                ..Opts::spec_initial()
            }),
            r.search == DebugLevel::info && r.eval == DebugLevel::info && r.comm == DebugLevel::info,
            r.tt == DebugLevel::info && r.uci == DebugLevel::info && r.opts == DebugLevel::info,
            r.hash_size == 16 * 1024,
    {
        Opts { opts: DebugLevel::info, ..Self::initial().ab(true).pv(true).tt(true) }
    }

    /// the options a search runs with: these switches and table size, with
    /// move ordering, without pondering, on one thread
    pub open spec fn spec_engine_opts(self) -> EngineOpts {
        EngineOpts {
            use_ab: self.use_ab,
            use_pv: self.use_pv,
            use_tt: self.use_tt,
            use_mo: true,
            ponder: false,
            hash_size: self.hash_size,
            threads: 1,
        }
    }

    /// the options a search runs with: these switches and table size, with
    /// move ordering, without pondering, on one thread
    pub fn engine_opts(&self) -> (r: EngineOpts)
        ensures
            r == self.spec_engine_opts(),
    {
        EngineOpts {
            use_ab: self.use_ab,
            use_pv: self.use_pv,
            use_tt: self.use_tt,
            use_mo: true,
            ponder: false,
            hash_size: self.hash_size,
            threads: 1,
        }
    }

    /// all debug levels at info (options at debug), no search improvement
    fn initial() -> (r: Opts)
        ensures
            r == Opts::spec_initial(),
    {
        Opts {
            search: DebugLevel::info,
            eval: DebugLevel::info,
            comm: DebugLevel::info,
            tt: DebugLevel::info,
            uci: DebugLevel::info,
            opts: DebugLevel::debug,
            use_ab: false,
            use_pv: false,
            use_tt: false,
            hash_size: 16 * 1024,
        }
    }

    /// the options for benchmarking: no logging but errors about options, all
    /// search improvements, a small table
    pub open spec fn spec_bench() -> Opts {
        Opts {
            search: DebugLevel::off,
            eval: DebugLevel::off,
            comm: DebugLevel::off,
            tt: DebugLevel::off,
            uci: DebugLevel::off,
            opts: DebugLevel::error,
            use_ab: true,
            use_pv: true,
            use_tt: true,
            hash_size: 32,
        }
    }

    /// the options for benchmarking
    pub fn bench() -> (r: Opts)
        ensures
            r == Opts::spec_bench(),
    {
        Opts {
            search: DebugLevel::off,
            eval: DebugLevel::off,
            comm: DebugLevel::off,
            tt: DebugLevel::off,
            uci: DebugLevel::off,
            opts: DebugLevel::error,
            use_ab: true,
            use_pv: true,
            use_tt: true,
            hash_size: 32,
        }
    }

    /// Set the [`DebugLevel`] for *search*
    pub fn search(self, level: DebugLevel) -> (r: Opts)
        ensures
            r == (Opts { search: level, ..self }),
    {
        Opts { search: level, ..self }
    }

    /// Set the [`DebugLevel`] for *eval*
    pub fn eval(self, level: DebugLevel) -> (r: Opts)
        ensures
            r == (Opts { eval: level, ..self }),
    {
        Opts { eval: level, ..self }
    }

    /// Set the [`DebugLevel`] for *communication* (between search and
    /// interface threads)
    pub fn comm(self, level: DebugLevel) -> (r: Opts)
        ensures
            r == (Opts { comm: level, ..self }),
    {
        Opts { comm: level, ..self }
    }

    /// Set the logging level for all modules
    pub fn db(self, level: DebugLevel) -> (r: Opts)
        ensures
            r == (Opts { search: level, eval: level, comm: level, tt: level, uci: level, opts: level, ..self }),
    {
        Opts { search: level, eval: level, comm: level, tt: level, uci: level, opts: level, ..self }
    }

    /// Set the logging level for all modules
    pub fn debug(self, level: DebugLevel) -> (r: Opts)
        ensures
            r == (Opts { search: level, eval: level, comm: level, tt: level, uci: level, opts: level, ..self }),
    {
        let mut s = self;
        s.search = level;
        s.eval = level;
        s.comm = level;
        s.tt = level;
        s.uci = level;
        s.opts = level;
        s
    }

    /// Enable or disable alpha-beta pruning during search
    pub fn ab(self, x: bool) -> (r: Opts)
        ensures
            r == (Opts { use_ab: x, ..self }),
    {
        Opts { use_ab: x, ..self }
    }

    /// Enable or disable the use of the principal variation during search (for
    /// move ordering only)
    pub fn pv(self, x: bool) -> (r: Opts)
        ensures
            r == (Opts { use_pv: x, ..self }),
    {
        Opts { use_pv: x, ..self }
    }

    /// Enable or disable the use of the transposition table during search
    pub fn tt(self, x: bool) -> (r: Opts)
        ensures
            r == (Opts { use_tt: x, ..self }),
    {
        Opts { use_tt: x, ..self }
    }

    /// Set the transposition table size **in kilobytes**
    pub fn hash_size(self, x: usize) -> (r: Opts)
        ensures
            r == (Opts { hash_size: x, ..self }),
    {
        Opts { hash_size: x, ..self }
    }
}

/// an option the engine offers over UCI
#[derive(Debug, Clone, PartialEq, Eq)]
pub enum UciOption {
    /// an on/off option
    Check { name: String, default: Option<bool> },
    /// a whole number option within bounds
    Spin { name: String, default: Option<i64>, min: Option<i64>, max: Option<i64> },
}

/// an on/off option with its default
pub open spec fn is_check(o: UciOption, name: Seq<char>, default: bool) -> bool {
    o matches UciOption::Check { name: n, default: d } && n@ == name && d == Some(default)
}

/// a whole number option with its default and bounds
pub open spec fn is_spin(o: UciOption, name: Seq<char>, default: i64, min: i64, max: i64) -> bool {
    o matches UciOption::Spin { name: n, default: d, min: lo, max: hi } && n@ == name && d == Some(
        default,
    ) && lo == Some(min) && hi == Some(max)
}

/// the options the engine announces, in order: four on/off switches, then
/// the verbosity of five modules and the table size in KiB
pub open spec fn registered(r: Seq<UciOption>) -> bool {
    &&& r.len() == 10
    &&& is_check(r[0], "use_ab"@, true)
    &&& is_check(r[1], "use_pv"@, true)
    &&& is_check(r[2], "use_tt"@, true)
    &&& is_check(r[3], "bench_log"@, false)
    &&& is_spin(r[4], "search_debug"@, 2, 0, 5)
    &&& is_spin(r[5], "eval_debug"@, 2, 0, 5)
    &&& is_spin(r[6], "comm_debug"@, 1, 0, 5)
    &&& is_spin(r[7], "tt_debug"@, 1, 0, 5)
    &&& is_spin(r[8], "uci_debug"@, 1, 0, 5)
    &&& is_spin(r[9], "hash"@, 16, 0, 1024)
}

fn check(name: &str, default: bool) -> (r: UciOption)
    ensures
        is_check(r, name@, default),
{
    UciOption::Check { name: name.to_owned(), default: Some(default) }
}

fn spin(name: &str, default: i64, min: i64, max: i64) -> (r: UciOption)
    ensures
        is_spin(r, name@, default, min, max),
{
    UciOption::Spin { name: name.to_owned(), default: Some(default), min: Some(min), max: Some(max) }
}

impl Opts {
    /// the options the engine announces over UCI
    pub fn register_options() -> (r: Vec<UciOption>)
        ensures
            registered(r@),
    {
        let mut r = Vec::new();
        r.push(check("use_ab", true));
        r.push(check("use_pv", true));
        r.push(check("use_tt", true));
        r.push(check("bench_log", false));
        r.push(spin("search_debug", 2, 0, 5));
        r.push(spin("eval_debug", 2, 0, 5));
        r.push(spin("comm_debug", 1, 0, 5));
        r.push(spin("tt_debug", 1, 0, 5));
        r.push(spin("uci_debug", 1, 0, 5));
        r.push(spin("hash", 16, 0, 1024));
        r
    }
}

/// why an option could not be set
#[derive(Debug, Clone, PartialEq, Eq)]
pub enum OptionError {
    /// an on/off option got neither `on` nor `off`
    NeedsOnOff(&'static str),
    /// a number above the option's maximum
    TooHigh(&'static str, i64, i64),
    /// a number below the option's minimum
    TooLow(&'static str, i64, i64),
    /// no option has this name
    Unknown(String),
}

/// are all characters decimal digits?
pub open spec fn all_digits(s: Seq<char>) -> bool {
    forall|i: int| 0 <= i < s.len() ==> '0' <= #[trigger] s[i] <= '9'
}

/// the number that decimal digits write
pub open spec fn digits_value(s: Seq<char>) -> int
    decreases s.len(),
{
    if s.len() == 0 {
        0
    } else {
        digits_value(s.drop_last()) * 10 + (s.last() as int - '0' as int)
    }
}

/// the integer a string writes, as `str::parse::<i64>` reads it: an optional
/// `+` or `-`, then at least one decimal digit, and nothing else, within the
/// range of an `i64`
pub open spec fn parsed_i64(s: Seq<char>) -> Option<i64> {
    let negative = s.len() > 0 && s[0] == '-';
    let body = if s.len() > 0 && (s[0] == '-' || s[0] == '+') {
        s.drop_first()
    } else {
        s
    };
    let v = if negative {
        -digits_value(body)
    } else {
        digits_value(body)
    };
    if body.len() == 0 || !all_digits(body) || v < i64::MIN || v > i64::MAX {
        None
    } else {
        Some(v as i64)
    }
}

/// read an integer, through `str::parse::<i64>`
#[verifier::external_body]
fn parse_i64(s: &str) -> (r: Option<i64>)
    ensures
        r == parsed_i64(s@),
{
    s.parse::<i64>().ok()
}

/// compare two strings, through `str`'s `==`, which compares their characters
#[verifier::external_body]
fn str_eq(a: &str, b: &str) -> (r: bool)
    ensures
        r == (a@ == b@),
{
    a == b
}

/// the text an option got: nothing reads as the empty string
pub open spec fn text_of(value: Option<&str>) -> Seq<char> {
    match value {
        Some(v) => v@,
        None => Seq::empty(),
    }
}

/// what an on/off option makes of its text
pub open spec fn on_off(text: Seq<char>) -> Option<bool> {
    if text == "on"@ {
        Some(true)
    } else if text == "off"@ {
        Some(false)
    } else {
        None
    }
}

/// the debug-level options, each with the field it sets
pub open spec fn level_option(name: Seq<char>) -> bool {
    name == "search_debug"@ || name == "eval_debug"@ || name == "comm_debug"@ || name == "tt_debug"@
        || name == "uci_debug"@
}

/// a number option's value, when its text is a number within bounds
pub open spec fn spin_in(text: Seq<char>, low: i64, high: i64) -> Option<i64> {
    match parsed_i64(text) {
        Some(x) => if low <= x <= high {
            Some(x)
        } else {
            None
        },
        None => None,
    }
}

/// the options after setting `name` to `text`, where that succeeds: the
/// options the receiver keeps, then the options returned
pub open spec fn received(o: Opts, name: Seq<char>, text: Seq<char>) -> Option<(Opts, Opts)> {
    if name == "use_ab"@ {
        match on_off(text) {
            Some(b) => Some((Opts { use_ab: b, ..o }, Opts { use_ab: b, ..o })),
            None => None,
        }
    } else if name == "use_pv"@ {
        match on_off(text) {
            Some(b) => Some((Opts { use_pv: b, ..o }, Opts { use_pv: b, ..o })),
            None => None,
        }
    } else if name == "use_tt"@ {
        match on_off(text) {
            Some(b) => Some((Opts { use_tt: b, ..o }, Opts { use_tt: b, ..o })),
            None => None,
        }
    } else if name == "bench_log"@ {
        match on_off(text) {
            Some(true) => Some(
                (o, Opts { use_ab: o.use_ab, use_pv: o.use_pv, use_tt: o.use_tt, ..Opts::spec_bench() }),
            ),
            Some(false) => Some((o, o)),
            None => None,
        }
    } else if level_option(name) {
        match spin_in(text, 0, 5) {
            Some(x) => {
                let n = if name == "search_debug"@ {
                    Opts { search: level_of(x as int), ..o }
                } else if name == "eval_debug"@ {
                    Opts { eval: level_of(x as int), ..o }
                } else if name == "comm_debug"@ {
                    Opts { comm: level_of(x as int), ..o }
                } else if name == "tt_debug"@ {
                    Opts { tt: level_of(x as int), ..o }
                } else {
                    Opts { uci: level_of(x as int), ..o }
                };
                Some((n, n))
            },
            None => None,
        }
    } else if name == "hash"@ {
        match spin_in(text, 0, 1024) {
            Some(x) => Some(
                (Opts { hash_size: (1024 * x) as usize, ..o }, Opts { hash_size: (1024 * x) as usize, ..o }),
            ),
            None => None,
        }
    } else {
        None
    }
}

/// the debug level of a verbosity from 0 (off) to 5 (trace)
pub open spec fn level_of(x: int) -> DebugLevel {
    if x == 0 {
        DebugLevel::off
    } else if x == 1 {
        DebugLevel::error
    } else if x == 2 {
        DebugLevel::warn
    } else if x == 3 {
        DebugLevel::info
    } else if x == 4 {
        DebugLevel::debug
    } else {
        DebugLevel::trace
    }
}

/// the error for setting `name` to `text`, where that fails
pub open spec fn refusal(name: Seq<char>, text: Seq<char>, e: OptionError) -> bool {
    if name == "use_ab"@ || name == "use_pv"@ || name == "use_tt"@ || name == "bench_log"@ {
        e matches OptionError::NeedsOnOff(n) && n@ == name
    } else if level_option(name) || name == "hash"@ {
        let high: i64 = if name == "hash"@ { 1024 } else { 5 };
        match parsed_i64(text) {
            Some(x) => if x > high {
                e matches OptionError::TooHigh(n, v, h) && n@ == name && v == x && h == high
            } else {
                e matches OptionError::TooLow(n, v, l) && n@ == name && v == x && l == 0
            },
            None => false,
        }
    } else {
        e matches OptionError::Unknown(n) && n@ == name
    }
}

/// read an on/off option
fn parse_check(check: &'static str, value: Option<&str>) -> (r: Result<bool, OptionError>)
    ensures
        match on_off(text_of(value)) {
            Some(b) => r == Ok::<bool, OptionError>(b),
            None => r matches Err(OptionError::NeedsOnOff(n)) && n@ == check@,
        },
{
    let text = match value {
        Some(v) => v,
        None => "",
    };
    proof {
        reveal_strlit("");
        reveal_strlit("on");
        reveal_strlit("off");
    }
    assert(text@ == text_of(value));
    if str_eq(text, "on") {
        Ok(true)
    } else if str_eq(text, "off") {
        Ok(false)
    } else {
        Err(OptionError::NeedsOnOff(check))
    }
}

/// read a number option within `low..=high`; its text must be a number
fn parse_spin(check: &'static str, low: i64, high: i64, value: Option<&str>) -> (r: Result<i64, OptionError>)
    requires
        low <= high,
        parsed_i64(text_of(value)) is Some,
    ensures
        ({
            let x = parsed_i64(text_of(value))->0;
            if low <= x <= high {
                r == Ok::<i64, OptionError>(x)
            } else if x > high {
                r matches Err(OptionError::TooHigh(n, v, h)) && n@ == check@ && v == x && h == high
            } else {
                r matches Err(OptionError::TooLow(n, v, l)) && n@ == check@ && v == x && l == low
            }
        }),
{
    let text = match value {
        Some(v) => v,
        None => "",
    };
    proof {
        reveal_strlit("");
    }
    let x = parse_i64(text).unwrap();
    if x <= high && x >= low {
        Ok(x)
    } else if x > high {
        Err(OptionError::TooHigh(check, x, high))
    } else {
        Err(OptionError::TooLow(check, x, low))
    }
}

/// the options whose value is a number
pub open spec fn numeric_option(name: Seq<char>) -> bool {
    level_option(name) || name == "hash"@
}

impl Opts {
    /// set the option `name` to `value`, as a UCI `setoption` does, and
    /// return the options to use from now on. `bench_log on` returns the
    /// benchmark options with this search's improvements, and leaves the
    /// receiver as it was. A refused option leaves it as it was too. The
    /// value of a number option must be a number.
    #[verifier::rlimit(60)]
    pub fn receive_option(&mut self, name: &str, value: Option<&str>) -> (r: Result<Opts, OptionError>)
        requires
            numeric_option(name@) ==> parsed_i64(text_of(value)) is Some,
        ensures
            match received(*old(self), name@, text_of(value)) {
                Some((kept, returned)) => *final(self) == kept && r == Ok::<Opts, OptionError>(returned),
                None => *final(self) == *old(self) && (r matches Err(e) && refusal(name@, text_of(value), e)),
            },
    {
        proof {
            reveal_strlit("use_ab");
            reveal_strlit("use_pv");
            reveal_strlit("use_tt");
            reveal_strlit("bench_log");
            reveal_strlit("search_debug");
            reveal_strlit("eval_debug");
            reveal_strlit("comm_debug");
            reveal_strlit("tt_debug");
            reveal_strlit("uci_debug");
            reveal_strlit("hash");
            assert("use_ab"@.len() == 6 && "use_pv"@.len() == 6 && "use_tt"@.len() == 6);
            assert("bench_log"@.len() == 9 && "uci_debug"@.len() == 9);
            assert("eval_debug"@.len() == 10 && "comm_debug"@.len() == 10);
            assert("search_debug"@.len() == 12 && "tt_debug"@.len() == 8 && "hash"@.len() == 4);
        }
        if str_eq(name, "use_ab") {
            match parse_check("use_ab", value) {
                Ok(b) => self.use_ab = b,
                Err(e) => return Err(e),
            }
        } else if str_eq(name, "use_pv") {
            match parse_check("use_pv", value) {
                Ok(b) => self.use_pv = b,
                Err(e) => return Err(e),
            }
        } else if str_eq(name, "use_tt") {
            match parse_check("use_tt", value) {
                Ok(b) => self.use_tt = b,
                Err(e) => return Err(e),
            }
        } else if str_eq(name, "bench_log") {
            match parse_check("bench_log", value) {
                Ok(true) => return Ok(Self::bench().ab(self.use_ab).pv(self.use_pv).tt(self.use_tt)),
                Ok(false) => {},
                Err(e) => return Err(e),
            }
        } else if str_eq(name, "search_debug") {
            match parse_spin("search_debug", 0, 5, value) {
                Ok(x) => self.search = DebugLevel::from_level(x),
                Err(e) => return Err(e),
            }
        } else if str_eq(name, "eval_debug") {
            match parse_spin("eval_debug", 0, 5, value) {
                Ok(x) => self.eval = DebugLevel::from_level(x),
                Err(e) => return Err(e),
            }
        } else if str_eq(name, "comm_debug") {
            match parse_spin("comm_debug", 0, 5, value) {
                Ok(x) => self.comm = DebugLevel::from_level(x),
                Err(e) => return Err(e),
            }
        } else if str_eq(name, "tt_debug") {
            match parse_spin("tt_debug", 0, 5, value) {
                Ok(x) => self.tt = DebugLevel::from_level(x),
                Err(e) => return Err(e),
            }
        } else if str_eq(name, "uci_debug") {
            match parse_spin("uci_debug", 0, 5, value) {
                Ok(x) => self.uci = DebugLevel::from_level(x),
                Err(e) => return Err(e),
            }
        } else if str_eq(name, "hash") {
            match parse_spin("hash", 0, 1024, value) {
                Ok(x) => self.hash_size = 1024 * x as usize,
                Err(e) => return Err(e),
            }
        } else {
            return Err(OptionError::Unknown(name.to_owned()));
        }
        Ok(*self)
    }
}

/// every option the engine announces can be set: an on/off option by `on`
/// or `off` and by nothing else, a number option by exactly the numbers
/// within the bounds it announces, and its default lies within them
pub proof fn lemma_registered_options_received(o: Opts, r: Seq<UciOption>, i: int, text: Seq<char>)
    requires
        registered(r),
        0 <= i < r.len(),
    ensures
        r[i] matches UciOption::Check { name, .. } ==> (received(o, name@, text) is Some <==> on_off(text) is Some),
        r[i] matches UciOption::Spin { name, default: Some(d), min: Some(lo), max: Some(hi) } ==> lo <= d <= hi
            && (parsed_i64(text) matches Some(x) ==> (received(o, name@, text) is Some <==> lo <= x <= hi)),
        r[i] is Check || r[i] is Spin,
{
    reveal_strlit("use_ab");
    reveal_strlit("use_pv");
    reveal_strlit("use_tt");
    reveal_strlit("bench_log");
    reveal_strlit("search_debug");
    reveal_strlit("eval_debug");
    reveal_strlit("comm_debug");
    reveal_strlit("tt_debug");
    reveal_strlit("uci_debug");
    reveal_strlit("hash");
    assert("use_ab"@.len() == 6 && "use_pv"@.len() == 6 && "use_tt"@.len() == 6);
    assert("bench_log"@.len() == 9 && "uci_debug"@.len() == 9);
    assert("eval_debug"@.len() == 10 && "comm_debug"@.len() == 10);
    assert("search_debug"@.len() == 12 && "tt_debug"@.len() == 8 && "hash"@.len() == 4);
    assert("use_pv"@[4] != "use_ab"@[4]);
    assert("use_tt"@[4] != "use_ab"@[4] && "use_tt"@[4] != "use_pv"@[4]);
    assert("uci_debug"@[0] != "bench_log"@[0]);
    assert("comm_debug"@[0] != "eval_debug"@[0]);
}

/// each on/off switch sets its own field and no other: `on` turns it on,
/// `off` turns it off, and the switched options are both kept and returned
pub proof fn lemma_switches_set_their_field(o: Opts, text: Seq<char>)
    requires
        text == "on"@ || text == "off"@,
    ensures
        ({
            let want = text == "on"@;
            &&& received(o, "use_ab"@, text) matches Some((k, r)) && k == r && r.use_ab == want && r.use_pv == o.use_pv
                && r.use_tt == o.use_tt && r.hash_size == o.hash_size && r.search == o.search && r.eval == o.eval
                && r.comm == o.comm && r.tt == o.tt && r.uci == o.uci && r.opts == o.opts
            &&& received(o, "use_pv"@, text) matches Some((k, r)) && k == r && r.use_pv == want && r.use_ab == o.use_ab
                && r.use_tt == o.use_tt && r.hash_size == o.hash_size && r.search == o.search && r.eval == o.eval
                && r.comm == o.comm && r.tt == o.tt && r.uci == o.uci && r.opts == o.opts
            &&& received(o, "use_tt"@, text) matches Some((k, r)) && k == r && r.use_tt == want && r.use_ab == o.use_ab
                && r.use_pv == o.use_pv && r.hash_size == o.hash_size && r.search == o.search && r.eval == o.eval
                && r.comm == o.comm && r.tt == o.tt && r.uci == o.uci && r.opts == o.opts
        }),
{
    reveal_strlit("use_ab");
    reveal_strlit("use_pv");
    reveal_strlit("use_tt");
    reveal_strlit("on");
    reveal_strlit("off");
    assert("use_pv"@[4] != "use_ab"@[4]);
    assert("use_tt"@[4] != "use_ab"@[4] && "use_tt"@[4] != "use_pv"@[4]);
    assert("on"@.len() != "off"@.len());
}

/// each verbosity option sets the level of its own module to the verbosity
/// it is given, 0 (off) to 5 (trace), and the hash option sets the table to
/// that many KiB; nothing else changes
pub proof fn lemma_numbers_set_their_field(o: Opts, text: Seq<char>, x: i64)
    requires
        parsed_i64(text) == Some(x),
    ensures
        0 <= x <= 5 ==> {
            &&& received(o, "search_debug"@, text) matches Some((k, r)) && k == r && r.search.rank() == x
                && r == (Opts { search: r.search, ..o })
            &&& received(o, "eval_debug"@, text) matches Some((k, r)) && k == r && r.eval.rank() == x
                && r == (Opts { eval: r.eval, ..o })
            &&& received(o, "comm_debug"@, text) matches Some((k, r)) && k == r && r.comm.rank() == x
                && r == (Opts { comm: r.comm, ..o })
            &&& received(o, "tt_debug"@, text) matches Some((k, r)) && k == r && r.tt.rank() == x
                && r == (Opts { tt: r.tt, ..o })
            &&& received(o, "uci_debug"@, text) matches Some((k, r)) && k == r && r.uci.rank() == x
                && r == (Opts { uci: r.uci, ..o })
        },
        0 <= x <= 1024 ==> (received(o, "hash"@, text) matches Some((k, r)) && k == r && r.hash_size == 1024 * x
            && r == (Opts { hash_size: r.hash_size, ..o })),
{
    reveal_strlit("search_debug");
    reveal_strlit("eval_debug");
    reveal_strlit("comm_debug");
    reveal_strlit("tt_debug");
    reveal_strlit("uci_debug");
    reveal_strlit("hash");
    reveal_strlit("use_ab");
    reveal_strlit("use_pv");
    reveal_strlit("use_tt");
    reveal_strlit("bench_log");
    assert("use_ab"@.len() == 6 && "use_pv"@.len() == 6 && "use_tt"@.len() == 6);
    assert("bench_log"@.len() == 9 && "uci_debug"@.len() == 9);
    assert("eval_debug"@.len() == 10 && "comm_debug"@.len() == 10);
    assert("search_debug"@.len() == 12 && "tt_debug"@.len() == 8 && "hash"@.len() == 4);
    assert("uci_debug"@[0] != "bench_log"@[0]);
    assert("comm_debug"@[0] != "eval_debug"@[0]);
}

} // verus!
