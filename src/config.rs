//! The run's settings, read from the command line.

use vstd::prelude::*;
use vstd::string::StrSliceExecFns;

verus! {

/// What to decrypt, for whom, from where and to where.
#[derive(Debug, Clone)]
pub struct Config {
    pub help: bool,
    pub user: String,
    pub password: String,
    /// Decrypt every month (otherwise only `month` of `year`).
    pub all: bool,
    /// Append every month to one log per user.
    pub to_single_file: bool,
    pub month: u32,
    pub year: u32,
    pub from_path: String,
    pub to_path: String,
}

/// `c` is a decimal digit.
pub open spec fn is_digit(c: char) -> bool {
    '0' <= c && c <= '9'
}

/// The value of the decimal digits `s`.
pub open spec fn digits_value(s: Seq<char>) -> int
    decreases s.len(),
{
    if s.len() == 0 {
        0
    } else {
        digits_value(s.drop_last()) * 10 + (s.last() as int - '0' as int)
    }
}

/// `s` without a leading `+`.
pub open spec fn unsigned_part(s: Seq<char>) -> Seq<char> {
    if s.len() > 0 && s[0] == '+' {
        s.drop_first()
    } else {
        s
    }
}

/// The `u32` that `s` denotes: an optional `+` and one or more decimal digits,
/// with a value that fits.
pub open spec fn number_of(s: Seq<char>) -> Option<u32> {
    let t = unsigned_part(s);
    if t.len() > 0 && (forall|i: int| 0 <= i < t.len() ==> is_digit(#[trigger] t[i]))
        && digits_value(t) <= u32::MAX {
        Some(digits_value(t) as u32)
    } else {
        None
    }
}

proof fn lemma_digits_value_nonneg(s: Seq<char>)
    requires
        forall|i: int| 0 <= i < s.len() ==> is_digit(#[trigger] s[i]),
    ensures
        digits_value(s) >= 0,
    decreases s.len(),
{
    if s.len() > 0 {
        lemma_digits_value_nonneg(s.drop_last());
    }
}

/// Reads a `u32` written in decimal.
pub fn parse_u32(s: &str) -> (r: Option<u32>)
    ensures
        r == number_of(s@),
{
    let n = s.unicode_len();
    let start: usize = if n > 0 && s.get_char(0) == '+' { 1 } else { 0 };
    let ghost t = unsigned_part(s@);
    assert(t.len() == n - start);
    if start >= n {
        return None;
    }
    let mut value: u64 = 0;
    let mut too_big = false;
    let mut i = start;
    while i < n
        invariant
            n == s@.len(),
            t == unsigned_part(s@),
            start <= i <= n,
            start as int + t.len() == n,
            forall|k: int| 0 <= k < t.len() ==> t[k] == s@[start + k],
            forall|k: int| 0 <= k < i - start ==> is_digit(#[trigger] t[k]),
            too_big ==> digits_value(t.take(i - start)) > u32::MAX,
            !too_big ==> value == digits_value(t.take(i - start)) && value <= u32::MAX,
        decreases n - i,
    {
        let c = s.get_char(i);
        if !('0' <= c && c <= '9') {
            assert(!is_digit(t[i - start]));
            assert(!(forall|k: int| 0 <= k < t.len() ==> is_digit(#[trigger] t[k])));
            return None;
        }
        let ghost prev = t.take(i - start);
        assert(t.take(i + 1 - start).drop_last() =~= prev);
        proof {
            lemma_digits_value_nonneg(prev);
        }
        let d = (c as u32 - '0' as u32) as u64;
        if !too_big {
            value = value * 10 + d;
            if value > 0xffff_ffff {
                too_big = true;
            }
        } else {
            assert(digits_value(prev) * 10 + d >= digits_value(prev)) by (nonlinear_arith)
                requires digits_value(prev) >= 0, d >= 0;
        }
        i = i + 1;
    }
    assert(t.take(n - start) =~= t);
    if too_big {
        None
    } else {
        Some(value as u32)
    }
}

fn is_word(s: &String, w: &str) -> (r: bool)
    ensures
        r == (s@ == w@),
{
    *s == w.to_owned()
}

/// Index of the first argument at or after `k` equal to `a`, or `args.len()`.
pub open spec fn first_arg_from(args: Seq<Seq<char>>, a: Seq<char>, k: int) -> int
    decreases args.len() - k,
{
    if k < 0 || k >= args.len() {
        args.len() as int
    } else if args[k] == a {
        k
    } else {
        first_arg_from(args, a, k + 1)
    }
}

fn first_index(args: &[String], s: &String) -> (r: usize)
    ensures
        r == first_arg_from(args_view(args@), s@, 0),
{
    let mut k: usize = 0;
    while k < args.len()
        invariant
            k <= args@.len(),
            first_arg_from(args_view(args@), s@, 0) == first_arg_from(args_view(args@), s@, k as int),
        decreases args.len() - k,
    {
        if args[k] == *s {
            return k;
        }
        k = k + 1;
    }
    k
}

proof fn lemma_first_arg_range(args: Seq<Seq<char>>, a: Seq<char>, k: int)
    requires
        0 <= k <= args.len(),
    ensures
        k <= first_arg_from(args, a, k) <= args.len(),
    decreases args.len() - k,
{
    if k < args.len() && args[k] != a {
        lemma_first_arg_range(args, a, k + 1);
    }
}

/// The arguments as text.
pub open spec fn args_view(args: Seq<String>) -> Seq<Seq<char>> {
    args.map_values(|a: String| a@)
}

/// The settings as (help, user, password, all, to_single_file, month, year,
/// from_path, to_path).
pub type ConfigView = (bool, Seq<char>, Seq<char>, bool, bool, u32, u32, Seq<char>, Seq<char>);

impl View for Config {
    type V = ConfigView;

    open spec fn view(&self) -> ConfigView {
        (self.help, self.user@, self.password@, self.all, self.to_single_file, self.month, self.year, self.from_path@, self.to_path@)
    }
}

/// What the flags read so far set: (help, user, password, all,
/// to_single_file, month, year).
pub type Flags = (bool, Seq<char>, Seq<char>, bool, bool, u32, u32);

/// The number after the first occurrence of the flag `a`, or the error text.
pub open spec fn flag_number(args: Seq<Seq<char>>, a: Seq<char>, not_number: Seq<char>, missing: Seq<char>) -> Result<u32, Seq<char>> {
    let p = first_arg_from(args, a, 0);
    if p + 1 < args.len() {
        match number_of(args[p + 1]) {
            Some(v) => Ok(v),
            None => Err(not_number),
        }
    } else {
        Err(missing)
    }
}

/// Reads the flags from index `i` on, up to the two paths; the error text on
/// a flag that cannot be read.
pub open spec fn scan_flags(args: Seq<Seq<char>>, i: int, f: Flags) -> Result<Flags, Seq<char>>
    decreases args.len() - i,
{
    if i < 1 || i >= args.len() - 2 {
        Ok(f)
    } else {
        let a = args[i];
        if a == "-u"@ || a == "--user"@ {
            scan_flags(args, i + 2, (f.0, args[i + 1], f.2, f.3, f.4, f.5, f.6))
        } else if a == "-p"@ || a == "--password"@ {
            scan_flags(args, i + 2, (f.0, f.1, args[i + 1], f.3, f.4, f.5, f.6))
        } else if a == "-a"@ || a == "--all"@ {
            scan_flags(args, i + 1, (f.0, f.1, f.2, true, f.4, f.5, f.6))
        } else if a == "-s"@ || a == "--single"@ {
            scan_flags(args, i + 1, (f.0, f.1, f.2, false, f.4, f.5, f.6))
        } else if a == "--to-single-file"@ {
            scan_flags(args, i + 1, (f.0, f.1, f.2, f.3, true, f.5, f.6))
        } else if a == "-m"@ || a == "--month"@ {
            match flag_number(args, a, "Month is not a number"@, "No month given"@) {
                Ok(v) => scan_flags(args, i + 2, (f.0, f.1, f.2, f.3, f.4, v, f.6)),
                Err(e) => Err(e),
            }
        } else if a == "-y"@ || a == "--year"@ {
            match flag_number(args, a, "Year is not a number"@, "No year given"@) {
                Ok(v) => scan_flags(args, i + 2, (f.0, f.1, f.2, f.3, f.4, f.5, v)),
                Err(e) => Err(e),
            }
        } else if a == "-h"@ || a == "--help"@ {
            scan_flags(args, i + 1, (true, f.1, f.2, f.3, f.4, f.5, f.6))
        } else {
            Err("Unknown argument"@)
        }
    }
}

/// The settings that `args` give (the program's name first), or the error text.
pub open spec fn config_of(args: Seq<Seq<char>>) -> Result<ConfigView, Seq<char>> {
    if args.len() == 2 && (args[1] == "-h"@ || args[1] == "--help"@) {
        Ok((true, Seq::empty(), Seq::empty(), false, false, 0, 0, Seq::empty(), Seq::empty()))
    } else if args.len() < 7 {
        Err("Not enough arguments given"@)
    } else {
        match scan_flags(args, 1, (false, Seq::empty(), Seq::empty(), true, false, 0, 0)) {
            Err(e) => Err(e),
            Ok(f) => if !f.3 && (f.5 == 0 || f.6 == 0) {
                Err("No month or year given"@)
            } else if f.3 && (f.5 != 0 || f.6 != 0) {
                Err("Month or year given but not needed, since -a or --all is set"@)
            } else if f.1.len() == 0 || f.2.len() == 0 {
                Err("No user or password given"@)
            } else {
                Ok((f.0, f.1, f.2, f.3, f.4, f.5, f.6, args[args.len() - 2], args[args.len() - 1]))
            },
        }
    }
}

impl Config {
    /// Reads the settings from the command line `args` (the program's name
    /// first). The source and destination paths are the last two arguments;
    /// user and password are required, and a month and year exactly when a
    /// single month is asked for.
    pub fn new(args: &[String]) -> (r: Result<Config, &'static str>)
        ensures
            match config_of(args_view(args@)) {
                Ok(c) => r matches Ok(x) && x@ == c,
                Err(e) => r matches Err(x) && x@ == e,
            },
    {
        proof {
            if args@.len() >= 2 {
                assert(args_view(args@)[1] == args@[1]@);
            }
        }
        if args.len() == 2 && (is_word(&args[1], "-h") || is_word(&args[1], "--help")) {
            return Ok(Config {
                help: true,
                user: String::new(),
                password: String::new(),
                all: false,
                to_single_file: false,
                month: 0,
                year: 0,
                from_path: String::new(),
                to_path: String::new(),
            });
        } else if args.len() < 7 {
            return Err("Not enough arguments given");
        }
        let mut help = false;
        let mut user = String::new();
        let mut password = String::new();
        let mut all = true;
        let mut to_single_file = false;
        let mut month: u32 = 0;
        let mut year: u32 = 0;

        let ghost av = args_view(args@);
        let ghost init: Flags = (false, Seq::empty(), Seq::empty(), true, false, 0, 0);
        let mut i: usize = 1;
        while i < args.len() - 2
            invariant
                args@.len() >= 7,
                1 <= i <= args@.len() - 1,
                av == args_view(args@),
                init == (false, Seq::<char>::empty(), Seq::<char>::empty(), true, false, 0u32, 0u32),
                scan_flags(av, 1, init) == scan_flags(av, i as int, (help, user@, password@, all, to_single_file, month, year)),
            decreases args.len() - i,
        {
            assert(av[i as int] == args@[i as int]@);
            assert(av[i + 1] == args@[i + 1]@);
            let arg = &args[i];
            if is_word(arg, "-u") || is_word(arg, "--user") {
                i = i + 1;
                user = args[i].clone();
            } else if is_word(arg, "-p") || is_word(arg, "--password") {
                i = i + 1;
                password = args[i].clone();
            } else if is_word(arg, "-a") || is_word(arg, "--all") {
                all = true;
            } else if is_word(arg, "-s") || is_word(arg, "--single") {
                all = false;
            } else if is_word(arg, "--to-single-file") {
                to_single_file = true;
            } else if is_word(arg, "-m") || is_word(arg, "--month") {
                let p = first_index(args, arg);
                proof {
                    lemma_first_arg_range(av, args@[i as int]@, 0);
                }
                if p < args.len() - 1 {
                    assert(av[p + 1] == args@[p + 1]@);
                    match parse_u32(args[p + 1].as_str()) {
                        Some(v) => month = v,
                        None => return Err("Month is not a number"),
                    }
                } else {
                    return Err("No month given");
                }
                i = i + 1;
            } else if is_word(arg, "-y") || is_word(arg, "--year") {
                let p = first_index(args, arg);
                proof {
                    lemma_first_arg_range(av, args@[i as int]@, 0);
                }
                if p < args.len() - 1 {
                    assert(av[p + 1] == args@[p + 1]@);
                    match parse_u32(args[p + 1].as_str()) {
                        Some(v) => year = v,
                        None => return Err("Year is not a number"),
                    }
                } else {
                    return Err("No year given");
                }
                i = i + 1;
            } else if is_word(arg, "-h") || is_word(arg, "--help") {
                help = true;
            } else {
                return Err("Unknown argument");
            }
            i = i + 1;
        }

        assert(av[args.len() - 2] == args@[args.len() - 2]@);
        assert(av[args.len() - 1] == args@[args.len() - 1]@);
        let from_path = args[args.len() - 2].clone();
        let to_path = args[args.len() - 1].clone();

        if !all && (month == 0 || year == 0) {
            return Err("No month or year given");
        } else if all && (month != 0 || year != 0) {
            return Err("Month or year given but not needed, since -a or --all is set");
        } else if user.unicode_len() == 0 || password.unicode_len() == 0 {
            return Err("No user or password given");
        }

        Ok(Config { help, user, password, all, to_single_file, month, year, from_path, to_path })
    }
}

} // verus!
