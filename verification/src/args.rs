use vstd::prelude::*;
use crate::text::str_is;

verus! {

/// Whether every character of `s` is a decimal digit.
pub open spec fn all_digits(s: Seq<char>) -> bool {
    forall|j: int| 0 <= j < s.len() ==> '0' <= #[trigger] s[j] && s[j] <= '9'
}

/// The value of a string of decimal digits (0 for the empty string).
pub open spec fn decimal_value(s: Seq<char>) -> int
    decreases s.len(),
{
    if s.len() == 0 {
        0
    } else {
        decimal_value(s.drop_last()) * 10 + (s.last() as int - '0' as int)
    }
}

/// A `u64` written in decimal, as `str::parse::<u64>` reads it: an
/// optional '+' and at least one digit, with a value that fits.
pub open spec fn parse_u64(s: Seq<char>) -> Option<u64> {
    let d = if s.len() > 0 && s[0] == '+' { s.drop_first() } else { s };
    if d.len() > 0 && all_digits(d) && decimal_value(d) <= u64::MAX {
        Some(decimal_value(d) as u64)
    } else {
        None
    }
}

/// A prefix of a string of digits has no greater value.
proof fn lemma_decimal_prefix(s: Seq<char>, k: int)
    requires
        all_digits(s),
        0 <= k <= s.len(),
    ensures
        0 <= decimal_value(s.take(k)) <= decimal_value(s),
    decreases s.len(),
{
    if s.len() > 0 {
        if k == s.len() {
            assert(s.take(k) =~= s);
            lemma_decimal_prefix(s.drop_last(), k - 1);
            assert(s.drop_last().take(k - 1) =~= s.drop_last());
        } else {
            lemma_decimal_prefix(s.drop_last(), k);
            assert(s.drop_last().take(k) =~= s.take(k));
            lemma_decimal_prefix(s.drop_last(), s.len() - 1);
            assert(s.drop_last().take(s.len() - 1) =~= s.drop_last());
        }
    } else {
        assert(s.take(k) =~= s);
    }
}

/// Reads a `u64` written in decimal (see `parse_u64`).
pub fn parse_decimal_u64(s: &str) -> (r: Option<u64>)
    ensures
        r == parse_u64(s@),
{
    let n = s.unicode_len();
    if n == 0 {
        return None;
    }
    let start: usize = if s.get_char(0) == '+' { 1 } else { 0 };
    let ghost d = if s@.len() > 0 && s@[0] == '+' { s@.drop_first() } else { s@ };
    assert(d =~= s@.skip(start as int));
    if start == n {
        return None;
    }
    let mut value: u64 = 0;
    let mut i: usize = start;
    while i < n
        invariant
            n == s@.len(),
            start <= i <= n,
            d == s@.skip(start as int),
            d == (if s@.len() > 0 && s@[0] == '+' { s@.drop_first() } else { s@ }),
            d.len() > 0,
            all_digits(d.take(i - start)),
            value == decimal_value(d.take(i - start)),
        decreases n - i,
    {
        let c = s.get_char(i);
        if c < '0' || c > '9' {
            assert(d[i - start] == c);
            return None;
        }
        let digit = (c as u32 - '0' as u32) as u64;
        let ghost next = d.take(i - start + 1);
        proof {
            assert(next.drop_last() =~= d.take(i - start));
            assert(next.last() == c);
            assert(all_digits(next));
        }
        if value > (u64::MAX - digit) / 10 {
            proof {
                assert(value * 10 + digit > u64::MAX) by (nonlinear_arith)
                    requires value > (u64::MAX - digit) / 10, digit <= 9;
                if all_digits(d) {
                    lemma_decimal_prefix(d, i - start + 1);
                }
            }
            return None;
        }
        value = value * 10 + digit;
        i += 1;
    }
    assert(d.take(n - start) =~= d);
    Some(value)
}

/// The command-line options.
pub struct Args {
    pub headless: bool,
    pub frames: Option<u64>,
    pub input_script: Option<String>,
    pub trace_out: Option<String>,
    pub recording: Option<String>,
    pub custom_cart: Option<String>,
    pub cgb_mode: bool,
}

/// The options as values.
pub struct ArgsView {
    pub headless: bool,
    pub frames: Option<u64>,
    pub input_script: Option<Seq<char>>,
    pub trace_out: Option<Seq<char>>,
    pub recording: Option<Seq<char>>,
    pub custom_cart: Option<Seq<char>>,
    pub cgb_mode: bool,
}

pub open spec fn opt_view(o: Option<String>) -> Option<Seq<char>> {
    match o {
        Some(s) => Some(s@),
        None => None,
    }
}

impl View for Args {
    type V = ArgsView;

    open spec fn view(&self) -> ArgsView {
        ArgsView {
            headless: self.headless,
            frames: self.frames,
            input_script: opt_view(self.input_script),
            trace_out: opt_view(self.trace_out),
            recording: opt_view(self.recording),
            custom_cart: opt_view(self.custom_cart),
            cgb_mode: self.cgb_mode,
        }
    }
}

/// The options before any argument is read.
pub open spec fn default_args() -> ArgsView {
    ArgsView {
        headless: false,
        frames: None,
        input_script: None,
        trace_out: None,
        recording: None,
        custom_cart: None,
        cgb_mode: false,
    }
}

/// Whether an argument is an option that takes the next argument as its value.
pub open spec fn takes_value(f: Seq<char>) -> bool {
    f == "--record"@ || f == "--frames"@ || f == "--input-script"@ || f == "--trace-out"@
        || f == "--custom-cart"@
}

/// The options after reading the arguments from index `i` on: flags set
/// their option, an option with a value takes the next argument, later
/// occurrences win, and anything else is ignored.
pub open spec fn args_from(raw: Seq<Seq<char>>, i: int, a: ArgsView) -> ArgsView
    decreases raw.len() - i,
{
    if i < 0 || i >= raw.len() {
        a
    } else {
        let f = raw[i];
        if f == "--headless"@ {
            args_from(raw, i + 1, ArgsView { headless: true, ..a })
        } else if f == "--cgb"@ {
            args_from(raw, i + 1, ArgsView { cgb_mode: true, ..a })
        } else if takes_value(f) && i + 1 < raw.len() {
            let v = raw[i + 1];
            let b = if f == "--record"@ {
                ArgsView { recording: Some(v), ..a }
            } else if f == "--frames"@ {
                ArgsView { frames: parse_u64(v), ..a }
            } else if f == "--input-script"@ {
                ArgsView { input_script: Some(v), ..a }
            } else if f == "--trace-out"@ {
                ArgsView { trace_out: Some(v), ..a }
            } else {
                ArgsView { custom_cart: Some(v), ..a }
            };
            args_from(raw, i + 2, b)
        } else {
            args_from(raw, i + 1, a)
        }
    }
}

/// Whether the arguments from index `i` on can be read: every option that
/// takes a value has one, and each `--frames` value is a `u64`.
pub open spec fn args_ok_from(raw: Seq<Seq<char>>, i: int) -> bool
    decreases raw.len() - i,
{
    if i < 0 || i >= raw.len() {
        true
    } else {
        let f = raw[i];
        if f == "--headless"@ || f == "--cgb"@ {
            args_ok_from(raw, i + 1)
        } else if takes_value(f) {
            &&& i + 1 < raw.len()
            &&& (f == "--frames"@ ==> parse_u64(raw[i + 1]) is Some)
            &&& args_ok_from(raw, i + 2)
        } else {
            args_ok_from(raw, i + 1)
        }
    }
}

/// The option names are distinct.
proof fn lemma_flags_distinct()
    ensures
        "--headless"@.len() == 10,
        "--cgb"@.len() == 5,
        "--record"@.len() == 8,
        "--frames"@.len() == 8,
        "--input-script"@.len() == 14,
        "--trace-out"@.len() == 11,
        "--custom-cart"@.len() == 13,
        "--record"@ != "--frames"@,
{
    reveal_strlit("--headless");
    reveal_strlit("--cgb");
    reveal_strlit("--record");
    reveal_strlit("--frames");
    reveal_strlit("--input-script");
    reveal_strlit("--trace-out");
    reveal_strlit("--custom-cart");
    assert("--record"@[2] != "--frames"@[2]);
}

/// The arguments as character sequences.
pub open spec fn raw_view(raw: Seq<String>) -> Seq<Seq<char>> {
    raw.map_values(|s: String| s@)
}

/// Reads the options from the arguments after the program name and the ROM path.
pub fn parse_args(raw: &[String]) -> (a: Args)
    requires
        args_ok_from(raw_view(raw@), 2),
    ensures
        a@ == args_from(raw_view(raw@), 2, default_args()),
{
    let ghost rv = raw_view(raw@);
    let mut a = Args {
        headless: false,
        frames: None,
        input_script: None,
        trace_out: None,
        recording: None,
        custom_cart: None,
        cgb_mode: false,
    };
    let mut i: usize = 2;
    while i < raw.len()
        invariant
            rv == raw_view(raw@),
            rv.len() == raw@.len(),
            i >= 2,
            args_ok_from(rv, i as int),
            args_from(rv, i as int, a@) == args_from(rv, 2, default_args()),
        decreases raw@.len() - i,
    {
        proof { lemma_flags_distinct(); }
        let f = raw[i].as_str();
        assert(f@ == rv[i as int]);
        if str_is(f, "--headless") {
            a.headless = true;
        } else if str_is(f, "--record") {
            i += 1;
            assert(raw[i as int]@ == rv[i as int]);
            a.recording = Some(raw[i].clone());
        } else if str_is(f, "--frames") {
            i += 1;
            assert(raw[i as int]@ == rv[i as int]);
            a.frames = parse_decimal_u64(raw[i].as_str());
        } else if str_is(f, "--input-script") {
            i += 1;
            assert(raw[i as int]@ == rv[i as int]);
            a.input_script = Some(raw[i].clone());
        } else if str_is(f, "--trace-out") {
            i += 1;
            assert(raw[i as int]@ == rv[i as int]);
            a.trace_out = Some(raw[i].clone());
        } else if str_is(f, "--custom-cart") {
            i += 1;
            assert(raw[i as int]@ == rv[i as int]);
            a.custom_cart = Some(raw[i].clone());
        } else if str_is(f, "--cgb") {
            a.cgb_mode = true;
        }
        i += 1;
    }
    a
}

/// Whether `parse_args` can read the arguments (see `args_ok_from`).
pub fn args_valid(raw: &[String]) -> (ok: bool)
    ensures
        ok == args_ok_from(raw_view(raw@), 2),
{
    let ghost rv = raw_view(raw@);
    let mut i: usize = 2;
    while i < raw.len()
        invariant
            rv == raw_view(raw@),
            rv.len() == raw@.len(),
            i >= 2,
            args_ok_from(rv, i as int) == args_ok_from(rv, 2),
        decreases raw@.len() - i,
    {
        proof { lemma_flags_distinct(); }
        let f = raw[i].as_str();
        assert(f@ == rv[i as int]);
        if str_is(f, "--record") || str_is(f, "--input-script") || str_is(f, "--trace-out")
            || str_is(f, "--custom-cart") {
            if i + 1 >= raw.len() {
                return false;
            }
            i += 1;
        } else if str_is(f, "--frames") {
            if i + 1 >= raw.len() {
                return false;
            }
            i += 1;
            assert(raw[i as int]@ == rv[i as int]);
            if parse_decimal_u64(raw[i].as_str()).is_none() {
                return false;
            }
        }
        i += 1;
    }
    true
}

} // verus!
