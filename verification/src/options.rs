use vstd::prelude::*;
use vstd::string::StrSliceExecFns;
use crate::model::str_views;

verus! {

/// Compare two strings character by character.
pub fn str_eq(a: &str, b: &str) -> (r: bool)
    ensures
        r == (a@ == b@),
{
    let na = a.unicode_len();
    let nb = b.unicode_len();
    if na != nb {
        return false;
    }
    let mut i: usize = 0;
    while i < na
        invariant
            i <= na,
            na == a@.len(),
            na == b@.len(),
            forall|k: int| 0 <= k < i ==> a@[k] == b@[k],
        decreases na - i,
    {
        if a.get_char(i) != b.get_char(i) {
            return false;
        }
        i = i + 1;
    }
    proof {
        assert(a@ =~= b@);
    }
    true
}

/// A decimal digit.
pub open spec fn is_digit(c: char) -> bool {
    48 <= c as u32 <= 57
}

/// The value of one decimal digit.
pub open spec fn digit_val(c: char) -> nat {
    (c as u32 - 48) as nat
}

/// Every character of `s` is a decimal digit.
pub open spec fn all_digits(s: Seq<char>) -> bool {
    forall|i: int| 0 <= i < s.len() ==> is_digit(s[i])
}

/// The number the digit string `s` denotes, most significant digit first.
pub open spec fn dec_value(s: Seq<char>) -> nat
    decreases s.len(),
{
    if s.len() == 0 {
        0
    } else {
        dec_value(s.drop_last()) * 10 + digit_val(s.last())
    }
}

/// A longer digit prefix denotes at least as large a number.
proof fn lemma_dec_prefix_le(s: Seq<char>, m: int)
    requires
        0 <= m <= s.len(),
    ensures
        dec_value(s.take(m)) <= dec_value(s),
    decreases s.len() - m,
{
    if m == s.len() {
        assert(s.take(m) =~= s);
    } else {
        assert(s.take(m + 1).drop_last() =~= s.take(m));
        assert(dec_value(s.take(m)) * 10 >= dec_value(s.take(m)));
        lemma_dec_prefix_le(s, m + 1);
    }
}

/// What parsing a non-negative decimal number accepts: an optional leading
/// plus sign, then at least one digit, denoting a value that fits in `u64`.
pub open spec fn parse_u64_spec(s: Seq<char>) -> Option<u64> {
    let body = if s.len() >= 1 && s[0] == '+' {
        s.subrange(1, s.len() as int)
    } else {
        s
    };
    if body.len() >= 1 && all_digits(body) && dec_value(body) <= u64::MAX {
        Some(dec_value(body) as u64)
    } else {
        None
    }
}

/// Parse a non-negative decimal number, as the configuration flags take it.
pub fn parse_u64(s: &str) -> (r: Option<u64>)
    ensures
        r == parse_u64_spec(s@),
{
    let n = s.unicode_len();
    let mut i: usize = 0;
    if n >= 1 && s.get_char(0) == '+' {
        i = 1;
    }
    let ghost body = if i == 1 {
        s@.subrange(1, s@.len() as int)
    } else {
        s@
    };
    if i == n {
        return None;
    }
    let mut acc: u64 = 0;
    let mut j: usize = i;
    while j < n
        invariant
            i <= j <= n,
            n == s@.len(),
            i <= 1,
            (i == 1) <==> (n >= 1 && s@[0] == '+'),
            body == (if i == 1 {
                s@.subrange(1, s@.len() as int)
            } else {
                s@
            }),
            body.len() == n - i,
            forall|k: int| 0 <= k < body.len() ==> body[k] == s@[k + i],
            all_digits(body.take(j - i)),
            acc == dec_value(body.take(j - i)),
        decreases n - j,
    {
        let c = s.get_char(j);
        let cv = c as u32;
        if cv < 48 || cv > 57 {
            proof {
                assert(!is_digit(body[j - i]));
            }
            return None;
        }
        let d = (cv - 48) as u64;
        proof {
            assert(body.take(j - i + 1).drop_last() =~= body.take(j - i));
            assert(body.take(j - i + 1).last() == body[j - i]);
        }
        if acc > (u64::MAX - d) / 10 {
            proof {
                let grown = body.take(j - i + 1);
                assert(dec_value(grown) == acc * 10 + d);
                assert(acc * 10 + d > u64::MAX) by (nonlinear_arith)
                    requires
                        acc > (u64::MAX - d) / 10,
                        d <= 9,
                ;
                lemma_dec_prefix_le(body, j - i + 1);
            }
            return None;
        }
        acc = acc * 10 + d;
        j = j + 1;
    }
    proof {
        assert(body.take(n - i) =~= body);
    }
    Some(acc)
}

/// The parsed command-line configuration: an optional target-list file,
/// targets given directly, and the pool and retry settings.
pub struct Opts {
    pub file: Option<String>,
    pub urls: Vec<String>,
    pub workers: usize,
    pub timeout_secs: u64,
    pub retries: u64,
}

/// The mathematical image of `Opts`.
pub struct OptsView {
    pub file: Option<Seq<char>>,
    pub urls: Seq<Seq<char>>,
    pub workers: usize,
    pub timeout_secs: u64,
    pub retries: u64,
}

impl View for Opts {
    type V = OptsView;

    open spec fn view(&self) -> OptsView {
        OptsView {
            file: match self.file {
                Some(f) => Some(f@),
                None => None,
            },
            urls: str_views(self.urls@),
            workers: self.workers,
            timeout_secs: self.timeout_secs,
            retries: self.retries,
        }
    }
}

/// The configuration before any argument is read: no file, no targets, the
/// detected worker count, a five-second timeout, and no retries.
pub open spec fn initial_opts(default_workers: usize) -> OptsView {
    OptsView {
        file: None,
        urls: Seq::empty(),
        workers: default_workers,
        timeout_secs: 5,
        retries: 0,
    }
}

/// A flag value parsed as a worker count; a value that does not parse or
/// does not fit keeps the current setting.
pub open spec fn workers_from(v: Seq<char>, cur: usize) -> usize {
    match parse_u64_spec(v) {
        Some(n) => if n <= usize::MAX as u64 {
            n as usize
        } else {
            cur
        },
        None => cur,
    }
}

/// A flag value parsed as a number; a value that does not parse keeps the
/// current setting.
pub open spec fn u64_from(v: Seq<char>, cur: u64) -> u64 {
    match parse_u64_spec(v) {
        Some(n) => n,
        None => cur,
    }
}

/// What argument parsing means: each numeric flag consumes the following
/// argument as its value and fails if there is none; a trailing `--file`
/// instead clears the file setting and parsing goes on. Anything else is a
/// target. A flag given twice keeps the later setting; a number that does
/// not parse keeps the setting it would have replaced.
pub open spec fn parse_args(args: Seq<Seq<char>>, acc: OptsView) -> Option<OptsView>
    decreases args.len(),
{
    if args.len() == 0 {
        Some(acc)
    } else {
        let a = args[0];
        if a == "--file"@ {
            if args.len() < 2 {
                Some(OptsView { file: None, ..acc })
            } else {
                parse_args(
                    args.subrange(2, args.len() as int),
                    OptsView { file: Some(args[1]), ..acc },
                )
            }
        } else if a == "--workers"@ {
            if args.len() < 2 {
                None
            } else {
                parse_args(
                    args.subrange(2, args.len() as int),
                    OptsView { workers: workers_from(args[1], acc.workers), ..acc },
                )
            }
        } else if a == "--timeout"@ {
            if args.len() < 2 {
                None
            } else {
                parse_args(
                    args.subrange(2, args.len() as int),
                    OptsView { timeout_secs: u64_from(args[1], acc.timeout_secs), ..acc },
                )
            }
        } else if a == "--retries"@ {
            if args.len() < 2 {
                None
            } else {
                parse_args(
                    args.subrange(2, args.len() as int),
                    OptsView { retries: u64_from(args[1], acc.retries), ..acc },
                )
            }
        } else {
            parse_args(args.subrange(1, args.len() as int), OptsView { urls: acc.urls.push(a), ..acc })
        }
    }
}

/// The view of an optional parse result.
pub open spec fn opts_view_opt(r: Option<Opts>) -> Option<OptsView> {
    match r {
        Some(o) => Some(o@),
        None => None,
    }
}

/// Parse the command-line arguments (the program name already removed).
/// Returns `None` exactly when a recognized flag stands last with no value.
pub fn parse_opts(args: &Vec<String>, default_workers: usize) -> (r: Option<Opts>)
    ensures
        opts_view_opt(r) == parse_args(str_views(args@), initial_opts(default_workers)),
{
    let ghost full = str_views(args@);
    let mut file: Option<String> = None;
    let mut urls: Vec<String> = Vec::new();
    let mut workers: usize = default_workers;
    let mut timeout_secs: u64 = 5;
    let mut retries: u64 = 0;
    let mut i: usize = 0;
    proof {
        assert(full.subrange(0, full.len() as int) =~= full);
        assert(str_views(urls@) =~= Seq::<Seq<char>>::empty());
    }
    while i < args.len()
        invariant
            i <= args.len(),
            full == str_views(args@),
            full.len() == args.len(),
            parse_args(full, initial_opts(default_workers)) == parse_args(
                full.subrange(i as int, full.len() as int),
                (OptsView {
                    file: match file {
                        Some(f) => Some(f@),
                        None => None,
                    },
                    urls: str_views(urls@),
                    workers: workers,
                    timeout_secs: timeout_secs,
                    retries: retries,
                }),
            ),
        decreases args.len() - i,
    {
        let ghost rest = full.subrange(i as int, full.len() as int);
        proof {
            assert(rest[0] == full[i as int]);
            assert(rest.subrange(1, rest.len() as int) =~= full.subrange(
                i + 1,
                full.len() as int,
            ));
            if i + 2 <= args.len() {
                assert(rest[1] == full[i + 1]);
                assert(rest.subrange(2, rest.len() as int) =~= full.subrange(
                    i + 2,
                    full.len() as int,
                ));
            }
        }
        let a = &args[i];
        if str_eq(a.as_str(), "--file") {
            if i + 1 >= args.len() {
                file = None;
                i = i + 1;
            } else {
                file = Some(args[i + 1].clone());
                i = i + 2;
            }
        } else if str_eq(a.as_str(), "--workers") {
            if i + 1 >= args.len() {
                return None;
            }
            match parse_u64(args[i + 1].as_str()) {
                Some(n) => if n <= usize::MAX as u64 {
                    workers = n as usize;
                },
                None => {},
            }
            i = i + 2;
        } else if str_eq(a.as_str(), "--timeout") {
            if i + 1 >= args.len() {
                return None;
            }
            match parse_u64(args[i + 1].as_str()) {
                Some(n) => timeout_secs = n,
                None => {},
            }
            i = i + 2;
        } else if str_eq(a.as_str(), "--retries") {
            if i + 1 >= args.len() {
                return None;
            }
            match parse_u64(args[i + 1].as_str()) {
                Some(n) => retries = n,
                None => {},
            }
            i = i + 2;
        } else {
            let ghost old_urls = str_views(urls@);
            urls.push(a.clone());
            proof {
                assert(str_views(urls@) =~= old_urls.push(a@));
            }
            i = i + 1;
        }
    }
    proof {
        assert(full.subrange(i as int, full.len() as int) =~= Seq::<Seq<char>>::empty());
    }
    Some(Opts { file, urls, workers, timeout_secs, retries })
}

impl Opts {
    /// Whether the invocation names no work at all: no target file and no
    /// targets given directly. The program then prints its usage and stops.
    pub fn wants_usage(&self) -> (r: bool)
        ensures
            r == (self@.file is None && self@.urls.len() == 0),
    {
        self.file.is_none() && self.urls.len() == 0
    }
}

/// The worker count to use: the detected available parallelism, or four
/// where none could be detected.
pub fn default_worker_count(detected: Option<usize>) -> (n: usize)
    ensures
        n == (match detected {
            Some(k) => k,
            None => 4,
        }),
{
    match detected {
        Some(k) => k,
        None => 4,
    }
}

} // verus!
