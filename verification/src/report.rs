use vstd::prelude::*;
use vstd::string::StringExecFns;
use vstd::string::StrSliceExecFns;
use crate::model::{Outcome, OutcomeView, RunError, outcome_views};

verus! {

/// The single decimal digit naming `d`.
pub open spec fn digit_lit(d: nat) -> Seq<char> {
    if d == 0 {
        "0"@
    } else if d == 1 {
        "1"@
    } else if d == 2 {
        "2"@
    } else if d == 3 {
        "3"@
    } else if d == 4 {
        "4"@
    } else if d == 5 {
        "5"@
    } else if d == 6 {
        "6"@
    } else if d == 7 {
        "7"@
    } else if d == 8 {
        "8"@
    } else {
        "9"@
    }
}

/// The decimal rendering of `n`, most significant digit first, with no sign
/// and no leading zero (except for `n == 0` itself).
pub open spec fn dec_chars(n: nat) -> Seq<char>
    decreases n,
{
    if n < 10 {
        digit_lit(n)
    } else {
        dec_chars(n / 10) + digit_lit(n % 10)
    }
}

fn digit_str(d: u64) -> (s: String)
    requires
        d < 10,
    ensures
        s@ == digit_lit(d as nat),
{
    if d == 0 {
        String::from_str("0")
    } else if d == 1 {
        String::from_str("1")
    } else if d == 2 {
        String::from_str("2")
    } else if d == 3 {
        String::from_str("3")
    } else if d == 4 {
        String::from_str("4")
    } else if d == 5 {
        String::from_str("5")
    } else if d == 6 {
        String::from_str("6")
    } else if d == 7 {
        String::from_str("7")
    } else if d == 8 {
        String::from_str("8")
    } else {
        String::from_str("9")
    }
}

/// Render `n` in decimal.
pub fn u64_dec(n: u64) -> (s: String)
    ensures
        s@ == dec_chars(n as nat),
    decreases n,
{
    if n < 10 {
        digit_str(n)
    } else {
        let mut s = u64_dec(n / 10);
        let d = digit_str(n % 10);
        s.append(d.as_str());
        s
    }
}

/// The single lowercase hexadecimal digit naming `d`.
pub open spec fn hex_lit(d: nat) -> Seq<char> {
    if d == 0 {
        "0"@
    } else if d == 1 {
        "1"@
    } else if d == 2 {
        "2"@
    } else if d == 3 {
        "3"@
    } else if d == 4 {
        "4"@
    } else if d == 5 {
        "5"@
    } else if d == 6 {
        "6"@
    } else if d == 7 {
        "7"@
    } else if d == 8 {
        "8"@
    } else if d == 9 {
        "9"@
    } else if d == 10 {
        "a"@
    } else if d == 11 {
        "b"@
    } else if d == 12 {
        "c"@
    } else if d == 13 {
        "d"@
    } else if d == 14 {
        "e"@
    } else {
        "f"@
    }
}

/// How one character stands inside a quoted report string: the quote and the
/// backslash are escaped, a control character becomes a universal escape,
/// and every other character stands as itself.
pub open spec fn escaped_char(c: char) -> Seq<char> {
    if c == '"' {
        "\\\""@
    } else if c == '\\' {
        "\\\\"@
    } else if (c as u32) < 32 {
        "\\u00"@ + hex_lit((c as u32 / 16) as nat) + hex_lit((c as u32 % 16) as nat)
    } else {
        seq![c]
    }
}

/// `s` as the body of a quoted report string: each character escaped as
/// needed, so that the rendered report parses back whatever the targets and
/// failure reasons hold.
pub open spec fn json_escaped(s: Seq<char>) -> Seq<char>
    decreases s.len(),
{
    if s.len() == 0 {
        Seq::empty()
    } else {
        json_escaped(s.drop_last()) + escaped_char(s.last())
    }
}

fn hex_str(d: u32) -> (s: String)
    requires
        d < 16,
    ensures
        s@ == hex_lit(d as nat),
{
    if d == 0 {
        String::from_str("0")
    } else if d == 1 {
        String::from_str("1")
    } else if d == 2 {
        String::from_str("2")
    } else if d == 3 {
        String::from_str("3")
    } else if d == 4 {
        String::from_str("4")
    } else if d == 5 {
        String::from_str("5")
    } else if d == 6 {
        String::from_str("6")
    } else if d == 7 {
        String::from_str("7")
    } else if d == 8 {
        String::from_str("8")
    } else if d == 9 {
        String::from_str("9")
    } else if d == 10 {
        String::from_str("a")
    } else if d == 11 {
        String::from_str("b")
    } else if d == 12 {
        String::from_str("c")
    } else if d == 13 {
        String::from_str("d")
    } else if d == 14 {
        String::from_str("e")
    } else {
        String::from_str("f")
    }
}

/// Escape `s` for embedding in a quoted report string.
pub fn escape_json(s: &str) -> (t: String)
    ensures
        t@ == json_escaped(s@),
{
    let n = s.unicode_len();
    let mut out = String::new();
    let mut i: usize = 0;
    proof {
        assert(s@.take(0) =~= Seq::<char>::empty());
    }
    while i < n
        invariant
            i <= n,
            n == s@.len(),
            out@ == json_escaped(s@.take(i as int)),
        decreases n - i,
    {
        let c = s.get_char(i);
        proof {
            assert(s@.take(i + 1).drop_last() =~= s@.take(i as int));
            assert(s@.take(i + 1).last() == s@[i as int]);
        }
        if c == '"' {
            out.append("\\\"");
        } else if c == '\\' {
            out.append("\\\\");
        } else if (c as u32) < 32 {
            let cv = c as u32;
            out.append("\\u00");
            let hi = hex_str(cv / 16);
            out.append(hi.as_str());
            let lo = hex_str(cv % 16);
            out.append(lo.as_str());
        } else {
            let one = s.substring_char(i, i + 1);
            proof {
                assert(one@ =~= seq![s@[i as int]]);
            }
            out.append(one);
        }
        proof {
            assert(out@ =~= json_escaped(s@.take(i + 1)));
        }
        i = i + 1;
    }
    proof {
        assert(s@.take(n as int) =~= s@);
    }
    out
}

/// The `status` field of one record: the numeric code unquoted on success,
/// the failure reason as a quoted, escaped string on failure.
pub open spec fn status_chars(s: Result<u16, Seq<char>>) -> Seq<char> {
    match s {
        Ok(c) => dec_chars(c as nat),
        Err(e) => "\""@ + json_escaped(e) + "\""@,
    }
}

/// One report record for one outcome, its target escaped.
pub open spec fn record_chars(o: OutcomeView) -> Seq<char> {
    "  { \"url\": \""@ + json_escaped(o.target) + "\", \"status\": "@ + status_chars(o.status)
        + ", \"time_ms\": "@ + dec_chars(o.elapsed_ms as nat) + ", \"timestamp\": "@ + dec_chars(
        o.observed_at as nat,
    ) + " }"@
}

/// The records of a report, joined by a comma and a line break.
pub open spec fn records_chars(outs: Seq<OutcomeView>) -> Seq<char>
    decreases outs.len(),
{
    if outs.len() == 0 {
        Seq::empty()
    } else if outs.len() == 1 {
        record_chars(outs[0])
    } else {
        records_chars(outs.drop_last()) + ",\n"@ + record_chars(outs.last())
    }
}

/// The whole report: the records in a bracketed list.
pub open spec fn report_chars(outs: Seq<OutcomeView>) -> Seq<char> {
    "[\n"@ + records_chars(outs) + "\n]\n"@
}

fn quoted(e: &String) -> (s: String)
    ensures
        s@ == "\""@ + e@ + "\""@,
{
    let mut s = String::from_str("\"");
    s.append(e.as_str());
    s.append("\"");
    proof {
        assert(s@ =~= "\""@ + e@ + "\""@);
    }
    s
}

/// Render the `status` field of one outcome.
pub fn render_status(status: &Result<u16, String>) -> (s: String)
    ensures
        s@ == status_chars(crate::model::status_view(*status)),
{
    match status {
        Ok(c) => u64_dec(*c as u64),
        Err(e) => {
            let escaped = escape_json(e.as_str());
            quoted(&escaped)
        },
    }
}

/// Render one report record.
pub fn render_record(o: &Outcome) -> (s: String)
    ensures
        s@ == record_chars(o@),
{
    let mut s = String::from_str("  { \"url\": \"");
    let target = escape_json(o.target.as_str());
    s.append(target.as_str());
    s.append("\", \"status\": ");
    let st = render_status(&o.status);
    s.append(st.as_str());
    s.append(", \"time_ms\": ");
    let tm = u64_dec(o.elapsed_ms);
    s.append(tm.as_str());
    s.append(", \"timestamp\": ");
    let ts = u64_dec(o.observed_at);
    s.append(ts.as_str());
    s.append(" }");
    proof {
        assert(s@ =~= record_chars(o@));
    }
    s
}

/// Render the whole report for the given outcomes, in their order.
pub fn render_report(outcomes: &Vec<Outcome>) -> (s: String)
    ensures
        s@ == report_chars(outcome_views(outcomes@)),
{
    let ghost vs = outcome_views(outcomes@);
    let mut s = String::from_str("[\n");
    let mut i: usize = 0;
    proof {
        assert(vs.take(0) =~= Seq::<OutcomeView>::empty());
    }
    while i < outcomes.len()
        invariant
            i <= outcomes.len(),
            vs == outcome_views(outcomes@),
            vs.len() == outcomes.len(),
            s@ == "[\n"@ + records_chars(vs.take(i as int)),
        decreases outcomes.len() - i,
    {
        if i > 0 {
            s.append(",\n");
        }
        let rec = render_record(&outcomes[i]);
        s.append(rec.as_str());
        proof {
            let prev = vs.take(i as int);
            let cur = vs.take(i + 1);
            assert(cur.drop_last() =~= prev);
            assert(cur.last() == vs[i as int]);
            if i == 0 {
                assert(records_chars(cur) == record_chars(vs[0]));
                assert(s@ =~= "[\n"@ + records_chars(cur));
            } else {
                assert(records_chars(cur) == records_chars(prev) + ",\n"@ + record_chars(
                    vs[i as int],
                ));
                assert(s@ =~= "[\n"@ + records_chars(cur));
            }
        }
        i = i + 1;
    }
    s.append("\n]\n");
    proof {
        assert(vs.take(outcomes.len() as int) =~= vs);
        assert(s@ =~= report_chars(vs));
    }
    s
}

/// The console line printed for one outcome: the status code or an error
/// marker, the target, and the elapsed time or the failure reason.
pub open spec fn line_chars(o: OutcomeView) -> Seq<char> {
    match o.status {
        Ok(c) => "["@ + dec_chars(c as nat) + "] "@ + o.target + " - "@ + dec_chars(
            o.elapsed_ms as nat,
        ) + "ms"@,
        Err(e) => "[ERR] "@ + o.target + " - "@ + e,
    }
}

/// Render the console line for one outcome.
pub fn render_line(o: &Outcome) -> (s: String)
    ensures
        s@ == line_chars(o@),
{
    match &o.status {
        Ok(c) => {
            let mut s = String::from_str("[");
            let code = u64_dec(*c as u64);
            s.append(code.as_str());
            s.append("] ");
            s.append(o.target.as_str());
            s.append(" - ");
            let tm = u64_dec(o.elapsed_ms);
            s.append(tm.as_str());
            s.append("ms");
            proof {
                assert(s@ =~= line_chars(o@));
            }
            s
        },
        Err(e) => {
            let mut s = String::from_str("[ERR] ");
            s.append(o.target.as_str());
            s.append(" - ");
            s.append(e.as_str());
            proof {
                assert(s@ =~= line_chars(o@));
            }
            s
        },
    }
}

/// The message of a run-level failure.
pub open spec fn run_error_chars(e: RunError) -> Seq<char> {
    match e {
        RunError::PoolStartup => "pool startup failed: no worker could be started"@,
        RunError::ShortRun { received, expected } => "short run: received "@ + dec_chars(
            received as nat,
        ) + " of "@ + dec_chars(expected as nat) + " outcomes"@,
    }
}

impl RunError {
    /// Render this failure's message.
    pub fn message(&self) -> (s: String)
        ensures
            s@ == run_error_chars(*self),
    {
        match self {
            RunError::PoolStartup => String::from_str(
                "pool startup failed: no worker could be started",
            ),
            RunError::ShortRun { received, expected } => {
                let mut s = String::from_str("short run: received ");
                let r = u64_dec(*received as u64);
                s.append(r.as_str());
                s.append(" of ");
                let x = u64_dec(*expected as u64);
                s.append(x.as_str());
                s.append(" outcomes");
                proof {
                    assert(s@ =~= run_error_chars(*self));
                }
                s
            },
        }
    }
}

} // verus!
