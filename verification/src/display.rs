//! How script values are written out by the logging functions a script can call.

use vstd::prelude::*;
use vstd::string::StringExecFns;

use crate::text::{
    digit_value, i64_to_decimal, int_decimal, join_strings, joined, law_int_decimal_reads_back,
    string_views,
};

verus! {

/// A script value as the logging functions see it.
pub enum LogValue {
    Nil,
    Boolean(bool),
    Integer(i64),
    /// A float, already written out as its `Display` text.
    Number(String),
    /// A string's text (empty where its bytes are not UTF-8).
    Text(String),
    /// Any other value (table, function, userdata, thread), as its `Debug` text.
    Other(String),
}

/// The text `print` and its siblings write for one value.
pub open spec fn display_text(v: LogValue) -> Seq<char> {
    match v {
        LogValue::Nil => "nil"@,
        LogValue::Boolean(b) => if b {
            "true"@
        } else {
            "false"@
        },
        LogValue::Integer(i) => int_decimal(i as int),
        LogValue::Number(t) => t@,
        LogValue::Text(t) => t@,
        LogValue::Other(t) => t@,
    }
}

/// The text written for one value: `nil`, `true`/`false`, decimal integers, and the given
/// text of the other kinds.
pub fn value_to_display(v: &LogValue) -> (s: String)
    ensures
        s@ == display_text(*v),
        v matches LogValue::Integer(i) ==> s@ == int_decimal(i as int),
        v is Nil ==> s@ == "nil"@,
        v matches LogValue::Boolean(b) ==> s@ == (if *b { "true"@ } else { "false"@ }),
        v matches LogValue::Number(t) ==> s@ == t@,
        v matches LogValue::Text(t) ==> s@ == t@,
        v matches LogValue::Other(t) ==> s@ == t@,
{
    match v {
        LogValue::Nil => String::from_str("nil"),
        LogValue::Boolean(b) => if *b {
            String::from_str("true")
        } else {
            String::from_str("false")
        },
        LogValue::Integer(i) => i64_to_decimal(*i),
        LogValue::Number(t) => t.clone(),
        LogValue::Text(t) => t.clone(),
        LogValue::Other(t) => t.clone(),
    }
}

/// The line `print(a, b, ..)` (and `info`, `warn`, `error`, `debug`, `trace`) logs:
/// `[lua] ` and the values' texts separated by tabs.
pub open spec fn print_line_text(args: Seq<LogValue>) -> Seq<char> {
    "[lua] "@ + joined(args.map_values(|v: LogValue| display_text(v)), "\t"@)
}

/// Builds the line that `print(a, b, ..)` logs.
pub fn print_line(args: &Vec<LogValue>) -> (s: String)
    ensures
        s@ == print_line_text(args@),
        args@.len() == 1 ==> s@ == "[lua] "@ + display_text(args@[0]),
        args@.len() == 1 ==> (args@[0] matches LogValue::Integer(i) ==> s@ == "[lua] "@
            + int_decimal(i as int)),
        args@.len() == 0 ==> s@ == "[lua] "@,
        args@.len() == 2 ==> s@ == "[lua] "@ + display_text(args@[0]) + "\t"@ + display_text(
            args@[1],
        ),
{
    let mut parts: Vec<String> = Vec::new();
    let mut i: usize = 0;
    while i < args.len()
        invariant
            i <= args.len(),
            parts@.len() == i,
            forall|j: int| 0 <= j < i ==> #[trigger] parts@[j]@ == display_text(args@[j]),
        decreases args.len() - i,
    {
        let part = value_to_display(&args[i]);
        parts.push(part);
        i = i + 1;
    }
    let msg = join_strings(&parts, "\t");
    assert(string_views(parts@) =~= args@.map_values(|v: LogValue| display_text(v)));
    let mut s = String::from_str("[lua] ");
    s.append(msg.as_str());
    proof {
        let texts = args@.map_values(|v: LogValue| display_text(v));
        if args@.len() == 0 {
            assert("[lua] "@ + joined(texts, "\t"@) =~= "[lua] "@);
        }
        if args@.len() == 1 {
            assert(joined(texts, "\t"@) == texts[0]);
            law_integer_text_is_decimal_text(args@[0]);
        }
        if args@.len() == 2 {
            assert(texts.drop_last() =~= seq![texts[0]]);
            assert(joined(texts.drop_last(), "\t"@) == texts[0]);
            assert(joined(texts, "\t"@) == texts[0] + "\t"@ + texts[1]);
            assert(s@ =~= "[lua] "@ + texts[0] + "\t"@ + texts[1]);
        }
    }
    s
}

/// The text written for an integer is its decimal text (`-` and the digits of its
/// magnitude for a negative one), never empty; see [`law_int_decimal_reads_back`] for what
/// that text reads back as.
pub proof fn law_integer_text_is_decimal_text(v: LogValue)
    ensures
        v matches LogValue::Integer(i) ==> display_text(v) == int_decimal(i as int),
        v matches LogValue::Integer(i) ==> display_text(v).len() > 0,
        v matches LogValue::Integer(i) ==> (i < 0 <==> display_text(v)[0] == '-'),
{
    if let LogValue::Integer(i) = v {
        law_int_decimal_reads_back(i as int);
        if i >= 0 {
            assert(0 <= digit_value(int_decimal(i as int)[0]));
        }
    }
}

/// Where a `log(v)` call goes.
pub enum LogSink {
    /// The host's info log.
    Info,
    /// Standard error.
    Stderr,
}

/// A line for a sink.
pub struct HostLog {
    pub sink: LogSink,
    pub line: String,
}

/// Whether `log(v)` writes to the info log (numbers) or to standard error (the rest).
pub open spec fn log_goes_to_info(v: LogValue) -> bool {
    match v {
        LogValue::Integer(_) => true,
        LogValue::Number(_) => true,
        _ => false,
    }
}

/// The line `log(v)` writes; `debug` is the value's `Debug` text, used for kinds other than
/// numbers and strings.
pub open spec fn log_call_text(v: LogValue, debug: Seq<char>) -> Seq<char> {
    match v {
        LogValue::Integer(i) => "[lua-rs<-bms] log: "@ + int_decimal(i as int),
        LogValue::Number(t) => "[lua-rs<-bms] log: "@ + t@,
        LogValue::Text(t) => "[lua log] "@ + t@,
        _ => "[lua log] "@ + debug,
    }
}

/// The demo `log(v)` host function: numbers go to the info log, strings and other values to
/// standard error.
pub fn log_call(v: &LogValue, debug: &String) -> (out: HostLog)
    ensures
        (out.sink is Info) == log_goes_to_info(*v),
        out.line@ == log_call_text(*v, debug@),
        v matches LogValue::Integer(i) ==> out.line@ == "[lua-rs<-bms] log: "@ + int_decimal(
            i as int,
        ),
        v matches LogValue::Integer(_) ==> out.sink is Info,
        v matches LogValue::Number(t) ==> out.line@ == "[lua-rs<-bms] log: "@ + t@
            && out.sink is Info,
        v matches LogValue::Text(t) ==> out.line@ == "[lua log] "@ + t@ && out.sink is Stderr,
        (v is Nil || v is Boolean || v is Other) ==> out.line@ == "[lua log] "@ + debug@
            && out.sink is Stderr,
{
    match v {
        LogValue::Integer(i) => {
            let mut line = String::from_str("[lua-rs<-bms] log: ");
            let digits = i64_to_decimal(*i);
            line.append(digits.as_str());
            HostLog { sink: LogSink::Info, line }
        },
        LogValue::Number(t) => {
            let mut line = String::from_str("[lua-rs<-bms] log: ");
            line.append(t.as_str());
            HostLog { sink: LogSink::Info, line }
        },
        LogValue::Text(t) => {
            let mut line = String::from_str("[lua log] ");
            line.append(t.as_str());
            HostLog { sink: LogSink::Stderr, line }
        },
        _ => {
            let mut line = String::from_str("[lua log] ");
            line.append(debug.as_str());
            HostLog { sink: LogSink::Stderr, line }
        },
    }
}

/// `log(n)` with an integer writes to the info log the prefix and the integer's decimal
/// text; the sign of a negative integer is kept, right after the prefix.
pub proof fn law_log_integer_is_decimal_text(i: i64, debug: Seq<char>)
    ensures
        log_goes_to_info(LogValue::Integer(i)),
        log_call_text(LogValue::Integer(i), debug) == "[lua-rs<-bms] log: "@ + int_decimal(
            i as int,
        ),
        i < 0 <==> log_call_text(LogValue::Integer(i), debug)[19] == '-',
{
    law_int_decimal_reads_back(i as int);
    if i >= 0 {
        assert(0 <= digit_value(int_decimal(i as int)[0]));
    }
    reveal_strlit("[lua-rs<-bms] log: ");
    assert(log_call_text(LogValue::Integer(i), debug)[19] == int_decimal(i as int)[0]);
}

} // verus!
