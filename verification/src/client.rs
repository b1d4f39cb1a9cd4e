//! The text that the command-line client builds and reads: the chaincode
//! arguments of each call, the peer command that carries them, and the event
//! ID in the peer's report of an invocation. Running the command is the
//! program's part.
use vstd::prelude::*;
use vstd::utf8::encode_utf8;
use crate::chaincode::comma_joined;
use crate::codec::{base64_encode, base64_standard};
use crate::json::{json_pretty, json_pretty_text, json_string_literal, push_json_string};
use crate::text::{chars_of, decimal, push_decimal, push_str, string_push, u64_to_decimal, utf8_bytes};

verus! {

/// The JSON string literals of texts.
pub open spec fn literals(items: Seq<Seq<char>>) -> Seq<Seq<char>> {
    items.map_values(|t: Seq<char>| json_string_literal(t))
}

/// The arguments of a chaincode call as the peer command takes them: a JSON
/// object whose keys serde_json orders, "Args" before "function".
pub open spec fn call_args_text(function: Seq<char>, args: Seq<Seq<char>>) -> Seq<char> {
    "{\"Args\":["@ + comma_joined(literals(args)) + "],\"function\":"@ + json_string_literal(
        function,
    ) + "}"@
}

/// The views of a list of strings.
pub open spec fn texts(v: Seq<String>) -> Seq<Seq<char>> {
    v.map_values(|s: String| s@)
}

/// The JSON arguments of a chaincode call.
pub fn call_args_json(function: &str, args: &Vec<String>) -> (r: String)
    ensures
        r@ == call_args_text(function@, texts(args@)),
{
    let mut s = "{\"Args\":[".to_owned();
    let ghost start = s@;
    let n = args.len();
    let mut i: usize = 0;
    while i < n
        invariant
            n == args@.len(),
            i <= n,
            s@ == start + comma_joined(literals(texts(args@.take(i as int)))),
        decreases n - i,
    {
        let ghost before = literals(texts(args@.take(i as int)));
        assert(literals(texts(args@.take(i + 1))) =~= before.push(json_string_literal(args@[i as int]@)));
        assert(before.push(json_string_literal(args@[i as int]@)).drop_last() =~= before);
        if i > 0 {
            string_push(&mut s, ',');
        }
        push_json_string(&mut s, args[i].as_str());
        assert(s@ =~= start + comma_joined(literals(texts(args@.take(i + 1)))));
        i = i + 1;
    }
    assert(args@.take(n as int) =~= args@);
    push_str(&mut s, "],\"function\":");
    push_json_string(&mut s, function);
    push_str(&mut s, "}");
    assert(s@ =~= call_args_text(function@, texts(args@)));
    s
}

/// The arguments of a `LogEvent` call: the source MTU's UTF-8 bytes in
/// base64, the RTU ID, the event name, the description, and the timestamp
/// in decimal.
pub open spec fn log_event_args(
    source_mtu: Seq<char>,
    rtu_id: Seq<char>,
    event_name: Seq<char>,
    event_desc: Seq<char>,
    event_timestamp: u64,
) -> Seq<Seq<char>> {
    seq![
        base64_standard(encode_utf8(source_mtu)),
        rtu_id,
        event_name,
        event_desc,
        decimal(event_timestamp as nat),
    ]
}

/// The arguments of a `LogEvent` call.
pub fn log_event_call_args(
    source_mtu: &str,
    rtu_id: &str,
    event_name: &str,
    event_desc: &str,
    event_timestamp: u64,
) -> (r: Vec<String>)
    requires
        encode_utf8(source_mtu@).len() <= isize::MAX,
    ensures
        texts(r@) == log_event_args(source_mtu@, rtu_id@, event_name@, event_desc@, event_timestamp),
{
    let bytes = utf8_bytes(source_mtu);
    let mut r: Vec<String> = Vec::new();
    r.push(base64_encode(bytes.as_slice()));
    r.push(rtu_id.to_owned());
    r.push(event_name.to_owned());
    r.push(event_desc.to_owned());
    r.push(u64_to_decimal(event_timestamp));
    assert(texts(r@) =~= log_event_args(source_mtu@, rtu_id@, event_name@, event_desc@, event_timestamp));
    r
}

/// A text with every single quote written as `'\''`, so that it can stand
/// between single quotes in a shell command.
pub open spec fn shell_quoted_body(t: Seq<char>) -> Seq<char>
    decreases t.len(),
{
    if t.len() == 0 {
        Seq::empty()
    } else {
        shell_quoted_body(t.drop_last()) + if t.last() == '\'' {
            seq!['\'', '\\', '\'', '\'']
        } else {
            seq![t.last()]
        }
    }
}

/// A text with its single quotes escaped for a single-quoted shell word.
pub fn escape_single_quotes(t: &str) -> (r: String)
    ensures
        r@ == shell_quoted_body(t@),
{
    let cs = chars_of(t);
    let mut s = String::new();
    let mut i: usize = 0;
    while i < cs.len()
        invariant
            cs@ == t@,
            i <= cs@.len(),
            s@ == shell_quoted_body(t@.take(i as int)),
        decreases cs@.len() - i,
    {
        let c = cs[i];
        assert(t@.take(i + 1).drop_last() =~= t@.take(i as int));
        if c == '\'' {
            push_str(&mut s, "'\\''");
            proof {
                reveal_strlit("'\\''");
            }
            assert(s@ =~= shell_quoted_body(t@.take(i + 1)));
        } else {
            string_push(&mut s, c);
            assert(s@ =~= shell_quoted_body(t@.take(i + 1)));
        }
        i = i + 1;
    }
    assert(t@.take(t@.len() as int) =~= t@);
    s
}

/// The peer command that invokes the chaincode with these JSON arguments.
pub open spec fn invoke_command_text(args_json: Seq<char>) -> Seq<char> {
    "peer chaincode invoke -o orderer.dwntp.com:7050 --tls --cafile $ORDERER_CA -C dwntpchannel -n dwntp -c '"@
        + shell_quoted_body(args_json) + "'"@
}

/// The peer command that queries the chaincode with these JSON arguments.
pub open spec fn query_command_text(args_json: Seq<char>) -> Seq<char> {
    "peer chaincode query -C dwntpchannel -n dwntp -c '"@ + shell_quoted_body(args_json) + "'"@
}

/// The peer command that invokes the chaincode.
pub fn invoke_command(args_json: &str) -> (r: String)
    ensures
        r@ == invoke_command_text(args_json@),
{
    let mut s =
        "peer chaincode invoke -o orderer.dwntp.com:7050 --tls --cafile $ORDERER_CA -C dwntpchannel -n dwntp -c '".to_owned();
    push_str(&mut s, escape_single_quotes(args_json).as_str());
    push_str(&mut s, "'");
    s
}

/// The peer command that queries the chaincode.
pub fn query_command(args_json: &str) -> (r: String)
    ensures
        r@ == query_command_text(args_json@),
{
    let mut s = "peer chaincode query -C dwntpchannel -n dwntp -c '".to_owned();
    push_str(&mut s, escape_single_quotes(args_json).as_str());
    push_str(&mut s, "'");
    s
}

/// Whether `pat` occurs in `s` at position `i`.
pub open spec fn occurs_at(s: Seq<char>, pat: Seq<char>, i: int) -> bool {
    0 <= i && i + pat.len() <= s.len() && s.subrange(i, i + pat.len()) == pat
}

/// The first position at or after `i` where `pat` occurs in `s`.
pub open spec fn find_from(s: Seq<char>, pat: Seq<char>, i: int) -> Option<int>
    decreases s.len() + 1 - i,
{
    if i < 0 || i + pat.len() > s.len() {
        None
    } else if occurs_at(s, pat, i) {
        Some(i)
    } else {
        find_from(s, pat, i + 1)
    }
}

/// A position found is a position where the pattern occurs.
pub proof fn lemma_find_from_occurs(s: Seq<char>, pat: Seq<char>, i: int)
    ensures
        find_from(s, pat, i) matches Some(j) ==> occurs_at(s, pat, j) && i <= j,
    decreases s.len() + 1 - i,
{
    if !(i < 0 || i + pat.len() > s.len()) && !occurs_at(s, pat, i) {
        lemma_find_from_occurs(s, pat, i + 1);
    }
}

/// The pattern does not occur between `i` and the position found.
proof fn lemma_find_from_first(s: Seq<char>, pat: Seq<char>, i: int)
    ensures
        find_from(s, pat, i) matches Some(j) ==> forall|k: int|
            i <= k < j ==> !occurs_at(s, pat, k),
    decreases s.len() + 1 - i,
{
    if !(i < 0 || i + pat.len() > s.len()) && !occurs_at(s, pat, i) {
        lemma_find_from_first(s, pat, i + 1);
    }
}

/// The first position of `pat` in `s`.
fn find(s: &Vec<char>, pat: &Vec<char>) -> (r: Option<usize>)
    ensures
        r matches Some(i) ==> find_from(s@, pat@, 0) == Some(i as int) && i + pat@.len() <= s@.len(),
        r is None ==> find_from(s@, pat@, 0) is None,
{
    let n = s.len();
    let m = pat.len();
    if m > n {
        return None;
    }
    let mut i: usize = 0;
    while i <= n - m
        invariant
            n == s@.len(),
            m == pat@.len(),
            m <= n,
            i <= n - m + 1,
            i <= n,
            find_from(s@, pat@, 0) == find_from(s@, pat@, i as int),
        decreases n - i,
    {
        let mut k: usize = 0;
        let mut same = true;
        while k < m
            invariant
                n == s@.len(),
                m == pat@.len(),
                i + m <= n,
                k <= m,
                same == (forall|j: int| 0 <= j < k ==> s@[i + j] == pat@[j]),
            decreases m - k,
        {
            if s[i + k] != pat[k] {
                same = false;
            }
            k = k + 1;
        }
        if same {
            assert(s@.subrange(i as int, i + m) =~= pat@);
            return Some(i);
        }
        assert(!occurs_at(s@, pat@, i as int)) by {
            if occurs_at(s@, pat@, i as int) {
                let j = choose|j: int| 0 <= j < m && s@[i + j] != pat@[j];
                assert(s@.subrange(i as int, i + m)[j] == s@[i + j]);
            }
        }
        i = i + 1;
    }
    None
}

/// What the client shows of a successful invocation, from the peer's report.
#[derive(Debug, Clone, PartialEq, Eq)]
pub enum InvokeReport {
    /// The event ID that the chaincode answered with.
    EventId(String),
    /// The report itself, which carries no payload.
    Logs,
    /// Nothing more.
    Nothing,
}

/// What the client shows of a successful invocation: when the report says
/// the invocation succeeded, the text between `payload:"` and the next `"`,
/// or the whole report when there is no payload.
pub open spec fn report_of(stderr: Seq<char>) -> Option<Option<Seq<char>>> {
    if find_from(stderr, "Chaincode invoke successful"@, 0) is None {
        None
    } else {
        match find_from(stderr, "payload:\""@, 0) {
            None => Some(None),
            Some(p) => {
                let rest = stderr.subrange(p + "payload:\""@.len(), stderr.len() as int);
                match find_from(rest, "\""@, 0) {
                    Some(e) => Some(Some(rest.subrange(0, e))),
                    None => None,
                }
            },
        }
    }
}

/// Reads the event ID out of the peer's report of a successful invocation.
pub fn invoke_report(stderr: &str) -> (r: InvokeReport)
    ensures
        match report_of(stderr@) {
            None => r == InvokeReport::Nothing,
            Some(None) => r == InvokeReport::Logs,
            Some(Some(id)) => r matches InvokeReport::EventId(t) && t@ == id,
        },
{
    let s = chars_of(stderr);
    let success = chars_of("Chaincode invoke successful");
    if find(&s, &success).is_none() {
        return InvokeReport::Nothing;
    }
    let marker = chars_of("payload:\"");
    match find(&s, &marker) {
        None => InvokeReport::Logs,
        Some(p) => {
            assert(s@.len() == s.len());
            let start = p + marker.len();
            let mut rest: Vec<char> = Vec::new();
            let mut i = start;
            while i < s.len()
                invariant
                    start <= i <= s@.len(),
                    rest@ == s@.subrange(start as int, i as int),
                decreases s@.len() - i,
            {
                rest.push(s[i]);
                assert(s@.subrange(start as int, i + 1) =~= s@.subrange(start as int, i as int).push(
                    s@[i as int],
                ));
                i = i + 1;
            }
            let quote = chars_of("\"");
            match find(&rest, &quote) {
                None => InvokeReport::Nothing,
                Some(e) => {
                    let mut id = String::new();
                    let mut k: usize = 0;
                    while k < e
                        invariant
                            e <= rest@.len(),
                            k <= e,
                            id@ == rest@.subrange(0, k as int),
                        decreases e - k,
                    {
                        string_push(&mut id, rest[k]);
                        assert(rest@.subrange(0, k + 1) =~= rest@.subrange(0, k as int).push(
                            rest@[k as int],
                        ));
                        k = k + 1;
                    }
                    InvokeReport::EventId(id)
                },
            }
        },
    }
}

/// What a query prints of the peer's (trimmed) output: the output
/// pretty-printed where it is JSON, else the output as it stands.
pub open spec fn query_result_text(output: Seq<char>) -> Seq<char> {
    match json_pretty_text(output) {
        Some(p) => p,
        None => output,
    }
}

/// What listing all events prints of the peer's (trimmed) output: a note
/// where it is empty, else the output as a query prints it.
pub open spec fn all_events_text(output: Seq<char>) -> Seq<char> {
    if output.len() == 0 {
        "No events found."@
    } else {
        query_result_text(output)
    }
}

/// The text that a query prints of the peer's (trimmed) output.
pub fn query_result(output: &str) -> (r: String)
    ensures
        r@ == query_result_text(output@),
{
    match json_pretty(output) {
        Some(p) => p,
        None => output.to_owned(),
    }
}

/// The text that listing all events prints of the peer's (trimmed) output.
pub fn all_events_result(output: &str) -> (r: String)
    ensures
        r@ == all_events_text(output@),
{
    if output.is_empty() {
        "No events found.".to_owned()
    } else {
        query_result(output)
    }
}

/// The event ID read out of a report is exactly the text between the first
/// `payload:"` and the next quote: the report says the invocation succeeded,
/// the ID holds no quote, and `payload:"`, the ID and a quote stand one after
/// the other where `payload:"` first occurs.
pub proof fn lemma_reported_id_is_whole_payload(stderr: Seq<char>, id: Seq<char>)
    requires
        report_of(stderr) == Some(Some(id)),
    ensures
        exists|i: int| occurs_at(stderr, "Chaincode invoke successful"@, i),
        forall|k: int| 0 <= k < id.len() ==> #[trigger] id[k] != '"',
        find_from(stderr, "payload:\""@, 0) matches Some(p) && occurs_at(
            stderr,
            "payload:\""@ + id + "\""@,
            p,
        ),
{
    reveal_strlit("\"");
    reveal_strlit("payload:\"");
    let marker = "payload:\""@;
    let quote = "\""@;
    lemma_find_from_occurs(stderr, "Chaincode invoke successful"@, 0);
    let p = find_from(stderr, marker, 0)->Some_0;
    lemma_find_from_occurs(stderr, marker, 0);
    let start = p + marker.len();
    let rest = stderr.subrange(start, stderr.len() as int);
    let e = find_from(rest, quote, 0)->Some_0;
    lemma_find_from_occurs(rest, quote, 0);
    lemma_find_from_first(rest, quote, 0);
    assert(id == rest.subrange(0, e));
    assert forall|k: int| 0 <= k < id.len() implies #[trigger] id[k] != '"' by {
        assert(!occurs_at(rest, quote, k));
        if id[k] == '"' {
            assert(rest.subrange(k, k + 1) =~= quote);
        }
    }
    assert(rest.subrange(e, e + 1) == quote);
    assert(stderr.subrange(p, p + (marker + id + quote).len()) =~= marker + id + quote) by {
        assert(stderr.subrange(p, start) =~= marker);
        assert forall|k: int| 0 <= k < id.len() implies stderr[start + k] == id[k] by {
            assert(rest[k] == stderr[start + k]);
        }
        assert(rest[e] == stderr[start + e]);
        assert(rest.subrange(e, e + 1)[0] == rest[e]);
    }
}

} // verus!
