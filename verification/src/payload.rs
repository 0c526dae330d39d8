//! Turning the change list into submissions: local paths are rewritten to
//! public URLs, the list is split into protocol-sized batches, and each
//! batch becomes one JSON request body per configured endpoint. The
//! request bodies are built (and escaped) here, character by character;
//! only the POST itself happens outside this crate.

use vstd::prelude::*;
use crate::config::Configuration;
use crate::constants::BATCH_SIZE;
use crate::hashing::hex_digit;
use crate::strutil;

verus! {

/// The JSON rendering of one character inside a string literal: quote and
/// backslash are escaped, the common control characters get their short
/// escapes, the rest of the control range is written `\u00XX`, and every
/// other character stands for itself.
pub open spec fn json_escape_char(c: char) -> Seq<char> {
    if c == '"' {
        seq!['\\', '"']
    } else if c == '\\' {
        seq!['\\', '\\']
    } else if c == '\n' {
        seq!['\\', 'n']
    } else if c == '\r' {
        seq!['\\', 'r']
    } else if c == '\t' {
        seq!['\\', 't']
    } else if (c as u32) < 32 {
        seq!['\\', 'u', '0', '0', hex_digit((c as u32 / 16) as u8), hex_digit((c as u32 % 16) as u8)]
    } else {
        seq![c]
    }
}

/// The JSON rendering of a whole string's characters.
pub open spec fn json_escaped(s: Seq<char>) -> Seq<char>
    decreases s.len(),
{
    if s.len() == 0 {
        Seq::empty()
    } else {
        json_escaped(s.drop_last()) + json_escape_char(s.last())
    }
}

/// A JSON string literal: the escaped characters between quotes.
pub open spec fn json_string(s: Seq<char>) -> Seq<char> {
    seq!['"'] + json_escaped(s) + seq!['"']
}

/// One lowercase hexadecimal digit as a string slice.
fn hex_digit_str(n: u8) -> (r: &'static str)
    requires
        n < 16,
    ensures
        r@ == seq![hex_digit(n)],
{
    proof {
        reveal_strlit("0");
        reveal_strlit("1");
        reveal_strlit("2");
        reveal_strlit("3");
        reveal_strlit("4");
        reveal_strlit("5");
        reveal_strlit("6");
        reveal_strlit("7");
        reveal_strlit("8");
        reveal_strlit("9");
        reveal_strlit("a");
        reveal_strlit("b");
        reveal_strlit("c");
        reveal_strlit("d");
        reveal_strlit("e");
        reveal_strlit("f");
    }
    let r: &'static str = if n == 0 {
        "0"
    } else if n == 1 {
        "1"
    } else if n == 2 {
        "2"
    } else if n == 3 {
        "3"
    } else if n == 4 {
        "4"
    } else if n == 5 {
        "5"
    } else if n == 6 {
        "6"
    } else if n == 7 {
        "7"
    } else if n == 8 {
        "8"
    } else if n == 9 {
        "9"
    } else if n == 10 {
        "a"
    } else if n == 11 {
        "b"
    } else if n == 12 {
        "c"
    } else if n == 13 {
        "d"
    } else if n == 14 {
        "e"
    } else {
        "f"
    };
    proof {
        assert(r@ =~= seq![hex_digit(n)]);
    }
    r
}

/// Appends the JSON rendering of one character.
fn append_escaped_char(out: &mut String, s: &str, i: usize)
    requires
        i < s@.len(),
    ensures
        final(out)@ == old(out)@ + json_escape_char(s@[i as int]),
{
    let c = s.get_char(i);
    if c == '"' {
        out.append("\\\"");
        proof {
            reveal_strlit("\\\"");
            assert("\\\""@ =~= json_escape_char(c));
        }
    } else if c == '\\' {
        out.append("\\\\");
        proof {
            reveal_strlit("\\\\");
            assert("\\\\"@ =~= json_escape_char(c));
        }
    } else if c == '\n' {
        out.append("\\n");
        proof {
            reveal_strlit("\\n");
            assert("\\n"@ =~= json_escape_char(c));
        }
    } else if c == '\r' {
        out.append("\\r");
        proof {
            reveal_strlit("\\r");
            assert("\\r"@ =~= json_escape_char(c));
        }
    } else if c == '\t' {
        out.append("\\t");
        proof {
            reveal_strlit("\\t");
            assert("\\t"@ =~= json_escape_char(c));
        }
    } else if (c as u32) < 32 {
        let ghost before = out@;
        out.append("\\u00");
        out.append(hex_digit_str((c as u32 / 16) as u8));
        out.append(hex_digit_str((c as u32 % 16) as u8));
        proof {
            reveal_strlit("\\u00");
            assert(before + "\\u00"@ + seq![hex_digit((c as u32 / 16) as u8)] + seq![
                hex_digit((c as u32 % 16) as u8),
            ] =~= before + json_escape_char(c));
        }
    } else {
        let len = s.unicode_len();
        assert(i < len);
        let piece = s.substring_char(i, i + 1);
        out.append(piece);
        proof {
            assert(s@.subrange(i as int, i + 1 as int) =~= json_escape_char(c));
        }
    }
}

/// Renders `s` as it stands inside a JSON string literal.
pub fn json_escape(s: &str) -> (r: String)
    ensures
        r@ == json_escaped(s@),
{
    let len = s.unicode_len();
    let mut out = String::new();
    let mut i: usize = 0;
    while i < len
        invariant
            i <= len,
            len == s@.len(),
            out@ == json_escaped(s@.take(i as int)),
        decreases len - i,
    {
        append_escaped_char(&mut out, s, i);
        proof {
            assert(s@.take(i + 1 as int).drop_last() =~= s@.take(i as int));
            assert(s@.take(i + 1 as int).last() == s@[i as int]);
        }
        i = i + 1;
    }
    proof {
        assert(s@.take(len as int) =~= s@);
    }
    out
}

/// The JSON array elements for a URL list: the quoted, escaped URLs
/// joined by commas.
pub open spec fn url_list_json(urls: Seq<String>) -> Seq<char>
    decreases urls.len(),
{
    if urls.len() == 0 {
        Seq::empty()
    } else if urls.len() == 1 {
        json_string(urls.last()@)
    } else {
        url_list_json(urls.drop_last()) + seq![','] + json_string(urls.last()@)
    }
}

/// The spec-level view of an optional string.
pub open spec fn opt_str_view(o: Option<String>) -> Option<Seq<char>> {
    match o {
        Some(s) => Some(s@),
        None => None,
    }
}

/// The request body for one batch, as the protocol fixes it: host, key,
/// the key location when one is given (omitted otherwise), and the URL
/// list.
pub open spec fn payload_json(
    host: Seq<char>,
    key: Seq<char>,
    key_location: Option<Seq<char>>,
    urls: Seq<String>,
) -> Seq<char> {
    "{\"host\":"@ + json_string(host) + ",\"key\":"@ + json_string(key) + (match key_location {
        Some(kl) => ",\"keyLocation\":"@ + json_string(kl),
        None => Seq::empty(),
    }) + ",\"urlList\":["@ + url_list_json(urls) + "]}"@
}

/// Appends a JSON string literal for `s`.
fn append_json_string(out: &mut String, s: &str)
    ensures
        final(out)@ == old(out)@ + json_string(s@),
{
    out.append("\"");
    let escaped = json_escape(s);
    out.append(escaped.as_str());
    out.append("\"");
    proof {
        reveal_strlit("\"");
        assert("\""@ =~= seq!['"']);
        assert(old(out)@ + "\""@ + json_escaped(s@) + "\""@ =~= old(out)@ + json_string(s@));
    }
}

/// Builds the request body for one batch of URLs.
pub fn build_post_payload(
    host: &str,
    key: &str,
    key_location: &Option<String>,
    urls: &Vec<String>,
) -> (r: String)
    ensures
        r@ == payload_json(host@, key@, opt_str_view(*key_location), urls@),
{
    let mut out = String::new();
    out.append("{\"host\":");
    append_json_string(&mut out, host);
    out.append(",\"key\":");
    append_json_string(&mut out, key);
    match key_location {
        Some(kl) => {
            out.append(",\"keyLocation\":");
            append_json_string(&mut out, kl.as_str());
        },
        None => {},
    }
    out.append(",\"urlList\":[");
    let ghost prefix = out@;
    let mut i: usize = 0;
    while i < urls.len()
        invariant
            i <= urls@.len(),
            out@ == prefix + url_list_json(urls@.take(i as int)),
        decreases urls@.len() - i,
    {
        if i > 0 {
            out.append(",");
            proof {
                reveal_strlit(",");
                assert(","@ =~= seq![',']);
            }
        }
        append_json_string(&mut out, urls[i].as_str());
        proof {
            assert(urls@.take(i + 1 as int).drop_last() =~= urls@.take(i as int));
            assert(urls@.take(i + 1 as int).last() == urls@[i as int]);
        }
        i = i + 1;
    }
    out.append("]}");
    proof {
        assert(urls@.take(urls@.len() as int) =~= urls@);
        assert(out@ =~= payload_json(host@, key@, opt_str_view(*key_location), urls@));
    }
    out
}

/// How many batches a change list of length `len` yields: zero for an
/// empty list, otherwise the list split into full batches plus a final
/// partial one.
pub open spec fn num_batches(len: int) -> int {
    (len + BATCH_SIZE - 1) / (BATCH_SIZE as int)
}

/// The `i`-th batch of the list: the next `BATCH_SIZE` entries, or
/// whatever remains.
pub open spec fn batch_slice(list: Seq<String>, i: int) -> Seq<String> {
    list.subrange(
        i * (BATCH_SIZE as int),
        if (i + 1) * (BATCH_SIZE as int) <= list.len() {
            (i + 1) * (BATCH_SIZE as int)
        } else {
            list.len() as int
        },
    )
}

/// Splits the URL list into consecutive batches of at most `BATCH_SIZE`
/// entries: every batch except possibly the last is full, the last is
/// never empty, and an empty list yields no batches at all.
pub fn split_batches(list: &Vec<String>) -> (r: Vec<Vec<String>>)
    ensures
        r@.len() == num_batches(list@.len() as int),
        forall|i: int| 0 <= i < r@.len() ==> (#[trigger] r@[i])@ == batch_slice(list@, i),
        forall|i: int| 0 <= i < r@.len() - 1 ==> (#[trigger] r@[i])@.len() == BATCH_SIZE,
        r@.len() > 0 ==> 0 < r@[r@.len() - 1]@.len() <= BATCH_SIZE,
{
    let len = list.len();
    let mut out: Vec<Vec<String>> = Vec::new();
    let mut idx: usize = 0;
    while idx < len
        invariant
            idx <= len,
            len == list@.len(),
            idx == out@.len() * (BATCH_SIZE as int) || (idx == len && out@.len() == num_batches(
                len as int,
            )),
            idx < len ==> idx == out@.len() * (BATCH_SIZE as int),
            forall|i: int| 0 <= i < out@.len() ==> (#[trigger] out@[i])@ == batch_slice(list@, i),
            forall|i: int|
                0 <= i < out@.len() - 1 ==> (#[trigger] out@[i])@.len() == BATCH_SIZE,
            out@.len() > 0 ==> 0 < out@[out@.len() - 1]@.len() <= BATCH_SIZE,
        decreases len - idx,
    {
        let remaining = len - idx;
        let take_n = if remaining < BATCH_SIZE {
            remaining
        } else {
            BATCH_SIZE
        };
        let mut batch: Vec<String> = Vec::new();
        let mut j: usize = 0;
        while j < take_n
            invariant
                j <= take_n,
                idx + take_n <= len,
                len == list@.len(),
                batch@ == list@.subrange(idx as int, idx + j as int),
            decreases take_n - j,
        {
            batch.push(list[idx + j].clone());
            proof {
                assert(list@.subrange(idx as int, idx + j + 1 as int) =~= list@.subrange(
                    idx as int,
                    idx + j as int,
                ).push(list@[idx + j]));
            }
            j = j + 1;
        }
        proof {
            assert(batch@ =~= batch_slice(list@, out@.len() as int));
        }
        out.push(batch);
        idx = idx + take_n;
    }
    out
}

/// One request the submitter is to send: the endpoint's submission URL
/// and the JSON body.
#[derive(Debug)]
pub struct SubmissionRequest {
    pub endpoint_url: String,
    pub body: String,
}

/// A change list that yields no batches yields no requests for any set of
/// endpoints.
proof fn lemma_plan_empty(
    host: Seq<char>,
    engines: Seq<(String, crate::config::EngineConfiguration)>,
    list: Seq<String>,
)
    requires
        num_batches(list.len() as int) == 0,
    ensures
        submission_plan(host, engines, list).len() == 0,
    decreases engines.len(),
{
    if engines.len() > 0 {
        lemma_plan_empty(host, engines.drop_last(), list);
    }
}

/// The views (endpoint URL, body) of the requests owed to one endpoint:
/// one request per batch, in batch order.
pub open spec fn engine_plan(
    host: Seq<char>,
    name_eng: (String, crate::config::EngineConfiguration),
    list: Seq<String>,
) -> Seq<(Seq<char>, Seq<char>)> {
    Seq::new(
        num_batches(list.len() as int) as nat,
        |b: int|
            (
                name_eng.1.indexnow_url@,
                payload_json(host, name_eng.1.key_value@, Some(name_eng.1.key_url@), batch_slice(list, b)),
            ),
    )
}

/// The views of the full submission plan: every endpoint, in
/// configuration order, receives the identical batch sequence.
pub open spec fn submission_plan(
    host: Seq<char>,
    engines: Seq<(String, crate::config::EngineConfiguration)>,
    list: Seq<String>,
) -> Seq<(Seq<char>, Seq<char>)>
    decreases engines.len(),
{
    if engines.len() == 0 {
        Seq::empty()
    } else {
        submission_plan(host, engines.drop_last(), list) + engine_plan(host, engines.last(), list)
    }
}

/// Builds the full submission plan for the change list: splits it into
/// batches and renders, for every configured endpoint, one request per
/// batch. An empty change list yields no requests, so nothing is ever
/// submitted for it.
pub fn process_payload(cfg: &Configuration, list: Vec<String>) -> (r: Vec<SubmissionRequest>)
    ensures
        r@.map_values(|q: SubmissionRequest| (q.endpoint_url@, q.body@)) == submission_plan(
            cfg.host@,
            cfg.engines@,
            list@,
        ),
        list@.len() == 0 ==> r@.len() == 0,
{
    let batches = split_batches(&list);
    let mut out: Vec<SubmissionRequest> = Vec::new();
    let mut e: usize = 0;
    while e < cfg.engines.len()
        invariant
            e <= cfg.engines@.len(),
            batches@.len() == num_batches(list@.len() as int),
            forall|i: int|
                0 <= i < batches@.len() ==> (#[trigger] batches@[i])@ == batch_slice(list@, i),
            out@.map_values(|q: SubmissionRequest| (q.endpoint_url@, q.body@)) == submission_plan(
                cfg.host@,
                cfg.engines@.take(e as int),
                list@,
            ),
        decreases cfg.engines@.len() - e,
    {
        let ghost plan_before = submission_plan(cfg.host@, cfg.engines@.take(e as int), list@);
        let mut b: usize = 0;
        while b < batches.len()
            invariant
                b <= batches@.len(),
                e < cfg.engines@.len(),
                batches@.len() == num_batches(list@.len() as int),
                forall|i: int|
                    0 <= i < batches@.len() ==> (#[trigger] batches@[i])@ == batch_slice(list@, i),
                out@.map_values(|q: SubmissionRequest| (q.endpoint_url@, q.body@)) == plan_before
                    + engine_plan(cfg.host@, cfg.engines@[e as int], list@).take(b as int),
            decreases batches@.len() - b,
        {
            let key_location: Option<String> = Some(cfg.engines[e].1.key_url.clone());
            let body = build_post_payload(
                cfg.host.as_str(),
                cfg.engines[e].1.key_value.as_str(),
                &key_location,
                &batches[b],
            );
            let req = SubmissionRequest { endpoint_url: cfg.engines[e].1.indexnow_url.clone(), body };
            let ghost out_before = out@;
            out.push(req);
            proof {
                let f = |q: SubmissionRequest| (q.endpoint_url@, q.body@);
                let ep = engine_plan(cfg.host@, cfg.engines@[e as int], list@);
                assert(out@.map_values(f) =~= out_before.map_values(f).push(f(out@.last())));
                assert(ep.take(b + 1 as int) =~= ep.take(b as int).push(ep[b as int]));
                assert(out@.map_values(f) =~= plan_before + ep.take(b + 1 as int));
            }
            b = b + 1;
        }
        proof {
            let ep = engine_plan(cfg.host@, cfg.engines@[e as int], list@);
            assert(ep.take(batches@.len() as int) =~= ep);
            assert(cfg.engines@.take(e + 1 as int).drop_last() =~= cfg.engines@.take(e as int));
            assert(cfg.engines@.take(e + 1 as int).last() == cfg.engines@[e as int]);
        }
        e = e + 1;
    }
    proof {
        assert(cfg.engines@.take(cfg.engines@.len() as int) =~= cfg.engines@);
        if list@.len() == 0 {
            lemma_plan_empty(cfg.host@, cfg.engines@, list@);
        }
    }
    out
}

/// Rewrites each local path into a public URL: the first occurrence of
/// the scanned root `html_dir` is replaced by `base_url`, once; a path
/// that holds the root string again later keeps that later occurrence.
pub fn massage_payload(base_url: &str, html_dir: &str, list: Vec<String>) -> (r: Vec<String>)
    ensures
        r@.len() == list@.len(),
        forall|i: int|
            0 <= i < list@.len() ==> (#[trigger] r@[i])@ == strutil::replace_first_spec(
                list@[i]@,
                html_dir@,
                base_url@,
            ),
{
    let mut out: Vec<String> = Vec::new();
    let mut i: usize = 0;
    while i < list.len()
        invariant
            i <= list@.len(),
            out@.len() == i,
            forall|j: int|
                0 <= j < i ==> (#[trigger] out@[j])@ == strutil::replace_first_spec(
                    list@[j]@,
                    html_dir@,
                    base_url@,
                ),
        decreases list@.len() - i,
    {
        let rewritten = strutil::replace_first(list[i].as_str(), html_dir, base_url);
        out.push(rewritten);
        i = i + 1;
    }
    out
}

} // verus!
