//! The minimal HTTP query surface, as pure byte-level logic.
//!
//! The surrounding task owns the listening socket. For each accepted
//! connection it reads the request into a bounded buffer, hands the raw
//! bytes here, and writes back whatever `respond` returns. A request is
//! classified by matching the start of the buffer against two fixed
//! request-line prefixes; everything else is "not found". The served page
//! may carry a `{{PORT}}` placeholder, substituted once the bound port is
//! known.

use vstd::prelude::*;

use vstd::string::StringSliceAdditionalSpecFns;

use crate::store::Reading;

verus! {

/// The decimal digits of `n`, most significant first, as ASCII bytes.
pub open spec fn dec_bytes(n: nat) -> Seq<u8>
    decreases n,
{
    if n < 10 {
        seq![(48 + n) as u8]
    } else {
        dec_bytes(n / 10) + seq![(48 + n % 10) as u8]
    }
}

/// Render `n` in decimal ASCII.
pub fn format_u128(n: u128) -> (r: Vec<u8>)
    ensures
        r@ == dec_bytes(n as nat),
{
    let mut digits: Vec<u8> = Vec::new();
    if n < 10 {
        digits.push(48 + (n as u8));
        return digits;
    }
    let mut m: u128 = n;
    while m > 0
        invariant
            m > 0 ==> dec_bytes(n as nat) == dec_bytes(m as nat) + digits@,
            m == 0 ==> dec_bytes(n as nat) == digits@,
        decreases m,
    {
        let d: u8 = 48 + ((m % 10) as u8);
        let ghost old_digits = digits@;
        digits.insert(0, d);
        proof {
            assert(digits@ == seq![d] + old_digits);
            if m >= 10 {
                assert(dec_bytes(m as nat) == dec_bytes((m as nat) / 10) + seq![d]);
                assert(dec_bytes(m as nat) + old_digits == dec_bytes((m as nat) / 10) + (seq![d]
                    + old_digits));
            } else {
                assert(dec_bytes(m as nat) == seq![d]);
            }
        }
        m = m / 10;
    }
    digits
}

/// Whether `pat` stands at the start of `s`.
pub open spec fn is_prefix_of(pat: Seq<u8>, s: Seq<u8>) -> bool {
    pat.len() <= s.len() && s.take(pat.len() as int) == pat
}

/// Compare the start of `s` against `pat`.
pub fn starts_with(s: &[u8], pat: &[u8]) -> (b: bool)
    ensures
        b == is_prefix_of(pat@, s@),
{
    if pat.len() > s.len() {
        proof {
            assert(!is_prefix_of(pat@, s@));
        }
        return false;
    }
    let mut i: usize = 0;
    while i < pat.len()
        invariant
            0 <= i <= pat@.len() <= s@.len(),
            forall|k: int| 0 <= k < i ==> s@[k] == pat@[k],
        decreases pat@.len() - i,
    {
        if s[i] != pat[i] {
            proof {
                assert(s@.take(pat@.len() as int)[i as int] != pat@[i as int]);
            }
            return false;
        }
        i = i + 1;
    }
    proof {
        assert(s@.take(pat@.len() as int) =~= pat@);
    }
    true
}

/// `s` with every occurrence of `pat` replaced by `rep`, scanning left to
/// right without overlap. A pattern that cannot occur (empty, or longer
/// than what is left) leaves the rest unchanged.
pub open spec fn replace_all(s: Seq<u8>, pat: Seq<u8>, rep: Seq<u8>) -> Seq<u8>
    decreases s.len(),
{
    if pat.len() == 0 || s.len() < pat.len() {
        s
    } else if s.take(pat.len() as int) == pat {
        rep + replace_all(s.skip(pat.len() as int), pat, rep)
    } else {
        seq![s[0]] + replace_all(s.skip(1), pat, rep)
    }
}

/// Whether `pat` stands at offset `i` of `s`.
fn matches_at(s: &[u8], i: usize, pat: &[u8]) -> (b: bool)
    requires
        i + pat@.len() <= s@.len(),
    ensures
        b == (s@.skip(i as int).take(pat@.len() as int) == pat@),
{
    let slen = s.len();
    let mut j: usize = 0;
    while j < pat.len()
        invariant
            0 <= j <= pat@.len(),
            i + pat@.len() <= s@.len(),
            s@.len() == slen,
            forall|k: int| 0 <= k < j ==> s@[i + k] == pat@[k],
        decreases pat@.len() - j,
    {
        if s[i + j] != pat[j] {
            proof {
                assert(s@.skip(i as int).take(pat@.len() as int)[j as int] == s@[i + j]);
            }
            return false;
        }
        j = j + 1;
    }
    proof {
        assert(s@.skip(i as int).take(pat@.len() as int) =~= pat@);
    }
    true
}

/// Replace every occurrence of `pat` in `s` by `rep`, left to right.
pub fn replace_bytes(s: &[u8], pat: &[u8], rep: &[u8]) -> (out: Vec<u8>)
    ensures
        out@ == replace_all(s@, pat@, rep@),
{
    let mut out: Vec<u8> = Vec::new();
    let mut i: usize = 0;
    let slen = s.len();
    proof {
        assert(s@.skip(0) =~= s@);
        assert(out@ + replace_all(s@, pat@, rep@) =~= replace_all(s@, pat@, rep@));
    }
    while i < slen
        invariant
            0 <= i <= s@.len(),
            s@.len() == slen,
            replace_all(s@, pat@, rep@) == out@ + replace_all(s@.skip(i as int), pat@, rep@),
        decreases s@.len() - i,
    {
        let ghost rest = s@.skip(i as int);
        if pat.len() > 0 && pat.len() <= slen - i && matches_at(s, i, pat) {
            let ghost before = out@;
            out.extend_from_slice(rep);
            proof {
                assert(out@ =~= before + rep@);
                assert(rest.take(pat@.len() as int) == pat@);
                let tail = replace_all(rest.skip(pat@.len() as int), pat@, rep@);
                assert(replace_all(rest, pat@, rep@) == rep@ + tail);
                assert(before + (rep@ + tail) =~= (before + rep@) + tail);
                assert(rest.skip(pat@.len() as int) =~= s@.skip(i + pat@.len()));
            }
            i = i + pat.len();
        } else {
            let ghost before = out@;
            let b = s[i];
            out.push(b);
            proof {
                assert(out@ =~= before + seq![b]);
                assert(rest[0] == b);
                assert(rest.skip(1) =~= s@.skip(i + 1));
                let tail = replace_all(rest.skip(1), pat@, rep@);
                if pat@.len() == 0 || rest.len() < pat@.len() {
                    // The rest is too short to hold the pattern, so it is
                    // kept as it stands, byte for byte.
                    assert(replace_all(rest, pat@, rep@) == rest);
                    lemma_replace_all_short(rest.skip(1), pat@, rep@);
                    assert(rest =~= seq![b] + rest.skip(1));
                } else {
                    assert(rest.take(pat@.len() as int) != pat@);
                    assert(replace_all(rest, pat@, rep@) == seq![rest[0]] + tail);
                }
                assert(before + (seq![b] + tail) =~= (before + seq![b]) + tail);
            }
            i = i + 1;
        }
    }
    proof {
        assert(s@.skip(i as int) =~= Seq::<u8>::empty());
        assert(replace_all(Seq::<u8>::empty(), pat@, rep@) =~= Seq::<u8>::empty());
        assert(out@ =~= out@ + Seq::<u8>::empty());
    }
    out
}

/// A sequence too short to contain the pattern is left unchanged.
proof fn lemma_replace_all_short(s: Seq<u8>, pat: Seq<u8>, rep: Seq<u8>)
    requires
        pat.len() == 0 || s.len() < pat.len(),
    ensures
        replace_all(s, pat, rep) == s,
{
}

/// The served page with the `{{PORT}}` placeholder replaced by the bound
/// port in decimal, everywhere it occurs.
pub fn substitute_port(html: &[u8], port: u16) -> (out: Vec<u8>)
    ensures
        out@ == replace_all(html@, "{{PORT}}".spec_bytes(), dec_bytes(port as nat)),
{
    let digits = format_u128(port as u128);
    replace_bytes(html, "{{PORT}}".as_bytes(), digits.as_slice())
}

/// How one request is handled.
#[derive(Clone, Copy, Debug, PartialEq, Eq, Structural)]
pub enum RequestKind {
    /// The fixed HTML page.
    RootPage,
    /// The JSON snapshot of the latest reading.
    HeartRateQuery,
    /// Anything else.
    NotFound,
}

/// Classification of a raw request buffer: the two recognised request-line
/// prefixes, in the order they are tried, and "not found" for the rest.
pub open spec fn spec_classify(buf: Seq<u8>) -> RequestKind {
    if is_prefix_of("GET / HTTP".spec_bytes(), buf) {
        RequestKind::RootPage
    } else if is_prefix_of("GET /heart-rate HTTP".spec_bytes(), buf) {
        RequestKind::HeartRateQuery
    } else {
        RequestKind::NotFound
    }
}

/// Classify one raw request buffer.
pub fn classify_request(buf: &[u8]) -> (k: RequestKind)
    ensures
        k == spec_classify(buf@),
{
    if starts_with(buf, "GET / HTTP".as_bytes()) {
        RequestKind::RootPage
    } else if starts_with(buf, "GET /heart-rate HTTP".as_bytes()) {
        RequestKind::HeartRateQuery
    } else {
        RequestKind::NotFound
    }
}

/// The JSON snapshot of the slot: timestamp and rate when a reading is
/// there, the fixed no-data sentinel before the first one.
pub open spec fn spec_reading_json(r: Option<Reading>) -> Seq<u8> {
    match r {
        Some(rd) => "{\"ts_millis\": ".spec_bytes() + dec_bytes(rd.ts_millis as nat)
            + ", \"rate\": ".spec_bytes() + dec_bytes(rd.value as nat) + "}".spec_bytes(),
        None => "{\"ts\": none, \"rate\": none}".spec_bytes(),
    }
}

/// The status line owed for each request kind.
pub open spec fn spec_status_line(kind: RequestKind) -> Seq<u8> {
    match kind {
        RequestKind::NotFound => "HTTP/1.1 404 NOT FOUND".spec_bytes(),
        _ => "HTTP/1.1 200 OK".spec_bytes(),
    }
}

/// The content type owed for each request kind.
pub open spec fn spec_content_type(kind: RequestKind) -> Seq<u8> {
    match kind {
        RequestKind::HeartRateQuery => "application/json".spec_bytes(),
        _ => "text/html".spec_bytes(),
    }
}

/// The body owed for each request kind.
pub open spec fn spec_body(kind: RequestKind, html: Seq<u8>, reading: Option<Reading>) -> Seq<
    u8,
> {
    match kind {
        RequestKind::RootPage => html,
        RequestKind::HeartRateQuery => spec_reading_json(reading),
        RequestKind::NotFound => "404 Not Found".spec_bytes(),
    }
}

/// A whole response: status line, content type, the exact byte length of
/// the body, a blank line, then the body.
pub open spec fn spec_response(status: Seq<u8>, content_type: Seq<u8>, body: Seq<u8>) -> Seq<
    u8,
> {
    status + "\r\nContent-Type: ".spec_bytes() + content_type + "\r\nContent-Length: ".spec_bytes()
        + dec_bytes(body.len()) + "\r\n\r\n".spec_bytes() + body
}

/// Append a byte slice as it stands.
fn append_bytes(out: &mut Vec<u8>, s: &[u8])
    ensures
        final(out)@ == old(out)@ + s@,
{
    let ghost before = out@;
    out.extend_from_slice(s);
    proof {
        assert(out@ =~= before + s@);
    }
}

/// Render the JSON snapshot of the slot.
pub fn render_reading_json(reading: Option<Reading>) -> (body: Vec<u8>)
    ensures
        body@ == spec_reading_json(reading),
{
    let mut body: Vec<u8> = Vec::new();
    match reading {
        Some(rd) => {
            append_bytes(&mut body, "{\"ts_millis\": ".as_bytes());
            proof {
                assert(body@ =~= "{\"ts_millis\": ".spec_bytes());
            }
            let ts = format_u128(rd.ts_millis);
            append_bytes(&mut body, ts.as_slice());
            append_bytes(&mut body, ", \"rate\": ".as_bytes());
            let rate = format_u128(rd.value as u128);
            append_bytes(&mut body, rate.as_slice());
            append_bytes(&mut body, "}".as_bytes());
        },
        None => {
            append_bytes(&mut body, "{\"ts\": none, \"rate\": none}".as_bytes());
            proof {
                assert(body@ =~= "{\"ts\": none, \"rate\": none}".spec_bytes());
            }
        },
    }
    body
}

/// Frame one response: status line, `Content-Type`, exact `Content-Length`
/// in bytes, a blank line, then the body.
pub fn build_response(status: &[u8], content_type: &[u8], body: &[u8]) -> (resp: Vec<u8>)
    ensures
        resp@ == spec_response(status@, content_type@, body@),
{
    let mut resp: Vec<u8> = Vec::new();
    append_bytes(&mut resp, status);
    proof {
        assert(resp@ =~= status@);
    }
    append_bytes(&mut resp, "\r\nContent-Type: ".as_bytes());
    append_bytes(&mut resp, content_type);
    append_bytes(&mut resp, "\r\nContent-Length: ".as_bytes());
    let len = format_u128(body.len() as u128);
    append_bytes(&mut resp, len.as_slice());
    append_bytes(&mut resp, "\r\n\r\n".as_bytes());
    append_bytes(&mut resp, body);
    resp
}

/// Serve one request: classify the buffer, pick status, content type and
/// body, and frame the response. The caller only moves bytes.
pub fn respond(buf: &[u8], html: &[u8], reading: Option<Reading>) -> (resp: Vec<u8>)
    ensures
        ({
            let kind = spec_classify(buf@);
            resp@ == spec_response(
                spec_status_line(kind),
                spec_content_type(kind),
                spec_body(kind, html@, reading),
            )
        }),
{
    let kind = classify_request(buf);
    let body: Vec<u8> = match kind {
        RequestKind::RootPage => vstd::slice::slice_to_vec(html),
        RequestKind::HeartRateQuery => render_reading_json(reading),
        RequestKind::NotFound => vstd::slice::slice_to_vec("404 Not Found".as_bytes()),
    };
    let status: &[u8] = match kind {
        RequestKind::NotFound => "HTTP/1.1 404 NOT FOUND".as_bytes(),
        _ => "HTTP/1.1 200 OK".as_bytes(),
    };
    let content_type: &[u8] = match kind {
        RequestKind::HeartRateQuery => "application/json".as_bytes(),
        _ => "text/html".as_bytes(),
    };
    build_response(status, content_type, body.as_slice())
}

} // verus!
