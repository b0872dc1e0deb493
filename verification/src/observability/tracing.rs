//! W3C trace-context propagation: reading `traceparent` / `tracestate` from
//! message headers, and hex encoding of generated identifiers.

use vstd::prelude::*;
use crate::text_map::TextMap;

verus! {

/// `s` split at every occurrence of `sep`, as `str::split` does: one more
/// part than there are separators, each part free of `sep`.
pub open spec fn split_on(s: Seq<char>, sep: char) -> Seq<Seq<char>>
    decreases s.len(),
{
    if s.len() == 0 {
        seq![seq![]]
    } else {
        let rest = split_on(s.drop_last(), sep);
        if s.last() == sep {
            rest.push(seq![])
        } else {
            rest.update(rest.len() - 1, rest.last().push(s.last()))
        }
    }
}

proof fn lemma_split_nonempty(s: Seq<char>, sep: char)
    ensures
        split_on(s, sep).len() >= 1,
    decreases s.len(),
{
    if s.len() > 0 {
        lemma_split_nonempty(s.drop_last(), sep);
    }
}

/// The parts of `s` between occurrences of `sep`.
pub fn split_text<'a>(s: &'a str, sep: char) -> (r: Vec<&'a str>)
    ensures
        r@.len() == split_on(s@, sep).len(),
        forall|i: int| 0 <= i < r@.len() ==> (#[trigger] r@[i])@ == split_on(s@, sep)[i],
{
    let n = s.unicode_len();
    let mut parts: Vec<&'a str> = Vec::new();
    let mut start: usize = 0;
    let mut i: usize = 0;
    while i < n
        invariant
            n as nat == s@.len(),
            start <= i <= n,
            split_on(s@.subrange(0, i as int), sep).len() == parts@.len() + 1,
            forall|j: int|
                0 <= j < parts@.len() ==> (#[trigger] parts@[j])@ == split_on(
                    s@.subrange(0, i as int),
                    sep,
                )[j],
            split_on(s@.subrange(0, i as int), sep).last() == s@.subrange(start as int, i as int),
        decreases n - i,
    {
        let c = s.get_char(i);
        let ghost prev = s@.subrange(0, i as int);
        let ghost next = s@.subrange(0, i + 1);
        proof {
            assert(next.drop_last() =~= prev);
            assert(next.last() == c);
            lemma_split_nonempty(prev, sep);
        }
        if c == sep {
            let part = s.substring_char(start, i);
            parts.push(part);
            start = i + 1;
            proof {
                assert(s@.subrange(start as int, i + 1) =~= Seq::<char>::empty());
            }
        } else {
            proof {
                assert(s@.subrange(start as int, i + 1) =~= s@.subrange(start as int, i as int).push(
                    c,
                ));
            }
        }
        i += 1;
    }
    let last = s.substring_char(start, n);
    parts.push(last);
    proof {
        assert(s@.subrange(0, n as int) =~= s@);
    }
    parts
}

/// What `inject_trace_context` adds to `out`: from a `traceparent` header of
/// exactly four dash-separated parts, its trace id, span id and flags; and a
/// `tracestate` header as it is.
pub open spec fn with_trace_context(
    headers: Map<Seq<char>, Seq<char>>,
    out: Map<Seq<char>, Seq<char>>,
) -> Map<Seq<char>, Seq<char>> {
    let after_parent = if headers.dom().contains("traceparent"@) && split_on(
        headers["traceparent"@],
        '-',
    ).len() == 4 {
        let parts = split_on(headers["traceparent"@], '-');
        out.insert("trace_id"@, parts[1]).insert("span_id"@, parts[2]).insert(
            "trace_flags"@,
            parts[3],
        )
    } else {
        out
    };
    if headers.dom().contains("tracestate"@) {
        after_parent.insert("tracestate"@, headers["tracestate"@])
    } else {
        after_parent
    }
}

/// Copies the W3C trace context found in message headers into `out`.
///
/// `traceparent` has the form `00-{trace_id}-{span_id}-{flags}`.
pub fn inject_trace_context(headers: &TextMap, out: &mut TextMap)
    ensures
        final(out)@ == with_trace_context(headers@, old(out)@),
{
    if let Some(traceparent) = headers.get("traceparent") {
        let parts = split_text(traceparent.as_str(), '-');
        if parts.len() == 4 {
            out.insert(String::from_str("trace_id"), String::from_str(parts[1]));
            out.insert(String::from_str("span_id"), String::from_str(parts[2]));
            out.insert(String::from_str("trace_flags"), String::from_str(parts[3]));
        }
    }
    if let Some(tracestate) = headers.get("tracestate") {
        out.insert(String::from_str("tracestate"), tracestate.clone());
    }
}

/// The lowercase hexadecimal digit for a value below 16.
pub open spec fn hex_digit(n: int) -> char {
    "0123456789abcdef"@[n]
}

/// Bytes as lowercase hexadecimal, two digits per byte.
pub open spec fn hex_encode(bytes: Seq<u8>) -> Seq<char>
    decreases bytes.len(),
{
    if bytes.len() == 0 {
        seq![]
    } else {
        let b = bytes.last();
        hex_encode(bytes.drop_last()) + seq![hex_digit(b as int / 16), hex_digit(b as int % 16)]
    }
}

/// Encodes bytes as lowercase hexadecimal (for generated trace and span ids).
pub fn encode_hex(bytes: &[u8]) -> (r: String)
    ensures
        r@ == hex_encode(bytes@),
{
    let digits = "0123456789abcdef";
    proof {
        reveal_strlit("0123456789abcdef");
    }
    let mut out = String::new();
    let mut i: usize = 0;
    while i < bytes.len()
        invariant
            i <= bytes@.len(),
            digits@ == "0123456789abcdef"@,
            digits@.len() == 16,
            out@ == hex_encode(bytes@.subrange(0, i as int)),
        decreases bytes.len() - i,
    {
        let b = bytes[i];
        let hi = (b / 16) as usize;
        let lo = (b % 16) as usize;
        out.append(digits.substring_char(hi, hi + 1));
        out.append(digits.substring_char(lo, lo + 1));
        proof {
            let next = bytes@.subrange(0, i + 1);
            assert(next.drop_last() =~= bytes@.subrange(0, i as int));
            assert(next.last() == b);
            assert(digits@.subrange(hi as int, hi + 1) =~= seq![hex_digit(b as int / 16)]);
            assert(digits@.subrange(lo as int, lo + 1) =~= seq![hex_digit(b as int % 16)]);
            assert(out@ =~= hex_encode(next));
        }
        i += 1;
    }
    proof {
        assert(bytes@.subrange(0, bytes@.len() as int) =~= bytes@);
    }
    out
}

} // verus!
