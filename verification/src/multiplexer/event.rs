//! The one-line event log: what each frame to or from the radio is logged
//! as.

use vstd::prelude::*;
use vstd::string::StringExecFns;

use super::LogLevel;
use crate::text::{hex_encode, hex_lower, push_char};

verus! {

/// Whether the event log keeps `c`: a printable ASCII character or a space.
pub open spec fn kept_in_log(c: char) -> bool {
    ' ' <= c <= '~'
}

/// `msg` with every character dropped that is neither printable ASCII nor
/// a space.
pub fn sanitize(msg: &str) -> (r: String)
    ensures
        r@ == msg@.filter(|c: char| kept_in_log(c)),
{
    let mut out = String::new();
    proof {
        vstd::string::axiom_spec_iter(msg);
    }
    for c in it: msg.chars()
        invariant
            it.seq() == msg@,
            out@ == msg@.take(it.index() as int).filter(|c: char| kept_in_log(c)),
    {
        proof {
            let i = it.index() as int;
            assert(msg@.take(i + 1) =~= msg@.take(i).push(msg@[i]));
            assert(c == msg@[i]);
            msg@.take(i).lemma_filter_push(msg@[i], |c: char| kept_in_log(c));
        }
        if ' ' <= c && c <= '~' {
            push_char(&mut out, c);
        }
    }
    assert(msg@.take(msg@.len() as int) =~= msg@);
    out
}


/// The decimal digits of `n`, most significant first.
pub open spec fn decimal(n: nat) -> Seq<char>
    decreases n,
{
    if n < 10 {
        seq![(n + 48) as char]
    } else {
        decimal(n / 10).push((n % 10 + 48) as char)
    }
}

/// Appends the decimal digits of `n`.
fn push_decimal(out: &mut String, n: usize)
    ensures
        final(out)@ == old(out)@ + decimal(n as nat),
    decreases n,
{
    if n >= 10 {
        push_decimal(out, n / 10);
    }
    let d: u8 = (n % 10) as u8;
    push_char(out, (d + 48) as char);
    assert(final(out)@ =~= old(out)@ + decimal(n as nat));
}

/// The characters of an optional text.
pub open spec fn text_view(o: Option<&str>) -> Option<Seq<char>> {
    match o {
        Some(f) => Some(f@),
        None => None,
    }
}

/// The event line before unprintable characters are dropped: the arrow, a
/// space and the frame's type name; then `": "` and the decoded fields when
/// there are any; then, at the verbose level, the payload's length in bytes
/// and its lowercase hex.
pub open spec fn event_line(
    arrow: Seq<char>,
    packet_type: Seq<char>,
    fields: Option<Seq<char>>,
    payload: Seq<u8>,
    level: LogLevel,
) -> Seq<char> {
    let head = arrow + seq![' '] + packet_type;
    let described = match fields {
        Some(f) => if f.len() > 0 {
            head + seq![':', ' '] + f
        } else {
            head
        },
        None => head,
    };
    if level == LogLevel::Verbose {
        described + seq![' ', '['] + decimal(payload.len()) + " bytes]: "@ + hex_lower(payload)
    } else {
        described
    }
}

/// The log line of a frame: `fields` is what the decoded payload was
/// formatted as, when it was decoded at all.
pub fn build_event_msg(
    arrow: &str,
    packet_type: &str,
    fields: Option<&str>,
    payload: &[u8],
    level: LogLevel,
) -> (msg: String)
    ensures
        msg@ == event_line(arrow@, packet_type@, text_view(fields), payload@, level).filter(
            |c: char| kept_in_log(c),
        ),
{
    let mut msg = String::from_str(arrow);
    push_char(&mut msg, ' ');
    msg.append(packet_type);
    match fields {
        Some(f) => {
            if !f.is_empty() {
                msg.append(": ");
                msg.append(f);
            }
        },
        None => {},
    }
    if level == LogLevel::Verbose {
        msg.append(" [");
        push_decimal(&mut msg, payload.len());
        msg.append(" bytes]: ");
        let hex = hex_encode(payload);
        msg.append(hex.as_str());
    }
    proof {
        reveal_strlit(": ");
        reveal_strlit(" [");
    }
    assert(msg@ =~= event_line(arrow@, packet_type@, text_view(fields), payload@, level));
    sanitize(msg.as_str())
}

} // verus!
