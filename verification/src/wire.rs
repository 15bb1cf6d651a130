//! Client-side SMTP wire conventions: the plaintext authentication
//! command, classification of server reply lines, and the framing of the
//! DATA body. A driver that owns the socket sends exactly these bytes and
//! feeds the classified replies back into the session state machine.

use vstd::prelude::*;
use vstd::string::*;
use crate::config::Plain;

verus! {

/// The base64 alphabet character for a value below 64.
pub open spec fn spec_b64_char(n: int) -> u8 {
    if n < 26 {
        (65 + n) as u8
    } else if n < 52 {
        (97 + (n - 26)) as u8
    } else if n < 62 {
        (48 + (n - 52)) as u8
    } else if n == 62 {
        43
    } else {
        47
    }
}

/// Standard base64 with padding: three input bytes become four characters,
/// a short final group is padded with `=`.
pub open spec fn spec_base64(s: Seq<u8>) -> Seq<u8>
    decreases s.len(),
{
    if s.len() == 0 {
        Seq::empty()
    } else if s.len() == 1 {
        let n = s[0] * 65536;
        seq![spec_b64_char(n / 262144), spec_b64_char((n / 4096) % 64), 61u8, 61u8]
    } else if s.len() == 2 {
        let n = s[0] * 65536 + s[1] * 256;
        seq![
            spec_b64_char(n / 262144),
            spec_b64_char((n / 4096) % 64),
            spec_b64_char((n / 64) % 64),
            61u8,
        ]
    } else {
        let n = s[0] * 65536 + s[1] * 256 + s[2];
        seq![
            spec_b64_char(n / 262144),
            spec_b64_char((n / 4096) % 64),
            spec_b64_char((n / 64) % 64),
            spec_b64_char(n % 64),
        ] + spec_base64(s.skip(3))
    }
}

/// The alphabet character for a value below 64.
fn b64_char(n: u32) -> (r: u8)
    requires
        n < 64,
    ensures
        r == spec_b64_char(n as int),
{
    if n < 26 {
        (65 + n) as u8
    } else if n < 52 {
        (97 + (n - 26)) as u8
    } else if n < 62 {
        (48 + (n - 52)) as u8
    } else if n == 62 {
        43
    } else {
        47
    }
}

/// Encodes `s` in standard base64 with padding.
pub fn base64_bytes(s: &[u8]) -> (r: Vec<u8>)
    ensures
        r@ == spec_base64(s@),
{
    let mut out: Vec<u8> = Vec::new();
    let mut i: usize = 0;
    assert(s@.skip(0) =~= s@);
    while i < s.len()
        invariant
            0 <= i <= s@.len(),
            spec_base64(s@) == out@ + spec_base64(s@.skip(i as int)),
        decreases s@.len() - i,
    {
        let ghost pre = out@;
        let ghost tail = s@.skip(i as int);
        let remaining = s.len() - i;
        if remaining == 1 {
            let n: u32 = (s[i] as u32) * 65536;
            assert(n < 16777216);
            out.push(b64_char(n / 262144));
            out.push(b64_char((n / 4096) % 64));
            out.push(61);
            out.push(61);
            proof {
                assert(tail.len() == 1);
                assert(tail[0] == s@[i as int]);
                let nn = tail[0] * 65536;
                assert(nn == n as int);
                let grp = seq![
                    spec_b64_char(nn / 262144),
                    spec_b64_char((nn / 4096) % 64),
                    61u8,
                    61u8,
                ];
                assert(out@ =~= pre + grp);
                assert(spec_base64(tail) == grp);
                assert(s@.skip(s@.len() as int) =~= Seq::<u8>::empty());
                assert(out@ + spec_base64(s@.skip(s@.len() as int)) =~= out@);
            }
            i = s.len();
        } else if remaining == 2 {
            let n: u32 = (s[i] as u32) * 65536 + (s[i + 1] as u32) * 256;
            assert(n < 16777216);
            out.push(b64_char(n / 262144));
            out.push(b64_char((n / 4096) % 64));
            out.push(b64_char((n / 64) % 64));
            out.push(61);
            proof {
                assert(tail.len() == 2);
                assert(tail[0] == s@[i as int] && tail[1] == s@[i + 1]);
                let nn = tail[0] * 65536 + tail[1] * 256;
                assert(nn == n as int);
                let grp = seq![
                    spec_b64_char(nn / 262144),
                    spec_b64_char((nn / 4096) % 64),
                    spec_b64_char((nn / 64) % 64),
                    61u8,
                ];
                assert(out@ =~= pre + grp);
                assert(spec_base64(tail) == grp);
                assert(s@.skip(s@.len() as int) =~= Seq::<u8>::empty());
                assert(out@ + spec_base64(s@.skip(s@.len() as int)) =~= out@);
            }
            i = s.len();
        } else {
            let n: u32 = (s[i] as u32) * 65536 + (s[i + 1] as u32) * 256 + (s[i + 2] as u32);
            assert(n < 16777216);
            out.push(b64_char(n / 262144));
            out.push(b64_char((n / 4096) % 64));
            out.push(b64_char((n / 64) % 64));
            out.push(b64_char(n % 64));
            proof {
                assert(tail.len() >= 3);
                assert(tail[0] == s@[i as int] && tail[1] == s@[i + 1] && tail[2] == s@[i + 2]);
                assert(tail.skip(3) =~= s@.skip(i + 3));
                let nn = tail[0] * 65536 + tail[1] * 256 + tail[2];
                assert(nn == n as int);
                let grp = seq![
                    spec_b64_char(nn / 262144),
                    spec_b64_char((nn / 4096) % 64),
                    spec_b64_char((nn / 64) % 64),
                    spec_b64_char(nn % 64),
                ];
                assert(out@ =~= pre + grp);
                assert(spec_base64(tail) == grp + spec_base64(tail.skip(3)));
                assert(pre + (grp + spec_base64(tail.skip(3))) =~= out@ + spec_base64(
                    s@.skip(i + 3),
                ));
            }
            i = i + 3;
        }
    }
    assert(s@.skip(i as int) =~= Seq::<u8>::empty());
    assert(out@ + Seq::<u8>::empty() =~= out@);
    out
}

/// The AUTH PLAIN command line: the NUL-framed identity pair of the
/// credentials, base64-coded, after the command word.
pub open spec fn spec_auth_plain(username: Seq<u8>, password: Seq<u8>) -> Seq<u8> {
    "AUTH PLAIN ".spec_bytes() + spec_base64(
        seq![0u8] + username + seq![0u8] + password,
    ) + "\r\n".spec_bytes()
}

/// Builds the AUTH PLAIN command for the given credentials.
pub fn auth_plain_command(credentials: &Plain) -> (r: Vec<u8>)
    ensures
        r@ == spec_auth_plain(credentials.username@, credentials.password@),
{
    let mut blob: Vec<u8> = Vec::new();
    blob.push(0);
    crate::push_all(&mut blob, credentials.username.as_slice());
    blob.push(0);
    crate::push_all(&mut blob, credentials.password.as_slice());
    proof {
        assert(blob@ =~= seq![0u8] + credentials.username@ + seq![0u8]
            + credentials.password@);
    }
    let mut out = crate::lit_bytes("AUTH PLAIN ");
    crate::push_all(&mut out, base64_bytes(blob.as_slice()).as_slice());
    crate::push_all(&mut out, crate::lit_bytes("\r\n").as_slice());
    out
}

/// What one server reply line is: the final line of a reply with its code,
/// a continuation line of a multi-line reply, or noise.
#[derive(Clone, Copy, PartialEq, Eq, Structural, Debug)]
pub enum ReplyLine {
    /// The last line of a reply, carrying its code.
    Final(u16),
    /// A continued line; more lines of the same reply follow.
    Continuation(u16),
    /// Not a reply line at all.
    Malformed,
}

/// True for an ASCII decimal digit.
pub open spec fn spec_is_digit(b: u8) -> bool {
    48 <= b <= 57
}

/// The three-digit code at the head of a reply line.
pub open spec fn spec_reply_code(s: Seq<u8>) -> u16 {
    (((s[0] - 48) * 100 + (s[1] - 48) * 10 + (s[2] - 48))) as u16
}

/// Classification of one reply line: three digits, then either the end of
/// the line or a space for a final line, or a dash for a continuation.
pub open spec fn spec_classify_reply(line: Seq<u8>) -> ReplyLine {
    if line.len() >= 3 && spec_is_digit(line[0]) && spec_is_digit(line[1]) && spec_is_digit(
        line[2],
    ) {
        if line.len() == 3 || line[3] == 32 || line[3] == 13 || line[3] == 10 {
            ReplyLine::Final(spec_reply_code(line))
        } else if line[3] == 45 {
            ReplyLine::Continuation(spec_reply_code(line))
        } else {
            ReplyLine::Malformed
        }
    } else {
        ReplyLine::Malformed
    }
}

/// Classifies one server reply line.
pub fn classify_reply_line(line: &[u8]) -> (r: ReplyLine)
    ensures
        r == spec_classify_reply(line@),
{
    if line.len() < 3 {
        return ReplyLine::Malformed;
    }
    let d0 = line[0];
    let d1 = line[1];
    let d2 = line[2];
    if d0 < 48 || d0 > 57 || d1 < 48 || d1 > 57 || d2 < 48 || d2 > 57 {
        return ReplyLine::Malformed;
    }
    let code: u16 = (d0 - 48) as u16 * 100 + (d1 - 48) as u16 * 10 + (d2 - 48) as u16;
    if line.len() == 3 {
        return ReplyLine::Final(code);
    }
    let sep = line[3];
    if sep == 32 || sep == 13 || sep == 10 {
        ReplyLine::Final(code)
    } else if sep == 45 {
        ReplyLine::Continuation(code)
    } else {
        ReplyLine::Malformed
    }
}

/// The body with a duplicated dot at the start of every line that begins
/// with one, so that no line of the content can end the transfer early.
pub open spec fn spec_dot_stuff_from(s: Seq<u8>, i: int, at_line_start: bool) -> Seq<u8>
    decreases s.len() - i when 0 <= i
{
    if i >= s.len() {
        Seq::empty()
    } else {
        (if at_line_start && s[i] == 46 {
            seq![46u8, s[i]]
        } else {
            seq![s[i]]
        }) + spec_dot_stuff_from(s, i + 1, s[i] == 10)
    }
}

/// The DATA payload for a body: the dot-stuffed content, closed by the
/// terminating dot line.
pub open spec fn spec_frame_data(body: Seq<u8>) -> Seq<u8> {
    spec_dot_stuff_from(body, 0, true) + "\r\n.\r\n".spec_bytes()
}

/// Frames a mail body for the DATA phase.
pub fn frame_data_body(body: &[u8]) -> (r: Vec<u8>)
    ensures
        r@ == spec_frame_data(body@),
{
    let mut out: Vec<u8> = Vec::new();
    let mut i: usize = 0;
    let mut at_line_start = true;
    while i < body.len()
        invariant
            0 <= i <= body@.len(),
            spec_dot_stuff_from(body@, 0, true) == out@ + spec_dot_stuff_from(
                body@,
                i as int,
                at_line_start,
            ),
        decreases body@.len() - i,
    {
        let ghost pre = out@;
        let b = body[i];
        if at_line_start && b == 46 {
            out.push(46);
        }
        out.push(b);
        proof {
            let here: Seq<u8> = if at_line_start && body@[i as int] == 46 {
                seq![46u8, body@[i as int]]
            } else {
                seq![body@[i as int]]
            };
            let rest = spec_dot_stuff_from(body@, i + 1, body@[i as int] == 10);
            assert(out@ =~= pre + here);
            assert(pre + (here + rest) =~= out@ + rest);
        }
        at_line_start = b == 10;
        i = i + 1;
    }
    assert(spec_dot_stuff_from(body@, i as int, at_line_start) =~= Seq::<u8>::empty());
    assert(out@ + Seq::<u8>::empty() =~= out@);
    crate::push_all(&mut out, crate::lit_bytes("\r\n.\r\n").as_slice());
    out
}

} // verus!
