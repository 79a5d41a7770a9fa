use vstd::prelude::*;
use vstd::utf8::{encode_utf8, is_char_boundary};

use crate::text::{decimal, decimal_text};
use crate::token_validator::{event_view, EventView, ValidationEvent};

verus! {

broadcast use {vstd::string::group_string_axioms, vstd::utf8::group_utf8_lib};

/// The bytes of `***`.
pub open spec fn stars() -> Seq<u8> {
    seq![42u8, 42u8, 42u8]
}

/// A token as the log shows it: its first three and last three bytes around
/// `***` when it is longer than six bytes, else only `***`.
pub open spec fn masked_bytes(b: Seq<u8>) -> Seq<u8> {
    if b.len() > 6 {
        b.take(3) + stars() + b.skip(b.len() - 3)
    } else {
        stars()
    }
}

/// Whether masking a UTF-8 text cuts no character apart: masking slices the
/// text at byte 3 and at three bytes before its end.
pub open spec fn maskable(b: Seq<u8>) -> bool {
    b.len() <= 6 || (is_char_boundary(b, 3) && is_char_boundary(b, b.len() - 3))
}

/// The level of an event's log line.
pub open spec fn level_of(e: EventView) -> Seq<char> {
    match e {
        EventView::NotListed(_, _) => "WARN"@,
        EventView::Accepted(_, _, _, _) => "INFO"@,
        _ => "ERROR"@,
    }
}

/// Whether an event's log line can be written: the masked replacement token
/// must not cut a character apart.
pub open spec fn renderable(e: EventView) -> bool {
    match e {
        EventView::Accepted(_, _, q, _) => maskable(encode_utf8(q)),
        _ => true,
    }
}

/// The UTF-8 bytes of an event's log message.
pub open spec fn log_bytes(e: EventView) -> Seq<u8> {
    match e {
        EventView::MissingHeader(p) => encode_utf8("Token validation error: path="@) + encode_utf8(p)
            + encode_utf8(", reason=missing_authorization_header"@),
        EventView::InvalidHeader(p) => encode_utf8("Token validation error: path="@) + encode_utf8(p)
            + encode_utf8(", reason=invalid_authorization_header"@),
        EventView::InvalidFormat(p) => encode_utf8("Token validation error: path="@) + encode_utf8(p)
            + encode_utf8(", reason=invalid_bearer_format"@),
        EventView::NotListed(p, t) => encode_utf8("Token validation failed: path="@) + encode_utf8(p)
            + encode_utf8(", token="@) + masked_bytes(t) + encode_utf8(", reason=not_in_whitelist"@),
        EventView::Accepted(p, t, q, c) => encode_utf8("Token validation success: path="@)
            + encode_utf8(p) + encode_utf8(", token="@) + masked_bytes(t) + encode_utf8("⟶"@)
            + masked_bytes(encode_utf8(q)) + encode_utf8(", count="@) + encode_utf8(
            decimal(c as nat),
        ),
    }
}

/// Appends bytes.
fn push_all(v: &mut Vec<u8>, s: &[u8])
    ensures
        final(v)@ == old(v)@ + s@,
{
    let ghost start = v@;
    let mut i: usize = 0;
    while i < s.len()
        invariant
            i <= s.len(),
            v@ == start + s@.take(i as int),
        decreases s.len() - i,
    {
        v.push(s[i]);
        i = i + 1;
        assert(v@ =~= start + s@.take(i as int));
    }
    assert(s@.take(s.len() as int) =~= s@);
}

/// The masked form of a token.
fn mask_bytes(b: &[u8]) -> (r: Vec<u8>)
    ensures
        r@ == masked_bytes(b@),
{
    let mut r: Vec<u8> = Vec::new();
    let n = b.len();
    if n > 6 {
        let mut i: usize = 0;
        while i < 3
            invariant
                n == b.len(),
                n > 6,
                i <= 3,
                r@ == b@.take(i as int),
            decreases 3 - i,
        {
            r.push(b[i]);
            i = i + 1;
            assert(r@ =~= b@.take(i as int));
        }
        r.push(42u8);
        r.push(42u8);
        r.push(42u8);
        let mut j: usize = n - 3;
        while j < n
            invariant
                n == b.len(),
                n > 6,
                n - 3 <= j <= n,
                r@ == b@.take(3) + stars() + b@.subrange(n - 3, j as int),
            decreases n - j,
        {
            r.push(b[j]);
            j = j + 1;
            assert(r@ =~= b@.take(3) + stars() + b@.subrange(n - 3, j as int));
        }
        assert(b@.subrange(n - 3, n as int) =~= b@.skip(n - 3));
    } else {
        r.push(42u8);
        r.push(42u8);
        r.push(42u8);
        assert(r@ =~= stars());
    }
    r
}

impl ValidationEvent {
    /// The level of the event's log line.
    pub fn level(&self) -> (r: &'static str)
        ensures
            r@ == level_of(event_view(*self)),
    {
        match self {
            ValidationEvent::NotListed { .. } => "WARN",
            ValidationEvent::Accepted { .. } => "INFO",
            _ => "ERROR",
        }
    }

    /// Whether the event's log message can be written (see [`renderable`]).
    pub fn can_render(&self) -> (r: bool)
        ensures
            r == renderable(event_view(*self)),
    {
        match self {
            ValidationEvent::Accepted { replacement, .. } => {
                let q = replacement.as_str();
                let n = q.as_bytes().len();
                n <= 6 || (q.is_char_boundary(3) && q.is_char_boundary(n - 3))
            },
            _ => true,
        }
    }

    /// The UTF-8 bytes of the event's log message (its level and the thread
    /// that wrote it are added by whoever prints it). An event whose masked
    /// replacement token would cut a character apart has no message.
    pub fn log_message(&self) -> (r: Vec<u8>)
        requires
            renderable(event_view(*self)),
        ensures
            r@ == log_bytes(event_view(*self)),
    {
        let mut r: Vec<u8> = Vec::new();
        match self {
            ValidationEvent::MissingHeader { route_path } => {
                push_all(&mut r, "Token validation error: path=".as_bytes());
                push_all(&mut r, route_path.as_str().as_bytes());
                push_all(&mut r, ", reason=missing_authorization_header".as_bytes());
            },
            ValidationEvent::InvalidHeader { route_path } => {
                push_all(&mut r, "Token validation error: path=".as_bytes());
                push_all(&mut r, route_path.as_str().as_bytes());
                push_all(&mut r, ", reason=invalid_authorization_header".as_bytes());
            },
            ValidationEvent::InvalidFormat { route_path } => {
                push_all(&mut r, "Token validation error: path=".as_bytes());
                push_all(&mut r, route_path.as_str().as_bytes());
                push_all(&mut r, ", reason=invalid_bearer_format".as_bytes());
            },
            ValidationEvent::NotListed { route_path, token } => {
                push_all(&mut r, "Token validation failed: path=".as_bytes());
                push_all(&mut r, route_path.as_str().as_bytes());
                push_all(&mut r, ", token=".as_bytes());
                let m = mask_bytes(token.as_slice());
                push_all(&mut r, m.as_slice());
                push_all(&mut r, ", reason=not_in_whitelist".as_bytes());
            },
            ValidationEvent::Accepted { route_path, token, replacement, count } => {
                push_all(&mut r, "Token validation success: path=".as_bytes());
                push_all(&mut r, route_path.as_str().as_bytes());
                push_all(&mut r, ", token=".as_bytes());
                let m = mask_bytes(token.as_slice());
                push_all(&mut r, m.as_slice());
                push_all(&mut r, "⟶".as_bytes());
                let n = mask_bytes(replacement.as_str().as_bytes());
                push_all(&mut r, n.as_slice());
                push_all(&mut r, ", count=".as_bytes());
                let d = decimal_text(*count);
                push_all(&mut r, d.as_str().as_bytes());
            },
        }
        r
    }
}

} // verus!
