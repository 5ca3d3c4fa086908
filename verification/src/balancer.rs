//! The load balancer: which backend a connection goes to, and how a
//! forwarded message is framed from the lines and body read off a stream.
use vstd::prelude::*;
use vstd::string::StringSliceAdditionalSpecFns;

use crate::text::{
    chars_of, eq_str, find_char, has_prefix_ignore_case, parse_usize, parse_usize_range,
    split_once, starts_with_ignore_case, trim, trim_range,
};

verus! {

broadcast use vstd::string::group_string_axioms;

/// The number of backend servers.
pub const MAX_PORT_NUM: u16 = 5;

/// The port of the first backend server; the others follow it.
pub const FIRST_BACKEND_PORT: u16 = 8081;

/// The backend port that the connection counted `current` goes to.
pub open spec fn backend_for(current: u16) -> u16 {
    (current % 5 + 8081) as u16
}

/// The ports of the backend servers, in order.
pub fn backend_ports() -> (ports: Vec<u16>)
    ensures
        ports.len() == MAX_PORT_NUM,
        forall|i: int| 0 <= i < ports.len() ==> ports[i] == FIRST_BACKEND_PORT + i,
{
    let mut ports: Vec<u16> = Vec::new();
    let mut i: u16 = 0;
    while i < MAX_PORT_NUM
        invariant
            i <= MAX_PORT_NUM,
            ports.len() == i,
            forall|j: int| 0 <= j < ports.len() ==> ports[j] == FIRST_BACKEND_PORT + j,
        decreases MAX_PORT_NUM - i,
    {
        ports.push(FIRST_BACKEND_PORT + i);
        i = i + 1;
    }
    ports
}

/// The backend port that the connection counted `current` goes to: the
/// backends take connections in turn.
pub fn backend_port(current: u16) -> (port: u16)
    ensures
        port == backend_for(current),
        FIRST_BACKEND_PORT <= port < FIRST_BACKEND_PORT + MAX_PORT_NUM,
{
    (current % MAX_PORT_NUM) + FIRST_BACKEND_PORT
}

/// The length that a `Content-Length` line gives: its value after the first
/// `:`, trimmed and read as a number, or 0 where it is not one.
pub open spec fn line_content_length(line: Seq<char>) -> usize {
    match split_once(line, ':') {
        Some((_, v)) => match parse_usize(trim(v, false)) {
            Some(n) => n,
            None => 0,
        },
        None => 0,
    }
}

/// A message being forwarded: the bytes taken so far, and the body length
/// that its head announces.
pub struct RequestFrame {
    pub request: Vec<u8>,
    pub content_length: usize,
}

impl RequestFrame {
    /// A message with nothing taken yet.
    pub fn new() -> (f: RequestFrame)
        ensures
            f.request@ == Seq::<u8>::empty(),
            f.content_length == 0,
    {
        RequestFrame { request: Vec::new(), content_length: 0 }
    }

    /// Takes one line of the message's head, as read with its line ending.
    /// The empty line (`\r\n`) ends the head: it is taken and `true`
    /// returned. Any other line is taken whole, and a `Content-Length` line
    /// (its name in any case) sets the body length.
    pub fn absorb_line(&mut self, line: &str) -> (done: bool)
        ensures
            done == (line@ == "\r\n"@),
            final(self).request@ == old(self).request@ + line.spec_bytes(),
            final(self).content_length == if !done && starts_with_ignore_case(
                line@,
                "content-length:"@,
            ) {
                line_content_length(line@)
            } else {
                old(self).content_length
            },
    {
        let v = chars_of(line);
        if eq_str(&v, "\r\n") {
            extend_bytes(&mut self.request, line.as_bytes());
            return true;
        }
        if has_prefix_ignore_case(&v, "content-length:") {
            self.content_length = match find_char(&v, ':') {
                Some(k) => {
                    let n = v.len();
                    let t = trim_range(&v, k + 1, n, false);
                    assert(v@.subrange(k + 1, n as int) =~= v@.skip(k + 1));
                    let m = t.len();
                    assert(t@.subrange(0, m as int) =~= t@);
                    match parse_usize_range(&t, 0, m) {
                        Some(x) => x,
                        None => 0,
                    }
                },
                None => 0,
            };
        }
        extend_bytes(&mut self.request, line.as_bytes());
        false
    }

    /// Takes the message's body.
    pub fn append_body(&mut self, body: &[u8])
        ensures
            final(self).request@ == old(self).request@ + body@,
            final(self).content_length == old(self).content_length,
    {
        extend_bytes(&mut self.request, body);
    }
}

/// Appends the bytes `b` to `v`.
fn extend_bytes(v: &mut Vec<u8>, b: &[u8])
    ensures
        final(v)@ == old(v)@ + b@,
{
    let mut i: usize = 0;
    while i < b.len()
        invariant
            i <= b.len(),
            v@ == old(v)@ + b@.take(i as int),
        decreases b.len() - i,
    {
        v.push(b[i]);
        i = i + 1;
        assert(v@ =~= old(v)@ + b@.take(i as int));
    }
    assert(b@.take(i as int) =~= b@);
}

} // verus!
