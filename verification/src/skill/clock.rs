//! Timestamps and instance ids: the values that depend on the time.
use vstd::prelude::*;
use crate::text::{decimal, decimal_text, push_char};

verus! {

/// The readings a command takes from the clock: the time in seconds and in
/// milliseconds since the Unix epoch, and the counter that makes instance
/// ids unique within one process.
#[derive(Clone, Copy, Debug)]
pub struct Clock {
    pub secs: u64,
    pub millis: u64,
    pub next_id: u64,
}

/// The timestamp a record carries: the seconds, in decimal.
pub open spec fn timestamp(c: Clock) -> Seq<char> {
    decimal(c.secs as nat)
}

/// The current timestamp.
pub fn current_timestamp(clock: &Clock) -> (s: String)
    ensures
        s@ == timestamp(*clock),
{
    decimal_text(clock.secs)
}

/// The lower-case hexadecimal digits of `n`, as `format!("{n:x}")` writes them.
pub open spec fn hex(n: nat) -> Seq<char>
    decreases n,
{
    if n < 16 {
        seq![hex_char(n)]
    } else {
        hex(n / 16).push(hex_char(n % 16))
    }
}

pub open spec fn hex_char(d: nat) -> char {
    if d < 10 {
        crate::text::digit_char(d)
    } else if d == 10 { 'a' }
    else if d == 11 { 'b' }
    else if d == 12 { 'c' }
    else if d == 13 { 'd' }
    else if d == 14 { 'e' }
    else { 'f' }
}

fn hex_digit(d: u64) -> (c: char)
    requires
        d < 16,
    ensures
        c == hex_char(d as nat),
{
    if d == 0 { '0' } else if d == 1 { '1' } else if d == 2 { '2' } else if d == 3 { '3' }
    else if d == 4 { '4' } else if d == 5 { '5' } else if d == 6 { '6' } else if d == 7 { '7' }
    else if d == 8 { '8' } else if d == 9 { '9' } else if d == 10 { 'a' } else if d == 11 { 'b' }
    else if d == 12 { 'c' } else if d == 13 { 'd' } else if d == 14 { 'e' } else { 'f' }
}

fn hex_text(n: u64) -> (s: String)
    ensures
        s@ == hex(n as nat),
    decreases n,
{
    if n < 16 {
        let mut s = String::new();
        push_char(&mut s, hex_digit(n));
        assert(s@ =~= hex(n as nat));
        s
    } else {
        let mut s = hex_text(n / 16);
        push_char(&mut s, hex_digit(n % 16));
        s
    }
}

/// The instance id made from a time in milliseconds and a counter value.
pub open spec fn instance_id_text(millis: u64, counter: u64) -> Seq<char> {
    "inst_"@ + hex(millis as nat) + hex(counter as nat)
}

/// The counter `k` steps after `next`, wrapping as the process-wide counter does.
pub open spec fn counter_after(next: u64, k: nat) -> u64 {
    ((next as int + k) % 0x1_0000_0000_0000_0000) as u64
}

/// The `k`-th instance id the clock hands out from now on.
pub open spec fn fresh_id(c: Clock, k: nat) -> Seq<char> {
    instance_id_text(c.millis, counter_after(c.next_id, k))
}

/// A new instance id; the counter moves on by one.
pub fn new_instance_id(clock: &mut Clock) -> (s: String)
    ensures
        s@ == fresh_id(*old(clock), 0),
        final(clock).secs == old(clock).secs,
        final(clock).millis == old(clock).millis,
        final(clock).next_id == counter_after(old(clock).next_id, 1),
{
    let mut s = String::from_str("inst_");
    let a = hex_text(clock.millis);
    let b = hex_text(clock.next_id);
    s.append(a.as_str());
    s.append(b.as_str());
    assert(counter_after(clock.next_id, 0) == clock.next_id);
    clock.next_id = clock.next_id.wrapping_add(1);
    s
}

} // verus!
