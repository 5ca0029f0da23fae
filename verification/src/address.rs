//! Hosts and socket addresses, and the textual form of IP addresses.
//!
//! An IPv4 literal is four decimal octets separated by dots, each of one to
//! three digits, without a leading zero and at most 255. An IPv6 literal is
//! up to eight groups of one to four hexadecimal digits separated by colons;
//! one `::` may stand for the groups that are zero, and the last two groups
//! may be written as an IPv4 literal.

use crate::text::{
    all_digits, chars_of, decimal_text, decimal_value, digit_of, is_digit,
    lemma_decimal_text_reads_back, parse_digits,
};
use vstd::prelude::*;

verus! {

/// An IP address: the key under which events of one origin are gathered.
#[derive(Clone, Copy, Debug, PartialEq, Eq, Hash, Structural)]
pub enum Host {
    /// An IPv4 address; the first octet is the most significant byte.
    V4(u32),
    /// An IPv6 address; the first group is the most significant 16 bits.
    V6(u128),
}

/// A host and a port on it.
#[derive(Clone, Copy, Debug, PartialEq, Eq, Hash, Structural)]
pub struct SocketAddress {
    pub host: Host,
    pub port: u16,
}

/// The number that four octets make, the first one most significant.
pub open spec fn octets_value(a: nat, b: nat, c: nat, d: nat) -> nat {
    ((a * 256 + b) * 256 + c) * 256 + d
}

impl Host {
    /// The IPv4 address `a.b.c.d`.
    pub fn v4(a: u8, b: u8, c: u8, d: u8) -> (host: Host)
        ensures
            host == Host::V4(octets_value(a as nat, b as nat, c as nat, d as nat) as u32),
    {
        Host::V4(((a as u32 * 256 + b as u32) * 256 + c as u32) * 256 + d as u32)
    }

    /// The host that `text` writes as an IPv4 or IPv6 literal, `None` for
    /// any other text.
    pub fn parse(text: &str) -> (host: Option<Host>)
        ensures
            host == host_of_text(text@),
    {
        parse_host(&chars_of(text))
    }
}

/// A hexadecimal digit, in either case.
pub open spec fn is_hex_digit(c: char) -> bool {
    is_digit(c) || 'a' <= c <= 'f' || 'A' <= c <= 'F'
}

/// The number a hexadecimal digit stands for.
pub open spec fn hex_digit_value(c: char) -> nat {
    if is_digit(c) {
        (c as int - '0' as int) as nat
    } else if 'a' <= c <= 'f' {
        (c as int - 'a' as int + 10) as nat
    } else {
        (c as int - 'A' as int + 10) as nat
    }
}

/// The number that the digits of `s` write in base sixteen.
pub open spec fn hex_value(s: Seq<char>) -> nat
    decreases s.len(),
{
    if s.len() == 0 {
        0
    } else {
        hex_value(s.drop_last()) * 16 + hex_digit_value(s.last())
    }
}

/// Whether `c` may stand in a run of digits: hexadecimal ones if `hex`,
/// decimal ones otherwise.
pub open spec fn in_run(c: char, hex: bool) -> bool {
    if hex {
        is_hex_digit(c)
    } else {
        is_digit(c)
    }
}

/// Where the longest run of digits that starts at `from` ends.
pub open spec fn run_end(s: Seq<char>, from: int, hex: bool) -> int
    decreases s.len() - from,
{
    if 0 <= from < s.len() && in_run(s[from], hex) {
        run_end(s, from + 1, hex)
    } else {
        from
    }
}

/// The octet written at `at`, and where it ends: the whole run of decimal
/// digits there, if it has one to three digits, no leading zero, and a value
/// of at most 255.
pub open spec fn octet_at(s: Seq<char>, at: int) -> Option<(nat, int)> {
    let end = run_end(s, at, false);
    let digits = s.subrange(at, end);
    if 1 <= end - at <= 3 && (end - at == 1 || s[at] != '0') && decimal_value(digits) <= 255 {
        Some((decimal_value(digits), end))
    } else {
        None
    }
}

/// The octet written after a dot at `at`.
pub open spec fn dotted_octet_at(s: Seq<char>, at: int) -> Option<(nat, int)> {
    if 0 <= at < s.len() && s[at] == '.' {
        octet_at(s, at + 1)
    } else {
        None
    }
}

/// The IPv4 literal written at `at`, as a number, and where it ends.
pub open spec fn ipv4_at(s: Seq<char>, at: int) -> Option<(nat, int)> {
    match octet_at(s, at) {
        None => None,
        Some((a, after_a)) => match dotted_octet_at(s, after_a) {
            None => None,
            Some((b, after_b)) => match dotted_octet_at(s, after_b) {
                None => None,
                Some((c, after_c)) => match dotted_octet_at(s, after_c) {
                    None => None,
                    Some((d, after_d)) => Some((octets_value(a, b, c, d), after_d)),
                },
            },
        },
    }
}

/// The group written at `at`, and where it ends: the whole run of
/// hexadecimal digits there, if it has one to four digits.
pub open spec fn group_at(s: Seq<char>, at: int) -> Option<(nat, int)> {
    let end = run_end(s, at, true);
    if 1 <= end - at <= 4 {
        Some((hex_value(s.subrange(at, end)), end))
    } else {
        None
    }
}

/// A sequence of groups read from a literal.
pub struct GroupRun {
    /// The groups, in the order written.
    pub groups: Seq<nat>,
    /// Where the last of them ends.
    pub end: int,
    /// Whether the last two were written as an IPv4 literal.
    pub dotted: bool,
}

/// The groups written at `at`, separated by colons, when `index` groups
/// have been read before them and no more than `limit` may be read in all.
///
/// Reading stops before the first colon that no group follows. Where at
/// least two groups may still be read and an IPv4 literal is written, it
/// gives the last two groups and reading stops after it.
pub open spec fn groups_at(s: Seq<char>, at: int, index: nat, limit: nat) -> GroupRun
    decreases limit - index,
{
    let stop = GroupRun { groups: Seq::empty(), end: at, dotted: false };
    if index >= limit {
        stop
    } else if index > 0 && !(0 <= at < s.len() && s[at] == ':') {
        stop
    } else {
        let start = if index == 0 {
            at
        } else {
            at + 1
        };
        if index + 1 < limit && ipv4_at(s, start) is Some {
            let (v, end) = ipv4_at(s, start).unwrap();
            GroupRun { groups: seq![v / 65536, v % 65536], end, dotted: true }
        } else {
            match group_at(s, start) {
                Some((g, end)) => {
                    let rest = groups_at(s, end, index + 1, limit);
                    GroupRun { groups: seq![g] + rest.groups, end: rest.end, dotted: rest.dotted }
                },
                None => stop,
            }
        }
    }
}

/// The number that groups make, the first one most significant.
pub open spec fn groups_value(groups: Seq<nat>) -> nat
    decreases groups.len(),
{
    if groups.len() == 0 {
        0
    } else {
        groups_value(groups.drop_last()) * 65536 + groups.last()
    }
}

/// `count` groups that are zero.
pub open spec fn zero_groups(count: int) -> Seq<nat> {
    Seq::new(
        if count > 0 {
            count as nat
        } else {
            0
        },
        |i: int| 0nat,
    )
}

/// The address that `s` writes as an IPv4 literal, as a number.
pub open spec fn ipv4_of_text(s: Seq<char>) -> Option<nat> {
    match ipv4_at(s, 0) {
        Some((v, end)) => if end == s.len() {
            Some(v)
        } else {
            None
        },
        None => None,
    }
}

/// The eight groups that `s` writes as an IPv6 literal.
///
/// Either eight groups are written in full, or fewer are written before a
/// `::`, none of them as an IPv4 literal, and after it at most as many as
/// leave one group for the `::` to stand for.
pub open spec fn ipv6_groups_of_text(s: Seq<char>) -> Option<Seq<nat>> {
    let head = groups_at(s, 0, 0, 8);
    if head.groups.len() == 8 {
        if head.end == s.len() {
            Some(head.groups)
        } else {
            None
        }
    } else if head.dotted {
        None
    } else if !(head.end + 1 < s.len() && s[head.end] == ':' && s[head.end + 1] == ':') {
        None
    } else {
        let tail = groups_at(s, head.end + 2, 0, (7 - head.groups.len()) as nat);
        if tail.end == s.len() {
            Some(head.groups + zero_groups(8 - head.groups.len() - tail.groups.len()) + tail.groups)
        } else {
            None
        }
    }
}

/// The host that `s` writes: an IPv4 literal, or else an IPv6 literal.
pub open spec fn host_of_text(s: Seq<char>) -> Option<Host> {
    match ipv4_of_text(s) {
        Some(v) => Some(Host::V4(v as u32)),
        None => match ipv6_groups_of_text(s) {
            Some(groups) => Some(Host::V6(groups_value(groups) as u128)),
            None => None,
        },
    }
}

/// The value of a hexadecimal digit, or `None` for any other character.
pub fn hex_digit_of(c: char) -> (d: Option<u8>)
    ensures
        d is Some <==> is_hex_digit(c),
        d matches Some(v) ==> v == hex_digit_value(c),
{
    if c >= '0' && c <= '9' {
        Some((c as u32 - '0' as u32) as u8)
    } else if c >= 'a' && c <= 'f' {
        Some((c as u32 - 'a' as u32 + 10) as u8)
    } else if c >= 'A' && c <= 'F' {
        Some((c as u32 - 'A' as u32 + 10) as u8)
    } else {
        None
    }
}

/// Whether `c` may stand in a run of digits.
fn belongs_to_run(c: char, hex: bool) -> (b: bool)
    ensures
        b == in_run(c, hex),
{
    if hex {
        hex_digit_of(c).is_some()
    } else {
        digit_of(c).is_some()
    }
}

/// Finds where the run of digits that starts at `from` ends.
fn scan_run(chars: &Vec<char>, from: usize, hex: bool) -> (end: usize)
    requires
        from <= chars.len(),
    ensures
        end == run_end(chars@, from as int, hex),
        from <= end <= chars.len(),
        forall|k: int| from <= k < end ==> in_run(#[trigger] chars@[k], hex),
{
    let mut end: usize = from;
    while end < chars.len() && belongs_to_run(chars[end], hex)
        invariant
            from <= end <= chars.len(),
            run_end(chars@, from as int, hex) == run_end(chars@, end as int, hex),
            forall|k: int| from <= k < end ==> in_run(#[trigger] chars@[k], hex),
        decreases chars.len() - end,
    {
        end += 1;
    }
    end
}

/// Reads the octet written at `at`.
fn read_octet(chars: &Vec<char>, at: usize) -> (octet: Option<(u8, usize)>)
    requires
        at <= chars.len(),
    ensures
        octet is Some <==> octet_at(chars@, at as int) is Some,
        octet matches Some(o) ==> octet_at(chars@, at as int) == Some((o.0 as nat, o.1 as int))
            && at < o.1 <= chars.len(),
{
    let end = scan_run(chars, at, false);
    let len: usize = end - at;
    if len < 1 || len > 3 {
        return None;
    }
    if len > 1 && chars[at] == '0' {
        return None;
    }
    assert(all_digits(chars@.subrange(at as int, end as int)));
    match parse_digits(chars, at, end, 255) {
        Some(v) => Some((v as u8, end)),
        None => None,
    }
}

/// Reads the octet written after a dot at `at`.
fn read_dotted_octet(chars: &Vec<char>, at: usize) -> (octet: Option<(u8, usize)>)
    requires
        at <= chars.len(),
    ensures
        octet is Some <==> dotted_octet_at(chars@, at as int) is Some,
        octet matches Some(o) ==> dotted_octet_at(chars@, at as int) == Some(
            (o.0 as nat, o.1 as int),
        ) && at < o.1 <= chars.len(),
{
    if at < chars.len() && chars[at] == '.' {
        read_octet(chars, at + 1)
    } else {
        None
    }
}

/// Reads the IPv4 literal written at `at`.
fn read_ipv4(chars: &Vec<char>, at: usize) -> (address: Option<(u32, usize)>)
    requires
        at <= chars.len(),
    ensures
        address is Some <==> ipv4_at(chars@, at as int) is Some,
        address matches Some(v) ==> ipv4_at(chars@, at as int) == Some((v.0 as nat, v.1 as int))
            && at < v.1 <= chars.len(),
{
    let (a, after_a) = match read_octet(chars, at) {
        Some(o) => o,
        None => {
            return None;
        },
    };
    let (b, after_b) = match read_dotted_octet(chars, after_a) {
        Some(o) => o,
        None => {
            return None;
        },
    };
    let (c, after_c) = match read_dotted_octet(chars, after_b) {
        Some(o) => o,
        None => {
            return None;
        },
    };
    let (d, after_d) = match read_dotted_octet(chars, after_c) {
        Some(o) => o,
        None => {
            return None;
        },
    };
    Some((((a as u32 * 256 + b as u32) * 256 + c as u32) * 256 + d as u32, after_d))
}

/// Reads the group written at `at`.
fn read_group(chars: &Vec<char>, at: usize) -> (group: Option<(u16, usize)>)
    requires
        at <= chars.len(),
    ensures
        group is Some <==> group_at(chars@, at as int) is Some,
        group matches Some(g) ==> group_at(chars@, at as int) == Some((g.0 as nat, g.1 as int))
            && at < g.1 <= chars.len(),
{
    let end = scan_run(chars, at, true);
    if end - at < 1 || end - at > 4 {
        return None;
    }
    let ghost digits = chars@.subrange(at as int, end as int);
    let mut acc: u32 = 0;
    let mut i: usize = at;
    while i < end
        invariant
            at <= i <= end <= chars.len(),
            end - at <= 4,
            digits == chars@.subrange(at as int, end as int),
            forall|k: int| at <= k < end ==> is_hex_digit(#[trigger] chars@[k]),
            acc == hex_value(digits.take(i - at)),
            i - at == 0 ==> acc == 0,
            i - at == 1 ==> acc < 0x10,
            i - at == 2 ==> acc < 0x100,
            i - at == 3 ==> acc < 0x1000,
            i - at == 4 ==> acc < 0x10000,
        decreases end - i,
    {
        proof {
            assert(digits.take(i - at + 1).drop_last() == digits.take(i - at));
            assert(digits.take(i - at + 1).last() == chars@[i as int]);
        }
        match hex_digit_of(chars[i]) {
            Some(d) => {
                acc = acc * 16 + d as u32;
            },
            None => {
                return None;
            },
        }
        i += 1;
    }
    assert(digits.take(i - at) == digits);
    Some((acc as u16, end))
}

/// The groups read so far, as numbers.
pub open spec fn numbers_of(groups: Seq<u16>) -> Seq<nat> {
    groups.map_values(|g: u16| g as nat)
}

/// The numbers of a sequence with one more group are the numbers of the
/// sequence with one more number.
proof fn lemma_numbers_push(groups: Seq<u16>, g: u16)
    ensures
        numbers_of(groups.push(g)) == numbers_of(groups).push(g as nat),
{
}

/// Reads up to `limit` groups written at `at`.
fn read_groups(chars: &Vec<char>, at: usize, limit: usize) -> (run: (Vec<u16>, usize, bool))
    requires
        at <= chars.len(),
        limit <= 8,
    ensures
        numbers_of(run.0@) == groups_at(chars@, at as int, 0, limit as nat).groups,
        run.1 == groups_at(chars@, at as int, 0, limit as nat).end,
        run.2 == groups_at(chars@, at as int, 0, limit as nat).dotted,
        run.0.len() <= limit,
        at <= run.1 <= chars.len(),
{
    let ghost whole = groups_at(chars@, at as int, 0, limit as nat);
    let mut groups: Vec<u16> = Vec::new();
    let mut cur: usize = at;
    let mut index: usize = 0;
    assert(numbers_of(groups@) + whole.groups == whole.groups);
    while index < limit
        invariant
            at <= cur <= chars.len(),
            index <= limit <= 8,
            groups.len() == index,
            whole == groups_at(chars@, at as int, 0, limit as nat),
            whole.groups == numbers_of(groups@) + groups_at(
                chars@,
                cur as int,
                index as nat,
                limit as nat,
            ).groups,
            whole.end == groups_at(chars@, cur as int, index as nat, limit as nat).end,
            whole.dotted == groups_at(chars@, cur as int, index as nat, limit as nat).dotted,
        decreases limit - index,
    {
        let ghost rest = groups_at(chars@, cur as int, index as nat, limit as nat);
        if index > 0 && !(cur < chars.len() && chars[cur] == ':') {
            assert(numbers_of(groups@) + rest.groups == numbers_of(groups@));
            return (groups, cur, false);
        }
        let start: usize = if index == 0 {
            cur
        } else {
            cur + 1
        };
        if index + 1 < limit {
            match read_ipv4(chars, start) {
                Some((v, end)) => {
                    let ghost before = numbers_of(groups@);
                    groups.push((v / 65536) as u16);
                    groups.push((v % 65536) as u16);
                    assert(numbers_of(groups@) == before + seq![
                        (v / 65536) as nat,
                        (v % 65536) as nat,
                    ]);
                    return (groups, end, true);
                },
                None => {},
            }
        }
        match read_group(chars, start) {
            Some((g, end)) => {
                let ghost before = numbers_of(groups@);
                let ghost next = groups_at(chars@, end as int, (index + 1) as nat, limit as nat);
                groups.push(g);
                assert(numbers_of(groups@) == before + seq![g as nat]);
                assert(before + (seq![g as nat] + next.groups) == (before + seq![g as nat])
                    + next.groups);
                cur = end;
                index += 1;
            },
            None => {
                assert(numbers_of(groups@) + rest.groups == numbers_of(groups@));
                return (groups, cur, false);
            },
        }
    }
    assert(numbers_of(groups@) + Seq::<nat>::empty() == numbers_of(groups@));
    (groups, cur, false)
}

/// One more than the largest number that `count` groups can make.
pub open spec fn groups_bound(count: nat) -> nat
    decreases count,
{
    if count == 0 {
        1
    } else {
        groups_bound((count - 1) as nat) * 65536
    }
}

/// Eight groups make a number of 128 bits.
proof fn lemma_groups_bound()
    ensures
        groups_bound(8) == 0x1_0000_0000_0000_0000_0000_0000_0000_0000,
{
    assert(groups_bound(0) == 1);
    assert(groups_bound(1) == 0x1_0000);
    assert(groups_bound(2) == 0x1_0000_0000);
    assert(groups_bound(3) == 0x1_0000_0000_0000);
    assert(groups_bound(4) == 0x1_0000_0000_0000_0000);
    assert(groups_bound(5) == 0x1_0000_0000_0000_0000_0000);
    assert(groups_bound(6) == 0x1_0000_0000_0000_0000_0000_0000);
    assert(groups_bound(7) == 0x1_0000_0000_0000_0000_0000_0000_0000);
}

/// The number that at most eight 16-bit groups make.
fn value_of_groups(groups: &Vec<u16>) -> (value: u128)
    requires
        groups.len() <= 8,
    ensures
        value == groups_value(numbers_of(groups@)),
{
    let ghost numbers = numbers_of(groups@);
    let mut value: u128 = 0;
    let mut i: usize = 0;
    while i < groups.len()
        invariant
            i <= groups.len() <= 8,
            numbers == numbers_of(groups@),
            value == groups_value(numbers.take(i as int)),
            i < 8 ==> value < groups_bound(i as nat),
        decreases groups.len() - i,
    {
        proof {
            assert(numbers.take(i + 1).drop_last() == numbers.take(i as int));
            assert(numbers.take(i + 1).last() == groups@[i as int] as nat);
            lemma_groups_bound();
            assert(groups_bound((i + 1) as nat) == groups_bound(i as nat) * 65536);
            assert(groups_bound((i + 1) as nat) <= groups_bound(8)) by {
                lemma_groups_bound_grows((i + 1) as nat, 8);
            }
        }
        value = value * 65536 + groups[i] as u128;
        i += 1;
    }
    assert(numbers.take(i as int) == numbers);
    value
}

/// A larger count of groups has a larger bound.
proof fn lemma_groups_bound_grows(a: nat, b: nat)
    requires
        a <= b,
    ensures
        groups_bound(a) <= groups_bound(b),
        groups_bound(a) >= 1,
    decreases b,
{
    if a < b {
        lemma_groups_bound_grows(a, (b - 1) as nat);
    } else if a > 0 {
        lemma_groups_bound_grows((a - 1) as nat, (a - 1) as nat);
    }
}

/// Reads all of `chars` as an IPv6 literal.
fn read_ipv6(chars: &Vec<char>) -> (address: Option<u128>)
    ensures
        address is Some <==> ipv6_groups_of_text(chars@) is Some,
        address matches Some(v) ==> v == groups_value(ipv6_groups_of_text(chars@).unwrap()),
{
    let (head, head_end, head_dotted) = read_groups(chars, 0, 8);
    if head.len() == 8 {
        if head_end == chars.len() {
            return Some(value_of_groups(&head));
        } else {
            return None;
        }
    }
    if head_dotted {
        return None;
    }
    if !(head_end < chars.len() && head_end + 1 < chars.len() && chars[head_end] == ':'
        && chars[head_end + 1] == ':') {
        return None;
    }
    let (tail, tail_end, _) = read_groups(chars, head_end + 2, 7 - head.len());
    if tail_end != chars.len() {
        return None;
    }
    let ghost written = numbers_of(head@) + zero_groups(8 - head.len() - tail.len())
        + numbers_of(tail@);
    let mut all: Vec<u16> = head;
    let ghost head_numbers = numbers_of(all@);
    let zeros: usize = 8 - all.len() - tail.len();
    let mut i: usize = 0;
    while i < zeros
        invariant
            i <= zeros,
            zeros + head_numbers.len() + tail.len() == 8,
            numbers_of(all@) == head_numbers + zero_groups(i as int),
        decreases zeros - i,
    {
        proof {
            lemma_numbers_push(all@, 0);
            assert(zero_groups(i + 1) == zero_groups(i as int).push(0));
        }
        all.push(0);
        assert(numbers_of(all@) == head_numbers + zero_groups(i + 1));
        i += 1;
    }
    let ghost padded = numbers_of(all@);
    let mut j: usize = 0;
    while j < tail.len()
        invariant
            j <= tail.len(),
            padded.len() + tail.len() == 8,
            numbers_of(all@) == padded + numbers_of(tail@).take(j as int),
        decreases tail.len() - j,
    {
        proof {
            lemma_numbers_push(all@, tail@[j as int]);
            assert(numbers_of(tail@).take(j + 1) == numbers_of(tail@).take(j as int).push(
                tail@[j as int] as nat,
            ));
        }
        all.push(tail[j]);
        assert(numbers_of(all@) == padded + numbers_of(tail@).take(j + 1));
        j += 1;
    }
    assert(numbers_of(tail@).take(j as int) == numbers_of(tail@));
    assert(numbers_of(all@) == written);
    Some(value_of_groups(&all))
}

/// Reads all of `chars` as an IP address literal.
pub fn parse_host(chars: &Vec<char>) -> (host: Option<Host>)
    ensures
        host == host_of_text(chars@),
{
    match read_ipv4(chars, 0) {
        Some((v, end)) => {
            if end == chars.len() {
                return Some(Host::V4(v));
            }
        },
        None => {},
    }
    match read_ipv6(chars) {
        Some(v) => Some(Host::V6(v)),
        None => None,
    }
}

/// The usual text of the IPv4 address with the octets `a`, `b`, `c` and `d`.
pub open spec fn dotted_quad(a: nat, b: nat, c: nat, d: nat) -> Seq<char> {
    decimal_text(a) + seq!['.'] + decimal_text(b) + seq!['.'] + decimal_text(c) + seq!['.']
        + decimal_text(d)
}

/// A run of digits ends where the first character that is no digit stands.
proof fn lemma_run_ends_at(s: Seq<char>, from: int, end: int, hex: bool)
    requires
        0 <= from <= end <= s.len(),
        forall|k: int| from <= k < end ==> in_run(#[trigger] s[k], hex),
        end == s.len() || !in_run(s[end], hex),
    ensures
        run_end(s, from, hex) == end,
    decreases end - from,
{
    if from < end {
        lemma_run_ends_at(s, from + 1, end, hex);
    }
}

/// The decimal text of an octet has one to three digits and no leading
/// zero.
proof fn lemma_octet_text_shape(n: nat)
    requires
        n <= 255,
    ensures
        1 <= decimal_text(n).len() <= 3,
        decimal_text(n).len() == 1 || decimal_text(n)[0] != '0',
{
    reveal_with_fuel(decimal_text, 3);
    if n >= 100 {
        assert(decimal_text(n / 100).len() == 1);
        assert(decimal_text(n / 10) == decimal_text(n / 100).push(
            crate::text::digit_char((n / 10) % 10),
        ));
    } else if n >= 10 {
        assert(decimal_text(n / 10).len() == 1);
    }
}

/// Where the decimal text of an octet is written at `at` and a dot or the
/// end of the text follows, that octet is read there.
proof fn lemma_octet_is_read(s: Seq<char>, at: int, n: nat)
    requires
        n <= 255,
        0 <= at,
        at + decimal_text(n).len() <= s.len(),
        s.subrange(at, at + decimal_text(n).len()) == decimal_text(n),
        at + decimal_text(n).len() == s.len() || s[at + decimal_text(n).len()] == '.',
    ensures
        octet_at(s, at) == Some((n, at + decimal_text(n).len())),
{
    let text = decimal_text(n);
    let end = at + text.len();
    lemma_decimal_text_reads_back(n);
    lemma_octet_text_shape(n);
    assert forall|k: int| at <= k < end implies in_run(#[trigger] s[k], false) by {
        assert(s[k] == text[k - at]);
    }
    lemma_run_ends_at(s, at, end, false);
    assert(s[at] == text[0]);
}

/// Every IPv4 address is read back from its usual text.
pub proof fn lemma_dotted_quad_reads_back(a: nat, b: nat, c: nat, d: nat)
    requires
        a <= 255,
        b <= 255,
        c <= 255,
        d <= 255,
    ensures
        ipv4_of_text(dotted_quad(a, b, c, d)) == Some(octets_value(a, b, c, d)),
        host_of_text(dotted_quad(a, b, c, d)) == Some(
            Host::V4(octets_value(a, b, c, d) as u32),
        ),
{
    let s = dotted_quad(a, b, c, d);
    let (ta, tb, tc, td) = (decimal_text(a), decimal_text(b), decimal_text(c), decimal_text(d));
    let after_a = ta.len() as int;
    let after_b = after_a + 1 + tb.len();
    let after_c = after_b + 1 + tc.len();
    let after_d = after_c + 1 + td.len();
    assert(s.len() == after_d);
    assert(s.subrange(0, after_a) == ta);
    assert(s.subrange(after_a + 1, after_b) == tb);
    assert(s.subrange(after_b + 1, after_c) == tc);
    assert(s.subrange(after_c + 1, after_d) == td);
    assert(s[after_a] == '.');
    assert(s[after_b] == '.');
    assert(s[after_c] == '.');
    lemma_octet_is_read(s, 0, a);
    lemma_octet_is_read(s, after_a + 1, b);
    lemma_octet_is_read(s, after_b + 1, c);
    lemma_octet_is_read(s, after_c + 1, d);
}

/// The character that writes a hexadecimal digit, in lower case.
pub open spec fn hex_digit_char(d: nat) -> char {
    if d < 10 {
        (d + '0' as nat) as char
    } else {
        (d - 10 + 'a' as nat) as char
    }
}

/// The hexadecimal text of a number, in lower case and without leading
/// zeros.
pub open spec fn hex_text(n: nat) -> Seq<char>
    decreases n,
{
    if n < 16 {
        seq![hex_digit_char(n)]
    } else {
        hex_text(n / 16).push(hex_digit_char(n % 16))
    }
}

/// The text of groups that each follow a colon.
pub open spec fn colon_groups(groups: Seq<nat>) -> Seq<char>
    decreases groups.len(),
{
    if groups.len() == 0 {
        Seq::empty()
    } else {
        seq![':'] + hex_text(groups.first()) + colon_groups(groups.drop_first())
    }
}

/// The full text of an IPv6 address: its eight groups, separated by colons.
pub open spec fn full_groups_text(groups: Seq<nat>) -> Seq<char> {
    hex_text(groups.first()) + colon_groups(groups.drop_first())
}

/// The hexadecimal text of a number is made of hexadecimal digits and
/// writes that number.
proof fn lemma_hex_text_reads_back(n: nat)
    ensures
        hex_text(n).len() > 0,
        forall|i: int| 0 <= i < hex_text(n).len() ==> is_hex_digit(#[trigger] hex_text(n)[i]),
        hex_value(hex_text(n)) == n,
    decreases n,
{
    let text = hex_text(n);
    if n < 16 {
        assert(text.drop_last() == Seq::<char>::empty());
        assert(hex_value(text.drop_last()) == 0);
        assert(hex_digit_value(text.last()) == n);
    } else {
        lemma_hex_text_reads_back(n / 16);
        assert(text.drop_last() == hex_text(n / 16));
        assert(text.last() == hex_digit_char(n % 16));
        assert(hex_digit_value(text.last()) == n % 16);
        assert forall|i: int| 0 <= i < text.len() implies is_hex_digit(#[trigger] text[i]) by {
            if i < text.len() - 1 {
                assert(text[i] == hex_text(n / 16)[i]);
            }
        }
    }
}

/// The hexadecimal text of a group has at most four digits.
proof fn lemma_group_text_is_short(n: nat)
    requires
        n < 65536,
    ensures
        hex_text(n).len() <= 4,
{
    reveal_with_fuel(hex_text, 4);
    if n >= 4096 {
        assert(hex_text(n / 4096).len() == 1);
        assert(hex_text(n / 256).len() == 2);
        assert(hex_text(n / 16).len() == 3);
    } else if n >= 256 {
        assert(hex_text(n / 256).len() == 1);
        assert(hex_text(n / 16).len() == 2);
    } else if n >= 16 {
        assert(hex_text(n / 16).len() == 1);
    }
}

/// Where the hexadecimal text of a group is written at `at` and a colon or
/// the end of the text follows, that group is read there, and no IPv4
/// literal.
proof fn lemma_group_is_read(s: Seq<char>, at: int, n: nat)
    requires
        n < 65536,
        0 <= at,
        at + hex_text(n).len() <= s.len(),
        s.subrange(at, at + hex_text(n).len()) == hex_text(n),
        at + hex_text(n).len() == s.len() || s[at + hex_text(n).len()] == ':',
    ensures
        group_at(s, at) == Some((n, at + hex_text(n).len())),
        ipv4_at(s, at) is None,
{
    let text = hex_text(n);
    let end = at + text.len();
    lemma_hex_text_reads_back(n);
    lemma_group_text_is_short(n);
    assert forall|k: int| at <= k < end implies in_run(#[trigger] s[k], true) by {
        assert(s[k] == text[k - at]);
    }
    lemma_run_ends_at(s, at, end, true);
    lemma_digits_end_within(s, at, end);
}

/// A run of decimal digits that starts in a run of hexadecimal digits ends
/// within it, and no dot follows it.
proof fn lemma_digits_end_within(s: Seq<char>, at: int, end: int)
    requires
        0 <= at <= end <= s.len(),
        forall|k: int| at <= k < end ==> is_hex_digit(#[trigger] s[k]),
        end == s.len() || s[end] == ':',
    ensures
        at <= run_end(s, at, false) <= end,
        dotted_octet_at(s, run_end(s, at, false)) is None,
    decreases end - at,
{
    if at < end && is_digit(s[at]) {
        lemma_digits_end_within(s, at + 1, end);
    }
}

/// Groups that are written one after the other, each after a colon, up to
/// the end of the text, are read as they are written.
proof fn lemma_colon_groups_are_read(s: Seq<char>, at: int, index: nat, groups: Seq<nat>)
    requires
        0 <= at <= s.len(),
        1 <= index,
        index + groups.len() == 8,
        forall|i: int| 0 <= i < groups.len() ==> #[trigger] groups[i] < 65536,
        s.subrange(at, s.len() as int) == colon_groups(groups),
    ensures
        groups_at(s, at, index, 8) == (GroupRun { groups, end: s.len() as int, dotted: false }),
    decreases groups.len(),
{
    let rest = colon_groups(groups);
    if groups.len() == 0 {
        assert(s.subrange(at, s.len() as int).len() == 0);
        assert(groups == Seq::<nat>::empty());
    } else {
        let text = hex_text(groups.first());
        let later = colon_groups(groups.drop_first());
        let end = at + 1 + text.len();
        assert(rest == seq![':'] + text + later);
        assert(s.len() - at == 1 + text.len() + later.len());
        assert(s[at] == rest[0]);
        assert(s.subrange(at + 1, end) == text) by {
            assert forall|k: int| 0 <= k < text.len() implies s.subrange(at + 1, end)[k]
                == text[k] by {
                assert(s[at + 1 + k] == rest[1 + k]);
            }
        }
        assert(s.subrange(end, s.len() as int) == later) by {
            assert forall|k: int| 0 <= k < later.len() implies s.subrange(end, s.len() as int)[k]
                == later[k] by {
                assert(s[end + k] == rest[1 + text.len() + k]);
            }
        }
        if groups.len() > 1 {
            assert(later == seq![':'] + hex_text(groups.drop_first().first()) + colon_groups(
                groups.drop_first().drop_first(),
            ));
            assert(s[end] == later[0]);
        }
        lemma_group_is_read(s, at + 1, groups.first());
        assert forall|i: int| 0 <= i < groups.drop_first().len() implies #[trigger] groups.drop_first()[i]
            < 65536 by {
            assert(groups.drop_first()[i] == groups[i + 1]);
        }
        lemma_colon_groups_are_read(s, end, index + 1, groups.drop_first());
        assert(seq![groups.first()] + groups.drop_first() == groups);
    }
}

/// Every IPv6 address is read back from its full text.
pub proof fn lemma_full_groups_read_back(groups: Seq<nat>)
    requires
        groups.len() == 8,
        forall|i: int| 0 <= i < groups.len() ==> #[trigger] groups[i] < 65536,
    ensures
        ipv6_groups_of_text(full_groups_text(groups)) == Some(groups),
        host_of_text(full_groups_text(groups)) == Some(Host::V6(groups_value(groups) as u128)),
{
    let s = full_groups_text(groups);
    let text = hex_text(groups.first());
    let later = colon_groups(groups.drop_first());
    let end = text.len() as int;
    assert(s.subrange(0, end) == text);
    assert(s.subrange(end, s.len() as int) == later);
    assert(later == seq![':'] + hex_text(groups.drop_first().first()) + colon_groups(
        groups.drop_first().drop_first(),
    ));
    assert(s[end] == later[0]);
    lemma_group_is_read(s, 0, groups.first());
    assert forall|i: int| 0 <= i < groups.drop_first().len() implies #[trigger] groups.drop_first()[i]
        < 65536 by {
        assert(groups.drop_first()[i] == groups[i + 1]);
    }
    lemma_colon_groups_are_read(s, end, 1, groups.drop_first());
    assert(seq![groups.first()] + groups.drop_first() == groups);
    assert(groups_at(s, 0, 0, 8) == (GroupRun { groups, end: s.len() as int, dotted: false }));
    assert(ipv4_of_text(s) is None);
}

} // verus!
