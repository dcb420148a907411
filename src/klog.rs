//! The ring-buffer dialect: `<priority>[seconds.fraction] message`, where
//! either bracketed prefix may be missing.
use vstd::prelude::*;
use crate::entry::{
    facility_of, lemma_facility_code, lemma_level_code, level_of, Entry, EntryModel, LogFacility,
    LogLevel,
};
use crate::scan::{find_in, numeral_u64, parse_u64};
use crate::text::{
    all_digits, chars_of, decimal, digit_value, find_char, fixed_decimal, is_digit, is_numeral,
    lacks, lemma_decimal, lemma_fixed_decimal, lemma_lacks_concat, lemma_numeral_lacks,
    lemma_numeral_push, lemma_pow10_mono, lemma_split_at, numeral_value, pow10, push_char,
    push_decimal, push_fixed_decimal, push_range, push_str, spaces,
};

verus! {

/// How many spaces `s` starts with.
pub open spec fn leading_spaces(s: Seq<char>) -> nat
    decreases s.len(),
{
    if s.len() > 0 && s[0] == ' ' {
        1 + leading_spaces(s.skip(1))
    } else {
        0
    }
}

/// The first six digits of a fraction, zeros added where it is shorter.
pub open spec fn micro_digits(frac: Seq<char>) -> Seq<char> {
    Seq::new(6, |i: int| if i < frac.len() { frac[i] } else { '0' })
}

/// The microseconds written inside a timestamp bracket: optional spaces, then
/// `seconds.fraction`; digits of the fraction past the sixth are dropped.
pub open spec fn bracket_micros(inner: Seq<char>) -> Option<nat> {
    let b = inner.skip(leading_spaces(inner) as int);
    match find_char(b, '.') {
        Some(d) => {
            let frac = b.skip(d + 1);
            match numeral_u64(b.take(d)) {
                Some(secs) => if is_numeral(frac) && secs * 1000000 + numeral_value(
                    micro_digits(frac),
                ) <= u64::MAX {
                    Some(secs * 1000000 + numeral_value(micro_digits(frac)))
                } else {
                    None
                },
                None => None,
            }
        },
        None => None,
    }
}

/// A well-formed `<priority>` at the start of `s`: its value (below 192) and
/// its length.
pub open spec fn priority_prefix(s: Seq<char>) -> Option<(nat, nat)> {
    if s.len() > 0 && s[0] == '<' {
        match find_char(s.skip(1), '>') {
            Some(k) => match numeral_u64(s.subrange(1, k + 1)) {
                Some(p) => if p < 192 {
                    Some((p, (k + 2) as nat))
                } else {
                    None
                },
                None => None,
            },
            None => None,
        }
    } else {
        None
    }
}

/// A well-formed `[seconds.fraction]` at the start of `s`, with one space
/// after it if there is one: the microseconds and the length taken.
pub open spec fn timestamp_prefix(s: Seq<char>) -> Option<(nat, nat)> {
    if s.len() > 0 && s[0] == '[' {
        match find_char(s.skip(1), ']') {
            Some(k) => match bracket_micros(s.subrange(1, k + 1)) {
                Some(t) => Some(
                    (t, if k + 2 < s.len() && s[k + 2] == ' ' {
                        (k + 3) as nat
                    } else {
                        (k + 2) as nat
                    }),
                ),
                None => None,
            },
            None => None,
        }
    } else {
        None
    }
}

/// What follows the priority prefix, if any.
pub open spec fn after_priority(s: Seq<char>) -> Seq<char> {
    match priority_prefix(s) {
        Some((_, n)) => s.skip(n as int),
        None => s,
    }
}

/// What follows the timestamp prefix, if any.
pub open spec fn after_timestamp(s: Seq<char>) -> Seq<char> {
    match timestamp_prefix(s) {
        Some((_, n)) => s.skip(n as int),
        None => s,
    }
}

/// The facility a ring-buffer priority names: only values from 8 on carry one.
pub open spec fn klog_facility(p: nat) -> Option<LogFacility> {
    if p >= 8 {
        facility_of(p / 8)
    } else {
        None
    }
}

/// The entry that a line of the ring-buffer dialect stands for.
pub open spec fn klog_model(s: Seq<char>) -> EntryModel {
    let rest = after_priority(s);
    EntryModel {
        timestamp: match timestamp_prefix(rest) {
            Some((t, _)) => Some(t),
            None => None,
        },
        facility: match priority_prefix(s) {
            Some((p, _)) => klog_facility(p),
            None => None,
        },
        level: match priority_prefix(s) {
            Some((p, _)) => level_of(p % 8),
            None => None,
        },
        sequence: None,
        message: after_timestamp(rest),
    }
}

/// Reads a `<priority>` at the start of `s`.
fn read_priority(s: &[char]) -> (r: Option<(u64, usize)>)
    ensures
        match r {
            Some((p, n)) => priority_prefix(s@) == Some((p as nat, n as nat)) && n <= s@.len(),
            None => priority_prefix(s@) is None,
        },
{
    let n = s.len();
    if n == 0 || s[0] != '<' {
        return None;
    }
    let k = find_in(s, 1, n, '>');
    assert(s@.subrange(1, n as int) =~= s@.skip(1));
    if k == n {
        return None;
    }
    assert(s@.subrange(1, k as int) =~= s@.subrange(1, (k - 1) + 1));
    match parse_u64(s, 1, k) {
        Some(p) => if p < 192 {
            Some((p, k + 1))
        } else {
            None
        },
        None => None,
    }
}

/// Counts the spaces that `s[lo..hi]` starts with.
fn count_spaces(s: &[char], lo: usize, hi: usize) -> (r: usize)
    requires
        lo <= hi <= s@.len(),
    ensures
        lo <= r <= hi,
        r - lo == leading_spaces(s@.subrange(lo as int, hi as int)),
{
    let mut i = lo;
    while i < hi && s[i] == ' '
        invariant
            lo <= i <= hi <= s@.len(),
            leading_spaces(s@.subrange(lo as int, hi as int)) == (i - lo) + leading_spaces(
                s@.subrange(i as int, hi as int),
            ),
        decreases hi - i,
    {
        assert(s@.subrange(i as int, hi as int).skip(1) =~= s@.subrange(i + 1, hi as int));
        i = i + 1;
    }
    i
}

/// The value of the first six digits of `s[lo..hi]`, padded with zeros;
/// `None` unless `s[lo..hi]` is a non-empty run of digits.
fn read_micro_digits(s: &[char], lo: usize, hi: usize) -> (r: Option<u64>)
    requires
        lo <= hi <= s@.len(),
    ensures
        match r {
            Some(v) => is_numeral(s@.subrange(lo as int, hi as int)) && v as nat == numeral_value(
                micro_digits(s@.subrange(lo as int, hi as int)),
            ) && v < 1000000,
            None => !is_numeral(s@.subrange(lo as int, hi as int)),
        },
{
    let ghost frac = s@.subrange(lo as int, hi as int);
    if lo == hi {
        return None;
    }
    let mut i = lo;
    while i < hi
        invariant
            lo <= i <= hi <= s@.len(),
            frac == s@.subrange(lo as int, hi as int),
            forall|j: int| 0 <= j < i - lo ==> is_digit(#[trigger] frac[j]),
        decreases hi - i,
    {
        if !('0' <= s[i] && s[i] <= '9') {
            assert(!is_digit(frac[i - lo]));
            return None;
        }
        i = i + 1;
    }
    let ghost m = micro_digits(frac);
    let mut acc: u64 = 0;
    let mut j: usize = 0;
    while j < 6
        invariant
            lo < hi <= s@.len(),
            frac == s@.subrange(lo as int, hi as int),
            all_digits(frac),
            m == micro_digits(frac),
            j <= 6,
            acc as nat == numeral_value(m.take(j as int)),
            acc < pow10(j as nat),
        decreases 6 - j,
    {
        let c = if j < hi - lo {
            s[lo + j]
        } else {
            '0'
        };
        assert(c == m[j as int]);
        assert(is_digit(c));
        proof {
            assert(m.take(j + 1) =~= m.take(j as int).push(c));
            lemma_numeral_push(m.take(j as int), c);
        }
        let d: u64 = (c as u32 - '0' as u32) as u64;
        assert(d as nat == digit_value(c));
        proof {
            lemma_pow10_mono(j as nat, 5);
            reveal_with_fuel(pow10, 6);
            assert(pow10((j + 1) as nat) == 10 * pow10(j as nat));
        }
        acc = acc * 10 + d;
        j = j + 1;
    }
    assert(m.take(6) =~= m);
    proof {
        reveal_with_fuel(pow10, 7);
    }
    Some(acc)
}

/// Reads the inside `s[lo..hi]` of a timestamp bracket as microseconds.
fn read_bracket(s: &[char], lo: usize, hi: usize) -> (r: Option<u64>)
    requires
        lo <= hi <= s@.len(),
    ensures
        match r {
            Some(t) => bracket_micros(s@.subrange(lo as int, hi as int)) == Some(t as nat),
            None => bracket_micros(s@.subrange(lo as int, hi as int)) is None,
        },
{
    let ghost inner = s@.subrange(lo as int, hi as int);
    let b0 = count_spaces(s, lo, hi);
    let ghost b = inner.skip(leading_spaces(inner) as int);
    assert(b =~= s@.subrange(b0 as int, hi as int));
    let d = find_in(s, b0, hi, '.');
    if d == hi {
        return None;
    }
    assert(b.take(d - b0) =~= s@.subrange(b0 as int, d as int));
    assert(b.skip(d - b0 + 1) =~= s@.subrange(d + 1, hi as int));
    let secs = parse_u64(s, b0, d);
    let frac = read_micro_digits(s, d + 1, hi);
    match (secs, frac) {
        (Some(secs), Some(frac)) => {
            if secs > (u64::MAX - frac) / 1000000 {
                None
            } else {
                Some(secs * 1000000 + frac)
            }
        },
        _ => None,
    }
}

/// Reads a `[seconds.fraction]` at `s[lo..]`, with one space after it.
fn read_timestamp(s: &[char], lo: usize) -> (r: Option<(u64, usize)>)
    requires
        lo <= s@.len(),
    ensures
        match r {
            Some((t, n)) => timestamp_prefix(s@.skip(lo as int)) == Some((t as nat, n as nat))
                && lo + n <= s@.len(),
            None => timestamp_prefix(s@.skip(lo as int)) is None,
        },
{
    let n = s.len();
    let ghost r = s@.skip(lo as int);
    if lo == n || s[lo] != '[' {
        return None;
    }
    let k = find_in(s, lo + 1, n, ']');
    assert(s@.subrange(lo + 1, n as int) =~= r.skip(1));
    if k == n {
        return None;
    }
    assert(s@.subrange(lo + 1, k as int) =~= r.subrange(1, (k - lo - 1) + 1));
    match read_bracket(s, lo + 1, k) {
        Some(t) => {
            if k + 1 < n && s[k + 1] == ' ' {
                Some((t, k + 2 - lo))
            } else {
                Some((t, k + 1 - lo))
            }
        },
        None => None,
    }
}

/// Parses one line of the ring-buffer dialect. A missing or malformed
/// prefix is no error: it leaves its field absent and stays in the message.
pub fn parse_klog(line: &str) -> (r: Entry)
    ensures
        r@ == klog_model(line@),
        r.well_formed(),
        r.sequence_num is None,
{
    let cs = chars_of(line);
    let s = cs.as_slice();
    let n = s.len();
    let (prio, start) = match read_priority(s) {
        Some((p, k)) => (Some(p), k),
        None => (None, 0),
    };
    assert(s@.skip(start as int) =~= after_priority(s@));
    let (ts, body) = match read_timestamp(s, start) {
        Some((t, k)) => (Some(t), start + k),
        None => (None, start),
    };
    let mut message = String::new();
    push_range(&mut message, s, body, n);
    assert(message@ =~= after_timestamp(after_priority(s@)));
    let (facility, level) = match prio {
        Some(p) => {
            let f = if p >= 8 {
                LogFacility::from_code(p / 8)
            } else {
                None
            };
            (f, LogLevel::from_code(p % 8))
        },
        None => (None, None),
    };
    Entry { timestamp_from_system_start: ts, facility, level, sequence_num: None, message }
}

/// The priority value written for an entry's level and facility.
pub open spec fn klog_priority(e: EntryModel) -> nat {
    match e.facility {
        Some(f) => f.spec_code() * 8 + e.level->0.spec_code(),
        None => e.level->0.spec_code(),
    }
}

/// The `<priority>` prefix written for an entry: none without a level.
pub open spec fn klog_priority_text(e: EntryModel) -> Seq<char> {
    if e.level is Some {
        seq!['<'] + decimal(klog_priority(e)) + seq!['>']
    } else {
        Seq::empty()
    }
}

/// The seconds of a timestamp, right-aligned in five columns.
pub open spec fn seconds_text(t: nat) -> Seq<char> {
    let d = decimal(t / 1000000);
    spaces(if d.len() < 5 {
        (5 - d.len()) as nat
    } else {
        0
    }) + d
}

/// The inside of the timestamp bracket: seconds, a dot, six digits of microseconds.
pub open spec fn bracket_text(t: nat) -> Seq<char> {
    seconds_text(t) + seq!['.'] + fixed_decimal(t % 1000000, 6)
}

/// The `[seconds.micros] ` prefix written for a timestamp.
pub open spec fn timestamp_text(t: nat) -> Seq<char> {
    seq!['['] + bracket_text(t) + seq![']', ' ']
}

/// The ring-buffer dialect text of an entry.
pub open spec fn klog_text(e: EntryModel) -> Seq<char> {
    klog_priority_text(e) + match e.timestamp {
        Some(t) => timestamp_text(t),
        None => Seq::empty(),
    } + e.message
}

/// The number of digits in the decimal writing of `n`.
fn digit_count(n: u64) -> (r: u64)
    ensures
        r as nat == decimal(n as nat).len(),
    decreases n,
{
    if n < 10 {
        1
    } else {
        let r = digit_count(n / 10);
        proof {
            assert(decimal(n as nat) == decimal((n / 10) as nat).push(
                crate::text::digit_char((n % 10) as nat),
            ));
            reveal_with_fuel(pow10, 21);
            lemma_decimal_len((n / 10) as nat, 20);
        }
        r + 1
    }
}

proof fn lemma_decimal_len(n: nat, k: nat)
    requires
        k >= 1,
        n < pow10(k),
    ensures
        decimal(n).len() <= k,
    decreases k,
{
    reveal_with_fuel(pow10, 2);
    if n >= 10 {
        lemma_decimal_len(n / 10, (k - 1) as nat);
    }
}

/// Writes an entry in the ring-buffer dialect: `<priority>` when it has a
/// level, `[seconds.micros] ` when it has a timestamp, then the message.
pub fn to_klog_string(e: &Entry) -> (r: String)
    ensures
        r@ == klog_text(e@),
{
    let mut out = String::new();
    match e.level {
        Some(l) => {
            let p: u64 = match e.facility {
                Some(f) => f.code() as u64 * 8 + l.code() as u64,
                None => l.code() as u64,
            };
            push_char(&mut out, '<');
            push_decimal(&mut out, p);
            push_char(&mut out, '>');
        },
        None => {},
    }
    let ghost after_prio = out@;
    assert(after_prio =~= klog_priority_text(e@));
    match e.timestamp_from_system_start {
        Some(t) => {
            let secs = t / 1000000;
            push_char(&mut out, '[');
            let width = digit_count(secs);
            let mut pad: u64 = if width < 5 {
                5 - width
            } else {
                0
            };
            let ghost before_pad = out@;
            let ghost total = pad;
            while pad > 0
                invariant
                    pad <= total,
                    out@ == before_pad + spaces((total - pad) as nat),
                decreases pad,
            {
                push_char(&mut out, ' ');
                pad = pad - 1;
                assert(spaces((total - pad) as nat) =~= spaces((total - pad - 1) as nat).push(' '));
            }
            push_decimal(&mut out, secs);
            push_char(&mut out, '.');
            push_fixed_decimal(&mut out, t % 1000000, 6);
            push_char(&mut out, ']');
            push_char(&mut out, ' ');
            assert(out@ =~= after_prio + timestamp_text(t as nat));
        },
        None => {},
    }
    push_str(&mut out, e.message.as_str());
    assert(out@ =~= klog_text(e@));
    out
}

proof fn lemma_leading_spaces(n: nat, d: Seq<char>)
    requires
        d.len() > 0,
        d[0] != ' ',
    ensures
        leading_spaces(spaces(n) + d) == n,
    decreases n,
{
    let s = spaces(n) + d;
    if n > 0 {
        assert(s.skip(1) =~= spaces((n - 1) as nat) + d);
        lemma_leading_spaces((n - 1) as nat, d);
    } else {
        assert(s =~= d);
    }
}

/// The priority prefix written for an entry with a level reads back as that
/// level and facility, provided the facility is not the kernel one (code 0,
/// which the dialect cannot tell from no facility).
proof fn lemma_klog_priority(e: EntryModel, rest: Seq<char>)
    requires
        e.level is Some,
        e.facility != Some(LogFacility::Kern),
    ensures
        priority_prefix(klog_priority_text(e) + rest) == Some(
            (klog_priority(e), klog_priority_text(e).len()),
        ),
        klog_facility(klog_priority(e)) == e.facility,
        level_of(klog_priority(e) % 8) == e.level,
{
    let p = klog_priority(e);
    let d = decimal(p);
    let l = e.level->0;
    lemma_level_code(l);
    match e.facility {
        Some(f) => {
            lemma_facility_code(f);
            assert(f.spec_code() >= 1);
            assert(p / 8 == f.spec_code());
            assert(p % 8 == l.spec_code());
        },
        None => {},
    }
    lemma_decimal(p);
    lemma_numeral_lacks(d, '>');
    let text = klog_priority_text(e) + rest;
    assert(text.skip(1) =~= d + seq!['>'] + rest);
    lemma_split_at(d, '>', rest);
    assert(text.subrange(1, d.len() as int + 1) =~= d);
}

proof fn lemma_micros_digits(t: nat)
    ensures
        is_numeral(fixed_decimal(t % 1000000, 6)),
        fixed_decimal(t % 1000000, 6).len() == 6,
        numeral_value(fixed_decimal(t % 1000000, 6)) == t % 1000000,
{
    assert(pow10(6) == 1000000) by {
        reveal_with_fuel(pow10, 7);
    }
    lemma_fixed_decimal(t % 1000000, 6);
}

/// The inside of the bracket written for `t` holds no `]` and reads back as `t`.
proof fn lemma_bracket(t: nat)
    requires
        t <= u64::MAX,
    ensures
        lacks(bracket_text(t), ']'),
        bracket_micros(bracket_text(t)) == Some(t),
{
    let secs = t / 1000000;
    let d = decimal(secs);
    let f = fixed_decimal(t % 1000000, 6);
    let b = bracket_text(t);
    let sp = spaces(if d.len() < 5 {
        (5 - d.len()) as nat
    } else {
        0
    });
    lemma_decimal(secs);
    lemma_micros_digits(t);
    lemma_numeral_lacks(d, ']');
    lemma_numeral_lacks(f, ']');
    assert(lacks(sp, ']'));
    assert(lacks(seq!['.'], ']'));
    lemma_lacks_concat(sp, d, ']');
    lemma_lacks_concat(sp + d, seq!['.'], ']');
    lemma_lacks_concat(sp + d + seq!['.'], f, ']');
    assert(b =~= sp + d + seq!['.'] + f);
    assert(is_digit(d[0]));
    assert(b =~= sp + (d + seq!['.'] + f));
    lemma_leading_spaces(sp.len(), d + seq!['.'] + f);
    assert(b.skip(sp.len() as int) =~= d + seq!['.'] + f);
    lemma_numeral_lacks(d, '.');
    lemma_split_at(d, '.', f);
    assert(micro_digits(f) =~= f);
    assert(secs * 1000000 + t % 1000000 == t);
}

/// The timestamp prefix written for `t` reads back as `t`.
proof fn lemma_klog_timestamp(t: nat, rest: Seq<char>)
    requires
        t <= u64::MAX,
    ensures
        timestamp_prefix(timestamp_text(t) + rest) == Some((t, timestamp_text(t).len())),
{
    let b = bracket_text(t);
    lemma_bracket(t);
    let text = timestamp_text(t) + rest;
    assert(text.skip(1) =~= b + seq![']'] + (seq![' '] + rest));
    lemma_split_at(b, ']', seq![' '] + rest);
    let k = b.len() as int;
    assert(text.subrange(1, k + 1) =~= b);
    assert(text[k + 2] == ' ');
}

/// Writing an entry in the ring-buffer dialect and reading it back keeps its
/// message, level, facility and timestamp (to the microsecond); the dialect
/// carries no sequence number. It holds when a facility comes with a level,
/// the facility is not the kernel one, and the message does not itself start
/// with a well-formed prefix where the entry has none.
pub proof fn lemma_klog_round_trip(e: Entry)
    requires
        e.well_formed(),
        e.facility != Some(LogFacility::Kern),
        e.level is None ==> priority_prefix(e.message@) is None,
        e.timestamp_from_system_start is None ==> timestamp_prefix(e.message@) is None,
    ensures
        klog_model(klog_text(e@)) == (EntryModel { sequence: None, ..e@ }),
{
    let m = e@;
    let text = klog_text(m);
    let ts = match m.timestamp {
        Some(t) => timestamp_text(t),
        None => Seq::empty(),
    };
    let rest = ts + m.message;
    assert(text =~= klog_priority_text(m) + rest);
    if m.level is Some {
        lemma_klog_priority(m, rest);
        assert((klog_priority_text(m) + rest).skip(klog_priority_text(m).len() as int) =~= rest);
    } else {
        assert(text =~= rest);
        match m.timestamp {
            Some(t) => {
                assert(text[0] == '[');
            },
            None => {
                assert(rest =~= m.message);
            },
        }
    }
    assert(after_priority(text) == rest);
    match m.timestamp {
        Some(t) => {
            lemma_klog_timestamp(t, m.message);
            assert((timestamp_text(t) + m.message).skip(timestamp_text(t).len() as int)
                =~= m.message);
        },
        None => {
            assert(rest =~= m.message);
        },
    }
    assert(after_timestamp(rest) == m.message);
}

/// Two parses of one line agree: the result depends on the text alone.
pub proof fn lemma_klog_deterministic(line: Seq<char>, a: Entry, b: Entry)
    requires
        klog_model(line) == a@,
        klog_model(line) == b@,
    ensures
        a@ == b@,
{
}

} // verus!
