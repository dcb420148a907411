//! The structured dialect of the kernel message device:
//! `priority,sequence,timestamp_microseconds,flag;message`.
use vstd::prelude::*;
use crate::entry::{
    decode_priority, encode_priority, lemma_priority_codes, priority_model, Entry, EntryModel,
    RMesgError,
};
use crate::scan::{find_in, numeral_u64, parse_u64};
use crate::text::{
    chars_of, decimal, find_char, is_digit, is_numeral, lacks, lemma_lacks_concat,
    lemma_numeral_lacks, lemma_decimal, lemma_find_char_at, push_char,
    push_decimal, push_range,
};

verus! {

/// The part of `s` before its first comma (all of it when there is none).
pub open spec fn first_field(s: Seq<char>) -> Seq<char> {
    match find_char(s, ',') {
        Some(k) => s.take(k),
        None => s,
    }
}

/// The part of `s` after its first comma, if there is a comma.
pub open spec fn after_first_field(s: Seq<char>) -> Option<Seq<char>> {
    match find_char(s, ',') {
        Some(k) => Some(s.skip(k + 1)),
        None => None,
    }
}

/// The three leading numeric fields of a header (the text before `;`):
/// priority, sequence number and timestamp.
pub open spec fn header_numbers(h: Seq<char>) -> Option<(nat, nat, nat)> {
    match after_first_field(h) {
        None => None,
        Some(r1) => match after_first_field(r1) {
            None => None,
            Some(r2) => match (
                numeral_u64(first_field(h)),
                numeral_u64(first_field(r1)),
                numeral_u64(first_field(r2)),
            ) {
                (Some(p), Some(q), Some(t)) => Some((p, q, t)),
                _ => None,
            },
        },
    }
}

/// The entry that a header and a message make.
pub open spec fn kmsg_header_model(h: Seq<char>, message: Seq<char>) -> Option<EntryModel> {
    match header_numbers(h) {
        Some((p, q, t)) => match priority_model(p) {
            Some((f, l)) => Some(
                EntryModel {
                    timestamp: Some(t),
                    facility: Some(f),
                    level: Some(l),
                    sequence: Some(q),
                    message,
                },
            ),
            None => None,
        },
        None => None,
    }
}

/// The entry that a record of the device dialect stands for, if it is well formed.
pub open spec fn kmsg_model(s: Seq<char>) -> Option<EntryModel> {
    match find_char(s, ';') {
        None => None,
        Some(k) => kmsg_header_model(s.take(k), s.skip(k + 1)),
    }
}

/// The device-dialect text of a complete entry.
pub open spec fn kmsg_text(e: EntryModel) -> Seq<char> {
    let p = e.facility->0.spec_code() * 8 + e.level->0.spec_code();
    decimal(p) + seq![','] + decimal(e.sequence->0) + seq![','] + decimal(e.timestamp->0)
        + seq![',', '-', ';'] + e.message
}

/// Reads the three leading numeric fields of the header `s[0..hi]`.
fn parse_header(s: &[char], hi: usize) -> (r: Option<(u64, u64, u64)>)
    requires
        hi <= s@.len(),
    ensures
        match r {
            Some((p, q, t)) => header_numbers(s@.take(hi as int)) == Some(
                (p as nat, q as nat, t as nat),
            ),
            None => header_numbers(s@.take(hi as int)) is None,
        },
{
    let ghost h = s@.take(hi as int);
    let c1 = find_in(s, 0, hi, ',');
    assert(s@.subrange(0, hi as int) =~= h);
    if c1 == hi {
        return None;
    }
    let ghost r1 = h.skip(c1 + 1);
    let c2 = find_in(s, c1 + 1, hi, ',');
    assert(s@.subrange(c1 + 1, hi as int) =~= r1);
    if c2 == hi {
        return None;
    }
    let ghost r2 = r1.skip(c2 - c1);
    let c3 = find_in(s, c2 + 1, hi, ',');
    assert(s@.subrange(c2 + 1, hi as int) =~= r2);
    assert(s@.subrange(0, c1 as int) =~= first_field(h));
    assert(s@.subrange(c1 + 1, c2 as int) =~= first_field(r1));
    assert(s@.subrange(c2 + 1, c3 as int) =~= first_field(r2));
    let p = parse_u64(s, 0, c1);
    let q = parse_u64(s, c1 + 1, c2);
    let t = parse_u64(s, c2 + 1, c3);
    match (p, q, t) {
        (Some(p), Some(q), Some(t)) => Some((p, q, t)),
        _ => None,
    }
}

/// Parses one record of the device dialect. Fails with `MalformedRecord` when
/// the `;` is missing, one of the first three header fields is not a number,
/// or the priority does not decode.
pub fn parse_kmsg(line: &str) -> (r: Result<Entry, RMesgError>)
    ensures
        match r {
            Ok(e) => kmsg_model(line@) == Some(e@),
            Err(err) => kmsg_model(line@) is None && err == RMesgError::MalformedRecord,
        },
        r matches Ok(e) ==> e.is_complete(),
{
    let cs = chars_of(line);
    let s = cs.as_slice();
    let n = s.len();
    let ghost all = s@;
    let semi = find_in(s, 0, n, ';');
    assert(all.subrange(0, n as int) =~= all);
    if semi == n {
        return Err(RMesgError::MalformedRecord);
    }
    match parse_header(s, semi) {
        Some((p, q, t)) => match decode_priority(p) {
            Ok((f, l)) => {
                let mut message = String::new();
                push_range(&mut message, s, semi + 1, n);
                assert(message@ =~= all.skip(semi + 1));
                Ok(
                    Entry {
                        timestamp_from_system_start: Some(t),
                        facility: Some(f),
                        level: Some(l),
                        sequence_num: Some(q),
                        message,
                    },
                )
            },
            Err(e) => Err(e),
        },
        None => Err(RMesgError::MalformedRecord),
    }
}

/// Writes a complete entry in the device dialect, with `-` as the flag field;
/// `None` when a field is absent.
pub fn to_kmsg_string(e: &Entry) -> (r: Option<String>)
    ensures
        r is Some <==> e.is_complete(),
        r matches Some(s) ==> s@ == kmsg_text(e@),
{
    match (e.facility, e.level, e.sequence_num, e.timestamp_from_system_start) {
        (Some(f), Some(l), Some(q), Some(t)) => {
            let mut out = String::new();
            push_decimal(&mut out, encode_priority(f, l) as u64);
            push_char(&mut out, ',');
            push_decimal(&mut out, q);
            push_char(&mut out, ',');
            push_decimal(&mut out, t);
            push_char(&mut out, ',');
            push_char(&mut out, '-');
            push_char(&mut out, ';');
            let msg = e.message.as_str();
            crate::text::push_str(&mut out, msg);
            assert(out@ =~= kmsg_text(e@));
            Some(out)
        },
        _ => None,
    }
}

/// A numeral, a separator and a rest split at that separator.
proof fn lemma_split_after_numeral(d: Seq<char>, c: char, rest: Seq<char>)
    requires
        is_numeral(d),
        !is_digit(c),
    ensures
        find_char(d + seq![c] + rest, c) == Some(d.len() as int),
        (d + seq![c] + rest).take(d.len() as int) == d,
        (d + seq![c] + rest).skip(d.len() as int + 1) == rest,
{
    let s = d + seq![c] + rest;
    assert forall|j: int| 0 <= j < d.len() implies s[j] != c by {
        assert(s[j] == d[j]);
        assert(is_digit(d[j]));
    }
    lemma_find_char_at(s, c, d.len() as int);
    assert(s.take(d.len() as int) =~= d);
    assert(s.skip(d.len() as int + 1) =~= rest);
}

/// The header that `kmsg_text` writes before its `;`.
pub open spec fn kmsg_header(p: nat, q: nat, t: nat) -> Seq<char> {
    decimal(p) + seq![','] + (decimal(q) + seq![','] + (decimal(t) + seq![',', '-']))
}

proof fn lemma_kmsg_header(p: nat, q: nat, t: nat)
    requires
        q <= u64::MAX,
        t <= u64::MAX,
        p <= u64::MAX,
    ensures
        header_numbers(kmsg_header(p, q, t)) == Some((p, q, t)),
        lacks(kmsg_header(p, q, t), ';'),
{
    let d0 = decimal(p);
    let d1 = decimal(q);
    let d2 = decimal(t);
    lemma_decimal(p);
    lemma_decimal(q);
    lemma_decimal(t);
    let r2 = d2 + seq![',', '-'];
    let r1 = d1 + seq![','] + r2;
    let h = d0 + seq![','] + r1;
    assert(h == kmsg_header(p, q, t));
    lemma_split_after_numeral(d2, ',', seq!['-']);
    assert(r2 =~= d2 + seq![','] + seq!['-']);
    lemma_split_after_numeral(d1, ',', r2);
    lemma_split_after_numeral(d0, ',', r1);
    lemma_numeral_lacks(d0, ';');
    lemma_numeral_lacks(d1, ';');
    lemma_numeral_lacks(d2, ';');
    assert(lacks(seq![','], ';'));
    assert(lacks(seq![',', '-'], ';'));
    lemma_lacks_concat(d2, seq![',', '-'], ';');
    lemma_lacks_concat(d1, seq![','], ';');
    lemma_lacks_concat(d1 + seq![','], r2, ';');
    lemma_lacks_concat(d0, seq![','], ';');
    lemma_lacks_concat(d0 + seq![','], r1, ';');
}

/// Reading back the device-dialect text of a complete entry gives the entry.
pub proof fn lemma_kmsg_round_trip(e: Entry)
    requires
        e.is_complete(),
    ensures
        kmsg_model(kmsg_text(e@)) == Some(e@),
{
    let m = e@;
    let f = m.facility->0;
    let l = m.level->0;
    let p = f.spec_code() * 8 + l.spec_code();
    let q = m.sequence->0;
    let t = m.timestamp->0;
    lemma_priority_codes(f, l);
    lemma_kmsg_header(p, q, t);
    let h = kmsg_header(p, q, t);
    let text = kmsg_text(m);
    assert(text =~= h + seq![';'] + m.message);
    let k = h.len() as int;
    assert forall|j: int| 0 <= j < k implies text[j] != ';' by {
        assert(text[j] == h[j]);
    }
    lemma_find_char_at(text, ';', k);
    assert(text.take(k) =~= h);
    assert(text.skip(k + 1) =~= m.message);
}

/// Two successful parses of one record agree: the result depends on the text alone.
pub proof fn lemma_kmsg_deterministic(line: Seq<char>, a: Entry, b: Entry)
    requires
        kmsg_model(line) == Some(a@),
        kmsg_model(line) == Some(b@),
    ensures
        a@ == b@,
{
}

} // verus!
