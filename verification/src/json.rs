//! Verified JSON encoding of the response body.
//!
//! The endpoint answers with a JSON array of objects
//! `{"field1": <string>, "field2": <integer>}`. The spec functions here
//! define that text character by character — decimal numerals, string
//! escapes, one object per record, the bracketed array — and the exec
//! functions build exactly it.

use vstd::prelude::*;
use crate::record::Record;
use crate::record::RecordView;
use crate::record::table_view;

verus! {

/// The decimal digit character for `d` (0 through 9).
pub open spec fn digit_char(d: nat) -> char {
    if d == 0 {
        '0'
    } else if d == 1 {
        '1'
    } else if d == 2 {
        '2'
    } else if d == 3 {
        '3'
    } else if d == 4 {
        '4'
    } else if d == 5 {
        '5'
    } else if d == 6 {
        '6'
    } else if d == 7 {
        '7'
    } else if d == 8 {
        '8'
    } else {
        '9'
    }
}

/// The lower-case hexadecimal digit character for `d` (0 through 15).
pub open spec fn hex_digit_char(d: nat) -> char {
    if d < 10 {
        digit_char(d)
    } else if d == 10 {
        'a'
    } else if d == 11 {
        'b'
    } else if d == 12 {
        'c'
    } else if d == 13 {
        'd'
    } else if d == 14 {
        'e'
    } else {
        'f'
    }
}

/// The decimal numeral of `n`, most significant digit first, without
/// leading zeros (zero itself is the single digit `0`).
pub open spec fn dec_chars(n: nat) -> Seq<char>
    decreases n,
{
    if n < 10 {
        seq![digit_char(n)]
    } else {
        dec_chars(n / 10) + seq![digit_char(n % 10)]
    }
}

/// The decimal numeral of `i`, with a leading minus sign when negative.
pub open spec fn int_chars(i: int) -> Seq<char> {
    if i < 0 {
        seq!['-'] + dec_chars((-i) as nat)
    } else {
        dec_chars(i as nat)
    }
}

/// The JSON escape of one character inside a string literal: quote and
/// backslash take a backslash escape, the named control characters their
/// short forms, any other control character a `\u00xx` escape; every other
/// character stands for itself.
pub open spec fn escape_char(c: char) -> Seq<char> {
    if c == '"' {
        seq!['\\', '"']
    } else if c == '\\' {
        seq!['\\', '\\']
    } else if c == '\u{8}' {
        seq!['\\', 'b']
    } else if c == '\u{c}' {
        seq!['\\', 'f']
    } else if c == '\n' {
        seq!['\\', 'n']
    } else if c == '\r' {
        seq!['\\', 'r']
    } else if c == '\t' {
        seq!['\\', 't']
    } else if (c as u32) < 32 {
        seq!['\\', 'u', '0', '0'] + seq![
            hex_digit_char((c as u32 / 16) as nat),
            hex_digit_char((c as u32 % 16) as nat),
        ]
    } else {
        seq![c]
    }
}

/// The JSON escape of a whole string body, character by character.
pub open spec fn escape_chars(s: Seq<char>) -> Seq<char>
    decreases s.len(),
{
    if s.len() == 0 {
        Seq::<char>::empty()
    } else {
        escape_chars(s.drop_last()) + escape_char(s.last())
    }
}

/// The JSON object for one record.
pub open spec fn json_of_record(r: RecordView) -> Seq<char> {
    "{\"field1\":\""@ + escape_chars(r.field1) + "\",\"field2\":"@ + int_chars(r.field2) + "}"@
}

/// The comma-separated JSON objects for a sequence of records, in order.
pub open spec fn json_of_items(rs: Seq<RecordView>) -> Seq<char>
    decreases rs.len(),
{
    if rs.len() == 0 {
        Seq::<char>::empty()
    } else if rs.len() == 1 {
        json_of_record(rs[0])
    } else {
        json_of_items(rs.drop_last()) + ","@ + json_of_record(rs.last())
    }
}

/// The JSON array for a sequence of records: the whole response body.
pub open spec fn json_of_records(rs: Seq<RecordView>) -> Seq<char> {
    "["@ + json_of_items(rs) + "]"@
}

/// Whether `c` is a decimal digit character.
pub open spec fn is_dec_digit(c: char) -> bool {
    ('0' as u32) <= (c as u32) && (c as u32) <= ('9' as u32)
}

/// Whether `c` is a hexadecimal digit character, either case.
pub open spec fn is_hex_digit(c: char) -> bool {
    ||| is_dec_digit(c)
    ||| ('a' as u32) <= (c as u32) && (c as u32) <= ('f' as u32)
    ||| ('A' as u32) <= (c as u32) && (c as u32) <= ('F' as u32)
}

/// One allowed token of a JSON string body: a single character that is
/// neither a quote, a backslash nor a control character; one of the
/// two-character escapes; or a six-character `\uxxxx` escape.
pub open spec fn allowed_string_unit(u: Seq<char>) -> bool {
    ||| (u.len() == 1 && u[0] != '"' && u[0] != '\\' && (u[0] as u32) >= 32)
    ||| u == seq!['\\', '"']
    ||| u == seq!['\\', '\\']
    ||| u == seq!['\\', 'b']
    ||| u == seq!['\\', 'f']
    ||| u == seq!['\\', 'n']
    ||| u == seq!['\\', 'r']
    ||| u == seq!['\\', 't']
    ||| (u.len() == 6 && u[0] == '\\' && u[1] == 'u' && is_hex_digit(u[2]) && is_hex_digit(u[3])
        && is_hex_digit(u[4]) && is_hex_digit(u[5]))
}

/// The concatenation of a sequence of tokens.
pub open spec fn concat_units(units: Seq<Seq<char>>) -> Seq<char>
    decreases units.len(),
{
    if units.len() == 0 {
        Seq::<char>::empty()
    } else {
        concat_units(units.drop_last()) + units.last()
    }
}

/// A valid JSON string body: some concatenation of allowed tokens.
pub open spec fn valid_json_string_body(s: Seq<char>) -> bool {
    exists|units: Seq<Seq<char>>|
        #[trigger] concat_units(units) == s && (forall|i: int|
            0 <= i < units.len() ==> allowed_string_unit(#[trigger] units[i]))
}

/// A nonempty run of decimal digits without a superfluous leading zero.
pub open spec fn digit_run(s: Seq<char>) -> bool {
    &&& s.len() > 0
    &&& (forall|i: int| 0 <= i < s.len() ==> is_dec_digit(#[trigger] s[i]))
    &&& (s.len() > 1 ==> s[0] != '0')
}

/// A valid JSON integer: a digit run, possibly behind a minus sign.
pub open spec fn valid_json_integer(s: Seq<char>) -> bool {
    ||| digit_run(s)
    ||| (s.len() > 1 && s[0] == '-' && digit_run(s.skip(1)))
}

/// A valid record object as the endpoint shapes it: the fixed frame of the
/// two field names around a valid string body and a valid integer.
pub open spec fn valid_record_object(s: Seq<char>) -> bool {
    exists|body: Seq<char>, num: Seq<char>|
        #![trigger valid_json_string_body(body), valid_json_integer(num)]
        {
            &&& valid_json_string_body(body)
            &&& valid_json_integer(num)
            &&& s == "{\"field1\":\""@ + body + "\",\"field2\":"@ + num + "}"@
        }
}

/// Comma-separated join of a sequence of already-encoded items.
pub open spec fn joined_items(items: Seq<Seq<char>>) -> Seq<char>
    decreases items.len(),
{
    if items.len() == 0 {
        Seq::<char>::empty()
    } else if items.len() == 1 {
        items[0]
    } else {
        joined_items(items.drop_last()) + ","@ + items.last()
    }
}

/// A valid JSON array of record objects: a bracket pair around valid
/// objects joined by commas.
pub open spec fn valid_json_record_array(s: Seq<char>) -> bool {
    exists|items: Seq<Seq<char>>|
        #![trigger joined_items(items)]
        {
            &&& (forall|i: int| 0 <= i < items.len() ==> valid_record_object(#[trigger] items[i]))
            &&& s == "["@ + joined_items(items) + "]"@
        }
}

/// Every decimal digit character is one, and only zero's is `0`.
proof fn lemma_digit_char_is_digit(d: nat)
    requires
        d < 10,
    ensures
        is_dec_digit(digit_char(d)),
        d > 0 ==> digit_char(d) != '0',
{
}

/// A decimal numeral is a digit run, and a positive number's numeral does
/// not start with `0`.
proof fn lemma_dec_chars_digit_run(n: nat)
    ensures
        digit_run(dec_chars(n)),
        n > 0 ==> dec_chars(n)[0] != '0',
    decreases n,
{
    if n < 10 {
        lemma_digit_char_is_digit(n);
    } else {
        lemma_dec_chars_digit_run(n / 10);
        lemma_digit_char_is_digit(n % 10);
        assert(dec_chars(n) == dec_chars(n / 10) + seq![digit_char(n % 10)]);
        assert(dec_chars(n)[0] == dec_chars(n / 10)[0]);
    }
}

/// The numeral of any 32-bit integer is a valid JSON integer.
proof fn lemma_int_chars_valid(i: int)
    ensures
        valid_json_integer(int_chars(i)),
{
    if i < 0 {
        lemma_dec_chars_digit_run((-i) as nat);
        assert(int_chars(i).skip(1) =~= dec_chars((-i) as nat));
    } else {
        lemma_dec_chars_digit_run(i as nat);
    }
}

/// The escape of any character is one allowed string token.
proof fn lemma_escape_char_allowed(c: char)
    ensures
        allowed_string_unit(escape_char(c)),
{
    if c == '"' || c == '\\' || c == '\u{8}' || c == '\u{c}' || c == '\n' || c == '\r' || c
        == '\t' {
    } else if (c as u32) < 32 {
        let code = c as u32;
        lemma_digit_char_is_digit((code / 16) as nat);
        if code % 16 < 10 {
            lemma_digit_char_is_digit((code % 16) as nat);
        }
    }
}

/// The escape of a string is the concatenation of its characters' escapes.
proof fn lemma_escape_chars_concat(s: Seq<char>)
    ensures
        concat_units(s.map_values(|c: char| escape_char(c))) == escape_chars(s),
    decreases s.len(),
{
    let units = s.map_values(|c: char| escape_char(c));
    if s.len() == 0 {
        assert(concat_units(units) =~= escape_chars(s));
    } else {
        lemma_escape_chars_concat(s.drop_last());
        assert(units.drop_last() =~= s.drop_last().map_values(|c: char| escape_char(c)));
        assert(units.last() == escape_char(s.last()));
    }
}

/// The escaped form of any string is a valid JSON string body.
proof fn lemma_escape_chars_valid(s: Seq<char>)
    ensures
        valid_json_string_body(escape_chars(s)),
{
    let units = s.map_values(|c: char| escape_char(c));
    lemma_escape_chars_concat(s);
    assert forall|i: int| 0 <= i < units.len() implies allowed_string_unit(
        #[trigger] units[i],
    ) by {
        lemma_escape_char_allowed(s[i]);
    }
}

/// The encoding of any record is a valid record object.
proof fn lemma_record_object_valid(r: RecordView)
    ensures
        valid_record_object(json_of_record(r)),
{
    lemma_escape_chars_valid(r.field1);
    lemma_int_chars_valid(r.field2);
}

/// The item list of the encoding is the join of the records' objects.
proof fn lemma_items_are_joined(rs: Seq<RecordView>)
    ensures
        joined_items(rs.map_values(|r: RecordView| json_of_record(r))) == json_of_items(rs),
    decreases rs.len(),
{
    let items = rs.map_values(|r: RecordView| json_of_record(r));
    if rs.len() > 1 {
        lemma_items_are_joined(rs.drop_last());
        assert(items.drop_last() =~= rs.drop_last().map_values(
            |r: RecordView| json_of_record(r),
        ));
        assert(items.last() == json_of_record(rs.last()));
    }
}

/// Whatever the records hold, the response body is a valid JSON array:
/// every string body a concatenation of allowed tokens, every integer a
/// signed digit run, the objects joined by commas between one bracket pair.
pub proof fn lemma_body_is_valid_json_array(rs: Seq<RecordView>)
    ensures
        valid_json_record_array(json_of_records(rs)),
{
    let items = rs.map_values(|r: RecordView| json_of_record(r));
    lemma_items_are_joined(rs);
    assert forall|i: int| 0 <= i < items.len() implies valid_record_object(
        #[trigger] items[i],
    ) by {
        lemma_record_object_valid(rs[i]);
    }
}

/// Relies on `String::push`: appends the given character to the end of the
/// string.
#[verifier::external_body]
fn push_char(out: &mut String, c: char)
    ensures
        final(out)@ == old(out)@ + seq![c],
{
    out.push(c);
}

/// The decimal digit character for `d`, executably.
fn digit_char_of(d: u64) -> (c: char)
    requires
        d < 10,
    ensures
        c == digit_char(d as nat),
{
    if d == 0 {
        '0'
    } else if d == 1 {
        '1'
    } else if d == 2 {
        '2'
    } else if d == 3 {
        '3'
    } else if d == 4 {
        '4'
    } else if d == 5 {
        '5'
    } else if d == 6 {
        '6'
    } else if d == 7 {
        '7'
    } else if d == 8 {
        '8'
    } else {
        '9'
    }
}

/// The lower-case hexadecimal digit character for `d`, executably.
fn hex_digit_char_of(d: u64) -> (c: char)
    requires
        d < 16,
    ensures
        c == hex_digit_char(d as nat),
{
    if d < 10 {
        digit_char_of(d)
    } else if d == 10 {
        'a'
    } else if d == 11 {
        'b'
    } else if d == 12 {
        'c'
    } else if d == 13 {
        'd'
    } else if d == 14 {
        'e'
    } else {
        'f'
    }
}

/// Appends the decimal numeral of `n`.
fn append_dec(out: &mut String, n: u64)
    ensures
        final(out)@ == old(out)@ + dec_chars(n as nat),
    decreases n,
{
    if n >= 10 {
        append_dec(out, n / 10);
        let d = digit_char_of(n % 10);
        push_char(out, d);
        proof {
            assert(out@ =~= old(out)@ + dec_chars(n as nat));
        }
    } else {
        let d = digit_char_of(n);
        push_char(out, d);
        proof {
            assert(out@ =~= old(out)@ + dec_chars(n as nat));
        }
    }
}

/// Appends the decimal numeral of `v`, minus sign included when negative.
fn append_int(out: &mut String, v: i32)
    ensures
        final(out)@ == old(out)@ + int_chars(v as int),
{
    if v < 0 {
        push_char(out, '-');
        let magnitude: u64 = (-(v as i64)) as u64;
        append_dec(out, magnitude);
        proof {
            assert(out@ =~= old(out)@ + int_chars(v as int));
        }
    } else {
        append_dec(out, v as u64);
    }
}

/// The escape of a prefix one character longer is the escape of the prefix
/// followed by the escape of the next character.
proof fn lemma_escape_chars_step(s: Seq<char>, i: int)
    requires
        0 <= i < s.len(),
    ensures
        escape_chars(s.take(i + 1)) == escape_chars(s.take(i)) + escape_char(s[i]),
{
    let t = s.take(i + 1);
    assert(t.drop_last() =~= s.take(i));
    assert(t.last() == s[i]);
}

/// Appends the JSON escape of `s`.
fn append_escaped(out: &mut String, s: &str)
    ensures
        final(out)@ == old(out)@ + escape_chars(s@),
{
    let len = s.unicode_len();
    let mut i: usize = 0;
    while i < len
        invariant
            len == s@.len(),
            i <= len,
            out@ == old(out)@ + escape_chars(s@.take(i as int)),
        decreases len - i,
    {
        let c = s.get_char(i);
        if c == '"' {
            out.append("\\\"");
            proof {
                reveal_strlit("\\\"");
                assert("\\\""@ =~= escape_char(c));
            }
        } else if c == '\\' {
            out.append("\\\\");
            proof {
                reveal_strlit("\\\\");
                assert("\\\\"@ =~= escape_char(c));
            }
        } else if c == '\u{8}' {
            out.append("\\b");
            proof {
                reveal_strlit("\\b");
                assert("\\b"@ =~= escape_char(c));
            }
        } else if c == '\u{c}' {
            out.append("\\f");
            proof {
                reveal_strlit("\\f");
                assert("\\f"@ =~= escape_char(c));
            }
        } else if c == '\n' {
            out.append("\\n");
            proof {
                reveal_strlit("\\n");
                assert("\\n"@ =~= escape_char(c));
            }
        } else if c == '\r' {
            out.append("\\r");
            proof {
                reveal_strlit("\\r");
                assert("\\r"@ =~= escape_char(c));
            }
        } else if c == '\t' {
            out.append("\\t");
            proof {
                reveal_strlit("\\t");
                assert("\\t"@ =~= escape_char(c));
            }
        } else if (c as u32) < 32 {
            out.append("\\u00");
            let code = c as u32;
            let high = hex_digit_char_of((code / 16) as u64);
            let low = hex_digit_char_of((code % 16) as u64);
            push_char(out, high);
            push_char(out, low);
            proof {
                reveal_strlit("\\u00");
                assert("\\u00"@ + seq![high] + seq![low] =~= escape_char(c));
            }
        } else {
            push_char(out, c);
            proof {
                assert(seq![c] =~= escape_char(c));
            }
        }
        proof {
            lemma_escape_chars_step(s@, i as int);
            assert(out@ =~= old(out)@ + escape_chars(s@.take(i + 1 as int)));
        }
        i = i + 1;
    }
    proof {
        assert(s@.take(len as int) =~= s@);
    }
}

/// Appends the JSON object for one record.
fn append_record(out: &mut String, r: &Record)
    ensures
        final(out)@ == old(out)@ + json_of_record(r@),
{
    out.append("{\"field1\":\"");
    append_escaped(out, r.field1.as_str());
    out.append("\",\"field2\":");
    append_int(out, r.field2);
    out.append("}");
    proof {
        assert(out@ =~= old(out)@ + json_of_record(r@));
    }
}

/// The JSON items of a prefix one record longer extend the items of the
/// prefix, with a comma between objects after the first.
proof fn lemma_json_items_step(rs: Seq<RecordView>, i: int)
    requires
        0 <= i < rs.len(),
    ensures
        i == 0 ==> json_of_items(rs.take(1)) == json_of_record(rs[0]),
        i > 0 ==> json_of_items(rs.take(i + 1)) == json_of_items(rs.take(i)) + ","@
            + json_of_record(rs[i]),
{
    let t = rs.take(i + 1);
    assert(t.drop_last() =~= rs.take(i));
    assert(t.last() == rs[i]);
    if i == 0 {
        assert(t[0] == rs[0]);
    }
}

/// Encodes the rows as the response body: a JSON array holding one object
/// per record, in row order.
pub fn encode_records(rows: &Vec<Record>) -> (body: String)
    ensures
        body@ == json_of_records(table_view(rows@)),
{
    let ghost all = table_view(rows@);
    let mut out = String::from_str("[");
    let n = rows.len();
    let mut i: usize = 0;
    while i < n
        invariant
            n == rows@.len(),
            i <= n,
            all == table_view(rows@),
            all.len() == n,
            out@ == "["@ + json_of_items(all.take(i as int)),
        decreases n - i,
    {
        if i > 0 {
            out.append(",");
        }
        append_record(&mut out, &rows[i]);
        proof {
            assert(all[i as int] == rows@[i as int]@);
            lemma_json_items_step(all, i as int);
            assert(out@ =~= "["@ + json_of_items(all.take(i + 1 as int)));
        }
        i = i + 1;
    }
    out.append("]");
    proof {
        assert(all.take(n as int) =~= all);
        assert(out@ =~= json_of_records(all));
    }
    out
}

} // verus!
