//! Properties that hold across the services' functions.

use vstd::prelude::*;
use vstd::utf8::{decode_utf8, encode_utf8, is_ascii_chars, valid_utf8};
use crate::base64_codec::{base64_standard_decode, is_base64_char};
use crate::client::{read_lines, shown_bytes, strip_cr, text_lines, utf8_line};
use crate::decimal::{decimal, digit_char, pad_left};
use crate::json::{json_get, member_value, JsonValue};
use crate::enclave::{kmstool_output_tail, revealed_tail, REVEALED_CHARS};
use crate::forwarder::{
    forward_actions, forward_step, read_sizes, written_sizes, ForwardEvent,
    ForwardState,
};
use crate::ip_ranges::{is_s3_range_in, s3_range_in, s3_ranges, Prefix};
use crate::text::{
    find_from, is_white_space, last_chars, second_field, trim, trim_end, trim_start, utf8_lossy,
};

verus! {

proof fn lemma_find_from_absent<T>(s: Seq<T>, x: T, from: nat)
    requires
        from <= s.len(),
        forall|k: int| from <= k < s.len() ==> s[k] != x,
    ensures
        find_from(s, x, from) == s.len(),
    decreases s.len() - from,
{
    if from < s.len() {
        lemma_find_from_absent(s, x, from + 1);
    }
}

proof fn lemma_find_from_at<T>(s: Seq<T>, x: T, from: nat, i: nat)
    requires
        from <= i < s.len(),
        s[i as int] == x,
        forall|k: int| from <= k < i ==> s[k] != x,
    ensures
        find_from(s, x, from) == i,
    decreases i - from,
{
    if from < i {
        lemma_find_from_at(s, x, from + 1, i);
    }
}

/// The text after the first separator of `head + sep + field`, where
/// neither `head` nor `field` holds the separator, is `field`.
pub proof fn law_second_field_after_separator(head: Seq<char>, field: Seq<char>, sep: char)
    requires
        !head.contains(sep),
        !field.contains(sep),
    ensures
        second_field(head + seq![sep] + field, sep) == Some(field),
{
    let s = head + seq![sep] + field;
    assert forall|k: int| 0 <= k < head.len() implies s[k] != sep by {
        assert(s[k] == head[k]);
    }
    lemma_find_from_at(s, sep, 0, head.len());
    assert forall|k: int| head.len() + 1 <= k < s.len() implies s[k] != sep by {
        assert(s[k] == field[k - head.len() - 1]);
    }
    lemma_find_from_absent(s, sep, head.len() + 1);
    assert(s.subrange(head.len() + 1 as int, s.len() as int) =~= field);
}

/// The enclave reveals at most four characters, and they end the plaintext.
pub proof fn law_revealed_tail_is_short_suffix(plaintext: Seq<char>)
    ensures
        revealed_tail(plaintext).len() <= REVEALED_CHARS,
        revealed_tail(plaintext) == plaintext.skip(
            plaintext.len() - revealed_tail(plaintext).len(),
        ),
{
    if plaintext.len() <= REVEALED_CHARS {
        assert(plaintext.skip(0) =~= plaintext);
    }
}

/// The UTF-8 encoding of the last characters of an ASCII text is the same
/// number of last bytes of its encoding.
proof fn lemma_ascii_tail_bytes(value: Seq<char>)
    requires
        is_ascii_chars(value),
    ensures
        encode_utf8(last_chars(value, REVEALED_CHARS as nat)) == shown_bytes(encode_utf8(value)),
{
    broadcast use vstd::utf8::is_ascii_chars_encode_utf8;

    let tail = last_chars(value, REVEALED_CHARS as nat);
    let bytes = encode_utf8(value);
    assert(is_ascii_chars(tail)) by {
        assert forall|i: int| 0 <= i < tail.len() implies '\0' <= #[trigger] tail[i] <= '\u{7f}' by {
            if value.len() > REVEALED_CHARS {
                assert(tail[i] == value[i + value.len() - REVEALED_CHARS]);
            }
        }
    }
    let tb = encode_utf8(tail);
    assert(tb.len() == tail.len());
    assert(bytes.len() == value.len());
    if value.len() > REVEALED_CHARS {
        assert forall|i: int| 0 <= i < tb.len() implies tb[i] == shown_bytes(bytes)[i] by {
            assert(tail[i] == value[i + value.len() - REVEALED_CHARS]);
            assert(tail[i] as u8 == tb[i]);
            assert(value[i + value.len() - REVEALED_CHARS] as u8 == bytes[i + value.len()
                - REVEALED_CHARS]);
        }
        assert(tb =~= shown_bytes(bytes));
    } else if value.len() == REVEALED_CHARS {
        assert(bytes.skip(0) =~= bytes);
    }
}

/// The client and the enclave agree on the value's last four characters:
/// when `kmstool_enclave_cli` prints, after a first `:` (and a head without
/// one), the base64 text of a plaintext that reads as the client's ASCII
/// value, the enclave answers with exactly the characters whose UTF-8 the
/// client showed as the value's last four bytes.
pub proof fn law_enclave_reveals_what_client_shows(
    value: Seq<char>,
    shown: Seq<char>,
    stdout: Seq<u8>,
    head: Seq<char>,
    field: Seq<char>,
    plaintext: Seq<u8>,
)
    requires
        is_ascii_chars(value),
        encode_utf8(shown) == shown_bytes(encode_utf8(value)),
        utf8_lossy(stdout) == head + seq![':'] + field,
        !head.contains(':'),
        !field.contains(':'),
        base64_standard_decode(trim(field)) == Ok::<Seq<u8>, Seq<char>>(plaintext),
        utf8_lossy(plaintext) == value,
    ensures
        kmstool_output_tail(stdout) == Ok::<Seq<char>, crate::enclave::ServerErrorView>(shown),
{
    broadcast use vstd::utf8::encode_utf8_decode_utf8;

    law_second_field_after_separator(head, field, ':');
    lemma_ascii_tail_bytes(value);
    assert(vstd::utf8::decode_utf8(encode_utf8(shown)) == shown);
    assert(vstd::utf8::decode_utf8(encode_utf8(last_chars(value, REVEALED_CHARS as nat)))
        == last_chars(value, REVEALED_CHARS as nat));
}

/// Base64 text has no surrounding white space: trimming it, as the client
/// does with the ciphertext file before submitting it, leaves it as it was
/// written.
pub proof fn law_trim_keeps_base64_text(text: Seq<char>)
    requires
        forall|i: int| 0 <= i < text.len() ==> is_base64_char(#[trigger] text[i]),
    ensures
        trim(text) == text,
{
    if text.len() > 0 {
        assert(!is_white_space(text[0]));
        assert(!is_white_space(text.last()));
    }
    assert(trim_start(text) == text);
    assert(trim_end(text) == text);
}

/// The copying loop asks to write exactly the chunks it read, whole and in
/// the order read, and nothing else.
pub proof fn law_forward_writes_what_it_reads(state: ForwardState, events: Seq<ForwardEvent>)
    ensures
        written_sizes(forward_actions(state, events)) == read_sizes(state, events),
    decreases events.len(),
{
    if events.len() > 0 {
        let (next, action) = forward_step(state, events[0]);
        law_forward_writes_what_it_reads(next, events.drop_first());
        let actions = forward_actions(state, events);
        assert(actions.drop_first() =~= forward_actions(next, events.drop_first()));
    }
}

proof fn lemma_forward_actions_len(state: ForwardState, events: Seq<ForwardEvent>)
    ensures
        forward_actions(state, events).len() == events.len(),
    decreases events.len(),
{
    if events.len() > 0 {
        lemma_forward_actions_len(forward_step(state, events[0]).0, events.drop_first());
    }
}

/// Once the copying loop has ended it stays ended and only ever stops.
pub proof fn law_forward_done_stays_done(events: Seq<ForwardEvent>)
    ensures
        forall|i: int|
            0 <= i < events.len() ==> forward_actions(ForwardState::Done, events)[i]
                is Stop,
    decreases events.len(),
{
    if events.len() > 0 {
        law_forward_done_stays_done(events.drop_first());
        lemma_forward_actions_len(ForwardState::Done, events.drop_first());
        let actions = forward_actions(ForwardState::Done, events);
        assert forall|i: int| 0 <= i < events.len() implies actions[i] is Stop by {
            if i > 0 {
                assert(actions[i] == forward_actions(ForwardState::Done, events.drop_first())[i
                    - 1]);
            }
        }
    }
}

/// Every address range the service answers with belongs to an entry whose
/// service is exactly `S3` and whose region is exactly the region asked for,
/// and every such entry's range is answered.
pub proof fn law_s3_ranges_exact(prefixes: Seq<Prefix>, region: Seq<char>)
    ensures
        forall|r: Seq<char>|
            #[trigger] s3_ranges(prefixes, region).contains(r) ==> exists|i: int|
                0 <= i < prefixes.len() && (#[trigger] prefixes[i]).service@ == "S3"@
                    && prefixes[i].region@ == region && prefixes[i].ip_prefix@ == r,
        forall|i: int|
            0 <= i < prefixes.len() && (#[trigger] prefixes[i]).service@ == "S3"@
                && prefixes[i].region@ == region ==> s3_ranges(prefixes, region).contains(
                prefixes[i].ip_prefix@,
            ),
    decreases prefixes.len(),
{
    assert forall|r: Seq<char>| #[trigger] s3_ranges(prefixes, region).contains(r) implies exists|
        i: int,
    |
        0 <= i < prefixes.len() && (#[trigger] prefixes[i]).service@ == "S3"@
            && prefixes[i].region@ == region && prefixes[i].ip_prefix@ == r by {
        prefixes.lemma_filter_map_contains(s3_range_in(region), r);
        let p = choose|p: Prefix|
            #[trigger] prefixes.contains(p) && s3_range_in(region)(p) == Some(r);
        let i = choose|i: int| 0 <= i < prefixes.len() && prefixes[i] == p;
        assert(is_s3_range_in(p, region));
        assert(prefixes[i].service@ == "S3"@ && prefixes[i].region@ == region
            && prefixes[i].ip_prefix@ == r);
    }
    if prefixes.len() > 0 {
        let rest = prefixes.drop_last();
        law_s3_ranges_exact(rest, region);
        assert forall|i: int|
            0 <= i < prefixes.len() && (#[trigger] prefixes[i]).service@ == "S3"@
                && prefixes[i].region@ == region implies s3_ranges(prefixes, region).contains(
            prefixes[i].ip_prefix@,
        ) by {
            let out = s3_ranges(prefixes, region);
            assert(is_s3_range_in(prefixes[i], region));
            if i == prefixes.len() - 1 {
                assert(out == s3_ranges(rest, region) + seq![prefixes[i].ip_prefix@]);
                assert(out[out.len() - 1] == prefixes[i].ip_prefix@);
            } else {
                assert(rest[i] == prefixes[i]);
                let sub = s3_ranges(rest, region);
                assert(sub.contains(prefixes[i].ip_prefix@));
                let k = choose|k: int| 0 <= k < sub.len() && sub[k] == prefixes[i].ip_prefix@;
                if is_s3_range_in(prefixes.last(), region) {
                    assert(out == sub + seq![prefixes.last().ip_prefix@]);
                    assert(out[k] == sub[k]);
                } else {
                    assert(out == sub);
                }
            }
        }
    }
}

/// A decimal digit.
pub open spec fn is_decimal_digit(c: char) -> bool {
    '0' <= c <= '9'
}

/// The number the decimal digits `s` stand for, most significant first.
pub open spec fn digits_value(s: Seq<char>) -> nat
    decreases s.len(),
{
    if s.len() == 0 {
        0
    } else {
        digits_value(s.drop_last()) * 10 + ((s.last() as nat) - 48) as nat
    }
}

/// Decimal text is made of digits, has no leading zero (but for zero
/// itself), and reads back as the number it was made from.
pub proof fn law_decimal_reads_back(n: nat)
    ensures
        decimal(n).len() >= 1,
        forall|i: int| 0 <= i < decimal(n).len() ==> is_decimal_digit(#[trigger] decimal(n)[i]),
        digits_value(decimal(n)) == n,
        decimal(n)[0] == '0' ==> n == 0,
    decreases n,
{
    let d = n % 10;
    assert(digit_char(d) as nat == 48 + d);
    vstd::arithmetic::div_mod::lemma_fundamental_div_mod(n as int, 10);
    if n < 10 {
        assert(d == n);
        assert(decimal(n) =~= seq![digit_char(n)]);
        assert(decimal(n).drop_last() =~= Seq::<char>::empty());
        assert(digits_value(Seq::<char>::empty()) == 0);
        assert(decimal(n).last() == digit_char(n));
        assert(digits_value(decimal(n)) == 0 * 10 + ((digit_char(n) as nat) - 48) as nat);
    } else {
        law_decimal_reads_back(n / 10);
        let s = decimal(n);
        let p = decimal(n / 10);
        assert(s == p.push(digit_char(d)));
        assert(s.drop_last() =~= p);
        assert(s[0] == p[0]);
        assert forall|i: int| 0 <= i < s.len() implies is_decimal_digit(#[trigger] s[i]) by {
            if i < p.len() {
                assert(s[i] == p[i]);
            }
        }
        assert(s.last() == digit_char(d));
        assert(digits_value(s) == digits_value(p) * 10 + ((digit_char(d) as nat) - 48) as nat);
        assert(digits_value(s) == (n / 10) * 10 + d);
        assert(n / 10 > 0);
    }
}

/// Right-aligned text is exactly as wide as the field (or the text, when
/// that is wider), ends with the text, and is filled with spaces before it.
pub proof fn law_pad_left_shape(s: Seq<char>, width: nat)
    ensures
        pad_left(s, width).len() == if s.len() >= width { s.len() } else { width },
        pad_left(s, width).skip(pad_left(s, width).len() - s.len()) == s,
        forall|i: int|
            0 <= i < pad_left(s, width).len() - s.len() ==> #[trigger] pad_left(s, width)[i]
                == ' ',
{
    let p = pad_left(s, width);
    assert(p.skip(p.len() - s.len()) =~= s);
}

proof fn lemma_member_value_first(members: Seq<(String, JsonValue)>, key: Seq<char>, i: int)
    requires
        0 <= i < members.len(),
        members[i].0@ == key,
        forall|j: int| 0 <= j < i ==> (#[trigger] members[j]).0@ != key,
    ensures
        member_value(members, key) == Some(members[i].1),
    decreases i,
{
    if i > 0 {
        let rest = members.drop_first();
        assert forall|j: int| 0 <= j < i - 1 implies (#[trigger] rest[j]).0@ != key by {
            assert(rest[j] == members[j + 1]);
        }
        lemma_member_value_first(rest, key, i - 1);
    }
}

proof fn lemma_member_value_absent(members: Seq<(String, JsonValue)>, key: Seq<char>)
    requires
        forall|j: int| 0 <= j < members.len() ==> (#[trigger] members[j]).0@ != key,
    ensures
        member_value(members, key) is None,
    decreases members.len(),
{
    if members.len() > 0 {
        let rest = members.drop_first();
        assert forall|j: int| 0 <= j < rest.len() implies (#[trigger] rest[j]).0@ != key by {
            assert(rest[j] == members[j + 1]);
        }
        lemma_member_value_absent(rest, key);
    }
}

/// Looking up a key in an object finds its first member with that key,
/// wherever it stands among the members; a key no member has is not found;
/// a value that is not an object has no members.
pub proof fn law_member_lookup(v: JsonValue, key: Seq<char>)
    ensures
        v is Object ==> forall|i: int|
            #![trigger v->Object_0@[i]]
            0 <= i < v->Object_0@.len() && v->Object_0@[i].0@ == key && (forall|j: int|
                0 <= j < i ==> (#[trigger] v->Object_0@[j]).0@ != key) ==> json_get(v, key)
                == Some(v->Object_0@[i].1),
        v is Object ==> ((forall|j: int|
            0 <= j < v->Object_0@.len() ==> (#[trigger] v->Object_0@[j]).0@ != key) ==> json_get(
            v,
            key,
        ) is None),
        !(v is Object) ==> json_get(v, key) is None,
{
    if v is Object {
        let members = v->Object_0@;
        assert forall|i: int|
            #![trigger members[i]]
            0 <= i < members.len() && members[i].0@ == key && (forall|j: int|
                0 <= j < i ==> (#[trigger] members[j]).0@ != key) implies json_get(v, key) == Some(
            members[i].1,
        ) by {
            lemma_member_value_first(members, key, i);
        }
        if forall|j: int| 0 <= j < members.len() ==> (#[trigger] members[j]).0@ != key {
            lemma_member_value_absent(members, key);
        }
    }
}

/// What a member lookup finds is the value of the first member with the key,
/// and it finds nothing only when no member has the key.
pub proof fn law_member_value_found(members: Seq<(String, JsonValue)>, key: Seq<char>)
    ensures
        member_value(members, key) is None ==> forall|j: int|
            0 <= j < members.len() ==> (#[trigger] members[j]).0@ != key,
        member_value(members, key) is Some ==> exists|i: int|
            #![trigger members[i]]
            0 <= i < members.len() && members[i].0@ == key && (forall|j: int|
                0 <= j < i ==> (#[trigger] members[j]).0@ != key) && member_value(members, key)
                == Some(members[i].1),
    decreases members.len(),
{
    if members.len() > 0 {
        let rest = members.drop_first();
        law_member_value_found(rest, key);
        if members[0].0@ == key {
            assert(members[0].0@ == key);
        } else {
            assert forall|j: int| 1 <= j < members.len() implies members[j] == rest[j - 1] by {}
            if member_value(members, key) is Some {
                let k = choose|k: int|
                    #![trigger rest[k]]
                    0 <= k < rest.len() && rest[k].0@ == key && (forall|j: int|
                        0 <= j < k ==> (#[trigger] rest[j]).0@ != key) && member_value(rest, key)
                        == Some(rest[k].1);
                assert(members[k + 1] == rest[k]);
                assert forall|j: int| 0 <= j < k + 1 implies (#[trigger] members[j]).0@ != key by {
                    if j > 0 {
                        assert(members[j] == rest[j - 1]);
                    }
                }
            } else {
                assert forall|j: int| 0 <= j < members.len() implies (#[trigger] members[j]).0@
                    != key by {
                    if j > 0 {
                        assert(members[j] == rest[j - 1]);
                    }
                }
            }
        }
    }
}

/// The lines joined back together with newlines.
pub open spec fn join_lines(lines: Seq<Seq<u8>>) -> Seq<u8>
    decreases lines.len(),
{
    if lines.len() == 0 {
        seq![]
    } else if lines.len() == 1 {
        lines[0]
    } else {
        lines[0] + seq![10u8] + join_lines(lines.drop_first())
    }
}

/// The UTF-8 encodings of the texts.
pub open spec fn encode_lines(texts: Seq<Seq<char>>) -> Seq<Seq<u8>> {
    texts.map_values(|t: Seq<char>| encode_utf8(t))
}

/// The newline that ends `content`, if it ends with one.
pub open spec fn final_newline(content: Seq<u8>) -> Seq<u8> {
    if content.len() > 0 && content.last() == 10u8 {
        seq![10u8]
    } else {
        seq![]
    }
}

proof fn lemma_read_lines_nonempty(content: Seq<u8>)
    requires
        content.len() > 0,
    ensures
        read_lines(content).len() > 0,
{
}

/// Lines are read whole: in content without carriage returns, the lines
/// hold no newline, and joining them with newlines (and the final newline,
/// if there is one) gives back the content.
pub proof fn law_lines_are_whole(content: Seq<u8>)
    requires
        !content.contains(13u8),
    ensures
        join_lines(read_lines(content)) + final_newline(content) == content,
        forall|k: int|
            0 <= k < read_lines(content).len() ==> !(#[trigger] read_lines(content)[k]).contains(
                10u8,
            ),
    decreases content.len(),
{
    if content.len() > 0 {
        crate::text::lemma_find_from_bounds(content, 10u8, 0);
        let i = find_from(content, 10u8, 0);
        if i >= content.len() {
            assert(read_lines(content) == seq![content]);
            assert(!content.contains(10u8));
            assert(content.last() != 10u8) by {
                assert(content[content.len() - 1] == content.last());
            }
            assert(join_lines(seq![content]) == content);
            assert(content + Seq::<u8>::empty() =~= content);
        } else {
            let line = content.take(i as int);
            let rest = content.skip(i + 1 as int);
            assert(!line.contains(13u8)) by {
                if line.contains(13u8) {
                    let j = choose|j: int| 0 <= j < line.len() && line[j] == 13u8;
                    assert(content[j] == 13u8);
                }
            }
            assert(strip_cr(line) == line) by {
                if line.len() > 0 {
                    assert(line.last() == line[line.len() - 1]);
                }
            }
            assert(!line.contains(10u8)) by {
                if line.contains(10u8) {
                    let j = choose|j: int| 0 <= j < line.len() && line[j] == 10u8;
                    assert(content[j] == 10u8);
                }
            }
            assert(!rest.contains(13u8)) by {
                if rest.contains(13u8) {
                    let j = choose|j: int| 0 <= j < rest.len() && rest[j] == 13u8;
                    assert(content[j + i + 1] == 13u8);
                }
            }
            law_lines_are_whole(rest);
            let lines = read_lines(content);
            assert(lines == seq![line] + read_lines(rest));
            assert(lines.drop_first() =~= read_lines(rest));
            assert forall|k: int| 0 <= k < lines.len() implies !(#[trigger] lines[k]).contains(
                10u8,
            ) by {
                if k > 0 {
                    assert(lines[k] == read_lines(rest)[k - 1]);
                }
            }
            if rest.len() == 0 {
                assert(i == content.len() - 1);
                assert(content.last() == 10u8);
                assert(join_lines(lines) == line);
                assert(line + seq![10u8] =~= content);
            } else {
                lemma_read_lines_nonempty(rest);
                assert(final_newline(content) == final_newline(rest)) by {
                    assert(content.last() == rest.last());
                }
                assert(join_lines(lines) == line + seq![10u8] + join_lines(read_lines(rest)));
                assert(line + seq![10u8] + join_lines(read_lines(rest)) + final_newline(rest)
                    =~= line + seq![10u8] + (join_lines(read_lines(rest)) + final_newline(rest)));
                assert(line + seq![10u8] + rest =~= content);
            }
        }
    }
}

proof fn lemma_lines_valid(content: Seq<u8>)
    requires
        valid_utf8(content),
    ensures
        forall|k: int|
            0 <= k < read_lines(content).len() ==> valid_utf8(#[trigger] read_lines(content)[k]),
    decreases content.len(),
{
    if content.len() > 0 {
        crate::text::lemma_find_from_bounds(content, 10u8, 0);
        let i = find_from(content, 10u8, 0);
        if i < content.len() {
            let line = content.take(i as int);
            let rest = content.skip(i + 1 as int);
            vstd::utf8::is_char_boundary_iff_is_leading_byte(content, i as int);
            assert(vstd::utf8::is_leading_byte_width_1(content[i as int]));
            vstd::utf8::valid_utf8_split(content, i as int);
            assert(content.subrange(0, i as int) =~= line);
            let d = content.subrange(i as int, content.len() as int);
            assert(d[0] == 10u8);
            assert(vstd::utf8::pop_first_scalar(d) =~= rest);
            lemma_lines_valid(rest);
            if line.len() > 0 && line.last() == 13u8 {
                vstd::utf8::is_char_boundary_iff_is_leading_byte(line, line.len() - 1);
                assert(vstd::utf8::is_leading_byte_width_1(line[line.len() - 1]));
                vstd::utf8::valid_utf8_split(line, line.len() - 1);
                assert(line.subrange(0, line.len() - 1) =~= line.drop_last());
            }
            let lines = read_lines(content);
            assert(lines == seq![strip_cr(line)] + read_lines(rest));
            assert forall|k: int| 0 <= k < lines.len() implies valid_utf8(#[trigger] lines[k]) by {
                if k > 0 {
                    assert(lines[k] == read_lines(rest)[k - 1]);
                }
            }
        }
    }
}

proof fn lemma_text_lines_all_valid(lines: Seq<Seq<u8>>)
    requires
        forall|k: int| 0 <= k < lines.len() ==> valid_utf8(#[trigger] lines[k]),
    ensures
        encode_lines(text_lines(lines)) == lines,
    decreases lines.len(),
{
    broadcast use vstd::utf8::decode_utf8_encode_utf8;

    if lines.len() > 0 {
        let init = lines.drop_last();
        assert forall|k: int| 0 <= k < init.len() implies valid_utf8(#[trigger] init[k]) by {
            assert(init[k] == lines[k]);
        }
        lemma_text_lines_all_valid(init);
        assert(valid_utf8(lines.last()) && utf8_line(lines.last()) == Some(decode_utf8(lines.last())));
        assert(text_lines(lines) == text_lines(init) + seq![decode_utf8(lines.last())]);
        assert(encode_utf8(decode_utf8(lines.last())) == lines.last());
        let m = encode_lines(text_lines(lines));
        let mi = encode_lines(text_lines(init));
        assert(m.len() == lines.len());
        assert forall|k: int| 0 <= k < lines.len() implies m[k] == lines[k] by {
            if k < init.len() {
                assert(text_lines(lines)[k] == text_lines(init)[k]);
                assert(mi[k] == init[k]);
            }
        }
        assert(m =~= lines);
    }
}

/// The values read from a file are its whole lines: for valid UTF-8 content
/// without carriage returns, encoding the values again and joining them with
/// newlines (and the final newline, if there is one) gives back the content.
pub proof fn law_values_are_whole_lines(content: Seq<u8>)
    requires
        !content.contains(13u8),
        valid_utf8(content),
    ensures
        join_lines(encode_lines(text_lines(read_lines(content))))
            + final_newline(content) == content,
{
    law_lines_are_whole(content);
    lemma_lines_valid(content);
    lemma_text_lines_all_valid(read_lines(content));
}

} // verus!
