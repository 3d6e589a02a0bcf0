//! How the file store names things on disk: a record file is named by the
//! hexadecimal form of its id, and an idempotency mapping by the hexadecimal
//! form of its scoped key (the scope fields and the key joined by the unit
//! separator).

use vstd::prelude::*;
use vstd::string::StringSliceAdditionalSpecFns;
use vstd::utf8::{decode_utf8, encode_utf8, valid_utf8};
use crate::model::MemoryScope;
use crate::text::{lemma_split_join, lemma_split_single, push_char, spec_split, split_text};

verus! {

/// The lower-case hexadecimal digit of a nibble.
pub open spec fn spec_hex_digit(value: u8) -> char {
    if value <= 9 {
        ((('0' as u8) + value) as u8) as char
    } else if value <= 15 {
        ((('a' as u8) + (value - 10)) as u8) as char
    } else {
        '0'
    }
}

/// The hexadecimal form of bytes: two lower-case digits per byte, high
/// nibble first.
pub open spec fn spec_hex(bytes: Seq<u8>) -> Seq<char>
    decreases bytes.len(),
{
    if bytes.len() == 0 {
        seq![]
    } else {
        let b = bytes.last();
        spec_hex(bytes.drop_last()) + seq![spec_hex_digit(b >> 4), spec_hex_digit(b & 15)]
    }
}

/// The value of a hexadecimal digit of either case.
pub open spec fn spec_nibble(c: char) -> Option<u8> {
    if '0' <= c && c <= '9' {
        Some(((c as u32) - ('0' as u32)) as u8)
    } else if 'a' <= c && c <= 'f' {
        Some(((c as u32) - ('a' as u32) + 10) as u8)
    } else if 'A' <= c && c <= 'F' {
        Some(((c as u32) - ('A' as u32) + 10) as u8)
    } else {
        None
    }
}

/// The bytes that hexadecimal text (given as its bytes, each read as a
/// character) stands for, if every pair of bytes is two hexadecimal digits.
pub open spec fn spec_unhex_bytes(text: Seq<u8>) -> Option<Seq<u8>>
    decreases text.len(),
{
    if text.len() < 2 {
        if text.len() == 0 {
            Some(seq![])
        } else {
            None
        }
    } else {
        let n = text.len();
        match (
            spec_unhex_bytes(text.subrange(0, n - 2)),
            spec_nibble(text[n - 2] as char),
            spec_nibble(text[n - 1] as char),
        ) {
            (Some(init), Some(high), Some(low)) => Some(init.push(((high << 4) | low) as u8)),
            _ => None,
        }
    }
}

/// The text that a hexadecimal name stands for: its digits must pair up
/// into bytes that are valid UTF-8.
pub open spec fn spec_unhex_key(name: Seq<char>) -> Option<Seq<char>> {
    let text = encode_utf8(name);
    if text.len() % 2 != 0 {
        None
    } else {
        match spec_unhex_bytes(text) {
            Some(bytes) => if valid_utf8(bytes) {
                Some(decode_utf8(bytes))
            } else {
                None
            },
            None => None,
        }
    }
}

/// The lower-case hexadecimal digit of a nibble (`0` for anything larger).
pub fn nibble_to_hex(value: u8) -> (r: char)
    ensures
        r == spec_hex_digit(value),
{
    if value <= 9 {
        (48u8 + value) as char
    } else if value <= 15 {
        (97u8 + (value - 10)) as char
    } else {
        '0'
    }
}

/// The value of a hexadecimal digit of either case.
pub fn hex_to_nibble(value: char) -> (r: Option<u8>)
    ensures
        r == spec_nibble(value),
{
    if '0' <= value && value <= '9' {
        Some(((value as u32) - ('0' as u32)) as u8)
    } else if 'a' <= value && value <= 'f' {
        Some(((value as u32) - ('a' as u32) + 10) as u8)
    } else if 'A' <= value && value <= 'F' {
        Some(((value as u32) - ('A' as u32) + 10) as u8)
    } else {
        None
    }
}

/// The hexadecimal form of the UTF-8 bytes of a text.
pub fn hex_key(input: &str) -> (r: String)
    ensures
        r@ == spec_hex(encode_utf8(input@)),
{
    let bytes = input.as_bytes();
    let mut output = String::new();
    let n = bytes.len();
    let mut i: usize = 0;
    while i < n
        invariant
            n == bytes@.len(),
            bytes@ == encode_utf8(input@),
            i <= n,
            output@ == spec_hex(bytes@.subrange(0, i as int)),
        decreases n - i,
    {
        let b = bytes[i];
        proof {
            let next = bytes@.subrange(0, i + 1);
            assert(next.drop_last() =~= bytes@.subrange(0, i as int));
            assert(next.last() == b);
        }
        push_char(&mut output, nibble_to_hex(b >> 4));
        push_char(&mut output, nibble_to_hex(b & 0x0f));
        assert(output@ =~= spec_hex(bytes@.subrange(0, i + 1)));
        i += 1;
    }
    assert(bytes@.subrange(0, n as int) =~= bytes@);
    output
}

/// Calls `String::from_utf8`: the text the bytes encode, or `None` (for its
/// error) when they are not valid UTF-8.
#[verifier::external_body]
fn string_from_utf8(bytes: Vec<u8>) -> (r: Option<String>)
    ensures
        match r {
            Some(s) => valid_utf8(bytes@) && s@ == decode_utf8(bytes@),
            None => !valid_utf8(bytes@),
        },
{
    String::from_utf8(bytes).ok()
}

/// The text a hexadecimal name stands for, if it is one.
pub fn unhex_key(input: &str) -> (r: Option<String>)
    ensures
        match r {
            Some(s) => spec_unhex_key(input@) == Some(s@),
            None => spec_unhex_key(input@) is None,
        },
{
    let text = input.as_bytes();
    let n = text.len();
    if n % 2 != 0 {
        return None;
    }
    let mut bytes: Vec<u8> = Vec::new();
    let mut i: usize = 0;
    while i < n
        invariant
            n == text@.len(),
            text@ == encode_utf8(input@),
            n % 2 == 0,
            i % 2 == 0,
            i <= n,
            spec_unhex_bytes(text@.subrange(0, i as int)) == Some(bytes@),
        decreases n - i,
    {
        proof {
            let next = text@.subrange(0, i + 2);
            assert(next.subrange(0, i as int) =~= text@.subrange(0, i as int));
            assert(next[i as int] == text@[i as int]);
            assert(next[i + 1] == text@[i + 1]);
        }
        let high = match hex_to_nibble(text[i] as char) {
            Some(v) => v,
            None => {
                proof {
                    lemma_unhex_prefix_fails(text@, i as int + 2);
                }
                return None;
            },
        };
        let low = match hex_to_nibble(text[i + 1] as char) {
            Some(v) => v,
            None => {
                proof {
                    lemma_unhex_prefix_fails(text@, i as int + 2);
                }
                return None;
            },
        };
        bytes.push((high << 4) | low);
        i += 2;
    }
    assert(text@.subrange(0, n as int) =~= text@);
    string_from_utf8(bytes)
}

proof fn lemma_unhex_prefix_fails(text: Seq<u8>, k: int)
    requires
        2 <= k <= text.len(),
        k % 2 == 0,
        text.len() % 2 == 0,
        spec_unhex_bytes(text.subrange(0, k)) is None,
    ensures
        spec_unhex_bytes(text) is None,
    decreases text.len() - k,
{
    if k < text.len() {
        if k + 2 <= text.len() {
            let next = text.subrange(0, k + 2);
            assert(next.subrange(0, k) =~= text.subrange(0, k));
            lemma_unhex_prefix_fails(text, k + 2);
        }
    } else {
        assert(text.subrange(0, k) =~= text);
    }
}

proof fn lemma_hex_digit_round_trip(v: u8)
    requires
        v <= 15,
    ensures
        ('\0' <= spec_hex_digit(v) <= '\u{7f}'),
        spec_nibble((spec_hex_digit(v) as u8) as char) == Some(v),
{
}

proof fn lemma_byte_from_nibbles(b: u8)
    ensures
        b >> 4 <= 15,
        b & 15 <= 15,
        (((b >> 4) << 4) | (b & 15)) as u8 == b,
{
    assert(b >> 4 <= 15) by (bit_vector);
    assert(b & 15 <= 15) by (bit_vector);
    assert((((b >> 4) << 4) | (b & 15)) as u8 == b) by (bit_vector);
}

proof fn lemma_hex_is_ascii(bytes: Seq<u8>)
    ensures
        spec_hex(bytes).len() == 2 * bytes.len(),
        vstd::utf8::is_ascii_chars(spec_hex(bytes)),
    decreases bytes.len(),
{
    if bytes.len() > 0 {
        let b = bytes.last();
        lemma_hex_is_ascii(bytes.drop_last());
        lemma_byte_from_nibbles(b);
        lemma_hex_digit_round_trip(b >> 4);
        lemma_hex_digit_round_trip(b & 15);
        let h = spec_hex(bytes.drop_last());
        let t = seq![spec_hex_digit(b >> 4), spec_hex_digit(b & 15)];
        assert forall|i| 0 <= i < spec_hex(bytes).len() implies '\0' <= #[trigger] spec_hex(
            bytes,
        )[i] <= '\u{7f}' by {
            if i < h.len() {
                assert(spec_hex(bytes)[i] == h[i]);
            } else {
                assert(spec_hex(bytes)[i] == t[i - h.len()]);
            }
        }
    }
}

/// The bytes of ASCII text, one per character.
pub open spec fn spec_ascii_bytes(chars: Seq<char>) -> Seq<u8> {
    chars.map_values(|c: char| c as u8)
}

proof fn lemma_unhex_of_hex(bytes: Seq<u8>)
    ensures
        spec_unhex_bytes(spec_ascii_bytes(spec_hex(bytes))) == Some(bytes),
    decreases bytes.len(),
{
    if bytes.len() == 0 {
        assert(spec_ascii_bytes(spec_hex(bytes)) =~= Seq::<u8>::empty());
        assert(bytes =~= Seq::<u8>::empty());
    } else {
        let b = bytes.last();
        let init = bytes.drop_last();
        lemma_unhex_of_hex(init);
        lemma_hex_is_ascii(init);
        lemma_byte_from_nibbles(b);
        lemma_hex_digit_round_trip(b >> 4);
        lemma_hex_digit_round_trip(b & 15);
        let text = spec_ascii_bytes(spec_hex(bytes));
        let n = text.len();
        assert(n == 2 * bytes.len());
        assert(text.subrange(0, n - 2) =~= spec_ascii_bytes(spec_hex(init)));
        assert(text[n - 2] == spec_hex_digit(b >> 4) as u8);
        assert(text[n - 1] == spec_hex_digit(b & 15) as u8);
        assert(init.push(b) =~= bytes);
    }
}

/// Reading back the hexadecimal name of a text gives the text: the file
/// name of a record or mapping always leads back to its id or scoped key.
pub proof fn lemma_unhex_hex_key(text: Seq<char>)
    ensures
        spec_unhex_key(spec_hex(encode_utf8(text))) == Some(text),
{
    let bytes = encode_utf8(text);
    let name = spec_hex(bytes);
    lemma_hex_is_ascii(bytes);
    vstd::utf8::is_ascii_chars_encode_utf8(name);
    assert(encode_utf8(name) =~= spec_ascii_bytes(name));
    lemma_unhex_of_hex(bytes);
    vstd::utf8::encode_utf8_valid_utf8(text);
    vstd::utf8::encode_utf8_decode_utf8(text);
}

/// The separator between the fields of a scoped key.
pub const SCOPE_KEY_SEPARATOR: char = '\u{1f}';

/// An optional text, or the empty text when absent.
pub open spec fn spec_or_empty(value: Option<String>) -> Seq<char> {
    match value {
        Some(v) => v@,
        None => seq![],
    }
}

/// The key an idempotency key is stored under: tenant, namespace, actor,
/// conversation and session of the scope (absent ones empty) and the key,
/// joined by the unit separator.
pub open spec fn spec_scoped_key(scope: MemoryScope, key: Seq<char>) -> Seq<char> {
    scope.tenant_id@ + seq!['\u{1f}'] + scope.namespace@ + seq!['\u{1f}'] + scope.actor_id@ + seq![
        '\u{1f}',
    ] + spec_or_empty(scope.conversation_id) + seq!['\u{1f}'] + spec_or_empty(scope.session_id)
        + seq!['\u{1f}'] + key
}

/// Builds the key an idempotency key is stored under.
pub fn scoped_key(scope: &MemoryScope, key: &str) -> (r: String)
    ensures
        r@ == spec_scoped_key(*scope, key@),
{
    let mut out = String::from_str(scope.tenant_id.as_str());
    push_char(&mut out, '\u{1f}');
    out.append(scope.namespace.as_str());
    push_char(&mut out, '\u{1f}');
    out.append(scope.actor_id.as_str());
    push_char(&mut out, '\u{1f}');
    match &scope.conversation_id {
        Some(c) => out.append(c.as_str()),
        None => {},
    }
    push_char(&mut out, '\u{1f}');
    match &scope.session_id {
        Some(c) => out.append(c.as_str()),
        None => {},
    }
    push_char(&mut out, '\u{1f}');
    out.append(key);
    proof {
        assert(spec_or_empty(scope.conversation_id) == match &scope.conversation_id {
            Some(c) => c@,
            None => Seq::<char>::empty(),
        });
    }
    assert(out@ =~= spec_scoped_key(*scope, key@));
    out
}

/// The fields of a scoped key.
pub struct ScopeKeyParts {
    pub tenant_id: String,
    pub namespace: String,
    pub actor_id: String,
    pub conversation_id: Option<String>,
    pub session_id: Option<String>,
    pub idempotency_key: String,
}

/// An optional field: absent when empty.
pub open spec fn spec_nonempty(piece: Seq<char>) -> Option<Seq<char>> {
    if piece.len() == 0 {
        None
    } else {
        Some(piece)
    }
}

/// The text form of an optional owned text.
pub open spec fn spec_option_view(value: Option<String>) -> Option<Seq<char>> {
    match value {
        Some(v) => Some(v@),
        None => None,
    }
}

/// Whether `parts` holds the six fields of a scoped key split at its
/// separators, an empty conversation or session counting as absent.
pub open spec fn spec_parts_of(parts: ScopeKeyParts, pieces: Seq<Seq<char>>) -> bool {
    &&& pieces.len() == 6
    &&& parts.tenant_id@ == pieces[0]
    &&& parts.namespace@ == pieces[1]
    &&& parts.actor_id@ == pieces[2]
    &&& spec_option_view(parts.conversation_id) == spec_nonempty(pieces[3])
    &&& spec_option_view(parts.session_id) == spec_nonempty(pieces[4])
    &&& parts.idempotency_key@ == pieces[5]
}

fn nonempty_text(piece: &String) -> (r: Option<String>)
    ensures
        spec_option_view(r) == spec_nonempty(piece@),
{
    if piece.unicode_len() == 0 {
        None
    } else {
        Some(piece.clone())
    }
}

/// Splits a scoped key into its fields; anything but exactly six fields is
/// no scoped key.
pub fn parse_scope_key(scoped_key: &str) -> (r: Option<ScopeKeyParts>)
    ensures
        r is Some <==> spec_split(scoped_key@, '\u{1f}').len() == 6,
        r matches Some(parts) ==> spec_parts_of(parts, spec_split(scoped_key@, '\u{1f}')),
{
    let parts = split_text(scoped_key, '\u{1f}');
    let ghost pieces = parts@.map_values(|p: String| p@);
    if parts.len() != 6 {
        return None;
    }
    assert(pieces[0] == parts@[0]@);
    Some(
        ScopeKeyParts {
            tenant_id: parts[0].clone(),
            namespace: parts[1].clone(),
            actor_id: parts[2].clone(),
            conversation_id: nonempty_text(&parts[3]),
            session_id: nonempty_text(&parts[4]),
            idempotency_key: parts[5].clone(),
        },
    )
}

/// Whether a text holds no unit separator, so that it survives being a field
/// of a scoped key.
pub open spec fn spec_separator_free(t: Seq<char>) -> bool {
    !t.contains('\u{1f}')
}

/// Splitting a scoped key gives back the scope fields and the key, provided
/// no field holds the separator; an absent conversation or session comes back
/// absent, and so does an empty one.
pub proof fn lemma_scoped_key_round_trip(scope: MemoryScope, key: Seq<char>)
    requires
        spec_separator_free(scope.tenant_id@),
        spec_separator_free(scope.namespace@),
        spec_separator_free(scope.actor_id@),
        spec_separator_free(spec_or_empty(scope.conversation_id)),
        spec_separator_free(spec_or_empty(scope.session_id)),
        spec_separator_free(key),
    ensures
        spec_split(spec_scoped_key(scope, key), '\u{1f}') == seq![
            scope.tenant_id@,
            scope.namespace@,
            scope.actor_id@,
            spec_or_empty(scope.conversation_id),
            spec_or_empty(scope.session_id),
            key,
        ],
{
    let us = '\u{1f}';
    let a = scope.tenant_id@;
    let b = scope.namespace@;
    let c = scope.actor_id@;
    let d = spec_or_empty(scope.conversation_id);
    let e = spec_or_empty(scope.session_id);
    lemma_split_single(a, us);
    lemma_split_join(a, b, us);
    let ab = a + seq![us] + b;
    lemma_split_join(ab, c, us);
    let abc = ab + seq![us] + c;
    lemma_split_join(abc, d, us);
    let abcd = abc + seq![us] + d;
    lemma_split_join(abcd, e, us);
    let abcde = abcd + seq![us] + e;
    lemma_split_join(abcde, key, us);
    assert(abcde + seq![us] + key =~= spec_scoped_key(scope, key));
    assert(seq![a].push(b).push(c).push(d).push(e).push(key) =~= seq![a, b, c, d, e, key]);
}

} // verus!
