//! JSON framing of replies: string literals come from `serde_json`, numbers
//! are written here in decimal, exactly as `serde_json` writes them.

use vstd::prelude::*;

verus! {

/// A lowercase hexadecimal digit.
pub open spec fn hex_digit(d: nat) -> char {
    seq!['0', '1', '2', '3', '4', '5', '6', '7', '8', '9', 'a', 'b', 'c', 'd', 'e', 'f'][d as int]
}

/// How a character stands inside a JSON string literal: `"` and `\` are
/// escaped with a backslash, the control characters below U+0020 as `\b`,
/// `\t`, `\n`, `\f`, `\r` or `\u00XX`, and every other character as itself.
pub open spec fn json_escape_char(c: char) -> Seq<char> {
    if c == '"' {
        seq!['\\', '"']
    } else if c == '\\' {
        seq!['\\', '\\']
    } else if c == '\x08' {
        seq!['\\', 'b']
    } else if c == '\t' {
        seq!['\\', 't']
    } else if c == '\n' {
        seq!['\\', 'n']
    } else if c == '\x0c' {
        seq!['\\', 'f']
    } else if c == '\r' {
        seq!['\\', 'r']
    } else if (c as u32) < 0x20 {
        seq!['\\', 'u', '0', '0', hex_digit((c as u32 / 16) as nat), hex_digit((c as u32 % 16) as nat)]
    } else {
        seq![c]
    }
}

/// The characters of a string, each as it stands inside a JSON string literal.
pub open spec fn json_escape(s: Seq<char>) -> Seq<char>
    decreases s.len(),
{
    if s.len() == 0 {
        Seq::empty()
    } else {
        json_escape(s.drop_last()) + json_escape_char(s.last())
    }
}

/// The JSON string literal that `serde_json` writes for a string: the escaped
/// characters between double quotes.
pub open spec fn json_string_literal(s: Seq<char>) -> Seq<char> {
    seq!['"'] + json_escape(s) + seq!['"']
}

/// Whether a character stands as itself in a JSON string literal.
pub open spec fn is_plain_json_char(c: char) -> bool {
    c != '"' && c != '\\' && (c as u32) >= 0x20
}

proof fn lemma_plain_escape(s: Seq<char>)
    requires
        forall|i: int| 0 <= i < s.len() ==> is_plain_json_char(#[trigger] s[i]),
    ensures
        json_escape(s) == s,
    decreases s.len(),
{
    if s.len() > 0 {
        let d = s.drop_last();
        assert forall|i: int| 0 <= i < d.len() implies is_plain_json_char(#[trigger] d[i]) by {
            assert(d[i] == s[i]);
        }
        lemma_plain_escape(d);
        assert(is_plain_json_char(s[s.len() - 1]));
        assert(json_escape(s) =~= s);
    } else {
        assert(json_escape(s) =~= s);
    }
}

/// A string without `"`, `\` or control characters is only put between quotes.
pub proof fn law_plain_text_is_only_quoted(s: Seq<char>)
    requires
        forall|i: int| 0 <= i < s.len() ==> is_plain_json_char(#[trigger] s[i]),
    ensures
        json_string_literal(s) == seq!['"'] + s + seq!['"'],
{
    lemma_plain_escape(s);
}

/// Escaping works character by character: the escape of two texts put together
/// is the two escapes put together.
pub proof fn law_json_escape_concat(a: Seq<char>, b: Seq<char>)
    ensures
        json_escape(a + b) == json_escape(a) + json_escape(b),
    decreases b.len(),
{
    if b.len() == 0 {
        assert(a + b =~= a);
        assert(json_escape(b) =~= Seq::<char>::empty());
        assert(json_escape(a) + json_escape(b) =~= json_escape(a));
    } else {
        law_json_escape_concat(a, b.drop_last());
        assert((a + b).drop_last() =~= a + b.drop_last());
        assert((a + b).last() == b.last());
        assert(json_escape(a + b) =~= json_escape(a) + json_escape(b));
    }
}

/// A character that does not stand as itself (`"`, `\` or a control
/// character) is written as a backslash followed by its escape, never as
/// itself; every other character is written as itself.
pub proof fn law_json_escape_char(c: char)
    ensures
        is_plain_json_char(c) ==> json_escape_char(c) == seq![c],
        !is_plain_json_char(c) ==> json_escape_char(c).len() >= 2 && json_escape_char(c)[0]
            == '\\',
        c == '"' ==> json_escape_char(c) == seq!['\\', '"'],
        c == '\\' ==> json_escape_char(c) == seq!['\\', '\\'],
        c == '\n' ==> json_escape_char(c) == seq!['\\', 'n'],
{
}

#[verifier::external_type_specification]
#[verifier::external_body]
pub struct ExSerdeJsonError(serde_json::Error);

/// Calls `serde_json::to_string` on a `&str`. Trusted: the result is `Ok` (a
/// string's `Serialize` never fails and the writer is an in-memory buffer),
/// and its text is the argument between double quotes with `"`, `\` and the
/// control characters escaped as `json_escape_char` states (the escape table
/// and `write_char_escape` of serde_json's serializer).
#[verifier::external_body]
fn serde_json_to_string(s: &str) -> (r: Result<String, serde_json::Error>)
    ensures
        r is Ok,
        r matches Ok(q) ==> q@ == json_string_literal(s@),
{
    serde_json::to_string(s)
}

/// The JSON string literal of `s`.
pub fn json_str(s: &str) -> (r: String)
    ensures
        r@ == json_string_literal(s@),
{
    match serde_json_to_string(s) {
        Ok(q) => q,
        Err(_) => {
            proof {
                assert(false);
            }
            String::new()
        },
    }
}

/// The character of a decimal digit.
pub open spec fn digit_char(d: nat) -> char {
    seq!['0', '1', '2', '3', '4', '5', '6', '7', '8', '9'][d as int]
}

/// The decimal notation of a natural number, without leading zeros.
pub open spec fn decimal(n: nat) -> Seq<char>
    decreases n,
{
    if n < 10 {
        seq![digit_char(n)]
    } else {
        decimal(n / 10).push(digit_char(n % 10))
    }
}

/// The decimal notation of an integer, with a leading `-` when it is negative.
pub open spec fn signed_decimal(n: int) -> Seq<char> {
    if n < 0 {
        seq!['-'] + decimal((-n) as nat)
    } else {
        decimal(n as nat)
    }
}

/// Whether `c` is one of the digits `0` to `9`.
pub open spec fn is_digit(c: char) -> bool {
    '0' <= c <= '9'
}

/// The value of a digit character.
pub open spec fn digit_value(c: char) -> int {
    c as int - '0' as int
}

/// The number that a text of digits stands for, read in base 10.
pub open spec fn digits_value(s: Seq<char>) -> int
    decreases s.len(),
{
    if s.len() == 0 {
        0
    } else {
        digits_value(s.drop_last()) * 10 + digit_value(s.last())
    }
}

proof fn lemma_digit_char(d: nat)
    requires
        d < 10,
    ensures
        is_digit(digit_char(d)),
        digit_value(digit_char(d)) == d,
        d > 0 ==> digit_char(d) != '0',
{
    let t = seq!['0', '1', '2', '3', '4', '5', '6', '7', '8', '9'];
    if d == 0 {
        assert(t[0] == '0');
    } else if d == 1 {
        assert(t[1] == '1');
    } else if d == 2 {
        assert(t[2] == '2');
    } else if d == 3 {
        assert(t[3] == '3');
    } else if d == 4 {
        assert(t[4] == '4');
    } else if d == 5 {
        assert(t[5] == '5');
    } else if d == 6 {
        assert(t[6] == '6');
    } else if d == 7 {
        assert(t[7] == '7');
    } else if d == 8 {
        assert(t[8] == '8');
    } else {
        assert(t[9] == '9');
    }
}

/// The decimal text of a number is made of digits, has no leading zero, and
/// reads back, in base 10, as the number itself.
pub proof fn law_decimal_reads_back(n: nat)
    ensures
        decimal(n).len() >= 1,
        forall|i: int| 0 <= i < decimal(n).len() ==> is_digit(#[trigger] decimal(n)[i]),
        n > 0 ==> decimal(n)[0] != '0',
        digits_value(decimal(n)) == n,
    decreases n,
{
    if n < 10 {
        lemma_digit_char(n);
        assert(decimal(n).drop_last() =~= Seq::<char>::empty());
        assert(digits_value(Seq::<char>::empty()) == 0);
        assert(decimal(n).last() == digit_char(n));
        assert(digits_value(decimal(n)) == digits_value(decimal(n).drop_last()) * 10 + digit_value(
            decimal(n).last(),
        ));
    } else {
        let q = n / 10;
        let r = n % 10;
        law_decimal_reads_back(q);
        lemma_digit_char(r);
        let d = decimal(n);
        assert(d == decimal(q).push(digit_char(r)));
        assert(d.drop_last() =~= decimal(q));
        assert(n == q * 10 + r);
        assert(d.last() == digit_char(r));
        assert(digits_value(d) == digits_value(d.drop_last()) * 10 + digit_value(d.last()));
        assert forall|i: int| 0 <= i < d.len() implies is_digit(#[trigger] d[i]) by {
            if i < decimal(q).len() {
                assert(d[i] == decimal(q)[i]);
            }
        }
        assert(d[0] == decimal(q)[0]);
    }
}

/// The signed decimal text of a number reads back as the number: a `-`
/// followed by the digits of its magnitude when it is negative, its digits
/// otherwise.
pub proof fn law_signed_decimal_reads_back(n: int)
    ensures
        n < 0 ==> signed_decimal(n)[0] == '-' && digits_value(signed_decimal(n).skip(1)) == -n,
        n >= 0 ==> digits_value(signed_decimal(n)) == n,
{
    if n < 0 {
        law_decimal_reads_back((-n) as nat);
        assert(signed_decimal(n).skip(1) =~= decimal((-n) as nat));
    } else {
        law_decimal_reads_back(n as nat);
    }
}

fn digit_str(d: u64) -> (r: &'static str)
    requires
        d < 10,
    ensures
        r@ == seq![digit_char(d as nat)],
{
    proof {
        reveal_strlit("0");
        reveal_strlit("1");
        reveal_strlit("2");
        reveal_strlit("3");
        reveal_strlit("4");
        reveal_strlit("5");
        reveal_strlit("6");
        reveal_strlit("7");
        reveal_strlit("8");
        reveal_strlit("9");
    }
    if d == 0 {
        "0"
    } else if d == 1 {
        "1"
    } else if d == 2 {
        "2"
    } else if d == 3 {
        "3"
    } else if d == 4 {
        "4"
    } else if d == 5 {
        "5"
    } else if d == 6 {
        "6"
    } else if d == 7 {
        "7"
    } else if d == 8 {
        "8"
    } else {
        "9"
    }
}

/// Appends the decimal notation of `n` to `out`.
pub fn push_decimal(out: &mut String, n: u64)
    ensures
        final(out)@ == old(out)@ + decimal(n as nat),
    decreases n,
{
    if n >= 10 {
        push_decimal(out, n / 10);
    }
    out.append(digit_str(n % 10));
    proof {
        if n >= 10 {
            assert(decimal(n as nat) == decimal((n / 10) as nat).push(digit_char((n % 10) as nat)));
        }
    }
    assert(out@ =~= old(out)@ + decimal(n as nat));
}

/// Appends the decimal notation of `n` to `out`, with a leading `-` when `n`
/// is negative.
pub fn push_signed_decimal(out: &mut String, n: i64)
    ensures
        final(out)@ == old(out)@ + signed_decimal(n as int),
{
    if n < 0 {
        out.append("-");
        proof {
            reveal_strlit("-");
        }
        let magnitude: u64 = if n == i64::MIN {
            9223372036854775808u64
        } else {
            (-n) as u64
        };
        push_decimal(out, magnitude);
        assert(out@ =~= old(out)@ + signed_decimal(n as int));
    } else {
        push_decimal(out, n as u64);
    }
}

} // verus!
