//! The canonical text an envelope or certificate is signed over.
//!
//! Signatures only verify reliably when both ends produce the same bytes,
//! so the encoding is pinned down here as a spec-level function of the
//! field values, and the builders are proved to produce exactly that text.
//! The shape is JSON with fields in declaration order: string fields are
//! quoted with `"` , `\` and control characters escaped, the creation time
//! is a decimal integer, and a payload is framed verbatim as the value of
//! its field.

use vstd::prelude::*;
use vstd::string::StrSliceExecFns;
use vstd::string::StringExecFns;

verus! {

/// Relies on std's `String::push`: it appends the character.
pub assume_specification [ String::push ](s: &mut String, c: char)
    ensures
        final(s)@ == old(s)@.push(c),
;

/// The sixteen lower-case hexadecimal digit characters; the first ten
/// double as the decimal digits.
pub open spec fn spec_hex_char(d: int) -> char {
    seq!['0', '1', '2', '3', '4', '5', '6', '7', '8', '9', 'a', 'b', 'c', 'd', 'e', 'f'][d]
}

/// The hexadecimal digit character for a value below sixteen.
pub fn hex_char_of(d: u8) -> (c: char)
    requires
        d < 16,
    ensures
        c == spec_hex_char(d as int),
{
    match d {
        0 => '0',
        1 => '1',
        2 => '2',
        3 => '3',
        4 => '4',
        5 => '5',
        6 => '6',
        7 => '7',
        8 => '8',
        9 => '9',
        10 => 'a',
        11 => 'b',
        12 => 'c',
        13 => 'd',
        14 => 'e',
        _ => 'f',
    }
}

/// How one character appears inside a quoted string: `"` and `\` get a
/// backslash, control characters become `\u00xx`, and every other
/// character stands for itself.
pub open spec fn esc_char(c: char) -> Seq<char> {
    if c == '"' {
        seq!['\\', '"']
    } else if c == '\\' {
        seq!['\\', '\\']
    } else if (c as u32) < 32 {
        seq!['\\', 'u', '0', '0', spec_hex_char(c as u32 as int / 16), spec_hex_char(c as u32 as int % 16)]
    } else {
        seq![c]
    }
}

/// The escaped body of a quoted string.
pub open spec fn escaped(s: Seq<char>) -> Seq<char>
    decreases s.len(),
{
    if s.len() == 0 {
        Seq::empty()
    } else {
        esc_char(s[0]) + escaped(s.drop_first())
    }
}

/// A string field's full appearance: quotes around the escaped body.
pub open spec fn quoted(s: Seq<char>) -> Seq<char> {
    seq!['"'] + escaped(s) + seq!['"']
}

/// The decimal digit characters of a number, most significant first.
pub open spec fn dec_digits(n: nat) -> Seq<char>
    decreases n,
{
    if n < 10 {
        seq![spec_hex_char(n as int)]
    } else {
        dec_digits(n / 10).push(spec_hex_char((n % 10) as int))
    }
}

/// Escaping distributes over concatenation.
pub proof fn lemma_escaped_add(a: Seq<char>, b: Seq<char>)
    ensures
        escaped(a + b) == escaped(a) + escaped(b),
    decreases a.len(),
{
    if a.len() == 0 {
        assert(a + b =~= b);
        assert(escaped(a) + escaped(b) =~= escaped(b));
    } else {
        assert((a + b).drop_first() =~= a.drop_first() + b);
        lemma_escaped_add(a.drop_first(), b);
        assert(escaped(a + b) =~= escaped(a) + escaped(b));
    }
}

/// Extending the escaped prefix by one character.
proof fn lemma_escaped_take_step(s: Seq<char>, i: int)
    requires
        0 <= i < s.len(),
    ensures
        escaped(s.take(i + 1)) == escaped(s.take(i)) + esc_char(s[i]),
{
    let single = seq![s[i]];
    assert(s.take(i + 1) =~= s.take(i) + single);
    lemma_escaped_add(s.take(i), single);
    assert(single.drop_first() =~= Seq::<char>::empty());
    assert(escaped(single) == esc_char(single[0]) + escaped(single.drop_first()));
    assert(escaped(Seq::<char>::empty()) =~= Seq::<char>::empty());
    assert(escaped(single) =~= esc_char(s[i]));
}

/// Appends the escaped body of `s` to `out`.
pub fn escape_into(out: &mut String, s: &str)
    ensures
        final(out)@ == old(out)@ + escaped(s@),
{
    let n = s.unicode_len();
    let mut i: usize = 0;
    while i < n
        invariant
            n == s@.len(),
            i <= n,
            out@ == old(out)@ + escaped(s@.take(i as int)),
        decreases n - i,
    {
        let c = s.get_char(i);
        proof {
            lemma_escaped_take_step(s@, i as int);
        }
        if c == '"' {
            out.push('\\');
            out.push('"');
        } else if c == '\\' {
            out.push('\\');
            out.push('\\');
        } else if (c as u32) < 32 {
            out.push('\\');
            out.push('u');
            out.push('0');
            out.push('0');
            out.push(hex_char_of((c as u32 / 16) as u8));
            out.push(hex_char_of((c as u32 % 16) as u8));
        } else {
            out.push(c);
        }
        proof {
            assert(out@ =~= old(out)@ + escaped(s@.take(i + 1)));
        }
        i = i + 1;
    }
    proof {
        assert(s@.take(n as int) =~= s@);
    }
}

/// Appends `s` as a quoted, escaped string field value.
pub fn append_quoted(out: &mut String, s: &str)
    ensures
        final(out)@ == old(out)@ + quoted(s@),
{
    out.push('"');
    escape_into(out, s);
    out.push('"');
    proof {
        assert(out@ =~= old(out)@ + quoted(s@));
    }
}

/// Appends the decimal digits of `n`, most significant first.
pub fn append_u64_dec(out: &mut String, n: u64)
    ensures
        final(out)@ == old(out)@ + dec_digits(n as nat),
    decreases n,
{
    if n < 10 {
        out.push(hex_char_of(n as u8));
        proof {
            assert(out@ =~= old(out)@ + dec_digits(n as nat));
        }
    } else {
        append_u64_dec(out, n / 10);
        out.push(hex_char_of((n % 10) as u8));
        proof {
            assert(out@ =~= old(out)@ + dec_digits(n as nat));
        }
    }
}

/// The canonical text of an envelope: the user, the challenge and the
/// payload, bound together; the payload text is framed verbatim.
pub open spec fn envelope_text(user: Seq<char>, challenge: Seq<char>, data: Seq<char>) -> Seq<
    char,
> {
    "{\"user\":"@ + quoted(user) + ",\"challenge\":"@ + quoted(challenge) + ",\"data\":"@ + data
        + "}"@
}

/// The canonical text of a certificate; an absent contact is omitted
/// entirely rather than written as a null.
pub open spec fn certificate_text(
    name: Seq<char>,
    contact: Option<Seq<char>>,
    pubkey: Seq<char>,
    created: u64,
) -> Seq<char> {
    "{\"name\":"@ + quoted(name) + (match contact {
        Some(c) => ",\"contact\":"@ + quoted(c),
        None => Seq::<char>::empty(),
    }) + ",\"pubkey\":"@ + quoted(pubkey) + ",\"created\":"@ + dec_digits(created as nat) + "}"@
}

/// The canonical text of a bare name, as signed when requesting a
/// challenge: a single quoted string.
pub open spec fn name_text(name: Seq<char>) -> Seq<char> {
    quoted(name)
}

/// Builds the canonical envelope text.
pub fn envelope_text_of(user: &str, challenge: &str, data: &str) -> (r: String)
    ensures
        r@ == envelope_text(user@, challenge@, data@),
{
    let mut out = String::new();
    out.append("{\"user\":");
    append_quoted(&mut out, user);
    out.append(",\"challenge\":");
    append_quoted(&mut out, challenge);
    out.append(",\"data\":");
    out.append(data);
    out.append("}");
    proof {
        assert(out@ =~= envelope_text(user@, challenge@, data@));
    }
    out
}

/// Builds the canonical certificate text.
pub fn certificate_text_of(name: &str, contact: &Option<String>, pubkey: &str, created: u64) -> (r:
    String)
    ensures
        r@ == certificate_text(
            name@,
            match contact {
                Some(c) => Some(c@),
                None => None,
            },
            pubkey@,
            created,
        ),
{
    let mut out = String::new();
    out.append("{\"name\":");
    append_quoted(&mut out, name);
    match contact {
        Some(c) => {
            out.append(",\"contact\":");
            append_quoted(&mut out, c.as_str());
        },
        None => {},
    }
    out.append(",\"pubkey\":");
    append_quoted(&mut out, pubkey);
    out.append(",\"created\":");
    append_u64_dec(&mut out, created);
    out.append("}");
    proof {
        assert(out@ =~= certificate_text(
            name@,
            match contact {
                Some(c) => Some(c@),
                None => None,
            },
            pubkey@,
            created,
        ));
    }
    out
}

/// Builds the canonical text of a bare name.
pub fn name_text_of(name: &str) -> (r: String)
    ensures
        r@ == name_text(name@),
{
    let mut out = String::new();
    append_quoted(&mut out, name);
    out
}

/// The value a lower-case hexadecimal digit character denotes; sixteen
/// for any other character.
spec fn hex_val(c: char) -> int {
    if c == '0' {
        0
    } else if c == '1' {
        1
    } else if c == '2' {
        2
    } else if c == '3' {
        3
    } else if c == '4' {
        4
    } else if c == '5' {
        5
    } else if c == '6' {
        6
    } else if c == '7' {
        7
    } else if c == '8' {
        8
    } else if c == '9' {
        9
    } else if c == 'a' {
        10
    } else if c == 'b' {
        11
    } else if c == 'c' {
        12
    } else if c == 'd' {
        13
    } else if c == 'e' {
        14
    } else if c == 'f' {
        15
    } else {
        16
    }
}

/// Each digit character reads back as its value, so the digit table is
/// injective.
proof fn lemma_hex_char_val(d: int)
    requires
        0 <= d < 16,
    ensures
        hex_val(spec_hex_char(d)) == d,
{
    if d == 0 {
        assert(spec_hex_char(0) == '0');
    } else if d == 1 {
        assert(spec_hex_char(1) == '1');
    } else if d == 2 {
        assert(spec_hex_char(2) == '2');
    } else if d == 3 {
        assert(spec_hex_char(3) == '3');
    } else if d == 4 {
        assert(spec_hex_char(4) == '4');
    } else if d == 5 {
        assert(spec_hex_char(5) == '5');
    } else if d == 6 {
        assert(spec_hex_char(6) == '6');
    } else if d == 7 {
        assert(spec_hex_char(7) == '7');
    } else if d == 8 {
        assert(spec_hex_char(8) == '8');
    } else if d == 9 {
        assert(spec_hex_char(9) == '9');
    } else if d == 10 {
        assert(spec_hex_char(10) == 'a');
    } else if d == 11 {
        assert(spec_hex_char(11) == 'b');
    } else if d == 12 {
        assert(spec_hex_char(12) == 'c');
    } else if d == 13 {
        assert(spec_hex_char(13) == 'd');
    } else if d == 14 {
        assert(spec_hex_char(14) == 'e');
    } else {
        assert(spec_hex_char(15) == 'f');
    }
}

/// Escaping is injective: two strings with the same escaped body are the
/// same string.  Escape groups form a prefix code — a group's first one
/// or two characters determine its kind and length — so the body parses
/// back one way only.
pub proof fn lemma_escaped_injective(a: Seq<char>, b: Seq<char>)
    requires
        escaped(a) == escaped(b),
    ensures
        a == b,
    decreases a.len(),
{
    if a.len() == 0 {
        if b.len() > 0 {
            assert(escaped(b) == esc_char(b[0]) + escaped(b.drop_first()));
            assert(escaped(b).len() >= 1);
        }
        assert(a =~= b);
    } else if b.len() == 0 {
        assert(escaped(a) == esc_char(a[0]) + escaped(a.drop_first()));
        assert(escaped(a).len() >= 1);
    } else {
        let t = escaped(a);
        let x = a[0];
        let y = b[0];
        let ea = esc_char(x);
        let eb = esc_char(y);
        assert(t == ea + escaped(a.drop_first()));
        assert(t == eb + escaped(b.drop_first()));
        assert(t[0] == ea[0] && t[0] == eb[0]);
        if x == '"' || x == '\\' || (x as u32) < 32 {
            // An escape group starts with a backslash, a plain group
            // with its own character, which is never a backslash.
            assert(ea[0] == '\\');
            assert(y == '"' || y == '\\' || (y as u32) < 32);
            assert(t[1] == ea[1] && t[1] == eb[1]);
            if x == '"' {
                assert(ea[1] == '"');
                assert(y == '"');
            } else if x == '\\' {
                assert(ea[1] == '\\');
                assert(y == '\\');
            } else {
                // The second character 'u' marks a control escape; its
                // two digits give back the code point.
                assert(ea[1] == 'u');
                assert(y != '"' && y != '\\' && (y as u32) < 32);
                assert(t[4] == ea[4] && t[5] == ea[5]);
                assert(t[4] == eb[4] && t[5] == eb[5]);
                let xc = x as u32 as int;
                let yc = y as u32 as int;
                lemma_hex_char_val(xc / 16);
                lemma_hex_char_val(xc % 16);
                lemma_hex_char_val(yc / 16);
                lemma_hex_char_val(yc % 16);
                assert(xc / 16 == yc / 16 && xc % 16 == yc % 16);
                assert(x as u32 == y as u32);
                vstd::utf8::char_u32_cast(x, x as u32);
                vstd::utf8::char_u32_cast(y, y as u32);
            }
        } else {
            assert(ea[0] == x);
            assert(!(y == '"' || y == '\\' || (y as u32) < 32));
            assert(eb[0] == y);
        }
        assert(x == y);
        assert(ea == eb);
        // The groups agree, so the remainders do as well.
        assert(escaped(a.drop_first()) =~= escaped(b.drop_first())) by {
            assert(escaped(a.drop_first()).len() == escaped(b.drop_first()).len());
            assert forall|k: int|
                0 <= k < escaped(a.drop_first()).len() implies escaped(a.drop_first())[k]
                == escaped(b.drop_first())[k] by {
                assert(escaped(a.drop_first())[k] == t[ea.len() + k]);
                assert(escaped(b.drop_first())[k] == t[eb.len() + k]);
            }
        }
        lemma_escaped_injective(a.drop_first(), b.drop_first());
        assert(a.len() == b.len());
        assert forall|i: int| 0 <= i < a.len() implies a[i] == b[i] by {
            if i > 0 {
                assert(a[i] == a.drop_first()[i - 1]);
                assert(b[i] == b.drop_first()[i - 1]);
            }
        }
        assert(a =~= b);
    }
}

/// A quoted field determines the string inside it: in particular the
/// canonical text of a challenge-request proof binds exactly one user
/// name, and equal quoted fields of two envelopes carry equal values.
pub proof fn lemma_quoted_injective(a: Seq<char>, b: Seq<char>)
    requires
        quoted(a) == quoted(b),
    ensures
        a == b,
{
    assert(escaped(a) =~= quoted(a).subrange(1, quoted(a).len() - 1));
    assert(escaped(b) =~= quoted(b).subrange(1, quoted(b).len() - 1));
    lemma_escaped_injective(a, b);
}

} // verus!
