//! Character classes, identifier scanning and number rendering.

use std::str::Chars;
use vstd::prelude::*;
use vstd::std_specs::iter::IteratorSpec;
use vstd::string::StrSliceExecFns;

verus! {

/// Number of bits in a byte.
pub const BITS_PER_BYTE: u64 = 8;

/// Number of whole bytes needed to hold `bits` bits.
pub open spec fn bytes_for_bits(bits: int) -> int {
    (bits + 7) / 8
}

/// Rounds a bit count up to whole bytes.
pub fn bit2byte(input: u64) -> (bytes: u64)
    ensures
        bytes == bytes_for_bits(input as int),
        bytes * 8 >= input,
        bytes * 8 < input + 8,
{
    if input % BITS_PER_BYTE == 0 {
        input / BITS_PER_BYTE
    } else {
        input / BITS_PER_BYTE + 1
    }
}

/// The Unicode property that `char::is_alphanumeric` tests: alphabetic, or in
/// one of the numeric general categories.
pub uninterp spec fn is_alphanumeric(c: char) -> bool;

/// The characters that have the Unicode property `White_Space`: the
/// controls from tab to carriage return, the space, the next-line control,
/// the no-break space, the Ogham space mark, the spaces from en quad to hair
/// space, the line and the paragraph separator, the narrow no-break space,
/// the medium mathematical space and the ideographic space.
pub open spec fn is_whitespace(c: char) -> bool {
    let u = c as u32;
    ||| 0x09 <= u <= 0x0D
    ||| u == 0x20
    ||| u == 0x85
    ||| u == 0xA0
    ||| u == 0x1680
    ||| 0x2000 <= u <= 0x200A
    ||| u == 0x2028
    ||| u == 0x2029
    ||| u == 0x202F
    ||| u == 0x205F
    ||| u == 0x3000
}

/// Calls `char::is_alphanumeric`. Nothing is claimed beyond the name given to
/// its result.
#[verifier::external_body]
fn char_is_alphanumeric(c: char) -> (b: bool)
    ensures
        b == is_alphanumeric(c),
{
    c.is_alphanumeric()
}

/// Calls `char::is_whitespace`, which tells whether a character has the
/// Unicode property `White_Space`. The contract claims that these are the
/// characters that `is_whitespace` lists.
#[verifier::external_body]
pub(crate) fn char_is_whitespace(c: char) -> (b: bool)
    ensures
        b == is_whitespace(c),
{
    c.is_whitespace()
}

/// Calls `String::push`, which appends one character to the end of the string.
#[verifier::external_body]
pub(crate) fn push_char(s: &mut String, c: char)
    ensures
        final(s)@ == old(s)@.push(c),
{
    s.push(c)
}

/// Characters that may occur in an identifier: the underscore and every
/// alphanumeric character.
pub open spec fn ident_char(c: char) -> bool {
    c == '_' || is_alphanumeric(c)
}

/// Tells whether `ch` may occur in an identifier.
pub fn is_ident_char(ch: char) -> (b: bool)
    ensures
        b == ident_char(ch),
{
    ch == '_' || char_is_alphanumeric(ch)
}

/// Length of the longest prefix of `s` made of identifier characters only.
pub open spec fn ident_len(s: Seq<char>) -> nat
    decreases s.len(),
{
    if s.len() == 0 || !ident_char(s[0]) {
        0
    } else {
        1 + ident_len(s.drop_first())
    }
}

/// The longest prefix of `s` made of identifier characters only.
pub open spec fn ident_prefix(s: Seq<char>) -> Seq<char> {
    s.take(ident_len(s) as int)
}

/// Every character of `s` is an identifier character.
pub open spec fn all_ident_chars(s: Seq<char>) -> bool {
    forall|i: int| 0 <= i < s.len() ==> ident_char(#[trigger] s[i])
}

/// `ident_len` is the position of the first character that is not an
/// identifier character, or the length of `s` where there is none.
pub proof fn lemma_ident_len(s: Seq<char>)
    ensures
        ident_len(s) <= s.len(),
        all_ident_chars(s.take(ident_len(s) as int)),
        ident_len(s) < s.len() ==> !ident_char(s[ident_len(s) as int]),
    decreases s.len(),
{
    if s.len() > 0 && ident_char(s[0]) {
        let t = s.drop_first();
        lemma_ident_len(t);
        let n = ident_len(s) as int;
        assert forall|i: int| 0 <= i < n implies ident_char(#[trigger] s.take(n)[i]) by {
            if i > 0 {
                assert(s.take(n)[i] == t.take(n - 1)[i - 1]);
            }
        }
    }
}

/// A position `n` up to which all characters are identifier characters and at
/// which the run ends is `ident_len`.
pub proof fn lemma_ident_len_unique(s: Seq<char>, n: int)
    requires
        0 <= n <= s.len(),
        forall|i: int| 0 <= i < n ==> ident_char(#[trigger] s[i]),
        n < s.len() ==> !ident_char(s[n]),
    ensures
        ident_len(s) == n,
    decreases s.len(),
{
    if s.len() == 0 || !ident_char(s[0]) {
        if n > 0 {
            assert(ident_char(s[0]));
        }
    } else {
        let t = s.drop_first();
        assert(n > 0);
        assert forall|i: int| 0 <= i < n - 1 implies ident_char(#[trigger] t[i]) by {
            assert(t[i] == s[i + 1]);
        }
        lemma_ident_len_unique(t, n - 1);
    }
}

/// Cuts `name` at its first character that is not an identifier character.
pub fn ident_part(name: &str) -> (part: &str)
    ensures
        part@ == ident_prefix(name@),
{
    let total: usize = name.unicode_len();
    let mut n: usize = 0;
    let mut it = name.chars();
    loop
        invariant
            total == name@.len(),
            it.obeys_prophetic_iter_laws(),
            it.decrease() is Some,
            n + it.remaining().len() == name@.len(),
            it.remaining() == name@.skip(n as int),
            forall|i: int| 0 <= i < n ==> ident_char(#[trigger] name@[i]),
        decreases it.decrease()->0,
    {
        match it.next() {
            Some(c) => {
                if !is_ident_char(c) {
                    proof {
                        lemma_ident_len_unique(name@, n as int);
                    }
                    return name.substring_char(0, n);
                }
                n = n + 1;
            },
            None => {
                proof {
                    lemma_ident_len_unique(name@, n as int);
                }
                return name;
            },
        }
    }
}

/// Tells whether `input` consists of identifier characters only. The empty
/// string does.
pub fn is_valid_ident(input: &str) -> (b: bool)
    ensures
        b == all_ident_chars(input@),
{
    let total: usize = input.unicode_len();
    let mut n: usize = 0;
    let mut it = input.chars();
    loop
        invariant
            total == input@.len(),
            it.obeys_prophetic_iter_laws(),
            it.decrease() is Some,
            n + it.remaining().len() == input@.len(),
            it.remaining() == input@.skip(n as int),
            forall|i: int| 0 <= i < n ==> ident_char(#[trigger] input@[i]),
        decreases it.decrease()->0,
    {
        match it.next() {
            Some(c) => {
                if !is_ident_char(c) {
                    return false;
                }
                n = n + 1;
            },
            None => {
                return true;
            },
        }
    }
}

/// The character that renders the decimal digit `d`.
pub open spec fn digit_char(d: int) -> char {
    if d == 0 {
        '0'
    } else if d == 1 {
        '1'
    } else if d == 2 {
        '2'
    } else if d == 3 {
        '3'
    } else if d == 4 {
        '4'
    } else if d == 5 {
        '5'
    } else if d == 6 {
        '6'
    } else if d == 7 {
        '7'
    } else if d == 8 {
        '8'
    } else {
        '9'
    }
}

/// The decimal rendering of `n`, without sign or leading zeros.
pub open spec fn decimal(n: nat) -> Seq<char>
    decreases n,
{
    if n < 10 {
        seq![digit_char(n as int)]
    } else {
        decimal(n / 10).push(digit_char((n % 10) as int))
    }
}

/// The decimal rendering of `v`, with a leading minus sign where it is
/// negative.
pub open spec fn signed_decimal(v: int) -> Seq<char> {
    if v < 0 {
        seq!['-'] + decimal((-v) as nat)
    } else {
        decimal(v as nat)
    }
}

/// Different digits are rendered by different characters.
pub proof fn lemma_digit_char_injective(x: int, y: int)
    requires
        0 <= x < 10,
        0 <= y < 10,
        digit_char(x) == digit_char(y),
    ensures
        x == y,
{
}

/// Different numbers have different decimal renderings.
pub proof fn lemma_decimal_injective(a: nat, b: nat)
    requires
        decimal(a) == decimal(b),
    ensures
        a == b,
    decreases a,
{
    if a < 10 {
        if b >= 10 {
            assert(decimal(b).len() >= 2) by {
                lemma_decimal_len(b / 10);
            }
        } else {
            assert(decimal(a) =~= seq![digit_char(a as int)]);
            assert(decimal(b) =~= seq![digit_char(b as int)]);
            assert(seq![digit_char(a as int)][0] == digit_char(a as int));
            assert(seq![digit_char(b as int)][0] == digit_char(b as int));
            lemma_digit_char_injective(a as int, b as int);
        }
    } else {
        if b < 10 {
            assert(decimal(a).len() >= 2) by {
                lemma_decimal_len(a / 10);
            }
        } else {
            let da = decimal(a / 10);
            let db = decimal(b / 10);
            assert(decimal(a) == da.push(digit_char((a % 10) as int)));
            assert(decimal(b) == db.push(digit_char((b % 10) as int)));
            assert(decimal(a).last() == decimal(b).last());
            assert(da.push(digit_char((a % 10) as int)).last() == digit_char((a % 10) as int));
            assert(db.push(digit_char((b % 10) as int)).last() == digit_char((b % 10) as int));
            lemma_digit_char_injective((a % 10) as int, (b % 10) as int);
            assert(da =~= decimal(a).drop_last());
            assert(db =~= decimal(b).drop_last());
            lemma_decimal_injective(a / 10, b / 10);
        }
    }
}

/// A decimal rendering has at least one digit.
pub proof fn lemma_decimal_len(n: nat)
    ensures
        decimal(n).len() >= 1,
{
}

fn digit_of(d: u64) -> (c: char)
    requires
        d < 10,
    ensures
        c == digit_char(d as int),
{
    if d == 0 {
        '0'
    } else if d == 1 {
        '1'
    } else if d == 2 {
        '2'
    } else if d == 3 {
        '3'
    } else if d == 4 {
        '4'
    } else if d == 5 {
        '5'
    } else if d == 6 {
        '6'
    } else if d == 7 {
        '7'
    } else if d == 8 {
        '8'
    } else {
        '9'
    }
}

/// Appends the decimal rendering of `n` to `out`.
pub fn push_decimal(out: &mut String, n: u64)
    ensures
        final(out)@ == old(out)@ + decimal(n as nat),
    decreases n,
{
    if n >= 10 {
        push_decimal(out, n / 10);
    }
    push_char(out, digit_of(n % 10));
}

/// Appends the decimal rendering of `v` to `out`, with a minus sign where `v`
/// is negative.
pub fn push_signed_decimal(out: &mut String, v: i64)
    ensures
        final(out)@ == old(out)@ + signed_decimal(v as int),
{
    if v < 0 {
        push_char(out, '-');
        let below: i64 = -(v + 1);
        let magnitude: u64 = (below as u64) + 1;
        push_decimal(out, magnitude);
    } else {
        push_decimal(out, v as u64);
    }
}

/// Consumes characters from `input` up to and including the first one that is
/// not an identifier character. The identifier characters before it are
/// appended to `out`; that first other character is returned, or `None` where
/// the input ended first.
pub fn consume_ident_chars(out: &mut String, input: &mut Chars<'_>) -> (stop: Option<char>)
    requires
        (*old(input)).decrease() is Some,
    ensures
        (*final(input)).decrease() is Some,
        stop is Some ==> (*final(input)).decrease()->0 < (*old(input)).decrease()->0,
        ({
            let rem = (*old(input)).remaining();
            let n = ident_len(rem) as int;
            &&& final(out)@ == old(out)@ + rem.take(n)
            &&& n < rem.len() ==> stop == Some(rem[n]) && (*final(input)).remaining() == rem.skip(n + 1)
            &&& n >= rem.len() ==> stop is None && (*final(input)).remaining() == Seq::<char>::empty()
        }),
{
    let ghost rem = (*input).remaining();
    let ghost mut n: int = 0;
    let mut stop: Option<char> = None;
    loop
        invariant_except_break
            stop is None,
            (*input).remaining() == rem.skip(n),
            (*input).decrease()->0 <= (*old(input)).decrease()->0,
        invariant
            stop is Some ==> (*input).decrease()->0 < (*old(input)).decrease()->0,
            (*input).obeys_prophetic_iter_laws(),
            (*input).decrease() is Some,
            0 <= n <= rem.len(),
            out@ == old(out)@ + rem.take(n),
            forall|i: int| 0 <= i < n ==> ident_char(#[trigger] rem[i]),
        ensures
            ident_len(rem) == n,
            n < rem.len() ==> stop == Some(rem[n]) && (*input).remaining() == rem.skip(n + 1),
            n >= rem.len() ==> stop is None && (*input).remaining() == Seq::<char>::empty(),
        decreases (*input).decrease()->0,
    {
        match input.next() {
            Some(ch) => {
                if is_ident_char(ch) {
                    push_char(out, ch);
                    proof {
                        n = n + 1;
                    }
                } else {
                    proof {
                        lemma_ident_len_unique(rem, n);
                    }
                    stop = Some(ch);
                    break;
                }
            },
            None => {
                proof {
                    lemma_ident_len_unique(rem, n);
                }
                break;
            },
        }
    }
    stop
}

/// The contents of a list of strings.
pub open spec fn texts(v: Seq<String>) -> Seq<Seq<char>> {
    v.map_values(|s: String| s@)
}

/// Why a type name path could not be parsed.
#[derive(Debug, Clone, Copy, PartialEq, Eq)]
pub enum ParseError {
    /// A single `:` stood where `::` was expected.
    InvalidSymbol,
}

/// The list that holds `p` if it is not empty, and nothing otherwise.
pub open spec fn one_part(p: Seq<char>) -> Seq<Seq<char>> {
    if p.len() == 0 {
        Seq::empty()
    } else {
        seq![p]
    }
}

/// The segments of a type name path. Runs of identifier characters separated
/// by `::` or by `.` are segments; empty ones are dropped. From the first
/// character that is neither an identifier character nor a dot nor a colon,
/// the rest of the text belongs to the last segment as it stands. A colon
/// that is not followed by a second one makes the path invalid.
pub open spec fn typename_parts(s: Seq<char>) -> Option<Seq<Seq<char>>>
    decreases s.len(),
{
    let n = ident_len(s) as int;
    if n >= s.len() {
        Some(one_part(s))
    } else if s[n] == '.' {
        match typename_parts(s.skip(n + 1)) {
            Some(rest) => Some(one_part(s.take(n)) + rest),
            None => None,
        }
    } else if s[n] == ':' {
        if n + 1 < s.len() && s[n + 1] == ':' {
            match typename_parts(s.skip(n + 2)) {
                Some(rest) => Some(one_part(s.take(n)) + rest),
                None => None,
            }
        } else {
            None
        }
    } else {
        Some(seq![s])
    }
}

/// `rest` with `done` in front of it.
pub open spec fn parts_after(done: Seq<Seq<char>>, rest: Option<Seq<Seq<char>>>) -> Option<
    Seq<Seq<char>>,
> {
    match rest {
        Some(r) => Some(done + r),
        None => None,
    }
}

fn push_part(parts: &mut Vec<String>, part: String)
    ensures
        texts(final(parts)@) == texts(old(parts)@) + one_part(part@),
{
    if part.as_str().unicode_len() != 0 {
        parts.push(part);
    }
}

/// Splits a type name path such as `ns1::ns2::Name<int>` or `ns1.ns2.Name`
/// into its segments.
pub fn parse_typename(input: &str) -> (r: Result<Vec<String>, ParseError>)
    ensures
        match typename_parts(input@) {
            Some(parts) => r is Ok && texts(r->Ok_0@) == parts,
            None => r == Err::<Vec<String>, ParseError>(ParseError::InvalidSymbol),
        },
{
    let mut ret: Vec<String> = Vec::new();
    let mut iter = input.chars();
    loop
        invariant
            iter.obeys_prophetic_iter_laws(),
            iter.decrease() is Some,
            parts_after(texts(ret@), typename_parts(iter.remaining())) == typename_parts(input@),
        decreases iter.decrease()->0,
    {
        let ghost rem = iter.remaining();
        let ghost n = ident_len(rem) as int;
        proof {
            lemma_ident_len(rem);
        }
        let mut part = String::new();
        let next_ch = consume_ident_chars(&mut part, &mut iter);
        match next_ch {
            None => {
                push_part(&mut ret, part);
                proof {
                    assert(rem.take(n) =~= rem);
                }
                return Ok(ret);
            },
            Some(ch) => {
                if ch == '.' {
                    push_part(&mut ret, part);
                } else if ch == ':' {
                    push_part(&mut ret, part);
                    let second = iter.next();
                    match second {
                        Some(':') => {
                            proof {
                                assert(rem.skip(n + 1).drop_first() =~= rem.skip(n + 2));
                            }
                        },
                        _ => {
                            return Err(ParseError::InvalidSymbol);
                        },
                    }
                } else {
                    push_char(&mut part, ch);
                    loop
                        invariant
                            iter.obeys_prophetic_iter_laws(),
                            iter.decrease() is Some,
                            part@ + iter.remaining() == rem,
                        ensures
                            part@ == rem,
                        decreases iter.decrease()->0,
                    {
                        match iter.next() {
                            Some(c) => {
                                push_char(&mut part, c);
                            },
                            None => {
                                break;
                            },
                        }
                    }
                    push_part(&mut ret, part);
                    return Ok(ret);
                }
            },
        }
    }
}

} // verus!
