//! Splitting script text into tokens.
use vstd::prelude::*;
use crate::script::value::Decimal;
use crate::script::text::{push_char, push_escaped, u64_to_text, i64_to_text, nat_text, int_text, escaped};

verus! {

/// A token of script text.
#[derive(Debug)]
pub enum Token {
    Ident(String),
    String(String),
    Int(i64),
    Float(Decimal),
    Newline,
    /// `#`, which opens a numbered section when a number follows it
    Session,
    Dot,
    Equal,
    Arrow,
    Eof,
}

/// The model of a [`Token`].
pub enum TokenV {
    Ident(Seq<char>),
    Str(Seq<char>),
    Int(i64),
    Float(Decimal),
    Newline,
    Session,
    Dot,
    Equal,
    Arrow,
    Eof,
}

impl View for Token {
    type V = TokenV;

    open spec fn view(&self) -> TokenV {
        match self {
            Token::Ident(s) => TokenV::Ident(s@),
            Token::String(s) => TokenV::Str(s@),
            Token::Int(i) => TokenV::Int(*i),
            Token::Float(d) => TokenV::Float(*d),
            Token::Newline => TokenV::Newline,
            Token::Session => TokenV::Session,
            Token::Dot => TokenV::Dot,
            Token::Equal => TokenV::Equal,
            Token::Arrow => TokenV::Arrow,
            Token::Eof => TokenV::Eof,
        }
    }
}

/// The models of a sequence of tokens.
pub open spec fn tokens_view(ts: Seq<Token>) -> Seq<TokenV> {
    ts.map_values(|t: Token| t@)
}

impl Clone for Token {
    fn clone(&self) -> (res: Self)
        ensures
            res@ == self@,
    {
        match self {
            Token::Ident(s) => Token::Ident(s.clone()),
            Token::String(s) => Token::String(s.clone()),
            Token::Int(i) => Token::Int(*i),
            Token::Float(d) => Token::Float(*d),
            Token::Newline => Token::Newline,
            Token::Session => Token::Session,
            Token::Dot => Token::Dot,
            Token::Equal => Token::Equal,
            Token::Arrow => Token::Arrow,
            Token::Eof => Token::Eof,
        }
    }
}

/// `s` with zeros put before it up to the length `n`.
pub open spec fn zero_padded(s: Seq<char>, n: int) -> Seq<char> {
    if s.len() >= n {
        s
    } else {
        Seq::new((n - s.len()) as nat, |i: int| '0') + s
    }
}

/// `s` without its trailing zeros.
pub open spec fn without_trailing_zeros(s: Seq<char>) -> Seq<char>
    decreases s.len(),
{
    if s.len() > 0 && s.last() == '0' {
        without_trailing_zeros(s.drop_last())
    } else {
        s
    }
}

/// The digits of the magnitude of `d`'s mantissa, with zeros before them
/// so that there is at least one digit before the point.
pub open spec fn decimal_digits(d: Decimal) -> Seq<char> {
    let m = d.mantissa as int;
    zero_padded(nat_text((if m < 0 { -m } else { m }) as nat), d.scale + 1)
}

/// The text of a decimal as a number: a `-` when it is negative, the
/// digits before the point, the point, and the digits after it without
/// trailing zeros (a single `0` when there are none), so 15 at scale 1 is
/// `1.5` and 2 at scale 0 is `2.0`.
pub open spec fn decimal_text(d: Decimal) -> Seq<char> {
    let digits = decimal_digits(d);
    let k = digits.len() - d.scale;
    let frac = without_trailing_zeros(digits.skip(k));
    (if d.mantissa < 0 { "-"@ } else { ""@ }) + digits.take(k) + "."@ + (if frac.len() == 0 {
        "0"@
    } else {
        frac
    })
}

proof fn lemma_without_trailing_zeros(s: Seq<char>, e: int)
    requires
        0 <= e <= s.len(),
        forall|i: int| e <= i < s.len() ==> s[i] == '0',
        e == 0 || s[e - 1] != '0',
    ensures
        without_trailing_zeros(s) == s.take(e),
    decreases s.len(),
{
    if s.len() > e {
        assert(s.last() == '0');
        lemma_without_trailing_zeros(s.drop_last(), e);
        assert(s.drop_last().take(e) =~= s.take(e));
    } else {
        assert(s.take(e) =~= s);
    }
}

/// The text of a token, in the shape of its debug form, as diagnostics
/// show it.
pub open spec fn token_text(t: TokenV) -> Seq<char> {
    match t {
        TokenV::Ident(s) => "Ident(\""@ + escaped(s) + "\")"@,
        TokenV::Str(s) => "String(\""@ + escaped(s) + "\")"@,
        TokenV::Int(i) => "Int("@ + int_text(i as int) + ")"@,
        TokenV::Float(d) => "Float("@ + decimal_text(d) + ")"@,
        TokenV::Newline => "Newline"@,
        TokenV::Session => "Session"@,
        TokenV::Dot => "Dot"@,
        TokenV::Equal => "Equal"@,
        TokenV::Arrow => "Arrow"@,
        TokenV::Eof => "Eof"@,
    }
}

/// The characters of `s`.
pub fn string_chars(s: &String) -> (r: Vec<char>)
    ensures
        r@ == s@,
{
    let mut out: Vec<char> = Vec::new();
    for c in it: s.as_str().chars()
        invariant
            out@ == it.seq().subrange(0, it.index() as int),
            it.seq() == s@,
    {
        out.push(c);
        proof {
            assert(out@ =~= it.seq().subrange(0, it.index() + 1));
        }
    }
    out
}

fn decimal_digit_chars(d: Decimal) -> (r: Vec<char>)
    ensures
        r@ == decimal_digits(d),
        r@.len() >= d.scale + 1,
{
    let magnitude: u64 = if d.mantissa < 0 {
        (0i128 - d.mantissa as i128) as u64
    } else {
        d.mantissa as u64
    };
    let text = u64_to_text(magnitude);
    let raw = string_chars(&text);
    let width: u64 = d.scale as u64 + 1;
    if (raw.len() as u64) >= width {
        return raw;
    }
    let pad: u64 = width - raw.len() as u64;
    let mut digits: Vec<char> = Vec::new();
    let mut i: u64 = 0;
    while i < pad
        invariant
            i <= pad,
            digits@ == Seq::new(i as nat, |j: int| '0'),
        decreases pad - i,
    {
        digits.push('0');
        assert(digits@ =~= Seq::new((i + 1) as nat, |j: int| '0'));
        i = i + 1;
    }
    let ghost zeros = digits@;
    let mut j: usize = 0;
    while j < raw.len()
        invariant
            j <= raw@.len(),
            digits@ == zeros + raw@.take(j as int),
        decreases raw@.len() - j,
    {
        digits.push(raw[j]);
        assert(digits@ =~= zeros + raw@.take(j + 1));
        j = j + 1;
    }
    assert(raw@.take(raw@.len() as int) =~= raw@);
    assert(digits@ =~= decimal_digits(d));
    digits
}

/// The end of `digits[k..]` once its trailing zeros are cut.
fn trailing_zeros_cut(digits: &Vec<char>, k: usize) -> (e: usize)
    requires
        k <= digits@.len(),
    ensures
        k <= e <= digits@.len(),
        without_trailing_zeros(digits@.skip(k as int)) == digits@.subrange(k as int, e as int),
{
    let mut e: usize = digits.len();
    while e > k && digits[e - 1] == '0'
        invariant
            k <= e <= digits@.len(),
            forall|i: int| e <= i < digits@.len() ==> digits@[i] == '0',
        decreases e,
    {
        e = e - 1;
    }
    proof {
        let tail = digits@.skip(k as int);
        assert forall|i: int| e - k <= i < tail.len() implies tail[i] == '0' by {
            assert(tail[i] == digits@[k + i]);
        }
        if e > k {
            assert(tail[e - k - 1] == digits@[e - 1]);
        }
        lemma_without_trailing_zeros(tail, e - k);
        assert(tail.take(e - k) =~= digits@.subrange(k as int, e as int));
    }
    e
}

/// The text of a decimal as a number, as [`decimal_text`] gives it.
pub fn decimal_to_text(d: Decimal) -> (r: String)
    ensures
        r@ == decimal_text(d),
{
    let digits = decimal_digit_chars(d);
    let k: usize = digits.len() - d.scale as usize;
    let e = trailing_zeros_cut(&digits, k);
    let ghost frac = without_trailing_zeros(digits@.skip(k as int));
    let mut r = String::new();
    if d.mantissa < 0 {
        push_char(&mut r, '-');
    }
    let ghost sign = r@;
    r.append(chars_to_string(&digits, 0, k).as_str());
    push_char(&mut r, '.');
    if e == k {
        push_char(&mut r, '0');
    } else {
        r.append(chars_to_string(&digits, k, e).as_str());
    }
    proof {
        reveal_strlit("-");
        reveal_strlit("");
        reveal_strlit(".");
        reveal_strlit("0");
        assert(sign == (if d.mantissa < 0 { "-"@ } else { ""@ }));
        assert(digits@.take(k as int) =~= digits@.subrange(0, k as int));
        let tail: Seq<char> = if frac.len() == 0 { "0"@ } else { frac };
        assert(r@ =~= sign + digits@.take(k as int) + "."@ + tail);
    }
    r
}

impl Token {
    /// The text of the token for diagnostics.
    pub fn text(&self) -> (r: String)
        ensures
            r@ == token_text(self@),
    {
        match self {
            Token::Ident(s) => {
                let mut r = String::from_str("Ident(\"");
                push_escaped(&mut r, &string_chars(s));
                r.append("\")");
                r
            },
            Token::String(s) => {
                let mut r = String::from_str("String(\"");
                push_escaped(&mut r, &string_chars(s));
                r.append("\")");
                r
            },
            Token::Int(i) => {
                let mut r = String::from_str("Int(");
                r.append(i64_to_text(*i).as_str());
                r.append(")");
                r
            },
            Token::Float(d) => {
                let mut r = String::from_str("Float(");
                r.append(decimal_to_text(*d).as_str());
                r.append(")");
                r
            },
            Token::Newline => String::from_str("Newline"),
            Token::Session => String::from_str("Session"),
            Token::Dot => String::from_str("Dot"),
            Token::Equal => String::from_str("Equal"),
            Token::Arrow => String::from_str("Arrow"),
            Token::Eof => String::from_str("Eof"),
        }
    }
}

// ---------------------------------------------------------------------------
// Character classes

pub open spec fn is_space(c: char) -> bool {
    c == ' ' || c == '\t' || c == '\r'
}

pub open spec fn is_digit(c: char) -> bool {
    '0' <= c && c <= '9'
}

/// Letters, `_`, and every character outside ASCII may start a name.
pub open spec fn is_ident_start(c: char) -> bool {
    ('a' <= c && c <= 'z') || ('A' <= c && c <= 'Z') || c == '_' || (c as u32) > 127
}

pub open spec fn is_ident_char(c: char) -> bool {
    is_ident_start(c) || is_digit(c)
}

fn char_is_space(c: char) -> (r: bool)
    ensures
        r == is_space(c),
{
    c == ' ' || c == '\t' || c == '\r'
}

fn char_is_digit(c: char) -> (r: bool)
    ensures
        r == is_digit(c),
{
    '0' <= c && c <= '9'
}

fn char_is_ident_start(c: char) -> (r: bool)
    ensures
        r == is_ident_start(c),
{
    ('a' <= c && c <= 'z') || ('A' <= c && c <= 'Z') || c == '_' || (c as u32) > 127
}

fn char_is_ident_char(c: char) -> (r: bool)
    ensures
        r == is_ident_char(c),
{
    char_is_ident_start(c) || char_is_digit(c)
}

// ---------------------------------------------------------------------------
// Scanning

/// The first index at or after `i` that does not hold a digit.
pub open spec fn digits_end(cs: Seq<char>, i: int) -> int
    decreases cs.len() - i,
{
    if 0 <= i < cs.len() && is_digit(cs[i]) {
        digits_end(cs, i + 1)
    } else {
        i
    }
}

/// The first index at or after `i` that does not hold a name character.
pub open spec fn ident_end(cs: Seq<char>, i: int) -> int
    decreases cs.len() - i,
{
    if 0 <= i < cs.len() && is_ident_char(cs[i]) {
        ident_end(cs, i + 1)
    } else {
        i
    }
}

pub proof fn lemma_digits_end(cs: Seq<char>, i: int)
    requires
        0 <= i <= cs.len(),
    ensures
        i <= digits_end(cs, i) <= cs.len(),
        forall|k: int| i <= k < digits_end(cs, i) ==> is_digit(#[trigger] cs[k]),
    decreases cs.len() - i,
{
    if i < cs.len() && is_digit(cs[i]) {
        lemma_digits_end(cs, i + 1);
    }
}

pub proof fn lemma_ident_end(cs: Seq<char>, i: int)
    requires
        0 <= i <= cs.len(),
    ensures
        i <= ident_end(cs, i) <= cs.len(),
    decreases cs.len() - i,
{
    if i < cs.len() && is_ident_char(cs[i]) {
        lemma_ident_end(cs, i + 1);
    }
}

/// The value of a digit character.
pub open spec fn digit_value(c: char) -> int {
    (c as int) - ('0' as int)
}

/// The value of the digits `s` appended, left to right, to the number `acc`.
pub open spec fn acc_value(acc: int, s: Seq<char>) -> int
    decreases s.len(),
{
    if s.len() == 0 {
        acc
    } else {
        acc_value(acc * 10 + digit_value(s[0]), s.drop_first())
    }
}

pub proof fn lemma_acc_value_grows(acc: int, s: Seq<char>)
    requires
        acc >= 0,
        forall|k: int| 0 <= k < s.len() ==> is_digit(#[trigger] s[k]),
    ensures
        acc_value(acc, s) >= acc,
    decreases s.len(),
{
    if s.len() > 0 {
        assert(is_digit(s[0]));
        let t = s.drop_first();
        assert forall|k: int| 0 <= k < t.len() implies is_digit(#[trigger] t[k]) by {
            assert(t[k] == s[k + 1]);
        }
        lemma_acc_value_grows(acc * 10 + digit_value(s[0]), t);
    }
}

fn scan_digits_end(cs: &Vec<char>, i: usize) -> (k: usize)
    requires
        i <= cs.len(),
    ensures
        k == digits_end(cs@, i as int),
{
    let mut k = i;
    while k < cs.len() && char_is_digit(cs[k])
        invariant
            i <= k <= cs.len(),
            digits_end(cs@, k as int) == digits_end(cs@, i as int),
        decreases cs.len() - k,
    {
        k = k + 1;
    }
    k
}

fn scan_ident_end(cs: &Vec<char>, i: usize) -> (k: usize)
    requires
        i <= cs.len(),
    ensures
        k == ident_end(cs@, i as int),
{
    let mut k = i;
    while k < cs.len() && char_is_ident_char(cs[k])
        invariant
            i <= k <= cs.len(),
            ident_end(cs@, k as int) == ident_end(cs@, i as int),
        decreases cs.len() - k,
    {
        k = k + 1;
    }
    k
}

/// Appends the digits `cs[from..to]` to `acc`; `None` when the value grows
/// past `limit`.
fn accumulate_digits(cs: &Vec<char>, from: usize, to: usize, acc: u128, limit: u128) -> (r: Option<
    u128,
>)
    requires
        from <= to <= cs.len(),
        forall|k: int| from <= k < to ==> is_digit(#[trigger] cs@[k]),
        acc <= limit,
        limit <= 0x1_0000_0000_0000_0000,
    ensures
        acc_value(acc as int, cs@.subrange(from as int, to as int)) <= limit ==> r == Some(
            acc_value(acc as int, cs@.subrange(from as int, to as int)) as u128,
        ),
        acc_value(acc as int, cs@.subrange(from as int, to as int)) > limit ==> r is None,
        r matches Some(v) ==> v <= limit && v as int == acc_value(
            acc as int,
            cs@.subrange(from as int, to as int),
        ),
{
    let ghost whole = acc_value(acc as int, cs@.subrange(from as int, to as int));
    let mut cur = acc;
    let mut k = from;
    while k < to
        invariant
            from <= k <= to <= cs.len(),
            forall|j: int| from <= j < to ==> is_digit(#[trigger] cs@[j]),
            cur <= limit,
            limit <= 0x1_0000_0000_0000_0000,
            acc_value(cur as int, cs@.subrange(k as int, to as int)) == whole,
            whole == acc_value(acc as int, cs@.subrange(from as int, to as int)),
        decreases to - k,
    {
        let c = cs[k];
        assert(is_digit(cs@[k as int]));
        let d = (c as u32 - '0' as u32) as u128;
        let ghost rest = cs@.subrange(k as int, to as int);
        assert(rest[0] == c);
        assert(rest.drop_first() =~= cs@.subrange(k + 1, to as int));
        let next = cur * 10 + d;
        k = k + 1;
        if next > limit {
            proof {
                let tail = cs@.subrange(k as int, to as int);
                assert forall|j: int| 0 <= j < tail.len() implies is_digit(#[trigger] tail[j]) by {
                    assert(tail[j] == cs@[k + j]);
                }
                lemma_acc_value_grows(next as int, tail);
            }
            return None;
        }
        cur = next;
    }
    assert(cs@.subrange(to as int, to as int).len() == 0);
    Some(cur)
}

/// Builds the string `cs[from..to]`.
pub fn chars_to_string(cs: &Vec<char>, from: usize, to: usize) -> (r: String)
    requires
        from <= to <= cs.len(),
    ensures
        r@ == cs@.subrange(from as int, to as int),
{
    let mut s = String::new();
    let mut k = from;
    while k < to
        invariant
            from <= k <= to <= cs.len(),
            s@ == cs@.subrange(from as int, k as int),
        decreases to - k,
    {
        push_char(&mut s, cs[k]);
        assert(s@ =~= cs@.subrange(from as int, k + 1));
        k = k + 1;
    }
    s
}

// ---------------------------------------------------------------------------
// Numbers

/// The largest magnitude a literal may have: that of `i64::MIN` when
/// negative, that of `i64::MAX` otherwise.
pub open spec fn magnitude_limit(negative: bool) -> int {
    if negative {
        0x8000_0000_0000_0000
    } else {
        0x7fff_ffff_ffff_ffff
    }
}

/// The most digits a number literal may have after its point.
pub const MAX_FRACTION_DIGITS: u32 = 18;

/// Whether the digits at `k` continue the number as a fraction: a point
/// followed by a digit.
pub open spec fn has_fraction(cs: Seq<char>, k: int) -> bool {
    k + 1 < cs.len() && cs[k] == '.' && is_digit(cs[k + 1])
}

/// The number literal whose digits start at `j` (after a `-` when
/// `negative`): its token and the index after it.
pub open spec fn lex_number(cs: Seq<char>, j: int, negative: bool) -> Result<(TokenV, int), Seq<char>> {
    let k = digits_end(cs, j);
    if has_fraction(cs, k) {
        let m = digits_end(cs, k + 1);
        let scale = m - (k + 1);
        let mag = acc_value(acc_value(0, cs.subrange(j, k)), cs.subrange(k + 1, m));
        if scale > MAX_FRACTION_DIGITS || mag > magnitude_limit(negative) {
            Err("number literal out of range"@)
        } else {
            let v = if negative {
                -mag
            } else {
                mag
            };
            Ok((TokenV::Float(Decimal { mantissa: v as i64, scale: scale as u32 }), m))
        }
    } else {
        let mag = acc_value(0, cs.subrange(j, k));
        if mag > magnitude_limit(negative) {
            Err("integer literal out of range"@)
        } else {
            let v = if negative {
                -mag
            } else {
                mag
            };
            Ok((TokenV::Int(v as i64), k))
        }
    }
}

fn signed_from_magnitude(mag: u128, negative: bool) -> (v: i64)
    requires
        mag <= magnitude_limit(negative),
    ensures
        v == (if negative {
            -(mag as int)
        } else {
            mag as int
        }),
{
    if negative {
        if mag == 0x8000_0000_0000_0000 {
            i64::MIN
        } else {
            -(mag as i64)
        }
    } else {
        mag as i64
    }
}

fn scan_number(cs: &Vec<char>, j: usize, negative: bool) -> (r: Result<(Token, usize), String>)
    requires
        j < cs.len(),
        is_digit(cs@[j as int]),
    ensures
        match lex_number(cs@, j as int, negative) {
            Ok((t, n)) => r matches Ok((tok, m)) && tok@ == t && m == n,
            Err(e) => r matches Err(msg) && msg@ == e,
        },
        r matches Ok((_, m)) ==> j < m <= cs.len(),
{
    let limit: u128 = if negative {
        0x8000_0000_0000_0000
    } else {
        0x7fff_ffff_ffff_ffff
    };
    assert(limit as int == magnitude_limit(negative));
    let k = scan_digits_end(cs, j);
    proof {
        lemma_digits_end(cs@, j as int);
        lemma_digits_end(cs@, j + 1);
        assert(digits_end(cs@, j as int) == digits_end(cs@, j + 1));
    }
    if k < cs.len() && k + 1 < cs.len() && cs[k] == '.' && char_is_digit(cs[k + 1]) {
        assert(has_fraction(cs@, k as int));
        let m = scan_digits_end(cs, k + 1);
        proof {
            lemma_digits_end(cs@, k + 1);
        }
        if m - (k + 1) > MAX_FRACTION_DIGITS as usize {
            return Err(String::from_str("number literal out of range"));
        }
        let whole = accumulate_digits(cs, j, k, 0, limit);
        match whole {
            None => {
                proof {
                    let w = acc_value(0, cs@.subrange(j as int, k as int));
                    let f = cs@.subrange(k + 1, m as int);
                    assert forall|x: int| 0 <= x < f.len() implies is_digit(#[trigger] f[x]) by {
                        assert(f[x] == cs@[k + 1 + x]);
                    }
                    lemma_acc_value_grows(w, f);
                }
                Err(String::from_str("number literal out of range"))
            },
            Some(w) => {
                match accumulate_digits(cs, k + 1, m, w, limit) {
                    None => Err(String::from_str("number literal out of range")),
                    Some(mag) => {
                        let v = signed_from_magnitude(mag, negative);
                        Ok((Token::Float(Decimal { mantissa: v, scale: (m - (k + 1)) as u32 }), m))
                    },
                }
            },
        }
    } else {
        assert(!has_fraction(cs@, k as int));
        match accumulate_digits(cs, j, k, 0, limit) {
            None => Err(String::from_str("integer literal out of range")),
            Some(mag) => {
                let v = signed_from_magnitude(mag, negative);
                Ok((Token::Int(v), k))
            },
        }
    }
}

// ---------------------------------------------------------------------------
// Strings

/// The character that the escape `\e` stands for.
pub open spec fn escape_value(e: char) -> char {
    if e == 'n' {
        '\n'
    } else if e == 't' {
        '\t'
    } else {
        e
    }
}

/// The rest of a string literal from index `k`, whose text so far is `acc`:
/// its text and the index after the closing quote.
pub open spec fn lex_string_body(cs: Seq<char>, k: int, acc: Seq<char>) -> Result<
    (Seq<char>, int),
    Seq<char>,
>
    decreases cs.len() - k,
{
    if k < 0 || k >= cs.len() {
        Err("unterminated string literal"@)
    } else if cs[k] == '"' {
        Ok((acc, k + 1))
    } else if cs[k] == '\\' {
        if k + 1 >= cs.len() {
            Err("unterminated string literal"@)
        } else {
            lex_string_body(cs, k + 2, acc.push(escape_value(cs[k + 1])))
        }
    } else {
        lex_string_body(cs, k + 1, acc.push(cs[k]))
    }
}

pub proof fn lemma_string_body_advances(cs: Seq<char>, k: int, acc: Seq<char>)
    ensures
        lex_string_body(cs, k, acc) matches Ok((_, n)) ==> k < n <= cs.len(),
    decreases cs.len() - k,
{
    if 0 <= k < cs.len() && cs[k] != '"' {
        if cs[k] == '\\' {
            if k + 1 < cs.len() {
                lemma_string_body_advances(cs, k + 2, acc.push(escape_value(cs[k + 1])));
            }
        } else {
            lemma_string_body_advances(cs, k + 1, acc.push(cs[k]));
        }
    }
}

fn scan_string(cs: &Vec<char>, start: usize) -> (r: Result<(String, usize), String>)
    requires
        start <= cs.len(),
    ensures
        match lex_string_body(cs@, start as int, Seq::empty()) {
            Ok((s, n)) => r matches Ok((text, m)) && text@ == s && m == n,
            Err(e) => r matches Err(msg) && msg@ == e,
        },
{
    let ghost goal = lex_string_body(cs@, start as int, Seq::empty());
    let mut out = String::new();
    let mut k = start;
    while k < cs.len() && cs[k] != '"'
        invariant
            start <= k <= cs.len(),
            lex_string_body(cs@, k as int, out@) == goal,
            goal == lex_string_body(cs@, start as int, Seq::empty()),
        decreases cs.len() - k,
    {
        if cs[k] == '\\' {
            if k + 1 >= cs.len() {
                assert(lex_string_body(cs@, k as int, out@) == Err::<(Seq<char>, int), Seq<char>>(
                    "unterminated string literal"@,
                ));
                return Err(String::from_str("unterminated string literal"));
            }
            let e = cs[k + 1];
            assert(k + 1 < cs.len());
            let v = if e == 'n' {
                '\n'
            } else if e == 't' {
                '\t'
            } else {
                e
            };
            assert(v == escape_value(cs@[k + 1]));
            push_char(&mut out, v);
            k = k + 2;
        } else {
            push_char(&mut out, cs[k]);
            k = k + 1;
        }
    }
    if k >= cs.len() {
        assert(lex_string_body(cs@, k as int, out@) == Err::<(Seq<char>, int), Seq<char>>(
            "unterminated string literal"@,
        ));
        return Err(String::from_str("unterminated string literal"));
    }
    assert(lex_string_body(cs@, k as int, out@) == Ok::<(Seq<char>, int), Seq<char>>(
        (out@, k + 1),
    ));
    Ok((out, k + 1))
}

// ---------------------------------------------------------------------------
// The whole text

/// `t` in front of the tokens of `r`, or the error of `r`.
pub open spec fn prepend(t: TokenV, r: Result<Seq<TokenV>, Seq<char>>) -> Result<
    Seq<TokenV>,
    Seq<char>,
> {
    match r {
        Ok(ts) => Ok(seq![t] + ts),
        Err(e) => Err(e),
    }
}

/// `a` in front of the tokens of `r`, or the error of `r`.
pub open spec fn prepend_all(a: Seq<TokenV>, r: Result<Seq<TokenV>, Seq<char>>) -> Result<
    Seq<TokenV>,
    Seq<char>,
> {
    match r {
        Ok(ts) => Ok(a + ts),
        Err(e) => Err(e),
    }
}

pub proof fn lemma_lex_number_advances(cs: Seq<char>, j: int, negative: bool)
    requires
        0 <= j < cs.len(),
        is_digit(cs[j]),
    ensures
        lex_number(cs, j, negative) matches Ok((_, n)) ==> j < n <= cs.len(),
{
    lemma_digits_end(cs, j);
    lemma_digits_end(cs, j + 1);
    let k = digits_end(cs, j);
    if has_fraction(cs, k) {
        lemma_digits_end(cs, k + 1);
    }
}

/// The message for a character that no token starts with.
pub open spec fn unexpected_char_text(c: char, i: int) -> Seq<char> {
    "Unexpected character '"@ + seq![c] + "' at "@ + nat_text(i as nat)
}

/// The tokens of the text `cs` from index `i` on, ending with `Eof`.
pub open spec fn lex_from(cs: Seq<char>, i: int) -> Result<Seq<TokenV>, Seq<char>>
    decreases cs.len() - i,
{
    if i < 0 || i >= cs.len() {
        Ok(seq![TokenV::Eof])
    } else {
        let c = cs[i];
        if is_space(c) {
            lex_from(cs, i + 1)
        } else if c == '\n' {
            prepend(TokenV::Newline, lex_from(cs, i + 1))
        } else if c == '#' {
            prepend(TokenV::Session, lex_from(cs, i + 1))
        } else if c == '.' {
            prepend(TokenV::Dot, lex_from(cs, i + 1))
        } else if c == '=' {
            prepend(TokenV::Equal, lex_from(cs, i + 1))
        } else if c == '-' && i + 1 < cs.len() && cs[i + 1] == '>' {
            prepend(TokenV::Arrow, lex_from(cs, i + 2))
        } else if c == '-' && i + 1 < cs.len() && is_digit(cs[i + 1]) {
            match lex_number(cs, i + 1, true) {
                Ok((t, n)) => {
                    proof {
                        lemma_lex_number_advances(cs, i + 1, true);
                    }
                    prepend(t, lex_from(cs, n))
                },
                Err(e) => Err(e),
            }
        } else if is_digit(c) {
            match lex_number(cs, i, false) {
                Ok((t, n)) => {
                    proof {
                        lemma_lex_number_advances(cs, i, false);
                    }
                    prepend(t, lex_from(cs, n))
                },
                Err(e) => Err(e),
            }
        } else if c == '"' {
            match lex_string_body(cs, i + 1, Seq::empty()) {
                Ok((s, n)) => {
                    proof {
                        lemma_string_body_advances(cs, i + 1, Seq::empty());
                    }
                    prepend(TokenV::Str(s), lex_from(cs, n))
                },
                Err(e) => Err(e),
            }
        } else if is_ident_start(c) {
            let k = ident_end(cs, i + 1);
            proof {
                lemma_ident_end(cs, i + 1);
            }
            prepend(TokenV::Ident(cs.subrange(i, k)), lex_from(cs, k))
        } else {
            Err(unexpected_char_text(c, i))
        }
    }
}

/// The tokens of a script text, ending with `Eof`, or the message of the
/// first lexical error.
pub open spec fn lex(text: Seq<char>) -> Result<Seq<TokenV>, Seq<char>> {
    lex_from(text, 0)
}

/// Splits script text into tokens. The result ends with [`Token::Eof`].
pub fn tokenize(text: &str) -> (r: Result<Vec<Token>, String>)
    ensures
        match lex(text@) {
            Ok(ts) => r matches Ok(toks) && tokens_view(toks@) == ts,
            Err(e) => r matches Err(msg) && msg@ == e,
        },
{
    let owned = String::from_str(text);
    let cs = string_chars(&owned);
    let ghost goal = lex(text@);
    let mut toks: Vec<Token> = Vec::new();
    let mut i: usize = 0;
    while i < cs.len()
        invariant
            i <= cs.len(),
            cs@ == text@,
            goal == lex(text@),
            prepend_all(tokens_view(toks@), lex_from(cs@, i as int)) == goal,
        decreases cs.len() - i,
    {
        let ghost before = tokens_view(toks@);
        let c = cs[i];
        if char_is_space(c) {
            i = i + 1;
        } else {
            let next: usize;
            let tok: Token;
            if c == '\n' {
                tok = Token::Newline;
                next = i + 1;
            } else if c == '#' {
                tok = Token::Session;
                next = i + 1;
            } else if c == '.' {
                tok = Token::Dot;
                next = i + 1;
            } else if c == '=' {
                tok = Token::Equal;
                next = i + 1;
            } else if c == '-' && i + 1 < cs.len() && cs[i + 1] == '>' {
                tok = Token::Arrow;
                next = i + 2;
            } else if c == '-' && i + 1 < cs.len() && char_is_digit(cs[i + 1]) {
                match scan_number(&cs, i + 1, true) {
                    Ok((t, n)) => {
                        tok = t;
                        next = n;
                    },
                    Err(e) => {
                        return Err(e);
                    },
                }
            } else if char_is_digit(c) {
                match scan_number(&cs, i, false) {
                    Ok((t, n)) => {
                        tok = t;
                        next = n;
                    },
                    Err(e) => {
                        return Err(e);
                    },
                }
            } else if c == '"' {
                match scan_string(&cs, i + 1) {
                    Ok((s, n)) => {
                        proof {
                            lemma_string_body_advances(cs@, i + 1, Seq::empty());
                        }
                        tok = Token::String(s);
                        next = n;
                    },
                    Err(e) => {
                        return Err(e);
                    },
                }
            } else if char_is_ident_start(c) {
                let k = scan_ident_end(&cs, i + 1);
                proof {
                    lemma_ident_end(cs@, i + 1);
                }
                tok = Token::Ident(chars_to_string(&cs, i, k));
                next = k;
            } else {
                let mut msg = String::from_str("Unexpected character '");
                push_char(&mut msg, c);
                msg.append("' at ");
                msg.append(u64_to_text(i as u64).as_str());
                return Err(msg);
            }
            proof {
                assert(lex_from(cs@, i as int) == prepend(tok@, lex_from(cs@, next as int)));
            }
            toks.push(tok);
            proof {
                assert(tokens_view(toks@) =~= before.push(tok@));
                assert(before.push(tok@) =~= before + seq![tok@]);
                match lex_from(cs@, next as int) {
                    Ok(rest) => {
                        assert(before + (seq![tok@] + rest) =~= before.push(tok@) + rest);
                    },
                    Err(_) => {},
                }
            }
            i = next;
        }
    }
    toks.push(Token::Eof);
    proof {
        assert(tokens_view(toks@) =~= tokens_view(toks@.drop_last()).push(TokenV::Eof));
    }
    Ok(toks)
}

} // verus!
