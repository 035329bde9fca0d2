//! Save slots: how a slot's file is named, and how a file name is read
//! back as a slot.
use vstd::prelude::*;
use crate::script::text::{digit_char, push_char, str_chars, nat_text, u64_to_text};
use crate::script::lexer::chars_to_string;

verus! {

/// Whether the slot list is shown for saving or for loading.
#[derive(Clone, Copy, Debug, PartialEq, Eq, Structural)]
pub enum SlotDrawMode {
    Save,
    Load,
}

/// Whether `text` matches the regular expression `pattern`, as the
/// `regex` crate decides it.
pub uninterp spec fn regex_match(pattern: Seq<char>, text: Seq<char>) -> bool;

/// Compiles `pattern` with `regex::Regex::new` and tells whether
/// `regex::Regex::is_match` finds it in `text`. `Regex::new` fails only on a
/// pattern that does not compile, so the one pattern it is handed here, the
/// save-file pattern, is fixed by `requires`.
#[verifier::external_body]
fn regex_is_match(pattern: &str, text: &str) -> (r: bool)
    requires
        pattern@ == "^\\d+_.*.save$"@,
    ensures
        r == regex_match(pattern@, text@),
{
    regex::Regex::new(pattern).expect("invalid regular expression").is_match(text)
}

/// Whether `c` is alphabetic or numeric, as `char::is_alphanumeric` (of
/// the standard library) decides it by its Unicode properties.
pub uninterp spec fn unicode_alphanumeric(c: char) -> bool;

/// `char::is_alphanumeric`.
#[verifier::external_body]
fn is_alphanumeric(c: char) -> (r: bool)
    ensures
        r == unicode_alphanumeric(c),
{
    c.is_alphanumeric()
}

/// The character a slot name keeps in its file name: letters, digits,
/// `-`, `_`, `.` and spaces stay; anything else becomes `_`.
pub open spec fn safe_char(c: char) -> char {
    if unicode_alphanumeric(c) || c == '-' || c == '_' || c == '.' || c == ' ' { c } else { '_' }
}

/// The file name of the slot `id` named `name`: `<id>_<safe name>.save`.
pub open spec fn slot_file_name(id: u8, name: Seq<char>) -> Seq<char> {
    nat_text(id as nat) + seq!['_'] + name.map_values(|c: char| safe_char(c)) + ".save"@
}

/// A decimal digit.
pub open spec fn is_digit(c: char) -> bool {
    '0' <= c <= '9'
}

/// The value of a string of decimal digits.
pub open spec fn digits_value(s: Seq<char>) -> int
    decreases s.len(),
{
    if s.len() == 0 {
        0
    } else {
        10 * digits_value(s.drop_last()) + (s.last() as int - '0' as int)
    }
}

/// `s` without a leading `+`.
pub open spec fn sign_stripped(s: Seq<char>) -> Seq<char> {
    if s.len() > 0 && s[0] == '+' { s.drop_first() } else { s }
}

/// Whether every character of `d` is a decimal digit.
pub open spec fn all_digits(d: Seq<char>) -> bool {
    forall|i: int| 0 <= i < d.len() ==> is_digit(#[trigger] d[i])
}

/// What `str::parse::<u8>` gives: an optional `+` then one or more decimal
/// digits whose value is at most 255.
pub open spec fn parse_u8(s: Seq<char>) -> Option<u8> {
    let d = sign_stripped(s);
    if d.len() > 0 && all_digits(d) && digits_value(d) <= 255 {
        Some(digits_value(d) as u8)
    } else {
        None
    }
}

/// The index of the first `c` in `s` at or after `i`, or -1.
pub open spec fn index_of_from(s: Seq<char>, c: char, i: int) -> int
    decreases s.len() - i,
{
    if i < 0 || i >= s.len() {
        -1
    } else if s[i] == c {
        i
    } else {
        index_of_from(s, c, i + 1)
    }
}

/// The index of the first `c` in `s`, or -1.
pub open spec fn first_index_of(s: Seq<char>, c: char) -> int {
    index_of_from(s, c, 0)
}

proof fn lemma_index_of_from(s: Seq<char>, c: char, i: int)
    requires
        0 <= i,
    ensures
        index_of_from(s, c, i) == -1 || (i <= index_of_from(s, c, i) < s.len() && s[index_of_from(s, c, i)] == c),
        forall|k: int| i <= k < s.len() && (index_of_from(s, c, i) == -1 || k < index_of_from(s, c, i)) ==> s[k] != c,
    decreases s.len() - i,
{
    if i < s.len() && s[i] != c {
        lemma_index_of_from(s, c, i + 1);
    }
}

/// The index of the first `c` in `s` at or after `from`, if any.
fn find_char(s: &Vec<char>, c: char, from: usize) -> (r: Option<usize>)
    requires
        from <= s@.len(),
    ensures
        match r {
            Some(i) => index_of_from(s@, c, from as int) == i && from <= i < s@.len() && s@[i as int] == c,
            None => index_of_from(s@, c, from as int) == -1,
        },
{
    let mut i = from;
    while i < s.len()
        invariant
            from <= i <= s@.len(),
            forall|k: int| from <= k < i ==> s@[k] != c,
        decreases s@.len() - i,
    {
        if s[i] == c {
            proof {
                lemma_index_of_from(s@, c, from as int);
                let f = index_of_from(s@, c, from as int);
                if f != i {
                    assert(f != -1 ==> s@[f] == c);
                }
            }
            return Some(i);
        }
        i = i + 1;
    }
    proof {
        lemma_index_of_from(s@, c, from as int);
        let f = index_of_from(s@, c, from as int);
        if f != -1 {
            assert(s@[f] == c);
        }
    }
    None
}

/// The part of a file name before its first `.` (all of it when there is
/// none). A name that starts with `.` keeps that dot and is cut at the
/// next one.
pub open spec fn file_prefix(name: Seq<char>) -> Seq<char> {
    if name.len() > 0 && name[0] == '.' {
        let i = index_of_from(name, '.', 1);
        if i < 0 { name } else { name.take(i) }
    } else {
        let i = first_index_of(name, '.');
        if i < 0 { name } else { name.take(i) }
    }
}

/// The slot a save file of name `file_name` stands for, if it is one:
/// the name must match `^\d+_.*.save$`; the part of its prefix before
/// the first `_` is the slot id, the part after it the slot's name.
pub open spec fn slot_of_name(file_name: Seq<char>, matched: bool) -> Option<(u8, Seq<char>)> {
    if !matched {
        None
    } else {
        let prefix = file_prefix(file_name);
        let u = first_index_of(prefix, '_');
        let head = if u < 0 { prefix } else { prefix.take(u) };
        let tail = if u < 0 { Seq::empty() } else { prefix.skip(u + 1) };
        match parse_u8(head) {
            Some(id) => Some((id, tail)),
            None => None,
        }
    }
}

/// `str::parse::<u8>` of the characters `s[from..to]`.
fn parse_u8_chars(s: &Vec<char>, from: usize, to: usize) -> (r: Option<u8>)
    requires
        from <= to <= s@.len(),
    ensures
        r == parse_u8(s@.subrange(from as int, to as int)),
{
    let ghost t = s@.subrange(from as int, to as int);
    let mut i = from;
    if i < to && s[i] == '+' {
        i = i + 1;
    }
    let ghost d = sign_stripped(t);
    assert(d =~= s@.subrange(i as int, to as int));
    if i == to {
        return None;
    }
    let start = i;
    let mut value: u64 = 0;
    while i < to
        invariant
            start <= i <= to <= s@.len(),
            start < to,
            d == s@.subrange(start as int, to as int),
            t == s@.subrange(from as int, to as int),
            d == sign_stripped(t),
            forall|k: int| start <= k < i ==> is_digit(#[trigger] s@[k]),
            value == digits_value(s@.subrange(start as int, i as int)),
            value <= 255,
        decreases to - i,
    {
        let c = s[i];
        if !('0' <= c && c <= '9') {
            proof {
                assert(d[i - start] == s@[i as int]);
                assert(!is_digit(d[i - start]));
                assert(!all_digits(d));
                assert(parse_u8(t) is None);
            }
            return None;
        }
        let digit: u64 = (c as u32 - '0' as u32) as u64;
        proof {
            let p = s@.subrange(start as int, i + 1);
            assert(p.drop_last() =~= s@.subrange(start as int, i as int));
            assert(digits_value(p) == 10 * value + digit);
        }
        if value * 10 + digit > 255 {
            proof {
                if all_digits(d) {
                    lemma_digits_value_grows(d, (i + 1 - start) as int);
                    assert(d.subrange(0, i + 1 - start) =~= s@.subrange(start as int, i + 1));
                    assert(digits_value(d) > 255);
                }
                assert(parse_u8(t) is None);
            }
            return None;
        }
        value = value * 10 + digit;
        i = i + 1;
    }
    proof {
        assert forall|k: int| 0 <= k < d.len() implies is_digit(#[trigger] d[k]) by {
            assert(d[k] == s@[start + k]);
        }
        assert(s@.subrange(start as int, i as int) =~= d);
    }
    Some(value as u8)
}

proof fn lemma_digits_value_nonneg(d: Seq<char>)
    requires
        forall|i: int| 0 <= i < d.len() ==> is_digit(#[trigger] d[i]),
    ensures
        digits_value(d) >= 0,
    decreases d.len(),
{
    if d.len() > 0 {
        lemma_digits_value_nonneg(d.drop_last());
        assert(is_digit(d[d.len() - 1]));
    }
}

proof fn lemma_digits_value_grows(d: Seq<char>, n: int)
    requires
        0 <= n <= d.len(),
        forall|i: int| 0 <= i < d.len() ==> is_digit(#[trigger] d[i]),
    ensures
        digits_value(d.subrange(0, n)) <= digits_value(d),
    decreases d.len(),
{
    if n < d.len() {
        assert(d.drop_last().subrange(0, n) =~= d.subrange(0, n));
        lemma_digits_value_grows(d.drop_last(), n);
        lemma_digits_value_nonneg(d.drop_last());
    } else {
        assert(d.subrange(0, n) =~= d);
    }
}

/// A save slot.
pub struct Slot;

impl Slot {
    /// The pattern of the names of save files.
    pub fn slot_pattern() -> (r: &'static str)
        ensures
            r@ == "^\\d+_.*.save$"@,
    {
        "^\\d+_.*.save$"
    }

    /// The file name of the slot `id` named `name`.
    pub fn file_name(id: u8, name: &str) -> (r: String)
        ensures
            r@ == slot_file_name(id, name@),
    {
        let chars = str_chars(name);
        let mut out = u64_to_text(id as u64);
        push_char(&mut out, '_');
        let ghost start = out@;
        let mut i: usize = 0;
        while i < chars.len()
            invariant
                i <= chars@.len(),
                chars@ == name@,
                out@ == start + chars@.take(i as int).map_values(|c: char| safe_char(c)),
            decreases chars@.len() - i,
        {
            let c = chars[i];
            let keep = is_alphanumeric(c) || c == '-' || c == '_' || c == '.' || c == ' ';
            push_char(&mut out, if keep { c } else { '_' });
            assert(chars@.take(i + 1).map_values(|c: char| safe_char(c)) =~= chars@.take(
                i as int,
            ).map_values(|c: char| safe_char(c)).push(safe_char(c)));
            i = i + 1;
        }
        out.append(".save");
        assert(chars@.take(chars@.len() as int) =~= chars@);
        assert(out@ =~= slot_file_name(id, name@));
        out
    }
}

impl Slot {
    /// The slot that a save file named `file_name` stands for, given
    /// whether the name matches [`Slot::slot_pattern`]: its id and its name.
    pub fn slot_of_file_name(file_name: &str, matched: bool) -> (r: Option<(u8, String)>)
        ensures
            match slot_of_name(file_name@, matched) {
                Some((id, n)) => r matches Some((i, s)) && i == id && s@ == n,
                None => r is None,
            },
    {
        if !matched {
            return None;
        }
        let chars = str_chars(file_name);
        let end: usize = if chars.len() > 0 && chars[0] == '.' {
            match find_char(&chars, '.', 1) {
                Some(i) => i,
                None => chars.len(),
            }
        } else {
            match find_char(&chars, '.', 0) {
                Some(i) => i,
                None => chars.len(),
            }
        };
        let prefix = chars_to_vec(&chars, 0, end);
        assert(prefix@ == file_prefix(file_name@));
        let (head_end, tail_start) = match find_char(&prefix, '_', 0) {
            Some(u) => (u, u + 1),
            None => (prefix.len(), prefix.len()),
        };
        let id = match parse_u8_chars(&prefix, 0, head_end) {
            Some(id) => id,
            None => {
                assert(prefix@.subrange(0, head_end as int) =~= (if first_index_of(prefix@, '_') < 0 {
                    prefix@
                } else {
                    prefix@.take(first_index_of(prefix@, '_'))
                }));
                return None;
            },
        };
        assert(prefix@.subrange(0, head_end as int) =~= (if first_index_of(prefix@, '_') < 0 {
            prefix@
        } else {
            prefix@.take(first_index_of(prefix@, '_'))
        }));
        let name = chars_to_string(&prefix, tail_start, prefix.len());
        assert(name@ =~= (if first_index_of(prefix@, '_') < 0 {
            Seq::<char>::empty()
        } else {
            prefix@.skip(first_index_of(prefix@, '_') + 1)
        }));
        Some((id, name))
    }

    /// The slot that a save file named `file_name` stands for, if its name
    /// matches [`Slot::slot_pattern`] and starts with a slot id.
    pub fn parse_file_name(file_name: &str) -> (r: Option<(u8, String)>)
        ensures
            match slot_of_name(file_name@, regex_match("^\\d+_.*.save$"@, file_name@)) {
                Some((id, n)) => r matches Some((i, s)) && i == id && s@ == n,
                None => r is None,
            },
    {
        let matched = regex_is_match(Self::slot_pattern(), file_name);
        Self::slot_of_file_name(file_name, matched)
    }
}

/// The number of save slots shown.
pub const SLOT_SIZE: usize = 20;

/// The slot that a save file named `name` stands for, as
/// [`Slot::parse_file_name`] reads it.
pub open spec fn parsed_slot(name: Seq<char>) -> Option<(u8, Seq<char>)> {
    slot_of_name(name, regex_match("^\\d+_.*.save$"@, name))
}

/// The last of the first `n` files of `names` that stands for the slot
/// `id`: its position and the slot's name.
pub open spec fn slot_found(names: Seq<String>, id: u8, n: int) -> Option<(int, Seq<char>)>
    decreases n,
{
    if n <= 0 {
        None
    } else {
        match parsed_slot(names[n - 1]@) {
            Some((i, nm)) => if i == id {
                Some((n - 1, nm))
            } else {
                slot_found(names, id, n - 1)
            },
            None => slot_found(names, id, n - 1),
        }
    }
}

/// What the slot table holds for the slot `id` after the first `n` files
/// of `names`: the last file that stands for it (its position and the
/// slot's name); otherwise an empty slot for the ids of the shown slots,
/// and nothing for the others.
pub open spec fn slot_entry(names: Seq<String>, id: u8, n: int) -> Option<(Option<int>, Seq<char>)> {
    match slot_found(names, id, n) {
        Some((i, nm)) => Some((Some(i), nm)),
        None => if id < SLOT_SIZE {
            Some((None, Seq::<char>::empty()))
        } else {
            None
        },
    }
}

/// The model of one entry of a slot table.
pub open spec fn slot_entry_view(e: Option<(Option<usize>, String)>) -> Option<(Option<int>, Seq<char>)> {
    match e {
        Some((Some(i), nm)) => Some((Some(i as int), nm@)),
        Some((None, nm)) => Some((None, nm@)),
        None => None,
    }
}

impl Slot {
    /// The slots of a save directory whose files are named `names` (in the
    /// order the directory lists them), by slot id: for each id, the last
    /// file that stands for it, as its position in `names` and the slot's
    /// name; an empty slot for each shown slot that no file stands for;
    /// nothing for the other ids.
    pub fn slot_table(names: &Vec<String>) -> (r: Vec<Option<(Option<usize>, String)>>)
        ensures
            r@.len() == 256,
            forall|id: u8| #[trigger] slot_entry_view(r@[id as int]) == slot_entry(names@, id, names@.len() as int),
    {
        let mut r: Vec<Option<(Option<usize>, String)>> = Vec::new();
        let mut k: usize = 0;
        while k < 256
            invariant
                k <= 256,
                r@.len() == k,
                forall|id: u8| id < k ==> #[trigger] slot_entry_view(r@[id as int]) == slot_entry(names@, id, 0),
            decreases 256 - k,
        {
            if k < SLOT_SIZE {
                r.push(Some((None, String::new())));
            } else {
                r.push(None);
            }
            k = k + 1;
        }
        let mut i: usize = 0;
        while i < names.len()
            invariant
                i <= names@.len(),
                r@.len() == 256,
                forall|id: u8| #[trigger] slot_entry_view(r@[id as int]) == slot_entry(names@, id, i as int),
            decreases names@.len() - i,
        {
            let found = Slot::parse_file_name(names[i].as_str());
            match found {
                Some((id, nm)) => {
                    let ghost old_r = r@;
                    r.set(id as usize, Some((Some(i), nm)));
                    proof {
                        assert forall|j: u8| #[trigger] slot_entry_view(r@[j as int]) == slot_entry(
                            names@,
                            j,
                            i + 1,
                        ) by {
                            if j != id {
                                assert(r@[j as int] == old_r[j as int]);
                            }
                        }
                    }
                },
                None => {
                    proof {
                        assert forall|j: u8| #[trigger] slot_entry_view(r@[j as int]) == slot_entry(
                            names@,
                            j,
                            i + 1,
                        ) by {
                            assert(slot_found(names@, j, i + 1) == slot_found(names@, j, i as int));
                        }
                    }
                },
            }
            i = i + 1;
        }
        r
    }
}

/// The characters `s[from..to]`.
fn chars_to_vec(s: &Vec<char>, from: usize, to: usize) -> (r: Vec<char>)
    requires
        from <= to <= s@.len(),
    ensures
        r@ == s@.subrange(from as int, to as int),
{
    let mut r: Vec<char> = Vec::new();
    let mut i = from;
    while i < to
        invariant
            from <= i <= to <= s@.len(),
            r@ == s@.subrange(from as int, i as int),
        decreases to - i,
    {
        r.push(s[i]);
        assert(r@ =~= s@.subrange(from as int, i + 1));
        i = i + 1;
    }
    r
}


proof fn lemma_digit_char(d: int)
    requires
        0 <= d < 10,
    ensures
        is_digit(digit_char(d)),
        digit_char(d) as int - '0' as int == d,
{
}

proof fn lemma_nat_text_digits(n: nat)
    ensures
        nat_text(n).len() > 0,
        all_digits(nat_text(n)),
        digits_value(nat_text(n)) == n,
    decreases n,
{
    lemma_digit_char((n % 10) as int);
    let t = nat_text(n);
    if n < 10 {
        assert(t.drop_last() =~= Seq::<char>::empty());
        assert(t.last() == digit_char(n as int));
        assert(digits_value(t) == 10 * digits_value(t.drop_last()) + (t.last() as int - '0' as int));
    }
    if n >= 10 {
        lemma_nat_text_digits(n / 10);
        assert(t.drop_last() =~= nat_text(n / 10));
        assert(t.last() == digit_char((n % 10) as int));
        assert(digits_value(t) == 10 * digits_value(t.drop_last()) + (t.last() as int - '0' as int));
        assert forall|i: int| 0 <= i < t.len() implies is_digit(#[trigger] t[i]) by {
            if i < t.len() - 1 {
                assert(t[i] == nat_text(n / 10)[i]);
            }
        }
    }
}

proof fn lemma_index_of_skip(s: Seq<char>, c: char, i: int, j: int)
    requires
        0 <= i <= j <= s.len(),
        forall|k: int| i <= k < j ==> s[k] != c,
    ensures
        index_of_from(s, c, i) == index_of_from(s, c, j),
    decreases j - i,
{
    if i < j {
        lemma_index_of_skip(s, c, i + 1, j);
    }
}

/// A slot's file name reads back as the slot: the file name of the slot
/// `id` named `name` (where the name has no `.`) stands for the slot `id`,
/// with the name as its file name keeps it.
pub proof fn slot_file_name_reads_back(id: u8, name: Seq<char>)
    requires
        forall|i: int| 0 <= i < name.len() ==> name[i] != '.',
    ensures
        slot_of_name(slot_file_name(id, name), true) == Some((id, name.map_values(|c: char| safe_char(c)))),
{
    let digits = nat_text(id as nat);
    let safe = name.map_values(|c: char| safe_char(c));
    let full = slot_file_name(id, name);
    lemma_nat_text_digits(id as nat);
    reveal_strlit(".save");
    assert(full =~= digits + seq!['_'] + safe + ".save"@);
    let n = digits.len() as int;
    let m = safe.len() as int;
    assert forall|k: int| 0 <= k < m implies safe[k] != '.' by {
        assert(safe[k] == safe_char(name[k]));
    }
    assert forall|k: int| 0 <= k < n + 1 + m implies full[k] != '.' by {
        if k < n {
            assert(full[k] == digits[k]);
            assert(is_digit(digits[k]));
        } else if k == n {
        } else {
            assert(full[k] == safe[k - n - 1]);
        }
    }
    assert(full[n + 1 + m] == '.');
    assert(full[0] == digits[0]);
    assert(is_digit(digits[0]));
    lemma_index_of_skip(full, '.', 0, n + 1 + m);
    assert(first_index_of(full, '.') == n + 1 + m);
    let prefix = file_prefix(full);
    assert(prefix =~= digits + seq!['_'] + safe);
    assert forall|k: int| 0 <= k < n implies prefix[k] != '_' by {
        assert(prefix[k] == digits[k]);
        assert(is_digit(digits[k]));
    }
    lemma_index_of_skip(prefix, '_', 0, n);
    assert(prefix[n] == '_');
    assert(first_index_of(prefix, '_') == n);
    assert(prefix.take(n) =~= digits);
    assert(prefix.skip(n + 1) =~= safe);
    assert(sign_stripped(digits) == digits);
    assert(parse_u8(digits) == Some(id));
}

} // verus!
