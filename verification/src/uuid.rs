//! 128-bit identifiers used for resources, resource types, tags and syscalls,
//! with a parser for their textual forms.
use vstd::prelude::*;

verus! {

/// A 128-bit universally unique identifier, stored as one big-endian integer.
#[derive(Clone, Copy, PartialEq, Eq, Structural, Hash, Debug)]
pub struct Uuid {
    value: u128,
}

/// The error returned when a string is not a textual uuid.
#[derive(Clone, Copy, PartialEq, Eq, Structural, Debug)]
pub struct ParseUuidError;

impl View for Uuid {
    type V = u128;

    closed spec fn view(&self) -> u128 {
        self.value
    }
}

impl Uuid {
    /// Builds the uuid whose 128-bit value is `value`.
    pub fn from_u128(value: u128) -> (u: Uuid)
        ensures
            u@ == value,
    {
        Uuid { value }
    }

    /// The 128-bit value of this uuid.
    pub fn as_u128(&self) -> (v: u128)
        ensures
            v == self@,
    {
        self.value
    }

    /// Two uuids are the same value exactly when their 128-bit values agree.
    pub proof fn lemma_view_injective(a: Uuid, b: Uuid)
        ensures
            a@ == b@ <==> a == b,
    {
    }

    /// Parses a uuid written as 32 hexadecimal digits, either plainly
    /// (`a1a2a3...`), hyphenated (`a1a2a3a4-b1b2-c1c2-d1d2-d3d4d5d6d7d8`), in braces
    /// (`{...hyphenated...}`) or as a URN (`urn:uuid:...hyphenated...`).
    /// Digits may be upper or lower case.
    pub fn parse_str(input: &str) -> (r: Result<Uuid, ParseUuidError>)
        ensures
            match r {
                Ok(u) => spec_parse_uuid(input@) == Some(u@),
                Err(_) => spec_parse_uuid(input@) is None,
            },
    {
        let n = input.unicode_len();
        if n != 32 && n != 36 && n != 38 && n != 45 {
            return Err(ParseUuidError);
        }
        let mut chars: Vec<char> = Vec::new();
        let mut i: usize = 0;
        while i < n
            invariant
                n == input@.len(),
                i <= n,
                chars@ == input@.take(i as int),
            decreases n - i,
        {
            let c = input.get_char(i);
            chars.push(c);
            i = i + 1;
            assert(chars@ =~= input@.take(i as int));
        }
        assert(chars@ =~= input@);
        let digits_opt = extract_digits(&chars);
        match digits_opt {
            None => Err(ParseUuidError),
            Some(digits) => {
                match hex_digits_value(&digits) {
                    Some(v) => Ok(Uuid { value: v }),
                    None => Err(ParseUuidError),
                }
            },
        }
    }
}

/// The value of a hexadecimal digit, in either case.
pub open spec fn hex_digit_value(c: char) -> Option<nat> {
    let v = c as u32;
    if 48 <= v <= 57 {
        Some((v - 48) as nat)
    } else if 97 <= v <= 102 {
        Some((v - 87) as nat)
    } else if 65 <= v <= 70 {
        Some((v - 55) as nat)
    } else {
        None
    }
}

/// Every character of `d` is a hexadecimal digit.
pub open spec fn all_hex(d: Seq<char>) -> bool {
    forall|i: int| 0 <= i < d.len() ==> (#[trigger] hex_digit_value(d[i])) is Some
}

/// The number written by the hexadecimal digits `d`, most significant first.
pub open spec fn hex_value(d: Seq<char>) -> nat
    decreases d.len(),
{
    if d.len() == 0 {
        0
    } else {
        hex_value(d.drop_last()) * 16 + hex_digit_value(d.last()).unwrap_or(0)
    }
}

/// Sixteen to the power `n`.
pub open spec fn pow16(n: nat) -> nat
    decreases n,
{
    if n == 0 {
        1
    } else {
        16 * pow16((n - 1) as nat)
    }
}

/// In a hyphenated uuid starting at `o`, the hyphens stand where they should.
pub open spec fn hyphens_at(s: Seq<char>, o: int) -> bool {
    &&& s[o + 8] == '-'
    &&& s[o + 13] == '-'
    &&& s[o + 18] == '-'
    &&& s[o + 23] == '-'
}

/// The 32 digit positions of a hyphenated uuid starting at `o`.
pub open spec fn hyphenated_digits(s: Seq<char>, o: int) -> Seq<char> {
    s.subrange(o, o + 8) + s.subrange(o + 9, o + 13) + s.subrange(o + 14, o + 18) + s.subrange(
        o + 19,
        o + 23,
    ) + s.subrange(o + 24, o + 36)
}

/// The prefix of a uuid written as a URN.
pub open spec fn urn_prefix() -> Seq<char> {
    seq!['u', 'r', 'n', ':', 'u', 'u', 'i', 'd', ':']
}

/// The 32 characters that carry the digits of `s`, for each of the four textual
/// forms; `None` where `s` has none of these shapes.
pub open spec fn uuid_digits(s: Seq<char>) -> Option<Seq<char>> {
    if s.len() == 32 {
        Some(s)
    } else if s.len() == 36 && hyphens_at(s, 0) {
        Some(hyphenated_digits(s, 0))
    } else if s.len() == 38 && s[0] == '{' && s[37] == '}' && hyphens_at(s, 1) {
        Some(hyphenated_digits(s, 1))
    } else if s.len() == 45 && s.subrange(0, 9) == urn_prefix() && hyphens_at(s, 9) {
        Some(hyphenated_digits(s, 9))
    } else {
        None
    }
}

/// The value of the uuid that `s` writes, or `None` where `s` writes none.
pub open spec fn spec_parse_uuid(s: Seq<char>) -> Option<u128> {
    match uuid_digits(s) {
        Some(d) => if all_hex(d) {
            Some(hex_value(d) as u128)
        } else {
            None
        },
        None => None,
    }
}

proof fn lemma_pow16_step(n: nat)
    ensures
        pow16(n + 1) == 16 * pow16(n),
{
}

proof fn lemma_pow16_monotone(a: nat, b: nat)
    requires
        a <= b,
    ensures
        pow16(a) <= pow16(b),
    decreases b - a,
{
    if a < b {
        lemma_pow16_monotone(a, (b - 1) as nat);
        lemma_pow16_step((b - 1) as nat);
    }
}

proof fn lemma_pow16_31()
    ensures
        pow16(31) * 16 == 0x1_0000_0000_0000_0000_0000_0000_0000_0000,
{
    reveal_with_fuel(pow16, 33);
}

/// The value of a hexadecimal digit character.
fn hex_digit(c: char) -> (r: Option<u8>)
    ensures
        match hex_digit_value(c) {
            Some(v) => r == Some(v as u8) && v < 16,
            None => r is None,
        },
{
    let v = c as u32;
    if 48 <= v && v <= 57 {
        Some((v - 48) as u8)
    } else if 97 <= v && v <= 102 {
        Some((v - 87) as u8)
    } else if 65 <= v && v <= 70 {
        Some((v - 55) as u8)
    } else {
        None
    }
}

/// Picks out the 32 digit characters of a textual uuid.
fn extract_digits(s: &Vec<char>) -> (r: Option<Vec<char>>)
    ensures
        match r {
            Some(d) => uuid_digits(s@) == Some(d@),
            None => uuid_digits(s@) is None,
        },
{
    let n = s.len();
    if n == 32 {
        return Some(s.clone());
    }
    let o: usize;
    if n == 36 {
        o = 0;
    } else if n == 38 {
        if s[0] != '{' || s[37] != '}' {
            return None;
        }
        o = 1;
    } else if n == 45 {
        let prefix = ['u', 'r', 'n', ':', 'u', 'u', 'i', 'd', ':'];
        let mut k: usize = 0;
        while k < 9
            invariant
                n == 45,
                s@.len() == 45,
                k <= 9,
                prefix@ == urn_prefix(),
                forall|j: int| 0 <= j < k ==> s@[j] == urn_prefix()[j],
            decreases 9 - k,
        {
            if s[k] != prefix[k] {
                return None;
            }
            k = k + 1;
        }
        assert(s@.subrange(0, 9) =~= urn_prefix());
        o = 9;
    } else {
        return None;
    }
    assert(n == 45 ==> s@.subrange(0, 9) == urn_prefix());
    if s[o + 8] != '-' || s[o + 13] != '-' || s[o + 18] != '-' || s[o + 23] != '-' {
        return None;
    }
    let mut d: Vec<char> = Vec::new();
    push_range(&mut d, s, o, o + 8);
    push_range(&mut d, s, o + 9, o + 13);
    push_range(&mut d, s, o + 14, o + 18);
    push_range(&mut d, s, o + 19, o + 23);
    push_range(&mut d, s, o + 24, o + 36);
    assert(d@ =~= hyphenated_digits(s@, o as int));
    Some(d)
}

/// Appends `s[from..to]` to `d`.
fn push_range(d: &mut Vec<char>, s: &Vec<char>, from: usize, to: usize)
    requires
        from <= to <= s@.len(),
    ensures
        final(d)@ == old(d)@ + s@.subrange(from as int, to as int),
{
    let mut i: usize = from;
    while i < to
        invariant
            from <= i <= to <= s@.len(),
            d@ == old(d)@ + s@.subrange(from as int, i as int),
        decreases to - i,
    {
        d.push(s[i]);
        i = i + 1;
        assert(d@ =~= old(d)@ + s@.subrange(from as int, i as int));
    }
}

/// The value of exactly 32 hexadecimal digits; `None` if one of them is not a digit.
fn hex_digits_value(d: &Vec<char>) -> (r: Option<u128>)
    requires
        d@.len() == 32,
    ensures
        match r {
            Some(v) => all_hex(d@) && v == hex_value(d@),
            None => !all_hex(d@),
        },
{
    let mut acc: u128 = 0;
    let mut i: usize = 0;
    while i < 32
        invariant
            d@.len() == 32,
            i <= 32,
            acc == hex_value(d@.take(i as int)),
            hex_value(d@.take(i as int)) < pow16(i as nat),
            all_hex(d@.take(i as int)),
        decreases 32 - i,
    {
        let c = d[i];
        match hex_digit(c) {
            None => {
                assert(hex_digit_value(d@[i as int]) is None);
                return None;
            },
            Some(v) => {
                proof {
                    lemma_pow16_monotone(i as nat, 31);
                    lemma_pow16_31();
                    lemma_pow16_step(i as nat);
                    assert(d@.take(i + 1).drop_last() =~= d@.take(i as int));
                }
                acc = acc * 16 + v as u128;
                i = i + 1;
                assert(all_hex(d@.take(i as int))) by {
                    assert forall|j: int| 0 <= j < i implies (#[trigger] hex_digit_value(
                        d@.take(i as int)[j],
                    )) is Some by {
                        if j < i - 1 {
                            assert(d@.take(i as int)[j] == d@.take(i - 1)[j]);
                        }
                    }
                }
            },
        }
    }
    assert(d@.take(32) =~= d@);
    Some(acc)
}

/// A hyphenated uuid reads the same in braces and as a URN, and the same as its
/// 32 digits written plainly.
pub proof fn lemma_uuid_textual_forms_agree(h: Seq<char>)
    requires
        h.len() == 36,
    ensures
        spec_parse_uuid(seq!['{'] + h + seq!['}']) == spec_parse_uuid(h),
        spec_parse_uuid(urn_prefix() + h) == spec_parse_uuid(h),
        hyphens_at(h, 0) ==> spec_parse_uuid(hyphenated_digits(h, 0)) == spec_parse_uuid(h),
{
    let b = seq!['{'] + h + seq!['}'];
    assert(hyphens_at(b, 1) == hyphens_at(h, 0));
    assert(hyphenated_digits(b, 1) =~= hyphenated_digits(h, 0));
    let u = urn_prefix() + h;
    assert(u.subrange(0, 9) =~= urn_prefix());
    assert(hyphens_at(u, 9) == hyphens_at(h, 0));
    assert(hyphenated_digits(u, 9) =~= hyphenated_digits(h, 0));
}

/// `c` with the upper-case hexadecimal letters `A`..`F` made lower case.
pub open spec fn hex_lower(c: char) -> char {
    let v = c as u32;
    if 65 <= v <= 70 {
        (v + 32) as char
    } else {
        c
    }
}

/// `s` with its upper-case hexadecimal letters made lower case.
pub open spec fn hex_lower_seq(s: Seq<char>) -> Seq<char> {
    s.map_values(|c: char| hex_lower(c))
}

proof fn lemma_hex_lower_digit(c: char)
    ensures
        hex_digit_value(hex_lower(c)) == hex_digit_value(c),
{
    let v = c as u32;
    if 65 <= v <= 70 {
        assert((((v + 32) as char) as u32) == v + 32);
    }
}

proof fn lemma_hex_value_lower(d: Seq<char>)
    ensures
        hex_value(hex_lower_seq(d)) == hex_value(d),
        all_hex(hex_lower_seq(d)) == all_hex(d),
    decreases d.len(),
{
    let m = hex_lower_seq(d);
    assert forall|i: int| 0 <= i < d.len() implies #[trigger] hex_digit_value(m[i])
        == hex_digit_value(d[i]) by {
        lemma_hex_lower_digit(d[i]);
    }
    if d.len() > 0 {
        lemma_hex_value_lower(d.drop_last());
        assert(hex_lower_seq(d.drop_last()) =~= m.drop_last());
        assert(hex_digit_value(m.last()) == hex_digit_value(d.last()));
    }
    if all_hex(m) {
        assert forall|i: int| 0 <= i < d.len() implies (#[trigger] hex_digit_value(d[i])) is Some by {
            assert(hex_digit_value(m[i]) is Some);
        }
    }
    if all_hex(d) {
        assert forall|i: int| 0 <= i < m.len() implies (#[trigger] hex_digit_value(m[i])) is Some by {
            assert(hex_digit_value(d[i]) is Some);
        }
    }
}

/// Hexadecimal digits are read without regard to case: a uuid written with
/// upper-case digits has the same value as the same text with them in lower
/// case (for the plain, hyphenated and braced forms).
pub proof fn lemma_uuid_case_insensitive(s: Seq<char>)
    requires
        s.len() != 45,
    ensures
        spec_parse_uuid(hex_lower_seq(s)) == spec_parse_uuid(s),
{
    let m = hex_lower_seq(s);
    assert(hex_lower('-') == '-');
    assert(hex_lower('{') == '{');
    assert(hex_lower('}') == '}');
    if s.len() == 32 {
        lemma_hex_value_lower(s);
    } else if s.len() == 36 || s.len() == 38 {
        let o: int = if s.len() == 36 {
            0
        } else {
            1
        };
        assert(hyphens_at(m, o) == hyphens_at(s, o));
        if s.len() == 38 {
            assert((m[0] == '{') == (s[0] == '{'));
            assert((m[37] == '}') == (s[37] == '}'));
        }
        assert(hyphenated_digits(m, o) =~= hex_lower_seq(hyphenated_digits(s, o)));
        lemma_hex_value_lower(hyphenated_digits(s, o));
    }
}

} // verus!
