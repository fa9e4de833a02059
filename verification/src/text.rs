//! Text building: concatenation, joining, quoting and decimal numerals.

use vstd::prelude::*;
use vstd::string::StringExecFns;

verus! {

// ---------------------------------------------------------------------------
// std
// ---------------------------------------------------------------------------

/// `String::push` of std: appends one character.
pub assume_specification[ std::string::String::push ](s: &mut std::string::String, c: char)
    ensures
        final(s)@ == old(s)@.push(c),
;

/// Wraps `str`'s `==` of std: two texts are equal exactly when they hold the
/// same characters in the same order.
#[verifier::external_body]
pub(crate) fn same(a: &str, b: &str) -> (r: bool)
    ensures
        r == (a@ == b@),
{
    a == b
}

// ---------------------------------------------------------------------------
// Views of lists of text
// ---------------------------------------------------------------------------

/// The characters of each text of a list.
pub open spec fn texts(v: Seq<String>) -> Seq<Seq<char>> {
    v.map_values(|s: String| s@)
}

/// The characters of an optional text.
pub open spec fn text_opt(o: Option<String>) -> Option<Seq<char>> {
    match o {
        Some(s) => Some(s@),
        None => None,
    }
}

/// The characters of an optional borrowed text.
pub open spec fn str_opt(o: Option<&str>) -> Option<Seq<char>> {
    match o {
        Some(s) => Some(s@),
        None => None,
    }
}

/// Appending to a list of texts appends to its view.
pub proof fn lemma_texts_push(v: Seq<String>, s: String)
    ensures
        texts(v.push(s)) == texts(v).push(s@),
{
    assert(texts(v.push(s)) =~= texts(v).push(s@));
}

/// The empty list of texts.
pub proof fn lemma_texts_empty(v: Seq<String>)
    requires
        v.len() == 0,
    ensures
        texts(v) == Seq::<Seq<char>>::empty(),
{
    assert(texts(v) =~= Seq::<Seq<char>>::empty());
}

/// An empty list of texts.
pub fn no_texts() -> (r: Vec<String>)
    ensures
        r@.len() == 0,
        texts(r@) == Seq::<Seq<char>>::empty(),
{
    let r: Vec<String> = Vec::new();
    proof {
        lemma_texts_empty(r@);
    }
    r
}

/// Adds a text at the end of a list.
pub fn push_text(v: &mut Vec<String>, s: String)
    ensures
        final(v)@ == old(v)@.push(s),
        texts(final(v)@) == texts(old(v)@).push(s@),
{
    proof {
        lemma_texts_push(v@, s);
    }
    v.push(s);
}

/// A copy of a text.
pub fn owned(s: &str) -> (r: String)
    ensures
        r@ == s@,
{
    s.to_owned()
}

/// A copy of an optional text.
pub fn owned_opt(o: Option<&str>) -> (r: Option<String>)
    ensures
        text_opt(r) == str_opt(o),
{
    match o {
        Some(s) => Some(owned(s)),
        None => None,
    }
}

/// A copy of a list of texts.
pub fn copy_texts(v: &Vec<String>) -> (r: Vec<String>)
    ensures
        texts(r@) == texts(v@),
        r@ == v@,
{
    let mut r: Vec<String> = Vec::new();
    let mut i: usize = 0;
    while i < v.len()
        invariant
            i <= v.len(),
            r@ == v@.take(i as int),
        decreases v.len() - i,
    {
        r.push(v[i].clone());
        i += 1;
        assert(r@ =~= v@.take(i as int));
    }
    assert(r@ =~= v@);
    r
}

/// Whether a list of texts holds one.
pub open spec fn has_text(v: Seq<Seq<char>>, s: Seq<char>) -> bool {
    v.contains(s)
}

/// Whether a list of texts holds one.
pub fn contains_text(v: &Vec<String>, s: &str) -> (r: bool)
    ensures
        r == has_text(texts(v@), s@),
{
    let mut i: usize = 0;
    while i < v.len()
        invariant
            i <= v.len(),
            forall|j: int| 0 <= j < i ==> texts(v@)[j] != s@,
        decreases v.len() - i,
    {
        if same(&v[i], s) {
            assert(texts(v@)[i as int] == s@);
            return true;
        }
        i += 1;
    }
    false
}

// ---------------------------------------------------------------------------
// Characters
// ---------------------------------------------------------------------------

/// The characters of a text.
pub fn chars_of(s: &str) -> (r: Vec<char>)
    ensures
        r@ == s@,
{
    let mut r: Vec<char> = Vec::new();
    for c in it: s.chars()
        invariant
            it.seq() == s@,
            r@ == s@.take(it.index() as int),
    {
        r.push(c);
        assert(r@ =~= s@.take(it.index() + 1));
    }
    assert(r@ =~= s@);
    r
}

/// The text that a run of characters spells.
pub fn text_of(cs: &Vec<char>, from: usize, to: usize) -> (r: String)
    requires
        from <= to <= cs@.len(),
    ensures
        r@ == cs@.subrange(from as int, to as int),
{
    let mut r = String::new();
    let mut i: usize = from;
    assert(r@ =~= cs@.subrange(from as int, from as int));
    while i < to
        invariant
            from <= i <= to <= cs@.len(),
            r@ == cs@.subrange(from as int, i as int),
        decreases to - i,
    {
        r.push(cs[i]);
        i += 1;
        assert(r@ =~= cs@.subrange(from as int, i as int));
    }
    r
}

/// `s` with every `from` written as `to`.
pub open spec fn replaced(s: Seq<char>, from: char, to: Seq<char>) -> Seq<char>
    decreases s.len(),
{
    if s.len() == 0 {
        Seq::<char>::empty()
    } else {
        replaced(s.drop_last(), from, to) + (if s.last() == from {
            to
        } else {
            seq![s.last()]
        })
    }
}

/// `s` with every `from` written as `to`.
pub fn replace_char(s: &str, from: char, to: &str) -> (r: String)
    ensures
        r@ == replaced(s@, from, to@),
{
    let cs = chars_of(s);
    let mut r = String::new();
    let mut i: usize = 0;
    while i < cs.len()
        invariant
            i <= cs@.len(),
            cs@ == s@,
            r@ == replaced(s@.take(i as int), from, to@),
        decreases cs.len() - i,
    {
        let c: char = cs[i];
        assert(s@.take(i + 1).drop_last() =~= s@.take(i as int));
        assert(s@.take(i + 1).last() == c);
        if c == from {
            r.append(to);
        } else {
            let ghost before = r@;
            r.push(c);
            assert(before.push(c) =~= before + seq![c]);
        }
        i += 1;
    }
    assert(s@.take(cs@.len() as int) =~= s@);
    r
}

/// Whether `s` ends in `suffix`.
pub open spec fn has_suffix(s: Seq<char>, suffix: Seq<char>) -> bool {
    suffix.len() <= s.len() && s.subrange(s.len() - suffix.len(), s.len() as int) == suffix
}

/// Whether `s` begins with `prefix`.
pub open spec fn has_prefix(s: Seq<char>, prefix: Seq<char>) -> bool {
    prefix.len() <= s.len() && s.subrange(0, prefix.len() as int) == prefix
}

/// Whether `s` ends in `suffix`.
pub fn ends_with(s: &str, suffix: &str) -> (r: bool)
    ensures
        r == has_suffix(s@, suffix@),
{
    let n: usize = s.unicode_len();
    let m: usize = suffix.unicode_len();
    m <= n && same(s.substring_char(n - m, n), suffix)
}

/// Whether `s` begins with `prefix`.
pub fn starts_with(s: &str, prefix: &str) -> (r: bool)
    ensures
        r == has_prefix(s@, prefix@),
{
    let n: usize = s.unicode_len();
    let m: usize = prefix.unicode_len();
    m <= n && same(s.substring_char(0, m), prefix)
}

/// `s` without `suffix`, where it ends in it.
pub open spec fn stripped_suffix(s: Seq<char>, suffix: Seq<char>) -> Option<Seq<char>> {
    if has_suffix(s, suffix) {
        Some(s.subrange(0, s.len() - suffix.len()))
    } else {
        None
    }
}

/// `s` without `suffix`, where it ends in it.
pub fn strip_suffix<'a>(s: &'a str, suffix: &str) -> (r: Option<&'a str>)
    ensures
        str_opt(r) == stripped_suffix(s@, suffix@),
{
    if ends_with(s, suffix) {
        let n: usize = s.unicode_len();
        let m: usize = suffix.unicode_len();
        Some(s.substring_char(0, n - m))
    } else {
        None
    }
}

/// `s` without `prefix`, where it begins with it.
pub open spec fn stripped_prefix(s: Seq<char>, prefix: Seq<char>) -> Option<Seq<char>> {
    if has_prefix(s, prefix) {
        Some(s.subrange(prefix.len() as int, s.len() as int))
    } else {
        None
    }
}

/// `s` without `prefix`, where it begins with it.
pub fn strip_prefix<'a>(s: &'a str, prefix: &str) -> (r: Option<&'a str>)
    ensures
        str_opt(r) == stripped_prefix(s@, prefix@),
{
    if starts_with(s, prefix) {
        let n: usize = s.unicode_len();
        let m: usize = prefix.unicode_len();
        Some(s.substring_char(m, n))
    } else {
        None
    }
}

/// Where a character stands last before the `i`th place, if it stands there.
pub open spec fn last_place(s: Seq<char>, c: char, i: nat) -> Option<nat>
    decreases i,
{
    if i == 0 || i > s.len() {
        None
    } else if s[i - 1] == c {
        Some((i - 1) as nat)
    } else {
        last_place(s, c, (i - 1) as nat)
    }
}

/// What stands before and after a character's last place in a text.
pub open spec fn split_last(s: Seq<char>, c: char) -> Option<(Seq<char>, Seq<char>)> {
    match last_place(s, c, s.len()) {
        Some(i) => Some((s.subrange(0, i as int), s.subrange((i + 1) as int, s.len() as int))),
        None => None,
    }
}

/// What stands before and after a character's last place in a text.
pub fn rsplit_once(s: &str, c: char) -> (r: Option<(String, String)>)
    ensures
        (match r {
            Some((before, after)) => Some((before@, after@)),
            None => None,
        }) == split_last(s@, c),
{
    let cs = chars_of(s);
    let mut i: usize = cs.len();
    while i > 0
        invariant
            i <= cs.len(),
            cs@ == s@,
            last_place(s@, c, s@.len()) == last_place(s@, c, i as nat),
        decreases i,
    {
        if cs[i - 1] == c {
            return Some((text_of(&cs, 0, i - 1), text_of(&cs, i, cs.len())));
        }
        i -= 1;
    }
    None
}

/// Where a separator stands first from the `i`th place on, or the end.
pub open spec fn separator_from(s: Seq<char>, sep: Seq<char>, i: nat) -> nat
    decreases s.len() - i,
{
    if i >= s.len() || i + sep.len() > s.len() {
        s.len()
    } else if s.subrange(i as int, (i + sep.len()) as int) == sep {
        i
    } else {
        separator_from(s, sep, i + 1)
    }
}

/// What stands between the separators from the `i`th place on.
pub open spec fn split_from(s: Seq<char>, sep: Seq<char>, i: nat) -> Seq<Seq<char>>
    decreases s.len() - i,
{
    let k = separator_from(s, sep, i);
    if sep.len() == 0 || k + sep.len() > s.len() || k < i {
        seq![s.subrange(i as int, s.len() as int)]
    } else {
        seq![s.subrange(i as int, k as int)] + split_from(s, sep, k + sep.len())
    }
}

/// What stands between the separators of a text.
pub open spec fn split_text(s: Seq<char>, sep: Seq<char>) -> Seq<Seq<char>> {
    split_from(s, sep, 0)
}

proof fn lemma_separator_range(s: Seq<char>, sep: Seq<char>, i: nat)
    requires
        i <= s.len(),
    ensures
        i <= separator_from(s, sep, i) <= s.len(),
    decreases s.len() - i,
{
    if i < s.len() && i + sep.len() <= s.len() && s.subrange(i as int, (i + sep.len()) as int)
        != sep {
        lemma_separator_range(s, sep, i + 1);
    }
}

fn stands_at(s: &Vec<char>, sep: &Vec<char>, i: usize) -> (r: bool)
    ensures
        r == (i + sep@.len() <= s@.len() && s@.subrange(i as int, (i + sep@.len()) as int) == sep@),
{
    if sep.len() > s.len() || i > s.len() - sep.len() {
        return false;
    }
    let n: usize = s.len();
    let mut k: usize = 0;
    while k < sep.len()
        invariant
            k <= sep.len(),
            i + sep@.len() <= n,
            n == s@.len(),
            forall|j: int| 0 <= j < k ==> s@[i + j] == sep@[j],
        decreases sep.len() - k,
    {
        if s[i + k] != sep[k] {
            assert(s@.subrange(i as int, (i + sep@.len()) as int)[k as int] != sep@[k as int]);
            return false;
        }
        k += 1;
    }
    assert(s@.subrange(i as int, (i + sep@.len()) as int) =~= sep@);
    true
}

/// What stands between the separators of a text.
pub fn split_on(s: &str, sep: &str) -> (r: Vec<String>)
    requires
        sep@.len() > 0,
    ensures
        texts(r@) == split_text(s@, sep@),
{
    let cs = chars_of(s);
    let by = chars_of(sep);
    let mut parts = no_texts();
    let mut from: usize = 0;
    let mut i: usize = 0;
    assert(texts(parts@) + split_from(s@, sep@, 0) =~= split_from(s@, sep@, 0));
    while i < cs.len()
        invariant
            from <= i <= cs@.len(),
            cs@ == s@,
            by@ == sep@,
            sep@.len() > 0,
            separator_from(s@, sep@, from as nat) == separator_from(s@, sep@, i as nat),
            split_text(s@, sep@) == texts(parts@) + split_from(s@, sep@, from as nat),
        decreases cs.len() - i,
    {
        if stands_at(&cs, &by, i) {
            let ghost before = texts(parts@);
            let ghost rest = split_from(s@, sep@, (i + by@.len()) as nat);
            let piece = text_of(&cs, from, i);
            let ghost found = piece@;
            push_text(&mut parts, piece);
            proof {
                assert(separator_from(s@, sep@, i as nat) == i);
                assert(split_from(s@, sep@, from as nat) == seq![found] + rest);
                assert(before + (seq![found] + rest) =~= before.push(found) + rest);
            }
            i = i + by.len();
            from = i;
        } else {
            proof {
                if i + sep@.len() > s@.len() {
                    lemma_separator_range(s@, sep@, (i + 1) as nat);
                }
            }
            i += 1;
        }
    }
    let piece = text_of(&cs, from, cs.len());
    let ghost before = texts(parts@);
    let ghost found = piece@;
    push_text(&mut parts, piece);
    proof {
        assert(split_from(s@, sep@, from as nat) == seq![found]);
        assert(before + seq![found] =~= before.push(found));
    }
    parts
}

/// The characters with the Unicode property White_Space.
pub open spec fn white_space(c: char) -> bool {
    ||| '\u{9}' <= c <= '\u{d}'
    ||| c == ' '
    ||| c == '\u{85}'
    ||| c == '\u{a0}'
    ||| c == '\u{1680}'
    ||| '\u{2000}' <= c <= '\u{200a}'
    ||| c == '\u{2028}'
    ||| c == '\u{2029}'
    ||| c == '\u{202f}'
    ||| c == '\u{205f}'
    ||| c == '\u{3000}'
}

/// `char::is_whitespace` of std: whether the character has the Unicode
/// property White_Space.
pub assume_specification[ char::is_whitespace ](c: char) -> (r: bool)
    ensures
        r == white_space(c),
;

/// The first place from the `i`th on whose character is white space or not,
/// as asked, or the end.
pub open spec fn place_where(s: Seq<char>, white: bool, i: nat) -> nat
    decreases s.len() - i,
{
    if i >= s.len() {
        s.len()
    } else if white_space(s[i as int]) == white {
        i
    } else {
        place_where(s, white, i + 1)
    }
}

/// The first word of a text, where it has one.
pub open spec fn first_word(s: Seq<char>) -> Option<Seq<char>> {
    let from = place_where(s, false, 0);
    if from >= s.len() {
        None
    } else {
        Some(s.subrange(from as int, place_where(s, true, from) as int))
    }
}

fn seek(cs: &Vec<char>, white: bool, from: usize) -> (r: usize)
    requires
        from <= cs@.len(),
    ensures
        r == place_where(cs@, white, from as nat),
        from <= r <= cs@.len(),
{
    let mut i: usize = from;
    while i < cs.len()
        invariant
            from <= i <= cs@.len(),
            place_where(cs@, white, from as nat) == place_where(cs@, white, i as nat),
        decreases cs.len() - i,
    {
        if cs[i].is_whitespace() == white {
            return i;
        }
        i += 1;
    }
    i
}

/// The first word of a text, where it has one.
pub fn leading_word(s: &str) -> (r: Option<String>)
    ensures
        text_opt(r) == first_word(s@),
{
    let cs = chars_of(s);
    let from: usize = seek(&cs, false, 0);
    if from >= cs.len() {
        None
    } else {
        let to: usize = seek(&cs, true, from);
        Some(text_of(&cs, from, to))
    }
}

// ---------------------------------------------------------------------------
// Numerals
// ---------------------------------------------------------------------------

/// The character of one decimal digit.
pub open spec fn digit(d: nat) -> char {
    if d == 0 {
        '0'
    } else if d == 1 {
        '1'
    } else if d == 2 {
        '2'
    } else if d == 3 {
        '3'
    } else if d == 4 {
        '4'
    } else if d == 5 {
        '5'
    } else if d == 6 {
        '6'
    } else if d == 7 {
        '7'
    } else if d == 8 {
        '8'
    } else {
        '9'
    }
}

/// A natural number written in decimal, without leading zeros.
pub open spec fn decimal(n: nat) -> Seq<char>
    decreases n,
{
    if n < 10 {
        seq![digit(n)]
    } else {
        decimal(n / 10).push(digit(n % 10))
    }
}

/// An integer written in decimal.
pub open spec fn decimal_int(n: int) -> Seq<char> {
    if n < 0 {
        "-"@ + decimal((-n) as nat)
    } else {
        decimal(n as nat)
    }
}

fn digit_char(d: u128) -> (r: char)
    requires
        d < 10,
    ensures
        r == digit(d as nat),
{
    if d == 0 {
        '0'
    } else if d == 1 {
        '1'
    } else if d == 2 {
        '2'
    } else if d == 3 {
        '3'
    } else if d == 4 {
        '4'
    } else if d == 5 {
        '5'
    } else if d == 6 {
        '6'
    } else if d == 7 {
        '7'
    } else if d == 8 {
        '8'
    } else {
        '9'
    }
}

/// A natural number written in decimal.
pub fn decimal_text(n: u128) -> (r: String)
    ensures
        r@ == decimal(n as nat),
    decreases n,
{
    if n < 10 {
        let mut r = String::new();
        r.push(digit_char(n));
        assert(r@ =~= seq![digit(n as nat)]);
        r
    } else {
        let mut r = decimal_text(n / 10);
        r.push(digit_char(n % 10));
        r
    }
}

/// An integer written in decimal.
pub fn decimal_int_text(n: i64) -> (r: String)
    ensures
        r@ == decimal_int(n as int),
{
    if n < 0 {
        let magnitude: u128 = (-(n as i128)) as u128;
        cat2("-", &decimal_text(magnitude))
    } else {
        decimal_text(n as u128)
    }
}

// ---------------------------------------------------------------------------
// Reading numerals
// ---------------------------------------------------------------------------

/// The value of a decimal digit, where a character is one.
pub open spec fn digit_value(c: char) -> Option<nat> {
    if '0' <= c && c <= '9' {
        Some((c as u32 - '0' as u32) as nat)
    } else {
        None
    }
}

/// The natural number that digits spell; none for no digits or for anything
/// else among them.
pub open spec fn digits_value(s: Seq<char>) -> Option<nat>
    decreases s.len(),
{
    if s.len() == 0 {
        None
    } else {
        match digit_value(s.last()) {
            None => None,
            Some(d) => if s.len() == 1 {
                Some(d)
            } else {
                match digits_value(s.drop_last()) {
                    Some(n) => Some(10 * n + d),
                    None => None,
                }
            },
        }
    }
}

/// The natural number that a text spells, perhaps after a plus.
pub open spec fn natural_of(s: Seq<char>) -> Option<nat> {
    if s.len() > 0 && s[0] == '+' {
        digits_value(s.drop_first())
    } else {
        digits_value(s)
    }
}

/// The integer that a text spells, perhaps after a sign.
pub open spec fn integer_of(s: Seq<char>) -> Option<int> {
    if s.len() > 0 && s[0] == '-' {
        match digits_value(s.drop_first()) {
            Some(n) => Some(-(n as int)),
            None => None,
        }
    } else {
        match natural_of(s) {
            Some(n) => Some(n as int),
            None => None,
        }
    }
}

proof fn lemma_digits_prefix(s: Seq<char>, i: int)
    requires
        1 <= i <= s.len(),
        digits_value(s) is Some,
    ensures
        digits_value(s.take(i)) is Some,
        digits_value(s.take(i))->0 <= digits_value(s)->0,
    decreases s.len(),
{
    if i == s.len() {
        assert(s.take(i) =~= s);
    } else {
        lemma_digits_prefix(s.drop_last(), i);
        assert(s.drop_last().take(i) =~= s.take(i));
    }
}

/// The natural number that the characters from a place on spell, where it is
/// at most a bound.
fn read_digits(cs: &Vec<char>, from: usize, most: u128) -> (r: Option<u128>)
    requires
        from <= cs@.len(),
        most <= u64::MAX,
    ensures
        match r {
            Some(n) => digits_value(cs@.subrange(from as int, cs@.len() as int)) == Some(n as nat)
                && n <= most,
            None => match digits_value(cs@.subrange(from as int, cs@.len() as int)) {
                Some(n) => n > most,
                None => true,
            },
        },
{
    let ghost s = cs@.subrange(from as int, cs@.len() as int);
    if from >= cs.len() {
        return None;
    }
    let mut n: u128 = 0;
    let mut i: usize = from;
    while i < cs.len()
        invariant
            from <= i <= cs@.len(),
            from < cs@.len(),
            most <= u64::MAX,
            s == cs@.subrange(from as int, cs@.len() as int),
            i == from ==> n == 0,
            i > from ==> digits_value(s.take(i - from)) == Some(n as nat),
            n <= most,
        decreases cs.len() - i,
    {
        let c: char = cs[i];
        let ghost k = i - from;
        proof {
            assert(s.take(k + 1).last() == c);
            assert(s.take(k + 1).drop_last() =~= s.take(k));
        }
        if c < '0' || c > '9' {
            proof {
                if digits_value(s) is Some {
                    lemma_digits_prefix(s, k + 1);
                }
            }
            return None;
        }
        let d: u128 = (c as u32 - '0' as u32) as u128;
        n = 10 * n + d;
        i += 1;
        proof {
            assert(digits_value(s.take(k + 1)) == Some(n as nat));
        }
        if n > most {
            proof {
                if digits_value(s) is Some {
                    lemma_digits_prefix(s, k + 1);
                }
            }
            return None;
        }
    }
    assert(s.take(i - from) =~= s);
    Some(n)
}

/// The integer of sixty-four bits that a text spells, where it spells one.
pub fn parse_i64(s: &str) -> (r: Option<i64>)
    ensures
        match r {
            Some(n) => integer_of(s@) == Some(n as int),
            None => match integer_of(s@) {
                Some(n) => !(i64::MIN <= n <= i64::MAX),
                None => true,
            },
        },
{
    let cs = chars_of(s);
    if cs.len() > 0 && cs[0] == '-' {
        assert(s@.drop_first() =~= cs@.subrange(1, cs@.len() as int));
        return match read_digits(&cs, 1, 9223372036854775808u128) {
            Some(n) => Some((-(n as i128)) as i64),
            None => None,
        };
    }
    let from: usize = if cs.len() > 0 && cs[0] == '+' {
        assert(s@.drop_first() =~= cs@.subrange(1, cs@.len() as int));
        1
    } else {
        assert(s@ =~= cs@.subrange(0, cs@.len() as int));
        0
    };
    match read_digits(&cs, from, i64::MAX as u128) {
        Some(n) => Some(n as i64),
        None => None,
    }
}

/// The unsigned integer of sixty-four bits that a text spells, where it spells
/// one.
pub fn parse_u64(s: &str) -> (r: Option<u64>)
    ensures
        match r {
            Some(n) => integer_of(s@) == Some(n as int) && natural_of(s@) == Some(n as nat),
            None => match natural_of(s@) {
                Some(n) => n > u64::MAX,
                None => true,
            },
        },
{
    let cs = chars_of(s);
    let from: usize = if cs.len() > 0 && cs[0] == '+' {
        assert(s@.drop_first() =~= cs@.subrange(1, cs@.len() as int));
        1
    } else {
        assert(s@ =~= cs@.subrange(0, cs@.len() as int));
        0
    };
    proof {
        if s@.len() > 0 && s@[0] == '-' && natural_of(s@) is Some {
            lemma_digits_prefix(s@, 1);
            assert(s@.take(1).last() == '-');
        }
    }
    match read_digits(&cs, from, u64::MAX as u128) {
        Some(n) => Some(n as u64),
        None => None,
    }
}

/// The index that a text spells, where it spells one.
pub fn parse_usize(s: &str) -> (r: Option<usize>)
    ensures
        match r {
            Some(n) => natural_of(s@) == Some(n as nat),
            None => match natural_of(s@) {
                Some(n) => n > usize::MAX,
                None => true,
            },
        },
{
    let cs = chars_of(s);
    let from: usize = if cs.len() > 0 && cs[0] == '+' {
        assert(s@.drop_first() =~= cs@.subrange(1, cs@.len() as int));
        1
    } else {
        assert(s@ =~= cs@.subrange(0, cs@.len() as int));
        0
    };
    match read_digits(&cs, from, usize::MAX as u128) {
        Some(n) => Some(n as usize),
        None => None,
    }
}

// ---------------------------------------------------------------------------
// Case and white space
// ---------------------------------------------------------------------------

/// A character in lower case, where it is an ASCII letter.
pub open spec fn lower_char(c: char) -> char {
    if 'A' <= c && c <= 'Z' {
        ((c as u8) + 32) as u8 as char
    } else {
        c
    }
}

/// A text with its ASCII letters in lower case.
pub open spec fn lowered(s: Seq<char>) -> Seq<char> {
    s.map_values(|c: char| lower_char(c))
}

/// A text with its ASCII letters in lower case.
pub fn ascii_lowercase(s: &str) -> (r: String)
    ensures
        r@ == lowered(s@),
{
    let cs = chars_of(s);
    let mut r = String::new();
    let mut i: usize = 0;
    while i < cs.len()
        invariant
            i <= cs@.len(),
            cs@ == s@,
            r@ =~= lowered(s@).take(i as int),
        decreases cs.len() - i,
    {
        let c: char = cs[i];
        if 'A' <= c && c <= 'Z' {
            r.push((c as u8 + 32) as char);
        } else {
            r.push(c);
        }
        i += 1;
    }
    assert(r@ =~= lowered(s@));
    r
}

/// The last place before which a text is not white space, from the `i`th
/// back.
pub open spec fn last_ink(s: Seq<char>, i: nat) -> nat
    decreases i,
{
    if i == 0 || i > s.len() {
        0
    } else if white_space(s[i - 1]) {
        last_ink(s, (i - 1) as nat)
    } else {
        i
    }
}

/// A text without white space at either end.
pub open spec fn trimmed(s: Seq<char>) -> Seq<char> {
    let from = place_where(s, false, 0);
    let to = last_ink(s, s.len());
    if from >= to {
        Seq::empty()
    } else {
        s.subrange(from as int, to as int)
    }
}

/// A text without white space at either end.
pub fn trim(s: &str) -> (r: String)
    ensures
        r@ == trimmed(s@),
{
    let cs = chars_of(s);
    let from: usize = seek(&cs, false, 0);
    let mut to: usize = cs.len();
    while to > 0 && cs[to - 1].is_whitespace()
        invariant
            to <= cs@.len(),
            cs@ == s@,
            last_ink(s@, s@.len()) == last_ink(s@, to as nat),
        decreases to,
    {
        to -= 1;
    }
    if from >= to {
        String::new()
    } else {
        text_of(&cs, from, to)
    }
}

// ---------------------------------------------------------------------------
// Joining
// ---------------------------------------------------------------------------

/// The texts of a list, with `sep` between each two.
pub open spec fn joined(parts: Seq<Seq<char>>, sep: Seq<char>) -> Seq<char>
    decreases parts.len(),
{
    if parts.len() == 0 {
        Seq::<char>::empty()
    } else if parts.len() == 1 {
        parts[0]
    } else {
        joined(parts.drop_last(), sep) + sep + parts.last()
    }
}

/// The texts of a list, with `sep` between each two.
pub fn join(parts: &Vec<String>, sep: &str) -> (r: String)
    ensures
        r@ == joined(texts(parts@), sep@),
{
    if parts.len() == 0 {
        return String::new();
    }
    let ghost all = texts(parts@);
    let mut r = parts[0].clone();
    let mut i: usize = 1;
    assert(all.take(1)[0] == r@);
    while i < parts.len()
        invariant
            1 <= i <= parts@.len(),
            all == texts(parts@),
            r@ == joined(all.take(i as int), sep@),
        decreases parts.len() - i,
    {
        assert(all.take(i + 1).drop_last() =~= all.take(i as int));
        assert(all.take(i + 1).last() == parts[i as int]@);
        r.append(sep);
        r.append(&parts[i]);
        i += 1;
    }
    assert(all.take(parts@.len() as int) =~= all);
    r
}

// ---------------------------------------------------------------------------
// Identifiers
// ---------------------------------------------------------------------------

/// A name as PostgreSQL reads it quoted: between double quotes, each double
/// quote inside it doubled.
pub open spec fn ident(name: Seq<char>) -> Seq<char> {
    "\""@ + replaced(name, '"', "\"\""@) + "\""@
}

/// A name as PostgreSQL reads it quoted.
pub fn escape_ident(name: &str) -> (r: String)
    ensures
        r@ == ident(name@),
{
    cat3("\"", &replace_char(name, '"', "\"\""), "\"")
}

/// A table or function with its schema, both quoted.
pub open spec fn ident2(schema: Seq<char>, name: Seq<char>) -> Seq<char> {
    ident(schema) + "."@ + ident(name)
}

/// A table or function with its schema, both quoted.
pub fn escape_ident2(schema: &str, name: &str) -> (r: String)
    ensures
        r@ == ident2(schema@, name@),
{
    cat3(&escape_ident(schema), ".", &escape_ident(name))
}

// ---------------------------------------------------------------------------
// Concatenation
// ---------------------------------------------------------------------------

/// Two texts, one after the other.
pub fn cat2(
    a: &str,
    b: &str,
) -> (r: String)
    ensures
        r@ == a@ + b@,
{
    let mut r = String::from_str(a);
    r.append(b);
    r
}

/// Three texts, one after the other.
pub fn cat3(
    a: &str,
    b: &str,
    c: &str,
) -> (r: String)
    ensures
        r@ == a@ + b@ + c@,
{
    let mut r = String::from_str(a);
    r.append(b);
    r.append(c);
    r
}

/// Four texts, one after the other.
pub fn cat4(
    a: &str,
    b: &str,
    c: &str,
    d: &str,
) -> (r: String)
    ensures
        r@ == a@ + b@ + c@ + d@,
{
    let mut r = String::from_str(a);
    r.append(b);
    r.append(c);
    r.append(d);
    r
}

/// Five texts, one after the other.
pub fn cat5(
    a: &str,
    b: &str,
    c: &str,
    d: &str,
    e: &str,
) -> (r: String)
    ensures
        r@ == a@ + b@ + c@ + d@ + e@,
{
    let mut r = String::from_str(a);
    r.append(b);
    r.append(c);
    r.append(d);
    r.append(e);
    r
}

/// Six texts, one after the other.
pub fn cat6(
    a: &str,
    b: &str,
    c: &str,
    d: &str,
    e: &str,
    f: &str,
) -> (r: String)
    ensures
        r@ == a@ + b@ + c@ + d@ + e@ + f@,
{
    let mut r = String::from_str(a);
    r.append(b);
    r.append(c);
    r.append(d);
    r.append(e);
    r.append(f);
    r
}

/// Seven texts, one after the other.
pub fn cat7(
    a: &str,
    b: &str,
    c: &str,
    d: &str,
    e: &str,
    f: &str,
    g: &str,
) -> (r: String)
    ensures
        r@ == a@ + b@ + c@ + d@ + e@ + f@ + g@,
{
    let mut r = String::from_str(a);
    r.append(b);
    r.append(c);
    r.append(d);
    r.append(e);
    r.append(f);
    r.append(g);
    r
}

/// Eight texts, one after the other.
pub fn cat8(
    a: &str,
    b: &str,
    c: &str,
    d: &str,
    e: &str,
    f: &str,
    g: &str,
    h: &str,
) -> (r: String)
    ensures
        r@ == a@ + b@ + c@ + d@ + e@ + f@ + g@ + h@,
{
    let mut r = String::from_str(a);
    r.append(b);
    r.append(c);
    r.append(d);
    r.append(e);
    r.append(f);
    r.append(g);
    r.append(h);
    r
}

/// Nine texts, one after the other.
pub fn cat9(
    a: &str,
    b: &str,
    c: &str,
    d: &str,
    e: &str,
    f: &str,
    g: &str,
    h: &str,
    i: &str,
) -> (r: String)
    ensures
        r@ == a@ + b@ + c@ + d@ + e@ + f@ + g@ + h@ + i@,
{
    let mut r = String::from_str(a);
    r.append(b);
    r.append(c);
    r.append(d);
    r.append(e);
    r.append(f);
    r.append(g);
    r.append(h);
    r.append(i);
    r
}

/// Ten texts, one after the other.
pub fn cat10(
    a: &str,
    b: &str,
    c: &str,
    d: &str,
    e: &str,
    f: &str,
    g: &str,
    h: &str,
    i: &str,
    j: &str,
) -> (r: String)
    ensures
        r@ == a@ + b@ + c@ + d@ + e@ + f@ + g@ + h@ + i@ + j@,
{
    let mut r = String::from_str(a);
    r.append(b);
    r.append(c);
    r.append(d);
    r.append(e);
    r.append(f);
    r.append(g);
    r.append(h);
    r.append(i);
    r.append(j);
    r
}

/// Eleven texts, one after the other.
pub fn cat11(
    a: &str,
    b: &str,
    c: &str,
    d: &str,
    e: &str,
    f: &str,
    g: &str,
    h: &str,
    i: &str,
    j: &str,
    k: &str,
) -> (r: String)
    ensures
        r@ == a@ + b@ + c@ + d@ + e@ + f@ + g@ + h@ + i@ + j@ + k@,
{
    let mut r = String::from_str(a);
    r.append(b);
    r.append(c);
    r.append(d);
    r.append(e);
    r.append(f);
    r.append(g);
    r.append(h);
    r.append(i);
    r.append(j);
    r.append(k);
    r
}

} // verus!
