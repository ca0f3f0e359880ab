//! Text as sequences of characters: substring matching, splicing and line
//! counting, the primitives on which edit validation rests.

use vstd::prelude::*;

verus! {

/// `String::push` appends the given character to the end of the string.
pub assume_specification[ String::push ](s: &mut String, c: char)
    ensures
        final(s)@ == old(s)@.push(c),
;

/// `pat` stands in `text` at offset `i`.
pub open spec fn occurs_at(text: Seq<char>, pat: Seq<char>, i: int) -> bool {
    0 <= i && i + pat.len() <= text.len() && text.subrange(i, i + pat.len()) == pat
}

/// `pat` is a substring of `text`.
pub open spec fn contains(text: Seq<char>, pat: Seq<char>) -> bool {
    exists|i: int| occurs_at(text, pat, i)
}

/// `i` is the leftmost offset at or after `from` where `pat` stands in `text`.
pub open spec fn is_first_match_from(text: Seq<char>, pat: Seq<char>, from: int, i: int) -> bool {
    from <= i && occurs_at(text, pat, i) && forall|j: int| from <= j < i ==> !occurs_at(text, pat, j)
}

/// The leftmost offset where `pat` stands in `text` (arbitrary when it is absent).
pub open spec fn first_match(text: Seq<char>, pat: Seq<char>) -> int {
    choose|i: int| is_first_match_from(text, pat, 0, i)
}

/// Number of offsets below `n` at which `pat` stands in `text`.
pub open spec fn occurrences_below(text: Seq<char>, pat: Seq<char>, n: int) -> nat
    decreases n,
{
    if n <= 0 {
        0
    } else {
        occurrences_below(text, pat, n - 1) + if occurs_at(text, pat, n - 1) {
            1nat
        } else {
            0nat
        }
    }
}

/// Number of occurrences of `pat` in `text`: the number of offsets at which
/// it stands. Occurrences that overlap are counted each.
pub open spec fn occurrence_count(text: Seq<char>, pat: Seq<char>) -> nat {
    occurrences_below(text, pat, text.len() as int + 1)
}

/// `text` with the `len` characters at offset `at` replaced by `rep`.
pub open spec fn splice(text: Seq<char>, at: int, len: int, rep: Seq<char>) -> Seq<char> {
    text.subrange(0, at) + rep + text.subrange(at + len, text.len() as int)
}

/// `text` with its leftmost occurrence of `pat` replaced by `rep`.
pub open spec fn replace_first(text: Seq<char>, pat: Seq<char>, rep: Seq<char>) -> Seq<char> {
    splice(text, first_match(text, pat), pat.len() as int, rep)
}

/// Number of line feeds in `s`.
pub open spec fn newline_count(s: Seq<char>) -> nat
    decreases s.len(),
{
    if s.len() == 0 {
        0
    } else {
        newline_count(s.drop_last()) + if s.last() == '\n' {
            1nat
        } else {
            0nat
        }
    }
}

/// Number of lines of `s`: each line feed ends a line, and characters behind
/// the last line feed form one more.
pub open spec fn line_count(s: Seq<char>) -> nat {
    newline_count(s) + if s.len() > 0 && s.last() != '\n' {
        1nat
    } else {
        0nat
    }
}

/// There are no more occurrences below `n` than offsets, and none exactly
/// where the pattern stands at no offset below `n`.
pub proof fn lemma_occurrences_below(text: Seq<char>, pat: Seq<char>, n: int)
    requires
        0 <= n,
    ensures
        occurrences_below(text, pat, n) <= n,
        occurrences_below(text, pat, n) == 0 <==> forall|i: int|
            0 <= i < n ==> !occurs_at(text, pat, i),
    decreases n,
{
    if n > 0 {
        lemma_occurrences_below(text, pat, n - 1);
        if occurrences_below(text, pat, n) == 0 {
            assert forall|i: int| 0 <= i < n implies !occurs_at(text, pat, i) by {
                if i < n - 1 {
                }
            }
        }
    }
}

/// The pattern is absent from the text exactly when it has no occurrence.
pub proof fn lemma_absent_iff_no_match(text: Seq<char>, pat: Seq<char>)
    ensures
        occurrence_count(text, pat) == 0 <==> !contains(text, pat),
{
    lemma_occurrences_below(text, pat, text.len() as int + 1);
}

/// Two offsets at which the pattern stands make two occurrences.
pub proof fn lemma_two_occurrences(text: Seq<char>, pat: Seq<char>, i: int, j: int, n: int)
    requires
        0 <= i < j < n,
        occurs_at(text, pat, i),
        occurs_at(text, pat, j),
    ensures
        occurrences_below(text, pat, n) >= 2,
    decreases n,
{
    if j < n - 1 {
        lemma_two_occurrences(text, pat, i, j, n - 1);
    } else {
        lemma_occurrences_below(text, pat, n - 1);
    }
}

/// An edit of a text that occurs once is unambiguous: the text stands at
/// one offset and at no other.
pub proof fn lemma_single_occurrence(text: Seq<char>, pat: Seq<char>, i: int, j: int)
    requires
        occurrence_count(text, pat) == 1,
        occurs_at(text, pat, i),
        occurs_at(text, pat, j),
    ensures
        i == j,
{
    if i < j {
        lemma_two_occurrences(text, pat, i, j, text.len() as int + 1);
    } else if j < i {
        lemma_two_occurrences(text, pat, j, i, text.len() as int + 1);
    }
}

/// The characters of `s`, in order.
pub fn to_chars(s: &str) -> (r: Vec<char>)
    ensures
        r@ == s@,
{
    let mut out: Vec<char> = Vec::new();
    for c in iter: s.chars()
        invariant
            iter.seq() == s@,
            out@ == s@.take(iter.index()),
    {
        out.push(c);
        assert(out@ =~= s@.take(iter.index() + 1));
    }
    assert(s@.take(s@.len() as int) =~= s@);
    out
}

/// The string made of the characters `v[from..to]`.
pub fn string_of(v: &Vec<char>, from: usize, to: usize) -> (r: String)
    requires
        from <= to <= v.len(),
    ensures
        r@ == v@.subrange(from as int, to as int),
{
    let mut out = String::new();
    let mut i: usize = from;
    while i < to
        invariant
            from <= i <= to <= v.len(),
            out@ == v@.subrange(from as int, i as int),
        decreases to - i,
    {
        out.push(v[i]);
        i += 1;
        assert(out@ =~= v@.subrange(from as int, i as int));
    }
    out
}

/// Appends the characters `src[from..to]` to `dst`.
pub fn append_range(dst: &mut Vec<char>, src: &Vec<char>, from: usize, to: usize)
    requires
        from <= to <= src.len(),
    ensures
        final(dst)@ == old(dst)@ + src@.subrange(from as int, to as int),
{
    let mut i: usize = from;
    while i < to
        invariant
            from <= i <= to <= src.len(),
            dst@ == old(dst)@ + src@.subrange(from as int, i as int),
        decreases to - i,
    {
        dst.push(src[i]);
        i += 1;
        assert(dst@ =~= old(dst)@ + src@.subrange(from as int, i as int));
    }
}

/// Whether two strings hold the same characters.
pub fn str_eq(a: &str, b: &str) -> (r: bool)
    ensures
        r == (a@ == b@),
{
    let x = to_chars(a);
    let y = to_chars(b);
    if x.len() != y.len() {
        return false;
    }
    let r = matches_at(&x, &y, 0);
    proof {
        assert(x@.subrange(0, x@.len() as int) =~= x@);
    }
    r
}

/// Whether `pat` stands in `text` at offset `i`.
pub fn matches_at(text: &Vec<char>, pat: &Vec<char>, i: usize) -> (r: bool)
    ensures
        r == occurs_at(text@, pat@, i as int),
{
    if i > text.len() || pat.len() > text.len() - i {
        return false;
    }
    let mut k: usize = 0;
    while k < pat.len()
        invariant
            i + pat.len() <= text.len(),
            k <= pat.len(),
            forall|j: int| 0 <= j < k ==> text@[i + j] == pat@[j],
        decreases pat.len() - k,
    {
        if text[i + k] != pat[k] {
            assert(text@.subrange(i as int, i + pat.len())[k as int] == text@[i + k]);
            return false;
        }
        k += 1;
    }
    assert(text@.subrange(i as int, i + pat.len()) =~= pat@);
    true
}

/// Leftmost offset at or after `from` where `pat` stands in `text`.
pub fn find_from(text: &Vec<char>, pat: &Vec<char>, from: usize) -> (r: Option<usize>)
    ensures
        match r {
            Some(i) => is_first_match_from(text@, pat@, from as int, i as int),
            None => forall|j: int| from <= j ==> !occurs_at(text@, pat@, j),
        },
{
    if from > text.len() {
        return None;
    }
    let mut i: usize = from;
    while i <= text.len()
        invariant
            from <= i <= text.len() + 1,
            forall|j: int| from <= j < i ==> !occurs_at(text@, pat@, j),
        decreases text.len() + 1 - i,
    {
        if matches_at(text, pat, i) {
            return Some(i);
        }
        if i == text.len() {
            return None;
        }
        i += 1;
    }
    None
}

/// `n` as a machine integer, or the largest one where `n` exceeds it.
pub open spec fn capped(n: nat) -> usize {
    if n > usize::MAX {
        usize::MAX
    } else {
        n as usize
    }
}

/// Number of occurrences of `pat` in `text`, capped at the largest machine
/// integer.
pub fn count_matches(text: &Vec<char>, pat: &Vec<char>) -> (r: usize)
    ensures
        r == capped(occurrence_count(text@, pat@)),
{
    let mut n: usize = 0;
    let mut i: usize = 0;
    while i < text.len()
        invariant
            i <= text.len(),
            n == occurrences_below(text@, pat@, i as int),
            n <= i,
        decreases text.len() - i,
    {
        if matches_at(text, pat, i) {
            n += 1;
        }
        i += 1;
    }
    if matches_at(text, pat, i) {
        if n < usize::MAX {
            n += 1;
        }
    }
    n
}

/// Number of lines of `s`.
pub fn count_lines(s: &Vec<char>) -> (r: usize)
    ensures
        r == line_count(s@),
{
    let mut n: usize = 0;
    let mut i: usize = 0;
    while i < s.len()
        invariant
            i <= s.len(),
            n <= i,
            n == newline_count(s@.subrange(0, i as int)),
        decreases s.len() - i,
    {
        assert(s@.subrange(0, i + 1).drop_last() =~= s@.subrange(0, i as int));
        if s[i] == '\n' {
            n += 1;
        }
        i += 1;
    }
    assert(s@.subrange(0, s.len() as int) =~= s@);
    if s.len() > 0 && s[s.len() - 1] != '\n' {
        proof {
            assert(s@.len() > 0 && s@.last() != '\n');
            lemma_newline_count_below_len(s@);
        }
        n + 1
    } else {
        n
    }
}

/// Fewer line feeds than characters where the last character is none.
proof fn lemma_newline_count_below_len(s: Seq<char>)
    ensures
        newline_count(s) <= s.len(),
        s.len() > 0 && s.last() != '\n' ==> newline_count(s) < s.len(),
    decreases s.len(),
{
    if s.len() > 0 {
        lemma_newline_count_below_len(s.drop_last());
    }
}

/// Whether `c` has the Unicode property White_Space.
pub uninterp spec fn is_white_space(c: char) -> bool;

/// `char::is_whitespace` tells whether the character has the Unicode
/// property White_Space.
pub assume_specification[ char::is_whitespace ](c: char) -> (r: bool)
    ensures
        r == is_white_space(c),
;

/// Number of white-space characters at the front of `s`.
pub open spec fn leading_space(s: Seq<char>) -> nat
    decreases s.len(),
{
    if s.len() > 0 && is_white_space(s[0]) {
        1 + leading_space(s.drop_first())
    } else {
        0
    }
}

/// Number of white-space characters at the end of `s`.
pub open spec fn trailing_space(s: Seq<char>) -> nat
    decreases s.len(),
{
    if s.len() > 0 && is_white_space(s.last()) {
        1 + trailing_space(s.drop_last())
    } else {
        0
    }
}

/// `s` without the white space at its front and at its end.
pub open spec fn trimmed(s: Seq<char>) -> Seq<char> {
    let front = leading_space(s);
    if front == s.len() {
        Seq::empty()
    } else {
        s.subrange(front as int, s.len() - trailing_space(s))
    }
}

/// The lower-case form of an ASCII capital; any other character itself.
pub open spec fn ascii_lower(c: char) -> char {
    if 'A' <= c && c <= 'Z' {
        ((c as u8 + 32) as u8) as char
    } else {
        c
    }
}

/// `s` with its ASCII capitals in lower case.
pub open spec fn ascii_lowercase(s: Seq<char>) -> Seq<char> {
    s.map_values(|c: char| ascii_lower(c))
}

/// The lower-case form of an ASCII capital; any other character itself.
pub fn to_ascii_lower(c: char) -> (r: char)
    ensures
        r == ascii_lower(c),
{
    if 'A' <= c && c <= 'Z' {
        ((c as u8) + 32) as char
    } else {
        c
    }
}

/// White space that fills the first `n` places, and no further, is the
/// leading white space.
pub proof fn lemma_leading_space(s: Seq<char>, n: int)
    requires
        0 <= n <= s.len(),
        forall|j: int| 0 <= j < n ==> is_white_space(s[j]),
        n == s.len() || !is_white_space(s[n]),
    ensures
        leading_space(s) == n,
    decreases n,
{
    if n > 0 {
        lemma_leading_space(s.drop_first(), n - 1);
    }
}

/// White space that fills the last `n` places, and no more, is the trailing
/// white space.
pub proof fn lemma_trailing_space(s: Seq<char>, n: int)
    requires
        0 <= n <= s.len(),
        forall|j: int| s.len() - n <= j < s.len() ==> is_white_space(s[j]),
        n == s.len() || !is_white_space(s[s.len() - n - 1]),
    ensures
        trailing_space(s) == n,
    decreases n,
{
    if n > 0 {
        lemma_trailing_space(s.drop_last(), n - 1);
    }
}

/// Bounds of `v[from..to]` without its leading and trailing white space.
pub fn trim_range(v: &Vec<char>, from: usize, to: usize) -> (r: (usize, usize))
    requires
        from <= to <= v.len(),
    ensures
        from <= r.0 <= r.1 <= to,
        v@.subrange(r.0 as int, r.1 as int) == trimmed(v@.subrange(from as int, to as int)),
{
    let ghost seg = v@.subrange(from as int, to as int);
    let mut a: usize = from;
    while a < to && v[a].is_whitespace()
        invariant
            from <= a <= to <= v.len(),
            forall|j: int| from <= j < a ==> is_white_space(v@[j]),
        decreases to - a,
    {
        a += 1;
    }
    let mut b: usize = to;
    while b > a && v[b - 1].is_whitespace()
        invariant
            a <= b <= to <= v.len(),
            forall|j: int| b <= j < to ==> is_white_space(v@[j]),
        decreases b,
    {
        b -= 1;
    }
    proof {
        assert forall|j: int| 0 <= j < a - from implies is_white_space(seg[j]) by {
            assert(seg[j] == v@[from + j]);
        }
        lemma_leading_space(seg, a - from);
        if a < to {
            assert forall|j: int| seg.len() - (to - b) <= j < seg.len() implies is_white_space(
                seg[j],
            ) by {
                assert(seg[j] == v@[from + j]);
            }
            assert(b > a);
            assert(seg[seg.len() - (to - b) - 1] == v@[b - 1]);
            lemma_trailing_space(seg, to - b);
            assert(v@.subrange(a as int, b as int) =~= seg.subrange(a - from, seg.len() - (to - b)));
        } else {
            assert(v@.subrange(a as int, b as int) =~= Seq::<char>::empty());
        }
    }
    (a, b)
}

/// Whether `c` is one of the ten ASCII digits.
pub open spec fn is_digit(c: char) -> bool {
    '0' <= c && c <= '9'
}

/// The number that a sequence of ASCII digits writes in base ten.
pub open spec fn digits_value(s: Seq<char>) -> nat
    decreases s.len(),
{
    if s.len() == 0 {
        0
    } else {
        digits_value(s.drop_last()) * 10 + (s.last() as u8 - 48) as nat
    }
}

/// The 32-bit signed integer that `s` writes in base ten: an optional sign,
/// then one or more ASCII digits, with a value in range.
pub open spec fn parse_i32(s: Seq<char>) -> Option<i32> {
    let negative = s.len() > 0 && s[0] == '-';
    let signed = s.len() > 0 && (s[0] == '-' || s[0] == '+');
    let body = if signed {
        s.drop_first()
    } else {
        s
    };
    parse_digits(negative, body)
}

/// The 32-bit signed integer of the given sign whose magnitude `body`
/// writes in ASCII digits.
pub open spec fn parse_digits(negative: bool, body: Seq<char>) -> Option<i32> {
    let value = digits_value(body);
    if body.len() == 0 || !(forall|i: int| 0 <= i < body.len() ==> is_digit(#[trigger] body[i])) {
        None
    } else if negative {
        if value <= 2147483648 {
            Some((0 - value) as i32)
        } else {
            None
        }
    } else {
        if value <= 2147483647 {
            Some(value as i32)
        } else {
            None
        }
    }
}

/// A longer digit string writes no smaller number than its prefixes.
pub proof fn lemma_digits_value_grows(s: Seq<char>, n: int)
    requires
        0 <= n <= s.len(),
        forall|i: int| 0 <= i < s.len() ==> is_digit(#[trigger] s[i]),
    ensures
        digits_value(s.take(n)) <= digits_value(s),
    decreases s.len() - n,
{
    if n == s.len() {
        assert(s.take(n) =~= s);
    } else {
        assert(s.take(n + 1).drop_last() =~= s.take(n));
        assert(s.take(n + 1).last() == s[n]);
        lemma_digits_value_grows(s, n + 1);
    }
}

/// Reads a 32-bit signed integer written in base ten.
pub fn parse_int(v: &Vec<char>) -> (r: Option<i32>)
    ensures
        r == parse_i32(v@),
{
    let negative = v.len() > 0 && v[0] == '-';
    let start: usize = if v.len() > 0 && (v[0] == '-' || v[0] == '+') { 1 } else { 0 };
    let ghost body = if start == 1 { v@.drop_first() } else { v@ };
    assert(body =~= v@.subrange(start as int, v.len() as int));
    if start == v.len() {
        return None;
    }
    let mut acc: u64 = 0;
    let mut i: usize = start;
    while i < v.len()
        invariant
            start <= i <= v.len(),
            body == v@.subrange(start as int, v.len() as int),
            parse_i32(v@) == parse_digits(negative, body),
            forall|j: int| 0 <= j < i - start ==> is_digit(#[trigger] body[j]),
            acc == digits_value(body.take(i - start)),
            acc <= 2147483648,
        decreases v.len() - i,
    {
        let c = v[i];
        if !('0' <= c && c <= '9') {
            assert(!is_digit(body[i - start]));
            return None;
        }
        assert(body.take(i - start + 1).drop_last() =~= body.take(i - start));
        assert(body.take(i - start + 1).last() == c);
        acc = acc * 10 + ((c as u8) - 48) as u64;
        i += 1;
        if acc > 2147483648 {
            proof {
                if forall|j: int| 0 <= j < body.len() ==> is_digit(#[trigger] body[j]) {
                    lemma_digits_value_grows(body, i - start);
                }
            }
            return None;
        }
    }
    assert(body.take(body.len() as int) =~= body);
    if negative {
        Some((0 - (acc as i64)) as i32)
    } else if acc <= 2147483647 {
        Some(acc as i32)
    } else {
        None
    }
}

/// The ASCII digit for a number below ten.
pub open spec fn digit_char(d: nat) -> char {
    ((48 + d) as u8) as char
}

/// `n` written in base ten, without leading zeros.
pub open spec fn decimal(n: nat) -> Seq<char>
    decreases n,
{
    if n < 10 {
        seq![digit_char(n)]
    } else {
        decimal(n / 10).push(digit_char(n % 10))
    }
}

/// `n` written in base ten, with a minus sign where it is negative.
pub open spec fn signed_decimal(n: int) -> Seq<char> {
    if n < 0 {
        seq!['-'] + decimal((-n) as nat)
    } else {
        decimal(n as nat)
    }
}

/// Appends `n` in base ten to `out`.
pub fn push_decimal(out: &mut Vec<char>, n: u64)
    ensures
        final(out)@ == old(out)@ + decimal(n as nat),
    decreases n,
{
    if n >= 10 {
        push_decimal(out, n / 10);
    }
    let digit = (48 + (n % 10) as u8) as char;
    out.push(digit);
    proof {
        if n >= 10 {
            assert(out@ =~= old(out)@ + decimal(n as nat));
        } else {
            assert(out@ =~= old(out)@ + decimal(n as nat));
        }
    }
}

/// Appends `n` in base ten to `out`, with a minus sign where it is negative.
pub fn push_signed_decimal(out: &mut Vec<char>, n: i64)
    ensures
        final(out)@ == old(out)@ + signed_decimal(n as int),
{
    if n < 0 {
        out.push('-');
        let magnitude: u64 = if n == i64::MIN { 9223372036854775808 } else { (0 - n) as u64 };
        push_decimal(out, magnitude);
        assert(out@ =~= old(out)@ + signed_decimal(n as int));
    } else {
        push_decimal(out, n as u64);
    }
}

/// Appends the characters of `s` to `out`.
pub fn push_str(out: &mut Vec<char>, s: &str)
    ensures
        final(out)@ == old(out)@ + s@,
{
    let chars = to_chars(s);
    append_range(out, &chars, 0, chars.len());
    assert(chars@.subrange(0, chars@.len() as int) =~= chars@);
}

/// Whether `pat` is a substring of `text`.
pub fn contains_str(text: &Vec<char>, pat: &str) -> (r: bool)
    ensures
        r == contains(text@, pat@),
{
    let pat = to_chars(pat);
    match find_from(text, &pat, 0) {
        Some(i) => {
            assert(occurs_at(text@, pat@, i as int));
            true
        },
        None => {
            assert forall|i: int| !occurs_at(text@, pat@, i) by {
                if i >= 0 {
                }
            }
            false
        },
    }
}

/// `text` ends in `suffix`.
pub open spec fn has_suffix(text: Seq<char>, suffix: Seq<char>) -> bool {
    suffix.len() <= text.len() && occurs_at(text, suffix, text.len() - suffix.len())
}

/// Whether `text` ends in `suffix`.
pub fn ends_with(text: &Vec<char>, suffix: &Vec<char>) -> (r: bool)
    ensures
        r == has_suffix(text@, suffix@),
{
    if suffix.len() > text.len() {
        return false;
    }
    matches_at(text, suffix, text.len() - suffix.len())
}

/// `text` starts with `prefix`.
pub open spec fn has_prefix(text: Seq<char>, prefix: Seq<char>) -> bool {
    occurs_at(text, prefix, 0)
}

/// Whether `text` starts with `prefix`.
pub fn starts_with(text: &Vec<char>, prefix: &str) -> (r: bool)
    ensures
        r == has_prefix(text@, prefix@),
{
    let prefix = to_chars(prefix);
    matches_at(text, &prefix, 0)
}

/// `a` comes before `b` in the dictionary order of their characters.
pub open spec fn lex_less(a: Seq<char>, b: Seq<char>) -> bool
    decreases a.len(),
{
    if b.len() == 0 {
        false
    } else if a.len() == 0 {
        true
    } else if a[0] != b[0] {
        a[0] < b[0]
    } else {
        lex_less(a.drop_first(), b.drop_first())
    }
}

/// Whether `a` comes before `b` in the dictionary order of their
/// characters.
pub fn str_less(a: &str, b: &str) -> (r: bool)
    ensures
        r == lex_less(a@, b@),
{
    let x = to_chars(a);
    let y = to_chars(b);
    let mut i: usize = 0;
    assert(x@.skip(0) =~= x@ && y@.skip(0) =~= y@);
    while i < x.len() && i < y.len()
        invariant
            i <= x.len(),
            i <= y.len(),
            x@ == a@,
            y@ == b@,
            lex_less(x@, y@) == lex_less(x@.skip(i as int), y@.skip(i as int)),
        decreases x.len() - i,
    {
        let ghost p = x@.skip(i as int);
        let ghost q = y@.skip(i as int);
        assert(p[0] == x@[i as int] && q[0] == y@[i as int]);
        assert(p.drop_first() =~= x@.skip(i + 1) && q.drop_first() =~= y@.skip(i + 1));
        if x[i] != y[i] {
            return x[i] < y[i];
        }
        i += 1;
    }
    assert(x@.skip(i as int).len() == x.len() - i);
    assert(y@.skip(i as int).len() == y.len() - i);
    i < y.len()
}

} // verus!
