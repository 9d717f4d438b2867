//! Characters and strings: the few text operations the rest of the crate is
//! built on, each stated over `Seq<char>`.

use vstd::arithmetic::div_mod;
use vstd::arithmetic::power;
use vstd::prelude::*;

verus! {

/// `String::push` appends one character, as the standard library documents it.
pub assume_specification[ String::push ](s: &mut String, c: char)
    ensures
        final(s)@ == old(s)@.push(c),
;

/// The characters with the Unicode `White_Space` property.
pub open spec fn is_white(c: char) -> bool {
    let u = c as u32;
    ||| 0x09 <= u <= 0x0d
    ||| u == 0x20
    ||| u == 0x85
    ||| u == 0xa0
    ||| u == 0x1680
    ||| 0x2000 <= u <= 0x200a
    ||| u == 0x2028
    ||| u == 0x2029
    ||| u == 0x202f
    ||| u == 0x205f
    ||| u == 0x3000
}

/// `s` without its leading white space.
pub open spec fn trim_start(s: Seq<char>) -> Seq<char>
    decreases s.len(),
{
    if s.len() > 0 && is_white(s[0]) {
        trim_start(s.skip(1))
    } else {
        s
    }
}

/// `s` without its trailing white space.
pub open spec fn trim_end(s: Seq<char>) -> Seq<char>
    decreases s.len(),
{
    if s.len() > 0 && is_white(s.last()) {
        trim_end(s.drop_last())
    } else {
        s
    }
}

/// `s` without white space at either end.
pub open spec fn trimmed(s: Seq<char>) -> Seq<char> {
    trim_end(trim_start(s))
}

/// `s` with the letters `A` to `Z` turned into `a` to `z`.
pub open spec fn lower(s: Seq<char>) -> Seq<char> {
    s.map_values(|c: char| lower_char(c))
}

pub open spec fn lower_char(c: char) -> char {
    if 'A' <= c <= 'Z' {
        (c as u32 + 32) as char
    } else {
        c
    }
}

/// The decimal digit for a number below ten.
pub open spec fn digit_char(d: nat) -> char {
    ('0' as u32 + d) as char
}

/// The decimal notation of `n`, without leading zeros.
pub open spec fn decimal(n: nat) -> Seq<char>
    decreases n,
{
    if n < 10 {
        seq![digit_char(n)]
    } else {
        decimal(n / 10).push(digit_char(n % 10))
    }
}

/// The strings of a list, one after the other.
pub open spec fn concat(parts: Seq<Seq<char>>) -> Seq<char>
    decreases parts.len(),
{
    if parts.len() == 0 {
        Seq::empty()
    } else {
        concat(parts.drop_last()) + parts.last()
    }
}

/// The contents of a list of strings.
pub open spec fn views(strings: Seq<String>) -> Seq<Seq<char>> {
    strings.map_values(|s: String| s@)
}

/// The contents of an optional string.
pub open spec fn opt_view(s: Option<String>) -> Option<Seq<char>> {
    match s {
        Some(t) => Some(t@),
        None => None,
    }
}

/// Whether two texts are the same.
pub fn same_text(a: &str, b: &str) -> (res: bool)
    ensures
        res == (a@ == b@),
{
    a.to_owned() == b.to_owned()
}

/// The characters of `text`.
pub fn chars_of(text: &str) -> (res: Vec<char>)
    ensures
        res@ == text@,
{
    let mut out: Vec<char> = Vec::new();
    for c in it: text.chars()
        invariant
            it.seq() == text@,
            out@ == text@.take(it.index()),
    {
        proof {
            assert(text@.take(it.index() + 1) =~= text@.take(it.index()).push(c));
        }
        out.push(c);
    }
    proof {
        assert(text@.take(text@.len() as int) =~= text@);
    }
    out
}

/// The string made of `chars[from..to]`.
pub fn string_of(chars: &[char], from: usize, to: usize) -> (res: String)
    requires
        from <= to <= chars@.len(),
    ensures
        res@ == chars@.subrange(from as int, to as int),
{
    let mut out = String::new();
    let mut i: usize = from;
    while i < to
        invariant
            from <= i <= to <= chars@.len(),
            out@ == chars@.subrange(from as int, i as int),
        decreases to - i,
    {
        out.push(chars[i]);
        proof {
            assert(chars@.subrange(from as int, i + 1) =~= chars@.subrange(
                from as int,
                i as int,
            ).push(chars@[i as int]));
        }
        i = i + 1;
    }
    out
}

/// Whether `c` is white space.
pub fn is_white_space(c: char) -> (res: bool)
    ensures
        res == is_white(c),
{
    let u: u32 = c as u32;
    (0x09 <= u && u <= 0x0d) || u == 0x20 || u == 0x85 || u == 0xa0 || u == 0x1680 || (0x2000 <= u
        && u <= 0x200a) || u == 0x2028 || u == 0x2029 || u == 0x202f || u == 0x205f || u == 0x3000
}

/// `text` without white space at either end.
pub fn trim(text: &str) -> (res: String)
    ensures
        res@ == trimmed(text@),
{
    let chars = chars_of(text);
    let mut i: usize = 0;
    proof {
        assert(chars@.skip(0) =~= chars@);
    }
    while i < chars.len() && is_white_space(chars[i])
        invariant
            i <= chars@.len(),
            trim_start(chars@.skip(i as int)) == trim_start(chars@),
        decreases chars@.len() - i,
    {
        proof {
            assert(chars@.skip(i as int).skip(1) =~= chars@.skip(i + 1));
        }
        i = i + 1;
    }
    let ghost rest = chars@.skip(i as int);
    proof {
        assert(trim_start(chars@) == rest);
    }
    let mut j: usize = chars.len();
    proof {
        assert(chars@.subrange(i as int, j as int) =~= rest);
    }
    while i < j && is_white_space(chars[j - 1])
        invariant
            i <= j <= chars@.len(),
            trim_end(chars@.subrange(i as int, j as int)) == trim_end(rest),
        decreases j,
    {
        proof {
            assert(chars@.subrange(i as int, j as int).drop_last() =~= chars@.subrange(
                i as int,
                j - 1,
            ));
        }
        j = j - 1;
    }
    string_of(chars.as_slice(), i, j)
}

/// `text` with its ASCII letters in lower case.
pub fn to_ascii_lowercase(text: &str) -> (res: String)
    ensures
        res@ == lower(text@),
{
    let mut out = String::new();
    for c in it: text.chars()
        invariant
            it.seq() == text@,
            out@ == lower(text@.take(it.index())),
    {
        proof {
            assert(lower(text@.take(it.index() + 1)) =~= lower(text@.take(it.index())).push(
                lower_char(c),
            ));
        }
        out.push(lower_ascii(c));
    }
    proof {
        assert(text@.take(text@.len() as int) =~= text@);
    }
    out
}

fn lower_ascii(c: char) -> (res: char)
    ensures
        res == lower_char(c),
{
    if 'A' <= c && c <= 'Z' {
        ((c as u8) + 32) as char
    } else {
        c
    }
}

/// The decimal notation of `n`.
pub fn decimal_text(n: u64) -> (res: String)
    ensures
        res@ == decimal(n as nat),
    decreases n,
{
    let digit: u8 = (n % 10) as u8;
    let c: char = (48u8 + digit) as char;
    let mut out = if n < 10 {
        String::new()
    } else {
        decimal_text(n / 10)
    };
    out.push(c);
    proof {
        assert(c == digit_char(n as nat % 10));
        assert(n < 10 ==> out@ =~= seq![digit_char(n as nat)]);
    }
    out
}

/// All of `parts`, one after the other.
pub fn concat_strings(parts: &[String]) -> (res: String)
    ensures
        res@ == concat(views(parts@)),
{
    let mut out = String::new();
    let mut i: usize = 0;
    while i < parts.len()
        invariant
            i <= parts@.len(),
            out@ == concat(views(parts@.take(i as int))),
        decreases parts@.len() - i,
    {
        out.append(parts[i].as_str());
        proof {
            let next = views(parts@.take(i + 1));
            assert(next.drop_last() =~= views(parts@.take(i as int)));
        }
        i = i + 1;
    }
    proof {
        assert(parts@.take(i as int) =~= parts@);
    }
    out
}

/// Trimming leaves a text that neither starts nor ends with white space.
pub proof fn lemma_trimmed_ends(s: Seq<char>)
    ensures
        trimmed(s).len() > 0 ==> !is_white(trimmed(s)[0]) && !is_white(trimmed(s).last()),
{
    lemma_trim_start_head(s);
    lemma_trim_end_shape(trim_start(s));
}

proof fn lemma_trim_start_head(s: Seq<char>)
    ensures
        trim_start(s).len() > 0 ==> !is_white(trim_start(s)[0]),
    decreases s.len(),
{
    if s.len() > 0 && is_white(s[0]) {
        lemma_trim_start_head(s.skip(1));
    }
}

proof fn lemma_trim_end_shape(s: Seq<char>)
    ensures
        trim_end(s).len() <= s.len(),
        trim_end(s) == s.take(trim_end(s).len() as int),
        trim_end(s).len() > 0 ==> !is_white(trim_end(s).last()),
    decreases s.len(),
{
    if s.len() > 0 && is_white(s.last()) {
        lemma_trim_end_shape(s.drop_last());
        assert(s.drop_last().take(trim_end(s).len() as int) =~= s.take(trim_end(s).len() as int));
    } else {
        assert(s.take(s.len() as int) =~= s);
    }
}

/// Trimming a second time changes nothing.
pub proof fn law_trim_is_idempotent(s: Seq<char>)
    ensures
        trimmed(trimmed(s)) == trimmed(s),
{
    lemma_trimmed_ends(s);
}

/// Letter case plays no part in trimming.
pub proof fn law_trim_commutes_with_lower(s: Seq<char>)
    ensures
        trimmed(lower(s)) == lower(trimmed(s)),
{
    lemma_trim_start_lower(s);
    lemma_trim_end_lower(trim_start(s));
}

proof fn lemma_trim_start_lower(s: Seq<char>)
    ensures
        trim_start(lower(s)) == lower(trim_start(s)),
    decreases s.len(),
{
    if s.len() > 0 {
        assert(lower(s)[0] == lower_char(s[0]));
        assert(is_white(lower_char(s[0])) == is_white(s[0]));
        if is_white(s[0]) {
            assert(lower(s).skip(1) =~= lower(s.skip(1)));
            lemma_trim_start_lower(s.skip(1));
        }
    }
}

proof fn lemma_trim_end_lower(s: Seq<char>)
    ensures
        trim_end(lower(s)) == lower(trim_end(s)),
    decreases s.len(),
{
    if s.len() > 0 {
        assert(lower(s).last() == lower_char(s.last()));
        assert(is_white(lower_char(s.last())) == is_white(s.last()));
        if is_white(s.last()) {
            assert(lower(s).drop_last() =~= lower(s.drop_last()));
            lemma_trim_end_lower(s.drop_last());
        }
    }
}

/// Whether every character is a decimal digit.
pub open spec fn all_digits(s: Seq<char>) -> bool {
    forall|i: int| 0 <= i < s.len() ==> '0' <= #[trigger] s[i] <= '9'
}

/// The number that a row of decimal digits writes.
pub open spec fn digits_value(s: Seq<char>) -> nat
    decreases s.len(),
{
    if s.len() == 0 {
        0
    } else {
        digits_value(s.drop_last()) * 10 + (s.last() as u32 - '0' as u32) as nat
    }
}

/// `s` without one plus sign in front.
pub open spec fn unsigned_part(s: Seq<char>) -> Seq<char> {
    if s.len() > 0 && s[0] == '+' {
        s.skip(1)
    } else {
        s
    }
}

/// The number that `s` writes: digits alone, possibly behind a plus sign, for a
/// number that fits 64 bits.
pub open spec fn number_in(s: Seq<char>) -> Option<u64> {
    let digits = unsigned_part(s);
    if digits.len() > 0 && all_digits(digits) && digits_value(digits) <= u64::MAX {
        Some(digits_value(digits) as u64)
    } else {
        None
    }
}

proof fn lemma_value_grows(s: Seq<char>, i: int)
    requires
        all_digits(s),
        0 <= i <= s.len(),
    ensures
        digits_value(s.take(i)) <= digits_value(s),
    decreases s.len() - i,
{
    if i == s.len() {
        assert(s.take(i) =~= s);
    } else {
        lemma_value_grows(s, i + 1);
        assert(s.take(i + 1).drop_last() =~= s.take(i));
        assert('0' <= s[i] <= '9');
    }
}

/// Parses an unsigned number.
pub fn parse_number(text: &str) -> (res: Option<u64>)
    ensures
        res == number_in(text@),
{
    let chars = chars_of(text);
    let start: usize = if chars.len() > 0 && chars[0] == '+' {
        1
    } else {
        0
    };
    let ghost digits = unsigned_part(text@);
    proof {
        assert(digits =~= chars@.skip(start as int));
    }
    if start == chars.len() {
        return None;
    }
    let mut value: u64 = 0;
    let mut i: usize = start;
    proof {
        assert(digits.take(0) =~= Seq::empty());
    }
    while i < chars.len()
        invariant
            start <= i <= chars@.len(),
            digits == unsigned_part(text@),
            digits == chars@.skip(start as int),
            digits.len() > 0,
            all_digits(digits.take(i - start)),
            value == digits_value(digits.take(i - start)),
        decreases chars@.len() - i,
    {
        let c: char = chars[i];
        proof {
            assert(digits[i - start] == c);
            assert(digits.take(i - start + 1).drop_last() =~= digits.take(i - start));
            assert(digits.take(i - start + 1).last() == c);
        }
        if !('0' <= c && c <= '9') {
            return None;
        }
        let d: u64 = (c as u32 - 48) as u64;
        proof {
            assert forall|k: int| 0 <= k < i - start + 1 implies '0' <= #[trigger] digits.take(
                i - start + 1,
            )[k] <= '9' by {
                if k < i - start {
                    assert(digits.take(i - start)[k] == digits[k]);
                }
            }
            assert(digits_value(digits.take(i - start + 1)) == value * 10 + d);
            if all_digits(digits) {
                lemma_value_grows(digits, i - start + 1);
            }
        }
        if value > (u64::MAX - d) / 10 {
            return None;
        }
        value = value * 10 + d;
        i = i + 1;
    }
    proof {
        assert(digits.take(i - start) =~= digits);
    }
    Some(value)
}

/// A number's decimal notation reads back as the number.
pub proof fn law_decimal_reads_back(n: u64)
    ensures
        number_in(decimal(n as nat)) == Some(n),
{
    lemma_decimal_digits(n as nat);
    assert(!(decimal(n as nat)[0] == '+'));
}

proof fn lemma_decimal_digits(n: nat)
    ensures
        decimal(n).len() > 0,
        all_digits(decimal(n)),
        digits_value(decimal(n)) == n,
    decreases n,
{
    let d = digit_char(n % 10);
    assert('0' <= d <= '9');
    assert(d as u32 - '0' as u32 == n % 10);
    if n < 10 {
        assert(decimal(n).drop_last() =~= Seq::empty());
        assert(digits_value(decimal(n).drop_last()) == 0);
    } else {
        lemma_decimal_digits(n / 10);
        assert(decimal(n).drop_last() =~= decimal(n / 10));
        assert forall|i: int| 0 <= i < decimal(n).len() implies '0' <= #[trigger] decimal(n)[i]
            <= '9' by {
            if i < decimal(n / 10).len() {
                assert(decimal(n)[i] == decimal(n / 10)[i]);
            }
        }
    }
}

/// Trimming cuts a range out of a text: everything before and behind it is white
/// space, and it neither begins nor ends with any. Nothing inside is touched.
pub proof fn law_trim_cuts_white_space(s: Seq<char>) -> (range: (int, int))
    ensures
        0 <= range.0 <= range.1 <= s.len(),
        trimmed(s) == s.subrange(range.0, range.1),
        forall|i: int| 0 <= i < range.0 ==> is_white(#[trigger] s[i]),
        forall|i: int| range.1 <= i < s.len() ==> is_white(#[trigger] s[i]),
        range.0 < range.1 ==> !is_white(s[range.0]) && !is_white(s[range.1 - 1]),
{
    let a = lemma_trim_start_cut(s);
    let rest = s.skip(a);
    let b = lemma_trim_end_cut(rest);
    assert(rest.take(b) =~= s.subrange(a, a + b));
    assert forall|i: int| a + b <= i < s.len() implies is_white(#[trigger] s[i]) by {
        assert(rest[i - a] == s[i]);
    }
    if b > 0 {
        lemma_trimmed_ends(s);
        assert(trimmed(s)[0] == s[a]);
        assert(trimmed(s).last() == s[a + b - 1]);
    }
    (a, a + b)
}

proof fn lemma_trim_start_cut(s: Seq<char>) -> (a: int)
    ensures
        0 <= a <= s.len(),
        trim_start(s) == s.skip(a),
        forall|i: int| 0 <= i < a ==> is_white(#[trigger] s[i]),
    decreases s.len(),
{
    if s.len() > 0 && is_white(s[0]) {
        let a = lemma_trim_start_cut(s.skip(1));
        assert(s.skip(1).skip(a) =~= s.skip(a + 1));
        assert forall|i: int| 0 <= i < a + 1 implies is_white(#[trigger] s[i]) by {
            if i > 0 {
                assert(s.skip(1)[i - 1] == s[i]);
            }
        }
        a + 1
    } else {
        assert(s.skip(0) =~= s);
        0
    }
}

proof fn lemma_trim_end_cut(s: Seq<char>) -> (b: int)
    ensures
        0 <= b <= s.len(),
        trim_end(s) == s.take(b),
        forall|i: int| b <= i < s.len() ==> is_white(#[trigger] s[i]),
    decreases s.len(),
{
    if s.len() > 0 && is_white(s.last()) {
        let init = s.drop_last();
        let b = lemma_trim_end_cut(init);
        assert(init.take(b) =~= s.take(b));
        assert forall|i: int| b <= i < s.len() implies is_white(#[trigger] s[i]) by {
            if i < init.len() {
                assert(init[i] == s[i]);
            }
        }
        b
    } else {
        assert(s.take(s.len() as int) =~= s);
        s.len() as int
    }
}

/// Lower case moves the code points 65 to 90 up by 32 and leaves every other
/// character and every place as it is.
pub proof fn law_lower_by_code_point(s: Seq<char>, i: int)
    requires
        0 <= i < s.len(),
    ensures
        lower(s).len() == s.len(),
        65 <= s[i] as u32 <= 90 ==> lower(s)[i] as u32 == s[i] as u32 + 32,
        !(65 <= s[i] as u32 <= 90) ==> lower(s)[i] == s[i],
{
    lemma_lower_code(s[i]);
}

proof fn lemma_lower_code(c: char)
    ensures
        65 <= c as u32 <= 90 ==> lower_char(c) as u32 == c as u32 + 32,
        !(65 <= c as u32 <= 90) ==> lower_char(c) == c,
{
}

/// Joining keeps all strings, whole and in order: the join of two lists is the
/// join of the first and then that of the second, and a single string is its own
/// join.
pub proof fn law_concat_in_order(a: Seq<Seq<char>>, b: Seq<Seq<char>>, one: Seq<char>)
    ensures
        concat(a + b) == concat(a) + concat(b),
        concat(seq![one]) == one,
        concat(Seq::<Seq<char>>::empty()) == Seq::<char>::empty(),
    decreases b.len(),
{
    assert(seq![one].drop_last() =~= Seq::empty());
    assert(concat(Seq::<Seq<char>>::empty()) =~= Seq::empty());
    assert(concat(seq![one]) =~= one);
    if b.len() == 0 {
        assert(a + b =~= a);
        assert(concat(a) + concat(b) =~= concat(a));
    } else {
        law_concat_in_order(a, b.drop_last(), one);
        assert((a + b).drop_last() =~= a + b.drop_last());
        assert(concat(a + b) =~= concat(a) + concat(b));
    }
}

/// The decimal notation of a number has its digit for each power of ten in the
/// place for it, and no more places than it needs.
pub proof fn law_decimal_by_place(n: nat, i: int)
    requires
        0 <= i < decimal(n).len(),
    ensures
        decimal(n)[decimal(n).len() - 1 - i] as u32 == 48 + (n as int / power::pow(10, i as nat))
            % 10,
        (n as int) < power::pow(10, decimal(n).len()),
        decimal(n).len() > 1 ==> n as int >= power::pow(10, (decimal(n).len() - 1) as nat),
    decreases n,
{
    lemma_decimal_size(n);
    let d = digit_char(n % 10);
    assert(d as u32 == 48 + n % 10);
    if i == 0 {
        power::lemma_pow0(10);
        assert(n as int / 1 == n);
    } else {
        assert(n >= 10);
        let m = n / 10;
        law_decimal_by_place(m, i - 1);
        assert(decimal(n)[decimal(n).len() - 1 - i] == decimal(m)[decimal(m).len() - i]);
        power::lemma_pow1(10);
        power::lemma_pow_adds(10, 1, (i - 1) as nat);
        power::lemma_pow_positive(10, (i - 1) as nat);
        div_mod::lemma_div_denominator(n as int, 10, power::pow(10, (i - 1) as nat));
    }
}

proof fn lemma_decimal_size(n: nat)
    ensures
        decimal(n).len() > 0,
        (n as int) < power::pow(10, decimal(n).len()),
        decimal(n).len() > 1 ==> n as int >= power::pow(10, (decimal(n).len() - 1) as nat),
    decreases n,
{
    power::lemma_pow1(10);
    if n >= 10 {
        let m = n / 10;
        lemma_decimal_size(m);
        let len = decimal(m).len();
        power::lemma_pow_adds(10, 1, len);
        power::lemma_pow_adds(10, 1, (len - 1) as nat);
        assert(decimal(n).len() == len + 1);
        if len == 1 {
            power::lemma_pow0(10);
        }
    }
}

/// `k` zeros.
pub open spec fn zeros(k: nat) -> Seq<char> {
    Seq::new(k, |i: int| '0')
}

/// A plus sign, or nothing.
pub open spec fn sign(plus: bool) -> Seq<char> {
    if plus {
        seq!['+']
    } else {
        Seq::empty()
    }
}

/// A number is read from its decimal notation, behind any number of zeros, and
/// with or without one plus sign.
pub proof fn law_number_reads_back(v: u64, k: nat, plus: bool)
    ensures
        number_in(sign(plus) + zeros(k) + decimal(v as nat)) == Some(v),
{
    let d = decimal(v as nat);
    let s = sign(plus) + zeros(k) + d;
    lemma_decimal_digits(v as nat);
    let digits = zeros(k) + d;
    assert(d[0] != '+');
    assert(digits[0] != '+');
    assert(unsigned_part(s) =~= digits);
    assert(all_digits(digits)) by {
        assert forall|i: int| 0 <= i < digits.len() implies '0' <= #[trigger] digits[i] <= '9' by {
            if i >= k {
                assert(digits[i] == d[i - k]);
            }
        }
    }
    lemma_leading_zeros(k, d);
}

proof fn lemma_leading_zeros(k: nat, d: Seq<char>)
    ensures
        digits_value(zeros(k) + d) == digits_value(d),
    decreases k + d.len(),
{
    let s = zeros(k) + d;
    if d.len() > 0 {
        lemma_leading_zeros(k, d.drop_last());
        assert(s.drop_last() =~= zeros(k) + d.drop_last());
    } else if k > 0 {
        lemma_leading_zeros((k - 1) as nat, d);
        assert(s.drop_last() =~= zeros((k - 1) as nat) + d);
    } else {
        assert(s =~= d);
    }
}

/// A number is read from nothing else than its decimal notation, behind zeros and
/// at most one plus sign.
pub proof fn law_number_is_its_notation(s: Seq<char>) -> (form: (bool, nat))
    requires
        number_in(s) is Some,
    ensures
        s == sign(form.0) + zeros(form.1) + decimal(number_in(s)->0 as nat),
{
    let digits = unsigned_part(s);
    let k = lemma_digits_notation(digits);
    let plus = s.len() > 0 && s[0] == '+';
    assert(s =~= sign(plus) + digits);
    assert(sign(plus) + (zeros(k) + decimal(digits_value(digits))) =~= sign(plus) + zeros(k)
        + decimal(digits_value(digits)));
    (plus, k)
}

proof fn lemma_digits_notation(s: Seq<char>) -> (k: nat)
    requires
        s.len() > 0,
        all_digits(s),
    ensures
        s == zeros(k) + decimal(digits_value(s)),
    decreases s.len(),
{
    let init = s.drop_last();
    let c = s.last();
    assert('0' <= s[s.len() - 1] <= '9');
    let d = (c as u32 - '0' as u32) as nat;
    assert(digit_char(d) == c);
    if init.len() == 0 {
        assert(digits_value(init) == 0);
        assert(s =~= zeros(0) + decimal(d));
        0
    } else {
        assert forall|i: int| 0 <= i < init.len() implies '0' <= #[trigger] init[i] <= '9' by {
            assert(init[i] == s[i]);
        }
        let k = lemma_digits_notation(init);
        let a = digits_value(init);
        if a == 0 {
            assert(decimal(0) =~= seq!['0']);
            assert(init =~= zeros(k + 1));
            assert(decimal(d) == seq![c]);
            assert(s =~= init + seq![c]);
            assert(digits_value(s) == d);
            k + 1
        } else {
            assert((a * 10 + d) / 10 == a && (a * 10 + d) % 10 == d);
            assert(decimal(a * 10 + d) == decimal(a).push(c));
            assert(s =~= init.push(c));
            assert(s =~= zeros(k) + decimal(a).push(c));
            k
        }
    }
}

/// A list of strings, and a string that may be missing, are seen as they are:
/// each in its place, character for character.
pub proof fn law_strings_are_seen_whole(strings: Seq<String>, i: int, one: String)
    requires
        0 <= i < strings.len(),
    ensures
        views(strings).len() == strings.len(),
        views(strings)[i] == strings[i]@,
        opt_view(Some(one)) == Some(one@),
        opt_view(None::<String>) is None,
{
}

}
