//! Small verified text routines: decimal rendering, number parsing, prefix and
//! substring tests, and cutting a string at a character.

use vstd::prelude::*;

verus! {

/// `String::push` appends one character at the end.
pub assume_specification[ String::push ](s: &mut String, c: char)
    ensures
        final(s)@ == old(s)@.push(c),
;

/// The decimal digit that stands for `d`, for `d` below ten.
pub open spec fn digit_char(d: nat) -> char {
    (48 + d) as char
}

/// The shortest decimal rendering of a natural number.
pub open spec fn decimal(n: nat) -> Seq<char>
    decreases n,
{
    if n < 10 {
        seq![digit_char(n)]
    } else {
        decimal(n / 10).push(digit_char(n % 10))
    }
}

/// The decimal rendering of an integer, with a minus sign where it is negative.
pub open spec fn signed_decimal(i: int) -> Seq<char> {
    if i < 0 {
        seq!['-'] + decimal((-i) as nat)
    } else {
        decimal(i as nat)
    }
}

/// Whether `c` is one of the ten decimal digits.
pub open spec fn is_digit(c: char) -> bool {
    '0' <= c && c <= '9'
}

/// The number that a run of decimal digits stands for.
pub open spec fn digits_value(s: Seq<char>) -> nat
    decreases s.len(),
{
    if s.len() == 0 {
        0
    } else {
        digits_value(s.drop_last()) * 10 + (s.last() as nat - 48) as nat
    }
}

/// `s` without its leading plus sign, where it has one.
pub open spec fn without_plus(s: Seq<char>) -> Seq<char> {
    if s.len() > 0 && s[0] == '+' {
        s.skip(1)
    } else {
        s
    }
}

/// What an unsigned number text stands for: an optional plus sign, then at
/// least one decimal digit and nothing else.
pub open spec fn unsigned_text(s: Seq<char>) -> Option<nat> {
    let body = without_plus(s);
    if body.len() > 0 && (forall|i: int| 0 <= i < body.len() ==> is_digit(#[trigger] body[i])) {
        Some(digits_value(body))
    } else {
        None
    }
}

/// Whether `needle` occurs in `hay` as a run of consecutive characters.
pub open spec fn occurs_in(needle: Seq<char>, hay: Seq<char>) -> bool {
    exists|i: int|
        0 <= i <= hay.len() - needle.len() && #[trigger] hay.subrange(i, i + needle.len())
            == needle
}

/// `s` with every leading copy of `prefix` removed.
pub open spec fn without_prefixes(s: Seq<char>, prefix: Seq<char>) -> Seq<char>
    decreases s.len(),
{
    if prefix.len() > 0 && prefix.is_prefix_of(s) {
        without_prefixes(s.skip(prefix.len() as int), prefix)
    } else {
        s
    }
}

/// The part of `s` before the first `c`; all of `s` where `c` does not occur.
pub open spec fn before_char(s: Seq<char>, c: char) -> Seq<char>
    decreases s.len(),
{
    if s.len() == 0 || s[0] == c {
        Seq::empty()
    } else {
        seq![s[0]] + before_char(s.skip(1), c)
    }
}

/// `s` with every trailing `c` removed.
pub open spec fn trim_end(s: Seq<char>, c: char) -> Seq<char>
    decreases s.len(),
{
    if s.len() > 0 && s.last() == c {
        trim_end(s.drop_last(), c)
    } else {
        s
    }
}

/// The first `n` characters of `s`, or all of `s` where it is shorter.
pub open spec fn first_chars(s: Seq<char>, n: nat) -> Seq<char> {
    if s.len() <= n {
        s
    } else {
        s.take(n as int)
    }
}

/// The characters of a string, one by one.
pub fn to_chars(s: &str) -> (r: Vec<char>)
    ensures
        r@ == s@,
{
    let mut r: Vec<char> = Vec::new();
    for c in it: s.chars()
        invariant
            r@ == it.seq().take(it.index() as int),
            it.seq() == s@,
    {
        r.push(c);
        assert(it.seq().take(it.index() + 1) =~= it.seq().take(it.index() as int).push(c));
    }
    assert(s@.take(s@.len() as int) =~= s@);
    r
}

/// The string made of the characters from `lo` up to, but without, `hi`.
pub fn from_range(chars: &Vec<char>, lo: usize, hi: usize) -> (r: String)
    requires
        lo <= hi <= chars@.len(),
    ensures
        r@ == chars@.subrange(lo as int, hi as int),
{
    let mut r: String = String::new();
    let mut i: usize = lo;
    while i < hi
        invariant
            lo <= i <= hi <= chars@.len(),
            r@ == chars@.subrange(lo as int, i as int),
        decreases hi - i,
    {
        r.push(chars[i]);
        assert(chars@.subrange(lo as int, i + 1) =~= chars@.subrange(lo as int, i as int).push(
            chars@[i as int],
        ));
        i = i + 1;
    }
    r
}

/// Appends the decimal rendering of `n`.
pub fn push_decimal(out: &mut String, n: u128)
    ensures
        final(out)@ == old(out)@ + decimal(n as nat),
    decreases n,
{
    if n >= 10 {
        push_decimal(out, n / 10);
    }
    let d: u8 = (n % 10) as u8;
    out.push((48u8 + d) as char);
    assert(out@ =~= old(out)@ + decimal(n as nat));
}

/// The decimal rendering of `n`.
pub fn decimal_text(n: u128) -> (r: String)
    ensures
        r@ == decimal(n as nat),
{
    let mut r: String = String::new();
    push_decimal(&mut r, n);
    assert(r@ =~= decimal(n as nat));
    r
}

/// Appends the decimal rendering of `i`, with its sign where it is negative.
pub fn push_signed_decimal(out: &mut String, i: i64)
    ensures
        final(out)@ == old(out)@ + signed_decimal(i as int),
{
    if i < 0 {
        out.push('-');
        let m: i128 = 0 - (i as i128);
        push_decimal(out, m as u128);
        assert(out@ =~= old(out)@ + signed_decimal(i as int));
    } else {
        push_decimal(out, i as u128);
    }
}

/// Each prefix of a run of digits stands for no more than the whole run.
proof fn lemma_digits_value_grows(s: Seq<char>, k: int)
    requires
        0 <= k <= s.len(),
        forall|i: int| 0 <= i < s.len() ==> is_digit(#[trigger] s[i]),
    ensures
        digits_value(s.take(k)) <= digits_value(s),
    decreases s.len(),
{
    if k == s.len() {
        assert(s.take(k) =~= s);
    } else {
        assert(s.drop_last().take(k) =~= s.take(k));
        lemma_digits_value_grows(s.drop_last(), k);
    }
}

/// Reads an unsigned decimal number that does not exceed `max`.
pub fn parse_unsigned(s: &str, max: u128) -> (r: Option<u128>)
    ensures
        r matches Some(v) ==> unsigned_text(s@) == Some(v as nat) && v <= max,
        r is None ==> unsigned_text(s@) is None || unsigned_text(s@)->0 > max,
{
    let chars: Vec<char> = to_chars(s);
    let start: usize = if chars.len() > 0 && chars[0] == '+' {
        1
    } else {
        0
    };
    let ghost body = s@.skip(start as int);
    assert(start == 0 ==> body =~= s@);
    if start == chars.len() {
        return None;
    }
    let mut v: u128 = 0;
    let mut i: usize = start;
    while i < chars.len()
        invariant
            start <= i <= chars@.len(),
            start < chars@.len(),
            chars@ == s@,
            body == s@.skip(start as int),
            body == without_plus(s@),
            v <= max,
            v == digits_value(body.take(i - start)),
            forall|j: int| 0 <= j < i - start ==> is_digit(#[trigger] body[j]),
        decreases chars@.len() - i,
    {
        let c: char = chars[i];
        assert(body[i - start] == c);
        if c < '0' || c > '9' {
            assert(!is_digit(body[i - start]));
            return None;
        }
        let d: u128 = (c as u32 - 48) as u128;
        assert(body.take(i - start + 1).drop_last() =~= body.take(i - start));
        assert(body.take(i - start + 1).last() == c);
        if d > max || v > (max - d) / 10 {
            assert(v * 10 + d > max);
            proof {
                if forall|j: int| 0 <= j < body.len() ==> is_digit(#[trigger] body[j]) {
                    lemma_digits_value_grows(body, i - start + 1);
                }
            }
            return None;
        }
        v = v * 10 + d;
        i = i + 1;
    }
    assert(body.take(body.len() as int) =~= body);
    Some(v)
}

/// Whether `s` begins with `prefix`.
pub fn starts_with(s: &Vec<char>, at: usize, prefix: &Vec<char>) -> (r: bool)
    requires
        at <= s@.len(),
    ensures
        r == prefix@.is_prefix_of(s@.skip(at as int)),
{
    if prefix.len() > s.len() - at {
        return false;
    }
    let mut i: usize = 0;
    while i < prefix.len()
        invariant
            i <= prefix@.len(),
            at + prefix.len() <= s.len(),
            forall|j: int| 0 <= j < i ==> s@[at + j] == #[trigger] prefix@[j],
        decreases prefix@.len() - i,
    {
        if s[at + i] != prefix[i] {
            assert(s@.skip(at as int)[i as int] != prefix@[i as int]);
            return false;
        }
        i = i + 1;
    }
    assert(s@.skip(at as int).take(prefix@.len() as int) =~= prefix@);
    assert(prefix@ =~= s@.skip(at as int).subrange(0, prefix@.len() as int));
    true
}

/// Whether `needle` occurs in `hay`.
pub fn contains(hay: &str, needle: &str) -> (r: bool)
    ensures
        r == occurs_in(needle@, hay@),
{
    let h: Vec<char> = to_chars(hay);
    let n: Vec<char> = to_chars(needle);
    if n.len() > h.len() {
        return false;
    }
    let last: usize = h.len() - n.len();
    let mut i: usize = 0;
    loop
        invariant
            i <= last,
            last + n@.len() == h@.len(),
            h@ == hay@,
            n@ == needle@,
            forall|j: int|
                0 <= j < i ==> #[trigger] hay@.subrange(j, j + needle@.len()) != needle@,
        decreases last - i,
    {
        let hit: bool = starts_with(&h, i, &n);
        assert(hay@.skip(i as int).subrange(0, needle@.len() as int) =~= hay@.subrange(
            i as int,
            i + needle@.len(),
        ));
        if hit {
            assert(hay@.subrange(i as int, i + needle@.len()) == needle@);
            return true;
        }
        assert(hay@.subrange(i as int, i + needle@.len()) != needle@) by {
            if hay@.subrange(i as int, i + needle@.len()) == needle@ {
                assert(needle@.is_prefix_of(hay@.skip(i as int)));
            }
        }
        if i == last {
            return false;
        }
        i = i + 1;
    }
}

/// Where `s` goes on once every leading copy of `prefix` is passed over.
pub fn skip_prefixes(s: &Vec<char>, prefix: &Vec<char>) -> (at: usize)
    requires
        prefix@.len() > 0,
    ensures
        at <= s@.len(),
        s@.skip(at as int) == without_prefixes(s@, prefix@),
{
    let mut at: usize = 0;
    assert(s@.skip(0) =~= s@);
    while starts_with(s, at, prefix)
        invariant
            at <= s@.len(),
            prefix@.len() > 0,
            without_prefixes(s@.skip(at as int), prefix@) == without_prefixes(s@, prefix@),
        decreases s@.len() - at,
    {
        assert(s@.skip(at as int).skip(prefix@.len() as int) =~= s@.skip(at + prefix@.len()));
        assert(at + prefix@.len() <= s.len());
        at = at + prefix.len();
    }
    at
}

/// Where the first `c` between `lo` and `hi` stands; `hi` where there is none.
pub fn find_char(s: &Vec<char>, lo: usize, hi: usize, c: char) -> (at: usize)
    requires
        lo <= hi <= s@.len(),
    ensures
        lo <= at <= hi,
        s@.subrange(lo as int, at as int) == before_char(s@.subrange(lo as int, hi as int), c),
{
    let ghost whole = before_char(s@.subrange(lo as int, hi as int), c);
    let mut at: usize = lo;
    assert(whole =~= s@.subrange(lo as int, lo as int) + whole);
    while at < hi && s[at] != c
        invariant
            lo <= at <= hi <= s@.len(),
            whole == s@.subrange(lo as int, at as int) + before_char(
                s@.subrange(at as int, hi as int),
                c,
            ),
        decreases hi - at,
    {
        let ghost rest = s@.subrange(at as int, hi as int);
        assert(rest.skip(1) =~= s@.subrange(at + 1, hi as int));
        assert(s@.subrange(lo as int, at as int) + seq![s@[at as int]] =~= s@.subrange(
            lo as int,
            at + 1,
        ));
        assert(s@.subrange(lo as int, at as int) + (seq![s@[at as int]] + before_char(
            rest.skip(1),
            c,
        )) =~= s@.subrange(lo as int, at + 1) + before_char(rest.skip(1), c));
        at = at + 1;
    }
    assert(s@.subrange(lo as int, at as int) + Seq::<char>::empty() =~= s@.subrange(
        lo as int,
        at as int,
    ));
    at
}

/// The text of `s` without any trailing `c`.
pub fn trimmed_end(s: &str, c: char) -> (r: String)
    ensures
        r@ == trim_end(s@, c),
{
    let chars: Vec<char> = to_chars(s);
    let mut hi: usize = chars.len();
    assert(s@.take(s@.len() as int) =~= s@);
    while hi > 0 && chars[hi - 1] == c
        invariant
            hi <= chars@.len(),
            chars@ == s@,
            trim_end(s@.take(hi as int), c) == trim_end(s@, c),
        decreases hi,
    {
        assert(s@.take(hi as int).drop_last() =~= s@.take(hi - 1));
        hi = hi - 1;
    }
    assert(s@.take(hi as int) =~= s@.subrange(0, hi as int));
    from_range(&chars, 0, hi)
}

/// The first `n` characters of `s`.
pub fn leading_chars(s: &str, n: usize) -> (r: String)
    ensures
        r@ == first_chars(s@, n as nat),
{
    let chars: Vec<char> = to_chars(s);
    let hi: usize = if chars.len() < n {
        chars.len()
    } else {
        n
    };
    assert(s@.subrange(0, hi as int) =~= first_chars(s@, n as nat));
    from_range(&chars, 0, hi)
}

/// Two texts with a separator between them.
pub fn joined(a: &str, sep: char, b: &str) -> (r: String)
    ensures
        r@ == a@.push(sep) + b@,
{
    let mut r: String = String::new();
    r.append(a);
    r.push(sep);
    r.append(b);
    assert(r@ =~= a@.push(sep) + b@);
    r
}

/// Whether two texts are the same.
pub fn same_text(a: &str, b: &str) -> (r: bool)
    ensures
        r == (a@ == b@),
{
    let x: Vec<char> = to_chars(a);
    let y: Vec<char> = to_chars(b);
    if x.len() != y.len() {
        return false;
    }
    let r: bool = starts_with(&x, 0, &y);
    assert(x@.skip(0) =~= x@);
    assert(x@.subrange(0, y@.len() as int) =~= x@);
    r
}

/// The decimal rendering of a number reads back as that number, so no two
/// numbers are rendered alike.
pub proof fn law_decimal_reads_back(n: nat)
    ensures
        unsigned_text(decimal(n)) == Some(n),
{
    lemma_decimal_digits(n);
    assert(is_digit(decimal(n)[0]));
    assert(without_plus(decimal(n)) == decimal(n));
}

proof fn lemma_decimal_digits(n: nat)
    ensures
        decimal(n).len() > 0,
        forall|i: int| 0 <= i < decimal(n).len() ==> is_digit(#[trigger] decimal(n)[i]),
        digits_value(decimal(n)) == n,
    decreases n,
{
    if n < 10 {
        assert(decimal(n).drop_last() =~= Seq::empty());
        assert(digits_value(decimal(n).drop_last()) == 0);
        assert(decimal(n).last() == digit_char(n));
    } else {
        lemma_decimal_digits(n / 10);
        assert(decimal(n).drop_last() =~= decimal(n / 10));
        assert(decimal(n).last() == digit_char(n % 10));
    }
}

/// The decimal rendering of a number is its digits: the `k`-th from the right
/// stands for the tens of that order, and there is no zero in front.
pub proof fn law_decimal_shows_the_digits(n: nat, k: nat)
    ensures
        decimal(n).len() > 0,
        n < vstd::arithmetic::power::pow(10, decimal(n).len()),
        decimal(n).len() > 1 ==> n >= vstd::arithmetic::power::pow(
            10,
            (decimal(n).len() - 1) as nat,
        ),
        k < decimal(n).len() ==> decimal(n)[decimal(n).len() - 1 - k] as int == '0' as int + (
        n as int / vstd::arithmetic::power::pow(10, k)) % 10,
    decreases n,
{
    reveal(vstd::arithmetic::power::pow);
    assert(vstd::arithmetic::power::pow(10, 0) == 1);
    if n < 10 {
        assert(vstd::arithmetic::power::pow(10, 1) == 10 * vstd::arithmetic::power::pow(10, 0));
        if k == 0 {
            assert(n as int / 1 == n as int);
        }
    } else {
        let m = n / 10;
        let len = decimal(m).len();
        assert(decimal(n).len() == len + 1);
        law_decimal_shows_the_digits(m, if k > 0 {
            (k - 1) as nat
        } else {
            0
        });
        assert(vstd::arithmetic::power::pow(10, len + 1) == 10 * vstd::arithmetic::power::pow(
            10,
            len,
        ));
        assert(len >= 1);
        assert(vstd::arithmetic::power::pow(10, len) == 10 * vstd::arithmetic::power::pow(
            10,
            (len - 1) as nat,
        ));
        if k == 0 {
            assert(n as int / 1 == n as int);
        } else if k < decimal(n).len() {
            let e = (k - 1) as nat;
            let p = vstd::arithmetic::power::pow(10, e);
            vstd::arithmetic::power::lemma_pow_positive(10, e);
            assert(vstd::arithmetic::power::pow(10, k) == 10 * p);
            vstd::arithmetic::div_mod::lemma_div_denominator(n as int, 10, p);
            assert(decimal(n)[decimal(n).len() - 1 - k] == decimal(m)[len - 1 - e]);
        }
    }
}

/// A negative number is a minus sign and the rendering of its magnitude; any
/// other is rendered as it is.
pub proof fn law_signed_decimal_has_its_sign(n: nat)
    ensures
        signed_decimal(n as int) == decimal(n),
        n > 0 ==> signed_decimal(-(n as int)) == seq!['-'] + decimal(n),
{
}

/// How a number text is read, letter by letter: one digit is its value, a digit
/// behind a number adds to ten times that number, a plus sign may stand in
/// front, and anything else makes it no number.
pub proof fn law_number_text_is_read_digit_by_digit(s: Seq<char>, c: char)
    ensures
        unsigned_text(Seq::empty()) is None,
        unsigned_text(seq!['+']) is None,
        '0' <= c <= '9' ==> unsigned_text(seq![c]) == Some((c as int - '0' as int) as nat),
        '0' <= c <= '9' ==> (unsigned_text(s) matches Some(v) ==> unsigned_text(s.push(c)) == Some(
            v * 10 + (c as int - '0' as int) as nat,
        )),
        !('0' <= c <= '9') && s.len() > 0 ==> unsigned_text(s.push(c)) is None,
        s.len() > 0 && s[0] != '+' ==> unsigned_text(seq!['+'] + s) == unsigned_text(s),
        s.len() > 0 && s[0] == '+' ==> unsigned_text(seq!['+'] + s) is None,
        !('0' <= c <= '9') && c != '+' ==> unsigned_text(seq![c] + s) is None,
        forall|i: int|
            1 <= i < s.len() && !('0' <= #[trigger] s[i] <= '9') ==> unsigned_text(s) is None,
{
    assert(without_plus(seq!['+']) =~= Seq::empty());
    if '0' <= c <= '9' {
        let one = seq![c];
        assert(without_plus(one) == one);
        assert(one.drop_last() =~= Seq::empty());
        assert(digits_value(one.drop_last()) == 0);
        assert(one.last() == c);
        if unsigned_text(s) is Some {
            let body = without_plus(s);
            let longer = without_plus(s.push(c));
            assert(longer =~= body.push(c));
            assert(longer.drop_last() =~= body);
            assert forall|i: int| 0 <= i < longer.len() implies is_digit(#[trigger] longer[i]) by {
                if i < body.len() {
                    assert(longer[i] == body[i]);
                }
            }
        }
    }
    if !('0' <= c <= '9') && s.len() > 0 {
        let longer = without_plus(s.push(c));
        assert(longer.len() > 0 ==> longer[longer.len() - 1] == c);
    }
    if s.len() > 0 {
        let signed = seq!['+'] + s;
        assert(without_plus(signed) =~= s);
        if s[0] == '+' {
            assert(!is_digit(without_plus(signed)[0]));
        } else {
            assert(without_plus(s) == s);
        }
    }
    if !('0' <= c <= '9') && c != '+' {
        let t = seq![c] + s;
        assert(without_plus(t) == t);
        assert(!is_digit(t[0]));
    }
    assert forall|i: int| 1 <= i < s.len() && !('0' <= #[trigger] s[i] <= '9') implies unsigned_text(
        s,
    ) is None by {
        let body = without_plus(s);
        if s[0] == '+' {
            assert(body[i - 1] == s[i]);
        } else {
            assert(body[i] == s[i]);
        }
    }
}

/// A text occurs in another exactly where that is it with something before and
/// something after.
pub proof fn law_text_occurs_between_others(needle: Seq<char>, hay: Seq<char>)
    ensures
        occurs_in(needle, hay) <==> exists|before: Seq<char>, after: Seq<char>| #[trigger]
            (before + needle + after) == hay,
{
    if occurs_in(needle, hay) {
        let i = choose|i: int|
            0 <= i <= hay.len() - needle.len() && #[trigger] hay.subrange(i, i + needle.len())
                == needle;
        let before = hay.subrange(0, i);
        let after = hay.subrange(i + needle.len(), hay.len() as int);
        assert(before + hay.subrange(i, i + needle.len()) + after =~= hay);
        assert(before + needle + after == hay);
    }
    if exists|before: Seq<char>, after: Seq<char>| #[trigger] (before + needle + after) == hay {
        let (before, after) = choose|before: Seq<char>, after: Seq<char>| #[trigger]
            (before + needle + after) == hay;
        let i = before.len() as int;
        assert(hay.subrange(i, i + needle.len()) =~= needle);
    }
}

/// Every leading copy of a prefix is taken away, and nothing more.
pub proof fn law_leading_copies_are_taken_away(s: Seq<char>, prefix: Seq<char>)
    requires
        prefix.len() > 0,
    ensures
        without_prefixes(prefix + s, prefix) == without_prefixes(s, prefix),
        !prefix.is_prefix_of(s) ==> without_prefixes(s, prefix) == s,
{
    assert((prefix + s).subrange(0, prefix.len() as int) =~= prefix);
    assert((prefix + s).skip(prefix.len() as int) =~= s);
}

/// What stands before a character is the longest beginning without it.
pub proof fn law_cut_is_before_the_first(s: Seq<char>, c: char)
    ensures
        before_char(s, c).len() <= s.len(),
        before_char(s, c) == s.take(before_char(s, c).len() as int),
        !before_char(s, c).contains(c),
        before_char(s, c).len() < s.len() ==> s[before_char(s, c).len() as int] == c,
    decreases s.len(),
{
    if s.len() > 0 && s[0] != c {
        let rest = s.skip(1);
        let cut = before_char(rest, c);
        law_cut_is_before_the_first(rest, c);
        assert(before_char(s, c) =~= seq![s[0]] + cut);
        assert(s.take(cut.len() as int + 1) =~= seq![s[0]] + rest.take(cut.len() as int));
        if before_char(s, c).contains(c) {
            let i = choose|i: int| 0 <= i < before_char(s, c).len() && before_char(s, c)[i] == c;
            assert(cut[i - 1] == c);
        }
    } else {
        assert(before_char(s, c) =~= s.take(0));
    }
}

/// Every such character at the end is taken away, and nothing more.
pub proof fn law_trailing_copies_are_taken_away(s: Seq<char>, c: char)
    ensures
        trim_end(s.push(c), c) == trim_end(s, c),
        s.len() == 0 || s.last() != c ==> trim_end(s, c) == s,
{
    assert(s.push(c).drop_last() =~= s);
}

/// The first characters of a text are as many as asked for, or all of them.
pub proof fn law_first_chars_are_a_beginning(s: Seq<char>, n: nat)
    ensures
        first_chars(s, n).len() == if s.len() <= n {
            s.len()
        } else {
            n
        },
        forall|i: int|
            0 <= i < first_chars(s, n).len() ==> #[trigger] first_chars(s, n)[i] == s[i],
{
}

/// A number text is read exactly where it stands for a number up to the limit,
/// and is read as that number.
pub proof fn law_numbers_are_read_up_to_the_limit(s: &str, max: u128, r: Option<u128>, n: nat)
    requires
        call_ensures(parse_unsigned, (s, max), r),
    ensures
        unsigned_text(s@) == Some(n) && n <= max ==> r == Some(n as u128),
        unsigned_text(s@) == Some(n) && n > max ==> r is None,
        unsigned_text(s@) is None ==> r is None,
{
}

/// Two texts are the same exactly where they agree in every character; a text
/// put together holds both parts with the separator between them.
pub proof fn law_texts_are_compared_and_joined(
    a: &str,
    sep: char,
    b: &str,
    same: bool,
    both: String,
    i: int,
)
    requires
        call_ensures(same_text, (a, b), same),
        call_ensures(joined, (a, sep, b), both),
    ensures
        same ==> a@.len() == b@.len() && (0 <= i < a@.len() ==> a@[i] == b@[i]),
        a@ =~= b@ ==> same,
        both@.len() == a@.len() + 1 + b@.len(),
        0 <= i < a@.len() ==> both@[i] == a@[i],
        both@[a@.len() as int] == sep,
        0 <= i < b@.len() ==> both@[a@.len() + 1 + i] == b@[i],
{
}

}
