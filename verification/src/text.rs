//! Characters, whitespace and whitespace-delimited tokens.
//!
//! Text is modelled as `Seq<char>`. A token is a maximal run of characters
//! that are not whitespace.

use vstd::prelude::*;

verus! {

/// Whether `c` carries Unicode's `White_Space` property.
pub open spec fn is_whitespace(c: char) -> bool {
    let u = c as u32;
    ||| 0x09 <= u <= 0x0D
    ||| u == 0x20
    ||| u == 0x85
    ||| u == 0xA0
    ||| u == 0x1680
    ||| 0x2000 <= u <= 0x200A
    ||| u == 0x2028
    ||| u == 0x2029
    ||| u == 0x202F
    ||| u == 0x205F
    ||| u == 0x3000
}

/// The length of the longest prefix of `s` that holds no whitespace.
pub open spec fn token_len(s: Seq<char>) -> nat
    decreases s.len(),
{
    if s.len() == 0 || is_whitespace(s[0]) {
        0
    } else {
        1 + token_len(s.skip(1))
    }
}

/// The tokens of `s`: its maximal runs of non-whitespace characters, in order.
pub open spec fn tokens(s: Seq<char>) -> Seq<Seq<char>>
    decreases s.len(),
{
    if s.len() == 0 {
        Seq::empty()
    } else if is_whitespace(s[0]) {
        tokens(s.skip(1))
    } else {
        let n = token_len(s) as int;
        proof {
            lemma_token_len(s);
        }
        seq![s.take(n)] + tokens(s.skip(n))
    }
}

/// `token_len(s)` is the one position that ends a whitespace-free prefix of
/// `s` and is either the end of `s` or the place of a whitespace character.
pub proof fn lemma_token_len(s: Seq<char>)
    ensures
        token_len(s) <= s.len(),
        forall|i: int| 0 <= i < token_len(s) ==> !is_whitespace(#[trigger] s[i]),
        token_len(s) < s.len() ==> is_whitespace(s[token_len(s) as int]),
        s.len() > 0 && !is_whitespace(s[0]) ==> token_len(s) > 0,
    decreases s.len(),
{
    if s.len() > 0 && !is_whitespace(s[0]) {
        let rest = s.skip(1);
        lemma_token_len(rest);
        assert forall|i: int| 0 <= i < token_len(s) implies !is_whitespace(#[trigger] s[i]) by {
            if i > 0 {
                assert(s[i] == rest[i - 1]);
            }
        }
    }
}

/// A position that ends a whitespace-free prefix of `s`, and is the end of `s`
/// or the place of a whitespace character, is `token_len(s)`.
pub proof fn lemma_token_len_unique(s: Seq<char>, n: int)
    requires
        0 <= n <= s.len(),
        forall|i: int| 0 <= i < n ==> !is_whitespace(#[trigger] s[i]),
        n < s.len() ==> is_whitespace(s[n]),
    ensures
        token_len(s) == n,
{
    lemma_token_len(s);
}

/// Whether `t` is a word: at least one character, and no whitespace.
pub open spec fn is_word(t: Seq<char>) -> bool {
    t.len() > 0 && forall|i: int| 0 <= i < t.len() ==> !is_whitespace(#[trigger] t[i])
}

/// Each token is a word.
pub proof fn lemma_tokens_are_words(s: Seq<char>)
    ensures
        forall|k: int| 0 <= k < tokens(s).len() ==> is_word(#[trigger] tokens(s)[k]),
    decreases s.len(),
{
    if s.len() > 0 {
        if is_whitespace(s[0]) {
            lemma_tokens_are_words(s.skip(1));
            assert(tokens(s) == tokens(s.skip(1)));
        } else {
            let n = token_len(s) as int;
            lemma_token_len(s);
            lemma_tokens_are_words(s.skip(n));
            assert forall|k: int| 0 <= k < tokens(s).len() implies is_word(
                #[trigger] tokens(s)[k],
            ) by {
                if k > 0 {
                    assert(tokens(s)[k] == tokens(s.skip(n))[k - 1]);
                }
            }
        }
    }
}

/// Text on both sides of one whitespace character is split on each side by
/// itself: the tokens of the whole are those of the left, then those of the
/// right.
pub proof fn lemma_tokens_concat(left: Seq<char>, separator: char, right: Seq<char>)
    requires
        is_whitespace(separator),
    ensures
        tokens(left + seq![separator] + right) == tokens(left) + tokens(right),
    decreases left.len(),
{
    let whole = left + seq![separator] + right;
    if left.len() == 0 {
        assert(whole.skip(1) =~= right);
    } else if is_whitespace(left[0]) {
        assert(whole.skip(1) =~= left.skip(1) + seq![separator] + right);
        lemma_tokens_concat(left.skip(1), separator, right);
    } else {
        let n = token_len(left) as int;
        lemma_token_len(left);
        assert forall|i: int| 0 <= i < n implies !is_whitespace(#[trigger] whole[i]) by {
            assert(whole[i] == left[i]);
        }
        assert(n < left.len() ==> whole[n] == left[n]);
        lemma_token_len_unique(whole, n);
        assert(whole.take(n) =~= left.take(n));
        assert(whole.skip(n) =~= left.skip(n) + seq![separator] + right);
        lemma_tokens_concat(left.skip(n), separator, right);
    }
}

/// Whitespace before and behind a text adds no token and takes none away.
pub proof fn lemma_tokens_padded(before: Seq<char>, s: Seq<char>, behind: Seq<char>)
    requires
        forall|i: int| 0 <= i < before.len() ==> is_whitespace(#[trigger] before[i]),
        forall|i: int| 0 <= i < behind.len() ==> is_whitespace(#[trigger] behind[i]),
    ensures
        tokens(before + s + behind) == tokens(s),
    decreases before.len() + behind.len(),
{
    let whole = before + s + behind;
    if before.len() > 0 {
        assert(whole.skip(1) =~= before.skip(1) + s + behind);
        assert forall|i: int| 0 <= i < before.skip(1).len() implies is_whitespace(
            #[trigger] before.skip(1)[i],
        ) by {
            assert(before.skip(1)[i] == before[i + 1]);
        }
        lemma_tokens_padded(before.skip(1), s, behind);
    } else if behind.len() > 0 {
        let shorter = behind.drop_last();
        assert(whole =~= (before + s + shorter) + seq![behind.last()] + Seq::<char>::empty());
        lemma_tokens_concat(before + s + shorter, behind.last(), Seq::empty());
        assert forall|i: int| 0 <= i < shorter.len() implies is_whitespace(
            #[trigger] shorter[i],
        ) by {
            assert(shorter[i] == behind[i]);
        }
        lemma_tokens_padded(before, s, shorter);
    } else {
        assert(whole =~= s);
    }
}

/// Tells whether `c` is a whitespace character.
pub fn char_is_whitespace(c: char) -> (r: bool)
    ensures
        r == is_whitespace(c),
{
    let u: u32 = c as u32;
    (0x09 <= u && u <= 0x0D) || u == 0x20 || u == 0x85 || u == 0xA0 || u == 0x1680 || (0x2000 <= u
        && u <= 0x200A) || u == 0x2028 || u == 0x2029 || u == 0x202F || u == 0x205F || u == 0x3000
}

/// The characters of `s`, in order.
pub fn chars_of(s: &str) -> (v: Vec<char>)
    ensures
        v@ == s@,
{
    let mut v: Vec<char> = Vec::new();
    for c in it: s.chars()
        invariant
            it.seq() == s@,
            v@ == it.seq().take(it.index()),
    {
        v.push(c);
    }
    v
}

/// Tells whether `a` and `b` hold the same characters.
pub fn str_eq(a: &str, b: &str) -> (r: bool)
    ensures
        r == (a@ == b@),
{
    let left = chars_of(a);
    let right = chars_of(b);
    if left.len() != right.len() {
        return false;
    }
    let mut i: usize = 0;
    while i < left.len()
        invariant
            i <= left.len(),
            left.len() == right.len(),
            left@ == a@,
            right@ == b@,
            forall|k: int| 0 <= k < i ==> left@[k] == right@[k],
        decreases left.len() - i,
    {
        if left[i] != right[i] {
            return false;
        }
        i += 1;
    }
    assert(a@ =~= b@);
    true
}

/// The end of the token that starts at `from`: the first position at or after
/// `from` that holds whitespace, or the length of `chars`.
pub fn token_end(chars: &Vec<char>, from: usize) -> (end: usize)
    requires
        from <= chars.len(),
    ensures
        from <= end <= chars.len(),
        end - from == token_len(chars@.skip(from as int)),
{
    let mut end: usize = from;
    while end < chars.len() && !char_is_whitespace(chars[end])
        invariant
            from <= end <= chars.len(),
            token_len(chars@.skip(from as int)) == (end - from) + token_len(
                chars@.skip(end as int),
            ),
        decreases chars.len() - end,
    {
        assert(chars@.skip(end as int).skip(1) == chars@.skip(end + 1));
        end += 1;
    }
    end
}

/// Splits `s` at runs of whitespace and returns the tokens between them.
pub fn split_whitespace(s: &str) -> (out: Vec<String>)
    ensures
        out.deep_view() == tokens(s@),
{
    let chars = chars_of(s);
    let mut out: Vec<String> = Vec::new();
    let mut i: usize = 0;
    assert(s@.skip(0) == s@);
    while i < chars.len()
        invariant
            i <= chars.len(),
            chars@ == s@,
            tokens(s@) == out.deep_view() + tokens(s@.skip(i as int)),
        decreases chars.len() - i,
    {
        let ghost rest = s@.skip(i as int);
        let ghost before = out.deep_view();
        if char_is_whitespace(chars[i]) {
            assert(rest.skip(1) == s@.skip(i + 1));
            i += 1;
        } else {
            let end = token_end(&chars, i);
            proof {
                lemma_token_len(rest);
                assert(rest.take(end - i) == s@.subrange(i as int, end as int));
                assert(rest.skip(end - i) == s@.skip(end as int));
            }
            let token = s.substring_char(i, end).to_owned();
            out.push(token);
            assert(before + (seq![rest.take(end - i)] + tokens(s@.skip(end as int)))
                == before.push(rest.take(end - i)) + tokens(s@.skip(end as int)));
            i = end;
        }
    }
    out
}

/// Whether `c` is one of the ten ASCII digits.
pub open spec fn is_digit(c: char) -> bool {
    0x30 <= c as u32 <= 0x39
}

/// The value of the decimal digit `c`.
pub open spec fn digit_value(c: char) -> nat
    recommends
        is_digit(c),
{
    (c as u32 - 0x30) as nat
}

/// The number that `s` writes in decimal digits; none where `s` is empty or
/// holds anything but digits.
pub open spec fn decimal(s: Seq<char>) -> Option<nat>
    decreases s.len(),
{
    if s.len() == 0 || !is_digit(s.last()) {
        None
    } else if s.len() == 1 {
        Some(digit_value(s.last()))
    } else {
        match decimal(s.drop_last()) {
            Some(high) => Some(10 * high + digit_value(s.last())),
            None => None,
        }
    }
}

/// Where `s` writes a number, each of its non-empty prefixes writes one that
/// is no larger, and `s` holds digits only.
pub proof fn lemma_decimal_prefix(s: Seq<char>, n: int)
    requires
        0 < n <= s.len(),
        decimal(s) is Some,
    ensures
        decimal(s.take(n)) is Some,
        decimal(s.take(n))->0 <= decimal(s)->0,
        is_digit(s[n - 1]),
    decreases s.len(),
{
    if n < s.len() {
        assert(s.drop_last().take(n) == s.take(n));
        lemma_decimal_prefix(s.drop_last(), n);
    } else {
        assert(s.take(n) == s);
    }
}

/// Reads `s` as a decimal number of at most `max`.
pub fn parse_bounded(s: &str, max: u64) -> (r: Option<u64>)
    ensures
        r is Some <==> (decimal(s@) matches Some(n) && n <= max),
        r matches Some(n) ==> decimal(s@) == Some(n as nat),
{
    let chars = chars_of(s);
    let mut value: u64 = 0;
    let mut i: usize = 0;
    while i < chars.len()
        invariant
            i <= chars.len(),
            chars@ == s@,
            value <= max,
            i == 0 ==> value == 0,
            i > 0 ==> decimal(s@.take(i as int)) == Some(value as nat),
        decreases chars.len() - i,
    {
        let c = chars[i];
        let code: u32 = c as u32;
        proof {
            if decimal(s@) is Some {
                lemma_decimal_prefix(s@, i + 1);
            }
        }
        if code < 0x30 || code > 0x39 {
            return None;
        }
        let next: u128 = 10 * (value as u128) + (code - 0x30) as u128;
        assert(s@.take(i + 1).drop_last() == s@.take(i as int));
        if next > max as u128 {
            return None;
        }
        value = next as u64;
        i += 1;
    }
    if i == 0 {
        return None;
    }
    assert(s@.take(i as int) == s@);
    Some(value)
}

} // verus!
