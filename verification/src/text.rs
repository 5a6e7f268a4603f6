//! Textual rendering helpers: digits, decimal numerals, and the check
//! that a numeral names a finite decimal number.

use vstd::prelude::*;

verus! {

/// The character for one digit value below sixteen.
pub open spec fn digit_char(d: int) -> char {
    if d == 0 {
        '0'
    } else if d == 1 {
        '1'
    } else if d == 2 {
        '2'
    } else if d == 3 {
        '3'
    } else if d == 4 {
        '4'
    } else if d == 5 {
        '5'
    } else if d == 6 {
        '6'
    } else if d == 7 {
        '7'
    } else if d == 8 {
        '8'
    } else if d == 9 {
        '9'
    } else if d == 10 {
        'a'
    } else if d == 11 {
        'b'
    } else if d == 12 {
        'c'
    } else if d == 13 {
        'd'
    } else if d == 14 {
        'e'
    } else {
        'f'
    }
}

/// Digit characters of distinct values are distinct.
pub proof fn lemma_digit_char_injective(d1: int, d2: int)
    requires
        0 <= d1 < 16,
        0 <= d2 < 16,
        digit_char(d1) == digit_char(d2),
    ensures
        d1 == d2,
{
}

pub(crate) fn digit_str(d: u8) -> (r: &'static str)
    requires
        d < 16,
    ensures
        r@ == seq![digit_char(d as int)],
{
    let r: &'static str = match d {
        0 => "0",
        1 => "1",
        2 => "2",
        3 => "3",
        4 => "4",
        5 => "5",
        6 => "6",
        7 => "7",
        8 => "8",
        9 => "9",
        10 => "a",
        11 => "b",
        12 => "c",
        13 => "d",
        14 => "e",
        _ => "f",
    };
    proof {
        reveal_strlit("0");
        reveal_strlit("1");
        reveal_strlit("2");
        reveal_strlit("3");
        reveal_strlit("4");
        reveal_strlit("5");
        reveal_strlit("6");
        reveal_strlit("7");
        reveal_strlit("8");
        reveal_strlit("9");
        reveal_strlit("a");
        reveal_strlit("b");
        reveal_strlit("c");
        reveal_strlit("d");
        reveal_strlit("e");
        reveal_strlit("f");
        assert(r@ =~= seq![digit_char(d as int)]);
    }
    r
}

/// The decimal numeral of a natural number, most significant digit first.
pub open spec fn spec_decimal(n: nat) -> Seq<char>
    decreases n,
{
    if n < 10 {
        seq![digit_char(n as int)]
    } else {
        spec_decimal(n / 10) + seq![digit_char((n % 10) as int)]
    }
}

/// Renders a number as its decimal numeral.
pub fn decimal_string(n: u32) -> (r: String)
    ensures
        r@ == spec_decimal(n as nat),
    decreases n,
{
    if n < 10 {
        String::from_str(digit_str(n as u8))
    } else {
        let mut s = decimal_string(n / 10);
        s.append(digit_str((n % 10) as u8));
        s
    }
}

/// Appends the decimal numeral of `n` to `s`.
pub fn append_decimal(s: &mut String, n: u32)
    ensures
        final(s)@ == old(s)@ + spec_decimal(n as nat),
{
    let d = decimal_string(n);
    s.append(d.as_str());
}

/// The concatenation of `f` applied to every element of `s`, in order.
pub open spec fn concat_map<A, B>(s: Seq<A>, f: spec_fn(A) -> Seq<B>) -> Seq<B>
    decreases s.len(),
{
    if s.len() == 0 {
        Seq::empty()
    } else {
        f(s[0]) + concat_map(s.drop_first(), f)
    }
}

/// Mapped concatenation distributes over sequence concatenation.
pub proof fn lemma_concat_map_append<A, B>(a: Seq<A>, b: Seq<A>, f: spec_fn(A) -> Seq<B>)
    ensures
        concat_map(a + b, f) == concat_map(a, f) + concat_map(b, f),
    decreases a.len(),
{
    if a.len() == 0 {
        assert(a + b =~= b);
        assert(concat_map(a, f) + concat_map(b, f) =~= concat_map(b, f));
    } else {
        lemma_concat_map_append(a.drop_first(), b, f);
        assert((a + b).drop_first() =~= a.drop_first() + b);
        assert(f(a[0]) + (concat_map(a.drop_first(), f) + concat_map(b, f)) =~= (f(a[0])
            + concat_map(a.drop_first(), f)) + concat_map(b, f));
    }
}

/// Taking one more element extends the mapped concatenation by `f(s[i])`.
pub proof fn lemma_concat_map_take_step<A, B>(s: Seq<A>, f: spec_fn(A) -> Seq<B>, i: int)
    requires
        0 <= i < s.len(),
    ensures
        concat_map(s.subrange(0, i + 1), f) == concat_map(s.subrange(0, i), f) + f(s[i]),
{
    lemma_concat_map_append(s.subrange(0, i), seq![s[i]], f);
    assert(s.subrange(0, i) + seq![s[i]] =~= s.subrange(0, i + 1));
    assert(seq![s[i]].drop_first() =~= Seq::<A>::empty());
    assert(concat_map(seq![s[i]], f) =~= f(s[i])) by {
        reveal_with_fuel(concat_map, 2);
    }
}

/// Whether `c` is a decimal digit character (`'0'` to `'9'`, code points 48 to 57).
pub open spec fn is_digit(c: char) -> bool {
    48 <= c as int <= 57
}

/// A non-empty run of decimal digit characters.
pub open spec fn all_digits(s: Seq<char>) -> bool {
    s.len() > 0 && (forall|i: int| 0 <= i < s.len() ==> is_digit(#[trigger] s[i]))
}

/// The numeral without its leading minus sign, if it has one.
pub open spec fn decimal_body(s: Seq<char>) -> Seq<char> {
    if s.len() > 0 && s[0] == '-' {
        s.drop_first()
    } else {
        s
    }
}

/// Whether `body` splits at position `k` into digits, a dot, and digits.
pub open spec fn splits_at_dot(body: Seq<char>, k: int) -> bool {
    0 <= k < body.len() && body[k] == '.' && all_digits(body.subrange(0, k)) && all_digits(
        body.subrange(k + 1, body.len() as int),
    )
}

/// Whether `s` is the numeral of a finite decimal number: an optional
/// leading minus sign, then digits, then optionally a dot followed by
/// more digits.  The textual forms of infinities and of not-a-number
/// values contain letters and are rejected.
pub open spec fn is_finite_decimal(s: Seq<char>) -> bool {
    all_digits(decimal_body(s)) || (exists|k: int| splits_at_dot(decimal_body(s), k))
}

fn exec_is_digit(c: char) -> (r: bool)
    ensures
        r == is_digit(c),
{
    let code = c as u32;
    48 <= code && code <= 57
}

fn check_all_digits(s: &str, from: usize, to: usize) -> (r: bool)
    requires
        from <= to <= s@.len(),
    ensures
        r == all_digits(s@.subrange(from as int, to as int)),
{
    let ghost sub = s@.subrange(from as int, to as int);
    if from == to {
        return false;
    }
    let mut i = from;
    while i < to
        invariant
            from <= i <= to <= s@.len(),
            sub == s@.subrange(from as int, to as int),
            forall|j: int| from <= j < i ==> is_digit(#[trigger] s@[j]),
        decreases to - i,
    {
        let c = s.get_char(i);
        if !exec_is_digit(c) {
            assert(!is_digit(sub[i - from]));
            return false;
        }
        i += 1;
    }
    assert forall|j: int| 0 <= j < sub.len() implies is_digit(#[trigger] sub[j]) by {
        assert(sub[j] == s@[from + j]);
    }
    true
}

/// Decides whether `s` is the numeral of a finite decimal number.
pub fn str_is_finite_decimal(s: &str) -> (r: bool)
    ensures
        r == is_finite_decimal(s@),
{
    let len = s.unicode_len();
    let start: usize = if len > 0 && s.get_char(0) == '-' {
        1
    } else {
        0
    };
    let ghost body = decimal_body(s@);
    assert(body =~= s@.subrange(start as int, len as int));

    // Find the first dot, if any.
    let mut dot: usize = len;
    let mut i = start;
    while i < len && dot == len
        invariant
            start <= i <= len,
            len == s@.len(),
            dot == len || (start <= dot < len && s@[dot as int] == '.' && i == dot),
            forall|j: int| start <= j < i ==> s@[j] != '.',
        decreases len - i + (if dot == len { 1int } else { 0int }),
    {
        if s.get_char(i) == '.' {
            dot = i;
        } else {
            i += 1;
        }
    }
    assert(dot == len ==> forall|j: int| start <= j < len ==> s@[j] != '.');

    if dot == len {
        // No dot: the body must be all digits.
        let r = check_all_digits(s, start, len);
        proof {
            if !r {
                assert forall|k: int| !(#[trigger] splits_at_dot(body, k)) by {
                    if 0 <= k < body.len() {
                        assert(body[k] == s@[start + k]);
                    }
                }
            }
        }
        r
    } else {
        let ghost kd = dot - start;
        assert(body[kd] == '.');
        let before = check_all_digits(s, start, dot);
        if !before {
            proof {
                assert forall|k: int| !(#[trigger] splits_at_dot(body, k)) by {
                    if 0 <= k < body.len() && body[k] == '.' {
                        assert(s@[start + k] == '.');
                        // No dot stands before `dot`, so any dot in the body
                        // is at `kd` or later.
                        assert(k >= kd);
                        if k == kd {
                            assert(body.subrange(0, k) =~= s@.subrange(
                                start as int,
                                dot as int,
                            ));
                        } else {
                            // The digits before the dot at `k` would include
                            // the dot at `kd`, which is not a digit.
                            assert(body.subrange(0, k)[kd] == '.');
                            assert(!is_digit(body.subrange(0, k)[kd]));
                        }
                    }
                }
                assert(!all_digits(body)) by {
                    assert(body[kd] == '.');
                    assert(!is_digit(body[kd]));
                }
            }
            return false;
        }
        let after = check_all_digits(s, dot + 1, len);
        proof {
            assert(body.subrange(0, kd) =~= s@.subrange(start as int, dot as int));
            assert(body.subrange(kd + 1, body.len() as int) =~= s@.subrange(
                dot + 1,
                len as int,
            ));
            if after {
                assert(splits_at_dot(body, kd));
            } else {
                assert forall|k: int| !(#[trigger] splits_at_dot(body, k)) by {
                    if 0 <= k < body.len() && body[k] == '.' {
                        assert(s@[start + k] == '.');
                        assert(k >= kd);
                        if k > kd {
                            assert(body.subrange(0, k)[kd] == '.');
                            assert(!is_digit(body.subrange(0, k)[kd]));
                        }
                    }
                }
                assert(!all_digits(body)) by {
                    assert(!is_digit(body[kd]));
                }
            }
        }
        after
    }
}

} // verus!
