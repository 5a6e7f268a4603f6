//! RGB colours with a canonical, injective textual name.

use vstd::prelude::*;

use crate::lines::{line_at_root, LatexLine, LineModel};
use crate::text::{digit_char, digit_str, spec_decimal, append_decimal};

verus! {

/// An immutable RGB triple.  Its canonical name is a hex digest of the
/// components, so equal components give the identical name and distinct
/// components never collide.
#[derive(Debug, Clone, Copy, PartialEq, Eq, PartialOrd, Ord, Hash, Structural)]
pub struct Color {
    pub r: u8,
    pub g: u8,
    pub b: u8,
}

/// The two hex digits of one byte, high digit first.
pub open spec fn spec_hex_byte(n: u8) -> Seq<char> {
    seq![digit_char(n as int / 16), digit_char(n as int % 16)]
}

/// The canonical name of a colour: `0x` then six hex digits.
pub open spec fn spec_color_name(c: Color) -> Seq<char> {
    "0x"@ + spec_hex_byte(c.r) + spec_hex_byte(c.g) + spec_hex_byte(c.b)
}

/// The resource-declaration line of a colour.
pub open spec fn spec_color_definition(c: Color) -> Seq<char> {
    "\\definecolor{"@ + spec_color_name(c) + "}{RGB}{"@ + spec_decimal(c.r as nat) + ", "@
        + spec_decimal(c.g as nat) + ", "@ + spec_decimal(c.b as nat) + "}"@
}

impl Color {
    /// The canonical textual name of this colour.
    pub fn name(&self) -> (r: String)
        ensures
            r@ == spec_color_name(*self),
    {
        let mut s = String::from_str("0x");
        self.append_hex_byte(&mut s, self.r);
        self.append_hex_byte(&mut s, self.g);
        self.append_hex_byte(&mut s, self.b);
        proof {
            assert(s@ =~= spec_color_name(*self));
        }
        s
    }

    fn append_hex_byte(&self, s: &mut String, n: u8)
        ensures
            final(s)@ == old(s)@ + spec_hex_byte(n),
    {
        s.append(digit_str(n / 16));
        s.append(digit_str(n % 16));
        proof {
            assert(s@ =~= old(s)@ + spec_hex_byte(n));
        }
    }

    /// The declaration line that makes this colour's name known to the
    /// renderer, at indentation zero.
    pub fn get_color_definitions(&self) -> (r: LatexLine)
        ensures
            r@ == line_at_root(spec_color_definition(*self)),
    {
        let mut s = String::from_str("\\definecolor{");
        let name = self.name();
        s.append(name.as_str());
        s.append("}{RGB}{");
        append_decimal(&mut s, self.r as u32);
        s.append(", ");
        append_decimal(&mut s, self.g as u32);
        s.append(", ");
        append_decimal(&mut s, self.b as u32);
        s.append("}");
        proof {
            assert(s@ =~= spec_color_definition(*self));
        }
        LatexLine::new(s)
    }
}

/// Folds the colours of `s` onto `acc`, keeping only the first
/// occurrence of each colour.
pub open spec fn dedup_from(acc: Seq<Color>, s: Seq<Color>) -> Seq<Color>
    decreases s.len(),
{
    if s.len() == 0 {
        acc
    } else {
        dedup_from(
            if acc.contains(s[0]) {
                acc
            } else {
                acc.push(s[0])
            },
            s.drop_first(),
        )
    }
}

/// The distinct colours of `s`, each at its first occurrence.
pub open spec fn dedup_colors(s: Seq<Color>) -> Seq<Color> {
    dedup_from(Seq::empty(), s)
}

/// Deduplicating a concatenation folds the parts in order.
pub proof fn lemma_dedup_from_append(acc: Seq<Color>, a: Seq<Color>, b: Seq<Color>)
    ensures
        dedup_from(acc, a + b) == dedup_from(dedup_from(acc, a), b),
    decreases a.len(),
{
    if a.len() == 0 {
        assert(a + b =~= b);
    } else {
        let acc2 = if acc.contains(a[0]) {
            acc
        } else {
            acc.push(a[0])
        };
        assert((a + b)[0] == a[0]);
        assert((a + b).drop_first() =~= a.drop_first() + b);
        lemma_dedup_from_append(acc2, a.drop_first(), b);
    }
}

/// Deduplication yields no duplicates, and keeps exactly the colours
/// of the accumulator and the input.
pub proof fn lemma_dedup_from_props(acc: Seq<Color>, s: Seq<Color>)
    requires
        acc.no_duplicates(),
    ensures
        dedup_from(acc, s).no_duplicates(),
        forall|c: Color| #[trigger]
            dedup_from(acc, s).contains(c) <==> (acc.contains(c) || s.contains(c)),
    decreases s.len(),
{
    if s.len() == 0 {
        assert forall|c: Color| #[trigger]
            dedup_from(acc, s).contains(c) <==> (acc.contains(c) || s.contains(c)) by {
            if s.contains(c) {
                let i = choose|i: int| 0 <= i < s.len() && s[i] == c;
            }
        }
    } else {
        let x = s[0];
        let acc2 = if acc.contains(x) {
            acc
        } else {
            acc.push(x)
        };
        assert(acc2.no_duplicates()) by {
            if !acc.contains(x) {
                assert forall|i: int, j: int|
                    0 <= i < acc2.len() && 0 <= j < acc2.len() && i != j implies acc2[i]
                    != acc2[j] by {
                    if i < acc.len() && j < acc.len() {
                        assert(acc[i] == acc2[i] && acc[j] == acc2[j]);
                    } else if j == acc.len() {
                        assert(acc2[j] == x);
                        assert(acc.contains(acc[i]));
                    } else {
                        assert(acc2[i] == x);
                        assert(acc.contains(acc[j]));
                    }
                }
            }
        }
        lemma_dedup_from_props(acc2, s.drop_first());
        assert forall|c: Color| #[trigger]
            dedup_from(acc, s).contains(c) <==> (acc.contains(c) || s.contains(c)) by {
            assert(dedup_from(acc, s) == dedup_from(acc2, s.drop_first()));
            assert(acc2.contains(c) <==> (acc.contains(c) || c == x)) by {
                if acc.contains(c) {
                    let i = choose|i: int| 0 <= i < acc.len() && acc[i] == c;
                    assert(acc2[i] == c);
                }
                if c == x && !acc.contains(x) {
                    assert(acc2[acc.len() as int] == c);
                }
                if acc2.contains(c) && !acc.contains(c) {
                    let i = choose|i: int| 0 <= i < acc2.len() && acc2[i] == c;
                    if i < acc.len() {
                        assert(acc[i] == c);
                    }
                }
            }
            assert(s.contains(c) <==> (c == x || s.drop_first().contains(c))) by {
                if s.contains(c) && c != x {
                    let i = choose|i: int| 0 <= i < s.len() && s[i] == c;
                    assert(s.drop_first()[i - 1] == c);
                }
                if s.drop_first().contains(c) {
                    let i = choose|i: int| 0 <= i < s.drop_first().len() && s.drop_first()[i]
                        == c;
                    assert(s[i + 1] == c);
                }
                if c == x {
                    assert(s[0] == c);
                }
            }
        }
    }
}

/// Whether the vector holds the colour.
pub fn color_vec_contains(v: &Vec<Color>, c: Color) -> (r: bool)
    ensures
        r == v@.contains(c),
{
    let n = v.len();
    let mut i: usize = 0;
    while i < n
        invariant
            0 <= i <= n,
            n == v@.len(),
            forall|j: int| 0 <= j < i ==> v@[j] != c,
        decreases n - i,
    {
        if v[i].r == c.r && v[i].g == c.g && v[i].b == c.b {
            proof {
                assert(v@[i as int] == c);
            }
            return true;
        }
        i += 1;
    }
    proof {
        if v@.contains(c) {
            let j = choose|j: int| 0 <= j < v@.len() && v@[j] == c;
        }
    }
    false
}

/// Two colours have the same canonical name exactly when their
/// components are equal: the name is injective.
pub proof fn lemma_color_name_injective(c1: Color, c2: Color)
    ensures
        (spec_color_name(c1) == spec_color_name(c2)) <==> (c1.r == c2.r && c1.g == c2.g && c1.b
            == c2.b),
{
    reveal_strlit("0x");
    if spec_color_name(c1) == spec_color_name(c2) {
        let n1 = spec_color_name(c1);
        let n2 = spec_color_name(c2);
        assert(n1[2] == digit_char(c1.r as int / 16));
        assert(n1[3] == digit_char(c1.r as int % 16));
        assert(n1[4] == digit_char(c1.g as int / 16));
        assert(n1[5] == digit_char(c1.g as int % 16));
        assert(n1[6] == digit_char(c1.b as int / 16));
        assert(n1[7] == digit_char(c1.b as int % 16));
        assert(n2[2] == digit_char(c2.r as int / 16));
        assert(n2[3] == digit_char(c2.r as int % 16));
        assert(n2[4] == digit_char(c2.g as int / 16));
        assert(n2[5] == digit_char(c2.g as int % 16));
        assert(n2[6] == digit_char(c2.b as int / 16));
        assert(n2[7] == digit_char(c2.b as int % 16));
        lemma_hex_digits_determine_byte(c1.r, c2.r);
        lemma_hex_digits_determine_byte(c1.g, c2.g);
        lemma_hex_digits_determine_byte(c1.b, c2.b);
    } else {
        assert(c1.r == c2.r && c1.g == c2.g && c1.b == c2.b ==> spec_color_name(c1)
            == spec_color_name(c2));
    }
}

proof fn lemma_hex_digits_determine_byte(a: u8, b: u8)
    requires
        digit_char(a as int / 16) == digit_char(b as int / 16),
        digit_char(a as int % 16) == digit_char(b as int % 16),
    ensures
        a == b,
{
    crate::text::lemma_digit_char_injective(a as int / 16, b as int / 16);
    crate::text::lemma_digit_char_injective(a as int % 16, b as int % 16);
}

} // verus!
