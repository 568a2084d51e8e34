//! Text with holes for floats.
//!
//! The library holds a float as the 64 bits of its IEEE-754 encoding and
//! never turns one into decimal digits. What it writes is therefore a sequence
//! of glyphs: characters, and floats that are still to be written out by
//! whoever shows the text.

use vstd::prelude::*;
use vstd::std_specs::iter::IteratorSpec;

verus! {

/// One element of a text: a character, or a float given by its bits.
#[derive(Clone, Copy, PartialEq, Eq, Structural, Debug)]
pub enum Glyph {
    Char(char),
    Float(u64),
}

/// The glyph of a character.
pub open spec fn glyph_of(c: char) -> Glyph {
    Glyph::Char(c)
}

/// The glyphs of plain characters.
pub open spec fn chars(s: Seq<char>) -> Seq<Glyph> {
    s.map_values(|c: char| glyph_of(c))
}

/// The glyphs of `s` with `c` added are the glyphs of `s` with the glyph of `c`
/// added.
pub proof fn lemma_chars_push(s: Seq<char>, c: char)
    ensures
        chars(s.push(c)) == chars(s).push(Glyph::Char(c)),
{
    assert(chars(s.push(c)) =~= chars(s).push(Glyph::Char(c)));
}

/// The glyphs of a concatenation are the concatenation of the glyphs.
pub proof fn lemma_chars_add(a: Seq<char>, b: Seq<char>)
    ensures
        chars(a + b) == chars(a) + chars(b),
{
    assert(chars(a + b) =~= chars(a) + chars(b));
}

/// A text holds no float.
pub open spec fn is_plain(t: Seq<Glyph>) -> bool {
    forall|i: int| 0 <= i < t.len() ==> #[trigger] t[i] is Char
}

/// The characters of a text without floats.
pub open spec fn plain_chars(t: Seq<Glyph>) -> Seq<char> {
    t.map_values(|g: Glyph| g->Char_0)
}

/// The decimal digit for `d`, which is below ten.
pub open spec fn digit_char(d: nat) -> char {
    if d == 0 {
        '0'
    } else if d == 1 {
        '1'
    } else if d == 2 {
        '2'
    } else if d == 3 {
        '3'
    } else if d == 4 {
        '4'
    } else if d == 5 {
        '5'
    } else if d == 6 {
        '6'
    } else if d == 7 {
        '7'
    } else if d == 8 {
        '8'
    } else {
        '9'
    }
}

/// The decimal digits of a natural number, most significant first, without
/// leading zeros.
pub open spec fn digits(n: nat) -> Seq<char>
    decreases n,
{
    if n < 10 {
        seq![digit_char(n)]
    } else {
        digits(n / 10).push(digit_char(n % 10))
    }
}

/// The decimal form of an integer: a minus sign for a negative one, then the
/// digits of its magnitude.
pub open spec fn decimal(v: int) -> Seq<char> {
    if v < 0 {
        seq!['-'] + digits((-v) as nat)
    } else {
        digits(v as nat)
    }
}

/// `String::push`: the character is added at the end of the string.
#[verifier::external_body]
pub(crate) fn push_char(s: &mut String, c: char)
    ensures
        final(s)@ == old(s)@.push(c),
{
    s.push(c)
}

/// The characters of a string.
pub fn characters(s: &str) -> (r: Vec<char>)
    ensures
        r@ == s@,
{
    let mut out: Vec<char> = Vec::new();
    let mut it = s.chars();
    loop
        invariant
            it.obeys_prophetic_iter_laws(),
            it.decrease() is Some,
            out@ + it.remaining() == s@,
        decreases it.decrease()->0,
    {
        match it.next() {
            Some(c) => {
                out.push(c);
                proof {
                    assert(out@ + it.remaining() =~= s@);
                }
            },
            None => {
                proof {
                    assert(out@ + it.remaining() =~= out@);
                }
                return out;
            },
        }
    }
}

/// The character at place `i`.
pub fn char_at(cs: &Vec<char>, i: usize) -> (c: char)
    requires
        i < cs.len(),
    ensures
        c == cs@[i as int],
{
    cs[i]
}

/// Appends the characters of `s` to `out`.
pub fn push_str(out: &mut Vec<Glyph>, s: &str)
    ensures
        final(out)@ == old(out)@ + chars(s@),
{
    let cs = characters(s);
    let mut i: usize = 0;
    while i < cs.len()
        invariant
            cs@ == s@,
            i <= cs.len(),
            out@ == old(out)@ + chars(s@.subrange(0, i as int)),
        decreases cs.len() - i,
    {
        let c = char_at(&cs, i);
        let ghost before = out@;
        out.push(Glyph::Char(c));
        proof {
            assert(c == s@[i as int]);
            assert(s@.subrange(0, i + 1) =~= s@.subrange(0, i as int).push(c));
            lemma_chars_push(s@.subrange(0, i as int), c);
            assert(before.push(Glyph::Char(c)) =~= old(out)@ + chars(
                s@.subrange(0, i as int),
            ).push(Glyph::Char(c)));
        }
        i = i + 1;
    }
    proof {
        assert(s@.subrange(0, cs.len() as int) == s@);
    }
}

/// Appends one text to another.
pub fn push_text(out: &mut Vec<Glyph>, t: &Vec<Glyph>)
    ensures
        final(out)@ == old(out)@ + t@,
{
    let mut i: usize = 0;
    while i < t.len()
        invariant
            i <= t.len(),
            out@ == old(out)@ + t@.subrange(0, i as int),
        decreases t.len() - i,
    {
        out.push(t[i]);
        proof {
            assert(t@.subrange(0, i + 1) == t@.subrange(0, i as int).push(t@[i as int]));
        }
        i = i + 1;
    }
    proof {
        assert(t@.subrange(0, t.len() as int) == t@);
    }
}

/// A copy of a text.
pub fn copy_text(t: &Vec<Glyph>) -> (r: Vec<Glyph>)
    ensures
        r@ == t@,
{
    let mut out: Vec<Glyph> = Vec::new();
    push_text(&mut out, t);
    out
}

/// Whether two texts hold the same glyphs.
pub fn same_text(a: &Vec<Glyph>, b: &Vec<Glyph>) -> (r: bool)
    ensures
        r == (a@ == b@),
{
    if a.len() != b.len() {
        return false;
    }
    let mut i: usize = 0;
    while i < a.len()
        invariant
            a.len() == b.len(),
            i <= a.len(),
            a@.subrange(0, i as int) == b@.subrange(0, i as int),
        decreases a.len() - i,
    {
        if a[i] != b[i] {
            return false;
        }
        proof {
            assert(a@.subrange(0, i + 1) == a@.subrange(0, i as int).push(a@[i as int]));
            assert(b@.subrange(0, i + 1) == b@.subrange(0, i as int).push(b@[i as int]));
        }
        i = i + 1;
    }
    proof {
        assert(a@.subrange(0, a.len() as int) == a@);
        assert(b@.subrange(0, b.len() as int) == b@);
    }
    true
}

fn digit_of(d: u128) -> (c: char)
    requires
        d < 10,
    ensures
        c == digit_char(d as nat),
{
    if d == 0 {
        '0'
    } else if d == 1 {
        '1'
    } else if d == 2 {
        '2'
    } else if d == 3 {
        '3'
    } else if d == 4 {
        '4'
    } else if d == 5 {
        '5'
    } else if d == 6 {
        '6'
    } else if d == 7 {
        '7'
    } else if d == 8 {
        '8'
    } else {
        '9'
    }
}

fn push_digits(out: &mut Vec<Glyph>, n: u128)
    ensures
        final(out)@ == old(out)@ + chars(digits(n as nat)),
    decreases n,
{
    if n >= 10 {
        push_digits(out, n / 10);
    }
    let c = digit_of(n % 10);
    out.push(Glyph::Char(c));
    proof {
        if n >= 10 {
            lemma_chars_push(digits((n / 10) as nat), c);
        } else {
            assert(chars(digits(n as nat)) =~= seq![Glyph::Char(c)]);
        }
    }
}

/// Appends the decimal form of an integer.
pub fn push_int(out: &mut Vec<Glyph>, v: i128)
    ensures
        final(out)@ == old(out)@ + chars(decimal(v as int)),
{
    if v < 0 {
        out.push(Glyph::Char('-'));
        let magnitude: u128 = if v == i128::MIN {
            0x8000_0000_0000_0000_0000_0000_0000_0000u128
        } else {
            (-v) as u128
        };
        push_digits(out, magnitude);
        proof {
            lemma_chars_add(seq!['-'], digits(magnitude as nat));
            assert(chars(seq!['-']) =~= seq![Glyph::Char('-')]);
        }
    } else {
        push_digits(out, v as u128);
    }
}

/// The text as a string, where it holds no float.
pub fn plain_string(t: &Vec<Glyph>) -> (r: Option<String>)
    ensures
        r is Some <==> is_plain(t@),
        r is Some ==> r->0@ == plain_chars(t@),
{
    let mut out = String::new();
    let mut i: usize = 0;
    while i < t.len()
        invariant
            i <= t.len(),
            is_plain(t@.subrange(0, i as int)),
            out@ == plain_chars(t@.subrange(0, i as int)),
        decreases t.len() - i,
    {
        match t[i] {
            Glyph::Char(c) => {
                push_char(&mut out, c);
                proof {
                    assert(t@.subrange(0, i + 1) == t@.subrange(0, i as int).push(t@[i as int]));
                    assert(plain_chars(t@.subrange(0, i + 1)) =~= plain_chars(
                        t@.subrange(0, i as int),
                    ).push(c));
                }
            },
            Glyph::Float(_) => {
                proof {
                    assert(!(t@[i as int] is Char));
                }
                return None;
            },
        }
        i = i + 1;
    }
    proof {
        assert(t@.subrange(0, t.len() as int) == t@);
    }
    Some(out)
}

} // verus!
