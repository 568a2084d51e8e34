//! From words to values.

use crate::numeric::{Numeric, NumericView};
use crate::op::{op_named, Op};
use crate::parsed::{lemma_list_view, lemma_quotation_view, views, Parsed, Value};
use crate::text::{char_at, characters, push_char};
use crate::utility::texts;
use std::collections::VecDeque;
use vstd::prelude::*;
use vstd::string::StringExecFns;

verus! {

/// A word of a program, and the float that it reads as, if it reads as one.
/// The library does not read floats itself: whoever splits the text into words
/// says which of them are floats.
#[derive(Debug, PartialEq)]
pub struct Lexeme {
    pub text: String,
    pub float: Option<u64>,
}

/// The mathematical value of a `Lexeme`.
pub struct LexemeView {
    pub text: Seq<char>,
    pub float: Option<u64>,
}

impl View for Lexeme {
    type V = LexemeView;

    open spec fn view(&self) -> LexemeView {
        LexemeView { text: self.text@, float: self.float }
    }
}

/// Why a program cannot be parsed.
#[derive(Clone, Copy, PartialEq, Eq, Structural, Debug)]
pub enum ParseError {
    /// A string is opened and never closed.
    UnterminatedString,
}

/// The values of a sequence of lexemes.
pub open spec fn lexeme_views(s: Seq<Lexeme>) -> Seq<LexemeView> {
    Seq::new(s.len(), |i: int| s[i]@)
}

/// The value of a decimal digit.
pub open spec fn digit_value(c: char) -> Option<nat> {
    if c == '0' {
        Some(0)
    } else if c == '1' {
        Some(1)
    } else if c == '2' {
        Some(2)
    } else if c == '3' {
        Some(3)
    } else if c == '4' {
        Some(4)
    } else if c == '5' {
        Some(5)
    } else if c == '6' {
        Some(6)
    } else if c == '7' {
        Some(7)
    } else if c == '8' {
        Some(8)
    } else if c == '9' {
        Some(9)
    } else {
        None
    }
}

/// The number that the first `n` characters of `s` spell, if they are all
/// decimal digits.
pub open spec fn digits_value(s: Seq<char>, n: nat) -> Option<nat>
    decreases n,
{
    if n == 0 || n > s.len() {
        Some(0)
    } else {
        match (digits_value(s, (n - 1) as nat), digit_value(s[n - 1])) {
            (Some(a), Some(d)) => Some(10 * a + d),
            _ => None,
        }
    }
}

/// The integer that a word spells: an optional sign, then at least one decimal
/// digit, and a value within 128 bits.
pub open spec fn integer_value(s: Seq<char>) -> Option<int> {
    if s.len() == 0 {
        None
    } else if s[0] == '-' || s[0] == '+' {
        let body = s.skip(1);
        if body.len() == 0 {
            None
        } else {
            match digits_value(body, body.len()) {
                Some(v) => if s[0] == '-' {
                    if v <= -i128::MIN {
                        Some(-(v as int))
                    } else {
                        None
                    }
                } else {
                    if v <= i128::MAX {
                        Some(v as int)
                    } else {
                        None
                    }
                },
                None => None,
            }
        }
    } else {
        match digits_value(s, s.len()) {
            Some(v) => if v <= i128::MAX {
                Some(v as int)
            } else {
                None
            },
            None => None,
        }
    }
}

/// The number, the boolean that a lexeme spells: an integer first, then a
/// float, then `True` and `False`.
pub open spec fn primitive(t: LexemeView) -> Option<Value> {
    match integer_value(t.text) {
        Some(v) => Some(Value::Num(NumericView::Integer(v))),
        None => match t.float {
            Some(b) => Some(Value::Num(NumericView::Float(b))),
            None => if t.text == "True"@ {
                Some(Value::Bool(true))
            } else if t.text == "False"@ {
                Some(Value::Bool(false))
            } else {
                None
            },
        },
    }
}

/// Where the first quote mark stands; the length of the sequence if it holds
/// none.
pub open spec fn quote_at(tokens: Seq<LexemeView>) -> nat
    decreases tokens.len(),
{
    if tokens.len() == 0 {
        0
    } else if tokens[0].text == "\""@ {
        0
    } else {
        1 + quote_at(tokens.skip(1))
    }
}

/// The first `n` words, with one space between each two.
pub open spec fn join_words(ws: Seq<LexemeView>, n: nat) -> Seq<char>
    decreases n,
{
    if n == 0 || n > ws.len() {
        Seq::empty()
    } else if n == 1 {
        ws[0].text
    } else {
        join_words(ws, (n - 1) as nat).push(' ') + ws[n - 1].text
    }
}

/// What parsing gives: the values read, the lexemes left, and whether it
/// failed.
pub struct Parse {
    pub items: Seq<Value>,
    pub rest: Seq<LexemeView>,
    pub failed: bool,
}

/// A parse with values put in front of it.
pub open spec fn prepend(items: Seq<Value>, p: Parse) -> Parse {
    Parse { items: items + p.items, rest: p.rest, failed: p.failed }
}

/// The failed parse.
pub open spec fn failure() -> Parse {
    Parse { items: Seq::empty(), rest: Seq::empty(), failed: true }
}

/// Parsing from the front of `tokens`, up to a closing bracket or the end.
///
/// A number or a boolean is itself; the name of an operator is the operator;
/// `{` opens a quotation and `[` a list, each read up to the next closing
/// bracket at its depth, of either kind, or to the end; `"` opens a string,
/// which is the words up to the next `"` joined by single spaces, and without
/// that `"` the parse fails; a closing bracket ends the parse; every other word
/// is a symbol.
pub open spec fn parse_seq(tokens: Seq<LexemeView>) -> Parse
    decreases tokens.len(),
{
    if tokens.len() == 0 {
        Parse { items: Seq::empty(), rest: tokens, failed: false }
    } else {
        let t = tokens[0];
        let rest = tokens.skip(1);
        if primitive(t) is Some {
            prepend(seq![primitive(t)->0], parse_seq(rest))
        } else if op_named(t.text) is Some {
            prepend(seq![Value::Function(op_named(t.text)->0)], parse_seq(rest))
        } else if t.text == "}"@ || t.text == "]"@ {
            Parse { items: Seq::empty(), rest: rest, failed: false }
        } else if t.text == "{"@ || t.text == "["@ {
            let inner = parse_seq(rest);
            if inner.failed || inner.rest.len() >= tokens.len() {
                failure()
            } else if t.text == "{"@ {
                prepend(seq![Value::Quotation(inner.items)], parse_seq(inner.rest))
            } else {
                prepend(seq![Value::List(inner.items)], parse_seq(inner.rest))
            }
        } else if t.text == "\""@ {
            let k = quote_at(rest);
            if k >= rest.len() {
                failure()
            } else {
                prepend(
                    seq![Value::String(join_words(rest, k))],
                    parse_seq(rest.skip(k as int + 1)),
                )
            }
        } else {
            prepend(seq![Value::Symbol(t.text)], parse_seq(rest))
        }
    }
}

fn digit(c: char) -> (r: Option<u128>)
    ensures
        match r {
            Some(d) => digit_value(c) == Some(d as nat) && d < 10,
            None => digit_value(c) is None,
        },
{
    if c == '0' {
        Some(0)
    } else if c == '1' {
        Some(1)
    } else if c == '2' {
        Some(2)
    } else if c == '3' {
        Some(3)
    } else if c == '4' {
        Some(4)
    } else if c == '5' {
        Some(5)
    } else if c == '6' {
        Some(6)
    } else if c == '7' {
        Some(7)
    } else if c == '8' {
        Some(8)
    } else if c == '9' {
        Some(9)
    } else {
        None
    }
}

/// Once the digits read so far spell no number, or one above `limit`, so do
/// the digits read later.
proof fn lemma_digits_stuck(s: Seq<char>, n: nat, m: nat, limit: nat)
    requires
        n <= m <= s.len(),
        digits_value(s, n) is None || digits_value(s, n)->0 > limit,
    ensures
        digits_value(s, m) is None || digits_value(s, m)->0 > limit,
    decreases m,
{
    if n < m {
        lemma_digits_stuck(s, n, (m - 1) as nat, limit);
    }
}

/// The number that the characters of `s` from `from` on spell, where they are
/// digits and the number is at most `limit`.
fn parse_digits(s: &Vec<char>, from: usize, limit: u128) -> (r: Option<u128>)
    requires
        from <= s@.len(),
        limit <= 0x8000_0000_0000_0000_0000_0000_0000_0000,
    ensures
        match digits_value(s@.skip(from as int), (s@.len() - from) as nat) {
            Some(v) => if v <= limit {
                r == Some(v as u128)
            } else {
                r is None
            },
            None => r is None,
        },
{
    let n = s.len();
    let ghost body = s@.skip(from as int);
    let mut acc: u128 = 0;
    let mut i: usize = from;
    while i < n
        invariant
            n == s@.len(),
            from <= i <= n,
            body == s@.skip(from as int),
            digits_value(body, (i - from) as nat) == Some(acc as nat),
            acc <= limit <= 0x8000_0000_0000_0000_0000_0000_0000_0000,
        decreases n - i,
    {
        let c = char_at(s, i);
        proof {
            assert(body[i - from] == c);
        }
        match digit(c) {
            Some(d) => {
                let next = match acc.checked_mul(10) {
                    Some(tens) => tens.checked_add(d),
                    None => None,
                };
                match next {
                    Some(v) if v <= limit => {
                        acc = v;
                    },
                    _ => {
                        proof {
                            lemma_digits_stuck(
                                body,
                                (i + 1 - from) as nat,
                                (n - from) as nat,
                                limit as nat,
                            );
                        }
                        return None;
                    },
                }
            },
            None => {
                proof {
                    lemma_digits_stuck(
                        body,
                        (i + 1 - from) as nat,
                        (n - from) as nat,
                        limit as nat,
                    );
                }
                return None;
            },
        }
        i = i + 1;
    }
    Some(acc)
}

/// The integer that a word spells.
pub fn parse_integer(s: &str) -> (r: Option<i128>)
    ensures
        match integer_value(s@) {
            Some(v) => r == Some(v as i128) && v == r->0,
            None => r is None,
        },
{
    let cs = characters(s);
    let n = cs.len();
    if n == 0 {
        return None;
    }
    let first = char_at(&cs, 0);
    if first == '-' {
        if n == 1 {
            return None;
        }
        match parse_digits(&cs, 1, 0x8000_0000_0000_0000_0000_0000_0000_0000) {
            Some(v) => {
                if v == 0x8000_0000_0000_0000_0000_0000_0000_0000 {
                    Some(i128::MIN)
                } else {
                    Some(-(v as i128))
                }
            },
            None => None,
        }
    } else if first == '+' {
        if n == 1 {
            return None;
        }
        match parse_digits(&cs, 1, 0x7FFF_FFFF_FFFF_FFFF_FFFF_FFFF_FFFF_FFFF) {
            Some(v) => Some(v as i128),
            None => None,
        }
    } else {
        proof {
            assert(s@.skip(0) =~= s@);
        }
        match parse_digits(&cs, 0, 0x7FFF_FFFF_FFFF_FFFF_FFFF_FFFF_FFFF_FFFF) {
            Some(v) => Some(v as i128),
            None => None,
        }
    }
}

/// The number that a lexeme spells: an integer first, then a float.
pub open spec fn number_of(t: LexemeView) -> Option<NumericView> {
    match integer_value(t.text) {
        Some(v) => Some(NumericView::Integer(v)),
        None => match t.float {
            Some(b) => Some(NumericView::Float(b)),
            None => None,
        },
    }
}

impl Numeric {
    /// The number that a lexeme spells. A lexeme that spells none is refused.
    pub fn from_str(token: &Lexeme) -> (r: Result<Numeric, String>)
        ensures
            match number_of(token@) {
                Some(n) => r is Ok && r->Ok_0@ == n,
                None => r is Err && r->Err_0@ == "not parsable as Numeric"@,
            },
    {
        if let Some(val) = parse_integer(token.text.as_str()) {
            return Ok(Numeric::Integer(val));
        }
        if let Some(bits) = token.float {
            return Ok(Numeric::Float(bits));
        }
        Err(String::from_str("not parsable as Numeric"))
    }
}

/// The number or the boolean that a lexeme spells, if it spells one.
pub fn parse_primitives(token: &Lexeme) -> (r: Option<Parsed>)
    ensures
        match primitive(token@) {
            Some(v) => r is Some && r->0@ == v,
            None => r is None,
        },
{
    if let Ok(val) = Numeric::from_str(token) {
        return Some(Parsed::Num(val));
    }
    if token.text == String::from_str("True") {
        return Some(Parsed::Bool(true));
    }
    if token.text == String::from_str("False") {
        return Some(Parsed::Bool(false));
    }
    None
}

/// The operator that a word names, if it names one.
pub fn parse_operations(token: &str) -> (r: Option<Parsed>)
    ensures
        match op_named(token@) {
            Some(op) => r is Some && r->0@ == Value::Function(op),
            None => r is None,
        },
{
    match Op::from_str(token) {
        Ok(op) => Some(Parsed::Function(op)),
        Err(_) => None,
    }
}

/// Takes the words before the first `delimiter` off the front of `tokens`, and
/// the delimiter with them. Where no word is the delimiter, every word is
/// taken and nothing is returned.
pub fn get_section(tokens: &mut VecDeque<String>, delimiter: &str) -> (r: Option<Vec<String>>)
    ensures
        match r {
            Some(section) => {
                let k = section@.len() as int;
                &&& k < old(tokens)@.len()
                &&& old(tokens)@[k]@ == delimiter@
                &&& forall|j: int| 0 <= j < k ==> (#[trigger] old(tokens)@[j])@ != delimiter@
                &&& texts(section@) == texts(old(tokens)@).subrange(0, k)
                &&& final(tokens)@ == old(tokens)@.subrange(k + 1, old(tokens)@.len() as int)
            },
            None => {
                &&& forall|j: int|
                    0 <= j < old(tokens)@.len() ==> (#[trigger] old(tokens)@[j])@ != delimiter@
                &&& final(tokens)@.len() == 0
            },
        },
{
    let mut section: Vec<String> = Vec::new();
    let stop = String::from_str(delimiter);
    while tokens.len() > 0
        invariant
            stop@ == delimiter@,
            section@.len() <= old(tokens)@.len(),
            tokens@ == old(tokens)@.subrange(section@.len() as int, old(tokens)@.len() as int),
            forall|j: int| 0 <= j < section@.len() ==> (#[trigger] old(tokens)@[j])@ != delimiter@,
            texts(section@) == texts(old(tokens)@).subrange(0, section@.len() as int),
        decreases tokens@.len(),
    {
        let ghost k = section@.len() as int;
        let ghost before = tokens@;
        let t = tokens.pop_front().unwrap();
        proof {
            assert(t == old(tokens)@[k]);
            assert(tokens@ =~= old(tokens)@.subrange(k + 1, old(tokens)@.len() as int));
        }
        if t == stop {
            return Some(section);
        }
        proof {
            assert(texts(section@.push(t)) =~= texts(old(tokens)@).subrange(0, k + 1));
        }
        section.push(t);
    }
    None
}

/// Takes the words of a string off the front of `tokens`, with the quote mark
/// that closes it, and joins them with single spaces.
fn take_string(tokens: &mut VecDeque<Lexeme>) -> (r: Option<String>)
    ensures
        ({
            let all = lexeme_views(old(tokens)@);
            let k = quote_at(all);
            match r {
                Some(s) => {
                    &&& k < all.len()
                    &&& s@ == join_words(all, k)
                    &&& lexeme_views(final(tokens)@) == all.skip(k as int + 1)
                    &&& final(tokens)@.len() < old(tokens)@.len()
                },
                None => k >= all.len() && final(tokens)@.len() == 0,
            }
        }),
        final(tokens)@.len() <= old(tokens)@.len(),
{
    let mut out = String::new();
    let mut count: usize = 0;
    let total = tokens.len();
    let ghost all = lexeme_views(old(tokens)@);
    proof {
        assert(lexeme_views(tokens@) =~= all.skip(0));
    }
    while tokens.len() > 0
        invariant
            all == lexeme_views(old(tokens)@),
            all.len() == total,
            count <= all.len(),
            tokens@.len() == all.len() - count,
            lexeme_views(tokens@) == all.skip(count as int),
            quote_at(all) == count + quote_at(all.skip(count as int)),
            out@ == join_words(all, count as nat),
        decreases tokens@.len(),
    {
        let ghost before = tokens@;
        let t = tokens.pop_front().unwrap();
        let ghost cur = all.skip(count as int);
        proof {
            assert(t@ == lexeme_views(before)[0]);
            assert(cur[0] == all[count as int]);
            assert(lexeme_views(tokens@) =~= lexeme_views(before).skip(1));
            assert(cur.skip(1) =~= all.skip(count + 1));
        }
        if t.text == String::from_str("\"") {
            return Some(out);
        }
        if count > 0 {
            push_char(&mut out, ' ');
        }
        out.append(t.text.as_str());
        proof {
            if count > 0 {
                assert(out@ =~= join_words(all, count as nat).push(' ') + t.text@);
            } else {
                assert(join_words(all, 0) =~= Seq::<char>::empty());
                assert(out@ =~= t.text@);
            }
        }
        count = count + 1;
    }
    proof {
        assert(all.skip(count as int).len() == 0);
    }
    None
}

/// Parses the lexemes at the front of `tokens`, up to a closing bracket or the
/// end, and takes them off. A string that is never closed is refused, and
/// then every lexeme is taken.
pub fn parse(tokens: &mut VecDeque<Lexeme>) -> (r: Result<Vec<Parsed>, ParseError>)
    ensures
        ({
            let whole = parse_seq(lexeme_views(old(tokens)@));
            match r {
                Ok(items) => {
                    &&& !whole.failed
                    &&& views(items@) == whole.items
                    &&& lexeme_views(final(tokens)@) == whole.rest
                },
                Err(e) => {
                    &&& whole.failed
                    &&& e == ParseError::UnterminatedString
                    &&& final(tokens)@.len() == 0
                },
            }
        }),
        final(tokens)@.len() <= old(tokens)@.len(),
    decreases old(tokens)@.len(),
{
    let mut parsed: Vec<Parsed> = Vec::new();
    let ghost whole = parse_seq(lexeme_views(old(tokens)@));
    proof {
        assert(views(parsed@) + parse_seq(lexeme_views(tokens@)).items =~= whole.items);
    }
    while tokens.len() > 0
        invariant
            tokens@.len() <= old(tokens)@.len(),
            whole == parse_seq(lexeme_views(old(tokens)@)),
            whole == prepend(views(parsed@), parse_seq(lexeme_views(tokens@))),
        decreases tokens@.len(),
    {
        let ghost cur = lexeme_views(tokens@);
        let ghost done = views(parsed@);
        let t = tokens.pop_front().unwrap();
        proof {
            assert(t@ == cur[0]);
            assert(lexeme_views(tokens@) =~= cur.skip(1));
        }
        if let Some(p) = parse_primitives(&t) {
            proof {
                let tail = parse_seq(cur.skip(1));
                assert(views(parsed@.push(p)) =~= done.push(p@));
                assert(done.push(p@) + tail.items =~= done + (seq![p@] + tail.items));
            }
            parsed.push(p);
            continue ;
        }
        if let Some(p) = parse_operations(t.text.as_str()) {
            proof {
                let tail = parse_seq(cur.skip(1));
                assert(views(parsed@.push(p)) =~= done.push(p@));
                assert(done.push(p@) + tail.items =~= done + (seq![p@] + tail.items));
            }
            parsed.push(p);
            continue ;
        }
        let closes = t.text == String::from_str("}") || t.text == String::from_str("]");
        if closes {
            proof {
                assert(done + Seq::<Value>::empty() =~= done);
            }
            return Ok(parsed);
        }
        let quotation = t.text == String::from_str("{");
        let opens = quotation || t.text == String::from_str("[");
        if opens {
            let content = match parse(tokens) {
                Ok(content) => content,
                Err(e) => {
                    return Err(e);
                },
            };
            let p = if quotation {
                proof {
                    lemma_quotation_view(content);
                }
                Parsed::Quotation(content)
            } else {
                proof {
                    lemma_list_view(content);
                }
                Parsed::List(content)
            };
            proof {
                let inner = parse_seq(cur.skip(1));
                let tail = parse_seq(inner.rest);
                assert(views(parsed@.push(p)) =~= done.push(p@));
                assert(done.push(p@) + tail.items =~= done + (seq![p@] + tail.items));
            }
            parsed.push(p);
            continue ;
        }
        if t.text == String::from_str("\"") {
            match take_string(tokens) {
                Some(s) => {
                    let p = Parsed::String(s);
                    proof {
                        let rest = cur.skip(1);
                        let tail = parse_seq(rest.skip(quote_at(rest) as int + 1));
                        assert(views(parsed@.push(p)) =~= done.push(p@));
                        assert(done.push(p@) + tail.items =~= done + (seq![p@] + tail.items));
                    }
                    parsed.push(p);
                },
                None => {
                    return Err(ParseError::UnterminatedString);
                },
            }
            continue ;
        }
        let p = Parsed::Symbol(t.text);
        proof {
            let tail = parse_seq(cur.skip(1));
            assert(views(parsed@.push(p)) =~= done.push(p@));
            assert(done.push(p@) + tail.items =~= done + (seq![p@] + tail.items));
        }
        parsed.push(p);
    }
    proof {
        assert(views(parsed@) + Seq::<Value>::empty() =~= views(parsed@));
    }
    Ok(parsed)
}

/// Parses the lexemes into one quotation.
pub fn parse_to_quotation(tokens: &mut VecDeque<Lexeme>) -> (r: Result<Parsed, ParseError>)
    ensures
        ({
            let whole = parse_seq(lexeme_views(old(tokens)@));
            match r {
                Ok(q) => {
                    &&& !whole.failed
                    &&& q@ == Value::Quotation(whole.items)
                    &&& lexeme_views(final(tokens)@) == whole.rest
                },
                Err(e) => {
                    &&& whole.failed
                    &&& e == ParseError::UnterminatedString
                    &&& final(tokens)@.len() == 0
                },
            }
        }),
{
    match parse(tokens) {
        Ok(items) => {
            proof {
                lemma_quotation_view(items);
            }
            Ok(Parsed::Quotation(items))
        },
        Err(e) => Err(e),
    }
}

/// The words as lexemes of which none reads as a float.
pub fn plain_lexemes(words: VecDeque<String>) -> (r: VecDeque<Lexeme>)
    ensures
        r@.len() == words@.len(),
        forall|i: int|
            0 <= i < words@.len() ==> (#[trigger] r@[i])@ == (LexemeView {
                text: words@[i]@,
                float: None,
            }),
{
    let mut words = words;
    let mut out: VecDeque<Lexeme> = VecDeque::new();
    let ghost all = words@;
    while words.len() > 0
        invariant
            out@.len() + words@.len() == all.len(),
            words@ == all.subrange(out@.len() as int, all.len() as int),
            forall|i: int|
                0 <= i < out@.len() ==> (#[trigger] out@[i])@ == (LexemeView {
                    text: all[i]@,
                    float: None,
                }),
        decreases words@.len(),
    {
        let w = words.pop_front().unwrap();
        out.push_back(Lexeme { text: w, float: None });
        proof {
            assert(words@ =~= all.subrange(out@.len() as int, all.len() as int));
        }
    }
    out
}

} // verus!
