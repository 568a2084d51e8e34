//! Writing a value as the words of a program and reading it back, and what
//! holds of every parse.

use crate::numeric::NumericView;
use crate::op::op_named;
use crate::parsed::Value;
use crate::parsing::{
    digit_value,
    digits_value,
    integer_value,
    join_words,
    parse_seq,
    prepend,
    primitive,
    quote_at,
    LexemeView,
    Parse,
};
use crate::text::{decimal, digit_char, digits, Glyph};
use crate::text::chars;
use crate::parsed::join_upto;
use crate::utility::{is_space, scan, words, Scan};
use vstd::prelude::*;

verus! {

/// A word as the lexeme that the host makes of it: `reading` is the float
/// that the host reads a word as.
pub open spec fn lexeme(text: Seq<char>, reading: spec_fn(Seq<char>) -> Option<u64>) -> LexemeView {
    LexemeView { text, float: reading(text) }
}

/// Words as lexemes.
pub open spec fn lexemes(ws: Seq<Seq<char>>, reading: spec_fn(Seq<char>) -> Option<u64>) -> Seq<
    LexemeView,
> {
    Seq::new(ws.len(), |i: int| lexeme(ws[i], reading))
}

/// A run of characters that is one word: it is not empty and holds no white
/// space.
pub open spec fn is_word(w: Seq<char>) -> bool {
    w.len() > 0 && forall|i: int| 0 <= i < w.len() ==> !is_space(#[trigger] w[i])
}

/// A word that can stand for a symbol: it is no number, no boolean, no
/// operator, no bracket and no quote mark.
pub open spec fn is_name(s: Seq<char>) -> bool {
    &&& is_word(s)
    &&& integer_value(s) is None
    &&& s != "True"@
    &&& s != "False"@
    &&& op_named(s) is None
    &&& s != "{"@
    &&& s != "}"@
    &&& s != "["@
    &&& s != "]"@
    &&& s != "\""@
}

/// A string that a program can hold: its words parted by single spaces, with
/// no space before the first or after the last, and none of them a quote
/// mark.
pub open spec fn is_literal(s: Seq<char>) -> bool {
    &&& s == join_texts(words(s), words(s).len())
    &&& forall|i: int| 0 <= i < words(s).len() ==> #[trigger] words(s)[i] != "\""@
}

/// The first `n` words, with one space between each two.
pub open spec fn join_texts(ws: Seq<Seq<char>>, n: nat) -> Seq<char>
    decreases n,
{
    if n == 0 || n > ws.len() {
        Seq::empty()
    } else if n == 1 {
        ws[0]
    } else {
        join_texts(ws, (n - 1) as nat).push(' ') + ws[n - 1]
    }
}

/// What the host must do for values to be read back as they were written: it
/// reads no float in a bracket, a quote mark or a boolean.
pub open spec fn honest(reading: spec_fn(Seq<char>) -> Option<u64>) -> bool {
    &&& reading("{"@) is None
    &&& reading("}"@) is None
    &&& reading("["@) is None
    &&& reading("]"@) is None
    &&& reading("\""@) is None
    &&& reading("True"@) is None
    &&& reading("False"@) is None
}

/// A value that can be written and read back. `float_text` is how the host
/// writes a float and `reading` how it reads one: the library leaves both
/// open. What is written for a float must be one word, no integer, and read
/// as that float; a symbol must be a name that reads as no float.
pub open spec fn writable(
    v: Value,
    float_text: spec_fn(u64) -> Seq<char>,
    reading: spec_fn(Seq<char>) -> Option<u64>,
) -> bool
    decreases v, 0nat,
{
    match v {
        Value::Num(NumericView::Integer(i)) => i128::MIN <= i <= i128::MAX,
        Value::Num(NumericView::Float(b)) => is_word(float_text(b)) && integer_value(
            float_text(b),
        ) is None && reading(float_text(b)) == Some(b),
        Value::Bool(_) => true,
        Value::String(s) => is_literal(s),
        Value::Symbol(name) => is_name(name) && reading(name) is None,
        Value::List(items) => all_writable(items, items.len(), float_text, reading),
        Value::Quotation(items) => all_writable(items, items.len(), float_text, reading),
        _ => false,
    }
}

/// The first `n` items can be written and read back.
pub open spec fn all_writable(
    items: Seq<Value>,
    n: nat,
    float_text: spec_fn(u64) -> Seq<char>,
    reading: spec_fn(Seq<char>) -> Option<u64>,
) -> bool
    decreases items, n,
{
    if n == 0 || n > items.len() {
        true
    } else {
        all_writable(items, (n - 1) as nat, float_text, reading) && writable(
            items[n - 1],
            float_text,
            reading,
        )
    }
}

/// The words that spell a value.
pub open spec fn spelling(v: Value, float_text: spec_fn(u64) -> Seq<char>) -> Seq<Seq<char>>
    decreases v, 0nat,
{
    match v {
        Value::Num(NumericView::Integer(i)) => seq![decimal(i)],
        Value::Num(NumericView::Float(b)) => seq![float_text(b)],
        Value::Bool(b) => if b {
            seq!["True"@]
        } else {
            seq!["False"@]
        },
        Value::String(s) => seq!["\""@] + words(s) + seq!["\""@],
        Value::Symbol(name) => seq![name],
        Value::List(items) => seq!["["@] + spelling_all(items, items.len(), float_text) + seq![
            "]"@,
        ],
        Value::Quotation(items) => seq!["{"@] + spelling_all(items, items.len(), float_text)
            + seq!["}"@],
        _ => Seq::empty(),
    }
}

/// The words that spell the first `n` items, one item after the other.
pub open spec fn spelling_all(items: Seq<Value>, n: nat, float_text: spec_fn(u64) -> Seq<char>) -> Seq<
    Seq<char>,
>
    decreases items, n,
{
    if n == 0 || n > items.len() {
        Seq::empty()
    } else {
        spelling_all(items, (n - 1) as nat, float_text) + spelling(items[n - 1], float_text)
    }
}

/// A text as characters, with each float written as `float_text` writes it.
pub open spec fn spell(t: Seq<Glyph>, float_text: spec_fn(u64) -> Seq<char>) -> Seq<char>
    decreases t.len(),
{
    if t.len() == 0 {
        Seq::empty()
    } else {
        spell(t.drop_last(), float_text) + match t.last() {
            Glyph::Char(c) => seq![c],
            Glyph::Float(b) => float_text(b),
        }
    }
}

/// Words as lexemes, one sequence after another.
proof fn lemma_lexemes_add(
    a: Seq<Seq<char>>,
    b: Seq<Seq<char>>,
    reading: spec_fn(Seq<char>) -> Option<u64>,
)
    ensures
        lexemes(a + b, reading) == lexemes(a, reading) + lexemes(b, reading),
{
    assert(lexemes(a + b, reading) =~= lexemes(a, reading) + lexemes(b, reading));
}

/// Characters that begin with what is no digit spell no number.
proof fn lemma_needs_digit(s: Seq<char>, n: nat)
    requires
        1 <= n <= s.len(),
        digit_value(s[0]) is None,
    ensures
        digits_value(s, n) is None,
    decreases n,
{
    if n > 1 {
        lemma_needs_digit(s, (n - 1) as nat);
    }
}

/// The digits of a number are digits.
proof fn lemma_digits_shape(n: nat)
    ensures
        digits(n).len() >= 1,
        forall|i: int| 0 <= i < digits(n).len() ==> digit_value(#[trigger] digits(n)[i]) is Some,
    decreases n,
{
    if n >= 10 {
        lemma_digits_shape(n / 10);
    }
}

/// The value of characters with one more digit.
proof fn lemma_digits_value_push(s: Seq<char>, c: char)
    requires
        digit_value(c) is Some,
    ensures
        digits_value(s.push(c), s.len() + 1) == match digits_value(s, s.len()) {
            Some(a) => Some(10 * a + digit_value(c)->0),
            None => None,
        },
{
    lemma_digits_value_prefix(s, s.push(c), s.len());
}

/// The value of the first `n` characters depends on them alone.
proof fn lemma_digits_value_prefix(a: Seq<char>, b: Seq<char>, n: nat)
    requires
        n <= a.len(),
        n <= b.len(),
        forall|i: int| 0 <= i < n ==> a[i] == b[i],
    ensures
        digits_value(a, n) == digits_value(b, n),
    decreases n,
{
    if n > 0 {
        lemma_digits_value_prefix(a, b, (n - 1) as nat);
    }
}

/// The digit for a number below ten has that number as its value.
proof fn lemma_digit_value(d: nat)
    requires
        d < 10,
    ensures
        digit_value(digit_char(d)) == Some(d),
{
}

/// The digits of a number spell the number.
proof fn lemma_digits_value(n: nat)
    ensures
        digits_value(digits(n), digits(n).len()) == Some(n),
    decreases n,
{
    lemma_digit_value(n % 10);
    if n >= 10 {
        lemma_digits_value(n / 10);
        lemma_digits_value_push(digits(n / 10), digit_char(n % 10));
    } else {
        assert(digits_value(digits(n), 0) == Some(0nat));
    }
}

/// The decimal form of an integer spells the integer.
pub proof fn lemma_decimal_reads_back(i: int)
    requires
        i128::MIN <= i <= i128::MAX,
    ensures
        integer_value(decimal(i)) == Some(i),
{
    if i < 0 {
        let m = (-i) as nat;
        lemma_digits_shape(m);
        lemma_digits_value(m);
        assert(decimal(i).skip(1) =~= digits(m));
    } else {
        lemma_digits_shape(i as nat);
        lemma_digits_value(i as nat);
        assert(digit_value(decimal(i)[0]) is Some);
    }
}

/// What the brackets, the quote mark and the booleans are not.
proof fn lemma_marks()
    ensures
        integer_value("{"@) is None,
        integer_value("}"@) is None,
        integer_value("["@) is None,
        integer_value("]"@) is None,
        integer_value("\""@) is None,
        integer_value("True"@) is None,
        integer_value("False"@) is None,
        op_named("{"@) is None,
        op_named("}"@) is None,
        op_named("["@) is None,
        op_named("]"@) is None,
        op_named("\""@) is None,
        "{"@ != "}"@,
        "{"@ != "["@,
        "{"@ != "]"@,
        "{"@ != "\""@,
        "}"@ != "["@,
        "}"@ != "]"@,
        "}"@ != "\""@,
        "["@ != "]"@,
        "["@ != "\""@,
        "]"@ != "\""@,
        "True"@ != "False"@,
        "{"@ != "True"@,
        "}"@ != "True"@,
        "["@ != "True"@,
        "]"@ != "True"@,
        "\""@ != "True"@,
        "{"@ != "False"@,
        "}"@ != "False"@,
        "["@ != "False"@,
        "]"@ != "False"@,
        "\""@ != "False"@,
{
    reveal_strlit("{");
    reveal_strlit("}");
    reveal_strlit("[");
    reveal_strlit("]");
    reveal_strlit("\"");
    reveal_strlit("True");
    reveal_strlit("False");
    lemma_needs_digit("{"@, 1);
    lemma_needs_digit("}"@, 1);
    lemma_needs_digit("["@, 1);
    lemma_needs_digit("]"@, 1);
    lemma_needs_digit("\""@, 1);
    lemma_needs_digit("True"@, 4);
    lemma_needs_digit("False"@, 5);
    lemma_marks_are_no_operators();
}

/// No bracket and no quote mark names an operator.
#[verifier::rlimit(60)]
proof fn lemma_marks_are_no_operators()
    ensures
        op_named("{"@) is None,
        op_named("}"@) is None,
        op_named("["@) is None,
        op_named("]"@) is None,
        op_named("\""@) is None,
{
    reveal_strlit("print");
    assert("print"@.len() == 5);
    reveal_strlit("read");
    assert("read"@.len() == 4);
    reveal_strlit("parseInteger");
    assert("parseInteger"@.len() == 12);
    reveal_strlit("parseFloat");
    assert("parseFloat"@.len() == 10);
    reveal_strlit("words");
    assert("words"@.len() == 5);
    reveal_strlit("+");
    assert("+"@.len() == 1);
    assert("+"@[0] == '+');
    reveal_strlit("-");
    assert("-"@.len() == 1);
    assert("-"@[0] == '-');
    reveal_strlit("*");
    assert("*"@.len() == 1);
    assert("*"@[0] == '*');
    reveal_strlit("/");
    assert("/"@.len() == 1);
    assert("/"@[0] == '/');
    reveal_strlit("div");
    assert("div"@.len() == 3);
    reveal_strlit("<");
    assert("<"@.len() == 1);
    assert("<"@[0] == '<');
    reveal_strlit(">");
    assert(">"@.len() == 1);
    assert(">"@[0] == '>');
    reveal_strlit("==");
    assert("=="@.len() == 2);
    reveal_strlit("&&");
    assert("&&"@.len() == 2);
    reveal_strlit("||");
    assert("||"@.len() == 2);
    reveal_strlit("not");
    assert("not"@.len() == 3);
    reveal_strlit("head");
    assert("head"@.len() == 4);
    reveal_strlit("tail");
    assert("tail"@.len() == 4);
    reveal_strlit("empty");
    assert("empty"@.len() == 5);
    reveal_strlit("length");
    assert("length"@.len() == 6);
    reveal_strlit("cons");
    assert("cons"@.len() == 4);
    reveal_strlit("append");
    assert("append"@.len() == 6);
    reveal_strlit("each");
    assert("each"@.len() == 4);
    reveal_strlit("map");
    assert("map"@.len() == 3);
    reveal_strlit("foldl");
    assert("foldl"@.len() == 5);
    reveal_strlit("if");
    assert("if"@.len() == 2);
    reveal_strlit("loop");
    assert("loop"@.len() == 4);
    reveal_strlit("times");
    assert("times"@.len() == 5);
    reveal_strlit("exec");
    assert("exec"@.len() == 4);
    reveal_strlit(":=");
    assert(":="@.len() == 2);
    reveal_strlit("fun");
    assert("fun"@.len() == 3);
    reveal_strlit("'");
    assert("'"@.len() == 1);
    assert("'"@[0] == '\'');
    reveal_strlit("eval");
    assert("eval"@.len() == 4);
    reveal_strlit("pop");
    assert("pop"@.len() == 3);
    reveal_strlit("swap");
    assert("swap"@.len() == 4);
    reveal_strlit("dup");
    assert("dup"@.len() == 3);
    reveal_strlit("{");
    assert("{"@.len() == 1);
    assert("{"@[0] == '{');
    reveal_strlit("}");
    assert("}"@.len() == 1);
    assert("}"@[0] == '}');
    reveal_strlit("[");
    assert("["@.len() == 1);
    assert("["@[0] == '[');
    reveal_strlit("]");
    assert("]"@.len() == 1);
    assert("]"@[0] == ']');
    reveal_strlit("\"");
    assert("\""@.len() == 1);
    assert("\""@[0] == '"');
}

/// Before the first quote mark stand the words that are none.
proof fn lemma_quote_at(
    ws: Seq<Seq<char>>,
    rest: Seq<LexemeView>,
    reading: spec_fn(Seq<char>) -> Option<u64>,
)
    requires
        forall|i: int| 0 <= i < ws.len() ==> #[trigger] ws[i] != "\""@,
    ensures
        quote_at(lexemes(ws, reading) + seq![lexeme("\""@, reading)] + rest) == ws.len(),
    decreases ws.len(),
{
    let all = lexemes(ws, reading) + seq![lexeme("\""@, reading)] + rest;
    if ws.len() > 0 {
        let tail = ws.skip(1);
        assert(all[0].text == ws[0]);
        assert forall|i: int| 0 <= i < tail.len() implies #[trigger] tail[i] != "\""@ by {
            assert(tail[i] == ws[i + 1]);
        }
        lemma_quote_at(tail, rest, reading);
        assert(all.skip(1) =~= lexemes(tail, reading) + seq![lexeme("\""@, reading)] + rest);
    }
}

/// The first `n` lexemes joined are their words joined.
proof fn lemma_join_words(
    all: Seq<LexemeView>,
    ws: Seq<Seq<char>>,
    n: nat,
)
    requires
        n <= ws.len(),
        n <= all.len(),
        forall|i: int| 0 <= i < n ==> (#[trigger] all[i]).text == ws[i],
    ensures
        join_words(all, n) == join_texts(ws, n),
    decreases n,
{
    if n > 1 {
        lemma_join_words(all, ws, (n - 1) as nat);
    }
}

/// Parsing a token that is a value by itself.
proof fn lemma_parse_single(t: LexemeView, v: Value, rest: Seq<LexemeView>)
    requires
        primitive(t) == Some(v) || (primitive(t) is None && op_named(t.text) is None && t.text
            != "{"@ && t.text != "}"@ && t.text != "["@ && t.text != "]"@ && t.text != "\""@
            && v == Value::Symbol(t.text)),
    ensures
        parse_seq(seq![t] + rest) == prepend(seq![v], parse_seq(rest)),
{
    let all = seq![t] + rest;
    assert(all[0] == t);
    assert(all.skip(1) =~= rest);
}

/// The bracket that closes a list or a quotation.
pub open spec fn closer(v: Value) -> Seq<char> {
    if v is List {
        "]"@
    } else {
        "}"@
    }
}

/// Reading back the items between two brackets.
proof fn lemma_parse_bracketed(
    v: Value,
    items: Seq<Value>,
    rest: Seq<LexemeView>,
    float_text: spec_fn(u64) -> Seq<char>,
    reading: spec_fn(Seq<char>) -> Option<u64>,
)
    requires
        honest(reading),
        v == Value::List(items) || v == Value::Quotation(items),
        parse_seq(
            lexemes(spelling_all(items, items.len(), float_text), reading) + (seq![
                lexeme(closer(v), reading),
            ] + rest),
        ) == prepend(items, parse_seq(seq![lexeme(closer(v), reading)] + rest)),
    ensures
        parse_seq(lexemes(spelling(v, float_text), reading) + rest) == prepend(
            seq![v],
            parse_seq(rest),
        ),
{
    lemma_marks();
    let opening = if v is List {
        "["@
    } else {
        "{"@
    };
    let inside = spelling_all(items, items.len(), float_text);
    let inner = lexemes(inside, reading);
    let all = lexemes(spelling(v, float_text), reading) + rest;
    let closing = seq![lexeme(closer(v), reading)] + rest;
    lemma_lexemes_add(seq![opening] + inside, seq![closer(v)], reading);
    lemma_lexemes_add(seq![opening], inside, reading);
    assert(all[0] == lexeme(opening, reading));
    assert(all.skip(1) =~= inner + closing);
    assert(closing[0] == lexeme(closer(v), reading));
    assert(closing.skip(1) =~= rest);
    let got = parse_seq(inner + closing);
    assert(got.items =~= items);
    assert(got.rest == rest);
    assert(!got.failed);
}

/// Reading back the words of a value gives the value, and goes on with the
/// words that follow.
pub proof fn lemma_parse_value(
    v: Value,
    rest: Seq<LexemeView>,
    float_text: spec_fn(u64) -> Seq<char>,
    reading: spec_fn(Seq<char>) -> Option<u64>,
)
    requires
        honest(reading),
        writable(v, float_text, reading),
    ensures
        parse_seq(lexemes(spelling(v, float_text), reading) + rest) == prepend(
            seq![v],
            parse_seq(rest),
        ),
    decreases v, 0nat,
{
    lemma_marks();
    match v {
        Value::Num(NumericView::Integer(i)) => {
            lemma_decimal_reads_back(i);
            assert(lexemes(spelling(v, float_text), reading) =~= seq![
                lexeme(decimal(i), reading),
            ]);
            lemma_parse_single(lexeme(decimal(i), reading), v, rest);
        },
        Value::Num(NumericView::Float(b)) => {
            assert(lexemes(spelling(v, float_text), reading) =~= seq![
                lexeme(float_text(b), reading),
            ]);
            lemma_parse_single(lexeme(float_text(b), reading), v, rest);
        },
        Value::Bool(b) => {
            if b {
                assert(lexemes(spelling(v, float_text), reading) =~= seq![
                    lexeme("True"@, reading),
                ]);
                lemma_parse_single(lexeme("True"@, reading), v, rest);
            } else {
                assert(lexemes(spelling(v, float_text), reading) =~= seq![
                    lexeme("False"@, reading),
                ]);
                lemma_parse_single(lexeme("False"@, reading), v, rest);
            }
        },
        Value::Symbol(name) => {
            assert(lexemes(spelling(v, float_text), reading) =~= seq![lexeme(name, reading)]);
            lemma_parse_single(lexeme(name, reading), v, rest);
        },
        Value::String(s) => {
            let ws = words(s);
            let all = lexemes(spelling(v, float_text), reading) + rest;
            let after = lexemes(ws, reading) + seq![lexeme("\""@, reading)] + rest;
            lemma_lexemes_add(seq!["\""@] + ws, seq!["\""@], reading);
            lemma_lexemes_add(seq!["\""@], ws, reading);
            assert(all[0] == lexeme("\""@, reading));
            assert(all.skip(1) =~= after);
            lemma_quote_at(ws, rest, reading);
            lemma_join_words(after, ws, ws.len());
            assert(after.skip(ws.len() as int + 1) =~= rest);
        },
        Value::List(items) => {
            lemma_parse_items(
                items,
                items.len(),
                seq![lexeme(closer(v), reading)] + rest,
                float_text,
                reading,
            );
            assert(items.take(items.len() as int) =~= items);
            lemma_parse_bracketed(v, items, rest, float_text, reading);
        },
        Value::Quotation(items) => {
            lemma_parse_items(
                items,
                items.len(),
                seq![lexeme(closer(v), reading)] + rest,
                float_text,
                reading,
            );
            assert(items.take(items.len() as int) =~= items);
            lemma_parse_bracketed(v, items, rest, float_text, reading);
        },
        _ => {},
    }
}

/// Reading back the words of several values gives the values.
pub proof fn lemma_parse_items(
    items: Seq<Value>,
    n: nat,
    rest: Seq<LexemeView>,
    float_text: spec_fn(u64) -> Seq<char>,
    reading: spec_fn(Seq<char>) -> Option<u64>,
)
    requires
        honest(reading),
        n <= items.len(),
        all_writable(items, n, float_text, reading),
    ensures
        parse_seq(lexemes(spelling_all(items, n, float_text), reading) + rest) == prepend(
            items.take(n as int),
            parse_seq(rest),
        ),
    decreases items, n,
{
    if n == 0 {
        assert(lexemes(spelling_all(items, n, float_text), reading) + rest =~= rest);
        assert(items.take(0) + parse_seq(rest).items =~= parse_seq(rest).items);
    } else {
        let last = lexemes(spelling(items[n - 1], float_text), reading);
        let before = lexemes(spelling_all(items, (n - 1) as nat, float_text), reading);
        lemma_lexemes_add(
            spelling_all(items, (n - 1) as nat, float_text),
            spelling(items[n - 1], float_text),
            reading,
        );
        lemma_parse_value(items[n - 1], rest, float_text, reading);
        lemma_parse_items(items, (n - 1) as nat, last + rest, float_text, reading);
        assert(lexemes(spelling_all(items, n, float_text), reading) + rest =~= before + (last
            + rest));
        assert(items.take(n - 1) + (seq![items[n - 1]] + parse_seq(rest).items) =~= items.take(
            n as int,
        ) + parse_seq(rest).items);
    }
}

/// The words of a value that can be written read back as that value, and as
/// nothing besides.
pub proof fn law_spelling_reads_back(
    v: Value,
    float_text: spec_fn(u64) -> Seq<char>,
    reading: spec_fn(Seq<char>) -> Option<u64>,
)
    requires
        honest(reading),
        writable(v, float_text, reading),
    ensures
        parse_seq(lexemes(spelling(v, float_text), reading)) == (Parse {
            items: seq![v],
            rest: Seq::empty(),
            failed: false,
        }),
{
    lemma_parse_value(v, Seq::empty(), float_text, reading);
    assert(lexemes(spelling(v, float_text), reading) + Seq::<LexemeView>::empty() =~= lexemes(
        spelling(v, float_text),
        reading,
    ));
    assert(seq![v] + Seq::<Value>::empty() =~= seq![v]);
}

/// The characters of two texts, one after the other.
proof fn lemma_spell_add(a: Seq<Glyph>, b: Seq<Glyph>, float_text: spec_fn(u64) -> Seq<char>)
    ensures
        spell(a + b, float_text) == spell(a, float_text) + spell(b, float_text),
    decreases b.len(),
{
    if b.len() == 0 {
        assert(a + b =~= a);
        assert(spell(a, float_text) + spell(b, float_text) =~= spell(a, float_text));
    } else {
        lemma_spell_add(a, b.drop_last(), float_text);
        assert((a + b).drop_last() =~= a + b.drop_last());
        assert((a + b).last() == b.last());
        let piece = match b.last() {
            Glyph::Char(c) => seq![c],
            Glyph::Float(x) => float_text(x),
        };
        assert(spell(a, float_text) + spell(b.drop_last(), float_text) + piece =~= spell(
            a,
            float_text,
        ) + (spell(b.drop_last(), float_text) + piece));
    }
}

/// The characters of a text without floats.
proof fn lemma_spell_chars(s: Seq<char>, float_text: spec_fn(u64) -> Seq<char>)
    ensures
        spell(chars(s), float_text) == s,
    decreases s.len(),
{
    if s.len() > 0 {
        lemma_spell_chars(s.drop_last(), float_text);
        assert(chars(s).drop_last() =~= chars(s.drop_last()));
        assert(chars(s).last() == Glyph::Char(s.last()));
        assert(s.drop_last() + seq![s.last()] =~= s);
    } else {
        assert(spell(chars(s), float_text) =~= s);
    }
}

/// The walk along the first `n` characters depends on them alone.
proof fn lemma_scan_prefix(x: Seq<char>, y: Seq<char>, n: nat)
    requires
        n <= x.len(),
        n <= y.len(),
        forall|i: int| 0 <= i < n ==> x[i] == y[i],
    ensures
        scan(x, n) == scan(y, n),
    decreases n,
{
    if n > 0 {
        lemma_scan_prefix(x, y, (n - 1) as nat);
    }
}

/// After a text that ends between two words, the walk goes on as from the
/// start, with the words of that text before its own.
proof fn lemma_scan_after(p: Seq<char>, b: Seq<char>, k: nat)
    requires
        k <= b.len(),
        scan(p, p.len()).open.len() == 0,
    ensures
        scan(p + b, p.len() + k) == (Scan {
            done: scan(p, p.len()).done + scan(b, k).done,
            open: scan(b, k).open,
        }),
    decreases k,
{
    if k == 0 {
        lemma_scan_prefix(p + b, p, p.len());
        assert(scan(p, p.len()).done + scan(b, 0).done =~= scan(p, p.len()).done);
        assert(scan(b, 0).open =~= scan(p, p.len()).open);
    } else {
        lemma_scan_after(p, b, (k - 1) as nat);
        assert((p + b)[p.len() + k - 1] == b[k - 1]);
        let before = scan(b, (k - 1) as nat);
        assert(scan(p, p.len()).done + before.done.push(before.open) =~= (scan(p, p.len()).done
            + before.done).push(before.open));
    }
}

/// The words of a text that ends between two words, followed by another
/// text.
proof fn lemma_words_after(p: Seq<char>, b: Seq<char>)
    requires
        scan(p, p.len()).open.len() == 0,
    ensures
        words(p + b) == scan(p, p.len()).done + words(b),
{
    lemma_scan_after(p, b, b.len());
    let end = scan(b, b.len());
    assert(scan(p, p.len()).done + end.done.push(end.open) =~= (scan(p, p.len()).done
        + end.done).push(end.open));
}

/// The words of two texts with a space between them.
proof fn lemma_words_space(a: Seq<char>, b: Seq<char>)
    ensures
        words(a + seq![' '] + b) == words(a) + words(b),
{
    let p = a + seq![' '];
    lemma_scan_prefix(p, a, a.len());
    assert(p[a.len() as int] == ' ');
    assert(is_space(' '));
    lemma_words_after(p, b);
}

/// The walk along a word has the word open.
proof fn lemma_scan_word(w: Seq<char>, k: nat)
    requires
        k <= w.len(),
        forall|i: int| 0 <= i < w.len() ==> !is_space(#[trigger] w[i]),
    ensures
        scan(w, k) == (Scan { done: Seq::empty(), open: w.take(k as int) }),
    decreases k,
{
    if k > 0 {
        lemma_scan_word(w, (k - 1) as nat);
        assert(w.take(k - 1).push(w[k - 1]) =~= w.take(k as int));
    } else {
        assert(w.take(0) =~= Seq::<char>::empty());
    }
}

/// A word is its own one word.
proof fn lemma_words_single(w: Seq<char>)
    requires
        is_word(w),
    ensures
        words(w) == seq![w],
{
    lemma_scan_word(w, w.len());
    assert(w.take(w.len() as int) =~= w);
    assert(Seq::<Seq<char>>::empty().push(w) =~= seq![w]);
}

/// The digits of a number are one word.
proof fn lemma_digits_are_word(n: nat)
    ensures
        is_word(digits(n)),
    decreases n,
{
    if n >= 10 {
        lemma_digits_are_word(n / 10);
    }
    assert(!is_space(digit_char(n % 10)));
}

/// The decimal form of an integer is one word.
proof fn lemma_decimal_is_word(i: int)
    ensures
        is_word(decimal(i)),
{
    if i < 0 {
        lemma_digits_are_word((-i) as nat);
        assert(!is_space('-'));
    } else {
        lemma_digits_are_word(i as nat);
    }
}

/// The words of what stands between two marks, each parted from it by a
/// space.
proof fn lemma_words_between(open: Seq<char>, middle: Seq<char>, close: Seq<char>)
    requires
        is_word(open),
        is_word(close),
    ensures
        words(open + seq![' '] + middle + seq![' '] + close) == seq![open] + words(middle) + seq![
            close,
        ],
{
    lemma_words_single(open);
    lemma_words_single(close);
    lemma_words_space(open, middle + seq![' '] + close);
    lemma_words_space(middle, close);
    assert(open + seq![' '] + middle + seq![' '] + close =~= open + seq![' '] + (middle + seq![
        ' ',
    ] + close));
    assert(seq![open] + (words(middle) + seq![close]) =~= seq![open] + words(middle) + seq![
        close,
    ]);
}

/// The written form of a value splits into the words that spell it.
pub proof fn lemma_text_words(
    v: Value,
    float_text: spec_fn(u64) -> Seq<char>,
    reading: spec_fn(Seq<char>) -> Option<u64>,
)
    requires
        writable(v, float_text, reading),
    ensures
        words(spell(v.text(true), float_text)) == spelling(v, float_text),
    decreases v, 0nat,
{
    reveal_strlit("True");
    reveal_strlit("False");
    reveal_strlit("\"");
    reveal_strlit("\" ");
    reveal_strlit(" \"");
    reveal_strlit("[");
    reveal_strlit("]");
    reveal_strlit("[ ");
    reveal_strlit(" ]");
    reveal_strlit("{");
    reveal_strlit("}");
    reveal_strlit("{ ");
    reveal_strlit(" }");
    reveal_strlit(" ");
    match v {
        Value::Num(NumericView::Integer(i)) => {
            lemma_spell_chars(decimal(i), float_text);
            lemma_decimal_is_word(i);
            lemma_words_single(decimal(i));
        },
        Value::Num(NumericView::Float(b)) => {
            let t = seq![Glyph::Float(b)];
            assert(t.drop_last() =~= Seq::<Glyph>::empty());
            assert(spell(t.drop_last(), float_text) =~= Seq::<char>::empty());
            assert(spell(t, float_text) =~= float_text(b));
            lemma_words_single(float_text(b));
        },
        Value::Bool(b) => {
            if b {
                lemma_spell_chars("True"@, float_text);
                lemma_words_single("True"@);
            } else {
                lemma_spell_chars("False"@, float_text);
                lemma_words_single("False"@);
            }
        },
        Value::Symbol(name) => {
            lemma_spell_chars(name, float_text);
            lemma_words_single(name);
        },
        Value::String(s) => {
            lemma_spell_add(chars("\" "@) + chars(s), chars(" \""@), float_text);
            lemma_spell_add(chars("\" "@), chars(s), float_text);
            lemma_spell_chars("\" "@, float_text);
            lemma_spell_chars(" \""@, float_text);
            lemma_spell_chars(s, float_text);
            lemma_words_between("\""@, s, "\""@);
            assert("\" "@ + s + " \""@ =~= "\""@ + seq![' '] + s + seq![' '] + "\""@);
        },
        Value::List(items) => {
            let j = join_upto(items, items.len(), " "@, true);
            lemma_join_text_words(items, items.len(), float_text, reading);
            lemma_spell_add(chars("[ "@) + j, chars(" ]"@), float_text);
            lemma_spell_add(chars("[ "@), j, float_text);
            lemma_spell_chars("[ "@, float_text);
            lemma_spell_chars(" ]"@, float_text);
            lemma_words_between("["@, spell(j, float_text), "]"@);
            assert("[ "@ + spell(j, float_text) + " ]"@ =~= "["@ + seq![' '] + spell(
                j,
                float_text,
            ) + seq![' '] + "]"@);
        },
        Value::Quotation(items) => {
            let j = join_upto(items, items.len(), " "@, true);
            lemma_join_text_words(items, items.len(), float_text, reading);
            lemma_spell_add(chars("{ "@) + j, chars(" }"@), float_text);
            lemma_spell_add(chars("{ "@), j, float_text);
            lemma_spell_chars("{ "@, float_text);
            lemma_spell_chars(" }"@, float_text);
            lemma_words_between("{"@, spell(j, float_text), "}"@);
            assert("{ "@ + spell(j, float_text) + " }"@ =~= "{"@ + seq![' '] + spell(
                j,
                float_text,
            ) + seq![' '] + "}"@);
        },
        _ => {},
    }
}

/// The written forms of several values, parted by spaces, split into the
/// words that spell them.
pub proof fn lemma_join_text_words(
    items: Seq<Value>,
    n: nat,
    float_text: spec_fn(u64) -> Seq<char>,
    reading: spec_fn(Seq<char>) -> Option<u64>,
)
    requires
        n <= items.len(),
        all_writable(items, n, float_text, reading),
    ensures
        words(spell(join_upto(items, n, " "@, true), float_text)) == spelling_all(
            items,
            n,
            float_text,
        ),
    decreases items, n,
{
    reveal_strlit(" ");
    if n == 0 {
        assert(spell(join_upto(items, n, " "@, true), float_text) =~= Seq::<char>::empty());
        assert(words(Seq::<char>::empty()) =~= Seq::<Seq<char>>::empty());
    } else if n == 1 {
        lemma_text_words(items[0], float_text, reading);
        assert(spelling_all(items, 0, float_text) =~= Seq::<Seq<char>>::empty());
        assert(spelling_all(items, 1, float_text) =~= spelling(items[0], float_text));
    } else {
        let before = join_upto(items, (n - 1) as nat, " "@, true);
        let last = items[n - 1].text(true);
        lemma_join_text_words(items, (n - 1) as nat, float_text, reading);
        lemma_text_words(items[n - 1], float_text, reading);
        lemma_spell_add(before + chars(" "@), last, float_text);
        lemma_spell_add(before, chars(" "@), float_text);
        lemma_spell_chars(" "@, float_text);
        assert(" "@ =~= seq![' ']);
        lemma_words_space(spell(before, float_text), spell(last, float_text));
    }
}

/// Parser round-trip: a value that can be written is read back from its
/// written form. The written form is the text of the value as a program
/// holds it, with the floats written by the host; its words, each with the
/// float that the host reads it as, parse as the value and as nothing
/// besides.
pub proof fn law_parser_round_trip(
    v: Value,
    float_text: spec_fn(u64) -> Seq<char>,
    reading: spec_fn(Seq<char>) -> Option<u64>,
)
    requires
        honest(reading),
        writable(v, float_text, reading),
    ensures
        parse_seq(lexemes(words(spell(v.text(true), float_text)), reading)) == (Parse {
            items: seq![v],
            rest: Seq::empty(),
            failed: false,
        }),
{
    lemma_text_words(v, float_text, reading);
    law_spelling_reads_back(v, float_text, reading);
}

/// What a parse leaves is the end of what it was given: the lexemes are
/// taken from the front, in order, and none is put back.
pub proof fn law_parse_leaves_the_end(tokens: Seq<LexemeView>)
    ensures
        parse_seq(tokens).rest.len() <= tokens.len(),
        parse_seq(tokens).rest == tokens.skip(tokens.len() - parse_seq(tokens).rest.len()),
    decreases tokens.len(),
{
    if tokens.len() == 0 {
        assert(tokens.skip(0) =~= tokens);
    } else {
        let t = tokens[0];
        let rest = tokens.skip(1);
        if primitive(t) is Some || op_named(t.text) is Some {
            law_parse_leaves_the_end(rest);
            let left = parse_seq(rest).rest;
            assert(rest.skip(rest.len() - left.len()) =~= tokens.skip(tokens.len() - left.len()));
        } else if t.text == "}"@ || t.text == "]"@ {
        } else if t.text == "{"@ || t.text == "["@ {
            law_parse_leaves_the_end(rest);
            let inner = parse_seq(rest);
            if inner.failed || inner.rest.len() >= tokens.len() {
                assert(tokens.skip(tokens.len() as int) =~= Seq::<LexemeView>::empty());
            } else {
                law_parse_leaves_the_end(inner.rest);
                let left = parse_seq(inner.rest).rest;
                assert(inner.rest.skip(inner.rest.len() - left.len()) =~= tokens.skip(
                    tokens.len() - left.len(),
                ));
            }
        } else if t.text == "\""@ {
            let k = quote_at(rest);
            if k >= rest.len() {
                assert(tokens.skip(tokens.len() as int) =~= Seq::<LexemeView>::empty());
            } else {
                let after = rest.skip(k as int + 1);
                law_parse_leaves_the_end(after);
                let left = parse_seq(after).rest;
                assert(after.skip(after.len() - left.len()) =~= tokens.skip(
                    tokens.len() - left.len(),
                ));
            }
        } else {
            law_parse_leaves_the_end(rest);
            let left = parse_seq(rest).rest;
            assert(rest.skip(rest.len() - left.len()) =~= tokens.skip(tokens.len() - left.len()));
        }
    }
}

/// No lexeme is a quote mark.
pub open spec fn quoteless(tokens: Seq<LexemeView>) -> bool {
    forall|i: int| 0 <= i < tokens.len() ==> (#[trigger] tokens[i]).text != "\""@
}

/// A parse fails on an open string alone: lexemes of which none is a quote
/// mark always parse.
pub proof fn law_parse_without_strings(tokens: Seq<LexemeView>)
    requires
        quoteless(tokens),
    ensures
        !parse_seq(tokens).failed,
    decreases tokens.len(),
{
    if tokens.len() > 0 {
        let t = tokens[0];
        let rest = tokens.skip(1);
        assert(t.text != "\""@);
        assert(quoteless(rest)) by {
            assert forall|i: int| 0 <= i < rest.len() implies (#[trigger] rest[i]).text != "\""@ by {
                assert(rest[i] == tokens[i + 1]);
            }
        }
        law_parse_without_strings(rest);
        if primitive(t) is None && op_named(t.text) is None && (t.text == "{"@ || t.text == "["@) {
            let inner = parse_seq(rest);
            law_parse_leaves_the_end(rest);
            let left = inner.rest;
            assert(quoteless(left)) by {
                assert forall|i: int| 0 <= i < left.len() implies (#[trigger] left[i]).text
                    != "\""@ by {
                    assert(left[i] == rest[rest.len() - left.len() + i]);
                }
            }
            law_parse_without_strings(left);
        }
    }
}

/// Along a text, each finished word is a word, and the open word holds no
/// white space.
proof fn lemma_scan_gives_words(s: Seq<char>, n: nat)
    requires
        n <= s.len(),
    ensures
        forall|i: int| 0 <= i < scan(s, n).done.len() ==> is_word(#[trigger] scan(s, n).done[i]),
        forall|j: int| 0 <= j < scan(s, n).open.len() ==> !is_space(#[trigger] scan(s, n).open[j]),
    decreases n,
{
    if n > 0 {
        lemma_scan_gives_words(s, (n - 1) as nat);
        let before = scan(s, (n - 1) as nat);
        let now = scan(s, n);
        let c = s[n - 1];
        assert forall|i: int| 0 <= i < now.done.len() implies is_word(#[trigger] now.done[i]) by {
            if is_space(c) && before.open.len() > 0 && i == before.done.len() {
                assert(now.done[i] == before.open);
                assert forall|j: int| 0 <= j < before.open.len() implies !is_space(
                    #[trigger] before.open[j],
                ) by {}
            } else {
                assert(now.done[i] == before.done[i]);
            }
        }
        assert forall|j: int| 0 <= j < now.open.len() implies !is_space(#[trigger] now.open[j]) by {
            if !is_space(c) {
                if j < before.open.len() {
                    assert(now.open[j] == before.open[j]);
                } else {
                    assert(now.open[j] == c);
                }
            }
        }
    }
}

/// Each word of a text is a word: it is not empty and holds no white space.
pub proof fn law_words_are_words(s: Seq<char>)
    ensures
        forall|i: int| 0 <= i < words(s).len() ==> is_word(#[trigger] words(s)[i]),
{
    lemma_scan_gives_words(s, s.len());
}

/// The words of words joined by single spaces are those words.
pub proof fn law_words_of_joined(ws: Seq<Seq<char>>, n: nat)
    requires
        n <= ws.len(),
        forall|i: int| 0 <= i < n ==> is_word(#[trigger] ws[i]),
    ensures
        words(join_texts(ws, n)) == ws.take(n as int),
    decreases n,
{
    if n == 0 {
        assert(words(join_texts(ws, 0)) =~= ws.take(0));
    } else if n == 1 {
        lemma_words_single(ws[0]);
        assert(ws.take(1) =~= seq![ws[0]]);
    } else {
        let before = join_texts(ws, (n - 1) as nat);
        law_words_of_joined(ws, (n - 1) as nat);
        lemma_words_single(ws[n - 1]);
        lemma_words_space(before, ws[n - 1]);
        assert(before.push(' ') + ws[n - 1] =~= before + seq![' '] + ws[n - 1]);
        assert(ws.take(n - 1) + seq![ws[n - 1]] =~= ws.take(n as int));
    }
}

} // verus!
