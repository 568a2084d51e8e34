//! Splitting text into words.

use crate::text::{char_at, characters, push_char};
use std::collections::VecDeque;
use vstd::prelude::*;
use vstd::string::StringExecFns;

verus! {

/// The white space of Unicode: the characters that part one word from the
/// next.
pub open spec fn is_space(c: char) -> bool {
    let n = c as u32;
    (0x09 <= n <= 0x0D) || n == 0x20 || n == 0x85 || n == 0xA0 || n == 0x1680 || (0x2000 <= n
        <= 0x200A) || n == 0x2028 || n == 0x2029 || n == 0x202F || n == 0x205F || n == 0x3000
}

/// The state of a walk along a text: the words that are finished, and the
/// characters of the word that is still open.
pub struct Scan {
    pub done: Seq<Seq<char>>,
    pub open: Seq<char>,
}

/// The walk along the first `n` characters of `s`: a white space closes the
/// open word, if any; another character is added to it.
pub open spec fn scan(s: Seq<char>, n: nat) -> Scan
    decreases n,
{
    if n == 0 || n > s.len() {
        Scan { done: Seq::empty(), open: Seq::empty() }
    } else {
        let before = scan(s, (n - 1) as nat);
        let c = s[n - 1];
        if is_space(c) {
            if before.open.len() > 0 {
                Scan { done: before.done.push(before.open), open: Seq::empty() }
            } else {
                before
            }
        } else {
            Scan { done: before.done, open: before.open.push(c) }
        }
    }
}

/// The words of a text: its longest runs of characters that are no white
/// space, in order.
pub open spec fn words(s: Seq<char>) -> Seq<Seq<char>> {
    let end = scan(s, s.len());
    if end.open.len() > 0 {
        end.done.push(end.open)
    } else {
        end.done
    }
}

/// The character sequences that strings hold.
pub open spec fn texts(v: Seq<String>) -> Seq<Seq<char>> {
    Seq::new(v.len(), |i: int| v[i]@)
}

/// Whether a character is white space.
pub fn is_whitespace(c: char) -> (r: bool)
    ensures
        r == is_space(c),
{
    let n = c as u32;
    (0x09 <= n && n <= 0x0D) || n == 0x20 || n == 0x85 || n == 0xA0 || n == 0x1680 || (0x2000
        <= n && n <= 0x200A) || n == 0x2028 || n == 0x2029 || n == 0x202F || n == 0x205F || n
        == 0x3000
}

/// The words of a text, as strings.
pub fn split_words(input: &str) -> (r: Vec<String>)
    ensures
        texts(r@) == words(input@),
{
    let mut done: Vec<String> = Vec::new();
    let mut open = String::new();
    let mut open_len: usize = 0;
    let cs = characters(input);
    let n = cs.len();
    let mut i: usize = 0;
    proof {
        assert(texts(done@) =~= scan(input@, 0).done);
    }
    while i < n
        invariant
            cs@ == input@,
            n == input@.len(),
            i <= n,
            texts(done@) == scan(input@, i as nat).done,
            open@ == scan(input@, i as nat).open,
            (open_len == 0) == (open@.len() == 0),
        decreases n - i,
    {
        let c = char_at(&cs, i);
        if is_whitespace(c) {
            if open_len > 0 {
                proof {
                    assert(texts(done@.push(open)) =~= texts(done@).push(open@));
                }
                done.push(open);
                open = String::new();
                open_len = 0;
            }
        } else {
            push_char(&mut open, c);
            open_len = 1;
        }
        i = i + 1;
    }
    if open_len > 0 {
        proof {
            assert(texts(done@.push(open)) =~= texts(done@).push(open@));
        }
        done.push(open);
    }
    done
}

/// The words of a text, as a queue.
pub fn to_tokens(input: &str) -> (r: VecDeque<String>)
    ensures
        texts(r@) == words(input@),
{
    let list = split_words(input);
    let mut out: VecDeque<String> = VecDeque::new();
    let mut i: usize = 0;
    while i < list.len()
        invariant
            i <= list.len(),
            texts(out@) == texts(list@).subrange(0, i as int),
        decreases list.len() - i,
    {
        proof {
            assert(texts(out@.push(list@[i as int])) =~= texts(out@).push(list@[i as int]@));
            assert(texts(list@).subrange(0, i + 1) =~= texts(list@).subrange(0, i as int).push(
                list@[i as int]@,
            ));
        }
        out.push_back(list[i].clone());
        i = i + 1;
    }
    proof {
        assert(texts(list@).subrange(0, list.len() as int) =~= texts(list@));
    }
    out
}

/// The given words as owned strings.
pub fn string_vec(vec: &[&str]) -> (r: Vec<String>)
    ensures
        r@.len() == vec@.len(),
        forall|i: int| 0 <= i < vec@.len() ==> (#[trigger] r@[i])@ == vec@[i]@,
{
    let mut out: Vec<String> = Vec::new();
    let mut i: usize = 0;
    while i < vec.len()
        invariant
            i <= vec@.len(),
            out@.len() == i,
            forall|j: int| 0 <= j < i ==> (#[trigger] out@[j])@ == vec@[j]@,
        decreases vec.len() - i,
    {
        out.push(String::from_str(vec[i]));
        i = i + 1;
    }
    out
}

/// The given words as a queue of owned strings.
pub fn string_vec_deque(vec: &[&str]) -> (r: VecDeque<String>)
    ensures
        r@.len() == vec@.len(),
        forall|i: int| 0 <= i < vec@.len() ==> (#[trigger] r@[i])@ == vec@[i]@,
{
    let mut out: VecDeque<String> = VecDeque::new();
    let mut i: usize = 0;
    while i < vec.len()
        invariant
            i <= vec@.len(),
            out@.len() == i,
            forall|j: int| 0 <= j < i ==> (#[trigger] out@[j])@ == vec@[j]@,
        decreases vec.len() - i,
    {
        out.push_back(String::from_str(vec[i]));
        i = i + 1;
    }
    out
}

} // verus!
