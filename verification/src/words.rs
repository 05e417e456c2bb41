//! Whitespace and the splitting of a piece of text into tokens.

use vstd::prelude::*;
use vstd::string::*;

verus! {

/// Whether `c` separates tokens: the characters that Unicode counts as
/// White_Space.
pub open spec fn is_space(c: char) -> bool {
    let n = c as u32;
    ||| 0x09 <= n <= 0x0D
    ||| n == 0x20
    ||| n == 0x85
    ||| n == 0xA0
    ||| n == 0x1680
    ||| 0x2000 <= n <= 0x200A
    ||| n == 0x2028
    ||| n == 0x2029
    ||| n == 0x202F
    ||| n == 0x205F
    ||| n == 0x3000
}

/// The length of the longest prefix of `s` that holds no separator.
pub open spec fn word_len(s: Seq<char>) -> nat
    decreases s.len(),
{
    if s.len() == 0 || is_space(s[0]) {
        0
    } else {
        1 + word_len(s.skip(1))
    }
}

/// The tokens of `s`: its maximal runs of characters that are no separators,
/// from left to right.
pub open spec fn words_of(s: Seq<char>) -> Seq<Seq<char>>
    decreases s.len(),
{
    let n = word_len(s) as int;
    let head = if n > 0 {
        seq![s.take(n)]
    } else {
        Seq::empty()
    };
    if n >= s.len() {
        head
    } else {
        head + words_of(s.skip(n + 1))
    }
}

/// What each of the strings holds, in order.
pub open spec fn texts(v: Seq<String>) -> Seq<Seq<char>> {
    Seq::new(v.len(), |i: int| v[i]@)
}

/// `word_len` stops at the first separator, and not before.
pub proof fn lemma_word_len(s: Seq<char>)
    ensures
        word_len(s) <= s.len(),
        forall|k: int| 0 <= k < word_len(s) ==> !is_space(#[trigger] s[k]),
        word_len(s) < s.len() ==> is_space(s[word_len(s) as int]),
    decreases s.len(),
{
    if s.len() == 0 || is_space(s[0]) {
    } else {
        let t = s.skip(1);
        lemma_word_len(t);
        assert forall|k: int| 0 <= k < word_len(s) implies !is_space(#[trigger] s[k]) by {
            if k > 0 {
                assert(s[k] == t[k - 1]);
            }
        }
    }
}

/// Whether `w` can be a token: it is not empty and holds no separator.
pub open spec fn is_token(w: Seq<char>) -> bool {
    w.len() > 0 && forall|k: int| 0 <= k < w.len() ==> !is_space(#[trigger] w[k])
}

/// Every one of the tokens of a text is a token: none is empty and none
/// holds a separator.
pub proof fn lemma_words_are_tokens(s: Seq<char>)
    ensures
        forall|i: int| 0 <= i < words_of(s).len() ==> is_token(#[trigger] words_of(s)[i]),
    decreases s.len(),
{
    let n = word_len(s) as int;
    lemma_word_len(s);
    let head = if n > 0 {
        seq![s.take(n)]
    } else {
        Seq::empty()
    };
    if n > 0 {
        assert forall|k: int| 0 <= k < n implies !is_space(#[trigger] s.take(n)[k]) by {
            assert(s.take(n)[k] == s[k]);
        }
        assert(is_token(head[0]));
    }
    if n >= s.len() {
        assert(words_of(s) == head);
    } else {
        let tail = words_of(s.skip(n + 1));
        lemma_words_are_tokens(s.skip(n + 1));
        assert forall|i: int| 0 <= i < words_of(s).len() implies is_token(
            #[trigger] words_of(s)[i],
        ) by {
            if i < head.len() {
                assert(words_of(s)[i] == head[i]);
            } else {
                assert(words_of(s)[i] == tail[i - head.len()]);
            }
        }
    }
}

/// Whether `c` separates tokens.
pub fn is_whitespace(c: char) -> (r: bool)
    ensures
        r == is_space(c),
{
    let n: u32 = c as u32;
    (0x09 <= n && n <= 0x0D) || n == 0x20 || n == 0x85 || n == 0xA0 || n == 0x1680 || (0x2000 <= n
        && n <= 0x200A) || n == 0x2028 || n == 0x2029 || n == 0x202F || n == 0x205F || n == 0x3000
}

/// Splits `segment` at whitespace. No token is empty, and none holds a separator.
pub fn split_words(segment: &str) -> (out: Vec<String>)
    ensures
        texts(out@) == words_of(segment@),
        forall|i: int| 0 <= i < out@.len() ==> is_token(#[trigger] out@[i]@),
{
    let n: usize = segment.unicode_len();
    let mut out: Vec<String> = Vec::new();
    let mut i: usize = 0;
    let mut done: bool = false;
    proof {
        assert(segment@.skip(0) =~= segment@);
        assert(texts(out@) + words_of(segment@) =~= words_of(segment@));
    }
    while !done
        invariant
            n == segment@.len(),
            i <= n,
            !done ==> texts(out@) + words_of(segment@.skip(i as int)) == words_of(segment@),
            done ==> texts(out@) == words_of(segment@),
        decreases (if done { 0 } else { n - i + 1 }),
    {
        let ghost rest = segment@.skip(i as int);
        let mut j: usize = i;
        while j < n && !is_whitespace(segment.get_char(j))
            invariant
                n == segment@.len(),
                i <= j <= n,
                (j - i) + word_len(segment@.skip(j as int)) == word_len(segment@.skip(i as int)),
            decreases n - j,
        {
            proof {
                assert(segment@.skip(j as int).skip(1) =~= segment@.skip(j + 1));
            }
            j += 1;
        }
        assert(word_len(rest) == j - i);
        let ghost before = texts(out@);
        if j > i {
            let word = String::from_str(segment.substring_char(i, j));
            proof {
                assert(rest.take(j - i) =~= segment@.subrange(i as int, j as int));
                assert(texts(out@.push(word)) =~= before + seq![word@]);
            }
            out.push(word);
        }
        if j >= n {
            proof {
                assert(texts(out@) =~= before + words_of(rest));
            }
            done = true;
        } else {
            proof {
                assert(rest.skip(j - i + 1) =~= segment@.skip(j + 1));
                assert(texts(out@) + words_of(segment@.skip(j + 1)) =~= before + words_of(rest));
            }
            i = j + 1;
        }
    }
    proof {
        lemma_words_are_tokens(segment@);
        assert forall|i: int| 0 <= i < out@.len() implies is_token(#[trigger] out@[i]@) by {
            assert(out@[i]@ == texts(out@)[i]);
        }
    }
    out
}

} // verus!
