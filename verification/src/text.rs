//! Text as a sequence of characters: white space, words, trimming and joining.
//!
//! Every function here is stated over `Seq<char>`, the view of `str` and
//! `String`.  A *word* is a maximal run of characters that are not white
//! space.

use vstd::prelude::*;
use vstd::utf8::{decode_utf8, encode_utf8, valid_utf8};

verus! {

/// The text that bytes stand for when every sequence among them that is not
/// UTF-8 is replaced by U+FFFD, as `String::from_utf8_lossy` does it.
pub uninterp spec fn lossy_text(bytes: Seq<u8>) -> Seq<char>;

/// The views of the given strings.
pub open spec fn texts(v: Seq<String>) -> Seq<Seq<char>> {
    v.map_values(|s: String| s@)
}

/// `String::from_utf8_lossy`, as an owned string.
///
/// The contract names the result, and says of it what the documentation of
/// std says: bytes that are UTF-8 give the text that they encode.
#[verifier::external_body]
fn from_utf8_lossy(bytes: &[u8]) -> (text: String)
    ensures
        text@ == lossy_text(bytes@),
        valid_utf8(bytes@) ==> text@ == decode_utf8(bytes@),
{
    String::from_utf8_lossy(bytes).into_owned()
}

/// The text that bytes stand for: the text that they encode where they are
/// UTF-8, and else that text with a replacement for what is not.
pub open spec fn as_text(bytes: Seq<u8>) -> Seq<char> {
    if valid_utf8(bytes) {
        decode_utf8(bytes)
    } else {
        lossy_text(bytes)
    }
}

/// The text that bytes stand for.
pub fn text_of(bytes: &[u8]) -> (text: String)
    ensures
        text@ == as_text(bytes@),
{
    from_utf8_lossy(bytes)
}

/// A text is what its encoding stands for.
pub proof fn lemma_text_of_encoding(text: Seq<char>)
    ensures
        as_text(encode_utf8(text)) == text,
{
    vstd::utf8::encode_utf8_valid_utf8(text);
    vstd::utf8::encode_utf8_decode_utf8(text);
}

/// The characters with the Unicode property `White_Space`.
pub open spec fn is_space(c: char) -> bool {
    let n = c as u32;
    ||| 0x09 <= n <= 0x0d
    ||| n == 0x20
    ||| n == 0x85
    ||| n == 0xa0
    ||| n == 0x1680
    ||| 0x2000 <= n <= 0x200a
    ||| n == 0x2028
    ||| n == 0x2029
    ||| n == 0x202f
    ||| n == 0x205f
    ||| n == 0x3000
}

/// No character of `s` is white space.
pub open spec fn space_free(s: Seq<char>) -> bool {
    forall|i: int| 0 <= i < s.len() ==> !is_space(#[trigger] s[i])
}

/// Every character of `s` is white space.
pub open spec fn all_space(s: Seq<char>) -> bool {
    forall|i: int| 0 <= i < s.len() ==> is_space(#[trigger] s[i])
}

/// The length of the run of characters at the front of `s` that are not
/// white space.
pub open spec fn word_len(s: Seq<char>) -> nat
    decreases s.len(),
{
    if s.len() == 0 || is_space(s[0]) {
        0
    } else {
        1 + word_len(s.skip(1))
    }
}

/// The words of `s`, in the order in which they occur.
pub open spec fn words(s: Seq<char>) -> Seq<Seq<char>>
    decreases s.len(),
{
    if s.len() == 0 {
        Seq::empty()
    } else if is_space(s[0]) {
        words(s.skip(1))
    } else {
        proof {
            lemma_word_len_bounds(s);
        }
        seq![s.take(word_len(s) as int)] + words(s.skip(word_len(s) as int))
    }
}

/// The given words with one space between each two neighbours.
pub open spec fn join(ws: Seq<Seq<char>>) -> Seq<char>
    decreases ws.len(),
{
    if ws.len() == 0 {
        Seq::empty()
    } else if ws.len() == 1 {
        ws[0]
    } else {
        join(ws.drop_last()) + seq![' '] + ws.last()
    }
}

/// `s` without the white space at its front.
pub open spec fn trim_start(s: Seq<char>) -> Seq<char>
    decreases s.len(),
{
    if s.len() > 0 && is_space(s[0]) {
        trim_start(s.skip(1))
    } else {
        s
    }
}

/// `s` without the white space at its end.
pub open spec fn trim_end(s: Seq<char>) -> Seq<char>
    decreases s.len(),
{
    if s.len() > 0 && is_space(s.last()) {
        trim_end(s.drop_last())
    } else {
        s
    }
}

/// `s` without the white space at either end.
pub open spec fn trimmed(s: Seq<char>) -> Seq<char> {
    trim_end(trim_start(s))
}

/// Every word is non-empty and holds no white space.
pub open spec fn well_formed_words(ws: Seq<Seq<char>>) -> bool {
    forall|i: int| 0 <= i < ws.len() ==> (#[trigger] ws[i]).len() > 0 && space_free(ws[i])
}

/// A run of `n` characters that are not white space, followed by white space
/// or by the end of the text, is the first word's length.
pub proof fn lemma_word_len(s: Seq<char>, n: int)
    requires
        0 <= n <= s.len(),
        space_free(s.take(n)),
        n == s.len() || is_space(s[n]),
    ensures
        word_len(s) == n,
    decreases n,
{
    if n == 0 {
    } else {
        assert(s.take(n)[0] == s[0]);
        let t = s.skip(1);
        assert forall|i: int| 0 <= i < n - 1 implies !is_space(#[trigger] t.take(n - 1)[i]) by {
            assert(t.take(n - 1)[i] == s.take(n)[i + 1]);
        }
        lemma_word_len(t, n - 1);
    }
}

/// White space at the front of a text does not change its words.
pub proof fn lemma_words_skip_space(s: Seq<char>, n: int)
    requires
        0 <= n <= s.len(),
        all_space(s.take(n)),
    ensures
        words(s) == words(s.skip(n)),
    decreases n,
{
    if n == 0 {
        assert(s.skip(0) =~= s);
    } else {
        assert(s.take(n)[0] == s[0]);
        let t = s.skip(1);
        assert forall|i: int| 0 <= i < n - 1 implies is_space(#[trigger] t.take(n - 1)[i]) by {
            assert(t.take(n - 1)[i] == s.take(n)[i + 1]);
        }
        lemma_words_skip_space(t, n - 1);
        assert(t.skip(n - 1) =~= s.skip(n));
    }
}

/// A text that starts with a word of `n` characters has that word first, and
/// then the words of what follows it.
pub proof fn lemma_words_first(s: Seq<char>, n: int)
    requires
        0 < n <= s.len(),
        space_free(s.take(n)),
        n == s.len() || is_space(s[n]),
    ensures
        words(s) == seq![s.take(n)] + words(s.skip(n)),
{
    lemma_word_len(s, n);
    assert(s.take(n)[0] == s[0]);
}

/// The words of a text are non-empty and hold no white space.
pub proof fn lemma_words_well_formed(s: Seq<char>)
    ensures
        well_formed_words(words(s)),
    decreases s.len(),
{
    if s.len() == 0 {
    } else if is_space(s[0]) {
        lemma_words_well_formed(s.skip(1));
    } else {
        let n = word_len(s) as int;
        lemma_word_len_bounds(s);
        lemma_words_well_formed(s.skip(n));
        let rest = words(s.skip(n));
        let all = words(s);
        assert forall|i: int| 0 <= i < all.len() implies (#[trigger] all[i]).len() > 0
            && space_free(all[i]) by {
            if i == 0 {
                assert(all[0] == s.take(n));
            } else {
                assert(all[i] == rest[i - 1]);
            }
        }
    }
}

/// The first word's length is within the text, its characters are not white
/// space, and white space or the end of the text follows it.
pub proof fn lemma_word_len_bounds(s: Seq<char>)
    ensures
        word_len(s) <= s.len(),
        space_free(s.take(word_len(s) as int)),
        word_len(s) == s.len() || is_space(s[word_len(s) as int]),
        s.len() > 0 && !is_space(s[0]) ==> word_len(s) > 0,
    decreases s.len(),
{
    if s.len() == 0 || is_space(s[0]) {
    } else {
        let t = s.skip(1);
        lemma_word_len_bounds(t);
        let n = word_len(s) as int;
        assert forall|i: int| 0 <= i < n implies !is_space(#[trigger] s.take(n)[i]) by {
            if i > 0 {
                assert(s.take(n)[i] == t.take(n - 1)[i - 1]);
            }
        }
        if n < s.len() {
            assert(s[n] == t[n - 1]);
        }
    }
}

/// White space alone trims to nothing.
pub proof fn lemma_trim_all_space(s: Seq<char>)
    requires
        all_space(s),
    ensures
        trim_start(s) == Seq::<char>::empty(),
        trimmed(s) == Seq::<char>::empty(),
    decreases s.len(),
{
    if s.len() > 0 {
        assert(is_space(s[0]));
        let t = s.skip(1);
        assert forall|i: int| 0 <= i < t.len() implies is_space(#[trigger] t[i]) by {
            assert(t[i] == s[i + 1]);
        }
        lemma_trim_all_space(t);
    }
}

/// Trimming at the front removes exactly the leading run of white space.
pub proof fn lemma_trim_start(s: Seq<char>, n: int)
    requires
        0 <= n <= s.len(),
        all_space(s.take(n)),
        n == s.len() || !is_space(s[n]),
    ensures
        trim_start(s) == s.skip(n),
    decreases n,
{
    if n == 0 {
        assert(s.skip(0) =~= s);
    } else {
        assert(s.take(n)[0] == s[0]);
        let t = s.skip(1);
        assert forall|i: int| 0 <= i < n - 1 implies is_space(#[trigger] t.take(n - 1)[i]) by {
            assert(t.take(n - 1)[i] == s.take(n)[i + 1]);
        }
        lemma_trim_start(t, n - 1);
        assert(t.skip(n - 1) =~= s.skip(n));
    }
}

/// Trimming at the end removes exactly the trailing run of white space.
pub proof fn lemma_trim_end(s: Seq<char>, n: int)
    requires
        0 <= n <= s.len(),
        all_space(s.skip(n)),
        n == 0 || !is_space(s[n - 1]),
    ensures
        trim_end(s) == s.take(n),
    decreases s.len() - n,
{
    if n == s.len() {
        assert(s.take(n) =~= s);
    } else {
        assert(s.skip(n)[s.len() - n - 1] == s.last());
        let t = s.drop_last();
        assert forall|i: int| 0 <= i < t.skip(n).len() implies is_space(#[trigger] t.skip(n)[i]) by {
            assert(t.skip(n)[i] == s.skip(n)[i]);
        }
        lemma_trim_end(t, n);
        assert(t.take(n) =~= s.take(n));
    }
}

/// A word after a text and a space is one more word.
pub proof fn lemma_words_push(a: Seq<char>, w: Seq<char>)
    requires
        w.len() > 0,
        space_free(w),
    ensures
        words(a + seq![' '] + w) == words(a).push(w),
    decreases a.len(),
{
    let s = a + seq![' '] + w;
    if a.len() == 0 {
        assert(s[0] == ' ');
        assert(s.skip(1) =~= w);
        assert(w.take(w.len() as int) =~= w);
        lemma_words_first(w, w.len() as int);
        assert(w.skip(w.len() as int) =~= Seq::<char>::empty());
        assert(words(s) =~= words(a).push(w));
    } else if is_space(a[0]) {
        assert(s[0] == a[0]);
        assert(s.skip(1) =~= a.skip(1) + seq![' '] + w);
        lemma_words_push(a.skip(1), w);
    } else {
        let n = word_len(a) as int;
        lemma_word_len_bounds(a);
        assert(s[0] == a[0]);
        assert(s.take(n) =~= a.take(n));
        if n < a.len() {
            assert(s[n] == a[n]);
        } else {
            assert(s[n] == ' ');
        }
        lemma_word_len(s, n);
        assert(s.skip(n) =~= a.skip(n) + seq![' '] + w);
        lemma_words_push(a.skip(n), w);
        assert(words(s) =~= words(a).push(w));
    }
}

/// Words that are joined are found again.
pub proof fn lemma_words_join(ws: Seq<Seq<char>>)
    requires
        well_formed_words(ws),
    ensures
        words(join(ws)) == ws,
        ws.len() > 0 ==> join(ws).len() > 0,
    decreases ws.len(),
{
    if ws.len() == 0 {
    } else if ws.len() == 1 {
        let w = ws[0];
        assert(w.take(w.len() as int) =~= w);
        lemma_words_first(w, w.len() as int);
        assert(w.skip(w.len() as int) =~= Seq::<char>::empty());
        assert(words(w) =~= ws);
    } else {
        let front = ws.drop_last();
        assert forall|i: int| 0 <= i < front.len() implies (#[trigger] front[i]).len() > 0
            && space_free(front[i]) by {
            assert(front[i] == ws[i]);
        }
        lemma_words_join(front);
        assert(ws.last() == ws[ws.len() - 1]);
        lemma_words_push(join(front), ws.last());
        assert(front.push(ws.last()) =~= ws);
    }
}

/// Whether `c` is white space.
pub fn is_whitespace(c: char) -> (b: bool)
    ensures
        b == is_space(c),
{
    let n: u32 = c as u32;
    (0x09 <= n && n <= 0x0d) || n == 0x20 || n == 0x85 || n == 0xa0 || n == 0x1680 || (0x2000 <= n
        && n <= 0x200a) || n == 0x2028 || n == 0x2029 || n == 0x202f || n == 0x205f || n == 0x3000
}

/// Whether two texts hold the same characters.
pub fn same_text(a: &str, b: &str) -> (same: bool)
    ensures
        same == (a@ == b@),
{
    let x = a.as_bytes();
    let y = b.as_bytes();
    proof {
        vstd::utf8::encode_utf8_decode_utf8(a@);
        vstd::utf8::encode_utf8_decode_utf8(b@);
    }
    if x.len() != y.len() {
        return false;
    }
    let mut i: usize = 0;
    while i < x.len()
        invariant
            0 <= i <= x.len(),
            x.len() == y.len(),
            x@ == encode_utf8(a@),
            y@ == encode_utf8(b@),
            forall|j: int| 0 <= j < i ==> x@[j] == y@[j],
        decreases x.len() - i,
    {
        if x[i] != y[i] {
            return false;
        }
        i += 1;
    }
    assert(x@ =~= y@);
    true
}

/// The part of `msg` between its leading and its trailing white space.
pub fn trim<'a>(msg: &'a str) -> (r: &'a str)
    ensures
        r@ == trimmed(msg@),
{
    let total = msg.unicode_len();
    let mut found = false;
    let mut first: usize = 0;
    let mut end: usize = 0;
    let mut i: usize = 0;
    for c in it: msg.chars()
        invariant
            i == it.index(),
            it.seq() == msg@,
            total == msg@.len(),
            !found ==> all_space(msg@.take(i as int)),
            found ==> first < end <= i,
            found ==> all_space(msg@.take(first as int)) && !is_space(msg@[first as int]),
            found ==> !is_space(msg@[end - 1]) && all_space(msg@.subrange(end as int, i as int)),
    {
        let ghost before = msg@.take(i as int);
        let ghost after = msg@.take(i + 1);
        if is_whitespace(c) {
            proof {
                if !found {
                    assert forall|j: int| 0 <= j < after.len() implies is_space(
                        #[trigger] after[j],
                    ) by {
                        if j < i {
                            assert(after[j] == before[j]);
                        }
                    }
                } else {
                    let gap = msg@.subrange(end as int, i as int);
                    let wider = msg@.subrange(end as int, i + 1);
                    assert forall|j: int| 0 <= j < wider.len() implies is_space(
                        #[trigger] wider[j],
                    ) by {
                        if j < gap.len() {
                            assert(wider[j] == gap[j]);
                        }
                    }
                }
            }
        } else {
            if !found {
                found = true;
                first = i;
            }
            end = i + 1;
        }
        i += 1;
    }
    if !found {
        proof {
            assert(msg@.take(i as int) =~= msg@);
            lemma_trim_all_space(msg@);
            reveal_strlit("");
        }
        assert(""@ =~= Seq::<char>::empty());
        ""
    } else {
        proof {
            lemma_trim_start(msg@, first as int);
            let t = msg@.skip(first as int);
            assert(t.skip(end - first) =~= msg@.subrange(end as int, total as int));
            lemma_trim_end(t, end - first);
            assert(t.take(end - first) =~= msg@.subrange(first as int, end as int));
        }
        msg.substring_char(first, end)
    }
}

} // verus!
