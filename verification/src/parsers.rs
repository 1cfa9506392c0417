//! The parsers that the handler and the clients share.

use crate::decimal::{
    all_digits, digit_value, digits_len, digits_value, is_digit, lemma_digits_len,
    lemma_digits_len_at_least, lemma_digits_value_grows, parsed, unsigned_part, NumberError,
};
use crate::text::{
    is_space, is_whitespace, join, lemma_words_first, lemma_words_skip_space, space_free, words,
};
use vstd::prelude::*;

verus! {

/// The first of the given words, or the empty text where there is none.
pub open spec fn first_or_empty(ws: Seq<Seq<char>>) -> Seq<char> {
    if ws.len() == 0 {
        Seq::empty()
    } else {
        ws[0]
    }
}

/// The given words but the first, with one space between each two.
pub open spec fn rest_joined(ws: Seq<Seq<char>>) -> Seq<char> {
    if ws.len() == 0 {
        Seq::empty()
    } else {
        join(ws.skip(1))
    }
}

/// The head of a message: its first word, or the empty text.
pub open spec fn head(msg: Seq<char>) -> Seq<char> {
    first_or_empty(words(msg))
}

/// The tail of a message: the words after the first, with one space between
/// each two, whatever white space stood between them in the message.
pub open spec fn tail(msg: Seq<char>) -> Seq<char> {
    rest_joined(words(msg))
}

/// Adds `word` to a head and a tail that hold the words `done`.
fn take_word(
    head: &mut String,
    tail: &mut String,
    count: usize,
    word: &str,
    done: Ghost<Seq<Seq<char>>>,
)
    requires
        count == done@.len(),
        old(head)@ == first_or_empty(done@),
        old(tail)@ == rest_joined(done@),
    ensures
        final(head)@ == first_or_empty(done@.push(word@)),
        final(tail)@ == rest_joined(done@.push(word@)),
{
    let ghost all = done@.push(word@);
    if count == 0 {
        head.append(word);
        assert(head@ =~= word@);
        assert(all.skip(1) =~= Seq::<Seq<char>>::empty());
    } else {
        if count > 1 {
            tail.append(" ");
        }
        tail.append(word);
        proof {
            reveal_strlit(" ");
            assert(" "@ =~= seq![' ']);
            assert(all.skip(1).drop_last() =~= done@.skip(1));
            assert(all.skip(1).last() == word@);
            if count == 1 {
                assert(done@.skip(1) =~= Seq::<Seq<char>>::empty());
                assert(tail@ =~= word@);
            } else {
                assert(tail@ =~= join(done@.skip(1)) + seq![' '] + word@);
            }
        }
    }
}

/// Splits a message into its head and its tail, with white space as the
/// delimiter.
pub fn split2(msg: &str) -> (r: (String, String))
    ensures
        r.0@ == head(msg@),
        r.1@ == tail(msg@),
{
    let total = msg.unicode_len();
    let ghost s = msg@;
    let ghost mut done: Seq<Seq<char>> = Seq::empty();
    let mut head = String::new();
    let mut tail = String::new();
    let mut count: usize = 0;
    let mut in_word = false;
    let mut start: usize = 0;
    let mut i: usize = 0;
    proof {
        assert(s.skip(0) =~= s);
        assert(done + words(s) =~= words(s));
    }
    for c in it: msg.chars()
        invariant
            i == it.index(),
            it.seq() == s,
            s == msg@,
            total == s.len(),
            count == done.len(),
            count <= i,
            head@ == first_or_empty(done),
            tail@ == rest_joined(done),
            in_word ==> start < i && space_free(s.subrange(start as int, i as int)),
            in_word ==> words(s) == done + words(s.skip(start as int)),
            !in_word ==> words(s) == done + words(s.skip(i as int)),
    {
        assert(c == s[i as int]);
        if is_whitespace(c) {
            if in_word {
                let word = msg.substring_char(start, i);
                proof {
                    let t = s.skip(start as int);
                    assert(t.take(i - start) =~= s.subrange(start as int, i as int));
                    assert(t[i - start] == s[i as int]);
                    lemma_words_first(t, i - start);
                    assert(t.skip(i - start) =~= s.skip(i as int));
                    assert(done + (seq![word@] + words(s.skip(i as int))) =~= done.push(word@)
                        + words(s.skip(i as int)));
                }
                take_word(&mut head, &mut tail, count, word, Ghost(done));
                proof {
                    done = done.push(word@);
                }
                count += 1;
                in_word = false;
            }
            proof {
                let t = s.skip(i as int);
                assert(t.take(1) =~= seq![s[i as int]]);
                lemma_words_skip_space(t, 1);
                assert(t.skip(1) =~= s.skip(i + 1));
            }
        } else {
            if !in_word {
                start = i;
                in_word = true;
                assert(s.subrange(start as int, i + 1) =~= seq![c]);
            } else {
                let ghost before = s.subrange(start as int, i as int);
                let ghost wider = s.subrange(start as int, i + 1);
                assert forall|j: int| 0 <= j < wider.len() implies !is_space(#[trigger] wider[j]) by {
                    if j < before.len() {
                        assert(wider[j] == before[j]);
                    }
                }
            }
        }
        i += 1;
    }
    if in_word {
        let word = msg.substring_char(start, total);
        proof {
            let t = s.skip(start as int);
            assert(t.take(total - start) =~= s.subrange(start as int, total as int));
            lemma_words_first(t, total - start);
            assert(t.skip(total - start) =~= Seq::<char>::empty());
            assert(done + seq![word@] =~= done.push(word@));
        }
        take_word(&mut head, &mut tail, count, word, Ghost(done));
    } else {
        assert(s.skip(total as int) =~= Seq::<char>::empty());
        assert(done + Seq::<Seq<char>>::empty() =~= done);
    }
    (head, tail)
}

/// The value of a digit, or nothing for another character.
fn to_digit(c: char) -> (d: Option<u8>)
    ensures
        match d {
            Some(v) => is_digit(c) && v == digit_value(c),
            None => !is_digit(c),
        },
{
    let n: u32 = c as u32;
    if 0x30 <= n && n <= 0x39 {
        Some((n - 0x30) as u8)
    } else {
        None
    }
}

/// Reads `value` as a number that is at most `max`.
pub fn as_number(value: &str, max: u64) -> (r: Result<u64, NumberError>)
    ensures
        match r {
            Ok(n) => n <= max && parsed(value@, max as nat) == Ok::<nat, NumberError>(n as nat),
            Err(e) => parsed(value@, max as nat) == Err::<nat, NumberError>(e),
        },
{
    let total = value.unicode_len();
    if total == 0 {
        return Err(NumberError::Empty);
    }
    let ghost s = value@;
    let ghost d = unsigned_part(s);
    let ghost offset = s.len() - d.len();
    let mut acc: u64 = 0;
    let mut signed = false;
    let mut i: usize = 0;
    for c in it: value.chars()
        invariant
            i == it.index(),
            it.seq() == s,
            s == value@,
            total == s.len(),
            total > 0,
            d == unsigned_part(s),
            offset == s.len() - d.len(),
            i >= offset || i == 0,
            i >= offset ==> all_digits(d.take(i - offset)),
            i >= offset ==> acc == digits_value(d.take(i - offset)),
            i < offset ==> acc == 0,
            i == 0 ==> !signed,
            i > 0 ==> signed == (offset == 1),
            acc <= max,
    {
        assert(c == s[i as int]);
        if i == 0 && c == '+' {
            signed = true;
            assert(offset == 1);
        } else {
            assert(i == 0 ==> offset == 0);
            let ghost j = i - offset;
            assert(d[j] == c);
            proof {
                assert(d.take(j + 1).drop_last() =~= d.take(j));
                assert(d.take(j + 1).last() == c);
            }
            match to_digit(c) {
                None => {
                    proof {
                        lemma_digits_len(d, j);
                    }
                    return Err(NumberError::InvalidDigit);
                },
                Some(v) => {
                    let next = match acc.checked_mul(10) {
                        Some(m) => m.checked_add(v as u64),
                        None => None,
                    };
                    proof {
                        assert forall|x: int| 0 <= x < j + 1 implies is_digit(
                            #[trigger] d.take(j + 1)[x],
                        ) by {
                            if x < j {
                                assert(d.take(j + 1)[x] == d.take(j)[x]);
                            }
                        }
                    }
                    match next {
                        Some(n) if n <= max => {
                            acc = n;
                        },
                        _ => {
                            proof {
                                lemma_digits_len_at_least(d, j + 1);
                                lemma_digits_value_grows(d, j + 1, digits_len(d) as int);
                                assert(d.take(digits_len(d) as int).take(j + 1) =~= d.take(j + 1));
                            }
                            return Err(NumberError::TooLarge);
                        },
                    }
                },
            }
        }
        i += 1;
    }
    proof {
        assert(d.take(d.len() as int) =~= d);
        if d.len() > 0 {
            lemma_digits_len(d, d.len() as int);
        }
    }
    if signed && total == 1 {
        Err(NumberError::InvalidDigit)
    } else {
        Ok(acc)
    }
}

} // verus!
