//! The text preparation the preprocessing worker performs before any model
//! runs: whitespace normalization, sentence splitting, and word splitting.
//!
//! Whitespace here is the ASCII kind (space, tab, line feed, carriage
//! return); a sentence ends at `.`, `?` or `!`.

use vstd::prelude::*;
use vstd::string::StrSliceExecFns;

use crate::runtime::chars_to_string;

verus! {

pub open spec fn is_space(c: char) -> bool {
    c == ' ' || c == '\t' || c == '\n' || c == '\r'
}

pub open spec fn is_sentence_end(c: char) -> bool {
    c == '.' || c == '?' || c == '!'
}

fn is_space_char(c: char) -> (b: bool)
    ensures
        b == is_space(c),
{
    c == ' ' || c == '\t' || c == '\n' || c == '\r'
}

fn is_sentence_end_char(c: char) -> (b: bool)
    ensures
        b == is_sentence_end(c),
{
    c == '.' || c == '?' || c == '!'
}

// ---------------------------------------------------------------------------
// Trimming
// ---------------------------------------------------------------------------

pub open spec fn trim_start_rec(s: Seq<char>) -> Seq<char>
    decreases s.len(),
{
    if s.len() > 0 && is_space(s[0]) {
        trim_start_rec(s.skip(1))
    } else {
        s
    }
}

pub open spec fn trim_end_rec(s: Seq<char>) -> Seq<char>
    decreases s.len(),
{
    if s.len() > 0 && is_space(s.last()) {
        trim_end_rec(s.drop_last())
    } else {
        s
    }
}

/// The input without leading and trailing whitespace.
pub open spec fn spec_trim(s: Seq<char>) -> Seq<char> {
    trim_end_rec(trim_start_rec(s))
}

/// Trim a character vector to a string.
pub fn trim_vec(v: &Vec<char>) -> (r: String)
    ensures
        r@ == spec_trim(v@),
{
    let n = v.len();
    let mut i: usize = 0;
    proof {
        assert(v@.skip(0) =~= v@);
    }
    while i < n && is_space_char(v[i])
        invariant
            i <= n,
            n == v@.len(),
            trim_start_rec(v@) == trim_start_rec(v@.skip(i as int)),
        decreases n - i,
    {
        proof {
            assert(v@.skip(i as int)[0] == v@[i as int]);
            assert(v@.skip(i as int).skip(1) =~= v@.skip(i + 1));
        }
        i += 1;
    }
    proof {
        if i < n {
            assert(v@.skip(i as int)[0] == v@[i as int]);
        }
        assert(trim_start_rec(v@.skip(i as int)) == v@.skip(i as int));
    }
    let mut j: usize = n;
    while j > i && is_space_char(v[j - 1])
        invariant
            i <= j <= n,
            n == v@.len(),
            trim_start_rec(v@) == v@.skip(i as int),
            trim_end_rec(v@.skip(i as int)) == trim_end_rec(v@.subrange(i as int, j as int)),
        decreases j,
    {
        proof {
            let sub = v@.subrange(i as int, j as int);
            assert(sub.last() == v@[j - 1]);
            assert(sub.drop_last() =~= v@.subrange(i as int, j - 1));
        }
        j -= 1;
    }
    proof {
        let sub = v@.subrange(i as int, j as int);
        if j > i {
            assert(sub.last() == v@[j - 1]);
        }
        assert(trim_end_rec(sub) == sub);
    }
    let mut out: Vec<char> = Vec::new();
    let mut k: usize = i;
    while k < j
        invariant
            i <= k <= j <= n,
            n == v@.len(),
            out@ == v@.subrange(i as int, k as int),
        decreases j - k,
    {
        out.push(v[k]);
        k += 1;
        proof {
            assert(out@ =~= v@.subrange(i as int, k as int));
        }
    }
    chars_to_string(&out)
}

/// Trim a string slice.
pub fn trim_str(s: &str) -> (r: String)
    ensures
        r@ == spec_trim(s@),
{
    let v = crate::runtime::str_to_chars(s);
    trim_vec(&v)
}

// ---------------------------------------------------------------------------
// Whitespace normalization
// ---------------------------------------------------------------------------

/// Fold over the input: spaces between words collapse to one, and leading
/// and trailing spaces vanish. `started` records whether a word was emitted
/// yet; `pending` whether a separator is owed before the next word.
pub open spec fn clean_rec(s: Seq<char>, started: bool, pending: bool) -> Seq<char>
    decreases s.len(),
{
    if s.len() == 0 {
        Seq::empty()
    } else if is_space(s[0]) {
        clean_rec(s.skip(1), started, started)
    } else {
        (if pending {
            seq![' ']
        } else {
            Seq::empty()
        }) + seq![s[0]] + clean_rec(s.skip(1), true, false)
    }
}

/// The input with every whitespace run between words replaced by one space,
/// and no leading or trailing whitespace.
pub open spec fn spec_clean(s: Seq<char>) -> Seq<char> {
    clean_rec(s, false, false)
}

/// Normalize the whitespace of a fetched text.
pub fn clean_whitespace(s: &str) -> (r: String)
    ensures
        r@ == spec_clean(s@),
{
    let n = s.unicode_len();
    let mut out: Vec<char> = Vec::new();
    let mut started = false;
    let mut pending = false;
    let mut i: usize = 0;
    proof {
        assert(s@.skip(0) =~= s@);
        assert(out@ =~= Seq::<char>::empty() + Seq::<char>::empty());
    }
    while i < n
        invariant
            i <= n,
            n == s@.len(),
            spec_clean(s@) == out@ + clean_rec(s@.skip(i as int), started, pending),
        decreases n - i,
    {
        let c = s.get_char(i);
        proof {
            assert(s@.skip(i as int)[0] == c);
            assert(s@.skip(i as int).skip(1) =~= s@.skip(i + 1));
        }
        if is_space_char(c) {
            pending = started;
        } else {
            if pending {
                out.push(' ');
            }
            out.push(c);
            started = true;
            pending = false;
            proof {
                assert(spec_clean(s@) =~= out@ + clean_rec(s@.skip(i + 1), started, pending));
            }
        }
        i += 1;
    }
    proof {
        assert(clean_rec(s@.skip(n as int), started, pending) == Seq::<char>::empty());
        assert(out@ =~= spec_clean(s@));
    }
    chars_to_string(&out)
}

// ---------------------------------------------------------------------------
// Sentence splitting
// ---------------------------------------------------------------------------

/// Fold over the input: a sentence closes at each terminator (which it
/// keeps), pieces are trimmed, and a nonempty trimmed remainder closes the
/// last sentence.
pub open spec fn sent_rec(s: Seq<char>, cur: Seq<char>) -> Seq<Seq<char>>
    decreases s.len(),
{
    if s.len() == 0 {
        if spec_trim(cur).len() > 0 {
            seq![spec_trim(cur)]
        } else {
            Seq::empty()
        }
    } else if is_sentence_end(s[0]) {
        seq![spec_trim(cur.push(s[0]))] + sent_rec(s.skip(1), Seq::empty())
    } else {
        sent_rec(s.skip(1), cur.push(s[0]))
    }
}

/// The sentences of a cleaned text; a text with no terminator and no
/// trimmed remainder falls back to the whole text as one sentence.
pub open spec fn spec_sentences(s: Seq<char>) -> Seq<Seq<char>> {
    let r = sent_rec(s, Seq::empty());
    if r.len() == 0 && s.len() > 0 {
        seq![s]
    } else {
        r
    }
}

/// Split a cleaned text into sentences.
pub fn split_sentences(s: &str) -> (r: Vec<String>)
    ensures
        r.deep_view() == spec_sentences(s@),
{
    let n = s.unicode_len();
    let mut out: Vec<String> = Vec::new();
    let mut cur: Vec<char> = Vec::new();
    let mut i: usize = 0;
    proof {
        assert(s@.skip(0) =~= s@);
        assert(out.deep_view() =~= Seq::<Seq<char>>::empty());
        assert(cur@ =~= Seq::<char>::empty());
        assert(sent_rec(s@, Seq::empty()) =~= out.deep_view() + sent_rec(
            s@.skip(0),
            cur@,
        ));
    }
    while i < n
        invariant
            i <= n,
            n == s@.len(),
            sent_rec(s@, Seq::empty()) == out.deep_view() + sent_rec(s@.skip(i as int), cur@),
        decreases n - i,
    {
        let c = s.get_char(i);
        proof {
            assert(s@.skip(i as int)[0] == c);
            assert(s@.skip(i as int).skip(1) =~= s@.skip(i + 1));
        }
        if is_sentence_end_char(c) {
            let ghost pre = out.deep_view();
            let ghost curpre = cur@;
            cur.push(c);
            proof {
                assert(cur@ =~= curpre.push(c));
            }
            let piece = trim_vec(&cur);
            out.push(piece);
            cur = Vec::new();
            proof {
                assert(out.deep_view() =~= pre + seq![spec_trim(curpre.push(c))]);
                assert(cur@ =~= Seq::<char>::empty());
                assert((pre + seq![spec_trim(curpre.push(c))]) + sent_rec(s@.skip(i + 1), cur@)
                    =~= pre + (seq![spec_trim(curpre.push(c))] + sent_rec(s@.skip(i + 1), cur@)));
            }
        } else {
            let ghost curpre = cur@;
            cur.push(c);
            proof {
                assert(cur@ =~= curpre.push(c));
            }
        }
        i += 1;
    }
    proof {
        assert(s@.skip(n as int).len() == 0);
    }
    if cur.len() > 0 {
        let piece = trim_vec(&cur);
        if piece.as_str().unicode_len() > 0 {
            let ghost pre = out.deep_view();
            out.push(piece);
            proof {
                assert(out.deep_view() =~= pre + seq![spec_trim(cur@)]);
            }
        } else {
            proof {
                assert(sent_rec(s@.skip(n as int), cur@) =~= Seq::<Seq<char>>::empty());
                assert(out.deep_view() =~= sent_rec(s@, Seq::empty()));
            }
        }
    } else {
        proof {
            assert(spec_trim(cur@) == cur@);
            assert(sent_rec(s@.skip(n as int), cur@) =~= Seq::<Seq<char>>::empty());
            assert(out.deep_view() =~= sent_rec(s@, Seq::empty()));
        }
    }
    if out.len() == 0 {
        let whole = crate::runtime::str_to_chars(s);
        if whole.len() > 0 {
            let mut fallback: Vec<String> = Vec::new();
            fallback.push(chars_to_string(&whole));
            proof {
                assert(fallback.deep_view() =~= seq![s@]);
            }
            return fallback;
        }
    }
    proof {
        assert(out.deep_view() =~= spec_sentences(s@));
    }
    out
}

// ---------------------------------------------------------------------------
// Word splitting
// ---------------------------------------------------------------------------

/// Fold over the input: maximal nonempty runs of non-space characters.
pub open spec fn words_rec(s: Seq<char>, cur: Seq<char>) -> Seq<Seq<char>>
    decreases s.len(),
{
    if s.len() == 0 {
        if cur.len() > 0 {
            seq![cur]
        } else {
            Seq::empty()
        }
    } else if is_space(s[0]) {
        (if cur.len() > 0 {
            seq![cur]
        } else {
            Seq::empty()
        }) + words_rec(s.skip(1), Seq::empty())
    } else {
        words_rec(s.skip(1), cur.push(s[0]))
    }
}

/// The whitespace-separated words of a text.
pub open spec fn spec_words(s: Seq<char>) -> Seq<Seq<char>> {
    words_rec(s, Seq::empty())
}

/// Split a text into its whitespace-separated words.
pub fn split_words(s: &str) -> (r: Vec<String>)
    ensures
        r.deep_view() == spec_words(s@),
{
    let n = s.unicode_len();
    let mut out: Vec<String> = Vec::new();
    let mut cur: Vec<char> = Vec::new();
    let mut i: usize = 0;
    proof {
        assert(s@.skip(0) =~= s@);
        assert(out.deep_view() =~= Seq::<Seq<char>>::empty());
        assert(cur@ =~= Seq::<char>::empty());
        assert(words_rec(s@, Seq::empty()) =~= out.deep_view() + words_rec(s@.skip(0), cur@));
    }
    while i < n
        invariant
            i <= n,
            n == s@.len(),
            words_rec(s@, Seq::empty()) == out.deep_view() + words_rec(s@.skip(i as int), cur@),
        decreases n - i,
    {
        let c = s.get_char(i);
        proof {
            assert(s@.skip(i as int)[0] == c);
            assert(s@.skip(i as int).skip(1) =~= s@.skip(i + 1));
        }
        if is_space_char(c) {
            if cur.len() > 0 {
                let ghost pre = out.deep_view();
                let ghost curpre = cur@;
                let word = chars_to_string(&cur);
                out.push(word);
                cur = Vec::new();
                proof {
                    assert(out.deep_view() =~= pre + seq![curpre]);
                    assert(cur@ =~= Seq::<char>::empty());
                    assert((pre + seq![curpre]) + words_rec(s@.skip(i + 1), cur@) =~= pre + (seq![
                        curpre,
                    ] + words_rec(s@.skip(i + 1), cur@)));
                }
            } else {
                proof {
                    assert(words_rec(s@.skip(i as int), cur@) =~= Seq::<Seq<char>>::empty()
                        + words_rec(s@.skip(i + 1), Seq::empty()));
                    assert(cur@ =~= Seq::<char>::empty());
                    assert(Seq::<Seq<char>>::empty() + words_rec(s@.skip(i + 1), cur@)
                        =~= words_rec(s@.skip(i + 1), cur@));
                }
            }
        } else {
            let ghost curpre = cur@;
            cur.push(c);
            proof {
                assert(cur@ =~= curpre.push(c));
            }
        }
        i += 1;
    }
    proof {
        assert(s@.skip(n as int).len() == 0);
    }
    if cur.len() > 0 {
        let ghost pre = out.deep_view();
        let ghost curpre = cur@;
        let word = chars_to_string(&cur);
        out.push(word);
        proof {
            assert(out.deep_view() =~= pre + seq![curpre]);
        }
    } else {
        proof {
            assert(words_rec(s@.skip(n as int), cur@) =~= Seq::<Seq<char>>::empty());
            assert(out.deep_view() =~= out.deep_view() + words_rec(s@.skip(n as int), cur@));
        }
    }
    proof {
        assert(out.deep_view() =~= spec_words(s@));
    }
    out
}

} // verus!
