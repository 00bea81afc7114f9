//! The toy statistical text generator behind the generation worker: a
//! first-order word chain trained on whitespace-separated text, sampled
//! with externally drawn random numbers.
//!
//! The chain is an association list from a word to the words seen after it;
//! a word's successor list is never empty. Starter words are kept unique,
//! in first-insertion order. Randomness enters only as the numbers a draw
//! hands in: `generate_seeded` is a pure function of the model and the
//! draws, and `generate` feeds it fresh draws from the generator.

use vstd::prelude::*;

use crate::runtime::{chars_to_string, random_u64};
use crate::textproc::{spec_words, split_words};

verus! {

/// One chain entry: a word and the words seen immediately after it, in
/// training order, duplicates kept (their multiplicity is their weight).
#[derive(Debug, Clone, PartialEq, Eq)]
pub struct MarkovEntry {
    pub word: String,
    pub nexts: Vec<String>,
}

pub ghost struct MarkovEntryView {
    pub word: Seq<char>,
    pub nexts: Seq<Seq<char>>,
}

impl View for MarkovEntry {
    type V = MarkovEntryView;

    open spec fn view(&self) -> MarkovEntryView {
        MarkovEntryView { word: self.word@, nexts: self.nexts.deep_view() }
    }
}

pub open spec fn chain_view(v: Seq<MarkovEntry>) -> Seq<MarkovEntryView> {
    v.map_values(|e: MarkovEntry| e@)
}

#[derive(Debug, Clone, PartialEq, Eq)]
pub struct MarkovModel {
    pub chain: Vec<MarkovEntry>,
    pub starters: Vec<String>,
}

pub ghost struct MarkovModelView {
    pub chain: Seq<MarkovEntryView>,
    pub starters: Seq<Seq<char>>,
}

impl View for MarkovModel {
    type V = MarkovModelView;

    open spec fn view(&self) -> MarkovModelView {
        MarkovModelView { chain: chain_view(self.chain@), starters: self.starters.deep_view() }
    }
}

/// Index of the first entry for `w`, or a negative value if there is none.
pub open spec fn find_idx(chain: Seq<MarkovEntryView>, w: Seq<char>) -> int
    decreases chain.len(),
{
    if chain.len() == 0 {
        -1
    } else if chain[0].word == w {
        0
    } else {
        let r = find_idx(chain.skip(1), w);
        if r < 0 {
            -1
        } else {
            r + 1
        }
    }
}

pub proof fn lemma_find_idx_valid(chain: Seq<MarkovEntryView>, w: Seq<char>)
    ensures
        find_idx(chain, w) >= 0 ==> find_idx(chain, w) < chain.len() && chain[
            find_idx(chain, w)
        ].word == w,
        find_idx(chain, w) < 0 ==> forall|t: int|
            0 <= t < chain.len() ==> (#[trigger] chain[t]).word != w,
    decreases chain.len(),
{
    if chain.len() > 0 {
        lemma_find_idx_valid(chain.skip(1), w);
        if chain[0].word != w && find_idx(chain, w) < 0 {
            assert forall|t: int| 0 <= t < chain.len() implies (#[trigger] chain[t]).word != w by {
                if t > 0 {
                    assert(chain.skip(1)[t - 1] == chain[t]);
                }
            }
        }
    }
}

/// Scanning past a prefix without the word shifts the found index.
proof fn lemma_find_idx_shift(chain: Seq<MarkovEntryView>, w: Seq<char>, i: int)
    requires
        0 <= i <= chain.len(),
        forall|t: int| 0 <= t < i ==> (#[trigger] chain[t]).word != w,
    ensures
        find_idx(chain, w) == (if find_idx(chain.skip(i), w) < 0 {
            -1
        } else {
            find_idx(chain.skip(i), w) + i
        }),
    decreases i,
{
    if i > 0 {
        assert(chain[0].word != w);
        assert(chain.skip(1).skip(i - 1) =~= chain.skip(i));
        assert(forall|t: int|
            0 <= t < i - 1 ==> (#[trigger] chain.skip(1)[t]).word == chain[t + 1].word);
        lemma_find_idx_shift(chain.skip(1), w, i - 1);
    } else {
        assert(chain.skip(0) =~= chain);
    }
}

/// One trained pair: the successor joins the word's entry, which is created
/// with it if the word is new.
pub open spec fn spec_add_pair(
    chain: Seq<MarkovEntryView>,
    w: Seq<char>,
    next: Seq<char>,
) -> Seq<MarkovEntryView> {
    let idx = find_idx(chain, w);
    if idx < 0 {
        chain.push(MarkovEntryView { word: w, nexts: seq![next] })
    } else {
        chain.update(idx, MarkovEntryView { word: w, nexts: chain[idx].nexts.push(next) })
    }
}

/// The chain after training on the first `k` adjacent pairs of `words`.
pub open spec fn spec_train_pairs(
    chain: Seq<MarkovEntryView>,
    words: Seq<Seq<char>>,
    k: int,
) -> Seq<MarkovEntryView>
    decreases k,
{
    if k <= 0 {
        chain
    } else {
        spec_add_pair(spec_train_pairs(chain, words, k - 1), words[k - 1], words[k])
    }
}

/// The starters after seeing a text's first word: added once, kept unique.
pub open spec fn spec_starters_after(starters: Seq<Seq<char>>, words: Seq<Seq<char>>) -> Seq<
    Seq<char>,
> {
    if words.len() == 0 {
        starters
    } else if starters.contains(words[0]) {
        starters
    } else {
        starters.push(words[0])
    }
}

/// The whole model after one training text.
pub open spec fn spec_train(m: MarkovModelView, text: Seq<char>) -> MarkovModelView {
    let words = spec_words(text);
    if words.len() == 0 {
        m
    } else if words.len() < 2 {
        MarkovModelView { chain: m.chain, starters: spec_starters_after(m.starters, words) }
    } else {
        MarkovModelView {
            chain: spec_train_pairs(m.chain, words, words.len() - 1),
            starters: spec_starters_after(m.starters, words),
        }
    }
}

/// The words a seeded walk emits after the starter: while the current word
/// has an entry, the draw picks the next word; a word without an entry ends
/// the walk.
pub open spec fn spec_walk(
    chain: Seq<MarkovEntryView>,
    cur: Seq<char>,
    k: nat,
    picks: Seq<u64>,
    pi: int,
) -> Seq<Seq<char>>
    decreases k,
{
    if k == 0 {
        Seq::empty()
    } else {
        let idx = find_idx(chain, cur);
        if idx < 0 {
            Seq::empty()
        } else {
            let nexts = chain[idx].nexts;
            let w = nexts[(picks[pi] % (nexts.len() as u64)) as int];
            seq![w] + spec_walk(chain, w, (k - 1) as nat, picks, pi + 1)
        }
    }
}

/// Words joined by single spaces.
pub open spec fn tail_join(ws: Seq<Seq<char>>) -> Seq<char>
    decreases ws.len(),
{
    if ws.len() == 0 {
        Seq::empty()
    } else {
        seq![' '] + ws[0] + tail_join(ws.skip(1))
    }
}

pub open spec fn join_spaces(ws: Seq<Seq<char>>) -> Seq<char> {
    if ws.len() == 0 {
        Seq::empty()
    } else {
        ws[0] + tail_join(ws.skip(1))
    }
}

/// What a seeded generation returns: the fixed placeholder on an untrained
/// model, else the starter the first draw picks followed by the walk.
pub open spec fn spec_generate(m: MarkovModelView, max_length: u32, picks: Seq<u64>) -> Seq<char> {
    if m.chain.len() == 0 || m.starters.len() == 0 {
        "Model not trained."@
    } else {
        let w0 = m.starters[(picks[0] % (m.starters.len() as u64)) as int];
        join_spaces(seq![w0] + spec_walk(m.chain, w0, (max_length - 1) as nat, picks, 1))
    }
}

impl MarkovModel {
    /// Every word in the chain has at least one successor.
    pub open spec fn wf(&self) -> bool {
        forall|i: int| 0 <= i < self@.chain.len() ==> (#[trigger] self@.chain[i]).nexts.len() >= 1
    }

    pub fn new() -> (r: MarkovModel)
        ensures
            r.wf(),
            r@.chain.len() == 0,
            r@.starters.len() == 0,
    {
        let r = MarkovModel { chain: Vec::new(), starters: Vec::new() };
        proof {
            assert(r@.chain =~= Seq::<MarkovEntryView>::empty());
            assert(r@.starters =~= Seq::<Seq<char>>::empty());
        }
        r
    }

    /// First index holding `w`, if any.
    fn find_entry(&self, w: &String) -> (r: Option<usize>)
        ensures
            (match r {
                Some(i) => i < self@.chain.len() && find_idx(self@.chain, w@) == i,
                None => find_idx(self@.chain, w@) < 0,
            }),
    {
        let n = self.chain.len();
        let mut i: usize = 0;
        while i < n
            invariant
                i <= n,
                n == self@.chain.len(),
                forall|t: int| 0 <= t < i ==> (#[trigger] self@.chain[t]).word != w@,
            decreases n - i,
        {
            if self.chain[i].word == *w {
                proof {
                    lemma_find_idx_shift(self@.chain, w@, i as int);
                    assert(self@.chain.skip(i as int)[0] == self@.chain[i as int]);
                }
                return Some(i);
            }
            proof {
                assert(self@.chain[i as int] == self.chain@[i as int]@);
            }
            i += 1;
        }
        proof {
            lemma_find_idx_shift(self@.chain, w@, n as int);
            assert(self@.chain.skip(n as int).len() == 0);
        }
        None
    }

    /// Record that `next` followed `w`.
    fn add_pair(&mut self, w: &String, next: &String)
        requires
            old(self).wf(),
        ensures
            final(self).wf(),
            final(self)@.starters == old(self)@.starters,
            final(self)@.chain == spec_add_pair(old(self)@.chain, w@, next@),
    {
        proof {
            lemma_find_idx_valid(old(self)@.chain, w@);
        }
        match self.find_entry(w) {
            Some(i) => {
                let mut entry = self.chain.remove(i);
                entry.nexts.push(next.clone());
                self.chain.insert(i, entry);
                proof {
                    let oldc = old(self)@.chain;
                    let updated = MarkovEntryView {
                        word: w@,
                        nexts: oldc[i as int].nexts.push(next@),
                    };
                    assert(entry@.nexts =~= oldc[i as int].nexts.push(next@));
                    assert(entry@ == updated);
                    assert(self@.chain =~= oldc.update(i as int, updated));
                    assert(forall|t: int|
                        0 <= t < self@.chain.len() && t != i ==> #[trigger] self@.chain[t]
                            == oldc[t]);
                }
            },
            None => {
                let mut nexts: Vec<String> = Vec::new();
                nexts.push(next.clone());
                let entry = MarkovEntry { word: w.clone(), nexts };
                proof {
                    assert(entry@.nexts =~= seq![next@]);
                }
                self.chain.push(entry);
                proof {
                    assert(self@.chain =~= old(self)@.chain.push(
                        MarkovEntryView { word: w@, nexts: seq![next@] },
                    ));
                }
            },
        }
    }

    fn starters_contain(&self, w: &String) -> (b: bool)
        ensures
            b == self@.starters.contains(w@),
    {
        let n = self.starters.len();
        let mut i: usize = 0;
        while i < n
            invariant
                i <= n,
                n == self@.starters.len(),
                forall|t: int| 0 <= t < i ==> self@.starters[t] != w@,
            decreases n - i,
        {
            if self.starters[i] == *w {
                proof {
                    assert(self@.starters[i as int] == w@);
                }
                return true;
            }
            proof {
                assert(self@.starters[i as int] == self.starters@[i as int]@);
            }
            i += 1;
        }
        proof {
            if self@.starters.contains(w@) {
                let t = choose|t: int| 0 <= t < self@.starters.len() && self@.starters[t] == w@;
                assert(self@.starters[t] != w@);
            }
        }
        false
    }

    /// Train on one text: each adjacent word pair joins the chain in order,
    /// and the first word joins the starters if it is new. Text with no
    /// words changes nothing; text with one word only contributes a starter.
    pub fn train(&mut self, text: &str)
        requires
            old(self).wf(),
        ensures
            final(self).wf(),
            final(self)@ == spec_train(old(self)@, text@),
    {
        let words = split_words(text);
        let ghost wordsv = spec_words(text@);
        proof {
            assert(words.deep_view().len() == words@.len());
        }
        if words.len() == 0 {
            proof {
                assert(wordsv.len() == 0);
            }
            return ;
        }
        proof {
            assert(words.deep_view()[0] == wordsv[0]);
        }
        if !self.starters_contain(&words[0]) {
            self.starters.push(words[0].clone());
            proof {
                assert(self@.starters =~= spec_starters_after(old(self)@.starters, wordsv));
            }
        }
        if words.len() < 2 {
            proof {
                assert(self@.chain =~= old(self)@.chain);
                assert(wordsv.len() == 1);
            }
            return ;
        }
        let n = words.len();
        let ghost starters_now = self@.starters;
        let mut k: usize = 1;
        while k < n
            invariant
                1 <= k <= n,
                n == words@.len(),
                words.deep_view() == wordsv,
                self@.starters == starters_now,
                self@.chain == spec_train_pairs(old(self)@.chain, wordsv, k - 1),
                self.wf(),
            decreases n - k,
        {
            proof {
                assert(words.deep_view()[k - 1] == wordsv[k - 1]);
                assert(words.deep_view()[k as int] == wordsv[k as int]);
            }
            self.add_pair(&words[k - 1], &words[k]);
            k += 1;
        }
    }

    /// Generate from given draws: a pure function of the model and the
    /// draws. On an untrained model the fixed placeholder text is returned.
    pub fn generate_seeded(&self, max_length: u32, picks: &Vec<u64>) -> (r: String)
        requires
            self.wf(),
            max_length >= 1,
            picks@.len() >= max_length,
        ensures
            r@ == spec_generate(self@, max_length, picks@),
    {
        if self.chain.len() == 0 || self.starters.len() == 0 {
            return String::from_str("Model not trained.");
        }
        let sidx = (picks[0] % (self.starters.len() as u64)) as usize;
        proof {
            assert(self@.starters.len() == self.starters@.len());
        }
        let w0 = self.starters[sidx].clone();
        proof {
            assert(w0@ == self@.starters[sidx as int]);
        }
        let ghost w0v = w0@;
        let ghost kmax = (max_length - 1) as nat;
        let mut out: Vec<String> = Vec::new();
        out.push(w0.clone());
        let mut cur = w0;
        let mut step: u32 = 1;
        proof {
            assert(out.deep_view() =~= seq![w0v]);
            assert(seq![w0v] + spec_walk(self@.chain, w0v, kmax, picks@, 1) =~= out.deep_view()
                + spec_walk(self@.chain, cur@, (max_length - step) as nat, picks@, step as int));
        }
        loop
            invariant_except_break
                1 <= step <= max_length,
                self.wf(),
                picks@.len() >= max_length,
                seq![w0v] + spec_walk(self@.chain, w0v, kmax, picks@, 1) == out.deep_view()
                    + spec_walk(
                    self@.chain,
                    cur@,
                    (max_length - step) as nat,
                    picks@,
                    step as int,
                ),
                kmax == (max_length - 1) as nat,
            ensures
                out.deep_view() == seq![w0v] + spec_walk(self@.chain, w0v, kmax, picks@, 1),
            decreases max_length - step,
        {
            if step >= max_length {
                proof {
                    assert(spec_walk(self@.chain, cur@, 0, picks@, step as int) =~= Seq::<
                        Seq<char>,
                    >::empty());
                    assert(out.deep_view() + Seq::<Seq<char>>::empty() =~= out.deep_view());
                }
                break ;
            }
            match self.find_entry(&cur) {
                None => {
                    proof {
                        assert(spec_walk(
                            self@.chain,
                            cur@,
                            (max_length - step) as nat,
                            picks@,
                            step as int,
                        ) =~= Seq::<Seq<char>>::empty());
                        assert(out.deep_view() + Seq::<Seq<char>>::empty() =~= out.deep_view());
                    }
                    break ;
                },
                Some(i) => {
                    proof {
                        lemma_find_idx_valid(self@.chain, cur@);
                        assert(self@.chain[i as int].nexts.len() >= 1);
                        assert(self@.chain[i as int] == self.chain@[i as int]@);
                    }
                    let nexts = &self.chain[i].nexts;
                    let nidx = (picks[step as usize] % (nexts.len() as u64)) as usize;
                    let w = nexts[nidx].clone();
                    proof {
                        assert(w@ == self@.chain[i as int].nexts[nidx as int]);
                    }
                    let ghost pre = out.deep_view();
                    out.push(w.clone());
                    proof {
                        assert(out.deep_view() =~= pre.push(w@));
                        assert(pre.push(w@) =~= pre + seq![w@]);
                        assert((pre + seq![w@]) + spec_walk(
                            self@.chain,
                            w@,
                            (max_length - step - 1) as nat,
                            picks@,
                            step + 1,
                        ) =~= pre + (seq![w@] + spec_walk(
                            self@.chain,
                            w@,
                            (max_length - step - 1) as nat,
                            picks@,
                            step + 1,
                        )));
                    }
                    cur = w;
                    step += 1;
                },
            }
        }
        proof {
            assert(out.deep_view().len() > 0);
            assert(out@.len() == out.deep_view().len());
        }
        join_with_spaces(&out)
    }

    /// Generate with fresh draws from the thread-local generator: the
    /// result is a seeded generation for some sequence of draws.
    pub fn generate(&self, max_length: u32) -> (r: String)
        requires
            self.wf(),
            max_length >= 1,
        ensures
            exists|picks: Seq<u64>|
                picks.len() >= max_length && r@ == spec_generate(self@, max_length, picks),
    {
        let mut picks: Vec<u64> = Vec::new();
        let mut k: u32 = 0;
        while k < max_length
            invariant
                k <= max_length,
                picks@.len() == k,
            decreases max_length - k,
        {
            picks.push(random_u64());
            k += 1;
        }
        let r = self.generate_seeded(max_length, &picks);
        proof {
            assert(picks@.len() >= max_length && r@ == spec_generate(self@, max_length, picks@));
        }
        r
    }
}

/// Join words with single spaces.
fn join_with_spaces(ws: &Vec<String>) -> (r: String)
    requires
        ws@.len() > 0,
    ensures
        r@ == join_spaces(ws.deep_view()),
{
    let mut out: Vec<char> = crate::runtime::str_to_chars(ws[0].as_str());
    proof {
        assert(out@ == ws.deep_view()[0]);
    }
    let n = ws.len();
    let mut i: usize = 1;
    proof {
        assert(join_spaces(ws.deep_view()) =~= out@ + tail_join(ws.deep_view().skip(1)));
    }
    while i < n
        invariant
            1 <= i <= n,
            n == ws@.len(),
            join_spaces(ws.deep_view()) == out@ + tail_join(ws.deep_view().skip(i as int)),
        decreases n - i,
    {
        out.push(' ');
        let piece = crate::runtime::str_to_chars(ws[i].as_str());
        let mut t: usize = 0;
        let ghost outpre = out@;
        while t < piece.len()
            invariant
                t <= piece@.len(),
                out@ == outpre + piece@.take(t as int),
            decreases piece@.len() - t,
        {
            out.push(piece[t]);
            t += 1;
            proof {
                assert(out@ =~= outpre + piece@.take(t as int));
            }
        }
        proof {
            let tv = ws.deep_view().skip(i as int);
            assert(piece@.take(piece@.len() as int) =~= piece@);
            assert(tv[0] == ws.deep_view()[i as int]);
            assert(piece@ == tv[0]);
            assert(tv.skip(1) =~= ws.deep_view().skip(i + 1));
            assert(join_spaces(ws.deep_view()) =~= out@ + tail_join(ws.deep_view().skip(i + 1)));
        }
        i += 1;
    }
    proof {
        assert(tail_join(ws.deep_view().skip(n as int)) =~= Seq::<char>::empty());
        assert(out@ =~= join_spaces(ws.deep_view()));
    }
    chars_to_string(&out)
}

} // verus!
