//! Fuzzy search over pinyin transliterations: a query and a candidate
//! are both transliterated character-wise to pinyin, lowercased, and
//! scored by subsequence matching with bonuses for matching at the
//! start and for consecutive matches. Scores are only comparable
//! within one query.

use vstd::prelude::*;
use vstd::string::*;
use pinyin::ToPinyin;

verus! {

/// What `str::to_lowercase` returns for the given characters. The
/// result depends on the characters alone; its value is not specified
/// here.
pub uninterp spec fn lower_of(s: Seq<char>) -> Seq<char>;

/// Relies on `str::to_lowercase`: the Unicode lowercase mapping of the
/// input, a function of the input characters alone. The mapping is
/// idempotent — every character it produces is already lowercase or
/// caseless, so lowercasing its own output changes nothing; this is
/// what makes the fuzzy score case-insensitive (scoring pre-lowercased
/// inputs gives the same score).
#[verifier::external_body]
pub(crate) fn lowercase(s: &str) -> (r: String)
    ensures
        r@ == lower_of(s@),
        lower_of(r@) == r@,
{
    s.to_lowercase()
}

/// What one character transliterates to: its pinyin (plain style,
/// no tone marks) when it has one, else the character itself. The
/// result depends on the character alone; its value is not specified
/// here.
pub uninterp spec fn pinyin_of(c: char) -> Seq<char>;

/// Relies on `pinyin::ToPinyin::to_pinyin` for `char` and
/// `pinyin::Pinyin::plain`: the plain pinyin of a character that has
/// one, the character itself otherwise; a function of the character
/// alone (the crate's table is fixed at build time).
#[verifier::external_body]
fn char_pinyin(c: char) -> (r: String)
    ensures
        r@ == pinyin_of(c),
{
    match c.to_pinyin() {
        Some(p) => p.plain().to_owned(),
        None => {
            let mut s = String::new();
            s.push(c);
            s
        },
    }
}

/// The pinyin transliteration of a whole string: each character's
/// transliteration, concatenated in order.
pub open spec fn spec_to_py(s: Seq<char>) -> Seq<char>
    decreases s.len(),
{
    if s.len() == 0 {
        Seq::empty()
    } else {
        spec_to_py(s.drop_last()) + pinyin_of(s.last())
    }
}

/// The characters of `s`, as a vector.
pub(crate) fn str_chars(s: &str) -> (r: Vec<char>)
    ensures
        r@ == s@,
{
    let n = s.unicode_len();
    let mut r: Vec<char> = Vec::new();
    let mut i: usize = 0;
    while i < n
        invariant
            i <= n,
            n == s@.len(),
            r@ == s@.take(i as int),
        decreases n - i,
    {
        let c = s.get_char(i);
        r.push(c);
        proof {
            assert(s@.take(i + 1) =~= s@.take(i as int).push(s@[i as int]));
        }
        i = i + 1;
    }
    proof {
        assert(s@.take(n as int) =~= s@);
    }
    r
}

/// Transliterate a whole string to pinyin, character by character.
pub fn to_py(s: &str) -> (r: String)
    ensures
        r@ == spec_to_py(s@),
{
    let chars = str_chars(s);
    let mut out = String::new();
    let mut i: usize = 0;
    let n = chars.len();
    while i < n
        invariant
            i <= n,
            n == s@.len(),
            chars@ == s@,
            out@ == spec_to_py(s@.take(i as int)),
        decreases n - i,
    {
        let py = char_pinyin(chars[i]);
        out.append(py.as_str());
        proof {
            assert(s@.take(i + 1).drop_last() =~= s@.take(i as int));
            assert(s@.take(i + 1).last() == s@[i as int]);
        }
        i = i + 1;
    }
    proof {
        assert(s@.take(n as int) =~= s@);
    }
    out
}

/// Score gathered from position `i` on, with `qi` the next query
/// character to match and `lm` the position of the previous match:
/// each further match of the subsequence adds one, plus three more
/// when it directly follows the previous match.
pub open spec fn spec_scan(q: Seq<char>, d: Seq<char>, i: int, qi: int, lm: int) -> int
    decreases d.len() - i,
{
    if i < 0 || i >= d.len() || qi >= q.len() {
        0
    } else if d[i] == q[qi] {
        1 + (if lm == i - 1 {
            3int
        } else {
            0int
        }) + spec_scan(q, d, i + 1, qi + 1, i)
    } else {
        spec_scan(q, d, i + 1, qi, lm)
    }
}

/// Score of one candidate start position: one for the matched first
/// query character, five more when the match is at the very start,
/// plus whatever the scan of the remainder gathers.
pub open spec fn spec_start_score(q: Seq<char>, d: Seq<char>, start: int) -> int {
    1 + (if start == 0 {
        5int
    } else {
        0int
    }) + spec_scan(q, d, start + 1, 1, start)
}

/// Best start-position score among the starts below `n` whose
/// character matches the first query character; zero if none does.
pub open spec fn spec_best(q: Seq<char>, d: Seq<char>, n: int) -> int
    decreases n,
{
    if n <= 0 {
        0
    } else {
        let prev = spec_best(q, d, n - 1);
        if d[n - 1] == q[0] {
            let sc = spec_start_score(q, d, n - 1);
            if sc > prev {
                sc
            } else {
                prev
            }
        } else {
            prev
        }
    }
}

/// The fuzzy score of lowercased query `q` against lowercased
/// candidate `d`: the best start-position score, or zero for an empty
/// query.
pub open spec fn spec_fuzzy(q: Seq<char>, d: Seq<char>) -> int {
    if q.len() == 0 {
        0
    } else {
        spec_best(q, d, d.len() as int)
    }
}

/// What [`fuzzy_score`] returns: the fuzzy score of the lowercased
/// inputs. A candidate whose lowercase form runs past a billion
/// characters is scored zero outright, so that the score always fits
/// the result type.
pub open spec fn spec_fuzzy_score(q: Seq<char>, d: Seq<char>) -> int {
    if lower_of(d).len() > 0x3FFF_FFFF {
        0
    } else {
        spec_fuzzy(lower_of(q), lower_of(d))
    }
}

/// A scan gathers at least nothing and at most four per remaining
/// position.
proof fn lemma_scan_bound(q: Seq<char>, d: Seq<char>, i: int, qi: int, lm: int)
    requires
        0 <= i,
    ensures
        0 <= spec_scan(q, d, i, qi, lm),
        spec_scan(q, d, i, qi, lm) <= if i < d.len() {
            4 * (d.len() - i)
        } else {
            0
        },
    decreases d.len() - i,
{
    if i < d.len() && qi < q.len() {
        if d[i] == q[qi] {
            lemma_scan_bound(q, d, i + 1, qi + 1, i);
        } else {
            lemma_scan_bound(q, d, i + 1, qi, lm);
        }
    }
}

/// A start score stays within four per character plus the two spare
/// points of the start bonus.
proof fn lemma_start_score_bound(q: Seq<char>, d: Seq<char>, start: int)
    requires
        0 <= start < d.len(),
    ensures
        1 <= spec_start_score(q, d, start),
        spec_start_score(q, d, start) <= 4 * d.len() + 2,
{
    lemma_scan_bound(q, d, start + 1, 1, start);
}

/// So does the best score over any range of starts.
proof fn lemma_best_bound(q: Seq<char>, d: Seq<char>, n: int)
    requires
        n <= d.len(),
    ensures
        0 <= spec_best(q, d, n),
        spec_best(q, d, n) <= 4 * d.len() + 2,
    decreases n,
{
    if n > 0 {
        lemma_best_bound(q, d, n - 1);
        if d[n - 1] == q[0] {
            lemma_start_score_bound(q, d, n - 1);
        }
    }
}

/// Fuzzy-match `query` against `data`, both lowercased first: the
/// score is the best over all positions of `data` matching the first
/// query character, counting one per matched query character, five
/// for a match at the very start and three more for each match that
/// directly follows the previous one. Zero for an empty query or when
/// no character matches.
pub fn fuzzy_score(query: &str, data: &str) -> (r: u32)
    ensures
        r == spec_fuzzy_score(query@, data@),
{
    let ql = lowercase(query);
    let q_chars = str_chars(ql.as_str());
    let ghost qs = lower_of(query@);
    if q_chars.len() == 0 {
        return 0;
    }
    let dl = lowercase(data);
    let d_chars = str_chars(dl.as_str());
    let ghost ds = lower_of(data@);
    let n = d_chars.len();
    if n > 0x3FFF_FFFF {
        return 0;
    }
    let qlen = q_chars.len();
    let mut best: u32 = 0;
    let mut start: usize = 0;
    proof {
        lemma_best_bound(qs, ds, 0);
    }
    while start < n
        invariant
            start <= n,
            n == ds.len(),
            n <= 0x3FFF_FFFF,
            d_chars@ == ds,
            q_chars@ == qs,
            qlen == qs.len(),
            qlen > 0,
            best == spec_best(qs, ds, start as int),
            best <= 4 * ds.len() + 2,
        decreases n - start,
    {
        if d_chars[start] == q_chars[0] {
            let mut score: u32 = if start == 0 {
                6
            } else {
                1
            };
            let mut qi: usize = 1;
            let mut lm: usize = start;
            let mut i: usize = start + 1;
            while i < n && qi < qlen
                invariant
                    n == ds.len(),
                    n <= 0x3FFF_FFFF,
                    d_chars@ == ds,
                    q_chars@ == qs,
                    qlen == qs.len(),
                    start < n,
                    start + 1 <= i <= n,
                    1 <= qi <= qlen,
                    lm < i,
                    score as int + spec_scan(qs, ds, i as int, qi as int, lm as int)
                        == spec_start_score(qs, ds, start as int),
                    score <= 4 * ds.len() + 2,
                decreases n - i,
            {
                if d_chars[i] == q_chars[qi] {
                    proof {
                        lemma_scan_bound(qs, ds, i + 1, qi + 1, i as int);
                        lemma_start_score_bound(qs, ds, start as int);
                    }
                    if lm == i - 1 {
                        score = score + 4;
                    } else {
                        score = score + 1;
                    }
                    lm = i;
                    qi = qi + 1;
                }
                i = i + 1;
            }
            let sc = score;
            proof {
                assert(spec_scan(qs, ds, i as int, qi as int, lm as int) == 0);
                assert(sc == spec_start_score(qs, ds, start as int));
            }
            if sc > best {
                best = sc;
            }
        }
        start = start + 1;
    }
    best
}

/// The score of one candidate for one query, both taken through the
/// pinyin transliteration first (then lowercased inside the score).
pub open spec fn spec_item_score(q: Seq<char>, d: Seq<char>) -> int {
    spec_fuzzy_score(spec_to_py(q), spec_to_py(d))
}

/// The scores of every candidate against one query, in candidate
/// order. The query and each candidate are transliterated to pinyin
/// before scoring.
pub fn fuzzy_search_score(query: &str, data: &Vec<String>) -> (r: Vec<u32>)
    ensures
        r@.len() == data@.len(),
        forall|i: int| 0 <= i < r@.len() ==> r@[i] == spec_item_score(query@, data@[i]@),
{
    let qp = to_py(query);
    let mut r: Vec<u32> = Vec::new();
    let mut i: usize = 0;
    let n = data.len();
    while i < n
        invariant
            i <= n,
            n == data@.len(),
            qp@ == spec_to_py(query@),
            r@.len() == i as nat,
            forall|k: int| 0 <= k < i ==> r@[k] == spec_item_score(query@, data@[k]@),
        decreases n - i,
    {
        let dp = to_py(data[i].as_str());
        let sc = fuzzy_score(qp.as_str(), dp.as_str());
        r.push(sc);
        i = i + 1;
    }
    r
}

/// `a` ranks before `b`: a higher score, or an equal score at an
/// earlier position (which keeps the ranking stable).
pub open spec fn spec_ranks_before(scores: Seq<int>, a: int, b: int) -> bool {
    scores[a] > scores[b] || (scores[a] == scores[b] && a < b)
}

/// `perm` ranks all of `scores`: it is a permutation of the positions,
/// ordered by descending score, earlier position first among equals.
pub open spec fn spec_is_ranking(scores: Seq<int>, perm: Seq<int>) -> bool {
    &&& perm.len() == scores.len()
    &&& forall|k: int| 0 <= k < perm.len() ==> 0 <= #[trigger] perm[k] < scores.len()
    &&& forall|k: int, l: int| 0 <= k < l < perm.len() ==> perm[k] != perm[l]
    &&& forall|k: int| 0 <= k < perm.len() - 1 ==> spec_ranks_before(
        scores,
        #[trigger] perm[k],
        perm[k + 1],
    )
}

/// The candidates reordered by descending fuzzy score; candidates with
/// equal scores keep their relative order.
pub fn fuzzy_search(query: &str, data: &Vec<String>) -> (r: Vec<String>)
    ensures
        r@.len() == data@.len(),
        exists|perm: Seq<int>|
            #![trigger perm.len()]
            spec_is_ranking(
                data@.map_values(|d: String| spec_item_score(query@, d@)),
                perm,
            ) && (forall|k: int| 0 <= k < perm.len() ==> #[trigger] r@[k]@ == data@[perm[k]]@),
{
    let ghost sseq = data@.map_values(|d: String| spec_item_score(query@, d@));
    let scores = fuzzy_search_score(query, data);
    let n = data.len();
    let mut remaining: Vec<(u32, usize)> = Vec::new();
    let mut i: usize = 0;
    while i < n
        invariant
            i <= n,
            n == data@.len(),
            scores@.len() == n,
            remaining@.len() == i as nat,
            forall|k: int| 0 <= k < i ==> #[trigger] remaining@[k] == (scores@[k], k as usize),
        decreases n - i,
    {
        remaining.push((scores[i], i));
        i = i + 1;
    }
    proof {
        assert(forall|k: int| 0 <= k < n ==> #[trigger] sseq[k] == scores@[k]);
    }
    let mut out: Vec<String> = Vec::new();
    let ghost mut perm: Seq<int> = Seq::empty();
    while out.len() < n
        invariant
            n == data@.len(),
            scores@.len() == n,
            sseq.len() == n,
            forall|k: int| 0 <= k < n ==> #[trigger] sseq[k] == scores@[k],
            out@.len() + remaining@.len() == n,
            perm.len() == out@.len(),
            forall|k: int| 0 <= k < remaining@.len() ==> (#[trigger] remaining@[k]).1 < n
                && remaining@[k].0 == scores@[remaining@[k].1 as int],
            forall|k: int, l: int| 0 <= k < l < remaining@.len() ==> remaining@[k].1
                != remaining@[l].1,
            forall|k: int| 0 <= k < perm.len() ==> 0 <= #[trigger] perm[k] < n,
            forall|k: int, l: int| 0 <= k < l < perm.len() ==> perm[k] != perm[l],
            forall|k: int, l: int| 0 <= k < perm.len() && 0 <= l < remaining@.len()
                ==> #[trigger] perm[k] != #[trigger] remaining@[l].1 as int,
            forall|k: int| 0 <= k < perm.len() ==> #[trigger] out@[k]@ == data@[perm[k]]@,
            forall|k: int| 0 <= k < perm.len() - 1 ==> spec_ranks_before(
                sseq,
                #[trigger] perm[k],
                perm[k + 1],
            ),
            forall|k: int, l: int| 0 <= k < perm.len() && 0 <= l < remaining@.len()
                ==> spec_ranks_before(sseq, #[trigger] perm[k], #[trigger] remaining@[l].1 as int),
        decreases n - out.len(),
    {
        let mut bi: usize = 0;
        let mut j: usize = 1;
        while j < remaining.len()
            invariant
                remaining@.len() > 0,
                bi < j <= remaining@.len(),
                scores@.len() == n,
                sseq.len() == n,
                forall|k: int| 0 <= k < n ==> #[trigger] sseq[k] == scores@[k],
                forall|k: int| 0 <= k < remaining@.len() ==> (#[trigger] remaining@[k]).1 < n
                    && remaining@[k].0 == scores@[remaining@[k].1 as int],
                forall|k: int, l: int| 0 <= k < l < remaining@.len() ==> remaining@[k].1
                    != remaining@[l].1,
                forall|k: int| 0 <= k < j && k != bi ==> spec_ranks_before(
                    sseq,
                    remaining@[bi as int].1 as int,
                    (#[trigger] remaining@[k]).1 as int,
                ),
            decreases remaining@.len() - j,
        {
            let (sj, ij) = remaining[j];
            let (sb, ib) = remaining[bi];
            if sj > sb || (sj == sb && ij < ib) {
                bi = j;
            }
            j = j + 1;
        }
        let ghost prev_rem = remaining@;
        let ghost prev_perm = perm;
        let (_sc, idx) = remaining.remove(bi);
        out.push(data[idx].clone());
        proof {
            perm = perm.push(idx as int);
            assert(prev_rem[bi as int].1 == idx);
            assert forall|k: int| 0 <= k < remaining@.len() implies (#[trigger] remaining@[k]).1
                < n && remaining@[k].0 == scores@[remaining@[k].1 as int] by {
                if k < bi {
                    assert(remaining@[k] == prev_rem[k]);
                } else {
                    assert(remaining@[k] == prev_rem[k + 1]);
                }
            }
            assert forall|k: int, l: int| 0 <= k < l < remaining@.len() implies remaining@[k].1
                != remaining@[l].1 by {
                let k0 = if k < bi {
                    k
                } else {
                    k + 1
                };
                let l0 = if l < bi {
                    l
                } else {
                    l + 1
                };
                assert(remaining@[k] == prev_rem[k0]);
                assert(remaining@[l] == prev_rem[l0]);
            }
            assert forall|k: int, l: int|
                0 <= k < perm.len() && 0 <= l < remaining@.len() implies #[trigger] perm[k]
                != #[trigger] remaining@[l].1 as int by {
                let l0 = if l < bi {
                    l
                } else {
                    l + 1
                };
                assert(remaining@[l] == prev_rem[l0]);
                if k < prev_perm.len() {
                    assert(prev_perm[k] != prev_rem[l0].1 as int);
                } else {
                    assert(perm[k] == idx as int);
                    assert(prev_rem[bi as int].1 != prev_rem[l0].1);
                }
            }
            assert forall|k: int, l: int|
                0 <= k < perm.len() && 0 <= l < remaining@.len() implies spec_ranks_before(
                sseq,
                #[trigger] perm[k],
                #[trigger] remaining@[l].1 as int,
            ) by {
                let l0 = if l < bi {
                    l
                } else {
                    l + 1
                };
                assert(remaining@[l] == prev_rem[l0]);
                if k < prev_perm.len() {
                    assert(spec_ranks_before(sseq, prev_perm[k], prev_rem[l0].1 as int));
                } else {
                    assert(perm[k] == idx as int);
                    assert(spec_ranks_before(sseq, idx as int, prev_rem[l0].1 as int));
                }
            }
            assert forall|k: int| 0 <= k < perm.len() - 1 implies spec_ranks_before(
                sseq,
                #[trigger] perm[k],
                perm[k + 1],
            ) by {
                if k + 1 < prev_perm.len() {
                    assert(spec_ranks_before(sseq, prev_perm[k], prev_perm[k + 1]));
                } else {
                    assert(perm[k + 1] == idx as int);
                    assert(spec_ranks_before(sseq, prev_perm[k], prev_rem[bi as int].1 as int));
                }
            }
        }
    }
    proof {
        assert(spec_is_ranking(sseq, perm));
    }
    out
}

/// Comparable scoring surface for types that can stand in a fuzzy
/// search.
pub trait FuzzyScore {
    fn caluate(&self, query: &Self) -> u32;
}

} // verus!
