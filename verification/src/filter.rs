//! The fuzzy filter that powers searchable choice lists.
//!
//! Filtering lower-cases the query and each label, scores every label with a
//! prefix-weighted edit similarity plus a whole-word substring bonus, drops
//! the candidates at or below the threshold, and ranks the rest by descending
//! score with ties kept in original order. Scores are held in fixed point:
//! a similarity of one is [`crate::SCORE_SCALE`].

use vstd::prelude::*;

use crate::cursor::{chars_vec, is_ws, string_of_range, StringCursor};
use crate::interaction::{edit_cursor, edited_pos, edited_text, Key, State};
use crate::{SCORE_SCALE, SCORE_THRESHOLD};

verus! {

/// What `str::to_lowercase` returns: a pure function of the characters alone.
pub uninterp spec fn lower_of(s: Seq<char>) -> Seq<char>;

/// Relies on `str::to_lowercase`: Unicode lowercasing, a pure function of the
/// characters; an empty string stays empty.
#[verifier::external_body]
pub(crate) fn to_lowercase(s: &str) -> (r: String)
    ensures
        r@ == lower_of(s@),
        s@.len() == 0 ==> r@.len() == 0,
{
    s.to_lowercase()
}

/// The character is a decimal digit.
pub open spec fn is_digit(c: char) -> bool {
    48 <= c as u32 <= 57
}

/// The numeric value of a decimal digit.
pub open spec fn digit_val(c: char) -> int {
    c as u32 - 48
}

/// The shape of a similarity printed with six fractional digits, for a value
/// between zero and one: `d.dddddd`, with a unit digit of `0`, or exactly
/// `1.000000`.
pub open spec fn is_fixed6(s: Seq<char>) -> bool {
    &&& s.len() == 8
    &&& s[1] == '.'
    &&& is_digit(s[0]) && digit_val(s[0]) <= 1
    &&& forall|k: int| 2 <= k < 8 ==> is_digit(#[trigger] s[k])
    &&& (digit_val(s[0]) == 1 ==> forall|k: int| 2 <= k < 8 ==> digit_val(#[trigger] s[k]) == 0)
}

/// The value of a [`is_fixed6`] similarity text in millionths.
pub open spec fn micro_val(s: Seq<char>) -> int {
    digit_val(s[0]) * 1_000_000 + digit_val(s[2]) * 100_000 + digit_val(s[3]) * 10_000 + digit_val(
        s[4],
    ) * 1_000 + digit_val(s[5]) * 100 + digit_val(s[6]) * 10 + digit_val(s[7])
}

/// What `strsim::jaro_winkler` returns, printed with six fractional digits:
/// a pure function of the two character sequences.
pub uninterp spec fn similarity_text_of(a: Seq<char>, b: Seq<char>) -> Seq<char>;

/// Relies on `strsim::jaro_winkler` — a prefix-weighted edit similarity
/// between `0.0` and `1.0`, exactly `1.0` for equal strings — and on fixed
/// six-digit formatting of that value, which therefore has the `d.dddddd`
/// shape of [`is_fixed6`] and reads `1.000000` for equal strings.
#[verifier::external_body]
pub(crate) fn similarity_text(a: &str, b: &str) -> (r: String)
    ensures
        r@ == similarity_text_of(a@, b@),
        is_fixed6(r@),
        a@ == b@ ==> r@ == "1.000000"@,
{
    format!("{:.6}", strsim::jaro_winkler(a, b))
}

/// Reads a [`is_fixed6`] similarity text as a count of millionths.
pub(crate) fn micro_of_fixed6(s: &str) -> (r: u64)
    requires
        is_fixed6(s@),
    ensures
        r as int == micro_val(s@),
        r <= SCORE_SCALE,
{
    let v = chars_vec(s);
    let d0 = (v[0] as u32 - 48) as u64;
    let d2 = (v[2] as u32 - 48) as u64;
    let d3 = (v[3] as u32 - 48) as u64;
    let d4 = (v[4] as u32 - 48) as u64;
    let d5 = (v[5] as u32 - 48) as u64;
    let d6 = (v[6] as u32 - 48) as u64;
    let d7 = (v[7] as u32 - 48) as u64;
    d0 * 1_000_000 + d2 * 100_000 + d3 * 10_000 + d4 * 1_000 + d5 * 100 + d6 * 10 + d7
}

/// The end of the whitespace-free run starting at `i`: the smallest `j >= i`
/// that is the length or holds whitespace.
pub open spec fn ws_end(s: Seq<char>, i: int) -> int
    decreases s.len() - i,
{
    if i >= s.len() {
        s.len() as int
    } else if is_ws(s[i]) {
        i
    } else {
        ws_end(s, i + 1)
    }
}

/// Properties of [`ws_end`]: it sits at or after `i`, at the length or on
/// whitespace, with none in between.
pub proof fn lemma_ws_end(s: Seq<char>, i: int)
    requires
        0 <= i <= s.len(),
    ensures
        i <= ws_end(s, i) <= s.len(),
        ws_end(s, i) == s.len() || is_ws(s[ws_end(s, i)]),
        forall|q: int| i <= q < ws_end(s, i) ==> !is_ws(s[q]),
        i < s.len() && !is_ws(s[i]) ==> ws_end(s, i) > i,
    decreases s.len() - i,
{
    if i >= s.len() {
    } else if is_ws(s[i]) {
    } else {
        lemma_ws_end(s, i + 1);
    }
}

/// The whitespace-separated tokens of `s` from position `i` on.
pub open spec fn tokens_from(s: Seq<char>, i: int) -> Seq<Seq<char>>
    decreases s.len() - i,
    via tokens_from_dec
{
    if i < 0 || i >= s.len() {
        Seq::<Seq<char>>::empty()
    } else if is_ws(s[i]) {
        tokens_from(s, i + 1)
    } else {
        seq![s.subrange(i, ws_end(s, i))] + tokens_from(s, ws_end(s, i))
    }
}

#[via_fn]
proof fn tokens_from_dec(s: Seq<char>, i: int) {
    if 0 <= i && i < s.len() && !is_ws(s[i]) {
        lemma_ws_end(s, i);
    }
}

/// The whitespace-separated tokens of `s`.
pub open spec fn split_ws(s: Seq<char>) -> Seq<Seq<char>> {
    tokens_from(s, 0)
}

/// The views of a sequence of strings.
pub open spec fn strs_views(v: Seq<String>) -> Seq<Seq<char>> {
    Seq::new(v.len(), |i: int| v[i]@)
}

/// Splits the characters into their whitespace-separated tokens.
pub(crate) fn split_whitespace_tokens(v: &Vec<char>) -> (r: Vec<String>)
    ensures
        strs_views(r@) == split_ws(v@),
{
    let ghost s = v@;
    let n = v.len();
    let mut r: Vec<String> = Vec::new();
    let mut i: usize = 0;
    proof {
        assert(strs_views(r@) =~= Seq::<Seq<char>>::empty());
    }
    while i < n
        invariant
            n == s.len(),
            v@ == s,
            i <= n,
            strs_views(r@) + tokens_from(s, i as int) == split_ws(s),
        decreases n - i,
    {
        if is_ws_exec(v[i]) {
            i = i + 1;
        } else {
            let mut j: usize = i + 1;
            while j < n && !is_ws_exec(v[j])
                invariant
                    n == s.len(),
                    v@ == s,
                    i < j <= n,
                    forall|q: int| i <= q < j ==> !is_ws(s[q]),
                decreases n - j,
            {
                j = j + 1;
            }
            proof {
                lemma_ws_end(s, i as int);
                if ws_end(s, i as int) < j {
                    assert(!is_ws(s[ws_end(s, i as int)]));
                }
                if ws_end(s, i as int) > j {
                    assert(!is_ws(s[j as int]));
                }
                assert(ws_end(s, i as int) == j);
            }
            let token = string_of_range(v, i, j);
            let ghost r_old = r@;
            r.push(token);
            proof {
                assert(strs_views(r@) =~= strs_views(r_old).push(s.subrange(i as int, j as int)));
                assert(strs_views(r_old) + tokens_from(s, i as int) == split_ws(s));
                assert(tokens_from(s, i as int) == seq![s.subrange(i as int, j as int)]
                    + tokens_from(s, j as int));
                assert(strs_views(r@) + tokens_from(s, j as int) =~= split_ws(s));
            }
            i = j;
        }
    }
    proof {
        assert(strs_views(r@) + tokens_from(s, n as int) =~= strs_views(r@));
    }
    r
}

/// Executable mirror of [`is_ws`] for this module.
fn is_ws_exec(c: char) -> (r: bool)
    ensures
        r == is_ws(c),
{
    crate::cursor::is_whitespace_char(c)
}

/// `needle` occurs contiguously inside `hay`.
pub open spec fn is_substring(needle: Seq<char>, hay: Seq<char>) -> bool {
    exists|k: int|
        0 <= k && k + needle.len() <= hay.len() && #[trigger] hay.subrange(k, k + needle.len())
            == needle
}

/// Whether `needle` occurs at offset `k` of `hay`.
fn matches_at(hay: &Vec<char>, k: usize, needle: &Vec<char>) -> (r: bool)
    requires
        k + needle@.len() <= hay@.len(),
    ensures
        r == (hay@.subrange(k as int, k + needle@.len()) == needle@),
{
    let n = needle.len();
    let h = hay.len();
    let mut m: usize = 0;
    while m < n
        invariant
            n == needle@.len(),
            k + n <= h == hay@.len(),
            m <= n,
            forall|q: int| 0 <= q < m ==> hay@[k + q] == needle@[q],
        decreases n - m,
    {
        if hay[k + m] != needle[m] {
            proof {
                assert(hay@.subrange(k as int, k + n as int)[m as int] == hay@[k + m]);
            }
            return false;
        }
        m = m + 1;
    }
    proof {
        assert(hay@.subrange(k as int, k + n as int) =~= needle@);
    }
    true
}

/// Whether `needle` occurs contiguously inside `hay`.
pub(crate) fn contains_chars(hay: &Vec<char>, needle: &Vec<char>) -> (r: bool)
    ensures
        r == is_substring(needle@, hay@),
{
    let n = needle.len();
    let h = hay.len();
    if n == 0 {
        proof {
            assert(hay@.subrange(0, 0 + needle@.len() as int) =~= needle@);
            assert(is_substring(needle@, hay@));
        }
        return true;
    }
    if n > h {
        proof {
            assert(!is_substring(needle@, hay@)) by {
                if is_substring(needle@, hay@) {
                    let k = choose|k: int|
                        0 <= k && k + needle@.len() <= hay@.len() && #[trigger] hay@.subrange(
                            k,
                            k + needle@.len(),
                        ) == needle@;
                    assert(k + n > h);
                }
            }
        }
        return false;
    }
    let mut k: usize = 0;
    while k <= h - n
        invariant
            1 <= n <= h == hay@.len(),
            n == needle@.len(),
            k <= h - n + 1,
            forall|kk: int| 0 <= kk < k ==> #[trigger] hay@.subrange(kk, kk + n as int) != needle@,
        decreases h - n - k + 1,
    {
        if matches_at(hay, k, needle) {
            return true;
        }
        k = k + 1;
    }
    proof {
        assert(!is_substring(needle@, hay@)) by {
            if is_substring(needle@, hay@) {
                let kk = choose|kk: int|
                    0 <= kk && kk + needle@.len() <= hay@.len() && #[trigger] hay@.subrange(
                        kk,
                        kk + needle@.len(),
                    ) == needle@;
                assert(kk < k);
            }
        }
    }
    false
}

/// Every whitespace-separated token of the query occurs, lower-cased, inside
/// the lower-cased label.
pub open spec fn bonus_of(label: Seq<char>, raw_query: Seq<char>) -> bool {
    forall|k: int|
        0 <= k < split_ws(raw_query).len() ==> is_substring(
            lower_of(#[trigger] split_ws(raw_query)[k]),
            lower_of(label),
        )
}

/// The score of one label against the query, in millionths: the similarity
/// of the lower-cased texts, plus a whole bonus unit when every query token
/// occurs inside the label.
pub open spec fn score_of(label: Seq<char>, raw_query: Seq<char>) -> int {
    micro_val(similarity_text_of(lower_of(label), lower_of(raw_query))) + if bonus_of(
        label,
        raw_query,
    ) {
        SCORE_SCALE as int
    } else {
        0
    }
}

/// An item that shows a label the filter can match on.
pub trait LabeledItem: Sized {
    /// The label text.
    spec fn label_spec(&self) -> Seq<char>;

    /// The label text.
    fn label(&self) -> (r: &str)
        ensures
            r@ == self.label_spec(),
    ;
}

/// The labels of a list of items.
pub open spec fn labels_of<I: LabeledItem>(items: Seq<I>) -> Seq<Seq<char>> {
    Seq::new(items.len(), |i: int| items[i].label_spec())
}

/// `vis` is the ranked view of the labels under the query: it holds exactly
/// the indices whose score clears the threshold, in descending score order,
/// with ties kept in original order.
pub open spec fn is_ranked(labels: Seq<Seq<char>>, q: Seq<char>, vis: Seq<usize>) -> bool {
    &&& forall|k: int| 0 <= k < vis.len() ==> (#[trigger] vis[k] as int) < labels.len()
    &&& forall|a: int, b: int|
        0 <= a < b < vis.len() ==> score_of(labels[#[trigger] vis[a] as int], q) > score_of(
            labels[#[trigger] vis[b] as int],
            q,
        ) || (score_of(labels[vis[a] as int], q) == score_of(labels[vis[b] as int], q)
            && vis[a] < vis[b])
    &&& forall|i: int|
        0 <= i < labels.len() ==> (score_of(#[trigger] labels[i], q) > SCORE_THRESHOLD as int
            <==> vis.contains(i as usize))
}

/// One scored pair ranks before another: higher score first, earlier index
/// first among equal scores.
pub open spec fn ranks_before(a: (u64, usize), b: (u64, usize)) -> bool {
    a.0 > b.0 || (a.0 == b.0 && a.1 < b.1)
}

/// Whether every lower-cased query token occurs inside the lower-cased
/// label.
fn all_tokens_found(
    hay: &Vec<char>,
    tokens_lower: &Vec<Vec<char>>,
    Ghost(label): Ghost<Seq<char>>,
    Ghost(raw_query): Ghost<Seq<char>>,
) -> (r: bool)
    requires
        hay@ == lower_of(label),
        tokens_lower@.len() == split_ws(raw_query).len(),
        forall|k: int|
            0 <= k < tokens_lower@.len() ==> #[trigger] tokens_lower@[k]@ == lower_of(
                split_ws(raw_query)[k],
            ),
    ensures
        r == bonus_of(label, raw_query),
{
    let n = tokens_lower.len();
    let mut k: usize = 0;
    while k < n
        invariant
            n == tokens_lower@.len(),
            hay@ == lower_of(label),
            k <= n,
            tokens_lower@.len() == split_ws(raw_query).len(),
            forall|kk: int|
                0 <= kk < tokens_lower@.len() ==> #[trigger] tokens_lower@[kk]@ == lower_of(
                    split_ws(raw_query)[kk],
                ),
            forall|kk: int|
                0 <= kk < k ==> is_substring(
                    lower_of(#[trigger] split_ws(raw_query)[kk]),
                    lower_of(label),
                ),
        decreases n - k,
    {
        if !contains_chars(hay, &tokens_lower[k]) {
            return false;
        }
        k = k + 1;
    }
    true
}

/// Computes the score of one label against the query, both handed over
/// lower-cased, with the query's tokens pre-lower-cased.
fn score_label(
    label: &str,
    query_lower: &str,
    tokens_lower: &Vec<Vec<char>>,
    Ghost(raw_query): Ghost<Seq<char>>,
) -> (score: u64)
    requires
        query_lower@ == lower_of(raw_query),
        tokens_lower@.len() == split_ws(raw_query).len(),
        forall|k: int|
            0 <= k < tokens_lower@.len() ==> #[trigger] tokens_lower@[k]@ == lower_of(
                split_ws(raw_query)[k],
            ),
    ensures
        score as int == score_of(label@, raw_query),
        score <= 2 * SCORE_SCALE,
{
    let label_lower = to_lowercase(label);
    let sim_text = similarity_text(label_lower.as_str(), query_lower);
    let micro = micro_of_fixed6(sim_text.as_str());
    let hay = chars_vec(label_lower.as_str());
    if all_tokens_found(&hay, tokens_lower, Ghost(label@), Ghost(raw_query)) {
        micro + 1_000_000
    } else {
        micro
    }
}

/// Inserts one scored pair into a ranked run, keeping it ranked: the pair
/// goes after everything that ranks before it.
fn insert_ranked(out: &mut Vec<(u64, usize)>, x: (u64, usize))
    requires
        forall|a: int, b: int|
            0 <= a < b < old(out)@.len() ==> ranks_before(
                #[trigger] old(out)@[a],
                #[trigger] old(out)@[b],
            ),
        forall|k: int| 0 <= k < old(out)@.len() ==> (#[trigger] old(out)@[k]).1 < x.1,
    ensures
        forall|a: int, b: int|
            0 <= a < b < final(out)@.len() ==> ranks_before(
                #[trigger] final(out)@[a],
                #[trigger] final(out)@[b],
            ),
        exists|p: int| 0 <= p <= old(out)@.len() && final(out)@ == #[trigger] old(out)@.insert(p, x),
{
    let ghost out_old = out@;
    let n = out.len();
    let mut pos: usize = 0;
    while pos < n && !ranks_before_exec(x, out[pos])
        invariant
            n == out@.len(),
            out@ == out_old,
            pos <= n,
            forall|k: int| 0 <= k < out@.len() ==> (#[trigger] out@[k]).1 < x.1,
            forall|k: int| 0 <= k < pos ==> ranks_before(#[trigger] out@[k], x),
            forall|a: int, b: int|
                0 <= a < b < out@.len() ==> ranks_before(#[trigger] out@[a], #[trigger] out@[b]),
        decreases n - pos,
    {
        pos = pos + 1;
    }
    out.insert(pos, x);
    proof {
        assert(out@ == out_old.insert(pos as int, x));
        assert(forall|k: int| 0 <= k < pos ==> out@[k] == #[trigger] out_old[k]);
        assert(out@[pos as int] == x);
        assert(forall|k: int| pos < k < out@.len() ==> out@[k] == #[trigger] out_old[k - 1]);
        assert forall|a: int, b: int| 0 <= a < b < out@.len() implies ranks_before(
            #[trigger] out@[a],
            #[trigger] out@[b],
        ) by {
            if b < pos {
                assert(ranks_before(out_old[a], out_old[b]));
            } else if a < pos && b == pos {
                assert(ranks_before(out_old[a], x));
            } else if a < pos && b > pos {
                assert(ranks_before(out_old[a], out_old[b - 1]));
            } else if a == pos && b > pos {
                // the scan stopped because x ranks before the element at the
                // insertion point, which ranks before everything behind it
                assert(pos < out_old.len());
                assert(ranks_before(x, out_old[pos as int]));
                if b - 1 > pos {
                    assert(ranks_before(out_old[pos as int], out_old[b - 1]));
                }
            } else {
                assert(ranks_before(out_old[a - 1], out_old[b - 1]));
            }
        }
    }
}

/// Ranks the items against the query: exactly the indices whose score clears
/// the threshold, in descending score order, ties kept in original order.
#[verifier::rlimit(100)]
#[verifier::spinoff_prover]
pub(crate) fn rank_items<I: LabeledItem>(items: &Vec<I>, raw_query: &str) -> (vis: Vec<usize>)
    ensures
        is_ranked(labels_of(items@), raw_query@, vis@),
{
    let ghost q = raw_query@;
    let ghost labels = labels_of(items@);
    let query_lower = to_lowercase(raw_query);
    let raw_chars = chars_vec(raw_query);
    let token_strs = split_whitespace_tokens(&raw_chars);
    let mut tokens_lower: Vec<Vec<char>> = Vec::new();
    let tn = token_strs.len();
    let mut t: usize = 0;
    while t < tn
        invariant
            tn == token_strs@.len(),
            strs_views(token_strs@) == split_ws(q),
            t == tokens_lower@.len() <= tn,
            forall|k: int|
                0 <= k < t ==> #[trigger] tokens_lower@[k]@ == lower_of(split_ws(q)[k]),
        decreases tn - t,
    {
        let tl = to_lowercase(token_strs[t].as_str());
        proof {
            assert(strs_views(token_strs@)[t as int] == token_strs@[t as int]@);
        }
        tokens_lower.push(chars_vec(tl.as_str()));
        t = t + 1;
    }
    // score every item and keep the candidates above the threshold
    let n = items.len();
    let mut scored: Vec<(u64, usize)> = Vec::new();
    let mut i: usize = 0;
    while i < n
        invariant
            n == items@.len(),
            labels == labels_of(items@),
            q == raw_query@,
            query_lower@ == lower_of(q),
            tokens_lower@.len() == split_ws(q).len(),
            forall|k: int|
                0 <= k < tokens_lower@.len() ==> #[trigger] tokens_lower@[k]@ == lower_of(
                    split_ws(q)[k],
                ),
            i <= n,
            forall|k: int|
                0 <= k < scored@.len() ==> (#[trigger] scored@[k]).1 < i && scored@[k].0 as int
                    == score_of(labels[scored@[k].1 as int], q),
            forall|a: int, b: int| 0 <= a < b < scored@.len() ==> scored@[a].1 < scored@[b].1,
            forall|j: int|
                0 <= j < i ==> (score_of(#[trigger] labels[j], q) > SCORE_THRESHOLD as int <==>
                    exists|k: int| 0 <= k < scored@.len() && (#[trigger] scored@[k]).1 as int == j),
        decreases n - i,
    {
        let score = score_label(items[i].label(), query_lower.as_str(), &tokens_lower, Ghost(q));
        proof {
            assert(labels[i as int] == items@[i as int].label_spec());
        }
        if score > SCORE_THRESHOLD {
            let ghost s_old = scored@;
            scored.push((score, i));
            proof {
                assert(scored@[s_old.len() as int].1 as int == i as int);
                assert(forall|k: int|
                    0 <= k < s_old.len() ==> scored@[k] == #[trigger] s_old[k]);
            }
        }
        i = i + 1;
    }
    // stable insertion sort: descending score, original order among ties
    let ghost pool = scored@;
    let mut out: Vec<(u64, usize)> = Vec::new();
    let sn = scored.len();
    let mut j: usize = 0;
    while j < sn
        invariant
            sn == pool.len(),
            scored@ == pool,
            j <= sn,
            out@.len() == j,
            forall|a: int, b: int| 0 <= a < b < pool.len() ==> pool[a].1 < pool[b].1,
            forall|k: int|
                0 <= k < out@.len() ==> exists|m: int| 0 <= m < j && #[trigger] out@[k] == pool[m],
            forall|m: int|
                0 <= m < j ==> exists|k: int| 0 <= k < out@.len() && #[trigger] pool[m] == out@[k],
            forall|a: int, b: int|
                0 <= a < b < out@.len() ==> ranks_before(#[trigger] out@[a], #[trigger] out@[b]),
        decreases sn - j,
    {
        let x = scored[j];
        proof {
            assert forall|k: int| 0 <= k < out@.len() implies (#[trigger] out@[k]).1 < x.1 by {
                let m = choose|m: int| 0 <= m < j && out@[k] == pool[m];
                assert(pool[m].1 < pool[j as int].1);
            }
        }
        let ghost out_old = out@;
        insert_ranked(&mut out, x);
        proof {
            let p = choose|p: int| 0 <= p <= out_old.len() && out@ == #[trigger] out_old.insert(
                p,
                x,
            );
            assert forall|k: int| 0 <= k < out@.len() implies exists|m: int|
                0 <= m < j + 1 && #[trigger] out@[k] == pool[m] by {
                if k < p {
                    assert(out@[k] == out_old[k]);
                    let m = choose|m: int| 0 <= m < j && out_old[k] == pool[m];
                    assert(out@[k] == pool[m]);
                } else if k == p {
                    assert(out@[k] == pool[j as int]);
                } else {
                    assert(out@[k] == out_old[k - 1]);
                    let m = choose|m: int| 0 <= m < j && out_old[k - 1] == pool[m];
                    assert(out@[k] == pool[m]);
                }
            }
            assert forall|m: int| 0 <= m < j + 1 implies exists|k: int|
                0 <= k < out@.len() && #[trigger] pool[m] == out@[k] by {
                if m == j {
                    assert(pool[m] == out@[p]);
                } else {
                    let k = choose|k: int| 0 <= k < out_old.len() && pool[m] == #[trigger] out_old[k];
                    if k < p {
                        assert(pool[m] == out@[k]);
                    } else {
                        assert(pool[m] == out@[k + 1]);
                    }
                }
            }
        }
        j = j + 1;
    }
    // strip the scores, keeping the ranked indices
    let mut vis: Vec<usize> = Vec::new();
    let on = out.len();
    let mut k: usize = 0;
    while k < on
        invariant
            on == out@.len(),
            k <= on,
            vis@.len() == k,
            forall|m: int| 0 <= m < k ==> #[trigger] vis@[m] == out@[m].1,
        decreases on - k,
    {
        vis.push(out[k].1);
        k = k + 1;
    }
    proof {
        // every ranked entry is a scored candidate, and the other way round
        assert forall|m: int| 0 <= m < vis@.len() implies (#[trigger] vis@[m] as int) < labels.len()
            && out@[m].0 as int == score_of(labels[vis@[m] as int], q) by {
            let mm = choose|mm: int| 0 <= mm < pool.len() && out@[m] == pool[mm];
        }
        assert forall|a: int, b: int| 0 <= a < b < vis@.len() implies score_of(
            labels[#[trigger] vis@[a] as int],
            q,
        ) > score_of(labels[#[trigger] vis@[b] as int], q) || (score_of(labels[vis@[a] as int], q)
            == score_of(labels[vis@[b] as int], q) && vis@[a] < vis@[b]) by {
            assert(ranks_before(out@[a], out@[b]));
        }
        assert forall|i: int| 0 <= i < labels.len() implies (score_of(#[trigger] labels[i], q)
            > SCORE_THRESHOLD as int <==> vis@.contains(i as usize)) by {
            if score_of(labels[i], q) > SCORE_THRESHOLD as int {
                let kk = choose|kk: int| 0 <= kk < pool.len() && (#[trigger] pool[kk]).1 as int == i;
                let m = choose|m: int| 0 <= m < out@.len() && pool[kk] == out@[m];
                assert(vis@[m] == i as usize);
                assert(vis@.contains(i as usize));
            }
            if vis@.contains(i as usize) {
                let m = choose|m: int| 0 <= m < vis@.len() && vis@[m] == i as usize;
                let mm = choose|mm: int| 0 <= mm < pool.len() && out@[m] == pool[mm];
                assert(pool[mm].0 as int == score_of(labels[i], q));
                assert(pool[mm].0 > SCORE_THRESHOLD);
            }
        }
    }
    vis
}

/// Executable mirror of [`ranks_before`].
fn ranks_before_exec(a: (u64, usize), b: (u64, usize)) -> (r: bool)
    ensures
        r == ranks_before(a, b),
{
    a.0 > b.0 || (a.0 == b.0 && a.1 < b.1)
}


/// Makes the full list visible: the indices `0..n` in original order.
pub(crate) fn identity_indices(n: usize) -> (r: Vec<usize>)
    ensures
        r@.len() == n,
        forall|k: int| 0 <= k < n ==> r@[k] == k,
{
    let mut r: Vec<usize> = Vec::new();
    let mut i: usize = 0;
    while i < n
        invariant
            i <= n,
            r@.len() == i,
            forall|k: int| 0 <= k < i ==> r@[k] == k,
        decreases n - i,
    {
        r.push(i);
        i = i + 1;
    }
    r
}

/// A filtered view over a canonical list of items: a query buffer and the
/// ranked indices of the currently visible items. While the filter is
/// disabled, or while the query is empty, every item is visible in original
/// order.
pub struct FilteredView {
    enabled: bool,
    input: StringCursor,
    visible: Vec<usize>,
}

impl FilteredView {
    /// Whether filtering is switched on.
    pub closed spec fn filtering(&self) -> bool {
        self.enabled
    }

    /// The query text.
    pub closed spec fn query(&self) -> Seq<char> {
        self.input.text()
    }

    /// The cursor offset inside the query.
    pub closed spec fn query_pos(&self) -> int {
        self.input.pos()
    }

    /// The indices of the currently visible items.
    pub closed spec fn view_indices(&self) -> Seq<usize> {
        self.visible@
    }

    /// The query cursor stays inside its buffer.
    pub open spec fn wf(&self) -> bool {
        0 <= self.query_pos() <= self.query().len()
    }

    /// Switches filtering on.
    pub fn enable(&mut self)
        ensures
            final(self).filtering(),
            final(self).query() == old(self).query(),
            final(self).query_pos() == old(self).query_pos(),
            final(self).view_indices() == old(self).view_indices(),
    {
        self.enabled = true;
    }

    /// Resets the view to the whole list, in original order.
    pub fn set<I: LabeledItem>(&mut self, items: &Vec<I>)
        ensures
            final(self).filtering() == old(self).filtering(),
            final(self).query() == old(self).query(),
            final(self).query_pos() == old(self).query_pos(),
            final(self).view_indices().len() == items@.len(),
            forall|k: int| 0 <= k < items@.len() ==> final(self).view_indices()[k] == k,
    {
        self.visible = identity_indices(items.len());
    }

    /// The indices of the currently visible items, ranked.
    pub fn items(&self) -> (r: &Vec<usize>)
        ensures
            r@ == self.view_indices(),
    {
        &self.visible
    }

    /// The query buffer, for rendering, while filtering is on.
    pub fn input(&self) -> (r: Option<&StringCursor>)
        ensures
            match r {
                Some(c) => self.filtering() && c.text() == self.query() && c.pos()
                    == self.query_pos(),
                None => !self.filtering(),
            },
    {
        if !self.enabled {
            return None;
        }
        Some(&self.input)
    }

    /// Whether filtering is switched on.
    pub fn is_enabled(&self) -> (r: bool)
        ensures
            r == self.filtering(),
    {
        self.enabled
    }

    /// Offers one keypress to the query buffer, as the driver does, while
    /// filtering is on.
    pub fn edit(&mut self, key: &Key)
        requires
            old(self).wf(),
        ensures
            final(self).wf(),
            final(self).filtering() == old(self).filtering(),
            final(self).view_indices() == old(self).view_indices(),
            !old(self).filtering() ==> final(self).query() == old(self).query() && final(self).query_pos() == old(self).query_pos(),
            old(self).filtering() ==> final(self).query() == edited_text(
                old(self).query(),
                old(self).query_pos(),
                *key,
                true,
            ) && final(self).query_pos() == edited_pos(
                old(self).query(),
                old(self).query_pos(),
                *key,
                true,
            ),
    {
        if self.enabled {
            edit_cursor(&mut self.input, key, true);
        }
    }

    /// Handles one keypress of the owning prompt: either a resolved state the
    /// owner uses verbatim, or `None`, meaning the owner handles the key
    /// itself. Bare vertical navigation always passes through; horizontal
    /// navigation passes through only on an empty query; Enter passes through
    /// only when something is visible, and otherwise reports that no items
    /// match; a space deletes the query character the driver just inserted;
    /// any other key re-ranks the view, or resets it when the query is empty.
    pub fn on<T, I: LabeledItem>(&mut self, key: &Key, all_items: &Vec<I>) -> (r: Option<State<T>>)
        requires
            old(self).wf(),
        ensures
            final(self).wf(),
            final(self).filtering() == old(self).filtering(),
            !old(self).filtering() ==> r is None && on_untouched(*old(self), *final(self)),
            old(self).filtering() ==> match *key {
                Key::ArrowUp | Key::ArrowDown => r is None && on_untouched(
                    *old(self),
                    *final(self),
                ),
                Key::ArrowLeft | Key::ArrowRight => if old(self).query().len() == 0 {
                    r is None && on_untouched(*old(self), *final(self))
                } else {
                    (r matches Some(State::<T>::Active)) && on_refreshed(
                        *old(self),
                        *final(self),
                        labels_of(all_items@),
                    )
                },
                Key::Enter => on_untouched(*old(self), *final(self)) && if old(self).view_indices().len() > 0 {
                    r is None
                } else {
                    r matches Some(State::Error(m)) && m@ == "No items"@
                },
                Key::Char(c) => if c == ' ' {
                    r is None && final(self).view_indices() == old(self).view_indices() && final(self).query() == (if old(self).query_pos() > 0 {
                        old(self).query().remove(old(self).query_pos() - 1)
                    } else {
                        old(self).query()
                    }) && final(self).query_pos() == (if old(self).query_pos() > 0 {
                        old(self).query_pos() - 1
                    } else {
                        old(self).query_pos()
                    })
                } else {
                    (r matches Some(State::<T>::Active)) && on_refreshed(
                        *old(self),
                        *final(self),
                        labels_of(all_items@),
                    )
                },
                _ => (r matches Some(State::<T>::Active)) && on_refreshed(
                    *old(self),
                    *final(self),
                    labels_of(all_items@),
                ),
            },
    {
        if !self.enabled {
            // pass over the control
            return None;
        }
        match *key {
            // further processing of plain vertical moves is the owner's
            Key::ArrowUp | Key::ArrowDown => None,
            // moving along the list horizontally while no query is typed
            Key::ArrowLeft | Key::ArrowRight => {
                if self.input.is_empty() {
                    None
                } else {
                    self.refresh(all_items);
                    Some(State::Active)
                }
            },
            Key::Enter => {
                if self.visible.len() > 0 {
                    // the owner submits the selected item
                    None
                } else {
                    Some(State::Error("No items".to_owned()))
                }
            },
            Key::Char(c) => {
                if c == ' ' {
                    // spaces are not part of queries: undo the driver's insertion
                    self.input.delete_left();
                    None
                } else {
                    self.refresh(all_items);
                    Some(State::Active)
                }
            },
            _ => {
                self.refresh(all_items);
                Some(State::Active)
            },
        }
    }

    /// Recomputes the visible indices: ranked under a non-empty query, the
    /// whole list in original order otherwise.
    fn refresh<I: LabeledItem>(&mut self, all_items: &Vec<I>)
        requires
            old(self).wf(),
        ensures
            final(self).wf(),
            final(self).filtering() == old(self).filtering(),
            on_refreshed(*old(self), *final(self), labels_of(all_items@)),
    {
        if !self.input.is_empty() {
            let query = self.input.to_string();
            self.visible = rank_items(all_items, query.as_str());
        } else {
            self.visible = identity_indices(all_items.len());
        }
    }
}

/// The filter left the query and the view alone.
pub open spec fn on_untouched(pre: FilteredView, post: FilteredView) -> bool {
    &&& post.query() == pre.query()
    &&& post.query_pos() == pre.query_pos()
    &&& post.view_indices() == pre.view_indices()
}

/// The filter kept the query and recomputed the view: ranked under a
/// non-empty query, the whole list in original order otherwise.
pub open spec fn on_refreshed(pre: FilteredView, post: FilteredView, labels: Seq<Seq<char>>) -> bool {
    &&& post.query() == pre.query()
    &&& post.query_pos() == pre.query_pos()
    &&& if pre.query().len() > 0 {
        is_ranked(labels, pre.query(), post.view_indices())
    } else {
        post.view_indices().len() == labels.len() && (forall|k: int|
            0 <= k < labels.len() ==> post.view_indices()[k] == k)
    }
}

impl Default for FilteredView {
    /// A disabled filter with an empty query and nothing visible yet.
    fn default() -> (r: FilteredView)
        ensures
            !r.filtering(),
            r.query() == Seq::<char>::empty(),
            r.query_pos() == 0,
            r.view_indices() == Seq::<usize>::empty(),
            r.wf(),
    {
        FilteredView { enabled: false, input: StringCursor::new(), visible: Vec::new() }
    }
}

/// Reads the similarity text of two equal inputs: exactly one unit.
pub proof fn lemma_micro_of_equal()
    ensures
        micro_val("1.000000"@) == 1_000_000,
{
    reveal_strlit("1.000000");
}

/// Law: a whitespace-free query that lower-cases to the label itself earns
/// the substring bonus.
pub proof fn lemma_exact_label_bonus(label: Seq<char>, q: Seq<char>)
    requires
        q.len() > 0,
        forall|k: int| 0 <= k < q.len() ==> !is_ws(#[trigger] q[k]),
        lower_of(label) == lower_of(q),
    ensures
        bonus_of(label, q),
{
    lemma_ws_end(q, 0);
    assert(!is_ws(q[0]));
    assert(ws_end(q, 0) == q.len());
    assert(q.subrange(0, q.len() as int) =~= q);
    assert(tokens_from(q, q.len() as int) =~= Seq::<Seq<char>>::empty());
    assert(split_ws(q) == seq![q.subrange(0, ws_end(q, 0))] + tokens_from(q, ws_end(q, 0)));
    assert(split_ws(q) =~= seq![q]);
    assert forall|k: int| 0 <= k < split_ws(q).len() implies is_substring(
        lower_of(#[trigger] split_ws(q)[k]),
        lower_of(label),
    ) by {
        let x = lower_of(q);
        assert(x.subrange(0, 0 + x.len() as int) =~= x);
        assert(is_substring(x, x));
    }
}

/// Law: the item whose score strictly beats every other qualifying score is
/// ranked first.
pub proof fn lemma_top_score_ranks_first(
    labels: Seq<Seq<char>>,
    q: Seq<char>,
    vis: Seq<usize>,
    i: int,
)
    requires
        is_ranked(labels, q, vis),
        labels.len() <= usize::MAX,
        0 <= i < labels.len(),
        score_of(labels[i], q) > SCORE_THRESHOLD as int,
        forall|j: int|
            0 <= j < labels.len() && j != i ==> score_of(#[trigger] labels[j], q) < score_of(
                labels[i],
                q,
            ),
    ensures
        vis.len() > 0,
        vis[0] as int == i,
{
    assert(vis.contains(i as usize));
    let m = choose|m: int| 0 <= m < vis.len() && vis[m] == i as usize;
    assert(vis[m] as int == i);
    if m > 0 {
        assert((vis[0] as int) < labels.len());
        if vis[0] as int == i {
            // two ranked positions holding the same index contradict the
            // strict tie order
            assert(score_of(labels[vis[0] as int], q) > score_of(labels[vis[m] as int], q) || (
            score_of(labels[vis[0] as int], q) == score_of(labels[vis[m] as int], q) && vis[0]
                < vis[m]));
            assert(false);
        } else {
            assert(score_of(labels[vis[0] as int], q) < score_of(labels[i], q));
            assert(score_of(labels[vis[0] as int], q) > score_of(labels[vis[m] as int], q) || (
            score_of(labels[vis[0] as int], q) == score_of(labels[vis[m] as int], q) && vis[0]
                < vis[m]));
            assert(false);
        }
    }
}

} // verus!
