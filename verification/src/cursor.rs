//! An editable character buffer with a cursor.
//!
//! The buffer is a sequence of characters; the cursor is an offset in
//! `[0, len]`. All editing and navigation operations keep the cursor inside
//! those bounds. Word jumps and vertical movement work over index tables that
//! are binary-searched, as the navigation contracts describe.

use vstd::prelude::*;

verus! {

/// Relies on `str::chars`: the characters of a string slice, in order, are
/// exactly its view.
#[verifier::external_body]
pub(crate) fn chars_vec(s: &str) -> (v: Vec<char>)
    ensures
        v@ == s@,
{
    s.chars().collect()
}

/// Relies on `String::push`: appends one character to the end of the string.
#[verifier::external_body]
pub(crate) fn push_char(s: &mut String, c: char)
    ensures
        final(s)@ == old(s)@.push(c),
{
    s.push(c)
}

/// Builds the string holding `v[from..to]`.
pub(crate) fn string_of_range(v: &Vec<char>, from: usize, to: usize) -> (r: String)
    requires
        from <= to <= v@.len(),
    ensures
        r@ == v@.subrange(from as int, to as int),
{
    let mut r = String::new();
    let mut i: usize = from;
    while i < to
        invariant
            from <= i <= to <= v@.len(),
            r@ == v@.subrange(from as int, i as int),
        decreases to - i,
    {
        push_char(&mut r, v[i]);
        proof {
            assert(v@.subrange(from as int, i + 1 as int) == v@.subrange(
                from as int,
                i as int,
            ).push(v@[i as int]));
        }
        i = i + 1;
    }
    r
}

/// Whether `c` has the Unicode `White_Space` property, as
/// `char::is_whitespace` decides it.
pub open spec fn is_ws(c: char) -> bool {
    let u = c as u32;
    u == 0x9 || u == 0xA || u == 0xB || u == 0xC || u == 0xD || u == 0x20 || u == 0x85 || u == 0xA0
        || u == 0x1680 || (0x2000 <= u && u <= 0x200A) || u == 0x2028 || u == 0x2029 || u == 0x202F
        || u == 0x205F || u == 0x3000
}

/// Executable mirror of [`is_ws`].
pub fn is_whitespace_char(c: char) -> (r: bool)
    ensures
        r == is_ws(c),
{
    let u = c as u32;
    u == 0x9 || u == 0xA || u == 0xB || u == 0xC || u == 0xD || u == 0x20 || u == 0x85 || u == 0xA0
        || u == 0x1680 || (0x2000 <= u && u <= 0x200A) || u == 0x2028 || u == 0x2029 || u == 0x202F
        || u == 0x205F || u == 0x3000
}

/// Position `i` starts a word: it holds a non-whitespace character that is
/// preceded by whitespace or by the start of the buffer.
pub open spec fn word_start(s: Seq<char>, i: int) -> bool {
    0 <= i < s.len() && !is_ws(s[i]) && (i == 0 || is_ws(s[i - 1]))
}

/// The word-jump boundary left of `p`: the largest `t < p` that is `0` or a
/// word start.
pub open spec fn prev_word_boundary(s: Seq<char>, p: int) -> int
    decreases p,
{
    if p <= 1 {
        0
    } else if word_start(s, p - 1) {
        p - 1
    } else {
        prev_word_boundary(s, p - 1)
    }
}

/// The word-jump boundary right of `p`: the smallest `t > p` that is a word
/// start or the buffer length; `p >= len` stays at the length.
pub open spec fn next_word_boundary(s: Seq<char>, p: int) -> int
    decreases s.len() - p,
{
    if p + 1 >= s.len() {
        s.len() as int
    } else if word_start(s, p + 1) {
        p + 1
    } else {
        next_word_boundary(s, p + 1)
    }
}

/// The start of the line containing `p`: the largest `l <= p` that is `0` or
/// is preceded by a newline.
pub open spec fn line_home(s: Seq<char>, p: int) -> int
    decreases p,
{
    if p <= 0 {
        0
    } else if s[p - 1] == '\n' {
        p
    } else {
        line_home(s, p - 1)
    }
}

/// The end of the line containing `p`: the smallest `e >= p` that is the
/// buffer length or holds a newline.
pub open spec fn line_end(s: Seq<char>, p: int) -> int
    decreases s.len() - p,
{
    if p >= s.len() {
        s.len() as int
    } else if s[p] == '\n' {
        p
    } else {
        line_end(s, p + 1)
    }
}

/// Where the cursor lands when moving one line up from `p`: the column is
/// clamped into the previous line; on the first line it moves to the buffer
/// start.
pub open spec fn up_pos(s: Seq<char>, p: int) -> int {
    let cur = line_home(s, p);
    if cur == 0 {
        0
    } else {
        let prev = line_home(s, cur - 1);
        prev + vstd::math::min(p - cur, cur - 1 - prev)
    }
}

/// Where the cursor lands when moving one line down from `p`: the column is
/// clamped into the next line; on the last line it stays put.
pub open spec fn down_pos(s: Seq<char>, p: int) -> int {
    let cur = line_home(s, p);
    let e = line_end(s, p);
    if e >= s.len() {
        p
    } else {
        let ns = e + 1;
        let ne = line_end(s, ns);
        ns + vstd::math::min(p - cur, ne - ns)
    }
}

/// A table entry for word jumps: the buffer start, the buffer end, or a word
/// start.
pub open spec fn word_entry(s: Seq<char>, e: int) -> bool {
    e == 0 || e == s.len() || word_start(s, e)
}

/// A table entry for line jumps: the buffer start, one past each newline, or
/// one past the buffer end.
pub open spec fn line_entry(s: Seq<char>, e: int) -> bool {
    e == 0 || e == s.len() + 1 || (0 < e <= s.len() && s[e - 1] == '\n')
}

/// The table holds `e` somewhere.
pub open spec fn table_has(t: Seq<usize>, e: int) -> bool {
    exists|k: int| 0 <= k < t.len() && t[k] as int == e
}

/// The table is strictly ascending.
pub open spec fn strictly_inc(t: Seq<usize>) -> bool {
    forall|i: int, j: int| 0 <= i < j < t.len() ==> t[i] < t[j]
}

/// `t` is the word-jump table of `s`: strictly ascending, runs from `0` to
/// `s.len()`, holds only word entries, and holds all of them.
pub open spec fn is_word_table(s: Seq<char>, t: Seq<usize>) -> bool {
    &&& t.len() >= 1
    &&& strictly_inc(t)
    &&& t[0] == 0
    &&& t[t.len() - 1] as int == s.len()
    &&& forall|k: int| 0 <= k < t.len() ==> word_entry(s, #[trigger] t[k] as int)
    &&& forall|e: int| 0 <= e <= s.len() && word_entry(s, e) ==> table_has(t, e)
}

/// `t` is the line-jump table of `s`: strictly ascending, runs from `0` to
/// `s.len() + 1`, holds only line entries, and holds all of them.
pub open spec fn is_line_table(s: Seq<char>, t: Seq<usize>) -> bool {
    &&& t.len() >= 2
    &&& strictly_inc(t)
    &&& t[0] == 0
    &&& t[t.len() - 1] as int == s.len() + 1
    &&& forall|k: int| 0 <= k < t.len() ==> line_entry(s, #[trigger] t[k] as int)
    &&& forall|e: int| 0 <= e <= s.len() + 1 && line_entry(s, e) ==> table_has(t, e)
}

/// No table entry falls strictly between two adjacent entries.
proof fn lemma_no_between(t: Seq<usize>, j: int, e: int)
    requires
        strictly_inc(t),
        0 <= j,
        j + 1 < t.len(),
        table_has(t, e),
    ensures
        !((t[j] as int) < e && e < (t[j + 1] as int)),
{
    let k = choose|k: int| 0 <= k < t.len() && t[k] as int == e;
    if k < j {
        assert(t[k] < t[j]);
    } else if k > j + 1 {
        assert(t[j + 1] < t[k]);
    }
}

/// What the neighbours of a found entry in the line table mean: the entry is
/// its own line start, the next entry is one past its line end, and the
/// previous entry is the start of the previous line.
proof fn lemma_line_bridge_found(s: Seq<char>, t: Seq<usize>, ix: int)
    requires
        is_line_table(s, t),
        0 <= ix < t.len(),
        t[ix] as int <= s.len(),
    ensures
        line_home(s, t[ix] as int) == t[ix] as int,
        ix + 1 < t.len(),
        t[ix + 1] as int == line_end(s, t[ix] as int) + 1,
        ix == 0 ==> t[ix] as int == 0,
        ix > 0 ==> 0 < (t[ix] as int) && t[ix - 1] as int == line_home(s, t[ix] as int - 1),
{
    let p = t[ix] as int;
    assert(line_entry(s, p));
    assert(line_home(s, p) == p);
    if ix == t.len() - 1 {
        assert(t[ix] as int == s.len() + 1);
        assert(false);
    }
    assert(t[ix] < t[ix + 1]);
    assert forall|q: int| p < q && q < (t[ix + 1] as int) implies !line_entry(s, q) by {
        if line_entry(s, q) {
            assert(table_has(t, q));
            lemma_no_between(t, ix, q);
        }
    }
    lemma_line_above(s, t[ix + 1] as int, p);
    if ix > 0 {
        assert(t[0] < t[ix]);
        assert forall|q: int| (t[ix - 1] as int) < q && q <= p - 1 implies !line_entry(s, q) by {
            if line_entry(s, q) {
                assert(table_has(t, q));
                lemma_no_between(t, ix - 1, q);
            }
        }
        lemma_line_below(s, t[ix - 1] as int, p - 1);
    }
}

/// What the neighbours of an insertion point in the line table mean: the
/// entry below is the cursor's line start, the entry above is one past its
/// line end.
proof fn lemma_line_bridge_gap(s: Seq<char>, t: Seq<usize>, p: int, ix: int)
    requires
        is_line_table(s, t),
        0 <= p <= s.len(),
        0 <= ix <= t.len(),
        forall|k: int| 0 <= k < ix ==> t[k] < p,
        forall|k: int| ix <= k < t.len() ==> t[k] > p,
    ensures
        1 <= ix < t.len(),
        t[ix - 1] as int == line_home(s, p),
        t[ix] as int == line_end(s, p) + 1,
        line_home(s, p) < p,
{
    if ix == 0 {
        assert(t[0] > p);
        assert(false);
    }
    if ix == t.len() {
        assert(t[t.len() - 1] < p);
        assert(false);
    }
    assert(!line_entry(s, p)) by {
        if line_entry(s, p) {
            assert(table_has(t, p));
            let k = choose|k: int| 0 <= k < t.len() && t[k] as int == p;
            if k < ix {
                assert(t[k] < p);
            } else {
                assert(t[k] > p);
            }
        }
    }
    assert forall|q: int| (t[ix - 1] as int) < q && q <= p implies !line_entry(s, q) by {
        if line_entry(s, q) && q < p {
            assert(table_has(t, q));
            lemma_no_between(t, ix - 1, q);
        }
    }
    lemma_line_below(s, t[ix - 1] as int, p);
    assert forall|q: int| p < q && q < (t[ix] as int) implies !line_entry(s, q) by {
        if line_entry(s, q) {
            assert(table_has(t, q));
            lemma_no_between(t, ix - 1, q);
        }
    }
    lemma_line_above(s, t[ix] as int, p);
}

/// What the neighbours of a found entry in the word table mean: the previous
/// entry is the word boundary left of the entry, the next entry is the word
/// boundary right of it.
proof fn lemma_word_bridge_found(s: Seq<char>, t: Seq<usize>, ix: int)
    requires
        is_word_table(s, t),
        0 <= ix < t.len(),
    ensures
        t[ix] as int <= s.len(),
        ix == 0 ==> t[ix] as int == 0,
        ix > 0 ==> 0 < (t[ix] as int) && t[ix - 1] as int == prev_word_boundary(s, t[ix] as int),
        ix + 1 < t.len() ==> (t[ix] as int) < s.len() && t[ix + 1] as int == next_word_boundary(
            s,
            t[ix] as int,
        ),
        ix + 1 == t.len() ==> t[ix] as int == s.len(),
{
    let p = t[ix] as int;
    assert(word_entry(s, p));
    assert(t[ix] <= t[t.len() - 1]);
    if ix > 0 {
        assert(t[0] < t[ix]);
        assert forall|q: int| (t[ix - 1] as int) < q && q < p implies !word_entry(s, q) by {
            if word_entry(s, q) {
                assert(table_has(t, q));
                lemma_no_between(t, ix - 1, q);
            }
        }
        lemma_word_below(s, t[ix - 1] as int, p);
    }
    if ix + 1 < t.len() {
        assert(t[ix] < t[ix + 1] && t[ix + 1] <= t[t.len() - 1]);
        assert forall|q: int| p < q && q < (t[ix + 1] as int) implies !word_entry(s, q) by {
            if word_entry(s, q) {
                assert(table_has(t, q));
                lemma_no_between(t, ix, q);
            }
        }
        lemma_word_above(s, t[ix + 1] as int, p);
    }
}

/// What the neighbours of an insertion point in the word table mean: the
/// entry below is the word boundary left of the cursor, the entry above is
/// the word boundary right of it.
proof fn lemma_word_bridge_gap(s: Seq<char>, t: Seq<usize>, p: int, ix: int)
    requires
        is_word_table(s, t),
        0 <= p <= s.len(),
        0 <= ix <= t.len(),
        forall|k: int| 0 <= k < ix ==> t[k] < p,
        forall|k: int| ix <= k < t.len() ==> t[k] > p,
    ensures
        1 <= ix < t.len(),
        0 < p < s.len(),
        t[ix - 1] as int == prev_word_boundary(s, p),
        t[ix] as int == next_word_boundary(s, p),
{
    assert(table_has(t, 0)) by {
        assert(t[0] == 0);
    }
    assert(table_has(t, s.len() as int)) by {
        assert(t[t.len() - 1] as int == s.len());
    }
    if ix == 0 {
        assert(t[0] > p);
        assert(false);
    }
    if ix == t.len() {
        assert(t[t.len() - 1] < p);
        assert(false);
    }
    if p == 0 {
        assert(t[0] < p);
        assert(false);
    }
    if p == s.len() {
        let k = choose|k: int| 0 <= k < t.len() && t[k] as int == s.len();
        if k < ix {
            assert(t[k] < p);
        } else {
            assert(t[k] > p);
        }
        assert(false);
    }
    assert forall|q: int| (t[ix - 1] as int) < q && q < p implies !word_entry(s, q) by {
        if word_entry(s, q) {
            assert(table_has(t, q));
            lemma_no_between(t, ix - 1, q);
        }
    }
    lemma_word_below(s, t[ix - 1] as int, p);
    assert forall|q: int| p < q && q < (t[ix] as int) implies !word_entry(s, q) by {
        if word_entry(s, q) {
            assert(table_has(t, q));
            lemma_no_between(t, ix - 1, q);
        }
    }
    lemma_word_above(s, t[ix] as int, p);
}

/// Pushing an entry keeps every entry the table already had, and adds the
/// pushed one.
proof fn lemma_push_keeps(t: Seq<usize>, v: usize)
    ensures
        forall|e: int| table_has(t, e) ==> table_has(t.push(v), e),
        table_has(t.push(v), v as int),
{
    assert forall|e: int| table_has(t, e) implies table_has(t.push(v), e) by {
        let k = choose|k: int| 0 <= k < t.len() && t[k] as int == e;
        assert(t.push(v)[k] as int == e);
    }
    assert(t.push(v)[t.len() as int] == v);
}

/// Returns the indices of the first character of each word in the buffer,
/// together with the buffer start and the buffer length, in strictly
/// ascending order.
pub fn word_jump_indices(value: &Vec<char>) -> (t: Vec<usize>)
    ensures
        is_word_table(value@, t@),
{
    let ghost s = value@;
    let n = value.len();
    let mut t: Vec<usize> = Vec::new();
    t.push(0);
    let mut in_word = false;
    let mut i: usize = 0;
    while i < n
        invariant
            n == s.len(),
            value@ == s,
            i <= n,
            t@.len() >= 1,
            t@[0] == 0,
            strictly_inc(t@),
            t@[t@.len() - 1] < i || t@[t@.len() - 1] == 0,
            in_word == (i > 0 && !is_ws(s[i - 1])),
            forall|k: int| 0 <= k < t@.len() ==> (#[trigger] t@[k] == 0 || word_start(
                s,
                t@[k] as int,
            )),
            forall|e: int| 1 <= e < i && word_start(s, e) ==> table_has(t@, e),
        decreases n - i,
    {
        let c = value[i];
        if is_whitespace_char(c) {
            in_word = false;
        } else if !in_word {
            if i > 0 {
                let ghost t_old = t@;
                t.push(i);
                proof {
                    assert(t@ == t_old.push(i as usize));
                    lemma_push_keeps(t_old, i as usize);
                    assert(t@[t@.len() - 1] as int == i);
                }
            }
            in_word = true;
        }
        proof {
            if 1 <= i && word_start(s, i as int) {
                assert(table_has(t@, i as int));
            }
        }
        i = i + 1;
    }
    if n > 0 {
        let ghost t_old = t@;
        t.push(n);
        proof {
            assert(t@ == t_old.push(n as usize));
            lemma_push_keeps(t_old, n as usize);
            assert(t@[t@.len() - 1] as int == n);
        }
    }
    proof {
        assert(forall|e: int|
            0 <= e <= s.len() && word_entry(s, e) ==> (e == 0 || e == s.len() || (1 <= e < s.len()
                && word_start(s, e))));
        assert(table_has(t@, 0)) by {
            assert(t@[0] == 0);
        }
        assert(table_has(t@, s.len() as int)) by {
            assert(t@[t@.len() - 1] as int == s.len());
        }
    }
    t
}

/// Returns the start index of each line of the buffer (the buffer start and
/// one past each newline), closed by the sentinel one past the buffer end,
/// in strictly ascending order.
pub fn line_jump_indices(value: &Vec<char>) -> (t: Vec<usize>)
    requires
        value@.len() < usize::MAX,
    ensures
        is_line_table(value@, t@),
{
    let ghost s = value@;
    let n = value.len();
    let mut t: Vec<usize> = Vec::new();
    t.push(0);
    let mut i: usize = 0;
    while i < n
        invariant
            n == s.len() < usize::MAX,
            value@ == s,
            i <= n,
            t@.len() >= 1,
            t@[0] == 0,
            strictly_inc(t@),
            t@[t@.len() - 1] as int <= i,
            forall|k: int| 0 <= k < t@.len() ==> line_entry(s, #[trigger] t@[k] as int),
            forall|e: int| 0 < e <= i && s[e - 1] == '\n' ==> table_has(t@, e),
        decreases n - i,
    {
        let ghost t_head = t@;
        if value[i] == '\n' {
            t.push(i + 1);
            proof {
                assert(t@ == t_head.push((i + 1) as usize));
                lemma_push_keeps(t_head, (i + 1) as usize);
                assert(t@[t@.len() - 1] as int == i + 1);
            }
        }
        proof {
            assert forall|e: int| 0 < e <= i + 1 && s[e - 1] == '\n' implies table_has(t@, e) by {
                if e <= i {
                    assert(table_has(t_head, e));
                    if t@ != t_head {
                        lemma_push_keeps(t_head, (i + 1) as usize);
                    }
                } else {
                    assert(s[i as int] == '\n');
                }
            }
        }
        i = i + 1;
    }
    let ghost t_old = t@;
    t.push(n + 1);
    proof {
        assert(t@ == t_old.push((n + 1) as usize));
        lemma_push_keeps(t_old, (n + 1) as usize);
        assert(table_has(t@, 0)) by {
            assert(t@[0] == 0);
        }
        assert(table_has(t@, s.len() as int + 1)) by {
            assert(t@[t@.len() - 1] as int == s.len() + 1);
        }
        assert forall|e: int| 0 <= e <= s.len() + 1 && line_entry(s, e) implies table_has(t@, e) by {
            if 0 < e <= s.len() && s[e - 1] == '\n' {
                assert(table_has(t_old, e));
            }
        }
    }
    t
}

/// Binary search over a strictly ascending table: either the index holding
/// `x`, or the insertion point between the entries below and above `x`.
pub fn table_search(t: &Vec<usize>, x: usize) -> (r: Result<usize, usize>)
    requires
        strictly_inc(t@),
    ensures
        match r {
            Ok(i) => i < t@.len() && t@[i as int] == x,
            Err(i) => i <= t@.len() && (forall|k: int| 0 <= k < i ==> t@[k] < x) && (forall|k: int|
                i <= k < t@.len() ==> t@[k] > x),
        },
{
    let mut lo: usize = 0;
    let mut hi: usize = t.len();
    while lo < hi
        invariant
            strictly_inc(t@),
            lo <= hi <= t@.len(),
            forall|k: int| 0 <= k < lo ==> t@[k] < x,
            forall|k: int| hi <= k < t@.len() ==> t@[k] > x,
        decreases hi - lo,
    {
        let mid = lo + (hi - lo) / 2;
        let v = t[mid];
        if v == x {
            return Ok(mid);
        } else if v < x {
            lo = mid + 1;
        } else {
            hi = mid;
        }
    }
    Err(lo)
}

/// Properties of [`line_home`]: it is a line entry at or before `p`, and no
/// position between it and `p` starts a line.
pub proof fn lemma_line_home(s: Seq<char>, p: int)
    requires
        0 <= p <= s.len(),
    ensures
        0 <= line_home(s, p) <= p,
        line_entry(s, line_home(s, p)),
        forall|q: int| line_home(s, p) < q <= p ==> !line_entry(s, q),
    decreases p,
{
    if p <= 0 {
    } else if s[p - 1] == '\n' {
    } else {
        lemma_line_home(s, p - 1);
        assert(!line_entry(s, p));
    }
}

/// Properties of [`line_end`]: it is the buffer length or a newline, at or
/// after `p`, with no newline in between.
pub proof fn lemma_line_end(s: Seq<char>, p: int)
    requires
        0 <= p <= s.len(),
    ensures
        p <= line_end(s, p) <= s.len(),
        line_end(s, p) == s.len() || s[line_end(s, p)] == '\n',
        forall|q: int| p <= q < line_end(s, p) ==> s[q] != '\n',
    decreases s.len() - p,
{
    if p >= s.len() {
    } else if s[p] == '\n' {
    } else {
        lemma_line_end(s, p + 1);
    }
}

/// A line entry at or before `p` with no line entry between it and `p` is
/// exactly `line_home(s, p)`.
proof fn lemma_line_below(s: Seq<char>, e: int, p: int)
    requires
        0 <= p <= s.len(),
        line_entry(s, e),
        e <= p,
        forall|q: int| e < q <= p ==> !line_entry(s, q),
    ensures
        e == line_home(s, p),
{
    lemma_line_home(s, p);
}

/// A line entry after `p` with no line entry between `p` and it is exactly
/// one past `line_end(s, p)`.
proof fn lemma_line_above(s: Seq<char>, e: int, p: int)
    requires
        0 <= p <= s.len(),
        line_entry(s, e),
        e > p,
        forall|q: int| p < q < e ==> !line_entry(s, q),
    ensures
        e == line_end(s, p) + 1,
{
    lemma_line_end(s, p);
    let le = line_end(s, p);
    assert(line_entry(s, le + 1));
    if e < le + 1 {
        assert(s[e - 1] == '\n' && p <= e - 1 < le);
        assert(false);
    }
    if e > le + 1 {
        assert(!line_entry(s, le + 1));
        assert(false);
    }
}

/// Properties of [`prev_word_boundary`]: it is the buffer start or a word
/// start, strictly before a positive `p`, with no word start in between.
pub proof fn lemma_prev_word(s: Seq<char>, p: int)
    requires
        0 <= p <= s.len(),
    ensures
        0 <= prev_word_boundary(s, p) <= p,
        p > 0 ==> prev_word_boundary(s, p) < p,
        prev_word_boundary(s, p) == 0 || word_start(s, prev_word_boundary(s, p)),
        forall|q: int| prev_word_boundary(s, p) < q < p ==> !word_start(s, q),
    decreases p,
{
    if p <= 1 {
    } else if word_start(s, p - 1) {
    } else {
        lemma_prev_word(s, p - 1);
    }
}

/// Properties of [`next_word_boundary`]: it is a word start or the buffer
/// length, strictly after `p` when `p` is inside the buffer, with no word
/// start in between.
pub proof fn lemma_next_word(s: Seq<char>, p: int)
    requires
        0 <= p <= s.len(),
    ensures
        p <= next_word_boundary(s, p) <= s.len(),
        p < s.len() ==> p < next_word_boundary(s, p),
        next_word_boundary(s, p) == s.len() || word_start(s, next_word_boundary(s, p)),
        forall|q: int| p < q < next_word_boundary(s, p) ==> !word_start(s, q),
    decreases s.len() - p,
{
    if p + 1 >= s.len() {
    } else if word_start(s, p + 1) {
    } else {
        lemma_next_word(s, p + 1);
    }
}

/// A word entry at or before a positive `p`, with no word entry between it
/// and `p`, is exactly `prev_word_boundary(s, p)`.
proof fn lemma_word_below(s: Seq<char>, e: int, p: int)
    requires
        0 < p <= s.len(),
        word_entry(s, e),
        e < p,
        forall|q: int| e < q < p ==> !word_entry(s, q),
    ensures
        e == prev_word_boundary(s, p),
{
    lemma_prev_word(s, p);
    let pb = prev_word_boundary(s, p);
    assert(word_entry(s, pb));
    if pb < e {
        assert(!word_start(s, e) && e != 0);
        assert(e == s.len());
        assert(false);
    }
    if pb > e {
        assert(!word_entry(s, pb));
        assert(false);
    }
}

/// A word entry after `p`, with no word entry between `p` and it, is exactly
/// `next_word_boundary(s, p)`.
proof fn lemma_word_above(s: Seq<char>, e: int, p: int)
    requires
        0 <= p < s.len(),
        word_entry(s, e),
        e > p,
        forall|q: int| p < q < e ==> !word_entry(s, q),
    ensures
        e == next_word_boundary(s, p),
{
    lemma_next_word(s, p);
    let nb = next_word_boundary(s, p);
    assert(word_entry(s, nb));
    if nb < e {
        assert(!word_entry(s, nb));
        assert(false);
    }
    if nb > e {
        assert(!word_start(s, e) && e != 0);
        assert(e == s.len());
        assert(false);
    }
}

/// An editable character buffer plus a cursor offset.
pub struct StringCursor {
    value: Vec<char>,
    cursor: usize,
}

impl StringCursor {
    /// The characters currently held by the buffer.
    pub closed spec fn text(&self) -> Seq<char> {
        self.value@
    }

    /// The cursor offset into [`Self::text`].
    pub closed spec fn pos(&self) -> int {
        self.cursor as int
    }

    /// The cursor never exceeds the buffer length.
    pub open spec fn wf(&self) -> bool {
        0 <= self.pos() <= self.text().len()
    }

    /// Creates an empty buffer with the cursor at the start.
    pub fn new() -> (r: StringCursor)
        ensures
            r.text() == Seq::<char>::empty(),
            r.pos() == 0,
            r.wf(),
    {
        StringCursor { value: Vec::new(), cursor: 0 }
    }

    /// Whether the buffer holds no characters.
    pub fn is_empty(&self) -> (r: bool)
        ensures
            r == (self.text().len() == 0),
    {
        self.value.is_empty()
    }

    /// The character under the cursor, or `None` when the cursor sits at the
    /// end of the buffer.
    pub fn current(&self) -> (r: Option<char>)
        requires
            self.wf(),
        ensures
            r == if self.pos() < self.text().len() {
                Some(self.text()[self.pos()])
            } else {
                None::<char>
            },
    {
        if self.cursor < self.value.len() {
            Some(self.value[self.cursor])
        } else {
            None
        }
    }

    /// Inserts a character at the cursor and advances the cursor past it.
    pub fn insert(&mut self, chr: char)
        requires
            old(self).wf(),
        ensures
            final(self).text() == old(self).text().insert(old(self).pos(), chr),
            final(self).pos() == old(self).pos() + 1,
            final(self).wf(),
    {
        self.value.insert(self.cursor, chr);
        proof {
            vstd::std_specs::vec::axiom_spec_len(&self.value);
        }
        self.cursor = self.cursor + 1;
    }

    /// Moves the cursor one character to the left, clamped at the start.
    pub fn move_left(&mut self)
        ensures
            final(self).text() == old(self).text(),
            final(self).pos() == if old(self).pos() > 0 {
                old(self).pos() - 1
            } else {
                old(self).pos()
            },
            old(self).wf() ==> final(self).wf(),
    {
        if self.cursor > 0 {
            self.cursor = self.cursor - 1;
        }
    }

    /// Moves the cursor one character to the right, clamped at the end.
    pub fn move_right(&mut self)
        requires
            old(self).wf(),
        ensures
            final(self).text() == old(self).text(),
            final(self).pos() == if old(self).pos() < old(self).text().len() {
                old(self).pos() + 1
            } else {
                old(self).pos()
            },
            final(self).wf(),
    {
        if self.cursor < self.value.len() {
            self.cursor = self.cursor + 1;
        }
    }

    /// Moves the cursor to the start of the current logical line.
    pub fn move_home(&mut self)
        requires
            old(self).wf(),
        ensures
            final(self).text() == old(self).text(),
            final(self).wf(),
            old(self).text().len() < usize::MAX ==> final(self).pos() == line_home(
                old(self).text(),
                old(self).pos(),
            ),
            old(self).text().len() >= usize::MAX ==> final(self).pos() == old(self).pos(),
    {
        if self.value.len() == usize::MAX {
            // the line table would need one index past the largest usize
            return ;
        }
        let ghost s = self.value@;
        let ghost p = self.cursor as int;
        let t = line_jump_indices(&self.value);
        match table_search(&t, self.cursor) {
            Ok(ix) => {
                proof {
                    lemma_line_bridge_found(s, t@, ix as int);
                }
                // already at the start of a line: stay
            },
            Err(ix) => {
                proof {
                    lemma_line_bridge_gap(s, t@, p, ix as int);
                }
                self.cursor = t[ix - 1];
            },
        }
    }

    /// Moves the cursor to the end of the current logical line (onto its
    /// newline, or to the buffer end on the last line).
    pub fn move_end(&mut self)
        requires
            old(self).wf(),
        ensures
            final(self).text() == old(self).text(),
            final(self).wf(),
            old(self).text().len() < usize::MAX ==> final(self).pos() == line_end(
                old(self).text(),
                old(self).pos(),
            ),
            old(self).text().len() >= usize::MAX ==> final(self).pos() == old(self).pos(),
    {
        if self.value.len() == usize::MAX {
            // the line table would need one index past the largest usize
            return ;
        }
        let ghost s = self.value@;
        let ghost p = self.cursor as int;
        let t = line_jump_indices(&self.value);
        match table_search(&t, self.cursor) {
            Ok(ix) => {
                proof {
                    lemma_line_bridge_found(s, t@, ix as int);
                    lemma_line_end(s, p);
                    vstd::std_specs::vec::axiom_spec_len(&t);
                    assert(ix + 1 < t@.len());
                    assert(t@[ix as int + 1] as int == line_end(s, p) + 1 >= 1);
                }
                self.cursor = t[ix + 1] - 1;
            },
            Err(ix) => {
                proof {
                    lemma_line_bridge_gap(s, t@, p, ix as int);
                    lemma_line_end(s, p);
                }
                self.cursor = t[ix] - 1;
            },
        }
    }

    /// Moves the cursor one line up, clamping the column into the previous
    /// line; on the first line it moves to the buffer start.
    pub fn move_up(&mut self)
        requires
            old(self).wf(),
        ensures
            final(self).text() == old(self).text(),
            final(self).wf(),
            old(self).text().len() < usize::MAX ==> final(self).pos() == up_pos(
                old(self).text(),
                old(self).pos(),
            ),
            old(self).text().len() >= usize::MAX ==> final(self).pos() == old(self).pos(),
    {
        if self.value.len() == usize::MAX {
            // the line table would need one index past the largest usize
            return ;
        }
        let ghost s = self.value@;
        let ghost p = self.cursor as int;
        let t = line_jump_indices(&self.value);
        match table_search(&t, self.cursor) {
            Ok(ix) => {
                proof {
                    lemma_line_bridge_found(s, t@, ix as int);
                    if ix > 0 {
                        lemma_line_home(s, p - 1);
                    }
                }
                // at the start of a line: go to the start of the previous one
                self.cursor = t[if ix > 0 {
                    ix - 1
                } else {
                    0
                }];
            },
            Err(ix) => {
                proof {
                    lemma_line_bridge_gap(s, t@, p, ix as int);
                }
                let cix = ix - 1;
                let cur = t[cix];
                if cix == 0 {
                    // inside the first line: move to the buffer start
                    self.cursor = 0;
                } else {
                    proof {
                        lemma_line_bridge_found(s, t@, cix as int);
                        lemma_line_home(s, cur as int - 1);
                    }
                    let prev = t[cix - 1];
                    let col = self.cursor - cur;
                    let room = cur - 1 - prev;
                    let off = if col <= room {
                        col
                    } else {
                        room
                    };
                    self.cursor = prev + off;
                }
            },
        }
    }

    /// Moves the cursor one line down, clamping the column into the next
    /// line; on the last line it stays put.
    pub fn move_down(&mut self)
        requires
            old(self).wf(),
        ensures
            final(self).text() == old(self).text(),
            final(self).wf(),
            old(self).text().len() < usize::MAX ==> final(self).pos() == down_pos(
                old(self).text(),
                old(self).pos(),
            ),
            old(self).text().len() >= usize::MAX ==> final(self).pos() == old(self).pos(),
    {
        if self.value.len() == usize::MAX {
            // the line table would need one index past the largest usize
            return ;
        }
        let ghost s = self.value@;
        let ghost p = self.cursor as int;
        let t = line_jump_indices(&self.value);
        let n = t.len();
        match table_search(&t, self.cursor) {
            Ok(ix) => {
                proof {
                    lemma_line_bridge_found(s, t@, ix as int);
                    if ix as int + 1 <= n - 2 {
                        lemma_line_bridge_found(s, t@, ix as int + 1);
                        lemma_line_end(s, t@[ix as int + 1] as int);
                    } else {
                        lemma_line_end(s, p);
                    }
                }
                // at the start of a line: go to the start of the next one,
                // or stay on the last line
                let target = if ix + 1 <= n - 2 {
                    ix + 1
                } else {
                    n - 2
                };
                self.cursor = t[target];
            },
            Err(ix) => {
                proof {
                    lemma_line_bridge_gap(s, t@, p, ix as int);
                }
                let cix = ix - 1;
                let cur = t[cix];
                let target = if cix + 1 <= n - 2 {
                    cix + 1
                } else {
                    n - 2
                };
                let tnext = if target + 1 <= n - 1 {
                    target + 1
                } else {
                    n - 1
                };
                proof {
                    if cix as int + 1 <= n - 2 {
                        lemma_line_bridge_found(s, t@, target as int);
                        lemma_line_end(s, t@[target as int] as int);
                    } else {
                        lemma_line_end(s, p);
                    }
                }
                let col = self.cursor - cur;
                let gap_raw = t[tnext] - t[target];
                let room = if gap_raw > 0 {
                    gap_raw - 1
                } else {
                    0
                };
                let off = if col <= room {
                    col
                } else {
                    room
                };
                self.cursor = t[target] + off;
            },
        }
    }

    /// Moves the cursor to the word boundary on its left.
    pub fn move_left_by_word(&mut self)
        requires
            old(self).wf(),
        ensures
            final(self).text() == old(self).text(),
            final(self).pos() == prev_word_boundary(old(self).text(), old(self).pos()),
            final(self).wf(),
    {
        let ghost s = self.value@;
        let ghost p = self.cursor as int;
        let t = word_jump_indices(&self.value);
        let ix = match table_search(&t, self.cursor) {
            Ok(i) => {
                proof {
                    lemma_word_bridge_found(s, t@, i as int);
                }
                i
            },
            Err(i) => {
                proof {
                    lemma_word_bridge_gap(s, t@, p, i as int);
                }
                i
            },
        };
        proof {
            lemma_prev_word(s, p);
        }
        self.cursor = t[if ix > 0 {
            ix - 1
        } else {
            0
        }];
    }

    /// Moves the cursor to the word boundary on its right.
    pub fn move_right_by_word(&mut self)
        requires
            old(self).wf(),
        ensures
            final(self).text() == old(self).text(),
            final(self).pos() == next_word_boundary(old(self).text(), old(self).pos()),
            final(self).wf(),
    {
        let ghost s = self.value@;
        let ghost p = self.cursor as int;
        let t = word_jump_indices(&self.value);
        let ix = match table_search(&t, self.cursor) {
            Ok(i) => {
                proof {
                    lemma_word_bridge_found(s, t@, i as int);
                    vstd::std_specs::vec::axiom_spec_len(&t);
                }
                i + 1
            },
            Err(i) => {
                proof {
                    lemma_word_bridge_gap(s, t@, p, i as int);
                }
                i
            },
        };
        proof {
            lemma_next_word(s, p);
        }
        self.cursor = t[if ix <= t.len() - 1 {
            ix
        } else {
            t.len() - 1
        }];
    }

    /// Deletes from the word boundary left of the cursor up to the cursor,
    /// and moves the cursor onto that boundary; a no-op at the buffer start.
    pub fn delete_word_to_the_left(&mut self)
        requires
            old(self).wf(),
        ensures
            final(self).text() == if old(self).pos() > 0 {
                old(self).text().subrange(0, prev_word_boundary(old(self).text(), old(self).pos()))
                    + old(self).text().subrange(old(self).pos(), old(self).text().len() as int)
            } else {
                old(self).text()
            },
            final(self).pos() == prev_word_boundary(old(self).text(), old(self).pos()),
            final(self).wf(),
    {
        let ghost s = self.value@;
        let ghost p = self.cursor as int;
        if self.cursor > 0 {
            let t = word_jump_indices(&self.value);
            let ix = match table_search(&t, self.cursor) {
                Ok(i) => {
                    proof {
                        lemma_word_bridge_found(s, t@, i as int);
                        if i == 0 {
                            assert(false);
                        }
                    }
                    i
                },
                Err(i) => {
                    proof {
                        lemma_word_bridge_gap(s, t@, p, i as int);
                    }
                    i
                },
            };
            proof {
                lemma_prev_word(s, p);
            }
            let start = t[ix - 1];
            let count = self.cursor - start;
            let mut removed: usize = 0;
            while removed < count
                invariant
                    removed <= count,
                    start + count <= s.len(),
                    start as int == prev_word_boundary(s, p),
                    p == start + count,
                    self.value@ == s.subrange(0, start as int) + s.subrange(
                        start + removed,
                        s.len() as int,
                    ),
                    self.cursor == p,
                decreases count - removed,
            {
                let ghost before = self.value@;
                self.value.remove(start);
                proof {
                    assert(self.value@ =~= s.subrange(0, start as int) + s.subrange(
                        start + removed + 1,
                        s.len() as int,
                    ));
                }
                removed = removed + 1;
            }
            self.cursor = start;
        } else {
            proof {
                assert(prev_word_boundary(s, 0) == 0);
            }
        }
    }

    /// Deletes the character left of the cursor and moves the cursor onto its
    /// place; a no-op at the start of the buffer.
    pub fn delete_left(&mut self)
        requires
            old(self).wf(),
        ensures
            final(self).text() == if old(self).pos() > 0 {
                old(self).text().remove(old(self).pos() - 1)
            } else {
                old(self).text()
            },
            final(self).pos() == if old(self).pos() > 0 {
                old(self).pos() - 1
            } else {
                old(self).pos()
            },
            final(self).wf(),
    {
        if self.value.is_empty() {
            return ;
        }
        if self.cursor > 0 {
            self.value.remove(self.cursor - 1);
            self.cursor = self.cursor - 1;
        }
    }

    /// Deletes the character under the cursor; a no-op at the end of the
    /// buffer.
    pub fn delete_right(&mut self)
        requires
            old(self).wf(),
        ensures
            final(self).text() == if old(self).pos() < old(self).text().len() {
                old(self).text().remove(old(self).pos())
            } else {
                old(self).text()
            },
            final(self).pos() == old(self).pos(),
            final(self).wf(),
    {
        if self.value.is_empty() {
            return ;
        }
        if self.cursor < self.value.len() {
            self.value.remove(self.cursor);
        }
    }

    /// Overwrites every buffered character and then empties the buffer: a
    /// secret-backing instance leaves no copy of its text behind. The host
    /// calls this when a masked prompt is done; the buffer cannot wipe itself
    /// on destruction here, so destruction alone does not erase it.
    pub fn wipe(&mut self)
        ensures
            final(self).text() == Seq::<char>::empty(),
            final(self).pos() == 0,
            final(self).wf(),
    {
        let n = self.value.len();
        let mut i: usize = 0;
        while i < n
            invariant
                i <= n == self.value@.len(),
            decreases n - i,
        {
            self.value[i] = '\0';
            i = i + 1;
        }
        self.cursor = 0;
        self.value.clear();
    }

    /// Empties the buffer and rewinds the cursor.
    pub fn clear(&mut self)
        ensures
            final(self).text() == Seq::<char>::empty(),
            final(self).pos() == 0,
            final(self).wf(),
    {
        self.cursor = 0;
        self.value.clear()
    }

    /// Appends the characters of `string` to the end of the buffer; the
    /// cursor does not move.
    pub fn extend(&mut self, string: &str)
        ensures
            final(self).text() == old(self).text() + string@,
            final(self).pos() == old(self).pos(),
            old(self).wf() ==> final(self).wf(),
    {
        let mut rest = chars_vec(string);
        self.value.append(&mut rest);
    }

    /// The whole buffer as a string.
    pub fn to_string(&self) -> (r: String)
        ensures
            r@ == self.text(),
    {
        proof {
            assert(self.value@.subrange(0, self.value@.len() as int) == self.value@);
        }
        string_of_range(&self.value, 0, self.value.len())
    }

    /// A copy whose every character is replaced by `mask`; buffer length and
    /// cursor position are kept. This is the only render path for secret
    /// input.
    pub fn masked(&self, mask: char) -> (r: StringCursor)
        ensures
            r.text() == Seq::new(self.text().len(), |i: int| mask),
            r.pos() == self.pos(),
            self.wf() ==> r.wf(),
    {
        let mut masked_value: Vec<char> = Vec::new();
        let n = self.value.len();
        let mut i: usize = 0;
        while i < n
            invariant
                i <= n == self.value@.len(),
                masked_value@ == Seq::new(i as nat, |j: int| mask),
            decreases n - i,
        {
            masked_value.push(mask);
            proof {
                assert(masked_value@ == Seq::new((i + 1) as nat, |j: int| mask));
            }
            i = i + 1;
        }
        StringCursor { value: masked_value, cursor: self.cursor }
    }

    /// Splits the buffer at the cursor for caret rendering: the text before
    /// the cursor, the character drawn under the caret (a space at the end of
    /// the buffer or on a newline), and the text after the cursor (led by the
    /// newline when the cursor sits on one).
    pub fn split(&self) -> (r: (String, String, String))
        requires
            self.wf(),
        ensures
            r.0@ == self.text().subrange(0, self.pos()),
            ({
                let s = self.text();
                let p = self.pos();
                let rest = if p + 1 < s.len() {
                    s.subrange(p + 1, s.len() as int)
                } else {
                    Seq::<char>::empty()
                };
                if p < s.len() && s[p] != '\n' {
                    r.1@ == seq![s[p]] && r.2@ == rest
                } else if p < s.len() {
                    r.1@ == seq![' '] && r.2@ == seq!['\n'] + rest
                } else {
                    r.1@ == seq![' '] && r.2@ == Seq::<char>::empty()
                }
            }),
    {
        let left = string_of_range(&self.value, 0, self.cursor);
        let mut caret = String::new();
        let mut right = String::new();
        match self.current() {
            Some(c) if c == '\n' => {
                push_char(&mut caret, ' ');
                push_char(&mut right, '\n');
            },
            Some(c) => {
                push_char(&mut caret, c);
            },
            None => {
                push_char(&mut caret, ' ');
            },
        }
        if !self.value.is_empty() && self.cursor < self.value.len() - 1 {
            let tail = string_of_range(&self.value, self.cursor + 1, self.value.len());
            right.append(tail.as_str());
        }
        proof {
            assert(Seq::<char>::empty().push(' ') == seq![' ']);
            if self.pos() < self.text().len() {
                assert(Seq::<char>::empty().push(self.text()[self.pos()]) == seq![
                    self.text()[self.pos()],
                ]);
                assert(Seq::<char>::empty().push('\n') == seq!['\n']);
            }
        }
        (left, caret, right)
    }
}

/// A position strictly inside a word: its own and its preceding characters
/// are both non-whitespace.
pub open spec fn inside_word(s: Seq<char>, p: int) -> bool {
    0 < p < s.len() && !is_ws(s[p]) && !is_ws(s[p - 1])
}

/// Law: inserting a character and immediately deleting to the left restores
/// the prior buffer and cursor exactly. The hypotheses are precisely what
/// [`StringCursor::insert`] and [`StringCursor::delete_left`] ensure.
pub proof fn lemma_insert_then_delete_left(
    a: StringCursor,
    b: StringCursor,
    c: StringCursor,
    ch: char,
)
    requires
        a.wf(),
        b.text() == a.text().insert(a.pos(), ch),
        b.pos() == a.pos() + 1,
        b.pos() > 0,
        c.text() == b.text().remove(b.pos() - 1),
        c.pos() == b.pos() - 1,
    ensures
        c.text() == a.text(),
        c.pos() == a.pos(),
{
    assert(c.text() =~= a.text());
}

/// Law: jumping right by a word and then left by a word lands on a word-start
/// boundary or on the buffer start — never inside a word.
pub proof fn lemma_word_jump_round_trip(s: Seq<char>, p: int)
    requires
        0 <= p <= s.len(),
    ensures
        ({
            let b = prev_word_boundary(s, next_word_boundary(s, p));
            &&& b == 0 || word_start(s, b)
            &&& !inside_word(s, b)
        }),
{
    lemma_next_word(s, p);
    lemma_prev_word(s, next_word_boundary(s, p));
}

impl Default for StringCursor {
    /// An empty buffer with the cursor at the start.
    fn default() -> (r: StringCursor)
        ensures
            r.text() == Seq::<char>::empty(),
            r.pos() == 0,
            r.wf(),
    {
        StringCursor::new()
    }
}

impl Clone for StringCursor {
    /// An exact copy: same characters, same cursor position.
    fn clone(&self) -> (r: StringCursor)
        ensures
            r.text() == self.text(),
            r.pos() == self.pos(),
    {
        StringCursor { value: self.value.clone(), cursor: self.cursor }
    }
}

} // verus!
