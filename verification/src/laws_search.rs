//! What holds of searching and replacing.

use vstd::prelude::*;
use crate::key::{KeyCode, KeyModifiers};
use crate::search::{
    covers, found, lemma_line_matches, lemma_matches_in, line_matches, matches_in,
    nearest, occurs_at, replaced, room_for, spliced,
};
use crate::state::{pos_le, pos_lt, EditorView, Pos};

verus! {

// ── Matches ──────────────────────────────────────────────────────────────

/// Every occurrence in a line is found.
proof fn lemma_line_matches_complete(
    line: Seq<char>,
    query: Seq<char>,
    r: int,
    n: int,
    c: int,
)
    requires
        0 <= c < n,
        occurs_at(line, query, c),
    ensures
        line_matches(line, query, r, n).contains((r, c)),
    decreases n,
{
    let before = line_matches(line, query, r, n - 1);
    let after = line_matches(line, query, r, n);
    if c == n - 1 {
        assert(after.last() == (r, c));
    } else {
        lemma_line_matches_complete(line, query, r, n - 1, c);
        let i = choose|i: int| 0 <= i < before.len() && before[i] == (r, c);
        assert(after[i] == (r, c));
    }
}

/// The matches of a line come in order.
proof fn lemma_line_matches_sorted(line: Seq<char>, query: Seq<char>, r: int, n: int)
    ensures
        forall|i: int, j: int|
            0 <= i < j < line_matches(line, query, r, n).len() ==> pos_lt(
                #[trigger] line_matches(line, query, r, n)[i],
                #[trigger] line_matches(line, query, r, n)[j],
            ),
    decreases n,
{
    if n > 0 {
        lemma_line_matches_sorted(line, query, r, n - 1);
        lemma_line_matches(line, query, r, n - 1);
        let before = line_matches(line, query, r, n - 1);
        let after = line_matches(line, query, r, n);
        assert forall|i: int, j: int| 0 <= i < j < after.len() implies pos_lt(
            #[trigger] after[i],
            #[trigger] after[j],
        ) by {
            assert(after[i] == before[i]);
            if j < before.len() {
                assert(after[j] == before[j]);
            }
        }
    }
}

/// Every occurrence in the first rows is found.
proof fn lemma_matches_complete(lines: Seq<Seq<char>>, query: Seq<char>, n: int, p: Pos)
    requires
        0 <= p.0 < n <= lines.len(),
        occurs_at(lines[p.0], query, p.1),
    ensures
        matches_in(lines, query, n).contains(p),
    decreases n,
{
    let before = matches_in(lines, query, n - 1);
    let room = room_for(lines[n - 1], query);
    let here = line_matches(lines[n - 1], query, n - 1, room);
    let after = matches_in(lines, query, n);
    if p.0 == n - 1 {
        lemma_line_matches_complete(lines[n - 1], query, n - 1, room, p.1);
        let i = choose|i: int| 0 <= i < here.len() && here[i] == p;
        assert(after[before.len() + i] == p);
    } else {
        lemma_matches_complete(lines, query, n - 1, p);
        let i = choose|i: int| 0 <= i < before.len() && before[i] == p;
        assert(after[i] == p);
    }
}

/// The matches of the first rows come in order.
proof fn lemma_matches_sorted(lines: Seq<Seq<char>>, query: Seq<char>, n: int)
    requires
        n <= lines.len(),
    ensures
        forall|i: int, j: int|
            0 <= i < j < matches_in(lines, query, n).len() ==> pos_lt(
                #[trigger] matches_in(lines, query, n)[i],
                #[trigger] matches_in(lines, query, n)[j],
            ),
    decreases n,
{
    if n > 0 {
        let before = matches_in(lines, query, n - 1);
        let room = room_for(lines[n - 1], query);
        let here = line_matches(lines[n - 1], query, n - 1, room);
        let after = matches_in(lines, query, n);
        lemma_matches_sorted(lines, query, n - 1);
        lemma_line_matches_sorted(lines[n - 1], query, n - 1, room);
        lemma_matches_in(lines, query, n - 1);
        lemma_line_matches(lines[n - 1], query, n - 1, room);
        assert forall|i: int, j: int| 0 <= i < j < after.len() implies pos_lt(
            #[trigger] after[i],
            #[trigger] after[j],
        ) by {
            if i < before.len() {
                assert(after[i] == before[i]);
            } else {
                assert(after[i] == here[i - before.len()]);
            }
            if j < before.len() {
                assert(after[j] == before[j]);
            } else {
                assert(after[j] == here[j - before.len()]);
            }
        }
    }
}

/// The matches of a query are the places at which it stands in a line, each of
/// them and no other.
pub proof fn law_found_exactly(lines: Seq<Seq<char>>, query: Seq<char>, p: Pos)
    requires
        query.len() > 0,
    ensures
        found(lines, query).contains(p) <==> 0 <= p.0 < lines.len() && occurs_at(
            lines[p.0],
            query,
            p.1,
        ),
{
    lemma_matches_in(lines, query, lines.len() as int);
    if 0 <= p.0 < lines.len() && occurs_at(lines[p.0], query, p.1) {
        lemma_matches_complete(lines, query, lines.len() as int, p);
    }
}

/// The matches come in the order of the text, none of them twice.
pub proof fn law_found_in_order(lines: Seq<Seq<char>>, query: Seq<char>, i: int, j: int)
    requires
        0 <= i < j < found(lines, query).len(),
    ensures
        pos_lt(found(lines, query)[i], found(lines, query)[j]),
{
    lemma_matches_sorted(lines, query, lines.len() as int);
}

/// What `nearest` finds from an index on.
pub proof fn lemma_nearest(matches: Seq<Pos>, p: Pos, from: int)
    requires
        0 <= from,
    ensures
        ({
            let k = nearest(matches, p, from);
            ||| (from <= k < matches.len() && pos_le(p, matches[k]) && forall|i: int|
                from <= i < k ==> !pos_le(p, #[trigger] matches[i]))
            ||| (k == 0 && forall|i: int|
                from <= i < matches.len() ==> !pos_le(p, #[trigger] matches[i]))
        }),
    decreases matches.len() - from,
{
    if from < matches.len() && !pos_le(p, matches[from]) {
        lemma_nearest(matches, p, from + 1);
    }
}

/// The match that typing a query leads to is the first one at or behind the
/// cursor; behind the last one it is the first of all.
pub proof fn law_nearest(e: EditorView)
    requires
        e.search_ok(),
        e.search_matches.len() > 0,
    ensures
        ({
            let k = e.nearest_match();
            &&& 0 <= k < e.search_matches.len()
            &&& if pos_le(e.cursor(), e.search_matches[k]) {
                forall|i: int| 0 <= i < k ==> pos_lt(#[trigger] e.search_matches[i], e.cursor())
            } else {
                k == 0 && forall|i: int|
                    0 <= i < e.search_matches.len() ==> pos_lt(
                        #[trigger] e.search_matches[i],
                        e.cursor(),
                    )
            }
        }),
{
    lemma_nearest(e.search_matches, e.cursor(), 0);
}

/// The state after pressing Enter `k` times.
pub open spec fn after_enters(e: EditorView, k: nat) -> EditorView
    decreases k,
{
    if k == 0 {
        e
    } else {
        after_enters(e, (k - 1) as nat).key(KeyCode::Enter, KeyModifiers::Plain).0
    }
}

/// Enter in the search prompt goes from match to match, and from the last to
/// the first; after as many steps as there are matches it is back.
pub proof fn law_enter_goes_round(e: EditorView, k: nat)
    requires
        e.inv(),
        e.prompt is Search,
        e.search_matches.len() > 0,
    ensures
        ({
            let after = after_enters(e, k);
            let n = e.search_matches.len() as int;
            &&& after.search_match_idx == (e.search_match_idx + k) % n
            &&& k > 0 ==> after.cursor() == e.search_matches[after.search_match_idx]
            &&& after.lines == e.lines
            &&& after.search_matches == e.search_matches
            &&& after.prompt == e.prompt
        }),
    decreases k,
{
    let n = e.search_matches.len() as int;
    if k == 0 {
        assert((e.search_match_idx + 0) % n == e.search_match_idx) by (nonlinear_arith)
            requires
                0 <= e.search_match_idx < n,
        ;
    } else {
        law_enter_goes_round(e, (k - 1) as nat);
        let i = e.search_match_idx + k - 1;
        assert((i % n + 1) % n == (i + 1) % n) by {
            vstd::arithmetic::div_mod::lemma_add_mod_noop(i, 1, n);
            vstd::arithmetic::div_mod::lemma_add_mod_noop(i % n, 1, n);
            vstd::arithmetic::div_mod::lemma_mod_twice(i, n);
        }
        assert(0 <= (i + 1) % n < n) by {
            vstd::arithmetic::div_mod::lemma_mod_bound(i + 1, n);
        }
    }
}

/// Going to a match puts the cursor there and brings its line on the screen, if
/// the screen has room for text.
pub proof fn law_match_visible(e: EditorView, idx: int)
    requires
        e.wf(),
        e.search_ok(),
        e.search_matches.len() > 0,
        e.text_rows() > 0,
        0 <= idx,
    ensures
        ({
            let after = e.jump_to_match(idx);
            &&& after.cursor() == e.search_matches[idx % (e.search_matches.len() as int)]
            &&& after.top <= after.row < after.top + after.text_rows()
        }),
{
}

/// A character is highlighted exactly when it belongs to a match, and in the
/// colour of the current match exactly when it belongs to that one, also where
/// matches overlap.
pub proof fn law_highlight(e: EditorView, p: Pos)
    requires
        e.search_ok(),
    ensures
        0 <= e.search_attr_at(p) <= 2,
        e.search_attr_at(p) > 0 <==> exists|i: int|
            0 <= i < e.search_matches.len() && covers(
                #[trigger] e.search_matches[i],
                e.search_query.len(),
                p,
            ),
        e.search_attr_at(p) == 2 <==> e.search_matches.len() > 0 && covers(
            e.search_matches[e.search_match_idx],
            e.search_query.len(),
            p,
        ),
{
    if e.search_matches.len() > 0 && covers(
        e.search_matches[e.search_match_idx],
        e.search_query.len(),
        p,
    ) {
        assert(exists|i: int|
            0 <= i < e.search_matches.len() && covers(
                #[trigger] e.search_matches[i],
                e.search_query.len(),
                p,
            ));
    }
}

// ── Replacing ────────────────────────────────────────────────────────────

/// Replacing changes neither the number of lines nor a line without a match.
pub proof fn law_replace_keeps_lines(
    lines: Seq<Seq<char>>,
    matches: Seq<Pos>,
    qlen: nat,
    with: Seq<char>,
)
    requires
        forall|i: int| 0 <= i < matches.len() ==> 0 <= (#[trigger] matches[i]).0 < lines.len(),
    ensures
        replaced(lines, matches, qlen, with).len() == lines.len(),
        forall|r: int|
            0 <= r < lines.len() && (forall|i: int|
                0 <= i < matches.len() ==> (#[trigger] matches[i]).0 != r) ==> #[trigger] replaced(
                lines,
                matches,
                qlen,
                with,
            )[r] == lines[r],
    decreases matches.len(),
{
    if matches.len() > 0 {
        let m = matches.last();
        assert(m == matches[matches.len() - 1]);
        let next = if m.1 + qlen <= lines[m.0].len() {
            lines.update(m.0, spliced(lines[m.0], m.1, m.1 + qlen, with))
        } else {
            lines
        };
        assert forall|i: int| 0 <= i < matches.drop_last().len() implies 0 <= (
        #[trigger] matches.drop_last()[i]).0 < next.len() by {
            assert(matches.drop_last()[i] == matches[i]);
        }
        law_replace_keeps_lines(next, matches.drop_last(), qlen, with);
        assert forall|r: int|
            0 <= r < lines.len() && (forall|i: int|
                0 <= i < matches.len() ==> (#[trigger] matches[i]).0
                    != r) implies #[trigger] replaced(lines, matches, qlen, with)[r] == lines[r] by {
            assert(next[r] == lines[r]);
            assert forall|i: int| 0 <= i < matches.drop_last().len() implies (
            #[trigger] matches.drop_last()[i]).0 != r by {
                assert(matches.drop_last()[i] == matches[i]);
            }
        }
    }
}

/// Replacing occurrences of a query by the query itself changes nothing.
proof fn lemma_replace_by_same(lines: Seq<Seq<char>>, matches: Seq<Pos>, query: Seq<char>)
    requires
        forall|i: int|
            0 <= i < matches.len() ==> 0 <= (#[trigger] matches[i]).0 < lines.len() && occurs_at(
                lines[matches[i].0],
                query,
                matches[i].1,
            ),
    ensures
        replaced(lines, matches, query.len(), query) == lines,
    decreases matches.len(),
{
    if matches.len() > 0 {
        let m = matches.last();
        assert(m == matches[matches.len() - 1]);
        let line = lines[m.0];
        assert(spliced(line, m.1, m.1 + query.len(), line.subrange(m.1, m.1 + query.len()))
            =~= line);
        assert(lines.update(m.0, line) =~= lines);
        assert forall|i: int| 0 <= i < matches.drop_last().len() implies 0 <= (
        #[trigger] matches.drop_last()[i]).0 < lines.len() && occurs_at(
            lines[matches.drop_last()[i].0],
            query,
            matches.drop_last()[i].1,
        ) by {
            assert(matches.drop_last()[i] == matches[i]);
        }
        lemma_replace_by_same(lines, matches.drop_last(), query);
    }
}

/// Replacing a query by itself changes nothing in the text.
pub proof fn law_replace_by_same(lines: Seq<Seq<char>>, query: Seq<char>)
    ensures
        replaced(lines, found(lines, query), query.len(), query) == lines,
{
    lemma_matches_in(lines, query, lines.len() as int);
    lemma_replace_by_same(lines, found(lines, query), query);
}

/// A line from a column on, with every occurrence of a query replaced, read
/// from the left.
pub open spec fn substituted(
    line: Seq<char>,
    query: Seq<char>,
    with: Seq<char>,
    from: int,
) -> Seq<char>
    decreases line.len() - from,
{
    if from >= line.len() || query.len() == 0 {
        line.skip(from)
    } else if occurs_at(line, query, from) {
        with + substituted(line, query, with, from + query.len())
    } else {
        seq![line[from]] + substituted(line, query, with, from + 1)
    }
}

/// Whether the occurrences of a query in a line are apart from each other.
pub open spec fn apart(line: Seq<char>, query: Seq<char>) -> bool {
    forall|a: int, b: int|
        a < b && #[trigger] occurs_at(line, query, a) && #[trigger] occurs_at(line, query, b)
            ==> a + query.len() <= b
}

/// Where nothing occurs, substituting copies.
proof fn lemma_substituted_copy(
    line: Seq<char>,
    query: Seq<char>,
    with: Seq<char>,
    from: int,
    to: int,
)
    requires
        query.len() > 0,
        0 <= from <= to <= line.len(),
        forall|i: int| from <= i < to ==> !#[trigger] occurs_at(line, query, i),
    ensures
        substituted(line, query, with, from) == line.subrange(from, to) + substituted(
            line,
            query,
            with,
            to,
        ),
    decreases to - from,
{
    let rest = substituted(line, query, with, to);
    if from == to {
        assert(line.subrange(from, to) + rest =~= rest);
    } else {
        assert(!occurs_at(line, query, from));
        lemma_substituted_copy(line, query, with, from + 1, to);
        assert(seq![line[from]] + (line.subrange(from + 1, to) + rest) =~= line.subrange(from, to)
            + rest);
    }
}

/// The column of the first match from index `k` on that is in a row; the
/// length of the row where there is none.
spec fn edge(matches: Seq<Pos>, k: int, r: int, len: int) -> int
    decreases matches.len() - k,
{
    if k >= matches.len() {
        len
    } else if matches[k].0 == r {
        matches[k].1
    } else {
        edge(matches, k + 1, r, len)
    }
}

/// The edge of a row is no match's column, or that of a match; no match from
/// index `k` on stands before it.
proof fn lemma_edge(lines: Seq<Seq<char>>, query: Seq<char>, k: int, r: int)
    requires
        query.len() > 0,
        0 <= k,
        0 <= r < lines.len(),
    ensures
        ({
            let matches = found(lines, query);
            let b = edge(matches, k, r, lines[r].len() as int);
            &&& 0 <= b <= lines[r].len()
            &&& b == lines[r].len() || (exists|j: int|
                k <= j < matches.len() && #[trigger] matches[j] == (r, b))
            &&& forall|j: int|
                k <= j < matches.len() && (#[trigger] matches[j]).0 == r ==> b <= matches[j].1
        }),
    decreases found(lines, query).len() - k,
{
    let matches = found(lines, query);
    if k < matches.len() {
        lemma_edge(lines, query, k + 1, r);
        lemma_matches_in(lines, query, lines.len() as int);
        if matches[k].0 == r {
            assert forall|j: int| k <= j < matches.len() && (#[trigger] matches[j]).0
                == r implies matches[k].1 <= matches[j].1 by {
                if k < j {
                    law_found_in_order(lines, query, k, j);
                }
            }
            assert(matches[k] == (r, matches[k].1));
        }
    }
}

/// A row of which the matches from index `k` on are replaced.
spec fn half_done(
    lines: Seq<Seq<char>>,
    query: Seq<char>,
    with: Seq<char>,
    k: int,
    r: int,
) -> Seq<char> {
    let b = edge(found(lines, query), k, r, lines[r].len() as int);
    lines[r].take(b) + substituted(lines[r], query, with, b)
}

/// One more match of a row is replaced.
proof fn lemma_replace_step(
    lines: Seq<Seq<char>>,
    query: Seq<char>,
    with: Seq<char>,
    k: int,
)
    requires
        query.len() > 0,
        0 < k <= found(lines, query).len(),
        apart(lines[found(lines, query)[k - 1].0], query),
    ensures
        ({
            let m = found(lines, query)[k - 1];
            let row = half_done(lines, query, with, k, m.0);
            &&& 0 <= m.0 < lines.len()
            &&& m.1 + query.len() <= row.len()
            &&& spliced(row, m.1, m.1 + query.len(), with) == half_done(
                lines,
                query,
                with,
                k - 1,
                m.0,
            )
        }),
{
    let matches = found(lines, query);
    let m = matches[k - 1];
    let (r, c) = m;
    lemma_matches_in(lines, query, lines.len() as int);
    let line = lines[r];
    let q = query.len() as int;
    assert(occurs_at(line, query, c));
    lemma_edge(lines, query, k, r);
    let b = edge(matches, k, r, line.len() as int);
    assert(c + q <= b) by {
        if b < line.len() {
            let j = choose|j: int| k <= j < matches.len() && #[trigger] matches[j] == (r, b);
            law_found_in_order(lines, query, k - 1, j);
            assert(occurs_at(line, query, b));
        }
    }
    assert forall|i: int| c + q <= i < b implies !#[trigger] occurs_at(line, query, i) by {
        if occurs_at(line, query, i) {
            law_found_exactly(lines, query, (r, i));
            let j = choose|j: int| 0 <= j < matches.len() && matches[j] == (r, i);
            if j < k - 1 {
                law_found_in_order(lines, query, j, k - 1);
            }
            assert(j >= k);
        }
    }
    let rest = substituted(line, query, with, b);
    let row = line.take(b) + rest;
    lemma_substituted_copy(line, query, with, c + q, b);
    assert(row.take(c) =~= line.take(c));
    assert(row.skip(c + q) =~= line.subrange(c + q, b) + rest);
    assert(edge(matches, k - 1, r, line.len() as int) == c);
    assert(spliced(row, c, c + q, with) =~= line.take(c) + (with + substituted(
        line,
        query,
        with,
        c + q,
    )));
}

/// Replacing the first `k` matches of a text of which the others are replaced.
proof fn lemma_replace_rest(
    lines: Seq<Seq<char>>,
    query: Seq<char>,
    with: Seq<char>,
    k: int,
    current: Seq<Seq<char>>,
)
    requires
        query.len() > 0,
        0 <= k <= found(lines, query).len(),
        forall|r: int| 0 <= r < lines.len() ==> apart(#[trigger] lines[r], query),
        current.len() == lines.len(),
        forall|r: int|
            0 <= r < lines.len() ==> #[trigger] current[r] == half_done(
                lines,
                query,
                with,
                k,
                r,
            ),
    ensures
        ({
            let done = replaced(current, found(lines, query).take(k), query.len(), with);
            &&& done.len() == lines.len()
            &&& forall|r: int|
                0 <= r < lines.len() ==> #[trigger] done[r] == half_done(
                    lines,
                    query,
                    with,
                    0,
                    r,
                )
        }),
    decreases k,
{
    let matches = found(lines, query);
    if k > 0 {
        let m = matches[k - 1];
        lemma_matches_in(lines, query, lines.len() as int);
        assert(apart(lines[m.0], query));
        lemma_replace_step(lines, query, with, k);
        let next = current.update(
            m.0,
            spliced(current[m.0], m.1, m.1 + query.len(), with),
        );
        assert(matches.take(k).last() == m);
        assert(matches.take(k).drop_last() =~= matches.take(k - 1));
        assert(current[m.0] == half_done(lines, query, with, k, m.0));
        assert forall|r: int| 0 <= r < lines.len() implies #[trigger] next[r] == half_done(
            lines,
            query,
            with,
            k - 1,
            r,
        ) by {
            if r != m.0 {
                assert(next[r] == current[r]);
                assert(edge(matches, k - 1, r, lines[r].len() as int) == edge(
                    matches,
                    k,
                    r,
                    lines[r].len() as int,
                ));
            }
        }
        lemma_replace_rest(lines, query, with, k - 1, next);
    }
}

/// Where the occurrences of a query do not overlap, replacing puts the
/// replacement in the place of each of them and leaves the rest as it is.
pub proof fn law_replace_all_occurrences(
    lines: Seq<Seq<char>>,
    query: Seq<char>,
    with: Seq<char>,
)
    requires
        query.len() > 0,
        forall|r: int| 0 <= r < lines.len() ==> apart(#[trigger] lines[r], query),
    ensures
        replaced(lines, found(lines, query), query.len(), with) == Seq::new(
            lines.len(),
            |r: int| substituted(lines[r], query, with, 0),
        ),
{
    let matches = found(lines, query);
    let k = matches.len() as int;
    let goal = Seq::new(lines.len(), |r: int| substituted(lines[r], query, with, 0));
    assert forall|r: int| 0 <= r < lines.len() implies #[trigger] lines[r] == half_done(
        lines,
        query,
        with,
        k,
        r,
    ) by {
        let line = lines[r];
        assert(edge(matches, k, r, line.len() as int) == line.len());
        assert(line.take(line.len() as int) + line.skip(line.len() as int) =~= line);
    }
    lemma_replace_rest(lines, query, with, k, lines);
    assert(matches.take(k) =~= matches);
    let done = replaced(lines, matches, query.len(), with);
    assert forall|r: int| 0 <= r < lines.len() implies #[trigger] done[r] == goal[r] by {
        let line = lines[r];
        lemma_edge(lines, query, 0, r);
        let b = edge(matches, 0, r, line.len() as int);
        assert forall|i: int| 0 <= i < b implies !#[trigger] occurs_at(line, query, i) by {
            if occurs_at(line, query, i) {
                law_found_exactly(lines, query, (r, i));
                let j = choose|j: int| 0 <= j < matches.len() && matches[j] == (r, i);
                assert(matches[j].0 == r);
            }
        }
        lemma_substituted_copy(line, query, with, 0, b);
        assert(line.subrange(0, b) =~= line.take(b));
    }
    assert(done =~= goal);
}

/// Enter at the end of the replace prompt replaces every occurrence of the
/// query, where they do not overlap.
pub proof fn law_replace_prompt(e: EditorView)
    requires
        e.inv(),
        e.replaces(KeyCode::Enter),
        e.search_query.len() > 0,
        forall|r: int| 0 <= r < e.lines.len() ==> apart(#[trigger] e.lines[r], e.search_query),
    ensures
        e.key(KeyCode::Enter, KeyModifiers::Plain).0.lines == Seq::new(
            e.lines.len(),
            |r: int| substituted(e.lines[r], e.search_query, e.prompt->replace_buf, 0),
        ),
{
    law_replace_all_occurrences(e.lines, e.search_query, e.prompt->replace_buf);
}

} // verus!
