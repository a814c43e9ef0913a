//! What the search and replace prompts find.

use vstd::prelude::*;
use crate::action::ActionView;
use crate::field::field_edit;
use crate::key::{KeyCode, KeyModifiers};
use crate::laws_search::{law_found_exactly, law_found_in_order, law_nearest, lemma_nearest};
use crate::message::decimal;
use crate::search::{covers, found, nearest, replaced};
use crate::state::{EditorView, Pos, PromptView, ReplaceStep};

verus! {

// ── Occurrences ──────────────────────────────────────────────────────────

/// Whether a query stands at a position of the text.
pub open spec fn stands_at(lines: Seq<Seq<char>>, query: Seq<char>, p: Pos) -> bool {
    &&& 0 <= p.0 < lines.len()
    &&& 0 <= p.1 <= lines[p.0].len() - query.len()
    &&& lines[p.0].subrange(p.1, p.1 + query.len()) == query
}

/// Whether a position comes before another.
pub open spec fn before(p: Pos, q: Pos) -> bool {
    p.0 < q.0 || (p.0 == q.0 && p.1 < q.1)
}

/// Whether these are all occurrences of a query in a text, each of them once
/// and in the order of the text; an empty query has none.
pub open spec fn all_occurrences(
    matches: Seq<Pos>,
    lines: Seq<Seq<char>>,
    query: Seq<char>,
) -> bool {
    &&& query.len() == 0 ==> matches.len() == 0
    &&& query.len() > 0 ==> forall|p: Pos| #[trigger]
        matches.contains(p) <==> stands_at(lines, query, p)
    &&& forall|i: int, j: int|
        0 <= i < j < matches.len() ==> before(#[trigger] matches[i], #[trigger] matches[j])
}

/// Whether a match is the first at or behind a position, or the first of all
/// where there is none.
pub open spec fn first_from(matches: Seq<Pos>, k: int, p: Pos) -> bool {
    &&& 0 <= k < matches.len()
    &&& before(matches[k], p) ==> k == 0 && forall|i: int|
        0 <= i < matches.len() ==> before(#[trigger] matches[i], p)
    &&& !before(matches[k], p) ==> forall|i: int| 0 <= i < k ==> before(#[trigger] matches[i], p)
}

/// The matches of a query are its occurrences.
pub proof fn law_matches(lines: Seq<Seq<char>>, query: Seq<char>)
    ensures
        all_occurrences(found(lines, query), lines, query),
{
    let matches = found(lines, query);
    if query.len() > 0 {
        assert forall|p: Pos| #[trigger] matches.contains(p) <==> stands_at(lines, query, p) by {
            law_found_exactly(lines, query, p);
        }
    }
    assert forall|i: int, j: int| 0 <= i < j < matches.len() implies before(
        #[trigger] matches[i],
        #[trigger] matches[j],
    ) by {
        law_found_in_order(lines, query, i, j);
    }
}

/// Of matches, the first at or behind a position is found, or the first of all.
pub proof fn law_nearest_found(matches: Seq<Pos>, p: Pos)
    requires
        matches.len() > 0,
    ensures
        first_from(matches, nearest(matches, p, 0), p),
{
    lemma_nearest(matches, p, 0);
}

/// The matches are brought up to date with the query, and the current one kept
/// as far as there are enough; nothing else changes.
pub proof fn law_search_updated(e: EditorView)
    requires
        0 <= e.search_match_idx,
    ensures
        ({
            let after = e.update_search();
            let n = after.search_matches.len();
            &&& all_occurrences(after.search_matches, e.lines, e.search_query)
            &&& e.search_query.len() > 0 && e.search_match_idx < n ==> after.search_match_idx
                == e.search_match_idx
            &&& e.search_query.len() > 0 && e.search_match_idx >= n > 0 ==> after.search_match_idx
                == n - 1
            &&& e.search_query.len() > 0 && n == 0 ==> after.search_match_idx == 0
            &&& e.search_query.len() == 0 ==> after.search_match_idx == e.search_match_idx
            &&& after == (EditorView {
                search_matches: after.search_matches,
                search_match_idx: after.search_match_idx,
                ..e
            })
        }),
{
    law_matches(e.lines, e.search_query);
}

/// Going to a match makes it the current one and puts the cursor there; counting
/// goes on from the first behind the last. Without a match nothing happens.
pub proof fn law_jump(e: EditorView, idx: int)
    requires
        0 <= idx,
    ensures
        ({
            let after = e.jump_to_match(idx);
            let n = e.search_matches.len() as int;
            if n == 0 {
                after == e
            } else {
                &&& 0 <= after.search_match_idx < n
                &&& idx < n ==> after.search_match_idx == idx
                &&& after.search_match_idx == e.jump_to_match(idx + n).search_match_idx
                &&& (after.row, after.col) == e.search_matches[after.search_match_idx]
                &&& screen_follows(after, e)
                &&& after == (EditorView {
                    search_match_idx: after.search_match_idx,
                    row: after.row,
                    col: after.col,
                    top: after.top,
                    ..e
                })
            }
        }),
{
    let n = e.search_matches.len() as int;
    if n > 0 {
        assert(0 <= idx % n < n && (idx < n ==> idx % n == idx) && (idx + n) % n == idx % n)
            by (nonlinear_arith)
            requires
                0 <= idx,
                0 < n,
        ;
    }
}

/// A character of the text belongs to a match if one begins at most the length
/// of the query before it, in its line.
pub open spec fn within_match(m: Pos, query: Seq<char>, p: Pos) -> bool {
    m.0 == p.0 && m.1 <= p.1 && p.1 < m.1 + query.len()
}

/// A character is highlighted as the current match if it belongs to it, else as
/// a match if it belongs to one, else not at all.
pub proof fn law_highlighted(e: EditorView, p: Pos)
    ensures
        ({
            let in_current = 0 <= e.search_match_idx < e.search_matches.len() && within_match(
                e.search_matches[e.search_match_idx],
                e.search_query,
                p,
            );
            let in_any = exists|i: int|
                0 <= i < e.search_matches.len() && within_match(
                    #[trigger] e.search_matches[i],
                    e.search_query,
                    p,
                );
            e.search_attr_at(p) == (if in_current {
                2int
            } else if in_any {
                1int
            } else {
                0int
            })
        }),
{
    let n = e.search_query.len();
    assert forall|i: int| 0 <= i < e.search_matches.len() implies within_match(
        #[trigger] e.search_matches[i],
        e.search_query,
        p,
    ) == covers(e.search_matches[i], n, p) by {}
    if exists|i: int|
        0 <= i < e.search_matches.len() && covers(#[trigger] e.search_matches[i], n, p) {
        let i = choose|i: int|
            0 <= i < e.search_matches.len() && covers(#[trigger] e.search_matches[i], n, p);
        assert(within_match(e.search_matches[i], e.search_query, p));
    }
}

// ── Searching ────────────────────────────────────────────────────────────

/// Whether only what belongs to a search differs: its prompt, its matches, the
/// cursor, the screen and the message.
pub open spec fn searched_only(after: EditorView, e: EditorView) -> bool {
    after == (EditorView {
        prompt: after.prompt,
        search_query: after.search_query,
        search_matches: after.search_matches,
        search_match_idx: after.search_match_idx,
        row: after.row,
        col: after.col,
        top: after.top,
        status: after.status,
        ..e
    })
}

/// Whether the screen follows the cursor to a match: it stays if the cursor is
/// on it, shows the line at the top if it stood above, and in the middle if it
/// stood below.
pub open spec fn screen_follows(after: EditorView, e: EditorView) -> bool {
    if e.top <= after.row && after.row < e.top + e.text_rows() {
        after.top == e.top
    } else if after.row < e.top && e.text_rows() > 0 {
        after.top == after.row
    } else {
        after.top == after.row - e.text_rows() / 2
    }
}

/// Ctrl+F opens an empty search.
pub proof fn law_search_opens(e: EditorView)
    requires
        e.inv(),
        e.prompt is Closed,
    ensures
        e.key(KeyCode::Char('f'), KeyModifiers::Control) == (
            EditorView {
                prompt: PromptView::Search { buf: Seq::empty(), cur: 0 },
                status: "Search: "@,
                ..e
            },
            ActionView::Continue,
        ),
{
    assert(e.search_query =~= Seq::<char>::empty());
    assert(e.start_search() =~= (EditorView {
        prompt: PromptView::Search { buf: Seq::empty(), cur: 0 },
        status: "Search: "@,
        ..e
    }));
}

/// A key in the search prompt that changes the query leads to the first
/// occurrence of the new query at or behind the cursor, or to the first of all
/// where there is none; that occurrence becomes the current match. Where the
/// query does not occur, or did not change, the cursor stays.
pub proof fn law_search_typing(e: EditorView, code: KeyCode, modifiers: KeyModifiers)
    requires
        e.inv(),
        e.prompt is Search,
        !e.pending_quit,
        code != KeyCode::Enter,
        code != KeyCode::Esc,
    ensures
        ({
            let (after, action) = e.key(code, modifiers);
            let edit = field_edit(e.prompt->Search_buf, e.prompt->Search_cur, code, modifiers);
            &&& action is Continue
            &&& searched_only(after, e)
            &&& after.prompt == (PromptView::Search { buf: edit.buf, cur: edit.cur })
            &&& after.search_query == edit.buf
            &&& all_occurrences(after.search_matches, e.lines, edit.buf)
            &&& if edit.changed && after.search_matches.len() > 0 {
                &&& first_from(after.search_matches, after.search_match_idx, (e.row, e.col))
                &&& (after.row, after.col) == after.search_matches[after.search_match_idx]
                &&& screen_follows(after, e)
            } else {
                after.row == e.row && after.col == e.col && after.top == e.top
            }
            &&& !edit.changed ==> after.search_match_idx == e.search_match_idx
        }),
{
    let edit = field_edit(e.prompt->Search_buf, e.prompt->Search_cur, code, modifiers);
    law_matches(e.lines, edit.buf);
    law_matches(e.lines, e.search_query);
    if edit.changed {
        let edited = EditorView {
            prompt: PromptView::Search { buf: edit.buf, cur: edit.cur },
            ..e
        };
        let searched = edited.with_query(edit.buf);
        if searched.search_matches.len() > 0 {
            law_nearest(searched);
            let k = searched.nearest_match();
            assert(k % (searched.search_matches.len() as int) == k) by (nonlinear_arith)
                requires
                    0 <= k < searched.search_matches.len(),
            ;
        }
    }
}

/// Enter in the search prompt leads to the next match, and from the last to the
/// first; without a match it does nothing.
pub proof fn law_search_enter(e: EditorView, modifiers: KeyModifiers)
    requires
        e.inv(),
        e.prompt is Search,
        !e.pending_quit,
    ensures
        ({
            let (after, action) = e.key(KeyCode::Enter, modifiers);
            let n = e.search_matches.len();
            &&& action is Continue
            &&& searched_only(after, e)
            &&& after.prompt == e.prompt
            &&& after.search_query == e.search_query
            &&& after.search_matches == e.search_matches
            &&& if n > 0 {
                &&& after.search_match_idx == (if e.search_match_idx + 1 < n {
                    e.search_match_idx + 1
                } else {
                    0
                })
                &&& (after.row, after.col) == e.search_matches[after.search_match_idx]
                &&& screen_follows(after, e)
            } else {
                after == (EditorView { status: after.status, ..e })
            }
        }),
{
    let n = e.search_matches.len() as int;
    let k = e.search_match_idx + 1;
    if n > 0 {
        if k < n {
            assert(k % n == k) by (nonlinear_arith)
                requires
                    0 <= k < n,
            ;
        } else {
            assert(n % n == 0) by (nonlinear_arith)
                requires
                    n > 0,
            ;
        }
    }
}

/// While the search prompt is open the message shows the query, which match is
/// the current one, and how many there are.
pub proof fn law_search_message(e: EditorView, code: KeyCode, modifiers: KeyModifiers)
    requires
        e.inv(),
        e.prompt is Search,
        code != KeyCode::Esc,
    ensures
        ({
            let after = e.key(code, modifiers).0;
            after.status == (if after.search_query.len() == 0 {
                "Search: "@
            } else if after.search_matches.len() == 0 {
                "Search: "@ + after.search_query + "  (not found)"@
            } else {
                "Search: "@ + after.search_query + "  ["@ + decimal(
                    (after.search_match_idx + 1) as nat,
                ) + "/"@ + decimal(after.search_matches.len())
                    + "]  Enter=next  Esc=close"@
            })
        }),
{
}

/// Escape leaves the search or the replacement: query and matches go, the
/// cursor stays.
pub proof fn law_search_left(e: EditorView, modifiers: KeyModifiers)
    requires
        e.prompt is Search || e.prompt is Replace,
        !e.pending_quit,
    ensures
        e.key(KeyCode::Esc, modifiers) == (
            EditorView {
                prompt: PromptView::Closed,
                search_query: Seq::empty(),
                search_matches: Seq::empty(),
                status: "Ctrl+S: Save / Ctrl+Q: Quit / Ctrl+H: Help"@,
                ..e
            },
            ActionView::Continue,
        ),
{
}

/// The keys of the search prompt do the same where it is not open, but that
/// there is no query to edit.
pub proof fn law_search_key_elsewhere(e: EditorView, code: KeyCode, modifiers: KeyModifiers)
    requires
        !(e.prompt is Search),
    ensures
        ({
            let after = e.search_prompt_key(code, modifiers);
            let n = e.search_matches.len();
            if code == KeyCode::Esc {
                after == (EditorView {
                    prompt: PromptView::Closed,
                    search_query: Seq::empty(),
                    search_matches: Seq::empty(),
                    status: "Ctrl+S: Save / Ctrl+Q: Quit / Ctrl+H: Help"@,
                    ..e
                })
            } else if code == KeyCode::Enter && n > 0 {
                &&& after.search_match_idx == (e.search_match_idx + 1) % (n as int)
                &&& (after.row, after.col) == e.search_matches[after.search_match_idx]
                &&& screen_follows(after, e)
                &&& after == (EditorView {
                    search_match_idx: after.search_match_idx,
                    row: after.row,
                    col: after.col,
                    top: after.top,
                    status: after.status,
                    ..e
                })
            } else {
                after == (EditorView { status: after.status, ..e })
            }
        }),
{
}

// ── Replacing ────────────────────────────────────────────────────────────

/// Ctrl+R asks for what is to be replaced.
pub proof fn law_replace_opens(e: EditorView)
    requires
        e.inv(),
        e.prompt is Closed,
    ensures
        e.key(KeyCode::Char('r'), KeyModifiers::Control) == (
            EditorView {
                prompt: PromptView::Replace {
                    search_buf: Seq::empty(),
                    replace_buf: Seq::empty(),
                    search_cur: 0,
                    replace_cur: 0,
                    step: ReplaceStep::SearchInput,
                },
                status: "Replace — Search: "@,
                ..e
            },
            ActionView::Continue,
        ),
{
    assert(e.search_query =~= Seq::<char>::empty());
    assert(e.start_replace() =~= (EditorView {
        prompt: PromptView::Replace {
            search_buf: Seq::empty(),
            replace_buf: Seq::empty(),
            search_cur: 0,
            replace_cur: 0,
            step: ReplaceStep::SearchInput,
        },
        status: "Replace — Search: "@,
        ..e
    }));
}

/// While the query of a replacement is edited the matches follow it, and the
/// current one is the first at or behind the cursor; the cursor stays.
pub proof fn law_replace_query(e: EditorView, code: KeyCode, modifiers: KeyModifiers)
    requires
        e.inv(),
        e.prompt is Replace,
        e.prompt->step == ReplaceStep::SearchInput,
        !e.pending_quit,
        code != KeyCode::Enter,
        code != KeyCode::Esc,
    ensures
        ({
            let (after, action) = e.key(code, modifiers);
            let edit = field_edit(e.prompt->search_buf, e.prompt->search_cur, code, modifiers);
            &&& action is Continue
            &&& searched_only(after, e)
            &&& after.row == e.row && after.col == e.col && after.top == e.top
            &&& after.prompt == (PromptView::Replace {
                search_buf: edit.buf,
                replace_buf: e.prompt->replace_buf,
                search_cur: edit.cur,
                replace_cur: e.prompt->replace_cur,
                step: ReplaceStep::SearchInput,
            })
            &&& after.search_query == edit.buf
            &&& all_occurrences(after.search_matches, e.lines, edit.buf)
            &&& edit.changed && after.search_matches.len() > 0 ==> first_from(
                after.search_matches,
                after.search_match_idx,
                (e.row, e.col),
            )
            &&& !edit.changed ==> after.search_match_idx == e.search_match_idx
        }),
{
    let edit = field_edit(e.prompt->search_buf, e.prompt->search_cur, code, modifiers);
    law_matches(e.lines, edit.buf);
    law_matches(e.lines, e.search_query);
    if edit.changed {
        let edited = EditorView {
            prompt: PromptView::Replace {
                search_buf: edit.buf,
                replace_buf: e.prompt->replace_buf,
                search_cur: edit.cur,
                replace_cur: e.prompt->replace_cur,
                step: ReplaceStep::SearchInput,
            },
            ..e
        };
        let searched = edited.with_query(edit.buf);
        if searched.search_matches.len() > 0 {
            law_nearest(searched);
        }
    }
}

/// Enter leads on from the query of a replacement to what replaces it.
pub proof fn law_replace_query_entered(e: EditorView, modifiers: KeyModifiers)
    requires
        e.prompt is Replace,
        e.prompt->step == ReplaceStep::SearchInput,
        !e.pending_quit,
    ensures
        e.key(KeyCode::Enter, modifiers) == (
            EditorView {
                prompt: PromptView::Replace {
                    search_buf: e.prompt->search_buf,
                    replace_buf: e.prompt->replace_buf,
                    search_cur: e.prompt->search_cur,
                    replace_cur: 0,
                    step: ReplaceStep::ReplaceInput,
                },
                status: "Replace \""@ + e.prompt->search_buf + "\" with: "@
                    + e.prompt->replace_buf,
                ..e
            },
            ActionView::Continue,
        ),
{
}

/// While the replacement is edited, nothing but it and the message changes.
pub proof fn law_replacement_typing(e: EditorView, code: KeyCode, modifiers: KeyModifiers)
    requires
        e.prompt is Replace,
        e.prompt->step == ReplaceStep::ReplaceInput,
        !e.pending_quit,
        code != KeyCode::Enter,
        code != KeyCode::Esc,
    ensures
        ({
            let edit = field_edit(e.prompt->replace_buf, e.prompt->replace_cur, code, modifiers);
            e.key(code, modifiers) == (
                EditorView {
                    prompt: PromptView::Replace {
                        search_buf: e.prompt->search_buf,
                        replace_buf: edit.buf,
                        search_cur: e.prompt->search_cur,
                        replace_cur: edit.cur,
                        step: ReplaceStep::ReplaceInput,
                    },
                    status: "Replace \""@ + e.prompt->search_buf + "\" with: "@ + edit.buf,
                    ..e
                },
                ActionView::Continue,
            )
        }),
{
}

/// While the query of a replacement is edited the message shows it and how
/// often it was found.
pub proof fn law_replace_message(e: EditorView, code: KeyCode, modifiers: KeyModifiers)
    requires
        e.prompt is Replace,
        e.prompt->step == ReplaceStep::SearchInput,
        code != KeyCode::Enter,
        code != KeyCode::Esc,
    ensures
        ({
            let after = e.key(code, modifiers).0;
            let query = after.prompt->search_buf;
            after.status == (if query.len() == 0 {
                "Replace — Search: "@
            } else if after.search_matches.len() == 0 {
                "Replace — Search: "@ + query + "  (not found)  Enter=next  Esc=cancel"@
            } else {
                "Replace — Search: "@ + query + "  ["@ + decimal(after.search_matches.len())
                    + " found]  Enter=next  Esc=cancel"@
            })
        }),
{
}

/// Enter carries the replacement out and closes the prompt. Without a match the
/// text stays; with matches it is marked as changed, and the message counts
/// them. The cursor keeps its place.
pub proof fn law_replace_carried_out(e: EditorView, modifiers: KeyModifiers)
    requires
        e.inv(),
        e.prompt is Replace,
        e.prompt->step == ReplaceStep::ReplaceInput,
        !e.pending_quit,
    ensures
        ({
            let (after, action) = e.key(KeyCode::Enter, modifiers);
            let n = e.search_matches.len();
            &&& action is Continue
            &&& after == (EditorView {
                lines: after.lines,
                prompt: PromptView::Closed,
                search_query: Seq::empty(),
                search_matches: Seq::empty(),
                modified: e.modified || n > 0,
                undo_stack: after.undo_stack,
                undo_total_mem: after.undo_total_mem,
                status: if n == 0 {
                    "No matches to replace."@
                } else {
                    "Replaced "@ + decimal(n) + " occurrence(s)."@
                },
                ..e
            })
            &&& n == 0 ==> after.lines == e.lines && after.undo_stack == e.undo_stack
            &&& after.lines == replaced(
                e.lines,
                e.search_matches,
                e.prompt->search_buf.len(),
                e.prompt->replace_buf,
            )
        }),
{
}

/// Replacing changes the text, marks it as changed and counts the matches in the
/// message; without a match only the message changes.
pub proof fn law_replace_all(e: EditorView, with: Seq<char>)
    ensures
        ({
            let after = e.replace_all(with);
            let n = e.search_matches.len();
            if n == 0 {
                after == (EditorView { status: "No matches to replace."@, ..e })
            } else {
                after == (EditorView {
                    lines: replaced(e.lines, e.search_matches, e.search_query.len(), with),
                    modified: true,
                    undo_stack: e.push_undo().undo_stack,
                    undo_total_mem: e.push_undo().undo_total_mem,
                    status: "Replaced "@ + decimal(n) + " occurrence(s)."@,
                    ..e
                })
            }
        }),
{
}

/// Matches are replaced from the last to the first, also where they overlap: at
/// each of them, as many characters as the query has give way to the
/// replacement, if the line is still long enough.
pub proof fn law_replaced_from_the_end(
    lines: Seq<Seq<char>>,
    matches: Seq<Pos>,
    m: Pos,
    qlen: nat,
    with: Seq<char>,
)
    requires
        0 <= m.0 < lines.len(),
        0 <= m.1 <= lines[m.0].len(),
    ensures
        replaced(lines, Seq::empty(), qlen, with) == lines,
        ({
            let line = lines[m.0];
            let end = line.len() as int;
            replaced(lines, matches.push(m), qlen, with) == (if m.1 + qlen <= end {
                replaced(
                    lines.update(
                        m.0,
                        line.subrange(0, m.1) + with + line.subrange(m.1 + qlen, end),
                    ),
                    matches,
                    qlen,
                    with,
                )
            } else {
                replaced(lines, matches, qlen, with)
            })
        }),
{
    assert(matches.push(m).drop_last() =~= matches);
    assert(matches.push(m).last() == m);
}

} // verus!
