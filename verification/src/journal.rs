//! Persistent iteration records: recency queries, search queries and rendering.

use vstd::prelude::*;

use crate::dag::model::{
    entry_refers, journal_views, DagError, DagErrorView, Db, DbView, JournalEntry, JournalView,
};
use crate::order::{
    key_le, key_views, law_stable_order, lemma_arrangement_onto, order_of, pick, places,
    stable_order, SortKey,
};
use crate::seqs::{lemma_filter_members, lemma_filter_step};
use crate::text::basic::{chars_of, same, texts};
use crate::text::number::{decimal, decimal_text};
use crate::text::shape::{join, joined, words, words_of};

verus! {

/// The JSON array of strings that holds these texts.
pub uninterp spec fn json_array_of(files: Seq<Seq<char>>) -> Seq<char>;

/// The texts of a JSON array of strings, where the text is one.
pub uninterp spec fn json_array_read(text: Seq<char>) -> Option<Seq<Seq<char>>>;

/// `serde_json::to_string` renders a list of strings as a JSON array. What
/// `serde_json::from_str` reads back from it is the list.
#[verifier::external_body]
fn json_of_files(files: &Vec<String>) -> (r: String)
    ensures
        r@ == json_array_of(texts(files@)),
        json_array_read(r@) == Some(texts(files@)),
{
    serde_json::to_string(files).unwrap_or_default()
}

/// `serde_json::from_str` reads a JSON array of strings; any other text is an
/// error.
#[verifier::external_body]
fn files_of_json(text: &str) -> (r: Option<Vec<String>>)
    ensures
        match r {
            Some(v) => json_array_read(text@) == Some(texts(v@)),
            None => json_array_read(text@) is None,
        },
{
    serde_json::from_str(text).ok()
}

/// The column text for the files of an entry: a JSON array.
pub fn files_column(files: &Vec<String>) -> (r: String)
    ensures
        r@ == json_array_of(texts(files@)),
        json_array_read(r@) == Some(texts(files@)),
{
    json_of_files(files)
}

/// The files that a column text holds, where it was read as `parsed`: none
/// where there is no column or it is no array of strings.
pub fn files_or_none(parsed: Option<Vec<String>>) -> (r: Vec<String>)
    ensures
        texts(r@) == match parsed {
            Some(v) => texts(v@),
            None => Seq::empty(),
        },
{
    match parsed {
        Some(v) => v,
        None => {
            let r: Vec<String> = Vec::new();
            assert(texts(r@) =~= Seq::empty());
            r
        },
    }
}

/// The files that a column text holds.
pub fn files_from_column(column: Option<&str>) -> (r: Vec<String>)
    ensures
        texts(r@) == match column {
            None => Seq::empty(),
            Some(t) => match json_array_read(t@) {
                Some(v) => v,
                None => Seq::empty(),
            },
        },
{
    match column {
        None => files_or_none(None),
        Some(t) => files_or_none(files_of_json(t)),
    }
}

/// The words of the text that have more than two characters, as they come.
pub open spec fn long_words(p: Seq<Seq<char>>) -> Seq<Seq<char>>
    decreases p.len(),
{
    if p.len() == 0 {
        Seq::empty()
    } else if p.last().len() > 2 {
        long_words(p.drop_last()).push(p.last())
    } else {
        long_words(p.drop_last())
    }
}

/// At most the first `n` elements.
pub open spec fn first_n<A>(s: Seq<A>, n: int) -> Seq<A> {
    if s.len() <= n {
        s
    } else {
        s.take(n)
    }
}

/// The search query for a free text: its first ten words of more than two
/// characters, with `OR` between them.
pub open spec fn fts_query(text: Seq<char>) -> Seq<char> {
    join(first_n(long_words(words(text)), 10), " OR "@)
}

/// Builds an FTS5 query string from free text.
///
/// Splits on whitespace, filters short words (<= 2 chars), and caps at 10 words.
/// Returns an OR query: "word1 OR word2 OR word3".
pub fn build_fts_query(text: &str) -> (r: String)
    ensures
        r@ == fts_query(text@),
{
    let w = words_of(text);
    let ghost all = words(text@);
    let mut kept: Vec<String> = Vec::new();
    let mut i: usize = 0;
    assert(texts(kept@) =~= first_n(long_words(all.take(0)), 10));
    while i < w.len()
        invariant
            i <= w@.len(),
            all == texts(w@),
            kept@.len() <= 10,
            texts(kept@) == first_n(long_words(all.take(i as int)), 10),
        decreases w@.len() - i,
    {
        assert(all.take(i + 1).drop_last() =~= all.take(i as int));
        assert(all[i as int] == w@[i as int]@);
        let ghost before = long_words(all.take(i as int));
        if chars_of(w[i].as_str()).len() > 2 {
            assert(long_words(all.take(i + 1)) =~= before.push(all[i as int]));
            if kept.len() < 10 {
                let ghost kb = kept@;
                assert(texts(kb).len() == kb.len());
                kept.push(w[i].clone());
                assert(texts(kept@) =~= texts(kb).push(all[i as int]));
                assert(before.len() < 10);
            } else {
                assert(texts(kept@).len() == kept@.len());
                assert(before.push(all[i as int]).take(10) =~= before.take(10));
                assert(before.len() == 10 ==> before.take(10) =~= before);
            }
        }
        i = i + 1;
    }
    assert(all.take(all.len() as int) =~= all);
    joined(&kept, " OR ")
}

/// The list has `x` at one place and `y` at a later one.
pub open spec fn comes_before(p: Seq<Seq<char>>, x: Seq<char>, y: Seq<char>) -> bool {
    exists|a: int, b: int|
        0 <= a < b < p.len() && #[trigger] p[a] == x && #[trigger] p[b] == y
}

/// The words that the journal is searched for are words of the text that have
/// more than two characters, in the order of the text, at most ten, joined by
/// " OR "; and where they are fewer than ten, no such word is left out.
pub proof fn law_search_words(text: Seq<char>) -> (kept: Seq<Seq<char>>)
    ensures
        fts_query(text) == join(kept, " OR "@),
        kept.len() <= 10,
        forall|i: int| 0 <= i < kept.len() ==> (#[trigger] kept[i]).len() > 2,
        forall|i: int| 0 <= i < kept.len() ==> words(text).contains(#[trigger] kept[i]),
        forall|i: int, j: int|
            0 <= i < j < kept.len() ==> comes_before(
                words(text),
                #[trigger] kept[i],
                #[trigger] kept[j],
            ),
        kept.len() < 10 ==> forall|a: int|
            0 <= a < words(text).len() && (#[trigger] words(text)[a]).len() > 2 ==> kept.contains(
                words(text)[a],
            ),
{
    let w = words(text);
    let all = long_words(w);
    let kept = first_n(all, 10);
    assert forall|i: int| 0 <= i < kept.len() implies (#[trigger] kept[i]).len() > 2 && w.contains(
        kept[i],
    ) by {
        let a = lemma_long_from(w, i);
        assert(w[a] == kept[i]);
    }
    assert forall|i: int, j: int| 0 <= i < j < kept.len() implies comes_before(
        w,
        #[trigger] kept[i],
        #[trigger] kept[j],
    ) by {
        let p = lemma_long_order(w, i, j);
        assert(w[p.0] == kept[i] && w[p.1] == kept[j]);
    }
    if kept.len() < 10 {
        assert forall|a: int| 0 <= a < w.len() && (#[trigger] w[a]).len() > 2 implies kept.contains(
            w[a],
        ) by {
            lemma_long_has(w, a);
        }
    }
    kept
}

proof fn lemma_long_from(p: Seq<Seq<char>>, x: int) -> (a: int)
    requires
        0 <= x < long_words(p).len(),
    ensures
        0 <= a < p.len(),
        p[a] == long_words(p)[x],
        p[a].len() > 2,
    decreases p.len(),
{
    let d = p.drop_last();
    if x < long_words(d).len() {
        let a = lemma_long_from(d, x);
        assert(d[a] == p[a]);
        a
    } else {
        p.len() - 1
    }
}

proof fn lemma_long_order(p: Seq<Seq<char>>, x: int, y: int) -> (r: (int, int))
    requires
        0 <= x < y < long_words(p).len(),
    ensures
        0 <= r.0 < r.1 < p.len(),
        p[r.0] == long_words(p)[x],
        p[r.1] == long_words(p)[y],
    decreases p.len(),
{
    let d = p.drop_last();
    if y < long_words(d).len() {
        let r = lemma_long_order(d, x, y);
        assert(d[r.0] == p[r.0] && d[r.1] == p[r.1]);
        r
    } else {
        let a = lemma_long_from(d, x);
        assert(d[a] == p[a]);
        (a, p.len() - 1)
    }
}

proof fn lemma_long_has(p: Seq<Seq<char>>, a: int)
    requires
        0 <= a < p.len(),
        p[a].len() > 2,
    ensures
        long_words(p).contains(p[a]),
    decreases p.len(),
{
    let d = p.drop_last();
    let r = long_words(p);
    if a < d.len() {
        lemma_long_has(d, a);
        assert(d[a] == p[a]);
        let k = choose|k: int| 0 <= k < long_words(d).len() && long_words(d)[k] == p[a];
        assert(r[k] == p[a]);
    } else {
        assert(r[long_words(d).len() as int] == p[a]);
    }
}

/// The query with which the journal is searched for a task; none where the
/// task has no word long enough.
pub fn search_query(task_title: &str, task_description: &str) -> (r: Option<String>)
    ensures
        ({
            let q = fts_query(task_title@ + " "@ + task_description@);
            match r {
                Some(t) => t@ == q && q.len() > 0,
                None => q.len() == 0,
            }
        }),
{
    let mut text = task_title.to_owned();
    text.append(" ");
    text.append(task_description);
    let q = build_fts_query(text.as_str());
    if q.as_str().is_empty() {
        None
    } else {
        Some(q)
    }
}

/// The entries of a run.
pub open spec fn of_run(run_id: Seq<char>) -> spec_fn(JournalView) -> bool {
    |e: JournalView| e.run_id == run_id
}

/// The keys that put later iterations first.
pub open spec fn latest_keys(s: Seq<JournalView>) -> Seq<(int, Seq<char>)> {
    s.map_values(|e: JournalView| (-(e.iteration as int), Seq::<char>::empty()))
}

/// The entries of a run with the latest iterations, at most `limit`, oldest
/// first.
pub open spec fn recent(journal: Seq<JournalView>, run_id: Seq<char>, limit: u32) -> Seq<
    JournalView,
> {
    let s = journal.filter(of_run(run_id));
    first_n(pick(s, stable_order(latest_keys(s))), limit as int).reverse()
}

/// The recent entries are entries of the run, no more than asked for, in the
/// order of their iterations; and no entry of the run that is left out has a
/// later iteration than one of them.
pub proof fn law_recent_entries(journal: Seq<JournalView>, run_id: Seq<char>, limit: u32)
    ensures
        ({
            let r = recent(journal, run_id, limit);
            let s = journal.filter(of_run(run_id));
            &&& r.len() == if s.len() <= limit {
                s.len() as int
            } else {
                limit as int
            }
            &&& forall|i: int|
                0 <= i < r.len() ==> journal.contains(#[trigger] r[i]) && r[i].run_id == run_id
            &&& forall|i: int, j: int|
                0 <= i < j < r.len() ==> (#[trigger] r[i]).iteration <= (#[trigger] r[j]).iteration
            &&& forall|e: JournalView, i: int|
                0 <= i < r.len() && journal.contains(e) && e.run_id == run_id && !r.contains(e)
                    ==> (#[trigger] e.iteration) <= (#[trigger] r[i]).iteration
        }),
{
    let s = journal.filter(of_run(run_id));
    let keys = latest_keys(s);
    let o = stable_order(keys);
    law_stable_order(keys);
    let all = pick(s, o);
    let r = recent(journal, run_id, limit);
    assert forall|i: int, j: int| 0 <= i <= j < all.len() implies (#[trigger] all[i]).iteration
        >= (#[trigger] all[j]).iteration by {
        assert(0 <= o[i] < keys.len() && 0 <= o[j] < keys.len());
        if i < j {
            assert(key_le(keys[o[i]], keys[o[j]]));
        }
    }
    assert forall|i: int| 0 <= i < r.len() implies journal.contains(#[trigger] r[i])
        && r[i].run_id == run_id by {
        let k = o[r.len() - 1 - i];
        assert(r[i] == s[k]);
        assert(s.contains(s[k]));
        lemma_filter_members(journal, of_run(run_id), s[k]);
    }
    assert forall|e: JournalView, i: int|
        0 <= i < r.len() && journal.contains(e) && e.run_id == run_id && !r.contains(
            e,
        ) implies (#[trigger] e.iteration) <= (#[trigger] r[i]).iteration by {
        lemma_filter_members(journal, of_run(run_id), e);
        let k = choose|k: int| 0 <= k < s.len() && s[k] == e;
        lemma_arrangement_onto(o, keys.len() as int);
        assert(o.contains(k));
        let x = choose|x: int| 0 <= x < o.len() && o[x] == k;
        assert(all[x] == e);
        if x < r.len() {
            assert(r[r.len() - 1 - x] == e);
        }
        assert(r[i] == all[r.len() - 1 - i]);
    }
}

/// The database with one journal entry more, under the next id.
pub open spec fn with_entry(db: DbView, e: JournalView) -> DbView {
    let id = (db.last_entry + 1) as i64;
    DbView { journal: db.journal.push(JournalView { id, ..e }), last_entry: id, ..db }
}

/// A new journal entry keeps the database in order, and has an id above all that
/// were given before.
pub proof fn law_entry_id_is_new(db: DbView, e: JournalView)
    requires
        db.wf(),
        db.last_entry < i64::MAX,
        entry_refers(e, db.tasks, db.features),
    ensures
        with_entry(db, e).wf(),
        with_entry(db, e).last_entry > db.last_entry,
        with_entry(db, e).journal.last().id == with_entry(db, e).last_entry,
        forall|k: int|
            0 <= k < db.journal.len() ==> (#[trigger] db.journal[k]).id < with_entry(
                db,
                e,
            ).journal.last().id,
{
    let b = with_entry(db, e);
    assert forall|k: int| 0 <= k < b.journal.len() implies entry_refers(
        #[trigger] b.journal[k],
        b.tasks,
        b.features,
    ) && 0 < b.journal[k].id <= b.last_entry by {
        if k < db.journal.len() {
            assert(entry_refers(db.journal[k], db.tasks, db.features));
        }
    }
    assert forall|k: int, l: int| 0 <= k < l < b.journal.len() implies (
    #[trigger] b.journal[k]).id < (#[trigger] b.journal[l]).id by {
        assert(db.journal[k].id <= db.last_entry);
        if l < db.journal.len() {
            assert(db.journal[k].id < db.journal[l].id);
        }
    }
}

/// The character budget of the rendered journal: 3000 tokens of 4 characters.
pub const JOURNAL_BUDGET_CHARS: usize = 12000;

/// An entry as markdown.
pub open spec fn entry_text(e: JournalView) -> Seq<char> {
    "### Iteration "@ + decimal(e.iteration as nat) + " ["@ + e.outcome + "]\n- **Task**: "@
        + or_text(e.task_id, "none"@) + "\n- **Model**: "@ + or_text(e.model, "unknown"@)
        + "\n- **Duration**: "@ + e.duration_secs + "s | **Cost**: $"@ + e.cost_usd
        + "\n- **Files**: "@ + (if e.files_modified.len() == 0 {
        "none"@
    } else {
        join(e.files_modified, ", "@)
    }) + "\n- **Notes**: "@ + or_text(e.notes, "No notes recorded"@) + "\n"@
}

/// The text, or another where there is none.
pub open spec fn or_text(o: Option<Seq<char>>, other: Seq<char>) -> Seq<char> {
    match o {
        Some(t) => t,
        None => other,
    }
}

/// How many of the entries fit into the budget, one after the other, up to the
/// first that does not.
pub open spec fn fitting(entries: Seq<JournalView>, budget: int) -> nat
    decreases entries.len(),
{
    if entries.len() == 0 || entry_text(entries[0]).len() > budget {
        0
    } else {
        1 + fitting(entries.drop_first(), budget - entry_text(entries[0]).len())
    }
}

/// The entries as markdown, each with an empty line behind it.
pub open spec fn entries_text(entries: Seq<JournalView>) -> Seq<char>
    decreases entries.len(),
{
    if entries.len() == 0 {
        Seq::empty()
    } else {
        entries_text(entries.drop_last()) + entry_text(entries.last()) + "\n"@
    }
}

/// The journal as the system prompt shows it.
pub open spec fn journal_text(entries: Seq<JournalView>) -> Seq<char> {
    if entries.len() == 0 {
        Seq::empty()
    } else {
        "## Run Journal\n\n"@ + entries_text(
            entries.take(fitting(entries, JOURNAL_BUDGET_CHARS as int) as int),
        )
    }
}

proof fn lemma_fitting(entries: Seq<JournalView>, budget: int)
    ensures
        fitting(entries, budget) <= entries.len(),
    decreases entries.len(),
{
    if entries.len() > 0 && entry_text(entries[0]).len() <= budget {
        lemma_fitting(entries.drop_first(), budget - entry_text(entries[0]).len());
    }
}

/// The characters of the rendered entries, without the empty lines.
pub open spec fn total_chars(entries: Seq<JournalView>) -> nat
    decreases entries.len(),
{
    if entries.len() == 0 {
        0
    } else {
        entry_text(entries[0]).len() + total_chars(entries.drop_first())
    }
}

/// What is shown of the journal stays within its budget.
pub proof fn law_journal_within_budget(entries: Seq<JournalView>, budget: int)
    requires
        0 <= budget,
    ensures
        fitting(entries, budget) <= entries.len(),
        total_chars(entries.take(fitting(entries, budget) as int)) <= budget,
        fitting(entries, budget) < entries.len() ==> total_chars(
            entries.take(fitting(entries, budget) as int + 1),
        ) > budget,
    decreases entries.len(),
{
    lemma_fitting(entries, budget);
    let n = fitting(entries, budget) as int;
    if entries.len() == 0 {
        assert(entries.take(0) =~= entries);
    } else if entry_text(entries[0]).len() > budget {
        assert(entries.take(0) =~= Seq::empty());
        let one = entries.take(1);
        assert(one.drop_first() =~= Seq::empty());
        assert(total_chars(one.drop_first()) == 0);
        assert(one[0] == entries[0]);
    } else {
        let rest = entries.drop_first();
        law_journal_within_budget(rest, budget - entry_text(entries[0]).len());
        assert(entries.take(n).drop_first() =~= rest.take(n - 1));
        assert(entries.take(n)[0] == entries[0]);
        if n < entries.len() {
            assert(entries.take(n + 1).drop_first() =~= rest.take(n));
            assert(entries.take(n + 1)[0] == entries[0]);
        }
    }
}

/// What is shown of the journal are the first entries, whole and in their order,
/// as many as together stay within 12000 characters: with the next one they
/// would not. Without entries nothing is shown.
pub proof fn law_journal_shown(entries: Seq<JournalView>) -> (n: int)
    requires
        entries.len() > 0,
    ensures
        0 <= n <= entries.len(),
        journal_text(entries) == "## Run Journal\n\n"@ + entries_text(entries.take(n)),
        total_chars(entries.take(n)) <= 12000,
        n < entries.len() ==> total_chars(entries.take(n + 1)) > 12000,
        journal_text(Seq::empty()).len() == 0,
{
    law_journal_within_budget(entries, 12000);
    fitting(entries, 12000) as int
}

/// The entries are shown one after the other, each with an empty line behind it.
pub proof fn law_entries_text(entries: Seq<JournalView>, e: JournalView)
    ensures
        entries_text(entries.push(e)) == entries_text(entries) + entry_text(e) + "\n"@,
        entries_text(Seq::<JournalView>::empty()).len() == 0,
        total_chars(entries.push(e)) == total_chars(entries) + entry_text(e).len(),
    decreases entries.len(),
{
    assert(entries.push(e).drop_last() =~= entries);
    if entries.len() == 0 {
        assert(entries.push(e).drop_first() =~= entries);
    } else {
        law_entries_text(entries.drop_first(), e);
        assert(entries.push(e).drop_first() =~= entries.drop_first().push(e));
        assert(entries.push(e)[0] == entries[0]);
    }
}

/// An entry tells its iteration and outcome, its task and model, its duration and
/// cost, its files and its notes, each by a word of its own where it is missing.
pub proof fn law_entry_tells(e: JournalView)
    ensures
        ({
            let task = if e.task_id is Some {
                e.task_id->0
            } else {
                "none"@
            };
            let model = if e.model is Some {
                e.model->0
            } else {
                "unknown"@
            };
            let files = if e.files_modified.len() > 0 {
                join(e.files_modified, ", "@)
            } else {
                "none"@
            };
            let notes = if e.notes is Some {
                e.notes->0
            } else {
                "No notes recorded"@
            };
            let head = "### Iteration "@ + decimal(e.iteration as nat) + " ["@ + e.outcome + "]\n"@;
            let work = "- **Task**: "@ + task + "\n- **Model**: "@ + model + "\n"@;
            let cost = "- **Duration**: "@ + e.duration_secs + "s | **Cost**: $"@ + e.cost_usd
                + "\n"@;
            let rest = "- **Files**: "@ + files + "\n- **Notes**: "@ + notes + "\n"@;
            entry_text(e) == head + work + cost + rest
        }),
{
    reveal_strlit("]\n");
    reveal_strlit("- **Task**: ");
    reveal_strlit("]\n- **Task**: ");
    reveal_strlit("\n");
    reveal_strlit("- **Duration**: ");
    reveal_strlit("\n- **Duration**: ");
    reveal_strlit("- **Files**: ");
    reveal_strlit("\n- **Files**: ");
    assert("]\n- **Task**: "@ =~= "]\n"@ + "- **Task**: "@);
    assert("\n- **Duration**: "@ =~= "\n"@ + "- **Duration**: "@);
    assert("\n- **Files**: "@ =~= "\n"@ + "- **Files**: "@);
    let task = or_text(e.task_id, "none"@);
    let model = or_text(e.model, "unknown"@);
    let files = if e.files_modified.len() > 0 {
        join(e.files_modified, ", "@)
    } else {
        "none"@
    };
    let notes = or_text(e.notes, "No notes recorded"@);
    let head = "### Iteration "@ + decimal(e.iteration as nat) + " ["@ + e.outcome + "]\n"@;
    let work = "- **Task**: "@ + task + "\n- **Model**: "@ + model + "\n"@;
    let cost = "- **Duration**: "@ + e.duration_secs + "s | **Cost**: $"@ + e.cost_usd + "\n"@;
    let rest = "- **Files**: "@ + files + "\n- **Notes**: "@ + notes + "\n"@;
    assert(entry_text(e) =~= head + work + cost + rest);
}

/// The text, or another where there is none.
fn text_or(o: &Option<String>, other: &str) -> (r: String)
    ensures
        r@ == or_text(crate::text::basic::opt_text(*o), other@),
{
    match o {
        Some(s) => s.clone(),
        None => other.to_owned(),
    }
}

/// Renders a single journal entry as markdown.
pub fn render_single_entry(entry: &JournalEntry) -> (r: String)
    ensures
        r@ == entry_text(entry@),
{
    let files = if entry.files_modified.len() == 0 {
        "none".to_owned()
    } else {
        joined(&entry.files_modified, ", ")
    };
    assert(texts(entry.files_modified@).len() == entry.files_modified@.len());
    let mut r = "### Iteration ".to_owned();
    r.append(decimal_text(entry.iteration as u64).as_str());
    r.append(" [");
    r.append(entry.outcome.as_str());
    r.append("]\n- **Task**: ");
    r.append(text_or(&entry.task_id, "none").as_str());
    r.append("\n- **Model**: ");
    r.append(text_or(&entry.model, "unknown").as_str());
    r.append("\n- **Duration**: ");
    r.append(entry.duration_secs.as_str());
    r.append("s | **Cost**: $");
    r.append(entry.cost_usd.as_str());
    r.append("\n- **Files**: ");
    r.append(files.as_str());
    r.append("\n- **Notes**: ");
    r.append(text_or(&entry.notes, "No notes recorded").as_str());
    r.append("\n");
    r
}

/// Renders journal entries as markdown for the system prompt.
///
/// Enforces a token budget: stops adding entries once the budget (estimated at
/// 4 chars/token) would be exceeded.
pub fn render_journal_context(entries: &Vec<JournalEntry>) -> (r: String)
    ensures
        r@ == journal_text(journal_views(entries@)),
{
    let ghost all = journal_views(entries@);
    if entries.len() == 0 {
        let r = String::new();
        assert(all.len() == 0);
        return r;
    }
    let mut output = "## Run Journal\n\n".to_owned();
    let mut remaining: usize = JOURNAL_BUDGET_CHARS;
    let mut i: usize = 0;
    let ghost head = "## Run Journal\n\n"@;
    let ghost n = fitting(all, JOURNAL_BUDGET_CHARS as int) as int;
    assert(all.skip(0) =~= all);
    assert(head + entries_text(all.take(0)) =~= head);
    while i < entries.len()
        invariant_except_break
            n == i + fitting(all.skip(i as int), remaining as int),
        invariant
            i <= entries@.len(),
            all == journal_views(entries@),
            output@ == head + entries_text(all.take(i as int)),
        ensures
            i == n,
        decreases entries@.len() - i,
    {
        let rendered = render_single_entry(&entries[i]);
        let len: usize = chars_of(rendered.as_str()).len();
        assert(all[i as int] == entries@[i as int]@);
        assert(all.skip(i as int)[0] == all[i as int]);
        assert(all.skip(i as int).drop_first() =~= all.skip(i + 1));
        if len > remaining {
            break;
        }
        output.append(rendered.as_str());
        output.append("\n");
        remaining = remaining - len;
        assert(all.take(i + 1).drop_last() =~= all.take(i as int));
        assert(output@ =~= head + entries_text(all.take(i + 1)));
        i = i + 1;
    }
    assert(all.len() == entries@.len());
    output
}

impl Db {
    /// Whether the task and the feature that an entry names exist.
    pub fn refers(&self, entry: &JournalEntry) -> (r: bool)
        ensures
            r == entry_refers(entry@, self@.tasks, self@.features),
    {
        let task = match &entry.task_id {
            Some(id) => self.find_task(id.as_str()).is_some(),
            None => true,
        };
        let feature = match &entry.feature_id {
            Some(id) => self.find_feature(id.as_str()).is_some(),
            None => true,
        };
        task && feature
    }

    /// Inserts a journal entry under the next id, which it gives back. An id
    /// that was given before is not given again, though its entry is gone.
    pub fn insert_journal_entry(&mut self, entry: &JournalEntry) -> (r: Result<i64, DagError>)
        requires
            old(self)@.wf(),
        ensures
            final(self)@.wf(),
            ({
                let db = old(self)@;
                if db.last_entry == i64::MAX {
                    r is Err && r->Err_0@ == DagErrorView::Full && final(self)@ == db
                } else if !entry_refers(entry@, db.tasks, db.features) {
                    r is Err && r->Err_0@ == DagErrorView::Constraint && final(self)@ == db
                } else {
                    r == Ok::<i64, DagError>((db.last_entry + 1) as i64) && final(self)@
                        == with_entry(db, entry@)
                }
            }),
    {
        let ghost db = self@;
        if self.last_entry == i64::MAX {
            return Err(DagError::Full);
        }
        if !self.refers(entry) {
            return Err(DagError::Constraint);
        }
        let id: i64 = self.last_entry + 1;
        let mut e = entry.clone();
        e.id = id;
        let ghost ev = e@;
        let ghost before = self.journal@;
        self.journal.push(e);
        self.last_entry = id;
        assert(journal_views(self.journal@) =~= journal_views(before).push(ev));
        proof {
            law_entry_id_is_new(db, entry@);
            assert(self@.journal =~= with_entry(db, entry@).journal);
        }
        Ok(id)
    }

    /// The last `limit` journal entries for a run, in chronological order.
    pub fn query_journal_recent(&self, run_id: &str, limit: u32) -> (r: Vec<JournalEntry>)
        ensures
            journal_views(r@) == recent(self@.journal, run_id@, limit),
    {
        let ghost all = self@.journal;
        let ghost p = of_run(run_id@);
        let mut found: Vec<JournalEntry> = Vec::new();
        let mut keys: Vec<SortKey> = Vec::new();
        let mut i: usize = 0;
        assert(journal_views(found@) =~= all.take(0).filter(p)) by {
            reveal(Seq::filter);
        }
        assert(key_views(keys@) =~= latest_keys(journal_views(found@)));
        while i < self.journal.len()
            invariant
                i <= self.journal@.len(),
                all == self@.journal,
                p == of_run(run_id@),
                journal_views(found@) == all.take(i as int).filter(p),
                key_views(keys@) == latest_keys(journal_views(found@)),
            decreases self.journal@.len() - i,
        {
            proof {
                lemma_filter_step(all, p, i as int);
            }
            assert(all[i as int] == self.journal@[i as int]@);
            if same(self.journal[i].run_id.as_str(), run_id) {
                let ghost before = found@;
                let ghost kb = keys@;
                let e = self.journal[i].clone();
                let k = SortKey { rank: -(self.journal[i].iteration as i64), text: String::new() };
                found.push(e);
                keys.push(k);
                assert(journal_views(found@) =~= journal_views(before).push(all[i as int]));
                assert(key_views(keys@) =~= key_views(kb).push(k@));
                assert(latest_keys(journal_views(found@)) =~= latest_keys(
                    journal_views(before),
                ).push(k@));
            }
            i = i + 1;
        }
        assert(all.take(all.len() as int) =~= all);
        assert(key_views(keys@).len() == keys@.len());
        assert(journal_views(found@).len() == found@.len());
        let o = order_of(&keys);
        let ghost sorted = pick(journal_views(found@), places(o@));
        let ghost goal = recent(self@.journal, run_id@, limit);
        let count: usize = if o.len() <= limit as usize {
            o.len()
        } else {
            limit as usize
        };
        let mut r: Vec<JournalEntry> = Vec::new();
        let mut n: usize = count;
        assert(sorted.len() == o@.len());
        assert(goal =~= Seq::new(count as nat, |x: int| sorted[count - 1 - x]));
        while n > 0
            invariant
                n <= count <= o@.len(),
                forall|i: int| 0 <= i < o@.len() ==> (#[trigger] o@[i]) < found@.len(),
                sorted == pick(journal_views(found@), places(o@)),
                goal == Seq::new(count as nat, |x: int| sorted[count - 1 - x]),
                journal_views(r@) == goal.take(count - n),
            decreases n,
        {
            let ghost before = r@;
            let e = found[o[n - 1]].clone();
            r.push(e);
            assert(places(o@)[n - 1] == o@[n - 1] as int);
            assert(journal_views(r@) =~= journal_views(before).push(e@));
            assert(goal.take(count - n + 1) =~= goal.take(count - n).push(goal[count - n]));
            n = n - 1;
        }
        assert(goal.take(count as int) =~= goal);
        r
    }

    /// Selects journal entries for the system prompt: the latest of the run,
    /// oldest first, then what a search found in other runs.
    pub fn select_journal_entries(
        &self,
        run_id: &str,
        recent_limit: u32,
        found: &Vec<JournalEntry>,
    ) -> (r: Vec<JournalEntry>)
        ensures
            journal_views(r@) == recent(self@.journal, run_id@, recent_limit) + journal_views(
                found@,
            ),
    {
        let mut r = self.query_journal_recent(run_id, recent_limit);
        let ghost head = journal_views(r@);
        let ghost tail = journal_views(found@);
        let mut i: usize = 0;
        assert(journal_views(r@) =~= head + tail.take(0));
        while i < found.len()
            invariant
                i <= found@.len(),
                tail == journal_views(found@),
                journal_views(r@) == head + tail.take(i as int),
            decreases found@.len() - i,
        {
            let ghost before = r@;
            let e = found[i].clone();
            r.push(e);
            assert(journal_views(r@) =~= journal_views(before).push(tail[i as int]));
            assert(tail.take(i + 1) =~= tail.take(i as int).push(tail[i as int]));
            i = i + 1;
        }
        assert(tail.take(tail.len() as int) =~= tail);
        r
    }
}

} // verus!
