//! Lexical search over the skills.
//!
//! This is the fallback for a ranked index: a scan that knows no relevance. A skill is found when
//! every word of the query occurs in its name, description or body, capital and small letters
//! counting the same, and skills come in the order in which the database gives them, the best
//! first.

use crate::error::MsError;
use crate::storage::record::{SearchRow, SkillSearchCandidate};
use crate::storage::row;
use crate::storage::row::{read_rows, select_records, Columns, FromRow, Row};
use crate::storage::sqlite::Database;
use crate::storage::statement;
use crate::storage::statement::{Statement, StatementView, ValueView};
use crate::text;
use crate::text::{contains_text, in_small_letters, split_words};
use vstd::prelude::*;
use vstd::string::*;

verus! {

/// The words of a query, in small letters.
pub open spec fn tokens_of(query: Seq<char>) -> Seq<Seq<char>> {
    Seq::new(text::words(query).len(), |i: int| text::small_letters(text::words(query)[i]))
}

/// The three texts of a skill that are searched, as one.
pub open spec fn searched_text(name: Seq<char>, description: Seq<char>, body: Seq<char>) -> Seq<
    char,
> {
    name + "\n"@ + description + "\n"@ + body
}

/// Every token occurs in a text.
pub open spec fn has_all(haystack: Seq<char>, tokens: Seq<Seq<char>>) -> bool {
    forall|i: int| 0 <= i < tokens.len() ==> text::occurs_in(haystack, #[trigger] tokens[i])
}

/// Which of the first `n` texts have every token, in order.
pub open spec fn hits(haystacks: Seq<Seq<char>>, tokens: Seq<Seq<char>>, n: nat) -> Seq<int>
    decreases n,
{
    if n == 0 {
        Seq::empty()
    } else {
        let before = hits(haystacks, tokens, (n - 1) as nat);
        if has_all(haystacks[n - 1], tokens) {
            before.push(n - 1)
        } else {
            before
        }
    }
}

/// The first `limit` of the texts that have every token.
pub open spec fn chosen(haystacks: Seq<Seq<char>>, tokens: Seq<Seq<char>>, limit: nat) -> Seq<int> {
    let all = hits(haystacks, tokens, haystacks.len());
    if all.len() <= limit {
        all
    } else {
        all.take(limit as int)
    }
}

/// A candidate is the one that a row describes.
pub open spec fn is_candidate_of(candidate: SkillSearchCandidate, found: SearchRow) -> bool {
    &&& candidate.id@ == found.id@
    &&& candidate.source_layer@ == found.source_layer@
    &&& candidate.metadata_json@ == found.metadata_json@
    &&& candidate.quality_score == found.quality_score
    &&& candidate.is_deprecated == found.is_deprecated
}

/// The texts of rows that are searched, in small letters.
pub open spec fn haystacks_of(rows: Seq<Seq<ValueView>>) -> Seq<Seq<char>> {
    Seq::new(
        rows.len(),
        |i: int|
            text::small_letters(
                searched_text(
                    row::text_in(rows[i][5]),
                    row::text_in(rows[i][6]),
                    row::text_in(rows[i][7]),
                ),
            ),
    )
}

/// The candidates are those of the chosen rows.
pub open spec fn are_chosen(
    candidates: Seq<SkillSearchCandidate>,
    found: Seq<SearchRow>,
    haystacks: Seq<Seq<char>>,
    tokens: Seq<Seq<char>>,
    limit: nat,
) -> bool {
    let picked = chosen(haystacks, tokens, limit);
    &&& candidates.len() == picked.len()
    &&& forall|k: int|
        0 <= k < picked.len() ==> is_candidate_of(#[trigger] candidates[k], found[picked[k]])
}

impl Database {
    /// The words of a query, in small letters.
    pub fn search_tokens(query: &str) -> (r: Vec<String>)
        ensures
            text::texts(r@) == tokens_of(query@),
            text::all_ascii(query@) ==> text::texts(r@) == Seq::new(
                text::words(query@).len(),
                |i: int| text::ascii_lowercase(text::words(query@)[i]),
            ),
    {
        let words = split_words(query);
        let mut out: Vec<String> = Vec::new();
        for i in 0..words.len()
            invariant
                text::texts(words@) == text::words(query@),
                out@.len() == i,
                forall|k: int|
                    0 <= k < i ==> (#[trigger] out@[k])@ == text::small_letters(words@[k]@),
        {
            out.push(in_small_letters(words[i].as_str()));
        }
        proof {
            assert forall|k: int| 0 <= k < words@.len() implies words@[k]@ == text::words(
                query@,
            )[k] by {
                assert(text::texts(words@)[k] == words@[k]@);
            }
            if text::all_ascii(query@) {
                text::words_are_ascii(query@);
            }
        }
        out
    }

    /// The rows that a search for words goes through, the best first. There is nothing to go
    /// through where the query has no word or nothing is wanted. Each row is a [`SearchRow`]; see
    /// [`search_results`].
    pub fn search_fts(query: &str, limit: usize) -> (r: Option<Statement>)
        ensures
            r is None <==> tokens_of(query@).len() == 0 || limit == 0,
            r matches Some(s) ==> s@ == (StatementView {
                sql: statement::select_sql(
                    SearchRow::names(),
                    "skills ORDER BY quality_score DESC, id ASC"@,
                ),
                params: seq![],
            }),
    {
        let tokens = Database::search_tokens(query);
        if tokens.len() == 0 || limit == 0 {
            return None;
        }
        Some(select_records::<SearchRow>("skills ORDER BY quality_score DESC, id ASC"))
    }
}

/// Whether every token occurs in a text.
fn contains_all(haystack: &str, tokens: &Vec<String>) -> (r: bool)
    ensures
        r == has_all(haystack@, text::texts(tokens@)),
{
    for i in 0..tokens.len()
        invariant
            forall|k: int| 0 <= k < i ==> text::occurs_in(haystack@, #[trigger] tokens@[k]@),
    {
        if !contains_text(haystack, tokens[i].as_str()) {
            assert(!text::occurs_in(haystack@, text::texts(tokens@)[i as int]));
            return false;
        }
    }
    assert forall|k: int| 0 <= k < tokens@.len() implies text::occurs_in(
        haystack@,
        #[trigger] text::texts(tokens@)[k],
    ) by {
        assert(text::occurs_in(haystack@, tokens@[k]@));
    }
    true
}

/// The candidate that a row describes.
fn candidate_of(found: &SearchRow) -> (r: SkillSearchCandidate)
    ensures
        is_candidate_of(r, *found),
{
    SkillSearchCandidate {
        id: found.id.as_str().to_owned(),
        source_layer: found.source_layer.as_str().to_owned(),
        metadata_json: found.metadata_json.as_str().to_owned(),
        quality_score: found.quality_score,
        is_deprecated: found.is_deprecated,
    }
}

/// The hits among more texts start with the hits among fewer.
proof fn hits_grow(haystacks: Seq<Seq<char>>, tokens: Seq<Seq<char>>, n: nat, m: nat)
    requires
        n <= m,
    ensures
        hits(haystacks, tokens, n).len() <= hits(haystacks, tokens, m).len(),
        hits(haystacks, tokens, n) == hits(haystacks, tokens, m).take(
            hits(haystacks, tokens, n).len() as int,
        ),
    decreases m,
{
    let some = hits(haystacks, tokens, n);
    if n < m {
        hits_grow(haystacks, tokens, n, (m - 1) as nat);
        let most = hits(haystacks, tokens, (m - 1) as nat);
        let all = hits(haystacks, tokens, m);
        assert(all.take(some.len() as int) == most.take(some.len() as int));
    } else {
        assert(some.take(some.len() as int) == some);
    }
}

/// The candidates of the first `limit` rows whose text has every token. `haystacks` are the texts
/// of the rows, in small letters.
pub fn select_matches(
    found: &Vec<SearchRow>,
    haystacks: &Vec<String>,
    tokens: &Vec<String>,
    limit: usize,
) -> (r: Vec<SkillSearchCandidate>)
    requires
        found@.len() == haystacks@.len(),
    ensures
        are_chosen(
            r@,
            found@,
            text::texts(haystacks@),
            text::texts(tokens@),
            limit as nat,
        ),
{
    let ghost hay = text::texts(haystacks@);
    let ghost words = text::texts(tokens@);
    let mut out: Vec<SkillSearchCandidate> = Vec::new();
    if limit == 0 {
        proof {
            assert(chosen(hay, words, 0).len() == 0);
        }
        return out;
    }
    for i in 0..found.len()
        invariant
            hay == text::texts(haystacks@),
            words == text::texts(tokens@),
            found@.len() == haystacks@.len(),
            out@.len() == hits(hay, words, i as nat).len(),
            out@.len() < limit,
            forall|k: int|
                0 <= k < out@.len() ==> is_candidate_of(
                    #[trigger] out@[k],
                    found@[hits(hay, words, i as nat)[k]],
                ),
    {
        assert(hay[i as int] == haystacks@[i as int]@);
        if contains_all(haystacks[i].as_str(), tokens) {
            let ghost before = hits(hay, words, i as nat);
            out.push(candidate_of(&found[i]));
            assert(hits(hay, words, (i + 1) as nat) == before.push(i as int));
            if out.len() >= limit {
                proof {
                    hits_grow(hay, words, (i + 1) as nat, hay.len());
                    let some = hits(hay, words, (i + 1) as nat);
                    assert(chosen(hay, words, limit as nat) == some);
                }
                return out;
            }
        }
    }
    assert(hits(hay, words, hay.len()).len() <= limit);
    out
}

/// What a search for words finds in the rows that it goes through, at most `limit` skills. A row
/// that cannot be read fails the search.
pub fn search_results(rows: &Vec<Row>, query: &str, limit: usize) -> (r: Result<
    Vec<SkillSearchCandidate>,
    MsError,
>)
    ensures
        if row::all_fit(row::row_values(rows@), SearchRow::columns()) {
            let held = row::row_values(rows@);
            let picked = chosen(haystacks_of(held), tokens_of(query@), limit as nat);
            &&& r is Ok
            &&& r->Ok_0@.len() == picked.len()
            &&& forall|k: int|
                0 <= k < picked.len() ==> (#[trigger] r->Ok_0@[k]).holds(held[picked[k]])
        } else {
            r matches Err(error) && error@ == row::row_error(
                row::rows_problem(row::row_values(rows@), SearchRow::columns(), rows@.len()),
            )
        },
{
    let found = match read_rows::<SearchRow>(rows) {
        Ok(found) => found,
        Err(error) => return Err(error),
    };
    let tokens = Database::search_tokens(query);
    let mut haystacks: Vec<String> = Vec::new();
    for i in 0..found.len()
        invariant
            haystacks@.len() == i,
            forall|k: int|
                0 <= k < i ==> (#[trigger] haystacks@[k])@ == text::small_letters(
                    searched_text(found@[k].name@, found@[k].description@, found@[k].body@),
                ),
    {
        let mut all = found[i].name.as_str().to_owned();
        all.append("\n");
        all.append(found[i].description.as_str());
        all.append("\n");
        all.append(found[i].body.as_str());
        haystacks.push(in_small_letters(all.as_str()));
    }
    let ghost held = row::row_values(rows@);
    proof {
        assert forall|i: int| 0 <= i < held.len() implies text::texts(haystacks@)[i]
            == haystacks_of(held)[i] by {
            assert(found@[i].holds(held[i]));
        }
        assert(text::texts(haystacks@) == haystacks_of(held));
    }
    let out = select_matches(&found, &haystacks, &tokens, limit);
    proof {
        let picked = chosen(haystacks_of(held), tokens_of(query@), limit as nat);
        hits_are_matches(haystacks_of(held), tokens_of(query@), held.len());
        assert forall|k: int| 0 <= k < picked.len() implies (#[trigger] out@[k]).holds(
            held[picked[k]],
        ) by {
            assert(is_candidate_of(out@[k], found@[picked[k]]));
            assert(found@[picked[k]].holds(held[picked[k]]));
        }
    }
    Ok(out)
}

// ---------------------------------------------------------------------------------------------
// What holds of every search
// ---------------------------------------------------------------------------------------------

/// Hits come in the order of the texts, and are just those texts that have every token.
proof fn hits_are_matches(haystacks: Seq<Seq<char>>, tokens: Seq<Seq<char>>, n: nat)
    ensures
        forall|k: int|
            0 <= k < hits(haystacks, tokens, n).len() ==> {
                &&& 0 <= #[trigger] hits(haystacks, tokens, n)[k] < n
                &&& has_all(haystacks[hits(haystacks, tokens, n)[k]], tokens)
            },
        forall|j: int, k: int|
            0 <= j < k < hits(haystacks, tokens, n).len() ==> #[trigger] hits(
                haystacks,
                tokens,
                n,
            )[j] < #[trigger] hits(haystacks, tokens, n)[k],
        forall|i: int|
            0 <= i < n && has_all(#[trigger] haystacks[i], tokens) ==> hits(
                haystacks,
                tokens,
                n,
            ).contains(i),
    decreases n,
{
    if n > 0 {
        let last = (n - 1) as nat;
        hits_are_matches(haystacks, tokens, last);
        let before = hits(haystacks, tokens, last);
        let all = hits(haystacks, tokens, n);
        assert forall|i: int|
            0 <= i < n && has_all(#[trigger] haystacks[i], tokens) implies all.contains(i) by {
            if i < last {
                assert(before.contains(i));
                let k = choose|k: int| 0 <= k < before.len() && before[k] == i;
                assert(all[k] == i);
            } else {
                assert(all[all.len() - 1] == i);
            }
        }
    }
}

/// A search finds no more than was wanted, and each skill that it finds has every word of the
/// query.
pub proof fn found_skills_match(
    haystacks: Seq<Seq<char>>,
    tokens: Seq<Seq<char>>,
    limit: nat,
    k: int,
)
    requires
        0 <= k < chosen(haystacks, tokens, limit).len(),
    ensures
        chosen(haystacks, tokens, limit).len() <= limit,
        0 <= chosen(haystacks, tokens, limit)[k] < haystacks.len(),
        has_all(haystacks[chosen(haystacks, tokens, limit)[k]], tokens),
{
    hits_are_matches(haystacks, tokens, haystacks.len());
}

/// A search keeps the order of the skills, so that the best come first.
pub proof fn found_skills_keep_their_order(
    haystacks: Seq<Seq<char>>,
    tokens: Seq<Seq<char>>,
    limit: nat,
    j: int,
    k: int,
)
    requires
        0 <= j < k < chosen(haystacks, tokens, limit).len(),
    ensures
        chosen(haystacks, tokens, limit)[j] < chosen(haystacks, tokens, limit)[k],
{
    hits_are_matches(haystacks, tokens, haystacks.len());
}

/// A search leaves a matching skill out only where it has found as many as were wanted, all of
/// them before that skill.
pub proof fn no_match_is_passed_over(
    haystacks: Seq<Seq<char>>,
    tokens: Seq<Seq<char>>,
    limit: nat,
    i: int,
)
    requires
        0 <= i < haystacks.len(),
        has_all(haystacks[i], tokens),
        !chosen(haystacks, tokens, limit).contains(i),
    ensures
        chosen(haystacks, tokens, limit).len() == limit,
        forall|k: int| 0 <= k < limit ==> #[trigger] chosen(haystacks, tokens, limit)[k] < i,
{
    hits_are_matches(haystacks, tokens, haystacks.len());
    let all = hits(haystacks, tokens, haystacks.len());
    let some = chosen(haystacks, tokens, limit);
    assert(all.contains(i));
    let at = choose|at: int| 0 <= at < all.len() && all[at] == i;
    if at < some.len() {
        assert(some[at] == i);
    }
    assert forall|k: int| 0 <= k < limit implies #[trigger] some[k] < i by {
        assert(some[k] == all[k]);
    }
}

/// A search for fewer skills finds the first of those that a search for more finds.
pub proof fn smaller_search_is_a_prefix(
    haystacks: Seq<Seq<char>>,
    tokens: Seq<Seq<char>>,
    fewer: nat,
    more: nat,
)
    requires
        fewer <= more,
    ensures
        ({
            let some = chosen(haystacks, tokens, fewer);
            let all = chosen(haystacks, tokens, more);
            &&& some.len() == (if fewer <= all.len() {
                fewer
            } else {
                all.len()
            })
            &&& some == all.take(some.len() as int)
        }),
{
    let some = chosen(haystacks, tokens, fewer);
    let all = chosen(haystacks, tokens, more);
    assert(some == all.take(some.len() as int));
}

/// The words of two queries with a space between them find just what both queries find.
pub proof fn joined_queries_find_what_both_find(
    haystacks: Seq<Seq<char>>,
    first: Seq<char>,
    second: Seq<char>,
    limit: nat,
    i: int,
)
    requires
        haystacks.len() <= limit,
    ensures
        chosen(haystacks, tokens_of(first + " "@ + second), limit).contains(i) <==> chosen(
            haystacks,
            tokens_of(first),
            limit,
        ).contains(i) && chosen(haystacks, tokens_of(second), limit).contains(i),
{
    let a = tokens_of(first);
    let b = tokens_of(second);
    let both = tokens_of(first + " "@ + second);
    text::words_of_both(first, second);
    assert(both == a + b);
    found_without_limit(haystacks, a, limit, i);
    found_without_limit(haystacks, b, limit, i);
    found_without_limit(haystacks, both, limit, i);
    if 0 <= i < haystacks.len() {
        let h = haystacks[i];
        if has_all(h, both) {
            assert forall|k: int| 0 <= k < a.len() implies text::occurs_in(h, #[trigger] a[k]) by {
                assert(both[k] == a[k]);
            }
            assert forall|k: int| 0 <= k < b.len() implies text::occurs_in(h, #[trigger] b[k]) by {
                assert(both[a.len() + k] == b[k]);
            }
        }
        if has_all(h, a) && has_all(h, b) {
            assert forall|k: int| 0 <= k < both.len() implies text::occurs_in(
                h,
                #[trigger] both[k],
            ) by {
                if k < a.len() {
                    assert(both[k] == a[k]);
                } else {
                    assert(both[k] == b[k - a.len()]);
                }
            }
        }
    }
}

/// A search that wants as many as there are finds all that have every token.
proof fn found_without_limit(
    haystacks: Seq<Seq<char>>,
    tokens: Seq<Seq<char>>,
    limit: nat,
    i: int,
)
    requires
        haystacks.len() <= limit,
    ensures
        chosen(haystacks, tokens, limit).contains(i) <==> 0 <= i < haystacks.len() && has_all(
            haystacks[i],
            tokens,
        ),
{
    hits_are_matches(haystacks, tokens, haystacks.len());
    hits_are_few(haystacks, tokens, haystacks.len());
    let all = hits(haystacks, tokens, haystacks.len());
    if all.contains(i) {
        let k = choose|k: int| 0 <= k < all.len() && all[k] == i;
        assert(all[k] == i);
    }
}

proof fn hits_are_few(haystacks: Seq<Seq<char>>, tokens: Seq<Seq<char>>, n: nat)
    ensures
        hits(haystacks, tokens, n).len() <= n,
    decreases n,
{
    if n > 0 {
        hits_are_few(haystacks, tokens, (n - 1) as nat);
    }
}

/// A search finds a skill just where each word of the query, in small letters, occurs in the small
/// letters of the whole of its name, its description and its body, a line break between them. A word
/// is a stretch without white space, as long as it can be.
pub proof fn skill_is_found_by_all_its_text(
    rows: Seq<Seq<ValueView>>,
    query: Seq<char>,
    limit: nat,
    i: int,
    name: Seq<char>,
    description: Seq<char>,
    body: Seq<char>,
)
    requires
        rows.len() <= limit,
        0 <= i < rows.len(),
        rows[i][5] == ValueView::Text(name),
        rows[i][6] == ValueView::Text(description),
        rows[i][7] == ValueView::Text(body),
    ensures
        chosen(haystacks_of(rows), tokens_of(query), limit).contains(i) <==> forall|
            word: Seq<char>,
            at: int,
        | #[trigger]
            text::is_word_at(query, word, at) ==> text::occurs_in(
                text::small_letters(name + "\n"@ + description + "\n"@ + body),
                text::small_letters(word),
            ),
{
    let haystacks = haystacks_of(rows);
    let tokens = tokens_of(query);
    let words = text::words(query);
    let whole = text::small_letters(name + "\n"@ + description + "\n"@ + body);
    found_without_limit(haystacks, tokens, limit, i);
    assert(haystacks[i] == whole);
    if has_all(whole, tokens) {
        assert forall|word: Seq<char>, at: int| #[trigger]
            text::is_word_at(query, word, at) implies text::occurs_in(
            whole,
            text::small_letters(word),
        ) by {
            text::words_are_the_longest_stretches(query, word);
            let k = choose|k: int| 0 <= k < words.len() && words[k] == word;
            assert(tokens[k] == text::small_letters(word));
        }
    }
    if forall|word: Seq<char>, at: int| #[trigger]
        text::is_word_at(query, word, at) ==> text::occurs_in(whole, text::small_letters(word)) {
        assert forall|k: int| 0 <= k < tokens.len() implies text::occurs_in(
            whole,
            #[trigger] tokens[k],
        ) by {
            let word = words[k];
            assert(words.contains(word));
            text::words_are_the_longest_stretches(query, word);
            let at = choose|at: int| text::is_word_at(query, word, at);
            assert(text::is_word_at(query, word, at));
        }
    }
}

/// A word that stands anywhere in the name, the description or the body of a skill finds it, line
/// breaks or not, and whether letters are capital or small. Here all is ASCII, in which small letters
/// are known one by one.
pub proof fn word_is_found_anywhere(
    rows: Seq<Seq<ValueView>>,
    word: Seq<char>,
    limit: nat,
    i: int,
    name: Seq<char>,
    description: Seq<char>,
    body: Seq<char>,
)
    requires
        rows.len() <= limit,
        0 <= i < rows.len(),
        rows[i][5] == ValueView::Text(name),
        rows[i][6] == ValueView::Text(description),
        rows[i][7] == ValueView::Text(body),
        text::all_ascii(name),
        text::all_ascii(description),
        text::all_ascii(body),
        text::all_ascii(word),
        forall|k: int| 0 <= k < word.len() ==> !text::is_white_space(#[trigger] word[k]),
        (text::occurs_in(text::ascii_lowercase(name), text::ascii_lowercase(word))
            || text::occurs_in(text::ascii_lowercase(description), text::ascii_lowercase(word))
            || text::occurs_in(text::ascii_lowercase(body), text::ascii_lowercase(word))),
    ensures
        chosen(haystacks_of(rows), tokens_of(word), limit).contains(i),
{
    reveal_strlit("\n");
    skill_is_found_by_all_its_text(rows, word, limit, i, name, description, body);
    let whole = name + "\n"@ + description + "\n"@ + body;
    assert(text::all_ascii(whole)) by {
        let a = name.len() as int;
        let b = a + 1 + description.len();
        assert forall|k: int| 0 <= k < whole.len() implies (#[trigger] whole[k] as u32) < 128 by {
            if k < a {
                assert(whole[k] == name[k]);
            } else if k == a || k == b {
                assert(whole[k] == '\n');
            } else if k < b {
                assert(whole[k] == description[k - a - 1]);
            } else {
                assert(whole[k] == body[k - b - 1]);
            }
        }
    }
    let hay = text::ascii_lowercase(whole);
    let needle = text::ascii_lowercase(word);
    let first = text::ascii_lowercase(name);
    let second = text::ascii_lowercase(description);
    let third = text::ascii_lowercase(body);
    assert(text::occurs_in(hay, needle)) by {
        if text::occurs_in(first, needle) {
            part_is_in_the_whole(hay, first, 0, needle);
        } else if text::occurs_in(second, needle) {
            part_is_in_the_whole(hay, second, name.len() as int + 1, needle);
        } else {
            let from = name.len() as int + 1 + description.len() + 1;
            part_is_in_the_whole(hay, third, from, needle);
        }
    }
    assert forall|w: Seq<char>, at: int| #[trigger]
        text::is_word_at(word, w, at) implies text::occurs_in(
        text::small_letters(whole),
        text::small_letters(w),
    ) by {
        if at > 0 {
            assert(!text::is_white_space(word[at - 1]));
        }
        if at + w.len() < word.len() {
            assert(!text::is_white_space(word[(at + w.len()) as int]));
        }
        assert(w =~= word);
    }
}

/// What occurs in a part of a text occurs in the text.
proof fn part_is_in_the_whole(whole: Seq<char>, part: Seq<char>, from: int, needle: Seq<char>)
    requires
        0 <= from,
        from + part.len() <= whole.len(),
        forall|k: int| 0 <= k < part.len() ==> whole[from + k] == #[trigger] part[k],
        text::occurs_in(part, needle),
    ensures
        text::occurs_in(whole, needle),
{
    let i = choose|i: int| text::occurs_at(part, needle, i);
    assert(whole.subrange(from + i, from + i + needle.len()) =~= part.subrange(
        i,
        i + needle.len(),
    ));
    assert(text::occurs_at(whole, needle, from + i));
}

/// A query has no words just where it is white space alone, and then nothing is searched for.
pub proof fn blank_query_has_no_words(query: Seq<char>)
    ensures
        tokens_of(query).len() == 0 <==> text::is_blank_text(query),
{
    text::trim_start_shape(query);
    let rest = text::trim_start(query);
    if rest.len() > 0 {
        assert(query[query.len() - rest.len()] == rest[0]);
    } else {
        assert(text::words(query).len() == 0);
    }
}

/// A candidate has just what the row says of its skill: the id, the layer, the metadata, the score
/// and whether it is deprecated.
pub proof fn candidate_has_what_its_row_says(candidate: SkillSearchCandidate, found: SearchRow)
    ensures
        is_candidate_of(candidate, found) <==> {
            &&& candidate.id@ == found.id@ && candidate.source_layer@ == found.source_layer@
            &&& candidate.metadata_json@ == found.metadata_json@
            &&& candidate.quality_score == found.quality_score
            &&& candidate.is_deprecated == found.is_deprecated
        },
{
}

/// The candidates of a search are those of the rows that it finds, as many and in that order.
pub proof fn candidates_are_those_found(
    candidates: Seq<SkillSearchCandidate>,
    found: Seq<SearchRow>,
    haystacks: Seq<Seq<char>>,
    tokens: Seq<Seq<char>>,
    limit: nat,
    k: int,
)
    requires
        are_chosen(candidates, found, haystacks, tokens, limit),
        0 <= k < candidates.len(),
    ensures
        candidates.len() == chosen(haystacks, tokens, limit).len(),
        is_candidate_of(candidates[k], found[chosen(haystacks, tokens, limit)[k]]),
{
}

} // verus!
