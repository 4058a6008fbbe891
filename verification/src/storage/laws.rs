//! What the statements of the registry do to its tables, one behind the other.

use crate::storage::record::{
    AliasRecord, AliasResolution, OriginPlace, SkillRecord, UserPreferenceRecord,
};
use crate::storage::row;
use crate::storage::row::{Columns, ToRow};
use crate::storage::sqlite;
use crate::storage::sqlite::SkillMetadata;
use crate::storage::statement;
use crate::storage::statement::ValueView;
use crate::storage::table;
use crate::storage::table::{Keyed, RowView, TableView};
use crate::storage::text_map;
use crate::text;
use vstd::prelude::*;

verus! {

// ---------------------------------------------------------------------------------------------
// Skills before their commit
// ---------------------------------------------------------------------------------------------

/// The key of a row whose key is one text.
pub open spec fn text_key(text: Seq<char>) -> Seq<ValueView> {
    seq![ValueView::Text(text)]
}

/// The skills after values were written as a skill before its commit, at a time.
pub open spec fn pending_written(
    skills: TableView,
    params: Seq<ValueView>,
    now: Seq<char>,
) -> TableView {
    table::upserted(
        skills,
        sqlite::pending_columns(),
        seq!["id"@],
        sqlite::pending_replaced(),
        statement::filled(sqlite::pending_fillings(), params, now),
    )
}

/// The columns of a skill that writing it before its commit never changes.
pub open spec fn committed_columns() -> Seq<Seq<char>> {
    seq![
        "id"@,
        "source_path"@,
        "git_remote"@,
        "git_commit"@,
        "content_hash"@,
        "body"@,
        "assets_json"@,
        "quality_score"@,
        "indexed_at"@,
        "is_deprecated"@,
        "deprecation_reason"@,
    ]
}

/// Where the columns of a skill that is written before its commit stand among all its columns.
spec fn pending_places() -> Seq<int> {
    seq![0, 1, 2, 3, 4, 5, 6, 9, 10, 11, 12, 13, 14, 15, 16]
}

/// Where the columns that are replaced stand among all columns of a skill.
spec fn replaced_places() -> Seq<int> {
    seq![1, 2, 3, 4, 6, 11, 13, 16]
}

/// Where the columns that are never changed stand among all columns of a skill.
spec fn committed_places() -> Seq<int> {
    seq![0, 5, 7, 8, 9, 10, 12, 14, 15, 17, 18]
}

/// The columns of a skill that is written before its commit are told apart.
proof fn pending_columns_differ()
    ensures
        sqlite::pending_columns().no_duplicates(),
{
    SkillRecord::names_differ();
    let names = SkillRecord::names();
    let columns = sqlite::pending_columns();
    let places = pending_places();
    assert forall|i: int, j: int| 0 <= i < j < columns.len() implies columns[i] != columns[j] by {
        assert(columns[i] == names[places[i]]);
        assert(columns[j] == names[places[j]]);
        assert(places[i] < places[j]);
    }
}

/// No column that is never changed is replaced.
proof fn committed_column_is_not_replaced(k: int)
    requires
        0 <= k < committed_columns().len(),
    ensures
        !sqlite::pending_replaced().contains(committed_columns()[k]),
{
    SkillRecord::names_differ();
    let names = SkillRecord::names();
    let replaced = sqlite::pending_replaced();
    let column = committed_columns()[k];
    assert(column == names[committed_places()[k]]);
    if replaced.contains(column) {
        let i = choose|i: int| 0 <= i < replaced.len() && replaced[i] == column;
        assert(replaced[i] == names[replaced_places()[i]]);
        assert(replaced_places()[i] != committed_places()[k]);
    }
}

/// What a new row of values that are put into the columns holds.
proof fn pending_row_holds(params: Seq<ValueView>, now: Seq<char>, i: int)
    requires
        0 <= i < sqlite::pending_columns().len(),
    ensures
        ({
            let values = statement::filled(sqlite::pending_fillings(), params, now);
            let new = table::row_of(sqlite::pending_columns(), values);
            &&& table::in_column(new, sqlite::pending_columns()[i]) == values[i]
            &&& table::picked(new, seq!["id"@]) == seq![params[0]]
        }),
{
    pending_columns_differ();
    let columns = sqlite::pending_columns();
    let values = statement::filled(sqlite::pending_fillings(), params, now);
    let new = table::row_of(columns, values);
    table::new_row_holds_its_values(columns, values);
    assert(table::picked(new, columns)[i] == values[i]);
    assert(table::picked(new, columns)[0] == values[0]);
    assert(table::picked(new, seq!["id"@])[0] == params[0]);
    assert(table::picked(new, seq!["id"@]) == seq![params[0]]);
}

/// Writing a skill before its commit puts what it is described by into its row. A new row is marked
/// as pending and holds nothing else; a row that is there keeps where the skill lies, its content
/// hash, its body and all else. No other row changes.
pub proof fn pending_write_describes_a_skill(
    skills: TableView,
    skill: SkillMetadata,
    layer: Seq<char>,
    metadata_json: Seq<char>,
    token_count: i64,
    now: Seq<char>,
    kept: int,
    other: Seq<ValueView>,
)
    ensures
        ({
            let params = sqlite::pending_values(skill, layer, metadata_json, token_count);
            let after = pending_written(skills, params, now);
            let key = text_key(skill.id@);
            let held = after[key];
            &&& after.dom() == skills.dom().insert(key)
            &&& table::in_column(held, "name"@) == ValueView::Text(skill.name@)
            &&& table::in_column(held, "description"@) == ValueView::Text(skill.description@)
            &&& table::in_column(held, "version"@) == statement::opt_text_value(
                text::opt_text(skill.version),
            )
            &&& table::in_column(held, "author"@) == statement::opt_text_value(
                text::opt_text(skill.author),
            )
            &&& table::in_column(held, "source_layer"@) == ValueView::Text(layer)
            &&& table::in_column(held, "metadata_json"@) == ValueView::Text(metadata_json)
            &&& table::in_column(held, "token_count"@) == ValueView::Integer(token_count)
            &&& table::in_column(held, "modified_at"@) == ValueView::Text(now)
            &&& !skills.dom().contains(key) ==> {
                &&& table::in_column(held, "id"@) == ValueView::Text(skill.id@)
                &&& table::in_column(held, "source_path"@) == ValueView::Text("pending"@)
                &&& table::in_column(held, "content_hash"@) == ValueView::Text("pending"@)
                &&& table::in_column(held, "body"@) == ValueView::Text(""@)
                &&& table::in_column(held, "assets_json"@) == ValueView::Text("{}"@)
                &&& table::in_column(held, "quality_score"@) == ValueView::Real(0)
                &&& table::in_column(held, "indexed_at"@) == ValueView::Text(now)
            }
            &&& skills.dom().contains(key) && 0 <= kept < committed_columns().len()
                ==> table::in_column(held, committed_columns()[kept]) == table::in_column(
                skills[key],
                committed_columns()[kept],
            )
            &&& other != key && skills.dom().contains(other) ==> after[other] == skills[other]
        }),
{
    let params = sqlite::pending_values(skill, layer, metadata_json, token_count);
    let columns = sqlite::pending_columns();
    let replaced = sqlite::pending_replaced();
    let fillings = sqlite::pending_fillings();
    let values = statement::filled(fillings, params, now);
    let after = pending_written(skills, params, now);
    let key = text_key(skill.id@);
    pending_row_holds(params, now, 0);
    assert(after.dom() == skills.dom().insert(key));
    assert forall|i: int| 0 <= i < columns.len() && !skills.dom().contains(key) implies
        table::in_column(after[key], #[trigger] columns[i]) == values[i] by {
        pending_row_holds(params, now, i);
        table::upserted_row_holds(
            skills,
            columns,
            seq!["id"@],
            replaced,
            values,
            columns[i],
            other,
        );
    }
    let at = seq![1int, 2, 3, 4, 6, 9, 11, 14];
    assert forall|r: int| 0 <= r < replaced.len() implies table::in_column(
        after[key],
        #[trigger] replaced[r],
    ) == values[at[r]] by {
        assert(columns[at[r]] == replaced[r]);
        assert(replaced.contains(replaced[r]));
        pending_row_holds(params, now, at[r]);
        table::upserted_row_holds(
            skills,
            columns,
            seq!["id"@],
            replaced,
            values,
            replaced[r],
            other,
        );
    }
    assert(replaced[0] == "name"@);
    assert(replaced[1] == "description"@);
    assert(replaced[2] == "version"@);
    assert(replaced[3] == "author"@);
    assert(replaced[4] == "source_layer"@);
    assert(replaced[5] == "metadata_json"@);
    assert(replaced[6] == "token_count"@);
    assert(replaced[7] == "modified_at"@);
    assert(columns[0] == "id"@);
    assert(columns[5] == "source_path"@);
    assert(columns[7] == "content_hash"@);
    assert(columns[8] == "body"@);
    assert(columns[10] == "assets_json"@);
    assert(columns[12] == "quality_score"@);
    assert(columns[13] == "indexed_at"@);
    if 0 <= kept < committed_columns().len() {
        committed_column_is_not_replaced(kept);
        table::upserted_row_holds(
            skills,
            columns,
            seq!["id"@],
            replaced,
            values,
            committed_columns()[kept],
            other,
        );
    }
}

/// A row is that of a skill that is still pending.
pub open spec fn is_pending(id: Seq<char>) -> spec_fn(RowView) -> bool {
    |held: RowView|
        table::in_column(held, "id"@) == ValueView::Text(id) && table::in_column(
            held,
            "source_path"@,
        ) == ValueView::Text("pending"@)
}

/// The skills after a skill that is still pending was deleted.
pub open spec fn pending_deleted(skills: TableView, id: Seq<char>) -> TableView {
    table::deleted(skills, is_pending(id))
}

/// Deleting a pending skill undoes writing a new one before its commit. A skill that was committed
/// stays, as does every other.
pub proof fn pending_write_is_undone(
    skills: TableView,
    skill: SkillMetadata,
    layer: Seq<char>,
    metadata_json: Seq<char>,
    token_count: i64,
    now: Seq<char>,
)
    requires
        table::is_keyed(skills, seq!["id"@]),
    ensures
        ({
            let params = sqlite::pending_values(skill, layer, metadata_json, token_count);
            let after = pending_written(skills, params, now);
            let key = text_key(skill.id@);
            &&& !skills.dom().contains(key) ==> pending_deleted(after, skill.id@) == skills
            &&& skills.dom().contains(key) && table::in_column(skills[key], "source_path"@)
                != ValueView::Text("pending"@) ==> pending_deleted(after, skill.id@) == after
        }),
{
    let params = sqlite::pending_values(skill, layer, metadata_json, token_count);
    let after = pending_written(skills, params, now);
    let key = text_key(skill.id@);
    let id = seq!["id"@];
    pending_write_describes_a_skill(
        skills,
        skill,
        layer,
        metadata_json,
        token_count,
        now,
        1,
        key,
    );
    assert(committed_columns()[1] == "source_path"@);
    assert forall|other: Seq<ValueView>| #[trigger]
        skills.dom().contains(other) && other != key implies after[other] == skills[other]
        && table::in_column(skills[other], "id"@) != ValueView::Text(skill.id@) by {
        pending_write_describes_a_skill(
            skills,
            skill,
            layer,
            metadata_json,
            token_count,
            now,
            1,
            other,
        );
        assert(table::picked(skills[other], id) == other);
        assert(table::picked(skills[other], id)[0] == table::in_column(skills[other], "id"@));
        if table::in_column(skills[other], "id"@) == ValueView::Text(skill.id@) {
            assert(other =~= key);
        }
    }
    if !skills.dom().contains(key) {
        assert(pending_deleted(after, skill.id@).dom() =~= skills.dom());
        assert(pending_deleted(after, skill.id@) =~= skills);
    } else if table::in_column(skills[key], "source_path"@) != ValueView::Text("pending"@) {
        assert(pending_deleted(after, skill.id@).dom() =~= after.dom());
        assert(pending_deleted(after, skill.id@) =~= after);
    }
}

/// The skills after one was completed, at a time.
pub open spec fn finalized(
    skills: TableView,
    id: Seq<char>,
    source_path: Seq<char>,
    content_hash: Seq<char>,
    body: Seq<char>,
    now: Seq<char>,
) -> TableView {
    let key = text_key(id);
    let placed = table::updated(skills, key, "source_path"@, ValueView::Text(source_path));
    let hashed = table::updated(placed, key, "content_hash"@, ValueView::Text(content_hash));
    let filled = table::updated(hashed, key, "body"@, ValueView::Text(body));
    table::updated(filled, key, "modified_at"@, ValueView::Text(now))
}

/// A skill that was written before its commit and then completed holds where it lies, its content
/// hash and its body, and is pending no more: deleting a pending skill leaves it.
pub proof fn completed_skill_stays(
    skills: TableView,
    id: Seq<char>,
    source_path: Seq<char>,
    content_hash: Seq<char>,
    body: Seq<char>,
    now: Seq<char>,
)
    requires
        table::is_keyed(skills, seq!["id"@]),
        skills.dom().contains(text_key(id)),
        source_path != "pending"@,
    ensures
        ({
            let after = finalized(skills, id, source_path, content_hash, body, now);
            let held = after[text_key(id)];
            &&& after.dom() == skills.dom()
            &&& table::in_column(held, "source_path"@) == ValueView::Text(source_path)
            &&& table::in_column(held, "content_hash"@) == ValueView::Text(content_hash)
            &&& table::in_column(held, "body"@) == ValueView::Text(body)
            &&& pending_deleted(after, id) == after
        }),
{
    let after = finalized(skills, id, source_path, content_hash, body, now);
    let key = text_key(id);
    let names = SkillRecord::names();
    SkillRecord::names_differ();
    assert(names[0] == "id"@ && names[5] == "source_path"@ && names[9] == "content_hash"@
        && names[10] == "body"@ && names[16] == "modified_at"@);
    assert(after.dom() =~= skills.dom());
    assert forall|other: Seq<ValueView>| #[trigger]
        skills.dom().contains(other) && other != key implies table::in_column(
        skills[other],
        "id"@,
    ) != ValueView::Text(id) by {
        assert(table::picked(skills[other], seq!["id"@]) == other);
        assert(table::picked(skills[other], seq!["id"@])[0] == table::in_column(
            skills[other],
            "id"@,
        ));
        if table::in_column(skills[other], "id"@) == ValueView::Text(id) {
            assert(other =~= key);
        }
    }
    assert(pending_deleted(after, id).dom() =~= after.dom());
    assert(pending_deleted(after, id) =~= after);
}

// ---------------------------------------------------------------------------------------------
// Origins
// ---------------------------------------------------------------------------------------------

/// The origins after one was recorded, at a time.
pub open spec fn origin_written(
    origins: TableView,
    skill_id: Seq<char>,
    origin_path: Seq<char>,
    origin_root: Seq<char>,
    now: Seq<char>,
) -> TableView {
    table::upserted(
        origins,
        sqlite::origin_columns(),
        seq!["skill_id"@],
        sqlite::origin_columns().skip(1),
        statement::filled(
            sqlite::origin_fillings(),
            seq![
                ValueView::Text(skill_id),
                ValueView::Text(origin_path),
                ValueView::Text(origin_root),
            ],
            now,
        ),
    )
}

/// The columns of an origin are told apart.
proof fn origin_columns_differ()
    ensures
        sqlite::origin_columns().no_duplicates(),
{
    reveal_strlit("skill_id");
    reveal_strlit("origin_path");
    reveal_strlit("origin_root");
    reveal_strlit("recorded_at");
    let columns = sqlite::origin_columns();
    assert(columns[0].len() == 8 && columns[1].len() == 11 && columns[2].len() == 11
        && columns[3].len() == 11);
    assert(columns[1][7] == 'p' && columns[2][7] == 'r' && columns[3][7] == 'd');
}

/// The origin that was recorded last for a skill is the one that is found, whatever was recorded
/// before, and the origins of other skills stay.
pub proof fn last_origin_is_found(
    origins: TableView,
    skill_id: Seq<char>,
    origin_path: Seq<char>,
    origin_root: Seq<char>,
    now: Seq<char>,
    other: Seq<ValueView>,
)
    requires
        table::is_keyed(origins, seq!["skill_id"@]),
    ensures
        ({
            let after = origin_written(origins, skill_id, origin_path, origin_root, now);
            let key = text_key(skill_id);
            &&& table::found(after, key, OriginPlace::names()) == Some(
                seq![ValueView::Text(origin_path), ValueView::Text(origin_root)],
            )
            &&& table::found(after, key, seq!["recorded_at"@]) == Some(text_key(now))
            &&& other != key ==> table::found(after, other, OriginPlace::names()) == table::found(
                origins,
                other,
                OriginPlace::names(),
            )
            &&& table::is_keyed(after, seq!["skill_id"@])
        }),
{
    let columns = sqlite::origin_columns();
    let keys = seq!["skill_id"@];
    let replaced = columns.skip(1);
    let params = seq![
        ValueView::Text(skill_id),
        ValueView::Text(origin_path),
        ValueView::Text(origin_root),
    ];
    let values = statement::filled(sqlite::origin_fillings(), params, now);
    let new = table::row_of(columns, values);
    let key = text_key(skill_id);
    let after = origin_written(origins, skill_id, origin_path, origin_root, now);
    origin_columns_differ();
    table::new_row_holds_its_values(columns, values);
    assert(table::picked(new, keys) == key) by {
        assert(table::picked(new, columns)[0] == values[0]);
        assert(table::picked(new, keys)[0] == values[0]);
    }
    assert forall|i: int| 1 <= i < columns.len() implies table::in_column(
        after[key],
        #[trigger] columns[i],
    ) == values[i] by {
        assert(table::picked(new, columns)[i] == values[i]);
        assert(replaced[i - 1] == columns[i]);
        table::upserted_row_holds(origins, columns, keys, replaced, values, columns[i], other);
    }
    assert(columns[1] == OriginPlace::names()[0] && columns[2] == OriginPlace::names()[1]);
    assert(table::picked(after[key], OriginPlace::names()) == seq![
        ValueView::Text(origin_path),
        ValueView::Text(origin_root),
    ]);
    assert(table::picked(after[key], seq!["recorded_at"@]) == text_key(now)) by {
        assert(columns[3] == "recorded_at"@);
    }
    assert(table::in_column(after[key], "skill_id"@) == ValueView::Text(skill_id)) by {
        assert(columns[0] == "skill_id"@);
        assert(table::picked(new, columns)[0] == values[0]);
        table::upserted_row_holds(origins, columns, keys, replaced, values, columns[0], other);
        if replaced.contains(columns[0]) {
            let j = choose|j: int| 0 <= j < replaced.len() && replaced[j] == columns[0];
            assert(columns[j + 1] == columns[0]);
        }
        if origins.dom().contains(key) {
            assert(table::picked(origins[key], keys)[0] == key[0]);
        }
    }
    assert(table::picked(after[key], keys) == key);
    assert forall|k: Seq<ValueView>| #[trigger] after.dom().contains(k) implies table::picked(
        after[k],
        keys,
    ) == k by {
        table::upserted_row_holds(origins, columns, keys, replaced, values, columns[0], k);
        if k != key {
            assert(origins.dom().contains(k));
        }
    }
    table::upserted_row_holds(origins, columns, keys, replaced, values, columns[0], other);
}

/// The row that an origin is listed as, with the skill that it is of.
pub open spec fn joined(origin: RowView, skill: RowView) -> Seq<ValueView> {
    seq![
        table::in_column(origin, "skill_id"@),
        table::in_column(skill, "name"@),
        table::in_column(origin, "origin_path"@),
        table::in_column(origin, "origin_root"@),
        table::in_column(origin, "recorded_at"@),
    ]
}

/// The origins with a skill, by the ids of their skills: what the list of origins asks for. The two
/// tables are joined where the id of a skill is that of an origin.
pub open spec fn lists_origins(
    rows: Seq<Seq<ValueView>>,
    origins: TableView,
    skills: TableView,
) -> bool {
    exists|pairs: Seq<(Seq<ValueView>, Seq<ValueView>)>| #[trigger]
        is_join(pairs, origins, skills) && rows == Seq::new(
            pairs.len(),
            |i: int| joined(origins[pairs[i].0], skills[pairs[i].1]),
        )
}

/// An origin and a skill, by their keys, belong together.
pub open spec fn belong(
    pair: (Seq<ValueView>, Seq<ValueView>),
    origins: TableView,
    skills: TableView,
) -> bool {
    &&& origins.dom().contains(pair.0)
    &&& skills.dom().contains(pair.1)
    &&& table::same_value(
        table::in_column(origins[pair.0], "skill_id"@),
        table::in_column(skills[pair.1], "id"@),
    )
}

/// The origins and skills that belong together, each pair once, by the ids of the skills.
pub open spec fn is_join(
    pairs: Seq<(Seq<ValueView>, Seq<ValueView>)>,
    origins: TableView,
    skills: TableView,
) -> bool {
    &&& pairs.no_duplicates()
    &&& forall|pair: (Seq<ValueView>, Seq<ValueView>)| #[trigger]
        pairs.contains(pair) <==> belong(pair, origins, skills)
    &&& forall|i: int, j: int|
        0 <= i < j < pairs.len() ==> !table::value_before(
            table::in_column(origins[(#[trigger] pairs[j]).0], "skill_id"@),
            table::in_column(origins[(#[trigger] pairs[i]).0], "skill_id"@),
        )
}

/// The list of origins has just those that are found of a skill that is found, each once and with
/// the name of the skill, by the ids of the skills.
pub proof fn listed_origins_are_those_of_skills(
    rows: Seq<Seq<ValueView>>,
    origins: TableView,
    skills: TableView,
    id: Seq<char>,
)
    requires
        table::is_keyed(origins, seq!["skill_id"@]),
        table::is_keyed(skills, seq!["id"@]),
        lists_origins(rows, origins, skills),
    ensures
        forall|i: int, j: int|
            0 <= i < j < rows.len() ==> (#[trigger] rows[i])[0] != (#[trigger] rows[j])[0]
                && !table::value_before(rows[j][0], rows[i][0]),
        forall|i: int|
            #![trigger rows[i]]
            0 <= i < rows.len() && rows[i][0] == ValueView::Text(id) ==> {
                &&& table::found(origins, text_key(id), OriginPlace::names()) == Some(
                    seq![rows[i][2], rows[i][3]],
                )
                &&& table::found(origins, text_key(id), seq!["recorded_at"@]) == Some(
                    seq![rows[i][4]],
                )
                &&& table::found(skills, text_key(id), seq!["name"@]) == Some(seq![rows[i][1]])
            },
        (exists|i: int| 0 <= i < rows.len() && (#[trigger] rows[i])[0] == ValueView::Text(id))
            <==> table::found(origins, text_key(id), OriginPlace::names()) is Some && table::found(
            skills,
            text_key(id),
            SkillRecord::names(),
        ) is Some,
{
    let pairs = choose|pairs: Seq<(Seq<ValueView>, Seq<ValueView>)>| #[trigger]
        is_join(pairs, origins, skills) && rows == Seq::new(
            pairs.len(),
            |i: int| joined(origins[pairs[i].0], skills[pairs[i].1]),
        );
    let key = text_key(id);
    assert forall|i: int| 0 <= i < pairs.len() implies ({
        let pair = #[trigger] pairs[i];
        &&& belong(pair, origins, skills)
        &&& pair.0 == pair.1
        &&& pair.0 == seq![rows[i][0]]
    }) by {
        let pair = pairs[i];
        assert(pairs.contains(pair));
        assert(table::picked(origins[pair.0], seq!["skill_id"@]) == pair.0);
        assert(table::picked(skills[pair.1], seq!["id"@]) == pair.1);
        assert(table::picked(origins[pair.0], seq!["skill_id"@]) =~= seq![rows[i][0]]);
        assert(table::picked(skills[pair.1], seq!["id"@]) =~= seq![rows[i][0]]);
    }
    assert forall|i: int, j: int| 0 <= i < j < rows.len() implies (#[trigger] rows[i])[0]
        != (#[trigger] rows[j])[0] && !table::value_before(rows[j][0], rows[i][0]) by {
        assert(pairs[i] != pairs[j]);
    }
    assert forall|i: int|
        #![trigger rows[i]]
        0 <= i < rows.len() && rows[i][0] == ValueView::Text(id) implies {
        &&& table::found(origins, key, OriginPlace::names()) == Some(seq![rows[i][2], rows[i][3]])
        &&& table::found(origins, key, seq!["recorded_at"@]) == Some(seq![rows[i][4]])
        &&& table::found(skills, key, seq!["name"@]) == Some(seq![rows[i][1]])
    } by {
        assert(pairs[i].0 == key);
        assert(table::picked(origins[key], OriginPlace::names()) =~= seq![rows[i][2], rows[i][3]]);
        assert(table::picked(origins[key], seq!["recorded_at"@]) =~= seq![rows[i][4]]);
        assert(table::picked(skills[key], seq!["name"@]) =~= seq![rows[i][1]]);
    }
    if origins.dom().contains(key) && skills.dom().contains(key) {
        let pair = (key, key);
        assert(table::picked(origins[key], seq!["skill_id"@])[0] == key[0]);
        assert(table::picked(skills[key], seq!["id"@])[0] == key[0]);
        assert(belong(pair, origins, skills));
        assert(pairs.contains(pair));
        let i = choose|i: int| 0 <= i < pairs.len() && pairs[i] == pair;
        assert(rows[i][0] == ValueView::Text(id));
    }
    if exists|i: int| 0 <= i < rows.len() && (#[trigger] rows[i])[0] == ValueView::Text(id) {
        let i = choose|i: int| 0 <= i < rows.len() && (#[trigger] rows[i])[0] == ValueView::Text(id);
        assert(pairs[i].0 == key);
    }
}

// ---------------------------------------------------------------------------------------------
// Skills of a name
// ---------------------------------------------------------------------------------------------

/// What the query for the skills of a name asks for.
pub open spec fn lists_name(
    rows: Seq<Seq<ValueView>>,
    skills: TableView,
    name: Seq<char>,
) -> bool {
    table::lists(
        rows,
        skills,
        SkillRecord::names(),
        table::holds_text("name"@, name),
        table::latest_first("modified_at"@),
    )
}

/// The skills of a name are just those that have it, each once, the last modified first, and each
/// is what is found under its id.
pub proof fn skills_of_a_name_are_found(
    rows: Seq<Seq<ValueView>>,
    skills: TableView,
    name: Seq<char>,
    id: Seq<char>,
)
    requires
        table::is_keyed(skills, seq!["id"@]),
        lists_name(rows, skills, name),
    ensures
        forall|i: int|
            0 <= i < rows.len() ==> (#[trigger] rows[i])[1] == ValueView::Text(name)
                && table::found(skills, seq![rows[i][0]], SkillRecord::names()) == Some(rows[i]),
        forall|i: int, j: int|
            0 <= i < j < rows.len() ==> (#[trigger] rows[i])[0] != (#[trigger] rows[j])[0]
                && !table::value_before(rows[i][16], rows[j][16]),
        (exists|i: int| 0 <= i < rows.len() && (#[trigger] rows[i])[0] == ValueView::Text(id))
            <==> table::found(skills, text_key(id), seq!["name"@]) == Some(text_key(name)),
{
    let names = SkillRecord::names();
    let matching = table::holds_text("name"@, name);
    let keys = choose|keys: Seq<Seq<ValueView>>| #[trigger]
        table::is_listing(keys, skills, matching, table::latest_first("modified_at"@)) && rows == table::rows_at(
            skills,
            keys,
            names,
        );
    assert(names[0] == "id"@ && names[1] == "name"@ && names[16] == "modified_at"@);
    assert forall|i: int| 0 <= i < keys.len() implies ({
        &&& skills.dom().contains(#[trigger] keys[i])
        &&& keys[i] == seq![rows[i][0]]
        &&& rows[i][1] == ValueView::Text(name)
        &&& rows[i][16] == table::in_column(skills[keys[i]], "modified_at"@)
    }) by {
        assert(keys.contains(keys[i]));
        assert(table::picked(skills[keys[i]], seq!["id"@]) == keys[i]);
        assert(table::picked(skills[keys[i]], seq!["id"@]) =~= seq![rows[i][0]]);
    }
    assert forall|i: int| 0 <= i < rows.len() implies (#[trigger] rows[i])[1] == ValueView::Text(
        name,
    ) && table::found(skills, seq![rows[i][0]], names) == Some(rows[i]) by {
        assert(skills.dom().contains(keys[i]));
    }
    assert forall|i: int, j: int| 0 <= i < j < rows.len() implies (#[trigger] rows[i])[0]
        != (#[trigger] rows[j])[0] && !table::value_before(rows[i][16], rows[j][16]) by {
        assert(keys[i] != keys[j]);
        assert(!table::latest_first("modified_at"@)(skills[keys[j]], skills[keys[i]]));
    }
    let key = text_key(id);
    if exists|i: int| 0 <= i < rows.len() && (#[trigger] rows[i])[0] == ValueView::Text(id) {
        let i = choose|i: int| 0 <= i < rows.len() && (#[trigger] rows[i])[0] == ValueView::Text(id);
        assert(keys[i] == key);
        assert(table::picked(skills[key], seq!["name"@]) =~= text_key(name));
    }
    if table::found(skills, key, seq!["name"@]) == Some(text_key(name)) {
        assert(table::picked(skills[key], seq!["name"@])[0] == ValueView::Text(name));
        assert(matching(skills[key]));
        assert(keys.contains(key));
        let i = choose|i: int| 0 <= i < keys.len() && keys[i] == key;
        assert(keys[i][0] == rows[i][0]);
        assert(rows[i][0] == ValueView::Text(id));
    }
}

// ---------------------------------------------------------------------------------------------
// Aliases
// ---------------------------------------------------------------------------------------------

/// Every row.
pub open spec fn any_row() -> spec_fn(RowView) -> bool {
    |held: RowView| true
}

/// The one of two rows whose alias comes first.
pub open spec fn by_alias() -> spec_fn(RowView, RowView) -> bool {
    |a: RowView, b: RowView|
        table::value_before(table::in_column(a, "alias"@), table::in_column(b, "alias"@))
}

/// The one of two rows whose skill comes first, and of the same skill the one whose alias does.
pub open spec fn by_skill_and_alias() -> spec_fn(RowView, RowView) -> bool {
    |a: RowView, b: RowView|
        {
            let first = table::in_column(a, "skill_id"@);
            let second = table::in_column(b, "skill_id"@);
            table::value_before(first, second) || first == second && by_alias()(a, b)
        }
}

/// What the list of aliases asks for, of all skills or of one.
pub open spec fn lists_aliases(
    rows: Seq<Seq<ValueView>>,
    aliases: TableView,
    skill: Option<Seq<char>>,
) -> bool {
    match skill {
        None => table::lists(
            rows,
            aliases,
            AliasRecord::names(),
            any_row(),
            by_skill_and_alias(),
        ),
        Some(id) => table::lists(
            rows,
            aliases,
            AliasRecord::names(),
            table::holds_text("skill_id"@, id),
            by_alias(),
        ),
    }
}

/// What the query for the aliases of a skill asks for.
pub open spec fn lists_names_of(
    rows: Seq<Seq<ValueView>>,
    aliases: TableView,
    skill: Seq<char>,
) -> bool {
    table::lists(rows, aliases, seq!["alias"@], table::holds_text("skill_id"@, skill), by_alias())
}

/// Each row has a text as its alias, under which it stands.
pub open spec fn are_aliases(aliases: TableView) -> bool {
    &&& table::is_keyed(aliases, seq!["alias"@])
    &&& forall|key: Seq<ValueView>| #[trigger]
        aliases.dom().contains(key) ==> table::in_column(aliases[key], "alias"@) is Text
}

/// One key comes before another.
spec fn key_before(a: Seq<ValueView>, b: Seq<ValueView>) -> bool {
    table::value_before(a[0], b[0])
}

/// Keys in strict order.
spec fn is_ascending(keys: Seq<Seq<ValueView>>) -> bool {
    forall|i: int, j: int|
        0 <= i < j < keys.len() ==> key_before(#[trigger] keys[i], #[trigger] keys[j])
}

/// Keys in strict order are told by which they are.
proof fn ascending_keys_are_one(a: Seq<Seq<ValueView>>, b: Seq<Seq<ValueView>>)
    requires
        is_ascending(a),
        is_ascending(b),
        forall|key: Seq<ValueView>| #[trigger] a.contains(key) <==> #[trigger] b.contains(key),
    ensures
        a == b,
    decreases a.len(),
{
    if a.len() == 0 {
        if b.len() > 0 {
            assert(b.contains(b[0]));
            assert(a.contains(b[0]));
        }
    } else {
        assert(a.contains(a[0]));
        assert(b.contains(a[0]));
        let i = choose|i: int| 0 <= i < b.len() && b[i] == a[0];
        assert(b.contains(b[0]));
        assert(a.contains(b[0]));
        let j = choose|j: int| 0 <= j < a.len() && a[j] == b[0];
        if i > 0 && j > 0 {
            assert(key_before(b[0], b[i]));
            assert(key_before(a[0], a[j]));
            before_is_one_way(a[0][0], b[0][0]);
        }
        assert(a[0] == b[0]);
        let rest = a.drop_first();
        let tail = b.drop_first();
        before_is_one_way(a[0][0], a[0][0]);
        assert forall|x: int, y: int| 0 <= x < y < rest.len() implies key_before(
            #[trigger] rest[x],
            #[trigger] rest[y],
        ) by {
            assert(rest[x] == a[x + 1] && rest[y] == a[y + 1]);
        }
        assert forall|x: int, y: int| 0 <= x < y < tail.len() implies key_before(
            #[trigger] tail[x],
            #[trigger] tail[y],
        ) by {
            assert(tail[x] == b[x + 1] && tail[y] == b[y + 1]);
        }
        assert forall|key: Seq<ValueView>| #[trigger] rest.contains(key) <==> #[trigger]
            tail.contains(key) by {
            if rest.contains(key) {
                let x = choose|x: int| 0 <= x < rest.len() && rest[x] == key;
                assert(a[x + 1] == key);
                assert(a.contains(a[x + 1]));
                assert(b.contains(key));
                let y = choose|y: int| 0 <= y < b.len() && b[y] == key;
                assert(key_before(a[0], a[x + 1]));
                assert(y > 0);
                assert(tail[y - 1] == key);
            }
            if tail.contains(key) {
                let x = choose|x: int| 0 <= x < tail.len() && tail[x] == key;
                assert(b[x + 1] == key);
                assert(b.contains(b[x + 1]));
                assert(a.contains(key));
                let y = choose|y: int| 0 <= y < a.len() && a[y] == key;
                assert(key_before(b[0], b[x + 1]));
                assert(y > 0);
                assert(rest[y - 1] == key);
            }
        }
        ascending_keys_are_one(rest, tail);
        assert(a =~= seq![a[0]] + rest);
        assert(b =~= seq![b[0]] + tail);
    }
}

/// Of two values at most one comes before the other.
proof fn before_is_one_way(a: ValueView, b: ValueView)
    ensures
        !(table::value_before(a, b) && table::value_before(b, a)),
{
    if let (ValueView::Text(a), ValueView::Text(b)) = (a, b) {
        if text_map::before(a, b) && text_map::before(b, a) {
            text_map::before_is_transitive(a, b, a);
            text_map::before_is_irreflexive(a);
        }
    }
}

/// Aliases in order of their names stand in strict order.
proof fn aliases_ascend(
    keys: Seq<Seq<ValueView>>,
    aliases: TableView,
    matching: spec_fn(RowView) -> bool,
)
    requires
        are_aliases(aliases),
        table::is_listing(keys, aliases, matching, by_alias()),
    ensures
        is_ascending(keys),
{
    assert forall|i: int, j: int| 0 <= i < j < keys.len() implies key_before(
        #[trigger] keys[i],
        #[trigger] keys[j],
    ) by {
        assert(keys.contains(keys[i]) && keys.contains(keys[j]));
        alias_is_the_key(aliases, keys[i]);
        alias_is_the_key(aliases, keys[j]);
        assert(!by_alias()(aliases[keys[j]], aliases[keys[i]]));
        assert(keys[i] != keys[j]);
        keys_are_ordered(keys[i], keys[j]);
    }
}

/// The key of an alias is its name.
proof fn alias_is_the_key(aliases: TableView, key: Seq<ValueView>)
    requires
        are_aliases(aliases),
        aliases.dom().contains(key),
    ensures
        key.len() == 1,
        key[0] is Text,
        key[0] == table::in_column(aliases[key], "alias"@),
{
    assert(table::picked(aliases[key], seq!["alias"@]) == key);
    assert(table::picked(aliases[key], seq!["alias"@])[0] == table::in_column(
        aliases[key],
        "alias"@,
    ));
}

/// Of two different keys that are one text each, one comes before the other.
proof fn keys_are_ordered(a: Seq<ValueView>, b: Seq<ValueView>)
    requires
        a.len() == 1,
        b.len() == 1,
        a[0] is Text,
        b[0] is Text,
        a != b,
    ensures
        key_before(a, b) || key_before(b, a),
{
    if a[0] == b[0] {
        assert(a =~= b);
    }
    text_map::before_is_total(a[0]->Text_0, b[0]->Text_0);
}

/// The keys of aliases of a skill, of keys.
spec fn keys_of_skill(
    keys: Seq<Seq<ValueView>>,
    aliases: TableView,
    skill: Seq<char>,
) -> Seq<Seq<ValueView>>
    decreases keys.len(),
{
    if keys.len() == 0 {
        Seq::empty()
    } else {
        let before = keys_of_skill(keys.drop_last(), aliases, skill);
        if table::holds_text("skill_id"@, skill)(aliases[keys.last()]) {
            before.push(keys.last())
        } else {
            before
        }
    }
}

/// The rows of a skill, of rows of aliases.
pub open spec fn rows_of_skill(rows: Seq<Seq<ValueView>>, skill: Seq<char>) -> Seq<Seq<ValueView>>
    decreases rows.len(),
{
    if rows.len() == 0 {
        Seq::empty()
    } else {
        let before = rows_of_skill(rows.drop_last(), skill);
        if rows.last()[1] == ValueView::Text(skill) {
            before.push(rows.last())
        } else {
            before
        }
    }
}

/// The names of rows of aliases.
pub open spec fn names_in(rows: Seq<Seq<ValueView>>) -> Seq<Seq<ValueView>> {
    Seq::new(rows.len(), |i: int| seq![rows[i][0]])
}

/// The rows of a skill are those at its keys.
proof fn rows_are_at_the_keys(keys: Seq<Seq<ValueView>>, aliases: TableView, skill: Seq<char>)
    ensures
        rows_of_skill(table::rows_at(aliases, keys, AliasRecord::names()), skill)
            == table::rows_at(aliases, keys_of_skill(keys, aliases, skill), AliasRecord::names()),
    decreases keys.len(),
{
    let names = AliasRecord::names();
    let rows = table::rows_at(aliases, keys, names);
    if keys.len() > 0 {
        let fewer = keys.drop_last();
        rows_are_at_the_keys(fewer, aliases, skill);
        assert(rows.drop_last() =~= table::rows_at(aliases, fewer, names));
        assert(names[1] == "skill_id"@);
        assert(rows.last()[1] == table::in_column(aliases[keys.last()], "skill_id"@));
        let before = keys_of_skill(fewer, aliases, skill);
        assert(table::rows_at(aliases, before.push(keys.last()), names) =~= table::rows_at(
            aliases,
            before,
            names,
        ).push(rows.last()));
    }
    assert(rows_of_skill(rows, skill) =~= table::rows_at(
        aliases,
        keys_of_skill(keys, aliases, skill),
        names,
    ));
}

/// The keys of aliases of a skill are those, of the keys, whose rows are of the skill.
proof fn keys_of_skill_are_its(
    keys: Seq<Seq<ValueView>>,
    aliases: TableView,
    skill: Seq<char>,
    key: Seq<ValueView>,
)
    ensures
        keys_of_skill(keys, aliases, skill).contains(key) <==> keys.contains(key) && table::holds_text(
            "skill_id"@,
            skill,
        )(aliases[key]),
    decreases keys.len(),
{
    if keys.len() > 0 {
        let fewer = keys.drop_last();
        let before = keys_of_skill(fewer, aliases, skill);
        let all = keys_of_skill(keys, aliases, skill);
        keys_of_skill_are_its(fewer, aliases, skill, key);
        assert(keys.contains(key) <==> fewer.contains(key) || key == keys.last()) by {
            if keys.contains(key) {
                let i = choose|i: int| 0 <= i < keys.len() && keys[i] == key;
                if i < fewer.len() {
                    assert(fewer[i] == key);
                }
            }
            if fewer.contains(key) {
                let i = choose|i: int| 0 <= i < fewer.len() && fewer[i] == key;
                assert(keys[i] == key);
            }
            if key == keys.last() {
                assert(keys[keys.len() - 1] == key);
            }
        }
        if table::holds_text("skill_id"@, skill)(aliases[keys.last()]) {
            assert(all.contains(key) <==> before.contains(key) || key == keys.last()) by {
                if all.contains(key) {
                    let i = choose|i: int| 0 <= i < all.len() && all[i] == key;
                    if i < before.len() {
                        assert(before[i] == key);
                    }
                }
                if before.contains(key) {
                    let i = choose|i: int| 0 <= i < before.len() && before[i] == key;
                    assert(all[i] == key);
                }
                if key == keys.last() {
                    assert(all[all.len() - 1] == key);
                }
            }
        }
    }
}

/// The keys of aliases of a skill stand in strict order, where keys stand by their skills and
/// aliases.
proof fn keys_of_skill_ascend(
    keys: Seq<Seq<ValueView>>,
    aliases: TableView,
    skill: Seq<char>,
)
    requires
        are_aliases(aliases),
        keys.no_duplicates(),
        forall|i: int| 0 <= i < keys.len() ==> aliases.dom().contains(#[trigger] keys[i]),
        forall|i: int, j: int|
            0 <= i < j < keys.len() ==> !by_skill_and_alias()(
                aliases[#[trigger] keys[j]],
                aliases[#[trigger] keys[i]],
            ),
    ensures
        is_ascending(keys_of_skill(keys, aliases, skill)),
    decreases keys.len(),
{
    if keys.len() > 0 {
        let fewer = keys.drop_last();
        let last = keys.last();
        let before = keys_of_skill(fewer, aliases, skill);
        let all = keys_of_skill(keys, aliases, skill);
        keys_of_skill_ascend(fewer, aliases, skill);
        if table::holds_text("skill_id"@, skill)(aliases[last]) {
            assert forall|i: int, j: int| 0 <= i < j < all.len() implies key_before(
                #[trigger] all[i],
                #[trigger] all[j],
            ) by {
                if j < before.len() {
                    assert(before[i] == all[i] && before[j] == all[j]);
                } else {
                    assert(before[i] == all[i]);
                    assert(before.contains(all[i]));
                    keys_of_skill_are_its(fewer, aliases, skill, all[i]);
                    let k = choose|k: int| 0 <= k < fewer.len() && fewer[k] == all[i];
                    assert(keys[k] == all[i]);
                    assert(keys[keys.len() - 1] == last);
                    assert(!by_skill_and_alias()(aliases[last], aliases[all[i]]));
                    alias_is_the_key(aliases, all[i]);
                    alias_is_the_key(aliases, last);
                    keys_are_ordered(all[i], last);
                }
            }
        }
    }
}

/// The queries on aliases agree. Of the list of all aliases, which stands by skills and aliases, the
/// rows of a skill are the list of its aliases, and their names are those that the query for its
/// aliases gives, in the same order.
pub proof fn alias_queries_agree(
    all: Seq<Seq<ValueView>>,
    of_skill: Seq<Seq<ValueView>>,
    names: Seq<Seq<ValueView>>,
    aliases: TableView,
    skill: Seq<char>,
)
    requires
        are_aliases(aliases),
        lists_aliases(all, aliases, None),
        lists_aliases(of_skill, aliases, Some(skill)),
        lists_names_of(names, aliases, skill),
    ensures
        of_skill == rows_of_skill(all, skill),
        names == names_in(of_skill),
        forall|i: int, j: int|
            0 <= i < j < all.len() ==> !table::value_before(
                (#[trigger] all[j])[1],
                (#[trigger] all[i])[1],
            ) && (all[i][1] == all[j][1] ==> table::value_before(all[i][0], all[j][0])),
        forall|i: int, j: int|
            0 <= i < j < of_skill.len() ==> table::value_before(
                (#[trigger] of_skill[i])[0],
                (#[trigger] of_skill[j])[0],
            ),
{
    let columns = AliasRecord::names();
    let matching = table::holds_text("skill_id"@, skill);
    let every = choose|keys: Seq<Seq<ValueView>>| #[trigger]
        table::is_listing(keys, aliases, any_row(), by_skill_and_alias()) && all
            == table::rows_at(aliases, keys, columns);
    let some = choose|keys: Seq<Seq<ValueView>>| #[trigger]
        table::is_listing(keys, aliases, matching, by_alias()) && of_skill == table::rows_at(
            aliases,
            keys,
            columns,
        );
    let named = choose|keys: Seq<Seq<ValueView>>| #[trigger]
        table::is_listing(keys, aliases, matching, by_alias()) && names == table::rows_at(
            aliases,
            keys,
            seq!["alias"@],
        );
    let kept = keys_of_skill(every, aliases, skill);
    assert(columns[0] == "alias"@ && columns[1] == "skill_id"@);
    assert forall|i: int| 0 <= i < every.len() implies aliases.dom().contains(
        #[trigger] every[i],
    ) by {
        assert(every.contains(every[i]));
    }
    keys_of_skill_ascend(every, aliases, skill);
    aliases_ascend(some, aliases, matching);
    aliases_ascend(named, aliases, matching);
    assert forall|key: Seq<ValueView>| #[trigger] kept.contains(key) <==> #[trigger]
        some.contains(key) by {
        keys_of_skill_are_its(every, aliases, skill, key);
        assert(every.contains(key) <==> aliases.dom().contains(key) && any_row()(aliases[key]));
    }
    ascending_keys_are_one(kept, some);
    ascending_keys_are_one(some, named);
    rows_are_at_the_keys(every, aliases, skill);
    assert forall|i: int| 0 <= i < some.len() implies names[i] == #[trigger] names_in(
        of_skill,
    )[i] by {
        assert(names[i] =~= seq![of_skill[i][0]]);
    }
    assert(names =~= names_in(of_skill));
    assert forall|i: int, j: int| 0 <= i < j < all.len() implies !table::value_before(
        (#[trigger] all[j])[1],
        (#[trigger] all[i])[1],
    ) && (all[i][1] == all[j][1] ==> table::value_before(all[i][0], all[j][0])) by {
        let a = every[i];
        let b = every[j];
        assert(!by_skill_and_alias()(aliases[b], aliases[a]));
        alias_is_the_key(aliases, a);
        alias_is_the_key(aliases, b);
        assert(a != b);
        keys_are_ordered(a, b);
    }
    assert forall|i: int, j: int| 0 <= i < j < of_skill.len() implies table::value_before(
        (#[trigger] of_skill[i])[0],
        (#[trigger] of_skill[j])[0],
    ) by {
        assert(some.contains(some[i]) && some.contains(some[j]));
        alias_is_the_key(aliases, some[i]);
        alias_is_the_key(aliases, some[j]);
        assert(key_before(some[i], some[j]));
    }
}

/// What an alias stands for is what the list of all aliases says: an alias is resolved just where it
/// is listed, to the skill and the type of its row.
pub proof fn listed_aliases_are_resolved(
    all: Seq<Seq<ValueView>>,
    aliases: TableView,
    alias: Seq<char>,
)
    requires
        are_aliases(aliases),
        lists_aliases(all, aliases, None),
    ensures
        forall|i: int|
            #![trigger all[i]]
            0 <= i < all.len() && all[i][0] == ValueView::Text(alias) ==> table::found(
                aliases,
                text_key(alias),
                AliasResolution::names(),
            ) == Some(seq![all[i][1], all[i][2]]),
        (exists|i: int| 0 <= i < all.len() && (#[trigger] all[i])[0] == ValueView::Text(alias))
            <==> table::found(aliases, text_key(alias), AliasResolution::names()) is Some,
{
    let columns = AliasRecord::names();
    let keys = choose|keys: Seq<Seq<ValueView>>| #[trigger]
        table::is_listing(keys, aliases, any_row(), by_skill_and_alias()) && all
            == table::rows_at(aliases, keys, columns);
    let key = text_key(alias);
    assert(columns[0] == "alias"@ && columns[1] == AliasResolution::names()[0] && columns[2]
        == AliasResolution::names()[1]);
    assert forall|i: int|
        #![trigger all[i]]
        0 <= i < all.len() && all[i][0] == ValueView::Text(alias) implies table::found(
        aliases,
        key,
        AliasResolution::names(),
    ) == Some(seq![all[i][1], all[i][2]]) by {
        assert(keys.contains(keys[i]));
        alias_is_the_key(aliases, keys[i]);
        assert(keys[i] =~= key);
        assert(table::picked(aliases[key], AliasResolution::names()) =~= seq![
            all[i][1],
            all[i][2],
        ]);
    }
    if aliases.dom().contains(key) {
        assert(any_row()(aliases[key]));
        assert(keys.contains(key));
        let i = choose|i: int| 0 <= i < keys.len() && keys[i] == key;
        alias_is_the_key(aliases, key);
        assert(all[i][0] == ValueView::Text(alias));
    }
}

/// The aliases after one was deleted.
pub open spec fn alias_deleted(aliases: TableView, alias: Seq<char>) -> TableView {
    table::deleted(aliases, table::holds_text("alias"@, alias))
}

/// An alias that was deleted is resolved no more, and the others as before.
pub proof fn deleted_alias_is_gone(aliases: TableView, alias: Seq<char>, other: Seq<char>)
    requires
        are_aliases(aliases),
    ensures
        table::found(alias_deleted(aliases, alias), text_key(alias), AliasResolution::names())
            is None,
        other != alias ==> table::found(
            alias_deleted(aliases, alias),
            text_key(other),
            AliasResolution::names(),
        ) == table::found(aliases, text_key(other), AliasResolution::names()),
        are_aliases(alias_deleted(aliases, alias)),
{
    let after = alias_deleted(aliases, alias);
    if aliases.dom().contains(text_key(alias)) {
        alias_is_the_key(aliases, text_key(alias));
    }
    if aliases.dom().contains(text_key(other)) {
        alias_is_the_key(aliases, text_key(other));
        assert(text_key(other)[0] == ValueView::Text(other));
    }
    assert forall|key: Seq<ValueView>| #[trigger] after.dom().contains(key) implies table::picked(
        after[key],
        seq!["alias"@],
    ) == key && table::in_column(after[key], "alias"@) is Text by {
        assert(aliases.dom().contains(key));
    }
}

// ---------------------------------------------------------------------------------------------
// Marks on skills
// ---------------------------------------------------------------------------------------------

/// The skills after one was given a quality score.
pub open spec fn scored(skills: TableView, id: Seq<char>, score: ValueView) -> TableView {
    table::updated(skills, text_key(id), "quality_score"@, score)
}

/// The skills after one was marked as deprecated, or not, with a reason.
pub open spec fn deprecated(
    skills: TableView,
    id: Seq<char>,
    flag: ValueView,
    reason: ValueView,
) -> TableView {
    table::updated(
        table::updated(skills, text_key(id), "is_deprecated"@, flag),
        text_key(id),
        "deprecation_reason"@,
        reason,
    )
}

/// Scoring a skill sets its score alone, and deprecating it the mark and the reason alone; no other
/// skill changes.
pub proof fn marks_alone_are_set(
    skills: TableView,
    id: Seq<char>,
    score: ValueView,
    flag: ValueView,
    reason: ValueView,
    other: Seq<ValueView>,
)
    requires
        table::is_keyed(skills, table::keys_of::<SkillRecord>()),
    ensures
        ({
            let names = SkillRecord::names();
            let key = text_key(id);
            let held = table::found(skills, key, names);
            let after = scored(skills, id, score);
            let marked = deprecated(skills, id, flag, reason);
            &&& table::found(after, key, names) == (match held {
                Some(held) => Some(held.update(14, score)),
                None => None,
            })
            &&& table::found(marked, key, names) == (match held {
                Some(held) => Some(held.update(17, flag).update(18, reason)),
                None => None,
            })
            &&& other != key ==> table::found(after, other, names) == table::found(
                skills,
                other,
                names,
            ) && table::found(marked, other, names) == table::found(skills, other, names)
        }),
{
    let names = SkillRecord::names();
    let key = text_key(id);
    assert(names[14] == "quality_score"@ && names[17] == "is_deprecated"@ && names[18]
        == "deprecation_reason"@);
    table::column_alone_is_set::<SkillRecord>(skills, key, 14, score, other);
    table::column_alone_is_set::<SkillRecord>(skills, key, 17, flag, other);
    let flagged = table::updated(skills, key, "is_deprecated"@, flag);
    table::column_alone_is_set::<SkillRecord>(flagged, key, 18, reason, other);
}

// ---------------------------------------------------------------------------------------------
// Preferences
// ---------------------------------------------------------------------------------------------

/// A row is a preference of a type for a skill.
pub open spec fn is_preference(
    skill: Seq<char>,
    preference_type: Seq<char>,
) -> spec_fn(RowView) -> bool {
    |held: RowView|
        table::in_column(held, "skill_id"@) == ValueView::Text(skill) && table::in_column(
            held,
            "preference_type"@,
        ) == ValueView::Text(preference_type)
}

/// What writing a preference may do: it is there, and whatever it replaced had its id or was of the
/// same type for the same skill.
pub open spec fn preference_written(
    before: TableView,
    after: TableView,
    record: UserPreferenceRecord,
) -> bool {
    let key = table::key_of(record);
    let same = is_preference(record.skill_id@, record.preference_type@);
    &&& after.dom().contains(key)
    &&& after[key] == table::row_of(UserPreferenceRecord::names(), record.values())
    &&& forall|k: Seq<ValueView>| #[trigger]
        after.dom().contains(k) && k != key ==> before.dom().contains(k) && after[k] == before[k]
    &&& forall|k: Seq<ValueView>| #[trigger]
        before.dom().contains(k) && k != key && !same(before[k]) ==> after.dom().contains(k)
}

/// How many preferences of a type a skill has, as the row of the query says it.
pub open spec fn preference_count(
    preferences: TableView,
    skill: Seq<char>,
    preference_type: Seq<char>,
) -> Seq<ValueView> {
    let keys = table::matching_keys(preferences, is_preference(skill, preference_type));
    seq![ValueView::Integer(keys.len() as i64)]
}

/// The preferences after one was removed.
pub open spec fn preference_removed(
    preferences: TableView,
    skill: Seq<char>,
    preference_type: Seq<char>,
) -> TableView {
    table::deleted(preferences, is_preference(skill, preference_type))
}

/// A preference that was set is had until it is removed. Neither changes what other preferences
/// there are.
pub proof fn preference_is_had_until_removed(
    before: TableView,
    after: TableView,
    record: UserPreferenceRecord,
    skill: Seq<char>,
    preference_type: Seq<char>,
)
    requires
        preference_written(before, after, record),
        !before.dom().contains(table::key_of(record)),
        after.dom().finite(),
        after.dom().len() <= i64::MAX,
    ensures
        ({
            let set = preference_count(after, record.skill_id@, record.preference_type@);
            let removed = preference_removed(after, record.skill_id@, record.preference_type@);
            let other = is_preference(skill, preference_type);
            &&& row::integer_in(set[0]) > 0
            &&& preference_count(removed, record.skill_id@, record.preference_type@)
                == seq![ValueView::Integer(0)]
            &&& skill != record.skill_id@ || preference_type != record.preference_type@ ==> {
                &&& table::matching_keys(after, other) == table::matching_keys(before, other)
                &&& table::matching_keys(removed, other) == table::matching_keys(before, other)
            }
        }),
{
    UserPreferenceRecord::names_differ();
    let names = UserPreferenceRecord::names();
    let key = table::key_of(record);
    let same = is_preference(record.skill_id@, record.preference_type@);
    let other = is_preference(skill, preference_type);
    let removed = preference_removed(after, record.skill_id@, record.preference_type@);
    table::new_row_holds_its_values(names, record.values());
    assert(names[1] == "skill_id"@ && names[2] == "preference_type"@);
    assert(table::picked(after[key], names)[1] == ValueView::Text(record.skill_id@));
    assert(table::picked(after[key], names)[2] == ValueView::Text(record.preference_type@));
    assert(same(after[key]));
    let had = table::matching_keys(after, same);
    assert(had.contains(key));
    assert(had.subset_of(after.dom()));
    vstd::set_lib::lemma_len_subset(had, after.dom());
    assert(had.len() > 0);
    assert(table::matching_keys(removed, same) =~= Set::empty());
    if skill != record.skill_id@ || preference_type != record.preference_type@ {
        assert forall|k: Seq<ValueView>| table::matching_keys(after, other).contains(k)
            == table::matching_keys(before, other).contains(k) by {
            if before.dom().contains(k) && other(before[k]) {
                assert(!same(before[k]));
                assert(after.dom().contains(k));
            }
            if after.dom().contains(k) && k != key {
                assert(before.dom().contains(k));
            }
        }
        assert(table::matching_keys(after, other) =~= table::matching_keys(before, other));
        assert(table::matching_keys(removed, other) =~= table::matching_keys(after, other));
    }
}

// ---------------------------------------------------------------------------------------------
// Lists
// ---------------------------------------------------------------------------------------------

/// The list of the records with a text in a column has just those rows of the list of all records
/// that hold it there: the feedback on a skill, its experiments, what of a session is in quarantine,
/// and the preferences of a type.
pub proof fn records_of_one_are_among_all<T: Keyed>(
    all: Seq<Seq<ValueView>>,
    some: Seq<Seq<ValueView>>,
    kept: TableView,
    i: int,
    text: Seq<char>,
    first: spec_fn(RowView, RowView) -> bool,
    held: Seq<ValueView>,
)
    requires
        table::is_keyed(kept, table::keys_of::<T>()),
        0 <= i < T::names().len(),
        table::lists(all, kept, T::names(), any_row(), first),
        table::lists(some, kept, T::names(), table::holds_text(T::names()[i], text), first),
    ensures
        some.contains(held) <==> all.contains(held) && held[i] == ValueView::Text(text),
{
    let k = T::key_length() as int;
    let key = held.take(k);
    let matching = table::holds_text(T::names()[i], text);
    table::listed_rows_are_those_found::<T>(all, kept, any_row(), first, key);
    table::listed_rows_are_those_found::<T>(some, kept, matching, first, key);
    if some.contains(held) {
        let j = choose|j: int| 0 <= j < some.len() && some[j] == held;
        assert(table::found(kept, key, T::names()) == Some(held));
        assert(matching(kept[key]));
        assert(table::picked(kept[key], T::names())[i] == ValueView::Text(text));
        assert(any_row()(kept[key]));
        let n = choose|n: int| 0 <= n < all.len() && (#[trigger] all[n]).take(k) == key;
        assert(all[n] == held);
    }
    if all.contains(held) && held[i] == ValueView::Text(text) {
        let j = choose|j: int| 0 <= j < all.len() && all[j] == held;
        assert(table::found(kept, key, T::names()) == Some(held));
        assert(table::picked(kept[key], T::names())[i] == ValueView::Text(text));
        assert(matching(kept[key]));
        let n = choose|n: int| 0 <= n < some.len() && (#[trigger] some[n]).take(k) == key;
        assert(some[n] == held);
    }
}

/// What the list of skills asks for, before it is cut into pages.
pub open spec fn lists_skills(rows: Seq<Seq<ValueView>>, skills: TableView) -> bool {
    table::lists(
        rows,
        skills,
        SkillRecord::names(),
        any_row(),
        table::latest_first("modified_at"@),
    )
}

/// The pages of the list of skills hold each skill that is there, as it is found, once, and no other.
/// No skill stands before one that was modified later.
pub proof fn each_skill_is_on_one_page(
    rows: Seq<Seq<ValueView>>,
    skills: TableView,
    id: Seq<char>,
    limit: nat,
)
    requires
        table::is_keyed(skills, table::keys_of::<SkillRecord>()),
        lists_skills(rows, skills),
        0 < limit,
    ensures
        forall|i: int, j: int|
            0 <= i < j < rows.len() ==> (#[trigger] rows[i])[0] != (#[trigger] rows[j])[0]
                && !table::value_before(rows[i][16], rows[j][16]),
        match table::found(skills, text_key(id), SkillRecord::names()) {
            Some(held) => exists|i: int|
                #![trigger rows[i]]
                0 <= i < rows.len() && rows[i] == held && table::page(
                    rows,
                    limit,
                    ((i / limit as int) * limit) as nat,
                )[i - (i / limit as int) * limit] == held,
            None => forall|i: int|
                0 <= i < rows.len() ==> (#[trigger] rows[i])[0] != ValueView::Text(id),
        },
{
    let names = SkillRecord::names();
    let key = text_key(id);
    let first = table::latest_first("modified_at"@);
    table::listed_rows_are_those_found::<SkillRecord>(rows, skills, any_row(), first, key);
    assert(names[0] == "id"@ && names[16] == "modified_at"@);
    assert forall|i: int| 0 <= i < rows.len() implies (#[trigger] rows[i]).take(1)
        =~= seq![rows[i][0]] && rows[i][16] == table::in_column(
        skills[rows[i].take(1)],
        "modified_at"@,
    ) by {
        assert(table::found(skills, rows[i].take(1), names) == Some(rows[i]));
    }
    assert forall|i: int, j: int| 0 <= i < j < rows.len() implies (#[trigger] rows[i])[0]
        != (#[trigger] rows[j])[0] && !table::value_before(rows[i][16], rows[j][16]) by {
        assert(rows[i].take(1) != rows[j].take(1));
        assert(!first(skills[rows[j].take(1)], skills[rows[i].take(1)]));
    }
    if skills.dom().contains(key) {
        assert(any_row()(skills[key]));
        let i = choose|i: int| 0 <= i < rows.len() && (#[trigger] rows[i]).take(1) == key;
        let n = i / limit as int;
        assert(0 <= n) by (nonlinear_arith)
            requires
                n == i / limit as int,
                0 <= i,
                0 < limit,
        ;
        table::each_row_is_on_one_page(rows, limit, i, n as nat);
        assert(rows[i] == table::picked(skills[key], names));
    } else {
        assert forall|i: int| 0 <= i < rows.len() implies (#[trigger] rows[i])[0]
            != ValueView::Text(id) by {
            if rows[i][0] == ValueView::Text(id) {
                assert(rows[i].take(1) =~= key);
            }
        }
    }
}

// ---------------------------------------------------------------------------------------------
// Usage
// ---------------------------------------------------------------------------------------------

/// The uses of a skill; the query for their count asks how many they are.
pub open spec fn uses_of(usage: TableView, skill: Seq<char>) -> Set<Seq<ValueView>> {
    table::matching_keys(usage, table::holds_text("skill_id"@, skill))
}

/// A use that is written under a key that is new counts once for its skill, and for no other.
pub proof fn use_is_counted_once(
    usage: TableView,
    key: Seq<ValueView>,
    held: RowView,
    skill: Seq<char>,
    other: Seq<char>,
)
    requires
        usage.dom().finite(),
        !usage.dom().contains(key),
        table::in_column(held, "skill_id"@) == ValueView::Text(skill),
    ensures
        uses_of(usage.insert(key, held), skill).len() == uses_of(usage, skill).len() + 1,
        other != skill ==> uses_of(usage.insert(key, held), other) == uses_of(usage, other),
{
    let before = uses_of(usage, skill);
    assert(before.subset_of(usage.dom()));
    vstd::set_lib::lemma_len_subset(before, usage.dom());
    assert(uses_of(usage.insert(key, held), skill) =~= before.insert(key));
    if other != skill {
        assert(uses_of(usage.insert(key, held), other) =~= uses_of(usage, other));
    }
}

/// A use of a skill that no other use of it is later than.
pub open spec fn is_last_use(usage: TableView, skill: Seq<char>, key: Seq<ValueView>) -> bool {
    &&& uses_of(usage, skill).contains(key)
    &&& forall|other: Seq<ValueView>| #[trigger]
        uses_of(usage, skill).contains(other) ==> !table::value_before(
            table::in_column(usage[key], "used_at"@),
            table::in_column(usage[other], "used_at"@),
        )
}

/// What marking the outcome of the last use of a skill may do: nothing where it was never used, and
/// otherwise it sets the outcome of a last use.
pub open spec fn outcome_marked(
    before: TableView,
    after: TableView,
    skill: Seq<char>,
    outcome: ValueView,
) -> bool {
    if uses_of(before, skill) == Set::<Seq<ValueView>>::empty() {
        after == before
    } else {
        exists|key: Seq<ValueView>| #[trigger]
            is_last_use(before, skill, key) && after == table::updated(
                before,
                key,
                "success_signal"@,
                outcome,
            )
    }
}

/// The outcome of a skill is set on one of its uses alone, a last one. Every use is of the same skill
/// as before, and those of other skills do not change at all.
pub proof fn outcome_is_set_on_the_last_use(
    before: TableView,
    after: TableView,
    skill: Seq<char>,
    outcome: ValueView,
    other: Seq<char>,
    key: Seq<ValueView>,
)
    requires
        outcome_marked(before, after, skill, outcome),
    ensures
        after.dom() == before.dom(),
        uses_of(after, other) == uses_of(before, other),
        other != skill && uses_of(before, other).contains(key) ==> after[key] == before[key],
        before.dom().contains(key) && after[key] != before[key] ==> is_last_use(before, skill, key)
            && after[key] == before[key].insert("success_signal"@, outcome),
        uses_of(before, skill) != Set::<Seq<ValueView>>::empty() ==> exists|last: Seq<ValueView>|
            #[trigger] is_last_use(before, skill, last) && table::in_column(
                after[last],
                "success_signal"@,
            ) == outcome,
{
    reveal_strlit("skill_id");
    reveal_strlit("success_signal");
    assert("skill_id"@.len() == 8 && "success_signal"@.len() == 14);
    if uses_of(before, skill) != Set::<Seq<ValueView>>::empty() {
        let last = choose|last: Seq<ValueView>| #[trigger]
            is_last_use(before, skill, last) && after == table::updated(
                before,
                last,
                "success_signal"@,
                outcome,
            );
        assert(table::in_column(after[last], "success_signal"@) == outcome);
        assert(after.dom() =~= before.dom());
        assert(table::in_column(after[last], "skill_id"@) == table::in_column(
            before[last],
            "skill_id"@,
        ));
    }
    assert(uses_of(after, other) =~= uses_of(before, other));
}

} // verus!
