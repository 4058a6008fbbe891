//! Deleting a skill and all that belongs to it.
//!
//! Foreign keys are enforced and most tables that refer to a skill do not cascade, so what refers
//! goes before what it refers to: events of experiments before experiments, and the skill itself
//! last. Some tables are under no foreign key; what was derived from a skill must not outlive it
//! all the same.

use crate::storage::sqlite::Database;
use crate::storage::statement;
use crate::storage::statement::{Statement, StatementView, ValueView};
use crate::storage::table;
use crate::storage::table::{RowView, TableView};
use vstd::prelude::*;
use vstd::string::*;

verus! {

/// Events of the experiments with a skill.
pub const DELETE_EXPERIMENT_EVENTS: &'static str =
    "DELETE FROM skill_experiment_events WHERE experiment_id IN \
     (SELECT id FROM skill_experiments WHERE skill_id = ?)";

/// The text that deletes the rows of a skill from a table.
pub open spec fn delete_sql(table: Seq<char>) -> Seq<char> {
    "DELETE FROM "@ + table + " WHERE skill_id = ?"@
}

/// The text that deletes from a table the rows in which a skill stands on either side.
pub open spec fn delete_both_sql(table: Seq<char>) -> Seq<char> {
    "DELETE FROM "@ + table + " WHERE skill_id = ? OR depends_on = ?"@
}

/// The tables that the deletion of a skill goes through, in order.
pub open spec fn removal_order() -> Seq<Seq<char>> {
    seq![
        "skill_experiment_events"@,
        "skill_experiments"@,
        "skill_packs"@,
        "skill_slices"@,
        "skill_evidence"@,
        "skill_rules"@,
        "skill_usage"@,
        "skill_usage_events"@,
        "rule_outcomes"@,
        "skill_dependencies"@,
        "skill_capabilities"@,
        "skill_feedback"@,
        "user_preferences"@,
        "skill_embeddings"@,
        "skill_origins"@,
        "resolved_skill_cache"@,
        "skill_dependency_graph"@,
        "skills"@,
    ]
}

/// The `i`-th statement of the deletion of a skill.
pub open spec fn removal_step(id: Seq<char>, i: int) -> StatementView {
    let table = removal_order()[i];
    let once = seq![ValueView::Text(id)];
    if i == 0 {
        StatementView { sql: DELETE_EXPERIMENT_EVENTS@, params: once }
    } else if i == 9 || i == 16 {
        StatementView {
            sql: delete_both_sql(table),
            params: seq![ValueView::Text(id), ValueView::Text(id)],
        }
    } else if i == 17 {
        StatementView { sql: "DELETE FROM skills WHERE id = ?"@, params: once }
    } else {
        StatementView { sql: delete_sql(table), params: once }
    }
}

/// Deletes the rows of a skill from a table.
fn delete_from(table: &str, id: &str) -> (r: Statement)
    ensures
        r@ == (StatementView { sql: delete_sql(table@), params: seq![ValueView::Text(id@)] }),
{
    let mut sql = "DELETE FROM ".to_owned();
    sql.append(table);
    sql.append(" WHERE skill_id = ?");
    Statement::new(sql.as_str()).text(id)
}

/// Deletes from a table the rows in which a skill stands on either side.
fn delete_both_from(table: &str, id: &str) -> (r: Statement)
    ensures
        r@ == (StatementView {
            sql: delete_both_sql(table@),
            params: seq![ValueView::Text(id@), ValueView::Text(id@)],
        }),
{
    let mut sql = "DELETE FROM ".to_owned();
    sql.append(table);
    sql.append(" WHERE skill_id = ? OR depends_on = ?");
    Statement::new(sql.as_str()).text(id).text(id)
}

impl Database {
    /// Deletes a skill and all that belongs to it. The statements are to be run in order.
    pub fn delete_skill(id: &str) -> (r: Vec<Statement>)
        ensures
            statement::statements(r@) == Seq::new(
                removal_order().len(),
                |i: int| removal_step(id@, i),
            ),
    {
        let steps = vec![
            Statement::new(DELETE_EXPERIMENT_EVENTS).text(id),
            delete_from("skill_experiments", id),
            delete_from("skill_packs", id),
            delete_from("skill_slices", id),
            delete_from("skill_evidence", id),
            delete_from("skill_rules", id),
            delete_from("skill_usage", id),
            delete_from("skill_usage_events", id),
            delete_from("rule_outcomes", id),
            delete_both_from("skill_dependencies", id),
            delete_from("skill_capabilities", id),
            delete_from("skill_feedback", id),
            delete_from("user_preferences", id),
            delete_from("skill_embeddings", id),
            delete_from("skill_origins", id),
            delete_from("resolved_skill_cache", id),
            delete_both_from("skill_dependency_graph", id),
            Statement::new("DELETE FROM skills WHERE id = ?").text(id),
        ];
        steps
    }
}

/// The tables under a foreign key that does not cascade, each with the table that it refers to.
pub open spec fn foreign_keys() -> Seq<(Seq<char>, Seq<char>)> {
    seq![
        ("skill_experiment_events"@, "skill_experiments"@),
        ("skill_experiments"@, "skills"@),
        ("skill_packs"@, "skills"@),
        ("skill_slices"@, "skills"@),
        ("skill_evidence"@, "skills"@),
        ("skill_rules"@, "skills"@),
        ("skill_usage"@, "skills"@),
        ("skill_usage_events"@, "skills"@),
        ("rule_outcomes"@, "skills"@),
        ("skill_dependencies"@, "skills"@),
        ("skill_capabilities"@, "skills"@),
        ("skill_feedback"@, "skills"@),
        ("user_preferences"@, "skills"@),
        ("skill_embeddings"@, "skills"@),
    ]
}

/// What refers is deleted before what it refers to: each table under a foreign key that
/// does not cascade is gone through, and the table that it refers to comes later.
pub proof fn children_go_before_parents(key: int)
    requires
        0 <= key < foreign_keys().len(),
    ensures
        exists|i: int, j: int|
            0 <= i < j < removal_order().len() && #[trigger] removal_order()[i]
                == foreign_keys()[key].0 && #[trigger] removal_order()[j] == foreign_keys()[key].1,
{
    let order = removal_order();
    assert(order[key] == foreign_keys()[key].0);
    if key == 0 {
        assert(order[1] == foreign_keys()[key].1);
    } else {
        assert(order[17] == foreign_keys()[key].1);
    }
}

/// The skill itself goes last, and nothing but its own id is bound anywhere.
pub proof fn skill_goes_last(id: Seq<char>, i: int)
    requires
        0 <= i < removal_order().len(),
    ensures
        removal_order().last() == "skills"@,
        removal_step(id, removal_order().len() - 1) == (StatementView {
            sql: "DELETE FROM skills WHERE id = ?"@,
            params: seq![ValueView::Text(id)],
        }),
        forall|k: int|
            0 <= k < removal_step(id, i).params.len() ==> #[trigger] removal_step(id, i).params[k]
                == ValueView::Text(id),
{
}

// ---------------------------------------------------------------------------------------------
// What is left
// ---------------------------------------------------------------------------------------------

/// A database: its tables by their names.
pub type DatabaseView = Map<Seq<char>, TableView>;

/// The rows of a table of a database; none where there is no such table.
pub open spec fn table_in(db: DatabaseView, name: Seq<char>) -> TableView {
    if db.dom().contains(name) {
        db[name]
    } else {
        Map::empty()
    }
}

/// A row holds the id of a skill in a column.
pub open spec fn refers(held: RowView, column: Seq<char>, id: Seq<char>) -> bool {
    table::in_column(held, column) == ValueView::Text(id)
}

/// A row is of an experiment with a skill.
pub open spec fn is_of_experiment(db: DatabaseView, held: RowView, id: Seq<char>) -> bool {
    let experiments = table_in(db, "skill_experiments"@);
    exists|key: Seq<ValueView>| #[trigger]
        experiments.dom().contains(key) && refers(experiments[key], "skill_id"@, id)
            && table::same_value(
            table::in_column(held, "experiment_id"@),
            table::in_column(experiments[key], "id"@),
        )
}

/// Which rows of the table of the `i`-th statement it deletes.
pub open spec fn step_deletes(db: DatabaseView, id: Seq<char>, i: int) -> spec_fn(RowView) -> bool {
    |held: RowView|
        if i == 0 {
            is_of_experiment(db, held, id)
        } else if i == 9 || i == 16 {
            refers(held, "skill_id"@, id) || refers(held, "depends_on"@, id)
        } else if i == 17 {
            refers(held, "id"@, id)
        } else {
            refers(held, "skill_id"@, id)
        }
}

/// A database after a statement deleted the rows of a table that meet a condition.
pub open spec fn deleted_from(
    db: DatabaseView,
    name: Seq<char>,
    gone: spec_fn(RowView) -> bool,
) -> DatabaseView {
    db.insert(name, table::deleted(table_in(db, name), gone))
}

/// A row of the skills has an id.
pub open spec fn has_skill(db: DatabaseView, id: Seq<char>) -> bool {
    let skills = table_in(db, "skills"@);
    exists|key: Seq<ValueView>| #[trigger]
        skills.dom().contains(key) && refers(skills[key], "id"@, id)
}

/// What the `i`-th statement asks for. Aliases are under the one foreign key that cascades: they go
/// with the skill that they stand for.
pub open spec fn step_done(db: DatabaseView, id: Seq<char>, i: int) -> DatabaseView {
    let after = deleted_from(db, removal_order()[i], step_deletes(db, id, i));
    if i == 17 && has_skill(db, id) {
        deleted_from(after, "skill_aliases"@, |held: RowView| refers(held, "skill_id"@, id))
    } else {
        after
    }
}

/// A database after the first `n` statements of the deletion of a skill.
pub open spec fn steps_done(db: DatabaseView, id: Seq<char>, n: nat) -> DatabaseView
    decreases n,
{
    if n == 0 {
        db
    } else {
        step_done(steps_done(db, id, (n - 1) as nat), id, n - 1)
    }
}

/// A database after a skill was deleted.
pub open spec fn skill_removed(db: DatabaseView, id: Seq<char>) -> DatabaseView {
    steps_done(db, id, removal_order().len())
}

/// Each alias stands for a skill that is there.
pub open spec fn aliases_have_skills(db: DatabaseView) -> bool {
    let aliases = table_in(db, "skill_aliases"@);
    forall|key: Seq<ValueView>, id: Seq<char>|
        #![trigger refers(aliases[key], "skill_id"@, id)]
        aliases.dom().contains(key) && refers(aliases[key], "skill_id"@, id) ==> has_skill(db, id)
}

/// The tables of the deletion, and that of the aliases, are told apart.
proof fn tables_differ()
    ensures
        removal_order().no_duplicates(),
        !removal_order().contains("skill_aliases"@),
{
    reveal_strlit("skill_experiment_events");
    reveal_strlit("skill_experiments");
    reveal_strlit("skill_packs");
    reveal_strlit("skill_slices");
    reveal_strlit("skill_evidence");
    reveal_strlit("skill_rules");
    reveal_strlit("skill_usage");
    reveal_strlit("skill_usage_events");
    reveal_strlit("rule_outcomes");
    reveal_strlit("skill_dependencies");
    reveal_strlit("skill_capabilities");
    reveal_strlit("skill_feedback");
    reveal_strlit("user_preferences");
    reveal_strlit("skill_embeddings");
    reveal_strlit("skill_origins");
    reveal_strlit("resolved_skill_cache");
    reveal_strlit("skill_dependency_graph");
    reveal_strlit("skills");
    reveal_strlit("skill_aliases");
    let names = removal_order().push("skill_aliases"@);
    let lengths = seq![
        23int,
        17int,
        11int,
        12int,
        14int,
        11int,
        11int,
        18int,
        13int,
        18int,
        18int,
        14int,
        16int,
        16int,
        13int,
        20int,
        22int,
        6int,
        13int,
    ];
    let letters = seq![
        'e',
        'e',
        'p',
        's',
        'e',
        'r',
        'u',
        'u',
        'u',
        'd',
        'c',
        'f',
        'r',
        'e',
        'o',
        'e',
        'd',
        '-',
        'a',
    ];
    assert(names[0].len() == lengths[0]);
    assert(names[0][6] == letters[0]);
    assert(names[1].len() == lengths[1]);
    assert(names[1][6] == letters[1]);
    assert(names[2].len() == lengths[2]);
    assert(names[2][6] == letters[2]);
    assert(names[3].len() == lengths[3]);
    assert(names[3][6] == letters[3]);
    assert(names[4].len() == lengths[4]);
    assert(names[4][6] == letters[4]);
    assert(names[5].len() == lengths[5]);
    assert(names[5][6] == letters[5]);
    assert(names[6].len() == lengths[6]);
    assert(names[6][6] == letters[6]);
    assert(names[7].len() == lengths[7]);
    assert(names[7][6] == letters[7]);
    assert(names[8].len() == lengths[8]);
    assert(names[8][6] == letters[8]);
    assert(names[9].len() == lengths[9]);
    assert(names[9][6] == letters[9]);
    assert(names[10].len() == lengths[10]);
    assert(names[10][6] == letters[10]);
    assert(names[11].len() == lengths[11]);
    assert(names[11][6] == letters[11]);
    assert(names[12].len() == lengths[12]);
    assert(names[12][6] == letters[12]);
    assert(names[13].len() == lengths[13]);
    assert(names[13][6] == letters[13]);
    assert(names[14].len() == lengths[14]);
    assert(names[14][6] == letters[14]);
    assert(names[15].len() == lengths[15]);
    assert(names[15][6] == letters[15]);
    assert(names[16].len() == lengths[16]);
    assert(names[16][6] == letters[16]);
    assert(names[17].len() == lengths[17]);
    assert(names[18].len() == lengths[18]);
    assert(names[18][6] == letters[18]);
    assert forall|i: int, j: int| 0 <= i < j < names.len() implies names[i] != names[j] by {
        assert(names[i].len() == lengths[i] && names[j].len() == lengths[j]);
        assert(i != 17 ==> names[i][6] == letters[i]);
        assert(j != 17 ==> names[j][6] == letters[j]);
    }
    assert forall|i: int, j: int|
        0 <= i < j < removal_order().len() implies removal_order()[i] != removal_order()[j] by {
        assert(names[i] == removal_order()[i] && names[j] == removal_order()[j]);
    }
    if removal_order().contains("skill_aliases"@) {
        let i = choose|i: int|
            0 <= i < removal_order().len() && removal_order()[i] == "skill_aliases"@;
        assert(names[i] == names[18]);
    }
}

/// What statements of the deletion leave in their tables: those that were run have deleted what they
/// were to, of what was there to begin with.
proof fn steps_leave(db: DatabaseView, id: Seq<char>, n: nat, k: int)
    requires
        n <= removal_order().len(),
        0 <= k < removal_order().len(),
    ensures
        table_in(steps_done(db, id, n), removal_order()[k]) == (if k < n {
            table::deleted(table_in(db, removal_order()[k]), step_deletes(db, id, k))
        } else {
            table_in(db, removal_order()[k])
        }),
    decreases n,
{
    tables_differ();
    if n > 0 {
        let before = steps_done(db, id, (n - 1) as nat);
        let i = n - 1;
        let name = removal_order()[k];
        steps_leave(db, id, (n - 1) as nat, k);
        assert(name != "skill_aliases"@) by {
            assert(removal_order().contains(name));
        }
        if k == i {
            let held = table_in(db, name);
            assert(table::deleted(held, step_deletes(before, id, k)) =~= table::deleted(
                held,
                step_deletes(db, id, k),
            )) by {
                assert forall|r: RowView| #[trigger]
                    step_deletes(before, id, k)(r) == step_deletes(db, id, k)(r) by {
                    if k == 0 {
                        assert(before == db);
                    }
                }
            }
        } else {
            assert(removal_order()[i] != name);
        }
    }
}

/// Statements of the deletion leave the tables that they do not go through as they are, but for the
/// aliases of a skill that is deleted.
proof fn steps_leave_others(db: DatabaseView, id: Seq<char>, n: nat, name: Seq<char>)
    requires
        n <= removal_order().len(),
        !removal_order().contains(name),
    ensures
        table_in(steps_done(db, id, n), name) == (if n == removal_order().len() && has_skill(db, id)
            && name == "skill_aliases"@ {
            table::deleted(table_in(db, name), |held: RowView| refers(held, "skill_id"@, id))
        } else {
            table_in(db, name)
        }),
    decreases n,
{
    if n > 0 {
        let before = steps_done(db, id, (n - 1) as nat);
        steps_leave_others(db, id, (n - 1) as nat, name);
        assert(removal_order().contains(removal_order()[n - 1]));
        if n == removal_order().len() {
            steps_leave(db, id, (n - 1) as nat, 17);
            assert(removal_order()[17] == "skills"@);
            assert(has_skill(before, id) == has_skill(db, id));
        }
    }
}

/// A table of which rows refer to a skill in a column, as the deletion knows it.
pub open spec fn refers_by(name: Seq<char>, column: Seq<char>) -> bool {
    ||| name == "skills"@ && column == "id"@
    ||| name == "skill_aliases"@ && column == "skill_id"@
    ||| (name == "skill_dependencies"@ || name == "skill_dependency_graph"@) && column
        == "depends_on"@
    ||| exists|k: int|
        1 <= k < removal_order().len() - 1 && #[trigger] removal_order()[k] == name && column
            == "skill_id"@
}

/// After a skill was deleted no row of any table is left that refers to it, nor any event of an
/// experiment with it. Tables in which nothing refers to a skill are as they were.
pub proof fn nothing_of_a_skill_is_left(
    db: DatabaseView,
    id: Seq<char>,
    name: Seq<char>,
    column: Seq<char>,
    key: Seq<ValueView>,
)
    requires
        aliases_have_skills(db),
    ensures
        ({
            let after = skill_removed(db, id);
            let left = table_in(after, name);
            &&& refers_by(name, column) && left.dom().contains(key) ==> !refers(
                left[key],
                column,
                id,
            )
            &&& name == "skill_experiment_events"@ && left.dom().contains(key)
                ==> !is_of_experiment(db, left[key], id)
            &&& !removal_order().contains(name) && name != "skill_aliases"@ ==> left == table_in(
                db,
                name,
            )
        }),
{
    let after = skill_removed(db, id);
    let left = table_in(after, name);
    let n = removal_order().len();
    tables_differ();
    if removal_order().contains(name) {
        let k = choose|k: int| 0 <= k < n && removal_order()[k] == name;
        steps_leave(db, id, n, k);
        assert(removal_order()[0] == "skill_experiment_events"@);
        assert(removal_order()[9] == "skill_dependencies"@);
        assert(removal_order()[16] == "skill_dependency_graph"@);
        assert(removal_order()[17] == "skills"@);
        if left.dom().contains(key) {
            assert(!step_deletes(db, id, k)(left[key]));
        }
    } else {
        steps_leave_others(db, id, n, name);
        if name == "skill_aliases"@ && left.dom().contains(key) {
            if refers(left[key], "skill_id"@, id) {
                let aliases = table_in(db, name);
                assert(refers(aliases[key], "skill_id"@, id));
                assert(has_skill(db, id));
            }
        }
        assert(removal_order().contains(removal_order()[9]));
        assert(removal_order().contains(removal_order()[16]));
        assert(removal_order().contains(removal_order()[17]));
    }
}

/// The deletion of a skill takes nothing from another: a row that refers to the other stays as it
/// is, unless it says that the other depends on the skill. Events of experiments with the other stay
/// too, where experiments stand under their ids.
pub proof fn other_skills_stay(
    db: DatabaseView,
    id: Seq<char>,
    other: Seq<char>,
    name: Seq<char>,
    key: Seq<ValueView>,
)
    requires
        other != id,
        table_in(db, name).dom().contains(key),
        name == "skills"@ ==> refers(table_in(db, name)[key], "id"@, other),
        name == "skill_experiment_events"@ ==> is_of_experiment(
            db,
            table_in(db, name)[key],
            other,
        ) && table::is_keyed(table_in(db, "skill_experiments"@), seq!["id"@]),
        name != "skills"@ && name != "skill_experiment_events"@ ==> refers(
            table_in(db, name)[key],
            "skill_id"@,
            other,
        ),
        name == "skill_dependencies"@ || name == "skill_dependency_graph"@ ==> !refers(
            table_in(db, name)[key],
            "depends_on"@,
            id,
        ),
    ensures
        ({
            let left = table_in(skill_removed(db, id), name);
            left.dom().contains(key) && left[key] == table_in(db, name)[key]
        }),
{
    let held = table_in(db, name)[key];
    let n = removal_order().len();
    tables_differ();
    if removal_order().contains(name) {
        let k = choose|k: int| 0 <= k < n && removal_order()[k] == name;
        steps_leave(db, id, n, k);
        assert(removal_order()[0] == "skill_experiment_events"@);
        assert(removal_order()[9] == "skill_dependencies"@);
        assert(removal_order()[16] == "skill_dependency_graph"@);
        assert(removal_order()[17] == "skills"@);
        if k == 0 && is_of_experiment(db, held, id) {
            let experiments = table_in(db, "skill_experiments"@);
            let a = choose|a: Seq<ValueView>| #[trigger]
                experiments.dom().contains(a) && refers(experiments[a], "skill_id"@, id)
                    && table::same_value(
                    table::in_column(held, "experiment_id"@),
                    table::in_column(experiments[a], "id"@),
                );
            let b = choose|b: Seq<ValueView>| #[trigger]
                experiments.dom().contains(b) && refers(experiments[b], "skill_id"@, other)
                    && table::same_value(
                    table::in_column(held, "experiment_id"@),
                    table::in_column(experiments[b], "id"@),
                );
            assert(table::picked(experiments[a], seq!["id"@]) == a);
            assert(table::picked(experiments[b], seq!["id"@]) == b);
            assert(table::picked(experiments[a], seq!["id"@]) =~= table::picked(
                experiments[b],
                seq!["id"@],
            ));
        }
        assert(!step_deletes(db, id, k)(held));
    } else {
        steps_leave_others(db, id, n, name);
    }
}

/// Deleting a skill that was deleted changes no table.
pub proof fn deleting_again_changes_nothing(db: DatabaseView, id: Seq<char>, name: Seq<char>)
    ensures
        table_in(skill_removed(skill_removed(db, id), id), name) == table_in(
            skill_removed(db, id),
            name,
        ),
{
    let after = skill_removed(db, id);
    let n = removal_order().len();
    tables_differ();
    assert(removal_order()[1] == "skill_experiments"@);
    assert(removal_order()[17] == "skills"@);
    steps_leave(db, id, n, 1);
    steps_leave(db, id, n, 17);
    assert(!has_skill(after, id)) by {
        let skills = table_in(after, "skills"@);
        assert forall|key: Seq<ValueView>| #[trigger] skills.dom().contains(key) implies !refers(
            skills[key],
            "id"@,
            id,
        ) by {
            assert(!step_deletes(db, id, 17)(skills[key]));
        }
    }
    if removal_order().contains(name) {
        let k = choose|k: int| 0 <= k < n && removal_order()[k] == name;
        let left = table_in(after, name);
        steps_leave(db, id, n, k);
        steps_leave(after, id, n, k);
        assert forall|key: Seq<ValueView>| #[trigger] left.dom().contains(key) implies !step_deletes(
            after,
            id,
            k,
        )(left[key]) by {
            assert(!step_deletes(db, id, k)(left[key]));
            if k == 0 {
                let experiments = table_in(after, "skill_experiments"@);
                assert forall|e: Seq<ValueView>| #[trigger]
                    experiments.dom().contains(e) implies !refers(
                    experiments[e],
                    "skill_id"@,
                    id,
                ) by {
                    assert(!step_deletes(db, id, 1)(experiments[e]));
                }
            }
        }
        assert(table::deleted(left, step_deletes(after, id, k)) =~= left);
    } else {
        steps_leave_others(after, id, n, name);
    }
}

/// Each table is gone through once, by the column in which it names skills: its own id in the table
/// of skills, the skill of the experiment for events, both sides where one skill depends on another,
/// and otherwise the skill that a row is of. The id is bound once for each column.
pub proof fn each_table_is_deleted_by_its_columns(id: Seq<char>, i: int)
    requires
        0 <= i < removal_order().len(),
    ensures
        ({
            let table = removal_order()[i];
            let step = removal_step(id, i);
            if table == "skills"@ {
                step.sql == "DELETE FROM skills WHERE id = ?"@ && step.params.len() == 1
            } else if table == "skill_experiment_events"@ {
                step.sql == DELETE_EXPERIMENT_EVENTS@ && step.params.len() == 1
            } else if table == "skill_dependencies"@ || table == "skill_dependency_graph"@ {
                step.sql == "DELETE FROM "@ + table + " WHERE skill_id = ? OR depends_on = ?"@
                    && step.params.len() == 2
            } else {
                step.sql == "DELETE FROM "@ + table + " WHERE skill_id = ?"@ && step.params.len()
                    == 1
            }
        }),
        removal_order().no_duplicates(),
{
    tables_differ();
    let order = removal_order();
    assert(order[0] == "skill_experiment_events"@);
    assert(order[9] == "skill_dependencies"@);
    assert(order[16] == "skill_dependency_graph"@);
    assert(order[17] == "skills"@);
    assert(i != 0 ==> order[i] != order[0]);
    assert(i != 9 ==> order[i] != order[9]);
    assert(i != 16 ==> order[i] != order[16]);
    assert(i != 17 ==> order[i] != order[17]);
}

} // verus!
