//! What the statements of the registry bind, told of the arguments of the functions that make them.

use crate::cass::client::FingerprintCache;
use crate::error::{ErrorView, MsError};
use crate::json;
use crate::storage::clock;
use crate::storage::embedding;
use crate::storage::embedding::EmbeddingRecord;
use crate::storage::quality::SessionQualityRecord;
use crate::storage::record::{
    ExperimentEventRecord, ExperimentRecord, QuarantineReview, SkillFeedbackRecord, SkillRecord,
    UserPreferenceRecord,
};
use crate::storage::removal;
use crate::storage::security::{CommandSafetyEvent, QuarantineRecord};
use crate::storage::sqlite;
use crate::storage::sqlite::{Database, SkillMetadata};
use crate::storage::statement;
use crate::storage::statement::{Real, Statement, ValueView};
use crate::storage::tx::{TxPhase, TxRecord};
use crate::text;
use vstd::prelude::*;

verus! {

/// What is asked of one thing, by its id or its name, binds that alone.
pub proof fn question_of_one_binds_it(one: &str, answer: Statement)
    requires
        call_ensures(Database::get_skill, (one,), answer)
            || call_ensures(Database::get_skills_by_name, (one,), answer)
            || call_ensures(Database::delete_pending_skill, (one,), answer)
            || call_ensures(Database::get_skill_candidate, (one,), answer)
            || call_ensures(Database::count_skill_usage, (one,), answer)
            || call_ensures(Database::count_skill_evidence, (one,), answer)
            || call_ensures(Database::count_skill_feedback, (one,), answer)
            || call_ensures(Database::get_skill_origin, (one,), answer)
            || call_ensures(Database::resolve_alias, (one,), answer)
            || call_ensures(Database::delete_alias, (one,), answer)
            || call_ensures(Database::get_aliases_for_skill, (one,), answer)
            || call_ensures(Database::list_quarantine_reviews, (one,), answer)
            || call_ensures(Database::delete_tx_record, (one,), answer)
            || call_ensures(Database::tx_exists, (one,), answer)
            || call_ensures(Database::delete_skill_evidence, (one,), answer)
            || call_ensures(Database::get_skill_preferences, (one,), answer)
            || call_ensures(Database::get_skill_experiment, (one,), answer)
            || call_ensures(Database::list_skill_experiment_events, (one,), answer)
            || call_ensures(Database::get_quarantine_record, (one,), answer)
            || call_ensures(Database::get_session_quality, (one,), answer)
            || call_ensures(Database::get_evidence, (one,), answer)
            || call_ensures(Database::get_embedding, (one,), answer)
            || call_ensures(FingerprintCache::is_new_or_changed, (one,), answer)
            || call_ensures(FingerprintCache::remove, (one,), answer),
    ensures
        answer@.params == seq![ValueView::Text(one@)],
{
}

/// What is asked of two texts binds both, in order.
pub proof fn question_of_two_binds_both(one: &str, two: &str, answer: Statement)
    requires
        call_ensures(Database::remove_user_preference, (one, two), answer)
            || call_ensures(Database::has_user_preference, (one, two), answer)
            || call_ensures(Database::get_rule_evidence, (one, two), answer)
            || call_ensures(FingerprintCache::update, (one, two), answer),
    ensures
        answer@.params == seq![ValueView::Text(one@), ValueView::Text(two@)],
{
}

/// What is asked of all binds nothing.
pub proof fn question_of_all_binds_nothing(answer: Statement)
    requires
        call_ensures(Database::integrity_check, (), answer)
            || call_ensures(Database::list_skill_origins, (), answer)
            || call_ensures(Database::list_all_evidence, (), answer)
            || call_ensures(Database::list_incomplete_transactions, (), answer)
            || call_ensures(Database::get_all_embeddings, (), answer)
            || call_ensures(FingerprintCache::open, (), answer)
            || call_ensures(FingerprintCache::clear, (), answer)
            || call_ensures(FingerprintCache::count, (), answer),
    ensures
        answer@.params.len() == 0,
{
}

/// A size as it is bound.
pub open spec fn bound_size(size: usize) -> ValueView {
    ValueView::Integer(size as i64)
}

/// An optional text as it is bound.
pub open spec fn bound_option(text: Option<&str>) -> ValueView {
    match text {
        Some(t) => ValueView::Text(t@),
        None => ValueView::Null,
    }
}

/// A page binds how many rows it has, and then how many are in front of it.
pub proof fn page_binds_its_size_and_place(limit: usize, offset: usize, answer: Statement)
    requires
        call_ensures(Database::list_skills, (limit, offset), answer)
            || call_ensures(Database::list_skill_feedback, (None, limit, offset), answer)
            || call_ensures(Database::list_skill_experiments, (None, limit, offset), answer),
    ensures
        answer@.params == seq![bound_size(limit), bound_size(offset)],
{
}

/// A page of what belongs to one thing binds that thing first.
pub proof fn page_of_one_binds_it_first(
    one: &str,
    limit: usize,
    offset: usize,
    answer: Statement,
)
    requires
        call_ensures(Database::list_user_preferences, (one, limit, offset), answer)
            || call_ensures(Database::list_skill_feedback, (Some(one), limit, offset), answer)
            || call_ensures(Database::list_skill_experiments, (Some(one), limit, offset), answer),
    ensures
        answer@.params == seq![ValueView::Text(one@), bound_size(limit), bound_size(offset)],
{
}

/// The last records of all bind how many they are, and those of one session bind the session first.
pub proof fn last_records_bind_how_many(session: &str, limit: usize, answer: Statement)
    ensures
        call_ensures(Database::list_quarantine_records, (limit,), answer) || call_ensures(
            Database::list_command_safety_events,
            (limit,),
            answer,
        ) ==> answer@.params == seq![bound_size(limit)],
        call_ensures(Database::list_quarantine_records_by_session, (session, limit), answer)
            ==> answer@.params == seq![ValueView::Text(session@), bound_size(limit)],
{
}

/// The aliases of one skill bind it, and those of all bind nothing.
pub proof fn aliases_bind_their_skill(skill: Option<&str>, answer: Statement)
    requires
        call_ensures(Database::list_aliases, (skill,), answer),
    ensures
        match skill {
            Some(id) => answer@.params == seq![ValueView::Text(id@)],
            None => answer@.params.len() == 0,
        },
{
}

/// An embedding is asked for by its content, who embedded it and its dimensions, in that order.
pub proof fn embedding_is_asked_for_by_its_content(
    content_hash: &str,
    embedder: &str,
    dims: usize,
    answer: Statement,
)
    requires
        call_ensures(Database::get_embedding_by_hash, (content_hash, embedder, dims), answer),
    ensures
        answer@.params == seq![
            ValueView::Text(content_hash@),
            ValueView::Text(embedder@),
            bound_size(dims),
        ],
{
}

/// What is set binds the new value first and then what it is set of.
pub proof fn setting_binds_the_value_first(
    id: &str,
    status: &str,
    phase: TxPhase,
    score: Real,
    deprecated: bool,
    reason: Option<&str>,
    answer: Statement,
)
    ensures
        call_ensures(Database::update_skill_experiment_status, (id, status), answer)
            ==> answer@.params == seq![ValueView::Text(status@), ValueView::Text(id@)],
        call_ensures(Database::update_tx_phase, (id, phase), answer) ==> answer@.params == seq![
            ValueView::Text(
                match phase {
                    TxPhase::Prepare => "prepare"@,
                    TxPhase::Pending => "pending"@,
                    TxPhase::Committed => "committed"@,
                    TxPhase::Complete => "complete"@,
                },
            ),
            ValueView::Text(id@),
        ],
        call_ensures(Database::update_skill_quality, (id, score), answer) ==> answer@.params
            == seq![
            match score {
                Real::Float(bits) => ValueView::Real(bits),
                Real::Integer(n) => ValueView::Integer(n),
            },
            ValueView::Text(id@),
        ],
        call_ensures(Database::update_skill_deprecation, (id, deprecated, reason), answer)
            ==> answer@.params == seq![
            ValueView::Integer(
                if deprecated {
                    1
                } else {
                    0
                },
            ),
            bound_option(reason),
            ValueView::Text(id@),
        ],
{
}

/// Completing a skill binds where it lies, its content hash, its body and then its id.
pub proof fn completion_binds_what_it_sets(
    id: &str,
    path: &str,
    content_hash: &str,
    body: &str,
    answer: Statement,
)
    requires
        call_ensures(Database::finalize_skill_commit, (id, path, content_hash, body), answer),
    ensures
        answer@.params == seq![
            ValueView::Text(path@),
            ValueView::Text(content_hash@),
            ValueView::Text(body@),
            ValueView::Text(id@),
        ],
{
}

/// An origin binds the skill, the path and the root, and an alias itself, the skill, its type and
/// its time.
pub proof fn origin_and_alias_bind_their_parts(
    a: &str,
    b: &str,
    c: &str,
    d: &str,
    answer: Statement,
)
    ensures
        call_ensures(Database::record_skill_origin, (a, b, c), answer) ==> answer@.params == seq![
            ValueView::Text(a@),
            ValueView::Text(b@),
            ValueView::Text(c@),
        ],
        call_ensures(Database::upsert_alias, (a, b, c, d), answer) ==> answer@.params == seq![
            ValueView::Text(a@),
            ValueView::Text(b@),
            ValueView::Text(c@),
            ValueView::Text(d@),
        ],
{
}

/// Evidence binds the skill, the rule, the places, the coverage and the time.
pub proof fn evidence_binds_its_parts(
    skill: &str,
    rule: &str,
    evidence: &str,
    coverage: &str,
    at: &str,
    answer: Statement,
)
    requires
        call_ensures(Database::upsert_evidence_at, (skill, rule, evidence, coverage, at), answer),
    ensures
        answer@.params == seq![
            ValueView::Text(skill@),
            ValueView::Text(rule@),
            ValueView::Text(evidence@),
            ValueView::Text(coverage@),
            ValueView::Text(at@),
        ],
{
}

/// A use of a skill binds the skill, the project, the time, the level, the keywords as a list, the
/// experiment and the variant.
pub proof fn use_binds_its_parts(
    at: &str,
    skill: &str,
    project: Option<&str>,
    level: u8,
    keywords: Option<&Vec<String>>,
    experiment: Option<&str>,
    variant: Option<&str>,
    answer: Statement,
)
    requires
        call_ensures(
            Database::skill_usage_at,
            (at, skill, project, level, keywords, experiment, variant),
            answer,
        ),
    ensures
        answer@.params == seq![
            ValueView::Text(skill@),
            bound_option(project),
            ValueView::Text(at@),
            ValueView::Integer(level as i64),
            match keywords {
                Some(list) => ValueView::Text(json::texts_written(text::texts(list@))),
                None => ValueView::Null,
            },
            bound_option(experiment),
            bound_option(variant),
        ],
{
}

/// An outcome marks the last use of its skill with one or zero, and is an event of the skill that
/// says whether it was a success.
pub proof fn outcome_binds_its_parts(
    id: &str,
    at: &str,
    skill: &str,
    success: bool,
    answer: (Statement, Statement),
)
    requires
        call_ensures(Database::skill_outcome_as, (id, at, skill, success), answer),
    ensures
        answer.0@.params == seq![
            ValueView::Integer(
                if success {
                    1
                } else {
                    0
                },
            ),
            ValueView::Text(skill@),
        ],
        answer.1@.params == seq![
            ValueView::Text(id@),
            ValueView::Text(skill@),
            ValueView::Text(at@),
            ValueView::Text(
                if success {
                    "success"@
                } else {
                    "failure"@
                },
            ),
        ],
{
}

/// A text is the given one, where one is given.
pub open spec fn is_given(held: Option<String>, given: Option<&str>) -> bool {
    match given {
        Some(t) => held matches Some(h) && h@ == t@,
        None => held is None,
    }
}

/// A review and feedback that are made have what was given, and an id and a time of their own.
pub proof fn made_review_and_feedback_have_what_was_given(
    a: &str,
    b: &str,
    words: Option<&str>,
    rating: Option<i64>,
    review: (Statement, QuarantineReview),
    feedback: (Statement, SkillFeedbackRecord),
)
    requires
        call_ensures(Database::insert_quarantine_review, (a, b, words), review),
        call_ensures(Database::record_skill_feedback, (a, b, rating, words), feedback),
    ensures
        review.1.quarantine_id@ == a@ && review.1.action@ == b@ && is_given(
            review.1.reason,
            words,
        ) && sqlite::is_clock_text(review.1.created_at@) && review.1.id@.len() == 39,
        feedback.1.skill_id@ == a@ && feedback.1.feedback_type@ == b@ && feedback.1.rating == rating
            && is_given(feedback.1.comment, words) && sqlite::is_clock_text(
            feedback.1.created_at@,
        ) && clock::is_random_id(feedback.1.id@),
{
    reveal_strlit("qr_");
}

/// A preference and an experiment that are made have what was given, and an id and a time of their
/// own.
pub proof fn made_preference_and_experiment_have_what_was_given(
    skill: &str,
    kind: &str,
    scope_id: Option<&str>,
    variants: &str,
    allocation: &str,
    status: &str,
    preference: (Statement, UserPreferenceRecord),
    experiment: (Statement, ExperimentRecord),
)
    requires
        call_ensures(Database::set_user_preference, (skill, kind), preference),
        call_ensures(
            Database::create_skill_experiment,
            (skill, kind, scope_id, variants, allocation, status),
            experiment,
        ),
    ensures
        preference.1.skill_id@ == skill@ && preference.1.preference_type@ == kind@
            && sqlite::is_clock_text(preference.1.created_at@) && clock::is_random_id(
            preference.1.id@,
        ),
        experiment.1.skill_id@ == skill@ && experiment.1.scope@ == kind@ && is_given(
            experiment.1.scope_id,
            scope_id,
        ) && experiment.1.variants_json@ == variants@ && experiment.1.allocation_json@
            == allocation@ && experiment.1.status@ == status@ && sqlite::is_clock_text(
            experiment.1.started_at@,
        ) && clock::is_random_id(experiment.1.id@),
{
}

/// An event of an experiment that is made has what was given, and an id and a time of its own.
pub proof fn made_event_has_what_was_given(
    experiment: &str,
    variant: &str,
    kind: &str,
    metrics: Option<&str>,
    context: Option<&str>,
    session: Option<&str>,
    event: (Statement, ExperimentEventRecord),
)
    requires
        call_ensures(
            Database::record_skill_experiment_event,
            (experiment, variant, kind, metrics, context, session),
            event,
        ),
    ensures
        event.1.experiment_id@ == experiment@ && event.1.variant_id@ == variant@
            && event.1.event_type@ == kind@,
        is_given(event.1.metrics_json, metrics) && is_given(event.1.context_json, context)
            && is_given(event.1.session_id, session),
        sqlite::is_clock_text(event.1.created_at@) && clock::is_random_id(event.1.id@),
{
}

/// An optional text as it is written.
pub open spec fn optional(text: Option<String>) -> ValueView {
    match text {
        Some(t) => ValueView::Text(t@),
        None => ValueView::Null,
    }
}

/// A number as it is written.
pub open spec fn number(number: Real) -> ValueView {
    match number {
        Real::Float(bits) => ValueView::Real(bits),
        Real::Integer(n) => ValueView::Integer(n),
    }
}

/// A truth value as it is written.
pub open spec fn flag(flag: bool) -> ValueView {
    ValueView::Integer(
        if flag {
            1
        } else {
            0
        },
    )
}

/// A skill is written with each of its fields, in the order of its columns.
pub proof fn skill_is_written_field_by_field(record: SkillRecord, answer: Statement)
    requires
        call_ensures(Database::upsert_skill, (&record,), answer),
    ensures
        answer@.params == seq![
            ValueView::Text(record.id@),
            ValueView::Text(record.name@),
            ValueView::Text(record.description@),
            optional(record.version),
            optional(record.author),
            ValueView::Text(record.source_path@),
            ValueView::Text(record.source_layer@),
            optional(record.git_remote),
            optional(record.git_commit),
            ValueView::Text(record.content_hash@),
            ValueView::Text(record.body@),
            ValueView::Text(record.metadata_json@),
            ValueView::Text(record.assets_json@),
            ValueView::Integer(record.token_count),
            number(record.quality_score),
            ValueView::Text(record.indexed_at@),
            ValueView::Text(record.modified_at@),
            flag(record.is_deprecated),
            optional(record.deprecation_reason),
        ],
{
}

/// A review is written with each of its fields, in the order of its columns.
pub proof fn review_is_written_field_by_field(record: QuarantineReview, answer: Statement)
    requires
        call_ensures(Database::write_review, (&record,), answer),
    ensures
        answer@.params == seq![
            ValueView::Text(record.id@),
            ValueView::Text(record.quarantine_id@),
            ValueView::Text(record.action@),
            optional(record.reason),
            ValueView::Text(record.created_at@),
        ],
{
}

/// Feedback is written with each of its fields, in the order of its columns.
pub proof fn feedback_is_written_field_by_field(record: SkillFeedbackRecord, answer: Statement)
    requires
        call_ensures(Database::write_feedback, (&record,), answer),
    ensures
        answer@.params == seq![
            ValueView::Text(record.id@),
            ValueView::Text(record.skill_id@),
            ValueView::Text(record.feedback_type@),
            match record.rating {
                Some(n) => ValueView::Integer(n),
                None => ValueView::Null,
            },
            optional(record.comment),
            ValueView::Text(record.created_at@),
        ],
{
}

/// A preference is written with each of its fields, in the order of its columns.
pub proof fn preference_is_written_field_by_field(record: UserPreferenceRecord, answer: Statement)
    requires
        call_ensures(Database::write_preference, (&record,), answer),
    ensures
        answer@.params == seq![
            ValueView::Text(record.id@),
            ValueView::Text(record.skill_id@),
            ValueView::Text(record.preference_type@),
            ValueView::Text(record.created_at@),
        ],
{
}

/// An experiment is written with each of its fields, in the order of its columns.
pub proof fn experiment_is_written_field_by_field(record: ExperimentRecord, answer: Statement)
    requires
        call_ensures(Database::write_experiment, (&record,), answer),
    ensures
        answer@.params == seq![
            ValueView::Text(record.id@),
            ValueView::Text(record.skill_id@),
            ValueView::Text(record.scope@),
            optional(record.scope_id),
            ValueView::Text(record.variants_json@),
            ValueView::Text(record.allocation_json@),
            ValueView::Text(record.status@),
            ValueView::Text(record.started_at@),
        ],
{
}

/// An event of an experiment is written with each of its fields, in the order of its columns.
pub proof fn experiment_event_is_written_field_by_field(record: ExperimentEventRecord, answer: Statement)
    requires
        call_ensures(Database::write_experiment_event, (&record,), answer),
    ensures
        answer@.params == seq![
            ValueView::Text(record.id@),
            ValueView::Text(record.experiment_id@),
            ValueView::Text(record.variant_id@),
            ValueView::Text(record.event_type@),
            optional(record.metrics_json),
            optional(record.context_json),
            optional(record.session_id),
            ValueView::Text(record.created_at@),
        ],
{
}

/// A skill is written before its commit with what it is described by.
pub proof fn pending_skill_is_written_field_by_field(
    skill: SkillMetadata,
    layer: &str,
    metadata: &str,
    tokens: i64,
    answer: Statement,
)
    requires
        call_ensures(Database::upsert_skill_pending, (&skill, layer, metadata, tokens), answer),
    ensures
        answer@.params == seq![
            ValueView::Text(skill.id@),
            ValueView::Text(skill.name@),
            ValueView::Text(skill.description@),
            optional(skill.version),
            optional(skill.author),
            ValueView::Text(layer@),
            ValueView::Text(metadata@),
            ValueView::Integer(tokens),
        ],
{
}

/// The quality of a session is written with each of its fields, its lists as texts.
pub proof fn quality_is_written_field_by_field(record: SessionQualityRecord, answer: Statement)
    requires
        call_ensures(Database::upsert_session_quality, (&record,), answer),
    ensures
        answer@.params == seq![
            ValueView::Text(record.session_id@),
            ValueView::Text(record.content_hash@),
            number(record.score),
            ValueView::Text(json::texts_written(text::texts(record.signals@))),
            ValueView::Text(json::texts_written(text::texts(record.missing@))),
            ValueView::Text(record.computed_at@),
        ],
{
}

/// A transaction is written with each of its fields, its phase by its name and its time as text.
pub proof fn transaction_is_written_field_by_field(record: TxRecord, answer: Statement)
    requires
        record.created_at.valid(),
        call_ensures(Database::insert_tx_record, (&record,), answer),
    ensures
        answer@.params == seq![
            ValueView::Text(record.id@),
            ValueView::Text(record.entity_type@),
            ValueView::Text(record.entity_id@),
            ValueView::Text(
                match record.phase {
                    TxPhase::Prepare => "prepare"@,
                    TxPhase::Pending => "pending"@,
                    TxPhase::Committed => "committed"@,
                    TxPhase::Complete => "complete"@,
                },
            ),
            ValueView::Text(record.payload_json@),
            ValueView::Text(
                clock::rfc3339_text(record.created_at.seconds, record.created_at.nanos),
            ),
        ],
{
}

/// Something in quarantine is written with each of its fields.
pub proof fn quarantine_is_written_field_by_field(record: QuarantineRecord, answer: Statement)
    requires
        call_ensures(Database::insert_quarantine_record, (&record,), answer),
    ensures
        answer@.params == seq![
            ValueView::Text(record.quarantine_id@),
            ValueView::Text(record.session_id@),
            bound_size(record.message_index),
            ValueView::Text(record.content_hash@),
            ValueView::Text(record.safe_excerpt@),
            ValueView::Text(record.acip_classification@),
            optional(record.audit_tag),
            ValueView::Text(record.created_at@),
            ValueView::Text(record.replay_command@),
        ],
{
}

/// A judgement is written with each of its fields.
pub proof fn judgement_is_written_field_by_field(event: CommandSafetyEvent, answer: Statement)
    requires
        call_ensures(Database::insert_command_safety_event, (&event,), answer),
    ensures
        answer@.params == seq![
            optional(event.session_id),
            ValueView::Text(event.command@),
            optional(event.dcg_version),
            optional(event.dcg_pack),
            ValueView::Text(event.decision@),
            ValueView::Text(event.created_at@),
        ],
{
}

/// An embedding is written just where it has as many numbers as it says, with each of its fields: two
/// bytes for each number, the lower first, and the given time where it says none of its own.
pub proof fn embedding_is_written_field_by_field(
    record: EmbeddingRecord,
    now: &str,
    answer: Result<Statement, MsError>,
)
    requires
        call_ensures(Database::upsert_embedding_at, (&record, now), answer),
    ensures
        ({
            let at = if record.computed_at@.len() == 0 {
                now@
            } else {
                record.computed_at@
            };
            if record.embedding@.len() == record.dims {
                &&& answer matches Ok(s)
                &&& s@.params.len() == 7
                &&& s@.params[0] == ValueView::Text(record.skill_id@)
                &&& s@.params[1] matches ValueView::Blob(bytes) && {
                    &&& bytes.len() == 2 * record.embedding@.len()
                    &&& forall|i: int|
                        0 <= i < record.embedding@.len() ==> bytes[2 * i] as int + 256 * bytes[2 * i
                            + 1] as int == #[trigger] record.embedding@[i]
                }
                &&& s@.params[2] == bound_size(record.dims)
                &&& s@.params[3] == ValueView::Text(record.embedder_type@)
                &&& s@.params[4] == optional(record.content_hash)
                &&& s@.params[5] == ValueView::Text(at)
            } else {
                answer matches Err(e) && e@ == ErrorView::Serialization(
                    "embedding dims mismatch: expected "@ + text::decimal(record.dims as nat)
                        + ", got "@ + text::decimal(record.embedding@.len()),
                )
            }
        }),
{
    if record.embedding@.len() == record.dims {
        let bytes = embedding::blob_bytes(record.embedding@);
        assert forall|i: int| 0 <= i < record.embedding@.len() implies bytes[2 * i] as int + 256
            * bytes[2 * i + 1] as int == #[trigger] record.embedding@[i] by {
            let n = record.embedding@[i];
            assert((2 * i) / 2 == i && (2 * i + 1) / 2 == i);
            assert((2 * i) % 2 == 0 && (2 * i + 1) % 2 == 1);
            assert(n % 256 + 256 * (n / 256) == n);
        }
    } else {
        embedding::wrong_dimensions_are_worded(record@);
    }
}

/// The deletion of a skill is 18 statements, each of which binds its id, and nothing else.
pub proof fn deletion_binds_the_skill(id: &str, answer: Vec<Statement>, i: int, k: int)
    requires
        call_ensures(Database::delete_skill, (id,), answer),
        0 <= i < 18,
    ensures
        answer@.len() == 18,
        answer@[i]@ == removal::removal_step(id@, i),
        answer@[i]@.params.len() >= 1,
        0 <= k < answer@[i]@.params.len() ==> answer@[i]@.params[k] == ValueView::Text(id@),
{
    let all = statement::statements(answer@);
    assert(all.len() == removal::removal_order().len());
    assert(all[i] == removal::removal_step(id@, i));
    assert(all[i] == answer@[i]@);
    removal::skill_goes_last(id@, i);
}

} // verus!
