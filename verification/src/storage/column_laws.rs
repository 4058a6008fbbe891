//! The records of the registry, column by column.

use crate::storage::embedding::{EmbeddingBlobRow, EmbeddingRawRow};
use crate::storage::evidence::{EvidenceRow, RuleEvidenceRow, StoredEvidence};
use crate::storage::quality::QualityRow;
use crate::storage::record::{
    AliasRecord, AliasResolution, ExperimentEventRecord, ExperimentRecord, OriginPlace,
    QuarantineReview, SearchRow, SkillFeedbackRecord, SkillOriginRecord, SkillRecord,
    SkillSearchCandidate, UserPreferenceRecord,
};
use crate::storage::row;
use crate::storage::row::{Columns, FromRow, Kind, RowErrorView};
use crate::storage::security::{CommandSafetyRawRow, QuarantineRow};
use crate::storage::statement::{Real, ValueView};
use crate::storage::table;
use crate::storage::table::RowView;
use crate::storage::tx::TxRow;
use vstd::prelude::*;

verus! {

/// A skill is read just of a row with each of its fields in the column of that name.
pub proof fn skill_is_what_its_columns_hold(held: RowView, record: SkillRecord)
    ensures
        row::is_read::<SkillRecord>(
            table::picked(held, SkillRecord::names()),
            Ok::<SkillRecord, RowErrorView>(record),
        ) <==> {
            &&& table::in_column(held, "id"@) == ValueView::Text(record.id@)
            &&& table::in_column(held, "name"@) == ValueView::Text(record.name@)
            &&& table::in_column(held, "description"@) == ValueView::Text(record.description@)
            &&& match record.version {
                Some(t) => table::in_column(held, "version"@) == ValueView::Text(t@),
                None => table::in_column(held, "version"@) == ValueView::Null,
            }
            &&& match record.author {
                Some(t) => table::in_column(held, "author"@) == ValueView::Text(t@),
                None => table::in_column(held, "author"@) == ValueView::Null,
            }
            &&& table::in_column(held, "source_path"@) == ValueView::Text(record.source_path@)
            &&& table::in_column(held, "source_layer"@) == ValueView::Text(record.source_layer@)
            &&& match record.git_remote {
                Some(t) => table::in_column(held, "git_remote"@) == ValueView::Text(t@),
                None => table::in_column(held, "git_remote"@) == ValueView::Null,
            }
            &&& match record.git_commit {
                Some(t) => table::in_column(held, "git_commit"@) == ValueView::Text(t@),
                None => table::in_column(held, "git_commit"@) == ValueView::Null,
            }
            &&& table::in_column(held, "content_hash"@) == ValueView::Text(record.content_hash@)
            &&& table::in_column(held, "body"@) == ValueView::Text(record.body@)
            &&& table::in_column(held, "metadata_json"@) == ValueView::Text(record.metadata_json@)
            &&& table::in_column(held, "assets_json"@) == ValueView::Text(record.assets_json@)
            &&& table::in_column(held, "token_count"@) == ValueView::Integer(record.token_count)
            &&& match record.quality_score {
                Real::Float(bits) => table::in_column(held, "quality_score"@) == ValueView::Real(bits),
                Real::Integer(n) => table::in_column(held, "quality_score"@) == ValueView::Integer(n),
            }
            &&& table::in_column(held, "indexed_at"@) == ValueView::Text(record.indexed_at@)
            &&& table::in_column(held, "modified_at"@) == ValueView::Text(record.modified_at@)
            &&& (table::in_column(held, "is_deprecated"@) matches ValueView::Integer(n)
                && record.is_deprecated == (n != 0))
            &&& match record.deprecation_reason {
                Some(t) => table::in_column(held, "deprecation_reason"@) == ValueView::Text(t@),
                None => table::in_column(held, "deprecation_reason"@) == ValueView::Null,
            }
        },
{
    let row = table::picked(held, SkillRecord::names());
    let kinds = SkillRecord::columns();
    assert(row::column_problem(row, 0, kinds[0]) == row::value_problem(
        table::in_column(held, "id"@),
        Kind::Text,
    ));
    assert(row::column_problem(row, 1, kinds[1]) == row::value_problem(
        table::in_column(held, "name"@),
        Kind::Text,
    ));
    assert(row::column_problem(row, 2, kinds[2]) == row::value_problem(
        table::in_column(held, "description"@),
        Kind::Text,
    ));
    assert(row::column_problem(row, 3, kinds[3]) == row::value_problem(
        table::in_column(held, "version"@),
        Kind::OptText,
    ));
    assert(row::column_problem(row, 4, kinds[4]) == row::value_problem(
        table::in_column(held, "author"@),
        Kind::OptText,
    ));
    assert(row::column_problem(row, 5, kinds[5]) == row::value_problem(
        table::in_column(held, "source_path"@),
        Kind::Text,
    ));
    assert(row::column_problem(row, 6, kinds[6]) == row::value_problem(
        table::in_column(held, "source_layer"@),
        Kind::Text,
    ));
    assert(row::column_problem(row, 7, kinds[7]) == row::value_problem(
        table::in_column(held, "git_remote"@),
        Kind::OptText,
    ));
    assert(row::column_problem(row, 8, kinds[8]) == row::value_problem(
        table::in_column(held, "git_commit"@),
        Kind::OptText,
    ));
    assert(row::column_problem(row, 9, kinds[9]) == row::value_problem(
        table::in_column(held, "content_hash"@),
        Kind::Text,
    ));
    assert(row::column_problem(row, 10, kinds[10]) == row::value_problem(
        table::in_column(held, "body"@),
        Kind::Text,
    ));
    assert(row::column_problem(row, 11, kinds[11]) == row::value_problem(
        table::in_column(held, "metadata_json"@),
        Kind::Text,
    ));
    assert(row::column_problem(row, 12, kinds[12]) == row::value_problem(
        table::in_column(held, "assets_json"@),
        Kind::Text,
    ));
    assert(row::column_problem(row, 13, kinds[13]) == row::value_problem(
        table::in_column(held, "token_count"@),
        Kind::Integer,
    ));
    assert(row::column_problem(row, 14, kinds[14]) == row::value_problem(
        table::in_column(held, "quality_score"@),
        Kind::Real,
    ));
    assert(row::column_problem(row, 15, kinds[15]) == row::value_problem(
        table::in_column(held, "indexed_at"@),
        Kind::Text,
    ));
    assert(row::column_problem(row, 16, kinds[16]) == row::value_problem(
        table::in_column(held, "modified_at"@),
        Kind::Text,
    ));
    assert(row::column_problem(row, 17, kinds[17]) == row::value_problem(
        table::in_column(held, "is_deprecated"@),
        Kind::Integer,
    ));
    assert(row::column_problem(row, 18, kinds[18]) == row::value_problem(
        table::in_column(held, "deprecation_reason"@),
        Kind::OptText,
    ));
}

/// A listed origin is read just of a row with each of its fields in the column of that name.
pub proof fn listed_origin_is_what_its_columns_hold(held: RowView, record: SkillOriginRecord)
    ensures
        row::is_read::<SkillOriginRecord>(
            table::picked(held, SkillOriginRecord::names()),
            Ok::<SkillOriginRecord, RowErrorView>(record),
        ) <==> {
            &&& table::in_column(held, "o.skill_id"@) == ValueView::Text(record.skill_id@)
            &&& table::in_column(held, "s.name"@) == ValueView::Text(record.skill_name@)
            &&& table::in_column(held, "o.origin_path"@) == ValueView::Text(record.origin_path@)
            &&& table::in_column(held, "o.origin_root"@) == ValueView::Text(record.origin_root@)
            &&& table::in_column(held, "o.recorded_at"@) == ValueView::Text(record.recorded_at@)
        },
{
    let row = table::picked(held, SkillOriginRecord::names());
    let kinds = SkillOriginRecord::columns();
    assert(row::column_problem(row, 0, kinds[0]) == row::value_problem(
        table::in_column(held, "o.skill_id"@),
        Kind::Text,
    ));
    assert(row::column_problem(row, 1, kinds[1]) == row::value_problem(
        table::in_column(held, "s.name"@),
        Kind::Text,
    ));
    assert(row::column_problem(row, 2, kinds[2]) == row::value_problem(
        table::in_column(held, "o.origin_path"@),
        Kind::Text,
    ));
    assert(row::column_problem(row, 3, kinds[3]) == row::value_problem(
        table::in_column(held, "o.origin_root"@),
        Kind::Text,
    ));
    assert(row::column_problem(row, 4, kinds[4]) == row::value_problem(
        table::in_column(held, "o.recorded_at"@),
        Kind::Text,
    ));
}

/// An origin is read just of a row with each of its fields in the column of that name.
pub proof fn origin_is_what_its_columns_hold(held: RowView, record: OriginPlace)
    ensures
        row::is_read::<OriginPlace>(
            table::picked(held, OriginPlace::names()),
            Ok::<OriginPlace, RowErrorView>(record),
        ) <==> {
            &&& table::in_column(held, "origin_path"@) == ValueView::Text(record.origin_path@)
            &&& table::in_column(held, "origin_root"@) == ValueView::Text(record.origin_root@)
        },
{
    let row = table::picked(held, OriginPlace::names());
    let kinds = OriginPlace::columns();
    assert(row::column_problem(row, 0, kinds[0]) == row::value_problem(
        table::in_column(held, "origin_path"@),
        Kind::Text,
    ));
    assert(row::column_problem(row, 1, kinds[1]) == row::value_problem(
        table::in_column(held, "origin_root"@),
        Kind::Text,
    ));
}

/// A candidate of a search is read just of a row with each of its fields in the column of that name.
pub proof fn candidate_is_what_its_columns_hold(held: RowView, record: SkillSearchCandidate)
    ensures
        row::is_read::<SkillSearchCandidate>(
            table::picked(held, SkillSearchCandidate::names()),
            Ok::<SkillSearchCandidate, RowErrorView>(record),
        ) <==> {
            &&& table::in_column(held, "id"@) == ValueView::Text(record.id@)
            &&& table::in_column(held, "source_layer"@) == ValueView::Text(record.source_layer@)
            &&& table::in_column(held, "metadata_json"@) == ValueView::Text(record.metadata_json@)
            &&& match record.quality_score {
                Real::Float(bits) => table::in_column(held, "quality_score"@) == ValueView::Real(bits),
                Real::Integer(n) => table::in_column(held, "quality_score"@) == ValueView::Integer(n),
            }
            &&& (table::in_column(held, "is_deprecated"@) matches ValueView::Integer(n)
                && record.is_deprecated == (n != 0))
        },
{
    let row = table::picked(held, SkillSearchCandidate::names());
    let kinds = SkillSearchCandidate::columns();
    assert(row::column_problem(row, 0, kinds[0]) == row::value_problem(
        table::in_column(held, "id"@),
        Kind::Text,
    ));
    assert(row::column_problem(row, 1, kinds[1]) == row::value_problem(
        table::in_column(held, "source_layer"@),
        Kind::Text,
    ));
    assert(row::column_problem(row, 2, kinds[2]) == row::value_problem(
        table::in_column(held, "metadata_json"@),
        Kind::Text,
    ));
    assert(row::column_problem(row, 3, kinds[3]) == row::value_problem(
        table::in_column(held, "quality_score"@),
        Kind::Real,
    ));
    assert(row::column_problem(row, 4, kinds[4]) == row::value_problem(
        table::in_column(held, "is_deprecated"@),
        Kind::Integer,
    ));
}

/// A skill that is searched is read just of a row with each of its fields in the column of that name.
pub proof fn searched_skill_is_what_its_columns_hold(held: RowView, record: SearchRow)
    ensures
        row::is_read::<SearchRow>(
            table::picked(held, SearchRow::names()),
            Ok::<SearchRow, RowErrorView>(record),
        ) <==> {
            &&& table::in_column(held, "id"@) == ValueView::Text(record.id@)
            &&& table::in_column(held, "source_layer"@) == ValueView::Text(record.source_layer@)
            &&& table::in_column(held, "metadata_json"@) == ValueView::Text(record.metadata_json@)
            &&& match record.quality_score {
                Real::Float(bits) => table::in_column(held, "quality_score"@) == ValueView::Real(bits),
                Real::Integer(n) => table::in_column(held, "quality_score"@) == ValueView::Integer(n),
            }
            &&& (table::in_column(held, "is_deprecated"@) matches ValueView::Integer(n)
                && record.is_deprecated == (n != 0))
            &&& table::in_column(held, "name"@) == ValueView::Text(record.name@)
            &&& table::in_column(held, "description"@) == ValueView::Text(record.description@)
            &&& table::in_column(held, "body"@) == ValueView::Text(record.body@)
        },
{
    let row = table::picked(held, SearchRow::names());
    let kinds = SearchRow::columns();
    assert(row::column_problem(row, 0, kinds[0]) == row::value_problem(
        table::in_column(held, "id"@),
        Kind::Text,
    ));
    assert(row::column_problem(row, 1, kinds[1]) == row::value_problem(
        table::in_column(held, "source_layer"@),
        Kind::Text,
    ));
    assert(row::column_problem(row, 2, kinds[2]) == row::value_problem(
        table::in_column(held, "metadata_json"@),
        Kind::Text,
    ));
    assert(row::column_problem(row, 3, kinds[3]) == row::value_problem(
        table::in_column(held, "quality_score"@),
        Kind::Real,
    ));
    assert(row::column_problem(row, 4, kinds[4]) == row::value_problem(
        table::in_column(held, "is_deprecated"@),
        Kind::Integer,
    ));
    assert(row::column_problem(row, 5, kinds[5]) == row::value_problem(
        table::in_column(held, "name"@),
        Kind::Text,
    ));
    assert(row::column_problem(row, 6, kinds[6]) == row::value_problem(
        table::in_column(held, "description"@),
        Kind::Text,
    ));
    assert(row::column_problem(row, 7, kinds[7]) == row::value_problem(
        table::in_column(held, "body"@),
        Kind::Text,
    ));
}

/// What an alias stands for is read just of a row with each of its fields in the column of that name.
pub proof fn resolution_is_what_its_columns_hold(held: RowView, record: AliasResolution)
    ensures
        row::is_read::<AliasResolution>(
            table::picked(held, AliasResolution::names()),
            Ok::<AliasResolution, RowErrorView>(record),
        ) <==> {
            &&& table::in_column(held, "skill_id"@) == ValueView::Text(record.canonical_id@)
            &&& table::in_column(held, "alias_type"@) == ValueView::Text(record.alias_type@)
        },
{
    let row = table::picked(held, AliasResolution::names());
    let kinds = AliasResolution::columns();
    assert(row::column_problem(row, 0, kinds[0]) == row::value_problem(
        table::in_column(held, "skill_id"@),
        Kind::Text,
    ));
    assert(row::column_problem(row, 1, kinds[1]) == row::value_problem(
        table::in_column(held, "alias_type"@),
        Kind::Text,
    ));
}

/// An alias is read just of a row with each of its fields in the column of that name.
pub proof fn alias_is_what_its_columns_hold(held: RowView, record: AliasRecord)
    ensures
        row::is_read::<AliasRecord>(
            table::picked(held, AliasRecord::names()),
            Ok::<AliasRecord, RowErrorView>(record),
        ) <==> {
            &&& table::in_column(held, "alias"@) == ValueView::Text(record.alias@)
            &&& table::in_column(held, "skill_id"@) == ValueView::Text(record.skill_id@)
            &&& table::in_column(held, "alias_type"@) == ValueView::Text(record.alias_type@)
            &&& table::in_column(held, "created_at"@) == ValueView::Text(record.created_at@)
        },
{
    let row = table::picked(held, AliasRecord::names());
    let kinds = AliasRecord::columns();
    assert(row::column_problem(row, 0, kinds[0]) == row::value_problem(
        table::in_column(held, "alias"@),
        Kind::Text,
    ));
    assert(row::column_problem(row, 1, kinds[1]) == row::value_problem(
        table::in_column(held, "skill_id"@),
        Kind::Text,
    ));
    assert(row::column_problem(row, 2, kinds[2]) == row::value_problem(
        table::in_column(held, "alias_type"@),
        Kind::Text,
    ));
    assert(row::column_problem(row, 3, kinds[3]) == row::value_problem(
        table::in_column(held, "created_at"@),
        Kind::Text,
    ));
}

/// A review is read just of a row with each of its fields in the column of that name.
pub proof fn quarantine_review_is_what_its_columns_hold(held: RowView, record: QuarantineReview)
    ensures
        row::is_read::<QuarantineReview>(
            table::picked(held, QuarantineReview::names()),
            Ok::<QuarantineReview, RowErrorView>(record),
        ) <==> {
            &&& table::in_column(held, "id"@) == ValueView::Text(record.id@)
            &&& table::in_column(held, "quarantine_id"@) == ValueView::Text(record.quarantine_id@)
            &&& table::in_column(held, "action"@) == ValueView::Text(record.action@)
            &&& match record.reason {
                Some(t) => table::in_column(held, "reason"@) == ValueView::Text(t@),
                None => table::in_column(held, "reason"@) == ValueView::Null,
            }
            &&& table::in_column(held, "created_at"@) == ValueView::Text(record.created_at@)
        },
{
    let row = table::picked(held, QuarantineReview::names());
    let kinds = QuarantineReview::columns();
    assert(row::column_problem(row, 0, kinds[0]) == row::value_problem(
        table::in_column(held, "id"@),
        Kind::Text,
    ));
    assert(row::column_problem(row, 1, kinds[1]) == row::value_problem(
        table::in_column(held, "quarantine_id"@),
        Kind::Text,
    ));
    assert(row::column_problem(row, 2, kinds[2]) == row::value_problem(
        table::in_column(held, "action"@),
        Kind::Text,
    ));
    assert(row::column_problem(row, 3, kinds[3]) == row::value_problem(
        table::in_column(held, "reason"@),
        Kind::OptText,
    ));
    assert(row::column_problem(row, 4, kinds[4]) == row::value_problem(
        table::in_column(held, "created_at"@),
        Kind::Text,
    ));
}

/// Feedback is read just of a row with each of its fields in the column of that name.
pub proof fn feedback_is_what_its_columns_hold(held: RowView, record: SkillFeedbackRecord)
    ensures
        row::is_read::<SkillFeedbackRecord>(
            table::picked(held, SkillFeedbackRecord::names()),
            Ok::<SkillFeedbackRecord, RowErrorView>(record),
        ) <==> {
            &&& table::in_column(held, "id"@) == ValueView::Text(record.id@)
            &&& table::in_column(held, "skill_id"@) == ValueView::Text(record.skill_id@)
            &&& table::in_column(held, "feedback_type"@) == ValueView::Text(record.feedback_type@)
            &&& match record.rating {
                Some(n) => table::in_column(held, "rating"@) == ValueView::Integer(n),
                None => table::in_column(held, "rating"@) == ValueView::Null,
            }
            &&& match record.comment {
                Some(t) => table::in_column(held, "comment"@) == ValueView::Text(t@),
                None => table::in_column(held, "comment"@) == ValueView::Null,
            }
            &&& table::in_column(held, "created_at"@) == ValueView::Text(record.created_at@)
        },
{
    let row = table::picked(held, SkillFeedbackRecord::names());
    let kinds = SkillFeedbackRecord::columns();
    assert(row::column_problem(row, 0, kinds[0]) == row::value_problem(
        table::in_column(held, "id"@),
        Kind::Text,
    ));
    assert(row::column_problem(row, 1, kinds[1]) == row::value_problem(
        table::in_column(held, "skill_id"@),
        Kind::Text,
    ));
    assert(row::column_problem(row, 2, kinds[2]) == row::value_problem(
        table::in_column(held, "feedback_type"@),
        Kind::Text,
    ));
    assert(row::column_problem(row, 3, kinds[3]) == row::value_problem(
        table::in_column(held, "rating"@),
        Kind::OptInteger,
    ));
    assert(row::column_problem(row, 4, kinds[4]) == row::value_problem(
        table::in_column(held, "comment"@),
        Kind::OptText,
    ));
    assert(row::column_problem(row, 5, kinds[5]) == row::value_problem(
        table::in_column(held, "created_at"@),
        Kind::Text,
    ));
}

/// A preference is read just of a row with each of its fields in the column of that name.
pub proof fn preference_is_what_its_columns_hold(held: RowView, record: UserPreferenceRecord)
    ensures
        row::is_read::<UserPreferenceRecord>(
            table::picked(held, UserPreferenceRecord::names()),
            Ok::<UserPreferenceRecord, RowErrorView>(record),
        ) <==> {
            &&& table::in_column(held, "id"@) == ValueView::Text(record.id@)
            &&& table::in_column(held, "skill_id"@) == ValueView::Text(record.skill_id@)
            &&& table::in_column(held, "preference_type"@) == ValueView::Text(record.preference_type@)
            &&& table::in_column(held, "created_at"@) == ValueView::Text(record.created_at@)
        },
{
    let row = table::picked(held, UserPreferenceRecord::names());
    let kinds = UserPreferenceRecord::columns();
    assert(row::column_problem(row, 0, kinds[0]) == row::value_problem(
        table::in_column(held, "id"@),
        Kind::Text,
    ));
    assert(row::column_problem(row, 1, kinds[1]) == row::value_problem(
        table::in_column(held, "skill_id"@),
        Kind::Text,
    ));
    assert(row::column_problem(row, 2, kinds[2]) == row::value_problem(
        table::in_column(held, "preference_type"@),
        Kind::Text,
    ));
    assert(row::column_problem(row, 3, kinds[3]) == row::value_problem(
        table::in_column(held, "created_at"@),
        Kind::Text,
    ));
}

/// An experiment is read just of a row with each of its fields in the column of that name.
pub proof fn experiment_is_what_its_columns_hold(held: RowView, record: ExperimentRecord)
    ensures
        row::is_read::<ExperimentRecord>(
            table::picked(held, ExperimentRecord::names()),
            Ok::<ExperimentRecord, RowErrorView>(record),
        ) <==> {
            &&& table::in_column(held, "id"@) == ValueView::Text(record.id@)
            &&& table::in_column(held, "skill_id"@) == ValueView::Text(record.skill_id@)
            &&& table::in_column(held, "scope"@) == ValueView::Text(record.scope@)
            &&& match record.scope_id {
                Some(t) => table::in_column(held, "scope_id"@) == ValueView::Text(t@),
                None => table::in_column(held, "scope_id"@) == ValueView::Null,
            }
            &&& table::in_column(held, "variants_json"@) == ValueView::Text(record.variants_json@)
            &&& table::in_column(held, "allocation_json"@) == ValueView::Text(record.allocation_json@)
            &&& table::in_column(held, "status"@) == ValueView::Text(record.status@)
            &&& table::in_column(held, "started_at"@) == ValueView::Text(record.started_at@)
        },
{
    let row = table::picked(held, ExperimentRecord::names());
    let kinds = ExperimentRecord::columns();
    assert(row::column_problem(row, 0, kinds[0]) == row::value_problem(
        table::in_column(held, "id"@),
        Kind::Text,
    ));
    assert(row::column_problem(row, 1, kinds[1]) == row::value_problem(
        table::in_column(held, "skill_id"@),
        Kind::Text,
    ));
    assert(row::column_problem(row, 2, kinds[2]) == row::value_problem(
        table::in_column(held, "scope"@),
        Kind::Text,
    ));
    assert(row::column_problem(row, 3, kinds[3]) == row::value_problem(
        table::in_column(held, "scope_id"@),
        Kind::OptText,
    ));
    assert(row::column_problem(row, 4, kinds[4]) == row::value_problem(
        table::in_column(held, "variants_json"@),
        Kind::Text,
    ));
    assert(row::column_problem(row, 5, kinds[5]) == row::value_problem(
        table::in_column(held, "allocation_json"@),
        Kind::Text,
    ));
    assert(row::column_problem(row, 6, kinds[6]) == row::value_problem(
        table::in_column(held, "status"@),
        Kind::Text,
    ));
    assert(row::column_problem(row, 7, kinds[7]) == row::value_problem(
        table::in_column(held, "started_at"@),
        Kind::Text,
    ));
}

/// An event of an experiment is read just of a row with each of its fields in the column of that name.
pub proof fn experiment_event_is_what_its_columns_hold(held: RowView, record: ExperimentEventRecord)
    ensures
        row::is_read::<ExperimentEventRecord>(
            table::picked(held, ExperimentEventRecord::names()),
            Ok::<ExperimentEventRecord, RowErrorView>(record),
        ) <==> {
            &&& table::in_column(held, "id"@) == ValueView::Text(record.id@)
            &&& table::in_column(held, "experiment_id"@) == ValueView::Text(record.experiment_id@)
            &&& table::in_column(held, "variant_id"@) == ValueView::Text(record.variant_id@)
            &&& table::in_column(held, "event_type"@) == ValueView::Text(record.event_type@)
            &&& match record.metrics_json {
                Some(t) => table::in_column(held, "metrics_json"@) == ValueView::Text(t@),
                None => table::in_column(held, "metrics_json"@) == ValueView::Null,
            }
            &&& match record.context_json {
                Some(t) => table::in_column(held, "context_json"@) == ValueView::Text(t@),
                None => table::in_column(held, "context_json"@) == ValueView::Null,
            }
            &&& match record.session_id {
                Some(t) => table::in_column(held, "session_id"@) == ValueView::Text(t@),
                None => table::in_column(held, "session_id"@) == ValueView::Null,
            }
            &&& table::in_column(held, "created_at"@) == ValueView::Text(record.created_at@)
        },
{
    let row = table::picked(held, ExperimentEventRecord::names());
    let kinds = ExperimentEventRecord::columns();
    assert(row::column_problem(row, 0, kinds[0]) == row::value_problem(
        table::in_column(held, "id"@),
        Kind::Text,
    ));
    assert(row::column_problem(row, 1, kinds[1]) == row::value_problem(
        table::in_column(held, "experiment_id"@),
        Kind::Text,
    ));
    assert(row::column_problem(row, 2, kinds[2]) == row::value_problem(
        table::in_column(held, "variant_id"@),
        Kind::Text,
    ));
    assert(row::column_problem(row, 3, kinds[3]) == row::value_problem(
        table::in_column(held, "event_type"@),
        Kind::Text,
    ));
    assert(row::column_problem(row, 4, kinds[4]) == row::value_problem(
        table::in_column(held, "metrics_json"@),
        Kind::OptText,
    ));
    assert(row::column_problem(row, 5, kinds[5]) == row::value_problem(
        table::in_column(held, "context_json"@),
        Kind::OptText,
    ));
    assert(row::column_problem(row, 6, kinds[6]) == row::value_problem(
        table::in_column(held, "session_id"@),
        Kind::OptText,
    ));
    assert(row::column_problem(row, 7, kinds[7]) == row::value_problem(
        table::in_column(held, "created_at"@),
        Kind::Text,
    ));
}

/// A transaction is read just of a row with each of its fields in the column of that name.
pub proof fn transaction_is_what_its_columns_hold(held: RowView, record: TxRow)
    ensures
        row::is_read::<TxRow>(
            table::picked(held, TxRow::names()),
            Ok::<TxRow, RowErrorView>(record),
        ) <==> {
            &&& table::in_column(held, "id"@) == ValueView::Text(record.id@)
            &&& table::in_column(held, "entity_type"@) == ValueView::Text(record.entity_type@)
            &&& table::in_column(held, "entity_id"@) == ValueView::Text(record.entity_id@)
            &&& table::in_column(held, "phase"@) == ValueView::Text(record.phase@)
            &&& table::in_column(held, "payload_json"@) == ValueView::Text(record.payload_json@)
            &&& table::in_column(held, "created_at"@) == ValueView::Text(record.created_at@)
        },
{
    let row = table::picked(held, TxRow::names());
    let kinds = TxRow::columns();
    assert(row::column_problem(row, 0, kinds[0]) == row::value_problem(
        table::in_column(held, "id"@),
        Kind::Text,
    ));
    assert(row::column_problem(row, 1, kinds[1]) == row::value_problem(
        table::in_column(held, "entity_type"@),
        Kind::Text,
    ));
    assert(row::column_problem(row, 2, kinds[2]) == row::value_problem(
        table::in_column(held, "entity_id"@),
        Kind::Text,
    ));
    assert(row::column_problem(row, 3, kinds[3]) == row::value_problem(
        table::in_column(held, "phase"@),
        Kind::Text,
    ));
    assert(row::column_problem(row, 4, kinds[4]) == row::value_problem(
        table::in_column(held, "payload_json"@),
        Kind::Text,
    ));
    assert(row::column_problem(row, 5, kinds[5]) == row::value_problem(
        table::in_column(held, "created_at"@),
        Kind::Text,
    ));
}

/// The quality of a session is read just of a row with each of its fields in the column of that name.
pub proof fn quality_is_what_its_columns_hold(held: RowView, record: QualityRow)
    ensures
        row::is_read::<QualityRow>(
            table::picked(held, QualityRow::names()),
            Ok::<QualityRow, RowErrorView>(record),
        ) <==> {
            &&& table::in_column(held, "session_id"@) == ValueView::Text(record.session_id@)
            &&& table::in_column(held, "content_hash"@) == ValueView::Text(record.content_hash@)
            &&& match record.score {
                Real::Float(bits) => table::in_column(held, "score"@) == ValueView::Real(bits),
                Real::Integer(n) => table::in_column(held, "score"@) == ValueView::Integer(n),
            }
            &&& table::in_column(held, "signals_json"@) == ValueView::Text(record.signals_json@)
            &&& table::in_column(held, "missing_json"@) == ValueView::Text(record.missing_json@)
            &&& table::in_column(held, "computed_at"@) == ValueView::Text(record.computed_at@)
        },
{
    let row = table::picked(held, QualityRow::names());
    let kinds = QualityRow::columns();
    assert(row::column_problem(row, 0, kinds[0]) == row::value_problem(
        table::in_column(held, "session_id"@),
        Kind::Text,
    ));
    assert(row::column_problem(row, 1, kinds[1]) == row::value_problem(
        table::in_column(held, "content_hash"@),
        Kind::Text,
    ));
    assert(row::column_problem(row, 2, kinds[2]) == row::value_problem(
        table::in_column(held, "score"@),
        Kind::Real,
    ));
    assert(row::column_problem(row, 3, kinds[3]) == row::value_problem(
        table::in_column(held, "signals_json"@),
        Kind::Text,
    ));
    assert(row::column_problem(row, 4, kinds[4]) == row::value_problem(
        table::in_column(held, "missing_json"@),
        Kind::Text,
    ));
    assert(row::column_problem(row, 5, kinds[5]) == row::value_problem(
        table::in_column(held, "computed_at"@),
        Kind::Text,
    ));
}

/// Evidence is read just of a row with each of its fields in the column of that name.
pub proof fn stored_evidence_is_what_its_columns_hold(held: RowView, record: StoredEvidence)
    ensures
        row::is_read::<StoredEvidence>(
            table::picked(held, StoredEvidence::names()),
            Ok::<StoredEvidence, RowErrorView>(record),
        ) <==> {
            &&& table::in_column(held, "skill_id"@) == ValueView::Text(record.skill_id@)
            &&& table::in_column(held, "rule_id"@) == ValueView::Text(record.rule_id@)
            &&& table::in_column(held, "evidence_json"@) == ValueView::Text(record.evidence_json@)
            &&& table::in_column(held, "coverage_json"@) == ValueView::Text(record.coverage_json@)
            &&& table::in_column(held, "updated_at"@) == ValueView::Text(record.updated_at@)
        },
{
    let row = table::picked(held, StoredEvidence::names());
    let kinds = StoredEvidence::columns();
    assert(row::column_problem(row, 0, kinds[0]) == row::value_problem(
        table::in_column(held, "skill_id"@),
        Kind::Text,
    ));
    assert(row::column_problem(row, 1, kinds[1]) == row::value_problem(
        table::in_column(held, "rule_id"@),
        Kind::Text,
    ));
    assert(row::column_problem(row, 2, kinds[2]) == row::value_problem(
        table::in_column(held, "evidence_json"@),
        Kind::Text,
    ));
    assert(row::column_problem(row, 3, kinds[3]) == row::value_problem(
        table::in_column(held, "coverage_json"@),
        Kind::Text,
    ));
    assert(row::column_problem(row, 4, kinds[4]) == row::value_problem(
        table::in_column(held, "updated_at"@),
        Kind::Text,
    ));
}

/// The evidence for a rule is read just of a row with each of its fields in the column of that name.
pub proof fn rule_evidence_is_what_its_columns_hold(held: RowView, record: RuleEvidenceRow)
    ensures
        row::is_read::<RuleEvidenceRow>(
            table::picked(held, RuleEvidenceRow::names()),
            Ok::<RuleEvidenceRow, RowErrorView>(record),
        ) <==> {
            &&& table::in_column(held, "rule_id"@) == ValueView::Text(record.rule_id@)
            &&& table::in_column(held, "evidence_json"@) == ValueView::Text(record.evidence_json@)
        },
{
    let row = table::picked(held, RuleEvidenceRow::names());
    let kinds = RuleEvidenceRow::columns();
    assert(row::column_problem(row, 0, kinds[0]) == row::value_problem(
        table::in_column(held, "rule_id"@),
        Kind::Text,
    ));
    assert(row::column_problem(row, 1, kinds[1]) == row::value_problem(
        table::in_column(held, "evidence_json"@),
        Kind::Text,
    ));
}

/// Evidence for a skill is read just of a row with each of its fields in the column of that name.
pub proof fn evidence_is_what_its_columns_hold(held: RowView, record: EvidenceRow)
    ensures
        row::is_read::<EvidenceRow>(
            table::picked(held, EvidenceRow::names()),
            Ok::<EvidenceRow, RowErrorView>(record),
        ) <==> {
            &&& table::in_column(held, "skill_id"@) == ValueView::Text(record.skill_id@)
            &&& table::in_column(held, "rule_id"@) == ValueView::Text(record.rule_id@)
            &&& table::in_column(held, "evidence_json"@) == ValueView::Text(record.evidence_json@)
            &&& table::in_column(held, "updated_at"@) == ValueView::Text(record.updated_at@)
        },
{
    let row = table::picked(held, EvidenceRow::names());
    let kinds = EvidenceRow::columns();
    assert(row::column_problem(row, 0, kinds[0]) == row::value_problem(
        table::in_column(held, "skill_id"@),
        Kind::Text,
    ));
    assert(row::column_problem(row, 1, kinds[1]) == row::value_problem(
        table::in_column(held, "rule_id"@),
        Kind::Text,
    ));
    assert(row::column_problem(row, 2, kinds[2]) == row::value_problem(
        table::in_column(held, "evidence_json"@),
        Kind::Text,
    ));
    assert(row::column_problem(row, 3, kinds[3]) == row::value_problem(
        table::in_column(held, "updated_at"@),
        Kind::Text,
    ));
}

/// Something in quarantine is read just of a row with each of its fields in the column of that name.
pub proof fn quarantine_is_what_its_columns_hold(held: RowView, record: QuarantineRow)
    ensures
        row::is_read::<QuarantineRow>(
            table::picked(held, QuarantineRow::names()),
            Ok::<QuarantineRow, RowErrorView>(record),
        ) <==> {
            &&& table::in_column(held, "quarantine_id"@) == ValueView::Text(record.quarantine_id@)
            &&& table::in_column(held, "session_id"@) == ValueView::Text(record.session_id@)
            &&& table::in_column(held, "message_index"@) == ValueView::Integer(record.message_index)
            &&& table::in_column(held, "content_hash"@) == ValueView::Text(record.content_hash@)
            &&& table::in_column(held, "safe_excerpt"@) == ValueView::Text(record.safe_excerpt@)
            &&& table::in_column(held, "classification_json"@) == ValueView::Text(record.classification_json@)
            &&& match record.audit_tag {
                Some(t) => table::in_column(held, "audit_tag"@) == ValueView::Text(t@),
                None => table::in_column(held, "audit_tag"@) == ValueView::Null,
            }
            &&& table::in_column(held, "created_at"@) == ValueView::Text(record.created_at@)
            &&& table::in_column(held, "replay_command"@) == ValueView::Text(record.replay_command@)
        },
{
    let row = table::picked(held, QuarantineRow::names());
    let kinds = QuarantineRow::columns();
    assert(row::column_problem(row, 0, kinds[0]) == row::value_problem(
        table::in_column(held, "quarantine_id"@),
        Kind::Text,
    ));
    assert(row::column_problem(row, 1, kinds[1]) == row::value_problem(
        table::in_column(held, "session_id"@),
        Kind::Text,
    ));
    assert(row::column_problem(row, 2, kinds[2]) == row::value_problem(
        table::in_column(held, "message_index"@),
        Kind::Integer,
    ));
    assert(row::column_problem(row, 3, kinds[3]) == row::value_problem(
        table::in_column(held, "content_hash"@),
        Kind::Text,
    ));
    assert(row::column_problem(row, 4, kinds[4]) == row::value_problem(
        table::in_column(held, "safe_excerpt"@),
        Kind::Text,
    ));
    assert(row::column_problem(row, 5, kinds[5]) == row::value_problem(
        table::in_column(held, "classification_json"@),
        Kind::Text,
    ));
    assert(row::column_problem(row, 6, kinds[6]) == row::value_problem(
        table::in_column(held, "audit_tag"@),
        Kind::OptText,
    ));
    assert(row::column_problem(row, 7, kinds[7]) == row::value_problem(
        table::in_column(held, "created_at"@),
        Kind::Text,
    ));
    assert(row::column_problem(row, 8, kinds[8]) == row::value_problem(
        table::in_column(held, "replay_command"@),
        Kind::Text,
    ));
}

/// A judgement on a command is read just of a row with each of its fields in the column of that name.
pub proof fn judgement_is_what_its_columns_hold(held: RowView, record: CommandSafetyRawRow)
    ensures
        row::is_read::<CommandSafetyRawRow>(
            table::picked(held, CommandSafetyRawRow::names()),
            Ok::<CommandSafetyRawRow, RowErrorView>(record),
        ) <==> {
            &&& match record.session_id {
                Some(t) => table::in_column(held, "session_id"@) == ValueView::Text(t@),
                None => table::in_column(held, "session_id"@) == ValueView::Null,
            }
            &&& table::in_column(held, "command"@) == ValueView::Text(record.command@)
            &&& match record.dcg_version {
                Some(t) => table::in_column(held, "dcg_version"@) == ValueView::Text(t@),
                None => table::in_column(held, "dcg_version"@) == ValueView::Null,
            }
            &&& match record.dcg_pack {
                Some(t) => table::in_column(held, "dcg_pack"@) == ValueView::Text(t@),
                None => table::in_column(held, "dcg_pack"@) == ValueView::Null,
            }
            &&& table::in_column(held, "decision_json"@) == ValueView::Text(record.decision_json@)
            &&& table::in_column(held, "created_at"@) == ValueView::Text(record.created_at@)
        },
{
    let row = table::picked(held, CommandSafetyRawRow::names());
    let kinds = CommandSafetyRawRow::columns();
    assert(row::column_problem(row, 0, kinds[0]) == row::value_problem(
        table::in_column(held, "session_id"@),
        Kind::OptText,
    ));
    assert(row::column_problem(row, 1, kinds[1]) == row::value_problem(
        table::in_column(held, "command"@),
        Kind::Text,
    ));
    assert(row::column_problem(row, 2, kinds[2]) == row::value_problem(
        table::in_column(held, "dcg_version"@),
        Kind::OptText,
    ));
    assert(row::column_problem(row, 3, kinds[3]) == row::value_problem(
        table::in_column(held, "dcg_pack"@),
        Kind::OptText,
    ));
    assert(row::column_problem(row, 4, kinds[4]) == row::value_problem(
        table::in_column(held, "decision_json"@),
        Kind::Text,
    ));
    assert(row::column_problem(row, 5, kinds[5]) == row::value_problem(
        table::in_column(held, "created_at"@),
        Kind::Text,
    ));
}

/// An embedding is read just of a row with each of its fields in the column of that name.
pub proof fn embedding_is_what_its_columns_hold(held: RowView, record: EmbeddingRawRow)
    ensures
        row::is_read::<EmbeddingRawRow>(
            table::picked(held, EmbeddingRawRow::names()),
            Ok::<EmbeddingRawRow, RowErrorView>(record),
        ) <==> {
            &&& table::in_column(held, "skill_id"@) == ValueView::Text(record.skill_id@)
            &&& table::in_column(held, "embedding"@) == ValueView::Blob(record.blob@)
            &&& table::in_column(held, "dims"@) == ValueView::Integer(record.dims)
            &&& table::in_column(held, "embedder_type"@) == ValueView::Text(record.embedder_type@)
            &&& match record.content_hash {
                Some(t) => table::in_column(held, "content_hash"@) == ValueView::Text(t@),
                None => table::in_column(held, "content_hash"@) == ValueView::Null,
            }
            &&& table::in_column(held, "computed_at"@) == ValueView::Text(record.computed_at@)
            &&& table::in_column(held, "created_at"@) == ValueView::Text(record.created_at@)
        },
{
    let row = table::picked(held, EmbeddingRawRow::names());
    let kinds = EmbeddingRawRow::columns();
    assert(row::column_problem(row, 0, kinds[0]) == row::value_problem(
        table::in_column(held, "skill_id"@),
        Kind::Text,
    ));
    assert(row::column_problem(row, 1, kinds[1]) == row::value_problem(
        table::in_column(held, "embedding"@),
        Kind::Blob,
    ));
    assert(row::column_problem(row, 2, kinds[2]) == row::value_problem(
        table::in_column(held, "dims"@),
        Kind::Integer,
    ));
    assert(row::column_problem(row, 3, kinds[3]) == row::value_problem(
        table::in_column(held, "embedder_type"@),
        Kind::Text,
    ));
    assert(row::column_problem(row, 4, kinds[4]) == row::value_problem(
        table::in_column(held, "content_hash"@),
        Kind::OptText,
    ));
    assert(row::column_problem(row, 5, kinds[5]) == row::value_problem(
        table::in_column(held, "computed_at"@),
        Kind::Text,
    ));
    assert(row::column_problem(row, 6, kinds[6]) == row::value_problem(
        table::in_column(held, "created_at"@),
        Kind::Text,
    ));
}

/// The numbers of an embedding is read just of a row with each of its fields in the column of that name.
pub proof fn embedding_blob_is_what_its_columns_hold(held: RowView, record: EmbeddingBlobRow)
    ensures
        row::is_read::<EmbeddingBlobRow>(
            table::picked(held, EmbeddingBlobRow::names()),
            Ok::<EmbeddingBlobRow, RowErrorView>(record),
        ) <==> {
            &&& table::in_column(held, "skill_id"@) == ValueView::Text(record.skill_id@)
            &&& table::in_column(held, "embedding"@) == ValueView::Blob(record.blob@)
            &&& table::in_column(held, "dims"@) == ValueView::Integer(record.dims)
        },
{
    let row = table::picked(held, EmbeddingBlobRow::names());
    let kinds = EmbeddingBlobRow::columns();
    assert(row::column_problem(row, 0, kinds[0]) == row::value_problem(
        table::in_column(held, "skill_id"@),
        Kind::Text,
    ));
    assert(row::column_problem(row, 1, kinds[1]) == row::value_problem(
        table::in_column(held, "embedding"@),
        Kind::Blob,
    ));
    assert(row::column_problem(row, 2, kinds[2]) == row::value_problem(
        table::in_column(held, "dims"@),
        Kind::Integer,
    ));
}

} // verus!
