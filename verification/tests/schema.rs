use manga_reader::schema::{after_step, plan_migration, MigrationStep, SchemaState};

const EMPTY: SchemaState = SchemaState {
    series_table: false,
    synopsis_column: false,
    chapters_table: false,
    size_columns: false,
    unique_pair: false,
    metadata_table: false,
    chapter_index: false,
    name_index: false,
};

const CURRENT: SchemaState = SchemaState {
    series_table: true,
    synopsis_column: true,
    chapters_table: true,
    size_columns: true,
    unique_pair: true,
    metadata_table: true,
    chapter_index: true,
    name_index: true,
};

fn run(mut state: SchemaState) -> SchemaState {
    for step in plan_migration(state) {
        state = after_step(state, step);
    }
    state
}

#[test]
fn empty_store_gets_every_table() {
    assert_eq!(
        plan_migration(EMPTY),
        vec![
            MigrationStep::CreateSeriesTable,
            MigrationStep::CreateChaptersTable,
            MigrationStep::CreateMetadataTable,
            MigrationStep::CreateChapterIndex,
            MigrationStep::CreateNameIndex,
        ]
    );
    assert_eq!(run(EMPTY), CURRENT);
}

#[test]
fn states_that_no_store_can_be_in() {
    assert!(EMPTY.is_consistent());
    assert!(CURRENT.is_consistent());
    assert!(!SchemaState { synopsis_column: true, ..EMPTY }.is_consistent());
    assert!(!SchemaState { unique_pair: true, ..EMPTY }.is_consistent());
    assert!(!SchemaState { chapter_index: true, ..EMPTY }.is_consistent());
}

#[test]
fn current_store_is_left_alone() {
    assert!(plan_migration(CURRENT).is_empty());
}

#[test]
fn old_store_is_brought_forward() {
    let old = SchemaState {
        series_table: true,
        synopsis_column: false,
        chapters_table: true,
        size_columns: false,
        unique_pair: false,
        metadata_table: false,
        chapter_index: true,
        name_index: true,
    };
    assert_eq!(
        plan_migration(old),
        vec![
            MigrationStep::AddSynopsisColumn,
            MigrationStep::AddSizeColumns,
            MigrationStep::AddUniquePair,
            MigrationStep::CreateMetadataTable,
            MigrationStep::CreateChapterIndex,
            MigrationStep::CreateNameIndex,
        ]
    );
    assert_eq!(run(old), CURRENT);
    assert!(plan_migration(run(old)).is_empty());
}

#[test]
fn every_consistent_store_reaches_the_current_layout() {
    for bits in 0u32..256 {
        let s = SchemaState {
            series_table: bits & 1 != 0,
            synopsis_column: bits & 2 != 0,
            chapters_table: bits & 4 != 0,
            size_columns: bits & 8 != 0,
            unique_pair: bits & 16 != 0,
            metadata_table: bits & 32 != 0,
            chapter_index: bits & 64 != 0,
            name_index: bits & 128 != 0,
        };
        if s.is_consistent() {
            assert_eq!(run(s), CURRENT);
            assert_eq!(plan_migration(s).is_empty(), s == CURRENT);
            assert_eq!(s.is_current(), s == CURRENT);
        }
    }
}

#[test]
fn missing_rule_on_numbers_rebuilds_the_chapters() {
    let s = SchemaState { unique_pair: false, ..CURRENT };
    assert_eq!(
        plan_migration(s),
        vec![MigrationStep::AddUniquePair, MigrationStep::CreateChapterIndex]
    );
}
