//! Bringing the layout of a stored catalogue up to date.
//!
//! The store that backs a catalogue has three tables: the series, the
//! chapters and the scan metadata. An older store may lack a table, a column
//! or the rule that a series has each chapter number once. What is missing is
//! found out from what is there, and added in an order in which no step loses
//! a row; a store that is up to date is left alone.

use vstd::prelude::*;

verus! {

/// What a store holds of the layout.
#[derive(Clone, Copy, Debug, PartialEq, Eq, Structural)]
pub struct SchemaState {
    /// The table of series exists.
    pub series_table: bool,
    /// The table of series has the synopsis column.
    pub synopsis_column: bool,
    /// The table of chapters exists.
    pub chapters_table: bool,
    /// The table of chapters has the size and modification-time columns.
    pub size_columns: bool,
    /// No two chapters of a series may have the same number.
    pub unique_pair: bool,
    /// The table of scan metadata exists.
    pub metadata_table: bool,
    /// The index of chapters by series exists.
    pub chapter_index: bool,
    /// The index of series by name exists.
    pub name_index: bool,
}

/// One change to the layout of a store. None of them drops a row.
#[derive(Clone, Copy, Debug, PartialEq, Eq, Structural)]
pub enum MigrationStep {
    /// Creates the table of series, with all its columns.
    CreateSeriesTable,
    /// Rebuilds the table of series with the synopsis column, copying every
    /// row.
    AddSynopsisColumn,
    /// Creates the table of chapters, with all its columns and the rule on
    /// chapter numbers.
    CreateChaptersTable,
    /// Adds the size and modification-time columns to the table of chapters,
    /// zero in every row.
    AddSizeColumns,
    /// Rebuilds the table of chapters with the rule on chapter numbers,
    /// copying every row.
    AddUniquePair,
    /// Creates the table of scan metadata.
    CreateMetadataTable,
    /// Creates the index of chapters by series.
    CreateChapterIndex,
    /// Creates the index of series by name.
    CreateNameIndex,
}

impl SchemaState {
    /// A state that a store can be in: a table that does not exist has no
    /// columns, rules or indexes.
    pub open spec fn consistent(self) -> bool {
        &&& self.synopsis_column ==> self.series_table
        &&& self.name_index ==> self.series_table
        &&& self.size_columns ==> self.chapters_table
        &&& self.unique_pair ==> self.chapters_table
        &&& self.chapter_index ==> self.chapters_table
    }

    /// Whether nothing is missing.
    pub open spec fn current(self) -> bool {
        &&& self.series_table
        &&& self.synopsis_column
        &&& self.chapters_table
        &&& self.size_columns
        &&& self.unique_pair
        &&& self.metadata_table
        &&& self.chapter_index
        &&& self.name_index
    }

    /// Whether `step` can be taken in this state: a table is created only if
    /// it does not exist, and changed only if it exists and lacks what the
    /// step adds. The chapters are rebuilt only once they have all their
    /// columns, so that every column is copied.
    pub open spec fn admits(self, step: MigrationStep) -> bool {
        match step {
            MigrationStep::CreateSeriesTable => !self.series_table,
            MigrationStep::AddSynopsisColumn => self.series_table && !self.synopsis_column,
            MigrationStep::CreateChaptersTable => !self.chapters_table,
            MigrationStep::AddSizeColumns => self.chapters_table && !self.size_columns,
            MigrationStep::AddUniquePair => self.chapters_table && self.size_columns
                && !self.unique_pair,
            MigrationStep::CreateMetadataTable => !self.metadata_table,
            MigrationStep::CreateChapterIndex => self.chapters_table && !self.chapter_index,
            MigrationStep::CreateNameIndex => self.series_table && !self.name_index,
        }
    }

    /// The state after `step` was taken. Rebuilding a table drops its
    /// indexes, which are then created anew.
    pub open spec fn after(self, step: MigrationStep) -> SchemaState {
        match step {
            MigrationStep::CreateSeriesTable => SchemaState {
                series_table: true,
                synopsis_column: true,
                ..self
            },
            MigrationStep::AddSynopsisColumn => SchemaState {
                synopsis_column: true,
                name_index: false,
                ..self
            },
            MigrationStep::CreateChaptersTable => SchemaState {
                chapters_table: true,
                size_columns: true,
                unique_pair: true,
                ..self
            },
            MigrationStep::AddSizeColumns => SchemaState { size_columns: true, ..self },
            MigrationStep::AddUniquePair => SchemaState {
                unique_pair: true,
                chapter_index: false,
                ..self
            },
            MigrationStep::CreateMetadataTable => SchemaState { metadata_table: true, ..self },
            MigrationStep::CreateChapterIndex => SchemaState { chapter_index: true, ..self },
            MigrationStep::CreateNameIndex => SchemaState { name_index: true, ..self },
        }
    }

    /// The state after the steps were taken in order.
    pub open spec fn after_all(self, steps: Seq<MigrationStep>) -> SchemaState
        decreases steps.len(),
    {
        if steps.len() == 0 {
            self
        } else {
            self.after_all(steps.drop_last()).after(steps.last())
        }
    }

    /// Whether each of the steps can be taken when its turn comes.
    pub open spec fn admits_all(self, steps: Seq<MigrationStep>) -> bool
        decreases steps.len(),
    {
        if steps.len() == 0 {
            true
        } else {
            self.admits_all(steps.drop_last()) && self.after_all(steps.drop_last()).admits(
                steps.last(),
            )
        }
    }

    /// The steps that bring this state up to date, in the order in which they
    /// are taken.
    pub open spec fn plan(self) -> Seq<MigrationStep> {
        let series = if !self.series_table {
            seq![MigrationStep::CreateSeriesTable]
        } else if !self.synopsis_column {
            seq![MigrationStep::AddSynopsisColumn]
        } else {
            seq![]
        };
        let columns = if !self.chapters_table {
            seq![MigrationStep::CreateChaptersTable]
        } else if !self.size_columns {
            seq![MigrationStep::AddSizeColumns]
        } else {
            seq![]
        };
        let pair = if self.chapters_table && !self.unique_pair {
            seq![MigrationStep::AddUniquePair]
        } else {
            seq![]
        };
        let metadata = if !self.metadata_table {
            seq![MigrationStep::CreateMetadataTable]
        } else {
            seq![]
        };
        let chapter_index = if !self.chapter_index || (self.chapters_table && !self.unique_pair) {
            seq![MigrationStep::CreateChapterIndex]
        } else {
            seq![]
        };
        let name_index = if !self.name_index || (self.series_table && !self.synopsis_column) {
            seq![MigrationStep::CreateNameIndex]
        } else {
            seq![]
        };
        series + columns + pair + metadata + chapter_index + name_index
    }
}

impl SchemaState {
    /// Tests whether a store can be in this state.
    pub fn is_consistent(&self) -> (ok: bool)
        ensures
            ok == self.consistent(),
    {
        (!self.synopsis_column || self.series_table) && (!self.name_index || self.series_table)
            && (!self.size_columns || self.chapters_table) && (!self.unique_pair
            || self.chapters_table) && (!self.chapter_index || self.chapters_table)
    }

    /// Tests whether nothing is missing.
    pub fn is_current(&self) -> (ok: bool)
        ensures
            ok == self.current(),
    {
        self.series_table && self.synopsis_column && self.chapters_table && self.size_columns
            && self.unique_pair && self.metadata_table && self.chapter_index && self.name_index
    }
}

/// Appends a step to a plan.
fn take(steps: &mut Vec<MigrationStep>, state: &mut SchemaState, step: MigrationStep, Ghost(start): Ghost<SchemaState>)
    requires
        start.admits_all(old(steps)@),
        start.after_all(old(steps)@) == *old(state),
        old(state).admits(step),
    ensures
        final(steps)@ == old(steps)@.push(step),
        start.admits_all(final(steps)@),
        start.after_all(final(steps)@) == *final(state),
        *final(state) == old(state).after(step),
{
    steps.push(step);
    *state = after_step(*state, step);
    assert(steps@.drop_last() =~= old(steps)@);
}

/// The state after `step` was taken.
pub fn after_step(state: SchemaState, step: MigrationStep) -> (next: SchemaState)
    ensures
        next == state.after(step),
{
    match step {
        MigrationStep::CreateSeriesTable => SchemaState {
            series_table: true,
            synopsis_column: true,
            ..state
        },
        MigrationStep::AddSynopsisColumn => SchemaState {
            synopsis_column: true,
            name_index: false,
            ..state
        },
        MigrationStep::CreateChaptersTable => SchemaState {
            chapters_table: true,
            size_columns: true,
            unique_pair: true,
            ..state
        },
        MigrationStep::AddSizeColumns => SchemaState { size_columns: true, ..state },
        MigrationStep::AddUniquePair => SchemaState {
            unique_pair: true,
            chapter_index: false,
            ..state
        },
        MigrationStep::CreateMetadataTable => SchemaState { metadata_table: true, ..state },
        MigrationStep::CreateChapterIndex => SchemaState { chapter_index: true, ..state },
        MigrationStep::CreateNameIndex => SchemaState { name_index: true, ..state },
    }
}

/// Plans the steps that bring a store up to date.
///
/// Every step of the plan can be taken when its turn comes, the store is up
/// to date once all are taken, and a store that is up to date gets an empty
/// plan.
pub fn plan_migration(state: SchemaState) -> (steps: Vec<MigrationStep>)
    requires
        state.consistent(),
    ensures
        steps@ == state.plan(),
        state.admits_all(steps@),
        state.after_all(steps@).current(),
        state.current() <==> steps@.len() == 0,
{
    let mut steps: Vec<MigrationStep> = Vec::new();
    let mut now = state;
    let ghost start = state;
    if !now.series_table {
        take(&mut steps, &mut now, MigrationStep::CreateSeriesTable, Ghost(start));
    } else if !now.synopsis_column {
        take(&mut steps, &mut now, MigrationStep::AddSynopsisColumn, Ghost(start));
    }
    if !now.chapters_table {
        take(&mut steps, &mut now, MigrationStep::CreateChaptersTable, Ghost(start));
    } else if !now.size_columns {
        take(&mut steps, &mut now, MigrationStep::AddSizeColumns, Ghost(start));
    }
    if !now.unique_pair {
        take(&mut steps, &mut now, MigrationStep::AddUniquePair, Ghost(start));
    }
    if !now.metadata_table {
        take(&mut steps, &mut now, MigrationStep::CreateMetadataTable, Ghost(start));
    }
    if !now.chapter_index {
        take(&mut steps, &mut now, MigrationStep::CreateChapterIndex, Ghost(start));
    }
    if !now.name_index {
        take(&mut steps, &mut now, MigrationStep::CreateNameIndex, Ghost(start));
    }
    assert(steps@ =~= state.plan());
    steps
}

/// Planning is idempotent: once the steps planned for a store are taken, the
/// plan for the store is empty.
pub proof fn lemma_plan_settles(state: SchemaState)
    requires
        state.consistent(),
    ensures
        state.after_all(state.plan()).current(),
        state.after_all(state.plan()).plan() == Seq::<MigrationStep>::empty(),
        state.current() ==> state.plan() == Seq::<MigrationStep>::empty(),
{
    lemma_plan_reaches_current(state);
    let done = state.after_all(state.plan());
    assert(done.plan() =~= Seq::<MigrationStep>::empty());
    if state.current() {
        assert(state.plan() =~= Seq::<MigrationStep>::empty());
    }
}

/// The planned steps can be taken in order and bring the store up to date.
pub proof fn lemma_plan_reaches_current(state: SchemaState)
    requires
        state.consistent(),
    ensures
        state.admits_all(state.plan()),
        state.after_all(state.plan()).current(),
{
    let series: Seq<MigrationStep> = if !state.series_table {
        seq![MigrationStep::CreateSeriesTable]
    } else if !state.synopsis_column {
        seq![MigrationStep::AddSynopsisColumn]
    } else {
        seq![]
    };
    let columns: Seq<MigrationStep> = if !state.chapters_table {
        seq![MigrationStep::CreateChaptersTable]
    } else if !state.size_columns {
        seq![MigrationStep::AddSizeColumns]
    } else {
        seq![]
    };
    let pair: Seq<MigrationStep> = if state.chapters_table && !state.unique_pair {
        seq![MigrationStep::AddUniquePair]
    } else {
        seq![]
    };
    let metadata: Seq<MigrationStep> = if !state.metadata_table {
        seq![MigrationStep::CreateMetadataTable]
    } else {
        seq![]
    };
    let chapter_index: Seq<MigrationStep> = if !state.chapter_index || (state.chapters_table
        && !state.unique_pair) {
        seq![MigrationStep::CreateChapterIndex]
    } else {
        seq![]
    };
    let name_index: Seq<MigrationStep> = if !state.name_index || (state.series_table
        && !state.synopsis_column) {
        seq![MigrationStep::CreateNameIndex]
    } else {
        seq![]
    };
    let first = series;
    let second = first + columns;
    let third = second + pair;
    let fourth = third + metadata;
    let fifth = fourth + chapter_index;
    let whole = fifth + name_index;
    lemma_extend(state, Seq::empty(), series);
    assert(Seq::<MigrationStep>::empty() + series =~= first);
    lemma_extend(state, first, columns);
    lemma_extend(state, second, pair);
    lemma_extend(state, third, metadata);
    lemma_extend(state, fourth, chapter_index);
    lemma_extend(state, fifth, name_index);
    assert(whole =~= state.plan());
}

/// Taking at most one more step after a plan: the state and whether every
/// step can be taken follow from the plan and the step.
pub proof fn lemma_extend(state: SchemaState, steps: Seq<MigrationStep>, more: Seq<MigrationStep>)
    requires
        more.len() <= 1,
    ensures
        more.len() == 0 ==> steps + more == steps,
        more.len() == 1 ==> state.after_all(steps + more) == state.after_all(steps).after(more[0])
            && state.admits_all(steps + more) == (state.admits_all(steps) && state.after_all(
            steps,
        ).admits(more[0])),
{
    if more.len() == 0 {
        assert(steps + more =~= steps);
    } else {
        assert((steps + more).drop_last() =~= steps);
        assert((steps + more).last() == more[0]);
    }
}

} // verus!
