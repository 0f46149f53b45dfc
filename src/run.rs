//! The decisions of a generation run, apart from its file operations: what
//! each file is called and how many records it gets, the line written for
//! each record, and whether the written size meets the target.
use crate::date::Date;
use crate::files::{file_name, get_number_of_logs_to_write, FileNameGenerator, MIN_BYTES_OF_A_LOG};
use crate::log::{FieldChoices, Log};
use vstd::math::min;
use vstd::prelude::*;

verus! {

/// A file was written smaller than asked for.
#[derive(Clone, Copy, Debug, PartialEq, Eq, Structural)]
pub struct SizeShortfall {
    pub expected: u64,
    pub created: u64,
}

/// One output file: its name, the size asked for and the records planned.
#[derive(Debug)]
pub struct FileTask {
    pub name: String,
    pub target_bytes: u64,
    pub planned_records: u64,
}

impl FileTask {
    /// The task for the next file of the run, named by `names`.
    pub fn new(names: &mut FileNameGenerator, target_bytes: u64) -> (r: FileTask)
        ensures
            r.name@ == file_name(old(names).name_suffix as nat),
            final(names).name_suffix == if old(names).name_suffix == 0 {
                0
            } else {
                old(names).name_suffix - 1
            },
            r.target_bytes == target_bytes,
            r.planned_records == target_bytes / MIN_BYTES_OF_A_LOG + 1,
    {
        let name = names.name();
        let planned_records = get_number_of_logs_to_write(target_bytes);
        FileTask { name, target_bytes, planned_records }
    }

    /// Accepts a written size of at least the target, and returns it.
    pub fn check_size(&self, written_bytes: u64) -> (r: Result<u64, SizeShortfall>)
        ensures
            r is Ok <==> written_bytes >= self.target_bytes,
            r matches Ok(n) ==> n == written_bytes,
            r matches Err(e) ==> e == (SizeShortfall {
                expected: self.target_bytes,
                created: written_bytes,
            }),
    {
        if written_bytes < self.target_bytes {
            Err(SizeShortfall { expected: self.target_bytes, created: written_bytes })
        } else {
            Ok(written_bytes)
        }
    }
}

/// The line for one record at the clock's date, line break included; the
/// clock then moves one second forward.
pub fn next_record(date: &mut Date, choices: FieldChoices) -> (r: String)
    requires
        old(date).wf(),
        choices.wf(),
    ensures
        r@ == (Log { date: *old(date), choices }).text() + "\n"@,
        final(date).wf(),
        final(date).instant() == min(old(date).instant() + 1, Date::last().instant()),
{
    let log = Log::new(*date, choices);
    let mut line = log.str();
    line.append("\n");
    date.add_one_second();
    line
}

/// Total characters of a sequence of lines.
pub open spec fn total_len(lines: Seq<Seq<char>>) -> int
    decreases lines.len(),
{
    if lines.len() == 0 {
        0
    } else {
        total_len(lines.drop_last()) + lines.last().len()
    }
}

/// The lines that `next_record` gives at these dates with the fixed field values.
pub open spec fn fixed_lines(dates: Seq<Date>) -> Seq<Seq<char>> {
    dates.map_values(
        |d: Date| (Log { date: d, choices: FieldChoices::fixed_spec() }).text() + "\n"@,
    )
}

/// A file written with the fixed field values meets its target size: each of
/// its lines, line break included, is longer than the assumed shortest line,
/// and the planned number of lines outgrows the target.
pub proof fn lemma_fixed_file_meets_target(target_bytes: u64, dates: Seq<Date>)
    requires
        dates.len() == target_bytes / MIN_BYTES_OF_A_LOG + 1,
        forall|i: int| 0 <= i < dates.len() ==> (#[trigger] dates[i]).wf(),
    ensures
        total_len(fixed_lines(dates)) > target_bytes,
{
    lemma_fixed_lines_len(dates);
    let n = dates.len() as int;
    assert(n * MIN_BYTES_OF_A_LOG > target_bytes) by (nonlinear_arith)
        requires
            n == target_bytes / MIN_BYTES_OF_A_LOG + 1,
    ;
    assert(186 * n >= n * MIN_BYTES_OF_A_LOG) by (nonlinear_arith)
        requires
            n >= 0,
    ;
}

proof fn lemma_fixed_lines_len(dates: Seq<Date>)
    requires
        forall|i: int| 0 <= i < dates.len() ==> (#[trigger] dates[i]).wf(),
    ensures
        total_len(fixed_lines(dates)) >= 186 * dates.len(),
    decreases dates.len(),
{
    if dates.len() > 0 {
        let init = dates.drop_last();
        assert forall|i: int| 0 <= i < init.len() implies (#[trigger] init[i]).wf() by {
            assert(init[i] == dates[i]);
        }
        lemma_fixed_lines_len(init);
        assert(fixed_lines(dates).drop_last() =~= fixed_lines(init));
        assert(dates[dates.len() - 1].wf());
        Log::lemma_fixed_text_len(dates.last());
        reveal_strlit("\n");
    }
}

} // verus!
