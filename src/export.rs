use vstd::prelude::*;
use vstd::string::*;

use crate::bcp::{
    data_filename, data_filename_text, export_args, export_mode_args, format_args, format_filename,
    format_filename_text, format_mode_args,
};
use crate::conn::{texts, TdsConnConfig};
use crate::error::TransferError;
use crate::naming::{
    archive_filename_of, export_paths, joined_path_shape, work_dir_name_of,
};
use crate::table::TableWithRowsCount;

verus! {

/// What an export is asked to do: the database, the tables in the order to
/// export them, and where the archive goes.
#[derive(Clone, Debug)]
pub struct ExportArgs {
    pub dbname: String,
    pub tables: Vec<TableWithRowsCount>,
    pub parent_dir: String,
    pub dest_filename: String,
}

/// The outcome of an export: an empty error on success.
pub struct ExportResult {
    pub error: String,
}

impl ExportResult {
    pub fn success() -> (r: Self)
        ensures
            r.error@ == Seq::<char>::empty(),
    {
        ExportResult { error: String::new() }
    }

    pub fn failure(error: String) -> (r: Self)
        ensures
            r.error@ == error@,
    {
        ExportResult { error }
    }

    /// Whether the export succeeded.
    pub fn is_success(&self) -> (r: bool)
        ensures
            r == (self.error@.len() == 0),
    {
        self.error.as_str().unicode_len() == 0
    }
}

/// Where an export stands. A table stage holds the table's position in the
/// arguments.
#[derive(PartialEq, Eq, Structural, Clone, Copy, Debug)]
pub enum ExportStage {
    /// Clean and create the working directory.
    Prepare,
    /// Generate the table's format descriptor.
    Format(usize),
    /// Post-process the table's format descriptor.
    Collation(usize),
    /// Copy the table's data out.
    Data(usize),
    /// Compress the table's data file.
    Compress(usize),
    /// Package the working directory into the archive.
    Zip,
    /// Over, successfully or not.
    Finished,
}

/// The next thing for the caller to do for an export.
pub enum ExportAction {
    /// Remove any working directory left from before, fail unless it is
    /// gone, and create it empty.
    PrepareWorkDir,
    /// Run the bulk-copy utility in the working directory with these
    /// arguments, forwarding its output lines as progress.
    RunBcp(Vec<String>),
    /// Read this format descriptor of the working directory, pass its bytes
    /// through `post_process_format_file` and write the text back.
    PostProcessFormatFile(String),
    /// Compress the data file into the compressed file, then delete the
    /// data file.
    Compress { data_filename: String, compressed_filename: String },
    /// Zip the working directory into the archive of this name beside it,
    /// reporting each entry, then remove the working directory.
    ZipWorkDir(String),
    /// Nothing is left to do; this is the outcome.
    Finish(ExportResult),
}

/// The stage after `stage`, once its step succeeded (`ok`) or failed, for
/// an export of `n` tables.
pub open spec fn next_export_stage(stage: ExportStage, n: nat, ok: bool) -> ExportStage {
    if !ok {
        ExportStage::Finished
    } else {
        match stage {
            ExportStage::Prepare => if n == 0 {
                ExportStage::Zip
            } else {
                ExportStage::Format(0)
            },
            ExportStage::Format(i) => ExportStage::Collation(i),
            ExportStage::Collation(i) => ExportStage::Data(i),
            ExportStage::Data(i) => ExportStage::Compress(i),
            ExportStage::Compress(i) => if i + 1 < n {
                ExportStage::Format((i + 1) as usize)
            } else {
                ExportStage::Zip
            },
            ExportStage::Zip => ExportStage::Finished,
            ExportStage::Finished => ExportStage::Finished,
        }
    }
}

/// The message of a failed packaging step.
pub open spec fn zip_failure_message(work_dir: Seq<char>, e: Seq<char>) -> Seq<char> {
    "Error zipping destination directory, path: "@ + work_dir + ", error: "@ + e
}

/// The error that a failed step leaves as the export's outcome.
pub open spec fn export_failure_message(stage: ExportStage, work_dir: Seq<char>, e: Seq<char>) -> Seq<char> {
    if stage == ExportStage::Zip {
        zip_failure_message(work_dir, e)
    } else {
        e
    }
}

/// An export in progress, driven one step at a time: the caller performs
/// `action()` and reports its outcome to `advance`.
pub struct ExportJob {
    pub conn: TdsConnConfig,
    pub args: ExportArgs,
    /// The path of the working directory, named after the archive.
    pub work_dir: String,
    /// The path of the archive.
    pub archive_path: String,
    pub archive_filename: String,
    pub stage: ExportStage,
    /// The error that ended the export, if one did.
    pub failure: Option<String>,
}

/// How many steps an export of `n` tables has left from `stage`.
pub open spec fn export_steps_left(stage: ExportStage, n: nat) -> nat {
    match stage {
        ExportStage::Prepare => 4 * n + 2,
        ExportStage::Format(i) => 4 * (n - i) as nat + 1,
        ExportStage::Collation(i) => 4 * (n - i) as nat,
        ExportStage::Data(i) => (4 * (n - i) - 1) as nat,
        ExportStage::Compress(i) => (4 * (n - i) - 2) as nat,
        ExportStage::Zip => 1,
        ExportStage::Finished => 0,
    }
}

/// The progress lines that an export reports before the action of
/// `stage`, at its end after a failure or not (`failed`).
pub open spec fn export_progress(
    args: ExportArgs,
    archive_path: Seq<char>,
    stage: ExportStage,
    failed: bool,
) -> Seq<Seq<char>> {
    match stage {
        ExportStage::Prepare => seq![
            "Running export ..."@,
            "Export file: "@ + archive_path,
            "Running bcp ...."@,
        ],
        ExportStage::Format(i) => seq![
            "Creating bcp format file: "@ + args.tables@[i as int].schema@ + "."@
                + args.tables@[i as int].table@,
        ],
        ExportStage::Collation(_) => Seq::empty(),
        ExportStage::Data(i) => seq![
            "Exporting data: "@ + args.tables@[i as int].schema@ + "."@
                + args.tables@[i as int].table@,
        ],
        ExportStage::Compress(i) => seq![
            "Compressing: "@ + data_filename(args.tables@[i as int].schema@, args.tables@[i as int].table@),
            Seq::empty(),
        ],
        ExportStage::Zip => seq!["Zipping destination directory ...."@],
        ExportStage::Finished => if failed {
            Seq::empty()
        } else {
            seq!["Export complete"@]
        },
    }
}

/// The action that an export hands out at `stage` (at its end, `Finish`).
pub open spec fn export_action_fits(
    conn: TdsConnConfig,
    args: ExportArgs,
    archive_filename: Seq<char>,
    stage: ExportStage,
    r: ExportAction,
) -> bool {
    match stage {
        ExportStage::Prepare => r is PrepareWorkDir,
        ExportStage::Format(i) => r is RunBcp && texts(r->RunBcp_0@) == format_mode_args(
            conn,
            args.dbname@,
            args.tables@[i as int].schema@,
            args.tables@[i as int].table@,
        ),
        ExportStage::Collation(i) => r is PostProcessFormatFile && r->PostProcessFormatFile_0@
            == format_filename(args.tables@[i as int].schema@, args.tables@[i as int].table@),
        ExportStage::Data(i) => r is RunBcp && texts(r->RunBcp_0@) == export_mode_args(
            conn,
            args.dbname@,
            args.tables@[i as int].schema@,
            args.tables@[i as int].table@,
        ),
        ExportStage::Compress(i) => r is Compress && r->data_filename@ == data_filename(
            args.tables@[i as int].schema@,
            args.tables@[i as int].table@,
        ) && r->compressed_filename@ == data_filename(
            args.tables@[i as int].schema@,
            args.tables@[i as int].table@,
        ) + ".zstd"@,
        ExportStage::Zip => r is ZipWorkDir && r->ZipWorkDir_0@ == archive_filename,
        ExportStage::Finished => r is Finish,
    }
}

impl ExportJob {
    /// The progress lines to report before performing `action()`.
    pub fn progress(&self) -> (r: Vec<String>)
        requires
            self.wf(),
        ensures
            texts(r@) == export_progress(
                self.args,
                self.archive_path@,
                self.stage,
                self.failure is Some,
            ),
    {
        let mut lines: Vec<String> = Vec::new();
        match self.stage {
            ExportStage::Prepare => {
                lines.push(String::from_str("Running export ..."));
                lines.push(String::from_str("Export file: ").concat(self.archive_path.as_str()));
                lines.push(String::from_str("Running bcp ...."));
            },
            ExportStage::Format(i) => {
                let t = &self.args.tables[i];
                lines.push(
                    String::from_str("Creating bcp format file: ").concat(t.schema.as_str()).concat(
                        ".",
                    ).concat(t.table.as_str()),
                );
            },
            ExportStage::Collation(_) => {},
            ExportStage::Data(i) => {
                let t = &self.args.tables[i];
                lines.push(
                    String::from_str("Exporting data: ").concat(t.schema.as_str()).concat(".").concat(
                        t.table.as_str(),
                    ),
                );
            },
            ExportStage::Compress(i) => {
                let t = &self.args.tables[i];
                let data = data_filename_text(t.schema.as_str(), t.table.as_str());
                lines.push(String::from_str("Compressing: ").concat(data.as_str()));
                lines.push(String::new());
            },
            ExportStage::Zip => {
                lines.push(String::from_str("Zipping destination directory ...."));
            },
            ExportStage::Finished => {
                if self.failure.is_none() {
                    lines.push(String::from_str("Export complete"));
                }
            },
        }
        proof {
            assert(texts(lines@) =~= export_progress(
                self.args,
                self.archive_path@,
                self.stage,
                self.failure is Some,
            ));
        }
        lines
    }

    /// The table positions of the stages lie within the arguments, and only
    /// a finished export has failed.
    pub open spec fn wf(&self) -> bool {
        let n = self.args.tables@.len();
        &&& match self.stage {
            ExportStage::Format(i) => i < n,
            ExportStage::Collation(i) => i < n,
            ExportStage::Data(i) => i < n,
            ExportStage::Compress(i) => i < n,
            _ => true,
        }
        &&& self.failure is Some ==> self.stage == ExportStage::Finished
    }

    /// Starts an export. Its working directory and its archive lie in the
    /// destination directory, named after the destination file name.
    pub fn new(conn: TdsConnConfig, args: ExportArgs) -> (r: Self)
        ensures
            r.wf(),
            r.stage == ExportStage::Prepare,
            r.failure is None,
            r.conn == conn,
            r.args == args,
            r.archive_filename@ == archive_filename_of(args.dest_filename@),
            joined_path_shape(args.parent_dir@, work_dir_name_of(args.dest_filename@), r.work_dir@),
            joined_path_shape(
                args.parent_dir@,
                archive_filename_of(args.dest_filename@),
                r.archive_path@,
            ),
    {
        let paths = export_paths(args.parent_dir.as_str(), args.dest_filename.as_str());
        ExportJob {
            conn,
            args,
            work_dir: paths.work_dir,
            archive_path: paths.archive_path,
            archive_filename: paths.archive_filename,
            stage: ExportStage::Prepare,
            failure: None,
        }
    }

    /// What the caller is to do next.
    pub fn action(&self) -> (r: ExportAction)
        requires
            self.wf(),
        ensures
            export_action_fits(self.conn, self.args, self.archive_filename@, self.stage, r),
            self.stage == ExportStage::Finished ==> (match self.failure {
                Some(e) => r->Finish_0.error@ == e@,
                None => r->Finish_0.error@.len() == 0,
            }),
    {
        match self.stage {
            ExportStage::Prepare => ExportAction::PrepareWorkDir,
            ExportStage::Format(i) => {
                let t = &self.args.tables[i];
                ExportAction::RunBcp(
                    format_args(&self.conn, self.args.dbname.as_str(), t.schema.as_str(), t.table.as_str()),
                )
            },
            ExportStage::Collation(i) => {
                let t = &self.args.tables[i];
                ExportAction::PostProcessFormatFile(format_filename_text(t.schema.as_str(), t.table.as_str()))
            },
            ExportStage::Data(i) => {
                let t = &self.args.tables[i];
                ExportAction::RunBcp(
                    export_args(&self.conn, self.args.dbname.as_str(), t.schema.as_str(), t.table.as_str()),
                )
            },
            ExportStage::Compress(i) => {
                let t = &self.args.tables[i];
                let data = data_filename_text(t.schema.as_str(), t.table.as_str());
                let compressed = data.clone().concat(".zstd");
                ExportAction::Compress { data_filename: data, compressed_filename: compressed }
            },
            ExportStage::Zip => ExportAction::ZipWorkDir(self.archive_filename.clone()),
            ExportStage::Finished => match &self.failure {
                Some(e) => ExportAction::Finish(ExportResult::failure(e.clone())),
                None => ExportAction::Finish(ExportResult::success()),
            },
        }
    }

    /// Takes the outcome of the last action. A failed step ends the export
    /// with its error; the tables after it are not attempted.
    pub fn advance(&mut self, outcome: Result<(), TransferError>)
        requires
            old(self).wf(),
        ensures
            final(self).wf(),
            final(self).conn == old(self).conn,
            final(self).args == old(self).args,
            final(self).work_dir == old(self).work_dir,
            final(self).archive_path == old(self).archive_path,
            final(self).archive_filename == old(self).archive_filename,
            final(self).stage == next_export_stage(
                old(self).stage,
                old(self).args.tables@.len(),
                outcome is Ok,
            ),
            old(self).stage == ExportStage::Finished ==> final(self).failure == old(self).failure,
            old(self).stage != ExportStage::Finished && outcome is Ok ==> final(self).failure is None,
            old(self).stage != ExportStage::Finished && outcome is Err ==> final(self).failure is Some
                && final(self).failure->0@ == export_failure_message(
                old(self).stage,
                old(self).work_dir@,
                outcome->Err_0@,
            ),
            export_steps_left(final(self).stage, final(self).args.tables@.len())
                < export_steps_left(old(self).stage, old(self).args.tables@.len())
                || old(self).stage == ExportStage::Finished,
    {
        if self.stage == ExportStage::Finished {
            return;
        }
        match outcome {
            Err(e) => {
                let message = if self.stage == ExportStage::Zip {
                    String::from_str("Error zipping destination directory, path: ").concat(
                        self.work_dir.as_str(),
                    ).concat(", error: ").concat(e.message.as_str())
                } else {
                    e.message
                };
                self.failure = Some(message);
                self.stage = ExportStage::Finished;
            },
            Ok(()) => {
                let n = self.args.tables.len();
                self.stage = match self.stage {
                    ExportStage::Prepare => if n == 0 {
                        ExportStage::Zip
                    } else {
                        ExportStage::Format(0)
                    },
                    ExportStage::Format(i) => ExportStage::Collation(i),
                    ExportStage::Collation(i) => ExportStage::Data(i),
                    ExportStage::Data(i) => ExportStage::Compress(i),
                    ExportStage::Compress(i) => if i + 1 < n {
                        ExportStage::Format(i + 1)
                    } else {
                        ExportStage::Zip
                    },
                    ExportStage::Zip => ExportStage::Finished,
                    ExportStage::Finished => ExportStage::Finished,
                };
            },
        }
    }
}

/// An export fails fast: a failed step, whatever the table, moves it to its
/// end, where it stays, so no later step or table is attempted; and while
/// every step succeeds, each table goes through format, post-processing,
/// data and compression before the next table starts, in argument order.
pub proof fn lemma_export_fail_fast(stage: ExportStage, n: nat, ok: bool)
    ensures
        next_export_stage(stage, n, false) == ExportStage::Finished,
        next_export_stage(ExportStage::Finished, n, ok) == ExportStage::Finished,
        forall|i: usize|
            i < n ==> {
                &&& next_export_stage(ExportStage::Format(i), n, true) == ExportStage::Collation(i)
                &&& next_export_stage(ExportStage::Collation(i), n, true) == ExportStage::Data(i)
                &&& next_export_stage(ExportStage::Data(i), n, true) == ExportStage::Compress(i)
                &&& next_export_stage(ExportStage::Compress(i), n, true) == if i + 1 < n {
                    ExportStage::Format((i + 1) as usize)
                } else {
                    ExportStage::Zip
                }
            },
{
}

/// The export `job` is as `ExportJob::new` starts it for `conn` and `args`.
pub open spec fn export_started(job: ExportJob, conn: TdsConnConfig, args: ExportArgs) -> bool {
    &&& job.wf()
    &&& job.stage == ExportStage::Prepare
    &&& job.failure is None
    &&& job.conn == conn
    &&& job.args == args
    &&& job.archive_filename@ == archive_filename_of(args.dest_filename@)
    &&& joined_path_shape(args.parent_dir@, work_dir_name_of(args.dest_filename@), job.work_dir@)
    &&& joined_path_shape(args.parent_dir@, archive_filename_of(args.dest_filename@), job.archive_path@)
}

/// Each line of `reported` went to `progress_fun`, in that order.
pub open spec fn reported_through<P: Fn(&str)>(progress_fun: &P, reported: Seq<Seq<char>>) -> bool {
    forall|k: int|
        #![trigger reported[k]]
        0 <= k < reported.len() ==> exists|s: &str|
            s@ == reported[k] && #[trigger] progress_fun.ensures((s,), ())
}

/// The stages that an export of `n` tables goes through when its steps end
/// as `oks` says (`true`: success): the stage of each step, then the stage
/// after the last one.
pub open spec fn export_stages(n: nat, oks: Seq<bool>) -> Seq<ExportStage>
    decreases oks.len(),
{
    if oks.len() == 0 {
        seq![ExportStage::Prepare]
    } else {
        let s = export_stages(n, oks.drop_last());
        s.push(next_export_stage(s.last(), n, oks.last()))
    }
}

/// Which steps of a log succeeded.
pub open spec fn export_oks(log: Seq<(ExportAction, Result<(), TransferError>)>) -> Seq<bool> {
    log.map_values(|s: (ExportAction, Result<(), TransferError>)| s.1 is Ok)
}

/// The progress lines reported before the first `k` steps of `stages`.
pub open spec fn export_reported_before(
    args: ExportArgs,
    archive_path: Seq<char>,
    stages: Seq<ExportStage>,
    k: nat,
) -> Seq<Seq<char>>
    decreases k,
{
    if k == 0 {
        Seq::empty()
    } else {
        export_reported_before(args, archive_path, stages, (k - 1) as nat) + export_progress(
            args,
            archive_path,
            stages[k - 1],
            false,
        )
    }
}

/// A whole run of the export `job`: it handed out the actions of `log` in
/// order, each got the outcome beside it, it reported the lines `reported`
/// and returned `r`. Each action is the one of its stage; only the last step
/// may have failed, and the export then ends with that step's error (for a
/// failed packaging step, the message naming the working directory);
/// otherwise it ends in success after packaging, and "Export complete" is
/// the last line reported.
pub open spec fn export_run(
    job: ExportJob,
    log: Seq<(ExportAction, Result<(), TransferError>)>,
    reported: Seq<Seq<char>>,
    r: ExportResult,
) -> bool {
    let stages = export_stages(job.args.tables@.len(), export_oks(log));
    let failed = log.len() > 0 && log.last().1 is Err;
    &&& stages.len() == log.len() + 1
    &&& stages.last() == ExportStage::Finished
    &&& forall|i: int| 0 <= i < log.len() ==> #[trigger] export_step_fits(job, log, i)
    &&& forall|i: int| 0 <= i < log.len() - 1 ==> (#[trigger] log[i]).1 is Ok
    &&& r.error@ == if failed {
        export_failure_message(stages[log.len() - 1], job.work_dir@, log.last().1->Err_0@)
    } else {
        Seq::<char>::empty()
    }
    &&& reported == export_reported_before(job.args, job.archive_path@, stages, log.len())
        + export_progress(job.args, job.archive_path@, ExportStage::Finished, failed)
}

/// Step `i` of `log` is the action of its stage, and the export was not
/// over before it.
pub open spec fn export_step_fits(
    job: ExportJob,
    log: Seq<(ExportAction, Result<(), TransferError>)>,
    i: int,
) -> bool {
    let stages = export_stages(job.args.tables@.len(), export_oks(log));
    stages[i] != ExportStage::Finished && export_action_fits(
        job.conn,
        job.args,
        job.archive_filename@,
        stages[i],
        log[i].0,
    )
}

proof fn lemma_export_stages_push(n: nat, oks: Seq<bool>, b: bool)
    ensures
        export_stages(n, oks).len() == oks.len() + 1,
        export_stages(n, oks.push(b)) == export_stages(n, oks).push(
            next_export_stage(export_stages(n, oks).last(), n, b),
        ),
    decreases oks.len(),
{
    assert(oks.push(b).drop_last() =~= oks);
    if oks.len() > 0 {
        lemma_export_stages_push(n, oks.drop_last(), oks.last());
        assert(oks.drop_last().push(oks.last()) =~= oks);
    }
}

proof fn lemma_export_reported_prefix(
    args: ExportArgs,
    archive_path: Seq<char>,
    s1: Seq<ExportStage>,
    s2: Seq<ExportStage>,
    k: nat,
)
    requires
        k <= s1.len(),
        k <= s2.len(),
        forall|i: int| 0 <= i < k ==> s1[i] == s2[i],
    ensures
        export_reported_before(args, archive_path, s1, k) == export_reported_before(
            args,
            archive_path,
            s2,
            k,
        ),
    decreases k,
{
    if k > 0 {
        lemma_export_reported_prefix(args, archive_path, s1, s2, (k - 1) as nat);
    }
}

proof fn lemma_export_stages_step(n: nat, oks: Seq<bool>, i: int)
    requires
        0 <= i < oks.len(),
    ensures
        export_stages(n, oks).len() == oks.len() + 1,
        export_stages(n, oks)[i + 1] == next_export_stage(export_stages(n, oks)[i], n, oks[i]),
    decreases oks.len(),
{
    let p = oks.drop_last();
    lemma_export_stages_push(n, p, oks.last());
    assert(p.push(oks.last()) =~= oks);
    if i < oks.len() - 1 {
        lemma_export_stages_step(n, p, i);
    }
}

proof fn lemma_export_prepare_first(n: nat, oks: Seq<bool>)
    ensures
        export_stages(n, oks)[0] == ExportStage::Prepare,
    decreases oks.len(),
{
    if oks.len() > 0 {
        lemma_export_prepare_first(n, oks.drop_last());
        lemma_export_stages_push(n, oks.drop_last(), oks.last());
        assert(oks.drop_last().push(oks.last()) =~= oks);
    }
}

proof fn lemma_export_reported_first(
    args: ExportArgs,
    archive_path: Seq<char>,
    stages: Seq<ExportStage>,
    k: nat,
)
    requires
        1 <= k <= stages.len(),
        stages[0] == ExportStage::Prepare,
    ensures
        export_reported_before(args, archive_path, stages, k).len() > 0,
        export_reported_before(args, archive_path, stages, k)[0] == "Running export ..."@,
    decreases k,
{
    if k > 1 {
        lemma_export_reported_first(args, archive_path, stages, (k - 1) as nat);
    } else {
        assert(export_reported_before(args, archive_path, stages, 0) =~= Seq::<Seq<char>>::empty());
    }
}

/// In every run of an export, a failed step is the last step and its error
/// is the outcome; and a run where no step failed handed out exactly one
/// packaging step, as its last, succeeded, and reported "Export complete"
/// last.
pub proof fn lemma_export_run_outcome(
    job: ExportJob,
    log: Seq<(ExportAction, Result<(), TransferError>)>,
    reported: Seq<Seq<char>>,
    r: ExportResult,
)
    requires
        export_run(job, log, reported, r),
    ensures
        log.len() > 0,
        reported[0] == "Running export ..."@,
        forall|i: int| 0 <= i < log.len() && (#[trigger] log[i]).1 is Err ==> i == log.len() - 1,
        log.last().1 is Err ==> r.error@ == export_failure_message(
            export_stages(job.args.tables@.len(), export_oks(log))[log.len() - 1],
            job.work_dir@,
            log.last().1->Err_0@,
        ),
        log.last().1 is Ok ==> {
            &&& log.last().0 is ZipWorkDir
            &&& log.last().0->ZipWorkDir_0@ == job.archive_filename@
            &&& forall|i: int| 0 <= i < log.len() - 1 ==> !((#[trigger] log[i]).0 is ZipWorkDir)
            &&& r.error@.len() == 0
            &&& reported.last() == "Export complete"@
        },
{
    let n = job.args.tables@.len();
    let oks = export_oks(log);
    let stages = export_stages(n, oks);
    if log.len() == 0 {
        assert(oks =~= Seq::<bool>::empty());
        assert(stages == seq![ExportStage::Prepare]);
    }
    lemma_export_stages_push(n, oks, true);
    assert(stages[0] == ExportStage::Prepare) by {
        lemma_export_prepare_first(n, oks);
    }
    lemma_export_reported_first(job.args, job.archive_path@, stages, log.len());
    if log.last().1 is Ok {
        let m = log.len() - 1;
        lemma_export_stages_step(n, oks, m);
        assert(export_step_fits(job, log, m));
        assert(stages[m] == ExportStage::Zip);
        assert forall|i: int| 0 <= i < log.len() - 1 implies !((#[trigger] log[i]).0 is ZipWorkDir) by {
            lemma_export_stages_step(n, oks, i);
            lemma_export_stages_step(n, oks, i + 1);
            assert(export_step_fits(job, log, i));
            assert(export_step_fits(job, log, i + 1));
            assert(log[i].1 is Ok);
        }
        reveal_strlit("Export complete");
    }
}

/// Runs an export to its end: reports each progress line through
/// `progress_fun`, has `perform` carry out each action, and returns the
/// outcome. Whatever `perform` returns, the run is one that `export_run`
/// describes: the actions of the stages in order, each performed once, the
/// first failure ending the export with its error.
pub fn run_export<P: Fn(&str), X: Fn(&ExportAction) -> Result<(), TransferError>>(
    progress_fun: &P,
    perform: &X,
    conn: TdsConnConfig,
    eargs: ExportArgs,
) -> (r: ExportResult)
    requires
        forall|s: &str| progress_fun.requires((s,)),
        forall|a: &ExportAction| perform.requires((a,)),
    ensures
        exists|
            job: ExportJob,
            log: Seq<(ExportAction, Result<(), TransferError>)>,
            reported: Seq<Seq<char>>,
        |
            #![trigger export_run(job, log, reported, r)]
            export_started(job, conn, eargs) && export_run(job, log, reported, r) && (forall|
                i: int,
            |
                0 <= i < log.len() ==> #[trigger] perform.ensures((&log[i].0,), log[i].1)) && reported_through(progress_fun, reported),
        (forall|a: &ExportAction, out: Result<(), TransferError>|
            perform.ensures((a,), out) ==> out is Ok) ==> r.error@.len() == 0,
        (forall|a: &ExportAction, out: Result<(), TransferError>|
            perform.ensures((a,), out) ==> out is Err && out->Err_0@.len() > 0) ==> r.error@.len()
            > 0,
{
    let mut job = ExportJob::new(conn, eargs);
    let ghost job0 = job;
    let ghost n = job.args.tables@.len();
    let ghost mut log: Seq<(ExportAction, Result<(), TransferError>)> = Seq::empty();
    let ghost mut reported: Seq<Seq<char>> = Seq::empty();
    proof {
        lemma_export_stages_push(n, export_oks(log), true);
        assert(export_oks(log) =~= Seq::<bool>::empty());
    }
    loop
        invariant
            export_started(job0, conn, eargs),
            n == job0.args.tables@.len(),
            job.wf(),
            job.conn == job0.conn,
            job.args == job0.args,
            job.work_dir == job0.work_dir,
            job.archive_path == job0.archive_path,
            job.archive_filename == job0.archive_filename,
            export_stages(n, export_oks(log)).len() == log.len() + 1,
            job.stage == export_stages(n, export_oks(log)).last(),
            forall|i: int| 0 <= i < log.len() ==> #[trigger] export_step_fits(job0, log, i),
            forall|i: int| 0 <= i < log.len() ==> #[trigger] perform.ensures((&log[i].0,), log[i].1),
            forall|i: int| 0 <= i < log.len() - 1 ==> (#[trigger] log[i]).1 is Ok,
            job.stage != ExportStage::Finished ==> forall|i: int|
                0 <= i < log.len() ==> (#[trigger] log[i]).1 is Ok,
            (log.len() > 0 && log.last().1 is Err) ==> job.failure is Some && job.failure->0@
                == export_failure_message(
                export_stages(n, export_oks(log))[log.len() - 1],
                job0.work_dir@,
                log.last().1->Err_0@,
            ),
            !(log.len() > 0 && log.last().1 is Err) ==> job.failure is None,
            reported == export_reported_before(
                job0.args,
                job0.archive_path@,
                export_stages(n, export_oks(log)),
                log.len(),
            ),
            reported_through(progress_fun, reported),
            (forall|a: &ExportAction, out: Result<(), TransferError>|
                perform.ensures((a,), out) ==> out is Ok) ==> job.failure is None,
            (forall|a: &ExportAction, out: Result<(), TransferError>|
                perform.ensures((a,), out) ==> out is Err && out->Err_0@.len() > 0) ==> (job.stage
                == ExportStage::Prepare || (job.failure is Some && job.failure->0@.len() > 0)),
            forall|s: &str| progress_fun.requires((s,)),
            forall|a: &ExportAction| perform.requires((a,)),
        decreases export_steps_left(job.stage, job.args.tables@.len()),
    {
        let ghost stages = export_stages(n, export_oks(log));
        let lines = job.progress();
        let ghost before = reported;
        let mut k: usize = 0;
        proof {
            assert(texts(lines@).take(0) =~= Seq::<Seq<char>>::empty());
            assert(before + Seq::<Seq<char>>::empty() =~= before);
        }
        while k < lines.len()
            invariant
                k <= lines@.len(),
                reported == before + texts(lines@).take(k as int),
                reported_through(progress_fun, reported),
                forall|s: &str| progress_fun.requires((s,)),
            decreases lines@.len() - k,
        {
            let line = lines[k].as_str();
            progress_fun(line);
            proof {
                assert(progress_fun.ensures((line,), ()));
                assert(texts(lines@).take(k + 1) =~= texts(lines@).take(k as int).push(line@));
                let ghost prev = reported;
                reported = reported.push(line@);
                assert forall|j: int| #![trigger reported[j]] 0 <= j < reported.len() implies exists|s: &str|
                    s@ == reported[j] && #[trigger] progress_fun.ensures((s,), ()) by {
                    if j < prev.len() {
                        assert(reported[j] == prev[j]);
                    }
                    if j == reported.len() - 1 {
                        assert(line@ == reported[j] && progress_fun.ensures((line,), ()));
                    }
                }
            }
            k = k + 1;
        }
        proof {
            assert(texts(lines@).take(lines@.len() as int) =~= texts(lines@));
        }
        let action = job.action();
        if let ExportAction::Finish(result) = action {
            proof {
                assert(job.stage == ExportStage::Finished);
                assert(reported == export_reported_before(
                    job0.args,
                    job0.archive_path@,
                    stages,
                    log.len(),
                ) + export_progress(
                    job0.args,
                    job0.archive_path@,
                    ExportStage::Finished,
                    log.len() > 0 && log.last().1 is Err,
                ));
                let ghost stg = export_stages(job0.args.tables@.len(), export_oks(log));
                assert(stg == stages);
                assert(stg.len() == log.len() + 1);
                assert(stg.last() == ExportStage::Finished);
                assert(forall|i: int| 0 <= i < log.len() - 1 ==> (#[trigger] log[i]).1 is Ok);
                assert(result.error@ == if log.len() > 0 && log.last().1 is Err {
                    export_failure_message(stg[log.len() - 1], job0.work_dir@, log.last().1->Err_0@)
                } else {
                    Seq::<char>::empty()
                });
                assert(export_run(job0, log, reported, result));
            }
            return result;
        }
        let outcome = perform(&action);
        let ghost g_out = outcome;
        let ghost g_action = action;
        proof {
            assert(!(g_action is Finish));
            assert(job.stage != ExportStage::Finished);
        }
        job.advance(outcome);
        proof {
            let old_log = log;
            log = log.push((g_action, g_out));
            assert(export_oks(log) =~= export_oks(old_log).push(g_out is Ok));
            lemma_export_stages_push(n, export_oks(old_log), g_out is Ok);
            let ns = export_stages(n, export_oks(log));
            assert(ns.len() == log.len() + 1);
            assert(ns.drop_last() =~= stages);
            assert forall|i: int| 0 <= i < log.len() implies #[trigger] export_step_fits(job0, log, i) by {
                assert(ns[i] == stages[i]);
                if i < old_log.len() {
                    assert(log[i] == old_log[i]);
                    assert(export_step_fits(job0, old_log, i));
                } else {
                    assert(log[i].0 == g_action);
                }
            }
            assert forall|i: int| 0 <= i < log.len() implies #[trigger] perform.ensures(
                (&log[i].0,),
                log[i].1,
            ) by {
                if i < old_log.len() {
                    assert(log[i] == old_log[i]);
                }
            }
            assert forall|i: int| 0 <= i < log.len() - 1 implies (#[trigger] log[i]).1 is Ok by {
                assert(log[i] == old_log[i]);
            }
            lemma_export_reported_prefix(job0.args, job0.archive_path@, stages, ns, old_log.len());
            assert(reported == export_reported_before(
                job0.args,
                job0.archive_path@,
                ns,
                log.len(),
            ));
        }
    }
}

} // verus!
