use vstd::prelude::*;
use vstd::string::*;

use crate::bcp::{data_filename, data_filename_text, import_args, import_mode_args};
use crate::conn::{texts, TdsConnConfig};
use crate::error::TransferError;
use crate::table::TableWithSize;

verus! {

/// What an import is asked to do: the database, the tables in the order to
/// load them, the archive, and a scratch directory to unpack into.
#[derive(Clone, Debug)]
pub struct ImportArgs {
    pub dbname: String,
    pub tables: Vec<TableWithSize>,
    pub import_file: String,
    pub work_dir: String,
}

/// The outcome of an import: an empty error on success.
pub struct ImportResult {
    pub error: String,
}

impl ImportResult {
    pub fn success() -> (r: Self)
        ensures
            r.error@ == Seq::<char>::empty(),
    {
        ImportResult { error: String::new() }
    }

    pub fn failure(error: String) -> (r: Self)
        ensures
            r.error@ == error@,
    {
        ImportResult { error }
    }

    /// Whether the import succeeded.
    pub fn is_success(&self) -> (r: bool)
        ensures
            r == (self.error@.len() == 0),
    {
        self.error.as_str().unicode_len() == 0
    }
}

/// Where an import stands. A table stage holds the table's position in the
/// arguments.
#[derive(PartialEq, Eq, Structural, Clone, Copy, Debug)]
pub enum ImportStage {
    /// Clean and create the scratch directory.
    Prepare,
    /// Unpack the table's files from the archive.
    Extract(usize),
    /// Load the table's data.
    Load(usize),
    /// Remove the scratch directory.
    Cleanup,
    /// Over, successfully or not.
    Finished,
}

/// The next thing for the caller to do for an import.
pub enum ImportAction {
    /// Remove any scratch directory left from before, fail unless it is
    /// gone, and create it empty.
    PrepareWorkDir,
    /// Locate the table's entries in the archive with
    /// `locate_table_entries`, decompress its data into the scratch
    /// directory by the codec found, and copy its format descriptor there.
    Extract { schema: String, table: String },
    /// Run the bulk-copy utility in the scratch directory with these
    /// arguments, forwarding its output lines as progress.
    RunBcp(Vec<String>),
    /// Remove the scratch directory; a failure here is not the import's.
    RemoveWorkDir,
    /// Nothing is left to do; this is the outcome.
    Finish(ImportResult),
}

/// The stage after `stage`, once its step succeeded (`ok`) or failed, for
/// an import of `n` tables. Cleanup ends the import whatever its outcome.
pub open spec fn next_import_stage(stage: ImportStage, n: nat, ok: bool) -> ImportStage {
    match stage {
        ImportStage::Cleanup => ImportStage::Finished,
        ImportStage::Finished => ImportStage::Finished,
        _ => if !ok {
            ImportStage::Finished
        } else {
            match stage {
                ImportStage::Prepare => if n == 0 {
                    ImportStage::Cleanup
                } else {
                    ImportStage::Extract(0)
                },
                ImportStage::Extract(i) => ImportStage::Load(i),
                ImportStage::Load(i) => if i + 1 < n {
                    ImportStage::Extract((i + 1) as usize)
                } else {
                    ImportStage::Cleanup
                },
                _ => ImportStage::Finished,
            }
        },
    }
}

/// How many steps an import of `n` tables has left from `stage`.
pub open spec fn import_steps_left(stage: ImportStage, n: nat) -> nat {
    match stage {
        ImportStage::Prepare => 2 * n + 2,
        ImportStage::Extract(i) => 2 * (n - i) as nat + 1,
        ImportStage::Load(i) => 2 * (n - i) as nat,
        ImportStage::Cleanup => 1,
        ImportStage::Finished => 0,
    }
}

/// An import in progress, driven one step at a time: the caller performs
/// `action()` and reports its outcome to `advance`.
pub struct ImportJob {
    pub conn: TdsConnConfig,
    pub args: ImportArgs,
    pub stage: ImportStage,
    /// The error that ended the import, if one did.
    pub failure: Option<String>,
}

/// The progress lines that an import reports before the action of
/// `stage`, at its end after a failure or not (`failed`).
pub open spec fn import_progress(args: ImportArgs, stage: ImportStage, failed: bool) -> Seq<
    Seq<char>,
> {
    match stage {
        ImportStage::Prepare => seq!["Running import: "@ + args.import_file@ + " ..."@],
        ImportStage::Extract(i) => seq![
            "Unpacking "@ + data_filename(
                args.tables@[i as int].schema@,
                args.tables@[i as int].table@,
            ) + " into directory "@ + args.work_dir@,
        ],
        ImportStage::Load(i) => seq![
            "Importing file: "@ + data_filename(
                args.tables@[i as int].schema@,
                args.tables@[i as int].table@,
            ),
        ],
        ImportStage::Cleanup => seq!["Cleaning up work directory ...."@],
        ImportStage::Finished => if failed {
            Seq::empty()
        } else {
            seq!["Import complete"@]
        },
    }
}

/// The action that an import hands out at `stage` (at its end, `Finish`).
pub open spec fn import_action_fits(
    conn: TdsConnConfig,
    args: ImportArgs,
    stage: ImportStage,
    r: ImportAction,
) -> bool {
    match stage {
        ImportStage::Prepare => r is PrepareWorkDir,
        ImportStage::Extract(i) => r is Extract && r->schema@ == args.tables@[i as int].schema@
            && r->table@ == args.tables@[i as int].table@,
        ImportStage::Load(i) => r is RunBcp && texts(r->RunBcp_0@) == import_mode_args(
            conn,
            args.dbname@,
            args.tables@[i as int].schema@,
            args.tables@[i as int].table@,
        ),
        ImportStage::Cleanup => r is RemoveWorkDir,
        ImportStage::Finished => r is Finish,
    }
}

impl ImportJob {
    /// The table positions of the stages lie within the arguments, and only
    /// a finished import has failed.
    pub open spec fn wf(&self) -> bool {
        let n = self.args.tables@.len();
        &&& match self.stage {
            ImportStage::Extract(i) => i < n,
            ImportStage::Load(i) => i < n,
            _ => true,
        }
        &&& self.failure is Some ==> self.stage == ImportStage::Finished
    }

    /// Starts an import.
    pub fn new(conn: TdsConnConfig, args: ImportArgs) -> (r: Self)
        ensures
            r.wf(),
            r.stage == ImportStage::Prepare,
            r.failure is None,
            r.conn == conn,
            r.args == args,
    {
        ImportJob { conn, args, stage: ImportStage::Prepare, failure: None }
    }

    /// What the caller is to do next.
    pub fn action(&self) -> (r: ImportAction)
        requires
            self.wf(),
        ensures
            import_action_fits(self.conn, self.args, self.stage, r),
            self.stage == ImportStage::Finished ==> (match self.failure {
                Some(e) => r->Finish_0.error@ == e@,
                None => r->Finish_0.error@.len() == 0,
            }),
    {
        match self.stage {
            ImportStage::Prepare => ImportAction::PrepareWorkDir,
            ImportStage::Extract(i) => {
                let t = &self.args.tables[i];
                ImportAction::Extract { schema: t.schema.clone(), table: t.table.clone() }
            },
            ImportStage::Load(i) => {
                let t = &self.args.tables[i];
                ImportAction::RunBcp(
                    import_args(&self.conn, self.args.dbname.as_str(), t.schema.as_str(), t.table.as_str()),
                )
            },
            ImportStage::Cleanup => ImportAction::RemoveWorkDir,
            ImportStage::Finished => match &self.failure {
                Some(e) => ImportAction::Finish(ImportResult::failure(e.clone())),
                None => ImportAction::Finish(ImportResult::success()),
            },
        }
    }

    /// The progress lines to report before performing `action()`.
    pub fn progress(&self) -> (r: Vec<String>)
        requires
            self.wf(),
        ensures
            texts(r@) == import_progress(self.args, self.stage, self.failure is Some),
    {
        let mut lines: Vec<String> = Vec::new();
        match self.stage {
            ImportStage::Prepare => {
                lines.push(
                    String::from_str("Running import: ").concat(self.args.import_file.as_str()).concat(
                        " ...",
                    ),
                );
            },
            ImportStage::Extract(i) => {
                let t = &self.args.tables[i];
                let data = data_filename_text(t.schema.as_str(), t.table.as_str());
                lines.push(
                    String::from_str("Unpacking ").concat(data.as_str()).concat(
                        " into directory ",
                    ).concat(self.args.work_dir.as_str()),
                );
            },
            ImportStage::Load(i) => {
                let t = &self.args.tables[i];
                let data = data_filename_text(t.schema.as_str(), t.table.as_str());
                lines.push(String::from_str("Importing file: ").concat(data.as_str()));
            },
            ImportStage::Cleanup => {
                lines.push(String::from_str("Cleaning up work directory ...."));
            },
            ImportStage::Finished => {
                if self.failure.is_none() {
                    lines.push(String::from_str("Import complete"));
                }
            },
        }
        proof {
            assert(texts(lines@) =~= import_progress(self.args, self.stage, self.failure is Some));
        }
        lines
    }

    /// Takes the outcome of the last action. A failed step before cleanup
    /// ends the import with its error, and the tables after it are not
    /// attempted; the outcome of cleanup is ignored.
    pub fn advance(&mut self, outcome: Result<(), TransferError>)
        requires
            old(self).wf(),
        ensures
            final(self).wf(),
            final(self).conn == old(self).conn,
            final(self).args == old(self).args,
            final(self).stage == next_import_stage(
                old(self).stage,
                old(self).args.tables@.len(),
                outcome is Ok,
            ),
            old(self).stage == ImportStage::Finished || old(self).stage == ImportStage::Cleanup
                || outcome is Ok ==> final(self).failure == old(self).failure,
            old(self).stage != ImportStage::Finished && old(self).stage != ImportStage::Cleanup
                && outcome is Err ==> final(self).failure is Some && final(self).failure->0@
                == outcome->Err_0@,
            import_steps_left(final(self).stage, final(self).args.tables@.len())
                < import_steps_left(old(self).stage, old(self).args.tables@.len())
                || old(self).stage == ImportStage::Finished,
    {
        match self.stage {
            ImportStage::Finished => {
                return ;
            },
            ImportStage::Cleanup => {
                self.stage = ImportStage::Finished;
                return ;
            },
            _ => {},
        }
        match outcome {
            Err(e) => {
                self.failure = Some(e.message);
                self.stage = ImportStage::Finished;
            },
            Ok(()) => {
                let n = self.args.tables.len();
                self.stage = match self.stage {
                    ImportStage::Prepare => if n == 0 {
                        ImportStage::Cleanup
                    } else {
                        ImportStage::Extract(0)
                    },
                    ImportStage::Extract(i) => ImportStage::Load(i),
                    ImportStage::Load(i) => if i + 1 < n {
                        ImportStage::Extract(i + 1)
                    } else {
                        ImportStage::Cleanup
                    },
                    _ => ImportStage::Finished,
                };
            },
        }
    }
}

/// An import fails fast: a failed step before cleanup moves it to its end,
/// where it stays, so no later table is attempted; cleanup ends it whatever
/// its outcome; and while every step succeeds, each table is unpacked and
/// loaded before the next one starts, in argument order.
pub proof fn lemma_import_fail_fast(stage: ImportStage, n: nat, ok: bool)
    ensures
        next_import_stage(stage, n, false) == ImportStage::Finished,
        next_import_stage(ImportStage::Cleanup, n, ok) == ImportStage::Finished,
        next_import_stage(ImportStage::Finished, n, ok) == ImportStage::Finished,
        forall|i: usize|
            i < n ==> {
                &&& next_import_stage(ImportStage::Extract(i), n, true) == ImportStage::Load(i)
                &&& next_import_stage(ImportStage::Load(i), n, true) == if i + 1 < n {
                    ImportStage::Extract((i + 1) as usize)
                } else {
                    ImportStage::Cleanup
                }
            },
{
}

/// Each line of `reported` went to `progress_fun`, in that order.
pub open spec fn import_reported_through<P: Fn(&str)>(
    progress_fun: &P,
    reported: Seq<Seq<char>>,
) -> bool {
    forall|k: int|
        #![trigger reported[k]]
        0 <= k < reported.len() ==> exists|s: &str|
            s@ == reported[k] && #[trigger] progress_fun.ensures((s,), ())
}

/// The stages that an import of `n` tables goes through when its steps end
/// as `oks` says (`true`: success): the stage of each step, then the stage
/// after the last one.
pub open spec fn import_stages(n: nat, oks: Seq<bool>) -> Seq<ImportStage>
    decreases oks.len(),
{
    if oks.len() == 0 {
        seq![ImportStage::Prepare]
    } else {
        let s = import_stages(n, oks.drop_last());
        s.push(next_import_stage(s.last(), n, oks.last()))
    }
}

/// Which steps of a log succeeded.
pub open spec fn import_oks(log: Seq<(ImportAction, Result<(), TransferError>)>) -> Seq<bool> {
    log.map_values(|s: (ImportAction, Result<(), TransferError>)| s.1 is Ok)
}

/// The progress lines reported before the first `k` steps of `stages`.
pub open spec fn import_reported_before(args: ImportArgs, stages: Seq<ImportStage>, k: nat) -> Seq<
    Seq<char>,
>
    decreases k,
{
    if k == 0 {
        Seq::empty()
    } else {
        import_reported_before(args, stages, (k - 1) as nat) + import_progress(
            args,
            stages[k - 1],
            false,
        )
    }
}

/// The log ends with a failed step other than cleanup.
pub open spec fn import_failed(
    n: nat,
    log: Seq<(ImportAction, Result<(), TransferError>)>,
) -> bool {
    log.len() > 0 && log.last().1 is Err && import_stages(n, import_oks(log))[log.len() - 1]
        != ImportStage::Cleanup
}

/// Step `i` of `log` is the action of its stage, and the import was not
/// over before it.
pub open spec fn import_step_fits(
    job: ImportJob,
    log: Seq<(ImportAction, Result<(), TransferError>)>,
    i: int,
) -> bool {
    let stages = import_stages(job.args.tables@.len(), import_oks(log));
    stages[i] != ImportStage::Finished && import_action_fits(job.conn, job.args, stages[i], log[i].0)
}

/// A whole run of the import `job`: it handed out the actions of `log` in
/// order, each got the outcome beside it, it reported the lines `reported`
/// and returned `r`. Each action is the one of its stage, so the tables are
/// unpacked and loaded in argument order and cleanup comes last; only the
/// last step may have failed. A failure before cleanup ends the import with
/// its error; otherwise the import succeeds, whatever cleanup gave, and
/// "Import complete" is the last line reported.
pub open spec fn import_run(
    job: ImportJob,
    log: Seq<(ImportAction, Result<(), TransferError>)>,
    reported: Seq<Seq<char>>,
    r: ImportResult,
) -> bool {
    let n = job.args.tables@.len();
    let stages = import_stages(n, import_oks(log));
    let failed = import_failed(n, log);
    &&& stages.len() == log.len() + 1
    &&& stages.last() == ImportStage::Finished
    &&& forall|i: int| 0 <= i < log.len() ==> #[trigger] import_step_fits(job, log, i)
    &&& forall|i: int| 0 <= i < log.len() - 1 ==> (#[trigger] log[i]).1 is Ok
    &&& r.error@ == if failed {
        log.last().1->Err_0@
    } else {
        Seq::<char>::empty()
    }
    &&& reported == import_reported_before(job.args, stages, log.len()) + import_progress(
        job.args,
        ImportStage::Finished,
        failed,
    )
}

proof fn lemma_import_stages_push(n: nat, oks: Seq<bool>, b: bool)
    ensures
        import_stages(n, oks).len() == oks.len() + 1,
        import_stages(n, oks.push(b)) == import_stages(n, oks).push(
            next_import_stage(import_stages(n, oks).last(), n, b),
        ),
    decreases oks.len(),
{
    assert(oks.push(b).drop_last() =~= oks);
    if oks.len() > 0 {
        lemma_import_stages_push(n, oks.drop_last(), oks.last());
        assert(oks.drop_last().push(oks.last()) =~= oks);
    }
}

proof fn lemma_import_reported_prefix(
    args: ImportArgs,
    s1: Seq<ImportStage>,
    s2: Seq<ImportStage>,
    k: nat,
)
    requires
        k <= s1.len(),
        k <= s2.len(),
        forall|i: int| 0 <= i < k ==> s1[i] == s2[i],
    ensures
        import_reported_before(args, s1, k) == import_reported_before(args, s2, k),
    decreases k,
{
    if k > 0 {
        lemma_import_reported_prefix(args, s1, s2, (k - 1) as nat);
    }
}

proof fn lemma_import_stages_step(n: nat, oks: Seq<bool>, i: int)
    requires
        0 <= i < oks.len(),
    ensures
        import_stages(n, oks).len() == oks.len() + 1,
        import_stages(n, oks)[i + 1] == next_import_stage(import_stages(n, oks)[i], n, oks[i]),
    decreases oks.len(),
{
    let p = oks.drop_last();
    lemma_import_stages_push(n, p, oks.last());
    assert(p.push(oks.last()) =~= oks);
    if i < oks.len() - 1 {
        lemma_import_stages_step(n, p, i);
    }
}

/// The stage of step `j` of an import of `n` tables where every step
/// succeeds: preparation, then each table unpacked and loaded in turn,
/// then cleanup.
pub open spec fn import_plan(n: nat, j: int) -> ImportStage {
    if j == 0 {
        ImportStage::Prepare
    } else if j == 2 * n + 1 {
        ImportStage::Cleanup
    } else if j > 2 * n + 1 {
        ImportStage::Finished
    } else if j % 2 == 1 {
        ImportStage::Extract(((j - 1) / 2) as usize)
    } else {
        ImportStage::Load(((j - 2) / 2) as usize)
    }
}

/// In every run of an import, a failed step is the last step; a failure
/// before cleanup is the outcome; and a run where nothing failed before
/// cleanup went through the plan: each table unpacked and then loaded with
/// its own command line, in argument order, then cleanup as the last step,
/// and it succeeded with "Import complete" reported last.
pub proof fn lemma_import_run_outcome(
    job: ImportJob,
    log: Seq<(ImportAction, Result<(), TransferError>)>,
    reported: Seq<Seq<char>>,
    r: ImportResult,
)
    requires
        import_run(job, log, reported, r),
        job.args.tables@.len() <= usize::MAX,
    ensures
        log.len() > 0,
        forall|i: int| 0 <= i < log.len() && (#[trigger] log[i]).1 is Err ==> i == log.len() - 1,
        import_failed(job.args.tables@.len(), log) ==> r.error@ == log.last().1->Err_0@,
        !import_failed(job.args.tables@.len(), log) ==> {
            &&& log.len() == 2 * job.args.tables@.len() + 2
            &&& forall|j: int|
                0 <= j < log.len() ==> import_stages(job.args.tables@.len(), import_oks(log))[j]
                    == #[trigger] import_plan(job.args.tables@.len(), j)
            &&& forall|k: int|
                0 <= k < job.args.tables@.len() ==> {
                    &&& (#[trigger] log[2 * k + 1]).0 is Extract
                    &&& log[2 * k + 1].0->schema@ == job.args.tables@[k].schema@
                    &&& log[2 * k + 1].0->table@ == job.args.tables@[k].table@
                    &&& log[2 * k + 2].0 is RunBcp
                    &&& texts(log[2 * k + 2].0->RunBcp_0@) == import_mode_args(
                        job.conn,
                        job.args.dbname@,
                        job.args.tables@[k].schema@,
                        job.args.tables@[k].table@,
                    )
                }
            &&& log.last().0 is RemoveWorkDir
            &&& r.error@.len() == 0
            &&& reported.len() >= 2
            &&& reported[reported.len() - 2] == "Cleaning up work directory ...."@
            &&& reported.last() == "Import complete"@
        },
{
    let n = job.args.tables@.len();
    let oks = import_oks(log);
    let stages = import_stages(n, oks);
    if log.len() == 0 {
        assert(oks =~= Seq::<bool>::empty());
        assert(stages == seq![ImportStage::Prepare]);
    }
    if !import_failed(n, log) {
        let m = log.len() - 1;
        assert forall|j: int| 0 <= j < log.len() implies stages[j] == #[trigger] import_plan(n, j) by {
            lemma_import_plan_prefix(job, log, reported, r, j);
        }
        lemma_import_stages_step(n, oks, m);
        assert(import_step_fits(job, log, m));
        assert(stages[m] == ImportStage::Cleanup) by {
            if log.last().1 is Ok {
                assert(stages[m] == ImportStage::Cleanup);
            }
        }
        assert(stages[m] == import_plan(n, m));
        assert(m == 2 * n + 1);
        assert forall|k: int| 0 <= k < n implies {
            &&& (#[trigger] log[2 * k + 1]).0 is Extract
            &&& log[2 * k + 1].0->schema@ == job.args.tables@[k].schema@
            &&& log[2 * k + 1].0->table@ == job.args.tables@[k].table@
            &&& log[2 * k + 2].0 is RunBcp
            &&& texts(log[2 * k + 2].0->RunBcp_0@) == import_mode_args(
                job.conn,
                job.args.dbname@,
                job.args.tables@[k].schema@,
                job.args.tables@[k].table@,
            )
        } by {
            assert(import_plan(n, 2 * k + 1) == ImportStage::Extract(k as usize));
            assert(import_plan(n, 2 * k + 2) == ImportStage::Load(k as usize));
            assert(import_step_fits(job, log, 2 * k + 1));
            assert(import_step_fits(job, log, 2 * k + 2));
        }
        reveal_strlit("Import complete");
        let b = import_reported_before(job.args, stages, (log.len() - 1) as nat);
        assert(import_reported_before(job.args, stages, log.len() as nat) == b + seq![
            "Cleaning up work directory ...."@,
        ]);
        assert(reported == b + seq!["Cleaning up work directory ...."@] + seq!["Import complete"@]);
        assert(reported[reported.len() - 2] == "Cleaning up work directory ...."@);
    }
}

proof fn lemma_import_plan_prefix(
    job: ImportJob,
    log: Seq<(ImportAction, Result<(), TransferError>)>,
    reported: Seq<Seq<char>>,
    r: ImportResult,
    j: int,
)
    requires
        import_run(job, log, reported, r),
        job.args.tables@.len() <= usize::MAX,
        0 <= j < log.len(),
    ensures
        import_stages(job.args.tables@.len(), import_oks(log))[j] == import_plan(
            job.args.tables@.len(),
            j,
        ),
    decreases j,
{
    let n = job.args.tables@.len();
    let oks = import_oks(log);
    if j == 0 {
        if log.len() > 0 {
            lemma_import_stages_step(n, oks, 0);
        }
        assert(import_stages(n, oks.take(0)) == seq![ImportStage::Prepare]) by {
            assert(oks.take(0) =~= Seq::<bool>::empty());
        }
        lemma_import_stages_prefix(n, oks, 0);
    } else {
        lemma_import_plan_prefix(job, log, reported, r, j - 1);
        lemma_import_stages_step(n, oks, j - 1);
        assert(log[j - 1].1 is Ok);
        assert(import_step_fits(job, log, j));
    }
}

proof fn lemma_import_stages_prefix(n: nat, oks: Seq<bool>, k: int)
    requires
        0 <= k <= oks.len(),
    ensures
        import_stages(n, oks)[k] == import_stages(n, oks.take(k)).last(),
        import_stages(n, oks.take(k)).len() == k + 1,
    decreases oks.len(),
{
    lemma_import_stages_push(n, oks.take(k), true);
    if k < oks.len() {
        let p = oks.drop_last();
        lemma_import_stages_push(n, p, oks.last());
        assert(p.push(oks.last()) =~= oks);
        assert(p.take(k) =~= oks.take(k));
        lemma_import_stages_prefix(n, p, k);
    } else {
        assert(oks.take(k) =~= oks);
    }
}

/// Runs an import to its end: reports each progress line through
/// `progress_fun`, has `perform` carry out each action, and returns the
/// outcome. Whatever `perform` returns, the run is one that `import_run`
/// describes: the actions of the stages in order, each performed once, the
/// first failure before cleanup ending the import with its error.
pub fn run_import<P: Fn(&str), X: Fn(&ImportAction) -> Result<(), TransferError>>(
    progress_fun: &P,
    perform: &X,
    conn: TdsConnConfig,
    iargs: ImportArgs,
) -> (r: ImportResult)
    requires
        forall|s: &str| progress_fun.requires((s,)),
        forall|a: &ImportAction| perform.requires((a,)),
    ensures
        exists|log: Seq<(ImportAction, Result<(), TransferError>)>, reported: Seq<Seq<char>>|
            #![trigger import_run(ImportJob { conn, args: iargs, stage: ImportStage::Prepare, failure: None }, log, reported, r)]
            import_run(
                ImportJob { conn, args: iargs, stage: ImportStage::Prepare, failure: None },
                log,
                reported,
                r,
            ) && (forall|i: int|
                0 <= i < log.len() ==> #[trigger] perform.ensures((&log[i].0,), log[i].1))
                && import_reported_through(progress_fun, reported),
        (forall|a: &ImportAction, out: Result<(), TransferError>|
            perform.ensures((a,), out) ==> out is Ok || a is RemoveWorkDir) ==> r.error@.len() == 0,
        (forall|a: &ImportAction, out: Result<(), TransferError>|
            perform.ensures((a,), out) ==> out is Err && out->Err_0@.len() > 0) ==> r.error@.len()
            > 0,
{
    let mut job = ImportJob::new(conn, iargs);
    let ghost job0 = job;
    let ghost n = job.args.tables@.len();
    let ghost mut log: Seq<(ImportAction, Result<(), TransferError>)> = Seq::empty();
    let ghost mut reported: Seq<Seq<char>> = Seq::empty();
    proof {
        lemma_import_stages_push(n, import_oks(log), true);
        assert(import_oks(log) =~= Seq::<bool>::empty());
    }
    loop
        invariant
            job0 == (ImportJob { conn, args: iargs, stage: ImportStage::Prepare, failure: None }),
            n == job0.args.tables@.len(),
            job.wf(),
            job.conn == job0.conn,
            job.args == job0.args,
            import_stages(n, import_oks(log)).len() == log.len() + 1,
            job.stage == import_stages(n, import_oks(log)).last(),
            forall|i: int| 0 <= i < log.len() ==> #[trigger] import_step_fits(job0, log, i),
            forall|i: int| 0 <= i < log.len() ==> #[trigger] perform.ensures((&log[i].0,), log[i].1),
            forall|i: int| 0 <= i < log.len() - 1 ==> (#[trigger] log[i]).1 is Ok,
            job.stage != ImportStage::Finished ==> forall|i: int|
                0 <= i < log.len() ==> (#[trigger] log[i]).1 is Ok,
            import_failed(n, log) ==> job.failure is Some && job.failure->0@ == log.last().1->Err_0@,
            !import_failed(n, log) ==> job.failure is None,
            reported == import_reported_before(job0.args, import_stages(n, import_oks(log)), log.len()),
            import_reported_through(progress_fun, reported),
            (forall|a: &ImportAction, out: Result<(), TransferError>|
                perform.ensures((a,), out) ==> out is Ok || a is RemoveWorkDir) ==> job.failure is None,
            (forall|a: &ImportAction, out: Result<(), TransferError>|
                perform.ensures((a,), out) ==> out is Err && out->Err_0@.len() > 0) ==> (job.stage
                == ImportStage::Prepare || (job.failure is Some && job.failure->0@.len() > 0)),
            forall|s: &str| progress_fun.requires((s,)),
            forall|a: &ImportAction| perform.requires((a,)),
        decreases import_steps_left(job.stage, job.args.tables@.len()),
    {
        let ghost stages = import_stages(n, import_oks(log));
        let lines = job.progress();
        let ghost before = reported;
        let mut k: usize = 0;
        proof {
            assert(texts(lines@).take(0) =~= Seq::<Seq<char>>::empty());
            assert(before + Seq::<Seq<char>>::empty() =~= before);
        }
        while k < lines.len()
            invariant
                k <= lines@.len(),
                reported == before + texts(lines@).take(k as int),
                import_reported_through(progress_fun, reported),
                forall|s: &str| progress_fun.requires((s,)),
            decreases lines@.len() - k,
        {
            let line = lines[k].as_str();
            progress_fun(line);
            proof {
                assert(progress_fun.ensures((line,), ()));
                assert(texts(lines@).take(k + 1) =~= texts(lines@).take(k as int).push(line@));
                let ghost prev = reported;
                reported = reported.push(line@);
                assert forall|j: int| #![trigger reported[j]] 0 <= j < reported.len() implies exists|s: &str|
                    s@ == reported[j] && #[trigger] progress_fun.ensures((s,), ()) by {
                    if j < prev.len() {
                        assert(reported[j] == prev[j]);
                    } else {
                        assert(line@ == reported[j] && progress_fun.ensures((line,), ()));
                    }
                }
            }
            k = k + 1;
        }
        proof {
            assert(texts(lines@).take(lines@.len() as int) =~= texts(lines@));
        }
        let action = job.action();
        if let ImportAction::Finish(result) = action {
            proof {
                assert(job.stage == ImportStage::Finished);
                assert(import_failed(n, log) == (job.failure is Some));
                assert(reported == import_reported_before(job0.args, stages, log.len())
                    + import_progress(job0.args, ImportStage::Finished, import_failed(n, log)));
                assert(result.error@ == if import_failed(n, log) {
                    log.last().1->Err_0@
                } else {
                    Seq::<char>::empty()
                });
                assert(import_run(job0, log, reported, result));
            }
            return result;
        }
        let outcome = perform(&action);
        let ghost g_out = outcome;
        let ghost g_action = action;
        proof {
            assert(!(g_action is Finish));
            assert(job.stage != ImportStage::Finished);
        }
        job.advance(outcome);
        proof {
            let old_log = log;
            log = log.push((g_action, g_out));
            assert(import_oks(log) =~= import_oks(old_log).push(g_out is Ok));
            lemma_import_stages_push(n, import_oks(old_log), g_out is Ok);
            let ns = import_stages(n, import_oks(log));
            assert(ns.len() == log.len() + 1);
            assert(ns.drop_last() =~= stages);
            assert(ns[old_log.len() as int] == stages[old_log.len() as int]);
            assert forall|i: int| 0 <= i < log.len() implies #[trigger] import_step_fits(job0, log, i) by {
                assert(ns[i] == stages[i]);
                if i < old_log.len() {
                    assert(log[i] == old_log[i]);
                    assert(import_step_fits(job0, old_log, i));
                } else {
                    assert(log[i].0 == g_action);
                }
            }
            assert forall|i: int| 0 <= i < log.len() implies #[trigger] perform.ensures(
                (&log[i].0,),
                log[i].1,
            ) by {
                if i < old_log.len() {
                    assert(log[i] == old_log[i]);
                }
            }
            assert forall|i: int| 0 <= i < log.len() - 1 implies (#[trigger] log[i]).1 is Ok by {
                assert(log[i] == old_log[i]);
            }
            lemma_import_reported_prefix(job0.args, stages, ns, old_log.len());
        }
    }
}

} // verus!
