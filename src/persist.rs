use vstd::prelude::*;

use crate::environment::{config_file_name_of, temp_file_name_of, Environment};
use crate::paths::{join, join_spec};

verus! {

/// The name of the app directory under the home directory.
pub open spec fn app_dir_name() -> Seq<char> {
    ".railway"@
}

/// Where the config of one environment lives and how it is replaced.
pub struct WritePlan {
    /// The directory that holds the config file.
    pub dir: String,
    /// The sibling file the document is written to first.
    pub temp_path: String,
    /// The config file itself.
    pub target: String,
}

/// One step of an atomic write.
#[derive(Debug, Clone, PartialEq, Eq)]
pub enum WriteStep {
    /// Create the directory and its missing parents.
    CreateDirAll(String),
    /// Create or truncate the file and write the serialized document to it.
    WriteFile(String),
    /// Force the file's contents to durable storage.
    SyncFile(String),
    /// Atomically move the first file onto the second path.
    Rename(String, String),
}

impl WritePlan {
    /// The plan of the config of `env` under `home`.
    pub open spec fn for_spec(home: Seq<char>, env: Environment) -> (Seq<char>, Seq<char>, Seq<char>) {
        let dir = join_spec(home, app_dir_name());
        (dir, join_spec(dir, temp_file_name_of(env)), join_spec(dir, config_file_name_of(env)))
    }

    /// The plan for the config file of `env` under the home directory `home`:
    /// `<home>/.railway/config<suffix>.json`, written through a `.tmp` sibling.
    pub fn for_environment(home: &str, env: Environment) -> (r: WritePlan)
        ensures
            (r.dir@, r.temp_path@, r.target@) == WritePlan::for_spec(home@, env),
            r.wf(),
            r.is_sibling_plan(env),
    {
        let dir = join(home, ".railway");
        let temp_path = join(dir.as_str(), env.temp_file_name());
        let target = join(dir.as_str(), env.config_file_name());
        proof {
            reveal_strlit(".railway");
            reveal_strlit("config.json");
            reveal_strlit("config-staging.json");
            reveal_strlit("config-dev.json");
            reveal_strlit("config.tmp");
            reveal_strlit("config-staging.tmp");
            reveal_strlit("config-dev.tmp");
            assert(temp_path@.len() != target@.len());
        }
        WritePlan { dir, temp_path, target }
    }

    /// The temporary file and the config file of `env` both stand in `dir`.
    pub open spec fn is_sibling_plan(&self, env: Environment) -> bool {
        &&& self.temp_path@ == join_spec(self.dir@, temp_file_name_of(env))
        &&& self.target@ == join_spec(self.dir@, config_file_name_of(env))
    }

    /// The temporary file is not the target.
    pub open spec fn wf(&self) -> bool {
        self.temp_path@ != self.target@
    }

    /// The steps in their order: the target is touched by the last one alone.
    pub open spec fn steps_spec(&self) -> Seq<WriteStep> {
        seq![
            WriteStep::CreateDirAll(self.dir),
            WriteStep::WriteFile(self.temp_path),
            WriteStep::SyncFile(self.temp_path),
            WriteStep::Rename(self.temp_path, self.target),
        ]
    }

    /// The steps of an atomic write of the document.
    pub fn steps(&self) -> (r: Vec<WriteStep>)
        ensures
            r@ == self.steps_spec(),
    {
        let r = vec![
            WriteStep::CreateDirAll(self.dir.clone()),
            WriteStep::WriteFile(self.temp_path.clone()),
            WriteStep::SyncFile(self.temp_path.clone()),
            WriteStep::Rename(self.temp_path.clone(), self.target.clone()),
        ];
        assert(r@ =~= self.steps_spec());
        r
    }
}

/// Files by path, each with its bytes.
pub type Files = Map<Seq<char>, Seq<u8>>;

/// The files after one step that wrote `bytes` where it writes a file.
pub open spec fn apply_step(fs: Files, step: WriteStep, bytes: Seq<u8>) -> Files {
    match step {
        WriteStep::CreateDirAll(_) => fs,
        WriteStep::WriteFile(p) => fs.insert(p@, bytes),
        WriteStep::SyncFile(_) => fs,
        WriteStep::Rename(from, to) => if fs.contains_key(from@) {
            fs.insert(to@, fs[from@]).remove(from@)
        } else {
            fs
        },
    }
}

/// The files after running `steps` in order.
pub open spec fn run_steps(fs: Files, steps: Seq<WriteStep>, bytes: Seq<u8>) -> Files
    decreases steps.len(),
{
    if steps.len() == 0 {
        fs
    } else {
        apply_step(run_steps(fs, steps.drop_last(), bytes), steps.last(), bytes)
    }
}

/// A write stopped before its last step, having written any prefix of the
/// document, leaves the target as it was, present or absent; a write that
/// completes leaves the whole document at the target.
pub proof fn law_atomic_write(plan: WritePlan, fs: Files, doc: Seq<u8>, k: int, written: int)
    requires
        plan.wf(),
        0 <= k < plan.steps_spec().len(),
        0 <= written <= doc.len(),
    ensures
        run_steps(fs, plan.steps_spec().take(k), doc.take(written)).contains_key(plan.target@)
            == fs.contains_key(plan.target@),
        fs.contains_key(plan.target@) ==> run_steps(
            fs,
            plan.steps_spec().take(k),
            doc.take(written),
        )[plan.target@] == fs[plan.target@],
        run_steps(fs, plan.steps_spec(), doc).contains_key(plan.target@),
        run_steps(fs, plan.steps_spec(), doc)[plan.target@] == doc,
        !run_steps(fs, plan.steps_spec(), doc).contains_key(plan.temp_path@),
{
    let s = plan.steps_spec();
    lemma_prefix_runs(plan, fs, doc.take(written));
    lemma_prefix_runs(plan, fs, doc);
    assert(s.take(4) =~= s);
    let f3 = run_steps(fs, s.take(3), doc);
    assert(run_steps(fs, s, doc) == apply_step(f3, s[3], doc));
    assert(f3.contains_key(plan.temp_path@));
}

proof fn lemma_prefix_runs(plan: WritePlan, fs: Files, b: Seq<u8>)
    ensures
        run_steps(fs, plan.steps_spec().take(0), b) == fs,
        run_steps(fs, plan.steps_spec().take(1), b) == fs,
        run_steps(fs, plan.steps_spec().take(2), b) == fs.insert(plan.temp_path@, b),
        run_steps(fs, plan.steps_spec().take(3), b) == fs.insert(plan.temp_path@, b),
{
    let s = plan.steps_spec();
    assert(s.take(0).len() == 0);
    assert(s.take(1).drop_last() =~= s.take(0));
    assert(s.take(2).drop_last() =~= s.take(1));
    assert(s.take(3).drop_last() =~= s.take(2));
    assert(s.take(1).last() == s[0]);
    assert(s.take(2).last() == s[1]);
    assert(s.take(3).last() == s[2]);
    assert(run_steps(fs, s.take(1), b) == apply_step(run_steps(fs, s.take(0), b), s[0], b));
    assert(run_steps(fs, s.take(2), b) == apply_step(run_steps(fs, s.take(1), b), s[1], b));
    assert(run_steps(fs, s.take(3), b) == apply_step(run_steps(fs, s.take(2), b), s[2], b));
}

} // verus!
