//! Commit messages and the `git commit` arguments made from them.
use vstd::prelude::*;

use crate::commit::{AiResponse, Entry, EntryModel};
use crate::error::AgcError;
use crate::git::{GitBackend, GitCall, GitCallModel, GitRecord, GitRecordModel, answered_by, perform_recorded};
use crate::model::{Duplicate, Model};
use crate::text::{
    capitalize,
    capitalize_spec,
    decimal,
    decimal_spec,
    find,
    find_spec,
    occurs_at,
    from_chars,
    str_eq,
    to_chars,
    trim,
    trim_spec,
    views,
};
use crate::ui::Host;
use crate::ui::color::{bold_cyan, paint_spec};

verus! {

/// `type(scope): message`.
pub open spec fn header_spec(e: EntryModel) -> Seq<char> {
    e.entry_type + "("@ + e.scope + "): "@ + e.message
}

/// The commit message: the header, then a blank line and the detail when
/// there is one.
pub open spec fn message_spec(e: EntryModel) -> Seq<char> {
    if e.detail.len() == 0 {
        header_spec(e)
    } else {
        header_spec(e) + "\n\n"@ + e.detail
    }
}

/// Formats an entry as a commit message: `type(scope): message`, then a blank
/// line and the detail when there is one.
pub fn format_message(entry: &Entry) -> (r: String)
    ensures
        r@ == message_spec(entry.model()),
{
    let mut msg = entry.entry_type.clone();
    msg.append("(");
    msg.append(entry.scope.as_str());
    msg.append("): ");
    msg.append(entry.message.as_str());
    if entry.detail.as_str().is_empty() {
        msg
    } else {
        msg.append("\n\n");
        msg.append(entry.detail.as_str());
        msg
    }
}

/// The arguments of `git commit` for a message: the subject before the first
/// blank line as one `-m`, and what follows it, when not empty, as a second.
pub open spec fn commit_args_spec(msg: Seq<char>) -> Seq<Seq<char>> {
    match find_spec(msg, "\n\n"@) {
        None => seq!["commit"@, "-m"@, msg],
        Some(i) => {
            let body = msg.skip(i + "\n\n"@.len());
            if body.len() == 0 {
                seq!["commit"@, "-m"@, msg.take(i)]
            } else {
                seq!["commit"@, "-m"@, msg.take(i), "-m"@, body]
            }
        },
    }
}

/// The `git commit` arguments for a message (`splitn(2, "\n\n")`).
pub fn commit_args(msg: &str) -> (r: Vec<String>)
    ensures
        views(r@) == commit_args_spec(msg@),
{
    let v = to_chars(msg);
    let sep = to_chars("\n\n");
    let mut r: Vec<String> = Vec::new();
    let c = String::from_str("commit");
    let m = String::from_str("-m");
    match find(&v, &sep) {
        None => {
            let whole = String::from_str(msg);
            r.push(c);
            r.push(m);
            r.push(whole);
            assert(views(r@) =~= seq![c@, m@, whole@]);
        },
        Some(i) => {
            let k = sep.len();
            let n = v.len();
            assert(occurs_at(v@, sep@, i as int));
            let subject = from_chars(vstd::slice::slice_subrange(v.as_slice(), 0, i));
            let body = from_chars(vstd::slice::slice_subrange(v.as_slice(), i + k, n));
            assert(subject@ =~= msg@.take(i as int));
            assert(body@ =~= msg@.skip(i + "\n\n"@.len()));
            r.push(c);
            r.push(m);
            r.push(subject);
            if body.as_str().is_empty() {
                assert(views(r@) =~= seq![c@, m@, subject@]);
            } else {
                let m2 = String::from_str("-m");
                r.push(m2);
                r.push(body);
                assert(views(r@) =~= seq![c@, m@, subject@, m2@, body@]);
            }
        },
    }
    r
}

/// The AI's raw answer, trimmed; `None` when nothing is left.
pub fn response_text(raw: &str) -> (r: Option<String>)
    ensures
        match r {
            Some(t) => t@ == trim_spec(raw@) && t@.len() > 0,
            None => trim_spec(raw@).len() == 0,
        },
{
    let t = trim(raw);
    if t.as_str().is_empty() {
        None
    } else {
        Some(t)
    }
}

/// The entries and explanation of a parsed answer; nothing when the answer
/// did not parse.
pub fn entries_from(parsed: Option<AiResponse>) -> (r: (Vec<Entry>, String))
    ensures
        match parsed {
            Some(p) => r.0.model() == p.data.model() && r.1@ == p.reason@,
            None => r.0@.len() == 0 && r.1@.len() == 0,
        },
{
    match parsed {
        Some(p) => (p.data, p.reason),
        None => (Vec::new(), String::new()),
    }
}

/// The lines shown for a proposed commit: the message, then the files it
/// stages when there are any.
pub open spec fn summary_lines(e: EntryModel) -> Seq<Seq<char>> {
    let head = seq!["\n生成的提交消息:"@, message_spec(e)];
    if e.files.len() == 0 {
        head
    } else {
        head + seq!["\n关联文件:"@] + e.files.map_values(|f: Seq<char>| "  "@ + f)
    }
}

/// The lines shown for a proposed commit.
pub fn summary(entry: &Entry) -> (r: Vec<String>)
    ensures
        views(r@) == summary_lines(entry.model()),
{
    let mut r: Vec<String> = Vec::new();
    r.push(String::from_str("\n生成的提交消息:"));
    r.push(format_message(entry));
    let n = entry.files.len();
    if n > 0 {
        r.push(String::from_str("\n关联文件:"));
        let ghost head = views(r@);
        let ghost files = entry.model().files;
        let mut i: usize = 0;
        while i < n
            invariant
                i <= n == entry.files@.len() == files.len(),
                files == entry.model().files,
                views(r@) == head + files.take(i as int).map_values(|f: Seq<char>| "  "@ + f),
            decreases n - i,
        {
            let mut line = String::from_str("  ");
            line.append(entry.files[i].as_str());
            let ghost before = views(r@);
            r.push(line);
            assert(files[i as int] == entry.files@[i as int]@);
            assert(files.take(i + 1).map_values(|f: Seq<char>| "  "@ + f) =~= files.take(
                i as int,
            ).map_values(|f: Seq<char>| "  "@ + f).push("  "@ + files[i as int]));
            assert(views(r@) =~= before.push(line@));
            i = i + 1;
        }
        assert(files.take(n as int) =~= files);
    }
    r
}

/// The question asked before each commit.
pub const CONFIRM_PROMPT: &'static str = "\n确认提交？回复 ok 执行: ";

/// An answer confirms when it is `ok`, surrounding whitespace aside.
pub fn is_confirmation(answer: &str) -> (r: bool)
    ensures
        r == (trim_spec(answer@) == "ok"@),
{
    let t = trim(answer);
    str_eq(t.as_str(), "ok")
}

/// Shows a proposed commit.
pub fn print_entry(entry: &Entry, host: &dyn Host) {
    let lines = summary(entry);
    let n = lines.len();
    let mut i: usize = 0;
    while i < n
        invariant
            i <= n == lines@.len(),
        decreases n - i,
    {
        host.say(lines[i].as_str());
        i = i + 1;
    }
}

/// Shows a proposed commit and asks for confirmation; returns whether the
/// answer confirms (see `is_confirmation`) and the answer read.
pub fn confirm_entry(entry: &Entry, host: &dyn Host) -> (r: (bool, String))
    ensures
        r.0 == (trim_spec(r.1@) == "ok"@),
{
    print_entry(entry, host);
    let answer = host.ask(CONFIRM_PROMPT);
    let ok = is_confirmation(answer.as_str());
    (ok, answer)
}

/// The entries and explanation of a decoded answer (`None`: nothing).
pub open spec fn answer_parts(d: Option<AiResponse>, entries: Seq<EntryModel>, reason: Seq<char>) -> bool {
    match d {
        Some(x) => entries == x.data.model() && reason == x.reason@,
        None => entries.len() == 0 && reason.len() == 0,
    }
}

/// `decoded` is what decoding `raw` can give: nothing when its trimmed text is
/// empty.
pub open spec fn decodable(raw: Seq<char>, decoded: Option<AiResponse>) -> bool {
    trim_spec(raw).len() == 0 ==> decoded is None
}

/// The entries and explanation of the model's raw answer: nothing when the
/// trimmed answer is empty, else what the host decodes from it (nothing when
/// it does not decode).
pub fn parse_entries(raw: &str, host: &dyn Host) -> (r: (Vec<Entry>, String))
    ensures
        exists|d: Option<AiResponse>| decodable(raw@, d) && #[trigger] answer_parts(d, r.0.model(), r.1@),
{
    let decoded = match response_text(raw) {
        None => None,
        Some(t) => host.decode_response(t.as_str()),
    };
    let ghost d = decoded;
    let r = entries_from(decoded);
    assert(answer_parts(d, r.0.model(), r.1@));
    r
}

/// The entry with its type and scope capitalized.
pub open spec fn capitalized(e: EntryModel) -> EntryModel {
    EntryModel {
        entry_type: capitalize_spec(e.entry_type),
        scope: capitalize_spec(e.scope),
        message: e.message,
        files: e.files,
        detail: e.detail,
    }
}

/// `--- 提交 i/n ---` for commit `i` (counted from 0) of `n`.
pub open spec fn progress_text(i: nat, n: nat) -> Seq<char> {
    "--- 提交 "@ + decimal_spec(i + 1) + "/"@ + decimal_spec(n) + " ---"@
}

/// `text` in the given colour when `styled`, else as it is.
pub open spec fn styled_text(styled: bool, code: Seq<char>, text: Seq<char>) -> Seq<char> {
    if styled {
        paint_spec(code, text)
    } else {
        text
    }
}

/// The progress line before commit `i` (counted from 0) of `n` (bold cyan
/// when `styled`).
pub open spec fn progress_line(i: nat, n: nat, styled: bool) -> Seq<char> {
    "\n"@ + styled_text(styled, "1;36"@, progress_text(i, n))
}

/// The model of a planned commit.
pub struct JobModel {
    pub progress: Option<Seq<char>>,
    pub entry: EntryModel,
    pub message: Seq<char>,
}

/// One commit to make: the progress line to show first (when there are
/// several), the entry as shown, and its message.
pub struct CommitJob {
    pub progress: Option<String>,
    pub entry: Entry,
    pub message: String,
}

impl Model for CommitJob {
    type M = JobModel;

    open spec fn model(&self) -> JobModel {
        JobModel { progress: self.progress.model(), entry: self.entry.model(), message: self.message@ }
    }
}

/// The plan for entry `i` of `entries`.
pub open spec fn job_spec(entries: Seq<EntryModel>, i: int, styled: bool) -> JobModel {
    JobModel {
        progress: if entries.len() > 1 {
            Some(progress_line(i as nat, entries.len(), styled))
        } else {
            None
        },
        entry: capitalized(entries[i]),
        message: message_spec(capitalized(entries[i])),
    }
}

/// The plan for a list of entries: one job per entry, in order.
pub open spec fn plan_spec(entries: Seq<EntryModel>, styled: bool) -> Seq<JobModel> {
    Seq::new(entries.len(), |i: int| job_spec(entries, i, styled))
}

/// Plans the commits of a list of entries: each entry's type and scope
/// capitalized, its message, and a progress line when there are several.
pub fn plan_commits(entries: &Vec<Entry>, styled: bool) -> (r: Vec<CommitJob>)
    ensures
        r.model() == plan_spec(entries.model(), styled),
        r@.len() == entries@.len(),
        forall|i: int| 0 <= i < r@.len() ==> (#[trigger] r@[i]).model() == job_spec(entries.model(), i, styled),
{
    let n = entries.len();
    let mut r: Vec<CommitJob> = Vec::new();
    let mut i: usize = 0;
    while i < n
        invariant
            i <= n == entries@.len(),
            r@.len() == i,
            forall|k: int| 0 <= k < i ==> (#[trigger] r@[k]).model() == job_spec(entries.model(), k, styled),
        decreases n - i,
    {
        let src = &entries[i];
        let entry = Entry {
            entry_type: capitalize(src.entry_type.as_str()),
            scope: capitalize(src.scope.as_str()),
            message: src.message.clone(),
            files: src.files.duplicate(),
            detail: src.detail.clone(),
        };
        let message = format_message(&entry);
        let progress = if n > 1 {
            let mut t = String::from_str("--- 提交 ");
            t.append(decimal(i + 1).as_str());
            t.append("/");
            t.append(decimal(n).as_str());
            t.append(" ---");
            let mut line = String::from_str("\n");
            if styled {
                line.append(bold_cyan(t.as_str()).as_str());
            } else {
                line.append(t.as_str());
            }
            Some(line)
        } else {
            None
        };
        assert(entries.model()[i as int] == entries@[i as int].model());
        let job = CommitJob { progress, entry, message };
        r.push(job);
        i = i + 1;
    }
    assert forall|k: int| 0 <= k < r@.len() implies #[trigger] r.model()[k] == plan_spec(
        entries.model(),
        styled,
    )[k] by {
        assert(r@[k].model() == job_spec(entries.model(), k, styled));
    }
    assert(r.model() =~= plan_spec(entries.model(), styled));
    r
}

/// `text` coloured with `code` when `styled`.
pub fn styled(on: bool, code: &str, text: &str) -> (r: String)
    ensures
        r@ == styled_text(on, code@, text@),
{
    if on {
        crate::ui::color::paint(code, text)
    } else {
        String::from_str(text)
    }
}

/// The git calls of one planned commit: staging its files (all changes when
/// it lists none), then committing its message.
pub open spec fn job_calls(j: JobModel) -> Seq<GitCallModel> {
    seq![
        if j.entry.files.len() > 0 {
            GitCallModel::StageFiles(j.entry.files)
        } else {
            GitCallModel::StageAll
        },
        GitCallModel::Commit(j.message),
    ]
}

/// The git calls of a plan: each job's calls, in order.
pub open spec fn plan_calls(jobs: Seq<JobModel>) -> Seq<GitCallModel>
    decreases jobs.len(),
{
    if jobs.len() == 0 {
        Seq::empty()
    } else {
        plan_calls(jobs.drop_last()) + job_calls(jobs.last())
    }
}

/// The calls of a record of git calls.
pub open spec fn calls_of(made: Seq<GitRecordModel>) -> Seq<GitCallModel> {
    made.map_values(|x: GitRecordModel| x.call)
}

/// The first `n` recorded calls succeeded.
pub open spec fn all_ok(made: Seq<GitRecordModel>, n: int) -> bool {
    forall|i: int| 0 <= i < n ==> (#[trigger] made[i]).result is Ok
}

/// The first `n` answers confirm.
pub open spec fn confirms(answers: Seq<Seq<char>>, n: int) -> bool {
    forall|i: int| 0 <= i < n ==> trim_spec(#[trigger] answers[i]) == "ok"@
}

/// The answers read before `n` commits: none when `auto`, else `n`
/// confirmations.
pub open spec fn answers_for(auto: bool, answers: Seq<Seq<char>>, n: int) -> bool {
    if auto {
        answers.len() == 0
    } else {
        answers.len() == n && confirms(answers, n)
    }
}

/// The run stopped at job `k`, whose confirmation was refused: the first `k`
/// jobs were confirmed and committed, every git call succeeding.
pub open spec fn refused_at(
    jobs: Seq<JobModel>,
    answers: Seq<Seq<char>>,
    made: Seq<GitRecordModel>,
    k: int,
) -> bool {
    &&& 0 <= k < jobs.len()
    &&& calls_of(made) == plan_calls(jobs.take(k))
    &&& all_ok(made, made.len() as int)
    &&& answers.len() == k + 1
    &&& confirms(answers, k)
    &&& trim_spec(answers[k]) != "ok"@
}

/// The run failed at job `k`: the calls made are the plan's, in order, up to
/// the failing one (staging or committing job `k`), which is the last; every
/// call before it succeeded; and job `k` was confirmed unless `auto`.
pub open spec fn failed_in(
    jobs: Seq<JobModel>,
    auto: bool,
    answers: Seq<Seq<char>>,
    made: Seq<GitRecordModel>,
    k: int,
) -> bool {
    &&& 0 <= k < jobs.len()
    &&& (made.len() == 2 * k + 1 || made.len() == 2 * k + 2)
    &&& calls_of(made) == plan_calls(jobs).take(made.len() as int)
    &&& all_ok(made, made.len() - 1)
    &&& made.last().result is Err
    &&& answers_for(auto, answers, k + 1)
}

/// What a run of the plan does, given the answers read (`answers`, none when
/// `auto`) and the git calls made with their answers (`made`): it commits the
/// jobs in order, each after a confirmation unless `auto`. Either every job
/// was confirmed and committed, every call succeeding, and the run succeeds;
/// or a confirmation was refused, and the run stops there with `Ok`; or a git
/// call failed, and the run stops there with that call's error.
pub open spec fn commit_run(
    jobs: Seq<JobModel>,
    auto: bool,
    answers: Seq<Seq<char>>,
    made: Seq<GitRecordModel>,
    r: Result<(), AgcError>,
) -> bool {
    ||| {
        &&& r is Ok
        &&& calls_of(made) == plan_calls(jobs)
        &&& all_ok(made, made.len() as int)
        &&& answers_for(auto, answers, jobs.len() as int)
    }
    ||| (!auto && r is Ok && exists|k: int| #[trigger] refused_at(jobs, answers, made, k))
    ||| (r == made.last().result && exists|k: int| #[trigger] failed_in(jobs, auto, answers, made, k))
}

proof fn lemma_plan_calls_len(jobs: Seq<JobModel>)
    ensures
        plan_calls(jobs).len() == 2 * jobs.len(),
    decreases jobs.len(),
{
    if jobs.len() > 0 {
        lemma_plan_calls_len(jobs.drop_last());
    }
}

proof fn lemma_plan_calls_prefix(jobs: Seq<JobModel>, k: int)
    requires
        0 <= k <= jobs.len(),
    ensures
        plan_calls(jobs.take(k)).len() <= plan_calls(jobs).len(),
        plan_calls(jobs).take(plan_calls(jobs.take(k)).len() as int) == plan_calls(jobs.take(k)),
    decreases jobs.len(),
{
    if k == jobs.len() {
        assert(jobs.take(k) =~= jobs);
        let p = plan_calls(jobs);
        assert(p.take(p.len() as int) =~= p);
    } else {
        let d = jobs.drop_last();
        assert(jobs.take(k) =~= d.take(k));
        lemma_plan_calls_prefix(d, k);
        let a = plan_calls(d.take(k));
        let b = plan_calls(d);
        assert(plan_calls(jobs) == b + job_calls(jobs.last()));
        assert(plan_calls(jobs.take(k)) == a);
        assert((b + job_calls(jobs.last())).take(a.len() as int) =~= b.take(a.len() as int));
    }
}

proof fn lemma_plan_calls_at(jobs: Seq<JobModel>, i: int)
    requires
        0 <= i < jobs.len(),
    ensures
        plan_calls(jobs)[2 * i] == job_calls(jobs[i])[0],
        plan_calls(jobs)[2 * i + 1] == job_calls(jobs[i])[1],
    decreases jobs.len(),
{
    let d = jobs.drop_last();
    lemma_plan_calls_len(d);
    if i < jobs.len() - 1 {
        lemma_plan_calls_at(d, i);
        assert(d[i] == jobs[i]);
    }
}

/// Law: committing a list of entries makes two git calls per entry, in the
/// entries' order: for entry `i`, first the staging of exactly its files (all
/// of them, in order; all changes when it lists none), then the commit of its
/// message with type and scope capitalized.
pub proof fn law_plan_stages_each_entry(entries: Seq<EntryModel>, styled: bool, i: int)
    requires
        0 <= i < entries.len(),
    ensures
        plan_calls(plan_spec(entries, styled)).len() == 2 * entries.len(),
        plan_calls(plan_spec(entries, styled))[2 * i] == (if entries[i].files.len() > 0 {
            GitCallModel::StageFiles(entries[i].files)
        } else {
            GitCallModel::StageAll
        }),
        plan_calls(plan_spec(entries, styled))[2 * i + 1] == GitCallModel::Commit(
            message_spec(capitalized(entries[i])),
        ),
{
    let jobs = plan_spec(entries, styled);
    lemma_plan_calls_len(jobs);
    lemma_plan_calls_at(jobs, i);
    assert(jobs[i] == job_spec(entries, i, styled));
}

/// The call that stages what a job commits.
fn stage_call(job: &CommitJob) -> (c: GitCall)
    ensures
        c.model() == job_calls(job.model())[0],
{
    if job.entry.files.len() > 0 {
        let f = job.entry.files.duplicate();
        assert(views(f@) =~= f.model());
        GitCall::StageFiles(f)
    } else {
        GitCall::StageAll
    }
}

/// Makes the planned commits in order: shows each (asking for confirmation
/// unless `auto`), stages its files (all changes when it lists none) and
/// commits its message. A refused confirmation stops with `Ok`; a failing git
/// call stops with its error, passed on. The closing lines are coloured when
/// `styled`. Also returns the git calls made with their answers, and the
/// answers read (see `commit_run`).
pub fn run_commits<G: GitBackend + ?Sized>(
    jobs: &Vec<CommitJob>,
    git: &G,
    host: &dyn Host,
    auto: bool,
    styled_output: bool,
) -> (r: (Result<(), AgcError>, Vec<GitRecord>, Vec<String>))
    ensures
        commit_run(jobs.model(), auto, r.2.model(), r.1.model(), r.0),
        answered_by(git, r.1.model()),
{
    let ghost js = jobs.model();
    let n = jobs.len();
    let mut made: Vec<GitRecord> = Vec::new();
    let mut answers: Vec<String> = Vec::new();
    let mut i: usize = 0;
    assert(js.take(0) =~= Seq::<JobModel>::empty());
    assert(calls_of(made.model()) =~= Seq::<GitCallModel>::empty());
    assert(answers.model() =~= Seq::<Seq<char>>::empty());
    while i < n
        invariant
            i <= n == jobs@.len(),
            js == jobs.model(),
            calls_of(made.model()) == plan_calls(js.take(i as int)),
            made.model().len() == 2 * i,
            all_ok(made.model(), made.model().len() as int),
            answers_for(auto, answers.model(), i as int),
            answered_by(git, made.model()),
        decreases n - i,
    {
        let job = &jobs[i];
        assert(js[i as int] == job.model());
        assert(js.take(i + 1).drop_last() =~= js.take(i as int));
        proof {
            lemma_plan_calls_prefix(js, i + 1);
            lemma_plan_calls_len(js.take(i + 1));
        }
        let ghost done = made.model();
        let ghost next = plan_calls(js.take(i + 1));
        assert(next == calls_of(done) + job_calls(job.model()));
        if let Some(p) = &job.progress {
            host.say(p.as_str());
        }
        if auto {
            print_entry(&job.entry, host);
        } else {
            let ghost before_answers = answers.model();
            let (ok, answer) = confirm_entry(&job.entry, host);
            answers.push(answer);
            assert(answers.model() =~= before_answers.push(answer@));
            if !ok {
                host.say(styled(styled_output, "33", "已取消").as_str());
                assert(refused_at(js, answers.model(), made.model(), i as int));
                return (Ok(()), made, answers);
            }
            assert(confirms(answers.model(), i + 1));
        }
        assert(answers_for(auto, answers.model(), i + 1));
        let stage = stage_call(job);
        let ghost sm = stage.model();
        let staged = perform_recorded(git, stage, &mut made);
        assert(calls_of(made.model()) =~= calls_of(done).push(sm));
        assert(next.take((done.len() + 1) as int) =~= calls_of(done).push(sm));
        assert(answered_by(git, made.model()));
        if staged.is_err() {
            assert(plan_calls(js).take(made.model().len() as int) =~= next.take((done.len() + 1) as int));
            assert(failed_in(js, auto, answers.model(), made.model(), i as int));
            return (staged, made, answers);
        }
        let commit = GitCall::Commit(job.message.clone());
        let ghost cm = commit.model();
        let committed = perform_recorded(git, commit, &mut made);
        assert(calls_of(made.model()) =~= next);
        assert(answered_by(git, made.model()));
        if committed.is_err() {
            assert(plan_calls(js).take(made.model().len() as int) =~= next);
            assert(failed_in(js, auto, answers.model(), made.model(), i as int));
            return (committed, made, answers);
        }
        assert(all_ok(made.model(), made.model().len() as int));
        i = i + 1;
    }
    assert(js.take(n as int) =~= js);
    host.say(styled(styled_output, "32", "全部提交成功").as_str());
    (Ok(()), made, answers)
}

/// Law: a formatted message whose header is a single line gives back, as
/// `git commit` arguments, the header as the subject and the detail (when
/// there is one) as the body.
pub proof fn law_commit_args_of_message(e: EntryModel)
    requires
        forall|k: int| 0 <= k < header_spec(e).len() ==> header_spec(e)[k] != '\n',
    ensures
        commit_args_spec(message_spec(e)) == (if e.detail.len() == 0 {
            seq!["commit"@, "-m"@, header_spec(e)]
        } else {
            seq!["commit"@, "-m"@, header_spec(e), "-m"@, e.detail]
        }),
{
    reveal(find_spec);
    reveal_strlit("\n\n");
    let h = header_spec(e);
    let sep = "\n\n"@;
    assert(sep.len() == 2 && sep[0] == '\n' && sep[1] == '\n');
    let msg = message_spec(e);
    if e.detail.len() == 0 {
        assert forall|i: int| !#[trigger] occurs_at(msg, sep, i) by {
            if occurs_at(msg, sep, i) {
                assert(msg.subrange(i, i + 2)[0] == msg[i]);
                assert(msg[i] == '\n');
            }
        }
    } else {
        let hl = h.len() as int;
        assert(msg.subrange(hl, hl + 2) =~= sep);
        assert(occurs_at(msg, sep, hl));
        assert forall|j: int| 0 <= j < hl implies !occurs_at(msg, sep, j) by {
            if occurs_at(msg, sep, j) {
                assert(msg.subrange(j, j + 2)[0] == msg[j]);
                assert(msg[j] == h[j]);
            }
        }
        let c = choose|i: int|
            #[trigger] occurs_at(msg, sep, i) && forall|j: int| 0 <= j < i ==> !occurs_at(msg, sep, j);
        assert(c == hl) by {
            if c < hl {
                assert(!occurs_at(msg, sep, c));
            }
            if c > hl {
                assert(!occurs_at(msg, sep, hl));
            }
        }
        assert(find_spec(msg, sep) == Some(hl));
        assert(msg.take(hl) =~= h);
        assert(msg.skip(hl + 2) =~= e.detail);
    }
}

} // verus!
