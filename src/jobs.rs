use vstd::prelude::*;
use crate::registry::{entry_at, names_view, KillRequests, ProcessTable};
use crate::text::{decode_lossy, lossy_text_of, text_copy};

verus! {

/// What a shell job gives back.
pub struct ShellOutput {
    pub stdout: String,
    pub stderr: String,
    pub exit_code: i32,
}

/// One event of a running service: a line of its output, or its end.
pub struct ServiceOutput {
    pub service_id: String,
    pub output: String,
    pub is_stderr: bool,
    pub is_complete: bool,
    pub exit_code: Option<i32>,
}

/// The output of a job that was killed: as a shell reports an interrupt.
pub fn killed_output() -> (r: ShellOutput)
    ensures
        r.stdout@ == Seq::<char>::empty(),
        r.stderr@ == "^C"@,
        r.exit_code == 130,
{
    ShellOutput { stdout: String::new(), stderr: text_copy("^C"), exit_code: 130 }
}

/// The output of a job whose process left the registry under it.
pub fn gone_output() -> (r: ShellOutput)
    ensures
        r.stdout@ == Seq::<char>::empty(),
        r.stderr@ == "Process terminated"@,
        r.exit_code == -1,
{
    ShellOutput { stdout: String::new(), stderr: text_copy("Process terminated"), exit_code: -1 }
}

/// The output of a job that ran to its end, decoded; the exit code is -1 where the
/// process ended without one.
pub fn finished_output(stdout: &Vec<u8>, stderr: &Vec<u8>, code: Option<i32>) -> (r: ShellOutput)
    ensures
        r.stdout@ == lossy_text_of(stdout@),
        r.stderr@ == lossy_text_of(stderr@),
        code is Some ==> r.exit_code == code->0,
        code is None ==> r.exit_code == -1,
{
    ShellOutput {
        stdout: decode_lossy(stdout),
        stderr: decode_lossy(stderr),
        exit_code: match code {
            Some(c) => c,
            None => -1,
        },
    }
}

/// An event for one line that a service wrote.
pub fn line_event(service_id: &str, line: String, is_stderr: bool) -> (r: ServiceOutput)
    ensures
        r.service_id@ == service_id@,
        r.output == line,
        r.is_stderr == is_stderr,
        !r.is_complete,
        r.exit_code is None,
{
    ServiceOutput {
        service_id: text_copy(service_id),
        output: line,
        is_stderr,
        is_complete: false,
        exit_code: None,
    }
}

/// The one event that closes a service's life, with its exit code where it had one.
pub fn exit_event(service_id: &str, code: Option<i32>) -> (r: ServiceOutput)
    ensures
        r.service_id@ == service_id@,
        r.output@ == Seq::<char>::empty(),
        !r.is_stderr,
        r.is_complete,
        r.exit_code == code,
{
    ServiceOutput {
        service_id: text_copy(service_id),
        output: String::new(),
        is_stderr: false,
        is_complete: true,
        exit_code: code,
    }
}

/// How an operation on a process fails; each carries the reason the system gave.
pub enum ProcessError {
    /// The assistant program, and the reason.
    SpawnAssistant(String, String),
    CaptureStdout,
    WriteConfig(String),
    SpawnCommand(String),
    CollectOutput(String),
    PollFailed(String),
    ServiceRunning,
    StartService(String),
    StopService(String),
    NoHomeDirectory,
}

/// The message of an error, as the caller sees it.
pub open spec fn error_text(e: ProcessError) -> Seq<char> {
    match e {
        ProcessError::SpawnAssistant(p, d) => "Failed to spawn "@ + p@ + ": "@ + d@,
        ProcessError::CaptureStdout => "Failed to capture stdout"@,
        ProcessError::WriteConfig(d) => "Failed to write MCP config: "@ + d@,
        ProcessError::SpawnCommand(d) => "Failed to spawn command: "@ + d@,
        ProcessError::CollectOutput(d) => "Failed to get output: "@ + d@,
        ProcessError::PollFailed(d) => "Error checking process: "@ + d@,
        ProcessError::ServiceRunning => "Service is already running"@,
        ProcessError::StartService(d) => "Failed to start service: "@ + d@,
        ProcessError::StopService(d) => "Failed to stop service: "@ + d@,
        ProcessError::NoHomeDirectory => "Could not find home directory"@,
    }
}

fn with_detail(prefix: &str, detail: &String) -> (r: String)
    ensures
        r@ == prefix@ + detail@,
{
    let mut r = text_copy(prefix);
    r.append(detail.as_str());
    r
}

impl ProcessError {
    /// The message of the error.
    pub fn message(&self) -> (r: String)
        ensures
            r@ == error_text(*self),
    {
        match self {
            ProcessError::SpawnAssistant(p, d) => {
                let mut r = with_detail("Failed to spawn ", p);
                r.append(": ");
                r.append(d.as_str());
                r
            },
            ProcessError::CaptureStdout => text_copy("Failed to capture stdout"),
            ProcessError::WriteConfig(d) => with_detail("Failed to write MCP config: ", d),
            ProcessError::SpawnCommand(d) => with_detail("Failed to spawn command: ", d),
            ProcessError::CollectOutput(d) => with_detail("Failed to get output: ", d),
            ProcessError::PollFailed(d) => with_detail("Error checking process: ", d),
            ProcessError::ServiceRunning => text_copy("Service is already running"),
            ProcessError::StartService(d) => with_detail("Failed to start service: ", d),
            ProcessError::StopService(d) => with_detail("Failed to stop service: ", d),
            ProcessError::NoHomeDirectory => text_copy("Could not find home directory"),
        }
    }
}

/// What a shell job's poll loop does on one tick.
pub enum JobTick<H> {
    /// A kill was requested: the job's process, where it was still registered, is
    /// handed out to be killed, and the job ends with the killed output.
    Killed(Option<H>),
    /// The job's process is no longer registered: the job ends as terminated.
    Gone,
    /// The job's process, taken out to be polled; it goes back if it still runs.
    Running(H),
}

/// The running shell jobs and services, and the pending kill requests.
pub struct ProcessRegistry<H> {
    pub jobs: ProcessTable<H>,
    pub services: ProcessTable<H>,
    pub kills: KillRequests,
}

impl<H> ProcessRegistry<H> {
    pub open spec fn wf(&self) -> bool {
        self.jobs.wf() && self.services.wf() && self.kills.wf()
    }

    pub fn new() -> (r: Self)
        ensures
            r.wf(),
            r.jobs@ == Seq::<(Seq<char>, H)>::empty(),
            r.services@ == Seq::<(Seq<char>, H)>::empty(),
            r.kills@ == Set::<Seq<char>>::empty(),
    {
        ProcessRegistry { jobs: ProcessTable::new(), services: ProcessTable::new(), kills: KillRequests::new() }
    }

    /// Asks for the shell job of `id` to be killed; its own poll loop does it. This
    /// always succeeds, whether or not such a job runs, and touches no process.
    pub fn request_kill(&mut self, id: &str) -> (r: bool)
        requires
            old(self).wf(),
        ensures
            final(self).wf(),
            r,
            final(self).jobs@ == old(self).jobs@,
            final(self).services@ == old(self).services@,
            final(self).kills@ == old(self).kills@.insert(id@),
    {
        self.kills.request(id);
        true
    }

    /// Registers a shell job's process, in place of one under the same id.
    pub fn register_job(&mut self, id: String, h: H)
        requires
            old(self).wf(),
        ensures
            final(self).wf(),
            old(self).jobs.ids().contains(id@) ==> exists|i: int|
                entry_at(old(self).jobs@, id@, i) && final(self).jobs@ == old(self).jobs@.update(
                    i,
                    (id@, h),
                ),
            !old(self).jobs.ids().contains(id@) ==> final(self).jobs@ == old(self).jobs@.push(
                (id@, h),
            ),
            final(self).services@ == old(self).services@,
            final(self).kills@ == old(self).kills@,
    {
        self.jobs.register(id, h);
    }

    /// One tick of the poll loop of the shell job `id`: a pending kill request
    /// comes first, then the job's process, taken out to be polled.
    pub fn job_tick(&mut self, id: &str) -> (r: JobTick<H>)
        requires
            old(self).wf(),
        ensures
            final(self).wf(),
            final(self).services@ == old(self).services@,
            !final(self).jobs.ids().contains(id@),
            old(self).kills@.contains(id@) ==> r is Killed && final(self).kills@ == old(self).kills@.remove(id@),
            old(self).kills@.contains(id@) && old(self).jobs.ids().contains(id@) ==> r
                is Killed && r->Killed_0 is Some,
            !old(self).kills@.contains(id@) ==> final(self).kills@ == old(self).kills@,
            !old(self).kills@.contains(id@) && old(self).jobs.ids().contains(id@) ==> r is Running,
            !old(self).jobs.ids().contains(id@) ==> final(self).jobs@ == old(self).jobs@,
            !old(self).kills@.contains(id@) && !old(self).jobs.ids().contains(id@) ==> r is Gone,
            match r {
                JobTick::Killed(Some(h)) => exists|i: int|
                    entry_at(old(self).jobs@, id@, i) && h == old(self).jobs@[i].1 && final(self).jobs@ == old(self).jobs@.remove(i),
                JobTick::Running(h) => exists|i: int|
                    entry_at(old(self).jobs@, id@, i) && h == old(self).jobs@[i].1 && final(self).jobs@ == old(self).jobs@.remove(i),
                _ => !old(self).jobs.ids().contains(id@),
            },
    {
        if self.kills.consume(id) {
            JobTick::Killed(self.jobs.take(id))
        } else {
            match self.jobs.take(id) {
                Some(h) => JobTick::Running(h),
                None => JobTick::Gone,
            }
        }
    }

    /// Refuses to start a service under an id that is running.
    pub fn check_service_start(&self, id: &str) -> (r: Result<(), ProcessError>)
        requires
            self.wf(),
        ensures
            r is Err <==> self.services.ids().contains(id@),
            r is Err ==> r->Err_0 == ProcessError::ServiceRunning,
    {
        if self.services.contains(id) {
            Err(ProcessError::ServiceRunning)
        } else {
            Ok(())
        }
    }

    /// Registers a started service; a service already under the id keeps it, and
    /// the new process is handed back.
    pub fn add_service(&mut self, id: String, h: H) -> (r: Result<(), H>)
        requires
            old(self).wf(),
        ensures
            final(self).wf(),
            r is Err <==> old(self).services.ids().contains(id@),
            r is Err ==> final(self).services@ == old(self).services@ && r->Err_0 == h,
            r is Ok ==> final(self).services@ == old(self).services@.push((id@, h)),
            final(self).jobs@ == old(self).jobs@,
            final(self).kills@ == old(self).kills@,
    {
        self.services.insert_new(id, h)
    }

    /// Takes a service's process out of the registry: to stop it, or to poll it.
    pub fn take_service(&mut self, id: &str) -> (r: Option<H>)
        requires
            old(self).wf(),
        ensures
            final(self).wf(),
            r is Some <==> old(self).services.ids().contains(id@),
            r is None ==> final(self).services@ == old(self).services@,
            r is Some ==> exists|i: int|
                entry_at(old(self).services@, id@, i) && r->0 == old(self).services@[i].1 && final(self).services@ == old(self).services@.remove(i),
            !final(self).services.ids().contains(id@),
            final(self).jobs@ == old(self).jobs@,
            final(self).kills@ == old(self).kills@,
    {
        self.services.take(id)
    }

    /// Puts back a service's process that was taken out to be polled and still runs.
    pub fn return_service(&mut self, id: String, h: H)
        requires
            old(self).wf(),
        ensures
            final(self).wf(),
            final(self).services.ids().contains(id@),
            old(self).services.ids().contains(id@) ==> exists|i: int|
                entry_at(old(self).services@, id@, i) && final(self).services@ == old(
                    self,
                ).services@.update(i, (id@, h)),
            !old(self).services.ids().contains(id@) ==> final(self).services@ == old(
                self,
            ).services@.push((id@, h)),
            final(self).jobs@ == old(self).jobs@,
            final(self).kills@ == old(self).kills@,
    {
        let ghost v = id@;
        self.services.register(id, h);
        proof {
            if old(self).services.ids().contains(v) {
                let i = choose|i: int|
                    entry_at(old(self).services@, v, i) && self.services@ == old(self).services@.update(i, (v, h));
                assert(self.services.ids()[i] == v);
            } else {
                assert(self.services.ids()[self.services.ids().len() - 1] == v);
            }
        }
    }

    /// The ids of the running services.
    pub fn running_services(&self) -> (r: Vec<String>)
        ensures
            names_view(r@) == self.services.ids(),
    {
        self.services.ids_list()
    }
}

/// In a well-formed table, an id that is registered stands at exactly one position.
pub proof fn lemma_one_entry_per_id<H>(t: ProcessTable<H>, id: Seq<char>)
    requires
        t.wf(),
        t.ids().contains(id),
    ensures
        exists|i: int| entry_at(t@, id, i),
        forall|i: int, j: int| entry_at(t@, id, i) && entry_at(t@, id, j) ==> i == j,
{
    let i = choose|i: int| 0 <= i < t.ids().len() && t.ids()[i] == id;
    assert(entry_at(t@, id, i));
    assert forall|a: int, b: int| entry_at(t@, id, a) && entry_at(t@, id, b) implies a == b by {
        assert(t.ids()[a] == id);
        assert(t.ids()[b] == id);
    }
}

} // verus!
