//! Declarative debug tasks and their resolution into adapter configurations.
use vstd::prelude::*;

verus! {

/// An IPv4 address, as its four octets in network order.
#[derive(Clone, Copy, Debug, PartialEq, Eq, Structural)]
pub struct HostAddress(pub u8, pub u8, pub u8, pub u8);

/// Host information of a debug adapter that listens on TCP.
#[derive(Clone, Debug, PartialEq, Eq, Default)]
pub struct TCPHost {
    /// The port that the debug adapter is listening on.
    pub port: Option<u16>,
    /// The address the debug adapter is listening on.
    pub host: Option<HostAddress>,
    /// The delay in milliseconds between starting and connecting to the adapter.
    pub delay: Option<u64>,
}

/// Which request finalizes the start of a session.
#[derive(Clone, Copy, Debug, PartialEq, Eq, Structural, Default)]
pub enum DebugRequestType {
    /// Call the `launch` request on the debug adapter.
    #[default]
    Launch,
    /// Call the `attach` request on the debug adapter.
    Attach,
}

/// How the client reaches the debug adapter.
#[derive(Clone, Debug, PartialEq, Eq)]
pub enum DebugConnectionType {
    /// Connect to the debug adapter via TCP.
    TCP(TCPHost),
    /// Talk to the debug adapter over its standard streams.
    STDIO,
}

/// Arguments of a manually configured debug adapter.
#[derive(Clone, Debug, PartialEq, Eq)]
pub struct CustomArgs {
    /// The connection that the custom debugger should use.
    pub connection: DebugConnectionType,
    /// The command line used to start the debug adapter.
    pub start_command: String,
}

/// The debug adapter to use.
#[derive(Clone, Debug, PartialEq, Eq)]
pub enum DebugAdapterKind {
    /// A manually configured adapter, started with the command it carries.
    Custom(CustomArgs),
    /// debugpy.
    Python,
    /// vscode-php-debug.
    PHP,
    /// lldb.
    Lldb,
}

/// The resolved, immutable recipe for starting one debug adapter.
#[derive(Clone, Debug, PartialEq, Eq, Default)]
pub struct DebugAdapterConfig {
    /// The adapter to run.
    pub kind: DebugAdapterKind,
    /// The request that finalizes session start.
    pub request: DebugRequestType,
    /// The program to debug.
    pub program: String,
    /// An override for the path of the adapter.
    pub adapter_path: Option<String>,
    /// Additional arguments sent with the `initialize` request.
    pub initialize_args: Option<Vec<String>>,
}

/// One user-authored debug task.
#[derive(Clone, Debug, PartialEq, Eq, Default)]
pub struct DebugTaskDefinition {
    /// Name of the debug task.
    pub label: String,
    /// Program to run the debugger on.
    pub program: String,
    /// Whether the session launches the program or attaches to it.
    pub session_type: DebugRequestType,
    /// The adapter to run.
    pub adapter: DebugAdapterKind,
    /// Additional arguments sent with the `initialize` request.
    pub initialize_args: Option<Vec<String>>,
}

/// A group of debug tasks, in the order in which they were written.
#[derive(Clone, Debug, PartialEq, Eq, Default)]
pub struct DebugTaskFile(pub Vec<DebugTaskDefinition>);

/// What a task runs as.
#[derive(Clone, Debug, PartialEq, Eq, Default)]
pub enum TaskType {
    /// An ordinary command.
    #[default]
    Script,
    /// A debug session with the given adapter configuration.
    Debug(DebugAdapterConfig),
}

/// A task in the form the task runner consumes.
#[derive(Clone, Debug, PartialEq, Eq, Default)]
pub struct TaskTemplate {
    /// Name of the task.
    pub label: String,
    /// Command to run; empty for debug tasks.
    pub command: String,
    /// Arguments of the command; empty for debug tasks.
    pub args: Vec<String>,
    /// What the task runs as.
    pub task_type: TaskType,
}

/// The templates resolved from one task file.
#[derive(Clone, Debug, PartialEq, Eq, Default)]
pub struct TaskTemplates(pub Vec<TaskTemplate>);

/// Why a single task definition was dropped during resolution.
#[derive(Clone, Copy, Debug, PartialEq, Eq, Structural)]
pub enum ConfigError {
    /// The definition names a custom adapter without a command to start it.
    UnsupportedAdapterKind,
    /// The definition has an empty label or an empty program.
    InvalidTaskDefinition,
}

/// A dropped definition: its position in the task file and the reason.
#[derive(Clone, Copy, Debug, PartialEq, Eq, Structural)]
pub struct Rejection {
    /// Index of the definition in the task file.
    pub index: usize,
    /// Why it was dropped.
    pub error: ConfigError,
}

/// The outcome of resolving a whole task file.
#[derive(Clone, Debug, PartialEq, Eq)]
pub struct Resolution {
    /// One template per valid definition, in file order.
    pub templates: TaskTemplates,
    /// One entry per dropped definition, in file order.
    pub rejected: Vec<Rejection>,
}

/// The mathematical content of a [`TaskTemplate`].
pub struct TaskTemplateView {
    pub label: Seq<char>,
    pub command: Seq<char>,
    pub args: Seq<String>,
    pub task_type: TaskType,
}

impl View for TaskTemplate {
    type V = TaskTemplateView;

    open spec fn view(&self) -> TaskTemplateView {
        TaskTemplateView {
            label: self.label@,
            command: self.command@,
            args: self.args@,
            task_type: self.task_type,
        }
    }
}

impl View for TaskTemplates {
    type V = Seq<TaskTemplateView>;

    open spec fn view(&self) -> Seq<TaskTemplateView> {
        self.0@.map_values(|t: TaskTemplate| t@)
    }
}

impl Default for DebugConnectionType {
    fn default() -> (r: Self)
        ensures
            r == DebugConnectionType::TCP(TCPHost { port: None, host: None, delay: None }),
    {
        DebugConnectionType::TCP(TCPHost { port: None, host: None, delay: None })
    }
}

impl Default for DebugAdapterKind {
    fn default() -> (r: Self)
        ensures
            r matches DebugAdapterKind::Custom(args) && args.connection
                == DebugConnectionType::STDIO && args.start_command@.len() == 0,
    {
        DebugAdapterKind::Custom(
            CustomArgs { connection: DebugConnectionType::STDIO, start_command: String::new() },
        )
    }
}

impl DebugAdapterKind {
    /// Whether this adapter can be started: a custom adapter needs a
    /// non-empty start command, the built-in ones are always startable.
    pub open spec fn spec_supported(self) -> bool {
        match self {
            DebugAdapterKind::Custom(args) => args.start_command@.len() > 0,
            _ => true,
        }
    }

    /// Decides [`Self::spec_supported`].
    pub fn is_supported(&self) -> (r: bool)
        ensures
            r == self.spec_supported(),
    {
        match self {
            DebugAdapterKind::Custom(args) => !args.start_command.as_str().is_empty(),
            _ => true,
        }
    }

    /// The connection this adapter is reached by: a custom adapter names its
    /// own, debugpy and vscode-php-debug listen on TCP with every field left
    /// to its default, and lldb speaks over its standard streams.
    pub open spec fn spec_connection(self) -> DebugConnectionType {
        match self {
            DebugAdapterKind::Custom(args) => args.connection,
            DebugAdapterKind::Python | DebugAdapterKind::PHP => DebugConnectionType::TCP(
                TCPHost { port: None, host: None, delay: None },
            ),
            DebugAdapterKind::Lldb => DebugConnectionType::STDIO,
        }
    }

    /// Computes [`Self::spec_connection`].
    pub fn connection(&self) -> (r: DebugConnectionType)
        ensures
            r == self.spec_connection(),
    {
        match self {
            DebugAdapterKind::Custom(args) => match &args.connection {
                DebugConnectionType::TCP(h) => DebugConnectionType::TCP(
                    TCPHost { port: h.port, host: h.host, delay: h.delay },
                ),
                DebugConnectionType::STDIO => DebugConnectionType::STDIO,
            },
            DebugAdapterKind::Python | DebugAdapterKind::PHP => DebugConnectionType::TCP(
                TCPHost { port: None, host: None, delay: None },
            ),
            DebugAdapterKind::Lldb => DebugConnectionType::STDIO,
        }
    }
}

/// Where and when to dial a TCP adapter, with every default filled in.
#[derive(Clone, Copy, Debug, PartialEq, Eq, Structural)]
pub struct ConnectPlan {
    /// The address to dial.
    pub host: HostAddress,
    /// The port to dial; `None` leaves the choice to the adapter.
    pub port: Option<u16>,
    /// Milliseconds to wait before the first connect attempt.
    pub delay_ms: u64,
}

impl TCPHost {
    /// The single place where missing fields get their defaults: the host
    /// defaults to the loopback address and the delay to zero; the port is
    /// passed through.
    pub open spec fn spec_plan(self) -> ConnectPlan {
        ConnectPlan {
            host: match self.host {
                Some(h) => h,
                None => HostAddress(127u8, 0u8, 0u8, 1u8),
            },
            port: self.port,
            delay_ms: match self.delay {
                Some(d) => d,
                None => 0u64,
            },
        }
    }

    /// Computes [`Self::spec_plan`].
    pub fn plan(&self) -> (r: ConnectPlan)
        ensures
            r == self.spec_plan(),
    {
        ConnectPlan {
            host: match self.host {
                Some(h) => h,
                None => HostAddress(127u8, 0u8, 0u8, 1u8),
            },
            port: self.port,
            delay_ms: match self.delay {
                Some(d) => d,
                None => 0u64,
            },
        }
    }
}

impl ConnectPlan {
    /// Whether a connect attempt may be made once `elapsed_ms` milliseconds
    /// have passed since the plan was resolved.
    pub open spec fn spec_may_connect(self, elapsed_ms: u64) -> bool {
        elapsed_ms >= self.delay_ms
    }

    /// Decides [`Self::spec_may_connect`].
    pub fn may_connect(&self, elapsed_ms: u64) -> (r: bool)
        ensures
            r == self.spec_may_connect(elapsed_ms),
    {
        elapsed_ms >= self.delay_ms
    }

    /// Milliseconds still to wait after `elapsed_ms` have passed.
    pub fn remaining_delay(&self, elapsed_ms: u64) -> (r: u64)
        ensures
            r == if elapsed_ms >= self.delay_ms { 0 } else { self.delay_ms - elapsed_ms },
            r == 0 <==> self.spec_may_connect(elapsed_ms),
    {
        if elapsed_ms >= self.delay_ms {
            0
        } else {
            self.delay_ms - elapsed_ms
        }
    }
}

impl DebugTaskDefinition {
    /// A definition from its parts.
    pub fn new(
        label: String,
        program: String,
        session_type: DebugRequestType,
        adapter: DebugAdapterKind,
        initialize_args: Option<Vec<String>>,
    ) -> (r: Self)
        ensures
            r == (DebugTaskDefinition { label, program, session_type, adapter, initialize_args }),
    {
        DebugTaskDefinition { label, program, session_type, adapter, initialize_args }
    }

    /// The reason this definition is dropped, if any.  An empty label or an
    /// empty program makes it invalid; otherwise an adapter that cannot be
    /// started makes it unsupported.
    pub open spec fn spec_check(self) -> Option<ConfigError> {
        if self.label@.len() == 0 || self.program@.len() == 0 {
            Some(ConfigError::InvalidTaskDefinition)
        } else if !self.adapter.spec_supported() {
            Some(ConfigError::UnsupportedAdapterKind)
        } else {
            None
        }
    }

    /// The adapter configuration this definition stands for.
    pub open spec fn spec_config(self) -> DebugAdapterConfig {
        DebugAdapterConfig {
            kind: self.adapter,
            request: self.session_type,
            program: self.program,
            adapter_path: None,
            initialize_args: self.initialize_args,
        }
    }

    /// The content of the template this definition resolves to.
    pub open spec fn spec_template(self) -> TaskTemplateView {
        TaskTemplateView {
            label: self.label@,
            command: Seq::empty(),
            args: Seq::empty(),
            task_type: TaskType::Debug(self.spec_config()),
        }
    }

    /// Computes [`Self::spec_check`].
    pub fn check(&self) -> (r: Option<ConfigError>)
        ensures
            r == self.spec_check(),
    {
        if self.label.as_str().is_empty() || self.program.as_str().is_empty() {
            Some(ConfigError::InvalidTaskDefinition)
        } else if !self.adapter.is_supported() {
            Some(ConfigError::UnsupportedAdapterKind)
        } else {
            None
        }
    }

    /// Resolves the definition into its adapter configuration, or says why
    /// it is dropped.
    pub fn into_config(self) -> (r: Result<DebugAdapterConfig, ConfigError>)
        ensures
            r == match self.spec_check() {
                Some(e) => Err::<DebugAdapterConfig, ConfigError>(e),
                None => Ok(self.spec_config()),
            },
    {
        match self.check() {
            Some(e) => Err(e),
            None => Ok(
                DebugAdapterConfig {
                    kind: self.adapter,
                    request: self.session_type,
                    program: self.program,
                    adapter_path: None,
                    initialize_args: self.initialize_args,
                },
            ),
        }
    }

    /// Resolves the definition into a task template with an empty command
    /// and no arguments, whose task type carries the adapter configuration.
    pub fn to_zed_format(self) -> (r: Result<TaskTemplate, ConfigError>)
        ensures
            match self.spec_check() {
                Some(e) => r == Err::<TaskTemplate, ConfigError>(e),
                None => r is Ok && r->Ok_0@ == self.spec_template(),
            },
    {
        match self.check() {
            Some(e) => Err(e),
            None => {
                let command = String::new();
                let task_type = TaskType::Debug(
                    DebugAdapterConfig {
                        kind: self.adapter,
                        request: self.session_type,
                        program: self.program,
                        adapter_path: None,
                        initialize_args: self.initialize_args,
                    },
                );
                let args: Vec<String> = Vec::new();
                Ok(TaskTemplate { label: self.label, command, args, task_type })
            },
        }
    }
}

/// The templates of the valid definitions among `defs`, in order.
pub open spec fn spec_resolved(defs: Seq<DebugTaskDefinition>) -> Seq<TaskTemplateView>
    decreases defs.len(),
{
    if defs.len() == 0 {
        Seq::empty()
    } else {
        let front = spec_resolved(defs.drop_last());
        match defs.last().spec_check() {
            Some(_) => front,
            None => front.push(defs.last().spec_template()),
        }
    }
}

/// The dropped definitions among `defs`, each with its index and reason, in
/// order.
pub open spec fn spec_rejected(defs: Seq<DebugTaskDefinition>) -> Seq<Rejection>
    decreases defs.len(),
{
    if defs.len() == 0 {
        Seq::empty()
    } else {
        let front = spec_rejected(defs.drop_last());
        match defs.last().spec_check() {
            Some(e) => front.push(Rejection { index: (defs.len() - 1) as usize, error: e }),
            None => front,
        }
    }
}

impl DebugTaskFile {
    /// Resolves every definition of the file.  A definition that fails its
    /// check is dropped and reported with its index; the others each give
    /// one template, and the order of the file is kept on both sides.
    pub fn resolve(self) -> (r: Resolution)
        ensures
            r.templates@ == spec_resolved(self.0@),
            r.rejected@ == spec_rejected(self.0@),
    {
        let ghost defs = self.0@;
        let count = self.0.len();
        let mut templates: Vec<TaskTemplate> = Vec::new();
        let mut rejected: Vec<Rejection> = Vec::new();
        let mut index: usize = 0;
        for def in it: self.0.into_iter()
            invariant
                it.seq() == defs,
                defs.len() == count,
                index == it.index(),
                templates@.map_values(|t: TaskTemplate| t@) == spec_resolved(
                    defs.take(index as int),
                ),
                rejected@ == spec_rejected(defs.take(index as int)),
        {
            proof {
                assert(defs.take(index + 1).drop_last() == defs.take(index as int));
                assert(defs.take(index + 1).last() == def);
            }
            let ghost before = templates@.map_values(|t: TaskTemplate| t@);
            match def.to_zed_format() {
                Ok(template) => {
                    templates.push(template);
                    assert(templates@.map_values(|t: TaskTemplate| t@) == before.push(
                        template@,
                    ));
                },
                Err(error) => {
                    rejected.push(Rejection { index, error });
                },
            }
            index = index + 1;
        }
        proof {
            assert(defs.take(index as int) == defs);
        }
        Resolution { templates: TaskTemplates(templates), rejected }
    }
}

impl TaskTemplates {
    /// Resolves the file `value`.  An invalid definition never fails the
    /// file: the result is always `Ok`, with one template per valid
    /// definition and one report per dropped one, each with the index of
    /// the definition and the reason.
    pub fn try_from(value: DebugTaskFile) -> (r: Result<Resolution, ConfigError>)
        ensures
            r is Ok,
            r->Ok_0.templates@ == spec_resolved(value.0@),
            r->Ok_0.rejected@ == spec_rejected(value.0@),
    {
        Ok(value.resolve())
    }
}

/// Resolution distributes over concatenation: what a definition resolves to
/// does not depend on the definitions around it.
pub proof fn lemma_resolved_concat(a: Seq<DebugTaskDefinition>, b: Seq<DebugTaskDefinition>)
    ensures
        spec_resolved(a + b) == spec_resolved(a) + spec_resolved(b),
    decreases b.len(),
{
    if b.len() == 0 {
        assert(a + b == a);
    } else {
        lemma_resolved_concat(a, b.drop_last());
        assert((a + b).drop_last() == a + b.drop_last());
        assert((a + b).last() == b.last());
    }
}

/// Every definition is either resolved or reported, never both and never
/// neither: the two outputs together are as long as the input.
pub proof fn lemma_resolution_counts(defs: Seq<DebugTaskDefinition>)
    ensures
        spec_resolved(defs).len() + spec_rejected(defs).len() == defs.len(),
    decreases defs.len(),
{
    if defs.len() > 0 {
        lemma_resolution_counts(defs.drop_last());
    }
}

/// Every report names a definition of the file and the reason that this
/// very definition fails its check, and the reports follow the order of the
/// file.
pub proof fn lemma_rejections_are_exact(defs: Seq<DebugTaskDefinition>, k: int)
    requires
        defs.len() <= usize::MAX,
        0 <= k < spec_rejected(defs).len(),
    ensures
        spec_rejected(defs)[k].index < defs.len(),
        defs[spec_rejected(defs)[k].index as int].spec_check() == Some(
            spec_rejected(defs)[k].error,
        ),
        k > 0 ==> spec_rejected(defs)[k - 1].index < spec_rejected(defs)[k].index,
    decreases defs.len(),
{
    let front = defs.drop_last();
    if k < spec_rejected(front).len() {
        lemma_rejections_are_exact(front, k);
    } else if k > 0 {
        lemma_rejections_are_exact(front, k - 1);
    }
}

/// Removing or inserting an invalid definition anywhere in a file leaves the
/// resolved templates unchanged.
pub proof fn lemma_invalid_definition_is_inert(
    a: Seq<DebugTaskDefinition>,
    bad: DebugTaskDefinition,
    b: Seq<DebugTaskDefinition>,
)
    requires
        bad.spec_check() is Some,
    ensures
        spec_resolved(a.push(bad) + b) == spec_resolved(a + b),
{
    lemma_resolved_concat(a.push(bad), b);
    lemma_resolved_concat(a, b);
    assert(a.push(bad).drop_last() == a);
}

} // verus!
