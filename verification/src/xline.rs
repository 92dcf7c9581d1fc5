//! How an Xline node is started and stopped.
//!
//! A handle decides what is to be run and what is to be stopped; its caller runs and
//! stops it, and tells the handle when a process has come up.

use vstd::prelude::*;
use vstd::string::*;

verus! {

/// A member of the cluster: its name and its address.
#[derive(Debug, PartialEq, Eq)]
pub struct Member {
    pub name: String,
    pub addr: String,
}

/// The model of a member.
pub struct MemberView {
    pub name: Seq<char>,
    pub addr: Seq<char>,
}

impl DeepView for Member {
    type V = MemberView;

    open spec fn deep_view(&self) -> MemberView {
        MemberView { name: self.name@, addr: self.addr@ }
    }
}

impl Clone for Member {
    fn clone(&self) -> (res: Self)
        ensures
            res.deep_view() == self.deep_view(),
    {
        Member { name: self.name.clone(), addr: self.addr.clone() }
    }
}

/// No two of `members` have the same name.
pub open spec fn distinct_names(members: Seq<MemberView>) -> bool {
    forall|i: int, j: int|
        0 <= i < j < members.len() ==> #[trigger] members[i].name != #[trigger] members[j].name
}

/// How an Xline node is to be run.
#[derive(Debug, PartialEq, Eq)]
pub struct XlineConfig {
    /// The name of the node.
    pub name: String,
    /// The program to run.
    pub executable: String,
    /// The storage engine that the node uses.
    pub storage_engine: String,
    /// Where the node keeps its data.
    pub data_dir: String,
    /// Whether the node starts as the leader.
    pub is_leader: bool,
    /// Further arguments, which may stand in quotes.
    pub additional: Option<String>,
}

/// The model of such a configuration.
pub struct XlineConfigView {
    pub name: Seq<char>,
    pub executable: Seq<char>,
    pub storage_engine: Seq<char>,
    pub data_dir: Seq<char>,
    pub is_leader: bool,
    pub additional: Option<Seq<char>>,
}

impl DeepView for XlineConfig {
    type V = XlineConfigView;

    open spec fn deep_view(&self) -> XlineConfigView {
        XlineConfigView {
            name: self.name@,
            executable: self.executable@,
            storage_engine: self.storage_engine@,
            data_dir: self.data_dir@,
            is_leader: self.is_leader,
            additional: self.additional.deep_view(),
        }
    }
}

impl Clone for XlineConfig {
    fn clone(&self) -> (res: Self)
        ensures
            res.deep_view() == self.deep_view(),
    {
        XlineConfig {
            name: self.name.clone(),
            executable: self.executable.clone(),
            storage_engine: self.storage_engine.clone(),
            data_dir: self.data_dir.clone(),
            is_leader: self.is_leader,
            additional: self.additional.clone(),
        }
    }
}

/// `c` is a single or a double quote.
pub open spec fn is_quote(c: char) -> bool {
    c == '\'' || c == '"'
}

/// `text` without its quotes is what stands from `from` up to `to`: before and after
/// it there are quotes only, and it neither begins nor ends with one.
pub open spec fn is_core(text: Seq<char>, from: int, to: int) -> bool {
    &&& 0 <= from <= to <= text.len()
    &&& forall|i: int| 0 <= i < from ==> is_quote(#[trigger] text[i])
    &&& forall|i: int| to <= i < text.len() ==> is_quote(#[trigger] text[i])
    &&& from < to ==> !is_quote(text[from]) && !is_quote(text[to - 1])
}

/// `text` without the quotes before and after it.
pub open spec fn trim_quotes(text: Seq<char>) -> Seq<char> {
    let (from, to) = choose|from: int, to: int| is_core(text, from, to);
    text.subrange(from, to)
}

/// `name=addr` for one member.
pub open spec fn member_text(member: MemberView) -> Seq<char> {
    member.name + "="@ + member.addr
}

/// The members as `name=addr`, with commas between them.
pub open spec fn members_text(members: Seq<MemberView>) -> Seq<char>
    decreases members.len(),
{
    if members.len() == 0 {
        Seq::empty()
    } else if members.len() == 1 {
        member_text(members[0])
    } else {
        members_text(members.drop_last()) + ","@ + member_text(members.last())
    }
}

/// The command that starts the node `config` in a cluster of `members`.
pub open spec fn start_cmd_of(config: XlineConfigView, members: Seq<MemberView>) -> Seq<char> {
    let base = config.executable + " --name "@ + config.name + " --members "@ + members_text(
        members,
    ) + " --storage-engine "@ + config.storage_engine + " --data-dir "@ + config.data_dir;
    let led = if config.is_leader {
        base + " "@ + "--is-leader"@
    } else {
        base
    };
    match config.additional {
        Some(additional) => led + " "@ + trim_quotes(additional),
        None => led,
    }
}

proof fn lemma_core_is_one(text: Seq<char>, from: int, to: int)
    requires
        is_core(text, from, to),
    ensures
        trim_quotes(text) == text.subrange(from, to),
{
    let (f, t) = choose|f: int, t: int| is_core(text, f, t);
    assert(is_core(text, f, t));
    if from < to {
        // The first and the last character that is no quote are where they are.
        if f == t {
            if from < f {
                assert(is_quote(text[from]));
            } else {
                assert(is_quote(text[from]));
            }
        } else {
            if f < from {
                assert(is_quote(text[f]));
            } else if from < f {
                assert(is_quote(text[from]));
            }
            if t < to {
                assert(is_quote(text[to - 1]));
            } else if to < t {
                assert(is_quote(text[t - 1]));
            }
        }
    } else {
        if f < t {
            if f < from {
                assert(is_quote(text[f]));
            } else {
                assert(is_quote(text[f]));
            }
        }
    }
    assert(text.subrange(f, t) =~= text.subrange(from, to));
}

fn quote(c: char) -> (q: bool)
    ensures
        q == is_quote(c),
{
    c == '\'' || c == '"'
}

/// Takes the quotes away that stand before and after `text`.
pub fn trim_quote_marks(text: &str) -> (core: &str)
    ensures
        core@ == trim_quotes(text@),
{
    let n: usize = text.unicode_len();
    let mut from: usize = 0;
    while from < n && quote(text.get_char(from))
        invariant
            from <= n,
            n == text@.len(),
            forall|i: int| 0 <= i < from ==> is_quote(#[trigger] text@[i]),
        decreases n - from,
    {
        from += 1;
    }
    let mut to: usize = n;
    while to > from && quote(text.get_char(to - 1))
        invariant
            from <= to <= n,
            n == text@.len(),
            forall|i: int| to <= i < n ==> is_quote(#[trigger] text@[i]),
        decreases to,
    {
        to -= 1;
    }
    proof {
        lemma_core_is_one(text@, from as int, to as int);
    }
    text.substring_char(from, to)
}

impl XlineConfig {
    /// The command that starts this node in a cluster of `members`: the program, the
    /// node's name, the members in their order, the storage engine and the data
    /// directory; then `--is-leader` for a leader; then the further arguments without
    /// the quotes around them.
    pub fn gen_start_cmd(&self, members: &Vec<Member>) -> (start_cmd: String)
        ensures
            start_cmd@ == start_cmd_of(self.deep_view(), members.deep_view()),
    {
        let mut joined: String = String::new();
        let mut i: usize = 0;
        while i < members.len()
            invariant
                i <= members.len(),
                joined@ == members_text(members.deep_view().take(i as int)),
            decreases members.len() - i,
        {
            let ghost all = members.deep_view();
            assert(all.take(i + 1).drop_last() =~= all.take(i as int));
            assert(all.take(i + 1).last() == members[i as int].deep_view());
            if i > 0 {
                joined.append(",");
            }
            joined.append(members[i].name.as_str());
            joined.append("=");
            joined.append(members[i].addr.as_str());
            assert(joined@ =~= members_text(all.take(i + 1)));
            i += 1;
        }
        assert(members.deep_view().take(i as int) =~= members.deep_view());
        let mut start_cmd: String = self.executable.clone();
        start_cmd.append(" --name ");
        start_cmd.append(self.name.as_str());
        start_cmd.append(" --members ");
        start_cmd.append(joined.as_str());
        start_cmd.append(" --storage-engine ");
        start_cmd.append(self.storage_engine.as_str());
        start_cmd.append(" --data-dir ");
        start_cmd.append(self.data_dir.as_str());
        if self.is_leader {
            start_cmd.append(" ");
            start_cmd.append("--is-leader");
        }
        if let Some(additional) = &self.additional {
            start_cmd.append(" ");
            start_cmd.append(trim_quote_marks(additional.as_str()));
        }
        start_cmd
    }
}

/// The pieces of `text` that white space parts from each other, in their order, as
/// `str::split_whitespace` gives them.
pub uninterp spec fn whitespace_split(text: Seq<char>) -> Seq<Seq<char>>;

/// `str::split_whitespace`, its pieces collected: the result is what the name
/// `whitespace_split` stands for, and nothing more is said of it.
#[verifier::external_body]
fn split_whitespace(text: &str) -> (pieces: Vec<String>)
    ensures
        pieces.deep_view() == whitespace_split(text@),
{
    text.split_whitespace().map(|piece| piece.to_owned()).collect()
}

/// What a handle asks of its caller.
#[derive(Debug, PartialEq, Eq)]
pub enum HandleAction {
    /// Stop the process that was started last.
    Stop,
    /// Run `program` with `args` on this machine.
    Spawn { program: String, args: Vec<String> },
    /// Run `command` in the container `container_name` of the pod `pod_name`.
    Exec { pod_name: String, container_name: String, command: Vec<String> },
}

/// The model of such an action.
pub enum HandleActionView {
    Stop,
    Spawn { program: Seq<char>, args: Seq<Seq<char>> },
    Exec { pod_name: Seq<char>, container_name: Seq<char>, command: Seq<Seq<char>> },
}

impl DeepView for HandleAction {
    type V = HandleActionView;

    open spec fn deep_view(&self) -> HandleActionView {
        match self {
            HandleAction::Stop => HandleActionView::Stop,
            HandleAction::Spawn { program, args } => HandleActionView::Spawn {
                program: program@,
                args: args.deep_view(),
            },
            HandleAction::Exec { pod_name, container_name, command } => HandleActionView::Exec {
                pod_name: pod_name@,
                container_name: container_name@,
                command: command.deep_view(),
            },
        }
    }
}

impl Clone for HandleAction {
    fn clone(&self) -> (res: Self)
        ensures
            res.deep_view() == self.deep_view(),
    {
        match self {
            HandleAction::Stop => HandleAction::Stop,
            HandleAction::Spawn { program, args } => HandleAction::Spawn {
                program: program.clone(),
                args: args.clone(),
            },
            HandleAction::Exec { pod_name, container_name, command } => HandleAction::Exec {
                pod_name: pod_name.clone(),
                container_name: container_name.clone(),
                command: command.clone(),
            },
        }
    }
}

/// What stops the process of a handle: one action if there is a process, else none.
pub open spec fn stop_of(running: bool) -> Seq<HandleActionView> {
    if running {
        seq![HandleActionView::Stop]
    } else {
        seq![]
    }
}

/// What runs the pieces `argv` of a command on this machine: the first piece is the
/// program, the others are its arguments. There is nothing to run without a piece.
pub open spec fn spawn_of(argv: Seq<Seq<char>>) -> Seq<HandleActionView> {
    if argv.len() == 0 {
        seq![]
    } else {
        seq![HandleActionView::Spawn { program: argv[0], args: argv.skip(1) }]
    }
}

/// What runs the pieces `argv` of a command in a pod.
pub open spec fn exec_of(
    pod_name: Seq<char>,
    container_name: Seq<char>,
    argv: Seq<Seq<char>>,
) -> Seq<HandleActionView> {
    seq![HandleActionView::Exec { pod_name, container_name, command: argv }]
}

/// A handle on an Xline node: it can be started in a cluster of members, and killed.
///
/// A handle holds at most one process. To start the node is to stop the process that
/// the handle holds, if any, and then to run the node anew; the handle holds the new
/// process once `attach` has told it that the process came up.
pub trait XlineHandle {
    /// Whether the handle holds a process.
    spec fn is_running(&self) -> bool;

    /// What runs the node in a cluster of `members`.
    spec fn launch_of(&self, members: Seq<MemberView>) -> Seq<HandleActionView>;

    /// What is to be done to start the node. The handle then holds no process.
    fn start(&mut self, members: &Vec<Member>) -> (actions: Vec<HandleAction>)
        ensures
            !final(self).is_running(),
            actions.deep_view() == stop_of(old(self).is_running()) + old(self).launch_of(
                members.deep_view(),
            ),
            forall|others: Seq<MemberView>| final(self).launch_of(others) == old(self).launch_of(others),
    ;

    /// The process that `start` asked for came up: the handle holds it now.
    fn attach(&mut self)
        ensures
            final(self).is_running(),
            forall|others: Seq<MemberView>| final(self).launch_of(others) == old(self).launch_of(others),
    ;

    /// What is to be done to kill the node. The handle then holds no process.
    fn kill(&mut self) -> (actions: Vec<HandleAction>)
        ensures
            !final(self).is_running(),
            actions.deep_view() == stop_of(old(self).is_running()),
            forall|others: Seq<MemberView>| final(self).launch_of(others) == old(self).launch_of(others),
    ;
}

fn stop_actions(running: bool) -> (actions: Vec<HandleAction>)
    ensures
        actions.deep_view() == stop_of(running),
{
    let mut actions: Vec<HandleAction> = Vec::new();
    if running {
        actions.push(HandleAction::Stop);
    }
    assert(actions.deep_view() =~= stop_of(running));
    actions
}

/// A handle on a node that runs as a process of this machine.
#[derive(Debug)]
pub struct LocalXlineHandle {
    config: XlineConfig,
    running: bool,
}

impl LocalXlineHandle {
    /// The configuration of the node.
    pub closed spec fn config(&self) -> XlineConfigView {
        self.config.deep_view()
    }

    /// Whether the handle holds a process.
    pub fn running(&self) -> (running: bool)
        ensures
            running == self.is_running(),
    {
        self.running
    }

    /// A handle on the node `config`, which does not run yet.
    pub fn new(config: XlineConfig) -> (handle: Self)
        ensures
            !handle.is_running(),
            handle.config() == config.deep_view(),
    {
        Self { config, running: false }
    }

    /// What is to be done to start a node whose command has the pieces `argv`: stop
    /// the old process if there is one, then run the program with its arguments.
    pub fn plan_start(running: bool, argv: Vec<String>) -> (actions: Vec<HandleAction>)
        ensures
            actions.deep_view() == stop_of(running) + spawn_of(argv.deep_view()),
    {
        let mut actions: Vec<HandleAction> = stop_actions(running);
        let ghost pieces = argv.deep_view();
        let ghost stop = actions.deep_view();
        if argv.len() > 0 {
            let mut args: Vec<String> = argv;
            let program: String = args.remove(0);
            assert(args.deep_view() =~= pieces.skip(1));
            assert(program@ == pieces[0]);
            actions.push(HandleAction::Spawn { program, args });
            assert(actions.deep_view() =~= stop + spawn_of(pieces));
        } else {
            assert(actions.deep_view() =~= stop + spawn_of(pieces));
        }
        actions
    }
}

impl XlineHandle for LocalXlineHandle {
    closed spec fn is_running(&self) -> bool {
        self.running
    }

    closed spec fn launch_of(&self, members: Seq<MemberView>) -> Seq<HandleActionView> {
        spawn_of(whitespace_split(start_cmd_of(self.config.deep_view(), members)))
    }

    fn start(&mut self, members: &Vec<Member>) -> (actions: Vec<HandleAction>)
        ensures
            final(self).config() == old(self).config(),
            final(self).launch_of(members.deep_view()) == spawn_of(
                whitespace_split(start_cmd_of(final(self).config(), members.deep_view())),
            ),
    {
        let cmd: String = self.config.gen_start_cmd(members);
        let argv: Vec<String> = split_whitespace(cmd.as_str());
        let actions = Self::plan_start(self.running, argv);
        self.running = false;
        actions
    }

    fn attach(&mut self)
        ensures
            final(self).config() == old(self).config(),
    {
        self.running = true;
    }

    fn kill(&mut self) -> (actions: Vec<HandleAction>)
        ensures
            final(self).config() == old(self).config(),
    {
        let actions = stop_actions(self.running);
        self.running = false;
        actions
    }
}

/// A handle on a node that runs in the container of a pod.
#[derive(Debug)]
pub struct K8sXlineHandle {
    pod_name: String,
    container_name: String,
    config: XlineConfig,
    running: bool,
}

impl K8sXlineHandle {
    /// The configuration of the node.
    pub closed spec fn config(&self) -> XlineConfigView {
        self.config.deep_view()
    }

    /// The pod in which the node runs.
    pub closed spec fn pod_name(&self) -> Seq<char> {
        self.pod_name@
    }

    /// The container in which the node runs.
    pub closed spec fn container_name(&self) -> Seq<char> {
        self.container_name@
    }

    /// Whether the handle holds a process.
    pub fn running(&self) -> (running: bool)
        ensures
            running == self.is_running(),
    {
        self.running
    }

    /// A handle on the node `config` in the container `container_name` of the pod
    /// `pod_name`. The node does not run yet.
    pub fn new(pod_name: String, container_name: String, config: XlineConfig) -> (handle: Self)
        ensures
            !handle.is_running(),
            handle.config() == config.deep_view(),
            handle.pod_name() == pod_name@,
            handle.container_name() == container_name@,
    {
        Self { pod_name, container_name, config, running: false }
    }

    /// What is to be done to start a node whose command has the pieces `argv` in the
    /// given container: stop the old process if there is one, then run the command.
    pub fn plan_start(running: bool, pod_name: &str, container_name: &str, argv: Vec<String>) -> (actions:
        Vec<HandleAction>)
        ensures
            actions.deep_view() == stop_of(running) + exec_of(
                pod_name@,
                container_name@,
                argv.deep_view(),
            ),
    {
        let mut actions: Vec<HandleAction> = stop_actions(running);
        let ghost stop = actions.deep_view();
        let ghost pieces = argv.deep_view();
        actions.push(
            HandleAction::Exec {
                pod_name: String::from_str(pod_name),
                container_name: String::from_str(container_name),
                command: argv,
            },
        );
        assert(actions.deep_view() =~= stop + exec_of(pod_name@, container_name@, pieces));
        actions
    }
}

impl XlineHandle for K8sXlineHandle {
    closed spec fn is_running(&self) -> bool {
        self.running
    }

    closed spec fn launch_of(&self, members: Seq<MemberView>) -> Seq<HandleActionView> {
        exec_of(
            self.pod_name@,
            self.container_name@,
            whitespace_split(start_cmd_of(self.config.deep_view(), members)),
        )
    }

    fn start(&mut self, members: &Vec<Member>) -> (actions: Vec<HandleAction>)
        ensures
            final(self).config() == old(self).config(),
            final(self).pod_name() == old(self).pod_name(),
            final(self).container_name() == old(self).container_name(),
            final(self).launch_of(members.deep_view()) == exec_of(
                final(self).pod_name(),
                final(self).container_name(),
                whitespace_split(start_cmd_of(final(self).config(), members.deep_view())),
            ),
    {
        let cmd: String = self.config.gen_start_cmd(members);
        let argv: Vec<String> = split_whitespace(cmd.as_str());
        let actions = Self::plan_start(
            self.running,
            self.pod_name.as_str(),
            self.container_name.as_str(),
            argv,
        );
        self.running = false;
        actions
    }

    fn attach(&mut self)
        ensures
            final(self).config() == old(self).config(),
            final(self).pod_name() == old(self).pod_name(),
            final(self).container_name() == old(self).container_name(),
    {
        self.running = true;
    }

    fn kill(&mut self) -> (actions: Vec<HandleAction>)
        ensures
            final(self).config() == old(self).config(),
            final(self).pod_name() == old(self).pod_name(),
            final(self).container_name() == old(self).container_name(),
    {
        let actions = stop_actions(self.running);
        self.running = false;
        actions
    }
}

} // verus!
