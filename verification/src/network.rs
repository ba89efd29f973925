//! Provisioning of one namespace: the operations it takes, their order, and
//! what the outcome of each means for the rest.
//!
//! Nothing here touches the kernel. A `Provisioner` hands out one operation at
//! a time; the caller performs it and reports the outcome, and the
//! `Provisioner` says whether to go on. An operation that must run inside the
//! new namespace is for the caller to perform in a process or thread made for
//! that one operation and discarded after it: a thread that has entered a
//! namespace stays there, and must not be used for anything else.

use crate::process::{
    outcome_of, ChildOutcome, EXIT_DONE, EXIT_LINK_NOT_FOUND, EXIT_SETUP_FAILED,
};
use crate::route::RouteInfo;
use crate::subnet::{derive_peer_address, mask_to_prefix, peer_address, prefix_len, Ipv4};
use vstd::arithmetic::power2::pow2;
use vstd::prelude::*;

verus! {

/// How the namespace is wired to the host.
#[derive(Debug, Clone, Copy, PartialEq, Eq, Structural)]
pub enum LinkMode {
    /// A pair of virtual links, one end of which goes into the namespace.
    Veth,
    /// A virtual link layered on an existing host link. The new link goes
    /// into the namespace; the host link stays where it is.
    Macvlan,
}

/// One operation of the provisioning.
#[derive(Debug, Clone, Copy, PartialEq, Eq, Structural)]
pub enum Step {
    /// Create the namespace.
    AddNs,
    /// Create the pair of virtual links.
    CreateVethPair,
    /// Create the virtual link on top of the host link.
    CreateMacvlan,
    /// Move into the namespace the link that is to be inside.
    SetVethToNs,
    /// Give the link that stays outside its address.
    AddAddress,
    /// Give the link inside the namespace its address, from inside.
    AddAddressWithNs,
    /// Bring up the link that stays outside.
    SetLinkUp,
    /// Bring up the loopback and the link inside the namespace, from inside.
    SetLinkUpWithNs,
    /// Install a default route through the gateway inside the namespace.
    AddRoute,
}

/// What the caller saw when it performed an operation.
#[derive(Debug, Clone, Copy, PartialEq, Eq, Structural)]
pub enum Outcome {
    /// The operation was carried out.
    Done,
    /// The link that the operation names was looked up and not found.
    LinkNotFound,
    /// The operation was refused or could not be carried out.
    Failed,
}

/// The kinds of provisioning failure.
#[derive(Debug, Clone, Copy, PartialEq, Eq, Structural)]
pub enum NetworkError {
    /// The namespace could not be created; one of that name may exist.
    NamespaceError,
    /// A link could not be found, created, moved or brought up.
    LinkError,
    /// An address could not be assigned.
    AddressError,
    /// The default route could not be installed.
    RouteError,
}

/// A provisioning failure: its kind and the operation that failed.
#[derive(Debug, Clone, Copy, PartialEq, Eq, Structural)]
pub struct Failure {
    pub kind: NetworkError,
    pub step: Step,
}

/// What a reported outcome means for the provisioning.
#[derive(Debug, Clone, Copy, PartialEq, Eq, Structural)]
pub enum Verdict {
    /// The operation is done; go on with the next.
    Proceed,
    /// The operation was passed over because its link was not found; warn, and
    /// go on with the next. The namespace may end up partly wired.
    Skipped,
    /// The provisioning has failed and hands out no further operation.
    Aborted(Failure),
    /// No operation was pending: the provisioning had ended before.
    Idle,
}

/// The choices open to the operator.
#[derive(Debug, Clone, Copy, PartialEq, Eq, Structural)]
pub struct Options {
    pub mode: LinkMode,
    /// Whether a link that is not found fails the provisioning. Otherwise the
    /// operation is passed over with a warning.
    pub strict: bool,
    /// Whether a default route through the gateway is installed at the end.
    pub default_route: bool,
}

/// Names and addresses of one provisioning.
#[derive(Debug)]
pub struct NamespaceContext {
    pub ns_name: String,
    /// Of a pair of virtual links, the end that is moved into the namespace;
    /// otherwise the existing link that the new link is made on.
    pub host_link: String,
    /// The link that is made: of a pair the end that stays outside, otherwise
    /// the link on top of the host link, which is moved into the namespace.
    pub new_link: String,
    /// The address of the host link.
    pub uplink_address: Ipv4,
    /// The address of the new link.
    pub peer_address: Ipv4,
    pub prefix: u8,
    pub gateway: Ipv4,
}

/// A provisioning under way.
#[derive(Debug)]
pub struct Provisioner {
    pub context: NamespaceContext,
    pub options: Options,
    /// Number of operations reported so far.
    pub position: usize,
    /// The operations passed over so far, in order.
    pub skipped: Vec<Step>,
    pub failure: Option<Failure>,
}

/// An operation with all that is needed to perform it.
#[derive(Debug)]
pub enum Action {
    AddNs { name: String },
    CreateVethPair { link: String, peer: String },
    CreateMacvlan { link: String, base: String },
    SetVethToNs { link: String, ns: String },
    AddAddress { link: String, address: Ipv4, prefix: u8 },
    AddAddressWithNs { link: String, address: Ipv4, prefix: u8, ns: String },
    SetLinkUp { link: String },
    SetLinkUpWithNs { loopback: String, link: String, ns: String },
    AddRoute { gateway: Ipv4, ns: String },
}

pub ghost struct ContextView {
    pub ns_name: Seq<char>,
    pub host_link: Seq<char>,
    pub new_link: Seq<char>,
    pub uplink_address: Ipv4,
    pub peer_address: Ipv4,
    pub prefix: u8,
    pub gateway: Ipv4,
}

pub ghost enum ActionView {
    AddNs { name: Seq<char> },
    CreateVethPair { link: Seq<char>, peer: Seq<char> },
    CreateMacvlan { link: Seq<char>, base: Seq<char> },
    SetVethToNs { link: Seq<char>, ns: Seq<char> },
    AddAddress { link: Seq<char>, address: Ipv4, prefix: u8 },
    AddAddressWithNs { link: Seq<char>, address: Ipv4, prefix: u8, ns: Seq<char> },
    SetLinkUp { link: Seq<char> },
    SetLinkUpWithNs { loopback: Seq<char>, link: Seq<char>, ns: Seq<char> },
    AddRoute { gateway: Ipv4, ns: Seq<char> },
}

/// Where a provisioning stands.
pub ghost struct Progress {
    pub context: ContextView,
    pub options: Options,
    pub position: nat,
    pub skipped: Seq<Step>,
    pub failure: Option<Failure>,
}

impl View for NamespaceContext {
    type V = ContextView;

    open spec fn view(&self) -> ContextView {
        ContextView {
            ns_name: self.ns_name@,
            host_link: self.host_link@,
            new_link: self.new_link@,
            uplink_address: self.uplink_address,
            peer_address: self.peer_address,
            prefix: self.prefix,
            gateway: self.gateway,
        }
    }
}

impl View for Action {
    type V = ActionView;

    open spec fn view(&self) -> ActionView {
        match self {
            Action::AddNs { name } => ActionView::AddNs { name: name@ },
            Action::CreateVethPair { link, peer } => ActionView::CreateVethPair {
                link: link@,
                peer: peer@,
            },
            Action::CreateMacvlan { link, base } => ActionView::CreateMacvlan {
                link: link@,
                base: base@,
            },
            Action::SetVethToNs { link, ns } => ActionView::SetVethToNs { link: link@, ns: ns@ },
            Action::AddAddress { link, address, prefix } => ActionView::AddAddress {
                link: link@,
                address: *address,
                prefix: *prefix,
            },
            Action::AddAddressWithNs { link, address, prefix, ns } => ActionView::AddAddressWithNs {
                link: link@,
                address: *address,
                prefix: *prefix,
                ns: ns@,
            },
            Action::SetLinkUp { link } => ActionView::SetLinkUp { link: link@ },
            Action::SetLinkUpWithNs { loopback, link, ns } => ActionView::SetLinkUpWithNs {
                loopback: loopback@,
                link: link@,
                ns: ns@,
            },
            Action::AddRoute { gateway, ns } => ActionView::AddRoute { gateway: *gateway, ns: ns@ },
        }
    }
}

impl View for Provisioner {
    type V = Progress;

    open spec fn view(&self) -> Progress {
        Progress {
            context: self.context@,
            options: self.options,
            position: self.position as nat,
            skipped: self.skipped@,
            failure: self.failure,
        }
    }
}

/// The operations of a provisioning, in the order in which they are performed.
/// Each one relies on those before it: a link is moved into the namespace
/// before it is given its address there, and has its address before it is
/// brought up. Which link goes inside depends on the mode: see `action_of`.
pub open spec fn plan_of(options: Options) -> Seq<Step> {
    let link = match options.mode {
        LinkMode::Veth => Step::CreateVethPair,
        LinkMode::Macvlan => Step::CreateMacvlan,
    };
    let fixed = seq![
        Step::AddNs,
        link,
        Step::SetVethToNs,
        Step::AddAddress,
        Step::AddAddressWithNs,
        Step::SetLinkUp,
        Step::SetLinkUpWithNs,
    ];
    if options.default_route {
        fixed.push(Step::AddRoute)
    } else {
        fixed
    }
}

/// The kind of failure that an operation ends in.
pub open spec fn error_of(step: Step) -> NetworkError {
    match step {
        Step::AddNs => NetworkError::NamespaceError,
        Step::CreateVethPair => NetworkError::LinkError,
        Step::CreateMacvlan => NetworkError::LinkError,
        Step::SetVethToNs => NetworkError::LinkError,
        Step::AddAddress => NetworkError::AddressError,
        Step::AddAddressWithNs => NetworkError::AddressError,
        Step::SetLinkUp => NetworkError::LinkError,
        Step::SetLinkUpWithNs => NetworkError::LinkError,
        Step::AddRoute => NetworkError::RouteError,
    }
}

/// Whether an operation looks a link up by name before it works on it, so
/// that it can be passed over when the link is not there. Creating the
/// namespace, the pair of links or the route looks nothing up.
pub open spec fn looks_up_link(step: Step) -> bool {
    match step {
        Step::AddNs => false,
        Step::CreateVethPair => false,
        Step::AddRoute => false,
        _ => true,
    }
}

/// What an outcome means for the operation it is reported of.
///
/// A link that is not found is a failure of kind `LinkError` in strict mode
/// and for an operation that looks no link up; otherwise the operation is
/// passed over. Any other failure ends the provisioning with the kind of the
/// operation.
pub open spec fn judge(step: Step, outcome: Outcome, strict: bool) -> Verdict {
    match outcome {
        Outcome::Done => Verdict::Proceed,
        Outcome::LinkNotFound => if looks_up_link(step) && !strict {
            Verdict::Skipped
        } else if looks_up_link(step) {
            Verdict::Aborted(Failure { kind: NetworkError::LinkError, step })
        } else {
            Verdict::Aborted(Failure { kind: error_of(step), step })
        },
        Outcome::Failed => Verdict::Aborted(Failure { kind: error_of(step), step }),
    }
}

/// What the end of a helper that worked inside the namespace means for the
/// operation it was sent to perform. A link that the helper did not find
/// there is reported as one not found outside is; a helper that crashed has
/// not done its work.
pub open spec fn outcome_of_child(child: ChildOutcome) -> Outcome {
    match child {
        ChildOutcome::Done => Outcome::Done,
        ChildOutcome::LinkNotFound => Outcome::LinkNotFound,
        ChildOutcome::SetupFailed => Outcome::Failed,
        ChildOutcome::Crashed => Outcome::Failed,
    }
}

/// The exit code by which a helper reports how its work went: whether it
/// entered the namespace, and what it saw when it worked there.
pub open spec fn exit_code_of(entered: bool, seen: Outcome) -> i32 {
    if !entered {
        EXIT_SETUP_FAILED
    } else {
        match seen {
            Outcome::Done => EXIT_DONE,
            Outcome::LinkNotFound => EXIT_LINK_NOT_FOUND,
            Outcome::Failed => EXIT_SETUP_FAILED,
        }
    }
}

/// What two operations performed one after the other amount to as one: a
/// failure if either failed, else a link not found if either found none.
pub open spec fn both_of(first: Outcome, second: Outcome) -> Outcome {
    if first == Outcome::Failed || second == Outcome::Failed {
        Outcome::Failed
    } else if first == Outcome::LinkNotFound || second == Outcome::LinkNotFound {
        Outcome::LinkNotFound
    } else {
        Outcome::Done
    }
}

impl ContextView {
    /// The link that goes into the namespace: of a pair of virtual links the
    /// host-named end, otherwise the new link made on top of the host link.
    pub open spec fn inner_link(self, mode: LinkMode) -> Seq<char> {
        match mode {
            LinkMode::Veth => self.host_link,
            LinkMode::Macvlan => self.new_link,
        }
    }

    /// The link that stays outside the namespace: of a pair of virtual links
    /// the new end, otherwise the host link itself.
    pub open spec fn outer_link(self, mode: LinkMode) -> Seq<char> {
        match mode {
            LinkMode::Veth => self.new_link,
            LinkMode::Macvlan => self.host_link,
        }
    }

    /// The address of the link inside the namespace. In either mode the host
    /// link has the uplink address and the new link the peer address.
    pub open spec fn inner_address(self, mode: LinkMode) -> Ipv4 {
        match mode {
            LinkMode::Veth => self.uplink_address,
            LinkMode::Macvlan => self.peer_address,
        }
    }

    /// The address of the link that stays outside the namespace.
    pub open spec fn outer_address(self, mode: LinkMode) -> Ipv4 {
        match mode {
            LinkMode::Veth => self.peer_address,
            LinkMode::Macvlan => self.uplink_address,
        }
    }
}

/// What is needed to perform an operation. Of a pair of virtual links the
/// host-named end goes into the namespace and the new end stays outside; a
/// link made on top of the host link goes into the namespace itself, and the
/// host link stays outside.
pub open spec fn action_of(step: Step, c: ContextView, mode: LinkMode) -> ActionView {
    match step {
        Step::AddNs => ActionView::AddNs { name: c.ns_name },
        Step::CreateVethPair => ActionView::CreateVethPair { link: c.new_link, peer: c.host_link },
        Step::CreateMacvlan => ActionView::CreateMacvlan { link: c.new_link, base: c.host_link },
        Step::SetVethToNs => ActionView::SetVethToNs { link: c.inner_link(mode), ns: c.ns_name },
        Step::AddAddress => ActionView::AddAddress {
            link: c.outer_link(mode),
            address: c.outer_address(mode),
            prefix: c.prefix,
        },
        Step::AddAddressWithNs => ActionView::AddAddressWithNs {
            link: c.inner_link(mode),
            address: c.inner_address(mode),
            prefix: c.prefix,
            ns: c.ns_name,
        },
        Step::SetLinkUp => ActionView::SetLinkUp { link: c.outer_link(mode) },
        Step::SetLinkUpWithNs => ActionView::SetLinkUpWithNs {
            loopback: "lo"@,
            link: c.inner_link(mode),
            ns: c.ns_name,
        },
        Step::AddRoute => ActionView::AddRoute { gateway: c.gateway, ns: c.ns_name },
    }
}

impl Progress {
    /// The operation to perform next, if the provisioning has not ended.
    pub open spec fn pending(self) -> Option<Step> {
        if self.failure is None && self.position < plan_of(self.options).len() {
            Some(plan_of(self.options)[self.position as int])
        } else {
            None
        }
    }

    /// The provisioning has performed or passed over all its operations.
    pub open spec fn finished(self) -> bool {
        self.failure is None && self.position >= plan_of(self.options).len()
    }

    /// Where the provisioning stands once `outcome` is reported of the
    /// pending operation.
    pub open spec fn after(self, outcome: Outcome) -> Progress {
        match self.pending() {
            None => self,
            Some(step) => match judge(step, outcome, self.options.strict) {
                Verdict::Proceed => Progress { position: self.position + 1, ..self },
                Verdict::Skipped => Progress {
                    position: self.position + 1,
                    skipped: self.skipped.push(step),
                    ..self
                },
                Verdict::Aborted(failure) => Progress { failure: Some(failure), ..self },
                Verdict::Idle => self,
            },
        }
    }

    /// Where the provisioning stands once the outcomes are reported, one
    /// after the other.
    pub open spec fn after_all(self, outcomes: Seq<Outcome>) -> Progress
        decreases outcomes.len(),
    {
        if outcomes.len() == 0 {
            self
        } else {
            self.after_all(outcomes.drop_last()).after(outcomes.last())
        }
    }

    /// A provisioning of which nothing has been reported yet.
    pub open spec fn start(context: ContextView, options: Options) -> Progress {
        Progress { context, options, position: 0, skipped: Seq::empty(), failure: None }
    }

    /// What is needed to perform the pending operation.
    pub open spec fn pending_action(self) -> Option<ActionView> {
        match self.pending() {
            Some(step) => Some(action_of(step, self.context, self.options.mode)),
            None => None,
        }
    }
}

/// The link that is moved into the namespace is the one that is given its
/// address and brought up inside, and the other link is the one that is given
/// its address and brought up outside. In either mode the new link gets the
/// peer address and the host link the uplink address, and a link made on top
/// of the host link never takes the host link into the namespace.
pub proof fn lemma_actions_agree_on_links(c: ContextView, mode: LinkMode)
    ensures
        action_of(Step::SetVethToNs, c, mode) == (ActionView::SetVethToNs {
            link: c.inner_link(mode),
            ns: c.ns_name,
        }),
        action_of(Step::AddAddressWithNs, c, mode) matches ActionView::AddAddressWithNs {
            link,
            address,
            ..
        } && link == c.inner_link(mode) && address == c.inner_address(mode),
        action_of(Step::SetLinkUpWithNs, c, mode) matches ActionView::SetLinkUpWithNs { link, .. }
            && link == c.inner_link(mode),
        action_of(Step::AddAddress, c, mode) matches ActionView::AddAddress { link, address, .. }
            && link == c.outer_link(mode) && address == c.outer_address(mode),
        action_of(Step::SetLinkUp, c, mode) matches ActionView::SetLinkUp { link } && link
            == c.outer_link(mode),
        mode == LinkMode::Macvlan ==> c.inner_link(mode) == c.new_link && c.inner_address(mode)
            == c.peer_address && c.outer_address(mode) == c.uplink_address,
        mode == LinkMode::Veth ==> c.inner_link(mode) == c.host_link && c.inner_address(mode)
            == c.uplink_address && c.outer_address(mode) == c.peer_address,
{
}

/// The operations are handed out in the order of the plan, none twice and
/// none out of turn: whatever is reported, the position never moves back, and
/// the pending operation is the one that the plan has at the position.
pub proof fn lemma_steps_follow_plan(before: Progress, outcome: Outcome)
    ensures
        before.position <= before.after(outcome).position <= before.position + 1,
        before.after(outcome).options == before.options,
        before.after(outcome).context == before.context,
        before.after(outcome).pending() matches Some(step) ==> step == plan_of(before.options)[before.after(
            outcome,
        ).position as int],
        before.failure is Some ==> before.after(outcome) == before,
        before.after(outcome).failure is Some && before.failure is None ==> before.after(
            outcome,
        ).position == before.position,
{
}

/// A provisioning that has failed hands out no further operation, whatever is
/// reported after the failure.
pub proof fn lemma_failure_is_final(before: Progress, outcomes: Seq<Outcome>)
    requires
        before.failure is Some,
    ensures
        before.after_all(outcomes) == before,
        before.after_all(outcomes).pending() is None,
    decreases outcomes.len(),
{
    if outcomes.len() > 0 {
        lemma_failure_is_final(before, outcomes.drop_last());
    }
}

/// The namespace is created first. If that fails, as it does where a
/// namespace of the name exists, the provisioning ends there with a
/// `NamespaceError`: no link or address operation is handed out, whatever is
/// reported afterwards.
pub proof fn lemma_namespace_failure_stops_all(
    context: ContextView,
    options: Options,
    first: Outcome,
    rest: Seq<Outcome>,
)
    requires
        first != Outcome::Done,
    ensures
        Progress::start(context, options).pending() == Some(Step::AddNs),
        Progress::start(context, options).after(first).failure == Some(
            Failure { kind: NetworkError::NamespaceError, step: Step::AddNs },
        ),
        Progress::start(context, options).after(first).after_all(rest).pending() is None,
        Progress::start(context, options).after(first).after_all(rest).position == 0,
{
    let failed = Progress::start(context, options).after(first);
    lemma_failure_is_final(failed, rest);
}

/// When every operation is reported done, the provisioning finishes after as
/// many reports as the plan has operations, with nothing passed over.
pub proof fn lemma_all_done_finishes(
    context: ContextView,
    options: Options,
    outcomes: Seq<Outcome>,
)
    requires
        outcomes.len() <= plan_of(options).len(),
        forall|i: int| 0 <= i < outcomes.len() ==> outcomes[i] == Outcome::Done,
    ensures
        Progress::start(context, options).after_all(outcomes).options == options,
        Progress::start(context, options).after_all(outcomes).position == outcomes.len(),
        Progress::start(context, options).after_all(outcomes).failure is None,
        Progress::start(context, options).after_all(outcomes).skipped.len() == 0,
        outcomes.len() == plan_of(options).len() ==> Progress::start(context, options).after_all(
            outcomes,
        ).finished(),
    decreases outcomes.len(),
{
    if outcomes.len() > 0 {
        lemma_all_done_finishes(context, options, outcomes.drop_last());
        let before = Progress::start(context, options).after_all(outcomes.drop_last());
        assert(before.pending() is Some);
        assert(outcomes.last() == Outcome::Done);
        assert(before.after(outcomes.last()).position == before.position + 1);
    }
}

impl Options {
    /// A pair of virtual links, missing links passed over, no default route.
    pub open spec fn standard() -> Options {
        Options { mode: LinkMode::Veth, strict: false, default_route: false }
    }
}

impl Default for Options {
    fn default() -> (options: Options)
        ensures
            options == Options::standard(),
    {
        Options { mode: LinkMode::Veth, strict: false, default_route: false }
    }
}

/// The operations of a provisioning, in order.
pub fn plan(options: &Options) -> (steps: Vec<Step>)
    ensures
        steps@ == plan_of(*options),
{
    let mut steps: Vec<Step> = Vec::new();
    steps.push(Step::AddNs);
    match options.mode {
        LinkMode::Veth => steps.push(Step::CreateVethPair),
        LinkMode::Macvlan => steps.push(Step::CreateMacvlan),
    }
    steps.push(Step::SetVethToNs);
    steps.push(Step::AddAddress);
    steps.push(Step::AddAddressWithNs);
    steps.push(Step::SetLinkUp);
    steps.push(Step::SetLinkUpWithNs);
    if options.default_route {
        steps.push(Step::AddRoute);
    }
    assert(steps@ =~= plan_of(*options));
    steps
}

/// Says what the end of a helper that worked inside the namespace means for
/// the operation it was sent to perform.
pub fn child_step_outcome(child: ChildOutcome) -> (outcome: Outcome)
    ensures
        outcome == outcome_of_child(child),
{
    match child {
        ChildOutcome::Done => Outcome::Done,
        ChildOutcome::LinkNotFound => Outcome::LinkNotFound,
        ChildOutcome::SetupFailed => Outcome::Failed,
        ChildOutcome::Crashed => Outcome::Failed,
    }
}

/// The exit code by which a helper reports how its work went: whether it
/// entered the namespace, and what it saw when it worked there. The one who
/// waits for a helper that entered reads from the code what the helper saw;
/// of a helper that did not enter it reads a failure.
pub fn child_exit_code(entered: bool, seen: Outcome) -> (code: i32)
    ensures
        code == exit_code_of(entered, seen),
        outcome_of_child(outcome_of(Some(code))) == if entered {
            seen
        } else {
            Outcome::Failed
        },
{
    if !entered {
        EXIT_SETUP_FAILED
    } else {
        match seen {
            Outcome::Done => EXIT_DONE,
            Outcome::LinkNotFound => EXIT_LINK_NOT_FOUND,
            Outcome::Failed => EXIT_SETUP_FAILED,
        }
    }
}

/// Says what two operations performed one after the other amount to as one.
pub fn both(first: Outcome, second: Outcome) -> (outcome: Outcome)
    ensures
        outcome == both_of(first, second),
{
    match (first, second) {
        (Outcome::Failed, _) => Outcome::Failed,
        (_, Outcome::Failed) => Outcome::Failed,
        (Outcome::LinkNotFound, _) => Outcome::LinkNotFound,
        (_, Outcome::LinkNotFound) => Outcome::LinkNotFound,
        (Outcome::Done, Outcome::Done) => Outcome::Done,
    }
}

/// The kind of failure that an operation ends in.
pub fn error_kind(step: Step) -> (kind: NetworkError)
    ensures
        kind == error_of(step),
{
    match step {
        Step::AddNs => NetworkError::NamespaceError,
        Step::CreateVethPair => NetworkError::LinkError,
        Step::CreateMacvlan => NetworkError::LinkError,
        Step::SetVethToNs => NetworkError::LinkError,
        Step::AddAddress => NetworkError::AddressError,
        Step::AddAddressWithNs => NetworkError::AddressError,
        Step::SetLinkUp => NetworkError::LinkError,
        Step::SetLinkUpWithNs => NetworkError::LinkError,
        Step::AddRoute => NetworkError::RouteError,
    }
}

/// What an outcome means for the operation it is reported of.
pub fn verdict(step: Step, outcome: Outcome, strict: bool) -> (v: Verdict)
    ensures
        v == judge(step, outcome, strict),
{
    let looks_up: bool = match step {
        Step::AddNs => false,
        Step::CreateVethPair => false,
        Step::AddRoute => false,
        _ => true,
    };
    match outcome {
        Outcome::Done => Verdict::Proceed,
        Outcome::LinkNotFound => {
            if looks_up && !strict {
                Verdict::Skipped
            } else if looks_up {
                Verdict::Aborted(Failure { kind: NetworkError::LinkError, step })
            } else {
                Verdict::Aborted(Failure { kind: error_kind(step), step })
            }
        },
        Outcome::Failed => Verdict::Aborted(Failure { kind: error_kind(step), step }),
    }
}

impl NamespaceContext {
    /// Names and addresses for the namespace of one interface. The prefix
    /// length is that of the route's mask, and the peer address is the first
    /// address after the network address of the uplink's block.
    pub fn new(
        link_name_new: &str,
        link_name_host: &str,
        ns_name: &str,
        ip: Ipv4,
        route_info: &RouteInfo,
    ) -> (context: NamespaceContext)
        ensures
            context@ == (ContextView {
                ns_name: ns_name@,
                host_link: link_name_host@,
                new_link: link_name_new@,
                uplink_address: ip,
                peer_address: context.peer_address,
                prefix: prefix_len(route_info.mask) as u8,
                gateway: route_info.gateway,
            }),
            context.prefix == prefix_len(route_info.mask),
            context.peer_address.bits() == peer_address(ip.bits(), prefix_len(route_info.mask)),
            (context.peer_address == ip) == (ip.bits() % pow2(
                (32 - prefix_len(route_info.mask)) as nat,
            ) == 1),
    {
        let prefix: u8 = mask_to_prefix(route_info.mask);
        let peer_ip = derive_peer_address(ip, prefix);
        NamespaceContext {
            ns_name: ns_name.to_owned(),
            host_link: link_name_host.to_owned(),
            new_link: link_name_new.to_owned(),
            uplink_address: ip,
            peer_address: peer_ip,
            prefix,
            gateway: route_info.gateway,
        }
    }

    /// Tells whether the two links would carry one address: the peer address
    /// comes out as the uplink address where that is itself the first address
    /// of its block.
    pub fn addresses_coincide(&self) -> (same: bool)
        ensures
            same == (self.peer_address == self.uplink_address),
    {
        self.peer_address == self.uplink_address
    }

    /// What is needed to perform `step` in the given mode.
    pub fn action(&self, step: Step, mode: LinkMode) -> (action: Action)
        ensures
            action@ == action_of(step, self@, mode),
    {
        let inner_link = match mode {
            LinkMode::Veth => self.host_link.clone(),
            LinkMode::Macvlan => self.new_link.clone(),
        };
        let outer_link = match mode {
            LinkMode::Veth => self.new_link.clone(),
            LinkMode::Macvlan => self.host_link.clone(),
        };
        let inner_address = match mode {
            LinkMode::Veth => self.uplink_address,
            LinkMode::Macvlan => self.peer_address,
        };
        let outer_address = match mode {
            LinkMode::Veth => self.peer_address,
            LinkMode::Macvlan => self.uplink_address,
        };
        match step {
            Step::AddNs => Action::AddNs { name: self.ns_name.clone() },
            Step::CreateVethPair => Action::CreateVethPair {
                link: self.new_link.clone(),
                peer: self.host_link.clone(),
            },
            Step::CreateMacvlan => Action::CreateMacvlan {
                link: self.new_link.clone(),
                base: self.host_link.clone(),
            },
            Step::SetVethToNs => Action::SetVethToNs { link: inner_link, ns: self.ns_name.clone() },
            Step::AddAddress => Action::AddAddress {
                link: outer_link,
                address: outer_address,
                prefix: self.prefix,
            },
            Step::AddAddressWithNs => Action::AddAddressWithNs {
                link: inner_link,
                address: inner_address,
                prefix: self.prefix,
                ns: self.ns_name.clone(),
            },
            Step::SetLinkUp => Action::SetLinkUp { link: outer_link },
            Step::SetLinkUpWithNs => Action::SetLinkUpWithNs {
                loopback: "lo".to_owned(),
                link: inner_link,
                ns: self.ns_name.clone(),
            },
            Step::AddRoute => Action::AddRoute { gateway: self.gateway, ns: self.ns_name.clone() },
        }
    }
}

impl Provisioner {
    /// A provisioning of which nothing has been performed yet.
    pub fn new(context: NamespaceContext, options: Options) -> (p: Provisioner)
        ensures
            p@ == Progress::start(context@, options),
    {
        Provisioner { context, options, position: 0, skipped: Vec::new(), failure: None }
    }

    /// The operation to perform next. `None` says that the provisioning has
    /// ended: see `result`.
    pub fn next_step(&self) -> (step: Option<Step>)
        ensures
            step == self@.pending(),
    {
        if self.failure.is_some() {
            return None;
        }
        let steps = plan(&self.options);
        if self.position < steps.len() {
            Some(steps[self.position])
        } else {
            None
        }
    }

    /// The operation to perform next, with all that is needed to perform it.
    pub fn next_action(&self) -> (action: Option<Action>)
        ensures
            match action {
                Some(a) => self@.pending_action() == Some(a@),
                None => self@.pending_action() is None,
            },
    {
        match self.next_step() {
            Some(step) => Some(self.context.action(step, self.options.mode)),
            None => None,
        }
    }

    /// Takes the outcome of the pending operation and says what it means.
    pub fn report(&mut self, outcome: Outcome) -> (v: Verdict)
        ensures
            final(self)@ == old(self)@.after(outcome),
            final(self).context == old(self).context,
            v == match old(self)@.pending() {
                Some(step) => judge(step, outcome, old(self).options.strict),
                None => Verdict::Idle,
            },
    {
        match self.next_step() {
            None => Verdict::Idle,
            Some(step) => {
                let v = verdict(step, outcome, self.options.strict);
                match v {
                    Verdict::Proceed => {
                        self.position = self.position + 1;
                    },
                    Verdict::Skipped => {
                        self.position = self.position + 1;
                        self.skipped.push(step);
                    },
                    Verdict::Aborted(failure) => {
                        self.failure = Some(failure);
                    },
                    Verdict::Idle => {},
                }
                v
            },
        }
    }

    /// How the provisioning ended: `None` while an operation is pending.
    /// `Ok` does not say that the namespace is fully wired: operations may
    /// have been passed over, and `skipped` tells which.
    pub fn result(&self) -> (r: Option<Result<(), Failure>>)
        ensures
            r == match self@.failure {
                Some(failure) => Some(Err::<(), Failure>(failure)),
                None => if self@.finished() {
                    Some(Ok::<(), Failure>(()))
                } else {
                    None
                },
            },
    {
        match self.failure {
            Some(failure) => Some(Err(failure)),
            None => {
                let steps = plan(&self.options);
                if self.position >= steps.len() {
                    Some(Ok(()))
                } else {
                    None
                }
            },
        }
    }
}

} // verus!
