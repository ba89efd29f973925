use middle_sock::network::{
    both, child_exit_code, child_step_outcome, error_kind, plan, verdict, Action, Failure,
    LinkMode, NamespaceContext, NetworkError, Options, Outcome, Provisioner, Step, Verdict,
};
use middle_sock::process::{child_outcome, ChildOutcome};
use middle_sock::route::RouteInfo;
use middle_sock::setup_ns;
use middle_sock::subnet::Ipv4;

fn info() -> RouteInfo {
    RouteInfo {
        destination: Ipv4::new(10, 10, 0, 0),
        gateway: Ipv4::new(10, 10, 0, 254),
        mask: Ipv4::new(255, 255, 255, 0),
    }
}

fn started() -> Provisioner {
    setup_ns("veth0", "eth0", "dhcp", Ipv4::new(10, 10, 0, 77), &info())
}

fn with(options: Options) -> Provisioner {
    let context = NamespaceContext::new("veth0", "eth0", "dhcp", Ipv4::new(10, 10, 0, 77), &info());
    Provisioner::new(context, options)
}

#[test]
fn setup_derives_prefix_and_peer() {
    let p = started();
    assert_eq!(p.context.prefix, 24);
    assert_eq!(p.context.peer_address, Ipv4::new(10, 10, 0, 1));
    assert_eq!(p.context.uplink_address, Ipv4::new(10, 10, 0, 77));
    assert_eq!(p.context.gateway, Ipv4::new(10, 10, 0, 254));
    assert_eq!(p.context.ns_name, "dhcp");
    assert_eq!(p.context.new_link, "veth0");
    assert_eq!(p.context.host_link, "eth0");
    assert_eq!(p.options, Options::default());
    assert_eq!(p.options, Options { mode: LinkMode::Veth, strict: false, default_route: false });
    assert_eq!(p.position, 0);
    assert_eq!(p.result(), None);
}

#[test]
fn plan_is_in_the_required_order() {
    assert_eq!(
        plan(&Options::default()),
        vec![
            Step::AddNs,
            Step::CreateVethPair,
            Step::SetVethToNs,
            Step::AddAddress,
            Step::AddAddressWithNs,
            Step::SetLinkUp,
            Step::SetLinkUpWithNs,
        ]
    );
    let other = plan(&Options { mode: LinkMode::Macvlan, strict: true, default_route: true });
    assert_eq!(other[1], Step::CreateMacvlan);
    assert_eq!(other.len(), 8);
    assert_eq!(other[7], Step::AddRoute);
}

#[test]
fn all_done_runs_through_the_plan() {
    let mut p = started();
    let mut seen = Vec::new();
    while let Some(step) = p.next_step() {
        seen.push(step);
        assert_eq!(p.report(Outcome::Done), Verdict::Proceed);
    }
    assert_eq!(seen, plan(&Options::default()));
    assert_eq!(p.result(), Some(Ok(())));
    assert!(p.skipped.is_empty());
    assert_eq!(p.report(Outcome::Done), Verdict::Idle);
    assert_eq!(p.position, 7);
}

#[test]
fn existing_namespace_fails_with_namespace_error_and_touches_no_link() {
    let mut first = started();
    assert_eq!(first.next_step(), Some(Step::AddNs));
    assert_eq!(first.report(Outcome::Done), Verdict::Proceed);
    let mut second = started();
    let failure = Failure { kind: NetworkError::NamespaceError, step: Step::AddNs };
    assert_eq!(second.report(Outcome::Failed), Verdict::Aborted(failure));
    assert_eq!(second.next_step(), None);
    assert!(second.next_action().is_none());
    assert_eq!(second.result(), Some(Err(failure)));
    assert_eq!(second.report(Outcome::Done), Verdict::Idle);
    assert_eq!(second.position, 0);
    assert_eq!(first.next_step(), Some(Step::CreateVethPair));
}

#[test]
fn missing_link_is_passed_over_when_lenient() {
    let mut p = started();
    p.report(Outcome::Done);
    p.report(Outcome::Done);
    assert_eq!(p.next_step(), Some(Step::SetVethToNs));
    assert_eq!(p.report(Outcome::LinkNotFound), Verdict::Skipped);
    assert_eq!(p.next_step(), Some(Step::AddAddress));
    assert_eq!(p.report(Outcome::LinkNotFound), Verdict::Skipped);
    while p.next_step().is_some() {
        p.report(Outcome::Done);
    }
    assert_eq!(p.result(), Some(Ok(())));
    assert_eq!(p.skipped, vec![Step::SetVethToNs, Step::AddAddress]);
}

#[test]
fn missing_link_fails_when_strict() {
    let mut p = with(Options { mode: LinkMode::Veth, strict: true, default_route: false });
    p.report(Outcome::Done);
    p.report(Outcome::Done);
    p.report(Outcome::Done);
    let failure = Failure { kind: NetworkError::LinkError, step: Step::AddAddress };
    assert_eq!(p.report(Outcome::LinkNotFound), Verdict::Aborted(failure));
    assert_eq!(p.result(), Some(Err(failure)));
    assert_eq!(p.next_step(), None);
}

#[test]
fn verdicts_per_step() {
    let link = |step| Verdict::Aborted(Failure { kind: NetworkError::LinkError, step });
    assert_eq!(verdict(Step::CreateVethPair, Outcome::LinkNotFound, false), link(Step::CreateVethPair));
    assert_eq!(verdict(Step::CreateMacvlan, Outcome::LinkNotFound, false), Verdict::Skipped);
    assert_eq!(verdict(Step::CreateMacvlan, Outcome::LinkNotFound, true), link(Step::CreateMacvlan));
    assert_eq!(verdict(Step::CreateMacvlan, Outcome::Failed, false), link(Step::CreateMacvlan));
    assert_eq!(
        verdict(Step::AddNs, Outcome::LinkNotFound, false),
        Verdict::Aborted(Failure { kind: NetworkError::NamespaceError, step: Step::AddNs })
    );
    assert_eq!(
        verdict(Step::AddAddressWithNs, Outcome::Failed, false),
        Verdict::Aborted(Failure { kind: NetworkError::AddressError, step: Step::AddAddressWithNs })
    );
    assert_eq!(
        verdict(Step::AddRoute, Outcome::LinkNotFound, false),
        Verdict::Aborted(Failure { kind: NetworkError::RouteError, step: Step::AddRoute })
    );
    assert_eq!(verdict(Step::SetLinkUpWithNs, Outcome::LinkNotFound, false), Verdict::Skipped);
    assert_eq!(verdict(Step::SetLinkUp, Outcome::Done, true), Verdict::Proceed);
}

#[test]
fn error_kinds() {
    assert_eq!(error_kind(Step::AddNs), NetworkError::NamespaceError);
    assert_eq!(error_kind(Step::CreateVethPair), NetworkError::LinkError);
    assert_eq!(error_kind(Step::CreateMacvlan), NetworkError::LinkError);
    assert_eq!(error_kind(Step::SetVethToNs), NetworkError::LinkError);
    assert_eq!(error_kind(Step::AddAddress), NetworkError::AddressError);
    assert_eq!(error_kind(Step::AddAddressWithNs), NetworkError::AddressError);
    assert_eq!(error_kind(Step::SetLinkUp), NetworkError::LinkError);
    assert_eq!(error_kind(Step::SetLinkUpWithNs), NetworkError::LinkError);
    assert_eq!(error_kind(Step::AddRoute), NetworkError::RouteError);
}

fn line(action: Action) -> String {
    match action {
        Action::AddNs { name } => format!("ns {}", name),
        Action::CreateVethPair { link, peer } => format!("veth {} {}", link, peer),
        Action::CreateMacvlan { link, base } => format!("macvlan {} {}", link, base),
        Action::SetVethToNs { link, ns } => format!("move {} {}", link, ns),
        Action::AddAddress { link, address, prefix } => {
            format!("addr {} {:?}/{}", link, address.octets(), prefix)
        }
        Action::AddAddressWithNs { link, address, prefix, ns } => {
            format!("addr-in {} {} {:?}/{}", ns, link, address.octets(), prefix)
        }
        Action::SetLinkUp { link } => format!("up {}", link),
        Action::SetLinkUpWithNs { loopback, link, ns } => format!("up-in {} {} {}", ns, loopback, link),
        Action::AddRoute { gateway, ns } => format!("route {} {:?}", ns, gateway.octets()),
    }
}

fn lines(options: Options) -> Vec<String> {
    let mut p = with(options);
    let mut lines = Vec::new();
    while let Some(action) = p.next_action() {
        lines.push(line(action));
        p.report(Outcome::Done);
    }
    lines
}

#[test]
fn actions_carry_the_right_names_and_addresses() {
    assert_eq!(
        lines(Options { mode: LinkMode::Veth, strict: false, default_route: true }),
        vec![
            "ns dhcp",
            "veth veth0 eth0",
            "move eth0 dhcp",
            "addr veth0 [10, 10, 0, 1]/24",
            "addr-in dhcp eth0 [10, 10, 0, 77]/24",
            "up veth0",
            "up-in dhcp lo eth0",
            "route dhcp [10, 10, 0, 254]",
        ]
    );
}

#[test]
fn macvlan_moves_the_new_link_and_leaves_the_base_link_outside() {
    assert_eq!(
        lines(Options { mode: LinkMode::Macvlan, strict: false, default_route: false }),
        vec![
            "ns dhcp",
            "macvlan veth0 eth0",
            "move veth0 dhcp",
            "addr eth0 [10, 10, 0, 77]/24",
            "addr-in dhcp veth0 [10, 10, 0, 1]/24",
            "up eth0",
            "up-in dhcp lo veth0",
        ]
    );
}

#[test]
fn macvlan_action_names_the_base_link() {
    let p = with(Options { mode: LinkMode::Macvlan, strict: false, default_route: false });
    match p.context.action(Step::CreateMacvlan, LinkMode::Macvlan) {
        Action::CreateMacvlan { link, base } => {
            assert_eq!(link, "veth0");
            assert_eq!(base, "eth0");
        }
        _ => panic!("another action"),
    }
    assert_eq!(line(p.context.action(Step::SetVethToNs, LinkMode::Macvlan)), "move veth0 dhcp");
    assert_eq!(line(p.context.action(Step::SetVethToNs, LinkMode::Veth)), "move eth0 dhcp");
}

#[test]
fn helper_end_decides_the_step() {
    assert_eq!(child_step_outcome(ChildOutcome::Done), Outcome::Done);
    assert_eq!(child_step_outcome(ChildOutcome::LinkNotFound), Outcome::LinkNotFound);
    assert_eq!(child_step_outcome(ChildOutcome::SetupFailed), Outcome::Failed);
    assert_eq!(child_step_outcome(ChildOutcome::Crashed), Outcome::Failed);
}

#[test]
fn helper_reports_what_it_saw_by_its_exit_code() {
    assert_eq!(child_exit_code(true, Outcome::Done), 0);
    assert_eq!(child_exit_code(true, Outcome::Failed), 1);
    assert_eq!(child_exit_code(true, Outcome::LinkNotFound), 2);
    for seen in [Outcome::Done, Outcome::LinkNotFound, Outcome::Failed] {
        assert_eq!(child_exit_code(false, seen), 1);
        let code = child_exit_code(true, seen);
        assert_eq!(child_step_outcome(child_outcome(Some(code))), seen);
        let code = child_exit_code(false, seen);
        assert_eq!(child_step_outcome(child_outcome(Some(code))), Outcome::Failed);
    }
    assert_eq!(child_step_outcome(child_outcome(None)), Outcome::Failed);
    assert_eq!(child_step_outcome(child_outcome(Some(134))), Outcome::Failed);
}

#[test]
fn link_missing_inside_the_namespace_is_judged_like_one_missing_outside() {
    let seen = child_step_outcome(child_outcome(Some(child_exit_code(true, Outcome::LinkNotFound))));
    let mut strict = with(Options { mode: LinkMode::Veth, strict: true, default_route: false });
    for _ in 0..4 {
        assert_eq!(strict.report(Outcome::Done), Verdict::Proceed);
    }
    assert_eq!(strict.next_step(), Some(Step::AddAddressWithNs));
    let failure = Failure { kind: NetworkError::LinkError, step: Step::AddAddressWithNs };
    assert_eq!(strict.report(seen), Verdict::Aborted(failure));
    assert_eq!(strict.result(), Some(Err(failure)));

    let mut lenient = started();
    for _ in 0..4 {
        assert_eq!(lenient.report(Outcome::Done), Verdict::Proceed);
    }
    assert_eq!(lenient.report(seen), Verdict::Skipped);
    assert_eq!(lenient.skipped, vec![Step::AddAddressWithNs]);
    assert_eq!(lenient.next_step(), Some(Step::SetLinkUp));
}

#[test]
fn two_operations_in_one_helper_count_as_the_worse() {
    assert_eq!(both(Outcome::Done, Outcome::Done), Outcome::Done);
    assert_eq!(both(Outcome::Done, Outcome::LinkNotFound), Outcome::LinkNotFound);
    assert_eq!(both(Outcome::LinkNotFound, Outcome::Done), Outcome::LinkNotFound);
    assert_eq!(both(Outcome::LinkNotFound, Outcome::LinkNotFound), Outcome::LinkNotFound);
    assert_eq!(both(Outcome::Failed, Outcome::Done), Outcome::Failed);
    assert_eq!(both(Outcome::Done, Outcome::Failed), Outcome::Failed);
    assert_eq!(both(Outcome::LinkNotFound, Outcome::Failed), Outcome::Failed);
    assert_eq!(both(Outcome::Failed, Outcome::LinkNotFound), Outcome::Failed);
}

#[test]
fn uplink_at_the_first_address_of_its_block_takes_the_peer_address() {
    let first = NamespaceContext::new("veth0", "eth0", "dhcp", Ipv4::new(10, 10, 0, 1), &info());
    assert_eq!(first.peer_address, Ipv4::new(10, 10, 0, 1));
    assert!(first.addresses_coincide());
    let other = NamespaceContext::new("veth0", "eth0", "dhcp", Ipv4::new(10, 10, 0, 2), &info());
    assert_eq!(other.peer_address, Ipv4::new(10, 10, 0, 1));
    assert!(!other.addresses_coincide());
    assert!(!started().context.addresses_coincide());
}
