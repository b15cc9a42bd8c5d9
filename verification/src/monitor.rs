//! Monitor services and their registry.
//!
//! A monitor service is described by a persisted descriptor: the output
//! channel it is bound to and the variant of monitor it runs.  The registry
//! holds the descriptors of all running services and keeps one service per
//! channel; removal swaps with the last entry, so only set membership is
//! stable, never order.

use vstd::prelude::*;

verus! {

/// The monitor variant a start request selects.
pub enum MonitorParameter {
    Status,
}

/// The variant of a monitor, with everything a restart needs.
pub enum MonitorType {
    /// Periodically queries a game server's public status and edits the
    /// anchor message `mid` with the result.
    Status { name: String, host: String, port: u16, mid: u64 },
    /// Reserved; not yet supported.
    Advancement { port: u16 },
    /// Reserved; not yet supported.
    Death { port: u16 },
}

/// Mathematical value of a `MonitorType`.
pub enum MonitorTypeView {
    Status { name: Seq<char>, host: Seq<char>, port: u16, mid: u64 },
    Advancement { port: u16 },
    Death { port: u16 },
}

impl View for MonitorType {
    type V = MonitorTypeView;

    open spec fn view(&self) -> MonitorTypeView {
        match *self {
            MonitorType::Status { ref name, ref host, port, mid } => MonitorTypeView::Status {
                name: name@,
                host: host@,
                port,
                mid,
            },
            MonitorType::Advancement { port } => MonitorTypeView::Advancement { port },
            MonitorType::Death { port } => MonitorTypeView::Death { port },
        }
    }
}

impl DeepView for MonitorType {
    type V = MonitorTypeView;

    open spec fn deep_view(&self) -> MonitorTypeView {
        self@
    }
}

/// The persisted description of one monitor service.
pub struct MonitorDescriptor {
    pub channel_id: u64,
    pub monitor_type: MonitorType,
}

/// Mathematical value of a `MonitorDescriptor`.
pub struct DescriptorView {
    pub channel_id: u64,
    pub monitor_type: MonitorTypeView,
}

impl View for MonitorDescriptor {
    type V = DescriptorView;

    open spec fn view(&self) -> DescriptorView {
        DescriptorView { channel_id: self.channel_id, monitor_type: self.monitor_type@ }
    }
}

impl DeepView for MonitorDescriptor {
    type V = DescriptorView;

    open spec fn deep_view(&self) -> DescriptorView {
        self@
    }
}

/// Errors of the registry; both are local rejections of one request, never
/// fatal to the process.
#[derive(Clone, Copy, Debug, PartialEq, Eq, Structural)]
pub enum RegistryError {
    /// The channel already holds a service.
    AlreadyExists,
    /// The channel holds no service.
    NotFound,
}

/// Whether some descriptor in `s` is bound to channel `ch`.
pub open spec fn has_channel(s: Seq<DescriptorView>, ch: u64) -> bool {
    exists|i: int| 0 <= i < s.len() && s[i].channel_id == ch
}

/// No two descriptors share a channel.
pub open spec fn registry_wf(s: Seq<DescriptorView>) -> bool {
    forall|i: int, j: int|
        0 <= i < j < s.len() ==> s[i].channel_id != s[j].channel_id
}

/// Removal by swapping with the last entry: the registry is a set keyed by
/// channel, so the order of the remaining entries does not matter.
pub open spec fn spec_swap_remove_at(s: Seq<DescriptorView>, i: int) -> Seq<DescriptorView> {
    s.update(i, s.last()).drop_last()
}

/// The set of active monitor services, keyed by output channel.
pub struct ServiceRegistry {
    entries: Vec<MonitorDescriptor>,
}

impl View for ServiceRegistry {
    type V = Seq<DescriptorView>;

    closed spec fn view(&self) -> Seq<DescriptorView> {
        self.entries.deep_view()
    }
}

impl ServiceRegistry {
    /// One service per channel.
    pub open spec fn wf(self) -> bool {
        registry_wf(self@)
    }

    /// An empty registry.
    pub fn new() -> (r: Self)
        ensures
            r@ == Seq::<DescriptorView>::empty(),
            r.wf(),
    {
        let r = ServiceRegistry { entries: Vec::new() };
        proof {
            assert(r@ =~= Seq::<DescriptorView>::empty());
        }
        r
    }

    /// The descriptors, in registry order.
    pub fn entries(&self) -> (r: &Vec<MonitorDescriptor>)
        ensures
            r.deep_view() == self@,
    {
        &self.entries
    }

    /// How many services are registered.
    pub fn len(&self) -> (n: usize)
        ensures
            n == self@.len(),
    {
        self.entries.len()
    }

    /// Index of the service bound to `ch`, if any.
    fn find_channel(&self, ch: u64) -> (r: Option<usize>)
        ensures
            r matches Some(i) ==> 0 <= i < self@.len() && self@[i as int].channel_id == ch,
            r is None <==> !has_channel(self@, ch),
    {
        let n = self.entries.len();
        let mut i: usize = 0;
        while i < n
            invariant
                0 <= i <= n == self@.len(),
                forall|j: int| 0 <= j < i ==> self@[j].channel_id != ch,
            decreases n - i,
        {
            if self.entries[i].channel_id == ch {
                return Some(i);
            }
            i = i + 1;
        }
        None
    }

    /// Whether channel `ch` already holds a service.
    pub fn contains_channel(&self, ch: u64) -> (b: bool)
        ensures
            b == has_channel(self@, ch),
    {
        self.find_channel(ch).is_some()
    }

    /// Registers a new service: rejected with `AlreadyExists` when the
    /// descriptor's channel already holds one, otherwise appended.  The
    /// existence check and the insertion are one atomic step on the
    /// registry value.
    pub fn start(&mut self, descriptor: MonitorDescriptor) -> (r: Result<(), RegistryError>)
        requires
            old(self).wf(),
        ensures
            final(self).wf(),
            has_channel(old(self)@, descriptor.channel_id) ==> r == Err::<(), RegistryError>(
                RegistryError::AlreadyExists,
            ) && *final(self) == *old(self),
            !has_channel(old(self)@, descriptor.channel_id) ==> r == Ok::<(), RegistryError>(())
                && final(self)@ == old(self)@.push(descriptor@),
    {
        if self.contains_channel(descriptor.channel_id) {
            Err(RegistryError::AlreadyExists)
        } else {
            let ghost pre = self@;
            self.entries.push(descriptor);
            proof {
                assert(self@ =~= pre.push(descriptor@));
            }
            Ok(())
        }
    }

    /// Deregisters the service bound to `ch`: rejected with `NotFound` when
    /// the channel holds none, otherwise removed by swapping with the last
    /// entry.  After a successful stop the channel is free again.
    pub fn stop(&mut self, ch: u64) -> (r: Result<(), RegistryError>)
        requires
            old(self).wf(),
        ensures
            final(self).wf(),
            !has_channel(old(self)@, ch) ==> r == Err::<(), RegistryError>(RegistryError::NotFound)
                && *final(self) == *old(self),
            has_channel(old(self)@, ch) ==> {
                &&& r == Ok::<(), RegistryError>(())
                &&& exists|i: int|
                    0 <= i < old(self)@.len() && old(self)@[i].channel_id == ch && final(self)@
                        == spec_swap_remove_at(old(self)@, i)
                &&& !has_channel(final(self)@, ch)
                &&& final(self)@.len() == old(self)@.len() - 1
            },
    {
        match self.find_channel(ch) {
            None => Err(RegistryError::NotFound),
            Some(i) => {
                let ghost pre = self@;
                let _ = self.entries.swap_remove(i);
                proof {
                    assert(self@ =~= spec_swap_remove_at(pre, i as int));
                    lemma_swap_remove_frees_channel(pre, i as int);
                }
                Ok(())
            },
        }
    }
}

/// Removing the only descriptor of a channel from a well-formed registry
/// frees that channel and keeps the registry well-formed.
proof fn lemma_swap_remove_frees_channel(s: Seq<DescriptorView>, i: int)
    requires
        registry_wf(s),
        0 <= i < s.len(),
    ensures
        registry_wf(spec_swap_remove_at(s, i)),
        !has_channel(spec_swap_remove_at(s, i), s[i].channel_id),
        spec_swap_remove_at(s, i).len() == s.len() - 1,
        forall|j: int|
            0 <= j < s.len() && s[j].channel_id != s[i].channel_id ==> spec_swap_remove_at(
                s,
                i,
            ).contains(s[j]),
        forall|j: int|
            0 <= j < spec_swap_remove_at(s, i).len() ==> s.contains(spec_swap_remove_at(s, i)[j]),
{
    let t = spec_swap_remove_at(s, i);
    assert forall|j: int| 0 <= j < s.len() && s[j].channel_id != s[i].channel_id implies t.contains(
        s[j],
    ) by {
        if j < s.len() - 1 {
            if j == i {
            } else {
                assert(t[j] == s[j]);
            }
        } else {
            if i < s.len() - 1 {
                assert(t[i] == s[j]);
            }
        }
    }
    assert forall|j: int| 0 <= j < t.len() implies s.contains(t[j]) by {
        if j == i {
            assert(t[j] == s[s.len() - 1]);
        } else {
            assert(t[j] == s[j]);
        }
    }
}

/// How one service loop ended, as reported to the supervisor.
#[derive(Clone, Copy, Debug, PartialEq, Eq, Structural)]
pub enum ServiceExit {
    /// The cancellation signal fired; normal shutdown.
    Cancelled,
    /// The loop finished on its own with nothing to do (the reserved
    /// variants complete immediately).
    Completed,
    /// The loop hit an unrecoverable condition (a malformed status
    /// response, a publish failure) and asks to be removed.
    SelfRemove,
}

/// The monitor variant that a start request with `parameter` creates,
/// bound to the given display name, target and anchor message.
pub fn select_monitor_type(
    parameter: MonitorParameter,
    name: String,
    host: String,
    port: u16,
    mid: u64,
) -> (t: MonitorType)
    ensures
        t@ == (MonitorTypeView::Status { name: name@, host: host@, port, mid }),
{
    match parameter {
        MonitorParameter::Status => MonitorType::Status { name, host, port, mid },
    }
}

/// Whether an exit asks for removal from the registry.
pub open spec fn spec_should_remove(exit: ServiceExit) -> bool {
    exit is SelfRemove
}

/// Supervisor bookkeeping after a service loop ends: a loop that asks for
/// self-removal leaves the registry by the swap-with-last removal, which
/// keeps every other service; any other exit changes nothing.
pub fn handle_service_exit(registry: &mut ServiceRegistry, ch: u64, exit: ServiceExit) -> (removed:
    bool)
    requires
        old(registry).wf(),
    ensures
        final(registry).wf(),
        !spec_should_remove(exit) ==> *final(registry) == *old(registry) && !removed,
        spec_should_remove(exit) && has_channel(old(registry)@, ch) ==> removed && !has_channel(
            final(registry)@,
            ch,
        ) && exists|i: int|
            0 <= i < old(registry)@.len() && old(registry)@[i].channel_id == ch && final(registry)@
                == spec_swap_remove_at(old(registry)@, i),
        spec_should_remove(exit) && !has_channel(old(registry)@, ch) ==> *final(registry) == *old(
            registry,
        ) && !removed,
{
    match exit {
        ServiceExit::SelfRemove => {
            match registry.stop(ch) {
                Ok(()) => true,
                Err(_) => false,
            }
        },
        _ => false,
    }
}

/// What one monitor-service cycle observed at a decision point.
#[derive(Clone, Copy, Debug, PartialEq, Eq, Structural)]
pub enum CycleEvent {
    /// The transport failed after the connection was established.
    TransportFailed,
    /// The status payload was not a well-formed response.
    Malformed,
    /// Editing the anchor message failed.
    PublishFailed,
    /// The cancellation signal fired at the wait point.
    Cancelled,
    /// The poll interval elapsed with nothing else to report.
    IntervalElapsed,
}

/// What the loop does next after an event.
#[derive(Clone, Copy, Debug, PartialEq, Eq, Structural)]
pub enum CycleStep {
    /// Run the next poll cycle.
    Continue,
    /// Leave the loop, reporting this exit to the supervisor.
    Exit(ServiceExit),
}

/// The loop decision after one event: unrecoverable conditions end the
/// loop asking for self-removal, cancellation ends it cleanly, and an
/// elapsed interval starts the next cycle.
pub fn service_step(event: CycleEvent) -> (r: CycleStep)
    ensures
        event == CycleEvent::TransportFailed ==> r == CycleStep::Exit(ServiceExit::SelfRemove),
        event == CycleEvent::Malformed ==> r == CycleStep::Exit(ServiceExit::SelfRemove),
        event == CycleEvent::PublishFailed ==> r == CycleStep::Exit(ServiceExit::SelfRemove),
        event == CycleEvent::Cancelled ==> r == CycleStep::Exit(ServiceExit::Cancelled),
        event == CycleEvent::IntervalElapsed ==> r == CycleStep::Continue,
{
    match event {
        CycleEvent::TransportFailed => CycleStep::Exit(ServiceExit::SelfRemove),
        CycleEvent::Malformed => CycleStep::Exit(ServiceExit::SelfRemove),
        CycleEvent::PublishFailed => CycleStep::Exit(ServiceExit::SelfRemove),
        CycleEvent::Cancelled => CycleStep::Exit(ServiceExit::Cancelled),
        CycleEvent::IntervalElapsed => CycleStep::Continue,
    }
}

/// Law: a channel that holds a service rejects a second start; stopping
/// the service frees the channel, and a new start on it then keeps the
/// one-service-per-channel invariant.
pub proof fn lemma_registry_exclusivity(s: Seq<DescriptorView>, i: int, d: DescriptorView)
    requires
        registry_wf(s),
        0 <= i < s.len(),
        s[i].channel_id == d.channel_id,
    ensures
        has_channel(s, d.channel_id),
        !has_channel(spec_swap_remove_at(s, i), d.channel_id),
        registry_wf(spec_swap_remove_at(s, i)),
        registry_wf(spec_swap_remove_at(s, i).push(d)),
{
    lemma_swap_remove_frees_channel(s, i);
    let t = spec_swap_remove_at(s, i);
    let u = t.push(d);
    assert forall|a: int, b: int| 0 <= a < b < u.len() implies u[a].channel_id != u[b].channel_id
        by {
        if b == u.len() - 1 {
            assert(!has_channel(t, d.channel_id));
            assert(u[a] == t[a]);
        }
    }
}

} // verus!
