use vstd::prelude::*;

use crate::registry::{
    clear_addresses_spec, clear_spec, register_spec, remove_address_spec, set_address_spec,
    unregister_spec, DevboxRegistry, RegistryView,
};

verus! {

/// Seconds to wait before a new session after a failed or ended one.
pub const RESTART_DELAY_SECS: u64 = 5;

/// A workload-definition object as a watch event carries it.
#[derive(Debug, Clone)]
pub struct DevboxObject {
    pub unique_id: Option<String>,
    pub namespace: Option<String>,
    pub name: Option<String>,
}

/// A runtime-instance object as a watch event carries it: the workload it
/// runs, by namespace and name, and its address once it has one.
#[derive(Debug, Clone)]
pub struct PodObject {
    pub namespace: Option<String>,
    pub devbox_name: Option<String>,
    pub pod_ip: Option<String>,
}

/// One event of a watch subscription, in arrival order.
#[derive(Debug, Clone)]
pub enum WatchEvent<T> {
    /// A full resynchronisation begins.
    Init,
    /// An object of the resynchronisation snapshot.
    InitApply(T),
    /// An object was created or changed.
    Apply(T),
    /// An object was deleted.
    Delete(T),
    /// The resynchronisation snapshot is complete.
    InitDone,
    /// The transport failed.
    StreamError,
}

/// Where one subscription stands.
#[derive(Debug, Clone, Copy, PartialEq, Eq, Structural)]
pub enum SyncPhase {
    Disconnected,
    Connecting,
    /// The registry was reset and the snapshot is being replayed.
    Resyncing,
    /// The snapshot is complete; changes are applied as they come.
    Live,
}

/// What the loop that runs a subscription does next.
#[derive(Debug, Clone, Copy, PartialEq, Eq, Structural)]
pub enum SessionControl {
    /// Keep reading events.
    Continue,
    /// Leave the session and start a new one after the restart delay.
    Reconnect,
}

pub open spec fn non_empty(o: Option<String>) -> bool {
    o matches Some(s) && s@.len() > 0
}

/// A workload definition can be registered: it has an identifier and a
/// namespace, both non-empty.
pub open spec fn is_registrable(o: DevboxObject) -> bool {
    non_empty(o.unique_id) && non_empty(o.namespace)
}

pub open spec fn name_or_empty(o: Option<String>) -> Seq<char> {
    match o {
        Some(s) => s@,
        None => Seq::empty(),
    }
}

/// The registry after a workload-definition object is applied.
pub open spec fn apply_devbox_spec(v: RegistryView, o: DevboxObject) -> RegistryView {
    if is_registrable(o) {
        register_spec(
            v,
            o.unique_id.unwrap()@,
            o.namespace.unwrap()@,
            name_or_empty(o.name),
        )
    } else {
        v
    }
}

/// The registry after a workload-definition event.
pub open spec fn devbox_event_spec(v: RegistryView, e: WatchEvent<DevboxObject>) -> RegistryView {
    match e {
        WatchEvent::Init => clear_spec(v),
        WatchEvent::InitApply(o) => apply_devbox_spec(v, o),
        WatchEvent::Apply(o) => apply_devbox_spec(v, o),
        WatchEvent::Delete(o) => match o.unique_id {
            Some(id) => unregister_spec(v, id@),
            None => v,
        },
        WatchEvent::InitDone => v,
        WatchEvent::StreamError => v,
    }
}

/// The registry after a runtime-instance object is applied: its address is
/// recorded when it has one, and withdrawn when it has none.
pub open spec fn apply_pod_spec(v: RegistryView, o: PodObject) -> RegistryView {
    match (o.namespace, o.devbox_name) {
        (Some(ns), Some(name)) => if non_empty(o.pod_ip) {
            set_address_spec(v, ns@, name@, o.pod_ip.unwrap()@)
        } else {
            remove_address_spec(v, ns@, name@)
        },
        _ => v,
    }
}

/// The registry after a runtime-instance event.
pub open spec fn pod_event_spec(v: RegistryView, e: WatchEvent<PodObject>) -> RegistryView {
    match e {
        WatchEvent::Init => clear_addresses_spec(v),
        WatchEvent::InitApply(o) => apply_pod_spec(v, o),
        WatchEvent::Apply(o) => apply_pod_spec(v, o),
        WatchEvent::Delete(o) => match (o.namespace, o.devbox_name) {
            (Some(ns), Some(name)) => remove_address_spec(v, ns@, name@),
            _ => v,
        },
        WatchEvent::InitDone => v,
        WatchEvent::StreamError => v,
    }
}

/// The two feeds are independent: no workload-definition event touches the
/// instance addresses, and no runtime-instance event (a reset included)
/// touches the workload definitions.
pub proof fn lemma_feeds_independent(
    v: RegistryView,
    d: WatchEvent<DevboxObject>,
    p: WatchEvent<PodObject>,
)
    ensures
        devbox_event_spec(v, d).pods == v.pods,
        pod_event_spec(v, p).devboxes == v.devboxes,
{
}

/// The phase after an event, whatever the subscription watches.
pub open spec fn phase_after<T>(p: SyncPhase, e: WatchEvent<T>) -> SyncPhase {
    match e {
        WatchEvent::Init => SyncPhase::Resyncing,
        WatchEvent::InitDone => SyncPhase::Live,
        WatchEvent::StreamError => SyncPhase::Disconnected,
        _ => p,
    }
}

pub open spec fn control_after<T>(e: WatchEvent<T>) -> SessionControl {
    if e is StreamError {
        SessionControl::Reconnect
    } else {
        SessionControl::Continue
    }
}

fn is_non_empty(o: &Option<String>) -> (r: bool)
    ensures
        r == non_empty(*o),
{
    match o {
        Some(s) => !s.as_str().is_empty(),
        None => false,
    }
}

/// The decisions of one watch subscription: which registry change each event
/// makes, and when the session ends. The loop that reads the subscription and
/// waits between sessions drives it.
pub struct DevboxWatcher {
    phase: SyncPhase,
}

impl DevboxWatcher {
    pub closed spec fn phase_spec(&self) -> SyncPhase {
        self.phase
    }

    pub fn new() -> (r: Self)
        ensures
            r.phase_spec() == SyncPhase::Disconnected,
    {
        DevboxWatcher { phase: SyncPhase::Disconnected }
    }

    pub fn phase(&self) -> (r: SyncPhase)
        ensures
            r == self.phase_spec(),
    {
        self.phase
    }

    /// A new session starts connecting.
    pub fn begin_connect(&mut self)
        ensures
            final(self).phase_spec() == SyncPhase::Connecting,
    {
        self.phase = SyncPhase::Connecting;
    }

    /// The subscription is established; events come next.
    pub fn connected(&mut self)
        ensures
            final(self).phase_spec() == SyncPhase::Resyncing,
    {
        self.phase = SyncPhase::Resyncing;
    }

    /// The session failed to connect, or its stream ended or failed. Returns
    /// the seconds to wait before the next session.
    pub fn session_ended(&mut self) -> (delay: u64)
        ensures
            final(self).phase_spec() == SyncPhase::Disconnected,
            delay == RESTART_DELAY_SECS,
    {
        self.phase = SyncPhase::Disconnected;
        RESTART_DELAY_SECS
    }

    fn advance<T>(&mut self, event: &WatchEvent<T>) -> (r: SessionControl)
        ensures
            final(self).phase_spec() == phase_after(old(self).phase_spec(), *event),
            r == control_after(*event),
    {
        match event {
            WatchEvent::Init => {
                self.phase = SyncPhase::Resyncing;
                SessionControl::Continue
            },
            WatchEvent::InitDone => {
                self.phase = SyncPhase::Live;
                SessionControl::Continue
            },
            WatchEvent::StreamError => {
                self.phase = SyncPhase::Disconnected;
                SessionControl::Reconnect
            },
            _ => SessionControl::Continue,
        }
    }

    fn handle_apply(registry: &mut DevboxRegistry, devbox: DevboxObject)
        requires
            old(registry).wf(),
        ensures
            final(registry).wf(),
            final(registry)@ == apply_devbox_spec(old(registry)@, devbox),
    {
        if is_non_empty(&devbox.unique_id) && is_non_empty(&devbox.namespace) {
            let DevboxObject { unique_id, namespace, name } = devbox;
            let name = match name {
                Some(n) => n,
                None => String::new(),
            };
            match (unique_id, namespace) {
                (Some(id), Some(ns)) => {
                    let _ = registry.register_devbox(id, ns, name);
                },
                _ => {},
            }
        }
    }

    fn handle_delete(registry: &mut DevboxRegistry, devbox: DevboxObject)
        requires
            old(registry).wf(),
        ensures
            final(registry).wf(),
            final(registry)@ == devbox_event_spec(old(registry)@, WatchEvent::Delete(devbox)),
    {
        if let Some(id) = devbox.unique_id {
            let _ = registry.unregister(id.as_str());
        }
    }

    /// Projects one workload-definition event into the registry.
    pub fn handle_event(&mut self, registry: &mut DevboxRegistry, event: WatchEvent<DevboxObject>) -> (r:
        SessionControl)
        requires
            old(registry).wf(),
        ensures
            final(registry).wf(),
            final(registry)@ == devbox_event_spec(old(registry)@, event),
            final(self).phase_spec() == phase_after(old(self).phase_spec(), event),
            r == control_after(event),
    {
        let r = self.advance(&event);
        match event {
            WatchEvent::Init => registry.clear(),
            WatchEvent::InitApply(o) => Self::handle_apply(registry, o),
            WatchEvent::Apply(o) => Self::handle_apply(registry, o),
            WatchEvent::Delete(o) => Self::handle_delete(registry, o),
            WatchEvent::InitDone => {},
            WatchEvent::StreamError => {},
        }
        r
    }

    fn handle_pod_apply(registry: &mut DevboxRegistry, pod: PodObject)
        requires
            old(registry).wf(),
        ensures
            final(registry).wf(),
            final(registry)@ == apply_pod_spec(old(registry)@, pod),
    {
        let has_ip = is_non_empty(&pod.pod_ip);
        match (pod.namespace, pod.devbox_name, pod.pod_ip) {
            (Some(ns), Some(name), Some(ip)) => {
                if has_ip {
                    registry.update_pod_ip(ns.as_str(), name.as_str(), ip);
                } else {
                    let _ = registry.remove_pod_ip(ns.as_str(), name.as_str());
                }
            },
            (Some(ns), Some(name), None) => {
                let _ = registry.remove_pod_ip(ns.as_str(), name.as_str());
            },
            _ => {},
        }
    }

    /// Projects one runtime-instance event into the registry. A reset of this
    /// feed drops instance addresses only, never workload definitions.
    pub fn handle_pod_event(&mut self, registry: &mut DevboxRegistry, event: WatchEvent<PodObject>) -> (r:
        SessionControl)
        requires
            old(registry).wf(),
        ensures
            final(registry).wf(),
            final(registry)@ == pod_event_spec(old(registry)@, event),
            final(self).phase_spec() == phase_after(old(self).phase_spec(), event),
            r == control_after(event),
    {
        let r = self.advance(&event);
        match event {
            WatchEvent::Init => registry.clear_pods(),
            WatchEvent::InitApply(o) => Self::handle_pod_apply(registry, o),
            WatchEvent::Apply(o) => Self::handle_pod_apply(registry, o),
            WatchEvent::Delete(o) => match (o.namespace, o.devbox_name) {
                (Some(ns), Some(name)) => {
                    let _ = registry.remove_pod_ip(ns.as_str(), name.as_str());
                },
                _ => {},
            },
            WatchEvent::InitDone => {},
            WatchEvent::StreamError => {},
        }
        r
    }
}

} // verus!
