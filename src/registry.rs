use vstd::prelude::*;
use dashmap::DashMap;

verus! {

#[verifier::external_type_specification]
#[verifier::external_body]
#[verifier::reject_recursive_types(K)]
#[verifier::reject_recursive_types(V)]
#[verifier::reject_recursive_types(S)]
pub struct ExDashMap<K, V, S>(DashMap<K, V, S>);

/// Workload identifier -> (namespace, workload name), as held by a `DashMap`.
pub type WorkloadMap = DashMap<String, (String, String)>;

/// (namespace, workload name) -> instance address, as held by a `DashMap`.
pub type AddressMap = DashMap<(String, String), String>;

/// The entries of a workload map.
pub uninterp spec fn workload_entries(m: WorkloadMap) -> Map<Seq<char>, (Seq<char>, Seq<char>)>;

/// The entries of an address map.
pub uninterp spec fn address_entries(m: AddressMap) -> Map<(Seq<char>, Seq<char>), Seq<char>>;

pub open spec fn no_workloads() -> Map<Seq<char>, (Seq<char>, Seq<char>)> {
    Map::empty()
}

pub open spec fn no_addresses() -> Map<(Seq<char>, Seq<char>), Seq<char>> {
    Map::empty()
}

/// Relies on `DashMap::new`: the map starts empty.
#[verifier::external_body]
fn workload_map_new() -> (m: WorkloadMap)
    ensures
        workload_entries(m) == no_workloads(),
{
    DashMap::new()
}

/// Relies on `DashMap::insert`: the key now maps to the value; the old value
/// was returned when there was one.
#[verifier::external_body]
fn workload_map_insert(m: &mut WorkloadMap, key: String, value: (String, String)) -> (r: Option<
    (String, String),
>)
    ensures
        workload_entries(*final(m)) == workload_entries(*old(m)).insert(
            key@,
            (value.0@, value.1@),
        ),
        r is None <==> !workload_entries(*old(m)).contains_key(key@),
{
    m.insert(key, value)
}

/// Relies on `DashMap::remove`: the key no longer maps to anything; its entry
/// was returned when there was one.
#[verifier::external_body]
fn workload_map_remove(m: &mut WorkloadMap, key: &str) -> (r: Option<(String, (String, String))>)
    ensures
        workload_entries(*final(m)) == workload_entries(*old(m)).remove(key@),
        r is None <==> !workload_entries(*old(m)).contains_key(key@),
{
    m.remove(key)
}

/// Relies on `DashMap::clear`: no entry is left.
#[verifier::external_body]
fn workload_map_clear(m: &mut WorkloadMap)
    ensures
        workload_entries(*final(m)) == no_workloads(),
{
    m.clear()
}

/// Relies on `DashMap::get`: a copy of the value that the key maps to.
#[verifier::external_body]
fn workload_map_get(m: &WorkloadMap, key: &str) -> (r: Option<(String, String)>)
    ensures
        match r {
            Some(v) => workload_entries(*m).contains_key(key@) && workload_entries(*m)[key@] == (
            v.0@, v.1@),
            None => !workload_entries(*m).contains_key(key@),
        },
{
    m.get(key).map(|e| e.value().clone())
}

/// Relies on `DashMap::len`: the number of entries.
#[verifier::external_body]
fn workload_map_len(m: &WorkloadMap) -> (r: usize)
    ensures
        r == workload_entries(*m).len(),
{
    m.len()
}

/// Relies on `DashMap::new`: the map starts empty.
#[verifier::external_body]
fn address_map_new() -> (m: AddressMap)
    ensures
        address_entries(m) == no_addresses(),
{
    DashMap::new()
}

/// Relies on `DashMap::insert`: the key now maps to the value.
#[verifier::external_body]
fn address_map_insert(m: &mut AddressMap, key: (String, String), value: String) -> (r: Option<
    String,
>)
    ensures
        address_entries(*final(m)) == address_entries(*old(m)).insert((key.0@, key.1@), value@),
        r is None <==> !address_entries(*old(m)).contains_key((key.0@, key.1@)),
{
    m.insert(key, value)
}

/// Relies on `DashMap::remove`: the key no longer maps to anything.
#[verifier::external_body]
fn address_map_remove(m: &mut AddressMap, key: &(String, String)) -> (r: Option<
    ((String, String), String),
>)
    ensures
        address_entries(*final(m)) == address_entries(*old(m)).remove((key.0@, key.1@)),
        r is None <==> !address_entries(*old(m)).contains_key((key.0@, key.1@)),
{
    m.remove(key)
}

/// Relies on `DashMap::clear`: no entry is left.
#[verifier::external_body]
fn address_map_clear(m: &mut AddressMap)
    ensures
        address_entries(*final(m)) == no_addresses(),
{
    m.clear()
}

/// Relies on `DashMap::get`: a copy of the value that the key maps to.
#[verifier::external_body]
fn address_map_get(m: &AddressMap, key: &(String, String)) -> (r: Option<String>)
    ensures
        match r {
            Some(v) => address_entries(*m).contains_key((key.0@, key.1@)) && address_entries(
                *m,
            )[(key.0@, key.1@)] == v@,
            None => !address_entries(*m).contains_key((key.0@, key.1@)),
        },
{
    m.get(key).map(|e| e.value().clone())
}

/// Where a workload lives: its namespace and name.
#[derive(Debug, Clone)]
pub struct DevboxInfo {
    pub namespace: String,
    pub devbox_name: String,
}

/// A workload's full location: namespace, name, and the address of its
/// running instance once one has been assigned.
#[derive(Debug, Clone)]
pub struct LocationRecord {
    pub namespace: String,
    pub devbox_name: String,
    pub pod_ip: Option<String>,
}

/// The mathematical value of a location record.
pub struct LocationView {
    pub namespace: Seq<char>,
    pub devbox_name: Seq<char>,
    pub pod_ip: Option<Seq<char>>,
}

impl LocationRecord {
    pub open spec fn view(&self) -> LocationView {
        LocationView {
            namespace: self.namespace@,
            devbox_name: self.devbox_name@,
            pod_ip: match self.pod_ip {
                Some(ip) => Some(ip@),
                None => None,
            },
        }
    }
}

/// The registry's contents: which workloads are known, and which instance
/// addresses have been reported.
pub struct RegistryView {
    pub devboxes: Map<Seq<char>, (Seq<char>, Seq<char>)>,
    pub pods: Map<(Seq<char>, Seq<char>), Seq<char>>,
}

/// The location of `id` in `v`: absent, or its placement with the address
/// reported for that placement, if any.
pub open spec fn lookup_spec(v: RegistryView, id: Seq<char>) -> Option<LocationView> {
    if v.devboxes.contains_key(id) {
        let (ns, name) = v.devboxes[id];
        Some(
            LocationView {
                namespace: ns,
                devbox_name: name,
                pod_ip: if v.pods.contains_key((ns, name)) {
                    Some(v.pods[(ns, name)])
                } else {
                    None
                },
            },
        )
    } else {
        None
    }
}

/// `v` after a workload definition for `id` is inserted or replaced.
pub open spec fn register_spec(
    v: RegistryView,
    id: Seq<char>,
    ns: Seq<char>,
    name: Seq<char>,
) -> RegistryView {
    RegistryView { devboxes: v.devboxes.insert(id, (ns, name)), pods: v.pods }
}

/// `v` after the workload definition for `id` is removed.
pub open spec fn unregister_spec(v: RegistryView, id: Seq<char>) -> RegistryView {
    RegistryView { devboxes: v.devboxes.remove(id), pods: v.pods }
}

/// `v` after every workload definition is dropped (instance addresses stay).
pub open spec fn clear_spec(v: RegistryView) -> RegistryView {
    RegistryView { devboxes: no_workloads(), pods: v.pods }
}

/// `v` after an instance address is reported for a placement.
pub open spec fn set_address_spec(
    v: RegistryView,
    ns: Seq<char>,
    name: Seq<char>,
    ip: Seq<char>,
) -> RegistryView {
    RegistryView { devboxes: v.devboxes, pods: v.pods.insert((ns, name), ip) }
}

/// `v` after the instance address of a placement is withdrawn.
pub open spec fn remove_address_spec(v: RegistryView, ns: Seq<char>, name: Seq<char>) -> RegistryView {
    RegistryView { devboxes: v.devboxes, pods: v.pods.remove((ns, name)) }
}

/// `v` after every instance address is dropped (workload definitions stay).
pub open spec fn clear_addresses_spec(v: RegistryView) -> RegistryView {
    RegistryView { devboxes: v.devboxes, pods: no_addresses() }
}

/// One change to the registry's contents.
pub enum RegistryOp {
    Register(Seq<char>, Seq<char>, Seq<char>),
    Unregister(Seq<char>),
    Clear,
    SetAddress(Seq<char>, Seq<char>, Seq<char>),
    RemoveAddress(Seq<char>, Seq<char>),
    ClearAddresses,
}

pub open spec fn apply_op(v: RegistryView, op: RegistryOp) -> RegistryView {
    match op {
        RegistryOp::Register(id, ns, name) => register_spec(v, id, ns, name),
        RegistryOp::Unregister(id) => unregister_spec(v, id),
        RegistryOp::Clear => clear_spec(v),
        RegistryOp::SetAddress(ns, name, ip) => set_address_spec(v, ns, name, ip),
        RegistryOp::RemoveAddress(ns, name) => remove_address_spec(v, ns, name),
        RegistryOp::ClearAddresses => clear_addresses_spec(v),
    }
}

/// `v` after the changes `ops`, in order.
pub open spec fn apply_ops(v: RegistryView, ops: Seq<RegistryOp>) -> RegistryView
    decreases ops.len(),
{
    if ops.len() == 0 {
        v
    } else {
        apply_op(apply_ops(v, ops.drop_last()), ops.last())
    }
}

/// After `id` is registered with a placement, looking it up gives that
/// placement, with the address reported for it if any; registering `id`
/// again then reports it as already present.
pub proof fn lemma_lookup_after_register(v: RegistryView, id: Seq<char>, ns: Seq<char>, name: Seq<char>)
    ensures
        lookup_spec(register_spec(v, id, ns, name), id) == Some(
            LocationView {
                namespace: ns,
                devbox_name: name,
                pod_ip: if v.pods.contains_key((ns, name)) {
                    Some(v.pods[(ns, name)])
                } else {
                    None
                },
            },
        ),
        register_spec(v, id, ns, name).devboxes.contains_key(id),
{
}

/// After `id` is removed, looking it up finds nothing.
pub proof fn lemma_lookup_after_unregister(v: RegistryView, id: Seq<char>)
    ensures
        lookup_spec(unregister_spec(v, id), id) is None,
{
}

/// After a reset, `id` stays absent through any changes that do not register
/// it again; a later registration of it is reported as new.
pub proof fn lemma_absent_after_clear(v: RegistryView, ops: Seq<RegistryOp>, id: Seq<char>)
    requires
        forall|i: int| 0 <= i < ops.len() ==> !(#[trigger] ops[i] matches RegistryOp::Register(
            j,
            _,
            _,
        ) && j == id),
    ensures
        lookup_spec(apply_ops(clear_spec(v), ops), id) is None,
        !apply_ops(clear_spec(v), ops).devboxes.contains_key(id),
    decreases ops.len(),
{
    if ops.len() > 0 {
        let prefix = ops.drop_last();
        assert forall|i: int| 0 <= i < prefix.len() implies !(#[trigger] prefix[i] matches RegistryOp::Register(
            j,
            _,
            _,
        ) && j == id) by {
            assert(prefix[i] == ops[i]);
        }
        lemma_absent_after_clear(v, prefix, id);
        assert(!(ops[ops.len() - 1] matches RegistryOp::Register(j, _, _) && j == id));
    }
}

/// Registry of workloads: identifier -> placement, and placement -> address.
///
/// Every operation needs exclusive access; callers that share one registry
/// across tasks hold it behind a reader-writer lock.
pub struct DevboxRegistry {
    devboxes: WorkloadMap,
    pods: AddressMap,
}

impl DevboxRegistry {
    pub closed spec fn view(&self) -> RegistryView {
        RegistryView {
            devboxes: workload_entries(self.devboxes),
            pods: address_entries(self.pods),
        }
    }

    pub closed spec fn wf(&self) -> bool {
        workload_entries(self.devboxes).dom().finite()
    }

    pub fn new() -> (r: Self)
        ensures
            r.wf(),
            r@.devboxes == no_workloads(),
            r@.pods == no_addresses(),
    {
        DevboxRegistry { devboxes: workload_map_new(), pods: address_map_new() }
    }

    /// Registers (or replaces) the workload `unique_id` with its namespace and
    /// name. Returns whether the identifier was new.
    pub fn register_devbox(&mut self, unique_id: String, namespace: String, devbox_name: String) -> (r: bool)
        requires
            old(self).wf(),
        ensures
            final(self).wf(),
            final(self)@ == register_spec(old(self)@, unique_id@, namespace@, devbox_name@),
            r == !old(self)@.devboxes.contains_key(unique_id@),
    {
        let prev = workload_map_insert(&mut self.devboxes, unique_id, (namespace, devbox_name));
        prev.is_none()
    }

    /// Registers (or replaces) the workload `unique_id`, known by its
    /// namespace alone: its name is empty. Returns whether the identifier was new.
    pub fn register(&mut self, unique_id: String, namespace: String) -> (r: bool)
        requires
            old(self).wf(),
        ensures
            final(self).wf(),
            final(self)@ == register_spec(old(self)@, unique_id@, namespace@, Seq::empty()),
            r == !old(self)@.devboxes.contains_key(unique_id@),
    {
        let name = String::new();
        self.register_devbox(unique_id, namespace, name)
    }

    /// Removes the workload `unique_id`. Returns whether it was registered.
    pub fn unregister(&mut self, unique_id: &str) -> (r: bool)
        requires
            old(self).wf(),
        ensures
            final(self).wf(),
            final(self)@ == unregister_spec(old(self)@, unique_id@),
            r == old(self)@.devboxes.contains_key(unique_id@),
    {
        workload_map_remove(&mut self.devboxes, unique_id).is_some()
    }

    /// Drops every workload definition, before a fresh resynchronisation.
    /// Instance addresses are kept: they belong to the other feed.
    pub fn clear(&mut self)
        requires
            old(self).wf(),
        ensures
            final(self).wf(),
            final(self)@ == clear_spec(old(self)@),
    {
        workload_map_clear(&mut self.devboxes);
    }

    /// Records the address of the instance of the workload `devbox_name` in
    /// `namespace`.
    pub fn update_pod_ip(&mut self, namespace: &str, devbox_name: &str, pod_ip: String)
        requires
            old(self).wf(),
        ensures
            final(self).wf(),
            final(self)@ == set_address_spec(old(self)@, namespace@, devbox_name@, pod_ip@),
    {
        let key = (namespace.to_owned(), devbox_name.to_owned());
        let _ = address_map_insert(&mut self.pods, key, pod_ip);
    }

    /// Withdraws the address of the instance of `devbox_name` in `namespace`.
    /// Returns whether one was recorded.
    pub fn remove_pod_ip(&mut self, namespace: &str, devbox_name: &str) -> (r: bool)
        requires
            old(self).wf(),
        ensures
            final(self).wf(),
            final(self)@ == remove_address_spec(old(self)@, namespace@, devbox_name@),
            r == old(self)@.pods.contains_key((namespace@, devbox_name@)),
    {
        let key = (namespace.to_owned(), devbox_name.to_owned());
        address_map_remove(&mut self.pods, &key).is_some()
    }

    /// Drops every instance address, before a fresh resynchronisation of the
    /// instance feed. Workload definitions are kept.
    pub fn clear_pods(&mut self)
        requires
            old(self).wf(),
        ensures
            final(self).wf(),
            final(self)@ == clear_addresses_spec(old(self)@),
    {
        address_map_clear(&mut self.pods);
    }

    /// A copy of the placement of the workload `unique_id`.
    pub fn get(&self, unique_id: &str) -> (r: Option<DevboxInfo>)
        ensures
            match r {
                Some(info) => self@.devboxes.contains_key(unique_id@) && self@.devboxes[unique_id@]
                    == (info.namespace@, info.devbox_name@),
                None => !self@.devboxes.contains_key(unique_id@),
            },
    {
        match workload_map_get(&self.devboxes, unique_id) {
            Some((namespace, devbox_name)) => Some(DevboxInfo { namespace, devbox_name }),
            None => None,
        }
    }

    /// A copy of the address reported for the instance of `devbox_name` in
    /// `namespace`.
    pub fn get_pod_ip(&self, namespace: &str, devbox_name: &str) -> (r: Option<String>)
        ensures
            match r {
                Some(ip) => self@.pods.contains_key((namespace@, devbox_name@))
                    && self@.pods[(namespace@, devbox_name@)] == ip@,
                None => !self@.pods.contains_key((namespace@, devbox_name@)),
            },
    {
        let key = (namespace.to_owned(), devbox_name.to_owned());
        address_map_get(&self.pods, &key)
    }

    /// A snapshot of the full location of the workload `unique_id`.
    pub fn lookup(&self, unique_id: &str) -> (r: Option<LocationRecord>)
        ensures
            match r {
                Some(rec) => lookup_spec(self@, unique_id@) == Some(rec@),
                None => lookup_spec(self@, unique_id@) is None,
            },
    {
        match workload_map_get(&self.devboxes, unique_id) {
            None => None,
            Some((namespace, devbox_name)) => {
                let pod_ip = self.get_pod_ip(namespace.as_str(), devbox_name.as_str());
                Some(LocationRecord { namespace, devbox_name, pod_ip })
            },
        }
    }

    /// The number of registered workloads.
    pub fn len(&self) -> (r: usize)
        ensures
            r == self@.devboxes.len(),
    {
        workload_map_len(&self.devboxes)
    }

    /// Whether no workload is registered.
    pub fn is_empty(&self) -> (r: bool)
        requires
            self.wf(),
        ensures
            r == (self@.devboxes.dom() == Set::<Seq<char>>::empty()),
    {
        let n = workload_map_len(&self.devboxes);
        proof {
            if n == 0 {
                assert(self@.devboxes.dom() =~= Set::<Seq<char>>::empty());
            }
        }
        n == 0
    }
}

impl Default for DevboxRegistry {
    fn default() -> (r: Self)
        ensures
            r.wf(),
            r@.devboxes == no_workloads(),
            r@.pods == no_addresses(),
    {
        Self::new()
    }
}

} // verus!
