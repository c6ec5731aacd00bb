//! The cluster snapshot: what the two API listings add up to, and the
//! panel's one-line label for it.

use vstd::prelude::*;
use crate::resources::{
    clone_text, guest_summary, guest_summary_of, has_status, is_guest, is_node, is_storage,
    lemma_kinds_distinct, node_summary, node_summary_of, ratio, ratio_of, storage_summary,
    storage_summary_of, ClusterResource, ClusterStatusEntry, GuestSummary, GuestSummaryView,
    NodeSummary, NodeSummaryView, Share, ShareView, StorageSummary, StorageSummaryView,
};
use crate::sort::{
    is_stable_sort, lemma_stable_sort_same_items, lemma_stable_sort_unique, stable_sort,
};
use crate::text::{
    after_last_slash, lex_le, decimal, decimal_string, digits_value, is_digit, lemma_decimal_reads_back, str_eq,
};
use vstd::string::StringExecFns;

verus! {

/// The state of the cluster at one poll.
#[derive(Clone, Debug)]
pub struct ClusterSnapshot {
    pub cluster_name: Option<String>,
    pub quorum: bool,
    pub nodes_online: usize,
    pub nodes_total: usize,
    pub guests_running: usize,
    pub guests_total: usize,
    pub cpu_fraction: Option<Share>,
    pub memory_fraction: Option<Share>,
    pub storage_fraction: Option<Share>,
    pub nodes: Vec<NodeSummary>,
    pub guests: Vec<GuestSummary>,
    pub storages: Vec<StorageSummary>,
}

pub struct ClusterSnapshotView {
    pub cluster_name: Option<Seq<char>>,
    pub quorum: bool,
    pub nodes_online: nat,
    pub nodes_total: nat,
    pub guests_running: nat,
    pub guests_total: nat,
    pub cpu_fraction: Option<ShareView>,
    pub memory_fraction: Option<ShareView>,
    pub storage_fraction: Option<ShareView>,
    pub nodes: Seq<NodeSummaryView>,
    pub guests: Seq<GuestSummaryView>,
    pub storages: Seq<StorageSummaryView>,
}

impl DeepView for ClusterSnapshot {
    type V = ClusterSnapshotView;

    open spec fn deep_view(&self) -> ClusterSnapshotView {
        ClusterSnapshotView {
            cluster_name: self.cluster_name.deep_view(),
            quorum: self.quorum,
            nodes_online: self.nodes_online as nat,
            nodes_total: self.nodes_total as nat,
            guests_running: self.guests_running as nat,
            guests_total: self.guests_total as nat,
            cpu_fraction: self.cpu_fraction.deep_view(),
            memory_fraction: self.memory_fraction.deep_view(),
            storage_fraction: self.storage_fraction.deep_view(),
            nodes: self.nodes.deep_view(),
            guests: self.guests.deep_view(),
            storages: self.storages.deep_view(),
        }
    }
}

/// The first entry of `/cluster/status` that describes the cluster itself.
pub open spec fn cluster_entry(entries: Seq<ClusterStatusEntry>) -> Option<ClusterStatusEntry>
    decreases entries.len(),
{
    if entries.len() == 0 {
        None
    } else if entries[0].kind@ == "cluster"@ {
        Some(entries[0])
    } else {
        cluster_entry(entries.drop_first())
    }
}

pub open spec fn node_pred() -> spec_fn(ClusterResource) -> bool {
    |r: ClusterResource| is_node(r)
}

pub open spec fn online_node_pred() -> spec_fn(ClusterResource) -> bool {
    |r: ClusterResource| is_node(r) && has_status(r, "online"@)
}

pub open spec fn guest_pred() -> spec_fn(ClusterResource) -> bool {
    |r: ClusterResource| is_guest(r)
}

pub open spec fn running_guest_pred() -> spec_fn(ClusterResource) -> bool {
    |r: ClusterResource| is_guest(r) && has_status(r, "running"@)
}

pub open spec fn storage_pred() -> spec_fn(ClusterResource) -> bool {
    |r: ClusterResource| is_storage(r)
}

pub open spec fn cpu_node_pred() -> spec_fn(ClusterResource) -> bool {
    |r: ClusterResource| is_node(r) && r.cpu is Some
}

pub open spec fn node_summary_fn() -> spec_fn(ClusterResource) -> NodeSummaryView {
    |r: ClusterResource| node_summary_of(r)
}

pub open spec fn guest_summary_fn() -> spec_fn(ClusterResource) -> GuestSummaryView {
    |r: ClusterResource| guest_summary_of(r)
}

pub open spec fn storage_summary_fn() -> spec_fn(ClusterResource) -> StorageSummaryView {
    |r: ClusterResource| storage_summary_of(r)
}

pub open spec fn cpu_reading_fn() -> spec_fn(ClusterResource) -> u64 {
    |r: ClusterResource| r.cpu->0
}

pub open spec fn node_mem_fn() -> spec_fn(ClusterResource) -> nat {
    |r: ClusterResource| if is_node(r) { amount(r.mem) } else { 0 }
}

pub open spec fn node_maxmem_fn() -> spec_fn(ClusterResource) -> nat {
    |r: ClusterResource| if is_node(r) { amount(r.maxmem) } else { 0 }
}

pub open spec fn storage_disk_fn() -> spec_fn(ClusterResource) -> nat {
    |r: ClusterResource| if is_storage(r) { amount(r.disk) } else { 0 }
}

pub open spec fn storage_maxdisk_fn() -> spec_fn(ClusterResource) -> nat {
    |r: ClusterResource| if is_storage(r) { amount(r.maxdisk) } else { 0 }
}

/// The node resources, in the order listed.
pub open spec fn nodes_of(s: Seq<ClusterResource>) -> Seq<ClusterResource> {
    s.filter(node_pred())
}

/// The guest resources, in the order listed.
pub open spec fn guests_of(s: Seq<ClusterResource>) -> Seq<ClusterResource> {
    s.filter(guest_pred())
}

/// The storage resources, in the order listed.
pub open spec fn storages_of(s: Seq<ClusterResource>) -> Seq<ClusterResource> {
    s.filter(storage_pred())
}

/// Summaries of the node resources, in the order listed.
pub open spec fn node_rows_of(s: Seq<ClusterResource>) -> Seq<NodeSummaryView> {
    nodes_of(s).map_values(node_summary_fn())
}

/// Summaries of the guest resources, in the order listed.
pub open spec fn guest_rows_of(s: Seq<ClusterResource>) -> Seq<GuestSummaryView> {
    guests_of(s).map_values(guest_summary_fn())
}

/// Summaries of the storage resources, in the order listed.
pub open spec fn storage_rows_of(s: Seq<ClusterResource>) -> Seq<StorageSummaryView> {
    storages_of(s).map_values(storage_summary_fn())
}

/// The CPU readings of the nodes that report one, in the order listed.
pub open spec fn cpu_samples_of(s: Seq<ClusterResource>) -> Seq<u64> {
    s.filter(cpu_node_pred()).map_values(cpu_reading_fn())
}

/// A quantity the resource reports, zero when it leaves it out.
pub open spec fn amount(o: Option<u64>) -> nat {
    match o {
        Some(v) => v as nat,
        None => 0,
    }
}

/// The sum of `f` over `s`.
pub open spec fn total_by(s: Seq<ClusterResource>, f: spec_fn(ClusterResource) -> nat) -> nat
    decreases s.len(),
{
    if s.len() == 0 {
        0
    } else {
        total_by(s.drop_last(), f) + f(s.last())
    }
}

/// Memory in use over all nodes.
pub open spec fn mem_total(s: Seq<ClusterResource>) -> nat {
    total_by(s, node_mem_fn())
}

/// Memory installed over all nodes.
pub open spec fn maxmem_total(s: Seq<ClusterResource>) -> nat {
    total_by(s, node_maxmem_fn())
}

/// Disk space in use over all storages.
pub open spec fn disk_total(s: Seq<ClusterResource>) -> nat {
    total_by(s, storage_disk_fn())
}

/// Disk space available over all storages.
pub open spec fn maxdisk_total(s: Seq<ClusterResource>) -> nat {
    total_by(s, storage_maxdisk_fn())
}

/// The four cluster-wide totals fit the 64-bit counters they are summed in.
pub open spec fn totals_fit_spec(s: Seq<ClusterResource>) -> bool {
    &&& mem_total(s) <= u64::MAX
    &&& maxmem_total(s) <= u64::MAX
    &&& disk_total(s) <= u64::MAX
    &&& maxdisk_total(s) <= u64::MAX
}

/// `snap` is what the listings `entries` and `resources` add up to.
pub open spec fn describes(
    snap: ClusterSnapshotView,
    entries: Seq<ClusterStatusEntry>,
    resources: Seq<ClusterResource>,
) -> bool {
    match cluster_entry(entries) {
        None => false,
        Some(c) => {
            &&& snap.cluster_name == c.name.deep_view()
            &&& snap.quorum == (c.quorate == Some(1u8))
            &&& snap.nodes_total == nodes_of(resources).len()
            &&& snap.nodes_online == resources.filter(online_node_pred()).len()
            &&& snap.guests_total == guests_of(resources).len()
            &&& snap.guests_running == resources.filter(running_guest_pred()).len()
            &&& snap.cpu_fraction == if cpu_samples_of(resources).len() > 0 {
                Some(ShareView::Mean { samples: cpu_samples_of(resources) })
            } else {
                None
            }
            &&& snap.memory_fraction == ratio_of(
                Some(mem_total(resources) as u64),
                Some(maxmem_total(resources) as u64),
            )
            &&& snap.storage_fraction == ratio_of(
                Some(disk_total(resources) as u64),
                Some(maxdisk_total(resources) as u64),
            )
            &&& is_stable_sort::<NodeSummary>(snap.nodes, node_rows_of(resources))
            &&& is_stable_sort::<GuestSummary>(snap.guests, guest_rows_of(resources))
            &&& is_stable_sort::<StorageSummary>(snap.storages, storage_rows_of(resources))
        },
    }
}

/// The panel's label: running and total guests while the cluster is
/// quorate, a warning otherwise.
pub open spec fn panel_label_of(snap: ClusterSnapshotView) -> Seq<char> {
    if snap.quorum {
        "PVE "@ + decimal(snap.guests_running) + "/"@ + decimal(snap.guests_total)
    } else {
        "PVE warn"@
    }
}

proof fn lemma_filter_take_step<A>(s: Seq<A>, i: int, p: spec_fn(A) -> bool)
    requires
        0 <= i < s.len(),
    ensures
        s.take(i + 1).filter(p) == if p(s[i]) {
            s.take(i).filter(p).push(s[i])
        } else {
            s.take(i).filter(p)
        },
{
    assert(s.take(i + 1) =~= s.take(i).push(s[i]));
    s.take(i).lemma_filter_push(s[i], p);
}

proof fn lemma_total_take_step(s: Seq<ClusterResource>, i: int, f: spec_fn(ClusterResource) -> nat)
    requires
        0 <= i < s.len(),
    ensures
        total_by(s.take(i + 1), f) == total_by(s.take(i), f) + f(s[i]),
{
    assert(s.take(i + 1).drop_last() =~= s.take(i));
}

proof fn lemma_total_take_bounded(s: Seq<ClusterResource>, i: int, f: spec_fn(ClusterResource) -> nat)
    requires
        0 <= i <= s.len(),
    ensures
        total_by(s.take(i), f) <= total_by(s, f),
    decreases s.len() - i,
{
    if i == s.len() {
        assert(s.take(i) =~= s);
    } else {
        lemma_total_take_step(s, i, f);
        lemma_total_take_bounded(s, i + 1, f);
    }
}

proof fn lemma_filter_narrower<A>(s: Seq<A>, p: spec_fn(A) -> bool, q: spec_fn(A) -> bool)
    requires
        forall|x: A| #[trigger] q(x) ==> p(x),
    ensures
        s.filter(q).len() <= s.filter(p).len(),
    decreases s.len(),
{
    reveal(Seq::filter);
    if s.len() > 0 {
        lemma_filter_narrower(s.drop_last(), p, q);
    }
}

proof fn lemma_kinds_counted_once(s: Seq<ClusterResource>)
    ensures
        nodes_of(s).len() + guests_of(s).len() + storages_of(s).len() <= s.len(),
    decreases s.len(),
{
    reveal(Seq::filter);
    lemma_kinds_distinct();
    if s.len() > 0 {
        lemma_kinds_counted_once(s.drop_last());
    }
}

/// In a snapshot, at most all nodes are online and at most all guests are
/// running; the node, guest and storage lists hold one entry per resource
/// of their kind, and no resource is counted twice.
pub proof fn lemma_snapshot_counts(
    snap: ClusterSnapshotView,
    entries: Seq<ClusterStatusEntry>,
    resources: Seq<ClusterResource>,
)
    requires
        describes(snap, entries, resources),
    ensures
        snap.nodes_online <= snap.nodes_total,
        snap.nodes_total == snap.nodes.len(),
        snap.guests_running <= snap.guests_total,
        snap.guests_total == snap.guests.len(),
        snap.storages.len() == storages_of(resources).len(),
        snap.nodes_total + snap.guests_total + snap.storages.len() <= resources.len(),
{
    lemma_filter_narrower(resources, node_pred(), online_node_pred());
    lemma_filter_narrower(resources, guest_pred(), running_guest_pred());
    lemma_kinds_counted_once(resources);
}

/// The listings determine the snapshot: two snapshots that both describe
/// them are the same.
pub proof fn lemma_describes_unique(
    a: ClusterSnapshotView,
    b: ClusterSnapshotView,
    entries: Seq<ClusterStatusEntry>,
    resources: Seq<ClusterResource>,
)
    requires
        describes(a, entries, resources),
        describes(b, entries, resources),
    ensures
        a == b,
{
    lemma_stable_sort_unique::<NodeSummary>(a.nodes, b.nodes, node_rows_of(resources));
    lemma_stable_sort_unique::<GuestSummary>(a.guests, b.guests, guest_rows_of(resources));
    lemma_stable_sort_unique::<StorageSummary>(a.storages, b.storages, storage_rows_of(resources));
}

/// `used / total` as a share when both are known and `total` is not zero.
pub open spec fn share_if_known(used: Option<u64>, total: Option<u64>) -> Option<ShareView> {
    if used is Some && total is Some && total->0 != 0 {
        Some(ShareView::Ratio { used: used->0, total: total->0 })
    } else {
        None
    }
}

/// `e` is the entry the node resource `r` gets: named by its node name,
/// name or id (else "unknown"), online exactly when its status is
/// "online", with its own CPU reading and memory use.
pub open spec fn node_entry_from(e: NodeSummaryView, r: ClusterResource) -> bool {
    &&& e.name == if r.node is Some {
        r.node->0@
    } else if r.name is Some {
        r.name->0@
    } else if r.id is Some {
        r.id->0@
    } else {
        "unknown"@
    }
    &&& e.online == (r.status is Some && r.status->0@ == "online"@)
    &&& e.cpu_fraction == if r.cpu is Some {
        Some(ShareView::Reading { bits: r.cpu->0 })
    } else {
        None
    }
    &&& e.memory_fraction == share_if_known(r.mem, r.maxmem)
}

/// `e` is the entry the guest resource `r` gets: its VM id (zero when
/// missing), its name (else kind and VM id), its kind in upper case, its
/// status (else "unknown") and its node.
pub open spec fn guest_entry_from(e: GuestSummaryView, r: ClusterResource) -> bool {
    &&& e.vmid == if r.vmid is Some {
        r.vmid->0
    } else {
        0
    }
    &&& e.name == if r.name is Some {
        r.name->0@
    } else {
        r.kind@ + " "@ + decimal(e.vmid as nat)
    }
    &&& e.kind == if r.kind@ == "qemu"@ {
        "QEMU"@
    } else {
        "LXC"@
    }
    &&& e.status == if r.status is Some {
        r.status->0@
    } else {
        "unknown"@
    }
    &&& e.node == r.node.deep_view()
}

/// `e` is the entry the storage resource `r` gets: named by the last part
/// of its id (else its name, else "storage"), on the node of `r`, with its
/// disk use.
pub open spec fn storage_entry_from(e: StorageSummaryView, r: ClusterResource) -> bool {
    &&& e.name == if r.id is Some {
        after_last_slash(r.id->0@)
    } else if r.name is Some {
        r.name->0@
    } else {
        "storage"@
    }
    &&& e.node == r.node.deep_view()
    &&& e.used_fraction == share_if_known(r.disk, r.maxdisk)
}

/// `e` is the entry of some node resource of `resources`.
pub open spec fn node_from_resources(e: NodeSummaryView, resources: Seq<ClusterResource>) -> bool {
    exists|j: int| 0 <= j < nodes_of(resources).len() && #[trigger] node_entry_from(e, nodes_of(resources)[j])
}

/// Some entry of `list` is the entry of the node resource `r`.
pub open spec fn node_listed(list: Seq<NodeSummaryView>, r: ClusterResource) -> bool {
    exists|i: int| 0 <= i < list.len() && #[trigger] node_entry_from(list[i], r)
}

proof fn lemma_node_entries(list: Seq<NodeSummaryView>, resources: Seq<ClusterResource>)
    requires
        is_stable_sort::<NodeSummary>(list, node_rows_of(resources)),
    ensures
        forall|i: int| 0 <= i < list.len() ==> #[trigger] node_from_resources(list[i], resources),
        forall|j: int|
            0 <= j < nodes_of(resources).len() ==> #[trigger] node_listed(list, nodes_of(resources)[j]),
{
    let rows = node_rows_of(resources);
    lemma_stable_sort_same_items::<NodeSummary>(list, rows);
    assert forall|i: int| 0 <= i < list.len() implies #[trigger] node_from_resources(list[i], resources) by {
        assert(list.contains(list[i]));
        let j = choose|j: int| 0 <= j < rows.len() && rows[j] == list[i];
        assert(node_entry_from(list[i], nodes_of(resources)[j]));
    }
    assert forall|j: int| 0 <= j < nodes_of(resources).len() implies #[trigger] node_listed(list, nodes_of(resources)[j]) by {
        assert(rows[j] == node_summary_of(nodes_of(resources)[j]));
        assert(rows.contains(rows[j]));
        let i = choose|i: int| 0 <= i < list.len() && list[i] == rows[j];
        assert(node_entry_from(list[i], nodes_of(resources)[j]));
    }
}

/// `e` is the entry of some guest resource of `resources`.
pub open spec fn guest_from_resources(e: GuestSummaryView, resources: Seq<ClusterResource>) -> bool {
    exists|j: int| 0 <= j < guests_of(resources).len() && #[trigger] guest_entry_from(e, guests_of(resources)[j])
}

/// Some entry of `list` is the entry of the guest resource `r`.
pub open spec fn guest_listed(list: Seq<GuestSummaryView>, r: ClusterResource) -> bool {
    exists|i: int| 0 <= i < list.len() && #[trigger] guest_entry_from(list[i], r)
}

proof fn lemma_guest_entries(list: Seq<GuestSummaryView>, resources: Seq<ClusterResource>)
    requires
        is_stable_sort::<GuestSummary>(list, guest_rows_of(resources)),
    ensures
        forall|i: int| 0 <= i < list.len() ==> #[trigger] guest_from_resources(list[i], resources),
        forall|j: int|
            0 <= j < guests_of(resources).len() ==> #[trigger] guest_listed(list, guests_of(resources)[j]),
{
    let rows = guest_rows_of(resources);
    lemma_stable_sort_same_items::<GuestSummary>(list, rows);
    assert forall|i: int| 0 <= i < list.len() implies #[trigger] guest_from_resources(list[i], resources) by {
        assert(list.contains(list[i]));
        let j = choose|j: int| 0 <= j < rows.len() && rows[j] == list[i];
        assert(guest_entry_from(list[i], guests_of(resources)[j]));
    }
    assert forall|j: int| 0 <= j < guests_of(resources).len() implies #[trigger] guest_listed(list, guests_of(resources)[j]) by {
        assert(rows[j] == guest_summary_of(guests_of(resources)[j]));
        assert(rows.contains(rows[j]));
        let i = choose|i: int| 0 <= i < list.len() && list[i] == rows[j];
        assert(guest_entry_from(list[i], guests_of(resources)[j]));
    }
}

/// `e` is the entry of some storage resource of `resources`.
pub open spec fn storage_from_resources(e: StorageSummaryView, resources: Seq<ClusterResource>) -> bool {
    exists|j: int| 0 <= j < storages_of(resources).len() && #[trigger] storage_entry_from(e, storages_of(resources)[j])
}

/// Some entry of `list` is the entry of the storage resource `r`.
pub open spec fn storage_listed(list: Seq<StorageSummaryView>, r: ClusterResource) -> bool {
    exists|i: int| 0 <= i < list.len() && #[trigger] storage_entry_from(list[i], r)
}

proof fn lemma_storage_entries(list: Seq<StorageSummaryView>, resources: Seq<ClusterResource>)
    requires
        is_stable_sort::<StorageSummary>(list, storage_rows_of(resources)),
    ensures
        forall|i: int| 0 <= i < list.len() ==> #[trigger] storage_from_resources(list[i], resources),
        forall|j: int|
            0 <= j < storages_of(resources).len() ==> #[trigger] storage_listed(list, storages_of(resources)[j]),
{
    let rows = storage_rows_of(resources);
    lemma_stable_sort_same_items::<StorageSummary>(list, rows);
    assert forall|i: int| 0 <= i < list.len() implies #[trigger] storage_from_resources(list[i], resources) by {
        assert(list.contains(list[i]));
        let j = choose|j: int| 0 <= j < rows.len() && rows[j] == list[i];
        assert(storage_entry_from(list[i], storages_of(resources)[j]));
    }
    assert forall|j: int| 0 <= j < storages_of(resources).len() implies #[trigger] storage_listed(list, storages_of(resources)[j]) by {
        assert(rows[j] == storage_summary_of(storages_of(resources)[j]));
        assert(rows.contains(rows[j]));
        let i = choose|i: int| 0 <= i < list.len() && list[i] == rows[j];
        assert(storage_entry_from(list[i], storages_of(resources)[j]));
    }
}

/// The snapshot's guests are in increasing VM id order, its nodes and
/// storages in name order; each entry comes from a resource of its kind
/// and each resource of that kind has its entry.
pub open spec fn lists_trace_to_resources(
    snap: ClusterSnapshotView,
    resources: Seq<ClusterResource>,
) -> bool {
    &&& (forall|i: int, j: int|
        0 <= i < j < snap.guests.len() ==> #[trigger] snap.guests[i].vmid
            <= #[trigger] snap.guests[j].vmid)
    &&& (forall|i: int, j: int|
        0 <= i < j < snap.nodes.len() ==> lex_le(
            #[trigger] snap.nodes[i].name,
            #[trigger] snap.nodes[j].name,
        ))
    &&& (forall|i: int, j: int|
        0 <= i < j < snap.storages.len() ==> lex_le(
            #[trigger] snap.storages[i].name,
            #[trigger] snap.storages[j].name,
        ))
    &&& (forall|i: int|
        0 <= i < snap.nodes.len() ==> #[trigger] node_from_resources(snap.nodes[i], resources))
    &&& (forall|j: int|
        0 <= j < nodes_of(resources).len() ==> #[trigger] node_listed(
            snap.nodes,
            nodes_of(resources)[j],
        ))
    &&& (forall|i: int|
        0 <= i < snap.guests.len() ==> #[trigger] guest_from_resources(snap.guests[i], resources))
    &&& (forall|j: int|
        0 <= j < guests_of(resources).len() ==> #[trigger] guest_listed(
            snap.guests,
            guests_of(resources)[j],
        ))
    &&& (forall|i: int|
        0 <= i < snap.storages.len() ==> #[trigger] storage_from_resources(
            snap.storages[i],
            resources,
        ))
    &&& (forall|j: int|
        0 <= j < storages_of(resources).len() ==> #[trigger] storage_listed(
            snap.storages,
            storages_of(resources)[j],
        ))
}

/// A snapshot that describes the listings lists its guests in increasing
/// VM id order and its nodes and storages in name order, and pairs every
/// entry with a resource of its kind and every such resource with an
/// entry.
pub proof fn lemma_snapshot_entries(
    snap: ClusterSnapshotView,
    entries: Seq<ClusterStatusEntry>,
    resources: Seq<ClusterResource>,
)
    requires
        describes(snap, entries, resources),
    ensures
        lists_trace_to_resources(snap, resources),
{
    lemma_node_entries(snap.nodes, resources);
    lemma_guest_entries(snap.guests, resources);
    lemma_storage_entries(snap.storages, resources);
}

/// The number of resources of `s` for which `p` holds.
pub open spec fn count_where(s: Seq<ClusterResource>, p: spec_fn(ClusterResource) -> bool) -> nat
    decreases s.len(),
{
    if s.len() == 0 {
        0
    } else {
        count_where(s.drop_last(), p) + if p(s.last()) {
            1nat
        } else {
            0nat
        }
    }
}

proof fn lemma_filter_len_is_count(s: Seq<ClusterResource>, p: spec_fn(ClusterResource) -> bool)
    ensures
        s.filter(p).len() == count_where(s, p),
    decreases s.len(),
{
    reveal(Seq::filter);
    if s.len() > 0 {
        lemma_filter_len_is_count(s.drop_last(), p);
    }
}

/// What the snapshot's cluster fields, counts and cluster-wide shares are,
/// in terms of the listings: the cluster is the first status entry of kind
/// "cluster", quorate exactly when it reports quorate 1; the counts are
/// the numbers of node resources, of those "online", of "qemu" and "lxc"
/// resources, and of those "running"; CPU is the mean of the nodes' readings
/// in listing order; memory and storage use sum over nodes and storages.
pub proof fn lemma_snapshot_totals(
    snap: ClusterSnapshotView,
    entries: Seq<ClusterStatusEntry>,
    resources: Seq<ClusterResource>,
)
    requires
        describes(snap, entries, resources),
        totals_fit_spec(resources),
    ensures
        exists|c: int|
            0 <= c < entries.len() && entries[c].kind@ == "cluster"@ && (forall|j: int|
                0 <= j < c ==> #[trigger] entries[j].kind@ != "cluster"@) && snap.quorum == (
            entries[c].quorate == Some(1u8)) && snap.cluster_name == entries[c].name.deep_view(),
        snap.nodes_total == count_where(resources, |r: ClusterResource| r.kind@ == "node"@),
        snap.nodes_online == count_where(
            resources,
            |r: ClusterResource|
                r.kind@ == "node"@ && r.status is Some && r.status->0@ == "online"@,
        ),
        snap.guests_total == count_where(
            resources,
            |r: ClusterResource| r.kind@ == "qemu"@ || r.kind@ == "lxc"@,
        ),
        snap.guests_running == count_where(
            resources,
            |r: ClusterResource|
                (r.kind@ == "qemu"@ || r.kind@ == "lxc"@) && r.status is Some && r.status->0@
                    == "running"@,
        ),
        ({
            let samples = resources.filter(
                |r: ClusterResource| r.kind@ == "node"@ && r.cpu is Some,
            ).map_values(|r: ClusterResource| r.cpu->0);
            snap.cpu_fraction == if samples.len() > 0 {
                Some(ShareView::Mean { samples })
            } else {
                None
            }
        }),
        ({
            let used = total_by(
                resources,
                |r: ClusterResource|
                    if r.kind@ == "node"@ && r.mem is Some {
                        r.mem->0 as nat
                    } else {
                        0
                    },
            );
            let size = total_by(
                resources,
                |r: ClusterResource|
                    if r.kind@ == "node"@ && r.maxmem is Some {
                        r.maxmem->0 as nat
                    } else {
                        0
                    },
            );
            snap.memory_fraction == if size > 0 {
                Some(ShareView::Ratio { used: used as u64, total: size as u64 })
            } else {
                None
            }
        }),
        ({
            let used = total_by(
                resources,
                |r: ClusterResource|
                    if r.kind@ == "storage"@ && r.disk is Some {
                        r.disk->0 as nat
                    } else {
                        0
                    },
            );
            let size = total_by(
                resources,
                |r: ClusterResource|
                    if r.kind@ == "storage"@ && r.maxdisk is Some {
                        r.maxdisk->0 as nat
                    } else {
                        0
                    },
            );
            snap.storage_fraction == if size > 0 {
                Some(ShareView::Ratio { used: used as u64, total: size as u64 })
            } else {
                None
            }
        }),
{
    lemma_cluster_entry_first(entries);
    let p_node = |r: ClusterResource| r.kind@ == "node"@;
    let p_online = |r: ClusterResource|
        r.kind@ == "node"@ && r.status is Some && r.status->0@ == "online"@;
    let p_guest = |r: ClusterResource| r.kind@ == "qemu"@ || r.kind@ == "lxc"@;
    let p_running = |r: ClusterResource|
        (r.kind@ == "qemu"@ || r.kind@ == "lxc"@) && r.status is Some && r.status->0@
            == "running"@;
    let p_cpu = |r: ClusterResource| r.kind@ == "node"@ && r.cpu is Some;
    assert(node_pred() =~= p_node);
    assert(online_node_pred() =~= p_online);
    assert(guest_pred() =~= p_guest);
    assert(running_guest_pred() =~= p_running);
    assert(cpu_node_pred() =~= p_cpu);
    lemma_filter_len_is_count(resources, p_node);
    lemma_filter_len_is_count(resources, p_online);
    lemma_filter_len_is_count(resources, p_guest);
    lemma_filter_len_is_count(resources, p_running);
    let f_cpu = |r: ClusterResource| r.cpu->0;
    assert(cpu_reading_fn() =~= f_cpu);
    assert(node_mem_fn() =~= (|r: ClusterResource|
        if r.kind@ == "node"@ && r.mem is Some {
            r.mem->0 as nat
        } else {
            0
        }));
    assert(node_maxmem_fn() =~= (|r: ClusterResource|
        if r.kind@ == "node"@ && r.maxmem is Some {
            r.maxmem->0 as nat
        } else {
            0
        }));
    assert(storage_disk_fn() =~= (|r: ClusterResource|
        if r.kind@ == "storage"@ && r.disk is Some {
            r.disk->0 as nat
        } else {
            0
        }));
    assert(storage_maxdisk_fn() =~= (|r: ClusterResource|
        if r.kind@ == "storage"@ && r.maxdisk is Some {
            r.maxdisk->0 as nat
        } else {
            0
        }));
}

/// The entry `cluster_entry` finds is the first of kind "cluster".
proof fn lemma_cluster_entry_first(entries: Seq<ClusterStatusEntry>)
    ensures
        cluster_entry(entries) is Some ==> exists|c: int|
            0 <= c < entries.len() && entries[c].kind@ == "cluster"@ && (forall|j: int|
                0 <= j < c ==> #[trigger] entries[j].kind@ != "cluster"@) && cluster_entry(entries)
                == Some(entries[c]),
    decreases entries.len(),
{
    if entries.len() > 0 && entries[0].kind@ != "cluster"@ {
        let rest = entries.drop_first();
        lemma_cluster_entry_first(rest);
        if cluster_entry(rest) is Some {
            let c = choose|c: int|
                0 <= c < rest.len() && rest[c].kind@ == "cluster"@ && (forall|j: int|
                    0 <= j < c ==> #[trigger] rest[j].kind@ != "cluster"@) && cluster_entry(rest)
                    == Some(rest[c]);
            assert(entries[c + 1] == rest[c]);
            assert forall|j: int| 0 <= j < c + 1 implies #[trigger] entries[j].kind@ != "cluster"@ by {
                if j > 0 {
                    assert(entries[j] == rest[j - 1]);
                }
            }
        }
    }
}

/// Whether the cluster-wide memory and disk totals fit 64-bit counters.
pub fn totals_fit(resources: &Vec<ClusterResource>) -> (r: bool)
    ensures
        r == totals_fit_spec(resources@),
{
    let ghost s = resources@;
    proof {
        lemma_kinds_distinct();
    }
    let mut mem: u64 = 0;
    let mut maxmem: u64 = 0;
    let mut disk: u64 = 0;
    let mut maxdisk: u64 = 0;
    let mut i: usize = 0;
    assert(s.take(0) =~= Seq::<ClusterResource>::empty());
    while i < resources.len()
        invariant
            s == resources@,
            i <= s.len(),
            mem == total_by(s.take(i as int), node_mem_fn()),
            maxmem == total_by(s.take(i as int), node_maxmem_fn()),
            disk == total_by(s.take(i as int), storage_disk_fn()),
            maxdisk == total_by(s.take(i as int), storage_maxdisk_fn()),
        decreases s.len() - i,
    {
        let r = &resources[i];
        proof {
            lemma_total_take_step(s, i as int, node_mem_fn());
            lemma_total_take_step(s, i as int, node_maxmem_fn());
            lemma_total_take_step(s, i as int, storage_disk_fn());
            lemma_total_take_step(s, i as int, storage_maxdisk_fn());
            lemma_total_take_bounded(s, i + 1, node_mem_fn());
            lemma_total_take_bounded(s, i + 1, node_maxmem_fn());
            lemma_total_take_bounded(s, i + 1, storage_disk_fn());
            lemma_total_take_bounded(s, i + 1, storage_maxdisk_fn());
        }
        let is_node_kind = str_eq(r.kind.as_str(), "node");
        let is_storage_kind = str_eq(r.kind.as_str(), "storage");
        let add_mem: u64 = if is_node_kind {
            match r.mem {
                Some(v) => v,
                None => 0,
            }
        } else {
            0
        };
        let add_maxmem: u64 = if is_node_kind {
            match r.maxmem {
                Some(v) => v,
                None => 0,
            }
        } else {
            0
        };
        let add_disk: u64 = if is_storage_kind {
            match r.disk {
                Some(v) => v,
                None => 0,
            }
        } else {
            0
        };
        let add_maxdisk: u64 = if is_storage_kind {
            match r.maxdisk {
                Some(v) => v,
                None => 0,
            }
        } else {
            0
        };
        assert(r == s[i as int]);
        assert(node_mem_fn()(s[i as int]) == add_mem as nat);
        assert(node_maxmem_fn()(s[i as int]) == add_maxmem as nat);
        assert(storage_disk_fn()(s[i as int]) == add_disk as nat);
        assert(storage_maxdisk_fn()(s[i as int]) == add_maxdisk as nat);
        match mem.checked_add(add_mem) {
            Some(v) => {
                mem = v;
            },
            None => {
                return false;
            },
        }
        match maxmem.checked_add(add_maxmem) {
            Some(v) => {
                maxmem = v;
            },
            None => {
                return false;
            },
        }
        match disk.checked_add(add_disk) {
            Some(v) => {
                disk = v;
            },
            None => {
                return false;
            },
        }
        match maxdisk.checked_add(add_maxdisk) {
            Some(v) => {
                maxdisk = v;
            },
            None => {
                return false;
            },
        }
        i = i + 1;
    }
    assert(s.take(s.len() as int) =~= s);
    true
}

/// Adds up the cluster status and resource listings into a snapshot: the
/// cluster's name and quorum, node and guest counts, average CPU load,
/// memory and storage use, and the nodes (by name), guests (by VM id) and
/// storages (by name), each sorted stably. Fails when no status entry
/// describes the cluster itself.
pub fn build_snapshot(status_entries: Vec<ClusterStatusEntry>, resources: Vec<ClusterResource>) -> (res:
    Result<ClusterSnapshot, String>)
    requires
        totals_fit_spec(resources@),
    ensures
        match res {
            Ok(snap) => describes(snap.deep_view(), status_entries@, resources@)
                && lists_trace_to_resources(snap.deep_view(), resources@),
            Err(e) => cluster_entry(status_entries@) is None && e@ == "cluster status was missing"@,
        },
{
    let ghost entries = status_entries@;
    let mut ci: usize = 0;
    assert(entries.skip(0) =~= entries);
    while ci < status_entries.len() && !str_eq(status_entries[ci].kind.as_str(), "cluster")
        invariant
            entries == status_entries@,
            ci <= entries.len(),
            cluster_entry(entries) == cluster_entry(entries.skip(ci as int)),
        decreases entries.len() - ci,
    {
        assert(entries.skip(ci as int).drop_first() =~= entries.skip(ci + 1));
        ci = ci + 1;
    }
    if ci == status_entries.len() {
        assert(entries.skip(ci as int) =~= Seq::<ClusterStatusEntry>::empty());
        return Err(String::from_str("cluster status was missing"));
    }
    assert(entries.skip(ci as int)[0] == entries[ci as int]);
    let cluster = &status_entries[ci];
    let cluster_name = clone_text(&cluster.name);
    let quorum = match cluster.quorate {
        Some(q) => q == 1,
        None => false,
    };

    let ghost s = resources@;
    proof {
        lemma_kinds_distinct();
    }

    let mut nodes: Vec<NodeSummary> = Vec::new();
    let mut guests: Vec<GuestSummary> = Vec::new();
    let mut storages: Vec<StorageSummary> = Vec::new();
    let mut cpu_samples: Vec<u64> = Vec::new();
    let mut nodes_online: usize = 0;
    let mut nodes_total: usize = 0;
    let mut guests_running: usize = 0;
    let mut guests_total: usize = 0;
    let mut total_mem: u64 = 0;
    let mut total_max_mem: u64 = 0;
    let mut total_disk: u64 = 0;
    let mut total_max_disk: u64 = 0;

    let mut i: usize = 0;
    proof {
        let e = s.take(0);
        assert(e =~= Seq::<ClusterResource>::empty());
        reveal(Seq::filter);
        assert(nodes.deep_view() =~= e.filter(node_pred()).map_values(node_summary_fn()));
        assert(guests.deep_view() =~= e.filter(guest_pred()).map_values(guest_summary_fn()));
        assert(storages.deep_view() =~= e.filter(storage_pred()).map_values(storage_summary_fn()));
        assert(cpu_samples@ =~= e.filter(cpu_node_pred()).map_values(cpu_reading_fn()));
    }
    while i < resources.len()
        invariant
            s == resources@,
            i <= s.len(),
            nodes.deep_view() == s.take(i as int).filter(node_pred()).map_values(node_summary_fn()),
            guests.deep_view() == s.take(i as int).filter(guest_pred()).map_values(guest_summary_fn()),
            storages.deep_view() == s.take(i as int).filter(storage_pred()).map_values(
                storage_summary_fn(),
            ),
            cpu_samples@ == s.take(i as int).filter(cpu_node_pred()).map_values(cpu_reading_fn()),
            nodes_total == s.take(i as int).filter(node_pred()).len(),
            nodes_online == s.take(i as int).filter(online_node_pred()).len(),
            guests_total == s.take(i as int).filter(guest_pred()).len(),
            guests_running == s.take(i as int).filter(running_guest_pred()).len(),
            total_mem == total_by(s.take(i as int), node_mem_fn()),
            total_max_mem == total_by(s.take(i as int), node_maxmem_fn()),
            total_disk == total_by(s.take(i as int), storage_disk_fn()),
            total_max_disk == total_by(s.take(i as int), storage_maxdisk_fn()),
            totals_fit_spec(s),
            "node"@ != "qemu"@,
            "node"@ != "lxc"@,
            "node"@ != "storage"@,
            "qemu"@ != "storage"@,
            "lxc"@ != "storage"@,
        decreases s.len() - i,
    {
        let r = &resources[i];
        let ghost t = s.take(i as int);
        let ghost t1 = s.take(i + 1);
        proof {
            lemma_filter_take_step(s, i as int, node_pred());
            lemma_filter_take_step(s, i as int, online_node_pred());
            lemma_filter_take_step(s, i as int, guest_pred());
            lemma_filter_take_step(s, i as int, running_guest_pred());
            lemma_filter_take_step(s, i as int, storage_pred());
            lemma_filter_take_step(s, i as int, cpu_node_pred());
            lemma_total_take_step(s, i as int, node_mem_fn());
            lemma_total_take_step(s, i as int, node_maxmem_fn());
            lemma_total_take_step(s, i as int, storage_disk_fn());
            lemma_total_take_step(s, i as int, storage_maxdisk_fn());
            lemma_total_take_bounded(s, i + 1, node_mem_fn());
            lemma_total_take_bounded(s, i + 1, node_maxmem_fn());
            lemma_total_take_bounded(s, i + 1, storage_disk_fn());
            lemma_total_take_bounded(s, i + 1, storage_maxdisk_fn());
            t.lemma_filter_len(node_pred());
            t.lemma_filter_len(online_node_pred());
            t.lemma_filter_len(guest_pred());
            t.lemma_filter_len(running_guest_pred());
        }
        if str_eq(r.kind.as_str(), "node") {
            nodes_total = nodes_total + 1;
            let online = text_is_online(r);
            if online {
                nodes_online = nodes_online + 1;
            }
            assert(r == s[i as int]);
            assert(node_mem_fn()(s[i as int]) == amount(r.mem));
            assert(node_maxmem_fn()(s[i as int]) == amount(r.maxmem));
            assert(storage_disk_fn()(s[i as int]) == 0);
            assert(storage_maxdisk_fn()(s[i as int]) == 0);
            if let Some(bits) = r.cpu {
                assert(cpu_node_pred()(s[i as int]));
                assert(t1.filter(cpu_node_pred()) == t.filter(cpu_node_pred()).push(s[i as int]));
                cpu_samples.push(bits);
                assert(cpu_reading_fn()(s[i as int]) == bits);
                assert(cpu_samples@ =~= t1.filter(cpu_node_pred()).map_values(cpu_reading_fn()));
            } else {
                assert(cpu_samples@ =~= t1.filter(cpu_node_pred()).map_values(cpu_reading_fn()));
            }
            total_mem = total_mem + match r.mem {
                Some(v) => v,
                None => 0,
            };
            total_max_mem = total_max_mem + match r.maxmem {
                Some(v) => v,
                None => 0,
            };
            let ghost before = nodes.deep_view();
            let ghost before_seq = nodes@;
            let n = node_summary(r);
            nodes.push(n);
            assert(nodes.deep_view() =~= before.push(n.deep_view())) by {
                assert(nodes@ == before_seq.push(n));
            }
            assert(nodes.deep_view() =~= t1.filter(node_pred()).map_values(node_summary_fn()));
            assert(guests.deep_view() =~= t1.filter(guest_pred()).map_values(guest_summary_fn()));
            assert(storages.deep_view() =~= t1.filter(storage_pred()).map_values(storage_summary_fn()));
        } else if str_eq(r.kind.as_str(), "qemu") || str_eq(r.kind.as_str(), "lxc") {
            guests_total = guests_total + 1;
            if text_is_running(r) {
                guests_running = guests_running + 1;
            }
            let ghost before = guests.deep_view();
            let ghost before_seq = guests@;
            let g = guest_summary(r);
            guests.push(g);
            assert(guests.deep_view() =~= before.push(g.deep_view())) by {
                assert(guests@ == before_seq.push(g));
            }
            assert(nodes.deep_view() =~= t1.filter(node_pred()).map_values(node_summary_fn()));
            assert(guests.deep_view() =~= t1.filter(guest_pred()).map_values(guest_summary_fn()));
            assert(storages.deep_view() =~= t1.filter(storage_pred()).map_values(storage_summary_fn()));
            assert(cpu_samples@ =~= t1.filter(cpu_node_pred()).map_values(cpu_reading_fn()));
        } else if str_eq(r.kind.as_str(), "storage") {
            total_disk = total_disk + match r.disk {
                Some(v) => v,
                None => 0,
            };
            total_max_disk = total_max_disk + match r.maxdisk {
                Some(v) => v,
                None => 0,
            };
            let ghost before = storages.deep_view();
            let ghost before_seq = storages@;
            let st = storage_summary(r);
            storages.push(st);
            assert(storages.deep_view() =~= before.push(st.deep_view())) by {
                assert(storages@ == before_seq.push(st));
            }
            assert(nodes.deep_view() =~= t1.filter(node_pred()).map_values(node_summary_fn()));
            assert(guests.deep_view() =~= t1.filter(guest_pred()).map_values(guest_summary_fn()));
            assert(storages.deep_view() =~= t1.filter(storage_pred()).map_values(storage_summary_fn()));
            assert(cpu_samples@ =~= t1.filter(cpu_node_pred()).map_values(cpu_reading_fn()));
        } else {
            assert(nodes.deep_view() =~= t1.filter(node_pred()).map_values(node_summary_fn()));
            assert(guests.deep_view() =~= t1.filter(guest_pred()).map_values(guest_summary_fn()));
            assert(storages.deep_view() =~= t1.filter(storage_pred()).map_values(storage_summary_fn()));
            assert(cpu_samples@ =~= t1.filter(cpu_node_pred()).map_values(cpu_reading_fn()));
        }
        i = i + 1;
    }
    assert(s.take(s.len() as int) =~= s);

    let guests = stable_sort(guests);
    let nodes = stable_sort(nodes);
    let storages = stable_sort(storages);

    let cpu_fraction = if cpu_samples.len() > 0 {
        Some(Share::Mean { samples: cpu_samples })
    } else {
        None
    };
    let snap = ClusterSnapshot {
        cluster_name,
        quorum,
        nodes_online,
        nodes_total,
        guests_running,
        guests_total,
        cpu_fraction,
        memory_fraction: ratio(Some(total_mem), Some(total_max_mem)),
        storage_fraction: ratio(Some(total_disk), Some(total_max_disk)),
        nodes,
        guests,
        storages,
    };
    proof {
        lemma_snapshot_entries(snap.deep_view(), status_entries@, resources@);
    }
    Ok(snap)
}

/// Whether a resource reports the status "online".
fn text_is_online(r: &ClusterResource) -> (b: bool)
    ensures
        b == has_status(*r, "online"@),
{
    crate::resources::text_is(&r.status, "online")
}

/// Whether a resource reports the status "running".
fn text_is_running(r: &ClusterResource) -> (b: bool)
    ensures
        b == has_status(*r, "running"@),
{
    crate::resources::text_is(&r.status, "running")
}

/// `text` is "PVE ", the decimal digits of `running`, "/", and the decimal
/// digits of `total`, without leading zeros.
pub open spec fn reads_as_guest_counts(text: Seq<char>, running: nat, total: nat) -> bool {
    exists|a: Seq<char>, b: Seq<char>|
        {
            &&& text == "PVE "@ + a + "/"@ + b
            &&& a.len() > 0 && b.len() > 0
            &&& forall|i: int| 0 <= i < a.len() ==> is_digit(#[trigger] a[i])
            &&& forall|i: int| 0 <= i < b.len() ==> is_digit(#[trigger] b[i])
            &&& (a[0] == '0' ==> running == 0)
            &&& (b[0] == '0' ==> total == 0)
            &&& digits_value(a) == running
            &&& digits_value(b) == total
        }
}

/// While the cluster is quorate the panel label spells out the running and
/// total guest counts in full; otherwise it is "PVE warn".
pub proof fn lemma_panel_label_reads_back(snap: ClusterSnapshotView)
    ensures
        snap.quorum ==> reads_as_guest_counts(
            panel_label_of(snap),
            snap.guests_running,
            snap.guests_total,
        ),
        !snap.quorum ==> panel_label_of(snap) == "PVE warn"@,
{
    if snap.quorum {
        lemma_decimal_reads_back(snap.guests_running);
        lemma_decimal_reads_back(snap.guests_total);
        let a = decimal(snap.guests_running);
        let b = decimal(snap.guests_total);
        assert(panel_label_of(snap) == "PVE "@ + a + "/"@ + b);
    }
}

/// The panel's label for a snapshot: "PVE running/total" over the guests
/// while the cluster is quorate, "PVE warn" otherwise.
pub fn panel_label(snapshot: &ClusterSnapshot) -> (r: String)
    ensures
        r@ == panel_label_of(snapshot.deep_view()),
        snapshot.quorum ==> reads_as_guest_counts(
            r@,
            snapshot.guests_running as nat,
            snapshot.guests_total as nat,
        ),
        !snapshot.quorum ==> r@ == "PVE warn"@,
{
    proof {
        lemma_panel_label_reads_back(snapshot.deep_view());
    }
    if snapshot.quorum {
        let mut s = String::from_str("PVE ");
        s.append(decimal_string(snapshot.guests_running as u64).as_str());
        s.append("/");
        s.append(decimal_string(snapshot.guests_total as u64).as_str());
        s
    } else {
        String::from_str("PVE warn")
    }
}

} // verus!
