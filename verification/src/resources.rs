//! What the cluster API reports, and the per-resource summaries the applet
//! shows: nodes, guests (QEMU virtual machines and LXC containers) and
//! storages.

use vstd::prelude::*;
use crate::sort::Ranked;
use crate::text::{
    after_last_slash, decimal, decimal_string, last_path_segment, lemma_lex_le_total,
    lemma_lex_le_transitive, lex_le, str_eq, str_le,
};
use vstd::string::StringExecFns;

verus! {

/// A share of some capacity, kept exactly as the cluster reported it.
///
/// `Ratio` is `used / total` with `total > 0`; `Reading` is a fraction that
/// the cluster sent as an IEEE-754 double, carried as its bit pattern;
/// `Mean` is the arithmetic mean of such readings, taken in their order.
#[derive(Clone, Debug)]
pub enum Share {
    Ratio { used: u64, total: u64 },
    Reading { bits: u64 },
    Mean { samples: Vec<u64> },
}

/// The mathematical value of a [`Share`].
pub enum ShareView {
    Ratio { used: u64, total: u64 },
    Reading { bits: u64 },
    Mean { samples: Seq<u64> },
}

impl DeepView for Share {
    type V = ShareView;

    open spec fn deep_view(&self) -> ShareView {
        match self {
            Share::Ratio { used, total } => ShareView::Ratio { used: *used, total: *total },
            Share::Reading { bits } => ShareView::Reading { bits: *bits },
            Share::Mean { samples } => ShareView::Mean { samples: samples@ },
        }
    }
}

/// One entry of `/cluster/status`: the cluster itself, or one of its nodes.
pub struct ClusterStatusEntry {
    pub kind: String,
    pub name: Option<String>,
    pub quorate: Option<u8>,
}

/// One entry of `/cluster/resources`. `cpu` is the reported CPU load, a
/// fraction sent as a double and carried as its bit pattern.
pub struct ClusterResource {
    pub kind: String,
    pub id: Option<String>,
    pub node: Option<String>,
    pub name: Option<String>,
    pub status: Option<String>,
    pub vmid: Option<u64>,
    pub cpu: Option<u64>,
    pub mem: Option<u64>,
    pub maxmem: Option<u64>,
    pub disk: Option<u64>,
    pub maxdisk: Option<u64>,
}

/// One node of the cluster as the popup lists it.
#[derive(Clone, Debug)]
pub struct NodeSummary {
    pub name: String,
    pub online: bool,
    pub cpu_fraction: Option<Share>,
    pub memory_fraction: Option<Share>,
}

pub struct NodeSummaryView {
    pub name: Seq<char>,
    pub online: bool,
    pub cpu_fraction: Option<ShareView>,
    pub memory_fraction: Option<ShareView>,
}

impl DeepView for NodeSummary {
    type V = NodeSummaryView;

    open spec fn deep_view(&self) -> NodeSummaryView {
        NodeSummaryView {
            name: self.name@,
            online: self.online,
            cpu_fraction: self.cpu_fraction.deep_view(),
            memory_fraction: self.memory_fraction.deep_view(),
        }
    }
}

/// One guest (virtual machine or container) as the popup lists it.
#[derive(Clone, Debug)]
pub struct GuestSummary {
    pub vmid: u64,
    pub name: String,
    pub kind: String,
    pub status: String,
    pub node: Option<String>,
}

pub struct GuestSummaryView {
    pub vmid: u64,
    pub name: Seq<char>,
    pub kind: Seq<char>,
    pub status: Seq<char>,
    pub node: Option<Seq<char>>,
}

impl DeepView for GuestSummary {
    type V = GuestSummaryView;

    open spec fn deep_view(&self) -> GuestSummaryView {
        GuestSummaryView {
            vmid: self.vmid,
            name: self.name@,
            kind: self.kind@,
            status: self.status@,
            node: self.node.deep_view(),
        }
    }
}

/// One storage as the popup lists it.
#[derive(Clone, Debug)]
pub struct StorageSummary {
    pub name: String,
    pub node: Option<String>,
    pub used_fraction: Option<Share>,
}

pub struct StorageSummaryView {
    pub name: Seq<char>,
    pub node: Option<Seq<char>>,
    pub used_fraction: Option<ShareView>,
}

impl DeepView for StorageSummary {
    type V = StorageSummaryView;

    open spec fn deep_view(&self) -> StorageSummaryView {
        StorageSummaryView {
            name: self.name@,
            node: self.node.deep_view(),
            used_fraction: self.used_fraction.deep_view(),
        }
    }
}

/// Nodes sort by name.
impl Ranked for NodeSummary {
    open spec fn ranks_before(a: NodeSummaryView, b: NodeSummaryView) -> bool {
        lex_le(a.name, b.name)
    }

    proof fn lemma_ranks_total(a: NodeSummaryView, b: NodeSummaryView) {
        lemma_lex_le_total(a.name, b.name);
    }

    proof fn lemma_ranks_transitive(a: NodeSummaryView, b: NodeSummaryView, c: NodeSummaryView) {
        lemma_lex_le_transitive(a.name, b.name, c.name);
    }

    fn ranks_before_exec(&self, other: &Self) -> (r: bool) {
        str_le(self.name.as_str(), other.name.as_str())
    }
}

/// Guests sort by VM id.
impl Ranked for GuestSummary {
    open spec fn ranks_before(a: GuestSummaryView, b: GuestSummaryView) -> bool {
        a.vmid <= b.vmid
    }

    proof fn lemma_ranks_total(a: GuestSummaryView, b: GuestSummaryView) {
    }

    proof fn lemma_ranks_transitive(a: GuestSummaryView, b: GuestSummaryView, c: GuestSummaryView) {
    }

    fn ranks_before_exec(&self, other: &Self) -> (r: bool) {
        self.vmid <= other.vmid
    }
}

/// Storages sort by name.
impl Ranked for StorageSummary {
    open spec fn ranks_before(a: StorageSummaryView, b: StorageSummaryView) -> bool {
        lex_le(a.name, b.name)
    }

    proof fn lemma_ranks_total(a: StorageSummaryView, b: StorageSummaryView) {
        lemma_lex_le_total(a.name, b.name);
    }

    proof fn lemma_ranks_transitive(
        a: StorageSummaryView,
        b: StorageSummaryView,
        c: StorageSummaryView,
    ) {
        lemma_lex_le_transitive(a.name, b.name, c.name);
    }

    fn ranks_before_exec(&self, other: &Self) -> (r: bool) {
        str_le(self.name.as_str(), other.name.as_str())
    }
}

/// The resource is a cluster node.
pub open spec fn is_node(r: ClusterResource) -> bool {
    r.kind@ == "node"@
}

/// The resource is a guest: a QEMU virtual machine or an LXC container.
pub open spec fn is_guest(r: ClusterResource) -> bool {
    r.kind@ == "qemu"@ || r.kind@ == "lxc"@
}

/// The resource is a storage.
pub open spec fn is_storage(r: ClusterResource) -> bool {
    r.kind@ == "storage"@
}

/// The resource reports exactly the status `s`.
pub open spec fn has_status(r: ClusterResource, s: Seq<char>) -> bool {
    match r.status {
        Some(st) => st@ == s,
        None => false,
    }
}

/// `used / total` when both are known and `total` is not zero.
pub open spec fn ratio_of(used: Option<u64>, total: Option<u64>) -> Option<ShareView> {
    match (used, total) {
        (Some(u), Some(t)) => if t == 0 {
            None
        } else {
            Some(ShareView::Ratio { used: u, total: t })
        },
        _ => None,
    }
}

/// `Some(v)`'s view, or `default` for `None`.
pub open spec fn text_or(o: Option<String>, default: Seq<char>) -> Seq<char> {
    match o {
        Some(s) => s@,
        None => default,
    }
}

/// The name shown for a node: its node name, else its name, else its id,
/// else "unknown".
pub open spec fn node_name_of(r: ClusterResource) -> Seq<char> {
    match r.node {
        Some(n) => n@,
        None => match r.name {
            Some(n) => n@,
            None => text_or(r.id, "unknown"@),
        },
    }
}

/// What the popup shows of a node resource.
pub open spec fn node_summary_of(r: ClusterResource) -> NodeSummaryView {
    NodeSummaryView {
        name: node_name_of(r),
        online: has_status(r, "online"@),
        cpu_fraction: match r.cpu {
            Some(bits) => Some(ShareView::Reading { bits }),
            None => None,
        },
        memory_fraction: ratio_of(r.mem, r.maxmem),
    }
}

/// The VM id of a guest, zero when the cluster left it out.
pub open spec fn vmid_of(r: ClusterResource) -> u64 {
    match r.vmid {
        Some(v) => v,
        None => 0,
    }
}

/// The guest's kind in upper case.
pub open spec fn kind_label_of(r: ClusterResource) -> Seq<char> {
    if r.kind@ == "qemu"@ {
        "QEMU"@
    } else {
        "LXC"@
    }
}

/// What the popup shows of a guest resource; an unnamed guest is called by
/// its kind and VM id.
pub open spec fn guest_summary_of(r: ClusterResource) -> GuestSummaryView {
    GuestSummaryView {
        vmid: vmid_of(r),
        name: text_or(r.name, r.kind@ + " "@ + decimal(vmid_of(r) as nat)),
        kind: kind_label_of(r),
        status: text_or(r.status, "unknown"@),
        node: r.node.deep_view(),
    }
}

/// A storage's own name: the last `/`-separated part of its id, else its
/// name.
pub open spec fn storage_name_of(r: ClusterResource) -> Option<Seq<char>> {
    match r.id {
        Some(id) => Some(after_last_slash(id@)),
        None => r.name.deep_view(),
    }
}

/// What the popup shows of a storage resource.
pub open spec fn storage_summary_of(r: ClusterResource) -> StorageSummaryView {
    StorageSummaryView {
        name: match storage_name_of(r) {
            Some(n) => n,
            None => "storage"@,
        },
        node: r.node.deep_view(),
        used_fraction: ratio_of(r.disk, r.maxdisk),
    }
}

/// The four kinds the applet tells apart are different words.
pub proof fn lemma_kinds_distinct()
    ensures
        "node"@ != "qemu"@,
        "node"@ != "lxc"@,
        "node"@ != "storage"@,
        "qemu"@ != "lxc"@,
        "qemu"@ != "storage"@,
        "lxc"@ != "storage"@,
{
    reveal_strlit("node");
    reveal_strlit("qemu");
    reveal_strlit("lxc");
    reveal_strlit("storage");
    assert("node"@[0] != "qemu"@[0]);
    assert("node"@.len() != "lxc"@.len());
    assert("node"@.len() != "storage"@.len());
    assert("qemu"@.len() != "lxc"@.len());
    assert("qemu"@.len() != "storage"@.len());
    assert("lxc"@.len() != "storage"@.len());
}

/// A copy of an optional string.
pub fn clone_text(o: &Option<String>) -> (r: Option<String>)
    ensures
        r == *o,
{
    match o {
        Some(s) => Some(s.clone()),
        None => None,
    }
}

/// The copied string of `o`, or `default` when there is none.
pub fn text_or_default(o: &Option<String>, default: &str) -> (r: String)
    ensures
        r@ == text_or(*o, default@),
{
    match o {
        Some(s) => s.clone(),
        None => String::from_str(default),
    }
}

/// Whether `o` holds exactly the text `s`.
pub fn text_is(o: &Option<String>, s: &str) -> (r: bool)
    ensures
        r == match *o {
            Some(t) => t@ == s@,
            None => false,
        },
{
    match o {
        Some(t) => str_eq(t.as_str(), s),
        None => false,
    }
}

/// The share `used / total`, or `None` when either is unknown or `total`
/// is zero.
pub fn ratio(used: Option<u64>, total: Option<u64>) -> (r: Option<Share>)
    ensures
        r.deep_view() == ratio_of(used, total),
        r is Some <==> (used is Some && total is Some && total->0 != 0),
        r matches Some(Share::Ratio { used: u, total: t }) ==> used == Some(u) && total == Some(t),
        r matches Some(f) ==> f is Ratio,
{
    match (used, total) {
        (Some(u), Some(t)) => if t == 0 {
            None
        } else {
            Some(Share::Ratio { used: u, total: t })
        },
        _ => None,
    }
}

impl ClusterResource {
    /// The storage's own name: the part of its id after the last `/`,
    /// or its name when it has no id.
    pub fn storage_name(&self) -> (r: Option<String>)
        ensures
            r.deep_view() == storage_name_of(*self),
            self.id is Some ==> r is Some && r->0@ == after_last_slash(self.id->0@),
            self.id is None ==> r == self.name,
    {
        match &self.id {
            Some(id) => Some(last_path_segment(id.as_str())),
            None => clone_text(&self.name),
        }
    }
}

/// The summary of a node resource.
pub fn node_summary(r: &ClusterResource) -> (n: NodeSummary)
    ensures
        n.deep_view() == node_summary_of(*r),
{
    let name = match &r.node {
        Some(n) => n.clone(),
        None => match &r.name {
            Some(n) => n.clone(),
            None => text_or_default(&r.id, "unknown"),
        },
    };
    let cpu_fraction = match r.cpu {
        Some(bits) => Some(Share::Reading { bits }),
        None => None,
    };
    NodeSummary {
        name,
        online: text_is(&r.status, "online"),
        cpu_fraction,
        memory_fraction: ratio(r.mem, r.maxmem),
    }
}

/// The summary of a guest resource, which must be a QEMU machine or an LXC
/// container.
pub fn guest_summary(r: &ClusterResource) -> (g: GuestSummary)
    requires
        is_guest(*r),
    ensures
        g.deep_view() == guest_summary_of(*r),
{
    let vmid = match r.vmid {
        Some(v) => v,
        None => 0,
    };
    let name = match &r.name {
        Some(n) => n.clone(),
        None => {
            let mut s = r.kind.clone();
            s.append(" ");
            s.append(decimal_string(vmid).as_str());
            s
        },
    };
    let kind = if str_eq(r.kind.as_str(), "qemu") {
        String::from_str("QEMU")
    } else {
        String::from_str("LXC")
    };
    GuestSummary {
        vmid,
        name,
        kind,
        status: text_or_default(&r.status, "unknown"),
        node: clone_text(&r.node),
    }
}

/// The summary of a storage resource.
pub fn storage_summary(r: &ClusterResource) -> (s: StorageSummary)
    ensures
        s.deep_view() == storage_summary_of(*r),
{
    let name = match r.storage_name() {
        Some(n) => n,
        None => String::from_str("storage"),
    };
    StorageSummary { name, node: clone_text(&r.node), used_fraction: ratio(r.disk, r.maxdisk) }
}

} // verus!
