//! What the popup window says: a header, then the cluster, node, guest and
//! storage sections, line by line. Shares are left as shares; the window
//! renders each as a whole percentage.

use vstd::prelude::*;
use crate::resources::{
    GuestSummary, GuestSummaryView, NodeSummary, NodeSummaryView, Share, ShareView,
    StorageSummary, StorageSummaryView,
};
use crate::snapshot::{ClusterSnapshot, ClusterSnapshotView};
use crate::text::{
    decimal, decimal_string, digits_value, is_digit, lemma_decimal_reads_back,
};
use vstd::string::StringExecFns;

verus! {

/// How many guests the popup lists before it only counts the rest.
pub const GUESTS_SHOWN: usize = 8;

/// A piece of a row's value: text, or a share shown as a percentage.
pub enum Piece {
    Text(String),
    Percent(Share),
}

pub enum PieceView {
    Text(Seq<char>),
    Percent(ShareView),
}

impl DeepView for Piece {
    type V = PieceView;

    open spec fn deep_view(&self) -> PieceView {
        match self {
            Piece::Text(s) => PieceView::Text(s@),
            Piece::Percent(f) => PieceView::Percent(f.deep_view()),
        }
    }
}

/// One line of the popup: a divider, a section heading, a labelled row
/// whose value is the concatenation of its pieces, a small note, or a hint.
pub enum PopupLine {
    Divider,
    Heading(String),
    Row { label: String, value: Vec<Piece> },
    Note(String),
    Hint(String),
}

pub enum PopupLineView {
    Divider,
    Heading(Seq<char>),
    Row { label: Seq<char>, value: Seq<PieceView> },
    Note(Seq<char>),
    Hint(Seq<char>),
}

impl DeepView for PopupLine {
    type V = PopupLineView;

    open spec fn deep_view(&self) -> PopupLineView {
        match self {
            PopupLine::Divider => PopupLineView::Divider,
            PopupLine::Heading(s) => PopupLineView::Heading(s@),
            PopupLine::Row { label, value } => PopupLineView::Row {
                label: label@,
                value: value.deep_view(),
            },
            PopupLine::Note(s) => PopupLineView::Note(s@),
            PopupLine::Hint(s) => PopupLineView::Hint(s@),
        }
    }
}

/// The whole popup: a title, a subtitle, and the lines below them.
pub struct PopupContent {
    pub title: String,
    pub subtitle: String,
    pub lines: Vec<PopupLine>,
}

pub struct PopupContentView {
    pub title: Seq<char>,
    pub subtitle: Seq<char>,
    pub lines: Seq<PopupLineView>,
}

impl DeepView for PopupContent {
    type V = PopupContentView;

    open spec fn deep_view(&self) -> PopupContentView {
        PopupContentView {
            title: self.title@,
            subtitle: self.subtitle@,
            lines: self.lines.deep_view(),
        }
    }
}

/// `o`'s text, or `default` when there is none.
pub open spec fn or_text(o: Option<Seq<char>>, default: Seq<char>) -> Seq<char> {
    match o {
        Some(s) => s,
        None => default,
    }
}

/// A row holding a single share, when there is one.
pub open spec fn share_row_of(label: Seq<char>, share: Option<ShareView>) -> Seq<PopupLineView> {
    match share {
        Some(f) => seq![PopupLineView::Row { label, value: seq![PieceView::Percent(f)] }],
        None => Seq::empty(),
    }
}

/// `text` followed by a share, when there is one.
pub open spec fn labelled_share_of(text: Seq<char>, share: Option<ShareView>) -> Seq<PieceView> {
    match share {
        Some(f) => seq![PieceView::Text(text), PieceView::Percent(f)],
        None => Seq::empty(),
    }
}

/// A node's row: its name; online or offline, then its CPU and memory use.
pub open spec fn node_row_of(n: NodeSummaryView) -> PopupLineView {
    PopupLineView::Row {
        label: n.name,
        value: seq![
            PieceView::Text(
                if n.online {
                    "online"@
                } else {
                    "offline"@
                },
            ),
        ] + labelled_share_of("  cpu "@, n.cpu_fraction) + labelled_share_of(
            "  mem "@,
            n.memory_fraction,
        ),
    }
}

/// A guest's row: kind and VM id; name, status and node.
pub open spec fn guest_row_of(g: GuestSummaryView) -> PopupLineView {
    PopupLineView::Row {
        label: g.kind + " "@ + decimal(g.vmid as nat),
        value: seq![
            PieceView::Text(
                g.name + "  "@ + g.status + "  "@ + or_text(g.node, "unknown"@),
            ),
        ],
    }
}

/// A storage's row: its name; its use ("n/a" when unknown) and its node.
pub open spec fn storage_row_of(s: StorageSummaryView) -> PopupLineView {
    PopupLineView::Row {
        label: s.name,
        value: seq![
            match s.used_fraction {
                Some(f) => PieceView::Percent(f),
                None => PieceView::Text("n/a"@),
            },
            PieceView::Text("  "@ + or_text(s.node, "cluster"@)),
        ],
    }
}

pub open spec fn node_row_fn() -> spec_fn(NodeSummaryView) -> PopupLineView {
    |n: NodeSummaryView| node_row_of(n)
}

pub open spec fn guest_row_fn() -> spec_fn(GuestSummaryView) -> PopupLineView {
    |g: GuestSummaryView| guest_row_of(g)
}

pub open spec fn storage_row_fn() -> spec_fn(StorageSummaryView) -> PopupLineView {
    |s: StorageSummaryView| storage_row_of(s)
}

/// The cluster section: quorum, then CPU, memory and storage use where
/// known.
pub open spec fn cluster_lines_of(s: ClusterSnapshotView) -> Seq<PopupLineView> {
    seq![
        PopupLineView::Divider,
        PopupLineView::Heading("Cluster"@),
        PopupLineView::Row {
            label: "Quorum"@,
            value: seq![
                PieceView::Text(
                    if s.quorum {
                        "healthy"@
                    } else {
                        "degraded"@
                    },
                ),
            ],
        },
    ] + share_row_of("CPU"@, s.cpu_fraction) + share_row_of("Memory"@, s.memory_fraction)
        + share_row_of("Storage"@, s.storage_fraction)
}

/// The nodes section, absent when there are no nodes.
pub open spec fn node_lines_of(s: ClusterSnapshotView) -> Seq<PopupLineView> {
    if s.nodes.len() == 0 {
        Seq::empty()
    } else {
        seq![PopupLineView::Divider, PopupLineView::Heading("Nodes"@)] + s.nodes.map_values(
            node_row_fn(),
        )
    }
}

/// The number of guests listed one by one.
pub open spec fn guests_listed(n: nat) -> nat {
    if n < GUESTS_SHOWN {
        n
    } else {
        GUESTS_SHOWN as nat
    }
}

/// The guests section, absent when there are no guests: the first
/// `GUESTS_SHOWN` guests, then a note counting the others.
pub open spec fn guest_lines_of(s: ClusterSnapshotView) -> Seq<PopupLineView> {
    if s.guests.len() == 0 {
        Seq::empty()
    } else {
        seq![PopupLineView::Divider, PopupLineView::Heading("Guests"@)] + s.guests.take(
            guests_listed(s.guests.len()) as int,
        ).map_values(guest_row_fn()) + if s.guests.len() > GUESTS_SHOWN {
            seq![
                PopupLineView::Note(
                    decimal((s.guests.len() - GUESTS_SHOWN) as nat) + " more guests..."@,
                ),
            ]
        } else {
            Seq::empty()
        }
    }
}

/// The storage section, absent when there are no storages.
pub open spec fn storage_lines_of(s: ClusterSnapshotView) -> Seq<PopupLineView> {
    if s.storages.len() == 0 {
        Seq::empty()
    } else {
        seq![PopupLineView::Divider, PopupLineView::Heading("Storage"@)] + s.storages.map_values(
            storage_row_fn(),
        )
    }
}

/// The popup for the applet's current knowledge of the cluster: the
/// snapshot if there is one, else the last error, else a loading notice.
pub open spec fn popup_of(
    snapshot: Option<ClusterSnapshotView>,
    error: Option<Seq<char>>,
) -> PopupContentView {
    match snapshot {
        Some(s) => PopupContentView {
            title: or_text(s.cluster_name, "Proxmox Cluster"@),
            subtitle: "Nodes "@ + decimal(s.nodes_online) + "/"@ + decimal(s.nodes_total)
                + "  Guests "@ + decimal(s.guests_running) + "/"@ + decimal(s.guests_total),
            lines: cluster_lines_of(s) + node_lines_of(s) + guest_lines_of(s) + storage_lines_of(
                s,
            ),
        },
        None => PopupContentView {
            title: "ProxmoxBar"@,
            subtitle: match error {
                Some(e) => e,
                None => "Loading..."@,
            },
            lines: seq![
                PopupLineView::Divider,
                PopupLineView::Hint(
                    "Create ~/.config/cosmic-applet-proxmoxbar/config.toml to begin."@,
                ),
            ],
        },
    }
}

/// `line` is the row of node `n`: labelled with its name, reading
/// "online" or "offline", then "  cpu " and its CPU share if it has one,
/// then "  mem " and its memory share if it has one.
pub open spec fn node_row_reads(line: PopupLineView, n: NodeSummaryView) -> bool {
    &&& line is Row
    &&& line->Row_label == n.name
    &&& {
        let v = line->Row_value;
        &&& v.len() == 1 + (if n.cpu_fraction is Some {
            2int
        } else {
            0int
        }) + (if n.memory_fraction is Some {
            2int
        } else {
            0int
        })
        &&& v[0] == PieceView::Text(
            if n.online {
                "online"@
            } else {
                "offline"@
            },
        )
        &&& n.cpu_fraction is Some ==> v[1] == PieceView::Text("  cpu "@) && v[2]
            == PieceView::Percent(n.cpu_fraction->0)
        &&& n.memory_fraction is Some ==> v[v.len() - 2] == PieceView::Text("  mem "@) && v[v.len()
            - 1] == PieceView::Percent(n.memory_fraction->0)
    }
}

/// `line` is the row of guest `g`: labelled with its kind, a space and its
/// VM id in decimal; reading its name, status and node (else "unknown"),
/// two spaces apart.
pub open spec fn guest_row_reads(line: PopupLineView, g: GuestSummaryView) -> bool {
    &&& line is Row
    &&& line->Row_label == g.kind + " "@ + decimal(g.vmid as nat)
    &&& line->Row_value == seq![
        PieceView::Text(
            g.name + "  "@ + g.status + "  "@ + if g.node is Some {
                g.node->0
            } else {
                "unknown"@
            },
        ),
    ]
}

/// `line` is the row of storage `s`: labelled with its name; reading its
/// share (else "n/a"), then two spaces and its node (else "cluster").
pub open spec fn storage_row_reads(line: PopupLineView, s: StorageSummaryView) -> bool {
    &&& line is Row
    &&& line->Row_label == s.name
    &&& line->Row_value == seq![
        if s.used_fraction is Some {
            PieceView::Percent(s.used_fraction->0)
        } else {
            PieceView::Text("n/a"@)
        },
        PieceView::Text(
            "  "@ + if s.node is Some {
                s.node->0
            } else {
                "cluster"@
            },
        ),
    ]
}

/// Each node's row shows that node's own name, status, CPU share and
/// memory share, each share after its own label.
pub proof fn lemma_node_row_reads(n: NodeSummaryView)
    ensures
        node_row_reads(node_row_of(n), n),
{
    let v = node_row_of(n)->Row_value;
    let head = seq![
        PieceView::Text(
            if n.online {
                "online"@
            } else {
                "offline"@
            },
        ),
    ];
    let c = labelled_share_of("  cpu "@, n.cpu_fraction);
    let m = labelled_share_of("  mem "@, n.memory_fraction);
    assert(v == head + c + m);
    assert(v[0] == head[0]);
    if n.cpu_fraction is Some {
        assert(v[1] == c[0]);
        assert(v[2] == c[1]);
    }
    if n.memory_fraction is Some {
        assert(v[v.len() - 2] == m[0]);
        assert(v[v.len() - 1] == m[1]);
    }
}

/// Each guest's row shows that guest's kind, VM id, name, status and node.
pub proof fn lemma_guest_row_reads(g: GuestSummaryView)
    ensures
        guest_row_reads(guest_row_of(g), g),
{
}

/// Each storage's row shows that storage's name, share and node.
pub proof fn lemma_storage_row_reads(s: StorageSummaryView)
    ensures
        storage_row_reads(storage_row_of(s), s),
{
    assert(storage_row_of(s)->Row_value =~= seq![
        if s.used_fraction is Some {
            PieceView::Percent(s.used_fraction->0)
        } else {
            PieceView::Text("n/a"@)
        },
        PieceView::Text(
            "  "@ + if s.node is Some {
                s.node->0
            } else {
                "cluster"@
            },
        ),
    ]);
}

/// In the popup for a snapshot, after each section's divider and heading,
/// the i-th row is the row of the snapshot's i-th node, guest or storage.
pub proof fn lemma_section_rows(s: ClusterSnapshotView)
    ensures
        forall|i: int|
            0 <= i < s.nodes.len() ==> node_row_reads(
                #[trigger] node_lines_of(s)[i + 2],
                s.nodes[i],
            ),
        forall|i: int|
            0 <= i < guests_listed(s.guests.len()) ==> guest_row_reads(
                #[trigger] guest_lines_of(s)[i + 2],
                s.guests[i],
            ),
        forall|i: int|
            0 <= i < s.storages.len() ==> storage_row_reads(
                #[trigger] storage_lines_of(s)[i + 2],
                s.storages[i],
            ),
{
    assert forall|i: int| 0 <= i < s.nodes.len() implies node_row_reads(
        #[trigger] node_lines_of(s)[i + 2],
        s.nodes[i],
    ) by {
        lemma_node_row_reads(s.nodes[i]);
    }
    assert forall|i: int| 0 <= i < guests_listed(s.guests.len()) implies guest_row_reads(
        #[trigger] guest_lines_of(s)[i + 2],
        s.guests[i],
    ) by {
        lemma_guest_row_reads(s.guests[i]);
    }
    assert forall|i: int| 0 <= i < s.storages.len() implies storage_row_reads(
        #[trigger] storage_lines_of(s)[i + 2],
        s.storages[i],
    ) by {
        lemma_storage_row_reads(s.storages[i]);
    }
}

/// `text` writes the number `n` in decimal digits, without leading zeros.
pub open spec fn writes_number(text: Seq<char>, n: nat) -> bool {
    &&& text.len() > 0
    &&& forall|i: int| 0 <= i < text.len() ==> is_digit(#[trigger] text[i])
    &&& (text[0] == '0' ==> n == 0)
    &&& digits_value(text) == n
}

/// The popup's header: for a snapshot, the cluster's name (else "Proxmox
/// Cluster") over "Nodes online/total  Guests running/total" with each
/// count written out in full; without one, "ProxmoxBar" over the last error
/// (else "Loading...").
pub proof fn lemma_popup_header(snapshot: Option<ClusterSnapshotView>, error: Option<Seq<char>>)
    ensures
        snapshot is Some ==> ({
            let s = snapshot->0;
            let p = popup_of(snapshot, error);
            &&& p.title == if s.cluster_name is Some {
                s.cluster_name->0
            } else {
                "Proxmox Cluster"@
            }
            &&& exists|a: Seq<char>, b: Seq<char>, c: Seq<char>, d: Seq<char>|
                {
                    &&& p.subtitle == "Nodes "@ + a + "/"@ + b + "  Guests "@ + c + "/"@ + d
                    &&& writes_number(a, s.nodes_online)
                    &&& writes_number(b, s.nodes_total)
                    &&& writes_number(c, s.guests_running)
                    &&& writes_number(d, s.guests_total)
                }
        }),
        snapshot is None ==> popup_of(snapshot, error).title == "ProxmoxBar"@,
        snapshot is None && error is Some ==> popup_of(snapshot, error).subtitle == error->0,
        snapshot is None && error is None ==> popup_of(snapshot, error).subtitle == "Loading..."@,
{
    if snapshot is Some {
        let s = snapshot->0;
        lemma_decimal_reads_back(s.nodes_online);
        lemma_decimal_reads_back(s.nodes_total);
        lemma_decimal_reads_back(s.guests_running);
        lemma_decimal_reads_back(s.guests_total);
        let a = decimal(s.nodes_online);
        let b = decimal(s.nodes_total);
        let c = decimal(s.guests_running);
        let d = decimal(s.guests_total);
        assert(popup_of(snapshot, error).subtitle == "Nodes "@ + a + "/"@ + b + "  Guests "@ + c
            + "/"@ + d);
        assert(writes_number(a, s.nodes_online));
        assert(writes_number(b, s.nodes_total));
        assert(writes_number(c, s.guests_running));
        assert(writes_number(d, s.guests_total));
    }
}

/// The cluster section: a divider, the heading "Cluster", the quorum row
/// ("healthy" exactly when quorate), then one row for each share the
/// snapshot has, in the order CPU, memory, storage, each holding its own
/// share.
pub proof fn lemma_cluster_lines(s: ClusterSnapshotView)
    ensures
        ({
            let l = cluster_lines_of(s);
            let has_cpu: int = if s.cpu_fraction is Some {
                1
            } else {
                0
            };
            let has_mem: int = if s.memory_fraction is Some {
                1
            } else {
                0
            };
            let has_disk: int = if s.storage_fraction is Some {
                1
            } else {
                0
            };
            &&& l.len() == 3 + has_cpu + has_mem + has_disk
            &&& l[0] == PopupLineView::Divider
            &&& l[1] == PopupLineView::Heading("Cluster"@)
            &&& l[2] == PopupLineView::Row {
                label: "Quorum"@,
                value: seq![
                    PieceView::Text(
                        if s.quorum {
                            "healthy"@
                        } else {
                            "degraded"@
                        },
                    ),
                ],
            }
            &&& s.cpu_fraction is Some ==> l[3] == PopupLineView::Row {
                label: "CPU"@,
                value: seq![PieceView::Percent(s.cpu_fraction->0)],
            }
            &&& s.memory_fraction is Some ==> l[3 + has_cpu] == PopupLineView::Row {
                label: "Memory"@,
                value: seq![PieceView::Percent(s.memory_fraction->0)],
            }
            &&& s.storage_fraction is Some ==> l[3 + has_cpu + has_mem] == PopupLineView::Row {
                label: "Storage"@,
                value: seq![PieceView::Percent(s.storage_fraction->0)],
            }
        }),
{
    let head = seq![
        PopupLineView::Divider,
        PopupLineView::Heading("Cluster"@),
        PopupLineView::Row {
            label: "Quorum"@,
            value: seq![
                PieceView::Text(
                    if s.quorum {
                        "healthy"@
                    } else {
                        "degraded"@
                    },
                ),
            ],
        },
    ];
    let c = share_row_of("CPU"@, s.cpu_fraction);
    let m = share_row_of("Memory"@, s.memory_fraction);
    let d = share_row_of("Storage"@, s.storage_fraction);
    let l = cluster_lines_of(s);
    assert(l == head + c + m + d);
    assert(l[0] == head[0]);
    assert(l[1] == head[1]);
    assert(l[2] == head[2]);
    if s.cpu_fraction is Some {
        assert(l[3] == c[0]);
    }
    if s.memory_fraction is Some {
        assert(l[3 + c.len() as int] == m[0]);
    }
    if s.storage_fraction is Some {
        assert(l[3 + c.len() as int + m.len() as int] == d[0]);
    }
}

/// Some line of `lines` is the row of node `n`.
pub open spec fn shows_node(lines: Seq<PopupLineView>, n: NodeSummaryView) -> bool {
    exists|k: int| 0 <= k < lines.len() && #[trigger] node_row_reads(lines[k], n)
}

/// Some line of `lines` is the row of guest `g`.
pub open spec fn shows_guest(lines: Seq<PopupLineView>, g: GuestSummaryView) -> bool {
    exists|k: int| 0 <= k < lines.len() && #[trigger] guest_row_reads(lines[k], g)
}

/// Some line of `lines` is the row of storage `st`.
pub open spec fn shows_storage(lines: Seq<PopupLineView>, st: StorageSummaryView) -> bool {
    exists|k: int| 0 <= k < lines.len() && #[trigger] storage_row_reads(lines[k], st)
}

/// The popup for a snapshot has a row for every node, for each of the
/// first guests it lists, and for every storage, each showing that item.
pub proof fn lemma_popup_rows_cover_snapshot(s: ClusterSnapshotView, error: Option<Seq<char>>)
    ensures
        forall|i: int|
            0 <= i < s.nodes.len() ==> #[trigger] shows_node(
                popup_of(Some(s), error).lines,
                s.nodes[i],
            ),
        forall|i: int|
            0 <= i < guests_listed(s.guests.len()) ==> #[trigger] shows_guest(
                popup_of(Some(s), error).lines,
                s.guests[i],
            ),
        forall|i: int|
            0 <= i < s.storages.len() ==> #[trigger] shows_storage(
                popup_of(Some(s), error).lines,
                s.storages[i],
            ),
{
    let l = popup_of(Some(s), error).lines;
    let c = cluster_lines_of(s);
    let n = node_lines_of(s);
    let g = guest_lines_of(s);
    let st = storage_lines_of(s);
    assert(l == c + n + g + st);
    lemma_section_rows(s);
    assert forall|i: int| 0 <= i < s.nodes.len() implies #[trigger] shows_node(l, s.nodes[i]) by {
        let k = c.len() + 2 + i;
        assert(l[k] == n[i + 2]);
        assert(node_row_reads(l[k], s.nodes[i]));
    }
    assert forall|i: int|
        0 <= i < guests_listed(s.guests.len()) implies #[trigger] shows_guest(l, s.guests[i]) by {
        let k = c.len() + n.len() + 2 + i;
        assert(l[k] == g[i + 2]);
        assert(guest_row_reads(l[k], s.guests[i]));
    }
    assert forall|i: int| 0 <= i < s.storages.len() implies #[trigger] shows_storage(
        l,
        s.storages[i],
    ) by {
        let k = c.len() + n.len() + g.len() + 2 + i;
        assert(l[k] == st[i + 2]);
        assert(storage_row_reads(l[k], s.storages[i]));
    }
}

/// The guests section lists at most `GUESTS_SHOWN` guests one by one, and
/// adds a note exactly when there are more.
pub proof fn lemma_guest_lines_capped(s: ClusterSnapshotView)
    ensures
        s.guests.len() == 0 ==> guest_lines_of(s).len() == 0,
        s.guests.len() > 0 ==> guest_lines_of(s).len() == 2 + guests_listed(s.guests.len()) + if s.guests.len()
            > GUESTS_SHOWN {
            1int
        } else {
            0int
        },
        guests_listed(s.guests.len()) <= GUESTS_SHOWN,
        guests_listed(s.guests.len()) <= s.guests.len(),
        GUESTS_SHOWN == 8,
        guests_listed(s.guests.len()) == if s.guests.len() < 8 {
            s.guests.len()
        } else {
            8
        },
        s.guests.len() > 8 ==> ({
            let l = guest_lines_of(s);
            exists|k: Seq<char>|
                l[l.len() - 1] == PopupLineView::Note(k + " more guests..."@) && writes_number(
                    k,
                    (s.guests.len() - 8) as nat,
                )
        }),
{
    if s.guests.len() > 8 {
        let k = decimal((s.guests.len() - 8) as nat);
        lemma_decimal_reads_back((s.guests.len() - 8) as nat);
        let l = guest_lines_of(s);
        assert(l[l.len() - 1] == PopupLineView::Note(k + " more guests..."@));
        assert(writes_number(k, (s.guests.len() - 8) as nat));
    }
}

/// A copy of a share.
pub fn copy_share(s: &Share) -> (r: Share)
    ensures
        r.deep_view() == s.deep_view(),
{
    match s {
        Share::Ratio { used, total } => Share::Ratio { used: *used, total: *total },
        Share::Reading { bits } => Share::Reading { bits: *bits },
        Share::Mean { samples } => {
            let mut copy: Vec<u64> = Vec::new();
            let mut i: usize = 0;
            while i < samples.len()
                invariant
                    i <= samples.len(),
                    copy@ == samples@.take(i as int),
                decreases samples.len() - i,
            {
                copy.push(samples[i]);
                i = i + 1;
                assert(copy@ =~= samples@.take(i as int));
            }
            assert(samples@.take(samples.len() as int) =~= samples@);
            Share::Mean { samples: copy }
        },
    }
}

/// A copy of an optional share.
fn copy_opt_share(s: &Option<Share>) -> (r: Option<Share>)
    ensures
        r.deep_view() == s.deep_view(),
{
    match s {
        Some(f) => Some(copy_share(f)),
        None => None,
    }
}

/// Appends `text` and the share to `pieces`, when there is a share.
fn push_labelled_share(pieces: &mut Vec<Piece>, text: &str, share: &Option<Share>)
    ensures
        final(pieces).deep_view() == old(pieces).deep_view() + labelled_share_of(
            text@,
            share.deep_view(),
        ),
{
    let ghost before = pieces.deep_view();
    match share {
        Some(f) => {
            let ghost s0 = pieces@;
            let t = Piece::Text(String::from_str(text));
            let p = Piece::Percent(copy_share(f));
            pieces.push(t);
            pieces.push(p);
            assert(pieces@ == s0.push(t).push(p));
            assert(pieces.deep_view() =~= before + labelled_share_of(text@, share.deep_view()));
        },
        None => {
            assert(pieces.deep_view() =~= before + labelled_share_of(text@, share.deep_view()));
        },
    }
}

/// A node's row.
pub fn node_row(n: &NodeSummary) -> (line: PopupLine)
    ensures
        line.deep_view() == node_row_of(n.deep_view()),
        node_row_reads(line.deep_view(), n.deep_view()),
{
    proof {
        lemma_node_row_reads(n.deep_view());
    }
    let mut value: Vec<Piece> = Vec::new();
    let status = if n.online {
        String::from_str("online")
    } else {
        String::from_str("offline")
    };
    let first = Piece::Text(status);
    value.push(first);
    assert(value.deep_view() =~= seq![first.deep_view()]);
    push_labelled_share(&mut value, "  cpu ", &n.cpu_fraction);
    push_labelled_share(&mut value, "  mem ", &n.memory_fraction);
    PopupLine::Row { label: n.name.clone(), value }
}

/// `o`'s text, or `default` when there is none.
fn copy_or(o: &Option<String>, default: &str) -> (r: String)
    ensures
        r@ == or_text(o.deep_view(), default@),
{
    match o {
        Some(s) => s.clone(),
        None => String::from_str(default),
    }
}

/// A guest's row.
pub fn guest_row(g: &GuestSummary) -> (line: PopupLine)
    ensures
        line.deep_view() == guest_row_of(g.deep_view()),
        guest_row_reads(line.deep_view(), g.deep_view()),
{
    proof {
        lemma_guest_row_reads(g.deep_view());
    }
    let mut label = g.kind.clone();
    label.append(" ");
    label.append(decimal_string(g.vmid).as_str());
    let mut text = g.name.clone();
    text.append("  ");
    text.append(g.status.as_str());
    text.append("  ");
    text.append(copy_or(&g.node, "unknown").as_str());
    let mut value: Vec<Piece> = Vec::new();
    let p = Piece::Text(text);
    value.push(p);
    assert(value.deep_view() =~= seq![p.deep_view()]);
    PopupLine::Row { label, value }
}

/// A storage's row.
pub fn storage_row(s: &StorageSummary) -> (line: PopupLine)
    ensures
        line.deep_view() == storage_row_of(s.deep_view()),
        storage_row_reads(line.deep_view(), s.deep_view()),
{
    proof {
        lemma_storage_row_reads(s.deep_view());
    }
    let usage = match &s.used_fraction {
        Some(f) => Piece::Percent(copy_share(f)),
        None => Piece::Text(String::from_str("n/a")),
    };
    let mut where_text = String::from_str("  ");
    where_text.append(copy_or(&s.node, "cluster").as_str());
    let place = Piece::Text(where_text);
    let mut value: Vec<Piece> = Vec::new();
    value.push(usage);
    value.push(place);
    let ghost sv = s.deep_view();
    assert(storage_row_of(sv)->Row_value =~= value.deep_view());
    let line = PopupLine::Row { label: s.name.clone(), value };
    line
}

/// Appends a line to `lines`.
fn push_line(lines: &mut Vec<PopupLine>, line: PopupLine)
    ensures
        final(lines).deep_view() == old(lines).deep_view().push(line.deep_view()),
{
    let ghost before = lines@;
    lines.push(line);
    assert(lines@ == before.push(line));
    assert(lines.deep_view() =~= old(lines).deep_view().push(line.deep_view()));
}

/// Appends a row holding a single share, when there is one.
fn push_share_row(lines: &mut Vec<PopupLine>, label: &str, share: &Option<Share>)
    ensures
        final(lines).deep_view() == old(lines).deep_view() + share_row_of(
            label@,
            share.deep_view(),
        ),
{
    let ghost before = lines.deep_view();
    match share {
        Some(f) => {
            let mut value: Vec<Piece> = Vec::new();
            let p = Piece::Percent(copy_share(f));
            value.push(p);
            assert(value.deep_view() =~= seq![p.deep_view()]);
            push_line(lines, PopupLine::Row { label: String::from_str(label), value });
            assert(lines.deep_view() =~= before + share_row_of(label@, share.deep_view()));
        },
        None => {
            assert(lines.deep_view() =~= before + share_row_of(label@, share.deep_view()));
        },
    }
}

/// The lines of the cluster section.
pub fn cluster_lines(s: &ClusterSnapshot) -> (lines: Vec<PopupLine>)
    ensures
        lines.deep_view() == cluster_lines_of(s.deep_view()),
{
    let mut lines: Vec<PopupLine> = Vec::new();
    push_line(&mut lines, PopupLine::Divider);
    push_line(&mut lines, PopupLine::Heading(String::from_str("Cluster")));
    let mut value: Vec<Piece> = Vec::new();
    let q = Piece::Text(
        if s.quorum {
            String::from_str("healthy")
        } else {
            String::from_str("degraded")
        },
    );
    value.push(q);
    assert(value.deep_view() =~= seq![q.deep_view()]);
    push_line(&mut lines, PopupLine::Row { label: String::from_str("Quorum"), value });
    push_share_row(&mut lines, "CPU", &s.cpu_fraction);
    push_share_row(&mut lines, "Memory", &s.memory_fraction);
    push_share_row(&mut lines, "Storage", &s.storage_fraction);
    assert(lines.deep_view() =~= cluster_lines_of(s.deep_view()));
    lines
}

/// The lines of the nodes section.
pub fn node_lines(s: &ClusterSnapshot) -> (lines: Vec<PopupLine>)
    ensures
        lines.deep_view() == node_lines_of(s.deep_view()),
{
    let mut lines: Vec<PopupLine> = Vec::new();
    if s.nodes.len() == 0 {
        assert(lines.deep_view() =~= node_lines_of(s.deep_view()));
        return lines;
    }
    push_line(&mut lines, PopupLine::Divider);
    push_line(&mut lines, PopupLine::Heading(String::from_str("Nodes")));
    let ghost head = lines.deep_view();
    let ghost nv = s.nodes.deep_view();
    let mut j: usize = 0;
    while j < s.nodes.len()
        invariant
            j <= s.nodes.len(),
            nv == s.nodes.deep_view(),
            lines.deep_view() == head + nv.take(j as int).map_values(node_row_fn()),
        decreases s.nodes.len() - j,
    {
        let line = node_row(&s.nodes[j]);
        push_line(&mut lines, line);
        assert(nv[j as int] == s.nodes@[j as int].deep_view());
        assert(lines.deep_view() =~= head + nv.take(j + 1).map_values(node_row_fn()));
        j = j + 1;
    }
    assert(nv.take(nv.len() as int) =~= nv);
    lines
}

/// The lines of the guests section.
pub fn guest_lines(s: &ClusterSnapshot) -> (lines: Vec<PopupLine>)
    ensures
        lines.deep_view() == guest_lines_of(s.deep_view()),
{
    let mut lines: Vec<PopupLine> = Vec::new();
    let n = s.guests.len();
    if n == 0 {
        assert(lines.deep_view() =~= guest_lines_of(s.deep_view()));
        return lines;
    }
    push_line(&mut lines, PopupLine::Divider);
    push_line(&mut lines, PopupLine::Heading(String::from_str("Guests")));
    let ghost head = lines.deep_view();
    let ghost gv = s.guests.deep_view();
    let shown = if n < GUESTS_SHOWN {
        n
    } else {
        GUESTS_SHOWN
    };
    let mut j: usize = 0;
    while j < shown
        invariant
            j <= shown,
            shown <= n,
            n == s.guests.len(),
            gv == s.guests.deep_view(),
            lines.deep_view() == head + gv.take(j as int).map_values(guest_row_fn()),
        decreases shown - j,
    {
        let line = guest_row(&s.guests[j]);
        push_line(&mut lines, line);
        assert(gv[j as int] == s.guests@[j as int].deep_view());
        assert(lines.deep_view() =~= head + gv.take(j + 1).map_values(guest_row_fn()));
        j = j + 1;
    }
    if n > GUESTS_SHOWN {
        let mut note = decimal_string((n - GUESTS_SHOWN) as u64);
        note.append(" more guests...");
        push_line(&mut lines, PopupLine::Note(note));
    }
    assert(lines.deep_view() =~= guest_lines_of(s.deep_view()));
    lines
}

/// The lines of the storage section.
pub fn storage_lines(s: &ClusterSnapshot) -> (lines: Vec<PopupLine>)
    ensures
        lines.deep_view() == storage_lines_of(s.deep_view()),
{
    let mut lines: Vec<PopupLine> = Vec::new();
    if s.storages.len() == 0 {
        assert(lines.deep_view() =~= storage_lines_of(s.deep_view()));
        return lines;
    }
    push_line(&mut lines, PopupLine::Divider);
    push_line(&mut lines, PopupLine::Heading(String::from_str("Storage")));
    let ghost head = lines.deep_view();
    let ghost sv = s.storages.deep_view();
    let mut j: usize = 0;
    while j < s.storages.len()
        invariant
            j <= s.storages.len(),
            sv == s.storages.deep_view(),
            lines.deep_view() == head + sv.take(j as int).map_values(storage_row_fn()),
        decreases s.storages.len() - j,
    {
        let line = storage_row(&s.storages[j]);
        push_line(&mut lines, line);
        assert(sv[j as int] == s.storages@[j as int].deep_view());
        assert(lines.deep_view() =~= head + sv.take(j + 1).map_values(storage_row_fn()));
        j = j + 1;
    }
    assert(sv.take(sv.len() as int) =~= sv);
    lines
}

/// Appends all of `tail` to `lines`.
fn append_lines(lines: &mut Vec<PopupLine>, tail: Vec<PopupLine>)
    ensures
        final(lines).deep_view() == old(lines).deep_view() + tail.deep_view(),
{
    let ghost a = lines@;
    let ghost b = tail@;
    let mut tail = tail;
    lines.append(&mut tail);
    assert(lines@ == a + b);
    assert(lines.deep_view() =~= old(lines).deep_view() + Seq::new(
        b.len(),
        |i: int| b[i].deep_view(),
    ));
}

/// The popup for a snapshot, if there is one, and the last error.
pub fn popup_content(snapshot: &Option<ClusterSnapshot>, error: &Option<String>) -> (p:
    PopupContent)
    ensures
        p.deep_view() == popup_of(snapshot.deep_view(), error.deep_view()),
{
    match snapshot {
        Some(s) => {
            let title = copy_or(&s.cluster_name, "Proxmox Cluster");
            let mut subtitle = String::from_str("Nodes ");
            subtitle.append(decimal_string(s.nodes_online as u64).as_str());
            subtitle.append("/");
            subtitle.append(decimal_string(s.nodes_total as u64).as_str());
            subtitle.append("  Guests ");
            subtitle.append(decimal_string(s.guests_running as u64).as_str());
            subtitle.append("/");
            subtitle.append(decimal_string(s.guests_total as u64).as_str());
            let mut lines = cluster_lines(s);
            append_lines(&mut lines, node_lines(s));
            append_lines(&mut lines, guest_lines(s));
            append_lines(&mut lines, storage_lines(s));
            PopupContent { title, subtitle, lines }
        },
        None => {
            let subtitle = match error {
                Some(e) => e.clone(),
                None => String::from_str("Loading..."),
            };
            let mut lines: Vec<PopupLine> = Vec::new();
            push_line(&mut lines, PopupLine::Divider);
            push_line(
                &mut lines,
                PopupLine::Hint(
                    String::from_str(
                        "Create ~/.config/cosmic-applet-proxmoxbar/config.toml to begin.",
                    ),
                ),
            );
            assert(lines.deep_view() =~= seq![
                PopupLineView::Divider,
                PopupLineView::Hint(
                    "Create ~/.config/cosmic-applet-proxmoxbar/config.toml to begin."@,
                ),
            ]);
            PopupContent { title: String::from_str("ProxmoxBar"), subtitle, lines }
        },
    }
}

} // verus!
