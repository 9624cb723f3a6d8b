//! The filesystem tree, kept flat: each node under the key of its path
//! ("/dev/ram0"), the root being the empty key. Every ancestor of a node is
//! a directory, and every node knows its own name (the last component).

use vstd::prelude::*;
use vstd::string::*;
use vstd::multiset::Multiset;
use vstd::utf8::{encode_utf8, is_ascii_chars};
use crate::arith::{inc, add_len, add_count, wrapping_inc, wrapping_sum, count_plus};
use crate::fs::manifest::{Capability, DeviceManifest, has_cap, manifest_valid};
use crate::fs::path::{check_path, path_error, path_key, SLASH};
use crate::fs::table::{PathMap, bytes_lt, is_under, lemma_lex_irreflexive, lemma_lex_prefix, lemma_lex_total, lemma_lex_transitive, lex_lt};
use crate::ipc::{ComponentId, IntentMessage, Priority};
use crate::ipc::bus::{CognitiveBus, publish, BUS_CAPACITY};

verus! {

/// Errors of filesystem operations.
#[derive(Debug, Clone, Copy, PartialEq, Eq, Structural)]
pub enum VfsError {
    /// Write on a device without the write capability.
    ReadOnlyDevice,
    NotFound,
    /// Nothing at the path written to.
    DeviceNotMounted,
    /// A component is "." or starts with "..".
    PathTraversal,
    /// The path holds a NUL byte.
    NullByteInjection,
    /// Empty, relative, too long, "//", or a byte outside the allowed set.
    InvalidPath,
    CapacityExceeded,
    InvalidManifest,
    BusError,
    PermissionDenied,
}

/// A node of the tree (a directory's children are the nodes under its key).
pub enum VfsNode {
    File(Vec<u8>),
    Directory,
    Device { manifest: DeviceManifest, data: Vec<u8> },
}

/// Operation counters (each wraps on overflow).
#[derive(Clone, Copy)]
pub struct VfsMetrics {
    pub total_nodes: usize,
    pub total_bytes_written: u64,
    pub total_bytes_read: u64,
    pub operations_count: u64,
    pub errors_count: u64,
    pub security_violations: u64,
    pub bus_errors: u64,
}

/// A copy of the counters for reporting.
#[derive(Clone, Copy)]
pub struct MetricsSnapshot {
    pub total_nodes: usize,
    pub total_bytes_written: u64,
    pub total_bytes_read: u64,
    pub operations_count: u64,
    pub errors_count: u64,
    pub security_violations: u64,
    pub bus_errors: u64,
}

/// A stored node with its name.
pub struct VfsEntry {
    pub name: String,
    pub node: VfsNode,
}

/// Intent identifiers of filesystem events on the cognitive bus.
pub const VFS_MOUNT: u32 = 0x4001;
pub const VFS_WRITE: u32 = 0x4002;
pub const VFS_READ: u32 = 0x4003;
pub const VFS_SECURITY_VIOLATION: u32 = 0x4010;

/// `name` is the last component of key `k`, in ASCII.
pub open spec fn names_last_component(k: Seq<u8>, name: Seq<char>) -> bool {
    let n = name.len() as int;
    &&& k.len() > n
    &&& k[k.len() - n - 1] == SLASH
    &&& forall|i: int|
        0 <= i < n ==> (#[trigger] name[i]) <= '\u{7f}' && name[i] as u8 == k[k.len() - n + i] && k[k.len() - n + i]
            != SLASH
}

/// Every proper prefix of `k` that ends before a slash is a directory of `m`.
pub open spec fn ancestors_are_dirs(m: Map<Seq<u8>, VfsEntry>, k: Seq<u8>) -> bool {
    forall|j: int|
        0 < j < k.len() && k[j] == SLASH ==> m.contains_key(#[trigger] k.subrange(0, j)) && m[k.subrange(0, j)].node is Directory
}

/// The stored entries are a well-formed tree.
pub open spec fn tree_wf(m: Map<Seq<u8>, VfsEntry>) -> bool {
    forall|k: Seq<u8>| #[trigger] m.contains_key(k) ==> names_last_component(k, m[k].name@) && ancestors_are_dirs(m, k)
}

/// The filesystem: its nodes and counters.
pub struct Vfs {
    nodes: PathMap<VfsEntry>,
    metrics: VfsMetrics,
}

impl View for Vfs {
    type V = Map<Seq<u8>, VfsNode>;

    closed spec fn view(&self) -> Map<Seq<u8>, VfsNode> {
        self.nodes@.map_values(|e: VfsEntry| e.node)
    }
}

/// Counters with every field zero.
pub open spec fn zero_metrics() -> VfsMetrics {
    VfsMetrics {
        total_nodes: 0,
        total_bytes_written: 0,
        total_bytes_read: 0,
        operations_count: 0,
        errors_count: 0,
        security_violations: 0,
        bus_errors: 0,
    }
}

impl Vfs {
    #[verifier::type_invariant]
    spec fn inv(self) -> bool {
        tree_wf(self.nodes@)
    }

    /// The counters.
    pub closed spec fn counters(&self) -> VfsMetrics {
        self.metrics
    }

    /// Names of the stored nodes, by key.
    pub closed spec fn names(&self) -> Map<Seq<u8>, Seq<char>> {
        self.nodes@.map_values(|e: VfsEntry| e.name@)
    }

    /// An empty filesystem (no node besides the root) with zero counters.
    pub fn new() -> (v: Self)
        ensures
            v@ == Map::<Seq<u8>, VfsNode>::empty(),
            v.names() == Map::<Seq<u8>, Seq<char>>::empty(),
            v.counters() == zero_metrics(),
    {
        let v = Vfs {
            nodes: PathMap::new(),
            metrics: VfsMetrics {
                total_nodes: 0,
                total_bytes_written: 0,
                total_bytes_read: 0,
                operations_count: 0,
                errors_count: 0,
                security_violations: 0,
                bus_errors: 0,
            },
        };
        assert(v@ =~= Map::<Seq<u8>, VfsNode>::empty());
        assert(v.names() =~= Map::<Seq<u8>, Seq<char>>::empty());
        v
    }
}

/// A snapshot of the counters.
pub fn get_metrics(vfs: &Vfs) -> (s: MetricsSnapshot)
    ensures
        s.total_nodes == vfs.counters().total_nodes,
        s.total_bytes_written == vfs.counters().total_bytes_written,
        s.total_bytes_read == vfs.counters().total_bytes_read,
        s.operations_count == vfs.counters().operations_count,
        s.errors_count == vfs.counters().errors_count,
        s.security_violations == vfs.counters().security_violations,
        s.bus_errors == vfs.counters().bus_errors,
{
    let m = vfs.metrics;
    MetricsSnapshot {
        total_nodes: m.total_nodes,
        total_bytes_written: m.total_bytes_written,
        total_bytes_read: m.total_bytes_read,
        operations_count: m.operations_count,
        errors_count: m.errors_count,
        security_violations: m.security_violations,
        bus_errors: m.bus_errors,
    }
}

/// Counters after path validation produced `r`: NUL bytes and traversal
/// attempts count as security violations.
pub open spec fn after_validation(m: VfsMetrics, r: Option<VfsError>) -> VfsMetrics {
    if r == Some(VfsError::NullByteInjection) || r == Some(VfsError::PathTraversal) {
        VfsMetrics { security_violations: wrapping_inc(m.security_violations), ..m }
    } else {
        m
    }
}

/// Validates a path (see `path_error`), counting security violations.
fn validate_path(metrics: &mut VfsMetrics, path: &str) -> (r: Result<(), VfsError>)
    ensures
        r is Ok <==> path_error(path.spec_bytes(), is_ascii(path)) is None,
        r matches Err(e) ==> path_error(path.spec_bytes(), is_ascii(path)) == Some(e),
        *final(metrics) == after_validation(*old(metrics), path_error(path.spec_bytes(), is_ascii(path))),
{
    let r = check_path(path);
    match r {
        Err(VfsError::NullByteInjection) | Err(VfsError::PathTraversal) => {
            metrics.security_violations = inc(metrics.security_violations);
        },
        _ => {},
    }
    r
}

/// The bus message announcing a filesystem event at time `now`.
pub open spec fn fs_event(intent_id: u32, payload: u64, now: u64) -> IntentMessage {
    IntentMessage {
        source: ComponentId::Filesystem,
        destination: ComponentId::Orchestrator,
        intent_id,
        priority: if intent_id == VFS_SECURITY_VIOLATION { Priority::Critical } else { Priority::Normal },
        payload,
        timestamp: now,
    }
}

/// `nb` and `nm` are the bus and counters after publishing `msg` on `ob`
/// with counters `om`: a full bus drops it and counts a bus error.
pub open spec fn published(ob: Multiset<IntentMessage>, nb: Multiset<IntentMessage>, om: VfsMetrics, nm: VfsMetrics, msg: IntentMessage) -> bool {
    if ob.len() >= BUS_CAPACITY {
        nb == ob && nm == VfsMetrics { bus_errors: wrapping_inc(om.bus_errors), ..om }
    } else {
        nb == ob.insert(msg) && nm == om
    }
}

/// Publishes a filesystem event; a failure is counted, not returned.
fn bus_publish_event(bus: &mut CognitiveBus, metrics: &mut VfsMetrics, now: u64, intent_id: u32, payload: u64)
    ensures
        published(old(bus)@, final(bus)@, *old(metrics), *final(metrics), fs_event(intent_id, payload, now)),
{
    let priority = if intent_id == VFS_SECURITY_VIOLATION { Priority::Critical } else { Priority::Normal };
    let msg = IntentMessage::new(ComponentId::Filesystem, ComponentId::Orchestrator, intent_id, priority, payload, now);
    match publish(bus, msg) {
        Ok(_) => {},
        Err(_) => {
            metrics.bus_errors = inc(metrics.bus_errors);
        },
    }
}

} // verus!

verus! {

/// Counters after one more operation.
pub open spec fn counted_op(m: VfsMetrics) -> VfsMetrics {
    VfsMetrics { operations_count: wrapping_inc(m.operations_count), ..m }
}

/// Counters after one more error.
pub open spec fn counted_error(m: VfsMetrics) -> VfsMetrics {
    VfsMetrics { errors_count: wrapping_inc(m.errors_count), ..m }
}

/// Counters after one more security violation and error.
pub open spec fn counted_violation(m: VfsMetrics) -> VfsMetrics {
    VfsMetrics {
        security_violations: wrapping_inc(m.security_violations),
        errors_count: wrapping_inc(m.errors_count),
        ..m
    }
}

/// `k` is a proper prefix of `key` that ends before one of its slashes: a
/// directory on the way to `key`.
pub open spec fn on_the_way(key: Seq<u8>, k: Seq<u8>) -> bool {
    exists|j: int| 0 < j < key.len() && key[j] == SLASH && k == #[trigger] key.subrange(0, j)
}

/// The key of a path's node, as bytes.
fn key_of(b: &[u8]) -> (k: &[u8])
    ensures
        k@ == path_key(b@),
{
    if b.len() > 0 && b[b.len() - 1] == SLASH {
        let k = &b[0..b.len() - 1];
        assert(k@ =~= b@.drop_last());
        k
    } else {
        b
    }
}

proof fn lemma_prefix_under(d: Seq<u8>, k: Seq<u8>, j: int)
    requires
        0 < j < k.len(),
        is_under(d, k.subrange(0, j)),
    ensures
        is_under(d, k),
{
    assert(k.subrange(0, j).subrange(0, d.len() as int) =~= k.subrange(0, d.len() as int));
}

/// Stores `e` under `key` (replacing what was there), and drops every node
/// below `key`.
fn place(nodes: &mut PathMap<VfsEntry>, key: &[u8], e: VfsEntry)
    requires
        tree_wf(old(nodes)@),
        names_last_component(key@, e.name@),
        ancestors_are_dirs(old(nodes)@, key@),
    ensures
        tree_wf(final(nodes)@),
        forall|k: Seq<u8>| #[trigger] final(nodes)@.contains_key(k) <==> k == key@ || (old(nodes)@.contains_key(k) && !is_under(key@, k)),
        final(nodes)@[key@] == e,
        forall|k: Seq<u8>| #[trigger] final(nodes)@.contains_key(k) && k != key@ ==> final(nodes)@[k] == old(nodes)@[k],
{
    let ghost old_m = nodes@;
    match nodes.find(key) {
        Some(i) => {
            nodes.replace_value(i, e);
        },
        None => {
            let mut kv: Vec<u8> = Vec::new();
            crate::net::wire::push_bytes(&mut kv, key);
            assert(kv@ =~= key@);
            nodes.push(kv, e);
        },
    }
    let ghost mid = nodes@;
    assert(mid == old_m.insert(key@, e));
    nodes.remove_under(key);
    proof {
        let m = nodes@;
        assert(!is_under(key@, key@));
        assert(mid.contains_key(key@));
        assert(m.contains_key(key@));
        assert(m[key@] == mid[key@]);
        assert forall|k: Seq<u8>| #[trigger] m.contains_key(k) implies names_last_component(k, m[k].name@) && ancestors_are_dirs(m, k) by {
            assert(mid.contains_key(k) && !is_under(key@, k));
            assert forall|j: int| 0 < j < k.len() && k[j] == SLASH implies m.contains_key(#[trigger] k.subrange(0, j)) && m[k.subrange(0, j)].node is Directory by {
                let p = k.subrange(0, j);
                if k == key@ {
                    assert(old_m.contains_key(p) && old_m[p].node is Directory);
                    assert(p.len() < key@.len());
                    assert(p != key@);
                    assert(!is_under(key@, p));
                } else {
                    assert(old_m.contains_key(k));
                    assert(ancestors_are_dirs(old_m, k));
                    assert(old_m.contains_key(p) && old_m[p].node is Directory);
                    if p == key@ {
                        assert(k.subrange(0, key@.len() as int) =~= key@);
                        assert(is_under(key@, k));
                        assert(false);
                    }
                    if is_under(key@, p) {
                        lemma_prefix_under(key@, k, j);
                        assert(false);
                    }
                }
                assert(mid.contains_key(p) && mid[p].node is Directory);
                assert(m.contains_key(p));
                assert(m[p] == mid[p]);
            }
            if k != key@ {
                assert(old_m.contains_key(k));
                assert(m[k] == mid[k]);
            }
        }
    }
}

/// Counters after `init`: two more nodes.
pub open spec fn after_init(m: VfsMetrics) -> VfsMetrics {
    VfsMetrics { total_nodes: count_plus(m.total_nodes, 2), ..m }
}

fn named_dir(key: Vec<u8>, name: &str) -> (r: (Vec<u8>, VfsEntry))
    requires
        names_last_component(key@, name@),
    ensures
        r.0@ == key@,
        r.1.name@ == name@,
        r.1.node is Directory,
{
    (key, VfsEntry { name: name.to_owned(), node: VfsNode::Directory })
}

/// The key of /dev.
pub open spec fn dev_key() -> Seq<u8> {
    seq![0x2Fu8, 0x64u8, 0x65u8, 0x76u8]
}

/// The key of /tmp.
pub open spec fn tmp_key() -> Seq<u8> {
    seq![0x2Fu8, 0x74u8, 0x6Du8, 0x70u8]
}

/// Creates the /dev and /tmp directories (emptying them if they existed).
pub fn init(vfs: &mut Vfs) -> (r: Result<(), VfsError>)
    ensures
        r is Ok,
        forall|k: Seq<u8>| #[trigger] final(vfs)@.contains_key(k) <==> k == dev_key() || k == tmp_key() || (
            old(vfs)@.contains_key(k) && !is_under(dev_key(), k) && !is_under(tmp_key(), k)),
        final(vfs)@[dev_key()] is Directory,
        final(vfs)@[tmp_key()] is Directory,
        forall|k: Seq<u8>| #[trigger] final(vfs)@.contains_key(k) && k != dev_key() && k != tmp_key() ==> final(vfs)@[k] == old(vfs)@[k],
        final(vfs).counters() == after_init(old(vfs).counters()),
{
    proof {
        use_type_invariant(&*vfs);
    }
    let ghost old_m = vfs.nodes@;
    let mut nodes = PathMap::new();
    std::mem::swap(&mut nodes, &mut vfs.nodes);
    let dev: Vec<u8> = vec![0x2F, 0x64, 0x65, 0x76];
    let tmp: Vec<u8> = vec![0x2F, 0x74, 0x6D, 0x70];
    proof {
        reveal_strlit("dev");
        reveal_strlit("tmp");
        assert(dev@ =~= dev_key());
        assert(tmp@ =~= tmp_key());
        assert(names_last_component(dev@, "dev"@));
        assert(names_last_component(tmp@, "tmp"@));
    }
    let (dev, dev_entry) = named_dir(dev, "dev");
    place(&mut nodes, dev.as_slice(), dev_entry);
    let ghost m1 = nodes@;
    let (tmp, tmp_entry) = named_dir(tmp, "tmp");
    proof {
        assert(!is_under(dev_key(), tmp_key()));
    }
    place(&mut nodes, tmp.as_slice(), tmp_entry);
    proof {
        assert(!is_under(tmp_key(), dev_key()));
        assert(nodes@.contains_key(dev_key()));
    }
    vfs.nodes = nodes;
    vfs.metrics.total_nodes = add_count(vfs.metrics.total_nodes, 2);
    proof {
        assert forall|k: Seq<u8>| #[trigger] vfs@.contains_key(k) <==> k == dev_key() || k == tmp_key() || (
            old(vfs)@.contains_key(k) && !is_under(dev_key(), k) && !is_under(tmp_key(), k)) by {
        }
    }
    Ok(())
}

} // verus!

verus! {

/// Some directory position on the way to `key` holds a node that is not a
/// directory.
pub open spec fn way_blocked(m: Map<Seq<u8>, VfsNode>, key: Seq<u8>) -> bool {
    exists|j: int|
        0 < j < key.len() && key[j] == SLASH && m.contains_key(#[trigger] key.subrange(0, j)) && !(m[key.subrange(0, j)] is Directory)
}

/// `n` is the tree `o` after mounting a device with `manifest` under `key`:
/// the missing directories on the way are created, the device replaces
/// what was under `key`, and whatever lay below `key` is gone.
pub open spec fn mounted(o: Map<Seq<u8>, VfsNode>, n: Map<Seq<u8>, VfsNode>, key: Seq<u8>, manifest: DeviceManifest) -> bool {
    &&& forall|k: Seq<u8>| #[trigger] n.contains_key(k) <==> k == key || on_the_way(key, k) || (o.contains_key(k) && !is_under(key, k))
    &&& n[key] matches VfsNode::Device { manifest: m, data } && m == manifest && data@.len() == 0
    &&& forall|k: Seq<u8>| on_the_way(key, k) ==> #[trigger] n[k] is Directory
    &&& forall|k: Seq<u8>| #[trigger] n.contains_key(k) && k != key && !on_the_way(key, k) ==> n[k] == o[k]
}

/// Mounts a device described by `manifest` at `path`, announcing it on the
/// bus (time `now`). Fails on an invalid path (see `path_error`), an invalid
/// manifest, the root path, or a non-directory on the way; the tree is then
/// unchanged.
pub fn mount_device(vfs: &mut Vfs, bus: &mut CognitiveBus, now: u64, path: &str, manifest: DeviceManifest) -> (r: Result<(), VfsError>)
    ensures
        ({
            let b = path.spec_bytes();
            let pe = path_error(b, is_ascii(path));
            let key = path_key(b);
            let m0 = after_validation(counted_op(old(vfs).counters()), pe);
            &&& pe is Some ==> r == Err::<(), VfsError>(pe->0) && final(vfs)@ == old(vfs)@ && final(vfs).counters() == m0
                && final(bus)@ == old(bus)@
            &&& pe is None && !manifest_valid(manifest) ==> r == Err::<(), VfsError>(VfsError::InvalidManifest)
                && final(vfs)@ == old(vfs)@ && final(vfs).counters() == counted_error(m0) && final(bus)@ == old(bus)@
            &&& pe is None && manifest_valid(manifest) && key.len() == 0 ==> r == Err::<(), VfsError>(VfsError::InvalidPath)
                && final(vfs)@ == old(vfs)@ && final(vfs).counters() == m0 && final(bus)@ == old(bus)@
            &&& pe is None && manifest_valid(manifest) && key.len() > 0 && way_blocked(old(vfs)@, key) ==> r
                == Err::<(), VfsError>(VfsError::InvalidPath) && final(vfs)@ == old(vfs)@ && final(vfs).counters()
                == counted_error(m0) && final(bus)@ == old(bus)@
            &&& pe is None && manifest_valid(manifest) && key.len() > 0 && !way_blocked(old(vfs)@, key) ==> r is Ok
                && mounted(old(vfs)@, final(vfs)@, key, manifest) && published(old(bus)@, final(bus)@,
                VfsMetrics { total_nodes: count_plus(m0.total_nodes, 1), ..m0 }, final(vfs).counters(),
                fs_event(VFS_MOUNT, manifest.capacity as u64, now))
        }),
{
    proof {
        use_type_invariant(&*vfs);
        vstd::string::is_ascii_spec_bytes(path);
    }
    vfs.metrics.operations_count = inc(vfs.metrics.operations_count);
    let mut metrics = vfs.metrics;
    let checked = validate_path(&mut metrics, path);
    vfs.metrics = metrics;
    checked?;
    if !manifest.validate() {
        vfs.metrics.errors_count = inc(vfs.metrics.errors_count);
        return Err(VfsError::InvalidManifest);
    }
    let b = path.as_bytes();
    let key = key_of(b);
    if key.len() == 0 {
        return Err(VfsError::InvalidPath);
    }
    let ghost old_m = vfs.nodes@;
    let ghost old_view = vfs@;
    let ghost metrics_before = vfs.metrics;
    let mut nodes = PathMap::new();
    std::mem::swap(&mut nodes, &mut vfs.nodes);
    let mut start: usize = 1;
    let mut j: usize = 1;
    while j < key.len()
        invariant
            1 <= start <= j <= key@.len(),
            key@ == path_key(b@),
            b@ == path.spec_bytes(),
            is_ascii(path),
            b@ =~= Seq::new(path@.len(), |i: int| path@[i] as u8),
            key@.len() <= b@.len(),
            key@ == b@.subrange(0, key@.len() as int),
            key@[0] == SLASH,
            key@[start - 1] == SLASH,
            forall|i: int| start <= i < j ==> key@[i] != SLASH,
            tree_wf(old_m),
            tree_wf(nodes@),
            forall|k: Seq<u8>| #[trigger] nodes@.contains_key(k) <==> old_m.contains_key(k) || (exists|i: int|
                0 < i < j && key@[i] == SLASH && k == #[trigger] key@.subrange(0, i)),
            forall|k: Seq<u8>| #[trigger] old_m.contains_key(k) ==> nodes@[k] == old_m[k],
            forall|i: int| 0 < i < j && key@[i] == SLASH ==> nodes@.contains_key(#[trigger] key@.subrange(0, i))
                && nodes@[key@.subrange(0, i)].node is Directory,
            forall|i: int| 0 < i < j && key@[i] == SLASH ==> !old_m.contains_key(#[trigger] key@.subrange(0, i))
                || old_m[key@.subrange(0, i)].node is Directory,
            vfs.nodes@ == Map::<Seq<u8>, VfsEntry>::empty(),
            old_m == old(vfs).nodes@,
            vfs.metrics == metrics_before,
            bus@ == old(bus)@,
            path_error(path.spec_bytes(), is_ascii(path)) is None,
            manifest_valid(manifest),
            metrics_before == counted_op(old(vfs).counters()),
        decreases key@.len() - j,
    {
        if key[j] == SLASH {
            let prefix = &key[0..j];
            assert(prefix@ =~= key@.subrange(0, j as int));
            match nodes.find(prefix) {
                Some(i) => {
                    let is_dir = match &nodes.value_at(i).node {
                        VfsNode::Directory => true,
                        _ => false,
                    };
                    if !is_dir {
                        proof {
                            let p = key@.subrange(0, j as int);
                            assert(old_m.contains_key(p));
                            assert(ancestors_are_dirs(old_m, p));
                            assert forall|k: Seq<u8>| #[trigger] nodes@.contains_key(k) implies old_m.contains_key(k) by {
                                if !old_m.contains_key(k) {
                                    let i = choose|i: int| 0 < i < j && key@[i] == SLASH && k == #[trigger] key@.subrange(0, i);
                                    assert(p.subrange(0, i) =~= k);
                                }
                            }
                            assert(nodes@ =~= old_m);
                            assert(old(vfs)@.contains_key(p));
                            assert(old(vfs)@[p] == old_m[p].node);
                            assert(way_blocked(old(vfs)@, key@));
                        }
                        vfs.nodes = nodes;
                        vfs.metrics.errors_count = inc(vfs.metrics.errors_count);
                        proof {
                            assert(vfs.nodes@ == old(vfs).nodes@);
                        }
                        return Err(VfsError::InvalidPath);
                    }
                },
                None => {
                    let name = path.substring_ascii(start, j);
                    let mut kv: Vec<u8> = Vec::new();
                    crate::net::wire::push_bytes(&mut kv, prefix);
                    proof {
                        assert(kv@ =~= key@.subrange(0, j as int));
                        assert(names_last_component(kv@, name@));
                    }
                    let ghost before = nodes@;
                    nodes.push(kv, VfsEntry { name: name.to_owned(), node: VfsNode::Directory });
                    proof {
                        let m = nodes@;
                        assert forall|k: Seq<u8>| #[trigger] m.contains_key(k) implies names_last_component(k, m[k].name@) && ancestors_are_dirs(m, k) by {
                            if k == prefix@ {
                                assert forall|jj: int| 0 < jj < k.len() && k[jj] == SLASH implies m.contains_key(#[trigger] k.subrange(0, jj)) && m[k.subrange(0, jj)].node is Directory by {
                                    assert(k.subrange(0, jj) =~= key@.subrange(0, jj));
                                }
                            } else {
                                assert(before.contains_key(k));
                                assert forall|jj: int| 0 < jj < k.len() && k[jj] == SLASH implies m.contains_key(#[trigger] k.subrange(0, jj)) && m[k.subrange(0, jj)].node is Directory by {
                                    assert(before.contains_key(k.subrange(0, jj)));
                                }
                            }
                        }
                    }
                },
            }
            start = j + 1;
        }
        j += 1;
    }
    let name = path.substring_ascii(start, key.len());
    proof {
        assert(names_last_component(key@, name@));
        assert(!way_blocked(old_view, key@)) by {
            assert forall|i: int| 0 < i < key@.len() && key@[i] == SLASH implies !(old_view.contains_key(#[trigger] key@.subrange(0, i)) && !(old_view[key@.subrange(0, i)] is Directory)) by {
                if old_view.contains_key(key@.subrange(0, i)) {
                    assert(old_m.contains_key(key@.subrange(0, i)));
                }
            }
        }
    }
    let capacity = manifest.capacity;
    let ghost before = nodes@;
    place(&mut nodes, key, VfsEntry { name: name.to_owned(), node: VfsNode::Device { manifest, data: Vec::new() } });
    vfs.nodes = nodes;
    vfs.metrics.total_nodes = add_count(vfs.metrics.total_nodes, 1);
    proof {
        let n = vfs@;
        assert forall|k: Seq<u8>| #[trigger] n.contains_key(k) <==> k == key@ || on_the_way(key@, k) || (old_view.contains_key(k) && !is_under(key@, k)) by {
            if on_the_way(key@, k) {
                let i = choose|i: int| 0 < i < key@.len() && key@[i] == SLASH && k == #[trigger] key@.subrange(0, i);
                assert(before.contains_key(k));
                assert(k.len() < key@.len());
                assert(!is_under(key@, k));
            }
            if before.contains_key(k) && !old_m.contains_key(k) {
                let i = choose|i: int| 0 < i < key@.len() && key@[i] == SLASH && k == #[trigger] key@.subrange(0, i);
                assert(on_the_way(key@, k));
            }
        }
        assert forall|k: Seq<u8>| on_the_way(key@, k) implies #[trigger] n[k] is Directory by {
            let i = choose|i: int| 0 < i < key@.len() && key@[i] == SLASH && k == #[trigger] key@.subrange(0, i);
            assert(before.contains_key(k));
            assert(k.len() < key@.len());
            assert(!is_under(key@, k));
            assert(nodes@.contains_key(k));
        }
        assert forall|k: Seq<u8>| #[trigger] n.contains_key(k) && k != key@ && !on_the_way(key@, k) implies n[k] == old_view[k] by {
            assert(vfs.nodes@.contains_key(k));
            if !old_m.contains_key(k) {
                let i = choose|i: int| 0 < i < key@.len() && key@[i] == SLASH && k == #[trigger] key@.subrange(0, i);
                assert(on_the_way(key@, k));
            }
        }
    }
    let mut metrics = vfs.metrics;
    bus_publish_event(bus, &mut metrics, now, VFS_MOUNT, capacity as u64);
    vfs.metrics = metrics;
    Ok(())
}

} // verus!

verus! {

/// `n` is the tree `o` after `data` was written to the node under `key`:
/// a file's or device's contents become `data`, nothing else changes.
pub open spec fn written(o: Map<Seq<u8>, VfsNode>, n: Map<Seq<u8>, VfsNode>, key: Seq<u8>, data: Seq<u8>) -> bool {
    &&& n.dom() == o.dom()
    &&& forall|k: Seq<u8>| #[trigger] n.contains_key(k) && k != key ==> n[k] == o[k]
    &&& o[key] is File ==> (n[key] matches VfsNode::File(d) && d@ == data)
    &&& o[key] is Device ==> (n[key] matches VfsNode::Device { manifest, data: d } && manifest == o[key]->manifest
        && d@ == data)
}

/// The write on a device is refused: it lacks the write capability.
pub open spec fn write_denied(node: VfsNode) -> bool {
    node matches VfsNode::Device { manifest, .. } && !has_cap(manifest.capabilities@, Capability::Write)
}

/// The write on a device is refused: `len` bytes exceed its capacity.
pub open spec fn write_too_large(node: VfsNode, len: int) -> bool {
    node matches VfsNode::Device { manifest, .. } && manifest.capacity > 0 && len > manifest.capacity
}

/// Replaces the contents of the file or device at `path` with `data`,
/// announcing it on the bus (time `now`); returns the number of bytes
/// written. Fails on an invalid path, the root, a missing node
/// (`DeviceNotMounted`), a device without the write capability
/// (`ReadOnlyDevice`, announced as a security violation), data beyond a
/// device's non-zero capacity (`CapacityExceeded`), or a directory
/// (`PermissionDenied`); the tree is then unchanged.
pub fn file_write(vfs: &mut Vfs, bus: &mut CognitiveBus, now: u64, path: &str, data: &[u8]) -> (r: Result<usize, VfsError>)
    ensures
        ({
            let b = path.spec_bytes();
            let pe = path_error(b, is_ascii(path));
            let key = path_key(b);
            let m0 = after_validation(counted_op(old(vfs).counters()), pe);
            let o = old(vfs)@;
            &&& r is Err ==> final(vfs)@ == o
            &&& pe is Some ==> r == Err::<usize, VfsError>(pe->0) && final(vfs).counters() == m0 && final(bus)@ == old(bus)@
            &&& pe is None && key.len() == 0 ==> r == Err::<usize, VfsError>(VfsError::InvalidPath)
                && final(vfs).counters() == m0 && final(bus)@ == old(bus)@
            &&& pe is None && key.len() > 0 && !o.contains_key(key) ==> r == Err::<usize, VfsError>(VfsError::DeviceNotMounted)
                && final(vfs).counters() == m0 && final(bus)@ == old(bus)@
            &&& pe is None && key.len() > 0 && o.contains_key(key) ==> {
                let node = o[key];
                &&& write_denied(node) ==> r == Err::<usize, VfsError>(VfsError::ReadOnlyDevice) && published(old(bus)@,
                    final(bus)@, counted_violation(m0), final(vfs).counters(), fs_event(VFS_SECURITY_VIOLATION, b.len() as u64, now))
                &&& !write_denied(node) && write_too_large(node, data@.len() as int) ==> r == Err::<usize, VfsError>(VfsError::CapacityExceeded)
                    && final(vfs).counters() == counted_error(m0) && final(bus)@ == old(bus)@
                &&& node is Directory ==> r == Err::<usize, VfsError>(VfsError::PermissionDenied)
                    && final(vfs).counters() == counted_error(m0) && final(bus)@ == old(bus)@
                &&& !(node is Directory) && !write_denied(node) && !write_too_large(node, data@.len() as int) ==> r
                    == Ok::<usize, VfsError>(data@.len() as usize) && written(o, final(vfs)@, key, data@) && published(old(bus)@,
                    final(bus)@, VfsMetrics { total_bytes_written: wrapping_sum(m0.total_bytes_written, data@.len() as int), ..m0 },
                    final(vfs).counters(), fs_event(VFS_WRITE, data@.len() as u64, now))
            }
        }),
{
    proof {
        use_type_invariant(&*vfs);
    }
    vfs.metrics.operations_count = inc(vfs.metrics.operations_count);
    let mut metrics = vfs.metrics;
    let checked = validate_path(&mut metrics, path);
    vfs.metrics = metrics;
    checked?;
    let b = path.as_bytes();
    let key = key_of(b);
    if key.len() == 0 {
        return Err(VfsError::InvalidPath);
    }
    let i = match vfs.nodes.find(key) {
        Some(i) => i,
        None => {
            proof {
                assert(!old(vfs)@.contains_key(key@));
            }
            return Err(VfsError::DeviceNotMounted);
        },
    };
    proof {
        assert(old(vfs)@[key@] == vfs.nodes@[key@].node);
    }
    let (denied, too_large, is_dir) = match &vfs.nodes.value_at(i).node {
        VfsNode::Device { manifest, .. } => (!manifest.can(Capability::Write), manifest.capacity > 0
            && data.len() > manifest.capacity, false),
        VfsNode::File(_) => (false, false, false),
        VfsNode::Directory => (false, false, true),
    };
    if denied {
        vfs.metrics.security_violations = inc(vfs.metrics.security_violations);
        vfs.metrics.errors_count = inc(vfs.metrics.errors_count);
        let mut metrics = vfs.metrics;
        bus_publish_event(bus, &mut metrics, now, VFS_SECURITY_VIOLATION, b.len() as u64);
        vfs.metrics = metrics;
        return Err(VfsError::ReadOnlyDevice);
    }
    if too_large || is_dir {
        vfs.metrics.errors_count = inc(vfs.metrics.errors_count);
        return Err(if is_dir { VfsError::PermissionDenied } else { VfsError::CapacityExceeded });
    }
    let mut contents: Vec<u8> = Vec::new();
    crate::net::wire::push_bytes(&mut contents, data);
    let ghost old_m = vfs.nodes@;
    let mut nodes = PathMap::new();
    std::mem::swap(&mut nodes, &mut vfs.nodes);
    let placeholder = VfsEntry { name: String::new(), node: VfsNode::Directory };
    let entry = nodes.replace_value(i, placeholder);
    let node = match entry.node {
        VfsNode::Device { manifest, .. } => VfsNode::Device { manifest, data: contents },
        _ => VfsNode::File(contents),
    };
    nodes.replace_value(i, VfsEntry { name: entry.name, node });
    proof {
        let m = nodes@;
        assert(m == old_m.insert(key@, m[key@]));
        assert(m[key@].name == old_m[key@].name);
        assert forall|k: Seq<u8>| #[trigger] m.contains_key(k) implies names_last_component(k, m[k].name@) && ancestors_are_dirs(m, k) by {
            assert(old_m.contains_key(k));
            assert forall|j: int| 0 < j < k.len() && k[j] == SLASH implies m.contains_key(#[trigger] k.subrange(0, j)) && m[k.subrange(0, j)].node is Directory by {
                assert(old_m.contains_key(k.subrange(0, j)));
                assert(old_m[k.subrange(0, j)].node is Directory);
            }
        }
    }
    vfs.nodes = nodes;
    let n = data.len();
    vfs.metrics.total_bytes_written = add_len(vfs.metrics.total_bytes_written, n);
    proof {
        assert(vfs@.dom() =~= old(vfs)@.dom());
    }
    let mut metrics = vfs.metrics;
    bus_publish_event(bus, &mut metrics, now, VFS_WRITE, n as u64);
    vfs.metrics = metrics;
    Ok(n)
}

/// A read of the device is refused: it lacks the read capability.
pub open spec fn read_denied(node: VfsNode) -> bool {
    node matches VfsNode::Device { manifest, .. } && !has_cap(manifest.capabilities@, Capability::Read)
}

/// The contents a read of `node` returns: a file's, or a readable device's.
pub open spec fn readable(node: VfsNode) -> Option<Seq<u8>> {
    match node {
        VfsNode::File(d) => Some(d@),
        VfsNode::Device { manifest, data } => if has_cap(manifest.capabilities@, Capability::Read) {
            Some(data@)
        } else {
            None
        },
        VfsNode::Directory => None,
    }
}

/// The contents a read of the path whose text is `text` returns in tree
/// `o`, when it succeeds.
pub open spec fn read_result(o: Map<Seq<u8>, VfsNode>, text: Seq<char>) -> Option<Seq<u8>> {
    let b = encode_utf8(text);
    let key = path_key(b);
    if path_error(b, is_ascii_chars(text)) is None && key.len() > 0 && o.contains_key(key) {
        readable(o[key])
    } else {
        None
    }
}

/// The contents a read of `path` in tree `o` returns, when it succeeds.
pub open spec fn read_outcome(o: Map<Seq<u8>, VfsNode>, path: &str) -> Option<Seq<u8>> {
    read_result(o, path@)
}

/// What a read of the path with text `text` in tree `o` at time `now`
/// does: its result `r`, the counters going from `om` to `nm` and the bus
/// from `ob` to `nb`.
pub open spec fn read_done(
    om: VfsMetrics,
    nm: VfsMetrics,
    ob: Multiset<IntentMessage>,
    nb: Multiset<IntentMessage>,
    o: Map<Seq<u8>, VfsNode>,
    text: Seq<char>,
    now: u64,
    r: Result<Vec<u8>, VfsError>,
) -> bool {
    let b = encode_utf8(text);
    let pe = path_error(b, is_ascii_chars(text));
    let key = path_key(b);
    let m0 = after_validation(counted_op(om), pe);
    &&& pe is Some ==> r == Err::<Vec<u8>, VfsError>(pe->0) && nm == m0 && nb == ob
    &&& pe is None && key.len() == 0 ==> r == Err::<Vec<u8>, VfsError>(VfsError::InvalidPath) && nm == m0 && nb == ob
    &&& pe is None && key.len() > 0 && !o.contains_key(key) ==> r == Err::<Vec<u8>, VfsError>(VfsError::NotFound) && nm == m0
        && nb == ob
    &&& pe is None && key.len() > 0 && o.contains_key(key) ==> {
        let node = o[key];
        &&& read_denied(node) ==> r == Err::<Vec<u8>, VfsError>(VfsError::PermissionDenied) && nm == counted_violation(m0)
            && nb == ob
        &&& node is Directory ==> r == Err::<Vec<u8>, VfsError>(VfsError::PermissionDenied) && nm == counted_error(m0) && nb
            == ob
        &&& readable(node) is Some ==> (r matches Ok(v) && v@ == readable(node)->0 && published(ob, nb,
            VfsMetrics { total_bytes_read: wrapping_sum(m0.total_bytes_read, v@.len() as int), ..m0 }, nm,
            fs_event(VFS_READ, v@.len() as u64, now)))
    }
}

/// Returns a copy of the contents of the file or device at `path`,
/// announcing the read on the bus (time `now`). Fails on an invalid path,
/// the root, a missing node (`NotFound`), a device without the read
/// capability or a directory (`PermissionDenied`). The tree is unchanged.
pub fn file_read(vfs: &mut Vfs, bus: &mut CognitiveBus, now: u64, path: &str) -> (r: Result<Vec<u8>, VfsError>)
    ensures
        final(vfs)@ == old(vfs)@,
        r is Ok <==> read_outcome(old(vfs)@, path) is Some,
        r matches Ok(v) ==> v@ == read_outcome(old(vfs)@, path)->0,
        read_done(old(vfs).counters(), final(vfs).counters(), old(bus)@, final(bus)@, old(vfs)@, path@, now, r),
{
    proof {
        use_type_invariant(&*vfs);
    }
    vfs.metrics.operations_count = inc(vfs.metrics.operations_count);
    let mut metrics = vfs.metrics;
    let checked = validate_path(&mut metrics, path);
    vfs.metrics = metrics;
    checked?;
    let b = path.as_bytes();
    let key = key_of(b);
    if key.len() == 0 {
        return Err(VfsError::InvalidPath);
    }
    let i = match vfs.nodes.find(key) {
        Some(i) => i,
        None => {
            proof {
                assert(!old(vfs)@.contains_key(key@));
            }
            return Err(VfsError::NotFound);
        },
    };
    proof {
        assert(old(vfs)@[key@] == vfs.nodes@[key@].node);
    }
    let mut out: Vec<u8> = Vec::new();
    match &vfs.nodes.value_at(i).node {
        VfsNode::Device { manifest, data } => {
            if !manifest.can(Capability::Read) {
                vfs.metrics.security_violations = inc(vfs.metrics.security_violations);
                vfs.metrics.errors_count = inc(vfs.metrics.errors_count);
                return Err(VfsError::PermissionDenied);
            }
            crate::net::wire::push_bytes(&mut out, data.as_slice());
        },
        VfsNode::File(data) => {
            crate::net::wire::push_bytes(&mut out, data.as_slice());
        },
        VfsNode::Directory => {
            vfs.metrics.errors_count = inc(vfs.metrics.errors_count);
            return Err(VfsError::PermissionDenied);
        },
    }
    vfs.metrics.total_bytes_read = add_len(vfs.metrics.total_bytes_read, out.len());
    let mut metrics = vfs.metrics;
    bus_publish_event(bus, &mut metrics, now, VFS_READ, out.len() as u64);
    vfs.metrics = metrics;
    Ok(out)
}

/// A read of a path gives back what a successful write to it stored,
/// unless the node is a device without the read capability.
pub proof fn lemma_read_after_write(o: Map<Seq<u8>, VfsNode>, n: Map<Seq<u8>, VfsNode>, path: &str, data: Seq<u8>)
    requires
        path_error(path.spec_bytes(), is_ascii(path)) is None,
        path_key(path.spec_bytes()).len() > 0,
        o.contains_key(path_key(path.spec_bytes())),
        !(o[path_key(path.spec_bytes())] is Directory),
        !read_denied(o[path_key(path.spec_bytes())]),
        written(o, n, path_key(path.spec_bytes()), data),
    ensures
        read_outcome(n, path) == Some(data),
{
    let key = path_key(path.spec_bytes());
    assert(n.contains_key(key));
}

/// A write to one path leaves what every other path reads unchanged.
pub proof fn lemma_write_keeps_other_reads(
    o: Map<Seq<u8>, VfsNode>,
    n: Map<Seq<u8>, VfsNode>,
    path: &str,
    data: Seq<u8>,
    other: &str,
)
    requires
        written(o, n, path_key(path.spec_bytes()), data),
        path_key(other.spec_bytes()) != path_key(path.spec_bytes()),
    ensures
        read_outcome(n, other) == read_outcome(o, other),
{
    let k = path_key(other.spec_bytes());
    if n.contains_key(k) {
        assert(n[k] == o[k]);
    }
    assert(n.contains_key(k) == o.contains_key(k));
}

} // verus!

verus! {

/// `k` lies directly below `d`.
pub open spec fn is_child(d: Seq<u8>, k: Seq<u8>) -> bool {
    is_under(d, k) && forall|i: int| d.len() < i < k.len() ==> #[trigger] k[i] != SLASH
}

/// The name of the child `k` of `d`.
pub open spec fn child_name(d: Seq<u8>, k: Seq<u8>) -> Seq<u8> {
    k.subrange(d.len() + 1int, k.len() as int)
}

/// The bytes of an ASCII text.
pub open spec fn ascii_bytes(s: Seq<char>) -> Seq<u8> {
    Seq::new(s.len(), |i: int| s[i] as u8)
}

/// The key of the child of `d` named `name`.
pub open spec fn child_key(d: Seq<u8>, name: Seq<u8>) -> Seq<u8> {
    d + seq![SLASH] + name
}

/// `names` lists the children of `d` among `keys`, each once, in ASCII.
pub open spec fn lists_children(keys: Set<Seq<u8>>, d: Seq<u8>, names: Seq<String>) -> bool {
    &&& forall|i: int| 0 <= i < names.len() ==> keys.contains(child_key(d, ascii_bytes(#[trigger] names[i]@)))
        && is_child(d, child_key(d, ascii_bytes(names[i]@)))
    &&& forall|k: Seq<u8>| #[trigger] keys.contains(k) && is_child(d, k) ==> exists|i: int| 0 <= i < names.len()
        && ascii_bytes(#[trigger] names[i]@) == child_name(d, k)
    &&& forall|i: int, j: int| 0 <= i < names.len() && 0 <= j < names.len() && i != j ==> #[trigger] names[i]@
        != #[trigger] names[j]@
    &&& forall|i: int, c: int| 0 <= i < names.len() && 0 <= c < names[i]@.len() ==> #[trigger] names[i]@[c] <= '\u{7f}'
}

fn child_of(d: &[u8], k: &[u8]) -> (r: bool)
    ensures
        r == is_child(d@, k@),
{
    if !crate::fs::table::under(d, k) {
        return false;
    }
    let dl = d.len();
    let kl = k.len();
    assert(dl < kl);
    let mut i: usize = dl + 1;
    while i < k.len()
        invariant
            d@.len() < i <= k@.len(),
            forall|j: int| d@.len() < j < i ==> #[trigger] k@[j] != SLASH,
        decreases k@.len() - i,
    {
        if k[i] == SLASH {
            return false;
        }
        i += 1;
    }
    true
}

proof fn lemma_child_name(d: Seq<u8>, k: Seq<u8>, name: Seq<char>)
    requires
        is_child(d, k),
        names_last_component(k, name),
    ensures
        ascii_bytes(name) == child_name(d, k),
{
    let n = name.len() as int;
    let p = k.len() - n - 1;
    if p < d.len() {
        assert(k[d.len() as int] == SLASH);
        let c = d.len() - (k.len() - n);
        assert(0 <= c < n);
        assert(name[c] as u8 == k[k.len() - n + c]);
        assert(k[k.len() - n + c] != SLASH);
    } else if p > d.len() {
        assert(k[p] != SLASH);
    }
    assert(ascii_bytes(name) =~= child_name(d, k));
}

/// Every stored node is named by its last component.
pub open spec fn all_named(m: Map<Seq<u8>, VfsEntry>) -> bool {
    forall|k: Seq<u8>| #[trigger] m.contains_key(k) ==> names_last_component(k, m[k].name@)
}

proof fn lemma_listed_names(m: Map<Seq<u8>, VfsEntry>, key: Seq<u8>, ks: Seq<Seq<u8>>, idx: Seq<int>, s: Seq<String>)
    requires
        all_named(m),
        forall|k: Seq<u8>| m.contains_key(k) <==> ks.contains(k),
        idx.len() == s.len(),
        forall|a: int| 0 <= a < idx.len() ==> 0 <= #[trigger] idx[a] < ks.len() && is_child(key, ks[idx[a]])
            && s[a]@ == m[ks[idx[a]]].name@,
    ensures
        forall|a: int| 0 <= a < s.len() ==> ascii_bytes(#[trigger] s[a]@) == child_name(key, ks[idx[a]]) && m.contains_key(ks[idx[a]]),
        forall|a: int, c: int| 0 <= a < s.len() && 0 <= c < s[a]@.len() ==> #[trigger] s[a]@[c] <= '\u{7f}',
{
    assert forall|a: int| 0 <= a < s.len() implies ascii_bytes(#[trigger] s[a]@) == child_name(key, ks[idx[a]]) && m.contains_key(ks[idx[a]]) by {
        assert(ks.contains(ks[idx[a]]));
        lemma_child_name(key, ks[idx[a]], m[ks[idx[a]]].name@);
    }
    assert forall|a: int, c: int| 0 <= a < s.len() && 0 <= c < s[a]@.len() implies #[trigger] s[a]@[c] <= '\u{7f}' by {
        assert(ks.contains(ks[idx[a]]));
        assert(names_last_component(ks[idx[a]], s[a]@));
    }
}

proof fn lemma_listed_distinct(key: Seq<u8>, ks: Seq<Seq<u8>>, idx: Seq<int>, s: Seq<String>)
    requires
        ks.no_duplicates(),
        idx.len() == s.len(),
        forall|a: int| 0 <= a < idx.len() ==> 0 <= #[trigger] idx[a] < ks.len() && is_child(key, ks[idx[a]]),
        forall|a: int, c: int| 0 <= a < idx.len() && 0 <= c < idx.len() && a != c ==> #[trigger] idx[a] != #[trigger] idx[c],
        forall|a: int| 0 <= a < s.len() ==> ascii_bytes(#[trigger] s[a]@) == child_name(key, ks[idx[a]]),
    ensures
        forall|a: int, c: int| 0 <= a < s.len() && 0 <= c < s.len() && a != c ==> #[trigger] s[a]@ != #[trigger] s[c]@,
{
    assert forall|a: int, c: int| 0 <= a < s.len() && 0 <= c < s.len() && a != c implies #[trigger] s[a]@ != #[trigger] s[c]@ by {
        let ka = ks[idx[a]];
        let kc = ks[idx[c]];
        assert(idx[a] != idx[c]);
        assert(ka != kc);
        if s[a]@ == s[c]@ {
            assert(ascii_bytes(s[a]@) == ascii_bytes(s[c]@));
            assert(child_name(key, ka) == child_name(key, kc));
            assert(ka =~= ka.subrange(0, key.len() + 1int) + child_name(key, ka));
            assert(kc =~= kc.subrange(0, key.len() + 1int) + child_name(key, kc));
            assert(ka.subrange(0, key.len() + 1int) =~= kc.subrange(0, key.len() + 1int));
        }
    }
}

proof fn lemma_listed(m: Map<Seq<u8>, VfsEntry>, key: Seq<u8>, ks: Seq<Seq<u8>>, idx: Seq<int>, s: Seq<String>)
    requires
        all_named(m),
        ks.no_duplicates(),
        forall|k: Seq<u8>| m.contains_key(k) <==> ks.contains(k),
        idx.len() == s.len(),
        forall|a: int| 0 <= a < idx.len() ==> 0 <= #[trigger] idx[a] < ks.len() && is_child(key, ks[idx[a]])
            && s[a]@ == m[ks[idx[a]]].name@,
        forall|a: int, c: int| 0 <= a < idx.len() && 0 <= c < idx.len() && a != c ==> #[trigger] idx[a] != #[trigger] idx[c],
        forall|j: int| 0 <= j < ks.len() && is_child(key, ks[j]) ==> exists|a: int| 0 <= a < idx.len() && #[trigger] idx[a] == j,
    ensures
        lists_children(m.dom(), key, s),
{
    lemma_listed_names(m, key, ks, idx, s);
    lemma_listed_distinct(key, ks, idx, s);
    assert forall|a: int| 0 <= a < s.len() implies m.dom().contains(child_key(key, ascii_bytes(#[trigger] s[a]@)))
        && is_child(key, child_key(key, ascii_bytes(s[a]@))) by {
        let k = ks[idx[a]];
        assert(m.dom().contains(k));
        assert(k =~= child_key(key, child_name(key, k)));
    }
    assert forall|kk: Seq<u8>| #[trigger] m.dom().contains(kk) && is_child(key, kk) implies exists|a: int| 0 <= a < s.len()
        && ascii_bytes(#[trigger] s[a]@) == child_name(key, kk) by {
        assert(ks.contains(kk));
        let j = choose|j: int| 0 <= j < ks.len() && ks[j] == kk;
        let a = choose|a: int| 0 <= a < idx.len() && #[trigger] idx[a] == j;
        assert(ascii_bytes(s[a]@) == child_name(key, ks[idx[a]]));
    }
}

/// The names are in increasing byte order.
pub open spec fn names_sorted(names: Seq<String>) -> bool {
    forall|a: int, c: int| 0 <= a < c < names.len() ==> lex_lt(ascii_bytes(#[trigger] names[a]@), ascii_bytes(#[trigger] names[c]@))
}

/// The children of `d` sort as their keys do: all their keys begin with
/// `d` and a slash.
proof fn lemma_child_order(d: Seq<u8>, k1: Seq<u8>, k2: Seq<u8>)
    requires
        is_child(d, k1),
        is_child(d, k2),
    ensures
        lex_lt(k1, k2) == lex_lt(child_name(d, k1), child_name(d, k2)),
{
    let pre = d + seq![SLASH];
    assert(k1 =~= pre + child_name(d, k1));
    assert(k2 =~= pre + child_name(d, k2));
    lemma_lex_prefix(pre, child_name(d, k1), child_name(d, k2));
}

/// Lists the names of the nodes directly below the directory at `path` ("/"
/// lists the top level), in increasing byte order. Fails on an invalid path, or with `NotFound` when
/// there is no directory there. The tree is unchanged.
pub fn list_path(vfs: &mut Vfs, path: &str) -> (r: Result<Vec<String>, VfsError>)
    ensures
        final(vfs)@ == old(vfs)@,
        ({
            let b = path.spec_bytes();
            let pe = path_error(b, is_ascii(path));
            let key = path_key(b);
            let m0 = after_validation(counted_op(old(vfs).counters()), pe);
            let o = old(vfs)@;
            &&& final(vfs).counters() == m0
            &&& pe is Some ==> r == Err::<Vec<String>, VfsError>(pe->0)
            &&& pe is None && key.len() > 0 && !(o.contains_key(key) && o[key] is Directory) ==> r
                == Err::<Vec<String>, VfsError>(VfsError::NotFound)
            &&& pe is None && (key.len() == 0 || (o.contains_key(key) && o[key] is Directory)) ==> (r matches Ok(names)
                && lists_children(o.dom(), key, names@) && names_sorted(names@))
        }),
{
    proof {
        use_type_invariant(&*vfs);
    }
    vfs.metrics.operations_count = inc(vfs.metrics.operations_count);
    let mut metrics = vfs.metrics;
    let checked = validate_path(&mut metrics, path);
    vfs.metrics = metrics;
    checked?;
    let b = path.as_bytes();
    let key = key_of(b);
    if key.len() > 0 {
        let found = match vfs.nodes.find(key) {
            Some(i) => match &vfs.nodes.value_at(i).node {
                VfsNode::Directory => true,
                _ => false,
            },
            None => false,
        };
        if !found {
            return Err(VfsError::NotFound);
        }
    }
    let ghost o = vfs@;
    let nodes = &vfs.nodes;
    let ghost m = nodes@;
    let n = nodes.len();
    let ghost ks = nodes.key_seq();
    let mut sel: Vec<usize> = Vec::new();
    let mut i: usize = 0;
    while i < n
        invariant
            i <= n,
            n == ks.len(),
            ks == nodes.key_seq(),
            nodes@ == m,
            tree_wf(m),
            ks.no_duplicates(),
            forall|k: Seq<u8>| m.contains_key(k) <==> ks.contains(k),
            forall|a: int| 0 <= a < sel@.len() ==> #[trigger] sel@[a] < i && is_child(key@, ks[sel@[a] as int]),
            forall|a: int, c: int| 0 <= a < c < sel@.len() ==> lex_lt(ks[#[trigger] sel@[a] as int], ks[#[trigger] sel@[c] as int]),
            forall|j: int| 0 <= j < i && is_child(key@, ks[j]) ==> exists|a: int| 0 <= a < sel@.len() && #[trigger] sel@[a] == j,
        decreases n - i,
    {
        let k = nodes.key_at(i);
        if child_of(key, k.as_slice()) {
            let mut p: usize = 0;
            let mut found = false;
            while !found && p < sel.len()
                invariant
                    p <= sel@.len(),
                    i < n == ks.len(),
                    ks == nodes.key_seq(),
                    k@ == ks[i as int],
                    forall|a: int| 0 <= a < sel@.len() ==> #[trigger] sel@[a] < i,
                    forall|a: int| 0 <= a < p ==> lex_lt(ks[#[trigger] sel@[a] as int], ks[i as int]),
                    found ==> p < sel@.len() && !lex_lt(ks[sel@[p as int] as int], ks[i as int]),
                decreases sel@.len() - p + (if found { 0int } else { 1int }),
            {
                if bytes_lt(nodes.key_at(sel[p]).as_slice(), k.as_slice()) {
                    p += 1;
                } else {
                    found = true;
                }
            }
            let ghost old_sel = sel@;
            sel.insert(p, i);
            proof {
                assert forall|a: int, c: int| 0 <= a < c < sel@.len() implies lex_lt(ks[#[trigger] sel@[a] as int], ks[#[trigger] sel@[c] as int]) by {
                    if found {
                        let q = old_sel[p as int] as int;
                        assert(q != i);
                        assert(ks[q] != ks[i as int]) by {
                            assert(ks.no_duplicates());
                        }
                        lemma_lex_total(ks[q], ks[i as int]);
                        assert(lex_lt(ks[i as int], ks[q]));
                        if c > p && a < p {
                            assert(sel@[a] == old_sel[a]);
                            assert(sel@[c] == old_sel[c - 1]);
                        } else if c > p && a == p {
                            assert(sel@[c] == old_sel[c - 1]);
                            if c - 1 > p {
                                assert(lex_lt(ks[old_sel[p as int] as int], ks[old_sel[c - 1] as int]));
                                lemma_lex_transitive(ks[i as int], ks[q], ks[old_sel[c - 1] as int]);
                            }
                        } else if c > p && a > p {
                            assert(sel@[a] == old_sel[a - 1]);
                            assert(sel@[c] == old_sel[c - 1]);
                        } else if c == p {
                            assert(sel@[a] == old_sel[a]);
                        } else {
                            assert(sel@[a] == old_sel[a]);
                            assert(sel@[c] == old_sel[c]);
                        }
                    } else {
                        assert(p == old_sel.len());
                        if c == p {
                            assert(sel@[a] == old_sel[a]);
                        } else {
                            assert(sel@[a] == old_sel[a]);
                            assert(sel@[c] == old_sel[c]);
                        }
                    }
                }
                assert forall|j: int| 0 <= j < i + 1 && is_child(key@, ks[j]) implies exists|a: int| 0 <= a < sel@.len() && #[trigger] sel@[a] == j by {
                    if j < i {
                        let a = choose|a: int| 0 <= a < old_sel.len() && #[trigger] old_sel[a] == j;
                        if a < p {
                            assert(sel@[a] == j);
                        } else {
                            assert(sel@[a + 1] == j);
                        }
                    } else {
                        assert(sel@[p as int] == j);
                    }
                }
                assert forall|a: int| 0 <= a < sel@.len() implies #[trigger] sel@[a] < i + 1 && is_child(key@, ks[sel@[a] as int]) by {
                    if a < p {
                        assert(sel@[a] == old_sel[a]);
                    } else if a > p {
                        assert(sel@[a] == old_sel[a - 1]);
                    }
                }
            }
        }
        i += 1;
    }
    let mut names: Vec<String> = Vec::new();
    let mut a: usize = 0;
    while a < sel.len()
        invariant
            a <= sel@.len(),
            n == ks.len(),
            ks == nodes.key_seq(),
            nodes@ == m,
            forall|c: int| 0 <= c < sel@.len() ==> #[trigger] sel@[c] < n,
            names@.len() == a,
            forall|c: int| 0 <= c < a ==> (#[trigger] names@[c])@ == m[ks[sel@[c] as int]].name@,
        decreases sel@.len() - a,
    {
        let name = nodes.value_at(sel[a]).name.clone();
        names.push(name);
        a += 1;
    }
    let ghost idx = sel@.map_values(|x: usize| x as int);
    proof {
        assert(all_named(m));
        assert forall|c: int, e: int| 0 <= c < idx.len() && 0 <= e < idx.len() && c != e implies #[trigger] idx[c] != #[trigger] idx[e] by {
            if idx[c] == idx[e] {
                if c < e {
                    lemma_lex_irreflexive(ks[idx[c]]);
                } else {
                    lemma_lex_irreflexive(ks[idx[e]]);
                }
            }
        }
        assert forall|j: int| 0 <= j < ks.len() && is_child(key@, ks[j]) implies exists|c: int| 0 <= c < idx.len() && #[trigger] idx[c] == j by {
            let c = choose|c: int| 0 <= c < sel@.len() && #[trigger] sel@[c] == j;
            assert(idx[c] == j);
        }
        lemma_listed(m, key@, ks, idx, names@);
        lemma_listed_names(m, key@, ks, idx, names@);
        assert forall|c: int, e: int| 0 <= c < e < names@.len() implies lex_lt(ascii_bytes(#[trigger] names@[c]@), ascii_bytes(#[trigger] names@[e]@)) by {
            lemma_child_order(key@, ks[idx[c]], ks[idx[e]]);
        }
        assert(o.dom() =~= m.dom());
    }
    Ok(names)
}

} // verus!
