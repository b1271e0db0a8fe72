//! # The Concordance of Fates (RBAC)
//!
//! Every Subject (thread, process, user) is assigned a Fate (role). The Fate
//! dictates which file, network, memory and process operations the Subject may
//! perform. Fates are looked up by name and Subjects by identifier.
use vstd::prelude::*;

verus! {

/// A Fate (Role): what a Subject can do.
#[derive(Debug, Clone)]
pub struct Fate {
    /// Unique name of this Fate.
    pub name: String,
    /// Human-readable description.
    pub description: String,
    /// Set of capabilities this Fate grants.
    pub capabilities: FateCapabilities,
    /// File access rules.
    pub file_rules: Vec<FileRule>,
    /// Network access rules.
    pub network_rules: Vec<NetworkRule>,
    /// Memory access rules.
    pub memory_rules: Vec<MemoryRule>,
    /// Fates this Fate may transition to.
    pub allowed_transitions: Vec<String>,
    /// Is this a privileged Fate (kernel-level)?
    pub is_privileged: bool,
}

/// Fine-grained permissions a Fate grants.
#[derive(Debug, Clone, Copy, Default)]
pub struct FateCapabilities {
    pub can_read_files: bool,
    pub can_write_files: bool,
    pub can_execute_files: bool,
    pub can_create_files: bool,
    pub can_delete_files: bool,
    pub can_bind_network: bool,
    pub can_connect_network: bool,
    pub can_listen_network: bool,
    pub can_send_packets: bool,
    pub can_receive_packets: bool,
    pub can_fork: bool,
    pub can_exec: bool,
    pub can_kill: bool,
    pub can_change_priority: bool,
    pub can_allocate_memory: bool,
    pub can_modify_memory: bool,
    pub can_share_memory: bool,
    pub can_send_ipc: bool,
    pub can_receive_ipc: bool,
    pub can_read_symbols: bool,
    pub can_load_modules: bool,
    pub can_modify_system: bool,
}

/// Rule for file access.
#[derive(Debug, Clone)]
pub struct FileRule {
    /// Path pattern (supports a trailing `*` wildcard).
    pub path_pattern: String,
    /// Access type.
    pub access_type: FileAccess,
    /// Allow or deny.
    pub permission: Permission,
}

/// File access types.
#[derive(Debug, Clone, Copy, PartialEq, Eq, Structural)]
pub enum FileAccess {
    Read,
    Write,
    Execute,
    ReadWrite,
    All,
}

/// Rule for network access.
#[derive(Debug, Clone, Copy)]
pub struct NetworkRule {
    /// Inclusive port range.
    pub port_range: (u16, u16),
    /// Operation.
    pub operation: NetworkOperation,
    /// Allow or deny.
    pub permission: Permission,
}

/// Network operations.
#[derive(Debug, Clone, Copy, PartialEq, Eq, Structural)]
pub enum NetworkOperation {
    Bind,
    Connect,
    Listen,
    SendTo,
    ReceiveFrom,
}

/// Rule for memory access.
#[derive(Debug, Clone, Copy)]
pub struct MemoryRule {
    /// Address range `[start, end)`.
    pub address_range: (u64, u64),
    /// Access type.
    pub access_type: MemoryAccess,
    /// Allow or deny.
    pub permission: Permission,
}

/// Memory access types.
#[derive(Debug, Clone, Copy, PartialEq, Eq, Structural)]
pub enum MemoryAccess {
    Read,
    Write,
    Execute,
    ReadWrite,
    All,
}

/// Permission type.
#[derive(Debug, Clone, Copy, PartialEq, Eq, Structural)]
pub enum Permission {
    Allow,
    Deny,
}

/// A Subject: an entity that performs actions.
#[derive(Debug, Clone)]
pub struct Subject {
    /// Unique identifier.
    pub id: SubjectId,
    /// Current Fate (role) name.
    pub fate: String,
    /// Subject type.
    pub subject_type: SubjectType,
}

/// Subject identifier.
#[derive(Debug, Clone, Copy, PartialEq, Eq, Structural)]
pub struct SubjectId(pub u64);

/// Types of subjects.
#[derive(Debug, Clone, Copy, PartialEq, Eq, Structural)]
pub enum SubjectType {
    /// A kernel thread.
    KernelThread,
    /// A user process.
    UserProcess,
    /// A system service.
    SystemService,
}

/// Operations that can be checked against the Concordance.
#[derive(Debug, Clone)]
pub enum Operation {
    FileRead(String),
    FileWrite(String),
    FileExecute(String),
    NetworkBind(u16),
    NetworkConnect(u16),
    MemoryRead(u64),
    MemoryWrite(u64),
    Fork,
    ReadSymbols,
}

/// Errors that can occur when working with the Concordance.
#[derive(Debug, Clone)]
pub enum ConcordanceError {
    /// Concordance is sealed and cannot be modified.
    ConcordanceSealed,
    /// Fate with this name already exists.
    FateAlreadyExists(String),
    /// Fate not found.
    FateNotFound(String),
    /// Subject not found.
    SubjectNotFound(SubjectId),
    /// Subject already exists.
    SubjectAlreadyExists(SubjectId),
    /// Transition between Fates is not allowed.
    TransitionDenied { from: String, to: String },
    /// Operation denied by Fate.
    OperationDenied { subject: SubjectId, operation: String },
}

/// Index of the first Fate at or after `i` named `name`.
pub open spec fn fate_index_from(fates: Seq<Fate>, name: Seq<char>, i: int) -> Option<int>
    decreases fates.len() - i,
{
    if i < 0 || i >= fates.len() {
        None
    } else if fates[i].name@ == name {
        Some(i)
    } else {
        fate_index_from(fates, name, i + 1)
    }
}

/// Index of the Fate named `name`.
pub open spec fn fate_index(fates: Seq<Fate>, name: Seq<char>) -> Option<int> {
    fate_index_from(fates, name, 0)
}

/// Index of the first Subject at or after `i` with identifier `id`.
pub open spec fn subject_index_from(subjects: Seq<Subject>, id: u64, i: int) -> Option<int>
    decreases subjects.len() - i,
{
    if i < 0 || i >= subjects.len() {
        None
    } else if subjects[i].id.0 == id {
        Some(i)
    } else {
        subject_index_from(subjects, id, i + 1)
    }
}

/// Index of the Subject with identifier `id`.
pub open spec fn subject_index(subjects: Seq<Subject>, id: u64) -> Option<int> {
    subject_index_from(subjects, id, 0)
}

/// Whether `names` holds `name`.
pub open spec fn names_contain(names: Seq<String>, name: Seq<char>) -> bool {
    exists|i: int| 0 <= i < names.len() && #[trigger] names[i]@ == name
}

/// The pattern with all trailing `*` removed.
pub open spec fn trim_stars(p: Seq<char>) -> Seq<char>
    decreases p.len(),
{
    if p.len() > 0 && p.last() == '*' {
        trim_stars(p.drop_last())
    } else {
        p
    }
}

/// Simple path matching: `*` and `**` match everything; a pattern holding `*` matches
/// the paths that start with the pattern stripped of its trailing stars; any other
/// pattern matches itself only.
pub open spec fn path_matches_spec(pattern: Seq<char>, path: Seq<char>) -> bool {
    if pattern == seq!['*'] || pattern == seq!['*', '*'] {
        true
    } else if pattern.contains('*') {
        let pre = trim_stars(pattern);
        pre.len() <= path.len() && path.subrange(0, pre.len() as int) == pre
    } else {
        pattern == path
    }
}

/// The capability a file access needs.
pub open spec fn file_cap(c: FateCapabilities, access: FileAccess) -> bool {
    match access {
        FileAccess::Read => c.can_read_files,
        FileAccess::Write => c.can_write_files,
        FileAccess::Execute => c.can_execute_files,
        FileAccess::ReadWrite => c.can_read_files && c.can_write_files,
        FileAccess::All => c.can_read_files && c.can_write_files && c.can_execute_files,
    }
}

/// The capability a network operation needs.
pub open spec fn network_cap(c: FateCapabilities, op: NetworkOperation) -> bool {
    match op {
        NetworkOperation::Bind => c.can_bind_network,
        NetworkOperation::Connect => c.can_connect_network,
        NetworkOperation::Listen => c.can_listen_network,
        NetworkOperation::SendTo => c.can_send_packets,
        NetworkOperation::ReceiveFrom => c.can_receive_packets,
    }
}

/// The capability a memory access needs.
pub open spec fn memory_cap(c: FateCapabilities, access: MemoryAccess) -> bool {
    match access {
        MemoryAccess::Read => true,
        MemoryAccess::Write => c.can_modify_memory,
        MemoryAccess::Execute => true,
        MemoryAccess::ReadWrite => c.can_modify_memory,
        MemoryAccess::All => c.can_modify_memory,
    }
}

/// Some file rule with permission `perm` matches the path.
pub open spec fn file_rule_matches(rules: Seq<FileRule>, path: Seq<char>, perm: Permission) -> bool {
    exists|i: int| 0 <= i < rules.len() && #[trigger] path_matches_spec(rules[i].path_pattern@, path) && rules[i].permission == perm
}

/// Permission of the first network rule at or after `i` whose port range holds the port.
pub open spec fn first_network_rule(rules: Seq<NetworkRule>, port: u16, i: int) -> Option<Permission>
    decreases rules.len() - i,
{
    if i < 0 || i >= rules.len() {
        None
    } else if rules[i].port_range.0 <= port <= rules[i].port_range.1 {
        Some(rules[i].permission)
    } else {
        first_network_rule(rules, port, i + 1)
    }
}

/// Permission of the first memory rule at or after `i` whose range holds the address.
pub open spec fn first_memory_rule(rules: Seq<MemoryRule>, addr: u64, i: int) -> Option<Permission>
    decreases rules.len() - i,
{
    if i < 0 || i >= rules.len() {
        None
    } else if rules[i].address_range.0 <= addr < rules[i].address_range.1 {
        Some(rules[i].permission)
    } else {
        first_memory_rule(rules, addr, i + 1)
    }
}

/// File permission: the capability, then the rules matching the path, a Deny
/// rule taking precedence over an Allow rule; default deny.
pub open spec fn file_allowed(fate: Fate, path: Seq<char>, access: FileAccess) -> bool {
    &&& file_cap(fate.capabilities, access)
    &&& !file_rule_matches(fate.file_rules@, path, Permission::Deny)
    &&& file_rule_matches(fate.file_rules@, path, Permission::Allow)
}

/// Network permission: the capability, then the first matching rule; default deny.
pub open spec fn network_allowed(fate: Fate, port: u16, op: NetworkOperation) -> bool {
    network_cap(fate.capabilities, op) && first_network_rule(fate.network_rules@, port, 0) == Some(
        Permission::Allow,
    )
}

/// Memory permission: the capability, then the first matching rule; default allow.
pub open spec fn memory_allowed(fate: Fate, addr: u64, access: MemoryAccess) -> bool {
    memory_cap(fate.capabilities, access) && match first_memory_rule(fate.memory_rules@, addr, 0) {
        Some(p) => p == Permission::Allow,
        None => true,
    }
}

/// Whether a Fate allows an operation.
pub open spec fn operation_allowed(fate: Fate, op: Operation) -> bool {
    match op {
        Operation::FileRead(p) => file_allowed(fate, p@, FileAccess::Read),
        Operation::FileWrite(p) => file_allowed(fate, p@, FileAccess::Write),
        Operation::FileExecute(p) => file_allowed(fate, p@, FileAccess::Execute),
        Operation::NetworkBind(port) => network_allowed(fate, port, NetworkOperation::Bind),
        Operation::NetworkConnect(port) => network_allowed(fate, port, NetworkOperation::Connect),
        Operation::MemoryRead(a) => memory_allowed(fate, a, MemoryAccess::Read),
        Operation::MemoryWrite(a) => memory_allowed(fate, a, MemoryAccess::Write),
        Operation::Fork => fate.capabilities.can_fork,
        Operation::ReadSymbols => fate.capabilities.can_read_symbols,
    }
}

/// No memory rule of `rules` covers `addr`.
pub open spec fn no_memory_rule_covers(rules: Seq<MemoryRule>, addr: u64) -> bool {
    forall|i: int| 0 <= i < rules.len() ==> !(#[trigger] rules[i].address_range.0 <= addr && addr < rules[i].address_range.1)
}

proof fn lemma_no_memory_rule_found(rules: Seq<MemoryRule>, addr: u64, i: int)
    requires
        0 <= i,
        no_memory_rule_covers(rules, addr),
    ensures
        first_memory_rule(rules, addr, i) is None,
    decreases rules.len() - i,
{
    if i < rules.len() {
        assert(!(rules[i].address_range.0 <= addr && addr < rules[i].address_range.1));
        lemma_no_memory_rule_found(rules, addr, i + 1);
    }
}

/// Law: memory access is allowed by default. Where no memory rule of the Fate
/// covers an address, reading it is allowed, and writing it is allowed exactly
/// when the Fate may modify memory.
pub proof fn lemma_memory_default_allow(fate: Fate, addr: u64)
    requires
        no_memory_rule_covers(fate.memory_rules@, addr),
    ensures
        operation_allowed(fate, Operation::MemoryRead(addr)),
        operation_allowed(fate, Operation::MemoryWrite(addr)) <==> fate.capabilities.can_modify_memory,
{
    lemma_no_memory_rule_found(fate.memory_rules@, addr, 0);
}

/// Law: where a memory rule covers an address, the first such rule decides: a
/// read is allowed exactly when it allows, and a write exactly when it allows and
/// the Fate may modify memory.
pub proof fn lemma_memory_first_rule_decides(fate: Fate, addr: u64, i: int)
    requires
        0 <= i < fate.memory_rules@.len(),
        fate.memory_rules@[i].address_range.0 <= addr < fate.memory_rules@[i].address_range.1,
        forall|j: int|
            0 <= j < i ==> !(#[trigger] fate.memory_rules@[j].address_range.0 <= addr && addr
                < fate.memory_rules@[j].address_range.1),
    ensures
        operation_allowed(fate, Operation::MemoryRead(addr)) <==> fate.memory_rules@[i].permission == Permission::Allow,
        operation_allowed(fate, Operation::MemoryWrite(addr)) <==> (fate.memory_rules@[i].permission == Permission::Allow
            && fate.capabilities.can_modify_memory),
{
    lemma_first_memory_rule_at(fate.memory_rules@, addr, 0, i);
}

proof fn lemma_first_memory_rule_at(rules: Seq<MemoryRule>, addr: u64, k: int, i: int)
    requires
        0 <= k <= i < rules.len(),
        rules[i].address_range.0 <= addr && addr < rules[i].address_range.1,
        forall|j: int| 0 <= j < i ==> !(#[trigger] rules[j].address_range.0 <= addr && addr < rules[j].address_range.1),
    ensures
        first_memory_rule(rules, addr, k) == Some(rules[i].permission),
    decreases i - k,
{
    if k < i {
        assert(!(rules[k].address_range.0 <= addr && addr < rules[k].address_range.1));
        lemma_first_memory_rule_at(rules, addr, k + 1, i);
    }
}

/// Law: the Guardian Fate may read and write any memory, bind and connect on
/// any port, fork and read symbols.
pub proof fn lemma_guardian_permissions(f: Fate, addr: u64, port: u16)
    requires
        is_guardian_fate(f),
    ensures
        operation_allowed(f, Operation::MemoryRead(addr)),
        operation_allowed(f, Operation::MemoryWrite(addr)),
        operation_allowed(f, Operation::NetworkBind(port)),
        operation_allowed(f, Operation::NetworkConnect(port)),
        operation_allowed(f, Operation::Fork),
        operation_allowed(f, Operation::ReadSymbols),
{
    lemma_memory_default_allow(f, addr);
    assert(first_network_rule(f.network_rules@, port, 0) == Some(Permission::Allow));
}

/// The characters of a string slice.
pub(crate) fn chars_of(s: &str) -> (r: Vec<char>)
    ensures
        r@ == s@,
{
    let n = s.unicode_len();
    let mut v: Vec<char> = Vec::new();
    let mut i: usize = 0;
    while i < n
        invariant
            i <= n,
            n == s@.len(),
            v@ == s@.subrange(0, i as int),
        decreases n - i,
    {
        v.push(s.get_char(i));
        i = i + 1;
        assert(v@ =~= s@.subrange(0, i as int));
    }
    assert(v@ =~= s@);
    v
}

/// Equality of two character sequences.
pub(crate) fn chars_eq(a: &Vec<char>, b: &Vec<char>) -> (r: bool)
    ensures
        r == (a@ == b@),
{
    if a.len() != b.len() {
        return false;
    }
    let mut i: usize = 0;
    while i < a.len()
        invariant
            i <= a@.len(),
            a@.len() == b@.len(),
            forall|k: int| 0 <= k < i ==> a@[k] == b@[k],
        decreases a@.len() - i,
    {
        if a[i] != b[i] {
            return false;
        }
        i = i + 1;
    }
    assert(a@ =~= b@);
    true
}

/// Simple path matching (supports `*` wildcard).
pub fn path_matches(pattern: &str, path: &str) -> (r: bool)
    ensures
        r == path_matches_spec(pattern@, path@),
{
    let p = chars_of(pattern);
    let q = chars_of(path);
    if (p.len() == 1 && p[0] == '*') || (p.len() == 2 && p[0] == '*' && p[1] == '*') {
        proof {
            if p@.len() == 1 {
                assert(p@ =~= seq!['*']);
            } else {
                assert(p@ =~= seq!['*', '*']);
            }
        }
        return true;
    }
    assert(p@ != seq!['*'] && p@ != seq!['*', '*']) by {
        if p@ == seq!['*'] {
            assert(p@.len() == 1 && p@[0] == '*');
        }
        if p@ == seq!['*', '*'] {
            assert(p@.len() == 2 && p@[0] == '*' && p@[1] == '*');
        }
    }
    let mut has_star = false;
    let mut i: usize = 0;
    while i < p.len()
        invariant
            i <= p@.len(),
            has_star == (exists|k: int| 0 <= k < i && p@[k] == '*'),
        decreases p@.len() - i,
    {
        if p[i] == '*' {
            has_star = true;
        }
        i = i + 1;
    }
    if has_star {
        let mut end = p.len();
        assert(p@.subrange(0, end as int) =~= p@);
        while end > 0 && p[end - 1] == '*'
            invariant
                end <= p@.len(),
                trim_stars(p@.subrange(0, end as int)) == trim_stars(p@),
            decreases end,
        {
            proof {
                assert(p@.subrange(0, end as int).drop_last() =~= p@.subrange(0, end - 1));
            }
            end = end - 1;
        }
        assert(trim_stars(p@.subrange(0, end as int)) == p@.subrange(0, end as int));
        assert(p@.contains('*')) by {
            let w = choose|k: int| 0 <= k < p@.len() && p@[k] == '*';
            assert(p@[w] == '*');
        }
        if end > q.len() {
            return false;
        }
        let mut k: usize = 0;
        while k < end
            invariant
                k <= end <= q@.len(),
                end <= p@.len(),
                forall|j: int| 0 <= j < k ==> p@[j] == q@[j],
                p@ == pattern@,
                q@ == path@,
                trim_stars(p@) == p@.subrange(0, end as int),
                p@.contains('*'),
                p@ != seq!['*'] && p@ != seq!['*', '*'],
            decreases end - k,
        {
            if p[k] != q[k] {
                assert(q@.subrange(0, end as int)[k as int] != p@.subrange(0, end as int)[k as int]);
                return false;
            }
            k = k + 1;
        }
        assert(q@.subrange(0, end as int) =~= p@.subrange(0, end as int));
        true
    } else {
        assert(!p@.contains('*'));
        chars_eq(&p, &q)
    }
}

/// Whether a list of names holds `name`.
fn contains_name(names: &Vec<String>, name: &String) -> (r: bool)
    ensures
        r == names_contain(names@, name@),
{
    let mut i: usize = 0;
    while i < names.len()
        invariant
            i <= names@.len(),
            forall|k: int| 0 <= k < i ==> names@[k]@ != name@,
        decreases names@.len() - i,
    {
        if names[i] == *name {
            assert(names@[i as int]@ == name@);
            return true;
        }
        i = i + 1;
    }
    false
}

/// Names in character order: `a` sorts before `b` or is equal to it.
pub open spec fn name_le(a: Seq<char>, b: Seq<char>) -> bool
    decreases a.len(),
{
    if a.len() == 0 {
        true
    } else if b.len() == 0 {
        false
    } else if a[0] != b[0] {
        a[0] < b[0]
    } else {
        name_le(a.drop_first(), b.drop_first())
    }
}

/// Any two names are ordered one way or the other.
proof fn lemma_name_le_total(a: Seq<char>, b: Seq<char>)
    ensures
        name_le(a, b) || name_le(b, a),
    decreases a.len(),
{
    if a.len() > 0 && b.len() > 0 && a[0] == b[0] {
        lemma_name_le_total(a.drop_first(), b.drop_first());
    }
}

/// The name order is transitive.
proof fn lemma_name_le_trans(a: Seq<char>, b: Seq<char>, c: Seq<char>)
    requires
        name_le(a, b),
        name_le(b, c),
    ensures
        name_le(a, c),
    decreases a.len(),
{
    if a.len() > 0 && b.len() > 0 && c.len() > 0 && a[0] == b[0] && b[0] == c[0] {
        lemma_name_le_trans(a.drop_first(), b.drop_first(), c.drop_first());
    }
}

/// Compare two names in character order.
fn name_le_exec(a: &Vec<char>, b: &Vec<char>) -> (r: bool)
    ensures
        r == name_le(a@, b@),
{
    let mut i: usize = 0;
    assert(a@.skip(0) =~= a@);
    assert(b@.skip(0) =~= b@);
    while i < a.len() && i < b.len()
        invariant
            i <= a@.len(),
            i <= b@.len(),
            name_le(a@, b@) == name_le(a@.skip(i as int), b@.skip(i as int)),
        decreases a@.len() - i,
    {
        assert(a@.skip(i as int)[0] == a@[i as int]);
        assert(b@.skip(i as int)[0] == b@[i as int]);
        if a[i] != b[i] {
            return a[i] < b[i];
        }
        assert(a@.skip(i as int).drop_first() =~= a@.skip(i as int + 1));
        assert(b@.skip(i as int).drop_first() =~= b@.skip(i as int + 1));
        i = i + 1;
    }
    i == a.len()
}

/// `order` lists every position below `n` exactly once.
pub open spec fn lists_each_index(order: Seq<usize>, n: int) -> bool {
    &&& order.len() == n
    &&& forall|k: int| 0 <= k < n ==> #[trigger] order[k] < n
    &&& forall|a: int, b: int| 0 <= a < b < n ==> #[trigger] order[a] != #[trigger] order[b]
}

/// Positions of `keys`, ordered so that the names they point to are in character order.
fn order_by_name(keys: &Vec<Vec<char>>) -> (r: Vec<usize>)
    ensures
        lists_each_index(r@, keys@.len() as int),
        forall|a: int, b: int|
            0 <= a < b < r@.len() ==> name_le(keys@[#[trigger] r@[a] as int]@, keys@[#[trigger] r@[b] as int]@),
{
    let mut out: Vec<usize> = Vec::new();
    let mut i: usize = 0;
    while i < keys.len()
        invariant
            i <= keys@.len(),
            lists_each_index(out@, i as int),
            forall|a: int, b: int|
                0 <= a < b < out@.len() ==> name_le(keys@[#[trigger] out@[a] as int]@, keys@[#[trigger] out@[b] as int]@),
        decreases keys@.len() - i,
    {
        let mut p: usize = 0;
        while p < out.len() && name_le_exec(&keys[out[p]], &keys[i])
            invariant
                p <= out@.len(),
                lists_each_index(out@, i as int),
                i < keys@.len(),
                forall|k: int| 0 <= k < p ==> name_le(keys@[#[trigger] out@[k] as int]@, keys@[i as int]@),
            decreases out@.len() - p,
        {
            p = p + 1;
        }
        let ghost before = out@;
        let ghost x = keys@[i as int]@;
        proof {
            if p < before.len() {
                lemma_name_le_total(keys@[before[p as int] as int]@, x);
            }
        }
        out.insert(p, i);
        proof {
            assert(out@ == before.insert(p as int, i));
            assert forall|a: int, b: int| 0 <= a < b < out@.len() implies name_le(
                keys@[#[trigger] out@[a] as int]@,
                keys@[#[trigger] out@[b] as int]@,
            ) by {
                if b < p {
                } else if b == p {
                    assert(out@[a] == before[a]);
                } else if a < p {
                    assert(out@[b] == before[b - 1]);
                    assert(out@[a] == before[a]);
                } else if a == p {
                    assert(out@[b] == before[b - 1]);
                    if b - 1 > p {
                        lemma_name_le_trans(x, keys@[before[p as int] as int]@, keys@[before[b - 1] as int]@);
                    }
                } else {
                    assert(out@[a] == before[a - 1]);
                    assert(out@[b] == before[b - 1]);
                }
            }
            assert forall|k: int| 0 <= k < i + 1 implies #[trigger] out@[k] < i + 1 by {
                if k < p {
                    assert(out@[k] == before[k]);
                } else if k > p {
                    assert(out@[k] == before[k - 1]);
                }
            }
            assert forall|a: int, b: int| 0 <= a < b < i + 1 implies #[trigger] out@[a] != #[trigger] out@[b] by {
                if a < p {
                    assert(out@[a] == before[a]);
                } else if a > p {
                    assert(out@[a] == before[a - 1]);
                }
                if b < p {
                    assert(out@[b] == before[b]);
                } else if b > p {
                    assert(out@[b] == before[b - 1]);
                }
            }
        }
        i = i + 1;
    }
    out
}

/// Positions of `keys`, ordered by increasing key.
fn order_by_id(keys: &Vec<u64>) -> (r: Vec<usize>)
    ensures
        lists_each_index(r@, keys@.len() as int),
        forall|a: int, b: int| 0 <= a < b < r@.len() ==> keys@[#[trigger] r@[a] as int] <= keys@[#[trigger] r@[b] as int],
{
    let mut out: Vec<usize> = Vec::new();
    let mut i: usize = 0;
    while i < keys.len()
        invariant
            i <= keys@.len(),
            lists_each_index(out@, i as int),
            forall|a: int, b: int|
                0 <= a < b < out@.len() ==> keys@[#[trigger] out@[a] as int] <= keys@[#[trigger] out@[b] as int],
        decreases keys@.len() - i,
    {
        let mut p: usize = 0;
        while p < out.len() && keys[out[p]] <= keys[i]
            invariant
                p <= out@.len(),
                lists_each_index(out@, i as int),
                i < keys@.len(),
                forall|k: int| 0 <= k < p ==> keys@[#[trigger] out@[k] as int] <= keys@[i as int],
            decreases out@.len() - p,
        {
            p = p + 1;
        }
        let ghost before = out@;
        out.insert(p, i);
        proof {
            assert(out@ == before.insert(p as int, i));
            assert forall|a: int, b: int| 0 <= a < b < out@.len() implies keys@[#[trigger] out@[a] as int]
                <= keys@[#[trigger] out@[b] as int] by {
                if b < p {
                } else if b == p {
                    assert(out@[a] == before[a]);
                } else if a < p {
                    assert(out@[b] == before[b - 1]);
                    assert(out@[a] == before[a]);
                } else if a == p {
                    assert(out@[b] == before[b - 1]);
                } else {
                    assert(out@[a] == before[a - 1]);
                    assert(out@[b] == before[b - 1]);
                }
            }
            assert forall|k: int| 0 <= k < i + 1 implies #[trigger] out@[k] < i + 1 by {
                if k < p {
                    assert(out@[k] == before[k]);
                } else if k > p {
                    assert(out@[k] == before[k - 1]);
                }
            }
            assert forall|a: int, b: int| 0 <= a < b < i + 1 implies #[trigger] out@[a] != #[trigger] out@[b] by {
                if a < p {
                    assert(out@[a] == before[a]);
                } else if a > p {
                    assert(out@[a] == before[a - 1]);
                }
                if b < p {
                    assert(out@[b] == before[b]);
                } else if b > p {
                    assert(out@[b] == before[b - 1]);
                }
            }
        }
        i = i + 1;
    }
    out
}

/// What assigning the Fate `fate_name` to `subject_id` does: `c0` becomes `c1`
/// and `r` is returned. Only the Subject's Fate can change; a missing Fate or
/// Subject, or a transition that the Subject's current Fate does not allow
/// (unless that Fate is privileged), is refused and changes nothing.
pub open spec fn assign_outcome(
    c0: Concordance,
    c1: Concordance,
    subject_id: SubjectId,
    fate_name: Seq<char>,
    r: Result<(), ConcordanceError>,
) -> bool {
    &&& c1.spec_fates() == c0.spec_fates()
    &&& c1.spec_sealed() == c0.spec_sealed()
    &&& c1.spec_default_fate() == c0.spec_default_fate()
    &&& {
        let fates = c0.spec_fates();
        let subjects = c0.spec_subjects();
        if fate_index(fates, fate_name) is None {
            &&& r matches Err(ConcordanceError::FateNotFound(n)) && n@ == fate_name
            &&& c1.spec_subjects() == subjects
        } else if subject_index(subjects, subject_id.0) is None {
            &&& r matches Err(ConcordanceError::SubjectNotFound(id)) && id == subject_id
            &&& c1.spec_subjects() == subjects
        } else {
            let si = subject_index(subjects, subject_id.0)->0;
            let cur = subjects[si].fate@;
            let denied = match fate_index(fates, cur) {
                Some(ci) => !names_contain(fates[ci].allowed_transitions@, fate_name)
                    && !fates[ci].is_privileged,
                None => false,
            };
            if denied {
                &&& r matches Err(ConcordanceError::TransitionDenied { from, to }) && from@ == cur
                    && to@ == fate_name
                &&& c1.spec_subjects() == subjects
            } else {
                &&& r is Ok
                &&& c1.spec_subjects().len() == subjects.len()
                &&& c1.spec_subjects()[si].fate@ == fate_name
                &&& c1.spec_subjects()[si].id == subjects[si].id
                &&& c1.spec_subjects()[si].subject_type == subjects[si].subject_type
                &&& forall|k: int|
                    0 <= k < subjects.len() && k != si ==> #[trigger] c1.spec_subjects()[k]
                        == subjects[k]
            }
        }
    }
}

/// The Concordance: the policy database of Fates and Subjects.
pub struct Concordance {
    /// Fate definitions, looked up by name.
    fates: Vec<Fate>,
    /// Registered Subjects, looked up by identifier.
    subjects: Vec<Subject>,
    /// Is the Concordance sealed (no new Fates)?
    sealed: bool,
    /// Default Fate for new Subjects.
    default_fate: String,
}

impl Concordance {
    pub closed spec fn spec_fates(self) -> Seq<Fate> {
        self.fates@
    }

    pub closed spec fn spec_subjects(self) -> Seq<Subject> {
        self.subjects@
    }

    pub closed spec fn spec_sealed(self) -> bool {
        self.sealed
    }

    pub closed spec fn spec_default_fate(self) -> Seq<char> {
        self.default_fate@
    }

    /// Create a new empty Concordance.
    pub fn new() -> (r: Self)
        ensures
            r.spec_fates().len() == 0,
            r.spec_subjects().len() == 0,
            !r.spec_sealed(),
            r.spec_default_fate() == Seq::<char>::empty(),
    {
        Concordance { fates: Vec::new(), subjects: Vec::new(), sealed: false, default_fate: String::new() }
    }

    /// Position of the Fate named `name`.
    fn find_fate(&self, name: &String) -> (r: Option<usize>)
        ensures
            match r {
                Some(i) => fate_index(self.fates@, name@) == Some(i as int) && i < self.fates@.len()
                    && self.fates@[i as int].name@ == name@,
                None => fate_index(self.fates@, name@) is None,
            },
    {
        let mut i: usize = 0;
        while i < self.fates.len()
            invariant
                i <= self.fates@.len(),
                fate_index_from(self.fates@, name@, 0) == fate_index_from(self.fates@, name@, i as int),
            decreases self.fates@.len() - i,
        {
            if self.fates[i].name == *name {
                return Some(i);
            }
            i = i + 1;
        }
        None
    }

    /// Position of the Subject with identifier `id`.
    fn find_subject(&self, id: SubjectId) -> (r: Option<usize>)
        ensures
            match r {
                Some(i) => subject_index(self.subjects@, id.0) == Some(i as int) && i < self.subjects@.len()
                    && self.subjects@[i as int].id.0 == id.0,
                None => subject_index(self.subjects@, id.0) is None,
            },
    {
        let mut i: usize = 0;
        while i < self.subjects.len()
            invariant
                i <= self.subjects@.len(),
                subject_index_from(self.subjects@, id.0, 0) == subject_index_from(
                    self.subjects@,
                    id.0,
                    i as int,
                ),
            decreases self.subjects@.len() - i,
        {
            if self.subjects[i].id.0 == id.0 {
                return Some(i);
            }
            i = i + 1;
        }
        None
    }

    /// Define a new Fate. Fails when sealed or when a Fate of that name exists.
    pub fn define_fate(&mut self, fate: Fate) -> (r: Result<(), ConcordanceError>)
        ensures
            final(self).spec_subjects() == old(self).spec_subjects(),
            final(self).spec_sealed() == old(self).spec_sealed(),
            final(self).spec_default_fate() == old(self).spec_default_fate(),
            old(self).spec_sealed() ==> (r matches Err(ConcordanceError::ConcordanceSealed))
                && final(self).spec_fates() == old(self).spec_fates(),
            !old(self).spec_sealed() && fate_index(old(self).spec_fates(), fate.name@) is Some ==> (r matches Err(
                ConcordanceError::FateAlreadyExists(n),
            ) && n@ == fate.name@) && final(self).spec_fates() == old(self).spec_fates(),
            !old(self).spec_sealed() && fate_index(old(self).spec_fates(), fate.name@) is None ==> r is Ok
                && final(self).spec_fates() == old(self).spec_fates().push(fate),
    {
        if self.sealed {
            return Err(ConcordanceError::ConcordanceSealed);
        }
        if self.find_fate(&fate.name).is_some() {
            return Err(ConcordanceError::FateAlreadyExists(fate.name.clone()));
        }
        self.fates.push(fate);
        Ok(())
    }

    /// Assign a Fate to a Subject, subject to the current Fate's transition rules
    /// (a privileged Fate may transition anywhere).
    pub fn assign_fate(&mut self, subject_id: SubjectId, fate_name: &str) -> (r: Result<(), ConcordanceError>)
        ensures
            assign_outcome(*old(self), *final(self), subject_id, fate_name@, r),
    {
        let name = fate_name.to_owned();
        if self.find_fate(&name).is_none() {
            return Err(ConcordanceError::FateNotFound(fate_name.to_owned()));
        }
        match self.find_subject(subject_id) {
            None => Err(ConcordanceError::SubjectNotFound(subject_id)),
            Some(si) => {
                let current = self.subjects[si].fate.clone();
                match self.find_fate(&current) {
                    Some(ci) => {
                        let allowed = contains_name(&self.fates[ci].allowed_transitions, &name);
                        if !allowed && !self.fates[ci].is_privileged {
                            return Err(ConcordanceError::TransitionDenied { from: current, to: name });
                        }
                    },
                    None => {},
                }
                let subject = Subject {
                    id: self.subjects[si].id,
                    fate: name,
                    subject_type: self.subjects[si].subject_type,
                };
                self.subjects.set(si, subject);
                Ok(())
            },
        }
    }

    /// Register a new Subject with the default Fate.
    pub fn register_subject(&mut self, subject_id: SubjectId, subject_type: SubjectType) -> (r: Result<(), ConcordanceError>)
        ensures
            final(self).spec_fates() == old(self).spec_fates(),
            final(self).spec_sealed() == old(self).spec_sealed(),
            final(self).spec_default_fate() == old(self).spec_default_fate(),
            subject_index(old(self).spec_subjects(), subject_id.0) is Some ==> (r matches Err(
                ConcordanceError::SubjectAlreadyExists(id),
            ) && id == subject_id) && final(self).spec_subjects() == old(self).spec_subjects(),
            subject_index(old(self).spec_subjects(), subject_id.0) is None ==> {
                let s = final(self).spec_subjects();
                &&& r is Ok
                &&& s.len() == old(self).spec_subjects().len() + 1
                &&& s.drop_last() == old(self).spec_subjects()
                &&& s.last().id == subject_id
                &&& s.last().fate@ == old(self).spec_default_fate()
                &&& s.last().subject_type == subject_type
            },
    {
        if self.find_subject(subject_id).is_some() {
            return Err(ConcordanceError::SubjectAlreadyExists(subject_id));
        }
        let subject = Subject { id: subject_id, fate: self.default_fate.clone(), subject_type };
        self.subjects.push(subject);
        assert(self.subjects@.drop_last() =~= old(self).subjects@);
        Ok(())
    }

    /// Check if a Subject can perform an operation.
    pub fn check_permission(&self, subject_id: SubjectId, operation: &Operation) -> (r: Result<bool, ConcordanceError>)
        ensures
            ({
                let subjects = self.spec_subjects();
                let fates = self.spec_fates();
                match subject_index(subjects, subject_id.0) {
                    None => r matches Err(ConcordanceError::SubjectNotFound(id)) && id == subject_id,
                    Some(si) => match fate_index(fates, subjects[si].fate@) {
                        None => r matches Err(ConcordanceError::FateNotFound(n)) && n@ == subjects[si].fate@,
                        Some(fi) => r == Ok::<bool, ConcordanceError>(operation_allowed(fates[fi], *operation)),
                    },
                }
            }),
    {
        let si = match self.find_subject(subject_id) {
            Some(i) => i,
            None => {
                return Err(ConcordanceError::SubjectNotFound(subject_id));
            },
        };
        let fi = match self.find_fate(&self.subjects[si].fate) {
            Some(i) => i,
            None => {
                return Err(ConcordanceError::FateNotFound(self.subjects[si].fate.clone()));
            },
        };
        let fate = &self.fates[fi];
        match operation {
            Operation::FileRead(path) => Ok(Self::check_file_permission(fate, path.as_str(), FileAccess::Read)),
            Operation::FileWrite(path) => Ok(Self::check_file_permission(fate, path.as_str(), FileAccess::Write)),
            Operation::FileExecute(path) => Ok(Self::check_file_permission(fate, path.as_str(), FileAccess::Execute)),
            Operation::NetworkBind(port) => Ok(Self::check_network_permission(fate, *port, NetworkOperation::Bind)),
            Operation::NetworkConnect(port) => Ok(
                Self::check_network_permission(fate, *port, NetworkOperation::Connect),
            ),
            Operation::MemoryRead(addr) => Ok(Self::check_memory_permission(fate, *addr, MemoryAccess::Read)),
            Operation::MemoryWrite(addr) => Ok(Self::check_memory_permission(fate, *addr, MemoryAccess::Write)),
            Operation::Fork => Ok(fate.capabilities.can_fork),
            Operation::ReadSymbols => Ok(fate.capabilities.can_read_symbols),
        }
    }

    /// Check file permission against a Fate's capability and rules: a matching Deny
    /// rule refuses, otherwise a matching Allow rule grants; default deny.
    fn check_file_permission(fate: &Fate, path: &str, access: FileAccess) -> (r: bool)
        ensures
            r == file_allowed(*fate, path@, access),
    {
        let cap_allowed = match access {
            FileAccess::Read => fate.capabilities.can_read_files,
            FileAccess::Write => fate.capabilities.can_write_files,
            FileAccess::Execute => fate.capabilities.can_execute_files,
            FileAccess::ReadWrite => fate.capabilities.can_read_files && fate.capabilities.can_write_files,
            FileAccess::All => fate.capabilities.can_read_files && fate.capabilities.can_write_files
                && fate.capabilities.can_execute_files,
        };
        if !cap_allowed {
            return false;
        }
        let mut i: usize = 0;
        let mut allowed = false;
        while i < fate.file_rules.len()
            invariant
                i <= fate.file_rules@.len(),
                file_cap(fate.capabilities, access),
                forall|k: int|
                    0 <= k < i && #[trigger] path_matches_spec(fate.file_rules@[k].path_pattern@, path@)
                        ==> fate.file_rules@[k].permission == Permission::Allow,
                allowed <==> exists|k: int|
                    0 <= k < i && #[trigger] path_matches_spec(fate.file_rules@[k].path_pattern@, path@)
                        && fate.file_rules@[k].permission == Permission::Allow,
            decreases fate.file_rules@.len() - i,
        {
            if path_matches(fate.file_rules[i].path_pattern.as_str(), path) {
                match fate.file_rules[i].permission {
                    Permission::Deny => {
                        assert(file_rule_matches(fate.file_rules@, path@, Permission::Deny));
                        return false;
                    },
                    Permission::Allow => {
                        allowed = true;
                    },
                }
            }
            i = i + 1;
        }
        proof {
            if file_rule_matches(fate.file_rules@, path@, Permission::Deny) {
                let k = choose|k: int| 0 <= k < fate.file_rules@.len() && #[trigger] path_matches_spec(fate.file_rules@[k].path_pattern@, path@) && fate.file_rules@[k].permission == Permission::Deny;
                assert(fate.file_rules@[k].permission == Permission::Allow);
            }
        }
        allowed
    }

    /// Check network permission against a Fate's capability and rules (first match wins).
    fn check_network_permission(fate: &Fate, port: u16, op: NetworkOperation) -> (r: bool)
        ensures
            r == network_allowed(*fate, port, op),
    {
        let cap_allowed = match op {
            NetworkOperation::Bind => fate.capabilities.can_bind_network,
            NetworkOperation::Connect => fate.capabilities.can_connect_network,
            NetworkOperation::Listen => fate.capabilities.can_listen_network,
            NetworkOperation::SendTo => fate.capabilities.can_send_packets,
            NetworkOperation::ReceiveFrom => fate.capabilities.can_receive_packets,
        };
        if !cap_allowed {
            return false;
        }
        let mut i: usize = 0;
        while i < fate.network_rules.len()
            invariant
                i <= fate.network_rules@.len(),
                network_cap(fate.capabilities, op),
                first_network_rule(fate.network_rules@, port, 0) == first_network_rule(
                    fate.network_rules@,
                    port,
                    i as int,
                ),
            decreases fate.network_rules@.len() - i,
        {
            let rule = &fate.network_rules[i];
            if port >= rule.port_range.0 && port <= rule.port_range.1 {
                assert(first_network_rule(fate.network_rules@, port, i as int) == Some(rule.permission));
                return match rule.permission { Permission::Allow => true, Permission::Deny => false };
            }
            i = i + 1;
        }
        false
    }

    /// Check memory permission against a Fate's capability and rules (first match wins;
    /// no matching rule allows).
    fn check_memory_permission(fate: &Fate, addr: u64, access: MemoryAccess) -> (r: bool)
        ensures
            r == memory_allowed(*fate, addr, access),
    {
        let cap_allowed = match access {
            MemoryAccess::Read => true,
            MemoryAccess::Write => fate.capabilities.can_modify_memory,
            MemoryAccess::Execute => true,
            MemoryAccess::ReadWrite => fate.capabilities.can_modify_memory,
            MemoryAccess::All => fate.capabilities.can_modify_memory,
        };
        if !cap_allowed {
            return false;
        }
        let mut i: usize = 0;
        while i < fate.memory_rules.len()
            invariant
                i <= fate.memory_rules@.len(),
                memory_cap(fate.capabilities, access),
                first_memory_rule(fate.memory_rules@, addr, 0) == first_memory_rule(
                    fate.memory_rules@,
                    addr,
                    i as int,
                ),
            decreases fate.memory_rules@.len() - i,
        {
            let rule = &fate.memory_rules[i];
            if addr >= rule.address_range.0 && addr < rule.address_range.1 {
                assert(first_memory_rule(fate.memory_rules@, addr, i as int) == Some(rule.permission));
                return match rule.permission { Permission::Allow => true, Permission::Deny => false };
            }
            i = i + 1;
        }
        true
    }

    /// Seal the Concordance: no new Fates can be defined afterwards.
    pub fn seal(&mut self)
        ensures
            final(self).spec_sealed(),
            final(self).spec_fates() == old(self).spec_fates(),
            final(self).spec_subjects() == old(self).spec_subjects(),
            final(self).spec_default_fate() == old(self).spec_default_fate(),
    {
        self.sealed = true;
    }

    /// Check if the Concordance is sealed.
    pub fn is_sealed(&self) -> (r: bool)
        ensures
            r == self.spec_sealed(),
    {
        self.sealed
    }

    /// Set the default Fate for new Subjects; the Fate must be defined.
    pub fn set_default_fate(&mut self, fate_name: String) -> (r: Result<(), ConcordanceError>)
        ensures
            final(self).spec_fates() == old(self).spec_fates(),
            final(self).spec_subjects() == old(self).spec_subjects(),
            final(self).spec_sealed() == old(self).spec_sealed(),
            fate_index(old(self).spec_fates(), fate_name@) is Some ==> r is Ok && final(self).spec_default_fate()
                == fate_name@,
            fate_index(old(self).spec_fates(), fate_name@) is None ==> (r matches Err(
                ConcordanceError::FateNotFound(n),
            ) && n@ == fate_name@) && final(self).spec_default_fate() == old(self).spec_default_fate(),
    {
        if self.find_fate(&fate_name).is_none() {
            return Err(ConcordanceError::FateNotFound(fate_name));
        }
        self.default_fate = fate_name;
        Ok(())
    }

    /// All Fates, in the order they were defined.
    pub fn fates(&self) -> (r: &[Fate])
        ensures
            r@ == self.spec_fates(),
    {
        self.fates.as_slice()
    }

    /// All Subjects, in the order they were registered.
    pub fn subjects(&self) -> (r: &[Subject])
        ensures
            r@ == self.spec_subjects(),
    {
        self.subjects.as_slice()
    }

    /// Positions of the Fates in the order of their names, the order in which
    /// they are listed.
    pub fn fates_by_name(&self) -> (r: Vec<usize>)
        ensures
            lists_each_index(r@, self.spec_fates().len() as int),
            forall|a: int, b: int|
                0 <= a < b < r@.len() ==> name_le(
                    self.spec_fates()[#[trigger] r@[a] as int].name@,
                    self.spec_fates()[#[trigger] r@[b] as int].name@,
                ),
    {
        let mut keys: Vec<Vec<char>> = Vec::new();
        let mut i: usize = 0;
        while i < self.fates.len()
            invariant
                i <= self.fates@.len(),
                keys@.len() == i,
                forall|k: int| 0 <= k < i ==> (#[trigger] keys@[k])@ == self.fates@[k].name@,
            decreases self.fates@.len() - i,
        {
            keys.push(chars_of(self.fates[i].name.as_str()));
            i = i + 1;
        }
        order_by_name(&keys)
    }

    /// Positions of the Subjects in increasing order of identifier, the order in
    /// which they are listed.
    pub fn subjects_by_id(&self) -> (r: Vec<usize>)
        ensures
            lists_each_index(r@, self.spec_subjects().len() as int),
            forall|a: int, b: int|
                0 <= a < b < r@.len() ==> self.spec_subjects()[#[trigger] r@[a] as int].id.0
                    <= self.spec_subjects()[#[trigger] r@[b] as int].id.0,
    {
        let mut keys: Vec<u64> = Vec::new();
        let mut i: usize = 0;
        while i < self.subjects.len()
            invariant
                i <= self.subjects@.len(),
                keys@.len() == i,
                forall|k: int| 0 <= k < i ==> #[trigger] keys@[k] == self.subjects@[k].id.0,
            decreases self.subjects@.len() - i,
        {
            keys.push(self.subjects[i].id.0);
            i = i + 1;
        }
        order_by_id(&keys)
    }

    /// The Fate named `name`.
    pub fn get_fate(&self, name: &str) -> (r: Option<&Fate>)
        ensures
            match fate_index(self.spec_fates(), name@) {
                Some(i) => r == Some(&self.spec_fates()[i]),
                None => r is None,
            },
    {
        let n = name.to_owned();
        match self.find_fate(&n) {
            Some(i) => Some(&self.fates[i]),
            None => None,
        }
    }

    /// Get the number of defined Fates.
    pub fn fate_count(&self) -> (r: usize)
        ensures
            r == self.spec_fates().len(),
    {
        self.fates.len()
    }

    /// Get the number of registered Subjects.
    pub fn subject_count(&self) -> (r: usize)
        ensures
            r == self.spec_subjects().len(),
    {
        self.subjects.len()
    }
}


/// The Guardian Fate: kernel threads, every capability, everything allowed.
pub open spec fn is_guardian_fate(f: Fate) -> bool {
    let c = f.capabilities;
    &&& f.name@ == "Guardian"@
    &&& f.description@ == "The eternal guardians of the Heartwood. Full privileges."@
    &&& c.can_read_files && c.can_write_files && c.can_execute_files && c.can_create_files
    &&& c.can_delete_files && c.can_bind_network && c.can_connect_network && c.can_listen_network
    &&& c.can_send_packets && c.can_receive_packets && c.can_fork && c.can_exec && c.can_kill
    &&& c.can_change_priority && c.can_allocate_memory && c.can_modify_memory && c.can_share_memory
    &&& c.can_send_ipc && c.can_receive_ipc && c.can_read_symbols && c.can_load_modules
    &&& c.can_modify_system
    &&& f.file_rules@.len() == 1
    &&& f.file_rules@[0].path_pattern@ == "/**"@
    &&& f.file_rules@[0].access_type == FileAccess::All
    &&& f.file_rules@[0].permission == Permission::Allow
    &&& f.network_rules@.len() == 1
    &&& f.network_rules@[0].port_range == (0u16, 65535u16)
    &&& f.network_rules@[0].operation == NetworkOperation::Bind
    &&& f.network_rules@[0].permission == Permission::Allow
    &&& f.memory_rules@.len() == 0
    &&& f.allowed_transitions@.len() == 2
    &&& f.allowed_transitions@[0]@ == "Guardian"@
    &&& f.allowed_transitions@[1]@ == "Weaver"@
    &&& f.is_privileged
}

/// The Weaver Fate: general user threads with a restricted capability set.
pub open spec fn is_weaver_fate(f: Fate) -> bool {
    let c = f.capabilities;
    &&& f.name@ == "Weaver"@
    &&& f.description@ == "Those who weave the threads of computation."@
    &&& c.can_read_files && !c.can_write_files && c.can_execute_files && !c.can_create_files
    &&& !c.can_delete_files && !c.can_bind_network && c.can_connect_network && !c.can_listen_network
    &&& c.can_send_packets && c.can_receive_packets && c.can_fork && c.can_exec && !c.can_kill
    &&& !c.can_change_priority && c.can_allocate_memory && c.can_modify_memory && !c.can_share_memory
    &&& c.can_send_ipc && c.can_receive_ipc && !c.can_read_symbols && !c.can_load_modules
    &&& !c.can_modify_system
    &&& f.file_rules@.len() == 1
    &&& f.file_rules@[0].path_pattern@ == "/home/**"@
    &&& f.file_rules@[0].access_type == FileAccess::ReadWrite
    &&& f.file_rules@[0].permission == Permission::Allow
    &&& f.network_rules@.len() == 1
    &&& f.network_rules@[0].port_range == (1024u16, 65535u16)
    &&& f.network_rules@[0].operation == NetworkOperation::Connect
    &&& f.network_rules@[0].permission == Permission::Allow
    &&& f.memory_rules@.len() == 0
    &&& f.allowed_transitions@.len() == 1
    &&& f.allowed_transitions@[0]@ == "Weaver"@
    &&& !f.is_privileged
}

/// Adding a Fate of another name does not make a missing name appear.
proof fn lemma_fate_index_push_absent(fates: Seq<Fate>, f: Fate, name: Seq<char>, i: int)
    requires
        0 <= i,
        fate_index_from(fates, name, i) is None,
        f.name@ != name,
    ensures
        fate_index_from(fates.push(f), name, i) is None,
    decreases fates.len() + 1 - i,
{
    if i < fates.len() {
        assert(fates.push(f)[i] == fates[i]);
        lemma_fate_index_push_absent(fates, f, name, i + 1);
    } else if i == fates.len() {
        assert(fates.push(f)[i] == f);
        assert(fate_index_from(fates.push(f), name, i + 1) is None);
    }
}

/// Build the Guardian Fate.
fn guardian_fate() -> (f: Fate)
    ensures
        is_guardian_fate(f),
{
    let c = FateCapabilities {
        can_read_files: true,
        can_write_files: true,
        can_execute_files: true,
        can_create_files: true,
        can_delete_files: true,
        can_bind_network: true,
        can_connect_network: true,
        can_listen_network: true,
        can_send_packets: true,
        can_receive_packets: true,
        can_fork: true,
        can_exec: true,
        can_kill: true,
        can_change_priority: true,
        can_allocate_memory: true,
        can_modify_memory: true,
        can_share_memory: true,
        can_send_ipc: true,
        can_receive_ipc: true,
        can_read_symbols: true,
        can_load_modules: true,
        can_modify_system: true,
    };
    let file_rule = FileRule { path_pattern: "/**".to_owned(), access_type: FileAccess::All, permission: Permission::Allow };
    let network_rule = NetworkRule { port_range: (0, 65535), operation: NetworkOperation::Bind, permission: Permission::Allow };
    Fate {
        name: "Guardian".to_owned(),
        description: "The eternal guardians of the Heartwood. Full privileges.".to_owned(),
        capabilities: c,
        file_rules: vec![file_rule],
        network_rules: vec![network_rule],
        memory_rules: Vec::new(),
        allowed_transitions: vec!["Guardian".to_owned(), "Weaver".to_owned()],
        is_privileged: true,
    }
}

/// Build the Weaver Fate.
fn weaver_fate() -> (f: Fate)
    ensures
        is_weaver_fate(f),
{
    let c = FateCapabilities {
        can_read_files: true,
        can_write_files: false,
        can_execute_files: true,
        can_create_files: false,
        can_delete_files: false,
        can_bind_network: false,
        can_connect_network: true,
        can_listen_network: false,
        can_send_packets: true,
        can_receive_packets: true,
        can_fork: true,
        can_exec: true,
        can_kill: false,
        can_change_priority: false,
        can_allocate_memory: true,
        can_modify_memory: true,
        can_share_memory: false,
        can_send_ipc: true,
        can_receive_ipc: true,
        can_read_symbols: false,
        can_load_modules: false,
        can_modify_system: false,
    };
    let file_rule = FileRule {
        path_pattern: "/home/**".to_owned(),
        access_type: FileAccess::ReadWrite,
        permission: Permission::Allow,
    };
    let network_rule = NetworkRule {
        port_range: (1024, 65535),
        operation: NetworkOperation::Connect,
        permission: Permission::Allow,
    };
    Fate {
        name: "Weaver".to_owned(),
        description: "Those who weave the threads of computation.".to_owned(),
        capabilities: c,
        file_rules: vec![file_rule],
        network_rules: vec![network_rule],
        memory_rules: Vec::new(),
        allowed_transitions: vec!["Weaver".to_owned()],
        is_privileged: false,
    }
}

/// Define the default system Fates: the Guardian, then the Weaver.
pub fn define_default_fates(concordance: &mut Concordance)
    requires
        !old(concordance).spec_sealed(),
        fate_index(old(concordance).spec_fates(), "Guardian"@) is None,
        fate_index(old(concordance).spec_fates(), "Weaver"@) is None,
    ensures
        final(concordance).spec_subjects() == old(concordance).spec_subjects(),
        final(concordance).spec_sealed() == old(concordance).spec_sealed(),
        final(concordance).spec_default_fate() == old(concordance).spec_default_fate(),
        final(concordance).spec_fates().len() == old(concordance).spec_fates().len() + 2,
        final(concordance).spec_fates().subrange(0, old(concordance).spec_fates().len() as int)
            == old(concordance).spec_fates(),
        is_guardian_fate(final(concordance).spec_fates()[old(concordance).spec_fates().len() as int]),
        is_weaver_fate(final(concordance).spec_fates()[old(concordance).spec_fates().len() as int + 1]),
{
    proof {
        reveal_strlit("Guardian");
        reveal_strlit("Weaver");
    }
    let ghost f0 = concordance.spec_fates();
    let guardian = guardian_fate();
    let weaver = weaver_fate();
    let ghost g = guardian;
    let _ = concordance.define_fate(guardian);
    proof {
        assert(g.name@[0] != "Weaver"@[0]);
        lemma_fate_index_push_absent(f0, g, "Weaver"@, 0);
    }
    let _ = concordance.define_fate(weaver);
    proof {
        assert(concordance.spec_fates().subrange(0, f0.len() as int) =~= f0);
    }
}

/// Build the Concordance the kernel starts with: the default Fates, with the
/// Guardian as the default Fate for new Subjects.
pub fn init_concordance() -> (c: Concordance)
    ensures
        c.spec_fates().len() == 2,
        is_guardian_fate(c.spec_fates()[0]),
        is_weaver_fate(c.spec_fates()[1]),
        c.spec_subjects().len() == 0,
        !c.spec_sealed(),
        c.spec_default_fate() == "Guardian"@,
{
    let mut concordance = Concordance::new();
    define_default_fates(&mut concordance);
    proof {
        reveal_strlit("Guardian");
        assert(concordance.spec_fates()[0].name@ == "Guardian"@);
    }
    let _ = concordance.set_default_fate("Guardian".to_owned());
    concordance
}

} // verus!
