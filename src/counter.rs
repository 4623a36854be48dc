use vstd::prelude::*;
use vstd::string::StringExecFns;
use crate::CounterError;
use crate::registry::{Key, NamedKeys};
use crate::storage::{read_i32_spec, succ_i32, Storage, StoredValue};

verus! {

/// Name under which the package of the installed logic is published.
pub const CONTRACT_PACKAGE_NAME: &'static str = "counter_package_name";

/// Name under which the upgrade-guarding access reference is published.
pub const CONTRACT_ACCESS_UREF: &'static str = "counter_access_uref";

/// Operation that adds one to the stored value.
pub const ENTRY_POINT_COUNTER_INC: &'static str = "counter_inc";

/// Operation that returns the stored value.
pub const ENTRY_POINT_COUNTER_GET: &'static str = "counter_get";

/// Name, in the installer's registry, of the reference to the version cell.
pub const CONTRACT_VERSION_KEY: &'static str = "version";

/// Name, in the installer's registry, of the installed logic unit.
pub const CONTRACT_KEY: &'static str = "counter";

/// Name, in the installed logic's own registry, of the counter's cell.
pub const COUNT_KEY: &'static str = "count";

/// Type of what an operation returns across the call boundary.
#[derive(Clone, Copy, Debug, PartialEq, Eq, Structural)]
pub enum CLType {
    Unit,
    I32,
}

/// Who may call an operation.
#[derive(Clone, Copy, Debug, PartialEq, Eq, Structural)]
pub enum EntryPointAccess {
    Public,
}

/// In whose context an operation runs: the installed logic's own, or the
/// caller's.
#[derive(Clone, Copy, Debug, PartialEq, Eq, Structural)]
pub enum EntryPointType {
    Contract,
    Session,
}

/// A declared operation of an installed logic unit; it takes no arguments.
#[derive(Clone, Debug)]
pub struct EntryPoint {
    pub name: String,
    pub ret: CLType,
    pub access: EntryPointAccess,
    pub entry_point_type: EntryPointType,
}

/// An installed logic unit: one version of a package, with its declared
/// operations and the registry it was given at install time.
#[derive(Clone, Debug)]
pub struct Contract {
    pub package: usize,
    pub version: u32,
    pub named_keys: NamedKeys,
    pub entry_points: Vec<EntryPoint>,
}

/// A package identity: the access reference that guards new versions, and
/// the version most recently registered.
#[derive(Clone, Copy, Debug, PartialEq, Eq, Structural)]
pub struct Package {
    pub access_uref: usize,
    pub latest_version: u32,
}

/// The persistent state that the operations act on: storage cells, the
/// installing account's registry, installed logic units and packages.
#[derive(Clone, Debug)]
pub struct Host {
    pub storage: Storage,
    pub account_keys: NamedKeys,
    pub contracts: Vec<Contract>,
    pub packages: Vec<Package>,
}

/// What resolving a binding to a storage reference gives.
pub open spec fn resolve_spec(b: Option<Key>) -> Result<usize, CounterError> {
    match b {
        None => Err(CounterError::MissingBinding),
        Some(Key::URef(u)) => Ok(u),
        Some(_) => Err(CounterError::WrongReferenceKind),
    }
}

/// What the read operation returns in the context of `keys`.
pub open spec fn read_result(keys: NamedKeys, cells: Seq<Option<StoredValue>>) -> Result<i32, CounterError> {
    match resolve_spec(keys.spec_get(COUNT_KEY@)) {
        Err(e) => Err(e),
        Ok(u) => read_i32_spec(cells, u as int),
    }
}

/// The cells after the increment operation in the context of `keys`, or
/// why it aborts.
pub open spec fn increment_result(keys: NamedKeys, cells: Seq<Option<StoredValue>>) -> Result<
    Seq<Option<StoredValue>>,
    CounterError,
> {
    match resolve_spec(keys.spec_get(COUNT_KEY@)) {
        Err(e) => Err(e),
        Ok(u) => match read_i32_spec(cells, u as int) {
            Err(e) => Err(e),
            Ok(v) => Ok(cells.update(u as int, Some(StoredValue::I32(succ_i32(v))))),
        },
    }
}

/// Resolves a binding to the storage cell it references.
pub fn resolve_storage(b: Option<Key>) -> (r: Result<usize, CounterError>)
    ensures
        r == resolve_spec(b),
{
    match b {
        None => Err(CounterError::MissingBinding),
        Some(Key::URef(u)) => Ok(u),
        Some(_) => Err(CounterError::WrongReferenceKind),
    }
}

/// The increment operation, run in the context of the registry `keys`.
pub fn counter_inc(keys: &NamedKeys, storage: &mut Storage) -> (r: Result<(), CounterError>)
    ensures
        match increment_result(*keys, old(storage).cells@) {
            Ok(cells) => r is Ok && final(storage).cells@ == cells,
            Err(e) => r == Err::<(), CounterError>(e) && final(storage).cells@ == old(
                storage,
            ).cells@,
        },
{
    let u = resolve_storage(keys.get(COUNT_KEY))?;
    storage.increment_i32(u)
}

/// The read operation, run in the context of the registry `keys`.
pub fn counter_get(keys: &NamedKeys, storage: &Storage) -> (r: Result<i32, CounterError>)
    ensures
        r == read_result(*keys, storage.cells@),
{
    let u = resolve_storage(keys.get(COUNT_KEY))?;
    storage.read_i32(u)
}

/// Whether `name` is among the declared operations `eps`.
pub open spec fn declares(eps: Seq<EntryPoint>, name: Seq<char>) -> bool {
    exists|i: int| 0 <= i < eps.len() && (#[trigger] eps[i]).name@ == name
}

/// The two declared operations of the counter: read, returning a signed
/// integer, and increment, returning nothing; both public, both run in the
/// installed logic's own context.
pub open spec fn is_counter_entry_points(eps: Seq<EntryPoint>) -> bool {
    &&& eps.len() == 2
    &&& eps[0].name@ == ENTRY_POINT_COUNTER_GET@
    &&& eps[0].ret == CLType::I32
    &&& eps[0].access == EntryPointAccess::Public
    &&& eps[0].entry_point_type == EntryPointType::Contract
    &&& eps[1].name@ == ENTRY_POINT_COUNTER_INC@
    &&& eps[1].ret == CLType::Unit
    &&& eps[1].access == EntryPointAccess::Public
    &&& eps[1].entry_point_type == EntryPointType::Contract
}

/// The cells after calling operation `name` of the installed logic `c`, and
/// what the call returns.
pub open spec fn dispatch(c: Contract, cells: Seq<Option<StoredValue>>, name: Seq<char>) -> (
    Seq<Option<StoredValue>>,
    Result<Option<i32>, CounterError>,
) {
    if !declares(c.entry_points@, name) {
        (cells, Err(CounterError::UnknownEntryPoint))
    } else if name == ENTRY_POINT_COUNTER_INC@ {
        match increment_result(c.named_keys, cells) {
            Ok(next) => (next, Ok(None)),
            Err(e) => (cells, Err(e)),
        }
    } else if name == ENTRY_POINT_COUNTER_GET@ {
        match read_result(c.named_keys, cells) {
            Ok(v) => (cells, Ok(Some(v))),
            Err(e) => (cells, Err(e)),
        }
    } else {
        (cells, Err(CounterError::UnknownEntryPoint))
    }
}

/// The declared operations of the counter, in the order they are registered.
pub fn counter_entry_points() -> (r: Vec<EntryPoint>)
    ensures
        is_counter_entry_points(r@),
{
    let mut eps: Vec<EntryPoint> = Vec::new();
    eps.push(
        EntryPoint {
            name: String::from_str(ENTRY_POINT_COUNTER_GET),
            ret: CLType::I32,
            access: EntryPointAccess::Public,
            entry_point_type: EntryPointType::Contract,
        },
    );
    eps.push(
        EntryPoint {
            name: String::from_str(ENTRY_POINT_COUNTER_INC),
            ret: CLType::Unit,
            access: EntryPointAccess::Public,
            entry_point_type: EntryPointType::Contract,
        },
    );
    eps
}

fn declares_exec(eps: &Vec<EntryPoint>, name: &String) -> (r: bool)
    ensures
        r == declares(eps@, name@),
{
    let mut i: usize = 0;
    while i < eps.len()
        invariant
            i <= eps.len(),
            forall|j: int| 0 <= j < i ==> (#[trigger] eps@[j]).name@ != name@,
        decreases eps.len() - i,
    {
        if eps[i].name == *name {
            return true;
        }
        i = i + 1;
    }
    false
}

impl Host {
    /// The package that the installer's registry binds `name` to, if that
    /// binding names a registered package.
    pub open spec fn package_bound(&self, name: Seq<char>) -> Option<usize> {
        match self.account_keys.spec_get(name) {
            Some(Key::Package(p)) => if p < self.packages@.len() {
                Some(p)
            } else {
                None
            },
            _ => None,
        }
    }

    /// The installer's registry binds each name at most once.
    pub open spec fn wf(&self) -> bool {
        self.account_keys.wf()
    }

    /// The version that the next install of the counter registers.
    pub open spec fn next_version(&self) -> int {
        match self.package_bound(CONTRACT_PACKAGE_NAME@) {
            Some(p) => self.packages@[p as int].latest_version + 1,
            None => 1,
        }
    }

    /// A host with nothing installed and nothing stored.
    pub fn new() -> (r: Host)
        ensures
            r.wf(),
            r.storage.cells@.len() == 0,
            r.account_keys.bindings().len() == 0,
            r.contracts@.len() == 0,
            r.packages@.len() == 0,
    {
        Host {
            storage: Storage::new(),
            account_keys: NamedKeys::new(),
            contracts: Vec::new(),
            packages: Vec::new(),
        }
    }

    fn find_package(&self, name: &str) -> (r: Option<usize>)
        ensures
            r == self.package_bound(name@),
    {
        match self.account_keys.get(name) {
            Some(Key::Package(p)) => if p < self.packages.len() {
                Some(p)
            } else {
                None
            },
            _ => None,
        }
    }

    /// Registers a new version of the package that the installer's registry
    /// names `hash_name`, creating and publishing the package, with its
    /// access reference under `access_name`, when there is none. Returns the
    /// new logic unit's index and its version.
    pub fn new_contract(
        &mut self,
        entry_points: Vec<EntryPoint>,
        named_keys: NamedKeys,
        hash_name: &str,
        access_name: &str,
    ) -> (r: (usize, u32))
        requires
            old(self).wf(),
            match old(self).package_bound(hash_name@) {
                Some(p) => old(self).packages@[p as int].latest_version < u32::MAX,
                None => true,
            },
        ensures
            final(self).wf(),
            r.0 == old(self).contracts@.len(),
            final(self).contracts@.len() == old(self).contracts@.len() + 1,
            final(self).contracts@.drop_last() == old(self).contracts@,
            final(self).contracts@.last().version == r.1,
            final(self).contracts@.last().named_keys == named_keys,
            final(self).contracts@.last().entry_points == entry_points,
            match old(self).package_bound(hash_name@) {
                Some(p) => {
                    &&& r.1 == old(self).packages@[p as int].latest_version + 1
                    &&& final(self).contracts@.last().package == p
                    &&& final(self).packages@ == old(self).packages@.update(
                        p as int,
                        (Package { access_uref: old(self).packages@[p as int].access_uref, latest_version: r.1 }),
                    )
                    &&& final(self).storage == old(self).storage
                    &&& final(self).account_keys == old(self).account_keys
                },
                None => {
                    &&& r.1 == 1
                    &&& final(self).contracts@.last().package == old(self).packages@.len()
                    &&& final(self).packages@ == old(self).packages@.push(
                        (Package { access_uref: old(self).storage.cells@.len() as usize, latest_version: 1 }),
                    )
                    &&& final(self).storage.cells@ == old(self).storage.cells@.push(
                        Some(StoredValue::Unit),
                    )
                    &&& final(self).account_keys.spec_get(access_name@) == Some(
                        Key::URef(old(self).storage.cells@.len() as usize),
                    )
                    &&& hash_name@ != access_name@ ==> final(self).account_keys.spec_get(hash_name@)
                        == Some(Key::Package(old(self).packages@.len() as usize))
                    &&& forall|n: Seq<char>|
                        n != hash_name@ && n != access_name@ ==> final(self).account_keys.spec_get(n)
                            == old(self).account_keys.spec_get(n)
                },
            },
    {
        let ghost o = *self;
        let (package, version) = match self.find_package(hash_name) {
            Some(p) => {
                let pkg = self.packages[p];
                let v = pkg.latest_version + 1;
                self.packages.set(p, Package { access_uref: pkg.access_uref, latest_version: v });
                (p, v)
            },
            None => {
                let access = self.storage.new_uref(StoredValue::Unit);
                let p = self.packages.len();
                self.packages.push(Package { access_uref: access, latest_version: 1 });
                self.account_keys.put(hash_name, Key::Package(p));
                self.account_keys.put(access_name, Key::URef(access));
                (p, 1u32)
            },
        };
        let k = self.contracts.len();
        self.contracts.push(Contract { package, version, named_keys, entry_points });
        assert(self.contracts@.drop_last() =~= o.contracts@);
        (k, version)
    }

    /// Calls operation `name` of the installed logic unit `contract`, in that
    /// unit's own context. An operation that the unit does not declare aborts
    /// with nothing changed.
    pub fn call_entry_point(&mut self, contract: usize, name: &str) -> (r: Result<
        Option<i32>,
        CounterError,
    >)
        requires
            contract < old(self).contracts@.len(),
        ensures
            final(self).storage.cells@ == dispatch(
                old(self).contracts@[contract as int],
                old(self).storage.cells@,
                name@,
            ).0,
            r == dispatch(old(self).contracts@[contract as int], old(self).storage.cells@, name@).1,
            final(self).account_keys == old(self).account_keys,
            final(self).contracts == old(self).contracts,
            final(self).packages == old(self).packages,
    {
        let n = String::from_str(name);
        if !declares_exec(&self.contracts[contract].entry_points, &n) {
            return Err(CounterError::UnknownEntryPoint);
        }
        let inc = String::from_str(ENTRY_POINT_COUNTER_INC);
        let get = String::from_str(ENTRY_POINT_COUNTER_GET);
        if n == inc {
            match counter_inc(&self.contracts[contract].named_keys, &mut self.storage) {
                Ok(()) => Ok(None),
                Err(e) => Err(e),
            }
        } else if n == get {
            match counter_get(&self.contracts[contract].named_keys, &self.storage) {
                Ok(v) => Ok(Some(v)),
                Err(e) => Err(e),
            }
        } else {
            Err(CounterError::UnknownEntryPoint)
        }
    }
}

/// The install routine. Allocates the counter's cell holding zero, builds
/// the registry that binds it under `count`, registers the logic unit with
/// its two operations as a new version of the counter's package, and
/// publishes the version and the unit in the installer's registry.
pub fn call(host: &mut Host)
    requires
        old(host).wf(),
        old(host).next_version() <= u32::MAX,
    ensures
        final(host).wf(),
        final(host).contracts@.len() == old(host).contracts@.len() + 1,
        final(host).contracts@.drop_last() == old(host).contracts@,
        final(host).contracts@.last().version == old(host).next_version(),
        final(host).contracts@.last().named_keys.bindings() == seq![
            (COUNT_KEY@, Key::URef(old(host).storage.cells@.len() as usize)),
        ],
        is_counter_entry_points(final(host).contracts@.last().entry_points@),
        read_result(final(host).contracts@.last().named_keys, final(host).storage.cells@) == Ok::<
            i32,
            CounterError,
        >(0),
        final(host).storage.cells@.last() == Some(
            StoredValue::U32(old(host).next_version() as u32),
        ),
        final(host).account_keys.spec_get(CONTRACT_VERSION_KEY@) == Some(
            Key::URef((final(host).storage.cells@.len() - 1) as usize),
        ),
        final(host).account_keys.spec_get(CONTRACT_KEY@) == Some(
            Key::Contract(old(host).contracts@.len() as usize),
        ),
        match old(host).package_bound(CONTRACT_PACKAGE_NAME@) {
            Some(p) => {
                &&& final(host).storage.cells@ == old(host).storage.cells@ + seq![
                    Some(StoredValue::I32(0)),
                    Some(StoredValue::U32(old(host).next_version() as u32)),
                ]
                &&& final(host).contracts@.last().package == p
                &&& final(host).packages@ == old(host).packages@.update(
                    p as int,
                    (Package {
                        access_uref: old(host).packages@[p as int].access_uref,
                        latest_version: old(host).next_version() as u32,
                    }),
                )
                &&& final(host).package_bound(CONTRACT_PACKAGE_NAME@) == Some(p)
                &&& final(host).account_keys.spec_get(CONTRACT_PACKAGE_NAME@) == old(
                    host,
                ).account_keys.spec_get(CONTRACT_PACKAGE_NAME@)
                &&& final(host).account_keys.spec_get(CONTRACT_ACCESS_UREF@) == old(
                    host,
                ).account_keys.spec_get(CONTRACT_ACCESS_UREF@)
            },
            None => {
                &&& old(host).next_version() == 1
                &&& final(host).storage.cells@ == old(host).storage.cells@ + seq![
                    Some(StoredValue::I32(0)),
                    Some(StoredValue::Unit),
                    Some(StoredValue::U32(1)),
                ]
                &&& final(host).contracts@.last().package == old(host).packages@.len()
                &&& final(host).packages@ == old(host).packages@.push(
                    (Package {
                        access_uref: (old(host).storage.cells@.len() + 1) as usize,
                        latest_version: 1,
                    }),
                )
                &&& final(host).package_bound(CONTRACT_PACKAGE_NAME@) == Some(
                    old(host).packages@.len() as usize,
                )
                &&& final(host).account_keys.spec_get(CONTRACT_ACCESS_UREF@) == Some(
                    Key::URef(final(host).packages@.last().access_uref),
                )
            },
        },
        forall|n: Seq<char>|
            n != CONTRACT_VERSION_KEY@ && n != CONTRACT_KEY@ && n != CONTRACT_PACKAGE_NAME@ && n
                != CONTRACT_ACCESS_UREF@ ==> final(host).account_keys.spec_get(n) == old(
                host,
            ).account_keys.spec_get(n),
{
    let ghost o = *host;
    let count_start = host.storage.new_uref(StoredValue::I32(0));
    let mut counter_named_keys = NamedKeys::new();
    counter_named_keys.put(COUNT_KEY, Key::URef(count_start));
    let counter_entry_points = counter_entry_points();
    proof {
        reveal_strlit("counter_package_name");
        reveal_strlit("counter_access_uref");
        reveal_strlit("version");
        reveal_strlit("counter");
        reveal_strlit("count");
        assert(counter_named_keys.bindings() =~= seq![(COUNT_KEY@, Key::URef(count_start))]);
        assert(CONTRACT_VERSION_KEY@[0] != CONTRACT_KEY@[0]);
        assert(CONTRACT_PACKAGE_NAME@.len() != CONTRACT_ACCESS_UREF@.len());
        assert(CONTRACT_PACKAGE_NAME@.len() != CONTRACT_KEY@.len());
        assert(CONTRACT_PACKAGE_NAME@.len() != CONTRACT_VERSION_KEY@.len());
    }
    let (contract_hash, contract_version) = host.new_contract(
        counter_entry_points,
        counter_named_keys,
        CONTRACT_PACKAGE_NAME,
        CONTRACT_ACCESS_UREF,
    );
    let version_uref = host.storage.new_uref(StoredValue::U32(contract_version));
    host.account_keys.put(CONTRACT_VERSION_KEY, Key::URef(version_uref));
    host.account_keys.put(CONTRACT_KEY, Key::Contract(contract_hash));
    proof {
        assert(host.storage.cells@[count_start as int] == Some(StoredValue::I32(0)));
        if o.package_bound(CONTRACT_PACKAGE_NAME@) is Some {
            assert(host.storage.cells@ =~= o.storage.cells@ + seq![
                Some(StoredValue::I32(0)),
                Some(StoredValue::U32(contract_version)),
            ]);
        } else {
            assert(host.storage.cells@ =~= o.storage.cells@ + seq![
                Some(StoredValue::I32(0)),
                Some(StoredValue::Unit),
                Some(StoredValue::U32(1)),
            ]);
        }
    }
}

/// The cells after `n` calls of the increment operation of `c`, one after
/// the other.
pub open spec fn increments(c: Contract, cells: Seq<Option<StoredValue>>, n: nat) -> Seq<
    Option<StoredValue>,
>
    decreases n,
{
    if n == 0 {
        cells
    } else {
        dispatch(c, increments(c, cells, (n - 1) as nat), ENTRY_POINT_COUNTER_INC@).0
    }
}

/// Reading changes nothing, so a second read returns what the first did.
pub proof fn lemma_read_idempotent(c: Contract, cells: Seq<Option<StoredValue>>)
    ensures
        dispatch(c, cells, ENTRY_POINT_COUNTER_GET@).0 == cells,
        dispatch(c, dispatch(c, cells, ENTRY_POINT_COUNTER_GET@).0, ENTRY_POINT_COUNTER_GET@)
            == dispatch(c, cells, ENTRY_POINT_COUNTER_GET@),
{
    reveal_strlit("counter_get");
    reveal_strlit("counter_inc");
    assert(ENTRY_POINT_COUNTER_GET@[8] != ENTRY_POINT_COUNTER_INC@[8]);
}

/// When a read returns `v` and the next increment succeeds, the read after
/// it returns `v + 1`.
pub proof fn lemma_read_after_increment(c: Contract, cells: Seq<Option<StoredValue>>, v: i32)
    requires
        dispatch(c, cells, ENTRY_POINT_COUNTER_GET@).1 == Ok::<Option<i32>, CounterError>(Some(v)),
        dispatch(c, cells, ENTRY_POINT_COUNTER_INC@).1 is Ok,
        v < i32::MAX,
    ensures
        dispatch(c, dispatch(c, cells, ENTRY_POINT_COUNTER_INC@).0, ENTRY_POINT_COUNTER_GET@).1
            == Ok::<Option<i32>, CounterError>(Some((v + 1) as i32)),
{
    reveal_strlit("counter_get");
    reveal_strlit("counter_inc");
    assert(ENTRY_POINT_COUNTER_GET@[8] != ENTRY_POINT_COUNTER_INC@[8]);
}

/// Starting from a stored zero, `n` increments of the installed counter all
/// succeed, and a read then returns `n`.
pub proof fn lemma_increments_count(c: Contract, cells: Seq<Option<StoredValue>>, n: nat)
    requires
        is_counter_entry_points(c.entry_points@),
        dispatch(c, cells, ENTRY_POINT_COUNTER_GET@).1 == Ok::<Option<i32>, CounterError>(Some(0)),
        n <= i32::MAX,
    ensures
        forall|k: nat|
            k < n ==> (#[trigger] dispatch(c, increments(c, cells, k), ENTRY_POINT_COUNTER_INC@)).1
                == Ok::<Option<i32>, CounterError>(None),
        dispatch(c, increments(c, cells, n), ENTRY_POINT_COUNTER_GET@).1 == Ok::<
            Option<i32>,
            CounterError,
        >(Some(n as i32)),
    decreases n,
{
    reveal_strlit("counter_get");
    reveal_strlit("counter_inc");
    assert(ENTRY_POINT_COUNTER_GET@[8] != ENTRY_POINT_COUNTER_INC@[8]);
    assert(c.entry_points@[1].name@ == ENTRY_POINT_COUNTER_INC@);
    assert(declares(c.entry_points@, ENTRY_POINT_COUNTER_INC@));
    if n > 0 {
        let m = (n - 1) as nat;
        lemma_increments_count(c, cells, m);
        let before = increments(c, cells, m);
        assert(dispatch(c, before, ENTRY_POINT_COUNTER_INC@).1 == Ok::<Option<i32>, CounterError>(
            None,
        ));
        lemma_read_after_increment(c, before, m as i32);
        assert forall|k: nat| k < n implies (#[trigger] dispatch(
            c,
            increments(c, cells, k),
            ENTRY_POINT_COUNTER_INC@,
        )).1 == Ok::<Option<i32>, CounterError>(None) by {
            if k == m {
            }
        }
    }
}

/// Calling an operation that the logic unit does not declare aborts, and a
/// read afterwards returns what it returned before.
pub proof fn lemma_undeclared_call_keeps_value(
    c: Contract,
    cells: Seq<Option<StoredValue>>,
    name: Seq<char>,
)
    requires
        !declares(c.entry_points@, name),
    ensures
        dispatch(c, cells, name) == (cells, Err::<Option<i32>, CounterError>(
            CounterError::UnknownEntryPoint,
        )),
        dispatch(c, dispatch(c, cells, name).0, ENTRY_POINT_COUNTER_GET@) == dispatch(
            c,
            cells,
            ENTRY_POINT_COUNTER_GET@,
        ),
{
}

} // verus!
