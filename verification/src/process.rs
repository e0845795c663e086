use sysinfo::{ProcessRefreshKind, RefreshKind, System};
use vstd::prelude::*;

verus! {

/// The names of the processes running on this machine, each as its bytes, as
/// `sysinfo` reads them (`System::new_with_specifics` with the process table
/// refreshed, then `Process::name` of each process); `None` when `sysinfo`
/// cannot read the system. Nothing is stated of the names: they are whatever
/// runs at the time.
#[verifier::external_body]
fn running_process_names() -> (names: Option<Vec<Vec<u8>>>) {
    let refresh = RefreshKind::nothing().with_processes(ProcessRefreshKind::everything());
    match System::new_with_specifics(refresh) {
        Ok(sys) => Some(
            sys.processes().values().map(|p| p.name().as_encoded_bytes().to_vec()).collect(),
        ),
        Err(_) => None,
    }
}

/// Whether two byte strings are equal.
pub fn bytes_equal(a: &[u8], b: &[u8]) -> (eq: bool)
    ensures
        eq == (a@ == b@),
{
    if a.len() != b.len() {
        return false;
    }
    let mut i: usize = 0;
    while i < a.len()
        invariant
            i <= a.len(),
            a.len() == b.len(),
            forall|k: int| 0 <= k < i ==> a@[k] == b@[k],
        decreases a.len() - i,
    {
        if a[i] != b[i] {
            return false;
        }
        i += 1;
    }
    assert(a@ =~= b@);
    true
}

/// Some name of `names` is `name`.
pub open spec fn name_listed(names: Seq<Seq<u8>>, name: Seq<u8>) -> bool {
    exists|i: int| 0 <= i < names.len() && #[trigger] names[i] == name
}

/// Whether `name` is one of `names`.
pub fn name_in_list(names: &Vec<Vec<u8>>, name: &[u8]) -> (found: bool)
    ensures
        found == name_listed(names@.map_values(|n: Vec<u8>| n@), name@),
{
    let ghost views = names@.map_values(|n: Vec<u8>| n@);
    let mut i: usize = 0;
    while i < names.len()
        invariant
            i <= names.len(),
            views == names@.map_values(|n: Vec<u8>| n@),
            forall|k: int| 0 <= k < i ==> views[k] != name@,
        decreases names.len() - i,
    {
        if bytes_equal(names[i].as_slice(), name) {
            assert(views[i as int] == name@);
            return true;
        }
        i += 1;
    }
    false
}

/// Whether `name`, as bytes, is one of the process names read, `names`; `false`
/// when the names could not be read.
pub fn process_running_in(names: &Option<Vec<Vec<u8>>>, name: &str) -> (found: bool)
    ensures
        found == (names matches Some(ns) && name_listed(
            ns@.map_values(|n: Vec<u8>| n@),
            vstd::utf8::encode_utf8(name@),
        )),
{
    match names {
        Some(ns) => name_in_list(ns, name.as_bytes()),
        None => false,
    }
}

/// Whether a process named `name` is running. What runs is read from the
/// system, so nothing is stated of the answer; when the system cannot be read
/// the answer is `false`.
pub fn check_running(name: &str) -> bool {
    process_running_in(&running_process_names(), name)
}

} // verus!
