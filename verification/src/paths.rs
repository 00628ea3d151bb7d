//! Where the local files live, relative to the operator's home directory.
use vstd::prelude::*;
use vstd::string::StringExecFns;

verus! {

/// The directory that holds all local state, under the home directory
/// `home`.
pub open spec fn basmati_directory_of(home: Seq<char>) -> Seq<char> {
    home + "/.basmati"@
}

/// The directory of the ledger file, under the state directory `base`.
pub open spec fn jobs_directory_of(base: Seq<char>) -> Seq<char> {
    base + "/jobs"@
}

/// The ledger file, under the state directory `base`.
pub open spec fn jobs_file_of(base: Seq<char>) -> Seq<char> {
    jobs_directory_of(base) + "/jobs.json"@
}

/// The directory of the inventory of `vault`, under the state directory
/// `base`.
pub open spec fn inventory_directory_of(base: Seq<char>, vault: Seq<char>) -> Seq<char> {
    base + "/vault/"@ + vault
}

/// The inventory file of `vault`, under the state directory `base`.
pub open spec fn inventory_file_of(base: Seq<char>, vault: Seq<char>) -> Seq<char> {
    inventory_directory_of(base, vault) + "/inventory.json"@
}

/// The directory that holds all local state, under the home directory
/// `home`.
pub fn basmati_directory(home: &str) -> (r: String)
    ensures
        r@ == basmati_directory_of(home@),
{
    String::from_str(home).concat("/.basmati")
}

/// The directory of the ledger file.
pub fn jobs_directory(base: &str) -> (r: String)
    ensures
        r@ == jobs_directory_of(base@),
{
    String::from_str(base).concat("/jobs")
}

/// The ledger file.
pub fn jobs_file(base: &str) -> (r: String)
    ensures
        r@ == jobs_file_of(base@),
{
    jobs_directory(base).concat("/jobs.json")
}

/// The directory of the inventory of `vault`.
pub fn inventory_directory(base: &str, vault: &str) -> (r: String)
    ensures
        r@ == inventory_directory_of(base@, vault@),
{
    String::from_str(base).concat("/vault/").concat(vault)
}

/// The inventory file of `vault`.
pub fn inventory_file(base: &str, vault: &str) -> (r: String)
    ensures
        r@ == inventory_file_of(base@, vault@),
{
    inventory_directory(base, vault).concat("/inventory.json")
}

} // verus!
