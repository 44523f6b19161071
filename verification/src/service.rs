//! Services: each a subdirectory of the log root holding a `current` file and
//! rotated siblings. Directory listing and glob expansion are outside
//! collaborators; here stand the checks and the pattern construction they
//! consume.

use vstd::prelude::*;
use vstd::string::StringExecFns;

use crate::error::SvLogError;
use crate::logfile::LogFile;
use crate::text::str_eq;

verus! {

/// The glob suffix naming a service's active file.
pub open spec fn current_suffix() -> Seq<char> {
    "/current"@
}

/// The glob suffix naming a service's rotated files.
pub open spec fn rotated_suffix() -> Seq<char> {
    "/*.[su]"@
}

/// Whether `x` equals the view of some element of `all`.
pub open spec fn name_in(all: Seq<String>, x: Seq<char>) -> bool {
    exists|j: int| 0 <= j < all.len() && all[j]@ == x
}

/// One cursor per resolved file path, each at the file's start.
pub fn service_log_files(service_file_paths: &Vec<String>) -> (r: Vec<LogFile>)
    ensures
        r@.len() == service_file_paths@.len(),
        forall|k: int|
            0 <= k < r@.len() ==> (#[trigger] r@[k]).name == service_file_paths@[k] && r@[k].position
                == 0,
{
    let mut r: Vec<LogFile> = Vec::new();
    let mut k: usize = 0;
    while k < service_file_paths.len()
        invariant
            k <= service_file_paths@.len(),
            r@.len() == k,
            forall|m: int|
                0 <= m < k ==> (#[trigger] r@[m]).name == service_file_paths@[m] && r@[m].position
                    == 0,
        decreases service_file_paths@.len() - k,
    {
        r.push(LogFile::new(service_file_paths[k].clone()));
        k = k + 1;
    }
    r
}

/// Checks that every requested service is an available one; fails with the
/// first, in request order, that is not.
pub fn check_services(all_services: &Vec<String>, services: &Vec<String>) -> (r: Result<
    (),
    SvLogError,
>)
    ensures
        r is Ok <==> (forall|i: int|
            0 <= i < services@.len() ==> name_in(all_services@, #[trigger] services@[i]@)),
        r matches Err(SvLogError::ServiceNotFoundError { service }) ==> !name_in(
            all_services@,
            service@,
        ) && (exists|i: int|
            {
                &&& 0 <= i < services@.len()
                &&& #[trigger] services@[i]@ == service@
                &&& forall|j: int| 0 <= j < i ==> name_in(all_services@, #[trigger] services@[j]@)
            }),
        r is Err ==> r matches Err(SvLogError::ServiceNotFoundError { .. }),
{
    let mut i: usize = 0;
    while i < services.len()
        invariant
            i <= services@.len(),
            forall|m: int| 0 <= m < i ==> name_in(all_services@, #[trigger] services@[m]@),
        decreases services@.len() - i,
    {
        let mut found = false;
        let mut j: usize = 0;
        while j < all_services.len()
            invariant
                i < services@.len(),
                j <= all_services@.len(),
                found ==> name_in(all_services@, services@[i as int]@),
                !found ==> forall|m: int| 0 <= m < j ==> all_services@[m]@ != services@[i as int]@,
            decreases all_services@.len() - j,
        {
            if str_eq(all_services[j].as_str(), services[i].as_str()) {
                found = true;
            }
            j = j + 1;
        }
        if !found {
            proof {
                assert(!name_in(all_services@, services@[i as int]@));
                // every earlier request is known, so this is the first
                // missing one in request order
                assert(forall|j: int| 0 <= j < i ==> name_in(all_services@, #[trigger] services@[j]@));
            }
            return Err(SvLogError::ServiceNotFoundError { service: services[i].clone() });
        }
        i = i + 1;
    }
    Ok(())
}

/// The glob patterns whose expansion names a set of services' log files: for
/// each service (or for every service, when none is named) the `current` file
/// and the rotated siblings, under the given log directory.
pub fn file_patterns(log_dir: &str, services: &Vec<String>) -> (r: Vec<String>)
    ensures
        services@.len() == 0 ==> {
            &&& r@.len() == 2
            &&& r@[0]@ == log_dir@ + "**"@ + current_suffix()
            &&& r@[1]@ == log_dir@ + "**"@ + rotated_suffix()
        },
        services@.len() > 0 ==> {
            &&& r@.len() == 2 * services@.len()
            &&& forall|k: int|
                0 <= k < services@.len() ==> #[trigger] r@[2 * k]@ == log_dir@ + services@[k]@
                    + current_suffix() && r@[2 * k + 1]@ == log_dir@ + services@[k]@
                    + rotated_suffix()
        },
{
    let mut r: Vec<String> = Vec::new();
    if services.len() == 0 {
        r.push(String::from_str(log_dir).concat("**").concat("/current"));
        r.push(String::from_str(log_dir).concat("**").concat("/*.[su]"));
        return r;
    }
    let mut k: usize = 0;
    while k < services.len()
        invariant
            k <= services@.len(),
            r@.len() == 2 * k,
            forall|m: int|
                0 <= m < k ==> #[trigger] r@[2 * m]@ == log_dir@ + services@[m]@ + current_suffix()
                    && r@[2 * m + 1]@ == log_dir@ + services@[m]@ + rotated_suffix(),
        decreases services@.len() - k,
    {
        r.push(String::from_str(log_dir).concat(services[k].as_str()).concat("/current"));
        r.push(String::from_str(log_dir).concat(services[k].as_str()).concat("/*.[su]"));
        proof {
            assert(r@.len() == 2 * k + 2);
            assert(r@[2 * k as int]@ == log_dir@ + services@[k as int]@ + current_suffix());
            assert(r@[2 * k as int + 1]@ == log_dir@ + services@[k as int]@ + rotated_suffix());
        }
        k = k + 1;
    }
    r
}

} // verus!
