//! Calling a routine of the game's process from outside it: which process, which
//! module, and where the routine stands in the other process.
use vstd::prelude::*;
use crate::text::text_eq;

verus! {

/// Where the parameter and the result of a remote call stand in the other process.
#[derive(Debug, Clone, Copy)]
pub struct ParamWrapper {
    pub ptr_param: i64,
    pub ptr_result: i64,
}

/// The id of the process of a given name, from the ids of all processes of that
/// name: there must be exactly one.
pub fn process_id_of(pids: &[u32]) -> (r: Result<u32, &'static str>)
    ensures
        pids@.len() == 1 ==> r == Ok::<u32, &'static str>(pids@[0]),
        pids@.len() != 1 ==> (r matches Err(e) && e@ == "Process not found!"@),
{
    if pids.len() == 1 {
        Ok(pids[0])
    } else {
        Err("Process not found!")
    }
}

/// The first index at or after `from` whose module name is `name`.
pub open spec fn first_module_named(names: Seq<Option<String>>, name: Seq<char>, from: int) -> Option<int>
    decreases names.len() - from,
{
    if from < 0 || from >= names.len() {
        None
    } else if names[from] matches Some(n) && n@ == name {
        Some(from)
    } else {
        first_module_named(names, name, from + 1)
    }
}

/// Which of the loaded modules, by their base names (`None` where the name could not
/// be read), is the module `name`: the first one of that name.
pub fn module_index(names: &[Option<String>], name: &str) -> (r: Option<usize>)
    ensures
        r matches Some(i) ==> first_module_named(names@, name@, 0) == Some(i as int),
        r is None ==> first_module_named(names@, name@, 0) is None,
{
    let mut i: usize = 0;
    while i < names.len()
        invariant
            0 <= i <= names@.len(),
            first_module_named(names@, name@, 0) == first_module_named(names@, name@, i as int),
        decreases names@.len() - i,
    {
        match &names[i] {
            Some(n) => {
                if text_eq(n.as_str(), name) {
                    return Some(i);
                }
            },
            None => {},
        }
        i = i + 1;
    }
    None
}

/// Where a routine stands in another process: at the same offset from its module's
/// base as in this process.
pub fn remote_proc_address(local_proc: i64, local_module: i64, remote_module: i64) -> (r: i64)
    requires
        i64::MIN <= local_proc - local_module <= i64::MAX,
        i64::MIN <= local_proc - local_module + remote_module <= i64::MAX,
    ensures
        r == local_proc - local_module + remote_module,
{
    local_proc - local_module + remote_module
}

/// `module_index` answers with the first index whose module is named `name`, index 0
/// included, and with nothing exactly when no module has that name.
pub proof fn law_module_index_is_first_of_name(names: Seq<Option<String>>, name: Seq<char>)
    ensures
        first_module_named(names, name, 0) matches Some(i) ==> {
            &&& 0 <= i < names.len()
            &&& names[i] matches Some(n) && n@ == name
            &&& forall|k: int| #![trigger names[k]] 0 <= k < i ==> !(names[k] matches Some(n) && n@ == name)
        },
        first_module_named(names, name, 0) is None ==> forall|k: int|
            #![trigger names[k]] 0 <= k < names.len() ==> !(names[k] matches Some(n) && n@ == name),
{
    lemma_first_module_named_from(names, name, 0);
}

proof fn lemma_first_module_named_from(names: Seq<Option<String>>, name: Seq<char>, from: int)
    requires
        0 <= from,
    ensures
        first_module_named(names, name, from) matches Some(i) ==> {
            &&& from <= i < names.len()
            &&& names[i] matches Some(n) && n@ == name
            &&& forall|k: int| #![trigger names[k]] from <= k < i ==> !(names[k] matches Some(n) && n@ == name)
        },
        first_module_named(names, name, from) is None ==> forall|k: int|
            #![trigger names[k]] from <= k < names.len() ==> !(names[k] matches Some(n) && n@ == name),
    decreases names.len() - from,
{
    if from < names.len() {
        lemma_first_module_named_from(names, name, from + 1);
    }
}

} // verus!
