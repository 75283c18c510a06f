//! Choice of the source to connect to, and of the extra discovery
//! addresses given on the command line.

use vstd::prelude::*;
use vstd::string::StringSliceAdditionalSpecFns;
use vstd::utf8::encode_utf8;

verus! {

/// Name of the source to connect to. Empty: the first source found.
pub const TARGET_SOURCE_NAME: &'static str = "";

/// Whether a command-line argument is an option rather than an address:
/// its UTF-8 text begins with two hyphens.
pub open spec fn is_option(arg: Seq<char>) -> bool {
    let bytes = encode_utf8(arg);
    bytes.len() >= 2 && bytes[0] == 45 && bytes[1] == 45
}

/// Whether position `i` of `args` holds an extra discovery address: an
/// argument after the program's name that is not an option.
pub open spec fn is_address_at(args: Seq<String>, i: int) -> bool {
    1 <= i < args.len() && !is_option(args[i]@)
}

/// The positions of the extra discovery addresses among the command-line
/// arguments, in order.
pub fn discovery_addresses(args: &Vec<String>) -> (found: Vec<usize>)
    ensures
        forall|k: int| 0 <= k < found@.len() ==> is_address_at(args@, #[trigger] found@[k] as int),
        forall|i: int| is_address_at(args@, i) ==> found@.contains(i as usize),
        forall|j: int, k: int| 0 <= j < k < found@.len() ==> found@[j] < found@[k],
{
    let mut found: Vec<usize> = Vec::new();
    let mut i: usize = 1;
    while i < args.len()
        invariant
            1 <= i,
            forall|k: int|
                0 <= k < found@.len() ==> is_address_at(args@, #[trigger] found@[k] as int)
                    && found@[k] < i,
            forall|j: int| j < i && is_address_at(args@, j) ==> found@.contains(j as usize),
            forall|j: int, k: int| 0 <= j < k < found@.len() ==> found@[j] < found@[k],
        decreases args.len() - i,
    {
        let bytes = args[i].as_str().as_bytes();
        let option = bytes.len() >= 2 && bytes[0] == 45 && bytes[1] == 45;
        if !option {
            let ghost before = found@;
            found.push(i);
            assert forall|j: int| j < i + 1 && is_address_at(args@, j) implies found@.contains(
                j as usize,
            ) by {
                if j < i {
                    let k = choose|k: int| 0 <= k < before.len() && before[k] == j as usize;
                    assert(found@[k] == j as usize);
                } else {
                    assert(found@[before.len() as int] == i);
                }
            }
        }
        i += 1;
    }
    found
}

/// Position of the source to connect to: with an empty `target` the first
/// source, otherwise the first source of that name. `None` when there is
/// no such source.
pub fn select_source(names: &Vec<String>, target: &str) -> (picked: Option<usize>)
    ensures
        target@.len() == 0 ==> (picked is Some <==> names@.len() > 0),
        target@.len() == 0 ==> (picked matches Some(i) ==> i == 0),
        target@.len() > 0 ==> (picked is Some <==> exists|i: int|
            0 <= i < names@.len() && (#[trigger] names@[i])@ == target@),
        target@.len() > 0 ==> (picked matches Some(i) ==> i < names@.len() && names@[i as int]@
            == target@ && forall|j: int| 0 <= j < i ==> (#[trigger] names@[j])@ != target@),
{
    if target.is_empty() {
        if names.len() > 0 {
            return Some(0);
        } else {
            return None;
        }
    }
    let wanted = target.to_owned();
    let mut i: usize = 0;
    while i < names.len()
        invariant
            i <= names@.len(),
            target@.len() > 0,
            wanted@ == target@,
            forall|j: int| 0 <= j < i ==> (#[trigger] names@[j])@ != target@,
        decreases names.len() - i,
    {
        if names[i] == wanted {
            return Some(i);
        }
        i += 1;
    }
    None
}

} // verus!
