//! Derivation of a test identifier from the attributes of a `testcase` element.
use vstd::prelude::*;

verus! {

/// The byte `.` that joins a class name to a test name or an id.
pub const SEPARATOR: u8 = 46;

/// `a`, then the separator, then `b`.
pub open spec fn joined(a: Seq<u8>, b: Seq<u8>) -> Seq<u8> {
    a + seq![SEPARATOR] + b
}

/// The view of an optional byte string.
pub open spec fn opt_bytes(o: Option<Vec<u8>>) -> Option<Seq<u8>> {
    match o {
        Some(v) => Some(v@),
        None => None,
    }
}

/// The identifier of a test case, first match winning: class name and name,
/// class name and id, class name alone, id alone, name alone. `None` when
/// all three attributes are absent.
pub open spec fn test_id_of(
    name: Option<Seq<u8>>,
    classname: Option<Seq<u8>>,
    id: Option<Seq<u8>>,
) -> Option<Seq<u8>> {
    match classname {
        Some(c) => match name {
            Some(n) => Some(joined(c, n)),
            None => match id {
                Some(i) => Some(joined(c, i)),
                None => Some(c),
            },
        },
        None => match id {
            Some(i) => Some(i),
            None => name,
        },
    }
}

/// Builds `a.b`.
fn join(a: &Vec<u8>, b: &Vec<u8>) -> (r: Vec<u8>)
    ensures
        r@ == joined(a@, b@),
{
    let mut r: Vec<u8> = a.clone();
    r.push(SEPARATOR);
    let mut tail: Vec<u8> = b.clone();
    r.append(&mut tail);
    r
}

/// Derives the identifier of a test case from its `name`, `classname` and
/// `id` attributes; `None` when none of them is present.
pub fn derive_test_id(
    name: &Option<Vec<u8>>,
    classname: &Option<Vec<u8>>,
    id: &Option<Vec<u8>>,
) -> (r: Option<Vec<u8>>)
    ensures
        opt_bytes(r) == test_id_of(opt_bytes(*name), opt_bytes(*classname), opt_bytes(*id)),
{
    match classname {
        Some(c) => match name {
            Some(n) => Some(join(c, n)),
            None => match id {
                Some(i) => Some(join(c, i)),
                None => Some(c.clone()),
            },
        },
        None => match id {
            Some(i) => Some(i.clone()),
            None => match name {
                Some(n) => Some(n.clone()),
                None => None,
            },
        },
    }
}

} // verus!
