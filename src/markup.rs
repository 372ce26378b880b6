//! From XML start tags to report events: which elements matter and which of
//! their attributes are read.
use vstd::prelude::*;
use vstd::string::StringSliceAdditionalSpecFns;

use crate::accumulator::{ReportEvent, TestCaseAttributes};
use crate::identity::opt_bytes;

verus! {

/// One attribute of a start tag, as raw bytes.
pub struct Attribute {
    pub key: Vec<u8>,
    pub value: Vec<u8>,
}

/// The value of the first attribute named `key`.
pub open spec fn first_value(attrs: Seq<Attribute>, key: Seq<u8>) -> Option<Seq<u8>>
    decreases attrs.len(),
{
    if attrs.len() == 0 {
        None
    } else if attrs[0].key@ == key {
        Some(attrs[0].value@)
    } else {
        first_value(attrs.drop_first(), key)
    }
}

fn bytes_eq(a: &[u8], b: &[u8]) -> (r: bool)
    ensures
        r == (a@ == b@),
{
    if a.len() != b.len() {
        return false;
    }
    let mut i: usize = 0;
    while i < a.len()
        invariant
            0 <= i <= a.len(),
            a@.len() == b@.len(),
            forall|j: int| 0 <= j < i ==> a@[j] == b@[j],
        decreases a.len() - i,
    {
        if a[i] != b[i] {
            return false;
        }
        i += 1;
    }
    proof {
        assert(a@ =~= b@);
    }
    true
}

/// The value of the first attribute named `key`, if any.
pub fn find_attribute(attrs: &Vec<Attribute>, key: &[u8]) -> (r: Option<Vec<u8>>)
    ensures
        opt_bytes(r) == first_value(attrs@, key@),
{
    let mut i: usize = 0;
    proof {
        assert(attrs@.subrange(0, attrs@.len() as int) =~= attrs@);
    }
    while i < attrs.len()
        invariant
            0 <= i <= attrs.len(),
            first_value(attrs@, key@) == first_value(
                attrs@.subrange(i as int, attrs@.len() as int),
                key@,
            ),
        decreases attrs.len() - i,
    {
        let ghost rest = attrs@.subrange(i as int, attrs@.len() as int);
        if bytes_eq(attrs[i].key.as_slice(), key) {
            return Some(attrs[i].value.clone());
        }
        proof {
            assert(rest.drop_first() =~= attrs@.subrange(i + 1, attrs@.len() as int));
        }
        i += 1;
    }
    None
}

pub open spec fn testcase_tag() -> Seq<u8> {
    "testcase".spec_bytes()
}

pub open spec fn skipped_tag() -> Seq<u8> {
    "skipped".spec_bytes()
}

pub open spec fn failure_tag() -> Seq<u8> {
    "failure".spec_bytes()
}

pub open spec fn error_tag() -> Seq<u8> {
    "error".spec_bytes()
}

/// The four element names that matter are told apart by their bytes.
proof fn lemma_tags_distinct()
    ensures
        testcase_tag() != skipped_tag(),
        testcase_tag() != failure_tag(),
        testcase_tag() != error_tag(),
        skipped_tag() != failure_tag(),
        skipped_tag() != error_tag(),
        failure_tag() != error_tag(),
{
    reveal_strlit("testcase");
    reveal_strlit("skipped");
    reveal_strlit("failure");
    reveal_strlit("error");
    assert(vstd::string::is_ascii("testcase"));
    assert(vstd::string::is_ascii("skipped"));
    assert(vstd::string::is_ascii("failure"));
    assert(vstd::string::is_ascii("error"));
    vstd::string::is_ascii_spec_bytes("testcase");
    vstd::string::is_ascii_spec_bytes("skipped");
    vstd::string::is_ascii_spec_bytes("failure");
    vstd::string::is_ascii_spec_bytes("error");
    assert(testcase_tag().len() == 8);
    assert(skipped_tag().len() == 7);
    assert(failure_tag().len() == 7);
    assert(error_tag().len() == 5);
    assert(skipped_tag()[0] != failure_tag()[0]);
}

/// Whether a start tag opens a test case.
pub fn is_testcase(tag: &[u8]) -> (r: bool)
    ensures
        r == (tag@ == testcase_tag()),
{
    bytes_eq(tag, "testcase".as_bytes())
}

/// The `time` attribute of a `testcase` tag, still as text.
pub fn time_attribute(attrs: &Vec<Attribute>) -> (r: Option<Vec<u8>>)
    ensures
        opt_bytes(r) == first_value(attrs@, "time".spec_bytes()),
{
    find_attribute(attrs, "time".as_bytes())
}

/// The event for a start tag: a `testcase` with its name-bearing attributes
/// and the duration read from its `time` attribute, a `skipped`, or a
/// `failure` or `error` (which are treated alike), each with its `message`.
/// Other elements give no event.
pub fn start_event(tag: &[u8], attrs: &Vec<Attribute>, duration: Option<i64>) -> (r: Option<
    ReportEvent,
>)
    ensures
        tag@ == testcase_tag() ==> (r matches Some(ReportEvent::TestCase(a)) && opt_bytes(a.name)
            == first_value(attrs@, "name".spec_bytes()) && opt_bytes(a.classname) == first_value(
            attrs@,
            "classname".spec_bytes(),
        ) && opt_bytes(a.id) == first_value(attrs@, "id".spec_bytes()) && a.duration
            == duration),
        tag@ == skipped_tag() ==> (r matches Some(ReportEvent::Skipped(m)) && opt_bytes(m)
            == first_value(attrs@, "message".spec_bytes())),
        tag@ == failure_tag() || tag@ == error_tag() ==> (r matches Some(
            ReportEvent::Failure(m),
        ) && opt_bytes(m) == first_value(attrs@, "message".spec_bytes())),
        tag@ != testcase_tag() && tag@ != skipped_tag() && tag@ != failure_tag() && tag@
            != error_tag() ==> r is None,
{
    proof {
        lemma_tags_distinct();
    }
    if bytes_eq(tag, "testcase".as_bytes()) {
        let name = find_attribute(attrs, "name".as_bytes());
        let classname = find_attribute(attrs, "classname".as_bytes());
        let id = find_attribute(attrs, "id".as_bytes());
        Some(ReportEvent::TestCase(TestCaseAttributes { name, classname, id, duration }))
    } else if bytes_eq(tag, "skipped".as_bytes()) {
        Some(ReportEvent::Skipped(find_attribute(attrs, "message".as_bytes())))
    } else if bytes_eq(tag, "failure".as_bytes()) || bytes_eq(tag, "error".as_bytes()) {
        Some(ReportEvent::Failure(find_attribute(attrs, "message".as_bytes())))
    } else {
        None
    }
}

} // verus!
