//! Which members of an archive may be written out, and how.
//!
//! Member names come from the archive and are not trusted: one that could
//! leave the extraction directory rejects the whole archive before anything
//! is written.
use vstd::prelude::*;

verus! {

/// Why an archive could not be extracted.
#[derive(Debug)]
pub enum ZipError {
    /// Reading the archive or writing a member failed.
    Io(String),
    /// The archive is malformed.
    Zip(String),
    /// A member name that is not a plain relative path.
    MaliciousPath(String),
}

/// Whether a `.` or `..` path segment starts at position `a` of `name`.
pub open spec fn dot_segment_at(name: Seq<char>, a: int) -> bool {
    &&& 0 <= a < name.len()
    &&& (a == 0 || name[a - 1] == '/')
    &&& name[a] == '.'
    &&& ({
        ||| a + 1 == name.len()
        ||| name[a + 1] == '/'
        ||| (name[a + 1] == '.' && (a + 2 == name.len() || name[a + 2] == '/'))
    })
}

/// Whether a `..` path segment starts at position `a` of `name`.
pub open spec fn parent_segment_at(name: Seq<char>, a: int) -> bool {
    &&& 0 <= a && a + 1 < name.len()
    &&& (a == 0 || name[a - 1] == '/')
    &&& name[a] == '.' && name[a + 1] == '.'
    &&& (a + 2 == name.len() || name[a + 2] == '/')
}

/// Whether `name` is a plain relative path: not empty, not absolute, free of
/// NUL characters, and without `.` or `..` segments.
pub open spec fn is_plain_member(name: Seq<char>) -> bool {
    &&& name.len() > 0
    &&& name[0] != '/'
    &&& forall|i: int| 0 <= i < name.len() ==> name[i] != '\0'
    &&& forall|a: int| !dot_segment_at(name, a)
}

/// Whether `name` names a directory: it ends with `/`.
pub open spec fn names_directory(name: Seq<char>) -> bool {
    name.len() > 0 && name[name.len() - 1] == '/'
}

/// Whether every name of `names` is a plain relative path.
pub open spec fn all_plain_members(names: Seq<String>) -> bool {
    forall|i: int| 0 <= i < names.len() ==> is_plain_member(#[trigger] names[i]@)
}

/// A member name with a NUL character, a leading `/`, or a `..` segment is
/// never a plain member, wherever that segment would lead.
pub proof fn law_traversal_rejected(name: Seq<char>)
    requires
        ({
            ||| exists|i: int| 0 <= i < name.len() && name[i] == '\0'
            ||| (name.len() > 0 && name[0] == '/')
            ||| exists|a: int| parent_segment_at(name, a)
        }),
    ensures
        !is_plain_member(name),
{
    if exists|a: int| parent_segment_at(name, a) {
        let a = choose|a: int| parent_segment_at(name, a);
        assert(dot_segment_at(name, a));
    }
}

/// An archive with a member name holding a NUL character, a leading `/` or a
/// `..` segment, at any position among its members, is rejected as a whole:
/// [`plan_extraction`] plans no member of it.
pub proof fn law_archive_with_traversal_rejected(names: Seq<String>, j: int)
    requires
        0 <= j < names.len(),
        ({
            let name = names[j]@;
            ||| exists|i: int| 0 <= i < name.len() && name[i] == '\0'
            ||| (name.len() > 0 && name[0] == '/')
            ||| exists|a: int| parent_segment_at(name, a)
        }),
    ensures
        !all_plain_members(names),
{
    law_traversal_rejected(names[j]@);
}

/// Whether `name` is a plain relative path (see [`is_plain_member`]).
pub fn plain_member(name: &str) -> (r: bool)
    ensures
        r == is_plain_member(name@),
{
    let n = name.unicode_len();
    if n == 0 || name.get_char(0) == '/' {
        return false;
    }
    let mut i: usize = 0;
    while i < n
        invariant
            n == name@.len(),
            0 <= i <= n,
            forall|k: int| 0 <= k < i ==> name@[k] != '\0',
            forall|a: int| a < i ==> !dot_segment_at(name@, a),
        decreases n - i,
    {
        let c = name.get_char(i);
        if c == '\0' {
            return false;
        }
        if c == '.' && (i == 0 || name.get_char(i - 1) == '/') {
            if i + 1 == n {
                assert(dot_segment_at(name@, i as int));
                return false;
            }
            let c1 = name.get_char(i + 1);
            if c1 == '/' {
                assert(dot_segment_at(name@, i as int));
                return false;
            }
            if c1 == '.' && (i + 2 == n || name.get_char(i + 2) == '/') {
                assert(dot_segment_at(name@, i as int));
                return false;
            }
        }
        assert(!dot_segment_at(name@, i as int));
        i = i + 1;
    }
    proof {
        assert forall|a: int| !dot_segment_at(name@, a) by {
            if a >= n {
                assert(!dot_segment_at(name@, a));
            }
        }
    }
    true
}

/// One member to write out: a directory, or a file to fill with the member's
/// bytes. `name` is relative to the extraction directory.
#[derive(Debug)]
pub struct Member {
    pub name: String,
    pub is_dir: bool,
}

/// What to write for the archive members `names`, in their order; or the
/// first name that is not a plain relative path.
pub fn plan_extraction(names: &Vec<String>) -> (r: Result<Vec<Member>, ZipError>)
    ensures
        all_plain_members(names@) <==> r is Ok,
        r is Ok ==> ({
            let v = r->Ok_0@;
            &&& v.len() == names@.len()
            &&& forall|i: int|
                0 <= i < v.len() ==> v[i].name == names@[i] && v[i].is_dir == names_directory(
                    names@[i]@,
                )
        }),
        r is Err ==> exists|j: int|
            0 <= j < names@.len() && !is_plain_member(names@[j]@) && (forall|i: int|
                0 <= i < j ==> is_plain_member(names@[i]@)) && r == Err::<Vec<Member>, ZipError>(
                ZipError::MaliciousPath(names@[j]),
            ),
{
    let mut plan: Vec<Member> = Vec::new();
    let mut i: usize = 0;
    while i < names.len()
        invariant
            0 <= i <= names@.len(),
            plan@.len() == i,
            forall|k: int| 0 <= k < i ==> is_plain_member(names@[k]@),
            forall|k: int|
                0 <= k < i ==> plan@[k].name == names@[k] && plan@[k].is_dir == names_directory(
                    names@[k]@,
                ),
        decreases names@.len() - i,
    {
        let name = &names[i];
        if !plain_member(name.as_str()) {
            return Err(ZipError::MaliciousPath(name.clone()));
        }
        let n = name.as_str().unicode_len();
        let is_dir = name.as_str().get_char(n - 1) == '/';
        plan.push(Member { name: name.clone(), is_dir });
        i = i + 1;
    }
    Ok(plan)
}

} // verus!
