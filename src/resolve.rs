//! Resolution of a request target to a path under the document root.
//!
//! Resolution is pure: it composes bytes and touches no file system.
//!
//! It does not keep the result under the document root: a target with `..`
//! segments resolves to a path outside it. This gap is deliberate and kept;
//! a caller that needs containment must check the target before serving it.
//! A directory named without a trailing `/` resolves to the directory itself,
//! which the readability check rejects, so it is answered with `404` rather
//! than redirected.
use vstd::prelude::*;
use crate::bytes::push_all;
use vstd::string::StringSliceAdditionalSpecFns;

verus! {

/// The default document, served for `/` and for targets ending in `/`.
pub open spec fn index_name() -> Seq<u8> {
    "index.html".spec_bytes()
}

/// The path separator.
pub open spec fn slash() -> u8 {
    0x2fu8
}

/// `target` appended to `root` as a nested path: one separator between them,
/// the target's own leading `/` serving as that separator when it has one.
pub open spec fn joined(root: Seq<u8>, target: Seq<u8>) -> Seq<u8> {
    if target.len() > 0 && target[0] == slash() {
        root + target
    } else {
        root + seq![slash()] + target
    }
}

/// Whether the target names the root itself: empty, or exactly `/`.
pub open spec fn names_root(target: Seq<u8>) -> bool {
    target.len() == 0 || target == seq![slash()]
}

/// The path that a target resolves to under `root`.
pub open spec fn resolved_path(root: Seq<u8>, target: Seq<u8>) -> Seq<u8> {
    if names_root(target) {
        root + seq![slash()] + index_name()
    } else if target.last() == slash() {
        joined(root, target) + index_name()
    } else {
        joined(root, target)
    }
}

/// Resolves `target` under `root`: the root's default document for `/` or an
/// empty target, the default document inside the named directory for a
/// target ending in `/`, and the target itself otherwise.
pub fn resolve(root: &Vec<u8>, target: &Vec<u8>) -> (r: Vec<u8>)
    ensures
        r@ == resolved_path(root@, target@),
        names_root(target@) ==> r@ == root@ + seq![slash()] + index_name(),
        !names_root(target@) && target@.last() == slash() ==> r@ == joined(root@, target@)
            + index_name(),
        !names_root(target@) && target@.last() != slash() ==> r@ == joined(root@, target@),
{
    let mut r: Vec<u8> = Vec::new();
    push_all(&mut r, root.as_slice());
    let is_root = target.len() == 0 || (target.len() == 1 && target[0] == 0x2fu8);
    assert(is_root == names_root(target@)) by {
        if target@.len() == 1 && target@[0] == slash() {
            assert(target@ =~= seq![slash()]);
        }
    };
    if is_root {
        r.push(0x2fu8);
        push_all(&mut r, "index.html".as_bytes());
        return r;
    }
    if target[0] != 0x2fu8 {
        r.push(0x2fu8);
    }
    push_all(&mut r, target.as_slice());
    if target[target.len() - 1] == 0x2fu8 {
        push_all(&mut r, "index.html".as_bytes());
    }
    r
}

} // verus!
