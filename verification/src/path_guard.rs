use vstd::prelude::*;

verus! {

/// A path component boundary lies immediately before position `i`: either the
/// start of the string or a separator at `i - 1`.
pub open spec fn boundary_before(s: Seq<char>, i: int) -> bool {
    i == 0 || s[i - 1] == '/'
}

/// A path component boundary lies immediately after position `i - 1`: either
/// the end of the string or a separator at `i`.
pub open spec fn boundary_after(s: Seq<char>, i: int) -> bool {
    i == s.len() || s[i] == '/'
}

/// A current-directory component (a lone `.`) starts at position `i`.
pub open spec fn cur_marker_at(s: Seq<char>, i: int) -> bool {
    &&& 0 <= i < s.len()
    &&& s[i] == '.'
    &&& boundary_before(s, i)
    &&& boundary_after(s, i + 1)
}

/// A parent-directory component (a lone `..`) starts at position `i`.
pub open spec fn parent_marker_at(s: Seq<char>, i: int) -> bool {
    &&& 0 <= i
    &&& i + 1 < s.len()
    &&& s[i] == '.'
    &&& s[i + 1] == '.'
    &&& boundary_before(s, i)
    &&& boundary_after(s, i + 2)
}

/// The path begins with a root marker.
pub open spec fn has_root_marker(s: Seq<char>) -> bool {
    s.len() > 0 && s[0] == '/'
}

/// A relative path is acceptable exactly when it carries no root marker and
/// none of its `/`-separated components is `.` or `..`.
pub open spec fn spec_path_is_valid(s: Seq<char>) -> bool {
    &&& !has_root_marker(s)
    &&& forall|i: int| !cur_marker_at(s, i)
    &&& forall|i: int| !parent_marker_at(s, i)
}

/// The characters `[i, j)` form one whole component of the path: a maximal
/// non-empty separator-free run.
pub open spec fn is_component(s: Seq<char>, i: int, j: int) -> bool {
    &&& 0 <= i < j <= s.len()
    &&& boundary_before(s, i)
    &&& boundary_after(s, j)
    &&& forall|k: int| i <= k < j ==> s[k] != '/'
}

/// The marker-position spec is exactly the component-level reading: a path
/// is valid iff it has no root marker and none of its components is the
/// current-directory or the parent-directory name.
pub proof fn lemma_valid_iff_no_marker_component(s: Seq<char>)
    ensures
        spec_path_is_valid(s) <==> (!has_root_marker(s) && forall|i: int, j: int|
            is_component(s, i, j) ==> s.subrange(i, j) != "."@ && s.subrange(i, j) != ".."@),
{
    reveal_strlit(".");
    reveal_strlit("..");
    assert("."@.len() == 1);
    assert(".."@.len() == 2);
    if spec_path_is_valid(s) {
        assert forall|i: int, j: int| is_component(s, i, j) implies s.subrange(i, j) != "."@
            && s.subrange(i, j) != ".."@ by {
            if s.subrange(i, j) == "."@ {
                assert(j - i == 1);
                assert(s[i] == s.subrange(i, j)[0]);
                assert(cur_marker_at(s, i));
            }
            if s.subrange(i, j) == ".."@ {
                assert(j - i == 2);
                assert(s[i] == s.subrange(i, j)[0]);
                assert(s[i + 1] == s.subrange(i, j)[1]);
                assert(parent_marker_at(s, i));
            }
        }
    } else if !has_root_marker(s) {
        if exists|i: int| cur_marker_at(s, i) {
            let i = choose|i: int| cur_marker_at(s, i);
            assert(is_component(s, i, i + 1));
            assert(s.subrange(i, i + 1) =~= "."@);
        } else {
            let i = choose|i: int| parent_marker_at(s, i);
            assert(is_component(s, i, i + 2));
            assert(s.subrange(i, i + 2) =~= ".."@);
        }
    }
}

/// A text that is safe as one single path component: it holds no separator
/// and is not one of the two dot names.
pub open spec fn spec_safe_component(s: Seq<char>) -> bool {
    &&& forall|k: int| 0 <= k < s.len() ==> s[k] != '/'
    &&& s != "."@
    &&& s != ".."@
}

/// A safe single component is a valid path on its own.
pub proof fn lemma_safe_component_is_valid(s: Seq<char>)
    requires
        spec_safe_component(s),
    ensures
        spec_path_is_valid(s),
{
    reveal_strlit(".");
    reveal_strlit("..");
    assert("."@.len() == 1);
    assert(".."@.len() == 2);
    assert forall|i: int| !cur_marker_at(s, i) by {
        if cur_marker_at(s, i) {
            assert(i == 0 && i + 1 == s.len());
            assert(s =~= "."@);
        }
    }
    assert forall|i: int| !parent_marker_at(s, i) by {
        if parent_marker_at(s, i) {
            assert(i == 0 && i + 2 == s.len());
            assert(s =~= ".."@);
        }
    }
}

/// Text holding no current-directory and no parent-directory component.
pub open spec fn spec_marker_free(s: Seq<char>) -> bool {
    &&& forall|i: int| !cur_marker_at(s, i)
    &&& forall|i: int| !parent_marker_at(s, i)
}

/// Growing a non-empty valid path by marker-free text keeps it valid: every
/// dot component of the grown path would already have been one of the parts'
/// own, because the end of the left part is a component boundary there too.
pub proof fn lemma_append_marker_free(p: Seq<char>, q: Seq<char>)
    requires
        spec_path_is_valid(p),
        p.len() > 0,
        spec_marker_free(q),
    ensures
        spec_path_is_valid(p + q),
{
    let s = p + q;
    let m = p.len() as int;
    assert(s[0] == p[0]);
    assert forall|i: int| !cur_marker_at(s, i) by {
        if cur_marker_at(s, i) {
            if i < m {
                assert(cur_marker_at(p, i));
            } else {
                assert(cur_marker_at(q, i - m));
            }
        }
    }
    assert forall|i: int| !parent_marker_at(s, i) by {
        if parent_marker_at(s, i) {
            if i + 1 < m {
                assert(parent_marker_at(p, i));
            } else if i < m {
                assert(cur_marker_at(p, i));
            } else {
                assert(parent_marker_at(q, i - m));
            }
        }
    }
}

/// Check that a relative path stays inside the storage namespace: it is valid
/// iff no component is a parent-directory, current-directory or root marker.
///
/// This is a necessary but not sufficient traversal defense: it does not
/// block symbolic-link escapes or components that only resolve outside the
/// storage root on case-insensitive filesystems.
pub fn path_is_valid(path: &str) -> (valid: bool)
    ensures
        valid == spec_path_is_valid(path@),
{
    let ghost s = path@;
    let n = path.unicode_len();
    if n == 0 {
        assert(spec_path_is_valid(s));
        return true;
    }
    if path.get_char(0) == '/' {
        return false;
    }
    let mut i: usize = 0;
    while i < n
        invariant
            0 <= i <= n,
            n == s.len(),
            s == path@,
            n > 0 && s[0] != '/',
            forall|j: int| j < i ==> !cur_marker_at(s, j),
            forall|j: int| j < i ==> !parent_marker_at(s, j),
        decreases n - i,
    {
        let c = path.get_char(i);
        if c == '.' {
            let at_boundary = i == 0 || path.get_char(i - 1) == '/';
            if at_boundary {
                if i + 1 == n || path.get_char(i + 1) == '/' {
                    assert(cur_marker_at(s, i as int));
                    return false;
                }
                if path.get_char(i + 1) == '.' && (i + 2 == n || path.get_char(i + 2) == '/') {
                    assert(parent_marker_at(s, i as int));
                    return false;
                }
            }
        }
        i += 1;
    }
    true
}

} // verus!
